use wolf_screen_recorder::region::{get_active_region, set_active_region, ActiveRegion, SelectedRegion};

#[test]
fn new_region_keeps_its_fields() {
    let r = SelectedRegion::new(-10, 20, 640, 480);
    assert_eq!((r.x, r.y, r.width, r.height), (-10, 20, 640, 480));
}

#[test]
fn full_screen_until_a_region_is_chosen() {
    let store = ActiveRegion::new();
    assert_eq!(get_active_region(&store), None);
}

#[test]
fn get_gives_back_the_last_set_region() {
    let mut store = ActiveRegion::new();
    let a = SelectedRegion::new(0, 0, 100, 50);
    let b = SelectedRegion::new(5, 6, 7, 8);
    set_active_region(&mut store, Some(a));
    assert_eq!(get_active_region(&store), Some(a));
    set_active_region(&mut store, Some(b));
    assert_eq!(get_active_region(&store), Some(b));
    set_active_region(&mut store, None);
    assert_eq!(get_active_region(&store), None);
}
