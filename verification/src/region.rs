//! The screen region chosen for capture, and the place that remembers it.

use vstd::prelude::*;

verus! {

/// A rectangle of the screen: its top-left corner and its size.
#[derive(Debug, Clone, Copy, PartialEq, Eq, Structural)]
pub struct SelectedRegion {
    pub x: i32,
    pub y: i32,
    pub width: u32,
    pub height: u32,
}

impl SelectedRegion {
    /// The region of `width` by `height` pixels with its top-left at `(x, y)`.
    pub fn new(x: i32, y: i32, width: u32, height: u32) -> (r: SelectedRegion)
        ensures
            r == (SelectedRegion { x, y, width, height }),
    {
        SelectedRegion { x, y, width, height }
    }
}

/// The active capture region; `None` means the full screen.
#[derive(Debug, Clone, Copy, PartialEq, Eq, Structural)]
pub struct ActiveRegion {
    pub region: Option<SelectedRegion>,
}

impl ActiveRegion {
    /// Full screen: no region chosen.
    pub fn new() -> (a: ActiveRegion)
        ensures
            a.region is None,
    {
        ActiveRegion { region: None }
    }
}

/// The store after choosing `region`.
pub open spec fn spec_set_region(active: ActiveRegion, region: Option<SelectedRegion>) -> ActiveRegion {
    ActiveRegion { region, ..active }
}

/// What reading the store gives.
pub open spec fn spec_get_region(active: ActiveRegion) -> Option<SelectedRegion> {
    active.region
}

/// Chooses the capture region (`None`: the full screen).
pub fn set_active_region(active: &mut ActiveRegion, region: Option<SelectedRegion>)
    ensures
        *final(active) == spec_set_region(*old(active), region),
{
    active.region = region;
}

/// The capture region last chosen.
pub fn get_active_region(active: &ActiveRegion) -> (r: Option<SelectedRegion>)
    ensures
        r == spec_get_region(*active),
{
    active.region
}

/// Reading the active region gives back what was last set, whatever was
/// there before; setting twice keeps only the second choice.
pub proof fn lemma_get_after_set(active: ActiveRegion, first: Option<SelectedRegion>, region: Option<SelectedRegion>)
    ensures
        spec_get_region(spec_set_region(active, region)) == region,
        spec_set_region(spec_set_region(active, first), region) == spec_set_region(active, region),
{
}

} // verus!
