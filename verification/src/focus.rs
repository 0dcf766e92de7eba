//! Click tracking during a recording, and the FFmpeg pan-and-zoom filter
//! that centres on the first click.

use vstd::prelude::*;
use std::time::Instant;
use crate::text::{owned, push_str, i64_to_text, u64_to_text, int_text, dec_digits};

verus! {

#[verifier::external_type_specification]
#[verifier::external_body]
pub struct ExInstant(std::time::Instant);

/// The current instant.
/// Trusted: `std::time::Instant::now`; nothing is claimed of the value.
#[verifier::external_body]
fn instant_now() -> Instant {
    Instant::now()
}

/// Whole milliseconds elapsed since `start`.
/// Trusted: `std::time::Instant::elapsed`, read in milliseconds; the value
/// depends on the clock, so nothing is claimed of it.
#[verifier::external_body]
fn millis_since(start: &Instant) -> u64 {
    start.elapsed().as_millis() as u64
}

/// A click recorded during a session, with the milliseconds since the
/// session started.
#[derive(Debug, Clone, Copy, PartialEq, Eq, Structural)]
pub struct ClickEvent {
    pub x: i32,
    pub y: i32,
    pub timestamp_ms: u64,
}

/// The clicks of the current recording session. Threads that log into the
/// same session share one tracker (behind a lock of the caller's).
#[derive(Debug)]
pub struct FocusTracker {
    clicks: Vec<ClickEvent>,
    start_time: Option<Instant>,
}

impl FocusTracker {
    /// The clicks recorded, oldest first.
    pub closed spec fn spec_clicks(&self) -> Seq<ClickEvent> {
        self.clicks@
    }

    /// Whether a session has been started.
    pub closed spec fn spec_started(&self) -> bool {
        self.start_time is Some
    }

    /// A tracker with no session and no clicks.
    pub fn new() -> (t: FocusTracker)
        ensures
            t.spec_clicks() == Seq::<ClickEvent>::empty(),
            !t.spec_started(),
    {
        FocusTracker { clicks: Vec::new(), start_time: None }
    }

    /// Starts a session now: forgets earlier clicks.
    pub fn start_session(&mut self)
        ensures
            final(self).spec_clicks() == Seq::<ClickEvent>::empty(),
            final(self).spec_started(),
    {
        self.clicks.clear();
        self.start_time = Some(instant_now());
    }

    /// Records a click at `(x, y)`, `elapsed_ms` after the session started.
    pub fn log_click_at(&mut self, x: i32, y: i32, elapsed_ms: u64)
        ensures
            final(self).spec_clicks() == old(self).spec_clicks().push(
                ClickEvent { x, y, timestamp_ms: elapsed_ms }),
            final(self).spec_started() == old(self).spec_started(),
    {
        self.clicks.push(ClickEvent { x, y, timestamp_ms: elapsed_ms });
    }

    /// Records a click at `(x, y)`, stamped with the milliseconds since the
    /// session started (0 when no session has started). Stamps never go
    /// back: a click is stamped no earlier than the one before it (std's
    /// `Instant` never goes backwards, so this only makes the order checkable).
    pub fn log_click(&mut self, x: i32, y: i32)
        ensures
            final(self).spec_started() == old(self).spec_started(),
            final(self).spec_clicks().len() == old(self).spec_clicks().len() + 1,
            final(self).spec_clicks().drop_last() == old(self).spec_clicks(),
            final(self).spec_clicks().last().x == x,
            final(self).spec_clicks().last().y == y,
            !old(self).spec_started() ==> final(self).spec_clicks().last().timestamp_ms == 0,
            old(self).spec_started() && old(self).spec_clicks().len() > 0 ==>
                final(self).spec_clicks().last().timestamp_ms >= old(self).spec_clicks().last().timestamp_ms,
    {
        let elapsed = match &self.start_time {
            Some(t) => {
                let ms = millis_since(t);
                let n = self.clicks.len();
                if n > 0 && self.clicks[n - 1].timestamp_ms > ms { self.clicks[n - 1].timestamp_ms } else { ms }
            },
            None => 0,
        };
        self.log_click_at(x, y, elapsed);
        assert(self.spec_clicks().drop_last() =~= old(self).spec_clicks());
    }

    /// The clicks recorded, oldest first.
    pub fn get_clicks(&self) -> (r: Vec<ClickEvent>)
        ensures
            r@ == self.spec_clicks(),
    {
        let mut r: Vec<ClickEvent> = Vec::new();
        let mut i: usize = 0;
        while i < self.clicks.len()
            invariant
                i <= self.clicks@.len(),
                r@ == self.clicks@.subrange(0, i as int),
            decreases self.clicks@.len() - i,
        {
            r.push(self.clicks[i]);
            assert(self.clicks@.subrange(0, i + 1) == self.clicks@.subrange(0, i as int).push(self.clicks@[i as int]));
            i = i + 1;
        }
        assert(self.clicks@.subrange(0, self.clicks@.len() as int) == self.clicks@);
        r
    }

    /// The FFmpeg filter chain that zooms in on the first click of the
    /// session, for a video of `video_width` by `video_height` pixels: a
    /// `crop` stage of `crop_width` by `crop_height` pixels centred on the
    /// click (kept inside the frame), then a `zoompan` stage centred on the
    /// click at the output size, `zoom_factor_text` being the zoom factor as
    /// written in the filter and the crop size the frame size divided by it.
    /// `None` when there was no click.
    pub fn build_ffmpeg_zoom_filter(
        &self,
        video_width: u32,
        video_height: u32,
        zoom_factor_text: &str,
        crop_width: u32,
        crop_height: u32,
    ) -> (r: Option<String>)
        requires
            crop_width <= video_width,
            crop_height <= video_height,
        ensures
            match r {
                None => self.spec_clicks().len() == 0,
                Some(f) => self.spec_clicks().len() > 0 && f@ == spec_zoom_filter(
                    self.spec_clicks()[0], video_width, video_height, zoom_factor_text@,
                    crop_width, crop_height),
            },
    {
        if self.clicks.len() == 0 {
            return None;
        }
        let target = self.clicks[0];
        let crop_x = crop_offset(target.x, crop_width, video_width);
        let crop_y = crop_offset(target.y, crop_height, video_height);
        let mut f = owned("crop=");
        push_str(&mut f, u64_to_text(crop_width as u64).as_str());
        push_str(&mut f, ":");
        push_str(&mut f, u64_to_text(crop_height as u64).as_str());
        push_str(&mut f, ":");
        push_str(&mut f, u64_to_text(crop_x as u64).as_str());
        push_str(&mut f, ":");
        push_str(&mut f, u64_to_text(crop_y as u64).as_str());
        push_str(&mut f, ",zoompan=z='if(between(in,30,120),min(zoom+0.015,");
        push_str(&mut f, zoom_factor_text);
        push_str(&mut f, "),max(zoom-0.015,1))':x='");
        push_str(&mut f, i64_to_text(target.x as i64).as_str());
        push_str(&mut f, "-iw/2/zoom':y='");
        push_str(&mut f, i64_to_text(target.y as i64).as_str());
        push_str(&mut f, "-ih/2/zoom':d=120:s=");
        push_str(&mut f, u64_to_text(video_width as u64).as_str());
        push_str(&mut f, "x");
        push_str(&mut f, u64_to_text(video_height as u64).as_str());
        Some(f)
    }
}

/// Where a crop window of `size` pixels starts along an axis of `full`
/// pixels to be centred on `v` (read as a `u32`, as `v as u32` does): half
/// the window before `v`, not before 0 and not past the end.
pub open spec fn spec_crop_offset(v: i32, size: u32, full: u32) -> int {
    let u: int = if v < 0 { v + 0x1_0000_0000 } else { v as int };
    let start: int = if u > size / 2 { u - size / 2 } else { 0 };
    if start < full - size { start } else { full - size }
}

fn crop_offset(v: i32, size: u32, full: u32) -> (r: u32)
    requires
        size <= full,
    ensures
        r == spec_crop_offset(v, size, full),
{
    let u: u32 = if v < 0 { (v as i64 + 0x1_0000_0000) as u32 } else { v as u32 };
    let start: u32 = if u > size / 2 { u - size / 2 } else { 0 };
    if start < full - size { start } else { full - size }
}

/// The zoom filter chain for a target click: the crop stage, then the
/// zoompan stage.
pub open spec fn spec_zoom_filter(target: ClickEvent, width: u32, height: u32, zoom: Seq<char>,
    crop_width: u32, crop_height: u32) -> Seq<char> {
    "crop="@ + dec_digits(crop_width as nat) + ":"@ + dec_digits(crop_height as nat)
        + ":"@ + dec_digits(spec_crop_offset(target.x, crop_width, width) as nat)
        + ":"@ + dec_digits(spec_crop_offset(target.y, crop_height, height) as nat)
        + ",zoompan=z='if(between(in,30,120),min(zoom+0.015,"@ + zoom
        + "),max(zoom-0.015,1))':x='"@ + int_text(target.x as int)
        + "-iw/2/zoom':y='"@ + int_text(target.y as int)
        + "-ih/2/zoom':d=120:s="@ + dec_digits(width as nat)
        + "x"@ + dec_digits(height as nat)
}

/// The crop window always lies inside the frame, and is centred on the
/// click whenever the frame leaves room for that.
pub proof fn lemma_crop_window(v: i32, size: u32, full: u32)
    requires
        size <= full,
    ensures
        0 <= spec_crop_offset(v, size, full),
        spec_crop_offset(v, size, full) + size <= full,
        (size / 2 <= v && v - size / 2 <= full - size) ==> spec_crop_offset(v, size, full) == v - size / 2,
{
}

} // verus!
