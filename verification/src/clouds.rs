//! When the cloud shadow map is re-rendered: every few frames, or at once
//! when the camera crosses into another 32-block snap cell.

use vstd::prelude::*;

verus! {

/// Frames between cloud shadow refreshes.
pub const CLOUD_SHADOW_CADENCE: u64 = 8;

/// The last refresh of the cloud shadow map.
#[derive(Clone, Copy, Debug, PartialEq, Eq)]
pub struct CloudShadowSchedule {
    pub last_update_frame: Option<u64>,
    /// World XZ origin the map was rendered at, snapped to 32 blocks.
    pub origin: [i32; 2],
}

impl Default for CloudShadowSchedule {
    fn default() -> (s: Self)
        ensures
            s.last_update_frame.is_none(),
            s.origin@ == seq![0i32, 0],
    {
        let s = CloudShadowSchedule { last_update_frame: None, origin: [0, 0] };
        assert(s.origin@ =~= seq![0i32, 0]);
        s
    }
}

/// The map must be refreshed at `frame` for a camera in snap cell `snapped`.
pub open spec fn needs_refresh(s: CloudShadowSchedule, frame: u64, snapped: Seq<i32>) -> bool {
    let cadence_due = match s.last_update_frame {
        None => true,
        Some(last) => frame.saturating_sub(last) >= 8,
    };
    cadence_due || s.origin@ != snapped
}

impl CloudShadowSchedule {
    /// Whether the map is due at `frame` for a camera whose snapped origin is `snapped`.
    pub fn should_update(&self, frame: u64, snapped: [i32; 2]) -> (due: bool)
        ensures
            due == needs_refresh(*self, frame, snapped@),
    {
        let cadence_due = match self.last_update_frame {
            None => true,
            Some(last) => frame.saturating_sub(last) >= CLOUD_SHADOW_CADENCE,
        };
        let moved = self.origin[0] != snapped[0] || self.origin[1] != snapped[1];
        proof {
            if !moved {
                assert(self.origin@ =~= snapped@);
            }
        }
        cadence_due || moved
    }

    /// Refresh the map if it is due; returns whether it was.
    pub fn update(&mut self, frame: u64, snapped: [i32; 2]) -> (refreshed: bool)
        ensures
            refreshed == needs_refresh(*old(self), frame, snapped@),
            refreshed ==> final(self).last_update_frame == Some(frame) && final(self).origin
                == snapped,
            !refreshed ==> *final(self) == *old(self),
    {
        if !self.should_update(frame, snapped) {
            return false;
        }
        self.last_update_frame = Some(frame);
        self.origin = snapped;
        true
    }
}

/// After a refresh at `frame`, the map is next due exactly when eight
/// frames have passed or the snapped origin changes.
pub proof fn lemma_refresh_cadence(s: CloudShadowSchedule, frame: u64, later: u64, snapped: Seq<i32>)
    requires
        s.last_update_frame == Some(frame),
        s.origin@ == snapped,
        frame <= later,
    ensures
        needs_refresh(s, later, snapped) == (later - frame >= 8),
{
}

/// A camera in another snap cell always forces a refresh, whichever
/// component changed; a map never rendered is always due; and in the same
/// cell the map waits until eight frames have passed.
pub proof fn lemma_refresh_follows_the_snap_cell(
    s: CloudShadowSchedule,
    frame: u64,
    snapped: [i32; 2],
)
    ensures
        s.origin[0] != snapped[0] || s.origin[1] != snapped[1] ==> needs_refresh(
            s,
            frame,
            snapped@,
        ),
        s.last_update_frame is None ==> needs_refresh(s, frame, snapped@),
        s.origin[0] == snapped[0] && s.origin[1] == snapped[1] ==> match s.last_update_frame {
            Some(last) => needs_refresh(s, frame, snapped@) == (frame >= last && frame - last
                >= 8),
            None => true,
        },
{
    if s.origin[0] != snapped[0] {
        assert(s.origin@[0] != snapped@[0]);
    }
    if s.origin[1] != snapped[1] {
        assert(s.origin@[1] != snapped@[1]);
    }
    if s.origin[0] == snapped[0] && s.origin[1] == snapped[1] {
        assert(s.origin@ =~= snapped@);
    }
}

} // verus!
