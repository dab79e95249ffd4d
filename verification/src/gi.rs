//! Voxel GI availability: adapter capability checks, the all-or-nothing
//! start-up decision, and dispatch accounting.

use vstd::prelude::*;
use crate::clipmap::{Clipmap, CLIPMAP_RESOLUTION};
use vstd::string::StringExecFns;

verus! {

#[derive(Clone, Copy, Debug, PartialEq, Eq, Structural)]
pub enum GiMode {
    Enabled,
    Fallback,
    DisabledByUser,
}

/// What the adapter offers that voxel GI needs.
#[derive(Clone, Copy, Debug, PartialEq, Eq, Structural)]
pub struct GiCapabilities {
    pub rgba8_3d: bool,
    pub rgba16_storage: bool,
    pub max_3d_dimension: u32,
}

pub open spec fn supported_spec(c: GiCapabilities) -> bool {
    c.rgba8_3d && c.rgba16_storage && c.max_3d_dimension >= 128
}

/// Why GI cannot run: the first missing capability.
pub open spec fn unsupported_reason_spec(c: GiCapabilities) -> Seq<char> {
    if !c.rgba8_3d {
        "Rgba8Unorm 3D texture usage unsupported"@
    } else if !c.rgba16_storage {
        "Rgba16Float storage texture unsupported"@
    } else if c.max_3d_dimension < 128 {
        "3D texture dimension limit below 128"@
    } else {
        "unknown capability failure"@
    }
}

impl GiCapabilities {
    /// 3D RGBA8 textures, RGBA16F storage and 128^3 volumes are all available.
    pub fn supported(self) -> (s: bool)
        ensures
            s == supported_spec(self),
    {
        self.rgba8_3d && self.rgba16_storage && self.max_3d_dimension >= CLIPMAP_RESOLUTION
    }

    pub fn unsupported_reason(self) -> (r: &'static str)
        ensures
            r@ == unsupported_reason_spec(self),
    {
        if !self.rgba8_3d {
            "Rgba8Unorm 3D texture usage unsupported"
        } else if !self.rgba16_storage {
            "Rgba16Float storage texture unsupported"
        } else if self.max_3d_dimension < CLIPMAP_RESOLUTION {
            "3D texture dimension limit below 128"
        } else {
            "unknown capability failure"
        }
    }
}

/// `ceil(max(v, 1) / 4)`: one GI trace texel per 4x4 pixels.
pub open spec fn quarter_spec(v: u32) -> int {
    if v <= 1 {
        1
    } else {
        (v as int + 3) / 4
    }
}

/// Size of the quarter-resolution GI trace targets for an internal image of `width` x `height`.
pub fn trace_size(width: u32, height: u32) -> (size: (u32, u32))
    ensures
        size.0 == quarter_spec(width),
        size.1 == quarter_spec(height),
{
    let w = if width == 0 {
        1
    } else {
        width
    };
    let h = if height == 0 {
        1
    } else {
        height
    };
    (w / 4 + if w % 4 != 0 {
        1
    } else {
        0
    }, h / 4 + if h % 4 != 0 {
        1
    } else {
        0
    })
}

pub open spec fn forced_failure_reason() -> Seq<char> {
    "forced GI initialization failure"@
}

/// The notice shown when GI fell back for `reason`.
pub open spec fn fallback_notice(reason: Seq<char>) -> Seq<char> {
    "GI disabled: "@ + reason + "; using baked light + GTAO"@
}

/// GI run state: the mode every frame sees, the clipmap it traces, and
/// how many GI dispatches ran.
#[derive(Clone, Debug)]
pub struct GiRenderer {
    pub mode: GiMode,
    pub clipmap: Clipmap,
    dispatches: u64,
    fallback_reason: Option<&'static str>,
}

impl GiRenderer {
    pub closed spec fn mode_spec(self) -> GiMode {
        self.mode
    }

    pub closed spec fn clipmap_spec(self) -> Clipmap {
        self.clipmap
    }

    pub closed spec fn dispatch_count_spec(self) -> u64 {
        self.dispatches
    }

    pub closed spec fn fallback_reason_spec(self) -> Option<Seq<char>> {
        match self.fallback_reason {
            Some(r) => Some(r@),
            None => None,
        }
    }

    /// Decide GI for the session before anything is published: a forced
    /// failure or a missing capability gives `Fallback` with its reason,
    /// otherwise `Enabled`.  No dispatch has run either way.
    pub fn transactional_init(capabilities: GiCapabilities, force_failure: bool) -> (g: Self)
        ensures
            g.clipmap_spec().wf(),
            g.dispatch_count_spec() == 0,
            force_failure ==> g.mode_spec() == GiMode::Fallback && g.fallback_reason_spec() == Some(
                forced_failure_reason(),
            ),
            !force_failure && !supported_spec(capabilities) ==> g.mode_spec() == GiMode::Fallback
                && g.fallback_reason_spec() == Some(unsupported_reason_spec(capabilities)),
            !force_failure && supported_spec(capabilities) ==> g.mode_spec() == GiMode::Enabled
                && g.fallback_reason_spec().is_none(),
    {
        let failure: Option<&'static str> = if force_failure {
            Some("forced GI initialization failure")
        } else if !capabilities.supported() {
            Some(capabilities.unsupported_reason())
        } else {
            None
        };
        match failure {
            Some(reason) => GiRenderer {
                mode: GiMode::Fallback,
                clipmap: Clipmap::new(),
                dispatches: 0,
                fallback_reason: Some(reason),
            },
            None => GiRenderer {
                mode: GiMode::Enabled,
                clipmap: Clipmap::new(),
                dispatches: 0,
                fallback_reason: None,
            },
        }
    }

    /// GI switched off by the user: nothing runs and nothing is reported.
    pub fn disabled_by_user() -> (g: Self)
        ensures
            g.clipmap_spec().wf(),
            g.mode_spec() == GiMode::DisabledByUser,
            g.dispatch_count_spec() == 0,
            g.fallback_reason_spec().is_none(),
    {
        GiRenderer {
            mode: GiMode::DisabledByUser,
            clipmap: Clipmap::new(),
            dispatches: 0,
            fallback_reason: None,
        }
    }

    /// Run this frame's GI work if GI is enabled; returns whether it ran.
    pub fn dispatch(&mut self) -> (ran: bool)
        ensures
            ran == (old(self).mode_spec() == GiMode::Enabled),
            final(self).mode_spec() == old(self).mode_spec(),
            final(self).clipmap_spec() == old(self).clipmap_spec(),
            final(self).fallback_reason_spec() == old(self).fallback_reason_spec(),
            ran ==> final(self).dispatch_count_spec() == old(self).dispatch_count_spec().saturating_add(1),
            !ran ==> final(self).dispatch_count_spec() == old(self).dispatch_count_spec(),
    {
        if self.mode == GiMode::Enabled {
            self.dispatches = self.dispatches.saturating_add(1);
            true
        } else {
            false
        }
    }

    pub fn dispatch_count(&self) -> (n: u64)
        ensures
            n == self.dispatch_count_spec(),
    {
        self.dispatches
    }

    /// The notice shown when GI fell back: the reason between
    /// `GI disabled: ` and `; using baked light + GTAO`.
    pub fn fallback_message(&self) -> (m: Option<String>)
        ensures
            match self.fallback_reason_spec() {
                Some(reason) => m matches Some(s) && s@ == fallback_notice(reason),
                None => m.is_none(),
            },
    {
        match self.fallback_reason {
            Some(reason) => {
                let mut message = "GI disabled: ".to_owned();
                message.append(reason);
                message.append("; using baked light + GTAO");
                Some(message)
            },
            None => None,
        }
    }

    /// Why GI fell back, when it did.
    pub fn fallback_reason(&self) -> (r: Option<&'static str>)
        ensures
            match r {
                Some(s) => self.fallback_reason_spec() == Some(s@),
                None => self.fallback_reason_spec().is_none(),
            },
    {
        self.fallback_reason
    }
}

} // verus!
