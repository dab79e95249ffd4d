//! Debug views of the renderer and the per-frame effect switches.

use vstd::prelude::*;

verus! {

/// What the deferred pass writes: the lit image or one G-buffer channel.
/// Variants are declared in shader-value order, `Final` being 0.
#[derive(Clone, Copy, Debug, PartialEq, Eq, Structural)]
pub enum DeferredDebug {
    Final,
    Albedo,
    Normal,
    Depth,
    Light,
    Material,
    Motion,
    Reactive,
}

impl Default for DeferredDebug {
    fn default() -> (d: Self)
        ensures
            d == DeferredDebug::Final,
    {
        DeferredDebug::Final
    }
}

/// The value the deferred shader switches on.
pub open spec fn debug_value(debug: DeferredDebug) -> u32 {
    match debug {
        DeferredDebug::Final => 0,
        DeferredDebug::Albedo => 1,
        DeferredDebug::Normal => 2,
        DeferredDebug::Depth => 3,
        DeferredDebug::Light => 4,
        DeferredDebug::Material => 5,
        DeferredDebug::Motion => 6,
        DeferredDebug::Reactive => 7,
    }
}

impl DeferredDebug {
    /// The value the deferred shader switches on.
    pub fn shader_value(self) -> (v: u32)
        ensures
            v == debug_value(self),
    {
        match self {
            DeferredDebug::Final => 0,
            DeferredDebug::Albedo => 1,
            DeferredDebug::Normal => 2,
            DeferredDebug::Depth => 3,
            DeferredDebug::Light => 4,
            DeferredDebug::Material => 5,
            DeferredDebug::Motion => 6,
            DeferredDebug::Reactive => 7,
        }
    }
}

/// The image the window shows.
#[derive(Clone, Copy, Debug, PartialEq, Eq, Structural)]
pub enum RenderView {
    Final,
    Light,
    Albedo,
    Normal,
    Depth,
    Material,
    Motion,
    Reactive,
    Water,
    Volumetric,
    Cloud,
    Lod,
    Gi,
    Clipmap,
}

impl Default for RenderView {
    fn default() -> (v: Self)
        ensures
            v == RenderView::Final,
    {
        RenderView::Final
    }
}

/// The deferred output a view presents: its own G-buffer channel where
/// the deferred pass has one, otherwise the lit image.
pub open spec fn debug_for_view_spec(view: RenderView) -> DeferredDebug {
    match view {
        RenderView::Albedo => DeferredDebug::Albedo,
        RenderView::Normal => DeferredDebug::Normal,
        RenderView::Depth => DeferredDebug::Depth,
        RenderView::Material => DeferredDebug::Material,
        RenderView::Motion => DeferredDebug::Motion,
        RenderView::Reactive => DeferredDebug::Reactive,
        _ => DeferredDebug::Final,
    }
}

pub fn debug_for_view(view: RenderView) -> (d: DeferredDebug)
    ensures
        d == debug_for_view_spec(view),
{
    match view {
        RenderView::Albedo => DeferredDebug::Albedo,
        RenderView::Normal => DeferredDebug::Normal,
        RenderView::Depth => DeferredDebug::Depth,
        RenderView::Material => DeferredDebug::Material,
        RenderView::Motion => DeferredDebug::Motion,
        RenderView::Reactive => DeferredDebug::Reactive,
        _ => DeferredDebug::Final,
    }
}

/// Kind of a transparent draw.
#[derive(Clone, Copy, Debug, PartialEq, Eq, Structural)]
pub enum TransparentKind {
    Glass,
    Water,
}

/// Which runtime effects run this frame, and the debug view they show.
#[derive(Clone, Copy, Debug, PartialEq, Eq, Structural)]
pub struct RuntimeMode {
    pub water: bool,
    pub clouds: bool,
    pub volumetric: bool,
    pub gi: bool,
    pub debug_view: u32,
}

impl Default for RuntimeMode {
    fn default() -> (m: Self)
        ensures
            m == (RuntimeMode { water: false, clouds: false, volumetric: false, gi: false, debug_view: 0 }),
    {
        RuntimeMode { water: false, clouds: false, volumetric: false, gi: false, debug_view: 0 }
    }
}

/// The compute stages of the runtime effects, in dispatch order.
#[derive(Clone, Copy, Debug, PartialEq, Eq, Structural)]
pub enum EffectStage {
    GiTrace,
    GiTemporal,
    GiDenoise,
    GiComposite,
    Volumetric,
    Clouds,
    CloudShadow,
}

pub open spec fn stage_index(stage: EffectStage) -> int {
    match stage {
        EffectStage::GiTrace => 0,
        EffectStage::GiTemporal => 1,
        EffectStage::GiDenoise => 2,
        EffectStage::GiComposite => 3,
        EffectStage::Volumetric => 4,
        EffectStage::Clouds => 5,
        EffectStage::CloudShadow => 6,
    }
}

/// Shader entry point of each stage.
pub open spec fn stage_entry(stage: EffectStage) -> Seq<char> {
    match stage {
        EffectStage::GiTrace => "gi_trace"@,
        EffectStage::GiTemporal => "gi_temporal"@,
        EffectStage::GiDenoise => "gi_denoise"@,
        EffectStage::GiComposite => "gi_composite"@,
        EffectStage::Volumetric => "volumetric"@,
        EffectStage::Clouds => "clouds"@,
        EffectStage::CloudShadow => "cloud_shadow"@,
    }
}

impl EffectStage {
    /// Every stage, in dispatch order.
    pub const ALL: [EffectStage; 7] = [
        EffectStage::GiTrace,
        EffectStage::GiTemporal,
        EffectStage::GiDenoise,
        EffectStage::GiComposite,
        EffectStage::Volumetric,
        EffectStage::Clouds,
        EffectStage::CloudShadow,
    ];

    pub fn index(self) -> (i: usize)
        ensures
            i == stage_index(self),
    {
        match self {
            EffectStage::GiTrace => 0,
            EffectStage::GiTemporal => 1,
            EffectStage::GiDenoise => 2,
            EffectStage::GiComposite => 3,
            EffectStage::Volumetric => 4,
            EffectStage::Clouds => 5,
            EffectStage::CloudShadow => 6,
        }
    }

    pub fn entry(self) -> (s: &'static str)
        ensures
            s@ == stage_entry(self),
    {
        match self {
            EffectStage::GiTrace => "gi_trace",
            EffectStage::GiTemporal => "gi_temporal",
            EffectStage::GiDenoise => "gi_denoise",
            EffectStage::GiComposite => "gi_composite",
            EffectStage::Volumetric => "volumetric",
            EffectStage::Clouds => "clouds",
            EffectStage::CloudShadow => "cloud_shadow",
        }
    }
}

} // verus!
