//! Renderer-owned allocation counters.
//!
//! The counters cover the collections and GPU graph construction owned by
//! the renderer, which is the boundary of the steady-frame contract: a frame
//! that allocates nothing reports a zero delta.  Counting is a no-op unless
//! the counters were created enabled.

use vstd::prelude::*;

verus! {

/// The allocation events observed during one rendered frame.
#[derive(Clone, Copy, Debug, PartialEq, Eq, Structural)]
pub struct AllocationDelta {
    pub cpu_capacity_growths: u32,
    pub gpu_resource_creations: u32,
}

impl Default for AllocationDelta {
    fn default() -> (d: Self)
        ensures
            d.cpu_capacity_growths == 0,
            d.gpu_resource_creations == 0,
    {
        AllocationDelta { cpu_capacity_growths: 0, gpu_resource_creations: 0 }
    }
}

impl AllocationDelta {
    /// Both kinds of events together.
    pub fn total(self) -> (t: u32)
        requires
            self.cpu_capacity_growths + self.gpu_resource_creations <= u32::MAX,
        ensures
            t == self.cpu_capacity_growths + self.gpu_resource_creations,
    {
        self.cpu_capacity_growths + self.gpu_resource_creations
    }
}

/// The abstract state of a set of allocation counters.
pub struct AllocationModel {
    pub enabled: bool,
    pub cpu_capacity_growths: u32,
    pub gpu_resource_creations: u32,
    pub last_frame: AllocationDelta,
}

/// `x + n`, clamped to `u32::MAX`.
pub open spec fn saturating_add_u32(x: u32, n: u32) -> u32 {
    if x + n > u32::MAX {
        u32::MAX
    } else {
        (x + n) as u32
    }
}

/// The counters after one CPU capacity growth was observed.
pub open spec fn after_cpu_growth(m: AllocationModel) -> AllocationModel {
    if m.enabled {
        AllocationModel {
            cpu_capacity_growths: saturating_add_u32(m.cpu_capacity_growths, 1),
            ..m
        }
    } else {
        m
    }
}

/// The counters after `count` GPU resource creations were observed.
pub open spec fn after_gpu_creations(m: AllocationModel, count: u32) -> AllocationModel {
    if m.enabled {
        AllocationModel {
            gpu_resource_creations: saturating_add_u32(m.gpu_resource_creations, count),
            ..m
        }
    } else {
        m
    }
}

/// The counters after a frame started: enabled counters restart from zero.
pub open spec fn after_begin_frame(m: AllocationModel) -> AllocationModel {
    if m.enabled {
        AllocationModel { cpu_capacity_growths: 0, gpu_resource_creations: 0, ..m }
    } else {
        m
    }
}

/// The counters after the frame was closed: the reported delta is remembered.
pub open spec fn after_finish_frame(m: AllocationModel) -> AllocationModel {
    AllocationModel { last_frame: frame_delta(m), ..m }
}

/// One allocation event noted on the counters.
pub enum CounterEvent {
    CpuGrowth,
    GpuCreation,
    GpuCreations(u32),
}

pub open spec fn after_event(m: AllocationModel, e: CounterEvent) -> AllocationModel {
    match e {
        CounterEvent::CpuGrowth => after_cpu_growth(m),
        CounterEvent::GpuCreation => after_gpu_creations(m, 1),
        CounterEvent::GpuCreations(n) => after_gpu_creations(m, n),
    }
}

/// The counters after `events`, in order.
pub open spec fn after_events(m: AllocationModel, events: Seq<CounterEvent>) -> AllocationModel
    decreases events.len(),
{
    if events.len() == 0 {
        m
    } else {
        after_event(after_events(m, events.drop_last()), events.last())
    }
}

/// How many CPU capacity growths `events` note.
pub open spec fn cpu_growths_in(events: Seq<CounterEvent>) -> nat
    decreases events.len(),
{
    if events.len() == 0 {
        0
    } else {
        cpu_growths_in(events.drop_last()) + if events.last() is CpuGrowth {
            1nat
        } else {
            0nat
        }
    }
}

/// How many GPU resource creations `events` note.
pub open spec fn gpu_creations_in(events: Seq<CounterEvent>) -> nat
    decreases events.len(),
{
    if events.len() == 0 {
        0
    } else {
        gpu_creations_in(events.drop_last()) + match events.last() {
            CounterEvent::CpuGrowth => 0nat,
            CounterEvent::GpuCreation => 1nat,
            CounterEvent::GpuCreations(n) => n as nat,
        }
    }
}

/// `n` clamped to `u32::MAX`.
pub open spec fn clamp_u32(n: nat) -> u32 {
    if n > u32::MAX {
        u32::MAX
    } else {
        n as u32
    }
}

/// The delta that closing the current frame reports.
pub open spec fn frame_delta(m: AllocationModel) -> AllocationDelta {
    if m.enabled {
        AllocationDelta {
            cpu_capacity_growths: m.cpu_capacity_growths,
            gpu_resource_creations: m.gpu_resource_creations,
        }
    } else {
        AllocationDelta { cpu_capacity_growths: 0, gpu_resource_creations: 0 }
    }
}

/// Counters for one renderer.  Every operation is a no-op on the counts
/// unless the counters were created enabled.
#[derive(Debug)]
pub struct AllocationStats {
    enabled: bool,
    cpu_capacity_growths: u32,
    gpu_resource_creations: u32,
    last_frame: AllocationDelta,
}

impl View for AllocationStats {
    type V = AllocationModel;

    closed spec fn view(&self) -> AllocationModel {
        AllocationModel {
            enabled: self.enabled,
            cpu_capacity_growths: self.cpu_capacity_growths,
            gpu_resource_creations: self.gpu_resource_creations,
            last_frame: self.last_frame,
        }
    }
}

impl AllocationStats {
    pub fn new(enabled: bool) -> (s: Self)
        ensures
            s@ == (AllocationModel {
                enabled,
                cpu_capacity_growths: 0,
                gpu_resource_creations: 0,
                last_frame: AllocationDelta { cpu_capacity_growths: 0, gpu_resource_creations: 0 },
            }),
    {
        AllocationStats {
            enabled,
            cpu_capacity_growths: 0,
            gpu_resource_creations: 0,
            last_frame: AllocationDelta { cpu_capacity_growths: 0, gpu_resource_creations: 0 },
        }
    }

    pub fn enabled(&self) -> (e: bool)
        ensures
            e == self@.enabled,
    {
        self.enabled
    }

    /// Start a new render frame: enabled counters restart from zero.
    pub fn begin_frame(&mut self)
        ensures
            final(self)@ == after_begin_frame(old(self)@),
    {
        if self.enabled {
            self.cpu_capacity_growths = 0;
            self.gpu_resource_creations = 0;
        }
    }

    /// Close the frame: report (and remember) what was counted since
    /// `begin_frame`, or a zero delta when counting is disabled.
    pub fn finish_frame(&mut self) -> (d: AllocationDelta)
        ensures
            d == frame_delta(old(self)@),
            final(self)@ == after_finish_frame(old(self)@),
    {
        let delta = if self.enabled {
            AllocationDelta {
                cpu_capacity_growths: self.cpu_capacity_growths,
                gpu_resource_creations: self.gpu_resource_creations,
            }
        } else {
            AllocationDelta { cpu_capacity_growths: 0, gpu_resource_creations: 0 }
        };
        self.last_frame = delta;
        delta
    }

    pub fn last_frame(&self) -> (d: AllocationDelta)
        ensures
            d == self@.last_frame,
    {
        self.last_frame
    }

    pub fn note_cpu_capacity_growth(&mut self)
        ensures
            final(self)@ == after_cpu_growth(old(self)@),
    {
        if self.enabled {
            self.cpu_capacity_growths = self.cpu_capacity_growths.saturating_add(1);
        }
    }

    pub fn note_gpu_resource_creation(&mut self)
        ensures
            final(self)@ == after_gpu_creations(old(self)@, 1),
    {
        if self.enabled {
            self.gpu_resource_creations = self.gpu_resource_creations.saturating_add(1);
        }
    }

    pub fn note_gpu_resource_creations(&mut self, count: u32)
        ensures
            final(self)@ == after_gpu_creations(old(self)@, count),
    {
        if self.enabled {
            self.gpu_resource_creations = self.gpu_resource_creations.saturating_add(count);
        }
    }
}

proof fn lemma_counts_after_events(m: AllocationModel, events: Seq<CounterEvent>)
    requires
        m.enabled,
        m.cpu_capacity_growths == 0,
        m.gpu_resource_creations == 0,
    ensures
        after_events(m, events) == (AllocationModel {
            cpu_capacity_growths: clamp_u32(cpu_growths_in(events)),
            gpu_resource_creations: clamp_u32(gpu_creations_in(events)),
            ..m
        }),
    decreases events.len(),
{
    if events.len() > 0 {
        lemma_counts_after_events(m, events.drop_last());
    }
}

/// What a frame reports is what was noted since it began: with counting
/// enabled, after `begin_frame` and the notes `events` (directly or through
/// a tracked collection's growth), `finish_frame` reports the number of CPU
/// growths and the sum of GPU creations, each clamped to `u32::MAX`, and
/// remembers it as the last frame; closing the frame again reports the same
/// delta, since closing does not reset the counts.
pub proof fn lemma_frame_reports_its_events(m: AllocationModel, events: Seq<CounterEvent>)
    requires
        m.enabled,
    ensures
        ({
            let closed = after_finish_frame(after_events(after_begin_frame(m), events));
            let delta = AllocationDelta {
                cpu_capacity_growths: clamp_u32(cpu_growths_in(events)),
                gpu_resource_creations: clamp_u32(gpu_creations_in(events)),
            };
            &&& frame_delta(after_events(after_begin_frame(m), events)) == delta
            &&& closed.last_frame == delta
            &&& frame_delta(closed) == delta
            &&& after_finish_frame(closed).last_frame == delta
        }),
{
    lemma_counts_after_events(after_begin_frame(m), events);
}

/// A frame that allocates nothing reports a zero delta, whether counting
/// is enabled or not.
pub proof fn lemma_quiet_frame_is_zero(m: AllocationModel)
    ensures
        frame_delta(after_begin_frame(m)) == (AllocationDelta {
            cpu_capacity_growths: 0,
            gpu_resource_creations: 0,
        }),
{
}

/// Disabled counters never move, whatever sequence of notes they see.
pub proof fn lemma_disabled_counters_ignore_events(m: AllocationModel, events: Seq<CounterEvent>)
    requires
        !m.enabled,
    ensures
        after_events(m, events) == m,
        frame_delta(after_events(m, events)) == (AllocationDelta {
            cpu_capacity_growths: 0,
            gpu_resource_creations: 0,
        }),
    decreases events.len(),
{
    if events.len() > 0 {
        lemma_disabled_counters_ignore_events(m, events.drop_last());
    }
}

/// `Vec::capacity`: trusted to report at least the vector's length.  How
/// much more the allocator handed out is left unsaid; it depends on the
/// allocator and the growth strategy.
#[verifier::external_body]
fn vec_capacity<T>(v: &Vec<T>) -> (c: usize)
    ensures
        c >= v.len(),
{
    v.capacity()
}

/// A `Vec` whose capacity growths are counted.  Mutations go through
/// [`TrackedScratch::push`] and [`TrackedScratch::reserve`], which report
/// every growth to the counters they are handed, so several collections
/// can report to one set of counters.  The capacity std reported after the
/// last change is kept beside the values; `clear` keeps it, as std
/// documents that clearing leaves the allocated capacity as it is.
pub struct TrackedScratch<T> {
    values: Vec<T>,
    capacity: usize,
}

impl<T> View for TrackedScratch<T> {
    type V = Seq<T>;

    closed spec fn view(&self) -> Seq<T> {
        self.values@
    }
}

/// The counters after a change of a tracked collection whose reported
/// capacity went from `before` to `after`: one CPU growth exactly when it grew.
pub open spec fn after_capacity_change(m: AllocationModel, before: usize, after: usize) -> AllocationModel {
    if after > before {
        after_cpu_growth(m)
    } else {
        m
    }
}

impl<T> Default for TrackedScratch<T> {
    fn default() -> (s: Self)
        ensures
            s.wf(),
            s@ == Seq::<T>::empty(),
    {
        TrackedScratch::new()
    }
}

impl<T> TrackedScratch<T> {
    /// The capacity std reported after the last change of the values.
    pub closed spec fn capacity_model(&self) -> usize {
        self.capacity
    }

    /// Room is reported for at least the values held.
    pub closed spec fn wf(&self) -> bool {
        self.capacity >= self.values@.len()
    }

    pub fn new() -> (s: Self)
        ensures
            s.wf(),
            s@ == Seq::<T>::empty(),
    {
        let values: Vec<T> = Vec::new();
        let capacity = vec_capacity(&values);
        TrackedScratch { values, capacity }
    }

    /// An empty collection with room asked for `capacity` values; creating
    /// it reports nothing to any counters.  std panics when the room asked
    /// for exceeds `isize::MAX` bytes, so that is excluded.
    pub fn with_capacity(capacity: usize) -> (s: Self)
        requires
            capacity * vstd::layout::size_of::<T>() <= isize::MAX,
        ensures
            s.wf(),
            s@ == Seq::<T>::empty(),
    {
        let values: Vec<T> = Vec::with_capacity(capacity);
        let capacity = vec_capacity(&values);
        TrackedScratch { values, capacity }
    }

    /// Remove every element; the capacity is kept and nothing is counted.
    pub fn clear(&mut self)
        requires
            old(self).wf(),
        ensures
            final(self).wf(),
            final(self)@ == Seq::<T>::empty(),
            final(self).capacity_model() == old(self).capacity_model(),
    {
        self.values.clear();
    }

    /// Append `value`, counting one CPU growth on `stats` exactly when the
    /// reported capacity grew.  std panics when the room needed exceeds
    /// `isize::MAX` bytes, so that is excluded.
    pub fn push(&mut self, stats: &mut AllocationStats, value: T)
        requires
            old(self).wf(),
            (old(self)@.len() + 1) * vstd::layout::size_of::<T>() <= isize::MAX,
        ensures
            final(self).wf(),
            final(self)@ == old(self)@.push(value),
            final(stats)@ == after_capacity_change(
                old(stats)@,
                old(self).capacity_model(),
                final(self).capacity_model(),
            ),
    {
        let before = self.capacity;
        self.values.push(value);
        let after = vec_capacity(&self.values);
        if after > before {
            stats.note_cpu_capacity_growth();
        }
        self.capacity = after;
    }

    /// Reserve room for `additional` more elements, counting one CPU growth
    /// on `stats` exactly when the reported capacity grew.  std panics when
    /// the room asked for exceeds `isize::MAX` bytes, so that is excluded.
    pub fn reserve(&mut self, stats: &mut AllocationStats, additional: usize)
        requires
            old(self).wf(),
            (old(self)@.len() + additional) * vstd::layout::size_of::<T>() <= isize::MAX,
        ensures
            final(self).wf(),
            final(self)@ == old(self)@,
            final(stats)@ == after_capacity_change(
                old(stats)@,
                old(self).capacity_model(),
                final(self).capacity_model(),
            ),
    {
        let before = self.capacity;
        self.values.reserve(additional);
        let after = vec_capacity(&self.values);
        if after > before {
            stats.note_cpu_capacity_growth();
        }
        self.capacity = after;
    }

    pub fn capacity(&self) -> (c: usize)
        requires
            self.wf(),
        ensures
            c == self.capacity_model(),
            c >= self@.len(),
    {
        self.capacity
    }

    pub fn len(&self) -> (n: usize)
        ensures
            n == self@.len(),
    {
        self.values.len()
    }

    pub fn as_slice(&self) -> (s: &[T])
        ensures
            s@ == self@,
    {
        self.values.as_slice()
    }
}

} // verus!
