//! Pass-level GPU timestamp bookkeeping: which passes wrote timestamps in a
//! frame, which readback slot a frame resolves into, and the queue of
//! completed frames.  The GPU commands themselves are issued by the caller.

use std::collections::VecDeque;
use vstd::prelude::*;

verus! {

/// Timed passes, in the stable order of the query set and the timing report.
pub const TIMED_PASS_COUNT: usize = 20;

/// Timestamp queries: a begin and an end per pass.
pub const QUERY_COUNT: u32 = 40;

/// Bytes of one resolved query set.
pub const QUERY_BYTES: u64 = 320;

/// Frames whose timestamps can be in flight at once.
pub const READBACK_RING_SIZE: usize = 3;

#[derive(Clone, Copy, Debug, PartialEq, Eq, Structural)]
pub enum TimedPass {
    Shadow,
    GBuffer,
    DepthPyramid,
    Gtao,
    Atmosphere,
    Deferred,
    GiTrace,
    GiTemporal,
    GiDenoise,
    Volumetric,
    Clouds,
    CloudShadow,
    Glass,
    Water,
    Bloom,
    Exposure,
    TaauTonemap,
    Viewmodel,
    Ui,
    Present,
}

/// Position of `pass` in the query set.
pub open spec fn pass_index(pass: TimedPass) -> int {
    match pass {
        TimedPass::Shadow => 0,
        TimedPass::GBuffer => 1,
        TimedPass::DepthPyramid => 2,
        TimedPass::Gtao => 3,
        TimedPass::Atmosphere => 4,
        TimedPass::Deferred => 5,
        TimedPass::GiTrace => 6,
        TimedPass::GiTemporal => 7,
        TimedPass::GiDenoise => 8,
        TimedPass::Volumetric => 9,
        TimedPass::Clouds => 10,
        TimedPass::CloudShadow => 11,
        TimedPass::Glass => 12,
        TimedPass::Water => 13,
        TimedPass::Bloom => 14,
        TimedPass::Exposure => 15,
        TimedPass::TaauTonemap => 16,
        TimedPass::Viewmodel => 17,
        TimedPass::Ui => 18,
        TimedPass::Present => 19,
    }
}

/// Name of `pass` in the timing report.
pub open spec fn pass_label(pass: TimedPass) -> Seq<char> {
    match pass {
        TimedPass::Shadow => "shadow"@,
        TimedPass::GBuffer => "gbuffer"@,
        TimedPass::DepthPyramid => "depth_pyramid"@,
        TimedPass::Gtao => "gtao"@,
        TimedPass::Atmosphere => "atmosphere"@,
        TimedPass::Deferred => "deferred"@,
        TimedPass::GiTrace => "gi_trace"@,
        TimedPass::GiTemporal => "gi_temporal"@,
        TimedPass::GiDenoise => "gi_denoise"@,
        TimedPass::Volumetric => "volumetric"@,
        TimedPass::Clouds => "clouds"@,
        TimedPass::CloudShadow => "cloud_shadow"@,
        TimedPass::Glass => "glass"@,
        TimedPass::Water => "water"@,
        TimedPass::Bloom => "bloom"@,
        TimedPass::Exposure => "exposure"@,
        TimedPass::TaauTonemap => "taau_tonemap"@,
        TimedPass::Viewmodel => "viewmodel"@,
        TimedPass::Ui => "ui"@,
        TimedPass::Present => "present"@,
    }
}

impl TimedPass {
    /// The name older callers use for the transparent pass: the glass pass.
    #[allow(non_upper_case_globals)]
    pub const Forward: TimedPass = TimedPass::Glass;

    /// Every pass, in query-set order.
    pub const ALL: [TimedPass; 20] = [
        TimedPass::Shadow,
        TimedPass::GBuffer,
        TimedPass::DepthPyramid,
        TimedPass::Gtao,
        TimedPass::Atmosphere,
        TimedPass::Deferred,
        TimedPass::GiTrace,
        TimedPass::GiTemporal,
        TimedPass::GiDenoise,
        TimedPass::Volumetric,
        TimedPass::Clouds,
        TimedPass::CloudShadow,
        TimedPass::Glass,
        TimedPass::Water,
        TimedPass::Bloom,
        TimedPass::Exposure,
        TimedPass::TaauTonemap,
        TimedPass::Viewmodel,
        TimedPass::Ui,
        TimedPass::Present,
    ];

    pub fn index(self) -> (i: usize)
        ensures
            i == pass_index(self),
            i < TIMED_PASS_COUNT,
    {
        match self {
            TimedPass::Shadow => 0,
            TimedPass::GBuffer => 1,
            TimedPass::DepthPyramid => 2,
            TimedPass::Gtao => 3,
            TimedPass::Atmosphere => 4,
            TimedPass::Deferred => 5,
            TimedPass::GiTrace => 6,
            TimedPass::GiTemporal => 7,
            TimedPass::GiDenoise => 8,
            TimedPass::Volumetric => 9,
            TimedPass::Clouds => 10,
            TimedPass::CloudShadow => 11,
            TimedPass::Glass => 12,
            TimedPass::Water => 13,
            TimedPass::Bloom => 14,
            TimedPass::Exposure => 15,
            TimedPass::TaauTonemap => 16,
            TimedPass::Viewmodel => 17,
            TimedPass::Ui => 18,
            TimedPass::Present => 19,
        }
    }

    pub fn label(self) -> (s: &'static str)
        ensures
            s@ == pass_label(self),
    {
        match self {
            TimedPass::Shadow => "shadow",
            TimedPass::GBuffer => "gbuffer",
            TimedPass::DepthPyramid => "depth_pyramid",
            TimedPass::Gtao => "gtao",
            TimedPass::Atmosphere => "atmosphere",
            TimedPass::Deferred => "deferred",
            TimedPass::GiTrace => "gi_trace",
            TimedPass::GiTemporal => "gi_temporal",
            TimedPass::GiDenoise => "gi_denoise",
            TimedPass::Volumetric => "volumetric",
            TimedPass::Clouds => "clouds",
            TimedPass::CloudShadow => "cloud_shadow",
            TimedPass::Glass => "glass",
            TimedPass::Water => "water",
            TimedPass::Bloom => "bloom",
            TimedPass::Exposure => "exposure",
            TimedPass::TaauTonemap => "taau_tonemap",
            TimedPass::Viewmodel => "viewmodel",
            TimedPass::Ui => "ui",
            TimedPass::Present => "present",
        }
    }

    /// The begin and end timestamp queries of the pass.
    pub fn query_indices(self) -> (q: (u32, u32))
        ensures
            q.0 == 2 * pass_index(self),
            q.1 == 2 * pass_index(self) + 1,
    {
        let start = self.index() as u32 * 2;
        (start, start + 1)
    }
}

/// Bit `i` of `mask` is set.
pub open spec fn has_bit(mask: u32, i: int) -> bool {
    mask & (1u32 << (i as u32)) != 0
}

/// Elapsed ticks of every pass of a completed frame; a pass without a
/// sample of its own reports zero.
#[derive(Clone, Copy, Debug, PartialEq, Eq)]
pub struct FrameTicks {
    pub pass_ticks: [u64; 20],
    pub valid_mask: u32,
    pub rendered_frame_index: u64,
}

/// The elapsed ticks of pass `i` read from a resolved query set.
pub open spec fn pass_ticks_spec(ticks: Seq<u64>, mask: u32, i: int) -> u64 {
    if has_bit(mask, i) {
        if ticks[2 * i + 1] >= ticks[2 * i] {
            (ticks[2 * i + 1] - ticks[2 * i]) as u64
        } else {
            0
        }
    } else {
        0
    }
}

/// The frame whose written-pass mask is `mask`, read from `ticks`.
pub open spec fn frame_from_ticks(ticks: Seq<u64>, mask: u32, frame: u64, f: FrameTicks) -> bool {
    &&& f.valid_mask == mask
    &&& f.rendered_frame_index == frame
    &&& forall|i: int| 0 <= i < 20 ==> #[trigger] f.pass_ticks@[i] == pass_ticks_spec(ticks, mask, i)
}

/// Elapsed ticks of every pass in a resolved query set of `2 * 20` stamps.
pub fn frame_ticks(ticks: &[u64], mask: u32, rendered_frame_index: u64) -> (f: FrameTicks)
    requires
        ticks@.len() >= 40,
    ensures
        frame_from_ticks(ticks@, mask, rendered_frame_index, f),
{
    let mut pass_ticks = [0u64; 20];
    let mut i: usize = 0;
    while i < 20
        invariant
            i <= 20,
            ticks@.len() >= 40,
            forall|j: int| 0 <= j < i ==> #[trigger] pass_ticks@[j] == pass_ticks_spec(ticks@, mask, j),
        decreases 20 - i,
    {
        let bit = 1u32 << (i as u32);
        let value = if mask & bit != 0 {
            ticks[2 * i + 1].saturating_sub(ticks[2 * i])
        } else {
            0
        };
        pass_ticks[i] = value;
        i = i + 1;
    }
    FrameTicks { pass_ticks, valid_mask: mask, rendered_frame_index }
}

/// One readback buffer of the ring.
#[derive(Clone, Copy, Debug, PartialEq, Eq, Structural)]
pub struct ReadbackSlot {
    /// A query set was resolved into it and has not been read back.
    pub pending: bool,
    /// Its buffer is being mapped for reading.
    pub mapping: bool,
    pub pending_mask: u32,
    pub pending_frame_index: u64,
}

/// Timestamp bookkeeping of the renderer.
pub struct GpuTiming {
    supported: bool,
    enabled: bool,
    written: u32,
    next_frame_index: u64,
    slots: Vec<ReadbackSlot>,
    completed: VecDeque<FrameTicks>,
    pub last_frame: Option<FrameTicks>,
}

/// The abstract state of the timing bookkeeping.
pub struct TimingView {
    pub supported: bool,
    pub enabled: bool,
    pub written: u32,
    pub next_frame_index: u64,
    pub slots: Seq<ReadbackSlot>,
    pub completed: Seq<FrameTicks>,
    pub last_frame: Option<FrameTicks>,
}

impl View for GpuTiming {
    type V = TimingView;

    closed spec fn view(&self) -> TimingView {
        TimingView {
            supported: self.supported,
            enabled: self.enabled,
            written: self.written,
            next_frame_index: self.next_frame_index,
            slots: self.slots@,
            completed: self.completed@,
            last_frame: self.last_frame,
        }
    }
}

/// The first slot of `slots` with no pending readback, if any.
pub open spec fn free_slot(slots: Seq<ReadbackSlot>) -> Option<int> {
    if exists|k: int| 0 <= k < slots.len() && !(#[trigger] slots[k]).pending {
        Some(
            choose|k: int|
                0 <= k < slots.len() && !(#[trigger] slots[k]).pending && forall|j: int|
                    0 <= j < k ==> (#[trigger] slots[j]).pending,
        )
    } else {
        None
    }
}

impl GpuTiming {
    /// Consistent bookkeeping: the ring exists exactly when timestamps are
    /// supported, only then can timing be enabled, and at most a ring's
    /// worth of completed frames wait.
    pub open spec fn wf(self) -> bool {
        &&& self@.slots.len() == (if self@.supported {
            READBACK_RING_SIZE as int
        } else {
            0
        })
        &&& self@.enabled ==> self@.supported
        &&& self@.completed.len() <= READBACK_RING_SIZE
    }

    /// Bookkeeping for a device with or without timestamp queries; timing starts disabled.
    pub fn new(supported: bool) -> (t: Self)
        ensures
            t.wf(),
            t@.supported == supported,
            !t@.enabled,
            t@.written == 0,
            t@.next_frame_index == 0,
            supported ==> forall|k: int|
                0 <= k < READBACK_RING_SIZE ==> #[trigger] t@.slots[k] == (ReadbackSlot {
                    pending: false,
                    mapping: false,
                    pending_mask: 0,
                    pending_frame_index: 0,
                }),
            t@.completed.len() == 0,
            t@.last_frame.is_none(),
    {
        let mut slots: Vec<ReadbackSlot> = Vec::new();
        if supported {
            let idle = ReadbackSlot {
                pending: false,
                mapping: false,
                pending_mask: 0,
                pending_frame_index: 0,
            };
            slots.push(idle);
            slots.push(idle);
            slots.push(idle);
        }
        GpuTiming {
            supported,
            enabled: false,
            written: 0,
            next_frame_index: 0,
            slots,
            completed: VecDeque::new(),
            last_frame: None,
        }
    }

    /// Turn timing on or off; on works only where timestamps are supported.
    /// Either way the frame counter and the written passes restart, and
    /// turning timing off forgets every completed frame.
    pub fn set_enabled(&mut self, enabled: bool)
        requires
            old(self).wf(),
        ensures
            final(self).wf(),
            final(self)@.enabled == (enabled && old(self)@.supported),
            final(self)@.supported == old(self)@.supported,
            final(self)@.written == 0,
            final(self)@.next_frame_index == 0,
            final(self)@.slots == old(self)@.slots,
            final(self)@.enabled ==> final(self)@.completed == old(self)@.completed
                && final(self)@.last_frame == old(self)@.last_frame,
            !final(self)@.enabled ==> final(self)@.completed.len() == 0
                && final(self)@.last_frame.is_none(),
    {
        self.enabled = enabled && self.supported;
        self.written = 0;
        self.next_frame_index = 0;
        if !self.enabled {
            self.completed.clear();
            self.last_frame = None;
        }
    }

    pub fn supported(&self) -> (s: bool)
        ensures
            s == self@.supported,
    {
        self.supported
    }

    /// Timestamps are being written.
    pub fn active(&self) -> (a: bool)
        ensures
            a == (self@.enabled && self@.supported),
    {
        self.enabled && self.supported
    }

    /// Passes that wrote timestamps since the last resolve.
    pub fn written(&self) -> (w: u32)
        ensures
            w == self@.written,
    {
        self.written
    }

    /// Record that `pass` is about to write its timestamps; returns whether
    /// timing is active (otherwise nothing is written or recorded).
    pub fn mark_written(&mut self, pass: TimedPass) -> (wrote: bool)
        requires
            old(self).wf(),
        ensures
            final(self).wf(),
            wrote == (old(self)@.enabled && old(self)@.supported),
            wrote ==> final(self)@ == (TimingView {
                written: old(self)@.written | (1u32 << (pass_index(pass) as u32)),
                ..old(self)@
            }),
            !wrote ==> final(self)@ == old(self)@,
            wrote ==> has_bit(final(self)@.written, pass_index(pass)),
    {
        if !self.active() {
            return false;
        }
        let i = pass.index() as u32;
        let old_written = self.written;
        self.written = old_written | (1u32 << i);
        proof {
            let w = self.written;
            assert(w & (1u32 << i) != 0) by (bit_vector)
                requires
                    w == old_written | (1u32 << i),
                    i < 20,
            ;
        }
        true
    }

    /// End a frame: the frame gets the next frame index, and its written
    /// passes go to the first free readback slot, which is returned (the
    /// caller resolves the query set into it).  Without a free slot the
    /// frame is dropped.  The written passes restart either way.
    pub fn resolve(&mut self) -> (slot: Option<usize>)
        requires
            old(self).wf(),
        ensures
            final(self).wf(),
            !(old(self)@.enabled && old(self)@.supported) ==> final(self)@ == old(self)@
                && slot.is_none(),
            old(self)@.enabled && old(self)@.supported ==> {
                &&& final(self)@.written == 0
                &&& final(self)@.next_frame_index == old(self)@.next_frame_index.wrapping_add(1)
                &&& final(self)@.enabled == old(self)@.enabled
                &&& final(self)@.supported == old(self)@.supported
                &&& final(self)@.completed == old(self)@.completed
                &&& final(self)@.last_frame == old(self)@.last_frame
                &&& match free_slot(old(self)@.slots) {
                    None => slot.is_none() && final(self)@.slots == old(self)@.slots,
                    Some(k) => slot == Some(k as usize) && final(self)@.slots == old(self)@.slots.update(
                        k,
                        ReadbackSlot {
                            pending: true,
                            pending_mask: old(self)@.written,
                            pending_frame_index: old(self)@.next_frame_index,
                            ..old(self)@.slots[k]
                        },
                    ),
                }
            },
    {
        if !self.active() {
            return None;
        }
        let rendered_frame_index = self.next_frame_index;
        self.next_frame_index = self.next_frame_index.wrapping_add(1);
        let mask = self.written;
        let mut k: usize = 0;
        while k < self.slots.len() && self.slots[k].pending
            invariant
                k <= self.slots@.len(),
                forall|j: int| 0 <= j < k ==> (#[trigger] self.slots@[j]).pending,
            decreases self.slots@.len() - k,
        {
            k = k + 1;
        }
        self.written = 0;
        if k == self.slots.len() {
            proof {
                assert(free_slot(old(self)@.slots).is_none());
            }
            return None;
        }
        let old_slot = self.slots[k];
        self.slots.set(
            k,
            ReadbackSlot {
                pending: true,
                pending_mask: mask,
                pending_frame_index: rendered_frame_index,
                ..old_slot
            },
        );
        proof {
            let s = old(self)@.slots;
            assert(!s[k as int].pending);
            let c = choose|c: int|
                0 <= c < s.len() && !(#[trigger] s[c]).pending && forall|j: int|
                    0 <= j < c ==> (#[trigger] s[j]).pending;
            assert(c == k) by {
                if c < k {
                    assert(s[c].pending);
                }
                if c > k {
                    assert(s[k as int].pending);
                }
            }
        }
        Some(k)
    }

    /// Slots whose readback should start mapping now: pending and not yet
    /// mapping.  They are marked as mapping.
    pub fn start_mapping(&mut self) -> (started: Vec<usize>)
        requires
            old(self).wf(),
        ensures
            final(self).wf(),
            !(old(self)@.enabled && old(self)@.supported) ==> final(self)@ == old(self)@
                && started@.len() == 0,
            old(self)@.enabled && old(self)@.supported ==> {
                &&& final(self)@ == (TimingView {
                    slots: Seq::new(
                        old(self)@.slots.len(),
                        |k: int|
                            if old(self)@.slots[k].pending {
                                ReadbackSlot { mapping: true, ..old(self)@.slots[k] }
                            } else {
                                old(self)@.slots[k]
                            },
                    ),
                    ..old(self)@
                })
                &&& forall|i: int|
                    0 <= i < started@.len() ==> (#[trigger] started@[i]) < old(self)@.slots.len()
                        && old(self)@.slots[started@[i] as int].pending
                        && !old(self)@.slots[started@[i] as int].mapping
                &&& forall|k: int|
                    0 <= k < old(self)@.slots.len() && old(self)@.slots[k].pending
                        && !old(self)@.slots[k].mapping ==> started@.contains(k as usize)
                &&& forall|i: int, j: int|
                    0 <= i < j < started@.len() ==> #[trigger] started@[i] < #[trigger] started@[j]
            },
    {
        let mut started: Vec<usize> = Vec::new();
        if !self.active() {
            return started;
        }
        let ghost before = self@;
        let mut k: usize = 0;
        while k < self.slots.len()
            invariant
                k <= self.slots@.len(),
                self.slots@.len() == before.slots.len(),
                self.supported == before.supported,
                self.enabled == before.enabled,
                self.written == before.written,
                self.next_frame_index == before.next_frame_index,
                self.completed@ == before.completed,
                self.last_frame == before.last_frame,
                forall|j: int|
                    0 <= j < self.slots@.len() ==> #[trigger] self.slots@[j] == (if j < k
                        && before.slots[j].pending {
                        ReadbackSlot { mapping: true, ..before.slots[j] }
                    } else {
                        before.slots[j]
                    }),
                forall|i: int|
                    0 <= i < started@.len() ==> (#[trigger] started@[i]) < k
                        && before.slots[started@[i] as int].pending
                        && !before.slots[started@[i] as int].mapping,
                forall|j: int|
                    0 <= j < k && before.slots[j].pending && !before.slots[j].mapping
                        ==> started@.contains(j as usize),
                forall|i: int, j: int|
                    0 <= i < j < started@.len() ==> #[trigger] started@[i] < #[trigger] started@[j],
            decreases self.slots@.len() - k,
        {
            let slot = self.slots[k];
            if slot.pending {
                if !slot.mapping {
                    let ghost prior = started@;
                    started.push(k);
                    proof {
                        assert(started@[started@.len() - 1] == k);
                        assert forall|j: int|
                            0 <= j < k + 1 && before.slots[j].pending && !before.slots[j].mapping
                                implies started@.contains(j as usize) by {
                            if j < k {
                                let idx = choose|idx: int|
                                    0 <= idx < prior.len() && prior[idx] == j as usize;
                                assert(started@[idx] == j as usize);
                            }
                        }
                    }
                }
                self.slots.set(k, ReadbackSlot { mapping: true, ..slot });
            }
            k = k + 1;
        }
        proof {
            assert(self.slots@ =~= Seq::new(
                before.slots.len(),
                |j: int|
                    if before.slots[j].pending {
                        ReadbackSlot { mapping: true, ..before.slots[j] }
                    } else {
                        before.slots[j]
                    },
            ));
        }
        started
    }

    /// The readback of slot `k` failed or its buffer could not be read:
    /// the slot is free again and nothing is reported.
    pub fn readback_failed(&mut self, k: usize)
        requires
            old(self).wf(),
            k < old(self)@.slots.len(),
        ensures
            final(self).wf(),
            final(self)@ == (TimingView {
                slots: old(self)@.slots.update(
                    k as int,
                    ReadbackSlot { pending: false, mapping: false, ..old(self)@.slots[k as int] },
                ),
                ..old(self)@
            }),
    {
        let slot = self.slots[k];
        self.slots.set(k, ReadbackSlot { pending: false, mapping: false, ..slot });
    }

    /// Slot `k` was read back with the resolved timestamps `ticks`: its frame
    /// joins the completed queue (the oldest is dropped when the queue
    /// holds a ring's worth) and becomes the last frame; the slot is free.
    pub fn readback_complete(&mut self, k: usize, ticks: &[u64]) -> (frame: FrameTicks)
        requires
            old(self).wf(),
            k < old(self)@.slots.len(),
            ticks@.len() >= 40,
        ensures
            final(self).wf(),
            frame_from_ticks(
                ticks@,
                old(self)@.slots[k as int].pending_mask,
                old(self)@.slots[k as int].pending_frame_index,
                frame,
            ),
            final(self)@.completed == (if old(self)@.completed.len() == READBACK_RING_SIZE {
                old(self)@.completed.drop_first()
            } else {
                old(self)@.completed
            }).push(frame),
            final(self)@.last_frame == Some(frame),
            final(self)@.slots == old(self)@.slots.update(
                k as int,
                ReadbackSlot { pending: false, mapping: false, ..old(self)@.slots[k as int] },
            ),
            final(self)@.supported == old(self)@.supported,
            final(self)@.enabled == old(self)@.enabled,
            final(self)@.written == old(self)@.written,
            final(self)@.next_frame_index == old(self)@.next_frame_index,
    {
        let slot = self.slots[k];
        let frame = frame_ticks(ticks, slot.pending_mask, slot.pending_frame_index);
        if self.completed.len() == READBACK_RING_SIZE {
            self.completed.pop_front();
        }
        self.completed.push_back(frame);
        self.last_frame = Some(frame);
        self.slots.set(k, ReadbackSlot { pending: false, mapping: false, ..slot });
        frame
    }

    /// The oldest completed frame, removed from the queue.
    pub fn take_last_frame(&mut self) -> (frame: Option<FrameTicks>)
        requires
            old(self).wf(),
        ensures
            final(self).wf(),
            old(self)@.completed.len() == 0 ==> frame.is_none() && final(self)@ == old(self)@,
            old(self)@.completed.len() > 0 ==> frame == Some(old(self)@.completed[0])
                && final(self)@ == (TimingView {
                completed: old(self)@.completed.drop_first(),
                ..old(self)@
            }),
    {
        self.completed.pop_front()
    }

    /// Frames waiting to be taken, oldest first.
    pub fn completed_len(&self) -> (n: usize)
        ensures
            n == self@.completed.len(),
    {
        self.completed.len()
    }
}

} // verus!
