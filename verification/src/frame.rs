//! Per-frame synchronization: the rotating frame slots, their fence
//! discipline, and the begin/present cycle, as a state machine.  The caller
//! performs the driver calls an action asks for; the machine owns the order
//! they must happen in and proves the slot and fence bookkeeping sound.
//!
//! A slot's fence stands for GPU work submitted from that slot.  `Ready`
//! means the fence is known signaled (no work outstanding), `Recording`
//! means the slot's command buffer is being recorded this tick, `InFlight`
//! means work was submitted and the fence may still be unsignaled.  A ghost
//! log records every fence wait, command-buffer reset and submission, and
//! well-formedness carries the proof that no slot is ever reset while its
//! last submission is still unwaited.

use crate::FRAME_COUNT;
use vstd::prelude::*;

verus! {

/// Lifecycle phase of one frame slot.
#[derive(Clone, Copy, PartialEq, Eq, Structural, Debug)]
pub enum SlotPhase {
    /// The slot's fence is signaled: its previous work is done.
    Ready,
    /// The slot's command buffer is being recorded this tick.
    Recording,
    /// The slot's work was submitted; the fence may be unsignaled.
    InFlight,
}

/// One entry of the ghost event log.
#[derive(Clone, Copy, PartialEq, Eq, Structural, Debug)]
pub enum FrameEvent {
    /// The host blocked on the slot's fence until it signaled.
    Wait(usize),
    /// The slot's fence and command buffer were reset for re-recording.
    Reset(usize),
    /// The slot's command buffer was submitted, to signal the fence later.
    Submit(usize),
}

/// What the image acquire reported for this tick.
#[derive(Clone, Copy, PartialEq, Eq, Structural, Debug)]
pub enum AcquireOutcome {
    /// An image is available; `suboptimal` says the chain no longer matches
    /// the surface exactly but can still present.
    Image { index: usize, suboptimal: bool },
    /// The chain is stale and must be rebuilt before any image comes.
    OutOfDate,
}

/// What the caller must do after `begin_frame`.
#[derive(Clone, Copy, PartialEq, Eq, Structural, Debug)]
pub enum BeginAction {
    /// Reset the slot's fence and command buffer, begin recording, and
    /// transition the acquired image for rendering.
    Record { slot: usize, image_index: usize },
    /// The chain was stale: rebuild it and skip this frame entirely.
    SkipResize,
}

/// What the caller must do after `present`.
#[derive(Clone, Copy, PartialEq, Eq, Structural, Debug)]
pub enum PresentAction {
    /// Submit the slot's command buffer (waiting on its acquire semaphore,
    /// signaling its render-complete semaphore and its fence), then present
    /// the image.
    Submit { slot: usize, image_index: usize },
    /// A resize consumed this tick: nothing was recorded, nothing to submit.
    Skip,
}

/// Whether an acquire outcome forces a chain rebuild.
pub open spec fn stale_acquire(acquire: AcquireOutcome) -> bool {
    match acquire {
        AcquireOutcome::Image { index, suboptimal } => suboptimal,
        AcquireOutcome::OutOfDate => true,
    }
}

/// Whether slot `s` has a submission not yet followed by a fence wait.
pub open spec fn outstanding(log: Seq<FrameEvent>, s: usize) -> bool
    decreases log.len(),
{
    if log.len() == 0 {
        false
    } else if log.last() == FrameEvent::Submit(s) {
        true
    } else if log.last() == FrameEvent::Wait(s) {
        false
    } else {
        outstanding(log.drop_last(), s)
    }
}

/// The reset at position `k` of the log came while nothing was outstanding
/// on its slot.
pub open spec fn reset_ok(log: Seq<FrameEvent>, k: int) -> bool {
    match log[k] {
        FrameEvent::Reset(s) => !outstanding(log.take(k), s),
        _ => true,
    }
}

/// Fence discipline over a whole log: every command-buffer reset happened
/// while the slot had no submission pending an un-waited fence.
pub open spec fn reset_disciplined(log: Seq<FrameEvent>) -> bool {
    forall|k: int| 0 <= k < log.len() ==> #[trigger] reset_ok(log, k)
}

/// The per-frame synchronization state.
pub struct FrameSync {
    /// Phase of each of the `FRAME_COUNT` slots.
    pub phases: Vec<SlotPhase>,
    /// The slot this tick records into; advances round-robin.
    pub frame_index: usize,
    /// The presentable image the last successful acquire returned.
    pub image_index: usize,
    /// Set when an acquire found the chain stale; the next `present` clears
    /// it and skips.
    pub pending_resize: bool,
    /// Every fence wait, reset and submission, in order.
    pub log: Ghost<Seq<FrameEvent>>,
    /// How many resize cycles acquires have forced.
    pub resizes: Ghost<int>,
    /// How many command buffers were submitted.
    pub submits: Ghost<int>,
}

impl FrameSync {
    /// The machine is between `begin_frame` and `present` of a recorded
    /// frame.
    pub open spec fn in_frame(self) -> bool {
        self.phases@[self.frame_index as int] == SlotPhase::Recording
    }

    pub open spec fn wf(self) -> bool {
        &&& self.phases@.len() == FRAME_COUNT
        &&& self.frame_index < FRAME_COUNT
        &&& forall|s: int|
            0 <= s < self.phases@.len() ==> ((#[trigger] self.phases@[s] == SlotPhase::InFlight)
                <==> outstanding(self.log@, s as usize))
        &&& forall|s: int|
            0 <= s < self.phases@.len() ==> (#[trigger] self.phases@[s] == SlotPhase::Recording
                ==> s == self.frame_index as int)
        &&& self.pending_resize ==> !self.in_frame()
        &&& reset_disciplined(self.log@)
    }

    /// Fresh state: every slot ready (fences are created signaled), slot 0
    /// first, no resize pending, empty history.
    pub fn new() -> (m: FrameSync)
        ensures
            m.wf(),
            m.frame_index == 0,
            !m.pending_resize,
            !m.in_frame(),
            m.log@ == Seq::<FrameEvent>::empty(),
            m.resizes@ == 0,
            m.submits@ == 0,
            forall|s: int| 0 <= s < FRAME_COUNT ==> m.phases@[s] == SlotPhase::Ready,
    {
        let mut phases: Vec<SlotPhase> = Vec::new();
        phases.push(SlotPhase::Ready);
        phases.push(SlotPhase::Ready);
        phases.push(SlotPhase::Ready);
        let m = FrameSync {
            phases,
            frame_index: 0,
            image_index: 0,
            pending_resize: false,
            log: Ghost(Seq::empty()),
            resizes: Ghost(0),
            submits: Ghost(0),
        };
        proof {
            assert forall|s: int| 0 <= s < m.phases@.len() implies !(#[trigger] outstanding(
                m.log@,
                s as usize,
            )) by {}
        }
        m
    }

    /// Begins a tick: the host has waited on the current slot's fence (the
    /// wait is the first event of every tick) and then acquired an image
    /// with the given outcome.  On a stale outcome the frame is skipped and
    /// a resize cycle is triggered; otherwise the slot moves to `Recording`.
    pub fn begin_frame(&mut self, acquire: AcquireOutcome) -> (action: BeginAction)
        requires
            old(self).wf(),
            !old(self).pending_resize,
            !old(self).in_frame(),
        ensures
            final(self).wf(),
            begin_transition(*old(self), *final(self), acquire, action),
    {
        let slot = self.frame_index;
        // The blocking fence wait: after it, the slot's prior work is done.
        set_phase(&mut self.phases, slot, SlotPhase::Ready);
        proof {
            let pre_log = self.log@;
            self.log = Ghost(self.log@.push(FrameEvent::Wait(slot)));
            lemma_log_push_all(pre_log, FrameEvent::Wait(slot));
        }
        match acquire {
            AcquireOutcome::Image { index, suboptimal } => {
                self.image_index = index;
                if suboptimal {
                    self.pending_resize = true;
                    proof {
                        self.resizes = Ghost(self.resizes@ + 1);
                    }
                    return BeginAction::SkipResize;
                }
                // Reset the fence and command buffer, begin recording.
                set_phase(&mut self.phases, slot, SlotPhase::Recording);
                proof {
                    let pre_log = self.log@;
                    self.log = Ghost(self.log@.push(FrameEvent::Reset(slot)));
                    lemma_log_push_all(pre_log, FrameEvent::Reset(slot));
                    assert(self.phases@ =~= old(self).phases@.update(
                        slot as int,
                        SlotPhase::Recording,
                    ));
                }
                BeginAction::Record { slot, image_index: index }
            },
            AcquireOutcome::OutOfDate => {
                self.pending_resize = true;
                proof {
                    self.resizes = Ghost(self.resizes@ + 1);
                }
                BeginAction::SkipResize
            },
        }
    }

    /// Ends a tick.  A pending resize consumes the tick without submitting
    /// anything; otherwise the recorded command buffer is submitted, the
    /// slot goes in flight, and the slot index advances round-robin.
    pub fn present(&mut self) -> (action: PresentAction)
        requires
            old(self).wf(),
            old(self).in_frame() || old(self).pending_resize,
        ensures
            final(self).wf(),
            present_transition(*old(self), *final(self), action),
    {
        if self.pending_resize {
            self.pending_resize = false;
            return PresentAction::Skip;
        }
        let slot = self.frame_index;
        set_phase(&mut self.phases, slot, SlotPhase::InFlight);
        proof {
            let pre_log = self.log@;
            self.log = Ghost(self.log@.push(FrameEvent::Submit(slot)));
            self.submits = Ghost(self.submits@ + 1);
            lemma_log_push_all(pre_log, FrameEvent::Submit(slot));
        }
        self.frame_index = (slot + 1) % FRAME_COUNT;
        PresentAction::Submit { slot, image_index: self.image_index }
    }
}

/// Exactly how `begin_frame` steps the machine.
pub open spec fn begin_transition(
    pre: FrameSync,
    post: FrameSync,
    acquire: AcquireOutcome,
    action: BeginAction,
) -> bool {
    let slot = pre.frame_index as int;
    &&& post.frame_index == pre.frame_index
    &&& post.submits == pre.submits
    &&& if stale_acquire(acquire) {
        &&& action == BeginAction::SkipResize
        &&& post.pending_resize
        &&& post.resizes@ == pre.resizes@ + 1
        &&& post.phases@ == pre.phases@.update(slot, SlotPhase::Ready)
        &&& post.log@ == pre.log@.push(FrameEvent::Wait(pre.frame_index))
    } else {
        &&& action == (BeginAction::Record {
            slot: pre.frame_index,
            image_index: post.image_index,
        })
        &&& acquire == (AcquireOutcome::Image { index: post.image_index, suboptimal: false })
        &&& !post.pending_resize
        &&& post.resizes == pre.resizes
        &&& post.phases@ == pre.phases@.update(slot, SlotPhase::Recording)
        &&& post.log@ == pre.log@.push(FrameEvent::Wait(pre.frame_index)).push(
            FrameEvent::Reset(pre.frame_index),
        )
    }
}

/// Exactly how `present` steps the machine.
pub open spec fn present_transition(pre: FrameSync, post: FrameSync, action: PresentAction) -> bool {
    if pre.pending_resize {
        &&& action == PresentAction::Skip
        &&& post == FrameSync { pending_resize: false, ..pre }
    } else {
        &&& action == (PresentAction::Submit {
            slot: pre.frame_index,
            image_index: pre.image_index,
        })
        &&& post.frame_index as int == (pre.frame_index + 1) % (FRAME_COUNT as int)
        &&& post.image_index == pre.image_index
        &&& !post.pending_resize
        &&& post.phases@ == pre.phases@.update(pre.frame_index as int, SlotPhase::InFlight)
        &&& post.log@ == pre.log@.push(FrameEvent::Submit(pre.frame_index))
        &&& post.submits@ == pre.submits@ + 1
        &&& post.resizes == pre.resizes
    }
}

/// Writes one slot's phase.
fn set_phase(v: &mut Vec<SlotPhase>, i: usize, p: SlotPhase)
    requires
        i < old(v)@.len(),
    ensures
        final(v)@ == old(v)@.update(i as int, p),
{
    let r = &mut v[i];
    *r = p;
}

/// How one appended event changes what is outstanding, for every slot, and
/// how it extends a disciplined log.
proof fn lemma_log_push_all(log: Seq<FrameEvent>, e: FrameEvent)
    ensures
        forall|s: usize| #[trigger]
            outstanding(log.push(e), s) == if e == FrameEvent::Submit(s) {
                true
            } else if e == FrameEvent::Wait(s) {
                false
            } else {
                outstanding(log, s)
            },
        forall|k: int| 0 <= k < log.len() ==> #[trigger] reset_ok(log.push(e), k) == reset_ok(
            log,
            k,
        ),
        (match e {
            FrameEvent::Reset(s) => !outstanding(log, s),
            _ => true,
        }) && reset_disciplined(log) ==> reset_disciplined(log.push(e)),
{
    let log2 = log.push(e);
    assert(log2.drop_last() =~= log);
    assert forall|k: int| 0 <= k < log.len() implies #[trigger] reset_ok(log2, k) == reset_ok(
        log,
        k,
    ) by {
        assert(log2[k] == log[k]);
        assert(log2.take(k) =~= log.take(k));
    }
    if (match e {
        FrameEvent::Reset(s) => !outstanding(log, s),
        _ => true,
    }) && reset_disciplined(log) {
        assert forall|k: int| 0 <= k < log2.len() implies #[trigger] reset_ok(log2, k) by {
            if k < log.len() {
                assert(reset_ok(log, k));
            } else {
                assert(log2[k] == e);
                assert(log2.take(k) =~= log);
            }
        }
    }
}

/// Fence discipline is an invariant of the machine: in every well-formed
/// state, the history shows no slot was ever reset while a submission on it
/// was still unwaited — across any number of consecutive frames, a command
/// buffer is reused only after its prior work completed.
pub proof fn lemma_fence_discipline(m: FrameSync)
    requires
        m.wf(),
    ensures
        reset_disciplined(m.log@),
{
}

/// In a recorded tick the fence wait comes strictly before the reset:
/// `begin_frame` logs the blocking wait on the slot's fence as its first
/// event, and only then the reset of that slot's command buffer.
pub proof fn lemma_begin_waits_before_reset(
    pre: FrameSync,
    post: FrameSync,
    acquire: AcquireOutcome,
    action: BeginAction,
)
    requires
        begin_transition(pre, post, acquire, action),
        !stale_acquire(acquire),
    ensures
        post.log@.len() == pre.log@.len() + 2,
        post.log@[pre.log@.len() as int] == FrameEvent::Wait(pre.frame_index),
        post.log@[pre.log@.len() as int + 1] == FrameEvent::Reset(pre.frame_index),
{
}

/// A tick that begins with a stale acquire performs exactly one resize
/// cycle and submits nothing: the begin skips, the present clears the flag,
/// the resize counter rises by exactly one and the submission counter and
/// event log do not grow.
pub proof fn lemma_stale_tick(
    s0: FrameSync,
    s1: FrameSync,
    s2: FrameSync,
    acquire: AcquireOutcome,
    a1: BeginAction,
    a2: PresentAction,
)
    requires
        stale_acquire(acquire),
        begin_transition(s0, s1, acquire, a1),
        present_transition(s1, s2, a2),
    ensures
        a1 == BeginAction::SkipResize,
        a2 == PresentAction::Skip,
        s2.resizes@ == s0.resizes@ + 1,
        s2.submits@ == s0.submits@,
        !s2.pending_resize,
        forall|k: int|
            0 <= k < s2.log@.len() ==> #[trigger] s2.log@[k] != FrameEvent::Submit(
                s0.frame_index,
            ) || s0.log@.contains(s2.log@[k]),
{
    assert(s2.log@ == s0.log@.push(FrameEvent::Wait(s0.frame_index)));
    assert forall|k: int| 0 <= k < s2.log@.len() implies #[trigger] s2.log@[k]
        != FrameEvent::Submit(s0.frame_index) || s0.log@.contains(s2.log@[k]) by {
        if k < s0.log@.len() {
            assert(s2.log@[k] == s0.log@[k]);
            assert(s0.log@.contains(s0.log@[k]));
        } else {
            assert(s2.log@[k] == FrameEvent::Wait(s0.frame_index));
        }
    }
}

} // verus!
