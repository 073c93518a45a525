//! The frame accumulator: coalesces raw events into per-frame motion sums
//! and a passthrough sequence, and on completion assembles the output batch
//! that is handed to the sink.

use vstd::prelude::*;
use vstd::seq_lib::group_seq_properties;

use crate::events::EventClass;
use crate::events::RawEvent;
use crate::events::EV_REL;
use crate::events::REL_X;
use crate::events::REL_Y;
use crate::events::class_of;

verus! {

/// The mathematical state of a frame: the per-axis motion sums, whether a
/// synchronization marker has been seen, and the passthrough events kept
/// aside in arrival order.
pub ghost struct FrameModel {
    pub sum_x: i32,
    pub sum_y: i32,
    pub complete: bool,
    pub passthrough: Seq<RawEvent>,
}

/// The state a frame starts in and returns to after every flush.
pub open spec fn empty_frame() -> FrameModel {
    FrameModel { sum_x: 0, sum_y: 0, complete: false, passthrough: Seq::empty() }
}

/// Whether an event is kept aside rather than consumed.
pub open spec fn is_passthrough(ev: RawEvent) -> bool {
    class_of(ev) == EventClass::Passthrough
}

/// A frame is well formed when everything it keeps aside really is a
/// passthrough event: motion and markers are consumed, never stored.
pub open spec fn frame_wf(m: FrameModel) -> bool {
    forall|i: int| 0 <= i < m.passthrough.len() ==> is_passthrough(#[trigger] m.passthrough[i])
}

/// How one raw event changes the frame: motion is added into the axis sum
/// (wrapping, as two's-complement addition does), a marker completes the
/// frame, and anything else is appended to the passthrough sequence.
pub open spec fn absorb_one(m: FrameModel, ev: RawEvent) -> FrameModel {
    match class_of(ev) {
        EventClass::MotionX => FrameModel {
            sum_x: vstd::wrapping::i32_specs::wrapping_add(m.sum_x, ev.value),
            ..m
        },
        EventClass::MotionY => FrameModel {
            sum_y: vstd::wrapping::i32_specs::wrapping_add(m.sum_y, ev.value),
            ..m
        },
        EventClass::SyncMarker => FrameModel { complete: true, ..m },
        EventClass::Passthrough => FrameModel { passthrough: m.passthrough.push(ev), ..m },
    }
}

/// The frame state after absorbing a whole sequence of raw events in order.
pub open spec fn absorb_seq(m: FrameModel, evs: Seq<RawEvent>) -> FrameModel
    decreases evs.len(),
{
    if evs.len() == 0 {
        m
    } else {
        absorb_one(absorb_seq(m, evs.drop_last()), evs.last())
    }
}

/// The output batch of a completed frame: the passthrough events exactly as
/// they arrived, then a horizontal motion event if its delta is nonzero,
/// then a vertical one if its delta is nonzero. A zero delta produces no
/// event at all.
pub open spec fn flush_batch(pass: Seq<RawEvent>, out_x: i32, out_y: i32) -> Seq<RawEvent> {
    let with_x = if out_x != 0 {
        pass.push(RawEvent { event_type: EV_REL, code: REL_X, value: out_x })
    } else {
        pass
    };
    if out_y != 0 {
        with_x.push(RawEvent { event_type: EV_REL, code: REL_Y, value: out_y })
    } else {
        with_x
    }
}

/// The transient per-frame accumulator.
pub struct Frame {
    sum_x: i32,
    sum_y: i32,
    complete: bool,
    passthrough: Vec<RawEvent>,
}

impl View for Frame {
    type V = FrameModel;

    closed spec fn view(&self) -> FrameModel {
        FrameModel {
            sum_x: self.sum_x,
            sum_y: self.sum_y,
            complete: self.complete,
            passthrough: self.passthrough@,
        }
    }
}

impl Frame {
    /// A fresh, empty, incomplete frame.
    pub fn new() -> (f: Frame)
        ensures
            f@ == empty_frame(),
    {
        let f = Frame { sum_x: 0, sum_y: 0, complete: false, passthrough: Vec::new() };
        proof {
            assert(f@ =~= empty_frame());
        }
        f
    }

    /// The summed horizontal motion of the frame so far.
    pub fn sum_x(&self) -> (r: i32)
        ensures
            r == self@.sum_x,
    {
        self.sum_x
    }

    /// The summed vertical motion of the frame so far.
    pub fn sum_y(&self) -> (r: i32)
        ensures
            r == self@.sum_y,
    {
        self.sum_y
    }

    /// Whether a synchronization marker has closed the frame.
    pub fn is_complete(&self) -> (r: bool)
        ensures
            r == self@.complete,
    {
        self.complete
    }

    /// Route one raw event into the frame.
    pub fn absorb(&mut self, ev: RawEvent)
        ensures
            final(self)@ == absorb_one(old(self)@, ev),
    {
        match ev.classify() {
            EventClass::MotionX => {
                self.sum_x = self.sum_x.wrapping_add(ev.value);
            },
            EventClass::MotionY => {
                self.sum_y = self.sum_y.wrapping_add(ev.value);
            },
            EventClass::SyncMarker => {
                self.complete = true;
            },
            EventClass::Passthrough => {
                self.passthrough.push(ev);
            },
        }
        proof {
            assert(self@ =~= absorb_one(old(self)@, ev));
        }
    }

    /// Route a whole batch of raw events into the frame, in order. The
    /// passthrough events of the batch are kept aside in arrival order and
    /// unchanged, each axis sum coalesces exactly that axis's motion, and
    /// the frame completes exactly when the batch holds a marker.
    pub fn absorb_batch(&mut self, evs: &Vec<RawEvent>)
        ensures
            final(self)@ == absorb_seq(old(self)@, evs@),
            final(self)@.passthrough == old(self)@.passthrough + evs@.filter(
                |e: RawEvent| is_passthrough(e),
            ),
            final(self)@.sum_x == wrap_sum(
                old(self)@.sum_x,
                motion_values(evs@, EventClass::MotionX),
            ),
            final(self)@.sum_y == wrap_sum(
                old(self)@.sum_y,
                motion_values(evs@, EventClass::MotionY),
            ),
            final(self)@.complete <==> (old(self)@.complete || exists|i: int|
                0 <= i < evs@.len() && class_of(#[trigger] evs@[i]) == EventClass::SyncMarker),
    {
        proof {
            lemma_absorb_keeps_passthrough_order(self@, evs@);
            lemma_absorb_coalesces_motion(self@, evs@);
            lemma_complete_iff_marker(self@, evs@);
        }
        let ghost m0 = self@;
        let mut i: usize = 0;
        while i < evs.len()
            invariant
                i <= evs.len(),
                self@ == absorb_seq(m0, evs@.take(i as int)),
            decreases evs.len() - i,
        {
            self.absorb(evs[i]);
            proof {
                assert(evs@.take(i + 1 as int).drop_last() =~= evs@.take(i as int));
                assert(evs@.take(i + 1 as int).last() == evs@[i as int]);
            }
            i = i + 1;
        }
        proof {
            assert(evs@.take(evs@.len() as int) =~= evs@);
        }
    }

    /// Flush the completed frame: hand back the output batch for the sink
    /// (passthrough events in arrival order, then the nonzero accelerated
    /// deltas) and reset the frame to empty.
    pub fn flush(&mut self, out_x: i32, out_y: i32) -> (batch: Vec<RawEvent>)
        requires
            old(self)@.complete,
        ensures
            batch@ == flush_batch(old(self)@.passthrough, out_x, out_y),
            final(self)@ == empty_frame(),
    {
        let mut batch: Vec<RawEvent> = Vec::new();
        core::mem::swap(&mut batch, &mut self.passthrough);
        if out_x != 0 {
            batch.push(RawEvent { event_type: EV_REL, code: REL_X, value: out_x });
        }
        if out_y != 0 {
            batch.push(RawEvent { event_type: EV_REL, code: REL_Y, value: out_y });
        }
        self.sum_x = 0;
        self.sum_y = 0;
        self.complete = false;
        proof {
            assert(self@ =~= empty_frame());
        }
        batch
    }
}

/// Absorbing events keeps passthrough events in arrival order: the frame's
/// passthrough sequence afterwards is what it held before, followed by
/// exactly the passthrough events of the input, in their original order and
/// unchanged.
pub proof fn lemma_absorb_keeps_passthrough_order(m: FrameModel, evs: Seq<RawEvent>)
    ensures
        absorb_seq(m, evs).passthrough == m.passthrough + evs.filter(|e: RawEvent| is_passthrough(e)),
    decreases evs.len(),
{
    broadcast use group_seq_properties;

    reveal(Seq::filter);
    if evs.len() == 0 {
        assert(evs.filter(|e: RawEvent| is_passthrough(e)) =~= Seq::<RawEvent>::empty());
        assert(m.passthrough + Seq::<RawEvent>::empty() =~= m.passthrough);
    } else {
        lemma_absorb_keeps_passthrough_order(m, evs.drop_last());
        let prev = absorb_seq(m, evs.drop_last());
        let pred = |e: RawEvent| is_passthrough(e);
        assert(absorb_one(prev, evs.last()).passthrough =~= m.passthrough + evs.filter(pred));
    }
}

/// Absorbing events preserves well-formedness: nothing but passthrough
/// events is ever stored.
pub proof fn lemma_absorb_preserves_wf(m: FrameModel, evs: Seq<RawEvent>)
    requires
        frame_wf(m),
    ensures
        frame_wf(absorb_seq(m, evs)),
{
    broadcast use vstd::prelude::Seq::lemma_filter_pred;

    lemma_absorb_keeps_passthrough_order(m, evs);
    let pass = absorb_seq(m, evs).passthrough;
    let pred = |e: RawEvent| is_passthrough(e);
    assert forall|i: int| 0 <= i < pass.len() implies is_passthrough(#[trigger] pass[i]) by {
        if i >= m.passthrough.len() {
            assert(pass[i] == evs.filter(pred)[i - m.passthrough.len()]);
        }
    }
}

/// Passthrough order preservation: the output batch of a flush starts with
/// the frame's passthrough events, unchanged and in arrival order, and
/// whatever follows them is newly made motion.
pub proof fn lemma_flush_passthrough_prefix(pass: Seq<RawEvent>, out_x: i32, out_y: i32)
    ensures
        flush_batch(pass, out_x, out_y).len() >= pass.len(),
        flush_batch(pass, out_x, out_y).subrange(0, pass.len() as int) == pass,
        forall|i: int|
            pass.len() <= i < flush_batch(pass, out_x, out_y).len() ==> (#[trigger] flush_batch(
                pass,
                out_x,
                out_y,
            )[i]).event_type == EV_REL,
{
    assert(flush_batch(pass, out_x, out_y).subrange(0, pass.len() as int) =~= pass);
}

/// No zero-delta emission: if the computed integer output for an axis is
/// zero, the output batch of a well-formed frame holds no motion event for
/// that axis at all.
pub proof fn lemma_no_zero_delta(pass: Seq<RawEvent>, out_x: i32, out_y: i32)
    requires
        forall|i: int| 0 <= i < pass.len() ==> is_passthrough(#[trigger] pass[i]),
    ensures
        out_x == 0 ==> forall|i: int|
            0 <= i < flush_batch(pass, out_x, out_y).len() ==> class_of(
                #[trigger] flush_batch(pass, out_x, out_y)[i],
            ) != EventClass::MotionX,
        out_y == 0 ==> forall|i: int|
            0 <= i < flush_batch(pass, out_x, out_y).len() ==> class_of(
                #[trigger] flush_batch(pass, out_x, out_y)[i],
            ) != EventClass::MotionY,
{
}

/// The values of the motion events of one axis, in arrival order.
pub open spec fn motion_values(evs: Seq<RawEvent>, c: EventClass) -> Seq<i32> {
    evs.filter(|e: RawEvent| class_of(e) == c).map_values(|e: RawEvent| e.value)
}

/// The wrapping sum of a sequence of deltas, on top of `init`.
pub open spec fn wrap_sum(init: i32, vals: Seq<i32>) -> i32
    decreases vals.len(),
{
    if vals.len() == 0 {
        init
    } else {
        vstd::wrapping::i32_specs::wrapping_add(wrap_sum(init, vals.drop_last()), vals.last())
    }
}

/// Coalescing: after a frame absorbs a sequence of raw events, each axis
/// sum is exactly the wrapping sum of that axis's motion values, taken in
/// arrival order, on top of whatever the frame already held.
pub proof fn lemma_absorb_coalesces_motion(m: FrameModel, evs: Seq<RawEvent>)
    ensures
        absorb_seq(m, evs).sum_x == wrap_sum(m.sum_x, motion_values(evs, EventClass::MotionX)),
        absorb_seq(m, evs).sum_y == wrap_sum(m.sum_y, motion_values(evs, EventClass::MotionY)),
    decreases evs.len(),
{
    reveal(Seq::filter);
    let px = |e: RawEvent| class_of(e) == EventClass::MotionX;
    let py = |e: RawEvent| class_of(e) == EventClass::MotionY;
    if evs.len() == 0 {
        assert(motion_values(evs, EventClass::MotionX) =~= Seq::<i32>::empty());
        assert(motion_values(evs, EventClass::MotionY) =~= Seq::<i32>::empty());
    } else {
        lemma_absorb_coalesces_motion(m, evs.drop_last());
        let rest = evs.drop_last();
        let last = evs.last();
        if px(last) {
            assert(evs.filter(px) == rest.filter(px).push(last));
            assert(motion_values(evs, EventClass::MotionX) =~= motion_values(
                rest,
                EventClass::MotionX,
            ).push(last.value));
            assert(motion_values(evs, EventClass::MotionX).drop_last() =~= motion_values(
                rest,
                EventClass::MotionX,
            ));
        } else {
            assert(evs.filter(px) == rest.filter(px));
            assert(motion_values(evs, EventClass::MotionX) =~= motion_values(
                rest,
                EventClass::MotionX,
            ));
        }
        if py(last) {
            assert(evs.filter(py) == rest.filter(py).push(last));
            assert(motion_values(evs, EventClass::MotionY) =~= motion_values(
                rest,
                EventClass::MotionY,
            ).push(last.value));
            assert(motion_values(evs, EventClass::MotionY).drop_last() =~= motion_values(
                rest,
                EventClass::MotionY,
            ));
        } else {
            assert(evs.filter(py) == rest.filter(py));
            assert(motion_values(evs, EventClass::MotionY) =~= motion_values(
                rest,
                EventClass::MotionY,
            ));
        }
    }
}

/// Frame completion comes from the synchronization marker and from nothing
/// else: after a batch is absorbed, the frame is complete exactly when it
/// already was, or the batch holds a marker.
pub proof fn lemma_complete_iff_marker(m: FrameModel, evs: Seq<RawEvent>)
    ensures
        absorb_seq(m, evs).complete <==> (m.complete || exists|i: int|
            0 <= i < evs.len() && class_of(#[trigger] evs[i]) == EventClass::SyncMarker),
    decreases evs.len(),
{
    if evs.len() > 0 {
        lemma_complete_iff_marker(m, evs.drop_last());
        let rest = evs.drop_last();
        if class_of(evs.last()) == EventClass::SyncMarker {
            assert(class_of(evs[evs.len() - 1]) == EventClass::SyncMarker);
        }
        if exists|i: int|
            0 <= i < rest.len() && class_of(#[trigger] rest[i]) == EventClass::SyncMarker {
            let i = choose|i: int|
                0 <= i < rest.len() && class_of(#[trigger] rest[i]) == EventClass::SyncMarker;
            assert(class_of(evs[i]) == EventClass::SyncMarker);
        }
        if exists|i: int|
            0 <= i < evs.len() && class_of(#[trigger] evs[i]) == EventClass::SyncMarker {
            let i = choose|i: int|
                0 <= i < evs.len() && class_of(#[trigger] evs[i]) == EventClass::SyncMarker;
            if i < evs.len() - 1 {
                assert(class_of(rest[i]) == EventClass::SyncMarker);
            }
        }
    }
}

/// Passthrough order preservation, end to end: run a batch of raw events
/// through an initially well-formed frame and flush; the output batch then
/// begins with the frame's earlier passthrough events followed by exactly
/// the passthrough events of the batch, in arrival order and unchanged.
pub proof fn lemma_pipeline_passthrough_order(
    m: FrameModel,
    evs: Seq<RawEvent>,
    out_x: i32,
    out_y: i32,
)
    ensures
        flush_batch(absorb_seq(m, evs).passthrough, out_x, out_y).subrange(
            0,
            absorb_seq(m, evs).passthrough.len() as int,
        ) == m.passthrough + evs.filter(|e: RawEvent| is_passthrough(e)),
{
    lemma_absorb_keeps_passthrough_order(m, evs);
    lemma_flush_passthrough_prefix(absorb_seq(m, evs).passthrough, out_x, out_y);
}

} // verus!
