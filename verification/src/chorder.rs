//! The interval chorder itself: the stream-level transform, a fixed-capacity
//! output sink for the real-time path, and the per-cycle entry point.

use crate::event::Event;
use crate::event::expand;
use vstd::prelude::*;

verus! {

/// The whole cycle's output: each input event's expansion, in input order.
pub open spec fn transform(input: Seq<Event>) -> Seq<Event>
    decreases input.len(),
{
    if input.len() == 0 {
        Seq::empty()
    } else {
        expand(input.first()) + transform(input.drop_first())
    }
}

/// Output bound: a cycle emits at least one and at most three events per
/// consumed event, so a sink of three slots per input event always suffices.
pub proof fn lemma_transform_len(input: Seq<Event>)
    ensures
        input.len() <= transform(input).len() <= 3 * input.len(),
    decreases input.len(),
{
    if input.len() > 0 {
        lemma_transform_len(input.drop_first());
    }
}

/// Order preservation: transforming a concatenation concatenates the
/// transforms, so the expansions of distinct input events appear in input
/// order, each as one contiguous block.
pub proof fn lemma_transform_concat(a: Seq<Event>, b: Seq<Event>)
    ensures
        transform(a + b) == transform(a) + transform(b),
    decreases a.len(),
{
    if a.len() == 0 {
        assert(a + b =~= b);
        assert(transform(a) + transform(b) =~= transform(b));
    } else {
        assert((a + b).drop_first() =~= a.drop_first() + b);
        lemma_transform_concat(a.drop_first(), b);
        assert(transform(a + b) =~= transform(a) + transform(b));
    }
}

/// The transform of a single event is its expansion.
pub proof fn lemma_transform_singleton(e: Event)
    ensures
        transform(seq![e]) == expand(e),
{
    assert(seq![e].drop_first() =~= Seq::<Event>::empty());
    assert(seq![e].first() == e);
    assert(transform(Seq::<Event>::empty()) == Seq::<Event>::empty());
    assert(expand(e) + Seq::<Event>::empty() =~= expand(e));
}

/// Positional form of order preservation: the expansion of the `i`th input
/// event stands as one contiguous block, after the expansions of everything
/// before it and before the expansions of everything after it.
pub proof fn lemma_transform_blocks(input: Seq<Event>, i: int)
    requires
        0 <= i < input.len(),
    ensures
        transform(input) == transform(input.take(i)) + expand(input[i]) + transform(
            input.skip(i + 1),
        ),
{
    assert(input =~= input.take(i) + seq![input[i]] + input.skip(i + 1));
    lemma_transform_concat(input.take(i) + seq![input[i]], input.skip(i + 1));
    lemma_transform_concat(input.take(i), seq![input[i]]);
    lemma_transform_singleton(input[i]);
}

/// A stream ordered by non-decreasing cycle offset.
pub open spec fn timing_ordered(s: Seq<Event>) -> bool {
    forall|i: int, j: int| 0 <= i <= j < s.len() ==> (s[i]).timing() <= (s[j]).timing()
}

/// Everything a transform emits happens no earlier than the earliest input.
proof fn lemma_transform_timing_bound(s: Seq<Event>, lo: u32)
    requires
        forall|i: int| 0 <= i < s.len() ==> lo <= (#[trigger] s[i]).timing(),
    ensures
        forall|k: int|
            0 <= k < transform(s).len() ==> lo <= (#[trigger] transform(s)[k]).timing(),
    decreases s.len(),
{
    if s.len() > 0 {
        let head = expand(s.first());
        let tail = transform(s.drop_first());
        crate::event::lemma_expand_timing(s.first());
        assert(s.first() == s[0]);
        assert(forall|i: int|
            0 <= i < s.drop_first().len() ==> lo <= (#[trigger] s.drop_first()[i]).timing());
        lemma_transform_timing_bound(s.drop_first(), lo);
        assert forall|k: int|
            0 <= k < transform(s).len() implies lo <= (#[trigger] transform(s)[k]).timing() by {
            if k < head.len() {
                assert(transform(s)[k] == head[k]);
            } else {
                assert(transform(s)[k] == tail[k - head.len()]);
            }
        }
    }
}

/// Timing order preservation: a cycle whose input is ordered by
/// non-decreasing timing produces its whole output in non-decreasing timing
/// order, every sibling at the instant of the event that produced it.
pub proof fn lemma_timing_order_preserved(input: Seq<Event>)
    requires
        timing_ordered(input),
    ensures
        timing_ordered(transform(input)),
    decreases input.len(),
{
    if input.len() > 0 {
        let head = expand(input.first());
        let tail = transform(input.drop_first());
        crate::event::lemma_expand_timing(input.first());
        assert(input.first() == input[0]);
        assert(forall|i: int|
            0 <= i < input.drop_first().len() ==> (#[trigger] input.drop_first()[i]).timing()
                >= input[0].timing());
        assert(timing_ordered(input.drop_first()));
        lemma_timing_order_preserved(input.drop_first());
        lemma_transform_timing_bound(input.drop_first(), input[0].timing());
        assert forall|i: int, j: int|
            0 <= i <= j < transform(input).len() implies (transform(input)[i]).timing()
                <= (transform(input)[j]).timing() by {
            if j < head.len() {
                assert(transform(input)[i] == head[i]);
                assert(transform(input)[j] == head[j]);
            } else if i >= head.len() {
                assert(transform(input)[i] == tail[i - head.len()]);
                assert(transform(input)[j] == tail[j - head.len()]);
            } else {
                assert(transform(input)[i] == head[i]);
                assert(transform(input)[j] == tail[j - head.len()]);
            }
        }
    }
}

/// No cross-cycle state: the chorder keeps no memory between cycles, so two
/// fresh cycles over the same input produce the same output.
pub proof fn lemma_cycles_agree(input: Seq<Event>, first_run: Seq<Event>, second_run: Seq<Event>)
    requires
        first_run == transform(input),
        second_run == transform(input),
    ensures
        first_run == second_run,
{
}

/// A fixed-capacity event sink for the real-time path: pre-sized once, then
/// written through an index, never grown, so pushing an event allocates
/// nothing. Its view is the sequence of events pushed since the last clear.
pub struct EventBuffer {
    slots: Vec<Event>,
    filled: usize,
}

impl View for EventBuffer {
    type V = Seq<Event>;

    closed spec fn view(&self) -> Seq<Event> {
        self.slots@.take(self.filled as int)
    }
}

impl EventBuffer {
    /// The buffer's internal consistency: the fill index never passes the
    /// pre-sized storage.
    pub closed spec fn wf(self) -> bool {
        self.filled <= self.slots.len()
    }

    /// How many events the buffer can hold in all, fixed at construction.
    pub closed spec fn capacity(self) -> nat {
        self.slots@.len()
    }

    /// Pre-sizes a buffer for `cap` events. This is the one allocating step,
    /// meant for setup time, before the real-time path runs.
    pub fn with_capacity(cap: usize) -> (sink: EventBuffer)
        ensures
            sink.wf(),
            sink@ == Seq::<Event>::empty(),
            sink.capacity() == cap,
    {
        let mut slots: Vec<Event> = Vec::new();
        let mut i: usize = 0;
        while i < cap
            invariant
                i <= cap,
                slots@.len() == i,
            decreases cap - i,
        {
            slots.push(Event::Other { timing: 0, payload: 0 });
            i = i + 1;
        }
        let sink = EventBuffer { slots, filled: 0 };
        proof {
            assert(sink@ =~= Seq::<Event>::empty());
        }
        sink
    }

    /// How many events were pushed since the last clear.
    pub fn len(&self) -> (n: usize)
        requires
            self.wf(),
        ensures
            n == self@.len(),
    {
        self.filled
    }

    /// How many more events fit before the buffer is full.
    pub fn space_left(&self) -> (n: usize)
        requires
            self.wf(),
        ensures
            n == self.capacity() - self@.len(),
    {
        self.slots.len() - self.filled
    }

    /// Empties the buffer for a fresh cycle without touching its storage.
    pub fn clear(&mut self)
        requires
            old(self).wf(),
        ensures
            final(self).wf(),
            final(self)@ == Seq::<Event>::empty(),
            final(self).capacity() == old(self).capacity(),
    {
        self.filled = 0;
        proof {
            assert(self@ =~= Seq::<Event>::empty());
        }
    }

    /// The event at position `i`, in push order.
    pub fn get(&self, i: usize) -> (e: Event)
        requires
            self.wf(),
            i < self@.len(),
        ensures
            e == self@[i as int],
    {
        self.slots[i]
    }

    /// Appends one event by writing the next free slot; no allocation.
    pub fn push(&mut self, e: Event)
        requires
            old(self).wf(),
            old(self)@.len() < old(self).capacity(),
        ensures
            final(self).wf(),
            final(self).capacity() == old(self).capacity(),
            final(self)@ == old(self)@.push(e),
    {
        self.slots.set(self.filled, e);
        self.filled = self.filled + 1;
        proof {
            assert(self@ =~= old(self)@.push(e));
        }
    }
}

/// The per-cycle status the transform reports to its caller. The transform
/// performs no fallible operation, so the only status is a normal completion.
#[derive(Clone, Copy, Debug, PartialEq, Eq, Structural)]
pub enum CycleStatus {
    Normal,
}

/// Consumes one event and pushes its expansion: a note event becomes itself
/// and its two transposed siblings, in that order; any other event is
/// forwarded unchanged.
pub fn expand_event(e: &Event, sink: &mut EventBuffer)
    requires
        old(sink).wf(),
        old(sink)@.len() + 3 <= old(sink).capacity(),
    ensures
        final(sink).wf(),
        final(sink).capacity() == old(sink).capacity(),
        final(sink)@ == old(sink)@ + expand(*e),
{
    match e {
        Event::NoteBegin(d) => {
            sink.push(Event::NoteBegin(*d));
            sink.push(Event::NoteBegin(d.sibling(crate::event::MAJOR_THIRD)));
            sink.push(Event::NoteBegin(d.sibling(crate::event::PERFECT_FIFTH)));
        },
        Event::NoteEnd(d) => {
            sink.push(Event::NoteEnd(*d));
            sink.push(Event::NoteEnd(d.sibling(crate::event::MAJOR_THIRD)));
            sink.push(Event::NoteEnd(d.sibling(crate::event::PERFECT_FIFTH)));
        },
        Event::Other { .. } => {
            sink.push(*e);
        },
    }
    proof {
        assert(sink@ =~= old(sink)@ + expand(*e));
    }
}

/// One processing cycle: consumes the whole ordered input and appends each
/// event's expansion to the sink, in input order. What is appended is a
/// function of the cycle's input alone — the chorder keeps no state between
/// events or between cycles — and every push lands in pre-sized storage, so
/// the real-time path allocates nothing.
pub fn process_cycle(input: &Vec<Event>, sink: &mut EventBuffer) -> (status: CycleStatus)
    requires
        old(sink).wf(),
        old(sink)@.len() + 3 * input@.len() <= old(sink).capacity(),
    ensures
        final(sink).wf(),
        final(sink).capacity() == old(sink).capacity(),
        final(sink)@ == old(sink)@ + transform(input@),
        status == CycleStatus::Normal,
{
    let mut i: usize = 0;
    while i < input.len()
        invariant
            i <= input.len(),
            sink.wf(),
            sink.capacity() == old(sink).capacity(),
            old(sink)@.len() + 3 * input@.len() <= sink.capacity(),
            sink@ == old(sink)@ + transform(input@.take(i as int)),
        decreases input.len() - i,
    {
        proof {
            lemma_transform_len(input@.take(i as int));
        }
        expand_event(&input[i], sink);
        proof {
            assert(input@.take(i + 1) =~= input@.take(i as int) + seq![input@[i as int]]);
            lemma_transform_concat(input@.take(i as int), seq![input@[i as int]]);
            lemma_transform_singleton(input@[i as int]);
        }
        i = i + 1;
    }
    proof {
        assert(input@.take(input@.len() as int) =~= input@);
    }
    CycleStatus::Normal
}

} // verus!
