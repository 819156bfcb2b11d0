//! The linking machinery: poll outcomes, the lazy-sequence capability, the
//! element capabilities, and the synchronous and queued link adapters.

use vstd::prelude::*;

verus! {

/// The result of polling a lazy sequence once: an item, the permanent end of
/// the sequence, a suspension ("not ready, re-poll later"), or the opaque
/// upstream failure signal.
#[derive(Debug, PartialEq, Eq)]
pub enum PollOutcome<T> {
    Ready(T),
    Done,
    NotReady,
    Failed,
}

/// The result of polling a schedulable unit of work once: it ran to
/// completion, it must be re-polled later, or it observed the upstream
/// failure signal.
#[derive(Debug, PartialEq, Eq)]
pub enum TaskOutcome {
    Finished,
    NotReady,
    Failed,
}

/// A lazy sequence of items driven by a cooperative scheduler.
///
/// Each implementor carries a mathematical model: the sequence of items it
/// has yielded so far, how often it has suspended, whether it has signalled
/// `Done`, and whether it has raised the failure signal. `poll` may extend
/// the yielded sequence by at most one item per call; a suspension leaves
/// the items unchanged and is counted, so a caller's contract can
/// distinguish "the upstream suspended" from "the upstream was never
/// consulted".
pub trait Stream: Sized {
    type Item;

    /// The items this sequence has yielded so far, in order.
    spec fn emitted(&self) -> Seq<Self::Item>;

    /// How many polls of this sequence have suspended (`NotReady`) so far.
    spec fn suspensions(&self) -> nat;

    /// Whether this sequence has yielded its terminal `Done` signal.
    spec fn done(&self) -> bool;

    /// Whether this sequence has raised the failure signal.
    spec fn failed(&self) -> bool;

    /// Well-formedness: established at construction, preserved by polling.
    spec fn inv(&self) -> bool;

    fn poll(&mut self) -> (r: PollOutcome<Self::Item>)
        requires
            old(self).inv(),
            !old(self).done(),
            !old(self).failed(),
        ensures
            final(self).inv(),
            match r {
                PollOutcome::Ready(x) => {
                    &&& final(self).emitted() == old(self).emitted().push(x)
                    &&& final(self).suspensions() == old(self).suspensions()
                    &&& !final(self).done()
                    &&& !final(self).failed()
                },
                PollOutcome::Done => {
                    &&& final(self).emitted() == old(self).emitted()
                    &&& final(self).suspensions() == old(self).suspensions()
                    &&& final(self).done()
                    &&& !final(self).failed()
                },
                PollOutcome::NotReady => {
                    &&& final(self).emitted() == old(self).emitted()
                    &&& final(self).suspensions() == old(self).suspensions() + 1
                    &&& !final(self).done()
                    &&& !final(self).failed()
                },
                PollOutcome::Failed => {
                    &&& final(self).emitted() == old(self).emitted()
                    &&& final(self).suspensions() == old(self).suspensions()
                    &&& !final(self).done()
                    &&& final(self).failed()
                },
            },
    ;
}

/// A stateful one-packet-in/one-packet-out transform with no internal
/// suspension. Implementors describe, at the specification level, both the
/// output produced for a packet and the successor state.
pub trait Element: Sized {
    type Input;
    type Output;

    /// The element's state after processing one packet.
    spec fn next_state(&self, packet: Self::Input) -> Self;

    /// The output produced for one packet in the element's current state.
    spec fn output_of(&self, packet: Self::Input) -> Self::Output;

    fn process(&mut self, packet: Self::Input) -> (out: Self::Output)
        ensures
            *final(self) == old(self).next_state(packet),
            out == old(self).output_of(packet),
    ;
}

/// The outputs an element produces, in order, when fed `inputs` one at a
/// time starting from state `e`.
pub open spec fn element_outputs<E: Element>(e: E, inputs: Seq<E::Input>) -> Seq<E::Output>
    decreases inputs.len(),
{
    if inputs.len() == 0 {
        Seq::empty()
    } else {
        seq![e.output_of(inputs[0])] + element_outputs(e.next_state(inputs[0]), inputs.drop_first())
    }
}

/// The element state reached after feeding `inputs` one at a time starting
/// from state `e`.
pub open spec fn element_state_after<E: Element>(e: E, inputs: Seq<E::Input>) -> E
    decreases inputs.len(),
{
    if inputs.len() == 0 {
        e
    } else {
        element_state_after(e.next_state(inputs[0]), inputs.drop_first())
    }
}

/// Feeding one more input appends one more output and steps the state once.
pub proof fn lemma_element_outputs_push<E: Element>(e: E, inputs: Seq<E::Input>, x: E::Input)
    ensures
        element_outputs(e, inputs.push(x)) == element_outputs(e, inputs).push(
            element_state_after(e, inputs).output_of(x),
        ),
        element_state_after(e, inputs.push(x)) == element_state_after(e, inputs).next_state(x),
    decreases inputs.len(),
{
    if inputs.len() == 0 {
        reveal_with_fuel(element_outputs, 2);
        reveal_with_fuel(element_state_after, 2);
        assert(inputs.push(x)[0] == x);
        assert(inputs.push(x).drop_first() =~= Seq::<E::Input>::empty());
        assert(element_outputs(e, inputs.push(x)) =~= element_outputs(e, inputs).push(
            element_state_after(e, inputs).output_of(x),
        ));
    } else {
        assert(inputs.push(x)[0] == inputs[0]);
        assert(inputs.push(x).drop_first() =~= inputs.drop_first().push(x));
        lemma_element_outputs_push(e.next_state(inputs[0]), inputs.drop_first(), x);
        assert(element_outputs(e, inputs.push(x)) =~= element_outputs(e, inputs).push(
            element_state_after(e, inputs).output_of(x),
        ));
    }
}

/// An element always produces exactly one output per input.
pub proof fn lemma_element_outputs_len<E: Element>(e: E, inputs: Seq<E::Input>)
    ensures
        element_outputs(e, inputs).len() == inputs.len(),
    decreases inputs.len(),
{
    if inputs.len() > 0 {
        lemma_element_outputs_len(e.next_state(inputs[0]), inputs.drop_first());
    }
}

/// An element whose output depends on the packet alone produces exactly the
/// elementwise map of its inputs, in input order.
pub proof fn lemma_element_outputs_map<E: Element>(
    e: E,
    inputs: Seq<E::Input>,
    f: spec_fn(E::Input) -> E::Output,
)
    requires
        forall|s: E, x: E::Input| #[trigger] s.output_of(x) == f(x),
    ensures
        element_outputs(e, inputs) == inputs.map_values(f),
    decreases inputs.len(),
{
    if inputs.len() == 0 {
        assert(element_outputs(e, inputs) =~= inputs.map_values(f));
    } else {
        lemma_element_outputs_map(e.next_state(inputs[0]), inputs.drop_first(), f);
        assert(element_outputs(e, inputs) =~= inputs.map_values(f));
    }
}

/// The synchronous link: composes an upstream lazy sequence with an element,
/// yielding the element's outputs in upstream order, with zero buffering.
pub struct ElementLink<S, E> where S: Stream, E: Element<Input = S::Item> {
    pub input_stream: S,
    pub element: E,
    /// The element's state when the link was built.
    pub initial_element: Ghost<E>,
    /// What the upstream had already yielded when the link was built; the
    /// link only transforms items yielded after that point.
    pub base: Ghost<Seq<S::Item>>,
}

impl<S, E> ElementLink<S, E> where S: Stream, E: Element<Input = S::Item> {
    /// The upstream items this link has pulled and processed so far.
    pub open spec fn processed_inputs(&self) -> Seq<S::Item> {
        self.input_stream.emitted().skip(self.base@.len() as int)
    }

    pub fn new(input_stream: S, element: E) -> (link: Self)
        requires
            input_stream.inv(),
        ensures
            link.inv(),
            link.emitted() == Seq::<E::Output>::empty(),
            link.done() == input_stream.done(),
            link.failed() == input_stream.failed(),
            link.input_stream == input_stream,
            link.element == element,
            link.initial_element@ == element,
    {
        let ghost base = input_stream.emitted();
        let ghost initial_element = element;
        let link = ElementLink {
            input_stream,
            element,
            initial_element: Ghost(initial_element),
            base: Ghost(base),
        };
        proof {
            assert(link.processed_inputs() =~= Seq::<S::Item>::empty());
        }
        link
    }
}

impl<S, E> Stream for ElementLink<S, E> where S: Stream, E: Element<Input = S::Item> {
    type Item = E::Output;

    open spec fn emitted(&self) -> Seq<E::Output> {
        element_outputs(self.initial_element@, self.processed_inputs())
    }

    /// The link suspends exactly when its upstream does.
    open spec fn suspensions(&self) -> nat {
        self.input_stream.suspensions()
    }

    open spec fn done(&self) -> bool {
        self.input_stream.done()
    }

    open spec fn failed(&self) -> bool {
        self.input_stream.failed()
    }

    open spec fn inv(&self) -> bool {
        &&& self.input_stream.inv()
        &&& self.base@.is_prefix_of(self.input_stream.emitted())
        &&& self.element == element_state_after(self.initial_element@, self.processed_inputs())
    }

    /// Poll the upstream exactly once; propagate `Done`, `NotReady` and the
    /// failure signal unchanged, and transform an item synchronously on the
    /// same scheduling turn, with no buffering. The per-outcome clauses
    /// frame the upstream: an item means the upstream yielded exactly one
    /// new item and the result is the element's output for it; any other
    /// outcome leaves the upstream's items and the element state unchanged
    /// (suspension transparency), and a suspension was the upstream's own.
    fn poll(&mut self) -> (r: PollOutcome<E::Output>)
        ensures
            final(self).initial_element == old(self).initial_element,
            final(self).base == old(self).base,
            old(self).input_stream.emitted().is_prefix_of(final(self).input_stream.emitted()),
            match r {
                PollOutcome::Ready(y) => {
                    &&& final(self).input_stream.emitted() == old(self).input_stream.emitted().push(
                        final(self).input_stream.emitted().last(),
                    )
                    &&& y == old(self).element.output_of(final(self).input_stream.emitted().last())
                    &&& final(self).element == old(self).element.next_state(
                        final(self).input_stream.emitted().last(),
                    )
                    &&& final(self).input_stream.suspensions()
                        == old(self).input_stream.suspensions()
                },
                PollOutcome::Done => {
                    &&& final(self).input_stream.emitted() == old(self).input_stream.emitted()
                    &&& final(self).input_stream.suspensions()
                        == old(self).input_stream.suspensions()
                    &&& final(self).element == old(self).element
                },
                PollOutcome::NotReady => {
                    &&& final(self).input_stream.emitted() == old(self).input_stream.emitted()
                    &&& final(self).input_stream.suspensions()
                        == old(self).input_stream.suspensions() + 1
                    &&& final(self).element == old(self).element
                },
                PollOutcome::Failed => {
                    &&& final(self).input_stream.emitted() == old(self).input_stream.emitted()
                    &&& final(self).input_stream.suspensions()
                        == old(self).input_stream.suspensions()
                    &&& final(self).element == old(self).element
                },
            },
    {
        let ghost inputs0 = self.processed_inputs();
        match self.input_stream.poll() {
            PollOutcome::Ready(packet) => {
                proof {
                    assert(self.input_stream.emitted().skip(self.base@.len() as int) =~= inputs0.push(
                        packet,
                    ));
                    lemma_element_outputs_push(self.initial_element@, inputs0, packet);
                }
                let out = self.element.process(packet);
                PollOutcome::Ready(out)
            },
            PollOutcome::Done => PollOutcome::Done,
            PollOutcome::NotReady => PollOutcome::NotReady,
            PollOutcome::Failed => PollOutcome::Failed,
        }
    }
}

/// A stateful one-packet-in/one-packet-out transform intended to run
/// decoupled from its downstream consumer through a bounded queue. Same
/// per-packet contract as `Element`: no internal suspension.
pub trait AsyncElement: Sized {
    type Input;
    type Output;

    /// The element's state after processing one packet.
    spec fn next_state(&self, packet: Self::Input) -> Self;

    /// The output produced for one packet in the element's current state.
    spec fn output_of(&self, packet: Self::Input) -> Self::Output;

    fn process(&mut self, packet: Self::Input) -> (out: Self::Output)
        ensures
            *final(self) == old(self).next_state(packet),
            out == old(self).output_of(packet),
    ;
}

/// The outputs an async element produces, in order, when fed `inputs` one
/// at a time starting from state `e`.
pub open spec fn async_element_outputs<E: AsyncElement>(e: E, inputs: Seq<E::Input>) -> Seq<
    E::Output,
>
    decreases inputs.len(),
{
    if inputs.len() == 0 {
        Seq::empty()
    } else {
        seq![e.output_of(inputs[0])] + async_element_outputs(
            e.next_state(inputs[0]),
            inputs.drop_first(),
        )
    }
}

/// The async element state reached after feeding `inputs` one at a time
/// starting from state `e`.
pub open spec fn async_element_state_after<E: AsyncElement>(e: E, inputs: Seq<E::Input>) -> E
    decreases inputs.len(),
{
    if inputs.len() == 0 {
        e
    } else {
        async_element_state_after(e.next_state(inputs[0]), inputs.drop_first())
    }
}

/// Feeding one more input appends one more output and steps the state once.
pub proof fn lemma_async_element_outputs_push<E: AsyncElement>(
    e: E,
    inputs: Seq<E::Input>,
    x: E::Input,
)
    ensures
        async_element_outputs(e, inputs.push(x)) == async_element_outputs(e, inputs).push(
            async_element_state_after(e, inputs).output_of(x),
        ),
        async_element_state_after(e, inputs.push(x)) == async_element_state_after(
            e,
            inputs,
        ).next_state(x),
    decreases inputs.len(),
{
    if inputs.len() == 0 {
        reveal_with_fuel(async_element_outputs, 2);
        reveal_with_fuel(async_element_state_after, 2);
        assert(inputs.push(x)[0] == x);
        assert(inputs.push(x).drop_first() =~= Seq::<E::Input>::empty());
        assert(async_element_outputs(e, inputs.push(x)) =~= async_element_outputs(e, inputs).push(
            async_element_state_after(e, inputs).output_of(x),
        ));
    } else {
        assert(inputs.push(x)[0] == inputs[0]);
        assert(inputs.push(x).drop_first() =~= inputs.drop_first().push(x));
        lemma_async_element_outputs_push(e.next_state(inputs[0]), inputs.drop_first(), x);
        assert(async_element_outputs(e, inputs.push(x)) =~= async_element_outputs(e, inputs).push(
            async_element_state_after(e, inputs).output_of(x),
        ));
    }
}

/// An async element always produces exactly one output per input.
pub proof fn lemma_async_element_outputs_len<E: AsyncElement>(e: E, inputs: Seq<E::Input>)
    ensures
        async_element_outputs(e, inputs).len() == inputs.len(),
    decreases inputs.len(),
{
    if inputs.len() > 0 {
        lemma_async_element_outputs_len(e.next_state(inputs[0]), inputs.drop_first());
    }
}

/// The queued link: composes an upstream lazy sequence with an async element
/// through a FIFO queue of capacity `queue_capacity`, fixed at construction.
///
/// Two cooperating halves share the queue: the feeder (`poll_feeder`) drains
/// the upstream into the queue, suspending while the queue is full; the tap
/// (the `Stream` implementation) drains the queue for the next stage. The
/// tap never yields `Done` on its own: feeder completion must be observed
/// externally.
pub struct AsyncElementLink<S, E> where S: Stream, E: AsyncElement<Input = S::Item> {
    pub input_stream: S,
    /// Pending outputs, front first; never longer than `queue_capacity`.
    pub output_queue: Vec<E::Output>,
    pub queue_capacity: usize,
    pub element: E,
    /// The element's state when the link was built.
    pub initial_element: Ghost<E>,
    /// What the upstream had already yielded when the link was built.
    pub base: Ghost<Seq<S::Item>>,
    /// The items the tap has handed downstream so far.
    pub popped: Ghost<Seq<E::Output>>,
    /// How many tap polls have found the queue empty and suspended.
    pub tap_suspensions: Ghost<nat>,
}

impl<S, E> AsyncElementLink<S, E> where S: Stream, E: AsyncElement<Input = S::Item> {
    /// The upstream items the feeder has pulled and processed so far.
    pub open spec fn processed_inputs(&self) -> Seq<S::Item> {
        self.input_stream.emitted().skip(self.base@.len() as int)
    }

    /// The outputs the element has produced so far, in order.
    pub open spec fn processed_outputs(&self) -> Seq<E::Output> {
        async_element_outputs(self.initial_element@, self.processed_inputs())
    }

    /// The outputs currently buffered in the queue, front first.
    pub open spec fn queued(&self) -> Seq<E::Output> {
        self.output_queue@
    }

    /// Well-formedness: the queue respects its capacity bound, and what the
    /// tap has handed out followed by what is still queued is exactly what
    /// the element has produced — no loss, no duplication, no reordering.
    pub open spec fn wf(&self) -> bool {
        &&& self.input_stream.inv()
        &&& self.base@.is_prefix_of(self.input_stream.emitted())
        &&& self.element == async_element_state_after(self.initial_element@, self.processed_inputs())
        &&& self.popped@ + self.output_queue@ == self.processed_outputs()
        &&& self.output_queue@.len() <= self.queue_capacity
    }

    pub fn new(input_stream: S, element: E, queue_capacity: usize) -> (link: Self)
        requires
            input_stream.inv(),
        ensures
            link.wf(),
            link.emitted() == Seq::<E::Output>::empty(),
            link.queued() == Seq::<E::Output>::empty(),
            link.queue_capacity == queue_capacity,
            link.input_stream == input_stream,
            link.element == element,
            link.initial_element@ == element,
            link.tap_suspensions@ == 0,
    {
        let ghost base = input_stream.emitted();
        let ghost initial_element = element;
        let link = AsyncElementLink {
            input_stream,
            output_queue: Vec::new(),
            queue_capacity,
            element,
            initial_element: Ghost(initial_element),
            base: Ghost(base),
            popped: Ghost(Seq::empty()),
            tap_suspensions: Ghost(0),
        };
        proof {
            assert(link.processed_inputs() =~= Seq::<S::Item>::empty());
            assert(link.popped@ + link.output_queue@ =~= link.processed_outputs());
        }
        link
    }

    /// The number of outputs currently buffered in the queue.
    pub fn queue_len(&self) -> (n: usize)
        ensures
            n == self.queued().len(),
    {
        self.output_queue.len()
    }

    /// The feeder half: drain the upstream into the queue until the queue
    /// fills, the upstream suspends, the upstream ends, or the upstream
    /// fails. A full queue suspends the feeder at once, changing nothing
    /// (backpressure); upstream suspension and failure propagate unchanged.
    /// The feeder is obliged to make progress: it may suspend only with the
    /// queue full or after the upstream itself suspended on this very call.
    #[verifier::loop_isolation(false)]
    pub fn poll_feeder(&mut self) -> (r: TaskOutcome)
        requires
            old(self).wf(),
            !old(self).input_stream.done(),
            !old(self).input_stream.failed(),
        ensures
            final(self).wf(),
            final(self).popped == old(self).popped,
            final(self).tap_suspensions == old(self).tap_suspensions,
            final(self).queue_capacity == old(self).queue_capacity,
            final(self).initial_element == old(self).initial_element,
            final(self).base == old(self).base,
            old(self).input_stream.emitted().is_prefix_of(final(self).input_stream.emitted()),
            old(self).output_queue@.len() >= old(self).queue_capacity ==> r is NotReady
                && *final(self) == *old(self),
            r is NotReady ==> final(self).output_queue@.len() >= final(self).queue_capacity
                || final(self).input_stream.suspensions()
                    == old(self).input_stream.suspensions() + 1,
            !(r is NotReady) ==> final(self).input_stream.suspensions()
                == old(self).input_stream.suspensions(),
            match r {
                TaskOutcome::Finished => final(self).input_stream.done(),
                TaskOutcome::NotReady => !final(self).input_stream.done()
                    && !final(self).input_stream.failed(),
                TaskOutcome::Failed => final(self).input_stream.failed(),
            },
    {
        let ghost start = *old(self);
        loop
            invariant
                self.wf(),
                !self.input_stream.done(),
                !self.input_stream.failed(),
                self.popped == start.popped,
                self.tap_suspensions == start.tap_suspensions,
                self.queue_capacity == start.queue_capacity,
                self.initial_element == start.initial_element,
                self.base == start.base,
                start.input_stream.emitted().is_prefix_of(self.input_stream.emitted()),
                self.input_stream.suspensions() == start.input_stream.suspensions(),
                start.output_queue@.len() >= start.queue_capacity ==> *self == start,
            decreases self.queue_capacity - self.output_queue@.len(),
        {
            if self.output_queue.len() >= self.queue_capacity {
                return TaskOutcome::NotReady;
            }
            let ghost inputs0 = self.processed_inputs();
            match self.input_stream.poll() {
                PollOutcome::Ready(packet) => {
                    proof {
                        assert(self.input_stream.emitted().skip(self.base@.len() as int)
                            =~= inputs0.push(packet));
                        lemma_async_element_outputs_push(self.initial_element@, inputs0, packet);
                    }
                    let out = self.element.process(packet);
                    self.output_queue.push(out);
                    proof {
                        assert(self.popped@ + self.output_queue@ =~= self.processed_outputs());
                        assert(start.input_stream.emitted().is_prefix_of(
                            self.input_stream.emitted(),
                        ));
                    }
                },
                PollOutcome::Done => {
                    return TaskOutcome::Finished;
                },
                PollOutcome::NotReady => {
                    return TaskOutcome::NotReady;
                },
                PollOutcome::Failed => {
                    return TaskOutcome::Failed;
                },
            }
        }
    }
}

impl<S, E> Stream for AsyncElementLink<S, E> where S: Stream, E: AsyncElement<Input = S::Item> {
    type Item = E::Output;

    /// The tap's view: the items it has handed downstream so far.
    open spec fn emitted(&self) -> Seq<E::Output> {
        self.popped@
    }

    /// The tap suspends exactly when it finds the queue empty.
    open spec fn suspensions(&self) -> nat {
        self.tap_suspensions@
    }

    /// The tap never signals `Done` on its own: an empty queue and a
    /// finished upstream are indistinguishable from the tap's side, so
    /// pipeline completion must be observed externally.
    open spec fn done(&self) -> bool {
        false
    }

    open spec fn failed(&self) -> bool {
        false
    }

    open spec fn inv(&self) -> bool {
        self.wf()
    }

    /// The tap half: a nonempty queue must be popped at its front on the
    /// same turn; an empty queue only suspends, leaving everything but the
    /// suspension count unchanged, so re-polling an unchanged link suspends
    /// again.
    fn poll(&mut self) -> (r: PollOutcome<E::Output>)
        ensures
            final(self).input_stream == old(self).input_stream,
            final(self).element == old(self).element,
            final(self).queue_capacity == old(self).queue_capacity,
            final(self).initial_element == old(self).initial_element,
            final(self).base == old(self).base,
            old(self).output_queue@.len() > 0 ==> r is Ready,
            match r {
                PollOutcome::Ready(x) => {
                    &&& old(self).output_queue@.len() > 0
                    &&& x == old(self).output_queue@[0]
                    &&& final(self).output_queue@ == old(self).output_queue@.drop_first()
                    &&& final(self).tap_suspensions == old(self).tap_suspensions
                },
                PollOutcome::NotReady => {
                    &&& old(self).output_queue@.len() == 0
                    &&& final(self).output_queue@ == old(self).output_queue@
                    &&& final(self).popped == old(self).popped
                    &&& final(self).tap_suspensions@ == old(self).tap_suspensions@ + 1
                },
                PollOutcome::Done => false,
                PollOutcome::Failed => false,
            },
    {
        if self.output_queue.len() == 0 {
            proof {
                self.tap_suspensions = Ghost(self.tap_suspensions@ + 1);
            }
            return PollOutcome::NotReady;
        }
        let x = self.output_queue.remove(0);
        proof {
            assert(old(self).output_queue@.remove(0) =~= old(self).output_queue@.drop_first());
            self.popped = Ghost(self.popped@.push(x));
            assert(self.popped@ + self.output_queue@ =~= old(self).popped@
                + old(self).output_queue@);
        }
        PollOutcome::Ready(x)
    }
}

/// Order preservation at a single synchronous link: what the link has
/// yielded is exactly the elementwise transformation, in order, of the items
/// its upstream has yielded since the link was built.
pub proof fn lemma_sync_link_order<S, E>(link: &ElementLink<S, E>) where
    S: Stream,
    E: Element<Input = S::Item>,

    requires
        link.inv(),
    ensures
        link.emitted() == element_outputs(link.initial_element@, link.processed_inputs()),
        link.emitted().len() == link.processed_inputs().len(),
{
    lemma_element_outputs_len(link.initial_element@, link.processed_inputs());
}

/// Order preservation through a chain of two synchronous links, at any
/// point of its life: the outer link has yielded exactly the
/// twice-transformed sequence of the source items it has pulled, in source
/// order. The `skip` discounts what the inner link had already yielded when
/// the outer was built; for a chain built on fresh upstreams both that skip
/// and the inner `processed_inputs` offset vanish.
pub proof fn lemma_sync_chain_order<S, E1, E2>(link: &ElementLink<ElementLink<S, E1>, E2>) where
    S: Stream,
    E1: Element<Input = S::Item>,
    E2: Element<Input = E1::Output>,

    requires
        link.inv(),
    ensures
        link.emitted() == element_outputs(
            link.initial_element@,
            element_outputs(
                link.input_stream.initial_element@,
                link.input_stream.processed_inputs(),
            ).skip(link.base@.len() as int),
        ),
{
}

/// Order preservation in elementwise form: when both elements' outputs
/// depend on the packet alone, a chain of two synchronous links yields
/// exactly the composed transform of each source item it has pulled, in
/// source order.
pub proof fn lemma_sync_chain_map<S, E1, E2>(
    link: &ElementLink<ElementLink<S, E1>, E2>,
    f1: spec_fn(S::Item) -> E1::Output,
    f2: spec_fn(E1::Output) -> E2::Output,
) where
    S: Stream,
    E1: Element<Input = S::Item>,
    E2: Element<Input = E1::Output>,

    requires
        link.inv(),
        forall|s: E1, x: S::Item| #[trigger] s.output_of(x) == f1(x),
        forall|s: E2, x: E1::Output| #[trigger] s.output_of(x) == f2(x),
    ensures
        link.emitted() == link.input_stream.processed_inputs().skip(
            link.base@.len() as int,
        ).map_values((|x: S::Item| f2(f1(x)))),
{
    let src = link.input_stream.processed_inputs();
    let b = link.base@.len() as int;
    lemma_sync_chain_order(link);
    lemma_element_outputs_map(link.input_stream.initial_element@, src, f1);
    lemma_element_outputs_len(link.input_stream.initial_element@, src);
    lemma_element_outputs_map(link.initial_element@, src.map_values(f1).skip(b), f2);
    assert(src.map_values(f1).skip(b).map_values(f2) =~= src.skip(b).map_values(
        (|x: S::Item| f2(f1(x))),
    ));
}

/// Bounded buffering: a well-formed queued link never holds more than its
/// capacity; the feeder's contract adds that a full queue suspends it at
/// once, changing nothing.
pub proof fn lemma_async_link_bounded<S, E>(link: &AsyncElementLink<S, E>) where
    S: Stream,
    E: AsyncElement<Input = S::Item>,

    requires
        link.wf(),
    ensures
        0 <= link.queued().len() <= link.queue_capacity,
{
}

/// No loss, no duplication: what the tap has handed downstream, followed by
/// what still sits in the queue, is exactly the sequence of outputs the
/// element produced from the upstream items the feeder pulled — one output
/// per pulled item, in order.
pub proof fn lemma_async_link_no_loss<S, E>(link: &AsyncElementLink<S, E>) where
    S: Stream,
    E: AsyncElement<Input = S::Item>,

    requires
        link.wf(),
    ensures
        link.emitted() + link.queued() == async_element_outputs(
            link.initial_element@,
            link.processed_inputs(),
        ),
        link.emitted().len() + link.queued().len() == link.processed_inputs().len(),
{
    lemma_async_element_outputs_len(link.initial_element@, link.processed_inputs());
}

} // verus!
