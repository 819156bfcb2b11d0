//! Concrete sources, elements and consumers for exercising pipelines.

use vstd::prelude::*;

verus! {

use crate::api::element_outputs;
use crate::api::lemma_element_outputs_len;
use crate::api::AsyncElement;
use crate::api::Element;
use crate::api::ElementLink;
use crate::api::PollOutcome;
use crate::api::Stream;
use crate::api::TaskOutcome;

/// A counter source paced by a scheduling tick: each item is preceded by one
/// `NotReady` turn, and after `iterations` items the sequence ends.
pub struct LinearIntervalGenerator {
    pub iterations: usize,
    pub seq_num: i32,
    pub tick_pending: bool,
    pub finished: bool,
}

impl LinearIntervalGenerator {
    pub fn new(iterations: usize) -> (g: Self)
        requires
            iterations <= i32::MAX as usize,
        ensures
            g.inv(),
            g.emitted() == Seq::<i32>::empty(),
            g.suspensions() == 0,
            !g.tick_pending,
            !g.done(),
            !g.failed(),
            g.iterations == iterations,
    {
        let g = LinearIntervalGenerator { iterations, seq_num: 0, tick_pending: false, finished: false };
        proof {
            assert(g.emitted() =~= Seq::<i32>::empty());
        }
        g
    }
}

impl Stream for LinearIntervalGenerator {
    type Item = i32;

    /// The counter has yielded `1, 2, ..., seq_num` so far.
    open spec fn emitted(&self) -> Seq<i32> {
        Seq::new(self.seq_num as nat, |i: int| (i + 1) as i32)
    }

    /// Every yielded item was preceded by exactly one suspension turn, and
    /// the turn that arms the tick (or armed it before `Done`) adds one.
    open spec fn suspensions(&self) -> nat {
        self.seq_num as nat + (if self.finished {
            1nat
        } else {
            0nat
        }) + (if self.tick_pending {
            1nat
        } else {
            0nat
        })
    }

    open spec fn done(&self) -> bool {
        self.finished
    }

    open spec fn failed(&self) -> bool {
        false
    }

    open spec fn inv(&self) -> bool {
        &&& 0 <= self.seq_num
        &&& self.seq_num as int <= self.iterations as int
        &&& self.iterations <= i32::MAX as usize
        &&& (self.finished ==> self.seq_num as int == self.iterations as int)
    }

    /// One poll per scheduling turn: a turn with no tick pending suspends
    /// and arms the tick; a turn with the tick armed yields the next
    /// counter value, or `Done` once `iterations` items are out.
    fn poll(&mut self) -> (r: PollOutcome<i32>)
        ensures
            final(self).iterations == old(self).iterations,
            match r {
                PollOutcome::Ready(x) => {
                    &&& old(self).tick_pending
                    &&& (old(self).seq_num as int) < old(self).iterations as int
                    &&& x == old(self).seq_num + 1
                    &&& final(self).seq_num == old(self).seq_num + 1
                    &&& !final(self).tick_pending
                },
                PollOutcome::Done => {
                    &&& old(self).tick_pending
                    &&& old(self).seq_num as int >= old(self).iterations as int
                    &&& final(self).seq_num == old(self).seq_num
                },
                PollOutcome::NotReady => {
                    &&& !old(self).tick_pending
                    &&& final(self).seq_num == old(self).seq_num
                    &&& final(self).tick_pending
                },
                PollOutcome::Failed => false,
            },
    {
        if !self.tick_pending {
            self.tick_pending = true;
            return PollOutcome::NotReady;
        }
        self.tick_pending = false;
        if self.seq_num as usize >= self.iterations {
            self.finished = true;
            return PollOutcome::Done;
        }
        self.seq_num = self.seq_num + 1;
        proof {
            assert(self.emitted() =~= old(self).emitted().push(self.seq_num));
        }
        PollOutcome::Ready(self.seq_num)
    }
}

/// Termination implies completion: a synchronous link built over a fresh
/// interval counter that has signalled `Done` has pulled every counter
/// value `1..=iterations` and yielded the element's output for each, in
/// order — `Done` can never come early.
pub proof fn lemma_sync_link_interval_complete<E: Element<Input = i32>>(
    link: &ElementLink<LinearIntervalGenerator, E>,
)
    requires
        link.inv(),
        link.done(),
        link.base@ == Seq::<i32>::empty(),
    ensures
        link.processed_inputs() == Seq::new(
            link.input_stream.iterations as nat,
            |i: int| (i + 1) as i32,
        ),
        link.emitted() == element_outputs(link.initial_element@, link.processed_inputs()),
        link.emitted().len() == link.input_stream.iterations,
{
    assert(link.processed_inputs() =~= link.input_stream.emitted());
    lemma_element_outputs_len::<E>(link.initial_element@, link.processed_inputs());
}

/// A source whose items are all available at once: each poll yields the next
/// item immediately, and one poll past the last item yields `Done`.
pub struct ImmediateStream<T> {
    /// The items not yet yielded, in order.
    pub items: Vec<T>,
    pub finished: bool,
    /// All items the source was built with.
    pub full: Ghost<Seq<T>>,
}

impl<T> ImmediateStream<T> {
    pub fn new(items: Vec<T>) -> (s: Self)
        ensures
            s.inv(),
            s.emitted() == Seq::<T>::empty(),
            !s.done(),
            !s.failed(),
            s.full@ == items@,
    {
        let ghost full = items@;
        let s = ImmediateStream { items, finished: false, full: Ghost(full) };
        proof {
            assert(s.items@ =~= s.full@.skip(s.full@.len() - s.items@.len()));
            assert(s.emitted() =~= Seq::<T>::empty());
        }
        s
    }
}

impl<T> Stream for ImmediateStream<T> {
    type Item = T;

    open spec fn emitted(&self) -> Seq<T> {
        self.full@.take(self.full@.len() - self.items@.len())
    }

    /// This source never suspends.
    open spec fn suspensions(&self) -> nat {
        0
    }

    open spec fn done(&self) -> bool {
        self.finished
    }

    open spec fn failed(&self) -> bool {
        false
    }

    open spec fn inv(&self) -> bool {
        &&& self.items@.len() <= self.full@.len()
        &&& self.items@ == self.full@.skip(self.full@.len() - self.items@.len())
        &&& (self.finished ==> self.items@.len() == 0)
    }

    /// Every poll makes progress: the next item comes out at once, and only
    /// an exhausted source yields `Done`. This source never suspends.
    fn poll(&mut self) -> (r: PollOutcome<T>)
        ensures
            final(self).full == old(self).full,
            match r {
                PollOutcome::Ready(x) => {
                    &&& old(self).items@.len() > 0
                    &&& x == old(self).items@[0]
                    &&& final(self).items@ == old(self).items@.drop_first()
                },
                PollOutcome::Done => old(self).items@.len() == 0,
                PollOutcome::NotReady => false,
                PollOutcome::Failed => false,
            },
    {
        if self.items.len() == 0 {
            self.finished = true;
            return PollOutcome::Done;
        }
        let x = self.items.remove(0);
        proof {
            assert(self.items@ =~= self.full@.skip(self.full@.len() - self.items@.len()));
            assert(self.emitted() =~= old(self).emitted().push(x));
        }
        PollOutcome::Ready(x)
    }
}

/// A source standing in for a malfunctioning collaborator: polling it
/// raises the opaque upstream failure signal.
pub struct FailingStream {
    pub tripped: bool,
}

impl FailingStream {
    pub fn new() -> (s: Self)
        ensures
            s.inv(),
            !s.done(),
            !s.failed(),
            s.emitted() == Seq::<i32>::empty(),
    {
        FailingStream { tripped: false }
    }
}

impl Stream for FailingStream {
    type Item = i32;

    open spec fn emitted(&self) -> Seq<i32> {
        Seq::empty()
    }

    /// This source never suspends: it fails at once.
    open spec fn suspensions(&self) -> nat {
        0
    }

    open spec fn done(&self) -> bool {
        false
    }

    open spec fn failed(&self) -> bool {
        self.tripped
    }

    open spec fn inv(&self) -> bool {
        true
    }

    fn poll(&mut self) -> (r: PollOutcome<i32>)
        ensures
            r is Failed,
    {
        self.tripped = true;
        PollOutcome::Failed
    }
}

/// A consumer that discards the items of a sequence: each poll pulls one
/// item, reports `NotReady` while the sequence keeps producing or suspends,
/// and finishes when the sequence ends.
pub struct ExhaustiveConsumer<S: Stream> {
    pub stream: S,
}

impl<S: Stream> ExhaustiveConsumer<S> {
    pub fn new(stream: S) -> (c: Self)
        requires
            stream.inv(),
        ensures
            c.stream == stream,
    {
        ExhaustiveConsumer { stream }
    }

    /// Pull exactly one item from the sequence and discard it. `Finished`
    /// exactly when the sequence ended; `NotReady` means progress was made
    /// (one item consumed) or the sequence itself suspended, and the
    /// scheduler's re-poll supplies the repetition. Draining one item per
    /// turn, rather than looping within the call, is deliberate: a single
    /// call then provably returns, where an in-call drain could spin
    /// forever on an unending sequence; under a re-polling scheduler the
    /// two behave alike.
    pub fn poll(&mut self) -> (r: TaskOutcome)
        requires
            old(self).stream.inv(),
            !old(self).stream.done(),
            !old(self).stream.failed(),
        ensures
            final(self).stream.inv(),
            old(self).stream.emitted().is_prefix_of(final(self).stream.emitted()),
            match r {
                TaskOutcome::Finished => {
                    &&& final(self).stream.done()
                    &&& final(self).stream.emitted() == old(self).stream.emitted()
                    &&& final(self).stream.suspensions() == old(self).stream.suspensions()
                },
                TaskOutcome::NotReady => {
                    &&& !final(self).stream.done()
                    &&& !final(self).stream.failed()
                    &&& (final(self).stream.emitted().len() == old(self).stream.emitted().len() + 1
                        && final(self).stream.suspensions() == old(self).stream.suspensions())
                        || (final(self).stream.emitted() == old(self).stream.emitted()
                            && final(self).stream.suspensions()
                                == old(self).stream.suspensions() + 1)
                },
                TaskOutcome::Failed => {
                    &&& final(self).stream.failed()
                    &&& final(self).stream.emitted() == old(self).stream.emitted()
                    &&& final(self).stream.suspensions() == old(self).stream.suspensions()
                },
            },
    {
        proof {
            assert(old(self).stream.emitted().is_prefix_of(old(self).stream.emitted()));
        }
        match self.stream.poll() {
            PollOutcome::Ready(_packet) => TaskOutcome::NotReady,
            PollOutcome::Done => TaskOutcome::Finished,
            PollOutcome::NotReady => TaskOutcome::NotReady,
            PollOutcome::Failed => TaskOutcome::Failed,
        }
    }
}

/// An element that passes every packet through unchanged.
pub struct IdentityElement {
    pub id: i32,
}

impl Element for IdentityElement {
    type Input = i32;

    type Output = i32;

    open spec fn next_state(&self, packet: i32) -> Self {
        *self
    }

    open spec fn output_of(&self, packet: i32) -> i32 {
        packet
    }

    fn process(&mut self, packet: i32) -> (out: i32) {
        packet
    }
}

/// An async element that passes every packet through unchanged.
pub struct AsyncIdentityElement {
    pub id: i32,
}

impl AsyncElement for AsyncIdentityElement {
    type Input = i32;

    type Output = i32;

    open spec fn next_state(&self, packet: i32) -> Self {
        *self
    }

    open spec fn output_of(&self, packet: i32) -> i32 {
        packet
    }

    fn process(&mut self, packet: i32) -> (out: i32) {
        packet
    }
}

} // verus!
