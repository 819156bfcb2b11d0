use packet_pipeline::api::AsyncElementLink;
use packet_pipeline::api::ElementLink;
use packet_pipeline::api::PollOutcome;
use packet_pipeline::api::Stream;
use packet_pipeline::api::TaskOutcome;
use packet_pipeline::utils::AsyncIdentityElement;
use packet_pipeline::utils::ExhaustiveConsumer;
use packet_pipeline::utils::FailingStream;
use packet_pipeline::utils::IdentityElement;
use packet_pipeline::utils::ImmediateStream;
use packet_pipeline::utils::LinearIntervalGenerator;

const MAX_TURNS: usize = 100_000;

/// Drive a consumer until it reports `Finished`, panicking if it suspends
/// for longer than any of these pipelines can need.
fn run_consumer<S: Stream>(consumer: &mut ExhaustiveConsumer<S>) {
    for _ in 0..MAX_TURNS {
        match consumer.poll() {
            TaskOutcome::Finished => return,
            TaskOutcome::NotReady => {}
            TaskOutcome::Failed => panic!("pipeline reported failure"),
        }
    }
    panic!("consumer did not finish");
}

/// Drain a sequence into a vector until it yields `Done`.
fn collect_stream<S: Stream<Item = i32>>(stream: &mut S) -> Vec<i32> {
    let mut got: Vec<i32> = Vec::new();
    for _ in 0..MAX_TURNS {
        match stream.poll() {
            PollOutcome::Ready(x) => got.push(x),
            PollOutcome::Done => return got,
            PollOutcome::NotReady => {}
            PollOutcome::Failed => panic!("stream reported failure"),
        }
    }
    panic!("stream did not end");
}

#[test]
fn one_sync_element_interval_yield() {
    let packet_generator = LinearIntervalGenerator::new(10);

    let elem1 = IdentityElement { id: 0 };
    let elem2 = IdentityElement { id: 1 };

    let elem1_link = ElementLink::new(packet_generator, elem1);
    let elem2_link = ElementLink::new(elem1_link, elem2);

    let mut consumer = ExhaustiveConsumer::new(elem2_link);
    run_consumer(&mut consumer);
}

/// Single synchronous link over the interval-paced counter: downstream
/// observes exactly `1..=10` in order, then `Done`, and items only arrive
/// interleaved with `NotReady` turns.
#[test]
fn sync_link_interval_order() {
    let packet_generator = LinearIntervalGenerator::new(10);
    let elem = IdentityElement { id: 0 };
    let mut link = ElementLink::new(packet_generator, elem);

    let got = collect_stream(&mut link);
    let want: Vec<i32> = (1..=10).collect();
    assert_eq!(got, want);
}

/// A suspended upstream leaves a synchronous link suspended: the first turn
/// of the interval counter is always a `NotReady` turn, and re-polling is
/// what makes the item come out.
#[test]
fn sync_link_suspension_transparency() {
    let packet_generator = LinearIntervalGenerator::new(3);
    let elem = IdentityElement { id: 0 };
    let mut link = ElementLink::new(packet_generator, elem);

    assert_eq!(link.poll(), PollOutcome::NotReady);
    assert_eq!(link.poll(), PollOutcome::Ready(1));
    assert_eq!(link.poll(), PollOutcome::NotReady);
    assert_eq!(link.poll(), PollOutcome::Ready(2));
}

#[test]
fn one_async_element_immediate_yield() {
    let items: Vec<i32> = (0..=20).collect();
    let packet_generator = ImmediateStream::new(items);

    let elem0 = AsyncIdentityElement { id: 0 };

    let mut elem0_link = AsyncElementLink::new(packet_generator, elem0, 10);

    let mut got: Vec<i32> = Vec::new();
    let mut feeder_finished = false;
    for _ in 0..MAX_TURNS {
        if !feeder_finished {
            match elem0_link.poll_feeder() {
                TaskOutcome::Finished => feeder_finished = true,
                TaskOutcome::NotReady => {}
                TaskOutcome::Failed => panic!("feeder reported failure"),
            }
        }
        assert!(elem0_link.queue_len() <= 10);
        match elem0_link.poll() {
            PollOutcome::Ready(x) => got.push(x),
            PollOutcome::NotReady => {}
            PollOutcome::Done | PollOutcome::Failed => panic!("tap never ends or fails"),
        }
        if feeder_finished && elem0_link.queue_len() == 0 {
            break;
        }
    }

    let want: Vec<i32> = (0..=20).collect();
    assert_eq!(got, want);
}

#[test]
fn two_async_elements_immediate_yield() {
    let items: Vec<i32> = (0..=20).collect();
    let packet_generator = ImmediateStream::new(items);

    let elem0 = AsyncIdentityElement { id: 0 };
    let elem1 = AsyncIdentityElement { id: 1 };

    let elem0_link = AsyncElementLink::new(packet_generator, elem0, 10);
    let mut elem1_link = AsyncElementLink::new(elem0_link, elem1, 10);

    let mut got: Vec<i32> = Vec::new();
    for _ in 0..MAX_TURNS {
        let inner_done = matches!(elem1_link.input_stream.poll_feeder(), TaskOutcome::Finished);
        elem1_link.poll_feeder();
        assert!(elem1_link.input_stream.queue_len() <= 10);
        assert!(elem1_link.queue_len() <= 10);
        match elem1_link.poll() {
            PollOutcome::Ready(x) => got.push(x),
            PollOutcome::NotReady => {}
            PollOutcome::Done | PollOutcome::Failed => panic!("tap never ends or fails"),
        }
        if inner_done && elem1_link.input_stream.queue_len() == 0 && elem1_link.queue_len() == 0 {
            break;
        }
    }

    let want: Vec<i32> = (0..=20).collect();
    assert_eq!(got, want);
}

#[test]
fn series_sync_and_async_immediate_yield() {
    let items: Vec<i32> = (0..=20).collect();
    let packet_generator = ImmediateStream::new(items);

    let elem0 = IdentityElement { id: 0 };
    let elem1 = AsyncIdentityElement { id: 1 };
    let elem2 = IdentityElement { id: 2 };
    let elem3 = AsyncIdentityElement { id: 3 };

    let elem0_link = ElementLink::new(packet_generator, elem0);
    let elem1_link = AsyncElementLink::new(elem0_link, elem1, 10);
    let elem2_link = ElementLink::new(elem1_link, elem2);
    let mut elem3_link = AsyncElementLink::new(elem2_link, elem3, 10);

    let mut got: Vec<i32> = Vec::new();
    for _ in 0..MAX_TURNS {
        let inner_done = matches!(
            elem3_link.input_stream.input_stream.poll_feeder(),
            TaskOutcome::Finished
        );
        elem3_link.poll_feeder();
        assert!(elem3_link.input_stream.input_stream.queue_len() <= 10);
        assert!(elem3_link.queue_len() <= 10);
        match elem3_link.poll() {
            PollOutcome::Ready(x) => got.push(x),
            PollOutcome::NotReady => {}
            PollOutcome::Done | PollOutcome::Failed => panic!("tap never ends or fails"),
        }
        if inner_done
            && elem3_link.input_stream.input_stream.queue_len() == 0
            && elem3_link.queue_len() == 0
        {
            break;
        }
    }

    let want: Vec<i32> = (0..=20).collect();
    assert_eq!(got, want);
}

#[test]
fn one_async_element_interval_yield() {
    let packet_generator = LinearIntervalGenerator::new(20);

    let elem0 = AsyncIdentityElement { id: 0 };

    let mut elem0_link = AsyncElementLink::new(packet_generator, elem0, 10);

    let mut got: Vec<i32> = Vec::new();
    let mut feeder_finished = false;
    for _ in 0..MAX_TURNS {
        if !feeder_finished {
            match elem0_link.poll_feeder() {
                TaskOutcome::Finished => feeder_finished = true,
                TaskOutcome::NotReady => {}
                TaskOutcome::Failed => panic!("feeder reported failure"),
            }
        }
        assert!(elem0_link.queue_len() <= 10);
        match elem0_link.poll() {
            PollOutcome::Ready(x) => got.push(x),
            PollOutcome::NotReady => {}
            PollOutcome::Done | PollOutcome::Failed => panic!("tap never ends or fails"),
        }
        if feeder_finished && elem0_link.queue_len() == 0 {
            break;
        }
    }

    let want: Vec<i32> = (1..=20).collect();
    assert_eq!(got, want);
}

#[test]
fn two_async_elements_interval_yield() {
    let packet_generator = LinearIntervalGenerator::new(20);

    let elem0 = AsyncIdentityElement { id: 0 };
    let elem1 = AsyncIdentityElement { id: 1 };

    let elem0_link = AsyncElementLink::new(packet_generator, elem0, 10);
    let mut elem1_link = AsyncElementLink::new(elem0_link, elem1, 10);

    let mut got: Vec<i32> = Vec::new();
    for _ in 0..MAX_TURNS {
        let inner_done = matches!(elem1_link.input_stream.poll_feeder(), TaskOutcome::Finished);
        elem1_link.poll_feeder();
        match elem1_link.poll() {
            PollOutcome::Ready(x) => got.push(x),
            PollOutcome::NotReady => {}
            PollOutcome::Done | PollOutcome::Failed => panic!("tap never ends or fails"),
        }
        if inner_done && elem1_link.input_stream.queue_len() == 0 && elem1_link.queue_len() == 0 {
            break;
        }
    }

    let want: Vec<i32> = (1..=20).collect();
    assert_eq!(got, want);
}

#[test]
fn series_sync_and_async_interval_yield() {
    let packet_generator = LinearIntervalGenerator::new(20);

    let elem0 = IdentityElement { id: 0 };
    let elem1 = AsyncIdentityElement { id: 1 };
    let elem2 = IdentityElement { id: 2 };
    let elem3 = AsyncIdentityElement { id: 3 };

    let elem0_link = ElementLink::new(packet_generator, elem0);
    let elem1_link = AsyncElementLink::new(elem0_link, elem1, 10);
    let elem2_link = ElementLink::new(elem1_link, elem2);
    let mut elem3_link = AsyncElementLink::new(elem2_link, elem3, 10);

    let mut got: Vec<i32> = Vec::new();
    for _ in 0..MAX_TURNS {
        let inner_done = matches!(
            elem3_link.input_stream.input_stream.poll_feeder(),
            TaskOutcome::Finished
        );
        elem3_link.poll_feeder();
        match elem3_link.poll() {
            PollOutcome::Ready(x) => got.push(x),
            PollOutcome::NotReady => {}
            PollOutcome::Done | PollOutcome::Failed => panic!("tap never ends or fails"),
        }
        if inner_done
            && elem3_link.input_stream.input_stream.queue_len() == 0
            && elem3_link.queue_len() == 0
        {
            break;
        }
    }

    let want: Vec<i32> = (1..=20).collect();
    assert_eq!(got, want);
}

/// Backpressure: with capacity 2 and five immediately available items, one
/// feeder turn pushes exactly 2 items and then suspends; a further feeder
/// turn makes no progress until the tap pops.
#[test]
fn backpressure_bounded_queue() {
    let items: Vec<i32> = (0..5).collect();
    let packet_generator = ImmediateStream::new(items);
    let elem = AsyncIdentityElement { id: 0 };
    let mut link = AsyncElementLink::new(packet_generator, elem, 2);

    assert_eq!(link.poll_feeder(), TaskOutcome::NotReady);
    assert_eq!(link.queue_len(), 2);

    // the queue is still full: another feeder turn changes nothing
    assert_eq!(link.poll_feeder(), TaskOutcome::NotReady);
    assert_eq!(link.queue_len(), 2);

    // only a tap pop frees space for the feeder to make progress
    assert_eq!(link.poll(), PollOutcome::Ready(0));
    assert_eq!(link.queue_len(), 1);
    assert_eq!(link.poll_feeder(), TaskOutcome::NotReady);
    assert_eq!(link.queue_len(), 2);

    assert_eq!(link.poll(), PollOutcome::Ready(1));
    assert_eq!(link.poll(), PollOutcome::Ready(2));
    assert_eq!(link.queue_len(), 0);

    // the last two items fill the queue again before the feeder can see the
    // end of its upstream; it finishes once the queue has room for the poll
    // that observes `Done`
    assert_eq!(link.poll_feeder(), TaskOutcome::NotReady);
    assert_eq!(link.queue_len(), 2);
    assert_eq!(link.poll(), PollOutcome::Ready(3));
    assert_eq!(link.poll(), PollOutcome::Ready(4));
    assert_eq!(link.queue_len(), 0);
    assert_eq!(link.poll_feeder(), TaskOutcome::Finished);

    // drained and finished: the tap only suspends from here on
    assert_eq!(link.poll(), PollOutcome::NotReady);
    assert_eq!(link.poll(), PollOutcome::NotReady);
}

/// A queue of capacity zero gives the feeder no room at all: it suspends at
/// once on every turn and nothing ever reaches the tap.
#[test]
fn zero_capacity_queue_suspends_feeder() {
    let items: Vec<i32> = (0..3).collect();
    let packet_generator = ImmediateStream::new(items);
    let elem = AsyncIdentityElement { id: 0 };
    let mut link = AsyncElementLink::new(packet_generator, elem, 0);

    assert_eq!(link.poll_feeder(), TaskOutcome::NotReady);
    assert_eq!(link.queue_len(), 0);
    assert_eq!(link.poll_feeder(), TaskOutcome::NotReady);
    assert_eq!(link.queue_len(), 0);
    assert_eq!(link.poll(), PollOutcome::NotReady);
}

/// An interval counter asked for zero items spends one suspension turn and
/// then ends.
#[test]
fn interval_generator_empty() {
    let mut generator = LinearIntervalGenerator::new(0);

    assert_eq!(generator.poll(), PollOutcome::NotReady);
    assert_eq!(generator.poll(), PollOutcome::Done);
}

/// An empty tap suspends without ever signalling `Done`.
#[test]
fn tap_never_signals_done() {
    let items: Vec<i32> = Vec::new();
    let packet_generator = ImmediateStream::new(items);
    let elem = AsyncIdentityElement { id: 0 };
    let mut link = AsyncElementLink::new(packet_generator, elem, 4);

    assert_eq!(link.poll(), PollOutcome::NotReady);
    assert_eq!(link.poll_feeder(), TaskOutcome::Finished);
    assert_eq!(link.poll(), PollOutcome::NotReady);
}

/// The upstream failure signal passes through a synchronous link unchanged.
#[test]
fn sync_link_propagates_failure() {
    let source = FailingStream::new();
    let elem = IdentityElement { id: 0 };
    let mut link = ElementLink::new(source, elem);

    assert_eq!(link.poll(), PollOutcome::Failed);
}

/// The upstream failure signal stops the feeder on the turn it is observed.
#[test]
fn feeder_propagates_failure() {
    let source = FailingStream::new();
    let elem = AsyncIdentityElement { id: 0 };
    let mut link = AsyncElementLink::new(source, elem, 4);

    assert_eq!(link.poll_feeder(), TaskOutcome::Failed);
    assert_eq!(link.queue_len(), 0);
}

/// The consumer finishes exactly when its sequence ends.
#[test]
fn consumer_finishes_on_done() {
    let items: Vec<i32> = (0..3).collect();
    let mut consumer = ExhaustiveConsumer::new(ImmediateStream::new(items));

    assert_eq!(consumer.poll(), TaskOutcome::NotReady);
    assert_eq!(consumer.poll(), TaskOutcome::NotReady);
    assert_eq!(consumer.poll(), TaskOutcome::NotReady);
    assert_eq!(consumer.poll(), TaskOutcome::Finished);
}
