//! What holds of a queue over all its sends and receives.
//!
//! A queue is its ledger and the messages that stand in it. Each call is a step from one
//! state of the queue to the next, and a history is a sequence of steps.

use vstd::prelude::*;

use crate::outbound::{
    balanced, charges, event_of, queue_charge, receiving_keeps_the_books, sending_keeps_the_books,
    Ledger, QueueOutcome, QueuedUserOutbound, UserOutbound, UserOutboundEvent,
    UserOutboundOverflow, UserOutboundOverflowKind, UserOutboundSendError,
    UserOutboundTryRecvError,
};

verus! {

/// A queue between a room and a session.
#[verifier::ext_equal]
pub struct Channel {
    pub ledger: Ledger,
    /// Messages in the queue, the oldest first.
    pub queue: Seq<QueuedUserOutbound>,
    /// A sender lives.
    pub connected: bool,
    /// The receiver lives.
    pub listening: bool,
}

/// A call on a queue, and what it returned.
pub enum ChannelStep {
    Send {
        outbound: UserOutbound,
        outcome: QueueOutcome,
        answer: Result<(), UserOutboundSendError>,
    },
    TryRecv { answer: Result<UserOutbound, UserOutboundTryRecvError> },
    /// There is no event while the session waits.
    RecvEvent { answer: Option<UserOutboundEvent> },
    DropSenders,
    /// What is left in the queue goes with the receiver.
    DropReceiver,
}

impl Channel {
    /// The ledger is valid and is charged what the messages in the queue are, which are
    /// no more than the queue may hold.
    pub open spec fn valid(self) -> bool {
        &&& self.ledger.valid()
        &&& self.queue.len() <= self.ledger.limits.messages()
        &&& balanced(self.ledger, charges(self.queue))
        &&& forall|i: int|
            0 <= i < self.queue.len() ==> (#[trigger] self.queue[i]).bytes
                == self.queue[i].outbound.charge()
    }

    /// What the queue hands out.
    pub open spec fn oldest(self) -> Result<QueuedUserOutbound, UserOutboundTryRecvError> {
        if self.queue.len() > 0 {
            Ok(self.queue[0])
        } else if self.connected {
            Err(UserOutboundTryRecvError::Empty)
        } else {
            Err(UserOutboundTryRecvError::Disconnected)
        }
    }

    /// The queue after it handed that out.
    pub open spec fn taken(self) -> Self {
        Channel {
            ledger: self.ledger.after_taking(self.oldest()),
            queue: if self.queue.len() > 0 {
                self.queue.drop_first()
            } else {
                self.queue
            },
            ..self
        }
    }

    /// What a receive returns that disregards overflow.
    pub open spec fn output(self) -> Result<UserOutbound, UserOutboundTryRecvError> {
        match self.oldest() {
            Ok(message) => Ok(message.outbound),
            Err(error) => Err(error),
        }
    }

    /// What the queue does with a message that is offered to it: it is refused by a queue
    /// without a receiver and by one that holds as many messages as it may.
    pub open spec fn offered(self) -> QueueOutcome {
        if !self.listening {
            QueueOutcome::Closed
        } else if self.queue.len() == self.ledger.limits.messages() {
            QueueOutcome::Full
        } else {
            QueueOutcome::Accepted
        }
    }

    /// The call takes the queue to `after`.
    pub open spec fn takes(self, step: ChannelStep, after: Channel) -> bool {
        match step {
            ChannelStep::Send { outbound, outcome, answer } => {
                &&& self.connected && after.connected
                &&& after.listening == self.listening
                &&& self.ledger.fits(outbound.charge()) ==> outcome == self.offered()
                &&& self.ledger.sends(outbound.charge(), outcome, after.ledger, answer)
                &&& after.queue == if answer is Ok {
                    self.queue.push(QueuedUserOutbound { outbound, bytes: outbound.charge() })
                } else {
                    self.queue
                }
            },
            ChannelStep::TryRecv { answer } => self.listening && answer == self.output() && after
                == self.taken(),
            ChannelStep::RecvEvent { answer } => self.listening && match self.ledger.overflow {
                Some(overflow) => answer == Some(UserOutboundEvent::Overflow(overflow)) && after
                    == self,
                None => answer == event_of(self.oldest()) && after == self.taken(),
            },
            ChannelStep::DropSenders => after == (Channel { connected: false, ..self }),
            ChannelStep::DropReceiver => after == (Channel {
                ledger: self.ledger.received(queue_charge(charges(self.queue)) as usize),
                queue: Seq::empty(),
                listening: false,
                ..self
            }),
        }
    }
}

/// The steps take the queue along these states.
pub open spec fn happened(states: Seq<Channel>, steps: Seq<ChannelStep>) -> bool {
    &&& states.len() == steps.len() + 1
    &&& forall|i: int|
        0 <= i < steps.len() ==> states[i].takes(#[trigger] steps[i], states[i + 1])
}

/// Outputs of the sends that succeeded, in their order.
pub open spec fn accepted(steps: Seq<ChannelStep>) -> Seq<UserOutbound>
    decreases steps.len(),
{
    if steps.len() == 0 {
        seq![]
    } else {
        match steps.last() {
            ChannelStep::Send { outbound, outcome: _, answer: Ok(_) } => accepted(
                steps.drop_last(),
            ).push(outbound),
            _ => accepted(steps.drop_last()),
        }
    }
}

/// Outputs that were received, in their order.
pub open spec fn delivered(steps: Seq<ChannelStep>) -> Seq<UserOutbound>
    decreases steps.len(),
{
    if steps.len() == 0 {
        seq![]
    } else {
        match steps.last() {
            ChannelStep::TryRecv { answer: Ok(outbound) } => delivered(steps.drop_last()).push(
                outbound,
            ),
            ChannelStep::RecvEvent { answer: Some(UserOutboundEvent::Message(outbound)) } =>
                delivered(steps.drop_last()).push(outbound),
            _ => delivered(steps.drop_last()),
        }
    }
}

/// The overflow that the last refused send returned.
pub open spec fn last_refusal(steps: Seq<ChannelStep>) -> Option<UserOutboundOverflow>
    decreases steps.len(),
{
    if steps.len() == 0 {
        None
    } else {
        match steps.last() {
            ChannelStep::Send {
                outbound: _,
                outcome: _,
                answer: Err(UserOutboundSendError::Full(overflow)),
            } => Some(overflow),
            _ => last_refusal(steps.drop_last()),
        }
    }
}

/// Outputs of the messages in a queue.
pub open spec fn contents(queue: Seq<QueuedUserOutbound>) -> Seq<UserOutbound> {
    queue.map_values(|message: QueuedUserOutbound| message.outbound)
}

/// A step keeps a queue valid and its limits as they are, and a refusal reports the
/// queue as it was.
proof fn lemma_step(before: Channel, step: ChannelStep, after: Channel)
    requires
        before.valid(),
        before.takes(step, after),
    ensures
        after.valid(),
        after.ledger.limits == before.ledger.limits,
        after.listening ==> before.listening,
        step matches ChannelStep::Send {
            outbound,
            outcome: _,
            answer: Err(UserOutboundSendError::Full(overflow)),
        } ==> before.ledger.reports(overflow, outbound.charge()) && (before.ledger.fits(
            outbound.charge(),
        ) ==> before.queue.len() == before.ledger.limits.messages()),
{
    match step {
        ChannelStep::Send { outbound, outcome, answer } => {
            let bytes = outbound.charge();
            sending_keeps_the_books(
                before.ledger,
                charges(before.queue),
                bytes,
                outcome,
                after.ledger,
                answer,
            );
            assert(charges(before.queue.push(QueuedUserOutbound { outbound, bytes }))
                =~= charges(before.queue).push(bytes));
        },
        ChannelStep::TryRecv { .. } | ChannelStep::RecvEvent { .. } => {
            if before.queue.len() > 0 {
                receiving_keeps_the_books(before.ledger, charges(before.queue));
                assert(charges(before.queue.drop_first()) =~= charges(before.queue).drop_first());
                assert(charges(before.queue)[0] == before.queue[0].bytes);
            }
        },
        ChannelStep::DropSenders => {},
        ChannelStep::DropReceiver => {
            assert(charges(after.queue) =~= Seq::<usize>::empty());
        },
    }
}

/// The steps but the last one are a history too.
proof fn lemma_shorter(states: Seq<Channel>, steps: Seq<ChannelStep>)
    requires
        happened(states, steps),
        steps.len() > 0,
    ensures
        happened(states.drop_last(), steps.drop_last()),
        states.drop_last()[0] == states[0],
        states.drop_last().last() == states[states.len() - 2],
        states[states.len() - 2].takes(steps.last(), states.last()),
{
    lemma_prefix(states, steps, steps.len() - 1);
    assert(states.take(steps.len() as int) =~= states.drop_last());
    assert(steps.take(steps.len() - 1) =~= steps.drop_last());
}

/// The first steps of a history are a history too.
proof fn lemma_prefix(states: Seq<Channel>, steps: Seq<ChannelStep>, n: int)
    requires
        happened(states, steps),
        0 <= n < steps.len(),
    ensures
        happened(states.take(n + 1), steps.take(n)),
        states.take(n + 1)[0] == states[0],
        states.take(n + 1).last() == states[n],
        states[n].takes(steps[n], states[n + 1]),
{
    let earlier = steps.take(n);
    assert forall|i: int| 0 <= i < earlier.len() implies states.take(n + 1)[i].takes(
        #[trigger] earlier[i],
        states.take(n + 1)[i + 1],
    ) by {
        assert(earlier[i] == steps[i]);
    }
}

/// Whatever is sent and received, the queue stays valid: it holds no more messages than it
/// may, is charged exactly what it holds, and never more than its byte capacity.
pub proof fn histories_keep_the_books(states: Seq<Channel>, steps: Seq<ChannelStep>)
    requires
        happened(states, steps),
        states[0].valid(),
    ensures
        states.last().valid(),
        states.last().ledger.limits == states[0].ledger.limits,
        states.last().ledger.queued <= states[0].ledger.limits.bytes(),
        states.last().queue.len() <= states[0].ledger.limits.messages(),
    decreases steps.len(),
{
    if steps.len() > 0 {
        lemma_shorter(states, steps);
        histories_keep_the_books(states.drop_last(), steps.drop_last());
        lemma_step(states[states.len() - 2], steps.last(), states.last());
    }
}

/// Accepted outputs come out in the order in which they were sent, each once, and a
/// refused one never does. A receive gives the first accepted output that was not
/// received yet and takes its charge back, so that a queue that was emptied is charged
/// nothing. Once all of them were received it says whether more can come. This holds for
/// as long as there is a receiver.
pub proof fn accepted_output_comes_out_in_order(states: Seq<Channel>, steps: Seq<ChannelStep>)
    requires
        happened(states, steps),
        states[0].valid(),
        states[0].queue.len() == 0,
        states.last().listening,
    ensures
        accepted(steps) == delivered(steps) + contents(states.last().queue),
        ({
            let sent = accepted(steps);
            let done = delivered(steps).len();
            let now = states.last();
            if done < sent.len() {
                &&& now.output() == Ok::<_, UserOutboundTryRecvError>(sent[done as int])
                &&& sent[done as int].charge() <= now.ledger.queued
                &&& now.taken().ledger.queued == now.ledger.queued - sent[done as int].charge()
            } else {
                &&& now.ledger.queued == 0
                &&& now.output() == Err::<UserOutbound, _>(
                    if now.connected {
                        UserOutboundTryRecvError::Empty
                    } else {
                        UserOutboundTryRecvError::Disconnected
                    },
                )
            }
        }),
        states.last().taken().ledger.overflow == states.last().ledger.overflow,
    decreases steps.len(),
{
    histories_keep_the_books(states, steps);
    let now = states.last();
    if steps.len() == 0 {
        assert(contents(now.queue) =~= Seq::<UserOutbound>::empty());
        assert(accepted(steps) =~= delivered(steps) + contents(now.queue));
    } else {
        lemma_shorter(states, steps);
        let before = states[states.len() - 2];
        histories_keep_the_books(states.drop_last(), steps.drop_last());
        lemma_step(before, steps.last(), now);
        accepted_output_comes_out_in_order(states.drop_last(), steps.drop_last());
        let sent = accepted(steps.drop_last());
        let done = delivered(steps.drop_last());
        assert(sent == done + contents(before.queue));
        match steps.last() {
            ChannelStep::Send { outbound, .. } => {
                let message = QueuedUserOutbound { outbound, bytes: outbound.charge() };
                assert(contents(before.queue.push(message)) =~= contents(before.queue).push(
                    outbound,
                ));
            },
            _ => {
                if before.queue.len() > 0 {
                    assert(contents(before.queue) =~= seq![before.queue[0].outbound] + contents(
                        before.queue.drop_first(),
                    ));
                }
            },
        }
        assert(accepted(steps) =~= delivered(steps) + contents(now.queue));
    }
    assert(contents(now.queue).len() == now.queue.len());
    if now.queue.len() > 0 {
        receiving_keeps_the_books(now.ledger, charges(now.queue));
        assert(charges(now.queue)[0] == now.queue[0].bytes);
        assert(accepted(steps)[delivered(steps).len() as int] == contents(now.queue)[0]);
    } else {
        assert(charges(now.queue) =~= Seq::<usize>::empty());
        assert(queue_charge(charges(now.queue)) == 0);
    }
}

/// The marked overflow is that of the last refused send, whatever was received since.
pub proof fn the_last_refusal_stays_marked(states: Seq<Channel>, steps: Seq<ChannelStep>)
    requires
        happened(states, steps),
        states[0].ledger.overflow is None,
    ensures
        states.last().ledger.overflow == last_refusal(steps),
    decreases steps.len(),
{
    if steps.len() > 0 {
        lemma_shorter(states, steps);
        the_last_refusal_stays_marked(states.drop_last(), steps.drop_last());
    }
}

/// Once a send was refused because the queue was full, every later event is the overflow
/// of the last such refusal, even while output is queued, and nothing leaves the queue.
pub proof fn an_overflow_stays_reported(
    states: Seq<Channel>,
    steps: Seq<ChannelStep>,
    refused: int,
    asked: int,
)
    requires
        happened(states, steps),
        states[0].ledger.overflow is None,
        0 <= refused < asked < steps.len(),
        steps[refused] matches ChannelStep::Send {
            outbound: _,
            outcome: _,
            answer: Err(UserOutboundSendError::Full(_)),
        },
        steps[asked] is RecvEvent,
    ensures
        last_refusal(steps.take(asked)) matches Some(overflow) && steps[asked] == (
        ChannelStep::RecvEvent { answer: Some(UserOutboundEvent::Overflow(overflow)) }),
        states[asked + 1] == states[asked],
{
    let earlier = steps.take(asked);
    lemma_prefix(states, steps, asked);
    the_last_refusal_stays_marked(states.take(asked + 1), earlier);
    lemma_refusal_counts(earlier, refused);
}

proof fn lemma_refusal_counts(steps: Seq<ChannelStep>, refused: int)
    requires
        0 <= refused < steps.len(),
        steps[refused] matches ChannelStep::Send {
            outbound: _,
            outcome: _,
            answer: Err(UserOutboundSendError::Full(_)),
        },
    ensures
        last_refusal(steps) is Some,
    decreases steps.len(),
{
    if refused < steps.len() - 1 {
        lemma_refusal_counts(steps.drop_last(), refused);
    }
}

/// Without an overflow the event is the oldest output, and the end of the queue once it
/// is empty and every sender is gone.
pub proof fn events_without_overflow_are_the_output(
    states: Seq<Channel>,
    steps: Seq<ChannelStep>,
    asked: int,
    answer: Option<UserOutboundEvent>,
)
    requires
        happened(states, steps),
        states[0].ledger.overflow is None,
        0 <= asked < steps.len(),
        steps[asked] == (ChannelStep::RecvEvent { answer }),
        last_refusal(steps.take(asked)) is None,
    ensures
        answer == match states[asked].output() {
            Ok(outbound) => Some(UserOutboundEvent::Message(outbound)),
            Err(UserOutboundTryRecvError::Disconnected) => Some(UserOutboundEvent::Closed),
            Err(UserOutboundTryRecvError::Empty) => None,
        },
        states[asked + 1] == states[asked].taken(),
{
    let earlier = steps.take(asked);
    lemma_prefix(states, steps, asked);
    the_last_refusal_stays_marked(states.take(asked + 1), earlier);
}

/// A refusal reports the limits of the queue, the charge of the refused message, and what
/// was queued without it, which is never more than the byte capacity. It is a refusal for
/// bytes exactly where the message would have taken the queue over that capacity; any
/// other one means that as many messages were queued as the queue may hold.
pub proof fn refusals_report_within_capacity(
    states: Seq<Channel>,
    steps: Seq<ChannelStep>,
    refused: int,
    outbound: UserOutbound,
    outcome: QueueOutcome,
    overflow: UserOutboundOverflow,
)
    requires
        happened(states, steps),
        states[0].valid(),
        0 <= refused < steps.len(),
        steps[refused] == (ChannelStep::Send {
            outbound,
            outcome,
            answer: Err(UserOutboundSendError::Full(overflow)),
        }),
    ensures
        overflow.parts().1 == states[0].ledger.limits.messages(),
        overflow.parts().2 == states[0].ledger.limits.bytes(),
        overflow.parts().3 == states[refused].ledger.queued,
        overflow.parts().3 <= overflow.parts().2,
        overflow.parts().4 == outbound.charge(),
        overflow.parts().0 == UserOutboundOverflowKind::QueuedBytes <==> overflow.parts().3
            + overflow.parts().4 > overflow.parts().2,
        overflow.parts().0 != UserOutboundOverflowKind::QueuedBytes ==> overflow.parts().0
            == UserOutboundOverflowKind::MessageCount && states[refused].queue.len()
            == overflow.parts().1,
{
    let earlier = steps.take(refused);
    lemma_prefix(states, steps, refused);
    histories_keep_the_books(states.take(refused + 1), earlier);
    lemma_step(states[refused], steps[refused], states[refused + 1]);
}

} // verus!
