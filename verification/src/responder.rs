//! The automatic responder as a state machine: it is told what the
//! transport did, and says what the transport is to do next.

use crate::pdu::{built_buffer, can_parse, check_parse, parsed_headers, Pdu};
use crate::query::{QueryHdr, Rules};
use vstd::prelude::*;

verus! {

/// Where the responder stands.
#[derive(Debug, Clone, Copy, PartialEq, Eq, Structural)]
pub enum ReplyState {
    /// No frame is in work: the next thing to come is a frame.
    Waiting,
    /// A reply was handed out and is being sent.
    Dispatching,
}

/// What the transport did.
pub enum ReplyEvent<'a> {
    /// It is free: nothing was asked of it yet, or it has sent what it was
    /// given.
    Ready,
    /// It received a frame.
    Received(&'a [u8]),
}

/// What the transport is to do next.
#[derive(Debug)]
pub enum ReplyAction {
    /// Wait for a frame and hand it in.
    Receive,
    /// Send these bytes, then report that it is free.
    Send(Vec<u8>),
    /// Nothing more: as many replies were sent as were asked for.
    Stop,
}

/// Whether every transform of the table takes every frame.
pub open spec fn total<F: Fn(Pdu) -> Pdu>(rules: Seq<(QueryHdr, F)>) -> bool {
    forall|i: int, pdu: Pdu| 0 <= i < rules.len() ==> #[trigger] call_requires(rules[i].1, (pdu,))
}

/// The place of the rule that answers a raw frame: the first whose query
/// the frame meets. A frame too short to be read meets none.
pub open spec fn answering<F>(rules: &Rules<F>, frame: Seq<u8>) -> Option<int> {
    if can_parse(frame) {
        rules.first_match(parsed_headers(frame))
    } else {
        None
    }
}

/// Whether `bytes` can be what the transform `f` answers a raw frame
/// with: `f`, given the frame as it was read, returns a frame whose bytes
/// after building are `bytes`.
pub open spec fn answers<F: Fn(Pdu) -> Pdu>(f: F, frame: Seq<u8>, bytes: Seq<u8>) -> bool {
    exists|read: Pdu, reply: Pdu|
        {
            &&& read.headers@ == parsed_headers(frame)
            &&& read.buffer@ == Seq::<u8>::empty()
            &&& #[trigger] call_ensures(f, (read,), reply)
            &&& bytes == built_buffer(reply.headers@, reply.buffer@)
        }
}

/// The bytes to send for the frame that a transform returned: the frame is
/// built, and whether or not that succeeds, the bytes it then holds go out.
pub fn reply_bytes(reply: Pdu) -> (bytes: Vec<u8>)
    ensures
        bytes@ == built_buffer(reply.headers@, reply.buffer@),
{
    let mut reply = reply;
    let _ = reply.build();
    reply.buffer
}

/// The answer of the table to a raw frame: the frame is read, the rules
/// are tried in order, and the transform of the first rule that the frame
/// meets gives the reply. `None` when the frame meets no rule.
pub fn reply_to<F: Fn(Pdu) -> Pdu>(rules: &Rules<F>, frame: &[u8]) -> (r: Option<Vec<u8>>)
    requires
        total(rules@),
    ensures
        r is Some <==> answering(rules, frame@) is Some,
        r matches Some(bytes) ==> answers(
            rules@[answering(rules, frame@).unwrap()].1,
            frame@,
            bytes@,
        ),
{
    if !check_parse(frame) {
        return None;
    }
    let pdu = Pdu::parse(frame);
    match rules.find(&pdu) {
        None => None,
        Some(i) => {
            let f = rules.callback(i);
            let ghost read = pdu;
            let reply = f(pdu);
            let ghost answered = reply;
            let bytes = reply_bytes(reply);
            assert(call_ensures(*f, (read,), answered));
            Some(bytes)
        },
    }
}

/// The responder: how many replies it has handed out, and how many it may.
#[derive(Debug)]
pub struct AutoReply {
    state: ReplyState,
    total_send: usize,
    limit: Option<usize>,
}

impl AutoReply {
    /// Where the responder stands.
    pub closed spec fn state(&self) -> ReplyState {
        self.state
    }

    /// The number of replies handed out so far.
    pub closed spec fn total_send(&self) -> nat {
        self.total_send as nat
    }

    /// The number of replies after which the responder stops, if any.
    pub closed spec fn limit(&self) -> Option<usize> {
        self.limit
    }

    /// Whether as many replies were handed out as may be.
    pub open spec fn finished(&self) -> bool {
        self.limit() == Some(self.total_send() as usize)
    }

    /// The invariant of the responder: it never hands out more replies
    /// than it may.
    pub open spec fn wf(&self) -> bool {
        self.limit() matches Some(l) ==> self.total_send() <= l
    }

    #[verifier::type_invariant]
    spec fn inv(&self) -> bool {
        self.wf()
    }

    /// A responder that has sent nothing and stops after `limit` replies,
    /// or never where there is no limit.
    pub fn new(limit: Option<usize>) -> (a: Self)
        ensures
            a.state() == ReplyState::Waiting,
            a.total_send() == 0,
            a.limit() == limit,
            a.wf(),
    {
        Self { state: ReplyState::Waiting, total_send: 0, limit }
    }

    /// The number of replies handed out so far.
    pub fn sent(&self) -> (n: usize)
        ensures
            n == self.total_send(),
            self.wf(),
    {
        proof {
            use_type_invariant(self);
        }
        self.total_send
    }

    /// Whether as many replies were handed out as may be.
    pub fn is_finished(&self) -> (r: bool)
        ensures
            r == self.finished(),
    {
        match self.limit {
            Some(l) => l == self.total_send,
            None => false,
        }
    }

    /// Takes what the transport did and says what it is to do next.
    ///
    /// Once as many replies were handed out as may be, the answer to
    /// everything is `Stop` and nothing changes. Before that, a free
    /// transport is told to receive. A received frame is answered by the
    /// first rule that it meets: the reply is handed out to be sent and
    /// counted. A frame that meets no rule is dropped, and the transport is
    /// told to receive again. Without a limit the count stops at the
    /// largest `usize`.
    pub fn step<F: Fn(Pdu) -> Pdu>(&mut self, rules: &Rules<F>, event: ReplyEvent<'_>) -> (action:
        ReplyAction)
        requires
            total(rules@),
        ensures
            final(self).limit() == old(self).limit(),
            final(self).wf(),
            old(self).finished() ==> action is Stop && *final(self) == *old(self),
            !old(self).finished() ==> match event {
                ReplyEvent::Ready => {
                    &&& action is Receive
                    &&& final(self).state() == ReplyState::Waiting
                    &&& final(self).total_send() == old(self).total_send()
                },
                ReplyEvent::Received(frame) => match answering(rules, frame@) {
                    None => {
                        &&& action is Receive
                        &&& final(self).state() == ReplyState::Waiting
                        &&& final(self).total_send() == old(self).total_send()
                    },
                    Some(i) => {
                        &&& action matches ReplyAction::Send(bytes) && answers(
                            rules@[i].1,
                            frame@,
                            bytes@,
                        )
                        &&& final(self).state() == ReplyState::Dispatching
                        &&& final(self).total_send() == if old(self).total_send() < usize::MAX {
                            old(self).total_send() + 1
                        } else {
                            old(self).total_send()
                        }
                    },
                },
            },
    {
        proof {
            use_type_invariant(&*self);
        }
        if self.is_finished() {
            return ReplyAction::Stop;
        }
        match event {
            ReplyEvent::Ready => {
                self.state = ReplyState::Waiting;
                ReplyAction::Receive
            },
            ReplyEvent::Received(frame) => match reply_to(rules, frame) {
                None => {
                    self.state = ReplyState::Waiting;
                    ReplyAction::Receive
                },
                Some(bytes) => {
                    let count = if self.total_send < usize::MAX {
                        self.total_send + 1
                    } else {
                        self.total_send
                    };
                    *self = AutoReply {
                        state: ReplyState::Dispatching,
                        total_send: count,
                        limit: self.limit,
                    };
                    ReplyAction::Send(bytes)
                },
            },
        }
    }
}

} // verus!
