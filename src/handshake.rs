//! Waiting for an unordered set of acknowledgements before a connection is
//! ready, answering keepalives on the way.
use vstd::prelude::*;
use crate::line::{
    ChatLine, RPL_CREATED, RPL_ENDOFMOTD, RPL_ENDOFNAMES, RPL_MOTD, RPL_MOTDSTART, RPL_MYINFO,
    RPL_NAMREPLY, RPL_WELCOME, RPL_YOURHOST,
};
use crate::text::str_eq;

verus! {

/// What one inbound message means to a handshake phase.
pub enum HandshakeInput {
    /// The acknowledgement of kind `k`.
    Ack(usize),
    /// A keepalive, to be answered.
    Keepalive,
    /// A message that is neither, but harmless (a pong).
    Ignore,
    /// The remote refused, with its text.
    Rejection(String),
    /// A message of no expected shape.
    Unrecognized,
}

/// Why a handshake failed.
pub enum HandshakeError {
    /// The remote refused, with its text.
    Rejected(String),
    /// A message of no expected shape arrived.
    Unrecognized,
    /// The stream ended before every acknowledgement arrived.
    Incomplete,
}

/// What the caller does after one step.
pub enum HandshakeStep {
    /// Read on.
    Continue,
    /// Answer the keepalive, then read on.
    Answer,
    /// Every acknowledgement has arrived: the phase is over.
    Complete,
    Failed(HandshakeError),
}

/// No acknowledgement seen yet, out of `n` kinds.
pub open spec fn none_seen(n: nat) -> Seq<bool> {
    Seq::new(n, |i: int| false)
}

pub open spec fn all_seen(seen: Seq<bool>) -> bool {
    forall|i: int| 0 <= i < seen.len() ==> #[trigger] seen[i]
}

/// One step of a phase whose acknowledgements seen so far are `seen`. An
/// acknowledgement of a kind the phase does not wait for changes nothing.
pub open spec fn step_spec(seen: Seq<bool>, input: HandshakeInput) -> (Seq<bool>, HandshakeStep) {
    match input {
        HandshakeInput::Ack(k) => {
            let s2 = if k < seen.len() { seen.update(k as int, true) } else { seen };
            (s2, if all_seen(s2) { HandshakeStep::Complete } else { HandshakeStep::Continue })
        },
        HandshakeInput::Keepalive => (seen, HandshakeStep::Answer),
        HandshakeInput::Ignore => (seen, HandshakeStep::Continue),
        HandshakeInput::Rejection(t) => (seen, HandshakeStep::Failed(HandshakeError::Rejected(t))),
        HandshakeInput::Unrecognized => (seen, HandshakeStep::Failed(HandshakeError::Unrecognized)),
    }
}

/// A whole phase over a finite stream: `Ok(n)` when it completes on the
/// `n`-th message, which leaves the stream just after it.
pub open spec fn run_spec(seen: Seq<bool>, inputs: Seq<HandshakeInput>) -> Result<nat, HandshakeError>
    decreases inputs.len(),
{
    if inputs.len() == 0 {
        Err(HandshakeError::Incomplete)
    } else {
        let (s2, st) = step_spec(seen, inputs[0]);
        match st {
            HandshakeStep::Complete => Ok(1),
            HandshakeStep::Failed(e) => Err(e),
            _ => match run_spec(s2, inputs.drop_first()) {
                Ok(n) => Ok(n + 1),
                Err(e) => Err(e),
            },
        }
    }
}

/// An acknowledgement, a keepalive or a harmless message: nothing that ends
/// a phase in failure.
pub open spec fn benign(x: HandshakeInput) -> bool {
    x is Ack || x is Keepalive || x is Ignore
}

pub open spec fn all_benign(xs: Seq<HandshakeInput>) -> bool {
    forall|i: int| 0 <= i < xs.len() ==> benign(#[trigger] xs[i])
}

/// Whether the acknowledgement of kind `k` is among `xs`.
pub open spec fn acks(xs: Seq<HandshakeInput>, k: usize) -> bool {
    exists|i: int| 0 <= i < xs.len() && #[trigger] xs[i] == HandshakeInput::Ack(k)
}

proof fn lemma_completes_from(s: Seq<bool>, xs: Seq<HandshakeInput>, rest: Seq<HandshakeInput>)
    requires
        all_benign(xs),
        !all_seen(s),
        s.len() <= usize::MAX,
        forall|k: usize| k < s.len() ==> s[k as int] || acks(xs, k),
    ensures
        run_spec(s, xs + rest) matches Ok(n) && 1 <= n <= xs.len(),
    decreases xs.len(),
{
    if xs.len() == 0 {
        let j = choose|j: int| 0 <= j < s.len() && !s[j];
        assert(s[(j as usize) as int] || acks(xs, j as usize));
    } else {
        let all = xs + rest;
        assert(all[0] == xs[0]);
        assert(benign(xs[0]));
        let (s2, st) = step_spec(s, xs[0]);
        if !(st is Complete) {
            let tail = xs.drop_first();
            assert(all.drop_first() =~= tail + rest);
            assert(all_benign(tail)) by {
                assert forall|i: int| 0 <= i < tail.len() implies benign(#[trigger] tail[i]) by {
                    assert(tail[i] == xs[i + 1]);
                }
            }
            assert forall|k: usize| k < s2.len() implies s2[k as int] || acks(tail, k) by {
                if !s2[k as int] {
                    assert(!s[k as int]);
                    let i = choose|i: int| 0 <= i < xs.len() && #[trigger] xs[i] == HandshakeInput::Ack(k);
                    if i == 0 {
                        assert(s2[k as int]);
                    } else {
                        assert(tail[i - 1] == HandshakeInput::Ack(k));
                    }
                }
            }
            lemma_completes_from(s2, tail, rest);
        }
    }
}

proof fn lemma_incomplete_from(s: Seq<bool>, xs: Seq<HandshakeInput>, k0: usize)
    requires
        all_benign(xs),
        k0 < s.len(),
        !s[k0 as int],
        !acks(xs, k0),
    ensures
        run_spec(s, xs) == Err::<nat, HandshakeError>(HandshakeError::Incomplete),
    decreases xs.len(),
{
    if xs.len() > 0 {
        assert(benign(xs[0]));
        assert(xs[0] != HandshakeInput::Ack(k0));
        let (s2, st) = step_spec(s, xs[0]);
        assert(!s2[k0 as int]);
        assert(!all_seen(s2));
        let rest = xs.drop_first();
        assert(all_benign(rest)) by {
            assert forall|i: int| 0 <= i < rest.len() implies benign(#[trigger] rest[i]) by {
                assert(rest[i] == xs[i + 1]);
            }
        }
        assert(!acks(rest, k0)) by {
            if acks(rest, k0) {
                let i = choose|i: int| 0 <= i < rest.len() && #[trigger] rest[i] == HandshakeInput::Ack(k0);
                assert(xs[i + 1] == rest[i]);
            }
        }
        lemma_incomplete_from(s2, rest, k0);
    }
}

proof fn lemma_rejected_from(s: Seq<bool>, prefix: Seq<HandshakeInput>, text: String, rest: Seq<HandshakeInput>, k0: usize)
    requires
        all_benign(prefix),
        k0 < s.len(),
        !s[k0 as int],
        !acks(prefix, k0),
    ensures
        run_spec(s, prefix + seq![HandshakeInput::Rejection(text)] + rest)
            == Err::<nat, HandshakeError>(HandshakeError::Rejected(text)),
    decreases prefix.len(),
{
    let xs = prefix + seq![HandshakeInput::Rejection(text)] + rest;
    if prefix.len() == 0 {
        assert(xs[0] == HandshakeInput::Rejection(text));
    } else {
        assert(xs[0] == prefix[0]);
        assert(benign(prefix[0]));
        assert(prefix[0] != HandshakeInput::Ack(k0));
        let (s2, st) = step_spec(s, xs[0]);
        assert(!s2[k0 as int]);
        assert(!all_seen(s2));
        let tail = prefix.drop_first();
        assert(xs.drop_first() =~= tail + seq![HandshakeInput::Rejection(text)] + rest);
        assert(all_benign(tail)) by {
            assert forall|i: int| 0 <= i < tail.len() implies benign(#[trigger] tail[i]) by {
                assert(tail[i] == prefix[i + 1]);
            }
        }
        assert(!acks(tail, k0)) by {
            if acks(tail, k0) {
                let i = choose|i: int| 0 <= i < tail.len() && #[trigger] tail[i] == HandshakeInput::Ack(k0);
                assert(prefix[i + 1] == tail[i]);
            }
        }
        lemma_rejected_from(s2, tail, text, rest, k0);
    }
}

/// A phase waiting for `n` kinds of acknowledgement, fed a stream of
/// acknowledgements, keepalives and harmless messages:
/// completes when every kind arrives, in whatever order and with whatever
/// interleaving, whatever follows, having read no further than that
/// stream; fails with `Incomplete` when some kind never arrives before
/// the stream ends; and fails with the remote's text when a rejection comes
/// before every kind has arrived, whatever follows it.
pub proof fn lemma_handshake_outcomes(
    n: usize,
    xs: Seq<HandshakeInput>,
    text: String,
    rest: Seq<HandshakeInput>,
)
    requires
        n > 0,
        all_benign(xs),
    ensures
        (forall|k: usize| k < n ==> acks(xs, k)) ==> (run_spec(none_seen(n as nat), xs + rest) matches Ok(m)
            && 1 <= m <= xs.len()),
        (exists|k: usize| k < n && !acks(xs, k)) ==> run_spec(none_seen(n as nat), xs)
            == Err::<nat, HandshakeError>(HandshakeError::Incomplete),
        (exists|k: usize| k < n && !acks(xs, k)) ==> run_spec(
            none_seen(n as nat),
            xs + seq![HandshakeInput::Rejection(text)] + rest,
        ) == Err::<nat, HandshakeError>(HandshakeError::Rejected(text)),
{
    let s = none_seen(n as nat);
    assert(!s[0]);
    if forall|k: usize| k < n ==> acks(xs, k) {
        lemma_completes_from(s, xs, rest);
    }
    if exists|k: usize| k < n && !acks(xs, k) {
        let k0 = choose|k: usize| k < n && !acks(xs, k);
        assert(!s[k0 as int]);
        lemma_incomplete_from(s, xs, k0);
        lemma_rejected_from(s, xs, text, rest, k0);
    }
}

/// The memory of one handshake phase: a flag per acknowledgement kind.
pub struct HandshakeAccumulator {
    seen: Vec<bool>,
}

impl View for HandshakeAccumulator {
    type V = Seq<bool>;

    closed spec fn view(&self) -> Seq<bool> {
        self.seen@
    }
}

impl HandshakeAccumulator {
    /// A phase waiting for `required` kinds of acknowledgement, none seen.
    pub fn new(required: usize) -> (r: HandshakeAccumulator)
        ensures
            r@ == none_seen(required as nat),
    {
        let mut seen: Vec<bool> = Vec::new();
        let mut i: usize = 0;
        while i < required
            invariant
                i <= required,
                seen@ == none_seen(i as nat),
            decreases required - i,
        {
            seen.push(false);
            i = i + 1;
            assert(seen@ =~= none_seen(i as nat));
        }
        HandshakeAccumulator { seen }
    }

    /// Whether every acknowledgement has arrived.
    pub fn is_complete(&self) -> (r: bool)
        ensures
            r == all_seen(self@),
    {
        let mut i: usize = 0;
        while i < self.seen.len()
            invariant
                i <= self@.len(),
                forall|j: int| 0 <= j < i ==> #[trigger] self@[j],
            decreases self@.len() - i,
        {
            if !self.seen[i] {
                return false;
            }
            i = i + 1;
        }
        true
    }

    /// Takes in one message: see `step_spec`.
    pub fn step(&mut self, input: HandshakeInput) -> (r: HandshakeStep)
        ensures
            (final(self)@, r) == step_spec(old(self)@, input),
    {
        match input {
            HandshakeInput::Ack(k) => {
                if k < self.seen.len() {
                    self.seen.set(k, true);
                }
                if self.is_complete() {
                    HandshakeStep::Complete
                } else {
                    HandshakeStep::Continue
                }
            },
            HandshakeInput::Keepalive => HandshakeStep::Answer,
            HandshakeInput::Ignore => HandshakeStep::Continue,
            HandshakeInput::Rejection(t) => HandshakeStep::Failed(HandshakeError::Rejected(t)),
            HandshakeInput::Unrecognized => HandshakeStep::Failed(HandshakeError::Unrecognized),
        }
    }

    /// The stream ended before the phase completed.
    pub fn finish(&self) -> (r: HandshakeError)
        ensures
            r is Incomplete,
    {
        HandshakeError::Incomplete
    }
}

/// Runs a phase waiting for `required` kinds of acknowledgement over a finite
/// stream of messages: see `run_spec`.
pub fn run(required: usize, inputs: Vec<HandshakeInput>) -> (r: Result<usize, HandshakeError>)
    ensures
        match (r, run_spec(none_seen(required as nat), inputs@)) {
            (Ok(n), Ok(m)) => n == m,
            (Err(e), Err(f)) => e == f,
            _ => false,
        },
{
    let mut acc = HandshakeAccumulator::new(required);
    let n = inputs.len();
    let ghost all = inputs@;
    let mut rest = inputs;
    let mut taken: usize = 0;
    while rest.len() > 0
        invariant
            all == inputs@,
            all.len() == n,
            taken + rest@.len() == all.len(),
            rest@ == all.skip(taken as int),
            run_spec(none_seen(required as nat), all) == match run_spec(acc@, rest@) {
                Ok(n) => Ok::<nat, HandshakeError>((n + taken) as nat),
                Err(e) => Err(e),
            },
        decreases rest@.len(),
    {
        let ghost before = rest@;
        let ghost seen_before = acc@;
        let input = rest.remove(0);
        assert(rest@ =~= before.drop_first());
        taken = taken + 1;
        assert(rest@ =~= all.skip(taken as int));
        let ghost input_g = input;
        assert(input_g == before[0]);
        let st = acc.step(input);
        assert(run_spec(seen_before, before) == match step_spec(seen_before, input_g).1 {
            HandshakeStep::Complete => Ok(1),
            HandshakeStep::Failed(e) => Err(e),
            _ => match run_spec(acc@, rest@) {
                Ok(k) => Ok::<nat, HandshakeError>(k + 1),
                Err(e) => Err(e),
            },
        });
        match st {
            HandshakeStep::Complete => {
                return Ok(taken);
            },
            HandshakeStep::Failed(e) => {
                return Err(e);
            },
            _ => {},
        }
    }
    Err(acc.finish())
}

/// Acknowledgements of the chat login phase: the capability acknowledgement,
/// the welcome replies and the global user state.
pub const LOGIN_ACKS: usize = 9;

/// Acknowledgements of the chat join phase: the join echo, the name list and
/// its end, the user state and the room state.
pub const JOIN_ACKS: usize = 5;

/// What a chat line means to the login phase.
pub open spec fn login_input_spec(line: ChatLine) -> HandshakeInput {
    match line {
        ChatLine::Notice(t) => HandshakeInput::Rejection(t),
        ChatLine::Ping => HandshakeInput::Keepalive,
        ChatLine::Pong => HandshakeInput::Ignore,
        ChatLine::CapAck => HandshakeInput::Ack(0),
        ChatLine::Reply(code) => if code == RPL_WELCOME {
            HandshakeInput::Ack(1)
        } else if code == RPL_YOURHOST {
            HandshakeInput::Ack(2)
        } else if code == RPL_CREATED {
            HandshakeInput::Ack(3)
        } else if code == RPL_MYINFO {
            HandshakeInput::Ack(4)
        } else if code == RPL_MOTDSTART {
            HandshakeInput::Ack(5)
        } else if code == RPL_MOTD {
            HandshakeInput::Ack(6)
        } else if code == RPL_ENDOFMOTD {
            HandshakeInput::Ack(7)
        } else {
            HandshakeInput::Unrecognized
        },
        ChatLine::Raw { command, tags } => if command@ == "GLOBALUSERSTATE"@ {
            HandshakeInput::Ack(8)
        } else {
            HandshakeInput::Unrecognized
        },
        _ => HandshakeInput::Unrecognized,
    }
}

pub fn login_input(line: ChatLine) -> (r: HandshakeInput)
    ensures
        r == login_input_spec(line),
{
    match line {
        ChatLine::Notice(t) => HandshakeInput::Rejection(t),
        ChatLine::Ping => HandshakeInput::Keepalive,
        ChatLine::Pong => HandshakeInput::Ignore,
        ChatLine::CapAck => HandshakeInput::Ack(0),
        ChatLine::Reply(code) => {
            if code == RPL_WELCOME {
                HandshakeInput::Ack(1)
            } else if code == RPL_YOURHOST {
                HandshakeInput::Ack(2)
            } else if code == RPL_CREATED {
                HandshakeInput::Ack(3)
            } else if code == RPL_MYINFO {
                HandshakeInput::Ack(4)
            } else if code == RPL_MOTDSTART {
                HandshakeInput::Ack(5)
            } else if code == RPL_MOTD {
                HandshakeInput::Ack(6)
            } else if code == RPL_ENDOFMOTD {
                HandshakeInput::Ack(7)
            } else {
                HandshakeInput::Unrecognized
            }
        },
        ChatLine::Raw { command, tags } => {
            if str_eq(command.as_str(), "GLOBALUSERSTATE") {
                HandshakeInput::Ack(8)
            } else {
                HandshakeInput::Unrecognized
            }
        },
        _ => HandshakeInput::Unrecognized,
    }
}

/// What a chat line means to the join phase.
pub open spec fn join_input_spec(line: ChatLine) -> HandshakeInput {
    match line {
        ChatLine::Notice(t) => HandshakeInput::Rejection(t),
        ChatLine::Ping => HandshakeInput::Keepalive,
        ChatLine::Pong => HandshakeInput::Ignore,
        ChatLine::Join(_) => HandshakeInput::Ack(0),
        ChatLine::Reply(code) => if code == RPL_NAMREPLY {
            HandshakeInput::Ack(1)
        } else if code == RPL_ENDOFNAMES {
            HandshakeInput::Ack(2)
        } else {
            HandshakeInput::Unrecognized
        },
        ChatLine::Raw { command, tags } => if command@ == "USERSTATE"@ {
            HandshakeInput::Ack(3)
        } else if command@ == "ROOMSTATE"@ {
            HandshakeInput::Ack(4)
        } else {
            HandshakeInput::Unrecognized
        },
        _ => HandshakeInput::Unrecognized,
    }
}

pub fn join_input(line: ChatLine) -> (r: HandshakeInput)
    ensures
        r == join_input_spec(line),
{
    match line {
        ChatLine::Notice(t) => HandshakeInput::Rejection(t),
        ChatLine::Ping => HandshakeInput::Keepalive,
        ChatLine::Pong => HandshakeInput::Ignore,
        ChatLine::Join(_) => HandshakeInput::Ack(0),
        ChatLine::Reply(code) => {
            if code == RPL_NAMREPLY {
                HandshakeInput::Ack(1)
            } else if code == RPL_ENDOFNAMES {
                HandshakeInput::Ack(2)
            } else {
                HandshakeInput::Unrecognized
            }
        },
        ChatLine::Raw { command, tags } => {
            if str_eq(command.as_str(), "USERSTATE") {
                HandshakeInput::Ack(3)
            } else if str_eq(command.as_str(), "ROOMSTATE") {
                HandshakeInput::Ack(4)
            } else {
                HandshakeInput::Unrecognized
            }
        },
        _ => HandshakeInput::Unrecognized,
    }
}

} // verus!
