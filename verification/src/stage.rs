//! The stage runtime's decisions — the layer between wire framing and a
//! working stage.
//!
//! A read-driven stage's loop owes its peers a fixed protocol: the
//! capability handshake goes out first and unprompted; receiver-side flow
//! credit is granted on a declared [`CreditPolicy`]; unknown events are
//! tolerated; a handler may end the loop. This module decides, at each step
//! of that loop, what credit is owed and whether the loop goes on. The
//! driver that reads and writes the transport and calls the stage's
//! handlers performs what these functions decide.
use vstd::prelude::*;
use vstd::string::StringSliceAdditionalSpecFns;

use crate::credit::{cadence, chunk_step, CreditGranter};
use crate::events::{event_type, FlowCredit};

verus! {

/// When the runtime emits the initial credit window.
#[derive(Debug, Clone, Copy, PartialEq, Eq, Structural)]
pub enum InitialGrant {
    /// Emit `initial` right after the handshake, stamped with an empty
    /// session id.
    OnStart,
    /// Emit `initial` on every `audio_start`, stamped with that session
    /// (which also resets the cadence counter).
    OnSessionStart,
    /// No automatic grant.
    Manual,
}

/// Receiver-side credit policy. `every`/`grant` feed the cadence granter;
/// `initial` and `when` control the unconditional window.
#[derive(Debug, Clone, Copy)]
pub struct CreditPolicy {
    /// Frames in the unconditional initial window.
    pub initial: u32,
    /// Grant after every N processed chunks (0: never by cadence).
    pub every: u32,
    /// Frames per cadence grant.
    pub grant: u32,
    /// When the initial window is emitted.
    pub when: InitialGrant,
}

impl CreditPolicy {
    /// A stage that consumes no audio and must never grant credit.
    #[allow(non_snake_case)]
    pub fn NONE() -> (res: CreditPolicy)
        ensures
            res.initial == 0,
            res.every == 0,
            res.grant == 0,
            res.when == InitialGrant::Manual,
    {
        CreditPolicy { initial: 0, every: 0, grant: 0, when: InitialGrant::Manual }
    }
}

/// Whether a delivered `audio_chunk` counts toward the credit cadence.
#[derive(Debug, Clone, Copy, PartialEq, Eq, Structural)]
pub enum Chunk {
    /// Processed — count it.
    Counted,
    /// Dropped without processing — not counted.
    Dropped,
}

/// Whether the consumer loop continues after a callback.
#[derive(Debug, Clone, Copy, PartialEq, Eq, Structural)]
pub enum Flow {
    /// Keep reading.
    Continue,
    /// Stop the loop and return.
    Stop,
}

/// Options for a notifier-driven (source) stage.
#[derive(Debug, Clone, Copy, Default)]
pub struct SourceOptions {
    /// Listen on stdin for the platform's stop request and stop when it
    /// arrives (or on EOF, which means the platform is gone).
    pub listen_for_stop: bool,
}

/// How the runtime routes an inbound event.
#[derive(Debug, Clone, Copy, PartialEq, Eq, Structural)]
pub enum Inbound {
    AudioStart,
    AudioChunk,
    AudioStop,
    /// Anything else, unknown types included: handed to the stage as is.
    Other,
}

/// The route of an event type.
pub open spec fn spec_classify(t: Seq<char>) -> Inbound {
    if t == event_type::AUDIO_START@ {
        Inbound::AudioStart
    } else if t == event_type::AUDIO_CHUNK@ {
        Inbound::AudioChunk
    } else if t == event_type::AUDIO_STOP@ {
        Inbound::AudioStop
    } else {
        Inbound::Other
    }
}

fn bytes_eq(a: &[u8], b: &[u8]) -> (res: bool)
    ensures
        res == (a@ == b@),
{
    if a.len() != b.len() {
        return false;
    }
    let mut i: usize = 0;
    while i < a.len()
        invariant
            a@.len() == b@.len(),
            i <= a@.len(),
            a@.take(i as int) == b@.take(i as int),
        decreases a.len() - i,
    {
        if a[i] != b[i] {
            assert(a@.take(i + 1)[i as int] != b@.take(i + 1)[i as int]);
            return false;
        }
        assert(a@.take(i + 1) =~= a@.take(i as int).push(a[i as int]));
        assert(b@.take(i + 1) =~= b@.take(i as int).push(b[i as int]));
        i = i + 1;
    }
    assert(a@.take(a@.len() as int) =~= a@);
    assert(b@.take(b@.len() as int) =~= b@);
    true
}

/// Two strings are equal exactly when their UTF-8 bytes are.
fn str_eq(a: &str, b: &str) -> (res: bool)
    ensures
        res == (a@ == b@),
{
    broadcast use vstd::utf8::encode_utf8_decode_utf8;

    let r = bytes_eq(a.as_bytes(), b.as_bytes());
    proof {
        if a.spec_bytes() == b.spec_bytes() {
            assert(vstd::utf8::decode_utf8(vstd::utf8::encode_utf8(a@)) == a@);
            assert(vstd::utf8::decode_utf8(vstd::utf8::encode_utf8(b@)) == b@);
        }
    }
    r
}

/// Route an inbound event by its type tag.
pub fn classify(event_type: &str) -> (res: Inbound)
    ensures
        res == spec_classify(event_type@),
        res == Inbound::AudioStart <==> event_type@ == event_type::AUDIO_START@,
        res == Inbound::AudioChunk <==> event_type@ == event_type::AUDIO_CHUNK@,
        res == Inbound::AudioStop <==> event_type@ == event_type::AUDIO_STOP@,
        res == Inbound::Other <==> (event_type@ != event_type::AUDIO_START@ && event_type@
            != event_type::AUDIO_CHUNK@ && event_type@ != event_type::AUDIO_STOP@),
{
    proof {
        lemma_routes_are_exact(event_type@);
    }
    if str_eq(event_type, event_type::AUDIO_START) {
        Inbound::AudioStart
    } else if str_eq(event_type, event_type::AUDIO_CHUNK) {
        Inbound::AudioChunk
    } else if str_eq(event_type, event_type::AUDIO_STOP) {
        Inbound::AudioStop
    } else {
        Inbound::Other
    }
}

/// What the consumer loop's read of the next event came to.
#[derive(Debug, Clone, Copy, PartialEq, Eq, Structural)]
pub enum ConsumerRead {
    /// An event of this route.
    Event(Inbound),
    /// Clean end of input: upstream closed.
    Eof,
    /// The read failed, or a typed event's data did not decode.
    Failed,
}

/// What the consumer loop does with it.
#[derive(Debug, Clone, Copy, PartialEq, Eq, Structural)]
pub enum Dispatch {
    /// Hand the event to the stage's handler for this route.
    Deliver(Inbound),
    /// Tell the stage upstream closed, then finish successfully.
    EndOfInput,
    /// Finish with the failure.
    Abort,
}

/// The consumer loop's rule for each read: an event goes to its handler,
/// clean end of input calls the end-of-input handler and finishes without
/// error, and a failed read or undecodable data ends the loop with that
/// failure.
pub fn dispatch(read: ConsumerRead) -> (res: Dispatch)
    ensures
        res == match read {
            ConsumerRead::Event(kind) => Dispatch::Deliver(kind),
            ConsumerRead::Eof => Dispatch::EndOfInput,
            ConsumerRead::Failed => Dispatch::Abort,
        },
{
    match read {
        ConsumerRead::Event(kind) => Dispatch::Deliver(kind),
        ConsumerRead::Eof => Dispatch::EndOfInput,
        ConsumerRead::Failed => Dispatch::Abort,
    }
}

/// Whether the loop goes on after a handler answered `flow`.
pub fn keeps_running(flow: Flow) -> (res: bool)
    ensures
        res == (flow == Flow::Continue),
{
    match flow {
        Flow::Continue => true,
        Flow::Stop => false,
    }
}

/// The cadence the runtime gives its granter: `every`, or one when `every`
/// is zero (a zero cadence is never consulted then).
pub open spec fn granter_every(policy: CreditPolicy) -> u32 {
    if policy.every >= 1 {
        policy.every
    } else {
        1
    }
}

/// The frames of the window owed right after the handshake, if any.
pub open spec fn startup_window(policy: CreditPolicy) -> Option<u32> {
    if policy.when == InitialGrant::OnStart && policy.initial > 0 {
        Some(policy.initial)
    } else {
        None
    }
}

/// The frames of the window owed when a session starts, if any.
pub open spec fn session_window(policy: CreditPolicy) -> Option<u32> {
    if policy.when == InitialGrant::OnSessionStart && policy.initial > 0 {
        Some(policy.initial)
    } else {
        None
    }
}

/// Whether a delivered chunk with this verdict is counted toward the
/// cadence.
pub open spec fn counts(policy: CreditPolicy, verdict: Chunk) -> bool {
    verdict == Chunk::Counted && policy.every > 0
}

/// The counter after a delivered chunk, and whether the chunk completes the
/// cadence and earns a `grant`-frame credit.
pub open spec fn chunk_outcome(policy: CreditPolicy, since: u32, verdict: Chunk) -> (u32, bool) {
    if counts(policy, verdict) {
        chunk_step(granter_every(policy), since)
    } else {
        (since, false)
    }
}

/// Something the runtime writes on its own account.
#[derive(Debug)]
pub enum Outbound {
    /// The stage's capability declaration.
    Capability,
    /// A flow-credit grant.
    Credit(FlowCredit),
}

/// The credit state of a read-driven stage: its policy and the cadence
/// granter wired to it.
pub struct ConsumerRuntime {
    credit: CreditGranter,
    policy: CreditPolicy,
}

impl ConsumerRuntime {
    /// The policy the runtime was built with.
    pub closed spec fn policy(self) -> CreditPolicy {
        self.policy
    }

    /// Counted chunks since the last grant.
    pub closed spec fn since(self) -> u32 {
        self.credit.since()
    }

    /// The granter is wired to the policy: its cadence is
    /// [`granter_every`] and its grant size the policy's.
    #[verifier::type_invariant]
    spec fn wired_to_policy(self) -> bool {
        &&& self.credit.every() == granter_every(self.policy)
        &&& self.credit.grant() == self.policy.grant
    }

    /// A runtime for `policy`, its cadence counter at zero.
    pub fn new(policy: CreditPolicy) -> (res: ConsumerRuntime)
        ensures
            res.policy() == policy,
            res.since() == 0,
    {
        ConsumerRuntime { credit: Self::fresh_granter(policy), policy }
    }

    /// A granter wired to `policy`, its counter at zero.
    fn fresh_granter(policy: CreditPolicy) -> (res: CreditGranter)
        ensures
            res.every() == granter_every(policy),
            res.grant() == policy.grant,
            res.since() == 0,
    {
        let every = if policy.every >= 1 {
            policy.every
        } else {
            1
        };
        CreditGranter::new(every, policy.grant)
    }

    /// Takes the granter out, leaving a fresh one wired to the same policy.
    fn take_credit(&mut self) -> (res: CreditGranter)
        ensures
            final(self).policy() == old(self).policy(),
            res == old(self).credit,
            res.every() == granter_every(old(self).policy()),
            res.grant() == old(self).policy().grant,
    {
        proof {
            use_type_invariant(&*self);
        }
        let mut c = Self::fresh_granter(self.policy);
        std::mem::swap(&mut c, &mut self.credit);
        c
    }

    /// What the stage writes before reading anything: the capability
    /// handshake first, unprompted, then the initial window (stamped with an
    /// empty session id) when the policy opens it at startup.
    pub fn startup(&mut self) -> (res: Vec<Outbound>)
        ensures
            final(self).policy() == old(self).policy(),
            res@.len() >= 1,
            res@[0] == Outbound::Capability,
            startup_window(old(self).policy()) is None ==> res@.len() == 1 && final(self).since()
                == old(self).since(),
            startup_window(old(self).policy()) matches Some(frames) ==> res@.len() == 2 && (
            res@[1] matches Outbound::Credit(c) && c.frames == frames && c.session_id@ == Seq::<
                char,
            >::empty()) && final(self).since() == 0,
            old(self).policy().when == InitialGrant::OnStart && old(self).policy().initial > 0
                ==> res@.len() == 2 && (res@[1] matches Outbound::Credit(c)
                && c.frames == old(self).policy().initial && c.session_id@ == Seq::<char>::empty()),
            !(old(self).policy().when == InitialGrant::OnStart && old(self).policy().initial > 0)
                ==> res@.len() == 1 && final(self).since() == old(self).since(),
    {
        proof {
            lemma_initial_windows_open_exactly(old(self).policy());
        }
        let mut out: Vec<Outbound> = Vec::new();
        out.push(Outbound::Capability);
        if self.policy.when == InitialGrant::OnStart && self.policy.initial > 0 {
            let frames = self.policy.initial;
            proof {
                reveal_strlit("");
            }
            let mut credit = self.take_credit();
            let c = credit.grant_now("", frames);
            self.credit = credit;
            out.push(Outbound::Credit(c));
        }
        out
    }

    /// An `audio_start` for `session_id` arrived: the initial window for
    /// that session when the policy opens it per session (which also resets
    /// the cadence counter).
    pub fn on_audio_start(&mut self, session_id: &str) -> (res: Option<FlowCredit>)
        ensures
            final(self).policy() == old(self).policy(),
            session_window(old(self).policy()) is None ==> res is None && final(self).since()
                == old(self).since(),
            session_window(old(self).policy()) matches Some(frames) ==> res matches Some(c) && c.frames
                == frames && c.session_id@ == session_id@ && final(self).since() == 0,
            old(self).policy().when == InitialGrant::OnSessionStart && old(self).policy().initial
                > 0 ==> (res matches Some(c) && c.frames == old(self).policy().initial
                && c.session_id@ == session_id@) && final(self).since() == 0,
            !(old(self).policy().when == InitialGrant::OnSessionStart && old(self).policy().initial
                > 0) ==> res is None && final(self).since() == old(self).since(),
    {
        proof {
            lemma_initial_windows_open_exactly(old(self).policy());
        }
        if self.policy.when == InitialGrant::OnSessionStart && self.policy.initial > 0 {
            let frames = self.policy.initial;
            let mut credit = self.take_credit();
            let c = credit.grant_now(session_id, frames);
            self.credit = credit;
            Some(c)
        } else {
            None
        }
    }

    /// The stage answered `verdict` for a chunk of `session_id`: a counted
    /// chunk advances the cadence (when the policy has one) and may earn a
    /// `grant`-frame credit for that session; a dropped one changes nothing.
    pub fn on_audio_chunk(&mut self, verdict: Chunk, session_id: &str) -> (res: Option<
        FlowCredit,
    >)
        ensures
            final(self).policy() == old(self).policy(),
            final(self).since() == chunk_outcome(old(self).policy(), old(self).since(), verdict).0,
            res is Some == chunk_outcome(old(self).policy(), old(self).since(), verdict).1,
            res matches Some(c) ==> c.session_id@ == session_id@ && c.frames == old(
                self,
            ).policy().grant,
            verdict == Chunk::Dropped || old(self).policy().every == 0
                ==> res is None && final(self).since() == old(self).since(),
            verdict == Chunk::Counted && old(self).policy().every > 0
                ==> (res is Some <==> old(self).since() + 1 >= old(self).policy().every),
    {
        proof {
            lemma_chunks_without_cadence_earn_nothing(old(self).policy(), old(self).since(), verdict);
        }
        if verdict == Chunk::Counted && self.policy.every > 0 {
            let mut credit = self.take_credit();
            let c = credit.on_chunk(session_id);
            self.credit = credit;
            c
        } else {
            None
        }
    }

    /// Grant `frames` unconditionally for `session_id` and reset the cadence
    /// counter — for windows the policy cannot express.
    pub fn grant_now(&mut self, session_id: &str, frames: u32) -> (res: FlowCredit)
        ensures
            final(self).policy() == old(self).policy(),
            final(self).since() == 0,
            res.session_id@ == session_id@,
            res.frames == frames,
    {
        let mut credit = self.take_credit();
        let c = credit.grant_now(session_id, frames);
        self.credit = credit;
        c
    }
}

/// A tag routes to its own handler exactly when it is that handler's tag:
/// `audio_start`, `audio_chunk` or `audio_stop`; every other string — every
/// other tag of the vocabulary, every custom or unknown type — goes to the
/// stage's catch-all handler.
pub proof fn lemma_routes_are_exact(t: Seq<char>)
    ensures
        spec_classify(t) == Inbound::AudioStart <==> t == event_type::AUDIO_START@,
        spec_classify(t) == Inbound::AudioChunk <==> t == event_type::AUDIO_CHUNK@,
        spec_classify(t) == Inbound::AudioStop <==> t == event_type::AUDIO_STOP@,
        spec_classify(t) == Inbound::Other <==> (t != event_type::AUDIO_START@ && t
            != event_type::AUDIO_CHUNK@ && t != event_type::AUDIO_STOP@),
{
    reveal_strlit("audio_start");
    reveal_strlit("audio_chunk");
    reveal_strlit("audio_stop");
    assert(event_type::AUDIO_START@.len() == 11);
    assert(event_type::AUDIO_STOP@.len() == 10);
    assert(event_type::AUDIO_CHUNK@[6] == 'c');
    assert(event_type::AUDIO_START@[6] == 's');
}

/// The unconditional windows open exactly as the policy says, whatever its
/// cadence and grant size: at startup (for `initial` frames) exactly when it
/// is `OnStart` with a non-zero `initial`, per session exactly when it is
/// `OnSessionStart` with a non-zero `initial`, and never otherwise.
pub proof fn lemma_initial_windows_open_exactly(policy: CreditPolicy)
    ensures
        policy.when == InitialGrant::OnStart && policy.initial > 0 ==> startup_window(policy)
            == Some(policy.initial),
        !(policy.when == InitialGrant::OnStart && policy.initial > 0) ==> startup_window(
            policy,
        ) is None,
        policy.when == InitialGrant::OnSessionStart && policy.initial > 0 ==> session_window(policy)
            == Some(policy.initial),
        !(policy.when == InitialGrant::OnSessionStart && policy.initial > 0) ==> session_window(
            policy,
        ) is None,
{
}

/// A chunk earns cadence credit only when it is counted and the policy has
/// a cadence: under any policy whose `every` is zero — whatever its
/// `initial`, `grant` and `when` — and for any dropped chunk, no credit is
/// earned and the counter stays where it was. A counted chunk under a
/// cadence earns credit exactly when it completes the cadence.
pub proof fn lemma_chunks_without_cadence_earn_nothing(
    policy: CreditPolicy,
    since: u32,
    verdict: Chunk,
)
    ensures
        policy.every == 0 || verdict == Chunk::Dropped ==> chunk_outcome(policy, since, verdict)
            == (since, false),
        policy.every > 0 && verdict == Chunk::Counted ==> (chunk_outcome(policy, since, verdict).1
            <==> since + 1 >= policy.every),
        policy.every > 0 && verdict == Chunk::Counted ==> chunk_outcome(policy, since, verdict).0
            == if since + 1 >= policy.every {
            0
        } else {
            since + 1
        },
{
}

/// A stage whose policy is [`CreditPolicy::NONE`] never grants credit: not
/// at startup, not when a session starts, and not for any chunk, whatever
/// the stage answers for it.
pub proof fn lemma_none_policy_never_grants(policy: CreditPolicy, since: u32, verdict: Chunk)
    requires
        policy.initial == 0,
        policy.every == 0,
        policy.grant == 0,
        policy.when == InitialGrant::Manual,
    ensures
        startup_window(policy) is None,
        session_window(policy) is None,
        !chunk_outcome(policy, since, verdict).1,
        chunk_outcome(policy, since, verdict).0 == since,
{
}

/// Dropped chunks never earn credit and leave the cadence counter where it
/// was.
pub proof fn lemma_dropped_chunks_do_not_count(policy: CreditPolicy, since: u32)
    ensures
        chunk_outcome(policy, since, Chunk::Dropped) == (since, false),
{
}

/// Counted chunks under a policy with a cadence follow the granter's
/// cadence exactly: from the counter `since`, `n` of them earn
/// `(since + n) / every` grants and leave the counter at
/// `(since + n) % every`.
pub proof fn lemma_counted_chunks_follow_policy_cadence(policy: CreditPolicy, since: u32, n: nat)
    requires
        policy.every > 0,
        since < policy.every,
    ensures
        forall|s: u32|
            #![trigger chunk_outcome(policy, s, Chunk::Counted)]
            chunk_outcome(policy, s, Chunk::Counted) == chunk_step(policy.every, s),
        crate::credit::after_chunks(policy.every, since, n).1 == (since + n) / (policy.every as int),
        crate::credit::after_chunks(policy.every, since, n).0 == (since + n) % (policy.every as int),
{
    crate::credit::lemma_grants_follow_cadence(policy.every, since, n);
    assert(cadence(policy.every) == policy.every as int);
}

/// What the stop listener of a source stage read.
#[derive(Debug, Clone, Copy, PartialEq, Eq, Structural)]
pub enum StopRead {
    /// An event of this route; `parsed` tells whether an `audio_stop`
    /// decoded into its typed form.
    Event { kind: Inbound, parsed: bool },
    /// Clean end of input: the platform is gone.
    Eof,
    /// The read failed.
    Failed,
}

/// What the stop listener does next.
#[derive(Debug, Clone, Copy, PartialEq, Eq, Structural)]
pub enum StopListen {
    /// Ignore the event and keep listening.
    Keep,
    /// Stop; `record` tells whether to keep the `audio_stop` as the stop
    /// request.
    Stop { record: bool },
}

/// The stop listener's rule. An `audio_stop` stops the listener, and is
/// kept as the stop request when it decoded and no stop was requested before
/// it (by a signal or by the stage itself): the stop request is only ever the
/// `audio_stop` that requested the stop. End of input or a failed read stop
/// the listener, keeping nothing. Any other inbound event is ignored, never
/// fatal, whether or not a stop was already requested.
pub fn stop_listener_step(already_stopped: bool, read: StopRead) -> (res: StopListen)
    ensures
        res == match read {
            StopRead::Event { kind, parsed } => if kind == Inbound::AudioStop {
                StopListen::Stop { record: parsed && !already_stopped }
            } else {
                StopListen::Keep
            },
            _ => StopListen::Stop { record: false },
        },
{
    match read {
        StopRead::Event { kind, parsed } => {
            if kind == Inbound::AudioStop {
                StopListen::Stop { record: parsed && !already_stopped }
            } else {
                StopListen::Keep
            }
        },
        StopRead::Eof => StopListen::Stop { record: false },
        StopRead::Failed => StopListen::Stop { record: false },
    }
}

} // verus!
