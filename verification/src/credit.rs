//! Receiver-side flow-credit granting.
//!
//! The receiver advertises credit; the sender spends one frame per
//! `audio_chunk` and blocks at zero. How much credit to advertise is the
//! receiver's policy; this module owns the mechanism: the
//! chunks-since-last-grant counter and the credit each step emits.
use vstd::prelude::*;

use crate::events::FlowCredit;

verus! {

/// The cadence actually in force: every `every` chunks, or every chunk when
/// `every` is zero.
pub open spec fn cadence(every: u32) -> int {
    if every == 0 {
        1
    } else {
        every as int
    }
}

/// One counted chunk: the counter after it, and whether it completes the
/// cadence (which emits a grant and resets the counter).
pub open spec fn chunk_step(every: u32, since: u32) -> (u32, bool) {
    if since + 1 >= every {
        (0, true)
    } else {
        ((since + 1) as u32, false)
    }
}

/// The counter and the number of grants after `n` counted chunks from
/// counter `since`.
pub open spec fn after_chunks(every: u32, since: u32, n: nat) -> (u32, nat)
    decreases n,
{
    if n == 0 {
        (since, 0)
    } else {
        let prev = after_chunks(every, since, (n - 1) as nat);
        let step = chunk_step(every, prev.0);
        (step.0, prev.1 + if step.1 {
            1nat
        } else {
            0nat
        })
    }
}

/// Counts processed chunks and grants `grant` frames of credit after every
/// `every` chunks. Unconditional grants go through
/// [`CreditGranter::grant_now`], which also resets the cadence counter.
pub struct CreditGranter {
    every: u32,
    grant: u32,
    since: u32,
    /// Chunks counted since the granter was made or last reset by
    /// `grant_now`.
    counted: Ghost<nat>,
    /// Cadence grants emitted over those chunks.
    granted: Ghost<nat>,
}

impl CreditGranter {
    /// The counter never reaches the cadence: it resets when it would.
    #[verifier::type_invariant]
    spec fn counter_below_cadence(self) -> bool {
        &&& self.since < cadence(self.every)
        &&& self.since == (self.counted@ as int) % cadence(self.every)
        &&& self.granted@ == (self.counted@ as int) / cadence(self.every)
    }

    /// Chunks per cadence grant.
    pub closed spec fn every(self) -> u32 {
        self.every
    }

    /// Frames per cadence grant.
    pub closed spec fn grant(self) -> u32 {
        self.grant
    }

    /// Counted chunks since the last grant.
    pub closed spec fn since(self) -> u32 {
        self.since
    }

    /// Chunks counted since the granter was made or last reset by
    /// [`CreditGranter::grant_now`].
    pub closed spec fn counted(self) -> nat {
        self.counted@
    }

    /// Cadence grants returned by [`CreditGranter::on_chunk`] over those
    /// chunks.
    pub closed spec fn granted(self) -> nat {
        self.granted@
    }

    /// A granter with the given cadence and grant size, counter at zero.
    pub fn new(every: u32, grant: u32) -> (res: CreditGranter)
        ensures
            res.every() == every,
            res.grant() == grant,
            res.since() == 0,
            res.counted() == 0,
            res.granted() == 0,
    {
        proof {
            vstd::arithmetic::div_mod::lemma_fundamental_div_mod_converse(0, cadence(every), 0, 0);
        }
        CreditGranter { every, grant, since: 0, counted: Ghost(0), granted: Ghost(0) }
    }

    /// Emit `frames` of credit unconditionally and reset the cadence counter.
    pub fn grant_now(&mut self, session_id: &str, frames: u32) -> (res: FlowCredit)
        ensures
            final(self).every() == old(self).every(),
            final(self).grant() == old(self).grant(),
            final(self).since() == 0,
            final(self).counted() == 0,
            final(self).granted() == 0,
            res.session_id@ == session_id@,
            res.frames == frames,
    {
        proof {
            vstd::arithmetic::div_mod::lemma_fundamental_div_mod_converse(
                0,
                cadence(self.every),
                0,
                0,
            );
        }
        *self = CreditGranter {
            every: self.every,
            grant: self.grant,
            since: 0,
            counted: Ghost(0),
            granted: Ghost(0),
        };
        FlowCredit { session_id: String::from_str(session_id), frames }
    }

    /// Count one processed chunk; when it completes the cadence, reset the
    /// counter and return the `grant`-frame credit to emit.
    pub fn on_chunk(&mut self, session_id: &str) -> (res: Option<FlowCredit>)
        ensures
            final(self).every() == old(self).every(),
            final(self).grant() == old(self).grant(),
            final(self).since() == chunk_step(old(self).every(), old(self).since()).0,
            res is Some == chunk_step(old(self).every(), old(self).since()).1,
            res matches Some(c) ==> c.session_id@ == session_id@ && c.frames == old(self).grant(),
            final(self).counted() == old(self).counted() + 1,
            res is Some <==> (final(self).counted() as int) % cadence(old(self).every()) == 0,
            final(self).granted() == old(self).granted() + if res is Some {
                1nat
            } else {
                0nat
            },
            final(self).granted() == (final(self).counted() as int) / cadence(old(self).every()),
            final(self).since() == (final(self).counted() as int) % cadence(old(self).every()),
    {
        proof {
            use_type_invariant(&*self);
        }
        let ghost c = cadence(self.every);
        let ghost n = self.counted@;
        let ghost g = self.granted@;
        proof {
            vstd::arithmetic::div_mod::lemma_fundamental_div_mod(n as int, c);
        }
        let next = self.since + 1;
        if next >= self.every {
            proof {
                assert(next == c);
                assert((g + 1) * c == g * c + c) by (nonlinear_arith);
                vstd::arithmetic::div_mod::lemma_fundamental_div_mod_converse(
                    (n + 1) as int,
                    c,
                    (g + 1) as int,
                    0,
                );
            }
            *self = CreditGranter {
                every: self.every,
                grant: self.grant,
                since: 0,
                counted: Ghost(n + 1),
                granted: Ghost(g + 1),
            };
            Some(FlowCredit { session_id: String::from_str(session_id), frames: self.grant })
        } else {
            proof {
                vstd::arithmetic::div_mod::lemma_fundamental_div_mod_converse(
                    (n + 1) as int,
                    c,
                    g as int,
                    next as int,
                );
            }
            *self = CreditGranter {
                every: self.every,
                grant: self.grant,
                since: next,
                counted: Ghost(n + 1),
                granted: Ghost(g),
            };
            None
        }
    }
}

/// From any counter below the cadence, `n` counted chunks leave the
/// counter below the cadence and emit exactly `(since + n) / cadence`
/// grants: one grant per completed cadence, none for a partial one.
pub proof fn lemma_grants_follow_cadence(every: u32, since: u32, n: nat)
    requires
        since < cadence(every),
    ensures
        after_chunks(every, since, n).0 < cadence(every),
        after_chunks(every, since, n).1 * cadence(every) + after_chunks(every, since, n).0 == since
            + n,
        after_chunks(every, since, n).1 == (since + n) / cadence(every),
        after_chunks(every, since, n).0 == (since + n) % cadence(every),
    decreases n,
{
    let c = cadence(every);
    if n > 0 {
        lemma_grants_follow_cadence(every, since, (n - 1) as nat);
        let prev = after_chunks(every, since, (n - 1) as nat);
        let g = prev.1;
        assert(g * c + prev.0 + 1 == since + n);
        if prev.0 + 1 >= every {
            assert(prev.0 + 1 == c);
            assert((g + 1) * c == g * c + c) by (nonlinear_arith);
        }
    }
    let r = after_chunks(every, since, n);
    vstd::arithmetic::div_mod::lemma_fundamental_div_mod_converse(
        since + n,
        c,
        r.1 as int,
        r.0 as int,
    );
}

} // verus!
