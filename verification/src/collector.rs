use vstd::prelude::*;
use crate::eit::{EitSection, ServiceTriple};

verus! {

/// Number of sections batched into one update message to the EPG store.
pub const UPDATE_CHUNK_SIZE: usize = 32;

/// The distinct service triples of the given sections, in order of first
/// appearance.
pub open spec fn distinct_triples(h: Seq<EitSection>) -> Seq<ServiceTriple>
    decreases h.len(),
{
    if h.len() == 0 {
        Seq::empty()
    } else {
        let prefix = distinct_triples(h.drop_last());
        if prefix.contains(h.last().spec_service_triple()) {
            prefix
        } else {
            prefix.push(h.last().spec_service_triple())
        }
    }
}

/// The batching state of one channel's harvest: accepted sections are
/// grouped into update messages of `UPDATE_CHUNK_SIZE` in stream order, and
/// every distinct service triple seen is recorded for the final flush.
pub struct CollectSession {
    /// The batch in progress; always shorter than `UPDATE_CHUNK_SIZE`.
    pub batch: Vec<EitSection>,
    /// Distinct service triples seen so far, in order of first appearance.
    pub triples: Vec<ServiceTriple>,
    /// Sections accepted so far.
    pub num_sections: usize,
    /// All sections accepted so far, in stream order.
    pub history: Ghost<Seq<EitSection>>,
    /// The batches dispatched so far, in dispatch order.
    pub sent: Ghost<Seq<Seq<EitSection>>>,
}

impl CollectSession {
    /// Structural invariant: the dispatched batches followed by the batch in
    /// progress are exactly the accepted sections, the counter counts them,
    /// and the recorded triples are the distinct ones in first appearance
    /// order.
    pub open spec fn wf(self) -> bool {
        &&& self.batch@.len() < UPDATE_CHUNK_SIZE
        &&& self.sent@.flatten() + self.batch@ == self.history@
        &&& self.num_sections == self.history@.len()
        &&& self.triples@ == distinct_triples(self.history@)
    }

    /// Every batch dispatched so far is full. Holds until `finish`
    /// dispatches the one short batch of the run.
    pub open spec fn all_full(self) -> bool {
        forall|i: int|
            0 <= i < self.sent@.len() ==> (#[trigger] self.sent@[i]).len() == UPDATE_CHUNK_SIZE
    }

    pub fn new() -> (r: Self)
        ensures
            r.wf(),
            r.all_full(),
            r.history@ == Seq::<EitSection>::empty(),
            r.sent@ == Seq::<Seq<EitSection>>::empty(),
            r.num_sections == 0,
    {
        let r = CollectSession {
            batch: Vec::new(),
            triples: Vec::new(),
            num_sections: 0,
            history: Ghost(Seq::empty()),
            sent: Ghost(Seq::empty()),
        };
        proof {
            assert(r.sent@.flatten() + r.batch@ =~= r.history@);
        }
        r
    }

    fn contains_triple(&self, t: &ServiceTriple) -> (r: bool)
        ensures
            r == self.triples@.contains(*t),
    {
        let n = self.triples.len();
        let mut i: usize = 0;
        while i < n
            invariant
                i <= n,
                n == self.triples.len(),
                forall|j: int| 0 <= j < i ==> self.triples@[j] != *t,
            decreases n - i,
        {
            if self.triples[i].nid == t.nid && self.triples[i].tsid == t.tsid
                && self.triples[i].sid == t.sid {
                assert(self.triples@[i as int] == *t);
                return true;
            }
            i += 1;
        }
        false
    }

    /// Accept the next decoded section: record its service triple if new,
    /// append it to the batch in progress, and dispatch the batch iff it is
    /// now full.
    pub fn push_section(&mut self, s: EitSection) -> (dispatched: Option<Vec<EitSection>>)
        requires
            old(self).wf(),
            old(self).all_full(),
            old(self).history@.len() < usize::MAX,
        ensures
            final(self).wf(),
            final(self).all_full(),
            final(self).history@ == old(self).history@.push(s),
            final(self).num_sections == old(self).num_sections + 1,
            match dispatched {
                Some(b) => {
                    &&& b@ == old(self).batch@.push(s)
                    &&& b@.len() == UPDATE_CHUNK_SIZE
                    &&& final(self).sent@ == old(self).sent@.push(b@)
                    &&& final(self).batch@.len() == 0
                },
                None => {
                    &&& final(self).sent@ == old(self).sent@
                    &&& final(self).batch@ == old(self).batch@.push(s)
                },
            },
    {
        let ghost prev_hist = self.history@;
        let triple = s.service_triple();
        let seen = self.contains_triple(&triple);
        if !seen {
            self.triples.push(triple);
        }
        self.batch.push(s);
        self.num_sections = self.num_sections + 1;
        proof {
            self.history@ = prev_hist.push(s);
            assert(self.history@.drop_last() =~= prev_hist);
            assert(self.triples@ == distinct_triples(self.history@));
            assert(self.sent@.flatten() + self.batch@ =~= self.history@);
        }
        if self.batch.len() == UPDATE_CHUNK_SIZE {
            let mut b: Vec<EitSection> = Vec::new();
            core::mem::swap(&mut b, &mut self.batch);
            let ghost prev_sent = self.sent@;
            proof {
                self.sent@ = prev_sent.push(b@);
                prev_sent.lemma_flatten_push(b@);
                assert(self.sent@.flatten() + self.batch@ =~= self.history@);
            }
            Some(b)
        } else {
            None
        }
    }

    /// End of the channel's input: dispatch the batch in progress iff it is
    /// non-empty, and hand out the distinct service triples for the flush.
    /// Afterwards the dispatched batches hold exactly the accepted sections.
    pub fn finish(&mut self) -> (r: (Option<Vec<EitSection>>, Vec<ServiceTriple>))
        requires
            old(self).wf(),
        ensures
            final(self).wf(),
            final(self).history@ == old(self).history@,
            final(self).num_sections == old(self).num_sections,
            final(self).batch@.len() == 0,
            final(self).sent@.flatten() == old(self).history@,
            r.1@ == distinct_triples(old(self).history@),
            old(self).batch@.len() == 0 ==> r.0 is None && final(self).sent@ == old(self).sent@,
            old(self).batch@.len() > 0 ==> match r.0 {
                Some(b) => {
                    &&& b@ == old(self).batch@
                    &&& 0 < b@.len() < UPDATE_CHUNK_SIZE
                    &&& final(self).sent@ == old(self).sent@.push(b@)
                },
                None => false,
            },
    {
        let triples = self.copy_triples();
        if self.batch.len() == 0 {
            proof {
                assert(self.sent@.flatten() + self.batch@ =~= self.sent@.flatten());
            }
            (None, triples)
        } else {
            let mut b: Vec<EitSection> = Vec::new();
            core::mem::swap(&mut b, &mut self.batch);
            let ghost prev_sent = self.sent@;
            proof {
                self.sent@ = prev_sent.push(b@);
                prev_sent.lemma_flatten_push(b@);
                assert(self.sent@.flatten() + self.batch@ =~= self.sent@.flatten());
                assert(self.sent@.flatten() =~= self.history@);
            }
            (Some(b), triples)
        }
    }

    fn copy_triples(&self) -> (r: Vec<ServiceTriple>)
        ensures
            r@ == self.triples@,
    {
        let n = self.triples.len();
        let mut r: Vec<ServiceTriple> = Vec::new();
        let mut i: usize = 0;
        while i < n
            invariant
                i <= n,
                n == self.triples.len(),
                r@ == self.triples@.take(i as int),
            decreases n - i,
        {
            r.push(self.triples[i]);
            proof {
                assert(r@ =~= self.triples@.take(i + 1));
            }
            i += 1;
        }
        proof {
            assert(self.triples@.take(n as int) =~= self.triples@);
        }
        r
    }
}

/// Element views of a list of section lists (update batches, or the decoded
/// input of each channel).
pub open spec fn updates_view(u: Seq<Vec<EitSection>>) -> Seq<Seq<EitSection>> {
    u.map_values(|b: Vec<EitSection>| b@)
}

/// Total number of sections over a list of section lists.
pub open spec fn total_sections_of(s: Seq<Seq<EitSection>>) -> int
    decreases s.len(),
{
    if s.len() == 0 {
        0
    } else {
        total_sections_of(s.drop_last()) + s.last().len()
    }
}

pub proof fn lemma_total_take_step(s: Seq<Seq<EitSection>>, k: int)
    requires
        0 <= k < s.len(),
    ensures
        total_sections_of(s.take(k + 1)) == total_sections_of(s.take(k)) + s[k].len(),
{
    assert(s.take(k + 1).drop_last() =~= s.take(k));
    assert(s.take(k + 1).last() == s[k]);
}

pub proof fn lemma_total_nonneg(s: Seq<Seq<EitSection>>)
    ensures
        total_sections_of(s) >= 0,
    decreases s.len(),
{
    if s.len() > 0 {
        lemma_total_nonneg(s.drop_last());
    }
}

pub proof fn lemma_total_take_le(s: Seq<Seq<EitSection>>, k: int)
    requires
        0 <= k <= s.len(),
    ensures
        total_sections_of(s.take(k)) <= total_sections_of(s),
        total_sections_of(s.take(k)) >= 0,
    decreases s.len() - k,
{
    lemma_total_nonneg(s.take(k));
    if k == s.len() {
        assert(s.take(k) =~= s);
    } else {
        lemma_total_take_step(s, k);
        lemma_total_take_le(s, k + 1);
    }
}

/// What one channel's harvest hands to the EPG store, in order: the update
/// messages, then the flushed triples; plus the section count.
pub struct ChannelOutcome {
    /// The update message batches, in dispatch order.
    pub updates: Vec<Vec<EitSection>>,
    /// The flushed service triples: each distinct triple once, in first
    /// appearance order.
    pub triples: Vec<ServiceTriple>,
    /// Total number of sections read in this channel.
    pub num_sections: usize,
}

/// What one channel's harvest owes for its decoded sections: the update
/// batches partition the sections into consecutive groups of
/// `UPDATE_CHUNK_SIZE` in stream order (the last group possibly shorter), the
/// flush carries exactly the distinct service triples seen, and the count is
/// the number of sections.
pub open spec fn outcome_matches(sections: Seq<EitSection>, r: ChannelOutcome) -> bool {
    &&& updates_view(r.updates@).flatten() == sections
    &&& forall|i: int|
        0 <= i < r.updates@.len() - 1 ==> (#[trigger] updates_view(r.updates@)[i]).len()
            == UPDATE_CHUNK_SIZE
    &&& r.updates@.len() > 0 ==> 0 < updates_view(r.updates@).last().len() <= UPDATE_CHUNK_SIZE
    &&& r.triples@ == distinct_triples(sections)
    &&& r.num_sections == sections.len()
}

/// Process one channel's decoded sections exactly as the harvest loop does;
/// see `outcome_matches` for everything the outcome is bound to.
pub fn run_channel(sections: Vec<EitSection>) -> (r: ChannelOutcome)
    requires
        sections@.len() < usize::MAX,
    ensures
        outcome_matches(sections@, r),
{
    broadcast use Seq::lemma_push_map_commute;

    let ghost all: Seq<EitSection> = sections@;
    let mut rest = sections;
    let mut session = CollectSession::new();
    let mut updates: Vec<Vec<EitSection>> = Vec::new();
    proof {
        assert(Seq::<EitSection>::empty() =~= all.take(0));
        assert(rest@ =~= all.skip(0));
        assert(updates_view(updates@) =~= session.sent@);
    }
    while rest.len() > 0
        invariant
            session.wf(),
            session.all_full(),
            rest@.len() <= all.len(),
            session.history@ == all.take(all.len() - rest@.len()),
            rest@ == all.skip(all.len() - rest@.len()),
            updates_view(updates@) == session.sent@,
            all.len() < usize::MAX,
        decreases rest.len(),
    {
        let ghost k: int = all.len() - rest@.len();
        let s = rest.remove(0);
        proof {
            assert(s == all[k]);
            assert(rest@ =~= all.skip(k + 1));
            assert(all.take(k).push(all[k]) =~= all.take(k + 1));
        }
        match session.push_section(s) {
            Some(b) => {
                let ghost prev_uv = updates_view(updates@);
                let ghost bv: Seq<EitSection> = b@;
                updates.push(b);
                proof {
                    assert(updates_view(updates@) =~= prev_uv.push(bv));
                }
            },
            None => {},
        }
    }
    proof {
        assert(session.history@ =~= all);
    }
    let (tail, triples) = session.finish();
    match tail {
        Some(b) => {
            let ghost prev_uv = updates_view(updates@);
            let ghost bv: Seq<EitSection> = b@;
            updates.push(b);
            proof {
                assert(updates_view(updates@) =~= prev_uv.push(bv));
            }
        },
        None => {},
    }
    proof {
        assert(updates_view(updates@) == session.sent@);
        assert(updates_view(updates@).flatten() == all);
    }
    let num_sections = session.num_sections;
    ChannelOutcome { updates, triples, num_sections }
}

/// Law (update boundary): once a session is finished (no batch in progress),
/// the dispatched batches partition the accepted sections into consecutive
/// groups in stream order — every batch but the last full at
/// `UPDATE_CHUNK_SIZE`, the last non-empty and at most that long — and the
/// recorded triples are exactly the distinct service triples of the accepted
/// sections, in first appearance order. Two runs over the same sections
/// dispatch the same batches and flush the same triples.
pub proof fn lemma_update_boundary(s: CollectSession)
    requires
        s.wf(),
        s.batch@.len() == 0,
    ensures
        s.sent@.flatten() == s.history@,
        s.triples@ == distinct_triples(s.history@),
{
    assert(s.sent@.flatten() + s.batch@ =~= s.sent@.flatten());
}

} // verus!
