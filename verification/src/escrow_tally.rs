use vstd::prelude::*;
use crate::constants::{
    APPEAL_JURY_SIZE, MAX_APPEALS, MIN_JUROR_STAKE, VOTING_COMMIT_PERIOD, VOTING_REVEAL_PERIOD,
};
use crate::errors::Error;
use crate::escrow::{escrow_ok, EscrowContract, EscrowState};
use crate::maps::{make_pair_key, pair_key};
use crate::types::{
    Address, Dispute, DisputeResolution, DisputeStatus, EscrowEvent, JurorInfo, Timestamp, VoteCommitment,
};

verus! {

broadcast use vstd::std_specs::hash::group_hash_axioms, crate::maps::group_map_lemmas;

/// Position of a resolution among the vote counters.
pub open spec fn res_index(r: DisputeResolution) -> int {
    match r {
        DisputeResolution::RelFunds => 0,
        DisputeResolution::RefBackers => 1,
        DisputeResolution::PartRel => 2,
        DisputeResolution::NoRes => 3,
    }
}

/// Running state of a vote count.
pub struct TallyAcc {
    /// Revealed votes per resolution, indexed by `res_index`.
    pub counts: Seq<int>,
    pub max_votes: int,
    pub winning: DisputeResolution,
    pub payload: u32,
}

pub open spec fn tally_init() -> TallyAcc {
    TallyAcc { counts: seq![0int, 0int, 0int, 0int], max_votes: 0, winning: DisputeResolution::NoRes, payload: 0 }
}

/// The commitment of a juror on a dispute, if any.
pub open spec fn commitment_of(votes: Map<u128, VoteCommitment>, d: u64, j: Address) -> Option<VoteCommitment> {
    if votes.contains_key(pair_key(d, j)) {
        Some(votes[pair_key(d, j)])
    } else {
        None
    }
}

/// Counts one juror's revealed vote; a resolution leads as soon as its count
/// exceeds the best count so far, carrying that vote's payload.
pub open spec fn tally_step(acc: TallyAcc, c: Option<VoteCommitment>) -> TallyAcc {
    match c {
        Some(cm) => if cm.revealed {
            let k = res_index(cm.vote);
            let n = acc.counts[k] + 1;
            let counts = acc.counts.update(k, n);
            if n > acc.max_votes {
                TallyAcc { counts, max_votes: n, winning: cm.vote, payload: cm.vote_payload }
            } else {
                TallyAcc { counts, ..acc }
            }
        } else {
            acc
        },
        None => acc,
    }
}

/// The count over a jury, in jury order.
pub open spec fn tally_fold(votes: Map<u128, VoteCommitment>, d: u64, js: Seq<Address>) -> TallyAcc
    decreases js.len(),
{
    if js.len() == 0 {
        tally_init()
    } else {
        tally_step(tally_fold(votes, d, js.drop_last()), commitment_of(votes, d, js.last()))
    }
}

/// The resolution a count yields: the leader, or a refund when nobody revealed.
pub open spec fn tally_resolution(acc: TallyAcc) -> DisputeResolution {
    if acc.winning == DisputeResolution::NoRes {
        DisputeResolution::RefBackers
    } else {
        acc.winning
    }
}

/// Whether a juror revealed a vote for the resolution.
pub open spec fn is_majority(
    votes: Map<u128, VoteCommitment>,
    d: u64,
    j: Address,
    resolution: DisputeResolution,
) -> bool {
    match commitment_of(votes, d, j) {
        Some(c) => c.revealed && c.vote == resolution,
        None => false,
    }
}

/// Penalty taken from a juror outside the majority.
pub open spec fn slash_penalty() -> int {
    MIN_JUROR_STAKE / 10
}

/// What a juror outside the majority forfeits: the penalty, or its whole
/// stake when that is smaller.
pub open spec fn slash_amount(info: JurorInfo) -> int {
    if info.staked_amount < slash_penalty() {
        info.staked_amount as int
    } else {
        slash_penalty()
    }
}

/// Settles one juror: a majority juror gains a successful vote; any other
/// juror records a missed vote and forfeits up to the penalty into the pool.
/// Either way the juror has one active dispute less.
pub open spec fn settle_one(
    jurors: Map<u64, JurorInfo>,
    pool: int,
    majority: Seq<Address>,
    votes: Map<u128, VoteCommitment>,
    d: u64,
    resolution: DisputeResolution,
    j: Address,
) -> (Map<u64, JurorInfo>, int, Seq<Address>) {
    let info = jurors[j];
    if is_majority(votes, d, j, resolution) {
        (
            jurors.insert(
                j,
                JurorInfo {
                    successful_votes: (info.successful_votes + 1) as u32,
                    active_disputes: (info.active_disputes - 1) as u32,
                    ..info
                },
            ),
            pool,
            majority.push(j),
        )
    } else {
        let slashed = slash_amount(info);
        (
            jurors.insert(
                j,
                JurorInfo {
                    missed_votes: (info.missed_votes + 1) as u32,
                    active_disputes: (info.active_disputes - 1) as u32,
                    staked_amount: (info.staked_amount - slashed) as i128,
                    ..info
                },
            ),
            pool + slashed,
            majority,
        )
    }
}

/// Settles a jury in order; returns the jurors, the fee pool and the majority.
pub open spec fn settle_fold(
    jurors: Map<u64, JurorInfo>,
    pool: int,
    votes: Map<u128, VoteCommitment>,
    d: u64,
    resolution: DisputeResolution,
    js: Seq<Address>,
) -> (Map<u64, JurorInfo>, int, Seq<Address>)
    decreases js.len(),
{
    if js.len() == 0 {
        (jurors, pool, Seq::empty())
    } else {
        let r = settle_fold(jurors, pool, votes, d, resolution, js.drop_last());
        settle_one(r.0, r.1, r.2, votes, d, resolution, js.last())
    }
}

/// The events of settling a jury in order: one `JurorSlashed` for each
/// juror outside the majority, with what it forfeited.
pub open spec fn settle_events(
    jurors: Map<u64, JurorInfo>,
    pool: int,
    votes: Map<u128, VoteCommitment>,
    d: u64,
    resolution: DisputeResolution,
    js: Seq<Address>,
) -> Seq<EscrowEvent>
    decreases js.len(),
{
    if js.len() == 0 {
        Seq::empty()
    } else {
        let prev = settle_events(jurors, pool, votes, d, resolution, js.drop_last());
        let j = js.last();
        if is_majority(votes, d, j, resolution) {
            prev
        } else {
            let r = settle_fold(jurors, pool, votes, d, resolution, js.drop_last());
            prev.push(EscrowEvent::JurorSlashed { juror: j, slashed: slash_amount(r.0[j]) as i128 })
        }
    }
}

/// Jurors after each majority juror receives `share`.
pub open spec fn reward_map(jurors: Map<u64, JurorInfo>, majority: Seq<Address>, share: int) -> Map<u64, JurorInfo> {
    Map::new(
        |j: u64| jurors.contains_key(j),
        |j: u64|
            if majority.contains(j) {
                JurorInfo { staked_amount: (jurors[j].staked_amount + share) as i128, ..jurors[j] }
            } else {
                jurors[j]
            },
    )
}

/// Shares a positive pool equally among the majority; the remainder stays in the pool.
pub open spec fn spec_reward(jurors: Map<u64, JurorInfo>, pool: int, majority: Seq<Address>) -> (
    Map<u64, JurorInfo>,
    int,
) {
    let count = majority.len() as int;
    if count == 0 {
        (jurors, pool)
    } else if pool > 0 {
        (reward_map(jurors, majority, pool / count), pool % count)
    } else {
        (jurors, pool)
    }
}

/// What settling a jury keeps: the registered accounts, everyone outside
/// the jury, a majority drawn from the jury, and a pool that grows by at
/// most one penalty per juror.
pub proof fn lemma_settle_fold(
    jurors: Map<u64, JurorInfo>,
    pool: int,
    votes: Map<u128, VoteCommitment>,
    d: u64,
    resolution: DisputeResolution,
    js: Seq<Address>,
)
    requires
        js.no_duplicates(),
        forall|x: Address| #[trigger] js.contains(x) ==> jurors.contains_key(x) && jurors[x].staked_amount >= 0,
    ensures
        ({
            let r = settle_fold(jurors, pool, votes, d, resolution, js);
            &&& forall|x: u64| #[trigger] r.0.contains_key(x) <==> jurors.contains_key(x)
            &&& forall|x: u64| #[trigger] jurors.contains_key(x) && !js.contains(x) ==> r.0[x] == jurors[x]
            &&& forall|x: u64| #[trigger] js.contains(x) ==> r.0[x].staked_amount >= 0 && r.0[x].address
                == jurors[x].address && r.0[x].staked_amount <= jurors[x].staked_amount
            &&& r.2.no_duplicates()
            &&& forall|x: Address| #[trigger] r.2.contains(x) ==> js.contains(x)
            &&& pool <= r.1 <= pool + js.len() * slash_penalty()
        }),
    decreases js.len(),
{
    if js.len() > 0 {
        let js0 = js.drop_last();
        let j = js.last();
        assert forall|a: int, b: int| 0 <= a < js0.len() && 0 <= b < js0.len() && a != b implies js0[a]
            != js0[b] by {
            assert(js0[a] == js[a]);
            assert(js0[b] == js[b]);
        }
        assert forall|x: Address| #[trigger] js0.contains(x) implies jurors.contains_key(x)
            && jurors[x].staked_amount >= 0 by {
            let k = choose|k: int| 0 <= k < js0.len() && js0[k] == x;
            assert(js[k] == x);
            assert(js.contains(x));
        }
        lemma_settle_fold(jurors, pool, votes, d, resolution, js0);
        assert(!js0.contains(j)) by {
            if js0.contains(j) {
                let k = choose|k: int| 0 <= k < js0.len() && js0[k] == j;
                assert(js[k] == js[js.len() - 1]);
            }
        }
        assert(js.contains(j)) by {
            assert(js[js.len() - 1] == j);
        }
        let r0 = settle_fold(jurors, pool, votes, d, resolution, js0);
        let r = settle_fold(jurors, pool, votes, d, resolution, js);
        assert(r0.0[j] == jurors[j]);
        assert forall|x: u64| #[trigger] jurors.contains_key(x) && !js.contains(x) implies r.0[x] == jurors[x] by {
            assert(!js0.contains(x)) by {
                if js0.contains(x) {
                    let k = choose|k: int| 0 <= k < js0.len() && js0[k] == x;
                    assert(js[k] == x);
                }
            }
            assert(x != j);
        }
        assert forall|x: u64| #[trigger] js.contains(x) implies r.0[x].staked_amount >= 0 && r.0[x].address
            == jurors[x].address && r.0[x].staked_amount <= jurors[x].staked_amount by {
            if x != j {
                let k = choose|k: int| 0 <= k < js.len() && js[k] == x;
                assert(k != js.len() - 1);
                assert(js0[k] == x);
            }
        }
        assert forall|x: Address| #[trigger] r.2.contains(x) implies js.contains(x) by {
            if r0.2.contains(x) {
                let k = choose|k: int| 0 <= k < js0.len() && js0[k] == x;
                assert(js[k] == x);
            } else {
                assert(x == j);
            }
        }
        if is_majority(votes, d, j, resolution) {
            assert(!r0.2.contains(j));
            assert forall|a: int, b: int| 0 <= a < r.2.len() && 0 <= b < r.2.len() && a != b implies r.2[a]
                != r.2[b] by {
                if a == r0.2.len() {
                    assert(r0.2.contains(r.2[b]));
                } else if b == r0.2.len() {
                    assert(r0.2.contains(r.2[a]));
                }
            }
        }
        assert(js0.len() * slash_penalty() + slash_penalty() == js.len() * slash_penalty()) by (nonlinear_arith)
            requires js0.len() + 1 == js.len();
    }
}

impl EscrowState {
    /// Whether tallying dispute `d` stays within machine arithmetic: each
    /// registered juror of its jury has an active dispute to close, room in
    /// its vote counters, and room for the largest possible reward, and the
    /// pool has room for a penalty from every juror.
    pub open spec fn tally_in_bounds(self, d: u64) -> bool {
        self.assignments.contains_key(d) ==> {
            &&& self.fee_pool + self.assignments[d].len() * slash_penalty() <= i128::MAX
            &&& forall|j: u64| #[trigger]
                self.jurors.contains_key(j) && self.assignments[d].contains(j) ==> {
                    &&& self.jurors[j].active_disputes >= 1
                    &&& self.jurors[j].successful_votes < u32::MAX
                    &&& self.jurors[j].missed_votes < u32::MAX
                    &&& self.jurors[j].staked_amount + self.fee_pool + self.assignments[d].len() * slash_penalty()
                        <= i128::MAX
                }
        }
    }

    /// Whether tallying dispute `d` at `now` reaches its jurors: the dispute
    /// is in its voting round, the reveal phase is over, and it has a jury.
    pub open spec fn tally_settles(self, d: u64, now: u64) -> bool {
        &&& self.disputes.contains_key(d)
        &&& self.disputes[d].status == DisputeStatus::Voting
        &&& now > self.disputes[d].created_at + VOTING_COMMIT_PERIOD + VOTING_REVEAL_PERIOD
        &&& self.assignments.contains_key(d)
    }

    /// The dispute as resolved by the tally of its jury's votes.
    pub open spec fn resolved_dispute(self, d: u64, now: u64) -> Dispute {
        let acc = tally_fold(self.votes, d, self.assignments[d]);
        Dispute {
            resolution: tally_resolution(acc),
            resolution_payload: acc.payload,
            status: DisputeStatus::Resolved,
            created_at: now,
            ..self.disputes[d]
        }
    }

    /// Outcome of tallying a dispute after its reveal phase: settle every
    /// juror, share the pool among the majority, record the resolution, and
    /// enforce it at once when no appeal remains.
    pub open spec fn spec_tally_votes(self, d: u64, now: u64) -> (EscrowState, Result<(), Error>) {
        if !self.disputes.contains_key(d) {
            (self, Err(Error::DispNF))
        } else if self.disputes[d].status != DisputeStatus::Voting {
            (self, Err(Error::VoteNA))
        } else if now <= self.disputes[d].created_at + VOTING_COMMIT_PERIOD + VOTING_REVEAL_PERIOD {
            (self, Err(Error::VoteNA))
        } else if !self.assignments.contains_key(d) {
            (self, Err(Error::NotFound))
        } else if exists|j: u64| #[trigger]
            self.assignments[d].contains(j) && !self.jurors.contains_key(j) {
            (self, Err(Error::NotJuror))
        } else {
            let js = self.assignments[d];
            let resolved = self.resolved_dispute(d, now);
            let resolution = resolved.resolution;
            let settled = settle_fold(self.jurors, self.fee_pool as int, self.votes, d, resolution, js);
            let rewarded = spec_reward(settled.0, settled.1, settled.2);
            let s1 = EscrowState {
                jurors: rewarded.0,
                fee_pool: rewarded.1 as i128,
                disputes: self.disputes.insert(d, resolved),
                events: (self.events + settle_events(self.jurors, self.fee_pool as int, self.votes, d, resolution, js)).push(
                    EscrowEvent::DisputeResolved { dispute_id: d, resolution },
                ),
                ..self
            };
            if resolved.appeal_count >= MAX_APPEALS {
                let fin = Dispute { status: DisputeStatus::FinalResolved, ..resolved };
                let s2 = EscrowState { disputes: s1.disputes.insert(d, fin), ..s1 };
                let (s3, r) = s2.spec_enforce(fin, resolution);
                match r {
                    Err(e) => (self, Err(e)),
                    Ok(_) => (
                        EscrowState {
                            events: s3.events.push(EscrowEvent::AppealResolved { dispute_id: d, resolution }),
                            ..s3
                        },
                        Ok(()),
                    ),
                }
            } else {
                (s1, Ok(()))
            }
        }
    }
}

/// Position of a resolution among the vote counters.
fn res_idx(r: DisputeResolution) -> (i: usize)
    ensures
        i as int == res_index(r),
{
    match r {
        DisputeResolution::RelFunds => 0,
        DisputeResolution::RefBackers => 1,
        DisputeResolution::PartRel => 2,
        DisputeResolution::NoRes => 3,
    }
}

impl EscrowContract {
    /// Counts the revealed votes of a jury (see `tally_fold`); returns the
    /// leading resolution and its payload.
    pub(crate) fn count_votes(&self, d: u64, js: &Vec<Address>) -> (r: (DisputeResolution, u32))
        requires
            js@.len() <= APPEAL_JURY_SIZE,
        ensures
            r.0 == tally_fold(self@.votes, d, js@).winning,
            r.1 == tally_fold(self@.votes, d, js@).payload,
    {
        let mut counts: Vec<u32> = Vec::new();
        counts.push(0);
        counts.push(0);
        counts.push(0);
        counts.push(0);
        let mut max_votes: u32 = 0;
        let mut winning = DisputeResolution::NoRes;
        let mut payload: u32 = 0;
        let mut i: usize = 0;
        proof {
            assert(js@.take(0) =~= Seq::<Address>::empty());
        }
        while i < js.len()
            invariant
                i <= js.len(),
                js@.len() <= APPEAL_JURY_SIZE,
                counts@.len() == 4,
                ({
                    let acc = tally_fold(self@.votes, d, js@.take(i as int));
                    &&& acc.counts.len() == 4
                    &&& forall|k: int| 0 <= k < 4 ==> counts@[k] as int == acc.counts[k] && acc.counts[k] <= i
                    &&& max_votes as int == acc.max_votes
                    &&& acc.max_votes <= i
                    &&& winning == acc.winning
                    &&& payload == acc.payload
                }),
            decreases js.len() - i,
        {
            let j = js[i];
            proof {
                assert(js@.take(i + 1).drop_last() =~= js@.take(i as int));
                assert(js@.take(i + 1).last() == j);
            }
            match self.dispute_votes.get(&make_pair_key(d, j)) {
                Some(c) => {
                    if c.revealed {
                        let k = res_idx(c.vote);
                        let n = counts[k] + 1;
                        counts.set(k, n);
                        if n > max_votes {
                            max_votes = n;
                            winning = c.vote;
                            payload = c.vote_payload;
                        }
                    }
                },
                None => {},
            }
            i = i + 1;
        }
        proof {
            assert(js@.take(js.len() as int) =~= js@);
        }
        (winning, payload)
    }

    /// Whether every member of `js` is a registered juror.
    fn all_registered(&self, js: &Vec<Address>) -> (r: bool)
        ensures
            r == (forall|j: u64| #[trigger] js@.contains(j) ==> self@.jurors.contains_key(j)),
    {
        let mut i: usize = 0;
        while i < js.len()
            invariant
                i <= js.len(),
                forall|k: int| 0 <= k < i ==> self@.jurors.contains_key(#[trigger] js@[k]),
            decreases js.len() - i,
        {
            if !self.jurors.contains_key(&js[i]) {
                assert(js@.contains(js@[i as int]));
                return false;
            }
            i = i + 1;
        }
        assert forall|j: u64| #[trigger] js@.contains(j) implies self@.jurors.contains_key(j) by {
            let k = choose|k: int| 0 <= k < js@.len() && js@[k] == j;
        }
        true
    }

    /// Settles every juror of `js` (see `settle_fold`); returns the majority.
    fn settle_jurors(&mut self, d: u64, js: &Vec<Address>, resolution: DisputeResolution) -> (majority: Vec<Address>)
        requires
            old(self).wf(),
            old(self)@.assignments.contains_key(d),
            js@ == old(self)@.assignments[d],
            forall|j: u64| #[trigger] js@.contains(j) ==> old(self)@.jurors.contains_key(j),
            old(self)@.tally_in_bounds(d),
        ensures
            ({
                let r = settle_fold(old(self)@.jurors, old(self)@.fee_pool as int, old(self)@.votes, d, resolution, js@);
                let ev = settle_events(old(self)@.jurors, old(self)@.fee_pool as int, old(self)@.votes, d, resolution, js@);
                &&& final(self)@ == (EscrowState {
                    jurors: r.0,
                    fee_pool: r.1 as i128,
                    events: old(self)@.events + ev,
                    ..old(self)@
                })
                &&& majority@ == r.2
            }),
    {
        let ghost old_state = self@;
        let ghost jurors0 = old_state.jurors;
        let ghost pool0 = old_state.fee_pool as int;
        let ghost votes = old_state.votes;
        let mut majority: Vec<Address> = Vec::new();
        let mut i: usize = 0;
        proof {
            assert(js@.take(0) =~= Seq::<Address>::empty());
            assert(old_state.assignments_wf());
            assert(old_state.events + Seq::<EscrowEvent>::empty() =~= old_state.events);
        }
        while i < js.len()
            invariant
                i <= js.len(),
                js@ == old_state.assignments[d],
                js@.no_duplicates(),
                js@.len() <= APPEAL_JURY_SIZE,
                jurors0 == old_state.jurors,
                pool0 == old_state.fee_pool as int,
                votes == old_state.votes,
                forall|j: u64| #[trigger] js@.contains(j) ==> jurors0.contains_key(j),
                old_state.juror_wf(),
                old_state.tally_in_bounds(d),
                old_state.assignments.contains_key(d),
                ({
                    let r = settle_fold(jurors0, pool0, votes, d, resolution, js@.take(i as int));
                    let ev = settle_events(jurors0, pool0, votes, d, resolution, js@.take(i as int));
                    &&& self@ == (EscrowState {
                        jurors: r.0,
                        fee_pool: r.1 as i128,
                        events: old_state.events + ev,
                        ..old_state
                    })
                    &&& majority@ == r.2
                    &&& pool0 <= r.1 <= pool0 + i * slash_penalty()
                }),
            decreases js.len() - i,
        {
            let j = js[i];
            let ghost pre = js@.take(i as int);
            proof {
                assert(js@.take(i + 1).drop_last() =~= pre);
                assert(js@.take(i + 1).last() == j);
                assert forall|a: int, b: int| 0 <= a < pre.len() && 0 <= b < pre.len() && a != b implies pre[a]
                    != pre[b] by {
                    assert(pre[a] == js@[a]);
                    assert(pre[b] == js@[b]);
                }
                assert forall|x: Address| #[trigger] pre.contains(x) implies jurors0.contains_key(x)
                    && jurors0[x].staked_amount >= 0 by {
                    let k = choose|k: int| 0 <= k < pre.len() && pre[k] == x;
                    assert(js@[k] == x);
                    assert(js@.contains(x));
                    assert(jurors0.contains_key(x));
                    assert(old_state.jurors.contains_key(x));
                }
                lemma_settle_fold(jurors0, pool0, votes, d, resolution, pre);
                assert(js@.contains(j)) by {
                    assert(js@[i as int] == j);
                }
                assert(!pre.contains(j)) by {
                    if pre.contains(j) {
                        let k = choose|k: int| 0 <= k < pre.len() && pre[k] == j;
                        assert(js@[k] == js@[i as int]);
                    }
                }
                assert(jurors0.contains_key(j));
                assert(old_state.tally_in_bounds(d));
                assert(old_state.jurors.contains_key(j) && old_state.assignments[d].contains(j));
                assert(self@.jurors[j] == jurors0[j]);
                assert(i * slash_penalty() <= js@.len() * slash_penalty()) by (nonlinear_arith)
                    requires i <= js@.len(), slash_penalty() >= 0;
            }
            let mut info = *self.jurors.get(&j).unwrap();
            let ghost info0 = info;
            let key = make_pair_key(d, j);
            let majority_vote = match self.dispute_votes.get(&key) {
                Some(c) => c.revealed && c.vote == resolution,
                None => false,
            };
            if majority_vote {
                majority.push(j);
                info.successful_votes = info.successful_votes + 1;
                info.active_disputes = info.active_disputes - 1;
                self.jurors.insert(j, info);
            } else {
                info.missed_votes = info.missed_votes + 1;
                info.active_disputes = info.active_disputes - 1;
                let penalty: i128 = MIN_JUROR_STAKE / 10;
                let slashed = if info.staked_amount < penalty {
                    info.staked_amount
                } else {
                    penalty
                };
                info.staked_amount = info.staked_amount - slashed;
                self.jurors.insert(j, info);
                self.dispute_fee_pool = self.dispute_fee_pool + slashed;
                self.events.push(EscrowEvent::JurorSlashed { juror: j, slashed });
            }
            proof {
                let r = settle_fold(jurors0, pool0, votes, d, resolution, js@.take(i + 1));
                assert((i + 1) * slash_penalty() == i * slash_penalty() + slash_penalty()) by (nonlinear_arith);
                assert(majority@ == r.2);
                assert(pool0 <= r.1 <= pool0 + (i + 1) * slash_penalty());
                assert(self@.fee_pool == r.1);
                assert(self@.jurors =~= r.0);
                let ev = settle_events(jurors0, pool0, votes, d, resolution, js@.take(i + 1));
                let ev0 = settle_events(jurors0, pool0, votes, d, resolution, pre);
                if majority_vote {
                    assert(ev == ev0);
                } else {
                    assert(ev =~= ev0.push(EscrowEvent::JurorSlashed { juror: j, slashed: slash_amount(info0) as i128 }));
                }
                assert(self@.events =~= old_state.events + ev);
                assert(self@ =~= (EscrowState {
                    jurors: r.0,
                    fee_pool: r.1 as i128,
                    events: old_state.events + ev,
                    ..old_state
                }));
            }
            i = i + 1;
        }
        proof {
            assert(js@.take(js.len() as int) =~= js@);
        }
        majority
    }

    /// Shares a positive pool equally among `majority` (see `spec_reward`).
    fn reward_jurors(&mut self, majority: &Vec<Address>)
        requires
            majority@.no_duplicates(),
            forall|j: u64| #[trigger] majority@.contains(j) ==> old(self)@.jurors.contains_key(j) && old(self)@.jurors[j].staked_amount
                + old(self)@.fee_pool <= i128::MAX,
            old(self)@.fee_pool >= 0,
        ensures
            ({
                let r = spec_reward(old(self)@.jurors, old(self)@.fee_pool as int, majority@);
                final(self)@ == (EscrowState { jurors: r.0, fee_pool: r.1 as i128, ..old(self)@ })
            }),
    {
        let ghost old_state = self@;
        let count = majority.len() as i128;
        if count == 0 {
            assert(self@ =~= (EscrowState { jurors: old_state.jurors, fee_pool: old_state.fee_pool, ..old_state }));
            return;
        }
        let pool = self.dispute_fee_pool;
        if pool <= 0 {
            assert(self@ =~= (EscrowState { jurors: old_state.jurors, fee_pool: old_state.fee_pool, ..old_state }));
            return;
        }
        let share = pool / count;
        proof {
            assert(0 <= share <= pool) by (nonlinear_arith)
                requires pool > 0, count >= 1, share == pool / count;
        }
        let ghost target = majority@;
        let mut i: usize = 0;
        while i < majority.len()
            invariant
                i <= majority.len(),
                majority@ == target,
                target.no_duplicates(),
                forall|j: u64| #[trigger] target.contains(j) ==> old_state.jurors.contains_key(j) && old_state.jurors[j].staked_amount
                    + old_state.fee_pool <= i128::MAX,
                0 <= share <= pool,
                pool == old_state.fee_pool,
                self@ == (EscrowState { jurors: reward_map(old_state.jurors, target.take(i as int), share as int), ..old_state }),
            decreases majority.len() - i,
        {
            let j = majority[i];
            assert(target.contains(j));
            assert(!target.take(i as int).contains(j)) by {
                if target.take(i as int).contains(j) {
                    let q = choose|q: int| 0 <= q < i && #[trigger] target.take(i as int)[q] == j;
                    assert(target[q] == target[i as int]);
                }
            }
            let mut info = *self.jurors.get(&j).unwrap();
            info.staked_amount = info.staked_amount + share;
            self.jurors.insert(j, info);
            proof {
                assert forall|x: u64| #[trigger] target.take(i + 1).contains(x) <==> (target.take(
                    i as int,
                ).contains(x) || x == j) by {
                    if target.take(i + 1).contains(x) {
                        let q = choose|q: int| 0 <= q < i + 1 && #[trigger] target.take(i + 1)[q] == x;
                        if q < i {
                            assert(target.take(i as int)[q] == x);
                        }
                    }
                    if target.take(i as int).contains(x) {
                        let q = choose|q: int| 0 <= q < i && #[trigger] target.take(i as int)[q] == x;
                        assert(target.take(i + 1)[q] == x);
                    }
                    if x == j {
                        assert(target.take(i + 1)[i as int] == x);
                    }
                }
                assert(self@.jurors =~= reward_map(old_state.jurors, target.take(i + 1), share as int));
                assert(self@ =~= (EscrowState {
                    jurors: reward_map(old_state.jurors, target.take(i + 1), share as int),
                    ..old_state
                }));
            }
            i = i + 1;
        }
        proof {
            assert(target.take(target.len() as int) =~= target);
        }
        self.dispute_fee_pool = pool % count;
        proof {
            let r = spec_reward(old_state.jurors, old_state.fee_pool as int, target);
            assert(self@ =~= (EscrowState { jurors: r.0, fee_pool: r.1 as i128, ..old_state }));
        }
    }
    /// Tallies a dispute once its reveal phase is over: counts the revealed
    /// votes, settles and rewards the jury, records the resolution, and
    /// enforces it when no appeal remains (see `EscrowState::spec_tally_votes`).
    pub fn tally_votes(&mut self, dispute_id: u64, now: Timestamp) -> (result: Result<(), Error>)
        requires
            old(self).wf(),
            old(self)@.tally_settles(dispute_id, now) ==> old(self)@.tally_in_bounds(dispute_id)
                && old(self)@.enforce_in_bounds(
                old(self)@.resolved_dispute(dispute_id, now),
                old(self)@.resolved_dispute(dispute_id, now).resolution,
            ),
        ensures
            final(self).wf(),
            (final(self)@, result) == old(self)@.spec_tally_votes(dispute_id, now),
    {
        let ghost s0 = self@;
        let dispute = match self.get_dispute(dispute_id) {
            Ok(d) => d,
            Err(e) => return Err(e),
        };
        if dispute.status != DisputeStatus::Voting {
            return Err(Error::VoteNA);
        }
        let periods: u64 = VOTING_COMMIT_PERIOD + VOTING_REVEAL_PERIOD;
        if now <= dispute.created_at || now - dispute.created_at <= periods {
            return Err(Error::VoteNA);
        }
        let js = match self.get_juror_assignments(dispute_id) {
            Ok(v) => v,
            Err(e) => return Err(e),
        };
        if !self.all_registered(&js) {
            proof {
                let j = choose|j: u64| #[trigger] js@.contains(j) && !s0.jurors.contains_key(j);
                assert(s0.assignments[dispute_id].contains(j) && !s0.jurors.contains_key(j));
            }
            return Err(Error::NotJuror);
        }
        proof {
            assert(s0.assignments_wf());
            assert(s0.assignments.contains_key(dispute_id));
            assert(!(exists|j: u64| #[trigger] s0.assignments[dispute_id].contains(j) && !s0.jurors.contains_key(j)));
        }
        let (winning, payload) = self.count_votes(dispute_id, &js);
        let resolution = match winning {
            DisputeResolution::NoRes => DisputeResolution::RefBackers,
            other => other,
        };
        let resolved = Dispute {
            resolution,
            resolution_payload: payload,
            status: DisputeStatus::Resolved,
            created_at: now,
            ..dispute
        };
        assert(resolved == s0.resolved_dispute(dispute_id, now));
        let final_round = resolved.appeal_count >= MAX_APPEALS;
        let fin = Dispute { status: DisputeStatus::FinalResolved, ..resolved };
        if final_round {
            if let Some(e) = self.enforce_check(&fin, resolution) {
                return Err(e);
            }
        }
        let majority = self.settle_jurors(dispute_id, &js, resolution);
        proof {
            lemma_settle_fold(s0.jurors, s0.fee_pool as int, s0.votes, dispute_id, resolution, js@);
            assert forall|j: u64| #[trigger] majority@.contains(j) implies self@.jurors.contains_key(j)
                && self@.jurors[j].staked_amount + self@.fee_pool <= i128::MAX by {
                assert(js@.contains(j));
                assert(s0.jurors.contains_key(j) && s0.assignments[dispute_id].contains(j));
            }
        }
        self.reward_jurors(&majority);
        let ghost s1 = self@;
        self.disputes.insert(dispute_id, resolved);
        self.events.push(EscrowEvent::DisputeResolved { dispute_id, resolution });
        proof {
            let settled = settle_fold(s0.jurors, s0.fee_pool as int, s0.votes, dispute_id, resolution, js@);
            assert forall|j: u64| #[trigger] self@.jurors.contains_key(j) implies self@.jurors[j].address == j
                && self@.jurors[j].staked_amount >= 0 by {
                assert(settled.0.contains_key(j));
                assert(s0.jurors.contains_key(j));
                if js@.contains(j) {
                } else {
                    assert(settled.0[j] == s0.jurors[j]);
                }
            }
            assert forall|j: u64| #[trigger] self@.jurors.contains_key(j) <==> self@.active_jurors.contains(j) by {
                assert(settled.0.contains_key(j) <==> s0.jurors.contains_key(j));
                assert(s0.jurors.contains_key(j) <==> s0.active_jurors.contains(j));
            }
            assert(self@.fee_pool >= 0) by {
                let rewarded = spec_reward(settled.0, settled.1, settled.2);
                assert(majority@ == settled.2);
                assert(0 <= s0.fee_pool <= settled.1 <= i128::MAX);
                if majority@.len() > 0 && settled.1 > 0 {
                    let c = majority@.len() as int;
                    assert(0 <= settled.1 % c < c) by (nonlinear_arith)
                        requires c > 0;
                    assert(c == majority.len());
                }
                assert(0 <= rewarded.1 <= i128::MAX);
                assert(self@.fee_pool == rewarded.1);
            }
            assert forall|q: u64| #[trigger] self@.escrows.contains_key(q) implies escrow_ok(
                q,
                self@.escrows[q],
                self@.milestones[q],
            ) by {
                assert(s0.escrows.contains_key(q));
            }
            assert(self@.juror_wf());
            assert(self@.assignments_wf()) by {
                assert(self@.assignments == s0.assignments);
            }
        }
        if final_round {
            let ghost s2 = self@;
            self.disputes.insert(dispute_id, fin);
            proof {
                assert forall|q: u64| #[trigger] self@.escrows.contains_key(q) implies escrow_ok(
                    q,
                    self@.escrows[q],
                    self@.milestones[q],
                ) by {
                    assert(s0.escrows.contains_key(q));
                }
                assert(self@.juror_wf());
                assert(self@.assignments_wf());
            }
            let r = self.enforce_resolution(&fin, resolution);
            assert(r is Ok);
            self.events.push(EscrowEvent::AppealResolved { dispute_id, resolution });
        }
        Ok(())
    }
}

} // verus!
