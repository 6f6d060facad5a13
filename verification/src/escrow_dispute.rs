use vstd::prelude::*;
use crate::constants::{
    APPEAL_JURY_SIZE, JURY_SIZE, MIN_CONTRIBUTION, MIN_JUROR_STAKE, VOTING_COMMIT_PERIOD,
    VOTING_REVEAL_PERIOD,
};
use crate::errors::Error;
use crate::escrow::{escrow_ok, EscrowContract, EscrowState};
use crate::host::{sha256_digest, sha256_of};
use crate::maps::{make_pair_key, pair_key, vec_contains, vec_copy};
use crate::types::{
    spec_zero_hash, zero_hash, Address, Amount, Dispute, DisputeResolution, DisputeStatus, Effect, EscrowEvent, Hash32,
    JurorInfo, MilestoneStatus, Timestamp, VoteCommitment,
};
use soroban_sdk::Env;

verus! {

broadcast use vstd::std_specs::hash::group_hash_axioms, crate::maps::group_map_lemmas;

/// Removing one entry of a list without repetitions keeps it without
/// repetitions and drops exactly that entry.
pub proof fn lemma_remove_distinct<A>(s: Seq<A>, i: int)
    requires
        s.no_duplicates(),
        0 <= i < s.len(),
    ensures
        s.remove(i).no_duplicates(),
        forall|x: A| #[trigger] s.remove(i).contains(x) <==> (s.contains(x) && x != s[i]),
{
    let r = s.remove(i);
    s.remove_ensures(i);
    assert forall|a: int, b: int| 0 <= a < r.len() && 0 <= b < r.len() && a != b implies r[a] != r[b] by {
        let ia = if a < i { a } else { a + 1 };
        let ib = if b < i { b } else { b + 1 };
        assert(r[a] == s[ia]);
        assert(r[b] == s[ib]);
    }
    assert forall|x: A| #[trigger] r.contains(x) <==> (s.contains(x) && x != s[i]) by {
        if r.contains(x) {
            let k = choose|k: int| 0 <= k < r.len() && r[k] == x;
            let ik = if k < i { k } else { k + 1 };
            assert(s[ik] == x);
        }
        if s.contains(x) && x != s[i] {
            let k = choose|k: int| 0 <= k < s.len() && s[k] == x;
            if k < i {
                assert(r[k] == x);
            } else {
                assert(k != i);
                assert(r[k - 1] == x);
            }
        }
    }
}

/// Whether a juror may sit on a dispute: neither the project creator, nor the
/// party that opened it, nor a juror of an earlier round.
pub open spec fn eligible_juror(j: Address, creator: Address, initiator: Address, existing: Seq<Address>) -> bool {
    j != creator && j != initiator && !existing.contains(j)
}

/// Jury drawing: while the jury is short and candidates remain, the next
/// draw picks the candidate at `draw % candidates`; eligible picks join the
/// jury and every pick leaves the candidates.
pub open spec fn jury_draw(
    available: Seq<Address>,
    draws: Seq<u64>,
    size: int,
    creator: Address,
    initiator: Address,
    existing: Seq<Address>,
    selected: Seq<Address>,
) -> Seq<Address>
    decreases available.len(),
{
    if selected.len() >= size || available.len() == 0 || draws.len() == 0 {
        selected
    } else {
        let idx = (draws[0] as int) % (available.len() as int);
        let j = available[idx];
        let next = if eligible_juror(j, creator, initiator, existing) {
            selected.push(j)
        } else {
            selected
        };
        jury_draw(available.remove(idx), draws.skip(1), size, creator, initiator, existing, next)
    }
}

/// A drawn jury has no repetitions, only candidates or earlier picks, and
/// every new member is eligible.
pub proof fn lemma_jury_draw(
    available: Seq<Address>,
    draws: Seq<u64>,
    size: int,
    creator: Address,
    initiator: Address,
    existing: Seq<Address>,
    selected: Seq<Address>,
)
    requires
        available.no_duplicates(),
        selected.no_duplicates(),
        forall|x: Address| selected.contains(x) ==> !available.contains(x),
    ensures
        ({
            let r = jury_draw(available, draws, size, creator, initiator, existing, selected);
            &&& r.no_duplicates()
            &&& forall|x: Address| #[trigger] r.contains(x) ==> selected.contains(x) || available.contains(x)
            &&& forall|x: Address| #[trigger] r.contains(x) && !selected.contains(x) ==> eligible_juror(
                x,
                creator,
                initiator,
                existing,
            )
            &&& r.len() >= selected.len()
            &&& (selected.len() <= size ==> r.len() <= size)
            &&& selected.len() > size ==> r == selected
        }),
    decreases available.len(),
{
    if selected.len() >= size || available.len() == 0 || draws.len() == 0 {
    } else {
        let idx = (draws[0] as int) % (available.len() as int);
        let j = available[idx];
        let next = if eligible_juror(j, creator, initiator, existing) {
            selected.push(j)
        } else {
            selected
        };
        lemma_remove_distinct(available, idx);
        assert(available.contains(j));
        assert(!selected.contains(j));
        assert forall|x: Address| next.contains(x) implies !available.remove(idx).contains(x) by {
            if x != j {
                assert(selected.contains(x));
            }
        }
        if eligible_juror(j, creator, initiator, existing) {
            assert forall|a: int, b: int| 0 <= a < next.len() && 0 <= b < next.len() && a != b implies next[a]
                != next[b] by {
                if a == selected.len() {
                    assert(selected.contains(next[b]));
                } else if b == selected.len() {
                    assert(selected.contains(next[a]));
                }
            }
        }
        lemma_jury_draw(available.remove(idx), draws.skip(1), size, creator, initiator, existing, next);
        let r = jury_draw(available, draws, size, creator, initiator, existing, selected);
        assert forall|x: Address| #[trigger] r.contains(x) implies selected.contains(x) || available.contains(x) by {
            if next.contains(x) && !selected.contains(x) {
                assert(x == j);
            }
        }
        assert forall|x: Address| #[trigger] r.contains(x) && !selected.contains(x) implies eligible_juror(
            x,
            creator,
            initiator,
            existing,
        ) by {
            if next.contains(x) {
                assert(x == j);
            }
        }
    }
}

/// The jurors after each member of `jury` takes on one more active dispute.
pub open spec fn bump_active(jurors: Map<u64, JurorInfo>, jury: Seq<Address>) -> Map<u64, JurorInfo> {
    Map::new(
        |j: u64| jurors.contains_key(j),
        |j: u64|
            if jury.contains(j) {
                JurorInfo { active_disputes: (jurors[j].active_disputes + 1) as u32, ..jurors[j] }
            } else {
                jurors[j]
            },
    )
}

impl EscrowState {
    /// Assignment invariant: every recorded jury is drawn without repetition and is small.
    pub open spec fn assignments_wf(self) -> bool {
        forall|d: u64| #[trigger]
            self.assignments.contains_key(d) ==> self.assignments[d].no_duplicates()
                && self.assignments[d].len() <= APPEAL_JURY_SIZE
    }

    pub open spec fn spec_configure_dispute_token(self, token: Address) -> (EscrowState, Result<(), Error>) {
        if self.admin is None {
            (self, Err(Error::NotInit))
        } else {
            (EscrowState { juror_token: Some(token), ..self }, Ok(()))
        }
    }

    pub open spec fn spec_register_as_juror(self, juror: Address, stake: Amount) -> (
        EscrowState,
        Result<(), Error>,
    ) {
        if stake < MIN_JUROR_STAKE {
            (self, Err(Error::JurorStakeL))
        } else if self.jurors.contains_key(juror) {
            (self, Err(Error::JurorReg))
        } else if self.juror_token is None {
            (self, Err(Error::NotInit))
        } else {
            (
                EscrowState {
                    jurors: self.jurors.insert(
                        juror,
                        JurorInfo {
                            address: juror,
                            staked_amount: stake,
                            active_disputes: 0,
                            successful_votes: 0,
                            missed_votes: 0,
                        },
                    ),
                    active_jurors: self.active_jurors.push(juror),
                    effects: self.effects.push(
                        Effect::Transfer {
                            token: self.juror_token->0,
                            from: juror,
                            to: self.contract_address,
                            amount: stake,
                        },
                    ),
                    ..self
                },
                Ok(()),
            )
        }
    }

    pub open spec fn spec_deregister_as_juror(self, juror: Address) -> (EscrowState, Result<(), Error>) {
        if !self.jurors.contains_key(juror) {
            (self, Err(Error::NotJuror))
        } else if self.jurors[juror].active_disputes > 0 {
            (self, Err(Error::JurorAct))
        } else if self.juror_token is None {
            (self, Err(Error::NotInit))
        } else {
            (
                EscrowState {
                    jurors: self.jurors.remove(juror),
                    active_jurors: self.active_jurors.remove(self.active_jurors.index_of(juror)),
                    effects: self.effects.push(
                        Effect::Transfer {
                            token: self.juror_token->0,
                            from: self.contract_address,
                            to: juror,
                            amount: self.jurors[juror].staked_amount,
                        },
                    ),
                    ..self
                },
                Ok(()),
            )
        }
    }

    pub open spec fn spec_initiate_dispute(
        self,
        p: u64,
        m: u64,
        initiator: Address,
        initiator_contribution: Amount,
        now: Timestamp,
    ) -> (EscrowState, Result<u64, Error>) {
        if !self.escrows.contains_key(p) {
            (self, Err(Error::NotFound))
        } else if !self.has_milestone(p, m) {
            (self, Err(Error::NotFound))
        } else if self.milestone(p, m).status != MilestoneStatus::Rejected && self.milestone(p, m).status
            != MilestoneStatus::Submitted {
            (self, Err(Error::MstoneContest))
        } else if initiator != self.escrows[p].creator && initiator_contribution < MIN_CONTRIBUTION {
            (self, Err(Error::Unauthorized))
        } else {
            let id = self.next_dispute_id;
            (
                EscrowState {
                    disputes: self.disputes.insert(
                        id,
                        Dispute {
                            id,
                            milestone_id: m,
                            project_id: p,
                            initiator,
                            status: DisputeStatus::Pending,
                            created_at: now,
                            resolution: DisputeResolution::NoRes,
                            resolution_payload: 0,
                            appeal_count: 0,
                        },
                    ),
                    next_dispute_id: (id + 1) as u64,
                    ..self
                },
                Ok(id),
            )
        }
    }

    /// Jurors of earlier rounds, who may not sit again on this dispute.
    pub open spec fn earlier_jurors(self, d: u64, dispute: Dispute) -> Seq<Address> {
        if dispute.appeal_count > 0 && self.assignments.contains_key(d) {
            self.assignments[d]
        } else {
            Seq::empty()
        }
    }

    /// Size of the jury for a dispute in the given state.
    pub open spec fn jury_size(dispute: Dispute) -> int {
        if dispute.status == DisputeStatus::Appealed {
            APPEAL_JURY_SIZE as int
        } else {
            JURY_SIZE as int
        }
    }

    /// The jury drawn for `dispute` (stored under `d`) with the given draws.
    pub open spec fn drawn_jury(self, d: u64, dispute: Dispute, draws: Seq<u64>) -> Seq<Address> {
        jury_draw(
            self.active_jurors,
            draws,
            Self::jury_size(dispute),
            self.escrows[dispute.project_id].creator,
            dispute.initiator,
            self.earlier_jurors(d, dispute),
            Seq::empty(),
        )
    }

    /// Outcome of drawing a jury for `dispute`, which is stored under `d`.
    pub open spec fn select_jury_for(self, d: u64, dispute: Dispute, now: Timestamp, draws: Seq<u64>) -> (
        EscrowState,
        Result<(), Error>,
    ) {
        if dispute.status != DisputeStatus::Pending && dispute.status != DisputeStatus::Appealed {
            (self, Err(Error::InvInput))
        } else if self.active_jurors.len() < Self::jury_size(dispute) {
            (self, Err(Error::InvInput))
        } else if !self.escrows.contains_key(dispute.project_id) {
            (self, Err(Error::NotFound))
        } else {
            let jury = self.drawn_jury(d, dispute, draws);
            if jury.len() < Self::jury_size(dispute) {
                (self, Err(Error::ConflictInt))
            } else {
                (
                    EscrowState {
                        jurors: bump_active(self.jurors, jury),
                        assignments: self.assignments.insert(d, jury),
                        disputes: self.disputes.insert(
                            d,
                            Dispute { status: DisputeStatus::Voting, created_at: now, ..dispute },
                        ),
                        events: self.events.push(EscrowEvent::JurySelected { dispute_id: d }),
                        ..self
                    },
                    Ok(()),
                )
            }
        }
    }

    /// Whether every juror a successful draw for `dispute` picks can take
    /// one more active dispute.
    pub open spec fn jury_has_room(self, d: u64, dispute: Dispute, draws: Seq<u64>) -> bool {
        self.select_jury_for(d, dispute, 0, draws).1 is Ok ==> forall|j: u64| #[trigger]
            self.drawn_jury(d, dispute, draws).contains(j) && self.jurors.contains_key(j)
                ==> self.jurors[j].active_disputes < u32::MAX
    }

    pub open spec fn spec_select_jury(self, d: u64, now: Timestamp, draws: Seq<u64>) -> (
        EscrowState,
        Result<(), Error>,
    ) {
        if !self.disputes.contains_key(d) {
            (self, Err(Error::DispNF))
        } else {
            self.select_jury_for(d, self.disputes[d], now, draws)
        }
    }

    pub open spec fn spec_commit_vote(self, d: u64, juror: Address, commitment_hash: Hash32, now: Timestamp) -> (
        EscrowState,
        Result<(), Error>,
    ) {
        if !self.disputes.contains_key(d) {
            (self, Err(Error::DispNF))
        } else if self.disputes[d].status != DisputeStatus::Voting {
            (self, Err(Error::VoteNA))
        } else if now > self.disputes[d].created_at + VOTING_COMMIT_PERIOD {
            (self, Err(Error::VoteNA))
        } else if !self.assignments.contains_key(d) {
            (self, Err(Error::NotFound))
        } else if !self.assignments[d].contains(juror) {
            (self, Err(Error::NotJuror))
        } else if self.votes.contains_key(pair_key(d, juror)) {
            (self, Err(Error::AlreadyVoted))
        } else {
            (
                EscrowState {
                    votes: self.votes.insert(
                        pair_key(d, juror),
                        VoteCommitment {
                            hash: commitment_hash,
                            revealed: false,
                            vote: DisputeResolution::NoRes,
                            vote_payload: 0,
                        },
                    ),
                    events: self.events.push(EscrowEvent::VoteCommitted { dispute_id: d, juror }),
                    ..self
                },
                Ok(()),
            )
        }
    }

    /// Outcome of a reveal whose preimage hashes to `preimage_digest`.
    pub open spec fn spec_reveal_vote(
        self,
        d: u64,
        juror: Address,
        vote: DisputeResolution,
        payload: u32,
        preimage_digest: Seq<u8>,
        now: Timestamp,
    ) -> (EscrowState, Result<(), Error>) {
        if !self.disputes.contains_key(d) {
            (self, Err(Error::DispNF))
        } else {
            let commit_end = self.disputes[d].created_at + VOTING_COMMIT_PERIOD;
            let reveal_end = commit_end + VOTING_REVEAL_PERIOD;
            if now <= commit_end || now > reveal_end {
                (self, Err(Error::RevealNA))
            } else if !self.votes.contains_key(pair_key(d, juror)) {
                (self, Err(Error::NotFound))
            } else if self.votes[pair_key(d, juror)].revealed {
                (self, Err(Error::AlreadyVoted))
            } else if vote == DisputeResolution::NoRes {
                (self, Err(Error::InvInput))
            } else if self.votes[pair_key(d, juror)].hash@ != preimage_digest {
                (self, Err(Error::InvReveal))
            } else {
                (
                    EscrowState {
                        votes: self.votes.insert(
                            pair_key(d, juror),
                            VoteCommitment {
                                revealed: true,
                                vote,
                                vote_payload: payload,
                                ..self.votes[pair_key(d, juror)]
                            },
                        ),
                        events: self.events.push(EscrowEvent::VoteRevealed { dispute_id: d, juror }),
                        ..self
                    },
                    Ok(()),
                )
            }
        }
    }
}

/// Bytes whose SHA-256 a juror commits to: the vote's tag (0 release, 1
/// refund, 2 partial release followed by the payload in big-endian order),
/// then the salt. `None` for the no-resolution vote, which cannot be cast.
pub open spec fn spec_reveal_preimage(vote: DisputeResolution, payload: u32, salt: Seq<u8>) -> Option<Seq<u8>> {
    match vote {
        DisputeResolution::RelFunds => Some(seq![0u8] + salt),
        DisputeResolution::RefBackers => Some(seq![1u8] + salt),
        DisputeResolution::PartRel => Some(
            seq![
                2u8,
                (payload / 0x1000000) as u8,
                ((payload / 0x10000) % 0x100) as u8,
                ((payload / 0x100) % 0x100) as u8,
                (payload % 0x100) as u8,
            ] + salt,
        ),
        DisputeResolution::NoRes => None,
    }
}

/// The digest a reveal is checked against: that of the preimage, or the
/// zero digest for a vote that has none (such a reveal is refused anyway).
pub open spec fn reveal_digest(vote: DisputeResolution, payload: u32, salt: Seq<u8>) -> Seq<u8> {
    match spec_reveal_preimage(vote, payload, salt) {
        Some(bytes) => sha256_of(bytes),
        None => spec_zero_hash(),
    }
}

/// Builds the bytes a juror commits to (see `spec_reveal_preimage`).
pub fn reveal_preimage(vote: DisputeResolution, payload: u32, salt: &Vec<u8>) -> (r: Option<Vec<u8>>)
    ensures
        match spec_reveal_preimage(vote, payload, salt@) {
            Some(bytes) => r is Some && r->0@ == bytes,
            None => r is None,
        },
{
    let mut b: Vec<u8> = Vec::new();
    match vote {
        DisputeResolution::RelFunds => b.push(0u8),
        DisputeResolution::RefBackers => b.push(1u8),
        DisputeResolution::PartRel => {
            b.push(2u8);
            b.push((payload / 0x1000000) as u8);
            b.push(((payload / 0x10000) % 0x100) as u8);
            b.push(((payload / 0x100) % 0x100) as u8);
            b.push((payload % 0x100) as u8);
        },
        DisputeResolution::NoRes => return None,
    }
    let ghost prefix = b@;
    let mut i: usize = 0;
    while i < salt.len()
        invariant
            i <= salt.len(),
            b@ == prefix + salt@.take(i as int),
        decreases salt.len() - i,
    {
        b.push(salt[i]);
        i = i + 1;
        assert(b@ =~= prefix + salt@.take(i as int));
    }
    assert(salt@.take(salt.len() as int) =~= salt@);
    proof {
        match vote {
            DisputeResolution::PartRel => {
                assert(prefix =~= seq![
                    2u8,
                    (payload / 0x1000000) as u8,
                    ((payload / 0x10000) % 0x100) as u8,
                    ((payload / 0x100) % 0x100) as u8,
                    (payload % 0x100) as u8,
                ]);
            },
            DisputeResolution::RelFunds => {
                assert(prefix =~= seq![0u8]);
            },
            _ => {
                assert(prefix =~= seq![1u8]);
            },
        }
    }
    Some(b)
}

impl EscrowContract {
    /// The jury assigned to a dispute.
    pub fn get_juror_assignments(&self, dispute_id: u64) -> (r: Result<Vec<Address>, Error>)
        ensures
            self@.assignments.contains_key(dispute_id) ==> r is Ok && r->Ok_0@ == self@.assignments[dispute_id],
            !self@.assignments.contains_key(dispute_id) ==> r == Err::<Vec<Address>, Error>(Error::NotFound),
    {
        match self.juror_assignments.get(&dispute_id) {
            Some(v) => Ok(vec_copy(v)),
            None => Err(Error::NotFound),
        }
    }

    /// A dispute.
    pub fn get_dispute(&self, dispute_id: u64) -> (r: Result<Dispute, Error>)
        ensures
            self@.disputes.contains_key(dispute_id) ==> r == Ok::<Dispute, Error>(self@.disputes[dispute_id]),
            !self@.disputes.contains_key(dispute_id) ==> r == Err::<Dispute, Error>(Error::DispNF),
    {
        match self.disputes.get(&dispute_id) {
            Some(d) => Ok(*d),
            None => Err(Error::DispNF),
        }
    }

    /// A registered juror.
    pub fn get_juror(&self, juror: Address) -> (r: Result<JurorInfo, Error>)
        ensures
            self@.jurors.contains_key(juror) ==> r == Ok::<JurorInfo, Error>(self@.jurors[juror]),
            !self@.jurors.contains_key(juror) ==> r == Err::<JurorInfo, Error>(Error::NotJuror),
    {
        match self.jurors.get(&juror) {
            Some(j) => Ok(*j),
            None => Err(Error::NotJuror),
        }
    }

    /// Sets the token in which jurors stake (requires an admin to exist).
    pub fn configure_dispute_token(&mut self, token: Address) -> (result: Result<(), Error>)
        requires
            old(self).wf(),
        ensures
            final(self).wf(),
            (final(self)@, result) == old(self)@.spec_configure_dispute_token(token),
    {
        if self.admin.is_none() {
            return Err(Error::NotInit);
        }
        let ghost old_state = self@;
        self.juror_token = Some(token);
        proof {
            assert(self@ =~= old_state.spec_configure_dispute_token(token).0);
            assert forall|p: u64| #[trigger] self@.escrows.contains_key(p) implies escrow_ok(
                p,
                self@.escrows[p],
                self@.milestones[p],
            ) by {
                assert(old_state.escrows.contains_key(p));
            }
        }
        Ok(())
    }

    /// Registers a juror, who stakes `stake_amount` of the juror token.
    pub fn register_as_juror(&mut self, juror: Address, stake_amount: Amount) -> (result: Result<(), Error>)
        requires
            old(self).wf(),
        ensures
            final(self).wf(),
            (final(self)@, result) == old(self)@.spec_register_as_juror(juror, stake_amount),
    {
        if stake_amount < MIN_JUROR_STAKE {
            return Err(Error::JurorStakeL);
        }
        if self.jurors.contains_key(&juror) {
            return Err(Error::JurorReg);
        }
        let token = match self.juror_token {
            Some(t) => t,
            None => return Err(Error::NotInit),
        };
        let ghost old_state = self@;
        self.effects.push(Effect::Transfer { token, from: juror, to: self.contract_address, amount: stake_amount });
        self.jurors.insert(
            juror,
            JurorInfo {
                address: juror,
                staked_amount: stake_amount,
                active_disputes: 0,
                successful_votes: 0,
                missed_votes: 0,
            },
        );
        self.active_jurors.push(juror);
        proof {
            assert(self@ =~= old_state.spec_register_as_juror(juror, stake_amount).0);
            assert forall|p: u64| #[trigger] self@.escrows.contains_key(p) implies escrow_ok(
                p,
                self@.escrows[p],
                self@.milestones[p],
            ) by {
                assert(old_state.escrows.contains_key(p));
            }
            assert(!old_state.active_jurors.contains(juror));
            assert forall|a: int, b: int|
                0 <= a < self@.active_jurors.len() && 0 <= b < self@.active_jurors.len() && a != b implies
                self@.active_jurors[a] != self@.active_jurors[b] by {
                if a == old_state.active_jurors.len() {
                    assert(old_state.active_jurors.contains(self@.active_jurors[b]));
                } else if b == old_state.active_jurors.len() {
                    assert(old_state.active_jurors.contains(self@.active_jurors[a]));
                }
            }
            assert forall|j: u64| #[trigger] self@.jurors.contains_key(j) <==> self@.active_jurors.contains(j) by {
                if j != juror {
                    if self@.active_jurors.contains(j) {
                        let k = choose|k: int| 0 <= k < self@.active_jurors.len() && self@.active_jurors[k] == j;
                        assert(old_state.active_jurors[k] == j);
                    }
                    if old_state.active_jurors.contains(j) {
                        let k = choose|k: int| 0 <= k < old_state.active_jurors.len() && old_state.active_jurors[k] == j;
                        assert(self@.active_jurors[k] == j);
                    }
                } else {
                    assert(self@.active_jurors[old_state.active_jurors.len() as int] == j);
                }
            }
        }
        Ok(())
    }

    /// Deregisters a juror without active disputes and returns the stake.
    pub fn deregister_as_juror(&mut self, juror: Address) -> (result: Result<(), Error>)
        requires
            old(self).wf(),
        ensures
            final(self).wf(),
            (final(self)@, result) == old(self)@.spec_deregister_as_juror(juror),
    {
        let info = match self.get_juror(juror) {
            Ok(i) => i,
            Err(e) => return Err(e),
        };
        if info.active_disputes > 0 {
            return Err(Error::JurorAct);
        }
        let token = match self.juror_token {
            Some(t) => t,
            None => return Err(Error::NotInit),
        };
        let ghost old_state = self@;
        assert(old_state.active_jurors.contains(juror));
        self.effects.push(
            Effect::Transfer { token, from: self.contract_address, to: juror, amount: info.staked_amount },
        );
        self.jurors.remove(&juror);
        let mut i: usize = 0;
        while i < self.active_jurors.len() && self.active_jurors[i] != juror
            invariant
                i <= self.active_jurors.len(),
                self.active_jurors@ == old_state.active_jurors,
                old_state.active_jurors.contains(juror),
                forall|k: int| 0 <= k < i ==> self.active_jurors@[k] != juror,
            decreases self.active_jurors.len() - i,
        {
            i = i + 1;
        }
        proof {
            if i == self.active_jurors.len() {
                let k = choose|k: int| 0 <= k < old_state.active_jurors.len() && old_state.active_jurors[k] == juror;
                assert(false);
            }
            let c = old_state.active_jurors.index_of(juror);
            assert(old_state.active_jurors[c] == juror);
            assert(old_state.active_jurors[i as int] == juror);
            assert(old_state.active_jurors.no_duplicates());
            assert(c == i);
        }
        self.active_jurors.remove(i);
        proof {
            assert(self@ =~= old_state.spec_deregister_as_juror(juror).0);
            assert forall|p: u64| #[trigger] self@.escrows.contains_key(p) implies escrow_ok(
                p,
                self@.escrows[p],
                self@.milestones[p],
            ) by {
                assert(old_state.escrows.contains_key(p));
            }
            lemma_remove_distinct(old_state.active_jurors, i as int);
        }
        Ok(())
    }

    /// Whether the dispute counter has room for the dispute `initiate_dispute`
    /// would open (a refused call needs none).
    pub fn initiate_dispute_fits(
        &self,
        project_id: u64,
        milestone_id: u64,
        initiator: Address,
        initiator_contribution: Amount,
    ) -> (r: bool)
        requires
            self.wf(),
        ensures
            forall|now: Timestamp| #[trigger]
                self@.spec_initiate_dispute(project_id, milestone_id, initiator, initiator_contribution, now).1 is Ok
                    ==> (r == (self@.next_dispute_id < u64::MAX)),
            forall|now: Timestamp| #[trigger]
                self@.spec_initiate_dispute(project_id, milestone_id, initiator, initiator_contribution, now).1 is Err
                    ==> r,
    {
        let creator = match self.escrows.get(&project_id) {
            Some(e) => e.creator,
            None => return true,
        };
        let milestone = match self.get_milestone(project_id, milestone_id) {
            Ok(m) => m,
            Err(_) => return true,
        };
        if milestone.status != MilestoneStatus::Rejected && milestone.status != MilestoneStatus::Submitted {
            return true;
        }
        if initiator != creator && initiator_contribution < MIN_CONTRIBUTION {
            return true;
        }
        self.next_dispute_id < u64::MAX
    }

    /// Opens a dispute on a rejected or submitted milestone. A party other
    /// than the creator must have contributed at least the minimum;
    /// `initiator_contribution` is that party's contribution to the project
    /// and is only consulted when the initiator is not the creator.
    pub fn initiate_dispute(
        &mut self,
        project_id: u64,
        milestone_id: u64,
        initiator: Address,
        initiator_contribution: Amount,
        now: Timestamp,
    ) -> (result: Result<u64, Error>)
        requires
            old(self).wf(),
            old(self)@.spec_initiate_dispute(project_id, milestone_id, initiator, initiator_contribution, now).1 is Ok
                ==> old(self)@.next_dispute_id < u64::MAX,
        ensures
            final(self).wf(),
            (final(self)@, result) == old(self)@.spec_initiate_dispute(
                project_id,
                milestone_id,
                initiator,
                initiator_contribution,
                now,
            ),
    {
        let creator = match self.escrows.get(&project_id) {
            Some(e) => e.creator,
            None => return Err(Error::NotFound),
        };
        let milestone = match self.get_milestone(project_id, milestone_id) {
            Ok(m) => m,
            Err(e) => return Err(e),
        };
        if milestone.status != MilestoneStatus::Rejected && milestone.status != MilestoneStatus::Submitted {
            return Err(Error::MstoneContest);
        }
        if initiator != creator && initiator_contribution < MIN_CONTRIBUTION {
            return Err(Error::Unauthorized);
        }
        let ghost old_state = self@;
        let id = self.next_dispute_id;
        self.disputes.insert(
            id,
            Dispute {
                id,
                milestone_id,
                project_id,
                initiator,
                status: DisputeStatus::Pending,
                created_at: now,
                resolution: DisputeResolution::NoRes,
                resolution_payload: 0,
                appeal_count: 0,
            },
        );
        self.next_dispute_id = id + 1;
        proof {
            assert(self@ =~= old_state.spec_initiate_dispute(
                project_id,
                milestone_id,
                initiator,
                initiator_contribution,
                now,
            ).0);
            assert forall|p: u64| #[trigger] self@.escrows.contains_key(p) implies escrow_ok(
                p,
                self@.escrows[p],
                self@.milestones[p],
            ) by {
                assert(old_state.escrows.contains_key(p));
            }
        }
        Ok(id)
    }

    /// Draws a jury for `dispute`, stored under `dispute_id`, without changing anything.
    pub(crate) fn draw_jury(&self, dispute_id: u64, dispute: Dispute, draws: &Vec<u64>) -> (result: Result<
        Vec<Address>,
        Error,
    >)
        requires
            self.wf(),
        ensures
            result matches Ok(jury) ==> jury@ == self@.drawn_jury(dispute_id, dispute, draws@) && self@.select_jury_for(
                dispute_id,
                dispute,
                0,
                draws@,
            ).1 is Ok,
            result matches Err(e) ==> forall|t: Timestamp| #[trigger]
                self@.select_jury_for(dispute_id, dispute, t, draws@) == (self@, Err::<(), Error>(e)),
    {
        if dispute.status != DisputeStatus::Pending && dispute.status != DisputeStatus::Appealed {
            return Err(Error::InvInput);
        }
        let size: usize = if dispute.status == DisputeStatus::Appealed {
            APPEAL_JURY_SIZE as usize
        } else {
            JURY_SIZE as usize
        };
        if self.active_jurors.len() < size {
            return Err(Error::InvInput);
        }
        let creator = match self.escrows.get(&dispute.project_id) {
            Some(e) => e.creator,
            None => return Err(Error::NotFound),
        };
        let existing: Vec<Address> = if dispute.appeal_count > 0 {
            match self.juror_assignments.get(&dispute_id) {
                Some(v) => vec_copy(v),
                None => Vec::new(),
            }
        } else {
            Vec::new()
        };
        let ghost target = self@.drawn_jury(dispute_id, dispute, draws@);
        let mut available = vec_copy(&self.active_jurors);
        let mut selected: Vec<Address> = Vec::new();
        let mut k: usize = 0;
        proof {
            assert(draws@.skip(0) =~= draws@);
            assert(existing@ == self@.earlier_jurors(dispute_id, dispute));
        }
        while selected.len() < size && available.len() > 0 && k < draws.len()
            invariant
                k <= draws@.len(),
                size as int == EscrowState::jury_size(dispute),
                jury_draw(
                    available@,
                    draws@.skip(k as int),
                    size as int,
                    creator,
                    dispute.initiator,
                    existing@,
                    selected@,
                ) == target,
            decreases available.len(),
        {
            let idx = (draws[k] % (available.len() as u64)) as usize;
            let j = available.remove(idx);
            if j != creator && j != dispute.initiator && !vec_contains(&existing, j) {
                selected.push(j);
            }
            proof {
                assert(draws@.skip(k as int)[0] == draws@[k as int]);
                assert(draws@.skip(k as int).skip(1) =~= draws@.skip(k + 1));
            }
            k = k + 1;
        }
        assert(selected@ == target);
        if selected.len() < size {
            return Err(Error::ConflictInt);
        }
        Ok(selected)
    }

    /// Installs a jury drawn by `draw_jury` and opens voting at `now`.
    pub(crate) fn apply_jury(&mut self, dispute_id: u64, dispute: Dispute, now: Timestamp, jury: Vec<Address>, Ghost(
        draws,
    ): Ghost<Seq<u64>>)
        requires
            old(self).wf(),
            jury@ == old(self)@.drawn_jury(dispute_id, dispute, draws),
            old(self)@.select_jury_for(dispute_id, dispute, 0, draws).1 is Ok,
            old(self)@.jury_has_room(dispute_id, dispute, draws),
        ensures
            final(self).wf(),
            (final(self)@, Ok::<(), Error>(())) == old(self)@.select_jury_for(dispute_id, dispute, now, draws),
    {
        let ghost old_state = self@;
        let ghost target = jury@;
        let ghost size: int = EscrowState::jury_size(dispute);
        proof {
            lemma_jury_draw(
                old_state.active_jurors,
                draws,
                size,
                old_state.escrows[dispute.project_id].creator,
                dispute.initiator,
                old_state.earlier_jurors(dispute_id, dispute),
                Seq::empty(),
            );
        }
        let mut i: usize = 0;
        while i < jury.len()
            invariant
                i <= jury.len(),
                jury@ == target,
                target.no_duplicates(),
                forall|x: Address| #[trigger] target.contains(x) ==> old_state.active_jurors.contains(x),
                old_state.juror_wf(),
                forall|j: u64| #[trigger]
                    target.contains(j) && old_state.jurors.contains_key(j) ==> old_state.jurors[j].active_disputes
                        < u32::MAX,
                self@ == (EscrowState { jurors: bump_active(old_state.jurors, target.take(i as int)), ..old_state }),
            decreases jury.len() - i,
        {
            let j = jury[i];
            assert(target.contains(j));
            assert(old_state.jurors.contains_key(j));
            assert(!target.take(i as int).contains(j)) by {
                if target.take(i as int).contains(j) {
                    let q = choose|q: int| 0 <= q < i && #[trigger] target.take(i as int)[q] == j;
                    assert(target[q] == target[i as int]);
                }
            }
            let mut info = *self.jurors.get(&j).unwrap();
            info.active_disputes = info.active_disputes + 1;
            self.jurors.insert(j, info);
            proof {
                assert(target.take(i + 1) =~= target.take(i as int).push(j));
                assert forall|x: u64| #[trigger] target.take(i + 1).contains(x) <==> (target.take(
                    i as int,
                ).contains(x) || x == j) by {
                    if target.take(i + 1).contains(x) {
                        let q = choose|q: int| 0 <= q < i + 1 && #[trigger] target.take(i + 1)[q] == x;
                        if q < i {
                            assert(target.take(i as int)[q] == x);
                        }
                    }
                    if target.take(i as int).contains(x) {
                        let q = choose|q: int| 0 <= q < i && #[trigger] target.take(i as int)[q] == x;
                        assert(target.take(i + 1)[q] == x);
                    }
                    if x == j {
                        assert(target.take(i + 1)[i as int] == x);
                    }
                }
                assert(self@.jurors =~= bump_active(old_state.jurors, target.take(i + 1)));
                assert(self@ =~= (EscrowState {
                    jurors: bump_active(old_state.jurors, target.take(i + 1)),
                    ..old_state
                }));
            }
            i = i + 1;
        }
        proof {
            assert(target.take(target.len() as int) =~= target);
        }
        self.juror_assignments.insert(dispute_id, jury);
        self.disputes.insert(dispute_id, Dispute { status: DisputeStatus::Voting, created_at: now, ..dispute });
        self.events.push(EscrowEvent::JurySelected { dispute_id });
        proof {
            let expected = old_state.select_jury_for(dispute_id, dispute, now, draws).0;
            assert(self@.assignments =~= expected.assignments);
            assert(self@ =~= expected);
            assert forall|p: u64| #[trigger] self@.escrows.contains_key(p) implies escrow_ok(
                p,
                self@.escrows[p],
                self@.milestones[p],
            ) by {
                assert(old_state.escrows.contains_key(p));
            }
            assert forall|d: u64| #[trigger] self@.assignments.contains_key(d) implies self@.assignments[d].no_duplicates()
                && self@.assignments[d].len() <= APPEAL_JURY_SIZE by {
                if d != dispute_id {
                    assert(old_state.assignments.contains_key(d));
                }
            }
        }
    }

    /// Draws the jury for a pending or appealed dispute from the registered
    /// jurors, excluding the creator, the initiator and earlier jurors, and
    /// opens voting at `now`. `draws` are random numbers; the n-th pick is
    /// the candidate at `draws[n] % candidates`.
    pub fn select_jury(&mut self, dispute_id: u64, now: Timestamp, draws: &Vec<u64>) -> (result: Result<(), Error>)
        requires
            old(self).wf(),
            old(self)@.disputes.contains_key(dispute_id) ==> old(self)@.jury_has_room(
                dispute_id,
                old(self)@.disputes[dispute_id],
                draws@,
            ),
        ensures
            final(self).wf(),
            (final(self)@, result) == old(self)@.spec_select_jury(dispute_id, now, draws@),
    {
        let dispute = match self.get_dispute(dispute_id) {
            Ok(d) => d,
            Err(e) => return Err(e),
        };
        let jury = match self.draw_jury(dispute_id, dispute, draws) {
            Ok(j) => j,
            Err(e) => return Err(e),
        };
        self.apply_jury(dispute_id, dispute, now, jury, Ghost(draws@));
        Ok(())
    }

    /// Records a juror's blinded vote during the commit phase.
    pub fn commit_vote(&mut self, dispute_id: u64, juror: Address, commitment_hash: Hash32, now: Timestamp) -> (result:
        Result<(), Error>)
        requires
            old(self).wf(),
            old(self)@.disputes.contains_key(dispute_id) && old(self)@.disputes[dispute_id].status
                == DisputeStatus::Voting ==> old(self)@.disputes[dispute_id].created_at + VOTING_COMMIT_PERIOD
                <= u64::MAX,
        ensures
            final(self).wf(),
            (final(self)@, result) == old(self)@.spec_commit_vote(dispute_id, juror, commitment_hash, now),
    {
        let dispute = match self.get_dispute(dispute_id) {
            Ok(d) => d,
            Err(e) => return Err(e),
        };
        if dispute.status != DisputeStatus::Voting {
            return Err(Error::VoteNA);
        }
        if now > dispute.created_at + VOTING_COMMIT_PERIOD {
            return Err(Error::VoteNA);
        }
        match self.juror_assignments.get(&dispute_id) {
            Some(v) => {
                if !vec_contains(v, juror) {
                    return Err(Error::NotJuror);
                }
            },
            None => return Err(Error::NotFound),
        }
        let key = make_pair_key(dispute_id, juror);
        if self.dispute_votes.contains_key(&key) {
            return Err(Error::AlreadyVoted);
        }
        let ghost old_state = self@;
        self.dispute_votes.insert(
            key,
            VoteCommitment { hash: commitment_hash, revealed: false, vote: DisputeResolution::NoRes, vote_payload: 0 },
        );
        self.events.push(EscrowEvent::VoteCommitted { dispute_id, juror });
        proof {
            assert(self@ =~= old_state.spec_commit_vote(dispute_id, juror, commitment_hash, now).0);
            assert forall|p: u64| #[trigger] self@.escrows.contains_key(p) implies escrow_ok(
                p,
                self@.escrows[p],
                self@.milestones[p],
            ) by {
                assert(old_state.escrows.contains_key(p));
            }
        }
        Ok(())
    }

    /// Reveals a committed vote during the reveal phase: the reveal stands
    /// when the SHA-256 digest of `reveal_preimage(vote, payload, salt)`
    /// equals the committed hash.
    pub fn reveal_vote(
        &mut self,
        env: &Env,
        dispute_id: u64,
        juror: Address,
        vote: DisputeResolution,
        payload: u32,
        salt: &Vec<u8>,
        now: Timestamp,
    ) -> (result: Result<(), Error>)
        requires
            old(self).wf(),
            old(self)@.disputes.contains_key(dispute_id) ==> old(self)@.disputes[dispute_id].created_at
                + VOTING_COMMIT_PERIOD + VOTING_REVEAL_PERIOD <= u64::MAX,
        ensures
            final(self).wf(),
            (final(self)@, result) == old(self)@.spec_reveal_vote(
                dispute_id,
                juror,
                vote,
                payload,
                reveal_digest(vote, payload, salt@),
                now,
            ),
    {
        let digest = match reveal_preimage(vote, payload, salt) {
            Some(bytes) => sha256_digest(env, &bytes),
            None => zero_hash(),
        };
        self.reveal_vote_with_digest(dispute_id, juror, vote, payload, digest, now)
    }

    /// The part of `reveal_vote` after hashing: `preimage_digest` stands for
    /// the SHA-256 digest of `reveal_preimage(vote, payload, salt)`.
    pub fn reveal_vote_with_digest(
        &mut self,
        dispute_id: u64,
        juror: Address,
        vote: DisputeResolution,
        payload: u32,
        preimage_digest: Hash32,
        now: Timestamp,
    ) -> (result: Result<(), Error>)
        requires
            old(self).wf(),
            old(self)@.disputes.contains_key(dispute_id) ==> old(self)@.disputes[dispute_id].created_at
                + VOTING_COMMIT_PERIOD + VOTING_REVEAL_PERIOD <= u64::MAX,
        ensures
            final(self).wf(),
            (final(self)@, result) == old(self)@.spec_reveal_vote(
                dispute_id,
                juror,
                vote,
                payload,
                preimage_digest@,
                now,
            ),
    {
        let dispute = match self.get_dispute(dispute_id) {
            Ok(d) => d,
            Err(e) => return Err(e),
        };
        let commit_end = dispute.created_at + VOTING_COMMIT_PERIOD;
        let reveal_end = commit_end + VOTING_REVEAL_PERIOD;
        if now <= commit_end || now > reveal_end {
            return Err(Error::RevealNA);
        }
        let key = make_pair_key(dispute_id, juror);
        let commitment = match self.dispute_votes.get(&key) {
            Some(c) => *c,
            None => return Err(Error::NotFound),
        };
        if commitment.revealed {
            return Err(Error::AlreadyVoted);
        }
        if vote == DisputeResolution::NoRes {
            return Err(Error::InvInput);
        }
        if !crate::types::hash_eq(&commitment.hash, &preimage_digest) {
            return Err(Error::InvReveal);
        }
        let ghost old_state = self@;
        self.dispute_votes.insert(key, VoteCommitment { revealed: true, vote, vote_payload: payload, ..commitment });
        self.events.push(EscrowEvent::VoteRevealed { dispute_id, juror });
        proof {
            assert(self@ =~= old_state.spec_reveal_vote(dispute_id, juror, vote, payload, preimage_digest@, now).0);
            assert forall|p: u64| #[trigger] self@.escrows.contains_key(p) implies escrow_ok(
                p,
                self@.escrows[p],
                self@.milestones[p],
            ) by {
                assert(old_state.escrows.contains_key(p));
            }
        }
        Ok(())
    }
}

} // verus!
