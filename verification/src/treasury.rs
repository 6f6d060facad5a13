use vstd::prelude::*;
use std::collections::HashMap;
use crate::errors::Error;
use crate::maps::vec_contains;
use crate::types::{Address, Amount, Effect, Timestamp};

verus! {

broadcast use vstd::std_specs::hash::group_hash_axioms, crate::maps::group_map_lemmas;

/// Audit record of one withdrawal.
#[derive(Debug)]
pub struct WithdrawalRecord {
    pub id: u64,
    /// Governance proposal that authorised the withdrawal.
    pub proposal_id: u64,
    pub token: Address,
    pub recipient: Address,
    pub amount: Amount,
    /// Purpose of the withdrawal (a label or a content hash).
    pub memo: Vec<u8>,
    pub executed_at: Timestamp,
}

/// Mathematical view of a withdrawal record.
pub struct WithdrawalSpec {
    pub id: u64,
    pub proposal_id: u64,
    pub token: Address,
    pub recipient: Address,
    pub amount: Amount,
    pub memo: Seq<u8>,
    pub executed_at: Timestamp,
}

impl View for WithdrawalRecord {
    type V = WithdrawalSpec;

    open spec fn view(&self) -> WithdrawalSpec {
        WithdrawalSpec {
            id: self.id,
            proposal_id: self.proposal_id,
            token: self.token,
            recipient: self.recipient,
            amount: self.amount,
            memo: self.memo@,
            executed_at: self.executed_at,
        }
    }
}

/// What the treasury announces to observers, in the order it does.
#[derive(Clone, Copy, Debug, PartialEq, Eq)]
pub enum TreasuryEvent {
    AdminChanged { admin: Address, new_admin: Address },
    TokenAdded { token: Address },
    Deposited { depositor: Address, token: Address, amount: Amount },
    Withdrawn { withdrawal_id: u64, proposal_id: u64, token: Address, recipient: Address, amount: Amount },
}

/// Platform reserves: open deposits, withdrawals gated by governance
/// proposals (each usable once), and an audit record per withdrawal.
/// Token movements are queued as effects for the host to carry out.
pub struct TreasuryContract {
    pub contract_address: Address,
    pub admin: Option<Address>,
    pub supported_tokens: Option<Vec<Address>>,
    pub withdrawals: HashMap<u64, WithdrawalRecord>,
    pub next_withdrawal_id: u64,
    pub used_proposals: HashMap<u64, bool>,
    pub effects: Vec<Effect>,
    pub events: Vec<TreasuryEvent>,
}

/// Mathematical view of the treasury's storage.
#[verifier::ext_equal]
pub struct TreasuryState {
    pub contract_address: Address,
    pub admin: Option<Address>,
    pub supported_tokens: Option<Seq<Address>>,
    pub withdrawals: Map<u64, WithdrawalSpec>,
    pub next_withdrawal_id: u64,
    /// Proposals already spent on a withdrawal.
    pub used_proposals: Set<u64>,
    pub effects: Seq<Effect>,
    pub events: Seq<TreasuryEvent>,
}

impl View for TreasuryContract {
    type V = TreasuryState;

    closed spec fn view(&self) -> TreasuryState {
        TreasuryState {
            contract_address: self.contract_address,
            admin: self.admin,
            supported_tokens: match self.supported_tokens {
                Some(v) => Some(v@),
                None => None,
            },
            withdrawals: self.withdrawals@.map_values(|r: WithdrawalRecord| r@),
            next_withdrawal_id: self.next_withdrawal_id,
            used_proposals: self.used_proposals@.dom(),
            effects: self.effects@,
            events: self.events@,
        }
    }
}

impl TreasuryState {
    /// Admin and token list are set together; the audit trail holds one
    /// record per id below the counter, each for a spent proposal.
    pub open spec fn wf(self) -> bool {
        &&& (self.admin is Some <==> self.supported_tokens is Some)
        &&& (self.admin is None ==> self.withdrawals.dom() == Set::<u64>::empty())
        &&& forall|k: u64| #[trigger]
            self.withdrawals.contains_key(k) ==> k < self.next_withdrawal_id && self.withdrawals[k].id == k
                && self.used_proposals.contains(self.withdrawals[k].proposal_id)
    }

    /// The error a token check reports for `token`, if any.
    pub open spec fn token_fault(self, token: Address) -> Option<Error> {
        match self.supported_tokens {
            None => Some(Error::NotInit),
            Some(ts) => if ts.contains(token) {
                None
            } else {
                Some(Error::InvInput)
            },
        }
    }

    pub open spec fn spec_initialize(self, admin: Address, supported_tokens: Seq<Address>) -> (
        TreasuryState,
        Result<(), Error>,
    ) {
        if self.admin is Some {
            (self, Err(Error::AlreadyInit))
        } else if supported_tokens.len() == 0 {
            (self, Err(Error::InvInput))
        } else {
            (
                TreasuryState {
                    admin: Some(admin),
                    supported_tokens: Some(supported_tokens),
                    next_withdrawal_id: 0,
                    ..self
                },
                Ok(()),
            )
        }
    }

    pub open spec fn spec_set_admin(self, new_admin: Address) -> (TreasuryState, Result<(), Error>) {
        if self.admin is None {
            (self, Err(Error::NotInit))
        } else {
            (
                TreasuryState {
                    admin: Some(new_admin),
                    events: self.events.push(TreasuryEvent::AdminChanged { admin: self.admin->0, new_admin }),
                    ..self
                },
                Ok(()),
            )
        }
    }

    pub open spec fn spec_add_token(self, token: Address) -> (TreasuryState, Result<(), Error>) {
        if self.admin is None {
            (self, Err(Error::NotInit))
        } else {
            match self.supported_tokens {
                None => (self, Err(Error::NotInit)),
                Some(ts) => if ts.contains(token) {
                    (self, Ok(()))
                } else {
                    (
                        TreasuryState {
                            supported_tokens: Some(ts.push(token)),
                            events: self.events.push(TreasuryEvent::TokenAdded { token }),
                            ..self
                        },
                        Ok(()),
                    )
                },
            }
        }
    }

    pub open spec fn spec_deposit(self, depositor: Address, token: Address, amount: Amount) -> (
        TreasuryState,
        Result<(), Error>,
    ) {
        if amount <= 0 {
            (self, Err(Error::InvInput))
        } else {
            match self.token_fault(token) {
                Some(e) => (self, Err(e)),
                None => (
                    TreasuryState {
                        effects: self.effects.push(
                            Effect::Transfer { token, from: depositor, to: self.contract_address, amount },
                        ),
                        events: self.events.push(TreasuryEvent::Deposited { depositor, token, amount }),
                        ..self
                    },
                    Ok(()),
                ),
            }
        }
    }

    /// The error a withdrawal reports before the treasury's balance is
    /// consulted, if any.
    pub open spec fn withdraw_fault(
        self,
        caller: Address,
        proposal_id: u64,
        token: Address,
        amount: Amount,
        memo: Seq<u8>,
    ) -> Option<Error> {
        match self.admin {
            None => Some(Error::NotInit),
            Some(admin) => if caller != admin {
                Some(Error::Unauthorized)
            } else if amount <= 0 || memo.len() == 0 {
                Some(Error::InvInput)
            } else {
                match self.token_fault(token) {
                    Some(e) => Some(e),
                    None => if self.used_proposals.contains(proposal_id) {
                        Some(Error::PropExc)
                    } else {
                        None
                    },
                }
            },
        }
    }

    /// A withdrawal approved by proposal `proposal_id`, given the
    /// treasury's `balance` of `token`.
    pub open spec fn spec_withdraw(
        self,
        caller: Address,
        proposal_id: u64,
        token: Address,
        recipient: Address,
        amount: Amount,
        memo: Seq<u8>,
        now: Timestamp,
        balance: Amount,
    ) -> (TreasuryState, Result<u64, Error>) {
        match self.withdraw_fault(caller, proposal_id, token, amount, memo) {
            Some(e) => (self, Err(e)),
            None => if balance < amount {
                (self, Err(Error::InsufFunds))
            } else {
                let id = self.next_withdrawal_id;
                let rec = WithdrawalSpec { id, proposal_id, token, recipient, amount, memo, executed_at: now };
                (
                    TreasuryState {
                        used_proposals: self.used_proposals.insert(proposal_id),
                        withdrawals: self.withdrawals.insert(id, rec),
                        next_withdrawal_id: (id + 1) as u64,
                        effects: self.effects.push(
                            Effect::Transfer { token, from: self.contract_address, to: recipient, amount },
                        ),
                        events: self.events.push(
                            TreasuryEvent::Withdrawn { withdrawal_id: id, proposal_id, token, recipient, amount },
                        ),
                        ..self
                    },
                    Ok(id),
                )
            },
        }
    }
}

/// A copy of a byte vector.
fn bytes_copy(v: &Vec<u8>) -> (r: Vec<u8>)
    ensures
        r@ == v@,
{
    let r = v.clone();
    assert(r@ =~= v@);
    r
}

impl TreasuryContract {
    pub open spec fn wf(&self) -> bool {
        self@.wf()
    }

    /// A treasury with nothing stored, running at `contract_address`.
    pub fn new(contract_address: Address) -> (c: TreasuryContract)
        ensures
            c.wf(),
            c@.contract_address == contract_address,
            c@.admin is None,
            c@.supported_tokens is None,
            c@.withdrawals == Map::<u64, WithdrawalSpec>::empty(),
            c@.next_withdrawal_id == 0,
            c@.used_proposals == Set::<u64>::empty(),
            c@.effects == Seq::<Effect>::empty(),
            c@.events == Seq::<TreasuryEvent>::empty(),
    {
        let c = TreasuryContract {
            contract_address,
            admin: None,
            supported_tokens: None,
            withdrawals: HashMap::new(),
            next_withdrawal_id: 0,
            used_proposals: HashMap::new(),
            effects: Vec::new(),
            events: Vec::new(),
        };
        assert(c@.used_proposals =~= Set::<u64>::empty());
        assert(c@.withdrawals =~= Map::<u64, WithdrawalSpec>::empty());
        c
    }

    /// Hands out the queued token movements and forgets them.
    pub fn take_effects(&mut self) -> (out: Vec<Effect>)
        requires
            old(self).wf(),
        ensures
            final(self).wf(),
            out@ == old(self)@.effects,
            final(self)@ == (TreasuryState { effects: Seq::empty(), ..old(self)@ }),
    {
        let mut out: Vec<Effect> = Vec::new();
        std::mem::swap(&mut out, &mut self.effects);
        assert(self@ =~= (TreasuryState { effects: Seq::empty(), ..old(self)@ }));
        out
    }

    /// Hands out the recorded events and forgets them.
    pub fn take_events(&mut self) -> (out: Vec<TreasuryEvent>)
        requires
            old(self).wf(),
        ensures
            final(self).wf(),
            out@ == old(self)@.events,
            final(self)@ == (TreasuryState { events: Seq::empty(), ..old(self)@ }),
    {
        let mut out: Vec<TreasuryEvent> = Vec::new();
        std::mem::swap(&mut out, &mut self.events);
        assert(self@ =~= (TreasuryState { events: Seq::empty(), ..old(self)@ }));
        out
    }

    /// Sets the governance admin and the first reserve tokens.
    pub fn initialize(&mut self, admin: Address, supported_tokens: Vec<Address>) -> (result: Result<(), Error>)
        requires
            old(self).wf(),
        ensures
            final(self).wf(),
            (final(self)@, result) == old(self)@.spec_initialize(admin, supported_tokens@),
    {
        if self.admin.is_some() {
            return Err(Error::AlreadyInit);
        }
        if supported_tokens.len() == 0 {
            return Err(Error::InvInput);
        }
        let ghost old_state = self@;
        proof {
            assert forall|k: u64| #[trigger] old_state.withdrawals.contains_key(k) implies false by {
                assert(old_state.withdrawals.dom().contains(k));
            }
        }
        let ghost tokens = supported_tokens@;
        self.admin = Some(admin);
        self.supported_tokens = Some(supported_tokens);
        self.next_withdrawal_id = 0;
        assert(self@ =~= old_state.spec_initialize(admin, tokens).0);
        Ok(())
    }

    /// Replaces the governance admin (admin).
    pub fn set_admin(&mut self, new_admin: Address) -> (result: Result<(), Error>)
        requires
            old(self).wf(),
        ensures
            final(self).wf(),
            (final(self)@, result) == old(self)@.spec_set_admin(new_admin),
    {
        let admin = match self.admin {
            Some(a) => a,
            None => return Err(Error::NotInit),
        };
        self.admin = Some(new_admin);
        self.events.push(TreasuryEvent::AdminChanged { admin, new_admin });
        assert(self@ =~= old(self)@.spec_set_admin(new_admin).0);
        Ok(())
    }

    /// Adds `token` to the reserve tokens unless it is there already (admin).
    pub fn add_token(&mut self, token: Address) -> (result: Result<(), Error>)
        requires
            old(self).wf(),
        ensures
            final(self).wf(),
            (final(self)@, result) == old(self)@.spec_add_token(token),
    {
        if self.admin.is_none() {
            return Err(Error::NotInit);
        }
        let present = match &self.supported_tokens {
            None => return Err(Error::NotInit),
            Some(ts) => vec_contains(ts, token),
        };
        if present {
            return Ok(());
        }
        let ghost old_state = self@;
        let mut ts = self.supported_tokens.take().unwrap();
        ts.push(token);
        self.supported_tokens = Some(ts);
        self.events.push(TreasuryEvent::TokenAdded { token });
        assert(self@ =~= old_state.spec_add_token(token).0);
        Ok(())
    }

    fn check_token(&self, token: Address) -> (r: Option<Error>)
        ensures
            r == self@.token_fault(token),
    {
        match &self.supported_tokens {
            None => Some(Error::NotInit),
            Some(ts) => if vec_contains(ts, token) {
                None
            } else {
                Some(Error::InvInput)
            },
        }
    }

    /// Accepts `amount` of a reserve token from `depositor`.
    pub fn deposit(&mut self, depositor: Address, token: Address, amount: Amount) -> (result: Result<(), Error>)
        requires
            old(self).wf(),
        ensures
            final(self).wf(),
            (final(self)@, result) == old(self)@.spec_deposit(depositor, token, amount),
    {
        if amount <= 0 {
            return Err(Error::InvInput);
        }
        if let Some(e) = self.check_token(token) {
            return Err(e);
        }
        self.effects.push(Effect::Transfer { token, from: depositor, to: self.contract_address, amount });
        self.events.push(TreasuryEvent::Deposited { depositor, token, amount });
        assert(self@ =~= old(self)@.spec_deposit(depositor, token, amount).0);
        Ok(())
    }

    /// The error `withdraw` reports whatever the treasury's balance, if any:
    /// the checks that come before the balance is read.
    pub fn withdraw_precheck(
        &self,
        caller: Address,
        proposal_id: u64,
        token: Address,
        amount: Amount,
        memo: &Vec<u8>,
    ) -> (r: Option<Error>)
        ensures
            r == self@.withdraw_fault(caller, proposal_id, token, amount, memo@),
    {
        let admin = match self.admin {
            Some(a) => a,
            None => return Some(Error::NotInit),
        };
        if caller != admin {
            return Some(Error::Unauthorized);
        }
        if amount <= 0 || memo.len() == 0 {
            return Some(Error::InvInput);
        }
        if let Some(e) = self.check_token(token) {
            return Some(e);
        }
        if self.used_proposals.contains_key(&proposal_id) {
            return Some(Error::PropExc);
        }
        None
    }

    /// Pays out a governance-approved withdrawal and records it; returns its
    /// id. `balance` is the treasury's current balance of `token`.
    pub fn withdraw(
        &mut self,
        caller: Address,
        proposal_id: u64,
        token: Address,
        recipient: Address,
        amount: Amount,
        memo: Vec<u8>,
        now: Timestamp,
        balance: Amount,
    ) -> (result: Result<u64, Error>)
        requires
            old(self).wf(),
            old(self)@.withdraw_fault(caller, proposal_id, token, amount, memo@) is None && amount <= balance
                ==> old(self)@.next_withdrawal_id < u64::MAX,
        ensures
            final(self).wf(),
            (final(self)@, result) == old(self)@.spec_withdraw(
                caller,
                proposal_id,
                token,
                recipient,
                amount,
                memo@,
                now,
                balance,
            ),
    {
        if let Some(e) = self.withdraw_precheck(caller, proposal_id, token, amount, &memo) {
            return Err(e);
        }
        if balance < amount {
            return Err(Error::InsufFunds);
        }
        let ghost old_state = self@;
        let ghost memo_view = memo@;
        let id = self.next_withdrawal_id;
        self.used_proposals.insert(proposal_id, true);
        self.effects.push(Effect::Transfer { token, from: self.contract_address, to: recipient, amount });
        self.withdrawals.insert(
            id,
            WithdrawalRecord { id, proposal_id, token, recipient, amount, memo, executed_at: now },
        );
        self.next_withdrawal_id = id + 1;
        self.events.push(TreasuryEvent::Withdrawn { withdrawal_id: id, proposal_id, token, recipient, amount });
        proof {
            let expected = old_state.spec_withdraw(caller, proposal_id, token, recipient, amount, memo_view, now, balance).0;
            assert(self@.used_proposals =~= expected.used_proposals);
            assert(self@.withdrawals =~= expected.withdrawals);
            assert(self@ =~= expected);
            assert forall|k: u64| #[trigger] self@.withdrawals.contains_key(k) implies k < self@.next_withdrawal_id
                && self@.withdrawals[k].id == k && self@.used_proposals.contains(self@.withdrawals[k].proposal_id) by {
                if k != id {
                    assert(old_state.withdrawals.contains_key(k));
                }
            }
        }
        Ok(id)
    }

    /// The audit record of withdrawal `withdrawal_id`.
    pub fn get_withdrawal(&self, withdrawal_id: u64) -> (r: Result<WithdrawalRecord, Error>)
        ensures
            self@.withdrawals.contains_key(withdrawal_id) ==> r is Ok && r->Ok_0@ == self@.withdrawals[withdrawal_id],
            !self@.withdrawals.contains_key(withdrawal_id) ==> r is Err && r->Err_0 == Error::NotFound,
    {
        match self.withdrawals.get(&withdrawal_id) {
            Some(w) => Ok(
                WithdrawalRecord {
                    id: w.id,
                    proposal_id: w.proposal_id,
                    token: w.token,
                    recipient: w.recipient,
                    amount: w.amount,
                    memo: bytes_copy(&w.memo),
                    executed_at: w.executed_at,
                },
            ),
            None => Err(Error::NotFound),
        }
    }

    /// Number of withdrawals executed so far.
    pub fn withdrawal_count(&self) -> (r: u64)
        ensures
            r == self@.next_withdrawal_id,
    {
        self.next_withdrawal_id
    }

    /// The reserve tokens.
    pub fn supported_tokens(&self) -> (r: Result<Vec<Address>, Error>)
        ensures
            match self@.supported_tokens {
                Some(ts) => r is Ok && r->Ok_0@ == ts,
                None => r is Err && r->Err_0 == Error::NotInit,
            },
    {
        match &self.supported_tokens {
            Some(ts) => Ok(crate::maps::vec_copy(ts)),
            None => Err(Error::NotInit),
        }
    }

    /// The governance admin.
    pub fn admin(&self) -> (r: Result<Address, Error>)
        ensures
            match self@.admin {
                Some(a) => r == Ok::<Address, Error>(a),
                None => r == Err::<Address, Error>(Error::NotInit),
            },
    {
        match self.admin {
            Some(a) => Ok(a),
            None => Err(Error::NotInit),
        }
    }

    /// Whether proposal `proposal_id` was already spent on a withdrawal.
    pub fn is_proposal_used(&self, proposal_id: u64) -> (r: bool)
        ensures
            r == self@.used_proposals.contains(proposal_id),
    {
        self.used_proposals.contains_key(&proposal_id)
    }
}

/// A proposal authorises at most one withdrawal: once a withdrawal under
/// it succeeded, every later withdrawal under it is refused and changes nothing.
pub proof fn law_proposal_used_once(
    s: TreasuryState,
    caller: Address,
    proposal_id: u64,
    token: Address,
    recipient: Address,
    amount: Amount,
    memo: Seq<u8>,
    now: Timestamp,
    balance: Amount,
    token2: Address,
    recipient2: Address,
    amount2: Amount,
    memo2: Seq<u8>,
    now2: Timestamp,
    balance2: Amount,
)
    requires
        s.spec_withdraw(caller, proposal_id, token, recipient, amount, memo, now, balance).1 is Ok,
    ensures
        ({
            let t = s.spec_withdraw(caller, proposal_id, token, recipient, amount, memo, now, balance).0;
            let again = t.spec_withdraw(caller, proposal_id, token2, recipient2, amount2, memo2, now2, balance2);
            &&& again.1 is Err
            &&& again.0 == t
            &&& (again.1 == Err::<u64, Error>(Error::PropExc) || again.1 == Err::<u64, Error>(Error::InvInput))
        }),
{
}

/// Successful withdrawals get consecutive ids and leave an audit record
/// naming their proposal, recipient and amount.
pub proof fn law_withdrawal_recorded(
    s: TreasuryState,
    caller: Address,
    proposal_id: u64,
    token: Address,
    recipient: Address,
    amount: Amount,
    memo: Seq<u8>,
    now: Timestamp,
    balance: Amount,
)
    requires
        s.next_withdrawal_id < u64::MAX,
        s.spec_withdraw(caller, proposal_id, token, recipient, amount, memo, now, balance).1 is Ok,
    ensures
        ({
            let (t, r) = s.spec_withdraw(caller, proposal_id, token, recipient, amount, memo, now, balance);
            &&& r == Ok::<u64, Error>(s.next_withdrawal_id)
            &&& t.next_withdrawal_id == s.next_withdrawal_id + 1
            &&& t.withdrawals.contains_key(s.next_withdrawal_id)
            &&& t.withdrawals[s.next_withdrawal_id].proposal_id == proposal_id
            &&& t.withdrawals[s.next_withdrawal_id].recipient == recipient
            &&& t.withdrawals[s.next_withdrawal_id].amount == amount
            &&& t.used_proposals.contains(proposal_id)
            &&& 0 < amount <= balance
        }),
{
}

/// Only the governance admin can withdraw.
pub proof fn law_withdraw_admin_only(
    s: TreasuryState,
    caller: Address,
    proposal_id: u64,
    token: Address,
    recipient: Address,
    amount: Amount,
    memo: Seq<u8>,
    now: Timestamp,
    balance: Amount,
)
    requires
        s.admin != Some(caller),
    ensures
        s.spec_withdraw(caller, proposal_id, token, recipient, amount, memo, now, balance).1 is Err,
        s.spec_withdraw(caller, proposal_id, token, recipient, amount, memo, now, balance).0 == s,
{
}

} // verus!
