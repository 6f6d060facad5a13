use vstd::prelude::*;
use std::collections::HashMap;
use crate::constants::BPS_DENOMINATOR;
use crate::maps::{make_pair_key, pair_key};
use crate::types::{Address, Amount};

verus! {

broadcast use vstd::std_specs::hash::group_hash_axioms;

/// Decimals, name and symbol of the token.
pub struct TokenMetadata {
    pub decimal: u32,
    pub name: String,
    pub symbol: String,
}

/// Mathematical view of the token metadata.
pub struct MetadataSpec {
    pub decimal: u32,
    pub name: Seq<char>,
    pub symbol: Seq<char>,
}

impl View for TokenMetadata {
    type V = MetadataSpec;

    open spec fn view(&self) -> MetadataSpec {
        MetadataSpec { decimal: self.decimal, name: self.name@, symbol: self.symbol@ }
    }
}

/// Where transfer fees go and how large they are (basis points of the amount).
#[derive(Clone, Copy, Debug, PartialEq, Eq, Structural)]
pub struct FeeConfiguration {
    pub recipient: Address,
    pub fee_basis_points: u32,
}

/// Why the token stops a call; the `*_fault` checks find it before the call is made.
#[derive(Clone, Copy, Debug, PartialEq, Eq, Structural)]
pub enum TokenFault {
    AlreadyInitialized,
    NotInitialized,
    FeeTooHigh,
    NegativeAmount,
    InsufficientBalance,
    InsufficientAllowance,
    Overflow,
}

/// The fault of a call's outcome, if it was refused.
pub open spec fn fault_of<R>(r: Result<R, TokenFault>) -> Option<TokenFault> {
    match r {
        Ok(_) => None,
        Err(f) => Some(f),
    }
}

/// What the token announces to observers.
#[derive(Clone, Copy, Debug, PartialEq, Eq, Structural)]
pub enum TokenEvent {
    Mint { admin: Address, to: Address, amount: Amount },
    SetAdmin { admin: Address, new_admin: Address },
    Approve { from: Address, spender: Address, amount: Amount, expiration_ledger: u32 },
    Transfer { from: Address, to: Address, amount: Amount },
    Burn { from: Address, amount: Amount },
}

/// A token whose transfers pay a fee to a configured recipient.
pub struct BaseToken {
    pub admin: Option<Address>,
    pub metadata: Option<TokenMetadata>,
    pub fee_config: Option<FeeConfiguration>,
    pub balances: HashMap<Address, Amount>,
    pub allowances: HashMap<u128, Amount>,
    pub events: Vec<TokenEvent>,
}

/// Mathematical view of the token's storage.
#[verifier::ext_equal]
pub struct TokenState {
    pub admin: Option<Address>,
    pub metadata: Option<MetadataSpec>,
    pub fee_config: Option<FeeConfiguration>,
    pub balances: Map<Address, Amount>,
    /// Allowances, keyed by `pair_key(from, spender)`.
    pub allowances: Map<u128, Amount>,
    pub events: Seq<TokenEvent>,
}

impl View for BaseToken {
    type V = TokenState;

    closed spec fn view(&self) -> TokenState {
        TokenState {
            admin: self.admin,
            metadata: match self.metadata {
                Some(m) => Some(m@),
                None => None,
            },
            fee_config: self.fee_config,
            balances: self.balances@,
            allowances: self.allowances@,
            events: self.events@,
        }
    }
}

/// A stored balance; an account never written holds nothing.
pub open spec fn read_bal(balances: Map<Address, Amount>, a: Address) -> int {
    if balances.contains_key(a) {
        balances[a] as int
    } else {
        0
    }
}

/// Stores a balance.
pub open spec fn write_bal(balances: Map<Address, Amount>, a: Address, v: int) -> Map<Address, Amount> {
    balances.insert(a, v as Amount)
}

/// Fee charged on a transfer of `amount`: `amount * bps / 10000`, except
/// that a transfer of more than one unit pays at least one unit when the
/// rate is positive.
pub open spec fn transfer_fee(amount: int, bps: int) -> int {
    let fee = amount * bps / BPS_DENOMINATOR as int;
    if fee == 0 && bps > 0 && amount > 1 {
        1
    } else {
        fee
    }
}

/// The fee never exceeds the amount, and fee plus net amount is the amount.
pub proof fn lemma_transfer_fee_bounds(amount: int, bps: int)
    requires
        amount > 0,
        0 <= bps <= BPS_DENOMINATOR,
    ensures
        0 <= transfer_fee(amount, bps) <= amount,
        transfer_fee(amount, bps) + (amount - transfer_fee(amount, bps)) == amount,
{
    assert(0 <= amount * bps <= amount * BPS_DENOMINATOR) by (nonlinear_arith)
        requires amount > 0, 0 <= bps <= BPS_DENOMINATOR;
    assert(amount * bps / 10000 <= amount) by (nonlinear_arith)
        requires 0 <= amount * bps <= amount * 10000, amount > 0;
    assert(amount * bps / 10000 >= 0) by (nonlinear_arith)
        requires 0 <= amount * bps;
}

impl TokenState {
    /// Initialisation sets admin, metadata and fee configuration together,
    /// the fee rate never exceeds 100%, and no balance or allowance is negative.
    pub open spec fn wf(self) -> bool {
        &&& (self.admin is Some <==> self.fee_config is Some)
        &&& (self.admin is Some <==> self.metadata is Some)
        &&& (self.fee_config matches Some(c) ==> c.fee_basis_points <= BPS_DENOMINATOR)
        &&& forall|a: Address| #[trigger] self.balances.contains_key(a) ==> self.balances[a] >= 0
        &&& forall|k: u128| #[trigger] self.allowances.contains_key(k) ==> self.allowances[k] >= 0
    }

    pub open spec fn balance_of(self, a: Address) -> int {
        read_bal(self.balances, a)
    }

    pub open spec fn allowance_of(self, from: Address, spender: Address) -> int {
        if self.allowances.contains_key(pair_key(from, spender)) {
            self.allowances[pair_key(from, spender)] as int
        } else {
            0
        }
    }

    pub open spec fn spec_initialize(
        self,
        admin: Address,
        decimal: u32,
        name: Seq<char>,
        symbol: Seq<char>,
        fee_recipient: Address,
        fee_basis_points: u32,
    ) -> (TokenState, Result<(), TokenFault>) {
        if self.admin is Some {
            (self, Err(TokenFault::AlreadyInitialized))
        } else if fee_basis_points > BPS_DENOMINATOR {
            (self, Err(TokenFault::FeeTooHigh))
        } else {
            (
                TokenState {
                    admin: Some(admin),
                    metadata: Some(MetadataSpec { decimal, name, symbol }),
                    fee_config: Some(FeeConfiguration { recipient: fee_recipient, fee_basis_points }),
                    ..self
                },
                Ok(()),
            )
        }
    }

    pub open spec fn spec_set_fee_config(self, recipient: Address, fee_basis_points: u32) -> (
        TokenState,
        Result<(), TokenFault>,
    ) {
        if self.admin is None {
            (self, Err(TokenFault::NotInitialized))
        } else if fee_basis_points > BPS_DENOMINATOR {
            (self, Err(TokenFault::FeeTooHigh))
        } else {
            (TokenState { fee_config: Some(FeeConfiguration { recipient, fee_basis_points }), ..self }, Ok(()))
        }
    }

    pub open spec fn spec_mint(self, to: Address, amount: Amount) -> (TokenState, Result<(), TokenFault>) {
        if amount < 0 {
            (self, Err(TokenFault::NegativeAmount))
        } else if self.admin is None {
            (self, Err(TokenFault::NotInitialized))
        } else if self.balance_of(to) + amount > i128::MAX {
            (self, Err(TokenFault::Overflow))
        } else {
            (
                TokenState {
                    balances: write_bal(self.balances, to, self.balance_of(to) + amount),
                    events: self.events.push(TokenEvent::Mint { admin: self.admin->0, to, amount }),
                    ..self
                },
                Ok(()),
            )
        }
    }

    pub open spec fn spec_set_admin(self, new_admin: Address) -> (TokenState, Result<(), TokenFault>) {
        match self.admin {
            None => (self, Err(TokenFault::NotInitialized)),
            Some(admin) => (
                TokenState {
                    admin: Some(new_admin),
                    events: self.events.push(TokenEvent::SetAdmin { admin, new_admin }),
                    ..self
                },
                Ok(()),
            ),
        }
    }

    pub open spec fn spec_approve(
        self,
        from: Address,
        spender: Address,
        amount: Amount,
        expiration_ledger: u32,
    ) -> (TokenState, Result<(), TokenFault>) {
        if amount < 0 {
            (self, Err(TokenFault::NegativeAmount))
        } else {
            (
                TokenState {
                    allowances: self.allowances.insert(pair_key(from, spender), amount),
                    events: self.events.push(TokenEvent::Approve { from, spender, amount, expiration_ledger }),
                    ..self
                },
                Ok(()),
            )
        }
    }

    /// Moves `amount` from `from`: the fee to the fee recipient, the rest
    /// to `to`, each credit announced when it is positive.
    pub open spec fn spec_transfer(self, from: Address, to: Address, amount: Amount) -> (
        TokenState,
        Result<(), TokenFault>,
    ) {
        if amount < 0 {
            (self, Err(TokenFault::NegativeAmount))
        } else if amount == 0 {
            (self, Ok(()))
        } else if self.balance_of(from) < amount {
            (self, Err(TokenFault::InsufficientBalance))
        } else {
            match self.fee_config {
                None => (self, Err(TokenFault::NotInitialized)),
                Some(cfg) => if amount * cfg.fee_basis_points > i128::MAX {
                    (self, Err(TokenFault::Overflow))
                } else {
                    let fee = transfer_fee(amount as int, cfg.fee_basis_points as int);
                    let net = amount - fee;
                    let b1 = write_bal(self.balances, from, self.balance_of(from) - amount);
                    let fee_total = read_bal(b1, cfg.recipient) + fee;
                    if fee > 0 && fee_total > i128::MAX {
                        (self, Err(TokenFault::Overflow))
                    } else {
                        let b2 = if fee > 0 {
                            write_bal(b1, cfg.recipient, fee_total)
                        } else {
                            b1
                        };
                        let e1 = if fee > 0 {
                            self.events.push(
                                TokenEvent::Transfer { from, to: cfg.recipient, amount: fee as Amount },
                            )
                        } else {
                            self.events
                        };
                        let to_total = read_bal(b2, to) + net;
                        if net > 0 && to_total > i128::MAX {
                            (self, Err(TokenFault::Overflow))
                        } else {
                            let b3 = if net > 0 {
                                write_bal(b2, to, to_total)
                            } else {
                                b2
                            };
                            let e2 = if net > 0 {
                                e1.push(TokenEvent::Transfer { from, to, amount: net as Amount })
                            } else {
                                e1
                            };
                            (TokenState { balances: b3, events: e2, ..self }, Ok(()))
                        }
                    }
                },
            }
        }
    }

    /// A transfer by `spender` out of `from`'s allowance to it.
    pub open spec fn spec_transfer_from(
        self,
        spender: Address,
        from: Address,
        to: Address,
        amount: Amount,
    ) -> (TokenState, Result<(), TokenFault>) {
        if amount < 0 {
            (self, Err(TokenFault::NegativeAmount))
        } else if self.allowance_of(from, spender) < amount {
            (self, Err(TokenFault::InsufficientAllowance))
        } else {
            let s1 = TokenState {
                allowances: self.allowances.insert(
                    pair_key(from, spender),
                    (self.allowance_of(from, spender) - amount) as Amount,
                ),
                ..self
            };
            let (s2, r) = s1.spec_transfer(from, to, amount);
            match r {
                Ok(_) => (s2, Ok(())),
                Err(e) => (self, Err(e)),
            }
        }
    }

    pub open spec fn spec_burn(self, from: Address, amount: Amount) -> (TokenState, Result<(), TokenFault>) {
        if amount < 0 {
            (self, Err(TokenFault::NegativeAmount))
        } else if self.balance_of(from) < amount {
            (self, Err(TokenFault::InsufficientBalance))
        } else {
            (
                TokenState {
                    balances: write_bal(self.balances, from, self.balance_of(from) - amount),
                    events: self.events.push(TokenEvent::Burn { from, amount }),
                    ..self
                },
                Ok(()),
            )
        }
    }

    pub open spec fn spec_burn_from(self, spender: Address, from: Address, amount: Amount) -> (
        TokenState,
        Result<(), TokenFault>,
    ) {
        if amount < 0 {
            (self, Err(TokenFault::NegativeAmount))
        } else if self.allowance_of(from, spender) < amount {
            (self, Err(TokenFault::InsufficientAllowance))
        } else if self.balance_of(from) < amount {
            (self, Err(TokenFault::InsufficientBalance))
        } else {
            (
                TokenState {
                    allowances: self.allowances.insert(
                        pair_key(from, spender),
                        (self.allowance_of(from, spender) - amount) as Amount,
                    ),
                    balances: write_bal(self.balances, from, self.balance_of(from) - amount),
                    events: self.events.push(TokenEvent::Burn { from, amount }),
                    ..self
                },
                Ok(()),
            )
        }
    }
}

impl BaseToken {
    pub open spec fn wf(&self) -> bool {
        self@.wf()
    }

    /// A token with nothing stored: no admin, no balances, no allowances.
    pub fn new() -> (t: BaseToken)
        ensures
            t.wf(),
            t@.admin is None,
            t@.metadata is None,
            t@.fee_config is None,
            t@.balances == Map::<Address, Amount>::empty(),
            t@.allowances == Map::<u128, Amount>::empty(),
            t@.events == Seq::<TokenEvent>::empty(),
    {
        BaseToken {
            admin: None,
            metadata: None,
            fee_config: None,
            balances: HashMap::new(),
            allowances: HashMap::new(),
            events: Vec::new(),
        }
    }

    /// Hands out the events announced so far and forgets them.
    pub fn take_events(&mut self) -> (out: Vec<TokenEvent>)
        requires
            old(self).wf(),
        ensures
            final(self).wf(),
            out@ == old(self)@.events,
            final(self)@ == (TokenState { events: Seq::empty(), ..old(self)@ }),
    {
        let mut out: Vec<TokenEvent> = Vec::new();
        std::mem::swap(&mut out, &mut self.events);
        assert(self@ =~= (TokenState { events: Seq::empty(), ..old(self)@ }));
        out
    }

    fn read_balance(&self, a: Address) -> (r: Amount)
        ensures
            r as int == read_bal(self@.balances, a),
    {
        match self.balances.get(&a) {
            Some(b) => *b,
            None => 0,
        }
    }

    fn write_balance(&mut self, a: Address, v: Amount)
        ensures
            final(self)@ == (TokenState { balances: write_bal(old(self)@.balances, a, v as int), ..old(self)@ }),
    {
        self.balances.insert(a, v);
    }

    fn read_allowance(&self, from: Address, spender: Address) -> (r: Amount)
        ensures
            r as int == self@.allowance_of(from, spender),
    {
        match self.allowances.get(&make_pair_key(from, spender)) {
            Some(v) => *v,
            None => 0,
        }
    }

    /// Sets admin, metadata and fee configuration of a fresh token.
    pub fn initialize(&mut self, admin: Address, decimal: u32, name: String, symbol: String, fee_recipient: Address, fee_basis_points: u32)
        requires
            old(self).wf(),
            old(self)@.spec_initialize(admin, decimal, name@, symbol@, fee_recipient, fee_basis_points).1 is Ok,
        ensures
            final(self).wf(),
            final(self)@ == old(self)@.spec_initialize(admin, decimal, name@, symbol@, fee_recipient, fee_basis_points).0,
    {
        let ghost pre = old(self)@;
        let r = self.try_initialize(admin, decimal, name, symbol, fee_recipient, fee_basis_points);
        assert(r is Ok && self@ == pre.spec_initialize(admin, decimal, name@, symbol@, fee_recipient, fee_basis_points).0);
    }

    /// The checked form of `initialize`: refuses with the fault the call meets.
    fn try_initialize(
        &mut self,
        admin: Address,
        decimal: u32,
        name: String,
        symbol: String,
        fee_recipient: Address,
        fee_basis_points: u32,
    ) -> (result: Result<(), TokenFault>)
        requires
            old(self).wf(),
        ensures
            final(self).wf(),
            (final(self)@, result) == old(self)@.spec_initialize(
                admin,
                decimal,
                name@,
                symbol@,
                fee_recipient,
                fee_basis_points,
            ),
    {
        if self.admin.is_some() {
            return Err(TokenFault::AlreadyInitialized);
        }
        if fee_basis_points > BPS_DENOMINATOR {
            return Err(TokenFault::FeeTooHigh);
        }
        let ghost old_state = self@;
        self.admin = Some(admin);
        self.metadata = Some(TokenMetadata { decimal, name, symbol });
        self.fee_config = Some(FeeConfiguration { recipient: fee_recipient, fee_basis_points });
        proof {
            let expected = old_state.spec_initialize(admin, decimal, name@, symbol@, fee_recipient, fee_basis_points).0;
            assert(self@ =~= expected);
        }
        Ok(())
    }

    /// Replaces the fee recipient and rate (admin).
    pub fn set_fee_config(&mut self, recipient: Address, fee_basis_points: u32)
        requires
            old(self).wf(),
            old(self)@.spec_set_fee_config(recipient, fee_basis_points).1 is Ok,
        ensures
            final(self).wf(),
            final(self)@ == old(self)@.spec_set_fee_config(recipient, fee_basis_points).0,
    {
        let ghost pre = old(self)@;
        let r = self.try_set_fee_config(recipient, fee_basis_points);
        assert(r is Ok && self@ == pre.spec_set_fee_config(recipient, fee_basis_points).0);
    }

    /// The checked form of `set_fee_config`: refuses with the fault the call meets.
    fn try_set_fee_config(&mut self, recipient: Address, fee_basis_points: u32) -> (result: Result<(), TokenFault>)
        requires
            old(self).wf(),
        ensures
            final(self).wf(),
            (final(self)@, result) == old(self)@.spec_set_fee_config(recipient, fee_basis_points),
    {
        if self.admin.is_none() {
            return Err(TokenFault::NotInitialized);
        }
        if fee_basis_points > BPS_DENOMINATOR {
            return Err(TokenFault::FeeTooHigh);
        }
        let ghost old_state = self@;
        self.fee_config = Some(FeeConfiguration { recipient, fee_basis_points });
        assert(self@ =~= old_state.spec_set_fee_config(recipient, fee_basis_points).0);
        Ok(())
    }

    /// Creates `amount` new tokens for `to` (admin).
    pub fn mint(&mut self, to: Address, amount: Amount)
        requires
            old(self).wf(),
            old(self)@.spec_mint(to, amount).1 is Ok,
        ensures
            final(self).wf(),
            final(self)@ == old(self)@.spec_mint(to, amount).0,
    {
        let ghost pre = old(self)@;
        let r = self.try_mint(to, amount);
        assert(r is Ok && self@ == pre.spec_mint(to, amount).0);
    }

    /// The checked form of `mint`: refuses with the fault the call meets.
    fn try_mint(&mut self, to: Address, amount: Amount) -> (result: Result<(), TokenFault>)
        requires
            old(self).wf(),
        ensures
            final(self).wf(),
            (final(self)@, result) == old(self)@.spec_mint(to, amount),
    {
        if amount < 0 {
            return Err(TokenFault::NegativeAmount);
        }
        let admin = match self.admin {
            Some(a) => a,
            None => return Err(TokenFault::NotInitialized),
        };
        let bal = self.read_balance(to);
        let total = match bal.checked_add(amount) {
            Some(t) => t,
            None => return Err(TokenFault::Overflow),
        };
        let ghost old_state = self@;
        self.write_balance(to, total);
        self.events.push(TokenEvent::Mint { admin, to, amount });
        assert(self@ =~= old_state.spec_mint(to, amount).0);
        Ok(())
    }

    /// Hands the admin role to `new_admin` (admin).
    pub fn set_admin(&mut self, new_admin: Address)
        requires
            old(self).wf(),
            old(self)@.spec_set_admin(new_admin).1 is Ok,
        ensures
            final(self).wf(),
            final(self)@ == old(self)@.spec_set_admin(new_admin).0,
    {
        let ghost pre = old(self)@;
        let r = self.try_set_admin(new_admin);
        assert(r is Ok && self@ == pre.spec_set_admin(new_admin).0);
    }

    /// The checked form of `set_admin`: refuses with the fault the call meets.
    fn try_set_admin(&mut self, new_admin: Address) -> (result: Result<(), TokenFault>)
        requires
            old(self).wf(),
        ensures
            final(self).wf(),
            (final(self)@, result) == old(self)@.spec_set_admin(new_admin),
    {
        let admin = match self.admin {
            Some(a) => a,
            None => return Err(TokenFault::NotInitialized),
        };
        let ghost old_state = self@;
        self.admin = Some(new_admin);
        self.events.push(TokenEvent::SetAdmin { admin, new_admin });
        assert(self@ =~= old_state.spec_set_admin(new_admin).0);
        Ok(())
    }

    /// What `spender` may still move out of `from`'s balance.
    pub fn allowance(&self, from: Address, spender: Address) -> (r: Amount)
        ensures
            r as int == self@.allowance_of(from, spender),
    {
        self.read_allowance(from, spender)
    }

    /// Lets `spender` move up to `amount` out of `from`'s balance.
    pub fn approve(&mut self, from: Address, spender: Address, amount: Amount, expiration_ledger: u32)
        requires
            old(self).wf(),
            old(self)@.spec_approve(from, spender, amount, expiration_ledger).1 is Ok,
        ensures
            final(self).wf(),
            final(self)@ == old(self)@.spec_approve(from, spender, amount, expiration_ledger).0,
    {
        let ghost pre = old(self)@;
        let r = self.try_approve(from, spender, amount, expiration_ledger);
        assert(r is Ok && self@ == pre.spec_approve(from, spender, amount, expiration_ledger).0);
    }

    /// The checked form of `approve`: refuses with the fault the call meets.
    fn try_approve(&mut self, from: Address, spender: Address, amount: Amount, expiration_ledger: u32) -> (result:
        Result<(), TokenFault>)
        requires
            old(self).wf(),
        ensures
            final(self).wf(),
            (final(self)@, result) == old(self)@.spec_approve(from, spender, amount, expiration_ledger),
    {
        if amount < 0 {
            return Err(TokenFault::NegativeAmount);
        }
        let ghost old_state = self@;
        self.allowances.insert(make_pair_key(from, spender), amount);
        self.events.push(TokenEvent::Approve { from, spender, amount, expiration_ledger });
        assert(self@ =~= old_state.spec_approve(from, spender, amount, expiration_ledger).0);
        Ok(())
    }

    /// The balance of `id`.
    pub fn balance(&self, id: Address) -> (r: Amount)
        ensures
            r as int == self@.balance_of(id),
    {
        self.read_balance(id)
    }

    /// Moves `amount` from `from` to `to`, less the transfer fee.
    pub fn transfer(&mut self, from: Address, to: Address, amount: Amount)
        requires
            old(self).wf(),
            old(self)@.spec_transfer(from, to, amount).1 is Ok,
        ensures
            final(self).wf(),
            final(self)@ == old(self)@.spec_transfer(from, to, amount).0,
    {
        let ghost pre = old(self)@;
        let r = self.try_transfer(from, to, amount);
        assert(r is Ok && self@ == pre.spec_transfer(from, to, amount).0);
    }

    /// The checked form of `transfer`: refuses with the fault the call meets.
    fn try_transfer(&mut self, from: Address, to: Address, amount: Amount) -> (result: Result<(), TokenFault>)
        requires
            old(self).wf(),
        ensures
            final(self).wf(),
            (final(self)@, result) == old(self)@.spec_transfer(from, to, amount),
    {
        self.do_transfer(from, to, amount)
    }

    /// Moves `amount` from `from` to `to` on behalf of `spender`, out of its allowance.
    pub fn transfer_from(&mut self, spender: Address, from: Address, to: Address, amount: Amount)
        requires
            old(self).wf(),
            old(self)@.spec_transfer_from(spender, from, to, amount).1 is Ok,
        ensures
            final(self).wf(),
            final(self)@ == old(self)@.spec_transfer_from(spender, from, to, amount).0,
    {
        let ghost pre = old(self)@;
        let r = self.try_transfer_from(spender, from, to, amount);
        assert(r is Ok && self@ == pre.spec_transfer_from(spender, from, to, amount).0);
    }

    /// The checked form of `transfer_from`: refuses with the fault the call meets.
    fn try_transfer_from(&mut self, spender: Address, from: Address, to: Address, amount: Amount) -> (result:
        Result<(), TokenFault>)
        requires
            old(self).wf(),
        ensures
            final(self).wf(),
            (final(self)@, result) == old(self)@.spec_transfer_from(spender, from, to, amount),
    {
        if amount < 0 {
            return Err(TokenFault::NegativeAmount);
        }
        let allowance = self.read_allowance(from, spender);
        if allowance < amount {
            return Err(TokenFault::InsufficientAllowance);
        }
        let ghost old_state = self@;
        let key = make_pair_key(from, spender);
        let previous = self.allowances.insert(key, allowance - amount);
        let ghost s1 = self@;
        assert(s1 =~= TokenState {
            allowances: old_state.allowances.insert(pair_key(from, spender), (allowance - amount) as Amount),
            ..old_state
        });
        match self.do_transfer(from, to, amount) {
            Ok(_) => Ok(()),
            Err(e) => {
                match previous {
                    Some(v) => {
                        self.allowances.insert(key, v);
                    },
                    None => {
                        self.allowances.remove(&key);
                    },
                }
                assert(self@ =~= old_state);
                Err(e)
            },
        }
    }

    /// Destroys `amount` of `from`'s tokens.
    pub fn burn(&mut self, from: Address, amount: Amount)
        requires
            old(self).wf(),
            old(self)@.spec_burn(from, amount).1 is Ok,
        ensures
            final(self).wf(),
            final(self)@ == old(self)@.spec_burn(from, amount).0,
    {
        let ghost pre = old(self)@;
        let r = self.try_burn(from, amount);
        assert(r is Ok && self@ == pre.spec_burn(from, amount).0);
    }

    /// The checked form of `burn`: refuses with the fault the call meets.
    fn try_burn(&mut self, from: Address, amount: Amount) -> (result: Result<(), TokenFault>)
        requires
            old(self).wf(),
        ensures
            final(self).wf(),
            (final(self)@, result) == old(self)@.spec_burn(from, amount),
    {
        if amount < 0 {
            return Err(TokenFault::NegativeAmount);
        }
        let bal = self.read_balance(from);
        if bal < amount {
            return Err(TokenFault::InsufficientBalance);
        }
        let ghost old_state = self@;
        self.write_balance(from, bal - amount);
        self.events.push(TokenEvent::Burn { from, amount });
        assert(self@ =~= old_state.spec_burn(from, amount).0);
        Ok(())
    }

    /// Destroys `amount` of `from`'s tokens on behalf of `spender`, out of its allowance.
    pub fn burn_from(&mut self, spender: Address, from: Address, amount: Amount)
        requires
            old(self).wf(),
            old(self)@.spec_burn_from(spender, from, amount).1 is Ok,
        ensures
            final(self).wf(),
            final(self)@ == old(self)@.spec_burn_from(spender, from, amount).0,
    {
        let ghost pre = old(self)@;
        let r = self.try_burn_from(spender, from, amount);
        assert(r is Ok && self@ == pre.spec_burn_from(spender, from, amount).0);
    }

    /// The checked form of `burn_from`: refuses with the fault the call meets.
    fn try_burn_from(&mut self, spender: Address, from: Address, amount: Amount) -> (result: Result<(), TokenFault>)
        requires
            old(self).wf(),
        ensures
            final(self).wf(),
            (final(self)@, result) == old(self)@.spec_burn_from(spender, from, amount),
    {
        if amount < 0 {
            return Err(TokenFault::NegativeAmount);
        }
        let allowance = self.read_allowance(from, spender);
        if allowance < amount {
            return Err(TokenFault::InsufficientAllowance);
        }
        let bal = self.read_balance(from);
        if bal < amount {
            return Err(TokenFault::InsufficientBalance);
        }
        let ghost old_state = self@;
        self.allowances.insert(make_pair_key(from, spender), allowance - amount);
        self.write_balance(from, bal - amount);
        self.events.push(TokenEvent::Burn { from, amount });
        assert(self@ =~= old_state.spec_burn_from(spender, from, amount).0);
        Ok(())
    }

    /// Whether the token was initialised (metadata, admin and fees are set).
    pub fn is_initialized(&self) -> (r: bool)
        requires
            self.wf(),
        ensures
            r == self@.metadata is Some,
            r == self@.admin is Some,
    {
        self.metadata.is_some()
    }

    /// Number of decimals of the token.
    pub fn decimals(&self) -> (r: u32)
        requires
            self@.metadata is Some,
        ensures
            r == self@.metadata->0.decimal,
    {
        self.metadata.as_ref().unwrap().decimal
    }

    /// Name of the token.
    pub fn name(&self) -> (r: String)
        requires
            self@.metadata is Some,
        ensures
            r@ == self@.metadata->0.name,
    {
        self.metadata.as_ref().unwrap().name.clone()
    }

    /// Symbol of the token.
    pub fn symbol(&self) -> (r: String)
        requires
            self@.metadata is Some,
        ensures
            r@ == self@.metadata->0.symbol,
    {
        self.metadata.as_ref().unwrap().symbol.clone()
    }

    /// A copy of the token's state.
    fn snapshot(&self) -> (c: BaseToken)
        ensures
            c@ == self@,
    {
        let metadata = match &self.metadata {
            Some(m) => Some(TokenMetadata { decimal: m.decimal, name: m.name.clone(), symbol: m.symbol.clone() }),
            None => None,
        };
        let mut events: Vec<TokenEvent> = Vec::new();
        let mut i: usize = 0;
        while i < self.events.len()
            invariant
                i <= self.events.len(),
                events@ == self.events@.take(i as int),
            decreases self.events.len() - i,
        {
            events.push(self.events[i]);
            proof {
                assert(self.events@.take(i + 1) =~= self.events@.take(i as int).push(self.events@[i as int]));
            }
            i = i + 1;
        }
        assert(self.events@.take(self.events.len() as int) =~= self.events@);
        let c = BaseToken {
            admin: self.admin,
            metadata,
            fee_config: self.fee_config,
            balances: self.balances.clone(),
            allowances: self.allowances.clone(),
            events,
        };
        assert(c@ =~= self@);
        c
    }

    /// The fault `initialize` would meet, if any.
    pub fn initialize_fault(&self, fee_basis_points: u32) -> (r: Option<TokenFault>)
        ensures
            forall|admin: Address, decimal: u32, name: Seq<char>, symbol: Seq<char>, rcpt: Address|
                #[trigger] self@.spec_initialize(admin, decimal, name, symbol, rcpt, fee_basis_points).1 == (
                match r {
                    None => Ok::<(), TokenFault>(()),
                    Some(f) => Err(f),
                }),
    {
        if self.admin.is_some() {
            Some(TokenFault::AlreadyInitialized)
        } else if fee_basis_points > BPS_DENOMINATOR {
            Some(TokenFault::FeeTooHigh)
        } else {
            None
        }
    }

    /// The fault `set_fee_config` would meet, if any.
    pub fn set_fee_config_fault(&self, recipient: Address, fee_basis_points: u32) -> (r: Option<TokenFault>)
        ensures
            r == fault_of(self@.spec_set_fee_config(recipient, fee_basis_points).1),
    {
        if self.admin.is_none() {
            Some(TokenFault::NotInitialized)
        } else if fee_basis_points > BPS_DENOMINATOR {
            Some(TokenFault::FeeTooHigh)
        } else {
            None
        }
    }

    /// The fault `mint` would meet, if any.
    pub fn mint_fault(&self, to: Address, amount: Amount) -> (r: Option<TokenFault>)
        ensures
            r == fault_of(self@.spec_mint(to, amount).1),
    {
        if amount < 0 {
            Some(TokenFault::NegativeAmount)
        } else if self.admin.is_none() {
            Some(TokenFault::NotInitialized)
        } else if self.read_balance(to).checked_add(amount).is_none() {
            Some(TokenFault::Overflow)
        } else {
            None
        }
    }

    /// The fault `set_admin` would meet, if any.
    pub fn set_admin_fault(&self, new_admin: Address) -> (r: Option<TokenFault>)
        ensures
            r == fault_of(self@.spec_set_admin(new_admin).1),
    {
        if self.admin.is_none() {
            Some(TokenFault::NotInitialized)
        } else {
            None
        }
    }

    /// The fault `approve` would meet, if any.
    pub fn approve_fault(&self, from: Address, spender: Address, amount: Amount, expiration_ledger: u32) -> (r:
        Option<TokenFault>)
        ensures
            r == fault_of(self@.spec_approve(from, spender, amount, expiration_ledger).1),
    {
        if amount < 0 {
            Some(TokenFault::NegativeAmount)
        } else {
            None
        }
    }

    /// The fault `transfer` would meet, if any.
    pub fn transfer_fault(&self, from: Address, to: Address, amount: Amount) -> (r: Option<TokenFault>)
        requires
            self.wf(),
        ensures
            r == fault_of(self@.spec_transfer(from, to, amount).1),
    {
        let mut c = self.snapshot();
        match c.try_transfer(from, to, amount) {
            Ok(_) => None,
            Err(f) => Some(f),
        }
    }

    /// The fault `transfer_from` would meet, if any.
    pub fn transfer_from_fault(&self, spender: Address, from: Address, to: Address, amount: Amount) -> (r: Option<
        TokenFault,
    >)
        requires
            self.wf(),
        ensures
            r == fault_of(self@.spec_transfer_from(spender, from, to, amount).1),
    {
        let mut c = self.snapshot();
        match c.try_transfer_from(spender, from, to, amount) {
            Ok(_) => None,
            Err(f) => Some(f),
        }
    }

    /// The fault `burn` would meet, if any.
    pub fn burn_fault(&self, from: Address, amount: Amount) -> (r: Option<TokenFault>)
        ensures
            r == fault_of(self@.spec_burn(from, amount).1),
    {
        if amount < 0 {
            Some(TokenFault::NegativeAmount)
        } else if self.read_balance(from) < amount {
            Some(TokenFault::InsufficientBalance)
        } else {
            None
        }
    }

    /// The fault `burn_from` would meet, if any.
    pub fn burn_from_fault(&self, spender: Address, from: Address, amount: Amount) -> (r: Option<TokenFault>)
        ensures
            r == fault_of(self@.spec_burn_from(spender, from, amount).1),
    {
        if amount < 0 {
            Some(TokenFault::NegativeAmount)
        } else if self.read_allowance(from, spender) < amount {
            Some(TokenFault::InsufficientAllowance)
        } else if self.read_balance(from) < amount {
            Some(TokenFault::InsufficientBalance)
        } else {
            None
        }
    }

    /// The transfer itself (see `TokenState::spec_transfer`).
    fn do_transfer(&mut self, from: Address, to: Address, amount: Amount) -> (result: Result<(), TokenFault>)
        requires
            old(self).wf(),
        ensures
            final(self).wf(),
            (final(self)@, result) == old(self)@.spec_transfer(from, to, amount),
    {
        if amount < 0 {
            return Err(TokenFault::NegativeAmount);
        }
        if amount == 0 {
            return Ok(());
        }
        let bal = self.read_balance(from);
        if bal < amount {
            return Err(TokenFault::InsufficientBalance);
        }
        let cfg = match self.fee_config {
            Some(c) => c,
            None => return Err(TokenFault::NotInitialized),
        };
        let product = match amount.checked_mul(cfg.fee_basis_points as i128) {
            Some(p) => p,
            None => return Err(TokenFault::Overflow),
        };
        let fee = product / 10000;
        let actual_fee: Amount = if fee == 0 && cfg.fee_basis_points > 0 && amount > 1 {
            1
        } else {
            fee
        };
        proof {
            lemma_transfer_fee_bounds(amount as int, cfg.fee_basis_points as int);
        }
        let net_amount = amount - actual_fee;
        let ghost old_state = self@;
        let ghost b1 = write_bal(old_state.balances, from, bal - amount);
        // The credits are checked before any write, so a refused transfer changes nothing.
        let fee_bal = if actual_fee > 0 {
            let current = if cfg.recipient == from {
                bal - amount
            } else {
                self.read_balance(cfg.recipient)
            };
            match current.checked_add(actual_fee) {
                Some(t) => t,
                None => return Err(TokenFault::Overflow),
            }
        } else {
            0
        };
        assert(actual_fee > 0 ==> fee_bal == read_bal(b1, cfg.recipient) + actual_fee);
        let ghost b2 = if actual_fee > 0 {
            write_bal(b1, cfg.recipient, fee_bal as int)
        } else {
            b1
        };
        let to_bal = if net_amount > 0 {
            let current = if actual_fee > 0 && to == cfg.recipient {
                fee_bal
            } else if to == from {
                bal - amount
            } else {
                self.read_balance(to)
            };
            assert(current == read_bal(b2, to));
            match current.checked_add(net_amount) {
                Some(t) => t,
                None => return Err(TokenFault::Overflow),
            }
        } else {
            0
        };
        self.write_balance(from, bal - amount);
        if actual_fee > 0 {
            self.write_balance(cfg.recipient, fee_bal);
            self.events.push(TokenEvent::Transfer { from, to: cfg.recipient, amount: actual_fee });
        }
        if net_amount > 0 {
            self.write_balance(to, to_bal);
            self.events.push(TokenEvent::Transfer { from, to, amount: net_amount });
        }
        assert(self@ =~= old_state.spec_transfer(from, to, amount).0);
        Ok(())
    }
}

/// A transfer between three distinct accounts (sender, receiver, fee
/// recipient) of a positive amount up to the sender's balance debits the
/// sender by exactly the amount and credits the fee and the rest of the amount;
/// no other balance changes, and the three balances keep their sum.
pub proof fn law_transfer_moves_amount(s: TokenState, from: Address, to: Address, amount: Amount)
    requires
        s.wf(),
        s.fee_config is Some,
        from != to,
        from != s.fee_config->0.recipient,
        to != s.fee_config->0.recipient,
        s.balance_of(from) >= amount > 0,
        s.spec_transfer(from, to, amount).1 is Ok,
    ensures
        ({
            let t = s.spec_transfer(from, to, amount).0;
            let rec = s.fee_config->0.recipient;
            let fee = transfer_fee(amount as int, s.fee_config->0.fee_basis_points as int);
            &&& 0 <= fee <= amount
            &&& t.balance_of(from) == s.balance_of(from) - amount
            &&& t.balance_of(rec) == s.balance_of(rec) + fee
            &&& t.balance_of(to) == s.balance_of(to) + (amount - fee)
            &&& t.balance_of(from) + t.balance_of(to) + t.balance_of(rec) == s.balance_of(from)
                + s.balance_of(to) + s.balance_of(rec)
            &&& forall|a: Address| a != from && a != to && a != rec ==> #[trigger] t.balance_of(a)
                == s.balance_of(a)
        }),
{
    lemma_transfer_fee_bounds(amount as int, s.fee_config->0.fee_basis_points as int);
    let rec = s.fee_config->0.recipient;
    if s.balances.contains_key(rec) {
        assert(s.balances[rec] >= 0);
    }
    if s.balances.contains_key(to) {
        assert(s.balances[to] >= 0);
    }
}

/// A burn of an amount up to the holder's balance reduces that balance by
/// exactly the amount and touches no other balance.
pub proof fn law_burn_reduces_balance(s: TokenState, from: Address, amount: Amount)
    requires
        s.wf(),
        s.balance_of(from) >= amount >= 0,
    ensures
        s.spec_burn(from, amount).1 is Ok,
        s.spec_burn(from, amount).0.balance_of(from) == s.balance_of(from) - amount,
        forall|a: Address| a != from ==> #[trigger] s.spec_burn(from, amount).0.balance_of(a) == s.balance_of(a),
{
}

/// After an approval, the allowance reads back the approved amount.
pub proof fn law_approve_sets_allowance(
    s: TokenState,
    from: Address,
    spender: Address,
    amount: Amount,
    expiration_ledger: u32,
)
    requires
        amount >= 0,
    ensures
        s.spec_approve(from, spender, amount, expiration_ledger).1 is Ok,
        s.spec_approve(from, spender, amount, expiration_ledger).0.allowance_of(from, spender) == amount,
{
}

/// A transfer out of an allowance uses up exactly the amount moved.
pub proof fn law_transfer_from_spends_allowance(
    s: TokenState,
    spender: Address,
    from: Address,
    to: Address,
    amount: Amount,
)
    requires
        s.spec_transfer_from(spender, from, to, amount).1 is Ok,
    ensures
        s.spec_transfer_from(spender, from, to, amount).0.allowance_of(from, spender) == s.allowance_of(
            from,
            spender,
        ) - amount,
{
}

/// Every refused call leaves the token as it was.
pub proof fn law_refusal_changes_nothing(s: TokenState, a: Address, b: Address, c: Address, amount: Amount)
    ensures
        s.spec_transfer(a, b, amount).1 is Err ==> s.spec_transfer(a, b, amount).0 == s,
        s.spec_transfer_from(a, b, c, amount).1 is Err ==> s.spec_transfer_from(a, b, c, amount).0 == s,
        s.spec_burn(a, amount).1 is Err ==> s.spec_burn(a, amount).0 == s,
        s.spec_burn_from(a, b, amount).1 is Err ==> s.spec_burn_from(a, b, amount).0 == s,
        s.spec_mint(a, amount).1 is Err ==> s.spec_mint(a, amount).0 == s,
        s.spec_approve(a, b, amount, 0).1 is Err ==> s.spec_approve(a, b, amount, 0).0 == s,
{
}

/// Minting adds: a mint of a non-negative amount on an initialised token
/// succeeds unless the receiver's balance would overflow, and then raises
/// the receiver's balance by exactly the amount and leaves every other
/// balance and every allowance as it was.
pub proof fn law_mint_adds_to_balance(s: TokenState, to: Address, amount: Amount)
    requires
        s.wf(),
    ensures
        s.spec_mint(to, amount).1 is Ok <==> (amount >= 0 && s.admin is Some && s.balance_of(to) + amount
            <= i128::MAX),
        s.spec_mint(to, amount).1 is Ok ==> {
            let t = s.spec_mint(to, amount).0;
            &&& t.balance_of(to) == s.balance_of(to) + amount
            &&& forall|a: Address| a != to ==> #[trigger] t.balance_of(a) == s.balance_of(a)
            &&& forall|f: Address, sp: Address| #[trigger] t.allowance_of(f, sp) == s.allowance_of(f, sp)
        },
{
}

/// Two mints to the same account add up: the balance grows by both amounts.
pub proof fn law_mints_accumulate(s: TokenState, to: Address, a: Amount, b: Amount)
    requires
        s.wf(),
        s.spec_mint(to, a).1 is Ok,
        s.spec_mint(to, a).0.spec_mint(to, b).1 is Ok,
    ensures
        s.spec_mint(to, a).0.spec_mint(to, b).0.balance_of(to) == s.balance_of(to) + a + b,
{
}

/// A burn out of an allowance takes exactly the amount off the holder's
/// balance and off the spender's allowance, when both cover it, and
/// changes no other balance.
pub proof fn law_burn_from_spends_both(s: TokenState, spender: Address, from: Address, amount: Amount)
    requires
        s.wf(),
    ensures
        s.spec_burn_from(spender, from, amount).1 is Ok <==> (amount >= 0 && s.allowance_of(from, spender) >= amount
            && s.balance_of(from) >= amount),
        s.spec_burn_from(spender, from, amount).1 is Ok ==> {
            let t = s.spec_burn_from(spender, from, amount).0;
            &&& t.balance_of(from) == s.balance_of(from) - amount
            &&& t.allowance_of(from, spender) == s.allowance_of(from, spender) - amount
            &&& forall|a: Address| a != from ==> #[trigger] t.balance_of(a) == s.balance_of(a)
        },
{
}

} // verus!
