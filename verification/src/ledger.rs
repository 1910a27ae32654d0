//! The host ledger, modeled as a store of counter records keyed by account
//! address, together with the instruction set that mutates it.

use crate::record::Authlink;
use crate::record::AuthlinkError;
use vstd::hash_map::HashMapWithView;
use vstd::prelude::*;

verus! {

broadcast use
    vstd::std_specs::hash::group_hash_axioms,
    crate::record::Authlink::lemma_spec_with_count,
;

/// The resolved accounts for `initialize`: the address at which the new
/// record is created. The paying wallet reaches the handler separately, as a
/// resolved balance.
#[derive(Clone, Copy, Debug, PartialEq, Eq, Structural)]
pub struct InitializeAuthlink {
    pub authlink: u64,
}

/// The resolved accounts for `close`: the address of the record to destroy.
/// The wallet that receives the refunded deposit reaches the handler
/// separately, as a resolved balance.
#[derive(Clone, Copy, Debug, PartialEq, Eq, Structural)]
pub struct CloseAuthlink {
    pub authlink: u64,
}

/// The resolved accounts for `increment`, `decrement` and `set`: the address
/// of the record to mutate. No wallet is touched.
#[derive(Clone, Copy, Debug, PartialEq, Eq, Structural)]
pub struct Update {
    pub authlink: u64,
}

/// One submitted operation, tagged with the accounts it consumes. `execute`
/// dispatches each variant to its handler.
#[derive(Clone, Copy, Debug, PartialEq, Eq, Structural)]
pub enum Instruction {
    Initialize(InitializeAuthlink),
    Close(CloseAuthlink),
    Increment(Update),
    Decrement(Update),
    SetCount(Update, u8),
}

/// The ledger after a record is created at `addr` with count zero.
pub open spec fn spec_initialize(m: Map<u64, Authlink>, addr: u64) -> Map<u64, Authlink> {
    m.insert(addr, Authlink::spec_with(0))
}

/// The ledger after the record at `addr` is incremented.
pub open spec fn spec_increment(m: Map<u64, Authlink>, addr: u64) -> Map<u64, Authlink>
    recommends
        m.contains_key(addr),
        m[addr].spec_count() < 255,
{
    m.insert(addr, Authlink::spec_with((m[addr].spec_count() + 1) as u8))
}

/// The ledger after the record at `addr` is decremented.
pub open spec fn spec_decrement(m: Map<u64, Authlink>, addr: u64) -> Map<u64, Authlink>
    recommends
        m.contains_key(addr),
        m[addr].spec_count() > 0,
{
    m.insert(addr, Authlink::spec_with((m[addr].spec_count() - 1) as u8))
}

/// The ledger after the record at `addr` is overwritten with `value`.
pub open spec fn spec_set(m: Map<u64, Authlink>, addr: u64, value: u8) -> Map<u64, Authlink> {
    m.insert(addr, Authlink::spec_with(value))
}

/// The ledger after the record at `addr` is destroyed.
pub open spec fn spec_close(m: Map<u64, Authlink>, addr: u64) -> Map<u64, Authlink> {
    m.remove(addr)
}

/// The ledger: every existing counter record, addressed by its account
/// address, plus the fixed storage deposit that backs one record.
///
/// A record exists exactly while its address is in the view's domain: put
/// there by `initialize`, taken out by `close`.
pub struct Ledger {
    records: HashMapWithView<u64, Authlink>,
    deposit: u64,
}

impl View for Ledger {
    type V = Map<u64, Authlink>;

    closed spec fn view(&self) -> Map<u64, Authlink> {
        self.records@
    }
}

impl Ledger {
    /// The deposit that backs one record's storage.
    pub closed spec fn spec_deposit(&self) -> u64 {
        self.deposit
    }

    /// The deposit that backs one record's storage.
    #[verifier::when_used_as_spec(spec_deposit)]
    pub fn deposit(&self) -> (r: u64)
        ensures
            r == self.spec_deposit(),
    {
        self.deposit
    }

    /// An empty ledger on which each record's storage costs `deposit`.
    pub fn new(deposit: u64) -> (r: Ledger)
        ensures
            r@ == Map::<u64, Authlink>::empty(),
            r.spec_deposit() == deposit,
    {
        Ledger { records: HashMapWithView::new(), deposit }
    }

    /// Reads the count of the record at `addr`, or `None` where no record
    /// exists: the host's account resolution.
    pub fn get(&self, addr: u64) -> (r: Option<u8>)
        ensures
            self@.contains_key(addr) ==> r == Some(self@[addr].spec_count()),
            !self@.contains_key(addr) ==> r is None,
    {
        match self.records.get(&addr) {
            Some(rec) => Some(rec.count()),
            None => None,
        }
    }

    /// Copies the record at `addr` out of the store, where one exists.
    fn fetch(&self, addr: u64) -> (r: Option<Authlink>)
        ensures
            self@.contains_key(addr) ==> r == Some(self@[addr]),
            !self@.contains_key(addr) ==> r is None,
    {
        match self.records.get(&addr) {
            Some(rec) => Some(*rec),
            None => None,
        }
    }

    /// Creates the record at `ctx.authlink` with count zero, funding its
    /// storage deposit from `payer`. Rejected with no state change when a
    /// record already sits at that address, or when `payer` cannot cover the
    /// deposit: creation is atomic.
    pub fn initialize(&mut self, payer: &mut u64, ctx: InitializeAuthlink) -> (r: Result<
        (),
        AuthlinkError,
    >)
        ensures
            final(self).spec_deposit() == old(self).spec_deposit(),
            old(self)@.contains_key(ctx.authlink) ==> r == Err::<(), AuthlinkError>(
                AuthlinkError::AlreadyExists,
            ) && *final(self) == *old(self) && *final(payer) == *old(payer),
            !old(self)@.contains_key(ctx.authlink) && *old(payer) < old(self).spec_deposit()
                ==> r == Err::<(), AuthlinkError>(AuthlinkError::InsufficientFunds) && *final(self)
                == *old(self) && *final(payer) == *old(payer),
            !old(self)@.contains_key(ctx.authlink) && *old(payer) >= old(self).spec_deposit()
                ==> r is Ok && final(self)@ == spec_initialize(old(self)@, ctx.authlink)
                && *final(payer) == *old(payer) - old(self).spec_deposit(),
    {
        if self.records.contains_key(&ctx.authlink) {
            Err(AuthlinkError::AlreadyExists)
        } else if *payer < self.deposit {
            Err(AuthlinkError::InsufficientFunds)
        } else {
            *payer = *payer - self.deposit;
            self.records.insert(ctx.authlink, Authlink::new());
            Ok(())
        }
    }

    /// Adds one to the record at `ctx.authlink`. Fails with `NotFound` where
    /// no record exists, and with `Overflow` where the count stands at 255;
    /// either failure writes nothing.
    ///
    /// No authority is checked beyond the host's caller authentication: any
    /// caller may mutate any record it can address.
    pub fn increment(&mut self, ctx: Update) -> (r: Result<(), AuthlinkError>)
        ensures
            final(self).spec_deposit() == old(self).spec_deposit(),
            !old(self)@.contains_key(ctx.authlink) ==> r == Err::<(), AuthlinkError>(
                AuthlinkError::NotFound,
            ) && *final(self) == *old(self),
            old(self)@.contains_key(ctx.authlink) && old(self)@[ctx.authlink].spec_count() == 255
                ==> r == Err::<(), AuthlinkError>(AuthlinkError::Overflow)
                && *final(self) == *old(self),
            old(self)@.contains_key(ctx.authlink) && old(self)@[ctx.authlink].spec_count() < 255
                ==> r is Ok && final(self)@ == spec_increment(old(self)@, ctx.authlink),
    {
        match self.fetch(ctx.authlink) {
            None => Err(AuthlinkError::NotFound),
            Some(mut rec) => match rec.increment() {
                Err(e) => Err(e),
                Ok(()) => {
                    self.records.insert(ctx.authlink, rec);
                    Ok(())
                },
            },
        }
    }

    /// Takes one from the record at `ctx.authlink`. Fails with `NotFound`
    /// where no record exists, and with `Underflow` where the count stands at
    /// 0; either failure writes nothing.
    pub fn decrement(&mut self, ctx: Update) -> (r: Result<(), AuthlinkError>)
        ensures
            final(self).spec_deposit() == old(self).spec_deposit(),
            !old(self)@.contains_key(ctx.authlink) ==> r == Err::<(), AuthlinkError>(
                AuthlinkError::NotFound,
            ) && *final(self) == *old(self),
            old(self)@.contains_key(ctx.authlink) && old(self)@[ctx.authlink].spec_count() == 0
                ==> r == Err::<(), AuthlinkError>(AuthlinkError::Underflow)
                && *final(self) == *old(self),
            old(self)@.contains_key(ctx.authlink) && old(self)@[ctx.authlink].spec_count() > 0
                ==> r is Ok && final(self)@ == spec_decrement(old(self)@, ctx.authlink),
    {
        match self.fetch(ctx.authlink) {
            None => Err(AuthlinkError::NotFound),
            Some(mut rec) => match rec.decrement() {
                Err(e) => Err(e),
                Ok(()) => {
                    self.records.insert(ctx.authlink, rec);
                    Ok(())
                },
            },
        }
    }

    /// Overwrites the count of the record at `ctx.authlink` with `value`,
    /// whatever it held before. Succeeds for every byte whenever the record
    /// exists; fails with `NotFound`, writing nothing, where it does not.
    pub fn set(&mut self, ctx: Update, value: u8) -> (r: Result<(), AuthlinkError>)
        ensures
            final(self).spec_deposit() == old(self).spec_deposit(),
            !old(self)@.contains_key(ctx.authlink) ==> r == Err::<(), AuthlinkError>(
                AuthlinkError::NotFound,
            ) && *final(self) == *old(self),
            old(self)@.contains_key(ctx.authlink) ==> r is Ok && final(self)@ == spec_set(
                old(self)@,
                ctx.authlink,
                value,
            ),
    {
        match self.fetch(ctx.authlink) {
            None => Err(AuthlinkError::NotFound),
            Some(mut rec) => {
                rec.set(value);
                self.records.insert(ctx.authlink, rec);
                Ok(())
            },
        }
    }

    /// Destroys the record at `ctx.authlink` and refunds its storage deposit
    /// to `recipient`. Fails with `NotFound`, writing nothing, where no
    /// record exists; afterwards the address resolves to nothing until it is
    /// initialized again.
    ///
    /// No authority is checked beyond the host's caller authentication: any
    /// caller may close any record it can address and collect the refund.
    pub fn close(&mut self, recipient: &mut u64, ctx: CloseAuthlink) -> (r: Result<
        (),
        AuthlinkError,
    >)
        requires
            old(self)@.contains_key(ctx.authlink) ==> *old(recipient) + old(self).spec_deposit()
                <= u64::MAX,
        ensures
            final(self).spec_deposit() == old(self).spec_deposit(),
            !old(self)@.contains_key(ctx.authlink) ==> r == Err::<(), AuthlinkError>(
                AuthlinkError::NotFound,
            ) && final(self)@ == old(self)@ && *final(recipient) == *old(recipient),
            old(self)@.contains_key(ctx.authlink) ==> r is Ok && final(self)@ == spec_close(
                old(self)@,
                ctx.authlink,
            ) && *final(recipient) == *old(recipient) + old(self).spec_deposit(),
    {
        match self.records.remove(&ctx.authlink) {
            None => Err(AuthlinkError::NotFound),
            Some(_) => {
                *recipient = *recipient + self.deposit;
                Ok(())
            },
        }
    }

    /// Runs one instruction against the ledger: the host's dispatch.
    ///
    /// `wallet` is the resolved balance of the payer for `Initialize` and of
    /// the refund recipient for `Close`; the three update instructions touch
    /// no wallet and leave it as it is. Each variant behaves exactly as the
    /// handler it dispatches to.
    pub fn execute(&mut self, wallet: &mut u64, ix: Instruction) -> (r: Result<(), AuthlinkError>)
        requires
            ix matches Instruction::Close(ctx) && old(self)@.contains_key(ctx.authlink)
                ==> *old(wallet) + old(self).spec_deposit() <= u64::MAX,
        ensures
            final(self).spec_deposit() == old(self).spec_deposit(),
            ix matches Instruction::Initialize(ctx) ==> {
                &&& old(self)@.contains_key(ctx.authlink) ==> r == Err::<(), AuthlinkError>(
                    AuthlinkError::AlreadyExists,
                ) && final(self)@ == old(self)@ && *final(wallet) == *old(wallet)
                &&& !old(self)@.contains_key(ctx.authlink) && *old(wallet) < old(
                    self,
                ).spec_deposit() ==> r == Err::<(), AuthlinkError>(AuthlinkError::InsufficientFunds)
                    && final(self)@ == old(self)@ && *final(wallet) == *old(wallet)
                &&& !old(self)@.contains_key(ctx.authlink) && *old(wallet) >= old(
                    self,
                ).spec_deposit() ==> r is Ok && final(self)@ == spec_initialize(
                    old(self)@,
                    ctx.authlink,
                ) && *final(wallet) == *old(wallet) - old(self).spec_deposit()
            },
            ix matches Instruction::Close(ctx) ==> {
                &&& !old(self)@.contains_key(ctx.authlink) ==> r == Err::<(), AuthlinkError>(
                    AuthlinkError::NotFound,
                ) && final(self)@ == old(self)@ && *final(wallet) == *old(wallet)
                &&& old(self)@.contains_key(ctx.authlink) ==> r is Ok && final(self)@ == spec_close(
                    old(self)@,
                    ctx.authlink,
                ) && *final(wallet) == *old(wallet) + old(self).spec_deposit()
            },
            ix matches Instruction::Increment(ctx) ==> *final(wallet) == *old(wallet) && {
                &&& !old(self)@.contains_key(ctx.authlink) ==> r == Err::<(), AuthlinkError>(
                    AuthlinkError::NotFound,
                ) && final(self)@ == old(self)@
                &&& old(self)@.contains_key(ctx.authlink) && old(self)@[ctx.authlink].spec_count()
                    == 255 ==> r == Err::<(), AuthlinkError>(AuthlinkError::Overflow)
                    && final(self)@ == old(self)@
                &&& old(self)@.contains_key(ctx.authlink) && old(self)@[ctx.authlink].spec_count()
                    < 255 ==> r is Ok && final(self)@ == spec_increment(old(self)@, ctx.authlink)
            },
            ix matches Instruction::Decrement(ctx) ==> *final(wallet) == *old(wallet) && {
                &&& !old(self)@.contains_key(ctx.authlink) ==> r == Err::<(), AuthlinkError>(
                    AuthlinkError::NotFound,
                ) && final(self)@ == old(self)@
                &&& old(self)@.contains_key(ctx.authlink) && old(self)@[ctx.authlink].spec_count()
                    == 0 ==> r == Err::<(), AuthlinkError>(AuthlinkError::Underflow)
                    && final(self)@ == old(self)@
                &&& old(self)@.contains_key(ctx.authlink) && old(self)@[ctx.authlink].spec_count()
                    > 0 ==> r is Ok && final(self)@ == spec_decrement(old(self)@, ctx.authlink)
            },
            ix matches Instruction::SetCount(ctx, value) ==> *final(wallet) == *old(wallet) && {
                &&& !old(self)@.contains_key(ctx.authlink) ==> r == Err::<(), AuthlinkError>(
                    AuthlinkError::NotFound,
                ) && final(self)@ == old(self)@
                &&& old(self)@.contains_key(ctx.authlink) ==> r is Ok && final(self)@ == spec_set(
                    old(self)@,
                    ctx.authlink,
                    value,
                )
            },
    {
        match ix {
            Instruction::Initialize(ctx) => self.initialize(wallet, ctx),
            Instruction::Close(ctx) => self.close(wallet, ctx),
            Instruction::Increment(ctx) => self.increment(ctx),
            Instruction::Decrement(ctx) => self.decrement(ctx),
            Instruction::SetCount(ctx, value) => self.set(ctx, value),
        }
    }
}

/// Incrementing an existing record with room and then decrementing it leaves
/// the ledger exactly as it was.
pub proof fn lemma_increment_then_decrement(m: Map<u64, Authlink>, addr: u64)
    requires
        m.contains_key(addr),
        m[addr].spec_count() < 255,
    ensures
        spec_decrement(spec_increment(m, addr), addr) == m,
{
    let m1 = spec_increment(m, addr);
    assert(m1[addr].spec_count() == m[addr].spec_count() + 1);
    Authlink::lemma_count_determines_record(m[addr]);
    assert(spec_decrement(m1, addr) =~= m);
}

/// Creating a record at a free address and then destroying it leaves the
/// ledger exactly as it was; the two operations' contracts move the deposit
/// from the payer to the recipient in the same way.
pub proof fn lemma_initialize_then_close(m: Map<u64, Authlink>, addr: u64)
    requires
        !m.contains_key(addr),
    ensures
        spec_close(spec_initialize(m, addr), addr) == m,
{
    assert(spec_close(spec_initialize(m, addr), addr) =~= m);
}

/// A record just created is retrievable and holds count zero.
pub proof fn lemma_initialize_retrievable(m: Map<u64, Authlink>, addr: u64)
    ensures
        spec_initialize(m, addr).contains_key(addr),
        spec_initialize(m, addr)[addr].spec_count() == 0,
{
}

/// A record just closed is no longer retrievable, whatever the ledger held,
/// and every other record is untouched.
pub proof fn lemma_close_not_retrievable(m: Map<u64, Authlink>, addr: u64)
    ensures
        !spec_close(m, addr).contains_key(addr),
        forall|other: u64|
            other != addr && m.contains_key(other) ==> #[trigger] spec_close(
                m,
                addr,
            ).contains_key(other) && spec_close(m, addr)[other] == m[other],
{
}

/// Overwriting a record yields exactly the written count, whatever the record
/// held before, and every other record is untouched.
pub proof fn lemma_set_overwrites(m: Map<u64, Authlink>, addr: u64, value: u8)
    ensures
        spec_set(m, addr, value)[addr].spec_count() == value,
        forall|other: u64|
            other != addr && m.contains_key(other) ==> #[trigger] spec_set(m, addr, value)[other]
                == m[other],
{
}

} // verus!
