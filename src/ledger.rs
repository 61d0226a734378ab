use vstd::prelude::*;
use crate::address::{counter_address, derive_counter_address, derived_view};
use crate::counter::{
    Counter, CounterError, ErrorCode, Increment, Initialize, after_increment, after_initialize, increment_outcome,
    increment_outcome_with, incremented, initialize_outcome, initialized, placed_at, well_placed,
};
use crate::key::Key;

verus! {

/// The storage of one counter program: a map from address to record, kept as
/// a list of entries with distinct addresses.
pub struct Ledger {
    program_id: Key,
    entries: Vec<(Key, Counter)>,
    records: Ghost<Map<Key, Counter>>,
}

impl View for Ledger {
    type V = Map<Key, Counter>;

    /// The records, by address.
    closed spec fn view(&self) -> Map<Key, Counter> {
        self.records@
    }
}

impl Ledger {
    /// The program under which the addresses are derived.
    pub closed spec fn program(&self) -> Key {
        self.program_id
    }

    /// The entries hold exactly the records, one entry per address.
    pub closed spec fn entries_match(&self) -> bool {
        &&& forall|i: int|
            0 <= i < self.entries@.len() ==> #[trigger] self.records@.contains_key(self.entries@[i].0)
                && self.records@[self.entries@[i].0] == self.entries@[i].1
        &&& forall|i: int, j: int|
            0 <= i < j < self.entries@.len() ==> #[trigger] self.entries@[i].0 != #[trigger] self.entries@[j].0
        &&& forall|k: Key| #[trigger]
            self.records@.contains_key(k) ==> exists|i: int|
                0 <= i < self.entries@.len() && #[trigger] self.entries@[i].0 == k
    }

    /// The ledger is consistent, and every record stands at the address
    /// derived from its authority.
    pub open spec fn wf(&self) -> bool {
        &&& self.entries_match()
        &&& well_placed(self@, self.program())
    }

    /// An empty ledger for the program `program_id`.
    pub fn new(program_id: Key) -> (l: Ledger)
        ensures
            l.wf(),
            l@ == Map::<Key, Counter>::empty(),
            l.program() == program_id,
    {
        Ledger { program_id, entries: Vec::new(), records: Ghost(Map::empty()) }
    }

    /// The program under which the addresses are derived.
    pub fn program_id(&self) -> (k: Key)
        ensures
            k == self.program(),
    {
        self.program_id
    }

    /// The index of the entry at `address`, if there is one.
    fn find(&self, address: &Key) -> (r: Option<usize>)
        requires
            self.entries_match(),
        ensures
            match r {
                Some(i) => i < self.entries@.len() && self.entries@[i as int].0 == *address,
                None => !self@.contains_key(*address),
            },
    {
        let mut i: usize = 0;
        while i < self.entries.len()
            invariant
                0 <= i <= self.entries@.len(),
                forall|j: int| 0 <= j < i ==> self.entries@[j].0 != *address,
            decreases self.entries@.len() - i,
        {
            if self.entries[i].0.same_as(address) {
                return Some(i);
            }
            i = i + 1;
        }
        None
    }

    /// Whether a record exists at `address`.
    pub fn contains(&self, address: &Key) -> (r: bool)
        requires
            self.wf(),
        ensures
            r == self@.contains_key(*address),
    {
        self.find(address).is_some()
    }

    /// The record at `address`, if there is one.
    pub fn read(&self, address: &Key) -> (r: Option<Counter>)
        requires
            self.wf(),
        ensures
            r == (if self@.contains_key(*address) { Some(self@[*address]) } else { None::<Counter> }),
    {
        match self.find(address) {
            Some(i) => Some(self.entries[i].1),
            None => None,
        }
    }

    /// Adds a record at an address where none is.
    fn insert_new(&mut self, address: Key, record: Counter)
        requires
            old(self).entries_match(),
            !old(self)@.contains_key(address),
        ensures
            final(self).entries_match(),
            final(self)@ == old(self)@.insert(address, record),
            final(self).program() == old(self).program(),
    {
        let ghost old_entries = self.entries@;
        self.entries.push((address, record));
        self.records = Ghost(self.records@.insert(address, record));
        assert forall|k: Key| #[trigger] self.records@.contains_key(k) implies exists|i: int|
            0 <= i < self.entries@.len() && #[trigger] self.entries@[i].0 == k by {
            if k == address {
                assert(self.entries@[old_entries.len() as int].0 == k);
            } else {
                let i = choose|i: int| 0 <= i < old_entries.len() && #[trigger] old_entries[i].0 == k;
                assert(self.entries@[i].0 == k);
            }
        }
    }

    /// Replaces the record of the entry at `i`.
    fn replace(&mut self, i: usize, record: Counter)
        requires
            old(self).entries_match(),
            i < old(self).entries@.len(),
        ensures
            final(self).entries_match(),
            final(self)@ == old(self)@.insert(old(self).entries@[i as int].0, record),
            final(self).program() == old(self).program(),
    {
        let ghost old_entries = self.entries@;
        let address = self.entries[i].0;
        self.entries.set(i, (address, record));
        self.records = Ghost(self.records@.insert(address, record));
        assert forall|j: int| 0 <= j < self.entries@.len() && j != i implies
            #[trigger] self.entries@[j].0 != address by {
            assert(old_entries[j].0 != old_entries[i as int].0);
        }
        assert forall|k: Key| #[trigger] self.records@.contains_key(k) implies exists|j: int|
            0 <= j < self.entries@.len() && #[trigger] self.entries@[j].0 == k by {
            if k == address {
                assert(self.entries@[i as int].0 == k);
            } else {
                let j = choose|j: int| 0 <= j < old_entries.len() && #[trigger] old_entries[j].0 == k;
                assert(self.entries@[j].0 == k);
            }
        }
    }

    /// Puts back a record read from persistent storage, at the address derived
    /// from its authority, and returns that address. Refused where no address
    /// can be derived or a record already stands there.
    pub fn restore(&mut self, record: Counter) -> (r: Result<Key, CounterError>)
        requires
            old(self).wf(),
        ensures
            final(self).wf(),
            final(self).program() == old(self).program(),
            (r is Ok) <==> counter_address(record.authority, old(self).program()) is Some
                && forall|k: Key| #[trigger] placed_at(record.authority, old(self).program(), k)
                    ==> !old(self)@.contains_key(k),
            counter_address(record.authority, old(self).program()) is None
                ==> r == Err::<Key, CounterError>(CounterError::AddressUnavailable),
            match r {
                Ok(k) => placed_at(record.authority, old(self).program(), k)
                    && final(self)@ == old(self)@.insert(k, record),
                Err(e) => final(self)@ == old(self)@ && (e == CounterError::AddressUnavailable
                    || e == CounterError::AlreadyInitialized),
            },
    {
        match derive_counter_address(&record.authority, &self.program_id) {
            None => Err(CounterError::AddressUnavailable),
            Some((address, _bump)) => {
                if self.find(&address).is_some() {
                    assert(placed_at(record.authority, self.program(), address));
                    Err(CounterError::AlreadyInitialized)
                } else {
                    proof {
                        assert forall|k: Key| #[trigger] placed_at(record.authority, self.program(), k)
                            implies !self@.contains_key(k) by {
                            assert(k.bytes =~= address.bytes);
                        }
                    }
                    self.insert_new(address, record);
                    Ok(address)
                }
            }
        }
    }
}

/// Initialization, given what the derivation for the signer gave: the record
/// is created at the supplied address where that address is the derived one
/// and nothing stands there yet.
pub fn initialize_with(ledger: &mut Ledger, ctx: &Initialize, derived: Option<(Key, u8)>) -> (r: Result<(), CounterError>)
    requires
        old(ledger).entries_match(),
    ensures
        final(ledger).entries_match(),
        final(ledger).program() == old(ledger).program(),
        r == initialize_outcome(old(ledger)@, *ctx, derived_view(derived)),
        final(ledger)@ == (if r is Ok { initialized(old(ledger)@, *ctx) } else { old(ledger)@ }),
{
    match derived {
        None => Err(CounterError::AddressUnavailable),
        Some((address, _bump)) => {
            if !address.same_as(&ctx.counter) {
                Err(CounterError::AddressMismatch)
            } else if ledger.find(&ctx.counter).is_some() {
                Err(CounterError::AlreadyInitialized)
            } else {
                ledger.insert_new(ctx.counter, Counter { authority: ctx.authority, count: 0 });
                Ok(())
            }
        }
    }
}

/// Creates the counter of the signer at the supplied address, with the signer
/// as its authority and a count of zero.
pub fn initialize(ledger: &mut Ledger, ctx: &Initialize) -> (r: Result<(), CounterError>)
    requires
        old(ledger).wf(),
    ensures
        final(ledger).wf(),
        final(ledger).program() == old(ledger).program(),
        r == initialize_outcome(old(ledger)@, *ctx, counter_address(ctx.authority, old(ledger).program())),
        final(ledger)@ == (if r is Ok { initialized(old(ledger)@, *ctx) } else { old(ledger)@ }),
        final(ledger)@ == after_initialize(old(ledger)@, *ctx, counter_address(ctx.authority, old(ledger).program())),
{
    let derived = derive_counter_address(&ctx.authority, &ledger.program_id);
    let r = initialize_with(ledger, ctx, derived);
    proof {
        if r is Ok {
            assert(placed_at(ctx.authority, ledger.program(), ctx.counter));
        }
    }
    r
}

/// Increment, given what the derivation for the signer gave: the count goes
/// up by one where a record stands at the supplied address, the signer is its
/// authority, the address is the derived one and the count is below its largest value.
pub fn increment_with(ledger: &mut Ledger, ctx: &Increment, derived: Option<(Key, u8)>) -> (r: Result<(), CounterError>)
    requires
        old(ledger).entries_match(),
    ensures
        final(ledger).entries_match(),
        final(ledger).program() == old(ledger).program(),
        r == increment_outcome_with(old(ledger)@, *ctx, derived_view(derived)),
        final(ledger)@ == (if r is Ok { incremented(old(ledger)@, *ctx) } else { old(ledger)@ }),
{
    match ledger.find(&ctx.counter) {
        None => Err(CounterError::NotInitialized),
        Some(i) => {
            let record = ledger.entries[i].1;
            if !record.authority.same_as(&ctx.authority) {
                return Err(CounterError::Unauthorized);
            }
            match derived {
                None => Err(CounterError::AddressUnavailable),
                Some((address, _bump)) => {
                    if !address.same_as(&ctx.counter) {
                        Err(CounterError::AddressMismatch)
                    } else {
                        match record.count.checked_add(1) {
                            None => Err(CounterError::Program(ErrorCode::Overflow)),
                            Some(count) => {
                                ledger.replace(i, Counter { authority: record.authority, count });
                                Ok(())
                            }
                        }
                    }
                }
            }
        }
    }
}

/// Adds one to the count of the counter at the supplied address, on behalf of
/// the signer. A refused increment changes nothing.
pub fn increment(ledger: &mut Ledger, ctx: &Increment) -> (r: Result<(), CounterError>)
    requires
        old(ledger).wf(),
    ensures
        final(ledger).wf(),
        final(ledger).program() == old(ledger).program(),
        r == increment_outcome(old(ledger)@, *ctx),
        final(ledger)@ == (if r is Ok { incremented(old(ledger)@, *ctx) } else { old(ledger)@ }),
        final(ledger)@ == after_increment(old(ledger)@, *ctx),
{
    let derived = derive_counter_address(&ctx.authority, &ledger.program_id);
    proof {
        if ledger@.contains_key(ctx.counter) && ledger@[ctx.counter].authority == ctx.authority {
            assert(placed_at(ctx.authority, ledger.program(), ctx.counter));
        }
    }
    let r = increment_with(ledger, ctx, derived);
    r
}

} // verus!
