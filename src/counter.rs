use vstd::prelude::*;
use crate::address::counter_address;
use crate::key::Key;

verus! {

/// The record of one counter.
#[derive(Clone, Copy, Debug, PartialEq, Eq)]
pub struct Counter {
    /// The one identity allowed to change the record.
    pub authority: Key,
    /// How many increments have succeeded since initialization.
    pub count: u64,
}

/// The accounts of an initialization: the address where the counter is to be
/// created and the signer who will own it.
#[derive(Clone, Copy, Debug)]
pub struct Initialize {
    pub counter: Key,
    pub authority: Key,
}

/// The accounts of an increment: the address of the counter and the signer.
#[derive(Clone, Copy, Debug)]
pub struct Increment {
    pub counter: Key,
    pub authority: Key,
}

/// The errors that the counter program itself raises.
#[derive(Clone, Copy, Debug, PartialEq, Eq, Structural)]
pub enum ErrorCode {
    /// The count is at its largest value.
    Overflow,
}

/// Why an operation was refused. Nothing is changed by a refused operation.
#[derive(Clone, Copy, Debug, PartialEq, Eq, Structural)]
pub enum CounterError {
    /// No bump seed gives a valid address for the owner.
    AddressUnavailable,
    /// The address supplied is not the one derived from the signer.
    AddressMismatch,
    /// A record already exists at the address.
    AlreadyInitialized,
    /// No record exists at the address.
    NotInitialized,
    /// The signer is not the record's authority.
    Unauthorized,
    /// An error of the counter program.
    Program(ErrorCode),
}

/// Whether `address` is the address derived for `authority` under `program_id`.
pub open spec fn placed_at(authority: Key, program_id: Key, address: Key) -> bool {
    match counter_address(authority, program_id) {
        Some((a, _)) => a == address.bytes@,
        None => false,
    }
}

/// Every record stands at the address derived from its authority.
pub open spec fn well_placed(records: Map<Key, Counter>, program_id: Key) -> bool {
    forall|k: Key| #[trigger]
        records.contains_key(k) ==> placed_at(records[k].authority, program_id, k)
}

/// The outcome of an initialization, given what the derivation for the signer gave.
pub open spec fn initialize_outcome(
    records: Map<Key, Counter>,
    ctx: Initialize,
    derived: Option<(Seq<u8>, u8)>,
) -> Result<(), CounterError> {
    match derived {
        None => Err(CounterError::AddressUnavailable),
        Some((a, _)) => if a != ctx.counter.bytes@ {
            Err(CounterError::AddressMismatch)
        } else if records.contains_key(ctx.counter) {
            Err(CounterError::AlreadyInitialized)
        } else {
            Ok(())
        },
    }
}

/// The records after a successful initialization.
pub open spec fn initialized(records: Map<Key, Counter>, ctx: Initialize) -> Map<Key, Counter> {
    records.insert(ctx.counter, Counter { authority: ctx.authority, count: 0 })
}

/// The outcome of an increment, given what the derivation for the signer gave.
pub open spec fn increment_outcome_with(
    records: Map<Key, Counter>,
    ctx: Increment,
    derived: Option<(Seq<u8>, u8)>,
) -> Result<(), CounterError> {
    if !records.contains_key(ctx.counter) {
        Err(CounterError::NotInitialized)
    } else if records[ctx.counter].authority != ctx.authority {
        Err(CounterError::Unauthorized)
    } else {
        match derived {
            None => Err(CounterError::AddressUnavailable),
            Some((a, _)) => if a != ctx.counter.bytes@ {
                Err(CounterError::AddressMismatch)
            } else if records[ctx.counter].count == u64::MAX {
                Err(CounterError::Program(ErrorCode::Overflow))
            } else {
                Ok(())
            },
        }
    }
}

/// The outcome of an increment on well-placed records.
pub open spec fn increment_outcome(records: Map<Key, Counter>, ctx: Increment) -> Result<(), CounterError> {
    if !records.contains_key(ctx.counter) {
        Err(CounterError::NotInitialized)
    } else if records[ctx.counter].authority != ctx.authority {
        Err(CounterError::Unauthorized)
    } else if records[ctx.counter].count == u64::MAX {
        Err(CounterError::Program(ErrorCode::Overflow))
    } else {
        Ok(())
    }
}

/// The records after a successful increment: the count at the address goes up by one.
pub open spec fn incremented(records: Map<Key, Counter>, ctx: Increment) -> Map<Key, Counter> {
    records.insert(
        ctx.counter,
        Counter {
            authority: records[ctx.counter].authority,
            count: (records[ctx.counter].count + 1) as u64,
        },
    )
}

/// The records after an increment, whether or not it succeeded.
pub open spec fn after_increment(records: Map<Key, Counter>, ctx: Increment) -> Map<Key, Counter> {
    if increment_outcome(records, ctx) is Ok {
        incremented(records, ctx)
    } else {
        records
    }
}

/// The records after an initialization, whether or not it succeeded.
pub open spec fn after_initialize(
    records: Map<Key, Counter>,
    ctx: Initialize,
    derived: Option<(Seq<u8>, u8)>,
) -> Map<Key, Counter> {
    if initialize_outcome(records, ctx, derived) is Ok {
        initialized(records, ctx)
    } else {
        records
    }
}

} // verus!
