use vstd::prelude::*;
use crate::counter::{
    Counter, CounterError, ErrorCode, Increment, Initialize, after_increment, after_initialize,
    increment_outcome, initialize_outcome, initialized, placed_at, well_placed,
};
use crate::key::Key;

verus! {

broadcast use vstd::array::group_array_axioms;

/// The records after a series of increments, each applied to what the one
/// before left, whether or not it succeeded.
pub open spec fn run_increments(records: Map<Key, Counter>, ctxs: Seq<Increment>) -> Map<Key, Counter>
    decreases ctxs.len(),
{
    if ctxs.len() == 0 {
        records
    } else {
        run_increments(after_increment(records, ctxs[0]), ctxs.drop_first())
    }
}

/// How many increments of a series succeed on the counter at `address`.
pub open spec fn successes_at(records: Map<Key, Counter>, ctxs: Seq<Increment>, address: Key) -> nat
    decreases ctxs.len(),
{
    if ctxs.len() == 0 {
        0
    } else {
        let rest = successes_at(after_increment(records, ctxs[0]), ctxs.drop_first(), address);
        if ctxs[0].counter == address && increment_outcome(records, ctxs[0]) is Ok {
            rest + 1
        } else {
            rest
        }
    }
}

/// After any series of increments, failed ones among them, the count of a
/// counter is its count before plus the number of increments that succeeded
/// on it; its authority stays the same.
pub proof fn lemma_count_is_start_plus_successes(
    records: Map<Key, Counter>,
    ctxs: Seq<Increment>,
    address: Key,
)
    requires
        records.contains_key(address),
    ensures
        run_increments(records, ctxs).contains_key(address),
        run_increments(records, ctxs)[address].authority == records[address].authority,
        run_increments(records, ctxs)[address].count == records[address].count + successes_at(
            records,
            ctxs,
            address,
        ),
    decreases ctxs.len(),
{
    if ctxs.len() > 0 {
        lemma_count_is_start_plus_successes(after_increment(records, ctxs[0]), ctxs.drop_first(), address);
    }
}

/// Increments keep every record: an address that holds a counter still holds one.
pub proof fn lemma_increments_keep_records(records: Map<Key, Counter>, ctxs: Seq<Increment>, address: Key)
    requires
        records.contains_key(address),
    ensures
        run_increments(records, ctxs).contains_key(address),
{
    lemma_count_is_start_plus_successes(records, ctxs, address);
}

/// An identity other than a counter's authority cannot increment it: the
/// attempt is refused as unauthorized and leaves every record as it was.
pub proof fn lemma_other_identity_refused(records: Map<Key, Counter>, address: Key, intruder: Key)
    requires
        records.contains_key(address),
        records[address].authority != intruder,
    ensures
        increment_outcome(records, Increment { counter: address, authority: intruder })
            == Err::<(), CounterError>(CounterError::Unauthorized),
        after_increment(records, Increment { counter: address, authority: intruder }) == records,
{
}

/// At the largest count, an increment by the authority fails with overflow,
/// and so does every retry: any number of them leaves the records, and the
/// count at its largest value, unchanged.
pub proof fn lemma_overflow_persists(records: Map<Key, Counter>, address: Key, retries: nat)
    requires
        records.contains_key(address),
        records[address].count == u64::MAX,
    ensures
        increment_outcome(records, Increment { counter: address, authority: records[address].authority })
            == Err::<(), CounterError>(CounterError::Program(ErrorCode::Overflow)),
        run_increments(
            records,
            Seq::new(retries, |i: int| Increment { counter: address, authority: records[address].authority }),
        ) == records,
    decreases retries,
{
    let ctx = Increment { counter: address, authority: records[address].authority };
    let ctxs = Seq::new(retries, |i: int| ctx);
    if retries > 0 {
        lemma_overflow_persists(records, address, (retries - 1) as nat);
        assert(ctxs.drop_first() =~= Seq::new((retries - 1) as nat, |i: int| ctx));
    }
}

/// Once an initialization has succeeded, initializing again at the same
/// address is refused as already initialized, after any increments, and the
/// count is not reset.
pub proof fn lemma_no_reinitialization(
    records: Map<Key, Counter>,
    ctx: Initialize,
    derived: Option<(Seq<u8>, u8)>,
    increments: Seq<Increment>,
)
    requires
        initialize_outcome(records, ctx, derived) is Ok,
    ensures
        initialize_outcome(run_increments(initialized(records, ctx), increments), ctx, derived)
            == Err::<(), CounterError>(CounterError::AlreadyInitialized),
        after_initialize(run_increments(initialized(records, ctx), increments), ctx, derived)
            == run_increments(initialized(records, ctx), increments),
{
    lemma_increments_keep_records(initialized(records, ctx), increments, ctx.counter);
}

/// One authority has at most one counter: where every record stands at the
/// address derived from its authority, two records with the same authority
/// stand at the same address.
pub proof fn lemma_one_counter_per_authority(
    records: Map<Key, Counter>,
    program_id: Key,
    first: Key,
    second: Key,
)
    requires
        well_placed(records, program_id),
        records.contains_key(first),
        records.contains_key(second),
        records[first].authority == records[second].authority,
    ensures
        first == second,
{
    assert(placed_at(records[first].authority, program_id, first));
    assert(placed_at(records[second].authority, program_id, second));
    assert(first.bytes =~= second.bytes);
}

} // verus!
