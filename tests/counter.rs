use solana_counter::{
    derive_counter_address, increment, increment_with, initialize, initialize_with, program_id,
    Counter, CounterError, ErrorCode, Increment, Initialize, Key, Ledger, COUNTER_SEED, PROGRAM_ID,
};

fn owner(n: u8) -> Key {
    let mut bytes = [0u8; 32];
    bytes[0] = n;
    bytes[31] = 7;
    Key::new(bytes)
}

fn address_of(who: &Key) -> Key {
    derive_counter_address(who, &program_id()).expect("a counter address").0
}

fn init_ctx(who: &Key) -> Initialize {
    Initialize { counter: address_of(who), authority: *who }
}

fn inc_ctx(who: &Key) -> Increment {
    Increment { counter: address_of(who), authority: *who }
}

fn count_at(ledger: &Ledger, address: &Key) -> Option<u64> {
    ledger.read(address).map(|c| c.count)
}

#[test]
fn scenario_initialize_increment_and_intruder() {
    let a = owner(1);
    let b = owner(2);
    let mut ledger = Ledger::new(program_id());
    let addr = address_of(&a);
    assert_eq!(initialize(&mut ledger, &init_ctx(&a)), Ok(()));
    assert_eq!(ledger.read(&addr), Some(Counter { authority: a, count: 0 }));
    assert_eq!(increment(&mut ledger, &inc_ctx(&a)), Ok(()));
    assert_eq!(count_at(&ledger, &addr), Some(1));
    let intruder = Increment { counter: addr, authority: b };
    assert_eq!(increment(&mut ledger, &intruder), Err(CounterError::Unauthorized));
    assert_eq!(ledger.read(&addr), Some(Counter { authority: a, count: 1 }));
}

#[test]
fn scenario_increment_before_initialize() {
    let a = owner(3);
    let mut ledger = Ledger::new(program_id());
    assert_eq!(increment(&mut ledger, &inc_ctx(&a)), Err(CounterError::NotInitialized));
    assert!(!ledger.contains(&address_of(&a)));
}

#[test]
fn scenario_overflow_at_largest_count() {
    let a = owner(4);
    let mut ledger = Ledger::new(program_id());
    let addr = ledger.restore(Counter { authority: a, count: u64::MAX }).unwrap();
    assert!(addr.same_as(&address_of(&a)));
    assert_eq!(
        increment(&mut ledger, &inc_ctx(&a)),
        Err(CounterError::Program(ErrorCode::Overflow))
    );
    assert_eq!(count_at(&ledger, &addr), Some(18446744073709551615));
}

#[test]
fn overflow_retries_never_wrap() {
    let a = owner(5);
    let mut ledger = Ledger::new(program_id());
    let addr = ledger.restore(Counter { authority: a, count: u64::MAX }).unwrap();
    for _ in 0..5 {
        assert_eq!(
            increment(&mut ledger, &inc_ctx(&a)),
            Err(CounterError::Program(ErrorCode::Overflow))
        );
        assert_eq!(count_at(&ledger, &addr), Some(u64::MAX));
    }
}

#[test]
fn increment_just_below_largest_count() {
    let a = owner(6);
    let mut ledger = Ledger::new(program_id());
    let addr = ledger.restore(Counter { authority: a, count: u64::MAX - 1 }).unwrap();
    assert_eq!(increment(&mut ledger, &inc_ctx(&a)), Ok(()));
    assert_eq!(count_at(&ledger, &addr), Some(u64::MAX));
    assert_eq!(
        increment(&mut ledger, &inc_ctx(&a)),
        Err(CounterError::Program(ErrorCode::Overflow))
    );
}

#[test]
fn count_equals_successful_increments() {
    let a = owner(7);
    let b = owner(8);
    let mut ledger = Ledger::new(program_id());
    let addr = address_of(&a);
    initialize(&mut ledger, &init_ctx(&a)).unwrap();
    let mut successes: u64 = 0;
    for round in 0..20u32 {
        let ctx = if round % 3 == 0 {
            Increment { counter: addr, authority: b }
        } else {
            inc_ctx(&a)
        };
        if increment(&mut ledger, &ctx).is_ok() {
            successes += 1;
        }
    }
    assert_eq!(successes, 13);
    assert_eq!(count_at(&ledger, &addr), Some(13));
}

#[test]
fn other_identity_always_refused() {
    let a = owner(9);
    let mut ledger = Ledger::new(program_id());
    let addr = address_of(&a);
    initialize(&mut ledger, &init_ctx(&a)).unwrap();
    increment(&mut ledger, &inc_ctx(&a)).unwrap();
    for n in 10..30u8 {
        let ctx = Increment { counter: addr, authority: owner(n) };
        assert_eq!(increment(&mut ledger, &ctx), Err(CounterError::Unauthorized));
        assert_eq!(count_at(&ledger, &addr), Some(1));
    }
}

#[test]
fn derivation_is_deterministic() {
    let a = owner(11);
    let first = derive_counter_address(&a, &program_id()).unwrap();
    let second = derive_counter_address(&a, &program_id()).unwrap();
    assert_eq!(first, second);
}

#[test]
fn derivation_has_no_collisions() {
    let mut state: u64 = 0x2545_f491_4f6c_dd1d;
    let mut seen: Vec<Key> = Vec::new();
    for _ in 0..128 {
        let mut bytes = [0u8; 32];
        for byte in bytes.iter_mut() {
            state = state.wrapping_mul(6364136223846793005).wrapping_add(1442695040888963407);
            *byte = (state >> 56) as u8;
        }
        let address = address_of(&Key::new(bytes));
        assert!(!seen.contains(&address));
        seen.push(address);
    }
    assert_eq!(seen.len(), 128);
}

#[test]
fn derived_address_is_not_the_owner() {
    let a = owner(12);
    let (address, _bump) = derive_counter_address(&a, &program_id()).unwrap();
    assert_ne!(address, a);
    assert_ne!(address, program_id());
}

#[test]
fn derivation_depends_on_program() {
    let a = owner(13);
    let other = Key::new([5u8; 32]);
    let here = derive_counter_address(&a, &program_id()).unwrap();
    let there = derive_counter_address(&a, &other).unwrap();
    assert_ne!(here.0, there.0);
}

#[test]
fn reinitialization_refused_and_count_kept() {
    let a = owner(14);
    let mut ledger = Ledger::new(program_id());
    let addr = address_of(&a);
    initialize(&mut ledger, &init_ctx(&a)).unwrap();
    increment(&mut ledger, &inc_ctx(&a)).unwrap();
    increment(&mut ledger, &inc_ctx(&a)).unwrap();
    assert_eq!(initialize(&mut ledger, &init_ctx(&a)), Err(CounterError::AlreadyInitialized));
    assert_eq!(ledger.read(&addr), Some(Counter { authority: a, count: 2 }));
}

#[test]
fn initialize_at_wrong_address_refused() {
    let a = owner(15);
    let b = owner(16);
    let mut ledger = Ledger::new(program_id());
    let ctx = Initialize { counter: address_of(&b), authority: a };
    assert_eq!(initialize(&mut ledger, &ctx), Err(CounterError::AddressMismatch));
    assert!(!ledger.contains(&address_of(&b)));
    assert!(!ledger.contains(&address_of(&a)));
}

#[test]
fn initialize_without_derived_address_refused() {
    let a = owner(17);
    let mut ledger = Ledger::new(program_id());
    let ctx = init_ctx(&a);
    assert_eq!(initialize_with(&mut ledger, &ctx, None), Err(CounterError::AddressUnavailable));
    assert!(!ledger.contains(&ctx.counter));
}

#[test]
fn increment_with_derivation_results() {
    let a = owner(18);
    let mut ledger = Ledger::new(program_id());
    let addr = address_of(&a);
    initialize(&mut ledger, &init_ctx(&a)).unwrap();
    let ctx = inc_ctx(&a);
    assert_eq!(increment_with(&mut ledger, &ctx, None), Err(CounterError::AddressUnavailable));
    assert_eq!(
        increment_with(&mut ledger, &ctx, Some((owner(19), 255))),
        Err(CounterError::AddressMismatch)
    );
    assert_eq!(count_at(&ledger, &addr), Some(0));
    assert_eq!(increment_with(&mut ledger, &ctx, Some((addr, 254))), Ok(()));
    assert_eq!(count_at(&ledger, &addr), Some(1));
}

#[test]
fn two_owners_keep_separate_counters() {
    let a = owner(20);
    let b = owner(21);
    let mut ledger = Ledger::new(program_id());
    initialize(&mut ledger, &init_ctx(&a)).unwrap();
    initialize(&mut ledger, &init_ctx(&b)).unwrap();
    increment(&mut ledger, &inc_ctx(&a)).unwrap();
    increment(&mut ledger, &inc_ctx(&a)).unwrap();
    increment(&mut ledger, &inc_ctx(&b)).unwrap();
    assert_eq!(count_at(&ledger, &address_of(&a)), Some(2));
    assert_eq!(count_at(&ledger, &address_of(&b)), Some(1));
}

#[test]
fn restore_refuses_second_record_of_an_authority() {
    let a = owner(22);
    let mut ledger = Ledger::new(program_id());
    ledger.restore(Counter { authority: a, count: 5 }).unwrap();
    assert_eq!(
        ledger.restore(Counter { authority: a, count: 9 }),
        Err(CounterError::AlreadyInitialized)
    );
    assert_eq!(count_at(&ledger, &address_of(&a)), Some(5));
}

#[test]
fn constants_and_key_accessors() {
    assert_eq!(&COUNTER_SEED, b"counter");
    assert_eq!(program_id().to_bytes(), PROGRAM_ID);
    assert_eq!(Ledger::new(program_id()).program_id(), program_id());
    assert!(owner(1).same_as(&owner(1)));
    assert!(!owner(1).same_as(&owner(2)));
}
