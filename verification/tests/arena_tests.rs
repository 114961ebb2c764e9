use mps_arena::arena::Arena;
use mps_arena::arena::ArenaRef;
use mps_arena::args::ArgEntry;
use mps_arena::errors::ArenaError;
use mps_arena::errors::error_from_code;
use mps_arena::registry::Registry;
use mps_arena::registry::generate_registry;
use mps_arena::vm::VmArena;
use mps_arena::vm::round_up_to_grain;
use mps_arena::vm::reservation_conforms;

const ARENA_TEST_SIZE: u64 = 2 << 32;

fn test_registry() -> Registry {
    let lines: Vec<Vec<u8>> = vec![
        b"/* keyword arguments */".to_vec(),
        b"#define MPS_KEY_ARENA_SIZE_FIELD size".to_vec(),
        b"#define MPS_KEY_COMMIT_LIMIT_FIELD size".to_vec(),
    ];
    generate_registry(&lines)
}

/// Counts creation calls, standing in for the engine's creation entry
/// point: it accepts the argument block a request built and replies with a
/// result code and a raw handle, as the engine would.
struct FakeEngine {
    creations: u64,
}

fn fake_engine_create(engine: &mut FakeEngine, _block_len: usize) -> (i32, u64) {
    engine.creations += 1;
    (0, 0x1000)
}

#[test]
fn arena_create_and_drop() {
    let reg = test_registry();
    let req = VmArena::with_capacity(&reg, ARENA_TEST_SIZE).unwrap();
    assert_eq!(req.capacity_bytes(), ARENA_TEST_SIZE);
    let arena = req.complete(0, 0x1000).unwrap();
    let mut shared: ArenaRef = arena.into();
    assert_eq!(shared.release(), Some(0x1000));
}

#[test]
fn arena_commited() {
    let reg = test_registry();
    let req = VmArena::with_capacity(&reg, ARENA_TEST_SIZE).unwrap();
    let mut arena = req.complete(0, 0x2000).unwrap();
    arena.record_stats(ARENA_TEST_SIZE + 4096, 65536).unwrap();
    assert!(arena.reserved() > arena.commited());
}

#[test]
fn creation_request_encodes_capacity_under_arena_size_key() {
    let reg = test_registry();
    let req = VmArena::with_capacity(&reg, 8 * 1024 * 1024).unwrap();
    let block = req.args();
    assert_eq!(block.entry_count(), 2);
    match block.entry_at(0) {
        ArgEntry::Pair { symbol, field, value } => {
            assert_eq!(symbol.as_slice(), &b"_mps_key_ARENA_SIZE"[..]);
            assert_eq!(field.as_slice(), &b"size"[..]);
            assert_eq!(*value, 8 * 1024 * 1024);
        },
        ArgEntry::End => panic!("capacity pair expected first"),
    }
    assert!(matches!(block.entry_at(1), ArgEntry::End));
}

#[test]
fn with_capacity_needs_the_key_in_the_registry() {
    let empty = generate_registry(&Vec::new());
    match VmArena::with_capacity(&empty, ARENA_TEST_SIZE) {
        Ok(_) => panic!("a registry without ARENA_SIZE cannot request a capacity"),
        Err(e) => assert_eq!(e, ArenaError::UnknownKey),
    }
}

#[test]
fn shared_references_prevent_premature_destruction() {
    let reg = test_registry();
    let arena = VmArena::with_capacity(&reg, ARENA_TEST_SIZE)
        .unwrap()
        .complete(0, 0x3000)
        .unwrap();
    let mut shared: ArenaRef = arena.into();
    shared.acquire();
    assert_eq!(shared.ref_count(), 2);

    let mut destroy_actions = 0;
    if shared.release().is_some() {
        destroy_actions += 1;
    }
    assert!(shared.live());
    assert_eq!(shared.as_raw(), 0x3000);

    if let Some(handle) = shared.release() {
        assert_eq!(handle, 0x3000);
        destroy_actions += 1;
    }
    assert!(!shared.live());
    assert_eq!(destroy_actions, 1);
}

#[test]
fn end_to_end_eight_gigabyte_arena() {
    let capacity: u64 = 1 << 33;
    let reg = test_registry();
    let req = VmArena::with_capacity(&reg, capacity).unwrap();

    let mut engine = FakeEngine { creations: 0 };
    let (code, handle) = fake_engine_create(&mut engine, req.args().entry_count());
    assert_eq!(engine.creations, 1);

    let mut arena = req.complete(code, handle).unwrap();
    arena.record_stats(capacity, capacity / 2).unwrap();
    assert!(arena.commited() < arena.reserved());
    assert_eq!(arena.as_raw(), handle);

    let mut shared: ArenaRef = arena.into();
    let mut destroyed = 0;
    if let Some(h) = shared.release() {
        assert_eq!(h, handle);
        destroyed += 1;
    }
    assert_eq!(destroyed, 1);
    assert!(!shared.live());
}

#[test]
fn invalid_configuration_yields_typed_error_and_no_handle() {
    let reg = test_registry();
    let req = VmArena::with_capacity(&reg, 3).unwrap();
    let outcome = req.complete(8, 0);
    match outcome {
        Ok(_) => panic!("creation with an unsupported configuration must fail"),
        Err(e) => assert_eq!(e, ArenaError::Param),
    }
}

#[test]
fn creation_failure_codes_are_translated() {
    let reg = test_registry();
    for (code, expected) in [
        (1, ArenaError::Fail),
        (2, ArenaError::Resource),
        (3, ArenaError::Memory),
        (4, ArenaError::Limit),
        (5, ArenaError::Unimplemented),
        (6, ArenaError::Io),
        (7, ArenaError::CommitLimit),
        (8, ArenaError::Param),
        (99, ArenaError::Protocol),
    ] {
        let req = VmArena::with_capacity(&reg, 4096).unwrap();
        assert_eq!(req.complete(code, 0x4000).unwrap_err(), expected);
    }
}

#[test]
fn success_code_with_null_handle_is_a_protocol_breach() {
    let reg = test_registry();
    let req = VmArena::with_capacity(&reg, 4096).unwrap();
    assert_eq!(req.complete(0, 0).unwrap_err(), ArenaError::Protocol);
}

#[test]
fn error_code_translation_table() {
    assert_eq!(error_from_code(0), None);
    assert_eq!(error_from_code(1), Some(ArenaError::Fail));
    assert_eq!(error_from_code(2), Some(ArenaError::Resource));
    assert_eq!(error_from_code(3), Some(ArenaError::Memory));
    assert_eq!(error_from_code(4), Some(ArenaError::Limit));
    assert_eq!(error_from_code(5), Some(ArenaError::Unimplemented));
    assert_eq!(error_from_code(6), Some(ArenaError::Io));
    assert_eq!(error_from_code(7), Some(ArenaError::CommitLimit));
    assert_eq!(error_from_code(8), Some(ArenaError::Param));
    assert_eq!(error_from_code(-1), Some(ArenaError::Protocol));
    assert_eq!(error_from_code(1000), Some(ArenaError::Protocol));
}

#[test]
fn inconsistent_readings_are_rejected() {
    let reg = test_registry();
    let mut arena = VmArena::with_capacity(&reg, 4096).unwrap().complete(0, 0x5000).unwrap();
    arena.record_stats(100, 100).unwrap();
    assert_eq!(arena.record_stats(50, 60).unwrap_err(), ArenaError::Protocol);
    assert_eq!(arena.reserved(), 100);
    assert_eq!(arena.commited(), 100);
}

#[test]
fn round_up_to_grain_exact_values() {
    assert_eq!(round_up_to_grain(5, 4), Some(8));
    assert_eq!(round_up_to_grain(8, 4), Some(8));
    assert_eq!(round_up_to_grain(0, 4096), Some(0));
    assert_eq!(round_up_to_grain(1 << 33, 4096), Some(1 << 33));
    assert_eq!(round_up_to_grain((1 << 33) + 1, 4096), Some((1 << 33) + 4096));
    assert_eq!(round_up_to_grain(u64::MAX, 2), None);
    assert_eq!(round_up_to_grain(u64::MAX, 1), Some(u64::MAX));
}

#[test]
fn reservation_conformance_check() {
    assert!(reservation_conforms(1 << 33, 1 << 20, (1 << 33) - 5, 4096));
    assert!(!reservation_conforms(1 << 33, (1 << 33) + 1, 1 << 20, 4096));
    assert!(!reservation_conforms(4096, 0, 4097, 4096));
    assert!(reservation_conforms(8192, 0, 4097, 4096));
}
