use mps_arena::args::ArgEntry;
use mps_arena::args::KeyRequest;
use mps_arena::args::build_args;
use mps_arena::args::make_key_symbol;
use mps_arena::errors::ArenaError;
use mps_arena::registry::Registry;
use mps_arena::registry::generate_registry;

fn reg_from(lines: &[&str]) -> Registry {
    let v: Vec<Vec<u8>> = lines.iter().map(|l| l.as_bytes().to_vec()).collect();
    generate_registry(&v)
}

fn req(name: &str, value: u64) -> KeyRequest {
    KeyRequest { name: name.as_bytes().to_vec(), value }
}

#[test]
fn symbol_carries_engine_prefix() {
    let s = make_key_symbol(b"ARENA_SIZE");
    assert_eq!(s.as_slice(), &b"_mps_key_ARENA_SIZE"[..]);
}

#[test]
fn build_encodes_pairs_in_order_with_sentinel() {
    let reg = reg_from(&[
        "#define MPS_KEY_ARENA_SIZE_FIELD size",
        "#define MPS_KEY_COMMIT_LIMIT_FIELD limit",
    ]);
    let reqs = vec![req("ARENA_SIZE", 4096), req("COMMIT_LIMIT", 99)];
    let block = build_args(&reg, &reqs).unwrap();
    assert_eq!(block.entry_count(), 3);
    match block.entry_at(0) {
        ArgEntry::Pair { symbol, field, value } => {
            assert_eq!(symbol.as_slice(), &b"_mps_key_ARENA_SIZE"[..]);
            assert_eq!(field.as_slice(), &b"size"[..]);
            assert_eq!(*value, 4096);
        },
        ArgEntry::End => panic!("first entry must be a pair"),
    }
    match block.entry_at(1) {
        ArgEntry::Pair { symbol, field, value } => {
            assert_eq!(symbol.as_slice(), &b"_mps_key_COMMIT_LIMIT"[..]);
            assert_eq!(field.as_slice(), &b"limit"[..]);
            assert_eq!(*value, 99);
        },
        ArgEntry::End => panic!("second entry must be a pair"),
    }
    assert!(matches!(block.entry_at(2), ArgEntry::End));
}

#[test]
fn build_of_no_pairs_is_just_the_sentinel() {
    let reg = reg_from(&["#define MPS_KEY_ARENA_SIZE_FIELD size"]);
    let block = build_args(&reg, &Vec::new()).unwrap();
    assert_eq!(block.entry_count(), 1);
    assert!(matches!(block.entry_at(0), ArgEntry::End));
}

#[test]
fn unknown_key_is_rejected_before_any_block_exists() {
    let reg = reg_from(&["#define MPS_KEY_ARENA_SIZE_FIELD size"]);
    let reqs = vec![req("ARENA_SIZE", 4096), req("PAUSE_TIME", 1)];
    match build_args(&reg, &reqs) {
        Ok(_) => panic!("an out-of-registry key must be rejected"),
        Err(e) => assert_eq!(e, ArenaError::UnknownKey),
    }
}

#[test]
fn unknown_key_alone_is_rejected() {
    let reg = reg_from(&[]);
    let reqs = vec![req("ARENA_SIZE", 4096)];
    assert_eq!(build_args(&reg, &reqs).unwrap_err(), ArenaError::UnknownKey);
}
