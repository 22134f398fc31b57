use kinode_pubsub::address::{Address, ProcessId};
use kinode_pubsub::binary_helpers::{
    get_pub_wasm, get_pub_wasm_hash, get_sub_wasm, get_sub_wasm_hash, populate_wasm, same_hash,
    wasm_path, PopulateError, PopulateState, PopulateStep, VfsAction, VfsEvent, WasmBinaries,
    WasmType,
};

fn our() -> Address {
    Address::new("our.os", ProcessId::new("app", "pubsub", "template.os"))
}

const ABC_SHA256: [u8; 32] = [
    0xba, 0x78, 0x16, 0xbf, 0x8f, 0x01, 0xcf, 0xea, 0x41, 0x41, 0x40, 0xde, 0x5d, 0xae, 0x22, 0x23,
    0xb0, 0x03, 0x61, 0xa3, 0x96, 0x17, 0x7a, 0x9c, 0xb4, 0x10, 0xff, 0x61, 0xf2, 0x00, 0x15, 0xad,
];

const EMPTY_SHA256: [u8; 32] = [
    0xe3, 0xb0, 0xc4, 0x42, 0x98, 0xfc, 0x1c, 0x14, 0x9a, 0xfb, 0xf4, 0xc8, 0x99, 0x6f, 0xb9, 0x24,
    0x27, 0xae, 0x41, 0xe4, 0x64, 0x9b, 0x93, 0x4c, 0xa4, 0x95, 0x99, 0x1b, 0x78, 0x52, 0xb8, 0x55,
];

#[test]
fn binaries_carry_their_digests() {
    let binaries = WasmBinaries::new(b"abc".to_vec(), Vec::new());
    assert_eq!(get_pub_wasm(&binaries), &b"abc".to_vec());
    assert_eq!(get_sub_wasm(&binaries), &Vec::<u8>::new());
    assert_eq!(get_pub_wasm_hash(&binaries), &ABC_SHA256);
    assert_eq!(get_sub_wasm_hash(&binaries), &EMPTY_SHA256);
}

#[test]
fn same_hash_compares_every_byte() {
    let mut other = ABC_SHA256;
    assert!(same_hash(&ABC_SHA256, &other));
    other[31] ^= 1;
    assert!(!same_hash(&ABC_SHA256, &other));
    assert!(!same_hash(&ABC_SHA256, &EMPTY_SHA256));
}

#[test]
fn wasm_paths_name_package_and_executable() {
    assert_eq!(wasm_path(&our(), WasmType::Pub), "pubsub:template.os/pkg/pub.wasm");
    assert_eq!(wasm_path(&our(), WasmType::Sub), "pubsub:template.os/pkg/sub.wasm");
}

#[test]
fn populate_is_done_when_the_hash_matches() {
    let binaries = WasmBinaries::new(b"abc".to_vec(), b"def".to_vec());
    let first = populate_wasm(&our(), WasmType::Pub, &binaries, PopulateState::Start, VfsEvent::Unexpected);
    assert_eq!(
        first,
        PopulateStep::Next(
            PopulateState::Checking,
            VfsAction::Hash { path: "pubsub:template.os/pkg/pub.wasm".to_string() }
        )
    );
    let second = populate_wasm(
        &our(),
        WasmType::Pub,
        &binaries,
        PopulateState::Checking,
        VfsEvent::Hash(ABC_SHA256),
    );
    assert_eq!(second, PopulateStep::Done);
}

#[test]
fn populate_writes_and_verifies_when_the_hash_differs() {
    let binaries = WasmBinaries::new(b"abc".to_vec(), b"def".to_vec());
    let path = "pubsub:template.os/pkg/pub.wasm".to_string();
    let write = PopulateStep::Next(
        PopulateState::Writing,
        VfsAction::Write { path: path.clone(), bytes: b"abc".to_vec() },
    );
    for event in [
        VfsEvent::Hash(EMPTY_SHA256),
        VfsEvent::Failed("no such file".to_string()),
        VfsEvent::Unexpected,
        VfsEvent::Written,
    ] {
        let step = populate_wasm(&our(), WasmType::Pub, &binaries, PopulateState::Checking, event);
        assert_eq!(step, write);
    }
    let verify = populate_wasm(&our(), WasmType::Pub, &binaries, PopulateState::Writing, VfsEvent::Written);
    assert_eq!(verify, PopulateStep::Next(PopulateState::Verifying, VfsAction::Hash { path }));
    let done = populate_wasm(
        &our(),
        WasmType::Pub,
        &binaries,
        PopulateState::Verifying,
        VfsEvent::Hash(ABC_SHA256),
    );
    assert_eq!(done, PopulateStep::Done);
}

#[test]
fn populate_fails_on_errors_after_the_first_check() {
    let binaries = WasmBinaries::new(b"abc".to_vec(), b"def".to_vec());
    let step = |state, event| populate_wasm(&our(), WasmType::Sub, &binaries, state, event);
    assert_eq!(
        step(PopulateState::Writing, VfsEvent::Failed("disk full".to_string())),
        PopulateStep::Failed(PopulateError::Vfs("disk full".to_string()))
    );
    assert_eq!(
        step(PopulateState::Writing, VfsEvent::Hash(ABC_SHA256)),
        PopulateStep::Failed(PopulateError::UnexpectedResponse)
    );
    assert_eq!(
        step(PopulateState::Verifying, VfsEvent::Hash(ABC_SHA256)),
        PopulateStep::Failed(PopulateError::HashMismatch(WasmType::Sub))
    );
    assert_eq!(
        step(PopulateState::Verifying, VfsEvent::Failed("gone".to_string())),
        PopulateStep::Failed(PopulateError::Vfs("gone".to_string()))
    );
    assert_eq!(
        step(PopulateState::Verifying, VfsEvent::Written),
        PopulateStep::Failed(PopulateError::UnexpectedResponse)
    );
}
