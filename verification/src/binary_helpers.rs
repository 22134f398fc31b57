//! The executables of the two engines and how they get into a package.
//!
//! A coordinator carries the executables of the publisher and of the
//! subscriber with it. Before it creates an engine it makes sure that the
//! package folder holds the right file: it asks the file system for the hash
//! of the file, writes the file where the hash differs, and checks the hash
//! again. The file system is the host's; [`populate_wasm`] decides each step
//! from the answer to the step before.

use crate::address::{Address, AddressView, PackageIdView};
use vstd::prelude::*;
use vstd::string::StringExecFns;

verus! {

/// Which of the two executables.
#[derive(Debug, Clone, Copy, PartialEq, Eq, Structural)]
pub enum WasmType {
    Pub,
    Sub,
}

/// The SHA-256 digest of a byte string, as `sha2_const` computes it.
pub uninterp spec fn sha256_digest(data: Seq<u8>) -> Seq<u8>;

/// Calls `sha2_const::Sha256`: `new`, `update` with the whole input,
/// `finalize`. The contract claims only that the digest is a function of the
/// input.
#[verifier::external_body]
fn calc_sha256(data: &[u8]) -> (r: [u8; 32])
    ensures
        r@ == sha256_digest(data@),
{
    sha2_const::Sha256::new().update(data).finalize()
}

/// The two executables with their digests.
#[derive(Debug)]
pub struct WasmBinaries {
    pub_wasm: Vec<u8>,
    sub_wasm: Vec<u8>,
    pub_wasm_hash: [u8; 32],
    sub_wasm_hash: [u8; 32],
}

/// View of [`WasmBinaries`]: the bytes of the two executables.
pub struct WasmBinariesView {
    pub pub_wasm: Seq<u8>,
    pub sub_wasm: Seq<u8>,
}

impl WasmBinariesView {
    /// The bytes of one executable.
    pub open spec fn bytes(self, wasm_type: WasmType) -> Seq<u8> {
        match wasm_type {
            WasmType::Pub => self.pub_wasm,
            WasmType::Sub => self.sub_wasm,
        }
    }

    /// The digest of one executable.
    pub open spec fn hash(self, wasm_type: WasmType) -> Seq<u8> {
        sha256_digest(self.bytes(wasm_type))
    }
}

impl View for WasmBinaries {
    type V = WasmBinariesView;

    closed spec fn view(&self) -> WasmBinariesView {
        WasmBinariesView { pub_wasm: self.pub_wasm@, sub_wasm: self.sub_wasm@ }
    }
}

impl WasmBinaries {
    #[verifier::type_invariant]
    spec fn digests_match(self) -> bool {
        &&& self.pub_wasm_hash@ == sha256_digest(self.pub_wasm@)
        &&& self.sub_wasm_hash@ == sha256_digest(self.sub_wasm@)
    }

    /// The two executables, with their digests computed.
    pub fn new(pub_wasm: Vec<u8>, sub_wasm: Vec<u8>) -> (r: WasmBinaries)
        ensures
            r@ == (WasmBinariesView { pub_wasm: pub_wasm@, sub_wasm: sub_wasm@ }),
    {
        let pub_wasm_hash = calc_sha256(pub_wasm.as_slice());
        let sub_wasm_hash = calc_sha256(sub_wasm.as_slice());
        WasmBinaries { pub_wasm, sub_wasm, pub_wasm_hash, sub_wasm_hash }
    }
}

/// The executable of the publisher.
pub fn get_pub_wasm(binaries: &WasmBinaries) -> (r: &Vec<u8>)
    ensures
        r@ == binaries@.pub_wasm,
{
    &binaries.pub_wasm
}

/// The executable of the subscriber.
pub fn get_sub_wasm(binaries: &WasmBinaries) -> (r: &Vec<u8>)
    ensures
        r@ == binaries@.sub_wasm,
{
    &binaries.sub_wasm
}

/// The digest of the executable of the publisher.
pub fn get_pub_wasm_hash(binaries: &WasmBinaries) -> (r: &[u8; 32])
    ensures
        r@ == binaries@.hash(WasmType::Pub),
{
    proof {
        use_type_invariant(binaries);
    }
    &binaries.pub_wasm_hash
}

/// The digest of the executable of the subscriber.
pub fn get_sub_wasm_hash(binaries: &WasmBinaries) -> (r: &[u8; 32])
    ensures
        r@ == binaries@.hash(WasmType::Sub),
{
    proof {
        use_type_invariant(binaries);
    }
    &binaries.sub_wasm_hash
}

/// The name of an executable in the path of its file.
pub open spec fn wasm_name(wasm_type: WasmType) -> Seq<char> {
    match wasm_type {
        WasmType::Pub => "pub"@,
        WasmType::Sub => "sub"@,
    }
}

/// The path of the file of an executable in a package.
pub open spec fn wasm_path_text(package: PackageIdView, wasm_type: WasmType) -> Seq<char> {
    package.rendered() + "/pkg/"@ + wasm_name(wasm_type) + ".wasm"@
}

/// The path of the file of an executable in the package of `our`.
pub fn wasm_path(our: &Address, wasm_type: WasmType) -> (r: String)
    ensures
        r@ == wasm_path_text(our@.package_id(), wasm_type),
{
    let mut path = our.package_id().to_string();
    path.append("/pkg/");
    match wasm_type {
        WasmType::Pub => path.append("pub"),
        WasmType::Sub => path.append("sub"),
    }
    path.append(".wasm");
    path
}

/// Whether two digests are the same.
pub fn same_hash(a: &[u8; 32], b: &[u8; 32]) -> (r: bool)
    ensures
        r == (a@ == b@),
{
    let mut i: usize = 0;
    while i < 32
        invariant
            i <= 32,
            forall|k: int| 0 <= k < i ==> a@[k] == b@[k],
        decreases 32 - i,
    {
        if a[i] != b[i] {
            return false;
        }
        i += 1;
    }
    proof {
        assert(a@ =~= b@);
    }
    true
}

/// Where the installation of an executable stands: which answer of the file
/// system it waits for.
#[derive(Debug, Clone, Copy, PartialEq, Eq, Structural)]
pub enum PopulateState {
    /// Nothing has been asked yet.
    Start,
    /// The hash of the file as it was found.
    Checking,
    /// The writing of the file.
    Writing,
    /// The hash of the file as it was written.
    Verifying,
}

/// What the file system answered.
#[derive(Debug, Clone, PartialEq, Eq)]
pub enum VfsEvent {
    /// The hash of the file.
    Hash([u8; 32]),
    /// The file was written.
    Written,
    /// The file system reported an error.
    Failed(String),
    /// The answer was none of the above.
    Unexpected,
}

/// View of a [`VfsEvent`].
pub enum VfsEventView {
    Hash(Seq<u8>),
    Written,
    Failed(Seq<char>),
    Unexpected,
}

impl View for VfsEvent {
    type V = VfsEventView;

    open spec fn view(&self) -> VfsEventView {
        match self {
            VfsEvent::Hash(h) => VfsEventView::Hash(h@),
            VfsEvent::Written => VfsEventView::Written,
            VfsEvent::Failed(reason) => VfsEventView::Failed(reason@),
            VfsEvent::Unexpected => VfsEventView::Unexpected,
        }
    }
}

/// What to ask of the file system.
#[derive(Debug, Clone, PartialEq, Eq)]
pub enum VfsAction {
    /// The hash of the file at a path.
    Hash { path: String },
    /// Write these bytes to the file at a path.
    Write { path: String, bytes: Vec<u8> },
}

/// View of a [`VfsAction`].
pub enum VfsActionView {
    Hash { path: Seq<char> },
    Write { path: Seq<char>, bytes: Seq<u8> },
}

impl View for VfsAction {
    type V = VfsActionView;

    open spec fn view(&self) -> VfsActionView {
        match self {
            VfsAction::Hash { path } => VfsActionView::Hash { path: path@ },
            VfsAction::Write { path, bytes } => VfsActionView::Write { path: path@, bytes: bytes@ },
        }
    }
}

/// Why an executable could not be installed.
#[derive(Debug, Clone, PartialEq, Eq)]
pub enum PopulateError {
    /// The file system reported an error.
    Vfs(String),
    /// The file system answered something else than what was asked.
    UnexpectedResponse,
    /// The file does not have the right hash after it was written.
    HashMismatch(WasmType),
}

/// View of a [`PopulateError`].
pub enum PopulateErrorView {
    Vfs(Seq<char>),
    UnexpectedResponse,
    HashMismatch(WasmType),
}

impl View for PopulateError {
    type V = PopulateErrorView;

    open spec fn view(&self) -> PopulateErrorView {
        match self {
            PopulateError::Vfs(reason) => PopulateErrorView::Vfs(reason@),
            PopulateError::UnexpectedResponse => PopulateErrorView::UnexpectedResponse,
            PopulateError::HashMismatch(t) => PopulateErrorView::HashMismatch(*t),
        }
    }
}

/// One step of the installation.
#[derive(Debug, Clone, PartialEq, Eq)]
pub enum PopulateStep {
    /// Ask this of the file system and come back in this state with the
    /// answer.
    Next(PopulateState, VfsAction),
    /// The package holds the right file.
    Done,
    /// The installation failed.
    Failed(PopulateError),
}

/// View of a [`PopulateStep`].
pub enum PopulateStepView {
    Next(PopulateState, VfsActionView),
    Done,
    Failed(PopulateErrorView),
}

impl View for PopulateStep {
    type V = PopulateStepView;

    open spec fn view(&self) -> PopulateStepView {
        match self {
            PopulateStep::Next(state, action) => PopulateStepView::Next(*state, action@),
            PopulateStep::Done => PopulateStepView::Done,
            PopulateStep::Failed(e) => PopulateStepView::Failed(e@),
        }
    }
}

/// The step that follows from a state and the answer of the file system.
///
/// At the start the hash of the file is asked for. A file with the right
/// hash ends the installation. Any other answer to that first question, an
/// error too, has the file written. An error while writing fails the
/// installation. After the writing the hash is asked for once more: the
/// right hash ends the installation, any other fails it.
pub open spec fn populate_step(
    our: AddressView,
    wasm_type: WasmType,
    binaries: WasmBinariesView,
    state: PopulateState,
    event: VfsEventView,
) -> PopulateStepView {
    let path = wasm_path_text(our.package_id(), wasm_type);
    let expected = binaries.hash(wasm_type);
    let write = PopulateStepView::Next(
        PopulateState::Writing,
        VfsActionView::Write { path, bytes: binaries.bytes(wasm_type) },
    );
    match state {
        PopulateState::Start => PopulateStepView::Next(
            PopulateState::Checking,
            VfsActionView::Hash { path },
        ),
        PopulateState::Checking => match event {
            VfsEventView::Hash(h) => if h == expected {
                PopulateStepView::Done
            } else {
                write
            },
            _ => write,
        },
        PopulateState::Writing => match event {
            VfsEventView::Written => PopulateStepView::Next(
                PopulateState::Verifying,
                VfsActionView::Hash { path },
            ),
            VfsEventView::Failed(reason) => PopulateStepView::Failed(PopulateErrorView::Vfs(reason)),
            _ => PopulateStepView::Failed(PopulateErrorView::UnexpectedResponse),
        },
        PopulateState::Verifying => match event {
            VfsEventView::Hash(h) => if h == expected {
                PopulateStepView::Done
            } else {
                PopulateStepView::Failed(PopulateErrorView::HashMismatch(wasm_type))
            },
            VfsEventView::Failed(reason) => PopulateStepView::Failed(PopulateErrorView::Vfs(reason)),
            _ => PopulateStepView::Failed(PopulateErrorView::UnexpectedResponse),
        },
    }
}

/// Decides the next step of installing an executable in the package of
/// `our`. In the state [`PopulateState::Start`] the event is not looked at.
pub fn populate_wasm(
    our: &Address,
    wasm_type: WasmType,
    binaries: &WasmBinaries,
    state: PopulateState,
    event: VfsEvent,
) -> (r: PopulateStep)
    ensures
        r@ == populate_step(our@, wasm_type, binaries@, state, event@),
{
    let path = wasm_path(our, wasm_type);
    let expected = match wasm_type {
        WasmType::Pub => get_pub_wasm_hash(binaries),
        WasmType::Sub => get_sub_wasm_hash(binaries),
    };
    match state {
        PopulateState::Start => PopulateStep::Next(PopulateState::Checking, VfsAction::Hash { path }),
        PopulateState::Checking => {
            let matches = match &event {
                VfsEvent::Hash(h) => same_hash(h, expected),
                _ => false,
            };
            if matches {
                PopulateStep::Done
            } else {
                let bytes = match wasm_type {
                    WasmType::Pub => get_pub_wasm(binaries).clone(),
                    WasmType::Sub => get_sub_wasm(binaries).clone(),
                };
                PopulateStep::Next(PopulateState::Writing, VfsAction::Write { path, bytes })
            }
        },
        PopulateState::Writing => match event {
            VfsEvent::Written => PopulateStep::Next(
                PopulateState::Verifying,
                VfsAction::Hash { path },
            ),
            VfsEvent::Failed(reason) => PopulateStep::Failed(PopulateError::Vfs(reason)),
            _ => PopulateStep::Failed(PopulateError::UnexpectedResponse),
        },
        PopulateState::Verifying => match event {
            VfsEvent::Hash(h) => if same_hash(&h, expected) {
                PopulateStep::Done
            } else {
                PopulateStep::Failed(PopulateError::HashMismatch(wasm_type))
            },
            VfsEvent::Failed(reason) => PopulateStep::Failed(PopulateError::Vfs(reason)),
            _ => PopulateStep::Failed(PopulateError::UnexpectedResponse),
        },
    }
}

} // verus!
