//! Addresses of the actors that take part in the protocol.
//!
//! An address names a process on a node. Its text form is
//! `node@process_name:package_name:publisher_node`. Parsing and rendering of
//! that form are left to `kinode_process_lib`; everything else here is plain
//! data with a mathematical view.

use std::str::FromStr;
use vstd::prelude::*;
use vstd::std_specs::cmp::PartialEqSpecImpl;
use vstd::string::StringExecFns;

verus! {

/// A package: its name and the node that published it.
#[derive(Debug)]
pub struct PackageId {
    pub package_name: String,
    pub publisher_node: String,
}

/// A process: its name inside a package.
#[derive(Debug)]
pub struct ProcessId {
    pub process_name: String,
    pub package_name: String,
    pub publisher_node: String,
}

/// A process on a node.
#[derive(Debug)]
pub struct Address {
    pub node: String,
    pub process: ProcessId,
}

/// Why a text is not an address.
#[derive(Debug, Clone, Copy, PartialEq, Eq, Structural)]
pub enum AddressParseError {
    TooManyAts,
    TooManyColons,
    MissingNodeId,
    MissingField,
}

/// What a [`PackageId`] stands for in contracts.
pub struct PackageIdView {
    pub package_name: Seq<char>,
    pub publisher_node: Seq<char>,
}

/// What a [`ProcessId`] stands for in contracts.
pub struct ProcessIdView {
    pub process_name: Seq<char>,
    pub package_name: Seq<char>,
    pub publisher_node: Seq<char>,
}

/// What an [`Address`] stands for in contracts.
pub struct AddressView {
    pub node: Seq<char>,
    pub process: ProcessIdView,
}

impl View for PackageId {
    type V = PackageIdView;

    open spec fn view(&self) -> PackageIdView {
        PackageIdView { package_name: self.package_name@, publisher_node: self.publisher_node@ }
    }
}

impl DeepView for PackageId {
    type V = PackageIdView;

    open spec fn deep_view(&self) -> PackageIdView {
        self@
    }
}

impl View for ProcessId {
    type V = ProcessIdView;

    open spec fn view(&self) -> ProcessIdView {
        ProcessIdView {
            process_name: self.process_name@,
            package_name: self.package_name@,
            publisher_node: self.publisher_node@,
        }
    }
}

impl DeepView for ProcessId {
    type V = ProcessIdView;

    open spec fn deep_view(&self) -> ProcessIdView {
        self@
    }
}

impl View for Address {
    type V = AddressView;

    open spec fn view(&self) -> AddressView {
        AddressView { node: self.node@, process: self.process@ }
    }
}

impl DeepView for Address {
    type V = AddressView;

    open spec fn deep_view(&self) -> AddressView {
        self@
    }
}

impl ProcessIdView {
    /// The package that the process belongs to.
    pub open spec fn package_id(self) -> PackageIdView {
        PackageIdView { package_name: self.package_name, publisher_node: self.publisher_node }
    }

    /// The text form `process_name:package_name:publisher_node`.
    pub open spec fn rendered(self) -> Seq<char> {
        self.process_name + seq![':'] + self.package_name + seq![':'] + self.publisher_node
    }
}

impl PackageIdView {
    /// The text form `package_name:publisher_node`.
    pub open spec fn rendered(self) -> Seq<char> {
        self.package_name + seq![':'] + self.publisher_node
    }
}

impl AddressView {
    /// The package that the addressed process belongs to.
    pub open spec fn package_id(self) -> PackageIdView {
        self.process.package_id()
    }

    /// The text form `node@process_name:package_name:publisher_node`.
    pub open spec fn rendered(self) -> Seq<char> {
        self.node + seq!['@'] + self.process.rendered()
    }
}

/// The result of `kinode_process_lib`'s address parser on a text, as a
/// function of that text.
pub uninterp spec fn address_from_str(input: Seq<char>) -> Result<AddressView, AddressParseError>;

/// The view of a parse result.
pub open spec fn parse_result_view(r: Result<Address, AddressParseError>) -> Result<
    AddressView,
    AddressParseError,
> {
    match r {
        Ok(a) => Ok(a@),
        Err(e) => Err(e),
    }
}

/// Calls `<kinode_process_lib::Address as FromStr>::from_str`. The contract
/// claims only that the outcome is a function of the text: the parsed fields
/// on success, and on failure which of the four errors the parser reported.
#[verifier::external_body]
fn parse_address(input: &str) -> (r: Result<Address, AddressParseError>)
    ensures
        parse_result_view(r) == address_from_str(input@),
{
    match kinode_process_lib::Address::from_str(input) {
        Ok(a) => Ok(Address {
            node: a.node,
            process: ProcessId {
                process_name: a.process.process_name,
                package_name: a.process.package_name,
                publisher_node: a.process.publisher_node,
            },
        }),
        Err(kinode_process_lib::AddressParseError::TooManyAts) => Err(AddressParseError::TooManyAts),
        Err(kinode_process_lib::AddressParseError::TooManyColons) => Err(AddressParseError::TooManyColons),
        Err(kinode_process_lib::AddressParseError::MissingNodeId) => Err(AddressParseError::MissingNodeId),
        Err(kinode_process_lib::AddressParseError::MissingField) => Err(AddressParseError::MissingField),
    }
}

/// Calls `kinode_process_lib`'s `Display` for `Address` through `to_string`.
/// The contract claims what the two `Display` impls of that crate write: the
/// node, `@`, then the three names of the process separated by `:`.
#[verifier::external_body]
fn render_address(address: &Address) -> (r: String)
    ensures
        r@ == address@.rendered(),
{
    let process = kinode_process_lib::ProcessId {
        process_name: address.process.process_name.clone(),
        package_name: address.process.package_name.clone(),
        publisher_node: address.process.publisher_node.clone(),
    };
    kinode_process_lib::Address { node: address.node.clone(), process }.to_string()
}

impl Clone for PackageId {
    fn clone(&self) -> (r: Self)
        ensures
            r == *self,
    {
        PackageId {
            package_name: self.package_name.clone(),
            publisher_node: self.publisher_node.clone(),
        }
    }
}

impl Clone for ProcessId {
    fn clone(&self) -> (r: Self)
        ensures
            r == *self,
    {
        ProcessId {
            process_name: self.process_name.clone(),
            package_name: self.package_name.clone(),
            publisher_node: self.publisher_node.clone(),
        }
    }
}

impl Clone for Address {
    fn clone(&self) -> (r: Self)
        ensures
            r == *self,
    {
        Address { node: self.node.clone(), process: self.process.clone() }
    }
}

impl PartialEq for PackageId {
    fn eq(&self, other: &PackageId) -> (r: bool) {
        self.package_name == other.package_name && self.publisher_node == other.publisher_node
    }
}

impl PartialEqSpecImpl for PackageId {
    open spec fn obeys_eq_spec() -> bool {
        true
    }

    open spec fn eq_spec(&self, other: &PackageId) -> bool {
        self@ == other@
    }
}

impl PartialEq for ProcessId {
    fn eq(&self, other: &ProcessId) -> (r: bool) {
        self.process_name == other.process_name && self.package_name == other.package_name
            && self.publisher_node == other.publisher_node
    }
}

impl PartialEqSpecImpl for ProcessId {
    open spec fn obeys_eq_spec() -> bool {
        true
    }

    open spec fn eq_spec(&self, other: &ProcessId) -> bool {
        self@ == other@
    }
}

impl PartialEq for Address {
    fn eq(&self, other: &Address) -> (r: bool) {
        self.node == other.node && self.process == other.process
    }
}

impl Eq for PackageId {
}

impl Eq for ProcessId {
}

impl Eq for Address {
}

impl PartialEqSpecImpl for Address {
    open spec fn obeys_eq_spec() -> bool {
        true
    }

    open spec fn eq_spec(&self, other: &Address) -> bool {
        self@ == other@
    }
}

impl ProcessId {
    /// A process id from its three names.
    pub fn new(process_name: &str, package_name: &str, publisher_node: &str) -> (r: ProcessId)
        ensures
            r@.process_name == process_name@,
            r@.package_name == package_name@,
            r@.publisher_node == publisher_node@,
    {
        ProcessId {
            process_name: process_name.to_owned(),
            package_name: package_name.to_owned(),
            publisher_node: publisher_node.to_owned(),
        }
    }
}

impl PackageId {
    /// A package id from its two names.
    pub fn new(package_name: &str, publisher_node: &str) -> (r: PackageId)
        ensures
            r@.package_name == package_name@,
            r@.publisher_node == publisher_node@,
    {
        PackageId {
            package_name: package_name.to_owned(),
            publisher_node: publisher_node.to_owned(),
        }
    }

    /// The text form `package_name:publisher_node`.
    pub fn to_string(&self) -> (r: String)
        ensures
            r@ == self@.rendered(),
    {
        let mut out = self.package_name.clone();
        out.append(":");
        out.append(self.publisher_node.as_str());
        proof {
            reveal_strlit(":");
            assert(":"@ =~= seq![':']);
        }
        out
    }
}

impl Address {
    /// An address from a node name and a process.
    pub fn new(node: &str, process: ProcessId) -> (r: Address)
        ensures
            r@.node == node@,
            r@.process == process@,
    {
        Address { node: node.to_owned(), process }
    }

    /// The node of the address.
    pub fn node(&self) -> (r: &str)
        ensures
            r@ == self@.node,
    {
        self.node.as_str()
    }

    /// The package that the addressed process belongs to.
    pub fn package_id(&self) -> (r: PackageId)
        ensures
            r@ == self@.package_id(),
    {
        PackageId {
            package_name: self.process.package_name.clone(),
            publisher_node: self.process.publisher_node.clone(),
        }
    }

    /// Parses the text form of an address. The outcome is what
    /// `kinode_process_lib` makes of the text.
    pub fn from_str(input: &str) -> (r: Result<Address, AddressParseError>)
        ensures
            parse_result_view(r) == address_from_str(input@),
    {
        parse_address(input)
    }

    /// The text form `node@process_name:package_name:publisher_node`.
    pub fn to_string(&self) -> (r: String)
        ensures
            r@ == self@.rendered(),
    {
        render_address(self)
    }
}

} // verus!
