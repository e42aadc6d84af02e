use vstd::prelude::*;

pub mod bytes;
pub mod laws;
pub mod memory;
pub mod store;

pub use memory::InMemoryDBStruct;
pub use store::InMemoryDBTrait;

verus! {

/// `std::io::Error`, the fault that a store backed by real storage reports.
/// Declared so that it can stand in the stores' result types; it is carried
/// through and never looked into.
#[verifier::external_type_specification]
#[verifier::external_body]
pub struct ExIoError(std::io::Error);

} // verus!
