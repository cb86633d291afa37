//! The decoded form of a version 8 schema descriptor, as plain data.
//!
//! These types hold what `frame-metadata` yields when it decodes a schema
//! blob, reduced to the parts that the interpretation in
//! [`crate::metadata`] reads.

use vstd::prelude::*;

verus! {

/// The reserved magic number that opens every schema blob (`meta`, little endian).
pub const META_RESERVED: u32 = 0x6174656d;

/// The one schema version that is understood.
pub const SUPPORTED_VERSION: u8 = 8;

/// A part of a descriptor that may still be in its encode-only form.
#[derive(Debug)]
pub enum DecodeDifferent<O> {
    /// The encode-only form: it carries nothing that can be read.
    Encode,
    /// The decoded value.
    Decoded(O),
}

/// The hash algorithm that addresses the entries of a storage map.
#[derive(Clone, Copy, Debug, PartialEq, Eq, Structural)]
pub enum StorageHasher {
    Blake2_128,
    Blake2_256,
    Twox128,
    Twox256,
    Twox64Concat,
}

/// What a storage entry yields when nothing is stored under its key.
#[derive(Clone, Copy, Debug, PartialEq, Eq, Structural)]
pub enum StorageEntryModifier {
    /// Nothing: the entry is optional.
    Optional,
    /// The default value of the entry.
    Default,
}

/// The kind of a storage entry.
#[derive(Clone, Copy, Debug, PartialEq, Eq, Structural)]
pub enum StorageEntryType {
    /// A single value.
    Plain,
    /// A map from hashed keys to values.
    KeyedMap { hasher: StorageHasher, is_linked: bool },
    /// A map with two keys.
    DoubleMap { hasher: StorageHasher, key2_hasher: StorageHasher },
}

/// One storage entry of a module.
#[derive(Debug)]
pub struct StorageEntryDescriptor {
    pub name: DecodeDifferent<String>,
    pub modifier: StorageEntryModifier,
    pub ty: StorageEntryType,
    pub default: DecodeDifferent<Vec<u8>>,
}

/// The storage section of a module.
#[derive(Debug)]
pub struct StorageDescriptor {
    /// The prefix that the section declares for itself.
    pub prefix: DecodeDifferent<String>,
    pub entries: DecodeDifferent<Vec<StorageEntryDescriptor>>,
}

/// One call of a module.
#[derive(Debug)]
pub struct FunctionDescriptor {
    pub name: DecodeDifferent<String>,
}

/// One event of a module, with the type names of its arguments.
#[derive(Debug)]
pub struct EventDescriptor {
    pub name: DecodeDifferent<String>,
    pub arguments: DecodeDifferent<Vec<String>>,
}

/// One module, with the sections it declares.
#[derive(Debug)]
pub struct ModuleDescriptor {
    pub name: DecodeDifferent<String>,
    pub storage: Option<DecodeDifferent<StorageDescriptor>>,
    pub calls: Option<DecodeDifferent<Vec<FunctionDescriptor>>>,
    pub event: Option<DecodeDifferent<Vec<EventDescriptor>>>,
}

/// The body of a version 8 schema: its modules, in declaration order.
#[derive(Debug)]
pub struct RuntimeMetadataV8 {
    pub modules: DecodeDifferent<Vec<ModuleDescriptor>>,
}

/// A schema body, tagged with its version.
#[derive(Debug)]
pub enum RuntimeMetadata {
    /// A version 8 body.
    V8(RuntimeMetadataV8),
    /// A body of another version, which is not interpreted.
    Unsupported(u32),
}

/// A schema as it arrives: the magic number, then the versioned body.
#[derive(Debug)]
pub struct RuntimeMetadataPrefixed(pub u32, pub RuntimeMetadata);

} // verus!
