//! The calls and events of the contracts module.

use vstd::prelude::*;
use vstd::slice::slice_subrange;
use crate::codec::{
    compact, encode_bytes, encode_compact_u128, encode_compact_u64, encode_u128, length_prefixed,
    little_endian, Encoded,
};
use crate::assoc::lookup;
use crate::error::{MetadataError, MetadataErrorView};
use crate::metadata::{call_bytes, Metadata};
use crate::rpc::H256;

verus! {

/// Gas is counted in 64-bit units, so that metering can work on it efficiently.
pub type Gas = u64;

/// The name of the module in the schema.
pub open spec fn module_name() -> Seq<char> {
    "Contracts"@
}

/// The bytes that dispatch the call `function` of the contracts module with
/// the encoded arguments `args`, as the schema `metadata` numbers them.
pub open spec fn dispatch(metadata: Metadata, function: Seq<char>, args: Seq<u8>) -> Result<
    Seq<u8>,
    MetadataErrorView,
> {
    match lookup(metadata@.modules, module_name()) {
        Some(module) => call_bytes(module, function, args),
        None => Err(MetadataErrorView::ModuleNotFound(module_name())),
    }
}

/// Whether `r` holds the bytes `expected`, or the error `expected`.
pub open spec fn dispatched(
    r: Result<Encoded, MetadataError>,
    expected: Result<Seq<u8>, MetadataErrorView>,
) -> bool {
    match r {
        Ok(encoded) => expected == Ok::<Seq<u8>, MetadataErrorView>(encoded@),
        Err(e) => expected == Err::<Seq<u8>, MetadataErrorView>(e@),
    }
}

/// Encodes a call of the contracts module against the schema `metadata`.
fn encode_call(metadata: &Metadata, function: &'static str, args: &Vec<u8>) -> (r: Result<
    Encoded,
    MetadataError,
>)
    ensures
        dispatched(r, dispatch(*metadata, function@, args@)),
{
    match metadata.module("Contracts") {
        Ok(module) => module.call(function, args.as_slice()),
        Err(e) => Err(e),
    }
}

/// Stores the given binary Wasm code into the chain's storage and returns
/// its `codehash`. Contracts can be instantiated only with stored code.
#[derive(Clone, Debug, Eq, PartialEq)]
pub struct PutCodeCall<'a> {
    /// Wasm blob.
    pub code: &'a [u8],
}

impl<'a> PutCodeCall<'a> {
    /// The encoded arguments: the code behind its length.
    pub open spec fn args(self) -> Seq<u8> {
        length_prefixed(self.code@)
    }

    /// The name of the call in the schema.
    pub fn function(&self) -> (name: &'static str)
        ensures
            name@ == "put_code"@,
    {
        "put_code"
    }

    /// Encodes the arguments of the call.
    pub fn encode(&self) -> (bytes: Vec<u8>)
        requires
            self.code@.len() <= u32::MAX,
        ensures
            bytes@ == self.args(),
    {
        encode_bytes(self.code)
    }

    /// Encodes the call against the schema `metadata`.
    pub fn call(&self, metadata: &Metadata) -> (r: Result<Encoded, MetadataError>)
        requires
            self.code@.len() <= u32::MAX,
        ensures
            dispatched(r, dispatch(*metadata, "put_code"@, self.args())),
    {
        let args = self.encode();
        encode_call(metadata, "put_code", &args)
    }
}

/// Creates a new contract from the `codehash` generated by `put_code`,
/// optionally transferring some balance.
///
/// The destination address is computed from the sender and the hash of the
/// code, the contract account is instantiated at that address, the
/// constructor is run in its context, and the contract is initialized.
#[derive(Clone, Debug, Eq, PartialEq)]
pub struct InstantiateCall<'a> {
    /// Initial balance transfered to the contract.
    pub endowment: u128,
    /// Gas limit.
    pub gas_limit: Gas,
    /// Code hash returned by the put_code call.
    pub code_hash: &'a H256,
    /// Data to initialize the contract with.
    pub data: &'a [u8],
}

impl<'a> InstantiateCall<'a> {
    /// The encoded arguments: endowment and gas limit in compact form, the
    /// code hash, the data behind its length.
    pub open spec fn args(self) -> Seq<u8> {
        compact(self.endowment as nat) + compact(self.gas_limit as nat) + self.code_hash@
            + length_prefixed(self.data@)
    }

    /// The name of the call in the schema.
    pub fn function(&self) -> (name: &'static str)
        ensures
            name@ == "instantiate"@,
    {
        "instantiate"
    }

    /// Encodes the arguments of the call.
    pub fn encode(&self) -> (bytes: Vec<u8>)
        requires
            self.data@.len() <= u32::MAX,
        ensures
            bytes@ == self.args(),
    {
        let mut bytes = encode_compact_u128(self.endowment);
        let mut gas_limit = encode_compact_u64(self.gas_limit);
        bytes.append(&mut gas_limit);
        bytes.extend_from_slice(self.code_hash.0.as_slice());
        let mut data = encode_bytes(self.data);
        bytes.append(&mut data);
        proof {
            assert(bytes@ =~= self.args());
        }
        bytes
    }

    /// Encodes the call against the schema `metadata`.
    pub fn call(&self, metadata: &Metadata) -> (r: Result<Encoded, MetadataError>)
        requires
            self.data@.len() <= u32::MAX,
        ensures
            dispatched(r, dispatch(*metadata, "instantiate"@, self.args())),
    {
        let args = self.encode();
        encode_call(metadata, "instantiate", &args)
    }
}

/// Makes a call to an account, optionally transferring some balance.
///
/// If the account is a contract, its code is run and any value is
/// transferred. If it is a regular account, or no account exists and the
/// value is not less than the existential deposit, the value is transferred.
#[derive(Clone, Debug, PartialEq)]
pub struct CallCall<'a> {
    /// Address of the contract, in the node's binary encoding.
    pub dest: &'a [u8],
    /// Value to transfer to the contract.
    pub value: u128,
    /// Gas limit.
    pub gas_limit: Gas,
    /// Data to send to the contract.
    pub data: &'a [u8],
}

impl<'a> CallCall<'a> {
    /// The encoded arguments: the address, the value in sixteen bytes, the
    /// gas limit in compact form, the data behind its length.
    pub open spec fn args(self) -> Seq<u8> {
        self.dest@ + little_endian(self.value as nat, 16) + compact(self.gas_limit as nat)
            + length_prefixed(self.data@)
    }

    /// The name of the call in the schema.
    pub fn function(&self) -> (name: &'static str)
        ensures
            name@ == "call"@,
    {
        "call"
    }

    /// Encodes the arguments of the call.
    pub fn encode(&self) -> (bytes: Vec<u8>)
        requires
            self.data@.len() <= u32::MAX,
        ensures
            bytes@ == self.args(),
    {
        let mut bytes: Vec<u8> = Vec::new();
        bytes.extend_from_slice(self.dest);
        let mut value = encode_u128(self.value);
        bytes.append(&mut value);
        let mut gas_limit = encode_compact_u64(self.gas_limit);
        bytes.append(&mut gas_limit);
        let mut data = encode_bytes(self.data);
        bytes.append(&mut data);
        proof {
            assert(bytes@ =~= self.args());
        }
        bytes
    }

    /// Encodes the call against the schema `metadata`.
    pub fn call(&self, metadata: &Metadata) -> (r: Result<Encoded, MetadataError>)
        requires
            self.data@.len() <= u32::MAX,
        ensures
            dispatched(r, dispatch(*metadata, "call"@, self.args())),
    {
        let args = self.encode();
        encode_call(metadata, "call", &args)
    }
}

/// Copies `width` bytes of `data`, from position `from` on.
fn copy_bytes(data: &[u8], from: usize, width: usize) -> (bytes: Vec<u8>)
    requires
        from + width <= data@.len(),
    ensures
        bytes@ == data@.subrange(from as int, from + width),
{
    let len: usize = data.len();
    let mut bytes: Vec<u8> = Vec::new();
    bytes.extend_from_slice(slice_subrange(data, from, from + width));
    proof {
        assert(bytes@ =~= data@.subrange(from as int, from + width));
    }
    bytes
}

/// Code stored event.
#[derive(Clone, Debug, Eq, PartialEq)]
pub struct CodeStoredEvent {
    /// Code hash of the contract.
    pub code_hash: H256,
}

impl CodeStoredEvent {
    /// Reads the event from its encoded body: the first 32 bytes are the
    /// code hash. A shorter body holds no such event.
    pub fn decode(data: &[u8]) -> (event: Option<CodeStoredEvent>)
        ensures
            match event {
                Some(e) => data@.len() >= 32 && e.code_hash@ == data@.subrange(0, 32),
                None => data@.len() < 32,
            },
    {
        if data.len() < 32 {
            None
        } else {
            Some(CodeStoredEvent { code_hash: H256(copy_bytes(data, 0, 32)) })
        }
    }
}

/// Instantiated event.
#[derive(Clone, Debug, Eq, PartialEq)]
pub struct InstantiatedEvent {
    /// Caller that instantiated the contract.
    pub caller: H256,
    /// The address of the contract.
    pub contract: H256,
}

impl InstantiatedEvent {
    /// Reads the event from its encoded body: 32 bytes for the caller, then
    /// 32 bytes for the contract. A shorter body holds no such event.
    pub fn decode(data: &[u8]) -> (event: Option<InstantiatedEvent>)
        ensures
            match event {
                Some(e) => data@.len() >= 64 && e.caller@ == data@.subrange(0, 32) && e.contract@
                    == data@.subrange(32, 64),
                None => data@.len() < 64,
            },
    {
        if data.len() < 64 {
            None
        } else {
            Some(
                InstantiatedEvent {
                    caller: H256(copy_bytes(data, 0, 32)),
                    contract: H256(copy_bytes(data, 32, 32)),
                },
            )
        }
    }
}

} // verus!
