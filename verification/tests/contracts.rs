use parity_scale_codec::{Compact, Encode};
use substrate_subxt::error::MetadataError;
use substrate_subxt::frame::contracts::{
    CallCall, CodeStoredEvent, InstantiateCall, InstantiatedEvent, PutCodeCall,
};
use substrate_subxt::metadata::Metadata;
use substrate_subxt::rpc::H256;
use substrate_subxt::schema::{
    DecodeDifferent, FunctionDescriptor, ModuleDescriptor, RuntimeMetadata,
    RuntimeMetadataPrefixed, RuntimeMetadataV8, META_RESERVED,
};

fn module_with_calls(name: &str, calls: &[&str]) -> ModuleDescriptor {
    ModuleDescriptor {
        name: DecodeDifferent::Decoded(name.to_string()),
        storage: None,
        calls: Some(DecodeDifferent::Decoded(
            calls
                .iter()
                .map(|c| FunctionDescriptor { name: DecodeDifferent::Decoded(c.to_string()) })
                .collect(),
        )),
        event: None,
    }
}

fn schema(modules: Vec<ModuleDescriptor>) -> Metadata {
    Metadata::try_from(RuntimeMetadataPrefixed(
        META_RESERVED,
        RuntimeMetadata::V8(RuntimeMetadataV8 { modules: DecodeDifferent::Decoded(modules) }),
    ))
    .unwrap()
}

fn node() -> Metadata {
    schema(vec![
        module_with_calls("System", &["remark"]),
        module_with_calls(
            "Contracts",
            &["update_schedule", "put_code", "call", "instantiate"],
        ),
    ])
}

#[test]
fn put_code_is_the_code_behind_its_length() {
    let call = PutCodeCall { code: &[0, 0x61, 0x73, 0x6d] };
    assert_eq!(call.function(), "put_code");
    assert_eq!(call.encode(), vec![0x10, 0, 0x61, 0x73, 0x6d]);
    assert_eq!(call.call(&node()).unwrap().0, vec![1, 1, 0x10, 0, 0x61, 0x73, 0x6d]);
    assert_eq!(PutCodeCall { code: &[] }.encode(), vec![0]);
    let long = vec![1u8; 100];
    assert_eq!(PutCodeCall { code: &long }.encode(), long.encode());
}

#[test]
fn instantiate_arguments_are_encoded_in_order() {
    let code_hash = H256(vec![0xcd; 32]);
    let call = InstantiateCall {
        endowment: 100_000_000_000_000,
        gas_limit: 500_000_000,
        code_hash: &code_hash,
        data: &[],
    };
    assert_eq!(call.function(), "instantiate");
    let mut expected = vec![0x0b, 0x00, 0x40, 0x7a, 0x10, 0xf3, 0x5a];
    expected.extend_from_slice(&[0x02, 0x94, 0x35, 0x77]);
    expected.extend_from_slice(&[0xcd; 32]);
    expected.push(0);
    assert_eq!(call.encode(), expected);
    let mut dispatched = vec![1, 3];
    dispatched.extend_from_slice(&expected);
    assert_eq!(call.call(&node()).unwrap().0, dispatched);
}

#[test]
fn compact_numbers_take_as_few_bytes_as_hold_them() {
    let code_hash = H256(vec![]);
    let cases: [(u128, u64); 6] = [
        (0, 0),
        (63, 64),
        (0x3fff_ffff, 0x4000_0000),
        (u32::MAX as u128 + 1, u32::MAX as u64),
        (u64::MAX as u128, u64::MAX),
        (u128::MAX, 1 << 56),
    ];
    for (endowment, gas_limit) in cases.iter() {
        let call = InstantiateCall {
            endowment: *endowment,
            gas_limit: *gas_limit,
            code_hash: &code_hash,
            data: &[7],
        };
        let mut expected = Compact(*endowment).encode();
        expected.extend_from_slice(&Compact(*gas_limit).encode());
        expected.extend_from_slice(&[4, 7]);
        assert_eq!(call.encode(), expected);
    }
    let call = InstantiateCall {
        endowment: u128::MAX,
        gas_limit: 1 << 32,
        code_hash: &code_hash,
        data: &[],
    };
    let mut expected = vec![0x33];
    expected.extend_from_slice(&[0xff; 16]);
    expected.extend_from_slice(&[0x07, 0, 0, 0, 0, 1]);
    expected.push(0);
    assert_eq!(call.encode(), expected);
}

#[test]
fn call_arguments_are_encoded_in_order() {
    let dest = [0xff, 1, 2, 3];
    let call = CallCall { dest: &dest, value: 0x0102, gas_limit: 1, data: &[9, 9] };
    assert_eq!(call.function(), "call");
    let mut expected = vec![0xff, 1, 2, 3];
    expected.extend_from_slice(&[0x02, 0x01, 0, 0, 0, 0, 0, 0, 0, 0, 0, 0, 0, 0, 0, 0]);
    expected.push(4);
    expected.extend_from_slice(&[8, 9, 9]);
    assert_eq!(call.encode(), expected);
    let mut dispatched = vec![1, 2];
    dispatched.extend_from_slice(&expected);
    assert_eq!(call.call(&node()).unwrap().0, dispatched);
}

#[test]
fn calls_need_the_module_and_the_function() {
    let call = PutCodeCall { code: &[1] };
    let without_module = schema(vec![module_with_calls("System", &["remark"])]);
    assert!(matches!(
        call.call(&without_module),
        Err(MetadataError::ModuleNotFound(name)) if name == "Contracts"
    ));
    let without_function = schema(vec![module_with_calls("Contracts", &["call"])]);
    assert!(matches!(
        call.call(&without_function),
        Err(MetadataError::CallNotFound("put_code"))
    ));
}

#[test]
fn code_stored_holds_the_code_hash() {
    let mut data = vec![0xab; 32];
    assert_eq!(
        CodeStoredEvent::decode(&data),
        Some(CodeStoredEvent { code_hash: H256(vec![0xab; 32]) })
    );
    data.push(1);
    assert_eq!(
        CodeStoredEvent::decode(&data),
        Some(CodeStoredEvent { code_hash: H256(vec![0xab; 32]) })
    );
    assert_eq!(CodeStoredEvent::decode(&data[..31]), None);
    assert_eq!(CodeStoredEvent::decode(&[]), None);
}

#[test]
fn instantiated_holds_caller_then_contract() {
    let mut data = vec![1u8; 32];
    data.extend_from_slice(&[2u8; 32]);
    assert_eq!(
        InstantiatedEvent::decode(&data),
        Some(InstantiatedEvent { caller: H256(vec![1; 32]), contract: H256(vec![2; 32]) })
    );
    assert_eq!(InstantiatedEvent::decode(&data[..63]), None);
}
