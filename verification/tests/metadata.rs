use parity_scale_codec::Encode;
use substrate_subxt::error::{Error, MetadataError};
use substrate_subxt::event_arg::EventArg;
use substrate_subxt::metadata::{split_header, Metadata};
use substrate_subxt::schema::{
    DecodeDifferent, EventDescriptor, FunctionDescriptor, ModuleDescriptor, RuntimeMetadata,
    RuntimeMetadataPrefixed, RuntimeMetadataV8, StorageDescriptor, StorageEntryDescriptor,
    StorageEntryModifier, StorageEntryType, StorageHasher, META_RESERVED, SUPPORTED_VERSION,
};

fn text(s: &str) -> DecodeDifferent<String> {
    DecodeDifferent::Decoded(s.to_string())
}

fn calls(names: &[&str]) -> Option<DecodeDifferent<Vec<FunctionDescriptor>>> {
    Some(DecodeDifferent::Decoded(
        names
            .iter()
            .map(|name| FunctionDescriptor { name: text(name) })
            .collect(),
    ))
}

fn event(name: &str, arguments: &[&str]) -> EventDescriptor {
    EventDescriptor {
        name: text(name),
        arguments: DecodeDifferent::Decoded(arguments.iter().map(|a| a.to_string()).collect()),
    }
}

fn events(all: Vec<EventDescriptor>) -> Option<DecodeDifferent<Vec<EventDescriptor>>> {
    Some(DecodeDifferent::Decoded(all))
}

fn entry(name: &str, ty: StorageEntryType, default: Vec<u8>) -> StorageEntryDescriptor {
    StorageEntryDescriptor {
        name: text(name),
        modifier: StorageEntryModifier::Default,
        ty,
        default: DecodeDifferent::Decoded(default),
    }
}

fn storage(
    prefix: &str,
    entries: Vec<StorageEntryDescriptor>,
) -> Option<DecodeDifferent<StorageDescriptor>> {
    Some(DecodeDifferent::Decoded(StorageDescriptor {
        prefix: text(prefix),
        entries: DecodeDifferent::Decoded(entries),
    }))
}

fn module(
    name: &str,
    storage: Option<DecodeDifferent<StorageDescriptor>>,
    calls: Option<DecodeDifferent<Vec<FunctionDescriptor>>>,
    event: Option<DecodeDifferent<Vec<EventDescriptor>>>,
) -> ModuleDescriptor {
    ModuleDescriptor { name: text(name), storage, calls, event }
}

fn schema(modules: Vec<ModuleDescriptor>) -> RuntimeMetadataPrefixed {
    RuntimeMetadataPrefixed(
        META_RESERVED,
        RuntimeMetadata::V8(RuntimeMetadataV8 { modules: DecodeDifferent::Decoded(modules) }),
    )
}

fn sample() -> Metadata {
    Metadata::try_from(schema(vec![
        module(
            "System",
            storage(
                "System",
                vec![
                    entry(
                        "AccountNonce",
                        StorageEntryType::KeyedMap { hasher: StorageHasher::Blake2_256, is_linked: false },
                        vec![0, 0, 0, 0],
                    ),
                    entry("Events", StorageEntryType::Plain, vec![0]),
                ],
            ),
            calls(&["fill_block", "remark"]),
            events(vec![
                event("ExtrinsicSuccess", &[]),
                event("ExtrinsicFailed", &["DispatchError"]),
            ]),
        ),
        module("Timestamp", None, calls(&["set"]), None),
        module(
            "Balances",
            storage(
                "Balances",
                vec![entry(
                    "FreeBalance",
                    StorageEntryType::KeyedMap { hasher: StorageHasher::Twox128, is_linked: true },
                    vec![7],
                )],
            ),
            None,
            events(vec![event("Transfer", &["AccountId", "AccountId", "Balance", "(u8,Vec<bool>)"])]),
        ),
    ]))
    .unwrap()
}

#[test]
fn reserved_magic_is_the_one_of_the_schema_format() {
    assert_eq!(META_RESERVED, frame_metadata::META_RESERVED);
    assert_eq!(META_RESERVED, 0x6174656d);
    assert_eq!(SUPPORTED_VERSION, 8);
}

#[test]
fn wrong_magic_is_reported_whatever_follows() {
    let undecoded = RuntimeMetadataPrefixed(
        0x6174656e,
        RuntimeMetadata::V8(RuntimeMetadataV8 { modules: DecodeDifferent::Encode }),
    );
    assert!(matches!(Metadata::try_from(undecoded), Err(Error::InvalidPrefix)));
    let other_version = RuntimeMetadataPrefixed(0, RuntimeMetadata::Unsupported(9));
    assert!(matches!(Metadata::try_from(other_version), Err(Error::InvalidPrefix)));
    let mut fine = schema(vec![module("System", None, calls(&["remark"]), None)]);
    fine.0 = !META_RESERVED;
    assert!(matches!(Metadata::try_from(fine), Err(Error::InvalidPrefix)));
}

#[test]
fn other_versions_are_rejected() {
    for version in [0u32, 7, 9, 14] {
        let blob = RuntimeMetadataPrefixed(META_RESERVED, RuntimeMetadata::Unsupported(version));
        assert!(matches!(Metadata::try_from(blob), Err(Error::InvalidVersion)));
    }
}

#[test]
fn undecoded_parts_are_rejected() {
    let no_modules = RuntimeMetadataPrefixed(
        META_RESERVED,
        RuntimeMetadata::V8(RuntimeMetadataV8 { modules: DecodeDifferent::Encode }),
    );
    assert!(matches!(Metadata::try_from(no_modules), Err(Error::ExpectedDecoded)));

    let mut unnamed = module("System", None, None, None);
    unnamed.name = DecodeDifferent::Encode;
    assert!(matches!(Metadata::try_from(schema(vec![unnamed])), Err(Error::ExpectedDecoded)));

    let no_calls = module("System", None, Some(DecodeDifferent::Encode), None);
    assert!(matches!(Metadata::try_from(schema(vec![no_calls])), Err(Error::ExpectedDecoded)));

    let mut no_default = entry("Events", StorageEntryType::Plain, vec![]);
    no_default.default = DecodeDifferent::Encode;
    let with_entry = module("System", storage("System", vec![no_default]), None, None);
    assert!(matches!(Metadata::try_from(schema(vec![with_entry])), Err(Error::ExpectedDecoded)));
}

#[test]
fn malformed_event_argument_is_reported() {
    let broken = module("System", None, None, events(vec![event("Bad", &["u8", "Vec<u8"])]));
    match Metadata::try_from(schema(vec![broken])) {
        Err(Error::InvalidEventArg(text, reason)) => {
            assert_eq!(text, "Vec<u8");
            assert_eq!(reason, "Expected closing `>` for `Vec`");
        }
        other => panic!("unexpected: {:?}", other),
    }
}

#[test]
fn first_error_in_declaration_order_wins() {
    // The storage section is read before the events, and the first module
    // before the second.
    let mut no_default = entry("Events", StorageEntryType::Plain, vec![]);
    no_default.default = DecodeDifferent::Encode;
    let first = module(
        "System",
        storage("System", vec![no_default]),
        None,
        events(vec![event("Bad", &["(u8"])]),
    );
    assert!(matches!(Metadata::try_from(schema(vec![first])), Err(Error::ExpectedDecoded)));

    let bad_event = module("A", None, None, events(vec![event("Bad", &["(u8"])]));
    let undecoded = module("B", None, Some(DecodeDifferent::Encode), None);
    assert!(matches!(
        Metadata::try_from(schema(vec![bad_event, undecoded])),
        Err(Error::InvalidEventArg(_, _))
    ));
}

#[test]
fn ordinals_skip_modules_without_the_section() {
    let metadata = Metadata::try_from(schema(vec![
        module("M1", None, calls(&["foo"]), events(vec![event("E", &[])])),
        module("M2", None, calls(&["foo"]), None),
        module("M3", None, None, events(vec![event("E", &[])])),
    ]))
    .unwrap();
    assert_eq!(metadata.module("M1").unwrap().call("foo", &[]).unwrap().0, vec![0, 0]);
    assert_eq!(metadata.module("M2").unwrap().call("foo", &[]).unwrap().0, vec![1, 0]);
    assert!(matches!(
        metadata.module("M3").unwrap().call("foo", &[]),
        Err(MetadataError::CallNotFound("foo"))
    ));
    assert_eq!(metadata.module_name(0).unwrap().name(), "M1");
    assert_eq!(metadata.module_name(1).unwrap().name(), "M3");
    assert!(matches!(metadata.module_name(2), Err(MetadataError::EventNotFound(2))));
}

#[test]
fn call_is_module_ordinal_then_call_ordinal_then_arguments() {
    let metadata = sample();
    let system = metadata.module("System").unwrap();
    assert_eq!(system.call("remark", &[0xde, 0xad]).unwrap().0, vec![0, 1, 0xde, 0xad]);
    assert_eq!(system.call("fill_block", &[]).unwrap().0, vec![0, 0]);
    let timestamp = metadata.module("Timestamp").unwrap();
    let args = 1_575_000_000u64.encode();
    let mut expected = vec![1, 0];
    expected.extend_from_slice(&args);
    assert_eq!(timestamp.call("set", &args).unwrap().0, expected);
}

#[test]
fn unknown_call_is_not_found() {
    let metadata = sample();
    assert!(matches!(
        metadata.module("System").unwrap().call("transfer", &[1]),
        Err(MetadataError::CallNotFound("transfer"))
    ));
    assert!(matches!(
        metadata.module("Balances").unwrap().call("transfer", &[1]),
        Err(MetadataError::CallNotFound("transfer"))
    ));
}

#[test]
fn a_module_without_calls_knows_no_call() {
    let metadata = Metadata::try_from(schema(vec![
        module("Silent", None, None, events(vec![event("E", &[])])),
        module("Empty", None, calls(&[]), None),
    ]))
    .unwrap();
    for name in ["Silent", "Empty"] {
        let module = metadata.module(name).unwrap();
        assert!(matches!(module.call("foo", &[]), Err(MetadataError::CallNotFound("foo"))));
        assert!(matches!(module.call("", &[1, 2]), Err(MetadataError::CallNotFound(""))));
    }
}

#[test]
fn storage_prefix_is_the_module_name_not_the_declared_prefix() {
    let metadata = Metadata::try_from(schema(vec![module(
        "Balances",
        storage(
            "Bal",
            vec![
                entry(
                    "FreeBalance",
                    StorageEntryType::KeyedMap { hasher: StorageHasher::Blake2_256, is_linked: false },
                    vec![0; 16],
                ),
                entry(
                    "Locks",
                    StorageEntryType::KeyedMap { hasher: StorageHasher::Twox128, is_linked: false },
                    vec![0],
                ),
            ],
        ),
        None,
        None,
    )]))
    .unwrap();
    let balances = metadata.module("Balances").unwrap();
    let map = balances.storage("FreeBalance").unwrap().get_map(Some(0u128)).unwrap();
    let mut preimage = b"Balances FreeBalance".to_vec();
    preimage.extend_from_slice(&[5, 6]);
    assert_eq!(map.key(&[5, 6]).0, sp_crypto_hashing::blake2_256(&preimage).to_vec());
    let mut declared = b"Bal FreeBalance".to_vec();
    declared.extend_from_slice(&[5, 6]);
    assert_ne!(map.key(&[5, 6]).0, sp_crypto_hashing::blake2_256(&declared).to_vec());
    let locks = balances.storage("Locks").unwrap().get_map(Some(0u8)).unwrap();
    assert_eq!(locks.key(&[]).0, sp_crypto_hashing::twox_128(b"Balances Locks").to_vec());
}

#[test]
fn undecoded_section_prefix_is_rejected() {
    let section = Some(DecodeDifferent::Decoded(StorageDescriptor {
        prefix: DecodeDifferent::Encode,
        entries: DecodeDifferent::Decoded(vec![]),
    }));
    let with_section = module("System", section, None, None);
    assert!(matches!(Metadata::try_from(schema(vec![with_section])), Err(Error::ExpectedDecoded)));
}

#[test]
fn unknown_module_is_not_found() {
    let metadata = sample();
    assert!(matches!(
        metadata.module("Contracts"),
        Err(MetadataError::ModuleNotFound(name)) if name == "Contracts"
    ));
    assert_eq!(metadata.module("Balances").unwrap().name(), "Balances");
}

#[test]
fn modules_come_in_declaration_order() {
    let metadata = sample();
    let names: Vec<&str> = metadata.modules().iter().map(|m| m.name()).collect();
    assert_eq!(names, vec!["System", "Timestamp", "Balances"]);
}

#[test]
fn a_module_declared_again_replaces_the_first() {
    let metadata = Metadata::try_from(schema(vec![
        module("A", None, calls(&["one"]), None),
        module("B", None, calls(&["two"]), None),
        module("A", None, calls(&["three"]), None),
    ]))
    .unwrap();
    let names: Vec<&str> = metadata.modules().iter().map(|m| m.name()).collect();
    assert_eq!(names, vec!["A", "B"]);
    let a = metadata.module("A").unwrap();
    assert_eq!(a.call("three", &[]).unwrap().0, vec![2, 0]);
    assert!(matches!(a.call("one", &[]), Err(MetadataError::CallNotFound("one"))));
}

#[test]
fn storage_entries_carry_module_and_entry_name() {
    let metadata = sample();
    let system = metadata.module("System").unwrap();
    let nonce = system.storage("AccountNonce").unwrap();
    assert_eq!(nonce.default_bytes(), &vec![0, 0, 0, 0]);
    let map = nonce.get_map(Some(0u32)).unwrap();
    let mut preimage = b"System AccountNonce".to_vec();
    preimage.extend_from_slice(&[1, 2, 3]);
    assert_eq!(map.key(&[1, 2, 3]).0, sp_crypto_hashing::blake2_256(&preimage).to_vec());
    assert_eq!(map.default(), 0u32);
    assert!(matches!(
        system.storage("Missing"),
        Err(MetadataError::StorageNotFound("Missing"))
    ));
}

#[test]
fn only_a_map_with_a_default_gives_a_storage_map() {
    let metadata = sample();
    let system = metadata.module("System").unwrap();
    assert!(matches!(
        system.storage("Events").unwrap().get_map(Some(1u8)),
        Err(MetadataError::StorageTypeError)
    ));
    assert!(matches!(
        system.storage("Events").unwrap().get_map::<u8>(None),
        Err(MetadataError::StorageTypeError)
    ));
    assert!(matches!(
        system.storage("AccountNonce").unwrap().get_map::<u32>(None),
        Err(MetadataError::MapValueTypeError)
    ));
}

#[test]
fn events_are_found_by_ordinal() {
    let metadata = sample();
    let system = metadata.module("System").unwrap();
    assert_eq!(system.event(0).unwrap().name, "ExtrinsicSuccess");
    assert_eq!(system.event(1).unwrap().name, "ExtrinsicFailed");
    assert_eq!(
        system.event(1).unwrap().arguments(),
        vec![EventArg::Primitive("DispatchError".to_string())]
    );
    assert!(matches!(system.event(2), Err(MetadataError::EventNotFound(2))));
    assert_eq!(system.events().len(), 2);

    let balances = metadata.module_name(1).unwrap();
    assert_eq!(balances.name(), "Balances");
    let transfer = balances.event(0).unwrap();
    let leaves: Vec<String> =
        transfer.arguments().iter().flat_map(|arg| arg.primitives()).collect();
    assert_eq!(leaves, vec!["AccountId", "AccountId", "Balance", "u8", "bool"]);
    assert!(matches!(
        metadata.module("Timestamp").unwrap().event(0),
        Err(MetadataError::EventNotFound(0))
    ));
}

#[test]
fn pretty_lists_each_module_with_its_parts() {
    let expected = "System\n s  AccountNonce\n s  Events\n c  fill_block\n c  remark\n \
                    e  ExtrinsicSuccess\n e  ExtrinsicFailed\nTimestamp\n c  set\nBalances\n \
                    s  FreeBalance\n e  Transfer\n";
    assert_eq!(sample().pretty(), expected);
    assert_eq!(Metadata::try_from(schema(vec![])).unwrap().pretty(), "");
}

#[test]
fn ordinals_are_one_byte_wide() {
    let names: Vec<String> = (0..258).map(|i| format!("call_{}", i)).collect();
    let leaked: Vec<&'static str> =
        names.iter().map(|n| &*Box::leak(n.clone().into_boxed_str())).collect();
    let metadata =
        Metadata::try_from(schema(vec![module("Big", None, calls(&leaked), None)])).unwrap();
    let big = metadata.module("Big").unwrap();
    assert_eq!(big.call(leaked[255], &[]).unwrap().0, vec![0, 255]);
    assert_eq!(big.call(leaked[256], &[]).unwrap().0, vec![0, 0]);
    assert_eq!(big.call(leaked[257], &[]).unwrap().0, vec![0, 1]);

    let many: Vec<EventDescriptor> =
        (0..258).map(|i| event(&format!("event_{}", i), &[])).collect();
    let metadata =
        Metadata::try_from(schema(vec![module("Big", None, None, events(many))])).unwrap();
    let big = metadata.module("Big").unwrap();
    assert_eq!(big.events().len(), 256);
    assert_eq!(big.event(0).unwrap().name, "event_256");
    assert_eq!(big.event(1).unwrap().name, "event_257");
    assert_eq!(big.event(2).unwrap().name, "event_2");
}

#[test]
fn error_messages() {
    assert_eq!(MetadataError::ModuleNotFound("X".to_string()).message(), "Module not found");
    assert_eq!(MetadataError::CallNotFound("x").message(), "Call not found");
    assert_eq!(MetadataError::EventNotFound(3).message(), "Event not found");
    assert_eq!(MetadataError::StorageNotFound("x").message(), "Storage not found");
    assert_eq!(MetadataError::StorageTypeError.message(), "Storage type error");
    assert_eq!(MetadataError::MapValueTypeError.message(), "Map value type error");
    assert_eq!(MetadataError::IndexNotFound("X".to_string()).message(), "Index not found");
}

#[test]
fn header_with_wrong_magic_fails_whatever_follows() {
    assert!(matches!(split_header(&[]), Err(Error::InvalidPrefix)));
    assert!(matches!(split_header(b"met"), Err(Error::InvalidPrefix)));
    assert!(matches!(split_header(b"atem\x08\x00"), Err(Error::InvalidPrefix)));
    assert!(matches!(split_header(b"mete\x08\x00"), Err(Error::InvalidPrefix)));
    assert!(matches!(split_header(b"Meta\x09\xff\xff"), Err(Error::InvalidPrefix)));
}

#[test]
fn header_with_another_version_fails() {
    assert!(matches!(split_header(b"meta"), Err(Error::InvalidVersion)));
    assert!(matches!(split_header(b"meta\x07\x00"), Err(Error::InvalidVersion)));
    assert!(matches!(split_header(b"meta\x09\x00"), Err(Error::InvalidVersion)));
    assert!(matches!(split_header(b"meta\x0e"), Err(Error::InvalidVersion)));
}

#[test]
fn header_is_followed_by_the_module_list() {
    assert_eq!(split_header(b"meta\x08").unwrap(), &[] as &[u8]);
    assert_eq!(split_header(b"meta\x08\x04\x01").unwrap(), &[4, 1]);

    let modules: Vec<frame_metadata::v8::ModuleMetadata> = Vec::new();
    let blob = frame_metadata::RuntimeMetadataPrefixed(
        frame_metadata::META_RESERVED,
        frame_metadata::RuntimeMetadata::V8(frame_metadata::v8::RuntimeMetadataV8 {
            modules: frame_metadata::decode_different::DecodeDifferent::Decoded(modules),
        }),
    )
    .encode();
    assert_eq!(split_header(&blob).unwrap(), &Vec::<u8>::new().encode()[..]);

    let newer = frame_metadata::RuntimeMetadataPrefixed(
        frame_metadata::META_RESERVED,
        frame_metadata::RuntimeMetadata::V9(frame_metadata::v9::RuntimeMetadataV9 {
            modules: frame_metadata::decode_different::DecodeDifferent::Decoded(Vec::new()),
        }),
    )
    .encode();
    assert!(matches!(split_header(&newer), Err(Error::InvalidVersion)));
}

fn decoded<B, O, T>(
    outer: frame_metadata::decode_different::DecodeDifferent<B, O>,
    convert: impl FnOnce(O) -> T,
) -> DecodeDifferent<T> {
    match outer {
        frame_metadata::decode_different::DecodeDifferent::Encode(_) => DecodeDifferent::Encode,
        frame_metadata::decode_different::DecodeDifferent::Decoded(value) => {
            DecodeDifferent::Decoded(convert(value))
        }
    }
}

fn from_wire(blob: &[u8]) -> Result<Metadata, Error> {
    split_header(blob)?;
    let mut input = blob;
    let outer: frame_metadata::RuntimeMetadataPrefixed =
        parity_scale_codec::Decode::decode(&mut input).unwrap();
    let body = match outer.1 {
        frame_metadata::RuntimeMetadata::V8(body) => body,
        other => panic!("unexpected version {}", other.version()),
    };
    let modules = decoded(body.modules, |modules| {
        modules
            .into_iter()
            .map(|m| ModuleDescriptor {
                name: decoded(m.name, |n| n),
                storage: None,
                calls: m.calls.map(|calls| {
                    decoded(calls, |calls| {
                        calls
                            .into_iter()
                            .map(|c| FunctionDescriptor { name: decoded(c.name, |n| n) })
                            .collect()
                    })
                }),
                event: m.event.map(|events| {
                    decoded(events, |events| {
                        events
                            .into_iter()
                            .map(|e| EventDescriptor {
                                name: decoded(e.name, |n| n),
                                arguments: decoded(e.arguments, |a| a),
                            })
                            .collect()
                    })
                }),
            })
            .collect()
    });
    Metadata::try_from(RuntimeMetadataPrefixed(
        outer.0,
        RuntimeMetadata::V8(RuntimeMetadataV8 { modules }),
    ))
}

fn wire_text(text: &str) -> frame_metadata::decode_different::DecodeDifferentStr {
    frame_metadata::decode_different::DecodeDifferent::Decoded(text.to_string())
}

fn wire_module(
    name: &str,
    calls: Option<&[&str]>,
    events: Option<&[(&str, &[&str])]>,
) -> frame_metadata::v8::ModuleMetadata {
    frame_metadata::v8::ModuleMetadata {
        name: wire_text(name),
        storage: None,
        calls: calls.map(|calls| {
            frame_metadata::decode_different::DecodeDifferent::Decoded(
                calls
                    .iter()
                    .map(|c| frame_metadata::v8::FunctionMetadata {
                        name: wire_text(c),
                        arguments: frame_metadata::decode_different::DecodeDifferent::Decoded(Vec::new()),
                        documentation: frame_metadata::decode_different::DecodeDifferent::Decoded(Vec::new()),
                    })
                    .collect(),
            )
        }),
        event: events.map(|events| {
            frame_metadata::decode_different::DecodeDifferent::Decoded(
                events
                    .iter()
                    .map(|(name, arguments)| frame_metadata::v8::EventMetadata {
                        name: wire_text(name),
                        arguments: frame_metadata::decode_different::DecodeDifferent::Decoded(
                            arguments.iter().map(|a| a.to_string()).collect(),
                        ),
                        documentation: frame_metadata::decode_different::DecodeDifferent::Decoded(Vec::new()),
                    })
                    .collect(),
            )
        }),
        constants: frame_metadata::decode_different::DecodeDifferent::Decoded(Vec::new()),
        errors: frame_metadata::decode_different::DecodeDifferent::Decoded(Vec::new()),
    }
}

#[test]
fn schema_blob_from_the_wire_is_interpreted() {
    let blob = frame_metadata::RuntimeMetadataPrefixed(
        frame_metadata::META_RESERVED,
        frame_metadata::RuntimeMetadata::V8(frame_metadata::v8::RuntimeMetadataV8 {
            modules: frame_metadata::decode_different::DecodeDifferent::Decoded(vec![
                wire_module("M1", Some(&["foo", "bar"]), Some(&[("Done", &["Vec<(u8,Vec<bool>)>"])])),
                wire_module("M2", Some(&["foo"]), None),
                wire_module("M3", None, Some(&[("Other", &[])])),
            ]),
        }),
    )
    .encode();
    assert_eq!(&blob[..5], b"meta\x08");
    let metadata = from_wire(&blob).unwrap();
    assert_eq!(metadata.module("M1").unwrap().call("bar", &[7]).unwrap().0, vec![0, 1, 7]);
    assert_eq!(metadata.module("M2").unwrap().call("foo", &[]).unwrap().0, vec![1, 0]);
    assert_eq!(metadata.module_name(1).unwrap().name(), "M3");
    let done = metadata.module_name(0).unwrap().event(0).unwrap();
    assert_eq!(done.name, "Done");
    assert_eq!(done.arguments()[0].primitives(), vec!["u8", "bool"]);

    let mut wrong_magic = blob.clone();
    wrong_magic[0] ^= 1;
    wrong_magic.truncate(9);
    assert!(matches!(from_wire(&wrong_magic), Err(Error::InvalidPrefix)));
    let mut wrong_version = blob.clone();
    wrong_version[4] = 7;
    assert!(matches!(from_wire(&wrong_version), Err(Error::InvalidVersion)));
}
