//! The interpretation of a decoded schema: what each descriptor says, in
//! which order the descriptors are read, and how modules, calls and events
//! come by their ordinals.

use vstd::prelude::*;
use vstd::string::StringExecFns;
use crate::assoc::{bind, distinct_keys, entry_views, lemma_position, lemma_upsert_distinct, upsert};
use crate::error::{agrees, Error, ErrorView};
use crate::event_arg::{parse_arg, views, EventArg, EventArgView};
use crate::metadata::{
    entry_prefix, event_views, prefixed_by, Metadata, MetadataView, ModuleEventMetadata, ModuleEventMetadataView,
    ModuleMetadata, ModuleMetadataView, StorageMetadata, StorageMetadataView,
};
use crate::schema::{
    DecodeDifferent, EventDescriptor, FunctionDescriptor, ModuleDescriptor, RuntimeMetadata,
    RuntimeMetadataPrefixed, StorageDescriptor, StorageEntryDescriptor, META_RESERVED,
};

verus! {

/// The one-byte ordinal of the section that `earlier` sections precede.
pub open spec fn ordinal(earlier: nat) -> u8 {
    (earlier % 256) as u8
}

/// The shapes that the type names `names` denote, added to `done` in order;
/// the error of the first name that denotes none.
pub open spec fn event_arguments(names: Seq<String>, done: Seq<EventArgView>) -> Result<
    Seq<EventArgView>,
    ErrorView,
>
    decreases names.len(),
{
    if names.len() == 0 {
        Ok(done)
    } else {
        match parse_arg(names[0]@) {
            Ok(arg) => event_arguments(names.drop_first(), done.push(arg)),
            Err(e) => Err(e),
        }
    }
}

/// What one event descriptor says: the event's name and argument shapes.
pub open spec fn event_metadata(event: EventDescriptor) -> Result<
    ModuleEventMetadataView,
    ErrorView,
> {
    match (event.name, event.arguments) {
        (DecodeDifferent::Decoded(name), DecodeDifferent::Decoded(names)) => {
            match event_arguments(names@, Seq::empty()) {
                Ok(arguments) => Ok(ModuleEventMetadataView { name: name@, arguments }),
                Err(e) => Err(e),
            }
        },
        _ => Err(ErrorView::ExpectedDecoded),
    }
}

/// `done` with `event` registered under the ordinal of position `at`.
pub open spec fn register_event(
    done: Seq<ModuleEventMetadataView>,
    at: nat,
    event: ModuleEventMetadataView,
) -> Seq<ModuleEventMetadataView> {
    if at < 256 {
        done.push(event)
    } else {
        done.update((at % 256) as int, event)
    }
}

/// The events that the descriptors `events` declare, the first of them at
/// position `at`, registered on top of `done`.
pub open spec fn events_by_ordinal(
    events: Seq<EventDescriptor>,
    at: nat,
    done: Seq<ModuleEventMetadataView>,
) -> Result<Seq<ModuleEventMetadataView>, ErrorView>
    decreases events.len(),
{
    if events.len() == 0 {
        Ok(done)
    } else {
        match event_metadata(events[0]) {
            Ok(event) => events_by_ordinal(
                events.drop_first(),
                at + 1,
                register_event(done, at, event),
            ),
            Err(e) => Err(e),
        }
    }
}

/// What the event section of a module declares.
pub open spec fn event_section(section: Option<DecodeDifferent<Vec<EventDescriptor>>>) -> Result<
    Seq<ModuleEventMetadataView>,
    ErrorView,
> {
    match section {
        None => Ok(Seq::empty()),
        Some(DecodeDifferent::Encode) => Err(ErrorView::ExpectedDecoded),
        Some(DecodeDifferent::Decoded(events)) => events_by_ordinal(events@, 0, Seq::empty()),
    }
}

/// The ordinals of the calls that `calls` declares, the first of them at
/// position `at`, bound on top of `done`.
pub open spec fn call_ordinals(
    calls: Seq<FunctionDescriptor>,
    at: nat,
    done: Seq<(Seq<char>, u8)>,
) -> Result<Seq<(Seq<char>, u8)>, ErrorView>
    decreases calls.len(),
{
    if calls.len() == 0 {
        Ok(done)
    } else {
        match calls[0].name {
            DecodeDifferent::Decoded(name) => call_ordinals(
                calls.drop_first(),
                at + 1,
                upsert(done, name@, ordinal(at)),
            ),
            DecodeDifferent::Encode => Err(ErrorView::ExpectedDecoded),
        }
    }
}

/// What the call section of a module declares.
pub open spec fn call_section(section: Option<DecodeDifferent<Vec<FunctionDescriptor>>>) -> Result<
    Seq<(Seq<char>, u8)>,
    ErrorView,
> {
    match section {
        None => Ok(Seq::empty()),
        Some(DecodeDifferent::Encode) => Err(ErrorView::ExpectedDecoded),
        Some(DecodeDifferent::Decoded(calls)) => call_ordinals(calls@, 0, Seq::empty()),
    }
}

/// What one storage entry descriptor says, under the entry prefix `prefix`.
pub open spec fn storage_entry(prefix: Seq<char>, entry: StorageEntryDescriptor) -> Result<
    StorageMetadataView,
    ErrorView,
> {
    match entry.default {
        DecodeDifferent::Decoded(default) => Ok(
            StorageMetadataView {
                prefix,
                modifier: entry.modifier,
                ty: entry.ty,
                default: default@,
            },
        ),
        DecodeDifferent::Encode => Err(ErrorView::ExpectedDecoded),
    }
}

/// The storage entries that `entries` declares in the module named
/// `module_name`, bound on top of `done`.
pub open spec fn storage_entries(
    module_name: Seq<char>,
    entries: Seq<StorageEntryDescriptor>,
    done: Seq<(Seq<char>, StorageMetadataView)>,
) -> Result<Seq<(Seq<char>, StorageMetadataView)>, ErrorView>
    decreases entries.len(),
{
    if entries.len() == 0 {
        Ok(done)
    } else {
        match entries[0].name {
            DecodeDifferent::Decoded(name) => match storage_entry(
                entry_prefix(module_name, name@),
                entries[0],
            ) {
                Ok(entry) => storage_entries(
                    module_name,
                    entries.drop_first(),
                    upsert(done, name@, entry),
                ),
                Err(e) => Err(e),
            },
            DecodeDifferent::Encode => Err(ErrorView::ExpectedDecoded),
        }
    }
}

/// What the storage section of the module named `module_name` declares.
///
/// The prefix that the section declares for itself has to be decoded like
/// every other part, but it is the module's name that opens the prefix of
/// each entry.
pub open spec fn storage_section(
    module_name: Seq<char>,
    section: Option<DecodeDifferent<StorageDescriptor>>,
) -> Result<Seq<(Seq<char>, StorageMetadataView)>, ErrorView> {
    match section {
        None => Ok(Seq::empty()),
        Some(DecodeDifferent::Encode) => Err(ErrorView::ExpectedDecoded),
        Some(DecodeDifferent::Decoded(storage)) => match (storage.prefix, storage.entries) {
            (DecodeDifferent::Decoded(_), DecodeDifferent::Decoded(entries)) => {
                storage_entries(module_name, entries@, Seq::empty())
            },
            _ => Err(ErrorView::ExpectedDecoded),
        },
    }
}

/// What one module descriptor says, given the module's two ordinals. The
/// name is read first, then the sections in the order storage, calls,
/// events, and the first error met is the result.
pub open spec fn module_metadata(
    index_for_calls: Option<u8>,
    index_for_events: Option<u8>,
    module: ModuleDescriptor,
) -> Result<ModuleMetadataView, ErrorView> {
    match module.name {
        DecodeDifferent::Encode => Err(ErrorView::ExpectedDecoded),
        DecodeDifferent::Decoded(name) => match storage_section(name@, module.storage) {
            Err(e) => Err(e),
            Ok(storage) => match call_section(module.calls) {
                Err(e) => Err(e),
                Ok(calls) => match event_section(module.event) {
                    Err(e) => Err(e),
                    Ok(events) => Ok(
                        ModuleMetadataView {
                            name: name@,
                            index_for_calls,
                            index_for_events,
                            storage,
                            calls,
                            events,
                        },
                    ),
                },
            },
        },
    }
}

/// The name that a module descriptor declares; empty if it was left encode-only.
pub open spec fn declared_name(module: ModuleDescriptor) -> Seq<char> {
    match module.name {
        DecodeDifferent::Decoded(name) => name@,
        DecodeDifferent::Encode => Seq::empty(),
    }
}

/// The ordinal of a section that `earlier` sections of its kind precede, if
/// the module declares the section at all.
pub open spec fn section_ordinal(declared: bool, earlier: nat) -> Option<u8> {
    if declared {
        Some(ordinal(earlier))
    } else {
        None
    }
}

/// The count of sections after one more module: one more if it declares one.
pub open spec fn count_after(declared: bool, earlier: nat) -> nat {
    if declared {
        earlier + 1
    } else {
        earlier
    }
}

/// The modules that `modules` declares, bound by name on top of `done`, where
/// `call_sections` call sections and `event_sections` event sections precede
/// the first of them.
pub open spec fn indexed_modules(
    modules: Seq<ModuleDescriptor>,
    call_sections: nat,
    event_sections: nat,
    done: Seq<(Seq<char>, ModuleMetadataView)>,
) -> Result<Seq<(Seq<char>, ModuleMetadataView)>, ErrorView>
    decreases modules.len(),
{
    if modules.len() == 0 {
        Ok(done)
    } else {
        let module = modules[0];
        match module.name {
            DecodeDifferent::Decoded(name) => match module_metadata(
                section_ordinal(module.calls is Some, call_sections),
                section_ordinal(module.event is Some, event_sections),
                module,
            ) {
                Ok(entry) => indexed_modules(
                    modules.drop_first(),
                    count_after(module.calls is Some, call_sections),
                    count_after(module.event is Some, event_sections),
                    upsert(done, name@, entry),
                ),
                Err(e) => Err(e),
            },
            DecodeDifferent::Encode => Err(ErrorView::ExpectedDecoded),
        }
    }
}

/// What a schema says: an error for a wrong magic number, then for an
/// unsupported version, then the first error met while its modules are read in
/// declaration order; else the modules, each with its ordinals.
pub open spec fn interpret(schema: RuntimeMetadataPrefixed) -> Result<MetadataView, ErrorView> {
    if schema.0 != META_RESERVED {
        Err(ErrorView::InvalidPrefix)
    } else {
        match schema.1 {
            RuntimeMetadata::V8(body) => match body.modules {
                DecodeDifferent::Decoded(modules) => match indexed_modules(
                    modules@,
                    0,
                    0,
                    Seq::empty(),
                ) {
                    Ok(modules) => Ok(MetadataView { modules }),
                    Err(e) => Err(e),
                },
                DecodeDifferent::Encode => Err(ErrorView::ExpectedDecoded),
            },
            RuntimeMetadata::Unsupported(_) => Err(ErrorView::InvalidVersion),
        }
    }
}

/// Whether `r` holds the entries `expected`, or the error `expected`.
pub open spec fn agrees_on_entries<V: View>(
    r: Result<Vec<(String, V)>, Error>,
    expected: Result<Seq<(Seq<char>, V::V)>, ErrorView>,
) -> bool {
    match r {
        Ok(entries) => expected == Ok::<Seq<(Seq<char>, V::V)>, ErrorView>(entry_views(entries@)),
        Err(e) => expected == Err::<Seq<(Seq<char>, V::V)>, ErrorView>(e@),
    }
}

/// The decoded value of `part`, or the error for a part left encode-only.
fn convert<O>(part: &DecodeDifferent<O>) -> (r: Result<&O, Error>)
    ensures
        match *part {
            DecodeDifferent::Decoded(value) => r == Ok::<&O, Error>(&value),
            DecodeDifferent::Encode => r == Err::<&O, Error>(Error::ExpectedDecoded),
        },
{
    match part {
        DecodeDifferent::Decoded(value) => Ok(value),
        DecodeDifferent::Encode => Err(Error::ExpectedDecoded),
    }
}

#[verifier::loop_isolation(false)]
fn convert_event(event: &EventDescriptor) -> (r: Result<ModuleEventMetadata, Error>)
    ensures
        agrees(r, event_metadata(*event)),
{
    let name = match convert(&event.name) {
        Ok(name) => name,
        Err(e) => {
            return Err(e);
        },
    };
    let names = match convert(&event.arguments) {
        Ok(names) => names,
        Err(e) => {
            return Err(e);
        },
    };
    let mut arguments: Vec<EventArg> = Vec::new();
    let mut i: usize = 0;
    proof {
        assert(names@.skip(0) =~= names@);
        assert(views(arguments@) =~= Seq::<EventArgView>::empty());
    }
    while i < names.len()
        invariant
            i <= names.len(),
            event_arguments(names@, Seq::empty()) == event_arguments(
                names@.skip(i as int),
                views(arguments@),
            ),
        decreases names.len() - i,
    {
        let ghost before = views(arguments@);
        match EventArg::from_str(names[i].as_str()) {
            Ok(arg) => {
                arguments.push(arg);
                proof {
                    assert(views(arguments@) =~= before.push(arg@));
                    assert(names@.skip(i as int).drop_first() =~= names@.skip(i + 1));
                }
            },
            Err(e) => {
                return Err(e);
            },
        }
        i = i + 1;
    }
    Ok(ModuleEventMetadata { name: name.clone(), arguments })
}

fn convert_entry(prefix: String, entry: &StorageEntryDescriptor) -> (r: Result<
    StorageMetadata,
    Error,
>)
    ensures
        agrees(r, storage_entry(prefix@, *entry)),
{
    let default = match convert(&entry.default) {
        Ok(default) => default,
        Err(e) => {
            return Err(e);
        },
    };
    Ok(StorageMetadata { prefix, modifier: entry.modifier, ty: entry.ty, default: default.clone() })
}

#[verifier::loop_isolation(false)]
fn convert_storage(module_name: &String, section: &Option<DecodeDifferent<StorageDescriptor>>) -> (r:
    Result<Vec<(String, StorageMetadata)>, Error>)
    ensures
        agrees_on_entries(r, storage_section(module_name@, *section)),
{
    let mut storage_map: Vec<(String, StorageMetadata)> = Vec::new();
    proof {
        assert(entry_views(storage_map@) =~= Seq::<(Seq<char>, StorageMetadataView)>::empty());
    }
    if let Some(storage) = section {
        let storage = match convert(storage) {
            Ok(storage) => storage,
            Err(e) => {
                return Err(e);
            },
        };
        match convert(&storage.prefix) {
            Ok(_) => {},
            Err(e) => {
                return Err(e);
            },
        }
        let entries = match convert(&storage.entries) {
            Ok(entries) => entries,
            Err(e) => {
                return Err(e);
            },
        };
        let mut i: usize = 0;
        proof {
            assert(entries@.skip(0) =~= entries@);
        }
        while i < entries.len()
            invariant
                i <= entries.len(),
                storage_entries(module_name@, entries@, Seq::empty()) == storage_entries(
                    module_name@,
                    entries@.skip(i as int),
                    entry_views(storage_map@),
                ),
            decreases entries.len() - i,
        {
            let entry_name = match convert(&entries[i].name) {
                Ok(name) => name,
                Err(e) => {
                    return Err(e);
                },
            };
            proof {
                reveal_strlit(" ");
                assert(" "@ =~= seq![' ']);
                assert(entries@.skip(i as int).drop_first() =~= entries@.skip(i + 1));
            }
            let entry_prefix = module_name.clone().concat(" ").concat(entry_name.as_str());
            match convert_entry(entry_prefix, &entries[i]) {
                Ok(entry) => {
                    bind(&mut storage_map, entry_name.clone(), entry);
                },
                Err(e) => {
                    return Err(e);
                },
            }
            i = i + 1;
        }
    }
    Ok(storage_map)
}

#[verifier::loop_isolation(false)]
fn convert_calls(section: &Option<DecodeDifferent<Vec<FunctionDescriptor>>>) -> (r: Result<
    Vec<(String, u8)>,
    Error,
>)
    ensures
        agrees_on_entries(r, call_section(*section)),
{
    let mut call_map: Vec<(String, u8)> = Vec::new();
    proof {
        assert(entry_views(call_map@) =~= Seq::<(Seq<char>, u8)>::empty());
    }
    if let Some(calls) = section {
        let calls = match convert(calls) {
            Ok(calls) => calls,
            Err(e) => {
                return Err(e);
            },
        };
        let mut i: usize = 0;
        proof {
            assert(calls@.skip(0) =~= calls@);
        }
        while i < calls.len()
            invariant
                i <= calls.len(),
                call_ordinals(calls@, 0, Seq::empty()) == call_ordinals(
                    calls@.skip(i as int),
                    i as nat,
                    entry_views(call_map@),
                ),
            decreases calls.len() - i,
        {
            let name = match convert(&calls[i].name) {
                Ok(name) => name,
                Err(e) => {
                    return Err(e);
                },
            };
            proof {
                assert(calls@.skip(i as int).drop_first() =~= calls@.skip(i + 1));
            }
            bind(&mut call_map, name.clone(), (i % 256) as u8);
            i = i + 1;
        }
    }
    Ok(call_map)
}

#[verifier::loop_isolation(false)]
fn convert_events(section: &Option<DecodeDifferent<Vec<EventDescriptor>>>) -> (r: Result<
    Vec<ModuleEventMetadata>,
    Error,
>)
    ensures
        match r {
            Ok(events) => event_section(*section) == Ok::<Seq<ModuleEventMetadataView>, ErrorView>(
                event_views(events@),
            ),
            Err(e) => event_section(*section) == Err::<Seq<ModuleEventMetadataView>, ErrorView>(
                e@,
            ),
        },
{
    let mut event_map: Vec<ModuleEventMetadata> = Vec::new();
    proof {
        assert(event_views(event_map@) =~= Seq::<ModuleEventMetadataView>::empty());
    }
    if let Some(events) = section {
        let events = match convert(events) {
            Ok(events) => events,
            Err(e) => {
                return Err(e);
            },
        };
        let mut i: usize = 0;
        proof {
            assert(events@.skip(0) =~= events@);
        }
        while i < events.len()
            invariant
                i <= events.len(),
                event_map.len() == if i < 256 {
                    i
                } else {
                    256
                },
                events_by_ordinal(events@, 0, Seq::empty()) == events_by_ordinal(
                    events@.skip(i as int),
                    i as nat,
                    event_views(event_map@),
                ),
            decreases events.len() - i,
        {
            let ghost before = event_views(event_map@);
            match convert_event(&events[i]) {
                Ok(event) => {
                    if i < 256 {
                        event_map.push(event);
                    } else {
                        event_map.set(i % 256, event);
                    }
                    proof {
                        assert(event_views(event_map@) =~= register_event(
                            before,
                            i as nat,
                            event@,
                        ));
                        assert(events@.skip(i as int).drop_first() =~= events@.skip(i + 1));
                    }
                },
                Err(e) => {
                    return Err(e);
                },
            }
            i = i + 1;
        }
    }
    Ok(event_map)
}

fn convert_module(
    index_for_calls: Option<u8>,
    index_for_events: Option<u8>,
    module: &ModuleDescriptor,
) -> (r: Result<ModuleMetadata, Error>)
    requires
        index_for_calls is None ==> module.calls is None,
        index_for_events is None ==> module.event is None,
    ensures
        agrees(r, module_metadata(index_for_calls, index_for_events, *module)),
{
    let name = match convert(&module.name) {
        Ok(name) => name,
        Err(e) => {
            return Err(e);
        },
    };
    let storage = match convert_storage(name, &module.storage) {
        Ok(storage) => storage,
        Err(e) => {
            return Err(e);
        },
    };
    let calls = match convert_calls(&module.calls) {
        Ok(calls) => calls,
        Err(e) => {
            return Err(e);
        },
    };
    let events = match convert_events(&module.event) {
        Ok(events) => events,
        Err(e) => {
            return Err(e);
        },
    };
    proof {
        lemma_module_well_formed(index_for_calls, index_for_events, *module);
    }
    Ok(
        ModuleMetadata {
            index_for_calls,
            index_for_events,
            name: name.clone(),
            storage,
            calls,
            events,
        },
    )
}

impl Metadata {
    /// Interprets a decoded schema.
    ///
    /// A wrong magic number is reported before anything else is looked at,
    /// then an unsupported version. The modules are read in declaration
    /// order; those that declare calls are numbered from zero in that order,
    /// and so, independently, are those that declare events. The ordinals are
    /// one byte wide and start again at zero after 255.
    #[verifier::loop_isolation(false)]
    pub fn try_from(metadata: RuntimeMetadataPrefixed) -> (r: Result<Metadata, Error>)
        ensures
            agrees(r, interpret(metadata)),
            metadata.0 != META_RESERVED ==> r is Err && r->Err_0@ == ErrorView::InvalidPrefix,
            r matches Ok(parsed) ==> parsed@.well_formed(),
    {
        proof {
            lemma_interpret_well_formed(metadata);
        }
        if metadata.0 != META_RESERVED {
            return Err(Error::InvalidPrefix);
        }
        let meta = match &metadata.1 {
            RuntimeMetadata::V8(meta) => meta,
            RuntimeMetadata::Unsupported(_) => {
                return Err(Error::InvalidVersion);
            },
        };
        let declared = match convert(&meta.modules) {
            Ok(declared) => declared,
            Err(e) => {
                return Err(e);
            },
        };
        let mut modules: Vec<(String, ModuleMetadata)> = Vec::new();
        let mut call_index: usize = 0;
        let mut event_index: usize = 0;
        let mut i: usize = 0;
        proof {
            assert(declared@.skip(0) =~= declared@);
            assert(entry_views(modules@) =~= Seq::<(Seq<char>, ModuleMetadataView)>::empty());
        }
        while i < declared.len()
            invariant
                i <= declared.len(),
                call_index <= i,
                event_index <= i,
                indexed_modules(declared@, 0, 0, Seq::empty()) == indexed_modules(
                    declared@.skip(i as int),
                    call_index as nat,
                    event_index as nat,
                    entry_views(modules@),
                ),
            decreases declared.len() - i,
        {
            let module = &declared[i];
            let module_name = match convert(&module.name) {
                Ok(name) => name,
                Err(e) => {
                    return Err(e);
                },
            };
            let mut index_for_calls: Option<u8> = None;
            let mut index_for_events: Option<u8> = None;
            let ghost calls_before = call_index;
            let ghost events_before = event_index;
            if module.calls.is_some() {
                index_for_calls = Some((call_index % 256) as u8);
                call_index = call_index + 1;
            }
            if module.event.is_some() {
                index_for_events = Some((event_index % 256) as u8);
                event_index = event_index + 1;
            }
            proof {
                assert(declared@.skip(i as int).drop_first() =~= declared@.skip(i + 1));
                assert(index_for_calls == section_ordinal(
                    module.calls is Some,
                    calls_before as nat,
                ));
                assert(index_for_events == section_ordinal(
                    module.event is Some,
                    events_before as nat,
                ));
            }
            match convert_module(index_for_calls, index_for_events, module) {
                Ok(module_metadata) => {
                    bind(&mut modules, module_name.clone(), module_metadata);
                },
                Err(e) => {
                    return Err(e);
                },
            }
            i = i + 1;
        }
        Ok(Metadata { modules })
    }
}

proof fn lemma_storage_entries_distinct(
    module_name: Seq<char>,
    entries: Seq<StorageEntryDescriptor>,
    done: Seq<(Seq<char>, StorageMetadataView)>,
)
    requires
        distinct_keys(done),
        prefixed_by(module_name, done),
    ensures
        storage_entries(module_name, entries, done) matches Ok(all) ==> distinct_keys(all)
            && prefixed_by(module_name, all),
    decreases entries.len(),
{
    if entries.len() > 0 {
        if let DecodeDifferent::Decoded(name) = entries[0].name {
            if let Ok(entry) = storage_entry(entry_prefix(module_name, name@), entries[0]) {
                lemma_upsert_distinct(done, name@, entry);
                lemma_position(done, name@);
                let bound = upsert(done, name@, entry);
                assert forall|i: int| 0 <= i < bound.len() implies (#[trigger] bound[i]).1.prefix
                    == entry_prefix(module_name, bound[i].0) by {
                    if bound[i] != (name@, entry) {
                        assert(bound[i] == done[i]);
                    }
                }
                lemma_storage_entries_distinct(
                    module_name,
                    entries.drop_first(),
                    upsert(done, name@, entry),
                );
            }
        }
    }
}

proof fn lemma_call_ordinals_distinct(
    calls: Seq<FunctionDescriptor>,
    at: nat,
    done: Seq<(Seq<char>, u8)>,
)
    requires
        distinct_keys(done),
    ensures
        call_ordinals(calls, at, done) matches Ok(all) ==> distinct_keys(all),
    decreases calls.len(),
{
    if calls.len() > 0 {
        if let DecodeDifferent::Decoded(name) = calls[0].name {
            lemma_upsert_distinct(done, name@, ordinal(at));
            lemma_call_ordinals_distinct(
                calls.drop_first(),
                at + 1,
                upsert(done, name@, ordinal(at)),
            );
        }
    }
}

proof fn lemma_events_bounded(
    events: Seq<EventDescriptor>,
    at: nat,
    done: Seq<ModuleEventMetadataView>,
)
    requires
        done.len() == if at < 256 {
            at
        } else {
            256
        },
    ensures
        events_by_ordinal(events, at, done) matches Ok(all) ==> all.len() <= 256,
    decreases events.len(),
{
    if events.len() > 0 {
        if let Ok(event) = event_metadata(events[0]) {
            lemma_events_bounded(events.drop_first(), at + 1, register_event(done, at, event));
        }
    }
}

/// What a module descriptor says is well formed, carries the declared name
/// and has the ordinals that it was given, where it was given an ordinal for
/// each section that it declares.
pub proof fn lemma_module_well_formed(
    index_for_calls: Option<u8>,
    index_for_events: Option<u8>,
    module: ModuleDescriptor,
)
    requires
        index_for_calls is None ==> module.calls is None,
        index_for_events is None ==> module.event is None,
    ensures
        module_metadata(index_for_calls, index_for_events, module) matches Ok(entry) ==> {
            &&& entry.well_formed()
            &&& module.name is Decoded
            &&& entry.name == declared_name(module)
            &&& entry.index_for_calls == index_for_calls
            &&& entry.index_for_events == index_for_events
        },
{
    if let Some(DecodeDifferent::Decoded(storage)) = module.storage {
        if let DecodeDifferent::Decoded(entries) = storage.entries {
            lemma_storage_entries_distinct(declared_name(module), entries@, Seq::empty());
        }
    }
    if let Some(DecodeDifferent::Decoded(calls)) = module.calls {
        lemma_call_ordinals_distinct(calls@, 0, Seq::empty());
    }
    if let Some(DecodeDifferent::Decoded(events)) = module.event {
        lemma_events_bounded(events@, 0, Seq::empty());
    }
}

proof fn lemma_indexed_modules_well_formed(
    modules: Seq<ModuleDescriptor>,
    call_sections: nat,
    event_sections: nat,
    done: Seq<(Seq<char>, ModuleMetadataView)>,
)
    requires
        (MetadataView { modules: done }).well_formed(),
    ensures
        indexed_modules(modules, call_sections, event_sections, done) matches Ok(all) ==> (
        MetadataView { modules: all }).well_formed(),
    decreases modules.len(),
{
    if modules.len() > 0 {
        let module = modules[0];
        if let DecodeDifferent::Decoded(name) = module.name {
            let index_for_calls = section_ordinal(module.calls is Some, call_sections);
            let index_for_events = section_ordinal(module.event is Some, event_sections);
            if let Ok(entry) = module_metadata(index_for_calls, index_for_events, module) {
                lemma_module_well_formed(index_for_calls, index_for_events, module);
                lemma_upsert_distinct(done, name@, entry);
                let bound = upsert(done, name@, entry);
                lemma_position(done, name@);
                assert forall|i: int| 0 <= i < bound.len() implies (#[trigger] bound[i]).1.well_formed()
                    && bound[i].1.name == bound[i].0 by {
                    if bound[i] != (name@, entry) {
                        assert(bound[i] == done[i]);
                    }
                }
                lemma_indexed_modules_well_formed(
                    modules.drop_first(),
                    count_after(module.calls is Some, call_sections),
                    count_after(module.event is Some, event_sections),
                    bound,
                );
            }
        }
    }
}

/// Every schema that can be interpreted yields modules with unique names,
/// whose storage entries and calls have unique names and whose events all
/// have a one-byte ordinal.
pub proof fn lemma_interpret_well_formed(schema: RuntimeMetadataPrefixed)
    ensures
        interpret(schema) matches Ok(parsed) ==> parsed.well_formed(),
{
    if let RuntimeMetadata::V8(body) = schema.1 {
        if let DecodeDifferent::Decoded(modules) = body.modules {
            lemma_indexed_modules_well_formed(modules@, 0, 0, Seq::empty());
        }
    }
}

} // verus!
