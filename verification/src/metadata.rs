//! The schema of a node, indexed for lookup: modules by name and by event
//! ordinal, calls and storage entries by name, events by ordinal.

use vstd::prelude::*;
use vstd::slice::slice_subrange;
use vstd::string::{StrSliceExecFns, StringExecFns};
use vstd::utf8::encode_utf8;
use crate::assoc::{distinct_keys, entry_views, find_key, lemma_position, lookup};
use crate::codec::{little_endian, Encoded};
use crate::error::{Error, ErrorView, MetadataError, MetadataErrorView};
use crate::event_arg::{views, EventArg, EventArgView};
use crate::schema::{
    StorageEntryModifier, StorageEntryType, META_RESERVED, SUPPORTED_VERSION,
};
use crate::storage::StorageMap;

verus! {

/// One event of a module: its name and the shapes of its arguments, in
/// declaration order.
#[derive(Debug)]
pub struct ModuleEventMetadata {
    pub name: String,
    pub(crate) arguments: Vec<EventArg>,
}

/// Mathematical value of a [`ModuleEventMetadata`].
pub struct ModuleEventMetadataView {
    pub name: Seq<char>,
    pub arguments: Seq<EventArgView>,
}

impl View for ModuleEventMetadata {
    type V = ModuleEventMetadataView;

    open(crate) spec fn view(&self) -> ModuleEventMetadataView {
        ModuleEventMetadataView { name: self.name@, arguments: views(self.arguments@) }
    }
}

/// One storage entry of a module.
#[derive(Debug)]
pub struct StorageMetadata {
    pub(crate) prefix: String,
    pub(crate) modifier: StorageEntryModifier,
    pub(crate) ty: StorageEntryType,
    pub(crate) default: Vec<u8>,
}

/// Mathematical value of a [`StorageMetadata`].
pub struct StorageMetadataView {
    /// The module's name, a space, and the entry's name.
    pub prefix: Seq<char>,
    pub modifier: StorageEntryModifier,
    pub ty: StorageEntryType,
    /// The encoded default value.
    pub default: Seq<u8>,
}

impl View for StorageMetadata {
    type V = StorageMetadataView;

    open(crate) spec fn view(&self) -> StorageMetadataView {
        StorageMetadataView {
            prefix: self.prefix@,
            modifier: self.modifier,
            ty: self.ty,
            default: self.default@,
        }
    }
}

/// One module of the schema.
#[derive(Debug)]
pub struct ModuleMetadata {
    pub(crate) index_for_calls: Option<u8>,
    pub(crate) index_for_events: Option<u8>,
    pub(crate) name: String,
    pub(crate) storage: Vec<(String, StorageMetadata)>,
    pub(crate) calls: Vec<(String, u8)>,
    pub(crate) events: Vec<ModuleEventMetadata>,
}

/// Mathematical value of a [`ModuleMetadata`].
pub struct ModuleMetadataView {
    pub name: Seq<char>,
    /// The module's ordinal among the modules that declare calls.
    pub index_for_calls: Option<u8>,
    /// The module's ordinal among the modules that declare events.
    pub index_for_events: Option<u8>,
    /// The storage entries by name, in declaration order.
    pub storage: Seq<(Seq<char>, StorageMetadataView)>,
    /// The ordinal of each call by name, in declaration order.
    pub calls: Seq<(Seq<char>, u8)>,
    /// The events; the position of an event is its ordinal.
    pub events: Seq<ModuleEventMetadataView>,
}

impl View for ModuleMetadata {
    type V = ModuleMetadataView;

    open(crate) spec fn view(&self) -> ModuleMetadataView {
        ModuleMetadataView {
            name: self.name@,
            index_for_calls: self.index_for_calls,
            index_for_events: self.index_for_events,
            storage: entry_views(self.storage@),
            calls: entry_views(self.calls@),
            events: event_views(self.events@),
        }
    }
}

/// The schema of a node.
#[derive(Debug)]
pub struct Metadata {
    pub(crate) modules: Vec<(String, ModuleMetadata)>,
}

/// Mathematical value of a [`Metadata`]: the modules by name, in declaration order.
pub struct MetadataView {
    pub modules: Seq<(Seq<char>, ModuleMetadataView)>,
}

impl View for Metadata {
    type V = MetadataView;

    open(crate) spec fn view(&self) -> MetadataView {
        MetadataView { modules: entry_views(self.modules@) }
    }
}

impl ModuleMetadata {
    #[verifier::type_invariant]
    pub(crate) open spec fn sound(self) -> bool {
        self@.well_formed()
    }
}

impl Metadata {
    #[verifier::type_invariant]
    pub(crate) open spec fn sound(self) -> bool {
        self@.well_formed()
    }
}

/// The events of `events` as mathematical values, in order.
pub open spec fn event_views(events: Seq<ModuleEventMetadata>) -> Seq<ModuleEventMetadataView> {
    Seq::new(events.len(), |i: int| events[i]@)
}

/// The prefix of a storage entry: the module's name, a space, the entry's name.
pub open spec fn entry_prefix(module_name: Seq<char>, name: Seq<char>) -> Seq<char> {
    module_name + seq![' '] + name
}

/// Whether each entry of `storage` has the prefix that the module named
/// `module_name` gives it.
pub open spec fn prefixed_by(
    module_name: Seq<char>,
    storage: Seq<(Seq<char>, StorageMetadataView)>,
) -> bool {
    forall|i: int|
        0 <= i < storage.len() ==> (#[trigger] storage[i]).1.prefix == entry_prefix(
            module_name,
            storage[i].0,
        )
}

impl ModuleMetadataView {
    /// No two storage entries and no two calls share a name, every storage
    /// entry has the module's name and its own as its prefix, every event
    /// has a one-byte ordinal, and a module without a call ordinal or without
    /// an event ordinal has no calls or no events.
    pub open spec fn well_formed(self) -> bool {
        &&& distinct_keys(self.storage)
        &&& prefixed_by(self.name, self.storage)
        &&& distinct_keys(self.calls)
        &&& self.events.len() <= 256
        &&& self.index_for_calls is None ==> self.calls.len() == 0
        &&& self.index_for_events is None ==> self.events.len() == 0
    }
}

impl MetadataView {
    /// No two modules share a name, each module is filed under its own name,
    /// and each is well formed.
    pub open spec fn well_formed(self) -> bool {
        &&& distinct_keys(self.modules)
        &&& forall|i: int|
            0 <= i < self.modules.len() ==> (#[trigger] self.modules[i]).1.well_formed()
                && self.modules[i].1.name == self.modules[i].0
    }
}

/// The first module, in declaration order, whose event ordinal is `ordinal`.
pub open spec fn event_owner(modules: Seq<(Seq<char>, ModuleMetadataView)>, ordinal: u8) -> Option<
    ModuleMetadataView,
>
    decreases modules.len(),
{
    if modules.len() == 0 {
        None
    } else if modules[0].1.index_for_events == Some(ordinal) {
        Some(modules[0].1)
    } else {
        event_owner(modules.drop_first(), ordinal)
    }
}

/// One line for each entry of `entries`: the tag, the entry's name, a line break.
pub open spec fn listing<W>(tag: Seq<char>, entries: Seq<(Seq<char>, W)>) -> Seq<char>
    decreases entries.len(),
{
    if entries.len() == 0 {
        Seq::empty()
    } else {
        listing(tag, entries.drop_last()) + tag + entries.last().0 + seq!['\n']
    }
}

/// One line for each event: the tag, the event's name, a line break.
pub open spec fn event_listing(tag: Seq<char>, events: Seq<ModuleEventMetadataView>) -> Seq<char>
    decreases events.len(),
{
    if events.len() == 0 {
        Seq::empty()
    } else {
        event_listing(tag, events.drop_last()) + tag + events.last().name + seq!['\n']
    }
}

/// The lines that describe one module: its name, then its storage entries,
/// its calls and its events.
pub open spec fn module_text(name: Seq<char>, module: ModuleMetadataView) -> Seq<char> {
    name + seq!['\n'] + listing(" s  "@, module.storage) + listing(" c  "@, module.calls)
        + event_listing(" e  "@, module.events)
}

/// The lines that describe the modules, in declaration order.
pub open spec fn pretty_text(modules: Seq<(Seq<char>, ModuleMetadataView)>) -> Seq<char>
    decreases modules.len(),
{
    if modules.len() == 0 {
        Seq::empty()
    } else {
        pretty_text(modules.drop_last()) + module_text(modules.last().0, modules.last().1)
    }
}

/// The bytes that dispatch the call `function` of `module` with the encoded
/// arguments `params`: the module's call ordinal, the function's ordinal,
/// then the arguments.
///
/// A name that the module does not know is not found, whether or not the
/// module declares calls at all. A well-formed module that knows the name
/// has a call ordinal.
pub open spec fn call_bytes(module: ModuleMetadataView, function: Seq<char>, params: Seq<u8>)
    -> Result<Seq<u8>, MetadataErrorView> {
    match lookup(module.calls, function) {
        None => Err(MetadataErrorView::CallNotFound(function)),
        Some(ordinal) => match module.index_for_calls {
            Some(index) => Ok(seq![index, ordinal] + params),
            None => Err(MetadataErrorView::IndexNotFound(module.name)),
        },
    }
}

/// An encoded call is two bytes longer than its arguments: it starts with
/// the call ordinal of the module, then comes the ordinal of the function,
/// and what follows is the arguments and nothing else.
pub proof fn lemma_call_layout(module: ModuleMetadataView, function: Seq<char>, params: Seq<u8>)
    requires
        call_bytes(module, function, params) is Ok,
    ensures
        ({
            let bytes = call_bytes(module, function, params)->Ok_0;
            &&& bytes.len() == params.len() + 2
            &&& Some(bytes[0]) == module.index_for_calls
            &&& Some(bytes[1]) == lookup(module.calls, function)
            &&& bytes.skip(2) == params
        }),
{
    let bytes = call_bytes(module, function, params)->Ok_0;
    assert(bytes.skip(2) =~= params);
}

/// Appends one line for each name of `entries` to `text`.
fn list_names<V: View>(text: &mut String, tag: &str, entries: &Vec<(String, V)>)
    ensures
        final(text)@ == old(text)@ + listing(tag@, entry_views(entries@)),
{
    let ghost start = text@;
    let ghost all = entry_views(entries@);
    let mut i: usize = 0;
    proof {
        assert(start + listing(tag@, all.take(0)) =~= start);
    }
    while i < entries.len()
        invariant
            i <= entries.len(),
            all == entry_views(entries@),
            text@ == start + listing(tag@, all.take(i as int)),
        decreases entries.len() - i,
    {
        proof {
            reveal_strlit("\n");
            assert("\n"@ =~= seq!['\n']);
            assert(all.take(i + 1).drop_last() =~= all.take(i as int));
            assert(all.take(i + 1).last() == all[i as int]);
        }
        let ghost before = text@;
        text.append(tag);
        text.append(entries[i].0.as_str());
        text.append("\n");
        proof {
            assert(text@ =~= start + listing(tag@, all.take(i + 1)));
        }
        i = i + 1;
    }
    proof {
        assert(all.take(entries.len() as int) =~= all);
    }
}

/// Appends one line for each event of `events` to `text`.
fn list_events(text: &mut String, tag: &str, events: &Vec<ModuleEventMetadata>)
    ensures
        final(text)@ == old(text)@ + event_listing(tag@, event_views(events@)),
{
    let ghost start = text@;
    let ghost all = event_views(events@);
    let mut i: usize = 0;
    proof {
        assert(start + event_listing(tag@, all.take(0)) =~= start);
    }
    while i < events.len()
        invariant
            i <= events.len(),
            all == event_views(events@),
            text@ == start + event_listing(tag@, all.take(i as int)),
        decreases events.len() - i,
    {
        proof {
            reveal_strlit("\n");
            assert("\n"@ =~= seq!['\n']);
            assert(all.take(i + 1).drop_last() =~= all.take(i as int));
            assert(all.take(i + 1).last() == all[i as int]);
        }
        text.append(tag);
        text.append(events[i].name.as_str());
        text.append("\n");
        proof {
            assert(text@ =~= start + event_listing(tag@, all.take(i + 1)));
        }
        i = i + 1;
    }
    proof {
        assert(all.take(events.len() as int) =~= all);
    }
}

impl Metadata {
    /// The modules, in declaration order.
    pub fn modules(&self) -> (all: Vec<&ModuleMetadata>)
        ensures
            all@.len() == self@.modules.len(),
            forall|i: int| 0 <= i < all@.len() ==> all@[i]@ == self@.modules[i].1,
            self@.well_formed(),
    {
        proof {
            use_type_invariant(self);
        }
        let mut all: Vec<&ModuleMetadata> = Vec::new();
        let mut i: usize = 0;
        while i < self.modules.len()
            invariant
                i <= self.modules.len(),
                all@.len() == i,
                forall|j: int| 0 <= j < i ==> all@[j]@ == self@.modules[j].1,
            decreases self.modules.len() - i,
        {
            all.push(&self.modules[i].1);
            i = i + 1;
        }
        all
    }

    /// The module named `name`.
    pub fn module(&self, name: &str) -> (r: Result<&ModuleMetadata, MetadataError>)
        ensures
            match r {
                Ok(module) => lookup(self@.modules, name@) == Some(module@) && module@.name
                    == name@,
                Err(e) => lookup(self@.modules, name@) is None && e@
                    == MetadataErrorView::ModuleNotFound(name@),
            },
    {
        proof {
            use_type_invariant(self);
            lemma_position(self@.modules, name@);
        }
        let name = name.to_owned();
        match find_key(&self.modules, &name) {
            Some(i) => Ok(&self.modules[i].1),
            None => Err(MetadataError::ModuleNotFound(name)),
        }
    }

    /// The module that owns the event ordinal `module_index`: the first, in
    /// declaration order, whose event ordinal is that byte.
    pub fn module_name(&self, module_index: u8) -> (r: Result<&ModuleMetadata, MetadataError>)
        ensures
            match r {
                Ok(module) => event_owner(self@.modules, module_index) == Some(module@),
                Err(e) => event_owner(self@.modules, module_index) is None && e@
                    == MetadataErrorView::EventNotFound(module_index),
            },
    {
        let ghost all = self@.modules;
        let mut i: usize = 0;
        proof {
            assert(all.skip(0) =~= all);
        }
        while i < self.modules.len()
            invariant
                i <= self.modules.len(),
                all == self@.modules,
                event_owner(all, module_index) == event_owner(all.skip(i as int), module_index),
            decreases self.modules.len() - i,
        {
            proof {
                assert(all.skip(i as int).drop_first() =~= all.skip(i + 1));
                assert(all.skip(i as int)[0] == all[i as int]);
            }
            match self.modules[i].1.index_for_events {
                Some(index) => {
                    if index == module_index {
                        return Ok(&self.modules[i].1);
                    }
                },
                None => {},
            }
            i = i + 1;
        }
        Err(MetadataError::EventNotFound(module_index))
    }

    /// A listing of the schema: for each module its name, then one line for
    /// each storage entry, call and event.
    pub fn pretty(&self) -> (text: String)
        ensures
            text@ == pretty_text(self@.modules),
    {
        let mut text = String::new();
        let ghost all = self@.modules;
        let mut i: usize = 0;
        proof {
            assert(all.take(0) =~= Seq::<(Seq<char>, ModuleMetadataView)>::empty());
        }
        while i < self.modules.len()
            invariant
                i <= self.modules.len(),
                all == self@.modules,
                text@ == pretty_text(all.take(i as int)),
            decreases self.modules.len() - i,
        {
            let module = &self.modules[i].1;
            let ghost before = text@;
            proof {
                reveal_strlit("\n");
                assert("\n"@ =~= seq!['\n']);
                assert(all.take(i + 1).drop_last() =~= all.take(i as int));
                assert(all.take(i + 1).last() == all[i as int]);
            }
            text.append(self.modules[i].0.as_str());
            text.append("\n");
            list_names(&mut text, " s  ", &module.storage);
            list_names(&mut text, " c  ", &module.calls);
            list_events(&mut text, " e  ", &module.events);
            proof {
                assert(text@ =~= before + module_text(all[i as int].0, all[i as int].1));
            }
            i = i + 1;
        }
        proof {
            assert(all.take(self.modules.len() as int) =~= all);
        }
        text
    }
}

impl ModuleMetadata {
    /// The module's name.
    pub fn name(&self) -> (name: &str)
        ensures
            name@ == self@.name,
            self@.well_formed(),
    {
        proof {
            use_type_invariant(self);
        }
        self.name.as_str()
    }

    /// Encodes a call of this module: the module's call ordinal, the ordinal
    /// of `function`, then `encoded_params`, the arguments in the node's
    /// binary encoding. The one way to fail is a name that the module does
    /// not know.
    pub fn call(&self, function: &'static str, encoded_params: &[u8]) -> (r: Result<
        Encoded,
        MetadataError,
    >)
        ensures
            match r {
                Ok(encoded) => call_bytes(self@, function@, encoded_params@) == Ok::<
                    Seq<u8>,
                    MetadataErrorView,
                >(encoded@),
                Err(e) => call_bytes(self@, function@, encoded_params@) == Err::<
                    Seq<u8>,
                    MetadataErrorView,
                >(e@),
            },
            r matches Err(e) ==> lookup(self@.calls, function@) is None && e@
                == MetadataErrorView::CallNotFound(function@),
    {
        proof {
            use_type_invariant(self);
            lemma_position(self@.calls, function@);
        }
        let key = function.to_owned();
        let ordinal = match find_key(&self.calls, &key) {
            Some(i) => self.calls[i].1,
            None => {
                return Err(MetadataError::CallNotFound(function));
            },
        };
        let index = match self.index_for_calls {
            Some(index) => index,
            None => {
                return Err(MetadataError::IndexNotFound(self.name.clone()));
            },
        };
        let mut bytes: Vec<u8> = Vec::new();
        bytes.push(index);
        bytes.push(ordinal);
        bytes.extend_from_slice(encoded_params);
        proof {
            assert(bytes@ =~= seq![index, ordinal] + encoded_params@);
        }
        Ok(Encoded(bytes))
    }

    /// The storage entry named `key`.
    pub fn storage(&self, key: &'static str) -> (r: Result<&StorageMetadata, MetadataError>)
        ensures
            match r {
                Ok(entry) => lookup(self@.storage, key@) == Some(entry@) && entry@.prefix
                    == entry_prefix(self@.name, key@),
                Err(e) => lookup(self@.storage, key@) is None && e@
                    == MetadataErrorView::StorageNotFound(key@),
            },
    {
        proof {
            use_type_invariant(self);
            lemma_position(self@.storage, key@);
        }
        let name = key.to_owned();
        match find_key(&self.storage, &name) {
            Some(i) => Ok(&self.storage[i].1),
            None => Err(MetadataError::StorageNotFound(key)),
        }
    }

    /// The events of the module; the position of an event is its ordinal.
    pub fn events(&self) -> (all: &Vec<ModuleEventMetadata>)
        ensures
            event_views(all@) == self@.events,
    {
        &self.events
    }

    /// The event with the ordinal `index`.
    pub fn event(&self, index: u8) -> (r: Result<&ModuleEventMetadata, MetadataError>)
        ensures
            match r {
                Ok(event) => index < self@.events.len() && event@ == self@.events[index as int],
                Err(e) => index >= self@.events.len() && e@ == MetadataErrorView::EventNotFound(
                    index,
                ),
            },
    {
        if (index as usize) < self.events.len() {
            Ok(&self.events[index as usize])
        } else {
            Err(MetadataError::EventNotFound(index))
        }
    }
}

impl StorageMetadata {
    /// The encoded default value of the entry.
    pub fn default_bytes(&self) -> (bytes: &Vec<u8>)
        ensures
            bytes@ == self@.default,
    {
        &self.default
    }

    /// The view of this entry as a storage map.
    ///
    /// `default` is the default value of the entry as the caller's codec
    /// reads it from [`Self::default_bytes`], and none if it cannot. The
    /// entry must be a map, and the default must have been read.
    pub fn get_map<V>(&self, default: Option<V>) -> (r: Result<StorageMap<V>, MetadataError>)
        ensures
            match r {
                Ok(map) => self@.ty matches StorageEntryType::KeyedMap { hasher, .. }
                    && map.hasher() == hasher && map.prefix() == encode_utf8(self@.prefix)
                    && default == Some(map.default_value()),
                Err(e) => match self@.ty {
                    StorageEntryType::KeyedMap { .. } => default is None && e@
                        == MetadataErrorView::MapValueTypeError,
                    _ => e@ == MetadataErrorView::StorageTypeError,
                },
            },
    {
        match self.ty {
            StorageEntryType::KeyedMap { hasher, is_linked } => {
                let prefix = self.prefix.as_str().as_bytes_vec();
                match default {
                    Some(default) => Ok(StorageMap::new(prefix, hasher, default)),
                    None => Err(MetadataError::MapValueTypeError),
                }
            },
            _ => Err(MetadataError::StorageTypeError),
        }
    }
}

impl ModuleEventMetadata {
    /// The shapes of the event's arguments, in declaration order.
    pub fn arguments(&self) -> (args: Vec<EventArg>)
        ensures
            views(args@) == self@.arguments,
    {
        let args = self.arguments.clone();
        proof {
            assert(views(args@) =~= views(self.arguments@));
        }
        args
    }
}

/// The first four bytes of every schema blob: the reserved magic number,
/// least significant byte first.
pub open spec fn magic_bytes() -> Seq<u8> {
    seq![0x6du8, 0x65u8, 0x74u8, 0x61u8]
}

/// What the first five bytes of a schema blob say: an error for a wrong magic
/// number, whatever follows it; then for a version tag other than the
/// supported one; else the encoded module list that follows the tag.
pub open spec fn body_of(blob: Seq<u8>) -> Result<Seq<u8>, ErrorView> {
    if blob.len() < 4 || blob.take(4) != magic_bytes() {
        Err(ErrorView::InvalidPrefix)
    } else if blob.len() < 5 || blob[4] != SUPPORTED_VERSION {
        Err(ErrorView::InvalidVersion)
    } else {
        Ok(blob.skip(5))
    }
}

/// The magic bytes are the encoding of the reserved number.
pub proof fn lemma_magic_bytes_encode_reserved()
    ensures
        magic_bytes() == little_endian(META_RESERVED as nat, 4),
{
    reveal_with_fuel(little_endian, 5);
    assert(magic_bytes() =~= little_endian(META_RESERVED as nat, 4));
}

/// Checks the magic number and the version tag of a schema blob, and hands
/// back the encoded module list behind them.
pub fn split_header(blob: &[u8]) -> (r: Result<&[u8], Error>)
    ensures
        match r {
            Ok(body) => body_of(blob@) == Ok::<Seq<u8>, ErrorView>(body@),
            Err(e) => body_of(blob@) == Err::<Seq<u8>, ErrorView>(e@),
        },
        blob@.len() < 4 || blob@.take(4) != magic_bytes() ==> r is Err && r->Err_0@
            == ErrorView::InvalidPrefix,
{
    if blob.len() < 4 || blob[0] != 0x6d || blob[1] != 0x65 || blob[2] != 0x74 || blob[3] != 0x61 {
        proof {
            if blob.len() >= 4 {
                assert(blob@.take(4)[0] == blob@[0]);
                assert(blob@.take(4)[1] == blob@[1]);
                assert(blob@.take(4)[2] == blob@[2]);
                assert(blob@.take(4)[3] == blob@[3]);
            }
        }
        return Err(Error::InvalidPrefix);
    }
    proof {
        assert(blob@.take(4) =~= magic_bytes());
    }
    if blob.len() < 5 || blob[4] != SUPPORTED_VERSION {
        return Err(Error::InvalidVersion);
    }
    Ok(slice_subrange(blob, 5, blob.len()))
}

} // verus!
