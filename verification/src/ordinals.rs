//! How the ordinals of a schema follow from the order of declaration.

use vstd::prelude::*;
use crate::assoc::{lemma_position, lemma_upsert_lookup, lookup, upsert};
use crate::interpret::{
    count_after, declared_name, indexed_modules, interpret, lemma_interpret_well_formed,
    lemma_module_well_formed, module_metadata, ordinal, section_ordinal,
};
use crate::metadata::{event_owner, ModuleMetadataView};
use crate::schema::{
    DecodeDifferent, ModuleDescriptor, RuntimeMetadata, RuntimeMetadataPrefixed, META_RESERVED,
};

verus! {

/// Whether `modules` holds a module named `name` with these two ordinals.
pub open spec fn has_ordinals(
    modules: Seq<(Seq<char>, ModuleMetadataView)>,
    name: Seq<char>,
    index_for_calls: Option<u8>,
    index_for_events: Option<u8>,
) -> bool {
    match lookup(modules, name) {
        Some(found) => found.index_for_calls == index_for_calls && found.index_for_events
            == index_for_events,
        None => false,
    }
}

/// The number of modules of `modules` that declare calls.
pub open spec fn call_sections(modules: Seq<ModuleDescriptor>) -> nat
    decreases modules.len(),
{
    if modules.len() == 0 {
        0
    } else {
        count_after(modules[0].calls is Some, call_sections(modules.drop_first()))
    }
}

/// The number of modules of `modules` that declare events.
pub open spec fn event_sections(modules: Seq<ModuleDescriptor>) -> nat
    decreases modules.len(),
{
    if modules.len() == 0 {
        0
    } else {
        count_after(modules[0].event is Some, event_sections(modules.drop_first()))
    }
}

proof fn lemma_unnamed_is_untouched(
    modules: Seq<ModuleDescriptor>,
    calls_before: nat,
    events_before: nat,
    done: Seq<(Seq<char>, ModuleMetadataView)>,
    name: Seq<char>,
)
    requires
        forall|j: int| 0 <= j < modules.len() ==> declared_name(modules[j]) != name,
    ensures
        indexed_modules(modules, calls_before, events_before, done) matches Ok(all) ==> lookup(
            all,
            name,
        ) == lookup(done, name),
    decreases modules.len(),
{
    if modules.len() > 0 {
        let module = modules[0];
        if let DecodeDifferent::Decoded(own) = module.name {
            assert(declared_name(modules[0]) != name);
            if let Ok(entry) = module_metadata(
                section_ordinal(module.calls is Some, calls_before),
                section_ordinal(module.event is Some, events_before),
                module,
            ) {
                lemma_upsert_lookup(done, own@, entry);
                assert forall|j: int| 0 <= j < modules.drop_first().len() implies declared_name(
                    modules.drop_first()[j],
                ) != name by {
                    assert(modules.drop_first()[j] == modules[j + 1]);
                }
                lemma_unnamed_is_untouched(
                    modules.drop_first(),
                    count_after(module.calls is Some, calls_before),
                    count_after(module.event is Some, events_before),
                    upsert(done, own@, entry),
                    name,
                );
            }
        }
    }
}

proof fn lemma_indexed_module_ordinals(
    modules: Seq<ModuleDescriptor>,
    calls_before: nat,
    events_before: nat,
    done: Seq<(Seq<char>, ModuleMetadataView)>,
    at: int,
)
    requires
        0 <= at < modules.len(),
        forall|j: int| at < j < modules.len() ==> declared_name(modules[j]) != declared_name(modules[at]),
    ensures
        indexed_modules(modules, calls_before, events_before, done) matches Ok(all)
            ==> has_ordinals(
            all,
            declared_name(modules[at]),
            section_ordinal(
                modules[at].calls is Some,
                calls_before + call_sections(modules.take(at)),
            ),
            section_ordinal(
                modules[at].event is Some,
                events_before + event_sections(modules.take(at)),
            ),
        ),
    decreases modules.len(),
{
    let module = modules[0];
    let rest = modules.drop_first();
    if let DecodeDifferent::Decoded(own) = module.name {
        let index_for_calls = section_ordinal(module.calls is Some, calls_before);
        let index_for_events = section_ordinal(module.event is Some, events_before);
        if let Ok(entry) = module_metadata(index_for_calls, index_for_events, module) {
            let bound = upsert(done, own@, entry);
            let calls_after = count_after(module.calls is Some, calls_before);
            let events_after = count_after(module.event is Some, events_before);
            lemma_module_well_formed(index_for_calls, index_for_events, module);
            if at == 0 {
                assert(modules.take(0) =~= Seq::<ModuleDescriptor>::empty());
                lemma_upsert_lookup(done, own@, entry);
                assert forall|j: int| 0 <= j < rest.len() implies declared_name(rest[j])
                    != own@ by {
                    assert(rest[j] == modules[j + 1]);
                }
                lemma_unnamed_is_untouched(rest, calls_after, events_after, bound, own@);
            } else {
                assert(rest[at - 1] == modules[at]);
                assert forall|j: int| at - 1 < j < rest.len() implies declared_name(
                    #[trigger] rest[j],
                ) != declared_name(rest[at - 1]) by {
                    assert(rest[j] == modules[j + 1]);
                }
                assert(modules.take(at)[0] == modules[0]);
                assert(modules.take(at).drop_first() =~= rest.take(at - 1));
                lemma_indexed_module_ordinals(rest, calls_after, events_after, bound, at - 1);
            }
        }
    }
}

/// Modules are numbered in declaration order, separately for calls and for
/// events, and a module without the section is skipped: the module declared
/// at position `at` has as its call ordinal the number of modules before it
/// that declare calls, and as its event ordinal the number of modules before
/// it that declare events, each reduced to one byte.
///
/// A module whose name a later module declares again is replaced by that
/// later module, so the statement is made of modules that keep their entry.
pub proof fn lemma_ordinals_count_sections(
    schema: RuntimeMetadataPrefixed,
    declared: Seq<ModuleDescriptor>,
    at: int,
)
    requires
        schema.0 == META_RESERVED,
        schema.1 matches RuntimeMetadata::V8(body) && body.modules matches DecodeDifferent::Decoded(
            modules,
        ) && modules@ == declared,
        0 <= at < declared.len(),
        forall|j: int| at < j < declared.len() ==> declared_name(declared[j]) != declared_name(declared[at]),
    ensures
        interpret(schema) matches Ok(parsed) ==> has_ordinals(
            parsed.modules,
            declared_name(declared[at]),
            section_ordinal(declared[at].calls is Some, call_sections(declared.take(at))),
            section_ordinal(declared[at].event is Some, event_sections(declared.take(at))),
        ),
{
    lemma_indexed_module_ordinals(declared, 0, 0, Seq::empty(), at);
}

/// Of three modules with different names, of which the first declares calls
/// and events, the second calls only and the third events only, the first two
/// have the call ordinals 0 and 1, and the first and the third have the event
/// ordinals 0 and 1.
pub proof fn lemma_three_module_ordinals(
    schema: RuntimeMetadataPrefixed,
    declared: Seq<ModuleDescriptor>,
)
    requires
        schema.0 == META_RESERVED,
        schema.1 matches RuntimeMetadata::V8(body) && body.modules matches DecodeDifferent::Decoded(
            modules,
        ) && modules@ == declared,
        declared.len() == 3,
        declared_name(declared[0]) != declared_name(declared[1]),
        declared_name(declared[0]) != declared_name(declared[2]),
        declared_name(declared[1]) != declared_name(declared[2]),
        declared[0].calls is Some && declared[0].event is Some,
        declared[1].calls is Some && declared[1].event is None,
        declared[2].calls is None && declared[2].event is Some,
    ensures
        interpret(schema) matches Ok(parsed) ==> {
            &&& has_ordinals(parsed.modules, declared_name(declared[0]), Some(0u8), Some(0u8))
            &&& has_ordinals(parsed.modules, declared_name(declared[1]), Some(1u8), None)
            &&& has_ordinals(parsed.modules, declared_name(declared[2]), None, Some(1u8))
        },
{
    lemma_ordinals_count_sections(schema, declared, 0);
    lemma_ordinals_count_sections(schema, declared, 1);
    lemma_ordinals_count_sections(schema, declared, 2);
    reveal_with_fuel(call_sections, 4);
    reveal_with_fuel(event_sections, 4);
    assert(declared.take(0) =~= Seq::<ModuleDescriptor>::empty());
    assert(declared.take(1).drop_first() =~= Seq::<ModuleDescriptor>::empty());
    assert(declared.take(1)[0] == declared[0]);
    assert(declared.take(2)[0] == declared[0]);
    assert(declared.take(2).drop_first()[0] == declared[1]);
    assert(declared.take(2).drop_first().drop_first() =~= Seq::<ModuleDescriptor>::empty());
}

/// Whether the modules of `modules` declare different names, none of them
/// left encode-only.
pub open spec fn distinct_names(modules: Seq<ModuleDescriptor>) -> bool {
    forall|i: int, j: int|
        0 <= i < modules.len() && 0 <= j < modules.len() && i != j ==> declared_name(
            #[trigger] modules[i],
        ) != declared_name(#[trigger] modules[j])
}

proof fn lemma_sections_grow(modules: Seq<ModuleDescriptor>, shorter: int, longer: int)
    requires
        0 <= shorter <= longer <= modules.len(),
    ensures
        call_sections(modules.take(shorter)) <= call_sections(modules.take(longer)),
        event_sections(modules.take(shorter)) <= event_sections(modules.take(longer)),
        shorter < longer && modules[shorter].calls is Some ==> call_sections(
            modules.take(shorter),
        ) < call_sections(modules.take(longer)),
        shorter < longer && modules[shorter].event is Some ==> event_sections(
            modules.take(shorter),
        ) < event_sections(modules.take(longer)),
    decreases longer,
{
    if shorter == 0 {
        assert(modules.take(0) =~= Seq::<ModuleDescriptor>::empty());
        if longer > 0 {
            let rest = modules.drop_first();
            assert(modules.take(longer)[0] == modules[0]);
            assert(modules.take(longer).drop_first() =~= rest.take(longer - 1));
            lemma_sections_grow(rest, 0, longer - 1);
            assert(rest.take(0) =~= Seq::<ModuleDescriptor>::empty());
        }
    } else {
        let rest = modules.drop_first();
        assert(modules.take(shorter)[0] == modules[0]);
        assert(modules.take(longer)[0] == modules[0]);
        assert(modules.take(shorter).drop_first() =~= rest.take(shorter - 1));
        assert(modules.take(longer).drop_first() =~= rest.take(longer - 1));
        if shorter < longer {
            assert(rest[shorter - 1] == modules[shorter]);
        }
        lemma_sections_grow(rest, shorter - 1, longer - 1);
    }
}

proof fn lemma_indexed_in_order(
    modules: Seq<ModuleDescriptor>,
    calls_before: nat,
    events_before: nat,
    done: Seq<(Seq<char>, ModuleMetadataView)>,
)
    requires
        distinct_names(modules),
        forall|i: int, j: int|
            0 <= i < modules.len() && 0 <= j < done.len() ==> declared_name(#[trigger] modules[i])
                != (#[trigger] done[j]).0,
    ensures
        indexed_modules(modules, calls_before, events_before, done) matches Ok(all) ==> {
            &&& all.len() == done.len() + modules.len()
            &&& forall|j: int| 0 <= j < done.len() ==> all[j] == done[j]
            &&& forall|i: int|
                0 <= i < modules.len() ==> {
                    &&& (#[trigger] all[done.len() + i]).0 == declared_name(modules[i])
                    &&& all[done.len() + i].1.index_for_calls == section_ordinal(
                        modules[i].calls is Some,
                        calls_before + call_sections(modules.take(i)),
                    )
                    &&& all[done.len() + i].1.index_for_events == section_ordinal(
                        modules[i].event is Some,
                        events_before + event_sections(modules.take(i)),
                    )
                }
        },
    decreases modules.len(),
{
    if modules.len() > 0 {
        let module = modules[0];
        let rest = modules.drop_first();
        if let DecodeDifferent::Decoded(own) = module.name {
            let index_for_calls = section_ordinal(module.calls is Some, calls_before);
            let index_for_events = section_ordinal(module.event is Some, events_before);
            if let Ok(entry) = module_metadata(index_for_calls, index_for_events, module) {
                let calls_after = count_after(module.calls is Some, calls_before);
                let events_after = count_after(module.event is Some, events_before);
                lemma_module_well_formed(index_for_calls, index_for_events, module);
                lemma_position(done, own@);
                assert(declared_name(modules[0]) == own@);
                let bound = upsert(done, own@, entry);
                assert(bound == done.push((own@, entry)));
                assert forall|i: int, j: int|
                    0 <= i < rest.len() && 0 <= j < rest.len() && i != j implies declared_name(
                    #[trigger] rest[i],
                ) != declared_name(#[trigger] rest[j]) by {
                    assert(rest[i] == modules[i + 1]);
                    assert(rest[j] == modules[j + 1]);
                }
                assert forall|i: int, j: int|
                    0 <= i < rest.len() && 0 <= j < bound.len() implies declared_name(
                    #[trigger] rest[i],
                ) != (#[trigger] bound[j]).0 by {
                    assert(rest[i] == modules[i + 1]);
                    if j < done.len() {
                        assert(bound[j] == done[j]);
                    }
                }
                lemma_indexed_in_order(rest, calls_after, events_after, bound);
                if let Ok(all) = indexed_modules(rest, calls_after, events_after, bound) {
                    assert forall|j: int| 0 <= j < done.len() implies all[j] == done[j] by {
                        assert(all[j] == bound[j]);
                    }
                    assert forall|i: int| 0 <= i < modules.len() implies {
                        &&& (#[trigger] all[done.len() + i]).0 == declared_name(modules[i])
                        &&& all[done.len() + i].1.index_for_calls == section_ordinal(
                            modules[i].calls is Some,
                            calls_before + call_sections(modules.take(i)),
                        )
                        &&& all[done.len() + i].1.index_for_events == section_ordinal(
                            modules[i].event is Some,
                            events_before + event_sections(modules.take(i)),
                        )
                    } by {
                        if i == 0 {
                            assert(modules.take(0) =~= Seq::<ModuleDescriptor>::empty());
                            assert(all[done.len() as int] == bound[done.len() as int]);
                        } else {
                            assert(rest[i - 1] == modules[i]);
                            assert(modules.take(i)[0] == modules[0]);
                            assert(modules.take(i).drop_first() =~= rest.take(i - 1));
                            assert(all[bound.len() + (i - 1)] == all[done.len() + i]);
                        }
                    }
                }
            }
        }
    }
}

proof fn lemma_event_owner_is_first(
    modules: Seq<(Seq<char>, ModuleMetadataView)>,
    ordinal: u8,
    at: int,
)
    requires
        0 <= at < modules.len(),
        modules[at].1.index_for_events == Some(ordinal),
        forall|j: int| 0 <= j < at ==> (#[trigger] modules[j]).1.index_for_events != Some(ordinal),
    ensures
        event_owner(modules, ordinal) == Some(modules[at].1),
    decreases at,
{
    if at > 0 {
        let rest = modules.drop_first();
        assert(rest[at - 1] == modules[at]);
        assert forall|j: int| 0 <= j < at - 1 implies (#[trigger] rest[j]).1.index_for_events
            != Some(ordinal) by {
            assert(rest[j] == modules[j + 1]);
        }
        lemma_event_owner_is_first(rest, ordinal, at - 1);
    }
}

/// Where the modules have different names, the schema keeps them in
/// declaration order. Where at most 256 of them declare events, an event
/// ordinal then belongs to one module only: looking a module up by its event
/// ordinal finds the very module that a lookup by its name finds.
pub proof fn lemma_event_ordinal_names_one_module(
    schema: RuntimeMetadataPrefixed,
    declared: Seq<ModuleDescriptor>,
    at: int,
)
    requires
        schema.0 == META_RESERVED,
        schema.1 matches RuntimeMetadata::V8(body) && body.modules matches DecodeDifferent::Decoded(
            modules,
        ) && modules@ == declared,
        distinct_names(declared),
        event_sections(declared) <= 256,
        0 <= at < declared.len(),
        declared[at].event is Some,
    ensures
        interpret(schema) matches Ok(parsed) ==> {
            &&& parsed.modules.len() == declared.len()
            &&& parsed.modules[at].0 == declared_name(declared[at])
            &&& lookup(parsed.modules, declared_name(declared[at])) == Some(parsed.modules[at].1)
            &&& parsed.modules[at].1.index_for_events == Some(
                ordinal(event_sections(declared.take(at))),
            )
            &&& event_owner(parsed.modules, ordinal(event_sections(declared.take(at)))) == Some(
                parsed.modules[at].1,
            )
        },
{
    lemma_indexed_in_order(declared, 0, 0, Seq::empty());
    if let Ok(parsed) = interpret(schema) {
        let all = parsed.modules;
        let own = ordinal(event_sections(declared.take(at)));
        assert(declared.take(declared.len() as int) =~= declared);
        lemma_sections_grow(declared, at, declared.len() as int);
        assert(all[0 + at].0 == declared_name(declared[at]));
        assert forall|j: int| 0 <= j < at implies (#[trigger] all[j]).1.index_for_events != Some(
            own,
        ) by {
            assert(all[0 + j].0 == declared_name(declared[j]));
            lemma_sections_grow(declared, j, at);
        }
        lemma_event_owner_is_first(all, own, at);
        lemma_position(all, declared_name(declared[at]));
        lemma_interpret_well_formed(schema);
        assert forall|j: int| 0 <= j < all.len() && j != at implies (#[trigger] all[j]).0
            != declared_name(declared[at]) by {
            assert(all[0 + j].0 == declared_name(declared[j]));
        }
    }
}

} // verus!
