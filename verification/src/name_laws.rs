//! What becomes of the names of a module.
use std::ops::Range;
use vstd::prelude::*;
use wasmparser::BinaryReaderError;

use crate::context::ContextView;
use crate::error::{Error, Stop};
use crate::model::{
    IndirectKind, IndirectNamingView, NameEntry, NameKind, Naming, NamingView, Payload,
    SubsectionView,
};
use crate::names::{
    flat_names, indirect_entry, indirect_map_at, name_entry, name_map_at, present, subsection_entry,
};
use crate::read::{wasm_indirect_names, wasm_name_map, wasm_names};
use crate::section_laws::{behind, lemma_taken, next_anew, taken};
use crate::traverse::traverse;

verus! {

/// How the name map at `range` of the module and the one that is written belong together: there is
/// one name for each entry, in order, for what has an index that is larger by `by`.
pub open spec fn names_taken(
    wasm: Seq<u8>,
    range: Range<usize>,
    by: int,
    names: Seq<NamingView>,
    r: Result<(), Stop>,
) -> bool {
    &&& range.start <= range.end <= wasm.len()
    &&& taken(
        wasm_name_map(wasm.subrange(range.start as int, range.end as int), range.start),
        names,
        r,
        |given: Naming<'static>, name: NamingView|
            name.index == given.index + by && name.name == given.name@,
        |given: Naming<'static>, why: Stop|
            given.index + by > u32::MAX && why == Stop::OutOfRange,
        |error: BinaryReaderError| Error::ParseNameMapName(error),
    )
}

/// Why the name map at `range` of the module cannot be taken: the first entry that cannot decides.
pub open spec fn names_refused(wasm: Seq<u8>, range: Range<usize>, by: int, stop: Stop) -> bool {
    if range.start <= range.end <= wasm.len() {
        exists|before: Seq<NamingView>| #[trigger] names_taken(wasm, range, by, before, Err(stop))
    } else {
        stop == Stop::OutOfRange
    }
}

proof fn lemma_names_taken(wasm: Seq<u8>, range: Range<usize>, is_function: bool, by: int)
    requires
        by == if is_function {
            2int
        } else {
            0int
        },
    ensures
        match name_map_at(wasm, range, is_function) {
            Ok(names) => names_taken(wasm, range, by, names, Ok(())),
            Err(stop) => names_refused(wasm, range, by, stop),
        },
{
    if range.start <= range.end <= wasm.len() {
        let data = wasm.subrange(range.start as int, range.end as int);
        let entries = wasm_name_map(data, range.start);
        let f = |entry| name_entry(is_function, entry);
        let (added, r) = traverse(entries, f);
        lemma_taken(
            entries,
            f,
            |given: Naming<'static>, name: NamingView|
                name.index == given.index + by && name.name == given.name@,
            |given: Naming<'static>, why: Stop|
                given.index + by > u32::MAX && why == Stop::OutOfRange,
            |error: BinaryReaderError| Error::ParseNameMapName(error),
        );
        assert(names_taken(wasm, range, by, added, r));
    }
}

/// That the names of something within a function are those that were given, and that the index of
/// the function is larger by two.
pub open spec fn same_inner_names(
    wasm: Seq<u8>,
    given: (u32, Range<usize>),
    naming: IndirectNamingView,
) -> bool {
    naming.index == given.0 + 2 && names_taken(wasm, given.1, 0, naming.names, Ok(()))
}

/// Why the names of something within a function cannot be taken.
pub open spec fn inner_names_refused(
    wasm: Seq<u8>,
    given: (u32, Range<usize>),
    stop: Stop,
) -> bool {
    if given.0 + 2 > u32::MAX {
        stop == Stop::OutOfRange
    } else {
        names_refused(wasm, given.1, 0, stop)
    }
}

/// How the indirect name map at `range` of the module and the one that is written belong together:
/// there is one entry for each function, in order.
pub open spec fn indirect_taken(
    wasm: Seq<u8>,
    range: Range<usize>,
    names: Seq<IndirectNamingView>,
    r: Result<(), Stop>,
) -> bool {
    &&& range.start <= range.end <= wasm.len()
    &&& taken(
        wasm_indirect_names(wasm.subrange(range.start as int, range.end as int), range.start),
        names,
        r,
        |given: (u32, Range<usize>), naming: IndirectNamingView|
            same_inner_names(wasm, given, naming),
        |given: (u32, Range<usize>), why: Stop| inner_names_refused(wasm, given, why),
        |error: BinaryReaderError| Error::ParseIndirectNameMapName(error),
    )
}

/// Why the indirect name map at `range` of the module cannot be taken: the first entry that cannot
/// decides.
pub open spec fn indirect_refused(wasm: Seq<u8>, range: Range<usize>, stop: Stop) -> bool {
    if range.start <= range.end <= wasm.len() {
        exists|before: Seq<IndirectNamingView>| #[trigger]
            indirect_taken(wasm, range, before, Err(stop))
    } else {
        stop == Stop::OutOfRange
    }
}

proof fn lemma_indirect_taken(wasm: Seq<u8>, range: Range<usize>)
    ensures
        match indirect_map_at(wasm, range) {
            Ok(names) => indirect_taken(wasm, range, names, Ok(())),
            Err(stop) => indirect_refused(wasm, range, stop),
        },
{
    if range.start <= range.end <= wasm.len() {
        let data = wasm.subrange(range.start as int, range.end as int);
        let entries = wasm_indirect_names(data, range.start);
        let f = |entry| indirect_entry(wasm, entry);
        let (added, r) = traverse(entries, f);
        assert forall|given: (u32, Range<usize>)|
            match #[trigger] f(Ok(given)) {
                Ok(naming) => same_inner_names(wasm, given, naming),
                Err(stop) => inner_names_refused(wasm, given, stop),
            } by {
            lemma_names_taken(wasm, given.1, false, 0);
        }
        lemma_taken(
            entries,
            f,
            |given: (u32, Range<usize>), naming: IndirectNamingView|
                same_inner_names(wasm, given, naming),
            |given: (u32, Range<usize>), why: Stop| inner_names_refused(wasm, given, why),
            |error: BinaryReaderError| Error::ParseIndirectNameMapName(error),
        );
        assert(indirect_taken(wasm, range, added, r));
    }
}

/// That the last two names are those of the functions of the host.
pub open spec fn host_named_last(names: Seq<NamingView>) -> bool {
    &&& names.len() >= 2
    &&& names[names.len() - 2] == (NamingView { index: 0, name: "finite_wasm_gas"@ })
    &&& names[names.len() - 1] == (NamingView { index: 1, name: "finite_wasm_stack"@ })
}

/// That a part of the name section is the one that was given. The functions of the module get
/// indices that are larger by two, and those of the host are named behind them; all else stays.
pub open spec fn same_names(
    wasm: Seq<u8>,
    entry: NameEntry<'static>,
    subsection: SubsectionView,
) -> bool {
    match (entry, subsection) {
        (NameEntry::ModuleName(name), SubsectionView::Module(same)) => same == name@,
        (NameEntry::FunctionNames(range), SubsectionView::Names(NameKind::Function, names)) => {
            &&& host_named_last(names)
            &&& names_taken(wasm, range, 2, names.take(names.len() - 2), Ok(()))
        },
        (NameEntry::LocalNames(range), SubsectionView::Indirect(IndirectKind::Local, names)) => {
            indirect_taken(wasm, range, names, Ok(()))
        },
        (NameEntry::LabelNames(range), SubsectionView::Indirect(IndirectKind::Label, names)) => {
            indirect_taken(wasm, range, names, Ok(()))
        },
        (NameEntry::TypeNames(range), SubsectionView::Names(NameKind::Type, names)) => {
            names_taken(wasm, range, 0, names, Ok(()))
        },
        (NameEntry::TableNames(range), SubsectionView::Names(NameKind::Table, names)) => {
            names_taken(wasm, range, 0, names, Ok(()))
        },
        (NameEntry::MemoryNames(range), SubsectionView::Names(NameKind::Memory, names)) => {
            names_taken(wasm, range, 0, names, Ok(()))
        },
        (NameEntry::GlobalNames(range), SubsectionView::Names(NameKind::Global, names)) => {
            names_taken(wasm, range, 0, names, Ok(()))
        },
        (NameEntry::ElementNames(range), SubsectionView::Names(NameKind::Element, names)) => {
            names_taken(wasm, range, 0, names, Ok(()))
        },
        (NameEntry::DataNames(range), SubsectionView::Names(NameKind::Data, names)) => {
            names_taken(wasm, range, 0, names, Ok(()))
        },
        _ => false,
    }
}

/// What is written for an entry of the name section: nothing if it is not understood, and the same
/// names otherwise.
pub open spec fn same_names_if_known(
    wasm: Seq<u8>,
    entry: NameEntry<'static>,
    item: Option<SubsectionView>,
) -> bool {
    match item {
        None => entry is UnknownNames,
        Some(subsection) => same_names(wasm, entry, subsection),
    }
}

/// Why a part of the name section cannot be taken.
pub open spec fn subsection_refused(wasm: Seq<u8>, entry: NameEntry<'static>, stop: Stop) -> bool {
    match entry {
        NameEntry::ModuleName(_) => false,
        NameEntry::UnknownNames => false,
        NameEntry::FunctionNames(range) => names_refused(wasm, range, 2, stop),
        NameEntry::LocalNames(range) => indirect_refused(wasm, range, stop),
        NameEntry::LabelNames(range) => indirect_refused(wasm, range, stop),
        NameEntry::TypeNames(range) => names_refused(wasm, range, 0, stop),
        NameEntry::TableNames(range) => names_refused(wasm, range, 0, stop),
        NameEntry::MemoryNames(range) => names_refused(wasm, range, 0, stop),
        NameEntry::GlobalNames(range) => names_refused(wasm, range, 0, stop),
        NameEntry::ElementNames(range) => names_refused(wasm, range, 0, stop),
        NameEntry::DataNames(range) => names_refused(wasm, range, 0, stop),
    }
}

proof fn lemma_flat_names(wasm: Seq<u8>, kind: NameKind, range: Range<usize>)
    ensures
        match flat_names(wasm, kind, range) {
            Ok(item) => item matches Some(SubsectionView::Names(same, names)) && {
                &&& same == kind
                &&& kind == NameKind::Function ==> host_named_last(names) && names_taken(
                    wasm,
                    range,
                    2,
                    names.take(names.len() - 2),
                    Ok(()),
                )
                &&& kind != NameKind::Function ==> names_taken(wasm, range, 0, names, Ok(()))
            },
            Err(stop) => names_refused(
                wasm,
                range,
                if kind == NameKind::Function {
                    2
                } else {
                    0
                },
                stop,
            ),
        },
{
    if kind == NameKind::Function {
        lemma_names_taken(wasm, range, true, 2);
        if let Ok(given) = name_map_at(wasm, range, true) {
            let names = flat_names(wasm, kind, range)->Ok_0->0->Names_1;
            assert(names.take(names.len() - 2) =~= given);
        }
    } else {
        lemma_names_taken(wasm, range, false, 0);
    }
}

proof fn lemma_same_names(wasm: Seq<u8>, entry: NameEntry<'static>)
    ensures
        match subsection_entry(wasm, Ok(entry)) {
            Ok(item) => same_names_if_known(wasm, entry, item),
            Err(stop) => subsection_refused(wasm, entry, stop),
        },
{
    match entry {
        NameEntry::ModuleName(_) => {},
        NameEntry::UnknownNames => {},
        NameEntry::LocalNames(range) => lemma_indirect_taken(wasm, range),
        NameEntry::LabelNames(range) => lemma_indirect_taken(wasm, range),
        NameEntry::FunctionNames(range) => lemma_flat_names(wasm, NameKind::Function, range),
        NameEntry::TypeNames(range) => lemma_flat_names(wasm, NameKind::Type, range),
        NameEntry::TableNames(range) => lemma_flat_names(wasm, NameKind::Table, range),
        NameEntry::MemoryNames(range) => lemma_flat_names(wasm, NameKind::Memory, range),
        NameEntry::GlobalNames(range) => lemma_flat_names(wasm, NameKind::Global, range),
        NameEntry::ElementNames(range) => lemma_flat_names(wasm, NameKind::Element, range),
        NameEntry::DataNames(range) => lemma_flat_names(wasm, NameKind::Data, range),
    }
}

/// Those of `items` that are there, in order.
pub open spec fn those_there<T>(items: Seq<Option<T>>) -> Seq<T> {
    items.filter(|item: Option<T>| item is Some).map_values(|item: Option<T>| item->0)
}

proof fn lemma_present<T>(items: Seq<Option<T>>)
    ensures
        present(items) == those_there(items),
    decreases items.len(),
{
    reveal(Seq::filter);
    if items.len() > 0 {
        lemma_present(items.drop_last());
    }
    assert(present(items) =~= those_there(items));
}

/// A name section adds one part for each of its entries, in order, but for those that are not
/// understood. Each names the same things as its entry by the same names.
pub proof fn law_names_are_kept(
    context: ContextView,
    name: &'static str,
    data_offset: usize,
    range: Range<usize>,
)
    requires
        name@ == "name"@,
    ensures
        ({
            let (after, r) = context.with_payload(Payload::Custom(name, data_offset, range));
            let data = context.wasm.subrange(data_offset as int, range.end as int);
            let added = behind(after.name_section, context.name_section.len());
            if data_offset <= range.end <= context.wasm.len() {
                &&& after == (ContextView {
                    name_section: context.name_section + added,
                    raw_sections: next_anew(context.raw_sections, 255, r),
                    ..context
                })
                &&& exists|items: Seq<Option<SubsectionView>>|
                    added == #[trigger] those_there(items) && taken(
                        wasm_names(data, data_offset),
                        items,
                        r,
                        |entry: NameEntry<'static>, item: Option<SubsectionView>|
                            same_names_if_known(context.wasm, entry, item),
                        |entry: NameEntry<'static>, why: Stop|
                            subsection_refused(context.wasm, entry, why),
                        |error: BinaryReaderError| Error::ParseName(error),
                    )
            } else {
                after == context && r == Err::<(), Stop>(Stop::OutOfRange)
            }
        }),
{
    let wasm = context.wasm;
    if data_offset <= range.end <= wasm.len() {
        let (after, r) = context.with_payload(Payload::Custom(name, data_offset, range));
        let data = wasm.subrange(data_offset as int, range.end as int);
        let entries = wasm_names(data, data_offset);
        let f = |entry| subsection_entry(wasm, entry);
        let items = traverse(entries, f).0;
        assert forall|entry: NameEntry<'static>|
            match #[trigger] f(Ok(entry)) {
                Ok(item) => same_names_if_known(wasm, entry, item),
                Err(stop) => subsection_refused(wasm, entry, stop),
            } by {
            lemma_same_names(wasm, entry);
        }
        lemma_taken(
            entries,
            f,
            |entry: NameEntry<'static>, item: Option<SubsectionView>|
                same_names_if_known(context.wasm, entry, item),
            |entry: NameEntry<'static>, why: Stop| subsection_refused(context.wasm, entry, why),
            |error: BinaryReaderError| Error::ParseName(error),
        );
        lemma_present(items);
        let added = behind(after.name_section, context.name_section.len());
        assert(added =~= those_there(items));
        assert(after.raw_sections =~= next_anew(context.raw_sections, 255, r));
    }
}

} // verus!
