//! Transforming the name section.
//!
//! Function indices in it leave room for the two functions of the host, and those functions get
//! names of their own. Everything else is kept; subsections that are not understood are left out.
use std::ops::Range;
use vstd::prelude::*;
use wasmparser::BinaryReaderError;

use crate::code::{shift, shifted, GAS_INSTRUMENTATION_FN, STACK_INSTRUMENTATION_FN};
use crate::error::{Error, Stop};
use crate::model::{
    bytes_at, lemma_views_push, result_view, slice_at, views, IndirectKind, IndirectNaming,
    IndirectNamingView, NameEntry, NameKind, Naming, NamingView, Subsection, SubsectionView,
};
use crate::read::{read_indirect_names, read_name_map, wasm_indirect_names, wasm_name_map};
use crate::traverse::{all_handled, handle_in, lemma_traverse_step, traverse};

verus! {

/// What an entry of a name map becomes.
pub open spec fn name_entry(
    is_function: bool,
    entry: Result<Naming<'static>, BinaryReaderError>,
) -> Result<NamingView, Stop> {
    match entry {
        Ok(naming) => if is_function {
            match shifted(naming.index) {
                Ok(index) => Ok(NamingView { index, ..naming@ }),
                Err(stop) => Err(stop),
            }
        } else {
            Ok(naming@)
        },
        Err(error) => Err(Stop::Failed(Error::ParseNameMapName(error))),
    }
}

/// What a name map becomes, if all of its entries can be transformed.
pub open spec fn name_entries(
    is_function: bool,
    entries: Seq<Result<Naming<'static>, BinaryReaderError>>,
) -> Result<Seq<NamingView>, Stop> {
    all_handled(traverse(entries, |entry| name_entry(is_function, entry)))
}

/// What the name map at `range` of the module becomes.
pub open spec fn name_map_at(wasm: Seq<u8>, range: Range<usize>, is_function: bool) -> Result<
    Seq<NamingView>,
    Stop,
> {
    match bytes_at(wasm, range) {
        Some(data) => name_entries(is_function, wasm_name_map(data, range.start)),
        None => Err(Stop::OutOfRange),
    }
}

fn transform_name<'a>(
    is_function: bool,
    entry: Result<Naming<'a>, BinaryReaderError>,
) -> (r: Result<Naming<'a>, Stop>)
    ensures
        result_view(r) == name_entry(is_function, entry),
{
    match entry {
        Ok(naming) => {
            let index: u32 = if is_function {
                shift(naming.index)?
            } else {
                naming.index
            };
            Ok(Naming { index, name: naming.name })
        },
        Err(error) => Err(Stop::Failed(Error::ParseNameMapName(error))),
    }
}

/// Takes the entries of a name map; `is_function` tells that it names functions.
pub fn transform_names<'a>(
    is_function: bool,
    entries: Vec<Result<Naming<'a>, BinaryReaderError>>,
) -> (r: Result<Vec<Naming<'a>>, Stop>)
    ensures
        match r {
            Ok(done) => name_entries(is_function, entries@) == Ok::<Seq<NamingView>, Stop>(
                views(done@),
            ),
            Err(stop) => name_entries(is_function, entries@) == Err::<Seq<NamingView>, Stop>(stop),
        },
{
    let (done, r) = handle_in(
        is_function,
        entries,
        transform_name,
        Ghost(|entry| name_entry(is_function, entry)),
    );
    match r {
        Ok(()) => Ok(done),
        Err(stop) => Err(stop),
    }
}

/// Transforms the name map at `range` of the module; `is_function` tells that it names functions.
pub fn namemap<'a>(wasm: &'a [u8], range: Range<usize>, is_function: bool) -> (r: Result<
    Vec<Naming<'a>>,
    Stop,
>)
    ensures
        match r {
            Ok(names) => name_map_at(wasm@, range, is_function) == Ok::<Seq<NamingView>, Stop>(
                views(names@),
            ),
            Err(stop) => name_map_at(wasm@, range, is_function) == Err::<Seq<NamingView>, Stop>(
                stop,
            ),
        },
{
    match slice_at(wasm, &range) {
        Some(data) => transform_names(is_function, read_name_map(data, range.start)),
        None => Err(Stop::OutOfRange),
    }
}

/// What an entry of an indirect name map becomes: its index is that of a function, and the names
/// are those of something within that function.
pub open spec fn indirect_entry(
    wasm: Seq<u8>,
    entry: Result<(u32, Range<usize>), BinaryReaderError>,
) -> Result<IndirectNamingView, Stop> {
    match entry {
        Ok((index, range)) => match shifted(index) {
            Ok(index) => match name_map_at(wasm, range, false) {
                Ok(names) => Ok(IndirectNamingView { index, names }),
                Err(stop) => Err(stop),
            },
            Err(stop) => Err(stop),
        },
        Err(error) => Err(Stop::Failed(Error::ParseIndirectNameMapName(error))),
    }
}

/// What an indirect name map becomes, if all of its entries can be transformed.
pub open spec fn indirect_entries(
    wasm: Seq<u8>,
    entries: Seq<Result<(u32, Range<usize>), BinaryReaderError>>,
) -> Result<Seq<IndirectNamingView>, Stop> {
    all_handled(traverse(entries, |entry| indirect_entry(wasm, entry)))
}

/// What the indirect name map at `range` of the module becomes.
pub open spec fn indirect_map_at(wasm: Seq<u8>, range: Range<usize>) -> Result<
    Seq<IndirectNamingView>,
    Stop,
> {
    match bytes_at(wasm, range) {
        Some(data) => indirect_entries(wasm, wasm_indirect_names(data, range.start)),
        None => Err(Stop::OutOfRange),
    }
}

fn transform_indirect_name<'a>(
    wasm: &'a [u8],
    entry: Result<(u32, Range<usize>), BinaryReaderError>,
) -> (r: Result<IndirectNaming<'a>, Stop>)
    ensures
        result_view(r) == indirect_entry(wasm@, entry),
{
    match entry {
        Ok((index, range)) => {
            let index: u32 = shift(index)?;
            Ok(IndirectNaming { index, names: namemap(wasm, range, false)? })
        },
        Err(error) => Err(Stop::Failed(Error::ParseIndirectNameMapName(error))),
    }
}

/// Takes the entries of an indirect name map of the module.
pub fn transform_indirect_names<'a>(
    wasm: &'a [u8],
    entries: Vec<Result<(u32, Range<usize>), BinaryReaderError>>,
) -> (r: Result<Vec<IndirectNaming<'a>>, Stop>)
    ensures
        match r {
            Ok(done) => indirect_entries(wasm@, entries@) == Ok::<Seq<IndirectNamingView>, Stop>(
                views(done@),
            ),
            Err(stop) => indirect_entries(wasm@, entries@) == Err::<Seq<IndirectNamingView>, Stop>(
                stop,
            ),
        },
{
    let (done, r) = handle_in(
        wasm,
        entries,
        transform_indirect_name,
        Ghost(|entry| indirect_entry(wasm@, entry)),
    );
    match r {
        Ok(()) => Ok(done),
        Err(stop) => Err(stop),
    }
}

/// Transforms the indirect name map at `range` of the module.
pub fn indirectnamemap<'a>(wasm: &'a [u8], range: Range<usize>) -> (r: Result<
    Vec<IndirectNaming<'a>>,
    Stop,
>)
    ensures
        match r {
            Ok(names) => indirect_map_at(wasm@, range) == Ok::<Seq<IndirectNamingView>, Stop>(
                views(names@),
            ),
            Err(stop) => indirect_map_at(wasm@, range) == Err::<Seq<IndirectNamingView>, Stop>(
                stop,
            ),
        },
{
    match slice_at(wasm, &range) {
        Some(data) => transform_indirect_names(wasm, read_indirect_names(data, range.start)),
        None => Err(Stop::OutOfRange),
    }
}

/// The names of the functions of the host.
pub open spec fn host_names() -> Seq<NamingView> {
    seq![
        NamingView { index: GAS_INSTRUMENTATION_FN, name: "finite_wasm_gas"@ },
        NamingView { index: STACK_INSTRUMENTATION_FN, name: "finite_wasm_stack"@ },
    ]
}

/// What a flat name map becomes: `kind` tells what it names.
pub open spec fn flat_names(wasm: Seq<u8>, kind: NameKind, range: Range<usize>) -> Result<
    Option<SubsectionView>,
    Stop,
> {
    match name_map_at(wasm, range, kind == NameKind::Function) {
        Ok(names) => if kind == NameKind::Function {
            Ok(Some(SubsectionView::Names(kind, names + host_names())))
        } else {
            Ok(Some(SubsectionView::Names(kind, names)))
        },
        Err(stop) => Err(stop),
    }
}

/// What an indirect name map becomes: `kind` tells what it names.
pub open spec fn indirect_names(wasm: Seq<u8>, kind: IndirectKind, range: Range<usize>) -> Result<
    Option<SubsectionView>,
    Stop,
> {
    match indirect_map_at(wasm, range) {
        Ok(names) => Ok(Some(SubsectionView::Indirect(kind, names))),
        Err(stop) => Err(stop),
    }
}

/// What an entry of the name section becomes.
pub open spec fn subsection_entry(
    wasm: Seq<u8>,
    entry: Result<NameEntry<'static>, BinaryReaderError>,
) -> Result<Option<SubsectionView>, Stop> {
    match entry {
        Ok(NameEntry::ModuleName(name)) => Ok(Some(SubsectionView::Module(name@))),
        Ok(NameEntry::FunctionNames(range)) => flat_names(wasm, NameKind::Function, range),
        Ok(NameEntry::LocalNames(range)) => indirect_names(wasm, IndirectKind::Local, range),
        Ok(NameEntry::LabelNames(range)) => indirect_names(wasm, IndirectKind::Label, range),
        Ok(NameEntry::TypeNames(range)) => flat_names(wasm, NameKind::Type, range),
        Ok(NameEntry::TableNames(range)) => flat_names(wasm, NameKind::Table, range),
        Ok(NameEntry::MemoryNames(range)) => flat_names(wasm, NameKind::Memory, range),
        Ok(NameEntry::GlobalNames(range)) => flat_names(wasm, NameKind::Global, range),
        Ok(NameEntry::ElementNames(range)) => flat_names(wasm, NameKind::Element, range),
        Ok(NameEntry::DataNames(range)) => flat_names(wasm, NameKind::Data, range),
        Ok(NameEntry::UnknownNames) => Ok(None),
        Err(error) => Err(Stop::Failed(Error::ParseName(error))),
    }
}

/// The items that are there, in order.
pub open spec fn present<T>(items: Seq<Option<T>>) -> Seq<T>
    decreases items.len(),
{
    if items.len() == 0 {
        Seq::empty()
    } else {
        match items.last() {
            Some(item) => present(items.drop_last()).push(item),
            None => present(items.drop_last()),
        }
    }
}

/// What the entries of the name section become.
pub open spec fn subsection_entries(
    wasm: Seq<u8>,
    entries: Seq<Result<NameEntry<'static>, BinaryReaderError>>,
) -> (Seq<SubsectionView>, Result<(), Stop>) {
    let (done, r) = traverse(entries, |entry| subsection_entry(wasm, entry));
    (present(done), r)
}

/// The view of a subsection, if there is one, or the reason to stop.
pub open spec fn subsection_view(r: Result<Option<Subsection<'static>>, Stop>) -> Result<
    Option<SubsectionView>,
    Stop,
> {
    match r {
        Ok(Some(subsection)) => Ok(Some(subsection@)),
        Ok(None) => Ok(None),
        Err(stop) => Err(stop),
    }
}

fn transform_flat_names<'a>(wasm: &'a [u8], kind: NameKind, range: Range<usize>) -> (r: Result<
    Option<Subsection<'a>>,
    Stop,
>)
    ensures
        subsection_view(r) == flat_names(wasm@, kind, range),
{
    broadcast use lemma_views_push;

    let is_function = match kind {
        NameKind::Function => true,
        _ => false,
    };
    let mut names: Vec<Naming<'a>> = namemap(wasm, range, is_function)?;
    let ghost read = views(names@);
    if is_function {
        names.push(Naming { index: GAS_INSTRUMENTATION_FN, name: "finite_wasm_gas" });
        names.push(Naming { index: STACK_INSTRUMENTATION_FN, name: "finite_wasm_stack" });
        assert(views(names@) =~= read + host_names());
    }
    Ok(Some(Subsection::Names(kind, names)))
}

fn transform_subsection<'a>(
    wasm: &'a [u8],
    entry: Result<NameEntry<'a>, BinaryReaderError>,
) -> (r: Result<Option<Subsection<'a>>, Stop>)
    ensures
        subsection_view(r) == subsection_entry(wasm@, entry),
{
    match entry {
        Ok(NameEntry::ModuleName(name)) => Ok(Some(Subsection::Module(name))),
        Ok(NameEntry::FunctionNames(range)) => transform_flat_names(
            wasm,
            NameKind::Function,
            range,
        ),
        Ok(NameEntry::LocalNames(range)) => Ok(
            Some(Subsection::Indirect(IndirectKind::Local, indirectnamemap(wasm, range)?)),
        ),
        Ok(NameEntry::LabelNames(range)) => Ok(
            Some(Subsection::Indirect(IndirectKind::Label, indirectnamemap(wasm, range)?)),
        ),
        Ok(NameEntry::TypeNames(range)) => transform_flat_names(wasm, NameKind::Type, range),
        Ok(NameEntry::TableNames(range)) => transform_flat_names(wasm, NameKind::Table, range),
        Ok(NameEntry::MemoryNames(range)) => transform_flat_names(wasm, NameKind::Memory, range),
        Ok(NameEntry::GlobalNames(range)) => transform_flat_names(wasm, NameKind::Global, range),
        Ok(NameEntry::ElementNames(range)) => transform_flat_names(wasm, NameKind::Element, range),
        Ok(NameEntry::DataNames(range)) => transform_flat_names(wasm, NameKind::Data, range),
        Ok(NameEntry::UnknownNames) => Ok(None),
        Err(error) => Err(Stop::Failed(Error::ParseName(error))),
    }
}

/// Takes the entries of the name section of the module.
pub fn transform_subsections<'a>(
    wasm: &'a [u8],
    entries: Vec<Result<NameEntry<'a>, BinaryReaderError>>,
) -> (r: (Vec<Subsection<'a>>, Result<(), Stop>))
    ensures
        (views(r.0@), r.1) == subsection_entries(wasm@, entries@),
{
    broadcast use lemma_views_push;

    let ghost step = |entry| subsection_entry(wasm@, entry);
    let mut kept: Vec<Subsection<'a>> = Vec::new();
    assert(views(kept@) =~= Seq::empty());
    assert(entries@.take(0) =~= Seq::empty());
    for entry in it: entries
        invariant
            it.seq() == entries@,
            step == (|entry| subsection_entry(wasm@, entry)),
            traverse(entries@.take(it.index() as int), step).1 is Ok,
            views(kept@) == present(traverse(entries@.take(it.index() as int), step).0),
    {
        proof {
            lemma_traverse_step(entries@, step, it.index() as int);
            let done = traverse(entries@.take(it.index() as int), step).0;
            if let Ok(subsection) = step(entries@[it.index() as int]) {
                assert(done.push(subsection).drop_last() =~= done);
            }
        }
        match transform_subsection(wasm, entry) {
            Ok(Some(subsection)) => kept.push(subsection),
            Ok(None) => {},
            Err(stop) => return (kept, Err(stop)),
        }
    }
    assert(entries@.take(entries@.len() as int) =~= entries@);
    (kept, Ok(()))
}

} // verus!
