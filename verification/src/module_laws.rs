//! What becomes of a module as a whole, from its first piece to its last byte.
use std::ops::Range;
use vstd::prelude::*;
use wasm_encoder::Module;
use wasmparser::BinaryReaderError;

use crate::analysis::AnalysisView;
use crate::context::{fresh, ContextView};
use crate::encode::{
    code_section_holds, element_section_holds, export_section_holds, expr_holds,
    function_section_holds, global_section_holds, import_section_holds, module_holds,
    name_section_holds, section_written, type_section_holds, wasm_module, written, Encoded, Items,
    Place,
};
use crate::error::{Error, Stop};
use crate::laws::law_nothing_is_taken_back;
use crate::model::{
    Payload, RawSectionView, SectionView, SegmentItemsView, SegmentModeView,
};
use crate::read::{has_large_number, is_large_number, wasm_exports, wasm_payloads};
use crate::section_laws::{behind, law_exports_are_kept, same_export};

verus! {

/// The instrumentation begins with what was given to it, and with nothing written.
pub proof fn law_nothing_is_written_at_first(
    wasm: Seq<u8>,
    import_env: Seq<char>,
    analysis: AnalysisView,
)
    ensures
        ({
            let context = fresh(wasm, import_env, analysis);
            &&& context.wasm == wasm
            &&& context.import_env == import_env
            &&& context.analysis == analysis
            &&& context.function_section.len() == 0
            &&& context.type_section.len() == 0
            &&& context.import_section.len() == 0
            &&& context.code_section.len() == 0
            &&& context.element_section.len() == 0
            &&& context.export_section.len() == 0
            &&& context.name_section.len() == 0
            &&& context.global_section.len() == 0
            &&& context.start_section == 0
            &&& context.raw_sections.len() == 0
            &&& context.types.len() == 0
            &&& context.function_types.len() == 0
        }),
{
}

/// The pieces of a module are taken one by one, in order: what becomes of each depends on those in
/// front of it alone. A piece that cannot be taken is the last one, and so is one that cannot be
/// read.
pub proof fn law_pieces_are_taken_in_order(
    context: ContextView,
    payloads: Seq<Result<Payload<'static>, BinaryReaderError>>,
    count: int,
)
    requires
        0 <= count < payloads.len(),
    ensures
        context.with_payloads(payloads.take(0)) == (context, Ok::<(), Stop>(())),
        ({
            let (before, r) = context.with_payloads(payloads.take(count));
            let after = context.with_payloads(payloads.take(count + 1));
            match r {
                Ok(()) => match payloads[count] {
                    Ok(payload) => after == before.with_payload(payload),
                    Err(error) => after == (
                        before,
                        Err::<(), Stop>(Stop::Failed(Error::ParseModuleSection(error))),
                    ),
                },
                Err(_) => after == (before, r),
            }
        }),
{
    assert(payloads.take(count + 1).drop_last() =~= payloads.take(count));
}

proof fn lemma_walk_goes_on(
    context: ContextView,
    payloads: Seq<Result<Payload<'static>, BinaryReaderError>>,
    count: int,
)
    requires
        0 <= count <= payloads.len(),
        context.with_payloads(payloads.take(count)).1 is Ok,
    ensures
        context.with_payloads(payloads) == context.with_payloads(
            payloads.take(count),
        ).0.with_payloads(payloads.skip(count)),
    decreases payloads.len(),
{
    if count < payloads.len() {
        assert(payloads.drop_last().take(count) =~= payloads.take(count));
        assert(payloads.drop_last().skip(count) =~= payloads.skip(count).drop_last());
        assert(payloads.skip(count).last() == payloads.last());
        lemma_walk_goes_on(context, payloads.drop_last(), count);
    } else {
        assert(payloads.take(count) =~= payloads);
        assert(payloads.skip(count) =~= Seq::empty());
    }
}

/// What a piece of a module has added is still there at the end of the module, in the same place.
pub proof fn law_what_is_taken_stays(
    context: ContextView,
    payloads: Seq<Result<Payload<'static>, BinaryReaderError>>,
    count: int,
)
    requires
        0 <= count < payloads.len(),
        context.with_payloads(payloads).1 is Ok,
    ensures
        context.with_payloads(payloads.take(count)).1 is Ok,
        payloads[count] is Ok,
        ({
            let before = context.with_payloads(payloads.take(count)).0;
            let (after, r) = before.with_payload(payloads[count]->Ok_0);
            r is Ok && after.kept_in(context.with_payloads(payloads).0)
        }),
{
    if context.with_payloads(payloads.take(count)).1 is Err {
        context.lemma_payloads_stop(payloads, count);
    }
    law_pieces_are_taken_in_order(context, payloads, count);
    if context.with_payloads(payloads.take(count + 1)).1 is Err {
        context.lemma_payloads_stop(payloads, count + 1);
    }
    let after = context.with_payloads(payloads.take(count + 1)).0;
    lemma_walk_goes_on(context, payloads, count + 1);
    law_nothing_is_taken_back(after, payloads.skip(count + 1));
}

/// The exports of an export section are in the export section that is written: behind those that
/// were there before, one for each entry, in order.
pub proof fn law_exports_are_written(
    context: ContextView,
    payloads: Seq<Result<Payload<'static>, BinaryReaderError>>,
    count: int,
    range: Range<usize>,
)
    requires
        0 <= count < payloads.len(),
        payloads[count] == Ok::<_, BinaryReaderError>(Payload::Exports(range)),
        context.with_payloads(payloads).1 is Ok,
    ensures
        ({
            let before = context.with_payloads(payloads.take(count)).0;
            let done = context.with_payloads(payloads).0;
            let data = context.wasm.subrange(range.start as int, range.end as int);
            let entries = wasm_exports(data, range.start);
            let first = before.export_section.len() as int;
            &&& exists|i: int|
                0 <= i < done.sections().len() && #[trigger] done.sections()[i]
                    == SectionView::Exports(done.export_section)
            &&& first + entries.len() <= done.export_section.len()
            &&& forall|i: int|
                0 <= i < entries.len() ==> (#[trigger] entries[i]) is Ok && same_export(
                    entries[i]->Ok_0,
                    done.export_section[first + i],
                )
        }),
{
    let before = context.with_payloads(payloads.take(count)).0;
    let done = context.with_payloads(payloads).0;
    let data = context.wasm.subrange(range.start as int, range.end as int);
    let entries = wasm_exports(data, range.start);
    let first = before.export_section.len() as int;
    law_what_is_taken_stays(context, payloads, count);
    law_nothing_is_taken_back(context, payloads.take(count));
    assert(range.start <= range.end <= before.wasm.len());
    law_exports_are_kept(before, range);
    let after = before.with_payload(Payload::Exports(range)).0;
    let added = behind(after.export_section, before.export_section.len());
    assert forall|i: int| 0 <= i < entries.len() implies (#[trigger] entries[i]) is Ok
        && same_export(entries[i]->Ok_0, done.export_section[first + i]) by {
        assert(same_export(entries[i]->Ok_0, added[i]));
        assert(done.export_section[first + i] == after.export_section[first + i]);
    }
    let place = before.raw_sections.len() as int;
    assert(after.raw_sections[place].id == 7);
    assert(done.raw_sections[place] == after.raw_sections[place]);
    law_sections_hold_what_was_taken(done);
    assert(stands_for(done, done.raw_sections[place], done.sections()[place + 2]));
}

/// That `section` is written where `raw` stands in the list of sections: for some identifiers it is
/// the section that is written anew, and otherwise a copy.
pub open spec fn stands_for(
    context: ContextView,
    raw: RawSectionView,
    section: SectionView,
) -> bool {
    if raw.id == 3 {
        section == SectionView::Functions(context.function_section)
    } else if raw.id == 6 {
        section == SectionView::Globals(context.global_section)
    } else if raw.id == 7 {
        section == SectionView::Exports(context.export_section)
    } else if raw.id == 8 {
        section == SectionView::Start(context.start_section)
    } else if raw.id == 9 {
        section == SectionView::Elements(context.element_section)
    } else if raw.id == 10 {
        section == SectionView::Code(context.code_section)
    } else if raw.id == 255 {
        section == SectionView::Names(context.name_section)
    } else {
        section == SectionView::Raw(raw)
    }
}

/// The sections of a module are its types, its imports, and then what each entry of the list of
/// sections stands for, in order. All that has been taken is written there.
pub proof fn law_sections_hold_what_was_taken(context: ContextView)
    ensures
        context.sections().len() == context.raw_sections.len() + 2,
        context.sections()[0] == SectionView::Types(context.type_section),
        context.sections()[1] == SectionView::Imports(context.import_section),
        forall|i: int|
            0 <= i < context.raw_sections.len() ==> stands_for(
                context,
                #[trigger] context.raw_sections[i],
                context.sections()[i + 2],
            ),
{
}

/// The number of 32 bits that five bytes at `i` are, if each of the first four tells that another
/// byte follows.
pub open spec fn number_at(bytes: Seq<u8>, i: int) -> int {
    (bytes[i] - 0x80) + (bytes[i + 1] - 0x80) * 0x80 + (bytes[i + 2] - 0x80) * 0x4000 + (bytes[i
        + 3] - 0x80) * 0x20_0000 + bytes[i + 4] * 0x1000_0000
}

/// A large number is one whose topmost bit of 32 is set; it takes five bytes.
pub proof fn law_large_numbers_have_their_topmost_bit(bytes: Seq<u8>, i: int)
    requires
        0 <= i,
        i + 5 <= bytes.len(),
    ensures
        is_large_number(bytes, i) <==> {
            &&& forall|k: int| 0 <= k < 4 ==> #[trigger] bytes[i + k] >= 0x80
            &&& 0x8000_0000 <= number_at(bytes, i) <= 0xffff_ffff
        },
        is_large_number(bytes, i) ==> has_large_number(bytes),
{
    assert(bytes[i] == bytes[i + 0]);
    if forall|k: int| 0 <= k < 4 ==> #[trigger] bytes[i + k] >= 0x80 {
        assert(bytes[i + 0] >= 0x80 && bytes[i + 1] >= 0x80 && bytes[i + 2] >= 0x80 && bytes[i + 3]
            >= 0x80);
    }
}

/// The instrumented module has the sections that the pieces of the given module have become. There
/// is one if every piece can be taken and the size of every section can be written in 32 bits, and
/// if the machine has room for the positions that are read; the last is so unless the module holds
/// a large number and has less room behind it than such a number can tell.
pub proof fn law_module_is_written(context: ContextView)
    ensures
        ({
            let wasm = context.wasm;
            let (after, r) = context.with_payloads(wasm_payloads(wasm));
            let sections = after.sections();
            let has_no_room = wasm.len() + 0xffff_ffff > usize::MAX && exists|i: int|
                0 <= i && i + 5 <= wasm.len() && #[trigger] is_large_number(wasm, i);
            if has_no_room {
                context.outcome() == Err::<Seq<u8>, Stop>(Stop::OutOfRange)
            } else if r is Err {
                context.outcome() == Err::<Seq<u8>, Stop>(r->Err_0)
            } else if exists|i: int|
                0 <= i < sections.len() && (#[trigger] sections[i]).size() > 0xffff_ffff {
                context.outcome() == Err::<Seq<u8>, Stop>(Stop::OutOfRange)
            } else {
                context.outcome() == Ok::<Seq<u8>, Stop>(wasm_module(sections))
            }
        }),
{
    let sections = context.with_payloads(wasm_payloads(context.wasm)).0.sections();
    law_sections_are_written_in_order(sections);
}

/// A list of sections can be written if the size of each of them can be written in 32 bits.
pub proof fn law_sections_are_written_in_order(sections: Seq<SectionView>)
    ensures
        if exists|i: int|
            0 <= i < sections.len() && (#[trigger] sections[i]).size() > 0xffff_ffff {
            written(sections) == Err::<Seq<u8>, Stop>(Stop::OutOfRange)
        } else {
            written(sections) == Ok::<Seq<u8>, Stop>(wasm_module(sections))
        },
{
    if forall|i: int| 0 <= i < sections.len() ==> (#[trigger] sections[i]).fits() {
        assert forall|i: int| 0 <= i < sections.len() implies (#[trigger] sections[i]).size()
            <= 0xffff_ffff by {
            assert(sections[i].fits());
        }
    }
}

/// A section is written behind those that were written before it, unless its size is too large to
/// be written in 32 bits; then nothing is written.
pub proof fn law_section_is_written_or_refused(
    before: Module,
    section: SectionView,
    after: Module,
    r: Result<(), Stop>,
    sections: Seq<SectionView>,
)
    requires
        section_written(before, section, after, r),
        module_holds(before, sections),
    ensures
        section.size() <= 0xffff_ffff ==> r is Ok && module_holds(after, sections.push(section)),
        section.size() > 0xffff_ffff ==> r == Err::<(), Stop>(Stop::OutOfRange) && after == before,
{
}

/// What is handed over to be written is the place of an element segment, and its elements.
pub proof fn law_segment_is_handed_over(
    place: Place<'_>,
    mode: SegmentModeView,
    items: Items<'_>,
    elements: SegmentItemsView,
)
    requires
        place.holds(mode),
        items.holds(elements),
    ensures
        match mode {
            SegmentModeView::Passive => place is Passive,
            SegmentModeView::Declared => place is Declared,
            SegmentModeView::Active(table, value) => {
                place matches Place::Active(index, offset) && index == table && expr_holds(
                    *offset,
                    value,
                )
            },
        },
        match elements {
            SegmentItemsView::Functions(indices) => {
                items matches Items::Functions(all) && all@ == indices && items.count()
                    == indices.len()
            },
            SegmentItemsView::Expressions(values) => {
                items matches Items::Expressions(all) && all@.len() == values.len()
                    && items.count() == values.len() && forall|i: int|
                    0 <= i < values.len() ==> #[trigger] expr_holds(all@[i], values[i])
            },
        },
{
}

/// What is handed over to be written is the section that it was built for.
pub proof fn law_section_is_handed_over(encoded: Encoded<'_>, section: SectionView)
    requires
        encoded.holds(section),
    ensures
        match section {
            SectionView::Types(types) => {
                encoded matches Encoded::Types(built) && type_section_holds(*built, types)
            },
            SectionView::Imports(imports) => {
                encoded matches Encoded::Imports(built) && import_section_holds(*built, imports)
            },
            SectionView::Functions(types) => {
                encoded matches Encoded::Functions(built) && function_section_holds(*built, types)
            },
            SectionView::Globals(globals) => {
                encoded matches Encoded::Globals(built) && global_section_holds(*built, globals)
            },
            SectionView::Exports(exports) => {
                encoded matches Encoded::Exports(built) && export_section_holds(*built, exports)
            },
            SectionView::Start(index) => encoded == Encoded::Start(index),
            SectionView::Elements(segments) => {
                encoded matches Encoded::Elements(built) && element_section_holds(*built, segments)
            },
            SectionView::Code(bodies) => {
                encoded matches Encoded::Code(built) && code_section_holds(*built, bodies)
            },
            SectionView::Names(names) => {
                encoded matches Encoded::Names(built) && name_section_holds(*built, names)
            },
            SectionView::Raw(raw) => {
                encoded matches Encoded::Raw(id, data) && id == raw.id && data@ == raw.data
            },
        },
{
}

} // verus!
