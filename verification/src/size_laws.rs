//! How the sizes of the parts of a module are made up.
use vstd::arithmetic::power::{lemma_pow0, lemma_pow1, lemma_pow_adds, pow};
use vstd::prelude::*;
use vstd::utf8::{encode_utf8, is_ascii_chars, is_ascii_chars_encode_utf8};

use crate::model::{
    BlockType, BodyView, CodeItemView, EntityType, ExportView, FuncTypeView, GlobalView,
    ImportView, IndirectNamingView, InitExprView, Instr, NamingView, SectionView, SegmentItemsView,
    SegmentModeView, SegmentView, SubsectionView, ValueType,
};
use crate::size::{
    entity_size, framed, instr_size, leb_size, list_size, name_map_size,
    signed_size, str_size, total,
};

verus! {

/// An unsigned number takes as many bytes as are needed for all of its bits, seven to a byte.
pub proof fn law_number_takes_seven_bits_a_byte(n: nat)
    ensures
        leb_size(n) >= 1,
        n < pow(128, leb_size(n)),
        leb_size(n) > 1 ==> n >= pow(128, (leb_size(n) - 1) as nat),
    decreases n,
{
    lemma_pow0(128);
    lemma_pow1(128);
    if n >= 128 {
        law_number_takes_seven_bits_a_byte(n / 128);
        let rest = leb_size(n / 128);
        lemma_pow_adds(128, 1, rest);
        lemma_pow_adds(128, 1, (rest - 1) as nat);
        let limit = pow(128, rest);
        assert(n < 128 * limit) by (nonlinear_arith)
            requires
                n / 128 < limit,
        ;
        if rest > 1 {
            let least = pow(128, (rest - 1) as nat);
            assert(n >= 128 * least) by (nonlinear_arith)
                requires
                    n / 128 >= least,
            ;
        }
    }
}

/// A signed number takes as many bytes as are needed for all of its bits and its sign, seven to a
/// byte.
pub proof fn law_signed_number_takes_seven_bits_a_byte(n: int)
    ensures
        signed_size(n) >= 1,
        ({
            let limit = 64 * pow(128, (signed_size(n) - 1) as nat);
            -limit <= n < limit
        }),
        signed_size(n) > 1 ==> ({
            let limit = 64 * pow(128, (signed_size(n) - 2) as nat);
            !(-limit <= n < limit)
        }),
{
    let magnitude = if n >= 0 {
        n
    } else {
        -1 - n
    };
    let size = signed_size(n);
    law_number_takes_seven_bits_a_byte((2 * magnitude) as nat);
    lemma_pow1(128);
    lemma_pow_adds(128, 1, (size - 1) as nat);
    if size > 1 {
        lemma_pow_adds(128, 1, (size - 2) as nat);
    }
}

/// The size of a list is that of its length and of its items, however it is divided. What is
/// preceded by its size takes the room of both.
pub proof fn law_sizes_add_up<T>(left: Seq<T>, right: Seq<T>, item: T, size: spec_fn(T) -> nat)
    ensures
        total(Seq::<T>::empty(), size) == 0,
        total(seq![item], size) == size(item),
        total(left + right, size) == total(left, size) + total(right, size),
        list_size(left, size) == leb_size(left.len()) + total(left, size),
        framed(left.len()) == leb_size(left.len()) + left.len(),
    decreases right.len(),
{
    assert(seq![item].drop_last() =~= Seq::empty());
    reveal_with_fuel(total, 2);
    if right.len() > 0 {
        law_sizes_add_up(left, right.drop_last(), item, size);
        assert((left + right).drop_last() =~= left + right.drop_last());
        assert((left + right).last() == right.last());
    } else {
        assert(left + right =~= left);
    }
}

/// A string takes the bytes of its encoding and their number. A function type takes a byte, and a
/// list of single bytes for its parameters and one for its results.
pub proof fn law_size_of_strings_and_types(s: Seq<char>, ty: FuncTypeView)
    ensures
        str_size(s) == leb_size(encode_utf8(s).len()) + encode_utf8(s).len(),
        ty.size() == 1 + leb_size(ty.params.len()) + ty.params.len() + leb_size(ty.results.len())
            + ty.results.len(),
{
}

/// An import takes its two names, a byte for its kind, and what tells its type: the index of a
/// type, behind a byte if it is that of a tag; two bytes for a global; and for a memory or a table
/// its limits behind a byte, or two.
pub proof fn law_size_of_imports(import: ImportView)
    ensures
        import.size() == str_size(import.module) + str_size(import.name) + 1 + entity_size(
            import.ty,
        ),
        match import.ty {
            EntityType::Function(index) => entity_size(import.ty) == leb_size(index as nat),
            EntityType::Tag(index) => entity_size(import.ty) == leb_size(index as nat) + 1,
            EntityType::Global(_) => entity_size(import.ty) == 2,
            EntityType::Memory(ty) => {
                &&& ty.maximum is None ==> entity_size(import.ty) == 1 + leb_size(ty.minimum as nat)
                &&& ty.maximum matches Some(maximum) ==> entity_size(import.ty) == 1 + leb_size(
                    ty.minimum as nat,
                ) + leb_size(maximum as nat)
            },
            EntityType::Table(ty) => {
                &&& ty.maximum is None ==> entity_size(import.ty) == 2 + leb_size(ty.minimum as nat)
                &&& ty.maximum matches Some(maximum) ==> entity_size(import.ty) == 2 + leb_size(
                    ty.minimum as nat,
                ) + leb_size(maximum as nat)
            },
        },
{
}

/// An export takes its name, a byte for its kind, and its index. A global takes two bytes for its
/// type, and its initial value. A constant expression takes its bytes and a byte more for its end.
pub proof fn law_size_of_exports_and_globals(
    export: ExportView,
    global: GlobalView,
    expr: InitExprView,
)
    ensures
        export.size() == str_size(export.name) + 1 + leb_size(export.index as nat),
        global.size() == 2 + global.init.size(),
        expr matches InitExprView::RefFunc(index) ==> expr.size() == leb_size(index as nat) + 2,
        expr matches InitExprView::Raw(bytes) ==> expr.size() == bytes.len() + 1,
{
}

/// An element segment takes a byte for its kind, one for the type of its elements, the table and
/// the offset if it is active, and a list of its elements.
pub proof fn law_size_of_segments(segment: SegmentView)
    ensures
        ({
            let place = match segment.mode {
                SegmentModeView::Active(table, offset) => leb_size(table as nat) + offset.size(),
                _ => 0,
            };
            let items = match segment.items {
                SegmentItemsView::Functions(indices) => leb_size(indices.len()) + total(
                    indices,
                    |index: u32| leb_size(index as nat),
                ),
                SegmentItemsView::Expressions(exprs) => leb_size(exprs.len()) + total(
                    exprs,
                    |expr: InitExprView| expr.size(),
                ),
            };
            segment.size() == 2 + place + items
        }),
{
}

/// A name takes the index of what it names and a string. A part of the name section takes a byte
/// for its kind, its size, and a string or a list of names.
pub proof fn law_size_of_names(
    naming: NamingView,
    inner: IndirectNamingView,
    subsection: SubsectionView,
)
    ensures
        naming.size() == leb_size(naming.index as nat) + str_size(naming.name),
        inner.size() == leb_size(inner.index as nat) + name_map_size(inner.names),
        name_map_size(inner.names) == leb_size(inner.names.len()) + total(
            inner.names,
            |naming: NamingView| naming.size(),
        ),
        ({
            let content = match subsection {
                SubsectionView::Module(name) => str_size(name),
                SubsectionView::Names(_, names) => name_map_size(names),
                SubsectionView::Indirect(_, names) => leb_size(names.len()) + total(
                    names,
                    |naming: IndirectNamingView| naming.size(),
                ),
            };
            subsection.size() == 1 + leb_size(content) + content
        }),
{
}

/// An instruction takes a byte and what it is applied to: an index, a number, or a block type,
/// which takes a byte unless it is the index of a type, which is written as a signed number. A
/// function body takes a list of its locals, each the number of its kind and a byte, and its code.
pub proof fn law_size_of_code(instr: Instr, item: CodeItemView, body: BodyView)
    ensures
        match instr {
            Instr::Call(index) => instr_size(instr) == 1 + leb_size(index as nat),
            Instr::ReturnCall(index) => instr_size(instr) == 1 + leb_size(index as nat),
            Instr::RefFunc(index) => instr_size(instr) == 1 + leb_size(index as nat),
            Instr::I64Const(value) => instr_size(instr) == 1 + signed_size(value as int),
            Instr::Block(BlockType::FunctionType(index)) => instr_size(instr) == 1 + signed_size(
                index as int,
            ),
            Instr::Block(_) => instr_size(instr) == 2,
            _ => instr_size(instr) == 1,
        },
        item matches CodeItemView::Instr(instr) ==> item.size() == instr_size(instr),
        item matches CodeItemView::Raw(bytes) ==> item.size() == bytes.len(),
        body.size() == leb_size(body.locals.len()) + total(
            body.locals,
            |local: (u32, ValueType)| leb_size(local.0 as nat) + 1,
        ) + total(body.code, |item: CodeItemView| item.size()),
{
}

/// A section takes a list of its entries; each function body has its size in front of it. A start
/// section takes an index, a copied section its bytes, and a name section the parts that it has
/// behind its own name.
pub proof fn law_size_of_sections(section: SectionView)
    ensures
        match section {
            SectionView::Types(types) => section.size() == leb_size(types.len()) + total(
                types,
                |ty: FuncTypeView| ty.size(),
            ),
            SectionView::Imports(imports) => section.size() == leb_size(imports.len()) + total(
                imports,
                |import: ImportView| import.size(),
            ),
            SectionView::Functions(types) => section.size() == leb_size(types.len()) + total(
                types,
                |index: u32| leb_size(index as nat),
            ),
            SectionView::Globals(globals) => section.size() == leb_size(globals.len()) + total(
                globals,
                |global: GlobalView| global.size(),
            ),
            SectionView::Exports(exports) => section.size() == leb_size(exports.len()) + total(
                exports,
                |export: ExportView| export.size(),
            ),
            SectionView::Start(index) => section.size() == leb_size(index as nat),
            SectionView::Elements(segments) => section.size() == leb_size(segments.len()) + total(
                segments,
                |segment: SegmentView| segment.size(),
            ),
            SectionView::Code(bodies) => section.size() == leb_size(bodies.len()) + total(
                bodies,
                |body: BodyView| framed(body.size()),
            ),
            SectionView::Names(subsections) => section.size() == str_size("name"@) + total(
                subsections,
                |subsection: SubsectionView| subsection.size(),
            ),
            SectionView::Raw(raw) => section.size() == raw.data.len(),
        },
        forall|size: nat| #[trigger] framed(size) == leb_size(size) + size,
{
    if let SectionView::Names(_) = section {
        reveal_strlit("name");
        assert(is_ascii_chars("name"@));
        is_ascii_chars_encode_utf8("name"@);
        assert(encode_utf8("name"@).len() == 4);
    }
}

} // verus!
