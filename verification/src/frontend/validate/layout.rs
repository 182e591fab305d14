//! What the struct layout promises: fields are placed as `#[repr(C)]`
//! places them, so that values can be shared with Rust.
use vstd::prelude::*;

use crate::frontend::parse::ast::{Node, StructFieldV as ParsedFieldV, StructV};
use super::TypeTableEntry;
use super::StructFieldV;
use super::check::{ContextV, ValidateErrorV, padding, registered, struct_alignment, struct_layout};
use super::types::TypeV;

verus! {

/// Where the field before field `i` ends (0 for the first field).
pub open spec fn end_before(
    types: Map<TypeV, TypeTableEntry>,
    fields: Seq<Node<ParsedFieldV>>,
    placed: Seq<(Seq<char>, StructFieldV)>,
    i: int,
) -> int {
    if i == 0 {
        0
    } else {
        placed[i - 1].1.offset + types[fields[i - 1].item.ty].size
    }
}

/// `placed` and `end` are the `#[repr(C)]` layout of `fields`: each field,
/// in declaration order, keeps its name, type and visibility and stands at
/// the first offset at or after the end of the one before that is a
/// multiple of its type's alignment; the layout ends where the last field
/// ends.
pub open spec fn repr_c_layout(
    types: Map<TypeV, TypeTableEntry>,
    fields: Seq<Node<ParsedFieldV>>,
    placed: Seq<(Seq<char>, StructFieldV)>,
    end: int,
) -> bool {
    &&& placed.len() == fields.len()
    &&& forall|i: int|
        0 <= i < placed.len() ==> {
            let a = types[fields[i].item.ty].alignment as int;
            &&& (#[trigger] placed[i]).0 == fields[i].item.name
            &&& placed[i].1.ty == fields[i].item.ty
            &&& placed[i].1.is_public == fields[i].item.is_public
            &&& a > 0
            &&& 0 <= end_before(types, fields, placed, i) <= placed[i].1.offset
            &&& placed[i].1.offset == end_before(types, fields, placed, i) + padding(
                end_before(types, fields, placed, i),
                a,
            )
            &&& placed[i].1.offset - end_before(types, fields, placed, i) < a
            &&& (placed[i].1.offset as int) % a == 0
        }
    &&& end == end_before(types, fields, placed, placed.len() as int)
    &&& end >= 0
}

/// Padding is less than the alignment and reaches a multiple of it.
pub proof fn lemma_padding(offset: int, alignment: int)
    requires
        0 <= offset,
        0 < alignment,
    ensures
        0 <= padding(offset, alignment) < alignment,
        (offset + padding(offset, alignment)) % alignment == 0,
{
    let q = offset / alignment;
    let r = offset % alignment;
    vstd::arithmetic::div_mod::lemma_fundamental_div_mod(offset, alignment);
    if r > 0 {
        let p = alignment - r;
        assert(offset + p == (q + 1) * alignment) by (nonlinear_arith)
            requires
                offset == alignment * q + r,
                p == alignment - r,
        ;
        vstd::arithmetic::div_mod::lemma_mod_multiples_basic(q + 1, alignment);
    } else {
        assert(offset == q * alignment) by (nonlinear_arith)
            requires
                offset == alignment * q + r,
                r == 0,
        ;
        vstd::arithmetic::div_mod::lemma_mod_multiples_basic(q, alignment);
    }
}

/// Fields are laid out as `#[repr(C)]` lays them out: in declaration order,
/// each at the first offset after the field before it that is a multiple of
/// its alignment, with the layout ending where the last field ends.
pub proof fn law_layout_is_repr_c(
    types: Map<TypeV, TypeTableEntry>,
    fields: Seq<Node<ParsedFieldV>>,
    n: nat,
)
    requires
        n <= fields.len(),
        struct_layout(types, fields, n) is Ok,
    ensures
        repr_c_layout(
            types,
            fields.take(n as int),
            struct_layout(types, fields, n)->Ok_0.0,
            struct_layout(types, fields, n)->Ok_0.1,
        ),
    decreases n,
{
    let fs = fields.take(n as int);
    let placed = struct_layout(types, fields, n)->Ok_0.0;
    if n > 0 {
        law_layout_is_repr_c(types, fields, (n - 1) as nat);
        let prev = fields.take(n - 1);
        let done = struct_layout(types, fields, (n - 1) as nat)->Ok_0;
        let f = fields[n - 1].item;
        let a = types[f.ty].alignment as int;
        assert(done.1 == end_before(types, prev, done.0, n - 1));
        lemma_padding(done.1, a);
        assert forall|i: int| 0 <= i < n - 1 implies #[trigger] placed[i] == done.0[i]
            && fs[i] == prev[i] && end_before(types, fs, placed, i) == end_before(types, prev, done.0, i) by {}
        assert(end_before(types, fs, placed, n - 1) == done.1);
    }
}

/// The alignment of a struct is at least that of each of its fields.
pub proof fn lemma_alignment_bounds_fields(
    types: Map<TypeV, TypeTableEntry>,
    fields: Seq<Node<ParsedFieldV>>,
    n: nat,
)
    requires
        n <= fields.len(),
        struct_alignment(types, fields, n) is Ok,
    ensures
        forall|i: int|
            0 <= i < n ==> types[#[trigger] fields[i].item.ty].alignment <= struct_alignment(
                types,
                fields,
                n,
            )->Ok_0,
    decreases n,
{
    if n > 0 {
        lemma_alignment_bounds_fields(types, fields, (n - 1) as nat);
    }
}

/// The alignment of a struct with fields is that of one of its fields.
pub proof fn lemma_alignment_of_some_field(
    types: Map<TypeV, TypeTableEntry>,
    fields: Seq<Node<ParsedFieldV>>,
    n: nat,
)
    requires
        0 < n <= fields.len(),
        struct_alignment(types, fields, n) is Ok,
    ensures
        exists|i: int|
            0 <= i < n && types[#[trigger] fields[i].item.ty].alignment == struct_alignment(
                types,
                fields,
                n,
            )->Ok_0,
    decreases n,
{
    let a = struct_alignment(types, fields, n)->Ok_0;
    if n > 1 {
        lemma_alignment_of_some_field(types, fields, (n - 1) as nat);
        let b = struct_alignment(types, fields, (n - 1) as nat)->Ok_0;
        if a == b {
            let i = choose|i: int| 0 <= i < n - 1 && types[#[trigger] fields[i].item.ty].alignment == b;
            assert(types[fields[i].item.ty].alignment == a);
        } else {
            assert(types[fields[n - 1].item.ty].alignment == a);
        }
    } else {
        assert(types[fields[0].item.ty].alignment == a);
    }
}

/// A registered struct is laid out as `#[repr(C)]` lays it out: its fields
/// as `law_layout_is_repr_c` says, its alignment the largest of theirs (1
/// without fields), and its size the end of its last field rounded up to a
/// multiple of its alignment (0 without fields).
pub proof fn law_struct_is_repr_c(c: ContextV, s: StructV)
    requires
        registered(c, s).1 is Ok,
    ensures
        ({
            let fields = s.fields.item;
            let entry = registered(c, s).0.types[TypeV::User(s.name)];
            let layout = struct_layout(c.types, fields, fields.len())->Ok_0;
            &&& struct_layout(c.types, fields, fields.len()) is Ok
            &&& repr_c_layout(c.types, fields, layout.0, layout.1)
            &&& entry.alignment > 0
            &&& forall|i: int|
                0 <= i < fields.len() ==> c.types[#[trigger] fields[i].item.ty].alignment
                    <= entry.alignment
            &&& fields.len() > 0 ==> exists|i: int|
                0 <= i < fields.len() && c.types[#[trigger] fields[i].item.ty].alignment
                    == entry.alignment
            &&& fields.len() == 0 ==> entry.alignment == 1 && entry.size == 0
            &&& (entry.size as int) % (entry.alignment as int) == 0
            &&& layout.1 <= entry.size < layout.1 + entry.alignment
        }),
{
    let fields = s.fields.item;
    let n = fields.len();
    lemma_alignment_bounds_fields(c.types, fields, n);
    law_layout_is_repr_c(c.types, fields, n);
    assert(fields.take(n as int) == fields);
    let layout = struct_layout(c.types, fields, n)->Ok_0;
    let largest = struct_alignment(c.types, fields, n)->Ok_0;
    let a = if n == 0 { 1usize } else { largest };
    if n > 0 {
        lemma_alignment_of_some_field(c.types, fields, n);
    }
    lemma_padding(layout.1, a as int);
}

/// A field type that a struct can be laid out with: known to the table, with
/// a nonzero alignment, and neither a reference nor a tuple.
pub open spec fn layable(types: Map<TypeV, TypeTableEntry>, t: TypeV) -> bool {
    &&& !(t is Reference)
    &&& !(t is Tuple)
    &&& types.contains_key(t)
    &&& types[t].alignment > 0
}

/// The most room that laying out the first `n` fields can take: the size of
/// each and the most padding before it (less than its alignment).
pub open spec fn layout_room(types: Map<TypeV, TypeTableEntry>, fields: Seq<Node<ParsedFieldV>>, n: nat) -> int
    decreases n,
{
    if n == 0 || n > fields.len() {
        0
    } else {
        layout_room(types, fields, (n - 1) as nat) + types[fields[n - 1].item.ty].size
            + types[fields[n - 1].item.ty].alignment
    }
}

proof fn lemma_alignment_ok(types: Map<TypeV, TypeTableEntry>, fields: Seq<Node<ParsedFieldV>>, n: nat)
    requires
        n <= fields.len(),
        forall|i: int| 0 <= i < n ==> layable(types, #[trigger] fields[i].item.ty),
    ensures
        struct_alignment(types, fields, n) is Ok,
    decreases n,
{
    if n > 0 {
        lemma_alignment_ok(types, fields, (n - 1) as nat);
        assert(layable(types, fields[n - 1].item.ty));
    }
}

proof fn lemma_layout_within_room(types: Map<TypeV, TypeTableEntry>, fields: Seq<Node<ParsedFieldV>>, n: nat)
    requires
        n <= fields.len(),
        forall|i: int| 0 <= i < n ==> layable(types, #[trigger] fields[i].item.ty),
        layout_room(types, fields, n) <= i32::MAX,
    ensures
        struct_layout(types, fields, n) is Ok,
        0 <= struct_layout(types, fields, n)->Ok_0.1 <= layout_room(types, fields, n),
    decreases n,
{
    if n > 0 {
        assert(layable(types, fields[n - 1].item.ty));
        lemma_layout_within_room(types, fields, (n - 1) as nat);
        let done = struct_layout(types, fields, (n - 1) as nat)->Ok_0;
        let a = types[fields[n - 1].item.ty].alignment as int;
        lemma_padding(done.1, a);
    }
}

/// A struct registers when no type of its name is known yet, each field's
/// type can be laid out, and the layout fits in `i32` offsets: the room its
/// fields can take, and the padding after them, stay within `i32::MAX`.
pub proof fn law_struct_registers(c: ContextV, s: StructV)
    requires
        !c.types.contains_key(TypeV::User(s.name)),
        forall|i: int| 0 <= i < s.fields.item.len() ==> layable(c.types, #[trigger] s.fields.item[i].item.ty),
        layout_room(c.types, s.fields.item, s.fields.item.len()) + struct_alignment(
            c.types,
            s.fields.item,
            s.fields.item.len(),
        )->Ok_0 <= i32::MAX,
    ensures
        registered(c, s).1 == Ok::<(), ValidateErrorV>(()),
{
    let fields = s.fields.item;
    let n = fields.len();
    lemma_alignment_ok(c.types, fields, n);
    lemma_alignment_bounds_fields(c.types, fields, n);
    lemma_layout_within_room(c.types, fields, n);
    let done = struct_layout(c.types, fields, n)->Ok_0;
    let largest = struct_alignment(c.types, fields, n)->Ok_0;
    let a = if n == 0 { 1usize } else { largest };
    if n > 0 {
        assert(c.types[fields[0].item.ty].alignment <= largest);
        assert(layable(c.types, fields[0].item.ty));
    }
    lemma_padding(done.1, a as int);
}

} // verus!
