//! The decisions that code generation takes from validation: the size of
//! each stack slot, where each field goes, and how many bytes each copy
//! moves. Code generation replays them onto its instruction builder.
use vstd::prelude::*;

use crate::frontend::parse::ast::{Expression, Node, expr_type, field_views, ExpressionV};
use crate::frontend::validate::check::ContextV;
use crate::frontend::validate::context::Context;
use crate::frontend::validate::types::{Type, TypeV, ir_type};
use super::IrType;

verus! {

/// The size of a stack slot for a value of type `t`, when validation laid
/// the type out and its size fits a slot.
pub open spec fn slot_size_of(c: ContextV, t: TypeV) -> Option<u32> {
    if c.types.contains_key(t) && c.types[t].size <= u32::MAX {
        Some(c.types[t].size as u32)
    } else {
        None
    }
}

/// Where field `field` starts in a value of the laid-out struct `t`.
pub open spec fn field_offset_of(c: ContextV, t: TypeV, field: Seq<char>) -> Option<i64> {
    match t {
        TypeV::User(name) => if c.structs.contains_key(name) && c.structs[name].fields.contains_key(field) {
            Some(c.structs[name].fields[field].offset as i64)
        } else {
            None
        },
        _ => None,
    }
}

/// For each field given to a constructor of `t`, in order: where it goes and
/// how many bytes of its value are copied there.
pub open spec fn field_copies_of(c: ContextV, t: TypeV, fields: Seq<(Seq<char>, Node<ExpressionV>)>, n: nat) -> Option<Seq<(i64, u32)>>
    decreases n,
{
    if n == 0 || n > fields.len() {
        Some(Seq::empty())
    } else {
        match field_copies_of(c, t, fields, (n - 1) as nat) {
            None => None,
            Some(done) => match (field_offset_of(c, t, fields[n - 1].0), slot_size_of(c, expr_type(fields[n - 1].1.item))) {
                (Some(offset), Some(size)) => Some(done.push((offset, size))),
                _ => None,
            },
        }
    }
}

/// The stack slot size of a value of type `ty`.
pub fn slot_size(context: &Context, ty: &Type) -> (r: Option<u32>)
    requires
        context.well_formed(),
    ensures
        r == slot_size_of(context@, ty@),
{
    match context.type_size(ty) {
        Some(size) => if size > 4294967295usize {
            None
        } else {
            Some(size as u32)
        },
        None => None,
    }
}

/// Where field `field` starts in a value of the laid-out struct `ty`.
pub fn field_offset(context: &Context, ty: &Type, field: &String) -> (r: Option<i64>)
    requires
        context.well_formed(),
    ensures
        r == field_offset_of(context@, ty@, field@),
{
    match ty {
        Type::User(_) => {
            if context.get_field_type(ty, field).is_err() {
                return None;
            }
            match context.get_field_offset(ty, field) {
                Ok(offset) => Some(offset as i64),
                Err(_) => None,
            }
        },
        _ => None,
    }
}

/// For each field given to a constructor of `ty`, in order: where it goes
/// and how many bytes of its value are copied there.
pub fn field_copies(context: &Context, ty: &Type, fields: &Vec<(String, Node<Expression>)>) -> (r: Option<Vec<(i64, u32)>>)
    requires
        context.well_formed(),
    ensures
        match r {
            Some(v) => field_copies_of(context@, ty@, field_views(fields@), fields@.len()) == Some(v@),
            None => field_copies_of(context@, ty@, field_views(fields@), fields@.len()) is None,
        },
{
    let ghost fs = field_views(fields@);
    let mut copies: Vec<(i64, u32)> = Vec::new();
    let mut i: usize = 0;
    while i < fields.len()
        invariant
            context.well_formed(),
            i <= fields@.len(),
            fs == field_views(fields@),
            field_copies_of(context@, ty@, fs, i as nat) == Some(copies@),
        decreases fields@.len() - i,
    {
        let offset = field_offset(context, ty, &fields[i].0);
        let size = slot_size(context, fields[i].1.item.get_type());
        assert(fs[i as int].0 == fields@[i as int].0@);
        match (offset, size) {
            (Some(o), Some(s)) => copies.push((o, s)),
            _ => {
                proof {
                    lemma_copies_stay_none(context@, ty@, fs, (i + 1) as nat, fields@.len());
                }
                return None;
            },
        }
        i += 1;
    }
    Some(copies)
}

/// The machine type of a literal of type `ty` and the size of the slot that
/// holds it.
pub fn literal_plan(context: &Context, ty: &Type, pointer: IrType) -> (r: Option<(IrType, u32)>)
    requires
        context.well_formed(),
    ensures
        r == match slot_size_of(context@, ty@) {
            Some(size) => Some((ir_type(ty@, pointer), size)),
            None => None::<(IrType, u32)>,
        },
{
    match slot_size(context, ty) {
        Some(size) => Some((ty.ir_type(pointer), size)),
        None => None,
    }
}

proof fn lemma_copies_stay_none(c: ContextV, t: TypeV, fields: Seq<(Seq<char>, Node<ExpressionV>)>, n: nat, m: nat)
    requires
        0 < n <= m <= fields.len(),
        field_copies_of(c, t, fields, n) is None,
    ensures
        field_copies_of(c, t, fields, m) is None,
    decreases m - n,
{
    if m > n {
        lemma_copies_stay_none(c, t, fields, n, (m - 1) as nat);
    }
}

} // verus!
