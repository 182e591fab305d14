//! What code generation decides, apart from the machine code itself.
use vstd::prelude::*;

use crate::assoc::AssocMap;
pub mod plan;

use crate::text::copy_str;
use crate::frontend::validate::types::{Type, TypeV};

verus! {

/// Machine-level value types.
#[derive(Debug, Clone, Copy, PartialEq, Eq, Structural)]
pub enum IrType {
    I8,
    I16,
    I32,
    I64,
    I128,
    F32,
    F64,
    B1,
    B8,
    /// No machine type (unit and aggregate values).
    Invalid,
}

/// Machine types of the built-in types, by name. An integer type's machine
/// type does not say whether it is signed.
pub open spec fn builtin_machine_types() -> Map<Seq<char>, IrType> {
    Map::empty()
        .insert("i8"@, IrType::I8)
        .insert("i32"@, IrType::I32)
        .insert("i64"@, IrType::I64)
        .insert("i128"@, IrType::I128)
        .insert("u8"@, IrType::I8)
        .insert("u32"@, IrType::I32)
        .insert("u64"@, IrType::I64)
        .insert("u128"@, IrType::I128)
        .insert("f"@ + "32"@, IrType::F32)
        .insert("f"@ + "64"@, IrType::F64)
        .insert("bool"@, IrType::B1)
        .insert("()"@, IrType::Invalid)
}

/// The machine types of named types.
pub struct TypeMap {
    type_map: AssocMap<String, IrType>,
}

impl View for TypeMap {
    type V = Map<Seq<char>, IrType>;

    closed spec fn view(&self) -> Map<Seq<char>, IrType> {
        self.type_map@
    }
}

fn joined(a: &str, b: &str) -> (r: String)
    ensures
        r@ == a@ + b@,
{
    let mut r = copy_str(a);
    r.append(b);
    r
}

impl TypeMap {
    pub closed spec fn well_formed(&self) -> bool {
        self.type_map.well_formed()
    }

    pub fn new() -> (r: Self)
        ensures
            r.well_formed(),
            r@ == builtin_machine_types(),
    {
        let mut type_map: AssocMap<String, IrType> = AssocMap::new();
        type_map.insert(copy_str("i8"), IrType::I8);
        type_map.insert(copy_str("i32"), IrType::I32);
        type_map.insert(copy_str("i64"), IrType::I64);
        type_map.insert(copy_str("i128"), IrType::I128);
        type_map.insert(copy_str("u8"), IrType::I8);
        type_map.insert(copy_str("u32"), IrType::I32);
        type_map.insert(copy_str("u64"), IrType::I64);
        type_map.insert(copy_str("u128"), IrType::I128);
        type_map.insert(joined("f", "32"), IrType::F32);
        type_map.insert(joined("f", "64"), IrType::F64);
        type_map.insert(copy_str("bool"), IrType::B1);
        type_map.insert(copy_str("()"), IrType::Invalid);
        TypeMap { type_map }
    }

    /// The machine type of the type named `t`.
    pub fn get(&self, t: &str) -> (r: Result<IrType, String>)
        requires
            self.well_formed(),
        ensures
            match r {
                Ok(x) => self@.contains_key(t@) && x == self@[t@],
                Err(e) => !self@.contains_key(t@) && e@ == "Type not defined: `"@ + t@ + "`"@,
            },
    {
        let key = copy_str(t);
        match self.type_map.get(&key) {
            Some(x) => Ok(*x),
            None => {
                let mut e = copy_str("Type not defined: `");
                e.append(t);
                e.append("`");
                Err(e)
            },
        }
    }
}

/// Maps variables to the numbers of the machine variables that hold their
/// addresses, and knows the stack slot of the value a function returns.
pub struct MemoryMap {
    /// Map of (variable name -> machine variable number)
    variables: AssocMap<String, usize>,
    index: usize,
    /// The number of the stack slot that a returned value must be stored in.
    struct_return_slot: Option<usize>,
}

pub struct MemoryMapV {
    pub variables: Map<Seq<char>, usize>,
    /// The number the next variable gets.
    pub next: usize,
    pub struct_return_slot: Option<usize>,
}

impl View for MemoryMap {
    type V = MemoryMapV;

    closed spec fn view(&self) -> MemoryMapV {
        MemoryMapV { variables: self.variables@, next: self.index, struct_return_slot: self.struct_return_slot }
    }
}

impl MemoryMap {
    pub closed spec fn well_formed(&self) -> bool {
        self.variables.well_formed()
    }

    /// An empty map: no variables, the first to be numbered 0.
    pub fn new() -> (r: Self)
        ensures
            r.well_formed(),
            r@ == (MemoryMapV { variables: Map::empty(), next: 0, struct_return_slot: None }),
    {
        MemoryMap { variables: AssocMap::new(), index: 0, struct_return_slot: None }
    }

    pub fn register_struct_return_slot(&mut self, slot: usize)
        ensures
            final(self)@ == (MemoryMapV { struct_return_slot: Some(slot), ..old(self)@ }),
            final(self).well_formed() == old(self).well_formed(),
    {
        self.struct_return_slot = Some(slot);
    }

    /// The slot of the returned value; one must have been registered.
    pub fn get_struct_return_slot(&self) -> (r: usize)
        requires
            self@.struct_return_slot is Some,
        ensures
            self@.struct_return_slot == Some(r),
    {
        match self.struct_return_slot {
            Some(slot) => slot,
            None => 0,
        }
    }

    /// Gives `name` the next variable number (a later variable of the same
    /// name replaces the earlier one) and hands the number back.
    pub fn create_variable(&mut self, name: &str) -> (r: usize)
        requires
            old(self).well_formed(),
            old(self)@.next < usize::MAX,
        ensures
            final(self).well_formed(),
            r == old(self)@.next,
            final(self)@ == (MemoryMapV {
                variables: old(self)@.variables.insert(name@, r),
                next: (r + 1) as usize,
                ..old(self)@
            }),
    {
        let variable = self.index;
        self.index += 1;
        self.variables.insert(copy_str(name), variable);
        variable
    }

    /// How many variables were created.
    pub fn variable_count(&self) -> (r: usize)
        ensures
            r == self@.next,
    {
        self.index
    }

    pub fn has_struct_return_slot(&self) -> (r: bool)
        ensures
            r == (self@.struct_return_slot is Some),
    {
        self.struct_return_slot.is_some()
    }

    pub fn contains_variable(&self, name: &str) -> (r: bool)
        requires
            self.well_formed(),
        ensures
            r == self@.variables.contains_key(name@),
    {
        let key = copy_str(name);
        self.variables.contains_key(&key)
    }

    /// The number of variable `name`, which must have been created.
    pub fn get_variable(&self, name: &str) -> (r: usize)
        requires
            self.well_formed(),
            self@.variables.contains_key(name@),
        ensures
            r == self@.variables[name@],
    {
        let key = copy_str(name);
        match self.variables.get(&key) {
            Some(v) => *v,
            None => 0,
        }
    }
}

/// How a function is called at machine level: every parameter is passed as
/// the address of its value, a function that returns a value hands back the
/// address of the slot it stored it in, and an `extern` function is linked
/// in from outside.
pub struct CallShape {
    pub pointer_params: usize,
    pub struct_return: bool,
    pub imported: bool,
}

/// The call shape of a function with `parameters` parameters that returns
/// `return_type`.
pub fn call_shape(parameters: usize, return_type: &Type, is_extern: bool) -> (r: CallShape)
    ensures
        r.pointer_params == parameters,
        r.struct_return == (return_type@ != TypeV::Unit),
        r.imported == is_extern,
{
    CallShape { pointer_params: parameters, struct_return: !return_type.is_unit(), imported: is_extern }
}

} // verus!
