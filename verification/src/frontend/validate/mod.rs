//! Tables that validation fills: type layouts, variable allocations, scopes
//! and function signatures.
pub mod types;
pub mod check;
pub mod context;
pub mod layout;

use vstd::prelude::*;

use crate::assoc::AssocMap;
use crate::backend::IrType;
use crate::text::copy_str;
use crate::frontend::parse::ast;
use types::{Type, TypeV, type_display};

verus! {

/// A field of a laid-out struct.
pub struct StructField {
    pub ty: Type,
    /// Byte offset of the field in the struct.
    pub offset: i32,
    pub is_public: bool,
}

pub struct StructFieldV {
    pub ty: TypeV,
    pub offset: i32,
    pub is_public: bool,
}

impl View for StructField {
    type V = StructFieldV;

    open spec fn view(&self) -> StructFieldV {
        StructFieldV { ty: self.ty@, offset: self.offset, is_public: self.is_public }
    }
}

/// A struct definition: its fields by name.
pub struct StructDefinition {
    pub fields: AssocMap<String, StructField>,
}

/// A struct definition's value: its fields by name, and the order in which
/// they were first declared.
#[verifier::ext_equal]
pub struct StructDefinitionV {
    pub fields: Map<Seq<char>, StructFieldV>,
    pub order: Seq<Seq<char>>,
}

impl View for StructDefinition {
    type V = StructDefinitionV;

    open spec fn view(&self) -> StructDefinitionV {
        StructDefinitionV {
            fields: self.fields@.map_values(|f: StructField| f@),
            order: crate::assoc::keys_of(self.fields.entry_seq()),
        }
    }
}

/// Size and alignment of a type, in bytes.
#[derive(Debug, Clone, Copy, PartialEq, Eq, Structural)]
pub struct TypeTableEntry {
    pub size: usize,
    pub alignment: usize,
}

impl TypeTableEntry {
    pub fn new(size: usize, alignment: usize) -> (r: Self)
        ensures
            r == (TypeTableEntry { size, alignment }),
    {
        TypeTableEntry { size, alignment }
    }
}

/// Sizes and alignments of the known types.
pub struct TypeTable {
    data: AssocMap<Type, TypeTableEntry>,
}

/// The built-in types with their sizes and alignments (64-bit targets).
pub open spec fn builtin_type_table() -> Map<TypeV, TypeTableEntry> {
    Map::empty()
        .insert(TypeV::u8, TypeTableEntry { size: 1, alignment: 1 })
        .insert(TypeV::u16, TypeTableEntry { size: 2, alignment: 2 })
        .insert(TypeV::u32, TypeTableEntry { size: 4, alignment: 4 })
        .insert(TypeV::u64, TypeTableEntry { size: 8, alignment: 8 })
        .insert(TypeV::u128, TypeTableEntry { size: 16, alignment: 8 })
        .insert(TypeV::i8, TypeTableEntry { size: 1, alignment: 1 })
        .insert(TypeV::i16, TypeTableEntry { size: 2, alignment: 2 })
        .insert(TypeV::i32, TypeTableEntry { size: 4, alignment: 4 })
        .insert(TypeV::i64, TypeTableEntry { size: 8, alignment: 8 })
        .insert(TypeV::i128, TypeTableEntry { size: 16, alignment: 8 })
        .insert(TypeV::F32, TypeTableEntry { size: 4, alignment: 4 })
        .insert(TypeV::F64, TypeTableEntry { size: 8, alignment: 8 })
        .insert(TypeV::bool, TypeTableEntry { size: 1, alignment: 1 })
        .insert(TypeV::Unit, TypeTableEntry { size: 0, alignment: 1 })
}

/// How many bytes a value of a machine type takes.
pub open spec fn machine_bytes(t: IrType) -> nat {
    match t {
        IrType::I8 => 1,
        IrType::I16 => 2,
        IrType::I32 => 4,
        IrType::I64 => 8,
        IrType::I128 => 16,
        IrType::F32 => 4,
        IrType::F64 => 8,
        IrType::B1 => 1,
        IrType::B8 => 1,
        IrType::Invalid => 0,
    }
}

/// The machine type of each built-in type is as wide as the type: a value
/// of it fills exactly the bytes that the type table gives the type.
pub proof fn law_machine_type_width(t: TypeV, pointer: IrType)
    requires
        builtin_type_table().contains_key(t),
    ensures
        machine_bytes(types::ir_type(t, pointer)) == builtin_type_table()[t].size,
{
}

/// The first type inside `t` (looking through references and into tuples)
/// that the table does not know.
pub open spec fn first_invalid(table: Map<TypeV, TypeTableEntry>, t: TypeV) -> Option<TypeV>
    decreases t,
{
    match t {
        TypeV::Reference { ty, .. } => first_invalid(table, *ty),
        TypeV::Tuple(ts) => first_invalid_in(table, ts),
        _ => if table.contains_key(t) { None } else { Some(t) },
    }
}

pub open spec fn first_invalid_in(table: Map<TypeV, TypeTableEntry>, ts: Seq<TypeV>) -> Option<TypeV>
    decreases ts,
{
    if ts.len() == 0 {
        None
    } else {
        match first_invalid_in(table, ts.drop_last()) {
            Some(t) => Some(t),
            None => first_invalid(table, ts.last()),
        }
    }
}

pub open spec fn invalid_type_message(t: TypeV) -> Seq<char> {
    "Type `"@ + type_display(t) + "` is not valid"@
}

pub open spec fn type_exists_message(t: TypeV) -> Seq<char> {
    "Type "@ + type_display(t) + " already exists"@
}

impl View for TypeTable {
    type V = Map<TypeV, TypeTableEntry>;

    closed spec fn view(&self) -> Map<TypeV, TypeTableEntry> {
        self.data@
    }
}

impl TypeTable {
    pub closed spec fn well_formed(&self) -> bool {
        self.data.well_formed()
    }

    pub fn new() -> (r: Self)
        ensures
            r.well_formed(),
            r@ == builtin_type_table(),
    {
        let mut data: AssocMap<Type, TypeTableEntry> = AssocMap::new();
        data.insert(Type::u8, TypeTableEntry::new(1, 1));
        data.insert(Type::u16, TypeTableEntry::new(2, 2));
        data.insert(Type::u32, TypeTableEntry::new(4, 4));
        data.insert(Type::u64, TypeTableEntry::new(8, 8));
        data.insert(Type::u128, TypeTableEntry::new(16, 8));
        data.insert(Type::i8, TypeTableEntry::new(1, 1));
        data.insert(Type::i16, TypeTableEntry::new(2, 2));
        data.insert(Type::i32, TypeTableEntry::new(4, 4));
        data.insert(Type::i64, TypeTableEntry::new(8, 8));
        data.insert(Type::i128, TypeTableEntry::new(16, 8));
        data.insert(Type::F32, TypeTableEntry::new(4, 4));
        data.insert(Type::F64, TypeTableEntry::new(8, 8));
        data.insert(Type::bool, TypeTableEntry::new(1, 1));
        data.insert(Type::Unit, TypeTableEntry::new(0, 1));
        TypeTable { data }
    }

    /// Adds the layout of `t`. It is an error if `t` was known; the new
    /// layout replaces the old one all the same.
    pub fn insert(&mut self, t: &Type, entry: TypeTableEntry) -> (r: Result<(), String>)
        requires
            old(self).well_formed(),
        ensures
            final(self).well_formed(),
            final(self)@ == old(self)@.insert(t@, entry),
            match r {
                Ok(()) => !old(self)@.contains_key(t@),
                Err(e) => old(self)@.contains_key(t@) && e@ == type_exists_message(t@),
            },
    {
        if self.data.insert(t.duplicate(), entry) {
            let mut e = copy_str("Type ");
            let shown = t.to_display_string();
            e.append(shown.as_str());
            e.append(" already exists");
            Err(e)
        } else {
            Ok(())
        }
    }

    /// Checks that every type inside `t` is known.
    #[verifier::loop_isolation(false)]
    pub fn assert_valid(&self, t: &Type) -> (r: Result<(), String>)
        requires
            self.well_formed(),
        ensures
            match r {
                Ok(()) => first_invalid(self@, t@) is None,
                Err(e) => first_invalid(self@, t@) is Some && e@ == invalid_type_message(
                    first_invalid(self@, t@)->0,
                ),
            },
        decreases t,
    {
        match t {
            Type::Reference { ty, .. } => self.assert_valid(&**ty),
            Type::Tuple(types) => {
                let ghost vs = t@->Tuple_0;
                let mut i: usize = 0;
                while i < types.len()
                    invariant
                        i <= types@.len(),
                        vs.len() == types@.len(),
                        forall|j: int| 0 <= j < types@.len() ==> vs[j] == #[trigger] types@[j]@,
                        first_invalid_in(self@, vs.take(i as int)) is None,
                    decreases types@.len() - i,
                {
                    proof {
                        assert(decreases_to!(*types => types[i as int]));
                        assert(vs.take(i + 1).drop_last() =~= vs.take(i as int));
                    }
                    let result = self.assert_valid(&types[i]);
                    if result.is_err() {
                        proof {
                            lemma_first_invalid_prefix(self@, vs, i + 1);
                        }
                        return result;
                    }
                    i += 1;
                }
                assert(vs.take(i as int) =~= vs);
                Ok(())
            },
            _ => {
                if self.data.contains_key(t) {
                    Ok(())
                } else {
                    let mut e = copy_str("Type `");
                    let shown = t.to_display_string();
                    e.append(shown.as_str());
                    e.append("` is not valid");
                    Err(e)
                }
            },
        }
    }

    /// Alignment of a known type that is neither a reference nor a tuple.
    pub fn alignment_of(&self, t: &Type) -> (r: usize)
        requires
            self.well_formed(),
            !(t@ is Reference),
            !(t@ is Tuple),
            self@.contains_key(t@),
        ensures
            r == self@[t@].alignment,
    {
        self.data.get(t).unwrap().alignment
    }

    /// Size of a known type in bytes.
    pub fn size_of(&self, t: &Type) -> (r: usize)
        requires
            self.well_formed(),
            self@.contains_key(t@),
        ensures
            r == self@[t@].size,
    {
        self.data.get(t).unwrap().size
    }

    pub fn contains(&self, t: &Type) -> (r: bool)
        requires
            self.well_formed(),
        ensures
            r == self@.contains_key(t@),
    {
        self.data.contains_key(t)
    }
}

/// If the types before position `k` are all known, the first unknown type of
/// the first `k` types is that of the `k-1`-th.
proof fn lemma_first_invalid_prefix(table: Map<TypeV, TypeTableEntry>, ts: Seq<TypeV>, k: int)
    requires
        0 < k <= ts.len(),
        first_invalid_in(table, ts.take(k - 1)) is None,
        first_invalid(table, ts[k - 1]) is Some,
    ensures
        first_invalid_in(table, ts) == first_invalid(table, ts[k - 1]),
    decreases ts.len() - k,
{
    if k == ts.len() {
        assert(ts.take(k - 1) =~= ts.drop_last());
    } else {
        assert(ts.drop_last().take(k - 1) =~= ts.take(k - 1));
        lemma_first_invalid_prefix(table, ts.drop_last(), k);
    }
}

//////////////////// Variables and their allocations ////////////////////

/// How a variable is given memory.
#[derive(Debug)]
pub enum MemoryUsage {
    /// The variable is new and needs a stack slot: `let x: u32 = 7;`
    StackSlot,
    /// The variable is a struct being returned: `return Type {...};`
    StructReturn,
    /// The variable aliases an existing variable and uses its allocation:
    /// `let x: u32 = y;`
    Alias(String),
    /// The variable is allocated by the caller and passed as a parameter.
    FunctionParam,
}

pub enum MemoryUsageV {
    StackSlot,
    StructReturn,
    Alias(Seq<char>),
    FunctionParam,
}

impl View for MemoryUsage {
    type V = MemoryUsageV;

    open spec fn view(&self) -> MemoryUsageV {
        match self {
            MemoryUsage::StackSlot => MemoryUsageV::StackSlot,
            MemoryUsage::StructReturn => MemoryUsageV::StructReturn,
            MemoryUsage::Alias(s) => MemoryUsageV::Alias(s@),
            MemoryUsage::FunctionParam => MemoryUsageV::FunctionParam,
        }
    }
}

impl MemoryUsage {
    pub fn duplicate(&self) -> (r: MemoryUsage)
        ensures
            r@ == self@,
    {
        match self {
            MemoryUsage::StackSlot => MemoryUsage::StackSlot,
            MemoryUsage::StructReturn => MemoryUsage::StructReturn,
            MemoryUsage::Alias(s) => MemoryUsage::Alias(s.clone()),
            MemoryUsage::FunctionParam => MemoryUsage::FunctionParam,
        }
    }
}

pub open spec fn usage_views<K>(m: Map<K, MemoryUsage>) -> Map<K, MemoryUsageV> {
    m.map_values(|u: MemoryUsage| u@)
}

pub open spec fn duplicate_allocation_message(function: Seq<char>, variable: Seq<char>) -> Seq<char> {
    "Variable "@ + variable + " is already defined in function "@ + function
}

/// The allocation of each (function, variable) pair.
pub struct AllocationTable {
    allocations: AssocMap<(String, String), MemoryUsage>,
}

impl View for AllocationTable {
    type V = Map<(Seq<char>, Seq<char>), MemoryUsageV>;

    closed spec fn view(&self) -> Map<(Seq<char>, Seq<char>), MemoryUsageV> {
        usage_views(self.allocations@)
    }
}

impl AllocationTable {
    pub closed spec fn well_formed(&self) -> bool {
        self.allocations.well_formed()
    }

    pub fn new() -> (r: Self)
        ensures
            r.well_formed(),
            r@ == Map::<(Seq<char>, Seq<char>), MemoryUsageV>::empty(),
    {
        let r = AllocationTable { allocations: AssocMap::new() };
        assert(r@ =~= Map::<(Seq<char>, Seq<char>), MemoryUsageV>::empty());
        r
    }

    /// Records the allocation of `variable` in `function`. It is an error if
    /// one was recorded before; the new one replaces it all the same.
    pub fn insert(&mut self, function: String, variable: String, usage: MemoryUsage) -> (r: Result<(), String>)
        requires
            old(self).well_formed(),
        ensures
            final(self).well_formed(),
            final(self)@ == old(self)@.insert((function@, variable@), usage@),
            match r {
                Ok(()) => !old(self)@.contains_key((function@, variable@)),
                Err(e) => old(self)@.contains_key((function@, variable@))
                    && e@ == duplicate_allocation_message(function@, variable@),
            },
    {
        let mut e = copy_str("Variable ");
        e.append(variable.as_str());
        e.append(" is already defined in function ");
        e.append(function.as_str());
        let ghost key = (function@, variable@);
        let ghost uv = usage@;
        let existed = self.allocations.insert((function, variable), usage);
        assert(self@ =~= old(self)@.insert(key, uv));
        if existed { Err(e) } else { Ok(()) }
    }

    /// The allocation recorded for `variable` in `function`.
    pub fn get_usage(&self, function: &str, variable: &str) -> (r: &MemoryUsage)
        requires
            self.well_formed(),
            self@.contains_key((function@, variable@)),
        ensures
            r@ == self@[(function@, variable@)],
    {
        let key = (copy_str(function), copy_str(variable));
        self.allocations.get(&key).unwrap()
    }
}

/// What is known of a variable in scope.
pub struct VariableData {
    /// Type of the variable
    pub ty: Type,
    /// What allocation this variable needs
    pub memory_usage: MemoryUsage,
    /// Is the variable mutable
    pub mutable: bool,
}

pub struct VariableDataV {
    pub ty: TypeV,
    pub memory_usage: MemoryUsageV,
    pub mutable: bool,
}

impl View for VariableData {
    type V = VariableDataV;

    open spec fn view(&self) -> VariableDataV {
        VariableDataV { ty: self.ty@, memory_usage: self.memory_usage@, mutable: self.mutable }
    }
}

impl VariableData {
    pub fn new(ty: Type, memory_usage: MemoryUsage, mutable: bool) -> (r: Self)
        ensures
            r.ty == ty,
            r.memory_usage == memory_usage,
            r.mutable == mutable,
    {
        VariableData { ty, memory_usage, mutable }
    }
}

pub open spec fn variable_views(m: Map<Seq<char>, VariableData>) -> Map<Seq<char>, VariableDataV> {
    m.map_values(|d: VariableData| d@)
}

/// The variables declared in one scope.
pub struct Scope {
    variables: AssocMap<String, VariableData>,
}

impl View for Scope {
    type V = Map<Seq<char>, VariableDataV>;

    closed spec fn view(&self) -> Map<Seq<char>, VariableDataV> {
        variable_views(self.variables@)
    }
}

impl Scope {
    pub closed spec fn well_formed(&self) -> bool {
        self.variables.well_formed()
    }

    /// The names of the variables, in order of declaration.
    pub closed spec fn names(&self) -> Seq<Seq<char>> {
        crate::assoc::keys_of(self.variables.entry_seq())
    }

    pub fn new() -> (r: Self)
        ensures
            r.well_formed(),
            r@ == Map::<Seq<char>, VariableDataV>::empty(),
            r.names() == Seq::<Seq<char>>::empty(),
    {
        let r = Scope { variables: AssocMap::new() };
        assert(r@ =~= Map::<Seq<char>, VariableDataV>::empty());
        assert(r.names() =~= Seq::<Seq<char>>::empty());
        r
    }

    pub fn get_var_data(&self, var: &String) -> (r: &VariableData)
        requires
            self.well_formed(),
            self@.contains_key(var@),
        ensures
            r@ == self@[var@],
    {
        self.variables.get(var).unwrap()
    }

    pub fn insert_var_data(&mut self, name: String, var: VariableData)
        requires
            old(self).well_formed(),
        ensures
            final(self).well_formed(),
            final(self)@ == old(self)@.insert(name@, var@),
            final(self).names() == if old(self)@.contains_key(name@) {
                old(self).names()
            } else {
                old(self).names().push(name@)
            },
    {
        let ghost k = name@;
        let ghost v = var@;
        self.variables.insert(name, var);
        assert(self@ =~= old(self)@.insert(k, v));
    }

    /// The variables of the scope, in order of declaration.
    pub fn into_variables(self) -> (r: Vec<(String, VariableData)>)
        requires
            self.well_formed(),
        ensures
            crate::assoc::distinct_keys(r@),
            variable_views(crate::assoc::entries_map(r@)) == self@,
            crate::assoc::keys_of(r@) == self.names(),
    {
        proof {
            self.variables.lemma_view();
        }
        self.variables.into_entries()
    }
}

#[verifier::ext_equal]
pub struct ScopesV {
    /// Each scope's variables, outermost first.
    pub scopes: Seq<Map<Seq<char>, VariableDataV>>,
    /// The scope that declares each variable in scope.
    pub all_variables: Map<Seq<char>, usize>,
    pub num_scopes: usize,
    /// Each scope's variable names, in order of declaration.
    pub orders: Seq<Seq<Seq<char>>>,
}

pub open spec fn duplicate_variable_message(name: Seq<char>) -> Seq<char> {
    "Variable `"@ + name + "` is already defined in this scope"@
}

pub open spec fn unknown_variable_message(name: Seq<char>) -> Seq<char> {
    "No variable `"@ + name + "` in scope"@
}

/// The nested scopes of a function body.
pub struct Scopes {
    scopes: Vec<Scope>,
    all_variables: AssocMap<String, usize>,
    num_scopes: usize,
}

impl View for Scopes {
    type V = ScopesV;

    closed spec fn view(&self) -> ScopesV {
        ScopesV {
            scopes: self.scopes@.map_values(|s: Scope| s@),
            all_variables: self.all_variables@,
            num_scopes: self.num_scopes,
            orders: self.scopes@.map_values(|s: Scope| s.names()),
        }
    }
}

/// `name` is declared in a scope other than the innermost one, so declaring
/// it again would shadow it (not supported).
pub open spec fn would_shadow(s: ScopesV, name: Seq<char>) -> bool {
    s.all_variables.contains_key(name) && s.all_variables[name] != s.num_scopes - 1
}

/// The variable in scope named `name`.
pub open spec fn variable_in_scope(s: ScopesV, name: Seq<char>) -> VariableDataV {
    s.scopes[s.all_variables[name] as int][name]
}

impl Scopes {
    pub closed spec fn well_formed(&self) -> bool {
        &&& self.num_scopes == self.scopes@.len()
        &&& forall|i: int| 0 <= i < self.scopes@.len() ==> #[trigger] self.scopes@[i].well_formed()
        &&& self.all_variables.well_formed()
        &&& forall|k: Seq<char>| #[trigger] self.all_variables@.contains_key(k) ==> {
            &&& self.all_variables@[k] < self.scopes@.len()
            &&& self.scopes@[self.all_variables@[k] as int]@.contains_key(k)
        }
        &&& forall|i: int, k: Seq<char>| 0 <= i < self.scopes@.len() && #[trigger] self.scopes@[i]@.contains_key(k)
            ==> self.all_variables@.contains_key(k) && self.all_variables@[k] == i
    }

    /// A well-formed stack counts its scopes, and finds each variable in
    /// scope in the scope that declares it.
    pub proof fn lemma_well_formed(&self)
        requires
            self.well_formed(),
        ensures
            self@.num_scopes == self@.scopes.len(),
            forall|k: Seq<char>| #[trigger] self@.all_variables.contains_key(k) ==> {
                &&& self@.all_variables[k] < self@.scopes.len()
                &&& self@.scopes[self@.all_variables[k] as int].contains_key(k)
            },
    {
    }

    pub fn new() -> (r: Self)
        ensures
            r.well_formed(),
            r@.scopes == Seq::<Map<Seq<char>, VariableDataV>>::empty(),
            r@.all_variables == Map::<Seq<char>, usize>::empty(),
            r@.num_scopes == 0,
            r@.orders == Seq::<Seq<Seq<char>>>::empty(),
    {
        let r = Scopes { scopes: Vec::new(), all_variables: AssocMap::new(), num_scopes: 0 };
        assert(r@.scopes =~= Seq::<Map<Seq<char>, VariableDataV>>::empty());
        assert(r@.orders =~= Seq::<Seq<Seq<char>>>::empty());
        r
    }

    pub fn push_scope(&mut self)
        requires
            old(self).well_formed(),
            old(self)@.num_scopes < usize::MAX,
        ensures
            final(self).well_formed(),
            final(self)@ == (ScopesV {
                scopes: old(self)@.scopes.push(Map::empty()),
                num_scopes: (old(self)@.num_scopes + 1) as usize,
                orders: old(self)@.orders.push(Seq::empty()),
                ..old(self)@
            }),
            final(self)@ == check::entered(old(self)@),
    {
        self.scopes.push(Scope::new());
        self.num_scopes += 1;
        assert(self@.scopes =~= old(self)@.scopes.push(Map::empty()));
        assert(self@.orders =~= old(self)@.orders.push(Seq::empty()));
    }

    /// Leaves the innermost scope, handing back its variables.
    pub fn pop_scope(&mut self) -> (r: Scope)
        requires
            old(self).well_formed(),
            old(self)@.num_scopes > 0,
        ensures
            final(self).well_formed(),
            r.well_formed(),
            r@ == old(self)@.scopes.last(),
            r.names() == old(self)@.orders.last(),
            final(self)@ == (ScopesV {
                scopes: old(self)@.scopes.drop_last(),
                all_variables: old(self)@.all_variables.remove_keys(r@.dom()),
                num_scopes: (old(self)@.num_scopes - 1) as usize,
                orders: old(self)@.orders.drop_last(),
            }),
            final(self)@ == check::left(old(self)@),
    {
        let removed = self.scopes.pop().unwrap();
        assert(removed.well_formed());
        proof {
            removed.variables.lemma_view();
        }
        let ghost keys = removed@.dom();
        let ghost start = self.all_variables@;
        let mut i: usize = 0;
        while i < removed.variables.len()
            invariant
                removed.well_formed(),
                removed.variables@ == crate::assoc::entries_map(removed.variables.entry_seq()),
                i <= removed.variables.entry_seq().len(),
                self.scopes@ == old(self).scopes@.drop_last(),
                self.num_scopes == old(self).num_scopes,
                old(self).num_scopes == old(self).scopes@.len(),
                old(self).scopes@.len() > 0,
                self.all_variables.well_formed(),
                self.all_variables@ == start.remove_keys(
                    Set::new(|k: Seq<char>| exists|j: int| 0 <= j < i && removed.variables.entry_seq()[j].0@ == k),
                ),
            decreases removed.variables.entry_seq().len() - i,
        {
            let key = &removed.variables.entry(i).0;
            self.all_variables.remove(key);
            i += 1;
            assert(self.all_variables@ =~= start.remove_keys(
                Set::new(|k: Seq<char>| exists|j: int| 0 <= j < i && removed.variables.entry_seq()[j].0@ == k),
            ));
        }
        proof {
            assert(Set::new(|k: Seq<char>| exists|j: int| 0 <= j < i && removed.variables.entry_seq()[j].0@ == k) =~= keys);
        }
        self.num_scopes -= 1;
        proof {
            assert(self.scopes@ =~= old(self).scopes@.drop_last());
            assert(self@.scopes =~= old(self)@.scopes.drop_last());
            assert(self@.orders =~= old(self)@.orders.drop_last());
            assert forall|k: Seq<char>| #[trigger] self.all_variables@.contains_key(k) implies {
                &&& self.all_variables@[k] < self.scopes@.len()
                &&& self.scopes@[self.all_variables@[k] as int]@.contains_key(k)
            } by {
                assert(old(self).all_variables@.contains_key(k));
                let idx = old(self).all_variables@[k];
                assert(old(self).scopes@[idx as int]@.contains_key(k));
                if idx == self.scopes@.len() {
                    assert(old(self).scopes@[idx as int] == removed);
                }
            }
        }
        removed
    }

    /// The number of nested scopes.
    pub fn depth(&self) -> (r: usize)
        ensures
            r == self@.num_scopes,
    {
        self.num_scopes
    }

    /// Declaring `name` in the innermost scope would shadow a variable of an
    /// outer scope.
    pub fn shadows(&self, name: &String) -> (r: bool)
        requires
            self.well_formed(),
        ensures
            r == would_shadow(self@, name@),
    {
        match self.all_variables.get(name) {
            Some(i) => *i != self.num_scopes - 1,
            None => false,
        }
    }

    pub fn current_index(&self) -> (r: usize)
        requires
            self@.num_scopes > 0,
        ensures
            r == self@.num_scopes - 1,
    {
        self.num_scopes - 1
    }

    /// Declares a variable in the innermost scope; an error if the innermost
    /// scope declares it already.
    pub fn add_var_to_scope(&mut self, name: String, mutable: bool, ty: Type, memory_usage: MemoryUsage) -> (r: Result<(), String>)
        requires
            old(self).well_formed(),
            old(self)@.num_scopes > 0,
            !would_shadow(old(self)@, name@),
        ensures
            final(self).well_formed(),
            match r {
                Ok(()) => {
                    &&& !old(self)@.all_variables.contains_key(name@)
                    &&& final(self)@ == (ScopesV {
                        scopes: old(self)@.scopes.update(
                            old(self)@.num_scopes - 1,
                            old(self)@.scopes.last().insert(
                                name@,
                                VariableDataV { ty: ty@, memory_usage: memory_usage@, mutable },
                            ),
                        ),
                        all_variables: old(self)@.all_variables.insert(name@, (old(self)@.num_scopes - 1) as usize),
                        orders: old(self)@.orders.update(
                            old(self)@.num_scopes - 1,
                            old(self)@.orders.last().push(name@),
                        ),
                        ..old(self)@
                    })
                    &&& final(self)@.all_variables.contains_key(name@)
                    &&& final(self)@.all_variables[name@] == final(self)@.num_scopes - 1
                    &&& variable_in_scope(final(self)@, name@)
                        == (VariableDataV { ty: ty@, memory_usage: memory_usage@, mutable })
                },
                Err(e) => old(self)@.all_variables.contains_key(name@) && e@ == duplicate_variable_message(name@)
                    && final(self)@ == old(self)@,
            },
    {
        let current = self.num_scopes - 1;
        if self.all_variables.contains_key(&name) {
            let mut e = copy_str("Variable `");
            e.append(name.as_str());
            e.append("` is already defined in this scope");
            return Err(e);
        }
        let ghost nv = name@;
        let ghost data = VariableDataV { ty: ty@, memory_usage: memory_usage@, mutable };
        let key = name.clone();
        self.all_variables.insert(key, current);
        let mut scope = self.scopes.remove(current);
        scope.insert_var_data(name, VariableData::new(ty, memory_usage, mutable));
        self.scopes.insert(current, scope);
        proof {
            assert(self.scopes@ =~= old(self).scopes@.update(current as int, scope));
            assert(self@.scopes =~= old(self)@.scopes.update(current as int, old(self)@.scopes.last().insert(nv, data)));
            assert(!old(self).scopes@[current as int]@.contains_key(nv));
            assert(self@.orders =~= old(self)@.orders.update(current as int, old(self)@.orders.last().push(nv)));
            assert forall|i: int| 0 <= i < self.scopes@.len() implies #[trigger] self.scopes@[i].well_formed() by {
                if i != current {
                    assert(self.scopes@[i] == old(self).scopes@[i]);
                }
            }
            assert forall|k: Seq<char>| #[trigger] self.all_variables@.contains_key(k) implies {
                &&& self.all_variables@[k] < self.scopes@.len()
                &&& self.scopes@[self.all_variables@[k] as int]@.contains_key(k)
            } by {
                if k != nv {
                    let idx = old(self).all_variables@[k];
                    assert(old(self).scopes@[idx as int]@.contains_key(k));
                    if idx != current {
                        assert(self.scopes@[idx as int] == old(self).scopes@[idx as int]);
                    }
                }
            }
        }
        Ok(())
    }

    /// The variable in scope named `name`.
    pub fn get_variable(&self, name: &String) -> (r: Result<&VariableData, String>)
        requires
            self.well_formed(),
        ensures
            match r {
                Ok(v) => self@.all_variables.contains_key(name@) && v@ == variable_in_scope(self@, name@),
                Err(e) => !self@.all_variables.contains_key(name@) && e@ == unknown_variable_message(name@),
            },
    {
        match self.all_variables.get(name) {
            Some(index) => {
                let i = *index;
                assert(self.scopes@[i as int].well_formed());
                Ok(self.scopes[i].get_var_data(name))
            },
            None => {
                let mut e = copy_str("No variable `");
                e.append(name.as_str());
                e.append("` in scope");
                Err(e)
            },
        }
    }

    /// Changes the allocation of the variable in scope named `name`.
    pub fn set_memory_usage(&mut self, name: &String, usage: MemoryUsage)
        requires
            old(self).well_formed(),
            old(self)@.all_variables.contains_key(name@),
        ensures
            final(self).well_formed(),
            final(self)@ == (ScopesV {
                scopes: old(self)@.scopes.update(
                    old(self)@.all_variables[name@] as int,
                    old(self)@.scopes[old(self)@.all_variables[name@] as int].insert(
                        name@,
                        VariableDataV { memory_usage: usage@, ..variable_in_scope(old(self)@, name@) },
                    ),
                ),
                ..old(self)@
            }),
    {
        let index = *self.all_variables.get(name).unwrap();
        let ghost nv = name@;
        let ghost uv = usage@;
        assert(self.scopes@[index as int].well_formed());
        let mut scope = self.scopes.remove(index);
        let data = {
            let old_data = scope.get_var_data(name);
            VariableData::new(old_data.ty.duplicate(), usage, old_data.mutable)
        };
        scope.insert_var_data(name.clone(), data);
        self.scopes.insert(index, scope);
        proof {
            assert(self.scopes@ =~= old(self).scopes@.update(index as int, scope));
            assert(self@.scopes =~= old(self)@.scopes.update(index as int,
                old(self)@.scopes[index as int].insert(nv, VariableDataV { memory_usage: uv, ..variable_in_scope(old(self)@, nv) })));
            assert forall|i: int| 0 <= i < self.scopes@.len() implies #[trigger] self.scopes@[i].well_formed() by {
                if i != index {
                    assert(self.scopes@[i] == old(self).scopes@[i]);
                }
            }
            assert forall|k: Seq<char>| #[trigger] self.all_variables@.contains_key(k) implies {
                &&& self.all_variables@[k] < self.scopes@.len()
                &&& self.scopes@[self.all_variables@[k] as int]@.contains_key(k)
            } by {
                let idx = old(self).all_variables@[k];
                assert(old(self).scopes@[idx as int]@.contains_key(k));
                if idx != index {
                    assert(self.scopes@[idx as int] == old(self).scopes@[idx as int]);
                }
            }
            assert forall|i: int, k: Seq<char>| 0 <= i < self.scopes@.len() && #[trigger] self.scopes@[i]@.contains_key(k)
                implies self.all_variables@.contains_key(k) && self.all_variables@[k] == i by {
                if i != index {
                    assert(self.scopes@[i] == old(self).scopes@[i]);
                } else {
                    assert(old(self).scopes@[i]@.contains_key(k));
                }
            }
            assert(self@.orders =~= old(self)@.orders) by {
                assert forall|i: int| 0 <= i < self.scopes@.len() implies #[trigger] self@.orders[i] == old(self)@.orders[i] by {
                    if i != index {
                        assert(self.scopes@[i] == old(self).scopes@[i]);
                    }
                }
            }
        }
    }
}

/// Following aliases from `k` in `m` reaches a variable that aliases nothing
/// within `n` steps.
pub open spec fn alias_chain_ends(m: Map<Seq<char>, VariableDataV>, k: Seq<char>, n: nat) -> bool
    decreases n,
{
    &&& m.contains_key(k)
    &&& m[k].memory_usage is Alias ==> n > 0 && alias_chain_ends(m, m[k].memory_usage->Alias_0, (n - 1) as nat)
}

/// A number of steps within which following aliases from `k` ends.
pub open spec fn alias_steps(m: Map<Seq<char>, VariableDataV>, k: Seq<char>) -> nat {
    choose|n: nat| alias_chain_ends(m, k, n)
}

/// The variable reached by following aliases from `k` (at most `n` steps).
pub open spec fn alias_root(m: Map<Seq<char>, VariableDataV>, k: Seq<char>, n: nat) -> Seq<char>
    decreases n,
{
    if n > 0 && m[k].memory_usage is Alias {
        alias_root(m, m[k].memory_usage->Alias_0, (n - 1) as nat)
    } else {
        k
    }
}

impl Scopes {
    /// Uses aliases to give the variable that a function returns the
    /// struct-return allocation: the variable that `target` aliases (in the
    /// innermost scope) gets it, or, if that is a parameter, aliases itself.
    pub fn signal_return_variable(&mut self, target: String)
        requires
            old(self).well_formed(),
            old(self)@.num_scopes > 0,
            exists|n: nat| alias_chain_ends(old(self)@.scopes.last(), target@, n),
        ensures
            final(self).well_formed(),
            ({
                let m = old(self)@.scopes.last();
                let root = alias_root(m, target@, alias_steps(m, target@));
                let usage = match m[root].memory_usage {
                    MemoryUsageV::FunctionParam => MemoryUsageV::Alias(root),
                    _ => MemoryUsageV::StructReturn,
                };
                final(self)@ == (ScopesV {
                    scopes: old(self)@.scopes.update(
                        old(self)@.num_scopes - 1,
                        m.insert(root, VariableDataV { memory_usage: usage, ..m[root] }),
                    ),
                    ..old(self)@
                })
            }),
    {
        let current = self.num_scopes - 1;
        let ghost first_target = target@;
        let ghost steps = alias_steps(self@.scopes.last(), target@);
        let mut cursor = target.clone();
        let ghost mut left = steps;
        let ghost m = self@.scopes.last();
        assert(self.scopes@[current as int].well_formed());
        loop
            invariant
                self == old(self),
                self.well_formed(),
                self@.num_scopes > 0,
                current == self@.num_scopes - 1,
                current < self.scopes@.len(),
                self.scopes@[current as int]@ == m,
                m == self@.scopes.last(),
                self.scopes@[current as int].well_formed(),
                alias_chain_ends(m, cursor@, left),
                alias_root(m, cursor@, left) == alias_root(m, first_target, steps),
                first_target == target@,
                steps == alias_steps(m, first_target),
            decreases left,
        {
            let data = self.scopes[current].get_var_data(&cursor);
            match &data.memory_usage {
                MemoryUsage::Alias(next) => {
                    let next = next.clone();
                    proof {
                        left = (left - 1) as nat;
                    }
                    cursor = next;
                },
                MemoryUsage::FunctionParam => {
                    assert(m[cursor@].memory_usage == data@.memory_usage);
                    assert(alias_root(m, cursor@, left) == cursor@);
                    let usage = MemoryUsage::Alias(cursor.clone());
                    self.set_current_usage(&cursor, usage);
                    return;
                },
                _ => {
                    assert(m[cursor@].memory_usage == data@.memory_usage);
                    assert(alias_root(m, cursor@, left) == cursor@);
                    self.set_current_usage(&cursor, MemoryUsage::StructReturn);
                    return;
                },
            }
        }
    }

    fn set_current_usage(&mut self, name: &String, usage: MemoryUsage)
        requires
            old(self).well_formed(),
            old(self)@.num_scopes > 0,
            old(self)@.scopes.last().contains_key(name@),
        ensures
            final(self).well_formed(),
            final(self)@ == (ScopesV {
                scopes: old(self)@.scopes.update(
                    old(self)@.num_scopes - 1,
                    old(self)@.scopes.last().insert(
                        name@,
                        VariableDataV { memory_usage: usage@, ..old(self)@.scopes.last()[name@] },
                    ),
                ),
                ..old(self)@
            }),
    {
        let index = self.num_scopes - 1;
        let ghost nv = name@;
        let ghost uv = usage@;
        assert(self.scopes@[index as int].well_formed());
        let mut scope = self.scopes.remove(index);
        let data = {
            let old_data = scope.get_var_data(name);
            VariableData::new(old_data.ty.duplicate(), usage, old_data.mutable)
        };
        scope.insert_var_data(name.clone(), data);
        self.scopes.insert(index, scope);
        proof {
            assert(self.scopes@ =~= old(self).scopes@.update(index as int, scope));
            assert(self@.scopes =~= old(self)@.scopes.update(index as int,
                old(self)@.scopes.last().insert(nv, VariableDataV { memory_usage: uv, ..old(self)@.scopes.last()[nv] })));
            assert forall|i: int| 0 <= i < self.scopes@.len() implies #[trigger] self.scopes@[i].well_formed() by {
                if i != index {
                    assert(self.scopes@[i] == old(self).scopes@[i]);
                }
            }
            assert forall|k: Seq<char>| #[trigger] self.all_variables@.contains_key(k) implies {
                &&& self.all_variables@[k] < self.scopes@.len()
                &&& self.scopes@[self.all_variables@[k] as int]@.contains_key(k)
            } by {
                let idx = old(self).all_variables@[k];
                assert(old(self).scopes@[idx as int]@.contains_key(k));
                if idx != index {
                    assert(self.scopes@[idx as int] == old(self).scopes@[idx as int]);
                }
            }
            assert forall|i: int, k: Seq<char>| 0 <= i < self.scopes@.len() && #[trigger] self.scopes@[i]@.contains_key(k)
                implies self.all_variables@.contains_key(k) && self.all_variables@[k] == i by {
                if i != index {
                    assert(self.scopes@[i] == old(self).scopes@[i]);
                } else {
                    assert(old(self).scopes@[i]@.contains_key(k));
                }
            }
            assert(self@.orders =~= old(self)@.orders) by {
                assert forall|i: int| 0 <= i < self.scopes@.len() implies #[trigger] self@.orders[i] == old(self)@.orders[i] by {
                    if i != index {
                        assert(self.scopes@[i] == old(self).scopes@[i]);
                    }
                }
            }
        }
    }
}

//////////////////// Functions ////////////////////

/// The signature of a declared function.
pub struct FunctionDefinition {
    /// Function parameters (name, type, mutable) in order
    pub parameters: Vec<(String, Type, bool)>,
    pub return_type: Type,
    pub is_extern: bool,
    pub is_validated: bool,
}

pub struct FunctionDefinitionV {
    pub parameters: Seq<(Seq<char>, TypeV, bool)>,
    pub return_type: TypeV,
    pub is_extern: bool,
    pub is_validated: bool,
}

impl View for FunctionDefinition {
    type V = FunctionDefinitionV;

    open spec fn view(&self) -> FunctionDefinitionV {
        FunctionDefinitionV {
            parameters: self.parameters@.map_values(|p: (String, Type, bool)| (p.0@, p.1@, p.2)),
            return_type: self.return_type@,
            is_extern: self.is_extern,
            is_validated: self.is_validated,
        }
    }
}

/// The signature that a prototype declares.
pub open spec fn declared_signature(p: ast::FunctionPrototypeV, is_extern: bool) -> FunctionDefinitionV {
    FunctionDefinitionV {
        parameters: p.parameters.item.map_values(
            |n: ast::Node<ast::FunctionParameterV>| (n.item.name, n.item.ty, n.item.mutable),
        ),
        return_type: p.return_type,
        is_extern,
        is_validated: false,
    }
}

pub open spec fn duplicate_function_message(name: Seq<char>) -> Seq<char> {
    "Function `"@ + name + "` already exists"@
}

pub open spec fn unknown_function_message(name: Seq<char>) -> Seq<char> {
    "Could not find function `"@ + name + "`"@
}

pub open spec fn function_views(m: Map<Seq<char>, FunctionDefinition>) -> Map<Seq<char>, FunctionDefinitionV> {
    m.map_values(|d: FunctionDefinition| d@)
}

/// The declared functions by name.
pub struct FunctionTable {
    pub functions: AssocMap<String, FunctionDefinition>,
}

impl View for FunctionTable {
    type V = Map<Seq<char>, FunctionDefinitionV>;

    open spec fn view(&self) -> Map<Seq<char>, FunctionDefinitionV> {
        function_views(self.functions@)
    }
}

impl FunctionTable {
    pub open spec fn well_formed(&self) -> bool {
        self.functions.well_formed()
    }

    pub fn new() -> (r: Self)
        ensures
            r.well_formed(),
            r@ == Map::<Seq<char>, FunctionDefinitionV>::empty(),
    {
        let r = FunctionTable { functions: AssocMap::new() };
        assert(r@ =~= Map::<Seq<char>, FunctionDefinitionV>::empty());
        r
    }

    /// Declares the function of `prototype`; an error if a function of that
    /// name exists.
    pub fn forward_declare_function(&mut self, validated_prototype: &ast::FunctionPrototype, is_extern: bool) -> (r: Result<(), String>)
        requires
            old(self).well_formed(),
        ensures
            final(self).well_formed(),
            match r {
                Ok(()) => !old(self)@.contains_key(validated_prototype.name@) && final(self)@ == old(self)@.insert(
                    validated_prototype.name@,
                    declared_signature(validated_prototype@, is_extern),
                ),
                Err(e) => old(self)@.contains_key(validated_prototype.name@)
                    && e@ == duplicate_function_message(validated_prototype.name@)
                    && final(self)@ == old(self)@,
            },
    {
        if self.functions.contains_key(&validated_prototype.name) {
            let mut e = copy_str("Function `");
            e.append(validated_prototype.name.as_str());
            e.append("` already exists");
            return Err(e);
        }
        let params = &validated_prototype.parameters.item;
        let ghost target = declared_signature(validated_prototype@, is_extern).parameters;
        let mut parameters: Vec<(String, Type, bool)> = Vec::new();
        let mut i: usize = 0;
        while i < params.len()
            invariant
                i <= params@.len(),
                target.len() == params@.len(),
                forall|j: int| 0 <= j < params@.len() ==> #[trigger] target[j] == (params@[j].item.name@, params@[j].item.ty@, params@[j].item.mutable),
                parameters@.map_values(|p: (String, Type, bool)| (p.0@, p.1@, p.2)) =~= target.take(i as int),
            decreases params@.len() - i,
        {
            let param = &params[i].item;
            let entry = (param.name.clone(), param.ty.duplicate(), param.mutable);
            parameters.push(entry);
            i += 1;
            assert(target.take(i as int) =~= target.take(i - 1).push(target[i - 1]));
        }
        assert(target.take(i as int) =~= target);
        let definition = FunctionDefinition {
            parameters,
            return_type: validated_prototype.return_type.duplicate(),
            is_extern,
            is_validated: false,
        };
        assert(definition@ =~= declared_signature(validated_prototype@, is_extern));
        let ghost k = validated_prototype.name@;
        let ghost dv = definition@;
        self.functions.insert(validated_prototype.name.clone(), definition);
        assert(self@ =~= old(self)@.insert(k, dv));
        Ok(())
    }

    /// The signature of the function named `name`.
    pub fn __get(&self, name: &String) -> (r: Result<&FunctionDefinition, String>)
        requires
            self.well_formed(),
        ensures
            match r {
                Ok(d) => self@.contains_key(name@) && d@ == self@[name@],
                Err(e) => !self@.contains_key(name@) && e@ == unknown_function_message(name@),
            },
    {
        match self.functions.get(name) {
            Some(d) => Ok(d),
            None => {
                let mut e = copy_str("Could not find function `");
                e.append(name.as_str());
                e.append("`");
                Err(e)
            },
        }
    }

    /// Records that the function named `name` was validated.
    pub fn mark_function_validated(&mut self, name: &String) -> (r: Result<(), String>)
        requires
            old(self).well_formed(),
        ensures
            final(self).well_formed(),
            match r {
                Ok(()) => old(self)@.contains_key(name@) && final(self)@ == old(self)@.insert(
                    name@,
                    FunctionDefinitionV { is_validated: true, ..old(self)@[name@] },
                ),
                Err(e) => !old(self)@.contains_key(name@) && e@ == unknown_function_message(name@)
                    && final(self)@ == old(self)@,
            },
    {
        let updated = match self.__get(name) {
            Ok(d) => {
                let ghost target = d@.parameters;
                let mut parameters: Vec<(String, Type, bool)> = Vec::new();
                let mut i: usize = 0;
                while i < d.parameters.len()
                    invariant
                        i <= d.parameters@.len(),
                        target == d@.parameters,
                        parameters@.map_values(|p: (String, Type, bool)| (p.0@, p.1@, p.2)) =~= target.take(i as int),
                    decreases d.parameters@.len() - i,
                {
                    let p = &d.parameters[i];
                    let entry = (p.0.clone(), p.1.duplicate(), p.2);
                    parameters.push(entry);
                    i += 1;
                    assert(target.take(i as int) =~= target.take(i - 1).push(target[i - 1]));
                }
                assert(target.take(i as int) =~= target);
                let r = FunctionDefinition {
                    parameters,
                    return_type: d.return_type.duplicate(),
                    is_extern: d.is_extern,
                    is_validated: true,
                };
                assert(r@ =~= FunctionDefinitionV { is_validated: true, ..d@ });
                r
            },
            Err(e) => return Err(e),
        };
        let ghost dv = updated@;
        self.functions.insert(name.clone(), updated);
        assert(self@ =~= old(self)@.insert(name@, dv));
        Ok(())
    }

    /// The signature of the function named `name`, whether or not its body
    /// was validated.
    pub fn get_unchecked_function_definition(&self, name: &String) -> (r: Result<&FunctionDefinition, String>)
        requires
            self.well_formed(),
        ensures
            match r {
                Ok(d) => self@.contains_key(name@) && d@ == self@[name@],
                Err(e) => !self@.contains_key(name@) && e@ == unknown_function_message(name@),
            },
    {
        self.__get(name)
    }
}

} // verus!
