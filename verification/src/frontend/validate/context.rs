//! The validation context: it checks an AST, fills in its types, lays out
//! its structs and records how each variable is allocated.
use vstd::prelude::*;

use crate::assoc::AssocMap;
use crate::text::{copy_str, decimal_string};
use crate::frontend::lex::token::{Token, TokenV, token_views};
use crate::frontend::parse::ast;
use super::types::{Type, TypeV};
use super::check::{
    ValidateErrorV, Checked, ContextV, todo_message, field_type, field_public, struct_alignment,
    struct_layout, layout_definition, registered, padding, check_expr, check_inputs, check_fields,
    check_block, check_stmts, check_stmt, expr_size, inputs_size, fields_size, stmts_size,
    stmt_size, block_size, expr_node_size, stmt_node_size, leave_scope, recorded, operator_call,
    first_mismatch, missing_fields, given_names, desugared, op_for, entered, declares_in_scope,
    lemma_input_size, lemma_field_size, lemma_stmt_size, lemma_inputs_update, lemma_fields_update,
    lemma_stmts_update, lemma_inputs_frame, lemma_inputs_stays, lemma_fields_frame,
    lemma_fields_stays, lemma_stmts_frame, lemma_stmts_stays, lemma_operator_call_stays,
    lemma_recorded_stays, quoted_list, check_step, missing_names, lemma_inputs_size_one, lemma_inputs_size_two,
};
use crate::frontend::lex::token::tokens_equal;
use crate::frontend::lex::debug::tokens_debug_string;
use ast::{
    Expression, ExpressionV, Statement, StatementV, BlockExpression, BlockExpressionV, Node,
    BinaryOp, UnaryOp, AssignmentOp, expr_node_view, stmt_node_view, field_views, input_views,
    stmt_views, stmt_view, expr_view, lemma_constructor_view, lemma_call_view, lemma_block_view,
};
use super::{
    AllocationTable, FunctionTable, MemoryUsage, MemoryUsageV, Scopes, ScopesV, StructDefinition,
    StructDefinitionV, StructField, StructFieldV, TypeTable, TypeTableEntry, VariableDataV,
    first_invalid,
};

verus! {

/// Why validation stopped. `Invalid`: the program is not valid, with the
/// message. `Fatal`: the compiler reached a case it does not handle and
/// halts, with the message.
#[derive(Debug)]
pub enum ValidateError {
    Invalid(String),
    Fatal(String),
}

impl View for ValidateError {
    type V = ValidateErrorV;

    open spec fn view(&self) -> ValidateErrorV {
        match self {
            ValidateError::Invalid(m) => ValidateErrorV::Invalid(m@),
            ValidateError::Fatal(m) => ValidateErrorV::Fatal(m@),
        }
    }
}

/// The value of a validation result.
pub open spec fn checked_view<T: View>(r: Result<T, ValidateError>) -> Checked<T::V> {
    match r {
        Ok(t) => Ok(t@),
        Err(e) => Err(e@),
    }
}

/// The value of an optional expression node.
pub open spec fn option_view(v: Option<Node<Expression>>) -> Option<Node<ExpressionV>> {
    match v {
        Some(n) => Some(expr_node_view(n)),
        None => None,
    }
}

/// The value of a validation result that carries nothing.
pub open spec fn done_view(r: Result<(), ValidateError>) -> Checked<()> {
    match r {
        Ok(()) => Ok(()),
        Err(e) => Err(e@),
    }
}

/// The state of validation: tables filled while checking an AST.
pub struct Context {
    /// Variable allocation data
    pub allocations: AllocationTable,
    operators: Vec<(Vec<Token>, String)>,
    /// Function signatures
    pub functions: FunctionTable,
    /// Struct layouts
    structs: AssocMap<String, StructDefinition>,
    /// Type sizes and alignments
    pub types: TypeTable,
    /// Variables in scope
    scopes: Scopes,
    /// The validated AST
    pub ast: ast::AST,
    /// The return type found in the function body being validated
    last_return_type: Type,
    /// The function whose body is being validated
    current_function_name: String,
}

pub open spec fn operator_views(ops: Seq<(Vec<Token>, String)>) -> Seq<(Seq<TokenV>, Seq<char>)> {
    ops.map_values(|o: (Vec<Token>, String)| (token_views(o.0@), o.1@))
}

pub open spec fn struct_views(m: Map<Seq<char>, StructDefinition>) -> Map<Seq<char>, StructDefinitionV> {
    m.map_values(|d: StructDefinition| d@)
}

impl View for Context {
    type V = ContextV;

    closed spec fn view(&self) -> ContextV {
        ContextV {
            allocations: self.allocations@,
            operators: operator_views(self.operators@),
            functions: self.functions@,
            structs: struct_views(self.structs@),
            types: self.types@,
            scopes: self.scopes@,
            ast: self.ast@,
            last_return_type: self.last_return_type@,
            current_function_name: self.current_function_name@,
        }
    }
}

/// The state of a new context.
pub open spec fn fresh_context() -> ContextV {
    ContextV {
        allocations: Map::empty(),
        operators: Seq::empty(),
        functions: Map::empty(),
        structs: Map::empty(),
        types: super::builtin_type_table(),
        scopes: ScopesV {
            scopes: Seq::empty(),
            all_variables: Map::empty(),
            num_scopes: 0,
            orders: Seq::empty(),
        },
        ast: ast::empty_ast(Seq::empty()),
        last_return_type: TypeV::Unknown,
        current_function_name: Seq::empty(),
    }
}

fn invalid(m: String) -> (r: ValidateError)
    ensures
        r@ == ValidateErrorV::Invalid(m@),
{
    ValidateError::Invalid(m)
}

fn fatal(m: &str) -> (r: ValidateError)
    ensures
        r@ == ValidateErrorV::Fatal(m@),
{
    ValidateError::Fatal(copy_str(m))
}

fn todo_error(what: &str) -> (r: ValidateError)
    ensures
        r@ == ValidateErrorV::Fatal(todo_message(what@)),
{
    let mut m = copy_str("not yet implemented: ");
    m.append(what);
    ValidateError::Fatal(m)
}

/// The text `a` + type `t` + `b`.
fn around_type(a: &str, t: &Type, b: &str) -> (r: String)
    ensures
        r@ == a@ + super::types::type_display(t@) + b@,
{
    let mut m = copy_str(a);
    let shown = t.to_display_string();
    m.append(shown.as_str());
    m.append(b);
    m
}

impl Context {
    pub closed spec fn well_formed(&self) -> bool {
        &&& self.allocations.well_formed()
        &&& self.functions.well_formed()
        &&& self.structs.well_formed()
        &&& forall|k: Seq<char>| #[trigger] self.structs@.contains_key(k) ==> self.structs@[k].fields.well_formed()
        &&& self.types.well_formed()
        &&& self.scopes.well_formed()
    }

    /// An empty validation context.
    pub fn new() -> (r: Self)
        ensures
            r.well_formed(),
            r@ == fresh_context(),
    {
        let r = Context {
            allocations: AllocationTable::new(),
            operators: Vec::new(),
            functions: FunctionTable::new(),
            structs: AssocMap::new(),
            types: TypeTable::new(),
            scopes: Scopes::new(),
            ast: ast::AST::placeholder(),
            last_return_type: Type::Unknown,
            current_function_name: String::new(),
        };
        assert(r@.operators =~= Seq::<(Seq<TokenV>, Seq<char>)>::empty());
        assert(r@.structs =~= Map::<Seq<char>, StructDefinitionV>::empty());
        r
    }

    /// The type of field `field` of `ty`; for a reference, of the type
    /// referred to.
    pub fn get_field_type(&self, ty: &Type, field: &String) -> (r: Result<Type, ValidateError>)
        requires
            self.well_formed(),
        ensures
            checked_view(r) == field_type(self@.structs, ty@, field@),
        decreases ty,
    {
        match ty {
            Type::Reference { ty: underlying, .. } => self.get_field_type(&**underlying, field),
            Type::Tuple(_) => Err(fatal("not yet implemented")),
            Type::User(ident) => match self.structs.get(ident) {
                None => Err(invalid(around_type("Type `", ty, "` does not exist"))),
                Some(def) => match def.fields.get(field) {
                    None => {
                        let mut m = around_type("Type `", ty, "` has no field `");
                        m.append(field.as_str());
                        m.append("`");
                        Err(invalid(m))
                    },
                    Some(f) => Ok(f.ty.duplicate()),
                },
            },
            _ => {
                let mut m = around_type("Type `", ty, "` cannot have any fields (tried accessing field `");
                m.append(field.as_str());
                m.append("`)");
                Err(invalid(m))
            },
        }
    }

    /// The size of type `ty`, when validation laid it out.
    pub fn type_size(&self, ty: &Type) -> (r: Option<usize>)
        requires
            self.well_formed(),
        ensures
            r == if self@.types.contains_key(ty@) { Some(self@.types[ty@].size) } else { None::<usize> },
    {
        if self.types.contains(ty) {
            Some(self.types.size_of(ty))
        } else {
            None
        }
    }

    /// The byte offset of field `field` in a laid-out struct `ty`.
    pub fn get_field_offset(&self, ty: &Type, field: &String) -> (r: Result<i32, ValidateError>)
        requires
            self.well_formed(),
            ty@ is User ==> self@.structs.contains_key(ty@->User_0)
                && self@.structs[ty@->User_0].fields.contains_key(field@),
        ensures
            match ty@ {
                TypeV::Reference { .. } => r matches Err(e)
                    && e@ == ValidateErrorV::Invalid("Field offsets cannot be obtained from references"@),
                TypeV::Tuple(_) => r matches Err(e) && e@ == ValidateErrorV::Fatal("not yet implemented"@),
                TypeV::User(name) => r == Ok::<i32, ValidateError>(self@.structs[name].fields[field@].offset),
                _ => r matches Err(e) && e@ == ValidateErrorV::Invalid(
                    "Tried getting field offset of incompatible type `"@ + super::types::type_display(ty@) + "`"@,
                ),
            },
    {
        match ty {
            Type::Reference { .. } => Err(invalid(copy_str("Field offsets cannot be obtained from references"))),
            Type::Tuple(_) => Err(fatal("not yet implemented")),
            Type::User(ident) => {
                let def = self.structs.get(ident).unwrap();
                Ok(def.fields.get(field).unwrap().offset)
            },
            _ => Err(invalid(around_type("Tried getting field offset of incompatible type `", ty, "`"))),
        }
    }

    /// Whether field `field` of `ty` is public; for a reference, of the type
    /// referred to.
    pub fn is_field_public(&self, ty: &Type, field: &String) -> (r: Result<bool, ValidateError>)
        requires
            self.well_formed(),
        ensures
            match r {
                Ok(b) => field_public(self@.structs, ty@, field@) == Ok::<bool, ValidateErrorV>(b),
                Err(e) => field_public(self@.structs, ty@, field@) == Err::<bool, ValidateErrorV>(e@),
            },
        decreases ty,
    {
        match ty {
            Type::Reference { ty: underlying, .. } => self.is_field_public(&**underlying, field),
            Type::Tuple(_) => Err(fatal("not yet implemented")),
            Type::User(name) => match self.structs.get(name) {
                None => {
                    let mut m = copy_str("No such type: `");
                    m.append(name.as_str());
                    m.append("`");
                    Err(invalid(m))
                },
                Some(def) => match def.fields.get(field) {
                    None => {
                        let mut m = around_type("Type `", ty, "` has no field `");
                        m.append(field.as_str());
                        m.append("`");
                        Err(invalid(m))
                    },
                    Some(f) => Ok(f.is_public),
                },
            },
            _ => Err(fatal("internal error: entered unreachable code")),
        }
    }

    /// Registers a struct and lays it out as C would: each field at the next
    /// offset aligned for it, the whole padded to the struct's alignment (the
    /// largest of its fields'; 1 for a struct without fields, of size 0).
    pub fn register_struct(&mut self, struct_: &ast::Struct) -> (r: Result<(), ValidateError>)
        requires
            old(self).well_formed(),
        ensures
            final(self).well_formed(),
            final(self)@ == registered(old(self)@, struct_@).0,
            done_view(r) == registered(old(self)@, struct_@).1,
    {
        let fields = &struct_.fields.item;
        let ghost fs = struct_@.fields.item;
        assert(fs == ast::node_views(fields@));
        // The struct's alignment
        let mut alignment: usize = 0;
        let mut i: usize = 0;
        while i < fields.len()
            invariant
                self.well_formed(),
                self == old(self),
                i <= fields@.len(),
                fs == ast::node_views(fields@),
                fs == struct_@.fields.item,
                struct_alignment(self@.types, fs, i as nat) == Ok::<usize, ValidateErrorV>(alignment),
            decreases fields@.len() - i,
        {
            let ty = &fields[i].item.ty;
            match ty {
                Type::Reference { .. } => {
                    proof {
                        lemma_alignment_stays(self@.types, fs, (i + 1) as nat, fs.len());
                    }
                    return Err(todo_error("need pointer type stuff"));
                },
                Type::Tuple(_) => {
                    proof {
                        lemma_alignment_stays(self@.types, fs, (i + 1) as nat, fs.len());
                    }
                    return Err(todo_error("tuple alignment"));
                },
                _ => {},
            }
            if !self.types.contains(ty) {
                proof {
                    lemma_alignment_stays(self@.types, fs, (i + 1) as nat, fs.len());
                }
                return Err(fatal("alignment_of"));
            }
            let a = self.types.alignment_of(ty);
            if a > alignment {
                alignment = a;
            }
            i += 1;
        }
        // Each field's offset
        let mut placed_fields: AssocMap<String, StructField> = AssocMap::new();
        let ghost mut placed: Seq<(Seq<char>, StructFieldV)> = Seq::empty();
        let mut offset: i32 = 0;
        proof {
            assert((StructDefinition { fields: placed_fields })@ =~= layout_definition(placed));
        }
        let mut i: usize = 0;
        while i < fields.len()
            invariant
                self.well_formed(),
                self == old(self),
                i <= fields@.len(),
                fs == ast::node_views(fields@),
                fs == struct_@.fields.item,
                struct_alignment(self@.types, fs, fs.len()) == Ok::<usize, ValidateErrorV>(alignment),
                struct_layout(self@.types, fs, i as nat) == Ok::<(Seq<(Seq<char>, StructFieldV)>, int), ValidateErrorV>((placed, offset as int)),
                offset >= 0,
                placed_fields.well_formed(),
                (StructDefinition { fields: placed_fields })@ == layout_definition(placed),
            decreases fields@.len() - i,
        {
            proof {
                lemma_alignment_known(self@.types, fs, fs.len(), i as nat);
            }
            let field = &fields[i].item;
            let a = self.types.alignment_of(&field.ty);
            if a == 0 {
                proof {
                    lemma_layout_stays(self@.types, fs, (i + 1) as nat, fs.len());
                }
                return Err(fatal("attempt to calculate the remainder with a divisor of zero"));
            }
            if a > 2147483647usize {
                proof {
                    lemma_layout_stays(self@.types, fs, (i + 1) as nat, fs.len());
                }
                return Err(fatal("attempt to add with overflow"));
            }
            let off: i64 = offset as i64;
            let al: i64 = a as i64;
            let m: i64 = off % al;
            let pad: i64 = if m > 0 { al - m } else { 0 };
            assert(pad == padding(offset as int, a as int));
            let start: i64 = off + pad;
            if start > 2147483647i64 {
                proof {
                    lemma_layout_stays(self@.types, fs, (i + 1) as nat, fs.len());
                }
                return Err(fatal("attempt to add with overflow"));
            }
            let size = self.types.size_of(&field.ty);
            if size > 2147483647usize || start + (size as i64) > 2147483647i64 {
                proof {
                    lemma_layout_stays(self@.types, fs, (i + 1) as nat, fs.len());
                }
                return Err(fatal("attempt to add with overflow"));
            }
            let ghost entry = (field.name@, StructFieldV { ty: field.ty@, offset: start as i32, is_public: field.is_public });
            let ghost before = StructDefinition { fields: placed_fields }@;
            placed_fields.insert(
                field.name.clone(),
                StructField { ty: field.ty.duplicate(), offset: start as i32, is_public: field.is_public },
            );
            proof {
                assert(placed.push(entry).drop_last() =~= placed);
                placed = placed.push(entry);
                let after = StructDefinition { fields: placed_fields }@;
                assert(after.fields =~= before.fields.insert(entry.0, entry.1));
            }
            offset = (start + (size as i64)) as i32;
            i += 1;
        }
        let ghost c0 = self@;
        let def = StructDefinition { fields: placed_fields };
        let ghost dv = def@;
        let _ = self.structs.insert(struct_.name.clone(), def);
        proof {
            assert(self@ =~= ContextV { structs: c0.structs.insert(struct_@.name, dv), ..c0 }) by {
                assert(struct_views(self.structs@) =~= c0.structs.insert(struct_@.name, dv));
            }
        }
        let alignment = if fields.len() == 0 { 1usize } else { alignment };
        if alignment == 0 {
            return Err(fatal("attempt to calculate the remainder with a divisor of zero"));
        }
        if alignment > 2147483647usize {
            return Err(fatal("attempt to add with overflow"));
        }
        let off: i64 = offset as i64;
        let al: i64 = alignment as i64;
        let m: i64 = off % al;
        let pad: i64 = if m > 0 { al - m } else { 0 };
        let total: i64 = off + pad;
        if total > 2147483647i64 {
            return Err(fatal("attempt to add with overflow"));
        }
        let key = Type::User(struct_.name.clone());
        let ghost c1 = self@;
        let result = self.types.insert(&key, super::TypeTableEntry::new(total as usize, alignment));
        proof {
            assert(self@ =~= ContextV { types: c1.types.insert(key@, TypeTableEntry { size: total as usize, alignment }), ..c1 });
        }
        match result {
            Ok(()) => Ok(()),
            Err(e) => Err(invalid(e)),
        }
    }

    /// The variables of an expression's value, when the expression only
    /// names another variable. Aliasing is not tracked: no expression
    /// aliases.
    fn reduce_expression_to_alias(_validated_expression: &Expression) -> (r: Option<String>)
        ensures
            r is None,
    {
        None
    }

    /// Leaves the innermost scope, recording the allocation of each of its
    /// variables for the current function.
    fn leave_scope(&mut self) -> (r: Result<(), ValidateError>)
        requires
            old(self).well_formed(),
            old(self)@.scopes.num_scopes > 0,
        ensures
            final(self).well_formed(),
            final(self)@ == leave_scope(old(self)@).0,
            done_view(r) == leave_scope(old(self)@).1,
    {
        let ghost c0 = self@;
        let ghost names = c0.scopes.orders.last();
        let ghost vars = c0.scopes.scopes.last();
        let scope = self.scopes.pop_scope();
        let entries = scope.into_variables();
        let ghost start = self.allocations@;
        assert(start == c0.allocations);
        let mut k: usize = 0;
        while k < entries.len()
            invariant
                self.well_formed(),
                k <= entries@.len(),
                crate::assoc::distinct_keys(entries@),
                super::variable_views(crate::assoc::entries_map(entries@)) == vars,
                crate::assoc::keys_of(entries@) == names,
                self@ == (ContextV { scopes: super::check::left(c0.scopes), allocations: self@.allocations, ..c0 }),
                recorded(start, c0.current_function_name, names.take(k as int), vars) == (self@.allocations, Ok::<(), ValidateErrorV>(())),
                start == c0.allocations,
                names == c0.scopes.orders.last(),
                vars == c0.scopes.scopes.last(),
                names.len() == entries@.len(),
                self.current_function_name@ == c0.current_function_name,
                c0 == old(self)@,
            decreases entries@.len() - k,
        {
            proof {
                crate::assoc::lemma_entries_map_at(entries@, k as int);
                assert(names.take(k + 1).drop_last() =~= names.take(k as int));
                assert(names[k as int] == entries@[k as int].0@);
            }
            let ghost before = self@;
            let result = self.allocations.insert(
                self.current_function_name.clone(),
                entries[k].0.clone(),
                entries[k].1.memory_usage.duplicate(),
            );
            proof {
                assert(self@ =~= ContextV { allocations: self.allocations@, ..before });
            }
            match result {
                Err(m) => {
                    proof {
                        let tk = names.take(k + 1);
                        assert(tk.last() == names[k as int]);
                        assert(vars[names[k as int]].memory_usage == entries@[k as int].1.memory_usage@);
                        assert(recorded(start, c0.current_function_name, tk, vars) == (self@.allocations,
                            Err::<(), ValidateErrorV>(ValidateErrorV::Invalid(m@))));
                        lemma_recorded_stays(start, c0.current_function_name, names, vars, k + 1);
                    }
                    return Err(invalid(m));
                },
                Ok(()) => {},
            }
            k += 1;
        }
        assert(names.take(k as int) =~= names);
        Ok(())
    }

    /// The call that the custom operators make of `pattern`: the last
    /// operator with that pattern wins.
    fn find_operator(&self, pattern: &Vec<Token>, Ghost(args): Ghost<Seq<Node<ExpressionV>>>) -> (r: Result<Option<(String, Type)>, String>)
        requires
            self.well_formed(),
        ensures
            match r {
                Err(m) => operator_call(self@, token_views(pattern@), args, self@.operators.len()) == Err::<Option<ExpressionV>, Seq<char>>(m@),
                Ok(None) => operator_call(self@, token_views(pattern@), args, self@.operators.len()) == Ok::<Option<ExpressionV>, Seq<char>>(None),
                Ok(Some(found)) => operator_call(self@, token_views(pattern@), args, self@.operators.len())
                    == Ok::<Option<ExpressionV>, Seq<char>>(Some(ExpressionV::FunctionCall { name: found.0@, inputs: args, ty: found.1@ })),
            },
    {
        let ghost p = token_views(pattern@);
        let mut found: Option<(String, Type)> = None;
        let mut k: usize = 0;
        while k < self.operators.len()
            invariant
                self.well_formed(),
                k <= self.operators@.len(),
                self@.operators.len() == self.operators@.len(),
                p == token_views(pattern@),
                match found {
                    None => operator_call(self@, p, args, k as nat) == Ok::<Option<ExpressionV>, Seq<char>>(None),
                    Some(f) => operator_call(self@, p, args, k as nat)
                        == Ok::<Option<ExpressionV>, Seq<char>>(Some(ExpressionV::FunctionCall { name: f.0@, inputs: args, ty: f.1@ })),
                },
            decreases self.operators@.len() - k,
        {
            assert(self@.operators[k as int] == (token_views(self.operators@[k as int].0@), self.operators@[k as int].1@));
            if tokens_equal(&self.operators[k].0, pattern) {
                match self.functions.get_unchecked_function_definition(&self.operators[k].1) {
                    Ok(def) => {
                        found = Some((self.operators[k].1.clone(), def.return_type.duplicate()));
                    },
                    Err(m) => {
                        proof {
                            lemma_operator_call_stays(self@, p, args, (k + 1) as nat, self@.operators.len());
                        }
                        return Err(m);
                    },
                }
            }
            k += 1;
        }
        Ok(found)
    }

    /// The fields of the struct named `key` that `fields` does not give, in
    /// declaration order.
    fn missing_field_names(&self, key: &String, fields: &Vec<(String, Node<Expression>)>, Ghost(fs0): Ghost<Seq<(Seq<char>, Node<ExpressionV>)>>) -> (r: Vec<String>)
        requires
            self.well_formed(),
            self@.structs.contains_key(key@),
            fs0.len() == fields@.len(),
            forall|j: int| 0 <= j < fs0.len() ==> #[trigger] fs0[j].0 == fields@[j].0@,
        ensures
            r@.map_values(|n: String| n@) == missing_fields(self@.structs[key@], fs0),
    {
        let def = self.structs.get(key).unwrap();
        let ghost order = self@.structs[key@].order;
        let ghost given = given_names(fs0);
        assert(order == crate::assoc::keys_of(def.fields.entry_seq()));
        let mut missing: Vec<String> = Vec::new();
        let mut k: usize = 0;
        while k < def.fields.len()
            invariant
                k <= def.fields.entry_seq().len(),
                order == crate::assoc::keys_of(def.fields.entry_seq()),
                given == given_names(fs0),
                fs0.len() == fields@.len(),
                forall|j: int| 0 <= j < fs0.len() ==> #[trigger] fs0[j].0 == fields@[j].0@,
                missing@.map_values(|n: String| n@) == missing_names(order.take(k as int), given),
            decreases def.fields.entry_seq().len() - k,
        {
            let name = &def.fields.entry(k).0;
            let mut present = false;
            let mut j: usize = 0;
            while j < fields.len()
                invariant
                    j <= fields@.len(),
                    fs0.len() == fields@.len(),
                    forall|q: int| 0 <= q < fs0.len() ==> #[trigger] fs0[q].0 == fields@[q].0@,
                    given == given_names(fs0),
                    present == exists|q: int| 0 <= q < j && given[q] == name@,
                decreases fields@.len() - j,
            {
                assert(given[j as int] == fields@[j as int].0@);
                if fields[j].0 == *name {
                    present = true;
                }
                j += 1;
            }
            proof {
                assert(order.take(k + 1).drop_last() =~= order.take(k as int));
                assert(order[k as int] == name@);
                if present {
                    let q = choose|q: int| 0 <= q < j && given[q] == name@;
                    assert(given.contains(name@));
                } else {
                    assert(!given.contains(name@));
                }
            }
            if !present {
                missing.push(name.clone());
            }
            proof {
                assert(missing@.map_values(|n: String| n@) =~= missing_names(order.take(k + 1), given));
            }
            k += 1;
        }
        assert(order.take(k as int) =~= order);
        missing
    }

    /// Validates a list of inputs of a call, in order, collecting their types.
    fn check_inputs(&mut self, inputs: Vec<Node<Expression>>, Ghost(whole): Ghost<nat>) -> (out: (Vec<Node<Expression>>, Result<Vec<Type>, ValidateError>))
        requires
            old(self).well_formed(),
            inputs_size(input_views(inputs@)) < whole,
        ensures
            final(self).well_formed(),
            final(self)@ == check_inputs(old(self)@, input_views(inputs@), inputs@.len()).0,
            input_views(out.0@) == check_inputs(old(self)@, input_views(inputs@), inputs@.len()).1,
            match out.1 {
                Ok(ts) => check_inputs(old(self)@, input_views(inputs@), inputs@.len()).2
                    == Ok::<Seq<TypeV>, ValidateErrorV>(ts@.map_values(|t: Type| t@)),
                Err(e) => check_inputs(old(self)@, input_views(inputs@), inputs@.len()).2
                    == Err::<Seq<TypeV>, ValidateErrorV>(e@),
            },
            inputs_size(input_views(out.0@)) <= inputs_size(input_views(inputs@)),
            final(self)@.structs == old(self)@.structs,
            out.1 is Ok ==> final(self)@.scopes.num_scopes == old(self)@.scopes.num_scopes,
        decreases whole, 0nat,
    {
        let ghost c0 = self@;
        let ghost ins0 = input_views(inputs@);
        let mut list = inputs;
        let mut types: Vec<Type> = Vec::new();
        let mut i: usize = 0;
        proof {
            assert(types@.map_values(|t: Type| t@) =~= Seq::<TypeV>::empty());
        }
        while i < list.len()
            invariant
                self.well_formed(),
                i <= list@.len(),
                list@.len() == ins0.len(),
                inputs_size(ins0) < whole,
                c0 == old(self)@,
                ins0 == input_views(inputs@),
                input_views(list@) == check_inputs(c0, ins0, i as nat).1,
                check_inputs(c0, ins0, i as nat).0 == self@,
                check_inputs(c0, ins0, i as nat).2 == Ok::<Seq<TypeV>, ValidateErrorV>(types@.map_values(|t: Type| t@)),
                inputs_size(input_views(list@)) <= inputs_size(ins0),
                self@.structs == c0.structs,
                self@.scopes.num_scopes == c0.scopes.num_scopes,
            decreases list@.len() - i,
        {
            proof {
                lemma_inputs_frame(c0, ins0, i as nat);
                lemma_input_size(ins0, i as int);
                assert(input_views(list@)[i as int] == ins0[i as int]);
            }
            let ghost before = input_views(list@);
            let ghost prev = check_inputs(c0, ins0, i as nat);
            let node = list.remove(i);
            assert(expr_node_view(node) == ins0[i as int]);
            let span = node.span;
            let ghost self_before = self@;
            let (x, r) = self.check_expression(node.item, Ghost((whole - 1) as nat));
            proof {
                reveal(check_expr);
                let xs = check_expr(prev.0, ins0[i as int].item);
                assert(prev.0 == self_before);
                assert(xs.0 == self@);
                assert(xs.1 == x@);
                assert(prev.2 is Ok);
                assert(((i + 1) as nat) - 1 == i);
                assert(check_inputs(c0, ins0, (i + 1) as nat).0 == xs.0);
            }
            list.insert(i, Node { item: x, span });
            proof {
                assert(input_views(list@) =~= before.update(i as int, Node { item: x@, span }));
                lemma_inputs_update(before, i as int, Node { item: x@, span });
            }
            match r {
                Err(e) => {
                    proof {
                        assert(check_inputs(c0, ins0, (i + 1) as nat) == (self@, input_views(list@), Err::<Seq<TypeV>, ValidateErrorV>(e@)));
                        lemma_inputs_stays(c0, ins0, (i + 1) as nat, ins0.len());
                    }
                    return (list, Err(e));
                },
                Ok(t) => {
                    let ghost tv = t@;
                    types.push(t);
                    proof {
                        assert(types@.map_values(|t: Type| t@) =~= check_inputs(c0, ins0, i as nat).2->Ok_0.push(tv));
                    }
                },
            }
            i += 1;
        }
        (list, Ok(types))
    }

    /// Validates an expression, filling in its types.
    #[verifier::spinoff_prover]
    #[verifier::rlimit(100)]
    fn check_expression(&mut self, e: Expression, Ghost(whole): Ghost<nat>) -> (out: (Expression, Result<Type, ValidateError>))
        requires
            old(self).well_formed(),
            expr_size(e@) <= whole,
        ensures
            final(self).well_formed(),
            final(self)@ == check_expr(old(self)@, e@).0,
            out.0@ == check_expr(old(self)@, e@).1,
            checked_view(out.1) == check_expr(old(self)@, e@).2,
            expr_size(out.0@) <= expr_size(e@),
            final(self)@.structs == old(self)@.structs,
            out.1 is Ok ==> final(self)@.scopes.num_scopes == old(self)@.scopes.num_scopes,
        decreases whole, 2nat,
    {
        reveal(check_expr);
        let ghost c0 = self@;
        let ghost ev = e@;
        match e {
            Expression::BinaryExpression { lhs, op, rhs, ty } => self.check_binary(lhs, op, rhs, ty, Ghost(whole)),
            Expression::UnaryExpression { op, expr, ty } => self.check_unary(op, expr, ty, Ghost(whole)),
            Expression::FieldConstructor { ty, fields } => self.check_constructor(ty, fields, Ghost(whole)),
            Expression::FieldAccess { base_expr, field, ty } => self.check_access(base_expr, field, ty, Ghost(whole)),
            Expression::FunctionCall { name, inputs, ty } => self.check_call(name, inputs, ty, Ghost(whole)),
            Expression::Block(b) => {
                if self.scopes.depth() == usize::MAX {
                    return (Expression::Block(b), Err(fatal("attempt to add with overflow")));
                }
                let ghost before = self@;
                self.scopes.push_scope();
                proof {
                    assert(self@ =~= ContextV { scopes: entered(before.scopes), ..before });
                }
                let (b1, rb) = self.check_block_value(b, false, Ghost((whole - 1) as nat));
                let t = match rb {
                    Err(x) => {
                        return (Expression::Block(b1), Err(x));
                    },
                    Ok(t) => t,
                };
                match self.leave_scope() {
                    Err(x) => (Expression::Block(b1), Err(x)),
                    Ok(()) => (Expression::Block(b1), Ok(t)),
                }
            },
            Expression::Literal { value, ty } => {
                let t = ty.duplicate();
                (Expression::Literal { value, ty }, Ok(t))
            },
            Expression::Ident { name, ty } => {
                let t = match self.scopes.get_variable(&name) {
                    Err(m) => {
                        return (Expression::Ident { name, ty }, Err(invalid(m)));
                    },
                    Ok(v) => v.ty.duplicate(),
                };
                let t2 = t.duplicate();
                (Expression::Ident { name, ty: t2 }, Ok(t))
            },
        }
    }

    /// Validates a binary expression; a custom operator is replaced by a call of its function.
    #[verifier::spinoff_prover]
    #[verifier::rlimit(100)]
    fn check_binary(&mut self, lhs: Box<Node<Expression>>, op: Node<BinaryOp>, rhs: Box<Node<Expression>>, ty: Type, Ghost(whole): Ghost<nat>) -> (out: (Expression, Result<Type, ValidateError>))
        requires
            old(self).well_formed(),
            expr_size(expr_view(Expression::BinaryExpression { lhs, op, rhs, ty })) <= whole,
        ensures
            final(self).well_formed(),
            final(self)@ == check_expr(old(self)@, expr_view(Expression::BinaryExpression { lhs, op, rhs, ty })).0,
            out.0@ == check_expr(old(self)@, expr_view(Expression::BinaryExpression { lhs, op, rhs, ty })).1,
            checked_view(out.1) == check_expr(old(self)@, expr_view(Expression::BinaryExpression { lhs, op, rhs, ty })).2,
            expr_size(out.0@) <= expr_size(expr_view(Expression::BinaryExpression { lhs, op, rhs, ty })),
            final(self)@.structs == old(self)@.structs,
            out.1 is Ok ==> final(self)@.scopes.num_scopes == old(self)@.scopes.num_scopes,
        decreases whole, 1nat,
    {
        reveal(check_expr);
        let ghost c0 = self@;
        let ghost ev = expr_view(Expression::BinaryExpression { lhs, op, rhs, ty });
        let lhs = *lhs;
        let rhs = *rhs;
        let lspan = lhs.span;
        let rspan = rhs.span;
        let (l1, rl) = self.check_expression(lhs.item, Ghost((whole - 1) as nat));
        let lt = match rl {
            Err(x) => {
                return (Expression::BinaryExpression { lhs: Box::new(Node { item: l1, span: lspan }), op, rhs: Box::new(rhs), ty }, Err(x));
            },
            Ok(t) => t,
        };
        let (r1, rr) = self.check_expression(rhs.item, Ghost((whole - 1) as nat));
        let rt = match rr {
            Err(x) => {
                return (Expression::BinaryExpression { lhs: Box::new(Node { item: l1, span: lspan }), op, rhs: Box::new(Node { item: r1, span: rspan }), ty }, Err(x));
            },
            Ok(t) => t,
        };
        match self.types.assert_valid(&lt) {
            Err(m) => {
                return (Expression::BinaryExpression { lhs: Box::new(Node { item: l1, span: lspan }), op, rhs: Box::new(Node { item: r1, span: rspan }), ty }, Err(invalid(m)));
            },
            Ok(()) => {},
        }
        match self.types.assert_valid(&rt) {
            Err(m) => {
                return (Expression::BinaryExpression { lhs: Box::new(Node { item: l1, span: lspan }), op, rhs: Box::new(Node { item: r1, span: rspan }), ty }, Err(invalid(m)));
            },
            Ok(()) => {},
        }
        match &op.item {
            BinaryOp::Custom(pattern) => {
                let ghost args = seq![Node { item: l1@, span: lspan }, Node { item: r1@, span: rspan }];
                match self.find_operator(pattern, Ghost(args)) {
                    Err(m) => {
                        return (Expression::BinaryExpression { lhs: Box::new(Node { item: l1, span: lspan }), op, rhs: Box::new(Node { item: r1, span: rspan }), ty }, Err(invalid(m)));
                    },
                    Ok(None) => {
                        let mut m = copy_str("Binary operator `");
                        let shown = tokens_debug_string(pattern);
                        m.append(shown.as_str());
                        m.append("` is not defined");
                        return (Expression::BinaryExpression { lhs: Box::new(Node { item: l1, span: lspan }), op, rhs: Box::new(Node { item: r1, span: rspan }), ty }, Err(invalid(m)));
                    },
                    Ok(Some((name, rty))) => {
                        let mut inputs: Vec<Node<Expression>> = Vec::new();
                        inputs.push(Node { item: l1, span: lspan });
                        inputs.push(Node { item: r1, span: rspan });
                        proof {
                            assert(input_views(inputs@) =~= args);
                            lemma_inputs_size_two(args[0], args[1]);
                            assert(args =~= seq![args[0], args[1]]);
                            lemma_call_view(name, inputs, rty);
                        }
                        let call = Expression::FunctionCall { name, inputs, ty: rty };
                        return self.check_expression(call, Ghost((whole - 1) as nat));
                    },
                }
            },
            BinaryOp::Add => {
                if lt.is_numeric() && rt.same_as(&lt) {
                    return (Expression::BinaryExpression { lhs: Box::new(Node { item: l1, span: lspan }), op, rhs: Box::new(Node { item: r1, span: rspan }), ty: rt }, Ok(lt));
                }
                return (Expression::BinaryExpression { lhs: Box::new(Node { item: l1, span: lspan }), op, rhs: Box::new(Node { item: r1, span: rspan }), ty }, Err(todo_error("Convert `+` to `std::ops::add(LType, RType)` call")));
            },
            BinaryOp::Multiply => {
                if lt.is_numeric() && rt.same_as(&lt) {
                    return (Expression::BinaryExpression { lhs: Box::new(Node { item: l1, span: lspan }), op, rhs: Box::new(Node { item: r1, span: rspan }), ty: rt }, Ok(lt));
                }
                return (Expression::BinaryExpression { lhs: Box::new(Node { item: l1, span: lspan }), op, rhs: Box::new(Node { item: r1, span: rspan }), ty }, Err(todo_error("Convert `*` to `std::ops::multiply(LType, RType)` call")));
            },
            _ => {
                return (Expression::BinaryExpression { lhs: Box::new(Node { item: l1, span: lspan }), op, rhs: Box::new(Node { item: r1, span: rspan }), ty }, Err(fatal("not yet implemented")));
            },
        }
    }

    /// Validates a unary expression; a custom operator is replaced by a call of its function.
    #[verifier::spinoff_prover]
    #[verifier::rlimit(100)]
    fn check_unary(&mut self, op: Node<UnaryOp>, expr: Box<Node<Expression>>, ty: Type, Ghost(whole): Ghost<nat>) -> (out: (Expression, Result<Type, ValidateError>))
        requires
            old(self).well_formed(),
            expr_size(expr_view(Expression::UnaryExpression { op, expr, ty })) <= whole,
        ensures
            final(self).well_formed(),
            final(self)@ == check_expr(old(self)@, expr_view(Expression::UnaryExpression { op, expr, ty })).0,
            out.0@ == check_expr(old(self)@, expr_view(Expression::UnaryExpression { op, expr, ty })).1,
            checked_view(out.1) == check_expr(old(self)@, expr_view(Expression::UnaryExpression { op, expr, ty })).2,
            expr_size(out.0@) <= expr_size(expr_view(Expression::UnaryExpression { op, expr, ty })),
            final(self)@.structs == old(self)@.structs,
            out.1 is Ok ==> final(self)@.scopes.num_scopes == old(self)@.scopes.num_scopes,
        decreases whole, 1nat,
    {
        reveal(check_expr);
        let ghost c0 = self@;
        let ghost ev = expr_view(Expression::UnaryExpression { op, expr, ty });
        let expr = *expr;
        let span = expr.span;
        let (x1, rx) = self.check_expression(expr.item, Ghost((whole - 1) as nat));
        let t = match rx {
            Err(x) => {
                return (Expression::UnaryExpression { op, expr: Box::new(Node { item: x1, span }), ty }, Err(x));
            },
            Ok(t) => t,
        };
        match self.types.assert_valid(&t) {
            Err(m) => {
                return (Expression::UnaryExpression { op, expr: Box::new(Node { item: x1, span }), ty }, Err(invalid(m)));
            },
            Ok(()) => {},
        }
        match &op.item {
            UnaryOp::Custom(pattern) => {
                let ghost args = seq![Node { item: x1@, span }];
                match self.find_operator(pattern, Ghost(args)) {
                    Err(m) => {
                        return (Expression::UnaryExpression { op, expr: Box::new(Node { item: x1, span }), ty }, Err(invalid(m)));
                    },
                    Ok(None) => {
                        let mut m = copy_str("Unary operator `");
                        let shown = tokens_debug_string(pattern);
                        m.append(shown.as_str());
                        m.append("` is not defined");
                        return (Expression::UnaryExpression { op, expr: Box::new(Node { item: x1, span }), ty }, Err(invalid(m)));
                    },
                    Ok(Some((name, rty))) => {
                        let mut inputs: Vec<Node<Expression>> = Vec::new();
                        inputs.push(Node { item: x1, span });
                        proof {
                            assert(input_views(inputs@) =~= args);
                            lemma_inputs_size_one(args[0]);
                            assert(args =~= seq![args[0]]);
                            lemma_call_view(name, inputs, rty);
                        }
                        let call = Expression::FunctionCall { name, inputs, ty: rty };
                        return self.check_expression(call, Ghost((whole - 1) as nat));
                    },
                }
            },
            UnaryOp::Negate => {
                if t.is_signed_integer() || t.is_float() {
                    let t2 = t.duplicate();
                    return (Expression::UnaryExpression { op, expr: Box::new(Node { item: x1, span }), ty: t2 }, Ok(t));
                }
                return (Expression::UnaryExpression { op, expr: Box::new(Node { item: x1, span }), ty }, Err(todo_error("Convert `-` to `std::ops::negate(T)` call")));
            },
            UnaryOp::Not => {
                if let Type::bool = t {
                    let t2 = t.duplicate();
                    return (Expression::UnaryExpression { op, expr: Box::new(Node { item: x1, span }), ty: t2 }, Ok(t));
                }
                return (Expression::UnaryExpression { op, expr: Box::new(Node { item: x1, span }), ty }, Err(todo_error("Convert `!` to `std::ops::not(T)` call")));
            },
        }
    }

    /// Validates a field constructor: every field of the struct is given once with a value of its type.
    #[verifier::spinoff_prover]
    #[verifier::rlimit(100)]
    fn check_constructor(&mut self, ty: Type, fields: Vec<(String, Node<Expression>)>, Ghost(whole): Ghost<nat>) -> (out: (Expression, Result<Type, ValidateError>))
        requires
            old(self).well_formed(),
            expr_size(expr_view(Expression::FieldConstructor { ty, fields })) <= whole,
        ensures
            final(self).well_formed(),
            final(self)@ == check_expr(old(self)@, expr_view(Expression::FieldConstructor { ty, fields })).0,
            out.0@ == check_expr(old(self)@, expr_view(Expression::FieldConstructor { ty, fields })).1,
            checked_view(out.1) == check_expr(old(self)@, expr_view(Expression::FieldConstructor { ty, fields })).2,
            expr_size(out.0@) <= expr_size(expr_view(Expression::FieldConstructor { ty, fields })),
            final(self)@.structs == old(self)@.structs,
            out.1 is Ok ==> final(self)@.scopes.num_scopes == old(self)@.scopes.num_scopes,
        decreases whole, 1nat,
    {
        reveal(check_expr);
        let ghost c0 = self@;
        let ghost ev = expr_view(Expression::FieldConstructor { ty, fields });
        proof {
            lemma_constructor_view(ty, fields);
        }
        match self.types.assert_valid(&ty) {
            Err(m) => {
                return (Expression::FieldConstructor { ty, fields }, Err(invalid(m)));
            },
            Ok(()) => {},
        }
        let key = ty.to_display_string();
        if !self.structs.contains_key(&key) {
            let m = around_type("No type `", &ty, "` compatible with field constructor");
            return (Expression::FieldConstructor { ty, fields }, Err(invalid(m)));
        }
        let ghost def = self@.structs[key@];
        let ghost fs0 = field_views(fields@);
        let mut list = fields;
        let mut i: usize = 0;
        while i < list.len()
            invariant
                self.well_formed(),
                i <= list@.len(),
                list@.len() == fs0.len(),
                fields_size(fs0) < whole,
                c0 == old(self)@,
                ev == (ExpressionV::FieldConstructor { ty: ty@, fields: fs0 }),
                ev == expr_view(Expression::FieldConstructor { ty, fields }),
                first_invalid(c0.types, ty@) is None,
                self@.structs == c0.structs,
                c0.structs.contains_key(key@),
                key@ == super::types::type_display(ty@),
                def == c0.structs[key@],
                field_views(list@) == check_fields(c0, ty@, def, fs0, i as nat).1,
                check_fields(c0, ty@, def, fs0, i as nat).0 == self@,
                check_fields(c0, ty@, def, fs0, i as nat).2 == Ok::<(), ValidateErrorV>(()),
                fields_size(field_views(list@)) <= fields_size(fs0),
                self@.scopes.num_scopes == c0.scopes.num_scopes,
            decreases list@.len() - i,
        {
            proof {
                reveal(check_expr);
                lemma_fields_frame(c0, ty@, def, fs0, i as nat);
                lemma_field_size(fs0, i as int);
                assert(field_views(list@)[i as int] == fs0[i as int]);
            }
            let field_ty = {
                let d = self.structs.get(&key).unwrap();
                assert(d@ == def);
                match d.fields.get(&list[i].0) {
                    Some(f) => {
                        assert(def.fields[list@[i as int].0@] == f@);
                        f.ty.duplicate()
                    },
                    None => {
                        let mut m = around_type("Type `", &ty, "` has no field `");
                        m.append(list[i].0.as_str());
                        m.append("`");
                        proof {
                            reveal(check_expr);
                            assert(!def.fields.contains_key(fs0[i as int].0));
                            assert(check_fields(c0, ty@, def, fs0, (i + 1) as nat) == (self@, field_views(list@),
                                Err::<(), ValidateErrorV>(ValidateErrorV::Invalid(m@))));
                            lemma_fields_stays(c0, ty@, def, fs0, (i + 1) as nat, fs0.len());
                            lemma_constructor_view(ty, list);
                            assert(check_expr(c0, ev) == (self@, ExpressionV::FieldConstructor { ty: ty@, fields: field_views(list@) },
                                Err::<TypeV, ValidateErrorV>(ValidateErrorV::Invalid(m@))));
                        }
                        return (Expression::FieldConstructor { ty, fields: list }, Err(invalid(m)));
                    },
                }
            };
            let ghost before = field_views(list@);
            let (name, node) = list.remove(i);
            let span = node.span;
            let (x, r) = self.check_expression(node.item, Ghost((whole - 1) as nat));
            let ghost entry = (name@, Node { item: x@, span });
            let ghost nm = name@;
            match r {
                Err(err) => {
                    list.insert(i, (name, Node { item: x, span }));
                    proof {
                        reveal(check_expr);
                        assert(field_views(list@) =~= before.update(i as int, entry));
                        lemma_fields_update(before, i as int, entry);
                        lemma_fields_stays(c0, ty@, def, fs0, (i + 1) as nat, fs0.len());
                        lemma_constructor_view(ty, list);
                    }
                    return (Expression::FieldConstructor { ty, fields: list }, Err(err));
                },
                Ok(t) => {
                    if !t.same_as(&field_ty) {
                        let mut m = around_type("Field `", &ty, ".");
                        m.append(name.as_str());
                        let tail = around_type("` is of type `", &field_ty, "`, but found type `");
                        m.append(tail.as_str());
                        let shown = t.to_display_string();
                        m.append(shown.as_str());
                        m.append("`");
                        list.insert(i, (name, Node { item: x, span }));
                        proof {
                            reveal(check_expr);
                            assert(field_views(list@) =~= before.update(i as int, entry));
                            lemma_fields_update(before, i as int, entry);
                            lemma_fields_stays(c0, ty@, def, fs0, (i + 1) as nat, fs0.len());
                            lemma_constructor_view(ty, list);
                            assert(m@ == super::check::field_value_message(ty@, nm, def.fields[nm].ty, t@));
                        }
                        return (Expression::FieldConstructor { ty, fields: list }, Err(invalid(m)));
                    }
                    list.insert(i, (name, Node { item: x, span }));
                    proof {
                        reveal(check_expr);
                        assert(field_views(list@) =~= before.update(i as int, entry));
                        lemma_fields_update(before, i as int, entry);
                    }
                },
            }
            i += 1;
        }
        proof {
            lemma_constructor_view(ty, list);
            lemma_fields_frame(c0, ty@, def, fs0, fs0.len());
            assert forall|j: int| 0 <= j < fs0.len() implies #[trigger] fs0[j].0 == list@[j].0@ by {
                assert(field_views(list@)[j].0 == list@[j].0@);
            }
        }
        let missing = self.missing_field_names(&key, &list, Ghost(fs0));
        if missing.len() > 0 {
            let mut m = around_type("Constructor for type `", &ty, "` is missing fields: ");
            let mut k: usize = 0;
            let ghost ms = missing@.map_values(|n: String| n@);
            while k < missing.len()
                invariant
                    k <= missing@.len(),
                    ms == missing@.map_values(|n: String| n@),
                    m@ == "Constructor for type `"@ + super::types::type_display(ty@) + "` is missing fields: "@ + quoted_list(ms.take(k as int)),
                decreases missing@.len() - k,
            {
                proof {
                    assert(ms.take(k + 1).drop_last() =~= ms.take(k as int));
                    if k == 0 {
                        assert(ms.take(1) =~= seq![ms[0]]);
                    }
                }
                let ghost before = m@;
                if k > 0 {
                    m.append(", `");
                } else {
                    m.append("`");
                }
                m.append(missing[k].as_str());
                m.append("`");
                proof {
                    let prefix = "Constructor for type `"@ + super::types::type_display(ty@) + "` is missing fields: "@;
                    if k > 0 {
                        assert(m@ =~= prefix + (quoted_list(ms.take(k as int)) + ", `"@ + ms[k as int] + "`"@));
                    } else {
                        assert(quoted_list(ms.take(0)) =~= Seq::<char>::empty());
                        assert(m@ =~= prefix + ("`"@ + ms[k as int] + "`"@));
                    }
                }
                k += 1;
            }
            assert(ms.take(k as int) =~= ms);
            return (Expression::FieldConstructor { ty, fields: list }, Err(invalid(m)));
        }
        let t = ty.duplicate();
        (Expression::FieldConstructor { ty, fields: list }, Ok(t))
    }

    /// Validates a field access: the field must exist and be public.
    #[verifier::spinoff_prover]
    #[verifier::rlimit(100)]
    fn check_access(&mut self, base_expr: Box<Node<Expression>>, field: String, ty: Type, Ghost(whole): Ghost<nat>) -> (out: (Expression, Result<Type, ValidateError>))
        requires
            old(self).well_formed(),
            expr_size(expr_view(Expression::FieldAccess { base_expr, field, ty })) <= whole,
        ensures
            final(self).well_formed(),
            final(self)@ == check_expr(old(self)@, expr_view(Expression::FieldAccess { base_expr, field, ty })).0,
            out.0@ == check_expr(old(self)@, expr_view(Expression::FieldAccess { base_expr, field, ty })).1,
            checked_view(out.1) == check_expr(old(self)@, expr_view(Expression::FieldAccess { base_expr, field, ty })).2,
            expr_size(out.0@) <= expr_size(expr_view(Expression::FieldAccess { base_expr, field, ty })),
            final(self)@.structs == old(self)@.structs,
            out.1 is Ok ==> final(self)@.scopes.num_scopes == old(self)@.scopes.num_scopes,
        decreases whole, 1nat,
    {
        reveal(check_expr);
        let ghost c0 = self@;
        let ghost ev = expr_view(Expression::FieldAccess { base_expr, field, ty });
        let base = *base_expr;
        let span = base.span;
        let (b1, rb) = self.check_expression(base.item, Ghost((whole - 1) as nat));
        let bt = match rb {
            Err(x) => {
                return (Expression::FieldAccess { base_expr: Box::new(Node { item: b1, span }), field, ty }, Err(x));
            },
            Ok(t) => t,
        };
        match self.is_field_public(&bt, &field) {
            Err(x) => {
                return (Expression::FieldAccess { base_expr: Box::new(Node { item: b1, span }), field, ty }, Err(x));
            },
            Ok(false) => {
                let mut m = copy_str("Field `");
                m.append(field.as_str());
                let tail = around_type("` of `", &bt, "` is private");
                m.append(tail.as_str());
                assert(m@ =~= super::check::private_field_message(field@, bt@));
                return (Expression::FieldAccess { base_expr: Box::new(Node { item: b1, span }), field, ty }, Err(invalid(m)));
            },
            Ok(true) => {},
        }
        match self.get_field_type(&bt, &field) {
            Err(x) => (Expression::FieldAccess { base_expr: Box::new(Node { item: b1, span }), field, ty }, Err(x)),
            Ok(ft) => {
                let t2 = ft.duplicate();
                (Expression::FieldAccess { base_expr: Box::new(Node { item: b1, span }), field, ty: t2 }, Ok(ft))
            },
        }
    }

    /// Validates a call: the function exists and takes inputs of the given types.
    #[verifier::loop_isolation(false)]
    #[verifier::spinoff_prover]
    #[verifier::rlimit(100)]
    fn check_call(&mut self, name: String, inputs: Vec<Node<Expression>>, ty: Type, Ghost(whole): Ghost<nat>) -> (out: (Expression, Result<Type, ValidateError>))
        requires
            old(self).well_formed(),
            expr_size(expr_view(Expression::FunctionCall { name, inputs, ty })) <= whole,
        ensures
            final(self).well_formed(),
            final(self)@ == check_expr(old(self)@, expr_view(Expression::FunctionCall { name, inputs, ty })).0,
            out.0@ == check_expr(old(self)@, expr_view(Expression::FunctionCall { name, inputs, ty })).1,
            checked_view(out.1) == check_expr(old(self)@, expr_view(Expression::FunctionCall { name, inputs, ty })).2,
            expr_size(out.0@) <= expr_size(expr_view(Expression::FunctionCall { name, inputs, ty })),
            final(self)@.structs == old(self)@.structs,
            out.1 is Ok ==> final(self)@.scopes.num_scopes == old(self)@.scopes.num_scopes,
        decreases whole, 1nat,
    {
        reveal(check_expr);
        let ghost c0 = self@;
        let ghost ev = expr_view(Expression::FunctionCall { name, inputs, ty });
        proof {
            lemma_call_view(name, inputs, ty);
        }
        let ghost ins0 = input_views(inputs@);
        let (inputs, ri) = self.check_inputs(inputs, Ghost(whole));
        proof {
            lemma_call_view(name, inputs, ty);
            lemma_inputs_frame(c0, ins0, ins0.len());
            assert(inputs@.len() == ins0.len());
        }
        let given = match ri {
            Err(x) => {
                return (Expression::FunctionCall { name, inputs, ty }, Err(x));
            },
            Ok(g) => g,
        };
        let def = match self.functions.get_unchecked_function_definition(&name) {
            Err(m) => {
                return (Expression::FunctionCall { name, inputs, ty }, Err(invalid(m)));
            },
            Ok(d) => d,
        };
        if def.parameters.len() != inputs.len() {
            let mut m = copy_str("Function `");
            m.append(name.as_str());
            m.append("` accepts ");
            let p = decimal_string(def.parameters.len());
            m.append(p.as_str());
            m.append(" parameters, but ");
            let n = decimal_string(inputs.len());
            m.append(n.as_str());
            m.append(" were passed");
            return (Expression::FunctionCall { name, inputs, ty }, Err(invalid(m)));
        }
        let ghost gv = given@.map_values(|t: Type| t@);
        let ghost pv = def@.parameters;
        let mut j: usize = 0;
        while j < given.len()
            invariant
                j <= given@.len(),
                given@.len() == def.parameters@.len(),
                gv == given@.map_values(|t: Type| t@),
                pv == def@.parameters,
                pv.len() == def.parameters@.len(),
                forall|k: int| 0 <= k < pv.len() ==> #[trigger] pv[k] == (def.parameters@[k].0@, def.parameters@[k].1@, def.parameters@[k].2),
                first_mismatch(gv, pv, 0) == first_mismatch(gv, pv, j as nat),
            decreases given@.len() - j,
        {
            if !given[j].same_as(&def.parameters[j].1) {
                let mut m = copy_str("Parameter #");
                let d = decimal_string(j);
                m.append(d.as_str());
                m.append(" (`");
                m.append(def.parameters[j].0.as_str());
                m.append("`) of call to `");
                m.append(name.as_str());
                let tail = around_type("` has type `", &def.parameters[j].1, "`, but found type `");
                m.append(tail.as_str());
                let shown = given[j].to_display_string();
                m.append(shown.as_str());
                m.append("`");
                proof {
                    assert(first_mismatch(gv, pv, j as nat) == Some(j as nat));
                    assert(m@ =~= super::check::parameter_type_message(j as nat, pv[j as int].0, name@, pv[j as int].1, gv[j as int]));
                }
                return (Expression::FunctionCall { name, inputs, ty }, Err(invalid(m)));
            }
            j += 1;
        }
        let rt = def.return_type.duplicate();
        let rt2 = def.return_type.duplicate();
        (Expression::FunctionCall { name, inputs, ty: rt }, Ok(rt2))
    }

    /// Validates a block's statements in order; the type of the first
    /// implicit return is the block's type (unit if there is none).
    #[verifier::spinoff_prover]
    #[verifier::rlimit(100)]
    fn check_block_value(&mut self, b: BlockExpression, is_function_body: bool, Ghost(whole): Ghost<nat>) -> (out: (BlockExpression, Result<Type, ValidateError>))
        requires
            old(self).well_formed(),
            old(self)@.scopes.num_scopes > 0 || !declares_in_scope(b@),
            block_size(b@) <= whole,
        ensures
            final(self).well_formed(),
            final(self)@ == check_block(old(self)@, b@, is_function_body).0,
            out.0@ == check_block(old(self)@, b@, is_function_body).1,
            checked_view(out.1) == check_block(old(self)@, b@, is_function_body).2,
            block_size(out.0@) <= block_size(b@),
            final(self)@.structs == old(self)@.structs,
            out.1 is Ok ==> final(self)@.scopes.num_scopes == old(self)@.scopes.num_scopes,
        decreases whole, 1nat,
    {
        let ghost c0 = self@;
        let BlockExpression { block, ty } = b;
        proof {
            lemma_block_view(block, ty);
        }
        let span = block.span;
        let mut stmts = block.item;
        let ghost ss0 = stmt_views(stmts@);
        let mut block_type = Type::Unknown;
        let mut i: usize = 0;
        while i < stmts.len()
            invariant
                self.well_formed(),
                i <= stmts@.len(),
                stmts@.len() == ss0.len(),
                stmts_size(ss0) < whole,
                c0 == old(self)@,
                ss0 == b@.block.item,
                span == b@.block.span,
                ty@ == b@.ty,
                self@.structs == c0.structs,
                self@.scopes.num_scopes == c0.scopes.num_scopes,
                c0.scopes.num_scopes > 0 || !declares_in_scope(b@),
                stmt_views(stmts@) == check_stmts(c0, ss0, i as nat, is_function_body).1,
                check_stmts(c0, ss0, i as nat, is_function_body).0 == self@,
                check_stmts(c0, ss0, i as nat, is_function_body).2 == Ok::<TypeV, ValidateErrorV>(block_type@),
                stmts_size(stmt_views(stmts@)) <= stmts_size(ss0),
            decreases stmts@.len() - i,
        {
            proof {
                lemma_stmts_frame(c0, ss0, i as nat, is_function_body);
                lemma_stmt_size(ss0, i as int);
                assert(stmt_views(stmts@)[i as int] == ss0[i as int]);
            }
            let ghost before = stmt_views(stmts@);
            let node = stmts.remove(i);
            assert(stmt_node_view(node) == ss0[i as int]);
            let (node1, r) = self.block_step(node, block_type, is_function_body, Ghost((whole - 1) as nat));
            let ghost entry = stmt_node_view(node1);
            stmts.insert(i, node1);
            proof {
                assert(stmt_views(stmts@) =~= before.update(i as int, entry));
                lemma_stmts_update(before, i as int, entry);
            }
            match r {
                Err(err) => {
                    proof {
                        lemma_stmts_stays(c0, ss0, (i + 1) as nat, ss0.len(), is_function_body);
                        lemma_block_view(Node { item: stmts, span }, ty);
                    }
                    return (BlockExpression { block: Node { item: stmts, span }, ty }, Err(err));
                },
                Ok(t) => {
                    block_type = t;
                },
            }
            i += 1;
        }
        if block_type.is_unknown() {
            block_type = Type::Unit;
        }
        if is_function_body && self.last_return_type.is_unknown() {
            self.last_return_type = block_type.duplicate();
        }
        let t = block_type.duplicate();
        proof {
            lemma_block_view(Node { item: stmts, span }, block_type);
        }
        (BlockExpression { block: Node { item: stmts, span }, ty: block_type }, Ok(t))
    }

    /// Validates one statement of a block, where `block_type` is the type of
    /// the first implicit return so far.
    #[verifier::spinoff_prover]
    #[verifier::rlimit(100)]
    fn block_step(&mut self, node: Node<Statement>, block_type: Type, is_function_body: bool, Ghost(whole): Ghost<nat>) -> (out: (Node<Statement>, Result<Type, ValidateError>))
        requires
            old(self).well_formed(),
            old(self)@.scopes.num_scopes > 0 || !(stmt_node_view(node).item is Let),
            stmt_size(stmt_node_view(node).item) <= whole,
        ensures
            final(self).well_formed(),
            final(self)@ == super::check::check_step(old(self)@, stmt_node_view(node), block_type@, is_function_body).0,
            stmt_node_view(out.0) == super::check::check_step(old(self)@, stmt_node_view(node), block_type@, is_function_body).1,
            checked_view(out.1) == super::check::check_step(old(self)@, stmt_node_view(node), block_type@, is_function_body).2,
            stmt_size(stmt_node_view(out.0).item) <= stmt_size(stmt_node_view(node).item),
            final(self)@.structs == old(self)@.structs,
            out.1 is Ok ==> final(self)@.scopes.num_scopes == old(self)@.scopes.num_scopes,
        decreases whole, 3nat,
    {
        reveal(check_step);
        let nspan = node.span;
        match node.item {
            Statement::ImplicitReturn { expression, is_function_return } => {
                let espan = expression.span;
                let (x, r) = self.check_expression(expression.item, Ghost((whole - 1) as nat));
                match r {
                    Err(err) => (Node { item: Statement::ImplicitReturn { expression: Node { item: x, span: espan }, is_function_return }, span: nspan }, Err(err)),
                    Ok(t) => {
                        let flag = if is_function_body { true } else { is_function_return };
                        if is_function_body {
                            if let Some(ident) = Self::reduce_expression_to_alias(&x) {
                                self.scopes.signal_return_variable(ident);
                            }
                        }
                        let st = Node { item: Statement::ImplicitReturn { expression: Node { item: x, span: espan }, is_function_return: flag }, span: nspan };
                        if block_type.is_unknown() {
                            (st, Ok(t))
                        } else if !block_type.same_as(&t) {
                            let mut m = around_type("Differing return types. Expected `", &block_type, "` but found `");
                            let shown = t.to_display_string();
                            m.append(shown.as_str());
                            m.append("`");
                            (st, Err(invalid(m)))
                        } else {
                            (st, Ok(block_type))
                        }
                    },
                }
            },
            other => {
                assert(!(stmt_view(other) is ImplicitReturn));
                let (s1, r) = self.check_statement(other, Ghost(whole));
                let verdict = match r {
                    Err(err) => Err(err),
                    Ok(()) => Ok(block_type),
                };
                (Node { item: s1, span: nspan }, verdict)
            },
        }
    }

    /// Validates a statement, filling in its types; an op-assignment
    /// `a op= b` is rewritten as `a = a op b`.
    #[verifier::spinoff_prover]
    #[verifier::rlimit(100)]
    fn check_statement(&mut self, s: Statement, Ghost(whole): Ghost<nat>) -> (out: (Statement, Result<(), ValidateError>))
        requires
            old(self).well_formed(),
            old(self)@.scopes.num_scopes > 0 || !(s@ is Let),
            stmt_size(s@) <= whole,
        ensures
            final(self).well_formed(),
            final(self)@ == check_stmt(old(self)@, s@).0,
            out.0@ == check_stmt(old(self)@, s@).1,
            done_view(out.1) == check_stmt(old(self)@, s@).2,
            stmt_size(out.0@) <= stmt_size(s@),
            final(self)@.structs == old(self)@.structs,
            out.1 is Ok ==> final(self)@.scopes.num_scopes == old(self)@.scopes.num_scopes,
        decreases whole, 1nat,
    {
        reveal(check_stmt);
        let ghost c0 = self@;
        let ghost sv = s@;
        match s {
            Statement::Let { ident, mutable, ty, value } => self.check_let(ident, mutable, ty, value, Ghost(whole)),
            Statement::Assign { lhs, operator, expression } => self.check_assign(lhs, operator, expression, Ghost(whole)),
            Statement::Return { expression } => {
                let espan = expression.span;
                let (x, r) = self.check_expression(expression.item, Ghost((whole - 1) as nat));
                let rt = match r {
                    Err(err) => {
                        return (Statement::Return { expression: Node { item: x, span: espan } }, Err(err));
                    },
                    Ok(t) => t,
                };
                if self.last_return_type.is_unknown() {
                    self.last_return_type = rt;
                } else if !self.last_return_type.same_as(&rt) {
                    let mut m = around_type("Found differing return types: `", &rt, "` and `");
                    let shown = self.last_return_type.to_display_string();
                    m.append(shown.as_str());
                    m.append("`");
                    return (Statement::Return { expression: Node { item: x, span: espan } }, Err(invalid(m)));
                }
                if let Some(ident) = Self::reduce_expression_to_alias(&x) {
                    self.scopes.signal_return_variable(ident);
                }
                (Statement::Return { expression: Node { item: x, span: espan } }, Ok(()))
            },
            Statement::ImplicitReturn { expression, is_function_return } => {
                let espan = expression.span;
                let (x, r) = self.check_expression(expression.item, Ghost((whole - 1) as nat));
                let verdict = match r {
                    Err(err) => Err(err),
                    Ok(_) => Ok(()),
                };
                (Statement::ImplicitReturn { expression: Node { item: x, span: espan }, is_function_return }, verdict)
            },
            Statement::Expression(expression) => {
                let espan = expression.span;
                let (x, r) = self.check_expression(expression.item, Ghost((whole - 1) as nat));
                let verdict = match r {
                    Err(err) => Err(err),
                    Ok(_) => Ok(()),
                };
                (Statement::Expression(Node { item: x, span: espan }), verdict)
            },
        }
    }

    /// Validates a `let` statement and declares its variable.
    #[verifier::spinoff_prover]
    #[verifier::rlimit(100)]
    fn check_let(&mut self, ident: String, mutable: bool, ty: Type, value: Option<Node<Expression>>, Ghost(whole): Ghost<nat>) -> (out: (Statement, Result<(), ValidateError>))
        requires
            old(self).well_formed(),
            old(self)@.scopes.num_scopes > 0,
            stmt_size(stmt_view(Statement::Let { ident, mutable, ty, value })) <= whole,
        ensures
            final(self).well_formed(),
            final(self)@ == check_stmt(old(self)@, stmt_view(Statement::Let { ident, mutable, ty, value })).0,
            out.0@ == check_stmt(old(self)@, stmt_view(Statement::Let { ident, mutable, ty, value })).1,
            done_view(out.1) == check_stmt(old(self)@, stmt_view(Statement::Let { ident, mutable, ty, value })).2,
            stmt_size(out.0@) <= stmt_size(stmt_view(Statement::Let { ident, mutable, ty, value })),
            final(self)@.structs == old(self)@.structs,
            out.1 is Ok ==> final(self)@.scopes.num_scopes == old(self)@.scopes.num_scopes,
        decreases whole, 0nat,
    {
        reveal(check_stmt);
        match value {
            Some(v) => {
                let vspan = v.span;
                let (x, r) = self.check_expression(v.item, Ghost((whole - 1) as nat));
                match r {
                    Err(err) => (Statement::Let { ident, mutable, ty, value: Some(Node { item: x, span: vspan }) }, Err(err)),
                    Ok(at) => {
                        let _alias = Self::reduce_expression_to_alias(&x);
                        self.let_rest(ident, mutable, ty, at, Some(Node { item: x, span: vspan }))
                    },
                }
            },
            None => {
                if ty.is_unknown() {
                    return (Statement::Let { ident, mutable, ty, value: None }, Err(todo_error("Mark variable for being inferred later on")));
                }
                let r = self.declare_variable(&ident, mutable, &ty);
                (Statement::Let { ident, mutable, ty, value: None }, r)
            },
        }
    }

    /// Whether the validated `target`, of type `dt`, may be assigned a value
    /// of type `at`.
    fn assignment_verdict(&self, target: &Expression, dt: &Type, at: &Type) -> (r: Result<(), ValidateError>)
        requires
            self.well_formed(),
        ensures
            done_view(r) == super::check::assign_verdict(self@, target@, dt@, at@),
    {
        let verdict = match target {
            Expression::FieldAccess { .. } => Ok(()),
            Expression::Ident { name, .. } => {
                match self.scopes.get_variable(name) {
                    Err(m) => Err(invalid(m)),
                    Ok(v) => {
                        if !v.mutable {
                            let mut m = copy_str("Cannot assign to immutable variable `");
                            m.append(name.as_str());
                            m.append("`");
                            Err(invalid(m))
                        } else {
                            Ok(())
                        }
                    },
                }
            },
            Expression::FunctionCall { .. } => Err(todo_error("assign to function calls if `&mut` returned?")),
            _ => Err(fatal("internal error: entered unreachable code")),
        };
        match verdict {
            Err(err) => Err(err),
            Ok(()) => {
                if !dt.same_as(at) {
                    let mut m = around_type("Tried assigning type `", dt, "` to incompatible type `");
                    let shown = at.to_display_string();
                    m.append(shown.as_str());
                    m.append("`");
                    Err(invalid(m))
                } else {
                    Ok(())
                }
            },
        }
    }

    /// The rest of a `let` once its value, of type `at`, is validated.
    fn let_rest(&mut self, ident: String, mutable: bool, ty: Type, at: Type, value: Option<Node<Expression>>) -> (out: (Statement, Result<(), ValidateError>))
        requires
            old(self).well_formed(),
            old(self)@.scopes.num_scopes > 0,
        ensures
            final(self).well_formed(),
            final(self)@ == super::check::let_tail(old(self)@, ident@, mutable, ty@, at@, option_view(value)).0,
            out.0@ == super::check::let_tail(old(self)@, ident@, mutable, ty@, at@, option_view(value)).1,
            done_view(out.1) == super::check::let_tail(old(self)@, ident@, mutable, ty@, at@, option_view(value)).2,
            final(self)@.structs == old(self)@.structs,
            final(self)@.scopes.num_scopes == old(self)@.scopes.num_scopes,
    {
        if !ty.is_unknown() && !ty.same_as(&at) {
            let mut m = copy_str("Variable `");
            m.append(ident.as_str());
            let mid = around_type("` has type `", &ty, "`, but is assigned the type `");
            m.append(mid.as_str());
            let shown = at.to_display_string();
            m.append(shown.as_str());
            m.append("`");
            assert(m@ =~= super::check::let_type_message(ident@, ty@, at@));
            return (Statement::Let { ident, mutable, ty, value }, Err(invalid(m)));
        }
        let ty1 = if ty.is_unknown() { at } else { ty };
        let r = self.declare_variable(&ident, mutable, &ty1);
        (Statement::Let { ident, mutable, ty: ty1, value }, r)
    }

    /// Validates an assignment; `a op= b` is first rewritten as `a = a op b`.
    #[verifier::spinoff_prover]
    #[verifier::rlimit(100)]
    fn check_assign(&mut self, lhs: Node<Expression>, operator: Node<AssignmentOp>, expression: Node<Expression>, Ghost(whole): Ghost<nat>) -> (out: (Statement, Result<(), ValidateError>))
        requires
            old(self).well_formed(),
            stmt_size(stmt_view(Statement::Assign { lhs, operator, expression })) <= whole,
        ensures
            final(self).well_formed(),
            final(self)@ == check_stmt(old(self)@, stmt_view(Statement::Assign { lhs, operator, expression })).0,
            out.0@ == check_stmt(old(self)@, stmt_view(Statement::Assign { lhs, operator, expression })).1,
            done_view(out.1) == check_stmt(old(self)@, stmt_view(Statement::Assign { lhs, operator, expression })).2,
            stmt_size(out.0@) <= stmt_size(stmt_view(Statement::Assign { lhs, operator, expression })),
            final(self)@.structs == old(self)@.structs,
            out.1 is Ok ==> final(self)@.scopes.num_scopes == old(self)@.scopes.num_scopes,
        decreases whole, 0nat,
    {
        reveal(check_stmt);
        let ghost sv = stmt_view(Statement::Assign { lhs, operator, expression });
        let ghost lv = expr_node_view(lhs);
        let expression = if operator.item != AssignmentOp::Assign {
            let new_op = match operator.item {
                AssignmentOp::AddAssign => BinaryOp::Add,
                AssignmentOp::SubtractAssign => BinaryOp::Subtract,
                AssignmentOp::MultiplyAssign => BinaryOp::Multiply,
                _ => BinaryOp::Divide,
            };
            let espan = expression.span;
            Node {
                item: Expression::BinaryExpression {
                    lhs: Box::new(lhs.duplicate()),
                    op: Node { item: new_op, span: operator.span },
                    rhs: Box::new(expression),
                    ty: Type::Unknown,
                },
                span: espan,
            }
        } else {
            expression
        };
        let operator = Node { item: AssignmentOp::Assign, span: operator.span };
        assert(expr_node_view(expression) == desugared(lv, sv->Assign_operator, sv->Assign_expression));
        let lspan = lhs.span;
        let (l1, rl) = self.check_expression(lhs.item, Ghost((whole - 1) as nat));
        let dt = match rl {
            Err(err) => {
                return (Statement::Assign { lhs: Node { item: l1, span: lspan }, operator, expression }, Err(err));
            },
            Ok(t) => t,
        };
        let espan = expression.span;
        let (x, ra) = self.check_expression(expression.item, Ghost((whole - 1) as nat));
        let at = match ra {
            Err(err) => {
                return (Statement::Assign { lhs: Node { item: l1, span: lspan }, operator, expression: Node { item: x, span: espan } }, Err(err));
            },
            Ok(t) => t,
        };
        let _alias = Self::reduce_expression_to_alias(&x);
        let verdict = self.assignment_verdict(&l1, &dt, &at);
        (Statement::Assign { lhs: Node { item: l1, span: lspan }, operator, expression: Node { item: x, span: espan } }, verdict)
    }

    /// Declares the variable of a `let` statement in the innermost scope.
    fn declare_variable(&mut self, name: &String, mutable: bool, ty: &Type) -> (r: Result<(), ValidateError>)
        requires
            old(self).well_formed(),
            old(self)@.scopes.num_scopes > 0,
        ensures
            final(self).well_formed(),
            final(self)@ == super::check::declare(old(self)@, name@, mutable, ty@).0,
            done_view(r) == super::check::declare(old(self)@, name@, mutable, ty@).1,
            final(self)@.structs == old(self)@.structs,
            final(self)@.scopes.num_scopes == old(self)@.scopes.num_scopes,
    {
        if self.scopes.shadows(name) {
            return Err(todo_error("Nested scope shadowing"));
        }
        let ghost before = self@;
        let r = self.scopes.add_var_to_scope(name.clone(), mutable, ty.duplicate(), MemoryUsage::StackSlot);
        proof {
            assert(self@ =~= ContextV { scopes: self.scopes@, ..before });
        }
        match r {
            Err(m) => Err(invalid(m)),
            Ok(()) => Ok(()),
        }
    }

    /// Validates an expression, filling in its types (and replacing a custom
    /// operator by a call of its function). Gives its type.
    pub fn validate_expression(&mut self, expression: &mut Expression) -> (r: Result<Type, ValidateError>)
        requires
            old(self).well_formed(),
        ensures
            final(self).well_formed(),
            final(self)@ == check_expr(old(self)@, old(expression)@).0,
            final(expression)@ == check_expr(old(self)@, old(expression)@).1,
            checked_view(r) == check_expr(old(self)@, old(expression)@).2,
    {
        let mut e = Expression::Literal { value: ast::Literal::UnitType, ty: Type::Unknown };
        std::mem::swap(&mut e, expression);
        let ghost size = expr_size(e@);
        let (checked, r) = self.check_expression(e, Ghost(size));
        *expression = checked;
        r
    }

    /// Validates a block (in the current scope), filling in its types. Gives
    /// its type.
    pub fn validate_block(&mut self, block: &mut BlockExpression, is_function_body: bool) -> (r: Result<Type, ValidateError>)
        requires
            old(self).well_formed(),
            old(self)@.scopes.num_scopes > 0 || !declares_in_scope(old(block)@),
        ensures
            final(self).well_formed(),
            final(self)@ == check_block(old(self)@, old(block)@, is_function_body).0,
            final(block)@ == check_block(old(self)@, old(block)@, is_function_body).1,
            checked_view(r) == check_block(old(self)@, old(block)@, is_function_body).2,
    {
        let mut b = BlockExpression { block: Node { item: Vec::new(), span: block.block.span }, ty: Type::Unknown };
        std::mem::swap(&mut b, block);
        let ghost size = block_size(b@);
        let (checked, r) = self.check_block_value(b, is_function_body, Ghost(size));
        *block = checked;
        r
    }

    /// Validates a statement (in the current scope), filling in its types.
    pub fn validate_statement(&mut self, statement: &mut Statement) -> (r: Result<(), ValidateError>)
        requires
            old(self).well_formed(),
            old(self)@.scopes.num_scopes > 0 || !(old(statement)@ is Let),
        ensures
            final(self).well_formed(),
            final(self)@ == check_stmt(old(self)@, old(statement)@).0,
            final(statement)@ == check_stmt(old(self)@, old(statement)@).1,
            done_view(r) == check_stmt(old(self)@, old(statement)@).2,
    {
        let mut s = Statement::Expression(Node {
            item: Expression::Literal { value: ast::Literal::UnitType, ty: Type::Unknown },
            span: crate::span::Span { start_line: 0, start_column: 0, end_line: 0, end_column: 0 },
        });
        std::mem::swap(&mut s, statement);
        let ghost size = stmt_size(s@);
        let (checked, r) = self.check_statement(s, Ghost(size));
        *statement = checked;
        r
    }

    /// Declares a function's parameters in the innermost scope.
    fn declare_parameters(&mut self, params: &Vec<Node<ast::FunctionParameter>>) -> (r: Result<(), ValidateError>)
        requires
            old(self).well_formed(),
            old(self)@.scopes.num_scopes > 0,
        ensures
            final(self).well_formed(),
            final(self)@ == super::check::declare_params(old(self)@, ast::node_views(params@), params@.len()).0,
            done_view(r) == super::check::declare_params(old(self)@, ast::node_views(params@), params@.len()).1,
            final(self)@.structs == old(self)@.structs,
            final(self)@.scopes.num_scopes == old(self)@.scopes.num_scopes,
    {
        let ghost c0 = self@;
        let ghost ps = ast::node_views(params@);
        let mut i: usize = 0;
        while i < params.len()
            invariant
                self.well_formed(),
                i <= params@.len(),
                c0 == old(self)@,
                ps == ast::node_views(params@),
                self@.structs == c0.structs,
                self@.scopes.num_scopes == c0.scopes.num_scopes,
                c0.scopes.num_scopes > 0,
                super::check::declare_params(c0, ps, i as nat) == (self@, Ok::<(), ValidateErrorV>(())),
            decreases params@.len() - i,
        {
            let p = &params[i].item;
            if self.scopes.shadows(&p.name) {
                proof {
                    super::check::lemma_declare_params_stays(c0, ps, (i + 1) as nat, ps.len());
                }
                return Err(todo_error("Nested scope shadowing"));
            }
            let ghost before = self@;
            let r = self.scopes.add_var_to_scope(p.name.clone(), p.mutable, p.ty.duplicate(), MemoryUsage::FunctionParam);
            proof {
                assert(self@ =~= ContextV { scopes: self.scopes@, ..before });
            }
            match r {
                Err(m) => {
                    proof {
                        super::check::lemma_declare_params_stays(c0, ps, (i + 1) as nat, ps.len());
                    }
                    return Err(invalid(m));
                },
                Ok(()) => {},
            }
            i += 1;
        }
        Ok(())
    }

    /// Validates a function's body, taking the function and handing it back
    /// with its types filled in.
    #[verifier::rlimit(50)]
    fn check_function(&mut self, function: ast::Function) -> (out: (ast::Function, Result<(), ValidateError>))
        requires
            old(self).well_formed(),
        ensures
            final(self).well_formed(),
            final(self)@ == super::check::check_function_body(old(self)@, function@).0,
            out.0@ == super::check::check_function_body(old(self)@, function@).1,
            done_view(out.1) == super::check::check_function_body(old(self)@, function@).2,
    {
        if self.scopes.depth() == usize::MAX {
            return (function, Err(fatal("attempt to add with overflow")));
        }
        let ghost c0 = self@;
        self.scopes.push_scope();
        proof {
            assert(self@ =~= ContextV { scopes: entered(c0.scopes), ..c0 });
        }
        match self.declare_parameters(&function.prototype.item.parameters.item) {
            Err(x) => {
                return (function, Err(x));
            },
            Ok(()) => {},
        }
        let ast::Function { prototype, body, is_public } = function;
        let bspan = body.span;
        let ghost size = block_size(body.item@);
        let (checked, rb) = self.check_block_value(body.item, true, Ghost(size));
        let function = ast::Function { prototype, body: Node { item: checked, span: bspan }, is_public };
        match rb {
            Err(x) => {
                return (function, Err(x));
            },
            Ok(_) => {},
        }
        match self.leave_scope() {
            Err(x) => {
                return (function, Err(x));
            },
            Ok(()) => {},
        }
        if self.last_return_type.same_as(&function.prototype.item.return_type) {
            self.last_return_type = Type::Unknown;
            let ghost before = self@;
            let r = self.functions.mark_function_validated(&function.prototype.item.name);
            proof {
                assert(self@ =~= ContextV { functions: self.functions@, ..before });
            }
            match r {
                Err(m) => (function, Err(invalid(m))),
                Ok(()) => (function, Ok(())),
            }
        } else {
            let mut m = copy_str("Expected function `");
            m.append(function.prototype.item.name.as_str());
            let mid = around_type("` to have return type `", &function.prototype.item.return_type, "` but found `");
            m.append(mid.as_str());
            let shown = self.last_return_type.to_display_string();
            m.append(shown.as_str());
            m.append("`");
            assert(m@ =~= super::check::function_return_message(function@.prototype.item.name, function@.prototype.item.return_type, self@.last_return_type));
            (function, Err(invalid(m)))
        }
    }

    /// Validates a function's body in a scope of its own that holds its
    /// parameters; its return type must be the declared one.
    pub fn validate_function_body(&mut self, function: &mut ast::Function) -> (r: Result<(), ValidateError>)
        requires
            old(self).well_formed(),
        ensures
            final(self).well_formed(),
            final(self)@ == super::check::check_function_body(old(self)@, old(function)@).0,
            final(function)@ == super::check::check_function_body(old(self)@, old(function)@).1,
            done_view(r) == super::check::check_function_body(old(self)@, old(function)@).2,
    {
        let span = crate::span::Span { start_line: 0, start_column: 0, end_line: 0, end_column: 0 };
        let mut f = ast::Function {
            prototype: Node {
                item: ast::FunctionPrototype { name: String::new(), parameters: Node { item: Vec::new(), span }, return_type: Type::Unknown },
                span,
            },
            body: Node { item: BlockExpression { block: Node { item: Vec::new(), span }, ty: Type::Unknown }, span },
            is_public: false,
        };
        std::mem::swap(&mut f, function);
        let (checked, r) = self.check_function(f);
        *function = checked;
        r
    }

    /// Registers structs, in order.
    fn register_structs(&mut self, structs: &Vec<Node<ast::Struct>>) -> (r: Result<(), ValidateError>)
        requires
            old(self).well_formed(),
        ensures
            final(self).well_formed(),
            final(self)@ == super::check::register_structs(old(self)@, ast::node_views(structs@), structs@.len()).0,
            done_view(r) == super::check::register_structs(old(self)@, ast::node_views(structs@), structs@.len()).1,
    {
        let ghost c0 = self@;
        let ghost ss = ast::node_views(structs@);
        let mut i: usize = 0;
        while i < structs.len()
            invariant
                self.well_formed(),
                i <= structs@.len(),
                c0 == old(self)@,
                ss == ast::node_views(structs@),
                super::check::register_structs(c0, ss, i as nat) == (self@, Ok::<(), ValidateErrorV>(())),
            decreases structs@.len() - i,
        {
            match self.register_struct(&structs[i].item) {
                Err(x) => {
                    proof {
                        super::check::lemma_register_structs_stays(c0, ss, (i + 1) as nat, ss.len());
                    }
                    return Err(x);
                },
                Ok(()) => {},
            }
            i += 1;
        }
        Ok(())
    }

    /// Checks and declares prototypes, in order.
    fn declare_prototypes(&mut self, protos: &Vec<&ast::FunctionPrototype>, is_extern: bool) -> (r: Result<(), ValidateError>)
        requires
            old(self).well_formed(),
        ensures
            final(self).well_formed(),
            final(self)@ == super::check::declare_prototypes(old(self)@, protos@.map_values(|p: &ast::FunctionPrototype| p@), protos@.len(), is_extern).0,
            done_view(r) == super::check::declare_prototypes(old(self)@, protos@.map_values(|p: &ast::FunctionPrototype| p@), protos@.len(), is_extern).1,
    {
        let ghost c0 = self@;
        let ghost ps = protos@.map_values(|p: &ast::FunctionPrototype| p@);
        let mut i: usize = 0;
        while i < protos.len()
            invariant
                self.well_formed(),
                i <= protos@.len(),
                c0 == old(self)@,
                ps == protos@.map_values(|p: &ast::FunctionPrototype| p@),
                super::check::declare_prototypes(c0, ps, i as nat, is_extern) == (self@, Ok::<(), ValidateErrorV>(())),
            decreases protos@.len() - i,
        {
            let proto = protos[i];
            let ghost before = self@;
            match self.validate_function_prototype(proto) {
                Err(m) => {
                    proof {
                        super::check::lemma_declare_prototypes_stays(c0, ps, (i + 1) as nat, ps.len(), is_extern);
                    }
                    return Err(invalid(m));
                },
                Ok(()) => {},
            }
            let r = self.functions.forward_declare_function(proto, is_extern);
            proof {
                assert(self@ =~= ContextV { functions: self.functions@, ..before });
            }
            match r {
                Err(m) => {
                    proof {
                        super::check::lemma_declare_prototypes_stays(c0, ps, (i + 1) as nat, ps.len(), is_extern);
                    }
                    return Err(invalid(m));
                },
                Ok(()) => {},
            }
            i += 1;
        }
        Ok(())
    }

    /// Checks and declares the prototypes of extern blocks, in order.
    fn declare_externs(&mut self, externs: &Vec<Node<ast::ExternBlock>>) -> (r: Result<(), ValidateError>)
        requires
            old(self).well_formed(),
        ensures
            final(self).well_formed(),
            final(self)@ == super::check::declare_extern_blocks(old(self)@, externs@.map_values(|n: Node<ast::ExternBlock>| ast::list_node_view(n)), externs@.len()).0,
            done_view(r) == super::check::declare_extern_blocks(old(self)@, externs@.map_values(|n: Node<ast::ExternBlock>| ast::list_node_view(n)), externs@.len()).1,
    {
        let ghost c0 = self@;
        let ghost es = externs@.map_values(|n: Node<ast::ExternBlock>| ast::list_node_view(n));
        let mut b: usize = 0;
        while b < externs.len()
            invariant
                self.well_formed(),
                b <= externs@.len(),
                c0 == old(self)@,
                es == externs@.map_values(|n: Node<ast::ExternBlock>| ast::list_node_view(n)),
                super::check::declare_extern_blocks(c0, es, b as nat) == (self@, Ok::<(), ValidateErrorV>(())),
            decreases externs@.len() - b,
        {
            let block = &externs[b].item;
            let mut protos: Vec<&ast::FunctionPrototype> = Vec::new();
            let mut j: usize = 0;
            while j < block.len()
                invariant
                    j <= block@.len(),
                    protos@.len() == j,
                    forall|k: int| 0 <= k < j ==> #[trigger] protos@[k] == &block@[k].item,
                decreases block@.len() - j,
            {
                protos.push(&block[j].item);
                j += 1;
            }
            proof {
                let ps = es[b as int].item.map_values(|p: Node<ast::FunctionPrototypeV>| p.item);
                assert(protos@.map_values(|p: &ast::FunctionPrototype| p@) =~= ps);
            }
            match self.declare_prototypes(&protos, true) {
                Err(x) => {
                    proof {
                        super::check::lemma_extern_blocks_stays(c0, es, (b + 1) as nat, es.len());
                    }
                    return Err(x);
                },
                Ok(()) => {},
            }
            b += 1;
        }
        Ok(())
    }

    /// Records custom operators, in order.
    fn record_operators(&mut self, operators: &Vec<ast::Operator>)
        requires
            old(self).well_formed(),
        ensures
            final(self).well_formed(),
            final(self)@ == (ContextV {
                operators: old(self)@.operators + operators@.map_values(|o: ast::Operator| (o@.pattern, o@.associated_function)),
                ..old(self)@
            }),
    {
        let ghost c0 = self@;
        let mut k: usize = 0;
        while k < operators.len()
            invariant
                self.well_formed(),
                k <= operators@.len(),
                c0 == old(self)@,
                self@ == (ContextV {
                    operators: c0.operators + operators@.take(k as int).map_values(|o: ast::Operator| (o@.pattern, o@.associated_function)),
                    ..c0
                }),
            decreases operators@.len() - k,
        {
            let o = &operators[k];
            let pattern = ast::duplicate_tokens(&o.pattern);
            let ghost before_ops = self.operators@;
            self.operators.push((pattern, o.associated_function.clone()));
            proof {
                assert(operators@.take(k + 1) =~= operators@.take(k as int).push(*o));
                assert(self.operators@ =~= before_ops.push((pattern, o.associated_function)));
                assert(operator_views(self.operators@) =~= operator_views(before_ops).push((o@.pattern, o@.associated_function)));
                assert(self@ =~= ContextV {
                    operators: c0.operators + operators@.take(k + 1).map_values(|o: ast::Operator| (o@.pattern, o@.associated_function)),
                    ..c0
                });
            }
            k += 1;
        }
        assert(operators@.take(k as int) =~= operators@);
    }

    /// Validates function bodies, in order, each as the current function.
    fn check_bodies(&mut self, functions: Vec<Node<ast::Function>>) -> (out: (Vec<Node<ast::Function>>, Result<(), ValidateError>))
        requires
            old(self).well_formed(),
        ensures
            final(self).well_formed(),
            final(self)@ == super::check::check_bodies(old(self)@, ast::node_views(functions@), functions@.len()).0,
            ast::node_views(out.0@) == super::check::check_bodies(old(self)@, ast::node_views(functions@), functions@.len()).1,
            done_view(out.1) == super::check::check_bodies(old(self)@, ast::node_views(functions@), functions@.len()).2,
    {
        let ghost c0 = self@;
        let ghost fs0 = ast::node_views(functions@);
        let mut list = functions;
        let mut i: usize = 0;
        while i < list.len()
            invariant
                self.well_formed(),
                i <= list@.len(),
                list@.len() == fs0.len(),
                c0 == old(self)@,
                fs0 == ast::node_views(functions@),
                ast::node_views(list@) == super::check::check_bodies(c0, fs0, i as nat).1,
                super::check::check_bodies(c0, fs0, i as nat).0 == self@,
                super::check::check_bodies(c0, fs0, i as nat).2 == Ok::<(), ValidateErrorV>(()),
            decreases list@.len() - i,
        {
            proof {
                super::check::lemma_bodies_frame(c0, fs0, i as nat);
                assert(super::check::check_bodies(c0, fs0, i as nat).1[i as int] == fs0[i as int]);
                assert(ast::node_views(list@)[i as int] == fs0[i as int]);
            }
            let ghost before_fs = ast::node_views(list@);
            let node = list.remove(i);
            assert(ast::node_view(node) == fs0[i as int]);
            let fspan = node.span;
            let ghost before = self@;
            self.current_function_name = node.item.prototype.item.name.clone();
            proof {
                assert(self@ =~= ContextV { current_function_name: fs0[i as int].item.prototype.item.name, ..before });
            }
            let (f, r) = self.check_function(node.item);
            let ghost entry = Node { item: f@, span: fspan };
            list.insert(i, Node { item: f, span: fspan });
            proof {
                assert(ast::node_views(list@) =~= before_fs.update(i as int, entry));
            }
            match r {
                Err(x) => {
                    proof {
                        super::check::lemma_bodies_stays(c0, fs0, (i + 1) as nat, fs0.len());
                    }
                    return (list, Err(x));
                },
                Ok(()) => {},
            }
            i += 1;
        }
        (list, Ok(()))
    }

    /// Validates an AST and keeps it: structs are laid out, extern and then
    /// defined functions declared, custom operators recorded, and every
    /// function body validated.
    pub fn validate(&mut self, ast: ast::AST) -> (r: Result<(), ValidateError>)
        requires
            old(self).well_formed(),
        ensures
            final(self).well_formed(),
            final(self)@ == super::check::check_ast(old(self)@, ast@).0,
            done_view(r) == super::check::check_ast(old(self)@, ast@).1,
    {
        let ghost a = ast@;
        let mut ast = ast;
        self.register_structs(&ast.structs)?;
        self.declare_externs(&ast.externs)?;
        self.record_operators(&ast.operators);
        assert(a.operators == ast.operators@.map_values(|o: ast::Operator| o@));
        assert(a.operators.map_values(|o: ast::OperatorV| (o.pattern, o.associated_function))
            =~= ast.operators@.map_values(|o: ast::Operator| (o@.pattern, o@.associated_function)));
        let mut protos: Vec<&ast::FunctionPrototype> = Vec::new();
        let mut j: usize = 0;
        while j < ast.functions.len()
            invariant
                j <= ast.functions@.len(),
                protos@.len() == j,
                forall|k: int| 0 <= k < j ==> #[trigger] protos@[k] == &ast.functions@[k].item.prototype.item,
            decreases ast.functions@.len() - j,
        {
            protos.push(&ast.functions[j].item.prototype.item);
            j += 1;
        }
        assert(protos@.map_values(|p: &ast::FunctionPrototype| p@)
            =~= a.functions.map_values(|f: Node<ast::FunctionV>| f.item.prototype.item));
        self.declare_prototypes(&protos, false)?;
        let mut functions: Vec<Node<ast::Function>> = Vec::new();
        std::mem::swap(&mut functions, &mut ast.functions);
        let (functions, result) = self.check_bodies(functions);
        ast.functions = functions;
        result?;
        let ghost before = self@;
        self.ast = ast;
        proof {
            assert(self.ast@ =~= (ast::ASTV { functions: self.ast@.functions, ..a }));
            assert(self@ =~= ContextV { ast: self.ast@, ..before });
        }
        Ok(())
    }

    /// Checks that the types of a prototype are all known.
    pub fn validate_function_prototype(&self, prototype: &ast::FunctionPrototype) -> (r: Result<(), String>)
        requires
            self.well_formed(),
        ensures
            match r {
                Ok(()) => prototype_error(self@.types, prototype@) is None,
                Err(e) => prototype_error(self@.types, prototype@) == Some(e@),
            },
    {
        self.types.assert_valid(&prototype.return_type)?;
        let params = &prototype.parameters.item;
        let ghost ps = prototype@.parameters.item;
        let mut i: usize = 0;
        while i < params.len()
            invariant
                self.well_formed(),
                i <= params@.len(),
                ps == ast::node_views(params@),
                ps == prototype@.parameters.item,
                first_invalid(self@.types, prototype@.return_type) is None,
                first_invalid_param(self@.types, ps, i as nat) is None,
            decreases params@.len() - i,
        {
            let r = self.types.assert_valid(&params[i].item.ty);
            if r.is_err() {
                proof {
                    lemma_first_invalid_param(self@.types, ps, (i + 1) as nat);
                }
                return r;
            }
            i += 1;
        }
        Ok(())
    }
}

/// Once the alignment pass fails, it stays failed.
proof fn lemma_alignment_stays(types: Map<TypeV, TypeTableEntry>, fs: Seq<ast::Node<ast::StructFieldV>>, n: nat, m: nat)
    requires
        0 < n <= m <= fs.len(),
        struct_alignment(types, fs, n) is Err,
    ensures
        struct_alignment(types, fs, m) == struct_alignment(types, fs, n),
    decreases m - n,
{
    if m > n {
        lemma_alignment_stays(types, fs, n, (m - 1) as nat);
    }
}

/// When the alignment pass succeeds, every field's type is known and is
/// neither a reference nor a tuple.
proof fn lemma_alignment_known(types: Map<TypeV, TypeTableEntry>, fs: Seq<ast::Node<ast::StructFieldV>>, n: nat, i: nat)
    requires
        i < n <= fs.len(),
        struct_alignment(types, fs, n) is Ok,
    ensures
        types.contains_key(fs[i as int].item.ty),
        !(fs[i as int].item.ty is Reference),
        !(fs[i as int].item.ty is Tuple),
    decreases n,
{
    if i < n - 1 {
        lemma_alignment_known(types, fs, (n - 1) as nat, i);
    }
}

/// Once the layout fails, it stays failed.
proof fn lemma_layout_stays(types: Map<TypeV, TypeTableEntry>, fs: Seq<ast::Node<ast::StructFieldV>>, n: nat, m: nat)
    requires
        0 < n <= m <= fs.len(),
        struct_layout(types, fs, n) is Err,
    ensures
        struct_layout(types, fs, m) == struct_layout(types, fs, n),
    decreases m - n,
{
    if m > n {
        lemma_layout_stays(types, fs, n, (m - 1) as nat);
    }
}

/// The message of the first unknown type among the first `n` parameters.
pub open spec fn first_invalid_param(types: Map<TypeV, TypeTableEntry>, ps: Seq<ast::Node<ast::FunctionParameterV>>, n: nat) -> Option<Seq<char>>
    decreases n,
{
    if n == 0 || n > ps.len() {
        None
    } else {
        match first_invalid_param(types, ps, (n - 1) as nat) {
            Some(m) => Some(m),
            None => match first_invalid(types, ps[n - 1].item.ty) {
                Some(t) => Some(super::invalid_type_message(t)),
                None => None,
            },
        }
    }
}

proof fn lemma_first_invalid_param(types: Map<TypeV, TypeTableEntry>, ps: Seq<ast::Node<ast::FunctionParameterV>>, n: nat)
    requires
        0 < n <= ps.len(),
        first_invalid_param(types, ps, (n - 1) as nat) is None,
        first_invalid(types, ps[n - 1].item.ty) is Some,
    ensures
        first_invalid_param(types, ps, ps.len()) == Some(super::invalid_type_message(first_invalid(types, ps[n - 1].item.ty)->0)),
{
    assert(first_invalid_param(types, ps, n) is Some);
    lemma_first_invalid_param_stays(types, ps, n, ps.len());
}

proof fn lemma_first_invalid_param_stays(types: Map<TypeV, TypeTableEntry>, ps: Seq<ast::Node<ast::FunctionParameterV>>, n: nat, m: nat)
    requires
        0 < n <= m <= ps.len(),
        first_invalid_param(types, ps, n) is Some,
    ensures
        first_invalid_param(types, ps, m) == first_invalid_param(types, ps, n),
    decreases m - n,
{
    if m > n {
        lemma_first_invalid_param_stays(types, ps, n, (m - 1) as nat);
    }
}

/// The message of the first unknown type of a prototype: its return type,
/// then its parameters in order.
pub open spec fn prototype_error(types: Map<TypeV, TypeTableEntry>, p: ast::FunctionPrototypeV) -> Option<Seq<char>> {
    match first_invalid(types, p.return_type) {
        Some(t) => Some(super::invalid_type_message(t)),
        None => first_invalid_param(types, p.parameters.item, p.parameters.item.len()),
    }
}

/// The first `n` parameters have no invalid type exactly when none of them
/// does; otherwise the error is that of the first invalid one.
pub proof fn lemma_first_invalid_param_is_first(
    types: Map<TypeV, TypeTableEntry>,
    ps: Seq<ast::Node<ast::FunctionParameterV>>,
    n: nat,
)
    requires
        n <= ps.len(),
    ensures
        first_invalid_param(types, ps, n) is None <==> forall|i: int|
            0 <= i < n ==> (#[trigger] first_invalid(types, ps[i].item.ty)) is None,
        first_invalid_param(types, ps, n) is Some ==> exists|k: int|
            0 <= k < n && (forall|i: int| 0 <= i < k ==> (#[trigger] first_invalid(types, ps[i].item.ty)) is None)
                && first_invalid(types, ps[k].item.ty) is Some
                && first_invalid_param(types, ps, n) == Some(super::invalid_type_message(first_invalid(types, ps[k].item.ty)->0)),
    decreases n,
{
    if n > 0 {
        lemma_first_invalid_param_is_first(types, ps, (n - 1) as nat);
        if first_invalid_param(types, ps, (n - 1) as nat) is None && first_invalid(types, ps[n - 1].item.ty) is Some {
            let k = n - 1;
            assert(forall|i: int| 0 <= i < k ==> (#[trigger] first_invalid(types, ps[i].item.ty)) is None);
        }
    }
}

/// Checking a prototype is checking, with `TypeTable::assert_valid`, its
/// return type and then each parameter type in order: it succeeds exactly
/// when all are valid, and otherwise fails with the error of the return type
/// if that is invalid, else with that of the first invalid parameter.
pub proof fn law_prototype_check_is_assert_valid(types: Map<TypeV, TypeTableEntry>, p: ast::FunctionPrototypeV)
    ensures
        prototype_error(types, p) is None <==> first_invalid(types, p.return_type) is None && forall|i: int|
            0 <= i < p.parameters.item.len() ==> (#[trigger] first_invalid(types, p.parameters.item[i].item.ty)) is None,
        first_invalid(types, p.return_type) is Some ==> prototype_error(types, p) == Some(
            super::invalid_type_message(first_invalid(types, p.return_type)->0),
        ),
        first_invalid(types, p.return_type) is None && prototype_error(types, p) is Some ==> exists|k: int|
            0 <= k < p.parameters.item.len()
                && (forall|i: int| 0 <= i < k ==> (#[trigger] first_invalid(types, p.parameters.item[i].item.ty)) is None)
                && first_invalid(types, p.parameters.item[k].item.ty) is Some
                && prototype_error(types, p) == Some(
                    super::invalid_type_message(first_invalid(types, p.parameters.item[k].item.ty)->0),
                ),
{
    lemma_first_invalid_param_is_first(types, p.parameters.item, p.parameters.item.len());
}

} // verus!
