//! What validation computes: the checked tree, the type of each part, the
//! tables it fills and the first error it meets, as functions of the
//! validation state.
use vstd::prelude::*;

use crate::frontend::lex::token::TokenV;
use crate::frontend::parse::ast::{
    AssignmentOp, BinaryOpV, BlockExpressionV, ExpressionV, Node, StatementV, UnaryOpV,
};
use crate::text::decimal;
use super::types::{TypeV, type_display, is_numeric, is_signed_integer, is_float};
use super::{
    FunctionDefinitionV, MemoryUsageV, ScopesV, StructDefinitionV, StructFieldV, TypeTableEntry, VariableDataV,
    duplicate_allocation_message, duplicate_variable_message, first_invalid, invalid_type_message,
    unknown_function_message, unknown_variable_message, variable_in_scope,
};

verus! {

/// Why validation stopped: the program is invalid, or it reached a case the
/// compiler does not handle, where it halts.
pub enum ValidateErrorV {
    Invalid(Seq<char>),
    Fatal(Seq<char>),
}

pub type Checked<T> = Result<T, ValidateErrorV>;

/// The state of validation.
#[verifier::ext_equal]
pub struct ContextV {
    pub allocations: Map<(Seq<char>, Seq<char>), MemoryUsageV>,
    pub operators: Seq<(Seq<TokenV>, Seq<char>)>,
    pub functions: Map<Seq<char>, FunctionDefinitionV>,
    pub structs: Map<Seq<char>, StructDefinitionV>,
    pub types: Map<TypeV, TypeTableEntry>,
    pub scopes: ScopesV,
    pub ast: crate::frontend::parse::ast::ASTV,
    pub last_return_type: TypeV,
    pub current_function_name: Seq<char>,
}

//////////////////// Messages ////////////////////

pub open spec fn todo_message(what: Seq<char>) -> Seq<char> {
    "not yet implemented: "@ + what
}

pub open spec fn unreachable_message() -> Seq<char> {
    "internal error: entered unreachable code"@
}

pub open spec fn overflow_message() -> Seq<char> {
    "attempt to add with overflow"@
}

pub open spec fn no_struct_message(t: TypeV) -> Seq<char> {
    "Type `"@ + type_display(t) + "` does not exist"@
}

pub open spec fn no_field_message(t: TypeV, field: Seq<char>) -> Seq<char> {
    "Type `"@ + type_display(t) + "` has no field `"@ + field + "`"@
}

pub open spec fn no_fields_message(t: TypeV, field: Seq<char>) -> Seq<char> {
    "Type `"@ + type_display(t) + "` cannot have any fields (tried accessing field `"@ + field + "`)"@
}

pub open spec fn no_such_type_message(name: Seq<char>) -> Seq<char> {
    "No such type: `"@ + name + "`"@
}

pub open spec fn private_field_message(field: Seq<char>, t: TypeV) -> Seq<char> {
    "Field `"@ + field + "` of `"@ + type_display(t) + "` is private"@
}

pub open spec fn no_constructor_message(t: TypeV) -> Seq<char> {
    "No type `"@ + type_display(t) + "` compatible with field constructor"@
}

pub open spec fn field_value_message(t: TypeV, field: Seq<char>, expected: TypeV, found: TypeV) -> Seq<char> {
    "Field `"@ + type_display(t) + "."@ + field + "` is of type `"@ + type_display(expected)
        + "`, but found type `"@ + type_display(found) + "`"@
}

/// "`a`, `b`" for the names `a`, `b`.
pub open spec fn quoted_list(names: Seq<Seq<char>>) -> Seq<char>
    decreases names.len(),
{
    if names.len() == 0 {
        Seq::empty()
    } else if names.len() == 1 {
        "`"@ + names[0] + "`"@
    } else {
        quoted_list(names.drop_last()) + ", `"@ + names.last() + "`"@
    }
}

pub open spec fn missing_fields_message(t: TypeV, missing: Seq<Seq<char>>) -> Seq<char> {
    "Constructor for type `"@ + type_display(t) + "` is missing fields: "@ + quoted_list(missing)
}

pub open spec fn arity_message(name: Seq<char>, expected: nat, found: nat) -> Seq<char> {
    "Function `"@ + name + "` accepts "@ + decimal(expected) + " parameters, but "@ + decimal(found)
        + " were passed"@
}

pub open spec fn parameter_type_message(
    i: nat,
    param: Seq<char>,
    name: Seq<char>,
    expected: TypeV,
    found: TypeV,
) -> Seq<char> {
    "Parameter #"@ + decimal(i) + " (`"@ + param + "`) of call to `"@ + name + "` has type `"@
        + type_display(expected) + "`, but found type `"@ + type_display(found) + "`"@
}

pub open spec fn differing_block_message(expected: TypeV, found: TypeV) -> Seq<char> {
    "Differing return types. Expected `"@ + type_display(expected) + "` but found `"@
        + type_display(found) + "`"@
}

pub open spec fn let_type_message(name: Seq<char>, declared: TypeV, assigned: TypeV) -> Seq<char> {
    "Variable `"@ + name + "` has type `"@ + type_display(declared) + "`, but is assigned the type `"@
        + type_display(assigned) + "`"@
}

pub open spec fn immutable_message(name: Seq<char>) -> Seq<char> {
    "Cannot assign to immutable variable `"@ + name + "`"@
}

pub open spec fn assign_type_message(assigned: TypeV, destination: TypeV) -> Seq<char> {
    "Tried assigning type `"@ + type_display(destination) + "` to incompatible type `"@
        + type_display(assigned) + "`"@
}

pub open spec fn differing_return_message(found: TypeV, earlier: TypeV) -> Seq<char> {
    "Found differing return types: `"@ + type_display(found) + "` and `"@ + type_display(earlier)
        + "`"@
}

pub open spec fn function_return_message(name: Seq<char>, declared: TypeV, found: TypeV) -> Seq<char> {
    "Expected function `"@ + name + "` to have return type `"@ + type_display(declared)
        + "` but found `"@ + type_display(found) + "`"@
}

/// The text that `{:?}` gives for a list of tokens.
pub open spec fn undefined_operator_message(intro: Seq<char>, pattern: Seq<TokenV>) -> Seq<char> {
    intro + crate::frontend::lex::debug::tokens_debug(pattern) + "` is not defined"@
}

//////////////////// Sizes ////////////////////

/// The number of parts of an expression; an operator counts twice, and an
/// op-assignment counts its target three times, so that rewriting them does
/// not make a tree larger.
pub open spec fn expr_size(e: ExpressionV) -> nat
    decreases e, 0nat,
{
    match e {
        ExpressionV::BinaryExpression { lhs, rhs, .. } => 2 + expr_node_size(*lhs) + expr_node_size(*rhs),
        ExpressionV::UnaryExpression { expr, .. } => 2 + expr_node_size(*expr),
        ExpressionV::FieldConstructor { fields, .. } => 1 + fields_size(fields),
        ExpressionV::FieldAccess { base_expr, .. } => 1 + expr_node_size(*base_expr),
        ExpressionV::FunctionCall { inputs, .. } => 1 + inputs_size(inputs),
        ExpressionV::Block(b) => 1 + block_size(b),
        ExpressionV::Literal { .. } => 1,
        ExpressionV::Ident { .. } => 1,
    }
}

pub open spec fn expr_node_size(n: Node<ExpressionV>) -> nat
    decreases n, 1nat,
{
    expr_size(n.item)
}

pub open spec fn inputs_size(s: Seq<Node<ExpressionV>>) -> nat
    decreases s, 0nat,
{
    if s.len() == 0 {
        0
    } else {
        inputs_size(s.drop_last()) + expr_node_size(s.last())
    }
}

pub open spec fn fields_size(s: Seq<(Seq<char>, Node<ExpressionV>)>) -> nat
    decreases s, 0nat,
{
    if s.len() == 0 {
        0
    } else {
        fields_size(s.drop_last()) + expr_node_size(s.last().1)
    }
}

pub open spec fn block_size(b: BlockExpressionV) -> nat
    decreases b, 0nat,
{
    1 + stmts_size(b.block.item)
}

pub open spec fn stmts_size(s: Seq<Node<StatementV>>) -> nat
    decreases s, 0nat,
{
    if s.len() == 0 {
        0
    } else {
        stmts_size(s.drop_last()) + stmt_node_size(s.last())
    }
}

pub open spec fn stmt_node_size(n: Node<StatementV>) -> nat
    decreases n, 1nat,
{
    stmt_size(n.item)
}

pub open spec fn stmt_size(s: StatementV) -> nat
    decreases s, 0nat,
{
    match s {
        StatementV::Let { value, .. } => match value {
            Some(v) => 1 + expr_node_size(v),
            None => 1,
        },
        StatementV::Assign { lhs, operator, expression } => if operator.item == AssignmentOp::Assign {
            3 + 2 * expr_node_size(lhs) + expr_node_size(expression)
        } else {
            5 + 3 * expr_node_size(lhs) + expr_node_size(expression)
        },
        StatementV::ImplicitReturn { expression, .. } => 1 + expr_node_size(expression),
        StatementV::Return { expression } => 1 + expr_node_size(expression),
        StatementV::Expression(e) => 1 + expr_node_size(e),
    }
}

pub proof fn lemma_input_size(s: Seq<Node<ExpressionV>>, i: int)
    requires
        0 <= i < s.len(),
    ensures
        expr_size(s[i].item) <= inputs_size(s),
    decreases s.len(),
{
    assert(inputs_size(s) == inputs_size(s.drop_last()) + expr_node_size(s.last()));
    if i < s.len() - 1 {
        assert(s.drop_last()[i] == s[i]);
        lemma_input_size(s.drop_last(), i);
    }
}

pub proof fn lemma_inputs_size_one(a: Node<ExpressionV>)
    ensures
        inputs_size(seq![a]) == expr_size(a.item),
{
    let s = seq![a];
    assert(s.drop_last() =~= Seq::<Node<ExpressionV>>::empty());
    assert(s.last() == a);
    assert(inputs_size(s) == inputs_size(s.drop_last()) + expr_node_size(s.last()));
    assert(inputs_size(Seq::<Node<ExpressionV>>::empty()) == 0);
}

pub proof fn lemma_inputs_size_two(a: Node<ExpressionV>, b: Node<ExpressionV>)
    ensures
        inputs_size(seq![a, b]) == expr_size(a.item) + expr_size(b.item),
{
    let s = seq![a, b];
    assert(s.drop_last() =~= seq![a]);
    assert(s.last() == b);
    assert(inputs_size(s) == inputs_size(s.drop_last()) + expr_node_size(s.last()));
    lemma_inputs_size_one(a);
}

pub proof fn lemma_field_size(s: Seq<(Seq<char>, Node<ExpressionV>)>, i: int)
    requires
        0 <= i < s.len(),
    ensures
        expr_size(s[i].1.item) <= fields_size(s),
    decreases s.len(),
{
    assert(fields_size(s) == fields_size(s.drop_last()) + expr_node_size(s.last().1));
    if i < s.len() - 1 {
        assert(s.drop_last()[i] == s[i]);
        lemma_field_size(s.drop_last(), i);
    }
}

pub proof fn lemma_stmt_size(s: Seq<Node<StatementV>>, i: int)
    requires
        0 <= i < s.len(),
    ensures
        stmt_size(s[i].item) <= stmts_size(s),
    decreases s.len(),
{
    assert(stmts_size(s) == stmts_size(s.drop_last()) + stmt_node_size(s.last()));
    if i < s.len() - 1 {
        assert(s.drop_last()[i] == s[i]);
        lemma_stmt_size(s.drop_last(), i);
    }
}

/// Replacing an input by one no larger keeps the inputs no larger.
pub proof fn lemma_inputs_update(s: Seq<Node<ExpressionV>>, i: int, x: Node<ExpressionV>)
    requires
        0 <= i < s.len(),
        expr_size(x.item) <= expr_size(s[i].item),
    ensures
        inputs_size(s.update(i, x)) <= inputs_size(s),
    decreases s.len(),
{
    let t = s.update(i, x);
    assert(inputs_size(s) == inputs_size(s.drop_last()) + expr_node_size(s.last()));
    assert(inputs_size(t) == inputs_size(t.drop_last()) + expr_node_size(t.last()));
    if i < s.len() - 1 {
        lemma_inputs_update(s.drop_last(), i, x);
        assert(s.update(i, x).drop_last() =~= s.drop_last().update(i, x));
    } else {
        assert(s.update(i, x).drop_last() =~= s.drop_last());
    }
}

pub proof fn lemma_fields_update(
    s: Seq<(Seq<char>, Node<ExpressionV>)>,
    i: int,
    x: (Seq<char>, Node<ExpressionV>),
)
    requires
        0 <= i < s.len(),
        expr_size(x.1.item) <= expr_size(s[i].1.item),
    ensures
        fields_size(s.update(i, x)) <= fields_size(s),
    decreases s.len(),
{
    let t = s.update(i, x);
    assert(fields_size(s) == fields_size(s.drop_last()) + expr_node_size(s.last().1));
    assert(fields_size(t) == fields_size(t.drop_last()) + expr_node_size(t.last().1));
    if i < s.len() - 1 {
        lemma_fields_update(s.drop_last(), i, x);
        assert(s.update(i, x).drop_last() =~= s.drop_last().update(i, x));
    } else {
        assert(s.update(i, x).drop_last() =~= s.drop_last());
    }
}

pub proof fn lemma_stmts_update(s: Seq<Node<StatementV>>, i: int, x: Node<StatementV>)
    requires
        0 <= i < s.len(),
        stmt_size(x.item) <= stmt_size(s[i].item),
    ensures
        stmts_size(s.update(i, x)) <= stmts_size(s),
    decreases s.len(),
{
    let t = s.update(i, x);
    assert(stmts_size(s) == stmts_size(s.drop_last()) + stmt_node_size(s.last()));
    assert(stmts_size(t) == stmts_size(t.drop_last()) + stmt_node_size(t.last()));
    if i < s.len() - 1 {
        lemma_stmts_update(s.drop_last(), i, x);
        assert(s.update(i, x).drop_last() =~= s.drop_last().update(i, x));
    } else {
        assert(s.update(i, x).drop_last() =~= s.drop_last());
    }
}

//////////////////// Tables ////////////////////

/// The scopes after entering a new, empty scope.
pub open spec fn entered(s: ScopesV) -> ScopesV {
    ScopesV {
        scopes: s.scopes.push(Map::empty()),
        num_scopes: (s.num_scopes + 1) as usize,
        orders: s.orders.push(Seq::empty()),
        ..s
    }
}

/// The scopes after leaving the innermost scope.
pub open spec fn left(s: ScopesV) -> ScopesV {
    ScopesV {
        scopes: s.scopes.drop_last(),
        all_variables: s.all_variables.remove_keys(s.scopes.last().dom()),
        num_scopes: (s.num_scopes - 1) as usize,
        orders: s.orders.drop_last(),
    }
}

/// The scopes after declaring a variable in the innermost scope.
pub open spec fn declared(s: ScopesV, name: Seq<char>, data: VariableDataV) -> Checked<ScopesV> {
    if s.all_variables.contains_key(name) {
        if s.all_variables[name] == s.num_scopes - 1 {
            Err(ValidateErrorV::Invalid(duplicate_variable_message(name)))
        } else {
            Err(ValidateErrorV::Fatal(todo_message("Nested scope shadowing"@)))
        }
    } else {
        Ok(ScopesV {
            scopes: s.scopes.update(s.num_scopes - 1, s.scopes.last().insert(name, data)),
            all_variables: s.all_variables.insert(name, (s.num_scopes - 1) as usize),
            orders: s.orders.update(s.num_scopes - 1, s.orders.last().push(name)),
            ..s
        })
    }
}

/// Whether a block declares a variable with a `let` of its own (which
/// needs a scope to declare it in).
pub open spec fn declares_in_scope(b: BlockExpressionV) -> bool {
    exists|i: int| 0 <= i < b.block.item.len() && (#[trigger] b.block.item[i]).item is Let
}

/// Entering a scope and leaving it again gives back the scopes as they were,
/// and the scope left is the empty one entered.
pub proof fn law_enter_then_leave(s: ScopesV)
    requires
        s.num_scopes < usize::MAX,
    ensures
        left(entered(s)) == s,
        entered(s).scopes.last() == Map::<Seq<char>, VariableDataV>::empty(),
        entered(s).orders.last() == Seq::<Seq<char>>::empty(),
{
    let e = entered(s);
    assert(e.scopes.last() == Map::<Seq<char>, VariableDataV>::empty());
    assert(e.scopes.drop_last() =~= s.scopes);
    assert(e.orders.drop_last() =~= s.orders);
    assert(s.all_variables.remove_keys(Set::empty()) =~= s.all_variables);
}

/// A variable declared in the innermost scope is out of scope once that
/// scope is left; whether any other name is in scope then is as if it had
/// not been declared.
pub proof fn law_leaving_forgets_declared(s: ScopesV, name: Seq<char>, data: VariableDataV)
    requires
        s.num_scopes == s.scopes.len(),
        s.num_scopes > 0,
        declared(s, name, data) is Ok,
    ensures
        !left(declared(s, name, data)->Ok_0).all_variables.contains_key(name),
        forall|k: Seq<char>|
            k != name ==> (#[trigger] left(declared(s, name, data)->Ok_0).all_variables.contains_key(k)
                <==> left(s).all_variables.contains_key(k)),
{
    let d = declared(s, name, data)->Ok_0;
    assert(d.scopes.last() == s.scopes.last().insert(name, data));
}

/// Records the allocations of the variables `names` of `vars`, in order, for
/// function `f`; stops at the first that was recorded before.
pub open spec fn recorded(
    a: Map<(Seq<char>, Seq<char>), MemoryUsageV>,
    f: Seq<char>,
    names: Seq<Seq<char>>,
    vars: Map<Seq<char>, VariableDataV>,
) -> (Map<(Seq<char>, Seq<char>), MemoryUsageV>, Checked<()>)
    decreases names.len(),
{
    if names.len() == 0 {
        (a, Ok(()))
    } else {
        let prev = recorded(a, f, names.drop_last(), vars);
        match prev.1 {
            Err(x) => prev,
            Ok(()) => {
                let n = names.last();
                let a2 = prev.0.insert((f, n), vars[n].memory_usage);
                if prev.0.contains_key((f, n)) {
                    (a2, Err(ValidateErrorV::Invalid(duplicate_allocation_message(f, n))))
                } else {
                    (a2, Ok(()))
                }
            },
        }
    }
}

/// Leaves the innermost scope and records the allocations of its variables.
pub open spec fn leave_scope(c: ContextV) -> (ContextV, Checked<()>) {
    let r = recorded(c.allocations, c.current_function_name, c.scopes.orders.last(), c.scopes.scopes.last());
    (ContextV { scopes: left(c.scopes), allocations: r.0, ..c }, r.1)
}

/// The call that the first `n` custom operators make of `pattern` with
/// `args`: the last that matches wins; a matching operator whose function is
/// unknown is an error.
pub open spec fn operator_call(
    c: ContextV,
    pattern: Seq<TokenV>,
    args: Seq<Node<ExpressionV>>,
    n: nat,
) -> Result<Option<ExpressionV>, Seq<char>>
    decreases n,
{
    if n == 0 || n > c.operators.len() {
        Ok(None)
    } else {
        match operator_call(c, pattern, args, (n - 1) as nat) {
            Err(m) => Err(m),
            Ok(found) => {
                let op = c.operators[n - 1];
                if op.0 == pattern {
                    if c.functions.contains_key(op.1) {
                        Ok(Some(ExpressionV::FunctionCall {
                            name: op.1,
                            inputs: args,
                            ty: c.functions[op.1].return_type,
                        }))
                    } else {
                        Err(unknown_function_message(op.1))
                    }
                } else {
                    Ok(found)
                }
            },
        }
    }
}

/// The index of the last of the first `n` custom operators written `pattern`.
pub open spec fn last_operator(ops: Seq<(Seq<TokenV>, Seq<char>)>, pattern: Seq<TokenV>, n: int) -> Option<int>
    decreases n,
{
    if n <= 0 {
        None
    } else if ops[n - 1].0 == pattern {
        Some(n - 1)
    } else {
        last_operator(ops, pattern, n - 1)
    }
}

/// A custom operator becomes a call of the function registered for it: the
/// last operator registered with its pattern decides, and the call takes the
/// operands, in order, as its inputs; with none registered there is no call.
/// An operator registered with a function that is not declared is an error.
pub proof fn law_custom_operator_becomes_call(
    c: ContextV,
    pattern: Seq<TokenV>,
    args: Seq<Node<ExpressionV>>,
    n: nat,
)
    requires
        n <= c.operators.len(),
    ensures
        (forall|i: int| 0 <= i < n && #[trigger] c.operators[i].0 == pattern ==> c.functions.contains_key(c.operators[i].1))
            ==> match last_operator(c.operators, pattern, n as int) {
            None => operator_call(c, pattern, args, n) == Ok::<Option<ExpressionV>, Seq<char>>(None),
            Some(k) => operator_call(c, pattern, args, n) == Ok::<Option<ExpressionV>, Seq<char>>(
                Some(ExpressionV::FunctionCall {
                    name: c.operators[k].1,
                    inputs: args,
                    ty: c.functions[c.operators[k].1].return_type,
                }),
            ),
        },
        (exists|i: int| 0 <= i < n && #[trigger] c.operators[i].0 == pattern && !c.functions.contains_key(c.operators[i].1))
            ==> operator_call(c, pattern, args, n) is Err,
    decreases n,
{
    if n > 0 {
        law_custom_operator_becomes_call(c, pattern, args, (n - 1) as nat);
        if exists|i: int| 0 <= i < n && #[trigger] c.operators[i].0 == pattern && !c.functions.contains_key(c.operators[i].1) {
            let i = choose|i: int| 0 <= i < n && #[trigger] c.operators[i].0 == pattern && !c.functions.contains_key(c.operators[i].1);
            if i < n - 1 {
                assert(exists|j: int| 0 <= j < n - 1 && #[trigger] c.operators[j].0 == pattern && !c.functions.contains_key(c.operators[j].1));
            }
        }
    }
}

/// The type of field `field` of `t` (looking through references).
pub open spec fn field_type(structs: Map<Seq<char>, StructDefinitionV>, t: TypeV, field: Seq<char>) -> Checked<TypeV>
    decreases t,
{
    match t {
        TypeV::Reference { ty, .. } => field_type(structs, *ty, field),
        TypeV::Tuple(_) => Err(ValidateErrorV::Fatal("not yet implemented"@)),
        TypeV::User(name) => if !structs.contains_key(name) {
            Err(ValidateErrorV::Invalid(no_struct_message(t)))
        } else if !structs[name].fields.contains_key(field) {
            Err(ValidateErrorV::Invalid(no_field_message(t, field)))
        } else {
            Ok(structs[name].fields[field].ty)
        },
        _ => Err(ValidateErrorV::Invalid(no_fields_message(t, field))),
    }
}

/// Whether field `field` of `t` is public (looking through references).
pub open spec fn field_public(structs: Map<Seq<char>, StructDefinitionV>, t: TypeV, field: Seq<char>) -> Checked<bool>
    decreases t,
{
    match t {
        TypeV::Reference { ty, .. } => field_public(structs, *ty, field),
        TypeV::Tuple(_) => Err(ValidateErrorV::Fatal("not yet implemented"@)),
        TypeV::User(name) => if !structs.contains_key(name) {
            Err(ValidateErrorV::Invalid(no_such_type_message(name)))
        } else if !structs[name].fields.contains_key(field) {
            Err(ValidateErrorV::Invalid(no_field_message(t, field)))
        } else {
            Ok(structs[name].fields[field].is_public)
        },
        _ => Err(ValidateErrorV::Fatal(unreachable_message())),
    }
}

/// The first position from `i` on where an argument type differs from the
/// parameter's type.
pub open spec fn first_mismatch(given: Seq<TypeV>, params: Seq<(Seq<char>, TypeV, bool)>, i: nat) -> Option<nat>
    decreases given.len() - i,
{
    if i >= given.len() || i >= params.len() {
        None
    } else if given[i as int] != params[i as int].1 {
        Some(i)
    } else {
        first_mismatch(given, params, i + 1)
    }
}

/// The names given in a field constructor.
pub open spec fn given_names(fields: Seq<(Seq<char>, Node<ExpressionV>)>) -> Seq<Seq<char>> {
    fields.map_values(|f: (Seq<char>, Node<ExpressionV>)| f.0)
}

/// The names of `order` that are not among `given`, in order.
pub open spec fn missing_names(order: Seq<Seq<char>>, given: Seq<Seq<char>>) -> Seq<Seq<char>>
    decreases order.len(),
{
    if order.len() == 0 {
        Seq::empty()
    } else if given.contains(order.last()) {
        missing_names(order.drop_last(), given)
    } else {
        missing_names(order.drop_last(), given).push(order.last())
    }
}

/// The fields of `def` that a constructor does not give, in declaration
/// order.
pub open spec fn missing_fields(def: StructDefinitionV, fields: Seq<(Seq<char>, Node<ExpressionV>)>) -> Seq<Seq<char>> {
    missing_names(def.order, given_names(fields))
}

pub open spec fn op_for(op: AssignmentOp) -> BinaryOpV {
    match op {
        AssignmentOp::AddAssign => BinaryOpV::Add,
        AssignmentOp::SubtractAssign => BinaryOpV::Subtract,
        AssignmentOp::MultiplyAssign => BinaryOpV::Multiply,
        _ => BinaryOpV::Divide,
    }
}

/// `a op= b` written as `a = a op b`.
pub open spec fn desugared(lhs: Node<ExpressionV>, operator: Node<AssignmentOp>, expression: Node<ExpressionV>) -> Node<ExpressionV> {
    if operator.item == AssignmentOp::Assign {
        expression
    } else {
        Node {
            item: ExpressionV::BinaryExpression {
                lhs: Box::new(lhs),
                op: Node { item: op_for(operator.item), span: operator.span },
                rhs: Box::new(expression),
                ty: TypeV::Unknown,
            },
            span: expression.span,
        }
    }
}

//////////////////// Struct layout ////////////////////

/// The padding that brings `offset` up to a multiple of `alignment`.
pub open spec fn padding(offset: int, alignment: int) -> int {
    if offset % alignment > 0 {
        alignment - offset % alignment
    } else {
        0
    }
}

pub open spec fn remainder_by_zero_message() -> Seq<char> {
    "attempt to calculate the remainder with a divisor of zero"@
}

/// The alignment of a struct: the largest alignment among its first `n`
/// fields (0 for none).
pub open spec fn struct_alignment(
    types: Map<TypeV, TypeTableEntry>,
    fields: Seq<Node<crate::frontend::parse::ast::StructFieldV>>,
    n: nat,
) -> Checked<usize>
    decreases n,
{
    if n == 0 || n > fields.len() {
        Ok(0usize)
    } else {
        match struct_alignment(types, fields, (n - 1) as nat) {
            Err(x) => Err(x),
            Ok(a) => {
                let t = fields[n - 1].item.ty;
                if t is Reference {
                    Err(ValidateErrorV::Fatal(todo_message("need pointer type stuff"@)))
                } else if t is Tuple {
                    Err(ValidateErrorV::Fatal(todo_message("tuple alignment"@)))
                } else if !types.contains_key(t) {
                    Err(ValidateErrorV::Fatal("alignment_of"@))
                } else if a >= types[t].alignment {
                    Ok(a)
                } else {
                    Ok(types[t].alignment)
                }
            },
        }
    }
}

/// The first `n` fields placed one after the other, each at the next offset
/// aligned for it: the placed fields in order, and the offset after them.
/// An offset beyond `i32::MAX` is an overflow.
pub open spec fn struct_layout(
    types: Map<TypeV, TypeTableEntry>,
    fields: Seq<Node<crate::frontend::parse::ast::StructFieldV>>,
    n: nat,
) -> Checked<(Seq<(Seq<char>, StructFieldV)>, int)>
    decreases n,
{
    if n == 0 || n > fields.len() {
        Ok((Seq::empty(), 0))
    } else {
        match struct_layout(types, fields, (n - 1) as nat) {
            Err(x) => Err(x),
            Ok(done) => {
                let f = fields[n - 1].item;
                let alignment = types[f.ty].alignment as int;
                if alignment == 0 {
                    Err(ValidateErrorV::Fatal(remainder_by_zero_message()))
                } else if alignment > i32::MAX || done.1 + padding(done.1, alignment) > i32::MAX {
                    Err(ValidateErrorV::Fatal(overflow_message()))
                } else {
                    let offset = done.1 + padding(done.1, alignment);
                    let size = types[f.ty].size as int;
                    if size > i32::MAX || offset + size > i32::MAX {
                        Err(ValidateErrorV::Fatal(overflow_message()))
                    } else {
                        Ok((
                            done.0.push((f.name, StructFieldV { ty: f.ty, offset: offset as i32, is_public: f.is_public })),
                            offset + size,
                        ))
                    }
                }
            },
        }
    }
}

/// The definition that placed fields make: a later field of the same name
/// replaces an earlier one, which keeps its place in the order.
pub open spec fn layout_definition(placed: Seq<(Seq<char>, StructFieldV)>) -> StructDefinitionV
    decreases placed.len(),
{
    if placed.len() == 0 {
        StructDefinitionV { fields: Map::empty(), order: Seq::empty() }
    } else {
        let d = layout_definition(placed.drop_last());
        let f = placed.last();
        StructDefinitionV {
            fields: d.fields.insert(f.0, f.1),
            order: if d.fields.contains_key(f.0) { d.order } else { d.order.push(f.0) },
        }
    }
}

/// Registering a struct: its layout is recorded, then its size and
/// alignment (it is an error if the type was known). A struct without fields
/// has size 0 and alignment 1.
pub open spec fn registered(c: ContextV, s: crate::frontend::parse::ast::StructV) -> (ContextV, Checked<()>) {
    let fields = s.fields.item;
    match struct_alignment(c.types, fields, fields.len()) {
        Err(x) => (c, Err(x)),
        Ok(largest) => match struct_layout(c.types, fields, fields.len()) {
            Err(x) => (c, Err(x)),
            Ok(done) => {
                let alignment = if fields.len() == 0 { 1usize } else { largest };
                let c1 = ContextV { structs: c.structs.insert(s.name, layout_definition(done.0)), ..c };
                if alignment == 0 {
                    (c1, Err(ValidateErrorV::Fatal(remainder_by_zero_message())))
                } else if alignment > i32::MAX || done.1 + padding(done.1, alignment as int) > i32::MAX {
                    (c1, Err(ValidateErrorV::Fatal(overflow_message())))
                } else {
                    let size = done.1 + padding(done.1, alignment as int);
                    let key = TypeV::User(s.name);
                    let c2 = ContextV {
                        types: c1.types.insert(key, TypeTableEntry { size: size as usize, alignment }),
                        ..c1
                    };
                    if c1.types.contains_key(key) {
                        (c2, Err(ValidateErrorV::Invalid(super::type_exists_message(key))))
                    } else {
                        (c2, Ok(()))
                    }
                }
            },
        },
    }
}

//////////////////// Facts about the loops ////////////////////

/// Validating inputs changes only those validated, and keeps their number.
pub proof fn lemma_inputs_frame(c: ContextV, ins: Seq<Node<ExpressionV>>, n: nat)
    ensures
        check_inputs(c, ins, n).1.len() == ins.len(),
        n <= ins.len() && check_inputs(c, ins, n).2 is Ok ==> check_inputs(c, ins, n).2->Ok_0.len() == n,
        forall|j: int| n <= j < ins.len() ==> #[trigger] check_inputs(c, ins, n).1[j] == ins[j],
    decreases n,
{
    if n > 0 && n <= ins.len() {
        lemma_inputs_frame(c, ins, (n - 1) as nat);
    }
}

/// Once validating inputs fails, it stays failed.
pub proof fn lemma_inputs_stays(c: ContextV, ins: Seq<Node<ExpressionV>>, n: nat, m: nat)
    requires
        0 < n <= m <= ins.len(),
        check_inputs(c, ins, n).2 is Err,
    ensures
        check_inputs(c, ins, m) == check_inputs(c, ins, n),
    decreases m - n,
{
    if m > n {
        lemma_inputs_stays(c, ins, n, (m - 1) as nat);
    }
}

pub proof fn lemma_fields_frame(c: ContextV, ty: TypeV, def: StructDefinitionV, fs: Seq<(Seq<char>, Node<ExpressionV>)>, n: nat)
    ensures
        check_fields(c, ty, def, fs, n).1.len() == fs.len(),
        forall|j: int| n <= j < fs.len() ==> #[trigger] check_fields(c, ty, def, fs, n).1[j] == fs[j],
        forall|j: int| 0 <= j < fs.len() ==> #[trigger] check_fields(c, ty, def, fs, n).1[j].0 == fs[j].0,
    decreases n,
{
    if n > 0 && n <= fs.len() {
        lemma_fields_frame(c, ty, def, fs, (n - 1) as nat);
    }
}

pub proof fn lemma_fields_stays(c: ContextV, ty: TypeV, def: StructDefinitionV, fs: Seq<(Seq<char>, Node<ExpressionV>)>, n: nat, m: nat)
    requires
        0 < n <= m <= fs.len(),
        check_fields(c, ty, def, fs, n).2 is Err,
    ensures
        check_fields(c, ty, def, fs, m) == check_fields(c, ty, def, fs, n),
    decreases m - n,
{
    if m > n {
        lemma_fields_stays(c, ty, def, fs, n, (m - 1) as nat);
    }
}

pub proof fn lemma_stmts_frame(c: ContextV, ss: Seq<Node<StatementV>>, n: nat, is_body: bool)
    ensures
        check_stmts(c, ss, n, is_body).1.len() == ss.len(),
        forall|j: int| n <= j < ss.len() ==> #[trigger] check_stmts(c, ss, n, is_body).1[j] == ss[j],
    decreases n,
{
    if n > 0 && n <= ss.len() {
        lemma_stmts_frame(c, ss, (n - 1) as nat, is_body);
    }
}

pub proof fn lemma_stmts_stays(c: ContextV, ss: Seq<Node<StatementV>>, n: nat, m: nat, is_body: bool)
    requires
        0 < n <= m <= ss.len(),
        check_stmts(c, ss, n, is_body).2 is Err,
    ensures
        check_stmts(c, ss, m, is_body) == check_stmts(c, ss, n, is_body),
    decreases m - n,
{
    if m > n {
        lemma_stmts_stays(c, ss, n, (m - 1) as nat, is_body);
    }
}

pub proof fn lemma_operator_call_stays(c: ContextV, p: Seq<TokenV>, args: Seq<Node<ExpressionV>>, n: nat, m: nat)
    requires
        0 < n <= m <= c.operators.len(),
        operator_call(c, p, args, n) is Err,
    ensures
        operator_call(c, p, args, m) == operator_call(c, p, args, n),
    decreases m - n,
{
    if m > n {
        lemma_operator_call_stays(c, p, args, n, (m - 1) as nat);
    }
}

pub proof fn lemma_recorded_stays(
    a: Map<(Seq<char>, Seq<char>), MemoryUsageV>,
    f: Seq<char>,
    names: Seq<Seq<char>>,
    vars: Map<Seq<char>, VariableDataV>,
    n: int,
)
    requires
        0 < n <= names.len(),
        recorded(a, f, names.take(n), vars).1 is Err,
    ensures
        recorded(a, f, names, vars) == recorded(a, f, names.take(n), vars),
    decreases names.len() - n,
{
    if n < names.len() {
        assert(names.take(n + 1).drop_last() =~= names.take(n));
        lemma_recorded_stays(a, f, names, vars, n + 1);
    } else {
        assert(names.take(n) =~= names);
    }
}

//////////////////// Validation ////////////////////

/// Validating an expression: the state after, the expression with its types
/// filled in (and custom operators replaced by calls), and its type.
#[verifier::opaque]
pub open spec fn check_expr(c: ContextV, e: ExpressionV) -> (ContextV, ExpressionV, Checked<TypeV>)
    decreases expr_size(e), 0nat,
{
    match e {
        ExpressionV::BinaryExpression { lhs, op, rhs, ty } => {
            let l = check_expr(c, lhs.item);
            let lhs1 = Node { item: l.1, span: lhs.span };
            match l.2 {
                Err(x) => (l.0, ExpressionV::BinaryExpression { lhs: Box::new(lhs1), op, rhs, ty }, Err(x)),
                Ok(lt) => {
                    let r = check_expr(l.0, rhs.item);
                    let rhs1 = Node { item: r.1, span: rhs.span };
                    let e2 = ExpressionV::BinaryExpression { lhs: Box::new(lhs1), op, rhs: Box::new(rhs1), ty };
                    let c2 = r.0;
                    match r.2 {
                        Err(x) => (c2, e2, Err(x)),
                        Ok(rt) => if first_invalid(c2.types, lt) is Some {
                            (c2, e2, Err(ValidateErrorV::Invalid(invalid_type_message(first_invalid(c2.types, lt)->0))))
                        } else if first_invalid(c2.types, rt) is Some {
                            (c2, e2, Err(ValidateErrorV::Invalid(invalid_type_message(first_invalid(c2.types, rt)->0))))
                        } else {
                            match op.item {
                                BinaryOpV::Custom(p) => match operator_call(c2, p, seq![lhs1, rhs1], c2.operators.len()) {
                                    Err(m) => (c2, e2, Err(ValidateErrorV::Invalid(m))),
                                    Ok(None) => (c2, e2, Err(ValidateErrorV::Invalid(undefined_operator_message("Binary operator `"@, p)))),
                                    Ok(Some(call)) => if expr_size(call) < expr_size(e) {
                                        check_expr(c2, call)
                                    } else {
                                        (c2, call, Err(ValidateErrorV::Fatal(unreachable_message())))
                                    },
                                },
                                BinaryOpV::Add => if is_numeric(lt) && rt == lt {
                                    (c2, ExpressionV::BinaryExpression { lhs: Box::new(lhs1), op, rhs: Box::new(rhs1), ty: rt }, Ok(lt))
                                } else {
                                    (c2, e2, Err(ValidateErrorV::Fatal(todo_message("Convert `+` to `std::ops::add(LType, RType)` call"@))))
                                },
                                BinaryOpV::Multiply => if is_numeric(lt) && rt == lt {
                                    (c2, ExpressionV::BinaryExpression { lhs: Box::new(lhs1), op, rhs: Box::new(rhs1), ty: rt }, Ok(lt))
                                } else {
                                    (c2, e2, Err(ValidateErrorV::Fatal(todo_message("Convert `*` to `std::ops::multiply(LType, RType)` call"@))))
                                },
                                _ => (c2, e2, Err(ValidateErrorV::Fatal("not yet implemented"@))),
                            }
                        },
                    }
                },
            }
        },
        ExpressionV::UnaryExpression { op, expr, ty } => {
            let x = check_expr(c, expr.item);
            let expr1 = Node { item: x.1, span: expr.span };
            let e1 = ExpressionV::UnaryExpression { op, expr: Box::new(expr1), ty };
            let c1 = x.0;
            match x.2 {
                Err(err) => (c1, e1, Err(err)),
                Ok(t) => if first_invalid(c1.types, t) is Some {
                    (c1, e1, Err(ValidateErrorV::Invalid(invalid_type_message(first_invalid(c1.types, t)->0))))
                } else {
                    match op.item {
                        UnaryOpV::Custom(p) => match operator_call(c1, p, seq![expr1], c1.operators.len()) {
                            Err(m) => (c1, e1, Err(ValidateErrorV::Invalid(m))),
                            Ok(None) => (c1, e1, Err(ValidateErrorV::Invalid(undefined_operator_message("Unary operator `"@, p)))),
                            Ok(Some(call)) => if expr_size(call) < expr_size(e) {
                                check_expr(c1, call)
                            } else {
                                (c1, call, Err(ValidateErrorV::Fatal(unreachable_message())))
                            },
                        },
                        UnaryOpV::Negate => if is_signed_integer(t) || is_float(t) {
                            (c1, ExpressionV::UnaryExpression { op, expr: Box::new(expr1), ty: t }, Ok(t))
                        } else {
                            (c1, e1, Err(ValidateErrorV::Fatal(todo_message("Convert `-` to `std::ops::negate(T)` call"@))))
                        },
                        UnaryOpV::Not => if t == TypeV::bool {
                            (c1, ExpressionV::UnaryExpression { op, expr: Box::new(expr1), ty: t }, Ok(t))
                        } else {
                            (c1, e1, Err(ValidateErrorV::Fatal(todo_message("Convert `!` to `std::ops::not(T)` call"@))))
                        },
                    }
                },
            }
        },
        ExpressionV::FieldConstructor { ty, fields } => {
            if first_invalid(c.types, ty) is Some {
                (c, e, Err(ValidateErrorV::Invalid(invalid_type_message(first_invalid(c.types, ty)->0))))
            } else if !c.structs.contains_key(type_display(ty)) {
                (c, e, Err(ValidateErrorV::Invalid(no_constructor_message(ty))))
            } else {
                let def = c.structs[type_display(ty)];
                let f = check_fields(c, ty, def, fields, fields.len());
                let e1 = ExpressionV::FieldConstructor { ty, fields: f.1 };
                match f.2 {
                    Err(x) => (f.0, e1, Err(x)),
                    Ok(()) => if missing_fields(def, fields).len() > 0 {
                        (f.0, e1, Err(ValidateErrorV::Invalid(missing_fields_message(ty, missing_fields(def, fields)))))
                    } else {
                        (f.0, e1, Ok(ty))
                    },
                }
            }
        },
        ExpressionV::FieldAccess { base_expr, field, ty } => {
            let b = check_expr(c, base_expr.item);
            let base1 = Node { item: b.1, span: base_expr.span };
            let e1 = ExpressionV::FieldAccess { base_expr: Box::new(base1), field, ty };
            let c1 = b.0;
            match b.2 {
                Err(x) => (c1, e1, Err(x)),
                Ok(bt) => match field_public(c1.structs, bt, field) {
                    Err(x) => (c1, e1, Err(x)),
                    Ok(false) => (c1, e1, Err(ValidateErrorV::Invalid(private_field_message(field, bt)))),
                    Ok(true) => match field_type(c1.structs, bt, field) {
                        Err(x) => (c1, e1, Err(x)),
                        Ok(ft) => (c1, ExpressionV::FieldAccess { base_expr: Box::new(base1), field, ty: ft }, Ok(ft)),
                    },
                },
            }
        },
        ExpressionV::FunctionCall { name, inputs, ty } => {
            let i = check_inputs(c, inputs, inputs.len());
            let e1 = ExpressionV::FunctionCall { name, inputs: i.1, ty };
            let c1 = i.0;
            match i.2 {
                Err(x) => (c1, e1, Err(x)),
                Ok(given) => if !c1.functions.contains_key(name) {
                    (c1, e1, Err(ValidateErrorV::Invalid(unknown_function_message(name))))
                } else {
                    let def = c1.functions[name];
                    if def.parameters.len() != inputs.len() {
                        (c1, e1, Err(ValidateErrorV::Invalid(arity_message(name, def.parameters.len(), inputs.len()))))
                    } else {
                        match first_mismatch(given, def.parameters, 0) {
                            Some(k) => (c1, e1, Err(ValidateErrorV::Invalid(parameter_type_message(
                                k,
                                def.parameters[k as int].0,
                                name,
                                def.parameters[k as int].1,
                                given[k as int],
                            )))),
                            None => (c1, ExpressionV::FunctionCall { name, inputs: i.1, ty: def.return_type }, Ok(def.return_type)),
                        }
                    }
                },
            }
        },
        ExpressionV::Block(b) => {
            if c.scopes.num_scopes == usize::MAX {
                (c, e, Err(ValidateErrorV::Fatal(overflow_message())))
            } else {
                let k = check_block(ContextV { scopes: entered(c.scopes), ..c }, b, false);
                let e1 = ExpressionV::Block(k.1);
                match k.2 {
                    Err(x) => (k.0, e1, Err(x)),
                    Ok(t) => {
                        let l = leave_scope(k.0);
                        match l.1 {
                            Err(x) => (l.0, e1, Err(x)),
                            Ok(()) => (l.0, e1, Ok(t)),
                        }
                    },
                }
            }
        },
        ExpressionV::Literal { ty, .. } => (c, e, Ok(ty)),
        ExpressionV::Ident { name, ty } => if !c.scopes.all_variables.contains_key(name) {
            (c, e, Err(ValidateErrorV::Invalid(unknown_variable_message(name))))
        } else {
            let t = variable_in_scope(c.scopes, name).ty;
            (c, ExpressionV::Ident { name, ty: t }, Ok(t))
        },
    }
}

/// A successful validation records the type it gives in the validated
/// expression.
pub proof fn law_checked_type_is_recorded(c: ContextV, e: ExpressionV)
    ensures
        check_expr(c, e).2 is Ok ==> crate::frontend::parse::ast::expr_type(check_expr(c, e).1)
            == check_expr(c, e).2->Ok_0,
    decreases expr_size(e),
{
    reveal(check_expr);
    match e {
        ExpressionV::BinaryExpression { lhs, op, rhs, ty } => {
            let l = check_expr(c, lhs.item);
            let r = check_expr(l.0, rhs.item);
            let c2 = r.0;
            let lhs1 = Node { item: l.1, span: lhs.span };
            let rhs1 = Node { item: r.1, span: rhs.span };
            if let BinaryOpV::Custom(p) = op.item {
                let oc = operator_call(c2, p, seq![lhs1, rhs1], c2.operators.len());
                if oc is Ok && oc->Ok_0 is Some && expr_size(oc->Ok_0->Some_0) < expr_size(e) {
                    law_checked_type_is_recorded(c2, oc->Ok_0->Some_0);
                }
            }
        },
        ExpressionV::UnaryExpression { op, expr, ty } => {
            let x = check_expr(c, expr.item);
            let c1 = x.0;
            let expr1 = Node { item: x.1, span: expr.span };
            if let UnaryOpV::Custom(p) = op.item {
                let oc = operator_call(c1, p, seq![expr1], c1.operators.len());
                if oc is Ok && oc->Ok_0 is Some && expr_size(oc->Ok_0->Some_0) < expr_size(e) {
                    law_checked_type_is_recorded(c1, oc->Ok_0->Some_0);
                }
            }
        },
        ExpressionV::Block(b) => {
            if c.scopes.num_scopes != usize::MAX {
                let k = check_block(ContextV { scopes: entered(c.scopes), ..c }, b, false);
                assert(k.2 is Ok ==> k.1.ty == k.2->Ok_0);
            }
        },
        _ => {},
    }
}

/// Validating the first `n` inputs of a call, in order: the state after, the
/// inputs, and the types of the first `n`.
pub open spec fn check_inputs(c: ContextV, ins: Seq<Node<ExpressionV>>, n: nat) -> (ContextV, Seq<Node<ExpressionV>>, Checked<Seq<TypeV>>)
    decreases inputs_size(ins), n,
{
    if n == 0 || n > ins.len() {
        (c, ins, Ok(Seq::empty()))
    } else {
        let prev = check_inputs(c, ins, (n - 1) as nat);
        match prev.2 {
            Err(x) => prev,
            Ok(ts) => {
                proof {
                    lemma_input_size(ins, n - 1);
                }
                let x = check_expr(prev.0, ins[n - 1].item);
                let ins1 = prev.1.update(n - 1, Node { item: x.1, span: ins[n - 1].span });
                match x.2 {
                    Err(err) => (x.0, ins1, Err(err)),
                    Ok(t) => (x.0, ins1, Ok(ts.push(t))),
                }
            },
        }
    }
}

/// Validating the first `n` fields of a constructor of `ty`, whose definition
/// is `def`, in order.
pub open spec fn check_fields(
    c: ContextV,
    ty: TypeV,
    def: StructDefinitionV,
    fs: Seq<(Seq<char>, Node<ExpressionV>)>,
    n: nat,
) -> (ContextV, Seq<(Seq<char>, Node<ExpressionV>)>, Checked<()>)
    decreases fields_size(fs), n,
{
    if n == 0 || n > fs.len() {
        (c, fs, Ok(()))
    } else {
        let prev = check_fields(c, ty, def, fs, (n - 1) as nat);
        match prev.2 {
            Err(x) => prev,
            Ok(()) => {
                let name = fs[n - 1].0;
                if !def.fields.contains_key(name) {
                    (prev.0, prev.1, Err(ValidateErrorV::Invalid(no_field_message(ty, name))))
                } else {
                    proof {
                        lemma_field_size(fs, n - 1);
                    }
                    let x = check_expr(prev.0, fs[n - 1].1.item);
                    let fs1 = prev.1.update(n - 1, (name, Node { item: x.1, span: fs[n - 1].1.span }));
                    match x.2 {
                        Err(err) => (x.0, fs1, Err(err)),
                        Ok(t) => if t != def.fields[name].ty {
                            (x.0, fs1, Err(ValidateErrorV::Invalid(field_value_message(ty, name, def.fields[name].ty, t))))
                        } else {
                            (x.0, fs1, Ok(()))
                        },
                    }
                }
            },
        }
    }
}

/// Validating a block: the state after, the block with its type, and its type.
pub open spec fn check_block(c: ContextV, b: BlockExpressionV, is_body: bool) -> (ContextV, BlockExpressionV, Checked<TypeV>)
    decreases block_size(b), 0nat,
{
    let s = check_stmts(c, b.block.item, b.block.item.len(), is_body);
    let b1 = BlockExpressionV { block: Node { item: s.1, span: b.block.span }, ty: b.ty };
    match s.2 {
        Err(x) => (s.0, b1, Err(x)),
        Ok(found) => {
            let bt = if found is Unknown { TypeV::Unit } else { found };
            let c2 = if is_body && s.0.last_return_type is Unknown {
                ContextV { last_return_type: bt, ..s.0 }
            } else {
                s.0
            };
            (c2, BlockExpressionV { block: b1.block, ty: bt }, Ok(bt))
        },
    }
}

/// Validating the first `n` statements of a block, in order: the state
/// after, the statements, and the type of the first implicit return.
pub open spec fn check_stmts(c: ContextV, ss: Seq<Node<StatementV>>, n: nat, is_body: bool) -> (ContextV, Seq<Node<StatementV>>, Checked<TypeV>)
    decreases stmts_size(ss), n,
{
    if n == 0 || n > ss.len() {
        (c, ss, Ok(TypeV::Unknown))
    } else {
        let prev = check_stmts(c, ss, (n - 1) as nat, is_body);
        match prev.2 {
            Err(x) => prev,
            Ok(bt) => {
                proof {
                    lemma_stmt_size(ss, n - 1);
                }
                let x = check_step(prev.0, ss[n - 1], bt, is_body);
                (x.0, prev.1.update(n - 1, x.1), x.2)
            },
        }
    }
}

/// Validating one statement of a block, where `bt` is the type of the first
/// implicit return so far (unknown while there is none): the state after,
/// the statement, and the type of the first implicit return after it.
#[verifier::opaque]
pub open spec fn check_step(c: ContextV, st: Node<StatementV>, bt: TypeV, is_body: bool) -> (ContextV, Node<StatementV>, Checked<TypeV>)
    decreases stmt_size(st.item), 0nat,
{
    match st.item {
        StatementV::ImplicitReturn { expression, is_function_return } => {
            let x = check_expr(c, expression.item);
            let expression1 = Node { item: x.1, span: expression.span };
            match x.2 {
                Err(err) => (x.0, Node {
                    item: StatementV::ImplicitReturn { expression: expression1, is_function_return },
                    span: st.span,
                }, Err(err)),
                Ok(t) => {
                    let st1 = Node {
                        item: StatementV::ImplicitReturn {
                            expression: expression1,
                            is_function_return: is_body || is_function_return,
                        },
                        span: st.span,
                    };
                    if bt is Unknown {
                        (x.0, st1, Ok(t))
                    } else if bt != t {
                        (x.0, st1, Err(ValidateErrorV::Invalid(differing_block_message(bt, t))))
                    } else {
                        (x.0, st1, Ok(bt))
                    }
                },
            }
        },
        _ => {
            let x = check_stmt(c, st.item);
            (x.0, Node { item: x.1, span: st.span }, match x.2 {
                Err(err) => Err(err),
                Ok(()) => Ok(bt),
            })
        },
    }
}

/// Declares a variable of a `let` statement in the state's innermost scope.
pub open spec fn declare(c: ContextV, name: Seq<char>, mutable: bool, ty: TypeV) -> (ContextV, Checked<()>) {
    match declared(c.scopes, name, VariableDataV { ty, memory_usage: MemoryUsageV::StackSlot, mutable }) {
        Err(x) => (c, Err(x)),
        Ok(s) => (ContextV { scopes: s, ..c }, Ok(())),
    }
}

/// The rest of a `let` once its value is validated, of type `at`: the
/// declared type must match it, and the variable is declared.
pub open spec fn let_tail(
    c: ContextV,
    ident: Seq<char>,
    mutable: bool,
    ty: TypeV,
    at: TypeV,
    value: Option<Node<ExpressionV>>,
) -> (ContextV, StatementV, Checked<()>) {
    if !(ty is Unknown) && ty != at {
        (c, StatementV::Let { ident, mutable, ty, value }, Err(ValidateErrorV::Invalid(let_type_message(ident, ty, at))))
    } else {
        let ty1 = if ty is Unknown { at } else { ty };
        let d = declare(c, ident, mutable, ty1);
        (d.0, StatementV::Let { ident, mutable, ty: ty1, value }, d.1)
    }
}

/// A `let` takes the type of its value: once `let ident [: ty] = value;`
/// validates, the statement records the type the value was validated to,
/// and `ident` is in scope with that type (so a `let` without a written type
/// infers it).
pub proof fn law_let_takes_value_type(
    c: ContextV,
    ident: Seq<char>,
    mutable: bool,
    ty: TypeV,
    value: Node<ExpressionV>,
)
    ensures
        ({
            let r = check_stmt(c, StatementV::Let { ident, mutable, ty, value: Some(value) });
            let x = check_expr(c, value.item);
            r.2 is Ok ==> {
                &&& x.2 is Ok
                &&& r.1 matches StatementV::Let { ty: recorded, .. } && recorded == x.2->Ok_0
                &&& r.0.scopes.all_variables.contains_key(ident)
                &&& x.0.scopes.num_scopes > 0 ==> r.0.scopes.all_variables[ident] == x.0.scopes.num_scopes - 1
                &&& x.0.scopes.num_scopes == x.0.scopes.scopes.len() && x.0.scopes.num_scopes > 0
                    ==> variable_in_scope(r.0.scopes, ident).ty == x.2->Ok_0
            }
        }),
{
    let x = check_expr(c, value.item);
    let v1 = Some(Node { item: x.1, span: value.span });
    let st = StatementV::Let { ident, mutable, ty, value: Some(value) };
    lemma_let_unfolds(c, ident, mutable, ty, value);
    if x.2 is Ok {
        lemma_let_tail_records(x.0, ident, mutable, ty, x.2->Ok_0, v1);
    }
}

/// How validating a `let` with a value starts: it validates the value, then
/// goes on with its type.
#[verifier::spinoff_prover]
#[verifier::rlimit(100)]
proof fn lemma_let_unfolds(c: ContextV, ident: Seq<char>, mutable: bool, ty: TypeV, value: Node<ExpressionV>)
    ensures
        ({
            let x = check_expr(c, value.item);
            let st = StatementV::Let { ident, mutable, ty, value: Some(value) };
            &&& x.2 is Ok ==> check_stmt(c, st) == let_tail(
                x.0,
                ident,
                mutable,
                ty,
                x.2->Ok_0,
                Some(Node { item: x.1, span: value.span }),
            )
            &&& x.2 is Err ==> check_stmt(c, st).2 is Err
        }),
{
    reveal(check_stmt);
}

/// The rest of a `let` records the value's type and declares the variable
/// with it, when it succeeds.
proof fn lemma_let_tail_records(c: ContextV, ident: Seq<char>, mutable: bool, ty: TypeV, at: TypeV, value: Option<Node<ExpressionV>>)
    ensures
        ({
            let r = let_tail(c, ident, mutable, ty, at, value);
            r.2 is Ok ==> {
                &&& r.1 matches StatementV::Let { ty: recorded, .. } && recorded == at
                &&& r.0.scopes.all_variables.contains_key(ident)
                &&& c.scopes.num_scopes > 0 ==> r.0.scopes.all_variables[ident] == c.scopes.num_scopes - 1
                &&& c.scopes.num_scopes == c.scopes.scopes.len() && c.scopes.num_scopes > 0
                    ==> variable_in_scope(r.0.scopes, ident).ty == at
            }
        }),
{
}

/// Whether an assignment to the validated `target`, of type `dt`, of a value
/// of type `at` is allowed.
pub open spec fn assign_verdict(c: ContextV, target: ExpressionV, dt: TypeV, at: TypeV) -> Checked<()> {
    match target {
        ExpressionV::FieldAccess { .. } => if dt != at {
            Err(ValidateErrorV::Invalid(assign_type_message(at, dt)))
        } else {
            Ok(())
        },
        ExpressionV::Ident { name, .. } => if !c.scopes.all_variables.contains_key(name) {
            Err(ValidateErrorV::Invalid(unknown_variable_message(name)))
        } else if !variable_in_scope(c.scopes, name).mutable {
            Err(ValidateErrorV::Invalid(immutable_message(name)))
        } else if dt != at {
            Err(ValidateErrorV::Invalid(assign_type_message(at, dt)))
        } else {
            Ok(())
        },
        ExpressionV::FunctionCall { .. } => Err(ValidateErrorV::Fatal(
            todo_message("assign to function calls if `&mut` returned?"@),
        )),
        _ => Err(ValidateErrorV::Fatal(unreachable_message())),
    }
}

/// Validating a statement: the state after and the statement with its
/// types filled in.
#[verifier::opaque]
pub open spec fn check_stmt(c: ContextV, s: StatementV) -> (ContextV, StatementV, Checked<()>)
    decreases (stmt_size(s) - 1) as nat, 1nat,
{
    match s {
        StatementV::Let { ident, mutable, ty, value } => match value {
            Some(v) => {
                let x = check_expr(c, v.item);
                let v1 = Some(Node { item: x.1, span: v.span });
                match x.2 {
                    Err(err) => (x.0, StatementV::Let { ident, mutable, ty, value: v1 }, Err(err)),
                    Ok(at) => let_tail(x.0, ident, mutable, ty, at, v1),
                }
            },
            None => if ty is Unknown {
                (c, s, Err(ValidateErrorV::Fatal(todo_message("Mark variable for being inferred later on"@))))
            } else {
                let d = declare(c, ident, mutable, ty);
                (d.0, s, d.1)
            },
        },
        StatementV::Assign { lhs, operator, expression } => {
            let expression0 = desugared(lhs, operator, expression);
            let operator0 = Node { item: AssignmentOp::Assign, span: operator.span };
            let l = check_expr(c, lhs.item);
            let lhs1 = Node { item: l.1, span: lhs.span };
            match l.2 {
                Err(err) => (l.0, StatementV::Assign { lhs: lhs1, operator: operator0, expression: expression0 }, Err(err)),
                Ok(dt) => if expr_size(expression0.item) < stmt_size(s) {
                    let x = check_expr(l.0, expression0.item);
                    let c2 = x.0;
                    let s2 = StatementV::Assign {
                        lhs: lhs1,
                        operator: operator0,
                        expression: Node { item: x.1, span: expression0.span },
                    };
                    match x.2 {
                        Err(err) => (c2, s2, Err(err)),
                        Ok(at) => (c2, s2, assign_verdict(c2, l.1, dt, at)),
                    }
                } else {
                    (l.0, StatementV::Assign { lhs: lhs1, operator: operator0, expression: expression0 }, Err(ValidateErrorV::Fatal(unreachable_message())))
                },
            }
        },
        StatementV::Return { expression } => {
            let x = check_expr(c, expression.item);
            let s1 = StatementV::Return { expression: Node { item: x.1, span: expression.span } };
            match x.2 {
                Err(err) => (x.0, s1, Err(err)),
                Ok(rt) => if x.0.last_return_type is Unknown {
                    (ContextV { last_return_type: rt, ..x.0 }, s1, Ok(()))
                } else if x.0.last_return_type != rt {
                    (x.0, s1, Err(ValidateErrorV::Invalid(differing_return_message(rt, x.0.last_return_type))))
                } else {
                    (x.0, s1, Ok(()))
                },
            }
        },
        StatementV::ImplicitReturn { expression, is_function_return } => {
            let x = check_expr(c, expression.item);
            let s1 = StatementV::ImplicitReturn { expression: Node { item: x.1, span: expression.span }, is_function_return };
            match x.2 {
                Err(err) => (x.0, s1, Err(err)),
                Ok(_) => (x.0, s1, Ok(())),
            }
        },
        StatementV::Expression(expression) => {
            let x = check_expr(c, expression.item);
            let s1 = StatementV::Expression(Node { item: x.1, span: expression.span });
            match x.2 {
                Err(err) => (x.0, s1, Err(err)),
                Ok(_) => (x.0, s1, Ok(())),
            }
        },
    }
}

//////////////////// Functions and modules ////////////////////

/// Declares the first `n` parameters of a function in the innermost scope.
pub open spec fn declare_params(c: ContextV, ps: Seq<Node<crate::frontend::parse::ast::FunctionParameterV>>, n: nat) -> (ContextV, Checked<()>)
    decreases n,
{
    if n == 0 || n > ps.len() {
        (c, Ok(()))
    } else {
        let prev = declare_params(c, ps, (n - 1) as nat);
        match prev.1 {
            Err(x) => prev,
            Ok(()) => {
                let p = ps[n - 1].item;
                match declared(prev.0.scopes, p.name, VariableDataV { ty: p.ty, memory_usage: MemoryUsageV::FunctionParam, mutable: p.mutable }) {
                    Err(x) => (prev.0, Err(x)),
                    Ok(sc) => (ContextV { scopes: sc, ..prev.0 }, Ok(())),
                }
            },
        }
    }
}

/// Validating a function's body in a scope of its own that holds its
/// parameters; the type it returns must be the declared return type, and the
/// function is then marked validated.
pub open spec fn check_function_body(c: ContextV, f: crate::frontend::parse::ast::FunctionV) -> (ContextV, crate::frontend::parse::ast::FunctionV, Checked<()>) {
    let proto = f.prototype.item;
    if c.scopes.num_scopes == usize::MAX {
        (c, f, Err(ValidateErrorV::Fatal(overflow_message())))
    } else {
        let p = declare_params(ContextV { scopes: entered(c.scopes), ..c }, proto.parameters.item, proto.parameters.item.len());
        match p.1 {
            Err(x) => (p.0, f, Err(x)),
            Ok(()) => {
                let b = check_block(p.0, f.body.item, true);
                let f1 = crate::frontend::parse::ast::FunctionV { body: Node { item: b.1, span: f.body.span }, ..f };
                match b.2 {
                    Err(x) => (b.0, f1, Err(x)),
                    Ok(_) => {
                        let l = leave_scope(b.0);
                        match l.1 {
                            Err(x) => (l.0, f1, Err(x)),
                            Ok(()) => {
                                let c3 = l.0;
                                if c3.last_return_type == proto.return_type {
                                    let c4 = ContextV { last_return_type: TypeV::Unknown, ..c3 };
                                    if c4.functions.contains_key(proto.name) {
                                        (ContextV {
                                            functions: c4.functions.insert(proto.name, FunctionDefinitionV { is_validated: true, ..c4.functions[proto.name] }),
                                            ..c4
                                        }, f1, Ok(()))
                                    } else {
                                        (c4, f1, Err(ValidateErrorV::Invalid(unknown_function_message(proto.name))))
                                    }
                                } else {
                                    (c3, f1, Err(ValidateErrorV::Invalid(function_return_message(proto.name, proto.return_type, c3.last_return_type))))
                                }
                            },
                        }
                    },
                }
            },
        }
    }
}

/// Registers the first `n` structs, in order.
pub open spec fn register_structs(c: ContextV, ss: Seq<Node<crate::frontend::parse::ast::StructV>>, n: nat) -> (ContextV, Checked<()>)
    decreases n,
{
    if n == 0 || n > ss.len() {
        (c, Ok(()))
    } else {
        let prev = register_structs(c, ss, (n - 1) as nat);
        match prev.1 {
            Err(x) => prev,
            Ok(()) => registered(prev.0, ss[n - 1].item),
        }
    }
}

/// Checks the types of the first `n` prototypes and declares them, in order.
pub open spec fn declare_prototypes(c: ContextV, ps: Seq<crate::frontend::parse::ast::FunctionPrototypeV>, n: nat, is_extern: bool) -> (ContextV, Checked<()>)
    decreases n,
{
    if n == 0 || n > ps.len() {
        (c, Ok(()))
    } else {
        let prev = declare_prototypes(c, ps, (n - 1) as nat, is_extern);
        match prev.1 {
            Err(x) => prev,
            Ok(()) => {
                let p = ps[n - 1];
                match super::context::prototype_error(prev.0.types, p) {
                    Some(m) => (prev.0, Err(ValidateErrorV::Invalid(m))),
                    None => if prev.0.functions.contains_key(p.name) {
                        (prev.0, Err(ValidateErrorV::Invalid(super::duplicate_function_message(p.name))))
                    } else {
                        (ContextV { functions: prev.0.functions.insert(p.name, super::declared_signature(p, is_extern)), ..prev.0 }, Ok(()))
                    },
                }
            },
        }
    }
}

/// Checks and declares the prototypes of the first `n` extern blocks, in
/// order.
pub open spec fn declare_extern_blocks(c: ContextV, externs: Seq<Node<Seq<Node<crate::frontend::parse::ast::FunctionPrototypeV>>>>, n: nat) -> (ContextV, Checked<()>)
    decreases n,
{
    if n == 0 || n > externs.len() {
        (c, Ok(()))
    } else {
        let prev = declare_extern_blocks(c, externs, (n - 1) as nat);
        match prev.1 {
            Err(x) => prev,
            Ok(()) => {
                let ps = externs[n - 1].item.map_values(|p: Node<crate::frontend::parse::ast::FunctionPrototypeV>| p.item);
                declare_prototypes(prev.0, ps, ps.len(), true)
            },
        }
    }
}

/// The prototypes of the extern blocks, in order.
pub open spec fn extern_prototypes(externs: Seq<Node<Seq<Node<crate::frontend::parse::ast::FunctionPrototypeV>>>>) -> Seq<crate::frontend::parse::ast::FunctionPrototypeV>
    decreases externs.len(),
{
    if externs.len() == 0 {
        Seq::empty()
    } else {
        extern_prototypes(externs.drop_last()) + externs.last().item.map_values(|p: Node<crate::frontend::parse::ast::FunctionPrototypeV>| p.item)
    }
}

/// Validates the bodies of the first `n` functions, in order, each as the
/// current function.
pub open spec fn check_bodies(c: ContextV, fs: Seq<Node<crate::frontend::parse::ast::FunctionV>>, n: nat) -> (ContextV, Seq<Node<crate::frontend::parse::ast::FunctionV>>, Checked<()>)
    decreases n,
{
    if n == 0 || n > fs.len() {
        (c, fs, Ok(()))
    } else {
        let prev = check_bodies(c, fs, (n - 1) as nat);
        match prev.2 {
            Err(x) => prev,
            Ok(()) => {
                let f = fs[n - 1];
                let x = check_function_body(ContextV { current_function_name: f.item.prototype.item.name, ..prev.0 }, f.item);
                (x.0, prev.1.update(n - 1, Node { item: x.1, span: f.span }), x.2)
            },
        }
    }
}

/// Validating an AST: structs are laid out, extern and then defined
/// functions declared, custom operators recorded, and every function body
/// validated; a valid AST is kept, with its types filled in.
pub open spec fn check_ast(c: ContextV, a: crate::frontend::parse::ast::ASTV) -> (ContextV, Checked<()>) {
    let s = register_structs(c, a.structs, a.structs.len());
    match s.1 {
        Err(x) => s,
        Ok(()) => {
            let e = declare_extern_blocks(s.0, a.externs, a.externs.len());
            match e.1 {
                Err(x) => e,
                Ok(()) => {
                    let c2 = ContextV {
                        operators: e.0.operators + a.operators.map_values(|o: crate::frontend::parse::ast::OperatorV| (o.pattern, o.associated_function)),
                        ..e.0
                    };
                    let protos = a.functions.map_values(|f: Node<crate::frontend::parse::ast::FunctionV>| f.item.prototype.item);
                    let d = declare_prototypes(c2, protos, protos.len(), false);
                    match d.1 {
                        Err(x) => d,
                        Ok(()) => {
                            let b = check_bodies(d.0, a.functions, a.functions.len());
                            match b.2 {
                                Err(x) => (b.0, Err(x)),
                                Ok(()) => (ContextV { ast: crate::frontend::parse::ast::ASTV { functions: b.1, ..a }, ..b.0 }, Ok(())),
                            }
                        },
                    }
                },
            }
        },
    }
}

pub proof fn lemma_bodies_frame(c: ContextV, fs: Seq<Node<crate::frontend::parse::ast::FunctionV>>, n: nat)
    ensures
        check_bodies(c, fs, n).1.len() == fs.len(),
        forall|j: int| n <= j < fs.len() ==> #[trigger] check_bodies(c, fs, n).1[j] == fs[j],
    decreases n,
{
    if n > 0 && n <= fs.len() {
        lemma_bodies_frame(c, fs, (n - 1) as nat);
    }
}

pub proof fn lemma_register_structs_stays(c: ContextV, ss: Seq<Node<crate::frontend::parse::ast::StructV>>, n: nat, m: nat)
    requires
        0 < n <= m <= ss.len(),
        register_structs(c, ss, n).1 is Err,
    ensures
        register_structs(c, ss, m) == register_structs(c, ss, n),
    decreases m - n,
{
    if m > n {
        lemma_register_structs_stays(c, ss, n, (m - 1) as nat);
    }
}

pub proof fn lemma_declare_prototypes_stays(c: ContextV, ps: Seq<crate::frontend::parse::ast::FunctionPrototypeV>, n: nat, m: nat, is_extern: bool)
    requires
        0 < n <= m <= ps.len(),
        declare_prototypes(c, ps, n, is_extern).1 is Err,
    ensures
        declare_prototypes(c, ps, m, is_extern) == declare_prototypes(c, ps, n, is_extern),
    decreases m - n,
{
    if m > n {
        lemma_declare_prototypes_stays(c, ps, n, (m - 1) as nat, is_extern);
    }
}

pub proof fn lemma_extern_blocks_stays(c: ContextV, es: Seq<Node<Seq<Node<crate::frontend::parse::ast::FunctionPrototypeV>>>>, n: nat, m: nat)
    requires
        0 < n <= m <= es.len(),
        declare_extern_blocks(c, es, n).1 is Err,
    ensures
        declare_extern_blocks(c, es, m) == declare_extern_blocks(c, es, n),
    decreases m - n,
{
    if m > n {
        lemma_extern_blocks_stays(c, es, n, (m - 1) as nat);
    }
}

pub proof fn lemma_declare_params_stays(c: ContextV, ps: Seq<Node<crate::frontend::parse::ast::FunctionParameterV>>, n: nat, m: nat)
    requires
        0 < n <= m <= ps.len(),
        declare_params(c, ps, n).1 is Err,
    ensures
        declare_params(c, ps, m) == declare_params(c, ps, n),
    decreases m - n,
{
    if m > n {
        lemma_declare_params_stays(c, ps, n, (m - 1) as nat);
    }
}

pub proof fn lemma_bodies_stays(c: ContextV, fs: Seq<Node<crate::frontend::parse::ast::FunctionV>>, n: nat, m: nat)
    requires
        0 < n <= m <= fs.len(),
        check_bodies(c, fs, n).2 is Err,
    ensures
        check_bodies(c, fs, m) == check_bodies(c, fs, n),
    decreases m - n,
{
    if m > n {
        lemma_bodies_stays(c, fs, n, (m - 1) as nat);
    }
}

} // verus!
