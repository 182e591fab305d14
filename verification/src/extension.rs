//! Items that compiler extensions take and give, and their place in the AST.
use vstd::prelude::*;

use crate::span::Span;
use crate::frontend::parse::ast::{Function, Node, Statement, Struct, TopLevel};

verus! {

/// Turns a value into an AST node with an empty span.
pub trait Nodify<T>: Sized {
    /// Turns anything into an arbitrary AST `Node`
    fn nodify(self) -> (r: Node<Self>)
        ensures
            r.item == self,
            r.span == (Span { start_line: 0, start_column: 0, end_line: 0, end_column: 0 }),
    ;
}

impl<T> Nodify<T> for T {
    fn nodify(self) -> (r: Node<Self>) {
        Node::new(self, Span::new(0, 0, 0, 0))
    }
}

/// Valid AST items for meta usage
pub enum Item {
    Function(Function),
    Struct(Struct),
    Statement(Statement),
}

/// What an extension gives back: new items, or its error message.
pub type ExtensionResult = Result<Vec<Item>, String>;

impl Item {
    /// The top-level item that a function or struct makes (in a node with an
    /// empty span). A statement is not handled.
    pub fn into(self) -> (r: TopLevel)
        requires
            !(self is Statement),
        ensures
            match self {
                Item::Function(f) => r matches TopLevel::Function(n) && n.item == f
                    && n.span == (Span { start_line: 0, start_column: 0, end_line: 0, end_column: 0 }),
                Item::Struct(s) => r matches TopLevel::Struct(n) && n.item == s
                    && n.span == (Span { start_line: 0, start_column: 0, end_line: 0, end_column: 0 }),
                Item::Statement(_) => false,
            },
    {
        match self {
            Item::Function(f) => TopLevel::Function(f.nodify()),
            Item::Struct(s) => TopLevel::Struct(s.nodify()),
            Item::Statement(_) => TopLevel::ConstDeclaration,
        }
    }
}

/// The item that an extension's `transform_top_level` takes for a top-level
/// item: a function or a struct (without its span); any other item is handed
/// back, as extensions do not take it.
pub fn meta_item(item: TopLevel) -> (r: Result<Item, TopLevel>)
    ensures
        match item {
            TopLevel::Function(n) => r matches Ok(Item::Function(f)) && f == n.item,
            TopLevel::Struct(n) => r matches Ok(Item::Struct(s)) && s == n.item,
            _ => r == Err::<Item, TopLevel>(item),
        },
{
    match item {
        TopLevel::Function(f) => Ok(Item::Function(f.item)),
        TopLevel::Struct(s) => Ok(Item::Struct(s.item)),
        other => Err(other),
    }
}

} // verus!
