//! The nodes of the syntax tree, as far as they report the token that they
//! begin with.

use crate::token::{spelling, Token, TokenView};
use vstd::prelude::*;

verus! {

/// A node of the syntax tree.
pub trait Node {
    /// The spelling of the token that the node begins with.
    spec fn token_text(&self) -> Seq<char>;

    /// The spelling of the token that the node begins with.
    fn token_literal(&self) -> (literal: String)
        ensures
            literal@ == self.token_text(),
    ;
}

/// A node that is a statement.
pub trait Statement: Node {

}

/// A node that is an expression.
pub trait Expression: Node {

}

/// A program: its statements in order.
pub struct Program<S: Statement> {
    statements: Vec<S>,
}

impl<S: Statement> Program<S> {
    /// The statements in order.
    pub closed spec fn statements(&self) -> Seq<S> {
        self.statements@
    }
}

impl<S: Statement> Node for Program<S> {
    /// A program begins with the token of its first statement, and an empty
    /// program with nothing.
    open spec fn token_text(&self) -> Seq<char> {
        if self.statements().len() > 0 {
            self.statements()[0].token_text()
        } else {
            Seq::empty()
        }
    }

    fn token_literal(&self) -> (literal: String) {
        if self.statements.len() > 0 {
            self.statements[0].token_literal()
        } else {
            String::new()
        }
    }
}

/// A `let` statement: the `let` token, the name that is bound, and the
/// expression that gives the value.
#[allow(dead_code)]
pub struct LetStatement<Expr: Expression> {
    token: Token,
    name: Identifier,
    value: Expr,
}

impl<Expr: Expression> LetStatement<Expr> {
    /// The token that the statement begins with.
    pub closed spec fn token(&self) -> TokenView {
        self.token@
    }
}

impl<Expr: Expression> Node for LetStatement<Expr> {
    open spec fn token_text(&self) -> Seq<char> {
        spelling(self.token())
    }

    fn token_literal(&self) -> (literal: String) {
        self.token.literal()
    }
}

impl<Expr: Expression> Statement for LetStatement<Expr> {

}

/// A name, with the token that holds it.
#[allow(dead_code)]
struct Identifier {
    token: Token,
    value: String,
}

impl Node for Identifier {
    closed spec fn token_text(&self) -> Seq<char> {
        spelling(self.token@)
    }

    fn token_literal(&self) -> (literal: String) {
        self.token.literal()
    }
}

impl Expression for Identifier {

}

} // verus!
