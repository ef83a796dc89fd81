//! The abstract syntax tree: a `Program` owns an ordered sequence of
//! statements; statements and expressions are closed sum types, one
//! variant per implemented node kind. Every node retains the token it was
//! built from, for diagnostics and source-position tracing.

use vstd::prelude::*;

use crate::token::{Token, TokenV};

verus! {

/// Mathematical model of an [`Identifier`] node.
pub struct IdentifierV {
    pub token: TokenV,
    pub value: Seq<char>,
}

/// An identifier expression: its originating token and its text.
#[derive(Debug, PartialEq)]
pub struct Identifier {
    pub token: Token,
    pub value: String,
}

impl View for Identifier {
    type V = IdentifierV;

    open spec fn view(&self) -> IdentifierV {
        IdentifierV { token: self.token@, value: self.value@ }
    }
}

/// Mathematical model of an [`Expression`].
pub enum ExpressionV {
    Identifier(IdentifierV),
}

/// An expression node; the only implemented variant is `Identifier`.
pub enum Expression {
    Identifier(Identifier),
}

impl View for Expression {
    type V = ExpressionV;

    open spec fn view(&self) -> ExpressionV {
        match self {
            Expression::Identifier(id) => ExpressionV::Identifier(id@),
        }
    }
}

/// Mathematical model of a [`LetStatement`].
pub struct LetStatementV {
    pub name: IdentifierV,
    pub value: ExpressionV,
}

/// A `let` statement: the bound name and the value expression.
pub struct LetStatement {
    pub name: Identifier,
    pub value: Expression,
}

impl View for LetStatement {
    type V = LetStatementV;

    open spec fn view(&self) -> LetStatementV {
        LetStatementV { name: self.name@, value: self.value@ }
    }
}

/// Mathematical model of a [`Statement`].
pub enum StatementV {
    Let(LetStatementV),
}

/// A statement node; the only implemented variant is `Let`.
pub enum Statement {
    Let(LetStatement),
}

impl View for Statement {
    type V = StatementV;

    open spec fn view(&self) -> StatementV {
        match self {
            Statement::Let(ls) => StatementV::Let(ls@),
        }
    }
}

/// The root of the AST: exclusively owns its statements, in source order.
pub struct Program {
    pub statements: Vec<Statement>,
}

impl View for Program {
    type V = Seq<StatementV>;

    open spec fn view(&self) -> Seq<StatementV> {
        self.statements@.map_values(|s: Statement| s@)
    }
}

/// Every AST node exposes the token it was built from.
pub trait Node {
    /// The token this node reports, at the spec level.
    spec fn spec_token(&self) -> TokenV;

    /// The token this node was built from.
    fn token(&self) -> (t: Token)
        ensures
            t@ == self.spec_token(),
    ;
}

impl Node for Identifier {
    open spec fn spec_token(&self) -> TokenV {
        self.token@
    }

    fn token(&self) -> (t: Token) {
        self.token.clone()
    }
}

impl Node for LetStatement {
    open spec fn spec_token(&self) -> TokenV {
        TokenV::Let
    }

    fn token(&self) -> (t: Token) {
        Token::Let
    }
}

impl Node for Statement {
    open spec fn spec_token(&self) -> TokenV {
        match self {
            Statement::Let(ls) => ls.spec_token(),
        }
    }

    fn token(&self) -> (t: Token) {
        match self {
            Statement::Let(ls) => ls.token(),
        }
    }
}

impl Node for Program {
    /// A program reports its first statement's token, or end-of-input when
    /// it has no statements.
    open spec fn spec_token(&self) -> TokenV {
        if self.statements@.len() > 0 {
            self.statements@[0].spec_token()
        } else {
            TokenV::Eof
        }
    }

    fn token(&self) -> (t: Token) {
        if self.statements.len() > 0 {
            self.statements[0].token()
        } else {
            Token::Eof
        }
    }
}

impl Statement {
    /// The name bound by this statement.
    pub fn name(&self) -> (n: &Identifier)
        ensures
            n@ == self.spec_name(),
    {
        match self {
            Statement::Let(ls) => &ls.name,
        }
    }

    /// The name bound by this statement, at the spec level.
    pub open spec fn spec_name(&self) -> IdentifierV {
        match self {
            Statement::Let(ls) => ls.name@,
        }
    }
}

impl LetStatement {
    /// The name bound by this `let` statement.
    pub fn name(&self) -> (n: &Identifier)
        ensures
            n@ == self.name@,
    {
        &self.name
    }
}

} // verus!
