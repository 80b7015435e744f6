use vstd::prelude::*;
use crate::token::Token;

verus! {

/// A lexical scope tag: `Global`, or `Local` with a path-like label
/// built from the enclosing construct names.  It is a naming convention
/// for later symbol disambiguation, not a lookup table, and two sibling
/// blocks of the same kind get identical names.
#[derive(Debug, PartialEq, Eq, Hash)]
pub enum Scope {
    Global,
    Local(String),
}

impl Scope {
    /// The label this scope tag denotes; the global scope reads `Global`.
    pub open spec fn spec_name(&self) -> Seq<char> {
        match self {
            Scope::Global => "Global"@,
            Scope::Local(s) => s@,
        }
    }

    /// The scope's label as text.
    pub fn name(&self) -> (r: String)
        ensures
            r@ == self.spec_name(),
    {
        match self {
            Scope::Global => "Global".to_owned(),
            Scope::Local(s) => s.clone(),
        }
    }
}

impl Clone for Scope {
    /// Structural copy: the clone is equal to the original.
    fn clone(&self) -> (res: Scope)
        ensures
            res == self,
    {
        match self {
            Scope::Global => Scope::Global,
            Scope::Local(s) => Scope::Local(s.clone()),
        }
    }
}

/// A name bound at some site, tagged with the scope it was bound under.
#[derive(Debug, PartialEq, Eq, Hash)]
pub struct Identifier {
    pub name: String,
    pub scope: Scope,
}

impl Identifier {
    /// The bound name.
    pub open spec fn spec_name(&self) -> Seq<char> {
        self.name@
    }

    /// The scope tag the name was bound under.
    pub open spec fn spec_scope(&self) -> Scope {
        self.scope
    }

    /// Pairs a name with the scope it is bound under.
    pub fn new(name: String, scope: Scope) -> (r: Self)
        ensures
            r.spec_name() == name@,
            r.spec_scope() == scope,
    {
        Identifier { name, scope }
    }

    /// The bound name as text.
    pub fn name(&self) -> (r: String)
        ensures
            r@ == self.spec_name(),
    {
        self.name.clone()
    }

    /// The scope tag the name was bound under.
    pub fn scope(&self) -> (r: Scope)
        ensures
            r == self.spec_scope(),
    {
        self.scope.clone()
    }
}

impl Clone for Identifier {
    /// Structural copy: the clone is equal to the original.
    fn clone(&self) -> (res: Identifier)
        ensures
            res == self,
    {
        Identifier { name: self.name.clone(), scope: self.scope.clone() }
    }
}

/// A literal value as the parser keeps it.  A decimal literal carries
/// its exact source spelling, as the token does.
#[derive(Debug, PartialEq)]
pub enum Literal {
    String(String),
    Integer(i64),
    Decimal(String),
    Character(char),
    Boolean(bool),
    Null,
}

/// An expression: a tree owned outright, built bottom-up in one parse
/// pass and never mutated afterwards.
#[derive(Debug, PartialEq)]
pub enum Expression {
    Literal(Literal),
    Value(Identifier),
    Member { target: Box<Expression>, property: Box<Expression> },
    Array { scope: Scope, elements: Vec<Expression> },
    Assignment { lhs: Box<Expression>, rhs: Box<Expression> },
    Call { target: Box<Expression>, args: Option<Vec<Expression>> },
    Unary { prefix: Option<Token>, operand: Box<Expression> },
    Binary { lhs: Box<Expression>, operation: Token, rhs: Box<Expression> },
}

/// A statement.
#[allow(inconsistent_fields)]
#[derive(Debug, PartialEq)]
pub enum Statement {
    If { condition: Expression, body: Block, else_stmt: Option<Box<Statement>> },
    While { condition: Expression, body: Block },
    For {
        variable: Option<Box<Statement>>,
        condition: Option<Expression>,
        step: Option<Expression>,
        body: Block,
    },
    Else { body: Block },
    Break,
    Continue,
    Block(Block),
    Return(Expression),
    Expression(Expression),
    Declaration(Declaration),
}

/// A top-level (or nested) declaration.
#[derive(Debug, PartialEq)]
pub enum Declaration {
    Function { identifier: Identifier, arguments: Option<Vec<Identifier>>, body: Block },
    Variable { identifier: Identifier, value: Option<Expression> },
}

/// A block: a scope tag plus the ordered statements under it.
#[derive(Debug, PartialEq)]
pub struct Block {
    pub scope: Scope,
    pub statements: Vec<Statement>,
}

impl Block {
    /// The scope tag the block's statements live under.
    pub open spec fn spec_scope(&self) -> Scope {
        self.scope
    }

    /// The block's statements, in order.
    pub open spec fn spec_statements(&self) -> Seq<Statement> {
        self.statements@
    }

    /// Builds a block from its scope tag and statements.
    pub fn new(scope: Scope, statements: Vec<Statement>) -> (r: Self)
        ensures
            r.spec_scope() == scope,
            r.spec_statements() == statements@,
    {
        Block { scope, statements }
    }

    /// The block's statements, in order.
    pub fn statements(&self) -> (r: &Vec<Statement>)
        ensures
            r@ == self.spec_statements(),
    {
        &self.statements
    }

    /// The scope tag the block's statements live under.
    pub fn scope(&self) -> (r: &Scope)
        ensures
            r == self.spec_scope(),
    {
        &self.scope
    }
}

/// The AST root: the program as an insertion-ordered sequence of
/// top-level declarations.
#[derive(Debug)]
pub struct AST {
    pub program: Vec<Declaration>,
}

impl AST {
    /// The program's declarations, in order.
    pub open spec fn spec_program(&self) -> Seq<Declaration> {
        self.program@
    }

    /// An empty program.
    pub fn new() -> (r: AST)
        ensures
            r.spec_program() == Seq::<Declaration>::empty(),
    {
        AST { program: Vec::<Declaration>::new() }
    }

    /// Appends one top-level declaration.
    pub fn push(&mut self, dec: Declaration)
        ensures
            final(self).spec_program() == old(self).spec_program().push(dec),
    {
        self.program.push(dec);
    }

    /// The whole root, for a consumer that walks it.
    pub fn get(&self) -> (r: &Self)
        ensures
            r == self,
    {
        self
    }

    /// The program's declarations, in order.
    pub fn program(&self) -> (r: &Vec<Declaration>)
        ensures
            r@ == self.spec_program(),
    {
        &self.program
    }
}

} // verus!
