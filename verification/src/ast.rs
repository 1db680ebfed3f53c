//! The statement tree of a decompiled script.

use crate::datatype::{view_types, DataType, DataTypeView};
use crate::scope::{Scope, ScopeView};
use vstd::prelude::*;

verus! {

/// A symbolic name.
#[derive(Debug, PartialEq, Eq)]
pub struct Identifier(pub String);

impl Clone for Identifier {
    fn clone(&self) -> (copy: Identifier)
        ensures
            copy@ == self@,
    {
        Identifier(self.0.clone())
    }
}

impl View for Identifier {
    type V = Seq<char>;

    open spec fn view(&self) -> Seq<char> {
        self.0@
    }
}

/// The mathematical value of an [`IdentifierOrPointer`].
pub enum IdentifierOrPointerView {
    Identifier(Seq<char>),
    Pointer(u32),
}

impl IdentifierOrPointerView {
    /// The name that the reference stands for in `scope`, with the type
    /// that `scope` records for that name.
    pub open spec fn lookup(self, scope: ScopeView) -> Option<(Seq<char>, DataTypeView)> {
        match self {
            IdentifierOrPointerView::Identifier(name) => match scope.lookup_name(name) {
                Some(datatype) => Some((name, datatype)),
                None => None,
            },
            IdentifierOrPointerView::Pointer(ptr) => match scope.lookup_ptr(ptr) {
                Some(name) => match scope.lookup_name(name) {
                    Some(datatype) => Some((name, datatype)),
                    None => None,
                },
                None => None,
            },
        }
    }

    /// The parameter types of the callable that the reference stands for in
    /// `scope`, if it stands for one.
    pub open spec fn signature(self, scope: ScopeView) -> Option<Seq<DataTypeView>> {
        match self.lookup(scope) {
            Some((_, DataTypeView::Fun(params))) => Some(params),
            Some((_, DataTypeView::Asm(params))) => Some(params),
            _ => None,
        }
    }
}

/// A reference to something callable: its name, or its address while the
/// name is not known.
#[derive(Debug, PartialEq, Eq)]
pub enum IdentifierOrPointer {
    Identifier(Identifier),
    Pointer(u32),
}

impl Clone for IdentifierOrPointer {
    fn clone(&self) -> (copy: IdentifierOrPointer)
        ensures
            copy@ == self@,
    {
        match self {
            IdentifierOrPointer::Identifier(identifier) => IdentifierOrPointer::Identifier(
                identifier.clone(),
            ),
            IdentifierOrPointer::Pointer(ptr) => IdentifierOrPointer::Pointer(*ptr),
        }
    }
}

impl View for IdentifierOrPointer {
    type V = IdentifierOrPointerView;

    open spec fn view(&self) -> IdentifierOrPointerView {
        match self {
            IdentifierOrPointer::Identifier(identifier) => IdentifierOrPointerView::Identifier(
                identifier@,
            ),
            IdentifierOrPointer::Pointer(ptr) => IdentifierOrPointerView::Pointer(*ptr),
        }
    }
}

impl IdentifierOrPointer {
    /// The parameter types of the callable that the reference stands for in
    /// `scope`, if it stands for one.
    pub fn signature<'a>(&'a self, scope: &'a Scope) -> (params: Option<&'a Vec<DataType>>)
        ensures
            match params {
                Some(types) => self@.signature(scope@) == Some(view_types(types@)),
                None => self@.signature(scope@) is None,
            },
    {
        match self.lookup(scope) {
            Some((_, datatype)) => match datatype {
                DataType::Fun(types) => Some(types),
                DataType::Asm(types) => Some(types),
                _ => None,
            },
            None => None,
        }
    }

    /// The name that the reference stands for in `scope`, with the type
    /// that `scope` records for that name.
    pub fn lookup<'a>(&'a self, scope: &'a Scope) -> (found: Option<(&'a str, &'a DataType)>)
        ensures
            match found {
                Some((name, datatype)) => self@.lookup(scope@) == Some((name@, datatype@)),
                None => self@.lookup(scope@) is None,
            },
    {
        match self {
            IdentifierOrPointer::Identifier(identifier) => {
                let name = identifier.0.as_str();
                match scope.lookup_name(name) {
                    Some(datatype) => Some((name, datatype)),
                    None => None,
                }
            },
            IdentifierOrPointer::Pointer(ptr) => match scope.lookup_ptr(*ptr) {
                Some(name) => match scope.lookup_name(name) {
                    Some(datatype) => Some((name, datatype)),
                    None => None,
                },
                None => None,
            },
        }
    }
}

/// The mathematical value of an [`Expression`].
pub enum ExpressionView {
    Identifier(Seq<char>),
    LiteralInt(u32),
    LiteralBool(bool),
}

impl ExpressionView {
    /// The type of the expression in `scope`: that of its literal, or what
    /// `scope` records for its name, the wildcard where it records nothing.
    pub open spec fn infer_datatype(self, scope: ScopeView) -> DataTypeView {
        match self {
            ExpressionView::Identifier(name) => match scope.lookup_name(name) {
                Some(datatype) => datatype,
                None => DataTypeView::Any,
            },
            ExpressionView::LiteralInt(_) => DataTypeView::Int,
            ExpressionView::LiteralBool(_) => DataTypeView::Bool,
        }
    }

    /// The expression as it stands where a boolean is expected: an integer
    /// literal becomes the boolean literal that says whether it is 1, and
    /// anything else stays.
    pub open spec fn as_bool(self) -> ExpressionView {
        match self {
            ExpressionView::LiteralInt(value) => ExpressionView::LiteralBool(value == 1),
            _ => self,
        }
    }
}

/// An expression.
#[derive(Debug, PartialEq, Eq)]
pub enum Expression {
    Identifier(Identifier),
    LiteralInt(u32),
    LiteralBool(bool),
}

impl Clone for Expression {
    fn clone(&self) -> (copy: Expression)
        ensures
            copy@ == self@,
    {
        match self {
            Expression::Identifier(identifier) => Expression::Identifier(identifier.clone()),
            Expression::LiteralInt(value) => Expression::LiteralInt(*value),
            Expression::LiteralBool(value) => Expression::LiteralBool(*value),
        }
    }
}

/// A copy of `expressions`, one by one.
pub fn clone_expressions(expressions: &Vec<Expression>) -> (copy: Vec<Expression>)
    ensures
        view_expressions(copy@) == view_expressions(expressions@),
{
    let mut copy: Vec<Expression> = Vec::new();
    let mut i: usize = 0;
    while i < expressions.len()
        invariant
            i <= expressions.len(),
            copy.len() == i,
            forall|j: int| 0 <= j < i ==> copy[j]@ == expressions[j]@,
        decreases expressions.len() - i,
    {
        copy.push(expressions[i].clone());
        i += 1;
    }
    assert(view_expressions(copy@) =~= view_expressions(expressions@));
    copy
}

impl View for Expression {
    type V = ExpressionView;

    open spec fn view(&self) -> ExpressionView {
        match self {
            Expression::Identifier(identifier) => ExpressionView::Identifier(identifier@),
            Expression::LiteralInt(value) => ExpressionView::LiteralInt(*value),
            Expression::LiteralBool(value) => ExpressionView::LiteralBool(*value),
        }
    }
}

/// The value of an expression that may be missing.
pub open spec fn view_optional(expression: Option<Expression>) -> Option<ExpressionView> {
    match expression {
        Some(e) => Some(e@),
        None => None,
    }
}

/// The values of a list of expressions, one by one.
pub open spec fn view_expressions(expressions: Seq<Expression>) -> Seq<ExpressionView> {
    Seq::new(expressions.len(), |i: int| expressions[i]@)
}

impl Expression {
    /// The type of the expression in `scope`.
    pub fn infer_datatype(&self, scope: &Scope) -> (datatype: DataType)
        ensures
            datatype@ == self@.infer_datatype(scope@),
    {
        match self {
            Expression::Identifier(identifier) => match scope.lookup_name(identifier.0.as_str()) {
                Some(datatype) => datatype.clone(),
                None => DataType::Any,
            },
            Expression::LiteralInt(_) => DataType::Int,
            Expression::LiteralBool(_) => DataType::Bool,
        }
    }

    /// Rewrites an integer literal to the boolean literal that says whether
    /// it is 1; leaves anything else as it is.
    pub fn make_bool(&mut self)
        ensures
            final(self)@ == old(self)@.as_bool(),
    {
        let rewritten = match self {
            Expression::LiteralInt(value) => Some(*value == 1),
            _ => None,
        };
        match rewritten {
            Some(value) => {
                *self = Expression::LiteralBool(value);
            },
            None => {},
        }
    }
}

/// The mathematical value of a [`Statement`].
#[allow(inconsistent_fields)]
pub enum StatementView {
    VarDeclare { datatype: DataTypeView, identifier: Seq<char>, expression: Option<ExpressionView> },
    VarAssign { identifier: Seq<char>, expression: ExpressionView },
    MethodCall { method: IdentifierOrPointerView, arguments: Seq<ExpressionView> },
    If { condition: ExpressionView, block_true: Seq<StatementView>, block_false: Seq<StatementView> },
    Loop { block: Seq<StatementView> },
    Return,
}

/// A statement. `If` and `Loop` own nested blocks; the other kinds own none.
#[derive(Debug, PartialEq, Eq)]
#[allow(inconsistent_fields)]
pub enum Statement {
    /// Declares a variable, with the type it is annotated with (the
    /// wildcard where the type is left to inference) and its initial value.
    VarDeclare { datatype: DataType, identifier: Identifier, expression: Option<Expression> },
    /// Assigns to a variable.
    VarAssign { identifier: Identifier, expression: Expression },
    /// Calls a script function or an engine method.
    MethodCall { method: IdentifierOrPointer, arguments: Vec<Expression> },
    /// Runs one of two blocks.
    If { condition: Expression, block_true: Vec<Statement>, block_false: Vec<Statement> },
    /// Runs a block repeatedly.
    Loop { block: Vec<Statement> },
    /// Leaves the function.
    Return,
}

/// The values of a block's statements, one by one.
pub open spec fn view_block(block: Seq<Statement>) -> Seq<StatementView>
    decreases block,
{
    Seq::new(
        block.len(),
        |i: int|
            if 0 <= i < block.len() {
                block[i]@
            } else {
                StatementView::Return
            },
    )
}

impl View for Statement {
    type V = StatementView;

    open spec fn view(&self) -> StatementView
        decreases self,
    {
        match self {
            Statement::VarDeclare { datatype, identifier, expression } => StatementView::VarDeclare {
                datatype: datatype@,
                identifier: identifier@,
                expression: view_optional(*expression),
            },
            Statement::VarAssign { identifier, expression } => StatementView::VarAssign {
                identifier: identifier@,
                expression: expression@,
            },
            Statement::MethodCall { method, arguments } => StatementView::MethodCall {
                method: method@,
                arguments: view_expressions(arguments@),
            },
            Statement::If { condition, block_true, block_false } => StatementView::If {
                condition: condition@,
                block_true: view_block(block_true@),
                block_false: view_block(block_false@),
            },
            Statement::Loop { block } => StatementView::Loop { block: view_block(block@) },
            Statement::Return => StatementView::Return,
        }
    }
}

/// A copy of `block`, statement by statement.
pub fn clone_block(block: &Vec<Statement>) -> (copy: Vec<Statement>)
    ensures
        view_block(copy@) == view_block(block@),
    decreases block,
{
    let mut copy: Vec<Statement> = Vec::new();
    let mut i: usize = 0;
    while i < block.len()
        invariant
            i <= block.len(),
            copy.len() == i,
            forall|j: int| 0 <= j < i ==> copy[j]@ == block[j]@,
        decreases block.len() - i,
    {
        copy.push(block[i].clone());
        i += 1;
    }
    assert(view_block(copy@) =~= view_block(block@));
    copy
}

impl Clone for Statement {
    fn clone(&self) -> (copy: Statement)
        ensures
            copy@ == self@,
        decreases self,
    {
        match self {
            Statement::VarDeclare { datatype, identifier, expression } => Statement::VarDeclare {
                datatype: datatype.clone(),
                identifier: identifier.clone(),
                expression: match expression {
                    Some(e) => Some(e.clone()),
                    None => None,
                },
            },
            Statement::VarAssign { identifier, expression } => Statement::VarAssign {
                identifier: identifier.clone(),
                expression: expression.clone(),
            },
            Statement::MethodCall { method, arguments } => Statement::MethodCall {
                method: method.clone(),
                arguments: clone_expressions(arguments),
            },
            Statement::If { condition, block_true, block_false } => Statement::If {
                condition: condition.clone(),
                block_true: clone_block(block_true),
                block_false: clone_block(block_false),
            },
            Statement::Loop { block } => Statement::Loop { block: clone_block(block) },
            Statement::Return => Statement::Return,
        }
    }
}

/// The mathematical value of a [`Declaration`].
pub enum DeclarationView {
    Fun {
        name: IdentifierOrPointerView,
        arguments: Seq<(Seq<char>, DataTypeView)>,
        block: Seq<StatementView>,
    },
}

/// A top-level unit of a script.
#[derive(Debug, PartialEq, Eq)]
pub enum Declaration {
    /// A function: its name or address, its formal arguments and its body.
    Fun { name: IdentifierOrPointer, arguments: Vec<(Identifier, DataType)>, block: Vec<Statement> },
}

impl Clone for Declaration {
    fn clone(&self) -> (copy: Declaration)
        ensures
            copy@ == self@,
    {
        match self {
            Declaration::Fun { name, arguments, block } => {
                let mut copied: Vec<(Identifier, DataType)> = Vec::new();
                let mut i: usize = 0;
                while i < arguments.len()
                    invariant
                        i <= arguments.len(),
                        copied.len() == i,
                        forall|j: int|
                            0 <= j < i ==> copied[j].0@ == arguments[j].0@ && copied[j].1@
                                == arguments[j].1@,
                    decreases arguments.len() - i,
                {
                    copied.push((arguments[i].0.clone(), arguments[i].1.clone()));
                    i += 1;
                }
                let copy = Declaration::Fun {
                    name: name.clone(),
                    arguments: copied,
                    block: clone_block(block),
                };
                assert(copy@.arrow_Fun_arguments() =~= self@.arrow_Fun_arguments());
                copy
            },
        }
    }
}

impl View for Declaration {
    type V = DeclarationView;

    open spec fn view(&self) -> DeclarationView {
        match self {
            Declaration::Fun { name, arguments, block } => DeclarationView::Fun {
                name: name@,
                arguments: Seq::new(arguments@.len(), |i: int| (arguments@[i].0@, arguments@[i].1@)),
                block: view_block(block@),
            },
        }
    }
}

} // verus!
