//! Error types: coercion errors, parse errors and evaluation errors,
//! each with a mathematical view whose strings are `Seq<char>`.

use vstd::prelude::*;

use crate::token::{TOKEN, TokenV};

verus! {

/// Mathematical view of a coercion error.
pub enum CoerceErrV {
    ToExpression(Seq<char>),
    ToStatement(Seq<char>),
    ToIdent(Seq<char>),
    ToString(Seq<char>),
    ToNum(Seq<char>),
    ToBool(Seq<char>),
    ToArrayLiteral(Seq<char>),
    ToPrefix(Seq<char>),
    ToInfix(Seq<char>),
    ToCall(Seq<char>),
    ToIf(Seq<char>),
    ToFunction(Seq<char>),
    ToLet(Seq<char>),
    ToReassign(Seq<char>),
    ToReturn(Seq<char>),
    ToExpStmt(Seq<char>),
    ToProgram(Seq<char>),
    ToBlock(Seq<char>),
    ToIndex(Seq<char>),
}

/// A failed coercion from a node sum type to one of its variants; the
/// payload describes the node that was found instead.
#[derive(Debug, PartialEq)]
pub enum CoerceErr {
    ToExpression(String),
    ToStatement(String),
    ToIdent(String),
    ToString(String),
    ToNum(String),
    ToBool(String),
    ToArrayLiteral(String),
    ToPrefix(String),
    ToInfix(String),
    ToCall(String),
    ToIf(String),
    ToFunction(String),
    ToLet(String),
    ToReassign(String),
    ToReturn(String),
    ToExpStmt(String),
    ToProgram(String),
    ToBlock(String),
    ToIndex(String),
}

impl View for CoerceErr {
    type V = CoerceErrV;

    open spec fn view(&self) -> CoerceErrV {
        match self {
            CoerceErr::ToExpression(s) => CoerceErrV::ToExpression(s@),
            CoerceErr::ToStatement(s) => CoerceErrV::ToStatement(s@),
            CoerceErr::ToIdent(s) => CoerceErrV::ToIdent(s@),
            CoerceErr::ToString(s) => CoerceErrV::ToString(s@),
            CoerceErr::ToNum(s) => CoerceErrV::ToNum(s@),
            CoerceErr::ToBool(s) => CoerceErrV::ToBool(s@),
            CoerceErr::ToArrayLiteral(s) => CoerceErrV::ToArrayLiteral(s@),
            CoerceErr::ToPrefix(s) => CoerceErrV::ToPrefix(s@),
            CoerceErr::ToInfix(s) => CoerceErrV::ToInfix(s@),
            CoerceErr::ToCall(s) => CoerceErrV::ToCall(s@),
            CoerceErr::ToIf(s) => CoerceErrV::ToIf(s@),
            CoerceErr::ToFunction(s) => CoerceErrV::ToFunction(s@),
            CoerceErr::ToLet(s) => CoerceErrV::ToLet(s@),
            CoerceErr::ToReassign(s) => CoerceErrV::ToReassign(s@),
            CoerceErr::ToReturn(s) => CoerceErrV::ToReturn(s@),
            CoerceErr::ToExpStmt(s) => CoerceErrV::ToExpStmt(s@),
            CoerceErr::ToProgram(s) => CoerceErrV::ToProgram(s@),
            CoerceErr::ToBlock(s) => CoerceErrV::ToBlock(s@),
            CoerceErr::ToIndex(s) => CoerceErrV::ToIndex(s@),
        }
    }
}

/// The variant of a coercion error as a number.
pub open spec fn coerce_err_kind(e: CoerceErrV) -> int {
    match e {
        CoerceErrV::ToExpression(_) => 0,
        CoerceErrV::ToStatement(_) => 1,
        CoerceErrV::ToIdent(_) => 2,
        CoerceErrV::ToString(_) => 3,
        CoerceErrV::ToNum(_) => 4,
        CoerceErrV::ToBool(_) => 5,
        CoerceErrV::ToArrayLiteral(_) => 6,
        CoerceErrV::ToPrefix(_) => 7,
        CoerceErrV::ToInfix(_) => 8,
        CoerceErrV::ToCall(_) => 9,
        CoerceErrV::ToIf(_) => 10,
        CoerceErrV::ToFunction(_) => 11,
        CoerceErrV::ToLet(_) => 12,
        CoerceErrV::ToReassign(_) => 13,
        CoerceErrV::ToReturn(_) => 14,
        CoerceErrV::ToExpStmt(_) => 15,
        CoerceErrV::ToProgram(_) => 16,
        CoerceErrV::ToBlock(_) => 17,
        CoerceErrV::ToIndex(_) => 18,
    }
}

impl CoerceErr {
    /// The variant of this error as a number, matching `coerce_err_kind`.
    pub fn kind_code(&self) -> (r: u32)
        ensures
            r as int == coerce_err_kind(self@),
    {
        match self {
            CoerceErr::ToExpression(_) => 0,
            CoerceErr::ToStatement(_) => 1,
            CoerceErr::ToIdent(_) => 2,
            CoerceErr::ToString(_) => 3,
            CoerceErr::ToNum(_) => 4,
            CoerceErr::ToBool(_) => 5,
            CoerceErr::ToArrayLiteral(_) => 6,
            CoerceErr::ToPrefix(_) => 7,
            CoerceErr::ToInfix(_) => 8,
            CoerceErr::ToCall(_) => 9,
            CoerceErr::ToIf(_) => 10,
            CoerceErr::ToFunction(_) => 11,
            CoerceErr::ToLet(_) => 12,
            CoerceErr::ToReassign(_) => 13,
            CoerceErr::ToReturn(_) => 14,
            CoerceErr::ToExpStmt(_) => 15,
            CoerceErr::ToProgram(_) => 16,
            CoerceErr::ToBlock(_) => 17,
            CoerceErr::ToIndex(_) => 18,
        }
    }

    /// Whether two coercion errors are the same variant, whatever the
    /// payloads.
    pub fn match_err(&self, err: CoerceErr) -> (r: bool)
        ensures
            r == (coerce_err_kind(self@) == coerce_err_kind(err@)),
    {
        self.kind_code() == err.kind_code()
    }
}

/// Mathematical view of a parse error.
pub enum ParseErrV {
    LET(Seq<char>, TokenV),
    INFIX(Seq<char>, TokenV),
    CALL(Seq<char>, TokenV),
    GROUP(Seq<char>, TokenV),
    IF(Seq<char>, TokenV),
    ELSE(Seq<char>, TokenV),
    FN(Seq<char>, TokenV),
    BLOCK(Seq<char>, TokenV),
    INDEX(Seq<char>, TokenV),
    ARRAY(Seq<char>, TokenV),
    NoPrefixParseFn,
}

/// A parse error: what kind of token was expected, and the token found
/// instead.  `NoPrefixParseFn` is the "nothing to parse here" sentinel
/// that optional positions (an empty return, an empty argument) turn into
/// absence.
#[derive(Debug, PartialEq)]
pub enum ParseErr {
    LET(String, TOKEN),
    INFIX(String, TOKEN),
    CALL(String, TOKEN),
    GROUP(String, TOKEN),
    IF(String, TOKEN),
    ELSE(String, TOKEN),
    FN(String, TOKEN),
    BLOCK(String, TOKEN),
    INDEX(String, TOKEN),
    ARRAY(String, TOKEN),
    NoPrefixParseFn,
}

impl View for ParseErr {
    type V = ParseErrV;

    open spec fn view(&self) -> ParseErrV {
        match self {
            ParseErr::LET(s, t) => ParseErrV::LET(s@, t@),
            ParseErr::INFIX(s, t) => ParseErrV::INFIX(s@, t@),
            ParseErr::CALL(s, t) => ParseErrV::CALL(s@, t@),
            ParseErr::GROUP(s, t) => ParseErrV::GROUP(s@, t@),
            ParseErr::IF(s, t) => ParseErrV::IF(s@, t@),
            ParseErr::ELSE(s, t) => ParseErrV::ELSE(s@, t@),
            ParseErr::FN(s, t) => ParseErrV::FN(s@, t@),
            ParseErr::BLOCK(s, t) => ParseErrV::BLOCK(s@, t@),
            ParseErr::INDEX(s, t) => ParseErrV::INDEX(s@, t@),
            ParseErr::ARRAY(s, t) => ParseErrV::ARRAY(s@, t@),
            ParseErr::NoPrefixParseFn => ParseErrV::NoPrefixParseFn,
        }
    }
}

/// The variant of a parse error as a number.
pub open spec fn parse_err_kind(e: ParseErrV) -> int {
    match e {
        ParseErrV::LET(_, _) => 0,
        ParseErrV::INFIX(_, _) => 1,
        ParseErrV::CALL(_, _) => 2,
        ParseErrV::GROUP(_, _) => 3,
        ParseErrV::IF(_, _) => 4,
        ParseErrV::ELSE(_, _) => 5,
        ParseErrV::FN(_, _) => 6,
        ParseErrV::BLOCK(_, _) => 7,
        ParseErrV::INDEX(_, _) => 8,
        ParseErrV::ARRAY(_, _) => 9,
        ParseErrV::NoPrefixParseFn => 10,
    }
}

impl ParseErr {
    /// The variant of this error as a number, matching `parse_err_kind`.
    pub fn kind_code(&self) -> (r: u32)
        ensures
            r as int == parse_err_kind(self@),
    {
        match self {
            ParseErr::LET(_, _) => 0,
            ParseErr::INFIX(_, _) => 1,
            ParseErr::CALL(_, _) => 2,
            ParseErr::GROUP(_, _) => 3,
            ParseErr::IF(_, _) => 4,
            ParseErr::ELSE(_, _) => 5,
            ParseErr::FN(_, _) => 6,
            ParseErr::BLOCK(_, _) => 7,
            ParseErr::INDEX(_, _) => 8,
            ParseErr::ARRAY(_, _) => 9,
            ParseErr::NoPrefixParseFn => 10,
        }
    }

    /// Whether two parse errors are the same variant, whatever the
    /// payloads.
    pub fn match_err(&self, err: ParseErr) -> (r: bool)
        ensures
            r == (parse_err_kind(self@) == parse_err_kind(err@)),
    {
        self.kind_code() == err.kind_code()
    }
}

/// Mathematical view of an evaluation error.
pub enum EvalErrV {
    CoerceErr(CoerceErrV),
    ParseErr(ParseErrV),
    NotImplemented(Seq<char>),
    MinusPrefix(Seq<char>),
    DivideByZero,
    IdentifierNotFound(Seq<char>),
    PlusError(Seq<char>, Seq<char>),
    SubstractError(Seq<char>, Seq<char>),
    MultiplyError(Seq<char>, Seq<char>),
    DivideError(Seq<char>, Seq<char>),
    Order(Seq<char>, Seq<char>),
    Equal(Seq<char>, Seq<char>),
    AssignLHS(Seq<char>),
    AlreadyInitialized(Seq<char>),
    IndexArray(Seq<char>),
    IndexOutOfBounds(int, int),
    CoerceObject(Seq<char>, Seq<char>),
    ArgsCount(int, int),
    BuiltinArgsType(Seq<char>, Seq<char>, Seq<char>),
}

/// An evaluation error, carrying short descriptions of the values or
/// names involved.
#[derive(Debug, PartialEq)]
pub enum EvalErr {
    CoerceErr(CoerceErr),
    ParseErr(ParseErr),
    NotImplemented(String),
    MinusPrefix(String),
    DivideByZero,
    IdentifierNotFound(String),
    PlusError(String, String),
    SubstractError(String, String),
    MultiplyError(String, String),
    DivideError(String, String),
    Order(String, String),
    Equal(String, String),
    AssignLHS(String),
    AlreadyInitialized(String),
    IndexArray(String),
    IndexOutOfBounds(i64, usize),
    CoerceObject(String, String),
    ArgsCount(usize, usize),
    BuiltinArgsType(String, String, String),
}

impl View for EvalErr {
    type V = EvalErrV;

    open spec fn view(&self) -> EvalErrV {
        match self {
            EvalErr::CoerceErr(e) => EvalErrV::CoerceErr(e@),
            EvalErr::ParseErr(e) => EvalErrV::ParseErr(e@),
            EvalErr::NotImplemented(s) => EvalErrV::NotImplemented(s@),
            EvalErr::MinusPrefix(s) => EvalErrV::MinusPrefix(s@),
            EvalErr::DivideByZero => EvalErrV::DivideByZero,
            EvalErr::IdentifierNotFound(s) => EvalErrV::IdentifierNotFound(s@),
            EvalErr::PlusError(a, b) => EvalErrV::PlusError(a@, b@),
            EvalErr::SubstractError(a, b) => EvalErrV::SubstractError(a@, b@),
            EvalErr::MultiplyError(a, b) => EvalErrV::MultiplyError(a@, b@),
            EvalErr::DivideError(a, b) => EvalErrV::DivideError(a@, b@),
            EvalErr::Order(a, b) => EvalErrV::Order(a@, b@),
            EvalErr::Equal(a, b) => EvalErrV::Equal(a@, b@),
            EvalErr::AssignLHS(s) => EvalErrV::AssignLHS(s@),
            EvalErr::AlreadyInitialized(s) => EvalErrV::AlreadyInitialized(s@),
            EvalErr::IndexArray(s) => EvalErrV::IndexArray(s@),
            EvalErr::IndexOutOfBounds(i, n) => EvalErrV::IndexOutOfBounds(
                *i as int,
                *n as int,
            ),
            EvalErr::CoerceObject(a, b) => EvalErrV::CoerceObject(a@, b@),
            EvalErr::ArgsCount(a, b) => EvalErrV::ArgsCount(*a as int, *b as int),
            EvalErr::BuiltinArgsType(a, b, c) => EvalErrV::BuiltinArgsType(a@, b@, c@),
        }
    }
}

/// The variant of an evaluation error as a number.
pub open spec fn eval_err_kind(e: EvalErrV) -> int {
    match e {
        EvalErrV::CoerceErr(_) => 0,
        EvalErrV::ParseErr(_) => 1,
        EvalErrV::NotImplemented(_) => 2,
        EvalErrV::MinusPrefix(_) => 3,
        EvalErrV::DivideByZero => 4,
        EvalErrV::IdentifierNotFound(_) => 5,
        EvalErrV::PlusError(_, _) => 6,
        EvalErrV::SubstractError(_, _) => 7,
        EvalErrV::MultiplyError(_, _) => 8,
        EvalErrV::DivideError(_, _) => 9,
        EvalErrV::Order(_, _) => 10,
        EvalErrV::Equal(_, _) => 11,
        EvalErrV::AssignLHS(_) => 12,
        EvalErrV::AlreadyInitialized(_) => 13,
        EvalErrV::IndexArray(_) => 14,
        EvalErrV::IndexOutOfBounds(_, _) => 15,
        EvalErrV::CoerceObject(_, _) => 16,
        EvalErrV::ArgsCount(_, _) => 17,
        EvalErrV::BuiltinArgsType(_, _, _) => 18,
    }
}

impl EvalErr {
    /// The variant of this error as a number, matching `eval_err_kind`.
    pub fn kind_code(&self) -> (r: u32)
        ensures
            r as int == eval_err_kind(self@),
    {
        match self {
            EvalErr::CoerceErr(_) => 0,
            EvalErr::ParseErr(_) => 1,
            EvalErr::NotImplemented(_) => 2,
            EvalErr::MinusPrefix(_) => 3,
            EvalErr::DivideByZero => 4,
            EvalErr::IdentifierNotFound(_) => 5,
            EvalErr::PlusError(_, _) => 6,
            EvalErr::SubstractError(_, _) => 7,
            EvalErr::MultiplyError(_, _) => 8,
            EvalErr::DivideError(_, _) => 9,
            EvalErr::Order(_, _) => 10,
            EvalErr::Equal(_, _) => 11,
            EvalErr::AssignLHS(_) => 12,
            EvalErr::AlreadyInitialized(_) => 13,
            EvalErr::IndexArray(_) => 14,
            EvalErr::IndexOutOfBounds(_, _) => 15,
            EvalErr::CoerceObject(_, _) => 16,
            EvalErr::ArgsCount(_, _) => 17,
            EvalErr::BuiltinArgsType(_, _, _) => 18,
        }
    }

    /// Whether two evaluation errors are the same variant, whatever the
    /// payloads.
    pub fn match_err(&self, err: EvalErr) -> (r: bool)
        ensures
            r == (eval_err_kind(self@) == eval_err_kind(err@)),
    {
        self.kind_code() == err.kind_code()
    }
}

} // verus!
