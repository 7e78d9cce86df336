//! Runtime values.
//!
//! Arrays and closure environments are shared-mutable: a value holds only a
//! handle (an index into the store's arenas), so two values with the same
//! handle alias one buffer or one scope.  `ObjV` is the mathematical view.

use vstd::prelude::*;

use crate::ast::{
    BlockStatement, Identifier, StmtV, clone_block, clone_idents, idents_view, stmts_view,
};
use crate::errors::EvalErr;
use crate::render::{spec_block_str, spec_names_join};
use crate::strutil::{int_to_string, spec_int_str};

verus! {

/// Mathematical view of a runtime value.  Array payloads and function
/// environments are handles into the store.
pub enum ObjV {
    Number(int),
    Identifier(Seq<char>),
    Str(Seq<char>),
    Builtin(Seq<char>),
    Boolean(bool),
    Array(int),
    Null,
    Return(Box<ObjV>),
    Function(Seq<Seq<char>>, Seq<StmtV>, int),
}

/// A user function value: its parameter names, its body, and the handle of
/// the environment it captured.
#[derive(Debug, PartialEq)]
pub struct Function {
    pub params: Vec<Identifier>,
    pub body: BlockStatement,
    pub env: usize,
}

impl Function {
    /// A function value capturing the given environment.
    pub fn new(params: Vec<Identifier>, body: BlockStatement, env: usize) -> (r: Self)
        ensures
            r.params == params,
            r.body == body,
            r.env == env,
    {
        Self { params, body, env }
    }
}

impl View for Function {
    type V = ObjV;

    open spec fn view(&self) -> ObjV {
        ObjV::Function(idents_view(self.params@), self.body@, self.env as int)
    }
}

/// A runtime value.
#[derive(Debug, PartialEq)]
pub enum Object {
    Number(i64),
    Identifier(Identifier),
    String(String),
    Builtin(String),
    Boolean(bool),
    Array(usize),
    Null,
    Return(Box<Object>),
    Function(Box<Function>),
}

/// The view of a runtime value.
pub open spec fn obj_view(o: Object) -> ObjV
    decreases o,
{
    match o {
        Object::Number(n) => ObjV::Number(n as int),
        Object::Identifier(id) => ObjV::Identifier(id.0@),
        Object::String(s) => ObjV::Str(s@),
        Object::Builtin(s) => ObjV::Builtin(s@),
        Object::Boolean(b) => ObjV::Boolean(b),
        Object::Array(h) => ObjV::Array(h as int),
        Object::Null => ObjV::Null,
        Object::Return(b) => ObjV::Return(Box::new(obj_view(*b))),
        Object::Function(f) => ObjV::Function(
            idents_view(f.params@),
            stmts_view(f.body.statements@),
            f.env as int,
        ),
    }
}

impl View for Object {
    type V = ObjV;

    open spec fn view(&self) -> ObjV {
        obj_view(*self)
    }
}

/// The textual form of a value on its own.  An array shows as `[...]`
/// here: its elements live in the store, and the store's `render_value`
/// renders them element-wise.
pub open spec fn spec_obj_str(o: ObjV) -> Seq<char>
    decreases o,
{
    match o {
        ObjV::Str(s) => s,
        ObjV::Number(n) => spec_int_str(n),
        ObjV::Identifier(s) => s,
        ObjV::Boolean(b) => if b {
            "true"@
        } else {
            "false"@
        },
        ObjV::Array(_) => "[...]"@,
        ObjV::Null => "Null"@,
        ObjV::Return(r) => spec_obj_str(*r),
        ObjV::Function(params, body, _) => "fn("@ + spec_names_join(params, ", "@, 0) + ") "@
            + spec_block_str(body),
        ObjV::Builtin(s) => "builtins("@ + s + ")"@,
    }
}

/// The name of a value's kind, used in diagnostics.
pub open spec fn spec_obj_type_name(o: ObjV) -> Seq<char> {
    match o {
        ObjV::Number(_) => "Number"@,
        ObjV::Identifier(_) => "Identifier"@,
        ObjV::Str(_) => "String"@,
        ObjV::Builtin(_) => "Builtin"@,
        ObjV::Boolean(_) => "Boolean"@,
        ObjV::Array(_) => "Array"@,
        ObjV::Null => "Null"@,
        ObjV::Return(_) => "Return"@,
        ObjV::Function(_, _, _) => "Function"@,
    }
}

impl Object {
    /// The number this value is, or an object-mismatch error.
    pub fn to_num(&self) -> (r: Result<i64, EvalErr>)
        ensures
            r is Ok <==> self@ is Number,
            r matches Ok(n) ==> self@ == ObjV::Number(n as int),
            r matches Err(e) ==> e@ == crate::errors::EvalErrV::CoerceObject(
                spec_obj_str(self@),
                "number"@,
            ),
    {
        match self {
            Object::Number(n) => Ok(*n),
            _ => Err(EvalErr::CoerceObject(self.to_string(), String::from_str("number"))),
        }
    }

    /// The array handle this value carries, or the given error.
    pub fn to_arr(&self, err: EvalErr) -> (r: Result<usize, EvalErr>)
        ensures
            r is Ok <==> self@ is Array,
            r matches Ok(h) ==> self@ == ObjV::Array(h as int),
            r matches Err(e) ==> e == err,
    {
        match self {
            Object::Array(h) => Ok(*h),
            _ => Err(err),
        }
    }

    /// The textual form of this value, exactly as `spec_obj_str` gives it.
    pub fn to_string(&self) -> (r: String)
        ensures
            r@ == spec_obj_str(self@),
        decreases self,
    {
        match self {
            Object::String(s) => s.clone(),
            Object::Number(n) => int_to_string(*n),
            Object::Identifier(i) => i.0.clone(),
            Object::Boolean(b) => {
                if *b {
                    String::from_str("true")
                } else {
                    String::from_str("false")
                }
            },
            Object::Array(_) => String::from_str("[...]"),
            Object::Null => String::from_str("Null"),
            Object::Return(r) => r.to_string(),
            Object::Function(f) => {
                let mut s = String::from_str("fn(");
                let params = crate::render::idents_join_str(&f.params, ", ");
                s.append(params.as_str());
                s.append(") ");
                let body = crate::render::block_to_str(&f.body);
                s.append(body.as_str());
                s
            },
            Object::Builtin(s) => {
                let mut r = String::from_str("builtins(");
                r.append(s.as_str());
                r.append(")");
                r
            },
        }
    }

    /// The name of this value's kind.
    pub fn get_type(&self) -> (r: String)
        ensures
            r@ == spec_obj_type_name(self@),
    {
        match self {
            Object::Number(_) => String::from_str("Number"),
            Object::Identifier(_) => String::from_str("Identifier"),
            Object::String(_) => String::from_str("String"),
            Object::Builtin(_) => String::from_str("Builtin"),
            Object::Boolean(_) => String::from_str("Boolean"),
            Object::Array(_) => String::from_str("Array"),
            Object::Null => String::from_str("Null"),
            Object::Return(_) => String::from_str("Return"),
            Object::Function(_) => String::from_str("Function"),
        }
    }

    /// Whether this value is the internal early-return marker.
    pub fn is_return(&self) -> (r: bool)
        ensures
            r == (self@ is Return),
    {
        match self {
            Object::Return(_) => true,
            _ => false,
        }
    }
}

/// The view of a value list, element by element.
pub open spec fn objs_view(os: Seq<Object>) -> Seq<ObjV> {
    os.map_values(|o: Object| obj_view(o))
}

/// A copy of a value, with the same view.  Array copies share the handle,
/// so both alias the same buffer in the store.
pub fn object_clone(o: &Object) -> (r: Object)
    ensures
        r@ == o@,
    decreases o,
{
    match o {
        Object::Number(n) => Object::Number(*n),
        Object::Identifier(id) => Object::Identifier(crate::ast::clone_ident(id)),
        Object::String(s) => Object::String(s.clone()),
        Object::Builtin(s) => Object::Builtin(s.clone()),
        Object::Boolean(b) => Object::Boolean(*b),
        Object::Array(h) => Object::Array(*h),
        Object::Null => Object::Null,
        Object::Return(b) => Object::Return(Box::new(object_clone(b))),
        Object::Function(f) => Object::Function(
            Box::new(
                Function {
                    params: clone_idents(&f.params),
                    body: clone_block(&f.body),
                    env: f.env,
                },
            ),
        ),
    }
}

} // verus!
