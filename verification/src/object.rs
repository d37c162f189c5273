use vstd::prelude::*;
use vstd::string::*;
use crate::ast::{
    block_view, clone_block, clone_identifiers, identifiers_string, names_text, names_view, Block,
    BlockStatement, Identifier, Name,
};
use crate::text::{int_text, int_to_string};

verus! {

/// A function value: parameter names and a body. It keeps nothing of the
/// scope in which it was made.
#[derive(Debug, PartialEq)]
pub struct Function {
    pub parameters: Vec<Identifier>,
    pub body: BlockStatement,
}

/// A runtime value.
#[derive(Debug, PartialEq)]
pub enum Object {
    Integer(i64),
    Boolean(bool),
    /// The absence of a value.
    Null,
    /// A value on its way out of the blocks around a `return`.
    ReturnValue(Box<Object>),
    Function(Function),
}

/// The mathematical value of an [`Object`].
pub enum Value {
    Integer(i64),
    Boolean(bool),
    Null,
    Return(Box<Value>),
    Function { parameters: Seq<Name>, body: Block },
}

/// The value of an object.
pub open spec fn object_view(o: Object) -> Value
    decreases o,
{
    match o {
        Object::Integer(i) => Value::Integer(i),
        Object::Boolean(b) => Value::Boolean(b),
        Object::Null => Value::Null,
        Object::ReturnValue(inner) => Value::Return(Box::new(object_view(*inner))),
        Object::Function(f) => Value::Function {
            parameters: names_view(f.parameters@),
            body: block_view(f.body),
        },
    }
}

impl View for Object {
    type V = Value;

    open spec fn view(&self) -> Value {
        object_view(*self)
    }
}

/// The values of a sequence of objects.
pub open spec fn objects_view(os: Seq<Object>) -> Seq<Value> {
    Seq::new(os.len(), |i: int| os[i]@)
}

/// The text that shows a value: the literal text of an integer or a
/// boolean, `null` for the absent value, the parameter list of a function
/// without its body; a returning value shows as the value it carries.
pub open spec fn value_text(v: Value) -> Seq<char>
    decreases v,
{
    match v {
        Value::Integer(i) => int_text(i as int),
        Value::Boolean(b) => if b {
            "true"@
        } else {
            "false"@
        },
        Value::Null => "null"@,
        Value::Return(inner) => value_text(*inner),
        Value::Function { parameters, .. } => "fn("@ + names_text(parameters, parameters.len())
            + ") { ... }"@,
    }
}

/// A copy of an object.
pub(crate) fn clone_object(o: &Object) -> (r: Object)
    ensures
        r@ == o@,
    decreases o,
{
    match o {
        Object::Integer(i) => Object::Integer(*i),
        Object::Boolean(b) => Object::Boolean(*b),
        Object::Null => Object::Null,
        Object::ReturnValue(inner) => Object::ReturnValue(Box::new(clone_object(inner))),
        Object::Function(f) => Object::Function(
            Function { parameters: clone_identifiers(&f.parameters), body: clone_block(&f.body) },
        ),
    }
}

/// The text that shows an object, as [`value_text`] defines it.
pub(crate) fn object_string(o: &Object) -> (s: String)
    ensures
        s@ == value_text(o@),
    decreases o,
{
    match o {
        Object::Integer(i) => int_to_string(*i),
        Object::Boolean(b) => if *b {
            "true".to_owned()
        } else {
            "false".to_owned()
        },
        Object::Null => "null".to_owned(),
        Object::ReturnValue(inner) => object_string(inner),
        Object::Function(f) => {
            let mut s = "fn(".to_owned();
            s.append(identifiers_string(&f.parameters).as_str());
            s.append(") { ... }");
            s
        },
    }
}

impl Clone for Object {
    fn clone(&self) -> (r: Self)
        ensures
            r@ == self@,
    {
        clone_object(self)
    }
}

impl Clone for Function {
    fn clone(&self) -> (r: Self)
        ensures
            names_view(r.parameters@) == names_view(self.parameters@),
            r.body@ == self.body@,
    {
        Function { parameters: clone_identifiers(&self.parameters), body: clone_block(&self.body) }
    }
}

impl Object {
    /// The text that shows the object, as [`value_text`] defines it.
    pub fn to_string(&self) -> (s: String)
        ensures
            s@ == value_text(self@),
    {
        object_string(self)
    }
}

} // verus!
