use vstd::prelude::*;
use vstd::string::*;
use crate::ast::{
    clone_block, clone_identifiers, exprs_view, names_view, BlockStatement, Expression,
    IfExpression, Program, Statement,
};
use crate::environment::Environment;
use crate::object::{clone_object, objects_view, Function, Object, Value};
use crate::semantics;
use crate::semantics::{
    bang_value, bind_parameters, infix_value, integer_infix_value, minus_value, prefix_value,
    truthy, Fault,
};
use crate::text::same_text;

verus! {

/// The value of a result that holds an object.
pub open spec fn value_of(r: Result<Object, Fault>) -> Result<Value, Fault> {
    match r {
        Ok(object) => Ok(object@),
        Err(fault) => Err(fault),
    }
}

/// Whether a result and the scope it left behind are what `expected` says:
/// the same value or the same fault, in the same scope.
pub open spec fn agrees(
    r: Result<Object, Fault>,
    after: Map<Seq<char>, Value>,
    expected: Result<(Value, Map<Seq<char>, Value>), (Fault, Map<Seq<char>, Value>)>,
) -> bool {
    match expected {
        Ok((value, scope)) => value_of(r) == Ok::<Value, Fault>(value) && after == scope,
        Err((fault, scope)) => value_of(r) == Err::<Value, Fault>(fault) && after == scope,
    }
}

/// Evaluates a program in `env`, with calls nested at most `depth` deep.
///
/// The statements run in order; the result is that of the last one, or the
/// value of the first `return`, after which nothing runs. A fault stops
/// the evaluation at once: `env` then holds what had been bound up to that
/// moment.
pub fn evaluate(program: &Program, env: &mut Environment, depth: usize) -> (r: Result<
    Object,
    Fault,
>)
    ensures
        agrees(r, final(env)@, semantics::eval_program(program@, old(env)@, depth as nat)),
{
    let mut result = Object::Null;
    let mut i: usize = 0;
    while i < program.statements.len()
        invariant
            i <= program.statements@.len(),
            semantics::eval_statements(program@, i as nat, result@, env@, depth as nat)
                == semantics::eval_program(program@, old(env)@, depth as nat),
        decreases program.statements@.len() - i,
    {
        match eval_statement(&program.statements[i], env, depth) {
            Err(fault) => {
                return Err(fault);
            },
            Ok(value) => match value {
                Object::ReturnValue(inner) => {
                    return Ok(*inner);
                },
                other => {
                    result = other;
                },
            },
        }
        i += 1;
    }
    Ok(result)
}

/// Evaluates a program in `env`.
///
/// The program must be one whose evaluation meets no fault: no division by
/// zero, no arithmetic overflow, no call with too few arguments, and no
/// nesting of calls beyond what the machine can count. A program that has
/// a result with calls nested to some smaller depth is such a program, as
/// [`semantics::lemma_deeper_program`] shows; [`evaluate`] tells of any
/// program.
pub fn eval_program(program: &Program, env: &mut Environment) -> (result: Object)
    requires
        semantics::eval_program(program@, old(env)@, usize::MAX as nat) is Ok,
    ensures
        semantics::eval_program(program@, old(env)@, usize::MAX as nat) == Ok::<
            (Value, Map<Seq<char>, Value>),
            (Fault, Map<Seq<char>, Value>),
        >((result@, final(env)@)),
{
    match evaluate(program, env, usize::MAX) {
        Ok(result) => result,
        Err(_) => unreached(),
    }
}

fn eval_statement(stmt: &Statement, env: &mut Environment, depth: usize) -> (r: Result<
    Object,
    Fault,
>)
    ensures
        agrees(r, final(env)@, semantics::eval_statement(stmt@, old(env)@, depth as nat)),
    decreases depth, 0nat, stmt,
{
    match stmt {
        Statement::Expression(val) => eval_expression(&val.expression, env, depth),
        Statement::Let(val) => match eval_expression(&val.value, env, depth) {
            Err(fault) => Err(fault),
            Ok(value) => Ok(env.set(val.name.value.clone(), value)),
        },
        Statement::Return(val) => match eval_expression(&val.return_value, env, depth) {
            Err(fault) => Err(fault),
            Ok(value) => Ok(Object::ReturnValue(Box::new(value))),
        },
    }
}

fn eval_expression(exp: &Expression, env: &mut Environment, depth: usize) -> (r: Result<
    Object,
    Fault,
>)
    ensures
        agrees(r, final(env)@, semantics::eval_expression(exp@, old(env)@, depth as nat)),
    decreases depth, 0nat, exp,
{
    match exp {
        Expression::IntegerLiteral(i) => Ok(Object::Integer(i.value)),
        Expression::Boolean(b) => Ok(Object::Boolean(b.value)),
        Expression::Prefix(p) => match eval_expression(&p.right, env, depth) {
            Err(fault) => Err(fault),
            Ok(right) => eval_prefix_expression(p.operator.as_str(), right),
        },
        Expression::Infix(i) => match eval_expression(&i.left, env, depth) {
            Err(fault) => Err(fault),
            Ok(left) => match eval_expression(&i.right, env, depth) {
                Err(fault) => Err(fault),
                Ok(right) => eval_infix_expression(i.operator.as_str(), left, right),
            },
        },
        Expression::If(ie) => eval_if_expression(ie, env, depth),
        Expression::Identifier(ident) => match env.get(ident.value.as_str()) {
            Some(val) => Ok(val),
            None => Ok(Object::Null),
        },
        Expression::Function(fl) => Ok(
            Object::Function(
                Function {
                    parameters: clone_identifiers(&fl.parameters),
                    body: clone_block(&fl.body),
                },
            ),
        ),
        Expression::Call(c) => {
            let function = match eval_expression(&c.function, env, depth) {
                Err(fault) => {
                    return Err(fault);
                },
                Ok(function) => function,
            };
            let args = match eval_expressions(&c.arguments, env, depth) {
                Err(fault) => {
                    return Err(fault);
                },
                Ok(args) => args,
            };
            match function {
                Object::Function(fn_obj) => {
                    if args.len() < fn_obj.parameters.len() {
                        Err(Fault::MissingArgument)
                    } else if depth == 0 {
                        Err(Fault::DepthExceeded)
                    } else {
                        apply_function(fn_obj, args, depth - 1)
                    }
                },
                _ => Ok(Object::Null),
            }
        },
    }
}

fn eval_prefix_expression(operator: &str, right: Object) -> (r: Result<Object, Fault>)
    ensures
        value_of(r) == prefix_value(operator@, right@),
{
    if same_text(operator, "!") {
        Ok(eval_bang_operator_expression(right))
    } else if same_text(operator, "-") {
        eval_minus_operator_expression(right)
    } else {
        Ok(Object::Null)
    }
}

fn eval_bang_operator_expression(right: Object) -> (r: Object)
    ensures
        r@ == bang_value(right@),
{
    match right {
        Object::Boolean(true) => Object::Boolean(false),
        Object::Boolean(false) => Object::Boolean(true),
        Object::Null => Object::Boolean(true),
        _ => Object::Boolean(false),
    }
}

fn eval_minus_operator_expression(right: Object) -> (r: Result<Object, Fault>)
    ensures
        value_of(r) == minus_value(right@),
{
    match right {
        Object::Integer(val) => match 0i64.checked_sub(val) {
            Some(negated) => Ok(Object::Integer(negated)),
            None => Err(Fault::Overflow),
        },
        _ => Ok(Object::Null),
    }
}

fn eval_infix_expression(operator: &str, left: Object, right: Object) -> (r: Result<
    Object,
    Fault,
>)
    ensures
        value_of(r) == infix_value(operator@, left@, right@),
{
    match (left, right) {
        (Object::Integer(l), Object::Integer(r)) => eval_integer_infix_expression(operator, l, r),
        _ => Ok(Object::Null),
    }
}

fn integer_or_overflow(value: Option<i64>) -> (r: Result<Object, Fault>)
    ensures
        value_of(r) == match value {
            Some(i) => Ok::<Value, Fault>(Value::Integer(i)),
            None => Err::<Value, Fault>(Fault::Overflow),
        },
{
    match value {
        Some(i) => Ok(Object::Integer(i)),
        None => Err(Fault::Overflow),
    }
}

fn eval_integer_infix_expression(operator: &str, left: i64, right: i64) -> (r: Result<
    Object,
    Fault,
>)
    ensures
        value_of(r) == integer_infix_value(operator@, left, right),
{
    if same_text(operator, "+") {
        integer_or_overflow(left.checked_add(right))
    } else if same_text(operator, "-") {
        integer_or_overflow(left.checked_sub(right))
    } else if same_text(operator, "*") {
        integer_or_overflow(left.checked_mul(right))
    } else if same_text(operator, "/") {
        if right == 0 {
            Err(Fault::DivisionByZero)
        } else {
            integer_or_overflow(left.checked_div(right))
        }
    } else if same_text(operator, "<") {
        Ok(Object::Boolean(left < right))
    } else if same_text(operator, ">") {
        Ok(Object::Boolean(left > right))
    } else if same_text(operator, "==") {
        Ok(Object::Boolean(left == right))
    } else if same_text(operator, "!=") {
        Ok(Object::Boolean(left != right))
    } else {
        Ok(Object::Null)
    }
}

fn eval_if_expression(ie: &IfExpression, env: &mut Environment, depth: usize) -> (r: Result<
    Object,
    Fault,
>)
    ensures
        agrees(
            r,
            final(env)@,
            semantics::eval_expression(Expression::If(*ie)@, old(env)@, depth as nat),
        ),
    decreases depth, 0nat, ie,
{
    let condition = match eval_expression(&ie.condition, env, depth) {
        Err(fault) => {
            return Err(fault);
        },
        Ok(condition) => condition,
    };
    if is_truthy(&condition) {
        eval_block_statement(&ie.consequence, env, depth)
    } else {
        match &ie.alternative {
            Some(alt) => eval_block_statement(alt, env, depth),
            None => Ok(Object::Null),
        }
    }
}

fn eval_block_statement(block: &BlockStatement, env: &mut Environment, depth: usize) -> (r:
    Result<Object, Fault>)
    ensures
        agrees(
            r,
            final(env)@,
            semantics::eval_block(block@.statements, 0, Value::Null, old(env)@, depth as nat),
        ),
    decreases depth, 0nat, block,
{
    let mut result = Object::Null;
    let mut i: usize = 0;
    while i < block.statements.len()
        invariant
            i <= block.statements@.len(),
            semantics::eval_block(block@.statements, i as nat, result@, env@, depth as nat)
                == semantics::eval_block(
                block@.statements,
                0,
                Value::Null,
                old(env)@,
                depth as nat,
            ),
        decreases block.statements@.len() - i,
    {
        match eval_statement(&block.statements[i], env, depth) {
            Err(fault) => {
                return Err(fault);
            },
            Ok(value) => match value {
                Object::ReturnValue(inner) => {
                    return Ok(Object::ReturnValue(inner));
                },
                other => {
                    result = other;
                },
            },
        }
        i += 1;
    }
    Ok(result)
}

fn is_truthy(obj: &Object) -> (r: bool)
    ensures
        r == truthy(obj@),
{
    match obj {
        Object::Null => false,
        Object::Boolean(true) => true,
        Object::Boolean(false) => false,
        _ => true,
    }
}

fn apply_function(fn_obj: Function, args: Vec<Object>, depth: usize) -> (r: Result<Object, Fault>)
    requires
        fn_obj.parameters@.len() <= args@.len(),
    ensures
        value_of(r) == semantics::apply_function(
            names_view(fn_obj.parameters@),
            fn_obj.body@,
            objects_view(args@),
            depth as nat,
        ),
    decreases depth, 1nat, fn_obj,
{
    let mut extended_env = Environment::new();
    let mut i: usize = 0;
    while i < fn_obj.parameters.len()
        invariant
            i <= fn_obj.parameters@.len() <= args@.len(),
            extended_env@ == bind_parameters(
                names_view(fn_obj.parameters@),
                objects_view(args@),
                i as nat,
            ),
        decreases fn_obj.parameters@.len() - i,
    {
        extended_env.set(fn_obj.parameters[i].value.clone(), clone_object(&args[i]));
        i += 1;
    }
    match eval_block_statement(&fn_obj.body, &mut extended_env, depth) {
        Err(fault) => Err(fault),
        Ok(evaluated) => match evaluated {
            Object::ReturnValue(val) => Ok(*val),
            other => Ok(other),
        },
    }
}

fn eval_expressions(exps: &Vec<Expression>, env: &mut Environment, depth: usize) -> (r: Result<
    Vec<Object>,
    Fault,
>)
    ensures
        match semantics::eval_expressions(
            exprs_view(exps@),
            0,
            Seq::empty(),
            old(env)@,
            depth as nat,
        ) {
            Ok((values, scope)) => r is Ok && objects_view(r->Ok_0@) == values && final(env)@
                == scope,
            Err((fault, scope)) => r is Err && r->Err_0 == fault && final(env)@ == scope,
        },
    decreases depth, 0nat, exps,
{
    let mut result: Vec<Object> = Vec::new();
    let mut i: usize = 0;
    assert(objects_view(result@) =~= Seq::empty());
    while i < exps.len()
        invariant
            i <= exps@.len(),
            semantics::eval_expressions(
                exprs_view(exps@),
                i as nat,
                objects_view(result@),
                env@,
                depth as nat,
            ) == semantics::eval_expressions(
                exprs_view(exps@),
                0,
                Seq::empty(),
                old(env)@,
                depth as nat,
            ),
        decreases exps@.len() - i,
    {
        let ghost done = objects_view(result@);
        match eval_expression(&exps[i], env, depth) {
            Err(fault) => {
                return Err(fault);
            },
            Ok(value) => {
                result.push(value);
                assert(objects_view(result@) =~= done.push(value@));
            },
        }
        i += 1;
    }
    Ok(result)
}

} // verus!
