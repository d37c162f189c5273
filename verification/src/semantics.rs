use vstd::prelude::*;
use crate::ast::{Block, Expr, Name, Stmt};
use crate::object::Value;
use crate::token::Token;

verus! {

/// What stops an evaluation before it has a value.
#[derive(Debug, Clone, Copy, PartialEq, Eq)]
pub enum Fault {
    /// A division by zero.
    DivisionByZero,
    /// An arithmetic result that no 64-bit integer holds.
    Overflow,
    /// A call with fewer arguments than the function has parameters.
    MissingArgument,
    /// Calls nested deeper than the evaluation was allowed to go.
    DepthExceeded,
}

/// Whether a value counts as true in a condition: every value does but the
/// absent value and `false`.
pub open spec fn truthy(v: Value) -> bool {
    match v {
        Value::Null => false,
        Value::Boolean(b) => b,
        _ => true,
    }
}

/// `!v`: the negation of a boolean, `true` for the absent value, `false`
/// for every other value.
pub open spec fn bang_value(v: Value) -> Value {
    match v {
        Value::Boolean(b) => Value::Boolean(!b),
        Value::Null => Value::Boolean(true),
        _ => Value::Boolean(false),
    }
}

/// `-v`: the negated integer, the absent value for what is no integer.
pub open spec fn minus_value(v: Value) -> Result<Value, Fault> {
    match v {
        Value::Integer(i) => if i == i64::MIN {
            Err(Fault::Overflow)
        } else {
            Ok(Value::Integer((-i) as i64))
        },
        _ => Ok(Value::Null),
    }
}

/// A prefix operator applied to a value. An operator that is neither `!`
/// nor `-` gives the absent value.
pub open spec fn prefix_value(operator: Seq<char>, v: Value) -> Result<Value, Fault> {
    if operator == "!"@ {
        Ok(bang_value(v))
    } else if operator == "-"@ {
        minus_value(v)
    } else {
        Ok(Value::Null)
    }
}

/// The quotient of `x` by `d`, rounded toward zero.
pub open spec fn quotient_toward_zero(x: int, d: int) -> int
    recommends
        d != 0,
{
    if x >= 0 && d > 0 {
        x / d
    } else if x < 0 && d < 0 {
        (-x) / (-d)
    } else if x < 0 {
        -((-x) / d)
    } else {
        -(x / (-d))
    }
}

/// An integer as a value, or an overflow if no 64-bit integer holds it.
pub open spec fn integer_value(i: int) -> Result<Value, Fault> {
    if i64::MIN <= i <= i64::MAX {
        Ok(Value::Integer(i as i64))
    } else {
        Err(Fault::Overflow)
    }
}

/// An infix operator between two integers: `+ - * /` give an integer,
/// `< > == !=` a boolean, any other operator the absent value.
pub open spec fn integer_infix_value(operator: Seq<char>, left: i64, right: i64) -> Result<
    Value,
    Fault,
> {
    if operator == "+"@ {
        integer_value(left + right)
    } else if operator == "-"@ {
        integer_value(left - right)
    } else if operator == "*"@ {
        integer_value(left * right)
    } else if operator == "/"@ {
        if right == 0 {
            Err(Fault::DivisionByZero)
        } else {
            integer_value(quotient_toward_zero(left as int, right as int))
        }
    } else if operator == "<"@ {
        Ok(Value::Boolean(left < right))
    } else if operator == ">"@ {
        Ok(Value::Boolean(left > right))
    } else if operator == "=="@ {
        Ok(Value::Boolean(left == right))
    } else if operator == "!="@ {
        Ok(Value::Boolean(left != right))
    } else {
        Ok(Value::Null)
    }
}

/// An infix operator between two values: defined between integers, the
/// absent value between any others.
pub open spec fn infix_value(operator: Seq<char>, left: Value, right: Value) -> Result<
    Value,
    Fault,
> {
    match (left, right) {
        (Value::Integer(l), Value::Integer(r)) => integer_infix_value(operator, l, r),
        _ => Ok(Value::Null),
    }
}

/// The value that a returning value carries; any other value as it is.
pub open spec fn unwrap_return(v: Value) -> Value {
    match v {
        Value::Return(inner) => *inner,
        _ => v,
    }
}

/// The value bound to `name` in `scope`, or the absent value.
pub open spec fn lookup(scope: Map<Seq<char>, Value>, name: Seq<char>) -> Value {
    if scope.contains_key(name) {
        scope[name]
    } else {
        Value::Null
    }
}

/// The scope in which a function's body runs: the first `n` parameters
/// bound to the arguments at their positions, and nothing else. Of two
/// parameters with one name the later one counts.
pub open spec fn bind_parameters(parameters: Seq<Name>, arguments: Seq<Value>, n: nat) -> Map<
    Seq<char>,
    Value,
>
    recommends
        n <= parameters.len() <= arguments.len(),
    decreases n,
{
    if n == 0 {
        Map::empty()
    } else {
        bind_parameters(parameters, arguments, (n - 1) as nat).insert(
            parameters[n - 1].value,
            arguments[n - 1],
        )
    }
}

/// The value of an expression in `scope`, and the scope after it, with
/// calls nested at most `depth` deep; or the fault that stopped the
/// evaluation, and the scope at that moment.
pub open spec fn eval_expression(e: Expr, scope: Map<Seq<char>, Value>, depth: nat) -> Result<
    (Value, Map<Seq<char>, Value>),
    (Fault, Map<Seq<char>, Value>),
>
    decreases depth, e, 0nat,
{
    match e {
        Expr::Integer { value, .. } => Ok((Value::Integer(value), scope)),
        Expr::Boolean { value, .. } => Ok((Value::Boolean(value), scope)),
        Expr::Identifier(name) => Ok((lookup(scope, name.value), scope)),
        Expr::Function { parameters, body, .. } => Ok((Value::Function { parameters, body }, scope)),
        Expr::Prefix { operator, right, .. } => match eval_expression(*right, scope, depth) {
            Err(stop) => Err(stop),
            Ok((right, s1)) => match prefix_value(operator, right) {
                Err(fault) => Err((fault, s1)),
                Ok(value) => Ok((value, s1)),
            },
        },
        Expr::Infix { left, operator, right, .. } => match eval_expression(*left, scope, depth) {
            Err(stop) => Err(stop),
            Ok((left, s1)) => match eval_expression(*right, s1, depth) {
                Err(stop) => Err(stop),
                Ok((right, s2)) => match infix_value(operator, left, right) {
                    Err(fault) => Err((fault, s2)),
                    Ok(value) => Ok((value, s2)),
                },
            },
        },
        Expr::If { condition, consequence, alternative, .. } => match eval_expression(
            *condition,
            scope,
            depth,
        ) {
            Err(stop) => Err(stop),
            Ok((condition, s1)) => if truthy(condition) {
                eval_block(consequence.statements, 0, Value::Null, s1, depth)
            } else {
                match alternative {
                    Some(alternative) => eval_block(
                        alternative.statements,
                        0,
                        Value::Null,
                        s1,
                        depth,
                    ),
                    None => Ok((Value::Null, s1)),
                }
            },
        },
        Expr::Call { function, arguments, .. } => match eval_expression(*function, scope, depth) {
            Err(stop) => Err(stop),
            Ok((callee, s1)) => match eval_expressions(arguments, 0, Seq::empty(), s1, depth) {
                Err(stop) => Err(stop),
                Ok((values, s2)) => match callee {
                    Value::Function { parameters, body } => if values.len() < parameters.len() {
                        Err((Fault::MissingArgument, s2))
                    } else if depth == 0 {
                        Err((Fault::DepthExceeded, s2))
                    } else {
                        match apply_function(parameters, body, values, (depth - 1) as nat) {
                            Err(fault) => Err((fault, s2)),
                            Ok(value) => Ok((value, s2)),
                        }
                    },
                    _ => Ok((Value::Null, s2)),
                },
            },
        },
    }
}

/// The values of the expressions from `from` on, evaluated from left to
/// right, added to `done`; and the scope after the last of them.
pub open spec fn eval_expressions(
    es: Seq<Expr>,
    from: nat,
    done: Seq<Value>,
    scope: Map<Seq<char>, Value>,
    depth: nat,
) -> Result<(Seq<Value>, Map<Seq<char>, Value>), (Fault, Map<Seq<char>, Value>)>
    decreases depth, es, es.len() - from,
{
    if from >= es.len() {
        Ok((done, scope))
    } else {
        match eval_expression(es[from as int], scope, depth) {
            Err(stop) => Err(stop),
            Ok((value, s1)) => eval_expressions(es, from + 1, done.push(value), s1, depth),
        }
    }
}

/// The result of a statement in `scope`. A `let` binds its name to the
/// value and results in it; a `return` wraps the value so that the blocks
/// around it can tell.
pub open spec fn eval_statement(s: Stmt, scope: Map<Seq<char>, Value>, depth: nat) -> Result<
    (Value, Map<Seq<char>, Value>),
    (Fault, Map<Seq<char>, Value>),
>
    decreases depth, s, 0nat,
{
    match s {
        Stmt::Expression { expression, .. } => eval_expression(expression, scope, depth),
        Stmt::Let { name, value, .. } => match eval_expression(value, scope, depth) {
            Err(stop) => Err(stop),
            Ok((value, s1)) => Ok((value, s1.insert(name.value, value))),
        },
        Stmt::Return { value, .. } => match eval_expression(value, scope, depth) {
            Err(stop) => Err(stop),
            Ok((value, s1)) => Ok((Value::Return(Box::new(value)), s1)),
        },
    }
}

/// The result of the statements of a block from `from` on, where `last` is
/// the result so far: the result of the last statement, or of the first one
/// that returns, still wrapped, after which no statement is evaluated.
pub open spec fn eval_block(
    statements: Seq<Stmt>,
    from: nat,
    last: Value,
    scope: Map<Seq<char>, Value>,
    depth: nat,
) -> Result<(Value, Map<Seq<char>, Value>), (Fault, Map<Seq<char>, Value>)>
    decreases depth, statements, statements.len() - from,
{
    if from >= statements.len() {
        Ok((last, scope))
    } else {
        match eval_statement(statements[from as int], scope, depth) {
            Err(stop) => Err(stop),
            Ok((value, s1)) => if value is Return {
                Ok((value, s1))
            } else {
                eval_block(statements, from + 1, value, s1, depth)
            },
        }
    }
}

/// The result of the statements of a program from `from` on, where `last`
/// is the result so far: the result of the last statement, or the value
/// that the first returning statement carries, after which no statement is
/// evaluated.
pub open spec fn eval_statements(
    statements: Seq<Stmt>,
    from: nat,
    last: Value,
    scope: Map<Seq<char>, Value>,
    depth: nat,
) -> Result<(Value, Map<Seq<char>, Value>), (Fault, Map<Seq<char>, Value>)>
    decreases depth, statements, statements.len() - from,
{
    if from >= statements.len() {
        Ok((last, scope))
    } else {
        match eval_statement(statements[from as int], scope, depth) {
            Err(stop) => Err(stop),
            Ok((value, s1)) => if value is Return {
                Ok((unwrap_return(value), s1))
            } else {
                eval_statements(statements, from + 1, value, s1, depth)
            },
        }
    }
}

/// The result of a call: the body runs in a new scope that holds the
/// parameters and nothing else, and a returning value is unwrapped. That
/// scope ends with the call, whether it ends in a value or in a fault.
pub open spec fn apply_function(
    parameters: Seq<Name>,
    body: Block,
    arguments: Seq<Value>,
    depth: nat,
) -> Result<Value, Fault>
    decreases depth, body, 0nat,
{
    match eval_block(
        body.statements,
        0,
        Value::Null,
        bind_parameters(parameters, arguments, parameters.len()),
        depth,
    ) {
        Err((fault, _)) => Err(fault),
        Ok((value, _)) => Ok(unwrap_return(value)),
    }
}

/// The result of a program in `scope`, and the scope after it; or the fault
/// that stopped it, and the scope at that moment.
pub open spec fn eval_program(statements: Seq<Stmt>, scope: Map<Seq<char>, Value>, depth: nat)
    -> Result<(Value, Map<Seq<char>, Value>), (Fault, Map<Seq<char>, Value>)> {
    eval_statements(statements, 0, Value::Null, scope, depth)
}

/// The scope of a call binds the parameters and nothing else: a name is
/// bound in it if and only if it is the name of one of the first `n`
/// parameters.
pub proof fn lemma_call_scope_binds_parameters_only(
    parameters: Seq<Name>,
    arguments: Seq<Value>,
    n: nat,
    name: Seq<char>,
)
    requires
        n <= parameters.len(),
    ensures
        bind_parameters(parameters, arguments, n).contains_key(name) <==> exists|i: int|
            0 <= i < n && (#[trigger] parameters[i]).value == name,
    decreases n,
{
    if n > 0 {
        lemma_call_scope_binds_parameters_only(parameters, arguments, (n - 1) as nat, name);
        if bind_parameters(parameters, arguments, n).contains_key(name) {
            if parameters[n - 1].value == name {
            } else {
                let i = choose|i: int| 0 <= i < n - 1 && (#[trigger] parameters[i]).value == name;
                assert(0 <= i < n && parameters[i].value == name);
            }
        }
        if exists|i: int| 0 <= i < n && (#[trigger] parameters[i]).value == name {
            let i = choose|i: int| 0 <= i < n && (#[trigger] parameters[i]).value == name;
            if i < n - 1 {
                assert(0 <= i < n - 1 && parameters[i].value == name);
            }
        }
    }
}

/// Functions close over nothing: inside a call, a name that is none of the
/// function's parameters has no value, whatever it is bound to where the
/// function was made or where it is called. So a body that is just such a
/// name makes the call result in the absent value.
pub proof fn lemma_free_name_is_null(
    parameters: Seq<Name>,
    arguments: Seq<Value>,
    body: Block,
    token: Token,
    name: Name,
    depth: nat,
)
    requires
        forall|i: int| 0 <= i < parameters.len() ==> (#[trigger] parameters[i]).value != name.value,
        body.statements == seq![Stmt::Expression { token, expression: Expr::Identifier(name) }],
    ensures
        lookup(bind_parameters(parameters, arguments, parameters.len()), name.value)
            == Value::Null,
        eval_expression(
            Expr::Identifier(name),
            bind_parameters(parameters, arguments, parameters.len()),
            depth,
        ) == Ok::<(Value, Map<Seq<char>, Value>), (Fault, Map<Seq<char>, Value>)>(
            (Value::Null, bind_parameters(parameters, arguments, parameters.len())),
        ),
        apply_function(parameters, body, arguments, depth) == Ok::<Value, Fault>(Value::Null),
{
    let scope = bind_parameters(parameters, arguments, parameters.len());
    lemma_call_scope_binds_parameters_only(parameters, arguments, parameters.len(), name.value);
    assert(!scope.contains_key(name.value));
    let first = eval_statement(body.statements[0], scope, depth);
    assert(first == Ok::<(Value, Map<Seq<char>, Value>), (Fault, Map<Seq<char>, Value>)>(
        (Value::Null, scope),
    ));
    assert(eval_block(body.statements, 1, Value::Null, scope, depth) == Ok::<
        (Value, Map<Seq<char>, Value>),
        (Fault, Map<Seq<char>, Value>),
    >((Value::Null, scope)));
    assert(eval_block(body.statements, 0, Value::Null, scope, depth) == Ok::<
        (Value, Map<Seq<char>, Value>),
        (Fault, Map<Seq<char>, Value>),
    >((Value::Null, scope)));
}

/// A `let` of a name overwrites what the name was bound to: after it, the
/// name reads as the value just bound, whatever it read as before, and
/// every other name reads as it did after the value was evaluated.
pub proof fn lemma_let_overwrites(
    token: Token,
    name: Name,
    value: Expr,
    scope: Map<Seq<char>, Value>,
    depth: nat,
    reader: Name,
    later: nat,
)
    requires
        eval_expression(value, scope, depth) is Ok,
    ensures
        ({
            let (bound, between) = eval_expression(value, scope, depth)->Ok_0;
            let after = between.insert(name.value, bound);
            &&& eval_statement(Stmt::Let { token, name, value }, scope, depth) == Ok::<
                (Value, Map<Seq<char>, Value>),
                (Fault, Map<Seq<char>, Value>),
            >((bound, after))
            &&& reader.value == name.value ==> eval_expression(
                Expr::Identifier(reader),
                after,
                later,
            ) == Ok::<(Value, Map<Seq<char>, Value>), (Fault, Map<Seq<char>, Value>)>(
                (bound, after),
            )
            &&& reader.value != name.value ==> lookup(after, reader.value) == lookup(
                between,
                reader.value,
            )
        }),
{
}

/// Binding a name twice leaves the scope as if only the second binding had
/// been made.
pub proof fn lemma_last_binding_wins(
    scope: Map<Seq<char>, Value>,
    name: Seq<char>,
    first: Value,
    second: Value,
)
    ensures
        scope.insert(name, first).insert(name, second) == scope.insert(name, second),
        lookup(scope.insert(name, first).insert(name, second), name) == second,
{
    assert(scope.insert(name, first).insert(name, second) =~= scope.insert(name, second));
}

/// A `return` ends the program: where the statement at `from` returns, the
/// program results in the value it carries, whatever statements follow.
pub proof fn lemma_return_ends_program(
    statements: Seq<Stmt>,
    others: Seq<Stmt>,
    from: nat,
    last: Value,
    scope: Map<Seq<char>, Value>,
    depth: nat,
)
    requires
        from < statements.len(),
        from < others.len(),
        statements[from as int] == others[from as int],
        eval_statement(statements[from as int], scope, depth) is Ok,
        eval_statement(statements[from as int], scope, depth)->Ok_0.0 is Return,
    ensures
        eval_statements(statements, from, last, scope, depth) == eval_statements(
            others,
            from,
            last,
            scope,
            depth,
        ),
        eval_statements(statements, from, last, scope, depth) == Ok::<
            (Value, Map<Seq<char>, Value>),
            (Fault, Map<Seq<char>, Value>),
        >(
            (
                unwrap_return(eval_statement(statements[from as int], scope, depth)->Ok_0.0),
                eval_statement(statements[from as int], scope, depth)->Ok_0.1,
            ),
        ),
{
}

/// Whether an evaluation came to an end for another reason than that its
/// calls were nested too deep: more depth leaves such a result as it is.
pub open spec fn settled_result<T>(r: Result<T, (Fault, Map<Seq<char>, Value>)>) -> bool {
    match r {
        Ok(_) => true,
        Err((fault, _)) => fault != Fault::DepthExceeded,
    }
}

/// More depth changes nothing but the fault of too little depth: an
/// expression that has a value, or meets another fault, with calls nested
/// at most `depth` deep has the same value, or meets the same fault, with
/// any greater depth.
pub proof fn lemma_deeper_expression(
    e: Expr,
    scope: Map<Seq<char>, Value>,
    depth: nat,
    deeper: nat,
)
    requires
        depth <= deeper,
        settled_result(eval_expression(e, scope, depth)),
    ensures
        eval_expression(e, scope, deeper) == eval_expression(e, scope, depth),
    decreases depth, e, 0nat,
{
    match e {
        Expr::Prefix { right, .. } => {
            lemma_deeper_expression(*right, scope, depth, deeper);
        },
        Expr::Infix { left, right, .. } => {
            lemma_deeper_expression(*left, scope, depth, deeper);
            if let Ok((_, s1)) = eval_expression(*left, scope, depth) {
                lemma_deeper_expression(*right, s1, depth, deeper);
            }
        },
        Expr::If { condition, consequence, alternative, .. } => {
            lemma_deeper_expression(*condition, scope, depth, deeper);
            if let Ok((c, s1)) = eval_expression(*condition, scope, depth) {
                if truthy(c) {
                    lemma_deeper_block(consequence.statements, 0, Value::Null, s1, depth, deeper);
                } else if let Some(alternative) = alternative {
                    lemma_deeper_block(alternative.statements, 0, Value::Null, s1, depth, deeper);
                }
            }
        },
        Expr::Call { function, arguments, .. } => {
            lemma_deeper_expression(*function, scope, depth, deeper);
            if let Ok((callee, s1)) = eval_expression(*function, scope, depth) {
                lemma_deeper_expressions(arguments, 0, Seq::empty(), s1, depth, deeper);
                if let Ok((values, _)) = eval_expressions(arguments, 0, Seq::empty(), s1, depth) {
                    if let Value::Function { parameters, body } = callee {
                        if values.len() >= parameters.len() {
                            lemma_deeper_call(
                                parameters,
                                body,
                                values,
                                (depth - 1) as nat,
                                (deeper - 1) as nat,
                            );
                        }
                    }
                }
            }
        },
        _ => {},
    }
}

/// [`lemma_deeper_expression`] for a list of expressions.
pub proof fn lemma_deeper_expressions(
    es: Seq<Expr>,
    from: nat,
    done: Seq<Value>,
    scope: Map<Seq<char>, Value>,
    depth: nat,
    deeper: nat,
)
    requires
        depth <= deeper,
        settled_result(eval_expressions(es, from, done, scope, depth)),
    ensures
        eval_expressions(es, from, done, scope, deeper) == eval_expressions(
            es,
            from,
            done,
            scope,
            depth,
        ),
    decreases depth, es, es.len() - from,
{
    if from < es.len() {
        lemma_deeper_expression(es[from as int], scope, depth, deeper);
        if let Ok((value, s1)) = eval_expression(es[from as int], scope, depth) {
            lemma_deeper_expressions(es, from + 1, done.push(value), s1, depth, deeper);
        }
    }
}

/// [`lemma_deeper_expression`] for a statement.
pub proof fn lemma_deeper_statement(
    s: Stmt,
    scope: Map<Seq<char>, Value>,
    depth: nat,
    deeper: nat,
)
    requires
        depth <= deeper,
        settled_result(eval_statement(s, scope, depth)),
    ensures
        eval_statement(s, scope, deeper) == eval_statement(s, scope, depth),
    decreases depth, s, 0nat,
{
    match s {
        Stmt::Expression { expression, .. } => {
            lemma_deeper_expression(expression, scope, depth, deeper);
        },
        Stmt::Let { value, .. } => {
            lemma_deeper_expression(value, scope, depth, deeper);
        },
        Stmt::Return { value, .. } => {
            lemma_deeper_expression(value, scope, depth, deeper);
        },
    }
}

/// [`lemma_deeper_expression`] for the statements of a block.
pub proof fn lemma_deeper_block(
    statements: Seq<Stmt>,
    from: nat,
    last: Value,
    scope: Map<Seq<char>, Value>,
    depth: nat,
    deeper: nat,
)
    requires
        depth <= deeper,
        settled_result(eval_block(statements, from, last, scope, depth)),
    ensures
        eval_block(statements, from, last, scope, deeper) == eval_block(
            statements,
            from,
            last,
            scope,
            depth,
        ),
    decreases depth, statements, statements.len() - from,
{
    if from < statements.len() {
        lemma_deeper_statement(statements[from as int], scope, depth, deeper);
        if let Ok((value, s1)) = eval_statement(statements[from as int], scope, depth) {
            if !(value is Return) {
                lemma_deeper_block(statements, from + 1, value, s1, depth, deeper);
            }
        }
    }
}

/// [`lemma_deeper_expression`] for the statements of a program.
pub proof fn lemma_deeper_statements(
    statements: Seq<Stmt>,
    from: nat,
    last: Value,
    scope: Map<Seq<char>, Value>,
    depth: nat,
    deeper: nat,
)
    requires
        depth <= deeper,
        settled_result(eval_statements(statements, from, last, scope, depth)),
    ensures
        eval_statements(statements, from, last, scope, deeper) == eval_statements(
            statements,
            from,
            last,
            scope,
            depth,
        ),
    decreases statements.len() - from,
{
    if from < statements.len() {
        lemma_deeper_statement(statements[from as int], scope, depth, deeper);
        if let Ok((value, s1)) = eval_statement(statements[from as int], scope, depth) {
            if !(value is Return) {
                lemma_deeper_statements(statements, from + 1, value, s1, depth, deeper);
            }
        }
    }
}

/// [`lemma_deeper_expression`] for a call.
pub proof fn lemma_deeper_call(
    parameters: Seq<Name>,
    body: Block,
    arguments: Seq<Value>,
    depth: nat,
    deeper: nat,
)
    requires
        depth <= deeper,
        apply_function(parameters, body, arguments, depth) != Err::<Value, Fault>(
            Fault::DepthExceeded,
        ),
    ensures
        apply_function(parameters, body, arguments, deeper) == apply_function(
            parameters,
            body,
            arguments,
            depth,
        ),
    decreases depth, body, 0nat,
{
    lemma_deeper_block(
        body.statements,
        0,
        Value::Null,
        bind_parameters(parameters, arguments, parameters.len()),
        depth,
        deeper,
    );
}

/// More depth changes nothing but the fault of too little depth: a program
/// that has a result, or meets another fault, with calls nested at most
/// `depth` deep has the same result, or meets the same fault, with any
/// greater depth.
pub proof fn lemma_deeper_program(
    statements: Seq<Stmt>,
    scope: Map<Seq<char>, Value>,
    depth: nat,
    deeper: nat,
)
    requires
        depth <= deeper,
        settled_result(eval_program(statements, scope, depth)),
    ensures
        eval_program(statements, scope, deeper) == eval_program(statements, scope, depth),
{
    lemma_deeper_statements(statements, 0, Value::Null, scope, depth, deeper);
}

} // verus!
