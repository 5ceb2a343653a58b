use vstd::prelude::*;
use crate::environment::env_lookup;
use crate::interpreter::{arity_msg, atom_spec, msg_not_callable};
use crate::native_functions::native_spec;
use crate::object::{SpecialFormKind, Val};
use crate::parser::SexpModel;
use crate::special_forms::{
    is_ident_sexp, msg_define_two, msg_defun_first, msg_defun_second, msg_defun_three,
    msg_first_ident, msg_if_three, msg_lambda_first, msg_lambda_two, msg_not_identifier,
    msg_reserved_constant, msg_reserved_native, msg_reserved_special_form, msg_set_two,
    params_scan,
};
use crate::token::TokenModel;

verus! {

/// The environment model: the layer stack, as maps.
pub type EnvModel = Seq<Map<Seq<char>, Val>>;

/// The outcome of one evaluation: the environment it leaves behind, and a
/// value or an error message.
pub type EvalOutcome = (EnvModel, Result<Val, Seq<char>>);

/// The message reported past the recursion depth.
pub open spec fn msg_depth_exceeded() -> Seq<char> {
    "recursion depth exceeded!"@
}

/// The message rejecting the evaluation of an empty list.
pub open spec fn msg_empty_list_eval() -> Seq<char> {
    "can't evaluate the empty list!"@
}

/// The message rejecting an `if!` condition that yields no boolean.
pub open spec fn msg_if_condition() -> Seq<char> {
    "1st argument to 'if!' must evaluate to a boolean!"@
}

/// The layer that a call pushes: each parameter bound to its evaluated
/// argument, positionally.
pub open spec fn bind_params(params: Seq<TokenModel>, vals: Seq<Val>) -> Map<Seq<char>, Val>
    decreases params.len(),
{
    if params.len() == 0 {
        Map::empty()
    } else {
        bind_params(params.drop_last(), vals.drop_last()).insert(
            params.last().lexeme,
            vals.last(),
        )
    }
}

/// What evaluating one expression yields, and the environment it leaves:
/// an atom by `atom_spec`; a list by evaluating its head and dispatching
/// on the callee, a special form receiving the rest unevaluated and
/// anything else the eagerly evaluated rest. Each nesting level spends one
/// unit of the recursion depth.
pub open spec fn eval_spec(env: EnvModel, expr: SexpModel, depth: nat) -> EvalOutcome
    decreases depth, 0int, 0int,
{
    match expr {
        SexpModel::Atom(t) => (env, atom_spec(env, t)),
        SexpModel::List(items) => {
            if depth == 0 {
                (env, Err(msg_depth_exceeded()))
            } else if items.len() == 0 {
                (env, Err(msg_empty_list_eval()))
            } else {
                let (env1, head) = eval_spec(env, items[0], (depth - 1) as nat);
                match head {
                    Err(m) => (env1, Err(m)),
                    Ok(callee) => match callee {
                        Val::SpecialForm(kind) => sf_spec(
                            kind,
                            env1,
                            items.drop_first(),
                            (depth - 1) as nat,
                        ),
                        _ => {
                            let (env2, args) = eval_args_spec(
                                env1,
                                items.drop_first(),
                                (depth - 1) as nat,
                            );
                            match args {
                                Err(m) => (env2, Err(m)),
                                Ok(vals) => call_spec(callee, env2, vals, (depth - 1) as nat),
                            }
                        },
                    },
                }
            }
        },
    }
}

/// What evaluating a sequence of argument expressions left to right
/// yields: their values, or the first failure; the environment threads
/// through in order.
pub open spec fn eval_args_spec(env: EnvModel, exprs: Seq<SexpModel>, depth: nat) -> (
    EnvModel,
    Result<Seq<Val>, Seq<char>>,
)
    decreases depth, 1int, exprs.len(),
{
    if exprs.len() == 0 {
        (env, Ok(Seq::empty()))
    } else {
        let (env1, first) = eval_spec(env, exprs.first(), depth);
        match first {
            Err(m) => (env1, Err(m)),
            Ok(v) => {
                let (env2, rest) = eval_args_spec(env1, exprs.drop_first(), depth);
                match rest {
                    Err(m) => (env2, Err(m)),
                    Ok(vs) => (env2, Ok(seq![v] + vs)),
                }
            },
        }
    }
}

/// An argument-list outcome with already evaluated values put in front.
pub open spec fn with_values(acc: Seq<Val>, t: (EnvModel, Result<Seq<Val>, Seq<char>>)) -> (
    EnvModel,
    Result<Seq<Val>, Seq<char>>,
) {
    (
        t.0,
        match t.1 {
            Ok(vs) => Ok(acc + vs),
            Err(m) => Err(m),
        },
    )
}

/// What applying a callee to already evaluated arguments yields: a native
/// function by its own contract, leaving the environment alone; a
/// user-defined function by evaluating its body under a pushed layer of
/// parameter bindings, removed again whether or not the body succeeded;
/// anything else is not callable.
pub open spec fn call_spec(callee: Val, env: EnvModel, vals: Seq<Val>, depth: nat) -> EvalOutcome
    decreases depth, 2int, 0int,
{
    match callee {
        Val::Native(kind) => (env, native_spec(kind, vals)),
        Val::Function { name, params, body } => {
            if params.len() != vals.len() {
                (env, Err(arity_msg(vals.len(), name, params.len())))
            } else {
                let (env_body, r) = eval_spec(env.push(bind_params(params, vals)), body, depth);
                (env_body.drop_last(), r)
            }
        },
        _ => (env, Err(msg_not_callable(callee))),
    }
}

/// What each special form yields on its unevaluated sub-expressions.
pub open spec fn sf_spec(kind: SpecialFormKind, env: EnvModel, args: Seq<SexpModel>, depth: nat) -> EvalOutcome
    decreases depth, 2int, 0int,
{
    match kind {
        SpecialFormKind::IfForm => if_spec(env, args, depth),
        SpecialFormKind::LambdaForm => lambda_spec(env, args),
        SpecialFormKind::SetForm => set_spec(env, args, depth),
        SpecialFormKind::DefineForm => define_spec(env, args, depth),
        SpecialFormKind::DefunForm => defun_spec(env, args),
    }
}

/// What `if!` yields: the condition must yield a boolean, and exactly one
/// branch is evaluated.
pub open spec fn if_spec(env: EnvModel, args: Seq<SexpModel>, depth: nat) -> EvalOutcome
    decreases depth, 1int, 1int,
{
    if args.len() != 3 {
        (env, Err(msg_if_three()))
    } else {
        let (env1, cond) = eval_spec(env, args[0], depth);
        match cond {
            Err(m) => (env1, Err(m)),
            Ok(Val::Bool(true)) => eval_spec(env1, args[1], depth),
            Ok(Val::Bool(false)) => eval_spec(env1, args[2], depth),
            Ok(_) => (env1, Err(msg_if_condition())),
        }
    }
}

/// What `lambda!` yields: an anonymous function value, the environment
/// untouched.
pub open spec fn lambda_spec(env: EnvModel, args: Seq<SexpModel>) -> EvalOutcome {
    if args.len() != 2 {
        (env, Err(msg_lambda_two()))
    } else if !(args[0] is List) {
        (env, Err(msg_lambda_first()))
    } else {
        match params_scan(args[0]->List_0, 1) {
            Err(m) => (env, Err(m)),
            Ok(ps) => (env, Ok(Val::Function { name: None, params: ps, body: args[1] })),
        }
    }
}

/// What `set!` yields: the value of its expression, bound to the
/// identifier in the topmost layer, with no reserved-name guard.
pub open spec fn set_spec(env: EnvModel, args: Seq<SexpModel>, depth: nat) -> EvalOutcome
    decreases depth, 1int, 1int,
{
    if args.len() != 2 {
        (env, Err(msg_set_two()))
    } else if !(args[0] is Atom) {
        (env, Err(msg_first_ident("set!"@)))
    } else if !(args[0]->Atom_0.kind is Identifier) {
        (env, Err(msg_not_identifier(args[0]->Atom_0.lexeme)))
    } else {
        let name = args[0]->Atom_0.lexeme;
        let (env1, value) = eval_spec(env, args[1], depth);
        match value {
            Err(m) => (env1, Err(m)),
            Ok(v) => (env1.update(env1.len() - 1, env1.last().insert(name, v)), Ok(v)),
        }
    }
}

/// What `define!` yields: as `set!`, but a name reserved for a special
/// form, a native function or a constant is rejected, naming its
/// category.
pub open spec fn define_spec(env: EnvModel, args: Seq<SexpModel>, depth: nat) -> EvalOutcome
    decreases depth, 1int, 1int,
{
    if args.len() != 2 {
        (env, Err(msg_define_two()))
    } else if !(args[0] is Atom) {
        (env, Err(msg_first_ident("define!"@)))
    } else if !(args[0]->Atom_0.kind is Identifier) {
        (env, Err(msg_not_identifier(args[0]->Atom_0.lexeme)))
    } else {
        let name = args[0]->Atom_0.lexeme;
        if crate::interpreter::special_form_names().contains(name) {
            (env, Err(msg_reserved_special_form(name)))
        } else if crate::interpreter::native_function_names().contains(name) {
            (env, Err(msg_reserved_native(name)))
        } else if crate::interpreter::constant_names().contains(name) {
            (env, Err(msg_reserved_constant(name)))
        } else {
            let (env1, value) = eval_spec(env, args[1], depth);
            match value {
                Err(m) => (env1, Err(m)),
                Ok(v) => (env1.update(env1.len() - 1, env1.last().insert(name, v)), Ok(v)),
            }
        }
    }
}

/// What `defun!` yields: a function named by its leading identifier,
/// bound to that name in the topmost layer.
pub open spec fn defun_spec(env: EnvModel, args: Seq<SexpModel>) -> EvalOutcome {
    if args.len() != 3 {
        (env, Err(msg_defun_three()))
    } else if !is_ident_sexp(args[0]) {
        (env, Err(msg_defun_first()))
    } else if !(args[1] is List) {
        (env, Err(msg_defun_second()))
    } else {
        let name = args[0]->Atom_0.lexeme;
        match params_scan(args[1]->List_0, 1) {
            Err(m) => (env, Err(m)),
            Ok(ps) => {
                let f = Val::Function { name: Some(name), params: ps, body: args[2] };
                (env.update(env.len() - 1, env.last().insert(name, f)), Ok(f))
            },
        }
    }
}

/// An evaluation keeps the number of layers, and every layer under the
/// topmost.
pub open spec fn frame_held(pre: EnvModel, post: EnvModel) -> bool {
    crate::interpreter::env_frame(pre, post)
}

/// Evaluating a number literal yields exactly that number, under every
/// environment and depth, and leaves the environment unchanged.
pub proof fn lemma_literal_round_trip(env: EnvModel, t: TokenModel, n: u64, depth: nat)
    requires
        t.kind == crate::token::TokenKindModel::Num(n),
    ensures
        eval_spec(env, SexpModel::Atom(t), depth) == (env, Ok::<Val, Seq<char>>(Val::Num(n))),
{
}

/// `if!` on a true condition never touches its third sub-expression: the
/// outcome is the same whatever stands there, and it is the outcome of
/// the second sub-expression.
pub proof fn lemma_if_short_circuit(
    env: EnvModel,
    cond: SexpModel,
    then_branch: SexpModel,
    else_a: SexpModel,
    else_b: SexpModel,
    depth: nat,
)
    requires
        eval_spec(env, cond, depth).1 == Ok::<Val, Seq<char>>(Val::Bool(true)),
    ensures
        if_spec(env, seq![cond, then_branch, else_a], depth) == if_spec(
            env,
            seq![cond, then_branch, else_b],
            depth,
        ),
        if_spec(env, seq![cond, then_branch, else_a], depth) == eval_spec(
            eval_spec(env, cond, depth).0,
            then_branch,
            depth,
        ),
{
    let args_a = seq![cond, then_branch, else_a];
    let args_b = seq![cond, then_branch, else_b];
    assert(args_a[0] == cond && args_a[1] == then_branch);
    assert(args_b[0] == cond && args_b[1] == then_branch);
}

/// Applying a function value to an argument count other than its
/// parameter count fails with the arity error naming both counts and the
/// function, and leaves the environment alone.
pub proof fn lemma_call_arity_mismatch(
    name: Option<Seq<char>>,
    params: Seq<TokenModel>,
    body: SexpModel,
    env: EnvModel,
    vals: Seq<Val>,
    depth: nat,
)
    requires
        params.len() != vals.len(),
    ensures
        call_spec(Val::Function { name, params, body }, env, vals, depth) == (
            env,
            Err::<Val, Seq<char>>(arity_msg(vals.len(), name, params.len())),
        ),
{
}

/// A call of a user-defined function never leaks its layer: whether the
/// body evaluation succeeded or failed, the environment it leaves is
/// exactly the one the call began with, provided the body evaluation kept
/// its frame.
pub proof fn lemma_call_releases_layer(
    name: Option<Seq<char>>,
    params: Seq<TokenModel>,
    body: SexpModel,
    env: EnvModel,
    vals: Seq<Val>,
    depth: nat,
)
    requires
        params.len() == vals.len(),
        frame_held(
            env.push(bind_params(params, vals)),
            eval_spec(env.push(bind_params(params, vals)), body, depth).0,
        ),
    ensures
        call_spec(Val::Function { name, params, body }, env, vals, depth).0 == env,
{
    let pushed = env.push(bind_params(params, vals));
    let env_body = eval_spec(pushed, body, depth).0;
    assert(env_body.len() == pushed.len());
    assert forall|i: int| 0 <= i < env.len() implies env_body.drop_last()[i] == env[i] by {
        assert(env_body[i] == pushed[i]);
        assert(pushed[i] == env[i]);
    }
    assert(env_body.drop_last() =~= env);
}

/// A binding made by `set!` is what an immediately following lookup of
/// that identifier finds: when the value expression evaluates to a value,
/// the environment that `set!` leaves resolves the identifier to exactly
/// that value.
pub proof fn lemma_set_then_lookup(
    env: EnvModel,
    name_tok: TokenModel,
    value_expr: SexpModel,
    depth: nat,
)
    requires
        env.len() >= 1,
        name_tok.kind is Identifier,
        eval_spec(env, value_expr, depth).1 is Ok,
    ensures
        set_spec(env, seq![SexpModel::Atom(name_tok), value_expr], depth).1 == eval_spec(
            env,
            value_expr,
            depth,
        ).1,
        env_lookup(
            set_spec(env, seq![SexpModel::Atom(name_tok), value_expr], depth).0,
            name_tok.lexeme,
        ) == Some(eval_spec(env, value_expr, depth).1->Ok_0),
{
    let args = seq![SexpModel::Atom(name_tok), value_expr];
    assert(args[0] == SexpModel::Atom(name_tok) && args[1] == value_expr);
    lemma_eval_spec_frame(env, value_expr, depth);
    let env1 = eval_spec(env, value_expr, depth).0;
    let v = eval_spec(env, value_expr, depth).1->Ok_0;
    crate::environment::lemma_define_then_lookup(env1, name_tok.lexeme, v);
}

/// The two binding forms are asymmetric on reserved names: `define!`
/// rejects an identifier reserved for a native function without touching
/// the environment, while the unguarded `set!` evaluates and binds as it
/// would for any other name.
pub proof fn lemma_reserved_guard_asymmetry(
    env: EnvModel,
    name_tok: TokenModel,
    value_expr: SexpModel,
    depth: nat,
)
    requires
        env.len() >= 1,
        name_tok.kind is Identifier,
        crate::interpreter::native_function_names().contains(name_tok.lexeme),
        !crate::interpreter::special_form_names().contains(name_tok.lexeme),
        eval_spec(env, value_expr, depth).1 is Ok,
    ensures
        define_spec(env, seq![SexpModel::Atom(name_tok), value_expr], depth) == (
            env,
            Err::<Val, Seq<char>>(msg_reserved_native(name_tok.lexeme)),
        ),
        set_spec(env, seq![SexpModel::Atom(name_tok), value_expr], depth).1 == eval_spec(
            env,
            value_expr,
            depth,
        ).1,
        env_lookup(
            set_spec(env, seq![SexpModel::Atom(name_tok), value_expr], depth).0,
            name_tok.lexeme,
        ) == Some(eval_spec(env, value_expr, depth).1->Ok_0),
{
    let args = seq![SexpModel::Atom(name_tok), value_expr];
    assert(args[0] == SexpModel::Atom(name_tok) && args[1] == value_expr);
    lemma_set_then_lookup(env, name_tok, value_expr, depth);
}

/// Every evaluation keeps the environment frame: the layer count, and
/// every layer under the topmost.
pub proof fn lemma_eval_spec_frame(env: EnvModel, expr: SexpModel, depth: nat)
    requires
        env.len() >= 1,
    ensures
        frame_held(env, eval_spec(env, expr, depth).0),
    decreases depth, 0int, 0int,
{
    match expr {
        SexpModel::Atom(_) => {},
        SexpModel::List(items) => {
            if depth > 0 && items.len() > 0 {
                let d2 = (depth - 1) as nat;
                lemma_eval_spec_frame(env, items[0], d2);
                let (env1, head) = eval_spec(env, items[0], d2);
                match head {
                    Err(_) => {},
                    Ok(callee) => match callee {
                        Val::SpecialForm(kind) => {
                            lemma_sf_spec_frame(kind, env1, items.drop_first(), d2);
                            lemma_frame_trans(env, env1, sf_spec(kind, env1, items.drop_first(), d2).0);
                        },
                        _ => {
                            lemma_eval_args_spec_frame(env1, items.drop_first(), d2);
                            let (env2, args) = eval_args_spec(env1, items.drop_first(), d2);
                            lemma_frame_trans(env, env1, env2);
                            match args {
                                Err(_) => {},
                                Ok(vals) => {
                                    lemma_call_spec_frame(callee, env2, vals, d2);
                                    lemma_frame_trans(env, env2, call_spec(callee, env2, vals, d2).0);
                                },
                            }
                        },
                    },
                }
            }
        },
    }
}

/// Argument evaluation keeps the environment frame.
pub proof fn lemma_eval_args_spec_frame(env: EnvModel, exprs: Seq<SexpModel>, depth: nat)
    requires
        env.len() >= 1,
    ensures
        frame_held(env, eval_args_spec(env, exprs, depth).0),
    decreases depth, 1int, exprs.len(),
{
    if exprs.len() > 0 {
        lemma_eval_spec_frame(env, exprs.first(), depth);
        let (env1, first) = eval_spec(env, exprs.first(), depth);
        match first {
            Err(_) => {},
            Ok(_) => {
                lemma_eval_args_spec_frame(env1, exprs.drop_first(), depth);
                lemma_frame_trans(env, env1, eval_args_spec(env1, exprs.drop_first(), depth).0);
            },
        }
    }
}

/// Call dispatch keeps the environment frame.
pub proof fn lemma_call_spec_frame(callee: Val, env: EnvModel, vals: Seq<Val>, depth: nat)
    requires
        env.len() >= 1,
    ensures
        frame_held(env, call_spec(callee, env, vals, depth).0),
    decreases depth, 2int, 0int,
{
    match callee {
        Val::Function { name, params, body } => {
            if params.len() == vals.len() {
                let pushed = env.push(bind_params(params, vals));
                lemma_eval_spec_frame(pushed, body, depth);
                lemma_call_releases_layer(name, params, body, env, vals, depth);
            }
        },
        _ => {},
    }
}

/// Special form dispatch keeps the environment frame.
pub proof fn lemma_sf_spec_frame(kind: SpecialFormKind, env: EnvModel, args: Seq<SexpModel>, depth: nat)
    requires
        env.len() >= 1,
    ensures
        frame_held(env, sf_spec(kind, env, args, depth).0),
    decreases depth, 2int, 0int,
{
    match kind {
        SpecialFormKind::IfForm => {
            if args.len() == 3 {
                lemma_eval_spec_frame(env, args[0], depth);
                let (env1, cond) = eval_spec(env, args[0], depth);
                match cond {
                    Err(_) => {},
                    Ok(Val::Bool(true)) => {
                        lemma_eval_spec_frame(env1, args[1], depth);
                        lemma_frame_trans(env, env1, eval_spec(env1, args[1], depth).0);
                    },
                    Ok(Val::Bool(false)) => {
                        lemma_eval_spec_frame(env1, args[2], depth);
                        lemma_frame_trans(env, env1, eval_spec(env1, args[2], depth).0);
                    },
                    Ok(_) => {},
                }
            }
        },
        SpecialFormKind::LambdaForm => {},
        SpecialFormKind::SetForm => {
            if args.len() == 2 && args[0] is Atom && args[0]->Atom_0.kind is Identifier {
                lemma_eval_spec_frame(env, args[1], depth);
                let (env1, value) = eval_spec(env, args[1], depth);
                match value {
                    Err(_) => {},
                    Ok(v) => {
                        let post = env1.update(
                            env1.len() - 1,
                            env1.last().insert(args[0]->Atom_0.lexeme, v),
                        );
                        assert(frame_held(env, post));
                    },
                }
            }
        },
        SpecialFormKind::DefineForm => {
            let ok = args.len() == 2 && args[0] is Atom && args[0]->Atom_0.kind is Identifier
                && !crate::interpreter::special_form_names().contains(args[0]->Atom_0.lexeme)
                && !crate::interpreter::native_function_names().contains(args[0]->Atom_0.lexeme)
                && !crate::interpreter::constant_names().contains(args[0]->Atom_0.lexeme);
            if ok {
                lemma_eval_spec_frame(env, args[1], depth);
                let (env1, value) = eval_spec(env, args[1], depth);
                match value {
                    Err(_) => {},
                    Ok(v) => {
                        let post = env1.update(
                            env1.len() - 1,
                            env1.last().insert(args[0]->Atom_0.lexeme, v),
                        );
                        assert(frame_held(env, post));
                    },
                }
            }
        },
        SpecialFormKind::DefunForm => {},
    }
}

/// Frames compose.
pub proof fn lemma_frame_trans(a: EnvModel, b: EnvModel, c: EnvModel)
    requires
        frame_held(a, b),
        frame_held(b, c),
    ensures
        frame_held(a, c),
{
    crate::interpreter::lemma_env_frame_trans(a, b, c);
}

} // verus!
