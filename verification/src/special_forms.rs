use vstd::prelude::*;
use crate::environment::env_lookup;
use crate::interpreter::{
    constant_names, env_frame, lemma_env_frame_trans, native_function_names, special_form_names,
    Interpreter, RuntimeError,
};
use crate::native_functions::result_view;
use crate::semantics::{define_spec, defun_spec, if_spec, lambda_spec, set_spec};
use crate::object::{MankaiObject, Val};
use crate::parser::{Sexp, SexpModel};
use crate::strutil::dec_digits;
use crate::strutil::usize_to_string;
use crate::token::{tokens_view, Token, TokenKind, TokenModel};

verus! {

/// The models of a special form's unevaluated arguments, in order.
pub open spec fn sf_args_view<'a>(s: Seq<&'a Sexp>) -> Seq<SexpModel> {
    Seq::new(s.len(), |i: int| s[i]@)
}

/// Whether a sub-expression is an identifier atom.
pub open spec fn is_ident_sexp(s: SexpModel) -> bool {
    s matches SexpModel::Atom(t) && t.kind is Identifier
}

/// The message rejecting an argument count other than two for `set!`.
pub open spec fn msg_set_two() -> Seq<char> {
    "expected exactly two arguments to 'set!'"@
}

/// The message rejecting an argument count other than two for `define!`.
pub open spec fn msg_define_two() -> Seq<char> {
    "expected exactly two arguments to 'define!'"@
}

/// The message rejecting a binding target that is not an atom.
pub open spec fn msg_first_ident(form: Seq<char>) -> Seq<char> {
    "expected identifier as first argument to '"@ + form + "'"@
}

/// The message rejecting a binding target atom that is no identifier.
pub open spec fn msg_not_identifier(lexeme: Seq<char>) -> Seq<char> {
    "'"@ + lexeme + "' is not an identifier!"@
}

/// The message rejecting a rebinding of a reserved name, naming its
/// category.
pub open spec fn msg_reserved(lexeme: Seq<char>, category: Seq<char>) -> Seq<char> {
    "can't assign to '"@ + lexeme + "' because the name is reserved for a "@ + category + "!"@
}

/// The message rejecting a rebinding of a special form's name.
pub open spec fn msg_reserved_special_form(lexeme: Seq<char>) -> Seq<char> {
    msg_reserved(lexeme, "special form"@)
}

/// The message rejecting a rebinding of a native function's name.
pub open spec fn msg_reserved_native(lexeme: Seq<char>) -> Seq<char> {
    msg_reserved(lexeme, "native function"@)
}

/// The message rejecting a rebinding of a constant's name.
pub open spec fn msg_reserved_constant(lexeme: Seq<char>) -> Seq<char> {
    msg_reserved(lexeme, "constant"@)
}

/// The message rejecting an argument count other than three for `defun!`.
pub open spec fn msg_defun_three() -> Seq<char> {
    "'defun!' requires exactly three arguments!"@
}

/// The message rejecting a `defun!` name that is no identifier.
pub open spec fn msg_defun_first() -> Seq<char> {
    "1st argument to 'defun!' must be an identifier!"@
}

/// The message rejecting a `defun!` parameter list that is no list.
pub open spec fn msg_defun_second() -> Seq<char> {
    "2nd argument to 'defun!' must be a list of identifiers!"@
}

/// The message rejecting an argument count other than two for `lambda!`.
pub open spec fn msg_lambda_two() -> Seq<char> {
    "'lambda!' requires exactly two arguments!"@
}

/// The message rejecting a `lambda!` parameter list that is no list.
pub open spec fn msg_lambda_first() -> Seq<char> {
    "1st argument to 'lambda!' must be a list of identifiers!"@
}

/// The message rejecting an argument count other than three for `if!`.
pub open spec fn msg_if_three() -> Seq<char> {
    "'if!' requires exactly three arguments!"@
}

/// The message rejecting a parameter that is an atom but no identifier,
/// naming its 1-based position.
pub open spec fn msg_param_not_ident(pos: nat) -> Seq<char> {
    dec_digits(pos) + "th argument is not an identifier!"@
}

/// The message rejecting a parameter that is no atom at all, naming its
/// 1-based position.
pub open spec fn msg_param_not_atom(pos: nat) -> Seq<char> {
    "Expected list of arguments: "@ + dec_digits(pos) + "th argument is not an identifier!"@
}

/// Scan a parameter list left to right: the identifier tokens when every
/// element is an identifier atom, else the error for the first offender.
pub open spec fn params_scan(l: Seq<SexpModel>, pos: nat) -> Result<Seq<TokenModel>, Seq<char>>
    decreases l.len(),
{
    if l.len() == 0 {
        Ok(Seq::empty())
    } else {
        match l.first() {
            SexpModel::Atom(t) => if t.kind is Identifier {
                match params_scan(l.drop_first(), pos + 1) {
                    Ok(rest) => Ok(seq![t] + rest),
                    Err(m) => Err(m),
                }
            } else {
                Err(msg_param_not_ident(pos))
            },
            SexpModel::List(_) => Err(msg_param_not_atom(pos)),
        }
    }
}

fn err_not_identifier(token: &Token) -> (e: RuntimeError)
    ensures
        e@ == msg_not_identifier(token@.lexeme),
{
    let mut message = String::new();
    message.append("'");
    message.append(token.lexeme.as_str());
    message.append("' is not an identifier!");
    RuntimeError { message }
}

fn err_first_ident(form: &str) -> (e: RuntimeError)
    ensures
        e@ == msg_first_ident(form@),
{
    let mut message = String::new();
    message.append("expected identifier as first argument to '");
    message.append(form);
    message.append("'");
    RuntimeError { message }
}

fn err_reserved(token: &Token, category: &str) -> (e: RuntimeError)
    ensures
        e@ == msg_reserved(token@.lexeme, category@),
{
    let mut message = String::new();
    message.append("can't assign to '");
    message.append(token.lexeme.as_str());
    message.append("' because the name is reserved for a ");
    message.append(category);
    message.append("!");
    RuntimeError { message }
}

fn err_param_not_ident(pos: usize) -> (e: RuntimeError)
    ensures
        e@ == msg_param_not_ident(pos as nat),
{
    let mut message = usize_to_string(pos);
    message.append("th argument is not an identifier!");
    RuntimeError { message }
}

fn err_param_not_atom(pos: usize) -> (e: RuntimeError)
    ensures
        e@ == msg_param_not_atom(pos as nat),
{
    let mut message = String::new();
    message.append("Expected list of arguments: ");
    let digits = usize_to_string(pos);
    message.append(digits.as_str());
    message.append("th argument is not an identifier!");
    RuntimeError { message }
}

/// Collect a parameter list's identifier tokens, rejecting the first
/// element that is no identifier atom with its 1-based position.
fn collect_params(list: &Vec<Sexp>) -> (r: Result<Vec<Token>, RuntimeError>)
    ensures
        match r {
            Ok(params) => params_scan(crate::parser::sexps_view(list@), 1) == Ok::<
                Seq<TokenModel>,
                Seq<char>,
            >(tokens_view(params@)),
            Err(e) => params_scan(crate::parser::sexps_view(list@), 1) matches Err(m) && m == e@,
        },
{
    let ghost lm = crate::parser::sexps_view(list@);
    proof {
        crate::parser::lemma_sexps_view(list@);
        assert(lm.skip(0) =~= lm);
    }
    let mut params: Vec<Token> = Vec::new();
    let mut i: usize = 0;
    while i < list.len()
        invariant
            lm == crate::parser::sexps_view(list@),
            lm.len() == list@.len(),
            forall|j: int| 0 <= j < lm.len() ==> lm[j] == #[trigger] list@[j]@,
            i <= list.len(),
            params@.len() == i,
            params_scan(lm, 1) == (match params_scan(lm.skip(i as int), (i + 1) as nat) {
                Ok(rest) => Ok(tokens_view(params@) + rest),
                Err(m) => Err(m),
            }),
        decreases list.len() - i,
    {
        proof {
            assert(lm[i as int] == list@[i as int]@);
            assert(lm.skip(i as int).first() == lm[i as int]);
            assert(lm.skip(i as int).drop_first() =~= lm.skip(i + 1));
            assert(lm.skip(i as int).len() == lm.len() - i);
        }
        match &list[i] {
            Sexp::Atom(token) => {
                match &token.kind {
                    TokenKind::Identifier => {
                        let ghost params_pre = params@;
                        params.push(token.clone());
                        proof {
                            assert(tokens_view(params@).drop_last() =~= tokens_view(params_pre));
                            if params_scan(lm.skip(i + 1), (i + 2) as nat) is Ok {
                                let rest = params_scan(lm.skip(i + 1), (i + 2) as nat)->Ok_0;
                                assert(tokens_view(params_pre) + (seq![lm[i as int]->Atom_0] + rest)
                                    =~= tokens_view(params@) + rest);
                            }
                        }
                    },
                    _ => {
                        return Err(err_param_not_ident(i + 1));
                    },
                }
            },
            _ => {
                return Err(err_param_not_atom(i + 1));
            },
        }
        i += 1;
    }
    proof {
        assert(lm.skip(lm.len() as int).len() == 0);
        assert(tokens_view(params@) + Seq::<TokenModel>::empty() =~= tokens_view(params@));
    }
    Ok(params)
}

/// The `set!` special form: bind an identifier to the value of an
/// expression in the current layer, with no reserved-name guard, and
/// return the bound value.
pub fn set(interpreter: &mut Interpreter, arguments: Vec<&Sexp>, depth: u64) -> (r: Result<
    MankaiObject,
    RuntimeError,
>)
    requires
        old(interpreter).wf(),
    ensures
        final(interpreter).wf(),
        env_frame(old(interpreter).environment@, final(interpreter).environment@),
        final(interpreter).environment@ == set_spec(
            old(interpreter).environment@,
            sf_args_view(arguments@),
            depth as nat,
        ).0,
        result_view(r) == set_spec(
            old(interpreter).environment@,
            sf_args_view(arguments@),
            depth as nat,
        ).1,
        sf_args_view(arguments@).len() != 2 ==> final(interpreter).environment@ == old(
            interpreter,
        ).environment@ && result_view(r) == Err::<Val, Seq<char>>(msg_set_two()),
        sf_args_view(arguments@).len() == 2 && !(sf_args_view(arguments@)[0] is Atom) ==> final(interpreter).environment@ == old(interpreter).environment@ && result_view(r) == Err::<Val, Seq<char>>(
            msg_first_ident("set!"@),
        ),
        sf_args_view(arguments@).len() == 2 ==> (sf_args_view(arguments@)[0] matches
            SexpModel::Atom(t) ==> (!(t.kind is Identifier) ==> final(interpreter).environment@
            == old(interpreter).environment@ && result_view(r) == Err::<Val, Seq<char>>(
            msg_not_identifier(t.lexeme),
        ))),
        r matches Ok(v) ==> sf_args_view(arguments@).len() == 2 && is_ident_sexp(
            sf_args_view(arguments@)[0],
        ) && env_lookup(
            final(interpreter).environment@,
            sf_args_view(arguments@)[0]->Atom_0.lexeme,
        ) == Some(v@),
    decreases depth, 4int,
{
    let ghost env0 = interpreter.environment@;
    proof {
        assert(sf_args_view(arguments@).len() == arguments@.len());
    }
    if arguments.len() != 2 {
        return Err(RuntimeError::new("expected exactly two arguments to 'set!'"));
    }
    proof {
        assert(sf_args_view(arguments@)[0] == arguments@[0 as int]@);
        assert(sf_args_view(arguments@)[1] == arguments@[1 as int]@);
    }
    let name = match arguments[0] {
        Sexp::Atom(token) => token,
        Sexp::List(_) => {
            return Err(err_first_ident("set!"));
        },
    };
    match &name.kind {
        TokenKind::Identifier => {},
        _ => {
            return Err(err_not_identifier(name));
        },
    }
    let value = match interpreter.evaluate_depth(arguments[1], depth) {
        Ok(v) => v,
        Err(e) => {
            return Err(e);
        },
    };
    let value_clone = value.clone();
    let ghost env1 = interpreter.environment@;
    interpreter.environment.define(name, value);
    proof {
        lemma_env_frame_trans(env0, env1, interpreter.environment@);
        let n = interpreter.environment@.len() as int;
        assert(interpreter.environment@.last() == interpreter.environment@[n - 1]);
        assert(interpreter.environment@.last().contains_key(name@.lexeme));
    }
    Ok(value_clone)
}

/// The `define!` special form: like `set!`, but any identifier reserved
/// for a special form, a native function or a constant is rejected, each
/// with a message naming the category.
pub fn define(interpreter: &mut Interpreter, arguments: Vec<&Sexp>, depth: u64) -> (r: Result<
    MankaiObject,
    RuntimeError,
>)
    requires
        old(interpreter).wf(),
    ensures
        final(interpreter).wf(),
        env_frame(old(interpreter).environment@, final(interpreter).environment@),
        final(interpreter).environment@ == define_spec(
            old(interpreter).environment@,
            sf_args_view(arguments@),
            depth as nat,
        ).0,
        result_view(r) == define_spec(
            old(interpreter).environment@,
            sf_args_view(arguments@),
            depth as nat,
        ).1,
        sf_args_view(arguments@).len() != 2 ==> final(interpreter).environment@ == old(
            interpreter,
        ).environment@ && result_view(r) == Err::<Val, Seq<char>>(msg_define_two()),
        sf_args_view(arguments@).len() == 2 && !(sf_args_view(arguments@)[0] is Atom) ==> final(interpreter).environment@ == old(interpreter).environment@ && result_view(r) == Err::<Val, Seq<char>>(
            msg_first_ident("define!"@),
        ),
        sf_args_view(arguments@).len() == 2 ==> (sf_args_view(arguments@)[0] matches
            SexpModel::Atom(t) ==> (!(t.kind is Identifier) ==> final(interpreter).environment@
            == old(interpreter).environment@ && result_view(r) == Err::<Val, Seq<char>>(
            msg_not_identifier(t.lexeme),
        ))),
        (sf_args_view(arguments@).len() == 2 && is_ident_sexp(sf_args_view(arguments@)[0])
            && special_form_names().contains(sf_args_view(arguments@)[0]->Atom_0.lexeme)) ==> final(interpreter).environment@ == old(interpreter).environment@ && result_view(r) == Err::<Val, Seq<char>>(
            msg_reserved_special_form(sf_args_view(arguments@)[0]->Atom_0.lexeme),
        ),
        (sf_args_view(arguments@).len() == 2 && is_ident_sexp(sf_args_view(arguments@)[0])
            && !special_form_names().contains(sf_args_view(arguments@)[0]->Atom_0.lexeme)
            && native_function_names().contains(sf_args_view(arguments@)[0]->Atom_0.lexeme))
            ==> final(interpreter).environment@ == old(interpreter).environment@ && result_view(r)
            == Err::<Val, Seq<char>>(
            msg_reserved_native(sf_args_view(arguments@)[0]->Atom_0.lexeme),
        ),
        (sf_args_view(arguments@).len() == 2 && is_ident_sexp(sf_args_view(arguments@)[0])
            && !special_form_names().contains(sf_args_view(arguments@)[0]->Atom_0.lexeme)
            && !native_function_names().contains(sf_args_view(arguments@)[0]->Atom_0.lexeme)
            && constant_names().contains(sf_args_view(arguments@)[0]->Atom_0.lexeme)) ==> final(interpreter).environment@ == old(interpreter).environment@ && result_view(r) == Err::<Val, Seq<char>>(
            msg_reserved_constant(sf_args_view(arguments@)[0]->Atom_0.lexeme),
        ),
        r matches Ok(v) ==> sf_args_view(arguments@).len() == 2 && is_ident_sexp(
            sf_args_view(arguments@)[0],
        ) && !special_form_names().contains(sf_args_view(arguments@)[0]->Atom_0.lexeme)
            && !native_function_names().contains(sf_args_view(arguments@)[0]->Atom_0.lexeme)
            && !constant_names().contains(sf_args_view(arguments@)[0]->Atom_0.lexeme) && env_lookup(
            final(interpreter).environment@,
            sf_args_view(arguments@)[0]->Atom_0.lexeme,
        ) == Some(v@),
    decreases depth, 4int,
{
    let ghost env0 = interpreter.environment@;
    proof {
        assert(sf_args_view(arguments@).len() == arguments@.len());
    }
    if arguments.len() != 2 {
        return Err(RuntimeError::new("expected exactly two arguments to 'define!'"));
    }
    proof {
        assert(sf_args_view(arguments@)[0] == arguments@[0 as int]@);
        assert(sf_args_view(arguments@)[1] == arguments@[1 as int]@);
    }
    let name = match arguments[0] {
        Sexp::Atom(token) => token,
        Sexp::List(_) => {
            return Err(err_first_ident("define!"));
        },
    };
    match &name.kind {
        TokenKind::Identifier => {},
        _ => {
            return Err(err_not_identifier(name));
        },
    }
    if interpreter.is_special_form(name) {
        return Err(err_reserved(name, "special form"));
    }
    if interpreter.is_native_fucntion(name) {
        return Err(err_reserved(name, "native function"));
    }
    if interpreter.is_constant(name) {
        return Err(err_reserved(name, "constant"));
    }
    let value = match interpreter.evaluate_depth(arguments[1], depth) {
        Ok(v) => v,
        Err(e) => {
            return Err(e);
        },
    };
    let value_clone = value.clone();
    let ghost env1 = interpreter.environment@;
    interpreter.environment.define(name, value);
    proof {
        lemma_env_frame_trans(env0, env1, interpreter.environment@);
        let n = interpreter.environment@.len() as int;
        assert(interpreter.environment@.last() == interpreter.environment@[n - 1]);
        assert(interpreter.environment@.last().contains_key(name@.lexeme));
    }
    Ok(value_clone)
}

/// The `defun!` special form: like `lambda!`, but a leading identifier
/// names the function and becomes its binding in the current layer; the
/// new function value is returned.
pub fn defun(interpreter: &mut Interpreter, arguments: Vec<&Sexp>, depth: u64) -> (r: Result<
    MankaiObject,
    RuntimeError,
>)
    requires
        old(interpreter).wf(),
    ensures
        final(interpreter).wf(),
        env_frame(old(interpreter).environment@, final(interpreter).environment@),
        final(interpreter).environment@ == defun_spec(
            old(interpreter).environment@,
            sf_args_view(arguments@),
        ).0,
        result_view(r) == defun_spec(old(interpreter).environment@, sf_args_view(arguments@)).1,
        sf_args_view(arguments@).len() != 3 ==> final(interpreter).environment@ == old(
            interpreter,
        ).environment@ && result_view(r) == Err::<Val, Seq<char>>(msg_defun_three()),
        sf_args_view(arguments@).len() == 3 && !is_ident_sexp(sf_args_view(arguments@)[0])
            ==> final(interpreter).environment@ == old(interpreter).environment@ && result_view(r)
            == Err::<Val, Seq<char>>(msg_defun_first()),
        (sf_args_view(arguments@).len() == 3 && is_ident_sexp(sf_args_view(arguments@)[0]) && !(
        sf_args_view(arguments@)[1] is List)) ==> final(interpreter).environment@ == old(
            interpreter,
        ).environment@ && result_view(r) == Err::<Val, Seq<char>>(msg_defun_second()),
        sf_args_view(arguments@).len() == 3 && is_ident_sexp(sf_args_view(arguments@)[0]) ==> (
        sf_args_view(arguments@)[1] matches SexpModel::List(l) ==> match params_scan(l, 1) {
            Err(m) => final(interpreter).environment@ == old(interpreter).environment@
                && result_view(r) == Err::<Val, Seq<char>>(m),
            Ok(ps) => result_view(r) == Ok::<Val, Seq<char>>(
                Val::Function {
                    name: Some(sf_args_view(arguments@)[0]->Atom_0.lexeme),
                    params: ps,
                    body: sf_args_view(arguments@)[2],
                },
            ) && final(interpreter).environment@ == old(interpreter).environment@.update(
                old(interpreter).environment@.len() - 1,
                old(interpreter).environment@.last().insert(
                    sf_args_view(arguments@)[0]->Atom_0.lexeme,
                    Val::Function {
                        name: Some(sf_args_view(arguments@)[0]->Atom_0.lexeme),
                        params: ps,
                        body: sf_args_view(arguments@)[2],
                    },
                ),
            ),
        }),
    decreases depth, 4int,
{
    proof {
        assert(sf_args_view(arguments@).len() == arguments@.len());
    }
    if arguments.len() != 3 {
        return Err(RuntimeError::new("'defun!' requires exactly three arguments!"));
    }
    proof {
        assert(sf_args_view(arguments@)[0] == arguments@[0 as int]@);
        assert(sf_args_view(arguments@)[1] == arguments@[1 as int]@);
        assert(sf_args_view(arguments@)[2] == arguments@[2 as int]@);
    }
    let name_token = match arguments[0] {
        Sexp::Atom(token) => match &token.kind {
            TokenKind::Identifier => token,
            _ => {
                return Err(RuntimeError::new("1st argument to 'defun!' must be an identifier!"));
            },
        },
        _ => {
            return Err(RuntimeError::new("1st argument to 'defun!' must be an identifier!"));
        },
    };
    let params_raw = match arguments[1] {
        Sexp::List(list) => list,
        _ => {
            return Err(
                RuntimeError::new("2nd argument to 'defun!' must be a list of identifiers!"),
            );
        },
    };
    let params = match collect_params(params_raw) {
        Ok(ps) => ps,
        Err(e) => {
            return Err(e);
        },
    };
    let body = arguments[2].clone();
    let function = MankaiObject::Function {
        name: Some(name_token.lexeme.clone()),
        arguments_identifiers: params,
        body,
    };
    let function_clone = function.clone();
    interpreter.environment.define(name_token, function);
    Ok(function_clone)
}

/// The `lambda!` special form: an anonymous function from a parameter
/// list of identifier atoms and one body expression, cloned by value. The
/// environment is untouched.
pub fn lambda(interpreter: &mut Interpreter, arguments: Vec<&Sexp>, depth: u64) -> (r: Result<
    MankaiObject,
    RuntimeError,
>)
    requires
        old(interpreter).wf(),
    ensures
        final(interpreter).wf(),
        final(interpreter).environment@ == old(interpreter).environment@,
        env_frame(old(interpreter).environment@, final(interpreter).environment@),
        final(interpreter).environment@ == lambda_spec(
            old(interpreter).environment@,
            sf_args_view(arguments@),
        ).0,
        result_view(r) == lambda_spec(old(interpreter).environment@, sf_args_view(arguments@)).1,
        sf_args_view(arguments@).len() != 2 ==> result_view(r) == Err::<Val, Seq<char>>(
            msg_lambda_two(),
        ),
        sf_args_view(arguments@).len() == 2 && !(sf_args_view(arguments@)[0] is List)
            ==> result_view(r) == Err::<Val, Seq<char>>(msg_lambda_first()),
        sf_args_view(arguments@).len() == 2 ==> (sf_args_view(arguments@)[0] matches
            SexpModel::List(l) ==> match params_scan(l, 1) {
            Err(m) => result_view(r) == Err::<Val, Seq<char>>(m),
            Ok(ps) => result_view(r) == Ok::<Val, Seq<char>>(
                (Val::Function { name: None, params: ps, body: sf_args_view(arguments@)[1] }),
            ),
        }),
    decreases depth, 4int,
{
    proof {
        assert(sf_args_view(arguments@).len() == arguments@.len());
    }
    if arguments.len() != 2 {
        return Err(RuntimeError::new("'lambda!' requires exactly two arguments!"));
    }
    proof {
        assert(sf_args_view(arguments@)[0] == arguments@[0 as int]@);
        assert(sf_args_view(arguments@)[1] == arguments@[1 as int]@);
    }
    let params_raw = match arguments[0] {
        Sexp::List(list) => list,
        _ => {
            return Err(
                RuntimeError::new("1st argument to 'lambda!' must be a list of identifiers!"),
            );
        },
    };
    let params = match collect_params(params_raw) {
        Ok(ps) => ps,
        Err(e) => {
            return Err(e);
        },
    };
    let body = arguments[1].clone();
    Ok(MankaiObject::Function { name: None, arguments_identifiers: params, body })
}

/// The `if!` special form: evaluate the condition, which must yield a
/// boolean, then exactly one of the two branches; the untaken branch is
/// never evaluated.
pub fn if_special_form(interpreter: &mut Interpreter, arguments: Vec<&Sexp>, depth: u64) -> (r:
    Result<MankaiObject, RuntimeError>)
    requires
        old(interpreter).wf(),
    ensures
        final(interpreter).wf(),
        env_frame(old(interpreter).environment@, final(interpreter).environment@),
        final(interpreter).environment@ == if_spec(
            old(interpreter).environment@,
            sf_args_view(arguments@),
            depth as nat,
        ).0,
        result_view(r) == if_spec(
            old(interpreter).environment@,
            sf_args_view(arguments@),
            depth as nat,
        ).1,
        sf_args_view(arguments@).len() != 3 ==> final(interpreter).environment@ == old(
            interpreter,
        ).environment@ && result_view(r) == Err::<Val, Seq<char>>(msg_if_three()),
    decreases depth, 4int,
{
    let ghost env0 = interpreter.environment@;
    proof {
        assert(sf_args_view(arguments@).len() == arguments@.len());
    }
    if arguments.len() != 3 {
        return Err(RuntimeError::new("'if!' requires exactly three arguments!"));
    }
    let condition = match interpreter.evaluate_depth(arguments[0], depth) {
        Ok(v) => v,
        Err(e) => {
            return Err(e);
        },
    };
    let ghost env1 = interpreter.environment@;
    let r = match condition {
        MankaiObject::Bool(true) => interpreter.evaluate_depth(arguments[1], depth),
        MankaiObject::Bool(false) => interpreter.evaluate_depth(arguments[2], depth),
        _ => Err(RuntimeError::new("1st argument to 'if!' must evaluate to a boolean!")),
    };
    proof {
        lemma_env_frame_trans(env0, env1, interpreter.environment@);
    }
    r
}

} // verus!
