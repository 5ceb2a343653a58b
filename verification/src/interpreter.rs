use vstd::prelude::*;
use crate::environment::{env_lookup, initial_bindings, unbound_symbol_msg, Environment};
use crate::native_functions::{dispatch_native, native_spec, result_view};
use crate::object::{objs_view, val_to_text, MankaiObject, SpecialFormKind, Val};
use crate::parser::{Sexp, SexpModel};
use crate::semantics::{bind_params, call_spec, eval_args_spec, eval_spec, sf_spec, with_values};
use crate::special_forms::sf_args_view;
use crate::strutil::{dec_digits, usize_to_string};
use crate::token::{Token, TokenKindModel, TokenModel};

verus! {

/// The depth at which evaluation reports a recursion error instead of
/// exhausting the host stack.
pub const MAX_RECURSION_DEPTH: u64 = 256;

/// A runtime error.
#[derive(Debug)]
pub struct RuntimeError {
    /// Error message.
    pub message: String,
}

impl View for RuntimeError {
    type V = Seq<char>;

    open spec fn view(&self) -> Seq<char> {
        self.message@
    }
}

impl RuntimeError {
    /// Make a new runtime error from its message.
    pub fn new(message: &str) -> (e: RuntimeError)
        ensures
            e@ == message@,
    {
        RuntimeError { message: String::from_str(message) }
    }
}

/// The views of a sequence of strings, in order.
pub open spec fn strs_view(s: Seq<String>) -> Seq<Seq<char>> {
    Seq::new(s.len(), |i: int| s[i]@)
}

/// The identifiers reserved for special forms.
pub open spec fn special_form_names() -> Seq<Seq<char>> {
    seq!["if!"@, "lambda!"@, "set!"@, "define!"@, "defun!"@]
}

/// The identifiers reserved for native functions.
pub open spec fn native_function_names() -> Seq<Seq<char>> {
    seq![
        "+"@,
        "-"@,
        "*"@,
        "/"@,
        "="@,
        ">"@,
        "<"@,
        "and"@,
        "car"@,
        "cdr"@,
        "cons"@,
        "bool?"@,
        "list?"@,
        "number?"@,
        "string?"@,
        "list"@,
        "not"@,
        "or"@,
        "string-concat"@,
        "to-string"@,
    ]
}

/// The identifiers reserved for constants.
pub open spec fn constant_names() -> Seq<Seq<char>> {
    seq!["true"@, "false"@]
}

/// How an evaluation may change the environment: the layer count is kept,
/// and every layer but the topmost is kept as it was.
pub open spec fn env_frame(pre: Seq<Map<Seq<char>, Val>>, post: Seq<Map<Seq<char>, Val>>) -> bool {
    post.len() == pre.len() && (forall|i: int| 0 <= i < pre.len() - 1 ==> post[i] == pre[i])
}

/// Two evaluations in sequence keep the environment frame.
pub proof fn lemma_env_frame_trans(
    a: Seq<Map<Seq<char>, Val>>,
    b: Seq<Map<Seq<char>, Val>>,
    c: Seq<Map<Seq<char>, Val>>,
)
    requires
        env_frame(a, b),
        env_frame(b, c),
    ensures
        env_frame(a, c),
{
    assert forall|i: int| 0 <= i < a.len() - 1 implies c[i] == a[i] by {
        assert(b[i] == a[i]);
        assert(c[i] == b[i]);
    }
}

/// What evaluating an atom yields under a given environment: a numeric
/// literal its number, a string literal its text, an identifier the result
/// of a lookup, and anything else an internal failure.
pub open spec fn atom_spec(env: Seq<Map<Seq<char>, Val>>, t: TokenModel) -> Result<Val, Seq<char>> {
    match t.kind {
        TokenKindModel::Num(n) => Ok(Val::Num(n)),
        TokenKindModel::Str(s) => Ok(Val::Str(s)),
        TokenKindModel::Identifier => match env_lookup(env, t.lexeme) {
            Some(v) => Ok(v),
            None => Err(unbound_symbol_msg(t.lexeme)),
        },
        _ => Err("failed to convert atom to value"@),
    }
}

/// The message rejecting a call of a value that is not callable.
pub open spec fn msg_not_callable(v: Val) -> Seq<char> {
    "'"@ + val_to_text(v) + "' is not callable!"@
}

/// The message for a call whose argument count does not match the
/// function's parameter count, naming both and the function.
pub open spec fn arity_msg(found: nat, name: Option<Seq<char>>, expected: nat) -> Seq<char> {
    "found "@ + dec_digits(found) + " arguments but '"@ + (match name {
        Some(n) => n,
        None => "anonymous function"@,
    }) + "' requires "@ + dec_digits(expected) + "!"@
}

/// A Mankai interpreter: the environment and the three reserved-name
/// tables, populated once at construction.
pub struct Interpreter {
    /// The environment.
    pub environment: Environment,
    /// Names reserved for special forms.
    pub special_forms: Vec<String>,
    /// Names reserved for native functions.
    pub native_functions: Vec<String>,
    /// Names reserved for constants.
    pub constants: Vec<String>,
}

impl Interpreter {
    /// The reserved-name tables hold exactly the built-in names.
    pub open spec fn tables_ok(&self) -> bool {
        strs_view(self.special_forms@) == special_form_names() && strs_view(
            self.native_functions@,
        ) == native_function_names() && strs_view(self.constants@) == constant_names()
    }

    /// A well-formed interpreter: the environment keeps its global layer
    /// and the reserved-name tables are the built-in ones.
    pub open spec fn wf(&self) -> bool {
        self.environment.wf() && self.tables_ok()
    }
}

impl Default for Interpreter {
    fn default() -> (r: Interpreter)
        ensures
            r.wf(),
            r.environment@.len() == 1,
            r.environment@[0] == initial_bindings(),
    {
        let mut special_forms: Vec<String> = Vec::new();
        special_forms.push(String::from_str("if!"));
        special_forms.push(String::from_str("lambda!"));
        special_forms.push(String::from_str("set!"));
        special_forms.push(String::from_str("define!"));
        special_forms.push(String::from_str("defun!"));
        let mut native_functions: Vec<String> = Vec::new();
        native_functions.push(String::from_str("+"));
        native_functions.push(String::from_str("-"));
        native_functions.push(String::from_str("*"));
        native_functions.push(String::from_str("/"));
        native_functions.push(String::from_str("="));
        native_functions.push(String::from_str(">"));
        native_functions.push(String::from_str("<"));
        native_functions.push(String::from_str("and"));
        native_functions.push(String::from_str("car"));
        native_functions.push(String::from_str("cdr"));
        native_functions.push(String::from_str("cons"));
        native_functions.push(String::from_str("bool?"));
        native_functions.push(String::from_str("list?"));
        native_functions.push(String::from_str("number?"));
        native_functions.push(String::from_str("string?"));
        native_functions.push(String::from_str("list"));
        native_functions.push(String::from_str("not"));
        native_functions.push(String::from_str("or"));
        native_functions.push(String::from_str("string-concat"));
        native_functions.push(String::from_str("to-string"));
        let mut constants: Vec<String> = Vec::new();
        constants.push(String::from_str("true"));
        constants.push(String::from_str("false"));
        let r = Interpreter {
            environment: Environment::new(),
            special_forms,
            native_functions,
            constants,
        };
        proof {
            assert(strs_view(r.special_forms@) =~= special_form_names());
            assert(strs_view(r.native_functions@) =~= native_function_names());
            assert(strs_view(r.constants@) =~= constant_names());
        }
        r
    }
}

/// Search a table of reserved names for an identifier's lexeme.
fn table_contains(table: &Vec<String>, identifier: &Token) -> (r: bool)
    ensures
        r == strs_view(table@).contains(identifier@.lexeme),
{
    let mut i: usize = 0;
    while i < table.len()
        invariant
            i <= table.len(),
            forall|j: int| 0 <= j < i ==> strs_view(table@)[j] != identifier@.lexeme,
        decreases table.len() - i,
    {
        if table[i] == identifier.lexeme {
            proof {
                assert(strs_view(table@)[i as int] == identifier@.lexeme);
            }
            return true;
        }
        proof {
            assert(strs_view(table@)[i as int] == table@[i as int]@);
        }
        i += 1;
    }
    proof {
        assert forall|j: int| 0 <= j < strs_view(table@).len() implies strs_view(table@)[j]
            != identifier@.lexeme by {}
    }
    false
}

impl Interpreter {
    /// Create a new interpreter.
    pub fn new() -> (r: Interpreter)
        ensures
            r.wf(),
            r.environment@.len() == 1,
            r.environment@[0] == initial_bindings(),
    {
        Interpreter::default()
    }

    /// Check if the identifier is reserved for a special form.
    pub fn is_special_form(&self, identifier: &Token) -> (r: bool)
        requires
            self.wf(),
        ensures
            r == special_form_names().contains(identifier@.lexeme),
    {
        table_contains(&self.special_forms, identifier)
    }

    /// Check if the identifier is reserved for a native function.
    pub fn is_native_fucntion(&self, identifier: &Token) -> (r: bool)
        requires
            self.wf(),
        ensures
            r == native_function_names().contains(identifier@.lexeme),
    {
        table_contains(&self.native_functions, identifier)
    }

    /// Check if the identifier is reserved for a constant.
    pub fn is_constant(&self, identifier: &Token) -> (r: bool)
        requires
            self.wf(),
        ensures
            r == constant_names().contains(identifier@.lexeme),
    {
        table_contains(&self.constants, identifier)
    }

    /// Evaluate an atom.
    fn evaluate_atom(&self, atom: &Token) -> (r: Result<MankaiObject, RuntimeError>)
        ensures
            result_view(r) == atom_spec(self.environment@, atom@),
    {
        match &atom.kind {
            crate::token::TokenKind::Number(n) => Ok(MankaiObject::Number(*n)),
            crate::token::TokenKind::String(s) => Ok(MankaiObject::String(s.clone())),
            crate::token::TokenKind::Identifier => self.environment.get(atom),
            _ => Err(RuntimeError::new("failed to convert atom to value")),
        }
    }

    /// Evaluate a list: the head must evaluate to a special form, which
    /// receives the rest unevaluated, or to a callable applied to the
    /// eagerly evaluated rest.
    fn evaluate_list(&mut self, list: &Vec<Sexp>, depth: u64) -> (r: Result<
        MankaiObject,
        RuntimeError,
    >)
        requires
            old(self).wf(),
        ensures
            final(self).wf(),
            env_frame(old(self).environment@, final(self).environment@),
            final(self).environment@ == eval_spec(
                old(self).environment@,
                SexpModel::List(crate::parser::sexps_view(list@)),
                depth as nat,
            ).0,
            result_view(r) == eval_spec(
                old(self).environment@,
                SexpModel::List(crate::parser::sexps_view(list@)),
                depth as nat,
            ).1,
        decreases depth, 2int,
    {
        let ghost env0 = self.environment@;
        let ghost items = crate::parser::sexps_view(list@);
        let ghost lx = SexpModel::List(items);
        proof {
            crate::parser::lemma_sexps_view(list@);
        }
        if depth == 0 {
            return Err(RuntimeError::new("recursion depth exceeded!"));
        }
        if list.len() == 0 {
            return Err(RuntimeError::new("can't evaluate the empty list!"));
        }
        let ghost d2 = (depth - 1) as nat;
        proof {
            assert(items[0] == list@[0]@);
        }
        let callee = match self.evaluate_depth(&list[0], depth - 1) {
            Ok(v) => v,
            Err(e) => {
                return Err(e);
            },
        };
        let ghost env1 = self.environment@;
        match &callee {
            MankaiObject::SpecialForm(kind) => {
                let mut sf_args: Vec<&Sexp> = Vec::new();
                let mut k: usize = 1;
                while k < list.len()
                    invariant
                        1 <= k <= list.len(),
                        sf_args@.len() == k - 1,
                        forall|j: int| 0 <= j < k - 1 ==> (#[trigger] sf_args@[j])@ == list@[j
                            + 1]@,
                    decreases list.len() - k,
                {
                    sf_args.push(&list[k]);
                    k += 1;
                }
                proof {
                    assert forall|j: int| 0 <= j < sf_args@.len() implies sf_args_view(
                        sf_args@,
                    )[j] == items.drop_first()[j] by {
                        assert(sf_args@[j]@ == list@[j + 1]@);
                        assert(items[j + 1] == list@[j + 1]@);
                    }
                    assert(sf_args_view(sf_args@) =~= items.drop_first());
                }
                let r = match kind {
                    SpecialFormKind::IfForm => crate::special_forms::if_special_form(
                        self,
                        sf_args,
                        depth - 1,
                    ),
                    SpecialFormKind::LambdaForm => crate::special_forms::lambda(
                        self,
                        sf_args,
                        depth - 1,
                    ),
                    SpecialFormKind::SetForm => crate::special_forms::set(self, sf_args, depth - 1),
                    SpecialFormKind::DefineForm => crate::special_forms::define(
                        self,
                        sf_args,
                        depth - 1,
                    ),
                    SpecialFormKind::DefunForm => crate::special_forms::defun(
                        self,
                        sf_args,
                        depth - 1,
                    ),
                };
                proof {
                    assert(callee@ == Val::SpecialForm(*kind));
                    assert((self.environment@, result_view(r)) == sf_spec(
                        *kind,
                        env1,
                        items.drop_first(),
                        d2,
                    ));
                    assert(eval_spec(env0, lx, depth as nat) == sf_spec(
                        *kind,
                        env1,
                        items.drop_first(),
                        d2,
                    ));
                }
                r
            },
            _ => {
                let ghost rest_m = items.drop_first();
                proof {
                    assert(eval_spec(env0, items[0], d2) == (env1, Ok::<Val, Seq<char>>(callee@)));
                    assert(!(callee@ is SpecialForm));
                }
                let mut evaluated: Vec<MankaiObject> = Vec::new();
                proof {
                    crate::object::lemma_objs_view(evaluated@);
                    assert(rest_m.skip(0) =~= rest_m);
                    assert(objs_view(evaluated@) + eval_args_spec(env1, rest_m, d2).1->Ok_0
                        =~= eval_args_spec(env1, rest_m, d2).1->Ok_0);
                    assert(eval_args_spec(env1, rest_m, d2) == with_values(
                        objs_view(evaluated@),
                        eval_args_spec(self.environment@, rest_m.skip(0), d2),
                    ));
                }
                let mut k: usize = 1;
                while k < list.len()
                    invariant
                        self.wf(),
                        env0 == old(self).environment@,
                        env_frame(env0, self.environment@),
                        1 <= k <= list.len(),
                        depth >= 1,
                        d2 == (depth - 1) as nat,
                        items == crate::parser::sexps_view(list@),
                        items.len() == list@.len(),
                        lx == SexpModel::List(items),
                        rest_m == items.drop_first(),
                        eval_spec(env0, items[0], d2) == (env1, Ok::<Val, Seq<char>>(callee@)),
                        !(callee@ is SpecialForm),
                        eval_args_spec(env1, rest_m, d2) == with_values(
                            objs_view(evaluated@),
                            eval_args_spec(self.environment@, rest_m.skip(k - 1), d2),
                        ),
                    decreases list.len() - k,
                {
                    let ghost env_before = self.environment@;
                    let ghost acc = objs_view(evaluated@);
                    proof {
                        crate::parser::lemma_sexps_view(list@);
                        assert(rest_m.skip(k - 1).first() == rest_m[k - 1]);
                        assert(rest_m[k - 1] == items[k as int]);
                        assert(items[k as int] == list@[k as int]@);
                        assert(rest_m.skip(k - 1).drop_first() =~= rest_m.skip(k as int));
                    }
                    match self.evaluate_depth(&list[k], depth - 1) {
                        Ok(v) => {
                            proof {
                                lemma_env_frame_trans(env0, env_before, self.environment@);
                            }
                            let ghost pre = evaluated@;
                            evaluated.push(v);
                            proof {
                                assert(evaluated@.drop_last() =~= pre);
                                crate::object::lemma_objs_view(evaluated@);
                                crate::object::lemma_objs_view(pre);
                                let inner = eval_args_spec(self.environment@, rest_m.skip(k as int), d2);
                                if inner.1 is Ok {
                                    assert(acc + (seq![v@] + inner.1->Ok_0) =~= objs_view(
                                        evaluated@,
                                    ) + inner.1->Ok_0);
                                }
                            }
                        },
                        Err(e) => {
                            proof {
                                lemma_env_frame_trans(env0, env_before, self.environment@);
                                assert(eval_args_spec(env_before, rest_m.skip(k - 1), d2) == (
                                    self.environment@,
                                    Err::<Seq<Val>, Seq<char>>(e@),
                                ));
                                assert(eval_args_spec(env1, rest_m, d2) == (
                                    self.environment@,
                                    Err::<Seq<Val>, Seq<char>>(e@),
                                ));
                                assert(eval_spec(env0, lx, depth as nat) == (
                                    self.environment@,
                                    Err::<Val, Seq<char>>(e@),
                                ));
                            }
                            return Err(e);
                        },
                    }
                    k += 1;
                }
                proof {
                    assert(rest_m.skip(list@.len() - 1).len() == 0);
                    let t = eval_args_spec(self.environment@, rest_m.skip(list@.len() - 1), d2);
                    assert(t == (self.environment@, Ok::<Seq<Val>, Seq<char>>(Seq::empty())));
                    assert(objs_view(evaluated@) + Seq::<Val>::empty() =~= objs_view(evaluated@));
                    assert(eval_args_spec(env1, rest_m, d2) == (
                        self.environment@,
                        Ok::<Seq<Val>, Seq<char>>(objs_view(evaluated@)),
                    ));
                    assert(!(callee@ is SpecialForm));
                }
                let r = callee.call(self, evaluated, depth - 1);
                r
            },
        }
    }

    /// Evaluate an expression, failing past the given recursion depth.
    pub fn evaluate_depth(&mut self, expr: &Sexp, depth: u64) -> (r: Result<
        MankaiObject,
        RuntimeError,
    >)
        requires
            old(self).wf(),
        ensures
            final(self).wf(),
            env_frame(old(self).environment@, final(self).environment@),
            final(self).environment@ == eval_spec(old(self).environment@, expr@, depth as nat).0,
            result_view(r) == eval_spec(old(self).environment@, expr@, depth as nat).1,
            expr@ matches SexpModel::Atom(t) ==> final(self).environment@ == old(
                self,
            ).environment@ && result_view(r) == atom_spec(old(self).environment@, t),
        decreases depth, 3int,
    {
        match expr {
            Sexp::Atom(token) => self.evaluate_atom(token),
            Sexp::List(list) => self.evaluate_list(list, depth),
        }
    }

    /// Evaluate an expression.
    pub fn evaluate(&mut self, expr: &Sexp) -> (r: Result<MankaiObject, RuntimeError>)
        requires
            old(self).wf(),
        ensures
            final(self).wf(),
            env_frame(old(self).environment@, final(self).environment@),
            final(self).environment@ == eval_spec(
                old(self).environment@,
                expr@,
                MAX_RECURSION_DEPTH as nat,
            ).0,
            result_view(r) == eval_spec(
                old(self).environment@,
                expr@,
                MAX_RECURSION_DEPTH as nat,
            ).1,
            expr@ matches SexpModel::Atom(t) ==> final(self).environment@ == old(
                self,
            ).environment@ && result_view(r) == atom_spec(old(self).environment@, t),
    {
        self.evaluate_depth(expr, MAX_RECURSION_DEPTH)
    }
}

fn err_not_callable(value: &MankaiObject) -> (e: RuntimeError)
    ensures
        e@ == msg_not_callable(value@),
{
    let mut message = String::new();
    message.append("'");
    let text = value.to_string();
    message.append(text.as_str());
    message.append("' is not callable!");
    RuntimeError { message }
}

fn err_arity(found: usize, name: &Option<String>, expected: usize) -> (e: RuntimeError)
    ensures
        e@ == arity_msg(
            found as nat,
            match name {
                Some(n) => Some(n@),
                None => None,
            },
            expected as nat,
        ),
{
    let mut message = String::new();
    message.append("found ");
    let found_digits = usize_to_string(found);
    message.append(found_digits.as_str());
    message.append(" arguments but '");
    match name {
        Some(n) => message.append(n.as_str()),
        None => message.append("anonymous function"),
    }
    message.append("' requires ");
    let expected_digits = usize_to_string(expected);
    message.append(expected_digits.as_str());
    message.append("!");
    RuntimeError { message }
}

impl MankaiObject {
    /// Call the object with arguments. A native function checks its own
    /// arguments; a user-defined function gets a fresh environment layer
    /// holding its parameters, which is removed again whether or not the
    /// body evaluation succeeds; anything else is not callable.
    fn call(&self, interpreter: &mut Interpreter, arguments: Vec<MankaiObject>, depth: u64) -> (r:
        Result<MankaiObject, RuntimeError>)
        requires
            old(interpreter).wf(),
        ensures
            final(interpreter).wf(),
            env_frame(old(interpreter).environment@, final(interpreter).environment@),
            final(interpreter).environment@ == call_spec(
                self@,
                old(interpreter).environment@,
                objs_view(arguments@),
                depth as nat,
            ).0,
            result_view(r) == call_spec(
                self@,
                old(interpreter).environment@,
                objs_view(arguments@),
                depth as nat,
            ).1,
            self@ is Function ==> final(interpreter).environment@ == old(
                interpreter,
            ).environment@,
        decreases depth, 4int,
    {
        let ghost env0 = interpreter.environment@;
        let ghost vals_m = objs_view(arguments@);
        proof {
            crate::object::lemma_objs_view(arguments@);
        }
        match self {
            MankaiObject::Native(kind) => dispatch_native(*kind, arguments),
            MankaiObject::Function { name, arguments_identifiers, body } => {
                let ghost params_m = Seq::new(
                    arguments_identifiers@.len(),
                    |i: int| arguments_identifiers@[i]@,
                );
                // Arity check.
                if arguments_identifiers.len() != arguments.len() {
                    return Err(err_arity(arguments.len(), name, arguments_identifiers.len()));
                }
                // Extend the environment and bind the parameters
                // positionally in the new layer.
                interpreter.environment.extend();
                proof {
                    assert(params_m.subrange(0, 0) =~= Seq::<TokenModel>::empty());
                    assert(vals_m.subrange(0, 0) =~= Seq::<Val>::empty());
                    assert(interpreter.environment@ == env0.push(
                        bind_params(params_m.subrange(0, 0), vals_m.subrange(0, 0)),
                    ));
                }
                let ghost env1 = interpreter.environment@;
                let mut j: usize = 0;
                while j < arguments.len()
                    invariant
                        interpreter.wf(),
                        j <= arguments.len(),
                        arguments_identifiers@.len() == arguments@.len(),
                        params_m == Seq::new(
                            arguments_identifiers@.len(),
                            |i: int| arguments_identifiers@[i]@,
                        ),
                        vals_m == objs_view(arguments@),
                        env0.len() >= 1,
                        interpreter.environment@ == env0.push(
                            bind_params(
                                params_m.subrange(0, j as int),
                                vals_m.subrange(0, j as int),
                            ),
                        ),
                    decreases arguments.len() - j,
                {
                    proof {
                        crate::object::lemma_objs_view(arguments@);
                        assert(vals_m[j as int] == arguments@[j as int]@);
                        assert(params_m.subrange(0, j + 1).drop_last() =~= params_m.subrange(
                            0,
                            j as int,
                        ));
                        assert(vals_m.subrange(0, j + 1).drop_last() =~= vals_m.subrange(
                            0,
                            j as int,
                        ));
                        assert(params_m.subrange(0, j + 1).last() == params_m[j as int]);
                        assert(vals_m.subrange(0, j + 1).last() == vals_m[j as int]);
                    }
                    interpreter.environment.define(&arguments_identifiers[j], arguments[j].clone());
                    proof {
                        assert(interpreter.environment@ =~= env0.push(
                            bind_params(
                                params_m.subrange(0, j + 1),
                                vals_m.subrange(0, j + 1),
                            ),
                        ));
                    }
                    j += 1;
                }
                proof {
                    assert(params_m.subrange(0, params_m.len() as int) =~= params_m);
                    assert(vals_m.subrange(0, vals_m.len() as int) =~= vals_m);
                }
                // Evaluate the body of the function.
                let ghost env2 = interpreter.environment@;
                let result = interpreter.evaluate_depth(body, depth);
                let ghost env3 = interpreter.environment@;
                // Restrict the environment and return, whether or not the
                // body evaluation succeeded.
                interpreter.environment.restrict();
                proof {
                    assert forall|i: int| 0 <= i < env0.len() implies interpreter.environment@[i]
                        == env0[i] by {
                        assert(interpreter.environment@[i] == env3[i]);
                        assert(env3[i] == env2[i]);
                        assert(env2[i] == env1[i]);
                        assert(env1[i] == env0[i]);
                    }
                    assert(interpreter.environment@ =~= env0);
                    assert(env3.drop_last() =~= interpreter.environment@);
                    assert(self@ matches Val::Function { name: nm, params: pm, body: bm }
                        && pm == params_m && bm == body@);
                }
                result
            },
            _ => Err(err_not_callable(self)),
        }
    }
}

} // verus!
