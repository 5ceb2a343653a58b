use vstd::prelude::*;
use crate::interpreter::RuntimeError;
use crate::object::{MankaiObject, NativeKind, SpecialFormKind, Val};
use crate::token::{Token, TokenKind};

verus! {

/// One binding of a layer: an identifier and the value bound to it. A layer
/// keeps its bindings in the order they were made; the last binding for a
/// name is the one in force.
pub struct Binding {
    pub name: String,
    pub value: MankaiObject,
}

/// The mapping that a layer's bindings denote: later bindings shadow
/// earlier ones.
pub open spec fn layer_view(s: Seq<Binding>) -> Map<Seq<char>, Val>
    decreases s.len(),
{
    if s.len() == 0 {
        Map::empty()
    } else {
        layer_view(s.drop_last()).insert(s.last().name@, s.last().value@)
    }
}

/// The environment: a stack of layers, each mapping identifiers to values.
/// The first layer is the global scope and is permanent.
pub struct Environment {
    layers: Vec<Vec<Binding>>,
}

impl View for Environment {
    type V = Seq<Map<Seq<char>, Val>>;

    closed spec fn view(&self) -> Seq<Map<Seq<char>, Val>> {
        Seq::new(self.layers@.len(), |i: int| layer_view(self.layers@[i]@))
    }
}

/// The first match for a name, searching the layers from the topmost (last)
/// down to the global one.
pub open spec fn env_lookup(layers: Seq<Map<Seq<char>, Val>>, name: Seq<char>) -> Option<Val>
    decreases layers.len(),
{
    if layers.len() == 0 {
        None
    } else if layers.last().contains_key(name) {
        Some(layers.last()[name])
    } else {
        env_lookup(layers.drop_last(), name)
    }
}

/// The message that an unresolved lookup fails with.
pub open spec fn unbound_symbol_msg(name: Seq<char>) -> Seq<char> {
    "unbound symbol '"@ + name + "'"@
}

/// The bindings of the global layer at construction: every special form,
/// every native function, and the two boolean constants.
pub open spec fn initial_bindings() -> Map<Seq<char>, Val> {
    Map::empty()
        .insert("if!"@, Val::SpecialForm(SpecialFormKind::IfForm))
        .insert("lambda!"@, Val::SpecialForm(SpecialFormKind::LambdaForm))
        .insert("set!"@, Val::SpecialForm(SpecialFormKind::SetForm))
        .insert("define!"@, Val::SpecialForm(SpecialFormKind::DefineForm))
        .insert("defun!"@, Val::SpecialForm(SpecialFormKind::DefunForm))
        .insert("+"@, Val::Native(NativeKind::Sum))
        .insert("-"@, Val::Native(NativeKind::Subtract))
        .insert("*"@, Val::Native(NativeKind::Multiplication))
        .insert("/"@, Val::Native(NativeKind::Division))
        .insert("="@, Val::Native(NativeKind::Equals))
        .insert(">"@, Val::Native(NativeKind::GreaterThan))
        .insert("<"@, Val::Native(NativeKind::LessThan))
        .insert("and"@, Val::Native(NativeKind::And))
        .insert("or"@, Val::Native(NativeKind::Or))
        .insert("not"@, Val::Native(NativeKind::Not))
        .insert("car"@, Val::Native(NativeKind::Car))
        .insert("cdr"@, Val::Native(NativeKind::Cdr))
        .insert("cons"@, Val::Native(NativeKind::Cons))
        .insert("list"@, Val::Native(NativeKind::List))
        .insert("bool?"@, Val::Native(NativeKind::IsBoolean))
        .insert("list?"@, Val::Native(NativeKind::IsList))
        .insert("number?"@, Val::Native(NativeKind::IsNumber))
        .insert("string?"@, Val::Native(NativeKind::IsString))
        .insert("string-concat"@, Val::Native(NativeKind::StringConcat))
        .insert("to-string"@, Val::Native(NativeKind::ToString))
        .insert("true"@, Val::Bool(true))
        .insert("false"@, Val::Bool(false))
}

/// A binding made in the topmost layer is what an immediately following
/// lookup of that identifier finds.
pub proof fn lemma_define_then_lookup(env: Seq<Map<Seq<char>, Val>>, name: Seq<char>, v: Val)
    requires
        env.len() >= 1,
    ensures
        env_lookup(env.update(env.len() - 1, env.last().insert(name, v)), name) == Some(v),
{
    let updated = env.update(env.len() - 1, env.last().insert(name, v));
    assert(updated.last() == env.last().insert(name, v));
    assert(updated.last().contains_key(name));
    assert(updated.last()[name] == v);
}

/// A name's visibility in an extended environment: a binding of the new
/// layer shadows the rest, and any other name resolves as it did before
/// the layer was pushed.
pub proof fn lemma_lookup_push(
    env: Seq<Map<Seq<char>, Val>>,
    layer: Map<Seq<char>, Val>,
    name: Seq<char>,
)
    ensures
        env_lookup(env.push(layer), name) == (if layer.contains_key(name) {
            Some(layer[name])
        } else {
            env_lookup(env, name)
        }),
{
    assert(env.push(layer).last() == layer);
    assert(env.push(layer).drop_last() =~= env);
}

/// Extending the environment and then restricting it restores exactly the
/// prior binding visibility: whatever the pushed layer held, every lookup
/// afterwards resolves as it did before.
pub proof fn lemma_extend_restrict_restores(
    env: Seq<Map<Seq<char>, Val>>,
    layer: Map<Seq<char>, Val>,
    name: Seq<char>,
)
    ensures
        env.push(layer).drop_last() == env,
        env_lookup(env.push(layer).drop_last(), name) == env_lookup(env, name),
{
    assert(env.push(layer).drop_last() =~= env);
}

impl Environment {
    /// The environment always keeps at least its global layer.
    pub open spec fn wf(&self) -> bool {
        self@.len() >= 1
    }

    /// Make a new environment: one global layer holding the built-in
    /// bindings.
    pub fn new() -> (env: Environment)
        ensures
            env.wf(),
            env@.len() == 1,
            env@[0] == initial_bindings(),
    {
        let mut environment = Environment { layers: Vec::new() };
        environment.layers.push(Vec::new());
        proof {
            assert(environment@.len() == 1);
            assert(environment.layers@[0]@ =~= Seq::<Binding>::empty());
            assert(environment@[0] =~= Map::<Seq<char>, Val>::empty());
        }
        environment.define(
            &Token::new(String::from_str("if!"), TokenKind::Identifier),
            MankaiObject::SpecialForm(SpecialFormKind::IfForm),
        );
        environment.define(
            &Token::new(String::from_str("lambda!"), TokenKind::Identifier),
            MankaiObject::SpecialForm(SpecialFormKind::LambdaForm),
        );
        environment.define(
            &Token::new(String::from_str("set!"), TokenKind::Identifier),
            MankaiObject::SpecialForm(SpecialFormKind::SetForm),
        );
        environment.define(
            &Token::new(String::from_str("define!"), TokenKind::Identifier),
            MankaiObject::SpecialForm(SpecialFormKind::DefineForm),
        );
        environment.define(
            &Token::new(String::from_str("defun!"), TokenKind::Identifier),
            MankaiObject::SpecialForm(SpecialFormKind::DefunForm),
        );
        environment.define(
            &Token::new(String::from_str("+"), TokenKind::Identifier),
            MankaiObject::Native(NativeKind::Sum),
        );
        environment.define(
            &Token::new(String::from_str("-"), TokenKind::Identifier),
            MankaiObject::Native(NativeKind::Subtract),
        );
        environment.define(
            &Token::new(String::from_str("*"), TokenKind::Identifier),
            MankaiObject::Native(NativeKind::Multiplication),
        );
        environment.define(
            &Token::new(String::from_str("/"), TokenKind::Identifier),
            MankaiObject::Native(NativeKind::Division),
        );
        environment.define(
            &Token::new(String::from_str("="), TokenKind::Identifier),
            MankaiObject::Native(NativeKind::Equals),
        );
        environment.define(
            &Token::new(String::from_str(">"), TokenKind::Identifier),
            MankaiObject::Native(NativeKind::GreaterThan),
        );
        environment.define(
            &Token::new(String::from_str("<"), TokenKind::Identifier),
            MankaiObject::Native(NativeKind::LessThan),
        );
        environment.define(
            &Token::new(String::from_str("and"), TokenKind::Identifier),
            MankaiObject::Native(NativeKind::And),
        );
        environment.define(
            &Token::new(String::from_str("or"), TokenKind::Identifier),
            MankaiObject::Native(NativeKind::Or),
        );
        environment.define(
            &Token::new(String::from_str("not"), TokenKind::Identifier),
            MankaiObject::Native(NativeKind::Not),
        );
        environment.define(
            &Token::new(String::from_str("car"), TokenKind::Identifier),
            MankaiObject::Native(NativeKind::Car),
        );
        environment.define(
            &Token::new(String::from_str("cdr"), TokenKind::Identifier),
            MankaiObject::Native(NativeKind::Cdr),
        );
        environment.define(
            &Token::new(String::from_str("cons"), TokenKind::Identifier),
            MankaiObject::Native(NativeKind::Cons),
        );
        environment.define(
            &Token::new(String::from_str("list"), TokenKind::Identifier),
            MankaiObject::Native(NativeKind::List),
        );
        environment.define(
            &Token::new(String::from_str("bool?"), TokenKind::Identifier),
            MankaiObject::Native(NativeKind::IsBoolean),
        );
        environment.define(
            &Token::new(String::from_str("list?"), TokenKind::Identifier),
            MankaiObject::Native(NativeKind::IsList),
        );
        environment.define(
            &Token::new(String::from_str("number?"), TokenKind::Identifier),
            MankaiObject::Native(NativeKind::IsNumber),
        );
        environment.define(
            &Token::new(String::from_str("string?"), TokenKind::Identifier),
            MankaiObject::Native(NativeKind::IsString),
        );
        environment.define(
            &Token::new(String::from_str("string-concat"), TokenKind::Identifier),
            MankaiObject::Native(NativeKind::StringConcat),
        );
        environment.define(
            &Token::new(String::from_str("to-string"), TokenKind::Identifier),
            MankaiObject::Native(NativeKind::ToString),
        );
        environment.define(
            &Token::new(String::from_str("true"), TokenKind::Identifier),
            MankaiObject::Bool(true),
        );
        environment.define(
            &Token::new(String::from_str("false"), TokenKind::Identifier),
            MankaiObject::Bool(false),
        );
        environment
    }

    /// Bind a name in the topmost layer, shadowing any earlier binding for
    /// it there.
    pub fn define(&mut self, identifier: &Token, value: MankaiObject)
        requires
            old(self).wf(),
        ensures
            final(self).wf(),
            final(self)@ == old(self)@.update(
                old(self)@.len() - 1,
                old(self)@.last().insert(identifier@.lexeme, value@),
            ),
    {
        let ghost old_view = self@;
        let mut layer = self.layers.pop().unwrap();
        layer.push(Binding { name: identifier.lexeme.clone(), value });
        self.layers.push(layer);
        proof {
            let n = old_view.len() as int;
            assert(layer@.drop_last() =~= old(self).layers@.last()@);
            assert(self@ =~= old_view.update(
                n - 1,
                old_view.last().insert(identifier@.lexeme, value@),
            ));
        }
    }

    /// Get the value for a name out of the environment, searching the
    /// layers from the topmost down; an unresolved name is an error.
    pub fn get(&self, identifier: &Token) -> (r: Result<MankaiObject, RuntimeError>)
        ensures
            match r {
                Ok(v) => env_lookup(self@, identifier@.lexeme) == Some(v@),
                Err(e) => env_lookup(self@, identifier@.lexeme) is None && e@
                    == unbound_symbol_msg(identifier@.lexeme),
            },
    {
        let ghost name = identifier@.lexeme;
        proof {
            assert(self@.subrange(0, self@.len() as int) =~= self@);
        }
        let mut li = self.layers.len();
        while li > 0
            invariant
                name == identifier@.lexeme,
                li <= self.layers.len(),
                env_lookup(self@, name) == env_lookup(self@.subrange(0, li as int), name),
            decreases li,
        {
            li = li - 1;
            let layer = &self.layers[li];
            proof {
                assert(layer@.subrange(0, layer@.len() as int) =~= layer@);
            }
            let mut bi = layer.len();
            while bi > 0
                invariant
                    name == identifier@.lexeme,
                    bi <= layer.len(),
                    li < self.layers.len(),
                    layer@ == self.layers@[li as int]@,
                    env_lookup(self@, name) == env_lookup(self@.subrange(0, li + 1), name),
                    layer_view(layer@).contains_key(name) == layer_view(
                        layer@.subrange(0, bi as int),
                    ).contains_key(name),
                    layer_view(layer@).contains_key(name) ==> layer_view(layer@)[name]
                        == layer_view(layer@.subrange(0, bi as int))[name],
                decreases bi,
            {
                bi = bi - 1;
                proof {
                    assert(layer@.subrange(0, bi + 1).drop_last() =~= layer@.subrange(0, bi as int));
                    assert(layer@.subrange(0, bi + 1).last() == layer@[bi as int]);
                    assert(layer_view(layer@.subrange(0, bi + 1)) == layer_view(
                        layer@.subrange(0, bi as int),
                    ).insert(layer@[bi as int].name@, layer@[bi as int].value@));
                }
                let binding = &layer[bi];
                if binding.name == identifier.lexeme {
                    proof {
                        assert(layer_view(layer@).contains_key(name));
                        assert(layer_view(layer@)[name] == binding.value@);
                        assert(self@.subrange(0, li + 1).last() == self@[li as int]);
                        assert(self@[li as int] == layer_view(layer@));
                        assert(env_lookup(self@, name) == Some(binding.value@));
                    }
                    return Ok(binding.value.clone());
                }
            }
            proof {
                assert(layer@.subrange(0, 0) =~= Seq::<Binding>::empty());
                assert(!layer_view(layer@).contains_key(name));
                assert(self@.subrange(0, li + 1).drop_last() =~= self@.subrange(0, li as int));
                assert(self@.subrange(0, li + 1).last() == self@[li as int]);
                assert(self@[li as int] == layer_view(layer@));
            }
        }
        proof {
            assert(self@.subrange(0, 0) =~= Seq::<Map<Seq<char>, Val>>::empty());
        }
        let mut message = String::new();
        message.append("unbound symbol '");
        message.append(identifier.lexeme.as_str());
        message.append("'");
        Err(RuntimeError { message })
    }

    /// Extend the environment with a new, empty layer.
    pub fn extend(&mut self)
        ensures
            final(self)@ == old(self)@.push(Map::<Seq<char>, Val>::empty()),
            final(self).wf(),
    {
        self.layers.push(Vec::new());
        proof {
            assert(self.layers@.last()@ =~= Seq::<Binding>::empty());
            assert(self@ =~= old(self)@.push(Map::<Seq<char>, Val>::empty()));
        }
    }

    /// Remove the topmost layer of the environment. The global layer is
    /// permanent: it is never removed.
    pub fn restrict(&mut self)
        requires
            old(self)@.len() > 1,
        ensures
            final(self).wf(),
            final(self)@ == old(self)@.drop_last(),
    {
        if self.layers.len() > 1 {
            self.layers.pop();
        }
        proof {
            assert(self@ =~= old(self)@.drop_last());
        }
    }
}

} // verus!
