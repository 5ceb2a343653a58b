use vstd::prelude::*;
use crate::numbers::{f64_eq_bits, f64_eq, decimal_of_bits, f64_to_decimal};
use crate::parser::{Sexp, SexpModel};
use crate::token::{Token, TokenModel};

verus! {

broadcast use
    vstd::std_specs::vec::axiom_vec_index_decreases,
    vstd::std_specs::vec::axiom_vec_decreases_to_view,
    vstd::seq::axiom_seq_index_decreases,
    vstd::seq::axiom_seq_subrange_decreases;

/// The special forms of the language, one variant per handler.
#[derive(Debug, Clone, Copy, PartialEq, Eq, Structural)]
pub enum SpecialFormKind {
    IfForm,
    LambdaForm,
    SetForm,
    DefineForm,
    DefunForm,
}

/// The native functions of the language, one variant per handler.
#[derive(Debug, Clone, Copy, PartialEq, Eq, Structural)]
pub enum NativeKind {
    Sum,
    Subtract,
    Multiplication,
    Division,
    Equals,
    GreaterThan,
    LessThan,
    And,
    Or,
    Not,
    Car,
    Cdr,
    Cons,
    List,
    IsBoolean,
    IsList,
    IsNumber,
    IsString,
    StringConcat,
    ToString,
}

/// A runtime value of the language.
#[derive(Debug)]
pub enum MankaiObject {
    Number(u64),
    String(String),
    List(Vec<MankaiObject>),
    Bool(bool),
    SpecialForm(SpecialFormKind),
    Native(NativeKind),
    Function { name: Option<String>, arguments_identifiers: Vec<Token>, body: Sexp },
}

/// The mathematical model of a runtime value.
pub enum Val {
    Num(u64),
    Str(Seq<char>),
    List(Seq<Val>),
    Bool(bool),
    SpecialForm(SpecialFormKind),
    Native(NativeKind),
    Function { name: Option<Seq<char>>, params: Seq<TokenModel>, body: SexpModel },
}

/// The models of a sequence of runtime values, in order.
pub open spec fn objs_view(s: Seq<MankaiObject>) -> Seq<Val>
    decreases s,
{
    if s.len() == 0 {
        Seq::empty()
    } else {
        objs_view(s.drop_last()).push(s.last()@)
    }
}

impl View for MankaiObject {
    type V = Val;

    open spec fn view(&self) -> Val
        decreases self,
    {
        match self {
            MankaiObject::Number(n) => Val::Num(*n),
            MankaiObject::String(s) => Val::Str(s@),
            MankaiObject::List(v) => Val::List(objs_view(v@)),
            MankaiObject::Bool(b) => Val::Bool(*b),
            MankaiObject::SpecialForm(k) => Val::SpecialForm(*k),
            MankaiObject::Native(k) => Val::Native(*k),
            MankaiObject::Function { name, arguments_identifiers, body } => Val::Function {
                name: match name {
                    Some(s) => Some(s@),
                    None => None,
                },
                params: Seq::new(arguments_identifiers@.len(), |i: int| arguments_identifiers@[i]@),
                body: body@,
            },
        }
    }
}

/// `objs_view` maps the sequence element by element.
pub proof fn lemma_objs_view(s: Seq<MankaiObject>)
    ensures
        objs_view(s).len() == s.len(),
        forall|i: int| 0 <= i < s.len() ==> objs_view(s)[i] == #[trigger] s[i]@,
    decreases s.len(),
{
    if s.len() > 0 {
        let pre = s.drop_last();
        lemma_objs_view(pre);
        assert(objs_view(s) == objs_view(pre).push(s.last()@));
        assert forall|i: int| 0 <= i < s.len() implies objs_view(s)[i] == #[trigger] s[i]@ by {
            if i < s.len() - 1 {
                assert(pre[i] == s[i]);
                assert(objs_view(pre)[i] == pre[i]@);
                assert(objs_view(s)[i] == objs_view(pre)[i]);
            } else {
                assert(s.last() == s[i]);
                assert(objs_view(s)[i] == s.last()@);
            }
        }
    }
}

/// Value equality of the language: defined between numbers (as IEEE-754 has
/// it), strings, booleans and element-wise equal lists; a special form, a
/// native function or a user-defined function is equal to nothing, itself
/// included.
pub open spec fn val_eq(a: Val, b: Val) -> bool
    decreases a,
{
    match (a, b) {
        (Val::Num(x), Val::Num(y)) => f64_eq_bits(x, y),
        (Val::Str(x), Val::Str(y)) => x == y,
        (Val::Bool(x), Val::Bool(y)) => x == y,
        (Val::List(x), Val::List(y)) => x.len() == y.len() && (forall|i: int|
            0 <= i < x.len() ==> val_eq(x[i], #[trigger] y[i])),
        _ => false,
    }
}

impl Clone for MankaiObject {
    fn clone(&self) -> (res: Self)
        ensures
            res@ == self@,
        decreases self,
    {
        match self {
            MankaiObject::Number(n) => MankaiObject::Number(*n),
            MankaiObject::String(s) => MankaiObject::String(s.clone()),
            MankaiObject::Bool(b) => MankaiObject::Bool(*b),
            MankaiObject::SpecialForm(k) => MankaiObject::SpecialForm(*k),
            MankaiObject::Native(k) => MankaiObject::Native(*k),
            MankaiObject::List(v) => {
                let mut out: Vec<MankaiObject> = Vec::new();
                let mut i: usize = 0;
                while i < v.len()
                    invariant
                        *self == MankaiObject::List(*v),
                        i <= v.len(),
                        out@.len() == i,
                        forall|j: int| 0 <= j < i ==> out@[j]@ == v@[j]@,
                    decreases v.len() - i,
                {
                    proof {
                        assert(decreases_to!(*self => self->List_0));
                        assert(decreases_to!(*v => v[i as int]));
                    }
                    out.push(v[i].clone());
                    i += 1;
                }
                let res = MankaiObject::List(out);
                proof {
                    lemma_objs_view(out@);
                    lemma_objs_view(v@);
                    assert forall|k: int| 0 <= k < v@.len() implies objs_view(out@)[k]
                        == objs_view(v@)[k] by {
                        assert(out@[k]@ == v@[k]@);
                    }
                    assert(objs_view(out@) =~= objs_view(v@));
                }
                res
            }
            MankaiObject::Function { name, arguments_identifiers, body } => {
                let cloned_name = match name {
                    Some(s) => Some(s.clone()),
                    None => None,
                };
                let mut params: Vec<Token> = Vec::new();
                let mut i: usize = 0;
                while i < arguments_identifiers.len()
                    invariant
                        i <= arguments_identifiers.len(),
                        params@.len() == i,
                        forall|j: int|
                            0 <= j < i ==> params@[j]@ == arguments_identifiers@[j]@,
                    decreases arguments_identifiers.len() - i,
                {
                    params.push(arguments_identifiers[i].clone());
                    i += 1;
                }
                let res = MankaiObject::Function {
                    name: cloned_name,
                    arguments_identifiers: params,
                    body: body.clone(),
                };
                proof {
                    assert(Seq::new(params@.len(), |i: int| params@[i]@) =~= Seq::new(
                        arguments_identifiers@.len(),
                        |i: int| arguments_identifiers@[i]@,
                    ));
                }
                res
            }
        }
    }
}

impl PartialEq for MankaiObject {
    fn eq(&self, other: &MankaiObject) -> (r: bool)
        decreases self,
    {
        match (self, other) {
            (MankaiObject::Number(a), MankaiObject::Number(b)) => f64_eq(*a, *b),
            (MankaiObject::String(a), MankaiObject::String(b)) => *a == *b,
            (MankaiObject::Bool(a), MankaiObject::Bool(b)) => *a == *b,
            (MankaiObject::List(a), MankaiObject::List(b)) => {
                if a.len() != b.len() {
                    proof {
                        lemma_objs_view(a@);
                        lemma_objs_view(b@);
                    }
                    return false;
                }
                let mut i: usize = 0;
                while i < a.len()
                    invariant
                        *self == MankaiObject::List(*a),
                        *other == MankaiObject::List(*b),
                        i <= a.len(),
                        a.len() == b.len(),
                        forall|j: int| 0 <= j < i ==> val_eq(a@[j]@, #[trigger] b@[j]@),
                    decreases a.len() - i,
                {
                    proof {
                        assert(decreases_to!(*self => self->List_0));
                        assert(decreases_to!(*a => a[i as int]));
                    }
                    if !(a[i] == b[i]) {
                        proof {
                            lemma_objs_view(a@);
                            lemma_objs_view(b@);
                            assert(!val_eq(objs_view(a@)[i as int], objs_view(b@)[i as int]));
                        }
                        return false;
                    }
                    i += 1;
                }
                proof {
                    lemma_objs_view(a@);
                    lemma_objs_view(b@);
                    assert forall|j: int| 0 <= j < objs_view(a@).len() implies val_eq(
                        objs_view(a@)[j],
                        #[trigger] objs_view(b@)[j],
                    ) by {
                        assert(val_eq(a@[j]@, b@[j]@));
                    }
                }
                true
            }
            _ => {
                proof {
                    assert(!val_eq(self@, other@));
                }
                false
            }
        }
    }
}

impl vstd::std_specs::cmp::PartialEqSpecImpl for MankaiObject {
    open spec fn obeys_eq_spec() -> bool {
        true
    }

    open spec fn eq_spec(&self, other: &MankaiObject) -> bool {
        val_eq(self@, other@)
    }
}

/// The textual renderings of a sequence of values, joined by single spaces.
pub open spec fn join_spaced(items: Seq<Val>) -> Seq<char>
    decreases items,
{
    if items.len() == 0 {
        Seq::empty()
    } else if items.len() == 1 {
        val_to_text(items[0])
    } else {
        join_spaced(items.drop_last()) + seq![' '] + val_to_text(items.last())
    }
}

/// The textual rendering of a value: numbers in their decimal form, strings
/// quoted, booleans as `true`/`false`, lists parenthesized with
/// space-separated elements, and a fixed placeholder label for each callable
/// kind.
pub open spec fn val_to_text(v: Val) -> Seq<char>
    decreases v,
{
    match v {
        Val::Num(b) => decimal_of_bits(b),
        Val::Str(s) => seq!['"'] + s + seq!['"'],
        Val::Bool(b) => if b {
            "true"@
        } else {
            "false"@
        },
        Val::List(items) => seq!['('] + join_spaced(items) + seq![')'],
        Val::SpecialForm(_) => "<special form>"@,
        Val::Native(_) => "<native function>"@,
        Val::Function { .. } => "<user-defined function>"@,
    }
}

impl MankaiObject {
    /// Render the value as text.
    pub fn to_string(&self) -> (s: String)
        ensures
            s@ == val_to_text(self@),
        decreases self,
    {
        match self {
            MankaiObject::Number(b) => f64_to_decimal(*b),
            MankaiObject::String(st) => {
                let mut s = String::new();
                s.append("\"");
                s.append(st.as_str());
                s.append("\"");
                proof {
                    reveal_strlit("\"");
                    assert(s@ =~= val_to_text(self@));
                }
                s
            }
            MankaiObject::Bool(b) => {
                if *b {
                    String::from_str("true")
                } else {
                    String::from_str("false")
                }
            }
            MankaiObject::List(v) => {
                let mut s = String::new();
                s.append("(");
                proof {
                    reveal_strlit("(");
                    assert(v@.subrange(0, 0) =~= Seq::<MankaiObject>::empty());
                    assert(s@ =~= seq!['('] + join_spaced(objs_view(v@.subrange(0, 0))));
                }
                let mut i: usize = 0;
                while i < v.len()
                    invariant
                        *self == MankaiObject::List(*v),
                        i <= v.len(),
                        s@ == seq!['('] + join_spaced(objs_view(v@.subrange(0, i as int))),
                    decreases v.len() - i,
                {
                    if i != 0 {
                        s.append(" ");
                    }
                    proof {
                        assert(decreases_to!(*self => self->List_0));
                        assert(decreases_to!(*v => v[i as int]));
                    }
                    let elem = v[i].to_string();
                    s.append(elem.as_str());
                    proof {
                        reveal_strlit(" ");
                        let before = v@.subrange(0, i as int);
                        let now = v@.subrange(0, i as int + 1);
                        lemma_objs_view(before);
                        lemma_objs_view(now);
                        assert(now.drop_last() =~= before);
                        assert(objs_view(now).drop_last() =~= objs_view(before));
                        assert(objs_view(now).last() == v@[i as int]@);
                        if i == 0 {
                            assert(objs_view(now).len() == 1);
                            assert(join_spaced(objs_view(now)) == val_to_text(v@[0]@));
                        } else {
                            assert(join_spaced(objs_view(now)) == join_spaced(objs_view(before))
                                + seq![' '] + val_to_text(v@[i as int]@));
                        }
                        assert(s@ =~= seq!['('] + join_spaced(objs_view(now)));
                    }
                    i += 1;
                }
                s.append(")");
                proof {
                    reveal_strlit("(");
                    reveal_strlit(")");
                    assert(v@.subrange(0, v@.len() as int) =~= v@);
                    assert(s@ =~= val_to_text(self@));
                }
                s
            }
            MankaiObject::SpecialForm(_) => String::from_str("<special form>"),
            MankaiObject::Native(_) => String::from_str("<native function>"),
            MankaiObject::Function { .. } => String::from_str("<user-defined function>"),
        }
    }
}

} // verus!
