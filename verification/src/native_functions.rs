use vstd::prelude::*;
use crate::interpreter::RuntimeError;
use crate::numbers::{
    add_bits, sub_bits, mul_bits, div_bits, neg_bits, is_zero_bits, f64_eq_bits, f64_lt_bits,
    f64_add, f64_sub, f64_mul, f64_div, f64_neg, f64_is_zero, f64_eq, f64_lt, F64_ZERO_BITS,
    F64_ONE_BITS,
};
use crate::object::{lemma_objs_view, objs_view, val_to_text, MankaiObject, NativeKind, Val};
use crate::strutil::{dec_digits, usize_to_string};

verus! {

/// The model of a native function's outcome: a value, or the message of a
/// runtime error.
pub type NativeOutcome = Result<Val, Seq<char>>;

/// The model of an executable outcome.
pub open spec fn result_view(r: Result<MankaiObject, RuntimeError>) -> NativeOutcome {
    match r {
        Ok(v) => Ok(v@),
        Err(e) => Err(e@),
    }
}

/// The message rejecting an empty argument list.
pub open spec fn msg_at_least_one(op: Seq<char>) -> Seq<char> {
    "'"@ + op + "' requires at least one argument!"@
}

/// The message rejecting an argument count other than one.
pub open spec fn msg_exactly_one(op: Seq<char>) -> Seq<char> {
    "'"@ + op + "' requires exactly one argument!"@
}

/// The message rejecting an argument count under two.
pub open spec fn msg_at_least_two(op: Seq<char>) -> Seq<char> {
    "'"@ + op + "' requires at least two arguments!"@
}

/// The message rejecting a non-numeric argument, naming its 1-based
/// position.
pub open spec fn msg_num_arg(op: Seq<char>, pos: nat) -> Seq<char> {
    dec_digits(pos) + "-th argument to '"@ + op + "' must be a number!"@
}

/// The message rejecting a non-boolean argument, naming its 1-based
/// position.
pub open spec fn msg_bool_arg(op: Seq<char>, pos: nat) -> Seq<char> {
    dec_digits(pos) + "-th argument to '"@ + op + "' must be a boolean!"@
}

/// The message rejecting a non-string argument, naming its 1-based
/// position.
pub open spec fn msg_string_arg(op: Seq<char>, pos: nat) -> Seq<char> {
    dec_digits(pos) + "-th argument to '"@ + op + "' must be a string!"@
}

/// The message for a division by zero, naming the zero operand's 1-based
/// position.
pub open spec fn msg_div_zero(pos: nat) -> Seq<char> {
    "can't divide by zero ("@ + dec_digits(pos) + "-th argument to '/' is zero)!"@
}

/// The message rejecting a first argument that is not a list.
pub open spec fn msg_list_arg(op: Seq<char>) -> Seq<char> {
    "1st argument to '"@ + op + "' must be a list!"@
}

/// The message rejecting the empty list.
pub open spec fn msg_empty_list(op: Seq<char>) -> Seq<char> {
    "can't apply '"@ + op + "' to the empty list!"@
}

fn err_at_least_one(op: &str) -> (e: RuntimeError)
    ensures
        e@ == msg_at_least_one(op@),
{
    let mut message = String::new();
    message.append("'");
    message.append(op);
    message.append("' requires at least one argument!");
    RuntimeError { message }
}

fn err_exactly_one(op: &str) -> (e: RuntimeError)
    ensures
        e@ == msg_exactly_one(op@),
{
    let mut message = String::new();
    message.append("'");
    message.append(op);
    message.append("' requires exactly one argument!");
    RuntimeError { message }
}

fn err_at_least_two(op: &str) -> (e: RuntimeError)
    ensures
        e@ == msg_at_least_two(op@),
{
    let mut message = String::new();
    message.append("'");
    message.append(op);
    message.append("' requires at least two arguments!");
    RuntimeError { message }
}

fn err_num_arg(op: &str, pos: usize) -> (e: RuntimeError)
    ensures
        e@ == msg_num_arg(op@, pos as nat),
{
    let mut message = usize_to_string(pos);
    message.append("-th argument to '");
    message.append(op);
    message.append("' must be a number!");
    RuntimeError { message }
}

fn err_bool_arg(op: &str, pos: usize) -> (e: RuntimeError)
    ensures
        e@ == msg_bool_arg(op@, pos as nat),
{
    let mut message = usize_to_string(pos);
    message.append("-th argument to '");
    message.append(op);
    message.append("' must be a boolean!");
    RuntimeError { message }
}

fn err_string_arg(op: &str, pos: usize) -> (e: RuntimeError)
    ensures
        e@ == msg_string_arg(op@, pos as nat),
{
    let mut message = usize_to_string(pos);
    message.append("-th argument to '");
    message.append(op);
    message.append("' must be a string!");
    RuntimeError { message }
}

fn err_div_zero(pos: usize) -> (e: RuntimeError)
    ensures
        e@ == msg_div_zero(pos as nat),
{
    let mut message = String::new();
    message.append("can't divide by zero (");
    let digits = usize_to_string(pos);
    message.append(digits.as_str());
    message.append("-th argument to '/' is zero)!");
    RuntimeError { message }
}

fn err_list_arg(op: &str) -> (e: RuntimeError)
    ensures
        e@ == msg_list_arg(op@),
{
    let mut message = String::new();
    message.append("1st argument to '");
    message.append(op);
    message.append("' must be a list!");
    RuntimeError { message }
}

fn err_empty_list(op: &str) -> (e: RuntimeError)
    ensures
        e@ == msg_empty_list(op@),
{
    let mut message = String::new();
    message.append("can't apply '");
    message.append(op);
    message.append("' to the empty list!");
    RuntimeError { message }
}

/// Fold the arguments by IEEE-754 addition, from the given accumulator;
/// the first non-number is an error naming its position.
pub open spec fn sum_fold(args: Seq<Val>, acc: u64, pos: nat) -> Result<u64, Seq<char>>
    decreases args.len(),
{
    if args.len() == 0 {
        Ok(acc)
    } else {
        match args.first() {
            Val::Num(n) => sum_fold(args.drop_first(), add_bits(acc, n), pos + 1),
            _ => Err(msg_num_arg("+"@, pos)),
        }
    }
}

/// What `+` returns: the IEEE-754 sum of all the arguments, folded from
/// zero in order; an empty argument list or a non-number is an error.
pub open spec fn sum_spec(args: Seq<Val>) -> NativeOutcome {
    if args.len() == 0 {
        Err(msg_at_least_one("+"@))
    } else {
        match sum_fold(args, F64_ZERO_BITS, 1) {
            Ok(b) => Ok(Val::Num(b)),
            Err(m) => Err(m),
        }
    }
}

/// Sum all the arguments. Return an error if a non numeric argument is
/// found or no arguments are found at all.
pub fn sum(arguments: Vec<MankaiObject>) -> (r: Result<MankaiObject, RuntimeError>)
    ensures
        result_view(r) == sum_spec(objs_view(arguments@)),
{
    let ghost args = objs_view(arguments@);
    proof {
        lemma_objs_view(arguments@);
    }
    if arguments.len() == 0 {
        return Err(err_at_least_one("+"));
    }
    let mut acc: u64 = F64_ZERO_BITS;
    proof {
        assert(args.skip(0) =~= args);
    }
    let mut i: usize = 0;
    while i < arguments.len()
        invariant
            args == objs_view(arguments@),
            args.len() == arguments@.len(),
            forall|j: int| 0 <= j < args.len() ==> args[j] == #[trigger] arguments@[j]@,
            i <= arguments.len(),
            sum_fold(args, F64_ZERO_BITS, 1) == sum_fold(args.skip(i as int), acc, (i + 1) as nat),
        decreases arguments.len() - i,
    {
        proof {
            assert(args[i as int] == arguments@[i as int]@);
            assert(args.skip(i as int).first() == args[i as int]);
            assert(args.skip(i as int).drop_first() =~= args.skip(i + 1));
            assert(args.skip(i as int).len() == args.len() - i);
        }
        match &arguments[i] {
            MankaiObject::Number(n) => {
                acc = f64_add(acc, *n);
            },
            _ => {
                return Err(err_num_arg("+", i + 1));
            },
        }
        i += 1;
    }
    proof {
        assert(args.skip(args.len() as int).len() == 0);
    }
    Ok(MankaiObject::Number(acc))
}

/// Fold the arguments by IEEE-754 subtraction, from the given accumulator.
pub open spec fn sub_fold(args: Seq<Val>, acc: u64, pos: nat) -> Result<u64, Seq<char>>
    decreases args.len(),
{
    if args.len() == 0 {
        Ok(acc)
    } else {
        match args.first() {
            Val::Num(n) => sub_fold(args.drop_first(), sub_bits(acc, n), pos + 1),
            _ => Err(msg_num_arg("-"@, pos)),
        }
    }
}

/// What `-` returns: one argument is negated; more are folded by
/// left-to-right IEEE-754 subtraction starting from the first.
pub open spec fn substract_spec(args: Seq<Val>) -> NativeOutcome {
    if args.len() == 0 {
        Err(msg_at_least_one("-"@))
    } else {
        match args.first() {
            Val::Num(first) => if args.len() == 1 {
                Ok(Val::Num(neg_bits(first)))
            } else {
                match sub_fold(args.drop_first(), first, 2) {
                    Ok(b) => Ok(Val::Num(b)),
                    Err(m) => Err(m),
                }
            },
            _ => Err(msg_num_arg("-"@, 1)),
        }
    }
}

/// Perform subtraction of an arbitrary number of elements. A single
/// argument is negated; with more, the subtractions start from the first
/// argument.
pub fn substract(arguments: Vec<MankaiObject>) -> (r: Result<MankaiObject, RuntimeError>)
    ensures
        result_view(r) == substract_spec(objs_view(arguments@)),
{
    let ghost args = objs_view(arguments@);
    proof {
        lemma_objs_view(arguments@);
    }
    if arguments.len() == 0 {
        return Err(err_at_least_one("-"));
    }
    proof {
        assert(args[0] == arguments@[0]@);
        assert(args.first() == args[0]);
    }
    let first = match &arguments[0] {
        MankaiObject::Number(n) => *n,
        _ => {
            return Err(err_num_arg("-", 1));
        },
    };
    if arguments.len() == 1 {
        return Ok(MankaiObject::Number(f64_neg(first)));
    }
    let mut acc: u64 = first;
    proof {
        assert(args.skip(1) =~= args.drop_first());
    }
    let mut i: usize = 1;
    while i < arguments.len()
        invariant
            args == objs_view(arguments@),
            args.len() == arguments@.len(),
            forall|j: int| 0 <= j < args.len() ==> args[j] == #[trigger] arguments@[j]@,
            1 <= i <= arguments.len(),
            args.len() >= 2,
            args.first() matches Val::Num(f),
            sub_fold(args.drop_first(), args.first()->Num_0, 2) == sub_fold(
                args.skip(i as int),
                acc,
                (i + 1) as nat,
            ),
        decreases arguments.len() - i,
    {
        proof {
            assert(args[i as int] == arguments@[i as int]@);
            assert(args.skip(i as int).first() == args[i as int]);
            assert(args.skip(i as int).drop_first() =~= args.skip(i + 1));
            assert(args.skip(i as int).len() == args.len() - i);
        }
        match &arguments[i] {
            MankaiObject::Number(n) => {
                acc = f64_sub(acc, *n);
            },
            _ => {
                return Err(err_num_arg("-", i + 1));
            },
        }
        i += 1;
    }
    proof {
        assert(args.skip(args.len() as int).len() == 0);
    }
    Ok(MankaiObject::Number(acc))
}

/// Fold the arguments by IEEE-754 multiplication, from the given
/// accumulator.
pub open spec fn mul_fold(args: Seq<Val>, acc: u64, pos: nat) -> Result<u64, Seq<char>>
    decreases args.len(),
{
    if args.len() == 0 {
        Ok(acc)
    } else {
        match args.first() {
            Val::Num(n) => mul_fold(args.drop_first(), mul_bits(acc, n), pos + 1),
            _ => Err(msg_num_arg("*"@, pos)),
        }
    }
}

/// What `*` returns: the IEEE-754 product of all the arguments, folded
/// from one in order.
pub open spec fn multiplication_spec(args: Seq<Val>) -> NativeOutcome {
    if args.len() == 0 {
        Err(msg_at_least_one("*"@))
    } else {
        match mul_fold(args, F64_ONE_BITS, 1) {
            Ok(b) => Ok(Val::Num(b)),
            Err(m) => Err(m),
        }
    }
}

/// Multiply all the arguments. Return an error if a non numeric argument
/// is found or no arguments are found at all.
pub fn multiplication(arguments: Vec<MankaiObject>) -> (r: Result<MankaiObject, RuntimeError>)
    ensures
        result_view(r) == multiplication_spec(objs_view(arguments@)),
{
    let ghost args = objs_view(arguments@);
    proof {
        lemma_objs_view(arguments@);
    }
    if arguments.len() == 0 {
        return Err(err_at_least_one("*"));
    }
    let mut acc: u64 = F64_ONE_BITS;
    proof {
        assert(args.skip(0) =~= args);
    }
    let mut i: usize = 0;
    while i < arguments.len()
        invariant
            args == objs_view(arguments@),
            args.len() == arguments@.len(),
            forall|j: int| 0 <= j < args.len() ==> args[j] == #[trigger] arguments@[j]@,
            i <= arguments.len(),
            mul_fold(args, F64_ONE_BITS, 1) == mul_fold(args.skip(i as int), acc, (i + 1) as nat),
        decreases arguments.len() - i,
    {
        proof {
            assert(args[i as int] == arguments@[i as int]@);
            assert(args.skip(i as int).first() == args[i as int]);
            assert(args.skip(i as int).drop_first() =~= args.skip(i + 1));
            assert(args.skip(i as int).len() == args.len() - i);
        }
        match &arguments[i] {
            MankaiObject::Number(n) => {
                acc = f64_mul(acc, *n);
            },
            _ => {
                return Err(err_num_arg("*", i + 1));
            },
        }
        i += 1;
    }
    proof {
        assert(args.skip(args.len() as int).len() == 0);
    }
    Ok(MankaiObject::Number(acc))
}

/// Fold the arguments by IEEE-754 division, from the given accumulator;
/// a zero divisor is a distinct error naming its position.
pub open spec fn div_fold(args: Seq<Val>, acc: u64, pos: nat) -> Result<u64, Seq<char>>
    decreases args.len(),
{
    if args.len() == 0 {
        Ok(acc)
    } else {
        match args.first() {
            Val::Num(n) => if is_zero_bits(n) {
                Err(msg_div_zero(pos))
            } else {
                div_fold(args.drop_first(), div_bits(acc, n), pos + 1)
            },
            _ => Err(msg_num_arg("/"@, pos)),
        }
    }
}

/// What `/` returns: one argument yields its reciprocal; more are folded
/// by left-to-right IEEE-754 division starting from the first, and a zero
/// among the later operands is a divide-by-zero error naming its position.
pub open spec fn division_spec(args: Seq<Val>) -> NativeOutcome {
    if args.len() == 0 {
        Err(msg_at_least_one("/"@))
    } else {
        match args.first() {
            Val::Num(first) => if args.len() == 1 {
                Ok(Val::Num(div_bits(F64_ONE_BITS, first)))
            } else {
                match div_fold(args.drop_first(), first, 2) {
                    Ok(b) => Ok(Val::Num(b)),
                    Err(m) => Err(m),
                }
            },
            _ => Err(msg_num_arg("/"@, 1)),
        }
    }
}

/// Divide all the arguments together. A single argument yields its
/// reciprocal; a later operand equal to zero is a divide-by-zero error.
pub fn division(arguments: Vec<MankaiObject>) -> (r: Result<MankaiObject, RuntimeError>)
    ensures
        result_view(r) == division_spec(objs_view(arguments@)),
{
    let ghost args = objs_view(arguments@);
    proof {
        lemma_objs_view(arguments@);
    }
    if arguments.len() == 0 {
        return Err(err_at_least_one("/"));
    }
    proof {
        assert(args[0] == arguments@[0]@);
        assert(args.first() == args[0]);
    }
    let first = match &arguments[0] {
        MankaiObject::Number(n) => *n,
        _ => {
            return Err(err_num_arg("/", 1));
        },
    };
    if arguments.len() == 1 {
        return Ok(MankaiObject::Number(f64_div(F64_ONE_BITS, first)));
    }
    let mut acc: u64 = first;
    proof {
        assert(args.skip(1) =~= args.drop_first());
    }
    let mut i: usize = 1;
    while i < arguments.len()
        invariant
            args == objs_view(arguments@),
            args.len() == arguments@.len(),
            forall|j: int| 0 <= j < args.len() ==> args[j] == #[trigger] arguments@[j]@,
            1 <= i <= arguments.len(),
            args.len() >= 2,
            args.first() matches Val::Num(f),
            div_fold(args.drop_first(), args.first()->Num_0, 2) == div_fold(
                args.skip(i as int),
                acc,
                (i + 1) as nat,
            ),
        decreases arguments.len() - i,
    {
        proof {
            assert(args[i as int] == arguments@[i as int]@);
            assert(args.skip(i as int).first() == args[i as int]);
            assert(args.skip(i as int).drop_first() =~= args.skip(i + 1));
            assert(args.skip(i as int).len() == args.len() - i);
        }
        match &arguments[i] {
            MankaiObject::Number(n) => {
                if f64_is_zero(*n) {
                    return Err(err_div_zero(i + 1));
                }
                acc = f64_div(acc, *n);
            },
            _ => {
                return Err(err_num_arg("/", i + 1));
            },
        }
        i += 1;
    }
    proof {
        assert(args.skip(args.len() as int).len() == 0);
    }
    Ok(MankaiObject::Number(acc))
}

/// Which chained numeric comparison a native performs.
#[derive(Debug, Clone, Copy, PartialEq, Eq, Structural)]
pub enum CompareKind {
    CmpEq,
    CmpGt,
    CmpLt,
}

/// The name of a comparison native.
pub open spec fn cmp_name(kind: CompareKind) -> Seq<char> {
    match kind {
        CompareKind::CmpEq => "="@,
        CompareKind::CmpGt => ">"@,
        CompareKind::CmpLt => "<"@,
    }
}

/// The IEEE-754 relation a comparison native applies to adjacent
/// arguments.
pub open spec fn cmp_rel(kind: CompareKind, a: u64, b: u64) -> bool {
    match kind {
        CompareKind::CmpEq => f64_eq_bits(a, b),
        CompareKind::CmpGt => f64_lt_bits(b, a),
        CompareKind::CmpLt => f64_lt_bits(a, b),
    }
}

/// Chain the relation over adjacent arguments, accumulating whether every
/// adjacent pair satisfied it; the first non-number is an error naming its
/// position.
pub open spec fn cmp_fold(kind: CompareKind, args: Seq<Val>, prev: u64, acc: bool, pos: nat) -> Result<
    bool,
    Seq<char>,
>
    decreases args.len(),
{
    if args.len() == 0 {
        Ok(acc)
    } else {
        match args.first() {
            Val::Num(n) => cmp_fold(
                kind,
                args.drop_first(),
                n,
                acc && cmp_rel(kind, prev, n),
                pos + 1,
            ),
            _ => Err(msg_num_arg(cmp_name(kind), pos)),
        }
    }
}

/// What `=`, `>` and `<` return: whether every pair of adjacent arguments
/// satisfies the relation; a non-number is an error naming its position.
pub open spec fn cmp_spec(kind: CompareKind, args: Seq<Val>) -> NativeOutcome {
    if args.len() == 0 {
        Err(msg_at_least_one(cmp_name(kind)))
    } else {
        match args.first() {
            Val::Num(first) => match cmp_fold(kind, args.drop_first(), first, true, 2) {
                Ok(b) => Ok(Val::Bool(b)),
                Err(m) => Err(m),
            },
            _ => Err(msg_num_arg(cmp_name(kind), 1)),
        }
    }
}

/// Apply one of the chained numeric comparisons to the arguments.
fn compare_chain(kind: CompareKind, arguments: Vec<MankaiObject>) -> (r: Result<
    MankaiObject,
    RuntimeError,
>)
    ensures
        result_view(r) == cmp_spec(kind, objs_view(arguments@)),
{
    let ghost args = objs_view(arguments@);
    proof {
        lemma_objs_view(arguments@);
    }
    let name: &str = match kind {
        CompareKind::CmpEq => "=",
        CompareKind::CmpGt => ">",
        CompareKind::CmpLt => "<",
    };
    if arguments.len() == 0 {
        return Err(err_at_least_one(name));
    }
    proof {
        assert(args[0] == arguments@[0]@);
        assert(args.first() == args[0]);
    }
    let mut prev = match &arguments[0] {
        MankaiObject::Number(n) => *n,
        _ => {
            return Err(err_num_arg(name, 1));
        },
    };
    let mut acc = true;
    proof {
        assert(args.skip(1) =~= args.drop_first());
    }
    let mut i: usize = 1;
    while i < arguments.len()
        invariant
            name@ == cmp_name(kind),
            args == objs_view(arguments@),
            args.len() == arguments@.len(),
            forall|j: int| 0 <= j < args.len() ==> args[j] == #[trigger] arguments@[j]@,
            1 <= i <= arguments.len(),
            args.first() matches Val::Num(f),
            cmp_fold(kind, args.drop_first(), args.first()->Num_0, true, 2) == cmp_fold(
                kind,
                args.skip(i as int),
                prev,
                acc,
                (i + 1) as nat,
            ),
        decreases arguments.len() - i,
    {
        proof {
            assert(args[i as int] == arguments@[i as int]@);
            assert(args.skip(i as int).first() == args[i as int]);
            assert(args.skip(i as int).drop_first() =~= args.skip(i + 1));
            assert(args.skip(i as int).len() == args.len() - i);
        }
        match &arguments[i] {
            MankaiObject::Number(n) => {
                let holds = match kind {
                    CompareKind::CmpEq => f64_eq(prev, *n),
                    CompareKind::CmpGt => f64_lt(*n, prev),
                    CompareKind::CmpLt => f64_lt(prev, *n),
                };
                acc = acc && holds;
                prev = *n;
            },
            _ => {
                return Err(err_num_arg(name, i + 1));
            },
        }
        i += 1;
    }
    proof {
        assert(args.skip(args.len() as int).len() == 0);
    }
    Ok(MankaiObject::Bool(acc))
}

/// Chained numeric equality over the arguments.
pub fn equals(arguments: Vec<MankaiObject>) -> (r: Result<MankaiObject, RuntimeError>)
    ensures
        result_view(r) == cmp_spec(CompareKind::CmpEq, objs_view(arguments@)),
{
    compare_chain(CompareKind::CmpEq, arguments)
}

/// Chained numeric `>` over adjacent arguments.
pub fn greater_than(arguments: Vec<MankaiObject>) -> (r: Result<MankaiObject, RuntimeError>)
    ensures
        result_view(r) == cmp_spec(CompareKind::CmpGt, objs_view(arguments@)),
{
    compare_chain(CompareKind::CmpGt, arguments)
}

/// Chained numeric `<` over adjacent arguments.
pub fn less_than(arguments: Vec<MankaiObject>) -> (r: Result<MankaiObject, RuntimeError>)
    ensures
        result_view(r) == cmp_spec(CompareKind::CmpLt, objs_view(arguments@)),
{
    compare_chain(CompareKind::CmpLt, arguments)
}

/// Scan the arguments for `and`: false at the first false, true past the
/// end; a non-boolean met before that is an error naming its position.
pub open spec fn and_fold(args: Seq<Val>, pos: nat) -> Result<bool, Seq<char>>
    decreases args.len(),
{
    if args.len() == 0 {
        Ok(true)
    } else {
        match args.first() {
            Val::Bool(b) => if !b {
                Ok(false)
            } else {
                and_fold(args.drop_first(), pos + 1)
            },
            _ => Err(msg_bool_arg("and"@, pos)),
        }
    }
}

/// What `and` returns: false on the first false argument, true when all
/// are true; boolean-only, short-circuit.
pub open spec fn and_spec(args: Seq<Val>) -> NativeOutcome {
    if args.len() == 0 {
        Err(msg_at_least_one("and"@))
    } else {
        match and_fold(args, 1) {
            Ok(b) => Ok(Val::Bool(b)),
            Err(m) => Err(m),
        }
    }
}

/// Logic AND with unfixed arity.
pub fn and(arguments: Vec<MankaiObject>) -> (r: Result<MankaiObject, RuntimeError>)
    ensures
        result_view(r) == and_spec(objs_view(arguments@)),
{
    let ghost args = objs_view(arguments@);
    proof {
        lemma_objs_view(arguments@);
    }
    if arguments.len() == 0 {
        return Err(err_at_least_one("and"));
    }
    proof {
        assert(args.skip(0) =~= args);
    }
    let mut i: usize = 0;
    while i < arguments.len()
        invariant
            args == objs_view(arguments@),
            args.len() == arguments@.len(),
            forall|j: int| 0 <= j < args.len() ==> args[j] == #[trigger] arguments@[j]@,
            i <= arguments.len(),
            and_fold(args, 1) == and_fold(args.skip(i as int), (i + 1) as nat),
        decreases arguments.len() - i,
    {
        proof {
            assert(args[i as int] == arguments@[i as int]@);
            assert(args.skip(i as int).first() == args[i as int]);
            assert(args.skip(i as int).drop_first() =~= args.skip(i + 1));
            assert(args.skip(i as int).len() == args.len() - i);
        }
        match &arguments[i] {
            MankaiObject::Bool(b) => {
                if !*b {
                    return Ok(MankaiObject::Bool(false));
                }
            },
            _ => {
                return Err(err_bool_arg("and", i + 1));
            },
        }
        i += 1;
    }
    proof {
        assert(args.skip(args.len() as int).len() == 0);
    }
    Ok(MankaiObject::Bool(true))
}

/// Scan the arguments for `or`: true at the first true, false past the
/// end; a non-boolean met before that is an error naming its position.
pub open spec fn or_fold(args: Seq<Val>, pos: nat) -> Result<bool, Seq<char>>
    decreases args.len(),
{
    if args.len() == 0 {
        Ok(false)
    } else {
        match args.first() {
            Val::Bool(b) => if b {
                Ok(true)
            } else {
                or_fold(args.drop_first(), pos + 1)
            },
            _ => Err(msg_bool_arg("or"@, pos)),
        }
    }
}

/// What `or` returns: true on the first true argument, false when all are
/// false; boolean-only, short-circuit.
pub open spec fn or_spec(args: Seq<Val>) -> NativeOutcome {
    if args.len() == 0 {
        Err(msg_at_least_one("or"@))
    } else {
        match or_fold(args, 1) {
            Ok(b) => Ok(Val::Bool(b)),
            Err(m) => Err(m),
        }
    }
}

/// Logic OR with unfixed arity.
pub fn or(arguments: Vec<MankaiObject>) -> (r: Result<MankaiObject, RuntimeError>)
    ensures
        result_view(r) == or_spec(objs_view(arguments@)),
{
    let ghost args = objs_view(arguments@);
    proof {
        lemma_objs_view(arguments@);
    }
    if arguments.len() == 0 {
        return Err(err_at_least_one("or"));
    }
    proof {
        assert(args.skip(0) =~= args);
    }
    let mut i: usize = 0;
    while i < arguments.len()
        invariant
            args == objs_view(arguments@),
            args.len() == arguments@.len(),
            forall|j: int| 0 <= j < args.len() ==> args[j] == #[trigger] arguments@[j]@,
            i <= arguments.len(),
            or_fold(args, 1) == or_fold(args.skip(i as int), (i + 1) as nat),
        decreases arguments.len() - i,
    {
        proof {
            assert(args[i as int] == arguments@[i as int]@);
            assert(args.skip(i as int).first() == args[i as int]);
            assert(args.skip(i as int).drop_first() =~= args.skip(i + 1));
            assert(args.skip(i as int).len() == args.len() - i);
        }
        match &arguments[i] {
            MankaiObject::Bool(b) => {
                if *b {
                    return Ok(MankaiObject::Bool(true));
                }
            },
            _ => {
                return Err(err_bool_arg("or", i + 1));
            },
        }
        i += 1;
    }
    proof {
        assert(args.skip(args.len() as int).len() == 0);
    }
    Ok(MankaiObject::Bool(false))
}

/// What `not` returns: the negation of its single boolean argument.
pub open spec fn not_spec(args: Seq<Val>) -> NativeOutcome {
    if args.len() != 1 {
        Err(msg_exactly_one("not"@))
    } else {
        match args[0] {
            Val::Bool(b) => Ok(Val::Bool(!b)),
            _ => Err(msg_bool_arg("not"@, 1)),
        }
    }
}

/// Logic NOT.
pub fn not(arguments: Vec<MankaiObject>) -> (r: Result<MankaiObject, RuntimeError>)
    ensures
        result_view(r) == not_spec(objs_view(arguments@)),
{
    proof {
        lemma_objs_view(arguments@);
    }
    if arguments.len() != 1 {
        return Err(err_exactly_one("not"));
    }
    proof {
        assert(objs_view(arguments@)[0] == arguments@[0]@);
    }
    match &arguments[0] {
        MankaiObject::Bool(b) => Ok(MankaiObject::Bool(!*b)),
        _ => Err(err_bool_arg("not", 1)),
    }
}

/// What `car` returns: the first element of its single list argument; the
/// empty list is a distinct error.
pub open spec fn car_spec(args: Seq<Val>) -> NativeOutcome {
    if args.len() != 1 {
        Err(msg_exactly_one("car"@))
    } else {
        match args[0] {
            Val::List(l) => if l.len() == 0 {
                Err(msg_empty_list("car"@))
            } else {
                Ok(l[0])
            },
            _ => Err(msg_list_arg("car"@)),
        }
    }
}

/// Analogue of lisp's iconic `car`: get the head of a list.
pub fn car(arguments: Vec<MankaiObject>) -> (r: Result<MankaiObject, RuntimeError>)
    ensures
        result_view(r) == car_spec(objs_view(arguments@)),
{
    proof {
        lemma_objs_view(arguments@);
    }
    if arguments.len() != 1 {
        return Err(err_exactly_one("car"));
    }
    proof {
        assert(objs_view(arguments@)[0] == arguments@[0]@);
    }
    match &arguments[0] {
        MankaiObject::List(list) => {
            if list.len() == 0 {
                proof {
                    lemma_objs_view(list@);
                }
                Err(err_empty_list("car"))
            } else {
                proof {
                    lemma_objs_view(list@);
                }
                Ok(list[0].clone())
            }
        },
        _ => Err(err_list_arg("car")),
    }
}

/// What `cdr` returns: its single list argument without the first
/// element; the empty list is a distinct error.
pub open spec fn cdr_spec(args: Seq<Val>) -> NativeOutcome {
    if args.len() != 1 {
        Err(msg_exactly_one("cdr"@))
    } else {
        match args[0] {
            Val::List(l) => if l.len() == 0 {
                Err(msg_empty_list("cdr"@))
            } else {
                Ok(Val::List(l.drop_first()))
            },
            _ => Err(msg_list_arg("cdr"@)),
        }
    }
}

/// Analogue of lisp's `cdr`: get the tail of a list.
pub fn cdr(arguments: Vec<MankaiObject>) -> (r: Result<MankaiObject, RuntimeError>)
    ensures
        result_view(r) == cdr_spec(objs_view(arguments@)),
{
    proof {
        lemma_objs_view(arguments@);
    }
    if arguments.len() != 1 {
        return Err(err_exactly_one("cdr"));
    }
    proof {
        assert(objs_view(arguments@)[0] == arguments@[0]@);
    }
    match &arguments[0] {
        MankaiObject::List(list) => {
            if list.len() == 0 {
                proof {
                    lemma_objs_view(list@);
                }
                Err(err_empty_list("cdr"))
            } else {
                let mut tail: Vec<MankaiObject> = Vec::new();
                let mut i: usize = 1;
                while i < list.len()
                    invariant
                        arguments@.len() == 1,
                        arguments@[0] == MankaiObject::List(*list),
                        1 <= i <= list.len(),
                        tail@.len() == i - 1,
                        forall|j: int| 0 <= j < i - 1 ==> tail@[j]@ == list@[j + 1]@,
                    decreases list.len() - i,
                {
                    tail.push(list[i].clone());
                    i += 1;
                }
                proof {
                    lemma_objs_view(tail@);
                    lemma_objs_view(list@);
                    assert forall|k: int| 0 <= k < tail@.len() implies objs_view(tail@)[k]
                        == objs_view(list@).drop_first()[k] by {
                        assert(tail@[k]@ == list@[k + 1]@);
                    }
                    assert(objs_view(tail@) =~= objs_view(list@).drop_first());
                }
                Ok(MankaiObject::List(tail))
            }
        },
        _ => Err(err_list_arg("cdr")),
    }
}

/// What `cons` returns: the first argument, a list, with all the later
/// arguments appended to its end in order.
pub open spec fn cons_spec(args: Seq<Val>) -> NativeOutcome {
    if args.len() < 2 {
        Err(msg_at_least_two("cons"@))
    } else {
        match args[0] {
            Val::List(l) => Ok(Val::List(l + args.drop_first())),
            _ => Err(msg_list_arg("cons"@)),
        }
    }
}

/// Cons function. Append to the first argument all the others in the
/// given order. The first argument must be a list.
pub fn cons(arguments: Vec<MankaiObject>) -> (r: Result<MankaiObject, RuntimeError>)
    ensures
        result_view(r) == cons_spec(objs_view(arguments@)),
{
    let ghost args = objs_view(arguments@);
    proof {
        lemma_objs_view(arguments@);
    }
    if arguments.len() < 2 {
        return Err(err_at_least_two("cons"));
    }
    proof {
        assert(args[0] == arguments@[0]@);
    }
    let first = arguments[0].clone();
    match first {
        MankaiObject::List(mut list) => {
            let ghost orig = objs_view(list@);
            let mut i: usize = 1;
            while i < arguments.len()
                invariant
                    args == objs_view(arguments@),
                    args.len() == arguments@.len(),
                    forall|j: int| 0 <= j < args.len() ==> args[j] == #[trigger] arguments@[j]@,
                    1 <= i <= arguments.len(),
                    objs_view(list@) =~= orig + args.subrange(1, i as int),
                decreases arguments.len() - i,
            {
                proof {
                    assert(args[i as int] == arguments@[i as int]@);
                }
                let ghost pre = list@;
                list.push(arguments[i].clone());
                proof {
                    assert(list@.drop_last() =~= pre);
                    assert(args.subrange(1, i + 1).drop_last() =~= args.subrange(1, i as int));
                }
                i += 1;
            }
            proof {
                assert(args.subrange(1, args.len() as int) =~= args.drop_first());
            }
            Ok(MankaiObject::List(list))
        },
        _ => Err(err_list_arg("cons")),
    }
}

/// What `list` returns: all the arguments wrapped into a list, in order.
pub open spec fn list_spec(args: Seq<Val>) -> NativeOutcome {
    Ok(Val::List(args))
}

/// Create a new Mankai list from the given Mankai objects.
pub fn list(arguments: Vec<MankaiObject>) -> (r: Result<MankaiObject, RuntimeError>)
    ensures
        result_view(r) == list_spec(objs_view(arguments@)),
{
    Ok(MankaiObject::List(arguments))
}

/// Concatenate the string arguments, in order; the first non-string is an
/// error naming its position.
pub open spec fn concat_fold(args: Seq<Val>, acc: Seq<char>, pos: nat) -> Result<
    Seq<char>,
    Seq<char>,
>
    decreases args.len(),
{
    if args.len() == 0 {
        Ok(acc)
    } else {
        match args.first() {
            Val::Str(s) => concat_fold(args.drop_first(), acc + s, pos + 1),
            _ => Err(msg_string_arg("string-concat"@, pos)),
        }
    }
}

/// What `string-concat` returns: the concatenation of all the string
/// arguments, in order.
pub open spec fn string_concat_spec(args: Seq<Val>) -> NativeOutcome {
    if args.len() == 0 {
        Err(msg_at_least_one("string-concat"@))
    } else {
        match concat_fold(args, Seq::empty(), 1) {
            Ok(s) => Ok(Val::Str(s)),
            Err(m) => Err(m),
        }
    }
}

/// Concatenate strings.
pub fn string_concat(arguments: Vec<MankaiObject>) -> (r: Result<MankaiObject, RuntimeError>)
    ensures
        result_view(r) == string_concat_spec(objs_view(arguments@)),
{
    let ghost args = objs_view(arguments@);
    proof {
        lemma_objs_view(arguments@);
    }
    if arguments.len() == 0 {
        return Err(err_at_least_one("string-concat"));
    }
    let mut acc = String::new();
    proof {
        assert(args.skip(0) =~= args);
    }
    let mut i: usize = 0;
    while i < arguments.len()
        invariant
            args == objs_view(arguments@),
            args.len() == arguments@.len(),
            forall|j: int| 0 <= j < args.len() ==> args[j] == #[trigger] arguments@[j]@,
            i <= arguments.len(),
            concat_fold(args, Seq::empty(), 1) == concat_fold(
                args.skip(i as int),
                acc@,
                (i + 1) as nat,
            ),
        decreases arguments.len() - i,
    {
        proof {
            assert(args[i as int] == arguments@[i as int]@);
            assert(args.skip(i as int).first() == args[i as int]);
            assert(args.skip(i as int).drop_first() =~= args.skip(i + 1));
            assert(args.skip(i as int).len() == args.len() - i);
        }
        match &arguments[i] {
            MankaiObject::String(st) => {
                acc.append(st.as_str());
            },
            _ => {
                return Err(err_string_arg("string-concat", i + 1));
            },
        }
        i += 1;
    }
    proof {
        assert(args.skip(args.len() as int).len() == 0);
    }
    Ok(MankaiObject::String(acc))
}

/// What `to-string` returns: its single argument unchanged when already a
/// string, otherwise the argument's textual rendering wrapped as one.
pub open spec fn to_string_spec(args: Seq<Val>) -> NativeOutcome {
    if args.len() != 1 {
        Err(msg_exactly_one("to-string"@))
    } else {
        match args[0] {
            Val::Str(_) => Ok(args[0]),
            _ => Ok(Val::Str(val_to_text(args[0]))),
        }
    }
}

/// Convert a Mankai object to a Mankai string.
pub fn to_string(arguments: Vec<MankaiObject>) -> (r: Result<MankaiObject, RuntimeError>)
    ensures
        result_view(r) == to_string_spec(objs_view(arguments@)),
{
    proof {
        lemma_objs_view(arguments@);
    }
    if arguments.len() != 1 {
        return Err(err_exactly_one("to-string"));
    }
    proof {
        assert(objs_view(arguments@)[0] == arguments@[0]@);
    }
    match &arguments[0] {
        MankaiObject::String(_) => Ok(arguments[0].clone()),
        _ => Ok(MankaiObject::String(arguments[0].to_string())),
    }
}

/// What `bool?` returns: whether its single argument is a boolean.
pub open spec fn is_boolean_spec(args: Seq<Val>) -> NativeOutcome {
    if args.len() != 1 {
        Err(msg_exactly_one("bool?"@))
    } else {
        Ok(Val::Bool(args[0] is Bool))
    }
}

/// Test whether the argument is a boolean.
pub fn is_boolean(arguments: Vec<MankaiObject>) -> (r: Result<MankaiObject, RuntimeError>)
    ensures
        result_view(r) == is_boolean_spec(objs_view(arguments@)),
{
    proof {
        lemma_objs_view(arguments@);
    }
    if arguments.len() != 1 {
        return Err(err_exactly_one("bool?"));
    }
    proof {
        assert(objs_view(arguments@)[0] == arguments@[0]@);
    }
    match &arguments[0] {
        MankaiObject::Bool(_) => Ok(MankaiObject::Bool(true)),
        _ => Ok(MankaiObject::Bool(false)),
    }
}

/// What `list?` returns: whether its single argument is a list.
pub open spec fn is_list_spec(args: Seq<Val>) -> NativeOutcome {
    if args.len() != 1 {
        Err(msg_exactly_one("list?"@))
    } else {
        Ok(Val::Bool(args[0] is List))
    }
}

/// Test whether the argument is a list.
pub fn is_list(arguments: Vec<MankaiObject>) -> (r: Result<MankaiObject, RuntimeError>)
    ensures
        result_view(r) == is_list_spec(objs_view(arguments@)),
{
    proof {
        lemma_objs_view(arguments@);
    }
    if arguments.len() != 1 {
        return Err(err_exactly_one("list?"));
    }
    proof {
        assert(objs_view(arguments@)[0] == arguments@[0]@);
    }
    match &arguments[0] {
        MankaiObject::List(_) => Ok(MankaiObject::Bool(true)),
        _ => Ok(MankaiObject::Bool(false)),
    }
}

/// What `number?` returns: whether its single argument is a number.
pub open spec fn is_number_spec(args: Seq<Val>) -> NativeOutcome {
    if args.len() != 1 {
        Err(msg_exactly_one("number?"@))
    } else {
        Ok(Val::Bool(args[0] is Num))
    }
}

/// Test whether the argument is a number.
pub fn is_number(arguments: Vec<MankaiObject>) -> (r: Result<MankaiObject, RuntimeError>)
    ensures
        result_view(r) == is_number_spec(objs_view(arguments@)),
{
    proof {
        lemma_objs_view(arguments@);
    }
    if arguments.len() != 1 {
        return Err(err_exactly_one("number?"));
    }
    proof {
        assert(objs_view(arguments@)[0] == arguments@[0]@);
    }
    match &arguments[0] {
        MankaiObject::Number(_) => Ok(MankaiObject::Bool(true)),
        _ => Ok(MankaiObject::Bool(false)),
    }
}

/// What `string?` returns: whether its single argument is a string.
pub open spec fn is_string_spec(args: Seq<Val>) -> NativeOutcome {
    if args.len() != 1 {
        Err(msg_exactly_one("string?"@))
    } else {
        Ok(Val::Bool(args[0] is Str))
    }
}

/// Test whether the argument is a string.
pub fn is_string(arguments: Vec<MankaiObject>) -> (r: Result<MankaiObject, RuntimeError>)
    ensures
        result_view(r) == is_string_spec(objs_view(arguments@)),
{
    proof {
        lemma_objs_view(arguments@);
    }
    if arguments.len() != 1 {
        return Err(err_exactly_one("string?"));
    }
    proof {
        assert(objs_view(arguments@)[0] == arguments@[0]@);
    }
    match &arguments[0] {
        MankaiObject::String(_) => Ok(MankaiObject::Bool(true)),
        _ => Ok(MankaiObject::Bool(false)),
    }
}

/// What each native function returns, by its kind.
pub open spec fn native_spec(kind: NativeKind, args: Seq<Val>) -> NativeOutcome {
    match kind {
        NativeKind::Sum => sum_spec(args),
        NativeKind::Subtract => substract_spec(args),
        NativeKind::Multiplication => multiplication_spec(args),
        NativeKind::Division => division_spec(args),
        NativeKind::Equals => cmp_spec(CompareKind::CmpEq, args),
        NativeKind::GreaterThan => cmp_spec(CompareKind::CmpGt, args),
        NativeKind::LessThan => cmp_spec(CompareKind::CmpLt, args),
        NativeKind::And => and_spec(args),
        NativeKind::Or => or_spec(args),
        NativeKind::Not => not_spec(args),
        NativeKind::Car => car_spec(args),
        NativeKind::Cdr => cdr_spec(args),
        NativeKind::Cons => cons_spec(args),
        NativeKind::List => list_spec(args),
        NativeKind::IsBoolean => is_boolean_spec(args),
        NativeKind::IsList => is_list_spec(args),
        NativeKind::IsNumber => is_number_spec(args),
        NativeKind::IsString => is_string_spec(args),
        NativeKind::StringConcat => string_concat_spec(args),
        NativeKind::ToString => to_string_spec(args),
    }
}

/// Invoke the native function that a kind names on the evaluated
/// arguments.
pub fn dispatch_native(kind: NativeKind, arguments: Vec<MankaiObject>) -> (r: Result<
    MankaiObject,
    RuntimeError,
>)
    ensures
        result_view(r) == native_spec(kind, objs_view(arguments@)),
{
    match kind {
        NativeKind::Sum => sum(arguments),
        NativeKind::Subtract => substract(arguments),
        NativeKind::Multiplication => multiplication(arguments),
        NativeKind::Division => division(arguments),
        NativeKind::Equals => equals(arguments),
        NativeKind::GreaterThan => greater_than(arguments),
        NativeKind::LessThan => less_than(arguments),
        NativeKind::And => and(arguments),
        NativeKind::Or => or(arguments),
        NativeKind::Not => not(arguments),
        NativeKind::Car => car(arguments),
        NativeKind::Cdr => cdr(arguments),
        NativeKind::Cons => cons(arguments),
        NativeKind::List => list(arguments),
        NativeKind::IsBoolean => is_boolean(arguments),
        NativeKind::IsList => is_list(arguments),
        NativeKind::IsNumber => is_number(arguments),
        NativeKind::IsString => is_string(arguments),
        NativeKind::StringConcat => string_concat(arguments),
        NativeKind::ToString => to_string(arguments),
    }
}

} // verus!
