//! The meaning of evaluation, as mathematical functions over models of
//! atoms and scopes.

use vstd::prelude::*;
use crate::atom::{AtomView, ErrorView};
use crate::binding::{bind, child_of, lookup, Scope};

verus! {

/// The three folding arithmetic operations.
#[derive(Clone, Copy, Debug, PartialEq, Eq)]
pub enum Arithmetic {
    Add,
    Sub,
    Mul,
}

/// The four numeric comparisons.
#[derive(Clone, Copy, Debug, PartialEq, Eq)]
pub enum Comparison {
    Less,
    LessEq,
    Greater,
    GreaterEq,
}

/// The variants that a type predicate can ask for.
#[derive(Clone, Copy, Debug, PartialEq, Eq)]
pub enum Tag {
    Integer,
    Bool,
    Symbol,
    List,
    Function,
    Nil,
    Quote,
}

/// A built-in operation that evaluates all its operands, left to right, and
/// then computes on their values.
#[derive(Clone, Copy, Debug, PartialEq, Eq)]
pub enum Primitive {
    Car,
    Cdr,
    Arith(Arithmetic),
    Cons,
    Equal,
    Eq,
    Compare(Comparison),
    Is(Tag),
}

/// What the symbol at the head of a call form selects.
#[derive(Clone, Copy, Debug, PartialEq, Eq)]
pub enum Op {
    Primitive(Primitive),
    Defun,
    Cond,
    Call,
}

/// The operation that a head symbol names. Built-in names come first: a user
/// function of the same name is never reached.
pub open spec fn op_of(name: Seq<char>) -> Op {
    if name == "car"@ {
        Op::Primitive(Primitive::Car)
    } else if name == "cdr"@ {
        Op::Primitive(Primitive::Cdr)
    } else if name == "+"@ {
        Op::Primitive(Primitive::Arith(Arithmetic::Add))
    } else if name == "-"@ {
        Op::Primitive(Primitive::Arith(Arithmetic::Sub))
    } else if name == "*"@ {
        Op::Primitive(Primitive::Arith(Arithmetic::Mul))
    } else if name == "cons"@ {
        Op::Primitive(Primitive::Cons)
    } else if name == "equal"@ {
        Op::Primitive(Primitive::Equal)
    } else if name == "eq"@ {
        Op::Primitive(Primitive::Eq)
    } else if name == "defun"@ {
        Op::Defun
    } else if name == "cond"@ {
        Op::Cond
    } else if name == "<"@ {
        Op::Primitive(Primitive::Compare(Comparison::Less))
    } else if name == "<="@ {
        Op::Primitive(Primitive::Compare(Comparison::LessEq))
    } else if name == ">"@ {
        Op::Primitive(Primitive::Compare(Comparison::Greater))
    } else if name == ">="@ {
        Op::Primitive(Primitive::Compare(Comparison::GreaterEq))
    } else if name == "integerp"@ {
        Op::Primitive(Primitive::Is(Tag::Integer))
    } else if name == "boolp"@ {
        Op::Primitive(Primitive::Is(Tag::Bool))
    } else if name == "symbolp"@ {
        Op::Primitive(Primitive::Is(Tag::Symbol))
    } else if name == "listp"@ {
        Op::Primitive(Primitive::Is(Tag::List))
    } else if name == "functionp"@ {
        Op::Primitive(Primitive::Is(Tag::Function))
    } else if name == "nilp"@ {
        Op::Primitive(Primitive::Is(Tag::Nil))
    } else if name == "quotep"@ {
        Op::Primitive(Primitive::Is(Tag::Quote))
    } else {
        Op::Call
    }
}

/// Deep structural equality. Values that hold a `Void` or a `Function` are
/// equal to nothing, themselves included.
pub open spec fn equal_spec(l: AtomView, r: AtomView) -> bool
    decreases l,
{
    match (l, r) {
        (AtomView::Integer(a), AtomView::Integer(b)) => a == b,
        (AtomView::Bool(a), AtomView::Bool(b)) => a == b,
        (AtomView::Nil, AtomView::Nil) => true,
        (AtomView::List(a), AtomView::List(b)) => {
            &&& a.len() == b.len()
            &&& forall|i: int| 0 <= i < a.len() ==> equal_spec(#[trigger] a[i], b[i])
        },
        (AtomView::Symbol(a), AtomView::Symbol(b)) => a == b,
        (AtomView::Quote(a), AtomView::Quote(b)) => equal_spec(*a, *b),
        _ => false,
    }
}

/// Shallow equality: that of scalars, and `false` for everything else.
pub open spec fn eq_spec(l: AtomView, r: AtomView) -> bool {
    match (l, r) {
        (AtomView::Integer(a), AtomView::Integer(b)) => a == b,
        (AtomView::Bool(a), AtomView::Bool(b)) => a == b,
        (AtomView::Nil, AtomView::Nil) => true,
        (AtomView::Symbol(a), AtomView::Symbol(b)) => a == b,
        _ => false,
    }
}

/// Whether a value is of the variant that `tag` names.
pub open spec fn has_tag(v: AtomView, tag: Tag) -> bool {
    match tag {
        Tag::Integer => v is Integer,
        Tag::Bool => v is Bool,
        Tag::Symbol => v is Symbol,
        Tag::List => v is List,
        Tag::Function => v is Function,
        Tag::Nil => v is Nil,
        Tag::Quote => v is Quote,
    }
}

/// The truth of a comparison.
pub open spec fn compare(c: Comparison, a: int, b: int) -> bool {
    match c {
        Comparison::Less => a < b,
        Comparison::LessEq => a <= b,
        Comparison::Greater => a > b,
        Comparison::GreaterEq => a >= b,
    }
}

/// The number that a value holds; zero for what is no number.
pub open spec fn number(v: AtomView) -> int {
    match v {
        AtomView::Integer(n) => n,
        _ => 0,
    }
}

/// Whether a number fits the 64-bit signed representation.
pub open spec fn in_range(n: int) -> bool {
    i64::MIN <= n <= i64::MAX
}

/// One step of a fold.
pub open spec fn step(op: Arithmetic, acc: int, x: int) -> int {
    match op {
        Arithmetic::Add => acc + x,
        Arithmetic::Sub => acc - x,
        Arithmetic::Mul => acc * x,
    }
}

/// Folds the numbers from index `i` on into `acc`, left to right; `None` as
/// soon as an intermediate result leaves the representable range.
pub open spec fn fold_from(op: Arithmetic, acc: int, vals: Seq<AtomView>, i: nat) -> Option<int>
    decreases vals.len() - i,
{
    if i >= vals.len() {
        Some(acc)
    } else {
        let next = step(op, acc, number(vals[i as int]));
        if in_range(next) {
            fold_from(op, next, vals, i + 1)
        } else {
            None
        }
    }
}

/// Whether every value is a number.
pub open spec fn all_numbers(vals: Seq<AtomView>) -> bool {
    forall|i: int| 0 <= i < vals.len() ==> #[trigger] vals[i] is Integer
}

/// Sum, product, or the first number minus all the others, of at least two
/// numbers.
pub open spec fn arith_spec(op: Arithmetic, vals: Seq<AtomView>) -> Result<AtomView, ErrorView> {
    if vals.len() < 2 {
        Err(ErrorView::ArityError)
    } else if !all_numbers(vals) {
        Err(ErrorView::TypeError)
    } else {
        let folded = match op {
            Arithmetic::Add => fold_from(op, 0, vals, 0),
            Arithmetic::Mul => fold_from(op, 1, vals, 0),
            Arithmetic::Sub => fold_from(op, number(vals[0]), vals, 1),
        };
        match folded {
            Some(n) => Ok(AtomView::Integer(n)),
            None => Err(ErrorView::Overflow),
        }
    }
}

/// Whether a primitive accepts `n` operands.
pub open spec fn arity_ok(p: Primitive, n: int) -> bool {
    match p {
        Primitive::Car | Primitive::Cdr | Primitive::Is(_) => n == 1,
        Primitive::Arith(_) => n >= 2,
        Primitive::Cons | Primitive::Equal | Primitive::Eq | Primitive::Compare(_) => n == 2,
    }
}

/// What a primitive computes from the values of its operands.
pub open spec fn primitive(p: Primitive, vals: Seq<AtomView>) -> Result<AtomView, ErrorView> {
    if !arity_ok(p, vals.len() as int) {
        Err(ErrorView::ArityError)
    } else {
        compute(p, vals)
    }
}

/// What a primitive computes from the right number of values.
pub open spec fn compute(p: Primitive, vals: Seq<AtomView>) -> Result<AtomView, ErrorView> {
    match p {
        Primitive::Car => match vals[0] {
            AtomView::List(items) if items.len() > 0 => Ok(items[0]),
            _ => Err(ErrorView::TypeError),
        },
        Primitive::Cdr => match vals[0] {
            AtomView::List(items) if items.len() > 0 => Ok(
                AtomView::List(items.subrange(1, items.len() as int)),
            ),
            _ => Err(ErrorView::TypeError),
        },
        Primitive::Arith(op) => arith_spec(op, vals),
        Primitive::Cons => match vals[1] {
            AtomView::List(items) => Ok(AtomView::List(seq![vals[0]] + items)),
            AtomView::Nil => Ok(AtomView::List(seq![vals[0]])),
            _ => Err(ErrorView::TypeError),
        },
        Primitive::Equal => Ok(AtomView::Bool(equal_spec(vals[0], vals[1]))),
        Primitive::Eq => Ok(AtomView::Bool(eq_spec(vals[0], vals[1]))),
        Primitive::Compare(c) => match (vals[0], vals[1]) {
            (AtomView::Integer(a), AtomView::Integer(b)) => Ok(AtomView::Bool(compare(c, a, b))),
            _ => Err(ErrorView::TypeError),
        },
        Primitive::Is(tag) => Ok(AtomView::Bool(has_tag(vals[0], tag))),
    }
}

/// What a symbol evaluates to.
pub open spec fn resolve(scope: Scope, name: Seq<char>) -> Result<AtomView, ErrorView> {
    match lookup(scope, name) {
        Some(v) => Ok(v),
        None => Err(ErrorView::UnboundSymbol(name)),
    }
}

/// Whether every item is a symbol.
pub open spec fn all_symbols(items: Seq<AtomView>) -> bool {
    forall|i: int| 0 <= i < items.len() ==> #[trigger] items[i] is Symbol
}

/// The names of a sequence of symbols.
pub open spec fn symbol_names(items: Seq<AtomView>) -> Seq<Seq<char>> {
    Seq::new(items.len(), |i: int| items[i]->Symbol_0)
}

/// The meaning of `(defun name (param ...) body ...)`: the name is bound, in
/// the innermost frame, to a function of those parameters and body.
pub open spec fn defun_spec(items: Seq<AtomView>, scope: Scope) -> (Result<AtomView, ErrorView>, Scope) {
    if items.len() < 4 {
        (Err(ErrorView::ArityError), scope)
    } else {
        match (items[1], items[2]) {
            (AtomView::Symbol(name), AtomView::List(params)) => {
                if all_symbols(params) {
                    let function = AtomView::Function {
                        params: symbol_names(params),
                        body: items.subrange(3, items.len() as int),
                    };
                    (Ok(AtomView::Void), bind(scope, name, function))
                } else {
                    (Err(ErrorView::MalformedForm), scope)
                }
            },
            _ => (Err(ErrorView::MalformedForm), scope),
        }
    }
}

/// Binds parameters to arguments pairwise from index `i` on. Surplus
/// parameters stay unbound and surplus arguments are ignored.
pub open spec fn bind_params(scope: Scope, params: Seq<Seq<char>>, args: Seq<AtomView>, i: nat) -> Scope
    decreases params.len() - i,
{
    if i >= params.len() || i >= args.len() {
        scope
    } else {
        bind_params(bind(scope, params[i as int], args[i as int]), params, args, i + 1)
    }
}

/// Whether an evaluation gave up for want of depth.
pub open spec fn exhausted<T>(r: Result<T, ErrorView>) -> bool {
    r matches Err(ErrorView::DepthExceeded)
}

/// A nesting budget as a natural number.
pub open spec fn levels(depth: usize) -> nat {
    depth as nat
}

/// Evaluates an atom in a scope, nesting call forms at most `depth` deep.
/// Gives the result and the scope that evaluation leaves behind.
pub open spec fn eval_spec(a: AtomView, scope: Scope, depth: nat) -> (Result<AtomView, ErrorView>, Scope)
    decreases depth, 0nat, 0nat,
{
    match a {
        AtomView::List(items) => {
            if depth == 0 {
                (Err(ErrorView::DepthExceeded), scope)
            } else {
                apply_spec(items, scope, (depth - 1) as nat)
            }
        },
        AtomView::Symbol(name) => (resolve(scope, name), scope),
        AtomView::Integer(_) | AtomView::Bool(_) | AtomView::Nil => (Ok(a), scope),
        AtomView::Quote(inner) => (Ok(*inner), scope),
        AtomView::Void | AtomView::Function { .. } => (Err(ErrorView::TypeError), scope),
    }
}

/// Evaluates the items from index `i` on, left to right, appending their
/// values to `acc`. Stops at the first failure; with `numeric`, a value that
/// is no number is a failure too.
pub open spec fn eval_operands(
    items: Seq<AtomView>,
    i: nat,
    acc: Seq<AtomView>,
    scope: Scope,
    depth: nat,
    numeric: bool,
) -> (Result<Seq<AtomView>, ErrorView>, Scope)
    decreases depth, 1nat, items.len() - i,
{
    if i >= items.len() {
        (Ok(acc), scope)
    } else {
        let first = eval_spec(items[i as int], scope, depth);
        match first.0 {
            Err(e) => (Err(e), first.1),
            Ok(v) => {
                if numeric && !(v is Integer) {
                    (Err(ErrorView::TypeError), first.1)
                } else {
                    eval_operands(items, i + 1, acc.push(v), first.1, depth, numeric)
                }
            },
        }
    }
}

/// Applies a primitive: checks the number of operands, evaluates them, then
/// computes.
pub open spec fn strict_spec(p: Primitive, items: Seq<AtomView>, scope: Scope, depth: nat) -> (
    Result<AtomView, ErrorView>,
    Scope,
)
    decreases depth, 2nat, 0nat,
{
    if !arity_ok(p, items.len() - 1) {
        (Err(ErrorView::ArityError), scope)
    } else {
        let operands = eval_operands(items, 1, Seq::empty(), scope, depth, p is Arith);
        match operands.0 {
            Err(e) => (Err(e), operands.1),
            Ok(vals) => (primitive(p, vals), operands.1),
        }
    }
}

/// Calls the user function bound to `name`: the operands are evaluated in the
/// caller's scope, the parameters are bound in a fresh frame inside it, and
/// the first expression of the body is evaluated there. The frame is then
/// dropped: the scope left behind is that after the operands.
pub open spec fn call_spec(name: Seq<char>, items: Seq<AtomView>, scope: Scope, depth: nat) -> (
    Result<AtomView, ErrorView>,
    Scope,
)
    decreases depth, 2nat, 0nat,
{
    match lookup(scope, name) {
        Some(AtomView::Function { params, body }) => {
            let operands = eval_operands(items, 1, Seq::empty(), scope, depth, false);
            match operands.0 {
                Err(e) => (Err(e), operands.1),
                Ok(vals) => {
                    if body.len() == 0 {
                        (Err(ErrorView::MalformedForm), operands.1)
                    } else {
                        let frame = bind_params(child_of(operands.1), params, vals, 0);
                        (eval_spec(body[0], frame, depth).0, operands.1)
                    }
                },
            }
        },
        _ => (Err(ErrorView::UnrecognizedSymbol(name)), scope),
    }
}

/// Evaluates a call form: a list with a symbol at its head.
pub open spec fn apply_spec(items: Seq<AtomView>, scope: Scope, depth: nat) -> (
    Result<AtomView, ErrorView>,
    Scope,
)
    decreases depth, 3nat, 0nat,
{
    if items.len() == 0 {
        (Err(ErrorView::EmptyListApplication), scope)
    } else {
        match items[0] {
            AtomView::Symbol(name) => match op_of(name) {
                Op::Primitive(p) => strict_spec(p, items, scope, depth),
                Op::Defun => defun_spec(items, scope),
                Op::Cond => (Ok(AtomView::Void), scope),
                Op::Call => call_spec(name, items, scope, depth),
            },
            _ => (Err(ErrorView::EmptyListApplication), scope),
        }
    }
}

} // verus!
