//! The value type shared by code and data, and the errors of evaluation.

use vstd::prelude::*;
use vstd::string::StringExecFns;

verus! {

/// A value or expression. Numbers are exact 64-bit signed integers.
#[derive(Debug, PartialEq)]
pub enum Atom {
    Void,
    Integer(i64),
    Bool(bool),
    Symbol(String),
    List(Vec<Atom>),
    Function { params: Vec<String>, body: Vec<Atom> },
    Quote(Box<Atom>),
    Nil,
}

/// The mathematical model of an [`Atom`].
pub enum AtomView {
    Void,
    Integer(int),
    Bool(bool),
    Symbol(Seq<char>),
    List(Seq<AtomView>),
    Function { params: Seq<Seq<char>>, body: Seq<AtomView> },
    Quote(Box<AtomView>),
    Nil,
}

/// The models of a sequence of atoms, element by element.
pub open spec fn atoms_view(items: Seq<Atom>) -> Seq<AtomView> {
    Seq::new(items.len(), |i: int| items[i]@)
}

/// The character sequences of a sequence of names.
pub open spec fn names_view(names: Seq<String>) -> Seq<Seq<char>> {
    Seq::new(names.len(), |i: int| names[i]@)
}

/// The model of an atom: the same tree, over mathematical sequences.
pub open spec fn atom_view(a: Atom) -> AtomView
    decreases a,
{
    match a {
        Atom::Void => AtomView::Void,
        Atom::Integer(n) => AtomView::Integer(n as int),
        Atom::Bool(b) => AtomView::Bool(b),
        Atom::Symbol(s) => AtomView::Symbol(s@),
        Atom::List(items) => AtomView::List(
            Seq::new(
                items@.len(),
                |i: int|
                    if 0 <= i < items@.len() {
                        atom_view(items@[i])
                    } else {
                        AtomView::Nil
                    },
            ),
        ),
        Atom::Function { params, body } => AtomView::Function {
            params: names_view(params@),
            body: Seq::new(
                body@.len(),
                |i: int|
                    if 0 <= i < body@.len() {
                        atom_view(body@[i])
                    } else {
                        AtomView::Nil
                    },
            ),
        },
        Atom::Quote(inner) => AtomView::Quote(Box::new(atom_view(*inner))),
        Atom::Nil => AtomView::Nil,
    }
}

impl View for Atom {
    type V = AtomView;

    open spec fn view(&self) -> AtomView {
        atom_view(*self)
    }
}

/// The view of a list atom is the views of its items, and likewise for a
/// function's body.
pub proof fn lemma_view_of_items(a: Atom)
    ensures
        a matches Atom::List(items) ==> a@ == AtomView::List(atoms_view(items@)),
        a matches Atom::Function { params, body } ==> a@ == (AtomView::Function {
            params: names_view(params@),
            body: atoms_view(body@),
        }),
{
    match a {
        Atom::List(items) => {
            assert(a@->List_0 =~= atoms_view(items@));
        },
        Atom::Function { params, body } => {
            assert(a@->Function_body =~= atoms_view(body@));
        },
        _ => {},
    }
}

/// Copies a vector of names.
pub fn clone_names(names: &Vec<String>) -> (r: Vec<String>)
    ensures
        names_view(r@) == names_view(names@),
{
    let mut out: Vec<String> = Vec::new();
    let mut i: usize = 0;
    while i < names.len()
        invariant
            i <= names.len(),
            out@.len() == i,
            forall|j: int| 0 <= j < i ==> out@[j]@ == names@[j]@,
        decreases names.len() - i,
    {
        out.push(names[i].clone());
        i += 1;
    }
    assert(names_view(out@) =~= names_view(names@));
    out
}

/// Copies a vector of atoms.
pub fn clone_atoms(items: &Vec<Atom>) -> (r: Vec<Atom>)
    ensures
        atoms_view(r@) == atoms_view(items@),
    decreases items, 0nat,
{
    let mut out: Vec<Atom> = Vec::new();
    let mut i: usize = 0;
    while i < items.len()
        invariant
            i <= items.len(),
            out@.len() == i,
            forall|j: int| 0 <= j < i ==> out@[j]@ == items@[j]@,
        decreases items.len() - i,
    {
        out.push(items[i].clone());
        i += 1;
    }
    assert(atoms_view(out@) =~= atoms_view(items@));
    out
}

impl Clone for Atom {
    /// A deep copy with the same model.
    fn clone(&self) -> (r: Atom)
        ensures
            r@ == self@,
        decreases self, 1nat,
    {
        proof {
            lemma_view_of_items(*self);
        }
        let r = match self {
            Atom::Void => Atom::Void,
            Atom::Integer(n) => Atom::Integer(*n),
            Atom::Bool(b) => Atom::Bool(*b),
            Atom::Symbol(s) => Atom::Symbol(s.clone()),
            Atom::List(items) => Atom::List(clone_atoms(items)),
            Atom::Function { params, body } => Atom::Function {
                params: clone_names(params),
                body: clone_atoms(body),
            },
            Atom::Quote(inner) => {
                let copy = (**inner).clone();
                Atom::Quote(Box::new(copy))
            },
            Atom::Nil => Atom::Nil,
        };
        proof {
            lemma_view_of_items(r);
        }
        r
    }
}

/// Why an evaluation failed.
#[derive(Debug, PartialEq)]
pub enum EvalError {
    /// A symbol has no binding in any enclosing frame.
    UnboundSymbol(String),
    /// The head of a call is neither a built-in operation nor bound to a function.
    UnrecognizedSymbol(String),
    /// A built-in operation received the wrong number of operands.
    ArityError,
    /// An operand evaluated to a value of the wrong variant.
    TypeError,
    /// A definition or a function value is structurally invalid.
    MalformedForm,
    /// A list without a symbol at its head was evaluated.
    EmptyListApplication,
    /// An arithmetic result does not fit in 64 bits.
    Overflow,
    /// Evaluation nested deeper than the permitted depth.
    DepthExceeded,
}

/// The mathematical model of an [`EvalError`].
pub enum ErrorView {
    UnboundSymbol(Seq<char>),
    UnrecognizedSymbol(Seq<char>),
    ArityError,
    TypeError,
    MalformedForm,
    EmptyListApplication,
    Overflow,
    DepthExceeded,
}

impl View for EvalError {
    type V = ErrorView;

    open spec fn view(&self) -> ErrorView {
        match self {
            EvalError::UnboundSymbol(s) => ErrorView::UnboundSymbol(s@),
            EvalError::UnrecognizedSymbol(s) => ErrorView::UnrecognizedSymbol(s@),
            EvalError::ArityError => ErrorView::ArityError,
            EvalError::TypeError => ErrorView::TypeError,
            EvalError::MalformedForm => ErrorView::MalformedForm,
            EvalError::EmptyListApplication => ErrorView::EmptyListApplication,
            EvalError::Overflow => ErrorView::Overflow,
            EvalError::DepthExceeded => ErrorView::DepthExceeded,
        }
    }
}

/// The message that describes a failure.
pub open spec fn message_of(e: ErrorView) -> Seq<char> {
    match e {
        ErrorView::UnboundSymbol(s) => "Symbol '"@ + s + "' not found"@,
        ErrorView::UnrecognizedSymbol(s) => "Symbol '"@ + s + "' is not recognized"@,
        ErrorView::ArityError => "Wrong number of arguments"@,
        ErrorView::TypeError => "Operand of the wrong type"@,
        ErrorView::MalformedForm => "Invalid function definition"@,
        ErrorView::EmptyListApplication => "Expected a symbol"@,
        ErrorView::Overflow => "Arithmetic overflow"@,
        ErrorView::DepthExceeded => "Evaluation nested too deeply"@,
    }
}

impl EvalError {
    /// Describes the failure in words.
    pub fn message(&self) -> (r: String)
        ensures
            r@ == message_of(self@),
    {
        match self {
            EvalError::UnboundSymbol(s) => {
                let mut out = String::from_str("Symbol '");
                out.append(s.as_str());
                out.append("' not found");
                out
            },
            EvalError::UnrecognizedSymbol(s) => {
                let mut out = String::from_str("Symbol '");
                out.append(s.as_str());
                out.append("' is not recognized");
                out
            },
            EvalError::ArityError => String::from_str("Wrong number of arguments"),
            EvalError::TypeError => String::from_str("Operand of the wrong type"),
            EvalError::MalformedForm => String::from_str("Invalid function definition"),
            EvalError::EmptyListApplication => String::from_str("Expected a symbol"),
            EvalError::Overflow => String::from_str("Arithmetic overflow"),
            EvalError::DepthExceeded => String::from_str("Evaluation nested too deeply"),
        }
    }
}

/// The model of a result of evaluation.
pub open spec fn result_view(r: Result<Atom, EvalError>) -> Result<AtomView, ErrorView> {
    match r {
        Ok(a) => Ok(a@),
        Err(e) => Err(e@),
    }
}

} // verus!
