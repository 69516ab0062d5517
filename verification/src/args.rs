//! The argument values a parse produces, and the errors it can raise.

use vstd::prelude::*;

verus! {

/// A parsed command line argument.
///
/// An argument is an operand, attribute or flag.
#[derive(Debug, Clone)]
pub enum Argument {
    /// A bare positional value.
    Operand(String),
    /// A key paired with a value; the value may be empty, the key never is.
    Attribute(String, String),
    /// A bare switch with a non-empty name.
    Flag(String),
}

/// The mathematical shape of an [`Argument`]: the same three variants,
/// over character sequences instead of heap strings.
pub enum ArgView {
    Operand(Seq<char>),
    Attribute(Seq<char>, Seq<char>),
    Flag(Seq<char>),
}

impl View for Argument {
    type V = ArgView;

    open spec fn view(&self) -> ArgView {
        match self {
            Argument::Operand(text) => ArgView::Operand(text@),
            Argument::Attribute(name, value) => ArgView::Attribute(name@, value@),
            Argument::Flag(name) => ArgView::Flag(name@),
        }
    }
}

impl PartialEq for Argument {
    fn eq(&self, other: &Argument) -> (r: bool) {
        match self {
            Argument::Operand(a) => match other {
                Argument::Operand(b) => a.eq(b),
                _ => false,
            },
            Argument::Attribute(an, av) => match other {
                Argument::Attribute(bn, bv) => an.eq(bn) && av.eq(bv),
                _ => false,
            },
            Argument::Flag(a) => match other {
                Argument::Flag(b) => a.eq(b),
                _ => false,
            },
        }
    }
}

impl vstd::std_specs::cmp::PartialEqSpecImpl for Argument {
    open spec fn obeys_eq_spec() -> bool {
        true
    }

    open spec fn eq_spec(&self, other: &Argument) -> bool {
        self@ == other@
    }
}

impl Eq for Argument {}

/// A reason the parse rejects its input.
#[derive(Debug, Clone, Copy, PartialEq, Eq, Structural)]
pub enum Error {
    /// An attribute-value separator `=` appeared with no name before it.
    EmptyAttribute,
    /// An option-introducing prefix or chain separator had no name after it.
    EmptyFlag,
}

/// The views of a sequence of arguments, in order.
pub open spec fn views_of(arguments: Seq<Argument>) -> Seq<ArgView> {
    arguments.map_values(|a: Argument| a@)
}

} // verus!
