//! The mathematical model of the parse: what each kind of token means,
//! stated over character sequences.
//!
//! The executable routines in [`crate::parser`] promise in their contracts
//! that they compute exactly what these functions describe.

use vstd::prelude::*;
use crate::args::ArgView;
use crate::args::Error;

verus! {

/// Prefix already-emitted arguments onto the outcome of parsing a remainder;
/// an error in the remainder aborts the whole parse.
pub open spec fn with_prefix(pre: Seq<ArgView>, r: Result<Seq<ArgView>, Error>) -> Result<
    Seq<ArgView>,
    Error,
> {
    match r {
        Ok(rest) => Ok(pre + rest),
        Err(e) => Err(e),
    }
}

/// Run two parse outcomes in order: the first error wins, otherwise the
/// emitted arguments are concatenated.
pub open spec fn chain(a: Result<Seq<ArgView>, Error>, b: Result<Seq<ArgView>, Error>) -> Result<
    Seq<ArgView>,
    Error,
> {
    match a {
        Ok(pre) => with_prefix(pre, b),
        Err(e) => Err(e),
    }
}

/// What a finished name becomes: a flag when the token was introduced by an
/// option prefix, an operand when it was a bare token.
pub open spec fn terminal(flag_context: bool, name: Seq<char>) -> ArgView {
    if flag_context {
        ArgView::Flag(name)
    } else {
        ArgView::Operand(name)
    }
}

/// The body of a long option (after `--` or `+`) or, with `flag_context`
/// false, a whole bare token.  The first character must exist and must be
/// ordinary; the rest of the walk is [`spec_long_cont`].
///
/// An empty body is an error for an option, but an empty operand for a bare
/// token (which only happens for an empty token).
pub open spec fn spec_parse_long(s: Seq<char>, flag_context: bool) -> Result<Seq<ArgView>, Error>
    decreases s.len(), s.len() + 1,
{
    if s.len() == 0 {
        if flag_context {
            Err(Error::EmptyFlag)
        } else {
            Ok(seq![ArgView::Operand(Seq::empty())])
        }
    } else if s[0] == '+' {
        Err(Error::EmptyFlag)
    } else if s[0] == '=' {
        Err(Error::EmptyAttribute)
    } else {
        spec_long_cont(s, 1, flag_context)
    }
}

/// Walk a long-option or operand body from index `j`, the name collected so
/// far being `s.take(j)`:
/// - the end of the token emits the whole body as a flag or operand;
/// - `+` emits the name as a flag and starts a fresh long-option parse on
///   the remainder, so flags chain within one token;
/// - `=` turns the name into an attribute whose value is everything after
///   the `=`, uninterpreted.
pub open spec fn spec_long_cont(s: Seq<char>, j: int, flag_context: bool) -> Result<
    Seq<ArgView>,
    Error,
>
    recommends
        1 <= j <= s.len(),
    decreases s.len(), s.len() - j,
{
    if j < 0 || j >= s.len() {
        Ok(seq![terminal(flag_context, s)])
    } else if s[j] == '+' {
        with_prefix(seq![ArgView::Flag(s.take(j))], spec_parse_long(s.skip(j + 1), true))
    } else if s[j] == '=' {
        Ok(seq![ArgView::Attribute(s.take(j), s.skip(j + 1))])
    } else {
        spec_long_cont(s, j + 1, flag_context)
    }
}

/// The body of a short-option token (after a single `-`): each character is
/// a one-character flag, except that a `=` right after a flag character
/// turns that character into an attribute whose value is the rest of the
/// token, and a leading `=` has no flag name before it.
pub open spec fn spec_parse_short(s: Seq<char>) -> Result<Seq<ArgView>, Error>
    decreases s.len(),
{
    if s.len() == 0 {
        Ok(Seq::empty())
    } else if s[0] == '=' {
        Err(Error::EmptyAttribute)
    } else if s.len() >= 2 && s[1] == '=' {
        Ok(seq![ArgView::Attribute(seq![s[0]], s.skip(2))])
    } else {
        with_prefix(seq![ArgView::Flag(seq![s[0]])], spec_parse_short(s.skip(1)))
    }
}

/// Every token of `tokens`, verbatim, as an operand.
pub open spec fn all_operands(tokens: Seq<Seq<char>>) -> Seq<ArgView> {
    tokens.map_values(|t: Seq<char>| ArgView::Operand(t))
}

/// The whole parse.  Tokens are classified in order by their leading
/// characters; a bare `-`, `--` or `+` is a terminator: it is not emitted,
/// and every later token passes through verbatim as an operand.  The first
/// error anywhere aborts the parse with no partial output.
pub open spec fn spec_parse(tokens: Seq<Seq<char>>) -> Result<Seq<ArgView>, Error>
    decreases tokens.len(),
{
    if tokens.len() == 0 {
        Ok(Seq::empty())
    } else {
        let t = tokens[0];
        let rest = tokens.skip(1);
        if t.len() == 0 {
            with_prefix(seq![ArgView::Operand(Seq::empty())], spec_parse(rest))
        } else if t[0] == '-' {
            if t.len() == 1 {
                Ok(all_operands(rest))
            } else if t[1] == '-' {
                if t.len() == 2 {
                    Ok(all_operands(rest))
                } else {
                    chain(spec_parse_long(t.skip(2), true), spec_parse(rest))
                }
            } else {
                chain(spec_parse_short(t.skip(1)), spec_parse(rest))
            }
        } else if t[0] == '+' {
            if t.len() == 1 {
                Ok(all_operands(rest))
            } else {
                chain(spec_parse_long(t.skip(1), true), spec_parse(rest))
            }
        } else {
            chain(spec_parse_long(t, false), spec_parse(rest))
        }
    }
}

/// The token views of a sequence of raw strings.
pub open spec fn token_views(tokens: Seq<String>) -> Seq<Seq<char>> {
    tokens.map_values(|t: String| t@)
}

/// Concatenating the prefixes first or second makes no difference.
pub proof fn lemma_with_prefix_assoc(a: Seq<ArgView>, b: Seq<ArgView>, r: Result<Seq<ArgView>, Error>)
    ensures
        with_prefix(a, with_prefix(b, r)) == with_prefix(a + b, r),
{
    match r {
        Ok(rest) => {
            assert(a + (b + rest) =~= (a + b) + rest);
        },
        Err(_) => {},
    }
}

} // verus!
