//! Laws of the parse, proved against [`crate::model::spec_parse`].
//!
//! Each proof function states one guarantee of the tokenizer for whole
//! families of inputs; [`crate::parser::parse_arguments`] returns exactly
//! `spec_parse` of its input, so these laws carry over to every call.

use vstd::prelude::*;
use crate::args::ArgView;
use crate::args::Error;
use crate::model::{all_operands, spec_long_cont, spec_parse, spec_parse_long, spec_parse_short};

verus! {

/// Walking a long-option or operand body over ordinary characters (no `+`,
/// no `=`) neither emits nor fails: it only lengthens the collected name.
proof fn lemma_long_cont_steps(s: Seq<char>, j: int, k: int, flag_context: bool)
    requires
        1 <= j <= k <= s.len(),
        forall|i: int| j <= i < k ==> s[i] != '+' && s[i] != '=',
    ensures
        spec_long_cont(s, j, flag_context) == spec_long_cont(s, k, flag_context),
    decreases k - j,
{
    if j < k {
        lemma_long_cont_steps(s, j + 1, k, flag_context);
    }
}

/// A single token that starts with no option prefix and holds no `+` and
/// no `=` parses to exactly one operand: the token itself, verbatim.
pub proof fn lemma_plain_operand(t: Seq<char>)
    requires
        forall|i: int| 0 <= i < t.len() ==> t[i] != '+' && t[i] != '=',
        t.len() > 0 ==> t[0] != '-' && t[0] != '+',
    ensures
        spec_parse(seq![t]) == Ok::<Seq<ArgView>, Error>(seq![ArgView::Operand(t)]),
{
    let tokens = seq![t];
    assert(tokens.skip(1) =~= Seq::<Seq<char>>::empty());
    assert(spec_parse(Seq::<Seq<char>>::empty()) == Ok::<Seq<ArgView>, Error>(Seq::empty()));
    if t.len() == 0 {
        assert(t =~= Seq::<char>::empty());
        assert(seq![ArgView::Operand(t)] + Seq::<ArgView>::empty() =~= seq![ArgView::Operand(t)]);
    } else {
        lemma_long_cont_steps(t, 1, t.len() as int, false);
        assert(spec_parse_long(t, false) == Ok::<Seq<ArgView>, Error>(seq![ArgView::Operand(t)]));
        assert(seq![ArgView::Operand(t)] + Seq::<ArgView>::empty() =~= seq![ArgView::Operand(t)]);
    }
}

/// A dash followed by one character that is neither `-` (which would make
/// the token a terminator) nor `=` (which would leave the attribute
/// nameless) parses to exactly one one-character flag.
pub proof fn lemma_short_flag(c: char)
    requires
        c != '-',
        c != '=',
    ensures
        spec_parse(seq![seq!['-', c]]) == Ok::<Seq<ArgView>, Error>(
            seq![ArgView::Flag(seq![c])],
        ),
{
    let t = seq!['-', c];
    let tokens = seq![t];
    assert(tokens.skip(1) =~= Seq::<Seq<char>>::empty());
    assert(spec_parse(Seq::<Seq<char>>::empty()) == Ok::<Seq<ArgView>, Error>(Seq::empty()));
    assert(t.skip(1) =~= seq![c]);
    assert(seq![c].skip(1) =~= Seq::<char>::empty());
    assert(spec_parse_short(Seq::<char>::empty()) == Ok::<Seq<ArgView>, Error>(Seq::empty()));
    assert(spec_parse_short(seq![c]) == Ok::<Seq<ArgView>, Error>(seq![ArgView::Flag(seq![c])]));
    assert(seq![ArgView::Flag(seq![c])] + Seq::<ArgView>::empty() =~= seq![ArgView::Flag(seq![c])]);
}

/// A non-empty name with no `+` and no `=` parses to exactly one flag
/// carrying that name, whether written `--name` or `+name`.
pub proof fn lemma_long_flag(n: Seq<char>)
    requires
        n.len() > 0,
        forall|i: int| 0 <= i < n.len() ==> n[i] != '+' && n[i] != '=',
    ensures
        spec_parse(seq![seq!['-', '-'] + n]) == Ok::<Seq<ArgView>, Error>(seq![ArgView::Flag(n)]),
        spec_parse(seq![seq!['+'] + n]) == Ok::<Seq<ArgView>, Error>(seq![ArgView::Flag(n)]),
{
    assert(spec_parse(Seq::<Seq<char>>::empty()) == Ok::<Seq<ArgView>, Error>(Seq::empty()));
    lemma_long_cont_steps(n, 1, n.len() as int, true);
    assert(spec_parse_long(n, true) == Ok::<Seq<ArgView>, Error>(seq![ArgView::Flag(n)]));
    assert(seq![ArgView::Flag(n)] + Seq::<ArgView>::empty() =~= seq![ArgView::Flag(n)]);

    let td = seq!['-', '-'] + n;
    assert(seq![td].skip(1) =~= Seq::<Seq<char>>::empty());
    assert(td.len() == n.len() + 2);
    assert(td[0] == '-' && td[1] == '-');
    assert(td.skip(2) =~= n);

    let tp = seq!['+'] + n;
    assert(seq![tp].skip(1) =~= Seq::<Seq<char>>::empty());
    assert(tp[0] == '+' && tp.len() == n.len() + 1);
    assert(tp.skip(1) =~= n);
}

/// `--name=value` parses to exactly one attribute: the name is everything
/// before the first `=`, the value everything after it, verbatim — the
/// value may be empty and may itself hold `=` or `+`.
pub proof fn lemma_attribute(n: Seq<char>, v: Seq<char>)
    requires
        n.len() > 0,
        forall|i: int| 0 <= i < n.len() ==> n[i] != '+' && n[i] != '=',
    ensures
        spec_parse(seq![seq!['-', '-'] + n + seq!['='] + v]) == Ok::<Seq<ArgView>, Error>(
            seq![ArgView::Attribute(n, v)],
        ),
{
    let t = seq!['-', '-'] + n + seq!['='] + v;
    let s = n + seq!['='] + v;
    assert(seq![t].skip(1) =~= Seq::<Seq<char>>::empty());
    assert(spec_parse(Seq::<Seq<char>>::empty()) == Ok::<Seq<ArgView>, Error>(Seq::empty()));
    assert(t.len() == n.len() + v.len() + 3);
    assert(t[0] == '-' && t[1] == '-');
    assert(t.skip(2) =~= s);
    assert(s[0] == n[0]);
    lemma_long_cont_steps(s, 1, n.len() as int, true);
    assert(s[n.len() as int] == '=');
    assert(s.take(n.len() as int) =~= n);
    assert(s.skip(n.len() as int + 1) =~= v);
    assert(spec_parse_long(s, true) == Ok::<Seq<ArgView>, Error>(seq![ArgView::Attribute(n, v)]));
    assert(seq![ArgView::Attribute(n, v)] + Seq::<ArgView>::empty() =~= seq![
        ArgView::Attribute(n, v),
    ]);
}

/// After a terminator token — a bare `-`, `--` or `+` — every remaining
/// token passes through verbatim as an operand, with no classification
/// and no chance of an error, and the terminator itself is not emitted.
pub proof fn lemma_terminator(t: Seq<char>, rest: Seq<Seq<char>>)
    requires
        t == seq!['-'] || t == seq!['-', '-'] || t == seq!['+'],
    ensures
        spec_parse(seq![t] + rest) == Ok::<Seq<ArgView>, Error>(all_operands(rest)),
{
    let tokens = seq![t] + rest;
    assert(tokens[0] == t);
    assert(tokens.skip(1) =~= rest);
}

/// The parse is a pure function of the token sequence: it has no hidden
/// state, so re-running it on the same input yields an equal outcome.
pub proof fn lemma_parse_repeatable(
    tokens: Seq<Seq<char>>,
    r1: Result<Seq<ArgView>, Error>,
    r2: Result<Seq<ArgView>, Error>,
)
    requires
        r1 == spec_parse(tokens),
        r2 == spec_parse(tokens),
    ensures
        r1 == r2,
{
}

} // verus!
