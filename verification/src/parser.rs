//! The classification routines: short options, long options and operands,
//! attribute values, and the top-level dispatch over the token sequence.
//!
//! Every routine's contract ties what it appends to the output vector to
//! the corresponding function of [`crate::model`].

use vstd::prelude::*;
use crate::args::{Argument, ArgView, Error, views_of};
use crate::model::{
    all_operands, lemma_with_prefix_assoc, spec_long_cont, spec_parse, spec_parse_long,
    spec_parse_short, token_views, with_prefix,
};
use crate::scanner::CharIter;

verus! {

/// Consume every remaining character of the token, uninterpreted, as the
/// value of an attribute named `attribute`.
fn parse_attribute_value(
    arguments: &mut Vec<Argument>,
    iter: &mut CharIter<'_>,
    attribute: String,
) -> (r: Result<(), Error>)
    requires
        old(iter).wf(),
    ensures
        final(iter).wf(),
        r is Ok,
        views_of(final(arguments)@) == views_of(old(arguments)@).push(
            ArgView::Attribute(attribute@, old(iter).remaining()),
        ),
{
    let ghost att: Seq<char> = attribute@;
    let from = iter.pos();
    let end = iter.token_len();
    let value = iter.substring(from, end);
    proof {
        assert(value@ =~= old(iter).remaining());
    }
    iter.skip_to_end();
    arguments.push(Argument::Attribute(attribute, value));
    proof {
        assert(views_of(arguments@) =~= views_of(old(arguments)@).push(
            ArgView::Attribute(att, old(iter).remaining()),
        ));
    }
    Ok(())
}

/// Decompose the rest of a `-` token into one-character flags, the last of
/// which may instead name an attribute when a `=` follows it.
#[verifier::loop_isolation(false)]
fn parse_short_options(arguments: &mut Vec<Argument>, iter: &mut CharIter<'_>) -> (r: Result<
    (),
    Error,
>)
    requires
        old(iter).wf(),
    ensures
        final(iter).wf(),
        match r {
            Ok(_) => spec_parse_short(old(iter).remaining()) is Ok && views_of(final(arguments)@)
                == views_of(old(arguments)@) + spec_parse_short(old(iter).remaining())->Ok_0,
            Err(e) => spec_parse_short(old(iter).remaining()) == Err::<Seq<ArgView>, Error>(e),
        },
{
    let ghost s0: Seq<char> = old(iter).remaining();
    let ghost args0: Seq<Argument> = old(arguments)@;
    loop
        invariant
            iter.wf(),
            iter.spec_token() == old(iter).spec_token(),
            old(iter).spec_pos() <= iter.spec_pos(),
            views_of(arguments@).take(args0.len() as int) == views_of(args0),
            args0.len() <= arguments@.len(),
            spec_parse_short(s0) == with_prefix(
                views_of(arguments@).skip(args0.len() as int),
                spec_parse_short(iter.remaining()),
            ),
        decreases iter.remaining().len(),
    {
        let ghost s: Seq<char> = iter.remaining();
        let ghost emitted: Seq<ArgView> = views_of(arguments@).skip(args0.len() as int);
        proof {
            assert(views_of(arguments@) =~= views_of(args0) + emitted);
        }
        let p = iter.pos();
        match iter.current() {
            None => {
                proof {
                    assert(emitted + Seq::<ArgView>::empty() =~= emitted);
                }
                return Ok(());
            },
            Some(c) => {
                iter.next();
                if c == '=' {
                    return Err(Error::EmptyAttribute);
                }
                let name = iter.substring(p, p + 1);
                proof {
                    assert(name@ =~= seq![c]);
                }
                match iter.current() {
                    Some(d) => {
                        if d == '=' {
                            iter.next();
                            proof {
                                assert(iter.remaining() =~= s.skip(2));
                                assert(spec_parse_short(s) == Ok::<_, Error>(
                                    seq![ArgView::Attribute(seq![s[0]], s.skip(2))],
                                ));
                            }
                            let res = parse_attribute_value(arguments, iter, name);
                            proof {
                                assert(views_of(arguments@) =~= views_of(args0) + (emitted
                                    + seq![ArgView::Attribute(seq![s[0]], s.skip(2))]));
                                assert(spec_parse_short(s0) == Ok::<_, Error>(
                                    emitted + seq![ArgView::Attribute(seq![s[0]], s.skip(2))],
                                ));
                            }
                            return res;
                        } else {
                            arguments.push(Argument::Flag(name));
                            proof {
                                assert(views_of(arguments@).skip(args0.len() as int) =~= emitted
                                    + seq![ArgView::Flag(seq![s[0]])]);
                                assert(views_of(arguments@).take(args0.len() as int) =~= views_of(
                                    args0,
                                ));
                                lemma_with_prefix_assoc(
                                    emitted,
                                    seq![ArgView::Flag(seq![s[0]])],
                                    spec_parse_short(iter.remaining()),
                                );
                            }
                        }
                    },
                    None => {
                        arguments.push(Argument::Flag(name));
                        proof {
                            assert(s.skip(1) =~= Seq::<char>::empty());
                            assert(emitted.push(ArgView::Flag(seq![s[0]])) =~= emitted
                                + seq![ArgView::Flag(seq![s[0]])]);
                            assert(views_of(arguments@) =~= views_of(args0) + (emitted
                                + seq![ArgView::Flag(seq![s[0]])]));
                            assert(spec_parse_short(s0) == Ok::<_, Error>(
                                emitted + seq![ArgView::Flag(seq![s[0]])],
                            ));
                        }
                        return Ok(());
                    },
                }
            },
        }
    }
}

/// Parse a long option: a name, then optionally a `+`-chained further
/// option or a `=`-introduced attribute value.
#[verifier::loop_isolation(false)]
fn parse_option(arguments: &mut Vec<Argument>, iter: &mut CharIter<'_>) -> (r: Result<(), Error>)
    requires
        old(iter).wf(),
    ensures
        final(iter).wf(),
        match r {
            Ok(_) => spec_parse_long(old(iter).remaining(), true) is Ok && views_of(
                final(arguments)@,
            ) == views_of(old(arguments)@) + spec_parse_long(old(iter).remaining(), true)->Ok_0,
            Err(e) => spec_parse_long(old(iter).remaining(), true) == Err::<Seq<ArgView>, Error>(e),
        },
    decreases old(iter).remaining().len(),
{
    let ghost s0: Seq<char> = old(iter).remaining();
    let start = iter.pos();
    let c = match iter.current() {
        None => {
            return Err(Error::EmptyFlag);
        },
        Some(c) => c,
    };
    if c == '+' {
        return Err(Error::EmptyFlag);
    }
    if c == '=' {
        return Err(Error::EmptyAttribute);
    }
    iter.next();
    loop
        invariant
            iter.wf(),
            iter.spec_token() == old(iter).spec_token(),
            start == old(iter).spec_pos(),
            start + 1 <= iter.spec_pos() <= iter.spec_token().len(),
            arguments@ == old(arguments)@,
            spec_parse_long(s0, true) == spec_long_cont(s0, iter.spec_pos() - start, true),
        decreases iter.remaining().len(),
    {
        let p = iter.pos();
        let ghost j: int = p - start;
        proof {
            assert(iter.remaining() =~= s0.skip(j));
        }
        match iter.current() {
            None => {
                let name = iter.substring(start, p);
                proof {
                    assert(name@ =~= s0);
                }
                arguments.push(Argument::Flag(name));
                proof {
                    assert(views_of(arguments@) =~= views_of(old(arguments)@)
                        + seq![ArgView::Flag(s0)]);
                }
                return Ok(());
            },
            Some(c2) => {
                iter.next();
                if c2 == '+' {
                    let name = iter.substring(start, p);
                    proof {
                        assert(name@ =~= s0.take(j));
                    }
                    arguments.push(Argument::Flag(name));
                    let ghost before: Seq<Argument> = arguments@;
                    proof {
                        assert(iter.remaining() =~= s0.skip(j + 1));
                        assert(views_of(before) =~= views_of(old(arguments)@)
                            + seq![ArgView::Flag(s0.take(j))]);
                    }
                    let res = parse_option(arguments, iter);
                    proof {
                        if res is Ok {
                            assert(views_of(arguments@) =~= views_of(old(arguments)@) + (seq![
                                ArgView::Flag(s0.take(j)),
                            ] + spec_parse_long(s0.skip(j + 1), true)->Ok_0));
                        }
                    }
                    return res;
                } else if c2 == '=' {
                    let name = iter.substring(start, p);
                    proof {
                        assert(name@ =~= s0.take(j));
                        assert(iter.remaining() =~= s0.skip(j + 1));
                    }
                    let res = parse_attribute_value(arguments, iter, name);
                    proof {
                        assert(views_of(arguments@) =~= views_of(old(arguments)@) + seq![
                            ArgView::Attribute(s0.take(j), s0.skip(j + 1)),
                        ]);
                    }
                    return res;
                }
            },
        }
    }
}

/// Parse a bare token: an operand, unless a `+` or `=` inside it turns the
/// leading name into a flag chain or an attribute.
#[verifier::loop_isolation(false)]
fn parse_argument(arguments: &mut Vec<Argument>, iter: &mut CharIter<'_>) -> (r: Result<(), Error>)
    requires
        old(iter).wf(),
    ensures
        final(iter).wf(),
        match r {
            Ok(_) => spec_parse_long(old(iter).remaining(), false) is Ok && views_of(
                final(arguments)@,
            ) == views_of(old(arguments)@) + spec_parse_long(old(iter).remaining(), false)->Ok_0,
            Err(e) => spec_parse_long(old(iter).remaining(), false) == Err::<
                Seq<ArgView>,
                Error,
            >(e),
        },
{
    let ghost s0: Seq<char> = old(iter).remaining();
    let start = iter.pos();
    let c = match iter.current() {
        None => {
            arguments.push(Argument::Operand(String::new()));
            proof {
                assert(s0 =~= Seq::<char>::empty());
                assert(views_of(arguments@) =~= views_of(old(arguments)@)
                    + seq![ArgView::Operand(Seq::empty())]);
            }
            return Ok(());
        },
        Some(c) => c,
    };
    if c == '+' {
        return Err(Error::EmptyFlag);
    }
    if c == '=' {
        return Err(Error::EmptyAttribute);
    }
    iter.next();
    loop
        invariant
            iter.wf(),
            iter.spec_token() == old(iter).spec_token(),
            start == old(iter).spec_pos(),
            start + 1 <= iter.spec_pos() <= iter.spec_token().len(),
            arguments@ == old(arguments)@,
            spec_parse_long(s0, false) == spec_long_cont(s0, iter.spec_pos() - start, false),
        decreases iter.remaining().len(),
    {
        let p = iter.pos();
        let ghost j: int = p - start;
        proof {
            assert(iter.remaining() =~= s0.skip(j));
        }
        match iter.current() {
            None => {
                let name = iter.substring(start, p);
                proof {
                    assert(name@ =~= s0);
                }
                arguments.push(Argument::Operand(name));
                proof {
                    assert(views_of(arguments@) =~= views_of(old(arguments)@)
                        + seq![ArgView::Operand(s0)]);
                }
                return Ok(());
            },
            Some(c2) => {
                iter.next();
                if c2 == '+' {
                    let name = iter.substring(start, p);
                    proof {
                        assert(name@ =~= s0.take(j));
                    }
                    arguments.push(Argument::Flag(name));
                    let ghost before: Seq<Argument> = arguments@;
                    proof {
                        assert(iter.remaining() =~= s0.skip(j + 1));
                        assert(views_of(before) =~= views_of(old(arguments)@)
                            + seq![ArgView::Flag(s0.take(j))]);
                    }
                    let res = parse_option(arguments, iter);
                    proof {
                        if res is Ok {
                            assert(views_of(arguments@) =~= views_of(old(arguments)@) + (seq![
                                ArgView::Flag(s0.take(j)),
                            ] + spec_parse_long(s0.skip(j + 1), true)->Ok_0));
                        }
                    }
                    return res;
                } else if c2 == '=' {
                    let name = iter.substring(start, p);
                    proof {
                        assert(name@ =~= s0.take(j));
                        assert(iter.remaining() =~= s0.skip(j + 1));
                    }
                    let res = parse_attribute_value(arguments, iter, name);
                    proof {
                        assert(views_of(arguments@) =~= views_of(old(arguments)@) + seq![
                            ArgView::Attribute(s0.take(j), s0.skip(j + 1)),
                        ]);
                    }
                    return res;
                }
            },
        }
    }
}

/// Append every token of `args` from position `from` on, verbatim, as an
/// operand.
#[verifier::loop_isolation(false)]
fn push_operands(arguments: &mut Vec<Argument>, args: &Vec<String>, from: usize)
    requires
        from <= args@.len(),
    ensures
        views_of(final(arguments)@) == views_of(old(arguments)@) + all_operands(
            token_views(args@).skip(from as int),
        ),
{
    let ghost args0: Seq<Argument> = old(arguments)@;
    let n = args.len();
    let mut j = from;
    while j < n
        invariant
            from <= j <= n,
            views_of(arguments@) == views_of(args0) + all_operands(
                token_views(args@).subrange(from as int, j as int),
            ),
        decreases n - j,
    {
        let ghost before: Seq<Argument> = arguments@;
        let token = args[j].clone();
        arguments.push(Argument::Operand(token));
        proof {
            assert(token_views(args@)[j as int] == args@[j as int]@);
            assert(views_of(arguments@) =~= views_of(before).push(
                ArgView::Operand(token_views(args@)[j as int]),
            ));
            assert(views_of(arguments@) =~= views_of(args0) + all_operands(
                token_views(args@).subrange(from as int, j as int + 1),
            ));
        }
        j = j + 1;
    }
    proof {
        assert(token_views(args@).subrange(from as int, n as int) =~= token_views(args@).skip(
            from as int,
        ));
    }
}

/// Parse command line arguments.
///
/// Each token is classified by its leading characters: `-` introduces short
/// options, `--` and `+` introduce long options, anything else is an
/// operand (which may still chain into flags or an attribute).  A bare `-`,
/// `--` or `+` terminates classification and every later token passes
/// through verbatim as an operand.  The first argument is often the command
/// or binary name; it is classified like any other token.
///
/// The result is exactly what [`spec_parse`] describes: the full argument
/// sequence, or the first error with no partial output.
#[verifier::loop_isolation(false)]
pub fn parse_arguments(args: Vec<String>) -> (r: Result<Vec<Argument>, Error>)
    ensures
        match r {
            Ok(out) => spec_parse(token_views(args@)) is Ok && views_of(out@) == spec_parse(
                token_views(args@),
            )->Ok_0,
            Err(e) => spec_parse(token_views(args@)) == Err::<Seq<ArgView>, Error>(e),
        },
{
    let ghost toks: Seq<Seq<char>> = token_views(args@);
    let mut arguments: Vec<Argument> = Vec::new();
    let n = args.len();
    let mut i: usize = 0;
    proof {
        assert(views_of(arguments@) =~= Seq::<ArgView>::empty());
        assert(toks.skip(0) =~= toks);
        if spec_parse(toks) is Ok {
            assert(Seq::<ArgView>::empty() + spec_parse(toks)->Ok_0 =~= spec_parse(toks)->Ok_0);
        }
    }
    loop
        invariant
            i <= n,
            spec_parse(toks) == with_prefix(views_of(arguments@), spec_parse(toks.skip(i as int))),
        decreases n - i,
    {
        if i >= n {
            proof {
                assert(toks.skip(i as int) =~= Seq::<Seq<char>>::empty());
                assert(views_of(arguments@) + Seq::<ArgView>::empty() =~= views_of(arguments@));
            }
            return Ok(arguments);
        }
        let ghost t: Seq<char> = toks[i as int];
        let ghost rest: Seq<Seq<char>> = toks.skip(i as int + 1);
        let ghost v0: Seq<ArgView> = views_of(arguments@);
        proof {
            assert(toks.skip(i as int)[0] == t);
            assert(toks.skip(i as int).skip(1) =~= rest);
        }
        let mut iter = CharIter::new(args[i].as_str());
        match iter.current() {
            None => {
                arguments.push(Argument::Operand(String::new()));
                proof {
                    assert(views_of(arguments@) =~= v0 + seq![ArgView::Operand(Seq::empty())]);
                    lemma_with_prefix_assoc(
                        v0,
                        seq![ArgView::Operand(Seq::empty())],
                        spec_parse(rest),
                    );
                }
            },
            Some(c) => {
                if c == '-' {
                    iter.next();
                    match iter.current() {
                        None => {
                            push_operands(&mut arguments, &args, i + 1);
                            return Ok(arguments);
                        },
                        Some(d) => {
                            if d == '-' {
                                iter.next();
                                match iter.current() {
                                    None => {
                                        push_operands(&mut arguments, &args, i + 1);
                                        return Ok(arguments);
                                    },
                                    Some(_) => {
                                        proof {
                                            assert(iter.remaining() =~= t.skip(2));
                                        }
                                        let res = parse_option(&mut arguments, &mut iter);
                                        if let Err(e) = res {
                                            return Err(e);
                                        }
                                        proof {
                                            lemma_with_prefix_assoc(
                                                v0,
                                                spec_parse_long(t.skip(2), true)->Ok_0,
                                                spec_parse(rest),
                                            );
                                        }
                                    },
                                }
                            } else {
                                proof {
                                    assert(iter.remaining() =~= t.skip(1));
                                }
                                let res = parse_short_options(&mut arguments, &mut iter);
                                if let Err(e) = res {
                                    return Err(e);
                                }
                                proof {
                                    lemma_with_prefix_assoc(
                                        v0,
                                        spec_parse_short(t.skip(1))->Ok_0,
                                        spec_parse(rest),
                                    );
                                }
                            }
                        },
                    }
                } else if c == '+' {
                    iter.next();
                    match iter.current() {
                        None => {
                            push_operands(&mut arguments, &args, i + 1);
                            return Ok(arguments);
                        },
                        Some(_) => {
                            proof {
                                assert(iter.remaining() =~= t.skip(1));
                            }
                            let res = parse_option(&mut arguments, &mut iter);
                            if let Err(e) = res {
                                return Err(e);
                            }
                            proof {
                                lemma_with_prefix_assoc(
                                    v0,
                                    spec_parse_long(t.skip(1), true)->Ok_0,
                                    spec_parse(rest),
                                );
                            }
                        },
                    }
                } else {
                    let res = parse_argument(&mut arguments, &mut iter);
                    if let Err(e) = res {
                        return Err(e);
                    }
                    proof {
                        lemma_with_prefix_assoc(
                            v0,
                            spec_parse_long(t, false)->Ok_0,
                            spec_parse(rest),
                        );
                    }
                }
            },
        }
        i = i + 1;
    }
}

} // verus!
