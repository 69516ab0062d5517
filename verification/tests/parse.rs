//! Behavioural tests for the tokenizer, exercised through `parse_arguments`.

use argtok::parse_arguments;
use argtok::Argument;
use argtok::Error;

fn toks(v: &[&str]) -> Vec<String> {
    v.iter().map(|s| s.to_string()).collect()
}

fn op(s: &str) -> Argument {
    Argument::Operand(s.to_string())
}

fn flag(s: &str) -> Argument {
    Argument::Flag(s.to_string())
}

fn attr(n: &str, v: &str) -> Argument {
    Argument::Attribute(n.to_string(), v.to_string())
}

#[test]
fn empty_input_yields_nothing() {
    assert_eq!(parse_arguments(toks(&[])).unwrap(), vec![]);
}

#[test]
fn operand_plain() {
    assert_eq!(parse_arguments(toks(&["hello"])).unwrap(), vec![op("hello")]);
}

#[test]
fn empty_token_is_operand() {
    assert_eq!(parse_arguments(toks(&[""])).unwrap(), vec![op("")]);
}

#[test]
fn program_name_is_classified_like_any_token() {
    assert_eq!(
        parse_arguments(toks(&["prog", "-v"])).unwrap(),
        vec![op("prog"), flag("v")]
    );
}

#[test]
fn short_flag_single() {
    assert_eq!(parse_arguments(toks(&["-x"])).unwrap(), vec![flag("x")]);
}

#[test]
fn short_bundle() {
    assert_eq!(
        parse_arguments(toks(&["-abc"])).unwrap(),
        vec![flag("a"), flag("b"), flag("c")]
    );
}

#[test]
fn short_bundle_trailing_attribute() {
    assert_eq!(
        parse_arguments(toks(&["-ab=val"])).unwrap(),
        vec![flag("a"), attr("b", "val")]
    );
}

#[test]
fn short_attribute_value_is_uninterpreted() {
    assert_eq!(
        parse_arguments(toks(&["-a=b=c"])).unwrap(),
        vec![attr("a", "b=c")]
    );
}

#[test]
fn short_attribute_empty_value() {
    assert_eq!(parse_arguments(toks(&["-a="])).unwrap(), vec![attr("a", "")]);
}

#[test]
fn long_flag_double_dash() {
    assert_eq!(parse_arguments(toks(&["--name"])).unwrap(), vec![flag("name")]);
}

#[test]
fn long_flag_plus() {
    assert_eq!(parse_arguments(toks(&["+name"])).unwrap(), vec![flag("name")]);
}

#[test]
fn long_name_may_hold_dashes() {
    assert_eq!(parse_arguments(toks(&["---x"])).unwrap(), vec![flag("-x")]);
}

#[test]
fn attribute_basic() {
    assert_eq!(
        parse_arguments(toks(&["--key=value"])).unwrap(),
        vec![attr("key", "value")]
    );
}

#[test]
fn attribute_empty_value() {
    assert_eq!(parse_arguments(toks(&["--key="])).unwrap(), vec![attr("key", "")]);
}

#[test]
fn attribute_value_may_hold_specials() {
    assert_eq!(
        parse_arguments(toks(&["--k=a=b+c"])).unwrap(),
        vec![attr("k", "a=b+c")]
    );
}

#[test]
fn chained_flags() {
    assert_eq!(
        parse_arguments(toks(&["--a+b+c"])).unwrap(),
        vec![flag("a"), flag("b"), flag("c")]
    );
}

#[test]
fn chain_ends_in_attribute() {
    assert_eq!(
        parse_arguments(toks(&["--a+b=v"])).unwrap(),
        vec![flag("a"), attr("b", "v")]
    );
}

#[test]
fn operand_chains_into_flags() {
    assert_eq!(
        parse_arguments(toks(&["a+b"])).unwrap(),
        vec![flag("a"), flag("b")]
    );
}

#[test]
fn operand_with_equals_is_attribute() {
    assert_eq!(
        parse_arguments(toks(&["key=value"])).unwrap(),
        vec![attr("key", "value")]
    );
}

#[test]
fn terminator_double_dash() {
    assert_eq!(
        parse_arguments(toks(&["--foo", "--", "-x", "plain"])).unwrap(),
        vec![flag("foo"), op("-x"), op("plain")]
    );
}

#[test]
fn terminator_single_dash() {
    assert_eq!(parse_arguments(toks(&["-", "--x"])).unwrap(), vec![op("--x")]);
}

#[test]
fn terminator_bare_plus() {
    assert_eq!(parse_arguments(toks(&["+", "-y"])).unwrap(), vec![op("-y")]);
}

#[test]
fn terminator_alone_yields_nothing() {
    assert_eq!(parse_arguments(toks(&["--"])).unwrap(), vec![]);
}

#[test]
fn error_short_empty_attribute() {
    assert_eq!(parse_arguments(toks(&["-="])), Err(Error::EmptyAttribute));
}

#[test]
fn error_long_empty_attribute() {
    assert_eq!(parse_arguments(toks(&["--="])), Err(Error::EmptyAttribute));
}

#[test]
fn error_plus_empty_attribute() {
    assert_eq!(parse_arguments(toks(&["+="])), Err(Error::EmptyAttribute));
}

#[test]
fn error_bare_equals_token() {
    assert_eq!(parse_arguments(toks(&["=x"])), Err(Error::EmptyAttribute));
}

#[test]
fn error_chain_with_nothing_after_it() {
    assert_eq!(parse_arguments(toks(&["--a+"])), Err(Error::EmptyFlag));
}

#[test]
fn error_long_leading_plus() {
    assert_eq!(parse_arguments(toks(&["--+x"])), Err(Error::EmptyFlag));
}

#[test]
fn error_aborts_whole_parse() {
    assert_eq!(
        parse_arguments(toks(&["fine", "--ok", "--="])),
        Err(Error::EmptyAttribute)
    );
}

#[test]
fn reparse_same_input_is_equal() {
    let input = &["prog", "-ab=1", "--list+verbose", "x", "--", "-z"][..];
    let first = parse_arguments(toks(input));
    let second = parse_arguments(toks(input));
    assert_eq!(first, second);
}

#[test]
fn unicode_attribute() {
    assert_eq!(
        parse_arguments(toks(&["--héllo=wörld"])).unwrap(),
        vec![attr("héllo", "wörld")]
    );
}

#[test]
fn unicode_short_bundle() {
    assert_eq!(
        parse_arguments(toks(&["-äb"])).unwrap(),
        vec![flag("ä"), flag("b")]
    );
}

#[test]
fn mixed_sequence() {
    assert_eq!(
        parse_arguments(toks(&["cmd", "-vf=log", "+force", "input.txt", "--out=a b", ""])).unwrap(),
        vec![
            op("cmd"),
            flag("v"),
            attr("f", "log"),
            flag("force"),
            op("input.txt"),
            attr("out", "a b"),
            op(""),
        ]
    );
}
