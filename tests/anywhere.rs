use bpaf::parser::{run_inner, Grammar, Value};

fn grammar(catch: bool, optional: bool) -> Grammar {
    let a = Grammar::short('a');
    let b = Grammar::positional("x", true);
    let mut ab = a.pair(b).anywhere();
    if catch {
        ab = ab.catch();
    }
    if optional {
        ab = ab.optional();
    }
    let c = Grammar::switch('c');
    ab.pair(c)
}

fn err(g: &Grammar, args: &[&str]) -> String {
    run_inner(g, &args.to_vec()).unwrap_err()
}

#[test]
fn parse_anywhere_no_catch() {
    let parser = grammar(false, false);
    assert_eq!(
        err(&parser, &["-a"]),
        "Expected <x>, got \"-a\". Pass --help for usage information"
    );
    assert_eq!(
        err(&parser, &["-a", "221b"]),
        "Couldn't parse \"221b\": invalid digit found in string"
    );
    assert_eq!(
        err(&parser, &["-c", "-a"]),
        "Expected <x>, got \"-c\". Pass --help for usage information"
    );
    assert_eq!(
        err(&parser, &["-c", "-a", "221b"]),
        "Couldn't parse \"221b\": invalid digit found in string"
    );
    assert_eq!(err(&parser, &["-a", "-c"]), "Expected an argument <x>, got -c");
    assert_eq!(
        err(&parser, &["-a", "221b", "-c"]),
        "Couldn't parse \"221b\": invalid digit found in string"
    );
    assert_eq!(
        err(&parser, &["3", "-a"]),
        "Expected <x>, got \"3\". Pass --help for usage information"
    );
}

#[test]
fn parse_anywhere_catch_required() {
    let parser = grammar(true, false);
    assert_eq!(
        err(&parser, &["-a"]),
        "Expected <x>, got \"-a\". Pass --help for usage information"
    );
    assert_eq!(
        err(&parser, &["-a", "221b"]),
        "Expected -a x, got \"-a\". Pass --help for usage information"
    );
    assert_eq!(
        err(&parser, &["-c", "-a"]),
        "Expected <x>, got \"-c\". Pass --help for usage information"
    );
    assert_eq!(
        err(&parser, &["-c", "-a", "221b"]),
        "Expected -a x, got \"-c\". Pass --help for usage information"
    );
    assert_eq!(
        err(&parser, &["-a", "-c"]),
        "Expected -a x, got \"-a\". Pass --help for usage information"
    );
    assert_eq!(
        err(&parser, &["-a", "221b", "-c"]),
        "Expected -a x, got \"-a\". Pass --help for usage information"
    );
    assert_eq!(
        err(&parser, &["3", "-a"]),
        "Expected <x>, got \"3\". Pass --help for usage information"
    );
}

#[test]
fn parse_anywhere_catch_optional() {
    let parser = grammar(true, true);
    assert_eq!(err(&parser, &["-a"]), "-a is not expected in this context");
    assert_eq!(err(&parser, &["-a", "221b"]), "-a is not expected in this context");
    assert_eq!(err(&parser, &["-c", "-a"]), "-a is not expected in this context");
    assert_eq!(err(&parser, &["-c", "-a", "221b"]), "-a is not expected in this context");
    assert_eq!(err(&parser, &["-a", "-c"]), "-a is not expected in this context");
    assert_eq!(err(&parser, &["-a", "221b", "-c"]), "-a is not expected in this context");
    assert_eq!(err(&parser, &["3", "-a"]), "3 is not expected in this context");
}

#[test]
fn anywhere_matches_after_positional_and_switch() {
    let parser = grammar(false, false);
    let v = run_inner(&parser, &vec!["-c", "-a", "42"]).unwrap();
    assert_eq!(
        v,
        Value::Pair(
            Box::new(Value::Pair(Box::new(Value::Unit), Box::new(Value::Num(42)))),
            Box::new(Value::Bool(true))
        )
    );
}

#[test]
fn optional_anywhere_absent() {
    let parser = grammar(true, true);
    let v = run_inner(&parser, &vec!["-c"]).unwrap();
    assert_eq!(
        v,
        Value::Pair(Box::new(Value::Absent), Box::new(Value::Bool(true)))
    );
}

#[test]
fn alternative_prefers_left() {
    let g = Grammar::switch('a').or_else(Grammar::positional("x", false));
    assert_eq!(run_inner(&g, &vec![]).unwrap(), Value::Bool(false));
    let g = Grammar::short('a').or_else(Grammar::positional("x", false));
    assert_eq!(run_inner(&g, &vec!["-a"]).unwrap(), Value::Unit);
    assert_eq!(run_inner(&g, &vec!["f"]).unwrap(), Value::Arg(0));
    assert_eq!(
        run_inner(&g, &vec![]).unwrap_err(),
        "Expected -a, pass --help for usage information"
    );
}

#[test]
fn many_stops_after_empty_success() {
    let g = Grammar::switch('v').many();
    let v = run_inner(&g, &vec!["-v", "-v"]).unwrap();
    assert_eq!(
        v,
        Value::Cons(
            Box::new(Value::Bool(true)),
            Box::new(Value::Cons(
                Box::new(Value::Bool(true)),
                Box::new(Value::Cons(Box::new(Value::Bool(false)), Box::new(Value::Nil)))
            ))
        )
    );
}

#[test]
fn many_positionals() {
    let g = Grammar::positional("n", true).many();
    let v = run_inner(&g, &vec!["1", "+2"]).unwrap();
    assert_eq!(
        v,
        Value::Cons(
            Box::new(Value::Num(1)),
            Box::new(Value::Cons(Box::new(Value::Num(2)), Box::new(Value::Nil)))
        )
    );
    assert_eq!(
        run_inner(&g, &vec!["1", "18446744073709551616"]).unwrap_err(),
        "Couldn't parse \"18446744073709551616\": number too large to fit in target type"
    );
    assert_eq!(
        run_inner(&g, &vec![""]).unwrap_err(),
        "Couldn't parse \"\": cannot parse integer from empty string"
    );
}

#[test]
fn leftover_argument_is_unexpected() {
    let g = Grammar::switch('v');
    assert_eq!(
        run_inner(&g, &vec!["-q"]).unwrap_err(),
        "-q is not expected in this context"
    );
}

#[test]
fn guard_rejects_large_number() {
    let g = Grammar::positional("n", true).guard(10, "too big");
    assert_eq!(run_inner(&g, &vec!["7"]).unwrap(), Value::Num(7));
    assert_eq!(run_inner(&g, &vec!["11"]).unwrap_err(), "too big");
    // a rejected value is not absent: optional does not hide it
    let g = Grammar::positional("n", true).guard(10, "too big").optional();
    assert_eq!(run_inner(&g, &vec!["11"]).unwrap_err(), "too big");
    assert_eq!(run_inner(&g, &vec![]).unwrap(), Value::Absent);
}

#[test]
fn fallback_supplies_default() {
    let g = Grammar::positional("n", true).fallback(5);
    assert_eq!(run_inner(&g, &vec![]).unwrap(), Value::Num(5));
    assert_eq!(run_inner(&g, &vec!["2"]).unwrap(), Value::Num(2));
    assert_eq!(
        run_inner(&g, &vec!["x"]).unwrap_err(),
        "Couldn't parse \"x\": invalid digit found in string"
    );
}

#[test]
fn alternative_reports_deeper_failure() {
    let left = Grammar::short('a');
    let right = Grammar::short('b').pair(Grammar::positional("x", true));
    let g = left.or_else(right);
    assert_eq!(
        run_inner(&g, &vec!["-b"]).unwrap_err(),
        "Expected <x>, got \"-b\". Pass --help for usage information"
    );
}

#[test]
fn argument_takes_next_or_joined_value() {
    let g = Grammar::argument("--user", "USER");
    assert_eq!(run_inner(&g, &vec!["--user", "bob"]).unwrap(), Value::Arg(1));
    assert_eq!(run_inner(&g, &vec!["--user=bob"]).unwrap(), Value::Joined(0));
    assert_eq!(
        run_inner(&g, &vec!["--user"]).unwrap_err(),
        "Expected <USER>, got \"--user\". Pass --help for usage information"
    );
    assert_eq!(
        run_inner(&g, &vec!["--user", "-x"]).unwrap_err(),
        "Expected an argument <USER>, got -x"
    );
    assert_eq!(
        run_inner(&g, &vec![]).unwrap_err(),
        "Expected --user <USER>, pass --help for usage information"
    );
    assert_eq!(
        run_inner(&g, &vec!["--username"]).unwrap_err(),
        "Expected --user <USER>, got \"--username\". Pass --help for usage information"
    );
}

#[test]
fn adjacent_needs_contiguous_arguments() {
    let g = Grammar::short('a').pair(Grammar::positional("x", true)).adjacent();
    assert_eq!(
        run_inner(&g, &vec!["-a", "1"]).unwrap(),
        Value::Pair(Box::new(Value::Unit), Box::new(Value::Num(1)))
    );
    assert_eq!(
        run_inner(&g, &vec!["1", "-a"]).unwrap_err(),
        "Expected -a, got \"1\". Pass --help for usage information"
    );
}
