use bpaf::args::{Arg, Args, Error, Reason};
use bpaf::item::{Item, Meta, ShortLong};
use bpaf::text::parse_decimal;
use bpaf::parsers::Parser;
use bpaf::simple::{any, literal, long, positional, short};
use bpaf::value::Value;

fn text(s: &str) -> Value {
    Value::Text(s.to_string())
}

#[test]
fn tokens_are_classified() {
    let a = Args::from(&["-a", "--name=x", "word", "--", "-b", "--"]);
    assert_eq!(a.items[0], Arg::Short('a', "-a".to_string()));
    assert_eq!(a.items[1], Arg::Long("name".to_string(), "--name=x".to_string()));
    assert_eq!(a.items[2], Arg::Word("word".to_string(), true));
    assert_eq!(a.separator, Some(3));
    assert_eq!(a.consumed, vec![false, false, false, true, false, false]);
    assert_eq!(a.items[4], Arg::Word("-b".to_string(), true));
    assert_eq!(a.items[5], Arg::Word("--".to_string(), true));
}

#[test]
fn alternation_takes_the_only_success() {
    let p = Parser::alt(short('a').req_flag(text("A")).parser(), short('b').req_flag(text("B")).parser());
    assert_eq!(p.run(Args::from(&["-b"])), Ok(text("B")));
    let p = Parser::alt(short('a').req_flag(text("A")).parser(), short('b').req_flag(text("B")).parser());
    assert_eq!(p.run(Args::from(&["-a"])), Ok(text("A")));
}

#[test]
fn alternation_prefers_the_branch_that_got_further() {
    let p = Parser::alt(short('q').req_flag(Value::Unit).parser(), short('x').argument("X").parser());
    assert_eq!(p.run(Args::from(&["-x"])), Err(Error::ParseFailed(Some(0), Reason::NoValue)));
}

#[test]
fn alternation_prefers_the_longer_success() {
    let one = short('a').req_flag(text("one")).parser();
    let two = Parser::product(short('a').req_flag(Value::Unit).parser(), short('b').req_flag(Value::Unit).parser());
    let p = Parser::alt(one, two);
    assert_eq!(
        p.run(Args::from(&["-a", "-b"])),
        Ok(Value::Pair(Box::new(Value::Unit), Box::new(Value::Unit)))
    );
}

#[test]
fn product_is_order_independent_for_named_items() {
    let p = || Parser::product(long("out").argument("FILE").parser(), positional("IN").parser());
    let expected = Ok(Value::Pair(Box::new(text("o.txt")), Box::new(text("i.txt"))));
    assert_eq!(p().run(Args::from(&["i.txt", "--out", "o.txt"])), expected);
    assert_eq!(p().run(Args::from(&["--out", "o.txt", "i.txt"])), expected);
    assert_eq!(p().run(Args::from(&["--out=o.txt", "i.txt"])), expected);
}

#[test]
fn missing_item_is_not_found() {
    let p = short('r').req_flag(Value::Unit).parser();
    assert_eq!(p.run(Args::from(&[])), Err(Error::Missing));
}

#[test]
fn argument_without_value_fails() {
    let p = short('n').argument("N").parser();
    assert_eq!(p.run(Args::from(&["-n"])), Err(Error::ParseFailed(Some(0), Reason::NoValue)));
}

#[test]
fn non_text_value_fails() {
    let mut args = Args::from(&["x"]);
    args.items[0] = Arg::Word("x".to_string(), false);
    let p = positional("P").parser();
    assert_eq!(p.run(args), Err(Error::ParseFailed(Some(0), Reason::NotText)));
}

#[test]
fn adjacent_argument_needs_attached_value() {
    let p = || short('o').argument("O").adjacent().parser();
    assert_eq!(p().run(Args::from(&["-o", "v"])), Err(Error::ParseFailed(Some(0), Reason::NoValue)));
    assert_eq!(p().run(Args::from(&["-o=v"])), Ok(text("v")));
}

#[test]
fn env_fallback_for_argument_and_flag() {
    let mut args = Args::from(&[]);
    args.env.push(("FONTS".to_string(), "/usr/share".to_string()));
    let p = long("fonts").env("FONTS").argument("DIR").parser();
    assert_eq!(p.run(args), Ok(text("/usr/share")));

    let mut args = Args::from(&[]);
    args.env.push(("NO_COLOR".to_string(), "1".to_string()));
    let p = long("no-color").env("NO_COLOR").switch().parser();
    assert_eq!(p.run(args), Ok(Value::Bool(true)));

    let p = long("no-color").env("NO_COLOR").switch().parser();
    assert_eq!(p.run(Args::from(&[])), Ok(Value::Bool(false)));
}

#[test]
fn hidden_alias_matches() {
    let p = short('v').long("verbose").long("loud").switch().parser();
    assert_eq!(p.run(Args::from(&["--loud"])), Ok(Value::Bool(true)));
}

#[test]
fn strict_positional_needs_separator() {
    let p = || positional("P").strict().parser();
    assert_eq!(p().run(Args::from(&["a"])), Err(Error::Missing));
    assert_eq!(p().run(Args::from(&["--", "a"])), Ok(text("a")));
    let p = positional("P").parser();
    assert_eq!(p.run(Args::from(&["--", "-a"])), Ok(text("-a")));
}

#[test]
fn many_optional_fallback() {
    let p = short('v').req_flag(Value::Unit).parser().many();
    assert_eq!(p.run(Args::from(&["-v", "-v"])), Ok(Value::List(vec![Value::Unit, Value::Unit])));
    let p = short('v').req_flag(Value::Unit).parser().many();
    assert_eq!(p.run(Args::from(&[])), Ok(Value::List(vec![])));

    let p = positional("P").parser().optional();
    assert_eq!(p.run(Args::from(&[])), Ok(Value::Absent));
    let p = positional("P").parser().optional();
    assert_eq!(p.run(Args::from(&["x"])), Ok(Value::Present(Box::new(text("x")))));

    let p = positional("P").parser().fallback(Value::Number(42));
    assert_eq!(p.run(Args::from(&[])), Ok(Value::Number(42)));
    let p = short('n').argument("N").parser().fallback(Value::Number(42));
    assert_eq!(p.run(Args::from(&["-n"])), Err(Error::ParseFailed(Some(0), Reason::NoValue)));
}

#[test]
fn literal_matches_exact_text() {
    let p = literal("run", Value::Number(1)).parser();
    assert_eq!(p.run(Args::from(&["run"])), Ok(Value::Number(1)));
    let p = literal("run", Value::Number(1)).parser();
    assert_eq!(p.run(Args::from(&["go"])), Err(Error::Missing));
}

#[test]
fn any_anywhere_scavenges() {
    let p = || {
        Parser::product(
            positional("CMD").parser(),
            any("OPT").anywhere().parser(),
        )
    };
    let expected = Ok(Value::Pair(Box::new(text("ls")), Box::new(text("-l"))));
    assert_eq!(p().run(Args::from(&["ls", "-l"])), expected);
    let p = literal("-l", Value::Unit).anywhere().parser();
    assert_eq!(p.run(Args::from(&["x", "-l"])), Ok(Value::Unit));
    let p = literal("-l", Value::Unit).parser();
    assert_eq!(p.run(Args::from(&["x", "-l"])), Err(Error::Missing));
}

#[test]
fn numeric_values() {
    let p = || short('n').argument("N").number().parser();
    assert_eq!(p().run(Args::from(&["-n", "42"])), Ok(Value::Number(42)));
    assert_eq!(p().run(Args::from(&["-n=7"])), Ok(Value::Number(7)));
    assert_eq!(p().run(Args::from(&["-n", "abc"])), Err(Error::ParseFailed(Some(1), Reason::NotNumber)));
    assert_eq!(
        p().run(Args::from(&["-n", "18446744073709551615"])),
        Ok(Value::Number(18446744073709551615))
    );
    assert_eq!(
        p().run(Args::from(&["-n", "18446744073709551616"])),
        Err(Error::ParseFailed(Some(1), Reason::NotNumber))
    );
    let p = positional("COUNT").number().parser();
    assert_eq!(p.run(Args::from(&["5"])), Ok(Value::Number(5)));

    let mut args = Args::from(&[]);
    args.env.push(("JOBS".to_string(), "many".to_string()));
    let p = long("jobs").env("JOBS").argument("N").number().parser();
    assert_eq!(p.run(args), Err(Error::ParseFailed(None, Reason::NotNumber)));
}

#[test]
fn parse_failed_is_not_absorbed() {
    let p = Parser::alt(short('n').argument("N").number().parser(), short('q').req_flag(Value::Unit).parser());
    assert_eq!(p.run(Args::from(&["-n", "x"])), Err(Error::ParseFailed(Some(1), Reason::NotNumber)));
    let p = short('n').argument("N").number().parser().optional();
    assert_eq!(p.run(Args::from(&["-n", "x"])), Err(Error::ParseFailed(Some(1), Reason::NotNumber)));
    let p = short('n').argument("N").number().parser().many();
    assert_eq!(p.run(Args::from(&["-n", "1", "-n", "x"])), Err(Error::ParseFailed(Some(3), Reason::NotNumber)));
}

#[test]
fn later_parse_failure_wins() {
    let p = Parser::alt(
        positional("A").number().parser(),
        Parser::product(positional("B").parser(), positional("C").number().parser()),
    );
    assert_eq!(p.run(Args::from(&["x", "y"])), Err(Error::ParseFailed(Some(1), Reason::NotNumber)));
}

#[test]
fn parse_decimal_cases() {
    assert_eq!(parse_decimal("0"), Some(0));
    assert_eq!(parse_decimal("007"), Some(7));
    assert_eq!(parse_decimal(""), None);
    assert_eq!(parse_decimal("12a"), None);
    assert_eq!(parse_decimal("+1"), None);
}

#[test]
fn meta_mirrors_tree() {
    let ac = Parser::product(short('a').req_flag(Value::Unit).parser(), short('c').help("c").switch().parser());
    let p = Parser::alt(ac, positional("F").parser().many());
    let expected = Meta::Or(
        Box::new(Meta::And(
            Box::new(Meta::Item(Box::new(Item::Flag { name: ShortLong::Short('a'), help: None }))),
            Box::new(Meta::Optional(Box::new(Meta::Item(Box::new(Item::Flag {
                name: ShortLong::Short('c'),
                help: Some("c".to_string()),
            }))))),
        )),
        Box::new(Meta::Many(Box::new(Meta::Item(Box::new(Item::Positional {
            metavar: "F".to_string(),
            help: None,
        }))))),
    );
    assert_eq!(p.meta(), expected);
    let p = short('p').long("parser").env("VAR").argument("ARG").parser();
    assert_eq!(
        p.meta(),
        Meta::Item(Box::new(Item::Argument {
            name: ShortLong::ShortLong('p', "parser".to_string()),
            metavar: "ARG".to_string(),
            env: Some("VAR".to_string()),
            help: None,
        }))
    );
}

fn build_cmd() -> Parser {
    Parser::product(short('v').switch().parser(), positional("X").parser())
        .command("build")
        .short('b')
        .help("Build it")
        .parser()
}

#[test]
fn command_parses_what_follows() {
    assert_eq!(
        build_cmd().run(Args::from(&["build", "-v", "x"])),
        Ok(Value::Pair(Box::new(Value::Bool(true)), Box::new(text("x"))))
    );
    assert_eq!(
        build_cmd().run(Args::from(&["b", "x"])),
        Ok(Value::Pair(Box::new(Value::Bool(false)), Box::new(text("x"))))
    );
    assert_eq!(build_cmd().run(Args::from(&["x"])), Err(Error::Missing));
}

#[test]
fn command_does_not_see_earlier_tokens() {
    let inner = short('q').switch().parser().command("run").parser();
    let p = Parser::product(inner, positional("P").parser());
    assert_eq!(
        p.run(Args::from(&["-q", "run", "p"])),
        Ok(Value::Pair(Box::new(Value::Bool(false)), Box::new(text("p"))))
    );
    let inner = short('q').switch().parser().command("run").parser();
    let p = Parser::product(short('q').switch().parser(), inner);
    assert_eq!(
        p.run(Args::from(&["-q", "run"])),
        Ok(Value::Pair(Box::new(Value::Bool(true)), Box::new(Value::Bool(false))))
    );
}
