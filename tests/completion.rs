use bpaf::args::{Args, Error};
use bpaf::complete_gen::{Complete, Style};
use bpaf::item::{arg_matches, cmd_matches, preferred_name, Item, ShortLong};
use bpaf::parsers::Parser;
use bpaf::simple::{long, positional, short};
use bpaf::value::Value;

fn complete_with(parser: Parser, words: &[&str], touching: bool, style: Style) -> String {
    let mut args = Args::from(words);
    args.comp = Some(Complete::new(touching, style));
    match parser.run(args) {
        Err(Error::Stdout(s)) => s,
        other => panic!("expected completion output, got {:?}", other),
    }
}

#[test]
fn preferred_name_prefers_long() {
    assert_eq!(preferred_name(&ShortLong::Short('x')), "-x");
    assert_eq!(preferred_name(&ShortLong::Long("verbose".to_string())), "--verbose");
    assert_eq!(preferred_name(&ShortLong::ShortLong('v', "verbose".to_string())), "--verbose");
    let n = ShortLong::ShortLong('v', "verbose".to_string());
    assert_eq!(preferred_name(&n), preferred_name(&n));
}

#[test]
fn arg_matches_cases() {
    let both = ShortLong::ShortLong('v', "verbose".to_string());
    assert_eq!(arg_matches(None, &both), Some("--verbose".to_string()));
    assert_eq!(arg_matches(Some("-"), &both), Some("--verbose".to_string()));
    assert_eq!(arg_matches(Some("-v"), &both), Some("--verbose".to_string()));
    assert_eq!(arg_matches(Some("--ve"), &both), Some("--verbose".to_string()));
    assert_eq!(arg_matches(Some("--"), &both), Some("--verbose".to_string()));
    assert_eq!(arg_matches(Some("--x"), &both), None);
    assert_eq!(arg_matches(Some("-x"), &both), None);
    assert_eq!(arg_matches(Some(""), &both), None);
    let short_only = ShortLong::Short('x');
    assert_eq!(arg_matches(Some("-x"), &short_only), Some("-x".to_string()));
    assert_eq!(arg_matches(Some("--x"), &short_only), None);
}

#[test]
fn cmd_matches_cases() {
    assert_eq!(cmd_matches(None, "build", Some('b')), Some("build".to_string()));
    assert_eq!(cmd_matches(Some("bu"), "build", None), Some("build".to_string()));
    assert_eq!(cmd_matches(Some("b"), "xbuild", Some('b')), Some("xbuild".to_string()));
    assert_eq!(cmd_matches(Some("x"), "build", Some('b')), None);
}

#[test]
fn only_deepest_candidates_are_shown() {
    let deep = Parser::product(short('a').req_flag(Value::Unit).parser(), long("bee").switch().parser());
    let shallow = short('z').req_flag(Value::Unit).parser();
    let p = Parser::alt(deep, shallow);
    assert_eq!(complete_with(p, &["-a"], false, Style::Bash), "--bee\n");
}

#[test]
fn values_outrank_items() {
    let mut c = Complete::new(false, Style::Bash);
    c.push_item(Item::Flag { name: ShortLong::Short('x'), help: None }, 1);
    c.push_value("alpha".to_string(), Some("first".to_string()), 1);
    c.push_value("beta".to_string(), None, 1);
    c.push_metadata("SHALLOW".to_string(), None, 0, false);
    assert_eq!(c.complete(None), "alpha  first\nbeta\n");
}

#[test]
fn single_survivor_has_no_metavar() {
    let p = long("name").help("h").argument("NAME").parser();
    assert_eq!(complete_with(p, &[], false, Style::Bash), "--name\n");
    let p = long("name").help("h").argument("NAME").parser();
    assert_eq!(complete_with(p, &[], false, Style::Zsh), "--name\n");
}

#[test]
fn argument_multi_candidate_form() {
    let p = || Parser::product(long("name").help("h").argument("NAME").parser(), short('v').switch().parser());
    assert_eq!(complete_with(p(), &[], false, Style::Bash), "--name <NAME>  h\n-v\n");
    assert_eq!(complete_with(p(), &[], false, Style::Zsh), "--name\th\n-v\n");
}

#[test]
fn short_cluster_is_echoed() {
    let p = short('v').switch().parser();
    assert_eq!(complete_with(p, &["-vvv"], true, Style::Bash), "-vvv\n");
    let p = short('v').req_flag(Value::Unit).parser().many();
    assert_eq!(complete_with(p, &["-vvv"], true, Style::Zsh), "-vvv\n");
}

#[test]
fn duplicate_short_flags_keep_their_help() {
    let ac = Parser::product(short('a').req_flag(Value::Unit).parser(), short('c').help("c1").switch().parser());
    let bc = Parser::product(short('b').req_flag(Value::Unit).parser(), short('c').help("c2").switch().parser());
    let p = Parser::alt(ac, bc);
    assert_eq!(complete_with(p, &[], false, Style::Bash), "-a\n-c  c1\n-b\n-c  c2\n");
}

#[test]
fn prefix_completion_of_long_names() {
    let p = Parser::product(long("verbose").switch().parser(), long("version").switch().parser());
    assert_eq!(complete_with(p, &["--verb"], true, Style::Bash), "--verbose\n");
    let p = Parser::product(long("verbose").switch().parser(), long("version").switch().parser());
    assert_eq!(complete_with(p, &["--ver"], true, Style::Bash), "--verbose\n--version\n");
}

#[test]
fn typing_an_option_value_echoes() {
    let p = || Parser::product(long("file").argument("FILE").parser(), short('q').switch().parser());
    assert_eq!(complete_with(p(), &["--file"], false, Style::Bash), "<FILE>\n");
    assert_eq!(complete_with(p(), &["--file"], true, Style::Bash), "--file\n");
}

#[test]
fn positional_placeholder_is_listed() {
    let p = Parser::product(positional("FILE").help("input").parser(), short('q').switch().parser());
    assert_eq!(complete_with(p, &[], false, Style::Zsh), "<FILE>\tinput\n-q\n");
}

#[test]
fn non_text_fragment_gives_bare_newline() {
    let mut args = Args::from(&["x"]);
    args.items[0] = bpaf::args::Arg::Word("x".to_string(), false);
    args.comp = Some(Complete::new(true, Style::Bash));
    let p = short('q').switch().parser();
    assert_eq!(p.run(args), Err(Error::Stdout("\n".to_string())));
}

#[test]
fn no_request_means_no_output() {
    let args = Args::from(&["-q"]);
    assert_eq!(args.check_complete(), Ok(()));
}

fn commands() -> Parser {
    let build = short('v').switch().parser().command("build").short('b').help("Build it").parser();
    let bench = short('q').switch().parser().command("bench").parser();
    Parser::alt(build, bench)
}

#[test]
fn commands_are_offered() {
    assert_eq!(complete_with(commands(), &[], false, Style::Bash), "build  Build it\nbench\n");
    assert_eq!(complete_with(commands(), &["bu"], true, Style::Bash), "build\n");
    assert_eq!(complete_with(commands(), &["be"], true, Style::Zsh), "bench\n");
    assert_eq!(complete_with(commands(), &[], false, Style::Zsh), "build\tBuild it\nbench\n");
}

#[test]
fn candidates_inside_a_command_are_deeper() {
    assert_eq!(complete_with(commands(), &["build"], false, Style::Bash), "-v\n");
}
