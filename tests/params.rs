use bpaf::args::Args;
use bpaf::parsers::Parser;
use bpaf::simple::{any, short};
use bpaf::value::Value;

fn text(s: &str) -> Value {
    Value::Text(s.to_string())
}

fn second(v: Value) -> Value {
    match v {
        Value::Pair(_, b) => *b,
        other => panic!("not a pair: {:?}", other),
    }
}

#[test]
fn get_any_simple() {
    let parser = || {
        let a = short('a').switch().parser();
        let b = any("REST").help("any help").parser();
        Parser::product(a, b)
    };

    let r = second(parser().run(Args::from(&["-a", "-b"])).unwrap());
    assert_eq!(r, text("-b"));

    let r = second(parser().run(Args::from(&["-b", "-a"])).unwrap());
    assert_eq!(r, text("-b"));

    let r = second(parser().run(Args::from(&["-b=foo", "-a"])).unwrap());
    assert_eq!(r, text("-b=foo"));
}

#[test]
fn get_any_many() {
    let parser = || {
        let a = short('a').switch().parser();
        let b = any("REST").help("any help").parser().many();
        Parser::product(a, b)
    };

    let r = second(parser().run(Args::from(&["-a", "-b"])).unwrap());
    assert_eq!(r, Value::List(vec![text("-b")]));

    let r = second(parser().run(Args::from(&["-b", "-a"])).unwrap());
    assert_eq!(r, Value::List(vec![text("-b")]));

    let r = second(parser().run(Args::from(&["-b", "-a", "-b"])).unwrap());
    assert_eq!(r, Value::List(vec![text("-b"), text("-b")]));
}

#[test]
fn get_any_many2() {
    let parser = any("REST").parser().many();

    let r = parser.run(Args::from(&["-vvv"])).unwrap();
    match r {
        Value::List(v) => assert_eq!(v[0], text("-vvv")),
        other => panic!("not a list: {:?}", other),
    }
}
