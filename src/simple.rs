//! Building blocks: constructors and modifiers of the primitive parsers, the
//! combinators, and the structural descriptor of a tree.
use vstd::prelude::*;
use vstd::string::*;
use crate::args::{completion_text, Args, Error};
use crate::complete_gen::opt_clone;
use crate::item::{Item, Meta};
use crate::parsers::{
    arg_item, ctx_of, eval_spec, flag_item, meta_spec, res_view, state_of, Anything, Argument, Command, Flag, Kind, Named,
    Parser, Positional,
};
use crate::text::owned;
use crate::value::Value;

verus! {

/// A primitive parser under construction; `I` says which kind.
pub struct SimpleParser<I>(pub I);

fn named_with(short: Vec<char>, long: Vec<String>, env: Vec<String>) -> (r: SimpleParser<Named>)
    ensures
        r.0.short == short,
        r.0.long == long,
        r.0.env == env,
        r.0.help is None,
{
    SimpleParser(Named { short, long, env, help: None })
}

/// A named parser with the short name `-name`.
pub fn short(name: char) -> (r: SimpleParser<Named>)
    ensures
        r.0.short@ == seq![name],
        r.0.long@.len() == 0,
        r.0.env@.len() == 0,
        r.0.help is None,
{
    let mut s: Vec<char> = Vec::new();
    s.push(name);
    assert(s@ =~= seq![name]);
    named_with(s, Vec::new(), Vec::new())
}

/// A named parser with the long name `--name`.
pub fn long(name: &str) -> (r: SimpleParser<Named>)
    ensures
        r.0.short@.len() == 0,
        r.0.long@.len() == 1,
        r.0.long@[0]@ == name@,
        r.0.env@.len() == 0,
        r.0.help is None,
{
    let mut l: Vec<String> = Vec::new();
    l.push(owned(name));
    named_with(Vec::new(), l, Vec::new())
}

/// A named parser read from the environment variable `variable` only.
pub fn env(variable: &str) -> (r: SimpleParser<Named>)
    ensures
        r.0.short@.len() == 0,
        r.0.long@.len() == 0,
        r.0.env@.len() == 1,
        r.0.env@[0]@ == variable@,
        r.0.help is None,
{
    let mut e: Vec<String> = Vec::new();
    e.push(owned(variable));
    named_with(Vec::new(), Vec::new(), e)
}

/// A positional item shown as `metavar`.
pub fn positional(metavar: &str) -> (r: SimpleParser<Positional>)
    ensures
        r.0.metavar@ == metavar@,
        r.0.help is None,
        r.0.kind == Kind::Text,
        !r.0.strict,
{
    SimpleParser(Positional { metavar: owned(metavar), help: None, kind: Kind::Text, strict: false })
}

/// A raw matcher that takes the first unconsumed token as text.
pub fn any(metavar: &str) -> (r: SimpleParser<Anything>)
    ensures
        r.0.metavar@ == metavar@,
        r.0.help is None,
        !r.0.anywhere,
        r.0.literal is None,
        r.0.value == Value::Unit,
{
    SimpleParser(Anything { metavar: owned(metavar), help: None, anywhere: false, literal: None, value: Value::Unit })
}

/// A raw matcher that takes a token equal to `text` and produces `value`.
pub fn literal(text: &str, value: Value) -> (r: SimpleParser<Anything>)
    ensures
        r.0.metavar@ == text@,
        r.0.help is None,
        !r.0.anywhere,
        r.0.literal matches Some(l) && l@ == text@,
        r.0.value == value,
{
    SimpleParser(Anything { metavar: owned(text), help: None, anywhere: false, literal: Some(owned(text)), value })
}

impl SimpleParser<Named> {
    /// The same as `short(name)`.
    pub fn with_short(name: char) -> (r: Self)
        ensures
            r.0.short@ == seq![name],
            r.0.long@.len() == 0,
            r.0.env@.len() == 0,
            r.0.help is None,
    {
        short(name)
    }

    /// Adds a short name; names past the first are hidden aliases.
    pub fn short(self, name: char) -> (r: Self)
        ensures
            r.0.short@ == self.0.short@.push(name),
            r.0.long == self.0.long,
            r.0.env == self.0.env,
            r.0.help == self.0.help,
    {
        let mut n = self.0;
        n.short.push(name);
        SimpleParser(n)
    }

    /// The same as `long(name)`.
    pub fn with_long(name: &str) -> (r: Self)
        ensures
            r.0.short@.len() == 0,
            r.0.long@.len() == 1,
            r.0.long@[0]@ == name@,
            r.0.env@.len() == 0,
            r.0.help is None,
    {
        long(name)
    }

    /// Adds a long name; names past the first are hidden aliases.
    pub fn long(self, name: &str) -> (r: Self)
        ensures
            r.0.short == self.0.short,
            r.0.long@.len() == self.0.long@.len() + 1,
            r.0.long@.drop_last() == self.0.long@,
            r.0.long@.last()@ == name@,
            r.0.env == self.0.env,
            r.0.help == self.0.help,
    {
        let mut n = self.0;
        n.long.push(owned(name));
        assert(n.long@.drop_last() =~= self.0.long@);
        SimpleParser(n)
    }

    /// The same as `env(name)`.
    pub fn with_env(name: &str) -> (r: Self)
        ensures
            r.0.short@.len() == 0,
            r.0.long@.len() == 0,
            r.0.env@.len() == 1,
            r.0.env@[0]@ == name@,
            r.0.help is None,
    {
        env(name)
    }

    /// Adds an environment variable to fall back on.
    pub fn env(self, name: &str) -> (r: Self)
        ensures
            r.0.short == self.0.short,
            r.0.long == self.0.long,
            r.0.env@.len() == self.0.env@.len() + 1,
            r.0.env@.drop_last() == self.0.env@,
            r.0.env@.last()@ == name@,
            r.0.help == self.0.help,
    {
        let mut n = self.0;
        n.env.push(owned(name));
        assert(n.env@.drop_last() =~= self.0.env@);
        SimpleParser(n)
    }

    pub fn help(self, help: &str) -> (r: Self)
        ensures
            r.0.short == self.0.short,
            r.0.long == self.0.long,
            r.0.env == self.0.env,
            r.0.help matches Some(h) && h@ == help@,
    {
        let mut n = self.0;
        n.help = Some(owned(help));
        SimpleParser(n)
    }

    /// A flag that gives `true` when present and `false` when absent.
    pub fn switch(self) -> (r: SimpleParser<Flag>)
        ensures
            r.0.named == self.0,
            r.0.present == Value::Bool(true),
            r.0.absent == Some(Value::Bool(false)),
    {
        SimpleParser(Flag { named: self.0, present: Value::Bool(true), absent: Some(Value::Bool(false)) })
    }

    /// A flag that gives `present` when present and `absent` when absent.
    pub fn flag(self, present: Value, absent: Value) -> (r: SimpleParser<Flag>)
        ensures
            r.0.named == self.0,
            r.0.present == present,
            r.0.absent == Some(absent),
    {
        SimpleParser(Flag { named: self.0, present, absent: Some(absent) })
    }

    /// A flag that gives `present` when present and fails with "not found"
    /// when absent.
    pub fn req_flag(self, present: Value) -> (r: SimpleParser<Flag>)
        ensures
            r.0.named == self.0,
            r.0.present == present,
            r.0.absent is None,
    {
        SimpleParser(Flag { named: self.0, present, absent: None })
    }

    /// A named argument with a text value shown as `metavar`.
    pub fn argument(self, metavar: &str) -> (r: SimpleParser<Argument>)
        ensures
            r.0.named == self.0,
            r.0.metavar@ == metavar@,
            r.0.kind == Kind::Text,
            !r.0.adjacent,
    {
        SimpleParser(Argument { named: self.0, metavar: owned(metavar), kind: Kind::Text, adjacent: false })
    }
}

impl SimpleParser<Flag> {
    pub fn help(self, help: &str) -> (r: Self)
        ensures
            r.0.named.short == self.0.named.short,
            r.0.named.long == self.0.named.long,
            r.0.named.env == self.0.named.env,
            r.0.named.help matches Some(h) && h@ == help@,
            r.0.present == self.0.present,
            r.0.absent == self.0.absent,
    {
        let mut f = self.0;
        f.named.help = Some(owned(help));
        SimpleParser(f)
    }

    pub fn parser(self) -> (r: Parser)
        ensures
            r == Parser::Flag(self.0),
    {
        Parser::Flag(self.0)
    }
}

impl SimpleParser<Argument> {
    /// The value must be attached to the name's token, as in `--name=value`.
    pub fn adjacent(self) -> (r: Self)
        ensures
            r.0.named == self.0.named,
            r.0.metavar == self.0.metavar,
            r.0.kind == self.0.kind,
            r.0.adjacent,
    {
        let mut a = self.0;
        a.adjacent = true;
        SimpleParser(a)
    }

    /// The value is read as a decimal number.
    pub fn number(self) -> (r: Self)
        ensures
            r.0.named == self.0.named,
            r.0.metavar == self.0.metavar,
            r.0.kind == Kind::Number,
            r.0.adjacent == self.0.adjacent,
    {
        let mut a = self.0;
        a.kind = Kind::Number;
        SimpleParser(a)
    }

    pub fn parser(self) -> (r: Parser)
        ensures
            r == Parser::Argument(self.0),
    {
        Parser::Argument(self.0)
    }
}

impl SimpleParser<Positional> {
    /// The same as `positional(metavar)`.
    pub fn positional(metavar: &str) -> (r: Self)
        ensures
            r.0.metavar@ == metavar@,
            r.0.help is None,
            r.0.kind == Kind::Text,
            !r.0.strict,
    {
        positional(metavar)
    }

    pub fn help(self, help: &str) -> (r: Self)
        ensures
            r.0.metavar == self.0.metavar,
            r.0.help matches Some(h) && h@ == help@,
            r.0.kind == self.0.kind,
            r.0.strict == self.0.strict,
    {
        let mut p = self.0;
        p.help = Some(owned(help));
        SimpleParser(p)
    }

    /// Only tokens after the `--` separator are taken.
    pub fn strict(self) -> (r: Self)
        ensures
            r.0.metavar == self.0.metavar,
            r.0.help == self.0.help,
            r.0.kind == self.0.kind,
            r.0.strict,
    {
        let mut p = self.0;
        p.strict = true;
        SimpleParser(p)
    }

    /// The value is read as a decimal number.
    pub fn number(self) -> (r: Self)
        ensures
            r.0.metavar == self.0.metavar,
            r.0.help == self.0.help,
            r.0.kind == Kind::Number,
            r.0.strict == self.0.strict,
    {
        let mut p = self.0;
        p.kind = Kind::Number;
        SimpleParser(p)
    }

    pub fn parser(self) -> (r: Parser)
        ensures
            r == Parser::Positional(self.0),
    {
        Parser::Positional(self.0)
    }
}

impl SimpleParser<Anything> {
    /// Any unconsumed token may be taken, not only the first one.
    pub fn anywhere(self) -> (r: Self)
        ensures
            r.0.metavar == self.0.metavar,
            r.0.help == self.0.help,
            r.0.anywhere,
            r.0.literal == self.0.literal,
            r.0.value == self.0.value,
    {
        let mut x = self.0;
        x.anywhere = true;
        SimpleParser(x)
    }

    pub fn help(self, help: &str) -> (r: Self)
        ensures
            r.0.metavar == self.0.metavar,
            r.0.help matches Some(h) && h@ == help@,
            r.0.anywhere == self.0.anywhere,
            r.0.literal == self.0.literal,
            r.0.value == self.0.value,
    {
        let mut x = self.0;
        x.help = Some(owned(help));
        SimpleParser(x)
    }

    pub fn metavar(self, metavar: &str) -> (r: Self)
        ensures
            r.0.metavar@ == metavar@,
            r.0.help == self.0.help,
            r.0.anywhere == self.0.anywhere,
            r.0.literal == self.0.literal,
            r.0.value == self.0.value,
    {
        let mut x = self.0;
        x.metavar = owned(metavar);
        SimpleParser(x)
    }

    pub fn parser(self) -> (r: Parser)
        ensures
            r == Parser::Any(self.0),
    {
        Parser::Any(self.0)
    }
}

impl SimpleParser<Command> {
    /// Adds the one-character alias.
    pub fn short(self, name: char) -> (r: Self)
        ensures
            r.0.name == self.0.name,
            r.0.short == Some(name),
            r.0.help == self.0.help,
            r.0.inner == self.0.inner,
    {
        let mut c = self.0;
        c.short = Some(name);
        SimpleParser(c)
    }

    pub fn help(self, help: &str) -> (r: Self)
        ensures
            r.0.name == self.0.name,
            r.0.short == self.0.short,
            r.0.help matches Some(h) && h@ == help@,
            r.0.inner == self.0.inner,
    {
        let mut c = self.0;
        c.help = Some(owned(help));
        SimpleParser(c)
    }

    pub fn parser(self) -> (r: Parser)
        ensures
            r == Parser::Command(self.0),
    {
        Parser::Command(self.0)
    }
}

impl Parser {
    /// Both parsers, in order; the result is the pair of their values.
    pub fn product(a: Parser, b: Parser) -> (r: Parser)
        ensures
            r == Parser::Product(Box::new(a), Box::new(b)),
    {
        Parser::Product(Box::new(a), Box::new(b))
    }

    /// One of the two parsers.
    pub fn alt(a: Parser, b: Parser) -> (r: Parser)
        ensures
            r == Parser::Alt(Box::new(a), Box::new(b)),
    {
        Parser::Alt(Box::new(a), Box::new(b))
    }

    pub fn many(self) -> (r: Parser)
        ensures
            r == Parser::Many(Box::new(self)),
    {
        Parser::Many(Box::new(self))
    }

    pub fn optional(self) -> (r: Parser)
        ensures
            r == Parser::Optional(Box::new(self)),
    {
        Parser::Optional(Box::new(self))
    }

    pub fn fallback(self, value: Value) -> (r: Parser)
        ensures
            r == Parser::Fallback(Box::new(self), value),
    {
        Parser::Fallback(Box::new(self), value)
    }

    /// A subcommand named `name` whose tokens this parser reads.
    pub fn command(self, name: &str) -> (r: SimpleParser<Command>)
        ensures
            r.0.name@ == name@,
            r.0.short is None,
            r.0.help is None,
            *r.0.inner == self,
    {
        SimpleParser(Command { name: owned(name), short: None, help: None, inner: Box::new(self) })
    }

    /// What the parser can consume, independent of any input.
    pub fn meta(&self) -> (r: Meta)
        ensures
            r == meta_spec(*self),
        decreases self,
    {
        match self {
            Parser::Flag(f) => match crate::parsers::flag_item_exec(&f.named) {
                Some(it) => if f.absent.is_some() {
                    Meta::Optional(Box::new(Meta::Item(Box::new(it))))
                } else {
                    Meta::Item(Box::new(it))
                },
                None => Meta::Skip,
            },
            Parser::Argument(a) => match crate::parsers::arg_item_exec(a) {
                Some(it) => Meta::Item(Box::new(it)),
                None => Meta::Skip,
            },
            Parser::Positional(q) => Meta::Item(
                Box::new(Item::Positional { metavar: q.metavar.clone(), help: opt_clone(&q.help) }),
            ),
            Parser::Any(x) => Meta::Item(
                Box::new(Item::Positional { metavar: x.metavar.clone(), help: opt_clone(&x.help) }),
            ),
            Parser::Command(c) => Meta::Item(
                Box::new(
                    Item::Command {
                        name: c.name.clone(),
                        short: c.short,
                        help: opt_clone(&c.help),
                        meta: Box::new(c.inner.meta()),
                    },
                ),
            ),
            Parser::Product(a, b) => Meta::And(Box::new(a.meta()), Box::new(b.meta())),
            Parser::Alt(a, b) => Meta::Or(Box::new(a.meta()), Box::new(b.meta())),
            Parser::Many(q) => Meta::Many(Box::new(q.meta())),
            Parser::Optional(q) => Meta::Optional(Box::new(q.meta())),
            Parser::Fallback(q, _) => Meta::Optional(Box::new(q.meta())),
        }
    }

    /// Runs the parser on a whole command line: the value it produces, or,
    /// where a completion request is attached, the completion output.
    pub fn run(&self, args: Args) -> (r: Result<Value, Error>)
        requires
            args.wf(),
        ensures
            args.comp is None ==> res_view(r) == eval_spec(*self, ctx_of(args), state_of(args)).0,
            args.comp matches Some(c) ==> r matches Err(Error::Stdout(s)) && s@ == completion_text(
                args.items@,
                c.style,
                c.touching,
                eval_spec(*self, ctx_of(args), state_of(args)).1.comps.unwrap(),
            ),
    {
        let mut args = args;
        let r = self.eval(&mut args);
        match args.check_complete() {
            Err(e) => Err(e),
            Ok(()) => r,
        }
    }
}

} // verus!
