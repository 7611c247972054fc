//! Primitive parsers, the combinator tree, and the specification of how a
//! tree evaluates against the token store.
use vstd::prelude::*;
use vstd::string::*;
use crate::args::{count_true, Arg, Args, Error, Reason};
use crate::complete_gen::{opt_clone, Comp, Complete};
use crate::item::{opt_string_view, Item, Meta, ShortLong};
use crate::text::{decimal, owned, parse_decimal, str_eq};
use crate::value::{val_of, Val, Value};

verus! {

broadcast use vstd::std_specs::vec::group_vec_axioms;

/// The names of a named parser. Names past the first of each kind are hidden
/// aliases.
pub struct Named {
    pub short: Vec<char>,
    pub long: Vec<String>,
    pub env: Vec<String>,
    pub help: Option<String>,
}

/// A flag: `present` when one of its names is given (or one of its variables
/// is set), else `absent`, or "item not found" where there is none.
pub struct Flag {
    pub named: Named,
    pub present: Value,
    pub absent: Option<Value>,
}

/// How a value's text is converted.
#[derive(Clone, Copy, Debug, PartialEq, Eq)]
pub enum Kind {
    /// Kept as text.
    Text,
    /// Read as a decimal number that fits in 64 bits.
    Number,
}

/// A named argument that takes a value.
pub struct Argument {
    pub named: Named,
    pub metavar: String,
    pub kind: Kind,
    /// The value must be attached to the name's token (`--name=value`).
    pub adjacent: bool,
}

/// A positional item.
pub struct Positional {
    pub metavar: String,
    pub help: Option<String>,
    pub kind: Kind,
    /// Only tokens after the `--` separator are taken.
    pub strict: bool,
}

/// A raw matcher: with no `literal` it takes any text token, else only a
/// token equal to `literal`, producing `value`.
pub struct Anything {
    pub metavar: String,
    pub help: Option<String>,
    /// Any unconsumed token may be taken, not only the first one.
    pub anywhere: bool,
    pub literal: Option<String>,
    pub value: Value,
}

/// A subcommand: a word equal to `name` (or to the one-character alias
/// `short`), after which `inner` parses the tokens that follow it.
pub struct Command {
    pub name: String,
    pub short: Option<char>,
    pub help: Option<String>,
    pub inner: Box<Parser>,
}

/// A parser: the closed set of primitives and combinators.
pub enum Parser {
    Flag(Flag),
    Argument(Argument),
    Positional(Positional),
    Any(Anything),
    Command(Command),
    /// Both, in order, on the same store; the result is the pair.
    Product(Box<Parser>, Box<Parser>),
    /// One of the two, each tried on its own snapshot of the store.
    Alt(Box<Parser>, Box<Parser>),
    /// Zero or more times, as long as each run consumes something.
    Many(Box<Parser>),
    Optional(Box<Parser>),
    Fallback(Box<Parser>, Value),
}

/// What evaluation reads: the tokens, the separator and the environment.
pub struct Ctx {
    pub toks: Seq<Arg>,
    pub sep: Option<usize>,
    pub env: Seq<(String, String)>,
}

/// What evaluation changes: the consumed marks, the current token and the
/// candidates collected by an active completion request.
pub struct State {
    pub consumed: Seq<bool>,
    pub current: Option<usize>,
    pub comps: Option<Seq<Comp>>,
}

pub open spec fn ctx_of(a: Args) -> Ctx {
    Ctx { toks: a.items@, sep: a.separator, env: a.env@ }
}

pub open spec fn comps_of(c: Option<Complete>) -> Option<Seq<Comp>> {
    match c {
        Some(c) => Some(c.comps@),
        None => None,
    }
}

pub open spec fn state_of(a: Args) -> State {
    State { consumed: a.consumed@, current: a.current, comps: comps_of(a.comp) }
}

pub open spec fn res_view(r: Result<Value, Error>) -> Result<Val, Error> {
    match r {
        Ok(v) => Ok(val_of(v)),
        Err(e) => Err(e),
    }
}

/// The store after token `i` is consumed.
pub open spec fn take_tok(st: State, i: int) -> State {
    State { consumed: st.consumed.update(i, true), current: Some(i as usize), comps: st.comps }
}

/// The store with one more candidate, where completion is active.
pub open spec fn push_comp(st: State, c: Comp) -> State {
    State {
        consumed: st.consumed,
        current: st.current,
        comps: match st.comps {
            Some(cs) => Some(cs.push(c)),
            None => None,
        },
    }
}

pub open spec fn depth_of(st: State) -> usize {
    count_true(st.consumed) as usize
}

pub open spec fn push_item(st: State, item: Option<Item>) -> State {
    match item {
        Some(it) => push_comp(st, Comp::Item { item: it, depth: depth_of(st) }),
        None => st,
    }
}

/// The first unconsumed index from `k` on that satisfies `hit`.
pub open spec fn first_from(consumed: Seq<bool>, k: int, hit: spec_fn(int) -> bool) -> Option<int>
    decreases consumed.len() - k,
{
    if k < 0 || k >= consumed.len() {
        None
    } else if !consumed[k] && hit(k) {
        Some(k)
    } else {
        first_from(consumed, k + 1, hit)
    }
}

pub open spec fn has_short(n: Named, c: char) -> bool {
    n.short@.contains(c)
}

pub open spec fn has_long(n: Named, l: Seq<char>) -> bool {
    exists|j: int| 0 <= j < n.long@.len() && (#[trigger] n.long@[j])@ == l
}

/// How a token names `n`: `None` when it does not, `Some(None)` for the bare
/// name, `Some(Some(v))` for a name with the attached value `v`.
pub open spec fn named_value(n: Named, a: Arg) -> Option<Option<Seq<char>>> {
    match a {
        Arg::Short(_, s) => if s@.len() >= 2 && s@[0] == '-' && has_short(n, s@[1]) {
            if s@.len() == 2 {
                Some(None)
            } else if s@[2] == '=' {
                Some(Some(s@.skip(3)))
            } else {
                None
            }
        } else {
            None
        },
        Arg::Long(_, s) => {
            let e = crate::args::eq_index(s@, 2);
            if s@.len() >= 3 && s@[0] == '-' && s@[1] == '-' && has_long(n, s@.subrange(2, e)) {
                if e == s@.len() {
                    Some(None)
                } else {
                    Some(Some(s@.skip(e + 1)))
                }
            } else {
                None
            }
        },
        Arg::Word(..) => None,
    }
}

/// The value of variable `name` in `env`, the first entry from `k` on.
pub open spec fn env_lookup(env: Seq<(String, String)>, name: Seq<char>, k: int) -> Option<Seq<char>>
    decreases env.len() - k,
{
    if k < 0 || k >= env.len() {
        None
    } else if env[k].0@ == name {
        Some(env[k].1@)
    } else {
        env_lookup(env, name, k + 1)
    }
}

/// The value of the first of `names` (from `k` on) that is set in `env`.
pub open spec fn env_value(names: Seq<String>, env: Seq<(String, String)>, k: int) -> Option<Seq<char>>
    decreases names.len() - k,
{
    if k < 0 || k >= names.len() {
        None
    } else {
        match env_lookup(env, names[k]@, 0) {
            Some(v) => Some(v),
            None => env_value(names, env, k + 1),
        }
    }
}

/// The name under which a named item is shown: short and long where both exist.
pub open spec fn display_name(n: Named) -> Option<ShortLong> {
    if n.short@.len() > 0 && n.long@.len() > 0 {
        Some(ShortLong::ShortLong(n.short@[0], n.long@[0]))
    } else if n.short@.len() > 0 {
        Some(ShortLong::Short(n.short@[0]))
    } else if n.long@.len() > 0 {
        Some(ShortLong::Long(n.long@[0]))
    } else {
        None
    }
}

pub open spec fn flag_item(n: Named) -> Option<Item> {
    match display_name(n) {
        Some(name) => Some(Item::Flag { name, help: n.help }),
        None => None,
    }
}

pub open spec fn first_env(n: Named) -> Option<String> {
    if n.env@.len() > 0 {
        Some(n.env@[0])
    } else {
        None
    }
}

pub open spec fn arg_item(a: Argument) -> Option<Item> {
    match display_name(a.named) {
        Some(name) => Some(
            Item::Argument { name, metavar: a.metavar, env: first_env(a.named), help: a.named.help },
        ),
        None => None,
    }
}

pub open spec fn flag_hit(n: Named, toks: Seq<Arg>) -> spec_fn(int) -> bool {
    |i: int| named_value(n, toks[i]) == Some(None::<Seq<char>>)
}

pub open spec fn arg_hit(n: Named, toks: Seq<Arg>) -> spec_fn(int) -> bool {
    |i: int| named_value(n, toks[i]) is Some
}

pub open spec fn pos_hit(p: Positional, ctx: Ctx) -> spec_fn(int) -> bool {
    |i: int| positional_hit(p, ctx, i)
}

pub open spec fn any_hit(x: Anything, toks: Seq<Arg>) -> spec_fn(int) -> bool {
    |i: int| any_accepts(x, toks[i])
}

pub open spec fn any_tok() -> spec_fn(int) -> bool {
    |i: int| true
}

pub open spec fn flag_spec(f: Flag, ctx: Ctx, st: State) -> (Result<Val, Error>, State) {
    match first_from(st.consumed, 0, flag_hit(f.named, ctx.toks)) {
        Some(i) => (Ok(val_of(f.present)), take_tok(st, i)),
        None => if env_value(f.named.env@, ctx.env, 0) is Some {
            (Ok(val_of(f.present)), st)
        } else {
            let st2 = push_item(st, flag_item(f.named));
            match f.absent {
                Some(v) => (Ok(val_of(v)), st2),
                None => (Err(Error::Missing), st2),
            }
        },
    }
}

/// The value of text `t` found at token `pos`.
pub open spec fn convert(kind: Kind, t: Seq<char>, pos: Option<usize>) -> Result<Val, Error> {
    match kind {
        Kind::Text => Ok(Val::Text(t)),
        Kind::Number => match decimal(t) {
            Some(n) => Ok(Val::Number(n)),
            None => Err(Error::ParseFailed(pos, Reason::NotNumber)),
        },
    }
}

/// The value read from token `i`.
pub open spec fn word_value(ctx: Ctx, i: int, kind: Kind) -> Result<Val, Error> {
    match ctx.toks[i].valid_text() {
        Some(t) => convert(kind, t, Some(i as usize)),
        None => Err(Error::ParseFailed(Some(i as usize), Reason::NotText)),
    }
}

pub open spec fn argument_spec(a: Argument, ctx: Ctx, st: State) -> (Result<Val, Error>, State) {
    match first_from(st.consumed, 0, arg_hit(a.named, ctx.toks)) {
        Some(i) => match named_value(a.named, ctx.toks[i]).unwrap() {
            Some(v) => (convert(a.kind, v, Some(i as usize)), take_tok(st, i)),
            None => {
                let st1 = take_tok(st, i);
                if !a.adjacent && i + 1 < ctx.toks.len() && !st.consumed[i + 1] && ctx.toks[i + 1] is Word {
                    (word_value(ctx, i + 1, a.kind), take_tok(st1, i + 1))
                } else if st.comps is Some && i + 1 == ctx.toks.len() {
                    (
                        Err(Error::Missing),
                        push_comp(
                            st1,
                            Comp::Meta { meta: a.metavar, depth: depth_of(st1), is_arg: true, help: a.named.help },
                        ),
                    )
                } else {
                    (Err(Error::ParseFailed(Some(i as usize), Reason::NoValue)), st1)
                }
            },
        },
        None => match env_value(a.named.env@, ctx.env, 0) {
            Some(v) => (convert(a.kind, v, None), st),
            None => (Err(Error::Missing), push_item(st, arg_item(a))),
        },
    }
}

pub open spec fn positional_hit(p: Positional, ctx: Ctx, i: int) -> bool {
    ctx.toks[i] is Word && (!p.strict || (ctx.sep matches Some(s) && s < i))
}

pub open spec fn positional_spec(p: Positional, ctx: Ctx, st: State) -> (Result<Val, Error>, State) {
    match first_from(st.consumed, 0, pos_hit(p, ctx)) {
        Some(i) => (word_value(ctx, i, p.kind), take_tok(st, i)),
        None => (
            Err(Error::Missing),
            push_comp(st, Comp::Meta { meta: p.metavar, depth: depth_of(st), is_arg: false, help: p.help }),
        ),
    }
}

pub open spec fn any_accepts(x: Anything, a: Arg) -> bool {
    a.valid_text() is Some && match x.literal {
        Some(l) => a.text() == l@,
        None => true,
    }
}

pub open spec fn any_found(x: Anything, ctx: Ctx, st: State) -> Option<int> {
    if x.anywhere {
        first_from(st.consumed, 0, any_hit(x, ctx.toks))
    } else {
        match first_from(st.consumed, 0, any_tok()) {
            Some(i) => if any_accepts(x, ctx.toks[i]) {
                Some(i)
            } else {
                None
            },
            None => None,
        }
    }
}

pub open spec fn any_spec(x: Anything, ctx: Ctx, st: State) -> (Result<Val, Error>, State) {
    match any_found(x, ctx, st) {
        Some(i) => (
            Ok(
                match x.literal {
                    Some(_) => val_of(x.value),
                    None => Val::Text(ctx.toks[i].text()),
                },
            ),
            take_tok(st, i),
        ),
        None => (
            Err(Error::Missing),
            push_comp(st, Comp::Meta { meta: x.metavar, depth: depth_of(st), is_arg: false, help: x.help }),
        ),
    }
}

/// The store with the candidates emptied, for a branch of an alternation.
pub open spec fn cleared(st: State) -> State {
    State {
        consumed: st.consumed,
        current: st.current,
        comps: match st.comps {
            Some(_) => Some(Seq::<Comp>::empty()),
            None => None,
        },
    }
}

pub open spec fn merged(base: Option<Seq<Comp>>, a: Option<Seq<Comp>>, b: Option<Seq<Comp>>) -> Option<Seq<Comp>> {
    match (base, a, b) {
        (Some(x), Some(y), Some(z)) => Some(x + y + z),
        _ => base,
    }
}

/// How far a failure got: a value error beats "not found", and a later
/// token beats an earlier one.
pub open spec fn err_rank(e: Error) -> int {
    match e {
        Error::ParseFailed(Some(p), _) => p + 2,
        Error::ParseFailed(None, _) => 1,
        _ => 0,
    }
}

/// Whether the first branch of an alternation wins: success beats failure;
/// of two successes the one that consumed more (the first on a tie); of two
/// failures the one that got further (the first on a tie).
pub open spec fn first_wins(ra: Result<Val, Error>, ca: nat, rb: Result<Val, Error>, cb: nat) -> bool {
    match (ra, rb) {
        (Ok(_), Ok(_)) => ca >= cb,
        (Ok(_), Err(_)) => true,
        (Err(_), Ok(_)) => false,
        (Err(ea), Err(eb)) => err_rank(ea) >= err_rank(eb),
    }
}

/// The store as it was before a run, keeping the candidates that the run collected.
pub open spec fn rewound(before: State, after: State) -> State {
    State { consumed: before.consumed, current: before.current, comps: after.comps }
}

pub open spec fn word_tok(ctx: Ctx) -> spec_fn(int) -> bool {
    |i: int| ctx.toks[i] is Word
}

/// Whether token `i` names command `c`.
pub open spec fn names_command(c: Command, a: Arg) -> bool {
    a.valid_text() is Some && (a.text() == c.name@ || (c.short matches Some(s) && a.text() == seq![s]))
}

/// The index of the command word: the first unconsumed value, where it names `c`.
pub open spec fn command_at(c: Command, ctx: Ctx, st: State) -> Option<int> {
    match first_from(st.consumed, 0, word_tok(ctx)) {
        Some(i) => if names_command(c, ctx.toks[i]) {
            Some(i)
        } else {
            None
        },
        None => None,
    }
}

/// The store as the inner parser of a command at `i` sees it: every token up
/// to the command word counts as consumed.
pub open spec fn masked(st: State, i: int) -> State {
    State {
        consumed: Seq::new(st.consumed.len(), |j: int| if j <= i { true } else { st.consumed[j] }),
        current: Some(i as usize),
        comps: st.comps,
    }
}

/// The store after the inner parser ran: tokens before the command word
/// get their marks back.
pub open spec fn unmasked(before: State, after: State, i: int) -> State {
    State {
        consumed: Seq::new(before.consumed.len(), |j: int| if j < i { before.consumed[j] } else { after.consumed[j] }),
        current: after.current,
        comps: after.comps,
    }
}

/// The structural descriptor of a parser tree.
pub open spec fn meta_spec(p: Parser) -> Meta
    decreases p,
{
    match p {
        Parser::Flag(f) => match flag_item(f.named) {
            Some(it) => if f.absent is Some {
                Meta::Optional(Box::new(Meta::Item(Box::new(it))))
            } else {
                Meta::Item(Box::new(it))
            },
            None => Meta::Skip,
        },
        Parser::Argument(a) => match arg_item(a) {
            Some(it) => Meta::Item(Box::new(it)),
            None => Meta::Skip,
        },
        Parser::Positional(q) => Meta::Item(Box::new(Item::Positional { metavar: q.metavar, help: q.help })),
        Parser::Any(x) => Meta::Item(Box::new(Item::Positional { metavar: x.metavar, help: x.help })),
        Parser::Command(c) => Meta::Item(
            Box::new(Item::Command { name: c.name, short: c.short, help: c.help, meta: Box::new(meta_spec(*c.inner)) }),
        ),
        Parser::Product(a, b) => Meta::And(Box::new(meta_spec(*a)), Box::new(meta_spec(*b))),
        Parser::Alt(a, b) => Meta::Or(Box::new(meta_spec(*a)), Box::new(meta_spec(*b))),
        Parser::Many(q) => Meta::Many(Box::new(meta_spec(*q))),
        Parser::Optional(q) => Meta::Optional(Box::new(meta_spec(*q))),
        Parser::Fallback(q, _) => Meta::Optional(Box::new(meta_spec(*q))),
    }
}

pub open spec fn command_item(c: Command) -> Item {
    Item::Command { name: c.name, short: c.short, help: c.help, meta: Box::new(meta_spec(*c.inner)) }
}

/// Evaluation of `p` against the store.
pub open spec fn eval_spec(p: Parser, ctx: Ctx, st: State) -> (Result<Val, Error>, State)
    decreases p, 0nat,
{
    match p {
        Parser::Flag(f) => flag_spec(f, ctx, st),
        Parser::Argument(a) => argument_spec(a, ctx, st),
        Parser::Positional(q) => positional_spec(q, ctx, st),
        Parser::Any(x) => any_spec(x, ctx, st),
        Parser::Command(c) => match command_at(c, ctx, st) {
            Some(i) => {
                let (r, s) = eval_spec(*c.inner, ctx, masked(st, i));
                (r, unmasked(st, s, i))
            },
            None => (Err(Error::Missing), push_item(st, Some(command_item(c)))),
        },
        Parser::Product(a, b) => {
            let (ra, sa) = eval_spec(*a, ctx, st);
            match ra {
                Ok(x) => {
                    let (rb, sb) = eval_spec(*b, ctx, sa);
                    match rb {
                        Ok(y) => (Ok(Val::Pair(Box::new(x), Box::new(y))), sb),
                        Err(e) => (Err(e), sb),
                    }
                },
                Err(Error::Missing) => if sa.comps is Some {
                    (Err(Error::Missing), eval_spec(*b, ctx, sa).1)
                } else {
                    (Err(Error::Missing), sa)
                },
                Err(e) => (Err(e), sa),
            }
        },
        Parser::Alt(a, b) => {
            let (ra, sa) = eval_spec(*a, ctx, cleared(st));
            let (rb, sb) = eval_spec(*b, ctx, cleared(st));
            let comps = merged(st.comps, sa.comps, sb.comps);
            if first_wins(ra, count_true(sa.consumed), rb, count_true(sb.consumed)) {
                (ra, State { consumed: sa.consumed, current: sa.current, comps })
            } else {
                (rb, State { consumed: sb.consumed, current: sb.current, comps })
            }
        },
        Parser::Many(q) => {
            let (r, s) = many_spec(*q, ctx, st, ctx.toks.len());
            match r {
                Ok(vs) => (Ok(Val::List(vs)), s),
                Err(e) => (Err(e), s),
            }
        },
        Parser::Optional(q) => {
            let (r, s) = eval_spec(*q, ctx, st);
            match r {
                Ok(v) => (Ok(Val::Present(Box::new(v))), s),
                Err(Error::Missing) => (Ok(Val::Absent), rewound(st, s)),
                Err(e) => (Err(e), s),
            }
        },
        Parser::Fallback(q, d) => {
            let (r, s) = eval_spec(*q, ctx, st);
            match r {
                Ok(v) => (Ok(v), s),
                Err(Error::Missing) => (Ok(val_of(d)), rewound(st, s)),
                Err(e) => (Err(e), s),
            }
        },
    }
}

/// Repeated runs of `q`: stops at "not found" or at a run that consumes
/// nothing (both leave the store as before that run), and after `fuel` more
/// runs that consumed something.
pub open spec fn many_spec(q: Parser, ctx: Ctx, st: State, fuel: nat) -> (Result<Seq<Val>, Error>, State)
    decreases q, fuel + 1,
{
    let (r, s) = eval_spec(q, ctx, st);
    match r {
        Err(Error::Missing) => (Ok(seq![]), rewound(st, s)),
        Err(e) => (Err(e), s),
        Ok(v) => if count_true(s.consumed) == count_true(st.consumed) {
            (Ok(seq![]), rewound(st, s))
        } else if fuel == 0 {
            (Ok(seq![v]), s)
        } else {
            let (r2, s2) = many_spec(q, ctx, s, (fuel - 1) as nat);
            match r2 {
                Ok(vs) => (Ok(seq![v] + vs), s2),
                Err(e) => (Err(e), s2),
            }
        },
    }
}

} // verus!

verus! {

pub open spec fn same_request(a: Option<Complete>, b: Option<Complete>) -> bool {
    match (a, b) {
        (Some(x), Some(y)) => x.style == y.style && x.touching == y.touching,
        (None, None) => true,
        _ => false,
    }
}

/// The parts of the store that evaluation never changes are kept.
pub open spec fn frame(a: Args, b: Args) -> bool {
    &&& b.items == a.items
    &&& b.separator == a.separator
    &&& b.env == a.env
    &&& same_request(a.comp, b.comp)
    &&& b.wf()
}

pub(crate) fn copy_bools(v: &Vec<bool>) -> (r: Vec<bool>)
    ensures
        r@ == v@,
{
    let mut r: Vec<bool> = Vec::new();
    let mut i: usize = 0;
    while i < v.len()
        invariant
            i <= v@.len(),
            r@ == v@.take(i as int),
        decreases v@.len() - i,
    {
        r.push(v[i]);
        i = i + 1;
        assert(r@ =~= v@.take(i as int));
    }
    assert(v@.take(i as int) =~= v@);
    r
}

impl Args {
    /// Marks token `i` consumed and current.
    fn take_tok(&mut self, i: usize)
        requires
            old(self).wf(),
            i < old(self).items@.len(),
        ensures
            frame(*old(self), *final(self)),
            state_of(*final(self)) == take_tok(state_of(*old(self)), i as int),
    {
        self.consumed.set(i, true);
        self.current = Some(i);
    }

    /// Adds a candidate where completion is active.
    fn push_comp(&mut self, c: Comp)
        requires
            old(self).wf(),
        ensures
            frame(*old(self), *final(self)),
            state_of(*final(self)) == push_comp(state_of(*old(self)), c),
    {
        match &mut self.comp {
            Some(comp) => {
                comp.comps.push(c);
            },
            None => {},
        }
    }

    fn push_item(&mut self, item: Option<Item>)
        requires
            old(self).wf(),
        ensures
            frame(*old(self), *final(self)),
            state_of(*final(self)) == push_item(state_of(*old(self)), item),
    {
        match item {
            Some(it) => {
                let d = self.depth();
                self.push_comp(Comp::Item { item: it, depth: d });
            },
            None => {},
        }
    }

    /// Swaps the collected candidates with `v` where completion is active.
    fn swap_comps(&mut self, v: Vec<Comp>) -> (r: Vec<Comp>)
        requires
            old(self).wf(),
        ensures
            frame(*old(self), *final(self)),
            final(self).consumed == old(self).consumed,
            final(self).current == old(self).current,
            old(self).comp is Some ==> comps_of(final(self).comp) == Some(v@) && r@ == old(self).comp.unwrap().comps@,
            old(self).comp is None ==> final(self).comp is None && r == v,
    {
        let mut v = v;
        match &mut self.comp {
            Some(comp) => {
                std::mem::swap(&mut comp.comps, &mut v);
            },
            None => {},
        }
        v
    }
}

fn has_short_exec(n: &Named, c: char) -> (r: bool)
    ensures
        r == has_short(*n, c),
{
    let mut i: usize = 0;
    while i < n.short.len()
        invariant
            i <= n.short@.len(),
            forall|j: int| 0 <= j < i ==> n.short@[j] != c,
        decreases n.short@.len() - i,
    {
        if n.short[i] == c {
            assert(n.short@[i as int] == c);
            return true;
        }
        i = i + 1;
    }
    false
}

fn has_long_exec(n: &Named, l: &str) -> (r: bool)
    ensures
        r == has_long(*n, l@),
{
    let mut i: usize = 0;
    while i < n.long.len()
        invariant
            i <= n.long@.len(),
            forall|j: int| 0 <= j < i ==> (#[trigger] n.long@[j])@ != l@,
        decreases n.long@.len() - i,
    {
        if str_eq(n.long[i].as_str(), l) {
            return true;
        }
        i = i + 1;
    }
    false
}

pub open spec fn opt_opt_view(r: Option<Option<String>>) -> Option<Option<Seq<char>>> {
    match r {
        Some(Some(s)) => Some(Some(s@)),
        Some(None) => Some(None),
        None => None,
    }
}

fn named_value_exec(n: &Named, a: &Arg) -> (r: Option<Option<String>>)
    ensures
        opt_opt_view(r) == named_value(*n, *a),
{
    match a {
        Arg::Short(_, s) => {
            let len = s.unicode_len();
            if len >= 2 && s.get_char(0) == '-' && has_short_exec(n, s.get_char(1)) {
                if len == 2 {
                    Some(None)
                } else if s.get_char(2) == '=' {
                    Some(Some(owned(s.substring_char(3, len))))
                } else {
                    None
                }
            } else {
                None
            }
        },
        Arg::Long(_, s) => {
            let len = s.unicode_len();
            if len >= 3 && s.get_char(0) == '-' && s.get_char(1) == '-' {
                let e = crate::args::find_eq(s.as_str());
                if has_long_exec(n, s.substring_char(2, e)) {
                    if e == len {
                        Some(None)
                    } else {
                        Some(Some(owned(s.substring_char(e + 1, len))))
                    }
                } else {
                    None
                }
            } else {
                None
            }
        },
        Arg::Word(..) => None,
    }
}

fn env_lookup_exec(env: &Vec<(String, String)>, name: &str) -> (r: Option<String>)
    ensures
        opt_string_view(r) == env_lookup(env@, name@, 0),
{
    let mut k: usize = 0;
    while k < env.len()
        invariant
            k <= env@.len(),
            env_lookup(env@, name@, 0) == env_lookup(env@, name@, k as int),
        decreases env@.len() - k,
    {
        if str_eq(env[k].0.as_str(), name) {
            return Some(env[k].1.clone());
        }
        k = k + 1;
    }
    None
}

fn env_value_exec(names: &Vec<String>, env: &Vec<(String, String)>) -> (r: Option<String>)
    ensures
        opt_string_view(r) == env_value(names@, env@, 0),
{
    let mut k: usize = 0;
    while k < names.len()
        invariant
            k <= names@.len(),
            env_value(names@, env@, 0) == env_value(names@, env@, k as int),
        decreases names@.len() - k,
    {
        match env_lookup_exec(env, names[k].as_str()) {
            Some(v) => {
                return Some(v);
            },
            None => {},
        }
        k = k + 1;
    }
    None
}

fn display_name_exec(n: &Named) -> (r: Option<ShortLong>)
    ensures
        r == display_name(*n),
{
    if n.short.len() > 0 && n.long.len() > 0 {
        Some(ShortLong::ShortLong(n.short[0], n.long[0].clone()))
    } else if n.short.len() > 0 {
        Some(ShortLong::Short(n.short[0]))
    } else if n.long.len() > 0 {
        Some(ShortLong::Long(n.long[0].clone()))
    } else {
        None
    }
}

pub(crate) fn flag_item_exec(n: &Named) -> (r: Option<Item>)
    ensures
        r == flag_item(*n),
{
    match display_name_exec(n) {
        Some(name) => Some(Item::Flag { name, help: opt_clone(&n.help) }),
        None => None,
    }
}

pub(crate) fn arg_item_exec(a: &Argument) -> (r: Option<Item>)
    ensures
        r == arg_item(*a),
{
    match display_name_exec(&a.named) {
        Some(name) => {
            let env = if a.named.env.len() > 0 {
                Some(a.named.env[0].clone())
            } else {
                None
            };
            Some(Item::Argument { name, metavar: a.metavar.clone(), env, help: opt_clone(&a.named.help) })
        },
        None => None,
    }
}

} // verus!

verus! {

pub open spec fn opt_int(r: Option<usize>) -> Option<int> {
    match r {
        Some(i) => Some(i as int),
        None => None,
    }
}

proof fn lemma_first_from_bound(c: Seq<bool>, k: int, h: spec_fn(int) -> bool)
    ensures
        first_from(c, k, h) matches Some(i) ==> 0 <= k <= i < c.len() && !c[i] && h(i),
    decreases c.len() - k,
{
    if 0 <= k < c.len() {
        lemma_first_from_bound(c, k + 1, h);
    }
}

fn find_named(n: &Named, args: &Args, bare: bool) -> (r: Option<usize>)
    requires
        args.wf(),
    ensures
        bare ==> opt_int(r) == first_from(args.consumed@, 0, flag_hit(*n, args.items@)),
        !bare ==> opt_int(r) == first_from(args.consumed@, 0, arg_hit(*n, args.items@)),
        r matches Some(i) ==> i < args.items@.len(),
{
    let ghost h = if bare {
        flag_hit(*n, args.items@)
    } else {
        arg_hit(*n, args.items@)
    };
    let mut i: usize = 0;
    while i < args.items.len()
        invariant
            args.wf(),
            i <= args.items@.len(),
            h == (if bare {
                flag_hit(*n, args.items@)
            } else {
                arg_hit(*n, args.items@)
            }),
            first_from(args.consumed@, 0, h) == first_from(args.consumed@, i as int, h),
        decreases args.items@.len() - i,
    {
        if !args.consumed[i] {
            let v = named_value_exec(n, &args.items[i]);
            let hit = match v {
                Some(None) => true,
                Some(Some(_)) => !bare,
                None => false,
            };
            if hit {
                return Some(i);
            }
        }
        i = i + 1;
    }
    None
}

fn find_positional(p: &Positional, args: &Args) -> (r: Option<usize>)
    requires
        args.wf(),
    ensures
        opt_int(r) == first_from(args.consumed@, 0, pos_hit(*p, ctx_of(*args))),
        r matches Some(i) ==> i < args.items@.len(),
{
    let ghost h = pos_hit(*p, ctx_of(*args));
    let mut i: usize = 0;
    while i < args.items.len()
        invariant
            args.wf(),
            i <= args.items@.len(),
            h == pos_hit(*p, ctx_of(*args)),
            first_from(args.consumed@, 0, h) == first_from(args.consumed@, i as int, h),
        decreases args.items@.len() - i,
    {
        if !args.consumed[i] {
            let is_word = match &args.items[i] {
                Arg::Word(..) => true,
                _ => false,
            };
            let after = match args.separator {
                Some(s) => s < i,
                None => false,
            };
            if is_word && (!p.strict || after) {
                return Some(i);
            }
        }
        i = i + 1;
    }
    None
}

fn any_accepts_exec(x: &Anything, a: &Arg) -> (r: bool)
    ensures
        r == any_accepts(*x, *a),
{
    let valid = match a {
        Arg::Word(_, v) => *v,
        _ => true,
    };
    valid && match &x.literal {
        Some(l) => str_eq(a.text_str(), l.as_str()),
        None => true,
    }
}

fn find_any(x: &Anything, args: &Args) -> (r: Option<usize>)
    requires
        args.wf(),
    ensures
        opt_int(r) == any_found(*x, ctx_of(*args), state_of(*args)),
        r matches Some(i) ==> i < args.items@.len(),
{
    let ghost h = if x.anywhere {
        any_hit(*x, args.items@)
    } else {
        any_tok()
    };
    let mut i: usize = 0;
    while i < args.items.len()
        invariant
            args.wf(),
            i <= args.items@.len(),
            h == (if x.anywhere {
                any_hit(*x, args.items@)
            } else {
                any_tok()
            }),
            first_from(args.consumed@, 0, h) == first_from(args.consumed@, i as int, h),
        decreases args.items@.len() - i,
    {
        if !args.consumed[i] {
            let ok = any_accepts_exec(x, &args.items[i]);
            if x.anywhere {
                if ok {
                    return Some(i);
                }
            } else {
                if ok {
                    return Some(i);
                } else {
                    return None;
                }
            }
        }
        i = i + 1;
    }
    None
}

fn convert_exec(kind: Kind, t: &str, pos: Option<usize>) -> (r: Result<Value, Error>)
    ensures
        res_view(r) == convert(kind, t@, pos),
{
    match kind {
        Kind::Text => Ok(Value::Text(owned(t))),
        Kind::Number => match parse_decimal(t) {
            Some(n) => Ok(Value::Number(n)),
            None => Err(Error::ParseFailed(pos, Reason::NotNumber)),
        },
    }
}

fn word_value_exec(args: &Args, i: usize, kind: Kind) -> (r: Result<Value, Error>)
    requires
        i < args.items@.len(),
    ensures
        res_view(r) == word_value(ctx_of(*args), i as int, kind),
{
    match &args.items[i] {
        Arg::Word(s, false) => Err(Error::ParseFailed(Some(i), Reason::NotText)),
        a => convert_exec(kind, a.text_str(), Some(i)),
    }
}

impl Flag {
    pub fn eval(&self, args: &mut Args) -> (r: Result<Value, Error>)
        requires
            old(args).wf(),
        ensures
            frame(*old(args), *final(args)),
            (res_view(r), state_of(*final(args))) == flag_spec(*self, ctx_of(*old(args)), state_of(*old(args))),
    {
        match find_named(&self.named, args, true) {
            Some(i) => {
                args.take_tok(i);
                Ok(self.present.duplicate())
            },
            None => {
                if env_value_exec(&self.named.env, &args.env).is_some() {
                    Ok(self.present.duplicate())
                } else {
                    args.push_item(flag_item_exec(&self.named));
                    match &self.absent {
                        Some(v) => Ok(v.duplicate()),
                        None => Err(Error::Missing),
                    }
                }
            },
        }
    }
}

impl Argument {
    pub fn eval(&self, args: &mut Args) -> (r: Result<Value, Error>)
        requires
            old(args).wf(),
        ensures
            frame(*old(args), *final(args)),
            (res_view(r), state_of(*final(args))) == argument_spec(*self, ctx_of(*old(args)), state_of(*old(args))),
    {
        let ghost st = state_of(*args);
        match find_named(&self.named, args, false) {
            Some(i) => {
                proof {
                    lemma_first_from_bound(args.consumed@, 0, arg_hit(self.named, args.items@));
                }
                match named_value_exec(&self.named, &args.items[i]) {
                    Some(Some(v)) => {
                        args.take_tok(i);
                        convert_exec(self.kind, v.as_str(), Some(i))
                    },
                    Some(None) => {
                        let n = args.items.len();
                        let next_free = i + 1 < n && !args.consumed[i + 1] && match &args.items[i + 1] {
                            Arg::Word(..) => true,
                            _ => false,
                        };
                        let active = args.comp.is_some();
                        args.take_tok(i);
                        if !self.adjacent && next_free {
                            let r = word_value_exec(args, i + 1, self.kind);
                            args.take_tok(i + 1);
                            r
                        } else if active && i + 1 == n {
                            let d = args.depth();
                            args.push_comp(
                                Comp::Meta {
                                    meta: self.metavar.clone(),
                                    depth: d,
                                    is_arg: true,
                                    help: opt_clone(&self.named.help),
                                },
                            );
                            Err(Error::Missing)
                        } else {
                            Err(Error::ParseFailed(Some(i), Reason::NoValue))
                        }
                    },
                    None => Err(Error::Missing),
                }
            },
            None => match env_value_exec(&self.named.env, &args.env) {
                Some(v) => convert_exec(self.kind, v.as_str(), None),
                None => {
                    args.push_item(arg_item_exec(self));
                    Err(Error::Missing)
                },
            },
        }
    }
}

impl Positional {
    pub fn eval(&self, args: &mut Args) -> (r: Result<Value, Error>)
        requires
            old(args).wf(),
        ensures
            frame(*old(args), *final(args)),
            (res_view(r), state_of(*final(args))) == positional_spec(*self, ctx_of(*old(args)), state_of(*old(args))),
    {
        match find_positional(self, args) {
            Some(i) => {
                let r = word_value_exec(args, i, self.kind);
                args.take_tok(i);
                r
            },
            None => {
                let d = args.depth();
                args.push_comp(
                    Comp::Meta { meta: self.metavar.clone(), depth: d, is_arg: false, help: opt_clone(&self.help) },
                );
                Err(Error::Missing)
            },
        }
    }
}

impl Anything {
    pub fn eval(&self, args: &mut Args) -> (r: Result<Value, Error>)
        requires
            old(args).wf(),
        ensures
            frame(*old(args), *final(args)),
            (res_view(r), state_of(*final(args))) == any_spec(*self, ctx_of(*old(args)), state_of(*old(args))),
    {
        match find_any(self, args) {
            Some(i) => {
                let v = match &self.literal {
                    Some(_) => self.value.duplicate(),
                    None => Value::Text(owned(args.items[i].text_str())),
                };
                args.take_tok(i);
                Ok(v)
            },
            None => {
                let d = args.depth();
                args.push_comp(
                    Comp::Meta { meta: self.metavar.clone(), depth: d, is_arg: false, help: opt_clone(&self.help) },
                );
                Err(Error::Missing)
            },
        }
    }
}

} // verus!

verus! {

pub open spec fn list_view(r: Result<Vec<Value>, Error>) -> Result<Seq<Val>, Error> {
    match r {
        Ok(vs) => Ok(crate::value::vals_of(vs)),
        Err(e) => Err(e),
    }
}

fn err_ge(ea: &Error, eb: &Error) -> (r: bool)
    ensures
        r == (err_rank(*ea) >= err_rank(*eb)),
{
    match (ea, eb) {
        (Error::ParseFailed(Some(p), _), Error::ParseFailed(Some(q), _)) => *p >= *q,
        (Error::ParseFailed(Some(_), _), _) => true,
        (Error::ParseFailed(None, _), Error::ParseFailed(Some(_), _)) => false,
        (Error::ParseFailed(None, _), _) => true,
        (_, Error::ParseFailed(..)) => false,
        _ => true,
    }
}

fn first_wins_exec(ra: &Result<Value, Error>, ca: usize, rb: &Result<Value, Error>, cb: usize) -> (r: bool)
    ensures
        r == first_wins(res_view(*ra), ca as nat, res_view(*rb), cb as nat),
{
    match (ra, rb) {
        (Ok(_), Ok(_)) => ca >= cb,
        (Ok(_), Err(_)) => true,
        (Err(_), Ok(_)) => false,
        (Err(ea), Err(eb)) => err_ge(ea, eb),
    }
}

fn count_bools(v: &Vec<bool>) -> (r: usize)
    ensures
        r == count_true(v@),
{
    let mut n: usize = 0;
    let mut i: usize = 0;
    while i < v.len()
        invariant
            i <= v@.len(),
            n == count_true(v@.take(i as int)),
            n <= i,
        decreases v@.len() - i,
    {
        assert(v@.take(i + 1).drop_last() =~= v@.take(i as int));
        if v[i] {
            n = n + 1;
        }
        i = i + 1;
    }
    assert(v@.take(i as int) =~= v@);
    n
}

impl Parser {
    /// Evaluates the parser against the store, consuming what it matches
    /// and, where completion is active, collecting candidates.
    pub fn eval(&self, args: &mut Args) -> (r: Result<Value, Error>)
        requires
            old(args).wf(),
        ensures
            frame(*old(args), *final(args)),
            (res_view(r), state_of(*final(args))) == eval_spec(*self, ctx_of(*old(args)), state_of(*old(args))),
        decreases self, 0nat,
    {
        match self {
            Parser::Flag(f) => f.eval(args),
            Parser::Argument(a) => a.eval(args),
            Parser::Positional(p) => p.eval(args),
            Parser::Any(x) => x.eval(args),
            Parser::Command(c) => match find_command(c, args) {
                Some(i) => {
                    let ghost st = state_of(*args);
                    let saved = copy_bools(&args.consumed);
                    args.mask_to(i);
                    let r = c.inner.eval(args);
                    args.unmask_from(&saved, i);
                    assert(state_of(*args).consumed =~= unmasked(st, eval_spec(*c.inner, ctx_of(*old(args)), masked(st, i as int)).1, i as int).consumed);
                    r
                },
                None => {
                    let it = Item::Command {
                        name: c.name.clone(),
                        short: c.short,
                        help: opt_clone(&c.help),
                        meta: Box::new(c.inner.meta()),
                    };
                    args.push_item(Some(it));
                    Err(Error::Missing)
                },
            },
            Parser::Product(a, b) => {
                let ra = a.eval(args);
                match ra {
                    Ok(x) => match b.eval(args) {
                        Ok(y) => Ok(Value::Pair(Box::new(x), Box::new(y))),
                        Err(e) => Err(e),
                    },
                    Err(Error::Missing) => {
                        if args.comp.is_some() {
                            let _ = b.eval(args);
                        }
                        Err(Error::Missing)
                    },
                    Err(e) => Err(e),
                }
            },
            Parser::Alt(a, b) => {
                let ghost st = state_of(*args);
                let saved = copy_bools(&args.consumed);
                let saved_current = args.current;
                let base = args.swap_comps(Vec::new());
                assert(state_of(*args) == cleared(st));
                let ra = a.eval(args);
                let mut consumed_a = copy_bools(&saved);
                std::mem::swap(&mut args.consumed, &mut consumed_a);
                let current_a = args.current;
                args.current = saved_current;
                let mut comps_a = args.swap_comps(Vec::new());
                assert(state_of(*args) == cleared(st));
                let rb = b.eval(args);
                let mut comps_b = args.swap_comps(Vec::new());
                let ca = count_bools(&consumed_a);
                let cb = count_bools(&args.consumed);
                let wins = first_wins_exec(&ra, ca, &rb, cb);
                if wins {
                    args.consumed = consumed_a;
                    args.current = current_a;
                }
                let mut all = base;
                all.append(&mut comps_a);
                all.append(&mut comps_b);
                let _ = args.swap_comps(all);
                if wins {
                    ra
                } else {
                    rb
                }
            },
            Parser::Many(q) => {
                let n = args.items.len();
                match many_from(q, args, n) {
                    Ok(vs) => Ok(Value::List(vs)),
                    Err(e) => Err(e),
                }
            },
            Parser::Optional(q) => {
                let saved = copy_bools(&args.consumed);
                let saved_current = args.current;
                match q.eval(args) {
                    Ok(v) => Ok(Value::Present(Box::new(v))),
                    Err(Error::Missing) => {
                        args.consumed = saved;
                        args.current = saved_current;
                        Ok(Value::Absent)
                    },
                    Err(e) => Err(e),
                }
            },
            Parser::Fallback(q, d) => {
                let saved = copy_bools(&args.consumed);
                let saved_current = args.current;
                match q.eval(args) {
                    Ok(v) => Ok(v),
                    Err(Error::Missing) => {
                        args.consumed = saved;
                        args.current = saved_current;
                        Ok(d.duplicate())
                    },
                    Err(e) => Err(e),
                }
            },
        }
    }
}

fn many_from(q: &Parser, args: &mut Args, fuel: usize) -> (r: Result<Vec<Value>, Error>)
    requires
        old(args).wf(),
    ensures
        frame(*old(args), *final(args)),
        (list_view(r), state_of(*final(args))) == many_spec(*q, ctx_of(*old(args)), state_of(*old(args)), fuel as nat),
    decreases q, fuel as nat + 1,
{
    let saved = copy_bools(&args.consumed);
    let saved_current = args.current;
    let before = count_bools(&args.consumed);
    match q.eval(args) {
        Err(Error::Missing) => {
            args.consumed = saved;
            args.current = saved_current;
            let out: Vec<Value> = Vec::new();
            assert(crate::value::vals_of(out) =~= Seq::<Val>::empty());
            Ok(out)
        },
        Err(e) => Err(e),
        Ok(v) => {
            let after = count_bools(&args.consumed);
            if after == before {
                args.consumed = saved;
                args.current = saved_current;
                let out: Vec<Value> = Vec::new();
                assert(crate::value::vals_of(out) =~= Seq::<Val>::empty());
                Ok(out)
            } else if fuel == 0 {
                let ghost vv = val_of(v);
                let mut out: Vec<Value> = Vec::new();
                out.push(v);
                assert(crate::value::vals_of(out) =~= seq![vv]);
                Ok(out)
            } else {
                let ghost vv = val_of(v);
                match many_from(q, args, fuel - 1) {
                    Ok(vs) => {
                        let ghost rest = crate::value::vals_of(vs);
                        let mut vs = vs;
                        vs.insert(0, v);
                        assert(crate::value::vals_of(vs) =~= seq![vv] + rest);
                        Ok(vs)
                    },
                    Err(e) => Err(e),
                }
            }
        },
    }
}

} // verus!

verus! {

/// When only one branch of an alternation succeeds in a normal run, the
/// alternation gives exactly what that branch gives alone: the same result,
/// and the same tokens consumed.
pub proof fn lemma_alt_single_success(a: Parser, b: Parser, ctx: Ctx, st: State)
    requires
        st.comps is None,
        eval_spec(a, ctx, st).0 is Ok != eval_spec(b, ctx, st).0 is Ok,
    ensures
        ({
            let (r, s) = eval_spec(Parser::Alt(Box::new(a), Box::new(b)), ctx, st);
            let (r1, s1) = if eval_spec(a, ctx, st).0 is Ok {
                eval_spec(a, ctx, st)
            } else {
                eval_spec(b, ctx, st)
            };
            r == r1 && s.consumed == s1.consumed && s.current == s1.current
        }),
{
    assert(cleared(st) == st);
}

} // verus!

verus! {

fn names_command_exec(c: &Command, a: &Arg) -> (r: bool)
    ensures
        r == names_command(*c, *a),
{
    let valid = match a {
        Arg::Word(_, v) => *v,
        _ => true,
    };
    if !valid {
        return false;
    }
    if str_eq(a.text_str(), c.name.as_str()) {
        return true;
    }
    match c.short {
        Some(s) => {
            let t = crate::text::char_string(s);
            str_eq(a.text_str(), t.as_str())
        },
        None => false,
    }
}

fn find_command(c: &Command, args: &Args) -> (r: Option<usize>)
    requires
        args.wf(),
    ensures
        opt_int(r) == command_at(*c, ctx_of(*args), state_of(*args)),
        r matches Some(i) ==> i < args.items@.len(),
{
    let ghost h = word_tok(ctx_of(*args));
    let mut i: usize = 0;
    while i < args.items.len()
        invariant
            args.wf(),
            i <= args.items@.len(),
            h == word_tok(ctx_of(*args)),
            first_from(args.consumed@, 0, h) == first_from(args.consumed@, i as int, h),
        decreases args.items@.len() - i,
    {
        if !args.consumed[i] {
            let is_word = match &args.items[i] {
                Arg::Word(..) => true,
                _ => false,
            };
            if is_word {
                if names_command_exec(c, &args.items[i]) {
                    return Some(i);
                } else {
                    return None;
                }
            }
        }
        i = i + 1;
    }
    None
}

impl Args {
    /// Marks every token up to `i` consumed, with `i` current.
    fn mask_to(&mut self, i: usize)
        requires
            old(self).wf(),
            i < old(self).items@.len(),
        ensures
            frame(*old(self), *final(self)),
            state_of(*final(self)) == masked(state_of(*old(self)), i as int),
    {
        let ghost orig = self.consumed@;
        let mut j: usize = 0;
        while j < i
            invariant
                self.wf(),
                i < self.items@.len(),
                j <= i,
                self.items == old(self).items,
                self.separator == old(self).separator,
                self.env == old(self).env,
                self.comp == old(self).comp,
                self.consumed@ =~= Seq::new(orig.len(), |k: int| if k < j { true } else { orig[k] }),
                orig == old(self).consumed@,
            decreases i - j,
        {
            self.consumed.set(j, true);
            j = j + 1;
        }
        self.consumed.set(i, true);
        self.current = Some(i);
        assert(self.consumed@ =~= masked(state_of(*old(self)), i as int).consumed);
    }

    /// Gives tokens before `i` their marks from `saved` back.
    fn unmask_from(&mut self, saved: &Vec<bool>, i: usize)
        requires
            old(self).wf(),
            saved@.len() == old(self).consumed@.len(),
            i < saved@.len(),
            old(self).separator matches Some(s) ==> (s < i ==> saved@[s as int]),
        ensures
            frame(*old(self), *final(self)),
            final(self).consumed@ == Seq::new(
                saved@.len(),
                |j: int| if j < i { saved@[j] } else { old(self).consumed@[j] },
            ),
            final(self).current == old(self).current,
            final(self).comp == old(self).comp,
    {
        let ghost orig = self.consumed@;
        let mut j: usize = 0;
        while j < i
            invariant
                i < self.items@.len(),
                saved@.len() == self.items@.len(),
                j <= i,
                self.items == old(self).items,
                self.separator == old(self).separator,
                self.env == old(self).env,
                self.comp == old(self).comp,
                self.current == old(self).current,
                orig == old(self).consumed@,
                orig.len() == saved@.len(),
                self.consumed@ =~= Seq::new(orig.len(), |k: int| if k < j { saved@[k] } else { orig[k] }),
            decreases i - j,
        {
            self.consumed.set(j, saved[j]);
            j = j + 1;
        }
    }
}

} // verus!
