//! Completion candidates and their rendering for a shell.
use vstd::prelude::*;
use vstd::string::*;
use crate::item::{
    arg_matches, arg_matches_spec, cmd_matches, cmd_matches_spec, opt_string_view, opt_view,
    preferred_name_spec, Item, ShortLong,
};
use crate::text::{join, owned};

verus! {

/// The shell dialect that completion output is rendered for.
#[derive(Clone, Copy, Debug, PartialEq, Eq)]
pub enum Style {
    Bash,
    Zsh,
}

/// One completion candidate, tagged with the structural depth at which the
/// evaluation reached it.
#[derive(Debug, PartialEq)]
pub enum Comp {
    /// A static item: a flag, an argument, a command or a positional.
    Item { item: Item, depth: usize },
    /// A dynamically produced value.
    Value { body: String, help: Option<String>, depth: usize },
    /// A metavar placeholder; `is_arg` marks an option whose value is being typed.
    Meta { meta: String, depth: usize, is_arg: bool, help: Option<String> },
}

impl Comp {
    pub open spec fn spec_depth(self) -> usize {
        match self {
            Comp::Item { depth, .. } => depth,
            Comp::Value { depth, .. } => depth,
            Comp::Meta { depth, .. } => depth,
        }
    }

    pub fn depth(&self) -> (r: usize)
        ensures
            r == self.spec_depth(),
    {
        match self {
            Comp::Item { depth, .. } | Comp::Value { depth, .. } | Comp::Meta { depth, .. } => *depth,
        }
    }

    pub open spec fn is_value(self) -> bool {
        self is Value
    }

    pub open spec fn is_arg_meta(self) -> bool {
        match self {
            Comp::Meta { is_arg, .. } => is_arg,
            _ => false,
        }
    }
}

/// The per-request completion state: the dialect, the candidates collected
/// so far, and whether the cursor touches the last token.
pub struct Complete {
    pub style: Style,
    pub comps: Vec<Comp>,
    pub touching: bool,
}

/// A candidate as it is shown: `subst` is the form used in a list of several
/// (with a metavar for arguments), `subst1` the form inserted when it is the
/// only one.
pub struct Shown {
    pub descr: Option<Seq<char>>,
    pub subst: Seq<char>,
    pub subst1: Seq<char>,
    pub is_value: bool,
}

pub struct ShowComp {
    pub descr: Option<String>,
    pub subst: String,
    pub subst1: String,
    pub is_value: bool,
}

impl View for ShowComp {
    type V = Shown;

    open spec fn view(&self) -> Shown {
        Shown { descr: opt_string_view(self.descr), subst: self.subst@, subst1: self.subst1@, is_value: self.is_value }
    }
}

pub open spec fn shown_seq(v: Seq<ShowComp>) -> Seq<Shown> {
    v.map_values(|s: ShowComp| s@)
}

pub open spec fn bracketed(m: Seq<char>) -> Seq<char> {
    seq!['<'] + m + seq!['>']
}

pub open spec fn plain(s: Seq<char>, descr: Option<Seq<char>>) -> Shown {
    Shown { descr, subst: s, subst1: s, is_value: false }
}

/// How a candidate is shown for the fragment `arg`, or `None` when it does not
/// fit the fragment. A positional item is shown as its bracketed metavar, the
/// same way as a positional placeholder. A placeholder of an option's value is
/// not listed: it replaces the whole output (see `complete_spec`).
pub open spec fn show_of(c: Comp, arg: Option<Seq<char>>) -> Option<Shown> {
    match c {
        Comp::Item { item, .. } => match item {
            Item::Positional { metavar, help } => Some(plain(bracketed(metavar@), opt_string_view(help))),
            Item::Command { name, short, help, .. } => if cmd_matches_spec(arg, name@, short) {
                Some(plain(name@, opt_string_view(help)))
            } else {
                None
            },
            Item::Flag { name, help } => match arg_matches_spec(arg, name) {
                Some(l) => Some(plain(l, opt_string_view(help))),
                None => None,
            },
            Item::Argument { name, metavar, help, .. } => match arg_matches_spec(arg, name) {
                Some(l) => Some(
                    Shown {
                        descr: opt_string_view(help),
                        subst: l + seq![' '] + bracketed(metavar@),
                        subst1: l,
                        is_value: false,
                    },
                ),
                None => None,
            },
        },
        Comp::Value { body, help, .. } => Some(
            Shown { descr: opt_string_view(help), subst: body@, subst1: body@, is_value: true },
        ),
        Comp::Meta { meta, is_arg, help, .. } => if is_arg {
            None
        } else {
            Some(plain(bracketed(meta@), opt_string_view(help)))
        },
    }
}

/// The largest depth among the candidates, 0 when there are none.
pub open spec fn max_depth(comps: Seq<Comp>) -> usize
    decreases comps.len(),
{
    if comps.len() == 0 {
        0
    } else {
        let m = max_depth(comps.drop_last());
        let d = comps.last().spec_depth();
        if d > m {
            d
        } else {
            m
        }
    }
}

/// The shown forms of the candidates at depth `d`, in order.
pub open spec fn collect(comps: Seq<Comp>, d: usize, arg: Option<Seq<char>>) -> Seq<Shown>
    decreases comps.len(),
{
    if comps.len() == 0 {
        seq![]
    } else {
        let prev = collect(comps.drop_last(), d, arg);
        let c = comps.last();
        if c.spec_depth() == d && show_of(c, arg) is Some {
            prev.push(show_of(c, arg).unwrap())
        } else {
            prev
        }
    }
}

/// The shown forms of the value candidates at depth `d`, in order.
pub open spec fn collect_values(comps: Seq<Comp>, d: usize) -> Seq<Shown>
    decreases comps.len(),
{
    if comps.len() == 0 {
        seq![]
    } else {
        let prev = collect_values(comps.drop_last(), d);
        let c = comps.last();
        if c.spec_depth() == d && c.is_value() {
            prev.push(show_of(c, None).unwrap())
        } else {
            prev
        }
    }
}

pub open spec fn has_value(comps: Seq<Comp>, d: usize) -> bool {
    exists|i: int| 0 <= i < comps.len() && (#[trigger] comps[i]).spec_depth() == d && comps[i].is_value()
}

/// The first candidate from index `k` on that is a value placeholder at depth `d`.
pub open spec fn first_arg_meta(comps: Seq<Comp>, d: usize, k: int) -> Option<int>
    decreases comps.len() - k,
{
    if k < 0 || k >= comps.len() {
        None
    } else if comps[k].spec_depth() == d && comps[k].is_arg_meta() {
        Some(k)
    } else {
        first_arg_meta(comps, d, k + 1)
    }
}

/// The list that is rendered: the candidates at the largest depth, or only
/// the values among them where there is any.
pub open spec fn shown(comps: Seq<Comp>, arg: Option<Seq<char>>) -> Seq<Shown> {
    let d = max_depth(comps);
    if has_value(comps, d) {
        collect_values(comps, d)
    } else {
        collect(comps, d, arg)
    }
}

pub open spec fn pad(s: Seq<char>, w: nat) -> Seq<char> {
    if s.len() >= w {
        s
    } else {
        s + Seq::new((w - s.len()) as nat, |_i: int| ' ')
    }
}

pub open spec fn line(style: Style, w: nat, x: Shown) -> Seq<char> {
    match (style, x.descr) {
        (Style::Bash, None) => x.subst + seq!['\n'],
        (Style::Bash, Some(d)) => pad(x.subst, w) + seq![' ', ' '] + d + seq!['\n'],
        (Style::Zsh, None) => x.subst1 + seq!['\n'],
        (Style::Zsh, Some(d)) => x.subst1 + seq!['\t'] + d + seq!['\n'],
    }
}

pub open spec fn max_width(items: Seq<Shown>) -> nat
    decreases items.len(),
{
    if items.len() == 0 {
        0
    } else {
        let m = max_width(items.drop_last());
        let w = items.last().subst.len();
        if w > m {
            w
        } else {
            m
        }
    }
}

pub open spec fn render_lines(style: Style, w: nat, items: Seq<Shown>) -> Seq<char>
    decreases items.len(),
{
    if items.len() == 0 {
        seq![]
    } else {
        render_lines(style, w, items.drop_last()) + line(style, w, items.last())
    }
}

/// A single candidate is printed alone in its short form; several are
/// printed one per line in the dialect's layout.
pub open spec fn render(style: Style, items: Seq<Shown>) -> Seq<char> {
    if items.len() == 1 {
        items[0].subst1 + seq!['\n']
    } else {
        render_lines(style, max_width(items), items)
    }
}

/// The completion output for the fragment `arg`.
pub open spec fn complete_spec(comps: Seq<Comp>, style: Style, arg: Option<Seq<char>>) -> Seq<char> {
    let d = max_depth(comps);
    match first_arg_meta(comps, d, 0) {
        Some(i) => match arg {
            Some(a) => a + seq!['\n'],
            None => match comps[i] {
                Comp::Meta { meta, .. } => bracketed(meta@) + seq!['\n'],
                _ => seq![],
            },
        },
        None => render(style, shown(comps, arg)),
    }
}

} // verus!

verus! {

pub(crate) fn opt_clone(o: &Option<String>) -> (r: Option<String>)
    ensures
        r == *o,
{
    match o {
        Some(s) => Some(s.clone()),
        None => None,
    }
}

fn bracket(m: &str) -> (r: String)
    ensures
        r@ == bracketed(m@),
{
    proof {
        reveal_strlit("<");
        reveal_strlit(">");
    }
    let a = join("<", m);
    let r = join(a.as_str(), ">");
    assert("<"@ =~= seq!['<']);
    assert(">"@ =~= seq!['>']);
    assert(r@ =~= bracketed(m@));
    r
}

fn plain_show(s: String, descr: &Option<String>) -> (r: ShowComp)
    ensures
        r@ == plain(s@, opt_string_view(*descr)),
{
    ShowComp { descr: opt_clone(descr), subst1: s.clone(), subst: s, is_value: false }
}

impl Comp {
    /// The shown form of this candidate for the fragment `arg`.
    fn show(&self, arg: Option<&str>) -> (r: Option<ShowComp>)
        ensures
            r is Some == show_of(*self, opt_view(arg)) is Some,
            r is Some ==> r.unwrap()@ == show_of(*self, opt_view(arg)).unwrap(),
    {
        match self {
            Comp::Item { item, .. } => match item {
                Item::Positional { metavar, help } => Some(plain_show(bracket(metavar.as_str()), help)),
                Item::Command { name, short, help, .. } => match cmd_matches(arg, name.as_str(), *short) {
                    Some(n) => Some(plain_show(n, help)),
                    None => None,
                },
                Item::Flag { name, help } => match arg_matches(arg, name) {
                    Some(l) => Some(plain_show(l, help)),
                    None => None,
                },
                Item::Argument { name, metavar, help, .. } => match arg_matches(arg, name) {
                    Some(l) => {
                        proof {
                            reveal_strlit(" ");
                        }
                        let a = join(l.as_str(), " ");
                        let b = bracket(metavar.as_str());
                        let subst = join(a.as_str(), b.as_str());
                        assert(" "@ =~= seq![' ']);
                        assert(subst@ =~= l@ + seq![' '] + bracketed(metavar@));
                        Some(ShowComp { descr: opt_clone(help), subst, subst1: l, is_value: false })
                    },
                    None => None,
                },
            },
            Comp::Value { body, help, .. } => Some(
                ShowComp { descr: opt_clone(help), subst: body.clone(), subst1: body.clone(), is_value: true },
            ),
            Comp::Meta { meta, is_arg, help, .. } => {
                if *is_arg {
                    None
                } else {
                    Some(plain_show(bracket(meta.as_str()), help))
                }
            },
        }
    }
}

fn max_depth_of(comps: &Vec<Comp>) -> (r: usize)
    ensures
        r == max_depth(comps@),
{
    let mut m: usize = 0;
    let mut i: usize = 0;
    while i < comps.len()
        invariant
            i <= comps@.len(),
            m == max_depth(comps@.take(i as int)),
        decreases comps@.len() - i,
    {
        assert(comps@.take(i + 1).drop_last() =~= comps@.take(i as int));
        let d = comps[i].depth();
        if d > m {
            m = d;
        }
        i = i + 1;
    }
    assert(comps@.take(i as int) =~= comps@);
    m
}

/// `s` padded with spaces up to `w` characters.
fn pad_to(s: &str, w: usize) -> (r: String)
    ensures
        r@ == pad(s@, w as nat),
{
    let mut r = owned(s);
    let n = s.unicode_len();
    if n >= w {
        return r;
    }
    let mut k: usize = n;
    proof {
        reveal_strlit(" ");
    }
    while k < w
        invariant
            n == s@.len(),
            n <= k <= w,
            r@ == s@ + Seq::new((k - n) as nat, |_i: int| ' '),
        decreases w - k,
    {
        let ghost prev = r@;
        r.append(" ");
        k = k + 1;
        proof {
            reveal_strlit(" ");
        }
        assert(" "@ =~= seq![' ']);
        assert(r@ =~= s@ + Seq::new((k - n) as nat, |_i: int| ' ')) by {
            assert(r@ =~= prev + seq![' ']);
        }
    }
    r
}

fn render_line(style: Style, w: usize, x: &ShowComp) -> (r: String)
    ensures
        r@ == line(style, w as nat, x@),
{
    proof {
        reveal_strlit("\n");
        reveal_strlit("  ");
        reveal_strlit("\t");
    }
    let r = match (style, &x.descr) {
        (Style::Bash, None) => join(x.subst.as_str(), "\n"),
        (Style::Bash, Some(d)) => {
            let p = pad_to(x.subst.as_str(), w);
            let a = join(p.as_str(), "  ");
            let b = join(a.as_str(), d.as_str());
            join(b.as_str(), "\n")
        },
        (Style::Zsh, None) => join(x.subst1.as_str(), "\n"),
        (Style::Zsh, Some(d)) => {
            let a = join(x.subst1.as_str(), "\t");
            let b = join(a.as_str(), d.as_str());
            join(b.as_str(), "\n")
        },
    };
    r
}

/// Renders a list of candidates for the given dialect.
pub fn render_items(style: Style, items: &Vec<ShowComp>) -> (r: String)
    ensures
        r@ == render(style, shown_seq(items@)),
{
    proof {
        reveal_strlit("\n");
    }
    if items.len() == 1 {
        return join(items[0].subst1.as_str(), "\n");
    }
    let mut w: usize = 0;
    let mut i: usize = 0;
    while i < items.len()
        invariant
            i <= items@.len(),
            items@.len() != 1,
            w == max_width(shown_seq(items@).take(i as int)),
        decreases items@.len() - i,
    {
        assert(shown_seq(items@).take(i + 1).drop_last() =~= shown_seq(items@).take(i as int));
        assert(shown_seq(items@).take(i as int) =~= shown_seq(items@.take(i as int)));
        let n = items[i].subst.unicode_len();
        if n > w {
            w = n;
        }
        i = i + 1;
    }
    assert(shown_seq(items@).take(i as int) =~= shown_seq(items@));
    let mut r = String::new();
    let mut j: usize = 0;
    while j < items.len()
        invariant
            j <= items@.len(),
            w == max_width(shown_seq(items@)),
            r@ == render_lines(style, w as nat, shown_seq(items@).take(j as int)),
        decreases items@.len() - j,
    {
        assert(shown_seq(items@).take(j + 1).drop_last() =~= shown_seq(items@).take(j as int));
        let l = render_line(style, w, &items[j]);
        r.append(l.as_str());
        j = j + 1;
    }
    assert(shown_seq(items@).take(j as int) =~= shown_seq(items@));
    r
}

} // verus!

verus! {

proof fn lemma_values_nonempty(s: Seq<Comp>, d: usize)
    ensures
        (collect_values(s, d).len() > 0) == has_value(s, d),
    decreases s.len(),
{
    if s.len() > 0 {
        let p = s.drop_last();
        lemma_values_nonempty(p, d);
        if has_value(p, d) {
            let i = choose|i: int| 0 <= i < p.len() && (#[trigger] p[i]).spec_depth() == d && p[i].is_value();
            assert(s[i] == p[i]);
        }
        if has_value(s, d) {
            let i = choose|i: int| 0 <= i < s.len() && (#[trigger] s[i]).spec_depth() == d && s[i].is_value();
            if i < s.len() - 1 {
                assert(p[i] == s[i]);
            }
        }
    }
}

impl Complete {
    pub fn new(touching: bool, style: Style) -> (r: Self)
        ensures
            r.comps@ == Seq::<Comp>::empty(),
            r.touching == touching,
            r.style == style,
    {
        Complete { comps: Vec::new(), touching, style }
    }

    pub fn push_item(&mut self, item: Item, depth: usize)
        ensures
            final(self).comps@ == old(self).comps@.push(Comp::Item { item, depth }),
            final(self).style == old(self).style,
            final(self).touching == old(self).touching,
    {
        self.comps.push(Comp::Item { item, depth })
    }

    pub fn push_metadata(&mut self, meta: String, help: Option<String>, depth: usize, arg: bool)
        ensures
            final(self).comps@ == old(self).comps@.push(Comp::Meta { meta, depth, is_arg: arg, help }),
            final(self).style == old(self).style,
            final(self).touching == old(self).touching,
    {
        self.comps.push(Comp::Meta { meta, depth, is_arg: arg, help })
    }

    pub fn push_value(&mut self, body: String, help: Option<String>, depth: usize)
        ensures
            final(self).comps@ == old(self).comps@.push(Comp::Value { body, help, depth }),
            final(self).style == old(self).style,
            final(self).touching == old(self).touching,
    {
        self.comps.push(Comp::Value { body, help, depth })
    }

    /// The completion text for the fragment `arg` being typed: the fragment
    /// echoed (or the bracketed metavar) while an option's value is typed,
    /// else the rendered list of the deepest candidates.
    pub fn complete(&self, arg: Option<&str>) -> (r: String)
        ensures
            r@ == complete_spec(self.comps@, self.style, opt_view(arg)),
    {
        let d = max_depth_of(&self.comps);
        let mut items: Vec<ShowComp> = Vec::new();
        let mut values: Vec<ShowComp> = Vec::new();
        let mut i: usize = 0;
        while i < self.comps.len()
            invariant
                i <= self.comps@.len(),
                d == max_depth(self.comps@),
                shown_seq(items@) == collect(self.comps@.take(i as int), d, opt_view(arg)),
                shown_seq(values@) == collect_values(self.comps@.take(i as int), d),
                first_arg_meta(self.comps@, d, 0) == first_arg_meta(self.comps@, d, i as int),
            decreases self.comps@.len() - i,
        {
            assert(self.comps@.take(i + 1).drop_last() =~= self.comps@.take(i as int));
            let c = &self.comps[i];
            if c.depth() == d {
                if let Comp::Meta { meta, is_arg: true, .. } = c {
                    proof {
                        reveal_strlit("\n");
                        assert("\n"@ =~= seq!['\n']);
                    }
                    return match arg {
                        Some(v) => join(v, "\n"),
                        None => {
                            let b = bracket(meta.as_str());
                            join(b.as_str(), "\n")
                        },
                    };
                }
                match c.show(arg) {
                    Some(s) => {
                        items.push(s);
                    },
                    None => {},
                }
                if let Comp::Value { .. } = c {
                    match c.show(None) {
                        Some(s) => {
                            values.push(s);
                        },
                        None => {},
                    }
                }
            }
            proof {
                assert(shown_seq(items@) =~= collect(self.comps@.take(i + 1), d, opt_view(arg)));
                assert(shown_seq(values@) =~= collect_values(self.comps@.take(i + 1), d));
            }
            i = i + 1;
        }
        assert(self.comps@.take(i as int) =~= self.comps@);
        proof {
            lemma_values_nonempty(self.comps@, d);
        }
        if values.len() > 0 {
            render_items(self.style, &values)
        } else {
            render_items(self.style, &items)
        }
    }
}

} // verus!

verus! {

/// Every entry that `collect` lists is the shown form of a candidate at depth `d`.
proof fn lemma_collect_source(s: Seq<Comp>, d: usize, arg: Option<Seq<char>>, k: int)
    requires
        0 <= k < collect(s, d, arg).len(),
    ensures
        exists|j: int|
            0 <= j < s.len() && (#[trigger] s[j]).spec_depth() == d && show_of(s[j], arg) == Some(
                collect(s, d, arg)[k],
            ),
    decreases s.len(),
{
    let p = s.drop_last();
    if k < collect(p, d, arg).len() {
        lemma_collect_source(p, d, arg, k);
        let j = choose|j: int|
            0 <= j < p.len() && (#[trigger] p[j]).spec_depth() == d && show_of(p[j], arg) == Some(
                collect(p, d, arg)[k],
            );
        assert(s[j] == p[j]);
    } else {
        assert(s[s.len() - 1] == s.last());
    }
}

/// Every entry that `collect_values` lists is the shown form of a value
/// candidate at depth `d`.
proof fn lemma_collect_values_source(s: Seq<Comp>, d: usize, arg: Option<Seq<char>>, k: int)
    requires
        0 <= k < collect_values(s, d).len(),
    ensures
        exists|j: int|
            0 <= j < s.len() && (#[trigger] s[j]).spec_depth() == d && s[j].is_value() && show_of(s[j], arg)
                == Some(collect_values(s, d)[k]),
    decreases s.len(),
{
    let p = s.drop_last();
    if k < collect_values(p, d).len() {
        lemma_collect_values_source(p, d, arg, k);
        let j = choose|j: int|
            0 <= j < p.len() && (#[trigger] p[j]).spec_depth() == d && p[j].is_value() && show_of(p[j], arg)
                == Some(collect_values(p, d)[k]);
        assert(s[j] == p[j]);
    } else {
        assert(s[s.len() - 1] == s.last());
    }
}

/// Only the deepest candidates reach the output: each listed entry is the
/// shown form of a candidate whose depth is the largest depth collected, and
/// an echoed value placeholder is at that depth too.
pub proof fn lemma_only_deepest_shown(comps: Seq<Comp>, arg: Option<Seq<char>>)
    ensures
        forall|k: int|
            0 <= k < shown(comps, arg).len() ==> exists|j: int|
                0 <= j < comps.len() && (#[trigger] comps[j]).spec_depth() == max_depth(comps) && show_of(
                    comps[j],
                    arg,
                ) == Some(#[trigger] shown(comps, arg)[k]),
        first_arg_meta(comps, max_depth(comps), 0) is Some ==> comps[first_arg_meta(
            comps,
            max_depth(comps),
            0,
        ).unwrap()].spec_depth() == max_depth(comps),
{
    let d = max_depth(comps);
    assert forall|k: int| 0 <= k < shown(comps, arg).len() implies exists|j: int|
        0 <= j < comps.len() && (#[trigger] comps[j]).spec_depth() == d && show_of(comps[j], arg) == Some(
            #[trigger] shown(comps, arg)[k],
        ) by {
        if has_value(comps, d) {
            lemma_collect_values_source(comps, d, arg, k);
        } else {
            lemma_collect_source(comps, d, arg, k);
        }
    }
    lemma_first_arg_meta(comps, d, 0);
}

proof fn lemma_first_arg_meta(comps: Seq<Comp>, d: usize, k: int)
    ensures
        first_arg_meta(comps, d, k) is Some ==> {
            let i = first_arg_meta(comps, d, k).unwrap();
            0 <= i < comps.len() && comps[i].spec_depth() == d && comps[i].is_arg_meta()
        },
    decreases comps.len() - k,
{
    if 0 <= k < comps.len() {
        lemma_first_arg_meta(comps, d, k + 1);
    }
}

/// Where a value candidate stands at the largest depth and no option value is
/// being typed, the output lists value candidates only, each one at that depth.
pub proof fn lemma_values_outrank_items(comps: Seq<Comp>, style: Style, arg: Option<Seq<char>>)
    requires
        has_value(comps, max_depth(comps)),
        first_arg_meta(comps, max_depth(comps), 0) is None,
    ensures
        complete_spec(comps, style, arg) == render(style, shown(comps, arg)),
        forall|k: int|
            0 <= k < shown(comps, arg).len() ==> exists|j: int|
                0 <= j < comps.len() && (#[trigger] comps[j]).spec_depth() == max_depth(comps)
                    && comps[j].is_value() && show_of(comps[j], arg) == Some(#[trigger] shown(comps, arg)[k]),
{
    let d = max_depth(comps);
    assert forall|k: int| 0 <= k < shown(comps, arg).len() implies exists|j: int|
        0 <= j < comps.len() && (#[trigger] comps[j]).spec_depth() == d && comps[j].is_value() && show_of(
            comps[j],
            arg,
        ) == Some(#[trigger] shown(comps, arg)[k]) by {
        lemma_collect_values_source(comps, d, arg, k);
    }
}

/// The name of an argument candidate.
pub open spec fn argument_name(c: Comp) -> Option<ShortLong> {
    match c {
        Comp::Item { item: Item::Argument { name, .. }, .. } => Some(name),
        _ => None,
    }
}

/// With a single candidate left the output is its short form and a newline,
/// the same in every dialect; for an argument that is its bare preferred name,
/// with no metavar.
pub proof fn lemma_single_survivor(comps: Seq<Comp>, arg: Option<Seq<char>>)
    requires
        first_arg_meta(comps, max_depth(comps), 0) is None,
        shown(comps, arg).len() == 1,
    ensures
        complete_spec(comps, Style::Bash, arg) == shown(comps, arg)[0].subst1 + seq!['\n'],
        complete_spec(comps, Style::Zsh, arg) == shown(comps, arg)[0].subst1 + seq!['\n'],
        forall|j: int|
            0 <= j < comps.len() && show_of(#[trigger] comps[j], arg) == Some(shown(comps, arg)[0])
                && argument_name(comps[j]) is Some ==> complete_spec(comps, Style::Bash, arg)
                == preferred_name_spec(argument_name(comps[j]).unwrap()) + seq!['\n'],
{
}

} // verus!
