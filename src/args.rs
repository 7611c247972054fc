//! The token store: the command line as an indexable list of tokens with a
//! consumed mark on each.
use vstd::prelude::*;
use vstd::string::*;
use crate::complete_gen::{Comp, Complete, Style};
use crate::text::{owned, str_eq};

verus! {

/// One token of the command line.
#[derive(Debug, PartialEq)]
pub enum Arg {
    /// A token that starts with a single dash: the character after the dash,
    /// and the token's text (`-c`, `-c=value` or a cluster such as `-vvv`).
    Short(char, String),
    /// A token that starts with two dashes: the name up to any `=`, and the
    /// token's text (`--name` or `--name=value`).
    Long(String, String),
    /// A free-standing value, and whether its raw bytes were valid text.
    Word(String, bool),
}

impl Arg {
    /// The token's text as it was given.
    pub open spec fn text(self) -> Seq<char> {
        match self {
            Arg::Short(_, s) => s@,
            Arg::Long(_, s) => s@,
            Arg::Word(s, _) => s@,
        }
    }

    /// The token's text where it is valid text.
    pub open spec fn valid_text(self) -> Option<Seq<char>> {
        match self {
            Arg::Word(s, false) => None,
            _ => Some(self.text()),
        }
    }

    pub fn text_str(&self) -> (r: &str)
        ensures
            r@ == self.text(),
    {
        match self {
            Arg::Short(_, s) => s.as_str(),
            Arg::Long(_, s) => s.as_str(),
            Arg::Word(s, _) => s.as_str(),
        }
    }
}

/// Why a value that was found could not be used.
#[derive(Clone, Copy, Debug, PartialEq, Eq)]
pub enum Reason {
    /// A named argument has no value after it.
    NoValue,
    /// The value's raw bytes are not valid text.
    NotText,
    /// The value is not a decimal number that fits in 64 bits.
    NotNumber,
}

/// The outcome of a run that produced no value.
#[derive(Debug, PartialEq)]
pub enum Error {
    /// No token or environment variable matched: recoverable.
    Missing,
    /// A value was found at the given token but could not be used.
    ParseFailed(Option<usize>, Reason),
    /// Text for standard output that ends the run with success (completion).
    Stdout(String),
}

/// The token store.
pub struct Args {
    pub items: Vec<Arg>,
    pub consumed: Vec<bool>,
    /// The index of the first `--` token, which is consumed from the start.
    pub separator: Option<usize>,
    /// The token last matched, for diagnostics.
    pub current: Option<usize>,
    /// Environment variables visible to named parsers, as name and value.
    pub env: Vec<(String, String)>,
    /// The active completion request, if any.
    pub comp: Option<Complete>,
}

/// How a token is read when it stands before any `--`.
pub open spec fn is_sep(s: Seq<char>) -> bool {
    s == seq!['-', '-']
}

pub open spec fn is_long_text(s: Seq<char>) -> bool {
    s.len() >= 3 && s[0] == '-' && s[1] == '-'
}

pub open spec fn is_short_text(s: Seq<char>) -> bool {
    s.len() >= 2 && s[0] == '-' && s[1] != '-'
}

/// The length of `s` up to its first `=`, from index `k` on.
pub open spec fn eq_index(s: Seq<char>, k: int) -> int
    decreases s.len() - k,
{
    if k < 0 || k >= s.len() {
        s.len() as int
    } else if s[k] == '=' {
        k
    } else {
        eq_index(s, k + 1)
    }
}

/// Whether `a` is the token that `s` gives, where `after` says that a `--`
/// came before it.
pub open spec fn token_of(s: Seq<char>, after: bool, a: Arg) -> bool {
    a.text() == s && if !after && is_long_text(s) {
        a matches Arg::Long(n, _) && n@ == s.subrange(2, eq_index(s, 2))
    } else if !after && is_short_text(s) {
        a matches Arg::Short(c, _) && c == s[1]
    } else {
        a matches Arg::Word(_, true)
    }
}

/// The index of the first `--` among `v`.
pub open spec fn first_sep(v: Seq<Seq<char>>, k: int) -> Option<int>
    decreases v.len() - k,
{
    if k < 0 || k >= v.len() {
        None
    } else if is_sep(v[k]) {
        Some(k)
    } else {
        first_sep(v, k + 1)
    }
}

pub open spec fn count_true(s: Seq<bool>) -> nat
    decreases s.len(),
{
    if s.len() == 0 {
        0
    } else {
        count_true(s.drop_last()) + if s.last() {
            1nat
        } else {
            0nat
        }
    }
}

proof fn lemma_count_true_le(s: Seq<bool>)
    ensures
        count_true(s) <= s.len(),
    decreases s.len(),
{
    if s.len() > 0 {
        lemma_count_true_le(s.drop_last());
    }
}

pub open spec fn strs_view(v: Seq<&str>) -> Seq<Seq<char>> {
    v.map_values(|s: &str| s@)
}

pub(crate) fn find_eq(s: &str) -> (r: usize)
    ensures
        r == eq_index(s@, 2),
        s@.len() >= 2 ==> 2 <= r <= s@.len(),
{
    let n = s.unicode_len();
    let mut k: usize = 2;
    if k > n {
        return n;
    }
    while k < n
        invariant
            n == s@.len(),
            2 <= k <= n,
            eq_index(s@, 2) == eq_index(s@, k as int),
        decreases n - k,
    {
        if s.get_char(k) == '=' {
            return k;
        }
        k = k + 1;
    }
    k
}

fn classify(s: &str, after: bool) -> (r: Arg)
    ensures
        token_of(s@, after, r),
{
    let n = s.unicode_len();
    if !after && n >= 3 && s.get_char(0) == '-' && s.get_char(1) == '-' {
        let e = find_eq(s);
        let name = owned(s.substring_char(2, e));
        Arg::Long(name, owned(s))
    } else if !after && n >= 2 && s.get_char(0) == '-' && s.get_char(1) != '-' {
        Arg::Short(s.get_char(1), owned(s))
    } else {
        Arg::Word(owned(s), true)
    }
}

impl Args {
    pub open spec fn wf(self) -> bool {
        &&& self.items@.len() == self.consumed@.len()
        &&& self.separator matches Some(s) ==> s < self.items@.len() && self.consumed@[s as int]
    }

    /// The store for the given command-line words: every word becomes a
    /// token, the first `--` is the separator, and every word after it is a
    /// plain value.
    pub fn from(args: &[&str]) -> (r: Args)
        ensures
            r.wf(),
            r.items@.len() == args@.len(),
            r.separator == (match first_sep(strs_view(args@), 0) {
                Some(i) => Some(i as usize),
                None => None::<usize>,
            }),
            forall|i: int|
                0 <= i < args@.len() ==> token_of(
                    args@[i]@,
                    r.separator matches Some(s) && s < i,
                    #[trigger] r.items@[i],
                ),
            forall|i: int| 0 <= i < args@.len() ==> #[trigger] r.consumed@[i] == (r.separator == Some(i as usize)),
            r.current is None,
            r.env@.len() == 0,
            r.comp is None,
    {
        let mut items: Vec<Arg> = Vec::new();
        let mut consumed: Vec<bool> = Vec::new();
        let mut separator: Option<usize> = None;
        let mut i: usize = 0;
        proof {
            reveal_strlit("--");
        }
        while i < args.len()
            invariant
                i <= args@.len(),
                items@.len() == i,
                consumed@.len() == i,
                separator matches Some(s) ==> s < i && first_sep(strs_view(args@), 0) == Some(s as int),
                separator is None ==> first_sep(strs_view(args@), 0) == first_sep(strs_view(args@), i as int),
                forall|j: int|
                    0 <= j < i ==> token_of(args@[j]@, separator matches Some(s) && s < j, #[trigger] items@[j]),
                forall|j: int| 0 <= j < i ==> #[trigger] consumed@[j] == (separator == Some(j as usize)),
            decreases args@.len() - i,
        {
            let s = args[i];
            assert(strs_view(args@)[i as int] == s@);
            let after = separator.is_some();
            let sep_here = !after && str_eq(s, "--");
            proof {
                reveal_strlit("--");
            }
            assert("--"@ =~= seq!['-', '-']);
            items.push(classify(s, after));
            consumed.push(sep_here);
            if sep_here {
                separator = Some(i);
            }
            i = i + 1;
        }
        Args { items, consumed, separator, current: None, env: Vec::new(), comp: None }
    }

    /// The number of consumed tokens: the structural depth of a candidate
    /// collected now.
    pub fn depth(&self) -> (r: usize)
        requires
            self.wf(),
        ensures
            r == count_true(self.consumed@),
    {
        let mut n: usize = 0;
        let mut i: usize = 0;
        while i < self.consumed.len()
            invariant
                i <= self.consumed@.len(),
                n == count_true(self.consumed@.take(i as int)),
            decreases self.consumed@.len() - i,
        {
            assert(self.consumed@.take(i + 1).drop_last() =~= self.consumed@.take(i as int));
            proof {
                lemma_count_true_le(self.consumed@.take(i as int));
            }
            if self.consumed[i] {
                n = n + 1;
            }
            i = i + 1;
        }
        assert(self.consumed@.take(i as int) =~= self.consumed@);
        n
    }
}

} // verus!

verus! {

/// The fragment being completed: absent when the cursor does not touch the
/// last token, that token's text when it does; `None` when it touches a token
/// that is not valid text, or no token at all.
pub open spec fn fragment(items: Seq<Arg>, touching: bool) -> Option<Option<Seq<char>>> {
    if !touching {
        Some(None)
    } else if items.len() == 0 {
        None
    } else {
        match items.last().valid_text() {
            Some(t) => Some(Some(t)),
            None => None,
        }
    }
}

/// The completion output for the store's request.
pub open spec fn completion_text(items: Seq<Arg>, style: Style, touching: bool, comps: Seq<Comp>) -> Seq<char> {
    match fragment(items, touching) {
        None => seq!['\n'],
        Some(Some(t)) => if items.last() is Short && t.len() > 2 {
            t + seq!['\n']
        } else {
            crate::complete_gen::complete_spec(comps, style, Some(t))
        },
        Some(None) => crate::complete_gen::complete_spec(comps, style, None),
    }
}

impl Args {
    /// Ends the run with completion output where a completion request is
    /// active: a short-option cluster longer than two characters is echoed as
    /// it is, else the collected candidates are rendered.
    pub fn check_complete(&self) -> (r: Result<(), Error>)
        ensures
            self.comp is None ==> r is Ok,
            self.comp matches Some(c) ==> r matches Err(Error::Stdout(s)) && s@ == completion_text(self.items@, c.style, c.touching, c.comps@),
    {
        match &self.comp {
            None => Ok(()),
            Some(comp) => {
                proof {
                    reveal_strlit("\n");
                    assert("\n"@ =~= seq!['\n']);
                }
                let n = self.items.len();
                let mut is_short = false;
                let pair: Option<&str> = if !comp.touching {
                    None
                } else if n == 0 {
                    return Err(Error::Stdout(String::from_str("\n")));
                } else {
                    match &self.items[n - 1] {
                        Arg::Word(_, false) => {
                            return Err(Error::Stdout(String::from_str("\n")));
                        },
                        Arg::Short(_, s) => {
                            is_short = true;
                            Some(s.as_str())
                        },
                        Arg::Long(_, s) => Some(s.as_str()),
                        Arg::Word(s, true) => Some(s.as_str()),
                    }
                };
                assert(n > 0 ==> self.items@[n - 1] == self.items@.last());
                match pair {
                    Some(s) => {
                        if is_short && s.unicode_len() > 2 {
                            return Err(Error::Stdout(crate::text::join(s, "\n")));
                        }
                    },
                    None => {},
                }
                Err(Error::Stdout(comp.complete(pair)))
            },
        }
    }
}

} // verus!
