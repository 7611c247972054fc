//! Names of named items and the leaf descriptors used by help and completion.
use vstd::prelude::*;
use vstd::string::*;
use crate::text::{char_string, join, starts_with, str_eq};

verus! {

/// The identity of a named item: a short name, a long name, or both.
#[derive(Debug, PartialEq)]
pub enum ShortLong {
    Short(char),
    Long(String),
    ShortLong(char, String),
}

impl ShortLong {
    /// The short name, if there is one.
    pub open spec fn short_name(self) -> Option<char> {
        match self {
            ShortLong::Short(s) => Some(s),
            ShortLong::Long(_) => None,
            ShortLong::ShortLong(s, _) => Some(s),
        }
    }

    /// The long name, if there is one.
    pub open spec fn long_name(self) -> Option<Seq<char>> {
        match self {
            ShortLong::Short(_) => None,
            ShortLong::Long(l) => Some(l@),
            ShortLong::ShortLong(_, l) => Some(l@),
        }
    }

    pub fn duplicate(&self) -> (r: Self)
        ensures
            r == *self,
    {
        match self {
            ShortLong::Short(s) => ShortLong::Short(*s),
            ShortLong::Long(l) => ShortLong::Long(l.clone()),
            ShortLong::ShortLong(s, l) => ShortLong::ShortLong(*s, l.clone()),
        }
    }
}

/// The canonical display form of a name: `--long` where a long name exists,
/// `-s` otherwise.
pub open spec fn preferred_name_spec(name: ShortLong) -> Seq<char> {
    match name.long_name() {
        Some(l) => seq!['-', '-'] + l,
        None => seq!['-', name.short_name().unwrap()],
    }
}

pub fn preferred_name(name: &ShortLong) -> (r: String)
    ensures
        r@ == preferred_name_spec(*name),
{
    match name {
        ShortLong::Short(s) => {
            let c = char_string(*s);
            let r = join("-", c.as_str());
            proof {
                reveal_strlit("-");
                assert(r@ =~= seq!['-', *s]);
            }
            r
        },
        ShortLong::Long(l) | ShortLong::ShortLong(_, l) => {
            let r = join("--", l.as_str());
            proof {
                reveal_strlit("--");
            }
            r
        },
    }
}

/// Whether a fragment being typed can still grow into a name: it is `-`,
/// or exactly `-s` for the short name, or `--` followed by a prefix of the
/// long name.
pub open spec fn arg_can_match(arg: Seq<char>, name: ShortLong) -> bool {
    arg == seq!['-'] || (name.short_name() is Some && arg == seq!['-', name.short_name().unwrap()])
        || (name.long_name() is Some && arg.len() >= 2 && arg[0] == '-' && arg[1] == '-'
        && arg.skip(2).is_prefix_of(name.long_name().unwrap()))
}

pub open spec fn arg_matches_spec(arg: Option<Seq<char>>, name: ShortLong) -> Option<Seq<char>> {
    match arg {
        None => Some(preferred_name_spec(name)),
        Some(a) => if arg_can_match(a, name) {
            Some(preferred_name_spec(name))
        } else {
            None
        },
    }
}

pub open spec fn opt_view(arg: Option<&str>) -> Option<Seq<char>> {
    match arg {
        Some(a) => Some(a@),
        None => None,
    }
}

pub open spec fn opt_string_view(r: Option<String>) -> Option<Seq<char>> {
    match r {
        Some(a) => Some(a@),
        None => None,
    }
}

/// Checks whether the fragment `arg` can become `name`, and gives the
/// preferred spelling of the name to offer in its place.
pub fn arg_matches(arg: Option<&str>, name: &ShortLong) -> (r: Option<String>)
    ensures
        opt_string_view(r) == arg_matches_spec(opt_view(arg), *name),
{
    let arg = match arg {
        Some(arg) => arg,
        None => return Some(preferred_name(name)),
    };
    proof {
        reveal_strlit("-");
        reveal_strlit("--");
    }
    let mut can_match = str_eq(arg, "-");
    assert("-"@ =~= seq!['-']);
    match name {
        ShortLong::Long(_) => {},
        ShortLong::Short(s) | ShortLong::ShortLong(s, _) => {
            let c = char_string(*s);
            let dash_s = join("-", c.as_str());
            assert(dash_s@ =~= seq!['-', *s]);
            can_match = can_match || str_eq(arg, dash_s.as_str());
        },
    }
    match name {
        ShortLong::Short(_) => {},
        ShortLong::Long(l) | ShortLong::ShortLong(_, l) => {
            let dd = starts_with(arg, "--");
            assert(dd == (arg@.len() >= 2 && arg@[0] == '-' && arg@[1] == '-')) by {
                reveal_strlit("--");
                assert("--"@ =~= seq!['-', '-']);
                if arg@.len() >= 2 && arg@[0] == '-' && arg@[1] == '-' {
                    assert("--"@ =~= arg@.subrange(0, 2));
                }
                if dd {
                    assert("--"@ =~= arg@.subrange(0, 2));
                    assert(arg@.subrange(0, 2)[0] == arg@[0]);
                    assert(arg@.subrange(0, 2)[1] == arg@[1]);
                }
            }
            if dd {
                let rest = arg.substring_char(2, arg.unicode_len());
                assert(rest@ =~= arg@.skip(2));
                can_match = can_match || starts_with(l.as_str(), rest);
            }
        },
    }
    if can_match {
        Some(preferred_name(name))
    } else {
        None
    }
}

/// A command offered for a fragment: absent fragment, a prefix of the
/// name, or exactly the one-character alias.
pub open spec fn cmd_matches_spec(arg: Option<Seq<char>>, name: Seq<char>, short: Option<char>) -> bool {
    match arg {
        None => true,
        Some(cur) => cur.is_prefix_of(name) || (short is Some && cur == seq![short.unwrap()]),
    }
}

pub fn cmd_matches(arg: Option<&str>, name: &str, short: Option<char>) -> (r: Option<String>)
    ensures
        r is Some == cmd_matches_spec(opt_view(arg), name@, short),
        r is Some ==> r.unwrap()@ == name@,
{
    match arg {
        Some(cur) => {
            let mut ok = starts_with(name, cur);
            if let Some(s) = short {
                let c = char_string(s);
                ok = ok || str_eq(cur, c.as_str());
            }
            if ok {
                Some(String::from_str(name))
            } else {
                None
            }
        },
        None => Some(String::from_str(name)),
    }
}

} // verus!

verus! {

/// A leaf descriptor, built from a primitive parser's configuration and used
/// by help and completion.
#[derive(Debug, PartialEq)]
#[allow(inconsistent_fields)]
pub enum Item {
    Positional { metavar: String, help: Option<String> },
    Command { name: String, short: Option<char>, help: Option<String>, meta: Box<Meta> },
    Flag { name: ShortLong, help: Option<String> },
    Argument { name: ShortLong, metavar: String, env: Option<String>, help: Option<String> },
}

/// The structural descriptor: what a parser tree can consume, independent of
/// any input. Products and alternations are kept binary, as in the parser
/// tree they mirror.
#[derive(Debug, PartialEq)]
pub enum Meta {
    And(Box<Meta>, Box<Meta>),
    Or(Box<Meta>, Box<Meta>),
    Item(Box<Item>),
    Optional(Box<Meta>),
    Many(Box<Meta>),
    Skip,
}

} // verus!

verus! {

/// The preferred name is a function of the name alone, the same on every
/// call, and it is the long form whenever a long name exists.
pub proof fn lemma_preferred_name(a: ShortLong, b: ShortLong)
    ensures
        a == b ==> preferred_name_spec(a) == preferred_name_spec(b),
        a.long_name() matches Some(l) ==> preferred_name_spec(a) == seq!['-', '-'] + l,
        a.long_name() is None ==> preferred_name_spec(a) == seq!['-', a.short_name().unwrap()],
{
}

} // verus!
