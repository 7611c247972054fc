//! Markdown documents that the documentation tool reads, and the code-sample
//! transformation it applies.
use vstd::prelude::*;
use vstd::string::*;
use crate::text::join;

verus! {

/// A markdown document from the data folder.
pub enum Document {
    /// A single page, rendered to `.md`.
    Page { name: String, contents: String, file: String },
    /// Several pages sorted by file name, rendered to `.rs`.
    Pages { name: String, pages: Vec<String>, file: String, files: Vec<String> },
}

/// A generated module: its name and its code.
pub struct Mod {
    pub name: String,
    pub code: String,
}

impl Document {
    pub open spec fn spec_name(&self) -> Seq<char> {
        match self {
            Document::Page { name, .. } => name@,
            Document::Pages { name, .. } => name@,
        }
    }

    pub open spec fn spec_file(&self) -> Seq<char> {
        match self {
            Document::Page { file, .. } => file@,
            Document::Pages { file, .. } => file@,
        }
    }

    pub fn name(&self) -> (r: &str)
        ensures
            r@ == self.spec_name(),
    {
        match self {
            Document::Page { name, .. } | Document::Pages { name, .. } => name.as_str(),
        }
    }

    /// The extension of the file generated from the document.
    pub fn ext(&self) -> (r: &str)
        ensures
            self is Page ==> r@ == seq!['m', 'd'],
            self is Pages ==> r@ == seq!['r', 's'],
    {
        proof {
            reveal_strlit("md");
            reveal_strlit("rs");
        }
        match self {
            Document::Page { .. } => "md",
            Document::Pages { .. } => "rs",
        }
    }

    /// The path the document was loaded from.
    pub fn read_from(&self) -> (r: &str)
        ensures
            r@ == self.spec_file(),
    {
        match self {
            Document::Page { file, .. } | Document::Pages { file, .. } => file.as_str(),
        }
    }
}

/// The index of the first newline in `s` from `k` on, or the length of `s`.
pub open spec fn newline_at(s: Seq<char>, k: int) -> int
    decreases s.len() - k,
{
    if k < 0 || k >= s.len() {
        s.len() as int
    } else if s[k] == '\n' {
        k
    } else {
        newline_at(s, k + 1)
    }
}

proof fn lemma_newline_at_bound(s: Seq<char>, k: int)
    requires
        0 <= k,
    ensures
        k <= s.len() ==> k <= newline_at(s, k) <= s.len(),
    decreases s.len() - k,
{
    if k < s.len() {
        lemma_newline_at_bound(s, k + 1);
    }
}

/// A sample line shown in the documentation: a leading `# ` hides it in the
/// rendered page and is dropped in the compiled code.
pub open spec fn unhidden(l: Seq<char>) -> Seq<char> {
    if l.len() >= 2 && l[0] == '#' && l[1] == ' ' {
        l.skip(2)
    } else {
        l
    }
}

/// A line ended by `\r\n` loses its `\r`.
pub open spec fn line_body(s: Seq<char>, e: int) -> Seq<char> {
    if e < s.len() && e > 0 && s[e - 1] == '\r' {
        s.take(e - 1)
    } else {
        s.take(e)
    }
}

/// Every line of `s`, without a leading `# `, each ended by a newline.
pub open spec fn unhide_spec(s: Seq<char>) -> Seq<char>
    decreases s.len(),
{
    if s.len() == 0 {
        seq![]
    } else {
        let e = newline_at(s, 0);
        let rest = if 0 <= e < s.len() {
            s.skip(e + 1)
        } else {
            seq![]
        };
        unhidden(line_body(s, e)) + seq!['\n'] + if rest.len() < s.len() {
            unhide_spec(rest)
        } else {
            seq![]
        }
    }
}

fn newline_index(s: &str) -> (r: usize)
    ensures
        r == newline_at(s@, 0),
        r <= s@.len(),
{
    let n = s.unicode_len();
    let mut k: usize = 0;
    proof {
        lemma_newline_at_bound(s@, 0);
    }
    while k < n
        invariant
            n == s@.len(),
            k <= n,
            newline_at(s@, 0) == newline_at(s@, k as int),
        decreases n - k,
    {
        if s.get_char(k) == '\n' {
            return k;
        }
        k = k + 1;
    }
    k
}

/// Appends the lines of `code` to `f`, each without a leading `# `.
pub fn unhide(f: &mut String, code: &str)
    ensures
        final(f)@ == old(f)@ + unhide_spec(code@),
{
    let mut rest: &str = code;
    let ghost start = f@;
    while rest.unicode_len() > 0
        invariant
            start + unhide_spec(code@) == f@ + unhide_spec(rest@),
        decreases rest@.len(),
    {
        proof {
            reveal_strlit("\n");
            reveal_strlit("");
        }
        let n = rest.unicode_len();
        let e = newline_index(rest);
        let cut = if e < n && e > 0 && rest.get_char(e - 1) == '\r' {
            e - 1
        } else {
            e
        };
        let body = rest.substring_char(0, cut);
        assert(body@ == line_body(rest@, e as int)) by {
            assert(rest@.subrange(0, cut as int) =~= rest@.take(cut as int));
        }
        let bn = body.unicode_len();
        let shown = if bn >= 2 && body.get_char(0) == '#' && body.get_char(1) == ' ' {
            body.substring_char(2, bn)
        } else {
            body
        };
        assert(shown@ == unhidden(body@)) by {
            assert(body@.subrange(2, bn as int) =~= body@.skip(2));
        }
        let ghost before = f@;
        let ghost old_rest = rest@;
        f.append(shown);
        f.append("\n");
        assert("\n"@ =~= seq!['\n']);
        rest = if e < n {
            rest.substring_char(e + 1, n)
        } else {
            ""
        };
        assert(rest@ =~= (if 0 <= e < old_rest.len() {
            old_rest.skip(e + 1)
        } else {
            seq![]
        }));
        assert(f@ =~= before + unhidden(line_body(old_rest, e as int)) + seq!['\n']);
    }
    assert(rest@ =~= Seq::<char>::empty());
}

} // verus!
