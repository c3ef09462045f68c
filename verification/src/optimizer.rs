//! The write-merge pass. It scans generated code for formatted write
//! calls and merges runs of adjacent calls — calls separated by no other
//! code — into one call whose format string and argument list are the
//! concatenations of the originals. Code around and between calls
//! passes through unchanged, and text that does not parse as a write
//! call is left exactly as it stands.
use vstd::prelude::*;

verus! {

use vstd::string::StrSliceExecFns;
use vstd::string::StringExecFns;
use crate::strutil::{find, lemma_find_props, push_char, spec_find};

/// One parsed write call: the code before it, its format string, its
/// argument list, and the text after it.
pub struct Write<'a> {
    pub prefix: &'a str,
    pub pattern: &'a str,
    pub args: &'a str,
    pub postfix: &'a str,
}

/// The mathematical shadow of a parsed write call.
pub ghost struct WriteModel {
    pub prefix: Seq<char>,
    pub pattern: Seq<char>,
    pub args: Seq<char>,
    pub postfix: Seq<char>,
}

impl<'a> View for Write<'a> {
    type V = WriteModel;

    open spec fn view(&self) -> WriteModel {
        WriteModel {
            prefix: self.prefix@,
            pattern: self.pattern@,
            args: self.args@,
            postfix: self.postfix@,
        }
    }
}

/// The unescaped quote that ends a format string, scanning from `i`;
/// a backslash escapes the character after it.
pub open spec fn spec_fcq(s: Seq<char>, i: int, escaped: bool) -> Option<int>
    decreases s.len() - i,
{
    if i < 0 || i >= s.len() {
        None
    } else {
        let c = s[i];
        if c == '\\' {
            spec_fcq(s, i + 1, !escaped)
        } else if c == '"' && !escaped {
            Some(i)
        } else {
            spec_fcq(s, i + 1, false)
        }
    }
}

pub proof fn lemma_fcq_bounds(s: Seq<char>, i: int, escaped: bool)
    requires
        0 <= i,
    ensures
        match spec_fcq(s, i, escaped) {
            Some(k) => i <= k < s.len(),
            None => true,
        },
    decreases s.len() - i,
{
    if 0 <= i < s.len() {
        let c = s[i];
        if c == '\\' {
            lemma_fcq_bounds(s, i + 1, !escaped);
        } else if c == '"' && !escaped {
        } else {
            lemma_fcq_bounds(s, i + 1, false);
        }
    }
}

fn find_closing(src: &str) -> (r: Option<usize>)
    ensures
        match r {
            Some(k) => spec_fcq(src@, 0, false) == Some(k as int),
            None => spec_fcq(src@, 0, false) is None,
        },
{
    let n = src.unicode_len();
    let mut escaped = false;
    let mut i: usize = 0;
    while i < n
        invariant
            0 <= i <= n,
            n == src@.len(),
            spec_fcq(src@, 0, false) == spec_fcq(src@, i as int, escaped),
        decreases n - i,
    {
        let c = src.get_char(i);
        if c == '\\' {
            escaped = !escaped;
        } else if c == '"' && !escaped {
            return Some(i);
        } else {
            escaped = false;
        }
        i = i + 1;
    }
    None
}

/// Parsing the first write call that opens with `open`: the text before
/// it, its format string up to the unescaped closing quote, and its
/// arguments up to the call's closing sequence. Text that holds no
/// complete call parses as none.
pub open spec fn spec_write_first(src: Seq<char>, open: Seq<char>) -> Option<WriteModel> {
    match spec_find(src, open) {
        None => None,
        Some(offset) => {
            let prefix = src.subrange(0, offset);
            let post1 = src.subrange(offset + open.len(), src.len() as int);
            match spec_fcq(post1, 0, false) {
                None => None,
                Some(q) => {
                    let pattern = post1.subrange(0, q);
                    let post2 = post1.subrange(q + 1, post1.len() as int);
                    match spec_find(post2, ")?;"@) {
                        None => None,
                        Some(a) => Some(
                            WriteModel {
                                prefix,
                                pattern,
                                args: post2.subrange(0, a),
                                postfix: post2.subrange(a + 3, post2.len() as int),
                            },
                        ),
                    }
                },
            }
        },
    }
}

/// Parsing a write call consumes input: what follows it is strictly
/// shorter than the text it was parsed from.
pub proof fn lemma_write_first_shrinks(src: Seq<char>, open: Seq<char>)
    requires
        open.len() >= 1,
    ensures
        match spec_write_first(src, open) {
            Some(w) => w.postfix.len() + 5 <= src.len(),
            None => true,
        },
{
    reveal_strlit(")?;");
    lemma_find_props(src, open);
    match spec_find(src, open) {
        None => {},
        Some(offset) => {
            let post1 = src.subrange(offset + open.len(), src.len() as int);
            lemma_fcq_bounds(post1, 0, false);
            match spec_fcq(post1, 0, false) {
                None => {},
                Some(q) => {
                    let post2 = post1.subrange(q + 1, post1.len() as int);
                    lemma_find_props(post2, ")?;"@);
                },
            }
        },
    }
}

impl<'a> Write<'a> {
    /// Parses the first write call of `src`.
    pub fn first(src: &'a str, open: &str) -> (r: Option<Self>)
        ensures
            match r {
                Some(w) => spec_write_first(src@, open@) == Some(w@),
                None => spec_write_first(src@, open@) is None,
            },
    {
        proof {
            lemma_find_props(src@, open@);
        }
        let offset = match find(src, open) {
            Some(o) => o,
            None => {
                return None;
            },
        };
        let n = src.unicode_len();
        let olen = open.unicode_len();
        let prefix = src.substring_char(0, offset);
        let post1 = src.substring_char(offset + olen, n);
        proof {
            lemma_fcq_bounds(post1@, 0, false);
        }
        let q = match find_closing(post1) {
            Some(q) => q,
            None => {
                return None;
            },
        };
        let p1len = post1.unicode_len();
        let pattern = post1.substring_char(0, q);
        let post2 = post1.substring_char(q + 1, p1len);
        proof {
            lemma_find_props(post2@, ")?;"@);
            reveal_strlit(")?;");
        }
        let a = match find(post2, ")?;") {
            Some(a) => a,
            None => {
                return None;
            },
        };
        let p2len = post2.unicode_len();
        Some(
            Write {
                prefix,
                pattern,
                args: post2.substring_char(0, a),
                postfix: post2.substring_char(a + 3, p2len),
            },
        )
    }

    /// Parses the write call after this one.
    pub fn next(&self, open: &str) -> (r: Option<Write<'a>>)
        ensures
            match r {
                Some(w) => spec_write_first(self.postfix@, open@) == Some(w@),
                None => spec_write_first(self.postfix@, open@) is None,
            },
    {
        Self::first(self.postfix, open)
    }
}

/// Flushing one merged call: nothing for an empty format, else the call
/// rebuilt from the gathered format and arguments.
pub open spec fn spec_close_out(
    open: Seq<char>,
    format: Seq<char>,
    args: Seq<char>,
    out: Seq<char>,
) -> Seq<char> {
    if format.len() == 0 {
        out
    } else {
        out + open + format + seq!['"'] + args + ")?;"@
    }
}

/// The merge walk: a call whose prefix is empty joins the gathered run;
/// one behind intervening code flushes the run first. The last call is
/// emitted with whatever run it ends.
pub open spec fn spec_opt_loop(
    open: Seq<char>,
    first: WriteModel,
    out: Seq<char>,
    format: Seq<char>,
    args: Seq<char>,
) -> Seq<char>
    decreases first.postfix.len(),
    when open.len() >= 1
    via spec_opt_loop_decreases
{
    match spec_write_first(first.postfix, open) {
        Some(next) => {
            if first.prefix.len() == 0 {
                spec_opt_loop(open, next, out, format + first.pattern, args + first.args)
            } else {
                spec_opt_loop(
                    open,
                    next,
                    spec_close_out(open, format, args, out) + first.prefix,
                    first.pattern,
                    first.args,
                )
            }
        },
        None => {
            if first.prefix.len() == 0 {
                out + open + format + first.pattern + seq!['"'] + args + first.args + ")?;"@
                    + first.postfix
            } else {
                spec_close_out(open, format, args, out) + first.prefix + open + first.pattern
                    + seq!['"'] + first.args + ")?;"@ + first.postfix
            }
        },
    }
}

#[via_fn]
proof fn spec_opt_loop_decreases(
    open: Seq<char>,
    first: WriteModel,
    out: Seq<char>,
    format: Seq<char>,
    args: Seq<char>,
) {
    lemma_write_first_shrinks(first.postfix, open);
}

/// The opening text of a formatted write call that targets `name`.
pub open spec fn spec_open_str(name: Seq<char>) -> Seq<char> {
    "write!("@ + name + ", \""@
}

/// The whole pass: text without a write call passes through unchanged,
/// else the merge walk runs from the first call.
pub open spec fn spec_optimize(src: Seq<char>, write_var_name: Seq<char>) -> Seq<char> {
    let open = spec_open_str(write_var_name);
    match spec_write_first(src, open) {
        None => src,
        Some(first) => spec_opt_loop(open, first, Seq::empty(), Seq::empty(), Seq::empty()),
    }
}

fn close_out(open: &str, format: &str, args: &str, out: &mut String)
    ensures
        final(out)@ == spec_close_out(open@, format@, args@, old(out)@),
{
    if format.unicode_len() > 0 {
        out.append(open);
        out.append(format);
        out.append("\"");
        proof {
            reveal_strlit("\"");
            assert("\""@ =~= seq!['"']);
        }
        out.append(args);
        out.append(")?;");
    }
}

/// Runs the write-merge pass over generated code, merging each run of
/// adjacent write calls that target the named sink into a single call.
pub fn optimize(src: String, write_var_name: &str) -> (r: String)
    ensures
        r@ == spec_optimize(src@, write_var_name@),
{
    let mut open = String::new();
    open.append("write!(");
    open.append(write_var_name);
    open.append(", \"");
    proof {
        assert(open@ == spec_open_str(write_var_name@));
        reveal_strlit("write!(");
        assert(open@.len() >= 1);
    }
    let mut first = match Write::first(src.as_str(), open.as_str()) {
        Some(first) => first,
        None => {
            return src;
        },
    };
    let mut out = String::new();
    let mut format = String::new();
    let mut args = String::new();
    loop
        invariant
            open@ == spec_open_str(write_var_name@),
            open@.len() >= 1,
            spec_optimize(src@, write_var_name@) == spec_opt_loop(
                open@,
                first@,
                out@,
                format@,
                args@,
            ),
        decreases first.postfix@.len(),
    {
        proof {
            lemma_write_first_shrinks(first@.postfix, open@);
        }
        match first.next(open.as_str()) {
            Some(next) => {
                if first.prefix.unicode_len() == 0 {
                    format.append(first.pattern);
                    args.append(first.args);
                } else {
                    close_out(open.as_str(), format.as_str(), args.as_str(), &mut out);
                    out.append(first.prefix);
                    format = String::new();
                    args = String::new();
                    format.append(first.pattern);
                    args.append(first.args);
                }
                first = next;
            },
            None => {
                if first.prefix.unicode_len() == 0 {
                    out.append(open.as_str());
                    out.append(format.as_str());
                    out.append(first.pattern);
                    out.append("\"");
                    proof {
                        reveal_strlit("\"");
                        assert("\""@ =~= seq!['"']);
                    }
                    out.append(args.as_str());
                    out.append(first.args);
                    out.append(")?;");
                } else {
                    close_out(open.as_str(), format.as_str(), args.as_str(), &mut out);
                    out.append(first.prefix);
                    out.append(open.as_str());
                    out.append(first.pattern);
                    out.append("\"");
                    proof {
                        reveal_strlit("\"");
                        assert("\""@ =~= seq!['"']);
                    }
                    out.append(first.args);
                    out.append(")?;");
                }
                out.append(first.postfix);
                return out;
            },
        }
    }
}

} // verus!

verus! {

/// The position the quote scan stops at holds an unescaped quote.
pub proof fn lemma_fcq_hit_quote(s: Seq<char>, i: int, escaped: bool)
    requires
        0 <= i,
    ensures
        match spec_fcq(s, i, escaped) {
            Some(k) => 0 <= k < s.len() && s[k] == '"',
            None => true,
        },
    decreases s.len() - i,
{
    if 0 <= i < s.len() {
        let c = s[i];
        if c == '\\' {
            lemma_fcq_hit_quote(s, i + 1, !escaped);
        } else if c == '"' && !escaped {
        } else {
            lemma_fcq_hit_quote(s, i + 1, false);
        }
    }
}

/// A parsed write call decomposes its source exactly: the text is the
/// code before it, the opener, its format string, the closing quote,
/// its arguments, the call close, and the text after it.
pub proof fn lemma_write_first_reassemble(src: Seq<char>, open: Seq<char>)
    requires
        open.len() >= 1,
    ensures
        match spec_write_first(src, open) {
            Some(w) => src == w.prefix + open + w.pattern + seq!['"'] + w.args + ")?;"@
                + w.postfix,
            None => true,
        },
{
    reveal_strlit(")?;");
    lemma_find_props(src, open);
    match spec_find(src, open) {
        None => {},
        Some(offset) => {
            let post1 = src.subrange(offset + open.len(), src.len() as int);
            lemma_fcq_bounds(post1, 0, false);
            lemma_fcq_hit_quote(post1, 0, false);
            match spec_fcq(post1, 0, false) {
                None => {},
                Some(q) => {
                    let post2 = post1.subrange(q + 1, post1.len() as int);
                    lemma_find_props(post2, ")?;"@);
                    match spec_find(post2, ")?;"@) {
                        None => {},
                        Some(a) => {
                            let w = spec_write_first(src, open).unwrap();
                            assert(src.subrange(offset, offset + open.len()) =~= open);
                            assert(post2.subrange(a, a + 3) =~= ")?;"@);
                            assert(post1 =~= w.pattern + seq!['"'] + post2);
                            assert(post2 =~= w.args + ")?;"@ + w.postfix);
                            assert(src =~= w.prefix + open + post1);
                            assert(src =~= w.prefix + open + w.pattern + seq!['"'] + w.args
                                + ")?;"@ + w.postfix);
                        },
                    }
                },
            }
        },
    }
}

/// A chain of write calls the merge pass cannot act on: every call has
/// a format string, and every call after this one stands behind
/// intervening code.
pub open spec fn spec_unmergeable(open: Seq<char>, w: WriteModel) -> bool
    decreases w.postfix.len(),
    when open.len() >= 1
    via spec_unmergeable_decreases
{
    &&& w.pattern.len() > 0
    &&& match spec_write_first(w.postfix, open) {
        None => true,
        Some(next) => next.prefix.len() > 0 && spec_unmergeable(open, next),
    }
}

#[via_fn]
proof fn spec_unmergeable_decreases(open: Seq<char>, w: WriteModel) {
    lemma_write_first_shrinks(w.postfix, open);
}

} // verus!
