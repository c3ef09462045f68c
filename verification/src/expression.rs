//! The expression scanner. It finds the next marker in the remaining
//! template text, classifies it, and splits the text into the literal run
//! before the marker, the marker's content, and the remainder after it.
//! Every step is pinned to a specification mirror over character
//! sequences, so scanning is a function of the input text alone.
use vstd::prelude::*;

verus! {

use vstd::string::StrSliceExecFns;
use vstd::math::min;
use crate::error::{ErrorKind, ParseError, res_matches, res_opt_matches};
use crate::strutil::{
    find, lemma_find_props, lemma_rskip_spaces_bounds, lemma_skip_spaces_bounds, spec_find,
    spec_trim_end, spec_trim_start, str_eq, trim_start,
};

/// What a marker means: a comment, a value (HTML-escaped or raw), a block
/// open or close, or literal text that passes through verbatim.
#[derive(Debug, Clone, Copy)]
pub enum ExpressionType {
    Comment,
    HtmlEscaped,
    Raw,
    Open,
    Close,
    Escaped,
}

/// One scanned marker: its kind, the literal run before it, its content,
/// the remaining input after it, and the raw span it was read from.
#[derive(Debug, Clone, Copy)]
pub struct Expression<'a> {
    pub expression_type: ExpressionType,
    pub prefix: &'a str,
    pub content: &'a str,
    pub postfix: &'a str,
    pub raw: &'a str,
}

/// The mathematical shadow of a scanned marker.
pub ghost struct ExprModel {
    pub kind: ExpressionType,
    pub prefix: Seq<char>,
    pub content: Seq<char>,
    pub postfix: Seq<char>,
    pub raw: Seq<char>,
}

impl<'a> View for Expression<'a> {
    type V = ExprModel;

    open spec fn view(&self) -> ExprModel {
        ExprModel {
            kind: self.expression_type,
            prefix: self.prefix@,
            content: self.content@,
            postfix: self.postfix@,
            raw: self.raw@,
        }
    }
}

/// Advances past `len` characters, requiring more input to remain after.
pub open spec fn spec_nibble(src: Seq<char>, start: int, len: int) -> Option<int> {
    if start + len >= src.len() {
        None
    } else {
        Some(start + len)
    }
}

fn nibble(src: &str, start: usize, len: usize) -> (r: Result<usize, ParseError>)
    requires
        start <= src@.len(),
    ensures
        match r {
            Ok(e) => spec_nibble(src@, start as int, len as int) == Some(e as int) && e < src@.len(),
            Err(err) => spec_nibble(src@, start as int, len as int) is None && err.kind
                == ErrorKind::UnterminatedMarker,
        },
{
    let n = src.unicode_len();
    if len >= n - start {
        Err(ParseError::unclosed(src))
    } else {
        Ok(start + len)
    }
}

/// Closing a marker that began with `prefix`: find the terminator `end`
/// inside `start`, honour a trailing trim modifier, and split the text.
pub open spec fn spec_close(
    kind: ExpressionType,
    prefix: Seq<char>,
    start: Seq<char>,
    end: Seq<char>,
) -> Result<ExprModel, ErrorKind> {
    match spec_find(start, end) {
        Some(pos0) => {
            if pos0 == 0 {
                Err(ErrorKind::EmptyBlockContent)
            } else {
                let tilde = start[pos0 - 1] == '~';
                let pos = if tilde {
                    pos0 - 1
                } else {
                    pos0
                };
                let post0 = start.subrange(pos0 + end.len(), start.len() as int);
                let postfix = if tilde {
                    spec_trim_start(post0)
                } else {
                    post0
                };
                Ok(
                    ExprModel {
                        kind,
                        prefix,
                        content: start.subrange(0, pos),
                        postfix,
                        raw: start.subrange(0, pos + end.len()),
                    },
                )
            }
        },
        None => Err(ErrorKind::UnterminatedMarker),
    }
}

/// A comment marker: `--` right after the opener switches the terminator
/// from the plain close to the long close.
pub open spec fn spec_check_comment(prefix: Seq<char>, start: Seq<char>) -> Result<
    ExprModel,
    ErrorKind,
> {
    if spec_find(start, "--"@) == Some(0int) {
        spec_close(ExpressionType::Comment, prefix, start.subrange(2, start.len() as int), "--}}"@)
    } else {
        spec_close(ExpressionType::Comment, prefix, start, "}}"@)
    }
}

/// Scanning for the footer of a verbatim section: successive candidate
/// footers are tried until one names the opener's tag.
pub open spec fn spec_fce(open: ExprModel, from: int) -> Result<ExprModel, ErrorKind>
    decreases open.postfix.len() - from,
    when 0 <= from <= open.postfix.len()
    via spec_fce_decreases
{
    let window = open.postfix.subrange(from, open.postfix.len() as int);
    match spec_find(window, "{{{{/"@) {
        None => Err(ErrorKind::UnterminatedMarker),
        Some(candidate) => {
            let start = candidate + 5;
            let remains = window.subrange(start, window.len() as int);
            match spec_find(remains, "}}}}"@) {
                None => Err(ErrorKind::UnterminatedMarker),
                Some(close) => {
                    let end = start + close + 4;
                    if remains.subrange(0, close) == open.content {
                        Ok(
                            ExprModel {
                                kind: ExpressionType::Escaped,
                                prefix: open.prefix,
                                content: open.postfix.subrange(0, from + candidate),
                                postfix: window.subrange(end, window.len() as int),
                                raw: open.raw,
                            },
                        )
                    } else {
                        spec_fce(open, from + end)
                    }
                },
            }
        },
    }
}

#[via_fn]
proof fn spec_fce_decreases(open: ExprModel, from: int) {
    let window = open.postfix.subrange(from, open.postfix.len() as int);
    lemma_find_props(window, "{{{{/"@);
    match spec_find(window, "{{{{/"@) {
        None => {},
        Some(candidate) => {
            let start = candidate + 5;
            let remains = window.subrange(start, window.len() as int);
            lemma_find_props(remains, "}}}}"@);
            reveal_strlit("{{{{/");
            reveal_strlit("}}}}");
        },
    }
}

/// The full scan of the next marker in `src`: no marker at all, a marker
/// of one of the six kinds, or a failure.
pub open spec fn spec_from(src: Seq<char>) -> Result<Option<ExprModel>, ErrorKind> {
    match spec_find(src, "{{"@) {
        None => Ok(None),
        Some(start) => match spec_nibble(src, start, 3) {
            None => Err(ErrorKind::UnterminatedMarker),
            Some(second) => {
                if start > 0 && src[start - 1] == '\\' {
                    match spec_close(
                        ExpressionType::Escaped,
                        src.subrange(0, start - 1),
                        src.subrange(second - 1, src.len() as int),
                        "}}"@,
                    ) {
                        Ok(m) => Ok(Some(m)),
                        Err(k) => Err(k),
                    }
                } else {
                    let prefix0 = src.subrange(0, start);
                    let marker0 = src[start + 2];
                    if marker0 == '~' {
                        match spec_nibble(src, second, 1) {
                            None => Err(ErrorKind::UnterminatedMarker),
                            Some(second1) => spec_from_marker(
                                src,
                                spec_trim_end(prefix0),
                                src[start + 3],
                                second1,
                            ),
                        }
                    } else {
                        spec_from_marker(src, prefix0, marker0, second)
                    }
                }
            },
        },
    }
}

/// Dispatch on the classifying character that follows the opening braces.
pub open spec fn spec_from_marker(
    src: Seq<char>,
    prefix: Seq<char>,
    marker: char,
    second: int,
) -> Result<Option<ExprModel>, ErrorKind> {
    if marker == '{' {
        match spec_nibble(src, second, 1) {
            None => Err(ErrorKind::UnterminatedMarker),
            Some(next) => {
                let ch = src[second];
                if ch == '{' {
                    match spec_nibble(src, next, 1) {
                        None => Err(ErrorKind::UnterminatedMarker),
                        Some(next2) => {
                            let tilde = src[next] == '~';
                            let second2 = if tilde {
                                next2
                            } else {
                                next
                            };
                            let prefix2 = if tilde {
                                spec_trim_end(prefix)
                            } else {
                                prefix
                            };
                            match spec_close(
                                ExpressionType::Escaped,
                                prefix2,
                                src.subrange(second2, src.len() as int),
                                "}}}}"@,
                            ) {
                                Ok(m) => match spec_fce(m, 0) {
                                    Ok(m2) => Ok(Some(m2)),
                                    Err(k) => Err(k),
                                },
                                Err(k) => Err(k),
                            }
                        },
                    }
                } else {
                    let tilde = ch == '~';
                    let second1 = if tilde {
                        next
                    } else {
                        second
                    };
                    let prefix1 = if tilde {
                        spec_trim_end(prefix)
                    } else {
                        prefix
                    };
                    match spec_close(
                        ExpressionType::Raw,
                        prefix1,
                        src.subrange(second1, src.len() as int),
                        "}}}"@,
                    ) {
                        Ok(m) => Ok(Some(m)),
                        Err(k) => Err(k),
                    }
                }
            },
        }
    } else if marker == '!' {
        match spec_check_comment(prefix, src.subrange(second, src.len() as int)) {
            Ok(m) => Ok(Some(m)),
            Err(k) => Err(k),
        }
    } else if marker == '#' {
        match spec_close(
            ExpressionType::Open,
            prefix,
            src.subrange(second, src.len() as int),
            "}}"@,
        ) {
            Ok(m) => Ok(Some(m)),
            Err(k) => Err(k),
        }
    } else if marker == '/' {
        match spec_close(
            ExpressionType::Close,
            prefix,
            src.subrange(second, src.len() as int),
            "}}"@,
        ) {
            Ok(m) => Ok(Some(m)),
            Err(k) => Err(k),
        }
    } else {
        match spec_close(
            ExpressionType::HtmlEscaped,
            prefix,
            src.subrange(second - 1, src.len() as int),
            "}}"@,
        ) {
            Ok(m) => Ok(Some(m)),
            Err(k) => Err(k),
        }
    }
}

/// The window of the raw span quoted in diagnostics.
pub open spec fn spec_around(m: ExprModel) -> Seq<char> {
    let len = m.raw.len() as int;
    if len == 0 {
        m.raw
    } else {
        let start = m.prefix.len() as int;
        let end = start + m.content.len() + 16;
        let lo = min(len - 1, if start > 16 { start - 16 } else { 0 });
        let hi = min(len, end);
        m.raw.subrange(lo, hi)
    }
}

pub proof fn lemma_close_bound(
    kind: ExpressionType,
    prefix: Seq<char>,
    start: Seq<char>,
    end: Seq<char>,
)
    ensures
        match spec_close(kind, prefix, start, end) {
            Ok(m) => m.postfix.len() + 1 + end.len() <= start.len(),
            Err(_) => true,
        },
{
    lemma_find_props(start, end);
    match spec_find(start, end) {
        Some(pos0) => {
            if pos0 != 0 {
                let post0 = start.subrange(pos0 + end.len(), start.len() as int);
                lemma_skip_spaces_bounds(post0, 0);
            }
        },
        None => {},
    }
}

pub proof fn lemma_fce_bound(open: ExprModel, from: int)
    requires
        0 <= from <= open.postfix.len(),
    ensures
        match spec_fce(open, from) {
            Ok(m) => m.postfix.len() + 9 + from <= open.postfix.len() && m.raw == open.raw,
            Err(_) => true,
        },
    decreases open.postfix.len() - from,
{
    let window = open.postfix.subrange(from, open.postfix.len() as int);
    lemma_find_props(window, "{{{{/"@);
    reveal_strlit("{{{{/");
    reveal_strlit("}}}}");
    match spec_find(window, "{{{{/"@) {
        None => {},
        Some(candidate) => {
            let start = candidate + 5;
            let remains = window.subrange(start, window.len() as int);
            lemma_find_props(remains, "}}}}"@);
            match spec_find(remains, "}}}}"@) {
                None => {},
                Some(close) => {
                    let end = start + close + 4;
                    if remains.subrange(0, close) == open.content {
                    } else {
                        lemma_fce_bound(open, from + end);
                    }
                },
            }
        },
    }
}

pub proof fn lemma_check_comment_bound(prefix: Seq<char>, start: Seq<char>)
    ensures
        match spec_check_comment(prefix, start) {
            Ok(m) => m.postfix.len() < start.len() || start.len() == 0,
            Err(_) => true,
        },
{
    reveal_strlit("--");
    reveal_strlit("--}}");
    reveal_strlit("}}");
    if spec_find(start, "--"@) == Some(0int) {
        lemma_find_props(start, "--"@);
        lemma_close_bound(
            ExpressionType::Comment,
            prefix,
            start.subrange(2, start.len() as int),
            "--}}"@,
        );
    } else {
        lemma_close_bound(ExpressionType::Comment, prefix, start, "}}"@);
    }
}

/// Scanning a marker always consumes input: the remainder after a
/// successfully scanned marker is strictly shorter than the text
/// it was scanned from.
pub proof fn lemma_from_shrinks(src: Seq<char>)
    ensures
        match spec_from(src) {
            Ok(Some(m)) => m.postfix.len() < src.len() && (m.kind matches ExpressionType::Open
                ==> m.postfix.len() + 6 <= src.len()),
            _ => true,
        },
{
    reveal_strlit("{{");
    reveal_strlit("}}");
    reveal_strlit("}}}");
    reveal_strlit("}}}}");
    lemma_find_props(src, "{{"@);
    match spec_find(src, "{{"@) {
        None => {},
        Some(start) => {
            match spec_nibble(src, start, 3) {
                None => {},
                Some(second) => {
                    if start > 0 && src[start - 1] == '\\' {
                        lemma_close_bound(
                            ExpressionType::Escaped,
                            src.subrange(0, start - 1),
                            src.subrange(second - 1, src.len() as int),
                            "}}"@,
                        );
                    } else {
                        let prefix0 = src.subrange(0, start);
                        let marker0 = src[start + 2];
                        if marker0 == '~' {
                            match spec_nibble(src, second, 1) {
                                None => {},
                                Some(second1) => {
                                    lemma_from_marker_shrinks(
                                        src,
                                        spec_trim_end(prefix0),
                                        src[start + 3],
                                        second1,
                                    );
                                },
                            }
                        } else {
                            lemma_from_marker_shrinks(src, prefix0, marker0, second);
                        }
                    }
                },
            }
        },
    }
}

proof fn lemma_from_marker_shrinks(src: Seq<char>, prefix: Seq<char>, marker: char, second: int)
    requires
        3 <= second < src.len(),
    ensures
        match spec_from_marker(src, prefix, marker, second) {
            Ok(Some(m)) => m.postfix.len() < src.len() && (m.kind matches ExpressionType::Open
                ==> m.postfix.len() + 6 <= src.len()),
            _ => true,
        },
{
    reveal_strlit("}}");
    reveal_strlit("}}}");
    reveal_strlit("}}}}");
    if marker == '{' {
        match spec_nibble(src, second, 1) {
            None => {},
            Some(next) => {
                let ch = src[second];
                if ch == '{' {
                    match spec_nibble(src, next, 1) {
                        None => {},
                        Some(next2) => {
                            let tilde = src[next] == '~';
                            let second2 = if tilde {
                                next2
                            } else {
                                next
                            };
                            let prefix2 = if tilde {
                                spec_trim_end(prefix)
                            } else {
                                prefix
                            };
                            lemma_close_bound(
                                ExpressionType::Escaped,
                                prefix2,
                                src.subrange(second2, src.len() as int),
                                "}}}}"@,
                            );
                            match spec_close(
                                ExpressionType::Escaped,
                                prefix2,
                                src.subrange(second2, src.len() as int),
                                "}}}}"@,
                            ) {
                                Ok(m) => {
                                    lemma_fce_bound(m, 0);
                                },
                                Err(_) => {},
                            }
                        },
                    }
                } else {
                    let tilde = ch == '~';
                    let second1 = if tilde {
                        next
                    } else {
                        second
                    };
                    let prefix1 = if tilde {
                        spec_trim_end(prefix)
                    } else {
                        prefix
                    };
                    lemma_close_bound(
                        ExpressionType::Raw,
                        prefix1,
                        src.subrange(second1, src.len() as int),
                        "}}}"@,
                    );
                }
            },
        }
    } else if marker == '!' {
        lemma_check_comment_bound(prefix, src.subrange(second, src.len() as int));
    } else if marker == '#' {
        lemma_close_bound(
            ExpressionType::Open,
            prefix,
            src.subrange(second, src.len() as int),
            "}}"@,
        );
    } else if marker == '/' {
        lemma_close_bound(
            ExpressionType::Close,
            prefix,
            src.subrange(second, src.len() as int),
            "}}"@,
        );
    } else {
        lemma_close_bound(
            ExpressionType::HtmlEscaped,
            prefix,
            src.subrange(second - 1, src.len() as int),
            "}}"@,
        );
    }
}

impl<'a> Expression<'a> {
    fn close(
        expression_type: ExpressionType,
        preffix: &'a str,
        start: &'a str,
        end: &str,
    ) -> (r: Result<Self, ParseError>)
        ensures
            res_matches(r, spec_close(expression_type, preffix@, start@, end@)),
            r matches Ok(e) ==> e.prefix == preffix,
    {
        proof {
            lemma_find_props(start@, end@);
        }
        match find(start, end) {
            Some(pos_found) => {
                if pos_found == 0 {
                    let mut msg = String::new();
                    msg.append("empty block near ");
                    msg.append(preffix);
                    Err(ParseError { kind: ErrorKind::EmptyBlockContent, message: msg })
                } else {
                    let end_len = end.unicode_len();
                    let n = start.unicode_len();
                    let mut postfix = start.substring_char(pos_found + end_len, n);
                    let mut pos = pos_found;
                    if start.get_char(pos_found - 1) == '~' {
                        postfix = trim_start(postfix);
                        pos = pos_found - 1;
                    }
                    Ok(
                        Expression {
                            expression_type,
                            prefix: preffix,
                            content: start.substring_char(0, pos),
                            postfix,
                            raw: start.substring_char(0, pos + end_len),
                        },
                    )
                }
            },
            None => Err(ParseError::unclosed(preffix)),
        }
    }

    fn check_comment(preffix: &'a str, start: &'a str) -> (r: Result<Self, ParseError>)
        ensures
            res_matches(r, spec_check_comment(preffix@, start@)),
            r matches Ok(e) ==> e.prefix == preffix,
    {
        proof {
            lemma_find_props(start@, "--"@);
            reveal_strlit("--");
        }
        match find(start, "--") {
            Some(pos) => {
                if pos == 0 {
                    let n = start.unicode_len();
                    Self::close(ExpressionType::Comment, preffix, start.substring_char(2, n), "--}}")
                } else {
                    Self::close(ExpressionType::Comment, preffix, start, "}}")
                }
            },
            None => Self::close(ExpressionType::Comment, preffix, start, "}}"),
        }
    }

    fn find_closing_escape(open: Expression<'a>) -> (r: Result<Self, ParseError>)
        ensures
            res_matches(r, spec_fce(open@, 0)),
    {
        let mut from: usize = 0;
        let plen = open.postfix.unicode_len();
        loop
            invariant
                from <= plen,
                plen == open.postfix@.len(),
                spec_fce(open@, 0) == spec_fce(open@, from as int),
            decreases plen - from,
        {
            let window = open.postfix.substring_char(from, plen);
            proof {
                lemma_find_props(window@, "{{{{/"@);
                reveal_strlit("{{{{/");
                reveal_strlit("}}}}");
            }
            match find(window, "{{{{/") {
                None => {
                    return Err(ParseError::unclosed(open.raw));
                },
                Some(candidate) => {
                    let start = candidate + 5;
                    let wlen = window.unicode_len();
                    let remains = window.substring_char(start, wlen);
                    proof {
                        lemma_find_props(remains@, "}}}}"@);
                    }
                    match find(remains, "}}}}") {
                        None => {
                            return Err(ParseError::unclosed(open.raw));
                        },
                        Some(close_pos) => {
                            let end = start + close_pos + 4;
                            if str_eq(remains.substring_char(0, close_pos), open.content) {
                                return Ok(
                                    Expression {
                                        expression_type: ExpressionType::Escaped,
                                        prefix: open.prefix,
                                        content: open.postfix.substring_char(0, from + candidate),
                                        postfix: window.substring_char(end, wlen),
                                        raw: open.raw,
                                    },
                                );
                            }
                            from = from + end;
                        },
                    }
                },
            }
        }
    }

    /// Scans the next marker of `src`, if any.
    pub fn from(src: &'a str) -> (r: Result<Option<Self>, ParseError>)
        ensures
            res_opt_matches(r, spec_from(src@)),
    {
        proof {
            lemma_find_props(src@, "{{"@);
            reveal_strlit("{{");
        }
        match find(src, "{{") {
            None => Ok(None),
            Some(start) => {
                let n = src.unicode_len();
                let second = match nibble(src, start, 3) {
                    Ok(s) => s,
                    Err(e) => {
                        return Err(e);
                    },
                };
                if start > 0 && src.get_char(start - 1) == '\\' {
                    let e = Self::close(
                        ExpressionType::Escaped,
                        src.substring_char(0, start - 1),
                        src.substring_char(second - 1, n),
                        "}}",
                    )?;
                    return Ok(Some(e));
                }
                let mut prefix = src.substring_char(0, start);
                let mut marker = src.get_char(start + 2);
                let mut second_cur = second;
                if marker == '~' {
                    prefix = crate::strutil::trim_end(prefix);
                    second_cur = match nibble(src, second, 1) {
                        Ok(s) => s,
                        Err(e) => {
                            return Err(e);
                        },
                    };
                    marker = src.get_char(start + 3);
                }
                if marker == '{' {
                    let next = match nibble(src, second_cur, 1) {
                        Ok(s) => s,
                        Err(e) => {
                            return Err(e);
                        },
                    };
                    let ch = src.get_char(second_cur);
                    if ch == '{' {
                        let next2 = match nibble(src, next, 1) {
                            Ok(s) => s,
                            Err(e) => {
                                return Err(e);
                            },
                        };
                        let mut second2 = next;
                        if src.get_char(next) == '~' {
                            second2 = next2;
                            prefix = crate::strutil::trim_end(prefix);
                        }
                        let opened = Self::close(
                            ExpressionType::Escaped,
                            prefix,
                            src.substring_char(second2, n),
                            "}}}}",
                        )?;
                        let e = Self::find_closing_escape(opened)?;
                        return Ok(Some(e));
                    }
                    if ch == '~' {
                        second_cur = next;
                        prefix = crate::strutil::trim_end(prefix);
                    }
                    let e = Self::close(
                        ExpressionType::Raw,
                        prefix,
                        src.substring_char(second_cur, n),
                        "}}}",
                    )?;
                    Ok(Some(e))
                } else if marker == '!' {
                    let e = Self::check_comment(prefix, src.substring_char(second_cur, n))?;
                    Ok(Some(e))
                } else if marker == '#' {
                    let e = Self::close(
                        ExpressionType::Open,
                        prefix,
                        src.substring_char(second_cur, n),
                        "}}",
                    )?;
                    Ok(Some(e))
                } else if marker == '/' {
                    let e = Self::close(
                        ExpressionType::Close,
                        prefix,
                        src.substring_char(second_cur, n),
                        "}}",
                    )?;
                    Ok(Some(e))
                } else {
                    let e = Self::close(
                        ExpressionType::HtmlEscaped,
                        prefix,
                        src.substring_char(second_cur - 1, n),
                        "}}",
                    )?;
                    Ok(Some(e))
                }
            },
        }
    }

    /// Scans the marker that follows this one.
    pub fn next(&self) -> (r: Result<Option<Self>, ParseError>)
        ensures
            res_opt_matches(r, spec_from(self.postfix@)),
    {
        Self::from(self.postfix)
    }

    /// The window of the raw span quoted in diagnostics.
    pub fn around(&self) -> (r: &str)
        ensures
            r@ == spec_around(self@),
    {
        let len = self.raw.unicode_len();
        if len == 0 {
            return self.raw;
        }
        let start = self.prefix.unicode_len();
        let clen = self.content.unicode_len();
        let lo_raw = if start > 16 {
            start - 16
        } else {
            0
        };
        let lo = if len - 1 < lo_raw {
            len - 1
        } else {
            lo_raw
        };
        let hi = if start >= len {
            len
        } else if clen >= len - start {
            len
        } else if 16 >= len - start - clen {
            len
        } else {
            start + clen + 16
        };
        proof {
            assert(hi as int == min(
                self.raw@.len() as int,
                self.prefix@.len() + self.content@.len() + 16int,
            ));
            assert(lo as int == min(
                self.raw@.len() - 1,
                if self.prefix@.len() > 16 {
                    self.prefix@.len() - 16int
                } else {
                    0int
                },
            ));
        }
        self.raw.substring_char(lo, hi)
    }
}

} // verus!
