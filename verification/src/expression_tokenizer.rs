//! The token reader. It splits one marker's content into an ordered,
//! forward-only chain of argument tokens: dotted paths, private variables
//! introduced by an at-sign, parenthesized sub-expressions, quoted string
//! literals and numeric literals. Each parsing step is pinned to a
//! specification mirror over character sequences.
use vstd::prelude::*;

verus! {

use vstd::string::StrSliceExecFns;
use crate::error::{ErrorKind, ParseError, res_opt_matches};
use crate::strutil::{is_space, is_space_char, spec_trim, spec_trim_start, trim, trim_start};

/// Classification of one argument token. A sub-expression carries the raw
/// text it was read from.
#[derive(Clone)]
pub enum TokenType<'a> {
    SubExpression(&'a str),
    PrivateVariable,
    Variable,
    Literal,
}

/// One argument token and the remaining text after it.
#[derive(Clone)]
pub struct Token<'a> {
    pub token_type: TokenType<'a>,
    pub value: &'a str,
    pub tail: &'a str,
}

/// The mathematical shadow of a token's classification.
pub ghost enum TokenKindModel {
    SubExpression(Seq<char>),
    PrivateVariable,
    Variable,
    Literal,
}

/// The mathematical shadow of a token.
pub ghost struct TokenModel {
    pub kind: TokenKindModel,
    pub value: Seq<char>,
    pub tail: Seq<char>,
}

impl<'a> View for TokenType<'a> {
    type V = TokenKindModel;

    open spec fn view(&self) -> TokenKindModel {
        match self {
            TokenType::SubExpression(raw) => TokenKindModel::SubExpression(raw@),
            TokenType::PrivateVariable => TokenKindModel::PrivateVariable,
            TokenType::Variable => TokenKindModel::Variable,
            TokenType::Literal => TokenKindModel::Literal,
        }
    }
}

impl<'a> View for Token<'a> {
    type V = TokenModel;

    open spec fn view(&self) -> TokenModel {
        TokenModel { kind: self.token_type@, value: self.value@, tail: self.tail@ }
    }
}

/// Position of the parenthesis that balances the one opening at the
/// start, scanning from `i` with `count` levels currently open.
pub open spec fn spec_find_closing(s: Seq<char>, i: int, count: int) -> Option<int>
    decreases s.len() - i,
{
    if i < 0 || i >= s.len() {
        None
    } else {
        let c = s[i];
        let count2 = if c == '(' {
            count + 1
        } else if c == ')' {
            count - 1
        } else {
            count
        };
        if count2 == 0 {
            Some(i)
        } else {
            spec_find_closing(s, i + 1, count2)
        }
    }
}

pub proof fn lemma_find_closing_bounds(s: Seq<char>, i: int, count: int)
    requires
        0 <= i,
    ensures
        match spec_find_closing(s, i, count) {
            Some(k) => i <= k < s.len(),
            None => true,
        },
    decreases s.len() - i,
{
    if 0 <= i < s.len() {
        let c = s[i];
        let count2 = if c == '(' {
            count + 1
        } else if c == ')' {
            count - 1
        } else {
            count
        };
        if count2 != 0 {
            lemma_find_closing_bounds(s, i + 1, count2);
        }
    }
}

/// One past the quote that ends a string literal, scanning from `i`
/// and tracking backslash escapes: a backslash toggles the escape flag,
/// any other character clears it, and only an unescaped quote closes.
pub open spec fn spec_find_eos(s: Seq<char>, i: int, escaped: bool) -> Option<int>
    decreases s.len() - i,
{
    if i < 0 || i >= s.len() {
        None
    } else {
        let c = s[i];
        if c == '\\' {
            spec_find_eos(s, i + 1, !escaped)
        } else if c == '"' && !escaped {
            Some(i + 1)
        } else {
            spec_find_eos(s, i + 1, false)
        }
    }
}

pub proof fn lemma_find_eos_bounds(s: Seq<char>, i: int, escaped: bool)
    requires
        0 <= i,
    ensures
        match spec_find_eos(s, i, escaped) {
            Some(k) => i < k <= s.len(),
            None => true,
        },
    decreases s.len() - i,
{
    if 0 <= i < s.len() {
        let c = s[i];
        if c == '\\' {
            lemma_find_eos_bounds(s, i + 1, !escaped);
        } else if c == '"' && !escaped {
        } else {
            lemma_find_eos_bounds(s, i + 1, false);
        }
    }
}

/// Index of the first whitespace or opening parenthesis at or after `i`,
/// or the end of the text.
pub open spec fn spec_find_wend(s: Seq<char>, i: int) -> int
    decreases s.len() - i,
{
    if i < 0 || i >= s.len() {
        s.len() as int
    } else if is_space(s[i]) || s[i] == '(' {
        i
    } else {
        spec_find_wend(s, i + 1)
    }
}

pub proof fn lemma_find_wend_bounds(s: Seq<char>, i: int)
    requires
        0 <= i <= s.len(),
    ensures
        i <= spec_find_wend(s, i) <= s.len(),
    decreases s.len() - i,
{
    if i < s.len() && !(is_space(s[i]) || s[i] == '(') {
        lemma_find_wend_bounds(s, i + 1);
    }
}

/// Every character is a decimal digit or a dot.
pub open spec fn spec_is_number(s: Seq<char>) -> bool {
    forall|i: int| 0 <= i < s.len() ==> (48 <= #[trigger] s[i] as u32 <= 57 || s[i] == '.')
}

/// Reading one token from the front of the text.
pub open spec fn spec_parse(src: Seq<char>) -> Result<Option<TokenModel>, ErrorKind> {
    if src.len() == 0 {
        Ok(None)
    } else if src[0] == '@' {
        let end = spec_find_wend(src, 0);
        Ok(
            Some(
                TokenModel {
                    kind: TokenKindModel::PrivateVariable,
                    value: src.subrange(1, end),
                    tail: spec_trim_start(src.subrange(end, src.len() as int)),
                },
            ),
        )
    } else if src[0] == '(' {
        match spec_find_closing(src, 1, 1) {
            None => Err(ErrorKind::UnterminatedMarker),
            Some(end) => Ok(
                Some(
                    TokenModel {
                        kind: TokenKindModel::SubExpression(src.subrange(0, end)),
                        value: src.subrange(1, end),
                        tail: spec_trim_start(src.subrange(end + 1, src.len() as int)),
                    },
                ),
            ),
        }
    } else if src[0] == '"' {
        match spec_find_eos(src, 1, false) {
            None => Err(ErrorKind::UnterminatedMarker),
            Some(end) => Ok(
                Some(
                    TokenModel {
                        kind: TokenKindModel::Literal,
                        value: src.subrange(0, end),
                        tail: spec_trim_start(src.subrange(end, src.len() as int)),
                    },
                ),
            ),
        }
    } else {
        let end = spec_find_wend(src, 0);
        let kind = if spec_is_number(src.subrange(0, end)) {
            TokenKindModel::Literal
        } else {
            TokenKindModel::Variable
        };
        Ok(
            Some(
                TokenModel {
                    kind,
                    value: src.subrange(0, end),
                    tail: spec_trim_start(src.subrange(end, src.len() as int)),
                },
            ),
        )
    }
}

/// Reading the first token of a marker's content.
pub open spec fn spec_first(src: Seq<char>) -> Result<Option<TokenModel>, ErrorKind> {
    spec_parse(spec_trim(src))
}

/// Reading one token always consumes input, and a sub-expression's inner
/// text is strictly inside its source.
pub proof fn lemma_parse_bounds(src: Seq<char>)
    ensures
        match spec_parse(src) {
            Ok(Some(t)) => t.tail.len() < src.len() && t.value.len() <= src.len() && match t.kind {
                TokenKindModel::SubExpression(raw) => t.value.len() + 2 <= src.len() && raw.len()
                    + 1 <= src.len(),
                _ => true,
            },
            _ => true,
        },
{
    if src.len() == 0 {
    } else if src[0] == '@' {
        lemma_find_wend_bounds(src, 0);
        lemma_find_wend_bounds(src, 1);
        let end = spec_find_wend(src, 0);
        let rest = src.subrange(end, src.len() as int);
        crate::strutil::lemma_skip_spaces_bounds(rest, 0);
    } else if src[0] == '(' {
        lemma_find_closing_bounds(src, 1, 1);
        match spec_find_closing(src, 1, 1) {
            None => {},
            Some(end) => {
                let rest = src.subrange(end + 1, src.len() as int);
                crate::strutil::lemma_skip_spaces_bounds(rest, 0);
            },
        }
    } else if src[0] == '"' {
        lemma_find_eos_bounds(src, 1, false);
        match spec_find_eos(src, 1, false) {
            None => {},
            Some(end) => {
                let rest = src.subrange(end, src.len() as int);
                crate::strutil::lemma_skip_spaces_bounds(rest, 0);
            },
        }
    } else {
        lemma_find_wend_bounds(src, 0);
        let end = spec_find_wend(src, 0);
        let rest = src.subrange(end, src.len() as int);
        crate::strutil::lemma_skip_spaces_bounds(rest, 0);
        if end == 0 {
            if !(is_space(src[0]) || src[0] == '(') {
                lemma_find_wend_bounds(src, 1);
                assert(false);
            }
            assert(is_space(src[0]));
            assert(rest[0] == src[0]);
            crate::strutil::lemma_skip_spaces_bounds(rest, 1);
        }
    }
}

fn find_closing(src: &str) -> (r: Result<usize, ParseError>)
    requires
        src@.len() >= 1,
    ensures
        match r {
            Ok(k) => spec_find_closing(src@, 1, 1) == Some(k as int),
            Err(e) => spec_find_closing(src@, 1, 1) is None && e.kind
                == ErrorKind::UnterminatedMarker,
        },
{
    let n = src.unicode_len();
    let mut count: usize = 1;
    let mut i: usize = 1;
    while i < n
        invariant
            1 <= i,
            n == src@.len(),
            count >= 1,
            count <= i,
            spec_find_closing(src@, 1, 1) == spec_find_closing(src@, i as int, count as int),
        decreases n - i,
    {
        let c = src.get_char(i);
        if c == '(' {
            count = count + 1;
        } else if c == ')' {
            count = count - 1;
        }
        if count == 0 {
            return Ok(i);
        }
        i = i + 1;
    }
    let mut m = String::new();
    m.append("unmatched brackets near ");
    m.append(crate::error::rcap(src));
    Err(ParseError { kind: ErrorKind::UnterminatedMarker, message: m })
}

fn find_end_of_string(src: &str) -> (r: Result<usize, ParseError>)
    requires
        src@.len() >= 1,
    ensures
        match r {
            Ok(k) => spec_find_eos(src@, 1, false) == Some(k as int),
            Err(e) => spec_find_eos(src@, 1, false) is None && e.kind
                == ErrorKind::UnterminatedMarker,
        },
{
    let n = src.unicode_len();
    let mut escaped = false;
    let mut i: usize = 1;
    while i < n
        invariant
            1 <= i,
            n == src@.len(),
            spec_find_eos(src@, 1, false) == spec_find_eos(src@, i as int, escaped),
        decreases n - i,
    {
        let c = src.get_char(i);
        if c == '\\' {
            escaped = !escaped;
        } else if c == '"' && !escaped {
            return Ok(i + 1);
        } else {
            escaped = false;
        }
        i = i + 1;
    }
    let mut m = String::new();
    m.append("unterminated string near ");
    m.append(crate::error::rcap(src));
    Err(ParseError { kind: ErrorKind::UnterminatedMarker, message: m })
}

fn find_end(src: &str) -> (r: usize)
    ensures
        r as int == spec_find_wend(src@, 0),
{
    let n = src.unicode_len();
    let mut i: usize = 0;
    while i < n
        invariant
            0 <= i <= n,
            n == src@.len(),
            spec_find_wend(src@, 0) == spec_find_wend(src@, i as int),
        decreases n - i,
    {
        let c = src.get_char(i);
        if is_space_char(c) || c == '(' {
            return i;
        }
        i = i + 1;
    }
    i
}

fn is_number(src: &str) -> (r: bool)
    ensures
        r == spec_is_number(src@),
{
    let n = src.unicode_len();
    let mut i: usize = 0;
    while i < n
        invariant
            0 <= i <= n,
            n == src@.len(),
            forall|k: int| 0 <= k < i ==> (48 <= #[trigger] src@[k] as u32 <= 57 || src@[k] == '.'),
        decreases n - i,
    {
        let c = src.get_char(i);
        let cv = c as u32;
        if !(48 <= cv && cv <= 57 || c == '.') {
            return false;
        }
        i = i + 1;
    }
    true
}

/// Reads one token from the front of the text.
fn parse<'a>(src: &'a str) -> (r: Result<Option<Token<'a>>, ParseError>)
    ensures
        res_opt_matches(r, spec_parse(src@)),
{
    let n = src.unicode_len();
    if n == 0 {
        return Ok(None);
    }
    let c0 = src.get_char(0);
    if c0 == '@' {
        let end = find_end(src);
        proof {
            lemma_find_wend_bounds(src@, 0);
            lemma_find_wend_bounds(src@, 1);
        }
        Ok(
            Some(
                Token {
                    token_type: TokenType::PrivateVariable,
                    value: src.substring_char(1, end),
                    tail: trim_start(src.substring_char(end, n)),
                },
            ),
        )
    } else if c0 == '(' {
        let end = find_closing(src)?;
        proof {
            lemma_find_closing_bounds(src@, 1, 1);
        }
        Ok(
            Some(
                Token {
                    token_type: TokenType::SubExpression(src.substring_char(0, end)),
                    value: src.substring_char(1, end),
                    tail: trim_start(src.substring_char(end + 1, n)),
                },
            ),
        )
    } else if c0 == '"' {
        let end = find_end_of_string(src)?;
        proof {
            lemma_find_eos_bounds(src@, 1, false);
        }
        Ok(
            Some(
                Token {
                    token_type: TokenType::Literal,
                    value: src.substring_char(0, end),
                    tail: trim_start(src.substring_char(end, n)),
                },
            ),
        )
    } else {
        let end = find_end(src);
        proof {
            lemma_find_wend_bounds(src@, 0);
        }
        let value = src.substring_char(0, end);
        let token_type = if is_number(value) {
            TokenType::Literal
        } else {
            TokenType::Variable
        };
        Ok(
            Some(
                Token {
                    token_type,
                    value,
                    tail: trim_start(src.substring_char(end, n)),
                },
            ),
        )
    }
}

impl<'a> Token<'a> {
    /// Reads the first token of a marker's content.
    pub fn first(src: &'a str) -> (r: Result<Option<Self>, ParseError>)
        ensures
            res_opt_matches(r, spec_first(src@)),
    {
        parse(trim(src))
    }

    /// Reads the token after this one.
    pub fn next(&self) -> (r: Result<Option<Self>, ParseError>)
        ensures
            res_opt_matches(r, spec_parse(self.tail@)),
    {
        parse(self.tail)
    }
}

} // verus!
