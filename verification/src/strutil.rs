//! Verified text utilities used by the scanner, tokenizer and emitter:
//! substring search, prefix tests, trimming, and decimal formatting,
//! each pinned to a specification function over character sequences.
use vstd::prelude::*;

verus! {

use vstd::string::StrSliceExecFns;
use vstd::string::StringExecFns;

/// Characters treated as whitespace by the trimming and token-splitting rules.
pub open spec fn is_space(c: char) -> bool {
    c == ' ' || c == '\n' || c == '\r' || c == '\t'
}

pub fn is_space_char(c: char) -> (r: bool)
    ensures
        r == is_space(c),
{
    c == ' ' || c == '\n' || c == '\r' || c == '\t'
}

/// The pattern occurs in `s` at position `i`.
pub open spec fn spec_match_at(s: Seq<char>, pat: Seq<char>, i: int) -> bool {
    0 <= i && i + pat.len() <= s.len() && s.subrange(i, i + pat.len()) == pat
}

/// Position of the first occurrence of `pat` in `s` at or after `i`.
pub open spec fn spec_find_from(s: Seq<char>, pat: Seq<char>, i: int) -> Option<int>
    decreases s.len() - i,
{
    if i < 0 || i + pat.len() > s.len() {
        None
    } else if pat.len() == 0 {
        Some(i)
    } else if s.subrange(i, i + pat.len()) == pat {
        Some(i)
    } else {
        spec_find_from(s, pat, i + 1)
    }
}

/// Position of the first occurrence of `pat` in `s`.
pub open spec fn spec_find(s: Seq<char>, pat: Seq<char>) -> Option<int> {
    spec_find_from(s, pat, 0)
}

pub proof fn lemma_find_from_props(s: Seq<char>, pat: Seq<char>, i: int)
    requires
        0 <= i,
    ensures
        match spec_find_from(s, pat, i) {
            Some(k) => i <= k && spec_match_at(s, pat, k),
            None => forall|k: int| i <= k ==> !spec_match_at(s, pat, k),
        },
    decreases s.len() - i,
{
    if i + pat.len() > s.len() {
        assert forall|k: int| i <= k implies !spec_match_at(s, pat, k) by {
            if spec_match_at(s, pat, k) {
                assert(k + pat.len() <= s.len());
            }
        }
    } else if pat.len() == 0 {
        assert(s.subrange(i, i + pat.len()) =~= pat);
    } else if s.subrange(i, i + pat.len()) == pat {
    } else {
        lemma_find_from_props(s, pat, i + 1);
        match spec_find_from(s, pat, i + 1) {
            Some(k) => {},
            None => {
                assert forall|k: int| i <= k implies !spec_match_at(s, pat, k) by {
                    if k == i {
                        assert(!spec_match_at(s, pat, i));
                    }
                }
            },
        }
    }
}

pub proof fn lemma_find_props(s: Seq<char>, pat: Seq<char>)
    ensures
        match spec_find(s, pat) {
            Some(k) => 0 <= k && k + pat.len() <= s.len() && s.subrange(k, k + pat.len()) == pat,
            None => forall|k: int| !spec_match_at(s, pat, k),
        },
{
    lemma_find_from_props(s, pat, 0);
    match spec_find(s, pat) {
        Some(k) => {},
        None => {
            assert forall|k: int| !spec_match_at(s, pat, k) by {
                if spec_match_at(s, pat, k) {
                    assert(0 <= k);
                }
            }
        },
    }
}

/// Compares `pat` against the characters of `s` starting at `i`.
pub fn match_at(s: &str, pat: &str, i: usize) -> (r: bool)
    requires
        i + pat@.len() <= s@.len(),
    ensures
        r == spec_match_at(s@, pat@, i as int),
{
    let m = pat.unicode_len();
    let n = s.unicode_len();
    let mut j: usize = 0;
    while j < m
        invariant
            j <= m,
            m == pat@.len(),
            n == s@.len(),
            i + m <= n,
            forall|k: int| 0 <= k < j ==> s@[i + k] == pat@[k],
        decreases m - j,
    {
        if s.get_char(i + j) != pat.get_char(j) {
            proof {
                assert(s@.subrange(i as int, i + m as int)[j as int] == s@[i + j]);
                assert(s@.subrange(i as int, i + m as int) != pat@);
            }
            return false;
        }
        j = j + 1;
    }
    proof {
        assert(s@.subrange(i as int, i + m as int) =~= pat@);
    }
    true
}

/// Finds the first occurrence of `pat` in `s`.
pub fn find(s: &str, pat: &str) -> (r: Option<usize>)
    ensures
        match r {
            Some(k) => spec_find(s@, pat@) == Some(k as int),
            None => spec_find(s@, pat@) is None,
        },
{
    let n = s.unicode_len();
    let m = pat.unicode_len();
    if m > n {
        return None;
    }
    if m == 0 {
        return Some(0);
    }
    let mut i: usize = 0;
    while i <= n - m
        invariant
            n == s@.len(),
            m == pat@.len(),
            0 < m <= n,
            i + m <= n + 1,
            spec_find(s@, pat@) == spec_find_from(s@, pat@, i as int),
        decreases n - i,
    {
        if match_at(s, pat, i) {
            return Some(i);
        }
        i = i + 1;
    }
    None
}

pub open spec fn spec_starts_with(s: Seq<char>, pat: Seq<char>) -> bool {
    pat.len() <= s.len() && s.subrange(0, pat.len() as int) == pat
}

pub fn starts_with(s: &str, pat: &str) -> (r: bool)
    ensures
        r == spec_starts_with(s@, pat@),
{
    let n = s.unicode_len();
    let m = pat.unicode_len();
    if m > n {
        return false;
    }
    match_at(s, pat, 0)
}

/// Exact equality of the character contents of two text slices.
pub fn str_eq(a: &str, b: &str) -> (r: bool)
    ensures
        r == (a@ == b@),
{
    let n = a.unicode_len();
    let m = b.unicode_len();
    if n != m {
        return false;
    }
    let r = match_at(a, b, 0);
    proof {
        if r {
            assert(a@.subrange(0, m as int) =~= a@);
        } else {
            assert(a@.subrange(0, m as int) =~= a@);
        }
    }
    r
}

/// Index of the first non-whitespace character at or after `i`.
pub open spec fn spec_skip_spaces(s: Seq<char>, i: int) -> int
    decreases s.len() - i,
{
    if i < 0 || i >= s.len() {
        i
    } else if is_space(s[i]) {
        spec_skip_spaces(s, i + 1)
    } else {
        i
    }
}

pub proof fn lemma_skip_spaces_bounds(s: Seq<char>, i: int)
    requires
        0 <= i <= s.len(),
    ensures
        i <= spec_skip_spaces(s, i) <= s.len(),
    decreases s.len() - i,
{
    if i < s.len() && is_space(s[i]) {
        lemma_skip_spaces_bounds(s, i + 1);
    }
}

pub open spec fn spec_trim_start(s: Seq<char>) -> Seq<char> {
    s.subrange(spec_skip_spaces(s, 0), s.len() as int)
}

/// One past the index of the last non-whitespace character before `i`.
pub open spec fn spec_rskip_spaces(s: Seq<char>, i: int) -> int
    decreases i,
{
    if i <= 0 || i > s.len() {
        i
    } else if is_space(s[i - 1]) {
        spec_rskip_spaces(s, i - 1)
    } else {
        i
    }
}

pub proof fn lemma_rskip_spaces_bounds(s: Seq<char>, i: int)
    requires
        0 <= i <= s.len(),
    ensures
        0 <= spec_rskip_spaces(s, i) <= i,
    decreases i,
{
    if 0 < i && is_space(s[i - 1]) {
        lemma_rskip_spaces_bounds(s, i - 1);
    }
}

pub open spec fn spec_trim_end(s: Seq<char>) -> Seq<char> {
    s.subrange(0, spec_rskip_spaces(s, s.len() as int))
}

/// Both-ended trim, matching trimming the start and then the end.
pub open spec fn spec_trim(s: Seq<char>) -> Seq<char> {
    spec_trim_end(spec_trim_start(s))
}

pub fn trim_start<'a>(s: &'a str) -> (r: &'a str)
    ensures
        r@ == spec_trim_start(s@),
        r@.len() <= s@.len(),
{
    let n = s.unicode_len();
    let mut i: usize = 0;
    while i < n && is_space_char(s.get_char(i))
        invariant
            n == s@.len(),
            0 <= i <= n,
            spec_skip_spaces(s@, 0) == spec_skip_spaces(s@, i as int),
        decreases n - i,
    {
        i = i + 1;
    }
    proof {
        lemma_skip_spaces_bounds(s@, i as int);
    }
    s.substring_char(i, n)
}

pub fn trim_end<'a>(s: &'a str) -> (r: &'a str)
    ensures
        r@ == spec_trim_end(s@),
        r@.len() <= s@.len(),
{
    let n = s.unicode_len();
    let mut i: usize = n;
    while i > 0 && is_space_char(s.get_char(i - 1))
        invariant
            n == s@.len(),
            0 <= i <= n,
            spec_rskip_spaces(s@, n as int) == spec_rskip_spaces(s@, i as int),
        decreases i,
    {
        i = i - 1;
    }
    proof {
        lemma_rskip_spaces_bounds(s@, i as int);
    }
    s.substring_char(0, i)
}

pub fn trim<'a>(s: &'a str) -> (r: &'a str)
    ensures
        r@ == spec_trim(s@),
        r@.len() <= s@.len(),
{
    trim_end(trim_start(s))
}

/// Index of the first character at or after `i` that is not a pipe.
pub open spec fn spec_skip_pipes(s: Seq<char>, i: int) -> int
    decreases s.len() - i,
{
    if i < 0 || i >= s.len() {
        i
    } else if s[i] == '|' {
        spec_skip_pipes(s, i + 1)
    } else {
        i
    }
}

pub proof fn lemma_skip_pipes_bounds(s: Seq<char>, i: int)
    requires
        0 <= i <= s.len(),
    ensures
        i <= spec_skip_pipes(s, i) <= s.len(),
    decreases s.len() - i,
{
    if i < s.len() && s[i] == '|' {
        lemma_skip_pipes_bounds(s, i + 1);
    }
}

pub open spec fn spec_rskip_pipes(s: Seq<char>, i: int) -> int
    decreases i,
{
    if i <= 0 || i > s.len() {
        i
    } else if s[i - 1] == '|' {
        spec_rskip_pipes(s, i - 1)
    } else {
        i
    }
}

pub proof fn lemma_rskip_pipes_bounds(s: Seq<char>, i: int)
    requires
        0 <= i <= s.len(),
    ensures
        0 <= spec_rskip_pipes(s, i) <= i,
    decreases i,
{
    if 0 < i && s[i - 1] == '|' {
        lemma_rskip_pipes_bounds(s, i - 1);
    }
}

/// Pipe characters removed from both ends, as a binding list delimiter allows.
pub open spec fn spec_trim_pipes(s: Seq<char>) -> Seq<char> {
    let t = s.subrange(spec_skip_pipes(s, 0), s.len() as int);
    t.subrange(0, spec_rskip_pipes(t, t.len() as int))
}

pub fn trim_pipes<'a>(s: &'a str) -> (r: &'a str)
    ensures
        r@ == spec_trim_pipes(s@),
{
    let n = s.unicode_len();
    let mut i: usize = 0;
    while i < n && s.get_char(i) == '|'
        invariant
            n == s@.len(),
            0 <= i <= n,
            spec_skip_pipes(s@, 0) == spec_skip_pipes(s@, i as int),
        decreases n - i,
    {
        i = i + 1;
    }
    proof {
        lemma_skip_pipes_bounds(s@, i as int);
    }
    let t = s.substring_char(i, n);
    let m = t.unicode_len();
    let mut j: usize = m;
    while j > 0 && t.get_char(j - 1) == '|'
        invariant
            m == t@.len(),
            0 <= j <= m,
            spec_rskip_pipes(t@, m as int) == spec_rskip_pipes(t@, j as int),
        decreases j,
    {
        j = j - 1;
    }
    proof {
        lemma_rskip_pipes_bounds(t@, j as int);
    }
    t.substring_char(0, j)
}

pub proof fn lemma_trim_len(s: Seq<char>)
    ensures
        spec_trim_start(s).len() <= s.len(),
        spec_trim(s).len() <= s.len(),
{
    lemma_skip_spaces_bounds(s, 0);
    let t = spec_trim_start(s);
    lemma_rskip_spaces_bounds(t, t.len() as int);
}

/// Index of the last occurrence of a character.
pub open spec fn spec_rfind(s: Seq<char>, c: char) -> Option<int>
    decreases s.len(),
{
    if s.len() == 0 {
        None
    } else if s.last() == c {
        Some(s.len() - 1)
    } else {
        spec_rfind(s.drop_last(), c)
    }
}

pub proof fn lemma_rfind_bounds(s: Seq<char>, c: char)
    ensures
        match spec_rfind(s, c) {
            Some(k) => 0 <= k < s.len() && s[k] == c,
            None => true,
        },
    decreases s.len(),
{
    if s.len() > 0 && s.last() != c {
        lemma_rfind_bounds(s.drop_last(), c);
        match spec_rfind(s.drop_last(), c) {
            Some(k) => {
                assert(s.drop_last()[k] == s[k]);
            },
            None => {},
        }
    }
}

/// Finds the last occurrence of a character.
pub fn rfind_char(s: &str, c: char) -> (r: Option<usize>)
    ensures
        match r {
            Some(k) => spec_rfind(s@, c) == Some(k as int),
            None => spec_rfind(s@, c) is None,
        },
{
    let n = s.unicode_len();
    proof {
        assert(s@.subrange(0, n as int) =~= s@);
    }
    let mut i: usize = n;
    while i > 0
        invariant
            0 <= i <= n,
            n == s@.len(),
            spec_rfind(s@, c) == spec_rfind(s@.subrange(0, i as int), c),
        decreases i,
    {
        let ghost pre = s@.subrange(0, i as int);
        if s.get_char(i - 1) == c {
            proof {
                assert(pre.last() == s@[i - 1]);
            }
            return Some(i - 1);
        }
        proof {
            assert(pre.last() == s@[i - 1]);
            assert(pre.drop_last() =~= s@.subrange(0, i - 1));
        }
        i = i - 1;
    }
    proof {
        assert(s@.subrange(0, 0) =~= Seq::<char>::empty());
    }
    None
}

/// The decimal digit `d` as a character, for `d` under ten.
pub open spec fn spec_digit_char(d: int) -> char {
    ((48 + d) as u8) as char
}

/// Decimal rendering of a number, most significant digit first.
pub open spec fn spec_dec(n: nat) -> Seq<char>
    decreases n,
{
    if n < 10 {
        seq![spec_digit_char(n as int)]
    } else {
        spec_dec(n / 10).push(spec_digit_char((n % 10) as int))
    }
}

/// Appends one character. Relies on `String::push`, which adds
/// the given character to the end of the string.
#[verifier::external_body]
pub fn push_char(s: &mut String, c: char)
    ensures
        final(s)@ == old(s)@.push(c),
{
    s.push(c);
}

/// Renders a number in decimal, as identifier suffixes and counters need.
pub fn format_usize(n: usize) -> (r: String)
    ensures
        r@ == spec_dec(n as nat),
{
    let mut digits: Vec<char> = Vec::new();
    let mut x: usize = n;
    loop
        invariant_except_break
            if digits@.len() == 0 {
                x == n
            } else {
                spec_dec(n as nat) == spec_dec(x as nat).add(digits@.reverse())
            },
        ensures
            spec_dec(n as nat) == digits@.reverse(),
        decreases x,
    {
        let d: u8 = (x % 10) as u8;
        let c: char = (48 + d) as char;
        let ghost old_digits = digits@;
        let ghost old_x = x;
        digits.push(c);
        proof {
            assert(c == spec_digit_char((old_x % 10) as int));
            assert(digits@.reverse() =~= seq![c].add(old_digits.reverse()));
        }
        if x < 10 {
            proof {
                assert(spec_dec(old_x as nat) == seq![c]);
                if old_digits.len() == 0 {
                    assert(spec_dec(n as nat) =~= digits@.reverse());
                } else {
                    assert(spec_dec(n as nat) =~= digits@.reverse());
                }
            }
            break;
        }
        x = x / 10;
        proof {
            assert(spec_dec(old_x as nat) == spec_dec(old_x as nat / 10).push(
                spec_digit_char((old_x % 10) as int),
            ));
            assert(spec_dec(old_x as nat) =~= spec_dec(x as nat).add(seq![c]));
            if old_digits.len() == 0 {
                assert(spec_dec(n as nat) =~= spec_dec(x as nat).add(digits@.reverse()));
            } else {
                assert(spec_dec(x as nat).add(seq![c]).add(old_digits.reverse()) =~= spec_dec(
                    x as nat,
                ).add(digits@.reverse()));
            }
        }
    }
    let mut out = String::new();
    let len = digits.len();
    let mut k: usize = 0;
    while k < len
        invariant
            len == digits@.len(),
            0 <= k <= len,
            spec_dec(n as nat) == digits@.reverse(),
            out@ =~= digits@.reverse().subrange(0, k as int),
        decreases len - k,
    {
        let c = digits[len - 1 - k];
        push_char(&mut out, c);
        proof {
            assert(digits@.reverse()[k as int] == digits@[len - 1 - k]);
            assert(out@ =~= digits@.reverse().subrange(0, k + 1 as int));
        }
        k = k + 1;
    }
    proof {
        assert(out@ =~= digits@.reverse());
    }
    out
}

} // verus!
