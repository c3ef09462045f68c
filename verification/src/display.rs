//! Rendering. The two conversions generated write calls run their
//! values through: plain rendering for raw markers, and HTML-escaped
//! rendering for double-brace markers, which escapes the four characters
//! HTML treats specially. An absent optional renders as empty text.
use vstd::prelude::*;

verus! {

use vstd::string::StrSliceExecFns;
use vstd::string::StringExecFns;
use crate::strutil::{format_usize, push_char, spec_dec};

/// A type whose values templates can render.
pub trait WithRustyHandlebars {

}

/// Conversion to rendered text, as a raw marker emits it.
pub trait AsDisplay {
    /// What this value renders as.
    spec fn spec_as_display(&self) -> Seq<char>;

    /// Renders the value as plain text.
    fn as_display(&self) -> (r: String)
        ensures
            r@ == self.spec_as_display(),
    ;
}

/// Conversion to HTML-escaped rendered text, as an escaping marker
/// emits it.
pub trait AsDisplayHtml {
    /// What this value renders as, after HTML escaping.
    spec fn spec_as_display_html(&self) -> Seq<char>;

    /// Renders the value with the HTML-special characters escaped.
    fn as_display_html(&self) -> (r: String)
        ensures
            r@ == self.spec_as_display_html(),
    ;
}

/// How one character renders into HTML-safe text.
pub open spec fn spec_escape_html_char(c: char) -> Seq<char> {
    if c == '&' {
        "&amp;"@
    } else if c == '<' {
        "&lt;"@
    } else if c == '>' {
        "&gt;"@
    } else if c == '"' {
        "&quot;"@
    } else {
        seq![c]
    }
}

/// Text with the four HTML-special characters escaped.
pub open spec fn spec_escape_html(s: Seq<char>) -> Seq<char>
    decreases s.len(),
{
    if s.len() == 0 {
        Seq::empty()
    } else {
        spec_escape_html(s.drop_last()) + spec_escape_html_char(s.last())
    }
}

/// Escapes text for HTML insertion.
pub fn escape_html(s: &str) -> (r: String)
    ensures
        r@ == spec_escape_html(s@),
{
    let n = s.unicode_len();
    let mut out = String::new();
    let mut i: usize = 0;
    while i < n
        invariant
            0 <= i <= n,
            n == s@.len(),
            out@ == spec_escape_html(s@.subrange(0, i as int)),
        decreases n - i,
    {
        let c = s.get_char(i);
        if c == '&' {
            out.append("&amp;");
        } else if c == '<' {
            out.append("&lt;");
        } else if c == '>' {
            out.append("&gt;");
        } else if c == '"' {
            out.append("&quot;");
        } else {
            push_char(&mut out, c);
            proof {
                assert(out@ =~= spec_escape_html(s@.subrange(0, i as int)) + seq![c]);
            }
        }
        proof {
            let next = s@.subrange(0, i + 1);
            assert(next.drop_last() =~= s@.subrange(0, i as int));
            assert(next.last() == s@[i as int]);
            assert(out@ =~= spec_escape_html(next));
        }
        i = i + 1;
    }
    proof {
        assert(s@.subrange(0, n as int) =~= s@);
    }
    out
}

impl AsDisplay for str {
    open spec fn spec_as_display(&self) -> Seq<char> {
        self@
    }

    fn as_display(&self) -> String {
        String::from_str(self)
    }
}

impl AsDisplay for String {
    open spec fn spec_as_display(&self) -> Seq<char> {
        self@
    }

    fn as_display(&self) -> String {
        self.clone()
    }
}

impl AsDisplay for bool {
    open spec fn spec_as_display(&self) -> Seq<char> {
        if *self {
            "true"@
        } else {
            "false"@
        }
    }

    fn as_display(&self) -> String {
        if *self {
            String::from_str("true")
        } else {
            String::from_str("false")
        }
    }
}

impl AsDisplay for char {
    open spec fn spec_as_display(&self) -> Seq<char> {
        seq![*self]
    }

    fn as_display(&self) -> (r: String)
        ensures
            r@ == seq![*self],
    {
        let mut out = String::new();
        push_char(&mut out, *self);
        proof {
            assert(out@ =~= seq![*self]);
        }
        out
    }
}

impl AsDisplay for usize {
    open spec fn spec_as_display(&self) -> Seq<char> {
        spec_dec(*self as nat)
    }

    fn as_display(&self) -> String {
        format_usize(*self)
    }
}

impl AsDisplay for u8 {
    open spec fn spec_as_display(&self) -> Seq<char> {
        spec_dec(*self as nat)
    }

    fn as_display(&self) -> String {
        format_usize(*self as usize)
    }
}

impl AsDisplay for u16 {
    open spec fn spec_as_display(&self) -> Seq<char> {
        spec_dec(*self as nat)
    }

    fn as_display(&self) -> String {
        format_usize(*self as usize)
    }
}

impl AsDisplay for u32 {
    open spec fn spec_as_display(&self) -> Seq<char> {
        spec_dec(*self as nat)
    }

    fn as_display(&self) -> String {
        format_usize(*self as usize)
    }
}

impl<T: AsDisplay> AsDisplay for Option<T> {
    open spec fn spec_as_display(&self) -> Seq<char> {
        match self {
            Some(t) => t.spec_as_display(),
            None => Seq::empty(),
        }
    }

    fn as_display(&self) -> String {
        match self {
            Some(t) => t.as_display(),
            None => String::new(),
        }
    }
}

impl<T: AsDisplay> AsDisplay for Box<T> {
    open spec fn spec_as_display(&self) -> Seq<char> {
        (**self).spec_as_display()
    }

    fn as_display(&self) -> String {
        (**self).as_display()
    }
}

impl AsDisplayHtml for str {
    open spec fn spec_as_display_html(&self) -> Seq<char> {
        spec_escape_html(self@)
    }

    fn as_display_html(&self) -> String {
        escape_html(self)
    }
}

impl AsDisplayHtml for String {
    open spec fn spec_as_display_html(&self) -> Seq<char> {
        spec_escape_html(self@)
    }

    fn as_display_html(&self) -> String {
        escape_html(self.as_str())
    }
}

impl AsDisplayHtml for bool {
    open spec fn spec_as_display_html(&self) -> Seq<char> {
        if *self {
            "true"@
        } else {
            "false"@
        }
    }

    fn as_display_html(&self) -> String {
        if *self {
            String::from_str("true")
        } else {
            String::from_str("false")
        }
    }
}

impl AsDisplayHtml for usize {
    open spec fn spec_as_display_html(&self) -> Seq<char> {
        spec_dec(*self as nat)
    }

    fn as_display_html(&self) -> String {
        format_usize(*self)
    }
}

impl AsDisplayHtml for u8 {
    open spec fn spec_as_display_html(&self) -> Seq<char> {
        spec_dec(*self as nat)
    }

    fn as_display_html(&self) -> String {
        format_usize(*self as usize)
    }
}

impl AsDisplayHtml for u16 {
    open spec fn spec_as_display_html(&self) -> Seq<char> {
        spec_dec(*self as nat)
    }

    fn as_display_html(&self) -> String {
        format_usize(*self as usize)
    }
}

impl AsDisplayHtml for u32 {
    open spec fn spec_as_display_html(&self) -> Seq<char> {
        spec_dec(*self as nat)
    }

    fn as_display_html(&self) -> String {
        format_usize(*self as usize)
    }
}

impl<T: AsDisplayHtml> AsDisplayHtml for Option<T> {
    open spec fn spec_as_display_html(&self) -> Seq<char> {
        match self {
            Some(t) => t.spec_as_display_html(),
            None => Seq::empty(),
        }
    }

    fn as_display_html(&self) -> String {
        match self {
            Some(t) => t.as_display_html(),
            None => String::new(),
        }
    }
}

impl<T: AsDisplayHtml> AsDisplayHtml for Box<T> {
    open spec fn spec_as_display_html(&self) -> Seq<char> {
        (**self).spec_as_display_html()
    }

    fn as_display_html(&self) -> String {
        (**self).as_display_html()
    }
}

} // verus!
