//! Escaping text for HTML element content and attribute values.

use vstd::prelude::*;

use crate::text::{chars_of, push_chars, push_str};

verus! {

/// Replacement of one character: `&`, `<`, `>`, `"` and `'` become entities.
pub open spec fn html_esc(c: char) -> Seq<char> {
    if c == '&' {
        "&amp;"@
    } else if c == '<' {
        "&lt;"@
    } else if c == '>' {
        "&gt;"@
    } else if c == '"' {
        "&quot;"@
    } else if c == '\'' {
        "&#39;"@
    } else {
        seq![c]
    }
}

/// Escaped form of `s`.
pub open spec fn escape_html_text(s: Seq<char>) -> Seq<char>
    decreases s.len(),
{
    if s.len() == 0 {
        seq![]
    } else {
        escape_html_text(s.drop_last()) + html_esc(s.last())
    }
}

/// Characters that never appear in escaped text.
pub open spec fn markup_char(c: char) -> bool {
    c == '<' || c == '>' || c == '"' || c == '\''
}

proof fn lemma_esc_safe(c: char)
    ensures
        forall|i: int| 0 <= i < html_esc(c).len() ==> !markup_char(#[trigger] html_esc(c)[i]),
{
    reveal_strlit("&amp;");
    reveal_strlit("&lt;");
    reveal_strlit("&gt;");
    reveal_strlit("&quot;");
    reveal_strlit("&#39;");
}

/// Escaped text holds no `<`, `>`, `"` or `'`.
pub proof fn lemma_escape_safe(s: Seq<char>)
    ensures
        forall|i: int|
            0 <= i < escape_html_text(s).len() ==> !markup_char(#[trigger] escape_html_text(s)[i]),
    decreases s.len(),
{
    if s.len() > 0 {
        lemma_escape_safe(s.drop_last());
        lemma_esc_safe(s.last());
        let a = escape_html_text(s.drop_last());
        let b = html_esc(s.last());
        assert forall|i: int| 0 <= i < escape_html_text(s).len() implies !markup_char(
            #[trigger] escape_html_text(s)[i],
        ) by {
            if i < a.len() {
                assert(escape_html_text(s)[i] == a[i]);
            } else {
                assert(escape_html_text(s)[i] == b[i - a.len()]);
            }
        }
    }
}

/// Escapes `&`, `<`, `>`, `"` and `'` for HTML text; the result holds none
/// of `<`, `>`, `"`, `'`.
pub fn escape_html(raw: &str) -> (out: String)
    ensures
        out@ == escape_html_text(raw@),
        forall|i: int| 0 <= i < out@.len() ==> !markup_char(#[trigger] out@[i]),
{
    let v = chars_of(raw);
    let mut out = String::new();
    let mut i: usize = 0;
    while i < v.len()
        invariant
            i <= v.len(),
            v@ == raw@,
            out@ == escape_html_text(v@.take(i as int)),
        decreases v.len() - i,
    {
        let c = v[i];
        if c == '&' {
            push_str(&mut out, "&amp;");
        } else if c == '<' {
            push_str(&mut out, "&lt;");
        } else if c == '>' {
            push_str(&mut out, "&gt;");
        } else if c == '"' {
            push_str(&mut out, "&quot;");
        } else if c == '\'' {
            push_str(&mut out, "&#39;");
        } else {
            crate::text::push_char(&mut out, c);
        }
        assert(v@.take(i as int + 1).drop_last() =~= v@.take(i as int));
        assert(v@.take(i as int + 1).last() == c);
        i = i + 1;
    }
    assert(v@.take(v.len() as int) =~= v@);
    proof {
        lemma_escape_safe(raw@);
    }
    out
}

/// Escapes text for a double- or single-quoted HTML attribute value (the
/// same replacements as [`escape_html`]).
pub fn escape_attr(raw: &str) -> (out: String)
    ensures
        out@ == escape_html_text(raw@),
        forall|i: int| 0 <= i < out@.len() ==> !markup_char(#[trigger] out@[i]),
{
    escape_html(raw)
}

} // verus!
