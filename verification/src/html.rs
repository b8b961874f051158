//! Minimal HTML escaping for text embedded into generated pages.
use vstd::prelude::*;

verus! {

broadcast use vstd::seq::group_seq_axioms;

/// Appends one character to a string.
///
/// Relies on std's `String::push`: the string grows by exactly the pushed
/// character.
#[verifier::external_body]
pub(crate) fn push_char(s: &mut String, c: char)
    ensures
        final(s)@ == old(s)@.push(c),
{
    s.push(c);
}

/// The escape of one character: the five HTML-significant characters become
/// entities, every other character stands unchanged.
pub open spec fn escaped_char(c: char) -> Seq<char> {
    if c == '&' {
        "&amp;"@
    } else if c == '<' {
        "&lt;"@
    } else if c == '>' {
        "&gt;"@
    } else if c == '\'' {
        "&#39;"@
    } else if c == '"' {
        "&quot;"@
    } else {
        seq![c]
    }
}

/// The escape of a whole text: each character's escape, concatenated in
/// order.
pub open spec fn spec_escape(s: Seq<char>) -> Seq<char>
    decreases s.len(),
{
    if s.len() == 0 {
        Seq::empty()
    } else {
        spec_escape(s.subrange(0, s.len() - 1)) + escaped_char(s[s.len() - 1])
    }
}

/// Escapes the five HTML-significant characters of `text` and leaves every
/// other character as it is.
pub fn escape(text: &str) -> (r: String)
    ensures
        r@ == spec_escape(text@),
{
    let n = text.unicode_len();
    let mut escaped = String::new();
    let mut i: usize = 0;
    while i < n
        invariant
            i <= n,
            n == text@.len(),
            escaped@ == spec_escape(text@.subrange(0, i as int)),
        decreases n - i,
    {
        let c = text.get_char(i);
        if c == '&' {
            escaped.append("&amp;");
        } else if c == '<' {
            escaped.append("&lt;");
        } else if c == '>' {
            escaped.append("&gt;");
        } else if c == '\'' {
            escaped.append("&#39;");
        } else if c == '"' {
            escaped.append("&quot;");
        } else {
            push_char(&mut escaped, c);
        }
        proof {
            let pre = text@.subrange(0, i as int + 1);
            assert(pre.subrange(0, pre.len() - 1) =~= text@.subrange(0, i as int));
            assert(pre[pre.len() - 1] == text@[i as int]);
            assert(escaped@ =~= spec_escape(pre));
        }
        i = i + 1;
    }
    proof {
        assert(text@.subrange(0, n as int) =~= text@);
    }
    escaped
}

} // verus!
