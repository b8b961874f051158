//! Text placed into the project's configuration file when a project is
//! initialized: the guide's title, escaped so it stays one quoted string.
use vstd::prelude::*;

use crate::html::push_char;

verus! {

broadcast use vstd::seq::group_seq_axioms;

/// One lowercase hexadecimal digit for a value in `[0, 16)`.
pub open spec fn hex_digit(v: int) -> char {
    if v == 0 {
        '0'
    } else if v == 1 {
        '1'
    } else if v == 2 {
        '2'
    } else if v == 3 {
        '3'
    } else if v == 4 {
        '4'
    } else if v == 5 {
        '5'
    } else if v == 6 {
        '6'
    } else if v == 7 {
        '7'
    } else if v == 8 {
        '8'
    } else if v == 9 {
        '9'
    } else if v == 10 {
        'a'
    } else if v == 11 {
        'b'
    } else if v == 12 {
        'c'
    } else if v == 13 {
        'd'
    } else if v == 14 {
        'e'
    } else {
        'f'
    }
}

/// The escape of one control character (a character at or below `'\u{1f}'`):
/// tab, carriage return and line feed keep their short escapes, every other
/// one becomes a unicode escape with minimal lowercase hex digits.
pub open spec fn control_escaped(c: char) -> Seq<char> {
    if c == '\t' {
        "\\t"@
    } else if c == '\r' {
        "\\r"@
    } else if c == '\n' {
        "\\n"@
    } else if (c as int) < 16 {
        "\\u{"@ + seq![hex_digit(c as int)] + "}"@
    } else {
        "\\u{"@ + seq![hex_digit(c as int / 16), hex_digit(c as int % 16)] + "}"@
    }
}

/// The escape of one character inside a quoted configuration string.
pub open spec fn toml_escaped_char(c: char) -> Seq<char> {
    if c as int <= 0x1f {
        control_escaped(c)
    } else if c == '"' {
        "\\\""@
    } else if c == '\\' {
        "\\\\"@
    } else {
        seq![c]
    }
}

/// The escape of a whole string.
pub open spec fn spec_toml_escape(s: Seq<char>) -> Seq<char>
    decreases s.len(),
{
    if s.len() == 0 {
        Seq::empty()
    } else {
        spec_toml_escape(s.subrange(0, s.len() - 1)) + toml_escaped_char(s[s.len() - 1])
    }
}

/// Escapes `s` so it can stand between double quotes in the project's
/// configuration file: control characters, `"` and `\` are escaped, every
/// other character stands unchanged.
pub fn escape_toml_string(s: &str) -> (r: String)
    ensures
        r@ == spec_toml_escape(s@),
{
    let n = s.unicode_len();
    let mut escaped = String::new();
    let mut i: usize = 0;
    while i < n
        invariant
            i <= n,
            n == s@.len(),
            escaped@ == spec_toml_escape(s@.subrange(0, i as int)),
        decreases n - i,
    {
        let c = s.get_char(i);
        if c <= '\u{1f}' {
            if c == '\t' {
                escaped.append("\\t");
            } else if c == '\r' {
                escaped.append("\\r");
            } else if c == '\n' {
                escaped.append("\\n");
            } else {
                escaped.append("\\u{");
                let v = c as u32;
                if v < 16 {
                    push_char(&mut escaped, hex_digit_char(v));
                } else {
                    push_char(&mut escaped, hex_digit_char(v / 16));
                    push_char(&mut escaped, hex_digit_char(v % 16));
                }
                escaped.append("}");
            }
        } else if c == '"' {
            escaped.append("\\\"");
        } else if c == '\\' {
            escaped.append("\\\\");
        } else {
            push_char(&mut escaped, c);
        }
        proof {
            let pre = s@.subrange(0, i as int + 1);
            assert(pre.subrange(0, pre.len() - 1) =~= s@.subrange(0, i as int));
            assert(pre[pre.len() - 1] == s@[i as int]);
            assert(escaped@ =~= spec_toml_escape(pre));
        }
        i = i + 1;
    }
    proof {
        assert(s@.subrange(0, n as int) =~= s@);
    }
    escaped
}

/// One lowercase hexadecimal digit for a value in `[0, 16)`.
fn hex_digit_char(v: u32) -> (r: char)
    requires
        v < 16,
    ensures
        r == hex_digit(v as int),
{
    if v == 0 {
        '0'
    } else if v == 1 {
        '1'
    } else if v == 2 {
        '2'
    } else if v == 3 {
        '3'
    } else if v == 4 {
        '4'
    } else if v == 5 {
        '5'
    } else if v == 6 {
        '6'
    } else if v == 7 {
        '7'
    } else if v == 8 {
        '8'
    } else if v == 9 {
        '9'
    } else if v == 10 {
        'a'
    } else if v == 11 {
        'b'
    } else if v == 12 {
        'c'
    } else if v == 13 {
        'd'
    } else if v == 14 {
        'e'
    } else {
        'f'
    }
}

/// The contents written to the project's configuration file at
/// initialization: the escaped title as one quoted assignment.
pub fn guide_config_contents(title: &str) -> (r: String)
    ensures
        r@ == "title = \""@ + spec_toml_escape(title@) + "\""@,
{
    let mut out = String::from_str("title = \"");
    out.append(escape_toml_string(title).as_str());
    out.append("\"");
    out
}

} // verus!
