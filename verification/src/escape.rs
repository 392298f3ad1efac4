//! The escaper: a printable, single-line representation of a text run,
//! character by character, each character replaced by its default escape form.

use vstd::prelude::*;

verus! {

/// The lowercase hexadecimal digit for `d` (expected below 16).
pub open spec fn hex_digit(d: nat) -> Seq<char>
    recommends
        d < 16,
{
    if d == 0 {
        "0"@
    } else if d == 1 {
        "1"@
    } else if d == 2 {
        "2"@
    } else if d == 3 {
        "3"@
    } else if d == 4 {
        "4"@
    } else if d == 5 {
        "5"@
    } else if d == 6 {
        "6"@
    } else if d == 7 {
        "7"@
    } else if d == 8 {
        "8"@
    } else if d == 9 {
        "9"@
    } else if d == 10 {
        "a"@
    } else if d == 11 {
        "b"@
    } else if d == 12 {
        "c"@
    } else if d == 13 {
        "d"@
    } else if d == 14 {
        "e"@
    } else {
        "f"@
    }
}

/// Lowercase hexadecimal representation of `n`: most significant digit first,
/// no leading zeros, at least one digit.
pub open spec fn hex_rep(n: nat) -> Seq<char>
    decreases n,
    via hex_rep_decreases
{
    if n < 16 {
        hex_digit(n)
    } else {
        hex_rep(n / 16) + hex_digit(n % 16)
    }
}

#[via_fn]
proof fn hex_rep_decreases(n: nat) {
    if n >= 16 {
        vstd::arithmetic::div_mod::lemma_div_decreases(n as int, 16);
    }
}

/// The default escape form of one character: tab, carriage return, newline,
/// backslash and both quotes become two-character backslash escapes, printable
/// ASCII stands for itself, and everything else becomes `\u{...}` with the
/// code point in lowercase hexadecimal.
pub open spec fn escape_char(c: char) -> Seq<char> {
    if c == '\t' {
        "\\t"@
    } else if c == '\r' {
        "\\r"@
    } else if c == '\n' {
        "\\n"@
    } else if c == '\\' {
        "\\\\"@
    } else if c == '\'' {
        "\\'"@
    } else if c == '"' {
        "\\\""@
    } else if 0x20 <= c as u32 && c as u32 <= 0x7E {
        seq![c]
    } else {
        "\\u{"@ + hex_rep(c as u32 as nat) + "}"@
    }
}

/// The escaped form of a whole text run: the concatenation of each
/// character's escape form, in the original order.
pub open spec fn escape_seq(s: Seq<char>) -> Seq<char>
    decreases s.len(),
{
    if s.len() == 0 {
        Seq::empty()
    } else {
        escape_seq(s.drop_last()) + escape_char(s.last())
    }
}

/// Appends the lowercase hexadecimal digit for `d`.
fn push_hex_digit(out: &mut String, d: u32)
    requires
        d < 16,
    ensures
        final(out)@ == old(out)@ + hex_digit(d as nat),
{
    if d == 0 {
        out.append("0");
    } else if d == 1 {
        out.append("1");
    } else if d == 2 {
        out.append("2");
    } else if d == 3 {
        out.append("3");
    } else if d == 4 {
        out.append("4");
    } else if d == 5 {
        out.append("5");
    } else if d == 6 {
        out.append("6");
    } else if d == 7 {
        out.append("7");
    } else if d == 8 {
        out.append("8");
    } else if d == 9 {
        out.append("9");
    } else if d == 10 {
        out.append("a");
    } else if d == 11 {
        out.append("b");
    } else if d == 12 {
        out.append("c");
    } else if d == 13 {
        out.append("d");
    } else if d == 14 {
        out.append("e");
    } else {
        out.append("f");
    }
}

/// Appends the lowercase hexadecimal representation of `n`.
fn push_hex(out: &mut String, n: u32)
    ensures
        final(out)@ == old(out)@ + hex_rep(n as nat),
    decreases n,
{
    if n < 16 {
        push_hex_digit(out, n);
    } else {
        proof {
            vstd::arithmetic::div_mod::lemma_div_decreases(n as int, 16);
        }
        push_hex(out, n / 16);
        push_hex_digit(out, n % 16);
    }
}

/// Appends the escape form of the character at position `i` of `s`.
fn push_escaped_char(out: &mut String, s: &str, i: usize)
    requires
        i < s@.len(),
        i < usize::MAX,
    ensures
        final(out)@ == old(out)@ + escape_char(s@[i as int]),
{
    let c = s.get_char(i);
    if c == '\t' {
        out.append("\\t");
    } else if c == '\r' {
        out.append("\\r");
    } else if c == '\n' {
        out.append("\\n");
    } else if c == '\\' {
        out.append("\\\\");
    } else if c == '\'' {
        out.append("\\'");
    } else if c == '"' {
        out.append("\\\"");
    } else if 0x20 <= c as u32 && c as u32 <= 0x7E {
        let piece = s.substring_char(i, i + 1);
        proof {
            assert(piece@ =~= seq![c]);
        }
        out.append(piece);
    } else {
        out.append("\\u{");
        push_hex(out, c as u32);
        out.append("}");
    }
}

/// The escaped form of `s`: each character replaced by its default escape
/// form, concatenated in the original order.
pub fn escape_default(s: &str) -> (r: String)
    ensures
        r@ == escape_seq(s@),
{
    let n = s.unicode_len();
    let mut out = String::new();
    let mut i: usize = 0;
    while i < n
        invariant
            0 <= i <= n,
            n == s@.len(),
            out@ == escape_seq(s@.take(i as int)),
        decreases n - i,
    {
        push_escaped_char(&mut out, s, i);
        proof {
            assert(s@.take(i + 1int).drop_last() =~= s@.take(i as int));
            assert(s@.take(i + 1int).last() == s@[i as int]);
        }
        i += 1;
    }
    proof {
        assert(s@.take(n as int) =~= s@);
    }
    out
}

} // verus!
