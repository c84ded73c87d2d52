//! Parameters and message bodies of AT commands.

use vstd::prelude::*;

use crate::number::{hex_upper, upper_hex_digit};
use crate::text::chars_of;

verus! {

/// A Unicode control character.
pub open spec fn is_control(c: char) -> bool {
    c < ' ' || '\u{7f}' <= c <= '\u{9f}'
}

/// A character that may stand inside a quoted AT parameter.
pub open spec fn fits_param(c: char) -> bool {
    c != '"' && c != '\\' && !is_control(c)
}

/// The characters of `s` that may stand inside a quoted AT parameter.
pub open spec fn at_param(s: Seq<char>) -> Seq<char> {
    s.filter(|c: char| fits_param(c))
}

/// Removes double quotes, backslashes and control characters, so that a parameter cannot end
/// its quotes or its command line.
pub fn sanitize_at_param(input: &str) -> (r: String)
    ensures
        r@ == at_param(input@),
{
    let cs = chars_of(input);
    let mut r = String::new();
    let mut i: usize = 0;
    let ghost p = |c: char| fits_param(c);
    reveal(Seq::filter);
    while i < cs.len()
        invariant
            i <= cs@.len(),
            cs@ == input@,
            p == (|c: char| fits_param(c)),
            r@ == cs@.take(i as int).filter(p),
        decreases cs@.len() - i,
    {
        reveal(Seq::filter);
        let c = cs[i];
        if c != '"' && c != '\\' && !(c < ' ' || ('\u{7f}' <= c && c <= '\u{9f}')) {
            r.push(c);
        }
        i += 1;
        assert(cs@.take(i as int).drop_last() == cs@.take(i - 1));
    }
    assert(cs@.take(i as int) == input@);
    r
}

/// The text holds a character that is not ASCII.
pub open spec fn beyond_ascii(s: Seq<char>) -> bool {
    exists|i: int| 0 <= i < s.len() && #[trigger] s[i] > '\u{7f}'
}

/// Whether a text is ASCII throughout.
pub fn is_ascii_text(s: &str) -> (r: bool)
    ensures
        r == !beyond_ascii(s@),
{
    let cs = chars_of(s);
    let mut i: usize = 0;
    while i < cs.len()
        invariant
            i <= cs@.len(),
            cs@ == s@,
            forall|j: int| 0 <= j < i ==> cs@[j] <= '\u{7f}',
        decreases cs@.len() - i,
    {
        if cs[i] > '\u{7f}' {
            assert(s@[i as int] > '\u{7f}');
            return false;
        }
        i += 1;
    }
    true
}

/// An ASCII character of the GSM 7-bit alphabet or its extension: the printable ones but the
/// grave accent, line feed, carriage return and form feed.
pub open spec fn is_gsm_ascii(c: char) -> bool {
    (' ' <= c <= '~' && c != '`') || c == '\n' || c == '\r' || c == '\u{c}'
}

/// A capital Greek letter of the GSM 7-bit alphabet.
pub open spec fn is_gsm_greek(c: char) -> bool {
    c == '\u{393}' || c == '\u{394}' || c == '\u{398}' || c == '\u{39b}' || c == '\u{39e}' || c
        == '\u{3a0}' || c == '\u{3a3}' || c == '\u{3a6}' || c == '\u{3a8}' || c == '\u{3a9}'
}

/// A character of the GSM 7-bit alphabet between U+00A0 and U+00FF: the signs of currency and
/// section, the inverted marks, and the letters with marks that it holds.
pub open spec fn is_gsm_latin(c: char) -> bool {
    c == '\u{a1}' || ('\u{a3}' <= c <= '\u{a5}') || c == '\u{a7}' || c == '\u{bf}' || ('\u{c4}'
        <= c <= '\u{c7}') || c == '\u{c9}' || c == '\u{d1}' || c == '\u{d6}' || c == '\u{d8}' || c
        == '\u{dc}' || ('\u{df}' <= c <= '\u{e0}') || ('\u{e4}' <= c <= '\u{e6}') || ('\u{e8}' <= c
        <= '\u{e9}') || c == '\u{ec}' || ('\u{f1}' <= c <= '\u{f2}') || c == '\u{f6}' || ('\u{f8}'
        <= c <= '\u{f9}') || c == '\u{fc}'
}

/// A character of the GSM 7-bit default alphabet or of its extension, which adds the euro sign.
pub open spec fn is_gsm7(c: char) -> bool {
    is_gsm_ascii(c) || is_gsm_latin(c) || is_gsm_greek(c) || c == '\u{20ac}'
}

fn is_gsm7_char(c: char) -> (r: bool)
    ensures
        r == is_gsm7(c),
{
    match c {
        '`' => false,
        ' '..='~' | '\n' | '\r' | '\u{c}' => true,
        '\u{a1}' | '\u{a3}'..='\u{a5}' | '\u{a7}' | '\u{bf}' | '\u{c4}'..='\u{c7}' | '\u{c9}'
        | '\u{d1}' | '\u{d6}' | '\u{d8}' | '\u{dc}' | '\u{df}'..='\u{e0}' | '\u{e4}'..='\u{e6}'
        | '\u{e8}'..='\u{e9}' | '\u{ec}' | '\u{f1}'..='\u{f2}' | '\u{f6}' | '\u{f8}'..='\u{f9}'
        | '\u{fc}' => true,
        '\u{393}' | '\u{394}' | '\u{398}' | '\u{39b}' | '\u{39e}' | '\u{3a0}' | '\u{3a3}'
        | '\u{3a6}' | '\u{3a8}' | '\u{3a9}' => true,
        '\u{20ac}' => true,
        _ => false,
    }
}

/// The message holds a character outside the GSM 7-bit alphabet.
pub open spec fn beyond_gsm7(s: Seq<char>) -> bool {
    exists|i: int| 0 <= i < s.len() && !is_gsm7(#[trigger] s[i])
}

/// Whether a message holds a character outside the GSM 7-bit alphabet, and needs UCS-2.
pub fn needs_ucs2(s: &str) -> (r: bool)
    ensures
        r == beyond_gsm7(s@),
{
    let cs = chars_of(s);
    let mut i: usize = 0;
    while i < cs.len()
        invariant
            i <= cs@.len(),
            cs@ == s@,
            forall|j: int| 0 <= j < i ==> is_gsm7(#[trigger] cs@[j]),
        decreases cs@.len() - i,
    {
        if !is_gsm7_char(cs[i]) {
            assert(!is_gsm7(s@[i as int]));
            return true;
        }
        i += 1;
    }
    false
}

/// A 16-bit unit as four upper-case hexadecimal digits.
pub open spec fn unit_hex(u: nat) -> Seq<char> {
    seq![
        hex_upper(u / 4096),
        hex_upper(u / 256 % 16),
        hex_upper(u / 16 % 16),
        hex_upper(u % 16),
    ]
}

/// The UTF-16 units of a character, high surrogate first, as hexadecimal text.
pub open spec fn char_hex(c: char) -> Seq<char> {
    let n = c as nat;
    if n < 0x10000 {
        unit_hex(n)
    } else {
        unit_hex((0xd800 + (n - 0x10000) / 0x400) as nat) + unit_hex(
            (0xdc00 + (n - 0x10000) % 0x400) as nat,
        )
    }
}

/// The text in big-endian UTF-16, as hexadecimal text.
pub open spec fn ucs2_hex(s: Seq<char>) -> Seq<char>
    decreases s.len(),
{
    if s.len() == 0 {
        Seq::empty()
    } else {
        ucs2_hex(s.drop_last()) + char_hex(s.last())
    }
}

/// Appends a 16-bit unit as four hexadecimal digits.
fn push_unit(out: &mut String, u: u32)
    requires
        u < 0x10000,
    ensures
        final(out)@ == old(out)@ + unit_hex(u as nat),
{
    out.push(upper_hex_digit((u / 4096) as u8));
    out.push(upper_hex_digit((u / 256 % 16) as u8));
    out.push(upper_hex_digit((u / 16 % 16) as u8));
    out.push(upper_hex_digit((u % 16) as u8));
    assert(out@ == old(out)@ + unit_hex(u as nat));
}

/// Appends the UTF-16 units of a character.
fn push_char_hex(out: &mut String, c: char)
    ensures
        final(out)@ == old(out)@ + char_hex(c),
{
    let n: u32 = c as u32;
    if n < 0x10000 {
        push_unit(out, n);
    } else {
        let m: u32 = n - 0x10000;
        push_unit(out, 0xd800 + m / 0x400);
        push_unit(out, 0xdc00 + m % 0x400);
        proof {
            let a = unit_hex((0xd800 + m / 0x400) as nat);
            let b = unit_hex((0xdc00 + m % 0x400) as nat);
            assert(old(out)@ + a + b == old(out)@ + (a + b));
        }
    }
}

/// The text as UCS-2 hexadecimal digits, the form in which a message body is handed over.
pub fn encode_ucs2_hex(s: &str) -> (r: String)
    ensures
        r@ == ucs2_hex(s@),
{
    let cs = chars_of(s);
    let mut r = String::new();
    let mut i: usize = 0;
    while i < cs.len()
        invariant
            i <= cs@.len(),
            cs@ == s@,
            r@ == ucs2_hex(cs@.take(i as int)),
        decreases cs@.len() - i,
    {
        push_char_hex(&mut r, cs[i]);
        i += 1;
        assert(cs@.take(i as int).drop_last() == cs@.take(i - 1));
    }
    assert(cs@.take(i as int) == s@);
    r
}

/// A message body without the characters that would end it early.
pub open spec fn sms_body(s: Seq<char>) -> Seq<char> {
    s.filter(|c: char| c != '\u{1a}')
}

/// Removes Ctrl+Z, which ends a message body. Line breaks are part of the body and stay.
pub fn sanitize_sms_body(input: &str) -> (r: String)
    ensures
        r@ == sms_body(input@),
{
    let cs = chars_of(input);
    let mut r = String::new();
    let mut i: usize = 0;
    let ghost p = |c: char| c != '\u{1a}';
    reveal(Seq::filter);
    while i < cs.len()
        invariant
            i <= cs@.len(),
            cs@ == input@,
            p == (|c: char| c != '\u{1a}'),
            r@ == cs@.take(i as int).filter(p),
        decreases cs@.len() - i,
    {
        reveal(Seq::filter);
        if cs[i] != '\u{1a}' {
            r.push(cs[i]);
        }
        i += 1;
        assert(cs@.take(i as int).drop_last() == cs@.take(i - 1));
    }
    assert(cs@.take(i as int) == input@);
    r
}

/// The UCS-2 body of a message that needs one; nothing where plain text will do.
pub fn sms_hex_body_if_needed(message: &str) -> (r: Option<String>)
    ensures
        match r {
            Some(h) => beyond_gsm7(message@) && h@ == ucs2_hex(message@),
            None => !beyond_gsm7(message@),
        },
{
    if needs_ucs2(message) {
        Some(encode_ucs2_hex(message))
    } else {
        None
    }
}

} // verus!
