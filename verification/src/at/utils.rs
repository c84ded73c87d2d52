//! Conversions and checks shared by the readers of AT responses.

use vstd::prelude::*;
use vstd::string::StringExecFns;

use crate::double::{double_of, granule, half_even, round_half_even, to_double};
use crate::number::{
    all_digits, all_hex, decimal, digit_char, digits_value, hex_digit, hex_value, hexadecimal,
    is_ascii_hexdigit, is_digit, is_hex, parse_u8, parsed_uint, push_decimal, push_hexadecimal,
};
use crate::text::{
    chars_of, concat2, joined, lines, lines_of, pieces, same, split, starts_with, stripped, texts,
    trim, trim_matches, trimmed,
};

verus! {

/// `char::from_u32` gives the character of a Unicode scalar value, and nothing for a number
/// that is none: one above `0x10ffff` or a surrogate.
pub assume_specification[ char::from_u32 ](i: u32) -> (r: Option<char>)
    ensures
        r == (if i < 0xd800 || 0xe000 <= i <= 0x10ffff {
            Some(i as char)
        } else {
            None::<char>
        }),
;

// ---------------------------------------------------------------------------
// UCS-2 text
// ---------------------------------------------------------------------------

/// The 16-bit unit that the `k`-th group of four hexadecimal digits denotes.
pub open spec fn unit_at(h: Seq<char>, k: int) -> nat {
    hex_value(h[4 * k]) * 4096 + hex_value(h[4 * k + 1]) * 256 + hex_value(h[4 * k + 2]) * 16
        + hex_value(h[4 * k + 3])
}

/// Half of a surrogate pair.
pub open spec fn is_surrogate(u: nat) -> bool {
    0xd800 <= u <= 0xdfff
}

/// The text is made of groups of four hexadecimal digits, none of them a surrogate.
pub open spec fn is_ucs2_hex(h: Seq<char>) -> bool {
    &&& h.len() % 4 == 0
    &&& all_hex(h)
    &&& forall|k: int| 0 <= k < h.len() / 4 ==> !is_surrogate(#[trigger] unit_at(h, k))
}

/// The text that UCS-2 hexadecimal digits encode; empty where they encode none.
pub open spec fn ucs2_text(h: Seq<char>) -> Seq<char> {
    if is_ucs2_hex(h) {
        Seq::new(h.len() / 4, |k: int| unit_at(h, k) as char)
    } else {
        Seq::empty()
    }
}

/// Whether every character is a hexadecimal digit.
fn only_hex(cs: &Vec<char>) -> (r: bool)
    ensures
        r == all_hex(cs@),
{
    let mut i: usize = 0;
    while i < cs.len()
        invariant
            i <= cs@.len(),
            forall|j: int| 0 <= j < i ==> is_hex(#[trigger] cs@[j]),
        decreases cs@.len() - i,
    {
        if !is_ascii_hexdigit(cs[i]) {
            assert(!is_hex(cs@[i as int]));
            return false;
        }
        i += 1;
    }
    true
}

/// The unit that four hexadecimal digits denote.
fn read_unit(cs: &Vec<char>, i: usize) -> (r: u32)
    requires
        i + 4 <= cs@.len(),
        i % 4 == 0,
        all_hex(cs@),
    ensures
        r == unit_at(cs@, i as int / 4),
        r < 0x10000,
{
    let n = cs.len();
    assert(is_hex(cs@[i as int]) && is_hex(cs@[i + 1]) && is_hex(cs@[i + 2]) && is_hex(cs@[i + 3]));
    let a: u32 = hex_digit(cs[i]) as u32;
    let b: u32 = hex_digit(cs[i + 1]) as u32;
    let c: u32 = hex_digit(cs[i + 2]) as u32;
    let d: u32 = hex_digit(cs[i + 3]) as u32;
    a * 4096 + b * 256 + c * 16 + d
}

/// Decodes UCS-2 hexadecimal digits. Text of any other form gives the empty text.
pub fn decode_hex_ucs2(hex: &str) -> (r: String)
    ensures
        r@ == ucs2_text(hex@),
{
    let cs = chars_of(hex);
    let n = cs.len();
    if n % 4 != 0 || !only_hex(&cs) {
        return String::new();
    }
    let mut r = String::new();
    let mut i: usize = 0;
    while i < n
        invariant
            i <= n == cs@.len(),
            i % 4 == 0,
            n % 4 == 0,
            cs@ == hex@,
            all_hex(cs@),
            forall|k: int| 0 <= k < i / 4 ==> !is_surrogate(#[trigger] unit_at(cs@, k)),
            r@ == Seq::new((i / 4) as nat, |k: int| unit_at(cs@, k) as char),
        decreases n - i,
    {
        let u = read_unit(&cs, i);
        let ghost m = (i / 4) as int;
        assert(4 * m == i);
        match char::from_u32(u) {
            Some(c) => {
                r.push(c);
            },
            None => {
                assert(is_surrogate(unit_at(cs@, m)));
                return String::new();
            },
        }
        i += 4;
        assert(r@ == Seq::new((i / 4) as nat, |k: int| unit_at(cs@, k) as char));
    }
    r
}

// ---------------------------------------------------------------------------
// Byte counts
// ---------------------------------------------------------------------------

/// A number of hundredths, written with two decimals.
pub open spec fn hundredths_text(h: nat) -> Seq<char> {
    decimal(h / 100) + seq!['.', digit_char(h / 10 % 10), digit_char(h % 10)]
}

/// A byte count in the largest of GB, MB and KB that it reaches, to two decimals, or in bytes.
pub open spec fn byte_text(bytes: nat) -> Seq<char> {
    if bytes >= 0x4000_0000 {
        hundredths_text(half_even(double_of(bytes) * 100, 0x4000_0000)) + " GB"@
    } else if bytes >= 0x10_0000 {
        hundredths_text(half_even(double_of(bytes) * 100, 0x10_0000)) + " MB"@
    } else if bytes >= 0x400 {
        hundredths_text(half_even(double_of(bytes) * 100, 0x400)) + " KB"@
    } else {
        decimal(bytes) + " B"@
    }
}

fn push_hundredths(out: &mut String, h: u64)
    ensures
        final(out)@ == old(out)@ + hundredths_text(h as nat),
{
    push_decimal(out, h / 100);
    out.push('.');
    out.push(('0' as u8 + (h / 10 % 10) as u8) as char);
    out.push(('0' as u8 + (h % 10) as u8) as char);
    assert(out@ == old(out)@ + hundredths_text(h as nat));
}

/// Formats a byte count for display.
pub fn format_bytes(bytes: u64) -> (r: String)
    ensures
        r@ == byte_text(bytes as nat),
{
    let mut r = String::new();
    let ghost none = Seq::<char>::empty();
    if bytes < 0x400 {
        push_decimal(&mut r, bytes);
        r.append(" B");
        assert(none + decimal(bytes as nat) == decimal(bytes as nat));
        return r;
    }
    let v: u128 = to_double(bytes);
    let unit: u128 = if bytes >= 0x4000_0000 {
        0x4000_0000
    } else if bytes >= 0x10_0000 {
        0x10_0000
    } else {
        0x400
    };
    proof {
        if bytes < 0x4000_0000 {
            assert(granule(bytes as nat) == 1);
            assert(half_even(bytes as nat, 1) == bytes);
        }
    }
    let h: u128 = round_half_even(v * 100, unit);
    push_hundredths(&mut r, h as u64);
    assert(none + hundredths_text(h as nat) == hundredths_text(h as nat));
    if bytes >= 0x4000_0000 {
        r.append(" GB");
    } else if bytes >= 0x10_0000 {
        r.append(" MB");
    } else {
        r.append(" KB");
    }
    r
}

// ---------------------------------------------------------------------------
// Addresses
// ---------------------------------------------------------------------------

/// A decimal octet of one to three digits.
pub open spec fn is_octet(p: Seq<char>) -> bool {
    0 < p.len() <= 3 && all_digits(p) && digits_value(p) <= 255
}

/// Checks one part of a dotted IPv4 address.
fn is_octet_text(p: &str) -> (r: bool)
    ensures
        r == is_octet(p@),
{
    let cs = chars_of(p);
    if cs.len() == 0 || cs.len() > 3 {
        return false;
    }
    if cs[0] == '+' {
        assert(!is_digit(p@[0]));
        return false;
    }
    parse_u8(p).is_some()
}

/// Four octets separated by dots.
pub open spec fn is_ipv4(s: Seq<char>) -> bool {
    let parts = pieces(s, '.');
    parts.len() == 4 && forall|i: int| 0 <= i < 4 ==> is_octet(#[trigger] parts[i])
}

/// Checks a dotted IPv4 address.
pub fn is_valid_ipv4(s: &str) -> (r: bool)
    ensures
        r == is_ipv4(s@),
{
    let parts = split(s, '.');
    assert(texts(parts@).len() == parts@.len());
    if parts.len() != 4 {
        return false;
    }
    let mut i: usize = 0;
    while i < 4
        invariant
            i <= 4 == parts@.len(),
            texts(parts@) == pieces(s@, '.'),
            forall|j: int| 0 <= j < i ==> is_octet(#[trigger] pieces(s@, '.')[j]),
        decreases 4 - i,
    {
        assert(pieces(s@, '.')[i as int] == parts@[i as int]@);
        if !is_octet_text(parts[i]) {
            return false;
        }
        i += 1;
    }
    true
}

/// Two colons stand at position `i`.
pub open spec fn double_colon_at(s: Seq<char>, i: int) -> bool {
    0 <= i && i + 1 < s.len() && s[i] == ':' && s[i + 1] == ':'
}

/// The pieces of `s` between colons that are not empty.
pub open spec fn groups(s: Seq<char>) -> Seq<Seq<char>> {
    pieces(s, ':').filter(|p: Seq<char>| p.len() > 0)
}

/// Groups of one to four hexadecimal digits separated by colons: eight of them, or up to seven
/// and one double colon that stands for the rest. A colon stands at either end only as part of a
/// double colon.
pub open spec fn is_ipv6(s: Seq<char>) -> bool {
    &&& s.len() > 0
    &&& forall|i: int| 0 <= i < s.len() ==> is_hex(#[trigger] s[i]) || s[i] == ':'
    &&& forall|i: int, j: int|
        #![trigger double_colon_at(s, i), double_colon_at(s, j)]
        double_colon_at(s, i) && double_colon_at(s, j) ==> i == j
    &&& s[0] == ':' ==> double_colon_at(s, 0)
    &&& s.last() == ':' ==> double_colon_at(s, s.len() - 2)
    &&& forall|k: int| 0 <= k < groups(s).len() ==> (#[trigger] groups(s)[k]).len() <= 4
    &&& if exists|i: int| double_colon_at(s, i) {
        groups(s).len() <= 7
    } else {
        groups(s).len() == 8
    }
}

/// Counts the double colons: none, one, or more.
fn count_double_colons(cs: &Vec<char>) -> (r: u8)
    ensures
        r <= 2,
        r == 0 ==> forall|i: int| !double_colon_at(cs@, i),
        r == 1 ==> (exists|i: int| double_colon_at(cs@, i)) && forall|i: int, j: int|
            #![trigger double_colon_at(cs@, i), double_colon_at(cs@, j)]
            double_colon_at(cs@, i) && double_colon_at(cs@, j) ==> i == j,
        r == 2 ==> exists|i: int, j: int|
            #![trigger double_colon_at(cs@, i), double_colon_at(cs@, j)]
            double_colon_at(cs@, i) && double_colon_at(cs@, j) && i != j,
{
    let n = cs.len();
    let mut seen: bool = false;
    let ghost mut at: int = -1;
    let mut i: usize = 1;
    while i < n
        invariant
            1 <= i,
            n == cs@.len(),
            i <= n || n == 0,
            !seen ==> forall|j: int| 0 <= j < i - 1 ==> !double_colon_at(cs@, j),
            seen ==> double_colon_at(cs@, at) && at < i - 1 && forall|j: int|
                0 <= j < i - 1 && double_colon_at(cs@, j) ==> j == at,
        decreases n - i,
    {
        if cs[i - 1] == ':' && cs[i] == ':' {
            assert(double_colon_at(cs@, i - 1));
            if seen {
                assert(double_colon_at(cs@, at) && at != i - 1);
                return 2;
            }
            seen = true;
            proof {
                at = i - 1;
            }
        }
        i += 1;
    }
    if seen {
        1
    } else {
        0
    }
}

/// Checks an IPv6 address in colon-hexadecimal form.
pub fn is_valid_ipv6(s: &str) -> (r: bool)
    ensures
        r == is_ipv6(s@),
{
    let cs = chars_of(s);
    let n = cs.len();
    if n == 0 {
        return false;
    }
    let mut i: usize = 0;
    while i < n
        invariant
            i <= n == cs@.len(),
            cs@ == s@,
            forall|j: int| 0 <= j < i ==> is_hex(#[trigger] cs@[j]) || cs@[j] == ':',
        decreases n - i,
    {
        if !is_ascii_hexdigit(cs[i]) && cs[i] != ':' {
            assert(!(is_hex(s@[i as int]) || s@[i as int] == ':'));
            return false;
        }
        i += 1;
    }
    let colons = count_double_colons(&cs);
    if colons > 1 {
        return false;
    }
    if cs[0] == ':' && !(n > 1 && cs[1] == ':') {
        assert(!double_colon_at(s@, 0));
        return false;
    }
    if cs[n - 1] == ':' && !(n > 1 && cs[n - 2] == ':') {
        assert(!double_colon_at(s@, s@.len() - 2));
        return false;
    }
    let parts = split(s, ':');
    let ghost all = pieces(s@, ':');
    let ghost p = |p: Seq<char>| p.len() > 0;
    let mut count: usize = 0;
    let mut short: bool = true;
    let mut k: usize = 0;
    reveal(Seq::filter);
    assert(texts(parts@).len() == parts@.len());
    while k < parts.len()
        invariant
            k <= parts@.len(),
            all == texts(parts@),
            all.len() == parts@.len(),
            p == (|p: Seq<char>| p.len() > 0),
            count == all.take(k as int).filter(p).len(),
            count <= k,
            short == (forall|j: int|
                0 <= j < count ==> (#[trigger] all.take(k as int).filter(p)[j]).len() <= 4),
        decreases parts@.len() - k,
    {
        reveal(Seq::filter);
        let len = chars_of(parts[k]).len();
        let ghost before = all.take(k as int).filter(p);
        k += 1;
        assert(all.take(k as int).drop_last() == all.take(k - 1));
        assert(all.take(k as int).last() == parts@[k - 1]@);
        let ghost after = all.take(k as int).filter(p);
        if len > 0 {
            assert(after == before.push(parts@[k - 1]@));
            assert(after[count as int].len() == len);
            assert(forall|j: int| 0 <= j < count ==> after[j] == before[j]);
            count += 1;
            if len > 4 {
                short = false;
            }
        }
    }
    assert(all.take(k as int) == all);
    assert(all.filter(p) == groups(s@));
    if colons == 1 {
        count <= 7 && short
    } else {
        count == 8 && short
    }
}

/// The octets among `parts`: those that write a number of at most 255.
pub open spec fn octets(parts: Seq<Seq<char>>) -> Seq<nat>
    decreases parts.len(),
{
    if parts.len() == 0 {
        Seq::empty()
    } else {
        match parsed_uint(parts.last(), 255) {
            Some(v) => octets(parts.drop_last()).push(v),
            None => octets(parts.drop_last()),
        }
    }
}

/// Sixteen octets as eight hexadecimal groups.
pub open spec fn octet_groups(b: Seq<nat>) -> Seq<Seq<char>> {
    Seq::new(8, |i: int| hexadecimal(b[2 * i] * 256 + b[2 * i + 1]))
}

/// The numbers of at most 255 among the dotted parts as an address in colon-hexadecimal form,
/// where there are sixteen of them; any other text unchanged. Parts that write no such number are
/// passed over.
pub open spec fn standard_ipv6(raw: Seq<char>) -> Seq<char> {
    let b = octets(pieces(raw, '.'));
    if b.len() == 16 {
        joined(octet_groups(b), ":"@)
    } else {
        raw
    }
}

/// Converts an IPv6 address of sixteen dotted octets to the standard form. Parts that write no
/// octet do not count.
pub fn convert_dotted_ipv6_to_standard(raw: &str) -> (r: String)
    ensures
        r@ == standard_ipv6(raw@),
{
    let parts = split(raw, '.');
    let ghost all = pieces(raw@, '.');
    let mut bytes: Vec<u8> = Vec::new();
    let mut k: usize = 0;
    assert(texts(parts@).len() == parts@.len());
    while k < parts.len()
        invariant
            k <= parts@.len(),
            all == texts(parts@),
            all.len() == parts@.len(),
            octets(all.take(k as int)) == Seq::new(bytes@.len(), |i: int| bytes@[i] as nat),
        decreases parts@.len() - k,
    {
        let ghost before = bytes@;
        match parse_u8(parts[k]) {
            Some(v) => {
                bytes.push(v);
                assert(Seq::new(bytes@.len(), |i: int| bytes@[i] as nat) == Seq::new(
                    before.len(),
                    |i: int| before[i] as nat,
                ).push(v as nat));
            },
            None => {},
        }
        k += 1;
        assert(all.take(k as int).drop_last() == all.take(k - 1));
        assert(all.take(k as int).last() == parts@[k - 1]@);
    }
    assert(all.take(k as int) == all);
    if bytes.len() != 16 {
        return raw.to_owned();
    }
    let ghost b = octets(all);
    let mut r = String::new();
    let mut i: usize = 0;
    while i < 8
        invariant
            i <= 8,
            bytes@.len() == 16,
            b == Seq::new(bytes@.len(), |i: int| bytes@[i] as nat),
            r@ == joined(octet_groups(b).take(i as int), ":"@),
        decreases 8 - i,
    {
        if i > 0 {
            r.append(":");
        }
        let hi: u64 = bytes[i * 2] as u64;
        let lo: u64 = bytes[i * 2 + 1] as u64;
        push_hexadecimal(&mut r, hi * 256 + lo);
        i += 1;
        proof {
            let g = octet_groups(b);
            assert(g.take(i as int).drop_last() == g.take(i - 1));
            assert(g.take(i as int).last() == hexadecimal((hi * 256 + lo) as nat));
            if i == 1 {
                assert(g.take(1)[0] == Seq::<char>::empty() + hexadecimal((hi * 256 + lo) as nat));
            }
        }
    }
    assert(octet_groups(b).take(8) == octet_groups(b));
    r
}

// ---------------------------------------------------------------------------
// Commands and values
// ---------------------------------------------------------------------------

/// A value without surrounding white space and double quotes.
pub fn extract_value<'a>(s: &'a str) -> (r: &'a str)
    ensures
        r@ == stripped(trimmed(s@), '"'),
{
    trim_matches(trim(s), '"')
}

/// A command that needs no `AT` in front of it.
pub open spec fn is_command(t: Seq<char>) -> bool {
    ||| "AT"@.is_prefix_of(t)
    ||| "at"@.is_prefix_of(t)
    ||| t == "A/"@
    ||| t == "a/"@
    ||| t == "+++"@
}

/// A command without surrounding white space, with `AT` in front where it is missing.
pub open spec fn normalized_command(cmd: Seq<char>) -> Seq<char> {
    let t = trimmed(cmd);
    if t.len() == 0 || is_command(t) {
        t
    } else {
        "AT"@ + t
    }
}

/// Puts `AT` in front of a command that lacks it.
pub fn normalize_at_command(cmd: &str) -> (r: String)
    ensures
        r@ == normalized_command(cmd@),
{
    let t = trim(cmd);
    if t.is_empty() || starts_with(t, "AT") || starts_with(t, "at") || same(t, "A/") || same(
        t,
        "a/",
    ) || same(t, "+++") {
        t.to_owned()
    } else {
        concat2("AT", t)
    }
}

/// Gives an empty field its default value.
pub fn set_default(field: &mut String, default: &str)
    ensures
        final(field)@ == (if old(field)@.len() == 0 {
            default@
        } else {
            old(field)@
        }),
{
    if field.as_str().is_empty() {
        *field = default.to_owned();
    }
}

// ---------------------------------------------------------------------------
// Message lists
// ---------------------------------------------------------------------------

/// What a line of a message list becomes, given whether it belongs to a message body.
pub open spec fn cmgl_line(line: Seq<char>, in_body: bool) -> Seq<char> {
    let t = trimmed(line);
    if in_body && !"+CMGL:"@.is_prefix_of(line) && t.len() > 0 && t != "OK"@ && ucs2_text(t).len()
        > 0 {
        ucs2_text(t)
    } else {
        line
    }
}

/// Whether the line after `line` belongs to a message body: a header opens one, an empty line
/// or `OK` closes it.
pub open spec fn cmgl_in_body(line: Seq<char>, in_body: bool) -> bool {
    ||| "+CMGL:"@.is_prefix_of(line)
    ||| in_body && trimmed(line).len() > 0 && trimmed(line) != "OK"@
}

/// The state after the lines `ls`: whether a body is open.
pub open spec fn cmgl_open(ls: Seq<Seq<char>>) -> bool
    decreases ls.len(),
{
    ls.len() > 0 && cmgl_in_body(ls.last(), cmgl_open(ls.drop_last()))
}

/// The lines `ls` with the message bodies decoded, each ended by a line feed.
pub open spec fn cmgl_text(ls: Seq<Seq<char>>) -> Seq<char>
    decreases ls.len(),
{
    if ls.len() == 0 {
        Seq::empty()
    } else {
        (cmgl_text(ls.drop_last()) + cmgl_line(ls.last(), cmgl_open(ls.drop_last()))).push('\n')
    }
}

/// Decodes the UCS-2 message bodies in a `+CMGL` response and leaves every other line as it is.
pub fn decode_cmgl_body(response: &str) -> (r: String)
    ensures
        r@ == cmgl_text(lines_of(response@)),
{
    let list = lines(response);
    let ghost all = lines_of(response@);
    let mut r = String::new();
    let mut in_body: bool = false;
    let mut k: usize = 0;
    assert(texts(list@).len() == list@.len());
    while k < list.len()
        invariant
            k <= list@.len(),
            all == texts(list@),
            all.len() == list@.len(),
            in_body == cmgl_open(all.take(k as int)),
            r@ == cmgl_text(all.take(k as int)),
        decreases list@.len() - k,
    {
        let line = list[k];
        assert(all.take(k + 1).drop_last() == all.take(k as int));
        assert(all.take(k + 1).last() == line@);
        if starts_with(line, "+CMGL:") {
            in_body = true;
            r.append(line);
        } else if in_body {
            let t = trim(line);
            if t.is_empty() || same(t, "OK") {
                in_body = false;
                r.append(line);
            } else {
                let decoded = decode_hex_ucs2(t);
                if decoded.as_str().is_empty() {
                    r.append(line);
                } else {
                    r.append(decoded.as_str());
                }
            }
        } else {
            r.append(line);
        }
        r.push('\n');
        k += 1;
    }
    assert(all.take(k as int) == all);
    r
}

} // verus!
