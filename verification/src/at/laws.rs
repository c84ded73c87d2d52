//! What holds of AT texts as a whole.

use vstd::prelude::*;

use crate::actor::telemetry::TelemetryData;
use crate::at::builder::{at_param, char_hex, fits_param, sms_body, ucs2_hex, unit_hex};
use crate::at::line::{fields_from, fields_of, parsed_line};
use crate::at::parser::{distinct, percent, serving_cells, with_cells, with_entries};
use crate::at::utils::{
    cmgl_open, cmgl_text, double_colon_at, groups, is_command, is_ipv6, is_surrogate, is_ucs2_hex,
    normalized_command, octet_groups, octets, standard_ipv6, ucs2_text, unit_at,
};
use crate::number::{all_hex, hex_lower, hex_upper, hex_value, hexadecimal, is_hex};
use crate::text::{
    index_of_char, is_space, joined, law_split_join, law_trim_idempotent, law_trimmed_ends,
    lemma_index_of_char_bounds, lemma_pieces_split, pieces, trimmed,
};

verus! {

// ---------------------------------------------------------------------------
// Parameters and message bodies
// ---------------------------------------------------------------------------

proof fn lemma_filter_holds(s: Seq<char>, p: spec_fn(char) -> bool)
    ensures
        forall|i: int| 0 <= i < s.filter(p).len() ==> p(#[trigger] s.filter(p)[i]),
        (forall|i: int| 0 <= i < s.len() ==> p(#[trigger] s[i])) ==> s.filter(p) == s,
    decreases s.len(),
{
    reveal(Seq::filter);
    if s.len() > 0 {
        let h = s.drop_last();
        lemma_filter_holds(h, p);
        if forall|i: int| 0 <= i < s.len() ==> p(#[trigger] s[i]) {
            assert forall|i: int| 0 <= i < h.len() implies p(#[trigger] h[i]) by {
                assert(h[i] == s[i]);
            }
            assert(p(s[s.len() - 1]));
            assert(h.push(s.last()) == s);
        }
    }
}

/// A sanitized parameter holds no double quote, backslash or control character, so it can end
/// neither its quotation nor its command line.
pub proof fn law_param_is_harmless(s: Seq<char>)
    ensures
        forall|i: int| 0 <= i < at_param(s).len() ==> fits_param(#[trigger] at_param(s)[i]),
        !at_param(s).contains('"'),
        !at_param(s).contains('\r'),
        !at_param(s).contains('\n'),
{
    let p = |c: char| fits_param(c);
    lemma_filter_holds(s, p);
    assert forall|i: int| 0 <= i < at_param(s).len() implies fits_param(
        #[trigger] at_param(s)[i],
    ) by {
        assert(p(s.filter(p)[i]));
    }
}

/// Sanitizing a parameter twice is the same as sanitizing it once.
pub proof fn law_param_idempotent(s: Seq<char>)
    ensures
        at_param(at_param(s)) == at_param(s),
{
    let p = |c: char| fits_param(c);
    lemma_filter_holds(s, p);
    lemma_filter_holds(s.filter(p), p);
}

/// A parameter without any such character comes through unchanged.
pub proof fn law_param_keeps_harmless(s: Seq<char>)
    requires
        forall|i: int| 0 <= i < s.len() ==> fits_param(#[trigger] s[i]),
    ensures
        at_param(s) == s,
{
    lemma_filter_holds(s, |c: char| fits_param(c));
}

/// A sanitized message body holds no Ctrl+Z.
pub proof fn law_sms_body_has_no_end(s: Seq<char>)
    ensures
        !sms_body(s).contains('\u{1a}'),
{
    let p = |c: char| c != '\u{1a}';
    lemma_filter_holds(s, p);
    assert forall|i: int| 0 <= i < sms_body(s).len() implies #[trigger] sms_body(s)[i]
        != '\u{1a}' by {
        assert(p(s.filter(p)[i]));
    }
}

/// A message body without Ctrl+Z comes through unchanged, line breaks and quotes included.
pub proof fn law_sms_body_keeps_text(s: Seq<char>)
    requires
        !s.contains('\u{1a}'),
    ensures
        sms_body(s) == s,
{
    lemma_filter_holds(s, |c: char| c != '\u{1a}');
}

// ---------------------------------------------------------------------------
// UCS-2
// ---------------------------------------------------------------------------

proof fn lemma_hex_digit(d: nat)
    requires
        d < 16,
    ensures
        is_hex(hex_upper(d)),
        hex_value(hex_upper(d)) == d,
        is_hex(hex_lower(d)),
        hex_lower(d) != ':',
{
}

proof fn lemma_unit(u: nat)
    requires
        u < 0x10000,
    ensures
        unit_hex(u).len() == 4,
        all_hex(unit_hex(u)),
        unit_at(unit_hex(u), 0) == u,
{
    let a = u / 16;
    let b = a / 16;
    let c = b / 16;
    assert(u / 256 == b);
    assert(u / 4096 == c);
    lemma_hex_digit(c);
    lemma_hex_digit(b % 16);
    lemma_hex_digit(a % 16);
    lemma_hex_digit(u % 16);
    let h = unit_hex(u);
    assert(h[0] == hex_upper(c));
    assert(h[1] == hex_upper(b % 16));
    assert(h[2] == hex_upper(a % 16));
    assert(h[3] == hex_upper(u % 16));
}

proof fn lemma_char_hex(c: char)
    ensures
        char_hex(c).len() % 4 == 0,
        char_hex(c).len() > 0,
        all_hex(char_hex(c)),
        c <= '\u{ffff}' ==> char_hex(c).len() == 4 && unit_at(char_hex(c), 0) == c as nat,
        c > '\u{ffff}' ==> is_surrogate(unit_at(char_hex(c), 0)),
{
    let n = c as nat;
    if n < 0x10000 {
        lemma_unit(n);
    } else {
        let a = (0xd800 + (n - 0x10000) / 0x400) as nat;
        let b = (0xdc00 + (n - 0x10000) % 0x400) as nat;
        lemma_unit(a);
        lemma_unit(b);
        lemma_units_concat(unit_hex(a), unit_hex(b));
    }
}

/// The units of two texts in a row.
proof fn lemma_units_concat(a: Seq<char>, b: Seq<char>)
    requires
        a.len() % 4 == 0,
        b.len() > 0,
        b.len() % 4 == 0,
        all_hex(a),
        all_hex(b),
    ensures
        all_hex(a + b),
        (a + b).len() % 4 == 0,
        forall|k: int| 0 <= k < a.len() / 4 ==> #[trigger] unit_at(a + b, k) == unit_at(a, k),
        unit_at(a + b, a.len() as int / 4) == unit_at(b, 0),
{
    let s = a + b;
    assert forall|i: int| 0 <= i < s.len() implies is_hex(#[trigger] s[i]) by {
        if i < a.len() {
            assert(is_hex(a[i]));
        } else {
            assert(is_hex(b[i - a.len()]));
        }
    }
    let m = a.len() as int / 4;
    assert(4 * m == a.len());
    assert(s[4 * m] == b[0] && s[4 * m + 1] == b[1] && s[4 * m + 2] == b[2] && s[4 * m + 3]
        == b[3]);
}

/// All characters lie in the Basic Multilingual Plane.
pub open spec fn is_bmp(s: Seq<char>) -> bool {
    forall|i: int| 0 <= i < s.len() ==> #[trigger] s[i] <= '\u{ffff}'
}

proof fn lemma_ucs2_hex(s: Seq<char>)
    ensures
        ucs2_hex(s).len() % 4 == 0,
        all_hex(ucs2_hex(s)),
    decreases s.len(),
{
    if s.len() > 0 {
        lemma_ucs2_hex(s.drop_last());
        lemma_char_hex(s.last());
        lemma_units_concat(ucs2_hex(s.drop_last()), char_hex(s.last()));
    }
}

proof fn lemma_ucs2_bmp(s: Seq<char>)
    requires
        is_bmp(s),
    ensures
        ucs2_hex(s).len() == 4 * s.len(),
        forall|k: int| 0 <= k < s.len() ==> #[trigger] unit_at(ucs2_hex(s), k) == s[k] as nat,
    decreases s.len(),
{
    if s.len() > 0 {
        let h = s.drop_last();
        assert(s[s.len() - 1] <= '\u{ffff}');
        assert(is_bmp(h)) by {
            assert forall|i: int| 0 <= i < h.len() implies #[trigger] h[i] <= '\u{ffff}' by {
                assert(h[i] == s[i]);
            }
        }
        lemma_ucs2_bmp(h);
        lemma_ucs2_hex(h);
        lemma_char_hex(s.last());
        lemma_units_concat(ucs2_hex(h), char_hex(s.last()));
        assert forall|k: int| 0 <= k < s.len() implies #[trigger] unit_at(ucs2_hex(s), k)
            == s[k] as nat by {
            if k < h.len() {
                assert(unit_at(ucs2_hex(h), k) == h[k] as nat);
            }
        }
    }
}

proof fn lemma_ucs2_surrogate(s: Seq<char>, i: int) -> (k: int)
    requires
        0 <= i < s.len(),
        s[i] > '\u{ffff}',
    ensures
        0 <= k < ucs2_hex(s).len() / 4,
        is_surrogate(unit_at(ucs2_hex(s), k)),
    decreases s.len(),
{
    let h = s.drop_last();
    lemma_ucs2_hex(h);
    lemma_char_hex(s.last());
    lemma_units_concat(ucs2_hex(h), char_hex(s.last()));
    if i < h.len() {
        let k = lemma_ucs2_surrogate(h, i);
        assert(unit_at(ucs2_hex(s), k) == unit_at(ucs2_hex(h), k));
        k
    } else {
        ucs2_hex(h).len() as int / 4
    }
}

/// A message in the Basic Multilingual Plane that is encoded as UCS-2 decodes to itself.
pub proof fn law_ucs2_round_trip(s: Seq<char>)
    requires
        is_bmp(s),
    ensures
        ucs2_text(ucs2_hex(s)) == s,
{
    lemma_ucs2_hex(s);
    lemma_ucs2_bmp(s);
    let h = ucs2_hex(s);
    assert forall|k: int| 0 <= k < h.len() / 4 implies !is_surrogate(#[trigger] unit_at(h, k)) by {
        assert(unit_at(h, k) == s[k] as nat);
        lemma_char_code(s[k]);
    }
    assert(is_ucs2_hex(h));
    assert forall|k: int| 0 <= k < s.len() implies #[trigger] ucs2_text(h)[k] == s[k] by {
        assert(unit_at(h, k) == s[k] as nat);
        lemma_char_code(s[k]);
    }
    assert(ucs2_text(h) == s);
}

proof fn lemma_char_code(c: char)
    ensures
        !is_surrogate(c as nat),
        (c as nat) as char == c,
{
}

/// A message with a character outside the Basic Multilingual Plane is encoded with surrogates,
/// which the decoder does not take.
pub proof fn law_ucs2_surrogates_are_refused(s: Seq<char>)
    requires
        !is_bmp(s),
    ensures
        ucs2_text(ucs2_hex(s)) == Seq::<char>::empty(),
{
    let i = choose|i: int| 0 <= i < s.len() && #[trigger] s[i] > '\u{ffff}';
    let k = lemma_ucs2_surrogate(s, i);
    assert(is_surrogate(unit_at(ucs2_hex(s), k)));
}

// ---------------------------------------------------------------------------
// Commands and lines
// ---------------------------------------------------------------------------

/// Completing a command twice is the same as completing it once.
pub proof fn law_normalize_idempotent(cmd: Seq<char>)
    ensures
        normalized_command(normalized_command(cmd)) == normalized_command(cmd),
{
    let t = trimmed(cmd);
    law_trim_idempotent(cmd);
    law_trimmed_ends(cmd);
    if t.len() > 0 && !is_command(t) {
        reveal_strlit("AT");
        let n = "AT"@ + t;
        assert(!is_space(n[0]));
        assert(n.last() == t.last());
        assert(trimmed(n) == n);
        assert("AT"@.is_prefix_of(n));
    }
}

/// White space around a line does not change what it says.
pub proof fn law_line_ignores_white_space(line: Seq<char>)
    ensures
        parsed_line(trimmed(line)) == parsed_line(line),
{
    law_trim_idempotent(line);
}

/// The pieces of a text, each without the white space around it.
pub open spec fn trimmed_pieces(s: Seq<char>) -> Seq<Seq<char>> {
    Seq::new(pieces(s, ',').len(), |i: int| trimmed(pieces(s, ',')[i]))
}

proof fn lemma_fields_without_quotes(s: Seq<char>, i: int)
    requires
        0 <= i <= index_of_char(s, ','),
        !s.contains('"'),
    ensures
        fields_from(s.skip(i), s.take(i), false) == trimmed_pieces(s),
    decreases s.len() - i,
{
    lemma_index_of_char_bounds(s, ',');
    let k = index_of_char(s, ',');
    let rest = s.skip(i);
    if i == s.len() {
        assert(s.take(i) == s);
        assert(pieces(s, ',') == seq![s]);
        assert(trimmed_pieces(s) == seq![trimmed(s)]);
    } else if i == k {
        assert(rest[0] == ',');
        assert(rest.skip(1) == s.skip(k + 1));
        let t = s.skip(k + 1);
        assert forall|j: int| 0 <= j < t.len() implies t[j] != '"' by {
            assert(t[j] == s[j + k + 1]);
        }
        lemma_index_of_char_bounds(t, ',');
        lemma_fields_without_quotes(t, 0);
        assert(t.skip(0) == t);
        assert(t.take(0) == Seq::<char>::empty());
        assert(pieces(s, ',') == seq![s.take(k)] + pieces(t, ','));
        assert(trimmed_pieces(s) == seq![trimmed(s.take(k))] + trimmed_pieces(t));
    } else {
        assert(rest[0] == s[i]);
        assert(s.contains(s[i]));
        assert(rest.skip(1) == s.skip(i + 1));
        assert(s.take(i).push(s[i]) == s.take(i + 1));
        lemma_fields_without_quotes(s, i + 1);
    }
}

/// Where nothing is quoted, the fields are what stands between the commas.
pub proof fn law_fields_without_quotes(s: Seq<char>)
    requires
        !s.contains('"'),
    ensures
        fields_of(s) == trimmed_pieces(s),
{
    lemma_index_of_char_bounds(s, ',');
    lemma_fields_without_quotes(s, 0);
    assert(s.skip(0) == s);
    assert(s.take(0) == Seq::<char>::empty());
}

/// A response without message headers is left as it is, line by line.
pub proof fn law_other_responses_stay(ls: Seq<Seq<char>>)
    requires
        forall|i: int| 0 <= i < ls.len() ==> !"+CMGL:"@.is_prefix_of(#[trigger] ls[i]),
    ensures
        !cmgl_open(ls),
        cmgl_text(ls) == ended_lines(ls),
    decreases ls.len(),
{
    if ls.len() > 0 {
        let h = ls.drop_last();
        assert forall|i: int| 0 <= i < h.len() implies !"+CMGL:"@.is_prefix_of(#[trigger] h[i]) by {
            assert(h[i] == ls[i]);
        }
        law_other_responses_stay(h);
        assert(!"+CMGL:"@.is_prefix_of(ls[ls.len() - 1]));
    }
}

/// Lines one after another, each ended by a line feed.
pub open spec fn ended_lines(ls: Seq<Seq<char>>) -> Seq<char>
    decreases ls.len(),
{
    if ls.len() == 0 {
        Seq::empty()
    } else {
        (ended_lines(ls.drop_last()) + ls.last()).push('\n')
    }
}

/// A message body that was sent as UCS-2 is shown as the text that was sent.
pub proof fn law_ucs2_body_is_shown(header: Seq<char>, text: Seq<char>)
    requires
        "+CMGL:"@.is_prefix_of(header),
        is_bmp(text),
        text.len() > 0,
    ensures
        cmgl_text(seq![header, ucs2_hex(text)]) == header.push('\n') + text.push('\n'),
{
    let h = ucs2_hex(text);
    lemma_ucs2_hex(text);
    lemma_ucs2_bmp(text);
    law_ucs2_round_trip(text);
    reveal_strlit("+CMGL:");
    reveal_strlit("OK");
    assert(is_hex(h[0]) && is_hex(h[h.len() - 1]));
    assert(trimmed(h) == h);
    assert(h[0] != '+');
    assert(!"+CMGL:"@.is_prefix_of(h)) by {
        if "+CMGL:"@.is_prefix_of(h) {
            assert("+CMGL:"@[0] == h.subrange(0, 6)[0]);
        }
    }
    assert("OK"@.len() == 2);
    let ls = seq![header, h];
    reveal_with_fuel(cmgl_text, 3);
    reveal_with_fuel(cmgl_open, 3);
    assert(ls.drop_last() == seq![header]);
    assert(seq![header].drop_last() == Seq::<Seq<char>>::empty());
    assert(cmgl_open(seq![header]));
    assert(cmgl_text(seq![header]) == header.push('\n'));
    assert(cmgl_text(ls) == (header.push('\n') + text).push('\n'));
    assert((header.push('\n') + text).push('\n') == header.push('\n') + text.push('\n'));
}

// ---------------------------------------------------------------------------
// Telemetry
// ---------------------------------------------------------------------------

/// A response in which no line describes a cell, such as one that only reports the state of the
/// connection, leaves the telemetry as it was.
pub proof fn law_no_cell_no_change(ls: Seq<Seq<char>>, t: TelemetryData<Seq<char>>)
    requires
        forall|i: int|
            0 <= i < ls.len() ==> (parsed_line(#[trigger] ls[i]) matches Some(
                crate::at::line::ParsedLine::QengServingCell(c),
            ) ==> c.rat.len() == 0),
    ensures
        with_cells(serving_cells(ls), t) == t,
    decreases ls.len(),
{
    if ls.len() > 0 {
        let h = ls.drop_last();
        assert forall|i: int| 0 <= i < h.len() implies (parsed_line(#[trigger] h[i]) matches Some(
            crate::at::line::ParsedLine::QengServingCell(c),
        ) ==> c.rat.len() == 0) by {
            assert(h[i] == ls[i]);
        }
        law_no_cell_no_change(h, t);
        assert(parsed_line(ls[ls.len() - 1]) == parsed_line(ls.last()));
    }
}

/// Reading carriers changes only the four fields that describe carriers.
pub proof fn law_carriers_keep_the_rest(
    es: Seq<crate::at::response::QcainfoEntry<Seq<char>>>,
    t: TelemetryData<Seq<char>>,
)
    ensures
        ({
            let r = with_entries(es, t);
            r == (TelemetryData {
                bands: r.bands,
                bandwidth: r.bandwidth,
                earfcn: r.earfcn,
                pci: r.pci,
                ..t
            })
        }),
{
}

/// A percentage lies between 0 and 100 and grows with the value.
pub proof fn law_percent(v: int, w: int, low: int, span: int)
    requires
        span > 0,
        v <= w,
    ensures
        0 <= percent(v, low, span) <= 100,
        percent(v, low, span) <= percent(w, low, span),
        v <= low ==> percent(v, low, span) == 0,
        v >= low + span ==> percent(v, low, span) == 100,
{
    assert((v - low) * 100 / span <= (w - low) * 100 / span) by (nonlinear_arith)
        requires
            span > 0,
            v <= w,
    ;
    if v <= low {
        assert((v - low) * 100 / span <= 0) by (nonlinear_arith)
            requires
                span > 0,
                v <= low,
        ;
    }
    if v >= low + span {
        assert((v - low) * 100 / span >= 100) by (nonlinear_arith)
            requires
                span > 0,
                v >= low + span,
        ;
    }
}

/// The bands of the carriers are listed once each, and none is left out.
pub proof fn law_distinct(list: Seq<Seq<char>>)
    ensures
        distinct(list).no_duplicates(),
        forall|x: Seq<char>| #[trigger] distinct(list).contains(x) <==> list.contains(x),
    decreases list.len(),
{
    if list.len() > 0 {
        let h = list.drop_last();
        let d = distinct(h);
        law_distinct(h);
        assert forall|x: Seq<char>| #[trigger] distinct(list).contains(x) implies list.contains(
            x,
        ) by {
            if d.contains(x) {
                let i = choose|i: int| 0 <= i < h.len() && h[i] == x;
                assert(list[i] == x);
            } else {
                assert(list[list.len() - 1] == x);
            }
        }
        assert forall|x: Seq<char>| list.contains(x) implies #[trigger] distinct(list).contains(
            x,
        ) by {
            let i = choose|i: int| 0 <= i < list.len() && list[i] == x;
            if i < h.len() {
                assert(h[i] == x);
                assert(d.contains(x));
                let j = choose|j: int| 0 <= j < d.len() && d[j] == x;
                assert(distinct(list)[j] == x);
            } else if !d.contains(x) {
                assert(distinct(list)[d.len() as int] == x);
            }
        }
    }
}

// ---------------------------------------------------------------------------
// Addresses
// ---------------------------------------------------------------------------

proof fn lemma_hexadecimal(n: nat)
    requires
        n < 0x10000,
    ensures
        0 < hexadecimal(n).len() <= 4,
        all_hex(hexadecimal(n)),
        n < 16 ==> hexadecimal(n).len() == 1,
        n < 256 ==> hexadecimal(n).len() <= 2,
        n < 4096 ==> hexadecimal(n).len() <= 3,
    decreases n,
{
    lemma_hex_digit(n % 16);
    if n >= 16 {
        lemma_hexadecimal(n / 16);
    }
}

/// What joining text without colons by single colons looks like.
proof fn lemma_joined_by_colons(list: Seq<Seq<char>>)
    requires
        list.len() > 0,
        forall|i: int| 0 <= i < list.len() ==> (#[trigger] list[i]).len() > 0 && all_hex(list[i]),
    ensures
        ({
            let s = joined(list, seq![':']);
            &&& s.len() > 0
            &&& s[0] != ':'
            &&& s.last() != ':'
            &&& forall|i: int| 0 <= i < s.len() ==> is_hex(#[trigger] s[i]) || s[i] == ':'
            &&& forall|i: int| !double_colon_at(s, i)
        }),
    decreases list.len(),
{
    let last = list.last();
    assert(last == list[list.len() - 1]);
    assert(is_hex(last[0]) && is_hex(last.last()));
    if list.len() > 1 {
        let init = list.drop_last();
        assert forall|i: int| 0 <= i < init.len() implies (#[trigger] init[i]).len() > 0
            && all_hex(init[i]) by {
            assert(init[i] == list[i]);
        }
        lemma_joined_by_colons(init);
        let a = joined(init, seq![':']);
        let s = a + seq![':'] + last;
        assert(s == joined(list, seq![':']));
        assert forall|i: int| 0 <= i < s.len() implies is_hex(#[trigger] s[i]) || s[i] == ':' by {
            if i < a.len() {
                assert(s[i] == a[i]);
            } else if i > a.len() {
                assert(s[i] == last[i - a.len() - 1]);
            }
        }
        assert forall|i: int| !double_colon_at(s, i) by {
            if double_colon_at(s, i) {
                if i + 1 < a.len() {
                    assert(double_colon_at(a, i));
                } else if i + 1 == a.len() {
                    assert(s[i] == a.last());
                } else if i == a.len() {
                    assert(s[i + 1] == last[0]);
                } else {
                    assert(s[i] == last[i - a.len() - 1]);
                }
            }
        }
        assert(s.last() == last.last());
    } else {
        assert forall|i: int| !double_colon_at(last, i) by {
            if double_colon_at(last, i) {
                assert(is_hex(last[i]));
            }
        }
    }
}

proof fn lemma_octets(parts: Seq<Seq<char>>)
    ensures
        forall|i: int| 0 <= i < octets(parts).len() ==> #[trigger] octets(parts)[i] <= 255,
    decreases parts.len(),
{
    if parts.len() > 0 {
        lemma_octets(parts.drop_last());
        let b = octets(parts.drop_last());
        assert forall|i: int| 0 <= i < octets(parts).len() implies #[trigger] octets(parts)[i]
            <= 255 by {
            if i < b.len() {
                assert(octets(parts)[i] == b[i]);
            }
        }
    }
}

/// An address of sixteen dotted octets becomes a valid IPv6 address.
pub proof fn law_dotted_ipv6_is_valid(raw: Seq<char>)
    requires
        octets(pieces(raw, '.')).len() == 16,
    ensures
        is_ipv6(standard_ipv6(raw)),
{
    let b = octets(pieces(raw, '.'));
    let g = octet_groups(b);
    lemma_octets(pieces(raw, '.'));
    assert forall|i: int| 0 <= i < 8 implies 0 < (#[trigger] g[i]).len() <= 4 && all_hex(
        g[i],
    ) by {
        assert(b[2 * i] <= 255 && b[2 * i + 1] <= 255);
        lemma_hexadecimal(b[2 * i] * 256 + b[2 * i + 1]);
    }
    reveal_strlit(":");
    assert(":"@ == seq![':']);
    let s = joined(g, seq![':']);
    lemma_joined_by_colons(g);
    assert forall|i: int| 0 <= i < g.len() implies !(#[trigger] g[i]).contains(':') by {
        if g[i].contains(':') {
            let j = choose|j: int| 0 <= j < g[i].len() && g[i][j] == ':';
            assert(is_hex(g[i][j]));
        }
    }
    law_split_join(g, ':');
    let p = |p: Seq<char>| p.len() > 0;
    lemma_filter_groups(g, p);
    assert(groups(s) == g);
}

proof fn lemma_filter_groups(s: Seq<Seq<char>>, p: spec_fn(Seq<char>) -> bool)
    requires
        forall|i: int| 0 <= i < s.len() ==> p(#[trigger] s[i]),
    ensures
        s.filter(p) == s,
    decreases s.len(),
{
    reveal(Seq::filter);
    if s.len() > 0 {
        let h = s.drop_last();
        assert forall|i: int| 0 <= i < h.len() implies p(#[trigger] h[i]) by {
            assert(h[i] == s[i]);
        }
        lemma_filter_groups(h, p);
        assert(p(s[s.len() - 1]));
        assert(h.push(s.last()) == s);
    }
}

/// Groups of hexadecimal digits, none of them empty.
pub open spec fn are_groups(list: Seq<Seq<char>>) -> bool {
    forall|i: int| 0 <= i < list.len() ==> (#[trigger] list[i]).len() > 0 && all_hex(list[i])
}

/// None of the groups has more than four digits.
pub open spec fn are_short(list: Seq<Seq<char>>) -> bool {
    forall|i: int| 0 <= i < list.len() ==> (#[trigger] list[i]).len() <= 4
}

proof fn lemma_group_pieces(list: Seq<Seq<char>>)
    requires
        are_groups(list),
    ensures
        ({
            let s = joined(list, seq![':']);
            &&& list.len() > 0 ==> pieces(s, ':') == list
            &&& list.len() == 0 ==> pieces(s, ':') == seq![Seq::<char>::empty()]
            &&& groups(s) == list
        }),
{
    let s = joined(list, seq![':']);
    let p = |p: Seq<char>| p.len() > 0;
    if list.len() > 0 {
        assert forall|i: int| 0 <= i < list.len() implies !(#[trigger] list[i]).contains(':') by {
            if list[i].contains(':') {
                let j = choose|j: int| 0 <= j < list[i].len() && list[i][j] == ':';
                assert(is_hex(list[i][j]));
            }
        }
        law_split_join(list, ':');
        lemma_filter_groups(list, p);
    } else {
        assert(s == Seq::<char>::empty());
        assert(pieces(s, ':') == seq![s]);
        reveal(Seq::filter);
        assert(seq![s].drop_last() == Seq::<Seq<char>>::empty());
        assert(list == Seq::<Seq<char>>::empty());
        reveal_with_fuel(Seq::filter, 2);
    }
}

/// Groups with single colons between them are an IPv6 address exactly where they are eight of at
/// most four digits.
pub proof fn law_full_ipv6(list: Seq<Seq<char>>)
    requires
        list.len() > 0,
        are_groups(list),
    ensures
        is_ipv6(joined(list, seq![':'])) <==> list.len() == 8 && are_short(list),
{
    lemma_joined_by_colons(list);
    lemma_group_pieces(list);
}

proof fn lemma_short_pieces(x: Seq<char>, y: Seq<char>)
    ensures
        pieces(x + seq![':', ':'] + y, ':') == pieces(x, ':') + (seq![Seq::<char>::empty()] + pieces(
            y,
            ':',
        )),
{
    let colon = seq![':'];
    let e = Seq::<char>::empty();
    assert(x + seq![':', ':'] + y == x + colon + (e + colon + y));
    lemma_pieces_split(x, ':', e + colon + y);
    lemma_pieces_split(e, ':', y);
    assert(pieces(e, ':') == seq![e]);
}

proof fn lemma_filter_one(e: Seq<char>, p: spec_fn(Seq<char>) -> bool)
    requires
        !p(e),
    ensures
        seq![e].filter(p) == Seq::<Seq<char>>::empty(),
{
    reveal(Seq::filter);
    let one = seq![e];
    assert(one.drop_last() == Seq::<Seq<char>>::empty());
    assert(one.drop_last().filter(p) == Seq::<Seq<char>>::empty());
}

proof fn lemma_filter_around(
    u: Seq<Seq<char>>,
    e: Seq<char>,
    w: Seq<Seq<char>>,
    p: spec_fn(Seq<char>) -> bool,
)
    requires
        !p(e),
    ensures
        (u + (seq![e] + w)).filter(p) == u.filter(p) + w.filter(p),
{
    Seq::filter_distributes_over_add(u, seq![e] + w, p);
    Seq::filter_distributes_over_add(seq![e], w, p);
    lemma_filter_one(e, p);
    assert(Seq::<Seq<char>>::empty() + w.filter(p) == w.filter(p));
}

proof fn lemma_short_groups(a: Seq<Seq<char>>, b: Seq<Seq<char>>)
    requires
        are_groups(a),
        are_groups(b),
    ensures
        groups(joined(a, seq![':']) + seq![':', ':'] + joined(b, seq![':'])) == a + b,
{
    let x = joined(a, seq![':']);
    let y = joined(b, seq![':']);
    let p = |p: Seq<char>| p.len() > 0;
    lemma_group_pieces(a);
    lemma_group_pieces(b);
    lemma_short_pieces(x, y);
    lemma_filter_around(pieces(x, ':'), Seq::empty(), pieces(y, ':'), p);
    assert(groups(x) == pieces(x, ':').filter(p));
    assert(groups(y) == pieces(y, ':').filter(p));
}

/// A text without a double colon, of digits and colons, that has no colon at its ends.
spec fn is_run(x: Seq<char>) -> bool {
    &&& forall|i: int| 0 <= i < x.len() ==> is_hex(#[trigger] x[i]) || x[i] == ':'
    &&& forall|i: int| !double_colon_at(x, i)
    &&& x.len() > 0 ==> x[0] != ':' && x.last() != ':'
}

proof fn lemma_run(list: Seq<Seq<char>>)
    requires
        are_groups(list),
    ensures
        is_run(joined(list, seq![':'])),
{
    if list.len() > 0 {
        lemma_joined_by_colons(list);
    }
}

proof fn lemma_short_shape(x: Seq<char>, y: Seq<char>)
    requires
        is_run(x),
        is_run(y),
    ensures
        ({
            let s = x + seq![':', ':'] + y;
            &&& s.len() > 0
            &&& forall|i: int| 0 <= i < s.len() ==> is_hex(#[trigger] s[i]) || s[i] == ':'
            &&& double_colon_at(s, x.len() as int)
            &&& forall|i: int| double_colon_at(s, i) ==> i == x.len()
            &&& s[0] == ':' ==> double_colon_at(s, 0)
            &&& s.last() == ':' ==> double_colon_at(s, s.len() - 2)
        }),
{
    let s = x + seq![':', ':'] + y;
    let n = x.len() as int;
    assert forall|i: int| 0 <= i < s.len() implies is_hex(#[trigger] s[i]) || s[i] == ':' by {
        if i < n {
            assert(s[i] == x[i]);
        } else if i >= n + 2 {
            assert(s[i] == y[i - n - 2]);
        }
    }
    assert(s[n] == ':' && s[n + 1] == ':');
    assert forall|i: int| double_colon_at(s, i) implies i == n by {
        if i + 1 < n {
            assert(s[i] == x[i] && s[i + 1] == x[i + 1]);
            assert(double_colon_at(x, i));
        } else if i + 1 == n {
            assert(s[i] == x.last());
        } else if i == n + 1 {
            assert(s[i + 1] == y[0]);
        } else if i > n + 1 {
            assert(s[i] == y[i - n - 2] && s[i + 1] == y[i - n - 1]);
            assert(double_colon_at(y, i - n - 2));
        }
    }
    if n > 0 {
        assert(s[0] == x[0]);
    }
    if y.len() > 0 {
        assert(s.last() == y.last());
    } else {
        assert(s.len() - 2 == n);
    }
}

/// Groups with one double colon among them, at either end or between them, are an IPv6 address
/// exactly where they are at most seven of at most four digits.
pub proof fn law_short_ipv6(a: Seq<Seq<char>>, b: Seq<Seq<char>>)
    requires
        are_groups(a),
        are_groups(b),
    ensures
        is_ipv6(joined(a, seq![':']) + seq![':', ':'] + joined(b, seq![':'])) <==> a.len() + b.len()
            <= 7 && are_short(a + b),
{
    let x = joined(a, seq![':']);
    let y = joined(b, seq![':']);
    lemma_short_groups(a, b);
    lemma_run(a);
    lemma_run(b);
    lemma_short_shape(x, y);
}

/// What is no UCS-2 text: digits that do not come in fours, and anything but digits. Otherwise
/// every four digits are one character, whose number they write.
pub proof fn law_ucs2_units(h: Seq<char>, k: int)
    ensures
        h.len() % 4 != 0 ==> ucs2_text(h).len() == 0,
        !all_hex(h) ==> ucs2_text(h).len() == 0,
        ucs2_text(h).len() > 0 ==> ucs2_text(h).len() * 4 == h.len(),
        0 <= k < ucs2_text(h).len() ==> ucs2_text(h)[k] as nat == 4096 * hex_value(h[4 * k]) + 256
            * hex_value(h[4 * k + 1]) + 16 * hex_value(h[4 * k + 2]) + hex_value(h[4 * k + 3]),
{
    if 0 <= k < ucs2_text(h).len() {
        assert(is_hex(h[4 * k]) && is_hex(h[4 * k + 1]) && is_hex(h[4 * k + 2]) && is_hex(
            h[4 * k + 3],
        ));
        let u = unit_at(h, k);
        assert(u < 0x10000);
        assert(!is_surrogate(u));
    }
}

} // verus!
