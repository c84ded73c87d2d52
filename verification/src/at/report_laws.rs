//! What is shown of addresses, temperatures, registration, signal strength and byte counts.

use vstd::prelude::*;

use crate::actor::telemetry::TelemetryData;
use crate::at::line_laws::{
    fit_fields, law_address_line, law_temperature_line, lemma_line, nth, response_line,
};
use crate::at::parser::{
    first_ipv4, first_ipv6, first_temperature, ipv4_on, ipv6_on, net_status, registration,
    signal_quality, with_addresses,
};
use crate::at::reading::{
    after_point, before_point, denominator, exponent_at, is_decimal, is_infinity, is_nan, is_number,
    magnitude, mantissa, number_digits, numerator, point_place, rounded_text,
};
use crate::at::utils::{
    byte_text, hundredths_text, is_ipv4, is_ipv6, is_octet, octets, standard_ipv6,
};
use crate::big::pow10;
use crate::double::{double_of, granule, half_even, law_tenths_are_rounded};
use crate::number::{
    all_digits, decimal, digit_char, hexadecimal, is_digit, law_decimal_round_trip,
    law_signed_decimal_round_trip, lemma_decimal, signed_decimal,
};
use crate::text::{
    ascii_lower, index_of_char, joined, law_split_join, lemma_index_of_char, mentions, pieces,
    same_but_case,
};
use crate::text_laws::law_digits;

verus! {

// ---------------------------------------------------------------------------
// Addresses
// ---------------------------------------------------------------------------

/// Numbers in decimal.
pub open spec fn decimals(list: Seq<nat>) -> Seq<Seq<char>> {
    Seq::new(list.len(), |i: int| decimal(list[i]))
}

proof fn lemma_decimal_len(n: nat)
    ensures
        n < 10 ==> decimal(n).len() == 1,
        n < 100 ==> decimal(n).len() <= 2,
        n < 1000 ==> decimal(n).len() <= 3,
{
    reveal_with_fuel(decimal, 4);
}

proof fn lemma_decimals_split(list: Seq<nat>)
    requires
        list.len() > 0,
    ensures
        pieces(joined(decimals(list), "."@), '.') == decimals(list),
{
    reveal_strlit(".");
    assert("."@ == seq!['.']);
    let d = decimals(list);
    assert forall|i: int| 0 <= i < d.len() implies !(#[trigger] d[i]).contains('.') by {
        lemma_decimal(list[i]);
        assert forall|j: int| 0 <= j < d[i].len() implies d[i][j] != '.' by {
            assert(is_digit(d[i][j]));
        }
    }
    law_split_join(d, '.');
}

/// Numbers with dots between them are an IPv4 address exactly where they are four numbers of at
/// most 255.
pub proof fn law_ipv4(list: Seq<nat>)
    requires
        list.len() > 0,
    ensures
        is_ipv4(joined(decimals(list), "."@)) <==> list.len() == 4 && list[0] <= 255 && list[1] <= 255
            && list[2] <= 255 && list[3] <= 255,
{
    lemma_decimals_split(list);
    let d = decimals(list);
    assert forall|i: int| 0 <= i < list.len() implies (is_octet(#[trigger] d[i]) <==> list[i] <= 255) by {
        lemma_decimal(list[i]);
        lemma_decimal_len(list[i]);
    }
    if list.len() == 4 {
        assert(d[0] == decimal(list[0]) && d[1] == decimal(list[1]) && d[2] == decimal(list[2])
            && d[3] == decimal(list[3]));
        assert(is_octet(d[0]) <==> list[0] <= 255);
        assert(is_octet(d[1]) <==> list[1] <= 255);
        assert(is_octet(d[2]) <==> list[2] <= 255);
        assert(is_octet(d[3]) <==> list[3] <= 255);
    }
}

proof fn lemma_octets(list: Seq<nat>)
    requires
        forall|i: int| 0 <= i < list.len() ==> #[trigger] list[i] <= 255,
    ensures
        octets(decimals(list)) == list,
    decreases list.len(),
{
    let d = decimals(list);
    if list.len() > 0 {
        let h = list.drop_last();
        assert(list[list.len() - 1] <= 255);
        law_decimal_round_trip(list.last(), 255);
        assert forall|i: int| 0 <= i < h.len() implies #[trigger] h[i] <= 255 by {
            assert(list[i] <= 255);
        }
        lemma_octets(h);
        assert(d.drop_last() == decimals(h));
        assert(d.last() == decimal(list.last()));
        assert(h.push(list.last()) == list);
    } else {
        assert(octets(d) == list);
    }
}

/// Sixteen octets with dots between them become eight groups of hexadecimal digits, the first
/// octet of each pair being the high one; fewer or more octets stay as they are.
pub proof fn law_dotted_ipv6(list: Seq<nat>)
    requires
        list.len() > 0,
        forall|i: int| 0 <= i < list.len() ==> #[trigger] list[i] <= 255,
    ensures
        list.len() == 16 ==> standard_ipv6(joined(decimals(list), "."@)) == joined(
            Seq::new(8, |i: int| hexadecimal(256 * list[2 * i] + list[2 * i + 1])),
            ":"@,
        ),
        list.len() != 16 ==> standard_ipv6(joined(decimals(list), "."@)) == joined(
            decimals(list),
            "."@,
        ),
{
    lemma_decimals_split(list);
    lemma_octets(list);
    if list.len() == 16 {
        assert(crate::at::utils::octet_groups(list) == Seq::new(
            8,
            |i: int| hexadecimal(256 * list[2 * i] + list[2 * i + 1]),
        ));
    }
}

/// A line with the addresses of a context gives the IPv4 address, unless it is none or all zeros,
/// and the IPv6 address, in standard form, unless it is none.
pub proof fn law_addresses_on_a_line(v: Seq<Seq<char>>, q: Seq<bool>, cid: u32)
    requires
        fit_fields(v, q),
        v[0] == decimal(cid as nat),
    ensures
        ({
            let line = response_line("+CGPADDR:"@, v, q);
            &&& nth(v, 1) != "0.0.0.0"@ && is_ipv4(nth(v, 1)) ==> ipv4_on(line) == Some(nth(v, 1))
            &&& nth(v, 1) == "0.0.0.0"@ || !is_ipv4(nth(v, 1)) ==> ipv4_on(line) is None
            &&& is_ipv6(standard_ipv6(nth(v, 2))) ==> ipv6_on(line) == Some(standard_ipv6(nth(v, 2)))
            &&& !is_ipv6(standard_ipv6(nth(v, 2))) ==> ipv6_on(line) is None
        }),
{
    law_address_line(v, q, cid);
    let s = nth(v, 2);
    if s.len() == 0 {
        assert(pieces(s, '.') == seq![s]);
        reveal_with_fuel(octets, 2);
        assert(standard_ipv6(s) == s);
    }
    if s == "0.0.0.0"@ {
        lemma_zeros_are_no_ipv6();
    }
}

proof fn lemma_zeros_are_no_ipv6()
    ensures
        !is_ipv6(standard_ipv6("0.0.0.0"@)),
{
    let z = seq![0nat, 0nat, 0nat, 0nat];
    let s = "0.0.0.0"@;
    reveal_strlit("0.0.0.0");
    reveal_strlit(".");
    let d = decimals(z);
    reveal_with_fuel(joined, 5);
    assert(d.drop_last() == decimals(seq![0nat, 0nat, 0nat]));
    assert(decimals(seq![0nat, 0nat, 0nat]).drop_last() == decimals(seq![0nat, 0nat]));
    assert(decimals(seq![0nat, 0nat]).drop_last() == decimals(seq![0nat]));
    assert(joined(d, "."@) == s);
    law_dotted_ipv6(z);
    assert(s[1] == '.');
}

/// The address that is kept is the first one: one that is known stays, and lines that come later
/// count only where those before gave none. Nothing else changes.
pub proof fn law_first_address(
    a: Seq<Seq<char>>,
    b: Seq<Seq<char>>,
    t: TelemetryData<Seq<char>>,
)
    ensures
        ({
            let r = with_addresses(a + b, t);
            let one = with_addresses(a, t);
            &&& t.ipv4 is Some ==> r.ipv4 == t.ipv4
            &&& t.ipv6 is Some ==> r.ipv6 == t.ipv6
            &&& r == with_addresses(b, one)
            &&& r == (TelemetryData { ipv4: r.ipv4, ipv6: r.ipv6, ..t })
        }),
        forall|line: Seq<char>|
            {
                let r = #[trigger] with_addresses(seq![line], t);
                &&& t.ipv4 is None ==> r.ipv4 == ipv4_on(line)
                &&& t.ipv6 is None ==> r.ipv6 == ipv6_on(line)
            },
{
    lemma_first_addresses(a, b, t.ipv4, t.ipv6);
    assert forall|line: Seq<char>|
        {
            let r = #[trigger] with_addresses(seq![line], t);
            &&& t.ipv4 is None ==> r.ipv4 == ipv4_on(line)
            &&& t.ipv6 is None ==> r.ipv6 == ipv6_on(line)
        } by {
        let ls = seq![line];
        assert(ls.skip(1) == Seq::<Seq<char>>::empty());
        reveal_with_fuel(first_ipv4, 2);
        reveal_with_fuel(first_ipv6, 2);
    }
}

proof fn lemma_first_addresses(
    a: Seq<Seq<char>>,
    b: Seq<Seq<char>>,
    x: Option<Seq<char>>,
    y: Option<Seq<char>>,
)
    ensures
        first_ipv4(a + b, x) == first_ipv4(b, first_ipv4(a, x)),
        first_ipv6(a + b, y) == first_ipv6(b, first_ipv6(a, y)),
    decreases a.len(),
{
    if a.len() == 0 {
        assert(a + b == b);
    } else {
        assert((a + b).skip(1) == a.skip(1) + b);
        lemma_first_addresses(a.skip(1), b, ipv4_on(a[0]), ipv6_on(a[0]));
    }
}

// ---------------------------------------------------------------------------
// Temperature, registration and signal strength
// ---------------------------------------------------------------------------

/// The temperature is that of the first sensor of the processor or of the modem with a reading,
/// rounded; other sensors do not count.
pub proof fn law_temperature(v: Seq<Seq<char>>, q: Seq<bool>, rest: Seq<Seq<char>>)
    requires
        fit_fields(v, q),
    ensures
        ({
            let line = response_line("+QTEMP:"@, v, q);
            let counts = mentions(v[0], "cpuss"@) || mentions(v[0], "mdmss"@);
            let reading = v.len() > 1 && is_number(v[1]);
            &&& counts && reading ==> first_temperature(seq![line] + rest) == Some(
                rounded_text(v[1]) + " °C"@,
            )
            &&& !(counts && reading) ==> first_temperature(seq![line] + rest) == first_temperature(
                rest,
            )
        }),
        first_temperature(Seq::empty()) is None,
{
    let line = response_line("+QTEMP:"@, v, q);
    law_temperature_line(v, q);
    let ls = seq![line] + rest;
    assert(ls[0] == line);
    assert(ls.skip(1) == rest);
}

/// The registration: status 1 is home, 5 is roaming, 2, 3 and 4 are none; the first line with a
/// status counts.
pub proof fn law_registration(v: Seq<Seq<char>>, q: Seq<bool>, rest: Seq<Seq<char>>)
    requires
        fit_fields(v, q),
    ensures
        ({
            let r = net_status(seq![response_line("+CREG:"@, v, q)] + rest);
            &&& v.len() == 1 ==> r == net_status(rest)
            &&& v.len() > 1 ==> {
                &&& r == "Registered (home)"@ <==> v[1] == "1"@
                &&& r == "Registered (roaming)"@ <==> v[1] == "5"@
                &&& r == "Not registered"@ <==> v[1] == "2"@ || v[1] == "3"@ || v[1] == "4"@
                &&& r == "Unknown"@ <==> v[1] != "1"@ && v[1] != "2"@ && v[1] != "3"@ && v[1] != "4"@
                    && v[1] != "5"@
            }
        }),
        net_status(Seq::empty()) == "Unknown"@,
{
    reveal_strlit("+CREG:");
    let line = response_line("+CREG:"@, v, q);
    lemma_line("+CREG:"@, v, q);
    let ls = seq![line] + rest;
    assert(ls[0] == line);
    assert(ls.skip(1) == rest);
    if v.len() > 1 {
        lemma_registration(v[1]);
    }
}

proof fn lemma_registration(s: Seq<char>)
    ensures
        registration(s) == "Registered (home)"@ <==> s == "1"@,
        registration(s) == "Registered (roaming)"@ <==> s == "5"@,
        registration(s) == "Not registered"@ <==> s == "2"@ || s == "3"@ || s == "4"@,
        registration(s) == "Unknown"@ <==> s != "1"@ && s != "2"@ && s != "3"@ && s != "4"@ && s
            != "5"@,
{
    reveal_strlit("1");
    reveal_strlit("2");
    reveal_strlit("3");
    reveal_strlit("4");
    reveal_strlit("5");
    assert("1"@[0] == '1' && "2"@[0] == '2' && "3"@[0] == '3' && "4"@[0] == '4' && "5"@[0] == '5');
    reveal_strlit("Registered (home)");
    reveal_strlit("Registered (roaming)");
    reveal_strlit("Not registered");
    reveal_strlit("Unknown");
    assert("Registered (home)"@.len() == 17 && "Registered (roaming)"@.len() == 20
        && "Not registered"@.len() == 14 && "Unknown"@.len() == 7);
}

/// The strength is -113 dBm for the index 0 and two more for each step; the index 99 stands for
/// none. The first line with an index counts.
pub proof fn law_signal_strength(
    v: Seq<Seq<char>>,
    q: Seq<bool>,
    index: i32,
    rest: Seq<Seq<char>>,
)
    requires
        fit_fields(v, q),
        v[0] == signed_decimal(index as int),
    ensures
        ({
            let r = signal_quality(seq![response_line("+CSQ:"@, v, q)] + rest);
            &&& index == 99 ==> r == "Unknown"@
            &&& index != 99 ==> r == signed_decimal(2 * index - 113) + " dBm"@
        }),
        signal_quality(Seq::empty()) == "Unknown"@,
{
    reveal_strlit("+CSQ:");
    let line = response_line("+CSQ:"@, v, q);
    lemma_line("+CSQ:"@, v, q);
    law_signed_decimal_round_trip(index);
    let ls = seq![line] + rest;
    assert(ls[0] == line);
    assert(ls.skip(1) == rest);
    assert(-113 + 2 * index == 2 * index - 113);
}

// ---------------------------------------------------------------------------
// Byte counts
// ---------------------------------------------------------------------------

/// `h` hundredths of `unit` bytes are nearest to `bytes`.
pub open spec fn is_nearest(bytes: nat, unit: nat, h: nat) -> bool {
    200 * bytes <= (2 * h + 1) * unit && (2 * h) * unit <= 200 * bytes + unit
}

proof fn lemma_half_even_near(n: nat, d: nat)
    requires
        d > 0,
    ensures
        2 * n <= (2 * half_even(n, d) + 1) * d,
        (2 * half_even(n, d)) * d <= 2 * n + d,
{
    let k = n / d;
    let r = n % d;
    assert(n == k * d + r && 0 <= r < d) by (nonlinear_arith)
        requires
            d > 0,
            k == n / d,
            r == n % d,
    ;
    let h = half_even(n, d);
    if h == k + 1 {
        assert(2 * r >= d);
        assert(2 * n <= (2 * h + 1) * d && (2 * h) * d <= 2 * n + d) by (nonlinear_arith)
            requires
                n == k * d + r,
                0 <= r < d,
                2 * r >= d,
                h == k + 1,
        ;
    } else {
        assert(2 * r <= d);
        assert(2 * n <= (2 * h + 1) * d && (2 * h) * d <= 2 * n + d) by (nonlinear_arith)
            requires
                n == k * d + r,
                0 <= r < d,
                2 * r <= d,
                h == k,
        ;
    }
}

/// A byte count is shown in bytes below 1024, in KB below 1024 KB, in MB below 1024 MB and in GB
/// from there on, to the nearest hundredth of the unit.
pub proof fn law_byte_counts(bytes: nat)
    requires
        bytes < 0x20_0000_0000_0000,
    ensures
        bytes < 1024 ==> byte_text(bytes) == decimal(bytes) + " B"@,
        1024 <= bytes < 1024 * 1024 ==> exists|h: nat| #[trigger]
            is_nearest(bytes, 1024, h) && byte_text(bytes) == hundredths_text(h) + " KB"@,
        1024 * 1024 <= bytes < 1024 * 1024 * 1024 ==> exists|h: nat| #[trigger]
            is_nearest(bytes, 1024 * 1024, h) && byte_text(bytes) == hundredths_text(h) + " MB"@,
        1024 * 1024 * 1024 <= bytes ==> exists|h: nat| #[trigger]
            is_nearest(bytes, 1024 * 1024 * 1024, h) && byte_text(bytes) == hundredths_text(h)
                + " GB"@,
{
    assert(granule(bytes) == 1);
    assert(half_even(bytes, 1) == bytes);
    assert(double_of(bytes) == bytes);
    lemma_half_even_near(bytes * 100, 1024);
    lemma_half_even_near(bytes * 100, 1024 * 1024);
    lemma_half_even_near(bytes * 100, 1024 * 1024 * 1024);
    assert(is_nearest(bytes, 1024, half_even(bytes * 100, 1024)));
    assert(is_nearest(bytes, 1024 * 1024, half_even(bytes * 100, 1024 * 1024)));
    assert(is_nearest(bytes, 1024 * 1024 * 1024, half_even(bytes * 100, 1024 * 1024 * 1024)));
}

/// Hundredths are written as whole units, a point and two digits.
pub proof fn law_hundredths(whole: nat, tens: nat, ones: nat)
    requires
        tens < 10,
        ones < 10,
    ensures
        hundredths_text(100 * whole + 10 * tens + ones) == decimal(whole) + "."@ + decimal(tens)
            + decimal(ones),
{
    reveal_strlit(".");
    let h = 100 * whole + 10 * tens + ones;
    assert(h / 100 == whole && h / 10 % 10 == tens && h % 10 == ones);
    assert(seq!['.', digit_char(tens), digit_char(ones)] == "."@ + decimal(tens) + decimal(ones));
    assert(decimal(whole) + ("."@ + decimal(tens) + decimal(ones)) == decimal(whole) + "."@ + decimal(
        tens,
    ) + decimal(ones));
}

// ---------------------------------------------------------------------------
// Readings
// ---------------------------------------------------------------------------

proof fn lemma_no_letters(s: Seq<char>)
    requires
        forall|i: int| 0 <= i < s.len() ==> is_digit(#[trigger] s[i]) || s[i] == '.',
    ensures
        index_of_char(s, 'e') == s.len(),
        index_of_char(s, 'E') == s.len(),
        mantissa(s) == s,
        exponent_at(s) == s.len(),
{
    lemma_index_of_char(s, 'e', s.len() as int);
    lemma_index_of_char(s, 'E', s.len() as int);
    assert(s.take(s.len() as int) == s);
}

proof fn lemma_no_word(s: Seq<char>, word: Seq<char>)
    requires
        s.len() > 0,
        word.len() > 0,
        is_digit(s[0]),
        'a' <= word[0] <= 'z',
    ensures
        !same_but_case(s, word),
{
    if same_but_case(s, word) {
        assert(ascii_lower(s[0]) == ascii_lower(word[0]));
    }
}

proof fn lemma_plain_number(m: Seq<char>, a: Seq<char>, b: Seq<char>)
    requires
        a.len() > 0,
        all_digits(a),
        all_digits(b),
        m == a && b.len() == 0 || m == a + "."@ + b,
    ensures
        magnitude(m) == m,
        !is_infinity(m),
        !is_nan(m),
        is_decimal(m),
        number_digits(m) == a + b,
        point_place(m) == a.len(),
        m[0] == a[0],
{
    reveal_strlit(".");
    reveal_strlit("inf");
    reveal_strlit("infinity");
    reveal_strlit("nan");
    assert(is_digit(a[0]));
    assert(m[0] == a[0]);
    assert forall|i: int| 0 <= i < m.len() implies is_digit(#[trigger] m[i]) || m[i] == '.' by {
        if i < a.len() {
            assert(m[i] == a[i]);
        } else if i > a.len() {
            assert(m[i] == b[i - a.len() - 1]);
        }
    }
    lemma_no_letters(m);
    lemma_no_word(m, "inf"@);
    lemma_no_word(m, "infinity"@);
    lemma_no_word(m, "nan"@);
    let k = a.len() as int;
    assert forall|j: int| 0 <= j < k implies m[j] != '.' by {
        assert(m[j] == a[j]);
        assert(is_digit(a[j]));
    }
    lemma_index_of_char(m, '.', k);
    assert(m.take(k) == a);
    if k < m.len() {
        assert(m.skip(k + 1) == b);
    } else {
        assert(b == Seq::<char>::empty());
    }
}

/// A reading of whole degrees is shown as it is. One with a tenth is shown as the nearest whole
/// number, and one of exactly a half as the even one; a minus sign stays.
pub proof fn law_readings_are_rounded(a: nat, d: nat)
    requires
        a < 0x1_0000_0000_0000,
        d < 10,
    ensures
        is_number(decimal(a)),
        rounded_text(decimal(a)) == decimal(a),
        rounded_text("-"@ + decimal(a)) == "-"@ + decimal(a),
        ({
            let s = decimal(a) + "."@ + decimal(d);
            let up = d > 5 || (d == 5 && a % 2 == 1);
            &&& is_number(s)
            &&& !up ==> rounded_text(s) == decimal(a) && rounded_text("-"@ + s) == "-"@ + decimal(a)
            &&& up ==> rounded_text(s) == decimal(a + 1) && rounded_text("-"@ + s) == "-"@ + decimal(
                a + 1,
            )
        }),
{
    reveal_strlit("-");
    let x = decimal(a);
    let y = decimal(d);
    let e = Seq::<char>::empty();
    lemma_decimal(a);
    lemma_decimal(d);
    assert(x + e == x);
    lemma_plain_number(x, x, e);
    let s = x + "."@ + y;
    lemma_plain_number(s, x, y);
    law_digits(x, d);
    law_tenths_are_rounded(a, d);
    assert(("-"@ + x).skip(1) == x);
    assert(("-"@ + s).skip(1) == s);
    assert(magnitude("-"@ + x) == x);
    assert(magnitude("-"@ + s) == s);
    assert(y.len() == 1);
    assert(pow10(1) == 10) by {
        reveal_with_fuel(pow10, 2);
    }
    assert(denominator(x + y, x.len() as int) == 10);
    assert(numerator(x + y, x.len() as int) == 10 * a + d);
    assert(denominator(x, x.len() as int) == 1);
    assert(numerator(x, x.len() as int) == a);
}

/// What is no number: nothing, a point alone, and a text of letters that is no name of one.
pub proof fn law_no_numbers(c: char)
    requires
        !is_digit(c),
    ensures
        !is_number(Seq::empty()),
        !is_number(seq![c]),
{
    let e = Seq::<char>::empty();
    reveal_strlit("inf");
    reveal_strlit("infinity");
    reveal_strlit("nan");
    assert(mantissa(e) == e);
    assert(before_point(e) == e && after_point(e) == e);
    assert(!is_decimal(e));
    assert(!is_number(e));
    let s = seq![c];
    if c == '+' || c == '-' {
        assert(s.skip(1) == e);
    } else {
        assert(magnitude(s) == s);
        if c == 'e' || c == 'E' {
            reveal_with_fuel(index_of_char, 3);
            assert(s.drop_first() == e);
            assert(exponent_at(s) == 0);
            assert(mantissa(s) == e);
            assert(before_point(s) == e && after_point(s) == e);
        } else {
            lemma_index_of_char(s, 'e', 1);
            lemma_index_of_char(s, 'E', 1);
            assert(s.take(1) == s);
            assert(mantissa(s) == s);
            if c == '.' {
                lemma_index_of_char(s, '.', 0);
                assert(s.take(0) == e && s.skip(1) == e);
            } else {
                lemma_index_of_char(s, '.', 1);
                assert(before_point(s) == s);
                assert(!is_digit(s[0]));
            }
        }
    }
}

} // verus!
