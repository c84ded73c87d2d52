//! What a scan for networks finds.

use vstd::prelude::*;

use crate::at::line_laws::{field_text, fields_text};
use crate::at::parser::{
    availability, entry_part, network_of, networks_from, networks_on, scanned_networks,
    technology_name, ScannedNetwork,
};
use crate::text::{
    is_space, lemma_index_of_char, pieces, stripped, stripped_end, stripped_start, trimmed,
    trimmed_start,
};

verus! {

/// A text that can stand as a part of an entry: it holds no comma, no double quote and no
/// parenthesis, and has no white space at its ends.
pub open spec fn fits_part(f: Seq<char>) -> bool {
    &&& !f.contains(',')
    &&& !f.contains('"')
    &&& !f.contains('(')
    &&& !f.contains(')')
    &&& f.len() > 0 ==> !is_space(f[0]) && !is_space(f.last())
}

/// An entry of five parts, of which `q` says which are quoted.
pub open spec fn is_entry(v: Seq<Seq<char>>, q: Seq<bool>) -> bool {
    &&& v.len() == 5
    &&& q.len() == 5
    &&& forall|i: int| 0 <= i < 5 ==> fits_part(#[trigger] v[i])
}

/// Entries as they are written: each in parentheses, with commas between them.
pub open spec fn entries_text(vs: Seq<Seq<Seq<char>>>, qs: Seq<Seq<bool>>) -> Seq<char>
    decreases vs.len(),
{
    if vs.len() == 0 {
        Seq::empty()
    } else {
        let first = seq!['('] + fields_text(vs[0], qs[0]) + seq![')'];
        if vs.len() == 1 {
            first
        } else {
            first + seq![','] + entries_text(vs.skip(1), qs.skip(1))
        }
    }
}

proof fn lemma_part(f: Seq<char>, quote: bool)
    requires
        fits_part(f),
    ensures
        stripped(trimmed(field_text(f, quote)), '"') == f,
        !field_text(f, quote).contains(','),
        !field_text(f, quote).contains('('),
        !field_text(f, quote).contains(')'),
{
    let s = field_text(f, quote);
    assert(trimmed(s) == s);
    if f.len() > 0 {
        assert(f.contains(f[0]));
        assert(f.contains(f[f.len() - 1]));
    }
    assert(stripped_start(f, '"') == f);
    assert(stripped_end(f, '"') == f);
    assert forall|i: int| 0 <= i < s.len() implies s[i] != ',' && s[i] != '(' && s[i] != ')' by {
        if quote && 0 < i < s.len() - 1 {
            assert(s[i] == f[i - 1]);
            assert(f.contains(f[i - 1]));
        }
        if !quote {
            assert(f.contains(f[i]));
        }
    }
    if quote {
        let r = f + seq!['"'];
        assert(s.drop_first() == r);
        assert(stripped_start(s, '"') == stripped_start(r, '"'));
        if f.len() > 0 {
            assert(r[0] == f[0]);
            assert(stripped_start(r, '"') == r);
            assert(r.drop_last() == f);
            assert(r.last() == '"');
            assert(stripped_end(r, '"') == stripped_end(f, '"'));
        } else {
            assert(r.drop_first() == f);
            assert(stripped_start(r, '"') == stripped_start(f, '"'));
        }
    }
}

proof fn lemma_entry_pieces(v: Seq<Seq<char>>, q: Seq<bool>)
    requires
        v.len() > 0,
        q.len() == v.len(),
        forall|i: int| 0 <= i < v.len() ==> fits_part(#[trigger] v[i]),
    ensures
        pieces(fields_text(v, q), ',') == Seq::new(v.len(), |i: int| field_text(v[i], q[i])),
        !fields_text(v, q).contains('('),
        !fields_text(v, q).contains(')'),
    decreases v.len(),
{
    let s = fields_text(v, q);
    let f = field_text(v[0], q[0]);
    assert(fits_part(v[0]));
    lemma_part(v[0], q[0]);
    let all = Seq::new(v.len(), |i: int| field_text(v[i], q[i]));
    assert forall|i: int| 0 <= i < f.len() implies f[i] != ',' && f[i] != '(' && f[i] != ')' by {
        assert(f.contains(f[i]));
    }
    if v.len() == 1 {
        lemma_index_of_char(s, ',', s.len() as int);
        assert(all == seq![f]);
    } else {
        let w = v.skip(1);
        let p = q.skip(1);
        assert forall|i: int| 0 <= i < w.len() implies fits_part(#[trigger] w[i]) by {
            assert(fits_part(v[i + 1]));
        }
        lemma_entry_pieces(w, p);
        let rest = fields_text(w, p);
        assert forall|j: int| 0 <= j < f.len() implies s[j] != ',' by {
            assert(s[j] == f[j]);
        }
        lemma_index_of_char(s, ',', f.len() as int);
        assert(s.take(f.len() as int) == f);
        assert(s.skip(f.len() as int + 1) == rest);
        assert(all == seq![f] + Seq::new(w.len(), |i: int| field_text(w[i], p[i])));
        assert forall|i: int| 0 <= i < s.len() implies s[i] != '(' && s[i] != ')' by {
            if i < f.len() {
                assert(s[i] == f[i]);
            } else if i > f.len() {
                assert(s[i] == rest[i - f.len() - 1]);
                assert(rest.contains(rest[i - f.len() - 1]));
            }
        }
    }
}

/// The network that an entry describes: its state, its name, its short name, its code and its
/// technology, in this order.
pub open spec fn describes(v: Seq<Seq<char>>, n: ScannedNetwork<Seq<char>>) -> bool {
    &&& n.operator == v[1]
    &&& n.short_name == Some(v[2])
    &&& n.mccmnc == v[3]
    &&& n.band.len() == 0
    &&& n.status == "Available"@ <==> v[0] == "1"@
    &&& n.status == "Current"@ <==> v[0] == "2"@
    &&& n.status == "Forbidden"@ <==> v[0] == "3"@
    &&& n.status == "Unknown"@ <==> v[0] != "1"@ && v[0] != "2"@ && v[0] != "3"@
    &&& n.technology == "GSM"@ <==> v[4] == "0"@ || v[4] == "1"@ || v[4] == "3"@
    &&& n.technology == "WCDMA"@ <==> v[4] == "2"@ || v[4] == "4"@ || v[4] == "5"@ || v[4] == "6"@
    &&& n.technology == "LTE"@ <==> v[4] == "7"@
    &&& n.technology == "eMTC"@ <==> v[4] == "8"@
    &&& n.technology == "NB-IoT"@ <==> v[4] == "9"@
    &&& n.technology == "NR5G"@ <==> v[4] == "10"@ || v[4] == "11"@ || v[4] == "12"@ || v[4]
        == "13"@
}

proof fn lemma_availability(s: Seq<char>)
    ensures
        availability(s) == "Available"@ <==> s == "1"@,
        availability(s) == "Current"@ <==> s == "2"@,
        availability(s) == "Forbidden"@ <==> s == "3"@,
        availability(s) == "Unknown"@ <==> s != "1"@ && s != "2"@ && s != "3"@,
{
    reveal_strlit("1");
    reveal_strlit("2");
    reveal_strlit("3");
    reveal_strlit("Available");
    reveal_strlit("Current");
    reveal_strlit("Forbidden");
    reveal_strlit("Unknown");
    assert("1"@[0] == '1' && "2"@[0] == '2' && "3"@[0] == '3');
    assert("Available"@[0] == 'A' && "Current"@[0] == 'C' && "Forbidden"@[0] == 'F'
        && "Unknown"@[0] == 'U');
}

proof fn lemma_technology(s: Seq<char>)
    ensures
        technology_name(s) == "GSM"@ <==> s == "0"@ || s == "1"@ || s == "3"@,
        technology_name(s) == "WCDMA"@ <==> s == "2"@ || s == "4"@ || s == "5"@ || s == "6"@,
        technology_name(s) == "LTE"@ <==> s == "7"@,
        technology_name(s) == "eMTC"@ <==> s == "8"@,
        technology_name(s) == "NB-IoT"@ <==> s == "9"@,
        technology_name(s) == "NR5G"@ <==> s == "10"@ || s == "11"@ || s == "12"@ || s == "13"@,
{
    reveal_strlit("0");
    reveal_strlit("1");
    reveal_strlit("2");
    reveal_strlit("3");
    reveal_strlit("4");
    reveal_strlit("5");
    reveal_strlit("6");
    reveal_strlit("7");
    reveal_strlit("8");
    reveal_strlit("9");
    reveal_strlit("10");
    reveal_strlit("11");
    reveal_strlit("12");
    reveal_strlit("13");
    assert("0"@[0] == '0' && "1"@[0] == '1' && "2"@[0] == '2' && "3"@[0] == '3' && "4"@[0] == '4');
    assert("5"@[0] == '5' && "6"@[0] == '6' && "7"@[0] == '7' && "8"@[0] == '8' && "9"@[0] == '9');
    assert("10"@[1] == '0' && "11"@[1] == '1' && "12"@[1] == '2' && "13"@[1] == '3');
    assert("10"@.len() == 2 && "11"@.len() == 2 && "12"@.len() == 2 && "13"@.len() == 2);
    assert("0"@.len() == 1 && "1"@.len() == 1 && "2"@.len() == 1 && "3"@.len() == 1 && "4"@.len()
        == 1);
    assert("5"@.len() == 1 && "6"@.len() == 1 && "7"@.len() == 1 && "8"@.len() == 1 && "9"@.len()
        == 1);
    reveal_strlit("GSM");
    reveal_strlit("WCDMA");
    reveal_strlit("LTE");
    reveal_strlit("eMTC");
    reveal_strlit("NB-IoT");
    reveal_strlit("NR5G");
    reveal_strlit("Unknown");
    assert("GSM"@[0] == 'G' && "WCDMA"@[0] == 'W' && "LTE"@[0] == 'L' && "eMTC"@[0] == 'e'
        && "Unknown"@[0] == 'U');
    assert("NB-IoT"@[0] == 'N' && "NR5G"@[0] == 'N');
    assert("NB-IoT"@.len() == 6 && "NR5G"@.len() == 4);
}

proof fn lemma_entry(v: Seq<Seq<char>>, q: Seq<bool>)
    requires
        is_entry(v, q),
    ensures
        network_of(fields_text(v, q)) matches Some(n) && describes(v, n),
        !fields_text(v, q).contains('('),
        !fields_text(v, q).contains(')'),
{
    let e = fields_text(v, q);
    lemma_entry_pieces(v, q);
    assert forall|i: int| 0 <= i < 5 implies #[trigger] entry_part(e, i) == v[i] by {
        assert(fits_part(v[i]));
        lemma_part(v[i], q[i]);
    }
    assert(entry_part(e, 0) == v[0] && entry_part(e, 1) == v[1] && entry_part(e, 2) == v[2]
        && entry_part(e, 3) == v[3] && entry_part(e, 4) == v[4]);
    assert(fits_part(v[4]));
    assert(trimmed(v[4]) == v[4]);
    lemma_availability(v[0]);
    lemma_technology(v[4]);
    reveal_strlit("");
}

proof fn lemma_inside(body: Seq<char>, start: int, i: int, end: int)
    requires
        0 <= start <= i <= end < body.len(),
        forall|j: int| i <= j < end ==> body[j] != '(' && body[j] != ')',
        body[end] == ')',
    ensures
        networks_from(body, i, 1, Some(start)) == (match network_of(body.subrange(start, end)) {
            Some(n) => seq![n] + networks_from(body, end + 1, 0, None),
            None => networks_from(body, end + 1, 0, None),
        }),
    decreases end - i,
{
    if i < end {
        lemma_inside(body, start, i + 1, end);
    }
}

proof fn lemma_entries(
    body: Seq<char>,
    i: int,
    vs: Seq<Seq<Seq<char>>>,
    qs: Seq<Seq<bool>>,
)
    requires
        0 <= i <= body.len(),
        body.skip(i) == entries_text(vs, qs),
        qs.len() == vs.len(),
        forall|k: int| 0 <= k < vs.len() ==> is_entry(#[trigger] vs[k], qs[k]),
    ensures
        ({
            let r = networks_from(body, i, 0, None);
            &&& r.len() == vs.len()
            &&& forall|k: int| 0 <= k < vs.len() ==> describes(vs[k], #[trigger] r[k])
        }),
    decreases vs.len(),
{
    let s = body.skip(i);
    if vs.len() == 0 {
        assert(body.len() == i);
    } else {
        assert(is_entry(vs[0], qs[0]));
        lemma_entry(vs[0], qs[0]);
        let e = fields_text(vs[0], qs[0]);
        let end = i + 1 + e.len();
        let first = seq!['('] + e + seq![')'];
        let tail = if vs.len() == 1 {
            Seq::empty()
        } else {
            seq![','] + entries_text(vs.skip(1), qs.skip(1))
        };
        assert(entries_text(vs, qs) == first + tail);
        assert(s == first + tail);
        assert(body.len() == i + s.len());
        assert(s[0] == '(' && body[i] == s[0]);
        assert(s[1 + e.len() as int] == ')' && body[end] == s[1 + e.len() as int]);
        assert forall|j: int| i + 1 <= j < end implies body[j] != '(' && body[j] != ')' by {
            assert(body[j] == s[j - i]);
            assert(s[j - i] == e[j - i - 1]);
            assert(e.contains(e[j - i - 1]));
        }
        assert(body.subrange(i + 1, end) == e) by {
            assert forall|j: int| 0 <= j < e.len() implies body.subrange(i + 1, end)[j] == e[j] by {
                assert(body[i + 1 + j] == s[1 + j]);
            }
        }
        lemma_inside(body, i + 1, i + 1, end);
        let n = network_of(e)->0;
        let rest = networks_from(body, end + 1, 0, None);
        assert(networks_from(body, i, 0, None) == seq![n] + rest);
        let ws = vs.skip(1);
        let ps = qs.skip(1);
        if vs.len() == 1 {
            assert(body.len() == end + 1);
            assert(rest == Seq::<ScannedNetwork<Seq<char>>>::empty());
        } else {
            assert forall|k: int| 0 <= k < ws.len() implies is_entry(#[trigger] ws[k], ps[k]) by {
                assert(is_entry(vs[k + 1], qs[k + 1]));
            }
            assert(body[end + 1] == s[2 + e.len() as int]);
            assert(body[end + 1] == ',');
            assert(body.skip(end + 2) == s.skip(3 + e.len() as int));
            assert(s.skip(3 + e.len() as int) == entries_text(ws, ps));
            lemma_entries(body, end + 2, ws, ps);
            assert(rest == networks_from(body, end + 2, 0, None));
        }
        let r = networks_from(body, i, 0, None);
        assert forall|k: int| 0 <= k < vs.len() implies describes(vs[k], #[trigger] r[k]) by {
            if k > 0 {
                assert(r[k] == rest[k - 1]);
                assert(ws[k - 1] == vs[k]);
            }
        }
    }
}

/// A scan finds every network that is listed, in the order of the list, each as its entry
/// describes it. The states 1, 2 and 3 are told apart, and so are the technologies.
pub proof fn law_scan_finds_every_network(vs: Seq<Seq<Seq<char>>>, qs: Seq<Seq<bool>>)
    requires
        qs.len() == vs.len(),
        forall|k: int| 0 <= k < vs.len() ==> is_entry(#[trigger] vs[k], qs[k]),
    ensures
        ({
            let r = networks_on("+COPS: "@ + entries_text(vs, qs));
            &&& r.len() == vs.len()
            &&& forall|k: int| 0 <= k < vs.len() ==> describes(vs[k], #[trigger] r[k])
        }),
{
    reveal_strlit("+COPS: ");
    reveal_strlit("+COPS:");
    let body = entries_text(vs, qs);
    let line = "+COPS: "@ + body;
    let name = "+COPS:"@;
    if vs.len() > 0 {
        lemma_entries_ends(vs, qs);
        assert(line.last() == body.last());
        assert(trimmed(line) == line);
        assert(name == line.subrange(0, 6));
        assert(line.skip(6) == seq![' '] + body);
        let g = seq![' '] + body;
        assert(g.drop_first() == body);
        assert(trimmed_start(g) == trimmed_start(body));
        assert(trimmed(g) == body);
    } else {
        assert(line == name.push(' '));
        assert(line.drop_last() == name);
        assert(crate::text::trimmed_end(line) == crate::text::trimmed_end(name));
        assert(trimmed(line) == name);
        assert(name == name.subrange(0, 6));
        assert(name.skip(6) == body);
    }
    assert(body.skip(0) == body);
    lemma_entries(body, 0, vs, qs);
}

proof fn lemma_entries_ends(vs: Seq<Seq<Seq<char>>>, qs: Seq<Seq<bool>>)
    requires
        vs.len() > 0,
    ensures
        entries_text(vs, qs).len() > 0,
        entries_text(vs, qs)[0] == '(',
        entries_text(vs, qs).last() == ')',
    decreases vs.len(),
{
    if vs.len() > 1 {
        lemma_entries_ends(vs.skip(1), qs.skip(1));
    }
}

/// The networks of a scan are those of its lines, in their order; other lines than those with the
/// result of the scan name none.
pub proof fn law_scan_lines(a: Seq<Seq<char>>, b: Seq<Seq<char>>, line: Seq<char>)
    ensures
        scanned_networks(a + b) == scanned_networks(a) + scanned_networks(b),
        scanned_networks(seq![line]) == networks_on(line),
        !"+COPS:"@.is_prefix_of(trimmed(line)) ==> networks_on(line).len() == 0,
    decreases b.len(),
{
    reveal_with_fuel(scanned_networks, 2);
    let one = seq![line];
    assert(one.drop_last() == Seq::<Seq<char>>::empty());
    assert(one.last() == line);
    assert(scanned_networks(one) == networks_on(line));
    if b.len() == 0 {
        assert(a + b == a);
        assert(scanned_networks(b) == Seq::<ScannedNetwork<Seq<char>>>::empty());
    } else {
        law_scan_lines(a, b.drop_last(), line);
        assert((a + b).drop_last() == a + b.drop_last());
        assert((a + b).last() == b.last());
    }
}

} // verus!
