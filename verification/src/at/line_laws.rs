//! What is written as a response line is read back, field by field.

use vstd::prelude::*;

use crate::at::line::{fields_from, fields_of, is_data_apn, parsed_line, values_after, ParsedLine};
use crate::at::response::QmbncfgEntry;
use crate::number::{decimal, law_decimal_round_trip, parsed_uint};
use crate::text::{is_space, mentions, same_but_case, trimmed, trimmed_end, trimmed_start};

verus! {

// ---------------------------------------------------------------------------
// Writing lines
// ---------------------------------------------------------------------------

/// A text that can stand as a field: it holds no double quote and has no white space at its ends.
/// Without a quotation round it, it holds no comma either.
pub open spec fn fits_field(f: Seq<char>, quote: bool) -> bool {
    &&& !f.contains('"')
    &&& !quote ==> !f.contains(',')
    &&& f.len() > 0 ==> !is_space(f[0]) && !is_space(f.last())
}

/// The texts can stand as fields, those with a quotation that `q` marks.
pub open spec fn fit_fields(v: Seq<Seq<char>>, q: Seq<bool>) -> bool {
    &&& v.len() > 0
    &&& q.len() == v.len()
    &&& forall|i: int| 0 <= i < v.len() ==> fits_field(#[trigger] v[i], q[i])
}

/// A field as it is written.
pub open spec fn field_text(f: Seq<char>, quote: bool) -> Seq<char> {
    if quote {
        seq!['"'] + f + seq!['"']
    } else {
        f
    }
}

/// Fields as they are written, with commas between them.
pub open spec fn fields_text(v: Seq<Seq<char>>, q: Seq<bool>) -> Seq<char>
    decreases v.len(),
{
    if v.len() == 0 {
        Seq::empty()
    } else if v.len() == 1 {
        field_text(v[0], q[0])
    } else {
        field_text(v[0], q[0]) + seq![','] + fields_text(v.skip(1), q.skip(1))
    }
}

/// A response line: its name, a space and its fields.
pub open spec fn response_line(name: Seq<char>, v: Seq<Seq<char>>, q: Seq<bool>) -> Seq<char> {
    name + seq![' '] + fields_text(v, q)
}

proof fn lemma_read_plain(f: Seq<char>, rest: Seq<char>, current: Seq<char>)
    requires
        !f.contains('"'),
        !f.contains(','),
    ensures
        fields_from(f + rest, current, false) == fields_from(rest, current + f, false),
    decreases f.len(),
{
    if f.len() == 0 {
        assert(f + rest == rest);
        assert(current + f == current);
    } else {
        let s = f + rest;
        let g = f.skip(1);
        assert(f.contains(f[0]));
        assert(s.skip(1) == g + rest);
        assert forall|i: int| 0 <= i < g.len() implies g[i] != '"' && g[i] != ',' by {
            assert(g[i] == f[i + 1]);
            assert(f.contains(f[i + 1]));
        }
        lemma_read_plain(g, rest, current.push(f[0]));
        assert(current.push(f[0]) + g == current + f);
    }
}

proof fn lemma_read_quoted(f: Seq<char>, rest: Seq<char>, current: Seq<char>)
    requires
        !f.contains('"'),
    ensures
        fields_from(f + rest, current, true) == fields_from(rest, current + f, true),
    decreases f.len(),
{
    if f.len() == 0 {
        assert(f + rest == rest);
        assert(current + f == current);
    } else {
        let s = f + rest;
        let g = f.skip(1);
        assert(f.contains(f[0]));
        assert(s.skip(1) == g + rest);
        assert forall|i: int| 0 <= i < g.len() implies g[i] != '"' by {
            assert(g[i] == f[i + 1]);
            assert(f.contains(f[i + 1]));
        }
        lemma_read_quoted(g, rest, current.push(f[0]));
        assert(current.push(f[0]) + g == current + f);
    }
}

proof fn lemma_read_field(f: Seq<char>, quote: bool, rest: Seq<char>)
    requires
        fits_field(f, quote),
    ensures
        fields_from(field_text(f, quote) + rest, Seq::empty(), false) == fields_from(rest, f, false),
        trimmed(f) == f,
{
    let empty = Seq::<char>::empty();
    assert(empty + f == f);
    if quote {
        let s = field_text(f, quote) + rest;
        assert(s[0] == '"');
        assert(s.skip(1) == f + (seq!['"'] + rest));
        lemma_read_quoted(f, seq!['"'] + rest, empty);
        assert((seq!['"'] + rest).skip(1) == rest);
    } else {
        lemma_read_plain(f, rest, empty);
    }
}

/// What is written as fields is read back as those fields, whether or not they are quoted.
pub proof fn law_fields_are_read_back(v: Seq<Seq<char>>, q: Seq<bool>)
    requires
        fit_fields(v, q),
    ensures
        fields_of(fields_text(v, q)) == v,
    decreases v.len(),
{
    assert(fits_field(v[0], q[0]));
    if v.len() == 1 {
        lemma_read_field(v[0], q[0], Seq::empty());
        assert(field_text(v[0], q[0]) + Seq::<char>::empty() == field_text(v[0], q[0]));
        assert(seq![v[0]] == v);
    } else {
        let w = v.skip(1);
        let p = q.skip(1);
        assert forall|i: int| 0 <= i < w.len() implies fits_field(#[trigger] w[i], p[i]) by {
            assert(fits_field(v[i + 1], q[i + 1]));
        }
        law_fields_are_read_back(w, p);
        let rest = seq![','] + fields_text(w, p);
        lemma_read_field(v[0], q[0], rest);
        assert(fields_text(v, q) == field_text(v[0], q[0]) + rest);
        assert(rest.skip(1) == fields_text(w, p));
        assert(seq![v[0]] + w == v);
    }
}

proof fn lemma_fields_text_ends(v: Seq<Seq<char>>, q: Seq<bool>)
    requires
        fit_fields(v, q),
        fields_text(v, q).len() > 0,
    ensures
        !is_space(fields_text(v, q)[0]),
        !is_space(fields_text(v, q).last()),
    decreases v.len(),
{
    assert(fits_field(v[0], q[0]));
    if v.len() > 1 {
        let w = v.skip(1);
        let p = q.skip(1);
        assert forall|i: int| 0 <= i < w.len() implies fits_field(#[trigger] w[i], p[i]) by {
            assert(fits_field(v[i + 1], q[i + 1]));
        }
        if fields_text(w, p).len() > 0 {
            lemma_fields_text_ends(w, p);
        }
    }
}

proof fn lemma_trimmed_gap(s: Seq<char>)
    requires
        s.len() > 0 ==> !is_space(s[0]) && !is_space(s.last()),
    ensures
        trimmed(seq![' '] + s) == s,
{
    let t = seq![' '] + s;
    assert(t.drop_first() == s);
    assert(trimmed_start(t) == trimmed_start(s));
}

/// A response line that is written with its name is recognized by it and gives its fields.
pub proof fn lemma_line(name: Seq<char>, v: Seq<Seq<char>>, q: Seq<bool>)
    requires
        fit_fields(v, q),
        name.len() > 0,
        !is_space(name[0]),
        !is_space(name.last()),
    ensures
        ({
            let t = trimmed(response_line(name, v, q));
            &&& name.is_prefix_of(t)
            &&& values_after(t, name) == Some(v)
        }),
{
    let body = fields_text(v, q);
    let line = response_line(name, v, q);
    let t = trimmed(line);
    law_fields_are_read_back(v, q);
    if body.len() > 0 {
        lemma_fields_text_ends(v, q);
        assert(line.last() == body.last());
        assert(t == line);
        assert(t.skip(name.len() as int) == seq![' '] + body);
        assert(name == t.subrange(0, name.len() as int));
        lemma_trimmed_gap(body);
    } else {
        assert(body == Seq::<char>::empty());
        assert(line == name.push(' '));
        assert(line.drop_last() == name);
        assert(trimmed_end(line) == trimmed_end(name));
        assert(t == name);
        assert(name == t.subrange(0, name.len() as int));
        assert(t.skip(name.len() as int) == Seq::<char>::empty());
    }
}

proof fn lemma_prefix_chars(n: Seq<char>, t: Seq<char>)
    requires
        n.len() >= 5,
    ensures
        n.is_prefix_of(t) ==> t.len() >= n.len() && t[0] == n[0] && t[1] == n[1] && t[2] == n[2]
            && t[3] == n[3] && t[4] == n[4],
{
    if n.is_prefix_of(t) {
        let p = t.subrange(0, n.len() as int);
        assert(p[0] == t[0] && p[1] == t[1] && p[2] == t[2] && p[3] == t[3] && p[4] == t[4]);
    }
}

/// A text begins with the name of at most one kind of line, which the characters after the plus
/// sign tell apart.
proof fn lemma_one_name(t: Seq<char>, name: Seq<char>)
    requires
        name.is_prefix_of(t),
        name.len() >= 5,
        name[0] == '+',
    ensures
        t.len() > 0,
        t != "OK"@,
        !(name[1] == 'C' && name[2] == 'M') ==> !crate::at::line::is_error_line(t),
        values_after(t, "+QENG:"@) is Some ==> name[1] == 'Q' && name[2] == 'E' && name[3] == 'N'
            && name[4] == 'G',
        values_after(t, "+QMBNCFG:"@) is Some ==> name[1] == 'Q' && name[2] == 'M' && name[3] == 'B'
            && name[4] == 'N',
        values_after(t, "+CPIN:"@) is Some ==> name[1] == 'C' && name[2] == 'P' && name[3] == 'I'
            && name[4] == 'N',
        values_after(t, "+QUIMSLOT:"@) is Some ==> name[1] == 'Q' && name[2] == 'U' && name[3] == 'I'
            && name[4] == 'M',
        values_after(t, "+QSPN:"@) is Some ==> name[1] == 'Q' && name[2] == 'S' && name[3] == 'P'
            && name[4] == 'N',
        values_after(t, "+COPS:"@) is Some ==> name[1] == 'C' && name[2] == 'O' && name[3] == 'P'
            && name[4] == 'S',
        values_after(t, "+CGDCONT:"@) is Some ==> name[1] == 'C' && name[2] == 'G' && name[3] == 'D'
            && name[4] == 'C',
        values_after(t, "+QGDNRCNT:"@) is Some ==> name[1] == 'Q' && name[2] == 'G' && name[3] == 'D'
            && name[4] == 'N',
        values_after(t, "+QGDAT:"@) is Some ==> name[1] == 'Q' && name[2] == 'G' && name[3] == 'D'
            && name[4] == 'A',
        values_after(t, "+CGPADDR:"@) is Some ==> name[1] == 'C' && name[2] == 'G' && name[3] == 'P'
            && name[4] == 'A',
        values_after(t, "+QCAINFO:"@) is Some ==> name[1] == 'Q' && name[2] == 'C' && name[3] == 'A'
            && name[4] == 'I',
        values_after(t, "+CNUM:"@) is Some ==> name[1] == 'C' && name[2] == 'N' && name[3] == 'U'
            && name[4] == 'M',
        values_after(t, "+QCCID:"@) is Some ==> name[1] == 'Q' && name[2] == 'C' && name[3] == 'C'
            && name[4] == 'I',
        values_after(t, "+CIMI:"@) is Some ==> name[1] == 'C' && name[2] == 'I' && name[3] == 'M'
            && name[4] == 'I',
        values_after(t, "+QTEMP:"@) is Some ==> name[1] == 'Q' && name[2] == 'T' && name[3] == 'E'
            && name[4] == 'M',
{
    lemma_prefix_chars(name, t);
    reveal_strlit("OK");
    reveal_strlit("ERROR");
    reveal_strlit("+CME ERROR:");
    reveal_strlit("+CMS ERROR:");
    lemma_prefix_chars("+CME ERROR:"@, t);
    lemma_prefix_chars("+CMS ERROR:"@, t);
    assert("ERROR"@[0] == 'E');
    reveal_strlit("+QENG:");
    lemma_prefix_chars("+QENG:"@, t);
    reveal_strlit("+QMBNCFG:");
    lemma_prefix_chars("+QMBNCFG:"@, t);
    reveal_strlit("+CPIN:");
    lemma_prefix_chars("+CPIN:"@, t);
    reveal_strlit("+QUIMSLOT:");
    lemma_prefix_chars("+QUIMSLOT:"@, t);
    reveal_strlit("+QSPN:");
    lemma_prefix_chars("+QSPN:"@, t);
    reveal_strlit("+COPS:");
    lemma_prefix_chars("+COPS:"@, t);
    reveal_strlit("+CGDCONT:");
    lemma_prefix_chars("+CGDCONT:"@, t);
    reveal_strlit("+QGDNRCNT:");
    lemma_prefix_chars("+QGDNRCNT:"@, t);
    reveal_strlit("+QGDAT:");
    lemma_prefix_chars("+QGDAT:"@, t);
    reveal_strlit("+CGPADDR:");
    lemma_prefix_chars("+CGPADDR:"@, t);
    reveal_strlit("+QCAINFO:");
    lemma_prefix_chars("+QCAINFO:"@, t);
    reveal_strlit("+CNUM:");
    lemma_prefix_chars("+CNUM:"@, t);
    reveal_strlit("+QCCID:");
    lemma_prefix_chars("+QCCID:"@, t);
    reveal_strlit("+CIMI:");
    lemma_prefix_chars("+CIMI:"@, t);
    reveal_strlit("+QTEMP:");
    lemma_prefix_chars("+QTEMP:"@, t);
}

// ---------------------------------------------------------------------------
// Reading lines
// ---------------------------------------------------------------------------

/// The field at position `i`; the empty text where the line ends before it.
pub open spec fn nth(v: Seq<Seq<char>>, i: int) -> Seq<char> {
    if i < v.len() {
        v[i]
    } else {
        Seq::empty()
    }
}

/// The field at position `i`, where the line has one.
pub open spec fn opt_nth(v: Seq<Seq<char>>, i: int) -> Option<Seq<char>> {
    if i < v.len() {
        Some(v[i])
    } else {
        None
    }
}

/// The serving cell of a standalone NR connection: `"servingcell",state,"NR5G-SA",duplex,MCC,MNC,
/// cell,PCI,TAC,ARFCN,band,bandwidth,RSRP,RSRQ,SINR,srxlev,RSSI`.
pub proof fn law_nr_serving_cell_line(v: Seq<Seq<char>>, q: Seq<bool>)
    requires
        fit_fields(v, q),
        v[0] == "servingcell"@,
        mentions(nth(v, 2), "NR5G"@),
    ensures
        parsed_line(response_line("+QENG:"@, v, q)) matches Some(ParsedLine::QengServingCell(c)) && ({
            &&& c.connection_status == nth(v, 1)
            &&& c.rat == nth(v, 2)
            &&& c.opmode == nth(v, 3)
            &&& c.mcc == nth(v, 4)
            &&& c.mnc == nth(v, 5)
            &&& c.cell_id == nth(v, 6)
            &&& c.pci == nth(v, 7)
            &&& c.tac == nth(v, 8)
            &&& c.earfcn == nth(v, 9)
            &&& c.band == nth(v, 10)
            &&& c.bandwidth == nth(v, 11)
            &&& c.rsrp == nth(v, 12)
            &&& c.rsrq == nth(v, 13)
            &&& c.sinr == nth(v, 14)
            &&& c.srxlev == nth(v, 15)
            &&& c.rssi == nth(v, 16)
        }),
{
    reveal_strlit("+QENG:");
    let t = trimmed(response_line("+QENG:"@, v, q));
    lemma_line("+QENG:"@, v, q);
    lemma_one_name(t, "+QENG:"@);
    reveal_strlit("servingcell");
    reveal_strlit("LTE");
    reveal_strlit("NR5G-NSA");
    reveal_strlit("neighbourcell");
    assert("servingcell"@.len() == 11 && "LTE"@.len() == 3 && "NR5G-NSA"@.len() == 8
        && "neighbourcell"@.len() == 13);
}

/// The serving cell of a standalone LTE connection: `"servingcell",state,"LTE",duplex,MCC,MNC,cell,
/// PCI,EARFCN,band,uplink,downlink,TAC,RSRP,RSRQ,RSSI,SINR`. The bandwidth is that of the downlink.
pub proof fn law_lte_serving_cell_line(v: Seq<Seq<char>>, q: Seq<bool>)
    requires
        fit_fields(v, q),
        v[0] == "servingcell"@,
        !mentions(nth(v, 2), "NR5G"@),
    ensures
        parsed_line(response_line("+QENG:"@, v, q)) matches Some(ParsedLine::QengServingCell(c)) && ({
            &&& c.connection_status == nth(v, 1)
            &&& c.rat == nth(v, 2)
            &&& c.opmode == nth(v, 3)
            &&& c.mcc == nth(v, 4)
            &&& c.mnc == nth(v, 5)
            &&& c.cell_id == nth(v, 6)
            &&& c.pci == nth(v, 7)
            &&& c.earfcn == nth(v, 8)
            &&& c.band == nth(v, 9)
            &&& c.bandwidth == nth(v, 11)
            &&& c.tac == nth(v, 12)
            &&& c.rsrp == nth(v, 13)
            &&& c.rsrq == nth(v, 14)
            &&& c.rssi == nth(v, 15)
            &&& c.sinr == nth(v, 16)
            &&& c.srxlev.len() == 0
        }),
{
    reveal_strlit("+QENG:");
    let t = trimmed(response_line("+QENG:"@, v, q));
    lemma_line("+QENG:"@, v, q);
    lemma_one_name(t, "+QENG:"@);
    reveal_strlit("servingcell");
    reveal_strlit("LTE");
    reveal_strlit("NR5G-NSA");
    reveal_strlit("neighbourcell");
    assert("servingcell"@.len() == 11 && "LTE"@.len() == 3 && "NR5G-NSA"@.len() == 8
        && "neighbourcell"@.len() == 13);
}

/// The LTE anchor of a non-standalone connection: `"LTE",duplex,MCC,MNC,cell,PCI,EARFCN,band,uplink,
/// downlink,TAC,RSRP,RSRQ,RSSI,SINR,srxlev`.
pub proof fn law_anchor_cell_line(v: Seq<Seq<char>>, q: Seq<bool>)
    requires
        fit_fields(v, q),
        v[0] == "LTE"@,
    ensures
        parsed_line(response_line("+QENG:"@, v, q)) matches Some(ParsedLine::QengServingCell(c)) && ({
            &&& c.rat == "LTE"@
            &&& c.opmode == nth(v, 1)
            &&& c.mcc == nth(v, 2)
            &&& c.mnc == nth(v, 3)
            &&& c.cell_id == nth(v, 4)
            &&& c.pci == nth(v, 5)
            &&& c.earfcn == nth(v, 6)
            &&& c.band == nth(v, 7)
            &&& c.bandwidth == nth(v, 9)
            &&& c.tac == nth(v, 10)
            &&& c.rsrp == nth(v, 11)
            &&& c.rsrq == nth(v, 12)
            &&& c.rssi == nth(v, 13)
            &&& c.sinr == nth(v, 14)
            &&& c.srxlev == nth(v, 15)
            &&& c.connection_status.len() == 0
        }),
{
    reveal_strlit("+QENG:");
    let t = trimmed(response_line("+QENG:"@, v, q));
    lemma_line("+QENG:"@, v, q);
    lemma_one_name(t, "+QENG:"@);
    reveal_strlit("servingcell");
    reveal_strlit("LTE");
    reveal_strlit("NR5G-NSA");
    reveal_strlit("neighbourcell");
    assert("servingcell"@.len() == 11 && "LTE"@.len() == 3 && "NR5G-NSA"@.len() == 8
        && "neighbourcell"@.len() == 13);
}

/// The NR carrier of a non-standalone connection: `"NR5G-NSA",MCC,MNC,PCI,RSRP,SINR,RSRQ,ARFCN,band,
/// bandwidth`. It has no identity and no tracking area of its own.
pub proof fn law_secondary_cell_line(v: Seq<Seq<char>>, q: Seq<bool>)
    requires
        fit_fields(v, q),
        v[0] == "NR5G-NSA"@,
    ensures
        parsed_line(response_line("+QENG:"@, v, q)) matches Some(ParsedLine::QengServingCell(c)) && ({
            &&& c.rat == "NR5G-NSA"@
            &&& c.mcc == nth(v, 1)
            &&& c.mnc == nth(v, 2)
            &&& c.pci == nth(v, 3)
            &&& c.rsrp == nth(v, 4)
            &&& c.sinr == nth(v, 5)
            &&& c.rsrq == nth(v, 6)
            &&& c.earfcn == nth(v, 7)
            &&& c.band == nth(v, 8)
            &&& c.bandwidth == nth(v, 9)
            &&& c.connection_status.len() == 0
            &&& c.opmode.len() == 0
            &&& c.cell_id.len() == 0
            &&& c.tac.len() == 0
            &&& c.srxlev.len() == 0
            &&& c.rssi.len() == 0
        }),
{
    reveal_strlit("+QENG:");
    let t = trimmed(response_line("+QENG:"@, v, q));
    lemma_line("+QENG:"@, v, q);
    lemma_one_name(t, "+QENG:"@);
    reveal_strlit("servingcell");
    reveal_strlit("LTE");
    reveal_strlit("NR5G-NSA");
    reveal_strlit("neighbourcell");
    assert("servingcell"@.len() == 11 && "LTE"@.len() == 3 && "NR5G-NSA"@.len() == 8
        && "neighbourcell"@.len() == 13);
}

/// A neighbour cell: `"neighbourcell",technology,MCC,MNC,PCI,channel,RSRP,RSRQ,SINR,srxlev`.
pub proof fn law_neighbour_cell_line(v: Seq<Seq<char>>, q: Seq<bool>)
    requires
        fit_fields(v, q),
        v[0] == "neighbourcell"@,
    ensures
        parsed_line(response_line("+QENG:"@, v, q)) matches Some(ParsedLine::QengNeighbourCell(c)) && ({
            &&& c.rat == nth(v, 1)
            &&& c.mcc == nth(v, 2)
            &&& c.mnc == nth(v, 3)
            &&& c.pci == nth(v, 4)
            &&& c.earfcn == nth(v, 5)
            &&& c.rsrp == nth(v, 6)
            &&& c.rsrq == nth(v, 7)
            &&& c.sinr == nth(v, 8)
            &&& c.srxlev == nth(v, 9)
        }),
{
    reveal_strlit("+QENG:");
    let t = trimmed(response_line("+QENG:"@, v, q));
    lemma_line("+QENG:"@, v, q);
    lemma_one_name(t, "+QENG:"@);
    reveal_strlit("servingcell");
    reveal_strlit("LTE");
    reveal_strlit("NR5G-NSA");
    reveal_strlit("neighbourcell");
    assert("servingcell"@.len() == 11 && "LTE"@.len() == 3 && "NR5G-NSA"@.len() == 8
        && "neighbourcell"@.len() == 13);
}

/// A carrier: `component,channel,bandwidth,band` and the cell. A secondary carrier has its index
/// before the cell, and RSRP, RSRQ and SINR after it; another has none of these.
pub proof fn law_carrier_line(v: Seq<Seq<char>>, q: Seq<bool>)
    requires
        fit_fields(v, q),
    ensures
        parsed_line(response_line("+QCAINFO:"@, v, q)) matches Some(ParsedLine::Qcainfo(e)) && ({
            &&& e.component == nth(v, 0)
            &&& e.earfcn == nth(v, 1)
            &&& e.bandwidth == nth(v, 2)
            &&& e.band == nth(v, 3)
            &&& v[0] == "SCC"@ ==> e.scc_idx == opt_nth(v, 4) && e.pci == nth(v, 5) && e.rsrp == opt_nth(v, 6)
                && e.rsrq == opt_nth(v, 7) && e.sinr == opt_nth(v, 8)
            &&& v[0] != "SCC"@ ==> e.pci == nth(v, 4) && e.scc_idx is None && e.rsrp is None && e.rsrq is None
                && e.sinr is None
        }),
{
    reveal_strlit("+QCAINFO:");
    let t = trimmed(response_line("+QCAINFO:"@, v, q));
    lemma_line("+QCAINFO:"@, v, q);
    lemma_one_name(t, "+QCAINFO:"@);
}

/// The state of the SIM is the first field of its line.
pub proof fn law_card_state_line(v: Seq<Seq<char>>, q: Seq<bool>)
    requires
        fit_fields(v, q),
    ensures
        parsed_line(response_line("+CPIN:"@, v, q)) matches Some(ParsedLine::Cpin(c)) && ({
            &&& c.status == v[0]
        }),
{
    reveal_strlit("+CPIN:");
    let t = trimmed(response_line("+CPIN:"@, v, q));
    lemma_line("+CPIN:"@, v, q);
    lemma_one_name(t, "+CPIN:"@);
}

/// The SIM slot is the number in the first field of its line.
pub proof fn law_slot_line(v: Seq<Seq<char>>, q: Seq<bool>, slot: u32)
    requires
        fit_fields(v, q),
        v[0] == decimal(slot as nat),
    ensures
        parsed_line(response_line("+QUIMSLOT:"@, v, q)) matches Some(ParsedLine::Quimslot(s)) && ({
            &&& s.slot == slot
        }),
{
    reveal_strlit("+QUIMSLOT:");
    let t = trimmed(response_line("+QUIMSLOT:"@, v, q));
    lemma_line("+QUIMSLOT:"@, v, q);
    lemma_one_name(t, "+QUIMSLOT:"@);
    law_decimal_round_trip(slot as nat, u32::MAX as nat);
}

/// The subscriber number is the second field of its line.
pub proof fn law_number_line(v: Seq<Seq<char>>, q: Seq<bool>)
    requires
        fit_fields(v, q),
    ensures
        parsed_line(response_line("+CNUM:"@, v, q)) matches Some(ParsedLine::Cnum(c)) && ({
            &&& c.number == nth(v, 1)
        }),
{
    reveal_strlit("+CNUM:");
    let t = trimmed(response_line("+CNUM:"@, v, q));
    lemma_line("+CNUM:"@, v, q);
    lemma_one_name(t, "+CNUM:"@);
}

/// The identity of the card is the first field of its line.
pub proof fn law_card_identity_line(v: Seq<Seq<char>>, q: Seq<bool>)
    requires
        fit_fields(v, q),
    ensures
        parsed_line(response_line("+QCCID:"@, v, q)) matches Some(ParsedLine::Qccid(s)) && ({
            &&& s == v[0]
        }),
{
    reveal_strlit("+QCCID:");
    let t = trimmed(response_line("+QCCID:"@, v, q));
    lemma_line("+QCCID:"@, v, q);
    lemma_one_name(t, "+QCCID:"@);
}

/// The identity of the subscriber is the first field of its line.
pub proof fn law_subscriber_line(v: Seq<Seq<char>>, q: Seq<bool>)
    requires
        fit_fields(v, q),
    ensures
        parsed_line(response_line("+CIMI:"@, v, q)) matches Some(ParsedLine::Cimi(s)) && ({
            &&& s == v[0]
        }),
{
    reveal_strlit("+CIMI:");
    let t = trimmed(response_line("+CIMI:"@, v, q));
    lemma_line("+CIMI:"@, v, q);
    lemma_one_name(t, "+CIMI:"@);
}

/// The operator: `mode,format,operator,technology`, of which only the mode is always there.
pub proof fn law_operator_line(v: Seq<Seq<char>>, q: Seq<bool>)
    requires
        fit_fields(v, q),
    ensures
        parsed_line(response_line("+COPS:"@, v, q)) matches Some(ParsedLine::Cops(c)) && ({
            &&& c.mode == v[0]
            &&& c.format == opt_nth(v, 1)
            &&& c.oper == opt_nth(v, 2)
            &&& c.act == opt_nth(v, 3)
        }),
{
    reveal_strlit("+COPS:");
    let t = trimmed(response_line("+COPS:"@, v, q));
    lemma_line("+COPS:"@, v, q);
    lemma_one_name(t, "+COPS:"@);
}

/// The names of the network: `full,short,provider,alphabet`. A full name in UCS-2 digits is decoded,
/// any other stays as it is.
pub proof fn law_network_name_line(v: Seq<Seq<char>>, q: Seq<bool>)
    requires
        fit_fields(v, q),
    ensures
        parsed_line(response_line("+QSPN:"@, v, q)) matches Some(ParsedLine::Qspn(n)) && ({
            &&& crate::at::utils::ucs2_text(v[0]).len() == 0 ==> n.fnn == v[0]
            &&& crate::at::utils::ucs2_text(v[0]).len() > 0 ==> n.fnn == crate::at::utils::ucs2_text(v[0])
            &&& n.snn == nth(v, 1)
            &&& n.spn == nth(v, 2)
            &&& n.alphabet == nth(v, 3)
        }),
{
    reveal_strlit("+QSPN:");
    let t = trimmed(response_line("+QSPN:"@, v, q));
    lemma_line("+QSPN:"@, v, q);
    lemma_one_name(t, "+QSPN:"@);
}

/// A data context: `number,type,access point,address,data compression,header compression`.
pub proof fn law_context_line(v: Seq<Seq<char>>, q: Seq<bool>, cid: u32)
    requires
        fit_fields(v, q),
        v[0] == decimal(cid as nat),
    ensures
        parsed_line(response_line("+CGDCONT:"@, v, q)) matches Some(ParsedLine::Cgdcont(e)) && ({
            &&& e.cid == cid
            &&& e.pdp_type == nth(v, 1)
            &&& e.apn == nth(v, 2)
            &&& e.pdp_addr == nth(v, 3)
            &&& e.d_comp == nth(v, 4)
            &&& e.h_comp == nth(v, 5)
        }),
{
    reveal_strlit("+CGDCONT:");
    let t = trimmed(response_line("+CGDCONT:"@, v, q));
    lemma_line("+CGDCONT:"@, v, q);
    lemma_one_name(t, "+CGDCONT:"@);
    law_decimal_round_trip(cid as nat, u32::MAX as nat);
}

/// The addresses of a data context: `number,IPv4,IPv6`.
pub proof fn law_address_line(v: Seq<Seq<char>>, q: Seq<bool>, cid: u32)
    requires
        fit_fields(v, q),
        v[0] == decimal(cid as nat),
    ensures
        parsed_line(response_line("+CGPADDR:"@, v, q)) matches Some(ParsedLine::Cgpaddr(e)) && ({
            &&& e.cid == cid
            &&& e.ipv4 == nth(v, 1)
            &&& e.ipv6 == nth(v, 2)
        }),
{
    reveal_strlit("+CGPADDR:");
    let t = trimmed(response_line("+CGPADDR:"@, v, q));
    lemma_line("+CGPADDR:"@, v, q);
    lemma_one_name(t, "+CGPADDR:"@);
    law_decimal_round_trip(cid as nat, u32::MAX as nat);
}

/// A reading of a sensor: `sensor,temperature`. What is no number is no reading.
pub proof fn law_temperature_line(v: Seq<Seq<char>>, q: Seq<bool>)
    requires
        fit_fields(v, q),
    ensures
        parsed_line(response_line("+QTEMP:"@, v, q)) matches Some(ParsedLine::Qtemp(r)) && ({
            &&& r.sensor == v[0]
            &&& v.len() > 1 && crate::at::reading::is_number(v[1]) ==> r.temperature == Some(v[1])
            &&& v.len() == 1 || !crate::at::reading::is_number(v[1]) ==> r.temperature is None
        }),
{
    reveal_strlit("+QTEMP:");
    let t = trimmed(response_line("+QTEMP:"@, v, q));
    lemma_line("+QTEMP:"@, v, q);
    lemma_one_name(t, "+QTEMP:"@);
}

/// The traffic counters of NR: `sent,received`.
pub proof fn law_nr_traffic_line(v: Seq<Seq<char>>, q: Seq<bool>, sent: u64, received: u64)
    requires
        fit_fields(v, q),
        v.len() > 1,
        v[0] == decimal(sent as nat),
        v[1] == decimal(received as nat),
    ensures
        parsed_line(response_line("+QGDNRCNT:"@, v, q)) matches Some(ParsedLine::TrafficStats(s)) && ({
            &&& s.tx_bytes == sent
            &&& s.rx_bytes == received
        }),
{
    reveal_strlit("+QGDNRCNT:");
    let t = trimmed(response_line("+QGDNRCNT:"@, v, q));
    lemma_line("+QGDNRCNT:"@, v, q);
    lemma_one_name(t, "+QGDNRCNT:"@);
    law_decimal_round_trip(sent as nat, u64::MAX as nat);
    law_decimal_round_trip(received as nat, u64::MAX as nat);
}

/// The traffic counters of LTE: `sent,received`.
pub proof fn law_lte_traffic_line(v: Seq<Seq<char>>, q: Seq<bool>, sent: u64, received: u64)
    requires
        fit_fields(v, q),
        v.len() > 1,
        v[0] == decimal(sent as nat),
        v[1] == decimal(received as nat),
    ensures
        parsed_line(response_line("+QGDAT:"@, v, q)) matches Some(ParsedLine::TrafficStats(s)) && ({
            &&& s.tx_bytes == sent
            &&& s.rx_bytes == received
        }),
{
    reveal_strlit("+QGDAT:");
    let t = trimmed(response_line("+QGDAT:"@, v, q));
    lemma_line("+QGDAT:"@, v, q);
    lemma_one_name(t, "+QGDAT:"@);
    law_decimal_round_trip(sent as nat, u64::MAX as nat);
    law_decimal_round_trip(received as nat, u64::MAX as nat);
}

/// A carrier configuration in the three layouts that firmware writes after `"List",index`: with
/// `state,status,name`, with `state,name` and with `name,state`. One without a name says nothing.
pub proof fn law_configuration_line(v: Seq<Seq<char>>, q: Seq<bool>, index: u32, state: u32)
    requires
        fit_fields(v, q),
        v[0] == "List"@,
        v.len() >= 4,
        v[1] == decimal(index as nat),
    ensures
        ({
            let r = parsed_line(response_line("+QMBNCFG:"@, v, q));
            let whole = v.len() >= 5 && parsed_uint(v[3], u32::MAX as nat) is Some;
            let found = |name: Seq<char>|
                if name.len() > 0 {
                    Some(ParsedLine::Qmbncfg(QmbncfgEntry { index, state, name }))
                } else {
                    None
                };
            &&& v[2] == decimal(state as nat) && whole ==> r == found(v[4])
            &&& v[2] == decimal(state as nat) && !whole ==> r == found(v[3])
            &&& parsed_uint(v[2], u32::MAX as nat) is None && !whole && v[3] == decimal(state as nat)
                ==> r == found(v[2])
        }),
{
    reveal_strlit("+QMBNCFG:");
    let t = trimmed(response_line("+QMBNCFG:"@, v, q));
    lemma_line("+QMBNCFG:"@, v, q);
    lemma_one_name(t, "+QMBNCFG:"@);
    law_decimal_round_trip(index as nat, u32::MAX as nat);
    law_decimal_round_trip(state as nat, u32::MAX as nat);
}

/// The result codes: `OK` is a success; `ERROR`, and a numbered or worded error of the equipment
/// or the message service, is a failure.
pub proof fn law_result_codes(detail: Seq<char>)
    ensures
        parsed_line("OK"@) == Some(ParsedLine::<Seq<char>>::Okay),
        parsed_line("ERROR"@) == Some(ParsedLine::<Seq<char>>::Error),
        parsed_line("+CME ERROR:"@ + detail) == Some(ParsedLine::<Seq<char>>::Error),
        parsed_line("+CMS ERROR:"@ + detail) == Some(ParsedLine::<Seq<char>>::Error),
{
    reveal_strlit("OK");
    reveal_strlit("ERROR");
    reveal_strlit("+CME ERROR:");
    reveal_strlit("+CMS ERROR:");
    assert(trimmed("OK"@) == "OK"@);
    assert(trimmed("ERROR"@) == "ERROR"@);
    assert("OK"@.len() == 2 && "ERROR"@.len() == 5);
    lemma_trimmed_keeps_start("+CME ERROR:"@, detail);
    lemma_trimmed_keeps_start("+CMS ERROR:"@, detail);
    let a = trimmed("+CME ERROR:"@ + detail);
    let b = trimmed("+CMS ERROR:"@ + detail);
    assert(a.len() >= 11 && b.len() >= 11);
}

proof fn lemma_trimmed_end_keeps_start(p: Seq<char>, s: Seq<char>)
    requires
        p.len() > 0,
        !is_space(p.last()),
    ensures
        p.is_prefix_of(trimmed_end(p + s)),
    decreases s.len(),
{
    let t = p + s;
    if s.len() == 0 {
        assert(t == p);
        assert(p == p.subrange(0, p.len() as int));
    } else {
        assert(t.last() == s.last());
        assert(t.drop_last() == p + s.drop_last());
        if is_space(s.last()) {
            lemma_trimmed_end_keeps_start(p, s.drop_last());
        } else {
            assert(p == t.subrange(0, p.len() as int));
        }
    }
}

proof fn lemma_trimmed_keeps_start(p: Seq<char>, s: Seq<char>)
    requires
        p.len() > 0,
        !is_space(p[0]),
        !is_space(p.last()),
    ensures
        p.is_prefix_of(trimmed(p + s)),
        trimmed(p + s).len() >= p.len(),
{
    assert((p + s)[0] == p[0]);
    assert(trimmed_start(p + s) == p + s);
    lemma_trimmed_end_keeps_start(p, s);
}

/// A line that has no name is passed on as it is, without the white space around it, unless it is
/// empty or a result code.
pub proof fn law_line_without_name(line: Seq<char>)
    requires
        trimmed(line).len() > 0,
        trimmed(line)[0] != '+',
        trimmed(line) != "OK"@,
        trimmed(line) != "ERROR"@,
    ensures
        parsed_line(line) == Some(ParsedLine::Other(trimmed(line))),
{
    let t = trimmed(line);
    reveal_strlit("+CME ERROR:");
    lemma_prefix_chars("+CME ERROR:"@, t);
    reveal_strlit("+CMS ERROR:");
    lemma_prefix_chars("+CMS ERROR:"@, t);
    reveal_strlit("+QENG:");
    lemma_prefix_chars("+QENG:"@, t);
    reveal_strlit("+QMBNCFG:");
    lemma_prefix_chars("+QMBNCFG:"@, t);
    reveal_strlit("+CPIN:");
    lemma_prefix_chars("+CPIN:"@, t);
    reveal_strlit("+QUIMSLOT:");
    lemma_prefix_chars("+QUIMSLOT:"@, t);
    reveal_strlit("+QSPN:");
    lemma_prefix_chars("+QSPN:"@, t);
    reveal_strlit("+COPS:");
    lemma_prefix_chars("+COPS:"@, t);
    reveal_strlit("+CGDCONT:");
    lemma_prefix_chars("+CGDCONT:"@, t);
    reveal_strlit("+QGDNRCNT:");
    lemma_prefix_chars("+QGDNRCNT:"@, t);
    reveal_strlit("+QGDAT:");
    lemma_prefix_chars("+QGDAT:"@, t);
    reveal_strlit("+CGPADDR:");
    lemma_prefix_chars("+CGPADDR:"@, t);
    reveal_strlit("+QCAINFO:");
    lemma_prefix_chars("+QCAINFO:"@, t);
    reveal_strlit("+CNUM:");
    lemma_prefix_chars("+CNUM:"@, t);
    reveal_strlit("+QCCID:");
    lemma_prefix_chars("+QCCID:"@, t);
    reveal_strlit("+CIMI:");
    lemma_prefix_chars("+CIMI:"@, t);
    reveal_strlit("+QTEMP:");
    lemma_prefix_chars("+QTEMP:"@, t);
}

/// An access point carries data if it has a name that is no placeholder, does not begin with
/// `apn` and is not, in whatever case, `ims`.
pub proof fn law_data_access_point(apn: Seq<char>)
    ensures
        is_data_apn(apn) ==> apn.len() > 0,
        mentions(apn, "placeholder"@) ==> !is_data_apn(apn),
        "apn"@.is_prefix_of(apn) ==> !is_data_apn(apn),
        same_but_case(apn, "ims"@) ==> !is_data_apn(apn),
        apn.len() > 0 && !is_data_apn(apn) ==> mentions(apn, "placeholder"@) || "apn"@.is_prefix_of(
            apn,
        ) || same_but_case(apn, "ims"@),
{
}

/// A line of white space says nothing.
pub proof fn law_empty_line(line: Seq<char>)
    requires
        trimmed(line).len() == 0,
    ensures
        parsed_line(line) is None,
{
}

/// A number that cannot be read is none: slot 1, context 0, and nothing sent or received. Each of
/// two counters is read on its own.
pub proof fn law_unreadable_numbers(v: Seq<Seq<char>>, q: Seq<bool>, n: u64)
    requires
        fit_fields(v, q),
    ensures
        parsed_uint(v[0], u32::MAX as nat) is None ==> {
            &&& parsed_line(response_line("+QUIMSLOT:"@, v, q)) matches Some(ParsedLine::Quimslot(s))
                && s.slot == 1
            &&& parsed_line(response_line("+CGDCONT:"@, v, q)) matches Some(ParsedLine::Cgdcont(e))
                && e.cid == 0
            &&& parsed_line(response_line("+CGPADDR:"@, v, q)) matches Some(ParsedLine::Cgpaddr(e))
                && e.cid == 0
        },
        parsed_line(response_line("+QGDNRCNT:"@, v, q)) matches Some(ParsedLine::TrafficStats(s)) && ({
            &&& parsed_uint(v[0], u64::MAX as nat) is None ==> s.tx_bytes == 0
            &&& v[0] == decimal(n as nat) ==> s.tx_bytes == n
            &&& v.len() == 1 || parsed_uint(v[1], u64::MAX as nat) is None ==> s.rx_bytes == 0
            &&& v.len() > 1 && v[1] == decimal(n as nat) ==> s.rx_bytes == n
        }),
        parsed_line(response_line("+QGDAT:"@, v, q)) matches Some(ParsedLine::TrafficStats(s)) && ({
            &&& parsed_uint(v[0], u64::MAX as nat) is None ==> s.tx_bytes == 0
            &&& v[0] == decimal(n as nat) ==> s.tx_bytes == n
            &&& v.len() == 1 || parsed_uint(v[1], u64::MAX as nat) is None ==> s.rx_bytes == 0
            &&& v.len() > 1 && v[1] == decimal(n as nat) ==> s.rx_bytes == n
        }),
{
    law_decimal_round_trip(n as nat, u64::MAX as nat);
    reveal_strlit("+QUIMSLOT:");
    lemma_line("+QUIMSLOT:"@, v, q);
    lemma_one_name(trimmed(response_line("+QUIMSLOT:"@, v, q)), "+QUIMSLOT:"@);
    reveal_strlit("+CGDCONT:");
    lemma_line("+CGDCONT:"@, v, q);
    lemma_one_name(trimmed(response_line("+CGDCONT:"@, v, q)), "+CGDCONT:"@);
    reveal_strlit("+CGPADDR:");
    lemma_line("+CGPADDR:"@, v, q);
    lemma_one_name(trimmed(response_line("+CGPADDR:"@, v, q)), "+CGPADDR:"@);
    reveal_strlit("+QGDNRCNT:");
    lemma_line("+QGDNRCNT:"@, v, q);
    lemma_one_name(trimmed(response_line("+QGDNRCNT:"@, v, q)), "+QGDNRCNT:"@);
    reveal_strlit("+QGDAT:");
    lemma_line("+QGDAT:"@, v, q);
    lemma_one_name(trimmed(response_line("+QGDAT:"@, v, q)), "+QGDAT:"@);
}

/// A configuration with an index and a name alone is in no state; one without even a name says
/// nothing, and other lines about configurations are passed on.
pub proof fn law_short_configuration_line(v: Seq<Seq<char>>, q: Seq<bool>, index: u32)
    requires
        fit_fields(v, q),
    ensures
        ({
            let line = response_line("+QMBNCFG:"@, v, q);
            let r = parsed_line(line);
            &&& v[0] != "List"@ ==> r == Some(ParsedLine::Other(trimmed(line)))
            &&& v[0] == "List"@ && v.len() == 3 && v[1] == decimal(index as nat) && parsed_uint(
                v[2],
                u32::MAX as nat,
            ) is None && v[2].len() > 0 ==> r == Some(
                ParsedLine::Qmbncfg(QmbncfgEntry { index, state: 0, name: v[2] }),
            )
            &&& v[0] == "List"@ && v.len() < 3 ==> r is None
        }),
{
    reveal_strlit("+QMBNCFG:");
    lemma_line("+QMBNCFG:"@, v, q);
    lemma_one_name(trimmed(response_line("+QMBNCFG:"@, v, q)), "+QMBNCFG:"@);
    law_decimal_round_trip(index as nat, u32::MAX as nat);
}

/// A line about cells that describes none of the four kinds is passed on.
pub proof fn law_other_cell_line(v: Seq<Seq<char>>, q: Seq<bool>)
    requires
        fit_fields(v, q),
        v[0] != "servingcell"@,
        v[0] != "LTE"@,
        v[0] != "NR5G-NSA"@,
        v[0] != "neighbourcell"@,
    ensures
        parsed_line(response_line("+QENG:"@, v, q)) == Some(
            ParsedLine::Other(trimmed(response_line("+QENG:"@, v, q))),
        ),
{
    reveal_strlit("+QENG:");
    lemma_line("+QENG:"@, v, q);
    lemma_one_name(trimmed(response_line("+QENG:"@, v, q)), "+QENG:"@);
}

} // verus!
