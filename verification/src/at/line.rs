//! Single lines of AT responses: their fields and what they say.

use vstd::prelude::*;
use vstd::string::StringExecFns;

use crate::at::reading::{is_number, is_number_text};
use crate::at::response::{
    CgdcontEntry, CgpaddrEntry, CnumResponse, CopsResponse, CpinResponse, QcainfoEntry,
    QengNeighbourCell, QengServingCell, QmbncfgEntry, QspnResponse, QtempResponse,
    QuimslotResponse, TrafficStats,
};
use crate::at::utils::{decode_hex_ucs2, ucs2_text};
use crate::number::{parse_u32, parse_uint, parsed_uint};
use crate::text::{
    after_prefix, chars_of, contains, eq_ignore_ascii_case, mentions, opt_text, same, same_but_case,
    starts_with, strings, strip_prefix, trim, trimmed,
};

verus! {

// ---------------------------------------------------------------------------
// Fields
// ---------------------------------------------------------------------------

/// The fields of `s` when `current` has been read of the first one and `in_quotes` says whether
/// a quotation is open. Commas outside quotations separate fields, double quotes only open and
/// close quotations, and white space around a field does not belong to it.
pub open spec fn fields_from(s: Seq<char>, current: Seq<char>, in_quotes: bool) -> Seq<Seq<char>>
    decreases s.len(),
{
    if s.len() == 0 {
        seq![trimmed(current)]
    } else if s[0] == '"' {
        fields_from(s.skip(1), current, !in_quotes)
    } else if s[0] == ',' && !in_quotes {
        seq![trimmed(current)] + fields_from(s.skip(1), Seq::empty(), false)
    } else {
        fields_from(s.skip(1), current.push(s[0]), in_quotes)
    }
}

/// The fields of the body of a response line.
pub open spec fn fields_of(body: Seq<char>) -> Seq<Seq<char>> {
    fields_from(body, Seq::empty(), false)
}

/// The fields of a line that begins with `prefix`.
pub open spec fn values_after(line: Seq<char>, prefix: Seq<char>) -> Option<Seq<Seq<char>>> {
    match after_prefix(line, prefix) {
        Some(body) => Some(fields_of(trimmed(body))),
        None => None,
    }
}

/// Splits the body of a response line into its fields.
pub fn split_at_fields(body: &str) -> (r: Vec<String>)
    ensures
        strings(r@) == fields_of(body@),
{
    let cs = chars_of(body);
    let mut fields: Vec<String> = Vec::new();
    let mut current = String::new();
    let mut in_quotes: bool = false;
    let mut i: usize = 0;
    assert(body@.skip(0) == body@);
    assert(strings(fields@) + fields_of(body@) == fields_of(body@));
    while i < cs.len()
        invariant
            i <= cs@.len(),
            cs@ == body@,
            fields_of(body@) == strings(fields@) + fields_from(
                body@.skip(i as int),
                current@,
                in_quotes,
            ),
        decreases cs@.len() - i,
    {
        let c = cs[i];
        let ghost rest = body@.skip(i as int);
        assert(rest[0] == c);
        assert(rest.skip(1) == body@.skip(i + 1));
        if c == '"' {
            in_quotes = !in_quotes;
        } else if c == ',' && !in_quotes {
            let field = trim(&current).to_owned();
            let ghost before = strings(fields@);
            fields.push(field);
            proof {
                assert(strings(fields@) == before.push(field@));
                let tail = fields_from(body@.skip(i + 1), Seq::empty(), false);
                assert(before + (seq![field@] + tail) == before.push(field@) + tail);
            }
            current = String::new();
        } else {
            current.push(c);
        }
        i += 1;
    }
    let field = trim(&current).to_owned();
    let ghost before = strings(fields@);
    fields.push(field);
    assert(body@.skip(i as int).len() == 0);
    assert(strings(fields@) == before.push(field@));
    assert(before + seq![field@] == before.push(field@));
    fields
}

/// A body has at least one field.
pub proof fn lemma_fields(s: Seq<char>, current: Seq<char>, in_quotes: bool)
    ensures
        fields_from(s, current, in_quotes).len() > 0,
    decreases s.len(),
{
    if s.len() > 0 {
        if s[0] == '"' {
            lemma_fields(s.skip(1), current, !in_quotes);
        } else if s[0] == ',' && !in_quotes {
            lemma_fields(s.skip(1), Seq::empty(), false);
        } else {
            lemma_fields(s.skip(1), current.push(s[0]), in_quotes);
        }
    }
}

/// The fields of a line that begins with `prefix`.
pub fn fields_after_prefix(line: &str, prefix: &str) -> (r: Option<Vec<String>>)
    ensures
        match r {
            Some(v) => values_after(line@, prefix@) == Some(strings(v@)) && v@.len() > 0,
            None => values_after(line@, prefix@) is None,
        },
{
    match strip_prefix(line, prefix) {
        Some(body) => {
            let v = split_at_fields(trim(body));
            proof {
                lemma_fields(trimmed(body@), Seq::empty(), false);
                assert(strings(v@).len() == v@.len());
            }
            Some(v)
        },
        None => None,
    }
}

/// Field `i`, or the empty text where there is none.
pub open spec fn field(v: Seq<Seq<char>>, i: int) -> Seq<char> {
    if 0 <= i < v.len() {
        v[i]
    } else {
        Seq::empty()
    }
}

/// Field `i`, if there is one.
pub open spec fn opt_field(v: Seq<Seq<char>>, i: int) -> Option<Seq<char>> {
    if 0 <= i < v.len() {
        Some(v[i])
    } else {
        None
    }
}

/// The number of at most `max` in field `i`, or `default` where there is none.
pub open spec fn number_field(v: Seq<Seq<char>>, i: int, max: nat, default: nat) -> nat {
    if 0 <= i < v.len() && parsed_uint(v[i], max) is Some {
        parsed_uint(v[i], max)->0
    } else {
        default
    }
}

/// Field `i` is a number that fits 32 bits.
pub open spec fn is_u32_field(v: Seq<Seq<char>>, i: int) -> bool {
    0 <= i < v.len() && parsed_uint(v[i], u32::MAX as nat) is Some
}

fn get(v: &Vec<String>, i: usize) -> (r: String)
    ensures
        r@ == field(strings(v@), i as int),
{
    if i < v.len() {
        v[i].clone()
    } else {
        String::new()
    }
}

fn get_opt(v: &Vec<String>, i: usize) -> (r: Option<String>)
    ensures
        opt_text(r) == opt_field(strings(v@), i as int),
{
    if i < v.len() {
        Some(v[i].clone())
    } else {
        None
    }
}

fn get_u32(v: &Vec<String>, i: usize, default: u32) -> (r: u32)
    ensures
        r == number_field(strings(v@), i as int, u32::MAX as nat, default as nat),
{
    if i < v.len() {
        match parse_u32(&v[i]) {
            Some(n) => n,
            None => default,
        }
    } else {
        default
    }
}

fn get_u64(v: &Vec<String>, i: usize) -> (r: u64)
    ensures
        r == number_field(strings(v@), i as int, u64::MAX as nat, 0),
{
    if i < v.len() {
        match parse_uint(&v[i], u64::MAX) {
            Some(n) => n,
            None => 0,
        }
    } else {
        0
    }
}

fn has_u32(v: &Vec<String>, i: usize) -> (r: bool)
    ensures
        r == is_u32_field(strings(v@), i as int),
{
    i < v.len() && parse_u32(&v[i]).is_some()
}

/// An access point that carries data: a real name, and not the one for signalling.
pub open spec fn is_data_apn(apn: Seq<char>) -> bool {
    &&& apn.len() > 0
    &&& !mentions(apn, "placeholder"@)
    &&& !"apn"@.is_prefix_of(apn)
    &&& !same_but_case(apn, "ims"@)
}

/// Whether an access point can carry data.
pub fn is_valid_data_apn(apn: &str) -> (r: bool)
    ensures
        r == is_data_apn(apn@),
{
    !apn.is_empty() && !contains(apn, "placeholder") && !starts_with(apn, "apn")
        && !eq_ignore_ascii_case(apn, "ims")
}

// ---------------------------------------------------------------------------
// Lines
// ---------------------------------------------------------------------------

/// What one line of a response says.
#[derive(Debug, Clone, PartialEq, Eq)]
pub enum ParsedLine<S = String> {
    Cpin(CpinResponse<S>),
    Quimslot(QuimslotResponse),
    Qspn(QspnResponse<S>),
    Cops(CopsResponse<S>),
    Cgdcont(CgdcontEntry<S>),
    TrafficStats(TrafficStats),
    Cgpaddr(CgpaddrEntry<S>),
    QengServingCell(QengServingCell<S>),
    QengNeighbourCell(QengNeighbourCell<S>),
    Qcainfo(QcainfoEntry<S>),
    Cnum(CnumResponse<S>),
    Qmbncfg(QmbncfgEntry<S>),
    Qccid(S),
    Cimi(S),
    Qtemp(QtempResponse<S>),
    Okay,
    Error,
    Other(S),
}

impl View for ParsedLine {
    type V = ParsedLine<Seq<char>>;

    open spec fn view(&self) -> ParsedLine<Seq<char>> {
        match *self {
            ParsedLine::Cpin(r) => ParsedLine::Cpin(r@),
            ParsedLine::Quimslot(r) => ParsedLine::Quimslot(r),
            ParsedLine::Qspn(r) => ParsedLine::Qspn(r@),
            ParsedLine::Cops(r) => ParsedLine::Cops(r@),
            ParsedLine::Cgdcont(r) => ParsedLine::Cgdcont(r@),
            ParsedLine::TrafficStats(r) => ParsedLine::TrafficStats(r),
            ParsedLine::Cgpaddr(r) => ParsedLine::Cgpaddr(r@),
            ParsedLine::QengServingCell(r) => ParsedLine::QengServingCell(r@),
            ParsedLine::QengNeighbourCell(r) => ParsedLine::QengNeighbourCell(r@),
            ParsedLine::Qcainfo(r) => ParsedLine::Qcainfo(r@),
            ParsedLine::Cnum(r) => ParsedLine::Cnum(r@),
            ParsedLine::Qmbncfg(r) => ParsedLine::Qmbncfg(r@),
            ParsedLine::Qccid(s) => ParsedLine::Qccid(s@),
            ParsedLine::Cimi(s) => ParsedLine::Cimi(s@),
            ParsedLine::Qtemp(r) => ParsedLine::Qtemp(r@),
            ParsedLine::Okay => ParsedLine::Okay,
            ParsedLine::Error => ParsedLine::Error,
            ParsedLine::Other(s) => ParsedLine::Other(s@),
        }
    }
}

/// The view of an optional line.
pub open spec fn opt_line(o: Option<ParsedLine>) -> Option<ParsedLine<Seq<char>>> {
    match o {
        Some(p) => Some(p@),
        None => None,
    }
}

/// The line reports a failure.
pub open spec fn is_error_line(t: Seq<char>) -> bool {
    t == "ERROR"@ || "+CME ERROR:"@.is_prefix_of(t) || "+CMS ERROR:"@.is_prefix_of(t)
}

/// `+QSPN`: the full name may come as UCS-2.
pub open spec fn qspn(v: Seq<Seq<char>>) -> QspnResponse<Seq<char>> {
    let name = ucs2_text(field(v, 0));
    QspnResponse {
        fnn: if name.len() > 0 {
            name
        } else {
            field(v, 0)
        },
        snn: field(v, 1),
        spn: field(v, 2),
        alphabet: field(v, 3),
    }
}

/// A cell of which nothing is known.
pub open spec fn no_cell() -> QengServingCell<Seq<char>> {
    QengServingCell {
        connection_status: Seq::empty(),
        rat: Seq::empty(),
        opmode: Seq::empty(),
        mcc: Seq::empty(),
        mnc: Seq::empty(),
        cell_id: Seq::empty(),
        pci: Seq::empty(),
        tac: Seq::empty(),
        earfcn: Seq::empty(),
        band: Seq::empty(),
        bandwidth: Seq::empty(),
        rsrp: Seq::empty(),
        rsrq: Seq::empty(),
        sinr: Seq::empty(),
        srxlev: Seq::empty(),
        rssi: Seq::empty(),
    }
}

/// The serving cell of a standalone connection. The radio technology decides the layout: LTE
/// gives its bandwidth twice, up and down, and its tracking area after that.
pub open spec fn standalone_cell(v: Seq<Seq<char>>) -> QengServingCell<Seq<char>> {
    let common = QengServingCell {
        connection_status: field(v, 1),
        rat: field(v, 2),
        opmode: field(v, 3),
        mcc: field(v, 4),
        mnc: field(v, 5),
        cell_id: field(v, 6),
        pci: field(v, 7),
        ..no_cell()
    };
    if mentions(field(v, 2), "NR5G"@) {
        QengServingCell {
            tac: field(v, 8),
            earfcn: field(v, 9),
            band: field(v, 10),
            bandwidth: field(v, 11),
            rsrp: field(v, 12),
            rsrq: field(v, 13),
            sinr: field(v, 14),
            srxlev: field(v, 15),
            rssi: field(v, 16),
            ..common
        }
    } else {
        QengServingCell {
            earfcn: field(v, 8),
            band: field(v, 9),
            bandwidth: field(v, 11),
            tac: field(v, 12),
            rsrp: field(v, 13),
            rsrq: field(v, 14),
            rssi: field(v, 15),
            sinr: field(v, 16),
            ..common
        }
    }
}

/// The LTE anchor of a non-standalone connection.
pub open spec fn anchor_cell(v: Seq<Seq<char>>) -> QengServingCell<Seq<char>> {
    QengServingCell {
        rat: "LTE"@,
        opmode: field(v, 1),
        mcc: field(v, 2),
        mnc: field(v, 3),
        cell_id: field(v, 4),
        pci: field(v, 5),
        earfcn: field(v, 6),
        band: field(v, 7),
        bandwidth: field(v, 9),
        tac: field(v, 10),
        rsrp: field(v, 11),
        rsrq: field(v, 12),
        rssi: field(v, 13),
        sinr: field(v, 14),
        srxlev: field(v, 15),
        ..no_cell()
    }
}

/// The NR carrier of a non-standalone connection.
pub open spec fn secondary_cell(v: Seq<Seq<char>>) -> QengServingCell<Seq<char>> {
    QengServingCell {
        rat: "NR5G-NSA"@,
        mcc: field(v, 1),
        mnc: field(v, 2),
        pci: field(v, 3),
        rsrp: field(v, 4),
        sinr: field(v, 5),
        rsrq: field(v, 6),
        earfcn: field(v, 7),
        band: field(v, 8),
        bandwidth: field(v, 9),
        ..no_cell()
    }
}

/// A neighbour cell.
pub open spec fn neighbour_cell(v: Seq<Seq<char>>) -> QengNeighbourCell<Seq<char>> {
    QengNeighbourCell {
        rat: field(v, 1),
        mcc: field(v, 2),
        mnc: field(v, 3),
        pci: field(v, 4),
        earfcn: field(v, 5),
        rsrp: field(v, 6),
        rsrq: field(v, 7),
        sinr: field(v, 8),
        srxlev: field(v, 9),
    }
}

/// `+QENG`: the first field says what the line describes.
pub open spec fn qeng(v: Seq<Seq<char>>) -> Option<ParsedLine<Seq<char>>> {
    if field(v, 0) == "servingcell"@ {
        Some(ParsedLine::QengServingCell(standalone_cell(v)))
    } else if field(v, 0) == "LTE"@ {
        Some(ParsedLine::QengServingCell(anchor_cell(v)))
    } else if field(v, 0) == "NR5G-NSA"@ {
        Some(ParsedLine::QengServingCell(secondary_cell(v)))
    } else if field(v, 0) == "neighbourcell"@ {
        Some(ParsedLine::QengNeighbourCell(neighbour_cell(v)))
    } else {
        None
    }
}

/// `+QCAINFO`: a secondary carrier has its index before the cell and signal values after it.
pub open spec fn qcainfo(v: Seq<Seq<char>>) -> QcainfoEntry<Seq<char>> {
    let scc = field(v, 0) == "SCC"@;
    QcainfoEntry {
        component: field(v, 0),
        earfcn: field(v, 1),
        bandwidth: field(v, 2),
        band: field(v, 3),
        pci: if scc {
            field(v, 5)
        } else {
            field(v, 4)
        },
        scc_idx: if scc {
            opt_field(v, 4)
        } else {
            None
        },
        rsrp: if scc {
            opt_field(v, 6)
        } else {
            None
        },
        rsrq: if scc {
            opt_field(v, 7)
        } else {
            None
        },
        sinr: if scc {
            opt_field(v, 8)
        } else {
            None
        },
    }
}

/// Where a list line of `+QMBNCFG` has its state and its name. Firmware writes
/// `index,state,status,name,..`, or `index,state,name`, or `index,name,state`.
pub open spec fn mbn_layout(v: Seq<Seq<char>>) -> (int, int) {
    if v.len() >= 5 && is_u32_field(v, 3) {
        (2, 4)
    } else if is_u32_field(v, 2) {
        (2, 3)
    } else {
        (3, 2)
    }
}

/// `+QMBNCFG: "List"`: one configuration; nothing where it has no name.
pub open spec fn mbn_entry(v: Seq<Seq<char>>) -> Option<ParsedLine<Seq<char>>> {
    let (state, name) = mbn_layout(v);
    if field(v, name).len() > 0 {
        Some(
            ParsedLine::Qmbncfg(
                QmbncfgEntry {
                    index: number_field(v, 1, u32::MAX as nat, 0) as u32,
                    state: number_field(v, state, u32::MAX as nat, 0) as u32,
                    name: field(v, name),
                },
            ),
        )
    } else {
        None
    }
}

/// What a line says, given its name and its fields; nothing where the name is none of these or
/// the fields are not of this form.
pub open spec fn named_line(t: Seq<char>) -> Option<ParsedLine<Seq<char>>> {
    let u32_max = u32::MAX as nat;
    let u64_max = u64::MAX as nat;
    if let Some(v) = values_after(t, "+CPIN:"@) {
        Some(ParsedLine::Cpin(CpinResponse { status: field(v, 0) }))
    } else if let Some(v) = values_after(t, "+QUIMSLOT:"@) {
        Some(
            ParsedLine::Quimslot(
                QuimslotResponse { slot: number_field(v, 0, u32_max, 1) as u32 },
            ),
        )
    } else if let Some(v) = values_after(t, "+QSPN:"@) {
        Some(ParsedLine::Qspn(qspn(v)))
    } else if let Some(v) = values_after(t, "+COPS:"@) {
        Some(
            ParsedLine::Cops(
                CopsResponse {
                    mode: field(v, 0),
                    format: opt_field(v, 1),
                    oper: opt_field(v, 2),
                    act: opt_field(v, 3),
                },
            ),
        )
    } else if let Some(v) = values_after(t, "+CGDCONT:"@) {
        Some(
            ParsedLine::Cgdcont(
                CgdcontEntry {
                    cid: number_field(v, 0, u32_max, 0) as u32,
                    pdp_type: field(v, 1),
                    apn: field(v, 2),
                    pdp_addr: field(v, 3),
                    d_comp: field(v, 4),
                    h_comp: field(v, 5),
                },
            ),
        )
    } else if let Some(v) = values_after(t, "+QGDNRCNT:"@) {
        Some(ParsedLine::TrafficStats(traffic(v)))
    } else if let Some(v) = values_after(t, "+QGDAT:"@) {
        Some(ParsedLine::TrafficStats(traffic(v)))
    } else if let Some(v) = values_after(t, "+CGPADDR:"@) {
        Some(
            ParsedLine::Cgpaddr(
                CgpaddrEntry {
                    cid: number_field(v, 0, u32_max, 0) as u32,
                    ipv4: field(v, 1),
                    ipv6: field(v, 2),
                },
            ),
        )
    } else if let Some(v) = values_after(t, "+QCAINFO:"@) {
        Some(ParsedLine::Qcainfo(qcainfo(v)))
    } else if let Some(v) = values_after(t, "+CNUM:"@) {
        Some(ParsedLine::Cnum(CnumResponse { number: field(v, 1) }))
    } else if let Some(v) = values_after(t, "+QCCID:"@) {
        Some(ParsedLine::Qccid(field(v, 0)))
    } else if let Some(v) = values_after(t, "+CIMI:"@) {
        Some(ParsedLine::Cimi(field(v, 0)))
    } else if let Some(v) = values_after(t, "+QTEMP:"@) {
        Some(
            ParsedLine::Qtemp(
                QtempResponse {
                    sensor: field(v, 0),
                    temperature: if v.len() > 1 && is_number(v[1]) {
                        Some(v[1])
                    } else {
                        None
                    },
                },
            ),
        )
    } else {
        None
    }
}

/// The traffic counters.
pub open spec fn traffic(v: Seq<Seq<char>>) -> TrafficStats {
    TrafficStats {
        tx_bytes: number_field(v, 0, u64::MAX as nat, 0) as u64,
        rx_bytes: number_field(v, 1, u64::MAX as nat, 0) as u64,
    }
}

/// What a line says. An empty line, and a configuration without a name, say nothing.
pub open spec fn parsed_line(line: Seq<char>) -> Option<ParsedLine<Seq<char>>> {
    let t = trimmed(line);
    if t.len() == 0 {
        None
    } else if t == "OK"@ {
        Some(ParsedLine::Okay)
    } else if is_error_line(t) {
        Some(ParsedLine::Error)
    } else if let Some(v) = values_after(t, "+QENG:"@) {
        match qeng(v) {
            Some(p) => Some(p),
            None => Some(ParsedLine::Other(t)),
        }
    } else if let Some(v) = values_after(t, "+QMBNCFG:"@) {
        if field(v, 0) == "List"@ {
            mbn_entry(v)
        } else {
            Some(ParsedLine::Other(t))
        }
    } else {
        match named_line(t) {
            Some(p) => Some(p),
            None => Some(ParsedLine::Other(t)),
        }
    }
}

fn read_qspn(v: &Vec<String>) -> (r: QspnResponse)
    ensures
        r@ == qspn(strings(v@)),
{
    let first = get(v, 0);
    let decoded = decode_hex_ucs2(&first);
    QspnResponse {
        fnn: if decoded.as_str().is_empty() {
            first
        } else {
            decoded
        },
        snn: get(v, 1),
        spn: get(v, 2),
        alphabet: get(v, 3),
    }
}

fn read_standalone(v: &Vec<String>) -> (r: QengServingCell)
    ensures
        r@ == standalone_cell(strings(v@)),
{
    let rat = get(v, 2);
    if contains(&rat, "NR5G") {
        QengServingCell {
            connection_status: get(v, 1),
            rat,
            opmode: get(v, 3),
            mcc: get(v, 4),
            mnc: get(v, 5),
            cell_id: get(v, 6),
            pci: get(v, 7),
            tac: get(v, 8),
            earfcn: get(v, 9),
            band: get(v, 10),
            bandwidth: get(v, 11),
            rsrp: get(v, 12),
            rsrq: get(v, 13),
            sinr: get(v, 14),
            srxlev: get(v, 15),
            rssi: get(v, 16),
        }
    } else {
        QengServingCell {
            connection_status: get(v, 1),
            rat,
            opmode: get(v, 3),
            mcc: get(v, 4),
            mnc: get(v, 5),
            cell_id: get(v, 6),
            pci: get(v, 7),
            tac: get(v, 12),
            earfcn: get(v, 8),
            band: get(v, 9),
            bandwidth: get(v, 11),
            rsrp: get(v, 13),
            rsrq: get(v, 14),
            sinr: get(v, 16),
            srxlev: String::new(),
            rssi: get(v, 15),
        }
    }
}

fn read_anchor(v: &Vec<String>) -> (r: QengServingCell)
    ensures
        r@ == anchor_cell(strings(v@)),
{
    QengServingCell {
        connection_status: String::new(),
        rat: "LTE".to_owned(),
        opmode: get(v, 1),
        mcc: get(v, 2),
        mnc: get(v, 3),
        cell_id: get(v, 4),
        pci: get(v, 5),
        tac: get(v, 10),
        earfcn: get(v, 6),
        band: get(v, 7),
        bandwidth: get(v, 9),
        rsrp: get(v, 11),
        rsrq: get(v, 12),
        sinr: get(v, 14),
        srxlev: get(v, 15),
        rssi: get(v, 13),
    }
}

fn read_secondary(v: &Vec<String>) -> (r: QengServingCell)
    ensures
        r@ == secondary_cell(strings(v@)),
{
    QengServingCell {
        connection_status: String::new(),
        rat: "NR5G-NSA".to_owned(),
        opmode: String::new(),
        mcc: get(v, 1),
        mnc: get(v, 2),
        cell_id: String::new(),
        pci: get(v, 3),
        tac: String::new(),
        earfcn: get(v, 7),
        band: get(v, 8),
        bandwidth: get(v, 9),
        rsrp: get(v, 4),
        rsrq: get(v, 6),
        sinr: get(v, 5),
        srxlev: String::new(),
        rssi: String::new(),
    }
}

fn read_neighbour(v: &Vec<String>) -> (r: QengNeighbourCell)
    ensures
        r@ == neighbour_cell(strings(v@)),
{
    QengNeighbourCell {
        rat: get(v, 1),
        mcc: get(v, 2),
        mnc: get(v, 3),
        pci: get(v, 4),
        earfcn: get(v, 5),
        rsrp: get(v, 6),
        rsrq: get(v, 7),
        sinr: get(v, 8),
        srxlev: get(v, 9),
    }
}

fn read_qeng(v: &Vec<String>) -> (r: Option<ParsedLine>)
    ensures
        opt_line(r) == qeng(strings(v@)),
{
    let tag = get(v, 0);
    if same(&tag, "servingcell") {
        Some(ParsedLine::QengServingCell(read_standalone(v)))
    } else if same(&tag, "LTE") {
        Some(ParsedLine::QengServingCell(read_anchor(v)))
    } else if same(&tag, "NR5G-NSA") {
        Some(ParsedLine::QengServingCell(read_secondary(v)))
    } else if same(&tag, "neighbourcell") {
        Some(ParsedLine::QengNeighbourCell(read_neighbour(v)))
    } else {
        None
    }
}

fn read_qcainfo(v: &Vec<String>) -> (r: QcainfoEntry)
    ensures
        r@ == qcainfo(strings(v@)),
{
    let component = get(v, 0);
    if same(&component, "SCC") {
        QcainfoEntry {
            component,
            earfcn: get(v, 1),
            bandwidth: get(v, 2),
            band: get(v, 3),
            pci: get(v, 5),
            scc_idx: get_opt(v, 4),
            rsrp: get_opt(v, 6),
            rsrq: get_opt(v, 7),
            sinr: get_opt(v, 8),
        }
    } else {
        QcainfoEntry {
            component,
            earfcn: get(v, 1),
            bandwidth: get(v, 2),
            band: get(v, 3),
            pci: get(v, 4),
            scc_idx: None,
            rsrp: None,
            rsrq: None,
            sinr: None,
        }
    }
}

fn read_mbn(v: &Vec<String>) -> (r: Option<ParsedLine>)
    ensures
        opt_line(r) == mbn_entry(strings(v@)),
{
    assert(strings(v@).len() == v@.len());
    let (state, name): (usize, usize) = if v.len() >= 5 && has_u32(v, 3) {
        (2, 4)
    } else if has_u32(v, 2) {
        (2, 3)
    } else {
        (3, 2)
    };
    let name = get(v, name);
    if name.as_str().is_empty() {
        None
    } else {
        Some(
            ParsedLine::Qmbncfg(
                QmbncfgEntry { index: get_u32(v, 1, 0), state: get_u32(v, state, 0), name },
            ),
        )
    }
}

fn read_traffic(v: &Vec<String>) -> (r: TrafficStats)
    ensures
        r == traffic(strings(v@)),
{
    TrafficStats { tx_bytes: get_u64(v, 0), rx_bytes: get_u64(v, 1) }
}

fn read_qtemp(v: &Vec<String>) -> (r: QtempResponse)
    ensures
        r@ == (QtempResponse {
            sensor: field(strings(v@), 0),
            temperature: if strings(v@).len() > 1 && is_number(strings(v@)[1]) {
                Some(strings(v@)[1])
            } else {
                None
            },
        }),
{
    let temperature = if v.len() > 1 && is_number_text(&v[1]) {
        Some(v[1].clone())
    } else {
        None
    };
    QtempResponse { sensor: get(v, 0), temperature }
}

fn read_named(t: &str) -> (r: Option<ParsedLine>)
    ensures
        opt_line(r) == named_line(t@),
{
    if let Some(v) = fields_after_prefix(t, "+CPIN:") {
        return Some(ParsedLine::Cpin(CpinResponse { status: get(&v, 0) }));
    }
    if let Some(v) = fields_after_prefix(t, "+QUIMSLOT:") {
        return Some(ParsedLine::Quimslot(QuimslotResponse { slot: get_u32(&v, 0, 1) }));
    }
    if let Some(v) = fields_after_prefix(t, "+QSPN:") {
        return Some(ParsedLine::Qspn(read_qspn(&v)));
    }
    if let Some(v) = fields_after_prefix(t, "+COPS:") {
        return Some(
            ParsedLine::Cops(
                CopsResponse {
                    mode: get(&v, 0),
                    format: get_opt(&v, 1),
                    oper: get_opt(&v, 2),
                    act: get_opt(&v, 3),
                },
            ),
        );
    }
    if let Some(v) = fields_after_prefix(t, "+CGDCONT:") {
        return Some(
            ParsedLine::Cgdcont(
                CgdcontEntry {
                    cid: get_u32(&v, 0, 0),
                    pdp_type: get(&v, 1),
                    apn: get(&v, 2),
                    pdp_addr: get(&v, 3),
                    d_comp: get(&v, 4),
                    h_comp: get(&v, 5),
                },
            ),
        );
    }
    if let Some(v) = fields_after_prefix(t, "+QGDNRCNT:") {
        return Some(ParsedLine::TrafficStats(read_traffic(&v)));
    }
    if let Some(v) = fields_after_prefix(t, "+QGDAT:") {
        return Some(ParsedLine::TrafficStats(read_traffic(&v)));
    }
    if let Some(v) = fields_after_prefix(t, "+CGPADDR:") {
        return Some(
            ParsedLine::Cgpaddr(
                CgpaddrEntry { cid: get_u32(&v, 0, 0), ipv4: get(&v, 1), ipv6: get(&v, 2) },
            ),
        );
    }
    if let Some(v) = fields_after_prefix(t, "+QCAINFO:") {
        return Some(ParsedLine::Qcainfo(read_qcainfo(&v)));
    }
    if let Some(v) = fields_after_prefix(t, "+CNUM:") {
        return Some(ParsedLine::Cnum(CnumResponse { number: get(&v, 1) }));
    }
    if let Some(v) = fields_after_prefix(t, "+QCCID:") {
        return Some(ParsedLine::Qccid(get(&v, 0)));
    }
    if let Some(v) = fields_after_prefix(t, "+CIMI:") {
        return Some(ParsedLine::Cimi(get(&v, 0)));
    }
    if let Some(v) = fields_after_prefix(t, "+QTEMP:") {
        return Some(ParsedLine::Qtemp(read_qtemp(&v)));
    }
    None
}

/// Reads one line of a response.
pub fn parse_single_line(line: &str) -> (r: Option<ParsedLine>)
    ensures
        opt_line(r) == parsed_line(line@),
{
    let t = trim(line);
    if t.is_empty() {
        return None;
    }
    if same(t, "OK") {
        return Some(ParsedLine::Okay);
    }
    if same(t, "ERROR") || starts_with(t, "+CME ERROR:") || starts_with(t, "+CMS ERROR:") {
        return Some(ParsedLine::Error);
    }
    if let Some(v) = fields_after_prefix(t, "+QENG:") {
        return match read_qeng(&v) {
            Some(p) => Some(p),
            None => Some(ParsedLine::Other(t.to_owned())),
        };
    }
    if let Some(v) = fields_after_prefix(t, "+QMBNCFG:") {
        if same(&get(&v, 0), "List") {
            return read_mbn(&v);
        }
        return Some(ParsedLine::Other(t.to_owned()));
    }
    match read_named(t) {
        Some(p) => Some(p),
        None => Some(ParsedLine::Other(t.to_owned())),
    }
}

} // verus!
