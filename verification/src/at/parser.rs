//! Whole AT responses: what they say of the connection.

use vstd::prelude::*;
use vstd::string::StringExecFns;

use crate::actor::telemetry::TelemetryData;
use crate::at::builder::{beyond_ascii, is_ascii_text};
use crate::at::line::{field, fields_after_prefix, parsed_line, values_after};
use crate::at::reading::{is_number, round_number, rounded_text};
use crate::at::response::{QcainfoEntry, QengNeighbourCell, QengServingCell};
use crate::at::utils::{
    convert_dotted_ipv6_to_standard, is_ipv4, is_ipv6, is_valid_ipv4, is_valid_ipv6, standard_ipv6,
};
use crate::double::{double_total, DoubleSum};
use crate::number::{
    decimal, digit_char, parse_i32, parsed_i32, push_wide_decimal, signed_decimal, signed_text,
};
use crate::shortest::{double_text, push_double};
use crate::text::{
    after_prefix, chars_of, concat2, concat3, contains, holds, join, joined, lines, lines_of,
    mentions, opt_text, pieces, same, split, starts_with, strings, strip_prefix, stripped, text_of,
    texts, trim, trim_matches, trimmed,
};

pub use crate::at::line::{is_valid_data_apn, parse_single_line, split_at_fields, ParsedLine};

verus! {

// ---------------------------------------------------------------------------
// Bandwidth
// ---------------------------------------------------------------------------

/// The width of an NR carrier, in tenths of a megahertz, that the module's index stands for.
pub open spec fn nr_bandwidth(code: int) -> int {
    if code == 0 {
        50
    } else if code == 1 {
        100
    } else if code == 2 {
        150
    } else if code == 3 {
        200
    } else if code == 4 {
        250
    } else if code == 5 {
        300
    } else if code == 6 {
        400
    } else if code == 7 {
        500
    } else if code == 8 {
        600
    } else if code == 9 {
        700
    } else if code == 10 {
        800
    } else if code == 11 {
        900
    } else if code == 12 {
        1000
    } else if code == 13 {
        2000
    } else if code == 14 {
        4000
    } else if code == 15 {
        350
    } else if code == 16 {
        450
    } else {
        code * 10
    }
}

/// The width of an LTE carrier, in tenths of a megahertz, of so many resource blocks.
pub open spec fn lte_bandwidth(code: int) -> int {
    if code == 6 {
        14
    } else if code == 15 {
        30
    } else if code == 25 {
        50
    } else if code == 50 {
        100
    } else if code == 75 {
        150
    } else if code == 100 {
        200
    } else {
        code * 10
    }
}

/// The width of an NR carrier in tenths of a megahertz. An unknown index counts as megahertz.
pub fn decode_nr_bandwidth(code: i32) -> (r: i64)
    ensures
        r == nr_bandwidth(code as int),
{
    match code {
        0 => 50,
        1 => 100,
        2 => 150,
        3 => 200,
        4 => 250,
        5 => 300,
        6 => 400,
        7 => 500,
        8 => 600,
        9 => 700,
        10 => 800,
        11 => 900,
        12 => 1000,
        13 => 2000,
        14 => 4000,
        15 => 350,
        16 => 450,
        other => other as i64 * 10,
    }
}

/// The width of an LTE carrier in tenths of a megahertz. An unknown code counts as megahertz.
pub fn decode_lte_bandwidth(code: i32) -> (r: i64)
    ensures
        r == lte_bandwidth(code as int),
{
    match code {
        6 => 14,
        15 => 30,
        25 => 50,
        50 => 100,
        75 => 150,
        100 => 200,
        other => other as i64 * 10,
    }
}

/// A number of tenths in decimal, with a fraction only where there is one.
pub open spec fn tenths_text(t: int) -> Seq<char> {
    let n: int = if t < 0 {
        -t
    } else {
        t
    };
    let sign = if t < 0 {
        seq!['-']
    } else {
        Seq::empty()
    };
    let fraction = if n % 10 == 0 {
        Seq::empty()
    } else {
        seq!['.', digit_char((n % 10) as nat)]
    };
    sign + decimal((n / 10) as nat) + fraction
}

fn text_of_tenths(t: i128) -> (r: String)
    requires
        t > i128::MIN,
    ensures
        r@ == tenths_text(t as int),
{
    let mut r = String::new();
    if t < 0 {
        r.push('-');
    }
    let ghost sign = r@;
    assert(sign == (if t < 0 {
        seq!['-']
    } else {
        Seq::empty()
    }));
    let n: u128 = if t < 0 {
        (-t) as u128
    } else {
        t as u128
    };
    push_wide_decimal(&mut r, n / 10);
    if n % 10 != 0 {
        r.push('.');
        r.push(('0' as u8 + (n % 10) as u8) as char);
    }
    assert(r@ == tenths_text(t as int));
    r
}

// ---------------------------------------------------------------------------
// Carriers
// ---------------------------------------------------------------------------

/// The items of a list, each once, in the order in which they first come.
pub open spec fn distinct(list: Seq<Seq<char>>) -> Seq<Seq<char>>
    decreases list.len(),
{
    if list.len() == 0 {
        Seq::empty()
    } else if distinct(list.drop_last()).contains(list.last()) {
        distinct(list.drop_last())
    } else {
        distinct(list.drop_last()).push(list.last())
    }
}

/// The widths that are known.
pub open spec fn known(widths: Seq<Option<int>>) -> Seq<int>
    decreases widths.len(),
{
    if widths.len() == 0 {
        Seq::empty()
    } else {
        match widths.last() {
            Some(w) => known(widths.drop_last()).push(w),
            None => known(widths.drop_last()),
        }
    }
}

/// Widths as text.
pub open spec fn width_texts(list: Seq<int>) -> Seq<Seq<char>> {
    Seq::new(list.len(), |i: int| tenths_text(list[i]))
}

/// The bandwidth line: the sum, which is in double precision and in parts of `2^-52`, and the
/// parts where there are several.
pub open spec fn bandwidth_text(parts: Seq<Seq<char>>, sum: int, is_nr: bool) -> Seq<char> {
    let prefix = if is_nr {
        "NR "@
    } else {
        ""@
    };
    if parts.len() > 1 {
        prefix + double_text(sum) + " MHz ("@ + joined(parts, "+"@) + ")"@
    } else {
        prefix + double_text(sum) + " MHz"@
    }
}

/// A list as one text, or what was there where the list is empty.
pub open spec fn listed(
    list: Seq<Seq<char>>,
    before: Option<Seq<char>>,
) -> Option<Seq<char>> {
    if list.len() > 0 {
        Some(joined(list, ", "@))
    } else {
        before
    }
}

/// The telemetry `t` with what is known of the carriers. An empty list leaves its field alone.
pub open spec fn with_carriers(
    bands: Seq<Seq<char>>,
    bw_parts: Seq<Seq<char>>,
    total_bw: int,
    earfcns: Seq<Seq<char>>,
    pcis: Seq<Seq<char>>,
    is_nr: bool,
    t: TelemetryData<Seq<char>>,
) -> TelemetryData<Seq<char>> {
    TelemetryData {
        bands: listed(bands, t.bands),
        bandwidth: if bw_parts.len() > 0 {
            Some(bandwidth_text(bw_parts, total_bw, is_nr))
        } else {
            t.bandwidth
        },
        earfcn: listed(earfcns, t.earfcn),
        pci: listed(pcis, t.pci),
        ..t
    }
}

/// Enters what is known of the carriers.
pub fn set_carrier_telemetry(
    bands: &Vec<String>,
    bw_parts: &Vec<String>,
    total_bw: &DoubleSum,
    earfcns: &Vec<String>,
    pcis: &Vec<String>,
    is_nr: bool,
    telemetry: &mut TelemetryData,
)
    requires
        total_bw.wf(),
    ensures
        final(telemetry)@ == with_carriers(
            strings(bands@),
            strings(bw_parts@),
            total_bw.units(),
            strings(earfcns@),
            strings(pcis@),
            is_nr,
            old(telemetry)@,
        ),
{
    assert(strings(bands@).len() == bands@.len());
    assert(strings(bw_parts@).len() == bw_parts@.len());
    assert(strings(earfcns@).len() == earfcns@.len());
    assert(strings(pcis@).len() == pcis@.len());
    if bands.len() > 0 {
        telemetry.bands = Some(join(bands, ", "));
    }
    if bw_parts.len() > 0 {
        let prefix = if is_nr {
            "NR "
        } else {
            ""
        };
        let mut text = prefix.to_owned();
        push_double(&mut text, total_bw);
        if bw_parts.len() > 1 {
            text.append(" MHz (");
            text.append(&join(bw_parts, "+"));
            text.append(")");
        } else {
            text.append(" MHz");
        }
        telemetry.bandwidth = Some(text);
    }
    if earfcns.len() > 0 {
        telemetry.earfcn = Some(join(earfcns, ", "));
    }
    if pcis.len() > 0 {
        telemetry.pci = Some(join(pcis, ", "));
    }
}

/// What the loops over carriers collect.
struct Carriers {
    bands: Vec<String>,
    bw_parts: Vec<String>,
    total_bw: DoubleSum,
    earfcns: Vec<String>,
    pcis: Vec<String>,
}

impl Carriers {
    /// What is collected of carriers with these labels, widths, channels and cells.
    spec fn collects(
        &self,
        labels: Seq<Seq<char>>,
        widths: Seq<Option<int>>,
        earfcns: Seq<Seq<char>>,
        pcis: Seq<Seq<char>>,
    ) -> bool {
        &&& strings(self.bands@) == distinct(labels)
        &&& strings(self.bw_parts@) == width_texts(known(widths))
        &&& self.total_bw.wf()
        &&& self.total_bw.units() == double_total(known(widths))
        &&& strings(self.earfcns@) == earfcns
        &&& strings(self.pcis@) == pcis
    }

    fn new() -> (r: Carriers)
        ensures
            r.collects(Seq::empty(), Seq::empty(), Seq::empty(), Seq::empty()),
    {
        let r = Carriers {
            bands: Vec::new(),
            bw_parts: Vec::new(),
            total_bw: DoubleSum::new(),
            earfcns: Vec::new(),
            pcis: Vec::new(),
        };
        assert(strings(r.bands@) == Seq::<Seq<char>>::empty());
        assert(width_texts(Seq::empty()) == Seq::<Seq<char>>::empty());
        r
    }

    /// Adds one carrier.
    fn push(
        &mut self,
        label: String,
        width: Option<i64>,
        earfcn: String,
        pci: String,
        Ghost(labels): Ghost<Seq<Seq<char>>>,
        Ghost(widths): Ghost<Seq<Option<int>>>,
        Ghost(earfcns): Ghost<Seq<Seq<char>>>,
        Ghost(pcis): Ghost<Seq<Seq<char>>>,
    )
        requires
            old(self).collects(labels, widths, earfcns, pcis),
            width matches Some(w) ==> -0x1_0000_0000_0000 <= w <= 0x1_0000_0000_0000,
        ensures
            final(self).collects(
                labels.push(label@),
                widths.push(opt_int(width)),
                earfcns.push(earfcn@),
                pcis.push(pci@),
            ),
    {
        assert(labels.push(label@).drop_last() == labels);
        assert(widths.push(opt_int(width)).drop_last() == widths);
        if !holds(&self.bands, &label) {
            let ghost before = self.bands@;
            self.bands.push(label);
            assert(strings(self.bands@) == strings(before).push(label@));
        }
        match width {
            Some(w) => {
                let ghost before = self.bw_parts@;
                self.total_bw.push(w);
                self.bw_parts.push(text_of_tenths(w as i128));
                proof {
                    let k = known(widths);
                    assert(strings(self.bw_parts@) == strings(before).push(tenths_text(w as int)));
                    assert(width_texts(k.push(w as int)) == width_texts(k).push(
                        tenths_text(w as int),
                    ));
                    assert(k.push(w as int).drop_last() == k);
                }
            },
            None => {},
        }
        let ghost before = self.earfcns@;
        self.earfcns.push(earfcn);
        assert(strings(self.earfcns@) == strings(before).push(earfcn@));
        let ghost before = self.pcis@;
        self.pcis.push(pci);
        assert(strings(self.pcis@) == strings(before).push(pci@));
    }
}

/// An optional machine integer as a number.
pub open spec fn opt_int(o: Option<i64>) -> Option<int> {
    match o {
        Some(v) => Some(v as int),
        None => None,
    }
}

/// The width, in tenths of a megahertz, that a bandwidth field stands for.
pub open spec fn width_of(bandwidth: Seq<char>, is_nr: bool) -> Option<int> {
    match parsed_i32(bandwidth) {
        Some(code) => Some(
            if is_nr {
                nr_bandwidth(code)
            } else {
                lte_bandwidth(code)
            },
        ),
        None => None,
    }
}

fn read_width(bandwidth: &str, is_nr: bool) -> (r: Option<i64>)
    ensures
        opt_int(r) == width_of(bandwidth@, is_nr),
        r matches Some(w) ==> -0x1_0000_0000_0000 <= w <= 0x1_0000_0000_0000,
{
    match parse_i32(bandwidth) {
        Some(code) => Some(
            if is_nr {
                decode_nr_bandwidth(code)
            } else {
                decode_lte_bandwidth(code)
            },
        ),
        None => None,
    }
}

// ---------------------------------------------------------------------------
// Serving cells
// ---------------------------------------------------------------------------

/// The serving cells that the lines describe. A line without a radio technology only reports
/// the state of the connection and describes no cell.
pub open spec fn serving_cells(ls: Seq<Seq<char>>) -> Seq<QengServingCell<Seq<char>>>
    decreases ls.len(),
{
    if ls.len() == 0 {
        Seq::empty()
    } else {
        let before = serving_cells(ls.drop_last());
        match parsed_line(ls.last()) {
            Some(ParsedLine::QengServingCell(cell)) if cell.rat.len() > 0 => before.push(cell),
            _ => before,
        }
    }
}

/// The views of serving cells.
pub open spec fn cell_views(v: Seq<QengServingCell>) -> Seq<QengServingCell<Seq<char>>> {
    Seq::new(v.len(), |i: int| v[i]@)
}

/// A cell of NR, by its radio technology.
pub open spec fn is_nr_cell(c: QengServingCell<Seq<char>>) -> bool {
    mentions(c.rat, "NR5G"@)
}

/// The band of a cell, with its technology.
pub open spec fn cell_label(c: QengServingCell<Seq<char>>) -> Seq<char> {
    if is_nr_cell(c) {
        "NR5G BAND "@ + c.band
    } else {
        "LTE BAND "@ + c.band
    }
}

/// The names of the bands of serving cells.
pub open spec fn cell_labels(cells: Seq<QengServingCell<Seq<char>>>) -> Seq<Seq<char>> {
    Seq::new(cells.len(), |i: int| cell_label(cells[i]))
}

/// The bandwidths of serving cells, in tenths of a megahertz.
pub open spec fn cell_widths(cells: Seq<QengServingCell<Seq<char>>>) -> Seq<Option<int>> {
    Seq::new(cells.len(), |i: int| width_of(cells[i].bandwidth, is_nr_cell(cells[i])))
}

/// The channels of serving cells.
pub open spec fn cell_earfcns(cells: Seq<QengServingCell<Seq<char>>>) -> Seq<Seq<char>> {
    Seq::new(cells.len(), |i: int| cells[i].earfcn)
}

/// The cell numbers of serving cells.
pub open spec fn cell_pcis(cells: Seq<QengServingCell<Seq<char>>>) -> Seq<Seq<char>> {
    Seq::new(cells.len(), |i: int| cells[i].pci)
}

/// The base station of a cell: the identity without its sector, three hexadecimal digits in NR
/// and two in LTE. An identity that is too short, or no ASCII text, stays whole.
pub open spec fn station_of(c: QengServingCell<Seq<char>>) -> Option<Seq<char>> {
    let sector: int = if is_nr_cell(c) {
        3
    } else {
        2
    };
    if c.cell_id.len() == 0 {
        None
    } else if !beyond_ascii(c.cell_id) && c.cell_id.len() > sector {
        Some(c.cell_id.take(c.cell_id.len() - sector))
    } else {
        Some(c.cell_id)
    }
}

/// The number that a signal field holds, or `default` where it holds none.
pub open spec fn signal(s: Seq<char>, default: int) -> int {
    match parsed_i32(s) {
        Some(v) => v,
        None => default,
    }
}

/// Where `v` lies between `low` and `low + span`, in whole percent, kept between 0 and 100.
pub open spec fn percent(v: int, low: int, span: int) -> int {
    let p = (v - low) * 100 / span;
    if p < 0 {
        0
    } else if p > 100 {
        100
    } else {
        p
    }
}

/// A signal value with its percentage.
pub open spec fn signal_text(v: int, p: int) -> Seq<char> {
    signed_decimal(v) + " / "@ + signed_decimal(p) + "%"@
}

/// Some cell is the NR carrier of a non-standalone connection.
pub open spec fn has_secondary(cells: Seq<QengServingCell<Seq<char>>>) -> bool {
    exists|i: int| 0 <= i < cells.len() && (#[trigger] cells[i]).rat == "NR5G-NSA"@
}

/// The network mode. An LTE cell that anchors an NR carrier is shown as such.
pub open spec fn mode_text(cells: Seq<QengServingCell<Seq<char>>>) -> Seq<char> {
    if has_secondary(cells) && cells[0].rat == "LTE"@ {
        "NR5G-NSA (LTE 锚点)"@
    } else {
        cells[0].rat + " "@ + cells[0].opmode
    }
}

/// The telemetry `t` with the fields that describe the main cell.
pub open spec fn with_main_cell(
    cells: Seq<QengServingCell<Seq<char>>>,
    t: TelemetryData<Seq<char>>,
) -> TelemetryData<Seq<char>> {
    let pcc = cells[0];
    let rsrp = signal(pcc.rsrp, -140);
    let rsrq = signal(pcc.rsrq, -20);
    let sinr = signal(pcc.sinr, -20);
    TelemetryData {
        network_mode: Some(mode_text(cells)),
        mccmnc: Some(pcc.mcc + pcc.mnc),
        cell_id: Some(pcc.cell_id),
        enb_id: station_of(pcc),
        tac: if pcc.tac.len() == 0 {
            None
        } else {
            Some(pcc.tac)
        },
        assessment: if rsrp > -80 && sinr > 20 {
            Some("Excellent"@)
        } else {
            Some("Good"@)
        },
        ss_rsrp: Some(signal_text(rsrp, percent(rsrp, -140, 96))),
        ss_rsrq: Some(signal_text(rsrq, percent(rsrq, -20, 17))),
        sinr: Some(signal_text(sinr, percent(sinr, -20, 50))),
        signal_percentage: Some(signed_decimal(percent(rsrp, -140, 96)) + "%"@),
        ..t
    }
}

/// The telemetry `t` with what these serving cells say; unchanged where there is none.
pub open spec fn with_cells(
    cells: Seq<QengServingCell<Seq<char>>>,
    t: TelemetryData<Seq<char>>,
) -> TelemetryData<Seq<char>> {
    if cells.len() == 0 {
        t
    } else {
        with_carriers(
            distinct(cell_labels(cells)),
            width_texts(known(cell_widths(cells))),
            double_total(known(cell_widths(cells))),
            cell_earfcns(cells),
            cell_pcis(cells),
            is_nr_cell(cells[0]),
            with_main_cell(cells, t),
        )
    }
}

fn read_serving_cells(response: &str) -> (r: Vec<QengServingCell>)
    ensures
        cell_views(r@) == serving_cells(lines_of(response@)),
{
    let list = lines(response);
    let ghost all = lines_of(response@);
    let mut cells: Vec<QengServingCell> = Vec::new();
    let mut k: usize = 0;
    assert(texts(list@).len() == list@.len());
    assert(cell_views(cells@) == serving_cells(all.take(0)));
    while k < list.len()
        invariant
            k <= list@.len(),
            all == texts(list@),
            all.len() == list@.len(),
            cell_views(cells@) == serving_cells(all.take(k as int)),
        decreases list@.len() - k,
    {
        let line = list[k];
        k += 1;
        assert(all.take(k as int).drop_last() == all.take(k - 1));
        assert(all.take(k as int).last() == line@);
        match parse_single_line(line) {
            Some(ParsedLine::QengServingCell(cell)) => {
                if !cell.rat.as_str().is_empty() {
                    let ghost before = cells@;
                    cells.push(cell);
                    assert(cell_views(cells@) == cell_views(before).push(cell@));
                }
            },
            _ => {},
        }
    }
    assert(all.take(k as int) == all);
    cells
}

fn percent_of(v: i32, low: i64, span: i64) -> (r: i64)
    requires
        -1000 <= low <= 1000,
        0 < span <= 1000,
    ensures
        r == percent(v as int, low as int, span as int),
        0 <= r <= 100,
{
    let above: i64 = v as i64 - low;
    if above < 0 {
        proof {
            assert((above * 100) / (span as int) <= -1) by (nonlinear_arith)
                requires
                    above < 0,
                    span > 0,
            ;
        }
        return 0;
    }
    let p: i64 = above * 100 / span;
    if p > 100 {
        100
    } else {
        p
    }
}

fn signal_of(s: &str, default: i32) -> (r: i32)
    ensures
        r == signal(s@, default as int),
{
    match parse_i32(s) {
        Some(v) => v,
        None => default,
    }
}

fn text_of_signal(v: i32, p: i64) -> (r: String)
    requires
        0 <= p <= 100,
    ensures
        r@ == signal_text(v as int, p as int),
{
    let mut r = signed_text(v as i64);
    r.append(" / ");
    r.append(&signed_text(p));
    r.append("%");
    r
}

fn read_station(c: &QengServingCell) -> (r: Option<String>)
    ensures
        opt_text(r) == station_of(c@),
{
    let cs = chars_of(&c.cell_id);
    let n = cs.len();
    let sector: usize = if contains(&c.rat, "NR5G") {
        3
    } else {
        2
    };
    if n == 0 {
        None
    } else if is_ascii_text(&c.cell_id) && n > sector {
        assert(cs@.subrange(0, n - sector) == cs@.take(n - sector));
        Some(text_of(&cs, 0, n - sector))
    } else {
        Some(c.cell_id.clone())
    }
}

fn any_secondary(cells: &Vec<QengServingCell>) -> (r: bool)
    ensures
        r == has_secondary(cell_views(cells@)),
{
    let ghost views = cell_views(cells@);
    let mut i: usize = 0;
    while i < cells.len()
        invariant
            i <= cells@.len(),
            views == cell_views(cells@),
            forall|j: int| 0 <= j < i ==> (#[trigger] views[j]).rat != "NR5G-NSA"@,
        decreases cells@.len() - i,
    {
        assert(views[i as int] == cells@[i as int]@);
        if same(&cells[i].rat, "NR5G-NSA") {
            return true;
        }
        i += 1;
    }
    false
}

fn set_main_cell(cells: &Vec<QengServingCell>, telemetry: &mut TelemetryData)
    requires
        cells@.len() > 0,
    ensures
        final(telemetry)@ == with_main_cell(cell_views(cells@), old(telemetry)@),
{
    let pcc = &cells[0];
    assert(cell_views(cells@)[0] == pcc@);
    let anchored = any_secondary(cells) && same(&pcc.rat, "LTE");
    telemetry.network_mode = if anchored {
        Some("NR5G-NSA (LTE 锚点)".to_owned())
    } else {
        Some(concat3(&pcc.rat, " ", &pcc.opmode))
    };
    telemetry.mccmnc = Some(concat2(&pcc.mcc, &pcc.mnc));
    telemetry.cell_id = Some(pcc.cell_id.clone());
    telemetry.enb_id = read_station(pcc);
    telemetry.tac = if pcc.tac.as_str().is_empty() {
        None
    } else {
        Some(pcc.tac.clone())
    };
    let rsrp: i32 = signal_of(&pcc.rsrp, -140);
    let rsrq: i32 = signal_of(&pcc.rsrq, -20);
    let sinr: i32 = signal_of(&pcc.sinr, -20);
    let rsrp_pct: i64 = percent_of(rsrp, -140, 96);
    telemetry.assessment = if rsrp > -80 && sinr > 20 {
        Some("Excellent".to_owned())
    } else {
        Some("Good".to_owned())
    };
    telemetry.ss_rsrp = Some(text_of_signal(rsrp, rsrp_pct));
    telemetry.ss_rsrq = Some(text_of_signal(rsrq, percent_of(rsrq, -20, 17)));
    telemetry.sinr = Some(text_of_signal(sinr, percent_of(sinr, -20, 50)));
    telemetry.signal_percentage = Some(concat2(&signed_text(rsrp_pct), "%"));
}

/// Reads the serving cells of a `+QENG` response into the telemetry. The first one is the main
/// cell; all of them are carriers.
pub fn parse_qeng(qeng_res: &str, telemetry: &mut TelemetryData)
    ensures
        final(telemetry)@ == with_cells(serving_cells(lines_of(qeng_res@)), old(telemetry)@),
{
    let cells = read_serving_cells(qeng_res);
    let ghost views = cell_views(cells@);
    if cells.len() == 0 {
        return;
    }
    set_main_cell(&cells, telemetry);
    let mut carriers = Carriers::new();
    let mut i: usize = 0;
    assert(cell_labels(views.take(0)) == Seq::<Seq<char>>::empty());
    assert(cell_widths(views.take(0)) == Seq::<Option<int>>::empty());
    assert(cell_earfcns(views.take(0)) == Seq::<Seq<char>>::empty());
    assert(cell_pcis(views.take(0)) == Seq::<Seq<char>>::empty());
    while i < cells.len()
        invariant
            i <= cells@.len(),
            views == cell_views(cells@),
            carriers.collects(
                cell_labels(views.take(i as int)),
                cell_widths(views.take(i as int)),
                cell_earfcns(views.take(i as int)),
                cell_pcis(views.take(i as int)),
            ),
        decreases cells@.len() - i,
    {
        let cell = &cells[i];
        assert(views[i as int] == cell@);
        let is_nr = contains(&cell.rat, "NR5G");
        let label = concat2(
            if is_nr {
                "NR5G BAND "
            } else {
                "LTE BAND "
            },
            &cell.band,
        );
        let width = read_width(&cell.bandwidth, is_nr);
        let ghost done = views.take(i as int);
        carriers.push(
            label,
            width,
            cell.earfcn.clone(),
            cell.pci.clone(),
            Ghost(cell_labels(done)),
            Ghost(cell_widths(done)),
            Ghost(cell_earfcns(done)),
            Ghost(cell_pcis(done)),
        );
        i += 1;
        proof {
            let now = views.take(i as int);
            assert(cell_labels(now) == cell_labels(done).push(cell_label(cell@)));
            assert(cell_widths(now) == cell_widths(done).push(width_of(cell@.bandwidth, is_nr)));
            assert(cell_earfcns(now) == cell_earfcns(done).push(cell@.earfcn));
            assert(cell_pcis(now) == cell_pcis(done).push(cell@.pci));
        }
    }
    assert(views.take(i as int) == views);
    assert(views[0] == cells@[0]@);
    let is_nr = contains(&cells[0].rat, "NR5G");
    set_carrier_telemetry(
        &carriers.bands,
        &carriers.bw_parts,
        &carriers.total_bw,
        &carriers.earfcns,
        &carriers.pcis,
        is_nr,
        telemetry,
    );
}

// ---------------------------------------------------------------------------
// Carrier aggregation
// ---------------------------------------------------------------------------

/// The carriers that the lines describe.
pub open spec fn carrier_entries(ls: Seq<Seq<char>>) -> Seq<QcainfoEntry<Seq<char>>>
    decreases ls.len(),
{
    if ls.len() == 0 {
        Seq::empty()
    } else {
        let before = carrier_entries(ls.drop_last());
        match parsed_line(ls.last()) {
            Some(ParsedLine::Qcainfo(entry)) => before.push(entry),
            _ => before,
        }
    }
}

/// The views of carriers.
pub open spec fn entry_views(v: Seq<QcainfoEntry>) -> Seq<QcainfoEntry<Seq<char>>> {
    Seq::new(v.len(), |i: int| v[i]@)
}

/// A carrier of NR, by the name of its band.
pub open spec fn is_nr_entry(e: QcainfoEntry<Seq<char>>) -> bool {
    "NR5G"@.is_prefix_of(e.band)
}

/// The band of a carrier: with its technology where the module left that out.
pub open spec fn entry_label(e: QcainfoEntry<Seq<char>>) -> Seq<char> {
    if is_nr_entry(e) || "LTE"@.is_prefix_of(e.band) {
        e.band
    } else {
        "LTE BAND "@ + e.band
    }
}

/// The names of the bands of carriers.
pub open spec fn entry_labels(es: Seq<QcainfoEntry<Seq<char>>>) -> Seq<Seq<char>> {
    Seq::new(es.len(), |i: int| entry_label(es[i]))
}

/// The bandwidths of carriers, in tenths of a megahertz.
pub open spec fn entry_widths(es: Seq<QcainfoEntry<Seq<char>>>) -> Seq<Option<int>> {
    Seq::new(es.len(), |i: int| width_of(es[i].bandwidth, is_nr_entry(es[i])))
}

/// The channels of carriers.
pub open spec fn entry_earfcns(es: Seq<QcainfoEntry<Seq<char>>>) -> Seq<Seq<char>> {
    Seq::new(es.len(), |i: int| es[i].earfcn)
}

/// The cell numbers of carriers.
pub open spec fn entry_pcis(es: Seq<QcainfoEntry<Seq<char>>>) -> Seq<Seq<char>> {
    Seq::new(es.len(), |i: int| es[i].pci)
}

/// Some carrier is one of NR.
pub open spec fn any_nr_entry(es: Seq<QcainfoEntry<Seq<char>>>) -> bool {
    exists|i: int| 0 <= i < es.len() && is_nr_entry(#[trigger] es[i])
}

/// The telemetry `t` with what these carriers say; unchanged where there is none.
pub open spec fn with_entries(
    es: Seq<QcainfoEntry<Seq<char>>>,
    t: TelemetryData<Seq<char>>,
) -> TelemetryData<Seq<char>> {
    if es.len() == 0 {
        t
    } else {
        with_carriers(
            distinct(entry_labels(es)),
            width_texts(known(entry_widths(es))),
            double_total(known(entry_widths(es))),
            entry_earfcns(es),
            entry_pcis(es),
            any_nr_entry(es),
            t,
        )
    }
}

fn read_entries(response: &str) -> (r: Vec<QcainfoEntry>)
    ensures
        entry_views(r@) == carrier_entries(lines_of(response@)),
{
    let list = lines(response);
    let ghost all = lines_of(response@);
    let mut entries: Vec<QcainfoEntry> = Vec::new();
    let mut k: usize = 0;
    assert(texts(list@).len() == list@.len());
    assert(entry_views(entries@) == carrier_entries(all.take(0)));
    while k < list.len()
        invariant
            k <= list@.len(),
            all == texts(list@),
            all.len() == list@.len(),
            entry_views(entries@) == carrier_entries(all.take(k as int)),
        decreases list@.len() - k,
    {
        let line = list[k];
        k += 1;
        assert(all.take(k as int).drop_last() == all.take(k - 1));
        assert(all.take(k as int).last() == line@);
        match parse_single_line(line) {
            Some(ParsedLine::Qcainfo(entry)) => {
                let ghost before = entries@;
                entries.push(entry);
                assert(entry_views(entries@) == entry_views(before).push(entry@));
            },
            _ => {},
        }
    }
    assert(all.take(k as int) == all);
    entries
}

/// Reads the carriers of a `+QCAINFO` response into the telemetry.
pub fn parse_qcainfo(qca_res: &str, telemetry: &mut TelemetryData)
    ensures
        final(telemetry)@ == with_entries(carrier_entries(lines_of(qca_res@)), old(telemetry)@),
{
    let entries = read_entries(qca_res);
    let ghost views = entry_views(entries@);
    if entries.len() == 0 {
        return;
    }
    let mut carriers = Carriers::new();
    let mut any_nr: bool = false;
    let mut i: usize = 0;
    assert(entry_labels(views.take(0)) == Seq::<Seq<char>>::empty());
    assert(entry_widths(views.take(0)) == Seq::<Option<int>>::empty());
    assert(entry_earfcns(views.take(0)) == Seq::<Seq<char>>::empty());
    assert(entry_pcis(views.take(0)) == Seq::<Seq<char>>::empty());
    while i < entries.len()
        invariant
            i <= entries@.len(),
            views == entry_views(entries@),
            any_nr == any_nr_entry(views.take(i as int)),
            carriers.collects(
                entry_labels(views.take(i as int)),
                entry_widths(views.take(i as int)),
                entry_earfcns(views.take(i as int)),
                entry_pcis(views.take(i as int)),
            ),
        decreases entries@.len() - i,
    {
        let entry = &entries[i];
        assert(views[i as int] == entry@);
        let is_nr = starts_with(&entry.band, "NR5G");
        let label = if is_nr || starts_with(&entry.band, "LTE") {
            entry.band.clone()
        } else {
            concat2("LTE BAND ", &entry.band)
        };
        let width = read_width(&entry.bandwidth, is_nr);
        let ghost done = views.take(i as int);
        carriers.push(
            label,
            width,
            entry.earfcn.clone(),
            entry.pci.clone(),
            Ghost(entry_labels(done)),
            Ghost(entry_widths(done)),
            Ghost(entry_earfcns(done)),
            Ghost(entry_pcis(done)),
        );
        let ghost any_before = any_nr;
        any_nr = any_nr || is_nr;
        i += 1;
        proof {
            let now = views.take(i as int);
            assert(entry_labels(now) == entry_labels(done).push(entry_label(entry@)));
            assert(entry_widths(now) == entry_widths(done).push(
                width_of(entry@.bandwidth, is_nr),
            ));
            assert(entry_earfcns(now) == entry_earfcns(done).push(entry@.earfcn));
            assert(entry_pcis(now) == entry_pcis(done).push(entry@.pci));
            assert(now[i - 1] == entry@);
            if any_before {
                let j = choose|j: int| 0 <= j < done.len() && is_nr_entry(#[trigger] done[j]);
                assert(now[j] == done[j]);
            }
            if any_nr_entry(now) && !is_nr {
                let j = choose|j: int| 0 <= j < now.len() && is_nr_entry(#[trigger] now[j]);
                assert(done[j] == now[j]);
            }
        }
    }
    assert(views.take(i as int) == views);
    set_carrier_telemetry(
        &carriers.bands,
        &carriers.bw_parts,
        &carriers.total_bw,
        &carriers.earfcns,
        &carriers.pcis,
        any_nr,
        telemetry,
    );
}

// ---------------------------------------------------------------------------
// Addresses
// ---------------------------------------------------------------------------

/// The IPv4 address that a line gives, if it is a real one.
pub open spec fn ipv4_on(line: Seq<char>) -> Option<Seq<char>> {
    match parsed_line(line) {
        Some(ParsedLine::Cgpaddr(e)) if e.ipv4 != "0.0.0.0"@ && is_ipv4(e.ipv4) => Some(e.ipv4),
        _ => None,
    }
}

/// The IPv6 address that a line gives, in standard form, if it is a real one.
pub open spec fn ipv6_on(line: Seq<char>) -> Option<Seq<char>> {
    match parsed_line(line) {
        Some(ParsedLine::Cgpaddr(e)) if e.ipv6.len() > 0 && e.ipv6 != "0.0.0.0"@ && is_ipv6(
            standard_ipv6(e.ipv6),
        ) => Some(standard_ipv6(e.ipv6)),
        _ => None,
    }
}

/// `before`, or the first IPv4 address on the lines.
pub open spec fn first_ipv4(ls: Seq<Seq<char>>, before: Option<Seq<char>>) -> Option<Seq<char>>
    decreases ls.len(),
{
    if before is Some || ls.len() == 0 {
        before
    } else {
        first_ipv4(ls.skip(1), ipv4_on(ls[0]))
    }
}

/// `before`, or the first IPv6 address on the lines.
pub open spec fn first_ipv6(ls: Seq<Seq<char>>, before: Option<Seq<char>>) -> Option<Seq<char>>
    decreases ls.len(),
{
    if before is Some || ls.len() == 0 {
        before
    } else {
        first_ipv6(ls.skip(1), ipv6_on(ls[0]))
    }
}

/// The telemetry `t` with the addresses on the lines, where it has none.
pub open spec fn with_addresses(
    ls: Seq<Seq<char>>,
    t: TelemetryData<Seq<char>>,
) -> TelemetryData<Seq<char>> {
    TelemetryData { ipv4: first_ipv4(ls, t.ipv4), ipv6: first_ipv6(ls, t.ipv6), ..t }
}

/// Reads the addresses of a `+CGPADDR` response into the telemetry. The first usable address of
/// either kind is taken, and none where the telemetry has one already.
pub fn parse_cgpaddr(gpad_res: &str, telemetry: &mut TelemetryData)
    ensures
        final(telemetry)@ == with_addresses(lines_of(gpad_res@), old(telemetry)@),
{
    let list = lines(gpad_res);
    let ghost all = lines_of(gpad_res@);
    let ghost start = telemetry@;
    let mut k: usize = 0;
    assert(texts(list@).len() == list@.len());
    assert(all.skip(0) == all);
    while k < list.len()
        invariant
            k <= list@.len(),
            all == texts(list@),
            all.len() == list@.len(),
            first_ipv4(all, start.ipv4) == first_ipv4(all.skip(k as int), telemetry@.ipv4),
            first_ipv6(all, start.ipv6) == first_ipv6(all.skip(k as int), telemetry@.ipv6),
            telemetry@ == (TelemetryData {
                ipv4: telemetry@.ipv4,
                ipv6: telemetry@.ipv6,
                ..start
            }),
        decreases list@.len() - k,
    {
        let line = list[k];
        assert(all.skip(k as int)[0] == line@);
        assert(all.skip(k as int).skip(1) == all.skip(k + 1));
        reveal_with_fuel(first_ipv4, 2);
        reveal_with_fuel(first_ipv6, 2);
        if let Some(ParsedLine::Cgpaddr(entry)) = parse_single_line(line) {
            if telemetry.ipv4.is_none() && !same(&entry.ipv4, "0.0.0.0") && is_valid_ipv4(
                &entry.ipv4,
            ) {
                telemetry.ipv4 = Some(entry.ipv4);
            }
            if telemetry.ipv6.is_none() && !entry.ipv6.as_str().is_empty() && !same(
                &entry.ipv6,
                "0.0.0.0",
            ) {
                let normalized = convert_dotted_ipv6_to_standard(&entry.ipv6);
                if is_valid_ipv6(&normalized) {
                    telemetry.ipv6 = Some(normalized);
                }
            }
        }
        k += 1;
    }
}

// ---------------------------------------------------------------------------
// Single values
// ---------------------------------------------------------------------------

/// The module temperature that a line gives: the reading of a processor or modem sensor.
pub open spec fn temperature_on(line: Seq<char>) -> Option<Seq<char>> {
    match parsed_line(line) {
        Some(ParsedLine::Qtemp(q)) => match q.temperature {
            Some(t) if mentions(q.sensor, "cpuss"@) || mentions(q.sensor, "mdmss"@) => Some(
                rounded_text(t) + " °C"@,
            ),
            _ => None,
        },
        _ => None,
    }
}

/// The first module temperature on the lines.
pub open spec fn first_temperature(ls: Seq<Seq<char>>) -> Option<Seq<char>>
    decreases ls.len(),
{
    if ls.len() == 0 {
        None
    } else if temperature_on(ls[0]) is Some {
        temperature_on(ls[0])
    } else {
        first_temperature(ls.skip(1))
    }
}

/// The module temperature in a `+QTEMP` response.
pub fn parse_qtemp_temperature(qtemp_res: &str) -> (r: Option<String>)
    ensures
        opt_text(r) == first_temperature(lines_of(qtemp_res@)),
{
    let list = lines(qtemp_res);
    let ghost all = lines_of(qtemp_res@);
    let mut k: usize = 0;
    assert(texts(list@).len() == list@.len());
    assert(all.skip(0) == all);
    while k < list.len()
        invariant
            k <= list@.len(),
            all == texts(list@),
            all.len() == list@.len(),
            all == lines_of(qtemp_res@),
            first_temperature(all) == first_temperature(all.skip(k as int)),
        decreases list@.len() - k,
    {
        let line = list[k];
        assert(all.skip(k as int)[0] == line@);
        assert(all.skip(k as int).skip(1) == all.skip(k + 1));
        if let Some(ParsedLine::Qtemp(q)) = parse_single_line(line) {
            if contains(&q.sensor, "cpuss") || contains(&q.sensor, "mdmss") {
                if let Some(t) = q.temperature {
                    proof {
                        lemma_reading(line@);
                    }
                    match round_number(&t) {
                        Some(degrees) => {
                            return Some(concat2(&degrees, " °C"));
                        },
                        None => {
                            assert(false);
                        },
                    }
                }
            }
        }
        k += 1;
    }
    None
}

/// The reading of a sensor line is a number.
proof fn lemma_reading(line: Seq<char>)
    ensures
        parsed_line(line) matches Some(ParsedLine::Qtemp(q)) ==> (q.temperature matches Some(t)
            ==> is_number(t)),
{
}

/// The registration that a status code stands for.
pub open spec fn registration(stat: Seq<char>) -> Seq<char> {
    if stat == "1"@ {
        "Registered (home)"@
    } else if stat == "5"@ {
        "Registered (roaming)"@
    } else if stat == "2"@ || stat == "3"@ || stat == "4"@ {
        "Not registered"@
    } else {
        "Unknown"@
    }
}

/// The registration that the first `+CREG` line with a status reports.
pub open spec fn net_status(ls: Seq<Seq<char>>) -> Seq<char>
    decreases ls.len(),
{
    if ls.len() == 0 {
        "Unknown"@
    } else {
        match values_after(trimmed(ls[0]), "+CREG:"@) {
            Some(v) if v.len() > 1 => registration(v[1]),
            _ => net_status(ls.skip(1)),
        }
    }
}

/// The network registration in a `+CREG` response.
pub fn parse_net_status(creg_raw: &str) -> (r: String)
    ensures
        r@ == net_status(lines_of(creg_raw@)),
{
    let list = lines(creg_raw);
    let ghost all = lines_of(creg_raw@);
    let mut k: usize = 0;
    assert(texts(list@).len() == list@.len());
    assert(all.skip(0) == all);
    while k < list.len()
        invariant
            k <= list@.len(),
            all == texts(list@),
            all.len() == list@.len(),
            all == lines_of(creg_raw@),
            net_status(all) == net_status(all.skip(k as int)),
        decreases list@.len() - k,
    {
        let line = list[k];
        assert(all.skip(k as int)[0] == line@);
        assert(all.skip(k as int).skip(1) == all.skip(k + 1));
        if let Some(v) = fields_after_prefix(trim(line), "+CREG:") {
            assert(strings(v@).len() == v@.len());
            if v.len() > 1 {
                let stat = &v[1];
                assert(strings(v@)[1] == stat@);
                return if same(stat, "1") {
                    "Registered (home)"
                } else if same(stat, "5") {
                    "Registered (roaming)"
                } else if same(stat, "2") || same(stat, "3") || same(stat, "4") {
                    "Not registered"
                } else {
                    "Unknown"
                }.to_owned();
            }
        }
        k += 1;
    }
    "Unknown".to_owned()
}

/// The strength that a signal index stands for.
pub open spec fn dbm_text(rssi: int) -> Seq<char> {
    if rssi == 99 {
        "Unknown"@
    } else {
        signed_decimal(-113 + 2 * rssi) + " dBm"@
    }
}

/// The strength that the first `+CSQ` line with an index reports.
pub open spec fn signal_quality(ls: Seq<Seq<char>>) -> Seq<char>
    decreases ls.len(),
{
    if ls.len() == 0 {
        "Unknown"@
    } else {
        match values_after(trimmed(ls[0]), "+CSQ:"@) {
            Some(v) if parsed_i32(field(v, 0)) is Some => dbm_text(parsed_i32(field(v, 0))->0),
            _ => signal_quality(ls.skip(1)),
        }
    }
}

/// The signal strength in a `+CSQ` response.
pub fn parse_signal_quality(csq_raw: &str) -> (r: String)
    ensures
        r@ == signal_quality(lines_of(csq_raw@)),
{
    let list = lines(csq_raw);
    let ghost all = lines_of(csq_raw@);
    let mut k: usize = 0;
    assert(texts(list@).len() == list@.len());
    assert(all.skip(0) == all);
    while k < list.len()
        invariant
            k <= list@.len(),
            all == texts(list@),
            all.len() == list@.len(),
            all == lines_of(csq_raw@),
            signal_quality(all) == signal_quality(all.skip(k as int)),
        decreases list@.len() - k,
    {
        let line = list[k];
        assert(all.skip(k as int)[0] == line@);
        assert(all.skip(k as int).skip(1) == all.skip(k + 1));
        if let Some(v) = fields_after_prefix(trim(line), "+CSQ:") {
            assert(strings(v@)[0] == v@[0]@);
            if let Some(rssi) = parse_i32(&v[0]) {
                if rssi == 99 {
                    return "Unknown".to_owned();
                }
                return concat2(&signed_text(-113 + rssi as i64 * 2), " dBm");
            }
        }
        k += 1;
    }
    "Unknown".to_owned()
}

// ---------------------------------------------------------------------------
// Neighbour cells
// ---------------------------------------------------------------------------

/// The neighbour cells that the lines describe.
pub open spec fn neighbour_cells(ls: Seq<Seq<char>>) -> Seq<QengNeighbourCell<Seq<char>>>
    decreases ls.len(),
{
    if ls.len() == 0 {
        Seq::empty()
    } else {
        let before = neighbour_cells(ls.drop_last());
        match parsed_line(ls.last()) {
            Some(ParsedLine::QengNeighbourCell(cell)) => before.push(cell),
            _ => before,
        }
    }
}

/// The views of neighbour cells.
pub open spec fn neighbour_views(v: Seq<QengNeighbourCell>) -> Seq<QengNeighbourCell<Seq<char>>> {
    Seq::new(v.len(), |i: int| v[i]@)
}

/// The neighbour cells of a `+QENG` response.
pub fn parse_qeng_neighbour(raw: &str) -> (r: Vec<QengNeighbourCell>)
    ensures
        neighbour_views(r@) == neighbour_cells(lines_of(raw@)),
{
    let list = lines(raw);
    let ghost all = lines_of(raw@);
    let mut cells: Vec<QengNeighbourCell> = Vec::new();
    let mut k: usize = 0;
    assert(texts(list@).len() == list@.len());
    assert(neighbour_views(cells@) == neighbour_cells(all.take(0)));
    while k < list.len()
        invariant
            k <= list@.len(),
            all == texts(list@),
            all.len() == list@.len(),
            neighbour_views(cells@) == neighbour_cells(all.take(k as int)),
        decreases list@.len() - k,
    {
        let line = list[k];
        k += 1;
        assert(all.take(k as int).drop_last() == all.take(k - 1));
        assert(all.take(k as int).last() == line@);
        match parse_single_line(line) {
            Some(ParsedLine::QengNeighbourCell(cell)) => {
                let ghost before = cells@;
                cells.push(cell);
                assert(neighbour_views(cells@) == neighbour_views(before).push(cell@));
            },
            _ => {},
        }
    }
    assert(all.take(k as int) == all);
    cells
}

// ---------------------------------------------------------------------------
// Network scan
// ---------------------------------------------------------------------------

/// One network that a scan found.
#[derive(Debug, Clone, PartialEq, Eq)]
pub struct ScannedNetwork<S = String> {
    pub operator: S,
    /// The abbreviated operator, where it is known.
    pub short_name: Option<S>,
    pub mccmnc: S,
    pub technology: S,
    pub status: S,
    pub band: S,
}

impl View for ScannedNetwork {
    type V = ScannedNetwork<Seq<char>>;

    open spec fn view(&self) -> ScannedNetwork<Seq<char>> {
        ScannedNetwork {
            operator: self.operator@,
            short_name: opt_text(self.short_name),
            mccmnc: self.mccmnc@,
            technology: self.technology@,
            status: self.status@,
            band: self.band@,
        }
    }
}

/// The views of scanned networks.
pub open spec fn network_views(v: Seq<ScannedNetwork>) -> Seq<ScannedNetwork<Seq<char>>> {
    Seq::new(v.len(), |i: int| v[i]@)
}

/// The technology that an access technology code of 3GPP TS 27.007 stands for.
pub open spec fn technology_name(act: Seq<char>) -> Seq<char> {
    if act == "0"@ || act == "1"@ || act == "3"@ {
        "GSM"@
    } else if act == "2"@ || act == "4"@ || act == "5"@ || act == "6"@ {
        "WCDMA"@
    } else if act == "7"@ {
        "LTE"@
    } else if act == "8"@ {
        "eMTC"@
    } else if act == "9"@ {
        "NB-IoT"@
    } else if act == "10"@ || act == "11"@ || act == "12"@ || act == "13"@ {
        "NR5G"@
    } else {
        "Unknown"@
    }
}

/// The availability that a status code stands for.
pub open spec fn availability(stat: Seq<char>) -> Seq<char> {
    if stat == "1"@ {
        "Available"@
    } else if stat == "2"@ {
        "Current"@
    } else if stat == "3"@ {
        "Forbidden"@
    } else {
        "Unknown"@
    }
}

/// Part `i` of an entry, without white space and quotes around it.
pub open spec fn entry_part(entry: Seq<char>, i: int) -> Seq<char> {
    stripped(trimmed(pieces(entry, ',')[i]), '"')
}

/// The network that an entry describes; nothing where it has fewer than five parts.
pub open spec fn network_of(entry: Seq<char>) -> Option<ScannedNetwork<Seq<char>>> {
    if pieces(entry, ',').len() >= 5 {
        Some(
            ScannedNetwork {
                operator: entry_part(entry, 1),
                short_name: Some(entry_part(entry, 2)),
                mccmnc: entry_part(entry, 3),
                technology: technology_name(trimmed(entry_part(entry, 4))),
                status: availability(entry_part(entry, 0)),
                band: ""@,
            },
        )
    } else {
        None
    }
}

/// The networks in `body` from position `i` on, at parenthesis depth `depth`, where the outermost
/// open entry began at `start`.
pub open spec fn networks_from(
    body: Seq<char>,
    i: int,
    depth: int,
    start: Option<int>,
) -> Seq<ScannedNetwork<Seq<char>>>
    decreases body.len() - i,
{
    if i < 0 || i >= body.len() {
        Seq::empty()
    } else if body[i] == '(' {
        networks_from(
            body,
            i + 1,
            depth + 1,
            if depth == 0 {
                Some(i + 1)
            } else {
                start
            },
        )
    } else if body[i] == ')' && depth == 1 {
        let rest = networks_from(body, i + 1, 0, None);
        match start {
            Some(s) => match network_of(body.subrange(s, i)) {
                Some(n) => seq![n] + rest,
                None => rest,
            },
            None => rest,
        }
    } else if body[i] == ')' {
        networks_from(body, i + 1, depth - 1, start)
    } else {
        networks_from(body, i + 1, depth, start)
    }
}

/// The networks on a line of a scan result.
pub open spec fn networks_on(line: Seq<char>) -> Seq<ScannedNetwork<Seq<char>>> {
    match after_prefix(trimmed(line), "+COPS:"@) {
        Some(body) => networks_from(trimmed(body), 0, 0, None),
        None => Seq::empty(),
    }
}

/// The networks on the lines of a scan result.
pub open spec fn scanned_networks(ls: Seq<Seq<char>>) -> Seq<ScannedNetwork<Seq<char>>>
    decreases ls.len(),
{
    if ls.len() == 0 {
        Seq::empty()
    } else {
        scanned_networks(ls.drop_last()) + networks_on(ls.last())
    }
}

fn technology_of(act: &str) -> (r: &'static str)
    ensures
        r@ == technology_name(act@),
{
    if same(act, "0") || same(act, "1") || same(act, "3") {
        "GSM"
    } else if same(act, "2") || same(act, "4") || same(act, "5") || same(act, "6") {
        "WCDMA"
    } else if same(act, "7") {
        "LTE"
    } else if same(act, "8") {
        "eMTC"
    } else if same(act, "9") {
        "NB-IoT"
    } else if same(act, "10") || same(act, "11") || same(act, "12") || same(act, "13") {
        "NR5G"
    } else {
        "Unknown"
    }
}

fn availability_of(stat: &str) -> (r: &'static str)
    ensures
        r@ == availability(stat@),
{
    if same(stat, "1") {
        "Available"
    } else if same(stat, "2") {
        "Current"
    } else if same(stat, "3") {
        "Forbidden"
    } else {
        "Unknown"
    }
}

fn read_network(entry: &str) -> (r: Option<ScannedNetwork>)
    ensures
        match r {
            Some(n) => network_of(entry@) == Some(n@),
            None => network_of(entry@) is None,
        },
{
    let parts = split(entry, ',');
    assert(texts(parts@).len() == parts@.len());
    if parts.len() < 5 {
        return None;
    }
    assert(forall|i: int| 0 <= i < 5 ==> pieces(entry@, ',')[i] == (#[trigger] parts@[i])@);
    Some(
        ScannedNetwork {
            operator: trim_matches(trim(parts[1]), '"').to_owned(),
            short_name: Some(trim_matches(trim(parts[2]), '"').to_owned()),
            mccmnc: trim_matches(trim(parts[3]), '"').to_owned(),
            technology: technology_of(trim(trim_matches(trim(parts[4]), '"'))).to_owned(),
            status: availability_of(trim_matches(trim(parts[0]), '"')).to_owned(),
            band: "".to_owned(),
        },
    )
}

/// Appends the networks of one scan line.
fn read_networks(body: &str, networks: &mut Vec<ScannedNetwork>)
    ensures
        network_views(final(networks)@) == network_views(old(networks)@) + networks_from(
            body@,
            0,
            0,
            None,
        ),
{
    let cs = chars_of(body);
    let n = cs.len();
    let mut depth: i128 = 0;
    let mut open: bool = false;
    let mut start: usize = 0;
    let mut i: usize = 0;
    let ghost all = networks_from(body@, 0, 0, None);
    assert(network_views(networks@) + all == network_views(old(networks)@) + all);
    while i < n
        invariant
            i <= n == cs@.len(),
            cs@ == body@,
            -(i as int) <= depth <= i,
            open ==> start <= i,
            network_views(old(networks)@) + all == network_views(networks@) + networks_from(
                body@,
                i as int,
                depth as int,
                if open {
                    Some(start as int)
                } else {
                    None
                },
            ),
        decreases n - i,
    {
        let c = cs[i];
        if c == '(' {
            if depth == 0 {
                open = true;
                start = i + 1;
            }
            depth = depth + 1;
        } else if c == ')' {
            if depth == 1 {
                if open {
                    let entry = text_of(&cs, start, i);
                    if let Some(network) = read_network(&entry) {
                        let ghost before = network_views(networks@);
                        let ghost rest = networks_from(body@, i + 1, 0, None);
                        networks.push(network);
                        assert(network_views(networks@) == before.push(network@));
                        assert(before + (seq![network@] + rest) == before.push(network@) + rest);
                    }
                }
                open = false;
            }
            depth = depth - 1;
        }
        i += 1;
    }
}

/// The networks in the result of a scan.
pub fn parse_cops_scan(resp: &str) -> (r: Vec<ScannedNetwork>)
    ensures
        network_views(r@) == scanned_networks(lines_of(resp@)),
{
    let list = lines(resp);
    let ghost all = lines_of(resp@);
    let mut networks: Vec<ScannedNetwork> = Vec::new();
    let mut k: usize = 0;
    assert(texts(list@).len() == list@.len());
    assert(network_views(networks@) == scanned_networks(all.take(0)));
    while k < list.len()
        invariant
            k <= list@.len(),
            all == texts(list@),
            all.len() == list@.len(),
            network_views(networks@) == scanned_networks(all.take(k as int)),
        decreases list@.len() - k,
    {
        let line = list[k];
        k += 1;
        assert(all.take(k as int).drop_last() == all.take(k - 1));
        assert(all.take(k as int).last() == line@);
        match strip_prefix(trim(line), "+COPS:") {
            Some(body) => {
                read_networks(trim(body), &mut networks);
            },
            None => {},
        }
    }
    assert(all.take(k as int) == all);
    networks
}

} // verus!
