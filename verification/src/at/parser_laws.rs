//! What the telemetry shows of the cells, carriers and networks that a module reports.

use vstd::prelude::*;

use crate::actor::telemetry::TelemetryData;
use crate::at::builder::beyond_ascii;
use crate::at::line::{parsed_line, ParsedLine};
use crate::at::parser::{
    carrier_entries, cell_earfcns, cell_labels, cell_pcis, cell_widths, distinct, entry_earfcns,
    entry_labels, entry_pcis, entry_widths, known, neighbour_cells, percent, serving_cells, signal,
    tenths_text, width_texts, with_carriers, with_cells, with_entries,
};
use crate::at::response::{QcainfoEntry, QengServingCell};
use crate::double::{double_total, law_whole_sums, whole_sum};
use crate::number::{decimal, digit_char, parsed_i32, signed_decimal};
use crate::shortest::{double_text, law_whole_numbers_shown};
use crate::text::{joined, mentions};

verus! {

// ---------------------------------------------------------------------------
// Widths
// ---------------------------------------------------------------------------

/// The width, in tenths of a megahertz, of a carrier whose field for it reads as `code`. NR counts
/// the widths from 5 to 30 in steps of five, then from 40 to 100 in steps of ten, then 200, 400,
/// 35 and 45 MHz. LTE counts resource blocks, five to the megahertz, but for six that take 1.4 MHz.
/// Any other number is one of megahertz.
pub open spec fn is_width(nr: bool, code: int, tenths: int) -> bool {
    &&& nr && 0 <= code <= 5 ==> tenths == 50 * (code + 1)
    &&& nr && 6 <= code <= 12 ==> tenths == 100 * (code - 2)
    &&& nr && 13 <= code <= 14 ==> tenths == 2000 * (code - 12)
    &&& nr && 15 <= code <= 16 ==> tenths == 350 + 100 * (code - 15)
    &&& nr && !(0 <= code <= 16) ==> tenths == 10 * code
    &&& !nr && code == 6 ==> tenths == 14
    &&& !nr && (code == 15 || code == 25 || code == 50 || code == 75 || code == 100) ==> tenths == 2
        * code
    &&& !nr && !(code == 6 || code == 15 || code == 25 || code == 50 || code == 75 || code == 100)
        ==> tenths == 10 * code
}

/// Every carrier has the width that its own field and its own band say, whatever the carriers
/// beside it are: that of NR exactly where its band begins with `NR5G`, that of LTE elsewhere. A
/// field that reads as no number gives no width.
pub proof fn law_carrier_widths(es: Seq<QcainfoEntry<Seq<char>>>)
    ensures
        entry_widths(es).len() == es.len(),
        forall|i: int|
            0 <= i < es.len() ==> match parsed_i32((#[trigger] es[i]).bandwidth) {
                Some(code) => entry_widths(es)[i] matches Some(w) && is_width(
                    "NR5G"@.is_prefix_of(es[i].band),
                    code,
                    w,
                ),
                None => entry_widths(es)[i] is None,
            },
{
}

/// The same holds of serving cells, whose radio technology tells NR from LTE.
pub proof fn law_cell_widths(cells: Seq<QengServingCell<Seq<char>>>)
    ensures
        cell_widths(cells).len() == cells.len(),
        forall|i: int|
            0 <= i < cells.len() ==> match parsed_i32((#[trigger] cells[i]).bandwidth) {
                Some(code) => cell_widths(cells)[i] matches Some(w) && is_width(
                    mentions(cells[i].rat, "NR5G"@),
                    code,
                    w,
                ),
                None => cell_widths(cells)[i] is None,
            },
{
}

/// What is read of some carriers does not depend on those before or after them.
pub proof fn law_carriers_are_independent(
    a: Seq<QcainfoEntry<Seq<char>>>,
    b: Seq<QcainfoEntry<Seq<char>>>,
)
    ensures
        entry_widths(a + b) == entry_widths(a) + entry_widths(b),
        entry_labels(a + b) == entry_labels(a) + entry_labels(b),
        entry_earfcns(a + b) == entry_earfcns(a) + entry_earfcns(b),
        entry_pcis(a + b) == entry_pcis(a) + entry_pcis(b),
{
}

/// What is read of some cells does not depend on those before or after them.
pub proof fn law_cells_are_independent(
    a: Seq<QengServingCell<Seq<char>>>,
    b: Seq<QengServingCell<Seq<char>>>,
)
    ensures
        cell_widths(a + b) == cell_widths(a) + cell_widths(b),
        cell_labels(a + b) == cell_labels(a) + cell_labels(b),
        cell_earfcns(a + b) == cell_earfcns(a) + cell_earfcns(b),
        cell_pcis(a + b) == cell_pcis(a) + cell_pcis(b),
{
}

/// The known widths of two lists one after the other are those of the first, then those of the
/// second; and of a list in which all are known none is lost.
pub proof fn law_known_widths(a: Seq<Option<int>>, b: Seq<Option<int>>)
    ensures
        known(a + b) == known(a) + known(b),
        (forall|i: int| 0 <= i < a.len() ==> (#[trigger] a[i]) is Some) ==> known(a) == Seq::new(
            a.len(),
            |i: int| a[i]->0,
        ),
        (forall|i: int| 0 <= i < a.len() ==> (#[trigger] a[i]) is None) ==> known(a).len() == 0,
    decreases a.len() + b.len(),
{
    if b.len() > 0 {
        law_known_widths(a, b.drop_last());
        assert((a + b).drop_last() == a + b.drop_last());
        assert((a + b).last() == b.last());
    } else {
        assert(a + b == a);
        assert(known(b) == Seq::<int>::empty());
        if a.len() > 0 {
            let h = a.drop_last();
            law_known_widths(h, Seq::empty());
            assert(forall|i: int| 0 <= i < h.len() ==> h[i] == a[i]);
            if forall|i: int| 0 <= i < a.len() ==> (#[trigger] a[i]) is Some {
                assert(a[a.len() - 1] is Some);
                assert(known(a) == Seq::new(a.len(), |i: int| a[i]->0));
            }
            if forall|i: int| 0 <= i < a.len() ==> (#[trigger] a[i]) is None {
                assert(a[a.len() - 1] is None);
            }
        }
    }
}

/// Tenths of a megahertz are written as whole megahertz, with one decimal where they are not whole.
pub proof fn law_tenths(mhz: nat, d: nat)
    requires
        0 < d < 10,
    ensures
        tenths_text(10 * mhz as int) == decimal(mhz),
        tenths_text((10 * mhz + d) as int) == decimal(mhz) + "."@ + seq![digit_char(d)],
        mhz > 0 ==> tenths_text(-(10 * mhz as int)) == "-"@ + decimal(mhz),
{
    reveal_strlit(".");
    reveal_strlit("-");
    assert(10 * mhz % 10 == 0 && 10 * mhz / 10 == mhz);
    assert((10 * mhz + d) % 10 == d && (10 * mhz + d) / 10 == mhz as int);
    let e = Seq::<char>::empty();
    assert(e + decimal(mhz) + e == decimal(mhz));
    assert(seq!['-'] + decimal(mhz) + e == "-"@ + decimal(mhz));
    assert(e + decimal(mhz) + seq!['.', digit_char(d)] == decimal(mhz) + "."@ + seq![digit_char(d)]);
}

// ---------------------------------------------------------------------------
// Carriers
// ---------------------------------------------------------------------------

/// A list keeps the order in which its items first come: what is listed of a beginning is a
/// beginning of what is listed of the whole, and a list without repetitions stays as it is.
pub proof fn law_distinct_keeps_order(list: Seq<Seq<char>>, n: int)
    requires
        0 <= n <= list.len(),
    ensures
        distinct(list.take(n)).is_prefix_of(distinct(list)),
        list.no_duplicates() ==> distinct(list) == list,
    decreases list.len(),
{
    if list.len() > 0 {
        let h = list.drop_last();
        if n < list.len() {
            law_distinct_keeps_order(h, n);
            assert(h.take(n) == list.take(n));
            let d = distinct(list.take(n));
            assert(d == distinct(h).subrange(0, d.len() as int));
            assert(d == distinct(list).subrange(0, d.len() as int));
        } else {
            law_distinct_keeps_order(h, h.len() as int);
            assert(list.take(n) == list);
            assert(distinct(list) == distinct(list).subrange(0, distinct(list).len() as int));
        }
        if list.no_duplicates() {
            assert forall|i: int, j: int| 0 <= i < h.len() && 0 <= j < h.len() && i != j implies h[i]
                != h[j] by {
                assert(list[i] != list[j]);
            }
            assert(h == distinct(h));
            assert forall|i: int| 0 <= i < h.len() implies h[i] != list.last() by {
                assert(list[i] != list[list.len() - 1]);
            }
            assert(!distinct(h).contains(list.last()));
            assert(h.push(list.last()) == list);
        }
    } else {
        assert(list.take(n) == list);
        assert(distinct(list) == distinct(list).subrange(0, 0));
        assert(list == Seq::<Seq<char>>::empty());
    }
}

/// The bands of carriers: a band that names its technology is shown as it is, any other as one of
/// LTE. Each is shown once.
pub proof fn law_carrier_bands(es: Seq<QcainfoEntry<Seq<char>>>, t: TelemetryData<Seq<char>>, i: int)
    requires
        0 <= i < es.len(),
    ensures
        ({
            let label = entry_labels(es)[i];
            let band = es[i].band;
            &&& entry_labels(es).len() == es.len()
            &&& "NR5G"@.is_prefix_of(band) || "LTE"@.is_prefix_of(band) ==> label == band
            &&& !("NR5G"@.is_prefix_of(band) || "LTE"@.is_prefix_of(band)) ==> label == "LTE BAND "@
                + band
            &&& distinct(entry_labels(es)).contains(label)
            &&& with_entries(es, t).bands == Some(joined(distinct(entry_labels(es)), ", "@))
        }),
{
    crate::at::laws::law_distinct(entry_labels(es));
    assert(entry_labels(es).contains(entry_labels(es)[i]));
}

/// The channels and cell numbers of carriers are all listed, in their order and with repetitions.
pub proof fn law_carrier_channels(es: Seq<QcainfoEntry<Seq<char>>>, t: TelemetryData<Seq<char>>)
    ensures
        es.len() > 0 ==> with_entries(es, t).earfcn == Some(
            joined(Seq::new(es.len(), |i: int| es[i].earfcn), ", "@),
        ),
        es.len() > 0 ==> with_entries(es, t).pci == Some(
            joined(Seq::new(es.len(), |i: int| es[i].pci), ", "@),
        ),
        es.len() == 0 ==> with_entries(es, t) == t,
{
}

/// The bandwidth of carriers: `NR` before it exactly where one of them is one of NR, the sum of
/// the known widths in megahertz, and those widths where there are several. Where no width is
/// known it stays as it was.
pub proof fn law_carrier_bandwidth(
    es: Seq<QcainfoEntry<Seq<char>>>,
    t: TelemetryData<Seq<char>>,
    nr: int,
)
    requires
        es.len() > 0,
    ensures
        ({
            let ws = known(entry_widths(es));
            let shown = with_entries(es, t).bandwidth;
            let sum = double_text(double_total(ws)) + " MHz"@;
            let parts = joined(Seq::new(ws.len(), |i: int| tenths_text(ws[i])), "+"@);
            &&& ws.len() == 0 ==> shown == t.bandwidth
            &&& 0 <= nr < es.len() && "NR5G"@.is_prefix_of(es[nr].band) && ws.len() == 1 ==> shown
                == Some("NR "@ + sum)
            &&& 0 <= nr < es.len() && "NR5G"@.is_prefix_of(es[nr].band) && ws.len() > 1 ==> shown
                == Some("NR "@ + sum + " ("@ + parts + ")"@)
            &&& (forall|i: int| 0 <= i < es.len() ==> !"NR5G"@.is_prefix_of((#[trigger] es[i]).band))
                && ws.len() == 1 ==> shown == Some(sum)
            &&& (forall|i: int| 0 <= i < es.len() ==> !"NR5G"@.is_prefix_of((#[trigger] es[i]).band))
                && ws.len() > 1 ==> shown == Some(sum + " ("@ + parts + ")"@)
        }),
{
    let ws = known(entry_widths(es));
    lemma_bandwidth_text(ws);
    if 0 <= nr < es.len() && "NR5G"@.is_prefix_of(es[nr].band) {
        assert(crate::at::parser::is_nr_entry(es[nr]));
        assert(crate::at::parser::any_nr_entry(es));
    }
    if forall|i: int| 0 <= i < es.len() ==> !"NR5G"@.is_prefix_of((#[trigger] es[i]).band) {
        assert(!crate::at::parser::any_nr_entry(es));
    }
}

proof fn lemma_bandwidth_text(ws: Seq<int>)
    ensures
        ({
            let sum = double_text(double_total(ws)) + " MHz"@;
            let parts = joined(Seq::new(ws.len(), |i: int| tenths_text(ws[i])), "+"@);
            let shown = |nr: bool|
                crate::at::parser::bandwidth_text(width_texts(ws), double_total(ws), nr);
            &&& ws.len() <= 1 ==> shown(true) == "NR "@ + sum && shown(false) == sum
            &&& ws.len() > 1 ==> shown(true) == "NR "@ + sum + " ("@ + parts + ")"@
            &&& ws.len() > 1 ==> shown(false) == sum + " ("@ + parts + ")"@
        }),
{
    reveal_strlit("");
    reveal_strlit(" MHz");
    reveal_strlit(" MHz (");
    reveal_strlit(" (");
    let d = double_text(double_total(ws));
    assert(width_texts(ws) == Seq::new(ws.len(), |i: int| tenths_text(ws[i])));
    assert(""@ == Seq::<char>::empty());
    assert(" MHz ("@ == " MHz"@ + " ("@);
    let j = joined(width_texts(ws), "+"@);
    assert("NR "@ + d + " MHz"@ == "NR "@ + (d + " MHz"@));
    assert(""@ + d + " MHz"@ == d + " MHz"@);
    assert("NR "@ + d + " MHz ("@ + j + ")"@ == "NR "@ + (d + " MHz"@) + " ("@ + j + ")"@);
    assert(""@ + d + " MHz ("@ + j + ")"@ == d + " MHz"@ + " ("@ + j + ")"@);
}

// ---------------------------------------------------------------------------
// Serving cells
// ---------------------------------------------------------------------------

/// A signal value as it is shown: with where it lies between `low` and `high`, in whole percent.
pub open spec fn shows_signal(
    shown: Option<Seq<char>>,
    v: int,
    low: int,
    high: int,
    p: int,
) -> bool {
    &&& 0 <= p <= 100
    &&& v <= low ==> p == 0
    &&& v >= high ==> p == 100
    &&& low <= v <= high ==> p * (high - low) <= 100 * (v - low) < (p + 1) * (high - low)
    &&& shown == Some(signed_decimal(v) + " / "@ + decimal(p as nat) + "%"@)
}

/// A signal field reads as `v`; one that is no number reads as the lowest value.
pub open spec fn reads_as(s: Seq<char>, low: int, v: int) -> bool {
    match parsed_i32(s) {
        Some(n) => v == n,
        None => v == low,
    }
}

proof fn lemma_percent(v: int, low: int, high: int)
    requires
        low < high,
    ensures
        ({
            let p = percent(v, low, high - low);
            &&& 0 <= p <= 100
            &&& v <= low ==> p == 0
            &&& v >= high ==> p == 100
            &&& low <= v <= high ==> p * (high - low) <= 100 * (v - low) < (p + 1) * (high - low)
        }),
{
    crate::at::laws::law_percent(v, v, low, high - low);
    let s = high - low;
    let q = (v - low) * 100 / s;
    if low <= v <= high {
        assert(q * s <= 100 * (v - low) < (q + 1) * s) by (nonlinear_arith)
            requires
                s > 0,
                q == (v - low) * 100 / s,
        ;
        assert(0 <= q <= 100) by (nonlinear_arith)
            requires
                s > 0,
                q == (v - low) * 100 / s,
                0 <= v - low <= s,
        ;
    }
}

/// The signal of the main cell: RSRP from -140 to -44 dBm, RSRQ from -20 to -3 dB and SINR from
/// -20 to 30 dB, each with its percentage; that of RSRP is also the strength of the signal.
pub proof fn law_signal_is_shown(
    cells: Seq<QengServingCell<Seq<char>>>,
    t: TelemetryData<Seq<char>>,
    rsrp: int,
    rsrq: int,
    sinr: int,
)
    requires
        cells.len() > 0,
        reads_as(cells[0].rsrp, -140, rsrp),
        reads_as(cells[0].rsrq, -20, rsrq),
        reads_as(cells[0].sinr, -20, sinr),
    ensures
        ({
            let r = with_cells(cells, t);
            &&& exists|p: int| #[trigger]
                shows_signal(r.ss_rsrp, rsrp, -140, -44, p) && r.signal_percentage == Some(
                    decimal(p as nat) + "%"@,
                )
            &&& exists|p: int| #[trigger] shows_signal(r.ss_rsrq, rsrq, -20, -3, p)
            &&& exists|p: int| #[trigger] shows_signal(r.sinr, sinr, -20, 30, p)
        }),
{
    let r = with_cells(cells, t);
    lemma_percent(rsrp, -140, -44);
    lemma_percent(rsrq, -20, -3);
    lemma_percent(sinr, -20, 30);
    assert(signal(cells[0].rsrp, -140) == rsrp);
    assert(shows_signal(r.ss_rsrp, rsrp, -140, -44, percent(rsrp, -140, 96)));
    assert(shows_signal(r.ss_rsrq, rsrq, -20, -3, percent(rsrq, -20, 17)));
    assert(shows_signal(r.sinr, sinr, -20, 30, percent(sinr, -20, 50)));
}

/// The signal of the main cell is excellent exactly where its RSRP reads as a number above -80 and
/// its SINR as a number above 20; otherwise it is good.
pub proof fn law_assessment(
    cells: Seq<QengServingCell<Seq<char>>>,
    t: TelemetryData<Seq<char>>,
)
    requires
        cells.len() > 0,
    ensures
        ({
            let a = with_cells(cells, t).assessment;
            let strong = parsed_i32(cells[0].rsrp) matches Some(v) && v > -80;
            let clear = parsed_i32(cells[0].sinr) matches Some(v) && v > 20;
            &&& a == Some("Excellent"@) <==> strong && clear
            &&& a == Some("Good"@) <==> !(strong && clear)
        }),
{
    reveal_strlit("Excellent");
    reveal_strlit("Good");
    assert("Excellent"@.len() == 9 && "Good"@.len() == 4);
}

/// The identity of the main cell: the network code is the country code and then the operator
/// code; the base station is the cell identity without its last three digits in NR, two in LTE.
pub proof fn law_main_cell_identity(
    cells: Seq<QengServingCell<Seq<char>>>,
    t: TelemetryData<Seq<char>>,
)
    requires
        cells.len() > 0,
    ensures
        ({
            let r = with_cells(cells, t);
            let c = cells[0];
            let sector: int = if mentions(c.rat, "NR5G"@) {
                3
            } else {
                2
            };
            &&& r.mccmnc == Some(c.mcc + c.mnc)
            &&& r.cell_id == Some(c.cell_id)
            &&& c.tac.len() > 0 ==> r.tac == Some(c.tac)
            &&& c.tac.len() == 0 ==> r.tac is None
            &&& c.cell_id.len() == 0 <==> r.enb_id is None
            &&& c.cell_id.len() > sector && !beyond_ascii(c.cell_id) ==> (r.enb_id matches Some(e)
                && e.len() + sector == c.cell_id.len() && e.is_prefix_of(c.cell_id))
            &&& 0 < c.cell_id.len() && (c.cell_id.len() <= sector || beyond_ascii(c.cell_id))
                ==> r.enb_id == Some(c.cell_id)
        }),
{
    let c = cells[0];
    let n: int = if mentions(c.rat, "NR5G"@) {
        3
    } else {
        2
    };
    if c.cell_id.len() > n {
        let e = c.cell_id.take(c.cell_id.len() - n);
        assert(e == c.cell_id.subrange(0, e.len() as int));
    }
}

/// The network mode is the technology and the duplex mode of the main cell; an LTE cell beside an
/// NR carrier of a non-standalone connection is shown as its anchor.
pub proof fn law_network_mode(
    cells: Seq<QengServingCell<Seq<char>>>,
    t: TelemetryData<Seq<char>>,
    k: int,
)
    requires
        cells.len() > 0,
    ensures
        ({
            let mode = with_cells(cells, t).network_mode;
            let c = cells[0];
            &&& c.rat == "LTE"@ && 0 <= k < cells.len() && cells[k].rat == "NR5G-NSA"@ ==> mode == Some(
                "NR5G-NSA (LTE 锚点)"@,
            )
            &&& c.rat != "LTE"@ ==> mode == Some(c.rat + " "@ + c.opmode)
            &&& (forall|i: int| 0 <= i < cells.len() ==> (#[trigger] cells[i]).rat != "NR5G-NSA"@)
                ==> mode == Some(c.rat + " "@ + c.opmode)
        }),
{
}

/// The bands, channels and cell numbers of all serving cells are shown, and their bandwidth with
/// `NR` before it exactly where the main cell is one of NR.
pub proof fn law_cells_are_shown(
    cells: Seq<QengServingCell<Seq<char>>>,
    t: TelemetryData<Seq<char>>,
    i: int,
)
    requires
        0 <= i < cells.len(),
    ensures
        ({
            let r = with_cells(cells, t);
            let ws = known(cell_widths(cells));
            let sum = double_text(double_total(ws)) + " MHz"@;
            let parts = joined(Seq::new(ws.len(), |i: int| tenths_text(ws[i])), "+"@);
            let nr = mentions(cells[0].rat, "NR5G"@);
            &&& mentions(cells[i].rat, "NR5G"@) ==> cell_labels(cells)[i] == "NR5G BAND "@
                + cells[i].band
            &&& !mentions(cells[i].rat, "NR5G"@) ==> cell_labels(cells)[i] == "LTE BAND "@
                + cells[i].band
            &&& cell_labels(cells).len() == cells.len()
            &&& distinct(cell_labels(cells)).contains(cell_labels(cells)[i])
            &&& r.bands == Some(joined(distinct(cell_labels(cells)), ", "@))
            &&& r.earfcn == Some(joined(Seq::new(cells.len(), |i: int| cells[i].earfcn), ", "@))
            &&& r.pci == Some(joined(Seq::new(cells.len(), |i: int| cells[i].pci), ", "@))
            &&& ws.len() == 0 ==> r.bandwidth == t.bandwidth
            &&& nr && ws.len() == 1 ==> r.bandwidth == Some("NR "@ + sum)
            &&& !nr && ws.len() == 1 ==> r.bandwidth == Some(sum)
            &&& nr && ws.len() > 1 ==> r.bandwidth == Some("NR "@ + sum + " ("@ + parts + ")"@)
            &&& !nr && ws.len() > 1 ==> r.bandwidth == Some(sum + " ("@ + parts + ")"@)
        }),
{
    let ws = known(cell_widths(cells));
    lemma_bandwidth_text(ws);
    crate::at::laws::law_distinct(cell_labels(cells));
    assert(cell_labels(cells).contains(cell_labels(cells)[i]));
}

/// Reading serving cells leaves alone what they do not describe.
pub proof fn law_cells_keep_the_rest(
    cells: Seq<QengServingCell<Seq<char>>>,
    t: TelemetryData<Seq<char>>,
)
    ensures
        ({
            let r = with_cells(cells, t);
            &&& r.temperature == t.temperature
            &&& r.sim_status == t.sim_status
            &&& r.internet_connection == t.internet_connection
            &&& r.active_sim == t.active_sim
            &&& r.network_provider == t.network_provider
            &&& r.apn == t.apn
            &&& r.ipv4 == t.ipv4
            &&& r.ipv6 == t.ipv6
            &&& r.uptime == t.uptime
            &&& r.traffic_stats == t.traffic_stats
            &&& r.updated == t.updated
        }),
{
}

/// The cells, carriers and neighbours of a response are those of its lines, in their order.
pub proof fn law_lines_in_order(a: Seq<Seq<char>>, b: Seq<Seq<char>>)
    ensures
        serving_cells(a + b) == serving_cells(a) + serving_cells(b),
        carrier_entries(a + b) == carrier_entries(a) + carrier_entries(b),
        neighbour_cells(a + b) == neighbour_cells(a) + neighbour_cells(b),
    decreases b.len(),
{
    if b.len() == 0 {
        assert(a + b == a);
    } else {
        law_lines_in_order(a, b.drop_last());
        assert((a + b).drop_last() == a + b.drop_last());
        assert((a + b).last() == b.last());
    }
}

/// A line that describes a cell with a technology, a carrier or a neighbour adds it; any other
/// line adds nothing.
pub proof fn law_one_line(line: Seq<char>)
    ensures
        parsed_line(line) matches Some(ParsedLine::QengServingCell(c)) ==> serving_cells(seq![line])
            == (if c.rat.len() > 0 {
            seq![c]
        } else {
            seq![]
        }),
        parsed_line(line) matches Some(ParsedLine::Qcainfo(e)) ==> carrier_entries(seq![line])
            == seq![e],
        parsed_line(line) matches Some(ParsedLine::QengNeighbourCell(n)) ==> neighbour_cells(
            seq![line],
        ) == seq![n],
        !(parsed_line(line) matches Some(ParsedLine::QengServingCell(_))) ==> serving_cells(
            seq![line],
        ).len() == 0,
        !(parsed_line(line) matches Some(ParsedLine::Qcainfo(_))) ==> carrier_entries(
            seq![line],
        ).len() == 0,
        !(parsed_line(line) matches Some(ParsedLine::QengNeighbourCell(_))) ==> neighbour_cells(
            seq![line],
        ).len() == 0,
{
    let ls = seq![line];
    assert(ls.drop_last() == Seq::<Seq<char>>::empty());
    assert(ls.last() == line);
    reveal_with_fuel(serving_cells, 2);
    reveal_with_fuel(carrier_entries, 2);
    reveal_with_fuel(neighbour_cells, 2);
    assert(serving_cells(ls.drop_last()) == Seq::<QengServingCell<Seq<char>>>::empty());
}

// ---------------------------------------------------------------------------
// Whole megahertz
// ---------------------------------------------------------------------------

proof fn lemma_whole_parts(ws: Seq<int>, mhz: Seq<nat>)
    requires
        ws.len() == mhz.len(),
        forall|i: int| 0 <= i < ws.len() ==> #[trigger] ws[i] == 10 * mhz[i],
        whole_sum(mhz) < 0x10_0000_0000_0000,
    ensures
        double_text(double_total(ws)) == decimal(whole_sum(mhz)),
        Seq::new(ws.len(), |i: int| tenths_text(ws[i])) == Seq::new(
            mhz.len(),
            |i: int| decimal(mhz[i]),
        ),
{
    assert(ws == Seq::new(mhz.len(), |i: int| 10 * mhz[i] as int));
    law_whole_sums(mhz);
    law_whole_numbers_shown(whole_sum(mhz));
    assert forall|i: int| 0 <= i < ws.len() implies tenths_text(ws[i]) == decimal(mhz[i]) by {
        law_tenths(mhz[i], 1);
        assert(ws[i] == 10 * mhz[i]);
    }
}

/// Carriers of whole megahertz, whatever their technologies: the sum of their widths is shown, and
/// each width where there are several, in their order.
pub proof fn law_whole_carriers(
    es: Seq<QcainfoEntry<Seq<char>>>,
    mhz: Seq<nat>,
    t: TelemetryData<Seq<char>>,
)
    requires
        es.len() > 0,
        mhz.len() == es.len(),
        whole_sum(mhz) < 0x10_0000_0000_0000,
        forall|i: int|
            0 <= i < es.len() ==> (parsed_i32((#[trigger] es[i]).bandwidth) matches Some(code)
                && is_width("NR5G"@.is_prefix_of(es[i].band), code, 10 * mhz[i] as int)),
    ensures
        ({
            let shown = with_entries(es, t).bandwidth;
            let parts = joined(Seq::new(mhz.len(), |i: int| decimal(mhz[i])), "+"@);
            let sum = decimal(whole_sum(mhz)) + " MHz"@;
            let some_nr = exists|i: int| 0 <= i < es.len() && "NR5G"@.is_prefix_of(
                (#[trigger] es[i]).band,
            );
            &&& es.len() == 1 && some_nr ==> shown == Some("NR "@ + sum)
            &&& es.len() == 1 && !some_nr ==> shown == Some(sum)
            &&& es.len() > 1 && some_nr ==> shown == Some("NR "@ + sum + " ("@ + parts + ")"@)
            &&& es.len() > 1 && !some_nr ==> shown == Some(sum + " ("@ + parts + ")"@)
        }),
{
    law_carrier_widths(es);
    let ws = entry_widths(es);
    assert forall|i: int| 0 <= i < ws.len() implies #[trigger] ws[i] == Some(10 * mhz[i] as int) by {
        assert(parsed_i32(es[i].bandwidth) is Some);
    }
    law_known_widths(ws, Seq::empty());
    let k = known(ws);
    assert(k == Seq::new(ws.len(), |i: int| ws[i]->0));
    lemma_whole_parts(k, mhz);
    if exists|i: int| 0 <= i < es.len() && "NR5G"@.is_prefix_of((#[trigger] es[i]).band) {
        let nr = choose|i: int| 0 <= i < es.len() && "NR5G"@.is_prefix_of((#[trigger] es[i]).band);
        law_carrier_bandwidth(es, t, nr);
    } else {
        law_carrier_bandwidth(es, t, 0);
    }
}

/// Serving cells of whole megahertz are shown in the same way, by the technology of the main cell.
pub proof fn law_whole_cells(
    cells: Seq<QengServingCell<Seq<char>>>,
    mhz: Seq<nat>,
    t: TelemetryData<Seq<char>>,
)
    requires
        cells.len() > 0,
        mhz.len() == cells.len(),
        whole_sum(mhz) < 0x10_0000_0000_0000,
        forall|i: int|
            0 <= i < cells.len() ==> (parsed_i32((#[trigger] cells[i]).bandwidth) matches Some(code)
                && is_width(mentions(cells[i].rat, "NR5G"@), code, 10 * mhz[i] as int)),
    ensures
        ({
            let shown = with_cells(cells, t).bandwidth;
            let parts = joined(Seq::new(mhz.len(), |i: int| decimal(mhz[i])), "+"@);
            let sum = decimal(whole_sum(mhz)) + " MHz"@;
            let nr = mentions(cells[0].rat, "NR5G"@);
            &&& cells.len() == 1 && nr ==> shown == Some("NR "@ + sum)
            &&& cells.len() == 1 && !nr ==> shown == Some(sum)
            &&& cells.len() > 1 && nr ==> shown == Some("NR "@ + sum + " ("@ + parts + ")"@)
            &&& cells.len() > 1 && !nr ==> shown == Some(sum + " ("@ + parts + ")"@)
        }),
{
    law_cell_widths(cells);
    let ws = cell_widths(cells);
    assert forall|i: int| 0 <= i < ws.len() implies #[trigger] ws[i] == Some(10 * mhz[i] as int) by {
        assert(parsed_i32(cells[i].bandwidth) is Some);
    }
    law_known_widths(ws, Seq::empty());
    let k = known(ws);
    assert(k == Seq::new(ws.len(), |i: int| ws[i]->0));
    lemma_whole_parts(k, mhz);
    law_cells_are_shown(cells, t, 0);
}

/// A list of carriers' values is shown in its own place; an empty one leaves that place as it was.
/// Nothing else changes.
pub proof fn law_carrier_lists(
    bands: Seq<Seq<char>>,
    parts: Seq<Seq<char>>,
    sum: int,
    earfcns: Seq<Seq<char>>,
    pcis: Seq<Seq<char>>,
    is_nr: bool,
    t: TelemetryData<Seq<char>>,
)
    ensures
        ({
            let r = with_carriers(bands, parts, sum, earfcns, pcis, is_nr, t);
            &&& bands.len() == 0 ==> r.bands == t.bands
            &&& parts.len() == 0 ==> r.bandwidth == t.bandwidth
            &&& earfcns.len() == 0 ==> r.earfcn == t.earfcn
            &&& pcis.len() == 0 ==> r.pci == t.pci
            &&& bands.len() > 0 ==> r.bands == Some(joined(bands, ", "@))
            &&& earfcns.len() > 0 ==> r.earfcn == Some(joined(earfcns, ", "@))
            &&& pcis.len() > 0 ==> r.pci == Some(joined(pcis, ", "@))
            &&& parts.len() > 0 ==> r.bandwidth is Some
            &&& r == (TelemetryData {
                bands: r.bands,
                bandwidth: r.bandwidth,
                earfcn: r.earfcn,
                pci: r.pci,
                ..t
            })
        }),
{
}

} // verus!
