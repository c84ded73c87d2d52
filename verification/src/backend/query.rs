//! Queries that take several commands: the operator and the bands in use.

use vstd::prelude::*;
use vstd::string::StringExecFns;

use crate::at::line::{parse_single_line, parsed_line, ParsedLine};
use crate::at::parser::distinct;
use crate::at::utils::{decode_hex_ucs2, ucs2_text};
use crate::backend::process::{plain, send_at_command_inner};
use crate::backend::{reply_view, reply_views, Step};
use crate::number::{decimal, decimal_text, parse_u32, parsed_uint};
use crate::text::{
    after_prefix, concat2, contains, holds, join, joined, lines, lines_of, mentions, opt_text, same,
    strings, strip_prefix, stripped_start, texts, trim, trim_start_matches, trimmed,
};

verus! {

// ---------------------------------------------------------------------------
// The operator
// ---------------------------------------------------------------------------

/// A name that may have come as UCS-2.
pub open spec fn decoded_name(s: Seq<char>) -> Seq<char> {
    if ucs2_text(s).len() > 0 {
        ucs2_text(s)
    } else {
        s
    }
}

fn decode_name(s: &str) -> (r: String)
    ensures
        r@ == decoded_name(s@),
{
    let decoded = decode_hex_ucs2(s);
    if decoded.as_str().is_empty() {
        s.to_owned()
    } else {
        decoded
    }
}

/// The operator that a `+QSPN` line names.
pub open spec fn qspn_name_on(line: Seq<char>) -> Option<Seq<char>> {
    match parsed_line(line) {
        Some(ParsedLine::Qspn(q)) if q.fnn.len() > 0 && q.fnn != "????"@ => Some(
            decoded_name(q.fnn),
        ),
        _ => None,
    }
}

fn read_qspn_name(line: &str) -> (r: Option<String>)
    ensures
        opt_text(r) == qspn_name_on(line@),
{
    match parse_single_line(line) {
        Some(ParsedLine::Qspn(q)) => if !q.fnn.as_str().is_empty() && !same(&q.fnn, "????") {
            Some(decode_name(&q.fnn))
        } else {
            None
        },
        _ => None,
    }
}

/// The operator that the first such line names.
pub open spec fn first_qspn_name(ls: Seq<Seq<char>>) -> Option<Seq<char>>
    decreases ls.len(),
{
    if ls.len() == 0 {
        None
    } else if qspn_name_on(ls[0]) is Some {
        qspn_name_on(ls[0])
    } else {
        first_qspn_name(ls.skip(1))
    }
}

/// The operator in a `+QSPN` response.
pub fn find_qspn_name(response: &str) -> (r: Option<String>)
    ensures
        opt_text(r) == first_qspn_name(lines_of(response@)),
{
    let list = lines(response);
    let ghost all = lines_of(response@);
    let mut k: usize = 0;
    assert(texts(list@).len() == list@.len());
    assert(all.skip(0) == all);
    while k < list.len()
        invariant
            k <= list@.len(),
            all == lines_of(response@),
            all == texts(list@),
            all.len() == list@.len(),
            first_qspn_name(all) == first_qspn_name(all.skip(k as int)),
        decreases list@.len() - k,
    {
        let found = read_qspn_name(list[k]);
        assert(all.skip(k as int)[0] == list@[k as int]@);
        assert(all.skip(k as int).skip(1) == all.skip(k + 1));
        if found.is_some() {
            return found;
        }
        k += 1;
    }
    None
}

/// The operator that a `+COPS` line names.
pub open spec fn cops_name_on(line: Seq<char>) -> Option<Seq<char>> {
    match parsed_line(line) {
        Some(ParsedLine::Cops(c)) => match c.oper {
            Some(oper) if trimmed(oper).len() > 0 && trimmed(oper) != "????"@ => Some(
                decoded_name(trimmed(oper)),
            ),
            _ => None,
        },
        _ => None,
    }
}

fn read_cops_name(line: &str) -> (r: Option<String>)
    ensures
        opt_text(r) == cops_name_on(line@),
{
    match parse_single_line(line) {
        Some(ParsedLine::Cops(c)) => match c.oper {
            Some(oper) => {
                let t = trim(&oper);
                if !t.is_empty() && !same(t, "????") {
                    Some(decode_name(t))
                } else {
                    None
                }
            },
            None => None,
        },
        _ => None,
    }
}

/// The operator that the first such line names.
pub open spec fn first_cops_name(ls: Seq<Seq<char>>) -> Option<Seq<char>>
    decreases ls.len(),
{
    if ls.len() == 0 {
        None
    } else if cops_name_on(ls[0]) is Some {
        cops_name_on(ls[0])
    } else {
        first_cops_name(ls.skip(1))
    }
}

/// The operator in a `+COPS` response.
pub fn find_cops_name(response: &str) -> (r: Option<String>)
    ensures
        opt_text(r) == first_cops_name(lines_of(response@)),
{
    let list = lines(response);
    let ghost all = lines_of(response@);
    let mut k: usize = 0;
    assert(texts(list@).len() == list@.len());
    assert(all.skip(0) == all);
    while k < list.len()
        invariant
            k <= list@.len(),
            all == lines_of(response@),
            all == texts(list@),
            all.len() == list@.len(),
            first_cops_name(all) == first_cops_name(all.skip(k as int)),
        decreases list@.len() - k,
    {
        let found = read_cops_name(list[k]);
        assert(all.skip(k as int)[0] == list@[k as int]@);
        assert(all.skip(k as int).skip(1) == all.skip(k + 1));
        if found.is_some() {
            return found;
        }
        k += 1;
    }
    None
}

/// The network code that a serving cell line gives.
pub open spec fn network_code_on(line: Seq<char>) -> Option<Seq<char>> {
    match parsed_line(line) {
        Some(ParsedLine::QengServingCell(c)) => Some(c.mcc + c.mnc),
        _ => None,
    }
}

fn read_network_code(line: &str) -> (r: Option<String>)
    ensures
        opt_text(r) == network_code_on(line@),
{
    match parse_single_line(line) {
        Some(ParsedLine::QengServingCell(c)) => Some(concat2(&c.mcc, &c.mnc)),
        _ => None,
    }
}

/// The network code that the first such line gives.
pub open spec fn first_network_code(ls: Seq<Seq<char>>) -> Option<Seq<char>>
    decreases ls.len(),
{
    if ls.len() == 0 {
        None
    } else if network_code_on(ls[0]) is Some {
        network_code_on(ls[0])
    } else {
        first_network_code(ls.skip(1))
    }
}

/// The network code in a `+QENG` response.
pub fn find_network_code(response: &str) -> (r: Option<String>)
    ensures
        opt_text(r) == first_network_code(lines_of(response@)),
{
    let list = lines(response);
    let ghost all = lines_of(response@);
    let mut k: usize = 0;
    assert(texts(list@).len() == list@.len());
    assert(all.skip(0) == all);
    while k < list.len()
        invariant
            k <= list@.len(),
            all == lines_of(response@),
            all == texts(list@),
            all.len() == list@.len(),
            first_network_code(all) == first_network_code(all.skip(k as int)),
        decreases list@.len() - k,
    {
        let found = read_network_code(list[k]);
        assert(all.skip(k as int)[0] == list@[k as int]@);
        assert(all.skip(k as int).skip(1) == all.skip(k + 1));
        if found.is_some() {
            return found;
        }
        k += 1;
    }
    None
}

/// The operator with a network code.
pub open spec fn operator_of(code: Seq<char>) -> Seq<char> {
    if code == "46000"@ || code == "46002"@ || code == "46007"@ {
        "中国移动"@
    } else if code == "46001"@ {
        "中国联通"@
    } else if code == "46003"@ || code == "46011"@ {
        "中国电信"@
    } else {
        "Unknown"@
    }
}

fn read_operator(code: &str) -> (r: &'static str)
    ensures
        r@ == operator_of(code@),
{
    if same(code, "46000") || same(code, "46002") || same(code, "46007") {
        "中国移动"
    } else if same(code, "46001") {
        "中国联通"
    } else if same(code, "46003") || same(code, "46011") {
        "中国电信"
    } else {
        "Unknown"
    }
}

/// The operator in the reply to `AT+QSPN`.
pub open spec fn qspn_reply(r: Result<Seq<char>, Seq<char>>) -> Option<Seq<char>> {
    match r {
        Ok(resp) => first_qspn_name(lines_of(resp)),
        Err(_) => None,
    }
}

/// The operator in the reply to `AT+COPS?`.
pub open spec fn cops_reply(r: Result<Seq<char>, Seq<char>>) -> Option<Seq<char>> {
    match r {
        Ok(resp) => first_cops_name(lines_of(resp)),
        Err(_) => None,
    }
}

/// The operator by the network code in the reply to `AT+QENG`.
pub open spec fn code_reply(r: Result<Seq<char>, Seq<char>>) -> Seq<char> {
    match r {
        Ok(resp) => match first_network_code(lines_of(resp)) {
            Some(code) => operator_of(code),
            None => "Unknown"@,
        },
        Err(_) => "Unknown"@,
    }
}

/// Finds the operator, and how many replies that took: the name that the network gives, else the
/// name of the selected operator, else the operator with the code of the serving cell.
pub open spec fn provider_step(
    replies: Seq<Result<Seq<char>, Seq<char>>>,
) -> Step<(Seq<char>, int), Seq<char>> {
    if replies.len() == 0 {
        Step::Send(plain("AT+QSPN"@))
    } else if let Some(name) = qspn_reply(replies[0]) {
        Step::Done((name, 1))
    } else if replies.len() == 1 {
        Step::Send(plain("AT+COPS?"@))
    } else if let Some(name) = cops_reply(replies[1]) {
        Step::Done((name, 2))
    } else if replies.len() == 2 {
        Step::Send(plain("AT+QENG=\"servingcell\""@))
    } else {
        Step::Done((code_reply(replies[2]), 3))
    }
}

/// Finds the operator from the replies after the first `from`.
pub fn fetch_network_provider(
    replies: &Vec<Result<String, String>>,
    from: usize,
) -> (r: Step<(String, usize)>)
    requires
        from <= replies@.len(),
    ensures
        match r {
            Step::Send(c) => provider_step(reply_views(replies@).skip(from as int)) == Step::<
                (Seq<char>, int),
                Seq<char>,
            >::Send(c@),
            Step::Done((name, used)) => provider_step(reply_views(replies@).skip(from as int))
                == Step::<(Seq<char>, int), Seq<char>>::Done((name@, used as int)) && from + used
                <= replies@.len(),
        },
{
    let n = replies.len() - from;
    let ghost views = reply_views(replies@).skip(from as int);
    assert(views.len() == n);
    if n == 0 {
        return Step::Send(send_at_command_inner("AT+QSPN"));
    }
    assert(views[0] == reply_view(replies@[from as int]));
    if let Ok(resp) = &replies[from] {
        if let Some(name) = find_qspn_name(resp) {
            return Step::Done((name, 1));
        }
    }
    if n == 1 {
        return Step::Send(send_at_command_inner("AT+COPS?"));
    }
    assert(views[1] == reply_view(replies@[from + 1]));
    if let Ok(resp) = &replies[from + 1] {
        if let Some(name) = find_cops_name(resp) {
            return Step::Done((name, 2));
        }
    }
    if n == 2 {
        return Step::Send(send_at_command_inner("AT+QENG=\"servingcell\""));
    }
    assert(views[2] == reply_view(replies@[from + 2]));
    if let Ok(resp) = &replies[from + 2] {
        if let Some(code) = find_network_code(resp) {
            return Step::Done((read_operator(&code).to_owned(), 3));
        }
    }
    Step::Done(("Unknown".to_owned(), 3))
}

// ---------------------------------------------------------------------------
// Bands
// ---------------------------------------------------------------------------

/// The number after `prefix` in the name of a band.
pub open spec fn band_number(band: Seq<char>, prefix: Seq<char>) -> Option<nat> {
    match after_prefix(band, prefix) {
        Some(rest) => parsed_uint(trimmed(rest), u32::MAX as nat),
        None => None,
    }
}

/// A band as its number, and whether it is one of NR. Without a technology in its name a band
/// above 100 counts as NR.
pub open spec fn classified_band(band: Seq<char>) -> Option<(bool, nat)> {
    if let Some(n) = band_number(band, "NR5G BAND "@) {
        Some((true, n))
    } else if let Some(n) = band_number(band, "LTE BAND "@) {
        Some((false, n))
    } else if let Some(n) = parsed_uint(band, u32::MAX as nat) {
        Some((n > 100, n))
    } else {
        None
    }
}

/// The number of an NR band and that of an LTE band; one of them where the name tells it.
pub fn classify_qcainfo_band(band: &str) -> (r: (Option<u32>, Option<u32>))
    ensures
        match classified_band(band@) {
            Some((is_nr, n)) => if is_nr {
                r == (Some(n as u32), None::<u32>)
            } else {
                r == (None::<u32>, Some(n as u32))
            },
            None => r == (None::<u32>, None::<u32>),
        },
{
    if let Some(rest) = strip_prefix(band, "NR5G BAND ") {
        if let Some(n) = parse_u32(trim(rest)) {
            return (Some(n), None);
        }
    }
    if let Some(rest) = strip_prefix(band, "LTE BAND ") {
        if let Some(n) = parse_u32(trim(rest)) {
            return (None, Some(n));
        }
    }
    match parse_u32(band) {
        Some(n) => if n > 100 {
            (Some(n), None)
        } else {
            (None, Some(n))
        },
        None => (None, None),
    }
}

/// The short label of a band.
pub open spec fn short_label(is_nr: bool, band: Seq<char>) -> Seq<char> {
    if is_nr {
        "n"@ + band
    } else {
        "B"@ + band
    }
}

/// The band of the serving cell on a line, and whether it is one of NR.
pub open spec fn cell_band_on(line: Seq<char>) -> Option<(bool, Seq<char>)> {
    match parsed_line(line) {
        Some(ParsedLine::QengServingCell(c)) if c.band.len() > 0 && c.band != "-"@ => if mentions(
            c.rat,
            "NR5G"@,
        ) {
            Some((true, short_label(true, c.band)))
        } else if c.rat == "LTE"@ {
            Some((false, short_label(false, c.band)))
        } else {
            None
        },
        _ => None,
    }
}

/// The band of the carrier on a line, and whether it is one of NR.
pub open spec fn carrier_band_on(line: Seq<char>) -> Option<(bool, Seq<char>)> {
    match parsed_line(line) {
        Some(ParsedLine::Qcainfo(e)) => match classified_band(e.band) {
            Some((is_nr, n)) => Some((is_nr, short_label(is_nr, decimal(n)))),
            None => None,
        },
        _ => None,
    }
}

/// The bands of the serving cells.
pub open spec fn cell_bands(ls: Seq<Seq<char>>) -> Seq<(bool, Seq<char>)>
    decreases ls.len(),
{
    if ls.len() == 0 {
        Seq::empty()
    } else {
        match cell_band_on(ls.last()) {
            Some(b) => cell_bands(ls.drop_last()).push(b),
            None => cell_bands(ls.drop_last()),
        }
    }
}

/// The bands of the carriers.
pub open spec fn carrier_bands(ls: Seq<Seq<char>>) -> Seq<(bool, Seq<char>)>
    decreases ls.len(),
{
    if ls.len() == 0 {
        Seq::empty()
    } else {
        match carrier_band_on(ls.last()) {
            Some(b) => carrier_bands(ls.drop_last()).push(b),
            None => carrier_bands(ls.drop_last()),
        }
    }
}

/// The labels of the bands of one technology.
pub open spec fn labels_of(list: Seq<(bool, Seq<char>)>, is_nr: bool) -> Seq<Seq<char>>
    decreases list.len(),
{
    if list.len() == 0 {
        Seq::empty()
    } else if list.last().0 == is_nr {
        labels_of(list.drop_last(), is_nr).push(list.last().1)
    } else {
        labels_of(list.drop_last(), is_nr)
    }
}

/// The number by which a label is ordered: that after its letter, or 999.
pub open spec fn label_key(label: Seq<char>, letter: char) -> nat {
    match parsed_uint(stripped_start(label, letter), u32::MAX as nat) {
        Some(n) => n,
        None => 999,
    }
}

/// A sorted list with one label more, which comes after those of the same number.
pub open spec fn with_label(list: Seq<Seq<char>>, x: Seq<char>, letter: char) -> Seq<Seq<char>>
    decreases list.len(),
{
    if list.len() == 0 || label_key(list.last(), letter) <= label_key(x, letter) {
        list.push(x)
    } else {
        with_label(list.drop_last(), x, letter).push(list.last())
    }
}

/// The labels ordered by their numbers; those of the same number stay in order.
pub open spec fn sorted_labels(list: Seq<Seq<char>>, letter: char) -> Seq<Seq<char>>
    decreases list.len(),
{
    if list.len() == 0 {
        Seq::empty()
    } else {
        with_label(sorted_labels(list.drop_last(), letter), list.last(), letter)
    }
}

/// The bands as one text, NR before LTE.
pub open spec fn bands_text(all: Seq<(bool, Seq<char>)>) -> Seq<char> {
    let nr = sorted_labels(distinct(labels_of(all, true)), 'n');
    let lte = sorted_labels(distinct(labels_of(all, false)), 'B');
    if nr.len() > 0 && lte.len() > 0 {
        "NR "@ + joined(nr, "/"@) + ", "@ + ("LTE "@ + joined(lte, "/"@))
    } else if nr.len() > 0 {
        "NR "@ + joined(nr, "/"@)
    } else if lte.len() > 0 {
        "LTE "@ + joined(lte, "/"@)
    } else {
        "--"@
    }
}

/// The bands of the serving cells in a reply.
pub open spec fn cell_bands_in(r: Result<Seq<char>, Seq<char>>) -> Seq<(bool, Seq<char>)> {
    match r {
        Ok(resp) => cell_bands(lines_of(resp)),
        Err(_) => Seq::empty(),
    }
}

/// The bands of the carriers in a reply.
pub open spec fn carrier_bands_in(r: Result<Seq<char>, Seq<char>>) -> Seq<(bool, Seq<char>)> {
    match r {
        Ok(resp) => carrier_bands(lines_of(resp)),
        Err(_) => Seq::empty(),
    }
}

/// Asks for the serving cells and the carriers and lists their bands.
pub open spec fn bands_step(
    replies: Seq<Result<Seq<char>, Seq<char>>>,
) -> Step<Seq<char>, Seq<char>> {
    if replies.len() == 0 {
        Step::Send(plain("AT+QENG=\"servingcell\""@))
    } else if replies.len() == 1 {
        Step::Send(plain("AT+QCAINFO"@))
    } else {
        Step::Done(bands_text(cell_bands_in(replies[0]) + carrier_bands_in(replies[1])))
    }
}

/// The labels of both technologies, each once.
struct Bands {
    nr: Vec<String>,
    lte: Vec<String>,
}

impl Bands {
    spec fn collects(&self, all: Seq<(bool, Seq<char>)>) -> bool {
        &&& strings(self.nr@) == distinct(labels_of(all, true))
        &&& strings(self.lte@) == distinct(labels_of(all, false))
    }

    fn push(&mut self, is_nr: bool, label: String, Ghost(all): Ghost<Seq<(bool, Seq<char>)>>)
        requires
            old(self).collects(all),
        ensures
            final(self).collects(all.push((is_nr, label@))),
    {
        proof {
            assert(all.push((is_nr, label@)).drop_last() == all);
            let l = labels_of(all, is_nr);
            assert(l.push(label@).drop_last() == l);
        }
        if is_nr {
            if !holds(&self.nr, &label) {
                let ghost before = self.nr@;
                self.nr.push(label);
                assert(strings(self.nr@) == strings(before).push(label@));
            }
        } else {
            if !holds(&self.lte, &label) {
                let ghost before = self.lte@;
                self.lte.push(label);
                assert(strings(self.lte@) == strings(before).push(label@));
            }
        }
    }

    /// Adds the bands of the serving cells in a response.
    fn add_cells(&mut self, response: &str, Ghost(so_far): Ghost<Seq<(bool, Seq<char>)>>)
        requires
            old(self).collects(so_far),
        ensures
            final(self).collects(so_far + cell_bands(lines_of(response@))),
    {
        let list = lines(response);
        let ghost all = lines_of(response@);
        let mut k: usize = 0;
        assert(texts(list@).len() == list@.len());
        assert(so_far + cell_bands(all.take(0)) == so_far);
        while k < list.len()
            invariant
                k <= list@.len(),
                all == texts(list@),
                all.len() == list@.len(),
                self.collects(so_far + cell_bands(all.take(k as int))),
            decreases list@.len() - k,
        {
            let line = list[k];
            let ghost done = cell_bands(all.take(k as int));
            k += 1;
            assert(all.take(k as int).drop_last() == all.take(k - 1));
            assert(all.take(k as int).last() == line@);
            if let Some(ParsedLine::QengServingCell(cell)) = parse_single_line(line) {
                if !cell.band.as_str().is_empty() && !same(&cell.band, "-") {
                    if contains(&cell.rat, "NR5G") {
                        let label = concat2("n", &cell.band);
                        self.push(true, label, Ghost(so_far + done));
                        assert((so_far + done).push((true, label@)) == so_far + done.push(
                            (true, label@),
                        ));
                    } else if same(&cell.rat, "LTE") {
                        let label = concat2("B", &cell.band);
                        self.push(false, label, Ghost(so_far + done));
                        assert((so_far + done).push((false, label@)) == so_far + done.push(
                            (false, label@),
                        ));
                    }
                }
            }
        }
        assert(all.take(k as int) == all);
    }

    /// Adds the bands of the carriers in a response.
    fn add_carriers(&mut self, response: &str, Ghost(so_far): Ghost<Seq<(bool, Seq<char>)>>)
        requires
            old(self).collects(so_far),
        ensures
            final(self).collects(so_far + carrier_bands(lines_of(response@))),
    {
        let list = lines(response);
        let ghost all = lines_of(response@);
        let mut k: usize = 0;
        assert(texts(list@).len() == list@.len());
        assert(so_far + carrier_bands(all.take(0)) == so_far);
        while k < list.len()
            invariant
                k <= list@.len(),
                all == texts(list@),
                all.len() == list@.len(),
                self.collects(so_far + carrier_bands(all.take(k as int))),
            decreases list@.len() - k,
        {
            let line = list[k];
            let ghost done = carrier_bands(all.take(k as int));
            k += 1;
            assert(all.take(k as int).drop_last() == all.take(k - 1));
            assert(all.take(k as int).last() == line@);
            if let Some(ParsedLine::Qcainfo(entry)) = parse_single_line(line) {
                let (nr, lte) = classify_qcainfo_band(&entry.band);
                if let Some(n) = nr {
                    let label = concat2("n", &decimal_text(n as u64));
                    self.push(true, label, Ghost(so_far + done));
                    assert((so_far + done).push((true, label@)) == so_far + done.push(
                        (true, label@),
                    ));
                } else if let Some(n) = lte {
                    let label = concat2("B", &decimal_text(n as u64));
                    self.push(false, label, Ghost(so_far + done));
                    assert((so_far + done).push((false, label@)) == so_far + done.push(
                        (false, label@),
                    ));
                }
            }
        }
        assert(all.take(k as int) == all);
    }
}

fn key_of(label: &str, letter: char) -> (r: u32)
    ensures
        r == label_key(label@, letter),
{
    match parse_u32(trim_start_matches(label, letter)) {
        Some(n) => n,
        None => 999,
    }
}

/// A label goes in front of the tail that orders after it.
proof fn lemma_with_label(list: Seq<Seq<char>>, x: Seq<char>, letter: char, at: int)
    requires
        0 <= at <= list.len(),
        at > 0 ==> label_key(list[at - 1], letter) <= label_key(x, letter),
        forall|j: int|
            at <= j < list.len() ==> label_key(#[trigger] list[j], letter) > label_key(x, letter),
    ensures
        with_label(list, x, letter) == list.insert(at, x),
    decreases list.len(),
{
    if at == list.len() {
        assert(list.insert(at, x) == list.push(x));
    } else {
        let init = list.drop_last();
        assert(label_key(list[list.len() - 1], letter) > label_key(x, letter));
        assert forall|j: int| at <= j < init.len() implies label_key(#[trigger] init[j], letter)
            > label_key(x, letter) by {
            assert(init[j] == list[j]);
        }
        lemma_with_label(init, x, letter, at);
        assert(init.insert(at, x).push(list.last()) == list.insert(at, x));
    }
}

/// Inserts a label into a sorted list.
fn insert_label(list: &mut Vec<String>, x: String, letter: char)
    ensures
        strings(final(list)@) == with_label(strings(old(list)@), x@, letter),
{
    let key = key_of(&x, letter);
    let ghost all = strings(list@);
    let mut at: usize = list.len();
    while at > 0 && key_of(&list[at - 1], letter) > key
        invariant
            at <= list@.len(),
            all == strings(list@),
            list@ == old(list)@,
            key == label_key(x@, letter),
            forall|j: int|
                at <= j < all.len() ==> label_key(#[trigger] all[j], letter) > label_key(
                    x@,
                    letter,
                ),
        decreases at,
    {
        assert(all[at - 1] == list@[at - 1]@);
        at -= 1;
    }
    proof {
        if at > 0 {
            assert(all[at - 1] == list@[at - 1]@);
        }
        lemma_with_label(all, x@, letter, at as int);
    }
    list.insert(at, x);
    assert(strings(list@) == all.insert(at as int, x@));
}

/// Orders labels by their numbers.
fn sort_labels(list: &Vec<String>, letter: char) -> (r: Vec<String>)
    ensures
        strings(r@) == sorted_labels(strings(list@), letter),
{
    let mut r: Vec<String> = Vec::new();
    let ghost all = strings(list@);
    let mut k: usize = 0;
    assert(strings(r@) == sorted_labels(all.take(0), letter));
    while k < list.len()
        invariant
            k <= list@.len(),
            all == strings(list@),
            strings(r@) == sorted_labels(all.take(k as int), letter),
        decreases list@.len() - k,
    {
        insert_label(&mut r, list[k].clone(), letter);
        k += 1;
        assert(all.take(k as int).drop_last() == all.take(k - 1));
        assert(all.take(k as int).last() == list@[k - 1]@);
    }
    assert(all.take(k as int) == all);
    r
}

/// Lists the bands in use, from the replies after the first `from`.
pub fn query_device_bands(
    replies: &Vec<Result<String, String>>,
    from: usize,
) -> (r: Step<String>)
    requires
        from <= replies@.len(),
    ensures
        match r {
            Step::Send(c) => bands_step(reply_views(replies@).skip(from as int)) == Step::<
                Seq<char>,
                Seq<char>,
            >::Send(c@),
            Step::Done(t) => bands_step(reply_views(replies@).skip(from as int)) == Step::<
                Seq<char>,
                Seq<char>,
            >::Done(t@) && from + 2 <= replies@.len(),
        },
{
    let n = replies.len() - from;
    let ghost views = reply_views(replies@).skip(from as int);
    assert(views.len() == n);
    if n == 0 {
        return Step::Send(send_at_command_inner("AT+QENG=\"servingcell\""));
    }
    if n == 1 {
        return Step::Send(send_at_command_inner("AT+QCAINFO"));
    }
    assert(views[0] == reply_view(replies@[from as int]));
    assert(views[1] == reply_view(replies@[from + 1]));
    let mut bands = Bands { nr: Vec::new(), lte: Vec::new() };
    let ghost none = Seq::<(bool, Seq<char>)>::empty();
    assert(strings(bands.nr@) == Seq::<Seq<char>>::empty());
    assert(strings(bands.lte@) == Seq::<Seq<char>>::empty());
    assert(bands.collects(none));
    let ghost a = cell_bands_in(views[0]);
    let ghost b = carrier_bands_in(views[1]);
    if let Ok(resp) = &replies[from] {
        bands.add_cells(resp, Ghost(none));
    }
    assert(none + a == a);
    assert(bands.collects(a));
    if let Ok(resp) = &replies[from + 1] {
        bands.add_carriers(resp, Ghost(a));
    }
    assert(a + Seq::<(bool, Seq<char>)>::empty() == a);
    assert(bands.collects(a + b));
    let nr = sort_labels(&bands.nr, 'n');
    let lte = sort_labels(&bands.lte, 'B');
    assert(strings(nr@).len() == nr@.len());
    assert(strings(lte@).len() == lte@.len());
    let text = if nr.len() > 0 && lte.len() > 0 {
        let mut t = concat2("NR ", &join(&nr, "/"));
        t.append(", ");
        t.append(&concat2("LTE ", &join(&lte, "/")));
        t
    } else if nr.len() > 0 {
        concat2("NR ", &join(&nr, "/"))
    } else if lte.len() > 0 {
        concat2("LTE ", &join(&lte, "/"))
    } else {
        "--".to_owned()
    };
    Step::Done(text)
}

/// A list of labels in the order of their numbers.
pub open spec fn is_sorted(list: Seq<Seq<char>>, letter: char) -> bool {
    forall|i: int, j: int|
        0 <= i < j < list.len() ==> label_key(#[trigger] list[i], letter) <= label_key(
            #[trigger] list[j],
            letter,
        )
}

proof fn lemma_with_label_sorted(list: Seq<Seq<char>>, x: Seq<char>, letter: char)
    requires
        is_sorted(list, letter),
    ensures
        is_sorted(with_label(list, x, letter), letter),
        with_label(list, x, letter).to_multiset() == list.to_multiset().insert(x),
        forall|i: int|
            0 <= i < with_label(list, x, letter).len() ==> label_key(
                #[trigger] with_label(list, x, letter)[i],
                letter,
            ) <= label_key(x, letter) || (list.len() > 0 && label_key(
                with_label(list, x, letter)[i],
                letter,
            ) <= label_key(list.last(), letter)),
    decreases list.len(),
{
    broadcast use vstd::seq_lib::group_to_multiset_ensures;

    let r = with_label(list, x, letter);
    if list.len() == 0 || label_key(list.last(), letter) <= label_key(x, letter) {
        assert forall|i: int| 0 <= i < list.len() implies label_key(#[trigger] list[i], letter)
            <= label_key(x, letter) by {
            if i < list.len() - 1 {
                assert(label_key(list[i], letter) <= label_key(list[list.len() - 1], letter));
            }
        }
        assert forall|i: int, j: int| 0 <= i < j < r.len() implies label_key(
            #[trigger] r[i],
            letter,
        ) <= label_key(#[trigger] r[j], letter) by {
            if j < list.len() {
                assert(r[i] == list[i] && r[j] == list[j]);
            } else {
                assert(r[i] == list[i]);
            }
        }
    } else {
        let init = list.drop_last();
        let last = list.last();
        assert(is_sorted(init, letter)) by {
            assert forall|i: int, j: int| 0 <= i < j < init.len() implies label_key(
                #[trigger] init[i],
                letter,
            ) <= label_key(#[trigger] init[j], letter) by {
                assert(init[i] == list[i] && init[j] == list[j]);
            }
        }
        lemma_with_label_sorted(init, x, letter);
        let w = with_label(init, x, letter);
        if init.len() > 0 {
            assert(init.last() == list[list.len() - 2]);
            assert(label_key(list[list.len() - 2], letter) <= label_key(
                list[list.len() - 1],
                letter,
            ));
        }
        assert forall|i: int| 0 <= i < w.len() implies label_key(#[trigger] w[i], letter)
            <= label_key(last, letter) by {}
        assert forall|i: int, j: int| 0 <= i < j < r.len() implies label_key(
            #[trigger] r[i],
            letter,
        ) <= label_key(#[trigger] r[j], letter) by {
            if j < w.len() {
                assert(r[i] == w[i] && r[j] == w[j]);
            } else {
                assert(r[i] == w[i]);
            }
        }
        assert(init.push(last) == list);
        assert(r.to_multiset() == w.to_multiset().insert(last));
        assert(list.to_multiset() == init.to_multiset().insert(last));
        assert(r.to_multiset() =~= list.to_multiset().insert(x));
    }
}

/// Ordering labels neither loses nor adds any, and leaves them in the order of their numbers.
pub proof fn law_sorted_labels(list: Seq<Seq<char>>, letter: char)
    ensures
        is_sorted(sorted_labels(list, letter), letter),
        sorted_labels(list, letter).to_multiset() == list.to_multiset(),
    decreases list.len(),
{
    broadcast use vstd::seq_lib::group_to_multiset_ensures;

    if list.len() > 0 {
        let init = list.drop_last();
        law_sorted_labels(init, letter);
        lemma_with_label_sorted(sorted_labels(init, letter), list.last(), letter);
        assert(init.push(list.last()) == list);
        assert(list.to_multiset() == init.to_multiset().insert(list.last()));
    } else {
        assert(list == Seq::<Seq<char>>::empty());
    }
}

} // verus!
