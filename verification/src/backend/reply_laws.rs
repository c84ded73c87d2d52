//! What replies say of the operator, the bands and the fate of a command.

use vstd::prelude::*;

use crate::at::line::{is_error_line, parsed_line, ParsedLine};
use crate::at::line_laws::{
    fit_fields, law_carrier_line, law_lte_serving_cell_line, law_network_name_line,
    law_nr_serving_cell_line, law_operator_line, nth, opt_nth, response_line,
};
use crate::at::utils::ucs2_text;
use crate::backend::command_laws::sends;
use crate::backend::process::{
    atcmd_args, egmr_imei, egmr_result, exec_failed, first_telling, first_value, has_error,
    leading_digits, outcome_reply, preview, reply_value, utf8_lossy, ImeiParseResult,
    ProcessOutcome,
};
use crate::backend::query::{
    band_number, bands_step, bands_text, carrier_band_on, carrier_bands, carrier_bands_in,
    cell_band_on, cell_bands, cell_bands_in, classified_band, code_reply, cops_name_on, cops_reply,
    first_cops_name, first_network_code, first_qspn_name, label_key, labels_of, network_code_on,
    operator_of, provider_step, qspn_name_on, qspn_reply, sorted_labels, with_label,
};
use crate::backend::{AtCommand, Reply, Step};
use crate::number::{
    all_digits, decimal, is_digit, law_decimal_round_trip, lemma_decimal, parsed_uint,
};
use crate::text::{
    found_from, is_space, joined, lines_of, mentions, occurs_at, stripped_start, trimmed,
    trimmed_start,
};
use crate::text_laws::law_search;

verus! {

// ---------------------------------------------------------------------------
// The operator
// ---------------------------------------------------------------------------

/// The operator is asked for in up to three ways: the name that the network gives, the name of the
/// selected operator, and the code of the serving cell. The first that succeeds is the result.
pub proof fn law_operator_queries(a: Reply<Seq<char>>, b: Reply<Seq<char>>, c: Reply<Seq<char>>)
    ensures
        sends(provider_step(Seq::empty()), "AT+QSPN"@),
        qspn_reply(a) matches Some(name) ==> provider_step(seq![a]) == Step::<
            (Seq<char>, int),
            Seq<char>,
        >::Done((name, 1)),
        qspn_reply(a) is None ==> sends(provider_step(seq![a]), "AT+COPS?"@),
        qspn_reply(a) is None ==> (cops_reply(b) matches Some(name) ==> provider_step(seq![a, b])
            == Step::<(Seq<char>, int), Seq<char>>::Done((name, 2))),
        qspn_reply(a) is None && cops_reply(b) is None ==> sends(
            provider_step(seq![a, b]),
            "AT+QENG=\"servingcell\""@,
        ),
        qspn_reply(a) is None && cops_reply(b) is None ==> provider_step(seq![a, b, c]) == Step::<
            (Seq<char>, int),
            Seq<char>,
        >::Done((code_reply(c), 3)),
{
}

/// A failed query names no operator; of several lines the first that names one counts.
pub proof fn law_first_operator(line: Seq<char>, rest: Seq<Seq<char>>, text: Seq<char>, e: Seq<char>)
    ensures
        qspn_reply(Err(e)) is None,
        cops_reply(Err(e)) is None,
        code_reply(Err(e)) == "Unknown"@,
        qspn_reply(Ok(text)) == first_qspn_name(lines_of(text)),
        cops_reply(Ok(text)) == first_cops_name(lines_of(text)),
        first_network_code(lines_of(text)) is None ==> code_reply(Ok(text)) == "Unknown"@,
        first_network_code(lines_of(text)) matches Some(code) ==> code_reply(Ok(text)) == operator_of(
            code,
        ),
        ({
            let ls = seq![line] + rest;
            &&& first_qspn_name(ls) == (if qspn_name_on(line) is Some {
                qspn_name_on(line)
            } else {
                first_qspn_name(rest)
            })
            &&& first_cops_name(ls) == (if cops_name_on(line) is Some {
                cops_name_on(line)
            } else {
                first_cops_name(rest)
            })
            &&& first_network_code(ls) == (if network_code_on(line) is Some {
                network_code_on(line)
            } else {
                first_network_code(rest)
            })
        }),
        first_qspn_name(Seq::empty()) is None,
        first_cops_name(Seq::empty()) is None,
        first_network_code(Seq::empty()) is None,
{
    let ls = seq![line] + rest;
    assert(ls[0] == line);
    assert(ls.skip(1) == rest);
}

/// The name that the network gives is the first field of its line, that of the selected operator
/// the third field; each is decoded where it is in UCS-2 digits, and `????` or nothing is no name.
pub proof fn law_operator_names(v: Seq<Seq<char>>, q: Seq<bool>)
    requires
        fit_fields(v, q),
    ensures
        ({
            let full = qspn_name_on(response_line("+QSPN:"@, v, q));
            let oper = cops_name_on(response_line("+COPS:"@, v, q));
            let plain = |s: Seq<char>| ucs2_text(s).len() == 0;
            let decoded = |s: Seq<char>| ucs2_text(s).len() > 0 && ucs2_text(ucs2_text(s)).len() == 0;
            &&& v[0].len() == 0 || v[0] == "????"@ ==> full is None
            &&& v[0].len() > 0 && v[0] != "????"@ && plain(v[0]) ==> full == Some(v[0])
            &&& decoded(v[0]) && ucs2_text(v[0]) != "????"@ ==> full == Some(ucs2_text(v[0]))
            &&& nth(v, 2).len() == 0 || nth(v, 2) == "????"@ ==> oper is None
            &&& nth(v, 2).len() > 0 && nth(v, 2) != "????"@ && plain(nth(v, 2)) ==> oper == Some(
                nth(v, 2),
            )
            &&& nth(v, 2) != "????"@ && ucs2_text(nth(v, 2)).len() > 0 ==> oper == Some(
                ucs2_text(nth(v, 2)),
            )
        }),
{
    law_network_name_line(v, q);
    law_operator_line(v, q);
    assert(ucs2_text("????"@).len() == 0) by {
        reveal_strlit("????");
        assert(!crate::number::is_hex("????"@[0]));
    }
    let e = Seq::<char>::empty();
    assert(ucs2_text(e).len() == 0);
    if v.len() > 2 {
        assert(crate::at::line_laws::fits_field(v[2], q[2]));
        assert(trimmed(v[2]) == v[2]);
        assert(opt_nth(v, 2) == Some(v[2]));
    }
    assert(v[0] == nth(v, 0));
}

/// The operators by their network codes.
pub proof fn law_operator_codes(code: Seq<char>)
    ensures
        operator_of(code) == "中国移动"@ <==> code == "46000"@ || code == "46002"@ || code == "46007"@,
        operator_of(code) == "中国联通"@ <==> code == "46001"@,
        operator_of(code) == "中国电信"@ <==> code == "46003"@ || code == "46011"@,
{
    reveal_strlit("46000");
    reveal_strlit("46001");
    reveal_strlit("46002");
    reveal_strlit("46003");
    reveal_strlit("46007");
    reveal_strlit("46011");
    assert("46000"@[4] == '0' && "46001"@[4] == '1' && "46002"@[4] == '2' && "46003"@[4] == '3'
        && "46007"@[4] == '7');
    assert("46000"@[3] == '0' && "46001"@[3] == '0' && "46002"@[3] == '0' && "46003"@[3] == '0'
        && "46007"@[3] == '0' && "46011"@[3] == '1');
    reveal_strlit("中国移动");
    reveal_strlit("中国联通");
    reveal_strlit("中国电信");
    reveal_strlit("Unknown");
    assert("中国移动"@[2] == '移' && "中国联通"@[2] == '联' && "中国电信"@[2] == '电');
    assert("Unknown"@[0] == 'U' && "中国移动"@[0] == '中');
    assert("中国联通"@[0] == '中' && "中国电信"@[0] == '中');
}

/// The network code of a serving cell is its country code and then its operator code.
pub proof fn law_network_code(line: Seq<char>)
    ensures
        parsed_line(line) matches Some(ParsedLine::QengServingCell(c)) ==> network_code_on(line)
            == Some(c.mcc + c.mnc),
        !(parsed_line(line) matches Some(ParsedLine::QengServingCell(_))) ==> network_code_on(
            line,
        ) is None,
{
}

// ---------------------------------------------------------------------------
// Bands
// ---------------------------------------------------------------------------

proof fn lemma_number(n: nat)
    ensures
        trimmed(decimal(n)) == decimal(n),
        is_digit(decimal(n)[0]),
        decimal(n).len() > 0,
{
    let d = decimal(n);
    lemma_decimal(n);
    assert(is_digit(d[0]) && is_digit(d[d.len() - 1]));
}

proof fn lemma_after(p: Seq<char>, n: nat)
    requires
        n <= u32::MAX,
    ensures
        band_number(p + decimal(n), p) == Some(n),
{
    let s = p + decimal(n);
    assert(p == s.subrange(0, p.len() as int));
    assert(s.skip(p.len() as int) == decimal(n));
    lemma_number(n);
    law_decimal_round_trip(n, u32::MAX as nat);
}

proof fn lemma_not_after(s: Seq<char>, p: Seq<char>)
    requires
        s.len() > 0,
        p.len() > 0,
        s[0] != p[0],
    ensures
        band_number(s, p) is None,
{
    if p.is_prefix_of(s) {
        assert(s.subrange(0, p.len() as int)[0] == s[0]);
    }
}

/// A band is told by its number: of NR or of LTE where its name says so, and without a technology
/// of NR exactly above 100.
pub proof fn law_band_classes(n: u32)
    ensures
        classified_band("NR5G BAND "@ + decimal(n as nat)) == Some((true, n as nat)),
        classified_band("LTE BAND "@ + decimal(n as nat)) == Some((false, n as nat)),
        classified_band(decimal(n as nat)) == Some((n > 100, n as nat)),
{
    reveal_strlit("NR5G BAND ");
    reveal_strlit("LTE BAND ");
    let nr = "NR5G BAND "@;
    let lte = "LTE BAND "@;
    lemma_after(nr, n as nat);
    lemma_after(lte, n as nat);
    lemma_number(n as nat);
    assert((lte + decimal(n as nat))[0] == 'L');
    lemma_not_after(lte + decimal(n as nat), nr);
    lemma_not_after(decimal(n as nat), nr);
    lemma_not_after(decimal(n as nat), lte);
    law_decimal_round_trip(n as nat, u32::MAX as nat);
}

/// The band of a serving cell is labelled `n` in NR and `B` in LTE; a cell without a band has none.
pub proof fn law_cell_band(v: Seq<Seq<char>>, q: Seq<bool>)
    requires
        fit_fields(v, q),
        v[0] == "servingcell"@,
    ensures
        ({
            let r = cell_band_on(response_line("+QENG:"@, v, q));
            let nr = mentions(nth(v, 2), "NR5G"@);
            &&& nr && nth(v, 10).len() > 0 && nth(v, 10) != "-"@ ==> r == Some(
                (true, "n"@ + nth(v, 10)),
            )
            &&& nr && (nth(v, 10).len() == 0 || nth(v, 10) == "-"@) ==> r is None
            &&& nth(v, 2) == "LTE"@ && nth(v, 9).len() > 0 && nth(v, 9) != "-"@ ==> r == Some(
                (false, "B"@ + nth(v, 9)),
            )
            &&& nth(v, 2) == "LTE"@ && (nth(v, 9).len() == 0 || nth(v, 9) == "-"@) ==> r is None
            &&& !nr && nth(v, 2) != "LTE"@ ==> r is None
        }),
{
    if mentions(nth(v, 2), "NR5G"@) {
        law_nr_serving_cell_line(v, q);
        if nth(v, 2) == "LTE"@ {
            reveal_strlit("LTE");
            reveal_strlit("NR5G");
            let i = choose|i: int| occurs_at("LTE"@, "NR5G"@, i);
            assert(i + 4 <= 3);
        }
    } else {
        law_lte_serving_cell_line(v, q);
    }
}

/// The band of a carrier is labelled by its class and its number.
pub proof fn law_carrier_band(v: Seq<Seq<char>>, q: Seq<bool>)
    requires
        fit_fields(v, q),
    ensures
        ({
            let r = carrier_band_on(response_line("+QCAINFO:"@, v, q));
            match classified_band(nth(v, 3)) {
                Some((true, n)) => r == Some((true, "n"@ + decimal(n))),
                Some((false, n)) => r == Some((false, "B"@ + decimal(n))),
                None => r is None,
            }
        }),
{
    law_carrier_line(v, q);
}

/// The bands of a reply are those of its lines, in their order; and the labels of one technology
/// are those of all bands that have it.
pub proof fn law_bands_in_order(
    a: Seq<Seq<char>>,
    b: Seq<Seq<char>>,
    x: Seq<(bool, Seq<char>)>,
    y: Seq<(bool, Seq<char>)>,
    is_nr: bool,
)
    ensures
        cell_bands(a + b) == cell_bands(a) + cell_bands(b),
        carrier_bands(a + b) == carrier_bands(a) + carrier_bands(b),
        labels_of(x + y, is_nr) == labels_of(x, is_nr) + labels_of(y, is_nr),
    decreases b.len() + y.len(),
{
    if b.len() > 0 {
        law_bands_in_order(a, b.drop_last(), x, y, is_nr);
        assert((a + b).drop_last() == a + b.drop_last());
        assert((a + b).last() == b.last());
    } else {
        assert(a + b == a);
        if y.len() > 0 {
            law_bands_in_order(a, b, x, y.drop_last(), is_nr);
            assert((x + y).drop_last() == x + y.drop_last());
            assert((x + y).last() == y.last());
        } else {
            assert(x + y == x);
        }
    }
}

/// One line, and one band.
pub proof fn law_one_band(line: Seq<char>, is_nr: bool, label: Seq<char>)
    ensures
        cell_band_on(line) matches Some(b) ==> cell_bands(seq![line]) == seq![b],
        cell_band_on(line) is None ==> cell_bands(seq![line]).len() == 0,
        carrier_band_on(line) matches Some(b) ==> carrier_bands(seq![line]) == seq![b],
        carrier_band_on(line) is None ==> carrier_bands(seq![line]).len() == 0,
        labels_of(seq![(is_nr, label)], is_nr) == seq![label],
        labels_of(seq![(is_nr, label)], !is_nr).len() == 0,
{
    reveal_with_fuel(cell_bands, 2);
    reveal_with_fuel(carrier_bands, 2);
    reveal_with_fuel(labels_of, 2);
    let one = seq![line];
    assert(one.drop_last() == Seq::<Seq<char>>::empty());
    assert(one.last() == line);
    let b = seq![(is_nr, label)];
    assert(b.drop_last() == Seq::<(bool, Seq<char>)>::empty());
    assert(b.last() == (is_nr, label));
}

/// The bands are asked for by cell and by carrier, and shown together.
pub proof fn law_band_queries(a: Reply<Seq<char>>, b: Reply<Seq<char>>, text: Seq<char>, e: Seq<char>)
    ensures
        sends(bands_step(Seq::empty()), "AT+QENG=\"servingcell\""@),
        sends(bands_step(seq![a]), "AT+QCAINFO"@),
        bands_step(seq![a, b]) == Step::<Seq<char>, Seq<char>>::Done(
            bands_text(cell_bands_in(a) + carrier_bands_in(b)),
        ),
        cell_bands_in(Ok(text)) == cell_bands(lines_of(text)),
        carrier_bands_in(Ok(text)) == carrier_bands(lines_of(text)),
        cell_bands_in(Err(e)).len() == 0,
        carrier_bands_in(Err(e)).len() == 0,
{
}

/// The bands of NR stand before those of LTE, each technology with its name and in the order of
/// the band numbers; without any band two dashes are shown.
pub proof fn law_bands_shown(all: Seq<(bool, Seq<char>)>)
    ensures
        ({
            let nr = sorted_labels(crate::at::parser::distinct(labels_of(all, true)), 'n');
            let lte = sorted_labels(crate::at::parser::distinct(labels_of(all, false)), 'B');
            let shown = bands_text(all);
            &&& nr.len() == 0 && lte.len() == 0 ==> shown == "--"@
            &&& nr.len() > 0 && lte.len() == 0 ==> shown == "NR "@ + joined(nr, "/"@)
            &&& nr.len() == 0 && lte.len() > 0 ==> shown == "LTE "@ + joined(lte, "/"@)
            &&& nr.len() > 0 && lte.len() > 0 ==> shown == "NR "@ + joined(nr, "/"@) + ", LTE "@
                + joined(lte, "/"@)
        }),
{
    reveal_strlit(", ");
    reveal_strlit("LTE ");
    reveal_strlit(", LTE ");
    let nr = sorted_labels(crate::at::parser::distinct(labels_of(all, true)), 'n');
    let lte = sorted_labels(crate::at::parser::distinct(labels_of(all, false)), 'B');
    let a = "NR "@ + joined(nr, "/"@);
    let b = joined(lte, "/"@);
    assert(", LTE "@ == ", "@ + "LTE "@);
    assert(a + ", "@ + ("LTE "@ + b) == a + ", LTE "@ + b);
}

/// A label is ordered by the number after its letter.
pub proof fn law_label_keys(n: u32)
    ensures
        label_key("n"@ + decimal(n as nat), 'n') == n,
        label_key("B"@ + decimal(n as nat), 'B') == n,
{
    reveal_strlit("n");
    reveal_strlit("B");
    let d = decimal(n as nat);
    lemma_number(n as nat);
    law_decimal_round_trip(n as nat, u32::MAX as nat);
    assert(("n"@ + d).drop_first() == d);
    assert(("B"@ + d).drop_first() == d);
    assert(stripped_start(d, 'n') == d);
    assert(stripped_start(d, 'B') == d);
    assert(stripped_start("n"@ + d, 'n') == stripped_start(d, 'n'));
    assert(stripped_start("B"@ + d, 'B') == stripped_start(d, 'B'));
}

// ---------------------------------------------------------------------------
// Commands as processes
// ---------------------------------------------------------------------------

/// A command is handed over with its port first and itself last; what is entered at a prompt
/// stands between them behind the option for it.
pub proof fn law_command_arguments(port: Seq<char>, cmd: Seq<char>, secs: u64, text: Seq<char>)
    ensures
        atcmd_args(port, AtCommand { cmd, timeout_secs: secs, sms_message: None, hex_body: None })
            == seq!["-p"@, port, cmd],
        atcmd_args(
            port,
            AtCommand { cmd, timeout_secs: secs, sms_message: Some(text), hex_body: None },
        ) == seq!["-p"@, port, "--message"@, text, cmd],
        atcmd_args(
            port,
            AtCommand { cmd, timeout_secs: secs, sms_message: None, hex_body: Some(text) },
        ) == seq!["-p"@, port, "--hex-body"@, text, cmd],
{
}

/// A response reports an error exactly where one of its lines is `ERROR` or begins with the name
/// of an error of the equipment or of the message service.
pub proof fn law_error_lines(raw: Seq<char>)
    ensures
        has_error(raw) <==> exists|i: int|
            0 <= i < lines_of(raw).len() && {
                let t = trimmed(#[trigger] lines_of(raw)[i]);
                t == "ERROR"@ || "+CME ERROR:"@.is_prefix_of(t) || "+CMS ERROR:"@.is_prefix_of(t)
            },
        has_error(raw) ==> exec_failed(raw),
        "ERROR"@.is_prefix_of(trimmed_start(raw)) ==> exec_failed(raw),
        exec_failed(raw) && !"ERROR"@.is_prefix_of(trimmed_start(raw)) ==> has_error(raw),
{
    let ls = lines_of(raw);
    assert forall|i: int| 0 <= i < ls.len() implies (parsed_line(#[trigger] ls[i]) == Some(
        ParsedLine::<Seq<char>>::Error,
    ) <==> is_error_line(trimmed(ls[i]))) by {
        lemma_error_line(ls[i]);
    }
    if has_error(raw) {
        let i = choose|i: int|
            0 <= i < ls.len() && parsed_line(#[trigger] ls[i]) == Some(
                ParsedLine::<Seq<char>>::Error,
            );
        assert(is_error_line(trimmed(ls[i])));
    }
}

proof fn lemma_error_line(line: Seq<char>)
    ensures
        parsed_line(line) == Some(ParsedLine::<Seq<char>>::Error) <==> is_error_line(trimmed(line)),
{
    reveal_strlit("OK");
    reveal_strlit("ERROR");
    reveal_strlit("+CME ERROR:");
    reveal_strlit("+CMS ERROR:");
    assert("OK"@.len() == 2 && "ERROR"@.len() == 5 && "+CME ERROR:"@.len() == 11
        && "+CMS ERROR:"@.len() == 11);
}

/// What came of a command: its output where it ended well and reports no error, and otherwise why
/// there is none.
pub proof fn law_command_outcomes(c: AtCommand<Seq<char>>, outcome: ProcessOutcome)
    ensures
        outcome matches ProcessOutcome::Exited { success, status, stdout, stderr } ==> ({
            let out = utf8_lossy(stdout@);
            &&& success && !has_error(out) ==> outcome_reply(c, outcome) == Ok::<
                Seq<char>,
                Seq<char>,
            >(out)
            &&& success && has_error(out) ==> outcome_reply(c, outcome) == Err::<
                Seq<char>,
                Seq<char>,
            >("AT命令返回错误: "@ + trimmed(out))
            &&& !success ==> outcome_reply(c, outcome) == Err::<Seq<char>, Seq<char>>(
                "atcmd_rs失败 (exit="@ + status@ + "): "@ + trimmed(utf8_lossy(stderr@)),
            )
        }),
        outcome matches ProcessOutcome::NotStarted(e) ==> outcome_reply(c, outcome) == Err::<
            Seq<char>,
            Seq<char>,
        >("atcmd_rs启动失败: "@ + e@),
        outcome matches ProcessOutcome::Lost(e) ==> outcome_reply(c, outcome) == Err::<
            Seq<char>,
            Seq<char>,
        >("atcmd_rs执行失败: "@ + e@),
        outcome is TimedOut ==> outcome_reply(c, outcome) == Err::<Seq<char>, Seq<char>>(
            "AT命令超时("@ + decimal(c.timeout_secs as nat) + "s): "@ + c.cmd,
        ),
{
}

/// The value of a reply is its first line, without the white space around it, that is not empty,
/// no echo of a command and no result code. A failed command has none.
pub proof fn law_reply_values(line: Seq<char>, rest: Seq<Seq<char>>, text: Seq<char>, e: Seq<char>)
    ensures
        ({
            let t = trimmed(line);
            let skipped = t.len() == 0 || mentions(t, "OK"@) || mentions(t, "ERROR"@)
                || "AT+"@.is_prefix_of(t) || "+CME ERROR:"@.is_prefix_of(t);
            &&& skipped ==> first_value(seq![line] + rest) == first_value(rest)
            &&& !skipped ==> first_value(seq![line] + rest) == Some(t)
        }),
        first_value(Seq::empty()) is None,
        reply_value(Ok(text)) == first_value(lines_of(text)),
        reply_value(Err(e)) is None,
{
    let ls = seq![line] + rest;
    assert(ls[0] == line);
    assert(ls.skip(1) == rest);
}

/// A response is shown by its first line that is not empty, no result code and no echo of a
/// command, and as a whole where it has none.
pub proof fn law_previews(line: Seq<char>, rest: Seq<Seq<char>>, raw: Seq<char>)
    ensures
        ({
            let t = trimmed(line);
            let skipped = t.len() == 0 || t == "OK"@ || t == "ERROR"@ || "+CME ERROR:"@.is_prefix_of(t)
                || "+CMS ERROR:"@.is_prefix_of(t) || "AT+"@.is_prefix_of(t);
            &&& skipped ==> first_telling(seq![line] + rest) == first_telling(rest)
            &&& !skipped ==> first_telling(seq![line] + rest) == Some(line)
        }),
        first_telling(Seq::empty()) is None,
        first_telling(lines_of(raw)) matches Some(shown) ==> preview(raw) == shown,
        first_telling(lines_of(raw)) is None ==> preview(raw) == raw,
{
    let ls = seq![line] + rest;
    assert(ls[0] == line);
    assert(ls.skip(1) == rest);
    lemma_error_line(line);
    assert(parsed_line(line) == Some(ParsedLine::<Seq<char>>::Okay) <==> trimmed(line) == "OK"@) by {
        lemma_okay_line(line);
    }
}

proof fn lemma_okay_line(line: Seq<char>)
    ensures
        parsed_line(line) == Some(ParsedLine::<Seq<char>>::Okay) <==> trimmed(line) == "OK"@,
{
    reveal_strlit("OK");
    assert("OK"@.len() == 2);
}

// ---------------------------------------------------------------------------
// The IMEI
// ---------------------------------------------------------------------------

proof fn lemma_leading_digits(d: Seq<char>, rest: Seq<char>)
    requires
        all_digits(d),
        rest.len() > 0 ==> !is_digit(rest[0]),
    ensures
        leading_digits(d + rest) == d,
    decreases d.len(),
{
    let s = d + rest;
    if d.len() == 0 {
        assert(s == rest);
    } else {
        assert(is_digit(d[0]));
        let e = d.skip(1);
        assert forall|i: int| 0 <= i < e.len() implies is_digit(#[trigger] e[i]) by {
            assert(is_digit(d[i + 1]));
        }
        assert(s.skip(1) == e + rest);
        lemma_leading_digits(e, rest);
        assert(seq![d[0]] + e == d);
    }
}

proof fn lemma_found_first(s: Seq<char>, p: Seq<char>, i: int, n: int)
    requires
        0 <= i <= n,
        occurs_at(s, p, n),
        forall|j: int| i <= j < n ==> !occurs_at(s, p, j),
    ensures
        found_from(s, p, i) == Some(n),
    decreases n - i,
{
    if i < n {
        assert(!occurs_at(s, p, i));
        lemma_found_first(s, p, i + 1, n);
    }
}

proof fn lemma_imei_at(raw: Seq<char>, k: int, tail: Seq<char>, imei: Seq<char>)
    requires
        0 <= k,
        occurs_at(raw, "+EGMR:"@, k),
        forall|j: int| 0 <= j < k ==> !occurs_at(raw, "+EGMR:"@, j),
        raw.skip(k + 6) == tail,
        leading_digits(stripped_start(trimmed_start(tail), '"')) == imei,
        imei.len() > 0,
    ensures
        egmr_imei(raw) == Some(imei),
{
    reveal_strlit("+EGMR:");
    lemma_found_first(raw, "+EGMR:"@, 0, k);
}

/// A number that a response gives, after whatever it begins with, is the IMEI that was read, with
/// or without quotes.
pub proof fn law_imei_is_read(before: Seq<char>, imei: Seq<char>, rest: Seq<char>)
    requires
        imei.len() > 0,
        all_digits(imei),
        rest.len() > 0 ==> !is_digit(rest[0]),
        forall|j: int|
            0 <= j < before.len() ==> !occurs_at(before + "+EGMR: "@ + imei + rest, "+EGMR:"@, j),
        forall|j: int|
            0 <= j < before.len() ==> !occurs_at(
                before + "+EGMR: \""@ + imei + "\""@ + rest,
                "+EGMR:"@,
                j,
            ),
    ensures
        egmr_result(before + "+EGMR: "@ + imei + rest) == Some(
            ImeiParseResult { kind: "read"@, success: true, imei: Some(imei) },
        ),
        egmr_result(before + "+EGMR: \""@ + imei + "\""@ + rest) == Some(
            ImeiParseResult { kind: "read"@, success: true, imei: Some(imei) },
        ),
{
    reveal_strlit("+EGMR: ");
    reveal_strlit("+EGMR: \"");
    reveal_strlit("+EGMR:");
    reveal_strlit("\"");
    assert(is_digit(imei[0]));
    let name = "+EGMR:"@;
    let k = before.len() as int;
    let a = before + "+EGMR: "@ + imei + rest;
    assert(a.subrange(k, k + 6) == name);
    let x = a.skip(k + 6);
    assert(x.drop_first() == imei + rest);
    assert(trimmed_start(x) == trimmed_start(imei + rest));
    assert(trimmed_start(imei + rest) == imei + rest);
    assert(stripped_start(imei + rest, '"') == imei + rest);
    lemma_leading_digits(imei, rest);
    lemma_imei_at(a, k, x, imei);
    let b = before + "+EGMR: \""@ + imei + "\""@ + rest;
    assert(b.subrange(k, k + 6) == name);
    let y = b.skip(k + 6);
    let tail = "\""@ + rest;
    let z = imei + tail;
    assert(y.drop_first() == seq!['"'] + z);
    assert(trimmed_start(y) == trimmed_start(seq!['"'] + z));
    assert(trimmed_start(seq!['"'] + z) == seq!['"'] + z);
    assert((seq!['"'] + z).drop_first() == z);
    assert(stripped_start(seq!['"'] + z, '"') == stripped_start(z, '"'));
    assert(stripped_start(z, '"') == z);
    lemma_leading_digits(imei, tail);
    lemma_imei_at(b, k, y, imei);
}

/// Without a number the echo of the command tells what was asked: writing where it is that of the
/// command for it. It succeeded where the response says so and reports no failure. Without an echo
/// the response says nothing.
pub proof fn law_imei_echo(raw: Seq<char>)
    requires
        egmr_imei(raw) is None,
    ensures
        mentions(raw, "AT+EGMR"@) ==> (egmr_result(raw) matches Some(r) && ({
            &&& r.kind == "write"@ <==> mentions(raw, "AT+EGMR=1,7"@)
            &&& r.kind == "read"@ <==> !mentions(raw, "AT+EGMR=1,7"@)
            &&& r.success <==> mentions(raw, "OK"@) && !exec_failed(raw)
            &&& r.imei is None
        })),
        !mentions(raw, "AT+EGMR"@) ==> egmr_result(raw) is None,
{
    reveal_strlit("read");
    reveal_strlit("write");
    assert("read"@.len() == 4 && "write"@.len() == 5);
}

/// A response without the name of an IMEI, or with nothing but other text behind it, gives none.
pub proof fn law_no_imei(raw: Seq<char>, c: char, rest: Seq<char>)
    requires
        !is_digit(c),
        !is_space(c),
        c != '"',
    ensures
        !mentions(raw, "+EGMR:"@) ==> egmr_imei(raw) is None,
        egmr_imei("+EGMR:"@ + seq![c] + rest) is None,
{
    law_search(raw, "+EGMR:"@, 0);
    if egmr_imei(raw) is Some {
        assert(occurs_at(raw, "+EGMR:"@, found_from(raw, "+EGMR:"@, 0)->0));
    }
    let s = "+EGMR:"@ + seq![c] + rest;
    reveal_strlit("+EGMR:");
    assert(s.subrange(0, 6) == "+EGMR:"@);
    assert(occurs_at(s, "+EGMR:"@, 0));
    let t = s.skip(6);
    assert(t[0] == c);
    assert(trimmed_start(t) == t);
    assert(stripped_start(t, '"') == t);
    assert(leading_digits(t).len() == 0);
}

/// A band whose name is no number and names no technology is of no class, and a label without a
/// number comes at 999. Labels of the same number stay in their order.
pub proof fn law_other_bands(band: Seq<char>, list: Seq<Seq<char>>, x: Seq<char>, letter: char)
    ensures
        !"NR5G BAND "@.is_prefix_of(band) && !"LTE BAND "@.is_prefix_of(band) && parsed_uint(
            band,
            u32::MAX as nat,
        ) is None ==> classified_band(band) is None,
        parsed_uint(stripped_start(x, letter), u32::MAX as nat) is None ==> label_key(x, letter) == 999,
        list.len() > 0 && label_key(list.last(), letter) == label_key(x, letter) ==> with_label(
            list,
            x,
            letter,
        ) == list.push(x),
{
}

} // verus!
