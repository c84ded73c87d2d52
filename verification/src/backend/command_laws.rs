//! Which commands the scripts send, and what becomes of the values that they are given.

use vstd::prelude::*;

use crate::actor::action::DiagnosticType;
use crate::at::builder::at_param;
use crate::at::line::fields_of;
use crate::at::line_laws::{fields_text, fit_fields, fits_field, law_fields_are_read_back};
use crate::at::parser::ScannedNetwork;
use crate::backend::modem::{
    apn_step, ask_step, band_lock_command, cell_lock_step, diagnostics_step, lte_lock_command,
    mode_step, nr_lock_command, raw_at_step, scan_step, session_step, set_mbn_step, slot_step,
    sms_list_step, tell_step, usbnet_step,
};
use crate::backend::{AtCommand, Reply, Step};
use crate::number::{decimal, is_digit, lemma_decimal};
use crate::text::same_but_case;

verus! {

/// A script sends this command, which has ten seconds, and enters nothing at a prompt.
pub open spec fn sends<T>(s: Step<T, Seq<char>>, cmd: Seq<char>) -> bool {
    s == Step::<T, Seq<char>>::Send(
        AtCommand { cmd, timeout_secs: 10, sms_message: None, hex_body: None },
    )
}

/// A command begins with `name`, and what follows reads as these parameters.
pub open spec fn has_parameters(cmd: Seq<char>, name: Seq<char>, v: Seq<Seq<char>>) -> bool {
    name.is_prefix_of(cmd) && fields_of(cmd.skip(name.len() as int)) == v
}

proof fn lemma_parameters(cmd: Seq<char>, name: Seq<char>, v: Seq<Seq<char>>, q: Seq<bool>)
    requires
        cmd == name + fields_text(v, q),
        fit_fields(v, q),
    ensures
        has_parameters(cmd, name, v),
{
    law_fields_are_read_back(v, q);
    assert(cmd.skip(name.len() as int) == fields_text(v, q));
    assert(name == cmd.subrange(0, name.len() as int));
}

proof fn lemma_number_fits(n: nat)
    ensures
        fits_field(decimal(n), false),
{
    lemma_decimal(n);
    let d = decimal(n);
    assert forall|i: int| 0 <= i < d.len() implies is_digit(d[i]) by {}
    assert(is_digit(d[0]) && is_digit(d[d.len() - 1]));
}

proof fn lemma_decimal_injective(a: nat, b: nat)
    ensures
        decimal(a) == decimal(b) ==> a == b,
{
    lemma_decimal(a);
    lemma_decimal(b);
}

// ---------------------------------------------------------------------------
// Locks
// ---------------------------------------------------------------------------

/// A band lock names exactly the bands that are asked for, for NR and for LTE alike; the bands of
/// the module where all of them, or none, are asked for.
pub proof fn law_band_lock(bands: Seq<char>, nr_default: Seq<char>, lte_default: Seq<char>)
    ensures
        bands.len() > 0 && bands != "all"@ ==> {
            &&& band_lock_command(true, bands, nr_default, lte_default)
                == "AT+QNWPREFCFG=\"nr5g_band\","@ + bands
            &&& band_lock_command(false, bands, nr_default, lte_default)
                == "AT+QNWPREFCFG=\"lte_band\","@ + bands
        },
        bands.len() == 0 || bands == "all"@ ==> {
            &&& band_lock_command(true, bands, nr_default, lte_default)
                == "AT+QNWPREFCFG=\"nr5g_band\","@ + nr_default
            &&& band_lock_command(false, bands, nr_default, lte_default)
                == "AT+QNWPREFCFG=\"lte_band\","@ + lte_default
        },
{
}

/// Two different lists of bands give two different commands, and no command locks both
/// technologies.
pub proof fn law_band_locks_differ(
    is_nr: bool,
    a: Seq<char>,
    b: Seq<char>,
    nr_default: Seq<char>,
    lte_default: Seq<char>,
)
    requires
        a.len() > 0 && a != "all"@,
        b.len() > 0 && b != "all"@,
    ensures
        a != b ==> band_lock_command(is_nr, a, nr_default, lte_default) != band_lock_command(
            is_nr,
            b,
            nr_default,
            lte_default,
        ),
        band_lock_command(true, a, nr_default, lte_default) != band_lock_command(
            false,
            b,
            nr_default,
            lte_default,
        ),
{
    reveal_strlit("AT+QNWPREFCFG=\"nr5g_band\",");
    reveal_strlit("AT+QNWPREFCFG=\"lte_band\",");
    let p = if is_nr {
        "AT+QNWPREFCFG=\"nr5g_band\","@
    } else {
        "AT+QNWPREFCFG=\"lte_band\","@
    };
    assert((p + a).skip(p.len() as int) == a);
    assert((p + b).skip(p.len() as int) == b);
    let x = "AT+QNWPREFCFG=\"nr5g_band\","@ + a;
    let y = "AT+QNWPREFCFG=\"lte_band\","@ + b;
    assert(x[15] == 'n' && y[15] == 'l');
}

/// The lock to an NR cell gives the cell number, the channel, the subcarrier spacing and the band;
/// that to an LTE cell gives the number of cells, which is one, then the channel and the cell
/// number.
pub proof fn law_cell_lock_parameters(pci: nat, earfcn: nat, scs: nat, band: nat)
    ensures
        has_parameters(
            nr_lock_command(pci, earfcn, scs, band),
            "AT+QNWLOCK="@,
            seq!["common/5g"@, decimal(pci), decimal(earfcn), decimal(scs), decimal(band)],
        ),
        has_parameters(
            lte_lock_command(pci, earfcn),
            "AT+QNWLOCK="@,
            seq!["common/lte"@, "1"@, decimal(earfcn), decimal(pci)],
        ),
{
    reveal_strlit("AT+QNWLOCK=\"common/5g\",");
    reveal_strlit("AT+QNWLOCK=\"common/lte\",1,");
    reveal_strlit("AT+QNWLOCK=");
    reveal_strlit("common/5g");
    reveal_strlit("common/lte");
    reveal_strlit("1");
    reveal_strlit(",");
    lemma_number_fits(pci);
    lemma_number_fits(earfcn);
    lemma_number_fits(scs);
    lemma_number_fits(band);
    reveal_with_fuel(fields_text, 6);
    let name = "AT+QNWLOCK="@;
    let v = seq!["common/5g"@, decimal(pci), decimal(earfcn), decimal(scs), decimal(band)];
    let q = seq![true, false, false, false, false];
    let v1 = v.skip(1);
    let v2 = v1.skip(1);
    let v3 = v2.skip(1);
    let v4 = v3.skip(1);
    let q1 = q.skip(1);
    let q2 = q1.skip(1);
    let q3 = q2.skip(1);
    let q4 = q3.skip(1);
    assert(fields_text(v4, q4) == decimal(band));
    assert(fields_text(v3, q3) == decimal(scs) + seq![','] + decimal(band));
    assert(fields_text(v2, q2) == decimal(earfcn) + seq![','] + fields_text(v3, q3));
    assert(fields_text(v1, q1) == decimal(pci) + seq![','] + fields_text(v2, q2));
    assert(fields_text(v, q) == seq!['"'] + "common/5g"@ + seq!['"'] + seq![','] + fields_text(
        v1,
        q1,
    ));
    let cmd = nr_lock_command(pci, earfcn, scs, band);
    assert("AT+QNWLOCK=\"common/5g\","@ == name + (seq!['"'] + "common/5g"@ + seq!['"'] + seq![',']));
    assert(","@ == seq![',']);
    assert(cmd == name + fields_text(v, q));
    assert(fits_field(v[0], q[0]));
    assert(fit_fields(v, q));
    lemma_parameters(cmd, name, v, q);

    let w = seq!["common/lte"@, "1"@, decimal(earfcn), decimal(pci)];
    let p = seq![true, false, false, false];
    let w1 = w.skip(1);
    let w2 = w1.skip(1);
    let w3 = w2.skip(1);
    let p1 = p.skip(1);
    let p2 = p1.skip(1);
    let p3 = p2.skip(1);
    assert(fields_text(w3, p3) == decimal(pci));
    assert(fields_text(w2, p2) == decimal(earfcn) + seq![','] + decimal(pci));
    assert(fields_text(w1, p1) == "1"@ + seq![','] + fields_text(w2, p2));
    assert(fields_text(w, p) == seq!['"'] + "common/lte"@ + seq!['"'] + seq![','] + fields_text(
        w1,
        p1,
    ));
    let lte = lte_lock_command(pci, earfcn);
    assert("AT+QNWLOCK=\"common/lte\",1,"@ == name + (seq!['"'] + "common/lte"@ + seq!['"'] + seq![',']
        + "1"@ + seq![',']));
    assert(lte == name + fields_text(w, p));
    assert(fits_field(w[0], p[0]));
    assert(fits_field(w[1], p[1]));
    assert(fit_fields(w, p));
    lemma_parameters(lte, name, w, p);
}

/// Locking to a cell sends the command with the values that are asked for: in NR a spacing of 15
/// up to the threshold of the module and of 30 above it, and nothing without a band. Removing the
/// lock names only the technology. The technology is told whatever its case.
pub proof fn law_cell_lock(
    tech: Seq<char>,
    pci: nat,
    earfcn: nat,
    band: u32,
    threshold: nat,
    enable: bool,
)
    ensures
        ({
            let step = |b: Option<u32>|
                cell_lock_step(tech, pci, earfcn, b, enable, threshold, Seq::empty());
            let nr = same_but_case(tech, "5g"@);
            &&& enable && nr && band <= threshold ==> sends(
                step(Some(band)),
                nr_lock_command(pci, earfcn, 15, band as nat),
            )
            &&& enable && nr && band > threshold ==> sends(
                step(Some(band)),
                nr_lock_command(pci, earfcn, 30, band as nat),
            )
            &&& enable && nr ==> step(None) is Done && step(None)->Done_0 is Err
            &&& enable && !nr ==> sends(step(Some(band)), lte_lock_command(pci, earfcn)) && sends(
                step(None),
                lte_lock_command(pci, earfcn),
            )
            &&& !enable && nr ==> sends(step(Some(band)), "AT+QNWLOCK=\"common/5g\",0"@) && sends(
                step(None),
                "AT+QNWLOCK=\"common/5g\",0"@,
            )
            &&& !enable && !nr ==> sends(step(Some(band)), "AT+QNWLOCK=\"common/lte\",0"@) && sends(
                step(None),
                "AT+QNWLOCK=\"common/lte\",0"@,
            )
        }),
{
}

// ---------------------------------------------------------------------------
// Single commands
// ---------------------------------------------------------------------------

/// A script of one command sends it and ends with what came back, whatever that is; one that
/// tells the module something ends in any case.
pub proof fn law_one_command(cmd: Seq<char>, reply: Reply<Seq<char>>)
    ensures
        sends(ask_step(cmd, Seq::empty()), cmd),
        ask_step(cmd, seq![reply]) == Step::<Reply<Seq<char>>, Seq<char>>::Done(reply),
        sends(tell_step(cmd, Seq::empty()), cmd),
        tell_step(cmd, seq![reply]) == Step::<(), Seq<char>>::Done(()),
        sends(raw_at_step(cmd, Seq::empty()), cmd),
        reply matches Ok(text) ==> raw_at_step(cmd, seq![reply]) == Step::<Seq<char>, Seq<char>>::Done(
            text,
        ),
{
}

/// Every network mode has its own command: the technologies to prefer, or which part of NR is
/// switched off.
pub proof fn law_network_modes(reply: Reply<Seq<char>>)
    ensures
        sends(mode_step("nr5g"@, Seq::empty()), "AT+QNWPREFCFG=\"mode_pref\",NR5G"@),
        sends(mode_step("lte"@, Seq::empty()), "AT+QNWPREFCFG=\"mode_pref\",LTE"@),
        sends(mode_step("nr5g_lte"@, Seq::empty()), "AT+QNWPREFCFG=\"mode_pref\",LTE:NR5G"@),
        sends(mode_step("wcdma"@, Seq::empty()), "AT+QNWPREFCFG=\"mode_pref\",WCDMA"@),
        sends(mode_step("auto"@, Seq::empty()), "AT+QNWPREFCFG=\"mode_pref\",AUTO"@),
        sends(mode_step("disable_sa"@, Seq::empty()), "AT+QNWPREFCFG=\"nr5g_disable_mode\",1"@),
        sends(mode_step("disable_nsa"@, Seq::empty()), "AT+QNWPREFCFG=\"nr5g_disable_mode\",2"@),
        sends(mode_step("enable_all_5g"@, Seq::empty()), "AT+QNWPREFCFG=\"nr5g_disable_mode\",0"@),
        forall|mode: Seq<char>|
            mode == "nr5g"@ || mode == "lte"@ || mode == "nr5g_lte"@ || mode == "wcdma"@ || mode
                == "auto"@ || mode == "disable_sa"@ || mode == "disable_nsa"@ || mode
                == "enable_all_5g"@ ==> #[trigger] mode_step(mode, seq![reply]) == Step::<
                Reply<Seq<char>>,
                Seq<char>,
            >::Done(reply),
        forall|mode: Seq<char>|
            mode != "nr5g"@ && mode != "lte"@ && mode != "nr5g_lte"@ && mode != "wcdma"@ && mode
                != "auto"@ && mode != "disable_sa"@ && mode != "disable_nsa"@ && mode
                != "enable_all_5g"@ ==> #[trigger] mode_step(mode, Seq::empty()) == Step::<
                Reply<Seq<char>>,
                Seq<char>,
            >::Done(Err("不支持的网络模式参数: "@ + mode)),
{
    reveal_strlit("nr5g");
    reveal_strlit("lte");
    reveal_strlit("nr5g_lte");
    reveal_strlit("wcdma");
    reveal_strlit("auto");
    reveal_strlit("disable_sa");
    reveal_strlit("disable_nsa");
    reveal_strlit("enable_all_5g");
    assert("nr5g"@.len() == 4 && "lte"@.len() == 3 && "nr5g_lte"@.len() == 8 && "wcdma"@.len() == 5
        && "auto"@.len() == 4 && "disable_sa"@.len() == 10 && "disable_nsa"@.len() == 11
        && "enable_all_5g"@.len() == 13);
    assert("nr5g"@[0] == 'n' && "auto"@[0] == 'a');
}

/// Connecting and disconnecting send opposite commands; each is confirmed exactly where the module
/// took it.
pub proof fn law_data_session(text: Seq<char>, e: Seq<char>)
    ensures
        sends(session_step(true, Seq::empty()), "AT+CGACT=1,1"@),
        sends(session_step(false, Seq::empty()), "AT+CGACT=0,1"@),
        session_step(true, seq![Ok::<Seq<char>, Seq<char>>(text)]) == Step::<
            Reply<Seq<char>>,
            Seq<char>,
        >::Done(Ok("拨号连接指令已下发"@)),
        session_step(false, seq![Ok::<Seq<char>, Seq<char>>(text)]) == Step::<
            Reply<Seq<char>>,
            Seq<char>,
        >::Done(Ok("拨号断开指令已下发"@)),
        forall|connect: bool| #[trigger]
            session_step(connect, seq![Err::<Seq<char>, Seq<char>>(e)]) == Step::<
                Reply<Seq<char>>,
                Seq<char>,
            >::Done(Err(e)),
{
}

/// The diagnostics: each kind sends its own query; that for the time of the network has a second
/// way, which is tried exactly where the first one fails.
pub proof fn law_diagnostics(reply: Reply<Seq<char>>, second: Reply<Seq<char>>)
    ensures
        sends(
            diagnostics_step(DiagnosticType::Neighbour, Seq::empty()),
            "AT+QENG=\"neighbourcell\""@,
        ),
        sends(diagnostics_step(DiagnosticType::MbnList, Seq::empty()), "AT+QMBNCFG=\"List\""@),
        sends(
            diagnostics_step(DiagnosticType::AutoSelQuery, Seq::empty()),
            "AT+QMBNCFG=\"AutoSel\""@,
        ),
        sends(diagnostics_step(DiagnosticType::Qlts, Seq::empty()), "AT+QLTS=2"@),
        forall|diag: DiagnosticType|
            diag != DiagnosticType::Qlts ==> #[trigger] diagnostics_step(diag, seq![reply]) == Step::<
                Reply<Seq<char>>,
                Seq<char>,
            >::Done(reply),
        reply is Ok ==> diagnostics_step(DiagnosticType::Qlts, seq![reply]) == Step::<
            Reply<Seq<char>>,
            Seq<char>,
        >::Done(reply),
        reply is Err ==> sends(diagnostics_step(DiagnosticType::Qlts, seq![reply]), "AT+QLTS"@),
        reply is Err ==> diagnostics_step(DiagnosticType::Qlts, seq![reply, second]) == Step::<
            Reply<Seq<char>>,
            Seq<char>,
        >::Done(second),
{
}

/// The USB network mode and the SIM slot are sent as they are asked for, where they exist: modes 0
/// to 5, slots 1 and 2.
pub proof fn law_numbered_settings(mode: u8, slot: u32, reply: Reply<Seq<char>>)
    ensures
        mode <= 5 ==> sends(
            usbnet_step(mode, Seq::empty()),
            "AT+QCFG=\"usbnet\","@ + decimal(mode as nat),
        ),
        mode <= 5 ==> usbnet_step(mode, seq![reply]) == Step::<Reply<Seq<char>>, Seq<char>>::Done(
            reply,
        ),
        mode > 5 ==> usbnet_step(mode, Seq::empty()) is Done && usbnet_step(
            mode,
            Seq::empty(),
        )->Done_0 is Err,
        slot == 1 || slot == 2 ==> sends(
            slot_step(slot, Seq::empty()),
            "AT+QUIMSLOT="@ + decimal(slot as nat),
        ),
        slot == 1 || slot == 2 ==> slot_step(slot, seq![reply]) == Step::<
            Reply<Seq<char>>,
            Seq<char>,
        >::Done(reply),
        slot == 0 || slot > 2 ==> slot_step(slot, Seq::empty()) is Done && slot_step(
            slot,
            Seq::empty(),
        )->Done_0 is Err,
{
}

/// A carrier configuration is selected by its name in quotes; a name of which nothing is left is
/// refused.
pub proof fn law_select_configuration(name: Seq<char>, reply: Reply<Seq<char>>)
    ensures
        at_param(name).len() > 0 ==> sends(
            set_mbn_step(name, Seq::empty()),
            "AT+QMBNCFG=\"Select\",\""@ + at_param(name) + "\""@,
        ),
        at_param(name).len() > 0 ==> set_mbn_step(name, seq![reply]) == Step::<
            Reply<Seq<char>>,
            Seq<char>,
        >::Done(reply),
        at_param(name).len() == 0 ==> set_mbn_step(name, Seq::empty()) is Done && set_mbn_step(
            name,
            Seq::empty(),
        )->Done_0 is Err,
{
    reveal_strlit("AT+QMBNCFG=\"Select\",");
    reveal_strlit("AT+QMBNCFG=\"Select\",\"");
    reveal_strlit("\"");
    let n = at_param(name);
    assert("AT+QMBNCFG=\"Select\","@ + ("\""@ + n + "\""@) == "AT+QMBNCFG=\"Select\",\""@ + n + "\""@);
}

/// The access point is defined first, by its name in quotes for both versions of IP. Where there
/// is a user, the authentication follows: its kind, then the user, then the password. The first
/// failure is the result; otherwise the access point is confirmed by its name.
pub proof fn law_access_point(
    apn: Seq<char>,
    user: Seq<char>,
    pass: Seq<char>,
    kind: u8,
    first: Reply<Seq<char>>,
    second: Reply<Seq<char>>,
)
    ensures
        ({
            let step = |replies: Seq<Reply<Seq<char>>>| apn_step(apn, user, pass, kind, replies);
            let done = Step::<Reply<Seq<char>>, Seq<char>>::Done(
                Ok("APN "@ + at_param(apn) + " 设置已应用"@),
            );
            let named = at_param(user).len() > 0;
            &&& sends(step(Seq::empty()), "AT+CGDCONT=1,\"IPV4V6\",\""@ + at_param(apn) + "\""@)
            &&& first is Err ==> step(seq![first]) == Step::<Reply<Seq<char>>, Seq<char>>::Done(first)
            &&& first is Ok && !named ==> step(seq![first]) == done
            &&& first is Ok && named ==> sends(
                step(seq![first]),
                "AT+CGAUTH=1,"@ + decimal(kind as nat) + ",\""@ + at_param(user) + "\",\""@
                    + at_param(pass) + "\""@,
            )
            &&& first is Ok && named && second is Err ==> step(seq![first, second]) == Step::<
                Reply<Seq<char>>,
                Seq<char>,
            >::Done(second)
            &&& first is Ok && named && second is Ok ==> step(seq![first, second]) == done
        }),
{
    reveal_strlit("AT+CGDCONT=1,\"IPV4V6\",");
    reveal_strlit("AT+CGDCONT=1,\"IPV4V6\",\"");
    reveal_strlit("\"");
    reveal_strlit(",");
    reveal_strlit(",\"");
    reveal_strlit("\",\"");
    let a = at_param(apn);
    let u = at_param(user);
    let p = at_param(pass);
    let k = decimal(kind as nat);
    assert("AT+CGDCONT=1,\"IPV4V6\","@ + ("\""@ + a + "\""@) == "AT+CGDCONT=1,\"IPV4V6\",\""@ + a
        + "\""@);
    assert("AT+CGAUTH=1,"@ + k + ","@ + ("\""@ + u + "\""@) + ","@ + ("\""@ + p + "\""@)
        == "AT+CGAUTH=1,"@ + k + ",\""@ + u + "\",\""@ + p + "\""@);
}

/// A scan has four minutes; where it fails, it finds nothing.
pub proof fn law_scan_script(e: Seq<char>)
    ensures
        scan_step(Seq::empty()) == Step::<Seq<ScannedNetwork<Seq<char>>>, Seq<char>>::Send(
            AtCommand {
                cmd: "AT+COPS=?"@,
                timeout_secs: 240,
                sms_message: None,
                hex_body: None,
            },
        ),
        scan_step(seq![Err::<Seq<char>, Seq<char>>(e)]) is Done,
        scan_step(seq![Err::<Seq<char>, Seq<char>>(e)])->Done_0.len() == 0,
{
}

/// Listing the messages selects text mode and then the default alphabet, whatever came back for
/// them; only the reply to the listing counts, and where that fails there is no message.
pub proof fn law_message_list(a: Reply<Seq<char>>, b: Reply<Seq<char>>, c: Reply<Seq<char>>)
    ensures
        sends(sms_list_step(Seq::empty()), "AT+CMGF=1"@),
        sends(sms_list_step(seq![a]), "AT+CSCS=\"GSM\""@),
        sends(sms_list_step(seq![a, b]), "AT+CMGL=\"ALL\""@),
        c matches Ok(text) ==> sms_list_step(seq![a, b, c]) == Step::<Seq<char>, Seq<char>>::Done(text),
        c is Err ==> sms_list_step(seq![a, b, c]) == Step::<Seq<char>, Seq<char>>::Done(
            "+CMGL: 0 messages\r\nOK\r\n"@,
        ),
{
}

} // verus!
