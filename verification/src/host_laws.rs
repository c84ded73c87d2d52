//! What holds of the configuration, the serial line, the log, redirects and the load of the host.

use vstd::prelude::*;
use vstd::utf8::encode_utf8;

use crate::atcmd::{
    event_of, is_terminator, message_bytes, read_all, state_after, AnswerEvent, AnswerState,
};
use crate::auth::text_digest;
use crate::backend::process::utf8_lossy;
use crate::config::{configured, EnvValues};
use crate::device::{
    ascii_uppercase, family_of, is_profile, rm502q_names, rm520n_names, DeviceId, DeviceProfile,
};
use crate::double::{double_of, granule, half_even, percent_text};
use crate::logger::{log_line, pushed_all};
use crate::number::{decimal, is_digit, law_decimal_round_trip, lemma_decimal, parsed_uint};
use crate::sys::{
    busy_between, counter_sum, cpu_times, idle_times, megabytes_text, meminfo_on, meminfo_value,
    memory_text, numbers_in, usage_text, CpuSnapshot,
};
use crate::text::{
    ascii_lower, ascii_upper, is_space, lemma_index_of_char, lines_of, mentions, pieces,
    same_but_case, trimmed, words_of,
};
use crate::text_laws::{is_word, law_words};
use crate::tls::{gateway_addresses, path_or, secure_url};

verus! {

// ---------------------------------------------------------------------------
// Configuration
// ---------------------------------------------------------------------------

/// Every variable that is set reaches its own setting.
pub proof fn law_settings_are_taken(env: EnvValues, nanos: u128, pid: u32, port: u16)
    ensures
        ({
            let c = configured(env, nanos, pid);
            &&& env.serial_port matches Some(s) ==> c.serial_path == s@
            &&& env.jwt_secret matches Some(s) ==> c.jwt_secret == s@
            &&& env.username matches Some(s) ==> c.admin_username == s@
            &&& env.password matches Some(s) ==> c.admin_pass_sha == text_digest(s@)
            &&& env.enable_https matches Some(s) ==> (c.enable_https <==> s@ == "1"@
                || same_but_case(s@, "true"@))
            &&& env.http_redirect matches Some(s) ==> (c.enable_http_redirect <==> s@ == "1"@
                || same_but_case(s@, "true"@))
            &&& env.http_port matches Some(s) ==> (s@ == decimal(port as nat) ==> c.http_port == port)
            &&& env.http_port is None ==> (env.port matches Some(s) ==> (s@ == decimal(port as nat)
                ==> c.http_port == port))
            &&& env.https_port matches Some(s) ==> (s@ == decimal(port as nat) ==> c.https_port
                == port)
        }),
{
    law_decimal_round_trip(port as nat, u16::MAX as nat);
}

/// Every setting has a default where its variable is not set, and a port also where it is none.
/// The addresses are those of the ports, on every interface.
pub proof fn law_default_settings(env: EnvValues, nanos: u128, pid: u32)
    ensures
        ({
            let c = configured(env, nanos, pid);
            let no_port = |o: Option<String>|
                o matches Some(s) ==> parsed_uint(s@, u16::MAX as nat) is None;
            &&& env.serial_port is None ==> c.serial_path == "/dev/smd11"@
            &&& env.jwt_secret is None ==> c.jwt_secret == text_digest(
                "jwt_rand_"@ + decimal(nanos as nat) + "_"@ + decimal(pid as nat),
            )
            &&& env.username is None ==> c.admin_username == "admin"@
            &&& env.password is None ==> c.admin_pass_sha == text_digest("admin123"@)
            &&& env.enable_https is None ==> c.enable_https
            &&& env.http_redirect is None ==> c.enable_http_redirect
            &&& env.http_port is Some && no_port(env.http_port) ==> c.http_port == 80
            &&& env.http_port is None && no_port(env.port) ==> c.http_port == 80
            &&& no_port(env.https_port) ==> c.https_port == 443
            &&& c.http_addr == "0.0.0.0:"@ + decimal(c.http_port as nat)
            &&& c.https_addr == "0.0.0.0:"@ + decimal(c.https_port as nat)
        }),
{
}

// ---------------------------------------------------------------------------
// Module families
// ---------------------------------------------------------------------------

/// The family of a module by its model name: one name of a family in it is enough, and a name of
/// no family makes it a generic one.
pub proof fn law_families(model: Seq<char>)
    ensures
        mentions(model, "RM520N"@) ==> family_of(model) == DeviceId::Rm520n,
        mentions(model, "RG520N"@) ==> family_of(model) == DeviceId::Rm520n,
        mentions(model, "RM502Q"@) && !mentions(model, "RM520N"@) && !mentions(model, "RG520N"@)
            ==> family_of(model) == DeviceId::Rm502q,
        !mentions(model, "RM502Q"@) && !mentions(model, "RM520N"@) && !mentions(model, "RG520N"@)
            ==> family_of(model) == DeviceId::Generic,
{
    let a = rm520n_names();
    let b = rm502q_names();
    assert(a[0] == "RM520N"@ && a[1] == "RG520N"@ && a.len() == 2);
    assert(b[0] == "RM502Q"@ && b.len() == 1);
}

/// In every family the spacing of 15 kHz ends with band 28, and only the RM520N has a network
/// port. Each family has its own bands.
pub proof fn law_profiles(p: DeviceProfile, id: DeviceId)
    requires
        is_profile(p, id),
    ensures
        p.id == id,
        p.nr_cell_lock_scs_threshold == 28,
        p.has_eth_driver <==> id == DeviceId::Rm520n,
        id == DeviceId::Rm520n ==> {
            &&& p.name@ == "RM520N / RG520N Series"@
            &&& p.default_nr_bands@
                == "1:2:3:5:7:8:12:13:14:18:20:25:26:28:29:30:38:40:41:48:66:70:71:75:76:77:78:79"@
            &&& p.default_lte_bands@
                == "1:2:3:4:5:7:8:12:13:14:17:18:19:20:25:26:28:29:30:32:34:38:39:40:41:42:43:48:66:71"@
        },
        id == DeviceId::Rm502q ==> {
            &&& p.name@ == "RM502Q-AE"@
            &&& p.default_nr_bands@ == "1:2:3:5:7:8:12:20:28:38:40:41:48:66:71:77:78:79"@
            &&& p.default_lte_bands@
                == "1:2:3:4:5:7:8:12:13:14:17:18:19:20:25:26:28:29:30:32:34:38:39:40:41:42:43:46:48:66:71"@
        },
        id == DeviceId::Generic ==> {
            &&& p.name@ == "Generic Quectel Module"@
            &&& p.default_nr_bands@ == "1:3:8:28:41:77:78:79"@
            &&& p.default_lte_bands@ == "1:3:5:8:34:38:39:40:41"@
        },
{
}

// ---------------------------------------------------------------------------
// The serial line
// ---------------------------------------------------------------------------

/// The lines that end an answer, whatever white space is around them.
pub proof fn law_terminators(line: Seq<char>)
    ensures
        ({
            let t = trimmed(line);
            &&& t == "OK"@ || t == "ERROR"@ || t == "NO CARRIER"@ || t == "NO ANSWER"@ || t
                == "NO DIALTONE"@ || t == "BUSY"@ ==> is_terminator(line)
            &&& "+CME ERROR:"@.is_prefix_of(t) || "+CMS ERROR:"@.is_prefix_of(t) ==> is_terminator(
                line,
            )
            &&& is_terminator(line) ==> t == "OK"@ || t == "ERROR"@ || t == "NO CARRIER"@ || t
                == "NO ANSWER"@ || t == "NO DIALTONE"@ || t == "BUSY"@ || "+CME ERROR:"@.is_prefix_of(
                t,
            ) || "+CMS ERROR:"@.is_prefix_of(t)
        }),
{
}

/// A message is entered as its bytes and then the one that sends it.
pub proof fn law_message_bytes(message: Seq<char>)
    ensures
        message_bytes(message).last() == 26,
        message_bytes(message).drop_last() == encode_utf8(message),
{
    assert(message_bytes(message).drop_last() == encode_utf8(message));
}

/// A line is collected byte by byte up to its break, which is either of two bytes; a line that
/// grows beyond the longest is forgotten.
pub proof fn law_line_is_collected(s: AnswerState, bytes: Seq<u8>, has_message: bool)
    requires
        s.line.len() == 0,
        bytes.len() <= 8192,
        forall|i: int| 0 <= i < bytes.len() ==> #[trigger] bytes[i] != 10 && bytes[i] != 13,
    ensures
        bytes.len() < 8192 ==> read_all(s, bytes, has_message).state.line == bytes,
        bytes.len() == 8192 ==> read_all(s, bytes, has_message).state.line.len() == 0,
        !read_all(s, bytes, has_message).ended,
        read_all(s, bytes, has_message).read == bytes.len(),
    decreases bytes.len(),
{
    if bytes.len() > 0 {
        let init = bytes.drop_last();
        assert forall|i: int| 0 <= i < init.len() implies #[trigger] init[i] != 10 && init[i] != 13 by {
            assert(bytes[i] != 10 && bytes[i] != 13);
        }
        law_line_is_collected(s, init, has_message);
        assert(bytes[bytes.len() - 1] != 10 && bytes[bytes.len() - 1] != 13);
        assert(init.push(bytes.last()) == bytes);
    } else {
        assert(s.line == bytes);
    }
}

/// An answer ends with the break of a line exactly where that line is one that ends answers, and
/// the next line begins anew.
pub proof fn law_answer_ends(s: AnswerState, line: Seq<u8>, b: u8)
    requires
        s.line.len() == 0,
        0 < line.len() < 8192,
        forall|i: int| 0 <= i < line.len() ==> #[trigger] line[i] != 10 && line[i] != 13,
        b == 10 || b == 13,
    ensures
        read_all(s, line.push(b), false).ended <==> is_terminator(utf8_lossy(line)),
        read_all(s, line.push(b), false).state.line.len() == 0,
{
    law_line_is_collected(s, line, false);
    assert(line.push(b).drop_last() == line);
}

/// The modem asks for a message with a line break and `>`, alone or with a space behind it; it is
/// looked for only while a message is to be entered and has not been asked for.
pub proof fn law_prompt(s: AnswerState, b: u8)
    requires
        s.last.len() == 4,
    ensures
        !s.prompted ==> (event_of(s, b, true) == AnswerEvent::Prompt <==> (s.last[2] == 13 && s.last[3]
            == 10 && b == 62) || (s.last[1] == 13 && s.last[2] == 10 && s.last[3] == 62 && b == 32)),
        event_of(s, b, false) != AnswerEvent::Prompt,
        s.prompted ==> event_of(s, b, true) != AnswerEvent::Prompt,
        !s.prompted ==> state_after(s, b, true).last == seq![s.last[1], s.last[2], s.last[3], b],
        state_after(s, b, true).prompted <==> s.prompted || event_of(s, b, true)
            == AnswerEvent::Prompt,
{
    let l = s.last.skip(1).push(b);
    assert(l == seq![s.last[1], s.last[2], s.last[3], b]);
    let m = l.skip(1);
    assert(m == seq![s.last[2], s.last[3], b]);
    let p = seq![0x0du8, 0x0au8, 0x3eu8, 0x20u8];
    let q = seq![0x0du8, 0x0au8, 0x3eu8];
    if s.last[1] == 13 && s.last[2] == 10 && s.last[3] == 62 && b == 32 {
        assert(l =~= p);
    }
    if l == p {
        assert(l[0] == 13 && l[1] == 10 && l[2] == 62 && l[3] == 32);
    }
    if s.last[2] == 13 && s.last[3] == 10 && b == 62 {
        assert(m =~= q);
    }
    if m == q {
        assert(m[0] == 13 && m[1] == 10 && m[2] == 62);
    }
}

// ---------------------------------------------------------------------------
// Log and redirects
// ---------------------------------------------------------------------------

/// The log holds the last hundred lines, in the order in which they came.
pub proof fn law_log_holds_hundred(list: Seq<Seq<char>>)
    ensures
        list.len() <= 100 ==> pushed_all(Seq::empty(), list) == list,
        list.len() > 100 ==> pushed_all(Seq::empty(), list) == list.skip(list.len() - 100),
{
    crate::logger::law_log_keeps_latest(list);
}

/// A log line shows its time, level and module in brackets, then its message.
pub proof fn law_log_line(now: Seq<char>, level: Seq<char>, module: Seq<char>, msg: Seq<char>)
    ensures
        ({
            let s = log_line(now, level, module, msg);
            let a = 1 + now.len() as int;
            let b = a + 3 + level.len() as int;
            let c = b + 3 + module.len() as int;
            &&& s.subrange(1, a) == now
            &&& s.subrange(a + 3, b) == level
            &&& s.subrange(b + 3, c) == module
            &&& s.skip(c + 3) == msg
            &&& s[0] == '[' && s[a] == ']' && s[b] == ']' && s[c] == ']'
            &&& s[c + 1] == ':' && s[c + 2] == ' '
        }),
{
    reveal_strlit("[");
    reveal_strlit("] [");
    reveal_strlit("]: ");
}

/// A plain request is sent to the same host, without the port that it came to, and to the same
/// path; the port is named unless it is the usual one.
pub proof fn law_redirects(host: Seq<char>, port: Seq<char>, uri: Seq<char>, https_port: u16)
    requires
        !host.contains(':'),
    ensures
        secure_url(Some(host + ":"@ + port), uri, 443) == "https://"@ + host + uri,
        secure_url(Some(host), uri, 443) == "https://"@ + host + uri,
        secure_url(None, uri, 443) == "https://localhost"@ + uri,
        https_port != 443 ==> secure_url(Some(host + ":"@ + port), uri, https_port) == "https://"@
            + host + ":"@ + decimal(https_port as nat) + uri,
        https_port != 443 ==> secure_url(Some(host), uri, https_port) == "https://"@ + host + ":"@
            + decimal(https_port as nat) + uri,
{
    reveal_strlit(":");
    let s = host + ":"@ + port;
    assert forall|j: int| 0 <= j < host.len() implies host[j] != ':' && s[j] != ':' by {
        assert(s[j] == host[j]);
        assert(host.contains(host[j]));
    }
    lemma_index_of_char(host, ':', host.len() as int);
    lemma_index_of_char(s, ':', host.len() as int);
    assert(s.take(host.len() as int) == host);
    assert(pieces(s, ':')[0] == host);
    assert(pieces(host, ':')[0] == host);
    let l = "localhost"@;
    reveal_strlit("localhost");
    reveal_strlit("https://");
    reveal_strlit("https://localhost");
    lemma_index_of_char(l, ':', l.len() as int);
    assert(pieces(l, ':')[0] == l);
    assert("https://"@ + l == "https://localhost"@);
}

/// A path that is set is taken, and another one where none is.
pub proof fn law_certificate_paths(p: Seq<char>, other: Seq<char>)
    ensures
        path_or(Some(p), other) == p,
        path_or(None, other) == other,
{
}

// ---------------------------------------------------------------------------
// The load of the host
// ---------------------------------------------------------------------------

/// Numbers in decimal, one after another with a space before each.
pub open spec fn spaced(list: Seq<nat>) -> Seq<char>
    decreases list.len(),
{
    if list.len() == 0 {
        Seq::empty()
    } else {
        seq![' '] + decimal(list[0]) + spaced(list.skip(1))
    }
}

/// The sum of numbers.
pub open spec fn total_of(list: Seq<nat>) -> nat
    decreases list.len(),
{
    if list.len() == 0 {
        0
    } else {
        total_of(list.drop_last()) + list.last()
    }
}

proof fn lemma_total_grows(list: Seq<nat>, i: int)
    requires
        0 <= i < list.len(),
    ensures
        list[i] <= total_of(list),
        i > 0 ==> list[i - 1] + list[i] <= total_of(list),
    decreases list.len(),
{
    let h = list.drop_last();
    if i < h.len() {
        lemma_total_grows(h, i);
        assert(h[i] == list[i]);
        if i > 0 {
            assert(h[i - 1] == list[i - 1]);
        }
    } else if i > 0 {
        lemma_total_grows(h, i - 1);
        assert(h[i - 1] == list[i - 1]);
    }
}

proof fn lemma_decimal_word(n: nat)
    ensures
        is_word(decimal(n)),
{
    lemma_decimal(n);
    let d = decimal(n);
    assert forall|i: int| 0 <= i < d.len() implies !is_space(#[trigger] d[i]) by {
        assert(is_digit(d[i]));
    }
}

proof fn lemma_spaced_words(list: Seq<nat>)
    ensures
        words_of(spaced(list)) == Seq::new(list.len(), |i: int| decimal(list[i])),
    decreases list.len(),
{
    let all = Seq::new(list.len(), |i: int| decimal(list[i]));
    if list.len() == 0 {
        assert(all == Seq::<Seq<char>>::empty());
    } else {
        let d = decimal(list[0]);
        let rest = spaced(list.skip(1));
        lemma_decimal_word(list[0]);
        lemma_spaced_words(list.skip(1));
        assert(spaced(list) == seq![' '] + (d + rest));
        law_words(d, ' ', d + rest);
        if list.len() == 1 {
            assert(rest == Seq::<char>::empty());
            assert(d + rest == d);
            assert(all == seq![d]);
        } else {
            let tail = list.skip(1);
            let after = decimal(tail[0]) + spaced(tail.skip(1));
            assert(rest == seq![' '] + after);
            assert(d + rest == d + seq![' '] + after);
            law_words(d, ' ', after);
            assert(words_of(rest) == words_of(after));
            assert(all == seq![d] + Seq::new(tail.len(), |i: int| decimal(tail[i])));
        }
    }
}

proof fn lemma_numbers(list: Seq<nat>)
    requires
        forall|i: int| 0 <= i < list.len() ==> #[trigger] list[i] <= u64::MAX,
    ensures
        numbers_in(Seq::new(list.len(), |i: int| decimal(list[i]))) == list,
    decreases list.len(),
{
    let d = Seq::new(list.len(), |i: int| decimal(list[i]));
    if list.len() > 0 {
        let h = list.drop_last();
        assert forall|i: int| 0 <= i < h.len() implies #[trigger] h[i] <= u64::MAX by {
            assert(list[i] <= u64::MAX);
        }
        lemma_numbers(h);
        assert(list[list.len() - 1] <= u64::MAX);
        assert(d.drop_last() == Seq::new(h.len(), |i: int| decimal(h[i])));
        law_decimal_round_trip(list.last(), u64::MAX as nat);
        assert(h.push(list.last()) == list);
    } else {
        assert(numbers_in(d) == list);
    }
}

proof fn lemma_counter_sum(list: Seq<nat>)
    requires
        total_of(list) <= u64::MAX,
    ensures
        counter_sum(list) == total_of(list),
    decreases list.len(),
{
    if list.len() > 0 {
        lemma_counter_sum(list.drop_last());
    }
}

/// The times of the processor: those of the first line of the file, of which the fourth and the
/// fifth are idle ones. Where no time has passed there are none.
pub proof fn law_processor_times(list: Seq<nat>, rest: Seq<char>)
    requires
        list.len() > 0,
        total_of(list) <= u64::MAX,
    ensures
        ({
            let idle = if list.len() > 4 {
                list[3] + list[4]
            } else if list.len() == 4 {
                list[3]
            } else {
                0
            };
            &&& total_of(list) > 0 ==> cpu_times("cpu "@ + spaced(list) + "\n"@ + rest) == Some(
                CpuSnapshot { total: total_of(list) as u64, idle: idle as u64 },
            )
            &&& total_of(list) == 0 ==> cpu_times("cpu "@ + spaced(list) + "\n"@ + rest) is None
        }),
{
    reveal_strlit("cpu ");
    reveal_strlit("\n");
    let line = "cpu "@ + spaced(list);
    let content = line + "\n"@ + rest;
    lemma_no_break(list);
    assert forall|i: int| 0 <= i < list.len() implies #[trigger] list[i] <= u64::MAX by {
        lemma_total_grows(list, i);
    }
    assert(!line.contains('\n')) by {
        assert forall|i: int| 0 <= i < line.len() implies line[i] != '\n' by {
            if i >= 4 {
                assert(line[i] == spaced(list)[i - 4]);
                assert(spaced(list).contains(spaced(list)[i - 4]));
            }
        }
    }
    lemma_spaced_end(list);
    assert(line.last() == spaced(list).last());
    crate::text_laws::law_lines(line, rest);
    let ls = lines_of(content);
    assert(ls[0] == line);
    assert("cpu "@ == line.subrange(0, 4));
    let w = seq!['c', 'p', 'u'];
    assert(is_word(w));
    assert(line == w + seq![' '] + spaced(list));
    law_words(w, ' ', spaced(list));
    lemma_spaced_words(list);
    let words = Seq::new(list.len(), |i: int| decimal(list[i]));
    assert((seq![w] + words).skip(1) == words);
    lemma_numbers(list);
    lemma_counter_sum(list);
    let idle = idle_times(list);
    reveal_with_fuel(counter_sum, 3);
    if list.len() > 4 {
        assert(idle == seq![list[3], list[4]]);
        lemma_total_grows(list, 4);
        assert(idle.drop_last() == seq![list[3]]);
        assert(idle.drop_last().drop_last() == Seq::<nat>::empty());
    } else if list.len() == 4 {
        assert(idle == seq![list[3]]);
        lemma_total_grows(list, 3);
        assert(idle.drop_last() == Seq::<nat>::empty());
    } else {
        assert(idle == Seq::<nat>::empty());
    }
}

proof fn lemma_no_break(list: Seq<nat>)
    ensures
        !spaced(list).contains('\n'),
    decreases list.len(),
{
    if list.len() > 0 {
        lemma_no_break(list.skip(1));
        lemma_decimal(list[0]);
        let d = decimal(list[0]);
        let rest = spaced(list.skip(1));
        let s = spaced(list);
        assert forall|i: int| 0 <= i < s.len() implies s[i] != '\n' by {
            if 1 <= i < 1 + d.len() {
                assert(s[i] == d[i - 1]);
                assert(is_digit(d[i - 1]));
            } else if i > d.len() {
                assert(s[i] == rest[i - 1 - d.len()]);
                assert(rest.contains(rest[i - 1 - d.len()]));
            }
        }
    }
}

proof fn lemma_spaced_end(list: Seq<nat>)
    requires
        list.len() > 0,
    ensures
        spaced(list).len() > 0,
        is_digit(spaced(list).last()),
    decreases list.len(),
{
    let d = decimal(list[0]);
    lemma_decimal(list[0]);
    if list.len() > 1 {
        lemma_spaced_end(list.skip(1));
    } else {
        assert(spaced(list.skip(1)) == Seq::<char>::empty());
        assert(is_digit(d[d.len() - 1]));
        assert(spaced(list).last() == d[d.len() - 1]);
    }
}

/// A file that does not begin with the times of the processor gives none.
pub proof fn law_no_processor_times(content: Seq<char>)
    ensures
        lines_of(content).len() == 0 ==> cpu_times(content) is None,
        lines_of(content).len() > 0 && !"cpu "@.is_prefix_of(lines_of(content)[0]) ==> cpu_times(
            content,
        ) is None,
{
}

/// The busy share of the time between two readings is what was not idle, also where a counter has
/// started anew; where no time has passed there is none, and the first reading has none.
pub proof fn law_busy_share(now: CpuSnapshot, prev: CpuSnapshot, whole: u64, idle: u64)
    requires
        now.total as int == (prev.total + whole) % 0x1_0000_0000_0000_0000,
        now.idle as int == (prev.idle + idle) % 0x1_0000_0000_0000_0000,
        idle <= whole,
    ensures
        whole > 0 ==> busy_between(now, prev) == Some(((whole - idle) as u64, whole)),
        whole == 0 ==> busy_between(now, prev) is None,
        whole > 0 ==> usage_text(now, Some(prev)) == Some(
            percent_text((whole - idle) as nat, whole as nat),
        ),
        usage_text(now, None) is None,
{
}

/// A line of the memory file gives its number, in kilobytes.
pub proof fn law_memory_line(name: Seq<char>, n: u64)
    requires
        is_word(name),
    ensures
        meminfo_on(name + " "@ + decimal(n as nat) + " kB"@, name) == Some(n as nat),
{
    reveal_strlit(" ");
    reveal_strlit(" kB");
    let d = decimal(n as nat);
    let line = name + " "@ + d + " kB"@;
    let kb = seq!['k', 'B'];
    assert(name == line.subrange(0, name.len() as int));
    lemma_decimal_word(n as nat);
    assert(line == name + seq![' '] + (d + seq![' '] + kb));
    law_words(name, ' ', d + seq![' '] + kb);
    law_words(d, ' ', kb);
    assert(is_word(kb));
    law_words(kb, ' ', Seq::empty());
    assert(words_of(line) == seq![name] + (seq![d] + seq![kb]));
    assert(words_of(line)[1] == d);
    law_decimal_round_trip(n as nat, u64::MAX as nat);
}

/// Of several lines with a name the last one counts; without any the number is 0.
pub proof fn law_last_memory_line(ls: Seq<Seq<char>>, line: Seq<char>, name: Seq<char>)
    ensures
        meminfo_on(line, name) matches Some(n) ==> meminfo_value(ls.push(line), name) == n,
        meminfo_on(line, name) is None ==> meminfo_value(ls.push(line), name) == meminfo_value(
            ls,
            name,
        ),
        meminfo_value(Seq::empty(), name) == 0,
{
    assert(ls.push(line).drop_last() == ls);
}

/// The memory in use is what is not available of the whole; both are shown in megabytes, with the
/// share in use. Where either is not known nothing is shown.
pub proof fn law_memory_shown(content: Seq<char>)
    ensures
        ({
            let total = meminfo_value(lines_of(content), "MemTotal:"@);
            let free = meminfo_value(lines_of(content), "MemAvailable:"@);
            &&& 0 < free <= total ==> memory_text(content) == Some(
                percent_text((total - free) as nat, total) + " ("@ + megabytes_text(
                    (total - free) as nat,
                ) + "M/"@ + megabytes_text(total) + "M)"@,
            )
            &&& free == 0 || total == 0 ==> memory_text(content) is None
        }),
{
    crate::sys::law_usage_is_a_part(
        content,
        CpuSnapshot { total: 0, idle: 0 },
        CpuSnapshot { total: 0, idle: 0 },
    );
    let total = meminfo_value(lines_of(content), "MemTotal:"@);
    let free = meminfo_value(lines_of(content), "MemAvailable:"@);
    lemma_memory_fits(lines_of(content), "MemTotal:"@);
    lemma_memory_fits(lines_of(content), "MemAvailable:"@);
}

proof fn lemma_memory_fits(ls: Seq<Seq<char>>, name: Seq<char>)
    ensures
        meminfo_value(ls, name) <= u64::MAX,
    decreases ls.len(),
{
    if ls.len() > 0 {
        lemma_memory_fits(ls.drop_last(), name);
    }
}

/// Kilobytes are shown as the nearest whole number of megabytes.
pub proof fn law_megabytes(kilobytes: nat)
    requires
        kilobytes < 0x20_0000_0000_0000,
    ensures
        exists|m: nat|
            megabytes_text(kilobytes) == #[trigger] decimal(m) && 2 * kilobytes <= (2 * m + 1) * 1024
                && 2 * m * 1024 <= 2 * kilobytes + 1024,
{
    assert(granule(kilobytes) == 1);
    assert(half_even(kilobytes, 1) == kilobytes);
    assert(double_of(kilobytes) == kilobytes);
    let m = half_even(kilobytes, 1024);
    assert(megabytes_text(kilobytes) == decimal(m));
    assert(2 * kilobytes <= (2 * m + 1) * 1024 && 2 * m * 1024 <= 2 * kilobytes + 1024);
}

/// Words that are no numbers are passed over; and a line of the memory file with another name, or
/// with nothing behind its name, gives no number.
pub proof fn law_other_words(words: Seq<Seq<char>>, w: Seq<char>, line: Seq<char>, name: Seq<char>)
    ensures
        parsed_uint(w, u64::MAX as nat) is None ==> numbers_in(words.push(w)) == numbers_in(words),
        !name.is_prefix_of(line) ==> meminfo_on(line, name) is None,
        words_of(line).len() < 2 ==> meminfo_on(line, name) is None,
{
    assert(words.push(w).drop_last() == words);
    assert(words.push(w).last() == w);
}

/// A model name is compared in capitals: letters of ASCII lose their case and nothing else
/// changes.
pub proof fn law_model_names(s: Seq<char>)
    ensures
        same_but_case(ascii_uppercase(s), s),
        forall|i: int|
            0 <= i < s.len() ==> !('a' <= #[trigger] ascii_uppercase(s)[i] && ascii_uppercase(s)[i]
                <= 'z'),
        forall|i: int|
            0 <= i < s.len() && !('a' <= s[i] && s[i] <= 'z') ==> #[trigger] ascii_uppercase(s)[i]
                == s[i],
{
    let u = ascii_uppercase(s);
    assert forall|i: int| 0 <= i < u.len() implies ascii_lower(#[trigger] u[i]) == ascii_lower(s[i]) by {
        lemma_upper(s[i]);
    }
    assert forall|i: int| 0 <= i < s.len() implies !('a' <= #[trigger] u[i] && u[i] <= 'z') by {
        lemma_upper(s[i]);
    }
}

proof fn lemma_upper(c: char)
    ensures
        ascii_lower(ascii_upper(c)) == ascii_lower(c),
        !('a' <= ascii_upper(c) && ascii_upper(c) <= 'z'),
{
}

/// The addresses in a certificate that is made on the spot: the local one and those that gateways
/// usually have.
pub proof fn law_gateway_addresses()
    ensures
        gateway_addresses().contains("127.0.0.1"@),
        gateway_addresses().contains("192.168.0.1"@),
        gateway_addresses().contains("192.168.1.1"@),
        gateway_addresses().contains("192.168.8.1"@),
        gateway_addresses().contains("192.168.100.1"@),
        gateway_addresses().len() == 5,
{
    let g = gateway_addresses();
    assert(g[0] == "127.0.0.1"@ && g[1] == "192.168.1.1"@ && g[2] == "192.168.0.1"@ && g[3]
        == "192.168.8.1"@ && g[4] == "192.168.100.1"@);
}

} // verus!
