//! What the files under `/proc` say of the host.

use vstd::prelude::*;
use vstd::string::StringExecFns;

use crate::double::{
    double_of, half_even, percent_text, push_percent, round_half_even, to_double,
};
use crate::number::{decimal, parse_uint, parsed_uint, push_decimal};
use crate::text::{lines, lines_of, opt_text, split_whitespace, starts_with, texts, words_of};

verus! {

/// The processor time since the start, in all and idle.
#[derive(Debug, Clone, Copy, PartialEq, Eq)]
pub struct CpuSnapshot {
    pub total: u64,
    pub idle: u64,
}

/// The numbers among the words.
pub open spec fn numbers_in(words: Seq<Seq<char>>) -> Seq<nat>
    decreases words.len(),
{
    if words.len() == 0 {
        Seq::empty()
    } else {
        match parsed_uint(words.last(), u64::MAX as nat) {
            Some(v) => numbers_in(words.drop_last()).push(v),
            None => numbers_in(words.drop_last()),
        }
    }
}

/// The sum of numbers, as a 64-bit counter shows it.
pub open spec fn counter_sum(list: Seq<nat>) -> nat
    decreases list.len(),
{
    if list.len() == 0 {
        0
    } else {
        (counter_sum(list.drop_last()) + list.last()) % 0x1_0000_0000_0000_0000
    }
}

/// The idle part of the times: the fourth and the fifth, which counts waiting for devices.
pub open spec fn idle_times(list: Seq<nat>) -> Seq<nat> {
    if list.len() <= 3 {
        Seq::empty()
    } else if list.len() == 4 {
        list.subrange(3, 4)
    } else {
        list.subrange(3, 5)
    }
}

/// The times that the first line of `/proc/stat` gives; nothing where it gives none.
pub open spec fn cpu_times(content: Seq<char>) -> Option<CpuSnapshot> {
    let ls = lines_of(content);
    if ls.len() == 0 || !"cpu "@.is_prefix_of(ls[0]) {
        None
    } else {
        let times = numbers_in(words_of(ls[0]).skip(1));
        if counter_sum(times) == 0 {
            None
        } else {
            Some(
                CpuSnapshot {
                    total: counter_sum(times) as u64,
                    idle: counter_sum(idle_times(times)) as u64,
                },
            )
        }
    }
}

/// Reads the processor times in `/proc/stat`.
pub fn parse_cpu_times(content: &str) -> (r: Option<CpuSnapshot>)
    ensures
        r == cpu_times(content@),
{
    let ls = lines(content);
    assert(texts(ls@).len() == ls@.len());
    if ls.len() == 0 {
        return None;
    }
    assert(lines_of(content@)[0] == ls@[0]@);
    if !starts_with(ls[0], "cpu ") {
        return None;
    }
    let words = split_whitespace(ls[0]);
    let ghost all = words_of(ls@[0]@);
    assert(texts(words@).len() == words@.len());
    let ghost rest = all.skip(1);
    let mut total: u64 = 0;
    let mut idle: u64 = 0;
    let mut count: usize = 0;
    let mut k: usize = 1;
    proof {
        lemma_first_word(ls@[0]@);
    }
    assert(numbers_in(rest.take(0)) == Seq::<nat>::empty());
    assert(idle_times(Seq::<nat>::empty()) == Seq::<nat>::empty());
    while k < words.len()
        invariant
            1 <= k <= words@.len(),
            all == texts(words@),
            all.len() == words@.len(),
            rest == all.skip(1),
            count == numbers_in(rest.take(k - 1)).len(),
            count <= k,
            total == counter_sum(numbers_in(rest.take(k - 1))),
            idle == counter_sum(idle_times(numbers_in(rest.take(k - 1)))),
        decreases words@.len() - k,
    {
        let ghost before = numbers_in(rest.take(k - 1));
        assert(rest.take(k as int).drop_last() == rest.take(k - 1));
        assert(rest.take(k as int).last() == words@[k as int]@);
        if let Some(v) = parse_uint(words[k], u64::MAX) {
            let ghost after = before.push(v as nat);
            assert(after.drop_last() == before);
            proof {
                lemma_idle(before, v as nat);
            }
            total = total.wrapping_add(v);
            if count == 3 || count == 4 {
                idle = idle.wrapping_add(v);
            }
            count += 1;
        }
        k += 1;
    }
    assert(rest.take(k - 1) == rest);
    if total == 0 {
        return None;
    }
    Some(CpuSnapshot { total, idle })
}

/// A line that begins with a word has words.
proof fn lemma_first_word(s: Seq<char>)
    requires
        "cpu "@.is_prefix_of(s),
    ensures
        words_of(s).len() > 0,
{
    reveal_strlit("cpu ");
    assert(s[0] == "cpu "@[0]);
}

/// How one time more changes the idle part.
proof fn lemma_idle(before: Seq<nat>, v: nat)
    ensures
        idle_times(before.push(v)) == (if before.len() == 3 || before.len() == 4 {
            idle_times(before).push(v)
        } else {
            idle_times(before)
        }),
        (before.len() == 3 || before.len() == 4) ==> idle_times(before).push(v).drop_last()
            == idle_times(before),
{
    let after = before.push(v);
    if before.len() == 3 {
        assert(after.subrange(3, 4) == Seq::<nat>::empty().push(v));
    } else if before.len() == 4 {
        assert(after.subrange(3, 5) == before.subrange(3, 4).push(v));
    } else if before.len() > 4 {
        assert(after.subrange(3, 5) == before.subrange(3, 5));
    }
}

/// How far a 64-bit counter went from `old` to `new`.
pub open spec fn counter_delta(new: u64, old: u64) -> int {
    if new >= old {
        new - old
    } else {
        new - old + 0x1_0000_0000_0000_0000
    }
}

/// The busy time and the whole time between two snapshots; nothing where no time has passed.
pub open spec fn busy_between(now: CpuSnapshot, prev: CpuSnapshot) -> Option<(u64, u64)> {
    let whole = counter_delta(now.total, prev.total);
    let idle = counter_delta(now.idle, prev.idle);
    if whole == 0 {
        None
    } else {
        Some(
            (
                if idle <= whole {
                    (whole - idle) as u64
                } else {
                    0
                },
                whole as u64,
            ),
        )
    }
}

/// The share of busy time between two snapshots, as a percentage with one decimal.
pub open spec fn usage_text(now: CpuSnapshot, prev: Option<CpuSnapshot>) -> Option<Seq<char>> {
    match prev {
        Some(p) => match busy_between(now, p) {
            Some((busy, whole)) => Some(percent_text(busy as nat, whole as nat)),
            None => None,
        },
        None => None,
    }
}

/// Takes the content of `/proc/stat` and gives the share of busy time since the last call. The
/// first call, and one that cannot be read, gives nothing.
pub fn get_cpu_usage(content: &str, prev: &mut Option<CpuSnapshot>) -> (r: Option<String>)
    ensures
        match cpu_times(content@) {
            None => *final(prev) == *old(prev) && r is None,
            Some(now) => *final(prev) == Some(now) && opt_text(r) == usage_text(now, *old(prev)),
        },
{
    let now = match parse_cpu_times(content) {
        Some(s) => s,
        None => {
            return None;
        },
    };
    let last = *prev;
    *prev = Some(now);
    match last {
        Some(p) => {
            let whole: u64 = now.total.wrapping_sub(p.total);
            let idle: u64 = now.idle.wrapping_sub(p.idle);
            if whole > 0 {
                let busy: u64 = if idle <= whole {
                    whole - idle
                } else {
                    0
                };
                let mut text = String::new();
                push_percent(&mut text, busy, whole);
                assert(text@ == percent_text(busy as nat, whole as nat));
                Some(text)
            } else {
                None
            }
        },
        None => None,
    }
}

/// The number in the second word of a line that begins with `name`.
pub open spec fn meminfo_on(line: Seq<char>, name: Seq<char>) -> Option<nat> {
    if name.is_prefix_of(line) && words_of(line).len() > 1 {
        parsed_uint(words_of(line)[1], u64::MAX as nat)
    } else {
        None
    }
}

/// The number that the last such line gives, or 0.
pub open spec fn meminfo_value(ls: Seq<Seq<char>>, name: Seq<char>) -> nat
    decreases ls.len(),
{
    if ls.len() == 0 {
        0
    } else {
        match meminfo_on(ls.last(), name) {
            Some(v) => v,
            None => meminfo_value(ls.drop_last(), name),
        }
    }
}

/// The memory in use and in all, in kilobytes; nothing where either is not known.
pub open spec fn memory_use(content: Seq<char>) -> Option<(u64, u64)> {
    let total = meminfo_value(lines_of(content), "MemTotal:"@);
    let available = meminfo_value(lines_of(content), "MemAvailable:"@);
    if total == 0 || available == 0 {
        None
    } else {
        Some(
            (
                if available <= total {
                    (total - available) as u64
                } else {
                    0
                },
                total as u64,
            ),
        )
    }
}

fn read_meminfo(line: &str, name: &str) -> (r: Option<u64>)
    ensures
        match r {
            Some(v) => meminfo_on(line@, name@) == Some(v as nat),
            None => meminfo_on(line@, name@) is None,
        },
{
    if !starts_with(line, name) {
        return None;
    }
    let words = split_whitespace(line);
    assert(texts(words@).len() == words@.len());
    if words.len() > 1 {
        assert(words_of(line@)[1] == words@[1]@);
        parse_uint(words[1], u64::MAX)
    } else {
        None
    }
}

/// The number that the last line of `/proc/meminfo` with this name gives, or 0.
fn find_meminfo(content: &str, name: &str) -> (r: u64)
    ensures
        r == meminfo_value(lines_of(content@), name@),
{
    let list = lines(content);
    let ghost all = lines_of(content@);
    let mut value: u64 = 0;
    let mut k: usize = 0;
    assert(texts(list@).len() == list@.len());
    while k < list.len()
        invariant
            k <= list@.len(),
            all == texts(list@),
            all.len() == list@.len(),
            value == meminfo_value(all.take(k as int), name@),
        decreases list@.len() - k,
    {
        let line = list[k];
        k += 1;
        assert(all.take(k as int).drop_last() == all.take(k - 1));
        assert(all.take(k as int).last() == line@);
        if let Some(v) = read_meminfo(line, name) {
            value = v;
        }
    }
    assert(all.take(k as int) == all);
    value
}

/// Kilobytes as the nearest number of megabytes.
pub open spec fn megabytes_text(kilobytes: nat) -> Seq<char> {
    decimal(half_even(double_of(kilobytes), 1024))
}

/// The share of memory in use, and both sizes in megabytes.
pub open spec fn memory_text(content: Seq<char>) -> Option<Seq<char>> {
    match memory_use(content) {
        Some((used, total)) => Some(
            percent_text(used as nat, total as nat) + " ("@ + megabytes_text(used as nat) + "M/"@
                + megabytes_text(total as nat) + "M)"@,
        ),
        None => None,
    }
}

fn push_megabytes(out: &mut String, kilobytes: u64)
    ensures
        final(out)@ == old(out)@ + megabytes_text(kilobytes as nat),
{
    let m: u128 = round_half_even(to_double(kilobytes), 1024);
    push_decimal(out, m as u64);
}

/// Takes the content of `/proc/meminfo` and gives the share of memory in use, with the memory in
/// use and in all.
pub fn get_memory_usage(content: &str) -> (r: Option<String>)
    ensures
        opt_text(r) == memory_text(content@),
{
    let total: u64 = find_meminfo(content, "MemTotal:");
    let available: u64 = find_meminfo(content, "MemAvailable:");
    if total == 0 || available == 0 {
        return None;
    }
    let used: u64 = if available <= total {
        total - available
    } else {
        0
    };
    let mut text = String::new();
    push_percent(&mut text, used, total);
    text.append(" (");
    push_megabytes(&mut text, used);
    text.append("M/");
    push_megabytes(&mut text, total);
    text.append("M)");
    assert(Some(text@) == memory_text(content@));
    Some(text)
}

/// What is in use is never more than there is, and what is busy never more than has passed.
pub proof fn law_usage_is_a_part(content: Seq<char>, now: CpuSnapshot, prev: CpuSnapshot)
    ensures
        memory_use(content) matches Some((used, total)) ==> used <= total && total > 0,
        busy_between(now, prev) matches Some((busy, whole)) ==> busy <= whole && whole > 0,
{
    lemma_meminfo_fits(lines_of(content), "MemTotal:"@);
    lemma_meminfo_fits(lines_of(content), "MemAvailable:"@);
}

proof fn lemma_meminfo_fits(ls: Seq<Seq<char>>, name: Seq<char>)
    ensures
        meminfo_value(ls, name) <= u64::MAX,
    decreases ls.len(),
{
    if ls.len() > 0 {
        lemma_meminfo_fits(ls.drop_last(), name);
    }
}

} // verus!
