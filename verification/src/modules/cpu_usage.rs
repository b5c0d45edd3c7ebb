//! How busy the processor and how full the memory is, from what the kernel
//! reports.

use std::collections::HashMap;

use vstd::prelude::*;
use vstd::string::*;

use crate::modules::system_controls::{CpuCoreKind, CpuCoreUsage, CpuStatus, MemoryStatus};
use crate::seqs::{find_first, first_index, lemma_first_index, lemma_first_index_bounds};
use crate::text::{
    chars_of, decimal, is_digit, law_decimal_round_trip, lemma_decimal_value, lemma_position,
    lemma_position_bounds, lines, parse_u64, parse_unsigned, parse_unsigned_max, position,
    position_white, same, split_on, split_once, split_text, split_text_once, starts_with, string_of,
    text_lines, text_strip_prefix, text_words, trim, trim_text, views, white, words,
};
use crate::text_laws::law_split_once;

verus! {

broadcast use vstd::std_specs::hash::group_hash_axioms;

/// The time that passed on a processor, and the part of it that it was idle.
#[derive(Clone, Copy, Debug, PartialEq, Eq, Structural)]
pub struct CpuTimes {
    pub total: u64,
    pub idle: u64,
}

/// The times of the whole processor and of its cores.
#[derive(Debug, PartialEq, Eq)]
pub struct CpuSnapshot {
    pub total: CpuTimes,
    pub cores: Vec<(usize, CpuTimes)>,
}

/// The numbers that texts denote, if each denotes one of 64 bits.
pub open spec fn numbers(s: Seq<Seq<char>>) -> Option<Seq<nat>>
    decreases s.len(),
{
    if s.len() == 0 {
        Some(Seq::empty())
    } else {
        match (numbers(s.drop_last()), parse_unsigned(s.last(), u64::MAX as nat)) {
            (Some(before), Some(n)) => Some(before.push(n)),
            _ => None,
        }
    }
}

/// The sum of numbers.
pub open spec fn sum(s: Seq<nat>) -> nat
    decreases s.len(),
{
    if s.len() == 0 {
        0
    } else {
        sum(s.drop_last()) + s.last()
    }
}

/// The first eight numbers, or all where there are fewer: what follows is
/// contained in the numbers before.
pub open spec fn counted(s: Seq<nat>) -> Seq<nat> {
    if s.len() > 8 {
        s.take(8)
    } else {
        s
    }
}

/// The idle time among the numbers.
pub open spec fn idle_time(s: Seq<nat>) -> nat {
    s[3] + if s.len() > 4 {
        s[4]
    } else {
        0
    }
}

/// The times that the values of a line denote.
pub open spec fn time_values(values: Seq<char>) -> Option<CpuTimes> {
    match numbers(words(values)) {
        None => None,
        Some(s) => if s.len() >= 4 && sum(counted(s)) <= u64::MAX && idle_time(s) <= u64::MAX {
            Some(CpuTimes { total: sum(counted(s)) as u64, idle: idle_time(s) as u64 })
        } else {
            None
        },
    }
}

proof fn lemma_numbers_none(s: Seq<Seq<char>>, i: int)
    requires
        0 <= i < s.len(),
        parse_unsigned(s[i], u64::MAX as nat) is None,
    ensures
        numbers(s) is None,
    decreases s.len(),
{
    if i < s.len() - 1 {
        lemma_numbers_none(s.drop_last(), i);
    }
}

proof fn lemma_sum_monotonic(s: Seq<nat>, i: int)
    requires
        0 <= i <= s.len(),
    ensures
        sum(s.take(i)) <= sum(s),
    decreases s.len(),
{
    if i < s.len() {
        lemma_sum_monotonic(s.drop_last(), i);
        assert(s.drop_last().take(i) =~= s.take(i));
    } else {
        assert(s.take(i) =~= s);
    }
}

/// The numbers of some exec values.
pub open spec fn nats(s: Seq<u64>) -> Seq<nat> {
    s.map_values(|n: u64| n as nat)
}

/// The times that the values of a line denote: the sum of the first eight, of
/// which the fourth and the fifth are idle time.
pub fn parse_cpu_time_values(values: &str) -> (r: Option<CpuTimes>)
    ensures
        r == time_values(values@),
{
    let parts = text_words(values);
    let ghost ws = words(values@);
    let mut read: Vec<u64> = Vec::new();
    let mut i: usize = 0;
    proof {
        assert(ws.take(0) =~= Seq::empty());
        assert(nats(read@) =~= Seq::empty());
    }
    while i < parts.len()
        invariant
            i <= parts.len(),
            ws == words(values@),
            ws == views(parts@),
            numbers(ws.take(i as int)) == Some(nats(read@)),
            read.len() == i,
        decreases parts.len() - i,
    {
        proof {
            assert(ws[i as int] == parts@[i as int]@);
            assert(ws.take(i + 1).drop_last() =~= ws.take(i as int));
        }
        match parse_u64(parts[i].as_str()) {
            None => {
                proof {
                    lemma_numbers_none(ws, i as int);
                }
                return None;
            },
            Some(n) => {
                let ghost before = read@;
                read.push(n);
                proof {
                    assert(nats(read@) =~= nats(before).push(n as nat));
                }
            },
        }
        i += 1;
    }
    let ghost s = nats(read@);
    proof {
        assert(ws.take(i as int) =~= ws);
    }
    if read.len() < 4 {
        return None;
    }
    let limit: usize = if read.len() > 8 {
        8
    } else {
        read.len()
    };
    let ghost c = counted(s);
    let mut total: u64 = 0;
    let mut k: usize = 0;
    proof {
        assert(c =~= s.take(limit as int));
        assert(c.take(0) =~= Seq::empty());
    }
    while k < limit
        invariant
            k <= limit <= read.len(),
            s == nats(read@),
            c == s.take(limit as int),
            c == counted(s),
            numbers(words(values@)) == Some(s),
            total == sum(c.take(k as int)),
        decreases limit - k,
    {
        proof {
            assert(c.take(k + 1).drop_last() =~= c.take(k as int));
            assert(c[k as int] == read@[k as int]);
            lemma_sum_monotonic(c, k + 1);
        }
        match total.checked_add(read[k]) {
            None => {
                return None;
            },
            Some(next) => {
                total = next;
            },
        }
        k += 1;
    }
    proof {
        assert(c.take(k as int) =~= c);
        assert(s[3] == read@[3]);
    }
    let waiting: u64 = if read.len() > 4 {
        proof {
            assert(s[4] == read@[4]);
        }
        read[4]
    } else {
        0
    };
    match read[3].checked_add(waiting) {
        None => None,
        Some(idle) => Some(CpuTimes { total, idle }),
    }
}

/// The times of the whole processor: those of the first line that begins with
/// its name.
pub open spec fn whole_times(stat: Seq<char>) -> Option<CpuTimes> {
    match find_first(lines(stat), |l: Seq<char>| starts_with(l, "cpu "@)) {
        None => None,
        Some(line) => time_values(line.skip("cpu "@.len() as int)),
    }
}

/// The times of the whole processor.
pub fn parse_cpu_times(stat: &str) -> (r: Option<CpuTimes>)
    ensures
        r == whole_times(stat@),
{
    let all = text_lines(stat);
    let ghost ls = lines(stat@);
    let ghost p = |l: Seq<char>| starts_with(l, "cpu "@);
    let mut i: usize = 0;
    while i < all.len()
        invariant
            i <= all.len(),
            ls == views(all@),
            ls == lines(stat@),
            p == (|l: Seq<char>| starts_with(l, "cpu "@)),
            forall|j: int| 0 <= j < i ==> !p(#[trigger] ls[j]),
        decreases all.len() - i,
    {
        proof {
            assert(ls[i as int] == all@[i as int]@);
        }
        if let Some(values) = text_strip_prefix(all[i].as_str(), "cpu ") {
            proof {
                lemma_first_index(ls, p, i as nat);
            }
            return parse_cpu_time_values(values.as_str());
        }
        i += 1;
    }
    proof {
        lemma_first_index(ls, p, i as nat);
    }
    None
}

/// The core and its times that a line denotes.
pub open spec fn core_line(line: Seq<char>) -> Option<(usize, CpuTimes)> {
    let at = position(line, white());
    if at == line.len() {
        None
    } else {
        let name = line.take(at as int);
        if starts_with(name, "cpu"@) {
            match parse_unsigned(name.skip("cpu"@.len() as int), usize::MAX as nat) {
                None => None,
                Some(index) => match time_values(line.skip(at + 1int)) {
                    None => None,
                    Some(times) => Some((index as usize, times)),
                },
            }
        } else {
            None
        }
    }
}

/// The core and its times that a line denotes.
fn parse_core_line(line: &str) -> (r: Option<(usize, CpuTimes)>)
    ensures
        r == core_line(line@),
{
    let chars = chars_of(line);
    let at = position_white(chars.as_slice());
    if at == chars.len() {
        return None;
    }
    proof {
        lemma_position_bounds(line@, white());
    }
    let (name_chars, rest) = chars.as_slice().split_at(at);
    let (_, value_chars) = rest.split_at(1);
    proof {
        assert(name_chars@ =~= line@.take(at as int));
        assert(value_chars@ =~= line@.skip(at + 1));
    }
    let name = string_of(name_chars);
    let values = string_of(value_chars);
    match text_strip_prefix(name.as_str(), "cpu") {
        None => None,
        Some(number) => match parse_unsigned_max(number.as_str(), usize::MAX as u64) {
            None => None,
            Some(index) => match parse_cpu_time_values(values.as_str()) {
                None => None,
                Some(times) => Some((index as usize, times)),
            },
        },
    }
}

/// The cores that lines denote, in their order; other lines are passed over.
pub open spec fn core_lines(ls: Seq<Seq<char>>) -> Seq<(usize, CpuTimes)>
    decreases ls.len(),
{
    if ls.len() == 0 {
        Seq::empty()
    } else {
        let before = core_lines(ls.drop_last());
        match core_line(ls.last()) {
            Some(core) => before.push(core),
            None => before,
        }
    }
}

/// The times of the whole processor and of its cores.
pub fn parse_cpu_snapshot(stat: &str) -> (r: Option<CpuSnapshot>)
    ensures
        match whole_times(stat@) {
            None => r is None,
            Some(total) => {
                &&& r is Some
                &&& r->0.total == total
                &&& r->0.cores@ == core_lines(lines(stat@))
            },
        },
{
    let total = match parse_cpu_times(stat) {
        None => {
            return None;
        },
        Some(total) => total,
    };
    let all = text_lines(stat);
    let ghost ls = lines(stat@);
    let mut cores: Vec<(usize, CpuTimes)> = Vec::new();
    let mut i: usize = 0;
    proof {
        assert(ls.take(0) =~= Seq::empty());
    }
    while i < all.len()
        invariant
            i <= all.len(),
            ls == views(all@),
            cores@ == core_lines(ls.take(i as int)),
        decreases all.len() - i,
    {
        proof {
            assert(ls[i as int] == all@[i as int]@);
            assert(ls.take(i + 1).drop_last() =~= ls.take(i as int));
        }
        if let Some(core) = parse_core_line(all[i].as_str()) {
            cores.push(core);
        }
        i += 1;
    }
    proof {
        assert(ls.take(i as int) =~= ls);
    }
    Some(CpuSnapshot { total, cores })
}

/// What lies between two readings; nothing where the second is smaller.
pub open spec fn grown(current: u64, previous: u64) -> nat {
    if current > previous {
        (current - previous) as nat
    } else {
        0
    }
}

/// The time between two readings in which the processor was busy.
pub open spec fn busy(current: CpuTimes, previous: CpuTimes) -> nat {
    let total = grown(current.total, previous.total);
    let idle = grown(current.idle, previous.idle);
    if total > idle {
        (total - idle) as nat
    } else {
        0
    }
}

/// The part that one number is of another, in units of which the whole has so
/// many, rounded to the nearest; nothing of nothing.
pub open spec fn share(part: nat, whole: nat, units: nat) -> nat {
    if whole == 0 {
        0
    } else {
        (part * units + whole / 2) / whole
    }
}

proof fn lemma_share_bounded(part: nat, whole: nat, units: nat)
    requires
        part <= whole,
        whole > 0,
    ensures
        share(part, whole, units) <= units,
{
    assert(part * units <= whole * units) by (nonlinear_arith)
        requires
            part <= whole,
    ;
    let n = part * units + whole / 2;
    assert(n <= whole * units + whole / 2);
    assert(n / whole <= units) by (nonlinear_arith)
        requires
            n <= whole * units + whole / 2,
            whole > 0,
    {
        vstd::arithmetic::div_mod::lemma_fundamental_div_mod(n as int, whole as int);
        assert((n / whole) * whole <= n);
        assert(whole / 2 < whole);
        assert((n / whole) * whole < (units + 1) * whole);
    }
}

/// How much of the time between two readings the processor was busy.
fn busy_share(current: CpuTimes, previous: CpuTimes, units: u64) -> (r: u64)
    requires
        units <= 1_000,
    ensures
        r == share(
            busy(current, previous),
            grown(current.total, previous.total),
            units as nat,
        ),
        r <= units,
{
    let total: u64 = if current.total > previous.total {
        current.total - previous.total
    } else {
        0
    };
    if total == 0 {
        return 0;
    }
    let idle: u64 = if current.idle > previous.idle {
        current.idle - previous.idle
    } else {
        0
    };
    let part: u64 = if total > idle {
        total - idle
    } else {
        0
    };
    proof {
        assert(part as int * units as int <= u64::MAX as int * 1_000) by (nonlinear_arith)
            requires
                part <= u64::MAX,
                units <= 1_000,
        ;
        lemma_share_bounded(part as nat, total as nat, units as nat);
    }
    let scaled: u128 = part as u128 * units as u128 + (total / 2) as u128;
    let result: u128 = scaled / total as u128;
    proof {
        assert(result == share(part as nat, total as nat, units as nat));
    }
    result as u64
}

/// How busy the processor was between two readings, in percent, rounded to the
/// nearest.
pub fn cpu_usage_percent(current: CpuTimes, previous: CpuTimes) -> (r: u8)
    ensures
        r == share(busy(current, previous), grown(current.total, previous.total), 100),
        r <= 100,
{
    busy_share(current, previous, 100) as u8
}

/// How busy a core was between two readings, in tenths of a percent, rounded to
/// the nearest.
pub fn cpu_usage_percent_tenths(current: CpuTimes, previous: CpuTimes) -> (r: u16)
    ensures
        r == share(busy(current, previous), grown(current.total, previous.total), 1_000),
        r <= 1_000,
{
    busy_share(current, previous, 1_000) as u16
}

/// Compares readings of the processor with the ones before.
pub struct CpuUsageSampler {
    pub previous: Option<CpuSnapshot>,
    pub core_kinds: HashMap<usize, CpuCoreKind>,
}

/// The predicate that holds of the times of a core.
pub open spec fn of_core(index: usize) -> spec_fn((usize, CpuTimes)) -> bool {
    |c: (usize, CpuTimes)| c.0 == index
}

/// The kind of a core, where it is known.
pub open spec fn kind_of(kinds: Map<usize, CpuCoreKind>, index: usize) -> Option<CpuCoreKind> {
    if kinds.contains_key(index) {
        Some(kinds[index])
    } else {
        None
    }
}

/// How busy the cores are that were there before, in their order.
pub open spec fn core_usages(
    current: Seq<(usize, CpuTimes)>,
    previous: Seq<(usize, CpuTimes)>,
    kinds: Map<usize, CpuCoreKind>,
) -> Seq<CpuCoreUsage>
    decreases current.len(),
{
    if current.len() == 0 {
        Seq::empty()
    } else {
        let before = core_usages(current.drop_last(), previous, kinds);
        let (index, times) = current.last();
        match find_first(previous, of_core(index)) {
            None => before,
            Some(found) => before.push(
                CpuCoreUsage {
                    index,
                    kind: kind_of(kinds, index),
                    percent_tenths: share(
                        busy(times, found.1),
                        grown(times.total, found.1.total),
                        1_000,
                    ) as u16,
                },
            ),
        }
    }
}

/// The times of a core among others.
fn times_of(cores: &Vec<(usize, CpuTimes)>, index: usize) -> (r: Option<CpuTimes>)
    ensures
        r == match find_first(cores@, of_core(index)) {
            Some(found) => Some(found.1),
            None => None,
        },
{
    let ghost p = of_core(index);
    let mut i: usize = 0;
    while i < cores.len()
        invariant
            i <= cores.len(),
            p == of_core(index),
            forall|j: int| 0 <= j < i ==> !p(#[trigger] cores@[j]),
        decreases cores.len() - i,
    {
        if cores[i].0 == index {
            proof {
                lemma_first_index(cores@, p, i as nat);
            }
            return Some(cores[i].1);
        }
        i += 1;
    }
    proof {
        lemma_first_index(cores@, p, i as nat);
    }
    None
}

impl CpuUsageSampler {
    /// A sampler that has read nothing yet and knows the kinds of the cores.
    pub fn new(core_kinds: HashMap<usize, CpuCoreKind>) -> (r: Self)
        ensures
            r.previous is None,
            r.core_kinds@ == core_kinds@,
    {
        CpuUsageSampler { previous: None, core_kinds }
    }

    /// How busy the processor was since the reading before; at the first reading
    /// nothing can be said yet.
    pub fn sample_snapshot(&mut self, current: CpuSnapshot) -> (r: CpuStatus)
        ensures
            final(self).previous == Some(current),
            final(self).core_kinds@ == old(self).core_kinds@,
            r.available,
            old(self).previous is None ==> r.percent == 0 && r.core_usages@ == Seq::<
                CpuCoreUsage,
            >::empty(),
            old(self).previous is Some ==> {
                &&& r.percent == share(
                    busy(current.total, old(self).previous->0.total),
                    grown(current.total.total, old(self).previous->0.total.total),
                    100,
                )
                &&& r.core_usages@ == core_usages(
                    current.cores@,
                    old(self).previous->0.cores@,
                    old(self).core_kinds@,
                )
            },
    {
        let mut usages: Vec<CpuCoreUsage> = Vec::new();
        let mut percent: u8 = 0;
        if let Some(previous) = &self.previous {
            percent = cpu_usage_percent(current.total, previous.total);
            let ghost now = current.cores@;
            let ghost before = previous.cores@;
            let ghost kinds = self.core_kinds@;
            let mut i: usize = 0;
            proof {
                assert(now.take(0) =~= Seq::empty());
            }
            while i < current.cores.len()
                invariant
                    i <= current.cores.len(),
                    now == current.cores@,
                    before == previous.cores@,
                    kinds == self.core_kinds@,
                    usages@ == core_usages(now.take(i as int), before, kinds),
                decreases current.cores.len() - i,
            {
                proof {
                    assert(now.take(i + 1).drop_last() =~= now.take(i as int));
                }
                let (index, times) = current.cores[i];
                if let Some(found) = times_of(&previous.cores, index) {
                    let kind = match self.core_kinds.get(&index) {
                        Some(kind) => Some(*kind),
                        None => None,
                    };
                    usages.push(
                        CpuCoreUsage {
                            index,
                            kind,
                            percent_tenths: cpu_usage_percent_tenths(times, found),
                        },
                    );
                }
                i += 1;
            }
            proof {
                assert(now.take(i as int) =~= now);
            }
        }
        self.previous = Some(current);
        CpuStatus { available: true, percent, core_usages: usages }
    }

    /// How busy the processor was, from what the kernel reports of it.
    pub fn sample(&mut self, stat: Option<&str>) -> (r: CpuStatus)
        ensures
            final(self).core_kinds@ == old(self).core_kinds@,
            (stat is None || whole_times(stat->0@) is None) ==> {
                &&& final(self).previous == old(self).previous
                &&& !r.available
                &&& r.percent == 0
                &&& r.core_usages@ == Seq::<CpuCoreUsage>::empty()
            },
            (stat is Some && whole_times(stat->0@) is Some) ==> {
                &&& r.available
                &&& final(self).previous is Some
                &&& final(self).previous->0.total == whole_times(stat->0@)->0
                &&& final(self).previous->0.cores@ == core_lines(lines(stat->0@))
                &&& old(self).previous is None ==> r.percent == 0 && r.core_usages@ == Seq::<
                    CpuCoreUsage,
                >::empty()
                &&& old(self).previous is Some ==> {
                    &&& r.percent == share(
                        busy(whole_times(stat->0@)->0, old(self).previous->0.total),
                        grown(
                            whole_times(stat->0@)->0.total,
                            old(self).previous->0.total.total,
                        ),
                        100,
                    )
                    &&& r.core_usages@ == core_usages(
                        core_lines(lines(stat->0@)),
                        old(self).previous->0.cores@,
                        old(self).core_kinds@,
                    )
                }
            },
    {
        match stat {
            None => CpuStatus::unavailable(),
            Some(stat) => match parse_cpu_snapshot(stat) {
                None => CpuStatus::unavailable(),
                Some(snapshot) => self.sample_snapshot(snapshot),
            },
        }
    }
}

impl Default for CpuUsageSampler {
    fn default() -> (r: Self)
        ensures
            r.previous is None,
            r.core_kinds@ == Map::<usize, CpuCoreKind>::empty(),
    {
        CpuUsageSampler { previous: None, core_kinds: HashMap::new() }
    }
}

/// Whether a line of the processor's description names the vendor of
/// processors with cores of two kinds.
pub open spec fn vendor_line() -> spec_fn(Seq<char>) -> bool {
    |line: Seq<char>|
        match split_once(line, ':') {
            Some((name, value)) => trim(name) == "vendor_id"@ && trim(value) == "GenuineIntel"@,
            None => false,
        }
}

/// Whether the processor is one of the vendor whose cores are of two kinds.
pub fn is_intel_cpu(cpuinfo: &str) -> (r: bool)
    ensures
        r == (exists|i: int|
            0 <= i < lines(cpuinfo@).len() && vendor_line()(#[trigger] lines(cpuinfo@)[i])),
{
    let all = text_lines(cpuinfo);
    let ghost ls = lines(cpuinfo@);
    let mut i: usize = 0;
    while i < all.len()
        invariant
            i <= all.len(),
            ls == views(all@),
            ls == lines(cpuinfo@),
            forall|j: int| 0 <= j < i ==> !vendor_line()(#[trigger] ls[j]),
        decreases all.len() - i,
    {
        proof {
            assert(ls[i as int] == all@[i as int]@);
        }
        if let Some((name, value)) = split_text_once(all[i].as_str(), ':') {
            let name = trim_text(name.as_str());
            let value = trim_text(value.as_str());
            if same(name.as_str(), "vendor_id") && same(value.as_str(), "GenuineIntel") {
                proof {
                    assert(vendor_line()(ls[i as int]));
                }
                return true;
            }
        }
        i += 1;
    }
    false
}

/// The kind of a core that runs so many threads.
pub open spec fn kind_by_threads(count: usize) -> Option<CpuCoreKind> {
    if count == 1 {
        Some(CpuCoreKind::Efficiency)
    } else if count > 1 {
        Some(CpuCoreKind::Performance)
    } else {
        None
    }
}

/// The kinds of cores by the number of threads that they run.
pub open spec fn kinds_by_threads(s: Seq<(usize, usize)>) -> Map<usize, CpuCoreKind>
    decreases s.len(),
{
    if s.len() == 0 {
        Map::empty()
    } else {
        let before = kinds_by_threads(s.drop_last());
        match kind_by_threads(s.last().1) {
            Some(kind) => before.insert(s.last().0, kind),
            None => before,
        }
    }
}

/// Whether there are both cores that run one thread and cores that run more.
pub open spec fn mixed(s: Seq<(usize, usize)>) -> bool {
    &&& exists|i: int| 0 <= i < s.len() && (#[trigger] s[i]).1 > 1
    &&& exists|i: int| 0 <= i < s.len() && (#[trigger] s[i]).1 == 1
}

/// The kinds of the cores, where they are of two kinds.
pub fn classify_cpu_core_kinds(thread_counts: &[(usize, usize)]) -> (r: HashMap<
    usize,
    CpuCoreKind,
>)
    ensures
        r@ == if mixed(thread_counts@) {
            kinds_by_threads(thread_counts@)
        } else {
            Map::empty()
        },
{
    let mut has_smt_core = false;
    let mut has_single_thread_core = false;
    let ghost s = thread_counts@;
    let mut kinds: HashMap<usize, CpuCoreKind> = HashMap::new();
    let mut i: usize = 0;
    proof {
        assert(s.take(0) =~= Seq::empty());
    }
    while i < thread_counts.len()
        invariant
            i <= thread_counts.len(),
            s == thread_counts@,
            has_smt_core == exists|j: int| 0 <= j < i && (#[trigger] s[j]).1 > 1,
            has_single_thread_core == exists|j: int| 0 <= j < i && (#[trigger] s[j]).1 == 1,
            kinds@ == kinds_by_threads(s.take(i as int)),
        decreases thread_counts.len() - i,
    {
        proof {
            assert(s.take(i + 1).drop_last() =~= s.take(i as int));
        }
        let (index, count) = thread_counts[i];
        proof {
            assert(s[i as int] == (index, count));
        }
        if count == 1 {
            has_single_thread_core = true;
            kinds.insert(index, CpuCoreKind::Efficiency);
        } else if count > 1 {
            has_smt_core = true;
            kinds.insert(index, CpuCoreKind::Performance);
        }
        i += 1;
    }
    proof {
        assert(s.take(i as int) =~= s);
    }
    if has_smt_core && has_single_thread_core {
        kinds
    } else {
        HashMap::new()
    }
}

/// How many processors an item of a list names: one, or a range from one to
/// another.
pub open spec fn item_count(item: Seq<char>) -> Option<nat> {
    match split_once(item, '-') {
        Some((start, end)) => match (
            parse_unsigned(start, usize::MAX as nat),
            parse_unsigned(end, usize::MAX as nat),
        ) {
            (Some(a), Some(b)) => if a <= b {
                Some((b - a + 1) as nat)
            } else {
                None
            },
            _ => None,
        },
        None => match parse_unsigned(item, usize::MAX as nat) {
            Some(_) => Some(1),
            None => None,
        },
    }
}

/// How many processors items name, where each names some and all can be
/// counted.
pub open spec fn items_count(items: Seq<Seq<char>>) -> Option<nat>
    decreases items.len(),
{
    if items.len() == 0 {
        Some(0)
    } else {
        match (items_count(items.drop_last()), item_count(items.last())) {
            (Some(before), Some(n)) => if before + n <= usize::MAX {
                Some(before + n)
            } else {
                None
            },
            _ => None,
        }
    }
}

proof fn lemma_items_none(items: Seq<Seq<char>>, i: int)
    requires
        0 <= i <= items.len(),
        items_count(items.take(i)) is None,
    ensures
        items_count(items) is None,
    decreases items.len() - i,
{
    if i < items.len() {
        assert(items.take(i + 1).drop_last() =~= items.take(i));
        lemma_items_none(items, i + 1);
    } else {
        assert(items.take(i) =~= items);
    }
}

/// A number of the machine's word, from a text.
fn parse_word(s: &str) -> (r: Option<usize>)
    ensures
        match r {
            Some(n) => parse_unsigned(s@, usize::MAX as nat) == Some(n as nat),
            None => parse_unsigned(s@, usize::MAX as nat) is None,
        },
{
    match parse_unsigned_max(s, usize::MAX as u64) {
        Some(n) => Some(n as usize),
        None => None,
    }
}

/// How many processors a list such as `0-3,8` names.
pub fn cpu_list_count(cpus: &str) -> (r: Option<usize>)
    ensures
        match r {
            Some(n) => items_count(split_on(trim(cpus@), ',')) == Some(n as nat),
            None => items_count(split_on(trim(cpus@), ',')) is None,
        },
{
    let trimmed = trim_text(cpus);
    let items = split_text(trimmed.as_str(), ',');
    let ghost all = split_on(trim(cpus@), ',');
    let mut count: usize = 0;
    let mut i: usize = 0;
    proof {
        assert(all.take(0) =~= Seq::empty());
    }
    while i < items.len()
        invariant
            i <= items.len(),
            all == views(items@),
            all == split_on(trim(cpus@), ','),
            items_count(all.take(i as int)) == Some(count as nat),
        decreases items.len() - i,
    {
        proof {
            assert(all[i as int] == items@[i as int]@);
            assert(all.take(i + 1).drop_last() =~= all.take(i as int));
            if items_count(all.take(i + 1)) is None {
                lemma_items_none(all, i + 1);
            }
        }
        let bounds = match split_text_once(items[i].as_str(), '-') {
            Some((start, end)) => match (parse_word(start.as_str()), parse_word(end.as_str())) {
                (Some(start), Some(end)) => Some((start, end)),
                _ => None,
            },
            None => match parse_word(items[i].as_str()) {
                Some(index) => Some((index, index)),
                None => None,
            },
        };
        match bounds {
            None => {
                return None;
            },
            Some((start, end)) => {
                if end < start {
                    return None;
                }
                match (end - start).checked_add(1) {
                    None => {
                        return None;
                    },
                    Some(n) => match n.checked_add(count) {
                        None => {
                            return None;
                        },
                        Some(next) => {
                            count = next;
                        },
                    },
                }
            },
        }
        i += 1;
    }
    proof {
        assert(all.take(i as int) =~= all);
    }
    Some(count)
}

/// The name and value of a line about the memory.
pub open spec fn memory_line(line: Seq<char>) -> Option<(Seq<char>, nat)> {
    match split_once(line, ':') {
        None => None,
        Some((name, value)) => {
            let fields = words(value);
            if fields.len() == 0 {
                None
            } else {
                match parse_unsigned(fields[0], u64::MAX as nat) {
                    None => None,
                    Some(n) => Some((name, n)),
                }
            }
        },
    }
}

/// The last value of a name in lines about the memory.
pub open spec fn memory_value(ls: Seq<Seq<char>>, name: Seq<char>) -> Option<nat>
    decreases ls.len(),
{
    if ls.len() == 0 {
        None
    } else {
        match memory_line(ls.last()) {
            Some((n, value)) => if n == name {
                Some(value)
            } else {
                memory_value(ls.drop_last(), name)
            },
            None => memory_value(ls.drop_last(), name),
        }
    }
}

/// Whether every line has a name and a value.
pub open spec fn memory_lines_hold(ls: Seq<Seq<char>>) -> bool {
    forall|i: int| 0 <= i < ls.len() ==> memory_line(#[trigger] ls[i]) is Some
}

/// How full the memory is: what is not available is used.
pub open spec fn memory_status(meminfo: Seq<char>) -> Option<MemoryStatus> {
    let ls = lines(meminfo);
    if !memory_lines_hold(ls) {
        None
    } else {
        match (memory_value(ls, "MemTotal"@), memory_value(ls, "MemAvailable"@)) {
            (Some(total), Some(available)) => if total == 0 {
                None
            } else {
                let used = if total > available {
                    (total - available) as nat
                } else {
                    0
                };
                Some(
                    MemoryStatus {
                        available: true,
                        percent: share(used, total, 100) as u8,
                        used_kib: used as u64,
                        total_kib: total as u64,
                    },
                )
            },
            _ => None,
        }
    }
}

/// A number that may be missing, of 64 bits or unbounded.
pub open spec fn opt_nat(n: Option<u64>) -> Option<nat> {
    match n {
        Some(n) => Some(n as nat),
        None => None,
    }
}

/// How full the memory is.
pub fn parse_memory_usage(meminfo: &str) -> (r: Option<MemoryStatus>)
    ensures
        r == memory_status(meminfo@),
{
    let all = text_lines(meminfo);
    let ghost ls = lines(meminfo@);
    let mut total_kib: Option<u64> = None;
    let mut available_kib: Option<u64> = None;
    let mut i: usize = 0;
    proof {
        assert(ls.take(0) =~= Seq::empty());
        reveal_strlit("MemTotal");
        reveal_strlit("MemAvailable");
        assert("MemTotal"@.len() != "MemAvailable"@.len());
    }
    while i < all.len()
        invariant
            i <= all.len(),
            ls == views(all@),
            ls == lines(meminfo@),
            "MemTotal"@ != "MemAvailable"@,
            forall|j: int| 0 <= j < i ==> memory_line(#[trigger] ls[j]) is Some,
            opt_nat(total_kib) == memory_value(ls.take(i as int), "MemTotal"@),
            opt_nat(available_kib) == memory_value(ls.take(i as int), "MemAvailable"@),
        decreases all.len() - i,
    {
        proof {
            assert(ls[i as int] == all@[i as int]@);
            assert(ls.take(i + 1).drop_last() =~= ls.take(i as int));
        }
        let (name, value) = match split_text_once(all[i].as_str(), ':') {
            None => {
                proof {
                    assert(memory_line(ls[i as int]) is None);
                }
                return None;
            },
            Some(pair) => pair,
        };
        let fields = text_words(value.as_str());
        proof {
            assert(views(fields@).len() == fields@.len());
        }
        if fields.len() == 0 {
            proof {
                assert(memory_line(ls[i as int]) is None);
            }
            return None;
        }
        proof {
            assert(views(fields@)[0] == fields@[0]@);
        }
        let value_kib: u64 = match parse_u64(fields[0].as_str()) {
            None => {
                proof {
                    assert(memory_line(ls[i as int]) is None);
                }
                return None;
            },
            Some(n) => n,
        };
        if same(name.as_str(), "MemTotal") {
            total_kib = Some(value_kib);
        } else if same(name.as_str(), "MemAvailable") {
            available_kib = Some(value_kib);
        }
        i += 1;
    }
    proof {
        assert(ls.take(i as int) =~= ls);
    }
    match (total_kib, available_kib) {
        (Some(total), Some(available)) => {
            if total == 0 {
                return None;
            }
            let used: u64 = if total > available {
                total - available
            } else {
                0
            };
            proof {
                lemma_share_bounded(used as nat, total as nat, 100);
            }
            let percent: u128 = (used as u128 * 100 + (total / 2) as u128) / total as u128;
            Some(
                MemoryStatus {
                    available: true,
                    percent: percent as u8,
                    used_kib: used,
                    total_kib: total,
                },
            )
        },
        _ => None,
    }
}

/// A share of a whole never exceeds the whole.
pub proof fn law_share_bounded(part: nat, whole: nat, units: nat)
    requires
        part <= whole,
    ensures
        share(part, whole, units) <= units,
{
    if whole > 0 {
        lemma_share_bounded(part, whole, units);
    }
}

/// The busy time never exceeds the time that passed.
pub proof fn law_busy_bounded(current: CpuTimes, previous: CpuTimes)
    ensures
        busy(current, previous) <= grown(current.total, previous.total),
{
}

/// A reading compared with itself shows nothing busy.
pub proof fn law_same_reading_idle(times: CpuTimes)
    ensures
        share(busy(times, times), grown(times.total, times.total), 100) == 0,
{
}

proof fn lemma_numbers(s: Seq<Seq<char>>, n: Seq<nat>)
    requires
        s.len() == n.len(),
        forall|i: int|
            0 <= i < s.len() ==> parse_unsigned(#[trigger] s[i], u64::MAX as nat) == Some(n[i]),
    ensures
        numbers(s) == Some(n),
    decreases s.len(),
{
    if s.len() == 0 {
        assert(n =~= Seq::empty());
    } else {
        assert forall|i: int| 0 <= i < s.drop_last().len() implies parse_unsigned(
            #[trigger] s.drop_last()[i],
            u64::MAX as nat,
        ) == Some(n.drop_last()[i]) by {
            assert(s.drop_last()[i] == s[i]);
        }
        lemma_numbers(s.drop_last(), n.drop_last());
        assert(s[s.len() - 1] == s.last());
        assert(n.drop_last().push(n.last()) =~= n);
    }
}

/// The time that passed is the sum of the first eight numbers; the fourth and the fifth
/// of them are idle time. A line with fewer than four numbers tells nothing.
pub proof fn law_times_of_processor(values: Seq<char>, n: Seq<nat>)
    requires
        words(values).len() == n.len(),
        forall|i: int|
            0 <= i < n.len() ==> parse_unsigned(#[trigger] words(values)[i], u64::MAX as nat)
                == Some(n[i]),
    ensures
        n.len() < 4 ==> time_values(values) is None,
        n.len() == 4 && n[0] + n[1] + n[2] + n[3] <= u64::MAX ==> time_values(values) == Some(
            CpuTimes { total: (n[0] + n[1] + n[2] + n[3]) as u64, idle: n[3] as u64 },
        ),
        n.len() >= 8 && n[0] + n[1] + n[2] + n[3] + n[4] + n[5] + n[6] + n[7] <= u64::MAX
            ==> time_values(values) == Some(
            CpuTimes {
                total: (n[0] + n[1] + n[2] + n[3] + n[4] + n[5] + n[6] + n[7]) as u64,
                idle: (n[3] + n[4]) as u64,
            },
        ),
        n.len() == 5 && n[0] + n[1] + n[2] + n[3] + n[4] <= u64::MAX ==> time_values(values) == Some(
            CpuTimes {
                total: (n[0] + n[1] + n[2] + n[3] + n[4]) as u64,
                idle: (n[3] + n[4]) as u64,
            },
        ),
        n.len() == 6 && n[0] + n[1] + n[2] + n[3] + n[4] + n[5] <= u64::MAX ==> time_values(values)
            == Some(
            CpuTimes {
                total: (n[0] + n[1] + n[2] + n[3] + n[4] + n[5]) as u64,
                idle: (n[3] + n[4]) as u64,
            },
        ),
        n.len() == 7 && n[0] + n[1] + n[2] + n[3] + n[4] + n[5] + n[6] <= u64::MAX ==> time_values(
            values,
        ) == Some(
            CpuTimes {
                total: (n[0] + n[1] + n[2] + n[3] + n[4] + n[5] + n[6]) as u64,
                idle: (n[3] + n[4]) as u64,
            },
        ),
        time_values(values) matches Some(t) ==> t.idle <= t.total || n.len() < 4,
{
    lemma_numbers(words(values), n);
    if n.len() >= 4 {
        let c = counted(n);
        lemma_sum_first(c);
    }
}

proof fn lemma_sum_first(s: Seq<nat>)
    requires
        4 <= s.len() <= 8,
    ensures
        s.len() == 4 ==> sum(s) == s[0] + s[1] + s[2] + s[3],
        s.len() == 5 ==> sum(s) == s[0] + s[1] + s[2] + s[3] + s[4],
        s.len() == 6 ==> sum(s) == s[0] + s[1] + s[2] + s[3] + s[4] + s[5],
        s.len() == 7 ==> sum(s) == s[0] + s[1] + s[2] + s[3] + s[4] + s[5] + s[6],
        s.len() == 8 ==> sum(s) == s[0] + s[1] + s[2] + s[3] + s[4] + s[5] + s[6] + s[7],
        s[3] + (if s.len() > 4 {
            s[4]
        } else {
            0
        }) <= sum(s),
{
    reveal_with_fuel(sum, 9);
    let a = s.drop_last();
    let b = a.drop_last();
    let c = b.drop_last();
    let d = c.drop_last();
    let e = d.drop_last();
    let f = e.drop_last();
    let g = f.drop_last();
    let h = g.drop_last();
    assert(sum(s) == sum(a) + s.last());
    assert(sum(a) == sum(b) + a.last());
    assert(sum(b) == sum(c) + b.last());
    assert(sum(c) == sum(d) + c.last());
    if s.len() > 4 {
        assert(sum(d) == sum(e) + d.last());
    }
    if s.len() > 5 {
        assert(sum(e) == sum(f) + e.last());
    }
    if s.len() > 6 {
        assert(sum(f) == sum(g) + f.last());
    }
    if s.len() > 7 {
        assert(sum(g) == sum(h) + g.last());
    }
}

/// A line tells of the core whose number stands behind the name of the processor.
pub proof fn law_line_of_core(index: usize, values: Seq<char>)
    ensures
        core_line("cpu"@ + decimal(index as nat) + seq![' '] + values) == match time_values(values) {
            Some(times) => Some((index, times)),
            None => None,
        },
        core_line("cpu"@ + seq![' '] + values) is None,
{
    reveal_strlit("cpu");
    let d = decimal(index as nat);
    let name = "cpu"@ + d;
    let line = name + seq![' '] + values;
    lemma_decimal_value(index as nat);
    assert forall|j: int| 0 <= j < name.len() implies !white()(#[trigger] line[j]) by {
        assert(line[j] == name[j]);
        if j >= 3 {
            assert(is_digit(d[j - 3]));
        }
    }
    assert(line[name.len() as int] == ' ');
    lemma_position(line, white(), name.len());
    assert(line.take(name.len() as int) =~= name);
    assert(name.take(3) =~= "cpu"@);
    assert(name.skip(3) =~= d);
    assert(line.skip(name.len() + 1int) =~= values);
    law_decimal_round_trip(index as nat, usize::MAX as nat);
    let whole = "cpu"@ + seq![' '] + values;
    assert forall|j: int| 0 <= j < 3 implies !white()(#[trigger] whole[j]) by {
        assert(whole[j] == "cpu"@[j]);
    }
    assert(whole[3] == ' ');
    lemma_position(whole, white(), 3);
    assert(whole.take(3) =~= "cpu"@);
    assert("cpu"@.take(3) =~= "cpu"@);
    assert("cpu"@.skip(3) =~= Seq::<char>::empty());
}

/// Every line that tells of a core is listed, and nothing else is.
pub proof fn law_cores_are_listed(ls: Seq<Seq<char>>, i: int) -> (k: int)
    requires
        0 <= i < ls.len(),
        core_line(ls[i]) is Some,
    ensures
        0 <= k < core_lines(ls).len(),
        core_lines(ls)[k] == core_line(ls[i])->0,
        core_lines(ls).len() <= ls.len(),
    decreases ls.len(),
{
    lemma_core_lines_len(ls);
    let rest = ls.drop_last();
    if i < rest.len() {
        law_cores_are_listed(rest, i)
    } else {
        core_lines(rest).len() as int
    }
}

proof fn lemma_core_lines_len(ls: Seq<Seq<char>>)
    ensures
        core_lines(ls).len() <= ls.len(),
    decreases ls.len(),
{
    if ls.len() > 0 {
        lemma_core_lines_len(ls.drop_last());
    }
}

/// The listed cores come from lines, in their order.
pub proof fn law_cores_in_order(ls: Seq<Seq<char>>, k: int, l: int) -> (r: (int, int))
    requires
        0 <= k < l < core_lines(ls).len(),
    ensures
        0 <= r.0 < r.1 < ls.len(),
        core_line(ls[r.0]) == Some(core_lines(ls)[k]),
        core_line(ls[r.1]) == Some(core_lines(ls)[l]),
    decreases ls.len(),
{
    let rest = ls.drop_last();
    if l < core_lines(rest).len() {
        law_cores_in_order(rest, k, l)
    } else {
        (lemma_core_origin(rest, k), ls.len() - 1)
    }
}

proof fn lemma_core_origin(ls: Seq<Seq<char>>, k: int) -> (i: int)
    requires
        0 <= k < core_lines(ls).len(),
    ensures
        0 <= i < ls.len(),
        core_line(ls[i]) == Some(core_lines(ls)[k]),
    decreases ls.len(),
{
    let rest = ls.drop_last();
    if k < core_lines(rest).len() {
        lemma_core_origin(rest, k)
    } else {
        ls.len() - 1
    }
}

/// The processor was busy for the time that passed less the time that it was idle.
pub proof fn law_busy_time(current: CpuTimes, previous: CpuTimes)
    requires
        previous.total <= current.total,
        previous.idle <= current.idle,
        current.idle - previous.idle <= current.total - previous.total,
    ensures
        busy(current, previous) + (current.idle - previous.idle) == current.total - previous.total,
        grown(current.total, previous.total) == current.total - previous.total,
{
}

/// A share is the nearest number of units: it is off by half a unit at most.
pub proof fn law_share_is_nearest(part: nat, whole: nat, units: nat)
    requires
        whole > 0,
    ensures
        2 * (share(part, whole, units) * whole) <= 2 * (part * units) + whole,
        2 * (part * units) <= 2 * (share(part, whole, units) * whole) + whole,
        share(0, whole, units) == 0,
{
    let n = part * units + whole / 2;
    let q = n / whole;
    vstd::arithmetic::div_mod::lemma_fundamental_div_mod(n as int, whole as int);
    assert(whole * q == q * whole) by (nonlinear_arith);
    assert(0 <= n % whole < whole);
    assert(0 * units == 0) by (nonlinear_arith);
    assert((whole / 2) / whole == 0) by (nonlinear_arith)
        requires
            whole > 0,
    ;
}

/// A core that was there before is shown, by how busy it was since then, in tenths of a
/// percent.
pub proof fn law_core_is_shown(
    current: Seq<(usize, CpuTimes)>,
    previous: Seq<(usize, CpuTimes)>,
    kinds: Map<usize, CpuCoreKind>,
    i: int,
    j: int,
) -> (k: int)
    requires
        0 <= i < current.len(),
        0 <= j < previous.len(),
        previous[j].0 == current[i].0,
        forall|m: int| 0 <= m < j ==> (#[trigger] previous[m]).0 != current[i].0,
    ensures
        0 <= k < core_usages(current, previous, kinds).len(),
        ({
            let r = core_usages(current, previous, kinds)[k];
            &&& r.index == current[i].0
            &&& kinds.contains_key(r.index) ==> r.kind == Some(kinds[r.index])
            &&& !kinds.contains_key(r.index) ==> r.kind is None
            &&& r.percent_tenths == share(
                busy(current[i].1, previous[j].1),
                grown(current[i].1.total, previous[j].1.total),
                1000,
            )
        }),
    decreases current.len(),
{
    let rest = current.drop_last();
    if i < rest.len() {
        law_core_is_shown(rest, previous, kinds, i, j)
    } else {
        lemma_first_index(previous, of_core(current[i].0), j as nat);
        law_busy_bounded(current[i].1, previous[j].1);
        law_share_bounded(
            busy(current[i].1, previous[j].1),
            grown(current[i].1.total, previous[j].1.total),
            1000,
        );
        core_usages(rest, previous, kinds).len() as int
    }
}

/// What is shown of cores is of cores that are there now and were there before, in their
/// order.
pub proof fn law_shown_cores(
    current: Seq<(usize, CpuTimes)>,
    previous: Seq<(usize, CpuTimes)>,
    kinds: Map<usize, CpuCoreKind>,
    k: int,
) -> (r: (int, int))
    requires
        0 <= k < core_usages(current, previous, kinds).len(),
    ensures
        k <= r.0 < current.len(),
        0 <= r.1 < previous.len(),
        core_usages(current, previous, kinds)[k].index == current[r.0].0,
        previous[r.1].0 == current[r.0].0,
    decreases current.len(),
{
    let rest = current.drop_last();
    let before = core_usages(rest, previous, kinds);
    if k < before.len() {
        law_shown_cores(rest, previous, kinds, k)
    } else {
        let p = of_core(current.last().0);
        lemma_first_index_bounds(previous, p);
        lemma_usages_len(rest, previous, kinds);
        (current.len() - 1, first_index(previous, p) as int)
    }
}

proof fn lemma_usages_len(
    current: Seq<(usize, CpuTimes)>,
    previous: Seq<(usize, CpuTimes)>,
    kinds: Map<usize, CpuCoreKind>,
)
    ensures
        core_usages(current, previous, kinds).len() <= current.len(),
    decreases current.len(),
{
    if current.len() > 0 {
        lemma_usages_len(current.drop_last(), previous, kinds);
    }
}

/// A core that runs one thread is an efficient one, and a core that runs more is a fast
/// one; of cores that are not told of nothing is known.
pub proof fn law_kinds_of_cores(s: Seq<(usize, usize)>, i: int)
    requires
        0 <= i < s.len(),
        forall|j: int| i < j < s.len() ==> (#[trigger] s[j]).0 != s[i].0,
    ensures
        s[i].1 == 1 ==> kinds_by_threads(s).contains_key(s[i].0) && kinds_by_threads(s)[s[i].0]
            == CpuCoreKind::Efficiency,
        s[i].1 > 1 ==> kinds_by_threads(s).contains_key(s[i].0) && kinds_by_threads(s)[s[i].0]
            == CpuCoreKind::Performance,
    decreases s.len(),
{
    if i < s.len() - 1 {
        assert(s[s.len() - 1].0 != s[i].0);
        law_kinds_of_cores(s.drop_last(), i);
    }
}

/// The kind of a core is known only where it runs a thread.
pub proof fn law_known_kinds(s: Seq<(usize, usize)>, index: usize)
    requires
        forall|j: int| 0 <= j < s.len() ==> (#[trigger] s[j]).0 != index || s[j].1 == 0,
    ensures
        !kinds_by_threads(s).contains_key(index),
    decreases s.len(),
{
    if s.len() > 0 {
        assert(s[s.len() - 1].0 != index || s[s.len() - 1].1 == 0);
        assert forall|j: int| 0 <= j < s.drop_last().len() implies (
        #[trigger] s.drop_last()[j]).0 != index || s.drop_last()[j].1 == 0 by {
            assert(s[j].0 != index || s[j].1 == 0);
        }
        law_known_kinds(s.drop_last(), index);
    }
}

/// A range names all from its first to its last, and a number names one.
pub proof fn law_ranges_are_counted(a: usize, b: usize)
    ensures
        item_count(decimal(a as nat)) == Some(1nat),
        a <= b ==> item_count(decimal(a as nat) + seq!['-'] + decimal(b as nat)) == Some(
            (b - a + 1) as nat,
        ),
        a > b ==> item_count(decimal(a as nat) + seq!['-'] + decimal(b as nat)) is None,
{
    let x = decimal(a as nat);
    let y = decimal(b as nat);
    lemma_decimal_value(a as nat);
    if x.contains('-') {
        let k = choose|k: int| 0 <= k < x.len() && x[k] == '-';
        assert(is_digit(x[k]));
    }
    law_split_once(x, '-', x, y);
    law_split_once(x + seq!['-'] + y, '-', x, y);
    law_decimal_round_trip(a as nat, usize::MAX as nat);
    law_decimal_round_trip(b as nat, usize::MAX as nat);
}

/// Items name as many as they name one by one, and none may name nothing.
pub proof fn law_items_add_up(items: Seq<Seq<char>>, item: Seq<char>)
    ensures
        items_count(Seq::empty()) == Some(0nat),
        items_count(items.push(item)) matches Some(n) ==> {
            &&& items_count(items) is Some
            &&& item_count(item) is Some
            &&& n == items_count(items)->0 + item_count(item)->0
        },
        items_count(items) is Some && item_count(item) is Some && items_count(items)->0
            + item_count(item)->0 <= usize::MAX ==> items_count(items.push(item)) is Some,
{
    assert(items.push(item).drop_last() =~= items);
}

/// A line about the memory gives its name the first number behind the colon, and the last
/// line of a name counts.
pub proof fn law_last_memory_line_counts(
    ls: Seq<Seq<char>>,
    name: Seq<char>,
    value: Seq<char>,
    n: u64,
    other: Seq<char>,
)
    requires
        !name.contains(':'),
        words(value).len() > 0,
        words(value)[0] == decimal(n as nat),
    ensures
        memory_value(ls.push(name + seq![':'] + value), name) == Some(n as nat),
        other != name ==> memory_value(ls.push(name + seq![':'] + value), other) == memory_value(
            ls,
            other,
        ),
        memory_value(Seq::empty(), name) is None,
{
    let line = name + seq![':'] + value;
    law_split_once(line, ':', name, value);
    law_decimal_round_trip(n as nat, u64::MAX as nat);
    assert(ls.push(line).drop_last() =~= ls);
}

/// What is used and what is available make the whole of the memory; the percentage is
/// the part that is used.
pub proof fn law_memory_in_use(meminfo: Seq<char>, total: nat, available: nat)
    requires
        memory_lines_hold(lines(meminfo)),
        memory_value(lines(meminfo), "MemTotal"@) == Some(total),
        memory_value(lines(meminfo), "MemAvailable"@) == Some(available),
        available <= total <= u64::MAX,
        total > 0,
    ensures
        memory_status(meminfo) matches Some(r) && {
            &&& r.used_kib + available == total
            &&& r.total_kib == total
            &&& r.percent == share(r.used_kib as nat, total, 100)
            &&& r.percent <= 100
        },
{
    law_share_bounded((total - available) as nat, total, 100);
}

/// The times of the whole processor are those of the first line that begins with its name
/// and a space.
pub proof fn law_whole_processor(stat: Seq<char>, values: Seq<char>, at: int)
    requires
        0 <= at < lines(stat).len(),
        lines(stat)[at] == "cpu "@ + values,
        forall|j: int| 0 <= j < at ==> !"cpu "@.is_prefix_of(#[trigger] lines(stat)[j]),
    ensures
        whole_times(stat) == time_values(values),
{
    let p = |l: Seq<char>| starts_with(l, "cpu "@);
    let ls = lines(stat);
    let n = "cpu "@.len() as int;
    assert(ls[at].take(n) =~= "cpu "@);
    assert(ls[at].skip(n) =~= values);
    assert forall|j: int| 0 <= j < at implies !p(#[trigger] ls[j]) by {
        if starts_with(ls[j], "cpu "@) {
            assert("cpu "@ =~= ls[j].subrange(0, n));
        }
    }
    lemma_first_index(ls, p, at as nat);
}

/// A line names the vendor where its name and its value, without white space around them,
/// say so.
pub proof fn law_vendor_line(name: Seq<char>, value: Seq<char>)
    requires
        !name.contains(':'),
    ensures
        vendor_line()(name + seq![':'] + value) <==> trim(name) == "vendor_id"@ && trim(value)
            == "GenuineIntel"@,
{
    law_split_once(name + seq![':'] + value, ':', name, value);
}

/// Cores are of two kinds only where some run one thread and some more.
pub proof fn law_two_kinds(s: Seq<(usize, usize)>, i: int, j: int)
    ensures
        0 <= i < s.len() && 0 <= j < s.len() && s[i].1 == 1 && s[j].1 > 1 ==> mixed(s),
        (forall|k: int| 0 <= k < s.len() ==> (#[trigger] s[k]).1 <= 1) ==> !mixed(s),
        (forall|k: int| 0 <= k < s.len() ==> (#[trigger] s[k]).1 != 1) ==> !mixed(s),
{
}

} // verus!
