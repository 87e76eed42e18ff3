//! Runtime-owned bar module producers: `/proc` parsers, rate reducers and formatting.
use vstd::prelude::*;

use crate::text::{
    chars_are, chars_of, decimal, digit_char, has_prefix, lines, parse_u64, parse_u64_token, push_char,
    push_decimal, split_lines, split_words, starts_with, trim, trimmed, views, words,
};

verus! {

// ---------------------------------------------------------------------------
// Module values
// ---------------------------------------------------------------------------

/// One rendered bar module.
#[derive(Debug, Clone, PartialEq, Eq)]
pub struct Module {
    /// Stable module id.
    pub id: String,
    /// Rendered text.
    pub text: String,
    /// Optional palette accent name.
    pub accent: Option<String>,
    /// Whether the module demands attention.
    pub urgent: bool,
}

/// The plain value of a module.
pub struct ModuleValue {
    /// Stable module id.
    pub id: Seq<char>,
    /// Rendered text.
    pub text: Seq<char>,
    /// Optional palette accent name.
    pub accent: Option<Seq<char>>,
    /// Whether the module demands attention.
    pub urgent: bool,
}

impl View for Module {
    type V = ModuleValue;

    open spec fn view(&self) -> ModuleValue {
        ModuleValue {
            id: self.id@,
            text: self.text@,
            accent: match self.accent {
                Some(a) => Some(a@),
                None => None,
            },
            urgent: self.urgent,
        }
    }
}

/// One numeric network observation ready for exact presentation formatting.
#[derive(Debug, Clone, Copy, PartialEq, Eq, Structural)]
pub struct NetworkRate {
    /// Aggregate receive bytes per second across comparable non-loopback interfaces.
    pub receive_bps: u64,
    /// Aggregate transmit bytes per second across comparable non-loopback interfaces.
    pub transmit_bps: u64,
}

/// One selected battery observation.
#[derive(Debug, Clone, Copy, PartialEq, Eq, Structural)]
pub struct BatteryReading {
    capacity: u8,
    discharging: bool,
}

impl BatteryReading {
    /// Charge percentage.
    pub closed spec fn spec_capacity(self) -> u8 {
        self.capacity
    }

    /// Whether the battery is discharging.
    pub closed spec fn spec_discharging(self) -> bool {
        self.discharging
    }

    /// A reading of `capacity` percent, discharging or not.
    pub fn new(capacity: u8, discharging: bool) -> (r: Self)
        ensures
            r.spec_capacity() == capacity,
            r.spec_discharging() == discharging,
    {
        BatteryReading { capacity, discharging }
    }

    /// The battery module: `⚡ N%` in gold, urgent when discharging at or below 15%.
    pub open spec fn spec_module(self) -> ModuleValue {
        ModuleValue {
            id: "battery"@,
            text: seq!['⚡', ' '] + decimal(self.spec_capacity() as nat) + seq!['%'],
            accent: Some("gold"@),
            urgent: self.spec_discharging() && self.spec_capacity() <= 15,
        }
    }

    /// Render the battery module.
    pub fn module(self) -> (m: Module)
        ensures
            m@ == self.spec_module(),
            m.urgent == (self.spec_discharging() && self.spec_capacity() <= 15),
            m.text@ == seq!['⚡', ' '] + decimal(self.spec_capacity() as nat) + seq!['%'],
    {
        let mut text = String::new();
        push_char(&mut text, '⚡');
        push_char(&mut text, ' ');
        push_decimal(&mut text, self.capacity as u64);
        push_char(&mut text, '%');
        assert(text@ =~= seq!['⚡', ' '] + decimal(self.capacity as nat) + seq!['%']);
        let m = Module {
            id: String::from_str("battery"),
            text,
            accent: Some(String::from_str("gold")),
            urgent: self.discharging && self.capacity <= 15,
        };
        assert(m@.accent == Some("gold"@));
        m
    }
}

/// A battery module is urgent exactly when its battery is discharging at or
/// below 15%: a charging battery is never urgent, however low, and a
/// discharging one above 15% is not either. Its text is `⚡ `, the charge in
/// decimal, and `%`.
pub proof fn lemma_battery_module_urgency(capacity: u8, discharging: bool, r: BatteryReading)
    requires
        r.spec_capacity() == capacity,
        r.spec_discharging() == discharging,
    ensures
        r.spec_module().urgent <==> (discharging && capacity <= 15),
        !discharging ==> !r.spec_module().urgent,
        r.spec_module().text == seq!['⚡', ' '] + decimal(capacity as nat) + seq!['%'],
        r.spec_module().id == "battery"@,
        r.spec_module().accent == Some("gold"@),
{
}

/// Fixed-size numeric values handed from the sampler to the event-loop owner.
#[derive(Debug, Clone, Copy, PartialEq, Eq, Structural)]
pub struct ModuleSnapshot {
    /// Rounded aggregate CPU busy percent.
    pub cpu_percent: Option<u8>,
    /// Used memory in tenths of a GiB.
    pub memory_tenths_gib: Option<u64>,
    /// Aggregate non-loopback network rates.
    pub network: Option<NetworkRate>,
    /// Selected battery, absent when no battery is present or observation is disabled.
    pub battery: Option<BatteryReading>,
}

impl Default for ModuleSnapshot {
    fn default() -> (s: Self)
        ensures
            s.cpu_percent is None,
            s.memory_tenths_gib is None,
            s.network is None,
            s.battery is None,
    {
        ModuleSnapshot { cpu_percent: None, memory_tenths_gib: None, network: None, battery: None }
    }
}

/// The spelling of a byte rate scaled to tenths of a unit.
pub open spec fn scaled_rate(bps: u64, scale: nat, suffix: char) -> Seq<char> {
    let tenths: nat = ((bps * 10 + scale / 2) / (scale as int)) as nat;
    if tenths % 10 == 0 {
        decimal(tenths / 10).push(suffix)
    } else {
        decimal(tenths / 10) + seq!['.', crate::text::digit_char(tenths % 10), suffix]
    }
}

/// A byte rate with one rounded decimal in the largest unit it reaches.
pub open spec fn spec_format_rate(bps: u64) -> Seq<char> {
    if bps >= 1_000_000_000 {
        scaled_rate(bps, 1_000_000_000, 'G')
    } else if bps >= 1_000_000 {
        scaled_rate(bps, 1_000_000, 'M')
    } else if bps >= 1_000 {
        scaled_rate(bps, 1_000, 'k')
    } else {
        decimal(bps as nat)
    }
}

/// A rate below 1000 bytes per second is spelled as its plain decimal count,
/// with no unit.
pub proof fn lemma_small_rate_spelling(b: u64)
    requires
        b < 1_000,
    ensures
        spec_format_rate(b) == decimal(b as nat),
{
}

/// A rate of at least 1000 bytes per second is spelled in the largest of
/// k (10^3), M (10^6) and G (10^9) that it reaches. `t` is its amount in
/// tenths of that unit, rounded to the nearest tenth with halves up
/// (`t * unit <= 10 * b + unit / 2 < (t + 1) * unit`). The spelling is the
/// whole units `t / 10` in decimal, then a point and the tenths digit unless
/// that digit is zero, then the unit letter: 1500 is `1.5k`, 2000 is `2k`,
/// 1_049_999 is `1M`.
pub proof fn lemma_rate_spelling(b: u64, unit: nat, suffix: char, t: nat)
    requires
        (unit == 1_000 && suffix == 'k' && 1_000 <= b < 1_000_000)
            || (unit == 1_000_000 && suffix == 'M' && 1_000_000 <= b < 1_000_000_000)
            || (unit == 1_000_000_000 && suffix == 'G' && 1_000_000_000 <= b),
        t * unit <= 10 * b + unit / 2 < (t + 1) * unit,
    ensures
        spec_format_rate(b) == if t % 10 == 0 {
            decimal(t / 10) + seq![suffix]
        } else {
            decimal(t / 10) + seq!['.', crate::text::digit_char(t % 10), suffix]
        },
{
    let x: int = 10 * b + unit / 2;
    if unit == 1_000 {
        assert(x / 1_000 == t);
    } else if unit == 1_000_000 {
        assert(x / 1_000_000 == t);
    } else {
        assert(x / 1_000_000_000 == t);
    }
    assert(decimal(t / 10).push(suffix) =~= decimal(t / 10) + seq![suffix]);
}

fn push_scaled_rate(s: &mut String, bps: u64, scale: u64, suffix: char)
    requires
        scale == 1_000_000_000 || scale == 1_000_000 || scale == 1_000,
    ensures
        final(s)@ == old(s)@ + scaled_rate(bps, scale as nat, suffix),
{
    let num: u128 = bps as u128 * 10 + (scale / 2) as u128;
    let wide: u128 = num / scale as u128;
    assert(wide <= u64::MAX) by (nonlinear_arith)
        requires
            wide == num / (scale as u128),
            num <= 0xffff_ffff_ffff_ffffu128 * 10 + 500_000_000,
            scale >= 1000;
    let tenths = wide as u64;
    push_decimal(s, tenths / 10);
    if tenths % 10 == 0 {
        push_char(s, suffix);
    } else {
        push_char(s, '.');
        push_decimal(s, tenths % 10);
        push_char(s, suffix);
        proof {
            let d = (tenths % 10) as nat;
            assert(decimal(d) == seq![crate::text::digit_char(d)]);
        }
    }
    assert(final(s)@ =~= old(s)@ + scaled_rate(bps, scale as nat, suffix));
}

/// Format a byte rate (`375k`, `1.5M`, `999`).
pub fn format_rate(bytes_per_second: u64) -> (s: String)
    ensures
        s@ == spec_format_rate(bytes_per_second),
{
    let mut s = String::new();
    if bytes_per_second >= 1_000_000_000 {
        push_scaled_rate(&mut s, bytes_per_second, 1_000_000_000, 'G');
    } else if bytes_per_second >= 1_000_000 {
        push_scaled_rate(&mut s, bytes_per_second, 1_000_000, 'M');
    } else if bytes_per_second >= 1_000 {
        push_scaled_rate(&mut s, bytes_per_second, 1_000, 'k');
    } else {
        push_decimal(&mut s, bytes_per_second);
    }
    s
}

impl ModuleSnapshot {
    /// The ordered MVP modules: network, CPU, memory and battery when present, then the clock.
    pub open spec fn spec_modules(self, clock: ModuleValue) -> Seq<ModuleValue> {
        (match self.network {
            Some(n) => seq![ModuleValue {
                id: "net"@,
                text: seq!['↑', ' '] + spec_format_rate(n.transmit_bps) + seq![' ', '↓', ' ']
                    + spec_format_rate(n.receive_bps),
                accent: None,
                urgent: false,
            }],
            None => Seq::empty(),
        }) + (match self.cpu_percent {
            Some(p) => seq![ModuleValue {
                id: "cpu"@,
                text: "cpu "@ + decimal(p as nat) + seq!['%'],
                accent: Some("starlight"@),
                urgent: false,
            }],
            None => Seq::empty(),
        }) + (match self.memory_tenths_gib {
            Some(t) => seq![ModuleValue {
                id: "mem"@,
                text: "mem "@ + decimal((t / 10) as nat) + seq!['.'] + decimal((t % 10) as nat)
                    + seq!['G'],
                accent: None,
                urgent: false,
            }],
            None => Seq::empty(),
        }) + (match self.battery {
            Some(b) => seq![b.spec_module()],
            None => Seq::empty(),
        }) + seq![clock]
    }

    /// The bar's modules come in the order network, CPU, memory, battery,
    /// each present exactly when its value is, and the clock last. The
    /// network module shows the transmit rate before the receive rate, the
    /// CPU module the percent, the memory module the tenths of a GiB as
    /// `W.TG`; none of these is urgent, and the battery is urgent exactly when
    /// discharging at or below 15%.
    pub proof fn lemma_modules_layout(self, clock: ModuleValue)
        ensures
            ({
                let ms = self.spec_modules(clock);
                let n: int = if self.network is Some { 1 } else { 0 };
                let c: int = if self.cpu_percent is Some { 1 } else { 0 };
                let g: int = if self.memory_tenths_gib is Some { 1 } else { 0 };
                let b: int = if self.battery is Some { 1 } else { 0 };
                &&& ms.len() == n + c + g + b + 1
                &&& ms[ms.len() - 1] == clock
                &&& self.network matches Some(rate) ==> ms[0].id == "net"@ && !ms[0].urgent
                    && ms[0].text == seq!['↑', ' '] + spec_format_rate(rate.transmit_bps) + seq![' ', '↓', ' ']
                        + spec_format_rate(rate.receive_bps)
                &&& self.cpu_percent matches Some(p) ==> ms[n].id == "cpu"@ && !ms[n].urgent
                    && ms[n].text == "cpu "@ + decimal(p as nat) + seq!['%']
                &&& self.memory_tenths_gib matches Some(t) ==> ms[n + c].id == "mem"@ && !ms[n + c].urgent
                    && ms[n + c].text == "mem "@ + decimal(t as nat / 10) + seq!['.', crate::text::digit_char(
                        t as nat % 10), 'G']
                &&& self.battery matches Some(r) ==> ms[n + c + g].id == "battery"@
                    && (ms[n + c + g].urgent <==> (r.spec_discharging() && r.spec_capacity() <= 15))
            }),
    {
        let ms = self.spec_modules(clock);
        if let Some(t) = self.memory_tenths_gib {
            let d = (t % 10) as nat;
            assert(decimal(d) == seq![crate::text::digit_char(d)]);
        }
        assert(ms.len() == (if self.network is Some { 1int } else { 0 }) + (if self.cpu_percent is Some { 1int } else { 0 })
            + (if self.memory_tenths_gib is Some { 1int } else { 0 }) + (if self.battery is Some { 1int } else { 0 }) + 1);
    }

    /// Format the exact ordered MVP module vector and append the supplied clock.
    pub fn modules(self, clock: Module) -> (m: Vec<Module>)
        ensures
            m@.map_values(|x: Module| x@) == self.spec_modules(clock@),
    {
        let mut modules: Vec<Module> = Vec::new();
        let ghost clock_view = clock@;
        let ghost spec = self.spec_modules(clock_view);
        let ghost net_part: Seq<ModuleValue> = Seq::empty();
        let ghost cpu_part: Seq<ModuleValue> = Seq::empty();
        let ghost mem_part: Seq<ModuleValue> = Seq::empty();
        let ghost bat_part: Seq<ModuleValue> = Seq::empty();
        if let Some(network) = self.network {
            let mut text = String::new();
            push_char(&mut text, '↑');
            push_char(&mut text, ' ');
            let tx = format_rate(network.transmit_bps);
            text.append(tx.as_str());
            push_char(&mut text, ' ');
            push_char(&mut text, '↓');
            push_char(&mut text, ' ');
            let rx = format_rate(network.receive_bps);
            text.append(rx.as_str());
            assert(text@ =~= seq!['↑', ' '] + spec_format_rate(network.transmit_bps) + seq![' ', '↓', ' ']
                + spec_format_rate(network.receive_bps));
            let m = Module { id: String::from_str("net"), text, accent: None, urgent: false };
            proof {
                net_part = seq![m@];
            }
            modules.push(m);
        }
        assert(modules@.map_values(|x: Module| x@) =~= net_part);
        if let Some(percent) = self.cpu_percent {
            let mut text = String::from_str("cpu ");
            push_decimal(&mut text, percent as u64);
            push_char(&mut text, '%');
            assert(text@ =~= "cpu "@ + decimal(percent as nat) + seq!['%']);
            let m = Module {
                id: String::from_str("cpu"),
                text,
                accent: Some(String::from_str("starlight")),
                urgent: false,
            };
            proof {
                cpu_part = seq![m@];
            }
            modules.push(m);
        }
        assert(modules@.map_values(|x: Module| x@) =~= net_part + cpu_part);
        if let Some(tenths) = self.memory_tenths_gib {
            let mut text = String::from_str("mem ");
            push_decimal(&mut text, tenths / 10);
            push_char(&mut text, '.');
            push_decimal(&mut text, tenths % 10);
            push_char(&mut text, 'G');
            assert(text@ =~= "mem "@ + decimal((tenths / 10) as nat) + seq!['.'] + decimal((tenths % 10) as nat)
                + seq!['G']);
            let m = Module { id: String::from_str("mem"), text, accent: None, urgent: false };
            proof {
                mem_part = seq![m@];
            }
            modules.push(m);
        }
        assert(modules@.map_values(|x: Module| x@) =~= net_part + cpu_part + mem_part);
        if let Some(battery) = self.battery {
            let m = battery.module();
            proof {
                bat_part = seq![m@];
            }
            modules.push(m);
        }
        assert(modules@.map_values(|x: Module| x@) =~= net_part + cpu_part + mem_part + bat_part);
        modules.push(clock);
        assert(modules@.map_values(|x: Module| x@) =~= net_part + cpu_part + mem_part + bat_part + seq![clock_view]);
        modules
    }
}

} // verus!

verus! {

// ---------------------------------------------------------------------------
// `/proc` parsers
// ---------------------------------------------------------------------------

/// Cumulative CPU counters from `/proc/stat`.
#[derive(Debug, Clone, Copy, PartialEq, Eq, Structural)]
pub struct CpuCounters {
    /// Sum of the first eight time fields.
    pub total: u64,
    /// Idle plus iowait time.
    pub idle: u64,
}

/// The first line that starts with `p`, if any.
pub open spec fn first_with_prefix(ls: Seq<Seq<char>>, p: Seq<char>) -> Option<Seq<char>>
    decreases ls.len(),
{
    if ls.len() == 0 {
        None
    } else if starts_with(ls[0], p) {
        Some(ls[0])
    } else {
        first_with_prefix(ls.drop_first(), p)
    }
}

/// The parsed value of field `i`, assuming it parses.
pub open spec fn field_value(f: Seq<Seq<char>>, i: int) -> nat {
    parse_u64(f[i]).unwrap() as nat
}

/// Sum of the parsed fields `f[1..=n]`.
pub open spec fn field_sum(f: Seq<Seq<char>>, n: nat) -> nat
    decreases n,
{
    if n == 0 {
        0
    } else {
        field_sum(f, (n - 1) as nat) + field_value(f, n as int)
    }
}

/// `/proc/stat`'s aggregate line: its eight time fields summed, and idle plus iowait.
pub open spec fn spec_parse_cpu(input: Seq<char>) -> Option<(u64, u64)> {
    match first_with_prefix(lines(input), "cpu "@) {
        None => None,
        Some(line) => {
            let f = words(line);
            if f.len() < 9 || exists|i: int| 1 <= i <= 8 && parse_u64(#[trigger] f[i]) is None {
                None
            } else if field_sum(f, 8) > u64::MAX || field_value(f, 4) + field_value(f, 5) > u64::MAX {
                None
            } else {
                Some((field_sum(f, 8) as u64, (field_value(f, 4) + field_value(f, 5)) as u64))
            }
        },
    }
}

proof fn lemma_field_sum_monotone(f: Seq<Seq<char>>, m: nat, n: nat)
    requires
        m <= n,
    ensures
        field_sum(f, m) <= field_sum(f, n),
    decreases n - m,
{
    if m < n {
        lemma_field_sum_monotone(f, m, (n - 1) as nat);
    }
}

fn first_line_with_prefix(ls: &Vec<Vec<char>>, p: &str) -> (r: Option<usize>)
    ensures
        match r {
            Some(k) => k < ls@.len() && first_with_prefix(views(ls@), p@) == Some(ls@[k as int]@),
            None => first_with_prefix(views(ls@), p@) is None,
        },
{
    let mut k: usize = 0;
    assert(views(ls@).skip(0) =~= views(ls@));
    while k < ls.len()
        invariant
            k <= ls@.len(),
            first_with_prefix(views(ls@), p@) == first_with_prefix(views(ls@).skip(k as int), p@),
        decreases ls.len() - k,
    {
        let ghost rest = views(ls@).skip(k as int);
        assert(rest[0] == ls@[k as int]@);
        assert(rest.drop_first() =~= views(ls@).skip(k + 1));
        if has_prefix(&ls[k], p) {
            return Some(k);
        }
        k = k + 1;
    }
    assert(views(ls@).skip(k as int).len() == 0);
    None
}

/// Parse the aggregate CPU line of `/proc/stat`.
pub fn parse_cpu(input: &str) -> (r: Result<CpuCounters, ()>)
    ensures
        match r {
            Ok(c) => spec_parse_cpu(input@) == Some((c.total, c.idle)),
            Err(()) => spec_parse_cpu(input@) is None,
        },
{
    let chars = chars_of(input);
    let ls = split_lines(&chars);
    let k = match first_line_with_prefix(&ls, "cpu ") {
        Some(k) => k,
        None => return Err(()),
    };
    let line = &ls[k];
    let f = split_words(line, 0, line.len());
    assert(line@.subrange(0, line@.len() as int) =~= line@);
    let ghost fv = views(f@);
    assert(first_with_prefix(lines(input@), "cpu "@) == Some(line@));
    assert(fv == words(line@));
    if f.len() < 9 {
        return Err(());
    }
    let mut values: Vec<u64> = Vec::new();
    let mut i: usize = 1;
    while i <= 8
        invariant
            1 <= i <= 9,
            f@.len() >= 9,
            fv == views(f@),
            first_with_prefix(lines(input@), "cpu "@) == Some(line@),
            fv == words(line@),
            values@.len() == i - 1,
            forall|j: int| 1 <= j < i ==> parse_u64(#[trigger] fv[j]) == Some(values@[j - 1]),
        decreases 9 - i,
    {
        match parse_u64_token(&f[i]) {
            Some(v) => values.push(v),
            None => {
                assert(parse_u64(fv[i as int]) is None);
                return Err(());
            },
        }
        i = i + 1;
    }
    let mut total: u64 = 0;
    let mut j: usize = 0;
    while j < 8
        invariant
            j <= 8,
            values@.len() == 8,
            f@.len() >= 9,
            fv == views(f@),
            first_with_prefix(lines(input@), "cpu "@) == Some(line@),
            fv == words(line@),
            forall|m: int| 1 <= m <= 8 ==> parse_u64(#[trigger] fv[m]) == Some(values@[m - 1]),
            total == field_sum(fv, j as nat),
        decreases 8 - j,
    {
        assert(field_value(fv, j + 1) == values@[j as int]);
        match total.checked_add(values[j]) {
            Some(t) => total = t,
            None => {
                proof {
                    lemma_field_sum_monotone(fv, (j + 1) as nat, 8);
                }
                return Err(());
            },
        }
        j = j + 1;
    }
    assert(field_value(fv, 4) == values@[3]);
    assert(field_value(fv, 5) == values@[4]);
    let idle = match values[3].checked_add(values[4]) {
        Some(idle) => idle,
        None => return Err(()),
    };
    Ok(CpuCounters { total, idle })
}

} // verus!

verus! {

/// Scan `/proc/meminfo` lines for `MemTotal:` and `MemAvailable:` values in kB.
///
/// A named line without a parsable value or without the `kB` unit fails the
/// whole scan; later lines override earlier ones.
pub open spec fn mem_scan(ls: Seq<Seq<char>>, total: Option<u64>, available: Option<u64>) -> Option<(Option<u64>, Option<u64>)>
    decreases ls.len(),
{
    if ls.len() == 0 {
        Some((total, available))
    } else {
        let w = words(ls[0]);
        if w.len() == 0 || (w[0] != "MemTotal:"@ && w[0] != "MemAvailable:"@) {
            mem_scan(ls.drop_first(), total, available)
        } else if w.len() < 2 || parse_u64(w[1]) is None {
            None
        } else if w.len() < 3 || w[2] != "kB"@ {
            None
        } else if w[0] == "MemTotal:"@ {
            mem_scan(ls.drop_first(), parse_u64(w[1]), available)
        } else {
            mem_scan(ls.drop_first(), total, parse_u64(w[1]))
        }
    }
}

/// Used memory (total minus available) in tenths of a GiB, rounded half up.
pub open spec fn spec_parse_memory(input: Seq<char>) -> Option<u64> {
    match mem_scan(lines(input), None, None) {
        Some((Some(total), Some(available))) => if total >= available {
            Some((((total - available) * 10 + 524_288) / 1_048_576) as u64)
        } else {
            None
        },
        _ => None,
    }
}

/// Parse used memory from `/proc/meminfo`.
pub fn parse_memory(input: &str) -> (r: Result<u64, ()>)
    ensures
        match r {
            Ok(v) => spec_parse_memory(input@) == Some(v),
            Err(()) => spec_parse_memory(input@) is None,
        },
{
    proof {
        reveal_strlit("MemTotal:");
        reveal_strlit("MemAvailable:");
    }
    let chars = chars_of(input);
    let ls = split_lines(&chars);
    let ghost lv = views(ls@);
    let mut total: Option<u64> = None;
    let mut available: Option<u64> = None;
    let mut i: usize = 0;
    assert(lv.skip(0) =~= lv);
    while i < ls.len()
        invariant
            i <= ls@.len(),
            lv == views(ls@),
            lv == lines(input@),
            mem_scan(lv.skip(i as int), total, available) == mem_scan(lv, None, None),
        decreases ls.len() - i,
    {
        let ghost rest = lv.skip(i as int);
        assert(rest[0] == ls@[i as int]@);
        assert(rest.drop_first() =~= lv.skip(i + 1));
        let line = &ls[i];
        let w = split_words(line, 0, line.len());
        assert(line@.subrange(0, line@.len() as int) =~= line@);
        let ghost wv = views(w@);
        assert(wv == words(rest[0]));
        if w.len() == 0 {
            i = i + 1;
            continue;
        }
        let is_total = chars_are(&w[0], "MemTotal:");
        let is_available = chars_are(&w[0], "MemAvailable:");
        if !is_total && !is_available {
            i = i + 1;
            continue;
        }
        if w.len() < 2 {
            return Err(());
        }
        let value = match parse_u64_token(&w[1]) {
            Some(v) => v,
            None => return Err(()),
        };
        if w.len() < 3 || !chars_are(&w[2], "kB") {
            return Err(());
        }
        if is_total {
            total = Some(value);
        } else {
            available = Some(value);
        }
        i = i + 1;
    }
    assert(lv.skip(i as int) =~= Seq::<Seq<char>>::empty());
    match (total, available) {
        (Some(t), Some(a)) => {
            if t < a {
                return Err(());
            }
            let used = (t - a) as u128;
            let tenths: u128 = (used * 10 + 524_288) / 1_048_576;
            assert(tenths <= u64::MAX) by (nonlinear_arith)
                requires tenths == (used * 10 + 524_288) / 1_048_576, used <= u64::MAX;
            Ok(tenths as u64)
        },
        _ => Err(()),
    }
}

} // verus!

verus! {

/// Index of the first occurrence of `c`, or `-1`.
pub open spec fn char_index(s: Seq<char>, c: char) -> int
    decreases s.len(),
{
    if s.len() == 0 {
        -1
    } else if s[0] == c {
        0
    } else {
        let r = char_index(s.drop_first(), c);
        if r < 0 { -1 } else { r + 1 }
    }
}

proof fn lemma_char_index_at(s: Seq<char>, c: char, i: int, j: int)
    requires
        0 <= i <= j <= s.len(),
        forall|k: int| i <= k < j ==> #[trigger] s[k] != c,
        j == s.len() || s[j] == c,
    ensures
        char_index(s.skip(i), c) == (if j == s.len() { -1 } else { j - i }),
    decreases j - i,
{
    if i < j {
        assert(s.skip(i).drop_first() =~= s.skip(i + 1));
        lemma_char_index_at(s, c, i + 1, j);
    }
}

/// Receive and transmit byte counters of one interface.
#[derive(Debug, Clone, Copy, PartialEq, Eq, Structural)]
pub struct NetCounters {
    /// Received bytes.
    pub receive: u64,
    /// Transmitted bytes.
    pub transmit: u64,
}

/// One named interface's counters.
#[derive(Debug, Clone, PartialEq, Eq)]
pub struct NetEntry {
    /// Interface name.
    pub name: Vec<char>,
    /// Its counters.
    pub counters: NetCounters,
}

/// Plain value of a table row: name, received bytes, transmitted bytes.
pub type NetRow = (Seq<char>, u64, u64);

/// The plain rows of a counter table.
pub open spec fn rows(t: Seq<NetEntry>) -> Seq<NetRow> {
    t.map_values(|e: NetEntry| (e.name@, e.counters.receive, e.counters.transmit))
}

/// Index of the row named `name`, or `-1`.
pub open spec fn name_index(t: Seq<NetRow>, name: Seq<char>) -> int
    decreases t.len(),
{
    if t.len() == 0 {
        -1
    } else if t.last().0 == name {
        t.len() - 1
    } else {
        name_index(t.drop_last(), name)
    }
}

/// Insert a row, replacing the counters of an existing row of the same name.
pub open spec fn table_insert(t: Seq<NetRow>, row: NetRow) -> Seq<NetRow> {
    let k = name_index(t, row.0);
    if k >= 0 {
        t.update(k, row)
    } else {
        t.push(row)
    }
}

/// Scan `/proc/net/dev` lines: each `name: fields` line needs at least sixteen
/// parsable counters; non-loopback interfaces record fields 0 and 8.
pub open spec fn net_scan(ls: Seq<Seq<char>>, t: Seq<NetRow>, saw: bool) -> Option<(Seq<NetRow>, bool)>
    decreases ls.len(),
{
    if ls.len() == 0 {
        Some((t, saw))
    } else {
        let line = ls[0];
        let k = char_index(line, ':');
        if k < 0 {
            net_scan(ls.drop_first(), t, saw)
        } else {
            let name = trim(line.take(k));
            let f = words(line.skip(k + 1));
            if exists|i: int| 0 <= i < f.len() && parse_u64(#[trigger] f[i]) is None {
                None
            } else if f.len() < 16 {
                None
            } else if name == "lo"@ {
                net_scan(ls.drop_first(), t, true)
            } else {
                net_scan(
                    ls.drop_first(),
                    table_insert(t, (name, parse_u64(f[0]).unwrap(), parse_u64(f[8]).unwrap())),
                    true,
                )
            }
        }
    }
}

/// The non-loopback interface table of `/proc/net/dev`, if it names any interface.
pub open spec fn spec_parse_network(input: Seq<char>) -> Option<Seq<NetRow>> {
    match net_scan(lines(input), Seq::empty(), false) {
        Some((t, true)) => Some(t),
        _ => None,
    }
}

proof fn lemma_name_index_suffix(t: Seq<NetRow>, name: Seq<char>, i: int)
    requires
        0 <= i <= t.len(),
        forall|k: int| i <= k < t.len() ==> (#[trigger] t[k]).0 != name,
    ensures
        name_index(t, name) == name_index(t.take(i), name),
    decreases t.len() - i,
{
    if i < t.len() {
        assert(t.drop_last().take(i) =~= t.take(i));
        lemma_name_index_suffix(t.drop_last(), name, i);
    } else {
        assert(t.take(i) =~= t);
    }
}

proof fn lemma_name_index_range(t: Seq<NetRow>, name: Seq<char>)
    ensures
        -1 <= name_index(t, name) < t.len(),
        name_index(t, name) >= 0 ==> t[name_index(t, name)].0 == name,
    decreases t.len(),
{
    if t.len() > 0 && t.last().0 != name {
        lemma_name_index_range(t.drop_last(), name);
    }
}

/// Find the row named `name`.
pub fn find_entry(t: &Vec<NetEntry>, name: &Vec<char>) -> (r: Option<usize>)
    ensures
        match r {
            Some(k) => k as int == name_index(rows(t@), name@) && k < t@.len(),
            None => name_index(rows(t@), name@) == -1,
        },
{
    let ghost tr = rows(t@);
    let mut i = t.len();
    proof {
        assert(tr.take(i as int) =~= tr);
    }
    while i > 0
        invariant
            i <= t@.len(),
            tr == rows(t@),
            name_index(tr, name@) == name_index(tr.take(i as int), name@),
        decreases i,
    {
        let ghost pre = tr.take(i as int);
        assert(pre.last() == tr[i - 1]);
        assert(pre.drop_last() =~= tr.take(i - 1));
        if chars_equal_vec(&t[i - 1].name, name) {
            return Some(i - 1);
        }
        i = i - 1;
    }
    None
}

fn chars_equal_vec(a: &Vec<char>, b: &Vec<char>) -> (r: bool)
    ensures
        r == (a@ == b@),
{
    crate::text::chars_equal(a, b)
}

fn insert_entry(t: &mut Vec<NetEntry>, name: Vec<char>, counters: NetCounters)
    ensures
        rows(final(t)@) == table_insert(rows(old(t)@), (name@, counters.receive, counters.transmit)),
{
    let ghost before = rows(t@);
    match find_entry(t, &name) {
        Some(k) => {
            t.set(k, NetEntry { name, counters });
            assert(rows(t@) =~= before.update(k as int, (name@, counters.receive, counters.transmit)));
        },
        None => {
            t.push(NetEntry { name, counters });
            assert(rows(t@) =~= before.push((name@, counters.receive, counters.transmit)));
        },
    }
}

fn parse_all(f: &Vec<Vec<char>>) -> (r: Option<Vec<u64>>)
    ensures
        r is None <==> exists|m: int| 0 <= m < f@.len() && parse_u64(#[trigger] views(f@)[m]) is None,
        r matches Some(v) ==> v@.len() == f@.len()
            && forall|m: int| 0 <= m < f@.len() ==> parse_u64(#[trigger] views(f@)[m]) == Some(v@[m]),
{
    let ghost fv = views(f@);
    let mut values: Vec<u64> = Vec::new();
    let mut j: usize = 0;
    while j < f.len()
        invariant
            j <= f@.len(),
            fv == views(f@),
            values@.len() == j,
            forall|m: int| 0 <= m < j ==> parse_u64(#[trigger] fv[m]) == Some(values@[m]),
        decreases f.len() - j,
    {
        match parse_u64_token(&f[j]) {
            Some(v) => values.push(v),
            None => {
                assert(parse_u64(fv[j as int]) is None);
                return None;
            },
        }
        j = j + 1;
    }
    Some(values)
}

/// Parse the interface counter table of `/proc/net/dev`.
pub fn parse_network(input: &str) -> (r: Result<Vec<NetEntry>, ()>)
    ensures
        match r {
            Ok(t) => spec_parse_network(input@) == Some(rows(t@)),
            Err(()) => spec_parse_network(input@) is None,
        },
{
    let chars = chars_of(input);
    let ls = split_lines(&chars);
    let ghost lv = views(ls@);
    let mut table: Vec<NetEntry> = Vec::new();
    let mut saw = false;
    let mut i: usize = 0;
    assert(lv.skip(0) =~= lv);
    assert(rows(table@) =~= Seq::<NetRow>::empty());
    while i < ls.len()
        invariant
            i <= ls@.len(),
            lv == views(ls@),
            lv == lines(input@),
            net_scan(lv.skip(i as int), rows(table@), saw) == net_scan(lv, Seq::empty(), false),
        decreases ls.len() - i,
    {
        let ghost rest = lv.skip(i as int);
        assert(rest[0] == ls@[i as int]@);
        assert(rest.drop_first() =~= lv.skip(i + 1));
        let line = &ls[i];
        let mut k: usize = 0;
        while k < line.len() && line[k] != ':'
            invariant
                k <= line@.len(),
                forall|m: int| 0 <= m < k ==> #[trigger] line@[m] != ':',
            decreases line.len() - k,
        {
            k = k + 1;
        }
        proof {
            lemma_char_index_at(line@, ':', 0, k as int);
            assert(line@.skip(0) =~= line@);
        }
        if k == line.len() {
            i = i + 1;
            continue;
        }
        saw = true;
        let name = trimmed(line, 0, k);
        let f = split_words(line, k + 1, line.len());
        proof {
            assert(line@.subrange(0, k as int) =~= line@.take(k as int));
            assert(line@.subrange(k + 1, line@.len() as int) =~= line@.skip(k + 1));
        }
        let ghost fv = views(f@);
        let values = match parse_all(&f) {
            Some(values) => values,
            None => return Err(()),
        };
        if f.len() < 16 {
            return Err(());
        }
        proof {
            reveal_strlit("lo");
        }
        if !chars_are(&name, "lo") {
            let counters = NetCounters { receive: values[0], transmit: values[8] };
            insert_entry(&mut table, name, counters);
        }
        i = i + 1;
    }
    assert(lv.skip(i as int) =~= Seq::<Seq<char>>::empty());
    if saw {
        Ok(table)
    } else {
        Err(())
    }
}

} // verus!

verus! {

// ---------------------------------------------------------------------------
// Rate reduction
// ---------------------------------------------------------------------------

/// Bytes per second over an interval of `nanos` nanoseconds, rounded half up.
pub open spec fn spec_rate_per_second(bytes: u64, nanos: u128) -> Option<u64> {
    if nanos == 0 {
        None
    } else {
        let r = (bytes * 1_000_000_000 + nanos / 2) / (nanos as int);
        if r <= u64::MAX { Some(r as u64) } else { None }
    }
}

/// Average rate of `bytes` over `elapsed_nanos`, absent for an empty or too short interval.
pub fn rate_per_second(bytes: u64, elapsed_nanos: u128) -> (r: Option<u64>)
    ensures
        r == spec_rate_per_second(bytes, elapsed_nanos),
{
    if elapsed_nanos == 0 {
        return None;
    }
    let scaled: u128 = bytes as u128 * 1_000_000_000;
    let rounded: u128 = (scaled + elapsed_nanos / 2) / elapsed_nanos;
    if rounded <= u64::MAX as u128 {
        Some(rounded as u64)
    } else {
        None
    }
}

/// Whether a current row has a previous row of the same name with no counter reset.
pub open spec fn comparable(row: NetRow, prev: Seq<NetRow>) -> bool {
    let k = name_index(prev, row.0);
    k >= 0 && row.1 >= prev[k].1 && row.2 >= prev[k].2
}

/// Receive bytes gained across comparable rows.
pub open spec fn receive_delta_sum(cur: Seq<NetRow>, prev: Seq<NetRow>) -> int
    decreases cur.len(),
{
    if cur.len() == 0 {
        0
    } else {
        receive_delta_sum(cur.drop_last(), prev) + (if comparable(cur.last(), prev) {
            cur.last().1 - prev[name_index(prev, cur.last().0)].1
        } else {
            0
        })
    }
}

/// Transmit bytes gained across comparable rows.
pub open spec fn transmit_delta_sum(cur: Seq<NetRow>, prev: Seq<NetRow>) -> int
    decreases cur.len(),
{
    if cur.len() == 0 {
        0
    } else {
        transmit_delta_sum(cur.drop_last(), prev) + (if comparable(cur.last(), prev) {
            cur.last().2 - prev[name_index(prev, cur.last().0)].2
        } else {
            0
        })
    }
}

/// Whether any current row is comparable with the previous table.
pub open spec fn any_comparable(cur: Seq<NetRow>, prev: Seq<NetRow>) -> bool {
    exists|i: int| 0 <= i < cur.len() && comparable(#[trigger] cur[i], prev)
}

/// New network value and whether the rate calculation failed.
pub open spec fn network_update(prev: Seq<NetRow>, cur: Seq<NetRow>, elapsed: u128, old: Option<NetworkRate>) -> (Option<NetworkRate>, bool) {
    let rx = receive_delta_sum(cur, prev);
    let tx = transmit_delta_sum(cur, prev);
    if elapsed == 0 || !any_comparable(cur, prev) {
        (old, false)
    } else if rx > u64::MAX || tx > u64::MAX {
        (old, true)
    } else {
        match (spec_rate_per_second(rx as u64, elapsed), spec_rate_per_second(tx as u64, elapsed)) {
            (Some(r), Some(t)) => (Some(NetworkRate { receive_bps: r, transmit_bps: t }), false),
            _ => (old, true),
        }
    }
}

proof fn lemma_delta_sums_nonneg_monotone(cur: Seq<NetRow>, prev: Seq<NetRow>, i: int)
    requires
        0 <= i <= cur.len(),
    ensures
        0 <= receive_delta_sum(cur.take(i), prev) <= receive_delta_sum(cur, prev),
        0 <= transmit_delta_sum(cur.take(i), prev) <= transmit_delta_sum(cur, prev),
    decreases cur.len() - i,
{
    if i < cur.len() {
        lemma_delta_sums_nonneg_monotone(cur.drop_last(), prev, i);
        assert(cur.drop_last().take(i) =~= cur.take(i));
    } else {
        assert(cur.take(i) =~= cur);
        lemma_delta_sums_nonneg(cur, prev);
    }
}

proof fn lemma_delta_sums_nonneg(cur: Seq<NetRow>, prev: Seq<NetRow>)
    ensures
        0 <= receive_delta_sum(cur, prev),
        0 <= transmit_delta_sum(cur, prev),
    decreases cur.len(),
{
    if cur.len() > 0 {
        lemma_delta_sums_nonneg(cur.drop_last(), prev);
    }
}

fn network_rates(prev: &Vec<NetEntry>, cur: &Vec<NetEntry>, elapsed_nanos: u128, old: Option<NetworkRate>) -> (r: (Option<NetworkRate>, bool))
    ensures
        r == network_update(rows(prev@), rows(cur@), elapsed_nanos, old),
{
    let ghost pr = rows(prev@);
    let ghost cr = rows(cur@);
    if elapsed_nanos == 0 {
        return (old, false);
    }
    let mut receive: u64 = 0;
    let mut transmit: u64 = 0;
    let mut seen = false;
    let mut i: usize = 0;
    while i < cur.len()
        invariant
            i <= cur@.len(),
            pr == rows(prev@),
            cr == rows(cur@),
            elapsed_nanos != 0,
            receive == receive_delta_sum(cr.take(i as int), pr),
            transmit == transmit_delta_sum(cr.take(i as int), pr),
            seen == any_comparable(cr.take(i as int), pr),
        decreases cur.len() - i,
    {
        let ghost pre = cr.take(i as int);
        let ghost next = cr.take(i + 1);
        assert(next.drop_last() =~= pre);
        assert(next.last() == cr[i as int]);
        proof {
            lemma_name_index_range(pr, cr[i as int].0);
        }
        let entry = &cur[i];
        let found = find_entry(prev, &entry.name);
        let ok = match found {
            Some(k) => entry.counters.receive >= prev[k].counters.receive
                && entry.counters.transmit >= prev[k].counters.transmit,
            None => false,
        };
        assert(ok == comparable(cr[i as int], pr));
        if !ok {
            assert(any_comparable(next, pr) == any_comparable(pre, pr)) by {
                if any_comparable(next, pr) {
                    let w = choose|w: int| 0 <= w < next.len() && comparable(#[trigger] next[w], pr);
                    assert(w < i);
                    assert(pre[w] == next[w]);
                }
                if any_comparable(pre, pr) {
                    let w = choose|w: int| 0 <= w < pre.len() && comparable(#[trigger] pre[w], pr);
                    assert(next[w] == pre[w]);
                }
            }
            i = i + 1;
            continue;
        }
        let k = found.unwrap();
        let rx = entry.counters.receive - prev[k].counters.receive;
        let tx = entry.counters.transmit - prev[k].counters.transmit;
        seen = true;
        assert(comparable(next[i as int], pr));
        assert(any_comparable(next, pr));
        match receive.checked_add(rx) {
            Some(v) => receive = v,
            None => {
                proof {
                    lemma_delta_sums_nonneg_monotone(cr, pr, i + 1);
                    assert(any_comparable(cr, pr)) by {
                        assert(cr[i as int] == next[i as int]);
                    }
                }
                return (old, true);
            },
        }
        match transmit.checked_add(tx) {
            Some(v) => transmit = v,
            None => {
                proof {
                    lemma_delta_sums_nonneg_monotone(cr, pr, i + 1);
                    assert(any_comparable(cr, pr)) by {
                        assert(cr[i as int] == next[i as int]);
                    }
                }
                return (old, true);
            },
        }
        i = i + 1;
    }
    assert(cr.take(i as int) =~= cr);
    if !seen {
        return (old, false);
    }
    match (rate_per_second(receive, elapsed_nanos), rate_per_second(transmit, elapsed_nanos)) {
        (Some(receive_bps), Some(transmit_bps)) => (Some(NetworkRate { receive_bps, transmit_bps }), false),
        _ => (old, true),
    }
}

} // verus!

verus! {

// ---------------------------------------------------------------------------
// The `/proc` sampler
// ---------------------------------------------------------------------------

/// A module source whose observation can fail.
#[derive(Debug, Clone, Copy, PartialEq, Eq, Structural, Hash)]
pub enum Source {
    /// `/proc/stat`.
    Cpu,
    /// `/proc/meminfo`.
    Memory,
    /// `/proc/net/dev`.
    Network,
}

/// The plain state of a [`ProcSampler`].
pub struct ProcState {
    /// Previous CPU counters `(total, idle)`, absent after a failed read.
    pub previous_cpu: Option<(u64, u64)>,
    /// Previous interface table, empty after a failed read.
    pub previous_network: Seq<NetRow>,
    /// Last published CPU percent.
    pub cpu_percent: Option<u8>,
    /// Last published memory use.
    pub memory_tenths_gib: Option<u64>,
    /// Last published network rate.
    pub network: Option<NetworkRate>,
    /// The CPU source is in a failure episode.
    pub failing_cpu: bool,
    /// The memory source is in a failure episode.
    pub failing_memory: bool,
    /// The network source is in a failure episode.
    pub failing_network: bool,
}

/// Busy share of `total` rounded half up to a percent, capped at 100.
pub open spec fn busy_percent(total: int, idle: int) -> u8 {
    let r = ((total - idle) * 100 + total / 2) / total;
    if r > 100 { 100 } else { r as u8 }
}

/// The CPU percent after reading counters `(total, idle)`.
pub open spec fn next_cpu_percent(s: ProcState, total: u64, idle: u64) -> Option<u8> {
    match s.previous_cpu {
        Some((pt, pi)) => if total >= pt && idle >= pi && total - pt > 0 && idle - pi <= total - pt {
            Some(busy_percent(total - pt, idle - pi))
        } else {
            s.cpu_percent
        },
        None => s.cpu_percent,
    }
}

/// The sampler state after one observation of the three sources.
pub open spec fn observe_state(s: ProcState, stat: Seq<char>, meminfo: Seq<char>, netdev: Seq<char>, elapsed: u128) -> ProcState {
    let cpu = spec_parse_cpu(stat);
    let mem = spec_parse_memory(meminfo);
    let net = spec_parse_network(netdev);
    ProcState {
        previous_cpu: cpu,
        cpu_percent: match cpu {
            Some((total, idle)) => next_cpu_percent(s, total, idle),
            None => s.cpu_percent,
        },
        memory_tenths_gib: match mem {
            Some(v) => Some(v),
            None => s.memory_tenths_gib,
        },
        previous_network: match net {
            Some(t) => t,
            None => Seq::empty(),
        },
        network: match net {
            Some(t) => network_update(s.previous_network, t, elapsed, s.network).0,
            None => s.network,
        },
        failing_cpu: cpu is None,
        failing_memory: mem is None,
        failing_network: match net {
            Some(t) => network_update(s.previous_network, t, elapsed, s.network).1,
            None => true,
        },
    }
}

/// Sources that entered a failure episode between two states, in source order.
pub open spec fn failures_begun(before: ProcState, after: ProcState) -> Seq<Source> {
    (if after.failing_cpu && !before.failing_cpu { seq![Source::Cpu] } else { Seq::empty() })
        + (if after.failing_memory && !before.failing_memory { seq![Source::Memory] } else { Seq::empty() })
        + (if after.failing_network && !before.failing_network { seq![Source::Network] } else { Seq::empty() })
}

/// The published values of a state, without a battery.
pub open spec fn state_snapshot(s: ProcState) -> ModuleSnapshot {
    ModuleSnapshot {
        cpu_percent: s.cpu_percent,
        memory_tenths_gib: s.memory_tenths_gib,
        network: s.network,
        battery: None,
    }
}

/// Result of one `/proc` observation.
#[derive(Debug)]
pub struct ProcObservation {
    /// Published values after the observation.
    pub snapshot: ModuleSnapshot,
    /// Sources that began failing with this observation.
    pub new_failures: Vec<Source>,
}

/// Stateful reducer for checked `/proc` observations.
#[derive(Debug)]
pub struct ProcSampler {
    previous_cpu: Option<CpuCounters>,
    previous_network: Vec<NetEntry>,
    cpu_percent: Option<u8>,
    memory_tenths_gib: Option<u64>,
    network: Option<NetworkRate>,
    failing_cpu: bool,
    failing_memory: bool,
    failing_network: bool,
}

impl View for ProcSampler {
    type V = ProcState;

    open spec fn view(&self) -> ProcState {
        self.state()
    }
}

impl ProcSampler {
    /// The sampler's plain state.
    pub closed spec fn state(&self) -> ProcState {
        ProcState {
            previous_cpu: match self.previous_cpu {
                Some(c) => Some((c.total, c.idle)),
                None => None,
            },
            previous_network: rows(self.previous_network@),
            cpu_percent: self.cpu_percent,
            memory_tenths_gib: self.memory_tenths_gib,
            network: self.network,
            failing_cpu: self.failing_cpu,
            failing_memory: self.failing_memory,
            failing_network: self.failing_network,
        }
    }

    /// A sampler with no history, no values and no failures.
    pub fn new() -> (s: Self)
        ensures
            s@.previous_cpu is None,
            s@.previous_network.len() == 0,
            s@.cpu_percent is None,
            s@.memory_tenths_gib is None,
            s@.network is None,
            !s@.failing_cpu,
            !s@.failing_memory,
            !s@.failing_network,
    {
        ProcSampler {
            previous_cpu: None,
            previous_network: Vec::new(),
            cpu_percent: None,
            memory_tenths_gib: None,
            network: None,
            failing_cpu: false,
            failing_memory: false,
            failing_network: false,
        }
    }

    /// Published values, without a battery.
    pub fn snapshot(&self) -> (s: ModuleSnapshot)
        ensures
            s == state_snapshot(self@),
    {
        ModuleSnapshot {
            cpu_percent: self.cpu_percent,
            memory_tenths_gib: self.memory_tenths_gib,
            network: self.network,
            battery: None,
        }
    }

    /// Record a failed source, appending it when its failure episode begins.
    fn note_failure(&mut self, source: Source, new_failures: &mut Vec<Source>)
        ensures
            final(new_failures)@ == old(new_failures)@ + (if old(self).failing(source) { Seq::empty() } else { seq![source] }),
            final(self).failing_cpu == (old(self).failing_cpu || source == Source::Cpu),
            final(self).failing_memory == (old(self).failing_memory || source == Source::Memory),
            final(self).failing_network == (old(self).failing_network || source == Source::Network),
            final(self).previous_cpu == old(self).previous_cpu,
            final(self).previous_network == old(self).previous_network,
            final(self).cpu_percent == old(self).cpu_percent,
            final(self).memory_tenths_gib == old(self).memory_tenths_gib,
            final(self).network == old(self).network,
    {
        let was = match source {
            Source::Cpu => self.failing_cpu,
            Source::Memory => self.failing_memory,
            Source::Network => self.failing_network,
        };
        match source {
            Source::Cpu => self.failing_cpu = true,
            Source::Memory => self.failing_memory = true,
            Source::Network => self.failing_network = true,
        }
        if !was {
            new_failures.push(source);
        } else {
            assert(new_failures@ =~= new_failures@ + Seq::<Source>::empty());
        }
    }

    /// End a source's failure episode.
    fn clear_failure(&mut self, source: Source)
        ensures
            final(self).failing_cpu == (old(self).failing_cpu && source != Source::Cpu),
            final(self).failing_memory == (old(self).failing_memory && source != Source::Memory),
            final(self).failing_network == (old(self).failing_network && source != Source::Network),
            final(self).previous_cpu == old(self).previous_cpu,
            final(self).previous_network == old(self).previous_network,
            final(self).cpu_percent == old(self).cpu_percent,
            final(self).memory_tenths_gib == old(self).memory_tenths_gib,
            final(self).network == old(self).network,
    {
        match source {
            Source::Cpu => self.failing_cpu = false,
            Source::Memory => self.failing_memory = false,
            Source::Network => self.failing_network = false,
        }
    }

    /// Whether `source` is in a failure episode.
    pub closed spec fn failing(&self, source: Source) -> bool {
        match source {
            Source::Cpu => self.failing_cpu,
            Source::Memory => self.failing_memory,
            Source::Network => self.failing_network,
        }
    }

    /// Reduce one reading of `/proc/stat`, `/proc/meminfo` and `/proc/net/dev`
    /// taken `elapsed_nanos` after the previous one.
    pub fn observe(&mut self, stat: &str, meminfo: &str, netdev: &str, elapsed_nanos: u128) -> (o: ProcObservation)
        ensures
            final(self)@ == observe_state(old(self)@, stat@, meminfo@, netdev@, elapsed_nanos),
            o.new_failures@ == failures_begun(old(self)@, final(self)@),
            o.snapshot == state_snapshot(final(self)@),
    {
        let ghost before = self@;
        let mut new_failures: Vec<Source> = Vec::new();
        match parse_cpu(stat) {
            Ok(current) => {
                self.clear_failure(Source::Cpu);
                if let Some(previous) = self.previous_cpu {
                    if current.total >= previous.total && current.idle >= previous.idle {
                        let total = current.total - previous.total;
                        let idle = current.idle - previous.idle;
                        if total > 0 && idle <= total {
                            let busy = total - idle;
                            let rounded: u128 = (busy as u128 * 100 + (total / 2) as u128) / total as u128;
                            let percent: u8 = if rounded > 100 { 100 } else { rounded as u8 };
                            self.cpu_percent = Some(percent);
                        }
                    }
                }
                self.previous_cpu = Some(current);
            },
            Err(()) => {
                self.previous_cpu = None;
                self.note_failure(Source::Cpu, &mut new_failures);
            },
        }
        let ghost spec = observe_state(before, stat@, meminfo@, netdev@, elapsed_nanos);
        proof {
            assert(new_failures@ =~= (if spec.failing_cpu && !before.failing_cpu {
                seq![Source::Cpu]
            } else {
                Seq::empty()
            }));
        }
        match parse_memory(meminfo) {
            Ok(value) => {
                self.clear_failure(Source::Memory);
                self.memory_tenths_gib = Some(value);
            },
            Err(()) => self.note_failure(Source::Memory, &mut new_failures),
        }
        match parse_network(netdev) {
            Ok(current) => {
                let (network, failed) = network_rates(&self.previous_network, &current, elapsed_nanos, self.network);
                self.network = network;
                self.previous_network = current;
                if failed {
                    self.note_failure(Source::Network, &mut new_failures);
                } else {
                    self.clear_failure(Source::Network);
                }
            },
            Err(()) => {
                self.previous_network = Vec::new();
                self.note_failure(Source::Network, &mut new_failures);
            },
        }
        proof {
            assert(self@.previous_network =~= observe_state(before, stat@, meminfo@, netdev@, elapsed_nanos).previous_network);
            assert(new_failures@ =~= failures_begun(before, self@));
        }
        ProcObservation { snapshot: self.snapshot(), new_failures }
    }
}

} // verus!

verus! {

// ---------------------------------------------------------------------------
// Battery observation
// ---------------------------------------------------------------------------

/// The standard I/O error type, carried opaquely through battery observations.
#[verifier::external_type_specification]
#[verifier::external_body]
pub struct ExIoError(std::io::Error);

/// Latest battery reading and failure-episode state.
#[derive(Debug, Clone, Copy, PartialEq, Eq, Structural)]
pub struct BatterySampler {
    reading: Option<BatteryReading>,
    failed: bool,
}

impl BatterySampler {
    /// The last successful reading.
    pub closed spec fn spec_reading(self) -> Option<BatteryReading> {
        self.reading
    }

    /// Whether the source is in a failure episode.
    pub closed spec fn spec_failed(self) -> bool {
        self.failed
    }

    /// No reading and no failure.
    pub fn new() -> (s: Self)
        ensures
            s.spec_reading() is None,
            !s.spec_failed(),
    {
        BatterySampler { reading: None, failed: false }
    }

    /// Record one scan; returns whether this failure begins a new episode.
    ///
    /// A success replaces the reading and ends any episode; a failure keeps
    /// the previous reading.
    pub fn observe(&mut self, result: Result<Option<BatteryReading>, std::io::Error>) -> (new_failure: bool)
        ensures
            match result {
                Ok(reading) => final(self).spec_reading() == reading && !final(self).spec_failed() && !new_failure,
                Err(_) => final(self).spec_reading() == old(self).spec_reading() && final(self).spec_failed()
                    && new_failure == !old(self).spec_failed(),
            },
    {
        match result {
            Ok(reading) => {
                self.reading = reading;
                self.failed = false;
                false
            },
            Err(_) => {
                if !self.failed {
                    self.failed = true;
                    true
                } else {
                    false
                }
            },
        }
    }

    /// The last successful reading.
    pub fn reading(&self) -> (r: Option<BatteryReading>)
        ensures
            r == self.spec_reading(),
    {
        self.reading
    }
}

/// Whether some NUL-separated field of a kernel uevent is exactly `SUBSYSTEM=power_supply`.
pub open spec fn spec_is_power_supply_uevent(message: Seq<u8>) -> bool {
    let p = power_supply_field();
    exists|i: int| 0 <= i && i + p.len() <= message.len()
        && (i == 0 || message[i - 1] == 0)
        && (i + p.len() == message.len() || message[i + p.len()] == 0)
        && #[trigger] message.subrange(i, i + p.len()) == p
}

/// The bytes of `SUBSYSTEM=power_supply`.
pub open spec fn power_supply_field() -> Seq<u8> {
    seq![
        0x53u8, 0x55, 0x42, 0x53, 0x59, 0x53, 0x54, 0x45, 0x4d, 0x3d, 0x70, 0x6f, 0x77, 0x65,
        0x72, 0x5f, 0x73, 0x75, 0x70, 0x70, 0x6c, 0x79,
    ]
}

/// Whether a kernel uevent concerns the power-supply subsystem.
pub fn is_power_supply_uevent(message: &[u8]) -> (r: bool)
    ensures
        r == spec_is_power_supply_uevent(message@),
{
    let pattern: [u8; 22] = [
        0x53u8, 0x55, 0x42, 0x53, 0x59, 0x53, 0x54, 0x45, 0x4d, 0x3d, 0x70, 0x6f, 0x77, 0x65,
        0x72, 0x5f, 0x73, 0x75, 0x70, 0x70, 0x6c, 0x79,
    ];
    assert(pattern@ =~= power_supply_field());
    let n = message.len();
    if n < 22 {
        return false;
    }
    let mut w: usize = 0;
    while w <= n - 22
        invariant
            n == message@.len(),
            n >= 22,
            w <= n - 21,
            pattern@ == power_supply_field(),
            forall|v: int| 0 <= v < w ==> !((v == 0 || message@[v - 1] == 0)
                && (v + 22 == n || message@[v + 22] == 0)
                && #[trigger] message@.subrange(v, v + 22) == power_supply_field()),
        decreases n - w,
    {
        let bounded = (w == 0 || message[w - 1] == 0) && (w + 22 == n || message[w + 22] == 0);
        if bounded {
            let mut k: usize = 0;
            let mut same = true;
            while k < 22
                invariant
                    k <= 22,
                    w + 22 <= n,
                    n == message@.len(),
                    pattern@ == power_supply_field(),
                    same == forall|m: int| 0 <= m < k ==> message@[w + m] == pattern@[m],
                decreases 22 - k,
            {
                if message[w + k] != pattern[k] {
                    same = false;
                }
                k = k + 1;
            }
            if same {
                assert(message@.subrange(w as int, w + 22) =~= power_supply_field());
                return true;
            }
            assert(message@.subrange(w as int, w + 22) != power_supply_field()) by {
                let m = choose|m: int| 0 <= m < 22 && message@[w + m] != pattern@[m];
                assert(message@.subrange(w as int, w + 22)[m] != power_supply_field()[m]);
            }
        }
        w = w + 1;
    }
    false
}

} // verus!

verus! {

// ---------------------------------------------------------------------------
// Battery scanning
// ---------------------------------------------------------------------------

/// Why a battery's sysfs attributes were refused.
#[derive(Debug, Clone, Copy, PartialEq, Eq, Structural)]
pub enum BatteryScanError {
    /// The capacity attribute is not an 8-bit unsigned decimal.
    InvalidCapacity,
    /// The capacity attribute exceeds 100 percent.
    CapacityAbove100,
}

impl BatteryScanError {
    /// The error's message.
    pub open spec fn spec_message(self) -> Seq<char> {
        match self {
            BatteryScanError::InvalidCapacity => "battery capacity is not an 8-bit unsigned decimal"@,
            BatteryScanError::CapacityAbove100 => "battery capacity exceeds 100"@,
        }
    }

    /// Render the error's message.
    pub fn message(&self) -> (m: String)
        ensures
            m@ == self.spec_message(),
    {
        match self {
            BatteryScanError::InvalidCapacity => String::from_str("battery capacity is not an 8-bit unsigned decimal"),
            BatteryScanError::CapacityAbove100 => String::from_str("battery capacity exceeds 100"),
        }
    }
}

/// Whether a power-supply `type` attribute names a battery.
pub fn is_battery_type(type_text: &str) -> (r: bool)
    ensures
        r == (trim(type_text@) == "Battery"@),
{
    let chars = chars_of(type_text);
    let t = trimmed(&chars, 0, chars.len());
    assert(chars@.subrange(0, chars@.len() as int) =~= chars@);
    chars_are(&t, "Battery")
}

/// The reading of a battery from its trimmed `capacity` and `status`
/// attributes, when the capacity is an 8-bit unsigned decimal of at most 100.
pub open spec fn spec_battery_reading(capacity_text: Seq<char>, status_text: Seq<char>) -> Result<(u8, bool), BatteryScanError> {
    let c = parse_u64(trim(capacity_text));
    if c is None || c.unwrap() > 255 {
        Err(BatteryScanError::InvalidCapacity)
    } else if c.unwrap() > 100 {
        Err(BatteryScanError::CapacityAbove100)
    } else {
        Ok((c.unwrap() as u8, trim(status_text) == "Discharging"@))
    }
}

/// Read one battery from the text of its `capacity` and `status` attributes.
pub fn battery_reading(capacity_text: &str, status_text: &str) -> (r: Result<BatteryReading, BatteryScanError>)
    ensures
        match spec_battery_reading(capacity_text@, status_text@) {
            Ok((capacity, discharging)) => r is Ok && r->Ok_0.spec_capacity() == capacity
                && r->Ok_0.spec_discharging() == discharging,
            Err(e) => r == Err::<BatteryReading, BatteryScanError>(e),
        },
{
    let chars = chars_of(capacity_text);
    let t = trimmed(&chars, 0, chars.len());
    assert(chars@.subrange(0, chars@.len() as int) =~= chars@);
    let capacity = match parse_u64_token(&t) {
        Some(c) => c,
        None => return Err(BatteryScanError::InvalidCapacity),
    };
    if capacity > 255 {
        return Err(BatteryScanError::InvalidCapacity);
    }
    if capacity > 100 {
        return Err(BatteryScanError::CapacityAbove100);
    }
    let status = chars_of(status_text);
    let s = trimmed(&status, 0, status.len());
    assert(status@.subrange(0, status@.len() as int) =~= status@);
    let discharging = chars_are(&s, "Discharging");
    Ok(BatteryReading::new(capacity as u8, discharging))
}

// ---------------------------------------------------------------------------
// Sampler inputs
// ---------------------------------------------------------------------------

/// Kernel interfaces the module sampler reads.
#[derive(Debug, Clone, PartialEq, Eq)]
pub struct SamplerPaths {
    /// Aggregate CPU counters.
    pub stat: String,
    /// Memory counters.
    pub meminfo: String,
    /// Network interface counters.
    pub netdev: String,
    /// Power-supply class directory.
    pub power_supply: String,
}

impl SamplerPaths {
    /// The system's own interfaces.
    pub fn system() -> (p: Self)
        ensures
            p.stat@ == "/proc/stat"@,
            p.meminfo@ == "/proc/meminfo"@,
            p.netdev@ == "/proc/net/dev"@,
            p.power_supply@ == "/sys/class/power_supply"@,
    {
        SamplerPaths {
            stat: String::from_str("/proc/stat"),
            meminfo: String::from_str("/proc/meminfo"),
            netdev: String::from_str("/proc/net/dev"),
            power_supply: String::from_str("/sys/class/power_supply"),
        }
    }
}

// ---------------------------------------------------------------------------
// Clock
// ---------------------------------------------------------------------------

/// A jiff time zone, carried opaquely by the clock.
#[verifier::external_type_specification]
#[verifier::external_body]
pub struct ExTimeZone(jiff::tz::TimeZone);

/// A jiff instant.
#[verifier::external_type_specification]
#[verifier::external_body]
pub struct ExTimestamp(jiff::Timestamp);

/// A jiff instant in a time zone.
#[verifier::external_type_specification]
#[verifier::external_body]
pub struct ExZoned(jiff::Zoned);

/// A jiff error.
#[verifier::external_type_specification]
#[verifier::external_body]
pub struct ExJiffError(jiff::Error);

/// The system time zone.
///
/// Wraps `jiff::tz::TimeZone::system`, which consults `TZ` and the system's
/// zone files; nothing is claimed of the zone it finds.
#[verifier::external_body]
fn system_time_zone() -> jiff::tz::TimeZone {
    jiff::tz::TimeZone::system()
}

/// The UTC time zone.
///
/// Hands out `jiff::tz::TimeZone::UTC`; nothing is claimed of it.
#[verifier::external_body]
fn utc_time_zone() -> jiff::tz::TimeZone {
    jiff::tz::TimeZone::UTC
}

/// Whether jiff represents the instant `unix_nanos` nanoseconds after the
/// Unix epoch: from `Timestamp::MIN` (-9999-01-02T01:59:59Z) through
/// `Timestamp::MAX` (9999-12-30T22:00:00.999999999Z), both included.
pub open spec fn instant_in_range(unix_nanos: i128) -> bool {
    -377_705_023_201_000_000_000 <= unix_nanos <= 253_402_207_200_999_999_999
}

/// The instant `unix_nanos` nanoseconds after the Unix epoch.
///
/// Wraps `jiff::Timestamp::from_nanosecond`, documented to fail exactly when
/// the instant lies before `Timestamp::MIN` or after `Timestamp::MAX`; the
/// contract claims that and nothing of the timestamp itself.
#[verifier::external_body]
fn timestamp_from_nanos(unix_nanos: i128) -> (r: Result<jiff::Timestamp, jiff::Error>)
    ensures
        r is Ok <==> instant_in_range(unix_nanos),
{
    jiff::Timestamp::from_nanosecond(unix_nanos)
}

/// An instant seen in a time zone.
///
/// Wraps `jiff::Timestamp::to_zoned`; the civil time depends on the zone's
/// rules and is not stated here.
#[verifier::external_body]
fn to_zoned(timestamp: jiff::Timestamp, zone: &jiff::tz::TimeZone) -> jiff::Zoned {
    timestamp.to_zoned(zone.clone())
}

/// The hour of a zoned instant.
///
/// Wraps `jiff::Zoned::hour`, documented to lie in `0..=23`.
#[verifier::external_body]
fn zoned_hour(zoned: &jiff::Zoned) -> (hour: i8)
    ensures
        0 <= hour <= 23,
{
    zoned.hour()
}

/// The minute of a zoned instant.
///
/// Wraps `jiff::Zoned::minute`, documented to lie in `0..=59`.
#[verifier::external_body]
fn zoned_minute(zoned: &jiff::Zoned) -> (minute: i8)
    ensures
        0 <= minute <= 59,
{
    zoned.minute()
}

/// Two-digit zero-padded spelling of a value below 100.
pub open spec fn two_digits(n: nat) -> Seq<char> {
    seq![digit_char(n / 10), digit_char(n % 10)]
}

/// The fixed-width `HH:MM` clock module.
pub open spec fn spec_clock_module(hour: nat, minute: nat) -> ModuleValue {
    ModuleValue {
        id: "clock"@,
        text: two_digits(hour) + seq![':'] + two_digits(minute),
        accent: None,
        urgent: false,
    }
}

/// The digit character of a value below ten.
fn digit_of(d: u8) -> (c: char)
    requires
        d < 10,
    ensures
        c == digit_char(d as nat),
{
    if d == 0 { '0' }
    else if d == 1 { '1' }
    else if d == 2 { '2' }
    else if d == 3 { '3' }
    else if d == 4 { '4' }
    else if d == 5 { '5' }
    else if d == 6 { '6' }
    else if d == 7 { '7' }
    else if d == 8 { '8' }
    else { '9' }
}

/// Render the clock module for a local hour and minute.
pub fn clock_module(hour: u8, minute: u8) -> (m: Module)
    requires
        hour < 24,
        minute < 60,
    ensures
        m@ == spec_clock_module(hour as nat, minute as nat),
        m@.text.len() == 5,
{
    proof {
        reveal_strlit("clock");
    }
    let mut text = String::new();
    push_char(&mut text, digit_of(hour / 10));
    push_char(&mut text, digit_of(hour % 10));
    push_char(&mut text, ':');
    push_char(&mut text, digit_of(minute / 10));
    push_char(&mut text, digit_of(minute % 10));
    assert(text@ =~= two_digits(hour as nat) + seq![':'] + two_digits(minute as nat));
    Module { id: String::from_str("clock"), text, accent: None, urgent: false }
}

/// Minute-granular local wall-clock producer with its time zone captured at
/// startup.
pub struct ClockModule {
    timezone: jiff::tz::TimeZone,
}

impl ClockModule {
    /// Capture the system time zone before the live event loop begins.
    pub fn system() -> (c: Self) {
        ClockModule { timezone: system_time_zone() }
    }

    /// A clock in UTC.
    pub fn utc() -> (c: Self) {
        ClockModule { timezone: utc_time_zone() }
    }

    /// Render the fixed-width `HH:MM` module at an instant given in
    /// nanoseconds since the Unix epoch.
    ///
    /// Fails exactly when the instant is outside the range the time library
    /// represents; otherwise the text is the zero-padded local hour and
    /// minute in the captured zone.
    pub fn render(&self, unix_nanos: i128) -> (r: Result<Module, jiff::Error>)
        ensures
            r is Ok <==> instant_in_range(unix_nanos),
            r is Ok ==> exists|h: nat, m: nat| h < 24 && m < 60 && r->Ok_0@ == #[trigger] spec_clock_module(h, m),
    {
        let timestamp = match timestamp_from_nanos(unix_nanos) {
            Ok(t) => t,
            Err(e) => return Err(e),
        };
        let zoned = to_zoned(timestamp, &self.timezone);
        let hour = zoned_hour(&zoned);
        let minute = zoned_minute(&zoned);
        let m = clock_module(hour as u8, minute as u8);
        assert(m@ == spec_clock_module(hour as u8 as nat, minute as u8 as nat));
        Ok(m)
    }
}

/// Whether a rendered clock module shows some valid hour and minute.
pub open spec fn shows_a_time(m: Module) -> bool {
    exists|h: nat, n: nat| h < 24 && n < 60 && m@ == #[trigger] spec_clock_module(h, n)
}

/// The clock's producer, and whether a minute tick was deferred because a
/// backend transaction was active.
pub struct ClockRuntime {
    /// The producer.
    pub module: ClockModule,
    /// Whether a tick awaits the end of the active transaction.
    pub dirty: bool,
}

impl ClockRuntime {
    /// A clock in the system time zone, with nothing deferred.
    pub fn system() -> (c: Self)
        ensures
            !c.dirty,
    {
        ClockRuntime { module: ClockModule::system(), dirty: false }
    }

    /// A clock in UTC, with nothing deferred.
    pub fn utc() -> (c: Self)
        ensures
            !c.dirty,
    {
        ClockRuntime { module: ClockModule::utc(), dirty: false }
    }

    /// A minute tick: deferred while a backend transaction is active,
    /// otherwise the module rendered at the instant.
    pub fn tick(&mut self, transaction_active: bool, unix_nanos: i128) -> (r: Result<Option<Module>, jiff::Error>)
        ensures
            transaction_active ==> final(self).dirty && r matches Ok(None),
            !transaction_active ==> (r is Ok <==> instant_in_range(unix_nanos)),
            !transaction_active ==> !final(self).dirty && match r {
                Ok(Some(m)) => shows_a_time(m),
                Ok(None) => false,
                Err(_) => true,
            },
    {
        if transaction_active {
            self.dirty = true;
            return Ok(None);
        }
        self.dirty = false;
        match self.module.render(unix_nanos) {
            Ok(m) => Ok(Some(m)),
            Err(e) => Err(e),
        }
    }

    /// After an update: render a deferred tick once no backend transaction
    /// is active; otherwise nothing changes.
    pub fn fold_if_clean(&mut self, transaction_active: bool, unix_nanos: i128) -> (r: Result<Option<Module>, jiff::Error>)
        ensures
            !old(self).dirty || transaction_active ==> final(self).dirty == old(self).dirty && r matches Ok(None),
            old(self).dirty && !transaction_active ==> (r is Ok <==> instant_in_range(unix_nanos)),
            old(self).dirty && !transaction_active ==> !final(self).dirty && match r {
                Ok(Some(m)) => shows_a_time(m),
                Ok(None) => false,
                Err(_) => true,
            },
    {
        if !self.dirty || transaction_active {
            return Ok(None);
        }
        self.dirty = false;
        match self.module.render(unix_nanos) {
            Ok(m) => Ok(Some(m)),
            Err(e) => Err(e),
        }
    }
}

} // verus!

verus! {

/// A source whose input cannot be read keeps its last published value, and
/// only the observation that starts a failure episode reports it: the same
/// broken input observed again reports nothing new.
pub proof fn lemma_failing_sources_keep_values_and_report_once(
    s: ProcState,
    stat: Seq<char>,
    meminfo: Seq<char>,
    netdev: Seq<char>,
    elapsed: u128,
)
    ensures
        ({
            let a = observe_state(s, stat, meminfo, netdev, elapsed);
            let b = observe_state(a, stat, meminfo, netdev, elapsed);
            &&& spec_parse_cpu(stat) is None ==> a.cpu_percent == s.cpu_percent
                && failures_begun(s, a).contains(Source::Cpu) == !s.failing_cpu
                && !failures_begun(a, b).contains(Source::Cpu)
            &&& spec_parse_memory(meminfo) is None ==> a.memory_tenths_gib == s.memory_tenths_gib
                && failures_begun(s, a).contains(Source::Memory) == !s.failing_memory
                && !failures_begun(a, b).contains(Source::Memory)
            &&& spec_parse_network(netdev) is None ==> a.network == s.network
                && failures_begun(s, a).contains(Source::Network) == !s.failing_network
                && !failures_begun(a, b).contains(Source::Network)
        }),
{
    let a = observe_state(s, stat, meminfo, netdev, elapsed);
    let b = observe_state(a, stat, meminfo, netdev, elapsed);
    let fa = failures_begun(s, a);
    let fb = failures_begun(a, b);
    let c1: Seq<Source> = if a.failing_cpu && !s.failing_cpu { seq![Source::Cpu] } else { Seq::empty() };
    let m1: Seq<Source> = if a.failing_memory && !s.failing_memory { seq![Source::Memory] } else { Seq::empty() };
    let n1: Seq<Source> = if a.failing_network && !s.failing_network { seq![Source::Network] } else { Seq::empty() };
    assert(fa == c1 + m1 + n1);
    let c2: Seq<Source> = if b.failing_cpu && !a.failing_cpu { seq![Source::Cpu] } else { Seq::empty() };
    let m2: Seq<Source> = if b.failing_memory && !a.failing_memory { seq![Source::Memory] } else { Seq::empty() };
    let n2: Seq<Source> = if b.failing_network && !a.failing_network { seq![Source::Network] } else { Seq::empty() };
    assert(fb == c2 + m2 + n2);
    assert forall|x: Source| #[trigger] fa.contains(x) <==> (c1.contains(x) || m1.contains(x) || n1.contains(x)) by {
        if fa.contains(x) {
            let i = choose|i: int| 0 <= i < fa.len() && fa[i] == x;
            if i < c1.len() {
                assert(c1[i] == x);
            } else if i < c1.len() + m1.len() {
                assert(m1[i - c1.len()] == x);
            } else {
                assert(n1[i - c1.len() - m1.len()] == x);
            }
        }
        if c1.contains(x) {
            let i = choose|i: int| 0 <= i < c1.len() && c1[i] == x;
            assert(fa[i] == x);
        }
        if m1.contains(x) {
            let i = choose|i: int| 0 <= i < m1.len() && m1[i] == x;
            assert(fa[c1.len() + i] == x);
        }
        if n1.contains(x) {
            let i = choose|i: int| 0 <= i < n1.len() && n1[i] == x;
            assert(fa[c1.len() + m1.len() + i] == x);
        }
    }
    assert forall|x: Source| #[trigger] fb.contains(x) <==> (c2.contains(x) || m2.contains(x) || n2.contains(x)) by {
        if fb.contains(x) {
            let i = choose|i: int| 0 <= i < fb.len() && fb[i] == x;
            if i < c2.len() {
                assert(c2[i] == x);
            } else if i < c2.len() + m2.len() {
                assert(m2[i - c2.len()] == x);
            } else {
                assert(n2[i - c2.len() - m2.len()] == x);
            }
        }
        if c2.contains(x) {
            let i = choose|i: int| 0 <= i < c2.len() && c2[i] == x;
            assert(fb[i] == x);
        }
        if m2.contains(x) {
            let i = choose|i: int| 0 <= i < m2.len() && m2[i] == x;
            assert(fb[c2.len() + i] == x);
        }
        if n2.contains(x) {
            let i = choose|i: int| 0 <= i < n2.len() && n2[i] == x;
            assert(fb[c2.len() + m2.len() + i] == x);
        }
    }
    if c1.len() > 0 {
        assert(c1[0] == Source::Cpu);
    }
    if m1.len() > 0 {
        assert(m1[0] == Source::Memory);
    }
    if n1.len() > 0 {
        assert(n1[0] == Source::Network);
    }
}

/// A CPU counter reset (a counter that went backwards, or no elapsed
/// ticks) never publishes a new percent: the last one stays.
pub proof fn lemma_cpu_reset_keeps_percent(s: ProcState, total: u64, idle: u64)
    requires
        s.previous_cpu matches Some((pt, pi)) && (total < pt || idle < pi || total == pt),
    ensures
        next_cpu_percent(s, total, idle) == s.cpu_percent,
{
}

/// A published CPU percent never exceeds 100.
pub proof fn lemma_cpu_percent_bounded(s: ProcState, total: u64, idle: u64)
    requires
        s.cpu_percent matches Some(p) ==> p <= 100,
    ensures
        next_cpu_percent(s, total, idle) matches Some(p) ==> p <= 100,
{
}

/// The busy share of `total` ticks rounded half up never exceeds 100, so the
/// cap in `busy_percent` never changes it.
proof fn lemma_rounded_share_at_most_hundred(total: int, idle: int)
    requires
        0 < total,
        0 <= idle <= total,
    ensures
        0 <= ((total - idle) * 100 + total / 2) / total <= 100,
        busy_percent(total, idle) as int == ((total - idle) * 100 + total / 2) / total,
{
    let x = (total - idle) * 100 + total / 2;
    assert(0 <= x < 101 * total) by (nonlinear_arith)
        requires
            0 < total,
            0 <= idle <= total,
            x == (total - idle) * 100 + total / 2,
            0 <= total / 2 < total,
    ;
    assert(0 <= x / total <= 100) by (nonlinear_arith)
        requires
            0 < total,
            0 <= x < 101 * total,
    {
        vstd::arithmetic::div_mod::lemma_div_pos_is_pos(x, total);
        vstd::arithmetic::div_mod::lemma_div_by_multiple_is_strongly_ordered(x, 101 * total, 101, total);
    }
}

/// With a previous sample whose counters both advanced, by a positive number
/// of total ticks and no more idle ticks than total ticks, the published
/// percent becomes the busy share rounded half up, which is at most 100.
pub proof fn lemma_cpu_percent_is_rounded_busy_share(s: ProcState, total: u64, idle: u64)
    requires
        s.previous_cpu matches Some((pt, pi)) && total >= pt && idle >= pi && total - pt > 0
            && idle - pi <= total - pt,
    ensures
        ({
            let (pt, pi) = s.previous_cpu->0;
            let dt = total - pt;
            let di = idle - pi;
            next_cpu_percent(s, total, idle) matches Some(p)
                && p as int == ((dt - di) * 100 + dt / 2) / dt
                && p <= 100
        }),
{
    let (pt, pi) = s.previous_cpu->0;
    lemma_rounded_share_at_most_hundred(total - pt, idle - pi);
}

/// When no current interface can be compared with the previous sample
/// (all are new or their counters were reset), the published network rate
/// stays as it was and no failure is reported.
pub proof fn lemma_network_reset_keeps_rate(prev: Seq<NetRow>, cur: Seq<NetRow>, elapsed: u128, old: Option<NetworkRate>)
    requires
        forall|i: int| 0 <= i < cur.len() ==> !comparable(#[trigger] cur[i], prev),
    ensures
        network_update(prev, cur, elapsed, old) == (old, false),
{
}

} // verus!
