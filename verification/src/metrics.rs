//! Usage figures: how raw host counters become the values that are published.
//!
//! Every figure is an integer. A percentage is held in hundredths of a
//! percent, rounded down, and always lies between 0 and 100 percent.

use vstd::prelude::*;
use crate::text::{hundredths, hundredths_text, zero_padded, zero_padded_text};

verus! {

/// One hundred percent, in hundredths of a percent.
pub const FULL: u32 = 10_000;

/// Seconds in one hundredth of a day.
pub const SECONDS_PER_CENTIDAY: u64 = 864;

/// The share `part / whole` as a percentage in hundredths of a percent,
/// rounded down, for a positive `whole`: nothing where `part` is not positive,
/// one hundred percent where `part` reaches `whole`.
pub open spec fn share(part: int, whole: int) -> nat
    recommends
        whole > 0,
{
    if part <= 0 {
        0
    } else if part >= whole {
        FULL as nat
    } else {
        (part * FULL / whole) as nat
    }
}

/// The ratio `part / whole` clamped to between 0 and 1, as a percentage in
/// hundredths of a percent, rounded down. Where `whole` is zero the ratio is
/// taken to be zero.
pub open spec fn clamped_ratio(part: int, whole: int) -> nat {
    if whole == 0 {
        0
    } else if whole > 0 {
        share(part, whole)
    } else {
        share(-part, -whole)
    }
}

/// A clamped ratio never leaves the range from 0 to 100 percent.
pub proof fn lemma_clamped_ratio_in_range(part: int, whole: int)
    ensures
        clamped_ratio(part, whole) <= FULL,
{
    if whole > 0 {
        lemma_share_in_range(part, whole);
    } else if whole < 0 {
        lemma_share_in_range(-part, -whole);
    }
}

proof fn lemma_share_in_range(part: int, whole: int)
    requires
        whole > 0,
    ensures
        share(part, whole) <= FULL,
        0 < part < whole ==> 0 <= part * FULL / whole < FULL,
{
    if 0 < part < whole {
        assert(0 <= part * 10_000 / whole < 10_000) by (nonlinear_arith)
            requires
                0 < part < whole,
        ;
    }
}

/// A percentage between 0 and 100, held in hundredths of a percent.
#[derive(Clone, Copy, Debug)]
pub struct Percent {
    hundredths: u32,
}

impl View for Percent {
    type V = nat;

    /// The percentage in hundredths of a percent.
    closed spec fn view(&self) -> nat {
        self.hundredths as nat
    }
}

impl Percent {
    #[verifier::type_invariant]
    spec fn in_range(self) -> bool {
        self.hundredths <= FULL
    }

    /// The percentage in hundredths of a percent: at most `FULL`.
    pub fn hundredths(&self) -> (h: u32)
        ensures
            h == self@,
            h <= FULL,
    {
        proof {
            use_type_invariant(self);
        }
        self.hundredths
    }

    /// The share that `part` has of `whole`, clamped to between 0 and 100
    /// percent; 0 percent where `whole` is zero.
    pub(crate) fn of(part: u128, whole: u128) -> (p: Percent)
        requires
            part * FULL <= u128::MAX,
        ensures
            p@ == clamped_ratio(part as int, whole as int),
    {
        if whole == 0 || part == 0 {
            Percent { hundredths: 0 }
        } else if part >= whole {
            Percent { hundredths: FULL }
        } else {
            proof {
                lemma_share_in_range(part as int, whole as int);
            }
            let scaled = part * (FULL as u128) / whole;
            Percent { hundredths: scaled as u32 }
        }
    }

    /// The payload of a usage figure: the percentage as a decimal numeral,
    /// with a fraction only where there is one and no zero at its end. So 75
    /// percent is `75`, and twelve and a half percent is `12.5`.
    ///
    /// No more than two decimals are kept: a figure that has more is cut
    /// after the second, so a third is `33.33`. Where the exact figure has
    /// more decimals, a floating point number printed in full would show
    /// them; this text does not.
    pub fn text(&self) -> (s: String)
        ensures
            s@ == hundredths(self@),
    {
        hundredths_text(self.hundredths as u64)
    }

    /// The payload of a charge level: the whole percents, rounded down, as a
    /// numeral of three digits.
    pub fn padded_text(&self) -> (s: String)
        ensures
            s@ == zero_padded(self@ / 100, 3),
    {
        zero_padded_text((self.hundredths / 100) as u64, 3)
    }
}

/// One reading of the cumulative processor time counters, all in one unit.
#[derive(Clone, Copy, Debug)]
pub struct CpuTimes {
    pub user: u64,
    pub system: u64,
    pub idle: u64,
}

impl CpuTimes {
    /// Time spent working: user and system time together.
    pub open spec fn used(&self) -> nat {
        (self.user + self.system) as nat
    }

    /// All the time counted: working and idle.
    pub open spec fn total(&self) -> nat {
        (self.user + self.system + self.idle) as nat
    }
}

/// The counters of the previous processor sample, against which the next one
/// is measured.
#[derive(Clone, Copy, Debug)]
pub struct CpuSampleState {
    previous_used_time: u128,
    previous_total_time: u128,
}

impl View for CpuSampleState {
    type V = (nat, nat);

    /// The used time and the total time of the previous sample.
    closed spec fn view(&self) -> (nat, nat) {
        (self.previous_used_time as nat, self.previous_total_time as nat)
    }
}

/// Processor usage over the interval from a previous sample, given by its
/// used and total time, to the reading `times`: the used-time delta over the
/// total-time delta, clamped; zero where no time has passed.
pub open spec fn cpu_usage(previous: (nat, nat), times: CpuTimes) -> nat {
    clamped_ratio(times.used() - previous.0, times.total() - previous.1)
}

/// Two samples with the same counters show an idle processor: the delta of the
/// total time is zero, and nothing is divided by it.
pub proof fn lemma_repeated_sample_is_idle(times: CpuTimes)
    ensures
        cpu_usage((times.used(), times.total()), times) == 0,
{
}

impl CpuSampleState {
    #[verifier::type_invariant]
    spec fn bounded(self) -> bool {
        &&& self.previous_used_time <= 2 * u64::MAX
        &&& self.previous_total_time <= 3 * u64::MAX
    }

    /// The state that remembers the reading `times`.
    pub fn observe(times: &CpuTimes) -> (state: CpuSampleState)
        ensures
            state@ == (times.used(), times.total()),
    {
        let used = times.user as u128 + times.system as u128;
        CpuSampleState {
            previous_used_time: used,
            previous_total_time: used + times.idle as u128,
        }
    }

    /// The used time of the previous sample.
    pub fn previous_used_time(&self) -> (t: u128)
        ensures
            t == self@.0,
    {
        self.previous_used_time
    }

    /// The total time of the previous sample.
    pub fn previous_total_time(&self) -> (t: u128)
        ensures
            t == self@.1,
    {
        self.previous_total_time
    }
}

/// Measures processor usage since `previous` and remembers the new reading.
pub fn cpu(previous: CpuSampleState, times: &CpuTimes) -> (r: (Percent, CpuSampleState))
    ensures
        r.0@ == cpu_usage(previous@, *times),
        r.1@ == (times.used(), times.total()),
{
    proof {
        use_type_invariant(previous);
    }
    let next = CpuSampleState::observe(times);
    proof {
        use_type_invariant(next);
    }
    let used = next.previous_used_time;
    let total = next.previous_total_time;
    let percent = if total > previous.previous_total_time {
        let whole = total - previous.previous_total_time;
        if used > previous.previous_used_time {
            Percent::of(used - previous.previous_used_time, whole)
        } else {
            Percent::of(0, whole)
        }
    } else if total < previous.previous_total_time {
        let whole = previous.previous_total_time - total;
        if used < previous.previous_used_time {
            Percent::of(previous.previous_used_time - used, whole)
        } else {
            Percent::of(0, whole)
        }
    } else {
        Percent::of(0, 0)
    };
    (percent, next)
}

/// How much of a store is in use, as a percentage: what is not available, over
/// the total, clamped; zero for a store of no size.
pub open spec fn usage(total: nat, available: nat) -> nat {
    clamped_ratio(total - available, total as int)
}

/// Total and available bytes of main memory or of swap space.
#[derive(Clone, Copy, Debug)]
pub struct MemoryReading {
    pub total: u64,
    pub available: u64,
}

impl MemoryReading {
    /// The percentage of the memory that is in use.
    pub fn percent(&self) -> (p: Percent)
        ensures
            p@ == usage(self.total as nat, self.available as nat),
    {
        if self.available >= self.total {
            Percent::of(0, self.total as u128)
        } else {
            Percent::of((self.total - self.available) as u128, self.total as u128)
        }
    }
}

/// Total and free bytes of one mounted volume.
#[derive(Clone, Copy, Debug)]
pub struct DiskReading {
    pub total: u64,
    pub free: u64,
}

impl DiskReading {
    /// The percentage of the volume that is in use.
    pub fn percent(&self) -> (p: Percent)
        ensures
            p@ == usage(self.total as nat, self.free as nat),
    {
        if self.free >= self.total {
            Percent::of(0, self.total as u128)
        } else {
            Percent::of((self.total - self.free) as u128, self.total as u128)
        }
    }
}

/// What a battery is doing.
#[derive(Clone, Copy, Debug)]
pub enum BatteryState {
    Charging,
    Discharging,
    Empty,
    Full,
    Unknown,
}

/// The word that is published for a battery state.
pub open spec fn state_label(state: BatteryState) -> Seq<char> {
    match state {
        BatteryState::Charging => "charging"@,
        BatteryState::Discharging => "discharging"@,
        BatteryState::Empty => "empty"@,
        BatteryState::Full => "full"@,
        BatteryState::Unknown => "unknown"@,
    }
}

impl BatteryState {
    /// The word that is published for this state.
    pub fn label(&self) -> (s: &'static str)
        ensures
            s@ == state_label(*self),
    {
        match self {
            BatteryState::Charging => "charging",
            BatteryState::Discharging => "discharging",
            BatteryState::Empty => "empty",
            BatteryState::Full => "full",
            BatteryState::Unknown => "unknown",
        }
    }
}

/// State and charge of one battery; both energies in one unit.
#[derive(Clone, Copy, Debug)]
pub struct BatteryReading {
    pub state: BatteryState,
    pub energy: u64,
    pub energy_full: u64,
}

impl BatteryReading {
    /// The charge level: the energy held over the energy of a full battery.
    pub fn level(&self) -> (p: Percent)
        ensures
            p@ == clamped_ratio(self.energy as int, self.energy_full as int),
    {
        Percent::of(self.energy as u128, self.energy_full as u128)
    }
}

/// Time since boot in hundredths of a day, rounded down.
pub open spec fn centidays(seconds: nat) -> nat {
    seconds / (SECONDS_PER_CENTIDAY as nat)
}

/// The payload for the time since boot: days as a decimal numeral, with a
/// fraction only where there is one and no zero at its end. So one day is
/// `1`, and half a day is `0.5`.
///
/// No more than two decimals are kept, so the text moves in steps of 864
/// seconds, a hundredth of a day; within a step it is cut down to the
/// hundredth below. Where the exact figure has more decimals, a floating
/// point number printed in full would show them; this text does not.
pub fn uptime(seconds: u64) -> (s: String)
    ensures
        s@ == hundredths(centidays(seconds as nat)),
{
    hundredths_text(seconds / SECONDS_PER_CENTIDAY)
}

} // verus!
