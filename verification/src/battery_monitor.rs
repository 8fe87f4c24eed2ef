//! The battery trend estimator.
//!
//! Charge is measured in millionths of a full battery and time in milliseconds
//! on a monotonic clock, so every quantity here is an exact integer.

use vstd::prelude::*;

verus! {

/// A full battery, in millionths.
pub const SOC_FULL: u32 = 1_000_000;

/// How many earlier samples the monitor remembers.
pub const SOC_HISTORY_LENGTH: usize = 5;

/// The age, in milliseconds, from which a remembered sample is old enough to
/// measure a rate against.
pub const RATE_WINDOW_MS: u64 = 10_000;

/// Milliseconds in one hour.
pub const MS_PER_HOUR: u64 = 3_600_000;

/// What the monitor reports after a poll.
#[derive(Debug, Clone, Copy, PartialEq, Eq, Structural)]
pub struct BatteryInfo {
    /// Charge in whole percent, 0 to 100.
    pub percentage: i32,
    /// Net loss of charge in percentage points per hour; negative while the
    /// charge is rising.
    pub discharge_rate_percent: i32,
    pub is_charging: bool,
}

/// One reading of the battery, as the provider reports it.
#[derive(Debug, Clone, Copy, PartialEq, Eq, Structural)]
pub struct RawSample {
    /// State of charge in millionths of a full battery. A reading below empty
    /// or above full is taken as empty or full.
    pub soc: i32,
    /// Whether the provider says the battery is charging.
    pub charging: bool,
    /// Whether the provider could estimate the time until empty.
    pub time_to_empty_known: bool,
}

/// A remembered sample: a state of charge and the time it was taken.
#[derive(Debug, Clone, Copy, PartialEq, Eq, Structural)]
pub struct PreviousBatteryState {
    /// State of charge in millionths, at most `SOC_FULL`.
    pub soc: u32,
    /// Milliseconds on the caller's monotonic clock.
    pub timestamp: u64,
}

/// The least integer `q` with `n <= q * d`, for a positive `d`.
pub open spec fn ceil_div(n: int, d: int) -> int
    recommends
        d > 0,
{
    (n + d - 1) / d
}

/// A reported state of charge with anything below empty taken as empty and
/// anything above full taken as full.
pub open spec fn clamped_soc(soc: int) -> int {
    if soc < 0 {
        0
    } else if soc > SOC_FULL {
        SOC_FULL as int
    } else {
        soc
    }
}

/// The charge in percent, rounded to the nearest whole number, halves upward.
pub open spec fn percentage_of(soc: int) -> int {
    (soc * 100 + SOC_FULL / 2) / (SOC_FULL as int)
}

/// The discharge rate between a remembered sample and the present one, in
/// percentage points per hour, rounded up: the charge lost as a fraction of
/// full, divided by the hours elapsed, times one hundred. Zero when no time
/// has passed.
pub open spec fn rate_between(prev: PreviousBatteryState, soc: int, now: int) -> int {
    if now <= prev.timestamp {
        0
    } else {
        ceil_div((prev.soc - soc) * 100 * MS_PER_HOUR, (now - prev.timestamp) * SOC_FULL)
    }
}

/// `ceil_div(n, d)` is the one integer `q` with `(q - 1) * d < n <= q * d`.
pub proof fn lemma_ceil_div_bounds(n: int, d: int)
    requires
        d > 0,
    ensures
        (ceil_div(n, d) - 1) * d < n <= ceil_div(n, d) * d,
{
    let m = n + d - 1;
    vstd::arithmetic::div_mod::lemma_fundamental_div_mod(m, d);
    vstd::arithmetic::div_mod::lemma_mod_bound(m, d);
    assert(d * (m / d) == (m / d) * d) by (nonlinear_arith);
    assert((m / d - 1) * d == (m / d) * d - d) by (nonlinear_arith);
}

/// Any integer `q` with `(q - 1) * d < n <= q * d` is `ceil_div(n, d)`.
pub proof fn lemma_ceil_div_unique(n: int, d: int, q: int)
    requires
        d > 0,
        (q - 1) * d < n <= q * d,
    ensures
        q == ceil_div(n, d),
{
    lemma_ceil_div_bounds(n, d);
    let c = ceil_div(n, d);
    assert(q == c) by (nonlinear_arith)
        requires
            d > 0,
            (q - 1) * d < n <= q * d,
            (c - 1) * d < n <= c * d,
    ;
}

/// The discharge rate between a remembered sample and the present one.
pub fn discharge_rate_between(prev: PreviousBatteryState, soc: u32, now_ms: u64) -> (rate: i32)
    requires
        prev.soc <= SOC_FULL,
        soc <= SOC_FULL,
    ensures
        rate == rate_between(prev, soc as int, now_ms as int),
        -360_000_000 <= rate <= 360_000_000,
{
    if now_ms <= prev.timestamp {
        return 0;
    }
    let elapsed: u64 = now_ms - prev.timestamp;
    let ghost n = (prev.soc - soc) * 100 * MS_PER_HOUR;
    let ghost d = elapsed * SOC_FULL;
    if prev.soc >= soc {
        let lost: u64 = (prev.soc - soc) as u64 * 360;
        let whole: u64 = lost / elapsed;
        let rate: u64 = if lost % elapsed == 0 { whole } else { whole + 1 };
        proof {
            vstd::arithmetic::div_mod::lemma_fundamental_div_mod(lost as int, elapsed as int);
            vstd::arithmetic::div_mod::lemma_mod_bound(lost as int, elapsed as int);
            let q = rate as int;
            let e = elapsed as int;
            let l = lost as int;
            let w = whole as int;
            assert((q - 1) * e < l <= q * e && q <= l) by (nonlinear_arith)
                requires
                    e > 0,
                    l >= 0,
                    w >= 0,
                    l == e * w + (l % e),
                    0 <= l % e < e,
                    q == if l % e == 0 { w } else { w + 1 },
            ;
            assert((q - 1) * d < n <= q * d) by (nonlinear_arith)
                requires
                    (q - 1) * e < l <= q * e,
                    n == l * 1_000_000,
                    d == e * 1_000_000,
            ;
            lemma_ceil_div_unique(n, d, q);
        }
        rate as i32
    } else {
        let gained: u64 = (soc - prev.soc) as u64 * 360;
        let whole: u64 = gained / elapsed;
        proof {
            vstd::arithmetic::div_mod::lemma_fundamental_div_mod(gained as int, elapsed as int);
            vstd::arithmetic::div_mod::lemma_mod_bound(gained as int, elapsed as int);
            let q = -(whole as int);
            let e = elapsed as int;
            let g = gained as int;
            let w = whole as int;
            assert((q - 1) * e < -g <= q * e && w <= g) by (nonlinear_arith)
                requires
                    e > 0,
                    g >= 0,
                    w >= 0,
                    g == e * w + (g % e),
                    0 <= g % e < e,
                    q == -w,
            ;
            assert((q - 1) * d < n <= q * d) by (nonlinear_arith)
                requires
                    (q - 1) * e < -g <= q * e,
                    n == -g * 1_000_000,
                    d == e * 1_000_000,
            ;
            lemma_ceil_div_unique(n, d, q);
        }
        -(whole as i32)
    }
}

/// Whether a remembered sample is at least `RATE_WINDOW_MS` older than `now`.
pub open spec fn old_enough(state: PreviousBatteryState, now: int) -> bool {
    state.timestamp + RATE_WINDOW_MS <= now
}

/// The position of the oldest remembered sample that is old enough, in a
/// history that runs from the newest sample to the oldest.
pub open spec fn oldest_old_enough(history: Seq<PreviousBatteryState>, now: int) -> Option<int>
    decreases history.len(),
{
    if history.len() == 0 {
        None
    } else if old_enough(history.last(), now) {
        Some(history.len() - 1)
    } else {
        oldest_old_enough(history.drop_last(), now)
    }
}

/// The sample that the rate is measured against: the oldest one that is old
/// enough; where none is, the oldest one there is; none in an empty history.
pub open spec fn reference_state(history: Seq<PreviousBatteryState>, now: int) -> Option<
    PreviousBatteryState,
> {
    if history.len() == 0 {
        None
    } else {
        match oldest_old_enough(history, now) {
            Some(i) => Some(history[i]),
            None => Some(history.last()),
        }
    }
}

/// The discharge rate that a history and a present sample give.
pub open spec fn discharge_rate(history: Seq<PreviousBatteryState>, soc: int, now: int) -> int {
    match reference_state(history, now) {
        Some(prev) => rate_between(prev, soc, now),
        None => 0,
    }
}

/// What `oldest_old_enough` picks: a sample that is old enough with none behind
/// it that is; and nothing exactly when no sample is old enough.
pub proof fn lemma_oldest_old_enough(history: Seq<PreviousBatteryState>, now: int)
    ensures
        match oldest_old_enough(history, now) {
            Some(i) => {
                &&& 0 <= i < history.len()
                &&& old_enough(history[i], now)
                &&& forall|j: int| i < j < history.len() ==> !old_enough(#[trigger] history[j], now)
            },
            None => forall|j: int| 0 <= j < history.len() ==> !old_enough(#[trigger] history[j], now),
        },
    decreases history.len(),
{
    if history.len() > 0 && !old_enough(history.last(), now) {
        let rest = history.drop_last();
        lemma_oldest_old_enough(rest, now);
        match oldest_old_enough(rest, now) {
            Some(i) => {
                assert forall|j: int| i < j < history.len() implies !old_enough(
                    #[trigger] history[j],
                    now,
                ) by {
                    if j < rest.len() {
                        assert(rest[j] == history[j]);
                    }
                }
            },
            None => {
                assert forall|j: int| 0 <= j < history.len() implies !old_enough(
                    #[trigger] history[j],
                    now,
                ) by {
                    if j < rest.len() {
                        assert(rest[j] == history[j]);
                    }
                }
            },
        }
    }
}

/// The sample that the rate is measured against.
pub fn find_reference_state(history: &Vec<PreviousBatteryState>, now_ms: u64) -> (found: Option<
    PreviousBatteryState,
>)
    ensures
        found == reference_state(history@, now_ms as int),
{
    let n = history.len();
    if n == 0 {
        return None;
    }
    let mut i: usize = n;
    proof {
        assert(history@.take(n as int) =~= history@);
    }
    while i > 0
        invariant
            i <= n,
            n == history.len(),
            oldest_old_enough(history@, now_ms as int) == oldest_old_enough(
                history@.take(i as int),
                now_ms as int,
            ),
        decreases i,
    {
        let state = history[i - 1];
        proof {
            assert(history@.take(i as int).last() == state);
            assert(history@.take(i as int).drop_last() =~= history@.take(i - 1));
        }
        if state.timestamp <= now_ms && now_ms - state.timestamp >= RATE_WINDOW_MS {
            return Some(state);
        }
        i -= 1;
    }
    proof {
        assert(history@.take(0).len() == 0);
    }
    Some(history[n - 1])
}

/// Why no reading of the battery could be had.
#[derive(Debug, Clone, Copy, PartialEq, Eq, Structural)]
pub enum ProviderError {
    /// The system offers no battery manager.
    ManagerUnavailable,
    /// The system has no battery.
    NoBattery,
    /// The battery is there, but reading it failed.
    ReadFailed,
}

/// What a monitor remembers between polls.
pub struct MonitorState {
    /// Earlier samples, newest first.
    pub history: Seq<PreviousBatteryState>,
    /// The charging direction that those samples were taken in.
    pub charging: bool,
}

/// A history holds at most `SOC_HISTORY_LENGTH` samples, none above full.
pub open spec fn valid_history(history: Seq<PreviousBatteryState>) -> bool {
    &&& history.len() <= SOC_HISTORY_LENGTH
    &&& forall|i: int| 0 <= i < history.len() ==> (#[trigger] history[i]).soc <= SOC_FULL
}

/// The samples that still count once the provider reports a direction: all of
/// them while the direction stays, none once it has turned.
pub open spec fn usable_history(state: MonitorState, charging: bool) -> Seq<PreviousBatteryState> {
    if charging == state.charging {
        state.history
    } else {
        Seq::empty()
    }
}

/// What a poll reports, from what the monitor remembers and the new sample.
pub open spec fn snapshot(state: MonitorState, sample: RawSample, now: int) -> BatteryInfo {
    let soc = clamped_soc(sample.soc as int);
    let rate = discharge_rate(usable_history(state, sample.charging), soc, now);
    BatteryInfo {
        percentage: percentage_of(soc) as i32,
        discharge_rate_percent: rate as i32,
        is_charging: sample.charging || !sample.time_to_empty_known || rate < 0,
    }
}

/// A history after a sample has been offered to it: unchanged where the newest
/// remembered charge equals the sample's, else with the sample in front and the
/// oldest dropped where that would exceed `SOC_HISTORY_LENGTH`.
pub open spec fn history_after(history: Seq<PreviousBatteryState>, soc: int, now: int) -> Seq<
    PreviousBatteryState,
> {
    if history.len() > 0 && history[0].soc == soc {
        history
    } else {
        let grown = history.insert(0, PreviousBatteryState { soc: soc as u32, timestamp: now as u64 });
        if grown.len() > SOC_HISTORY_LENGTH {
            grown.take(SOC_HISTORY_LENGTH as int)
        } else {
            grown
        }
    }
}

/// What the monitor remembers after a poll.
pub open spec fn next_state(state: MonitorState, sample: RawSample, now: int) -> MonitorState {
    MonitorState {
        history: history_after(
            usable_history(state, sample.charging),
            clamped_soc(sample.soc as int),
            now,
        ),
        charging: sample.charging,
    }
}

/// The trend estimator: a short history of charge samples, all taken in one
/// charging direction.
pub struct BatteryMonitor {
    previous_states: Vec<PreviousBatteryState>,
    previous_is_charging: bool,
}

impl View for BatteryMonitor {
    type V = MonitorState;

    closed spec fn view(&self) -> MonitorState {
        MonitorState { history: self.previous_states@, charging: self.previous_is_charging }
    }
}

impl BatteryMonitor {
    /// The monitor's invariant.
    pub open spec fn wf(&self) -> bool {
        valid_history(self@.history)
    }

    /// A monitor that remembers nothing and takes the battery to be discharging.
    pub fn new() -> (monitor: Self)
        ensures
            monitor.wf(),
            monitor@.history == Seq::<PreviousBatteryState>::empty(),
            !monitor@.charging,
    {
        BatteryMonitor { previous_states: Vec::new(), previous_is_charging: false }
    }

    /// The remembered samples, newest first.
    pub fn previous_states(&self) -> (states: &Vec<PreviousBatteryState>)
        ensures
            states@ == self@.history,
    {
        &self.previous_states
    }

    /// The charging direction of the remembered samples.
    pub fn previous_is_charging(&self) -> (charging: bool)
        ensures
            charging == self@.charging,
    {
        self.previous_is_charging
    }

    /// Takes in one sample, read at `now_ms`, and reports the battery's state.
    ///
    /// The percentage is the sample's own charge, rounded. The rate is measured
    /// against the remembered samples, which are forgotten first if the charging
    /// direction has turned. The battery counts as charging if the provider says
    /// so, if it gives no time to empty, or if the charge is found to rise.
    pub fn update(&mut self, sample: RawSample, now_ms: u64) -> (info: BatteryInfo)
        requires
            old(self).wf(),
        ensures
            final(self).wf(),
            info == snapshot(old(self)@, sample, now_ms as int),
            final(self)@ == next_state(old(self)@, sample, now_ms as int),
            0 <= info.percentage <= 100,
            info.percentage == percentage_of(clamped_soc(sample.soc as int)),
            info.discharge_rate_percent == discharge_rate(
                usable_history(old(self)@, sample.charging),
                clamped_soc(sample.soc as int),
                now_ms as int,
            ),
            info.discharge_rate_percent < 0 ==> info.is_charging,
    {
        let soc: u32 = if sample.soc < 0 {
            0
        } else if sample.soc > 1_000_000 {
            SOC_FULL
        } else {
            sample.soc as u32
        };
        let percentage: i32 = ((soc as u64 * 100 + 500_000) / 1_000_000) as i32;

        if sample.charging != self.previous_is_charging {
            self.previous_states.clear();
            self.previous_is_charging = sample.charging;
        }
        assert(self.previous_states@ == usable_history(old(self)@, sample.charging));
        proof {
            lemma_oldest_old_enough(self.previous_states@, now_ms as int);
        }

        let rate: i32 = match find_reference_state(&self.previous_states, now_ms) {
            Some(prev) => discharge_rate_between(prev, soc, now_ms),
            None => 0,
        };
        let is_charging = sample.charging || !sample.time_to_empty_known || rate < 0;

        let ghost before = self.previous_states@;
        if self.previous_states.len() == 0 || self.previous_states[0].soc != soc {
            self.previous_states.insert(0, PreviousBatteryState { soc, timestamp: now_ms });
            self.previous_states.truncate(SOC_HISTORY_LENGTH);
        }
        assert(self.previous_states@ =~= history_after(before, soc as int, now_ms as int));
        BatteryInfo { percentage, discharge_rate_percent: rate, is_charging }
    }

    /// One poll: hands on the provider's failure and leaves the monitor as it
    /// was, or takes in the sample that was read (see `update`).
    pub fn get_battery_info(
        &mut self,
        reading: Result<RawSample, ProviderError>,
        now_ms: u64,
    ) -> (outcome: Result<BatteryInfo, ProviderError>)
        requires
            old(self).wf(),
        ensures
            final(self).wf(),
            match reading {
                Ok(sample) => {
                    &&& outcome == Ok::<BatteryInfo, ProviderError>(
                        snapshot(old(self)@, sample, now_ms as int),
                    )
                    &&& final(self)@ == next_state(old(self)@, sample, now_ms as int)
                    &&& 0 <= outcome.unwrap().percentage <= 100
                    &&& outcome.unwrap().percentage == percentage_of(
                        clamped_soc(sample.soc as int),
                    )
                    &&& outcome.unwrap().discharge_rate_percent == discharge_rate(
                        usable_history(old(self)@, sample.charging),
                        clamped_soc(sample.soc as int),
                        now_ms as int,
                    )
                    &&& outcome.unwrap().discharge_rate_percent < 0 ==> outcome.unwrap().is_charging
                },
                Err(e) => {
                    &&& outcome == Err::<BatteryInfo, ProviderError>(e)
                    &&& final(self)@ == old(self)@
                },
            },
    {
        match reading {
            Ok(sample) => Ok(self.update(sample, now_ms)),
            Err(e) => Err(e),
        }
    }
}

/// Between two charges from empty to full, the rate lies within what a full
/// battery lost or gained in one millisecond comes to: 360 000 000 points an
/// hour either way.
pub proof fn lemma_rate_between_bounds(prev: PreviousBatteryState, soc: int, now: int)
    requires
        prev.soc <= SOC_FULL,
        0 <= soc <= SOC_FULL,
    ensures
        -360_000_000 <= rate_between(prev, soc, now) <= 360_000_000,
{
    if now > prev.timestamp {
        let n = (prev.soc - soc) * 100 * MS_PER_HOUR;
        let d = (now - prev.timestamp) * SOC_FULL;
        let q = ceil_div(n, d);
        lemma_ceil_div_bounds(n, d);
        assert(-360_000_000 <= q <= 360_000_000) by (nonlinear_arith)
            requires
                d >= 1_000_000,
                -360_000_000_000_000 <= n <= 360_000_000_000_000,
                (q - 1) * d < n <= q * d,
        ;
    }
}

/// The rate that a valid history and a charge from empty to full give fits the
/// 32 bits in which it is reported: it lies within 360 000 000 either way.
pub proof fn lemma_discharge_rate_bounds(history: Seq<PreviousBatteryState>, soc: int, now: int)
    requires
        valid_history(history),
        0 <= soc <= SOC_FULL,
    ensures
        -360_000_000 <= discharge_rate(history, soc, now) <= 360_000_000,
{
    lemma_oldest_old_enough(history, now);
    match reference_state(history, now) {
        Some(prev) => {
            lemma_rate_between_bounds(prev, soc, now);
        },
        None => {},
    }
}

/// The percentage is the whole number nearest to the charge in percent, and
/// lies between 0 and 100 for every charge from empty to full.
pub proof fn lemma_percentage_is_nearest(soc: int)
    requires
        0 <= soc <= SOC_FULL,
    ensures
        0 <= percentage_of(soc) <= 100,
        percentage_of(soc) * SOC_FULL - SOC_FULL / 2 <= soc * 100 < percentage_of(soc) * SOC_FULL
            + SOC_FULL / 2,
{
}

/// A sample in the other charging direction makes the monitor forget: the poll
/// reports a rate of zero, only the new sample is remembered afterwards, and
/// whenever the next rate is measured, it is measured against that sample.
pub proof fn lemma_direction_flip_forgets(state: MonitorState, sample: RawSample, now: int, later: int)
    requires
        sample.charging != state.charging,
        0 <= now <= u64::MAX,
    ensures
        snapshot(state, sample, now).discharge_rate_percent == 0,
        next_state(state, sample, now).charging == sample.charging,
        next_state(state, sample, now).history == seq![
            PreviousBatteryState { soc: clamped_soc(sample.soc as int) as u32, timestamp: now as u64 },
        ],
        reference_state(next_state(state, sample, now).history, later) == Some(
            PreviousBatteryState { soc: clamped_soc(sample.soc as int) as u32, timestamp: now as u64 },
        ),
{
    let first = PreviousBatteryState {
        soc: clamped_soc(sample.soc as int) as u32,
        timestamp: now as u64,
    };
    let history = next_state(state, sample, now).history;
    assert(history =~= seq![first]);
    lemma_oldest_old_enough(history, later);
}

/// Whether the charge lost since a remembered sample is, to within one
/// millionth of a full battery, what a steady loss of `rate` percentage points
/// per hour takes away in that time.
pub open spec fn on_steady_line(prev: PreviousBatteryState, soc: int, now: int, rate: int) -> bool {
    let lost = (prev.soc - soc) * 100 * MS_PER_HOUR;
    let expected = rate * (now - prev.timestamp) * SOC_FULL;
    expected - 100 * MS_PER_HOUR <= lost <= expected + 100 * MS_PER_HOUR
}

/// A steady loss is measured as what it is: against a sample that is old
/// enough and lies on the line of a steady rate, the measured rate is that
/// rate or one more, and it is exactly that rate where the sample lies on the
/// line exactly.
pub proof fn lemma_steady_rate_between(prev: PreviousBatteryState, soc: int, now: int, rate: int)
    requires
        old_enough(prev, now),
        on_steady_line(prev, soc, now, rate),
    ensures
        rate <= rate_between(prev, soc, now) <= rate + 1,
        (prev.soc - soc) * 100 * MS_PER_HOUR == rate * (now - prev.timestamp) * SOC_FULL
            ==> rate_between(prev, soc, now) == rate,
{
    let lost = (prev.soc - soc) * 100 * MS_PER_HOUR;
    let span = (now - prev.timestamp) * SOC_FULL;
    let measured = rate_between(prev, soc, now);
    lemma_ceil_div_bounds(lost, span);
    assert(span >= 10_000_000_000);
    assert(rate * (now - prev.timestamp) * SOC_FULL == rate * span) by (nonlinear_arith)
        requires
            span == (now - prev.timestamp) * SOC_FULL,
    ;
    assert(rate <= measured <= rate + 1) by (nonlinear_arith)
        requires
            span >= 10_000_000_000,
            rate * span - 360_000_000 <= lost <= rate * span + 360_000_000,
            (measured - 1) * span < lost <= measured * span,
    ;
    if lost == rate * span {
        lemma_ceil_div_unique(lost, span, rate);
    }
}

/// Steady loss of charge converges: when every remembered sample is old enough
/// and lies on the line of one steady rate, the poll measures that rate or one
/// more.
pub proof fn lemma_steady_loss_is_measured(
    history: Seq<PreviousBatteryState>,
    soc: int,
    now: int,
    rate: int,
)
    requires
        history.len() > 0,
        forall|i: int|
            0 <= i < history.len() ==> old_enough(#[trigger] history[i], now) && on_steady_line(
                history[i],
                soc,
                now,
                rate,
            ),
    ensures
        rate <= discharge_rate(history, soc, now) <= rate + 1,
{
    lemma_oldest_old_enough(history, now);
    let prev = reference_state(history, now).unwrap();
    lemma_steady_rate_between(prev, soc, now, rate);
}

} // verus!
