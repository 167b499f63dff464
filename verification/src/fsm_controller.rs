//! Fail-safe mode controller: Kelly-safe / Neutral / Robust selection from
//! the red flags raised by the risk layers and the forecast.
//!
//! - Robust:     two or more red flags, or an active flatten cooldown.
//! - Neutral:    exactly one red flag, or no flag but unhealthy funding.
//! - Kelly-safe: no red flag and healthy funding.
//!
//! Scales are in basis points of notional (10_000 = full size); windows are
//! in milliseconds.

use vstd::prelude::*;

verus! {

/// Number of red flags at which the controller goes Robust and flattens.
pub const RED_FLAG_LIMIT: usize = 2;

/// Notional scale in Robust mode (0.4 of full size).
pub const NOTIONAL_SCALE_ROBUST_BPS: u32 = 4000;

/// Length of an emergency flatten.
pub const EMERGENCY_FLATTEN_SECONDS: i64 = 120;

/// Retry budget in Robust mode.
pub const RETRY_BUDGET_ROBUST: u32 = 1;

/// Immediate-or-cancel window in Robust mode.
pub const IOC_WINDOW_ROBUST_MS: u32 = 80;

/// Immediate-or-cancel window in Neutral mode.
pub const IOC_WINDOW_NEUTRAL_MS: u32 = 140;

/// Immediate-or-cancel window in Kelly-safe mode.
pub const IOC_WINDOW_KELLY_MS: u32 = 180;

/// Operating mode of the controller.
#[derive(Debug, Clone, Copy, PartialEq, Eq, Structural)]
pub enum Mode {
    KellySafe,
    Neutral,
    Robust,
}

/// One risk layer's report.
#[derive(Debug, Clone)]
pub struct RiskReport {
    pub layer: String,
    pub red_flag: bool,
}

/// The controller's decision for one tick.
#[derive(Debug)]
pub struct FsmDecision {
    pub mode: Mode,
    pub red_flags_fired: Vec<String>,
    /// Notional scale in basis points of full size.
    pub notional_scale_bps: u32,
    pub emergency_flatten: bool,
    pub emergency_flatten_seconds: i64,
    pub retry_budget: u32,
    /// Immediate-or-cancel window in milliseconds.
    pub ioc_window_ms: u32,
    pub rationale: String,
}

/// State carried between ticks.
#[derive(Debug, Clone, Copy, PartialEq, Eq, Structural)]
pub struct FsmState {
    pub mode: Option<Mode>,
    /// Time (unix milliseconds) of the last Robust tick.
    pub last_flatten_at_ms: i64,
}

impl FsmState {
    /// Initial state: no mode yet.
    pub fn new() -> (r: Self)
        ensures
            r.mode is None,
            r.last_flatten_at_ms == 0,
    {
        FsmState { mode: None, last_flatten_at_ms: 0 }
    }
}

/// Layers of the red-flagged reports, in report order.
pub open spec fn spec_red_layers(reports: Seq<RiskReport>) -> Seq<Seq<char>>
    decreases reports.len(),
{
    if reports.len() == 0 {
        Seq::empty()
    } else {
        let prev = spec_red_layers(reports.drop_last());
        if reports.last().red_flag {
            prev.push(reports.last().layer@)
        } else {
            prev
        }
    }
}

/// Fired flags: the red-flagged layers, then "forecast" when the forecast flag is set.
pub open spec fn spec_collect_flags(reports: Seq<RiskReport>, forecast_flag: bool) -> Seq<Seq<char>> {
    if forecast_flag {
        spec_red_layers(reports).push("forecast"@)
    } else {
        spec_red_layers(reports)
    }
}

/// Views of a list of strings.
pub open spec fn spec_strings(v: Seq<String>) -> Seq<Seq<char>> {
    v.map_values(|s: String| s@)
}

/// Name for the debug rendering of a list of strings (`["a", "b"]`).
pub uninterp spec fn debug_rendering(items: Seq<Seq<char>>) -> Seq<char>;

/// Debug rendering of a list of strings. Calls `format!("{:?}", ..)` of std;
/// the contract only names the result, which depends on the strings alone.
#[verifier::external_body]
fn render_debug_list(items: &Vec<String>) -> (r: String)
    ensures
        r@ == debug_rendering(spec_strings(items@)),
{
    format!("{:?}", items)
}

/// The red-flagged layers, then "forecast" when `forecast_flag` is set.
pub fn collect_flags(reports: &[RiskReport], forecast_flag: bool) -> (r: Vec<String>)
    ensures
        spec_strings(r@) == spec_collect_flags(reports@, forecast_flag),
{
    let mut fired: Vec<String> = Vec::new();
    let mut i: usize = 0;
    while i < reports.len()
        invariant
            i <= reports@.len(),
            spec_strings(fired@) == spec_red_layers(reports@.take(i as int)),
        decreases reports@.len() - i,
    {
        proof {
            assert(reports@.take(i + 1).drop_last() =~= reports@.take(i as int));
        }
        if reports[i].red_flag {
            fired.push(reports[i].layer.clone());
            proof {
                assert(spec_strings(fired@) =~= spec_strings(fired@.drop_last()).push(reports@[i as int].layer@));
            }
        }
        i = i + 1;
    }
    proof {
        assert(reports@.take(reports@.len() as int) =~= reports@);
    }
    if forecast_flag {
        fired.push(String::from_str("forecast"));
        proof {
            assert(spec_strings(fired@) =~= spec_strings(fired@.drop_last()).push("forecast"@));
        }
    }
    fired
}

/// Mode the controller picks from the number of fired flags.
pub open spec fn spec_mode(n_fired: nat, funding_healthy: bool, cooldown_active: bool) -> Mode {
    if n_fired >= RED_FLAG_LIMIT || cooldown_active {
        Mode::Robust
    } else if n_fired == 1 || !funding_healthy {
        Mode::Neutral
    } else {
        Mode::KellySafe
    }
}

/// What the controller decides on a tick, by the reports, the forecast
/// flag, funding health and the cooldown.
pub open spec fn spec_step_decision(
    reports: Seq<RiskReport>,
    forecast_flag: bool,
    funding_healthy: bool,
    cooldown_active: bool,
    d: FsmDecision,
) -> bool {
    let fired = spec_collect_flags(reports, forecast_flag);
    let n = fired.len();
    let robust = n >= RED_FLAG_LIMIT || cooldown_active;
    &&& d.mode == spec_mode(n, funding_healthy, cooldown_active)
    &&& spec_strings(d.red_flags_fired@) == fired
    &&& d.emergency_flatten == (n >= RED_FLAG_LIMIT)
    &&& d.emergency_flatten_seconds == if robust { EMERGENCY_FLATTEN_SECONDS } else { 0 }
    &&& d.notional_scale_bps == if robust {
        NOTIONAL_SCALE_ROBUST_BPS
    } else if n == 1 {
        7500
    } else if funding_healthy {
        10000
    } else {
        8500
    }
    &&& d.retry_budget == if robust {
        RETRY_BUDGET_ROBUST
    } else if n == 1 {
        2
    } else if funding_healthy {
        3
    } else {
        2
    }
    &&& d.ioc_window_ms == if robust {
        IOC_WINDOW_ROBUST_MS
    } else if n == 1 {
        IOC_WINDOW_NEUTRAL_MS
    } else if funding_healthy {
        IOC_WINDOW_KELLY_MS
    } else {
        IOC_WINDOW_NEUTRAL_MS
    }
    &&& d.rationale@ == if robust {
        if n >= RED_FLAG_LIMIT {
            "red_flags\u{2265}2: "@ + debug_rendering(fired)
        } else {
            "cooldown_active"@
        }
    } else if n == 1 {
        "1 red flag: "@ + fired[0]
    } else if funding_healthy {
        "all green + funding healthy"@
    } else {
        "clean but funding unhealthy"@
    }
}

/// The controller's state after a tick: it records the mode, and the time
/// of the tick when it went Robust.
pub open spec fn spec_step_state(
    before: FsmState,
    now_ms: i64,
    reports: Seq<RiskReport>,
    forecast_flag: bool,
    cooldown_active: bool,
    mode: Mode,
    after: FsmState,
) -> bool {
    let n = spec_collect_flags(reports, forecast_flag).len();
    let robust = n >= RED_FLAG_LIMIT || cooldown_active;
    &&& after.mode == Some(mode)
    &&& after.last_flatten_at_ms == if robust {
        now_ms
    } else {
        before.last_flatten_at_ms
    }
}

/// Advance the controller by one tick at `now_ms`.
///
/// `cooldown_active`: the caller has an emergency-flatten timer running; the
/// controller stays Robust until the caller clears it.
pub fn step(
    state: &mut FsmState,
    now_ms: i64,
    reports: &[RiskReport],
    forecast_flag: bool,
    funding_healthy: bool,
    cooldown_active: bool,
) -> (d: FsmDecision)
    ensures
        spec_step_decision(reports@, forecast_flag, funding_healthy, cooldown_active, d),
        spec_step_state(*old(state), now_ms, reports@, forecast_flag, cooldown_active, d.mode, *final(state)),
{
    let fired = collect_flags(reports, forecast_flag);
    let n_fired = fired.len();
    if n_fired >= RED_FLAG_LIMIT || cooldown_active {
        state.mode = Some(Mode::Robust);
        state.last_flatten_at_ms = now_ms;
        let emergency = n_fired >= RED_FLAG_LIMIT;
        let rationale = if emergency {
            let rendered = render_debug_list(&fired);
            String::from_str("red_flags\u{2265}2: ").concat(rendered.as_str())
        } else {
            String::from_str("cooldown_active")
        };
        return FsmDecision {
            mode: Mode::Robust,
            red_flags_fired: fired,
            notional_scale_bps: NOTIONAL_SCALE_ROBUST_BPS,
            emergency_flatten: emergency,
            emergency_flatten_seconds: EMERGENCY_FLATTEN_SECONDS,
            retry_budget: RETRY_BUDGET_ROBUST,
            ioc_window_ms: IOC_WINDOW_ROBUST_MS,
            rationale,
        };
    }
    if n_fired == 1 {
        state.mode = Some(Mode::Neutral);
        let rationale = String::from_str("1 red flag: ").concat(fired[0].as_str());
        return FsmDecision {
            mode: Mode::Neutral,
            red_flags_fired: fired,
            notional_scale_bps: 7500,
            emergency_flatten: false,
            emergency_flatten_seconds: 0,
            retry_budget: 2,
            ioc_window_ms: IOC_WINDOW_NEUTRAL_MS,
            rationale,
        };
    }
    proof {
        assert(spec_strings(Seq::<String>::empty()) =~= spec_collect_flags(reports@, forecast_flag));
    }
    if funding_healthy {
        state.mode = Some(Mode::KellySafe);
        return FsmDecision {
            mode: Mode::KellySafe,
            red_flags_fired: Vec::new(),
            notional_scale_bps: 10000,
            emergency_flatten: false,
            emergency_flatten_seconds: 0,
            retry_budget: 3,
            ioc_window_ms: IOC_WINDOW_KELLY_MS,
            rationale: String::from_str("all green + funding healthy"),
        };
    }
    state.mode = Some(Mode::Neutral);
    FsmDecision {
        mode: Mode::Neutral,
        red_flags_fired: Vec::new(),
        notional_scale_bps: 8500,
        emergency_flatten: false,
        emergency_flatten_seconds: 0,
        retry_budget: 2,
        ioc_window_ms: IOC_WINDOW_NEUTRAL_MS,
        rationale: String::from_str("clean but funding unhealthy"),
    }
}

/// The reports that carry a red flag, in report order.
pub open spec fn red_reports(reports: Seq<RiskReport>) -> Seq<RiskReport> {
    reports.filter(|x: RiskReport| x.red_flag)
}

/// Layer names of reports, in order.
pub open spec fn layer_names(reports: Seq<RiskReport>) -> Seq<Seq<char>> {
    reports.map_values(|x: RiskReport| x.layer@)
}

proof fn lemma_red_layers_are_red_reports(reports: Seq<RiskReport>)
    ensures
        spec_red_layers(reports) == layer_names(red_reports(reports)),
    decreases reports.len(),
{
    if reports.len() > 0 {
        let t = reports.drop_last();
        lemma_red_layers_are_red_reports(t);
        let pred = |x: RiskReport| x.red_flag;
        assert(t.push(reports.last()) =~= reports);
        t.lemma_filter_push(reports.last(), pred);
        if reports.last().red_flag {
            assert(layer_names(red_reports(t).push(reports.last())) =~= layer_names(
                red_reports(t),
            ).push(reports.last().layer@));
        }
    } else {
        reveal(Seq::filter);
        assert(layer_names(red_reports(reports)) =~= Seq::<Seq<char>>::empty());
    }
}

/// The flags fired on a tick are the layers of the red reports, in report
/// order, then "forecast" exactly when the forecast flag is set, whether or
/// not any layer is red.
pub proof fn lemma_fired_flags(reports: Seq<RiskReport>, forecast_flag: bool)
    ensures
        spec_collect_flags(reports, forecast_flag) == layer_names(red_reports(reports)) + (if forecast_flag {
            seq!["forecast"@]
        } else {
            Seq::<Seq<char>>::empty()
        }),
        spec_collect_flags(reports, forecast_flag).len() == red_reports(reports).len() + (if forecast_flag {
            1int
        } else {
            0int
        }),
        forecast_flag ==> spec_collect_flags(reports, forecast_flag).last() == "forecast"@,
{
    lemma_red_layers_are_red_reports(reports);
    let l = layer_names(red_reports(reports));
    assert(l.len() == red_reports(reports).len());
    if forecast_flag {
        assert(l.push("forecast"@) =~= l + seq!["forecast"@]);
    } else {
        assert(l =~= l + Seq::<Seq<char>>::empty());
    }
}

/// The mode the controller takes, by its inputs: with `k` red reports and
/// the forecast flag counted as one more flag, Robust when at least two
/// flags fire or a cooldown runs; otherwise Neutral when exactly one flag
/// fires or funding is unhealthy; Kelly-safe only with no red report, no
/// forecast flag, healthy funding and no cooldown.
pub proof fn lemma_mode_by_inputs(
    reports: Seq<RiskReport>,
    forecast_flag: bool,
    funding_healthy: bool,
    cooldown_active: bool,
)
    ensures
        ({
            let k = red_reports(reports).len() + (if forecast_flag { 1int } else { 0int });
            let mode = spec_mode(
                spec_collect_flags(reports, forecast_flag).len(),
                funding_healthy,
                cooldown_active,
            );
            &&& (mode == Mode::Robust) <==> (k >= 2 || cooldown_active)
            &&& (mode == Mode::Neutral) <==> (!(k >= 2 || cooldown_active) && (k == 1
                || !funding_healthy))
            &&& (mode == Mode::KellySafe) <==> (k == 0 && funding_healthy && !cooldown_active)
            &&& (forecast_flag && red_reports(reports).len() == 0 && !cooldown_active) ==> mode
                == Mode::Neutral
        }),
{
    lemma_fired_flags(reports, forecast_flag);
}

/// Number of flags a tick raises: one per red report, one more for the
/// forecast flag.
pub open spec fn flags_raised(reports: Seq<RiskReport>, forecast_flag: bool) -> int {
    red_reports(reports).len() + if forecast_flag {
        1int
    } else {
        0int
    }
}

/// The controller's decision by its inputs, with `k` flags raised:
/// - two or more flags: emergency flatten, Robust at 0.4 size, one retry,
///   an 80 ms IOC window, a 120 s flatten;
/// - a cooldown alone: Robust with the same settings, no emergency flatten;
/// - exactly one flag: Neutral at 0.75 size, two retries, 140 ms, and the
///   rationale names that flag;
/// - no flag: Kelly-safe at full size, three retries, 180 ms when funding is
///   healthy, else Neutral at 0.85 size, two retries, 140 ms;
/// and the flags reported are the red layers then "forecast" when set.
pub proof fn lemma_step_by_inputs(
    reports: Seq<RiskReport>,
    forecast_flag: bool,
    funding_healthy: bool,
    cooldown_active: bool,
    d: FsmDecision,
)
    requires
        spec_step_decision(reports, forecast_flag, funding_healthy, cooldown_active, d),
    ensures
        ({
            let k = flags_raised(reports, forecast_flag);
            &&& spec_strings(d.red_flags_fired@) == layer_names(red_reports(reports)) + (if forecast_flag {
                seq!["forecast"@]
            } else {
                Seq::<Seq<char>>::empty()
            })
            &&& d.emergency_flatten <==> k >= 2
            &&& (k >= 2 || cooldown_active) ==> (d.mode == Mode::Robust && d.notional_scale_bps
                == 4000 && d.retry_budget == 1 && d.ioc_window_ms == 80
                && d.emergency_flatten_seconds == 120)
            &&& (k == 1 && !cooldown_active) ==> (d.mode == Mode::Neutral && d.notional_scale_bps
                == 7500 && d.retry_budget == 2 && d.ioc_window_ms == 140
                && d.emergency_flatten_seconds == 0 && d.rationale@ == "1 red flag: "@ + (if forecast_flag {
                "forecast"@
            } else {
                red_reports(reports)[0].layer@
            }))
            &&& (k == 0 && !cooldown_active && funding_healthy) ==> (d.mode == Mode::KellySafe
                && d.notional_scale_bps == 10000 && d.retry_budget == 3 && d.ioc_window_ms == 180
                && d.emergency_flatten_seconds == 0 && d.rationale@ == "all green + funding healthy"@)
            &&& (k == 0 && !cooldown_active && !funding_healthy) ==> (d.mode == Mode::Neutral
                && d.notional_scale_bps == 8500 && d.retry_budget == 2 && d.ioc_window_ms == 140
                && d.emergency_flatten_seconds == 0 && d.rationale@ == "clean but funding unhealthy"@)
            &&& (k < 2 && cooldown_active) ==> d.rationale@ == "cooldown_active"@
            &&& k >= 2 ==> d.rationale@ == "red_flags\u{2265}2: "@ + debug_rendering(
                spec_strings(d.red_flags_fired@),
            )
        }),
{
    lemma_fired_flags(reports, forecast_flag);
    lemma_mode_by_inputs(reports, forecast_flag, funding_healthy, cooldown_active);
    let fired = spec_collect_flags(reports, forecast_flag);
    let l = layer_names(red_reports(reports));
    if flags_raised(reports, forecast_flag) == 1 {
        if forecast_flag {
            assert(l.len() == 0);
            assert(fired[0] == (l + seq!["forecast"@])[0]);
        } else {
            assert(fired[0] == (l + Seq::<Seq<char>>::empty())[0]);
            assert(l[0] == red_reports(reports)[0].layer@);
        }
    }
}

/// More flags never loosen the controller: for the same funding health and
/// cooldown, a tick that raises at least as many flags as another gets no
/// larger size, no more retries, no longer IOC window, and an emergency
/// flatten whenever the other one does.
pub proof fn lemma_step_tightens_with_flags(
    r1: Seq<RiskReport>,
    f1: bool,
    r2: Seq<RiskReport>,
    f2: bool,
    funding_healthy: bool,
    cooldown_active: bool,
    d1: FsmDecision,
    d2: FsmDecision,
)
    requires
        spec_step_decision(r1, f1, funding_healthy, cooldown_active, d1),
        spec_step_decision(r2, f2, funding_healthy, cooldown_active, d2),
        flags_raised(r1, f1) <= flags_raised(r2, f2),
    ensures
        d2.notional_scale_bps <= d1.notional_scale_bps,
        d2.retry_budget <= d1.retry_budget,
        d2.ioc_window_ms <= d1.ioc_window_ms,
        d1.emergency_flatten ==> d2.emergency_flatten,
{
    lemma_step_by_inputs(r1, f1, funding_healthy, cooldown_active, d1);
    lemma_step_by_inputs(r2, f2, funding_healthy, cooldown_active, d2);
}

/// The controller's state after a tick, by its inputs: the mode decided is
/// recorded; the flatten time moves to the tick's time exactly when two or
/// more flags are raised or a cooldown runs, and stays otherwise.
pub proof fn lemma_step_state_by_inputs(
    before: FsmState,
    now_ms: i64,
    reports: Seq<RiskReport>,
    forecast_flag: bool,
    funding_healthy: bool,
    cooldown_active: bool,
    d: FsmDecision,
    after: FsmState,
)
    requires
        spec_step_decision(reports, forecast_flag, funding_healthy, cooldown_active, d),
        spec_step_state(before, now_ms, reports, forecast_flag, cooldown_active, d.mode, after),
    ensures
        after.mode == Some(d.mode),
        (flags_raised(reports, forecast_flag) >= 2 || cooldown_active) ==> after.last_flatten_at_ms
            == now_ms && after.mode == Some(Mode::Robust),
        !(flags_raised(reports, forecast_flag) >= 2 || cooldown_active) ==> after.last_flatten_at_ms
            == before.last_flatten_at_ms && after.mode != Some(Mode::Robust),
{
    lemma_step_by_inputs(reports, forecast_flag, funding_healthy, cooldown_active, d);
    lemma_mode_by_inputs(reports, forecast_flag, funding_healthy, cooldown_active);
}

} // verus!
