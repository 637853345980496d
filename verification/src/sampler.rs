//! The sampler: one sample per tick, and samples coalesced into spans.
use crate::mac::{frontmost_window_title, FrontmostApp, WindowInfo};
use crate::text::{copied, same_text};
use vstd::prelude::*;

verus! {

/// How the sampler runs.
pub struct Config {
    /// Milliseconds between two ticks.
    pub interval_ms: u128,
    /// Milliseconds of input silence after which a span flips from active to
    /// idle.
    pub idle_threshold_ms: u128,
}

/// What the user was doing at a tick.
#[derive(Clone, Copy, PartialEq, Eq, Structural, Debug)]
pub enum SpanState {
    /// Using the machine.
    Active,
    /// Away from keyboard and mouse.
    Idle,
    /// Behind a locked screen.
    Locked,
}

/// The word for a state in the `spans` table.
pub open spec fn state_word(state: SpanState) -> Seq<char> {
    match state {
        SpanState::Active => "active"@,
        SpanState::Idle => "idle"@,
        SpanState::Locked => "locked"@,
    }
}

impl SpanState {
    /// The word for this state in the `spans` table.
    pub fn as_str(&self) -> (word: &'static str)
        ensures
            word@ == state_word(*self),
    {
        match self {
            SpanState::Active => "active",
            SpanState::Idle => "idle",
            SpanState::Locked => "locked",
        }
    }
}

/// What a tick observed: one row of the `samples` table.
pub struct Sample {
    pub ts_ms: i64,
    pub bundle_id: Option<String>,
    pub app_name: Option<String>,
    pub pid: Option<i32>,
    pub window_title: Option<String>,
    pub idle_ms: i64,
    pub locked: bool,
}

/// What two ticks must share to belong to one span.
pub struct SpanKey {
    pub state: SpanState,
    pub bundle_id: Option<String>,
    pub app_name: Option<String>,
    pub window_title: Option<String>,
}

/// A span key, with its texts as character sequences.
#[verifier::ext_equal]
pub struct KeyView {
    pub state: SpanState,
    pub bundle_id: Option<Seq<char>>,
    pub app_name: Option<Seq<char>>,
    pub window_title: Option<Seq<char>>,
}

impl View for SpanKey {
    type V = KeyView;

    open spec fn view(&self) -> KeyView {
        KeyView {
            state: self.state,
            bundle_id: self.bundle_id.deep_view(),
            app_name: self.app_name.deep_view(),
            window_title: self.window_title.deep_view(),
        }
    }
}

/// A span that the next tick may extend.
pub struct OpenSpan {
    /// Its row in the `spans` table.
    pub id: i64,
    pub key: SpanKey,
    /// The last tick that it covers.
    pub last_ms: i64,
}

/// An open span, with its key as a mathematical value.
pub struct OpenView {
    pub id: i64,
    pub key: KeyView,
    pub last_ms: int,
}

impl View for OpenSpan {
    type V = OpenView;

    open spec fn view(&self) -> OpenView {
        OpenView { id: self.id, key: self.key@, last_ms: self.last_ms as int }
    }
}

/// The view of an open span that may be missing.
pub open spec fn open_view(open: Option<OpenSpan>) -> Option<OpenView> {
    match open {
        Some(span) => Some(span@),
        None => None,
    }
}

/// A span to be inserted, which starts and so far ends at `start_ms`.
pub struct NewSpan {
    pub start_ms: i64,
    pub key: SpanKey,
}

/// What a tick does to the `spans` table.
pub enum SpanStep {
    /// Move the end of the row `id` of the span to its `last_ms`; the span
    /// stays open.
    Extend(OpenSpan),
    /// Insert a row.
    Start(NewSpan),
}

/// The longest pause between two ticks of one span: three intervals, counted in
/// 64-bit milliseconds.
pub open spec fn gap_limit(config: Config) -> int {
    3 * (config.interval_ms as i64)
}

/// The longest pause between two ticks of one span. A longer one (sleep, crash)
/// closes the span at its last observed end instead of stretching it across the
/// gap.
pub fn max_gap_ms(config: &Config) -> (gap: i64)
    requires
        i64::MIN <= gap_limit(*config) <= i64::MAX,
    ensures
        gap == gap_limit(*config),
{
    3 * (#[verifier::truncate] (config.interval_ms as i64))
}

/// Puts together what a tick observed. `windows` are the on-screen windows from
/// front to back; they matter only where there is a frontmost app.
pub fn sample(
    ts_ms: i64,
    idle_ms: u64,
    locked: bool,
    app: &Option<FrontmostApp>,
    windows: &Option<Vec<WindowInfo>>,
) -> (sample: Sample)
    ensures
        sample.ts_ms == ts_ms,
        sample.idle_ms == idle_ms as i64,
        sample.locked == locked,
        match *app {
            Some(front) => {
                &&& sample.bundle_id.deep_view() == front.bundle_id.deep_view()
                &&& sample.app_name.deep_view() == front.name.deep_view()
                &&& sample.pid == Some(front.pid)
                &&& crate::mac::frontmost_title(
                    match *windows {
                        Some(list) => Some(list@),
                        None => None,
                    },
                    front.pid,
                    sample.window_title.deep_view(),
                )
            },
            None => {
                &&& sample.bundle_id is None
                &&& sample.app_name is None
                &&& sample.pid is None
                &&& sample.window_title is None
            },
        },
{
    let idle: i64 = #[verifier::truncate] (idle_ms as i64);
    match app {
        Some(front) => Sample {
            ts_ms,
            bundle_id: copied(&front.bundle_id),
            app_name: copied(&front.name),
            pid: Some(front.pid),
            window_title: frontmost_window_title(windows, front.pid),
            idle_ms: idle,
            locked,
        },
        None => Sample {
            ts_ms,
            bundle_id: None,
            app_name: None,
            pid: None,
            window_title: None,
            idle_ms: idle,
            locked,
        },
    }
}

/// The state of a tick: a locked screen wins over silence, silence over use. The
/// silence and its threshold are compared as numbers, however large the
/// threshold is.
pub open spec fn state_of(sample: Sample, config: Config) -> SpanState {
    if sample.locked {
        SpanState::Locked
    } else if sample.idle_ms >= config.idle_threshold_ms {
        SpanState::Idle
    } else {
        SpanState::Active
    }
}

/// The key of a tick. Idle and locked keys are app-agnostic, so that a lunch
/// break is one span and not a series keyed by whatever window was left
/// frontmost.
pub open spec fn key_of(sample: Sample, config: Config) -> KeyView {
    let state = state_of(sample, config);
    if state == SpanState::Active {
        KeyView {
            state,
            bundle_id: sample.bundle_id.deep_view(),
            app_name: sample.app_name.deep_view(),
            window_title: sample.window_title.deep_view(),
        }
    } else {
        KeyView { state, bundle_id: None, app_name: None, window_title: None }
    }
}

/// The key under which a tick is coalesced.
pub fn span_key(sample: &Sample, config: &Config) -> (key: SpanKey)
    ensures
        key@ == key_of(*sample, *config),
{
    if sample.locked {
        SpanKey { state: SpanState::Locked, bundle_id: None, app_name: None, window_title: None }
    } else if sample.idle_ms >= 0 && sample.idle_ms as u128 >= config.idle_threshold_ms {
        SpanKey { state: SpanState::Idle, bundle_id: None, app_name: None, window_title: None }
    } else {
        SpanKey {
            state: SpanState::Active,
            bundle_id: copied(&sample.bundle_id),
            app_name: copied(&sample.app_name),
            window_title: copied(&sample.window_title),
        }
    }
}

fn same_option(a: &Option<String>, b: &Option<String>) -> (same: bool)
    ensures
        same == (a.deep_view() == b.deep_view()),
{
    match (a, b) {
        (Some(a), Some(b)) => same_text(a.as_str(), b.as_str()),
        (None, None) => true,
        _ => false,
    }
}

impl SpanKey {
    /// Whether two keys are equal.
    pub fn same(&self, other: &SpanKey) -> (same: bool)
        ensures
            same == (self@ == other@),
    {
        self.state == other.state && same_option(&self.bundle_id, &other.bundle_id)
            && same_option(&self.app_name, &other.app_name) && same_option(
            &self.window_title,
            &other.window_title,
        )
    }
}

/// Whether a tick extends the open span: there is one, under the same key, and
/// the pause since its last tick is not too long.
pub open spec fn continues(open: Option<OpenView>, key: KeyView, ts: int, max_gap: int) -> bool {
    match open {
        Some(span) => span.key == key && ts - span.last_ms <= max_gap,
        None => false,
    }
}

/// Whether `step` is what the tick at `ts` under `key` does to the `spans`
/// table.
pub open spec fn is_step(
    open: Option<OpenSpan>,
    key: KeyView,
    ts: i64,
    max_gap_ms: i64,
    step: SpanStep,
) -> bool {
    let extends = continues(open_view(open), key, ts as int, max_gap_ms as int);
    match step {
        SpanStep::Extend(span) => extends && span@ == OpenView { last_ms: ts as int, ..open->0@ },
        SpanStep::Start(new) => !extends && new.start_ms == ts && new.key@ == key,
    }
}

/// Decides what the tick at `ts` under `key` does to the `spans` table.
pub fn advance_span(open: Option<OpenSpan>, key: SpanKey, ts: i64, max_gap_ms: i64) -> (step:
    SpanStep)
    requires
        open matches Some(span) ==> (span.key@ == key@ ==> i64::MIN <= ts - span.last_ms
            <= i64::MAX),
    ensures
        is_step(open, key@, ts, max_gap_ms, step),
{
    if let Some(span) = open {
        if span.key.same(&key) && ts - span.last_ms <= max_gap_ms {
            return SpanStep::Extend(OpenSpan { id: span.id, key: span.key, last_ms: ts });
        }
    }
    SpanStep::Start(NewSpan { start_ms: ts, key })
}

impl NewSpan {
    /// The span once the table has it, as the row `id`: open, and so far no
    /// longer than its first tick.
    pub fn inserted(self, id: i64) -> (span: OpenSpan)
        ensures
            span@ == (OpenView { id, key: self.key@, last_ms: self.start_ms as int }),
    {
        OpenSpan { id, key: self.key, last_ms: self.start_ms }
    }
}

/// A pause of exactly three intervals is the longest that a span survives, so
/// that a tick that comes one interval after the last never comes too late.
pub proof fn law_the_longest_pause_is_three_intervals(config: Config, gap: i64)
    requires
        call_ensures(max_gap_ms, (&config,), gap),
        3 * config.interval_ms <= i64::MAX,
    ensures
        gap == config.interval_ms + config.interval_ms + config.interval_ms,
        gap >= config.interval_ms,
{
}

/// Whatever the interval, the longest pause is three of them but for whole
/// multiples of the 64-bit range, in which it is counted.
pub proof fn law_the_longest_pause_wraps_at_64_bits(config: Config, gap: i64)
    requires
        call_ensures(max_gap_ms, (&config,), gap),
    ensures
        (3 * config.interval_ms - gap) % 0x1_0000_0000_0000_0000 == 0,
{
    let interval = config.interval_ms;
    assert((interval - (interval as i64)) % 0x1_0000_0000_0000_0000 == 0) by (bit_vector);
}

/// A tick of an unlocked screen whose silence is below the threshold is active,
/// and its key names the app and the window that the tick saw, each as it was.
pub proof fn law_an_active_key_names_app_and_window(sample: Sample, config: Config, key: SpanKey)
    requires
        call_ensures(span_key, (&sample, &config), key),
        !sample.locked,
        sample.idle_ms < config.idle_threshold_ms,
    ensures
        key.state == SpanState::Active,
        key.bundle_id.deep_view() == sample.bundle_id.deep_view(),
        key.app_name.deep_view() == sample.app_name.deep_view(),
        key.window_title.deep_view() == sample.window_title.deep_view(),
{
}

/// A tick of a locked screen, or of an unlocked one that has been silent for as
/// long as the threshold, names no app and no window; the lock decides which of
/// the two states it has.
pub proof fn law_a_break_key_names_nothing(sample: Sample, config: Config, key: SpanKey)
    requires
        call_ensures(span_key, (&sample, &config), key),
        sample.locked || sample.idle_ms >= config.idle_threshold_ms,
    ensures
        sample.locked ==> key.state == SpanState::Locked,
        !sample.locked ==> key.state == SpanState::Idle,
        key.bundle_id is None,
        key.app_name is None,
        key.window_title is None,
{
}

/// Two active ticks have the same key if and only if they saw the same app, by
/// both its names, and the same window title.
pub proof fn law_active_keys_differ_with_what_was_seen(
    first: Sample,
    second: Sample,
    config: Config,
    first_key: SpanKey,
    second_key: SpanKey,
)
    requires
        call_ensures(span_key, (&first, &config), first_key),
        call_ensures(span_key, (&second, &config), second_key),
        !first.locked,
        !second.locked,
        first.idle_ms < config.idle_threshold_ms,
        second.idle_ms < config.idle_threshold_ms,
    ensures
        first_key@ == second_key@ <==> {
            &&& first.bundle_id.deep_view() == second.bundle_id.deep_view()
            &&& first.app_name.deep_view() == second.app_name.deep_view()
            &&& first.window_title.deep_view() == second.window_title.deep_view()
        },
{
}

/// A sample holds what was observed: the time, the silence and the lock as they
/// were read, and of the frontmost app its names, its process and the title of
/// its frontmost window; nothing of an app where none is in front.
pub proof fn law_a_sample_holds_what_was_observed(
    ts_ms: i64,
    idle_ms: u64,
    locked: bool,
    app: Option<FrontmostApp>,
    windows: Option<Vec<WindowInfo>>,
    seen: Sample,
)
    requires
        call_ensures(sample, (ts_ms, idle_ms, locked, &app, &windows), seen),
    ensures
        seen.ts_ms == ts_ms,
        idle_ms <= i64::MAX ==> seen.idle_ms == idle_ms,
        idle_ms > i64::MAX ==> seen.idle_ms == idle_ms - 0x1_0000_0000_0000_0000,
        seen.locked == locked,
        app matches Some(front) ==> {
            &&& seen.bundle_id.deep_view() == front.bundle_id.deep_view()
            &&& seen.app_name.deep_view() == front.name.deep_view()
            &&& seen.pid == Some(front.pid)
            &&& forall|title: Option<String>| #[trigger]
                call_ensures(frontmost_window_title, (&windows, front.pid), title)
                    ==> seen.window_title.deep_view() == title.deep_view()
        },
        app is None ==> {
            &&& seen.bundle_id is None
            &&& seen.app_name is None
            &&& seen.pid is None
            &&& seen.window_title is None
        },
{
    assert(idle_ms > i64::MAX ==> idle_ms as i64 == idle_ms - 0x1_0000_0000_0000_0000)
        by (bit_vector);
    if let Some(front) = app {
        let list = match windows {
            Some(list) => Some(list@),
            None => None,
        };
        assert forall|title: Option<String>| #[trigger]
            call_ensures(
                frontmost_window_title,
                (&windows, front.pid),
                title,
            ) implies seen.window_title.deep_view() == title.deep_view() by {
            crate::mac::lemma_one_title(
                list,
                front.pid,
                seen.window_title.deep_view(),
                title.deep_view(),
            );
        }
    }
}

/// Keys are the same if and only if they agree in the state, in both names of
/// the app and in the window title.
pub proof fn law_keys_agree_in_every_part(key: SpanKey, other: SpanKey, same: bool)
    requires
        call_ensures(SpanKey::same, (&key, &other), same),
    ensures
        same <==> {
            &&& key.state == other.state
            &&& key.bundle_id.deep_view() == other.bundle_id.deep_view()
            &&& key.app_name.deep_view() == other.app_name.deep_view()
            &&& key.window_title.deep_view() == other.window_title.deep_view()
        },
{
}

/// A tick under the key of the open span, no later than the longest pause after
/// the last tick, keeps that span: its row and its key stay, and it now reaches
/// up to the tick.
pub proof fn law_a_tick_in_time_extends_the_span(
    span: OpenSpan,
    key: SpanKey,
    ts: i64,
    max_gap_ms: i64,
    step: SpanStep,
)
    requires
        call_ensures(advance_span, (Some(span), key, ts, max_gap_ms), step),
        i64::MIN <= ts - span.last_ms <= i64::MAX,
        span.key.state == key.state,
        span.key.bundle_id.deep_view() == key.bundle_id.deep_view(),
        span.key.app_name.deep_view() == key.app_name.deep_view(),
        span.key.window_title.deep_view() == key.window_title.deep_view(),
        ts <= span.last_ms + max_gap_ms,
    ensures
        step matches SpanStep::Extend(longer) && {
            &&& longer.id == span.id
            &&& longer.last_ms == ts
            &&& longer.key.state == span.key.state
            &&& longer.key.bundle_id.deep_view() == span.key.bundle_id.deep_view()
            &&& longer.key.app_name.deep_view() == span.key.app_name.deep_view()
            &&& longer.key.window_title.deep_view() == span.key.window_title.deep_view()
        },
{
}

/// A tick that finds no open span, or one under a key that differs in any part,
/// or one whose last tick is further back than the longest pause, starts a span
/// of its own: at that tick, under the tick's key.
pub proof fn law_any_other_tick_starts_a_span(
    open: Option<OpenSpan>,
    key: SpanKey,
    ts: i64,
    max_gap_ms: i64,
    step: SpanStep,
)
    requires
        call_ensures(advance_span, (open, key, ts, max_gap_ms), step),
        open matches Some(span) ==> {
            ||| span.key.state != key.state
            ||| span.key.bundle_id.deep_view() != key.bundle_id.deep_view()
            ||| span.key.app_name.deep_view() != key.app_name.deep_view()
            ||| span.key.window_title.deep_view() != key.window_title.deep_view()
            ||| span.last_ms + max_gap_ms < ts <= span.last_ms + i64::MAX
        },
        open matches Some(span) ==> (span.key@ == key@ ==> i64::MIN <= ts - span.last_ms),
    ensures
        step matches SpanStep::Start(new) && {
            &&& new.start_ms == ts
            &&& new.key.state == key.state
            &&& new.key.bundle_id.deep_view() == key.bundle_id.deep_view()
            &&& new.key.app_name.deep_view() == key.app_name.deep_view()
            &&& new.key.window_title.deep_view() == key.window_title.deep_view()
        },
{
}

/// A span that was just inserted is open under the id of its row, with its own
/// key, and its last tick is its first.
pub proof fn law_an_inserted_span_is_open(new: NewSpan, id: i64, span: OpenSpan)
    requires
        call_ensures(NewSpan::inserted, (new, id), span),
    ensures
        span.id == id,
        span.last_ms == new.start_ms,
        span.key.state == new.key.state,
        span.key.bundle_id.deep_view() == new.key.bundle_id.deep_view(),
        span.key.app_name.deep_view() == new.key.app_name.deep_view(),
        span.key.window_title.deep_view() == new.key.window_title.deep_view(),
{
}

/// Each state has a word of its own.
pub proof fn law_each_state_has_its_word(state: SpanState, word: &'static str)
    requires
        call_ensures(SpanState::as_str, (&state,), word),
    ensures
        state == SpanState::Active <==> word@ == "active"@,
        state == SpanState::Idle <==> word@ == "idle"@,
        state == SpanState::Locked <==> word@ == "locked"@,
{
    reveal_strlit("active");
    reveal_strlit("idle");
    reveal_strlit("locked");
    assert("active"@[0] != "idle"@[0]);
    assert("active"@[0] != "locked"@[0]);
    assert("idle"@[0] != "locked"@[0]);
}

} // verus!
