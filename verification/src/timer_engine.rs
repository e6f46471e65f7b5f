//! The timer engine: running timers started from definitions, counted down tick
//! by tick, warned about, expired, chained or repeated, and cleared away.
//! Time is counted in whole milliseconds.
use crate::assoc::{assoc_find, assoc_map, lemma_assoc_push};
use crate::boss_config::TimerDef;
use crate::buff_config::{buff_def_id, buff_def_id_of};
use crate::ids::{is_v4_uuid_text, new_v4_string};
use crate::settings::list_has;
use crate::text::{copy_opt, joined, owned, text_eq, texts_contain};
use vstd::prelude::*;

verus! {

/// Where a timer stands.
#[derive(Debug, PartialEq, Eq, Clone, Copy)]
pub enum TimerState {
    Running,
    Warning,
    Expired,
}

/// A started timer. `overdue_ms` counts the time since it expired.
#[derive(Debug, PartialEq, Eq)]
pub struct Timer {
    pub id: String,
    pub name: String,
    pub icon: String,
    pub duration_ms: u64,
    pub remaining_ms: u64,
    pub state: TimerState,
    pub color: String,
    pub chain_to: Option<String>,
    pub warning_ms: u64,
    pub def_id: String,
    pub warning_played: bool,
    pub repeat: bool,
    pub overdue_ms: u64,
}

/// The timers as they stand after a tick.
#[derive(Debug, PartialEq, Eq)]
pub struct TimerUpdate {
    pub timers: Vec<Timer>,
}

/// A timer that expired on a tick.
#[derive(Debug, PartialEq, Eq)]
pub struct TimerExpiredEvent {
    pub id: String,
    pub name: String,
    pub chain_to: Option<String>,
    pub def_id: String,
    pub repeat: bool,
}

/// The running timers, the definitions they are started from (those of the
/// current boss and those of the buffs), and the definitions whose sounds are muted.
pub struct TimerEngine {
    timers: Vec<Timer>,
    timer_defs: Vec<(String, TimerDef)>,
    buff_defs: Vec<(String, TimerDef)>,
    muted_defs: Vec<String>,
}

impl Clone for Timer {
    fn clone(&self) -> (r: Self)
        ensures
            r == *self,
    {
        Timer {
            id: self.id.clone(),
            name: self.name.clone(),
            icon: self.icon.clone(),
            duration_ms: self.duration_ms,
            remaining_ms: self.remaining_ms,
            state: self.state,
            color: self.color.clone(),
            chain_to: copy_opt(&self.chain_to),
            warning_ms: self.warning_ms,
            def_id: self.def_id.clone(),
            warning_played: self.warning_played,
            repeat: self.repeat,
            overdue_ms: self.overdue_ms,
        }
    }
}

impl Clone for TimerExpiredEvent {
    fn clone(&self) -> (r: Self)
        ensures
            r == *self,
    {
        TimerExpiredEvent {
            id: self.id.clone(),
            name: self.name.clone(),
            chain_to: copy_opt(&self.chain_to),
            def_id: self.def_id.clone(),
            repeat: self.repeat,
        }
    }
}

/// A copy of a list of timers.
pub fn copy_timers(v: &Vec<Timer>) -> (r: Vec<Timer>)
    ensures
        r@ == v@,
{
    let mut out: Vec<Timer> = Vec::new();
    let mut i: usize = 0;
    while i < v.len()
        invariant
            i <= v@.len(),
            out@ == v@.take(i as int),
        decreases v@.len() - i,
    {
        out.push(v[i].clone());
        proof {
            assert(v@.take(i as int + 1) =~= v@.take(i as int).push(v@[i as int]));
        }
        i = i + 1;
    }
    proof {
        assert(v@.take(v@.len() as int) =~= v@);
    }
    out
}

/// A timer has expired.
pub open spec fn is_expired(t: Timer) -> bool {
    t.state is Expired
}

/// No two timers share an id.
pub open spec fn distinct_ids(ts: Seq<Timer>) -> bool {
    forall|i: int, j: int| 0 <= i < ts.len() && 0 <= j < ts.len() && i != j ==> (#[trigger] ts[i]).id@ != (#[trigger] ts[j]).id@
}

/// Definitions by id, a later definition replacing an earlier one with the same id.
pub open spec fn defs_map(ds: Seq<TimerDef>) -> Map<Seq<char>, TimerDef>
    decreases ds.len(),
{
    if ds.len() == 0 {
        Map::empty()
    } else {
        defs_map(ds.drop_last()).insert(ds.last().id@, ds.last())
    }
}

/// The timer a definition starts, under the given id, for the definition id it was asked by.
pub open spec fn new_timer(id: String, d: TimerDef, def_id: String) -> Timer {
    Timer {
        id: id,
        name: d.name,
        icon: d.icon,
        duration_ms: d.duration_ms,
        remaining_ms: d.duration_ms,
        state: TimerState::Running,
        color: d.color,
        chain_to: d.chain_to,
        warning_ms: d.warning_ms,
        def_id: def_id,
        warning_played: false,
        repeat: d.repeat,
        overdue_ms: 0,
    }
}

/// Position of the first timer with this id, or the length when none has it.
pub open spec fn timer_index(ts: Seq<Timer>, id: Seq<char>) -> int
    decreases ts.len(),
{
    if ts.len() == 0 {
        0
    } else if ts[0].id@ == id {
        0
    } else {
        1 + timer_index(ts.drop_first(), id)
    }
}

/// `timer_index` points at the first timer with the id, or past the end.
pub proof fn lemma_timer_index(ts: Seq<Timer>, id: Seq<char>)
    ensures
        0 <= timer_index(ts, id) <= ts.len(),
        forall|j: int| 0 <= j < timer_index(ts, id) ==> (#[trigger] ts[j]).id@ != id,
        timer_index(ts, id) < ts.len() ==> ts[timer_index(ts, id)].id@ == id,
    decreases ts.len(),
{
    if ts.len() > 0 && ts[0].id@ != id {
        lemma_timer_index(ts.drop_first(), id);
        assert forall|j: int| 0 <= j < timer_index(ts, id) implies (#[trigger] ts[j]).id@ != id by {
            if j > 0 {
                assert(ts[j] == ts.drop_first()[j - 1]);
            }
        }
    }
}

/// The timers with `t` stored under its id: it replaces the timer with that id,
/// or is appended when there is none (as a map insert does).
pub open spec fn put_timer(ts: Seq<Timer>, t: Timer) -> Seq<Timer> {
    let i = timer_index(ts, t.id@);
    if i < ts.len() {
        ts.update(i, t)
    } else {
        ts.push(t)
    }
}

/// The timers that `keep` accepts, in order.
pub open spec fn filter_timers(ts: Seq<Timer>, keep: spec_fn(Timer) -> bool) -> Seq<Timer>
    decreases ts.len(),
{
    if ts.len() == 0 {
        Seq::empty()
    } else if keep(ts.last()) {
        filter_timers(ts.drop_last(), keep).push(ts.last())
    } else {
        filter_timers(ts.drop_last(), keep)
    }
}

/// The timers whose id differs from `id`, in order.
pub open spec fn timers_without_id(ts: Seq<Timer>, id: Seq<char>) -> Seq<Timer> {
    filter_timers(ts, |t: Timer| t.id@ != id)
}

/// The timers whose name differs from `name`, in order.
pub open spec fn timers_without_name(ts: Seq<Timer>, name: Seq<char>) -> Seq<Timer> {
    filter_timers(ts, |t: Timer| t.name@ != name)
}

/// The timers except the expired ones started for `def_id`, in order.
pub open spec fn timers_without_expired_of(ts: Seq<Timer>, def_id: Seq<char>) -> Seq<Timer> {
    filter_timers(ts, |t: Timer| !(t.def_id@ == def_id && is_expired(t)))
}

/// The timers a cleanup keeps: those not expired, and those expired for less than `linger_ms`.
pub open spec fn timers_after_cleanup(ts: Seq<Timer>, linger_ms: u64) -> Seq<Timer> {
    filter_timers(ts, |t: Timer| !is_expired(t) || t.overdue_ms < linger_ms)
}

/// Some timer with this name has not expired.
pub open spec fn has_live_timer_named(ts: Seq<Timer>, name: Seq<char>) -> bool {
    exists|j: int| 0 <= j < ts.len() && (#[trigger] ts[j]).name@ == name && !is_expired(ts[j])
}

/// Filtering keeps ids distinct; every kept timer was there before and is accepted.
pub proof fn lemma_filter_timers(ts: Seq<Timer>, keep: spec_fn(Timer) -> bool)
    ensures
        distinct_ids(ts) ==> distinct_ids(filter_timers(ts, keep)),
        forall|j: int| 0 <= j < filter_timers(ts, keep).len() ==> ts.contains(#[trigger] filter_timers(ts, keep)[j]),
        forall|j: int| 0 <= j < filter_timers(ts, keep).len() ==> keep(#[trigger] filter_timers(ts, keep)[j]),
        forall|j: int| 0 <= j < ts.len() && keep(#[trigger] ts[j]) ==> filter_timers(ts, keep).contains(ts[j]),
    decreases ts.len(),
{
    if ts.len() > 0 {
        let p = ts.drop_last();
        lemma_filter_timers(p, keep);
        let r = filter_timers(p, keep);
        let l = ts.last();
        assert(ts[ts.len() - 1] == l);
        assert forall|j: int| 0 <= j < r.len() implies ts.contains(#[trigger] r[j]) by {
            let k = choose|k: int| 0 <= k < p.len() && p[k] == r[j];
            assert(ts[k] == r[j]);
        }
        if distinct_ids(ts) {
            assert(distinct_ids(p)) by {
                assert forall|i: int, j: int| 0 <= i < p.len() && 0 <= j < p.len() && i != j implies (#[trigger] p[i]).id@ != (#[trigger] p[j]).id@ by {
                    assert(p[i] == ts[i] && p[j] == ts[j]);
                }
            }
            if keep(l) {
                assert forall|j: int| 0 <= j < r.len() implies (#[trigger] r[j]).id@ != l.id@ by {
                    let k = choose|k: int| 0 <= k < p.len() && p[k] == r[j];
                    assert(ts[k] == r[j]);
                }
            }
        }
        if keep(l) {
            assert forall|j: int| 0 <= j < r.push(l).len() implies ts.contains(#[trigger] r.push(l)[j]) by {
                if j < r.len() {
                    assert(r.push(l)[j] == r[j]);
                }
            }
            assert forall|j: int| 0 <= j < r.push(l).len() implies keep(#[trigger] r.push(l)[j]) by {
                if j < r.len() {
                    assert(r.push(l)[j] == r[j]);
                }
            }
        }
        assert forall|j: int| 0 <= j < ts.len() && keep(#[trigger] ts[j]) implies filter_timers(ts, keep).contains(ts[j]) by {
            if j < p.len() {
                assert(p[j] == ts[j]);
                if keep(l) {
                    let k = choose|k: int| 0 <= k < r.len() && r[k] == p[j];
                    assert(r.push(l)[k] == r[k]);
                }
            } else {
                assert(filter_timers(ts, keep)[filter_timers(ts, keep).len() - 1] == l);
            }
        }
    }
}

/// `a + b`, or `u64::MAX` when the sum does not fit.
pub open spec fn saturating_sum(a: u64, b: u64) -> u64 {
    if a + b > u64::MAX {
        u64::MAX
    } else {
        (a + b) as u64
    }
}

/// The timer runs out on a tick of `delta_ms`.
pub open spec fn expires_on_tick(t: Timer, delta_ms: u64) -> bool {
    !is_expired(t) && t.remaining_ms <= delta_ms
}

/// The timer is within its warning lead after a tick of `delta_ms` but has not run out.
pub open spec fn warns_on_tick(t: Timer, delta_ms: u64) -> bool {
    !is_expired(t) && t.remaining_ms > delta_ms && t.remaining_ms - delta_ms <= t.warning_ms
}

/// One timer after a tick of `delta_ms`: an expired timer only grows overdue;
/// a timer that runs out stops at zero, expires, and is overdue by what the
/// tick went past zero; a timer within its warning lead warns; any other counts down.
pub open spec fn tick_timer(t: Timer, delta_ms: u64) -> Timer {
    if is_expired(t) {
        Timer { overdue_ms: saturating_sum(t.overdue_ms, delta_ms), ..t }
    } else if t.remaining_ms <= delta_ms {
        Timer {
            remaining_ms: 0,
            state: TimerState::Expired,
            overdue_ms: (delta_ms - t.remaining_ms) as u64,
            ..t
        }
    } else if t.remaining_ms - delta_ms <= t.warning_ms {
        Timer {
            remaining_ms: (t.remaining_ms - delta_ms) as u64,
            state: TimerState::Warning,
            warning_played: true,
            ..t
        }
    } else {
        Timer { remaining_ms: (t.remaining_ms - delta_ms) as u64, ..t }
    }
}

/// Every timer after a tick, in order.
pub open spec fn ticked(ts: Seq<Timer>, delta_ms: u64) -> Seq<Timer> {
    ts.map_values(|t: Timer| tick_timer(t, delta_ms))
}

/// The expiry report of a timer.
pub open spec fn expired_event_of(t: Timer) -> TimerExpiredEvent {
    TimerExpiredEvent { id: t.id, name: t.name, chain_to: t.chain_to, def_id: t.def_id, repeat: t.repeat }
}

/// The reports of the timers that run out on a tick, in timer order.
pub open spec fn expired_events(ts: Seq<Timer>, delta_ms: u64) -> Seq<TimerExpiredEvent>
    decreases ts.len(),
{
    if ts.len() == 0 {
        Seq::empty()
    } else if expires_on_tick(ts.last(), delta_ms) {
        expired_events(ts.drop_last(), delta_ms).push(expired_event_of(ts.last()))
    } else {
        expired_events(ts.drop_last(), delta_ms)
    }
}

/// The warning list after one timer's turn on a tick: a timer entering its
/// warning lead adds its definition id, and a timer that has not yet sounded
/// its warning adds it once more unless the list already holds it.
pub open spec fn warning_step(acc: Seq<String>, t: Timer, delta_ms: u64) -> Seq<String> {
    if warns_on_tick(t, delta_ms) {
        let a1 = if !(t.state is Warning) {
            acc.push(t.def_id)
        } else {
            acc
        };
        if !t.warning_played && !list_has(a1, t.def_id@) {
            a1.push(t.def_id)
        } else {
            a1
        }
    } else {
        acc
    }
}

/// The definition ids to warn about on a tick, timer by timer.
pub open spec fn warning_ids(ts: Seq<Timer>, delta_ms: u64) -> Seq<String>
    decreases ts.len(),
{
    if ts.len() == 0 {
        Seq::empty()
    } else {
        warning_step(warning_ids(ts.drop_last(), delta_ms), ts.last(), delta_ms)
    }
}

/// A warning step keeps the list as a prefix and adds only the timer's own id,
/// and only when the timer warns.
pub proof fn lemma_warning_step(acc: Seq<String>, t: Timer, delta_ms: u64)
    ensures
        warning_step(acc, t, delta_ms).len() >= acc.len(),
        forall|j: int| 0 <= j < acc.len() ==> #[trigger] warning_step(acc, t, delta_ms)[j] == acc[j],
        forall|j: int| acc.len() <= j < warning_step(acc, t, delta_ms).len() ==> #[trigger] warning_step(acc, t, delta_ms)[j] == t.def_id && warns_on_tick(t, delta_ms),
{
}

/// The definition a timer that ran out restarts: the one it chains to, else its
/// own when it repeats, else none.
pub open spec fn restart_target(e: TimerExpiredEvent) -> Option<String> {
    match e.chain_to {
        Some(c) => Some(c),
        None => if e.repeat {
            Some(e.def_id)
        } else {
            None
        },
    }
}

/// The timers after handling one expiry with `id` ready for a restarted timer:
/// a timer that chains or repeats is removed and its target is started, when
/// the target names a definition.
pub open spec fn after_expiry(eng: TimerEngine, ts: Seq<Timer>, e: TimerExpiredEvent, id: String) -> Seq<Timer> {
    match restart_target(e) {
        Some(tid) => {
            let ts1 = timers_without_id(ts, e.id@);
            match eng.def_lookup(tid@) {
                Some(d) => put_timer(ts1, new_timer(id, d, tid)),
                None => ts1,
            }
        },
        None => ts,
    }
}

/// The timers after handling the expiries in order, the i-th with the i-th id.
pub open spec fn after_expiries(
    eng: TimerEngine,
    ts: Seq<Timer>,
    es: Seq<TimerExpiredEvent>,
    ids: Seq<String>,
) -> Seq<Timer>
    decreases es.len(),
{
    if es.len() == 0 || ids.len() == 0 {
        ts
    } else {
        after_expiry(
            eng,
            after_expiries(eng, ts, es.drop_last(), ids.drop_last()),
            es.last(),
            ids.last(),
        )
    }
}

/// What a tick reports: the timers as they stood after counting down, the
/// expiries, the definitions to warn about, whether a warning sounds (some
/// definition to warn about is not muted), and for each expiry whether its
/// sound plays (its definition is not muted).
pub struct TickReport {
    pub update: TimerUpdate,
    pub expired: Vec<TimerExpiredEvent>,
    pub warning_def_ids: Vec<String>,
    pub play_warning: bool,
    pub expired_alerts: Vec<bool>,
}

impl TimerEngine {
    /// The running timers, in the order they were first started.
    pub closed spec fn timers_of(self) -> Seq<Timer> {
        self.timers@
    }

    /// The definitions of the current boss, by id.
    pub closed spec fn boss_defs_of(self) -> Map<Seq<char>, TimerDef> {
        assoc_map(self.timer_defs@)
    }

    /// The definitions of the buffs, by id.
    pub closed spec fn buff_defs_of(self) -> Map<Seq<char>, TimerDef> {
        assoc_map(self.buff_defs@)
    }

    /// The definition ids whose sounds are muted.
    pub closed spec fn muted_of(self) -> Seq<String> {
        self.muted_defs@
    }

    /// The engine is consistent: no two running timers share an id.
    pub closed spec fn wf(self) -> bool {
        distinct_ids(self.timers@)
    }

    /// The definition a timer id names: a boss definition, else a buff definition.
    pub open spec fn def_lookup(self, id: Seq<char>) -> Option<TimerDef> {
        if self.boss_defs_of().contains_key(id) {
            Some(self.boss_defs_of()[id])
        } else if self.buff_defs_of().contains_key(id) {
            Some(self.buff_defs_of()[id])
        } else {
            None
        }
    }

    /// An engine with no timers, no definitions and nothing muted.
    pub fn new() -> (r: Self)
        ensures
            r.wf(),
            r.timers_of().len() == 0,
            r.boss_defs_of() == Map::<Seq<char>, TimerDef>::empty(),
            r.buff_defs_of() == Map::<Seq<char>, TimerDef>::empty(),
            r.muted_of().len() == 0,
    {
        TimerEngine { timers: Vec::new(), timer_defs: Vec::new(), buff_defs: Vec::new(), muted_defs: Vec::new() }
    }

    /// Replaces the set of muted definition ids.
    pub fn set_muted_defs(&mut self, defs: Vec<String>)
        requires
            old(self).wf(),
        ensures
            final(self).wf(),
            final(self).muted_of() == defs@,
            final(self).timers_of() == old(self).timers_of(),
            final(self).boss_defs_of() == old(self).boss_defs_of(),
            final(self).buff_defs_of() == old(self).buff_defs_of(),
    {
        self.muted_defs = defs;
    }

    /// Whether the sounds of a definition are muted.
    pub fn is_muted(&self, def_id: &str) -> (r: bool)
        ensures
            r == list_has(self.muted_of(), def_id@),
    {
        texts_contain(&self.muted_defs, def_id)
    }

    /// Replaces the boss definitions; a later definition wins over an earlier one with the same id.
    pub fn load_timer_defs(&mut self, defs: Vec<TimerDef>)
        requires
            old(self).wf(),
        ensures
            final(self).wf(),
            final(self).boss_defs_of() == defs_map(defs@),
            final(self).timers_of() == old(self).timers_of(),
            final(self).buff_defs_of() == old(self).buff_defs_of(),
            final(self).muted_of() == old(self).muted_of(),
    {
        self.timer_defs = keyed_defs(defs);
    }

    /// Replaces the buff definitions; a later definition wins over an earlier one with the same id.
    pub fn load_buff_defs(&mut self, defs: Vec<TimerDef>)
        requires
            old(self).wf(),
        ensures
            final(self).wf(),
            final(self).buff_defs_of() == defs_map(defs@),
            final(self).timers_of() == old(self).timers_of(),
            final(self).boss_defs_of() == old(self).boss_defs_of(),
            final(self).muted_of() == old(self).muted_of(),
    {
        self.buff_defs = keyed_defs(defs);
    }

    /// The definition a timer id names, if any.
    pub fn find_def(&self, def_id: &str) -> (r: Option<TimerDef>)
        ensures
            r == self.def_lookup(def_id@),
    {
        match assoc_find(&self.timer_defs, def_id) {
            Some(i) => Some(self.timer_defs[i].1.clone()),
            None => match assoc_find(&self.buff_defs, def_id) {
                Some(i) => Some(self.buff_defs[i].1.clone()),
                None => None,
            },
        }
    }

    /// Starts a timer from the definition `timer_def_id` under the given id,
    /// which replaces a timer with the same id if there is one.
    pub fn start_timer_with_id(&mut self, timer_def_id: &String, id: String) -> (r: Result<String, String>)
        requires
            old(self).wf(),
        ensures
            final(self).wf(),
            final(self).boss_defs_of() == old(self).boss_defs_of(),
            final(self).buff_defs_of() == old(self).buff_defs_of(),
            final(self).muted_of() == old(self).muted_of(),
            match old(self).def_lookup(timer_def_id@) {
                Some(d) => r == Ok::<String, String>(id) && final(self).timers_of() == put_timer(
                    old(self).timers_of(),
                    new_timer(id, d, *timer_def_id),
                ),
                None => r is Err && r->Err_0@ == "Timer definition '"@ + timer_def_id@ + "' not found"@
                    && final(self).timers_of() == old(self).timers_of(),
            },
    {
        let d = match self.find_def(timer_def_id.as_str()) {
            Some(d) => d,
            None => {
                let msg = joined("Timer definition '", timer_def_id.as_str()).concat("' not found");
                return Err(msg);
            },
        };
        let timer = Timer {
            id: id.clone(),
            name: d.name,
            icon: d.icon,
            duration_ms: d.duration_ms,
            remaining_ms: d.duration_ms,
            state: TimerState::Running,
            color: d.color,
            chain_to: d.chain_to,
            warning_ms: d.warning_ms,
            def_id: timer_def_id.clone(),
            warning_played: false,
            repeat: d.repeat,
            overdue_ms: 0,
        };
        let ghost ts = self.timers@;
        proof {
            lemma_timer_index(ts, id@);
        }
        let mut i: usize = 0;
        while i < self.timers.len() && !text_eq(self.timers[i].id.as_str(), id.as_str())
            invariant
                self.timers@ == ts,
                i <= ts.len(),
                forall|j: int| 0 <= j < i ==> (#[trigger] ts[j]).id@ != id@,
                0 <= timer_index(ts, id@) <= ts.len(),
                forall|j: int| 0 <= j < timer_index(ts, id@) ==> (#[trigger] ts[j]).id@ != id@,
                timer_index(ts, id@) < ts.len() ==> ts[timer_index(ts, id@)].id@ == id@,
            decreases ts.len() - i,
        {
            i = i + 1;
        }
        assert(i == timer_index(ts, id@));
        if i < self.timers.len() {
            self.timers.set(i, timer);
            proof {
                assert forall|a: int, b: int| 0 <= a < self.timers@.len() && 0 <= b < self.timers@.len() && a != b implies (#[trigger] self.timers@[a]).id@ != (#[trigger] self.timers@[b]).id@ by {
                    if a != i as int && b != i as int {
                        assert(self.timers@[a] == ts[a] && self.timers@[b] == ts[b]);
                    } else if a == i as int {
                        assert(self.timers@[b] == ts[b]);
                        assert(ts[i as int].id@ == id@);
                    } else {
                        assert(self.timers@[a] == ts[a]);
                        assert(ts[i as int].id@ == id@);
                    }
                }
            }
        } else {
            self.timers.push(timer);
            proof {
                assert forall|a: int, b: int| 0 <= a < self.timers@.len() && 0 <= b < self.timers@.len() && a != b implies (#[trigger] self.timers@[a]).id@ != (#[trigger] self.timers@[b]).id@ by {
                    if a < ts.len() && b < ts.len() {
                        assert(self.timers@[a] == ts[a] && self.timers@[b] == ts[b]);
                    } else if a < ts.len() {
                        assert(self.timers@[a] == ts[a]);
                    } else {
                        assert(self.timers@[b] == ts[b]);
                    }
                }
            }
        }
        Ok(id)
    }

    /// Starts a timer from the definition `timer_def_id` under a fresh random id.
    pub fn start_timer(&mut self, timer_def_id: &str) -> (r: Result<String, String>)
        requires
            old(self).wf(),
        ensures
            final(self).wf(),
            final(self).boss_defs_of() == old(self).boss_defs_of(),
            final(self).buff_defs_of() == old(self).buff_defs_of(),
            final(self).muted_of() == old(self).muted_of(),
            match old(self).def_lookup(timer_def_id@) {
                Some(d) => r is Ok && is_v4_uuid_text(r->Ok_0@) && exists|def_id: String|
                    def_id@ == timer_def_id@ && final(self).timers_of() == put_timer(
                        old(self).timers_of(),
                        new_timer(r->Ok_0, d, def_id),
                    ),
                None => r is Err && r->Err_0@ == "Timer definition '"@ + timer_def_id@ + "' not found"@
                    && final(self).timers_of() == old(self).timers_of(),
            },
    {
        let def_id = owned(timer_def_id);
        let id = new_v4_string();
        self.start_timer_with_id(&def_id, id)
    }

    /// Removes the timer with this id; says whether there was one.
    pub fn stop_timer(&mut self, timer_id: &str) -> (r: bool)
        requires
            old(self).wf(),
        ensures
            final(self).wf(),
            r == exists|j: int| 0 <= j < old(self).timers_of().len() && (#[trigger] old(self).timers_of()[j]).id@ == timer_id@,
            final(self).timers_of() == timers_without_id(old(self).timers_of(), timer_id@),
            final(self).boss_defs_of() == old(self).boss_defs_of(),
            final(self).buff_defs_of() == old(self).buff_defs_of(),
            final(self).muted_of() == old(self).muted_of(),
    {
        let ghost ts = self.timers@;
        let mut kept: Vec<Timer> = Vec::new();
        let mut found = false;
        let mut i: usize = 0;
        while i < self.timers.len()
            invariant
                self.timers@ == ts,
                i <= ts.len(),
                kept@ == timers_without_id(ts.take(i as int), timer_id@),
                found == exists|j: int| 0 <= j < i && (#[trigger] ts[j]).id@ == timer_id@,
            decreases ts.len() - i,
        {
            proof {
                assert(ts.take(i as int + 1).drop_last() =~= ts.take(i as int));
            }
            if text_eq(self.timers[i].id.as_str(), timer_id) {
                found = true;
            } else {
                kept.push(self.timers[i].clone());
            }
            i = i + 1;
        }
        proof {
            assert(ts.take(ts.len() as int) =~= ts);
            lemma_filter_timers(ts, |t: Timer| t.id@ != timer_id@);
        }
        self.timers = kept;
        found
    }

    /// Removes every timer.
    pub fn stop_all(&mut self)
        requires
            old(self).wf(),
        ensures
            final(self).wf(),
            final(self).timers_of().len() == 0,
            final(self).boss_defs_of() == old(self).boss_defs_of(),
            final(self).buff_defs_of() == old(self).buff_defs_of(),
            final(self).muted_of() == old(self).muted_of(),
    {
        self.timers = Vec::new();
    }

    /// Removes every timer that bears the name of the definition `def_id`
    /// (whatever definition started it); nothing when no definition has that id.
    pub fn stop_by_def_id(&mut self, def_id: &str)
        requires
            old(self).wf(),
        ensures
            final(self).wf(),
            final(self).timers_of() == match old(self).def_lookup(def_id@) {
                Some(d) => timers_without_name(old(self).timers_of(), d.name@),
                None => old(self).timers_of(),
            },
            final(self).boss_defs_of() == old(self).boss_defs_of(),
            final(self).buff_defs_of() == old(self).buff_defs_of(),
            final(self).muted_of() == old(self).muted_of(),
    {
        let d = match self.find_def(def_id) {
            Some(d) => d,
            None => return ,
        };
        let ghost ts = self.timers@;
        let mut kept: Vec<Timer> = Vec::new();
        let mut i: usize = 0;
        while i < self.timers.len()
            invariant
                self.timers@ == ts,
                i <= ts.len(),
                kept@ == timers_without_name(ts.take(i as int), d.name@),
            decreases ts.len() - i,
        {
            proof {
                assert(ts.take(i as int + 1).drop_last() =~= ts.take(i as int));
            }
            if !text_eq(self.timers[i].name.as_str(), d.name.as_str()) {
                kept.push(self.timers[i].clone());
            }
            i = i + 1;
        }
        proof {
            assert(ts.take(ts.len() as int) =~= ts);
            lemma_filter_timers(ts, |t: Timer| t.name@ != d.name@);
        }
        self.timers = kept;
    }

    /// Removes the expired timers that were started for the definition `def_id`.
    pub fn stop_expired_by_def_id(&mut self, def_id: &str)
        requires
            old(self).wf(),
        ensures
            final(self).wf(),
            final(self).timers_of() == timers_without_expired_of(old(self).timers_of(), def_id@),
            final(self).boss_defs_of() == old(self).boss_defs_of(),
            final(self).buff_defs_of() == old(self).buff_defs_of(),
            final(self).muted_of() == old(self).muted_of(),
    {
        let ghost ts = self.timers@;
        let mut kept: Vec<Timer> = Vec::new();
        let mut i: usize = 0;
        while i < self.timers.len()
            invariant
                self.timers@ == ts,
                i <= ts.len(),
                kept@ == timers_without_expired_of(ts.take(i as int), def_id@),
            decreases ts.len() - i,
        {
            proof {
                assert(ts.take(i as int + 1).drop_last() =~= ts.take(i as int));
            }
            let expired = match self.timers[i].state {
                TimerState::Expired => true,
                _ => false,
            };
            if !(expired && text_eq(self.timers[i].def_id.as_str(), def_id)) {
                kept.push(self.timers[i].clone());
            }
            i = i + 1;
        }
        proof {
            assert(ts.take(ts.len() as int) =~= ts);
            lemma_filter_timers(ts, |t: Timer| !(t.def_id@ == def_id@ && is_expired(t)));
        }
        self.timers = kept;
    }

    /// Whether a timer bearing the name of the definition `def_id` has not
    /// expired; false when no definition has that id.
    pub fn has_running_timers_for_def(&self, def_id: &str) -> (r: bool)
        ensures
            r == match self.def_lookup(def_id@) {
                Some(d) => has_live_timer_named(self.timers_of(), d.name@),
                None => false,
            },
    {
        let d = match self.find_def(def_id) {
            Some(d) => d,
            None => return false,
        };
        let mut i: usize = 0;
        while i < self.timers.len()
            invariant
                i <= self.timers@.len(),
                self.def_lookup(def_id@) == Some(d),
                forall|j: int| 0 <= j < i ==> !((#[trigger] self.timers@[j]).name@ == d.name@ && !is_expired(self.timers@[j])),
            decreases self.timers@.len() - i,
        {
            let live = match self.timers[i].state {
                TimerState::Expired => false,
                _ => true,
            };
            if live && text_eq(self.timers[i].name.as_str(), d.name.as_str()) {
                assert(self.timers@[i as int].name@ == d.name@ && !is_expired(self.timers@[i as int]));
                return true;
            }
            i = i + 1;
        }
        false
    }

    /// Removes the expired timers that have been expired for `linger_ms` or longer.
    pub fn cleanup_expired(&mut self, linger_ms: u64)
        requires
            old(self).wf(),
        ensures
            final(self).wf(),
            final(self).timers_of() == timers_after_cleanup(old(self).timers_of(), linger_ms),
            final(self).boss_defs_of() == old(self).boss_defs_of(),
            final(self).buff_defs_of() == old(self).buff_defs_of(),
            final(self).muted_of() == old(self).muted_of(),
    {
        let ghost ts = self.timers@;
        let mut kept: Vec<Timer> = Vec::new();
        let mut i: usize = 0;
        while i < self.timers.len()
            invariant
                self.timers@ == ts,
                i <= ts.len(),
                kept@ == timers_after_cleanup(ts.take(i as int), linger_ms),
            decreases ts.len() - i,
        {
            proof {
                assert(ts.take(i as int + 1).drop_last() =~= ts.take(i as int));
            }
            let expired = match self.timers[i].state {
                TimerState::Expired => true,
                _ => false,
            };
            if !expired || self.timers[i].overdue_ms < linger_ms {
                kept.push(self.timers[i].clone());
            }
            i = i + 1;
        }
        proof {
            assert(ts.take(ts.len() as int) =~= ts);
            lemma_filter_timers(ts, |t: Timer| !is_expired(t) || t.overdue_ms < linger_ms);
        }
        self.timers = kept;
    }

    /// Counts every timer down by `delta_ms`. Returns the timers as they then
    /// stand, the reports of the timers that ran out, and the definition ids to
    /// warn about.
    pub fn tick(&mut self, delta_ms: u64) -> (r: (TimerUpdate, Vec<TimerExpiredEvent>, Vec<String>))
        requires
            old(self).wf(),
        ensures
            final(self).wf(),
            final(self).timers_of() == ticked(old(self).timers_of(), delta_ms),
            r.0.timers@ == final(self).timers_of(),
            r.1@ == expired_events(old(self).timers_of(), delta_ms),
            r.2@ == warning_ids(old(self).timers_of(), delta_ms),
            final(self).boss_defs_of() == old(self).boss_defs_of(),
            final(self).buff_defs_of() == old(self).buff_defs_of(),
            final(self).muted_of() == old(self).muted_of(),
    {
        let ghost ts = self.timers@;
        let mut out: Vec<Timer> = Vec::new();
        let mut events: Vec<TimerExpiredEvent> = Vec::new();
        let mut warnings: Vec<String> = Vec::new();
        let mut i: usize = 0;
        while i < self.timers.len()
            invariant
                self.timers@ == ts,
                i <= ts.len(),
                out@ == ticked(ts.take(i as int), delta_ms),
                events@ == expired_events(ts.take(i as int), delta_ms),
                warnings@ == warning_ids(ts.take(i as int), delta_ms),
            decreases ts.len() - i,
        {
            let mut t = self.timers[i].clone();
            proof {
                assert(ts.take(i as int + 1).drop_last() =~= ts.take(i as int));
                assert(ts.take(i as int + 1).last() == t);
                assert(ticked(ts.take(i as int + 1), delta_ms) =~= ticked(ts.take(i as int), delta_ms).push(
                    tick_timer(t, delta_ms),
                ));
            }
            let ghost t0 = t;
            match t.state {
                TimerState::Expired => {
                    t.overdue_ms = t.overdue_ms.saturating_add(delta_ms);
                },
                _ => {
                    if t.remaining_ms <= delta_ms {
                        t.overdue_ms = delta_ms - t.remaining_ms;
                        t.remaining_ms = 0;
                        t.state = TimerState::Expired;
                        events.push(
                            TimerExpiredEvent {
                                id: t.id.clone(),
                                name: t.name.clone(),
                                chain_to: copy_opt(&t.chain_to),
                                def_id: t.def_id.clone(),
                                repeat: t.repeat,
                            },
                        );
                    } else {
                        t.remaining_ms = t.remaining_ms - delta_ms;
                        if t.remaining_ms <= t.warning_ms {
                            let was_warning = match t.state {
                                TimerState::Warning => true,
                                _ => false,
                            };
                            if !was_warning {
                                warnings.push(t.def_id.clone());
                            }
                            t.state = TimerState::Warning;
                            if !t.warning_played {
                                t.warning_played = true;
                                if !texts_contain(&warnings, t.def_id.as_str()) {
                                    warnings.push(t.def_id.clone());
                                }
                            }
                        }
                    }
                },
            }
            proof {
                assert(t == tick_timer(t0, delta_ms));
            }
            out.push(t);
            i = i + 1;
        }
        proof {
            assert(ts.take(ts.len() as int) =~= ts);
            assert forall|a: int, b: int| 0 <= a < out@.len() && 0 <= b < out@.len() && a != b implies (#[trigger] out@[a]).id@ != (#[trigger] out@[b]).id@ by {
                assert(out@[a].id == ts[a].id && out@[b].id == ts[b].id);
            }
        }
        self.timers = out;
        let update = TimerUpdate { timers: copy_timers(&self.timers) };
        (update, events, warnings)
    }

    /// Handles the expiries in order, using `ids[i]` for a timer restarted by the
    /// i-th: a timer that chains to another definition, or repeats, is removed
    /// and the chained definition, or its own, is started again.
    pub fn restart_expired_with_ids(&mut self, events: &Vec<TimerExpiredEvent>, ids: &Vec<String>)
        requires
            old(self).wf(),
            ids@.len() == events@.len(),
        ensures
            final(self).wf(),
            final(self).timers_of() == after_expiries(*old(self), old(self).timers_of(), events@, ids@),
            final(self).boss_defs_of() == old(self).boss_defs_of(),
            final(self).buff_defs_of() == old(self).buff_defs_of(),
            final(self).muted_of() == old(self).muted_of(),
    {
        let ghost eng = *self;
        let mut i: usize = 0;
        while i < events.len()
            invariant
                self.wf(),
                i <= events@.len(),
                ids@.len() == events@.len(),
                self.boss_defs_of() == eng.boss_defs_of(),
                self.buff_defs_of() == eng.buff_defs_of(),
                self.muted_of() == eng.muted_of(),
                self.timers_of() == after_expiries(eng, eng.timers_of(), events@.take(i as int), ids@.take(i as int)),
            decreases events@.len() - i,
        {
            let e = &events[i];
            proof {
                assert(events@.take(i as int + 1).drop_last() =~= events@.take(i as int));
                assert(ids@.take(i as int + 1).drop_last() =~= ids@.take(i as int));
                assert(events@.take(i as int + 1).last() == *e);
                assert(ids@.take(i as int + 1).last() == ids@[i as int]);
            }
            let target: Option<String> = match &e.chain_to {
                Some(c) => Some(c.clone()),
                None => if e.repeat {
                    Some(e.def_id.clone())
                } else {
                    None
                },
            };
            match target {
                Some(tid) => {
                    self.stop_timer(e.id.as_str());
                    let _ = self.start_timer_with_id(&tid, ids[i].clone());
                },
                None => {},
            }
            i = i + 1;
        }
        proof {
            assert(events@.take(events@.len() as int) =~= events@);
            assert(ids@.take(ids@.len() as int) =~= ids@);
        }
    }

    /// Handles the expiries in order; a restarted timer gets a fresh random id.
    pub fn handle_expired(&mut self, events: &Vec<TimerExpiredEvent>)
        requires
            old(self).wf(),
        ensures
            final(self).wf(),
            exists|ids: Seq<String>|
                ids.len() == events@.len() && (forall|i: int| 0 <= i < ids.len() ==> is_v4_uuid_text(#[trigger] ids[i]@))
                    && final(self).timers_of() == after_expiries(
                    *old(self),
                    old(self).timers_of(),
                    events@,
                    ids,
                ),
            final(self).boss_defs_of() == old(self).boss_defs_of(),
            final(self).buff_defs_of() == old(self).buff_defs_of(),
            final(self).muted_of() == old(self).muted_of(),
    {
        let mut ids: Vec<String> = Vec::new();
        let mut i: usize = 0;
        while i < events.len()
            invariant
                i <= events@.len(),
                ids@.len() == i,
                forall|j: int| 0 <= j < i ==> is_v4_uuid_text(#[trigger] ids@[j]@),
            decreases events@.len() - i,
        {
            ids.push(new_v4_string());
            i = i + 1;
        }
        self.restart_expired_with_ids(events, &ids);
    }

    /// One tick of the engine: counts down by `delta_ms`, decides which sounds
    /// play, restarts what chains or repeats, and clears away what has been
    /// expired for `linger_ms` or longer.
    pub fn advance(&mut self, delta_ms: u64, linger_ms: u64) -> (r: TickReport)
        requires
            old(self).wf(),
        ensures
            final(self).wf(),
            r.update.timers@ == ticked(old(self).timers_of(), delta_ms),
            r.expired@ == expired_events(old(self).timers_of(), delta_ms),
            r.warning_def_ids@ == warning_ids(old(self).timers_of(), delta_ms),
            r.play_warning == exists|j: int|
                0 <= j < r.warning_def_ids@.len() && !list_has(old(self).muted_of(), (#[trigger] r.warning_def_ids@[j])@),
            r.expired_alerts@.len() == r.expired@.len(),
            forall|j: int| 0 <= j < r.expired@.len() ==> (#[trigger] r.expired_alerts@[j]) == !list_has(old(self).muted_of(), r.expired@[j].def_id@),
            exists|ids: Seq<String>|
                ids.len() == r.expired@.len() && (forall|i: int| 0 <= i < ids.len() ==> is_v4_uuid_text(#[trigger] ids[i]@))
                    && final(self).timers_of() == timers_after_cleanup(
                    after_expiries(
                        *old(self),
                        ticked(old(self).timers_of(), delta_ms),
                        r.expired@,
                        ids,
                    ),
                    linger_ms,
                ),
            final(self).boss_defs_of() == old(self).boss_defs_of(),
            final(self).buff_defs_of() == old(self).buff_defs_of(),
            final(self).muted_of() == old(self).muted_of(),
    {
        let (update, expired, warnings) = self.tick(delta_ms);
        let ghost after_tick = *self;
        let mut play_warning = false;
        let mut j: usize = 0;
        while j < warnings.len()
            invariant
                j <= warnings@.len(),
                play_warning == exists|k: int| 0 <= k < j && !list_has(self.muted_of(), (#[trigger] warnings@[k])@),
            decreases warnings@.len() - j,
        {
            if !self.is_muted(warnings[j].as_str()) {
                play_warning = true;
            }
            j = j + 1;
        }
        let mut alerts: Vec<bool> = Vec::new();
        let mut k: usize = 0;
        while k < expired.len()
            invariant
                k <= expired@.len(),
                alerts@.len() == k,
                forall|m: int| 0 <= m < k ==> (#[trigger] alerts@[m]) == !list_has(self.muted_of(), expired@[m].def_id@),
            decreases expired@.len() - k,
        {
            alerts.push(!self.is_muted(expired[k].def_id.as_str()));
            k = k + 1;
        }
        self.handle_expired(&expired);
        let ghost after_restart = self.timers_of();
        self.cleanup_expired(linger_ms);
        proof {
            let ids = choose|ids: Seq<String>|
                ids.len() == expired@.len() && (forall|i: int| 0 <= i < ids.len() ==> is_v4_uuid_text(#[trigger] ids[i]@))
                    && after_restart == after_expiries(
                    after_tick,
                    after_tick.timers_of(),
                    expired@,
                    ids,
                );
            assert(after_expiries(after_tick, after_tick.timers_of(), expired@, ids) == after_expiries(
                *old(self),
                ticked(old(self).timers_of(), delta_ms),
                expired@,
                ids,
            )) by {
                lemma_after_expiries_defs(after_tick, *old(self), after_tick.timers_of(), expired@, ids);
            }
        }
        TickReport { update, expired, warning_def_ids: warnings, play_warning, expired_alerts: alerts }
    }

    /// Starts a definition afresh: when a timer bearing its name is live, every
    /// timer bearing its name is removed first; then a new timer is started.
    pub fn trigger_timer(&mut self, timer_def_id: &str) -> (r: Result<String, String>)
        requires
            old(self).wf(),
        ensures
            final(self).wf(),
            final(self).boss_defs_of() == old(self).boss_defs_of(),
            final(self).buff_defs_of() == old(self).buff_defs_of(),
            final(self).muted_of() == old(self).muted_of(),
            match old(self).def_lookup(timer_def_id@) {
                Some(d) => {
                    let ts = old(self).timers_of();
                    let cleared = cleared_for_restart(ts, d.name@);
                    r is Ok && is_v4_uuid_text(r->Ok_0@) && exists|def_id: String|
                        def_id@ == timer_def_id@ && final(self).timers_of() == put_timer(
                            cleared,
                            new_timer(r->Ok_0, d, def_id),
                        )
                },
                None => r is Err && r->Err_0@ == "Timer definition '"@ + timer_def_id@ + "' not found"@
                    && final(self).timers_of() == old(self).timers_of(),
            },
    {
        if self.has_running_timers_for_def(timer_def_id) {
            self.stop_by_def_id(timer_def_id);
        }
        self.start_timer(timer_def_id)
    }

    /// Starts a buff's timer afresh, as `trigger_timer` does for its definition `buff_<id>`.
    pub fn trigger_buff_timer(&mut self, buff_id: &str) -> (r: Result<String, String>)
        requires
            old(self).wf(),
        ensures
            final(self).wf(),
            final(self).boss_defs_of() == old(self).boss_defs_of(),
            final(self).buff_defs_of() == old(self).buff_defs_of(),
            final(self).muted_of() == old(self).muted_of(),
            match old(self).def_lookup(buff_def_id_of(buff_id@)) {
                Some(d) => {
                    let ts = old(self).timers_of();
                    let cleared = cleared_for_restart(ts, d.name@);
                    r is Ok && is_v4_uuid_text(r->Ok_0@) && exists|def_id: String|
                        def_id@ == buff_def_id_of(buff_id@) && final(self).timers_of() == put_timer(
                            cleared,
                            new_timer(r->Ok_0, d, def_id),
                        )
                },
                None => r is Err && r->Err_0@ == "Timer definition '"@ + buff_def_id_of(buff_id@) + "' not found"@
                    && final(self).timers_of() == old(self).timers_of(),
            },
    {
        let def_id = buff_def_id(buff_id);
        let r = self.trigger_timer(def_id.as_str());
        proof {
            if r is Ok {
                assert(def_id@ == buff_def_id_of(buff_id@));
            }
        }
        r
    }

    /// What a buff's hotkey does: like `trigger_buff_timer`, and the expired
    /// timers of the buff's definition are cleared away before the new one starts.
    pub fn restart_buff_from_key(&mut self, buff_id: &str) -> (r: Result<String, String>)
        requires
            old(self).wf(),
        ensures
            final(self).wf(),
            final(self).boss_defs_of() == old(self).boss_defs_of(),
            final(self).buff_defs_of() == old(self).buff_defs_of(),
            final(self).muted_of() == old(self).muted_of(),
            match old(self).def_lookup(buff_def_id_of(buff_id@)) {
                Some(d) => {
                    let ts = old(self).timers_of();
                    let cleared = timers_without_expired_of(cleared_for_restart(ts, d.name@), buff_def_id_of(buff_id@));
                    r is Ok && is_v4_uuid_text(r->Ok_0@) && exists|def_id: String|
                        def_id@ == buff_def_id_of(buff_id@) && final(self).timers_of() == put_timer(
                            cleared,
                            new_timer(r->Ok_0, d, def_id),
                        )
                },
                None => r is Err && r->Err_0@ == "Timer definition '"@ + buff_def_id_of(buff_id@) + "' not found"@
                    && final(self).timers_of() == timers_without_expired_of(old(self).timers_of(), buff_def_id_of(buff_id@)),
            },
    {
        let def_id = buff_def_id(buff_id);
        if self.has_running_timers_for_def(def_id.as_str()) {
            self.stop_by_def_id(def_id.as_str());
        }
        self.stop_expired_by_def_id(def_id.as_str());
        let r = self.start_timer(def_id.as_str());
        proof {
            if r is Ok {
                assert(def_id@ == buff_def_id_of(buff_id@));
            }
        }
        r
    }

    /// The running timers, in order.
    pub fn get_timers(&self) -> (r: Vec<Timer>)
        ensures
            r@ == self.timers_of(),
    {
        copy_timers(&self.timers)
    }
}

/// The timers left before a definition is started afresh: when a timer bearing
/// its name is live, every timer bearing its name is gone.
pub open spec fn cleared_for_restart(ts: Seq<Timer>, name: Seq<char>) -> Seq<Timer> {
    if has_live_timer_named(ts, name) {
        timers_without_name(ts, name)
    } else {
        ts
    }
}

/// A tick keeps every timer in place under its id, name and definition; a
/// timer is expired after it exactly when it was expired or had no more than
/// `delta_ms` left; time left never grows, and a timer that expires on the tick
/// has none left.
pub proof fn lemma_tick_shape(ts: Seq<Timer>, delta_ms: u64)
    ensures
        ticked(ts, delta_ms).len() == ts.len(),
        forall|i: int| 0 <= i < ts.len() ==> {
            let a = #[trigger] ticked(ts, delta_ms)[i];
            &&& a.id == ts[i].id
            &&& a.name == ts[i].name
            &&& a.def_id == ts[i].def_id
            &&& (is_expired(a) <==> (is_expired(ts[i]) || ts[i].remaining_ms <= delta_ms))
            &&& a.remaining_ms <= ts[i].remaining_ms
            &&& (is_expired(a) ==> a.remaining_ms == 0 || is_expired(ts[i]))
        },
{
}

/// The expiry reports of a tick are exactly the reports of the timers that run out on it.
pub proof fn lemma_expired_events_exact(ts: Seq<Timer>, delta_ms: u64)
    ensures
        forall|j: int| 0 <= j < expired_events(ts, delta_ms).len() ==> exists|i: int|
            0 <= i < ts.len() && expires_on_tick(ts[i], delta_ms) && (#[trigger] expired_events(ts, delta_ms)[j])
                == expired_event_of(ts[i]),
        forall|i: int| 0 <= i < ts.len() && expires_on_tick(#[trigger] ts[i], delta_ms) ==> expired_events(ts, delta_ms).contains(
            expired_event_of(ts[i]),
        ),
    decreases ts.len(),
{
    if ts.len() > 0 {
        let p = ts.drop_last();
        lemma_expired_events_exact(p, delta_ms);
        let e = expired_events(p, delta_ms);
        assert forall|i: int| 0 <= i < p.len() implies p[i] == ts[i] by {}
        assert(ts[ts.len() - 1] == ts.last());
        if expires_on_tick(ts.last(), delta_ms) {
            let e2 = e.push(expired_event_of(ts.last()));
            assert forall|j: int| 0 <= j < e2.len() implies exists|i: int|
                0 <= i < ts.len() && expires_on_tick(ts[i], delta_ms) && (#[trigger] e2[j]) == expired_event_of(ts[i]) by {
                if j < e.len() {
                    assert(e2[j] == e[j]);
                    let i = choose|i: int| 0 <= i < p.len() && expires_on_tick(p[i], delta_ms) && e[j] == expired_event_of(p[i]);
                    assert(ts[i] == p[i]);
                } else {
                    assert(e2[j] == expired_event_of(ts[ts.len() - 1]));
                }
            }
            assert forall|i: int| 0 <= i < ts.len() && expires_on_tick(#[trigger] ts[i], delta_ms) implies e2.contains(expired_event_of(ts[i])) by {
                if i < p.len() {
                    assert(p[i] == ts[i]);
                    let k = choose|k: int| 0 <= k < e.len() && e[k] == expired_event_of(p[i]);
                    assert(e2[k] == e[k]);
                } else {
                    assert(e2[e.len() as int] == expired_event_of(ts[i]));
                }
            }
        } else {
            assert forall|j: int| 0 <= j < e.len() implies exists|i: int|
                0 <= i < ts.len() && expires_on_tick(ts[i], delta_ms) && (#[trigger] e[j]) == expired_event_of(ts[i]) by {
                let i = choose|i: int| 0 <= i < p.len() && expires_on_tick(p[i], delta_ms) && e[j] == expired_event_of(p[i]);
                assert(ts[i] == p[i]);
            }
            assert forall|i: int| 0 <= i < ts.len() && expires_on_tick(#[trigger] ts[i], delta_ms) implies e.contains(expired_event_of(ts[i])) by {
                assert(p[i] == ts[i]);
            }
        }
    }
}

/// `w` is the definition id of a timer that warns on a tick of `delta_ms`.
pub open spec fn warned_by_some_timer(ts: Seq<Timer>, delta_ms: u64, w: String) -> bool {
    exists|i: int| 0 <= i < ts.len() && warns_on_tick(ts[i], delta_ms) && w == ts[i].def_id
}

/// Every definition id warned about on a tick is that of a timer that enters
/// or is within its warning lead on that tick.
pub proof fn lemma_warning_ids_sound(ts: Seq<Timer>, delta_ms: u64)
    ensures
        forall|j: int| 0 <= j < warning_ids(ts, delta_ms).len() ==> warned_by_some_timer(ts, delta_ms, #[trigger] warning_ids(ts, delta_ms)[j]),
    decreases ts.len(),
{
    if ts.len() > 0 {
        let p = ts.drop_last();
        lemma_warning_ids_sound(p, delta_ms);
        let t = ts.last();
        lemma_warning_step(warning_ids(p, delta_ms), t, delta_ms);
        assert(ts[ts.len() - 1] == t);
        assert forall|j: int| 0 <= j < warning_ids(ts, delta_ms).len() implies warned_by_some_timer(ts, delta_ms, #[trigger] warning_ids(ts, delta_ms)[j]) by {
            if j < warning_ids(p, delta_ms).len() {
                assert(warning_ids(ts, delta_ms)[j] == warning_ids(p, delta_ms)[j]);
                assert(warned_by_some_timer(p, delta_ms, warning_ids(p, delta_ms)[j]));
                let i = choose|i: int| 0 <= i < p.len() && warns_on_tick(p[i], delta_ms) && warning_ids(p, delta_ms)[j] == p[i].def_id;
                assert(ts[i] == p[i]);
            } else {
                let i = ts.len() - 1;
                assert(warns_on_tick(ts[i], delta_ms) && warning_ids(ts, delta_ms)[j] == ts[i].def_id);
            }
        }
    }
}

/// Starting a timer from a definition leaves a live timer with the definition's
/// name, under the new id.
pub proof fn lemma_start_makes_live(ts: Seq<Timer>, id: String, d: TimerDef, def_id: String)
    ensures
        has_live_timer_named(put_timer(ts, new_timer(id, d, def_id)), d.name@),
        put_timer(ts, new_timer(id, d, def_id)).contains(new_timer(id, d, def_id)),
{
    lemma_timer_index(ts, id@);
    let t = new_timer(id, d, def_id);
    let r = put_timer(ts, t);
    let i = timer_index(ts, id@);
    let k = if i < ts.len() {
        i
    } else {
        ts.len() as int
    };
    assert(r[k] == t);
}

/// Stopping the timer just started under a fresh id gives back the timers as they were.
pub proof fn lemma_start_then_stop(ts: Seq<Timer>, id: String, d: TimerDef, def_id: String)
    requires
        forall|j: int| 0 <= j < ts.len() ==> (#[trigger] ts[j]).id@ != id@,
    ensures
        timers_without_id(put_timer(ts, new_timer(id, d, def_id)), id@) == ts,
{
    lemma_timer_index(ts, id@);
    let t = new_timer(id, d, def_id);
    assert(put_timer(ts, t) == ts.push(t));
    assert(ts.push(t).drop_last() =~= ts);
    lemma_filter_keeps_all(ts, |x: Timer| x.id@ != id@);
}

/// A filter that accepts every timer keeps the list as it is.
pub proof fn lemma_filter_keeps_all(ts: Seq<Timer>, keep: spec_fn(Timer) -> bool)
    requires
        forall|j: int| 0 <= j < ts.len() ==> keep(#[trigger] ts[j]),
    ensures
        filter_timers(ts, keep) == ts,
    decreases ts.len(),
{
    if ts.len() > 0 {
        assert forall|j: int| 0 <= j < ts.drop_last().len() implies keep(#[trigger] ts.drop_last()[j]) by {
            assert(ts.drop_last()[j] == ts[j]);
        }
        lemma_filter_keeps_all(ts.drop_last(), keep);
        assert(ts[ts.len() - 1] == ts.last());
        assert(ts.drop_last().push(ts.last()) =~= ts);
    }
}

/// After a definition is triggered, exactly one live timer bears its name.
pub proof fn lemma_trigger_one_live(ts: Seq<Timer>, id: String, d: TimerDef, def_id: String)
    ensures
        ({
            let r = put_timer(cleared_for_restart(ts, d.name@), new_timer(id, d, def_id));
            exists|i: int|
                0 <= i < r.len() && (#[trigger] r[i]).name@ == d.name@ && !is_expired(r[i]) && forall|j: int|
                    0 <= j < r.len() && j != i ==> !((#[trigger] r[j]).name@ == d.name@ && !is_expired(r[j]))
        }),
{
    let cleared = cleared_for_restart(ts, d.name@);
    lemma_filter_timers(ts, |x: Timer| x.name@ != d.name@);
    assert(forall|j: int| 0 <= j < cleared.len() ==> !((#[trigger] cleared[j]).name@ == d.name@ && !is_expired(cleared[j])));
    lemma_timer_index(cleared, id@);
    let t = new_timer(id, d, def_id);
    let r = put_timer(cleared, t);
    let i = timer_index(cleared, id@);
    let k = if i < cleared.len() {
        i
    } else {
        cleared.len() as int
    };
    assert(r[k] == t);
    assert(r[k].name@ == d.name@ && !is_expired(r[k]));
    assert forall|j: int| 0 <= j < r.len() && j != k implies !((#[trigger] r[j]).name@ == d.name@ && !is_expired(r[j])) by {
        assert(r[j] == cleared[j]);
    }
    assert(0 <= k < r.len());
    assert(exists|i: int|
        0 <= i < r.len() && (#[trigger] r[i]).name@ == d.name@ && !is_expired(r[i]) && forall|j: int|
            0 <= j < r.len() && j != i ==> !((#[trigger] r[j]).name@ == d.name@ && !is_expired(r[j])));
}

/// A cleanup never removes a timer that has not expired, and keeps an expired
/// timer only while it has been expired for less than `linger_ms`.
pub proof fn lemma_cleanup_keeps_live(ts: Seq<Timer>, linger_ms: u64)
    ensures
        forall|i: int| 0 <= i < ts.len() && !is_expired(#[trigger] ts[i]) ==> timers_after_cleanup(ts, linger_ms).contains(ts[i]),
        forall|j: int| 0 <= j < timers_after_cleanup(ts, linger_ms).len() && is_expired(#[trigger] timers_after_cleanup(ts, linger_ms)[j])
            ==> timers_after_cleanup(ts, linger_ms)[j].overdue_ms < linger_ms,
{
    lemma_filter_timers(ts, |t: Timer| !is_expired(t) || t.overdue_ms < linger_ms);
}

/// Handling expiries depends on an engine only through its definitions.
pub proof fn lemma_after_expiries_defs(
    a: TimerEngine,
    b: TimerEngine,
    ts: Seq<Timer>,
    es: Seq<TimerExpiredEvent>,
    ids: Seq<String>,
)
    requires
        a.boss_defs_of() == b.boss_defs_of(),
        a.buff_defs_of() == b.buff_defs_of(),
    ensures
        after_expiries(a, ts, es, ids) == after_expiries(b, ts, es, ids),
    decreases es.len(),
{
    if es.len() > 0 && ids.len() > 0 {
        lemma_after_expiries_defs(a, b, ts, es.drop_last(), ids.drop_last());
    }
}

/// The definitions keyed by their ids, in order.
fn keyed_defs(defs: Vec<TimerDef>) -> (r: Vec<(String, TimerDef)>)
    ensures
        assoc_map(r@) == defs_map(defs@),
{
    let mut out: Vec<(String, TimerDef)> = Vec::new();
    let mut i: usize = 0;
    while i < defs.len()
        invariant
            i <= defs@.len(),
            assoc_map(out@) == defs_map(defs@.take(i as int)),
        decreases defs@.len() - i,
    {
        let d = defs[i].clone();
        proof {
            assert(defs@.take(i as int + 1).drop_last() =~= defs@.take(i as int));
            lemma_assoc_push(out@, (d.id, d));
        }
        out.push((d.id.clone(), d));
        i = i + 1;
    }
    proof {
        assert(defs@.take(defs@.len() as int) =~= defs@);
    }
    out
}

} // verus!
