//! Boss definitions: the timers a boss fight offers, their defaults, and the
//! rules a definition must meet to be used.
use crate::text::{copy_opt, lemma_text_lt_irreflexive, lemma_text_lt_total, lemma_text_lt_trans, text_eq, text_le, text_less, text_lt};
use vstd::multiset::Multiset;
use vstd::prelude::*;

verus! {

broadcast use {vstd::seq_lib::group_to_multiset_ensures, vstd::multiset::group_multiset_axioms};

/// Name and description of a boss.
#[derive(Debug, PartialEq, Eq)]
pub struct BossInfo {
    pub name: String,
    pub description: String,
}

/// One timer that a boss fight offers. Durations are whole milliseconds.
#[derive(Debug, PartialEq, Eq)]
pub struct TimerDef {
    pub id: String,
    pub name: String,
    pub icon: String,
    pub duration_ms: u64,
    pub hotkey: Option<String>,
    pub chain_to: Option<String>,
    pub color: String,
    pub warning_ms: u64,
    pub repeat: bool,
    pub timer_type: Option<String>,
    pub description: Option<String>,
}

/// How the overlay is drawn; the opacity is kept as the bits of an `f64`.
#[derive(Debug, PartialEq, Eq, Clone, Copy)]
pub struct DisplayConfig {
    pub opacity_bits: u64,
}

/// A boss with its timers and display settings.
#[derive(Debug, PartialEq, Eq)]
pub struct BossConfig {
    pub boss: BossInfo,
    pub timers: Vec<TimerDef>,
    pub display: DisplayConfig,
}

/// Why a boss definition was refused.
#[derive(Debug, PartialEq, Eq)]
pub enum ConfigError {
    EmptyBossName,
    InvalidDuration { timer_id: String },
    UnknownChainTarget { timer_id: String, chain_to: String },
}

impl Clone for BossInfo {
    fn clone(&self) -> (r: Self)
        ensures
            r == *self,
    {
        BossInfo { name: self.name.clone(), description: self.description.clone() }
    }
}

impl Clone for TimerDef {
    fn clone(&self) -> (r: Self)
        ensures
            r == *self,
    {
        TimerDef {
            id: self.id.clone(),
            name: self.name.clone(),
            icon: self.icon.clone(),
            duration_ms: self.duration_ms,
            hotkey: copy_opt(&self.hotkey),
            chain_to: copy_opt(&self.chain_to),
            color: self.color.clone(),
            warning_ms: self.warning_ms,
            repeat: self.repeat,
            timer_type: copy_opt(&self.timer_type),
            description: copy_opt(&self.description),
        }
    }
}

/// A copy of a list of timer definitions.
pub fn copy_timer_defs(v: &Vec<TimerDef>) -> (r: Vec<TimerDef>)
    ensures
        r@ == v@,
{
    let mut out: Vec<TimerDef> = Vec::new();
    let mut i: usize = 0;
    while i < v.len()
        invariant
            i <= v@.len(),
            out@ == v@.take(i as int),
        decreases v@.len() - i,
    {
        out.push(v[i].clone());
        proof {
            assert(v@.take(i as int + 1) =~= v@.take(i as int).push(v@[i as int]));
        }
        i = i + 1;
    }
    proof {
        assert(v@.take(v@.len() as int) =~= v@);
    }
    out
}

/// Two boss definitions hold the same values.
pub open spec fn same_config(a: BossConfig, b: BossConfig) -> bool {
    a.boss == b.boss && a.timers@ == b.timers@ && a.display == b.display
}

impl Clone for BossConfig {
    fn clone(&self) -> (r: Self)
        ensures
            same_config(r, *self),
    {
        BossConfig {
            boss: self.boss.clone(),
            timers: copy_timer_defs(&self.timers),
            display: self.display,
        }
    }
}

/// The icon of a timer whose definition names none.
pub fn default_icon() -> (r: String)
    ensures
        r@ == "⏱"@,
{
    String::from_str("⏱")
}

/// The color of a timer whose definition names none.
pub fn default_color() -> (r: String)
    ensures
        r@ == "#00FF00"@,
{
    String::from_str("#00FF00")
}

/// The warning lead of a timer whose definition names none: three seconds.
pub fn default_warning_ms() -> (r: u64)
    ensures
        r == 3000,
{
    3000
}

/// The overlay opacity when none is given: the bits of `0.85_f64`.
pub fn default_opacity_bits() -> (r: u64)
    ensures
        r == 0x3FEB_3333_3333_3333,
{
    0x3FEB_3333_3333_3333
}

impl Default for DisplayConfig {
    fn default() -> (r: Self)
        ensures
            r.opacity_bits == 0x3FEB_3333_3333_3333,
    {
        DisplayConfig { opacity_bits: default_opacity_bits() }
    }
}

/// Some timer of the list has this id.
pub open spec fn has_timer_id(timers: Seq<TimerDef>, id: Seq<char>) -> bool {
    exists|j: int| 0 <= j < timers.len() && (#[trigger] timers[j]).id@ == id
}

/// What is wrong with one timer, measured against the ids of all timers of its boss.
pub open spec fn timer_error(t: TimerDef, all: Seq<TimerDef>) -> Option<ConfigError> {
    if t.duration_ms == 0 {
        Some(ConfigError::InvalidDuration { timer_id: t.id })
    } else {
        match t.chain_to {
            Some(c) => if has_timer_id(all, c@) {
                None
            } else {
                Some(ConfigError::UnknownChainTarget { timer_id: t.id, chain_to: c })
            },
            None => None,
        }
    }
}

/// The error of the first faulty timer of `ts`, if any.
pub open spec fn first_timer_error(ts: Seq<TimerDef>, all: Seq<TimerDef>) -> Option<ConfigError>
    decreases ts.len(),
{
    if ts.len() == 0 {
        None
    } else {
        match timer_error(ts[0], all) {
            Some(e) => Some(e),
            None => first_timer_error(ts.drop_first(), all),
        }
    }
}

/// What is wrong with a boss definition: an empty name, else its first faulty timer.
pub open spec fn config_error(c: BossConfig) -> Option<ConfigError> {
    if c.boss.name@.len() == 0 {
        Some(ConfigError::EmptyBossName)
    } else {
        first_timer_error(c.timers@, c.timers@)
    }
}

/// Whether some timer of the list has the id `id`.
pub fn contains_timer_id(timers: &Vec<TimerDef>, id: &str) -> (r: bool)
    ensures
        r == has_timer_id(timers@, id@),
{
    let mut i: usize = 0;
    while i < timers.len()
        invariant
            i <= timers@.len(),
            forall|j: int| 0 <= j < i ==> (#[trigger] timers@[j]).id@ != id@,
        decreases timers@.len() - i,
    {
        if text_eq(timers[i].id.as_str(), id) {
            return true;
        }
        i = i + 1;
    }
    false
}

/// Checks a boss definition: its name is not empty, every timer lasts longer
/// than zero, and every timer that chains names a timer of the same boss.
/// The first rule broken, in that order and timer by timer, is reported.
pub fn validate_config(config: &BossConfig) -> (r: Result<(), ConfigError>)
    ensures
        r == (match config_error(*config) {
            Some(e) => Err(e),
            None => Ok(()),
        }),
{
    if config.boss.name.as_str().is_empty() {
        return Err(ConfigError::EmptyBossName);
    }
    let timers = &config.timers;
    let mut i: usize = 0;
    proof {
        assert(timers@.skip(0) =~= timers@);
    }
    while i < timers.len()
        invariant
            i <= timers@.len(),
            config.boss.name@.len() != 0,
            timers@ == config.timers@,
            first_timer_error(timers@, timers@) == first_timer_error(timers@.skip(i as int), timers@),
        decreases timers@.len() - i,
    {
        let t = &timers[i];
        proof {
            assert(timers@.skip(i as int)[0] == *t);
            assert(timers@.skip(i as int).drop_first() =~= timers@.skip(i as int + 1));
        }
        if t.duration_ms == 0 {
            return Err(ConfigError::InvalidDuration { timer_id: t.id.clone() });
        }
        match &t.chain_to {
            Some(c) => {
                if !contains_timer_id(timers, c.as_str()) {
                    return Err(
                        ConfigError::UnknownChainTarget { timer_id: t.id.clone(), chain_to: c.clone() },
                    );
                }
            },
            None => {},
        }
        i = i + 1;
    }
    Ok(())
}

/// No timer of `ts` is faulty exactly when `first_timer_error` finds nothing.
pub proof fn lemma_first_timer_error_none(ts: Seq<TimerDef>, all: Seq<TimerDef>)
    ensures
        first_timer_error(ts, all) is None <==> forall|j: int| 0 <= j < ts.len() ==> timer_error(#[trigger] ts[j], all) is None,
    decreases ts.len(),
{
    if ts.len() > 0 {
        lemma_first_timer_error_none(ts.drop_first(), all);
        assert forall|j: int| 0 < j < ts.len() implies ts[j] == ts.drop_first()[j - 1] by {}
        if first_timer_error(ts, all) is None {
            assert forall|j: int| 0 <= j < ts.len() implies timer_error(#[trigger] ts[j], all) is None by {
                if j > 0 {
                    assert(ts[j] == ts.drop_first()[j - 1]);
                }
            }
        }
    }
}

/// A boss definition is accepted exactly when its name is not empty, every
/// timer lasts longer than zero, and every chain names a timer of the boss.
pub proof fn lemma_config_valid_iff(c: BossConfig)
    ensures
        config_error(c) is None <==> {
            &&& c.boss.name@.len() > 0
            &&& forall|j: int| 0 <= j < c.timers@.len() ==> (#[trigger] c.timers@[j]).duration_ms > 0
            &&& forall|j: int| 0 <= j < c.timers@.len() ==> ((#[trigger] c.timers@[j]).chain_to is Some
                ==> has_timer_id(c.timers@, c.timers@[j].chain_to->0@))
        },
{
    lemma_first_timer_error_none(c.timers@, c.timers@);
    if c.boss.name@.len() > 0 && first_timer_error(c.timers@, c.timers@) is None {
        assert forall|j: int| 0 <= j < c.timers@.len() implies (#[trigger] c.timers@[j]).duration_ms > 0 by {
            assert(timer_error(c.timers@[j], c.timers@) is None);
        }
        assert forall|j: int| 0 <= j < c.timers@.len() && (#[trigger] c.timers@[j]).chain_to is Some implies
            has_timer_id(c.timers@, c.timers@[j].chain_to->0@) by {
            assert(timer_error(c.timers@[j], c.timers@) is None);
        }
    }
}

/// The list is in text order of its names.
pub open spec fn sorted_by_name<V>(s: Seq<(String, V)>) -> bool {
    forall|i: int, j: int| 0 <= i < j < s.len() ==> text_le(s[i].0@, s[j].0@)
}

/// The entries with name `k`, in list order.
pub open spec fn entries_named<V>(s: Seq<(String, V)>, k: Seq<char>) -> Seq<(String, V)>
    decreases s.len(),
{
    if s.len() == 0 {
        Seq::empty()
    } else if s.last().0@ == k {
        entries_named(s.drop_last(), k).push(s.last())
    } else {
        entries_named(s.drop_last(), k)
    }
}

/// Inserting an entry before which every later entry has another name adds it
/// at the end of the entries with its name.
pub proof fn lemma_entries_named_insert<V>(s: Seq<(String, V)>, p: int, e: (String, V), k: Seq<char>)
    requires
        0 <= p <= s.len(),
        forall|j: int| p <= j < s.len() ==> (#[trigger] s[j]).0@ != e.0@,
    ensures
        entries_named(s.insert(p, e), k) == (if k == e.0@ {
            entries_named(s, k).push(e)
        } else {
            entries_named(s, k)
        }),
    decreases s.len(),
{
    if p == s.len() {
        assert(s.insert(p, e) =~= s.push(e));
        assert(s.push(e).drop_last() =~= s);
    } else {
        let d = s.drop_last();
        assert forall|j: int| p <= j < d.len() implies (#[trigger] d[j]).0@ != e.0@ by {
            assert(d[j] == s[j]);
        }
        lemma_entries_named_insert(d, p, e, k);
        assert(s.insert(p, e) =~= d.insert(p, e).push(s.last()));
        assert(d.insert(p, e).push(s.last()).drop_last() =~= d.insert(p, e));
        assert(s[s.len() - 1] == s.last());
    }
}

/// Sorts named entries by name in text order, keeping entries with equal
/// names in the order they came.
pub fn sort_bosses<V>(entries: Vec<(String, V)>) -> (r: Vec<(String, V)>)
    ensures
        sorted_by_name(r@),
        forall|k: Seq<char>| #[trigger] entries_named(r@, k) == entries_named(entries@, k),
        r@.to_multiset() == entries@.to_multiset(),
{
    let ghost orig = entries@;
    let mut rest = entries;
    let mut out: Vec<(String, V)> = Vec::new();
    let ghost mut i: int = 0;
    proof {
        assert(orig.skip(0) =~= orig);
        assert forall|k: Seq<char>| #[trigger] entries_named(out@, k) == entries_named(orig.take(0), k) by {
            assert(orig.take(0) =~= Seq::<(String, V)>::empty());
        }
    }
    while rest.len() > 0
        invariant
            0 <= i <= orig.len(),
            rest@ == orig.skip(i),
            sorted_by_name(out@),
            out@.to_multiset().add(rest@.to_multiset()) == orig.to_multiset(),
            forall|k: Seq<char>| #[trigger] entries_named(out@, k) == entries_named(orig.take(i), k),
        decreases rest@.len(),
    {
        let ghost before_rest = rest@;
        let e = rest.remove(0);
        proof {
            assert(e == orig[i]);
            assert(orig.skip(i + 1) =~= orig.skip(i).drop_first());
            assert(orig.take(i + 1).drop_last() =~= orig.take(i));
            assert(orig.take(i + 1).last() == e);
        }
        proof {
            assert(before_rest.remove(0) == rest@);
            assert(before_rest.to_multiset() == rest@.to_multiset().insert(e)) by {
                assert(before_rest.remove(0).to_multiset() == before_rest.to_multiset().remove(
                    before_rest[0],
                ));
                assert(before_rest.to_multiset().contains(e));
            }
        }
        // Place `e` after every entry whose name is not greater than its own.
        let mut p: usize = 0;
        while p < out.len() && !text_less(e.0.as_str(), out[p].0.as_str())
            invariant
                p <= out@.len(),
                forall|q: int| 0 <= q < p ==> !text_lt(e.0@, (#[trigger] out@[q]).0@),
            decreases out@.len() - p,
        {
            p = p + 1;
        }
        let ghost old_out = out@;
        out.insert(p, e);
        proof {
            assert(out@ == old_out.insert(p as int, e));
            assert forall|j: int| p <= j < old_out.len() implies (#[trigger] old_out[j]).0@ != e.0@ by {
                assert(text_lt(e.0@, old_out[p as int].0@));
                if j > p {
                    assert(text_le(old_out[p as int].0@, old_out[j].0@));
                    if old_out[p as int].0@ != old_out[j].0@ {
                        lemma_text_lt_trans(e.0@, old_out[p as int].0@, old_out[j].0@);
                    }
                }
                lemma_text_lt_irreflexive(e.0@);
            }
            assert forall|k: Seq<char>| #[trigger] entries_named(out@, k) == entries_named(orig.take(i + 1), k) by {
                lemma_entries_named_insert(old_out, p as int, e, k);
            }
            i = i + 1;
            assert forall|i: int, j: int| 0 <= i < j < out@.len() implies text_le(
                out@[i].0@,
                out@[j].0@,
            ) by {
                if j == p {
                    lemma_text_lt_total(out@[i].0@, e.0@);
                    assert(out@[i] == old_out[i]);
                } else if i == p {
                    // every later entry is at least the one that first exceeded `e`
                    assert(out@[j] == old_out[j - 1]);
                    assert(text_lt(e.0@, old_out[p as int].0@));
                    if j - 1 > p {
                        assert(text_le(old_out[p as int].0@, old_out[j - 1].0@));
                        if old_out[p as int].0@ != old_out[j - 1].0@ {
                            lemma_text_lt_trans(e.0@, old_out[p as int].0@, old_out[j - 1].0@);
                        }
                    }
                } else {
                    let oi = if i < p { i } else { i - 1 };
                    let oj = if j < p { j } else { j - 1 };
                    assert(out@[i] == old_out[oi]);
                    assert(out@[j] == old_out[oj]);
                }
            }
        }
    }
    proof {
        assert(rest@.to_multiset() =~= Multiset::<(String, V)>::empty());
        assert(out@.to_multiset().add(Multiset::empty()) =~= out@.to_multiset());
        assert(i == orig.len());
        assert(orig.take(i) =~= orig);
    }
    out
}

} // verus!
