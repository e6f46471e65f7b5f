//! Which global shortcuts to register: the two global keys, the visible timers
//! of the current boss, and the enabled buffs, each key at most once; and which
//! buff hotkeys collide with keys already in use.
use crate::assoc::assoc_map;
use crate::boss_config::{BossConfig, TimerDef};
use crate::buff_config::BuffItem;
use crate::settings::{
    effective_hotkey, effective_hotkey_of, lemma_effective_hotkey, list_has, list_or_empty, lists_view, overrides_of, AppSettings,
};
use crate::text::{text_eq, texts_contain};
use vstd::prelude::*;

verus! {

/// What a shortcut does when pressed.
#[derive(Debug, PartialEq, Eq)]
pub enum ShortcutAction {
    StopAll,
    BackToMain,
    BossTimer(String),
    Buff(String),
}

/// A hotkey and what it does.
#[derive(Debug, PartialEq, Eq)]
pub struct ShortcutBinding {
    pub hotkey: String,
    pub action: ShortcutAction,
}

/// Some binding of the plan uses the key.
pub open spec fn plan_has_key(p: Seq<ShortcutBinding>, k: Seq<char>) -> bool {
    exists|j: int| 0 <= j < p.len() && (#[trigger] p[j]).hotkey@ == k
}

/// The two global shortcuts, stop-all first.
pub open spec fn global_bindings(stop_all: String, back: String) -> Seq<ShortcutBinding> {
    seq![
        ShortcutBinding { hotkey: stop_all, action: ShortcutAction::StopAll },
        ShortcutBinding { hotkey: back, action: ShortcutAction::BackToMain },
    ]
}

/// The plan `p` extended, timer by timer, with each visible timer whose hotkey
/// is not yet taken.
pub open spec fn add_boss_timers(
    p: Seq<ShortcutBinding>,
    ts: Seq<TimerDef>,
    hidden: Seq<String>,
    overrides: Seq<(String, String)>,
) -> Seq<ShortcutBinding>
    decreases ts.len(),
{
    if ts.len() == 0 {
        p
    } else {
        let q = add_boss_timers(p, ts.drop_last(), hidden, overrides);
        let t = ts.last();
        if list_has(hidden, t.id@) {
            q
        } else {
            match effective_hotkey_of(overrides, t) {
                Some(h) => if plan_has_key(q, h@) {
                    q
                } else {
                    q.push(ShortcutBinding { hotkey: h, action: ShortcutAction::BossTimer(t.id) })
                },
                None => q,
            }
        }
    }
}

/// The plan `p` extended, buff by buff, with each enabled buff whose hotkey is
/// not empty and not yet taken.
pub open spec fn add_buffs(p: Seq<ShortcutBinding>, bs: Seq<BuffItem>) -> Seq<ShortcutBinding>
    decreases bs.len(),
{
    if bs.len() == 0 {
        p
    } else {
        let q = add_buffs(p, bs.drop_last());
        let b = bs.last();
        if !b.enabled {
            q
        } else {
            match b.hotkey {
                Some(h) => if h@.len() == 0 || plan_has_key(q, h@) {
                    q
                } else {
                    q.push(ShortcutBinding { hotkey: h, action: ShortcutAction::Buff(b.id) })
                },
                None => q,
            }
        }
    }
}

/// The shortcuts to register: the global two, then the boss's visible timers
/// when a boss is given, then the buffs.
pub open spec fn shortcut_plan(
    boss_id: Option<String>,
    boss_config: Option<BossConfig>,
    settings: AppSettings,
    buffs: Seq<BuffItem>,
) -> Seq<ShortcutBinding> {
    let p0 = global_bindings(settings.stop_all_hotkey, settings.back_hotkey);
    let p1 = match (boss_id, boss_config) {
        (Some(id), Some(c)) => add_boss_timers(
            p0,
            c.timers@,
            list_or_empty(lists_view(settings.hidden_timers@), id@),
            overrides_of(settings, id@),
        ),
        _ => p0,
    };
    add_buffs(p1, buffs)
}

/// The binding at `j` uses a key no earlier binding uses.
pub open spec fn fresh_key_at(p: Seq<ShortcutBinding>, j: int) -> bool {
    forall|i: int| 0 <= i < j ==> (#[trigger] p[i]).hotkey@ != p[j].hotkey@
}

/// The binding starts a visible timer of the list, on the hotkey that timer answers to.
pub open spec fn binds_visible_timer(
    b: ShortcutBinding,
    ts: Seq<TimerDef>,
    hidden: Seq<String>,
    overrides: Seq<(String, String)>,
) -> bool {
    exists|k: int|
        0 <= k < ts.len() && !list_has(hidden, (#[trigger] ts[k]).id@) && b.action == ShortcutAction::BossTimer(ts[k].id)
            && effective_hotkey_of(overrides, ts[k]) == Some(b.hotkey)
}

/// The binding starts an enabled buff of the list, on that buff's non-empty hotkey.
pub open spec fn binds_enabled_buff(b: ShortcutBinding, bs: Seq<BuffItem>) -> bool {
    exists|k: int|
        0 <= k < bs.len() && (#[trigger] bs[k]).enabled && b.action == ShortcutAction::Buff(bs[k].id) && bs[k].hotkey
            == Some(b.hotkey) && b.hotkey@.len() > 0
}

/// Adding boss timers keeps the plan as a prefix; each added binding starts a
/// visible timer on a key no earlier binding uses.
pub proof fn lemma_add_boss_timers(
    p: Seq<ShortcutBinding>,
    ts: Seq<TimerDef>,
    hidden: Seq<String>,
    overrides: Seq<(String, String)>,
)
    ensures
        add_boss_timers(p, ts, hidden, overrides).len() >= p.len(),
        forall|j: int| 0 <= j < p.len() ==> #[trigger] add_boss_timers(p, ts, hidden, overrides)[j] == p[j],
        forall|j: int|
            p.len() <= j < add_boss_timers(p, ts, hidden, overrides).len() ==> binds_visible_timer(
                #[trigger] add_boss_timers(p, ts, hidden, overrides)[j],
                ts,
                hidden,
                overrides,
            ) && fresh_key_at(add_boss_timers(p, ts, hidden, overrides), j),
    decreases ts.len(),
{
    if ts.len() > 0 {
        let pre = ts.drop_last();
        lemma_add_boss_timers(p, pre, hidden, overrides);
        let q = add_boss_timers(p, pre, hidden, overrides);
        let r = add_boss_timers(p, ts, hidden, overrides);
        let t = ts.last();
        assert(ts[ts.len() - 1] == t);
        assert forall|j: int| p.len() <= j < q.len() implies binds_visible_timer(q[j], ts, hidden, overrides) by {
            let k = choose|k: int|
                0 <= k < pre.len() && !list_has(hidden, (#[trigger] pre[k]).id@) && q[j].action
                    == ShortcutAction::BossTimer(pre[k].id) && effective_hotkey_of(overrides, pre[k]) == Some(q[j].hotkey);
            assert(ts[k] == pre[k]);
        }
        if r.len() > q.len() {
            assert(r == q.push(r[q.len() as int]));
            assert forall|j: int| 0 <= j < q.len() implies r[j] == q[j] by {}
            let b = r[q.len() as int];
            assert(!plan_has_key(q, b.hotkey@));
            assert(binds_visible_timer(b, ts, hidden, overrides)) by {
                let k = ts.len() - 1;
                assert(!list_has(hidden, ts[k].id@));
            }
            assert forall|j: int| p.len() <= j < r.len() implies binds_visible_timer(#[trigger] r[j], ts, hidden, overrides)
                && fresh_key_at(r, j) by {
                if j < q.len() {
                    assert(r[j] == q[j]);
                    assert forall|i: int| 0 <= i < j implies (#[trigger] r[i]).hotkey@ != r[j].hotkey@ by {
                        assert(r[i] == q[i]);
                    }
                } else {
                    assert forall|i: int| 0 <= i < j implies (#[trigger] r[i]).hotkey@ != r[j].hotkey@ by {
                        assert(r[i] == q[i]);
                    }
                }
            }
        } else {
            assert(r == q);
        }
    }
}

/// Adding buffs keeps the plan as a prefix; each added binding starts an
/// enabled buff on a non-empty key no earlier binding uses.
pub proof fn lemma_add_buffs(p: Seq<ShortcutBinding>, bs: Seq<BuffItem>)
    ensures
        add_buffs(p, bs).len() >= p.len(),
        forall|j: int| 0 <= j < p.len() ==> #[trigger] add_buffs(p, bs)[j] == p[j],
        forall|j: int|
            p.len() <= j < add_buffs(p, bs).len() ==> binds_enabled_buff(#[trigger] add_buffs(p, bs)[j], bs)
                && fresh_key_at(add_buffs(p, bs), j),
    decreases bs.len(),
{
    if bs.len() > 0 {
        let pre = bs.drop_last();
        lemma_add_buffs(p, pre);
        let q = add_buffs(p, pre);
        let r = add_buffs(p, bs);
        let b = bs.last();
        assert(bs[bs.len() - 1] == b);
        assert forall|j: int| p.len() <= j < q.len() implies binds_enabled_buff(q[j], bs) by {
            let k = choose|k: int|
                0 <= k < pre.len() && (#[trigger] pre[k]).enabled && q[j].action == ShortcutAction::Buff(pre[k].id)
                    && pre[k].hotkey == Some(q[j].hotkey) && q[j].hotkey@.len() > 0;
            assert(bs[k] == pre[k]);
        }
        if r.len() > q.len() {
            assert(r == q.push(r[q.len() as int]));
            assert forall|j: int| 0 <= j < q.len() implies r[j] == q[j] by {}
            let nb = r[q.len() as int];
            assert(!plan_has_key(q, nb.hotkey@));
            assert(binds_enabled_buff(nb, bs)) by {
                let k = bs.len() - 1;
                assert(bs[k].enabled);
            }
            assert forall|j: int| p.len() <= j < r.len() implies binds_enabled_buff(#[trigger] r[j], bs) && fresh_key_at(r, j) by {
                if j < q.len() {
                    assert(r[j] == q[j]);
                    assert forall|i: int| 0 <= i < j implies (#[trigger] r[i]).hotkey@ != r[j].hotkey@ by {
                        assert(r[i] == q[i]);
                    }
                } else {
                    assert forall|i: int| 0 <= i < j implies (#[trigger] r[i]).hotkey@ != r[j].hotkey@ by {
                        assert(r[i] == q[i]);
                    }
                }
            }
        } else {
            assert(r == q);
        }
    }
}

/// Adding boss timers only appends to the plan.
proof fn lemma_add_boss_timers_grows(
    p: Seq<ShortcutBinding>,
    ts: Seq<TimerDef>,
    hidden: Seq<String>,
    overrides: Seq<(String, String)>,
)
    ensures
        ({
            let q = add_boss_timers(p, ts.drop_last(), hidden, overrides);
            let r = add_boss_timers(p, ts, hidden, overrides);
            ts.len() > 0 ==> (r == q || exists|b: ShortcutBinding| r == q.push(b))
        }),
{
}

/// Every visible timer whose hotkey (the player's override, else its own) is
/// set ends up with that key used in the plan; and when neither the plan it
/// started from nor an earlier visible timer uses the key, the timer itself is
/// bound to it.
pub proof fn lemma_add_boss_timers_complete(
    p: Seq<ShortcutBinding>,
    ts: Seq<TimerDef>,
    hidden: Seq<String>,
    overrides: Seq<(String, String)>,
)
    ensures
        forall|k: int|
            0 <= k < ts.len() && !(exists|j: int| 0 <= j < hidden.len() && (#[trigger] hidden[j])@ == ts[k].id@)
                && (#[trigger] effective_hotkey_of(overrides, ts[k])) is Some ==> {
                let r = add_boss_timers(p, ts, hidden, overrides);
                let h = effective_hotkey_of(overrides, ts[k])->0;
                &&& plan_has_key(r, h@)
                &&& (!plan_has_key(p, h@) && (forall|m: int|
                    0 <= m < k && !(exists|j: int| 0 <= j < hidden.len() && (#[trigger] hidden[j])@ == ts[m].id@)
                        && (#[trigger] effective_hotkey_of(overrides, ts[m])) is Some ==> effective_hotkey_of(
                        overrides,
                        ts[m],
                    )->0@ != h@)) ==> r.contains(
                    ShortcutBinding { hotkey: h, action: ShortcutAction::BossTimer(ts[k].id) },
                )
            },
    decreases ts.len(),
{
    if ts.len() > 0 {
        let pre = ts.drop_last();
        let n = ts.len() - 1;
        lemma_add_boss_timers_complete(p, pre, hidden, overrides);
        lemma_add_boss_timers(p, pre, hidden, overrides);
        lemma_add_boss_timers_grows(p, ts, hidden, overrides);
        let q = add_boss_timers(p, pre, hidden, overrides);
        let r = add_boss_timers(p, ts, hidden, overrides);
        assert(ts[n] == ts.last());
        assert forall|k: int|
            0 <= k < ts.len() && !(exists|j: int| 0 <= j < hidden.len() && (#[trigger] hidden[j])@ == ts[k].id@)
                && (#[trigger] effective_hotkey_of(overrides, ts[k])) is Some implies {
                let h = effective_hotkey_of(overrides, ts[k])->0;
                &&& plan_has_key(r, h@)
                &&& (!plan_has_key(p, h@) && (forall|m: int|
                    0 <= m < k && !(exists|j: int| 0 <= j < hidden.len() && (#[trigger] hidden[j])@ == ts[m].id@)
                        && (#[trigger] effective_hotkey_of(overrides, ts[m])) is Some ==> effective_hotkey_of(
                        overrides,
                        ts[m],
                    )->0@ != h@)) ==> r.contains(
                    ShortcutBinding { hotkey: h, action: ShortcutAction::BossTimer(ts[k].id) },
                )
            } by {
            let h = effective_hotkey_of(overrides, ts[k])->0;
            let b = ShortcutBinding { hotkey: h, action: ShortcutAction::BossTimer(ts[k].id) };
            if k < n {
                assert(ts[k] == pre[k]);
                assert forall|m: int| 0 <= m < k implies ts[m] == pre[m] by {}
                if plan_has_key(q, h@) {
                    let j = choose|j: int| 0 <= j < q.len() && (#[trigger] q[j]).hotkey@ == h@;
                    assert(r[j] == q[j]);
                }
                if q.contains(b) {
                    let j = choose|j: int| 0 <= j < q.len() && q[j] == b;
                    assert(r[j] == q[j]);
                }
            } else {
                assert(!list_has(hidden, ts.last().id@));
                if plan_has_key(q, h@) {
                    let j = choose|j: int| 0 <= j < q.len() && (#[trigger] q[j]).hotkey@ == h@;
                    assert(r == q);
                    assert(r[j].hotkey@ == h@);
                    if !plan_has_key(p, h@) {
                        if j < p.len() {
                            assert(q[j] == p[j]);
                        } else {
                            assert(binds_visible_timer(q[j], pre, hidden, overrides));
                            let m = choose|m: int|
                                0 <= m < pre.len() && !list_has(hidden, (#[trigger] pre[m]).id@) && q[j].action
                                    == ShortcutAction::BossTimer(pre[m].id) && effective_hotkey_of(overrides, pre[m])
                                    == Some(q[j].hotkey);
                            assert(ts[m] == pre[m]);
                            assert(effective_hotkey_of(overrides, ts[m]) is Some);
                        }
                    }
                } else {
                    assert(r == q.push(b));
                    assert(r[q.len() as int] == b);
                }
            }
        }
    }
}

/// Adding buffs only appends to the plan.
proof fn lemma_add_buffs_grows(p: Seq<ShortcutBinding>, bs: Seq<BuffItem>)
    ensures
        bs.len() > 0 ==> (add_buffs(p, bs) == add_buffs(p, bs.drop_last()) || exists|b: ShortcutBinding|
            add_buffs(p, bs) == add_buffs(p, bs.drop_last()).push(b)),
{
}

/// Every enabled buff with a non-empty hotkey ends up with that key used in the
/// plan; and when neither the plan it started from nor an earlier such buff
/// uses the key, the buff itself is bound to it.
pub proof fn lemma_add_buffs_complete(p: Seq<ShortcutBinding>, bs: Seq<BuffItem>)
    ensures
        forall|k: int|
            0 <= k < bs.len() && (#[trigger] bs[k]).enabled && bs[k].hotkey is Some && bs[k].hotkey->0@.len() > 0 ==> {
                let r = add_buffs(p, bs);
                let h = bs[k].hotkey->0;
                &&& plan_has_key(r, h@)
                &&& (!plan_has_key(p, h@) && (forall|m: int|
                    0 <= m < k && (#[trigger] bs[m]).enabled && bs[m].hotkey is Some ==> bs[m].hotkey->0@ != h@))
                    ==> r.contains(ShortcutBinding { hotkey: h, action: ShortcutAction::Buff(bs[k].id) })
            },
    decreases bs.len(),
{
    if bs.len() > 0 {
        let pre = bs.drop_last();
        let n = bs.len() - 1;
        lemma_add_buffs_complete(p, pre);
        lemma_add_buffs(p, pre);
        lemma_add_buffs_grows(p, bs);
        let q = add_buffs(p, pre);
        let r = add_buffs(p, bs);
        assert(bs[n] == bs.last());
        assert forall|k: int|
            0 <= k < bs.len() && (#[trigger] bs[k]).enabled && bs[k].hotkey is Some && bs[k].hotkey->0@.len() > 0 implies {
                let h = bs[k].hotkey->0;
                &&& plan_has_key(r, h@)
                &&& (!plan_has_key(p, h@) && (forall|m: int|
                    0 <= m < k && (#[trigger] bs[m]).enabled && bs[m].hotkey is Some ==> bs[m].hotkey->0@ != h@))
                    ==> r.contains(ShortcutBinding { hotkey: h, action: ShortcutAction::Buff(bs[k].id) })
            } by {
            let h = bs[k].hotkey->0;
            let b = ShortcutBinding { hotkey: h, action: ShortcutAction::Buff(bs[k].id) };
            if k < n {
                assert(bs[k] == pre[k]);
                assert forall|m: int| 0 <= m < k implies bs[m] == pre[m] by {}
                if plan_has_key(q, h@) {
                    let j = choose|j: int| 0 <= j < q.len() && (#[trigger] q[j]).hotkey@ == h@;
                    assert(r[j] == q[j]);
                }
                if q.contains(b) {
                    let j = choose|j: int| 0 <= j < q.len() && q[j] == b;
                    assert(r[j] == q[j]);
                }
            } else {
                if plan_has_key(q, h@) {
                    let j = choose|j: int| 0 <= j < q.len() && (#[trigger] q[j]).hotkey@ == h@;
                    assert(r == q);
                    assert(r[j].hotkey@ == h@);
                    if !plan_has_key(p, h@) {
                        if j < p.len() {
                            assert(q[j] == p[j]);
                        } else {
                            assert(binds_enabled_buff(q[j], pre));
                            let m = choose|m: int|
                                0 <= m < pre.len() && (#[trigger] pre[m]).enabled && q[j].action == ShortcutAction::Buff(pre[m].id)
                                    && pre[m].hotkey == Some(q[j].hotkey) && q[j].hotkey@.len() > 0;
                            assert(bs[m] == pre[m]);
                        }
                    }
                } else {
                    assert(r == q.push(b));
                    assert(r[q.len() as int] == b);
                }
            }
        }
    }
}

/// What a shortcut plan guarantees: stop-all and back-to-main come first; every
/// later binding uses a key no earlier binding uses, and either starts a timer
/// of the boss that is not hidden, on the hotkey it answers to, or starts an
/// enabled buff on its non-empty hotkey.
pub proof fn lemma_shortcut_plan(
    boss_id: Option<String>,
    boss_config: Option<BossConfig>,
    settings: AppSettings,
    buffs: Seq<BuffItem>,
)
    ensures
        ({
            let plan = shortcut_plan(boss_id, boss_config, settings, buffs);
            &&& plan.len() >= 2
            &&& plan[0] == (ShortcutBinding { hotkey: settings.stop_all_hotkey, action: ShortcutAction::StopAll })
            &&& plan[1] == (ShortcutBinding { hotkey: settings.back_hotkey, action: ShortcutAction::BackToMain })
            &&& forall|j: int| 2 <= j < plan.len() ==> fresh_key_at(plan, j)
            &&& forall|j: int|
                2 <= j < plan.len() ==> binds_enabled_buff(#[trigger] plan[j], buffs) || match (boss_id, boss_config) {
                    (Some(id), Some(c)) => binds_visible_timer(
                        plan[j],
                        c.timers@,
                        list_or_empty(lists_view(settings.hidden_timers@), id@),
                        overrides_of(settings, id@),
                    ),
                    _ => false,
                }
        }),
{
    let p0 = global_bindings(settings.stop_all_hotkey, settings.back_hotkey);
    let p1 = match (boss_id, boss_config) {
        (Some(id), Some(c)) => add_boss_timers(
            p0,
            c.timers@,
            list_or_empty(lists_view(settings.hidden_timers@), id@),
            overrides_of(settings, id@),
        ),
        _ => p0,
    };
    let plan = add_buffs(p1, buffs);
    lemma_add_buffs(p1, buffs);
    match (boss_id, boss_config) {
        (Some(id), Some(c)) => {
            lemma_add_boss_timers(
                p0,
                c.timers@,
                list_or_empty(lists_view(settings.hidden_timers@), id@),
                overrides_of(settings, id@),
            );
        },
        _ => {},
    }
    assert(p1.len() >= 2);
    assert(plan[0] == p1[0] && p1[0] == p0[0]);
    assert(plan[1] == p1[1] && p1[1] == p0[1]);
    assert forall|j: int| 2 <= j < plan.len() implies fresh_key_at(plan, j) by {
        if j < p1.len() {
            assert(fresh_key_at(p1, j));
            assert forall|i: int| 0 <= i < j implies (#[trigger] plan[i]).hotkey@ != plan[j].hotkey@ by {
                assert(plan[i] == p1[i]);
                assert(plan[j] == p1[j]);
            }
        }
    }
    assert forall|j: int| 2 <= j < plan.len() implies binds_enabled_buff(#[trigger] plan[j], buffs) || match (boss_id, boss_config) {
        (Some(id), Some(c)) => binds_visible_timer(
            plan[j],
            c.timers@,
            list_or_empty(lists_view(settings.hidden_timers@), id@),
            overrides_of(settings, id@),
        ),
        _ => false,
    } by {
        if j < p1.len() {
            assert(plan[j] == p1[j]);
        }
    }
}

/// Whether some binding of the plan uses the key.
fn plan_contains(p: &Vec<ShortcutBinding>, k: &str) -> (r: bool)
    ensures
        r == plan_has_key(p@, k@),
{
    let mut i: usize = 0;
    while i < p.len()
        invariant
            i <= p@.len(),
            forall|j: int| 0 <= j < i ==> (#[trigger] p@[j]).hotkey@ != k@,
        decreases p@.len() - i,
    {
        if text_eq(p[i].hotkey.as_str(), k) {
            return true;
        }
        i = i + 1;
    }
    false
}

/// Extends the plan with the visible boss timers whose hotkeys are free.
fn push_boss_timers(
    plan: &mut Vec<ShortcutBinding>,
    timers: &Vec<TimerDef>,
    hidden: &Vec<String>,
    overrides: &Vec<(String, String)>,
)
    ensures
        final(plan)@ == add_boss_timers(old(plan)@, timers@, hidden@, overrides@),
{
    let ghost p0 = plan@;
    let mut i: usize = 0;
    while i < timers.len()
        invariant
            i <= timers@.len(),
            plan@ == add_boss_timers(p0, timers@.take(i as int), hidden@, overrides@),
        decreases timers@.len() - i,
    {
        let t = &timers[i];
        proof {
            assert(timers@.take(i as int + 1).drop_last() =~= timers@.take(i as int));
            assert(timers@.take(i as int + 1).last() == *t);
        }
        if !texts_contain(hidden, t.id.as_str()) {
            match effective_hotkey(overrides, t) {
                Some(h) => {
                    if !plan_contains(plan, h.as_str()) {
                        plan.push(ShortcutBinding { hotkey: h, action: ShortcutAction::BossTimer(t.id.clone()) });
                    }
                },
                None => {},
            }
        }
        i = i + 1;
    }
    proof {
        assert(timers@.take(timers@.len() as int) =~= timers@);
    }
}

/// Extends the plan with the enabled buffs whose hotkeys are non-empty and free.
fn push_buffs(plan: &mut Vec<ShortcutBinding>, buffs: &Vec<BuffItem>)
    ensures
        final(plan)@ == add_buffs(old(plan)@, buffs@),
{
    let ghost p0 = plan@;
    let mut i: usize = 0;
    while i < buffs.len()
        invariant
            i <= buffs@.len(),
            plan@ == add_buffs(p0, buffs@.take(i as int)),
        decreases buffs@.len() - i,
    {
        let b = &buffs[i];
        proof {
            assert(buffs@.take(i as int + 1).drop_last() =~= buffs@.take(i as int));
            assert(buffs@.take(i as int + 1).last() == *b);
        }
        if b.enabled {
            match &b.hotkey {
                Some(h) => {
                    if !h.as_str().is_empty() && !plan_contains(plan, h.as_str()) {
                        plan.push(ShortcutBinding { hotkey: h.clone(), action: ShortcutAction::Buff(b.id.clone()) });
                    }
                },
                None => {},
            }
        }
        i = i + 1;
    }
    proof {
        assert(buffs@.take(buffs@.len() as int) =~= buffs@);
    }
}

/// The global two shortcuts.
fn global_plan(settings: &AppSettings) -> (r: Vec<ShortcutBinding>)
    ensures
        r@ == global_bindings(settings.stop_all_hotkey, settings.back_hotkey),
{
    let mut plan: Vec<ShortcutBinding> = Vec::new();
    plan.push(ShortcutBinding { hotkey: settings.stop_all_hotkey.clone(), action: ShortcutAction::StopAll });
    plan.push(ShortcutBinding { hotkey: settings.back_hotkey.clone(), action: ShortcutAction::BackToMain });
    assert(plan@ =~= global_bindings(settings.stop_all_hotkey, settings.back_hotkey));
    plan
}

/// The shortcuts to register when everything is registered: stop-all and
/// back-to-main, then each visible timer of the current boss (a hidden timer
/// has none; the player's override replaces a timer's own hotkey), then each
/// enabled buff with a non-empty hotkey, skipping any key already taken by an
/// earlier timer or buff or by a global shortcut.
pub fn all_shortcuts_plan(
    boss_id: Option<&String>,
    boss_config: Option<&BossConfig>,
    settings: &AppSettings,
    buffs: &Vec<BuffItem>,
) -> (r: Vec<ShortcutBinding>)
    ensures
        r@ == shortcut_plan(
            match boss_id {
                Some(b) => Some(*b),
                None => None,
            },
            match boss_config {
                Some(c) => Some(*c),
                None => None,
            },
            *settings,
            buffs@,
        ),
{
    let mut plan = global_plan(settings);
    match (boss_id, boss_config) {
        (Some(id), Some(config)) => {
            let hidden = settings.hidden_for(id.as_str());
            let overrides = settings.overrides_for(id.as_str());
            push_boss_timers(&mut plan, &config.timers, &hidden, &overrides);
        },
        _ => {},
    }
    push_buffs(&mut plan, buffs);
    plan
}

/// The shortcuts to register while a key listener handles the buffs: the same
/// plan with no buffs.
pub fn shortcuts_without_buffs_plan(
    boss_id: Option<&String>,
    boss_config: Option<&BossConfig>,
    settings: &AppSettings,
) -> (r: Vec<ShortcutBinding>)
    ensures
        r@ == shortcut_plan(
            match boss_id {
                Some(b) => Some(*b),
                None => None,
            },
            match boss_config {
                Some(c) => Some(*c),
                None => None,
            },
            *settings,
            Seq::empty(),
        ),
{
    let none: Vec<BuffItem> = Vec::new();
    all_shortcuts_plan(boss_id, boss_config, settings, &none)
}

/// The shortcuts to register before any boss is chosen: the global two and the buffs.
pub fn buff_shortcuts_only_plan(settings: &AppSettings, buffs: &Vec<BuffItem>) -> (r: Vec<ShortcutBinding>)
    ensures
        r@ == shortcut_plan(None, None, *settings, buffs@),
{
    all_shortcuts_plan(None, None, settings, buffs)
}

/// The plan `p` extended with every timer that has a hotkey, duplicates kept.
pub open spec fn add_all_boss_timers(p: Seq<ShortcutBinding>, ts: Seq<TimerDef>, overrides: Seq<(String, String)>) -> Seq<ShortcutBinding>
    decreases ts.len(),
{
    if ts.len() == 0 {
        p
    } else {
        let q = add_all_boss_timers(p, ts.drop_last(), overrides);
        let t = ts.last();
        match effective_hotkey_of(overrides, t) {
            Some(h) => q.push(ShortcutBinding { hotkey: h, action: ShortcutAction::BossTimer(t.id) }),
            None => q,
        }
    }
}

/// The shortcuts of the older scheme: the global two, then every timer that
/// has a hotkey (override first), with no check for hidden timers or taken keys.
pub fn boss_shortcuts_plan(
    timers: &Vec<TimerDef>,
    overrides: &Vec<(String, String)>,
    stop_all_hotkey: &String,
    back_hotkey: &String,
) -> (r: Vec<ShortcutBinding>)
    ensures
        r@ == add_all_boss_timers(global_bindings(*stop_all_hotkey, *back_hotkey), timers@, overrides@),
{
    let mut plan: Vec<ShortcutBinding> = Vec::new();
    plan.push(ShortcutBinding { hotkey: stop_all_hotkey.clone(), action: ShortcutAction::StopAll });
    plan.push(ShortcutBinding { hotkey: back_hotkey.clone(), action: ShortcutAction::BackToMain });
    let ghost p0 = plan@;
    assert(p0 =~= global_bindings(*stop_all_hotkey, *back_hotkey));
    let mut i: usize = 0;
    while i < timers.len()
        invariant
            i <= timers@.len(),
            plan@ == add_all_boss_timers(p0, timers@.take(i as int), overrides@),
        decreases timers@.len() - i,
    {
        let t = &timers[i];
        proof {
            assert(timers@.take(i as int + 1).drop_last() =~= timers@.take(i as int));
            assert(timers@.take(i as int + 1).last() == *t);
        }
        match effective_hotkey(overrides, t) {
            Some(h) => {
                plan.push(ShortcutBinding { hotkey: h, action: ShortcutAction::BossTimer(t.id.clone()) });
            },
            None => {},
        }
        i = i + 1;
    }
    proof {
        assert(timers@.take(timers@.len() as int) =~= timers@);
    }
    plan
}

/// A key is in use by a global shortcut or, when a boss is given, by one of its
/// timers (hidden or not), overrides first.
pub open spec fn key_in_use(
    boss_config: Option<BossConfig>,
    overrides: Seq<(String, String)>,
    settings: AppSettings,
    k: Seq<char>,
) -> bool {
    ||| k == settings.stop_all_hotkey@
    ||| k == settings.back_hotkey@
    ||| match boss_config {
        Some(c) => exists|j: int|
            0 <= j < c.timers@.len() && (#[trigger] effective_hotkey_of(overrides, c.timers@[j])) is Some
                && effective_hotkey_of(overrides, c.timers@[j])->0@ == k,
        None => false,
    }
}

/// The hotkeys of enabled buffs that are non-empty and in use, in buff order.
pub open spec fn conflicts_of(
    bs: Seq<BuffItem>,
    boss_config: Option<BossConfig>,
    overrides: Seq<(String, String)>,
    settings: AppSettings,
) -> Seq<String>
    decreases bs.len(),
{
    if bs.len() == 0 {
        Seq::empty()
    } else {
        let prev = conflicts_of(bs.drop_last(), boss_config, overrides, settings);
        let b = bs.last();
        if b.enabled && b.hotkey is Some && b.hotkey->0@.len() > 0 && key_in_use(
            boss_config,
            overrides,
            settings,
            b.hotkey->0@,
        ) {
            prev.push(b.hotkey->0)
        } else {
            prev
        }
    }
}

/// The hotkeys of enabled buffs that collide with a global shortcut or with a
/// timer of the boss, in buff order.
pub fn check_hotkey_conflicts(
    boss_config: Option<&BossConfig>,
    boss_hotkey_overrides: &Vec<(String, String)>,
    buffs: &Vec<BuffItem>,
    settings: &AppSettings,
) -> (r: Vec<String>)
    ensures
        r@ == conflicts_of(
            buffs@,
            match boss_config {
                Some(c) => Some(*c),
                None => None,
            },
            boss_hotkey_overrides@,
            *settings,
        ),
{
    let ghost bc = match boss_config {
        Some(c) => Some(*c),
        None => None,
    };
    let mut used: Vec<String> = Vec::new();
    used.push(settings.stop_all_hotkey.clone());
    used.push(settings.back_hotkey.clone());
    let mut count: usize = 0;
    match boss_config {
        Some(config) => {
            proof {
                assert forall|k: Seq<char>| list_has(used@, k) <==> (k == settings.stop_all_hotkey@ || k
                    == settings.back_hotkey@ || exists|j: int|
                    0 <= j < 0 && (#[trigger] effective_hotkey_of(boss_hotkey_overrides@, config.timers@[j])) is Some
                        && effective_hotkey_of(boss_hotkey_overrides@, config.timers@[j])->0@ == k) by {
                    if k == settings.stop_all_hotkey@ {
                        assert(used@[0] == settings.stop_all_hotkey);
                    }
                    if k == settings.back_hotkey@ {
                        assert(used@[1] == settings.back_hotkey);
                    }
                }
            }
            let mut i: usize = 0;
            while i < config.timers.len()
                invariant
                    i <= config.timers@.len(),
                    used@.len() >= 2,
                    used@[0] == settings.stop_all_hotkey,
                    used@[1] == settings.back_hotkey,
                    forall|k: Seq<char>| list_has(used@, k) <==> (k == settings.stop_all_hotkey@ || k
                        == settings.back_hotkey@ || exists|j: int|
                        0 <= j < i && (#[trigger] effective_hotkey_of(boss_hotkey_overrides@, config.timers@[j])) is Some
                            && effective_hotkey_of(boss_hotkey_overrides@, config.timers@[j])->0@ == k),
                decreases config.timers@.len() - i,
            {
                let ghost before = used@;
                match effective_hotkey(boss_hotkey_overrides, &config.timers[i]) {
                    Some(h) => {
                        used.push(h);
                    },
                    None => {},
                }
                proof {
                    assert forall|k: Seq<char>| list_has(used@, k) <==> (k == settings.stop_all_hotkey@ || k
                        == settings.back_hotkey@ || exists|j: int|
                        0 <= j < i + 1 && (#[trigger] effective_hotkey_of(boss_hotkey_overrides@, config.timers@[j])) is Some
                            && effective_hotkey_of(boss_hotkey_overrides@, config.timers@[j])->0@ == k) by {
                        if list_has(used@, k) {
                            let m = choose|m: int| 0 <= m < used@.len() && (#[trigger] used@[m])@ == k;
                            if m < before.len() {
                                assert(before[m] == used@[m]);
                                assert(list_has(before, k));
                            }
                        }
                        if list_has(before, k) {
                            let m = choose|m: int| 0 <= m < before.len() && (#[trigger] before[m])@ == k;
                            assert(used@[m] == before[m]);
                        }
                        if k == settings.stop_all_hotkey@ {
                            assert(used@[0] == settings.stop_all_hotkey);
                        }
                        if k == settings.back_hotkey@ {
                            assert(used@[1] == settings.back_hotkey);
                        }
                        if effective_hotkey_of(boss_hotkey_overrides@, config.timers@[i as int]) is Some
                            && effective_hotkey_of(boss_hotkey_overrides@, config.timers@[i as int])->0@ == k {
                            assert(used@[used@.len() - 1]@ == k);
                        }
                    }
                }
                i = i + 1;
            }
        },
        None => {
            proof {
                assert forall|k: Seq<char>| list_has(used@, k) <==> (k == settings.stop_all_hotkey@ || k
                    == settings.back_hotkey@) by {
                    if k == settings.stop_all_hotkey@ {
                        assert(used@[0] == settings.stop_all_hotkey);
                    }
                    if k == settings.back_hotkey@ {
                        assert(used@[1] == settings.back_hotkey);
                    }
                }
            }
        },
    }
    assert(forall|k: Seq<char>| list_has(used@, k) <==> key_in_use(bc, boss_hotkey_overrides@, *settings, k));
    let mut out: Vec<String> = Vec::new();
    let mut i: usize = 0;
    while i < buffs.len()
        invariant
            i <= buffs@.len(),
            forall|k: Seq<char>| list_has(used@, k) <==> key_in_use(bc, boss_hotkey_overrides@, *settings, k),
            out@ == conflicts_of(buffs@.take(i as int), bc, boss_hotkey_overrides@, *settings),
        decreases buffs@.len() - i,
    {
        let b = &buffs[i];
        proof {
            assert(buffs@.take(i as int + 1).drop_last() =~= buffs@.take(i as int));
            assert(buffs@.take(i as int + 1).last() == *b);
        }
        if b.enabled {
            match &b.hotkey {
                Some(h) => {
                    proof {
                        assert(list_has(used@, h@) == key_in_use(bc, boss_hotkey_overrides@, *settings, h@));
                    }
                    if !h.as_str().is_empty() && texts_contain(&used, h.as_str()) {
                        out.push(h.clone());
                    }
                },
                None => {},
            }
        }
        i = i + 1;
    }
    proof {
        assert(buffs@.take(buffs@.len() as int) =~= buffs@);
    }
    out
}


/// Every reported conflict is the non-empty hotkey of an enabled buff and is in
/// use; every enabled buff whose non-empty hotkey is in use is reported.
pub proof fn lemma_conflicts_exact(
    bs: Seq<BuffItem>,
    boss_config: Option<BossConfig>,
    overrides: Seq<(String, String)>,
    settings: AppSettings,
)
    ensures
        forall|j: int| 0 <= j < conflicts_of(bs, boss_config, overrides, settings).len() ==> {
            let h = #[trigger] conflicts_of(bs, boss_config, overrides, settings)[j];
            &&& h@.len() > 0
            &&& key_in_use(boss_config, overrides, settings, h@)
            &&& exists|k: int| 0 <= k < bs.len() && (#[trigger] bs[k]).enabled && bs[k].hotkey == Some(h)
        },
        forall|k: int|
            0 <= k < bs.len() && (#[trigger] bs[k]).enabled && bs[k].hotkey is Some && bs[k].hotkey->0@.len() > 0
                && key_in_use(boss_config, overrides, settings, bs[k].hotkey->0@) ==> conflicts_of(
                bs,
                boss_config,
                overrides,
                settings,
            ).contains(bs[k].hotkey->0),
    decreases bs.len(),
{
    if bs.len() > 0 {
        let pre = bs.drop_last();
        lemma_conflicts_exact(pre, boss_config, overrides, settings);
        let c0 = conflicts_of(pre, boss_config, overrides, settings);
        let c = conflicts_of(bs, boss_config, overrides, settings);
        let b = bs.last();
        assert(bs[bs.len() - 1] == b);
        assert forall|j: int| 0 <= j < c.len() implies {
            let h = #[trigger] c[j];
            &&& h@.len() > 0
            &&& key_in_use(boss_config, overrides, settings, h@)
            &&& exists|k: int| 0 <= k < bs.len() && (#[trigger] bs[k]).enabled && bs[k].hotkey == Some(h)
        } by {
            if j < c0.len() {
                assert(c[j] == c0[j]);
                let k = choose|k: int| 0 <= k < pre.len() && (#[trigger] pre[k]).enabled && pre[k].hotkey == Some(c0[j]);
                assert(bs[k] == pre[k]);
            } else {
                let k = bs.len() - 1;
                assert(bs[k].enabled && bs[k].hotkey == Some(c[j]));
            }
        }
        assert forall|k: int|
            0 <= k < bs.len() && (#[trigger] bs[k]).enabled && bs[k].hotkey is Some && bs[k].hotkey->0@.len() > 0
                && key_in_use(boss_config, overrides, settings, bs[k].hotkey->0@) implies c.contains(bs[k].hotkey->0) by {
            if k < pre.len() {
                assert(pre[k] == bs[k]);
                let m = choose|m: int| 0 <= m < c0.len() && c0[m] == pre[k].hotkey->0;
                assert(c[m] == c0[m]);
            } else {
                assert(c[c.len() - 1] == b.hotkey->0);
            }
        }
    }
}

/// What collides, written out: an enabled buff whose non-empty hotkey is the
/// stop-all hotkey, the back-to-main hotkey, or the key that a timer of the boss
/// answers to (the player's override for its id, else its own hotkey) is
/// reported; and every reported key is one of these and belongs to an enabled
/// buff.
pub proof fn lemma_conflicts_cover_shortcuts(
    bs: Seq<BuffItem>,
    boss_config: Option<BossConfig>,
    overrides: Seq<(String, String)>,
    settings: AppSettings,
)
    ensures
        forall|k: int|
            0 <= k < bs.len() && (#[trigger] bs[k]).enabled && bs[k].hotkey is Some && bs[k].hotkey->0@.len() > 0
                && ({
                let h = bs[k].hotkey->0@;
                ||| h == settings.stop_all_hotkey@
                ||| h == settings.back_hotkey@
                ||| boss_config matches Some(c) && exists|j: int|
                    0 <= j < c.timers@.len() && if assoc_map(overrides).contains_key((#[trigger] c.timers@[j]).id@) {
                        assoc_map(overrides)[c.timers@[j].id@]@ == h
                    } else {
                        c.timers@[j].hotkey is Some && c.timers@[j].hotkey->0@ == h
                    }
            }) ==> conflicts_of(bs, boss_config, overrides, settings).contains(bs[k].hotkey->0),
        forall|i: int| 0 <= i < conflicts_of(bs, boss_config, overrides, settings).len() ==> {
            let h = #[trigger] conflicts_of(bs, boss_config, overrides, settings)[i];
            &&& h@.len() > 0
            &&& exists|k: int| 0 <= k < bs.len() && (#[trigger] bs[k]).enabled && bs[k].hotkey == Some(h)
            &&& {
                ||| h@ == settings.stop_all_hotkey@
                ||| h@ == settings.back_hotkey@
                ||| boss_config matches Some(c) && exists|j: int|
                    0 <= j < c.timers@.len() && if assoc_map(overrides).contains_key((#[trigger] c.timers@[j]).id@) {
                        assoc_map(overrides)[c.timers@[j].id@]@ == h@
                    } else {
                        c.timers@[j].hotkey is Some && c.timers@[j].hotkey->0@ == h@
                    }
            }
        },
{
    lemma_conflicts_exact(bs, boss_config, overrides, settings);
    let r = conflicts_of(bs, boss_config, overrides, settings);
    assert forall|k: int|
        0 <= k < bs.len() && (#[trigger] bs[k]).enabled && bs[k].hotkey is Some && bs[k].hotkey->0@.len() > 0
            && ({
            let h = bs[k].hotkey->0@;
            ||| h == settings.stop_all_hotkey@
            ||| h == settings.back_hotkey@
            ||| boss_config matches Some(c) && exists|j: int|
                0 <= j < c.timers@.len() && if assoc_map(overrides).contains_key((#[trigger] c.timers@[j]).id@) {
                    assoc_map(overrides)[c.timers@[j].id@]@ == h
                } else {
                    c.timers@[j].hotkey is Some && c.timers@[j].hotkey->0@ == h
                }
        }) implies r.contains(bs[k].hotkey->0) by {
        let h = bs[k].hotkey->0@;
        if h != settings.stop_all_hotkey@ && h != settings.back_hotkey@ {
            let c = boss_config->0;
            let j = choose|j: int|
                0 <= j < c.timers@.len() && if assoc_map(overrides).contains_key((#[trigger] c.timers@[j]).id@) {
                    assoc_map(overrides)[c.timers@[j].id@]@ == h
                } else {
                    c.timers@[j].hotkey is Some && c.timers@[j].hotkey->0@ == h
                };
            lemma_effective_hotkey(overrides, c.timers@[j]);
            assert(effective_hotkey_of(overrides, c.timers@[j]) is Some);
        }
        assert(key_in_use(boss_config, overrides, settings, h));
    }
    assert forall|i: int| 0 <= i < r.len() implies {
        let h = #[trigger] r[i];
        ||| h@ == settings.stop_all_hotkey@
        ||| h@ == settings.back_hotkey@
        ||| boss_config matches Some(c) && exists|j: int|
            0 <= j < c.timers@.len() && if assoc_map(overrides).contains_key((#[trigger] c.timers@[j]).id@) {
                assoc_map(overrides)[c.timers@[j].id@]@ == h@
            } else {
                c.timers@[j].hotkey is Some && c.timers@[j].hotkey->0@ == h@
            }
    } by {
        let h = r[i];
        assert(key_in_use(boss_config, overrides, settings, h@));
        if h@ != settings.stop_all_hotkey@ && h@ != settings.back_hotkey@ {
            let c = boss_config->0;
            let j = choose|j: int|
                0 <= j < c.timers@.len() && (#[trigger] effective_hotkey_of(overrides, c.timers@[j])) is Some
                    && effective_hotkey_of(overrides, c.timers@[j])->0@ == h@;
            lemma_effective_hotkey(overrides, c.timers@[j]);
            assert(c.timers@[j] == c.timers@[j]);
        }
    }
}

/// The plan leaves no key out. Every enabled buff with a non-empty hotkey, and
/// every visible timer of the given boss whose hotkey (the player's override,
/// else its own) is set, has its key registered; and a visible timer whose key
/// is neither global key nor the key of an earlier visible timer is bound to it
/// itself.
pub proof fn lemma_shortcut_plan_complete(
    boss_id: Option<String>,
    boss_config: Option<BossConfig>,
    settings: AppSettings,
    buffs: Seq<BuffItem>,
)
    ensures
        forall|k: int|
            0 <= k < buffs.len() && (#[trigger] buffs[k]).enabled && buffs[k].hotkey is Some
                && buffs[k].hotkey->0@.len() > 0 ==> plan_has_key(
                shortcut_plan(boss_id, boss_config, settings, buffs),
                buffs[k].hotkey->0@,
            ),
        match (boss_id, boss_config) {
            (Some(id), Some(c)) => {
                let ts = c.timers@;
                let hidden = list_or_empty(lists_view(settings.hidden_timers@), id@);
                let overrides = overrides_of(settings, id@);
                let plan = shortcut_plan(boss_id, boss_config, settings, buffs);
                forall|k: int|
                    0 <= k < ts.len() && !(exists|j: int| 0 <= j < hidden.len() && (#[trigger] hidden[j])@ == ts[k].id@)
                        && (#[trigger] effective_hotkey_of(overrides, ts[k])) is Some ==> {
                        let h = effective_hotkey_of(overrides, ts[k])->0;
                        &&& plan_has_key(plan, h@)
                        &&& (h@ != settings.stop_all_hotkey@ && h@ != settings.back_hotkey@ && (forall|m: int|
                            0 <= m < k && !(exists|j: int| 0 <= j < hidden.len() && (#[trigger] hidden[j])@ == ts[m].id@)
                                && (#[trigger] effective_hotkey_of(overrides, ts[m])) is Some ==> effective_hotkey_of(
                                overrides,
                                ts[m],
                            )->0@ != h@)) ==> plan.contains(
                            ShortcutBinding { hotkey: h, action: ShortcutAction::BossTimer(ts[k].id) },
                        )
                    }
            },
            _ => true,
        },
{
    let p0 = global_bindings(settings.stop_all_hotkey, settings.back_hotkey);
    let p1 = match (boss_id, boss_config) {
        (Some(id), Some(c)) => add_boss_timers(
            p0,
            c.timers@,
            list_or_empty(lists_view(settings.hidden_timers@), id@),
            overrides_of(settings, id@),
        ),
        _ => p0,
    };
    let plan = shortcut_plan(boss_id, boss_config, settings, buffs);
    assert(plan == add_buffs(p1, buffs));
    lemma_add_buffs_complete(p1, buffs);
    lemma_add_buffs(p1, buffs);
    match (boss_id, boss_config) {
        (Some(id), Some(c)) => {
            let ts = c.timers@;
            let hidden = list_or_empty(lists_view(settings.hidden_timers@), id@);
            let overrides = overrides_of(settings, id@);
            lemma_add_boss_timers_complete(p0, ts, hidden, overrides);
            assert forall|k: int|
                0 <= k < ts.len() && !(exists|j: int| 0 <= j < hidden.len() && (#[trigger] hidden[j])@ == ts[k].id@)
                    && (#[trigger] effective_hotkey_of(overrides, ts[k])) is Some implies {
                    let h = effective_hotkey_of(overrides, ts[k])->0;
                    &&& plan_has_key(plan, h@)
                    &&& (h@ != settings.stop_all_hotkey@ && h@ != settings.back_hotkey@ && (forall|m: int|
                        0 <= m < k && !(exists|j: int| 0 <= j < hidden.len() && (#[trigger] hidden[j])@ == ts[m].id@)
                            && (#[trigger] effective_hotkey_of(overrides, ts[m])) is Some ==> effective_hotkey_of(
                            overrides,
                            ts[m],
                        )->0@ != h@)) ==> plan.contains(
                        ShortcutBinding { hotkey: h, action: ShortcutAction::BossTimer(ts[k].id) },
                    )
                } by {
                let h = effective_hotkey_of(overrides, ts[k])->0;
                let j = choose|j: int| 0 <= j < p1.len() && (#[trigger] p1[j]).hotkey@ == h@;
                assert(plan[j] == p1[j]);
                if h@ != settings.stop_all_hotkey@ && h@ != settings.back_hotkey@ {
                    assert(p0[0].hotkey == settings.stop_all_hotkey);
                    assert(p0[1].hotkey == settings.back_hotkey);
                    assert(!plan_has_key(p0, h@));
                    let b = ShortcutBinding { hotkey: h, action: ShortcutAction::BossTimer(ts[k].id) };
                    if p1.contains(b) {
                        let n = choose|n: int| 0 <= n < p1.len() && p1[n] == b;
                        assert(plan[n] == p1[n]);
                    }
                }
            }
        },
        _ => {},
    }
}

} // verus!
