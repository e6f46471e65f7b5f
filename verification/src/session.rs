//! What the overlay's commands decide: the boss list, choosing a boss, and
//! keeping the engine's definitions in step with hidden and muted timers.
use crate::assoc::{assoc_map, find_first, first_key_index};
use crate::boss_config::{same_config, BossConfig, TimerDef};
use crate::buff_config::{
    buff_def_id, buff_def_id_of, buff_hotkey_entries, buff_index, buff_not_found, buff_timer_defs,
    buffs_without, build_buff_hotkey_map, delete_buff, enabled_buffs, is_buff_timer_def, update_buff,
    updated_buff, BuffConfig, BuffItem, BuffUpdate,
};
use crate::key_listener::KeyListener;
use crate::settings::{
    boss_hotkeys, is_hotkey_info, list_or_empty, lists_view, overrides_of, visible_timers,
    visible_timers_of, AppSettings, BossHotkeyInfo,
};
use crate::shortcuts::{all_shortcuts_plan, shortcut_plan, ShortcutBinding};
use crate::text::{copy_texts, is_blank_text, joined};
use crate::timer_engine::{defs_map, timers_without_name, TimerEngine};
use vstd::prelude::*;

verus! {

/// One line of the boss list.
#[derive(Debug, PartialEq, Eq)]
pub struct BossListItem {
    pub id: String,
    pub name: String,
    pub description: String,
    pub timer_count: usize,
}

/// What choosing a boss hands back to the display.
#[derive(Debug, PartialEq, Eq)]
pub struct BossSelection {
    pub config: BossConfig,
    pub hidden_timers: Vec<String>,
    pub muted_timers: Vec<String>,
    pub mini_mode: bool,
    pub timer_order: Vec<String>,
}

/// The list line of a boss.
pub open spec fn is_list_item(item: BossListItem, id: String, c: BossConfig) -> bool {
    &&& item.id == id
    &&& item.name == c.boss.name
    &&& item.description == c.boss.description
    &&& item.timer_count == c.timers@.len()
}

/// One line per boss, in order: its id, name, description and number of timers.
pub fn list_bosses(bosses: &Vec<(String, BossConfig)>) -> (r: Vec<BossListItem>)
    ensures
        r@.len() == bosses@.len(),
        forall|i: int| 0 <= i < r@.len() ==> is_list_item(#[trigger] r@[i], bosses@[i].0, bosses@[i].1),
{
    let mut out: Vec<BossListItem> = Vec::new();
    let mut i: usize = 0;
    while i < bosses.len()
        invariant
            i <= bosses@.len(),
            out@.len() == i,
            forall|j: int| 0 <= j < i ==> is_list_item(#[trigger] out@[j], bosses@[j].0, bosses@[j].1),
        decreases bosses@.len() - i,
    {
        let (id, c) = (&bosses[i].0, &bosses[i].1);
        out.push(
            BossListItem {
                id: id.clone(),
                name: c.boss.name.clone(),
                description: c.boss.description.clone(),
                timer_count: c.timers.len(),
            },
        );
        i = i + 1;
    }
    out
}

/// The message for a boss that is not in the list.
pub open spec fn boss_not_found(id: Seq<char>) -> Seq<char> {
    "Boss '"@ + id + "' not found"@
}

/// Chooses a boss: every timer is stopped, the boss's visible timers become the
/// engine's boss definitions, and its muted timers the engine's muted set. The
/// first boss with the id is taken; an unknown id changes nothing.
pub fn select_boss(
    bosses: &Vec<(String, BossConfig)>,
    settings: &AppSettings,
    engine: &mut TimerEngine,
    boss_id: &String,
) -> (r: Result<BossSelection, String>)
    requires
        old(engine).wf(),
    ensures
        final(engine).wf(),
        ({
            let i = first_key_index(bosses@, boss_id@);
            if i == bosses@.len() {
                &&& r is Err
                &&& r->Err_0@ == boss_not_found(boss_id@)
                &&& final(engine).timers_of() == old(engine).timers_of()
                &&& final(engine).boss_defs_of() == old(engine).boss_defs_of()
                &&& final(engine).muted_of() == old(engine).muted_of()
            } else {
                let c = bosses@[i].1;
                let hidden = list_or_empty(lists_view(settings.hidden_timers@), boss_id@);
                let muted = list_or_empty(lists_view(settings.muted_timers@), boss_id@);
                &&& r is Ok
                &&& same_config(r->Ok_0.config, c)
                &&& r->Ok_0.hidden_timers@ == hidden
                &&& r->Ok_0.muted_timers@ == muted
                &&& r->Ok_0.mini_mode == settings.mini_mode
                &&& r->Ok_0.timer_order@ == list_or_empty(lists_view(settings.timer_orders@), boss_id@)
                &&& final(engine).timers_of().len() == 0
                &&& final(engine).boss_defs_of() == defs_map(visible_timers_of(c.timers@, hidden))
                &&& final(engine).muted_of() == muted
            }
        }),
        final(engine).buff_defs_of() == old(engine).buff_defs_of(),
{
    let i = match find_first(bosses, boss_id.as_str()) {
        Some(i) => i,
        None => {
            let msg = joined("Boss '", boss_id.as_str()).concat("' not found");
            return Err(msg);
        },
    };
    let config = bosses[i].1.clone();
    engine.stop_all();
    let hidden = settings.hidden_for(boss_id.as_str());
    let muted = settings.muted_for(boss_id.as_str());
    let mini_mode = settings.mini_mode;
    let timer_order = settings.timer_order_for(boss_id.as_str());
    let visible = visible_timers(&config.timers, &hidden);
    engine.load_timer_defs(visible);
    let muted_defs = copy_texts(&muted);
    engine.set_muted_defs(muted_defs);
    Ok(BossSelection { config, hidden_timers: hidden, muted_timers: muted, mini_mode, timer_order })
}

/// After the hidden timers of a boss changed: when the boss is in the list,
/// its visible timers become the engine's boss definitions. Returns whether it was.
pub fn reload_visible_defs(
    bosses: &Vec<(String, BossConfig)>,
    settings: &AppSettings,
    engine: &mut TimerEngine,
    boss_id: &String,
) -> (r: bool)
    requires
        old(engine).wf(),
    ensures
        final(engine).wf(),
        r == (first_key_index(bosses@, boss_id@) < bosses@.len()),
        final(engine).boss_defs_of() == (if r {
            defs_map(
                visible_timers_of(
                    bosses@[first_key_index(bosses@, boss_id@)].1.timers@,
                    list_or_empty(lists_view(settings.hidden_timers@), boss_id@),
                ),
            )
        } else {
            old(engine).boss_defs_of()
        }),
        final(engine).timers_of() == old(engine).timers_of(),
        final(engine).buff_defs_of() == old(engine).buff_defs_of(),
        final(engine).muted_of() == old(engine).muted_of(),
{
    match find_first(bosses, boss_id.as_str()) {
        Some(i) => {
            let hidden = settings.hidden_for(boss_id.as_str());
            let visible = visible_timers(&bosses[i].1.timers, &hidden);
            engine.load_timer_defs(visible);
            true
        },
        None => false,
    }
}

/// After a boss's muted timers changed: when a boss is active, its muted
/// timers become the engine's muted set.
pub fn sync_muted_defs(settings: &AppSettings, engine: &mut TimerEngine, active_boss: Option<&String>)
    requires
        old(engine).wf(),
    ensures
        final(engine).wf(),
        final(engine).muted_of() == match active_boss {
            Some(id) => list_or_empty(lists_view(settings.muted_timers@), id@),
            None => old(engine).muted_of(),
        },
        final(engine).timers_of() == old(engine).timers_of(),
        final(engine).boss_defs_of() == old(engine).boss_defs_of(),
        final(engine).buff_defs_of() == old(engine).buff_defs_of(),
{
    match active_boss {
        Some(id) => {
            let muted = settings.muted_for(id.as_str());
            engine.set_muted_defs(muted);
        },
        None => {},
    }
}

/// The hotkey view of each timer of the first boss with the id, under the
/// player's overrides for it.
pub fn boss_hotkeys_for(
    bosses: &Vec<(String, BossConfig)>,
    settings: &AppSettings,
    boss_id: &String,
) -> (r: Result<Vec<BossHotkeyInfo>, String>)
    ensures
        ({
            let i = first_key_index(bosses@, boss_id@);
            if i == bosses@.len() {
                r is Err && r->Err_0@ == boss_not_found(boss_id@)
            } else {
                let ts = bosses@[i].1.timers@;
                &&& r is Ok
                &&& r->Ok_0@.len() == ts.len()
                &&& forall|j: int| 0 <= j < ts.len() ==> is_hotkey_info(#[trigger] r->Ok_0@[j], overrides_of(*settings, boss_id@), ts[j])
            }
        }),
{
    match find_first(bosses, boss_id.as_str()) {
        Some(i) => {
            let overrides = settings.overrides_for(boss_id.as_str());
            Ok(boss_hotkeys(&bosses[i].1.timers, &overrides))
        },
        None => {
            let msg = joined("Boss '", boss_id.as_str()).concat("' not found");
            Err(msg)
        },
    }
}


/// The shortcuts for the current state: while the key listener runs it
/// handles the buffs, so they are left out.
pub fn current_shortcuts_plan(
    listener_running: bool,
    boss_id: Option<&String>,
    boss_config: Option<&BossConfig>,
    settings: &AppSettings,
    buffs: &Vec<BuffItem>,
) -> (r: Vec<ShortcutBinding>)
    ensures
        r@ == shortcut_plan(
            match boss_id {
                Some(b) => Some(*b),
                None => None,
            },
            match boss_config {
                Some(c) => Some(*c),
                None => None,
            },
            *settings,
            if listener_running {
                Seq::empty()
            } else {
                buffs@
            },
        ),
{
    if listener_running {
        let none: Vec<BuffItem> = Vec::new();
        all_shortcuts_plan(boss_id, boss_config, settings, &none)
    } else {
        all_shortcuts_plan(boss_id, boss_config, settings, buffs)
    }
}

/// The boss of the list that is active, if one is and the list has it.
pub fn active_boss_index(bosses: &Vec<(String, BossConfig)>, active_boss: Option<&String>) -> (r: Option<usize>)
    ensures
        match active_boss {
            Some(id) => match r {
                Some(i) => i as int == first_key_index(bosses@, id@) && i < bosses@.len(),
                None => first_key_index(bosses@, id@) == bosses@.len(),
            },
            None => r is None,
        },
{
    match active_boss {
        Some(id) => find_first(bosses, id.as_str()),
        None => None,
    }
}

/// The optional boss id and definition of the active boss, as the shortcut plan takes them.
pub open spec fn active_pair(bosses: Seq<(String, BossConfig)>, active_boss: Option<String>) -> (Option<String>, Option<BossConfig>) {
    match active_boss {
        Some(id) => if first_key_index(bosses, id@) < bosses.len() {
            (Some(bosses[first_key_index(bosses, id@)].0), Some(bosses[first_key_index(bosses, id@)].1))
        } else {
            (None, None)
        },
        None => (None, None),
    }
}

/// After the buffs changed: the enabled buffs become the engine's buff
/// definitions; while the key listener runs, it gets the new hotkey map and the
/// shortcuts leave the buffs out; otherwise the shortcuts include them. Returns
/// the shortcuts to register.
pub fn refresh_buff_shortcuts(
    engine: &mut TimerEngine,
    listener: &mut KeyListener,
    buffs: &Vec<BuffItem>,
    settings: &AppSettings,
    bosses: &Vec<(String, BossConfig)>,
    active_boss: Option<&String>,
) -> (r: Vec<ShortcutBinding>)
    requires
        old(engine).wf(),
    ensures
        final(engine).wf(),
        final(engine).timers_of() == old(engine).timers_of(),
        final(engine).boss_defs_of() == old(engine).boss_defs_of(),
        final(engine).muted_of() == old(engine).muted_of(),
        exists|defs: Seq<TimerDef>|
            defs.len() == enabled_buffs(buffs@).len() && (forall|i: int| 0 <= i < defs.len() ==> is_buff_timer_def(#[trigger] defs[i], enabled_buffs(buffs@)[i]))
                && final(engine).buff_defs_of() == defs_map(defs),
        final(listener).tap_running() == old(listener).tap_running(),
        final(listener).requested() == old(listener).requested(),
        final(listener).hotkey_map() == (if old(listener).tap_running() {
            assoc_map(buff_hotkey_entries(buffs@))
        } else {
            old(listener).hotkey_map()
        }),
        ({
            let pair = active_pair(
                bosses@,
                match active_boss {
                    Some(b) => Some(*b),
                    None => None,
                },
            );
            r@ == shortcut_plan(
                pair.0,
                pair.1,
                *settings,
                if old(listener).tap_running() {
                    Seq::empty()
                } else {
                    buffs@
                },
            )
        }),
{
    let defs = buff_timer_defs(buffs);
    engine.load_buff_defs(defs);
    let running = listener.is_running();
    if running {
        let map = build_buff_hotkey_map(buffs);
        listener.update_hotkeys(map);
    }
    match active_boss_index(bosses, active_boss) {
        Some(i) => current_shortcuts_plan(running, Some(&bosses[i].0), Some(&bosses[i].1), settings, buffs),
        None => current_shortcuts_plan(running, None, None, settings, buffs),
    }
}

/// Starts monitoring buff keys with the key listener. When its tap already
/// runs, nothing changes and `None` comes back. Otherwise the listener gets the
/// buff hotkey map and is asked to start (the caller launches the tap), and the
/// shortcuts to register, without the buffs, come back.
pub fn start_buff_monitoring(
    listener: &mut KeyListener,
    buffs: &Vec<BuffItem>,
    settings: &AppSettings,
    bosses: &Vec<(String, BossConfig)>,
    active_boss: Option<&String>,
) -> (r: Option<Vec<ShortcutBinding>>)
    ensures
        old(listener).tap_running() ==> r is None && *final(listener) == *old(listener),
        !old(listener).tap_running() ==> {
            let pair = active_pair(
                bosses@,
                match active_boss {
                    Some(b) => Some(*b),
                    None => None,
                },
            );
            &&& r is Some
            &&& r->0@ == shortcut_plan(pair.0, pair.1, *settings, Seq::empty())
            &&& final(listener).requested()
            &&& !final(listener).tap_running()
            &&& final(listener).hotkey_map() == assoc_map(buff_hotkey_entries(buffs@))
        },
{
    if listener.is_running() {
        return None;
    }
    let map = build_buff_hotkey_map(buffs);
    listener.update_hotkeys(map);
    let plan = match active_boss_index(bosses, active_boss) {
        Some(i) => current_shortcuts_plan(true, Some(&bosses[i].0), Some(&bosses[i].1), settings, buffs),
        None => current_shortcuts_plan(true, None, None, settings, buffs),
    };
    let _ = listener.start();
    Some(plan)
}

/// What to do with the registered shortcuts.
pub enum ShortcutChange {
    /// Leave them as they are.
    Keep,
    /// Unregister them all and register these.
    Replace(Vec<ShortcutBinding>),
}

/// What re-enabling the shortcuts does: nothing while they are paused; with an
/// active boss the list has, the plan for the current state; with an active
/// boss the list lacks, nothing; with no active boss, the global shortcuts and
/// every buff, whether or not the key listener runs.
pub fn enable_shortcuts_plan(
    paused: bool,
    listener_running: bool,
    bosses: &Vec<(String, BossConfig)>,
    active_boss: Option<&String>,
    settings: &AppSettings,
    buffs: &Vec<BuffItem>,
) -> (r: ShortcutChange)
    ensures
        paused ==> r is Keep,
        !paused ==> match active_boss {
            Some(id) => if first_key_index(bosses@, id@) < bosses@.len() {
                r is Replace && r->Replace_0@ == shortcut_plan(
                    Some(*id),
                    Some(bosses@[first_key_index(bosses@, id@)].1),
                    *settings,
                    if listener_running {
                        Seq::empty()
                    } else {
                        buffs@
                    },
                )
            } else {
                r is Keep
            },
            None => r is Replace && r->Replace_0@ == shortcut_plan(None, None, *settings, buffs@),
        },
{
    if paused {
        return ShortcutChange::Keep;
    }
    match active_boss {
        Some(id) => match find_first(bosses, id.as_str()) {
            Some(i) => ShortcutChange::Replace(
                current_shortcuts_plan(listener_running, Some(id), Some(&bosses[i].1), settings, buffs),
            ),
            None => ShortcutChange::Keep,
        },
        None => ShortcutChange::Replace(all_shortcuts_plan(None, None, settings, buffs)),
    }
}


/// The tray menu id of a boss: `boss_` and its id.
pub open spec fn boss_menu_id_of(boss_id: Seq<char>) -> Seq<char> {
    "boss_"@ + boss_id
}

/// The tray menu id of a boss.
pub fn boss_menu_id(boss_id: &str) -> (r: String)
    ensures
        r@ == boss_menu_id_of(boss_id@),
{
    joined("boss_", boss_id)
}

/// The boss a tray menu id stands for: the rest of an id that starts with `boss_`.
pub fn boss_id_from_menu(menu_id: &str) -> (r: Option<String>)
    ensures
        match r {
            Some(b) => menu_id@ == boss_menu_id_of(b@),
            None => !(menu_id@.len() >= 5 && menu_id@.subrange(0, 5) == "boss_"@),
        },
{
    let prefix = "boss_";
    proof {
        reveal_strlit("boss_");
    }
    let n = menu_id.unicode_len();
    if n < 5 {
        return None;
    }
    let mut i: usize = 0;
    while i < 5
        invariant
            n == menu_id@.len(),
            n >= 5,
            i <= 5,
            prefix@ == "boss_"@,
            prefix@.len() == 5,
            forall|j: int| 0 <= j < i ==> menu_id@[j] == prefix@[j],
        decreases 5 - i,
    {
        if menu_id.get_char(i) != prefix.get_char(i) {
            proof {
                assert(menu_id@.subrange(0, 5)[i as int] != "boss_"@[i as int]);
            }
            return None;
        }
        i = i + 1;
    }
    let rest = menu_id.substring_char(5, n);
    proof {
        assert(menu_id@.subrange(0, 5) =~= "boss_"@);
        assert(menu_id@ =~= "boss_"@ + rest@);
    }
    Some(String::from_str(rest))
}

/// Choosing a boss from the tray menu: when the list has the boss, every timer
/// stops and its visible timers become the engine's boss definitions (its
/// muted set is left as it is). Returns whether the list has it.
pub fn select_boss_from_menu(
    bosses: &Vec<(String, BossConfig)>,
    settings: &AppSettings,
    engine: &mut TimerEngine,
    boss_id: &String,
) -> (r: bool)
    requires
        old(engine).wf(),
    ensures
        final(engine).wf(),
        r == (first_key_index(bosses@, boss_id@) < bosses@.len()),
        r ==> final(engine).timers_of().len() == 0 && final(engine).boss_defs_of() == defs_map(
            visible_timers_of(
                bosses@[first_key_index(bosses@, boss_id@)].1.timers@,
                list_or_empty(lists_view(settings.hidden_timers@), boss_id@),
            ),
        ),
        !r ==> final(engine).timers_of() == old(engine).timers_of() && final(engine).boss_defs_of()
            == old(engine).boss_defs_of(),
        final(engine).buff_defs_of() == old(engine).buff_defs_of(),
        final(engine).muted_of() == old(engine).muted_of(),
{
    match find_first(bosses, boss_id.as_str()) {
        Some(i) => {
            engine.stop_all();
            let hidden = settings.hidden_for(boss_id.as_str());
            let visible = visible_timers(&bosses[i].1.timers, &hidden);
            engine.load_timer_defs(visible);
            true
        },
        None => false,
    }
}

/// Edits a buff (see `update_buff`); when the edit succeeds and disables the
/// buff, the timers of its definition stop as `stop_by_def_id` stops them.
pub fn apply_buff_update(config: &mut BuffConfig, engine: &mut TimerEngine, update: BuffUpdate) -> (r: Result<
    BuffItem,
    String,
>)
    requires
        old(engine).wf(),
    ensures
        final(engine).wf(),
        final(engine).boss_defs_of() == old(engine).boss_defs_of(),
        final(engine).buff_defs_of() == old(engine).buff_defs_of(),
        final(engine).muted_of() == old(engine).muted_of(),
        r is Ok && update.enabled == Some(false) ==> final(engine).timers_of() == match old(engine).def_lookup(
            buff_def_id_of(r->Ok_0.id@),
        ) {
            Some(d) => timers_without_name(old(engine).timers_of(), d.name@),
            None => old(engine).timers_of(),
        },
        !(r is Ok && update.enabled == Some(false)) ==> final(engine).timers_of() == old(engine).timers_of(),
        ({
            let bs = old(config).buffs@;
            let i = buff_index(bs, update.id@);
            let name_bad = update.name is Some && is_blank_text(update.name->0@);
            let secs_bad = update.duration_secs == Some(0u32);
            if i == bs.len() {
                r is Err && r->Err_0@ == buff_not_found(update.id@) && final(config).buffs@ == bs
            } else if name_bad {
                r is Err && r->Err_0@ == "Buff name cannot be empty"@ && final(config).buffs@ == bs
            } else if secs_bad {
                r is Err && r->Err_0@ == "Duration must be a positive integer"@
                    && final(config).buffs@ == bs.update(
                    i,
                    BuffItem {
                        name: match update.name {
                            Some(n) => n,
                            None => bs[i].name,
                        },
                        ..bs[i]
                    },
                )
            } else {
                r is Ok && r->Ok_0 == updated_buff(bs[i], update) && final(config).buffs@
                    == bs.update(i, updated_buff(bs[i], update))
            }
        }),
{
    let disabling = match update.enabled {
        Some(e) => !e,
        None => false,
    };
    let r = update_buff(config, update);
    match &r {
        Ok(b) => {
            if disabling {
                let def_id = buff_def_id(b.id.as_str());
                engine.stop_by_def_id(def_id.as_str());
            }
        },
        Err(_) => {},
    }
    r
}

/// Deletes a buff (see `delete_buff`); when one was deleted, the timers of its
/// definition stop as `stop_by_def_id` stops them.
pub fn remove_buff(config: &mut BuffConfig, engine: &mut TimerEngine, buff_id: &str) -> (r: Result<(), String>)
    requires
        old(engine).wf(),
    ensures
        final(engine).wf(),
        final(config).buffs@ == buffs_without(old(config).buffs@, buff_id@),
        r is Err <==> forall|j: int| 0 <= j < old(config).buffs@.len() ==> (#[trigger] old(config).buffs@[j]).id@ != buff_id@,
        r is Err ==> r->Err_0@ == buff_not_found(buff_id@) && final(engine).timers_of() == old(engine).timers_of(),
        r is Ok ==> final(engine).timers_of() == match old(engine).def_lookup(buff_def_id_of(buff_id@)) {
            Some(d) => timers_without_name(old(engine).timers_of(), d.name@),
            None => old(engine).timers_of(),
        },
        final(engine).boss_defs_of() == old(engine).boss_defs_of(),
        final(engine).buff_defs_of() == old(engine).buff_defs_of(),
        final(engine).muted_of() == old(engine).muted_of(),
{
    let r = delete_buff(config, buff_id);
    if r.is_ok() {
        let def_id = buff_def_id(buff_id);
        engine.stop_by_def_id(def_id.as_str());
    }
    r
}

} // verus!
