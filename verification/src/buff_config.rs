//! Buffs: user-defined timers started by a hotkey, and the edits made to the list of them.
use crate::assoc::{assoc_map, lemma_assoc_push};
use crate::boss_config::TimerDef;
use crate::ids::{is_v4_uuid_text, new_v4_string};
use crate::text::{copy_opt, is_blank, is_blank_text, joined, text_eq};
use vstd::prelude::*;

verus! {

/// A buff the player tracks: a named duration in whole seconds, started by a hotkey.
#[derive(Debug, PartialEq, Eq)]
pub struct BuffItem {
    pub id: String,
    pub name: String,
    pub duration_secs: u32,
    pub hotkey: Option<String>,
    pub enabled: bool,
}

/// All buffs of the player, in the order they were added.
#[derive(Debug, PartialEq, Eq)]
pub struct BuffConfig {
    pub buffs: Vec<BuffItem>,
}

/// An edit of one buff: the fields that are `Some` are replaced.
#[derive(Debug, PartialEq, Eq)]
pub struct BuffUpdate {
    pub id: String,
    pub name: Option<String>,
    pub duration_secs: Option<u32>,
    pub hotkey: Option<Option<String>>,
    pub enabled: Option<bool>,
}

impl Clone for BuffItem {
    fn clone(&self) -> (r: Self)
        ensures
            r == *self,
    {
        BuffItem {
            id: self.id.clone(),
            name: self.name.clone(),
            duration_secs: self.duration_secs,
            hotkey: copy_opt(&self.hotkey),
            enabled: self.enabled,
        }
    }
}

impl Default for BuffConfig {
    fn default() -> (r: Self)
        ensures
            r.buffs@.len() == 0,
    {
        BuffConfig { buffs: Vec::new() }
    }
}

/// A buff whose definition says nothing of it is enabled.
pub fn default_enabled() -> (r: bool)
    ensures
        r,
{
    true
}

/// The id of the timer definition that stands for a buff: `buff_` and the buff's id.
pub open spec fn buff_def_id_of(buff_id: Seq<char>) -> Seq<char> {
    "buff_"@ + buff_id
}

/// The id of the timer definition that stands for the buff `buff_id`.
pub fn buff_def_id(buff_id: &str) -> (r: String)
    ensures
        r@ == buff_def_id_of(buff_id@),
{
    joined("buff_", buff_id)
}

/// The buff has a hotkey that is not empty.
pub open spec fn has_usable_hotkey(b: BuffItem) -> bool {
    b.hotkey is Some && b.hotkey->0@.len() > 0
}

/// The hotkey-to-buff entries of a buff list: one per enabled buff with a
/// non-empty hotkey, in list order.
pub open spec fn buff_hotkey_entries(bs: Seq<BuffItem>) -> Seq<(String, String)>
    decreases bs.len(),
{
    if bs.len() == 0 {
        Seq::empty()
    } else {
        let prev = buff_hotkey_entries(bs.drop_last());
        let b = bs.last();
        if b.enabled && has_usable_hotkey(b) {
            prev.push((b.hotkey->0, b.id))
        } else {
            prev
        }
    }
}

/// The map from hotkey to buff id that a key listener uses: every enabled buff
/// with a non-empty hotkey, a later buff replacing an earlier one on the same key.
pub fn build_buff_hotkey_map(buffs: &Vec<BuffItem>) -> (r: Vec<(String, String)>)
    ensures
        r@ == buff_hotkey_entries(buffs@),
{
    let mut out: Vec<(String, String)> = Vec::new();
    let mut i: usize = 0;
    while i < buffs.len()
        invariant
            i <= buffs@.len(),
            out@ == buff_hotkey_entries(buffs@.take(i as int)),
        decreases buffs@.len() - i,
    {
        let b = &buffs[i];
        proof {
            assert(buffs@.take(i as int + 1).drop_last() =~= buffs@.take(i as int));
        }
        if b.enabled {
            match &b.hotkey {
                Some(hk) => {
                    if !hk.as_str().is_empty() {
                        out.push((hk.clone(), b.id.clone()));
                    }
                },
                None => {},
            }
        }
        i = i + 1;
    }
    proof {
        assert(buffs@.take(buffs@.len() as int) =~= buffs@);
    }
    out
}

/// A key in the hotkey map belongs to an enabled buff that carries that
/// hotkey, the last such buff of the list; a key no enabled buff carries is absent.
pub proof fn lemma_hotkey_map_last_wins(bs: Seq<BuffItem>, k: Seq<char>)
    ensures
        assoc_map(buff_hotkey_entries(bs)).contains_key(k) <==> exists|j: int|
            0 <= j < bs.len() && (#[trigger] bs[j]).enabled && has_usable_hotkey(bs[j])
                && bs[j].hotkey->0@ == k,
        assoc_map(buff_hotkey_entries(bs)).contains_key(k) ==> exists|j: int|
            0 <= j < bs.len() && (#[trigger] bs[j]).enabled && has_usable_hotkey(bs[j])
                && bs[j].hotkey->0@ == k
                && assoc_map(buff_hotkey_entries(bs))[k] == bs[j].id
                && forall|l: int| j < l < bs.len() ==> !((#[trigger] bs[l]).enabled
                    && has_usable_hotkey(bs[l]) && bs[l].hotkey->0@ == k),
    decreases bs.len(),
{
    if bs.len() > 0 {
        let prev = bs.drop_last();
        lemma_hotkey_map_last_wins(prev, k);
        let b = bs.last();
        if b.enabled && has_usable_hotkey(b) {
            lemma_assoc_push(buff_hotkey_entries(prev), (b.hotkey->0, b.id));
        }
        assert forall|j: int| 0 <= j < prev.len() implies prev[j] == bs[j] by {}
        if b.enabled && has_usable_hotkey(b) && b.hotkey->0@ == k {
            assert(bs[bs.len() - 1] == b);
        } else if assoc_map(buff_hotkey_entries(bs)).contains_key(k) {
            let j = choose|j: int|
                0 <= j < prev.len() && (#[trigger] prev[j]).enabled && has_usable_hotkey(prev[j])
                    && prev[j].hotkey->0@ == k && assoc_map(buff_hotkey_entries(prev))[k]
                    == prev[j].id && forall|l: int| j < l < prev.len() ==> !((
                    #[trigger] prev[l]).enabled && has_usable_hotkey(prev[l])
                    && prev[l].hotkey->0@ == k);
            assert(bs[j] == prev[j]);
            assert forall|l: int| j < l < bs.len() implies !((#[trigger] bs[l]).enabled
                && has_usable_hotkey(bs[l]) && bs[l].hotkey->0@ == k) by {
                if l < prev.len() {
                    assert(bs[l] == prev[l]);
                }
            }
        }
        if exists|j: int|
            0 <= j < bs.len() && (#[trigger] bs[j]).enabled && has_usable_hotkey(bs[j])
                && bs[j].hotkey->0@ == k {
            let j = choose|j: int|
                0 <= j < bs.len() && (#[trigger] bs[j]).enabled && has_usable_hotkey(bs[j])
                    && bs[j].hotkey->0@ == k;
            if j < prev.len() {
                assert(prev[j] == bs[j]);
            }
        }
    }
}

/// The enabled buffs of a list, in list order.
pub open spec fn enabled_buffs(bs: Seq<BuffItem>) -> Seq<BuffItem>
    decreases bs.len(),
{
    if bs.len() == 0 {
        Seq::empty()
    } else if bs.last().enabled {
        enabled_buffs(bs.drop_last()).push(bs.last())
    } else {
        enabled_buffs(bs.drop_last())
    }
}

/// The timer definition that stands for a buff: id `buff_<id>`, the buff's name,
/// icon 💠, its duration, color `#4ECDC4`, five seconds of warning, no hotkey,
/// no chain, no repeat, type `buff`.
pub open spec fn is_buff_timer_def(d: TimerDef, b: BuffItem) -> bool {
    &&& d.id@ == buff_def_id_of(b.id@)
    &&& d.name == b.name
    &&& d.icon@ == "💠"@
    &&& d.duration_ms == b.duration_secs as u64 * 1000
    &&& d.hotkey is None
    &&& d.chain_to is None
    &&& d.color@ == "#4ECDC4"@
    &&& d.warning_ms == 5000
    &&& !d.repeat
    &&& d.timer_type is Some && d.timer_type->0@ == "buff"@
    &&& d.description is None
}

/// The timer definition for one buff.
pub fn buff_timer_def(b: &BuffItem) -> (d: TimerDef)
    ensures
        is_buff_timer_def(d, *b),
{
    TimerDef {
        id: buff_def_id(b.id.as_str()),
        name: b.name.clone(),
        icon: String::from_str("💠"),
        duration_ms: b.duration_secs as u64 * 1000,
        hotkey: None,
        chain_to: None,
        color: String::from_str("#4ECDC4"),
        warning_ms: 5000,
        repeat: false,
        timer_type: Some(String::from_str("buff")),
        description: None,
    }
}

/// The timer definitions of the enabled buffs, one per buff, in list order.
pub fn buff_timer_defs(buffs: &Vec<BuffItem>) -> (r: Vec<TimerDef>)
    ensures
        r@.len() == enabled_buffs(buffs@).len(),
        forall|i: int| 0 <= i < r@.len() ==> is_buff_timer_def(#[trigger] r@[i], enabled_buffs(buffs@)[i]),
{
    let mut out: Vec<TimerDef> = Vec::new();
    let mut i: usize = 0;
    while i < buffs.len()
        invariant
            i <= buffs@.len(),
            out@.len() == enabled_buffs(buffs@.take(i as int)).len(),
            forall|j: int| 0 <= j < out@.len() ==> is_buff_timer_def(#[trigger] out@[j], enabled_buffs(buffs@.take(i as int))[j]),
        decreases buffs@.len() - i,
    {
        let b = &buffs[i];
        proof {
            assert(buffs@.take(i as int + 1).drop_last() =~= buffs@.take(i as int));
            assert(buffs@.take(i as int + 1).last() == *b);
        }
        if b.enabled {
            out.push(buff_timer_def(b));
        }
        i = i + 1;
    }
    proof {
        assert(buffs@.take(buffs@.len() as int) =~= buffs@);
    }
    out
}

/// Why a new buff or an edit is refused, if it is: a blank name, else a zero duration.
pub open spec fn new_buff_error(name: Seq<char>, duration_secs: u32) -> Option<Seq<char>> {
    if is_blank_text(name) {
        Some("Buff name cannot be empty"@)
    } else if duration_secs == 0 {
        Some("Duration must be a positive integer"@)
    } else {
        None
    }
}

/// Adds a buff under the given id, enabled, after checking that its name is
/// not blank and its duration is positive.
pub fn add_buff_with_id(
    config: &mut BuffConfig,
    id: String,
    name: String,
    duration_secs: u32,
    hotkey: Option<String>,
) -> (r: Result<BuffItem, String>)
    ensures
        match new_buff_error(name@, duration_secs) {
            Some(msg) => r is Err && r->Err_0@ == msg && final(config).buffs@ == old(config).buffs@,
            None => r is Ok && r->Ok_0 == (BuffItem {
                id: id,
                name: name,
                duration_secs: duration_secs,
                hotkey: hotkey,
                enabled: true,
            }) && final(config).buffs@ == old(config).buffs@.push(r->Ok_0),
        },
{
    if is_blank(name.as_str()) {
        return Err(String::from_str("Buff name cannot be empty"));
    }
    if duration_secs == 0 {
        return Err(String::from_str("Duration must be a positive integer"));
    }
    let buff = BuffItem { id, name, duration_secs, hotkey, enabled: true };
    config.buffs.push(buff.clone());
    Ok(buff)
}

/// Adds a buff under a fresh random id; see `add_buff_with_id` for what is checked.
pub fn add_buff(config: &mut BuffConfig, name: String, duration_secs: u32, hotkey: Option<String>) -> (r:
    Result<BuffItem, String>)
    ensures
        match new_buff_error(name@, duration_secs) {
            Some(msg) => r is Err && r->Err_0@ == msg && final(config).buffs@ == old(config).buffs@,
            None => r is Ok && r->Ok_0.name == name && r->Ok_0.duration_secs == duration_secs
                && r->Ok_0.hotkey == hotkey && r->Ok_0.enabled && is_v4_uuid_text(r->Ok_0.id@)
                && final(config).buffs@ == old(config).buffs@.push(r->Ok_0),
        },
{
    if is_blank(name.as_str()) {
        return Err(String::from_str("Buff name cannot be empty"));
    }
    if duration_secs == 0 {
        return Err(String::from_str("Duration must be a positive integer"));
    }
    let id = new_v4_string();
    add_buff_with_id(config, id, name, duration_secs, hotkey)
}

/// Position of the first buff with this id, or the length of the list when none has it.
pub open spec fn buff_index(bs: Seq<BuffItem>, id: Seq<char>) -> int
    decreases bs.len(),
{
    if bs.len() == 0 {
        0
    } else if bs[0].id@ == id {
        0
    } else {
        1 + buff_index(bs.drop_first(), id)
    }
}

/// `buff_index` points at the first buff with the id, or past the end when there is none.
pub proof fn lemma_buff_index(bs: Seq<BuffItem>, id: Seq<char>)
    ensures
        0 <= buff_index(bs, id) <= bs.len(),
        forall|j: int| 0 <= j < buff_index(bs, id) ==> (#[trigger] bs[j]).id@ != id,
        buff_index(bs, id) < bs.len() ==> bs[buff_index(bs, id)].id@ == id,
    decreases bs.len(),
{
    if bs.len() > 0 && bs[0].id@ != id {
        lemma_buff_index(bs.drop_first(), id);
        assert forall|j: int| 0 <= j < buff_index(bs, id) implies (#[trigger] bs[j]).id@ != id by {
            if j > 0 {
                assert(bs[j] == bs.drop_first()[j - 1]);
            }
        }
    }
}

/// The message for a buff that is not in the list.
pub open spec fn buff_not_found(id: Seq<char>) -> Seq<char> {
    "Buff '"@ + id + "' not found"@
}

/// The buff after an edit whose checks all pass.
pub open spec fn updated_buff(b: BuffItem, u: BuffUpdate) -> BuffItem {
    BuffItem {
        id: b.id,
        name: match u.name {
            Some(n) => n,
            None => b.name,
        },
        duration_secs: match u.duration_secs {
            Some(d) => d,
            None => b.duration_secs,
        },
        hotkey: match u.hotkey {
            Some(h) => h,
            None => b.hotkey,
        },
        enabled: match u.enabled {
            Some(e) => e,
            None => b.enabled,
        },
    }
}

/// An accepted edit sets each field the update gives to the given value and
/// leaves every other field, and the id, as it was.
pub proof fn lemma_updated_buff_fields(b: BuffItem, u: BuffUpdate)
    ensures
        updated_buff(b, u).id == b.id,
        forall|n: String| u.name == Some(n) ==> updated_buff(b, u).name == n,
        u.name is None ==> updated_buff(b, u).name == b.name,
        forall|d: u32| u.duration_secs == Some(d) ==> updated_buff(b, u).duration_secs == d,
        u.duration_secs is None ==> updated_buff(b, u).duration_secs == b.duration_secs,
        forall|h: Option<String>| u.hotkey == Some(h) ==> updated_buff(b, u).hotkey == h,
        u.hotkey is None ==> updated_buff(b, u).hotkey == b.hotkey,
        forall|e: bool| u.enabled == Some(e) ==> updated_buff(b, u).enabled == e,
        u.enabled is None ==> updated_buff(b, u).enabled == b.enabled,
{
}

/// Edits the first buff with the update's id. A blank new name, or else a zero
/// new duration, is refused; the fields are applied in the order name, duration,
/// hotkey, enabled, so a refused duration leaves an accepted new name in place.
pub fn update_buff(config: &mut BuffConfig, update: BuffUpdate) -> (r: Result<BuffItem, String>)
    ensures
        ({
            let bs = old(config).buffs@;
            let i = buff_index(bs, update.id@);
            let name_bad = update.name is Some && is_blank_text(update.name->0@);
            let secs_bad = update.duration_secs == Some(0u32);
            if i == bs.len() {
                r is Err && r->Err_0@ == buff_not_found(update.id@) && final(config).buffs@ == bs
            } else if name_bad {
                r is Err && r->Err_0@ == "Buff name cannot be empty"@ && final(config).buffs@ == bs
            } else if secs_bad {
                r is Err && r->Err_0@ == "Duration must be a positive integer"@
                    && final(config).buffs@ == bs.update(
                    i,
                    BuffItem {
                        name: match update.name {
                            Some(n) => n,
                            None => bs[i].name,
                        },
                        ..bs[i]
                    },
                )
            } else {
                r is Ok && r->Ok_0 == updated_buff(bs[i], update) && final(config).buffs@ == bs.update(
                    i,
                    updated_buff(bs[i], update),
                )
            }
        }),
{
    let ghost bs = config.buffs@;
    proof {
        lemma_buff_index(bs, update.id@);
    }
    let mut i: usize = 0;
    while i < config.buffs.len() && !text_eq(config.buffs[i].id.as_str(), update.id.as_str())
        invariant
            config.buffs@ == bs,
            i <= bs.len(),
            forall|j: int| 0 <= j < i ==> (#[trigger] bs[j]).id@ != update.id@,
            0 <= buff_index(bs, update.id@) <= bs.len(),
            forall|j: int| 0 <= j < buff_index(bs, update.id@) ==> (#[trigger] bs[j]).id@ != update.id@,
            buff_index(bs, update.id@) < bs.len() ==> bs[buff_index(bs, update.id@)].id@ == update.id@,
        decreases bs.len() - i,
    {
        i = i + 1;
    }
    if i == config.buffs.len() {
        let msg = joined("Buff '", update.id.as_str()).concat("' not found");
        return Err(msg);
    }
    assert(i == buff_index(bs, update.id@));
    let mut b = config.buffs[i].clone();
    match &update.name {
        Some(n) => {
            if is_blank(n.as_str()) {
                return Err(String::from_str("Buff name cannot be empty"));
            }
            b.name = n.clone();
        },
        None => {},
    }
    match update.duration_secs {
        Some(secs) => {
            if secs == 0 {
                config.buffs.set(i, b);
                return Err(String::from_str("Duration must be a positive integer"));
            }
            b.duration_secs = secs;
        },
        None => {},
    }
    match &update.hotkey {
        Some(h) => {
            b.hotkey = copy_opt(h);
        },
        None => {},
    }
    match update.enabled {
        Some(e) => {
            b.enabled = e;
        },
        None => {},
    }
    config.buffs.set(i, b.clone());
    Ok(b)
}

/// The buffs whose id differs from `id`, in list order.
pub open spec fn buffs_without(bs: Seq<BuffItem>, id: Seq<char>) -> Seq<BuffItem>
    decreases bs.len(),
{
    if bs.len() == 0 {
        Seq::empty()
    } else if bs.last().id@ == id {
        buffs_without(bs.drop_last(), id)
    } else {
        buffs_without(bs.drop_last(), id).push(bs.last())
    }
}

/// Removes every buff with this id; when none has it, the list is unchanged and
/// the error names the id.
pub fn delete_buff(config: &mut BuffConfig, id: &str) -> (r: Result<(), String>)
    ensures
        final(config).buffs@ == buffs_without(old(config).buffs@, id@),
        r is Err <==> forall|j: int| 0 <= j < old(config).buffs@.len() ==> (#[trigger] old(config).buffs@[j]).id@ != id@,
        r is Err ==> r->Err_0@ == buff_not_found(id@),
{
    let ghost bs = config.buffs@;
    let mut kept: Vec<BuffItem> = Vec::new();
    let mut i: usize = 0;
    let mut found = false;
    while i < config.buffs.len()
        invariant
            config.buffs@ == bs,
            i <= bs.len(),
            kept@ == buffs_without(bs.take(i as int), id@),
            found == exists|j: int| 0 <= j < i && (#[trigger] bs[j]).id@ == id@,
        decreases bs.len() - i,
    {
        proof {
            assert(bs.take(i as int + 1).drop_last() =~= bs.take(i as int));
        }
        if text_eq(config.buffs[i].id.as_str(), id) {
            found = true;
        } else {
            kept.push(config.buffs[i].clone());
        }
        i = i + 1;
    }
    proof {
        assert(bs.take(bs.len() as int) =~= bs);
    }
    config.buffs = kept;
    if !found {
        let msg = joined("Buff '", id).concat("' not found");
        return Err(msg);
    }
    Ok(())
}


/// Deleting leaves no buff with the id and keeps every other buff, in order.
pub proof fn lemma_buffs_without(bs: Seq<BuffItem>, id: Seq<char>)
    ensures
        forall|j: int| 0 <= j < buffs_without(bs, id).len() ==> (#[trigger] buffs_without(bs, id)[j]).id@ != id,
        (forall|j: int| 0 <= j < bs.len() ==> (#[trigger] bs[j]).id@ != id) ==> buffs_without(bs, id) == bs,
    decreases bs.len(),
{
    if bs.len() > 0 {
        let p = bs.drop_last();
        lemma_buffs_without(p, id);
        if forall|j: int| 0 <= j < bs.len() ==> (#[trigger] bs[j]).id@ != id {
            assert forall|j: int| 0 <= j < p.len() implies (#[trigger] p[j]).id@ != id by {
                assert(p[j] == bs[j]);
            }
            assert(bs[bs.len() - 1].id@ != id);
            assert(buffs_without(bs, id) =~= bs);
        }
        let r = buffs_without(p, id);
        if bs.last().id@ != id {
            assert forall|j: int| 0 <= j < r.push(bs.last()).len() implies (#[trigger] r.push(bs.last())[j]).id@ != id by {
                if j < r.len() {
                    assert(r.push(bs.last())[j] == r[j]);
                }
            }
        }
    }
}

/// Deleting a buff just added under a fresh id gives back the list as it was.
pub proof fn lemma_add_then_delete(bs: Seq<BuffItem>, b: BuffItem)
    requires
        forall|j: int| 0 <= j < bs.len() ==> (#[trigger] bs[j]).id@ != b.id@,
    ensures
        buffs_without(bs.push(b), b.id@) == bs,
{
    assert(bs.push(b).drop_last() =~= bs);
    lemma_buffs_without(bs, b.id@);
}

} // verus!
