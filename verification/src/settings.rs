//! Player settings: global hotkeys, per-boss hotkey overrides, hidden, muted and
//! ordered timers, and display preferences.
use crate::assoc::{assoc_find, assoc_map, assoc_remove, lemma_assoc_push};
use crate::boss_config::TimerDef;
use crate::text::{copy_texts, copy_opt, text_eq, texts_contain};
use vstd::prelude::*;

verus! {

/// Everything the player chose. The maps from a boss id are association lists in
/// which a later entry for a key replaces an earlier one; the three scales are
/// kept as the bits of `f64` values.
#[derive(Debug, PartialEq, Eq)]
pub struct AppSettings {
    pub back_hotkey: String,
    pub stop_all_hotkey: String,
    pub hotkeys: Vec<(String, Vec<(String, String)>)>,
    pub hidden_timers: Vec<(String, Vec<String>)>,
    pub muted_timers: Vec<(String, Vec<String>)>,
    pub timer_orders: Vec<(String, Vec<String>)>,
    pub mini_mode: bool,
    pub font_scale_bits: u64,
    pub icon_scale_bits: u64,
    pub bg_opacity_bits: u64,
    pub pause_hotkey: String,
}

/// What the hotkey settings show of one timer.
#[derive(Debug, PartialEq, Eq)]
pub struct BossHotkeyInfo {
    pub timer_id: String,
    pub timer_name: String,
    pub default_hotkey: Option<String>,
    pub effective_hotkey: Option<String>,
}

/// The hotkey that leaves a boss and goes back to the boss list.
pub fn default_back_hotkey() -> (r: String)
    ensures
        r@ == "Alt+Home"@,
{
    String::from_str("Alt+Home")
}

/// The hotkey that stops every timer.
pub fn default_stop_all_hotkey() -> (r: String)
    ensures
        r@ == "Ctrl+0"@,
{
    String::from_str("Ctrl+0")
}

/// The hotkey that pauses and resumes every other shortcut.
pub fn default_pause_hotkey() -> (r: String)
    ensures
        r@ == "Ctrl+Backquote"@,
{
    String::from_str("Ctrl+Backquote")
}

/// The bits of the default font scale, `1.0_f64`.
pub fn default_font_scale_bits() -> (r: u64)
    ensures
        r == 0x3FF0_0000_0000_0000,
{
    0x3FF0_0000_0000_0000
}

/// The bits of the default icon scale, `1.25_f64`.
pub fn default_icon_scale_bits() -> (r: u64)
    ensures
        r == 0x3FF4_0000_0000_0000,
{
    0x3FF4_0000_0000_0000
}

/// The bits of the default background opacity, `1.0_f64`.
pub fn default_bg_opacity_bits() -> (r: u64)
    ensures
        r == 0x3FF0_0000_0000_0000,
{
    0x3FF0_0000_0000_0000
}

/// The settings of a player who chose nothing.
pub open spec fn is_default_settings(s: AppSettings) -> bool {
    &&& s.back_hotkey@ == "Alt+Home"@
    &&& s.stop_all_hotkey@ == "Ctrl+0"@
    &&& s.hotkeys@.len() == 0
    &&& s.hidden_timers@.len() == 0
    &&& s.muted_timers@.len() == 0
    &&& s.timer_orders@.len() == 0
    &&& !s.mini_mode
    &&& s.font_scale_bits == 0x3FF0_0000_0000_0000
    &&& s.icon_scale_bits == 0x3FF4_0000_0000_0000
    &&& s.bg_opacity_bits == 0x3FF0_0000_0000_0000
    &&& s.pause_hotkey@ == "Ctrl+Backquote"@
}

impl Default for AppSettings {
    fn default() -> (r: Self)
        ensures
            is_default_settings(r),
    {
        AppSettings {
            back_hotkey: default_back_hotkey(),
            stop_all_hotkey: default_stop_all_hotkey(),
            hotkeys: Vec::new(),
            hidden_timers: Vec::new(),
            muted_timers: Vec::new(),
            timer_orders: Vec::new(),
            mini_mode: false,
            font_scale_bits: default_font_scale_bits(),
            icon_scale_bits: default_icon_scale_bits(),
            bg_opacity_bits: default_bg_opacity_bits(),
            pause_hotkey: default_pause_hotkey(),
        }
    }
}

/// Two settings agree on the global hotkeys and the display scales.
pub open spec fn same_globals(a: AppSettings, b: AppSettings) -> bool {
    &&& a.back_hotkey == b.back_hotkey
    &&& a.stop_all_hotkey == b.stop_all_hotkey
    &&& a.pause_hotkey == b.pause_hotkey
    &&& a.font_scale_bits == b.font_scale_bits
    &&& a.icon_scale_bits == b.icon_scale_bits
    &&& a.bg_opacity_bits == b.bg_opacity_bits
}

/// A per-boss list setting, seen as a map from boss id to the list.
pub open spec fn lists_view(s: Seq<(String, Vec<String>)>) -> Map<Seq<char>, Seq<String>> {
    assoc_map(s).map_values(|v: Vec<String>| v@)
}

/// The list a map holds for a key, empty when it holds none.
pub open spec fn list_or_empty(m: Map<Seq<char>, Seq<String>>, k: Seq<char>) -> Seq<String> {
    if m.contains_key(k) {
        m[k]
    } else {
        Seq::empty()
    }
}

/// Some text of the list equals `t`.
pub open spec fn list_has(l: Seq<String>, t: Seq<char>) -> bool {
    exists|j: int| 0 <= j < l.len() && (#[trigger] l[j])@ == t
}

/// Position of the first text equal to `t`, or the length of the list when none is.
pub open spec fn text_index(l: Seq<String>, t: Seq<char>) -> int
    decreases l.len(),
{
    if l.len() == 0 {
        0
    } else if l[0]@ == t {
        0
    } else {
        1 + text_index(l.drop_first(), t)
    }
}

/// `text_index` points at the first equal text, or past the end when there is none.
pub proof fn lemma_text_index(l: Seq<String>, t: Seq<char>)
    ensures
        0 <= text_index(l, t) <= l.len(),
        forall|j: int| 0 <= j < text_index(l, t) ==> (#[trigger] l[j])@ != t,
        text_index(l, t) < l.len() ==> l[text_index(l, t)]@ == t,
        list_has(l, t) <==> text_index(l, t) < l.len(),
    decreases l.len(),
{
    if l.len() > 0 && l[0]@ != t {
        lemma_text_index(l.drop_first(), t);
        assert forall|j: int| 0 <= j < text_index(l, t) implies (#[trigger] l[j])@ != t by {
            if j > 0 {
                assert(l[j] == l.drop_first()[j - 1]);
            }
        }
        if list_has(l, t) {
            let j = choose|j: int| 0 <= j < l.len() && (#[trigger] l[j])@ == t;
            assert(l.drop_first()[j - 1] == l[j]);
        }
        if text_index(l, t) < l.len() {
            assert(l[text_index(l, t)] == l.drop_first()[text_index(l, t) - 1]);
        }
    } else if l.len() > 0 {
        assert(l[0]@ == t);
    }
}

/// Appending an entry to a per-boss list setting sets the boss's list.
pub proof fn lemma_lists_push(s: Seq<(String, Vec<String>)>, e: (String, Vec<String>))
    ensures
        lists_view(s.push(e)) == lists_view(s).insert(e.0@, e.1@),
{
    lemma_assoc_push(s, e);
    assert(lists_view(s.push(e)) =~= lists_view(s).insert(e.0@, e.1@));
}

/// The list a per-boss setting holds for `boss_id`, empty when it holds none.
pub fn list_for(lists: &Vec<(String, Vec<String>)>, boss_id: &str) -> (r: Vec<String>)
    ensures
        r@ == list_or_empty(lists_view(lists@), boss_id@),
{
    match assoc_find(lists, boss_id) {
        Some(i) => copy_texts(&lists[i].1),
        None => Vec::new(),
    }
}

/// A copy of a list of text pairs.
pub fn copy_pairs(v: &Vec<(String, String)>) -> (r: Vec<(String, String)>)
    ensures
        r@ == v@,
{
    let mut out: Vec<(String, String)> = Vec::new();
    let mut i: usize = 0;
    while i < v.len()
        invariant
            i <= v@.len(),
            out@ == v@.take(i as int),
        decreases v@.len() - i,
    {
        out.push((v[i].0.clone(), v[i].1.clone()));
        proof {
            assert(v@.take(i as int + 1) =~= v@.take(i as int).push(v@[i as int]));
        }
        i = i + 1;
    }
    proof {
        assert(v@.take(v@.len() as int) =~= v@);
    }
    out
}

/// The hotkey overrides a boss has, as timer id to hotkey entries.
pub open spec fn overrides_of(s: AppSettings, boss_id: Seq<char>) -> Seq<(String, String)> {
    if assoc_map(s.hotkeys@).contains_key(boss_id) {
        assoc_map(s.hotkeys@)[boss_id]@
    } else {
        Seq::empty()
    }
}

/// The hidden lists after hiding `t` for boss `b`: appended unless already there.
pub open spec fn hidden_after_hide(m: Map<Seq<char>, Seq<String>>, b: Seq<char>, t: String) -> Map<
    Seq<char>,
    Seq<String>,
> {
    let l = list_or_empty(m, b);
    m.insert(
        b,
        if list_has(l, t@) {
            l
        } else {
            l.push(t)
        },
    )
}

/// The list after toggling `t`: its first occurrence taken out, or `t` appended.
pub open spec fn toggled(l: Seq<String>, t: String) -> Seq<String> {
    let p = text_index(l, t@);
    if p < l.len() {
        l.remove(p)
    } else {
        l.push(t)
    }
}

/// The muted lists after toggling `t` for boss `b`.
pub open spec fn muted_after_toggle(m: Map<Seq<char>, Seq<String>>, b: Seq<char>, t: String) -> Map<
    Seq<char>,
    Seq<String>,
> {
    m.insert(b, toggled(list_or_empty(m, b), t))
}

/// Hiding a timer twice is hiding it once.
pub proof fn lemma_hide_idempotent(m: Map<Seq<char>, Seq<String>>, b: Seq<char>, t: String)
    ensures
        hidden_after_hide(hidden_after_hide(m, b, t), b, t) == hidden_after_hide(m, b, t),
        list_has(list_or_empty(hidden_after_hide(m, b, t), b), t@),
{
    let l = list_or_empty(m, b);
    if !list_has(l, t@) {
        assert(l.push(t)[l.len() as int] == t);
    }
    assert(hidden_after_hide(hidden_after_hide(m, b, t), b, t) =~= hidden_after_hide(m, b, t));
}

/// The text occurs at most once in the list.
pub open spec fn at_most_once(l: Seq<String>, t: Seq<char>) -> bool {
    forall|i: int, j: int| 0 <= i < j < l.len() ==> !((#[trigger] l[i])@ == t && (#[trigger] l[j])@ == t)
}

/// Toggling a timer that occurs at most once: afterwards it occurs at most once,
/// it is in the list exactly when it was not before, and a second toggle puts
/// the list's membership back as it was.
pub proof fn lemma_toggle_twice(l: Seq<String>, t: String)
    requires
        at_most_once(l, t@),
    ensures
        at_most_once(toggled(l, t), t@),
        list_has(toggled(l, t), t@) == !list_has(l, t@),
        list_has(toggled(toggled(l, t), t), t@) == list_has(l, t@),
{
    lemma_text_index(l, t@);
    let p = text_index(l, t@);
    let l1 = toggled(l, t);
    if p < l.len() {
        assert forall|j: int| 0 <= j < l1.len() implies (#[trigger] l1[j])@ != t@ by {
            if j < p {
                assert(l1[j] == l[j]);
            } else {
                assert(l1[j] == l[j + 1]);
            }
        }
    } else {
        assert(l1[l.len() as int] == t);
        assert forall|i: int, j: int| 0 <= i < j < l1.len() implies !((#[trigger] l1[i])@ == t@ && (#[trigger] l1[j])@ == t@) by {
            assert(l1[i] == l[i]);
        }
    }
    lemma_text_index(l1, t@);
    let l2 = toggled(l1, t);
    if p < l.len() {
        assert(!list_has(l1, t@));
        assert(l2[l1.len() as int] == t);
    } else {
        assert(text_index(l1, t@) == l.len());
        assert(l2 =~= l);
    }
}

/// The test "no hidden entry equals the timer's id".
pub open spec fn not_hidden(hidden: Seq<String>) -> spec_fn(TimerDef) -> bool {
    |t: TimerDef| !(exists|j: int| 0 <= j < hidden.len() && (#[trigger] hidden[j])@ == t.id@)
}

/// The visible timers are exactly the timers whose id no hidden entry equals,
/// in their order: the list filtered by "not hidden".
pub proof fn lemma_visible_timers_filter(ts: Seq<TimerDef>, hidden: Seq<String>)
    ensures
        visible_timers_of(ts, hidden) == ts.filter(not_hidden(hidden)),
    decreases ts.len(),
{
    if ts.len() == 0 {
        reveal(Seq::filter);
    } else {
        lemma_visible_timers_filter(ts.drop_last(), hidden);
        let pred = not_hidden(hidden);
        assert(pred(ts.last()) == !list_has(hidden, ts.last().id@));
        ts.drop_last().lemma_filter_push(ts.last(), pred);
        assert(ts.drop_last().push(ts.last()) =~= ts);
    }
}

/// With nothing hidden, every timer is visible.
pub proof fn lemma_nothing_hidden(ts: Seq<TimerDef>)
    ensures
        visible_timers_of(ts, Seq::empty()) == ts,
    decreases ts.len(),
{
    if ts.len() > 0 {
        lemma_nothing_hidden(ts.drop_last());
        assert(ts.drop_last().push(ts.last()) =~= ts);
    }
}

/// After the hidden timers of a boss are reset, every timer of it is visible.
pub proof fn lemma_reset_shows_all(m: Map<Seq<char>, Seq<String>>, b: Seq<char>, ts: Seq<TimerDef>)
    ensures
        visible_timers_of(ts, list_or_empty(m.remove(b), b)) == ts,
{
    lemma_nothing_hidden(ts);
}

impl AppSettings {
    /// The timers the player hid for a boss.
    pub fn hidden_for(&self, boss_id: &str) -> (r: Vec<String>)
        ensures
            r@ == list_or_empty(lists_view(self.hidden_timers@), boss_id@),
    {
        list_for(&self.hidden_timers, boss_id)
    }

    /// The timers the player muted for a boss.
    pub fn muted_for(&self, boss_id: &str) -> (r: Vec<String>)
        ensures
            r@ == list_or_empty(lists_view(self.muted_timers@), boss_id@),
    {
        list_for(&self.muted_timers, boss_id)
    }

    /// The order the player gave to a boss's timers.
    pub fn timer_order_for(&self, boss_id: &str) -> (r: Vec<String>)
        ensures
            r@ == list_or_empty(lists_view(self.timer_orders@), boss_id@),
    {
        list_for(&self.timer_orders, boss_id)
    }

    /// The hotkey overrides of a boss, timer id to hotkey; empty when it has none.
    pub fn overrides_for(&self, boss_id: &str) -> (r: Vec<(String, String)>)
        ensures
            r@ == overrides_of(*self, boss_id@),
    {
        match assoc_find(&self.hotkeys, boss_id) {
            Some(i) => copy_pairs(&self.hotkeys[i].1),
            None => Vec::new(),
        }
    }

    /// Hides a timer of a boss; hiding a hidden timer changes nothing.
    pub fn hide_timer(&mut self, boss_id: String, timer_id: String)
        ensures
            ({
                lists_view(final(self).hidden_timers@) == hidden_after_hide(
                    lists_view(old(self).hidden_timers@),
                    boss_id@,
                    timer_id,
                )
            }),
            final(self).muted_timers == old(self).muted_timers,
            final(self).timer_orders == old(self).timer_orders,
            final(self).hotkeys == old(self).hotkeys,
            same_globals(*final(self), *old(self)),
            final(self).mini_mode == old(self).mini_mode,
    {
        let mut list = list_for(&self.hidden_timers, boss_id.as_str());
        if !texts_contain(&list, timer_id.as_str()) {
            list.push(timer_id);
        }
        let ghost before = self.hidden_timers@;
        let ghost l = list;
        self.hidden_timers.push((boss_id, list));
        proof {
            lemma_lists_push(before, (boss_id, l));
        }
    }

    /// Shows every timer of a boss again.
    pub fn reset_hidden_timers(&mut self, boss_id: &str)
        ensures
            lists_view(final(self).hidden_timers@) == lists_view(old(self).hidden_timers@).remove(boss_id@),
            final(self).muted_timers == old(self).muted_timers,
            final(self).timer_orders == old(self).timer_orders,
            final(self).hotkeys == old(self).hotkeys,
            same_globals(*final(self), *old(self)),
            final(self).mini_mode == old(self).mini_mode,
    {
        let mut lists: Vec<(String, Vec<String>)> = Vec::new();
        std::mem::swap(&mut lists, &mut self.hidden_timers);
        let ghost before = lists@;
        let kept = assoc_remove(lists, boss_id);
        self.hidden_timers = kept;
        proof {
            assert(lists_view(self.hidden_timers@) =~= lists_view(before).remove(boss_id@));
        }
    }

    /// Records the order the player gave to a boss's timers.
    pub fn save_timer_order(&mut self, boss_id: String, order: Vec<String>)
        ensures
            lists_view(final(self).timer_orders@) == lists_view(old(self).timer_orders@).insert(boss_id@, order@),
            final(self).hidden_timers == old(self).hidden_timers,
            final(self).muted_timers == old(self).muted_timers,
            final(self).hotkeys == old(self).hotkeys,
            same_globals(*final(self), *old(self)),
            final(self).mini_mode == old(self).mini_mode,
    {
        let ghost before = self.timer_orders@;
        let ghost e = (boss_id, order);
        self.timer_orders.push((boss_id, order));
        proof {
            lemma_lists_push(before, e);
        }
    }

    /// Turns the compact display on or off.
    pub fn set_mini_mode(&mut self, enabled: bool)
        ensures
            final(self).mini_mode == enabled,
            final(self).hidden_timers == old(self).hidden_timers,
            final(self).muted_timers == old(self).muted_timers,
            final(self).timer_orders == old(self).timer_orders,
            final(self).hotkeys == old(self).hotkeys,
            same_globals(*final(self), *old(self)),
    {
        self.mini_mode = enabled;
    }

    /// Mutes a timer of a boss, or unmutes it when it is muted: the first
    /// occurrence is taken out, else the timer is appended. Returns whether the
    /// timer was muted by this call.
    pub fn toggle_mute_timer(&mut self, boss_id: String, timer_id: String) -> (r: bool)
        ensures
            ({
                let old_list = list_or_empty(lists_view(old(self).muted_timers@), boss_id@);
                &&& r == (text_index(old_list, timer_id@) == old_list.len())
                &&& lists_view(final(self).muted_timers@) == muted_after_toggle(
                    lists_view(old(self).muted_timers@),
                    boss_id@,
                    timer_id,
                )
            }),
            final(self).hidden_timers == old(self).hidden_timers,
            final(self).timer_orders == old(self).timer_orders,
            final(self).hotkeys == old(self).hotkeys,
            same_globals(*final(self), *old(self)),
            final(self).mini_mode == old(self).mini_mode,
    {
        let mut list = list_for(&self.muted_timers, boss_id.as_str());
        let ghost old_list = list@;
        proof {
            lemma_text_index(old_list, timer_id@);
        }
        let mut p: usize = 0;
        while p < list.len() && !text_eq(list[p].as_str(), timer_id.as_str())
            invariant
                list@ == old_list,
                p <= old_list.len(),
                forall|j: int| 0 <= j < p ==> (#[trigger] old_list[j])@ != timer_id@,
                0 <= text_index(old_list, timer_id@) <= old_list.len(),
                forall|j: int| 0 <= j < text_index(old_list, timer_id@) ==> (#[trigger] old_list[j])@ != timer_id@,
                text_index(old_list, timer_id@) < old_list.len() ==> old_list[text_index(old_list, timer_id@)]@ == timer_id@,
            decreases old_list.len() - p,
        {
            p = p + 1;
        }
        assert(p == text_index(old_list, timer_id@));
        let muted_now = if p < list.len() {
            list.remove(p);
            false
        } else {
            list.push(timer_id);
            true
        };
        let ghost before = self.muted_timers@;
        let ghost l = list;
        self.muted_timers.push((boss_id, list));
        proof {
            lemma_lists_push(before, (boss_id, l));
        }
        muted_now
    }
}

/// The timers of a list that are not hidden, in list order.
pub open spec fn visible_timers_of(ts: Seq<TimerDef>, hidden: Seq<String>) -> Seq<TimerDef>
    decreases ts.len(),
{
    if ts.len() == 0 {
        Seq::empty()
    } else if list_has(hidden, ts.last().id@) {
        visible_timers_of(ts.drop_last(), hidden)
    } else {
        visible_timers_of(ts.drop_last(), hidden).push(ts.last())
    }
}

/// The timers whose id is not in `hidden`, in list order.
pub fn visible_timers(timers: &Vec<TimerDef>, hidden: &Vec<String>) -> (r: Vec<TimerDef>)
    ensures
        r@ == visible_timers_of(timers@, hidden@),
{
    let mut out: Vec<TimerDef> = Vec::new();
    let mut i: usize = 0;
    while i < timers.len()
        invariant
            i <= timers@.len(),
            out@ == visible_timers_of(timers@.take(i as int), hidden@),
        decreases timers@.len() - i,
    {
        proof {
            assert(timers@.take(i as int + 1).drop_last() =~= timers@.take(i as int));
        }
        if !texts_contain(hidden, timers[i].id.as_str()) {
            out.push(timers[i].clone());
        }
        i = i + 1;
    }
    proof {
        assert(timers@.take(timers@.len() as int) =~= timers@);
    }
    out
}

/// The hotkey a timer answers to: the player's override for its id, else the
/// hotkey its definition names.
pub open spec fn effective_hotkey_of(overrides: Seq<(String, String)>, t: TimerDef) -> Option<String> {
    if assoc_map(overrides).contains_key(t.id@) {
        Some(assoc_map(overrides)[t.id@])
    } else {
        t.hotkey
    }
}

/// The hotkey a timer answers to under the given overrides.
pub fn effective_hotkey(overrides: &Vec<(String, String)>, timer: &TimerDef) -> (r: Option<String>)
    ensures
        r == effective_hotkey_of(overrides@, *timer),
{
    match assoc_find(overrides, timer.id.as_str()) {
        Some(i) => Some(overrides[i].1.clone()),
        None => copy_opt(&timer.hotkey),
    }
}

/// The player's override for a timer's id wins; without one, the timer's own hotkey is used.
pub proof fn lemma_effective_hotkey(overrides: Seq<(String, String)>, t: TimerDef)
    ensures
        assoc_map(overrides).contains_key(t.id@) ==> effective_hotkey_of(overrides, t) == Some(
            assoc_map(overrides)[t.id@],
        ),
        !assoc_map(overrides).contains_key(t.id@) ==> effective_hotkey_of(overrides, t) == t.hotkey,
{
}

/// The hotkey view of one timer.
pub open spec fn is_hotkey_info(h: BossHotkeyInfo, overrides: Seq<(String, String)>, t: TimerDef) -> bool {
    &&& h.timer_id == t.id
    &&& h.timer_name == t.name
    &&& h.default_hotkey == t.hotkey
    &&& h.effective_hotkey == effective_hotkey_of(overrides, t)
}

/// For each timer of a boss, in order: its id, name, own hotkey, and the hotkey
/// it answers to under the overrides.
pub fn boss_hotkeys(timers: &Vec<TimerDef>, overrides: &Vec<(String, String)>) -> (r: Vec<BossHotkeyInfo>)
    ensures
        r@.len() == timers@.len(),
        forall|i: int| 0 <= i < r@.len() ==> is_hotkey_info(#[trigger] r@[i], overrides@, timers@[i]),
{
    let mut out: Vec<BossHotkeyInfo> = Vec::new();
    let mut i: usize = 0;
    while i < timers.len()
        invariant
            i <= timers@.len(),
            out@.len() == i,
            forall|j: int| 0 <= j < i ==> is_hotkey_info(#[trigger] out@[j], overrides@, timers@[j]),
        decreases timers@.len() - i,
    {
        let t = &timers[i];
        out.push(
            BossHotkeyInfo {
                timer_id: t.id.clone(),
                timer_name: t.name.clone(),
                default_hotkey: copy_opt(&t.hotkey),
                effective_hotkey: effective_hotkey(overrides, t),
            },
        );
        i = i + 1;
    }
    out
}

} // verus!
