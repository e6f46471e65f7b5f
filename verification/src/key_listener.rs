//! Hotkeys seen by a pass-through key listener: key codes turned into hotkey
//! strings, and the listener's own state, which an outside event tap drives.
use crate::assoc::{assoc_find, assoc_map};
use vstd::prelude::*;

verus! {

/// The name of a virtual key code, in the form hotkey strings use.
pub open spec fn key_name(keycode: u16) -> Option<Seq<char>> {
    match keycode {
        0 => Some("A"@),
        1 => Some("S"@),
        2 => Some("D"@),
        3 => Some("F"@),
        4 => Some("H"@),
        5 => Some("G"@),
        6 => Some("Z"@),
        7 => Some("X"@),
        8 => Some("C"@),
        9 => Some("V"@),
        11 => Some("B"@),
        12 => Some("Q"@),
        13 => Some("W"@),
        14 => Some("E"@),
        15 => Some("R"@),
        16 => Some("Y"@),
        17 => Some("T"@),
        18 => Some("1"@),
        19 => Some("2"@),
        20 => Some("3"@),
        21 => Some("4"@),
        22 => Some("6"@),
        23 => Some("5"@),
        24 => Some("="@),
        25 => Some("9"@),
        26 => Some("7"@),
        27 => Some("-"@),
        28 => Some("8"@),
        29 => Some("0"@),
        30 => Some("]"@),
        31 => Some("O"@),
        32 => Some("U"@),
        33 => Some("["@),
        34 => Some("I"@),
        35 => Some("P"@),
        37 => Some("L"@),
        38 => Some("J"@),
        39 => Some("'"@),
        40 => Some("K"@),
        41 => Some(";"@),
        42 => Some("\\"@),
        43 => Some(","@),
        44 => Some("/"@),
        45 => Some("N"@),
        46 => Some("M"@),
        47 => Some("."@),
        49 => Some("Space"@),
        50 => Some("Backquote"@),
        51 => Some("Backspace"@),
        53 => Some("Escape"@),
        65 => Some("."@),
        67 => Some("*"@),
        69 => Some("+"@),
        71 => Some("Clear"@),
        75 => Some("/"@),
        76 => Some("Enter"@),
        78 => Some("-"@),
        82 => Some("0"@),
        83 => Some("1"@),
        84 => Some("2"@),
        85 => Some("3"@),
        86 => Some("4"@),
        87 => Some("5"@),
        88 => Some("6"@),
        89 => Some("7"@),
        91 => Some("8"@),
        92 => Some("9"@),
        36 => Some("Enter"@),
        48 => Some("Tab"@),
        96 => Some("F5"@),
        97 => Some("F6"@),
        98 => Some("F7"@),
        99 => Some("F3"@),
        100 => Some("F8"@),
        101 => Some("F9"@),
        103 => Some("F11"@),
        105 => Some("F13"@),
        109 => Some("F10"@),
        111 => Some("F12"@),
        113 => Some("F14"@),
        115 => Some("Home"@),
        116 => Some("PageUp"@),
        117 => Some("Delete"@),
        118 => Some("F4"@),
        119 => Some("End"@),
        120 => Some("F2"@),
        121 => Some("PageDown"@),
        122 => Some("F1"@),
        123 => Some("Left"@),
        124 => Some("Right"@),
        125 => Some("Down"@),
        126 => Some("Up"@),
        _ => None,
    }
}

/// The macOS virtual key codes (the `kVK_*` constants of the Carbon event
/// headers) that hotkeys can use, each with the name a hotkey string gives it,
/// listed by kind of key. Position `i` of the table, for `i < 92`.
pub open spec fn mac_key_entry(i: u8) -> (u16, Seq<char>) {
    match i {
        // Letters, `kVK_ANSI_A` to `kVK_ANSI_Z`.
        0 => (0x00, "A"@),
        1 => (0x0B, "B"@),
        2 => (0x08, "C"@),
        3 => (0x02, "D"@),
        4 => (0x0E, "E"@),
        5 => (0x03, "F"@),
        6 => (0x05, "G"@),
        7 => (0x04, "H"@),
        8 => (0x22, "I"@),
        9 => (0x26, "J"@),
        10 => (0x28, "K"@),
        11 => (0x25, "L"@),
        12 => (0x2E, "M"@),
        13 => (0x2D, "N"@),
        14 => (0x1F, "O"@),
        15 => (0x23, "P"@),
        16 => (0x0C, "Q"@),
        17 => (0x0F, "R"@),
        18 => (0x01, "S"@),
        19 => (0x11, "T"@),
        20 => (0x20, "U"@),
        21 => (0x09, "V"@),
        22 => (0x0D, "W"@),
        23 => (0x07, "X"@),
        24 => (0x10, "Y"@),
        25 => (0x06, "Z"@),
        // Digits of the main row, `kVK_ANSI_0` to `kVK_ANSI_9`.
        26 => (0x1D, "0"@),
        27 => (0x12, "1"@),
        28 => (0x13, "2"@),
        29 => (0x14, "3"@),
        30 => (0x15, "4"@),
        31 => (0x17, "5"@),
        32 => (0x16, "6"@),
        33 => (0x1A, "7"@),
        34 => (0x1C, "8"@),
        35 => (0x19, "9"@),
        // Punctuation of the main block.
        36 => (0x18, "="@),
        37 => (0x1B, "-"@),
        38 => (0x1E, "]"@),
        39 => (0x21, "["@),
        40 => (0x27, "'"@),
        41 => (0x29, ";"@),
        42 => (0x2A, "\\"@),
        43 => (0x2B, ","@),
        44 => (0x2C, "/"@),
        45 => (0x2F, "."@),
        46 => (0x32, "Backquote"@),
        // The numeric keypad.
        47 => (0x41, "."@),
        48 => (0x43, "*"@),
        49 => (0x45, "+"@),
        50 => (0x47, "Clear"@),
        51 => (0x4B, "/"@),
        52 => (0x4C, "Enter"@),
        53 => (0x4E, "-"@),
        54 => (0x52, "0"@),
        55 => (0x53, "1"@),
        56 => (0x54, "2"@),
        57 => (0x55, "3"@),
        58 => (0x56, "4"@),
        59 => (0x57, "5"@),
        60 => (0x58, "6"@),
        61 => (0x59, "7"@),
        62 => (0x5B, "8"@),
        63 => (0x5C, "9"@),
        // Whitespace and editing keys.
        64 => (0x24, "Enter"@),
        65 => (0x30, "Tab"@),
        66 => (0x31, "Space"@),
        67 => (0x33, "Backspace"@),
        68 => (0x35, "Escape"@),
        // Function keys.
        69 => (0x7A, "F1"@),
        70 => (0x78, "F2"@),
        71 => (0x63, "F3"@),
        72 => (0x76, "F4"@),
        73 => (0x60, "F5"@),
        74 => (0x61, "F6"@),
        75 => (0x62, "F7"@),
        76 => (0x64, "F8"@),
        77 => (0x65, "F9"@),
        78 => (0x6D, "F10"@),
        79 => (0x67, "F11"@),
        80 => (0x6F, "F12"@),
        81 => (0x69, "F13"@),
        82 => (0x71, "F14"@),
        // Navigation keys.
        83 => (0x73, "Home"@),
        84 => (0x74, "PageUp"@),
        85 => (0x75, "Delete"@),
        86 => (0x77, "End"@),
        87 => (0x79, "PageDown"@),
        88 => (0x7B, "Left"@),
        89 => (0x7C, "Right"@),
        90 => (0x7D, "Down"@),
        91 => (0x7E, "Up"@),
        _ => (0xFFFF, Seq::empty()),
    }
}

/// The key names agree with the macOS virtual key codes: each key of the table
/// has its name there, and every key code that has a name is in the table.
pub proof fn lemma_key_table()
    ensures
        forall|i: u8| i < 92 ==> key_name(#[trigger] mac_key_entry(i).0) == Some(mac_key_entry(i).1),
        forall|k: u16| #[trigger] key_name(k) is Some ==> exists|i: u8| i < 92 && mac_key_entry(i).0 == k,
{
    assert forall|i: u8| i < 92 implies key_name(#[trigger] mac_key_entry(i).0) == Some(mac_key_entry(i).1) by {
    }
    assert forall|k: u16| #[trigger] key_name(k) is Some implies exists|i: u8| i < 92 && mac_key_entry(i).0 == k by {
        if k == 0x00 {
            assert(mac_key_entry(0).0 == k);
        } else if k == 0x0B {
            assert(mac_key_entry(1).0 == k);
        } else if k == 0x08 {
            assert(mac_key_entry(2).0 == k);
        } else if k == 0x02 {
            assert(mac_key_entry(3).0 == k);
        } else if k == 0x0E {
            assert(mac_key_entry(4).0 == k);
        } else if k == 0x03 {
            assert(mac_key_entry(5).0 == k);
        } else if k == 0x05 {
            assert(mac_key_entry(6).0 == k);
        } else if k == 0x04 {
            assert(mac_key_entry(7).0 == k);
        } else if k == 0x22 {
            assert(mac_key_entry(8).0 == k);
        } else if k == 0x26 {
            assert(mac_key_entry(9).0 == k);
        } else if k == 0x28 {
            assert(mac_key_entry(10).0 == k);
        } else if k == 0x25 {
            assert(mac_key_entry(11).0 == k);
        } else if k == 0x2E {
            assert(mac_key_entry(12).0 == k);
        } else if k == 0x2D {
            assert(mac_key_entry(13).0 == k);
        } else if k == 0x1F {
            assert(mac_key_entry(14).0 == k);
        } else if k == 0x23 {
            assert(mac_key_entry(15).0 == k);
        } else if k == 0x0C {
            assert(mac_key_entry(16).0 == k);
        } else if k == 0x0F {
            assert(mac_key_entry(17).0 == k);
        } else if k == 0x01 {
            assert(mac_key_entry(18).0 == k);
        } else if k == 0x11 {
            assert(mac_key_entry(19).0 == k);
        } else if k == 0x20 {
            assert(mac_key_entry(20).0 == k);
        } else if k == 0x09 {
            assert(mac_key_entry(21).0 == k);
        } else if k == 0x0D {
            assert(mac_key_entry(22).0 == k);
        } else if k == 0x07 {
            assert(mac_key_entry(23).0 == k);
        } else if k == 0x10 {
            assert(mac_key_entry(24).0 == k);
        } else if k == 0x06 {
            assert(mac_key_entry(25).0 == k);
        } else if k == 0x1D {
            assert(mac_key_entry(26).0 == k);
        } else if k == 0x12 {
            assert(mac_key_entry(27).0 == k);
        } else if k == 0x13 {
            assert(mac_key_entry(28).0 == k);
        } else if k == 0x14 {
            assert(mac_key_entry(29).0 == k);
        } else if k == 0x15 {
            assert(mac_key_entry(30).0 == k);
        } else if k == 0x17 {
            assert(mac_key_entry(31).0 == k);
        } else if k == 0x16 {
            assert(mac_key_entry(32).0 == k);
        } else if k == 0x1A {
            assert(mac_key_entry(33).0 == k);
        } else if k == 0x1C {
            assert(mac_key_entry(34).0 == k);
        } else if k == 0x19 {
            assert(mac_key_entry(35).0 == k);
        } else if k == 0x18 {
            assert(mac_key_entry(36).0 == k);
        } else if k == 0x1B {
            assert(mac_key_entry(37).0 == k);
        } else if k == 0x1E {
            assert(mac_key_entry(38).0 == k);
        } else if k == 0x21 {
            assert(mac_key_entry(39).0 == k);
        } else if k == 0x27 {
            assert(mac_key_entry(40).0 == k);
        } else if k == 0x29 {
            assert(mac_key_entry(41).0 == k);
        } else if k == 0x2A {
            assert(mac_key_entry(42).0 == k);
        } else if k == 0x2B {
            assert(mac_key_entry(43).0 == k);
        } else if k == 0x2C {
            assert(mac_key_entry(44).0 == k);
        } else if k == 0x2F {
            assert(mac_key_entry(45).0 == k);
        } else if k == 0x32 {
            assert(mac_key_entry(46).0 == k);
        } else if k == 0x41 {
            assert(mac_key_entry(47).0 == k);
        } else if k == 0x43 {
            assert(mac_key_entry(48).0 == k);
        } else if k == 0x45 {
            assert(mac_key_entry(49).0 == k);
        } else if k == 0x47 {
            assert(mac_key_entry(50).0 == k);
        } else if k == 0x4B {
            assert(mac_key_entry(51).0 == k);
        } else if k == 0x4C {
            assert(mac_key_entry(52).0 == k);
        } else if k == 0x4E {
            assert(mac_key_entry(53).0 == k);
        } else if k == 0x52 {
            assert(mac_key_entry(54).0 == k);
        } else if k == 0x53 {
            assert(mac_key_entry(55).0 == k);
        } else if k == 0x54 {
            assert(mac_key_entry(56).0 == k);
        } else if k == 0x55 {
            assert(mac_key_entry(57).0 == k);
        } else if k == 0x56 {
            assert(mac_key_entry(58).0 == k);
        } else if k == 0x57 {
            assert(mac_key_entry(59).0 == k);
        } else if k == 0x58 {
            assert(mac_key_entry(60).0 == k);
        } else if k == 0x59 {
            assert(mac_key_entry(61).0 == k);
        } else if k == 0x5B {
            assert(mac_key_entry(62).0 == k);
        } else if k == 0x5C {
            assert(mac_key_entry(63).0 == k);
        } else if k == 0x24 {
            assert(mac_key_entry(64).0 == k);
        } else if k == 0x30 {
            assert(mac_key_entry(65).0 == k);
        } else if k == 0x31 {
            assert(mac_key_entry(66).0 == k);
        } else if k == 0x33 {
            assert(mac_key_entry(67).0 == k);
        } else if k == 0x35 {
            assert(mac_key_entry(68).0 == k);
        } else if k == 0x7A {
            assert(mac_key_entry(69).0 == k);
        } else if k == 0x78 {
            assert(mac_key_entry(70).0 == k);
        } else if k == 0x63 {
            assert(mac_key_entry(71).0 == k);
        } else if k == 0x76 {
            assert(mac_key_entry(72).0 == k);
        } else if k == 0x60 {
            assert(mac_key_entry(73).0 == k);
        } else if k == 0x61 {
            assert(mac_key_entry(74).0 == k);
        } else if k == 0x62 {
            assert(mac_key_entry(75).0 == k);
        } else if k == 0x64 {
            assert(mac_key_entry(76).0 == k);
        } else if k == 0x65 {
            assert(mac_key_entry(77).0 == k);
        } else if k == 0x6D {
            assert(mac_key_entry(78).0 == k);
        } else if k == 0x67 {
            assert(mac_key_entry(79).0 == k);
        } else if k == 0x6F {
            assert(mac_key_entry(80).0 == k);
        } else if k == 0x69 {
            assert(mac_key_entry(81).0 == k);
        } else if k == 0x71 {
            assert(mac_key_entry(82).0 == k);
        } else if k == 0x73 {
            assert(mac_key_entry(83).0 == k);
        } else if k == 0x74 {
            assert(mac_key_entry(84).0 == k);
        } else if k == 0x75 {
            assert(mac_key_entry(85).0 == k);
        } else if k == 0x77 {
            assert(mac_key_entry(86).0 == k);
        } else if k == 0x79 {
            assert(mac_key_entry(87).0 == k);
        } else if k == 0x7B {
            assert(mac_key_entry(88).0 == k);
        } else if k == 0x7C {
            assert(mac_key_entry(89).0 == k);
        } else if k == 0x7D {
            assert(mac_key_entry(90).0 == k);
        } else if k == 0x7E {
            assert(mac_key_entry(91).0 == k);
        }
    }
}

/// The name of a virtual key code, or `None` for a key that has none.
pub fn keycode_to_string(keycode: u16) -> (r: Option<String>)
    ensures
        match key_name(keycode) {
            Some(n) => r is Some && r->0@ == n,
            None => r is None,
        },
{
    let s: &str = match keycode {
        0 => "A",
        1 => "S",
        2 => "D",
        3 => "F",
        4 => "H",
        5 => "G",
        6 => "Z",
        7 => "X",
        8 => "C",
        9 => "V",
        11 => "B",
        12 => "Q",
        13 => "W",
        14 => "E",
        15 => "R",
        16 => "Y",
        17 => "T",
        18 => "1",
        19 => "2",
        20 => "3",
        21 => "4",
        22 => "6",
        23 => "5",
        24 => "=",
        25 => "9",
        26 => "7",
        27 => "-",
        28 => "8",
        29 => "0",
        30 => "]",
        31 => "O",
        32 => "U",
        33 => "[",
        34 => "I",
        35 => "P",
        37 => "L",
        38 => "J",
        39 => "'",
        40 => "K",
        41 => ";",
        42 => "\\",
        43 => ",",
        44 => "/",
        45 => "N",
        46 => "M",
        47 => ".",
        49 => "Space",
        50 => "Backquote",
        51 => "Backspace",
        53 => "Escape",
        65 => ".",
        67 => "*",
        69 => "+",
        71 => "Clear",
        75 => "/",
        76 => "Enter",
        78 => "-",
        82 => "0",
        83 => "1",
        84 => "2",
        85 => "3",
        86 => "4",
        87 => "5",
        88 => "6",
        89 => "7",
        91 => "8",
        92 => "9",
        36 => "Enter",
        48 => "Tab",
        96 => "F5",
        97 => "F6",
        98 => "F7",
        99 => "F3",
        100 => "F8",
        101 => "F9",
        103 => "F11",
        105 => "F13",
        109 => "F10",
        111 => "F12",
        113 => "F14",
        115 => "Home",
        116 => "PageUp",
        117 => "Delete",
        118 => "F4",
        119 => "End",
        120 => "F2",
        121 => "PageDown",
        122 => "F1",
        123 => "Left",
        124 => "Right",
        125 => "Down",
        126 => "Up",
        _ => return None,
    };
    Some(String::from_str(s))
}

/// The hotkey string of a key pressed with modifiers: `Ctrl+`, `Shift+`, `Alt+`
/// in that order for those held, then the key's name.
pub open spec fn hotkey_text(ctrl: bool, shift: bool, alt: bool, name: Seq<char>) -> Seq<char> {
    (if ctrl {
        "Ctrl+"@
    } else {
        Seq::empty()
    }) + (if shift {
        "Shift+"@
    } else {
        Seq::empty()
    }) + (if alt {
        "Alt+"@
    } else {
        Seq::empty()
    }) + name
}

/// The hotkey string of a key press; `ctrl` stands for Control or Command.
/// `None` for a key that has no name.
pub fn build_hotkey_string(keycode: u16, ctrl: bool, shift: bool, alt: bool) -> (r: Option<String>)
    ensures
        match key_name(keycode) {
            Some(n) => r is Some && r->0@ == hotkey_text(ctrl, shift, alt, n),
            None => r is None,
        },
{
    let key = match keycode_to_string(keycode) {
        Some(k) => k,
        None => return None,
    };
    let mut out = String::new();
    if ctrl {
        out = out.concat("Ctrl+");
    }
    if shift {
        out = out.concat("Shift+");
    }
    if alt {
        out = out.concat("Alt+");
    }
    out = out.concat(key.as_str());
    proof {
        assert(out@ =~= hotkey_text(ctrl, shift, alt, key@));
    }
    Some(out)
}

/// What a start request asks of the outside event tap.
#[derive(Debug, PartialEq, Eq, Clone, Copy)]
pub enum ListenerStart {
    /// The tap is already running; nothing to do.
    AlreadyRunning,
    /// The tap must be launched.
    LaunchTap,
}

/// The state of a pass-through key listener: whether monitoring was asked
/// for, whether the event tap runs, and which hotkey starts which buff.
pub struct KeyListener {
    monitoring_requested: bool,
    running: bool,
    hotkeys: Vec<(String, String)>,
}

impl KeyListener {
    /// Monitoring was asked for and not called off since.
    pub closed spec fn requested(self) -> bool {
        self.monitoring_requested
    }

    /// The event tap runs.
    pub closed spec fn tap_running(self) -> bool {
        self.running
    }

    /// Which hotkey starts which buff; a later entry wins.
    pub closed spec fn hotkey_map(self) -> Map<Seq<char>, String> {
        assoc_map(self.hotkeys@)
    }

    /// A listener that is not running, was not asked to, and knows no hotkeys.
    pub fn new() -> (r: Self)
        ensures
            !r.requested(),
            !r.tap_running(),
            r.hotkey_map() == Map::<Seq<char>, String>::empty(),
    {
        KeyListener { monitoring_requested: false, running: false, hotkeys: Vec::new() }
    }

    /// Asks for monitoring. The tap is to be launched unless it already runs.
    pub fn start(&mut self) -> (r: ListenerStart)
        ensures
            final(self).requested(),
            final(self).tap_running() == old(self).tap_running(),
            final(self).hotkey_map() == old(self).hotkey_map(),
            r == (if old(self).tap_running() {
                ListenerStart::AlreadyRunning
            } else {
                ListenerStart::LaunchTap
            }),
    {
        self.monitoring_requested = true;
        if self.running {
            ListenerStart::AlreadyRunning
        } else {
            ListenerStart::LaunchTap
        }
    }

    /// Calls off monitoring. Returns whether a running tap must be stopped.
    pub fn stop(&mut self) -> (r: bool)
        ensures
            !final(self).requested(),
            final(self).tap_running() == old(self).tap_running(),
            final(self).hotkey_map() == old(self).hotkey_map(),
            r == old(self).tap_running(),
    {
        self.monitoring_requested = false;
        self.running
    }

    /// Records that the event tap now runs.
    pub fn tap_started(&mut self)
        ensures
            final(self).tap_running(),
            final(self).requested() == old(self).requested(),
            final(self).hotkey_map() == old(self).hotkey_map(),
    {
        self.running = true;
    }

    /// Records that the event tap has stopped.
    pub fn tap_stopped(&mut self)
        ensures
            !final(self).tap_running(),
            final(self).requested() == old(self).requested(),
            final(self).hotkey_map() == old(self).hotkey_map(),
    {
        self.running = false;
    }

    /// Replaces the map from hotkey to buff id.
    pub fn update_hotkeys(&mut self, map: Vec<(String, String)>)
        ensures
            final(self).hotkey_map() == assoc_map(map@),
            final(self).requested() == old(self).requested(),
            final(self).tap_running() == old(self).tap_running(),
    {
        self.hotkeys = map;
    }

    /// Whether the event tap runs.
    pub fn is_running(&self) -> (r: bool)
        ensures
            r == self.tap_running(),
    {
        self.running
    }

    /// Whether monitoring was asked for.
    pub fn is_monitoring_requested(&self) -> (r: bool)
        ensures
            r == self.requested(),
    {
        self.monitoring_requested
    }

    /// The buff a key press starts, if its hotkey string is mapped to one.
    pub fn buff_for_key(&self, keycode: u16, ctrl: bool, shift: bool, alt: bool) -> (r: Option<String>)
        ensures
            match key_name(keycode) {
                Some(n) => {
                    let k = hotkey_text(ctrl, shift, alt, n);
                    r == (if self.hotkey_map().contains_key(k) {
                        Some(self.hotkey_map()[k])
                    } else {
                        None::<String>
                    })
                },
                None => r is None,
            },
    {
        let hk = match build_hotkey_string(keycode, ctrl, shift, alt) {
            Some(h) => h,
            None => return None,
        };
        match assoc_find(&self.hotkeys, hk.as_str()) {
            Some(i) => Some(self.hotkeys[i].1.clone()),
            None => None,
        }
    }
}

} // verus!
