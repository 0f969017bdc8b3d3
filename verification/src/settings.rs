use vstd::prelude::*;
use crate::text::{all_ascii, ascii_uppercase};

verus! {

/// The overlay's whole configuration.
pub struct Settings {
    pub enabled: bool,
    pub color: String,
    pub line_width: i32,
    pub line_length: i32,
    pub gap: i32,
    pub dot_enabled: bool,
    pub dot_size: i32,
    pub hotkey_ctrl: bool,
    pub hotkey_alt: bool,
    pub hotkey_shift: bool,
    pub hotkey_win: bool,
    pub hotkey_key: String,
    pub autostart: bool,
    pub offset_x: i32,
    pub offset_y: i32,
    pub outline_enabled: bool,
    pub draw_left: bool,
    pub draw_right: bool,
    pub draw_top: bool,
    pub draw_bottom: bool,
}

/// Whether an arm of the crosshair is drawn when stored settings do not say.
pub fn default_draw_line() -> (res: bool)
    ensures
        res,
{
    true
}

/// The factory configuration: an enabled cyan crosshair with 2-pixel lines
/// 8 pixels long, a gap of 4, no dot, no outline, all four arms, centred,
/// toggled by Ctrl+Alt+C, without autostart.
pub open spec fn is_default_settings(s: Settings) -> bool {
    &&& s.enabled
    &&& s.color@ == "#00ffff"@
    &&& s.line_width == 2
    &&& s.line_length == 8
    &&& s.gap == 4
    &&& !s.dot_enabled
    &&& s.dot_size == 3
    &&& s.hotkey_ctrl
    &&& s.hotkey_alt
    &&& !s.hotkey_shift
    &&& !s.hotkey_win
    &&& s.hotkey_key@ == "C"@
    &&& !s.autostart
    &&& s.offset_x == 0
    &&& s.offset_y == 0
    &&& !s.outline_enabled
    &&& s.draw_left
    &&& s.draw_right
    &&& s.draw_top
    &&& s.draw_bottom
}

impl Default for Settings {
    fn default() -> (s: Self)
        ensures
            is_default_settings(s),
    {
        Settings {
            enabled: true,
            color: String::from_str("#00ffff"),
            line_width: 2,
            line_length: 8,
            gap: 4,
            dot_enabled: false,
            dot_size: 3,
            hotkey_ctrl: true,
            hotkey_alt: true,
            hotkey_shift: false,
            hotkey_win: false,
            hotkey_key: String::from_str("C"),
            autostart: false,
            offset_x: 0,
            offset_y: 0,
            outline_enabled: false,
            draw_left: true,
            draw_right: true,
            draw_top: true,
            draw_bottom: true,
        }
    }
}

/// The settings to start from: those read back from storage when they could
/// be read and parsed, else the factory configuration.
pub fn loaded_or_default(stored: Option<Settings>) -> (s: Settings)
    ensures
        stored matches Some(t) ==> s == t,
        stored is None ==> is_default_settings(s),
{
    match stored {
        Some(t) => t,
        None => Settings::default(),
    }
}

/// `MOD_ALT`, `MOD_CONTROL`, `MOD_SHIFT` and `MOD_WIN` of `RegisterHotKey`.
pub const MOD_ALT: u32 = 0x0001;
pub const MOD_CONTROL: u32 = 0x0002;
pub const MOD_SHIFT: u32 = 0x0004;
pub const MOD_WIN: u32 = 0x0008;

/// The modifier mask for the configured hotkey.
pub open spec fn modifier_mask(s: Settings) -> u32 {
    ((if s.hotkey_alt { MOD_ALT } else { 0 }) + (if s.hotkey_ctrl { MOD_CONTROL } else { 0 })
        + (if s.hotkey_shift { MOD_SHIFT } else { 0 }) + (if s.hotkey_win { MOD_WIN } else { 0 })) as u32
}

/// The `RegisterHotKey` modifier mask that the settings ask for: one bit per
/// modifier key that is switched on, and nothing else.
pub fn get_hotkey_modifiers(settings: &Settings) -> (mods: u32)
    ensures
        mods == modifier_mask(*settings),
        mods <= 0xF,
{
    let mut mods: u32 = 0;
    if settings.hotkey_alt {
        mods = mods + MOD_ALT;
    }
    if settings.hotkey_ctrl {
        mods = mods + MOD_CONTROL;
    }
    if settings.hotkey_shift {
        mods = mods + MOD_SHIFT;
    }
    if settings.hotkey_win {
        mods = mods + MOD_WIN;
    }
    mods
}

/// The virtual-key code used when the key name is not recognised: `C`.
pub const DEFAULT_VIRTUAL_KEY: u32 = 0x43;

/// The virtual-key code that an upper-case key name denotes: the named keys
/// SPACE, INSERT, DELETE, HOME, END, PAGEUP, PAGEDOWN and F1 to F12, a single
/// letter `A`-`Z` or digit `0`-`9` (whose code is its own character code),
/// and `C` for anything else.
pub open spec fn virtual_key_of(key: Seq<char>) -> u32 {
    if key == seq!['S', 'P', 'A', 'C', 'E'] {
        0x20
    } else if key == seq!['I', 'N', 'S', 'E', 'R', 'T'] {
        0x2D
    } else if key == seq!['D', 'E', 'L', 'E', 'T', 'E'] {
        0x2E
    } else if key == seq!['H', 'O', 'M', 'E'] {
        0x24
    } else if key == seq!['E', 'N', 'D'] {
        0x23
    } else if key == seq!['P', 'A', 'G', 'E', 'U', 'P'] {
        0x21
    } else if key == seq!['P', 'A', 'G', 'E', 'D', 'O', 'W', 'N'] {
        0x22
    } else if key == seq!['F', '1'] {
        0x70
    } else if key == seq!['F', '2'] {
        0x71
    } else if key == seq!['F', '3'] {
        0x72
    } else if key == seq!['F', '4'] {
        0x73
    } else if key == seq!['F', '5'] {
        0x74
    } else if key == seq!['F', '6'] {
        0x75
    } else if key == seq!['F', '7'] {
        0x76
    } else if key == seq!['F', '8'] {
        0x77
    } else if key == seq!['F', '9'] {
        0x78
    } else if key == seq!['F', '1', '0'] {
        0x79
    } else if key == seq!['F', '1', '1'] {
        0x7A
    } else if key == seq!['F', '1', '2'] {
        0x7B
    } else if key.len() == 1 && (0x41 <= (key[0] as u32) <= 0x5A || 0x30 <= (key[0] as u32) <= 0x39) {
        key[0] as u32
    } else {
        DEFAULT_VIRTUAL_KEY
    }
}

fn is_word(key: &Vec<char>, word: &[char]) -> (res: bool)
    ensures
        res == (key@ == word@),
{
    if key.len() != word.len() {
        return false;
    }
    let n = key.len();
    let mut i: usize = 0;
    while i < n
        invariant
            n == key@.len(),
            n == word@.len(),
            i <= n,
            forall|j: int| 0 <= j < i ==> key@[j] == word@[j],
        decreases n - i,
    {
        if key[i] != word[i] {
            return false;
        }
        i = i + 1;
    }
    assert(key@ =~= word@);
    true
}

/// The virtual-key code of a key name that is already upper case (see
/// `virtual_key_of`). Never 0.
pub fn virtual_key_code(key: &Vec<char>) -> (vk: u32)
    ensures
        vk == virtual_key_of(key@),
        vk != 0,
{
    if is_word(key, &['S', 'P', 'A', 'C', 'E']) {
        0x20
    } else if is_word(key, &['I', 'N', 'S', 'E', 'R', 'T']) {
        0x2D
    } else if is_word(key, &['D', 'E', 'L', 'E', 'T', 'E']) {
        0x2E
    } else if is_word(key, &['H', 'O', 'M', 'E']) {
        0x24
    } else if is_word(key, &['E', 'N', 'D']) {
        0x23
    } else if is_word(key, &['P', 'A', 'G', 'E', 'U', 'P']) {
        0x21
    } else if is_word(key, &['P', 'A', 'G', 'E', 'D', 'O', 'W', 'N']) {
        0x22
    } else if is_word(key, &['F', '1']) {
        0x70
    } else if is_word(key, &['F', '2']) {
        0x71
    } else if is_word(key, &['F', '3']) {
        0x72
    } else if is_word(key, &['F', '4']) {
        0x73
    } else if is_word(key, &['F', '5']) {
        0x74
    } else if is_word(key, &['F', '6']) {
        0x75
    } else if is_word(key, &['F', '7']) {
        0x76
    } else if is_word(key, &['F', '8']) {
        0x77
    } else if is_word(key, &['F', '9']) {
        0x78
    } else if is_word(key, &['F', '1', '0']) {
        0x79
    } else if is_word(key, &['F', '1', '1']) {
        0x7A
    } else if is_word(key, &['F', '1', '2']) {
        0x7B
    } else if key.len() == 1 {
        let c = key[0] as u32;
        if (0x41 <= c && c <= 0x5A) || (0x30 <= c && c <= 0x39) {
            c
        } else {
            DEFAULT_VIRTUAL_KEY
        }
    } else {
        DEFAULT_VIRTUAL_KEY
    }
}

/// What `str::to_uppercase` makes of a text: its Unicode full upper-case
/// mapping, which depends on the text alone.
pub uninterp spec fn uppercase(s: Seq<char>) -> Seq<char>;

/// Calls `str::to_uppercase` and hands back the characters of the result.
/// The contract claims that the result is the fixed upper-case mapping of
/// the argument, and that on ASCII text it turns `a`-`z` into `A`-`Z` and
/// keeps every other character; Unicode's case tables for other characters
/// are not restated here.
#[verifier::external_body]
fn to_uppercase_chars(s: &str) -> (res: Vec<char>)
    ensures
        res@ == uppercase(s@),
        all_ascii(s@) ==> res@ == ascii_uppercase(s@),
{
    s.to_uppercase().chars().collect()
}

/// The virtual-key code of a configured key name, compared without regard to
/// case. Never 0, so the hotkey can always be registered.
pub fn parse_virtual_key(key_str: &str) -> (vk: u32)
    ensures
        vk == virtual_key_of(uppercase(key_str@)),
        all_ascii(key_str@) ==> vk == virtual_key_of(ascii_uppercase(key_str@)),
        vk != 0,
{
    let upper = to_uppercase_chars(key_str);
    virtual_key_code(&upper)
}

} // verus!
