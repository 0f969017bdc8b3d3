use vstd::prelude::*;
use vstd::string::StringSliceAdditionalSpecFns;
use vstd::utf8::is_continuation_byte;

verus! {

/// The colour used when the setting is not six hex digits long: cyan, in
/// GDI's `0x00BBGGRR` layout.
pub const DEFAULT_COLOR: u32 = 0x00FF_FF00;

/// The colour used in place of pure black, which the overlay window uses as
/// its transparency key.
pub const NEAR_BLACK: u32 = 0x0001_0101;

/// Value of one ASCII hex digit (`0-9`, `a-f`, `A-F`).
pub open spec fn hex_digit_value(b: u8) -> Option<u8> {
    if 0x30 <= b <= 0x39 {
        Some((b - 0x30) as u8)
    } else if 0x61 <= b <= 0x66 {
        Some((b - 0x61 + 10) as u8)
    } else if 0x41 <= b <= 0x46 {
        Some((b - 0x41 + 10) as u8)
    } else {
        None
    }
}

/// The byte that a two-character radix-16 field denotes: two hex digits, or
/// a `+` sign followed by one hex digit.
pub open spec fn hex_pair_value(a: u8, b: u8) -> Option<u8> {
    if a == 0x2b {
        hex_digit_value(b)
    } else {
        match (hex_digit_value(a), hex_digit_value(b)) {
            (Some(x), Some(y)) => Some((x * 16 + y) as u8),
            _ => None,
        }
    }
}

/// The bytes left after removing every leading `#`.
pub open spec fn strip_hashes(s: Seq<u8>) -> Seq<u8>
    decreases s.len(),
{
    if s.len() > 0 && s[0] == 0x23 {
        strip_hashes(s.drop_first())
    } else {
        s
    }
}

/// Where the colour text has six bytes after its `#`s, the byte offsets 2
/// and 4 of those six start a character, so that the text can be cut there.
pub open spec fn color_fields_splittable(s: Seq<u8>) -> bool {
    let t = strip_hashes(s);
    t.len() == 6 ==> !is_continuation_byte(t[2]) && !is_continuation_byte(t[4])
}

/// Packs three channels into GDI's `0x00BBGGRR` layout.
pub open spec fn pack_bgr(r: u8, g: u8, b: u8) -> u32 {
    (r + g * 0x100 + b * 0x10000) as u32
}

/// The GDI colour that the colour text with UTF-8 bytes `s` denotes: six hex
/// digits `rrggbb` after any number of `#`s; a field that does not parse
/// gives 0 for red and 255 for green and blue; pure black becomes near
/// black; text of another length gives cyan.
pub open spec fn color_value(s: Seq<u8>) -> u32 {
    let t = strip_hashes(s);
    if t.len() != 6 {
        DEFAULT_COLOR
    } else {
        let r = match hex_pair_value(t[0], t[1]) { Some(v) => v, None => 0u8 };
        let g = match hex_pair_value(t[2], t[3]) { Some(v) => v, None => 255u8 };
        let b = match hex_pair_value(t[4], t[5]) { Some(v) => v, None => 255u8 };
        if r == 0 && g == 0 && b == 0 {
            NEAR_BLACK
        } else {
            pack_bgr(r, g, b)
        }
    }
}

fn hex_digit(b: u8) -> (res: Option<u8>)
    ensures
        res == hex_digit_value(b),
        res matches Some(v) ==> v < 16,
{
    if 0x30 <= b && b <= 0x39 {
        Some(b - 0x30)
    } else if 0x61 <= b && b <= 0x66 {
        Some(b - 0x61 + 10)
    } else if 0x41 <= b && b <= 0x46 {
        Some(b - 0x41 + 10)
    } else {
        None
    }
}

fn hex_pair(a: u8, b: u8) -> (res: Option<u8>)
    ensures
        res == hex_pair_value(a, b),
{
    if a == 0x2b {
        hex_digit(b)
    } else {
        match (hex_digit(a), hex_digit(b)) {
            (Some(x), Some(y)) => Some(x * 16 + y),
            _ => None,
        }
    }
}

proof fn lemma_strip_hashes_step(s: Seq<u8>, i: int)
    requires
        0 <= i < s.len(),
        s[i] == 0x23,
    ensures
        strip_hashes(s.skip(i)) == strip_hashes(s.skip(i + 1)),
{
    assert(s.skip(i).drop_first() =~= s.skip(i + 1));
}

/// Whether `parse_hex_color` accepts the text: where six bytes follow the
/// leading `#`s, bytes 2 and 4 of them must each start a character.
pub fn color_text_splittable(hex: &str) -> (ok: bool)
    ensures
        ok == color_fields_splittable(hex.spec_bytes()),
{
    let bytes = hex.as_bytes();
    let n = bytes.len();
    let mut i: usize = 0;
    assert(bytes@.skip(0) =~= bytes@);
    while i < n && bytes[i] == 0x23
        invariant
            n == bytes@.len(),
            i <= n,
            strip_hashes(bytes@) == strip_hashes(bytes@.skip(i as int)),
        decreases n - i,
    {
        proof { lemma_strip_hashes_step(bytes@, i as int); }
        i = i + 1;
    }
    let ghost t = bytes@.skip(i as int);
    assert(strip_hashes(t) == t);
    if n - i != 6 {
        return true;
    }
    assert(t[2] == bytes@[i + 2] && t[4] == bytes@[i + 4]);
    !(0x80 <= bytes[i + 2] && bytes[i + 2] <= 0xbf) && !(0x80 <= bytes[i + 4] && bytes[i + 4] <= 0xbf)
}

/// Parses a colour such as `#00ffff` into GDI's `0x00BBGGRR` layout.
///
/// The result is never 0 (pure black is the window's transparency key) and
/// always fits in 24 bits.
pub fn parse_hex_color(hex: &str) -> (res: u32)
    requires
        color_fields_splittable(hex.spec_bytes()),
    ensures
        res == color_value(hex.spec_bytes()),
        res != 0,
        res <= 0x00FF_FFFF,
{
    let bytes = hex.as_bytes();
    let n = bytes.len();
    let mut i: usize = 0;
    assert(bytes@.skip(0) =~= bytes@);
    while i < n && bytes[i] == 0x23
        invariant
            n == bytes@.len(),
            i <= n,
            strip_hashes(bytes@) == strip_hashes(bytes@.skip(i as int)),
        decreases n - i,
    {
        proof { lemma_strip_hashes_step(bytes@, i as int); }
        i = i + 1;
    }
    let ghost t = bytes@.skip(i as int);
    assert(strip_hashes(t) == t);
    if n - i != 6 {
        return DEFAULT_COLOR;
    }
    let r = match hex_pair(bytes[i], bytes[i + 1]) { Some(v) => v, None => 0u8 };
    let g = match hex_pair(bytes[i + 2], bytes[i + 3]) { Some(v) => v, None => 255u8 };
    let b = match hex_pair(bytes[i + 4], bytes[i + 5]) { Some(v) => v, None => 255u8 };
    assert(t[0] == bytes@[i as int] && t[1] == bytes@[i + 1] && t[2] == bytes@[i + 2]);
    assert(t[3] == bytes@[i + 3] && t[4] == bytes@[i + 4] && t[5] == bytes@[i + 5]);
    if r == 0 && g == 0 && b == 0 {
        NEAR_BLACK
    } else {
        (r as u32) + (g as u32) * 0x100 + (b as u32) * 0x10000
    }
}

} // verus!
