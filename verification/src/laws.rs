//! Properties of the library as a whole, proved over the specifications
//! that the functions' own contracts use.

use vstd::prelude::*;
use crate::color::{color_value, hex_digit_value, hex_pair_value, pack_bgr, strip_hashes, NEAR_BLACK};
use crate::connection::{
    announced_length, body_limit, concat, event_fits, conn_step, feed, head_terminator, reads_fit, serves, state_matches, stream_head,
    ActionModel, ConnState, EventModel, HEAD_BUFFER_SIZE,
};
use crate::autostart::{registry_step_ok, RegistryStep, ERROR_FILE_NOT_FOUND};
use crate::geometry::{
    center_dot, half, rect_in_i32, mk_rect, bar_left, bar_top, bottom_arm, left_arm, outline_of, overlay_origin_of, paint_fills, part_fills, part_if,
    right_arm, top_arm, Fill, Rect, BACKGROUND_COLOR, OVERLAY_WINDOW_SIZE,
};
use crate::service::decimal_bytes;
use crate::text::{
    all_digits, digits_value, is_digit, parse_usize_spec,
    ascii_lower_char, ascii_lowercase, ascii_upper_char, ascii_uppercase, first_index, lemma_first_index_is,
};
use crate::request::{
    content_length_from, content_length_prefix, first_occurrence_from, occurs_at, second_field, first_occurrence, head_of, lemma_first_occurrence_extends, lemma_first_occurrence_occurs, utf8_lossy,
};
use crate::settings::{modifier_mask, uppercase, virtual_key_of, Settings};
use crate::window::{
    settings_after, window_actions, with_enabled, WindowAction, WindowEvent, MENU_EXIT, MENU_OPEN_SETTINGS,
    MENU_TOGGLE_AUTOSTART, MENU_TOGGLE_OVERLAY,
};

verus! {

/// The lower-case hex digit of a value below 16.
pub open spec fn hex_digit_char(n: int) -> u8 {
    if n < 10 {
        (0x30 + n) as u8
    } else {
        (0x61 + n - 10) as u8
    }
}

/// The text `#rrggbb` of three channels, in lower-case hex.
pub open spec fn color_text(r: u8, g: u8, b: u8) -> Seq<u8> {
    seq![
        0x23u8,
        hex_digit_char(r as int / 16),
        hex_digit_char(r as int % 16),
        hex_digit_char(g as int / 16),
        hex_digit_char(g as int % 16),
        hex_digit_char(b as int / 16),
        hex_digit_char(b as int % 16),
    ]
}

proof fn lemma_hex_pair_of_byte(v: u8)
    ensures
        hex_pair_value(hex_digit_char(v as int / 16), hex_digit_char(v as int % 16)) == Some(v),
{
    let hi = v / 16;
    let lo = v % 16;
    assert(hex_digit_value(hex_digit_char(hi as int)) == Some(hi as u8));
    assert(hex_digit_value(hex_digit_char(lo as int)) == Some(lo as u8));
    assert(hi * 16 + lo == v);
}

/// Colour text round trip: `#rrggbb` parses to the channels packed as
/// `0x00BBGGRR`, except that black becomes near black.
pub proof fn law_color_text_round_trip(r: u8, g: u8, b: u8)
    ensures
        color_value(color_text(r, g, b)) == (if r == 0 && g == 0 && b == 0 { NEAR_BLACK } else { pack_bgr(r, g, b) }),
{
    let t = color_text(r, g, b);
    assert(t[1] != 0x23);
    assert(strip_hashes(t.drop_first()) == t.drop_first());
    lemma_hex_pair_of_byte(r);
    lemma_hex_pair_of_byte(g);
    lemma_hex_pair_of_byte(b);
    let u = t.drop_first();
    assert(u[0] == hex_digit_char(r as int / 16) && u[1] == hex_digit_char(r as int % 16));
    assert(u[2] == hex_digit_char(g as int / 16) && u[3] == hex_digit_char(g as int % 16));
    assert(u[4] == hex_digit_char(b as int / 16) && u[5] == hex_digit_char(b as int % 16));
}

/// No colour text gives pure black, the window's transparency key, and
/// every colour fits in 24 bits.
pub proof fn law_color_never_transparent(s: Seq<u8>)
    ensures
        color_value(s) != 0,
        color_value(s) <= 0x00FF_FFFF,
{
}

/// Every key name gives a virtual-key code other than 0, so the hotkey is
/// always registered.
pub proof fn law_virtual_key_never_zero(key: Seq<char>)
    ensures
        virtual_key_of(key) != 0,
{
}

/// The modifier mask has exactly the bits of the modifier keys switched on:
/// bit 0 Alt, bit 1 Ctrl, bit 2 Shift, bit 3 Win.
pub proof fn law_modifier_bits(s: Settings)
    ensures
        modifier_mask(s) < 16,
        (modifier_mask(s) % 2 == 1) == s.hotkey_alt,
        (modifier_mask(s) / 2 % 2 == 1) == s.hotkey_ctrl,
        (modifier_mask(s) / 4 % 2 == 1) == s.hotkey_shift,
        (modifier_mask(s) / 8 % 2 == 1) == s.hotkey_win,
{
}

proof fn lemma_upper_of_lower(c: char)
    ensures
        ascii_upper_char(ascii_lower_char(c)) == ascii_upper_char(c),
{
    let u = c as u32;
    if 0x41 <= u <= 0x5A {
        let l = ascii_lower_char(c);
        assert((l as u32) == u + 0x20);
        assert((ascii_upper_char(l) as u32) == u);
    } else if 0x61 <= u <= 0x7A {
        assert(ascii_lower_char(c) == c);
    }
}

/// Key names are compared without regard to ASCII case: names that agree
/// but for the case of their ASCII letters give the same key.
pub proof fn law_key_names_ignore_ascii_case(a: Seq<char>, b: Seq<char>)
    requires
        ascii_lowercase(a) == ascii_lowercase(b),
    ensures
        ascii_uppercase(a) == ascii_uppercase(b),
        virtual_key_of(ascii_uppercase(a)) == virtual_key_of(ascii_uppercase(b)),
{
    assert(a.len() == ascii_lowercase(a).len() && b.len() == ascii_lowercase(b).len());
    assert forall|i: int| 0 <= i < a.len() implies ascii_uppercase(a)[i] == ascii_uppercase(b)[i] by {
        assert(ascii_lowercase(a)[i] == ascii_lowercase(b)[i]);
        assert(ascii_lowercase(a)[i] == ascii_lower_char(a[i]));
        assert(ascii_lowercase(b)[i] == ascii_lower_char(b[i]));
        assert(ascii_uppercase(a)[i] == ascii_upper_char(a[i]));
        assert(ascii_uppercase(b)[i] == ascii_upper_char(b[i]));
        lemma_upper_of_lower(a[i]);
        lemma_upper_of_lower(b[i]);
    }
    assert(ascii_uppercase(a) =~= ascii_uppercase(b));
}

/// `f10` names the F10 key, as `F10` does.
pub proof fn law_lower_case_function_key()
    ensures
        virtual_key_of(ascii_uppercase(seq!['f', '1', '0'])) == 0x79,
        virtual_key_of(ascii_uppercase(seq!['F', '1', '0'])) == 0x79,
{
    let l = seq!['f', '1', '0'];
    assert((ascii_upper_char('f') as u32) == 0x46);
    assert(ascii_upper_char('f') == 'F');
    assert(ascii_upper_char('1') == '1');
    assert(ascii_upper_char('0') == '0');
    assert(ascii_upper_char('F') == 'F');
    assert(ascii_uppercase(l) =~= seq!['F', '1', '0']);
    assert(ascii_uppercase(seq!['F', '1', '0']) =~= seq!['F', '1', '0']);
}

proof fn lemma_lower_is_colon(c: char)
    ensures
        (ascii_lower_char(c) == ':') == (c == ':'),
{
    let u = c as u32;
    if 0x41 <= u <= 0x5A {
        assert((ascii_lower_char(c) as u32) == u + 0x20);
    }
}

/// The `Content-Length` header name is compared without regard to ASCII
/// case: ASCII lines whose first 15 characters agree but for the case of
/// their letters, and that agree after them, set the same length.
pub proof fn law_length_header_ignores_ascii_case(a: Seq<char>, b: Seq<char>)
    requires
        a.len() >= 15,
        b.len() >= 15,
        ascii_lowercase(a.take(15)) == ascii_lowercase(b.take(15)),
        a.skip(15) == b.skip(15),
    ensures
        content_length_from(a, ascii_lowercase(a)) == content_length_from(b, ascii_lowercase(b)),
{
    assert(ascii_lowercase(a).take(15) =~= ascii_lowercase(a.take(15)));
    assert(ascii_lowercase(b).take(15) =~= ascii_lowercase(b.take(15)));
    let pre = content_length_prefix();
    if ascii_lowercase(a).take(15) == pre {
        assert forall|x: Seq<char>| #[trigger] ascii_lowercase(x.take(15)) == pre && x.len() >= 15 implies first_index(
            x,
            ':',
        ) == 14 by {
            assert forall|j: int| 0 <= j < 14 implies x[j] != ':' by {
                assert(ascii_lowercase(x.take(15))[j] == ascii_lower_char(x[j]));
                lemma_lower_is_colon(x[j]);
            }
            assert(ascii_lowercase(x.take(15))[14] == ascii_lower_char(x[14]));
            lemma_lower_is_colon(x[14]);
            lemma_first_index_is(x, ':', 14);
        }
        assert(first_index(a, ':') == 14);
        assert(first_index(b, ':') == 14);
        assert(second_field(a) == second_field(b));
    }
}

/// Pressing the hotkey twice gives back the settings it started from.
pub proof fn law_hotkey_twice_restores(s: Settings)
    ensures
        settings_after(settings_after(s, WindowEvent::Hotkey), WindowEvent::Hotkey) == s,
{
    assert(settings_after(settings_after(s, WindowEvent::Hotkey), WindowEvent::Hotkey) =~= s);
}

/// The hotkey, the menu's toggle and the settings page's toggle all do the
/// same to the settings: they flip `enabled` and nothing else.
pub proof fn law_toggles_agree(s: Settings)
    ensures
        settings_after(s, WindowEvent::Hotkey) == with_enabled(s, !s.enabled),
        settings_after(s, WindowEvent::MenuCommand(MENU_TOGGLE_OVERLAY)) == with_enabled(s, !s.enabled),
{
}

/// After the hotkey, the window is shown exactly when the overlay is now
/// enabled, and the new state is stored.
pub proof fn law_hotkey_shows_iff_enabled(s: Settings)
    ensures
        window_actions(s, WindowEvent::Hotkey) == seq![
            WindowAction::SaveSettings,
            WindowAction::Show(settings_after(s, WindowEvent::Hotkey).enabled),
            WindowAction::Invalidate,
        ],
{
}

/// Creating the window, and every change of settings, registers the
/// configured hotkey with a real key.
pub proof fn law_hotkey_registered(s: Settings, monitor: Rect)
    ensures
        window_actions(s, WindowEvent::Create)[1] matches WindowAction::RegisterHotkey { modifiers, key }
            && modifiers == modifier_mask(s) && key != 0,
        window_actions(s, WindowEvent::SettingsUpdated { monitor })[1] matches WindowAction::RegisterHotkey {
            modifiers,
            key,
        } && modifiers == modifier_mask(s) && key != 0,
{
}

proof fn lemma_part_colors(on: bool, r: Rect, outline: bool, c: u32)
    requires
        c != 0,
    ensures
        forall|i: int| 0 <= i < part_if(on, r, outline, c).len() ==> part_if(on, r, outline, c)[i].color != 0,
{
}

/// Everything painted after the background is visible: neither the
/// crosshair nor its outline is ever pure black.
pub proof fn law_crosshair_never_transparent(client: Rect, s: Settings)
    ensures
        paint_fills(client, s)[0] == (Fill { rect: client, color: BACKGROUND_COLOR }),
        forall|i: int| 1 <= i < paint_fills(client, s).len() ==> paint_fills(client, s)[i].color != BACKGROUND_COLOR,
{
    let f = paint_fills(client, s);
    if s.enabled {
        let c = color_value(vstd::utf8::encode_utf8(s.color@));
        let o = s.outline_enabled;
        let a = part_if(s.draw_left, left_arm(client, s), o, c);
        let b = part_if(s.draw_right, right_arm(client, s), o, c);
        let d = part_if(s.draw_top, top_arm(client, s), o, c);
        let e = part_if(s.draw_bottom, bottom_arm(client, s), o, c);
        let g = part_if(s.dot_enabled && s.dot_size > 0, crate::geometry::center_dot(client, s), o, c);
        lemma_part_colors(s.draw_left, left_arm(client, s), o, c);
        lemma_part_colors(s.draw_right, right_arm(client, s), o, c);
        lemma_part_colors(s.draw_top, top_arm(client, s), o, c);
        lemma_part_colors(s.draw_bottom, bottom_arm(client, s), o, c);
        lemma_part_colors(s.dot_enabled && s.dot_size > 0, crate::geometry::center_dot(client, s), o, c);
        let bg = seq![Fill { rect: client, color: BACKGROUND_COLOR }];
        assert forall|i: int| 1 <= i < f.len() implies f[i].color != BACKGROUND_COLOR by {
            let x1 = bg + a;
            let x2 = x1 + b;
            let x3 = x2 + d;
            let x4 = x3 + e;
            assert(f == x4 + g);
            if i >= x4.len() {
                assert(f[i] == g[i - x4.len()]);
            } else if i >= x3.len() {
                assert(f[i] == e[i - x3.len()]);
            } else if i >= x2.len() {
                assert(f[i] == d[i - x2.len()]);
            } else if i >= x1.len() {
                assert(f[i] == b[i - x1.len()]);
            } else {
                assert(f[i] == a[i - 1]);
            }
        }
    }
}

/// The crosshair's arms are `line_length` long and `line_width` thick, the
/// left and right arms stand at the same distance from the vertical bar,
/// the top and bottom arms at the same distance from the horizontal bar,
/// as the vertical bar is thick.
pub proof fn law_crosshair_shape(client: Rect, s: Settings)
    requires
        crate::geometry::rect_in_i32(client),
    ensures
        left_arm(client, s).right - left_arm(client, s).left == s.line_length,
        left_arm(client, s).bottom - left_arm(client, s).top == s.line_width,
        right_arm(client, s).right - right_arm(client, s).left == s.line_length,
        right_arm(client, s).bottom - right_arm(client, s).top == s.line_width,
        top_arm(client, s).bottom - top_arm(client, s).top == s.line_length,
        top_arm(client, s).right - top_arm(client, s).left == s.line_width,
        bottom_arm(client, s).bottom - bottom_arm(client, s).top == s.line_length,
        bottom_arm(client, s).right - bottom_arm(client, s).left == s.line_width,
        bar_left(client, s) - left_arm(client, s).right == right_arm(client, s).left - (bar_left(client, s)
            + s.line_width),
        bar_top(client, s) - top_arm(client, s).bottom == bottom_arm(client, s).top - (bar_top(client, s)
            + s.line_width),
        bar_left(client, s) - left_arm(client, s).right == s.gap - 1,
        bar_top(client, s) - top_arm(client, s).bottom == s.gap - 1,
        left_arm(client, s).top == bar_top(client, s) && right_arm(client, s).top == bar_top(client, s),
        left_arm(client, s).bottom == bar_top(client, s) + s.line_width,
        right_arm(client, s).bottom == bar_top(client, s) + s.line_width,
        top_arm(client, s).left == bar_left(client, s) && bottom_arm(client, s).left == bar_left(client, s),
        top_arm(client, s).right == bar_left(client, s) + s.line_width,
        bottom_arm(client, s).right == bar_left(client, s) + s.line_width,
        bar_left(client, s) == half(client.right - client.left) - half(s.line_width as int),
        bar_top(client, s) == half(client.bottom - client.top) - half(s.line_width as int),
        center_dot(client, s) == mk_rect(
            half(client.right - client.left) - half(s.dot_size as int),
            half(client.bottom - client.top) - half(s.dot_size as int),
            half(client.right - client.left) - half(s.dot_size as int) + s.dot_size,
            half(client.bottom - client.top) - half(s.dot_size as int) + s.dot_size,
        ),
{
}

/// The paint: the black background over the whole client area first; then,
/// only when the overlay is enabled, the left, right, top and bottom arms,
/// each exactly when its flag is set, then the centre dot exactly when it is
/// on and larger than 0, all in the configured colour, each directly
/// preceded by its near-black outline exactly when outlines are on. This
/// holds for every colour text; painting itself needs one that can be cut
/// into its fields (see `paint_plan`).
pub proof fn law_paint_sequence(client: Rect, s: Settings)
    ensures
        paint_fills(client, s)[0] == (Fill { rect: client, color: BACKGROUND_COLOR }),
        !s.enabled ==> paint_fills(client, s) == seq![Fill { rect: client, color: BACKGROUND_COLOR }],
        s.enabled ==> paint_fills(client, s) == seq![Fill { rect: client, color: BACKGROUND_COLOR }]
            + part_if(s.draw_left, left_arm(client, s), s.outline_enabled, color_value(vstd::utf8::encode_utf8(s.color@)))
            + part_if(s.draw_right, right_arm(client, s), s.outline_enabled, color_value(vstd::utf8::encode_utf8(s.color@)))
            + part_if(s.draw_top, top_arm(client, s), s.outline_enabled, color_value(vstd::utf8::encode_utf8(s.color@)))
            + part_if(s.draw_bottom, bottom_arm(client, s), s.outline_enabled, color_value(vstd::utf8::encode_utf8(s.color@)))
            + part_if(
                s.dot_enabled && s.dot_size > 0,
                center_dot(client, s),
                s.outline_enabled,
                color_value(vstd::utf8::encode_utf8(s.color@)),
            ),
        forall|on: bool, r: Rect, c: u32| #[trigger] part_if(on, r, true, c) == (if on {
            seq![Fill { rect: outline_of(r), color: NEAR_BLACK }, Fill { rect: r, color: c }]
        } else {
            Seq::empty()
        }),
        forall|on: bool, r: Rect, c: u32| #[trigger] part_if(on, r, false, c) == (if on {
            seq![Fill { rect: r, color: c }]
        } else {
            Seq::empty()
        }),
{
    if !s.enabled {
        assert(paint_fills(client, s) =~= seq![Fill { rect: client, color: BACKGROUND_COLOR }]);
    }
}

/// With outlines on, each part is painted over its near-black outline, the
/// part grown by one pixel on every side.
pub proof fn law_outline_surrounds_part(r: Rect, color: u32)
    requires
        crate::geometry::rect_in_i64_margin(r),
    ensures
        part_fills(r, true, color) == seq![Fill { rect: outline_of(r), color: NEAR_BLACK }, Fill { rect: r, color }],
        outline_of(r).left == r.left - 1 && outline_of(r).top == r.top - 1,
        outline_of(r).right == r.right + 1 && outline_of(r).bottom == r.bottom + 1,
{
}

/// Toggling from the settings page twice gives back the settings it started
/// from.
pub proof fn law_page_toggle_twice_restores(s: Settings)
    ensures
        with_enabled(with_enabled(s, !s.enabled), !with_enabled(s, !s.enabled).enabled) == s,
{
    assert(with_enabled(with_enabled(s, !s.enabled), !with_enabled(s, !s.enabled).enabled) =~= s);
}

/// The overlay window is centred on its monitor, moved by the offset: where
/// the spare width and height are even, its centre is the monitor's centre
/// plus the offset.
pub proof fn law_window_centred(monitor: Rect, offset_x: int, offset_y: int)
    requires
        monitor.right - monitor.left >= OVERLAY_WINDOW_SIZE,
        monitor.bottom - monitor.top >= OVERLAY_WINDOW_SIZE,
        (monitor.right - monitor.left - OVERLAY_WINDOW_SIZE) % 2 == 0,
        (monitor.bottom - monitor.top - OVERLAY_WINDOW_SIZE) % 2 == 0,
    ensures
        2 * overlay_origin_of(monitor, offset_x, offset_y).0 + OVERLAY_WINDOW_SIZE == monitor.left
            + monitor.right + 2 * offset_x,
        2 * overlay_origin_of(monitor, offset_x, offset_y).1 + OVERLAY_WINDOW_SIZE == monitor.top
            + monitor.bottom + 2 * offset_y,
{
}

/// A whole request that arrives in one read is served: the head before the
/// first blank line names the route, and everything after it is the body,
/// once the body is as long as the head announces.
pub proof fn law_complete_request_is_served(bytes: Seq<u8>, p: int)
    requires
        first_occurrence(bytes, head_terminator()) == Some(p),
        bytes.skip(p + 4).len() >= head_of(utf8_lossy(bytes.take(p))).content_length,
        head_of(utf8_lossy(bytes.take(p))).route is Some,
    ensures
        conn_step(ConnState::ReadingHead { received: Seq::empty() }, EventModel::Data(bytes)) == (
            ConnState::Done,
            ActionModel::Dispatch(head_of(utf8_lossy(bytes.take(p))).route.unwrap(), bytes.skip(p + 4)),
        ),
{
    assert(Seq::<u8>::empty() + bytes =~= bytes);
}

/// A request split over two reads is served just as when it arrives whole.
pub proof fn law_split_body_is_joined(received: Seq<u8>, more: Seq<u8>, p: int)
    requires
        first_occurrence(received, head_terminator()) == Some(p),
        received.skip(p + 4).len() < head_of(utf8_lossy(received.take(p))).content_length,
        received.skip(p + 4).len() + more.len() >= head_of(utf8_lossy(received.take(p))).content_length,
        head_of(utf8_lossy(received.take(p))).route is Some,
    ensures
        ({
            let first = conn_step(ConnState::ReadingHead { received: Seq::empty() }, EventModel::Data(received));
            conn_step(first.0, EventModel::Data(more)) == (
                ConnState::Done,
                ActionModel::Dispatch(
                    head_of(utf8_lossy(received.take(p))).route.unwrap(),
                    received.skip(p + 4) + more,
                ),
            )
        }),
{
    assert(Seq::<u8>::empty() + received =~= received);
}

/// A connection fed any split of a stream into reads, each of at least one
/// byte and no more than asked for: the head is read into a buffer of 8192
/// bytes at most; once the first blank line has come, its head announces the
/// body and every byte after the blank line belongs to it; a request is
/// served at most once, with the route that the head names and every byte
/// after the blank line (at least as many as announced, and no more than the
/// larger of the announced length and the bytes that came with the head),
/// and after that the connection only closes.
pub proof fn law_stream_of_reads(reads: Seq<Seq<u8>>)
    requires
        reads_fit(reads),
    ensures
        feed(reads).1.len() == reads.len() + 1,
        feed(reads).1[0] == ActionModel::Read(HEAD_BUFFER_SIZE as nat),
        state_matches(feed(reads).0, concat(reads)),
        !(feed(reads).0 is Done) ==> forall|i: int| 0 <= i < feed(reads).1.len() ==> #[trigger] feed(reads).1[i] is Read,
        forall|i: int, j: int|
            #![trigger feed(reads).1[i], feed(reads).1[j]]
            0 <= i < j < feed(reads).1.len() && !(feed(reads).1[i] is Read) ==> feed(reads).1[j] is Close,
        forall|i: int|
            1 <= i < feed(reads).1.len() ==> (#[trigger] feed(reads).1[i] matches ActionModel::Dispatch(r, b) ==> serves(
                concat(reads.take(i)),
                r,
                b,
            ) && b.len() >= announced_length(concat(reads.take(i)))),
        forall|i: int|
            1 <= i < feed(reads).1.len() ==> (#[trigger] feed(reads).1[i] matches ActionModel::Dispatch(r, b) ==> b.len()
                <= body_limit(reads.take(i))),
    decreases reads.len(),
{
    if reads.len() == 0 {
        assert(concat(reads) =~= Seq::<u8>::empty());
        assert(first_occurrence(Seq::<u8>::empty(), head_terminator()) is None);
    } else {
        let prev = reads.drop_last();
        let d = reads.last();
        law_stream_of_reads(prev);
        let all = concat(prev);
        let all2 = concat(reads);
        assert(all2 == all + d);
        let (s0, acts0) = feed(prev);
        let next = conn_step(s0, EventModel::Data(d));
        let acts = feed(reads).1;
        assert(acts == acts0.push(next.1));
        assert(feed(reads).0 == next.0);
        let n = reads.len() as int;
        assert forall|i: int| 0 <= i < n implies #[trigger] reads.take(i) =~= prev.take(i) by {}
        assert(reads.take(n) =~= reads);
        match s0 {
            ConnState::ReadingHead { received } => {
                assert(received + d == all2);
                lemma_first_occurrence_occurs(all2, head_terminator());
            },
            ConnState::ReadingBody { head, body } => {
                lemma_first_occurrence_extends(all, d, head_terminator());
                lemma_first_occurrence_occurs(all, head_terminator());
                let p = first_occurrence(all, head_terminator())->0;
                assert(stream_head(all) == Some((p, head_of(utf8_lossy(all.take(p))))));
                assert(body == all.skip(p + 4));
                assert(p + 4 <= all.len());
                assert(all2.take(p) =~= all.take(p));
                assert(body + d =~= all2.skip(p + 4));
            },
            ConnState::Done => {},
        }
        assert forall|i: int|
            1 <= i < acts.len() implies (#[trigger] acts[i] matches ActionModel::Dispatch(r, b) ==> serves(
                concat(reads.take(i)),
                r,
                b,
            ) && b.len() >= announced_length(concat(reads.take(i)))) by {
            if i < n {
                assert(acts[i] == acts0[i]);
            }
        }
        assert forall|i: int|
            1 <= i < acts.len() implies (#[trigger] acts[i] matches ActionModel::Dispatch(r, b) ==> b.len()
                <= body_limit(reads.take(i))) by {
            if i < n {
                assert(acts[i] == acts0[i]);
            } else {
                assert(reads.take(i).drop_last() =~= prev);
            }
        }
        assert forall|i: int, j: int|
            #![trigger acts[i], acts[j]]
            0 <= i < j < acts.len() && !(acts[i] is Read) implies acts[j] is Close by {
            if j < n {
                assert(acts[i] == acts0[i] && acts[j] == acts0[j]);
            } else {
                assert(acts[i] == acts0[i]);
            }
        }
    }
}

/// When the stream ends or a read fails, the connection is done: it serves
/// the request whose head came, with every byte after the blank line (fewer
/// than announced), and closes without serving when no blank line came.
pub proof fn law_stream_end(reads: Seq<Seq<u8>>, e: EventModel)
    requires
        reads_fit(reads),
        !(e is Data),
    ensures
        conn_step(feed(reads).0, e).0 is Done,
        conn_step(feed(reads).0, e).1 matches ActionModel::Dispatch(r, b) ==> serves(concat(reads), r, b) && b.len()
            < announced_length(concat(reads)),
        first_occurrence(concat(reads), head_terminator()) is None ==> conn_step(feed(reads).0, e).1 is Close,
        !(conn_step(feed(reads).0, e).1 is Read),
{
    law_stream_of_reads(reads);
}

/// Turning autostart off succeeds whether or not the entry is still there:
/// a delete that removes it and one that finds it already gone both count
/// as success, so switching it off twice succeeds both times.
pub proof fn law_autostart_off_twice()
    ensures
        registry_step_ok(RegistryStep::DeleteValue, 0),
        registry_step_ok(RegistryStep::DeleteValue, ERROR_FILE_NOT_FOUND),
{
}

/// A byte with ASCII upper case turned to lower case.
pub open spec fn ascii_lower_byte(b: u8) -> u8 {
    if 0x41 <= b <= 0x5a {
        (b + 0x20) as u8
    } else {
        b
    }
}

/// The bytes with ASCII upper case turned to lower case.
pub open spec fn ascii_lower_bytes(s: Seq<u8>) -> Seq<u8> {
    s.map_values(|b: u8| ascii_lower_byte(b))
}

/// An upper-case hex digit `A`-`F` has the value of its lower-case form,
/// ten to fifteen.
pub proof fn law_upper_hex_digits(c: u8)
    requires
        0x41 <= c <= 0x46,
    ensures
        hex_digit_value(c) == hex_digit_value((c + 0x20) as u8),
        hex_digit_value(c) == Some((c - 0x41 + 10) as u8),
{
}

proof fn lemma_strip_hashes_lower(s: Seq<u8>)
    ensures
        strip_hashes(ascii_lower_bytes(s)) == ascii_lower_bytes(strip_hashes(s)),
    decreases s.len(),
{
    if s.len() > 0 && s[0] == 0x23 {
        assert(ascii_lower_bytes(s).drop_first() =~= ascii_lower_bytes(s.drop_first()));
        lemma_strip_hashes_lower(s.drop_first());
    }
}

/// The colour does not depend on the ASCII case of its text: `#DDDDDD` is
/// the same colour as `#dddddd`.
pub proof fn law_color_ignores_ascii_case(s: Seq<u8>)
    ensures
        color_value(ascii_lower_bytes(s)) == color_value(s),
{
    lemma_strip_hashes_lower(s);
    assert forall|b: u8| #[trigger] hex_digit_value(ascii_lower_byte(b)) == hex_digit_value(b) by {}
    let t = strip_hashes(s);
    if t.len() == 6 {
        let u = ascii_lower_bytes(t);
        assert(hex_pair_value(u[0], u[1]) == hex_pair_value(t[0], t[1]));
        assert(hex_pair_value(u[2], u[3]) == hex_pair_value(t[2], t[3]));
        assert(hex_pair_value(u[4], u[5]) == hex_pair_value(t[4], t[5]));
    }
}

/// On a settings update the hotkey is registered again from the settings,
/// and the window moves to the monitor's centre (its 200-pixel square
/// centred, rounding towards the top-left) shifted by the configured
/// offsets, one pixel for one pixel.
pub proof fn law_update_moves_window(s: Settings, monitor: Rect)
    requires
        rect_in_i32(monitor),
    ensures
        window_actions(s, WindowEvent::SettingsUpdated { monitor }).len() == 5,
        window_actions(s, WindowEvent::SettingsUpdated { monitor })[2] matches WindowAction::MoveWindow { x, y }
            && x == monitor.left + half(monitor.right - monitor.left - 200) + s.offset_x
            && y == monitor.top + half(monitor.bottom - monitor.top - 200) + s.offset_y,
        window_actions(s, WindowEvent::SettingsUpdated { monitor })[3] == WindowAction::Show(s.enabled),
{
}

/// The tray menu's check marks show the settings: the overlay mark is on
/// exactly when the overlay is enabled, the autostart mark exactly when
/// autostart is on.
pub proof fn law_tray_menu_marks(s: Settings)
    ensures
        window_actions(s, WindowEvent::TrayRightClick) == seq![
            WindowAction::ShowTrayMenu { overlay_checked: s.enabled, autostart_checked: s.autostart },
        ],
{
}

/// When the window is created it registers the hotkey that the settings
/// configure: their modifier keys and the key named by `hotkey_key`, the
/// same registration that a settings update makes; then it adds the tray
/// icon.
pub proof fn law_create_registers_configured_hotkey(s: Settings, monitor: Rect)
    ensures
        window_actions(s, WindowEvent::Create) == seq![
            WindowAction::UnregisterHotkey,
            WindowAction::RegisterHotkey {
                modifiers: modifier_mask(s),
                key: virtual_key_of(uppercase(s.hotkey_key@)),
            },
            WindowAction::AddTrayIcon,
        ],
        window_actions(s, WindowEvent::Create)[1] == window_actions(s, WindowEvent::SettingsUpdated { monitor })[1],
{
}

/// The blank line that ends a head: CR LF CR LF.
pub open spec fn blank_line() -> Seq<u8> {
    seq![13u8, 10u8, 13u8, 10u8]
}

proof fn lemma_no_occurrence(h: Seq<u8>)
    requires
        forall|i: int| !occurs_at(h, blank_line(), i),
    ensures
        first_occurrence(h, head_terminator()) is None,
{
    assert(head_terminator() == blank_line());
    lemma_first_occurrence_occurs(h, head_terminator());
}

proof fn lemma_occurrence_from(h: Seq<u8>, i: int, p: int)
    requires
        0 <= i <= p,
        occurs_at(h, blank_line(), p),
        forall|q: int| 0 <= q < p ==> !occurs_at(h, blank_line(), q),
    ensures
        first_occurrence_from(h, head_terminator(), i) == p,
    decreases p - i,
{
    assert(head_terminator() == blank_line());
    if i < p {
        lemma_occurrence_from(h, i + 1, p);
    }
}

proof fn lemma_occurs_in_prefix(a: Seq<u8>, d: Seq<u8>, i: int)
    requires
        occurs_at(a, blank_line(), i),
    ensures
        occurs_at(a + d, blank_line(), i),
{
    assert((a + d).subrange(i, i + 4) =~= a.subrange(i, i + 4));
}

/// While the bytes received hold no blank line and are fewer than 8192, the
/// connection keeps reading the head, however the bytes are split into
/// non-empty reads: it holds every byte received, and each time asks for as
/// many more as the 8192-byte head buffer still has room for.
pub proof fn law_head_keeps_reading(reads: Seq<Seq<u8>>)
    requires
        forall|k: int| 0 <= k < reads.len() ==> #[trigger] reads[k].len() > 0,
        concat(reads).len() < 8192,
        forall|i: int| !occurs_at(concat(reads), blank_line(), i),
    ensures
        HEAD_BUFFER_SIZE == 8192,
        reads_fit(reads),
        feed(reads).0 == (ConnState::ReadingHead { received: concat(reads) }),
        feed(reads).1.len() == reads.len() + 1,
        forall|k: int|
            0 <= k <= reads.len() ==> #[trigger] feed(reads).1[k] == ActionModel::Read(
                (8192 - concat(reads.take(k)).len()) as nat,
            ),
    decreases reads.len(),
{
    if reads.len() == 0 {
        assert(reads.take(0) =~= reads);
    } else {
        let prev = reads.drop_last();
        let d = reads.last();
        assert(concat(reads) == concat(prev) + d);
        assert forall|i: int| !occurs_at(concat(prev), blank_line(), i) by {
            if occurs_at(concat(prev), blank_line(), i) {
                lemma_occurs_in_prefix(concat(prev), d, i);
            }
        }
        assert forall|k: int| 0 <= k < prev.len() implies #[trigger] prev[k].len() > 0 by {
            assert(prev[k] == reads[k]);
        }
        law_head_keeps_reading(prev);
        lemma_no_occurrence(concat(reads));
        let n = reads.len() as int;
        assert forall|k: int| 0 <= k < n implies #[trigger] reads.take(k) =~= prev.take(k) by {}
        assert(reads.take(n) =~= reads);
        assert forall|k: int|
            0 <= k <= reads.len() implies #[trigger] feed(reads).1[k] == ActionModel::Read(
                (8192 - concat(reads.take(k)).len()) as nat,
            ) by {
            if k < n {
                assert(feed(reads).1[k] == feed(prev).1[k]);
            }
        }
    }
}

/// A stream whose first blank line ends within the 8192-byte head buffer,
/// whose request line names a route, and whose announced body has come in
/// full, is served once its last read arrives, with that route and every
/// byte after the blank line, and the connection is then done.
pub proof fn law_complete_request_served(reads: Seq<Seq<u8>>, p: int)
    requires
        reads_fit(reads),
        occurs_at(concat(reads), blank_line(), p),
        forall|q: int| 0 <= q < p ==> !occurs_at(concat(reads), blank_line(), q),
        p + 4 <= 8192,
        head_of(utf8_lossy(concat(reads).take(p))).route is Some,
        concat(reads).len() - (p + 4) >= head_of(utf8_lossy(concat(reads).take(p))).content_length,
    ensures
        feed(reads).0 == ConnState::Done,
        feed(reads).1.last() == ActionModel::Dispatch(
            head_of(utf8_lossy(concat(reads).take(p))).route.unwrap(),
            concat(reads).skip(p + 4),
        ),
{
    let all = concat(reads);
    lemma_occurrence_from(all, 0, p);
    assert(first_occurrence(all, head_terminator()) == Some(p));
    assert(reads.len() > 0);
    let prev = reads.drop_last();
    let d = reads.last();
    law_stream_of_reads(prev);
    let s0 = feed(prev).0;
    assert(all == concat(prev) + d);
    assert(event_fits(s0, EventModel::Data(d)));
    match s0 {
        ConnState::ReadingHead { received } => {},
        ConnState::ReadingBody { head, body } => {
            lemma_first_occurrence_extends(concat(prev), d, head_terminator());
            lemma_first_occurrence_occurs(concat(prev), head_terminator());
            assert(all.take(p) =~= concat(prev).take(p));
            assert(body + d =~= all.skip(p + 4));
        },
        ConnState::Done => {},
    }
}

/// While a request's body is still short of its announced length, the
/// connection keeps reading the body and asks for exactly the bytes still
/// missing, however the stream was split into reads.
pub proof fn law_body_asks_for_rest(reads: Seq<Seq<u8>>, p: int)
    requires
        reads_fit(reads),
        occurs_at(concat(reads), blank_line(), p),
        forall|q: int| 0 <= q < p ==> !occurs_at(concat(reads), blank_line(), q),
        p + 4 <= 8192,
        concat(reads).len() - (p + 4) < head_of(utf8_lossy(concat(reads).take(p))).content_length,
    ensures
        feed(reads).0 == (ConnState::ReadingBody {
            head: head_of(utf8_lossy(concat(reads).take(p))),
            body: concat(reads).skip(p + 4),
        }),
        feed(reads).1.last() == ActionModel::Read(
            (head_of(utf8_lossy(concat(reads).take(p))).content_length - (concat(reads).len() - (p + 4))) as nat,
        ),
{
    let all = concat(reads);
    lemma_occurrence_from(all, 0, p);
    assert(first_occurrence(all, head_terminator()) == Some(p));
    assert(reads.len() > 0);
    let prev = reads.drop_last();
    let d = reads.last();
    law_stream_of_reads(prev);
    let s0 = feed(prev).0;
    assert(all == concat(prev) + d);
    assert(event_fits(s0, EventModel::Data(d)));
    match s0 {
        ConnState::ReadingHead { received } => {},
        ConnState::ReadingBody { head, body } => {
            lemma_first_occurrence_extends(concat(prev), d, head_terminator());
            lemma_first_occurrence_occurs(concat(prev), head_terminator());
            assert(all.take(p) =~= concat(prev).take(p));
            assert(body + d =~= all.skip(p + 4));
        },
        ConnState::Done => {},
    }
}

/// Key codes: a single letter `A`-`Z` or digit `0`-`9` is its own character
/// code, and the function key F`n` (1 to 12) has code 0x6F + `n`.
pub proof fn law_key_codes(c: char, n: int)
    ensures
        (0x41 <= c as u32 <= 0x5A || 0x30 <= c as u32 <= 0x39) ==> virtual_key_of(seq![c]) == c as u32,
        1 <= n <= 9 ==> virtual_key_of(seq!['F', (0x30 + n) as char]) == 0x6F + n,
        10 <= n <= 12 ==> virtual_key_of(seq!['F', '1', (0x30 + n - 10) as char]) == 0x6F + n,
{
    let one = seq![c];
    assert(one.len() == 1 && one[0] == c);
    assert(one != seq!['F', '1'] && one != seq!['E', 'N', 'D'] && one != seq!['H', 'O', 'M', 'E']);
    if 1 <= n <= 9 {
        let k = seq!['F', (0x30 + n) as char];
        assert(k.len() == 2);
        if n == 1 { assert(k =~= seq!['F', '1']); }
        if n == 2 { assert(k =~= seq!['F', '2']); }
        if n == 3 { assert(k =~= seq!['F', '3']); }
        if n == 4 { assert(k =~= seq!['F', '4']); }
        if n == 5 { assert(k =~= seq!['F', '5']); }
        if n == 6 { assert(k =~= seq!['F', '6']); }
        if n == 7 { assert(k =~= seq!['F', '7']); }
        if n == 8 { assert(k =~= seq!['F', '8']); }
        if n == 9 { assert(k =~= seq!['F', '9']); }
    }
    if 10 <= n <= 12 {
        let k = seq!['F', '1', (0x30 + n - 10) as char];
        if n == 10 { assert(k =~= seq!['F', '1', '0']); }
        if n == 11 { assert(k =~= seq!['F', '1', '1']); }
        if n == 12 { assert(k =~= seq!['F', '1', '2']); }
    }
}

/// The tray menu's commands: "settings" opens the settings page; "overlay"
/// flips the overlay, stores it and shows or hides the window to match;
/// "autostart" flips the autostart setting, stores it and applies the new
/// value; "exit" destroys the window, and its destruction removes the tray
/// icon and ends the message loop.
pub proof fn law_menu_commands(s: Settings)
    ensures
        window_actions(s, WindowEvent::MenuCommand(MENU_OPEN_SETTINGS)) == seq![WindowAction::OpenSettingsPage],
        settings_after(s, WindowEvent::MenuCommand(MENU_TOGGLE_OVERLAY)).enabled == !s.enabled,
        window_actions(s, WindowEvent::MenuCommand(MENU_TOGGLE_OVERLAY)) == seq![
            WindowAction::SaveSettings,
            WindowAction::Show(!s.enabled),
            WindowAction::Invalidate,
        ],
        settings_after(s, WindowEvent::MenuCommand(MENU_TOGGLE_AUTOSTART)) == (Settings {
            autostart: !s.autostart,
            ..s
        }),
        window_actions(s, WindowEvent::MenuCommand(MENU_TOGGLE_AUTOSTART)) == seq![
            WindowAction::SaveSettings,
            WindowAction::SetAutostart(!s.autostart),
        ],
        window_actions(s, WindowEvent::MenuCommand(MENU_EXIT)) == seq![WindowAction::DestroyWindow],
        window_actions(s, WindowEvent::MenuCommand(0)) == Seq::<WindowAction>::empty(),
        settings_after(s, WindowEvent::MenuCommand(0)) == s,
        window_actions(s, WindowEvent::Destroy) == seq![WindowAction::RemoveTrayIcon, WindowAction::PostQuit],
        window_actions(s, WindowEvent::VisibilityToggled) == seq![WindowAction::Show(s.enabled), WindowAction::Invalidate],
{
}

/// The characters of a byte string, one for each byte.
pub open spec fn byte_chars(s: Seq<u8>) -> Seq<char> {
    s.map_values(|b: u8| b as char)
}

proof fn lemma_decimal_digits(n: nat)
    ensures
        decimal_bytes(n).len() > 0,
        all_digits(byte_chars(decimal_bytes(n))),
        digits_value(byte_chars(decimal_bytes(n))) == n,
    decreases n,
{
    let c = byte_chars(decimal_bytes(n));
    if n < 10 {
        assert(c.drop_last() =~= Seq::<char>::empty());
        assert(c.last() as u32 == 0x30 + n);
        assert(digits_value(c) == digits_value(c.drop_last()) * 10 + ((c.last() as u32) - 0x30));
    } else {
        lemma_decimal_digits(n / 10);
        let prefix = byte_chars(decimal_bytes(n / 10));
        assert(c.drop_last() =~= prefix);
        assert(c.last() == ((0x30 + n % 10) as u8) as char);
        assert(c.last() as u32 == 0x30 + n % 10);
        assert((n / 10) * 10 + n % 10 == n) by (nonlinear_arith);
        assert(digits_value(c) == digits_value(c.drop_last()) * 10 + ((c.last() as u32) - 0x30));
        assert forall|i: int| 0 <= i < c.len() implies is_digit(#[trigger] c[i]) by {
            if i < c.len() - 1 {
                assert(c[i] == prefix[i]);
            }
        }
    }
}

/// The decimal numbers that responses write (status codes and
/// `Content-Length` values) read back as the same number with the parser
/// that reads a request's `Content-Length`.
pub proof fn law_decimal_reads_back(n: usize)
    ensures
        parse_usize_spec(byte_chars(decimal_bytes(n as nat))) == Some(n),
{
    lemma_decimal_digits(n as nat);
    let c = byte_chars(decimal_bytes(n as nat));
    assert(is_digit(c[0]));
    assert(c[0] != '+');
}

} // verus!
