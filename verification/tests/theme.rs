use kas_verified::theme::anim::{AnimState, Fade, TextCursor, TIMEOUT};
use kas_verified::theme::colors::{Colors, InputState, Rgba8Srgb};
use kas_verified::theme::config::{cursor_blink_rate_ms, scale_steps, subpixel_steps, subpixel_threshold, RasterConfig};
use kas_verified::theme::dst::MaybeBoxed;

#[test]
fn config_defaults() {
    assert_eq!(cursor_blink_rate_ms(), 600);
    assert_eq!(scale_steps(), 4);
    assert_eq!(subpixel_threshold(), 0);
    assert_eq!(subpixel_steps(), 5);
    let c = RasterConfig::default();
    assert_eq!(c, RasterConfig { mode: 0, scale_steps: 4, subpixel_threshold: 0, subpixel_steps: 5 });
}

#[test]
fn colour_schemes() {
    let l = Colors::light();
    assert!(!l.is_dark);
    assert_eq!(l.accent, Rgba8Srgb([0x7E, 0x3F, 0xF2, 0xFF]));
    let d = Colors::dark();
    assert!(d.is_dark);
    let b = Colors::blue();
    assert!(!b.is_dark);
    assert_eq!(Colors::<Rgba8Srgb>::default(), l);
    assert_eq!(Rgba8Srgb::opaque(1, 2, 3), Rgba8Srgb([1, 2, 3, 255]));
}

#[test]
fn colours_by_state() {
    let l = Colors::light();
    let normal = InputState::default();
    assert_eq!(l.edit_bg(normal), l.edit_bg);
    assert_eq!(l.edit_bg(InputState { error: true, ..normal }), l.edit_bg_error);
    assert_eq!(l.edit_bg(InputState { error: true, disabled: true, ..normal }), l.edit_bg_disabled);
    assert_eq!(l.nav_region(normal), None);
    assert_eq!(l.nav_region(InputState { nav_focus: true, ..normal }), Some(l.nav_focus));
    assert_eq!(l.nav_region(InputState { nav_focus: true, disabled: true, ..normal }), None);
}

#[test]
fn maybe_boxed_refers_to_target() {
    let x = 5u32;
    let a = MaybeBoxed::Borrowed(&x);
    let b: MaybeBoxed<u32> = MaybeBoxed::Boxed(Box::new(7));
    assert_eq!(*a.as_ref(), 5);
    assert_eq!(*b.as_ref(), 7);
}

#[test]
fn text_cursor_blinks() {
    let mut a = AnimState::new(600, 200, 1000);
    // a new cursor is drawn, due one blink later
    assert_eq!(a.text_cursor(1, 3), (true, 1600));
    // not yet due: unchanged
    a.update(1500);
    assert_eq!(a.text_cursor(1, 3), (true, 1600));
    // due: toggles once, next due one blink later
    a.update(1700);
    assert_eq!(a.text_cursor(1, 3), (false, 2200));
    // a moved cursor restarts, drawn
    assert_eq!(a.text_cursor(1, 4), (true, 2300));
    assert_eq!(a.text_cursor.get(&1), Some(&TextCursor { byte: 4, state: true, time: 2300 }));
}

#[test]
fn fade_bool_transitions() {
    let mut a = AnimState::new(600, 200, 1000);
    // a new entry shows its state
    assert_eq!(a.fade_bool(7, true), (Fade::Value(true), false));
    assert_eq!(a.fade_bool_1m(7, true), (Fade::Value(false), false));
    // a change shows the old state and starts the fade
    assert_eq!(a.fade_bool(7, false), (Fade::Value(true), true));
    a.update(1050);
    // partway: 150 of 200 remain, measured from the other end
    assert_eq!(a.fade_bool(7, false), (Fade::Partial { rem: 150, dur: 200, invert: false }, true));
    assert_eq!(a.fade_bool_1m(7, false), (Fade::Partial { rem: 150, dur: 200, invert: true }, true));
    a.update(1300);
    assert_eq!(a.fade_bool(7, false), (Fade::Value(false), false));
}

#[test]
fn garbage_collection_drops_stale_entries() {
    let mut a = AnimState::new(600, 200, 1000);
    a.text_cursor(1, 0);
    a.fade_bool(2, true);
    a.update(1000 + TIMEOUT - 1);
    // not yet due for collection
    assert_eq!(a.text_cursor.len(), 1);
    a.fade_bool(3, true);
    a.update(1000 + TIMEOUT);
    // collected: entries last used at 1000 are kept (1000 + TIMEOUT >= now)
    assert_eq!(a.time_next_gc, 1000 + 2 * TIMEOUT);
    assert_eq!(a.text_cursor.len(), 1);
    a.update(1001 + 2 * TIMEOUT);
    // entry 3 was last used at 1000 + TIMEOUT - 1: dropped too
    assert_eq!(a.text_cursor.len(), 0);
    assert_eq!(a.fade_bool.len(), 0);
}
