use cplp::ui::{waveform_samples, Button, EventResponse, Key, List, MouseButton, PointBits, Slider, TextInput, UiEvent, DISPLAY_SAMPLES};

/// A rectangle of the screen, and the test the HUD makes of whether a point lies inside it.
#[derive(Clone, Copy)]
struct Rect {
    x: f32,
    y: f32,
    w: f32,
    h: f32,
}

impl Rect {
    fn contains(&self, x: f32, y: f32) -> bool {
        x >= self.x && x <= self.x + self.w && y >= self.y && y <= self.y + self.h
    }
}

fn at(x: f32, y: f32) -> PointBits {
    PointBits { x_bits: x.to_bits(), y_bits: y.to_bits() }
}

fn inside(rect: Rect, x: f32, y: f32) -> bool {
    rect.contains(x, y)
}

#[test]
fn button_hover_detection() {
    let mut btn = Button::new("Test");
    let rect = Rect { x: 10.0, y: 10.0, w: 100.0, h: 36.0 };
    btn.event(&UiEvent::MouseMove(at(50.0, 25.0)), inside(rect, 50.0, 25.0));
    assert!(btn.is_hovered());
    btn.event(&UiEvent::MouseMove(at(200.0, 200.0)), inside(rect, 200.0, 200.0));
    assert!(!btn.is_hovered());
}

#[test]
fn button_click_fires_callback() {
    let mut btn = Button::new("OK");
    let rect = Rect { x: 0.0, y: 0.0, w: 100.0, h: 36.0 };
    let (r, clicked) = btn.event(&UiEvent::MouseDown(at(50.0, 18.0), MouseButton::Left), inside(rect, 50.0, 18.0));
    assert_eq!(r, EventResponse::Consumed);
    assert!(!clicked);
    assert!(btn.is_pressed());
    let (r, clicked) = btn.event(&UiEvent::MouseUp(at(50.0, 18.0), MouseButton::Left), inside(rect, 50.0, 18.0));
    assert_eq!(r, EventResponse::Consumed);
    assert!(clicked);
    assert!(!btn.is_pressed());
}

#[test]
fn button_click_outside_ignored() {
    let mut btn = Button::new("X");
    let rect = Rect { x: 0.0, y: 0.0, w: 50.0, h: 36.0 };
    let (r, _) = btn.event(&UiEvent::MouseDown(at(200.0, 200.0), MouseButton::Left), inside(rect, 200.0, 200.0));
    assert_eq!(r, EventResponse::Ignored);
    assert!(!btn.is_pressed());
}

#[test]
fn button_release_outside_does_not_click() {
    let mut btn = Button::new("X");
    btn.event(&UiEvent::MouseDown(at(1.0, 1.0), MouseButton::Left), true);
    let (r, clicked) = btn.event(&UiEvent::MouseUp(at(99.0, 99.0), MouseButton::Left), false);
    assert_eq!(r, EventResponse::Ignored);
    assert!(!clicked);
    assert!(!btn.is_pressed());
    assert_eq!(btn.label(), "X");
}

#[test]
fn button_ignores_right_button_and_keys() {
    let mut btn = Button::new("X");
    assert_eq!(btn.event(&UiEvent::MouseDown(at(1.0, 1.0), MouseButton::Right), true), (EventResponse::Ignored, false));
    assert_eq!(btn.event(&UiEvent::KeyDown(Key::Enter), true), (EventResponse::Ignored, false));
    assert!(!btn.is_pressed());
}

fn focused_input() -> TextInput {
    let mut input = TextInput::new("Enter session ID");
    input.set_focused(true);
    input
}

#[test]
fn text_input_typing() {
    let mut input = focused_input();
    input.event(&UiEvent::KeyDown(Key::Char('a')), false);
    input.event(&UiEvent::KeyDown(Key::Char('b')), false);
    assert_eq!(input.text(), "ab");
    input.event(&UiEvent::KeyDown(Key::Backspace), false);
    assert_eq!(input.text(), "a");
}

#[test]
fn text_input_cursor_movement() {
    let mut input = TextInput::new("");
    input.set_focused(true);
    input.event(&UiEvent::KeyDown(Key::Char('a')), false);
    input.event(&UiEvent::KeyDown(Key::Char('b')), false);
    input.event(&UiEvent::KeyDown(Key::Char('c')), false);
    assert_eq!(input.cursor(), 3);
    input.event(&UiEvent::KeyDown(Key::Left), false);
    input.event(&UiEvent::KeyDown(Key::Left), false);
    assert_eq!(input.cursor(), 1);
    input.event(&UiEvent::KeyDown(Key::Char('x')), false);
    assert_eq!(input.text(), "axbc");
}

#[test]
fn text_input_focus_on_click() {
    let mut input = TextInput::new("placeholder");
    let rect = Rect { x: 0.0, y: 0.0, w: 300.0, h: 32.0 };
    assert!(!input.is_focused());
    input.event(&UiEvent::MouseDown(at(50.0, 16.0), MouseButton::Left), inside(rect, 50.0, 16.0));
    assert!(input.is_focused());
    input.event(&UiEvent::KeyDown(Key::Enter), false);
    assert!(!input.is_focused());
}

#[test]
fn text_input_unfocused_ignores_keys() {
    let mut input = TextInput::new("");
    let r = input.event(&UiEvent::KeyDown(Key::Char('a')), false);
    assert_eq!(r, EventResponse::Ignored);
    assert_eq!(input.text(), "");
}

#[test]
fn text_input_multibyte_characters() {
    let mut input = focused_input();
    input.set_text("あい");
    assert_eq!(input.cursor(), 2);
    input.event(&UiEvent::KeyDown(Key::Left), false);
    input.event(&UiEvent::KeyDown(Key::Char('う')), false);
    assert_eq!(input.text(), "あうい");
    input.event(&UiEvent::KeyDown(Key::Right), false);
    input.event(&UiEvent::KeyDown(Key::Right), false);
    assert_eq!(input.cursor(), 3);
    input.event(&UiEvent::KeyDown(Key::Backspace), false);
    assert_eq!(input.text(), "あう");
}

#[test]
fn text_input_backspace_at_start_and_click_outside() {
    let mut input = focused_input();
    input.set_text("ab");
    input.event(&UiEvent::KeyDown(Key::Left), false);
    input.event(&UiEvent::KeyDown(Key::Left), false);
    input.event(&UiEvent::KeyDown(Key::Left), false);
    assert_eq!(input.cursor(), 0);
    assert_eq!(input.event(&UiEvent::KeyDown(Key::Backspace), false), EventResponse::Consumed);
    assert_eq!(input.text(), "ab");
    assert_eq!(input.event(&UiEvent::KeyDown(Key::Tab), false), EventResponse::Ignored);
    assert_eq!(input.event(&UiEvent::MouseDown(at(500.0, 500.0), MouseButton::Left), false), EventResponse::Ignored);
    assert!(!input.is_focused());
    assert_eq!(input.placeholder(), "Enter session ID");
}

fn items(names: &[&str]) -> Vec<String> {
    names.iter().map(|s| s.to_string()).collect()
}

/// The visible row under a point, as the list widget computes it from its rectangle.
fn row_at(y: f32, rect: Rect, item_height: f32) -> Option<usize> {
    if y < rect.y || y > rect.y + rect.h {
        None
    } else {
        Some(((y - rect.y) / item_height) as usize)
    }
}

#[test]
fn list_selection() {
    let mut list = List::new(5);
    list.set_items(items(&["A", "B", "C"]));
    let rect = Rect { x: 0.0, y: 0.0, w: 200.0, h: 150.0 };
    list.event(&UiEvent::MouseDown(at(50.0, 35.0), MouseButton::Left), row_at(35.0, rect, 30.0));
    assert_eq!(list.selected(), Some(1));
}

#[test]
fn list_keyboard_navigation() {
    let mut list = List::new(5);
    list.set_items(items(&["A", "B", "C"]));
    list.event(&UiEvent::KeyDown(Key::Down), None);
    assert_eq!(list.selected(), Some(0));
    list.event(&UiEvent::KeyDown(Key::Down), None);
    assert_eq!(list.selected(), Some(1));
    list.event(&UiEvent::KeyDown(Key::Up), None);
    assert_eq!(list.selected(), Some(0));
    list.event(&UiEvent::KeyDown(Key::Up), None);
    assert_eq!(list.selected(), Some(0));
}

#[test]
fn list_hover_tracking() {
    let mut list = List::new(5);
    list.set_items(items(&["A", "B", "C"]));
    let rect = Rect { x: 0.0, y: 0.0, w: 200.0, h: 150.0 };
    list.event(&UiEvent::MouseMove(at(50.0, 65.0)), row_at(65.0, rect, 30.0));
    assert_eq!(list.hovered_index(), Some(2));
    list.event(&UiEvent::MouseMove(at(50.0, 200.0)), row_at(200.0, rect, 30.0));
    assert_eq!(list.hovered_index(), None);
}

#[test]
fn list_scroll() {
    let mut list = List::new(2);
    list.set_items(items(&["A", "B", "C", "D"]));
    assert_eq!(list.scroll_offset(), 0);
    list.event(&UiEvent::Scroll(at(0.0, -1.0)), None);
    assert_eq!(list.scroll_offset(), 1);
    list.event(&UiEvent::Scroll(at(0.0, 1.0)), None);
    assert_eq!(list.scroll_offset(), 0);
}

#[test]
fn list_scroll_stops_at_both_ends() {
    let mut list = List::new(2);
    list.set_items(items(&["A", "B", "C", "D"]));
    for _ in 0..5 {
        list.event(&UiEvent::Scroll(at(0.0, -3.0)), None);
    }
    assert_eq!(list.scroll_offset(), 2);
    list.event(&UiEvent::Scroll(at(0.0, 0.0)), None);
    list.event(&UiEvent::Scroll(at(0.0, -0.0)), None);
    list.event(&UiEvent::Scroll(at(0.0, f32::NAN)), None);
    assert_eq!(list.scroll_offset(), 2);
    for _ in 0..5 {
        list.event(&UiEvent::Scroll(at(0.0, 2.0)), None);
    }
    assert_eq!(list.scroll_offset(), 0);
}

#[test]
fn list_down_scrolls_to_follow_selection() {
    let mut list = List::new(2);
    list.set_items(items(&["A", "B", "C", "D"]));
    for _ in 0..3 {
        list.event(&UiEvent::KeyDown(Key::Down), None);
    }
    assert_eq!(list.selected(), Some(2));
    assert_eq!(list.scroll_offset(), 1);
    list.event(&UiEvent::KeyDown(Key::Down), None);
    list.event(&UiEvent::KeyDown(Key::Down), None);
    assert_eq!(list.selected(), Some(3));
    assert_eq!(list.scroll_offset(), 2);
    for _ in 0..3 {
        list.event(&UiEvent::KeyDown(Key::Up), None);
    }
    assert_eq!(list.selected(), Some(0));
    assert_eq!(list.scroll_offset(), 0);
}

#[test]
fn list_click_below_items_is_ignored() {
    let mut list = List::new(5);
    list.set_items(items(&["A"]));
    assert_eq!(list.event(&UiEvent::MouseDown(at(5.0, 100.0), MouseButton::Left), Some(3)), EventResponse::Ignored);
    assert_eq!(list.selected(), None);
    assert_eq!(list.event(&UiEvent::KeyDown(Key::Enter), None), EventResponse::Ignored);
}

/// Where x lies across the slider's rectangle, as the slider widget measures it.
fn ratio(x: f32, rect: Rect) -> u32 {
    ((x - rect.x) / rect.w).to_bits()
}

fn slider_value(s: &Slider) -> f32 {
    f32::from_bits(s.value_bits())
}

#[test]
fn slider_drag_updates_value() {
    let mut slider = Slider::new("Mix");
    let rect = Rect { x: 0.0, y: 0.0, w: 200.0, h: 28.0 };
    slider.event(&UiEvent::MouseDown(at(100.0, 14.0), MouseButton::Left), inside(rect, 100.0, 14.0), ratio(100.0, rect));
    assert!((slider_value(&slider) - 0.5).abs() < 0.01);
}

#[test]
fn slider_clamps_value() {
    let mut slider = Slider::new("Vol");
    slider.set_value(1.5f32.to_bits());
    assert!((slider_value(&slider) - 1.0).abs() < f32::EPSILON);
    slider.set_value((-0.5f32).to_bits());
    assert!(slider_value(&slider).abs() < f32::EPSILON);
}

#[test]
fn slider_drag_and_release() {
    let mut slider = Slider::new("Pan");
    let rect = Rect { x: 0.0, y: 0.0, w: 200.0, h: 28.0 };
    slider.event(&UiEvent::MouseDown(at(50.0, 14.0), MouseButton::Left), inside(rect, 50.0, 14.0), ratio(50.0, rect));
    assert!(slider.is_dragging());
    assert!((slider_value(&slider) - 0.25).abs() < 0.01);
    slider.event(&UiEvent::MouseMove(at(150.0, 14.0)), inside(rect, 150.0, 14.0), ratio(150.0, rect));
    assert!((slider_value(&slider) - 0.75).abs() < 0.01);
    slider.event(&UiEvent::MouseUp(at(150.0, 14.0), MouseButton::Left), inside(rect, 150.0, 14.0), ratio(150.0, rect));
    assert!(!slider.is_dragging());
}

#[test]
fn slider_drag_past_the_end_clamps() {
    let mut slider = Slider::new("Pan");
    let rect = Rect { x: 0.0, y: 0.0, w: 200.0, h: 28.0 };
    slider.event(&UiEvent::MouseDown(at(10.0, 14.0), MouseButton::Left), true, ratio(10.0, rect));
    slider.event(&UiEvent::MouseMove(at(400.0, 14.0)), false, ratio(400.0, rect));
    assert_eq!(slider_value(&slider), 1.0);
    assert!(!slider.is_hovered());
    slider.event(&UiEvent::MouseMove(at(-40.0, 14.0)), false, ratio(-40.0, rect));
    assert_eq!(slider_value(&slider), 0.0);
    assert_eq!(slider.label(), "Pan");
}

#[test]
fn waveform_update_replaces_samples() {
    let samples = waveform_samples(&[0.1f32, 0.2, 0.3]);
    assert_eq!(samples.len(), 3);
    assert!((samples[0] - 0.1).abs() < f32::EPSILON);
}

#[test]
fn waveform_clamps_to_display_samples() {
    let large: Vec<f32> = (0..DISPLAY_SAMPLES + 100).map(|i| i as f32).collect();
    let samples = waveform_samples(&large);
    assert_eq!(samples.len(), DISPLAY_SAMPLES);
    assert_eq!(samples[0], 100.0);
    assert_eq!(samples[DISPLAY_SAMPLES - 1], (DISPLAY_SAMPLES + 99) as f32);
}

#[test]
fn cursor_byte_offset_counts_utf8_bytes() {
    let mut input = TextInput::new("");
    assert_eq!(input.cursor_byte_offset(), 0);
    input.set_text("aé日😀");
    assert_eq!(input.cursor(), 4);
    assert_eq!(input.cursor_byte_offset(), 10);
    input.set_focused(true);
    input.event(&UiEvent::KeyDown(Key::Left), false);
    assert_eq!(input.cursor_byte_offset(), 6);
    input.event(&UiEvent::KeyDown(Key::Left), false);
    assert_eq!(input.cursor_byte_offset(), 3);
    input.event(&UiEvent::KeyDown(Key::Left), false);
    assert_eq!(input.cursor_byte_offset(), 1);
}
