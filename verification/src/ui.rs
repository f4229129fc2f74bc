//! Input events of the HUD and the state machines of its widgets.
//!
//! Positions stay `f32` bit patterns here: whether a pointer lies inside a
//! widget's rectangle is a floating-point test that the caller makes and
//! hands over as `inside`.
use vstd::prelude::*;
use crate::mixer::{clamp_unit, clamp_unit_bits};
use crate::text::{chars_of, string_from_chars};

verus! {

/// A mouse button.
#[derive(Debug, Clone, Copy, PartialEq, Eq, Structural)]
pub enum MouseButton {
    Left,
    Right,
}

/// A key of the keyboard.
#[derive(Debug, Clone, Copy, PartialEq, Eq, Structural)]
pub enum Key {
    Enter,
    Escape,
    Backspace,
    Tab,
    Left,
    Right,
    Up,
    Down,
    Char(char),
}

/// A point or a scroll amount, each coordinate an `f32` bit pattern.
#[derive(Debug, Clone, Copy, PartialEq, Eq, Structural)]
pub struct PointBits {
    pub x_bits: u32,
    pub y_bits: u32,
}

/// An input event.
#[derive(Debug, Clone)]
pub enum UiEvent {
    MouseMove(PointBits),
    MouseDown(PointBits, MouseButton),
    MouseUp(PointBits, MouseButton),
    Scroll(PointBits),
    KeyDown(Key),
    TextInput(String),
}

/// Whether a widget used an event.
#[derive(Debug, Clone, Copy, PartialEq, Eq, Structural)]
pub enum EventResponse {
    Ignored,
    Consumed,
}

/// A push button. It reports a click when the left button goes down and
/// comes up inside it.
pub struct Button {
    label: String,
    hovered: bool,
    pressed: bool,
}

/// The state of a button.
pub struct ButtonView {
    pub label: Seq<char>,
    pub hovered: bool,
    pub pressed: bool,
}

impl View for Button {
    type V = ButtonView;

    closed spec fn view(&self) -> ButtonView {
        ButtonView { label: self.label@, hovered: self.hovered, pressed: self.pressed }
    }
}

/// What a button does with an event: its next state, its response, and
/// whether the event completed a click. `inside` tells whether the event's
/// position lies inside the button.
pub open spec fn button_step(b: ButtonView, e: UiEvent, inside: bool) -> (ButtonView, EventResponse, bool) {
    match e {
        UiEvent::MouseMove(_) => (ButtonView { hovered: inside, ..b }, EventResponse::Ignored, false),
        UiEvent::MouseDown(_, MouseButton::Left) => if inside {
            (ButtonView { pressed: true, ..b }, EventResponse::Consumed, false)
        } else {
            (b, EventResponse::Ignored, false)
        },
        UiEvent::MouseUp(_, MouseButton::Left) => if b.pressed && inside {
            (ButtonView { pressed: false, ..b }, EventResponse::Consumed, true)
        } else {
            (ButtonView { pressed: false, ..b }, EventResponse::Ignored, false)
        },
        _ => (b, EventResponse::Ignored, false),
    }
}

impl Button {
    /// A button with the label, neither hovered nor pressed.
    pub fn new(label: &str) -> (r: Self)
        ensures
            r@.label == label@,
            !r@.hovered,
            !r@.pressed,
    {
        Button { label: String::from_str(label), hovered: false, pressed: false }
    }

    /// The label.
    pub fn label(&self) -> (r: &str)
        ensures
            r@ == self@.label,
    {
        self.label.as_str()
    }

    /// Whether the pointer was last seen over the button.
    pub fn is_hovered(&self) -> (r: bool)
        ensures
            r == self@.hovered,
    {
        self.hovered
    }

    /// Whether the left button went down on the button and has not come up yet.
    pub fn is_pressed(&self) -> (r: bool)
        ensures
            r == self@.pressed,
    {
        self.pressed
    }

    /// Handles an event; `inside` tells whether its position lies inside the
    /// button. Returns the response and whether a click completed, at which
    /// point the button's action is due.
    pub fn event(&mut self, event: &UiEvent, inside: bool) -> (r: (EventResponse, bool))
        ensures
            (final(self)@, r.0, r.1) == button_step(old(self)@, *event, inside),
    {
        match event {
            UiEvent::MouseMove(_) => {
                self.hovered = inside;
                (EventResponse::Ignored, false)
            },
            UiEvent::MouseDown(_, MouseButton::Left) => {
                if inside {
                    self.pressed = true;
                    (EventResponse::Consumed, false)
                } else {
                    (EventResponse::Ignored, false)
                }
            },
            UiEvent::MouseUp(_, MouseButton::Left) => {
                if self.pressed && inside {
                    self.pressed = false;
                    (EventResponse::Consumed, true)
                } else {
                    self.pressed = false;
                    (EventResponse::Ignored, false)
                }
            },
            _ => (EventResponse::Ignored, false),
        }
    }
}

/// A left press inside a button followed by a release inside it is one
/// click: both events are consumed, the click is reported on the release
/// only, and the button is left unpressed.
pub proof fn law_press_release_inside_clicks(b: ButtonView, down: PointBits, up: PointBits)
    ensures
        ({
            let (b1, r1, c1) = button_step(b, UiEvent::MouseDown(down, MouseButton::Left), true);
            let (b2, r2, c2) = button_step(b1, UiEvent::MouseUp(up, MouseButton::Left), true);
            &&& r1 == EventResponse::Consumed && !c1
            &&& r2 == EventResponse::Consumed && c2
            &&& !b2.pressed
            &&& b2.label == b.label && b2.hovered == b.hovered
        }),
{
}

/// A release never leaves a button pressed, and a release outside it never
/// clicks.
pub proof fn law_release_outside_never_clicks(b: ButtonView, up: PointBits)
    ensures
        !button_step(b, UiEvent::MouseUp(up, MouseButton::Left), false).2,
        !button_step(b, UiEvent::MouseUp(up, MouseButton::Left), false).0.pressed,
{
}

/// A one-line text field. The cursor is a position between characters,
/// counted in characters.
pub struct TextInput {
    text: String,
    cursor: usize,
    focused: bool,
    placeholder: String,
}

/// The state of a text field.
pub struct TextInputView {
    pub text: Seq<char>,
    pub cursor: nat,
    pub focused: bool,
    pub placeholder: Seq<char>,
}

impl View for TextInput {
    type V = TextInputView;

    closed spec fn view(&self) -> TextInputView {
        TextInputView {
            text: self.text@,
            cursor: self.cursor as nat,
            focused: self.focused,
            placeholder: self.placeholder@,
        }
    }
}

/// What a text field does with an event: its next state and its response.
/// A left press focuses it when `inside` and unfocuses it otherwise; keys
/// act only while it is focused: a character goes in at the cursor,
/// Backspace deletes the character before the cursor, the arrows move the
/// cursor within the text and Enter unfocuses it.
pub open spec fn text_input_step(v: TextInputView, e: UiEvent, inside: bool) -> (TextInputView, EventResponse) {
    match e {
        UiEvent::MouseDown(_, MouseButton::Left) => if inside {
            (TextInputView { focused: true, ..v }, EventResponse::Consumed)
        } else {
            (TextInputView { focused: false, ..v }, EventResponse::Ignored)
        },
        UiEvent::KeyDown(k) => if !v.focused {
            (v, EventResponse::Ignored)
        } else {
            match k {
                Key::Char(c) => (
                    TextInputView { text: v.text.insert(v.cursor as int, c), cursor: v.cursor + 1, ..v },
                    EventResponse::Consumed,
                ),
                Key::Backspace => if v.cursor > 0 {
                    (
                        TextInputView {
                            text: v.text.remove(v.cursor - 1),
                            cursor: (v.cursor - 1) as nat,
                            ..v
                        },
                        EventResponse::Consumed,
                    )
                } else {
                    (v, EventResponse::Consumed)
                },
                Key::Left => if v.cursor > 0 {
                    (TextInputView { cursor: (v.cursor - 1) as nat, ..v }, EventResponse::Consumed)
                } else {
                    (v, EventResponse::Consumed)
                },
                Key::Right => if v.cursor < v.text.len() {
                    (TextInputView { cursor: v.cursor + 1, ..v }, EventResponse::Consumed)
                } else {
                    (v, EventResponse::Consumed)
                },
                Key::Enter => (TextInputView { focused: false, ..v }, EventResponse::Consumed),
                _ => (v, EventResponse::Ignored),
            }
        },
        _ => (v, EventResponse::Ignored),
    }
}

/// The UTF-8 encoding of a text followed by one more character.
proof fn lemma_encode_utf8_push(s: Seq<char>, c: char)
    ensures
        vstd::utf8::encode_utf8(s.push(c)) == vstd::utf8::encode_utf8(s) + vstd::utf8::encode_scalar(c as u32),
    decreases s.len(),
{
    if s.len() == 0 {
        assert(s.push(c).drop_first() == Seq::<char>::empty());
        assert(vstd::utf8::encode_utf8(Seq::<char>::empty()) == Seq::<u8>::empty());
        assert(vstd::utf8::encode_scalar(c as u32) + Seq::<u8>::empty() == vstd::utf8::encode_scalar(c as u32));
    } else {
        lemma_encode_utf8_push(s.drop_first(), c);
        assert(s.push(c).drop_first() == s.drop_first().push(c));
        assert(s.push(c)[0] == s[0]);
        let a = vstd::utf8::encode_scalar(s[0] as u32);
        let b = vstd::utf8::encode_utf8(s.drop_first());
        let d = vstd::utf8::encode_scalar(c as u32);
        assert(a + (b + d) == (a + b) + d);
    }
}

/// The encoding of a prefix is no longer than the encoding of the whole.
proof fn lemma_encode_prefix_le(s: Seq<char>, n: int)
    requires
        0 <= n <= s.len(),
    ensures
        vstd::utf8::encode_utf8(s.take(n)).len() <= vstd::utf8::encode_utf8(s).len(),
    decreases s.len() - n,
{
    if n < s.len() {
        lemma_encode_prefix_le(s, n + 1);
        lemma_encode_utf8_push(s.take(n), s[n]);
        assert(s.take(n).push(s[n]) == s.take(n + 1));
    } else {
        assert(s.take(n) == s);
    }
}

/// The encoding of a prefix ends on a character boundary of the encoding of
/// the whole.
proof fn lemma_encode_prefix_boundary(s: Seq<char>, n: int)
    requires
        0 <= n <= s.len(),
    ensures
        vstd::utf8::is_char_boundary(vstd::utf8::encode_utf8(s), vstd::utf8::encode_utf8(s.take(n)).len() as int),
    decreases s.len(),
{
    let bytes = vstd::utf8::encode_utf8(s);
    vstd::utf8::encode_utf8_valid_utf8(s);
    if n == 0 {
        assert(s.take(0) =~= Seq::<char>::empty());
        assert(vstd::utf8::encode_utf8(Seq::<char>::empty()).len() == 0);
    } else {
        let rest = s.drop_first();
        vstd::utf8::encode_utf8_first_scalar(s);
        let first = vstd::utf8::encode_scalar(s[0] as u32);
        assert(bytes == first + vstd::utf8::encode_utf8(rest));
        assert(vstd::utf8::pop_first_scalar(bytes) =~= vstd::utf8::encode_utf8(rest));
        assert(s.take(n).drop_first() =~= rest.take(n - 1));
        assert(s.take(n)[0] == s[0]);
        assert(vstd::utf8::encode_utf8(s.take(n)) == first + vstd::utf8::encode_utf8(rest.take(n - 1)));
        lemma_encode_prefix_boundary(rest, n - 1);
        lemma_encode_prefix_le(s, n);
        vstd::utf8::encode_utf8_valid_utf8(rest);
    }
}

/// The number of bytes of a character's UTF-8 encoding.
fn utf8_width(c: char) -> (r: usize)
    ensures
        r == vstd::utf8::encode_scalar(c as u32).len(),
        1 <= r <= 4,
{
    proof {
        vstd::utf8::char_is_scalar(c);
    }
    let v = c as u32;
    if v < 0x80 {
        1
    } else if v < 0x800 {
        2
    } else if v < 0x10000 {
        3
    } else {
        4
    }
}

impl TextInput {
    /// The cursor lies within the text.
    pub open spec fn wf(&self) -> bool {
        self@.cursor <= self@.text.len()
    }

    /// An empty, unfocused field with the placeholder.
    pub fn new(placeholder: &str) -> (r: Self)
        ensures
            r.wf(),
            r@.text == Seq::<char>::empty(),
            r@.cursor == 0,
            !r@.focused,
            r@.placeholder == placeholder@,
    {
        TextInput { text: String::new(), cursor: 0, focused: false, placeholder: String::from_str(placeholder) }
    }

    /// The byte offset of the cursor in the UTF-8 text: the length of the
    /// encoding of the characters before it.
    pub fn cursor_byte_offset(&self) -> (r: usize)
        requires
            self.wf(),
            vstd::utf8::encode_utf8(self@.text).len() <= usize::MAX,
        ensures
            r == vstd::utf8::encode_utf8(self@.text.take(self@.cursor as int)).len(),
            r <= vstd::utf8::encode_utf8(self@.text).len(),
            vstd::utf8::is_char_boundary(vstd::utf8::encode_utf8(self@.text), r as int),
    {
        proof {
            lemma_encode_prefix_le(self@.text, self@.cursor as int);
            lemma_encode_prefix_boundary(self@.text, self@.cursor as int);
        }
        let cs = chars_of(self.text.as_str());
        let mut off: usize = 0;
        let mut i: usize = 0;
        while i < self.cursor
            invariant
                cs@ == self.text@,
                self.cursor <= cs@.len(),
                i <= self.cursor,
                off == vstd::utf8::encode_utf8(cs@.take(i as int)).len(),
                vstd::utf8::encode_utf8(cs@).len() <= usize::MAX,
            decreases self.cursor - i,
        {
            proof {
                lemma_encode_utf8_push(cs@.take(i as int), cs@[i as int]);
                assert(cs@.take(i as int).push(cs@[i as int]) == cs@.take(i + 1));
                lemma_encode_utf8_push(cs@.take(i + 1), cs@[i as int]);
                lemma_encode_prefix_le(cs@, i + 1);
            }
            off = off + utf8_width(cs[i]);
            i = i + 1;
        }
        off
    }

    /// The text.
    pub fn text(&self) -> (r: &str)
        ensures
            r@ == self@.text,
    {
        self.text.as_str()
    }

    /// The placeholder, shown while the field is empty and unfocused.
    pub fn placeholder(&self) -> (r: &str)
        ensures
            r@ == self@.placeholder,
    {
        self.placeholder.as_str()
    }

    /// The cursor position, in characters.
    pub fn cursor(&self) -> (r: usize)
        ensures
            r == self@.cursor,
    {
        self.cursor
    }

    /// Whether the field takes keys.
    pub fn is_focused(&self) -> (r: bool)
        ensures
            r == self@.focused,
    {
        self.focused
    }

    /// Gives or takes the focus.
    pub fn set_focused(&mut self, focused: bool)
        requires
            old(self).wf(),
        ensures
            final(self).wf(),
            final(self)@ == (TextInputView { focused, ..old(self)@ }),
    {
        self.focused = focused;
    }

    /// Replaces the text and puts the cursor at its end.
    pub fn set_text(&mut self, s: &str)
        ensures
            final(self).wf(),
            final(self)@ == (TextInputView { text: s@, cursor: s@.len(), ..old(self)@ }),
    {
        let cs = chars_of(s);
        self.text = String::from_str(s);
        self.cursor = cs.len();
    }

    /// Handles an event; `inside` tells whether its position lies inside the field.
    pub fn event(&mut self, event: &UiEvent, inside: bool) -> (r: EventResponse)
        requires
            old(self).wf(),
        ensures
            final(self).wf(),
            (final(self)@, r) == text_input_step(old(self)@, *event, inside),
    {
        match event {
            UiEvent::MouseDown(_, MouseButton::Left) => {
                if inside {
                    self.focused = true;
                    EventResponse::Consumed
                } else {
                    self.focused = false;
                    EventResponse::Ignored
                }
            },
            UiEvent::KeyDown(key) => {
                if !self.focused {
                    return EventResponse::Ignored;
                }
                match key {
                    Key::Char(c) => {
                        let mut cs = chars_of(self.text.as_str());
                        cs.insert(self.cursor, *c);
                        let n = cs.len();
                        assert(self.cursor < n);
                        self.text = string_from_chars(cs.as_slice());
                        self.cursor = self.cursor + 1;
                    },
                    Key::Backspace => {
                        if self.cursor > 0 {
                            self.cursor = self.cursor - 1;
                            let mut cs = chars_of(self.text.as_str());
                            cs.remove(self.cursor);
                            self.text = string_from_chars(cs.as_slice());
                        }
                    },
                    Key::Left => {
                        if self.cursor > 0 {
                            self.cursor = self.cursor - 1;
                        }
                    },
                    Key::Right => {
                        let n = chars_of(self.text.as_str()).len();
                        if self.cursor < n {
                            self.cursor = self.cursor + 1;
                        }
                    },
                    Key::Enter => {
                        self.focused = false;
                    },
                    _ => {
                        return EventResponse::Ignored;
                    },
                }
                EventResponse::Consumed
            },
            _ => EventResponse::Ignored,
        }
    }
}

/// Typing a character into a focused field and then pressing Backspace
/// gives back the text and cursor it had.
pub proof fn law_backspace_undoes_typing(v: TextInputView, c: char)
    requires
        v.focused,
        v.cursor <= v.text.len(),
    ensures
        text_input_step(
            text_input_step(v, UiEvent::KeyDown(Key::Char(c)), false).0,
            UiEvent::KeyDown(Key::Backspace),
            false,
        ).0 == v,
{
    let typed = text_input_step(v, UiEvent::KeyDown(Key::Char(c)), false).0;
    assert(typed.text.remove(v.cursor as int) =~= v.text);
}

/// Keys leave an unfocused field as it is, and are not used.
pub proof fn law_unfocused_ignores_keys(v: TextInputView, k: Key, inside: bool)
    requires
        !v.focused,
    ensures
        text_input_step(v, UiEvent::KeyDown(k), inside) == (v, EventResponse::Ignored),
{
}

/// Whether an `f32`, given by its bit pattern, is below zero: its sign bit
/// is set and it is neither -0.0 nor a NaN (IEEE 754 binary32).
pub open spec fn f32_bits_below_zero(b: u32) -> bool {
    0x8000_0000 < b && b <= 0xFF80_0000
}

/// Whether an `f32`, given by its bit pattern, is above zero: its sign bit
/// is clear and it is neither +0.0 nor a NaN.
pub open spec fn f32_bits_above_zero(b: u32) -> bool {
    0 < b && b <= 0x7F80_0000
}

/// A scrollable list of text items with a selection, driven by the mouse
/// and the arrow keys.
pub struct List {
    items: Vec<String>,
    selected: Option<usize>,
    scroll_offset: usize,
    visible_count: usize,
    hovered_index: Option<usize>,
}

/// The state of a list.
pub struct ListView {
    pub items: Seq<Seq<char>>,
    pub selected: Option<usize>,
    pub scroll_offset: usize,
    pub visible_count: usize,
    pub hovered_index: Option<usize>,
}

/// The characters of each string.
pub open spec fn string_views(items: Seq<String>) -> Seq<Seq<char>> {
    items.map_values(|s: String| s@)
}

impl View for List {
    type V = ListView;

    closed spec fn view(&self) -> ListView {
        ListView {
            items: string_views(self.items@),
            selected: self.selected,
            scroll_offset: self.scroll_offset,
            visible_count: self.visible_count,
            hovered_index: self.hovered_index,
        }
    }
}

/// The selection and the hovered item are items of the list, the list is
/// not scrolled past its end, and its length fits a `usize`.
pub open spec fn list_inv(v: ListView) -> bool {
    &&& v.items.len() <= usize::MAX
    &&& v.selected matches Some(i) ==> i < v.items.len()
    &&& v.hovered_index matches Some(i) ==> i < v.items.len()
    &&& v.scroll_offset <= v.items.len()
}

/// The largest scroll offset: the item count less the visible count, or 0.
pub open spec fn max_scroll(v: ListView) -> int {
    if v.items.len() > v.visible_count { v.items.len() - v.visible_count } else { 0 }
}

/// The item at a visible row, if there is one there.
pub open spec fn item_at_row(v: ListView, row: Option<usize>) -> Option<usize> {
    match row {
        Some(r) => if v.scroll_offset + r < v.items.len() { Some((v.scroll_offset + r) as usize) } else { None },
        None => None,
    }
}

/// What a list does with an event: its next state and its response. `row`
/// is the visible row under the event's position (`None` when the position
/// is outside the list).
pub open spec fn list_step(v: ListView, e: UiEvent, row: Option<usize>) -> (ListView, EventResponse) {
    match e {
        UiEvent::MouseMove(_) => (ListView { hovered_index: item_at_row(v, row), ..v }, EventResponse::Ignored),
        UiEvent::MouseDown(_, MouseButton::Left) => match item_at_row(v, row) {
            Some(i) => (ListView { selected: Some(i), ..v }, EventResponse::Consumed),
            None => (v, EventResponse::Ignored),
        },
        UiEvent::Scroll(delta) => {
            let s = v.scroll_offset;
            let next = if f32_bits_below_zero(delta.y_bits) && s < max_scroll(v) {
                (s + 1) as usize
            } else if f32_bits_above_zero(delta.y_bits) && s > 0 {
                (s - 1) as usize
            } else {
                s
            };
            (ListView { scroll_offset: next, ..v }, EventResponse::Consumed)
        },
        UiEvent::KeyDown(Key::Up) => {
            let next = match v.selected {
                Some(sel) => if sel > 0 {
                    let up = (sel - 1) as usize;
                    ListView {
                        selected: Some(up),
                        scroll_offset: if up < v.scroll_offset { up } else { v.scroll_offset },
                        ..v
                    }
                } else {
                    v
                },
                None => if v.items.len() > 0 { ListView { selected: Some(0), ..v } } else { v },
            };
            (next, EventResponse::Consumed)
        },
        UiEvent::KeyDown(Key::Down) => {
            let next = match v.selected {
                Some(sel) => if sel + 1 < v.items.len() {
                    let down = (sel + 1) as usize;
                    ListView {
                        selected: Some(down),
                        scroll_offset: if down >= v.scroll_offset + v.visible_count {
                            (down - v.visible_count + 1) as usize
                        } else {
                            v.scroll_offset
                        },
                        ..v
                    }
                } else {
                    v
                },
                None => if v.items.len() > 0 { ListView { selected: Some(0), ..v } } else { v },
            };
            (next, EventResponse::Consumed)
        },
        _ => (v, EventResponse::Ignored),
    }
}

impl List {
    /// The state keeps [`list_inv`].
    pub open spec fn wf(&self) -> bool {
        list_inv(self@)
    }

    /// An empty list that shows `visible_count` rows.
    pub fn new(visible_count: usize) -> (r: Self)
        ensures
            r.wf(),
            r@.items == Seq::<Seq<char>>::empty(),
            r@.selected is None,
            r@.scroll_offset == 0,
            r@.visible_count == visible_count,
            r@.hovered_index is None,
    {
        let r = List { items: Vec::new(), selected: None, scroll_offset: 0, visible_count, hovered_index: None };
        assert(r@.items =~= Seq::<Seq<char>>::empty());
        r
    }

    /// The selected item.
    pub fn selected(&self) -> (r: Option<usize>)
        ensures
            r == self@.selected,
    {
        self.selected
    }

    /// The item under the pointer.
    pub fn hovered_index(&self) -> (r: Option<usize>)
        ensures
            r == self@.hovered_index,
    {
        self.hovered_index
    }

    /// The first visible item.
    pub fn scroll_offset(&self) -> (r: usize)
        ensures
            r == self@.scroll_offset,
    {
        self.scroll_offset
    }

    /// The number of visible rows.
    pub fn visible_count(&self) -> (r: usize)
        ensures
            r == self@.visible_count,
    {
        self.visible_count
    }

    /// The items.
    pub fn items(&self) -> (r: &[String])
        ensures
            string_views(r@) == self@.items,
    {
        self.items.as_slice()
    }

    /// Replaces the items; clears the selection and scrolls to the top.
    pub fn set_items(&mut self, items: Vec<String>)
        requires
            old(self).wf(),
        ensures
            final(self).wf(),
            final(self)@ == (ListView {
                items: string_views(items@),
                selected: None,
                scroll_offset: 0,
                hovered_index: final(self)@.hovered_index,
                ..old(self)@
            }),
            final(self)@.hovered_index == (match old(self)@.hovered_index {
                Some(i) => if i < items@.len() { Some(i) } else { None },
                None => None,
            }),
    {
        let n = items.len();
        self.items = items;
        self.selected = None;
        self.scroll_offset = 0;
        match self.hovered_index {
            Some(i) => {
                if i >= n {
                    self.hovered_index = None;
                }
            },
            None => {},
        }
    }

    /// The item at a visible row, if there is one there.
    fn index_at(&self, row: Option<usize>) -> (r: Option<usize>)
        ensures
            r == item_at_row(self@, row),
    {
        match row {
            Some(r) => {
                let n = self.items.len();
                if r < n && self.scroll_offset < n - r {
                    Some(self.scroll_offset + r)
                } else {
                    None
                }
            },
            None => None,
        }
    }

    /// The largest scroll offset.
    fn max_scroll(&self) -> (r: usize)
        ensures
            r == max_scroll(self@),
    {
        self.items.len().saturating_sub(self.visible_count)
    }

    /// Handles an event; `row` is the visible row under its position, or
    /// `None` when the position is outside the list.
    pub fn event(&mut self, event: &UiEvent, row: Option<usize>) -> (r: EventResponse)
        requires
            old(self).wf(),
            old(self)@.items.len() + old(self)@.visible_count <= usize::MAX,
        ensures
            final(self).wf(),
            (final(self)@, r) == list_step(old(self)@, *event, row),
    {
        match event {
            UiEvent::MouseMove(_) => {
                self.hovered_index = self.index_at(row);
                EventResponse::Ignored
            },
            UiEvent::MouseDown(_, MouseButton::Left) => {
                match self.index_at(row) {
                    Some(idx) => {
                        self.selected = Some(idx);
                        EventResponse::Consumed
                    },
                    None => EventResponse::Ignored,
                }
            },
            UiEvent::Scroll(delta) => {
                let y = delta.y_bits;
                let below = 0x8000_0000u32 < y && y <= 0xFF80_0000u32;
                let above = 0u32 < y && y <= 0x7F80_0000u32;
                if below && self.scroll_offset < self.max_scroll() {
                    self.scroll_offset = self.scroll_offset + 1;
                } else if above && self.scroll_offset > 0 {
                    self.scroll_offset = self.scroll_offset - 1;
                }
                EventResponse::Consumed
            },
            UiEvent::KeyDown(Key::Up) => {
                match self.selected {
                    Some(sel) => {
                        if sel > 0 {
                            self.selected = Some(sel - 1);
                            if sel - 1 < self.scroll_offset {
                                self.scroll_offset = sel - 1;
                            }
                        }
                    },
                    None => {
                        if self.items.len() > 0 {
                            self.selected = Some(0);
                        }
                    },
                }
                EventResponse::Consumed
            },
            UiEvent::KeyDown(Key::Down) => {
                match self.selected {
                    Some(sel) => {
                        if sel + 1 < self.items.len() {
                            self.selected = Some(sel + 1);
                            if sel + 1 >= self.scroll_offset + self.visible_count {
                                self.scroll_offset = sel + 1 - self.visible_count + 1;
                            }
                        }
                    },
                    None => {
                        if self.items.len() > 0 {
                            self.selected = Some(0);
                        }
                    },
                }
                EventResponse::Consumed
            },
            _ => EventResponse::Ignored,
        }
    }
}

/// With at least one visible row, the arrow keys keep a visible selection
/// visible: after Up or Down the selected item lies between the scroll
/// offset and the offset plus the visible count.
pub proof fn law_arrows_keep_selection_visible(v: ListView, key: Key, sel: usize)
    requires
        list_inv(v),
        v.visible_count >= 1,
        v.selected == Some(sel),
        v.scroll_offset <= sel < v.scroll_offset + v.visible_count,
        key == Key::Up || key == Key::Down,
    ensures
        ({
            let next = list_step(v, UiEvent::KeyDown(key), None).0;
            &&& next.selected matches Some(s) && next.scroll_offset <= s < next.scroll_offset + next.visible_count
        }),
{

}

/// The arrow keys never move the selection past either end of the list.
pub proof fn law_arrows_stay_in_list(v: ListView, key: Key)
    requires
        list_inv(v),
        key == Key::Up || key == Key::Down,
    ensures
        list_inv(list_step(v, UiEvent::KeyDown(key), None).0),
{
}

/// A horizontal slider for a value from 0.0 to 1.0 (an `f32` bit pattern),
/// set by pressing on it and dragging.
pub struct Slider {
    value_bits: u32,
    dragging: bool,
    hovered: bool,
    label: String,
}

/// The state of a slider.
pub struct SliderView {
    pub value_bits: u32,
    pub dragging: bool,
    pub hovered: bool,
    pub label: Seq<char>,
}

impl View for Slider {
    type V = SliderView;

    closed spec fn view(&self) -> SliderView {
        SliderView { value_bits: self.value_bits, dragging: self.dragging, hovered: self.hovered, label: self.label@ }
    }
}

/// What a slider does with an event: its next state and its response.
/// `inside` tells whether the event's position lies inside the slider, and
/// `ratio_bits` is the `f32` bit pattern of where its x lies across the
/// slider, (x - left) / width; the value taken from it is that ratio clamped
/// to [0, 1].
pub open spec fn slider_step(v: SliderView, e: UiEvent, inside: bool, ratio_bits: u32) -> (SliderView, EventResponse) {
    match e {
        UiEvent::MouseMove(_) => if v.dragging {
            (SliderView { hovered: inside, value_bits: clamp_unit(ratio_bits), ..v }, EventResponse::Consumed)
        } else {
            (SliderView { hovered: inside, ..v }, EventResponse::Ignored)
        },
        UiEvent::MouseDown(_, MouseButton::Left) => if inside {
            (SliderView { dragging: true, value_bits: clamp_unit(ratio_bits), ..v }, EventResponse::Consumed)
        } else {
            (v, EventResponse::Ignored)
        },
        UiEvent::MouseUp(_, MouseButton::Left) => if v.dragging {
            (SliderView { dragging: false, ..v }, EventResponse::Consumed)
        } else {
            (v, EventResponse::Ignored)
        },
        _ => (v, EventResponse::Ignored),
    }
}

/// A value a slider can hold: clamping leaves it as it is.
pub open spec fn is_clamped(b: u32) -> bool {
    clamp_unit(b) == b
}

impl Slider {
    /// The value is one that clamping to [0, 1] leaves as it is.
    pub open spec fn wf(&self) -> bool {
        is_clamped(self@.value_bits)
    }

    /// A slider at 0.0, neither dragged nor hovered.
    pub fn new(label: &str) -> (r: Self)
        ensures
            r.wf(),
            r@ == (SliderView { value_bits: 0, dragging: false, hovered: false, label: label@ }),
    {
        Slider { value_bits: 0, dragging: false, hovered: false, label: String::from_str(label) }
    }

    /// The value, as an `f32` bit pattern.
    pub fn value_bits(&self) -> (r: u32)
        ensures
            r == self@.value_bits,
    {
        self.value_bits
    }

    /// Whether the slider is being dragged.
    pub fn is_dragging(&self) -> (r: bool)
        ensures
            r == self@.dragging,
    {
        self.dragging
    }

    /// Whether the pointer was last seen over the slider.
    pub fn is_hovered(&self) -> (r: bool)
        ensures
            r == self@.hovered,
    {
        self.hovered
    }

    /// The label.
    pub fn label(&self) -> (r: &str)
        ensures
            r@ == self@.label,
    {
        self.label.as_str()
    }

    /// Sets the value, clamped to [0, 1].
    pub fn set_value(&mut self, value_bits: u32)
        requires
            old(self).wf(),
        ensures
            final(self).wf(),
            final(self)@ == (SliderView { value_bits: clamp_unit(value_bits), ..old(self)@ }),
    {
        self.value_bits = clamp_unit_bits(value_bits);
    }

    /// Handles an event; `inside` tells whether its position lies inside the
    /// slider and `ratio_bits` where its x lies across it (see [`slider_step`]).
    pub fn event(&mut self, event: &UiEvent, inside: bool, ratio_bits: u32) -> (r: EventResponse)
        requires
            old(self).wf(),
        ensures
            final(self).wf(),
            (final(self)@, r) == slider_step(old(self)@, *event, inside, ratio_bits),
    {
        match event {
            UiEvent::MouseMove(_) => {
                self.hovered = inside;
                if self.dragging {
                    self.value_bits = clamp_unit_bits(ratio_bits);
                    EventResponse::Consumed
                } else {
                    EventResponse::Ignored
                }
            },
            UiEvent::MouseDown(_, MouseButton::Left) => {
                if inside {
                    self.dragging = true;
                    self.value_bits = clamp_unit_bits(ratio_bits);
                    EventResponse::Consumed
                } else {
                    EventResponse::Ignored
                }
            },
            UiEvent::MouseUp(_, MouseButton::Left) => {
                if self.dragging {
                    self.dragging = false;
                    EventResponse::Consumed
                } else {
                    EventResponse::Ignored
                }
            },
            _ => EventResponse::Ignored,
        }
    }
}

/// Whatever events come, a slider's value stays one that clamping to
/// [0, 1] leaves as it is: between 0.0 and 1.0 unless a NaN or -0.0 was given.
pub proof fn law_slider_value_stays_clamped(v: SliderView, e: UiEvent, inside: bool, ratio_bits: u32)
    requires
        is_clamped(v.value_bits),
    ensures
        is_clamped(slider_step(v, e, inside, ratio_bits).0.value_bits),
{
}

/// The samples a waveform shows: the last `max` of them, or all when there
/// are fewer.
pub open spec fn waveform_window<T>(samples: Seq<T>, max: nat) -> Seq<T> {
    if samples.len() > max {
        samples.skip(samples.len() - max)
    } else {
        samples
    }
}

/// Samples a waveform display keeps.
pub const DISPLAY_SAMPLES: usize = 512;

/// The samples a waveform shows of a block: its last [`DISPLAY_SAMPLES`].
pub fn waveform_samples<T: Copy>(samples: &[T]) -> (r: Vec<T>)
    ensures
        r@ == waveform_window(samples@, DISPLAY_SAMPLES as nat),
{
    let n = samples.len();
    let start: usize = if n > DISPLAY_SAMPLES { n - DISPLAY_SAMPLES } else { 0 };
    let mut r: Vec<T> = Vec::new();
    let mut i: usize = start;
    while i < n
        invariant
            n == samples@.len(),
            start <= i <= n,
            r@ == samples@.subrange(start as int, i as int),
        decreases n - i,
    {
        r.push(samples[i]);
        i = i + 1;
        assert(r@ =~= samples@.subrange(start as int, i as int));
    }
    assert(samples@.subrange(start as int, n as int) =~= waveform_window(samples@, DISPLAY_SAMPLES as nat));
    r
}

} // verus!
