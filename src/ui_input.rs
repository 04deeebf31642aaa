//! Keyboard input: key events, modifier state and a bounded listener queue,
//! plus the pointer-side enums and mouse button state.
use vstd::prelude::*;
use std::collections::VecDeque;

verus! {

/// Timestamp in nanoseconds.
pub type Timestamp = i64;

/// Identifier of an input interaction.
#[derive(Debug, Clone, Copy, PartialEq, Eq, Structural, Hash)]
pub struct InteractionId(pub u64);

/// What a key means.
#[derive(Debug, Clone, Copy, PartialEq, Eq, Structural)]
pub enum KeyMeaning {
    NonPrintable(NonPrintableKey),
    Codepoint(u32),
}

/// Keys without a printable meaning.
#[derive(Debug, Clone, Copy, PartialEq, Eq, Structural)]
pub enum NonPrintableKey {
    Unidentified,
    Alt,
    AltGraph,
    CapsLock,
    Control,
    Enter,
    Fn,
    FnLock,
    Meta,
    NumLock,
    ScrollLock,
    Shift,
    Symbol,
    SymbolLock,
    Hyper,
    Super,
    ArrowDown,
    ArrowLeft,
    ArrowRight,
    ArrowUp,
    End,
    Home,
    PageDown,
    PageUp,
    Backspace,
    Delete,
    Insert,
    Cancel,
    Escape,
    Execute,
    F1,
    F2,
    F3,
    F4,
    F5,
    F6,
    F7,
    F8,
    F9,
    F10,
    F11,
    F12,
    PrintScreen,
    Tab,
    ContextMenu,
}

/// Kind of key event.
#[derive(Debug, Clone, Copy, PartialEq, Eq, Structural)]
pub enum KeyEventType {
    Pressed,
    Released,
    Cancel,
    Sync,
}

/// A physical key, by USB HID usage.
#[derive(Debug, Clone, Copy, PartialEq, Eq, Structural)]
pub struct Key(pub u32);

/// HID usages of common keys.
pub const KEY_A: u32 = 0x00070004;
pub const KEY_B: u32 = 0x00070005;
pub const KEY_C: u32 = 0x00070006;
pub const KEY_SPACE: u32 = 0x0007002c;
pub const KEY_ENTER: u32 = 0x00070028;
pub const KEY_ESCAPE: u32 = 0x00070029;
pub const KEY_BACKSPACE: u32 = 0x0007002a;
pub const KEY_TAB: u32 = 0x0007002b;
pub const KEY_LEFT_CTRL: u32 = 0x000700e0;
pub const KEY_LEFT_SHIFT: u32 = 0x000700e1;
pub const KEY_LEFT_ALT: u32 = 0x000700e2;
pub const KEY_LEFT_META: u32 = 0x000700e3;
pub const KEY_RIGHT_CTRL: u32 = 0x000700e4;
pub const KEY_RIGHT_SHIFT: u32 = 0x000700e5;
pub const KEY_RIGHT_ALT: u32 = 0x000700e6;
pub const KEY_RIGHT_META: u32 = 0x000700e7;

/// The eight modifier keys: left and right Ctrl, Shift, Alt and Meta
/// (HID usages 0x000700e0 to 0x000700e7).
pub open spec fn is_modifier(k: Key) -> bool {
    0x000700e0 <= k.0 <= 0x000700e7
}

/// Modifier and lock state.
#[derive(Debug, Clone, Copy, PartialEq, Eq, Structural)]
pub struct Modifiers {
    pub caps_lock: bool,
    pub num_lock: bool,
    pub scroll_lock: bool,
    pub function: bool,
    pub symbol: bool,
    pub shift: bool,
    pub alt: bool,
    pub alt_graph: bool,
    pub meta: bool,
    pub ctrl: bool,
}

/// No modifier or lock set.
pub open spec fn no_modifiers() -> Modifiers {
    Modifiers {
        caps_lock: false,
        num_lock: false,
        scroll_lock: false,
        function: false,
        symbol: false,
        shift: false,
        alt: false,
        alt_graph: false,
        meta: false,
        ctrl: false,
    }
}

/// Bit encoding of modifiers: caps lock 0, num lock 1, scroll lock 2,
/// shift 5, alt 6, meta 7, ctrl 8.
pub open spec fn modifier_bits(m: Modifiers) -> u32 {
    ((if m.caps_lock { 1int } else { 0int }) + (if m.num_lock { 2int } else { 0int }) + (if m.scroll_lock {
        4int
    } else {
        0int
    }) + (if m.shift { 0x20int } else { 0int }) + (if m.alt { 0x40int } else { 0int }) + (if m.meta {
        0x80int
    } else {
        0int
    }) + (if m.ctrl { 0x100int } else { 0int })) as u32
}

impl Default for Modifiers {
    fn default() -> (r: Self)
        ensures
            r == no_modifiers(),
    {
        Modifiers {
            caps_lock: false,
            num_lock: false,
            scroll_lock: false,
            function: false,
            symbol: false,
            shift: false,
            alt: false,
            alt_graph: false,
            meta: false,
            ctrl: false,
        }
    }
}

impl Modifiers {
    /// Whether none of shift, alt, meta and ctrl is held.
    pub fn is_none(&self) -> (r: bool)
        ensures
            r == (!self.shift && !self.alt && !self.meta && !self.ctrl),
    {
        !self.shift && !self.alt && !self.meta && !self.ctrl
    }

    /// The bit encoding of these modifiers.
    pub fn to_bits(&self) -> (r: u32)
        ensures
            r == modifier_bits(*self),
    {
        let mut bits: u32 = 0;
        if self.caps_lock {
            bits = bits + 1;
        }
        if self.num_lock {
            bits = bits + 2;
        }
        if self.scroll_lock {
            bits = bits + 4;
        }
        if self.shift {
            bits = bits + 0x20;
        }
        if self.alt {
            bits = bits + 0x40;
        }
        if self.meta {
            bits = bits + 0x80;
        }
        if self.ctrl {
            bits = bits + 0x100;
        }
        bits
    }
}

/// A key event.
#[derive(Debug, Clone, Copy, PartialEq, Eq, Structural)]
pub struct KeyEvent {
    pub timestamp: Timestamp,
    pub event_type: KeyEventType,
    pub key: Option<Key>,
    pub key_meaning: Option<KeyMeaning>,
    pub modifiers: Modifiers,
    pub repeat_sequence: u32,
    pub lock_state: Modifiers,
}

impl KeyEvent {
    /// An event of `event_type` for `key`, at time 0, without meaning or modifiers.
    pub fn new(event_type: KeyEventType, key: Key) -> (r: Self)
        ensures
            r == (KeyEvent {
                timestamp: 0,
                event_type,
                key: Some(key),
                key_meaning: None,
                modifiers: no_modifiers(),
                repeat_sequence: 0,
                lock_state: no_modifiers(),
            }),
    {
        KeyEvent {
            timestamp: 0,
            event_type,
            key: Some(key),
            key_meaning: None,
            modifiers: Modifiers::default(),
            repeat_sequence: 0,
            lock_state: Modifiers::default(),
        }
    }

    /// Whether this is a key press.
    pub fn is_pressed(&self) -> (r: bool)
        ensures
            r == (self.event_type == KeyEventType::Pressed),
    {
        self.event_type == KeyEventType::Pressed
    }

    /// Whether the key is one of the eight modifier keys.
    pub fn is_modifier_key(&self) -> (r: bool)
        ensures
            r == (self.key matches Some(k) && is_modifier(k)),
    {
        match self.key {
            Some(key) => 0x000700e0 <= key.0 && key.0 <= 0x000700e7,
            None => false,
        }
    }
}

/// Modifier state after `e`: a modifier key's flag follows whether it was
/// pressed; other events leave the state alone.
pub open spec fn modifiers_after(m: Modifiers, e: KeyEvent) -> Modifiers {
    let pressed = e.event_type == KeyEventType::Pressed;
    match e.key {
        Some(k) => if k == Key(KEY_LEFT_CTRL) || k == Key(KEY_RIGHT_CTRL) {
            Modifiers { ctrl: pressed, ..m }
        } else if k == Key(KEY_LEFT_SHIFT) || k == Key(KEY_RIGHT_SHIFT) {
            Modifiers { shift: pressed, ..m }
        } else if k == Key(KEY_LEFT_ALT) || k == Key(KEY_RIGHT_ALT) {
            Modifiers { alt: pressed, ..m }
        } else if k == Key(KEY_LEFT_META) || k == Key(KEY_RIGHT_META) {
            Modifiers { meta: pressed, ..m }
        } else {
            m
        },
        None => m,
    }
}

/// Queue contents after pushing `e` into a queue bounded by `max`.
pub open spec fn queue_after_push(q: Seq<KeyEvent>, max: usize, e: KeyEvent) -> Seq<KeyEvent> {
    if q.len() >= max && q.len() > 0 {
        q.drop_first().push(e)
    } else {
        q.push(e)
    }
}

/// Key event queue with modifier tracking; holds at most 256 events and
/// drops the oldest when full.
pub struct KeyboardListener {
    events: VecDeque<KeyEvent>,
    modifiers: Modifiers,
    max_queue_size: usize,
}

impl KeyboardListener {
    pub closed spec fn spec_events(&self) -> Seq<KeyEvent> {
        self.events@
    }

    pub closed spec fn spec_modifiers(&self) -> Modifiers {
        self.modifiers
    }

    pub closed spec fn capacity(&self) -> usize {
        self.max_queue_size
    }

    /// An empty listener with no modifiers held.
    pub fn new() -> (r: Self)
        ensures
            r.spec_events() == Seq::<KeyEvent>::empty(),
            r.spec_modifiers() == no_modifiers(),
            r.capacity() == 256,
    {
        KeyboardListener { events: VecDeque::with_capacity(64), modifiers: Modifiers::default(), max_queue_size: 256 }
    }

    /// Record an event: update the modifier state, then queue it.
    pub fn push_event(&mut self, event: KeyEvent)
        ensures
            final(self).spec_modifiers() == modifiers_after(old(self).spec_modifiers(), event),
            final(self).spec_events() == queue_after_push(old(self).spec_events(), old(self).capacity(), event),
            final(self).capacity() == old(self).capacity(),
    {
        self.update_modifiers(&event);
        if self.events.len() >= self.max_queue_size {
            let _ = self.events.pop_front();
        }
        self.events.push_back(event);
    }

    fn update_modifiers(&mut self, event: &KeyEvent)
        ensures
            final(self).spec_modifiers() == modifiers_after(old(self).spec_modifiers(), *event),
            final(self).spec_events() == old(self).spec_events(),
            final(self).capacity() == old(self).capacity(),
    {
        let pressed = event.is_pressed();
        if let Some(key) = event.key {
            if key == Key(KEY_LEFT_CTRL) || key == Key(KEY_RIGHT_CTRL) {
                self.modifiers.ctrl = pressed;
            } else if key == Key(KEY_LEFT_SHIFT) || key == Key(KEY_RIGHT_SHIFT) {
                self.modifiers.shift = pressed;
            } else if key == Key(KEY_LEFT_ALT) || key == Key(KEY_RIGHT_ALT) {
                self.modifiers.alt = pressed;
            } else if key == Key(KEY_LEFT_META) || key == Key(KEY_RIGHT_META) {
                self.modifiers.meta = pressed;
            }
        }
    }

    /// Remove and return the oldest event.
    pub fn pop_event(&mut self) -> (r: Option<KeyEvent>)
        ensures
            old(self).spec_events().len() == 0 ==> r is None && final(self).spec_events() == old(self).spec_events(),
            old(self).spec_events().len() > 0 ==> r == Some(old(self).spec_events()[0])
                && final(self).spec_events() == old(self).spec_events().drop_first(),
            final(self).spec_modifiers() == old(self).spec_modifiers(),
            final(self).capacity() == old(self).capacity(),
    {
        self.events.pop_front()
    }

    /// The current modifier state.
    pub fn get_modifiers(&self) -> (r: Modifiers)
        ensures
            r == self.spec_modifiers(),
    {
        self.modifiers
    }

    /// Number of queued events.
    pub fn pending_count(&self) -> (r: usize)
        ensures
            r == self.spec_events().len(),
    {
        self.events.len()
    }
}

impl Default for KeyboardListener {
    fn default() -> (r: Self)
        ensures
            r.spec_events() == Seq::<KeyEvent>::empty(),
            r.spec_modifiers() == no_modifiers(),
            r.capacity() == 256,
    {
        KeyboardListener::new()
    }
}

/// Whether a touch interaction was granted to this view.
#[derive(Debug, Clone, Copy, PartialEq, Eq, Structural)]
pub enum TouchInteractionStatus {
    Denied,
    Granted,
}

/// The outcome of a touch interaction.
#[derive(Debug, Clone, Copy, PartialEq, Eq, Structural)]
pub struct TouchInteractionResult {
    pub interaction_id: InteractionId,
    pub status: TouchInteractionStatus,
}

/// Phase of a touch contact.
#[derive(Debug, Clone, Copy, PartialEq, Eq, Structural)]
pub enum TouchPhase {
    /// Finger touched
    Add,
    /// Finger moved
    Change,
    /// Finger lifted
    Remove,
    /// Touch cancelled
    Cancel,
}

/// How a view responds to a touch interaction.
#[derive(Debug, Clone, Copy, PartialEq, Eq, Structural)]
pub struct TouchResponse {
    pub response_type: Option<TouchResponseType>,
    pub trace_flow_id: u64,
}

/// Kinds of touch response.
#[derive(Debug, Clone, Copy, PartialEq, Eq, Structural)]
pub enum TouchResponseType {
    Yes,
    YesPrioritize,
    Maybe,
    MaybePrioritize,
    MaybeSuppress,
    MaybePrioritizeSuppress,
    Hold,
    HoldSuppress,
    No,
}

/// Mouse button state.
#[derive(Debug, Clone, Copy, PartialEq, Eq, Structural)]
pub struct MouseButtons {
    /// Left
    pub primary: bool,
    /// Right
    pub secondary: bool,
    /// Middle
    pub tertiary: bool,
}

impl MouseButtons {
    /// Whether any button is held.
    pub fn any_pressed(&self) -> (r: bool)
        ensures
            r == (self.primary || self.secondary || self.tertiary),
    {
        self.primary || self.secondary || self.tertiary
    }

    /// Bit encoding: primary 1, secondary 2, tertiary 4.
    pub fn to_bits(&self) -> (r: u32)
        ensures
            r == (if self.primary { 1u32 } else { 0u32 }) + (if self.secondary { 2u32 } else { 0u32 }) + (
            if self.tertiary {
                4u32
            } else {
                0u32
            }),
    {
        let mut bits: u32 = 0;
        if self.primary {
            bits = bits + 1;
        }
        if self.secondary {
            bits = bits + 2;
        }
        if self.tertiary {
            bits = bits + 4;
        }
        bits
    }
}

/// Phase of a mouse event.
#[derive(Debug, Clone, Copy, PartialEq, Eq, Structural)]
pub enum MousePhase {
    Move,
    Down,
    Up,
    Wheel,
    Cancel,
}

/// Whether the pointer is over the view.
#[derive(Debug, Clone, Copy, PartialEq, Eq, Structural)]
pub enum MouseViewStatus {
    Entered,
    Exited,
}

} // verus!
