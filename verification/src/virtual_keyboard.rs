//! The on-screen keyboard: its key grid, per-key repeat timers, the shift
//! state that swaps every key's logical value and label, and gamepad
//! navigation over the grid.

use vstd::prelude::*;

use crate::context::{TextEditConfig, TextFocusChanged};
use crate::keyboard::Key;

verus! {

/// Where the virtual keyboard is pinned on screen.
#[derive(Clone, Copy)]
pub enum VirtualKeyboardPos {
    Bottom,
    Top,
}

/// Physical key identity carried by synthetic key events.
#[derive(Clone, Copy)]
pub enum KeyCode {
    Backquote,
    Digit0,
    Digit1,
    Digit2,
    Digit3,
    Digit4,
    Digit5,
    Digit6,
    Digit7,
    Digit8,
    Digit9,
    Minus,
    Equal,
    Backspace,
    KeyA,
    KeyB,
    KeyC,
    KeyD,
    KeyE,
    KeyF,
    KeyG,
    KeyH,
    KeyI,
    KeyJ,
    KeyK,
    KeyL,
    KeyM,
    KeyN,
    KeyO,
    KeyP,
    KeyQ,
    KeyR,
    KeyS,
    KeyT,
    KeyU,
    KeyV,
    KeyW,
    KeyX,
    KeyY,
    KeyZ,
    BracketLeft,
    BracketRight,
    Backslash,
    Delete,
    ShiftLeft,
    Semicolon,
    Quote,
    Enter,
    Space,
    Comma,
    Period,
    Slash,
    ArrowLeft,
    ArrowRight,
}

/// One key of the virtual keyboard: its key code and its two logical
/// values, primary and shifted.
pub struct VirtualKey {
    pub key_code: KeyCode,
    pub logical_key: (Key, Key),
}

impl VirtualKey {
    pub fn new(key_code: KeyCode, logical_key: (Key, Key)) -> (r: VirtualKey)
        ensures
            r.key_code == key_code,
            r.logical_key == logical_key,
    {
        VirtualKey { key_code, logical_key }
    }
}

/// The two labels a virtual key displays: the primary one and the one
/// shown while shift is active.
pub struct VirtualKeyLabel {
    pub main: String,
    pub alt: String,
}

impl VirtualKeyLabel {
    pub fn new(main: &str, alt: &str) -> (r: VirtualKeyLabel)
        ensures
            r.main@ == main@,
            r.alt@ == alt@,
    {
        VirtualKeyLabel { main: main.to_owned(), alt: alt.to_owned() }
    }

    /// The label currently displayed, by the shift state.
    pub fn shown<'a>(&'a self, show_alt: bool) -> (r: &'a String)
        ensures
            r@ == if show_alt {
                self.alt@
            } else {
                self.main@
            },
    {
        if show_alt {
            &self.alt
        } else {
            &self.main
        }
    }
}

/// The shared shift state of the on-screen keyboard: whether every key
/// currently emits and displays its shifted value.
pub struct VirtualKeyboard {
    pub show_alt: bool,
}

/// Raised when the key layout or theme changed and the keyboard has to be
/// rebuilt from its key list.
pub struct VirtualKeyboardChanged;

/// How a repeat timer behaves when it completes.
#[derive(Clone, Copy)]
pub enum RepeatMode {
    Once,
    Repeating,
}

/// The per-key repeat timer: armed on press with the initial delay, then
/// switched to the repeat period on its first completion, paused on
/// release.
#[derive(Clone, Copy)]
pub struct KeyRepeatTimer {
    pub running: bool,
    pub mode: RepeatMode,
    pub duration_ms: u32,
    pub elapsed_ms: u32,
}

impl KeyRepeatTimer {
    /// A fresh timer, paused.
    pub fn paused() -> (t: KeyRepeatTimer)
        ensures
            !t.running,
            t.mode is Once,
            t.duration_ms == 0,
            t.elapsed_ms == 0,
    {
        KeyRepeatTimer { running: false, mode: RepeatMode::Once, duration_ms: 0, elapsed_ms: 0 }
    }
}

/// Whether a timer completes within this tick's delta.
pub open spec fn timer_fires(t: KeyRepeatTimer, delta: int) -> bool {
    t.running && t.elapsed_ms + delta >= t.duration_ms
}

/// A timer after one tick: paused timers rest; one that completes is
/// re-armed as a repeating timer with the configured period; any other
/// accumulates the delta.
pub open spec fn timer_after(t: KeyRepeatTimer, delta: int, repeat_ms: u32) -> KeyRepeatTimer {
    if !t.running {
        t
    } else if timer_fires(t, delta) {
        KeyRepeatTimer {
            running: true,
            mode: RepeatMode::Repeating,
            duration_ms: repeat_ms,
            elapsed_ms: 0,
        }
    } else {
        KeyRepeatTimer { elapsed_ms: (t.elapsed_ms + delta) as u32, ..t }
    }
}

/// The same timer, paused.
pub open spec fn timer_paused(t: KeyRepeatTimer) -> KeyRepeatTimer {
    KeyRepeatTimer { running: false, ..t }
}

/// The grid position a gamepad has selected.
pub struct SelectingKey {
    pub row: usize,
    pub col: usize,
}

/// A synthetic keyboard event raised by the virtual keyboard, shaped like
/// a real one.
pub struct SyntheticKey {
    pub key_code: KeyCode,
    pub logical: Key,
}

/// The event a virtual key raises, under the current shift state.
pub open spec fn synth_of(vk: VirtualKey, show_alt: bool) -> SyntheticKey {
    SyntheticKey {
        key_code: vk.key_code,
        logical: if show_alt {
            vk.logical_key.1
        } else {
            vk.logical_key.0
        },
    }
}

/// List of keys to display on the virtual keyboard, row by row; each entry
/// carries its label, its key, and its width in tenths of the unit key
/// width. This key list can be overridden.
pub struct VirtualKeysList {
    pub keys: Vec<Vec<(VirtualKeyLabel, VirtualKey, u32)>>,
}

/// A copy of a logical key value.
fn key_dup(k: &Key) -> (r: Key)
    ensures
        r == *k,
{
    match k {
        Key::Character(s) => Key::Character(s.clone()),
        Key::Space => Key::Space,
        Key::Backspace => Key::Backspace,
        Key::Delete => Key::Delete,
        Key::Enter => Key::Enter,
        Key::Escape => Key::Escape,
        Key::Shift => Key::Shift,
        Key::ArrowLeft => Key::ArrowLeft,
        Key::ArrowRight => Key::ArrowRight,
        Key::Home => Key::Home,
        Key::End => Key::End,
        Key::Other => Key::Other,
    }
}

/// The whole state of the on-screen keyboard: shift state, key grid, one
/// repeat timer per key, the gamepad selection, and visibility.
pub struct VirtualKeyboardState {
    pub keyboard: VirtualKeyboard,
    pub keys: VirtualKeysList,
    pub timers: Vec<Vec<KeyRepeatTimer>>,
    pub selecting: SelectingKey,
    pub visible: bool,
}

impl VirtualKeyboardState {
    /// The timer grid mirrors the key grid.
    pub open spec fn wf(self) -> bool {
        &&& self.timers@.len() == self.keys.keys@.len()
        &&& forall|r: int|
            0 <= r < self.timers@.len() ==> (#[trigger] self.timers@[r])@.len()
                == self.keys.keys@[r]@.len()
    }

    /// A fresh keyboard over the given key list: shift off, every timer
    /// paused, selection at the top left, hidden.
    pub fn new(keys: VirtualKeysList) -> (r: VirtualKeyboardState)
        ensures
            r.wf(),
            r.keys == keys,
            !r.keyboard.show_alt,
            !r.visible,
            r.selecting.row == 0 && r.selecting.col == 0,
            forall|r2: int, c: int|
                0 <= r2 < r.timers@.len() && 0 <= c < r.timers@[r2]@.len() ==> !(
                #[trigger] r.timers@[r2]@[c]).running,
    {
        let mut timers: Vec<Vec<KeyRepeatTimer>> = Vec::new();
        let mut r2: usize = 0;
        while r2 < keys.keys.len()
            invariant
                r2 <= keys.keys@.len(),
                timers@.len() == r2,
                forall|q: int|
                    0 <= q < r2 ==> (#[trigger] timers@[q])@.len() == keys.keys@[q]@.len(),
                forall|q: int, c: int|
                    0 <= q < r2 && 0 <= c < timers@[q]@.len() ==> !(
                    #[trigger] timers@[q]@[c]).running,
            decreases keys.keys@.len() - r2,
        {
            let mut row: Vec<KeyRepeatTimer> = Vec::new();
            let cols = keys.keys[r2].len();
            let mut c: usize = 0;
            while c < cols
                invariant
                    c <= cols,
                    row@.len() == c,
                    forall|q: int| 0 <= q < c ==> !(#[trigger] row@[q]).running,
                decreases cols - c,
            {
                row.push(KeyRepeatTimer::paused());
                c = c + 1;
            }
            timers.push(row);
            r2 = r2 + 1;
        }
        VirtualKeyboardState {
            keyboard: VirtualKeyboard { show_alt: false },
            keys,
            timers,
            selecting: SelectingKey { row: 0, col: 0 },
            visible: false,
        }
    }

    /// Press one key of the grid. Shift only toggles the shift state and
    /// raises no event; any other key raises its synthetic event at once,
    /// under the shift state, and arms its repeat timer with the initial
    /// delay.
    pub fn press_key(&mut self, row: usize, col: usize, init_timeout_ms: u32) -> (out: Option<
        SyntheticKey,
    >)
        requires
            old(self).wf(),
            row < old(self).keys.keys@.len(),
            col < old(self).keys.keys@[row as int]@.len(),
        ensures
            final(self).wf(),
            final(self).keys == old(self).keys,
            final(self).selecting == old(self).selecting,
            final(self).visible == old(self).visible,
            ({
                let vk = old(self).keys.keys@[row as int]@[col as int].1;
                if vk.logical_key.0 is Shift {
                    &&& out is None
                    &&& final(self).keyboard.show_alt == !old(self).keyboard.show_alt
                    &&& final(self).timers@ == old(self).timers@
                } else {
                    &&& out == Some(synth_of(vk, old(self).keyboard.show_alt))
                    &&& final(self).keyboard == old(self).keyboard
                    &&& final(self).timers@.len() == old(self).timers@.len()
                    &&& forall|q: int|
                        0 <= q < old(self).timers@.len() && q != row as int
                            ==> #[trigger] final(self).timers@[q] == old(self).timers@[q]
                    &&& final(self).timers@[row as int]@ == old(self).timers@[row as int]@.update(
                        col as int,
                        KeyRepeatTimer {
                            running: true,
                            mode: RepeatMode::Once,
                            duration_ms: init_timeout_ms,
                            elapsed_ms: 0,
                        },
                    )
                }
            }),
    {
        let is_shift = match self.keys.keys[row][col].1.logical_key.0 {
            Key::Shift => true,
            _ => false,
        };
        if is_shift {
            self.keyboard.show_alt = !self.keyboard.show_alt;
            None
        } else {
            let key_code = self.keys.keys[row][col].1.key_code;
            let logical = if self.keyboard.show_alt {
                key_dup(&self.keys.keys[row][col].1.logical_key.1)
            } else {
                key_dup(&self.keys.keys[row][col].1.logical_key.0)
            };
            let mut trow = self.timers.remove(row);
            let armed = KeyRepeatTimer {
                running: true,
                mode: RepeatMode::Once,
                duration_ms: init_timeout_ms,
                elapsed_ms: 0,
            };
            trow.remove(col);
            trow.insert(col, armed);
            self.timers.insert(row, trow);
            proof {
                assert(self.timers@[row as int]@ =~= old(self).timers@[row as int]@.update(
                    col as int,
                    KeyRepeatTimer {
                        running: true,
                        mode: RepeatMode::Once,
                        duration_ms: init_timeout_ms,
                        elapsed_ms: 0,
                    },
                ));
            }
            Some(SyntheticKey { key_code, logical })
        }
    }

    /// Release one key: its repeat timer pauses and no further synthetic
    /// events come from it.
    pub fn release_key(&mut self, row: usize, col: usize)
        requires
            old(self).wf(),
            row < old(self).timers@.len(),
            col < old(self).timers@[row as int]@.len(),
        ensures
            final(self).wf(),
            final(self).keys == old(self).keys,
            final(self).keyboard == old(self).keyboard,
            final(self).selecting == old(self).selecting,
            final(self).visible == old(self).visible,
            final(self).timers@.len() == old(self).timers@.len(),
            forall|q: int|
                0 <= q < old(self).timers@.len() && q != row as int
                    ==> #[trigger] final(self).timers@[q] == old(self).timers@[q],
            final(self).timers@[row as int]@ == old(self).timers@[row as int]@.update(
                col as int,
                timer_paused(old(self).timers@[row as int]@[col as int]),
            ),
    {
        let mut trow = self.timers.remove(row);
        let mut t = trow.remove(col);
        t.running = false;
        trow.insert(col, t);
        self.timers.insert(row, trow);
        proof {
            assert(self.timers@[row as int]@ =~= old(self).timers@[row as int]@.update(
                col as int,
                timer_paused(old(self).timers@[row as int]@[col as int]),
            ));
        }
    }

    /// Advance every repeat timer by one tick's delta. Each timer that
    /// completes raises its key's synthetic event, under the current shift
    /// state, and is re-armed as a repeating timer with the given period;
    /// paused timers rest. Events come out in grid order.
    pub fn key_repeat_tick(&mut self, delta_ms: u32, repeat_timeout_ms: u32) -> (out: Vec<
        SyntheticKey,
    >)
        requires
            old(self).wf(),
        ensures
            final(self).wf(),
            final(self).keys == old(self).keys,
            final(self).keyboard == old(self).keyboard,
            final(self).selecting == old(self).selecting,
            final(self).visible == old(self).visible,
            final(self).timers@.len() == old(self).timers@.len(),
            forall|r: int|
                0 <= r < old(self).timers@.len() ==> (#[trigger] final(self).timers@[r])@.len()
                    == old(self).timers@[r]@.len(),
            forall|r: int, c: int|
                0 <= r < old(self).timers@.len() && 0 <= c < old(self).timers@[r]@.len() ==> (
                #[trigger] final(self).timers@[r]@[c]) == timer_after(
                    old(self).timers@[r]@[c],
                    delta_ms as int,
                    repeat_timeout_ms,
                ),
            out@ == grid_fired(
                old(self).keys.keys@,
                old(self).timers@,
                old(self).keyboard.show_alt,
                delta_ms as int,
            ),
    {
        let mut out: Vec<SyntheticKey> = Vec::new();
        let rows = self.timers.len();
        let mut r: usize = 0;
        while r < rows
            invariant
                rows == old(self).timers@.len(),
                r <= rows,
                self.wf(),
                old(self).wf(),
                self.keys == old(self).keys,
                self.keyboard == old(self).keyboard,
                self.selecting == old(self).selecting,
                self.visible == old(self).visible,
                self.timers@.len() == rows,
                forall|q: int| r <= q < rows ==> #[trigger] self.timers@[q] == old(self).timers@[q],
                forall|q: int|
                    0 <= q < r ==> (#[trigger] self.timers@[q])@.len() == old(self).timers@[q]@.len(),
                forall|q: int, c: int|
                    0 <= q < r && 0 <= c < old(self).timers@[q]@.len() ==> (
                    #[trigger] self.timers@[q]@[c]) == timer_after(
                        old(self).timers@[q]@[c],
                        delta_ms as int,
                        repeat_timeout_ms,
                    ),
                out@ == grid_fired(
                    old(self).keys.keys@.take(r as int),
                    old(self).timers@.take(r as int),
                    old(self).keyboard.show_alt,
                    delta_ms as int,
                ),
            decreases rows - r,
        {
            let ghost old_row = old(self).timers@[r as int]@;
            let ghost old_keys_row = old(self).keys.keys@[r as int]@;
            let cols = self.timers[r].len();
            let mut new_row: Vec<KeyRepeatTimer> = Vec::new();
            let mut c: usize = 0;
            while c < cols
                invariant
                    r < rows,
                    rows == old(self).timers@.len(),
                    cols == old_row.len(),
                    c <= cols,
                    self.wf(),
                    old(self).wf(),
                    self.keys == old(self).keys,
                    self.keyboard == old(self).keyboard,
                    self.timers@[r as int] == old(self).timers@[r as int],
                    old_row == old(self).timers@[r as int]@,
                    old_keys_row == old(self).keys.keys@[r as int]@,
                    new_row@.len() == c,
                    forall|q: int|
                        0 <= q < c ==> (#[trigger] new_row@[q]) == timer_after(
                            old_row[q],
                            delta_ms as int,
                            repeat_timeout_ms,
                        ),
                    out@ == grid_fired(
                        old(self).keys.keys@.take(r as int),
                        old(self).timers@.take(r as int),
                        old(self).keyboard.show_alt,
                        delta_ms as int,
                    ) + row_fired(
                        old_keys_row.take(c as int),
                        old_row.take(c as int),
                        old(self).keyboard.show_alt,
                        delta_ms as int,
                    ),
                decreases cols - c,
            {
                let t = self.timers[r][c];
                proof {
                    assert(old_row.take(c as int + 1).drop_last() =~= old_row.take(c as int));
                    assert(old_keys_row.take(c as int + 1).drop_last() =~= old_keys_row.take(
                        c as int,
                    ));
                }
                if t.running {
                    let total: u64 = t.elapsed_ms as u64 + delta_ms as u64;
                    if total >= t.duration_ms as u64 {
                        let vk_code = self.keys.keys[r][c].1.key_code;
                        let logical = if self.keyboard.show_alt {
                            key_dup(&self.keys.keys[r][c].1.logical_key.1)
                        } else {
                            key_dup(&self.keys.keys[r][c].1.logical_key.0)
                        };
                        out.push(SyntheticKey { key_code: vk_code, logical });
                        new_row.push(
                            KeyRepeatTimer {
                                running: true,
                                mode: RepeatMode::Repeating,
                                duration_ms: repeat_timeout_ms,
                                elapsed_ms: 0,
                            },
                        );
                    } else {
                        new_row.push(KeyRepeatTimer { elapsed_ms: total as u32, ..t });
                    }
                } else {
                    new_row.push(t);
                }
                proof {
                    assert(out@ =~= grid_fired(
                        old(self).keys.keys@.take(r as int),
                        old(self).timers@.take(r as int),
                        old(self).keyboard.show_alt,
                        delta_ms as int,
                    ) + row_fired(
                        old_keys_row.take(c as int + 1),
                        old_row.take(c as int + 1),
                        old(self).keyboard.show_alt,
                        delta_ms as int,
                    ));
                }
                c = c + 1;
            }
            self.timers.remove(r);
            self.timers.insert(r, new_row);
            proof {
                assert(old_row.take(cols as int) =~= old_row);
                assert(old_keys_row.take(cols as int) =~= old_keys_row);
                assert(old(self).keys.keys@.take(r as int + 1).drop_last()
                    =~= old(self).keys.keys@.take(r as int));
                assert(old(self).timers@.take(r as int + 1).drop_last() =~= old(self).timers@.take(
                    r as int,
                ));
                assert(old(self).keys.keys@.take(r as int + 1).last()
                    == old(self).keys.keys@[r as int]);
                assert(old(self).timers@.take(r as int + 1).last() == old(self).timers@[r as int]);
                assert(out@ =~= grid_fired(
                    old(self).keys.keys@.take(r as int + 1),
                    old(self).timers@.take(r as int + 1),
                    old(self).keyboard.show_alt,
                    delta_ms as int,
                ));
            }
            r = r + 1;
        }
        proof {
            assert(old(self).keys.keys@.take(rows as int) =~= old(self).keys.keys@);
            assert(old(self).timers@.take(rows as int) =~= old(self).timers@);
        }
        out
    }

    /// React to a focus notification: on Show, become visible when the
    /// configuration enables the virtual keyboard, pinned where the
    /// configuration says or else on the half of the window away from the
    /// focused field; on Hide, disappear and pause every repeat timer.
    pub fn show_keyboard(
        &mut self,
        event: &TextFocusChanged,
        config: &TextEditConfig,
        window_height: i64,
    ) -> (placement: Option<VirtualKeyboardPos>)
        requires
            old(self).wf(),
            window_height >= 0,
        ensures
            final(self).wf(),
            final(self).keys == old(self).keys,
            final(self).keyboard == old(self).keyboard,
            final(self).selecting == old(self).selecting,
            match *event {
                TextFocusChanged::Show(y) => {
                    if config.enable_virtual_keyboard {
                        &&& final(self).visible
                        &&& placement == Some(spec_placement(*config, y as int, window_height as int))
                        &&& final(self).timers@ == old(self).timers@
                    } else {
                        &&& final(self).visible == old(self).visible
                        &&& placement is None
                        &&& final(self).timers@ == old(self).timers@
                    }
                },
                TextFocusChanged::Hide => {
                    &&& !final(self).visible
                    &&& placement is None
                    &&& final(self).timers@.len() == old(self).timers@.len()
                    &&& forall|r: int|
                        0 <= r < old(self).timers@.len() ==> (#[trigger] final(self).timers@[r])@.len()
                            == old(self).timers@[r]@.len()
                    &&& forall|r: int, c: int|
                        0 <= r < old(self).timers@.len() && 0 <= c < old(self).timers@[r]@.len()
                            ==> (#[trigger] final(self).timers@[r]@[c]) == timer_paused(
                            old(self).timers@[r]@[c],
                        )
                },
            },
    {
        match event {
            TextFocusChanged::Show(y) => {
                if config.enable_virtual_keyboard {
                    self.visible = true;
                    let pos = match config.virtual_keyboard_pos {
                        Some(p) => p,
                        None => {
                            if *y >= window_height / 2 {
                                VirtualKeyboardPos::Top
                            } else {
                                VirtualKeyboardPos::Bottom
                            }
                        },
                    };
                    Some(pos)
                } else {
                    None
                }
            },
            TextFocusChanged::Hide => {
                self.visible = false;
                let rows = self.timers.len();
                let mut r: usize = 0;
                while r < rows
                    invariant
                        rows == old(self).timers@.len(),
                        r <= rows,
                        self.wf(),
                        old(self).wf(),
                        self.keys == old(self).keys,
                        self.keyboard == old(self).keyboard,
                        self.selecting == old(self).selecting,
                        self.visible == false,
                        self.timers@.len() == rows,
                        forall|q: int|
                            r <= q < rows ==> #[trigger] self.timers@[q] == old(self).timers@[q],
                        forall|q: int|
                            0 <= q < r ==> (#[trigger] self.timers@[q])@.len() == old(
                                self,
                            ).timers@[q]@.len(),
                        forall|q: int, c: int|
                            0 <= q < r && 0 <= c < old(self).timers@[q]@.len() ==> (
                            #[trigger] self.timers@[q]@[c]) == timer_paused(
                                old(self).timers@[q]@[c],
                            ),
                    decreases rows - r,
                {
                    let cols = self.timers[r].len();
                    let mut new_row: Vec<KeyRepeatTimer> = Vec::new();
                    let mut c: usize = 0;
                    while c < cols
                        invariant
                            r < rows,
                            rows == old(self).timers@.len(),
                            self.timers@.len() == rows,
                            cols == old(self).timers@[r as int]@.len(),
                            c <= cols,
                            self.timers@[r as int] == old(self).timers@[r as int],
                            new_row@.len() == c,
                            forall|q: int|
                                0 <= q < c ==> (#[trigger] new_row@[q]) == timer_paused(
                                    old(self).timers@[r as int]@[q],
                                ),
                        decreases cols - c,
                    {
                        let mut t = self.timers[r][c];
                        t.running = false;
                        new_row.push(t);
                        c = c + 1;
                    }
                    self.timers.remove(r);
                    self.timers.insert(r, new_row);
                    r = r + 1;
                }
                None
            },
        }
    }

    /// Move the gamepad's key selection over the grid: up and left clamp at
    /// the edge, down wraps to the top row, and stepping right past the end
    /// of a row wraps to the start of the next. With an empty grid, or a
    /// selection already outside it, nothing moves.
    pub fn navigate_selection(&mut self, dir: GamepadNav)
        requires
            old(self).wf(),
        ensures
            final(self).wf(),
            final(self).keys == old(self).keys,
            final(self).keyboard == old(self).keyboard,
            final(self).timers == old(self).timers,
            final(self).visible == old(self).visible,
            ({
                let rows = old(self).keys.keys@.len();
                let row = old(self).selecting.row;
                let col = old(self).selecting.col;
                if rows == 0 || row >= rows {
                    final(self).selecting == old(self).selecting
                } else {
                    let cols = old(self).keys.keys@[row as int]@.len();
                    match dir {
                        GamepadNav::Up => {
                            &&& final(self).selecting.row == (if row > 0 {
                                (row - 1) as int
                            } else {
                                0int
                            })
                            &&& final(self).selecting.col == col
                        },
                        GamepadNav::Down => {
                            &&& final(self).selecting.row == (row + 1) as int % (rows as int)
                            &&& final(self).selecting.col == col
                        },
                        GamepadNav::Left => {
                            &&& final(self).selecting.row == row
                            &&& final(self).selecting.col == (if col > 0 {
                                (col - 1) as int
                            } else {
                                0int
                            })
                        },
                        GamepadNav::Right => {
                            if col + 1 >= cols {
                                &&& final(self).selecting.col == 0
                                &&& final(self).selecting.row == (row + 1) as int % (rows as int)
                            } else {
                                &&& final(self).selecting.col == col + 1
                                &&& final(self).selecting.row == row
                            }
                        },
                    }
                }
            }),
    {
        let rows = self.keys.keys.len();
        if rows == 0 || self.selecting.row >= rows {
            return ;
        }
        let cols = self.keys.keys[self.selecting.row].len();
        match dir {
            GamepadNav::Up => {
                if self.selecting.row > 0 {
                    self.selecting.row = self.selecting.row - 1;
                }
            },
            GamepadNav::Down => {
                self.selecting.row = (self.selecting.row + 1) % rows;
            },
            GamepadNav::Left => {
                if self.selecting.col > 0 {
                    self.selecting.col = self.selecting.col - 1;
                }
            },
            GamepadNav::Right => {
                if cols == 0 || self.selecting.col >= cols - 1 {
                    self.selecting.col = 0;
                    self.selecting.row = (self.selecting.row + 1) % rows;
                } else {
                    self.selecting.col = self.selecting.col + 1;
                }
            },
        }
    }

    /// The selected grid position, when it lies inside the grid; the
    /// confirm button presses this key.
    pub fn selected_key(&self) -> (r: Option<(usize, usize)>)
        requires
            self.wf(),
        ensures
            match r {
                Some(rc) => {
                    &&& rc.0 == self.selecting.row
                    &&& rc.1 == self.selecting.col
                    &&& (rc.0 as int) < self.keys.keys@.len()
                    &&& (rc.1 as int) < self.keys.keys@[rc.0 as int]@.len()
                },
                None => self.selecting.row >= self.keys.keys@.len() || self.selecting.col
                    >= self.keys.keys@[self.selecting.row as int]@.len(),
            },
    {
        let row = self.selecting.row;
        if row < self.keys.keys.len() && self.selecting.col < self.keys.keys[row].len() {
            Some((self.selecting.row, self.selecting.col))
        } else {
            None
        }
    }
}

/// A gamepad direction over the virtual key grid.
pub enum GamepadNav {
    Up,
    Down,
    Left,
    Right,
}

/// The synthetic events of one key row whose timers complete this tick,
/// in order.
pub open spec fn row_fired(
    row_keys: Seq<(VirtualKeyLabel, VirtualKey, u32)>,
    row_timers: Seq<KeyRepeatTimer>,
    show_alt: bool,
    delta: int,
) -> Seq<SyntheticKey>
    decreases row_timers.len(),
{
    if row_timers.len() == 0 {
        Seq::empty()
    } else {
        row_fired(row_keys.drop_last(), row_timers.drop_last(), show_alt, delta) + (
        if timer_fires(row_timers.last(), delta) {
            seq![synth_of(row_keys.last().1, show_alt)]
        } else {
            Seq::empty()
        })
    }
}

/// The synthetic events of the whole grid, row by row.
pub open spec fn grid_fired(
    keys: Seq<Vec<(VirtualKeyLabel, VirtualKey, u32)>>,
    timers: Seq<Vec<KeyRepeatTimer>>,
    show_alt: bool,
    delta: int,
) -> Seq<SyntheticKey>
    decreases timers.len(),
{
    if timers.len() == 0 {
        Seq::empty()
    } else {
        grid_fired(keys.drop_last(), timers.drop_last(), show_alt, delta) + row_fired(
            keys.last()@,
            timers.last()@,
            show_alt,
            delta,
        )
    }
}

/// Whether one built key-list entry reflects its description: labels and
/// key code carried over, and a missing logical value typed as the labels'
/// characters, primary and shifted.
pub open spec fn entry_built(
    e: ((&str, &str), KeyCode, Option<(Key, Key)>, u32),
    k: (VirtualKeyLabel, VirtualKey, u32),
) -> bool {
    &&& k.0.main@ == e.0.0@
    &&& k.0.alt@ == e.0.1@
    &&& k.1.key_code == e.1
    &&& k.2 == e.3
    &&& match e.2 {
        Some(l) => k.1.logical_key == l,
        None => {
            &&& k.1.logical_key.0 matches Key::Character(s) && s@ == e.0.0@
            &&& k.1.logical_key.1 matches Key::Character(s) && s@ == e.0.1@
        },
    }
}

impl VirtualKeysList {
    /// Build a key list from rows of label pairs, key codes, optional
    /// logical values and widths in tenths of the unit key width. An entry
    /// without logical values types its labels as characters.
    pub fn from_rows(rows: Vec<Vec<((&str, &str), KeyCode, Option<(Key, Key)>, u32)>>) -> (r:
        VirtualKeysList)
        ensures
            r.keys@.len() == rows@.len(),
            forall|p: int| 0 <= p < rows@.len() ==> (#[trigger] r.keys@[p])@.len() == rows@[p]@.len(),
            forall|p: int, q: int|
                0 <= p < rows@.len() && 0 <= q < rows@[p]@.len() ==> #[trigger] entry_built(
                    rows@[p]@[q],
                    r.keys@[p]@[q],
                ),
    {
        let mut keys: Vec<Vec<(VirtualKeyLabel, VirtualKey, u32)>> = Vec::new();
        let mut i: usize = 0;
        while i < rows.len()
            invariant
                i <= rows@.len(),
                keys@.len() == i,
                forall|p: int| 0 <= p < i ==> (#[trigger] keys@[p])@.len() == rows@[p]@.len(),
                forall|p: int, q: int|
                    0 <= p < i && 0 <= q < rows@[p]@.len() ==> #[trigger] entry_built(
                        rows@[p]@[q],
                        keys@[p]@[q],
                    ),
            decreases rows@.len() - i,
        {
            let mut krow: Vec<(VirtualKeyLabel, VirtualKey, u32)> = Vec::new();
            let cols = rows[i].len();
            let mut j: usize = 0;
            while j < cols
                invariant
                    i < rows@.len(),
                    cols == rows@[i as int]@.len(),
                    j <= cols,
                    krow@.len() == j,
                    forall|q: int|
                        0 <= q < j ==> #[trigger] entry_built(rows@[i as int]@[q], krow@[q]),
                decreases cols - j,
            {
                let label = VirtualKeyLabel::new(rows[i][j].0.0, rows[i][j].0.1);
                let logical = match &rows[i][j].2 {
                    Some(l) => (key_dup(&l.0), key_dup(&l.1)),
                    None => (
                        Key::Character(rows[i][j].0.0.to_owned()),
                        Key::Character(rows[i][j].0.1.to_owned()),
                    ),
                };
                let vk = VirtualKey::new(rows[i][j].1, logical);
                krow.push((label, vk, rows[i][j].3));
                j = j + 1;
            }
            keys.push(krow);
            i = i + 1;
        }
        VirtualKeysList { keys }
    }
}

/// Whether one key of a built list is the described one: both labels, the
/// key code and the width match, and its logical values are the named pair,
/// or — for a plain key — its labels typed as characters.
pub open spec fn layout_entry_is(
    k: (VirtualKeyLabel, VirtualKey, u32),
    main: Seq<char>,
    alt: Seq<char>,
    code: KeyCode,
    named: Option<(Key, Key)>,
    width: u32,
) -> bool {
    &&& k.0.main@ == main
    &&& k.0.alt@ == alt
    &&& k.1.key_code == code
    &&& k.2 == width
    &&& match named {
        Some(l) => k.1.logical_key == l,
        None => {
            &&& k.1.logical_key.0 matches Key::Character(s) && s@ == main
            &&& k.1.logical_key.1 matches Key::Character(s) && s@ == alt
        },
    }
}

/// The standard key layout: a digit row with backspace, two letter rows
/// with delete, shift and enter, and a bottom row with space, punctuation
/// and the arrow keys.
impl Default for VirtualKeysList {
    fn default() -> (r: VirtualKeysList)
        ensures
            r.keys@.len() == 4,
            r.keys@[0]@.len() == 14,
            r.keys@[1]@.len() == 14,
            r.keys@[2]@.len() == 13,
            r.keys@[3]@.len() == 13,
            layout_entry_is(r.keys@[0]@[0], "`"@, "~"@, KeyCode::Backquote, None, 10),
            layout_entry_is(r.keys@[0]@[1], "1"@, "!"@, KeyCode::Digit1, None, 10),
            layout_entry_is(r.keys@[0]@[2], "2"@, "@"@, KeyCode::Digit2, None, 10),
            layout_entry_is(r.keys@[0]@[3], "3"@, "#"@, KeyCode::Digit3, None, 10),
            layout_entry_is(r.keys@[0]@[4], "4"@, "$"@, KeyCode::Digit4, None, 10),
            layout_entry_is(r.keys@[0]@[5], "5"@, "%"@, KeyCode::Digit5, None, 10),
            layout_entry_is(r.keys@[0]@[6], "6"@, "^"@, KeyCode::Digit6, None, 10),
            layout_entry_is(r.keys@[0]@[7], "7"@, "&"@, KeyCode::Digit7, None, 10),
            layout_entry_is(r.keys@[0]@[8], "8"@, "*"@, KeyCode::Digit8, None, 10),
            layout_entry_is(r.keys@[0]@[9], "9"@, "("@, KeyCode::Digit9, None, 10),
            layout_entry_is(r.keys@[0]@[10], "0"@, ")"@, KeyCode::Digit0, None, 10),
            layout_entry_is(r.keys@[0]@[11], "-"@, "_"@, KeyCode::Minus, None, 10),
            layout_entry_is(r.keys@[0]@[12], "="@, "+"@, KeyCode::Equal, None, 10),
            layout_entry_is(r.keys@[0]@[13], "Backspace"@, "BACKSPACE"@, KeyCode::Backspace, Some((Key::Backspace, Key::Backspace)), 20),
            layout_entry_is(r.keys@[1]@[0], "q"@, "Q"@, KeyCode::KeyQ, None, 10),
            layout_entry_is(r.keys@[1]@[1], "w"@, "W"@, KeyCode::KeyW, None, 10),
            layout_entry_is(r.keys@[1]@[2], "e"@, "E"@, KeyCode::KeyE, None, 10),
            layout_entry_is(r.keys@[1]@[3], "r"@, "R"@, KeyCode::KeyR, None, 10),
            layout_entry_is(r.keys@[1]@[4], "t"@, "T"@, KeyCode::KeyT, None, 10),
            layout_entry_is(r.keys@[1]@[5], "y"@, "Y"@, KeyCode::KeyY, None, 10),
            layout_entry_is(r.keys@[1]@[6], "u"@, "U"@, KeyCode::KeyU, None, 10),
            layout_entry_is(r.keys@[1]@[7], "i"@, "I"@, KeyCode::KeyI, None, 10),
            layout_entry_is(r.keys@[1]@[8], "o"@, "O"@, KeyCode::KeyO, None, 10),
            layout_entry_is(r.keys@[1]@[9], "p"@, "P"@, KeyCode::KeyP, None, 10),
            layout_entry_is(r.keys@[1]@[10], "["@, "{"@, KeyCode::BracketLeft, None, 10),
            layout_entry_is(r.keys@[1]@[11], "]"@, "}"@, KeyCode::BracketRight, None, 10),
            layout_entry_is(r.keys@[1]@[12], "\\"@, "|"@, KeyCode::Backslash, None, 10),
            layout_entry_is(r.keys@[1]@[13], "Del"@, "DEL"@, KeyCode::Delete, Some((Key::Delete, Key::Delete)), 10),
            layout_entry_is(r.keys@[2]@[0], "Shift"@, "SHIFT"@, KeyCode::ShiftLeft, Some((Key::Shift, Key::Shift)), 15),
            layout_entry_is(r.keys@[2]@[1], "a"@, "A"@, KeyCode::KeyA, None, 10),
            layout_entry_is(r.keys@[2]@[2], "s"@, "S"@, KeyCode::KeyS, None, 10),
            layout_entry_is(r.keys@[2]@[3], "d"@, "D"@, KeyCode::KeyD, None, 10),
            layout_entry_is(r.keys@[2]@[4], "f"@, "F"@, KeyCode::KeyF, None, 10),
            layout_entry_is(r.keys@[2]@[5], "g"@, "G"@, KeyCode::KeyG, None, 10),
            layout_entry_is(r.keys@[2]@[6], "h"@, "H"@, KeyCode::KeyH, None, 10),
            layout_entry_is(r.keys@[2]@[7], "j"@, "J"@, KeyCode::KeyJ, None, 10),
            layout_entry_is(r.keys@[2]@[8], "k"@, "K"@, KeyCode::KeyK, None, 10),
            layout_entry_is(r.keys@[2]@[9], "l"@, "L"@, KeyCode::KeyL, None, 10),
            layout_entry_is(r.keys@[2]@[10], ";"@, ":"@, KeyCode::Semicolon, None, 10),
            layout_entry_is(r.keys@[2]@[11], "'"@, "\""@, KeyCode::Quote, None, 10),
            layout_entry_is(r.keys@[2]@[12], "Enter"@, "ENTER"@, KeyCode::Enter, Some((Key::Enter, Key::Enter)), 15),
            layout_entry_is(r.keys@[3]@[0], "z"@, "Z"@, KeyCode::KeyZ, None, 10),
            layout_entry_is(r.keys@[3]@[1], "x"@, "X"@, KeyCode::KeyX, None, 10),
            layout_entry_is(r.keys@[3]@[2], "c"@, "C"@, KeyCode::KeyC, None, 10),
            layout_entry_is(r.keys@[3]@[3], "v"@, "V"@, KeyCode::KeyV, None, 10),
            layout_entry_is(r.keys@[3]@[4], "Space"@, "SPACE"@, KeyCode::Space, Some((Key::Space, Key::Space)), 25),
            layout_entry_is(r.keys@[3]@[5], "b"@, "B"@, KeyCode::KeyB, None, 10),
            layout_entry_is(r.keys@[3]@[6], "n"@, "N"@, KeyCode::KeyN, None, 10),
            layout_entry_is(r.keys@[3]@[7], "m"@, "M"@, KeyCode::KeyM, None, 10),
            layout_entry_is(r.keys@[3]@[8], ","@, "<"@, KeyCode::Comma, None, 10),
            layout_entry_is(r.keys@[3]@[9], "."@, ">"@, KeyCode::Period, None, 10),
            layout_entry_is(r.keys@[3]@[10], "/"@, "?"@, KeyCode::Slash, None, 10),
            layout_entry_is(r.keys@[3]@[11], "<="@, "<="@, KeyCode::ArrowLeft, Some((Key::ArrowLeft, Key::ArrowLeft)), 10),
            layout_entry_is(r.keys@[3]@[12], "=>"@, "=>"@, KeyCode::ArrowRight, Some((Key::ArrowRight, Key::ArrowRight)), 10),
    {
        let mut row1: Vec<((&str, &str), KeyCode, Option<(Key, Key)>, u32)> = Vec::new();
        row1.push((("`", "~"), KeyCode::Backquote, None, 10));
        row1.push((("1", "!"), KeyCode::Digit1, None, 10));
        row1.push((("2", "@"), KeyCode::Digit2, None, 10));
        row1.push((("3", "#"), KeyCode::Digit3, None, 10));
        row1.push((("4", "$"), KeyCode::Digit4, None, 10));
        row1.push((("5", "%"), KeyCode::Digit5, None, 10));
        row1.push((("6", "^"), KeyCode::Digit6, None, 10));
        row1.push((("7", "&"), KeyCode::Digit7, None, 10));
        row1.push((("8", "*"), KeyCode::Digit8, None, 10));
        row1.push((("9", "("), KeyCode::Digit9, None, 10));
        row1.push((("0", ")"), KeyCode::Digit0, None, 10));
        row1.push((("-", "_"), KeyCode::Minus, None, 10));
        row1.push((("=", "+"), KeyCode::Equal, None, 10));
        row1.push((("Backspace", "BACKSPACE"), KeyCode::Backspace, Some((Key::Backspace, Key::Backspace)), 20));
        let mut row2: Vec<((&str, &str), KeyCode, Option<(Key, Key)>, u32)> = Vec::new();
        row2.push((("q", "Q"), KeyCode::KeyQ, None, 10));
        row2.push((("w", "W"), KeyCode::KeyW, None, 10));
        row2.push((("e", "E"), KeyCode::KeyE, None, 10));
        row2.push((("r", "R"), KeyCode::KeyR, None, 10));
        row2.push((("t", "T"), KeyCode::KeyT, None, 10));
        row2.push((("y", "Y"), KeyCode::KeyY, None, 10));
        row2.push((("u", "U"), KeyCode::KeyU, None, 10));
        row2.push((("i", "I"), KeyCode::KeyI, None, 10));
        row2.push((("o", "O"), KeyCode::KeyO, None, 10));
        row2.push((("p", "P"), KeyCode::KeyP, None, 10));
        row2.push((("[", "{"), KeyCode::BracketLeft, None, 10));
        row2.push((("]", "}"), KeyCode::BracketRight, None, 10));
        row2.push((("\\", "|"), KeyCode::Backslash, None, 10));
        row2.push((("Del", "DEL"), KeyCode::Delete, Some((Key::Delete, Key::Delete)), 10));
        let mut row3: Vec<((&str, &str), KeyCode, Option<(Key, Key)>, u32)> = Vec::new();
        row3.push((("Shift", "SHIFT"), KeyCode::ShiftLeft, Some((Key::Shift, Key::Shift)), 15));
        row3.push((("a", "A"), KeyCode::KeyA, None, 10));
        row3.push((("s", "S"), KeyCode::KeyS, None, 10));
        row3.push((("d", "D"), KeyCode::KeyD, None, 10));
        row3.push((("f", "F"), KeyCode::KeyF, None, 10));
        row3.push((("g", "G"), KeyCode::KeyG, None, 10));
        row3.push((("h", "H"), KeyCode::KeyH, None, 10));
        row3.push((("j", "J"), KeyCode::KeyJ, None, 10));
        row3.push((("k", "K"), KeyCode::KeyK, None, 10));
        row3.push((("l", "L"), KeyCode::KeyL, None, 10));
        row3.push(((";", ":"), KeyCode::Semicolon, None, 10));
        row3.push((("'", "\""), KeyCode::Quote, None, 10));
        row3.push((("Enter", "ENTER"), KeyCode::Enter, Some((Key::Enter, Key::Enter)), 15));
        let mut row4: Vec<((&str, &str), KeyCode, Option<(Key, Key)>, u32)> = Vec::new();
        row4.push((("z", "Z"), KeyCode::KeyZ, None, 10));
        row4.push((("x", "X"), KeyCode::KeyX, None, 10));
        row4.push((("c", "C"), KeyCode::KeyC, None, 10));
        row4.push((("v", "V"), KeyCode::KeyV, None, 10));
        row4.push((("Space", "SPACE"), KeyCode::Space, Some((Key::Space, Key::Space)), 25));
        row4.push((("b", "B"), KeyCode::KeyB, None, 10));
        row4.push((("n", "N"), KeyCode::KeyN, None, 10));
        row4.push((("m", "M"), KeyCode::KeyM, None, 10));
        row4.push(((",", "<"), KeyCode::Comma, None, 10));
        row4.push(((".", ">"), KeyCode::Period, None, 10));
        row4.push((("/", "?"), KeyCode::Slash, None, 10));
        row4.push((("<=", "<="), KeyCode::ArrowLeft, Some((Key::ArrowLeft, Key::ArrowLeft)), 10));
        row4.push((("=>", "=>"), KeyCode::ArrowRight, Some((Key::ArrowRight, Key::ArrowRight)), 10));
        let mut rows: Vec<Vec<((&str, &str), KeyCode, Option<(Key, Key)>, u32)>> = Vec::new();
        rows.push(row1);
        rows.push(row2);
        rows.push(row3);
        rows.push(row4);
        let r = VirtualKeysList::from_rows(rows);
        proof {
            assert(entry_built(rows@[0]@[0], r.keys@[0]@[0]));
            assert(entry_built(rows@[0]@[1], r.keys@[0]@[1]));
            assert(entry_built(rows@[0]@[2], r.keys@[0]@[2]));
            assert(entry_built(rows@[0]@[3], r.keys@[0]@[3]));
            assert(entry_built(rows@[0]@[4], r.keys@[0]@[4]));
            assert(entry_built(rows@[0]@[5], r.keys@[0]@[5]));
            assert(entry_built(rows@[0]@[6], r.keys@[0]@[6]));
            assert(entry_built(rows@[0]@[7], r.keys@[0]@[7]));
            assert(entry_built(rows@[0]@[8], r.keys@[0]@[8]));
            assert(entry_built(rows@[0]@[9], r.keys@[0]@[9]));
            assert(entry_built(rows@[0]@[10], r.keys@[0]@[10]));
            assert(entry_built(rows@[0]@[11], r.keys@[0]@[11]));
            assert(entry_built(rows@[0]@[12], r.keys@[0]@[12]));
            assert(entry_built(rows@[0]@[13], r.keys@[0]@[13]));
            assert(entry_built(rows@[1]@[0], r.keys@[1]@[0]));
            assert(entry_built(rows@[1]@[1], r.keys@[1]@[1]));
            assert(entry_built(rows@[1]@[2], r.keys@[1]@[2]));
            assert(entry_built(rows@[1]@[3], r.keys@[1]@[3]));
            assert(entry_built(rows@[1]@[4], r.keys@[1]@[4]));
            assert(entry_built(rows@[1]@[5], r.keys@[1]@[5]));
            assert(entry_built(rows@[1]@[6], r.keys@[1]@[6]));
            assert(entry_built(rows@[1]@[7], r.keys@[1]@[7]));
            assert(entry_built(rows@[1]@[8], r.keys@[1]@[8]));
            assert(entry_built(rows@[1]@[9], r.keys@[1]@[9]));
            assert(entry_built(rows@[1]@[10], r.keys@[1]@[10]));
            assert(entry_built(rows@[1]@[11], r.keys@[1]@[11]));
            assert(entry_built(rows@[1]@[12], r.keys@[1]@[12]));
            assert(entry_built(rows@[1]@[13], r.keys@[1]@[13]));
            assert(entry_built(rows@[2]@[0], r.keys@[2]@[0]));
            assert(entry_built(rows@[2]@[1], r.keys@[2]@[1]));
            assert(entry_built(rows@[2]@[2], r.keys@[2]@[2]));
            assert(entry_built(rows@[2]@[3], r.keys@[2]@[3]));
            assert(entry_built(rows@[2]@[4], r.keys@[2]@[4]));
            assert(entry_built(rows@[2]@[5], r.keys@[2]@[5]));
            assert(entry_built(rows@[2]@[6], r.keys@[2]@[6]));
            assert(entry_built(rows@[2]@[7], r.keys@[2]@[7]));
            assert(entry_built(rows@[2]@[8], r.keys@[2]@[8]));
            assert(entry_built(rows@[2]@[9], r.keys@[2]@[9]));
            assert(entry_built(rows@[2]@[10], r.keys@[2]@[10]));
            assert(entry_built(rows@[2]@[11], r.keys@[2]@[11]));
            assert(entry_built(rows@[2]@[12], r.keys@[2]@[12]));
            assert(entry_built(rows@[3]@[0], r.keys@[3]@[0]));
            assert(entry_built(rows@[3]@[1], r.keys@[3]@[1]));
            assert(entry_built(rows@[3]@[2], r.keys@[3]@[2]));
            assert(entry_built(rows@[3]@[3], r.keys@[3]@[3]));
            assert(entry_built(rows@[3]@[4], r.keys@[3]@[4]));
            assert(entry_built(rows@[3]@[5], r.keys@[3]@[5]));
            assert(entry_built(rows@[3]@[6], r.keys@[3]@[6]));
            assert(entry_built(rows@[3]@[7], r.keys@[3]@[7]));
            assert(entry_built(rows@[3]@[8], r.keys@[3]@[8]));
            assert(entry_built(rows@[3]@[9], r.keys@[3]@[9]));
            assert(entry_built(rows@[3]@[10], r.keys@[3]@[10]));
            assert(entry_built(rows@[3]@[11], r.keys@[3]@[11]));
            assert(entry_built(rows@[3]@[12], r.keys@[3]@[12]));
        }
        r
    }
}

/// Where the keyboard is shown for a focus at `anchor_y`: the configured
/// fixed position, or else the half of the window away from the field.
pub open spec fn spec_placement(
    config: TextEditConfig,
    anchor_y: int,
    window_height: int,
) -> VirtualKeyboardPos {
    match config.virtual_keyboard_pos {
        Some(p) => p,
        None => {
            if anchor_y >= window_height / 2 {
                VirtualKeyboardPos::Top
            } else {
                VirtualKeyboardPos::Bottom
            }
        },
    }
}

} // verus!
