//! The process-wide editor state: the arena of editable fields, the focus
//! owner, the shared blink timer, and the configuration surface.

use vstd::prelude::*;

use crate::field::TextField;
use crate::virtual_keyboard::VirtualKeyboardPos;

verus! {

/// Recognized configuration options.
pub struct TextEditConfig {
    pub enable_virtual_keyboard: bool,
    /// Fixed position of the virtual keyboard; `None` picks a side from the
    /// focused field's anchor.
    pub virtual_keyboard_pos: Option<VirtualKeyboardPos>,
    /// Blink the text cursor.
    pub blink: bool,
    /// Placeholder text alpha, in thousandths.
    pub placeholder_alpha_permille: u16,
    /// Wait before a held virtual key starts repeating, in milliseconds.
    pub repeated_key_init_timeout_ms: u32,
    /// Period of a repeating virtual key, in milliseconds.
    pub repeated_key_timeout_ms: u32,
}

impl TextEditConfig {
    pub fn new() -> (r: TextEditConfig)
        ensures
            !r.enable_virtual_keyboard,
            r.virtual_keyboard_pos is None,
            !r.blink,
            r.placeholder_alpha_permille == 200,
            r.repeated_key_init_timeout_ms == 500,
            r.repeated_key_timeout_ms == 50,
    {
        TextEditConfig {
            enable_virtual_keyboard: false,
            virtual_keyboard_pos: None,
            blink: false,
            placeholder_alpha_permille: 200,
            repeated_key_init_timeout_ms: 500,
            repeated_key_timeout_ms: 50,
        }
    }
}

/// The character shown as the text cursor unless configured otherwise.
pub const DEFAULT_CURSOR: char = '|';

/// Period of the shared cursor blink timer, in milliseconds.
pub const BLINK_INTERVAL_MS: u32 = 500;

/// The character displayed as the text cursor.
pub struct DisplayTextCursor(pub char);

/// The shared cursor blink timer: one visual phase for the whole UI.
pub struct BlinkInterval {
    pub period_ms: u32,
    pub elapsed_ms: u32,
}

impl BlinkInterval {
    pub fn new(period_ms: u32) -> (r: BlinkInterval)
        requires
            period_ms > 0,
        ensures
            r.period_ms == period_ms,
            r.elapsed_ms == 0,
    {
        BlinkInterval { period_ms, elapsed_ms: 0 }
    }
}

/// Published once each time a field loses focus, carrying its final text
/// with the cursor glyph stripped and placeholder text excluded.
pub struct TextEdited {
    pub text: String,
    pub field: usize,
}

/// Tells a virtual-keyboard presenter to show itself near the given
/// vertical anchor, or to hide.
pub enum TextFocusChanged {
    Show(i64),
    Hide,
}

/// The editor's process-wide state, passed to each per-tick subsystem.
pub struct EditorContext {
    /// All editable fields, addressed by index.
    pub fields: Vec<TextField>,
    /// Index of the field owning keyboard focus, if any.
    pub focus: Option<usize>,
    pub display_cursor: DisplayTextCursor,
    pub config: TextEditConfig,
    pub blink_interval: BlinkInterval,
}

impl EditorContext {
    pub open spec fn fields_wf(self) -> bool {
        forall|j: int| 0 <= j < self.fields@.len() ==> (#[trigger] self.fields@[j]).wf()
    }

    /// The focus record and the fields' own flags agree, and at most one
    /// field holds focus.
    pub open spec fn focus_consistent(self) -> bool {
        match self.focus {
            Some(i) => {
                &&& (i as int) < self.fields@.len()
                &&& self.fields@[i as int].has_focus
                &&& forall|j: int|
                    0 <= j < self.fields@.len() && j != i as int ==> !(
                    #[trigger] self.fields@[j]).has_focus
            },
            None => forall|j: int|
                0 <= j < self.fields@.len() ==> !(#[trigger] self.fields@[j]).has_focus,
        }
    }

    pub open spec fn wf(self) -> bool {
        &&& self.fields_wf()
        &&& self.focus_consistent()
        &&& self.blink_interval.period_ms > 0
        &&& self.blink_interval.elapsed_ms < self.blink_interval.period_ms
    }

    /// No two distinct fields hold focus at once.
    pub open spec fn at_most_one_focus(self) -> bool {
        forall|i: int, j: int|
            0 <= i < self.fields@.len() && 0 <= j < self.fields@.len() && (
            #[trigger] self.fields@[i]).has_focus && (#[trigger] self.fields@[j]).has_focus ==> i
                == j
    }

    /// A well-formed context never has two focused fields.
    pub proof fn lemma_at_most_one_focus(self)
        requires
            self.wf(),
        ensures
            self.at_most_one_focus(),
    {
    }

    /// A fresh context with no fields, no focus and the default half-second
    /// blink period.
    pub fn new(config: TextEditConfig, display_cursor: DisplayTextCursor) -> (r: EditorContext)
        ensures
            r.wf(),
            r.fields@.len() == 0,
            r.focus is None,
            r.config == config,
            r.display_cursor == display_cursor,
            r.blink_interval.period_ms == BLINK_INTERVAL_MS,
    {
        EditorContext {
            fields: Vec::new(),
            focus: None,
            display_cursor,
            config,
            blink_interval: BlinkInterval::new(BLINK_INTERVAL_MS),
        }
    }

    /// Put a new, unfocused field into the arena and hand back its index.
    pub fn add_field(&mut self, f: TextField) -> (id: usize)
        requires
            old(self).wf(),
            f.wf(),
            !f.has_focus,
            !f.editing,
        ensures
            final(self).wf(),
            id == old(self).fields@.len(),
            final(self).fields@ == old(self).fields@.push(f),
            final(self).focus == old(self).focus,
            final(self).config == old(self).config,
            final(self).display_cursor == old(self).display_cursor,
            final(self).blink_interval == old(self).blink_interval,
    {
        let id = self.fields.len();
        self.fields.push(f);
        id
    }

    /// Grant focus to one field directly, as for a field created already
    /// focused; every other field loses focus without being committed.
    pub fn give_focus(&mut self, id: usize)
        requires
            old(self).wf(),
            id < old(self).fields@.len(),
        ensures
            final(self).wf(),
            final(self).focus == Some(id),
            final(self).fields@.len() == old(self).fields@.len(),
            forall|j: int|
                0 <= j < old(self).fields@.len() && j != id as int
                    ==> #[trigger] final(self).fields@[j] == (TextField {
                    has_focus: false,
                    editing: false,
                    ..old(self).fields@[j]
                }),
            final(self).fields@[id as int] == (TextField {
                has_focus: true,
                ..old(self).fields@[id as int]
            }),
            final(self).config == old(self).config,
            final(self).display_cursor == old(self).display_cursor,
            final(self).blink_interval == old(self).blink_interval,
    {
        let n = self.fields.len();
        let mut j: usize = 0;
        while j < n
            invariant
                n == self.fields@.len(),
                n == old(self).fields@.len(),
                id < n,
                j <= n,
                self.focus == old(self).focus,
                self.config == old(self).config,
                self.display_cursor == old(self).display_cursor,
                self.blink_interval == old(self).blink_interval,
                forall|k: int|
                    0 <= k < j && k != id as int ==> #[trigger] self.fields@[k] == (TextField {
                        has_focus: false,
                        editing: false,
                        ..old(self).fields@[k]
                    }),
                j > id ==> self.fields@[id as int] == (TextField {
                    has_focus: true,
                    ..old(self).fields@[id as int]
                }),
                forall|k: int| j <= k < n ==> #[trigger] self.fields@[k] == old(self).fields@[k],
                old(self).fields_wf(),
            decreases n - j,
        {
            let mut f = self.fields.remove(j);
            if j == id {
                f.has_focus = true;
            } else {
                f.has_focus = false;
                f.editing = false;
            }
            self.fields.insert(j, f);
            j = j + 1;
        }
        self.focus = Some(id);
        proof {
            assert forall|k: int| 0 <= k < self.fields@.len() implies (
            #[trigger] self.fields@[k]).wf() by {
                assert(old(self).fields@[k].wf());
            }
        }
    }
}

} // verus!
