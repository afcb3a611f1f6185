//! Keyboard handling for the focused field: each pressed key is applied to
//! the buffer through one spec-level transition function, so the outcome of
//! a whole tick's worth of events is pinned down exactly.

use vstd::prelude::*;

use crate::context::EditorContext;
use crate::field::{seg_styles, TextField};
use crate::filter::{is_ignored, pattern_views, spec_is_ignored};
use crate::text::{
    char_bytes, char_utf8_len, lemma_utf8_len_add, lemma_utf8_len_bounds, push_char, str_chars,
    utf8_len, utf8_len_checked, MAX_TEXT_BYTES,
};

verus! {

/// Logical value of a key event, as the host keyboard reports it.
pub enum Key {
    /// A typed string, usually a single character.
    Character(String),
    Space,
    Backspace,
    Delete,
    Enter,
    Escape,
    Shift,
    ArrowLeft,
    ArrowRight,
    Home,
    End,
    /// Any key this system does not react to.
    Other,
}

/// One raw keyboard event: its logical value and whether it was pressed,
/// as opposed to released.
pub struct KeyInput {
    pub logical: Key,
    pub pressed: bool,
}

/// The part of a field the keyboard mutates, at the flat-text level: the
/// buffer, the cursor's flat position, and the blink phase.
pub ghost struct EditState {
    pub text: Seq<char>,
    pub pos: int,
    pub glyph_visible: bool,
}

/// The edit state of a field.
pub open spec fn field_edit_state(f: TextField) -> EditState {
    EditState { text: f.flat_text(), pos: f.flat_pos(), glyph_visible: f.glyph_visible }
}

/// Bytes of the character currently rendered at the cursor.
pub open spec fn shown_glyph_bytes(st: EditState, glyph: char) -> int {
    char_bytes(
        if st.glyph_visible {
            glyph
        } else {
            ' '
        },
    )
}

/// Whether one insertion is admitted: the filter accepts the text, the
/// rendered buffer has not passed `max` bytes (`max == 0` means unlimited),
/// and the machine's buffer limit is kept.
pub open spec fn insert_admitted(
    st: EditState,
    key: Seq<char>,
    deny: Seq<Seq<char>>,
    allow: Seq<Seq<char>>,
    max: int,
    glyph: char,
) -> bool {
    &&& !spec_is_ignored(deny, allow, key)
    &&& (max == 0 || utf8_len(st.text) + shown_glyph_bytes(st, glyph) <= max)
    &&& utf8_len(st.text) + utf8_len(key) <= MAX_TEXT_BYTES
}

/// Splice `s` into the buffer at the cursor and move the cursor past it.
pub open spec fn insert_at(st: EditState, s: Seq<char>) -> EditState {
    EditState {
        text: st.text.take(st.pos) + s + st.text.skip(st.pos),
        pos: st.pos + s.len(),
        glyph_visible: st.glyph_visible,
    }
}

/// The pasted characters that survive the filter, in order.
pub open spec fn filtered_chars(
    t: Seq<char>,
    deny: Seq<Seq<char>>,
    allow: Seq<Seq<char>>,
) -> Seq<char>
    decreases t.len(),
{
    if t.len() == 0 {
        Seq::empty()
    } else {
        filtered_chars(t.drop_last(), deny, allow) + (
        if !spec_is_ignored(deny, allow, seq![t.last()]) {
            seq![t.last()]
        } else {
            Seq::empty()
        })
    }
}

/// What one pressed key does to the focused field's edit state. The
/// length rule applies to a paste as to any other insertion: with a cap
/// set, nothing is spliced in once the rendered buffer has reached it.
pub open spec fn key_step(
    st: EditState,
    key: Key,
    deny: Seq<Seq<char>>,
    allow: Seq<Seq<char>>,
    max: int,
    glyph: char,
    ctrl: bool,
    clipboard: Option<Seq<char>>,
) -> EditState {
    match key {
        Key::Space => {
            if insert_admitted(st, seq![' '], deny, allow, max, glyph) {
                insert_at(st, seq![' '])
            } else {
                st
            }
        },
        Key::Backspace => {
            if st.pos > 0 {
                EditState { text: st.text.remove(st.pos - 1), pos: st.pos - 1, ..st }
            } else {
                st
            }
        },
        Key::Delete => {
            if st.pos < st.text.len() {
                EditState { text: st.text.remove(st.pos), ..st }
            } else {
                st
            }
        },
        Key::Character(s) => {
            if ctrl && s@ == "v"@ {
                match clipboard {
                    Some(t) => {
                        let ft = filtered_chars(t, deny, allow);
                        if (max == 0 || utf8_len(st.text) + shown_glyph_bytes(st, glyph) <= max)
                            && utf8_len(st.text) + utf8_len(ft) <= MAX_TEXT_BYTES {
                            insert_at(st, ft)
                        } else {
                            st
                        }
                    },
                    None => st,
                }
            } else if insert_admitted(st, s@, deny, allow, max, glyph) {
                insert_at(st, s@)
            } else {
                st
            }
        },
        Key::ArrowLeft => {
            if st.pos > 0 {
                EditState { pos: st.pos - 1, glyph_visible: true, ..st }
            } else {
                st
            }
        },
        Key::ArrowRight => {
            if st.pos < st.text.len() {
                EditState { pos: st.pos + 1, glyph_visible: true, ..st }
            } else {
                st
            }
        },
        Key::Home => EditState { pos: 0, glyph_visible: true, ..st },
        Key::End => EditState { pos: st.text.len() as int, glyph_visible: true, ..st },
        _ => st,
    }
}

/// A whole tick's worth of key events folded over the edit state;
/// released events are skipped.
pub open spec fn key_fold(
    st: EditState,
    events: Seq<KeyInput>,
    deny: Seq<Seq<char>>,
    allow: Seq<Seq<char>>,
    max: int,
    glyph: char,
    ctrl: bool,
    clipboard: Option<Seq<char>>,
) -> EditState
    decreases events.len(),
{
    if events.len() == 0 {
        st
    } else {
        let st1 = if events[0].pressed {
            key_step(st, events[0].logical, deny, allow, max, glyph, ctrl, clipboard)
        } else {
            st
        };
        key_fold(st1, events.drop_first(), deny, allow, max, glyph, ctrl, clipboard)
    }
}

/// Law: a character the filter rejects never reaches the buffer — a
/// rejected typed key leaves the edit state exactly as it was. The paste
/// chord is the one use of a Character key that does not insert its own
/// text.
pub proof fn lemma_rejected_char_never_inserted(
    st: EditState,
    s: String,
    deny: Seq<Seq<char>>,
    allow: Seq<Seq<char>>,
    max: int,
    glyph: char,
    ctrl: bool,
    clipboard: Option<Seq<char>>,
)
    requires
        spec_is_ignored(deny, allow, s@),
        !(ctrl && s@ == "v"@),
    ensures
        key_step(st, Key::Character(s), deny, allow, max, glyph, ctrl, clipboard) == st,
{
    assert(!insert_admitted(st, s@, deny, allow, max, glyph));
}

/// Law: every character a paste lets through was admitted by the filter —
/// the filtered text holds no rejected character, and keeps the admitted
/// ones in their order.
pub proof fn lemma_paste_filters_rejected(
    t: Seq<char>,
    deny: Seq<Seq<char>>,
    allow: Seq<Seq<char>>,
)
    ensures
        forall|i: int|
            0 <= i < filtered_chars(t, deny, allow).len() ==> !spec_is_ignored(
                deny,
                allow,
                seq![#[trigger] filtered_chars(t, deny, allow)[i]],
            ),
    decreases t.len(),
{
    if t.len() > 0 {
        lemma_paste_filters_rejected(t.drop_last(), deny, allow);
        let fd = filtered_chars(t.drop_last(), deny, allow);
        let ft = filtered_chars(t, deny, allow);
        assert forall|i: int| 0 <= i < ft.len() implies !spec_is_ignored(
            deny,
            allow,
            seq![ft[i]],
        ) by {
            if i < fd.len() {
                assert(ft[i] == fd[i]);
                assert(!spec_is_ignored(deny, allow, seq![fd[i]]));
            } else {
                assert(!spec_is_ignored(deny, allow, seq![t.last()]));
                assert(ft[i] == t.last());
            }
        }
    }
}

/// Law (round trip, blink half): what a run of key events does to the
/// buffer and cursor does not depend on the blink phase, as long as the
/// cursor glyph is a one-byte character like the default, so the text a
/// field commits after being edited is the same whatever its blink state.
pub proof fn lemma_key_step_blink_independent(
    st1: EditState,
    st2: EditState,
    key: Key,
    deny: Seq<Seq<char>>,
    allow: Seq<Seq<char>>,
    max: int,
    glyph: char,
    ctrl: bool,
    clipboard: Option<Seq<char>>,
)
    requires
        st1.text == st2.text,
        st1.pos == st2.pos,
        char_bytes(glyph) == 1,
    ensures
        key_step(st1, key, deny, allow, max, glyph, ctrl, clipboard).text == key_step(
            st2,
            key,
            deny,
            allow,
            max,
            glyph,
            ctrl,
            clipboard,
        ).text,
        key_step(st1, key, deny, allow, max, glyph, ctrl, clipboard).pos == key_step(
            st2,
            key,
            deny,
            allow,
            max,
            glyph,
            ctrl,
            clipboard,
        ).pos,
{
    assert(char_bytes(' ') == 1);
    assert(shown_glyph_bytes(st1, glyph) == shown_glyph_bytes(st2, glyph));
}

/// Law (round trip, blink half), over a whole tick's worth of events.
pub proof fn lemma_key_fold_blink_independent(
    st1: EditState,
    st2: EditState,
    events: Seq<KeyInput>,
    deny: Seq<Seq<char>>,
    allow: Seq<Seq<char>>,
    max: int,
    glyph: char,
    ctrl: bool,
    clipboard: Option<Seq<char>>,
)
    requires
        st1.text == st2.text,
        st1.pos == st2.pos,
        char_bytes(glyph) == 1,
    ensures
        key_fold(st1, events, deny, allow, max, glyph, ctrl, clipboard).text == key_fold(
            st2,
            events,
            deny,
            allow,
            max,
            glyph,
            ctrl,
            clipboard,
        ).text,
        key_fold(st1, events, deny, allow, max, glyph, ctrl, clipboard).pos == key_fold(
            st2,
            events,
            deny,
            allow,
            max,
            glyph,
            ctrl,
            clipboard,
        ).pos,
    decreases events.len(),
{
    if events.len() > 0 {
        let n1 = if events[0].pressed {
            key_step(st1, events[0].logical, deny, allow, max, glyph, ctrl, clipboard)
        } else {
            st1
        };
        let n2 = if events[0].pressed {
            key_step(st2, events[0].logical, deny, allow, max, glyph, ctrl, clipboard)
        } else {
            st2
        };
        if events[0].pressed {
            lemma_key_step_blink_independent(
                st1,
                st2,
                events[0].logical,
                deny,
                allow,
                max,
                glyph,
                ctrl,
                clipboard,
            );
        }
        lemma_key_fold_blink_independent(
            n1,
            n2,
            events.drop_first(),
            deny,
            allow,
            max,
            glyph,
            ctrl,
            clipboard,
        );
    }
}

/// The characters a run of pressed Character events types, in order.
pub open spec fn typed_text(events: Seq<KeyInput>) -> Seq<char>
    decreases events.len(),
{
    if events.len() == 0 {
        Seq::empty()
    } else {
        typed_text(events.drop_last()) + (
        if events.last().pressed {
            match events.last().logical {
                Key::Character(s) => s@,
                _ => Seq::empty(),
            }
        } else {
            Seq::empty()
        })
    }
}

/// Law (round trip, text half): with the cursor at the end of the buffer —
/// where focusing puts it — typing a run of characters that nothing
/// filters or caps appends exactly those characters, in order, and leaves
/// the cursor at the new end. With the focus arbiter's contract, the one
/// commit after such a run publishes the pre-focus content with the typed
/// text appended.
pub proof fn lemma_typing_appends(
    st: EditState,
    events: Seq<KeyInput>,
    glyph: char,
    clipboard: Option<Seq<char>>,
)
    requires
        st.pos == st.text.len(),
        forall|k: int|
            0 <= k < events.len() ==> (#[trigger] events[k]).pressed && events[k].logical
                is Character,
        utf8_len(st.text) + utf8_len(typed_text(events)) <= MAX_TEXT_BYTES,
    ensures
        key_fold(
            st,
            events,
            Seq::empty(),
            Seq::empty(),
            0,
            glyph,
            false,
            clipboard,
        ).text == st.text + typed_text(events),
        key_fold(st, events, Seq::empty(), Seq::empty(), 0, glyph, false, clipboard).pos
            == st.text.len() + typed_text(events).len(),
    decreases events.len(),
{
    let deny = Seq::<Seq<char>>::empty();
    let allow = Seq::<Seq<char>>::empty();
    if events.len() == 0 {
        assert(typed_text(events) =~= Seq::<char>::empty());
        assert(st.text + typed_text(events) =~= st.text);
        lemma_utf8_len_bounds(st.text);
    } else {
        let es = events.drop_last();
        let e = events.last();
        lemma_utf8_len_bounds(typed_text(events));
        let s_typed = match e.logical {
            Key::Character(s) => s@,
            _ => Seq::<char>::empty(),
        };
        assert(typed_text(events) == typed_text(es) + s_typed);
        lemma_utf8_len_add(typed_text(es), s_typed);
        lemma_utf8_len_bounds(s_typed);
        lemma_utf8_len_bounds(typed_text(es));
        lemma_typing_appends(st, es, glyph, clipboard);
        let stn = key_fold(st, es, deny, allow, 0, glyph, false, clipboard);
        assert(events =~= es.push(e));
        lemma_key_fold_snoc(st, es, e, deny, allow, 0, glyph, false, clipboard);
        lemma_utf8_len_add(st.text, typed_text(es));
        match e.logical {
            Key::Character(s) => {
                assert(!spec_is_ignored(deny, allow, s@));
                assert(insert_admitted(stn, s@, deny, allow, 0, glyph));
                let after = insert_at(stn, s@);
                assert(stn.text.take(stn.pos) =~= stn.text);
                assert(stn.text.skip(stn.pos) =~= Seq::<char>::empty());
                assert(after.text =~= stn.text + s@);
                assert(stn.text + s@ =~= st.text + typed_text(events));
            },
            _ => {
                assert(false);
            },
        }
    }
}

/// The view of an optional clipboard text.
pub open spec fn clip_view(clipboard: Option<Vec<char>>) -> Option<Seq<char>> {
    match clipboard {
        Some(v) => Some(v@),
        None => None,
    }
}

/// Build the one-character string the filter is asked about.
fn char_string(c: char) -> (r: String)
    ensures
        r@ == seq![c],
{
    let mut r = String::new();
    push_char(&mut r, c);
    proof {
        assert(Seq::<char>::empty().push(c) =~= seq![c]);
    }
    r
}

/// Insert `s` into the field if the filter and length rule admit it.
fn try_insert(f: &mut TextField, s: &Vec<char>, key_string: &String, glyph: char)
    requires
        old(f).wf(),
        key_string@ == s@,
    ensures
        final(f).wf(),
        field_edit_state(*final(f)) == (
        if insert_admitted(
            field_edit_state(*old(f)),
            s@,
            pattern_views(old(f).editable.filter_out@),
            pattern_views(old(f).editable.filter_in@),
            old(f).editable.max_length as int,
            glyph,
        ) {
            insert_at(field_edit_state(*old(f)), s@)
        } else {
            field_edit_state(*old(f))
        }),
        final(f).has_focus == old(f).has_focus,
        final(f).editing == old(f).editing,
        final(f).editable == old(f).editable,
        final(f).text_alpha_permille == old(f).text_alpha_permille,
        seg_styles(final(f).segments@) == seg_styles(old(f).segments@),
        final(f).segments@.len() == old(f).segments@.len(),
    {
        if is_ignored(&f.editable.filter_out, &f.editable.filter_in, key_string) {
            return ;
        }
        let insert_bytes = match utf8_len_checked(s) {
            Some(n) => n,
            None => {
                proof {
                    lemma_utf8_len_bounds(old(f).flat_text());
                }
                return ;
            },
        };
        let buffer_bytes = f.byte_length();
        if f.editable.max_length > 0 {
            let shown = if f.glyph_visible {
                glyph
            } else {
                ' '
            };
            let shown_bytes = char_utf8_len(shown);
            if buffer_bytes + shown_bytes > f.editable.max_length {
                return ;
            }
        }
        if insert_bytes > MAX_TEXT_BYTES - buffer_bytes {
            return ;
        }
        f.insert_chars(s);
    }

/// Keep only the characters the filter admits, in order.
fn filter_text(deny: &Vec<String>, allow: &Vec<String>, t: &Vec<char>) -> (r: Vec<char>)
    ensures
        r@ == filtered_chars(t@, pattern_views(deny@), pattern_views(allow@)),
{
    let mut r: Vec<char> = Vec::new();
    let mut i: usize = 0;
    while i < t.len()
        invariant
            i <= t@.len(),
            r@ == filtered_chars(t@.take(i as int), pattern_views(deny@), pattern_views(allow@)),
        decreases t@.len() - i,
    {
        let cs = char_string(t[i]);
        proof {
            assert(t@.take(i as int + 1).drop_last() =~= t@.take(i as int));
            assert(t@.take(i as int + 1).last() == t@[i as int]);
        }
        if !is_ignored(deny, allow, &cs) {
            r.push(t[i]);
            proof {
                assert(r@ =~= filtered_chars(
                    t@.take(i as int + 1),
                    pattern_views(deny@),
                    pattern_views(allow@),
                ));
            }
        } else {
            proof {
                assert(r@ =~= filtered_chars(
                    t@.take(i as int + 1),
                    pattern_views(deny@),
                    pattern_views(allow@),
                ));
            }
        }
        i = i + 1;
    }
    proof {
        assert(t@.take(t@.len() as int) =~= t@);
    }
    r
}

/// Apply one pressed key to the focused field's buffer, exactly as
/// `key_step` says.
fn apply_key_to_field(
    f: &mut TextField,
    key: &Key,
    glyph: char,
    ctrl: bool,
    clipboard: &Option<Vec<char>>,
)
    requires
        old(f).wf(),
    ensures
        final(f).wf(),
        field_edit_state(*final(f)) == key_step(
            field_edit_state(*old(f)),
            *key,
            pattern_views(old(f).editable.filter_out@),
            pattern_views(old(f).editable.filter_in@),
            old(f).editable.max_length as int,
            glyph,
            ctrl,
            clip_view(*clipboard),
        ),
        final(f).has_focus == old(f).has_focus,
        final(f).editing == old(f).editing,
        final(f).editable == old(f).editable,
        final(f).text_alpha_permille == old(f).text_alpha_permille,
        seg_styles(final(f).segments@) == seg_styles(old(f).segments@),
        final(f).segments@.len() == old(f).segments@.len(),
{
    proof {
        old(f).lemma_cursor_in_bounds();
    }
    match key {
        Key::Space => {
            let ks = char_string(' ');
            let mut s: Vec<char> = Vec::new();
            s.push(' ');
            proof {
                assert(s@ =~= seq![' ']);
            }
            try_insert(f, &s, &ks, glyph);
        },
        Key::Backspace => {
            f.delete_backward();
        },
        Key::Delete => {
            f.delete_forward();
        },
        Key::Character(s) => {
            let is_paste_chord = ctrl && *s == "v".to_owned();
            if is_paste_chord {
                match clipboard {
                    Some(t) => {
                        let mut cap_ok = true;
                        if f.editable.max_length > 0 {
                            let buffer_bytes = f.byte_length();
                            let shown = if f.glyph_visible {
                                glyph
                            } else {
                                ' '
                            };
                            let shown_bytes = char_utf8_len(shown);
                            if buffer_bytes + shown_bytes > f.editable.max_length {
                                cap_ok = false;
                            }
                        }
                        if cap_ok {
                            let ft = filter_text(&f.editable.filter_out, &f.editable.filter_in, t);
                            match utf8_len_checked(&ft) {
                                None => {
                                    proof {
                                        lemma_utf8_len_bounds(old(f).flat_text());
                                    }
                                },
                                Some(n) => {
                                    let buffer_bytes = f.byte_length();
                                    if n <= MAX_TEXT_BYTES - buffer_bytes {
                                        f.insert_chars(&ft);
                                    } else {
                                        proof {
                                            lemma_utf8_len_bounds(old(f).flat_text());
                                        }
                                    }
                                },
                            }
                        }
                    },
                    None => {},
                }
            } else {
                let s_chars = str_chars(s.as_str());
                try_insert(f, &s_chars, s, glyph);
            }
        },
        Key::ArrowLeft => {
            f.move_left();
        },
        Key::ArrowRight => {
            f.move_right();
        },
        Key::Home => {
            f.move_home();
        },
        Key::End => {
            f.move_end();
        },
        Key::Enter => {},
        Key::Escape => {},
        Key::Shift => {},
        Key::Other => {},
    }
}

proof fn lemma_key_fold_snoc(
    st: EditState,
    events: Seq<KeyInput>,
    e: KeyInput,
    deny: Seq<Seq<char>>,
    allow: Seq<Seq<char>>,
    max: int,
    glyph: char,
    ctrl: bool,
    clipboard: Option<Seq<char>>,
)
    ensures
        key_fold(st, events.push(e), deny, allow, max, glyph, ctrl, clipboard) == ({
            let stn = key_fold(st, events, deny, allow, max, glyph, ctrl, clipboard);
            if e.pressed {
                key_step(stn, e.logical, deny, allow, max, glyph, ctrl, clipboard)
            } else {
                stn
            }
        }),
    decreases events.len(),
{
    if events.len() == 0 {
        assert(events.push(e)[0] == e);
        assert(events.push(e).drop_first() =~= Seq::<KeyInput>::empty());
        let st1 = if e.pressed {
            key_step(st, e.logical, deny, allow, max, glyph, ctrl, clipboard)
        } else {
            st
        };
        assert(key_fold(st1, Seq::<KeyInput>::empty(), deny, allow, max, glyph, ctrl, clipboard)
            == st1);
        assert(key_fold(st, events, deny, allow, max, glyph, ctrl, clipboard) == st);
    } else {
        assert(events.push(e)[0] == events[0]);
        assert(events.push(e).drop_first() =~= events.drop_first().push(e));
        let st1 = if events[0].pressed {
            key_step(st, events[0].logical, deny, allow, max, glyph, ctrl, clipboard)
        } else {
            st
        };
        lemma_key_fold_snoc(st1, events.drop_first(), e, deny, allow, max, glyph, ctrl, clipboard);
        assert(key_fold(st, events.push(e), deny, allow, max, glyph, ctrl, clipboard) == key_fold(
            st1,
            events.drop_first().push(e),
            deny,
            allow,
            max,
            glyph,
            ctrl,
            clipboard,
        ));
        assert(key_fold(st, events, deny, allow, max, glyph, ctrl, clipboard) == key_fold(
            st1,
            events.drop_first(),
            deny,
            allow,
            max,
            glyph,
            ctrl,
            clipboard,
        ));
    }
}

/// Feed a tick's raw keyboard events to the field that owns focus; with no
/// focused field in edit mode the events are silently ignored. `ctrl` says
/// whether a control key is held, and `clipboard` carries the host's
/// clipboard text, if it has one, for the paste chord.
pub fn listen_keyboard_input(
    ctx: &mut EditorContext,
    events: &Vec<KeyInput>,
    ctrl: bool,
    clipboard: &Option<Vec<char>>,
)
    requires
        old(ctx).wf(),
    ensures
        final(ctx).wf(),
        final(ctx).focus == old(ctx).focus,
        final(ctx).config == old(ctx).config,
        final(ctx).display_cursor == old(ctx).display_cursor,
        final(ctx).blink_interval == old(ctx).blink_interval,
        final(ctx).fields@.len() == old(ctx).fields@.len(),
        match old(ctx).focus {
            Some(i) => {
                if old(ctx).fields@[i as int].editing {
                    let f0 = old(ctx).fields@[i as int];
                    let f1 = final(ctx).fields@[i as int];
                    &&& forall|j: int|
                        0 <= j < old(ctx).fields@.len() && j != i as int
                            ==> #[trigger] final(ctx).fields@[j] == old(ctx).fields@[j]
                    &&& field_edit_state(f1) == key_fold(
                        field_edit_state(f0),
                        events@,
                        pattern_views(f0.editable.filter_out@),
                        pattern_views(f0.editable.filter_in@),
                        f0.editable.max_length as int,
                        old(ctx).display_cursor.0,
                        ctrl,
                        clip_view(*clipboard),
                    )
                    &&& f1.has_focus == f0.has_focus
                    &&& f1.editing == f0.editing
                    &&& f1.editable == f0.editable
                    &&& f1.text_alpha_permille == f0.text_alpha_permille
                    &&& seg_styles(f1.segments@) == seg_styles(f0.segments@)
                    &&& f1.segments@.len() == f0.segments@.len()
                } else {
                    final(ctx).fields@ == old(ctx).fields@
                }
            },
            None => final(ctx).fields@ == old(ctx).fields@,
        },
{
    let i = match ctx.focus {
        None => {
            return ;
        },
        Some(i) => i,
    };
    if !ctx.fields[i].editing {
        return ;
    }
    let glyph = ctx.display_cursor.0;
    let mut f = ctx.fields.remove(i);
    let ghost f0 = old(ctx).fields@[i as int];
    let ghost deny = pattern_views(f0.editable.filter_out@);
    let ghost allow = pattern_views(f0.editable.filter_in@);
    let ghost max = f0.editable.max_length as int;
    let ghost clip = clip_view(*clipboard);
    let mut k: usize = 0;
    while k < events.len()
        invariant
            k <= events@.len(),
            f.wf(),
            field_edit_state(f) == key_fold(
                field_edit_state(f0),
                events@.take(k as int),
                deny,
                allow,
                max,
                glyph,
                ctrl,
                clip,
            ),
            f.has_focus == f0.has_focus,
            f.editing == f0.editing,
            f.editable == f0.editable,
            f.text_alpha_permille == f0.text_alpha_permille,
            seg_styles(f.segments@) == seg_styles(f0.segments@),
            f.segments@.len() == f0.segments@.len(),
            deny == pattern_views(f0.editable.filter_out@),
            allow == pattern_views(f0.editable.filter_in@),
            max == f0.editable.max_length as int,
            clip == clip_view(*clipboard),
            ctx.fields@ == old(ctx).fields@.remove(i as int),
            ctx.focus == old(ctx).focus,
            ctx.config == old(ctx).config,
            ctx.display_cursor == old(ctx).display_cursor,
            ctx.blink_interval == old(ctx).blink_interval,
            i < old(ctx).fields@.len(),
            glyph == old(ctx).display_cursor.0,
            f0 == old(ctx).fields@[i as int],
        decreases events@.len() - k,
    {
        proof {
            assert(events@.take(k as int + 1) =~= events@.take(k as int).push(events@[k as int]));
            lemma_key_fold_snoc(
                field_edit_state(f0),
                events@.take(k as int),
                events@[k as int],
                deny,
                allow,
                max,
                glyph,
                ctrl,
                clip,
            );
        }
        if events[k].pressed {
            apply_key_to_field(&mut f, &events[k].logical, glyph, ctrl, clipboard);
        }
        k = k + 1;
    }
    proof {
        assert(events@.take(events@.len() as int) =~= events@);
    }
    ctx.fields.insert(i, f);
    proof {
        assert(ctx.fields@ =~= old(ctx).fields@.update(i as int, f));
        assert forall|j: int| 0 <= j < ctx.fields@.len() implies (
        #[trigger] ctx.fields@[j]).wf() by {
            assert(old(ctx).fields@[j].wf());
        }
    }
}

} // verus!
