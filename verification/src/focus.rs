//! Focus arbitration: decides once per tick which field owns keyboard
//! focus. A field losing focus is committed exactly once: its buffer,
//! glyph stripped and placeholder excluded, is published as a `TextEdited`
//! event.

use vstd::prelude::*;

use crate::context::{EditorContext, TextEdited, TextFocusChanged};
use crate::field::{CursorPosition, Segment, TextEditable, TextField};
use crate::keyboard::{Key, KeyInput};
use crate::text::chars_to_string;

verus! {

/// One editable field whose interaction state changed this tick.
pub struct FieldInteraction {
    pub field: usize,
    /// Whether the change was a press, as opposed to a hover or release.
    pub pressed: bool,
    /// Vertical anchor of the field, for placing the virtual keyboard.
    pub anchor_y: i64,
}

/// The pointer and touch signals the focus arbiter reads in one tick.
pub struct FocusInput {
    /// A pointer or touch press happened somewhere this tick.
    pub clicked_elsewhere: bool,
    /// The press landed on the virtual keyboard, so it must not steal
    /// focus from the field being edited.
    pub virtual_keyboard_interacted: bool,
    /// Editable fields whose interaction state changed this tick.
    pub interactions: Vec<FieldInteraction>,
}

/// What one tick of focus arbitration publishes.
pub struct FocusOutcome {
    pub edited: Vec<TextEdited>,
    pub focus_changed: Vec<TextFocusChanged>,
}

/// The text a field publishes when it loses focus: its buffer, or nothing
/// while the placeholder is showing.
pub open spec fn commit_text(f: TextField) -> Seq<char> {
    if f.editable.is_placeholder_shown {
        Seq::empty()
    } else {
        f.flat_text()
    }
}

/// A field right after losing focus.
pub open spec fn committed_field(f: TextField) -> TextField {
    TextField { has_focus: false, editing: false, ..f }
}

/// Whether the tick's key events force the focused field to commit:
/// an Enter or Escape press.
pub open spec fn wants_unfocus(events: Seq<KeyInput>) -> bool {
    exists|k: int|
        0 <= k < events.len() && (#[trigger] events[k]).pressed && (events[k].logical is Enter
            || events[k].logical is Escape)
}

/// The Show notifications of one tick, one per pressed field, in order.
pub open spec fn show_events(ints: Seq<FieldInteraction>) -> Seq<TextFocusChanged>
    decreases ints.len(),
{
    if ints.len() == 0 {
        Seq::empty()
    } else {
        show_events(ints.drop_last()) + (
        if ints.last().pressed {
            seq![TextFocusChanged::Show(ints.last().anchor_y)]
        } else {
            Seq::empty()
        })
    }
}

/// The field pressed last this tick, which ends up owning focus.
pub open spec fn last_pressed(ints: Seq<FieldInteraction>) -> Option<usize>
    decreases ints.len(),
{
    if ints.len() == 0 {
        None
    } else if ints.last().pressed {
        Some(ints.last().field)
    } else {
        last_pressed(ints.drop_last())
    }
}

/// Commit one field: clear its focus flags and publish its text.
fn commit_field(ctx: &mut EditorContext, i: usize) -> (ev: TextEdited)
    requires
        old(ctx).fields_wf(),
        i < old(ctx).fields@.len(),
    ensures
        final(ctx).fields_wf(),
        final(ctx).fields@ == old(ctx).fields@.update(
            i as int,
            committed_field(old(ctx).fields@[i as int]),
        ),
        final(ctx).focus == old(ctx).focus,
        final(ctx).config == old(ctx).config,
        final(ctx).display_cursor == old(ctx).display_cursor,
        final(ctx).blink_interval == old(ctx).blink_interval,
        ev.field == i,
        ev.text@ == commit_text(old(ctx).fields@[i as int]),
{
    let mut f = ctx.fields.remove(i);
    let text = if f.editable.is_placeholder_shown {
        String::new()
    } else {
        let fc = f.flat_chars();
        chars_to_string(&fc)
    };
    f.has_focus = false;
    f.editing = false;
    ctx.fields.insert(i, f);
    proof {
        assert(ctx.fields@ =~= old(ctx).fields@.update(
            i as int,
            committed_field(old(ctx).fields@[i as int]),
        ));
        assert forall|j: int| 0 <= j < ctx.fields@.len() implies (
        #[trigger] ctx.fields@[j]).wf() by {
            assert(old(ctx).fields@[j].wf());
        }
    }
    TextEdited { text, field: i }
}

/// One tick of focus arbitration. An Enter or Escape press, or a press
/// outside every editable field and off the virtual keyboard, commits and
/// unfocuses the focused field and hides the virtual keyboard — overriding
/// any focus-claiming press of the same tick. Otherwise the field pressed
/// last gains focus, the one that had it is committed once, and pressing
/// the already-focused field changes nothing. Each pressed field raises a
/// Show notification either way.
pub fn listen_changing_focus(
    ctx: &mut EditorContext,
    input: &FocusInput,
    events: &Vec<KeyInput>,
) -> (out: FocusOutcome)
    requires
        old(ctx).wf(),
        forall|k: int|
            0 <= k < input.interactions@.len() ==> (
            #[trigger] input.interactions@[k]).field < old(ctx).fields@.len(),
    ensures
        final(ctx).wf(),
        final(ctx).config == old(ctx).config,
        final(ctx).display_cursor == old(ctx).display_cursor,
        final(ctx).blink_interval == old(ctx).blink_interval,
        final(ctx).fields@.len() == old(ctx).fields@.len(),
        ({
            let unfocus_all = wants_unfocus(events@) || (input.interactions@.len() == 0
                && !input.virtual_keyboard_interacted && input.clicked_elsewhere);
            if unfocus_all {
                &&& final(ctx).focus is None
                &&& out.focus_changed@ == seq![TextFocusChanged::Hide]
                &&& match old(ctx).focus {
                    Some(i) => {
                        &&& final(ctx).fields@ == old(ctx).fields@.update(
                            i as int,
                            committed_field(old(ctx).fields@[i as int]),
                        )
                        &&& out.edited@.len() == 1
                        &&& out.edited@[0].field == i
                        &&& out.edited@[0].text@ == commit_text(old(ctx).fields@[i as int])
                    },
                    None => final(ctx).fields@ == old(ctx).fields@ && out.edited@.len() == 0,
                }
            } else {
                &&& out.focus_changed@ == show_events(input.interactions@)
                &&& match last_pressed(input.interactions@) {
                    None => {
                        &&& final(ctx).fields@ == old(ctx).fields@
                        &&& final(ctx).focus == old(ctx).focus
                        &&& out.edited@.len() == 0
                    },
                    Some(t) => {
                        if old(ctx).focus == Some(t) {
                            &&& final(ctx).fields@ == old(ctx).fields@
                            &&& final(ctx).focus == old(ctx).focus
                            &&& out.edited@.len() == 0
                        } else {
                            &&& final(ctx).focus == Some(t)
                            &&& final(ctx).fields@[t as int] == (TextField {
                                has_focus: true,
                                ..old(ctx).fields@[t as int]
                            })
                            &&& match old(ctx).focus {
                                Some(i) => {
                                    &&& final(ctx).fields@ == old(ctx).fields@.update(
                                        i as int,
                                        committed_field(old(ctx).fields@[i as int]),
                                    ).update(
                                        t as int,
                                        TextField {
                                            has_focus: true,
                                            ..old(ctx).fields@[t as int]
                                        },
                                    )
                                    &&& out.edited@.len() == 1
                                    &&& out.edited@[0].field == i
                                    &&& out.edited@[0].text@ == commit_text(
                                        old(ctx).fields@[i as int],
                                    )
                                },
                                None => {
                                    &&& final(ctx).fields@ == old(ctx).fields@.update(
                                        t as int,
                                        TextField {
                                            has_focus: true,
                                            ..old(ctx).fields@[t as int]
                                        },
                                    )
                                    &&& out.edited@.len() == 0
                                },
                            }
                        }
                    },
                }
            }
        }),
{
    let mut edited: Vec<TextEdited> = Vec::new();
    let mut focus_changed: Vec<TextFocusChanged> = Vec::new();
    let mut unfocus_key = false;
    let mut k: usize = 0;
    while k < events.len()
        invariant
            k <= events@.len(),
            unfocus_key == wants_unfocus(events@.take(k as int)),
        decreases events@.len() - k,
    {
        let is_unfocus = match &events[k].logical {
            Key::Enter => events[k].pressed,
            Key::Escape => events[k].pressed,
            _ => false,
        };
        proof {
            assert(events@.take(k as int + 1).drop_last() =~= events@.take(k as int));
            assert(events@.take(k as int + 1).last() == events@[k as int]);
            if is_unfocus {
                assert((events@.take(k as int + 1))[k as int].pressed
                    && ((events@.take(k as int + 1))[k as int].logical is Enter || (events@.take(
                    k as int + 1,
                ))[k as int].logical is Escape));
                assert(wants_unfocus(events@.take(k as int + 1)));
            } else {
                if wants_unfocus(events@.take(k as int + 1)) {
                    let w = choose|w: int|
                        0 <= w < events@.take(k as int + 1).len() && (#[trigger] events@.take(
                            k as int + 1,
                        )[w]).pressed && (events@.take(k as int + 1)[w].logical is Enter
                            || events@.take(k as int + 1)[w].logical is Escape);
                    if w < k {
                        assert(events@.take(k as int)[w] == events@.take(k as int + 1)[w]);
                        assert(wants_unfocus(events@.take(k as int)));
                    }
                }
            }
        }
        if is_unfocus {
            unfocus_key = true;
        }
        k = k + 1;
    }
    proof {
        assert(events@.take(events@.len() as int) =~= events@);
    }
    if unfocus_key || (input.interactions.len() == 0 && !input.virtual_keyboard_interacted
        && input.clicked_elsewhere) {
        match ctx.focus {
            Some(i) => {
                let ev = commit_field(ctx, i);
                edited.push(ev);
            },
            None => {},
        }
        ctx.focus = None;
        focus_changed.push(TextFocusChanged::Hide);
        proof {
            assert(focus_changed@ =~= seq![TextFocusChanged::Hide]);
            assert forall|j: int| 0 <= j < ctx.fields@.len() implies !(
            #[trigger] ctx.fields@[j]).has_focus by {
                if old(ctx).focus is Some {
                    let i = old(ctx).focus->0;
                    if j != i as int {
                        assert(ctx.fields@[j] == old(ctx).fields@[j]);
                    }
                }
            }
        }
        return FocusOutcome { edited, focus_changed };
    }
    let mut target: Option<usize> = None;
    let mut m: usize = 0;
    while m < input.interactions.len()
        invariant
            m <= input.interactions@.len(),
            focus_changed@ == show_events(input.interactions@.take(m as int)),
            target == last_pressed(input.interactions@.take(m as int)),
            match target {
                Some(t) => t < old(ctx).fields@.len(),
                None => true,
            },
            forall|k2: int|
                0 <= k2 < input.interactions@.len() ==> (
                #[trigger] input.interactions@[k2]).field < old(ctx).fields@.len(),
            edited@.len() == 0,
        decreases input.interactions@.len() - m,
    {
        proof {
            assert(input.interactions@.take(m as int + 1).drop_last() =~= input.interactions@.take(
                m as int,
            ));
            assert(input.interactions@.take(m as int + 1).last() == input.interactions@[m as int]);
        }
        if input.interactions[m].pressed {
            focus_changed.push(TextFocusChanged::Show(input.interactions[m].anchor_y));
            target = Some(input.interactions[m].field);
            proof {
                assert(focus_changed@ =~= show_events(input.interactions@.take(m as int + 1)));
            }
        } else {
            proof {
                assert(focus_changed@ =~= show_events(input.interactions@.take(m as int + 1)));
            }
        }
        m = m + 1;
    }
    proof {
        assert(input.interactions@.take(input.interactions@.len() as int)
            =~= input.interactions@);
    }
    match target {
        None => {},
        Some(t) => {
            let already_focused = match ctx.focus {
                Some(i) => i == t,
                None => false,
            };
            if !already_focused {
                match ctx.focus {
                    Some(i) => {
                        let ev = commit_field(ctx, i);
                        edited.push(ev);
                    },
                    None => {},
                }
                let mut f = ctx.fields.remove(t);
                f.has_focus = true;
                ctx.fields.insert(t, f);
                ctx.focus = Some(t);
                proof {
                    match old(ctx).focus {
                        Some(i) => {
                            assert(ctx.fields@ =~= old(ctx).fields@.update(
                                i as int,
                                committed_field(old(ctx).fields@[i as int]),
                            ).update(
                                t as int,
                                TextField { has_focus: true, ..old(ctx).fields@[t as int] },
                            ));
                        },
                        None => {
                            assert(ctx.fields@ =~= old(ctx).fields@.update(
                                t as int,
                                TextField { has_focus: true, ..old(ctx).fields@[t as int] },
                            ));
                        },
                    }
                    assert forall|j: int| 0 <= j < ctx.fields@.len() implies (
                    #[trigger] ctx.fields@[j]).wf() by {
                        assert(old(ctx).fields@[j].wf());
                    }
                    assert forall|j: int|
                        0 <= j < ctx.fields@.len() && j != t as int implies !(
                    #[trigger] ctx.fields@[j]).has_focus by {
                        if old(ctx).focus is Some {
                            let i = old(ctx).focus->0;
                            if j != i as int {
                                assert(ctx.fields@[j] == old(ctx).fields@[j]);
                            }
                        } else {
                            assert(ctx.fields@[j] == old(ctx).fields@[j]);
                        }
                    }
                }
            }
        },
    }
    FocusOutcome { edited, focus_changed }
}

/// The entering-focus side effect, run right after arbitration: the newly
/// focused field clears its placeholder if one was showing, restores its
/// text alpha, puts the cursor at the end of the buffer and splices in the
/// cursor glyph. A field already being edited is left alone, so a repeated
/// click cannot reset its cursor.
pub fn focus_text_box(ctx: &mut EditorContext)
    requires
        old(ctx).wf(),
    ensures
        final(ctx).wf(),
        final(ctx).focus == old(ctx).focus,
        final(ctx).config == old(ctx).config,
        final(ctx).display_cursor == old(ctx).display_cursor,
        final(ctx).blink_interval == old(ctx).blink_interval,
        final(ctx).fields@.len() == old(ctx).fields@.len(),
        match old(ctx).focus {
            None => final(ctx).fields@ == old(ctx).fields@,
            Some(i) => {
                if old(ctx).fields@[i as int].editing {
                    final(ctx).fields@ == old(ctx).fields@
                } else {
                    let f0 = old(ctx).fields@[i as int];
                    let f1 = final(ctx).fields@[i as int];
                    &&& forall|j: int|
                        0 <= j < old(ctx).fields@.len() && j != i as int
                            ==> #[trigger] final(ctx).fields@[j] == old(ctx).fields@[j]
                    &&& f1.has_focus
                    &&& f1.editing
                    &&& f1.glyph_visible
                    &&& f1.flat_pos() == f1.flat_text().len()
                    &&& if f0.editable.is_placeholder_shown {
                        &&& f1.flat_text() == Seq::<char>::empty()
                        &&& f1.segments@.len() == 1
                        &&& f1.editable == (TextEditable {
                            is_placeholder_shown: false,
                            ..f0.editable
                        })
                        &&& f1.text_alpha_permille == f0.editable.orig_text_alpha_permille
                    } else {
                        &&& f1.flat_text() == f0.flat_text()
                        &&& f1.segments == f0.segments
                        &&& f1.editable == f0.editable
                        &&& f1.text_alpha_permille == f0.text_alpha_permille
                    }
                }
            },
        },
{
    let i = match ctx.focus {
        None => {
            return ;
        },
        Some(i) => i,
    };
    if ctx.fields[i].editing {
        return ;
    }
    let mut f = ctx.fields.remove(i);
    if f.editable.is_placeholder_shown {
        let style = f.segments[0].style;
        let mut segs: Vec<Segment> = Vec::new();
        segs.push(Segment { text: Vec::new(), style });
        f.segments = segs;
        f.cursor = CursorPosition { segment_index: 0, offset: 0 };
        f.editable.is_placeholder_shown = false;
        f.text_alpha_permille = f.editable.orig_text_alpha_permille;
        proof {
            assert(f.texts() =~= seq![Seq::<char>::empty()]);
            assert(f.texts().drop_first() =~= Seq::<Seq<char>>::empty());
            assert(crate::field::flat_of(Seq::<Seq<char>>::empty()) =~= Seq::<char>::empty());
            assert(f.flat_text() == f.texts()[0] + crate::field::flat_of(
                f.texts().drop_first(),
            ));
            assert(f.flat_text() =~= Seq::<char>::empty());
        }
    }
    f.move_end();
    f.editing = true;
    ctx.fields.insert(i, f);
    proof {
        assert(ctx.fields@ =~= old(ctx).fields@.update(i as int, ctx.fields@[i as int]));
        assert forall|j: int| 0 <= j < ctx.fields@.len() implies (
        #[trigger] ctx.fields@[j]).wf() by {
            assert(old(ctx).fields@[j].wf());
        }
        assert forall|j: int|
            0 <= j < ctx.fields@.len() && j != i as int implies !(
        #[trigger] ctx.fields@[j]).has_focus by {
            assert(ctx.fields@[j] == old(ctx).fields@[j]);
        }
    }
}

} // verus!
