//! The two subsystems that run last in a tick: the shared blink timer that
//! toggles the focused field's cursor glyph, and the placeholder manager
//! that swaps placeholder text into empty unfocused fields.

use vstd::prelude::*;

use crate::context::EditorContext;
use crate::field::{CursorPosition, Segment, TextEditable, TextField};
use crate::text::{copy_chars, utf8_len, utf8_len_checked, MAX_TEXT_BYTES};

verus! {

/// Advance the shared blink timer by `delta_ms`; each time it completes a
/// period, the focused field's cursor glyph toggles between the glyph and
/// a space — when blinking is enabled and a field is being edited.
pub fn blink_cursor(ctx: &mut EditorContext, delta_ms: u32)
    requires
        old(ctx).wf(),
    ensures
        final(ctx).wf(),
        final(ctx).focus == old(ctx).focus,
        final(ctx).config == old(ctx).config,
        final(ctx).display_cursor == old(ctx).display_cursor,
        final(ctx).blink_interval.period_ms == old(ctx).blink_interval.period_ms,
        final(ctx).blink_interval.elapsed_ms == (old(ctx).blink_interval.elapsed_ms + delta_ms) % (
        old(ctx).blink_interval.period_ms as int),
        final(ctx).fields@.len() == old(ctx).fields@.len(),
        ({
            let fired = old(ctx).blink_interval.elapsed_ms + delta_ms
                >= old(ctx).blink_interval.period_ms;
            let toggles = old(ctx).config.blink && fired && (match old(ctx).focus {
                Some(i) => old(ctx).fields@[i as int].editing,
                None => false,
            });
            if toggles {
                final(ctx).fields@ == old(ctx).fields@.update(
                    old(ctx).focus->0 as int,
                    TextField {
                        glyph_visible: !old(ctx).fields@[old(ctx).focus->0 as int].glyph_visible,
                        ..old(ctx).fields@[old(ctx).focus->0 as int]
                    },
                )
            } else {
                final(ctx).fields@ == old(ctx).fields@
            }
        }),
{
    let period = ctx.blink_interval.period_ms;
    let total: u64 = ctx.blink_interval.elapsed_ms as u64 + delta_ms as u64;
    let fired = total >= period as u64;
    ctx.blink_interval.elapsed_ms = (total % period as u64) as u32;
    if fired && ctx.config.blink {
        match ctx.focus {
            Some(i) => {
                if ctx.fields[i].editing {
                    let mut f = ctx.fields.remove(i);
                    f.glyph_visible = !f.glyph_visible;
                    ctx.fields.insert(i, f);
                    proof {
                        assert(ctx.fields@ =~= old(ctx).fields@.update(
                            i as int,
                            TextField {
                                glyph_visible: !old(ctx).fields@[i as int].glyph_visible,
                                ..old(ctx).fields@[i as int]
                            },
                        ));
                        assert forall|j: int| 0 <= j < ctx.fields@.len() implies (
                        #[trigger] ctx.fields@[j]).wf() by {
                            assert(old(ctx).fields@[j].wf());
                        }
                        assert forall|j: int|
                            0 <= j < ctx.fields@.len() && j != i as int implies !(
                        #[trigger] ctx.fields@[j]).has_focus by {
                            assert(ctx.fields@[j] == old(ctx).fields@[j]);
                        }
                    }
                }
            },
            None => {},
        }
    }
}

/// Whether the placeholder swaps in for this field: it is unfocused, its
/// buffer is empty, it has placeholder text that is not already showing,
/// and that text fits the buffer's byte limit.
pub open spec fn placeholder_applies(f: TextField) -> bool {
    &&& !f.has_focus
    &&& f.flat_text().len() == 0
    &&& !f.editable.is_placeholder_shown
    &&& f.editable.placeholder@.len() > 0
    &&& utf8_len(f.editable.placeholder@) <= MAX_TEXT_BYTES
}

/// For every unfocused field whose buffer is empty and whose placeholder is
/// non-empty: show the placeholder text at the configured reduced alpha,
/// remember the field's own alpha, and mark the placeholder as shown.
pub fn display_placeholder(ctx: &mut EditorContext)
    requires
        old(ctx).wf(),
    ensures
        final(ctx).wf(),
        final(ctx).focus == old(ctx).focus,
        final(ctx).config == old(ctx).config,
        final(ctx).display_cursor == old(ctx).display_cursor,
        final(ctx).blink_interval == old(ctx).blink_interval,
        final(ctx).fields@.len() == old(ctx).fields@.len(),
        forall|j: int|
            0 <= j < old(ctx).fields@.len() ==> {
                let f0 = old(ctx).fields@[j];
                let f1 = #[trigger] final(ctx).fields@[j];
                if placeholder_applies(f0) {
                    &&& f1.flat_text() == f0.editable.placeholder@
                    &&& f1.segments@.len() == 1
                    &&& f1.editable == (TextEditable {
                        is_placeholder_shown: true,
                        orig_text_alpha_permille: f0.text_alpha_permille,
                        ..f0.editable
                    })
                    &&& f1.text_alpha_permille == old(ctx).config.placeholder_alpha_permille
                    &&& f1.has_focus == f0.has_focus
                    &&& f1.editing == f0.editing
                    &&& f1.glyph_visible == f0.glyph_visible
                    &&& f1.flat_pos() == 0
                } else {
                    f1 == f0
                }
            },
{
    let n = ctx.fields.len();
    let mut j: usize = 0;
    while j < n
        invariant
            n == ctx.fields@.len(),
            n == old(ctx).fields@.len(),
            j <= n,
            ctx.focus == old(ctx).focus,
            ctx.config == old(ctx).config,
            ctx.display_cursor == old(ctx).display_cursor,
            ctx.blink_interval == old(ctx).blink_interval,
            forall|k: int| j <= k < n ==> #[trigger] ctx.fields@[k] == old(ctx).fields@[k],
            forall|k: int|
                0 <= k < j ==> {
                    let f0 = old(ctx).fields@[k];
                    let f1 = #[trigger] ctx.fields@[k];
                    if placeholder_applies(f0) {
                        &&& f1.flat_text() == f0.editable.placeholder@
                        &&& f1.segments@.len() == 1
                        &&& f1.editable == (TextEditable {
                            is_placeholder_shown: true,
                            orig_text_alpha_permille: f0.text_alpha_permille,
                            ..f0.editable
                        })
                        &&& f1.text_alpha_permille == old(ctx).config.placeholder_alpha_permille
                        &&& f1.has_focus == f0.has_focus
                        &&& f1.editing == f0.editing
                        &&& f1.glyph_visible == f0.glyph_visible
                        &&& f1.flat_pos() == 0
                        &&& f1.wf()
                    } else {
                        f1 == f0
                    }
                },
            old(ctx).wf(),
        decreases n - j,
    {
        let mut f = ctx.fields.remove(j);
        let ghost f0 = old(ctx).fields@[j as int];
        let mut applies = false;
        if !f.has_focus && !f.editable.is_placeholder_shown && f.editable.placeholder.len() > 0 {
            let fc = f.flat_chars();
            if fc.len() == 0 {
                applies = true;
            }
        }
        if applies {
            let ph = copy_chars(&f.editable.placeholder);
            match utf8_len_checked(&ph) {
                None => {},
                Some(_) => {
                    let style = f.segments[0].style;
                    let mut segs: Vec<Segment> = Vec::new();
                    segs.push(Segment { text: ph, style });
                    f.segments = segs;
                    f.cursor = CursorPosition { segment_index: 0, offset: 0 };
                    f.editable.orig_text_alpha_permille = f.text_alpha_permille;
                    f.editable.is_placeholder_shown = true;
                    f.text_alpha_permille = ctx.config.placeholder_alpha_permille;
                    proof {
                        assert(f.texts() =~= seq![f0.editable.placeholder@]);
                        assert(f.texts().drop_first() =~= Seq::<Seq<char>>::empty());
                        assert(crate::field::flat_of(Seq::<Seq<char>>::empty())
                            =~= Seq::<char>::empty());
                        assert(f.flat_text() == f.texts()[0] + crate::field::flat_of(
                            f.texts().drop_first(),
                        ));
                        assert(f.flat_text() =~= f0.editable.placeholder@);
                        assert(!f.editing) by {
                            assert(f0.wf());
                        }
                    }
                },
            }
        }
        ctx.fields.insert(j, f);
        proof {
            assert(old(ctx).fields@[j as int].wf());
        }
        j = j + 1;
    }
    proof {
        assert forall|k: int| 0 <= k < ctx.fields@.len() implies (
        #[trigger] ctx.fields@[k]).wf() by {
            assert(old(ctx).fields@[k].wf());
            if placeholder_applies(old(ctx).fields@[k]) {
            } else {
                assert(ctx.fields@[k] == old(ctx).fields@[k]);
            }
        }
        assert forall|k: int| 0 <= k < ctx.fields@.len() implies (#[trigger] ctx.fields@[k])
            .has_focus == old(ctx).fields@[k].has_focus by {
            if !placeholder_applies(old(ctx).fields@[k]) {
                assert(ctx.fields@[k] == old(ctx).fields@[k]);
            }
        }
    }
}

} // verus!
