//! One editor tick, in the required order: focus arbitration first, then
//! the entering-focus side effect, then keyboard input against the settled
//! focus, and finally the blink and placeholder subsystems, which read the
//! settled buffers. Each phase is a public function with its own exact
//! contract; this function only sequences them.

use vstd::prelude::*;

use crate::blink::{blink_cursor, display_placeholder, placeholder_applies};
use crate::context::{EditorContext, TextEdited, TextFocusChanged};
use crate::field::TextField;
use crate::filter::pattern_views;
use crate::focus::{
    commit_text, committed_field, focus_text_box, last_pressed, listen_changing_focus, show_events,
    wants_unfocus, FocusInput,
};
use crate::keyboard::{
    clip_view, field_edit_state, key_fold, listen_keyboard_input, EditState, KeyInput,
};

verus! {

/// Everything the host hands the editor for one tick.
pub struct TickInput {
    /// Pointer and touch signals for focus arbitration.
    pub focus: FocusInput,
    /// The tick's raw keyboard events, real and synthetic, in order.
    pub keys: Vec<KeyInput>,
    /// Whether a control key is held, for the paste chord.
    pub ctrl_pressed: bool,
    /// The host's clipboard text, if it has one.
    pub clipboard: Option<Vec<char>>,
    /// Clock time since the previous tick, in milliseconds.
    pub delta_ms: u32,
}

/// What one tick publishes back to the host.
pub struct TickOutcome {
    /// At most one field was committed this tick.
    pub edited: Vec<TextEdited>,
    pub focus_changed: Vec<TextFocusChanged>,
}

/// Run one editor tick.
pub fn tick(ctx: &mut EditorContext, input: &TickInput) -> (out: TickOutcome)
    requires
        old(ctx).wf(),
        forall|k: int|
            0 <= k < input.focus.interactions@.len() ==> (
            #[trigger] input.focus.interactions@[k]).field < old(ctx).fields@.len(),
    ensures
        final(ctx).wf(),
        final(ctx).at_most_one_focus(),
        final(ctx).config == old(ctx).config,
        final(ctx).display_cursor == old(ctx).display_cursor,
        final(ctx).fields@.len() == old(ctx).fields@.len(),
        final(ctx).blink_interval.period_ms == old(ctx).blink_interval.period_ms,
        final(ctx).blink_interval.elapsed_ms == (old(ctx).blink_interval.elapsed_ms
            + input.delta_ms) % (old(ctx).blink_interval.period_ms as int),
        out.edited@.len() <= 1,
        ({
            let unfocus_all = wants_unfocus(input.keys@) || (input.focus.interactions@.len() == 0
                && !input.focus.virtual_keyboard_interacted && input.focus.clicked_elsewhere);
            if unfocus_all {
                &&& out.focus_changed@ == seq![TextFocusChanged::Hide]
                &&& match old(ctx).focus {
                    Some(i) => out.edited@.len() == 1 && out.edited@[0].field == i
                        && out.edited@[0].text@ == commit_text(old(ctx).fields@[i as int]),
                    None => out.edited@.len() == 0,
                }
            } else {
                &&& out.focus_changed@ == show_events(input.focus.interactions@)
                &&& match last_pressed(input.focus.interactions@) {
                    None => out.edited@.len() == 0,
                    Some(t) => {
                        if old(ctx).focus == Some(t) {
                            out.edited@.len() == 0
                        } else {
                            match old(ctx).focus {
                                Some(i) => out.edited@.len() == 1 && out.edited@[0].field == i
                                    && out.edited@[0].text@ == commit_text(
                                    old(ctx).fields@[i as int],
                                ),
                                None => out.edited@.len() == 0,
                            }
                        }
                    },
                }
            }
        }),
        ({
            let unfocus_all = wants_unfocus(input.keys@) || (input.focus.interactions@.len() == 0
                && !input.focus.virtual_keyboard_interacted && input.focus.clicked_elsewhere);
            let focus1 = if unfocus_all {
                None
            } else {
                match last_pressed(input.focus.interactions@) {
                    Some(t) => Some(t),
                    None => old(ctx).focus,
                }
            };
            match focus1 {
                Some(fi) => {
                    let f0 = old(ctx).fields@[fi as int];
                    let base = if f0.editing {
                        field_edit_state(f0)
                    } else {
                        let c = commit_text(f0);
                        EditState { text: c, pos: c.len() as int, glyph_visible: true }
                    };
                    let stn = key_fold(
                        base,
                        input.keys@,
                        pattern_views(f0.editable.filter_out@),
                        pattern_views(f0.editable.filter_in@),
                        f0.editable.max_length as int,
                        old(ctx).display_cursor.0,
                        input.ctrl_pressed,
                        clip_view(input.clipboard),
                    );
                    &&& final(ctx).fields@[fi as int].flat_text() == stn.text
                    &&& final(ctx).fields@[fi as int].flat_pos() == stn.pos
                },
                None => forall|j: int|
                    0 <= j < old(ctx).fields@.len() ==> {
                        let f0 = old(ctx).fields@[j];
                        if placeholder_applies(
                            TextField { has_focus: false, editing: false, ..f0 },
                        ) {
                            (#[trigger] final(ctx).fields@[j]).flat_text()
                                == f0.editable.placeholder@
                        } else {
                            final(ctx).fields@[j].flat_text() == f0.flat_text()
                        }
                    },
            }
        }),
{
    let out = listen_changing_focus(ctx, &input.focus, &input.keys);
    let ghost ctx1 = *ctx;
    focus_text_box(ctx);
    let ghost ctx2 = *ctx;
    listen_keyboard_input(ctx, &input.keys, input.ctrl_pressed, &input.clipboard);
    let ghost ctx3 = *ctx;
    blink_cursor(ctx, input.delta_ms);
    let ghost ctx4 = *ctx;
    display_placeholder(ctx);
    proof {
        ctx.lemma_at_most_one_focus();
        let unfocus_all = wants_unfocus(input.keys@) || (input.focus.interactions@.len() == 0
            && !input.focus.virtual_keyboard_interacted && input.focus.clicked_elsewhere);
        let focus1 = if unfocus_all {
            None
        } else {
            match last_pressed(input.focus.interactions@) {
                Some(t) => Some(t),
                None => old(ctx).focus,
            }
        };
        match focus1 {
            Some(fi) => {
                let f0 = old(ctx).fields@[fi as int];
                assert(ctx1.focus == Some(fi));
                let g1 = ctx1.fields@[fi as int];
                assert(g1.segments == f0.segments && g1.cursor == f0.cursor && g1.editing
                    == f0.editing && g1.glyph_visible == f0.glyph_visible && g1.editable
                    == f0.editable) by {
                    match last_pressed(input.focus.interactions@) {
                        Some(t) => {
                            if old(ctx).focus == Some(t) {
                                assert(g1 == f0);
                            } else {
                                assert(g1 == (TextField { has_focus: true, ..f0 }));
                            }
                        },
                        None => {
                            assert(g1 == f0);
                        },
                    }
                }
                assert(g1.flat_text() == f0.flat_text() && g1.flat_pos() == f0.flat_pos());
                let g2 = ctx2.fields@[fi as int];
                let base = if f0.editing {
                    field_edit_state(f0)
                } else {
                    let c = commit_text(f0);
                    EditState { text: c, pos: c.len() as int, glyph_visible: true }
                };
                assert(field_edit_state(g2) == base && g2.editing && g2.editable.filter_out
                    == f0.editable.filter_out && g2.editable.filter_in == f0.editable.filter_in
                    && g2.editable.max_length == f0.editable.max_length) by {
                    if f0.editing {
                        assert(g2 == g1);
                    } else {
                        assert(g2.flat_pos() == g2.flat_text().len());
                        if f0.editable.is_placeholder_shown {
                            assert(g2.flat_text() == Seq::<char>::empty());
                        } else {
                            assert(g2.flat_text() == f0.flat_text());
                        }
                    }
                }
                let stn = key_fold(
                    base,
                    input.keys@,
                    pattern_views(f0.editable.filter_out@),
                    pattern_views(f0.editable.filter_in@),
                    f0.editable.max_length as int,
                    old(ctx).display_cursor.0,
                    input.ctrl_pressed,
                    clip_view(input.clipboard),
                );
                let g3 = ctx3.fields@[fi as int];
                assert(ctx2.focus == Some(fi));
                assert(ctx2.display_cursor == old(ctx).display_cursor);
                assert(g3.flat_text() == stn.text && g3.flat_pos() == stn.pos && g3.has_focus);
                let g4 = ctx4.fields@[fi as int];
                assert(g4.flat_text() == g3.flat_text() && g4.flat_pos() == g3.flat_pos()
                    && g4.has_focus) by {
                    if ctx4.fields@ == ctx3.fields@ {
                    } else {
                        assert(g4 == (TextField { glyph_visible: g4.glyph_visible, ..g3 }));
                    }
                }
                assert(!placeholder_applies(g4));
                assert(ctx.fields@[fi as int] == g4);
            },
            None => {
                assert forall|j: int| 0 <= j < old(ctx).fields@.len() implies ({
                    let f0 = old(ctx).fields@[j];
                    if placeholder_applies(TextField { has_focus: false, editing: false, ..f0 }) {
                        (#[trigger] ctx.fields@[j]).flat_text() == f0.editable.placeholder@
                    } else {
                        ctx.fields@[j].flat_text() == f0.flat_text()
                    }
                }) by {
                    let f0 = old(ctx).fields@[j];
                    let unfocused0 = TextField { has_focus: false, editing: false, ..f0 };
                    assert(ctx1.fields@[j] == unfocused0) by {
                        if unfocus_all {
                            match old(ctx).focus {
                                Some(i) => {
                                    if j == i as int {
                                        assert(ctx1.fields@[j] == committed_field(f0));
                                    } else {
                                        assert(ctx1.fields@[j] == f0);
                                        assert(!f0.has_focus && !f0.editing);
                                    }
                                },
                                None => {
                                    assert(ctx1.fields@[j] == f0);
                                    assert(!f0.has_focus && !f0.editing);
                                },
                            }
                        } else {
                            assert(ctx1.fields@[j] == f0);
                            assert(!f0.has_focus && !f0.editing);
                        }
                    }
                    assert(ctx1.focus is None);
                    assert(ctx2.fields@[j] == ctx1.fields@[j]);
                    assert(ctx3.fields@[j] == ctx2.fields@[j]);
                    assert(ctx4.fields@[j] == ctx3.fields@[j]);
                    assert(ctx4.fields@[j] == unfocused0);
                    if placeholder_applies(unfocused0) {
                        assert(ctx.fields@[j].flat_text() == unfocused0.editable.placeholder@);
                    } else {
                        assert(ctx.fields@[j] == ctx4.fields@[j]);
                        assert(unfocused0.flat_text() == f0.flat_text());
                    }
                }
            },
        }
    }
    TickOutcome { edited: out.edited, focus_changed: out.focus_changed }
}

} // verus!
