//! One editable text field: a buffer of styled segments, a cursor that
//! always sits on a scalar-value boundary, and the admission settings that
//! decide which characters may be typed into it.

use vstd::prelude::*;

use crate::text::{
    lemma_utf8_len_bounds, lemma_utf8_len_remove, lemma_utf8_len_splice, utf8_len, utf8_len_chars,
    utf8_len_checked, MAX_TEXT_BYTES,
};

verus! {

/// One contiguous styled run of text inside a field's buffer.
pub struct Segment {
    pub text: Vec<char>,
    pub style: u32,
}

/// Position of the edit cursor inside a segmented buffer: which segment it
/// sits in, and how many scalar values of that segment lie before it.
/// Counting in scalar values keeps the matching byte offset on a UTF-8
/// boundary by construction.
pub struct CursorPosition {
    pub segment_index: usize,
    pub offset: usize,
}

/// Admission settings of one editable field.
pub struct TextEditable {
    /// A character matching any of these patterns is not added to the text.
    pub filter_out: Vec<String>,
    /// If not empty, only characters matching one of these patterns are
    /// added to the text.
    pub filter_in: Vec<String>,
    /// Longest admitted buffer, in UTF-8 bytes, cursor glyph included.
    /// Zero means unlimited.
    pub max_length: usize,
    /// Shown in place of the text while the field is empty and unfocused.
    pub placeholder: Vec<char>,
    pub is_placeholder_shown: bool,
    /// Text alpha to restore when the placeholder is cleared, in thousandths.
    pub orig_text_alpha_permille: u16,
}

impl Default for TextEditable {
    /// No filters, a 254-byte cap, no placeholder, full alpha.
    fn default() -> (r: TextEditable)
        ensures
            r.filter_out@.len() == 0,
            r.filter_in@.len() == 0,
            r.max_length == 254,
            r.placeholder@.len() == 0,
            !r.is_placeholder_shown,
            r.orig_text_alpha_permille == 1000,
    {
        TextEditable::new()
    }
}

impl TextEditable {
    /// No filters, a 254-byte cap, no placeholder, full alpha.
    pub fn new() -> (r: TextEditable)
        ensures
            r.filter_out@.len() == 0,
            r.filter_in@.len() == 0,
            r.max_length == 254,
            r.placeholder@.len() == 0,
            !r.is_placeholder_shown,
            r.orig_text_alpha_permille == 1000,
    {
        TextEditable {
            filter_out: Vec::new(),
            filter_in: Vec::new(),
            max_length: 254,
            placeholder: Vec::new(),
            is_placeholder_shown: false,
            orig_text_alpha_permille: 1000,
        }
    }
}

/// The texts of a run of segments, in order.
pub open spec fn seg_texts(segs: Seq<Segment>) -> Seq<Seq<char>> {
    segs.map_values(|sg: Segment| sg.text@)
}

/// The style tags of a run of segments, in order.
pub open spec fn seg_styles(segs: Seq<Segment>) -> Seq<u32> {
    segs.map_values(|sg: Segment| sg.style)
}

/// All segment texts joined into one flat text.
pub open spec fn flat_of(texts: Seq<Seq<char>>) -> Seq<char>
    decreases texts.len(),
{
    if texts.len() == 0 {
        Seq::empty()
    } else {
        texts[0] + flat_of(texts.drop_first())
    }
}

/// Number of scalar values held by the first `k` segments.
pub open spec fn prefix_len(texts: Seq<Seq<char>>, k: int) -> int
    decreases k,
{
    if k <= 0 {
        0
    } else {
        prefix_len(texts, k - 1) + texts[k - 1].len()
    }
}

pub proof fn lemma_flat_of_split(texts: Seq<Seq<char>>, k: int)
    requires
        0 <= k <= texts.len(),
    ensures
        flat_of(texts) == flat_of(texts.take(k)) + flat_of(texts.skip(k)),
    decreases k,
{
    if k == 0 {
        assert(texts.take(0) =~= Seq::<Seq<char>>::empty());
        assert(texts.skip(0) =~= texts);
        assert(flat_of(texts.take(0)) + flat_of(texts) =~= flat_of(texts));
    } else {
        let dt = texts.drop_first();
        lemma_flat_of_split(dt, k - 1);
        assert(texts.take(k).len() > 0);
        assert(texts.take(k)[0] == texts[0]);
        assert(texts.take(k).drop_first() =~= dt.take(k - 1));
        assert(texts.skip(k) =~= dt.skip(k - 1));
        assert(flat_of(texts.take(k)) == texts[0] + flat_of(dt.take(k - 1)));
        assert((texts[0] + flat_of(dt.take(k - 1))) + flat_of(dt.skip(k - 1)) =~= texts[0] + (
        flat_of(dt.take(k - 1)) + flat_of(dt.skip(k - 1))));
    }
}

pub proof fn lemma_flat_of_elem(texts: Seq<Seq<char>>, k: int)
    requires
        0 <= k < texts.len(),
    ensures
        flat_of(texts) == flat_of(texts.take(k)) + texts[k] + flat_of(texts.skip(k + 1)),
    decreases texts.len(),
{
    lemma_flat_of_split(texts, k);
    let tail = texts.skip(k);
    assert(tail.len() > 0);
    assert(tail[0] == texts[k]);
    assert(tail.drop_first() =~= texts.skip(k + 1));
    assert(flat_of(tail) == texts[k] + flat_of(texts.skip(k + 1)));
    assert(flat_of(texts.take(k)) + (texts[k] + flat_of(texts.skip(k + 1))) =~= (flat_of(
    texts.take(k)) + texts[k]) + flat_of(texts.skip(k + 1)));
}

pub proof fn lemma_flat_of_update(texts: Seq<Seq<char>>, k: int, t2: Seq<char>)
    requires
        0 <= k < texts.len(),
    ensures
        flat_of(texts.update(k, t2)) == flat_of(texts.take(k)) + t2 + flat_of(texts.skip(k + 1)),
{
    let up = texts.update(k, t2);
    lemma_flat_of_elem(up, k);
    assert(up.take(k) =~= texts.take(k));
    assert(up.skip(k + 1) =~= texts.skip(k + 1));
}

pub proof fn lemma_prefix_len_is_take(texts: Seq<Seq<char>>, k: int)
    requires
        0 <= k <= texts.len(),
    ensures
        prefix_len(texts, k) == flat_of(texts.take(k)).len(),
    decreases k,
{
    if k > 0 {
        lemma_prefix_len_is_take(texts, k - 1);
        lemma_flat_of_elem(texts.take(k), k - 1);
        assert(texts.take(k).take(k - 1) =~= texts.take(k - 1));
        assert(texts.take(k).skip(k) =~= Seq::<Seq<char>>::empty());
        assert(texts.take(k)[k - 1] == texts[k - 1]);
    }
}

pub proof fn lemma_prefix_len_bounds(texts: Seq<Seq<char>>, k: int)
    requires
        0 <= k <= texts.len(),
    ensures
        0 <= prefix_len(texts, k) <= flat_of(texts).len(),
{
    lemma_prefix_len_is_take(texts, k);
    lemma_flat_of_split(texts, k);
}

/// Flat length equals the scalar count of all segments together.
pub proof fn lemma_flat_of_len(texts: Seq<Seq<char>>)
    ensures
        flat_of(texts).len() == prefix_len(texts, texts.len() as int),
{
    lemma_prefix_len_is_take(texts, texts.len() as int);
    assert(texts.take(texts.len() as int) =~= texts);
}

/// One editable text field: its segmented buffer, cursor, focus flags and
/// admission settings.
pub struct TextField {
    pub segments: Vec<Segment>,
    pub cursor: CursorPosition,
    /// Whether this field currently owns keyboard focus.
    pub has_focus: bool,
    /// Whether the entering-focus side effect has run: the cursor has been
    /// placed and a cursor glyph is spliced into the rendered text.
    pub editing: bool,
    /// Blink phase: whether the cursor glyph currently renders as the glyph
    /// character, as opposed to a space.
    pub glyph_visible: bool,
    pub editable: TextEditable,
    /// Current text alpha of the field, in thousandths.
    pub text_alpha_permille: u16,
}

impl TextField {
    /// The segment texts of this field.
    pub open spec fn texts(self) -> Seq<Seq<char>> {
        seg_texts(self.segments@)
    }

    /// The whole buffer as one flat text, cursor glyph excluded.
    pub open spec fn flat_text(self) -> Seq<char> {
        flat_of(self.texts())
    }

    /// The cursor's position in the flat text, in scalar values.
    pub open spec fn flat_pos(self) -> int {
        prefix_len(self.texts(), self.cursor.segment_index as int) + self.cursor.offset
    }

    /// The cursor's position in the flat text, in UTF-8 bytes. Always a
    /// boundary of the encoding, since it is the byte length of an exact
    /// prefix of the scalar values.
    pub open spec fn byte_offset(self) -> int {
        utf8_len(self.flat_text().take(self.flat_pos()))
    }

    /// Well-formedness: at least one segment, cursor inside the buffer,
    /// byte length within the machine bound, and focus flags consistent.
    pub open spec fn wf(self) -> bool {
        &&& self.segments@.len() >= 1
        &&& (self.cursor.segment_index as int) < self.segments@.len()
        &&& self.cursor.offset <= self.texts()[self.cursor.segment_index as int].len()
        &&& utf8_len(self.flat_text()) <= MAX_TEXT_BYTES
        &&& self.editing ==> self.has_focus
        &&& self.editing ==> !self.editable.is_placeholder_shown
    }

    /// The cursor never leaves the buffer: its flat position stays within
    /// `[0, total length]` on every well-formed field.
    pub proof fn lemma_cursor_in_bounds(self)
        requires
            self.wf(),
        ensures
            0 <= self.flat_pos() <= self.flat_text().len(),
    {
        let ci = self.cursor.segment_index as int;
        lemma_prefix_len_bounds(self.texts(), ci);
        lemma_prefix_len_is_take(self.texts(), ci);
        lemma_prefix_len_is_take(self.texts(), ci + 1);
        lemma_prefix_len_bounds(self.texts(), ci + 1);
        assert(prefix_len(self.texts(), ci + 1) == prefix_len(self.texts(), ci)
            + self.texts()[ci].len());
    }

    /// Law: the cursor's byte offset is the byte length of an exact prefix
    /// of the buffer's scalar values, so it can never split the UTF-8
    /// encoding of one scalar value; together with
    /// `lemma_cursor_in_bounds` and the move operations' contracts, any run
    /// of cursor moves keeps the cursor inside `[0, total length]` and on a
    /// boundary.
    pub proof fn lemma_cursor_on_scalar_boundary(self)
        requires
            self.wf(),
        ensures
            exists|k: int|
                0 <= k <= self.flat_text().len() && self.byte_offset() == utf8_len(
                    #[trigger] self.flat_text().take(k),
                ),
    {
        self.lemma_cursor_in_bounds();
        assert(self.byte_offset() == utf8_len(self.flat_text().take(self.flat_pos())));
    }

    /// A field whose buffer is one unstyled segment holding `chars`,
    /// unfocused, with the given admission settings. Refused when the text
    /// would pass the buffer's byte limit.
    pub fn from_chars(chars: Vec<char>, editable: TextEditable) -> (r: Option<TextField>)
        ensures
            match r {
                Some(f) => {
                    &&& f.wf()
                    &&& f.flat_text() == chars@
                    &&& f.segments@.len() == 1
                    &&& f.editable == editable
                    &&& !f.has_focus
                    &&& !f.editing
                    &&& f.flat_pos() == 0
                    &&& f.text_alpha_permille == 1000
                },
                None => utf8_len(chars@) > MAX_TEXT_BYTES,
            },
    {
        let byte_len = utf8_len_checked(&chars);
        match byte_len {
            None => None,
            Some(_) => {
                let seg = Segment { text: chars, style: 0 };
                let mut segments: Vec<Segment> = Vec::new();
                segments.push(seg);
                let f = TextField {
                    segments,
                    cursor: CursorPosition { segment_index: 0, offset: 0 },
                    has_focus: false,
                    editing: false,
                    glyph_visible: false,
                    editable,
                    text_alpha_permille: 1000,
                };
                proof {
                    assert(f.texts() =~= seq![f.segments@[0].text@]);
                    assert(f.texts().drop_first() =~= Seq::<Seq<char>>::empty());
                    assert(f.flat_text() =~= f.texts()[0] + flat_of(
                        f.texts().drop_first(),
                    ));
                    assert(f.flat_text() =~= f.segments@[0].text@);
                }
                Some(f)
            },
        }
    }

    /// The whole buffer, cursor glyph excluded, as one character vector.
    pub fn flat_chars(&self) -> (r: Vec<char>)
        ensures
            r@ == self.flat_text(),
    {
        let mut r: Vec<char> = Vec::new();
        let mut k: usize = 0;
        while k < self.segments.len()
            invariant
                k <= self.segments@.len(),
                r@ == flat_of(self.texts().take(k as int)),
            decreases self.segments@.len() - k,
        {
            let seg_len = self.segments[k].text.len();
            let mut i: usize = 0;
            while i < seg_len
                invariant
                    k < self.segments@.len(),
                    seg_len == self.texts()[k as int].len(),
                    i <= seg_len,
                    r@ == flat_of(self.texts().take(k as int)) + self.texts()[k as int].take(
                        i as int,
                    ),
                decreases seg_len - i,
            {
                r.push(self.segments[k].text[i]);
                proof {
                    let t = self.texts()[k as int];
                    assert(t.take(i as int).push(t[i as int]) =~= t.take(i as int + 1));
                    assert((flat_of(self.texts().take(k as int)) + t.take(i as int)).push(
                        t[i as int],
                    ) =~= flat_of(self.texts().take(k as int)) + t.take(i as int + 1));
                }
                i = i + 1;
            }
            proof {
                let texts = self.texts();
                lemma_flat_of_elem(texts.take(k as int + 1), k as int);
                assert(texts.take(k as int + 1).take(k as int) =~= texts.take(k as int));
                assert(texts.take(k as int + 1).skip(k as int + 1) =~= Seq::<Seq<char>>::empty());
                assert(texts.take(k as int + 1)[k as int] == texts[k as int]);
                assert(texts[k as int].take(seg_len as int) =~= texts[k as int]);
                assert(flat_of(texts.take(k as int)) + texts[k as int] + flat_of(
                    Seq::<Seq<char>>::empty(),
                ) =~= flat_of(texts.take(k as int)) + texts[k as int]);
            }
            k = k + 1;
        }
        proof {
            assert(self.texts().take(self.segments@.len() as int) =~= self.texts());
        }
        r
    }

    /// Byte length of the buffer, cursor glyph excluded.
    pub fn byte_length(&self) -> (n: usize)
        requires
            self.wf(),
        ensures
            n == utf8_len(self.flat_text()),
    {
        let chars = self.flat_chars();
        proof {
            lemma_utf8_len_bounds(chars@);
        }
        utf8_len_chars(&chars)
    }

    /// The cursor's flat position, in scalar values from the buffer start.
    pub fn cursor_flat_pos(&self) -> (p: usize)
        requires
            self.wf(),
        ensures
            p == self.flat_pos(),
    {
        proof {
            self.lemma_cursor_in_bounds();
            lemma_utf8_len_bounds(self.flat_text());
        }
        let ci = self.cursor.segment_index;
        let mut acc: usize = 0;
        let mut k: usize = 0;
        while k < ci
            invariant
                k <= ci,
                ci < self.segments@.len(),
                acc == prefix_len(self.texts(), k as int),
                self.wf(),
            decreases ci - k,
        {
            proof {
                lemma_prefix_len_bounds(self.texts(), k as int + 1);
                lemma_utf8_len_bounds(self.flat_text());
                assert(prefix_len(self.texts(), k as int + 1) == prefix_len(
                    self.texts(),
                    k as int,
                ) + self.texts()[k as int].len());
            }
            acc = acc + self.segments[k].text.len();
            k = k + 1;
        }
        acc + self.cursor.offset
    }

    /// The character shown at the cursor: the glyph, or a space while the
    /// blink phase has it hidden.
    pub open spec fn shown_glyph(self, glyph: char) -> char {
        if self.glyph_visible {
            glyph
        } else {
            ' '
        }
    }

    /// What the field displays: the buffer with the cursor glyph spliced in
    /// at the cursor while the field is being edited, the bare buffer
    /// otherwise.
    pub open spec fn rendered_text(self, glyph: char) -> Seq<char> {
        if self.editing {
            self.flat_text().take(self.flat_pos()) + seq![self.shown_glyph(glyph)]
                + self.flat_text().skip(self.flat_pos())
        } else {
            self.flat_text()
        }
    }

    /// The displayed text as a character vector.
    pub fn rendered_chars(&self, glyph: char) -> (r: Vec<char>)
        requires
            self.wf(),
        ensures
            r@ == self.rendered_text(glyph),
    {
        let mut r = self.flat_chars();
        if self.editing {
            proof {
                self.lemma_cursor_in_bounds();
            }
            let p = self.cursor_flat_pos();
            let shown = if self.glyph_visible {
                glyph
            } else {
                ' '
            };
            r.insert(p, shown);
            proof {
                let flat = self.flat_text();
                assert(flat.insert(self.flat_pos(), self.shown_glyph(glyph)) =~= flat.take(
                    self.flat_pos(),
                ) + seq![self.shown_glyph(glyph)] + flat.skip(self.flat_pos()));
            }
        }
        r
    }

    /// Splice characters into the buffer at the cursor and move the cursor
    /// past them. The caller has already decided admission.
    pub fn insert_chars(&mut self, s: &Vec<char>)
        requires
            old(self).wf(),
            utf8_len(old(self).flat_text()) + utf8_len(s@) <= MAX_TEXT_BYTES,
        ensures
            final(self).wf(),
            final(self).flat_text() == old(self).flat_text().take(old(self).flat_pos()) + s@
                + old(self).flat_text().skip(old(self).flat_pos()),
            final(self).flat_pos() == old(self).flat_pos() + s@.len(),
            utf8_len(final(self).flat_text()) == utf8_len(old(self).flat_text()) + utf8_len(s@),
            final(self).glyph_visible == old(self).glyph_visible,
            final(self).has_focus == old(self).has_focus,
            final(self).editing == old(self).editing,
            final(self).editable == old(self).editable,
            final(self).text_alpha_permille == old(self).text_alpha_permille,
            seg_styles(final(self).segments@) == seg_styles(old(self).segments@),
            final(self).segments@.len() == old(self).segments@.len(),
    {
        proof {
            old(self).lemma_cursor_in_bounds();
            lemma_utf8_len_bounds(old(self).flat_text());
            lemma_utf8_len_bounds(s@);
            lemma_flat_of_elem(old(self).texts(), old(self).cursor.segment_index as int);
            lemma_prefix_len_is_take(old(self).texts(), old(self).cursor.segment_index as int);
        }
        let ci = self.cursor.segment_index;
        let off = self.cursor.offset;
        let ghost old_texts = self.texts();
        let ghost t_old = old_texts[ci as int];
        let mut seg = self.segments.remove(ci);
        let mut nt: Vec<char> = Vec::new();
        let mut i: usize = 0;
        while i < off
            invariant
                off <= seg.text@.len(),
                i <= off,
                seg.text@ == t_old,
                nt@ == t_old.take(i as int),
            decreases off - i,
        {
            nt.push(seg.text[i]);
            proof {
                assert(t_old.take(i as int).push(t_old[i as int]) =~= t_old.take(i as int + 1));
            }
            i = i + 1;
        }
        let mut m: usize = 0;
        while m < s.len()
            invariant
                m <= s@.len(),
                off <= seg.text@.len(),
                seg.text@ == t_old,
                nt@ == t_old.take(off as int) + s@.take(m as int),
            decreases s@.len() - m,
        {
            nt.push(s[m]);
            proof {
                assert((t_old.take(off as int) + s@.take(m as int)).push(s@[m as int]) =~= t_old
                    .take(off as int) + s@.take(m as int + 1));
            }
            m = m + 1;
        }
        let mut q: usize = off;
        while q < seg.text.len()
            invariant
                off <= q <= seg.text@.len(),
                seg.text@ == t_old,
                nt@ == t_old.take(off as int) + s@ + t_old.skip(off as int).take(
                    q as int - off as int,
                ),
            decreases seg.text@.len() - q,
        {
            nt.push(seg.text[q]);
            proof {
                assert((t_old.take(off as int) + s@ + t_old.skip(off as int).take(
                    q as int - off as int,
                )).push(t_old[q as int]) =~= t_old.take(off as int) + s@ + t_old.skip(
                    off as int,
                ).take(q as int + 1 - off as int));
            }
            q = q + 1;
        }
        proof {
            assert(s@.take(s@.len() as int) =~= s@);
            assert(t_old.skip(off as int).take(t_old.len() - off as int) =~= t_old.skip(
                off as int,
            ));
        }
        seg.text = nt;
        self.segments.insert(ci, seg);
        self.cursor.offset = off + s.len();
        proof {
            let t_new = t_old.take(off as int) + s@ + t_old.skip(off as int);
            assert(self.segments@ =~= old(self).segments@.update(ci as int, self.segments@[ci as int]));
            assert(self.texts() =~= old_texts.update(ci as int, t_new));
            assert(seg_styles(self.segments@) =~= seg_styles(old(self).segments@));
            lemma_flat_of_update(old_texts, ci as int, t_new);
            let a = flat_of(old_texts.take(ci as int));
            let b = flat_of(old_texts.skip(ci as int + 1));
            let flat0 = old(self).flat_text();
            let p = old(self).flat_pos();
            assert(flat0 == a + t_old + b);
            assert(a.len() == prefix_len(old_texts, ci as int));
            assert(flat_of(self.texts()) == a + t_new + b);
            assert(a + t_new + b =~= flat0.take(p) + s@ + flat0.skip(p));
            lemma_utf8_len_splice(flat0, p, s@);
            // the new cursor position
            lemma_prefix_len_is_take(self.texts(), ci as int);
            assert(self.texts().take(ci as int) =~= old_texts.take(ci as int));
            assert(self.flat_pos() == p + s@.len());
            lemma_utf8_len_bounds(self.flat_text());
        }
    }

    /// Remove the scalar value immediately before the cursor, crossing into
    /// the nearest earlier non-empty segment when the cursor sits at the
    /// start of its own. Crossing moves the cursor into that segment; a
    /// cursor at the very start of the buffer makes this a no-op.
    pub fn delete_backward(&mut self)
        requires
            old(self).wf(),
        ensures
            final(self).wf(),
            old(self).flat_pos() > 0 ==> {
                &&& final(self).flat_text() == old(self).flat_text().remove(
                    old(self).flat_pos() - 1,
                )
                &&& final(self).flat_pos() == old(self).flat_pos() - 1
                &&& final(self).glyph_visible == old(self).glyph_visible
                &&& final(self).has_focus == old(self).has_focus
                &&& final(self).editing == old(self).editing
                &&& final(self).editable == old(self).editable
                &&& final(self).text_alpha_permille == old(self).text_alpha_permille
                &&& seg_styles(final(self).segments@) == seg_styles(old(self).segments@)
                &&& final(self).segments@.len() == old(self).segments@.len()
            },
            old(self).flat_pos() == 0 ==> *final(self) == *old(self),
    {
        proof {
            old(self).lemma_cursor_in_bounds();
            lemma_flat_of_elem(old(self).texts(), old(self).cursor.segment_index as int);
            lemma_prefix_len_is_take(old(self).texts(), old(self).cursor.segment_index as int);
        }
        let ghost old_texts = self.texts();
        if self.cursor.offset > 0 {
            let ci = self.cursor.segment_index;
            let off = self.cursor.offset;
            let mut seg = self.segments.remove(ci);
            seg.text.remove(off - 1);
            self.segments.insert(ci, seg);
            self.cursor.offset = off - 1;
            proof {
                let t_old = old_texts[ci as int];
                let t_new = t_old.remove(off as int - 1);
                assert(self.segments@ =~= old(self).segments@.update(ci as int, self.segments@[ci as int]));
                assert(self.texts() =~= old_texts.update(ci as int, t_new));
                assert(seg_styles(self.segments@) =~= seg_styles(old(self).segments@));
                lemma_flat_of_update(old_texts, ci as int, t_new);
                let a = flat_of(old_texts.take(ci as int));
                let b = flat_of(old_texts.skip(ci as int + 1));
                let flat0 = old(self).flat_text();
                let p = old(self).flat_pos();
                assert(a.len() == prefix_len(old_texts, ci as int));
                assert(flat0 == a + t_old + b);
                assert(flat_of(self.texts()) == a + t_new + b);
                assert(a + t_new + b =~= flat0.remove(p - 1));
                lemma_utf8_len_remove(flat0, p - 1);
                lemma_prefix_len_is_take(self.texts(), ci as int);
                assert(self.texts().take(ci as int) =~= old_texts.take(ci as int));
                lemma_utf8_len_bounds(self.flat_text());
            }
        } else {
            let ci = self.cursor.segment_index;
            let mut j = ci;
            while j > 0 && self.segments[j - 1].text.len() == 0
                invariant
                    j <= ci,
                    ci == self.cursor.segment_index,
                    self.wf(),
                    *self == *old(self),
                    prefix_len(self.texts(), ci as int) == prefix_len(self.texts(), j as int),
                decreases j,
            {
                proof {
                    assert(prefix_len(self.texts(), j as int) == prefix_len(
                        self.texts(),
                        j as int - 1,
                    ) + self.texts()[j as int - 1].len());
                }
                j = j - 1;
            }
            if j > 0 {
                proof {
                    assert(prefix_len(self.texts(), j as int) == prefix_len(
                        self.texts(),
                        j as int - 1,
                    ) + self.texts()[j as int - 1].len());
                    lemma_flat_of_elem(old_texts, j as int - 1);
                    lemma_prefix_len_is_take(old_texts, j as int - 1);
                    lemma_prefix_len_bounds(old_texts, j as int - 1);
                }
                let mut seg = self.segments.remove(j - 1);
                let l = seg.text.len();
                seg.text.remove(l - 1);
                self.segments.insert(j - 1, seg);
                self.cursor = CursorPosition { segment_index: j - 1, offset: l - 1 };
                proof {
                    let t_old = old_texts[j as int - 1];
                    let t_new = t_old.remove(l as int - 1);
                    assert(self.segments@ =~= old(self).segments@.update(
                        j as int - 1,
                        self.segments@[j as int - 1],
                    ));
                    assert(self.texts() =~= old_texts.update(j as int - 1, t_new));
                    assert(seg_styles(self.segments@) =~= seg_styles(old(self).segments@));
                    lemma_flat_of_update(old_texts, j as int - 1, t_new);
                    let a = flat_of(old_texts.take(j as int - 1));
                    let b = flat_of(old_texts.skip(j as int));
                    let flat0 = old(self).flat_text();
                    let p = old(self).flat_pos();
                    assert(a.len() == prefix_len(old_texts, j as int - 1));
                    assert(p == a.len() + l);
                    assert(flat0 == a + t_old + b);
                    assert(flat_of(self.texts()) == a + t_new + b);
                    assert(a + t_new + b =~= flat0.remove(p - 1));
                    lemma_utf8_len_remove(flat0, p - 1);
                    lemma_prefix_len_is_take(self.texts(), j as int - 1);
                    assert(self.texts().take(j as int - 1) =~= old_texts.take(j as int - 1));
                    lemma_utf8_len_bounds(self.flat_text());
                }
            } else {
                proof {
                    assert(old(self).flat_pos() == 0);
                }
            }
        }
    }

    /// Remove the scalar value at the cursor, crossing into the nearest
    /// later non-empty segment when the cursor sits at the end of its own.
    /// The cursor itself does not move; at the very end of the buffer this
    /// is a no-op.
    pub fn delete_forward(&mut self)
        requires
            old(self).wf(),
        ensures
            final(self).wf(),
            old(self).flat_pos() < old(self).flat_text().len() ==> {
                &&& final(self).flat_text() == old(self).flat_text().remove(old(self).flat_pos())
                &&& final(self).flat_pos() == old(self).flat_pos()
                &&& final(self).glyph_visible == old(self).glyph_visible
                &&& final(self).has_focus == old(self).has_focus
                &&& final(self).editing == old(self).editing
                &&& final(self).editable == old(self).editable
                &&& final(self).text_alpha_permille == old(self).text_alpha_permille
                &&& seg_styles(final(self).segments@) == seg_styles(old(self).segments@)
                &&& final(self).segments@.len() == old(self).segments@.len()
            },
            old(self).flat_pos() == old(self).flat_text().len() ==> *final(self) == *old(self),
    {
        proof {
            old(self).lemma_cursor_in_bounds();
            lemma_flat_of_elem(old(self).texts(), old(self).cursor.segment_index as int);
            lemma_prefix_len_is_take(old(self).texts(), old(self).cursor.segment_index as int);
        }
        let ghost old_texts = self.texts();
        let ci = self.cursor.segment_index;
        let off = self.cursor.offset;
        if off < self.segments[ci].text.len() {
            let mut seg = self.segments.remove(ci);
            seg.text.remove(off);
            self.segments.insert(ci, seg);
            proof {
                let t_old = old_texts[ci as int];
                let t_new = t_old.remove(off as int);
                assert(self.segments@ =~= old(self).segments@.update(ci as int, self.segments@[ci as int]));
                assert(self.texts() =~= old_texts.update(ci as int, t_new));
                assert(seg_styles(self.segments@) =~= seg_styles(old(self).segments@));
                lemma_flat_of_update(old_texts, ci as int, t_new);
                let a = flat_of(old_texts.take(ci as int));
                let b = flat_of(old_texts.skip(ci as int + 1));
                let flat0 = old(self).flat_text();
                let p = old(self).flat_pos();
                assert(a.len() == prefix_len(old_texts, ci as int));
                assert(flat0 == a + t_old + b);
                assert(flat_of(self.texts()) == a + t_new + b);
                assert(a + t_new + b =~= flat0.remove(p));
                lemma_utf8_len_remove(flat0, p);
                lemma_prefix_len_is_take(self.texts(), ci as int);
                assert(self.texts().take(ci as int) =~= old_texts.take(ci as int));
                lemma_utf8_len_bounds(self.flat_text());
            }
        } else {
            proof {
                assert(prefix_len(old_texts, ci as int + 1) == prefix_len(old_texts, ci as int)
                    + old_texts[ci as int].len());
            }
            let n = self.segments.len();
            let mut j = ci + 1;
            while j < n && self.segments[j].text.len() == 0
                invariant
                    n == self.segments@.len(),
                    ci + 1 <= j <= n,
                    ci == self.cursor.segment_index,
                    off == self.cursor.offset,
                    self.wf(),
                    *self == *old(self),
                    prefix_len(self.texts(), j as int) == old(self).flat_pos(),
                decreases self.segments@.len() - j,
            {
                proof {
                    assert(prefix_len(self.texts(), j as int + 1) == prefix_len(
                        self.texts(),
                        j as int,
                    ) + self.texts()[j as int].len());
                }
                j = j + 1;
            }
            if j < self.segments.len() {
                proof {
                    lemma_flat_of_elem(old_texts, j as int);
                    lemma_prefix_len_is_take(old_texts, j as int);
                    lemma_prefix_len_bounds(old_texts, j as int);
                }
                let mut seg = self.segments.remove(j);
                seg.text.remove(0);
                self.segments.insert(j, seg);
                proof {
                    let t_old = old_texts[j as int];
                    let t_new = t_old.remove(0);
                    assert(self.segments@ =~= old(self).segments@.update(j as int, self.segments@[j as int]));
                    assert(self.texts() =~= old_texts.update(j as int, t_new));
                    assert(seg_styles(self.segments@) =~= seg_styles(old(self).segments@));
                    lemma_flat_of_update(old_texts, j as int, t_new);
                    let a = flat_of(old_texts.take(j as int));
                    let b = flat_of(old_texts.skip(j as int + 1));
                    let flat0 = old(self).flat_text();
                    let p = old(self).flat_pos();
                    assert(a.len() == prefix_len(old_texts, j as int));
                    assert(a.len() == p);
                    assert(flat0 == a + t_old + b);
                    assert(flat_of(self.texts()) == a + t_new + b);
                    assert(a + t_new + b =~= flat0.remove(p));
                    lemma_utf8_len_remove(flat0, p);
                    lemma_prefix_len_is_take(self.texts(), ci as int);
                    assert(self.texts().take(ci as int) =~= old_texts.take(ci as int));
                    assert(self.texts()[ci as int] == old_texts[ci as int]);
                    lemma_utf8_len_bounds(self.flat_text());
                }
            } else {
                proof {
                    lemma_flat_of_len(old_texts);
                    assert(old(self).flat_pos() == old(self).flat_text().len());
                }
            }
        }
    }

    /// Move the cursor one scalar value to the left, crossing a segment
    /// boundary when needed; a no-op at the start of the buffer. Moving
    /// re-shows the cursor glyph.
    pub fn move_left(&mut self)
        requires
            old(self).wf(),
        ensures
            final(self).wf(),
            final(self).segments == old(self).segments,
            old(self).flat_pos() > 0 ==> {
                &&& final(self).flat_pos() == old(self).flat_pos() - 1
                &&& final(self).glyph_visible
                &&& final(self).has_focus == old(self).has_focus
                &&& final(self).editing == old(self).editing
                &&& final(self).editable == old(self).editable
                &&& final(self).text_alpha_permille == old(self).text_alpha_permille
            },
            old(self).flat_pos() == 0 ==> *final(self) == *old(self),
    {
        proof {
            old(self).lemma_cursor_in_bounds();
            lemma_prefix_len_bounds(self.texts(), self.cursor.segment_index as int);
        }
        if self.cursor.offset > 0 {
            self.cursor.offset = self.cursor.offset - 1;
            self.glyph_visible = true;
        } else {
            let ci = self.cursor.segment_index;
            let mut j = ci;
            while j > 0 && self.segments[j - 1].text.len() == 0
                invariant
                    j <= ci,
                    ci == self.cursor.segment_index,
                    self.wf(),
                    *self == *old(self),
                    prefix_len(self.texts(), ci as int) == prefix_len(self.texts(), j as int),
                decreases j,
            {
                proof {
                    assert(prefix_len(self.texts(), j as int) == prefix_len(
                        self.texts(),
                        j as int - 1,
                    ) + self.texts()[j as int - 1].len());
                }
                j = j - 1;
            }
            if j > 0 {
                proof {
                    assert(prefix_len(self.texts(), j as int) == prefix_len(
                        self.texts(),
                        j as int - 1,
                    ) + self.texts()[j as int - 1].len());
                    lemma_prefix_len_bounds(self.texts(), j as int - 1);
                }
                let l = self.segments[j - 1].text.len();
                self.cursor = CursorPosition { segment_index: j - 1, offset: l - 1 };
                self.glyph_visible = true;
            } else {
                proof {
                    assert(old(self).flat_pos() == 0);
                }
            }
        }
    }

    /// Move the cursor one scalar value to the right, crossing a segment
    /// boundary when needed; a no-op at the end of the buffer. Moving
    /// re-shows the cursor glyph.
    pub fn move_right(&mut self)
        requires
            old(self).wf(),
        ensures
            final(self).wf(),
            final(self).segments == old(self).segments,
            old(self).flat_pos() < old(self).flat_text().len() ==> {
                &&& final(self).flat_pos() == old(self).flat_pos() + 1
                &&& final(self).glyph_visible
                &&& final(self).has_focus == old(self).has_focus
                &&& final(self).editing == old(self).editing
                &&& final(self).editable == old(self).editable
                &&& final(self).text_alpha_permille == old(self).text_alpha_permille
            },
            old(self).flat_pos() == old(self).flat_text().len() ==> *final(self) == *old(self),
    {
        proof {
            old(self).lemma_cursor_in_bounds();
            lemma_prefix_len_bounds(self.texts(), self.cursor.segment_index as int);
        }
        let ci = self.cursor.segment_index;
        let off = self.cursor.offset;
        if off < self.segments[ci].text.len() {
            proof {
                assert(prefix_len(self.texts(), ci as int + 1) == prefix_len(
                    self.texts(),
                    ci as int,
                ) + self.texts()[ci as int].len());
                lemma_prefix_len_bounds(self.texts(), ci as int + 1);
            }
            self.cursor.offset = off + 1;
            self.glyph_visible = true;
        } else {
            proof {
                assert(prefix_len(self.texts(), ci as int + 1) == prefix_len(
                    self.texts(),
                    ci as int,
                ) + self.texts()[ci as int].len());
            }
            let n = self.segments.len();
            let mut j = ci + 1;
            while j < n && self.segments[j].text.len() == 0
                invariant
                    n == self.segments@.len(),
                    ci + 1 <= j <= n,
                    ci == self.cursor.segment_index,
                    off == self.cursor.offset,
                    self.wf(),
                    *self == *old(self),
                    prefix_len(self.texts(), j as int) == old(self).flat_pos(),
                decreases self.segments@.len() - j,
            {
                proof {
                    assert(prefix_len(self.texts(), j as int + 1) == prefix_len(
                        self.texts(),
                        j as int,
                    ) + self.texts()[j as int].len());
                }
                j = j + 1;
            }
            if j < self.segments.len() {
                proof {
                    assert(prefix_len(self.texts(), j as int) == old(self).flat_pos());
                    lemma_prefix_len_bounds(self.texts(), j as int);
                    assert(prefix_len(self.texts(), j as int + 1) == prefix_len(
                        self.texts(),
                        j as int,
                    ) + self.texts()[j as int].len());
                    lemma_prefix_len_bounds(self.texts(), j as int + 1);
                }
                self.cursor = CursorPosition { segment_index: j, offset: 1 };
                self.glyph_visible = true;
            } else {
                proof {
                    lemma_flat_of_len(self.texts());
                    assert(old(self).flat_pos() == old(self).flat_text().len());
                }
            }
        }
    }

    /// Jump the cursor to the start of the buffer and re-show the glyph.
    pub fn move_home(&mut self)
        requires
            old(self).wf(),
        ensures
            final(self).wf(),
            final(self).segments == old(self).segments,
            final(self).flat_pos() == 0,
            final(self).glyph_visible,
            final(self).has_focus == old(self).has_focus,
            final(self).editing == old(self).editing,
            final(self).editable == old(self).editable,
            final(self).text_alpha_permille == old(self).text_alpha_permille,
    {
        self.cursor = CursorPosition { segment_index: 0, offset: 0 };
        self.glyph_visible = true;
    }

    /// Jump the cursor to the end of the buffer and re-show the glyph.
    pub fn move_end(&mut self)
        requires
            old(self).wf(),
        ensures
            final(self).wf(),
            final(self).segments == old(self).segments,
            final(self).flat_pos() == final(self).flat_text().len(),
            final(self).glyph_visible,
            final(self).has_focus == old(self).has_focus,
            final(self).editing == old(self).editing,
            final(self).editable == old(self).editable,
            final(self).text_alpha_permille == old(self).text_alpha_permille,
    {
        let last = self.segments.len() - 1;
        let l = self.segments[last].text.len();
        self.cursor = CursorPosition { segment_index: last, offset: l };
        self.glyph_visible = true;
        proof {
            lemma_flat_of_len(self.texts());
            assert(prefix_len(self.texts(), last as int + 1) == prefix_len(
                self.texts(),
                last as int,
            ) + self.texts()[last as int].len());
        }
    }
}

} // verus!
