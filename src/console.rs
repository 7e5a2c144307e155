//! The text console.
//!
//! The console keeps everything typed since it started, line breaks included,
//! and the cursor where the next glyph goes. The surface has no back buffer,
//! so every edit comes back as the erase and draw operations that bring the
//! surface up to date: the caret is erased, the glyph drawn or erased, and the
//! caret drawn again at the new cursor.
use embedded_graphics::geometry::{Dimensions, Point};
use embedded_graphics::mono_font::ascii::FONT_10X20;
use embedded_graphics::mono_font::MonoTextStyle;
use embedded_graphics::pixelcolor::{Rgb565, RgbColor};
use embedded_graphics::text::Text;
use vstd::prelude::*;

verus! {

/// Horizontal position of the start of every line.
pub const LEFT_MARGIN: i32 = 30;

/// Baseline of the first line.
pub const TOP_LINE: i32 = 30;

/// Distance between the baselines of two lines.
pub const LINE_HEIGHT: i32 = 20;

/// Width of every glyph of the console's font.
pub const GLYPH_WIDTH: u32 = 10;

/// Height of the caret above the baseline.
pub const CARET_RISE: i32 = 15;

/// Size of the caret rectangle.
pub const CARET_WIDTH: u32 = 2;

pub const CARET_HEIGHT: u32 = 20;

/// One edit of the text.
#[derive(Clone, Copy, Debug, PartialEq, Eq, Structural)]
pub enum EditCommand {
    AppendChar(char),
    Backspace,
    NewLine,
}

/// One operation on the surface. Glyph positions are baseline points; caret
/// positions are the top-left corner of the caret rectangle.
#[derive(Clone, Copy, Debug, PartialEq, Eq, Structural)]
pub enum DrawOp {
    DrawCaret { x: i32, y: i32 },
    EraseCaret { x: i32, y: i32 },
    DrawGlyph { c: char, x: i32, y: i32 },
    EraseGlyph { c: char, x: i32, y: i32 },
}

/// Why an edit was refused.
#[derive(Clone, Copy, Debug, PartialEq, Eq, Structural)]
pub enum ConsoleError {
    /// The cursor would leave the range of surface coordinates.
    NoRoom,
}

/// The characters after the last line break.
pub open spec fn last_line(s: Seq<char>) -> Seq<char>
    decreases s.len(),
{
    if s.len() == 0 {
        Seq::empty()
    } else if s.last() == '\n' {
        Seq::empty()
    } else {
        last_line(s.drop_last()).push(s.last())
    }
}

/// The number of line breaks.
pub open spec fn newlines(s: Seq<char>) -> nat
    decreases s.len(),
{
    if s.len() == 0 {
        0
    } else {
        newlines(s.drop_last()) + if s.last() == '\n' {
            1nat
        } else {
            0nat
        }
    }
}

pub open spec fn cursor_x_of(s: Seq<char>) -> int {
    LEFT_MARGIN + GLYPH_WIDTH * last_line(s).len()
}

pub open spec fn cursor_y_of(s: Seq<char>) -> int {
    TOP_LINE + LINE_HEIGHT * newlines(s)
}

/// The cursor for text `s` lies within surface coordinates.
pub open spec fn fits(s: Seq<char>) -> bool {
    cursor_x_of(s) <= i32::MAX && cursor_y_of(s) <= i32::MAX
}

/// Every state the text went through fits.
pub open spec fn all_fit(s: Seq<char>) -> bool {
    forall|i: int| 0 <= i <= s.len() ==> #[trigger] fits(s.take(i))
}

/// Whether a character ends a line: a line feed or a carriage return.
pub open spec fn is_break(c: char) -> bool {
    c == '\n' || c == '\r'
}

/// The text holds no carriage return: every line break is stored as `'\n'`.
pub open spec fn no_carriage_return(s: Seq<char>) -> bool {
    forall|i: int| 0 <= i < s.len() ==> s[i] != '\r'
}

/// The text after an edit, if it is accepted. A line feed or a carriage
/// return carried by `AppendChar` is a line break like `NewLine`, and is
/// stored as `'\n'`.
pub open spec fn edit_text(s: Seq<char>, e: EditCommand) -> Seq<char> {
    match e {
        EditCommand::AppendChar(c) => if is_break(c) {
            s.push('\n')
        } else {
            s.push(c)
        },
        EditCommand::NewLine => s.push('\n'),
        EditCommand::Backspace => if s.len() == 0 {
            s
        } else {
            s.drop_last()
        },
    }
}

pub open spec fn caret_at(s: Seq<char>, draw: bool) -> DrawOp {
    if draw {
        DrawOp::DrawCaret { x: cursor_x_of(s) as i32, y: (cursor_y_of(s) - CARET_RISE) as i32 }
    } else {
        DrawOp::EraseCaret { x: cursor_x_of(s) as i32, y: (cursor_y_of(s) - CARET_RISE) as i32 }
    }
}

/// The surface operations of an accepted edit of `s`.
pub open spec fn edit_ops(s: Seq<char>, e: EditCommand) -> Seq<DrawOp> {
    let t = edit_text(s, e);
    match e {
        EditCommand::AppendChar(c) => if is_break(c) {
            seq![caret_at(s, false), caret_at(t, true)]
        } else {
            seq![
                caret_at(s, false),
                DrawOp::DrawGlyph { c, x: cursor_x_of(s) as i32, y: cursor_y_of(s) as i32 },
                caret_at(t, true),
            ]
        },
        EditCommand::NewLine => seq![caret_at(s, false), caret_at(t, true)],
        EditCommand::Backspace => if s.len() == 0 {
            Seq::empty()
        } else if s.last() == '\n' {
            seq![caret_at(s, false), caret_at(t, true)]
        } else {
            seq![
                caret_at(s, false),
                DrawOp::EraseGlyph { c: s.last(), x: cursor_x_of(t) as i32, y: cursor_y_of(t) as i32 },
                caret_at(t, true),
            ]
        },
    }
}

/// Backspace on empty text leaves it empty and issues no surface operation.
pub proof fn lemma_backspace_on_empty()
    ensures
        edit_text(Seq::empty(), EditCommand::Backspace) == Seq::<char>::empty(),
        edit_ops(Seq::empty(), EditCommand::Backspace) == Seq::<DrawOp>::empty(),
{
}

/// A backspace right after a line break removes the break and puts the cursor
/// back at the end of the previous line.
pub proof fn lemma_line_break_undone(s: Seq<char>)
    ensures
        edit_text(edit_text(s, EditCommand::NewLine), EditCommand::Backspace) == s,
        cursor_x_of(edit_text(edit_text(s, EditCommand::NewLine), EditCommand::Backspace))
            == cursor_x_of(s),
        cursor_y_of(edit_text(edit_text(s, EditCommand::NewLine), EditCommand::Backspace))
            == cursor_y_of(s),
{
    assert(s.push('\n').drop_last() =~= s);
}

/// A backspace right after a character removes it and moves the cursor back
/// by one glyph.
pub proof fn lemma_append_undone(s: Seq<char>, c: char)
    ensures
        edit_text(edit_text(s, EditCommand::AppendChar(c)), EditCommand::Backspace) == s,
        !is_break(c) ==> cursor_x_of(edit_text(s, EditCommand::AppendChar(c))) == cursor_x_of(s)
            + GLYPH_WIDTH,
        !is_break(c) ==> cursor_y_of(edit_text(s, EditCommand::AppendChar(c))) == cursor_y_of(s),
{
    assert(s.push(c).drop_last() =~= s);
    assert(s.push('\n').drop_last() =~= s);
    lemma_push(s, c);
}

/// Relies on embedded_graphics' `Text::bounding_box` in the font `FONT_10X20`:
/// a line with no line feed and no trailing carriage return is `GLYPH_WIDTH`
/// pixels wide per character (the font is monospaced with no spacing), and an
/// empty line is 0 wide. A trailing carriage return is dropped before the line
/// is measured, so such lines are left out here.
#[verifier::external_body]
fn text_width(line: &Vec<char>) -> (r: u32)
    requires
        forall|i: int| 0 <= i < line@.len() ==> line@[i] != '\n',
        line@.len() == 0 || line@.last() != '\r',
        GLYPH_WIDTH * line@.len() <= i32::MAX,
    ensures
        r == GLYPH_WIDTH * line@.len(),
{
    let s: String = line.iter().collect();
    let style = MonoTextStyle::new(&FONT_10X20, Rgb565::WHITE);
    Text::new(&s, Point::zero(), style).bounding_box().size.width
}

proof fn lemma_push(s: Seq<char>, c: char)
    ensures
        last_line(s.push(c)) == if c == '\n' {
            Seq::<char>::empty()
        } else {
            last_line(s).push(c)
        },
        newlines(s.push(c)) == newlines(s) + if c == '\n' {
            1nat
        } else {
            0nat
        },
{
    assert(s.push(c).drop_last() =~= s);
}

proof fn lemma_last_line_has_no_break(s: Seq<char>)
    ensures
        forall|i: int| 0 <= i < last_line(s).len() ==> last_line(s)[i] != '\n',
    decreases s.len(),
{
    if s.len() > 0 && s.last() != '\n' {
        let l = last_line(s.drop_last());
        lemma_last_line_has_no_break(s.drop_last());
        assert forall|i: int| 0 <= i < last_line(s).len() implies last_line(s)[i] != '\n' by {
            if i < l.len() {
                assert(last_line(s)[i] == l[i]);
            }
        }
    }
}

proof fn lemma_last_line_avoids(s: Seq<char>, ch: char)
    requires
        forall|i: int| 0 <= i < s.len() ==> s[i] != ch,
    ensures
        forall|i: int| 0 <= i < last_line(s).len() ==> last_line(s)[i] != ch,
    decreases s.len(),
{
    if s.len() > 0 && s.last() != '\n' {
        let l = last_line(s.drop_last());
        lemma_last_line_avoids(s.drop_last(), ch);
        assert forall|i: int| 0 <= i < last_line(s).len() implies last_line(s)[i] != ch by {
            if i < l.len() {
                assert(last_line(s)[i] == l[i]);
            }
        }
    }
}

proof fn lemma_last_line_from(s: Seq<char>, k: int)
    requires
        0 <= k <= s.len(),
        k == 0 || s[k - 1] == '\n',
        forall|j: int| k <= j < s.len() ==> s[j] != '\n',
    ensures
        last_line(s) == s.subrange(k, s.len() as int),
    decreases s.len(),
{
    if s.len() == k {
        assert(s.subrange(k, k) =~= Seq::<char>::empty());
    } else {
        lemma_last_line_from(s.drop_last(), k);
        assert(s.subrange(k, s.len() as int) =~= s.drop_last().subrange(
            k,
            s.len() - 1,
        ).push(s.last()));
    }
}

proof fn lemma_all_fit_push(s: Seq<char>, c: char)
    requires
        all_fit(s),
        fits(s.push(c)),
    ensures
        all_fit(s.push(c)),
{
    let t = s.push(c);
    assert forall|i: int| 0 <= i <= t.len() implies #[trigger] fits(t.take(i)) by {
        if i <= s.len() {
            assert(t.take(i) =~= s.take(i));
        } else {
            assert(t.take(i) =~= t);
        }
    }
}

proof fn lemma_all_fit_drop(s: Seq<char>)
    requires
        all_fit(s),
        s.len() > 0,
    ensures
        all_fit(s.drop_last()),
{
    let t = s.drop_last();
    assert(fits(s.take(t.len() as int)));
    assert forall|i: int| 0 <= i <= t.len() implies #[trigger] fits(t.take(i)) by {
        assert(t.take(i) =~= s.take(i));
    }
}

/// The characters of `text` after its last line break.
fn copy_last_line(text: &Vec<char>) -> (r: Vec<char>)
    ensures
        r@ == last_line(text@),
{
    let len = text.len();
    let mut k: usize = len;
    while k > 0 && text[k - 1] != '\n'
        invariant
            k <= len == text@.len(),
            forall|j: int| k <= j < len ==> text@[j] != '\n',
        decreases k,
    {
        k = k - 1;
    }
    proof {
        lemma_last_line_from(text@, k as int);
    }
    let mut r: Vec<char> = Vec::new();
    let mut i: usize = k;
    while i < len
        invariant
            k <= i <= len == text@.len(),
            r@ == text@.subrange(k as int, i as int),
        decreases len - i,
    {
        r.push(text[i]);
        proof {
            assert(r@ =~= text@.subrange(k as int, i + 1));
        }
        i = i + 1;
    }
    r
}

fn two_ops(a: DrawOp, b: DrawOp) -> (r: Vec<DrawOp>)
    ensures
        r@ == seq![a, b],
{
    let mut r: Vec<DrawOp> = Vec::new();
    r.push(a);
    r.push(b);
    proof {
        assert(r@ =~= seq![a, b]);
    }
    r
}

fn three_ops(a: DrawOp, b: DrawOp, c: DrawOp) -> (r: Vec<DrawOp>)
    ensures
        r@ == seq![a, b, c],
{
    let mut r: Vec<DrawOp> = Vec::new();
    r.push(a);
    r.push(b);
    r.push(c);
    proof {
        assert(r@ =~= seq![a, b, c]);
    }
    r
}

/// The console: the text typed so far and the cursor.
pub struct Console {
    x: i32,
    y: i32,
    text: Vec<char>,
}

impl View for Console {
    type V = Seq<char>;

    closed spec fn view(&self) -> Seq<char> {
        self.text@
    }
}

impl Console {
    pub closed spec fn wf(&self) -> bool {
        &&& self.x == cursor_x_of(self.text@)
        &&& self.y == cursor_y_of(self.text@)
        &&& all_fit(self.text@)
        &&& no_carriage_return(self.text@)
    }

    /// An empty console with its cursor at the start of the first line.
    pub fn new() -> (r: Console)
        ensures
            r.wf(),
            r@ == Seq::<char>::empty(),
    {
        let r = Console { x: LEFT_MARGIN, y: TOP_LINE, text: Vec::new() };
        proof {
            assert(r.text@.take(0) =~= r.text@);
        }
        r
    }

    /// The cursor, as (x, y) of the baseline point where the next glyph goes.
    pub fn cursor(&self) -> (r: (i32, i32))
        requires
            self.wf(),
        ensures
            r.0 == cursor_x_of(self@),
            r.1 == cursor_y_of(self@),
    {
        (self.x, self.y)
    }

    /// The text typed so far, line breaks included.
    pub fn text(&self) -> (r: &Vec<char>)
        ensures
            r@ == self@,
    {
        &self.text
    }

    /// The operation that draws the caret at the cursor.
    pub fn caret(&self) -> (r: DrawOp)
        requires
            self.wf(),
        ensures
            r == caret_at(self@, true),
    {
        DrawOp::DrawCaret { x: self.x, y: self.y - CARET_RISE }
    }

    /// Applies one edit and returns the surface operations that show it.
    ///
    /// A line feed or a carriage return appended as a character is a line
    /// break, like `NewLine`, and is stored as `'\n'`.
    /// `Backspace` on empty text does nothing and draws nothing. An edit that
    /// would move the cursor out of surface coordinates is refused with the
    /// text unchanged.
    pub fn apply(&mut self, edit: EditCommand) -> (r: Result<Vec<DrawOp>, ConsoleError>)
        requires
            old(self).wf(),
        ensures
            final(self).wf(),
            fits(edit_text(old(self)@, edit)) ==> r is Ok,
            match r {
                Ok(ops) => fits(final(self)@) && final(self)@ == edit_text(old(self)@, edit) && ops@ == edit_ops(
                    old(self)@,
                    edit,
                ),
                Err(e) => e == ConsoleError::NoRoom && !fits(edit_text(old(self)@, edit))
                    && final(self)@ == old(self)@,
            },
    {
        match edit {
            EditCommand::AppendChar(c) => {
                if c == '\n' || c == '\r' {
                    self.line_break(edit)
                } else {
                    self.append(c)
                }
            },
            EditCommand::NewLine => self.line_break(edit),
            EditCommand::Backspace => self.backspace(),
        }
    }

    fn append(&mut self, c: char) -> (r: Result<Vec<DrawOp>, ConsoleError>)
        requires
            old(self).wf(),
            !is_break(c),
        ensures
            final(self).wf(),
            fits(old(self)@.push(c)) ==> r is Ok,
            match r {
                Ok(ops) => fits(final(self)@) && final(self)@ == old(self)@.push(c) && ops@ == edit_ops(
                    old(self)@,
                    EditCommand::AppendChar(c),
                ),
                Err(e) => e == ConsoleError::NoRoom && !fits(old(self)@.push(c)) && final(self)@
                    == old(self)@,
            },
    {
        proof {
            lemma_push(self.text@, c);
        }
        let glyph = vec![c];
        let w = text_width(&glyph);
        if w as i32 > i32::MAX - self.x {
            return Err(ConsoleError::NoRoom);
        }
        let mut ops: Vec<DrawOp> = Vec::new();
        ops.push(DrawOp::EraseCaret { x: self.x, y: self.y - CARET_RISE });
        ops.push(DrawOp::DrawGlyph { c, x: self.x, y: self.y });
        self.text.push(c);
        self.x = self.x + w as i32;
        proof {
            lemma_all_fit_push(old(self).text@, c);
        }
        ops.push(DrawOp::DrawCaret { x: self.x, y: self.y - CARET_RISE });
        Ok(ops)
    }

    fn line_break(&mut self, edit: EditCommand) -> (r: Result<Vec<DrawOp>, ConsoleError>)
        requires
            old(self).wf(),
            edit == EditCommand::NewLine || edit == EditCommand::AppendChar('\n')
                || edit == EditCommand::AppendChar('\r'),
        ensures
            final(self).wf(),
            fits(old(self)@.push('\n')) ==> r is Ok,
            match r {
                Ok(ops) => fits(final(self)@) && final(self)@ == old(self)@.push('\n') && ops@ == edit_ops(
                    old(self)@,
                    edit,
                ),
                Err(e) => e == ConsoleError::NoRoom && !fits(old(self)@.push('\n'))
                    && final(self)@ == old(self)@,
            },
    {
        proof {
            lemma_push(self.text@, '\n');
        }
        if self.y > i32::MAX - LINE_HEIGHT {
            return Err(ConsoleError::NoRoom);
        }
        let mut ops: Vec<DrawOp> = Vec::new();
        ops.push(DrawOp::EraseCaret { x: self.x, y: self.y - CARET_RISE });
        self.text.push('\n');
        self.x = LEFT_MARGIN;
        self.y = self.y + LINE_HEIGHT;
        proof {
            lemma_all_fit_push(old(self).text@, '\n');
        }
        ops.push(DrawOp::DrawCaret { x: self.x, y: self.y - CARET_RISE });
        Ok(ops)
    }

    fn backspace(&mut self) -> (r: Result<Vec<DrawOp>, ConsoleError>)
        requires
            old(self).wf(),
        ensures
            final(self).wf(),
            r is Ok,
            match r {
                Ok(ops) => fits(final(self)@) && final(self)@ == edit_text(old(self)@, EditCommand::Backspace) && ops@
                    == edit_ops(old(self)@, EditCommand::Backspace),
                Err(_) => false,
            },
    {
        let len = self.text.len();
        if len == 0 {
            return Ok(Vec::new());
        }
        let last = self.text[len - 1];
        let erase_caret = DrawOp::EraseCaret { x: self.x, y: self.y - CARET_RISE };
        let ghost s = self.text@;
        proof {
            assert(s.drop_last().push(last) =~= s);
            lemma_push(s.drop_last(), last);
            lemma_all_fit_drop(s);
        }
        self.text.pop();
        proof {
            assert(self.text@ =~= s.drop_last());
            assert(fits(self.text@.take(self.text@.len() as int)));
            assert(self.text@.take(self.text@.len() as int) =~= self.text@);
        }
        if last == '\n' {
            let line = copy_last_line(&self.text);
            proof {
                lemma_last_line_has_no_break(self.text@);
                lemma_last_line_avoids(self.text@, '\r');
            }
            let w = text_width(&line);
            self.x = w as i32 + LEFT_MARGIN;
            self.y = self.y - LINE_HEIGHT;
        } else {
            let mut glyph: Vec<char> = Vec::new();
            glyph.push(last);
            let w = text_width(&glyph);
            self.x = self.x - w as i32;
        }
        let draw_caret = DrawOp::DrawCaret { x: self.x, y: self.y - CARET_RISE };
        let ops = if last == '\n' {
            two_ops(erase_caret, draw_caret)
        } else {
            three_ops(erase_caret, DrawOp::EraseGlyph { c: last, x: self.x, y: self.y }, draw_caret)
        };
        proof {
            assert(ops@ =~= edit_ops(s, EditCommand::Backspace));
        }
        Ok(ops)
    }
}

} // verus!
