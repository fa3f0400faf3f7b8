//! Styled terminal output, held as plain values: the text written, and the
//! points in it where the colour and emphasis change.

use vstd::prelude::*;
use crate::sanitize::str_chars;
use crate::text::{push_chars, push_decimal, push_repeat, repeat, decimal};

verus! {

/// The foreground colours the renderer uses.
#[derive(Clone, Copy, Debug, PartialEq, Eq, Structural)]
pub enum Color {
    Blue,
    Cyan,
    Green,
    Magenta,
    Red,
    White,
    Yellow,
}

/// A text style: foreground colour and attributes.
#[derive(Clone, Copy, Debug, PartialEq, Eq, Structural)]
pub struct Style {
    pub fg: Option<Color>,
    pub bold: bool,
    pub intense: bool,
    pub italic: bool,
    pub underline: bool,
    pub strikethrough: bool,
}

/// A change of style at some point of the output.
#[derive(Clone, Copy, Debug, PartialEq, Eq, Structural)]
pub enum StyleChange {
    /// From here on, text is written in this style.
    Apply(Style),
    /// From here on, text is written in the terminal's default style.
    Reset,
}

/// A style change and the number of characters written before it.
#[derive(Clone, Copy, Debug, PartialEq, Eq, Structural)]
pub struct StyleMark {
    pub at: usize,
    pub change: StyleChange,
}

/// The characters of `s`, each paired with style `st`.
pub open spec fn styled_chars(st: Style, s: Seq<char>) -> Seq<(Style, char)> {
    Seq::new(s.len(), |i: int| (st, s[i]))
}

/// The characters of `cs`, without their styles.
pub open spec fn chars_of(cs: Seq<(Style, char)>) -> Seq<char> {
    Seq::new(cs.len(), |i: int| cs[i].1)
}

/// Appends the characters of `s`, each in style `st`, to `cs`.
pub fn push_styled(cs: &mut Vec<(Style, char)>, st: Style, s: &[char])
    ensures
        final(cs)@ == old(cs)@ + styled_chars(st, s@),
{
    let ghost base = old(cs)@;
    let n = s.len();
    let mut i: usize = 0;
    while i < n
        invariant
            n == s@.len(),
            i <= n,
            cs@ =~= base + styled_chars(st, s@.take(i as int)),
        decreases n - i,
    {
        let x = (st, s[i]);
        proof {
            assert(styled_chars(st, s@.take(i + 1)) =~= styled_chars(st, s@.take(i as int)).push(x));
        }
        cs.push(x);
        i = i + 1;
    }
    assert(s@.take(n as int) =~= s@);
}

/// The style with no colour and no attribute.
pub open spec fn plain() -> Style {
    Style {
        fg: None,
        bold: false,
        intense: false,
        italic: false,
        underline: false,
        strikethrough: false,
    }
}

/// The plain style with foreground colour `c`.
pub open spec fn fg(c: Color) -> Style {
    Style { fg: Some(c), ..plain() }
}

/// The plain style with foreground colour `c`, in bold.
pub open spec fn fg_bold(c: Color) -> Style {
    Style { fg: Some(c), bold: true, ..plain() }
}

/// The plain style with foreground colour `c`, bold and intense.
pub open spec fn fg_bold_intense(c: Color) -> Style {
    Style { fg: Some(c), bold: true, intense: true, ..plain() }
}

impl Style {
    /// The style with no colour and no attribute.
    pub fn plain() -> (s: Style)
        ensures
            s == plain(),
    {
        Style {
            fg: None,
            bold: false,
            intense: false,
            italic: false,
            underline: false,
            strikethrough: false,
        }
    }

    /// The plain style with foreground colour `c`.
    pub fn fg(c: Color) -> (s: Style)
        ensures
            s == fg(c),
    {
        Style { fg: Some(c), ..Style::plain() }
    }

    /// The plain style with foreground colour `c`, in bold.
    pub fn fg_bold(c: Color) -> (s: Style)
        ensures
            s == fg_bold(c),
    {
        Style { fg: Some(c), bold: true, ..Style::plain() }
    }

    /// The plain style with foreground colour `c`, bold and intense.
    pub fn fg_bold_intense(c: Color) -> (s: Style)
        ensures
            s == fg_bold_intense(c),
    {
        Style { fg: Some(c), bold: true, intense: true, ..Style::plain() }
    }
}

/// What styled output holds: the text, and the style changes in the order
/// they were made.
#[verifier::ext_equal]
pub struct StyledView {
    pub text: Seq<char>,
    pub marks: Seq<StyleMark>,
}

impl StyledView {
    /// Nothing written yet.
    pub open spec fn empty() -> StyledView {
        StyledView { text: Seq::empty(), marks: Seq::empty() }
    }

    /// `s` written after the text so far.
    pub open spec fn write(self, s: Seq<char>) -> StyledView {
        StyledView { text: self.text + s, ..self }
    }

    /// A change to style `st` at the end of the text so far.
    pub open spec fn apply(self, st: Style) -> StyledView {
        StyledView {
            marks: self.marks.push(StyleMark { at: self.text.len() as usize, change: StyleChange::Apply(st) }),
            ..self
        }
    }

    /// A return to the default style at the end of the text so far.
    pub open spec fn reset(self) -> StyledView {
        StyledView {
            marks: self.marks.push(StyleMark { at: self.text.len() as usize, change: StyleChange::Reset }),
            ..self
        }
    }

    /// `s` written in style `st`, then the default style again.
    pub open spec fn styled(self, st: Style, s: Seq<char>) -> StyledView {
        self.apply(st).write(s).reset()
    }

    /// The characters `cs` written one after another, each in its style,
    /// when the output is in style `cur`: the style changes only where it
    /// differs from the one before (a return to the default style for plain
    /// characters, else a change to the new style), and after the last
    /// character the default style is restored.
    pub open spec fn write_runs(self, cur: Style, cs: Seq<(Style, char)>) -> StyledView
        decreases cs.len(),
    {
        if cs.len() == 0 {
            if cur == plain() {
                self
            } else {
                self.reset()
            }
        } else {
            let st = cs[0].0;
            let o = if st == cur {
                self
            } else if st == plain() {
                self.reset()
            } else {
                self.apply(st)
            };
            o.write(seq![cs[0].1]).write_runs(st, cs.drop_first())
        }
    }

    /// The characters `cs` written in their styles, starting from the
    /// default style.
    pub open spec fn write_styled(self, cs: Seq<(Style, char)>) -> StyledView {
        self.write_runs(plain(), cs)
    }

    /// Every style change stands within the text, in order.
    pub open spec fn well_formed(self) -> bool {
        &&& forall|i: int| 0 <= i < self.marks.len() ==> #[trigger] self.marks[i].at <= self.text.len()
        &&& forall|i: int, j: int| 0 <= i <= j < self.marks.len() ==> self.marks[i].at <= self.marks[j].at
    }
}

/// `b` is `a` with more written after it: the text of `a` begins the text of
/// `b`, and the style changes of `a` begin those of `b`.
pub open spec fn extends(a: StyledView, b: StyledView) -> bool {
    &&& a.text.len() <= b.text.len()
    &&& forall|i: int| 0 <= i < a.text.len() ==> #[trigger] b.text[i] == a.text[i]
    &&& a.marks.len() <= b.marks.len()
    &&& forall|i: int| 0 <= i < a.marks.len() ==> #[trigger] b.marks[i] == a.marks[i]
}

pub proof fn lemma_extends_trans(a: StyledView, b: StyledView, c: StyledView)
    requires
        extends(a, b),
        extends(b, c),
    ensures
        extends(a, c),
{
    assert forall|i: int| 0 <= i < a.text.len() implies #[trigger] c.text[i] == a.text[i] by {
        assert(c.text[i] == b.text[i]);
    }
    assert forall|i: int| 0 <= i < a.marks.len() implies #[trigger] c.marks[i] == a.marks[i] by {
        assert(c.marks[i] == b.marks[i]);
    }
}

/// Writing styled characters writes their text, and only adds to what was
/// written before.
pub proof fn lemma_write_runs(o: StyledView, cur: Style, cs: Seq<(Style, char)>)
    ensures
        o.write_runs(cur, cs).text == o.text + chars_of(cs),
        extends(o, o.write_runs(cur, cs)),
    decreases cs.len(),
{
    if cs.len() == 0 {
        assert(o.text + chars_of(cs) =~= o.text);
    } else {
        let st = cs[0].0;
        let m = if st == cur {
            o
        } else if st == plain() {
            o.reset()
        } else {
            o.apply(st)
        };
        let p = m.write(seq![cs[0].1]);
        lemma_write_runs(p, st, cs.drop_first());
        assert(chars_of(cs) =~= seq![cs[0].1] + chars_of(cs.drop_first()));
        assert(extends(o, p));
        lemma_extends_trans(o, p, p.write_runs(st, cs.drop_first()));
    }
}

/// Styled terminal output under construction.
pub struct StyledText {
    text: Vec<char>,
    marks: Vec<StyleMark>,
}

impl StyledText {
    /// Every style change stands within the text, in order.
    #[verifier::type_invariant]
    spec fn marks_in_text(self) -> bool {
        self@.well_formed()
    }
}

impl View for StyledText {
    type V = StyledView;

    closed spec fn view(&self) -> StyledView {
        StyledView { text: self.text@, marks: self.marks@ }
    }
}

impl StyledText {
    /// Empty output.
    pub fn new() -> (o: StyledText)
        ensures
            o@ == StyledView::empty(),
            o@.well_formed(),
    {
        StyledText { text: Vec::new(), marks: Vec::new() }
    }

    /// The text written so far.
    pub fn text(&self) -> (t: &[char])
        ensures
            t@ == self@.text,
    {
        self.text.as_slice()
    }

    /// The style changes made so far.
    pub fn marks(&self) -> (m: &[StyleMark])
        ensures
            m@ == self@.marks,
            self@.well_formed(),
    {
        proof {
            use_type_invariant(self);
        }
        self.marks.as_slice()
    }

    /// The text written so far, as a string.
    pub fn plain_text(&self) -> (s: String)
        ensures
            s@ == self@.text,
    {
        crate::sanitize::string_from_chars(self.text.as_slice())
    }

    /// Takes the text and the style changes out, leaving nothing written.
    fn take_parts(&mut self) -> (parts: (Vec<char>, Vec<StyleMark>))
        ensures
            parts.0@ == old(self)@.text,
            parts.1@ == old(self)@.marks,
            old(self)@.well_formed(),
            final(self)@ == StyledView::empty(),
    {
        let mut parts = StyledText::new();
        std::mem::swap(self, &mut parts);
        proof {
            use_type_invariant(&parts);
        }
        let StyledText { text, marks } = parts;
        (text, marks)
    }

    /// Writes the characters `s`.
    pub fn write_chars(&mut self, s: &[char])
        ensures
            final(self)@ == old(self)@.write(s@),
            final(self)@.well_formed(),
    {
        let (mut text, marks) = self.take_parts();
        push_chars(&mut text, s);
        *self = StyledText { text, marks };
    }

    /// Writes the string `s`.
    pub fn write_str(&mut self, s: &str)
        ensures
            final(self)@ == old(self)@.write(s@),
            final(self)@.well_formed(),
    {
        let cs = str_chars(s);
        self.write_chars(cs.as_slice());
    }

    /// Writes the character `c`.
    pub fn write_char(&mut self, c: char)
        ensures
            final(self)@ == old(self)@.write(seq![c]),
            final(self)@.well_formed(),
    {
        let (mut text, marks) = self.take_parts();
        text.push(c);
        *self = StyledText { text, marks };
    }

    /// Writes `n` copies of `c`.
    pub fn write_repeat(&mut self, c: char, n: usize)
        ensures
            final(self)@ == old(self)@.write(repeat(c, n as nat)),
            final(self)@.well_formed(),
    {
        let (mut text, marks) = self.take_parts();
        push_repeat(&mut text, c, n);
        *self = StyledText { text, marks };
    }

    /// Writes `n` in decimal.
    pub fn write_decimal(&mut self, n: usize)
        ensures
            final(self)@ == old(self)@.write(decimal(n as nat)),
            final(self)@.well_formed(),
    {
        let (mut text, marks) = self.take_parts();
        push_decimal(&mut text, n);
        *self = StyledText { text, marks };
    }

    /// Writes each line of `s` behind `prefix` and followed by a line feed.
    pub fn write_prefixed_lines(&mut self, s: &[char], prefix: &[char])
        ensures
            final(self)@ == old(self)@.write(
                crate::text::prefixed_lines(crate::text::lines(s@), prefix@),
            ),
            final(self)@.well_formed(),
    {
        let (mut text, marks) = self.take_parts();
        crate::text::push_prefixed_lines(&mut text, s, prefix);
        *self = StyledText { text, marks };
    }

    /// Writes the characters `cs`, each in its style: the style changes
    /// where it differs from the one before, and the default style is
    /// restored after the last character.
    pub fn write_styled(&mut self, cs: &[(Style, char)])
        ensures
            final(self)@ == old(self)@.write_styled(cs@),
            final(self)@.well_formed(),
    {
        let ghost goal = self@.write_styled(cs@);
        let mut cur = Style::plain();
        let n = cs.len();
        let mut i: usize = 0;
        assert(cs@.skip(0) =~= cs@);
        while i < n
            invariant
                n == cs@.len(),
                i <= n,
                self@.write_runs(cur, cs@.skip(i as int)) == goal,
            decreases n - i,
        {
            let (st, c) = cs[i];
            assert(cs@.skip(i as int).drop_first() =~= cs@.skip(i + 1));
            assert(cs@.skip(i as int)[0] == cs@[i as int]);
            if st == cur {
            } else if st == Style::plain() {
                self.reset();
            } else {
                self.set_style(st);
            }
            self.write_char(c);
            cur = st;
            i = i + 1;
        }
        if cur != Style::plain() {
            self.reset();
        }
        proof {
            use_type_invariant(&*self);
        }
    }

    /// Records a style change at the end of the text.
    fn mark(&mut self, change: StyleChange)
        ensures
            final(self)@ == (StyledView {
                marks: old(self)@.marks.push(
                    StyleMark { at: old(self)@.text.len() as usize, change },
                ),
                ..old(self)@
            }),
            final(self)@.well_formed(),
    {
        let (text, mut marks) = self.take_parts();
        let at = text.len();
        marks.push(StyleMark { at, change });
        *self = StyledText { text, marks };
    }

    /// Switches to style `st`.
    pub fn set_style(&mut self, st: Style)
        ensures
            final(self)@ == old(self)@.apply(st),
            final(self)@.well_formed(),
    {
        self.mark(StyleChange::Apply(st));
    }

    /// Switches back to the default style.
    pub fn reset(&mut self)
        ensures
            final(self)@ == old(self)@.reset(),
            final(self)@.well_formed(),
    {
        self.mark(StyleChange::Reset);
    }
}


} // verus!
