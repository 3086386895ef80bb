//! Styled transcript lines: the plain values the renderer reads.

use vstd::prelude::*;

verus! {

/// A terminal color (the same palette as the terminal backend's colors).
#[derive(Clone, Copy, Debug, PartialEq, Eq, Structural)]
pub enum TermColor {
    Reset,
    Black,
    DarkGrey,
    Red,
    DarkRed,
    Green,
    DarkGreen,
    Yellow,
    DarkYellow,
    Blue,
    DarkBlue,
    Magenta,
    DarkMagenta,
    Cyan,
    DarkCyan,
    White,
    Grey,
    Rgb { r: u8, g: u8, b: u8 },
    AnsiValue(u8),
}

/// Text attributes of a history segment.
#[derive(Clone, Copy, Debug, PartialEq, Eq, Structural)]
pub struct HistoryAttrs {
    pub bold: bool,
    pub italic: bool,
    pub underlined: bool,
    pub dim: bool,
}

impl HistoryAttrs {
    /// No attribute set.
    pub fn plain() -> (a: HistoryAttrs)
        ensures
            a == (HistoryAttrs { bold: false, italic: false, underlined: false, dim: false }),
    {
        HistoryAttrs { bold: false, italic: false, underlined: false, dim: false }
    }
}

/// The style of one run of text.
pub type SegStyle = (Option<TermColor>, HistoryAttrs);

/// A run of text with one foreground color and one set of attributes.
#[derive(Clone, Debug, PartialEq, Eq)]
pub struct HistorySegment {
    pub text: String,
    pub fg: Option<TermColor>,
    pub attrs: HistoryAttrs,
}

impl HistorySegment {
    pub open spec fn style(&self) -> SegStyle {
        (self.fg, self.attrs)
    }

    /// Unstyled text.
    pub fn raw(text: &str) -> (s: HistorySegment)
        ensures
            s.text@ == text@,
            s.fg.is_none(),
            s.attrs == (HistoryAttrs { bold: false, italic: false, underlined: false, dim: false }),
    {
        HistorySegment { text: text.to_owned(), fg: None, attrs: HistoryAttrs::plain() }
    }

    /// Text with a color and attributes.
    pub fn styled(text: &str, fg: Option<TermColor>, attrs: HistoryAttrs) -> (s: HistorySegment)
        ensures
            s.text@ == text@,
            s.fg == fg,
            s.attrs == attrs,
    {
        HistorySegment { text: text.to_owned(), fg, attrs }
    }
}

/// The view of a segment: its characters and its style.
pub open spec fn seg_view(s: HistorySegment) -> (Seq<char>, SegStyle) {
    (s.text@, s.style())
}

/// Concatenated text of a list of segments.
pub open spec fn segs_text(segs: Seq<HistorySegment>) -> Seq<char>
    decreases segs.len(),
{
    if segs.len() == 0 {
        Seq::empty()
    } else {
        segs_text(segs.drop_last()) + segs.last().text@
    }
}

/// One styled line of transcript history, with an optional fill token that
/// is repeated to the right edge when the line is drawn.
#[derive(Clone, Debug, PartialEq, Eq)]
pub struct ScrollbackLine {
    pub text: String,
    pub segments: Vec<HistorySegment>,
    pub bg: Option<TermColor>,
    pub fill: Option<HistorySegment>,
}

impl ScrollbackLine {
    /// The line's text is the concatenation of its segments.
    pub open spec fn wf(&self) -> bool {
        self.text@ == segs_text(self.segments@)
    }

    /// A line of one unstyled segment.
    pub fn plain(text: &str, bg: Option<TermColor>) -> (l: ScrollbackLine)
        ensures
            l.wf(),
            l.text@ == text@,
            l.segments@.len() == 1,
            l.segments@[0].text@ == text@,
            l.segments@[0].fg.is_none(),
            l.segments@[0].attrs == HistoryAttrs::plain_spec(),
            l.bg == bg,
            l.fill.is_none(),
    {
        let seg = HistorySegment::raw(text);
        let mut segments = Vec::new();
        segments.push(seg);
        proof {
            reveal_with_fuel(segs_text, 2);
            assert(segs_text(segments@) =~= text@);
        }
        ScrollbackLine { text: text.to_owned(), segments, bg, fill: None }
    }

    /// A line made of the given segments.
    pub fn styled(segments: Vec<HistorySegment>, bg: Option<TermColor>) -> (l: ScrollbackLine)
        ensures
            l.wf(),
            l.segments == segments,
            l.bg == bg,
            l.fill.is_none(),
    {
        Self::styled_with_fill(segments, bg, None)
    }

    /// A line made of the given segments and an optional fill token.
    pub fn styled_with_fill(
        segments: Vec<HistorySegment>,
        bg: Option<TermColor>,
        fill: Option<HistorySegment>,
    ) -> (l: ScrollbackLine)
        ensures
            l.wf(),
            l.segments == segments,
            l.bg == bg,
            l.fill == fill,
    {
        let text = concat_segments(&segments);
        ScrollbackLine { text, segments, bg, fill }
    }
}

impl HistoryAttrs {
    pub open spec fn plain_spec() -> HistoryAttrs {
        HistoryAttrs { bold: false, italic: false, underlined: false, dim: false }
    }
}

/// Two lines hold the same values.
pub open spec fn same_line(a: ScrollbackLine, b: ScrollbackLine) -> bool {
    &&& a.text@ == b.text@
    &&& a.segments@ == b.segments@
    &&& a.bg == b.bg
    &&& a.fill == b.fill
}

/// A copy of a segment.
pub fn copy_segment(s: &HistorySegment) -> (c: HistorySegment)
    ensures
        c == *s,
{
    HistorySegment { text: s.text.clone(), fg: s.fg, attrs: s.attrs }
}

/// A copy of a line.
pub fn copy_line(l: &ScrollbackLine) -> (c: ScrollbackLine)
    ensures
        same_line(c, *l),
{
    let mut segments: Vec<HistorySegment> = Vec::new();
    let mut i: usize = 0;
    while i < l.segments.len()
        invariant
            i <= l.segments@.len(),
            segments@ == l.segments@.take(i as int),
        decreases l.segments@.len() - i,
    {
        segments.push(copy_segment(&l.segments[i]));
        i = i + 1;
        proof {
            assert(segments@ =~= l.segments@.take(i as int));
        }
    }
    let fill = match &l.fill {
        Some(f) => Some(copy_segment(f)),
        None => None,
    };
    proof {
        assert(segments@ =~= l.segments@);
    }
    ScrollbackLine { text: l.text.clone(), segments, bg: l.bg, fill }
}

/// Concatenates the texts of the segments.
pub fn concat_segments(segments: &Vec<HistorySegment>) -> (t: String)
    ensures
        t@ == segs_text(segments@),
{
    let mut text = String::new();
    let mut i: usize = 0;
    while i < segments.len()
        invariant
            i <= segments@.len(),
            text@ == segs_text(segments@.take(i as int)),
        decreases segments@.len() - i,
    {
        proof {
            assert(segments@.take(i + 1).drop_last() == segments@.take(i as int));
        }
        text.append(segments[i].text.as_str());
        i = i + 1;
    }
    proof {
        assert(segments@.take(i as int) == segments@);
    }
    text
}

} // verus!
