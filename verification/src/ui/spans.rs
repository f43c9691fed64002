//! Styled text and regions of the terminal.

use crate::util::Rect;
use vstd::prelude::*;

verus! {

/// How a run of text is drawn.
#[derive(Clone, Copy, PartialEq, Eq, Structural, Debug)]
pub enum Tone {
    Heading,
    Muted,
    /// Muted and dim.
    Faint,
    Primary,
    Text,
    /// Text in bold.
    Strong,
    Accent,
    /// Accent in bold.
    Label,
    Success,
    /// The dimmest border colour.
    Dimmest,
}

/// A run of text in one tone.
#[derive(Debug)]
pub struct Span {
    pub text: String,
    pub tone: Tone,
}

/// The model of a line: its runs of text, each with its tone.
pub type LineView = Seq<(Seq<char>, Tone)>;

/// The model of a line.
pub open spec fn line_view(line: Seq<Span>) -> LineView {
    line.map_values(|s: Span| (s.text@, s.tone))
}

/// The model of a run of lines.
pub open spec fn lines_view(lines: Seq<Vec<Span>>) -> Seq<LineView> {
    lines.map_values(|l: Vec<Span>| line_view(l@))
}

/// How many characters a line has.
pub open spec fn line_width(line: LineView) -> int
    decreases line.len(),
{
    if line.len() == 0 {
        0
    } else {
        line_width(line.drop_last()) + line.last().0.len()
    }
}

/// Append a run of text to a line.
pub fn add_span(line: &mut Vec<Span>, text: String, tone: Tone)
    ensures
        line_view(final(line)@) == line_view(old(line)@).push((text@, tone)),
{
    let ghost before = line@;
    line.push(Span { text, tone });
    assert(line_view(line@) =~= line_view(before).push((text@, tone)));
}

/// Append a line.
pub fn add_line(lines: &mut Vec<Vec<Span>>, line: Vec<Span>)
    ensures
        lines_view(final(lines)@) == lines_view(old(lines)@).push(line_view(line@)),
{
    let ghost before = lines@;
    lines.push(line);
    assert(lines_view(lines@) =~= lines_view(before).push(line_view(line@)));
}

/// A line of one run of text.
pub open spec fn one(text: Seq<char>, tone: Tone) -> LineView {
    seq![(text, tone)]
}

/// A line of nothing.
pub open spec fn blank() -> LineView {
    Seq::empty()
}

/// Append a line of one run of text.
pub fn add_text(lines: &mut Vec<Vec<Span>>, text: &str, tone: Tone)
    ensures
        lines_view(final(lines)@) == lines_view(old(lines)@).push(one(text@, tone)),
{
    let mut line: Vec<Span> = Vec::new();
    assert(line_view(line@) =~= Seq::empty());
    add_span(&mut line, text.to_owned(), tone);
    assert(line_view(line@) =~= one(text@, tone));
    add_line(lines, line);
}

/// Append a line of nothing.
pub fn add_blank(lines: &mut Vec<Vec<Span>>)
    ensures
        lines_view(final(lines)@) == lines_view(old(lines)@).push(blank()),
{
    let line: Vec<Span> = Vec::new();
    assert(line_view(line@) =~= blank());
    add_line(lines, line);
}

// -------------------------------------------------------------------- regions

/// The lesser of a number and the largest that 16 bits hold.
pub open spec fn capped(n: int) -> int {
    if n <= u16::MAX {
        n
    } else {
        u16::MAX as int
    }
}

/// The region inside `area` with so much margin on each side; no region at all
/// where the margin is larger than the area.
pub open spec fn inset_of(area: Rect, horizontal: int, vertical: int) -> Rect {
    if area.width < capped(2 * horizontal) || area.height < capped(2 * vertical) {
        Rect { x: 0, y: 0, width: 0, height: 0 }
    } else {
        Rect {
            x: capped(area.x + horizontal) as u16,
            y: capped(area.y + vertical) as u16,
            width: (area.width - capped(2 * horizontal)) as u16,
            height: (area.height - capped(2 * vertical)) as u16,
        }
    }
}

/// A margin on both sides.
fn both_sides(margin: u16) -> (n: u16)
    ensures
        n == capped(2 * margin),
{
    margin.saturating_add(margin)
}

/// The region inside `area` with so much margin on each side.
pub fn inset(area: Rect, horizontal: u16, vertical: u16) -> (inner: Rect)
    ensures
        inner == inset_of(area, horizontal as int, vertical as int),
{
    let across = both_sides(horizontal);
    let down = both_sides(vertical);
    if area.width < across || area.height < down {
        Rect { x: 0, y: 0, width: 0, height: 0 }
    } else {
        Rect {
            x: area.x.saturating_add(horizontal),
            y: area.y.saturating_add(vertical),
            width: area.width - across,
            height: area.height - down,
        }
    }
}

/// The column behind a region.
pub open spec fn right_of(r: Rect) -> int {
    capped(r.x + r.width)
}

/// The row below a region.
pub open spec fn bottom_of(r: Rect) -> int {
    capped(r.y + r.height)
}

/// The column behind a region.
pub fn right(r: Rect) -> (x: u16)
    ensures
        x == right_of(r),
{
    r.x.saturating_add(r.width)
}

/// The row below a region.
pub fn bottom(r: Rect) -> (y: u16)
    ensures
        y == bottom_of(r),
{
    r.y.saturating_add(r.height)
}

// ----------------------------------------------------------------------- laws

/// What is modelled of a line is its runs of text in their order, and of a run of
/// lines each line.
pub proof fn law_lines_are_modelled_one_by_one(
    line: Seq<Span>,
    lines: Seq<Vec<Span>>,
    i: int,
    text: Seq<char>,
    tone: Tone,
)
    ensures
        line_view(line).len() == line.len(),
        0 <= i < line.len() ==> line_view(line)[i].0 == line[i].text@ && line_view(line)[i].1
            == line[i].tone,
        lines_view(lines).len() == lines.len(),
        0 <= i < lines.len() ==> lines_view(lines)[i] == line_view(lines[i]@),
        one(text, tone).len() == 1,
        one(text, tone)[0].0 == text && one(text, tone)[0].1 == tone,
        blank().len() == 0,
{
}

/// A line is as wide as its runs of text together.
pub proof fn law_a_line_is_as_wide_as_its_text(line: LineView, text: Seq<char>, tone: Tone)
    ensures
        line_width(line.push((text, tone))) == line_width(line) + text.len(),
        line_width(blank()) == 0,
{
    assert(line.push((text, tone)).drop_last() =~= line);
}

/// A margin leaves the region in the middle, and nothing where it does not fit.
pub proof fn law_a_margin_leaves_the_middle(area: Rect, horizontal: u16, vertical: u16)
    requires
        2 * horizontal <= u16::MAX,
        2 * vertical <= u16::MAX,
        area.x + area.width <= u16::MAX,
        area.y + area.height <= u16::MAX,
    ensures
        ({
            let inner = inset_of(area, horizontal as int, vertical as int);
            &&& area.width >= 2 * horizontal && area.height >= 2 * vertical ==> {
                &&& inner.x - area.x == horizontal
                &&& inner.y - area.y == vertical
                &&& right_of(area) - right_of(inner) == horizontal
                &&& bottom_of(area) - bottom_of(inner) == vertical
                &&& inner.width + 2 * horizontal == area.width
                &&& inner.height + 2 * vertical == area.height
            }
            &&& area.width < 2 * horizontal || area.height < 2 * vertical ==> inner.width == 0
                && inner.height == 0 && inner.x == 0 && inner.y == 0
        }),
        right_of(area) == area.x + area.width,
        bottom_of(area) == area.y + area.height,
{
}

/// What reaches past the last column or row that can be counted ends there.
pub proof fn law_a_region_ends_at_the_last_cell(area: Rect)
    ensures
        area.x + area.width > u16::MAX ==> right_of(area) == u16::MAX,
        area.y + area.height > u16::MAX ==> bottom_of(area) == u16::MAX,
{
}

} // verus!
