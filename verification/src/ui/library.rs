//! The left sidebar: sections, search results, drill-in lists.

use crate::app::play::plays_a_context;
use crate::app::state::App;
use crate::library;
use crate::library::LibItem;
use crate::library::Row;
use crate::library::SortMode;
use crate::library::SECTIONS;
use crate::text;
use crate::ui::spans;
use crate::ui::spans::add_span;
use crate::ui::spans::line_view;
use crate::ui::spans::LineView;
use crate::ui::spans::Span;
use crate::ui::spans::Tone;
use crate::util;
use crate::util::Rect;
use vstd::prelude::*;
use vstd::slice::slice_subrange;

verus! {

// ------------------------------------------------------------------- the head

/// The part of `q` before the cursor column, and the rest.
pub open spec fn cursor_split(q: Seq<char>, col: int) -> (Seq<char>, Seq<char>) {
    if col <= q.len() {
        (q.take(col), q.skip(col))
    } else {
        (q, Seq::empty())
    }
}

/// Split the query at the editor's cursor column (a char index) so the cursor
/// can be drawn where it actually is. Clamps past-the-end.
pub fn split_at_cursor(q: &str, col: usize) -> (out: (String, String))
    ensures
        (out.0@, out.1@) == cursor_split(q@, col as int),
{
    let chars = text::chars_of(q);
    let n = chars.len();
    let at = if col <= n {
        col
    } else {
        n
    };
    let before = slice_subrange(chars.as_slice(), 0, at);
    let after = slice_subrange(chars.as_slice(), at, n);
    assert(before@ =~= cursor_split(q@, col as int).0);
    assert(after@ =~= cursor_split(q@, col as int).1);
    (text::string_of(before), text::string_of(after))
}

/// A number less another, or nothing where that is larger.
pub open spec fn less(a: int, b: int) -> int {
    if a >= b {
        a - b
    } else {
        0
    }
}

/// Header line: drill-in title, search input/results, or section indicator.
pub open spec fn head_line(app: App, cursor: int, width: int) -> LineView {
    if app.browse.details@.len() > 0 {
        seq![
            ("‹ "@, Tone::Primary),
            (util::truncated(app.browse.details@.last().title@, less(width, 8)), Tone::Heading),
            ("  Esc"@, Tone::Muted),
        ]
    } else if app.search.input_mode {
        let (before, after) = cursor_split(app.search.query@, cursor);
        seq![("search: "@, Tone::Heading), (before + "▏"@ + after, Tone::Text)]
    } else if app.search.searching {
        seq![
            ("search: "@, Tone::Heading),
            (app.search.query@, Tone::Text),
            ("  (Esc)"@, Tone::Muted),
        ]
    } else {
        let place = seq![
            ("‹ "@, Tone::Muted),
            (app.browse.section.name(), Tone::Heading),
            (" ›"@, Tone::Muted),
            (
                "  "@ + text::decimal((app.browse.section.place() + 1) as nat) + "/"@
                    + text::decimal(SECTIONS as nat) + " · "@ + text::decimal(
                    app.shown_rows().len(),
                ),
                Tone::Muted,
            ),
        ];
        if app.browse.sort is Added {
            place
        } else {
            place.push(("  ⇅"@ + app.browse.sort.name(), Tone::Accent))
        }
    }
}

/// Header line: drill-in title, search input/results, or section indicator.
fn head(app: &App, cursor: usize, width: u16) -> (line: Vec<Span>)
    ensures
        line_view(line@) == head_line(*app, cursor as int, width as int),
{
    let mut line: Vec<Span> = Vec::new();
    assert(line_view(line@) =~= Seq::empty());
    let depth = app.browse.details.len();
    if depth > 0 {
        add_span(&mut line, "‹ ".to_owned(), Tone::Primary);
        let title = util::truncate(
            app.browse.details[depth - 1].title.as_str(),
            width.saturating_sub(8) as usize,
        );
        add_span(&mut line, title, Tone::Heading);
        add_span(&mut line, "  Esc".to_owned(), Tone::Muted);
    } else if app.search.input_mode {
        let (before, after) = split_at_cursor(app.search.query.as_str(), cursor);
        add_span(&mut line, "search: ".to_owned(), Tone::Heading);
        add_span(
            &mut line,
            text::join3(before.as_str(), "▏", after.as_str()),
            Tone::Text,
        );
    } else if app.search.searching {
        add_span(&mut line, "search: ".to_owned(), Tone::Heading);
        add_span(&mut line, app.search.query.clone(), Tone::Text);
        add_span(&mut line, "  (Esc)".to_owned(), Tone::Muted);
    } else {
        add_span(&mut line, "‹ ".to_owned(), Tone::Muted);
        add_span(&mut line, app.browse.section.label().to_owned(), Tone::Heading);
        add_span(&mut line, " ›".to_owned(), Tone::Muted);
        let place = text::decimal_text(app.browse.section.index() as u64 + 1);
        let all = text::decimal_text(SECTIONS as u64);
        let count = text::decimal_text(app.cur_items().len() as u64);
        assert(app.shown_rows().len() == app.shown()@.len());
        let a = text::join3("  ", place.as_str(), "/");
        let b = text::join3(a.as_str(), all.as_str(), " · ");
        add_span(&mut line, text::join2(b.as_str(), count.as_str()), Tone::Muted);
        if app.browse.sort != SortMode::Added {
            add_span(&mut line, text::join2("  ⇅", app.browse.sort.label()), Tone::Accent);
        }
    }
    assert(line_view(line@) =~= head_line(*app, cursor as int, width as int));
    line
}

// ------------------------------------------------------------------------ rows

/// Whether `P` can play a row outright, so that it is marked.
pub open spec fn marked(row: Row) -> bool {
    plays_a_context(row) && !row.is_play
}

/// How a row reads in a pane with room for `max` characters. The subtitle is
/// shown only where more than a few characters of it fit.
pub open spec fn row_line(row: Row, selected: bool, max: int) -> LineView {
    if row.is_header {
        seq![(row.name, Tone::Label)]
    } else {
        let room = if marked(row) {
            less(max, 2)
        } else {
            max
        };
        let label = util::truncated(row.name, room);
        let left = less(room, label.len() as int + 1 + 3);
        let mark: LineView = if marked(row) {
            seq![(" ▶"@, Tone::Dimmest)]
        } else {
            Seq::empty()
        };
        let name: LineView = seq![
            (
                " "@ + label,
                if selected {
                    Tone::Strong
                } else {
                    Tone::Muted
                },
            ),
        ];
        let tail: LineView = if row.subtitle.len() > 0 && left > 3 {
            seq![
                (" · "@, Tone::Dimmest),
                (util::truncated(row.subtitle, left), Tone::Faint),
            ]
        } else {
            Seq::empty()
        };
        mark + name + tail
    }
}

/// How a row reads in a pane with room for `max` characters.
fn show_row(item: &LibItem, selected: bool, max: usize) -> (line: Vec<Span>)
    ensures
        line_view(line@) == row_line(item@, selected, max as int),
{
    let mut line: Vec<Span> = Vec::new();
    assert(line_view(line@) =~= Seq::empty());
    if item.is_header {
        add_span(&mut line, item.name.clone(), Tone::Label);
        assert(line_view(line@) =~= row_line(item@, selected, max as int));
        return line;
    }
    let playable = !item.is_track && !item.is_play;
    let room = if playable {
        max.saturating_sub(2)
    } else {
        max
    };
    let label = util::truncate(item.name.as_str(), room);
    if playable {
        add_span(&mut line, " ▶".to_owned(), Tone::Dimmest);
    }
    let tone = if selected {
        Tone::Strong
    } else {
        Tone::Muted
    };
    add_span(&mut line, text::join2(" ", label.as_str()), tone);
    if item.subtitle.as_str().unicode_len() > 0 {
        let used = label.as_str().unicode_len();
        let left: usize = if room >= 4 && room - 4 >= used {
            room - 4 - used
        } else {
            0
        };
        if left > 3 {
            add_span(&mut line, " · ".to_owned(), Tone::Dimmest);
            add_span(&mut line, util::truncate(item.subtitle.as_str(), left), Tone::Faint);
        }
    }
    assert(line_view(line@) =~= row_line(item@, selected, max as int));
    line
}

// -------------------------------------------------------------- the scrollbar

/// The first row on screen, in a pane of `cap` rows: the one that was first
/// before, or else the nearest with which the selected row is on screen and no
/// room is left behind the last row.
pub open spec fn scrolled(previous: int, selected: int, cap: int, total: int) -> int {
    let near = if cap > 0 && previous < selected - cap + 1 {
        selected - cap + 1
    } else if previous > selected {
        selected
    } else {
        previous
    };
    if near <= total - cap {
        near
    } else {
        less(total, cap)
    }
}

/// The first row on screen, given the one that was first before.
pub fn scroll_offset(previous: usize, selected: usize, cap: usize, total: usize) -> (offset: usize)
    ensures
        offset == scrolled(previous as int, selected as int, cap as int, total as int),
{
    let near = if cap > 0 && selected >= cap && previous < selected - (cap - 1) {
        selected - (cap - 1)
    } else if previous > selected {
        selected
    } else {
        previous
    };
    let last = total.saturating_sub(cap);
    if total >= cap && near <= last {
        near
    } else {
        last
    }
}

/// The selected row is on screen, and the list stays where it was for as long as
/// it is.
pub proof fn law_the_selected_row_is_on_screen(previous: int, selected: int, cap: int, total: int)
    requires
        0 <= previous,
        0 <= selected < total,
        0 < cap,
    ensures
        0 <= scrolled(previous, selected, cap, total) <= selected,
        selected < scrolled(previous, selected, cap, total) + cap,
        previous <= selected < previous + cap <= total ==> scrolled(previous, selected, cap, total)
            == previous,
{
}

/// Where the thumb of a scrollbar stands.
#[derive(Clone, Copy, PartialEq, Eq, Structural, Debug)]
pub struct Thumb {
    pub top: usize,
    pub height: usize,
}

/// The height of the thumb: the share of the list that is on screen, rounded up,
/// and at least one row.
pub open spec fn thumb_height(cap: int, total: int) -> int {
    let share = (cap * cap + total - 1) / total;
    if share < 1 {
        1
    } else if share > cap {
        cap
    } else {
        share
    }
}

/// Where the thumb begins: the share of the way that has been scrolled, rounded
/// to the nearest row.
pub open spec fn thumb_top(cap: int, total: int, offset: int) -> int {
    let way = total - cap;
    (offset * (cap - thumb_height(cap, total)) + way / 2) / way
}

/// Whether the way scrolled, in parts of a row of the track, is a number that
/// the machine can hold.
pub open spec fn can_scroll(cap: int, total: int, offset: int) -> bool {
    offset * (cap - thumb_height(cap, total)) + (total - cap) / 2 <= usize::MAX
}

/// Where the thumb stands. Past the last full screen it stands past its track.
pub fn thumb(cap: usize, total: usize, offset: usize) -> (out: Thumb)
    requires
        0 < cap < total,
        cap <= u16::MAX,
        can_scroll(cap as int, total as int, offset as int),
    ensures
        out.height == thumb_height(cap as int, total as int),
        out.top == thumb_top(cap as int, total as int, offset as int),
        out.height >= 1,
        offset <= total - cap ==> out.top + out.height <= cap,
{
    let c = cap as u128;
    let t = total as u128;
    proof {
        if offset <= total - cap {
            lemma_thumb_fits(cap as int, total as int, offset as int);
        }
    }
    assert(c * c <= 0xffff * 0xffff) by (nonlinear_arith)
        requires
            0 <= c <= 0xffff,
    ;
    let share: u128 = (c * c + t - 1) / t;
    let height: usize = if share < 1 {
        1
    } else if share > c {
        cap
    } else {
        share as usize
    };
    let travel: u128 = c - height as u128;
    let way: u128 = t - c;
    let o = offset as u128;
    assert(o * travel <= 0xffff_ffff_ffff_ffff * 0xffff) by (nonlinear_arith)
        requires
            0 <= o <= 0xffff_ffff_ffff_ffff,
            0 <= travel <= 0xffff,
    ;
    let way_scrolled: u128 = o * travel + way / 2;
    assert(way_scrolled / way <= way_scrolled) by (nonlinear_arith)
        requires
            way > 0,
    ;
    let top: u128 = way_scrolled / way;
    Thumb { top: top as usize, height }
}

proof fn lemma_thumb_fits(cap: int, total: int, offset: int)
    requires
        0 < cap < total,
        0 <= offset <= total - cap,
    ensures
        1 <= thumb_height(cap, total) <= cap,
        0 <= thumb_top(cap, total, offset) <= cap - thumb_height(cap, total),
{
    let way = total - cap;
    let travel = cap - thumb_height(cap, total);
    let n = offset * travel + way / 2;
    assert(0 <= offset * travel <= way * travel) by (nonlinear_arith)
        requires
            0 <= offset <= way,
            0 <= travel,
    ;
    assert(n < way * (travel + 1)) by (nonlinear_arith)
        requires
            n <= way * travel + way / 2,
            way > 0,
    ;
    assert(n / way < travel + 1) by (nonlinear_arith)
        requires
            n < way * (travel + 1),
            way > 0,
    ;
    assert(n / way >= 0) by (nonlinear_arith)
        requires
            n >= 0,
            way > 0,
    ;
}

/// At the top of the list the thumb stands at the top of its track, at the end
/// of the list at the end, and it never leaves the track.
pub proof fn law_the_thumb_follows_the_list(cap: int, total: int, offset: int)
    requires
        0 < cap < total,
        0 <= offset <= total - cap,
    ensures
        thumb_top(cap, total, 0) == 0,
        thumb_top(cap, total, total - cap) == cap - thumb_height(cap, total),
        0 <= thumb_top(cap, total, offset),
        thumb_top(cap, total, offset) + thumb_height(cap, total) <= cap,
{
    lemma_thumb_fits(cap, total, offset);
    let way = total - cap;
    let travel = cap - thumb_height(cap, total);
    assert((0 * travel + way / 2) / way == 0) by (nonlinear_arith)
        requires
            way > 0,
    ;
    assert((way * travel + way / 2) / way == travel) by {
        vstd::arithmetic::div_mod::lemma_fundamental_div_mod_converse(
            way * travel + way / 2,
            way,
            travel,
            way / 2,
        );
    }
}

// ------------------------------------------------------------------- the pane

/// Where a scrollbar stands, and its thumb.
pub struct Scrollbar {
    pub track: Rect,
    pub thumb: Thumb,
}

/// The list below the header line.
pub enum PaneList {
    /// There is no room for it.
    Hidden,
    /// It is empty: the place for a word that says so.
    Empty(Rect),
    /// The rows on screen, from `first` on.
    Rows {
        viewport: Rect,
        first: usize,
        lines: Vec<Vec<Span>>,
        total: usize,
        scrollbar: Option<Scrollbar>,
    },
}

/// The whole pane.
pub struct Pane {
    pub head: Vec<Span>,
    pub head_rect: Rect,
    pub list: PaneList,
}

/// How many rows fit below the header line.
pub open spec fn capacity(inner: Rect) -> int {
    less(spans::bottom_of(inner), inner.y + 2)
}

/// Whether the list is longer than the pane, which then has a scrollbar.
pub open spec fn overflows(inner: Rect, total: int) -> bool {
    total > capacity(inner) && inner.width > 2
}

/// The lines on screen from row `first` on.
pub open spec fn visible(list: Seq<Row>, selected: int, first: int, cap: int, max: int) -> Seq<
    LineView,
> {
    Seq::new(
        less(
            if first + cap <= list.len() {
                first + cap
            } else {
                list.len() as int
            },
            first,
        ) as nat,
        |k: int| row_line(list[first + k], first + k == selected, max),
    )
}

/// The rows on screen.
fn visible_rows(items: &Vec<LibItem>, selected: usize, first: usize, cap: usize, max: usize) -> (
    lines: Vec<Vec<Span>>)
    requires
        cap <= u16::MAX,
    ensures
        spans::lines_view(lines@) == visible(
            library::rows(items@),
            selected as int,
            first as int,
            cap as int,
            max as int,
        ),
{
    let n = items.len();
    let ghost list = library::rows(items@);
    let ghost want = visible(list, selected as int, first as int, cap as int, max as int);
    let mut lines: Vec<Vec<Span>> = Vec::new();
    assert(spans::lines_view(lines@) =~= Seq::empty());
    if first >= n {
        assert(want =~= Seq::empty());
        return lines;
    }
    let end: usize = if n - first <= cap {
        n
    } else {
        first + cap
    };
    let mut i: usize = first;
    while i < end
        invariant
            first <= i <= end,
            end <= n,
            n == items@.len(),
            list == library::rows(items@),
            want == visible(list, selected as int, first as int, cap as int, max as int),
            want.len() == end - first,
            spans::lines_view(lines@) == want.take(i - first),
        decreases end - i,
    {
        let ghost before = spans::lines_view(lines@);
        assert(list[i as int] == items@[i as int]@);
        let line = show_row(&items[i], i == selected, max);
        assert(want[i - first] == line_view(line@));
        spans::add_line(&mut lines, line);
        assert(spans::lines_view(lines@) =~= want.take(i - first + 1));
        i += 1;
    }
    assert(want.take(end - first) =~= want);
    lines
}

/// Lay out the sidebar in `area`: the header line, and as many rows from
/// `offset` on as fit. `None` where there is no room at all.
pub fn library_pane(app: &App, area: Rect, cursor: usize, offset: usize) -> (out: Option<Pane>)
    requires
        spans::inset_of(area, 2, 1).height >= 2 ==> spans::inset_of(area, 2, 1).y + 2 <= u16::MAX,
        ({
            let inner = spans::inset_of(area, 2, 1);
            let total = app.shown_rows().len() as int;
            capacity(inner) > 0 && overflows(inner, total) ==> can_scroll(
                capacity(inner),
                total,
                offset as int,
            )
        }),
    ensures
        ({
            let inner = spans::inset_of(area, 2, 1);
            let cap = capacity(inner);
            let list = app.shown_rows();
            let total = list.len() as int;
            let over = overflows(inner, total);
            match out {
                None => inner.height < 2,
                Some(pane) => {
                    &&& inner.height >= 2
                    &&& line_view(pane.head@) == head_line(*app, cursor as int, inner.width as int)
                    &&& pane.head_rect == (Rect { height: 1, ..inner })
                    &&& match pane.list {
                        PaneList::Hidden => cap == 0,
                        PaneList::Empty(at) => cap > 0 && total == 0 && at == (Rect {
                            y: (inner.y + 2) as u16,
                            height: 1,
                            ..inner
                        }),
                        PaneList::Rows { viewport, first, lines, total: n, scrollbar } => {
                            &&& cap > 0 && total > 0
                            &&& viewport == (Rect {
                                y: (inner.y + 2) as u16,
                                height: cap as u16,
                                ..inner
                            })
                            &&& first == offset
                            &&& n == total
                            &&& spans::lines_view(lines@) == visible(
                                list,
                                app.browse.selected as int,
                                offset as int,
                                cap,
                                less(
                                    inner.width as int,
                                    if over {
                                        3
                                    } else {
                                        2
                                    },
                                ),
                            )
                            &&& match scrollbar {
                                Some(bar) => {
                                    &&& over
                                    &&& bar.track == (Rect {
                                        x: spans::right_of(inner) as u16,
                                        y: (inner.y + 2) as u16,
                                        width: 1,
                                        height: cap as u16,
                                    })
                                    &&& bar.thumb.height == thumb_height(cap, total)
                                    &&& bar.thumb.top == thumb_top(cap, total, offset as int)
                                },
                                None => !over,
                            }
                        },
                    }
                },
            }
        }),
{
    let inner = spans::inset(area, 2, 1);
    if inner.height < 2 {
        return None;
    }
    let line = head(app, cursor, inner.width);
    let head_rect = Rect { x: inner.x, y: inner.y, width: inner.width, height: 1 };
    let top = inner.y + 2;
    let end = spans::bottom(inner);
    if top >= end {
        return Some(Pane { head: line, head_rect, list: PaneList::Hidden });
    }
    let cap = (end - top) as usize;
    let items = app.cur_items();
    let total = items.len();
    assert(app.shown_rows().len() == total);
    if total == 0 {
        let at = Rect { x: inner.x, y: top, width: inner.width, height: 1 };
        return Some(Pane { head: line, head_rect, list: PaneList::Empty(at) });
    }
    let overflow = total > cap && inner.width > 2;
    let max = inner.width.saturating_sub(
        if overflow {
            3
        } else {
            2
        },
    ) as usize;
    let lines = visible_rows(items, app.browse.selected, offset, cap, max);
    let scrollbar = if overflow {
        Some(
            Scrollbar {
                track: Rect { x: spans::right(inner), y: top, width: 1, height: cap as u16 },
                thumb: thumb(cap, total, offset),
            },
        )
    } else {
        None
    };
    Some(
        Pane {
            head: line,
            head_rect,
            list: PaneList::Rows {
                viewport: Rect { x: inner.x, y: top, width: inner.width, height: cap as u16 },
                first: offset,
                lines,
                total,
                scrollbar,
            },
        },
    )
}

// ----------------------------------------------------------------------- laws

/// A row fits its pane: in a pane with room for `max` characters it takes at
/// most one more, for the space before its name. A marked row needs the room of
/// its mark.
pub proof fn law_a_row_fits_its_pane(row: Row, selected: bool, max: int)
    requires
        max >= 0,
        marked(row) ==> max >= 2,
        !row.is_header,
    ensures
        spans::line_width(row_line(row, selected, max)) <= max + 1,
{
    reveal_strlit(" ▶");
    reveal_strlit(" ");
    reveal_strlit(" · ");
    reveal_with_fuel(spans::line_width, 5);
    let line = row_line(row, selected, max);
    let room = if marked(row) {
        less(max, 2)
    } else {
        max
    };
    let label = util::truncated(row.name, room);
    util::law_truncated_text_fits(row.name, room);
    let left = less(room, label.len() as int + 1 + 3);
    if row.subtitle.len() > 0 && left > 3 {
        util::law_truncated_text_fits(row.subtitle, left);
        if marked(row) {
            assert(line.drop_last() =~= seq![line[0], line[1], line[2]]);
            assert(line.drop_last().drop_last() =~= seq![line[0], line[1]]);
            assert(line.drop_last().drop_last().drop_last() =~= seq![line[0]]);
            assert(line.drop_last().drop_last().drop_last().drop_last() =~= Seq::empty());
        } else {
            assert(line.drop_last() =~= seq![line[0], line[1]]);
            assert(line.drop_last().drop_last() =~= seq![line[0]]);
            assert(line.drop_last().drop_last().drop_last() =~= Seq::empty());
        }
    } else {
        if marked(row) {
            assert(line.drop_last() =~= seq![line[0]]);
            assert(line.drop_last().drop_last() =~= Seq::empty());
        } else {
            assert(line.drop_last() =~= Seq::empty());
        }
    }
}

/// A text is split at the cursor without losing anything, and past its end the
/// cursor stands at the end.
pub proof fn law_a_split_text_is_whole(q: Seq<char>, col: int)
    requires
        col >= 0,
    ensures
        cursor_split(q, col).0 + cursor_split(q, col).1 == q,
        col <= q.len() ==> cursor_split(q, col).0.len() == col,
        col > q.len() ==> cursor_split(q, col).1.len() == 0,
{
    assert(cursor_split(q, col).0 + cursor_split(q, col).1 =~= q);
}

/// The header line names what is shown: what was opened last, by its title,
/// whole where it fits; what is being searched for, as typed, with the cursor in
/// its place; or the section, with its place among the six, how many rows it has,
/// and the order it is in unless that is the order of fetching.
pub proof fn law_the_header_names_what_is_shown(app: App, cursor: int, width: int)
    requires
        cursor >= 0,
    ensures
        ({
            let line = head_line(app, cursor, width);
            if app.browse.details@.len() > 0 {
                let title = app.browse.details@.last().title@;
                &&& line.len() == 3
                &&& line[0] == ("‹ "@, Tone::Primary)
                &&& title.len() + 8 <= width ==> line[1].0 == title
                &&& line[1].1 is Heading
                &&& line[2] == ("  Esc"@, Tone::Muted)
            } else if app.search.input_mode {
                let q = app.search.query@;
                &&& line.len() == 2
                &&& line[0] == ("search: "@, Tone::Heading)
                &&& line[1].1 is Text
                &&& cursor <= q.len() ==> line[1].0 == q.take(cursor) + "▏"@ + q.skip(cursor)
                &&& cursor > q.len() ==> line[1].0 == q + "▏"@
            } else if app.search.searching {
                &&& line.len() == 3
                &&& line[0] == ("search: "@, Tone::Heading)
                &&& line[1] == (app.search.query@, Tone::Text)
                &&& line[2] == ("  (Esc)"@, Tone::Muted)
            } else {
                &&& line.len() == if app.browse.sort is Added {
                    4int
                } else {
                    5
                }
                &&& line[0] == ("‹ "@, Tone::Muted)
                &&& line[1] == (app.browse.section.name(), Tone::Heading)
                &&& line[2] == (" ›"@, Tone::Muted)
                &&& line[3] == (
                    "  "@ + text::decimal((app.browse.section.place() + 1) as nat) + "/"@
                        + text::decimal(6) + " · "@ + text::decimal(app.shown()@.len()),
                    Tone::Muted,
                )
                &&& !(app.browse.sort is Added) ==> line[4] == (
                    "  ⇅"@ + app.browse.sort.name(),
                    Tone::Accent,
                )
            }
        }),
{
    let q = app.search.query@;
    assert(q + "▏"@ + Seq::empty() =~= q + "▏"@);
}

/// A row is shown by its own name, whole where it fits, in bold where it is
/// selected. What can be played outright carries a mark before it, and what has a
/// subtitle shows it behind the name where there is room. A label is its name.
pub proof fn law_a_row_is_shown_by_its_name(row: Row, selected: bool, max: int)
    requires
        max >= 2,
    ensures
        ({
            let line = row_line(row, selected, max);
            let at: int = if marked(row) {
                1
            } else {
                0
            };
            let room = max - 2 * at;
            let left = room - row.name.len() - 4;
            &&& row.is_header ==> line == seq![(row.name, Tone::Label)]
            &&& !row.is_header ==> {
                &&& line.len() >= at + 1
                &&& marked(row) ==> line[0] == (" ▶"@, Tone::Dimmest)
                &&& line[at].1 == (if selected {
                    Tone::Strong
                } else {
                    Tone::Muted
                })
                &&& row.name.len() <= room ==> line[at].0 == " "@ + row.name
                &&& row.name.len() > room > 0 ==> line[at].0 == " "@ + (row.name.take(room - 1)
                    + seq!['…'])
                &&& row.subtitle.len() == 0 ==> line.len() == at + 1
                &&& row.subtitle.len() > 0 && row.name.len() <= room && left > 3 ==> {
                    &&& line.len() == at + 3
                    &&& line[at + 1] == (" · "@, Tone::Dimmest)
                    &&& line[at + 2].1 is Faint
                    &&& row.subtitle.len() <= left ==> line[at + 2].0 == row.subtitle
                    &&& row.subtitle.len() > left ==> line[at + 2].0 == row.subtitle.take(left - 1)
                        + seq!['…']
                }
                &&& left <= 3 ==> line.len() == at + 1
            }
        }),
        marked(row) <==> !row.is_header && !row.is_track && !row.is_play,
{
    let at: int = if marked(row) {
        1
    } else {
        0
    };
    util::law_truncated_text_fits(row.name, max - 2 * at);
}

/// The list scrolls no further than it must: a list that fits stays at its top,
/// the last screen is full, and a row above or below comes on screen at the edge
/// it came over.
pub proof fn law_the_list_scrolls_no_further_than_needed(
    previous: int,
    selected: int,
    cap: int,
    total: int,
)
    requires
        0 <= previous,
        0 <= selected < total,
        0 < cap,
    ensures
        total <= cap ==> scrolled(previous, selected, cap, total) == 0,
        total > cap ==> scrolled(previous, selected, cap, total) <= total - cap,
        selected < previous && selected <= total - cap ==> scrolled(previous, selected, cap, total)
            == selected,
        selected >= previous + cap ==> scrolled(previous, selected, cap, total) == selected - cap
            + 1,
{
}

/// In a pane without any rows the list is moved only so far that neither the
/// selected row nor the end stands above its beginning.
pub proof fn law_a_pane_without_rows_hardly_scrolls(previous: int, selected: int, total: int)
    requires
        0 <= previous,
        0 <= selected,
        0 <= total,
    ensures
        ({
            let first = scrolled(previous, selected, 0, total);
            &&& first <= previous && first <= selected && first <= total
            &&& first == previous || first == selected || first == total
        }),
{
}

/// The thumb is as much of its track as the screen is of the list, rounded up to
/// whole rows, and stands as far down as the list has been scrolled, to the
/// nearest row.
pub proof fn law_the_thumb_is_in_proportion(cap: int, total: int, offset: int)
    requires
        0 < cap < total,
        0 <= offset <= total - cap,
    ensures
        ({
            let h = thumb_height(cap, total);
            &&& 1 <= h <= cap
            &&& h * total >= cap * cap
            &&& (h - 1) * total < cap * cap
        }),
        ({
            let way = total - cap;
            let travel = cap - thumb_height(cap, total);
            let top = thumb_top(cap, total, offset);
            &&& 2 * (top * way - offset * travel) <= way
            &&& 2 * (offset * travel - top * way) <= way
        }),
{
    let share = (cap * cap + total - 1) / total;
    let n = cap * cap + total - 1;
    assert(cap * cap >= 1) by (nonlinear_arith)
        requires
            cap > 0,
    ;
    vstd::arithmetic::div_mod::lemma_fundamental_div_mod(n, total);
    vstd::arithmetic::div_mod::lemma_mod_bound(n, total);
    assert(share * total <= n < share * total + total) by (nonlinear_arith)
        requires
            n == total * share + n % total,
            0 <= n % total < total,
    ;
    assert(share <= cap) by (nonlinear_arith)
        requires
            share * total <= cap * cap + total - 1,
            0 < cap < total,
    ;
    assert(share >= 1) by (nonlinear_arith)
        requires
            n < share * total + total,
            n >= total,
            total > 0,
    ;
    assert((share - 1) * total == share * total - total) by (nonlinear_arith);
    let way = total - cap;
    let travel = cap - thumb_height(cap, total);
    let m = offset * travel + way / 2;
    let top = thumb_top(cap, total, offset);
    vstd::arithmetic::div_mod::lemma_fundamental_div_mod(m, way);
    vstd::arithmetic::div_mod::lemma_mod_bound(m, way);
    assert(top * way == way * top) by (nonlinear_arith);
}

/// All that is left below the header line and the line under it is room for rows,
/// and the list gets a scrollbar where it is longer than that.
pub proof fn law_the_rest_of_the_pane_is_for_rows(inner: Rect, total: int)
    requires
        inner.y + inner.height <= u16::MAX,
    ensures
        inner.height >= 2 ==> capacity(inner) == inner.height - 2,
        inner.height < 2 ==> capacity(inner) == 0,
        inner.width > 2 ==> (overflows(inner, total) <==> total > capacity(inner)),
        inner.width <= 2 ==> !overflows(inner, total),
{
}

/// On screen are the rows from the first one on, as many as fit, each as it is
/// and the selected one marked as such.
pub proof fn law_each_line_is_its_row(
    list: Seq<Row>,
    selected: int,
    first: int,
    cap: int,
    max: int,
    k: int,
)
    requires
        0 <= first <= list.len(),
        0 <= cap,
    ensures
        ({
            let lines = visible(list, selected, first, cap, max);
            &&& first + cap <= list.len() ==> lines.len() == cap
            &&& first + cap > list.len() ==> lines.len() == list.len() - first
            &&& 0 <= k < lines.len() ==> lines[k] == row_line(
                list[first + k],
                first + k == selected,
                max,
            )
        }),
{
}

/// A list within reason can always be scrolled: one of so many rows that the rows
/// on screen times all rows can be counted.
pub proof fn law_an_ordinary_list_can_be_scrolled(cap: int, total: int, offset: int)
    requires
        0 < cap < total,
        0 <= offset <= total - cap,
        cap * total <= usize::MAX,
    ensures
        can_scroll(cap, total, offset),
{
    law_the_thumb_is_in_proportion(cap, total, offset);
    let h = thumb_height(cap, total);
    assert(offset * (cap - h) + (total - cap) / 2 <= cap * total) by (nonlinear_arith)
        requires
            0 < cap < total,
            0 <= offset <= total - cap,
            1 <= h <= cap,
    ;
}

} // verus!
