//! Browsing: what is listed, where the selection stands, and what Enter does.

use crate::app::state::App;
use crate::app::state::BrowseState;
use crate::app::state::Detail;
use crate::app::state::SearchState;
use crate::library;
use crate::library::LibItem;
use crate::library::Row;
use vstd::prelude::*;

verus! {

// ------------------------------------------------------------- what is listed

impl App {
    /// The list on screen: the topmost drill-in, the search results, or the
    /// section.
    pub open spec fn shown(self) -> Vec<LibItem> {
        if self.browse.details@.len() > 0 {
            self.browse.details@.last().items
        } else if self.search.searching {
            self.search.search_results
        } else {
            self.browse.library.of(self.browse.section)
        }
    }

    /// The models of the rows on screen.
    pub open spec fn shown_rows(self) -> Seq<Row> {
        library::rows(self.shown()@)
    }

    /// The list on screen.
    pub fn cur_items(&self) -> (items: &Vec<LibItem>)
        ensures
            *items == self.shown(),
    {
        let n = self.browse.details.len();
        if n > 0 {
            &self.browse.details[n - 1].items
        } else if self.search.searching {
            &self.search.search_results
        } else {
            self.browse.library.items(self.browse.section)
        }
    }

    /// Whether this is `before` with another list on screen.
    pub open spec fn relisted(self, before: App, items: Vec<LibItem>) -> bool {
        if before.browse.details@.len() > 0 {
            let top = Detail { items, ..before.browse.details@.last() };
            &&& self.browse.details@ == before.browse.details@.update(
                before.browse.details@.len() - 1,
                top,
            )
            &&& self == (App {
                browse: BrowseState { details: self.browse.details, ..before.browse },
                ..before
            })
        } else if before.search.searching {
            self == (App {
                search: SearchState { search_results: items, ..before.search },
                ..before
            })
        } else {
            self == (App {
                browse: BrowseState {
                    library: before.browse.library.with(before.browse.section, items),
                    ..before.browse
                },
                ..before
            })
        }
    }

    /// The list on screen, to be changed in place.
    pub fn cur_list_mut(&mut self) -> (items: &mut Vec<LibItem>)
        ensures
            *items == old(self).shown(),
            final(self).relisted(*old(self), *final(items)),
    {
        let n = self.browse.details.len();
        if n > 0 {
            &mut self.browse.details[n - 1].items
        } else if self.search.searching {
            &mut self.search.search_results
        } else {
            self.browse.library.items_mut(self.browse.section)
        }
    }
}

// ---------------------------------------------------------------- selection

/// Whether the `i`-th row can be selected.
pub open spec fn selectable(list: Seq<Row>, i: int) -> bool {
    0 <= i < list.len() && !list[i].is_header
}

/// The first row that is no header; the first row when all are.
pub open spec fn first_row(list: Seq<Row>, from: int) -> int
    decreases list.len() - from,
{
    if from < 0 || from >= list.len() {
        0
    } else if !list[from].is_header {
        from
    } else {
        first_row(list, from + 1)
    }
}

/// Where a selection at `i` moves in steps of `dir`: to the first row on the
/// way that is no header, if there is one.
pub open spec fn next_row(list: Seq<Row>, i: int, dir: int) -> Option<int>
    decreases
            if dir > 0 {
                list.len() - i
            } else {
                i + 1
            },
    when dir != 0
{
    let j = i + dir;
    if j < 0 || j >= list.len() {
        None
    } else if !list[j].is_header {
        Some(j)
    } else {
        next_row(list, j, dir)
    }
}

impl App {
    /// The state with another row selected.
    pub open spec fn selecting(self, at: int) -> App {
        App { browse: BrowseState { selected: at as usize, ..self.browse }, ..self }
    }

    /// The state with the selection moved by `dir`.
    pub open spec fn moved(self, dir: int) -> App {
        if dir == 0 {
            self
        } else {
            match next_row(self.shown_rows(), self.browse.selected as int, dir) {
                Some(at) => self.selecting(at),
                None => self,
            }
        }
    }

    /// First non-header index (where a fresh selection should land).
    pub fn first_selectable(&self) -> (at: usize)
        ensures
            at == first_row(self.shown_rows(), 0),
    {
        let items = self.cur_items();
        let mut i: usize = 0;
        while i < items.len()
            invariant
                i <= items@.len(),
                *items == self.shown(),
                first_row(self.shown_rows(), 0) == first_row(self.shown_rows(), i as int),
            decreases items@.len() - i,
        {
            assert(self.shown_rows()[i as int] == items@[i as int]@);
            if !items[i].is_header {
                return i;
            }
            i += 1;
        }
        0
    }

    /// Move the selection by `dir`, skipping header rows, clamped at the ends.
    pub fn move_sel(&mut self, dir: isize)
        requires
            dir != 0 || !(old(self).browse.selected < old(self).shown_rows().len()
                && old(self).shown_rows()[old(self).browse.selected as int].is_header),
            old(self).shown_rows().len() > 0 ==> old(self).browse.selected <= isize::MAX
                && old(self).browse.selected + dir <= isize::MAX,
        ensures
            *final(self) == old(self).moved(dir as int),
    {
        if dir == 0 {
            return;
        }
        let items = self.cur_items();
        let n = items.len();
        let ghost list = self.shown_rows();
        let ghost want = next_row(list, self.browse.selected as int, dir as int);
        let mut i: i128 = self.browse.selected as i128;
        let step = dir as i128;
        let mut found: Option<usize> = None;
        let mut more = true;
        while more
            invariant
                dir != 0,
                step == dir,
                n == items@.len(),
                *items == self.shown(),
                list == self.shown_rows(),
                0 <= i <= usize::MAX,
                more ==> next_row(list, i as int, dir as int) == want,
                !more ==> want == (match found {
                    Some(at) => Some(at as int),
                    None => None::<int>,
                }),
                more ==> found is None,
                found matches Some(at) ==> at < n,
            decreases
                if more {
                    1int
                } else {
                    0int
                },
                if dir > 0 {
                    n as int + usize::MAX - i
                } else {
                    i + 1
                },
        {
            let j = i + step;
            if j < 0 || j >= n as i128 {
                more = false;
            } else {
                let at = j as usize;
                assert(list[at as int] == items@[at as int]@);
                if !items[at].is_header {
                    found = Some(at);
                    more = false;
                } else {
                    i = j;
                }
            }
        }
        if let Some(at) = found {
            self.browse.selected = at;
        }
    }

    /// If the selection landed on a header (e.g. after data loads), bump it off.
    pub fn normalize_selection(&mut self)
        ensures
            *final(self) == old(self).normalized(),
    {
        let items = self.cur_items();
        let at = self.browse.selected;
        if at < items.len() {
            assert(self.shown_rows()[at as int] == items@[at as int]@);
            if items[at].is_header {
                let first = self.first_selectable();
                self.browse.selected = first;
            }
        }
    }

    /// The state with the selection off any header.
    pub open spec fn normalized(self) -> App {
        let at = self.browse.selected as int;
        if at < self.shown_rows().len() && self.shown_rows()[at].is_header {
            self.selecting(first_row(self.shown_rows(), 0))
        } else {
            self
        }
    }
}

proof fn lemma_next_row(list: Seq<Row>, i: int, dir: int)
    requires
        dir != 0,
    ensures
        next_row(list, i, dir) matches Some(j) ==> selectable(list, j) && (if dir > 0 {
            j > i
        } else {
            j < i
        }),
    decreases
            if dir > 0 {
                list.len() - i
            } else {
                i + 1
            },
{
    let j = i + dir;
    if 0 <= j < list.len() && list[j].is_header {
        lemma_next_row(list, j, dir);
    }
}

/// A moved selection stands on a row that can be selected, in the direction it
/// was moved.
pub proof fn law_a_moved_selection_is_selectable(list: Seq<Row>, i: int, dir: int)
    requires
        dir != 0,
    ensures
        next_row(list, i, dir) matches Some(j) ==> selectable(list, j) && (if dir > 0 {
            j > i
        } else {
            j < i
        }),
{
    lemma_next_row(list, i, dir);
}

proof fn lemma_first_row(list: Seq<Row>, from: int, k: int)
    requires
        0 <= from <= k,
        selectable(list, k),
    ensures
        selectable(list, first_row(list, from)),
        from <= first_row(list, from) <= k,
    decreases list.len() - from,
{
    if list[from].is_header {
        lemma_first_row(list, from + 1, k);
    }
}

/// Where there is a row that can be selected at all, a fresh selection lands on
/// the first one.
pub proof fn law_a_fresh_selection_is_selectable(list: Seq<Row>, k: int)
    requires
        selectable(list, k),
    ensures
        selectable(list, first_row(list, 0)),
        first_row(list, 0) <= k,
{
    lemma_first_row(list, 0, k);
}

/// Stepping down and up again returns to where it began, in steps of one row.
pub proof fn law_stepping_back_returns(list: Seq<Row>, i: int)
    requires
        selectable(list, i),
        next_row(list, i, 1) is Some,
    ensures
        next_row(list, next_row(list, i, 1)->0, -1) == Some(i),
{
    lemma_step_down(list, i, i);
}

/// Between a row and the next one below it there are only headers.
proof fn lemma_step_down(list: Seq<Row>, from: int, i: int)
    requires
        selectable(list, from),
        from <= i < list.len(),
        forall|k: int| from < k <= i ==> (#[trigger] list[k]).is_header,
        next_row(list, i, 1) is Some,
    ensures
        next_row(list, next_row(list, i, 1)->0, -1) == Some(from),
    decreases list.len() - i,
{
    let j = i + 1;
    if list[j].is_header {
        lemma_step_down(list, from, j);
    } else {
        lemma_step_up(list, from, j);
    }
}

proof fn lemma_step_up(list: Seq<Row>, to: int, i: int)
    requires
        selectable(list, to),
        to < i < list.len(),
        forall|k: int| to < k < i ==> (#[trigger] list[k]).is_header,
    ensures
        next_row(list, i, -1) == Some(to),
    decreases i,
{
    if i - 1 > to {
        assert(list[i - 1].is_header);
        lemma_step_up(list, to, i - 1);
    }
}

/// On screen is what was opened last, whatever lies below; else what was found,
/// while a search is on; else the section.
pub proof fn law_what_was_opened_last_is_shown(app: App)
    ensures
        app.browse.details@.len() > 0 ==> app.shown() == app.browse.details@[
            app.browse.details@.len() - 1
        ].items,
        app.browse.details@.len() == 0 && app.search.searching ==> app.shown()
            == app.search.search_results,
        app.browse.details@.len() == 0 && !app.search.searching ==> match app.browse.section {
            library::Section::Home => app.shown() == app.browse.library.home,
            library::Section::Recent => app.shown() == app.browse.library.recent,
            library::Section::Playlists => app.shown() == app.browse.library.playlists,
            library::Section::Liked => app.shown() == app.browse.library.liked,
            library::Section::Albums => app.shown() == app.browse.library.albums,
            library::Section::Artists => app.shown() == app.browse.library.artists,
        },
        app.shown_rows() == library::rows(app.shown()@),
{
}

/// A list that is changed on screen is changed there, and nothing else is: not
/// what plays, not where the selection stands, and no other list.
pub proof fn law_only_the_list_on_screen_changes(before: App, after: App, items: Vec<LibItem>)
    requires
        after.relisted(before, items),
    ensures
        after.shown() == items,
        after.playback == before.playback,
        after.transport == before.transport,
        after.view == before.view,
        after.session == before.session,
        after.status == before.status,
        after.engine_up == before.engine_up,
        after.art_repaint == before.art_repaint,
        after.browse.selected == before.browse.selected,
        after.browse.section == before.browse.section,
        after.browse.sort == before.browse.sort,
        after.browse.details@.len() == before.browse.details@.len(),
        after.search.searching == before.search.searching,
        after.search.query == before.search.query,
        before.browse.details@.len() > 0 || before.search.searching ==> after.browse.library
            == before.browse.library,
        before.browse.details@.len() > 0 || !before.search.searching
            ==> after.search.search_results == before.search.search_results,
        forall|s: library::Section|
            s != before.browse.section ==> #[trigger] after.browse.library.of(s)
                == before.browse.library.of(s),
        forall|i: int|
            0 <= i < before.browse.details@.len() - 1 ==> #[trigger] after.browse.details@[i]
                == before.browse.details@[i],
        before.browse.details@.len() > 0 ==> {
            let top = after.browse.details@.last();
            &&& top.context_uri == before.browse.details@.last().context_uri
            &&& top.title == before.browse.details@.last().title
            &&& top.parent_selected == before.browse.details@.last().parent_selected
        },
{
}

/// One step moves past labels and past nothing else: the row it comes to is the
/// nearest that can be selected, and it stays where there is none.
pub proof fn law_one_step_passes_only_labels(list: Seq<Row>, i: int, k: int)
    requires
        0 <= i < list.len(),
    ensures
        match next_row(list, i, 1) {
            Some(j) => i < j < list.len() && !list[j].is_header && (i < k < j ==> list[k].is_header),
            None => i < k < list.len() ==> list[k].is_header,
        },
        match next_row(list, i, -1) {
            Some(j) => 0 <= j < i && !list[j].is_header && (j < k < i ==> list[k].is_header),
            None => 0 <= k < i ==> list[k].is_header,
        },
{
    lemma_down_passes_labels(list, i, k);
    lemma_up_passes_labels(list, i, k);
}

proof fn lemma_down_passes_labels(list: Seq<Row>, i: int, k: int)
    requires
        0 <= i < list.len(),
    ensures
        match next_row(list, i, 1) {
            Some(j) => i < j < list.len() && !list[j].is_header && (i < k < j ==> list[k].is_header),
            None => i < k < list.len() ==> list[k].is_header,
        },
    decreases list.len() - i,
{
    if i + 1 < list.len() && list[i + 1].is_header {
        lemma_down_passes_labels(list, i + 1, k);
    }
}

proof fn lemma_up_passes_labels(list: Seq<Row>, i: int, k: int)
    requires
        0 <= i < list.len(),
    ensures
        match next_row(list, i, -1) {
            Some(j) => 0 <= j < i && !list[j].is_header && (j < k < i ==> list[k].is_header),
            None => 0 <= k < i ==> list[k].is_header,
        },
    decreases i,
{
    if i - 1 >= 0 && list[i - 1].is_header {
        lemma_up_passes_labels(list, i - 1, k);
    }
}

/// A longer step goes to the row at that distance, or on by as much again where
/// that is a label, and nowhere past the ends.
pub proof fn law_a_step_goes_its_distance(list: Seq<Row>, i: int, dir: int)
    requires
        dir != 0,
    ensures
        selectable(list, i + dir) ==> next_row(list, i, dir) == Some(i + dir),
        i + dir < 0 || i + dir >= list.len() ==> next_row(list, i, dir) is None,
        0 <= i + dir < list.len() && list[i + dir].is_header ==> next_row(list, i, dir)
            == next_row(list, i + dir, dir),
{
}

/// Moving the selection, or taking it off a label, moves the selection only: on
/// to the row that was come to, or to the first that can be selected.
pub proof fn law_moving_the_selection_moves_nothing_else(app: App, dir: int)
    ensures
        ({
            let after = app.moved(dir);
            let at = next_row(app.shown_rows(), app.browse.selected as int, dir);
            &&& after == (App {
                browse: BrowseState { selected: after.browse.selected, ..app.browse },
                ..app
            })
            &&& dir != 0 && at is Some ==> after.browse.selected == at->0 as usize
            &&& dir == 0 || at is None ==> after.browse.selected == app.browse.selected
        }),
        ({
            let after = app.normalized();
            let at = app.browse.selected as int;
            let list = app.shown_rows();
            &&& after == (App {
                browse: BrowseState { selected: after.browse.selected, ..app.browse },
                ..app
            })
            &&& selectable(list, at) || at >= list.len() ==> after.browse.selected == at
            &&& at < list.len() && list[at].is_header ==> after.browse.selected == first_row(
                list,
                0,
            ) as usize
        }),
{
}

/// Where every row is a label, a fresh selection stays at the top.
pub proof fn law_a_list_of_labels_selects_the_top(list: Seq<Row>)
    requires
        forall|i: int| 0 <= i < list.len() ==> (#[trigger] list[i]).is_header,
    ensures
        first_row(list, 0) == 0,
{
    lemma_only_labels(list, 0);
}

proof fn lemma_only_labels(list: Seq<Row>, from: int)
    requires
        0 <= from,
        forall|i: int| 0 <= i < list.len() ==> (#[trigger] list[i]).is_header,
    ensures
        first_row(list, from) == 0,
    decreases list.len() - from,
{
    if from < list.len() {
        assert(list[from].is_header);
        lemma_only_labels(list, from + 1);
    }
}

} // verus!
