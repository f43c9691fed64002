//! The library: its sections, its rows, and how they are sorted.

use crate::order;
use crate::text;
use vstd::prelude::*;

verus! {

// ------------------------------------------------------------------- cycling

/// The index `delta` steps on from `index` in a ring of `n`.
fn cycle(index: usize, delta: isize, n: usize) -> (out: usize)
    requires
        index < n,
        n <= 16,
    ensures
        out == (index + delta) % n as int,
        out < n,
{
    let sum: i128 = index as i128 + delta as i128;
    if sum >= 0 {
        (sum as u128 % n as u128) as usize
    } else {
        let back: u128 = (-(sum + 1)) as u128;
        let left = (n as u128 - 1) - back % n as u128;
        proof {
            let b = back as int;
            let m = n as int;
            let q = b / m;
            vstd::arithmetic::div_mod::lemma_fundamental_div_mod(b, m);
            assert(-b - 1 == (-q - 1) * m + (m - 1 - b % m)) by (nonlinear_arith)
                requires
                    b == m * q + b % m,
            ;
            vstd::arithmetic::div_mod::lemma_fundamental_div_mod_converse(
                -b - 1,
                m,
                -q - 1,
                m - 1 - b % m,
            );
        }
        left as usize
    }
}

/// What fills the right pane.
#[derive(Clone, Copy, PartialEq, Eq, Structural, Debug)]
pub enum RightView {
    NowPlaying,
    Lyrics,
    Queue,
}

impl RightView {
    /// The views, in the order of the tabs.
    pub open spec fn at(i: int) -> RightView {
        if i == 0 {
            RightView::NowPlaying
        } else if i == 1 {
            RightView::Lyrics
        } else {
            RightView::Queue
        }
    }

    /// Where the view stands among the tabs.
    pub open spec fn place(self) -> int {
        match self {
            RightView::NowPlaying => 0,
            RightView::Lyrics => 1,
            RightView::Queue => 2,
        }
    }

    /// The name of the view.
    pub open spec fn name(self) -> Seq<char> {
        match self {
            RightView::NowPlaying => "Now Playing"@,
            RightView::Lyrics => "Lyrics"@,
            RightView::Queue => "Queue"@,
        }
    }

    /// The name of the view.
    pub fn label(self) -> (label: &'static str)
        ensures
            label@ == self.name(),
    {
        match self {
            RightView::NowPlaying => "Now Playing",
            RightView::Lyrics => "Lyrics",
            RightView::Queue => "Queue",
        }
    }

    /// The view `delta` tabs on, round and round.
    pub fn shift(self, delta: isize) -> (view: RightView)
        requires
            self.place() + delta <= isize::MAX,
        ensures
            view == RightView::at((self.place() + delta) % 3),
    {
        let i: usize = match self {
            RightView::NowPlaying => 0,
            RightView::Lyrics => 1,
            RightView::Queue => 2,
        };
        let k = cycle(i, delta, 3);
        if k == 0 {
            RightView::NowPlaying
        } else if k == 1 {
            RightView::Lyrics
        } else {
            RightView::Queue
        }
    }
}

/// A section of the library.
#[derive(Clone, Copy, PartialEq, Eq, Structural, Debug)]
pub enum Section {
    Home,
    Recent,
    Playlists,
    Liked,
    Albums,
    Artists,
}

/// How many sections there are.
pub const SECTIONS: usize = 6;

impl Section {
    /// The sections, in the order they are leafed through.
    pub open spec fn at(i: int) -> Section {
        if i == 0 {
            Section::Home
        } else if i == 1 {
            Section::Liked
        } else if i == 2 {
            Section::Playlists
        } else if i == 3 {
            Section::Albums
        } else if i == 4 {
            Section::Artists
        } else {
            Section::Recent
        }
    }

    /// Where the section stands in that order.
    pub open spec fn place(self) -> int {
        match self {
            Section::Home => 0,
            Section::Liked => 1,
            Section::Playlists => 2,
            Section::Albums => 3,
            Section::Artists => 4,
            Section::Recent => 5,
        }
    }

    /// The name of the section.
    pub open spec fn name(self) -> Seq<char> {
        match self {
            Section::Home => "Home"@,
            Section::Recent => "Recent"@,
            Section::Playlists => "Playlists"@,
            Section::Liked => "Liked"@,
            Section::Albums => "Albums"@,
            Section::Artists => "Artists"@,
        }
    }

    /// The name of the section.
    pub fn label(self) -> (label: &'static str)
        ensures
            label@ == self.name(),
    {
        match self {
            Section::Home => "Home",
            Section::Recent => "Recent",
            Section::Playlists => "Playlists",
            Section::Liked => "Liked",
            Section::Albums => "Albums",
            Section::Artists => "Artists",
        }
    }

    /// Where the section stands among the sections.
    pub fn index(self) -> (i: usize)
        ensures
            i == self.place(),
            i < SECTIONS,
    {
        match self {
            Section::Home => 0,
            Section::Liked => 1,
            Section::Playlists => 2,
            Section::Albums => 3,
            Section::Artists => 4,
            Section::Recent => 5,
        }
    }

    /// The section `delta` places on, round and round.
    pub fn shift(self, delta: isize) -> (section: Section)
        requires
            self.place() + delta <= isize::MAX,
        ensures
            section == Section::at((self.place() + delta) % 6),
    {
        let k = cycle(self.index(), delta, SECTIONS);
        if k == 0 {
            Section::Home
        } else if k == 1 {
            Section::Liked
        } else if k == 2 {
            Section::Playlists
        } else if k == 3 {
            Section::Albums
        } else if k == 4 {
            Section::Artists
        } else {
            Section::Recent
        }
    }
}

/// Leafing on and back again returns to the section it began with, and so does
/// leafing through all of them.
pub proof fn law_leafing_back_returns(section: Section, delta: int)
    ensures
        ({
            let there = Section::at((section.place() + delta) % 6);
            Section::at((there.place() - delta) % 6) == section
        }),
        Section::at((section.place() + 6) % 6) == section,
{
    let p = section.place();
    let q = (p + delta) % 6;
    assert((q - delta) % 6 == p % 6) by (nonlinear_arith)
        requires
            q == (p + delta) % 6,
    ;
}

// ----------------------------------------------------------------------- rows

/// A library entry. Behavior on Enter is driven by the flags: header =
/// non-selectable label; track = play as a track list; play = play this URI as
/// a context; otherwise = open (drill into) this context.
#[derive(Debug)]
pub struct LibItem {
    pub name: String,
    pub subtitle: String,
    pub uri: String,
    pub is_track: bool,
    pub is_header: bool,
    pub is_play: bool,
    /// Original fetch position (for the "Added" sort).
    pub order: u32,
}

/// The model of a library entry.
pub ghost struct Row {
    pub name: Seq<char>,
    pub subtitle: Seq<char>,
    pub uri: Seq<char>,
    pub is_track: bool,
    pub is_header: bool,
    pub is_play: bool,
    pub order: u32,
}

impl View for LibItem {
    type V = Row;

    open spec fn view(&self) -> Row {
        Row {
            name: self.name@,
            subtitle: self.subtitle@,
            uri: self.uri@,
            is_track: self.is_track,
            is_header: self.is_header,
            is_play: self.is_play,
            order: self.order,
        }
    }
}

/// The models of a run of entries.
pub open spec fn rows(items: Seq<LibItem>) -> Seq<Row> {
    items.map_values(|i: LibItem| i@)
}

impl Clone for LibItem {
    fn clone(&self) -> (copy: LibItem)
        ensures
            copy == *self,
    {
        LibItem {
            name: self.name.clone(),
            subtitle: self.subtitle.clone(),
            uri: self.uri.clone(),
            is_track: self.is_track,
            is_header: self.is_header,
            is_play: self.is_play,
            order: self.order,
        }
    }
}

/// A track row.
pub open spec fn track_row(name: Seq<char>, subtitle: Seq<char>, uri: Seq<char>) -> Row {
    Row { name, subtitle, uri, is_track: true, is_header: false, is_play: false, order: 0 }
}

/// A row for something to be opened: a playlist, an album, an artist.
pub open spec fn ctx_row(name: Seq<char>, subtitle: Seq<char>, uri: Seq<char>) -> Row {
    Row { name, subtitle, uri, is_track: false, is_header: false, is_play: false, order: 0 }
}

/// A row that plays a context.
pub open spec fn play_row(name: Seq<char>, uri: Seq<char>) -> Row {
    Row {
        name,
        subtitle: Seq::empty(),
        uri,
        is_track: false,
        is_header: false,
        is_play: true,
        order: 0,
    }
}

/// A label above other rows.
pub open spec fn header_row(name: Seq<char>) -> Row {
    Row {
        name,
        subtitle: Seq::empty(),
        uri: Seq::empty(),
        is_track: false,
        is_header: true,
        is_play: false,
        order: 0,
    }
}

impl LibItem {
    /// A track row.
    pub fn track(name: String, subtitle: String, uri: String) -> (item: LibItem)
        ensures
            item@ == track_row(name@, subtitle@, uri@),
    {
        LibItem {
            name,
            subtitle,
            uri,
            is_track: true,
            is_header: false,
            is_play: false,
            order: 0,
        }
    }

    /// A row for something to be opened.
    pub fn ctx(name: String, subtitle: String, uri: String) -> (item: LibItem)
        ensures
            item@ == ctx_row(name@, subtitle@, uri@),
    {
        LibItem {
            name,
            subtitle,
            uri,
            is_track: false,
            is_header: false,
            is_play: false,
            order: 0,
        }
    }

    /// A row that plays a context.
    pub fn play(name: String, uri: String) -> (item: LibItem)
        ensures
            item@ == play_row(name@, uri@),
    {
        let item = LibItem {
            name,
            subtitle: String::new(),
            uri,
            is_track: false,
            is_header: false,
            is_play: true,
            order: 0,
        };
        assert(item@.subtitle =~= Seq::<char>::empty());
        item
    }

    /// A label above other rows.
    pub fn header(name: &str) -> (item: LibItem)
        ensures
            item@ == header_row(name@),
    {
        let item = LibItem {
            name: name.to_owned(),
            subtitle: String::new(),
            uri: String::new(),
            is_track: false,
            is_header: true,
            is_play: false,
            order: 0,
        };
        assert(item@.subtitle =~= Seq::<char>::empty());
        item
    }
}

/// A vector of the same entries.
pub fn copy_items(items: &Vec<LibItem>) -> (out: Vec<LibItem>)
    ensures
        out@ == items@,
{
    let mut out: Vec<LibItem> = Vec::new();
    let mut i: usize = 0;
    while i < items.len()
        invariant
            i <= items@.len(),
            out@ == items@.take(i as int),
        decreases items@.len() - i,
    {
        out.push(items[i].clone());
        i += 1;
    }
    out
}

// -------------------------------------------------------------------- sorting

/// Sort order for browsable lists.
#[derive(Clone, Copy, PartialEq, Eq, Structural, Debug)]
pub enum SortMode {
    Added,
    Title,
    Artist,
}

impl SortMode {
    /// The name of the order.
    pub open spec fn name(self) -> Seq<char> {
        match self {
            SortMode::Added => "added"@,
            SortMode::Title => "title"@,
            SortMode::Artist => "artist"@,
        }
    }

    /// The name of the order.
    pub fn label(self) -> (label: &'static str)
        ensures
            label@ == self.name(),
    {
        match self {
            SortMode::Added => "added",
            SortMode::Title => "title",
            SortMode::Artist => "artist",
        }
    }

    /// The order that follows this one.
    pub open spec fn after(self) -> SortMode {
        match self {
            SortMode::Added => SortMode::Title,
            SortMode::Title => SortMode::Artist,
            SortMode::Artist => SortMode::Added,
        }
    }

    /// The order that follows this one.
    pub fn next(self) -> (mode: SortMode)
        ensures
            mode == self.after(),
    {
        match self {
            SortMode::Added => SortMode::Title,
            SortMode::Title => SortMode::Artist,
            SortMode::Artist => SortMode::Added,
        }
    }
}

/// Every order comes round again after three.
pub proof fn law_three_orders_come_round(mode: SortMode)
    ensures
        mode.after().after().after() == mode,
        mode.after() != mode,
        mode.after().after() != mode,
{
}

/// Whether `a` stands before `b`, or is the same: character by character.
pub open spec fn text_le(a: Seq<char>, b: Seq<char>) -> bool
    decreases a.len(),
{
    if a.len() == 0 {
        true
    } else if b.len() == 0 {
        false
    } else if a[0] == b[0] {
        text_le(a.skip(1), b.skip(1))
    } else {
        a[0] < b[0]
    }
}

proof fn lemma_text_le_total(a: Seq<char>, b: Seq<char>)
    ensures
        text_le(a, b) || text_le(b, a),
    decreases a.len(),
{
    if a.len() > 0 && b.len() > 0 && a[0] == b[0] {
        lemma_text_le_total(a.skip(1), b.skip(1));
    }
}

proof fn lemma_text_le_transitive(a: Seq<char>, b: Seq<char>, c: Seq<char>)
    requires
        text_le(a, b),
        text_le(b, c),
    ensures
        text_le(a, c),
    decreases a.len(),
{
    if a.len() > 0 && b.len() > 0 && c.len() > 0 && a[0] == b[0] && b[0] == c[0] {
        lemma_text_le_transitive(a.skip(1), b.skip(1), c.skip(1));
    }
}

/// What a text becomes in lower case.
pub uninterp spec fn lowercased(s: Seq<char>) -> Seq<char>;

/// `str::to_lowercase`: the text in lower case, by the Unicode tables that the
/// standard library carries. The result depends on the text alone.
#[verifier::external_body]
fn lowercase(s: &str) -> (out: String)
    ensures
        out@ == lowercased(s@),
{
    s.to_lowercase()
}

/// Whether row `a` may stand before row `b`.
pub open spec fn may_precede(mode: SortMode) -> spec_fn(Row, Row) -> bool {
    match mode {
        SortMode::Added => |a: Row, b: Row| a.order <= b.order,
        SortMode::Title => |a: Row, b: Row| text_le(lowercased(a.name), lowercased(b.name)),
        SortMode::Artist => |a: Row, b: Row|
            text_le(lowercased(a.subtitle), lowercased(b.subtitle)),
    }
}

proof fn lemma_may_precede_is_order(mode: SortMode)
    ensures
        order::is_order(may_precede(mode)),
{
    let le = may_precede(mode);
    assert forall|a: Row, b: Row| #![trigger le(a, b)] le(a, b) || le(b, a) by {
        lemma_text_le_total(lowercased(a.name), lowercased(b.name));
        lemma_text_le_total(lowercased(a.subtitle), lowercased(b.subtitle));
    }
    assert forall|a: Row, b: Row, c: Row| #![trigger le(a, b), le(b, c)] le(a, b) && le(
        b,
        c,
    ) implies le(a, c) by {
        if mode is Title {
            lemma_text_le_transitive(lowercased(a.name), lowercased(b.name), lowercased(c.name));
        }
        if mode is Artist {
            lemma_text_le_transitive(
                lowercased(a.subtitle),
                lowercased(b.subtitle),
                lowercased(c.subtitle),
            );
        }
    }
}

/// How many header and play rows lead the list.
pub open spec fn pinned(list: Seq<Row>) -> int
    decreases list.len(),
{
    if list.len() > 0 && (list[0].is_header || list[0].is_play) {
        1 + pinned(list.skip(1))
    } else {
        0
    }
}

/// The list in the order of `mode`, with its leading header and play rows
/// pinned at the top.
pub open spec fn sorted_rows(list: Seq<Row>, mode: SortMode) -> Seq<Row> {
    let pin = pinned(list);
    list.take(pin) + order::stable_sorted(list.skip(pin), may_precede(mode))
}

/// Whether `a` stands before `b`, or is the same.
fn text_not_after(a: &[char], b: &[char]) -> (yes: bool)
    ensures
        yes == text_le(a@, b@),
{
    let mut i: usize = 0;
    assert(a@.skip(0) =~= a@);
    assert(b@.skip(0) =~= b@);
    while i < a.len() && i < b.len() && a[i] == b[i]
        invariant
            i <= a@.len(),
            i <= b@.len(),
            text_le(a@, b@) == text_le(a@.skip(i as int), b@.skip(i as int)),
        decreases a@.len() - i,
    {
        assert(a@.skip(i as int).skip(1) =~= a@.skip(i + 1));
        assert(b@.skip(i as int).skip(1) =~= b@.skip(i + 1));
        i += 1;
    }
    if i == a.len() {
        true
    } else if i == b.len() {
        false
    } else {
        a[i] < b[i]
    }
}

/// The text by which a row is sorted; nothing when it is sorted by number.
spec fn key_of(row: Row, mode: SortMode) -> Seq<char> {
    match mode {
        SortMode::Added => Seq::empty(),
        SortMode::Title => lowercased(row.name),
        SortMode::Artist => lowercased(row.subtitle),
    }
}

fn sort_key(item: &LibItem, mode: SortMode) -> (key: Vec<char>)
    ensures
        key@ == key_of(item@, mode),
{
    match mode {
        SortMode::Added => Vec::new(),
        SortMode::Title => {
            let low = lowercase(item.name.as_str());
            text::chars_of(low.as_str())
        },
        SortMode::Artist => {
            let low = lowercase(item.subtitle.as_str());
            text::chars_of(low.as_str())
        },
    }
}

spec fn keyed_rows(list: Seq<(LibItem, Vec<char>)>) -> Seq<Row> {
    list.map_values(|p: (LibItem, Vec<char>)| p.0@)
}

/// Whether the row of `a` may stand before the row of `b`.
fn key_not_after(a: &(LibItem, Vec<char>), b: &(LibItem, Vec<char>), mode: SortMode) -> (yes: bool)
    requires
        a.1@ == key_of(a.0@, mode),
        b.1@ == key_of(b.0@, mode),
    ensures
        yes == may_precede(mode)(a.0@, b.0@),
{
    match mode {
        SortMode::Added => a.0.order <= b.0.order,
        _ => text_not_after(a.1.as_slice(), b.1.as_slice()),
    }
}

/// How many header and play rows lead the list.
fn count_pinned(items: &Vec<LibItem>) -> (pin: usize)
    ensures
        pin == pinned(rows(items@)),
        pin <= items@.len(),
{
    let mut i: usize = 0;
    assert(rows(items@).skip(0) =~= rows(items@));
    while i < items.len() && (items[i].is_header || items[i].is_play)
        invariant
            i <= items@.len(),
            pinned(rows(items@)) == i + pinned(rows(items@).skip(i as int)),
        decreases items@.len() - i,
    {
        assert(rows(items@).skip(i as int)[0] == items@[i as int]@);
        assert(rows(items@).skip(i as int).skip(1) =~= rows(items@).skip(i + 1));
        i += 1;
    }
    assert(i < items@.len() ==> rows(items@).skip(i as int)[0] == items@[i as int]@);
    i
}

/// Sort a list in place, keeping leading header/play rows pinned at the top.
pub fn sort_list(items: &mut Vec<LibItem>, mode: SortMode)
    ensures
        rows(final(items)@) == sorted_rows(rows(old(items)@), mode),
{
    let pin = count_pinned(items);
    let ghost all = items@;
    let ghost tail = rows(all).skip(pin as int);
    let n = items.len();
    let mut sorted: Vec<(LibItem, Vec<char>)> = Vec::new();
    let mut i: usize = pin;
    assert(keyed_rows(sorted@) =~= tail.take(0));
    assert(tail.take(0) =~= Seq::<Row>::empty());
    while i < n
        invariant
            pin <= i <= n,
            n == all.len(),
            items@ == all,
            tail == rows(all).skip(pin as int),
            keyed_rows(sorted@) == order::stable_sorted(tail.take(i - pin), may_precede(mode)),
            forall|j: int|
                0 <= j < sorted@.len() ==> (#[trigger] sorted@[j]).1@ == key_of(
                    sorted@[j].0@,
                    mode,
                ),
        decreases n - i,
    {
        let item = items[i].clone();
        let key = sort_key(&item, mode);
        let entry = (item, key);
        let mut k: usize = sorted.len();
        while k > 0 && !key_not_after(&sorted[k - 1], &entry, mode)
            invariant
                k <= sorted@.len(),
                entry.1@ == key_of(entry.0@, mode),
                forall|j: int|
                    0 <= j < sorted@.len() ==> (#[trigger] sorted@[j]).1@ == key_of(
                        sorted@[j].0@,
                        mode,
                    ),
                forall|j: int|
                    k <= j < sorted@.len() ==> !may_precede(mode)(
                        #[trigger] keyed_rows(sorted@)[j],
                        entry.0@,
                    ),
            ensures
                k > 0 ==> may_precede(mode)(keyed_rows(sorted@)[k - 1], entry.0@),
            decreases k,
        {
            assert(keyed_rows(sorted@)[k - 1] == sorted@[k - 1].0@);
            k -= 1;
        }
        proof {
            let before = keyed_rows(sorted@);
            order::lemma_placed_at(before, entry.0@, may_precede(mode), k as int);
            assert(tail.take(i - pin + 1).drop_last() =~= tail.take(i - pin));
            assert(tail.take(i - pin + 1).last() == all[i as int]@);
            assert(keyed_rows(sorted@.insert(k as int, entry)) =~= before.insert(
                k as int,
                entry.0@,
            ));
        }
        sorted.insert(k, entry);
        i += 1;
    }
    proof {
        order::law_sorting_keeps_every_element(tail, may_precede(mode));
        assert(tail.take(n - pin) =~= tail);
    }
    let ghost want = keyed_rows(sorted@);
    let mut j: usize = 0;
    while j < sorted.len()
        invariant
            j <= sorted@.len(),
            keyed_rows(sorted@) == want,
            want.len() == n - pin,
            items@.len() == n,
            pin <= n,
            n == all.len(),
            forall|x: int| 0 <= x < pin ==> rows(items@)[x] == #[trigger] rows(all)[x],
            forall|x: int| 0 <= x < j ==> rows(items@)[pin + x] == #[trigger] want[x],
        decreases sorted@.len() - j,
    {
        let item = sorted[j].0.clone();
        assert(want[j as int] == item@);
        items.set(pin + j, item);
        j += 1;
    }
    assert(rows(items@) =~= sorted_rows(rows(all), mode));
}

// ----------------------------------------------------------------------- laws

pub proof fn lemma_pinned_bounds(list: Seq<Row>)
    ensures
        0 <= pinned(list) <= list.len(),
    decreases list.len(),
{
    if list.len() > 0 && (list[0].is_header || list[0].is_play) {
        lemma_pinned_bounds(list.skip(1));
    }
}

/// Sorting leaves the leading header and play rows where they are, puts the
/// rest in order, and neither adds nor drops a row.
pub proof fn law_sorting_a_list(list: Seq<Row>, mode: SortMode)
    ensures
        ({
            let pin = pinned(list);
            let after = sorted_rows(list, mode);
            &&& after.len() == list.len()
            &&& after.take(pin) == list.take(pin)
            &&& order::in_order(after.skip(pin), may_precede(mode))
            &&& after.skip(pin).to_multiset() == list.skip(pin).to_multiset()
        }),
{
    let pin = pinned(list);
    lemma_pinned_bounds(list);
    let tail = list.skip(pin);
    lemma_may_precede_is_order(mode);
    order::law_sorting_puts_in_order(tail, may_precede(mode));
    order::law_sorting_keeps_every_element(tail, may_precede(mode));
    let after = sorted_rows(list, mode);
    assert(after.take(pin) =~= list.take(pin));
    assert(after.skip(pin) =~= order::stable_sorted(tail, may_precede(mode)));
}

proof fn lemma_contains_from_multiset(a: Seq<Row>, b: Seq<Row>, i: int)
    requires
        a.to_multiset() == b.to_multiset(),
        0 <= i < a.len(),
    ensures
        b.contains(a[i]),
{
    broadcast use vstd::seq_lib::group_to_multiset_ensures;

    assert(a.contains(a[i]));
    assert(a.to_multiset().count(a[i]) > 0);
}

/// The rows stand in the order they were fetched, and no place in it is given
/// twice.
pub open spec fn in_fetch_order(list: Seq<Row>) -> bool {
    forall|i: int, j: int|
        0 <= i < j < list.len() ==> (#[trigger] list[i]).order < (#[trigger] list[j]).order
}

/// Two lists of the same rows, both in fetch order, are the same list.
proof fn lemma_fetch_order_unique(a: Seq<Row>, b: Seq<Row>, i: int)
    requires
        a.to_multiset() == b.to_multiset(),
        a.len() == b.len(),
        order::in_order(a, may_precede(SortMode::Added)),
        in_fetch_order(b),
        0 <= i <= a.len(),
    ensures
        a.take(i) == b.take(i),
    decreases i,
{
    broadcast use vstd::seq_lib::group_to_multiset_ensures;

    if i > 0 {
        lemma_fetch_order_unique(a, b, i - 1);
        let x = i - 1;
        lemma_contains_from_multiset(a, b, x);
        let k = choose|k: int| 0 <= k < b.len() && b[k] == a[x];
        lemma_contains_from_multiset(b, a, x);
        let y = choose|y: int| 0 <= y < a.len() && a[y] == b[x];
        if k < x {
            // `b[k]` stands at `k` in `a` already; then it would occur twice.
            assert(a.take(x)[k] == b.take(x)[k]);
            assert(a[k] == b[k]);
            lemma_once(a, b, k, x);
        } else if k > x {
            if y < x {
                assert(a.take(x)[y] == b.take(x)[y]);
                assert(b[y].order < b[x].order);
            } else if y > x {
                assert(may_precede(SortMode::Added)(a[x], a[y]));
            }
        }
        assert(a[x] == b[x]);
        assert(a.take(i) =~= a.take(x).push(a[x]));
        assert(b.take(i) =~= b.take(x).push(b[x]));
    }
}

/// Where no row of `b` stands twice, no row of `a` does.
proof fn lemma_once(a: Seq<Row>, b: Seq<Row>, i: int, j: int)
    requires
        a.to_multiset() == b.to_multiset(),
        0 <= i <= j < a.len(),
        a[i] == a[j],
        in_fetch_order(b),
    ensures
        i == j,
{
    broadcast use vstd::seq_lib::group_to_multiset_ensures;

    if i < j {
        let r = a[i];
        let rest = a.remove(j);
        assert(rest.to_multiset() =~= a.to_multiset().remove(r));
        assert(rest[i] == r);
        assert(rest.contains(r));
        assert(rest.to_multiset().count(r) > 0);
        assert(a.to_multiset().count(r) >= 2);
        assert(b.contains(r));
        let k = choose|k: int| 0 <= k < b.len() && b[k] == r;
        let left = b.remove(k);
        assert(left.to_multiset() =~= b.to_multiset().remove(r));
        assert(left.to_multiset().count(r) > 0);
        assert(left.contains(r));
        let m = choose|m: int| 0 <= m < left.len() && left[m] == r;
        let at = if m < k {
            m
        } else {
            m + 1
        };
        assert(b[at] == r);
    }
}

/// Sorting by the order of fetching undoes any other sort, in a list whose rows
/// below the pinned ones are neither headers nor play rows, and stand in the
/// order they were fetched.
pub proof fn law_sorting_by_added_restores_a_list(list: Seq<Row>, mode: SortMode)
    requires
        forall|i: int|
            pinned(list) <= i < list.len() ==> !(#[trigger] list[i]).is_header && !list[i].is_play,
        in_fetch_order(list.skip(pinned(list))),
    ensures
        sorted_rows(sorted_rows(list, mode), SortMode::Added) == list,
{
    let pin = pinned(list);
    lemma_pinned_bounds(list);
    let tail = list.skip(pin);
    let once = sorted_rows(list, mode);
    law_sorting_a_list(list, mode);
    let mid = once.skip(pin);
    assert(once =~= list.take(pin) + mid);
    lemma_same_pins(list, once, pin, tail, mid);
    law_sorting_a_list(once, SortMode::Added);
    let again = sorted_rows(once, SortMode::Added);
    let end = again.skip(pin);
    assert(again =~= list.take(pin) + end);
    assert(end.len() == tail.len());
    lemma_fetch_order_unique(end, tail, tail.len() as int);
    assert(end.take(tail.len() as int) =~= end);
    assert(tail.take(tail.len() as int) =~= tail);
    assert(list =~= list.take(pin) + tail);
}

/// Shuffling plain rows below the pins pins no more of them.
proof fn lemma_same_pins(list: Seq<Row>, once: Seq<Row>, pin: int, tail: Seq<Row>, mid: Seq<Row>)
    requires
        pin == pinned(list),
        0 <= pin <= list.len(),
        tail == list.skip(pin),
        once == list.take(pin) + mid,
        mid.to_multiset() == tail.to_multiset(),
        mid.len() == tail.len(),
        forall|i: int|
            pin <= i < list.len() ==> !(#[trigger] list[i]).is_header && !list[i].is_play,
    ensures
        pinned(once) == pin,
    decreases pin,
{
    if pin > 0 {
        let rest = list.skip(1);
        assert(once.skip(1) =~= rest.take(pin - 1) + mid);
        assert(rest.skip(pin - 1) =~= tail);
        assert forall|i: int| pin - 1 <= i < rest.len() implies !(#[trigger] rest[i]).is_header
            && !rest[i].is_play by {
            assert(rest[i] == list[i + 1]);
        }
        lemma_same_pins(rest, once.skip(1), pin - 1, tail, mid);
        assert(once[0] == list[0]);
    } else {
        assert(once =~= mid);
        if mid.len() > 0 {
            lemma_contains_from_multiset(mid, tail, 0);
            let k = choose|k: int| 0 <= k < tail.len() && tail[k] == mid[0];
            assert(tail[k] == list[k]);
        }
    }
}

// --------------------------------------------------------------- the sections

/// What has been loaded of each section.
pub struct Library {
    pub home: Vec<LibItem>,
    pub recent: Vec<LibItem>,
    pub playlists: Vec<LibItem>,
    pub liked: Vec<LibItem>,
    pub albums: Vec<LibItem>,
    pub artists: Vec<LibItem>,
}

impl Library {
    /// The rows of a section.
    pub open spec fn of(self, s: Section) -> Vec<LibItem> {
        match s {
            Section::Home => self.home,
            Section::Recent => self.recent,
            Section::Playlists => self.playlists,
            Section::Liked => self.liked,
            Section::Albums => self.albums,
            Section::Artists => self.artists,
        }
    }

    /// The library with other rows in a section.
    pub open spec fn with(self, s: Section, items: Vec<LibItem>) -> Library {
        match s {
            Section::Home => Library { home: items, ..self },
            Section::Recent => Library { recent: items, ..self },
            Section::Playlists => Library { playlists: items, ..self },
            Section::Liked => Library { liked: items, ..self },
            Section::Albums => Library { albums: items, ..self },
            Section::Artists => Library { artists: items, ..self },
        }
    }

    /// The rows of a section.
    pub fn items(&self, s: Section) -> (items: &Vec<LibItem>)
        ensures
            *items == self.of(s),
    {
        match s {
            Section::Home => &self.home,
            Section::Recent => &self.recent,
            Section::Playlists => &self.playlists,
            Section::Liked => &self.liked,
            Section::Albums => &self.albums,
            Section::Artists => &self.artists,
        }
    }

    /// The rows of a section, to be changed in place.
    pub fn items_mut(&mut self, s: Section) -> (items: &mut Vec<LibItem>)
        ensures
            *items == old(self).of(s),
            *final(self) == old(self).with(s, *final(items)),
    {
        match s {
            Section::Home => &mut self.home,
            Section::Recent => &mut self.recent,
            Section::Playlists => &mut self.playlists,
            Section::Liked => &mut self.liked,
            Section::Albums => &mut self.albums,
            Section::Artists => &mut self.artists,
        }
    }

    /// Put other rows in a section.
    pub fn set(&mut self, s: Section, items: Vec<LibItem>)
        ensures
            *final(self) == old(self).with(s, items),
    {
        match s {
            Section::Home => self.home = items,
            Section::Recent => self.recent = items,
            Section::Playlists => self.playlists = items,
            Section::Liked => self.liked = items,
            Section::Albums => self.albums = items,
            Section::Artists => self.artists = items,
        }
    }
}

impl Default for Library {
    /// Nothing loaded.
    fn default() -> (library: Library)
        ensures
            forall|s: Section| (#[trigger] library.of(s))@ == Seq::<LibItem>::empty(),
    {
        Library {
            home: Vec::new(),
            recent: Vec::new(),
            playlists: Vec::new(),
            liked: Vec::new(),
            albums: Vec::new(),
            artists: Vec::new(),
        }
    }
}

/// Setting one section is seen in that section, and leaves every other alone.
pub proof fn law_setting_one_section(
    library: Library,
    s: Section,
    items: Vec<LibItem>,
    other: Section,
)
    ensures
        library.with(s, items).of(s) == items,
        other != s ==> library.with(s, items).of(other) == library.of(other),
{
}

/// What is modelled of an entry is what it holds, and a run of entries is
/// modelled entry by entry.
pub proof fn law_an_entry_is_modelled_whole(items: Seq<LibItem>, i: int)
    requires
        0 <= i < items.len(),
    ensures
        rows(items).len() == items.len(),
        ({
            let row = rows(items)[i];
            &&& row == items[i]@
            &&& row.name == items[i].name@
            &&& row.subtitle == items[i].subtitle@
            &&& row.uri == items[i].uri@
            &&& row.is_track == items[i].is_track
            &&& row.is_header == items[i].is_header
            &&& row.is_play == items[i].is_play
            &&& row.order == items[i].order
        }),
{
}

/// A row carries what it is made of, and is exactly one of a track, something to
/// be opened, a play row and a label.
pub proof fn law_a_row_is_of_one_kind(name: Seq<char>, subtitle: Seq<char>, uri: Seq<char>)
    ensures
        ({
            let t = track_row(name, subtitle, uri);
            &&& t.name == name && t.subtitle == subtitle && t.uri == uri
            &&& t.is_track && !t.is_header && !t.is_play
        }),
        ({
            let c = ctx_row(name, subtitle, uri);
            &&& c.name == name && c.subtitle == subtitle && c.uri == uri
            &&& !c.is_track && !c.is_header && !c.is_play
        }),
        ({
            let p = play_row(name, uri);
            &&& p.name == name && p.subtitle.len() == 0 && p.uri == uri
            &&& !p.is_track && !p.is_header && p.is_play
        }),
        ({
            let h = header_row(name);
            &&& h.name == name && h.subtitle.len() == 0 && h.uri.len() == 0
            &&& !h.is_track && h.is_header && !h.is_play
        }),
        track_row(name, subtitle, uri).order == 0,
        ctx_row(name, subtitle, uri).order == 0,
        play_row(name, uri).order == 0,
        header_row(name).order == 0,
{
}

/// Every section is shown under its own name, and they are leafed through from
/// home by way of the liked songs, the playlists, the albums and the artists to
/// what was heard last.
pub proof fn law_the_sections_in_their_order()
    ensures
        Section::at(0) is Home,
        Section::at(1) is Liked,
        Section::at(2) is Playlists,
        Section::at(3) is Albums,
        Section::at(4) is Artists,
        Section::at(5) is Recent,
        Section::Home.name() == "Home"@,
        Section::Liked.name() == "Liked"@,
        Section::Playlists.name() == "Playlists"@,
        Section::Albums.name() == "Albums"@,
        Section::Artists.name() == "Artists"@,
        Section::Recent.name() == "Recent"@,
        forall|i: int| 0 <= i < 6 ==> (#[trigger] Section::at(i)).place() == i,
{
}

/// Leafing through the views of the right pane and back returns to the view it
/// began with; they stand in the order what is playing, its lyrics, the queue.
pub proof fn law_the_views_in_their_order(view: RightView, delta: int)
    ensures
        ({
            let there = RightView::at((view.place() + delta) % 3);
            RightView::at((there.place() - delta) % 3) == view
        }),
        RightView::at(0) is NowPlaying,
        RightView::at(1) is Lyrics,
        RightView::at(2) is Queue,
        RightView::NowPlaying.name() == "Now Playing"@,
        RightView::Lyrics.name() == "Lyrics"@,
        RightView::Queue.name() == "Queue"@,
        RightView::at(view.place()) == view,
{
    let p = view.place();
    let q = (p + delta) % 3;
    assert((q - delta) % 3 == p % 3) by (nonlinear_arith)
        requires
            q == (p + delta) % 3,
    ;
}

/// Each section has its own rows.
pub proof fn law_each_section_has_its_own_rows(library: Library)
    ensures
        library.of(Section::Home) == library.home,
        library.of(Section::Recent) == library.recent,
        library.of(Section::Playlists) == library.playlists,
        library.of(Section::Liked) == library.liked,
        library.of(Section::Albums) == library.albums,
        library.of(Section::Artists) == library.artists,
{
}

/// Texts are ordered by the first character in which they differ, and a text
/// stands before any that goes on from it.
pub proof fn law_texts_are_ordered_by_their_first_difference(
    common: Seq<char>,
    x: char,
    a: Seq<char>,
    y: char,
    b: Seq<char>,
)
    requires
        x < y,
    ensures
        text_le(common + seq![x] + a, common + seq![y] + b),
        !text_le(common + seq![y] + b, common + seq![x] + a),
        text_le(common, common + seq![x] + a),
        !text_le(common + seq![x] + a, common),
        text_le(common, common),
    decreases common.len(),
{
    let l = common + seq![x] + a;
    let r = common + seq![y] + b;
    if common.len() > 0 {
        let rest = common.skip(1);
        law_texts_are_ordered_by_their_first_difference(rest, x, a, y, b);
        assert(l.skip(1) =~= rest + seq![x] + a);
        assert(r.skip(1) =~= rest + seq![y] + b);
        assert(l[0] == common[0] && r[0] == common[0]);
    } else {
        assert(l[0] == x && r[0] == y);
    }
}

/// The rows that lead a list as labels and play rows are pinned, up to the first
/// row that is neither.
pub proof fn law_the_leading_labels_are_pinned(lead: Seq<Row>, rest: Seq<Row>)
    requires
        forall|i: int| 0 <= i < lead.len() ==> (#[trigger] lead[i]).is_header || lead[i].is_play,
        rest.len() > 0 ==> !rest[0].is_header && !rest[0].is_play,
    ensures
        pinned(lead + rest) == lead.len(),
    decreases lead.len(),
{
    let list = lead + rest;
    if lead.len() > 0 {
        assert(list[0] == lead[0]);
        assert(list.skip(1) =~= lead.skip(1) + rest);
        assert forall|i: int| 0 <= i < lead.skip(1).len() implies (#[trigger] lead.skip(
            1,
        )[i]).is_header || lead.skip(1)[i].is_play by {
            assert(lead.skip(1)[i] == lead[i + 1]);
        }
        law_the_leading_labels_are_pinned(lead.skip(1), rest);
    } else {
        assert(list =~= rest);
    }
}

/// Below what is pinned, a sorted list reads in its order: by the place at which
/// a row was fetched, by its name or by its subtitle, the texts compared in lower
/// case.
pub proof fn law_a_sorted_list_reads_in_its_order(list: Seq<Row>, mode: SortMode, i: int, j: int)
    requires
        pinned(list) <= i < j < list.len(),
    ensures
        ({
            let above = sorted_rows(list, mode)[i];
            let below = sorted_rows(list, mode)[j];
            match mode {
                SortMode::Added => above.order <= below.order,
                SortMode::Title => text_le(lowercased(above.name), lowercased(below.name)),
                SortMode::Artist => text_le(
                    lowercased(above.subtitle),
                    lowercased(below.subtitle),
                ),
            }
        }),
        SortMode::Added.name() == "added"@,
        SortMode::Title.name() == "title"@,
        SortMode::Artist.name() == "artist"@,
        SortMode::Added.after() is Title,
        SortMode::Title.after() is Artist,
{
    lemma_pinned_bounds(list);
    law_sorting_a_list(list, mode);
    let pin = pinned(list);
    let tail = sorted_rows(list, mode).skip(pin);
    assert(tail[i - pin] == sorted_rows(list, mode)[i]);
    assert(tail[j - pin] == sorted_rows(list, mode)[j]);
}

} // verus!
