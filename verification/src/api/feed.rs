//! Fetching the library: fast sections first, the liked songs streamed in as
//! their pages arrive, so the UI is usable at once.

use crate::api::lists::group;
use crate::api::pages::Pages;
use crate::api::pages::PagesView;
use crate::api::rows::RowKind;
use crate::json;
use crate::json::Json;
use crate::library;
use crate::library::LibItem;
use crate::library::Row;
use crate::library::Section;
use crate::text;
use vstd::prelude::*;

verus! {

/// What is being fetched.
#[derive(Clone, Copy, PartialEq, Eq, Structural, Debug)]
pub enum Stage {
    HomeRecent,
    HomeTracks,
    HomeArtists,
    Recent,
    Playlists,
    Albums,
    Artists,
    Liked,
    Done,
}

impl Stage {
    /// What is fetched next.
    pub open spec fn following(self) -> Stage {
        match self {
            Stage::HomeRecent => Stage::HomeTracks,
            Stage::HomeTracks => Stage::HomeArtists,
            Stage::HomeArtists => Stage::Recent,
            Stage::Recent => Stage::Playlists,
            Stage::Playlists => Stage::Albums,
            Stage::Albums => Stage::Artists,
            Stage::Artists => Stage::Liked,
            _ => Stage::Done,
        }
    }

    /// Where the first page stands.
    pub open spec fn path(self) -> Seq<char> {
        match self {
            Stage::HomeRecent => "/me/player/recently-played?limit=10"@,
            Stage::HomeTracks => "/me/top/tracks?limit=10"@,
            Stage::HomeArtists => "/me/top/artists?limit=10"@,
            Stage::Recent => "/me/player/recently-played?limit=50"@,
            Stage::Playlists => "/me/playlists?limit=50"@,
            Stage::Albums => "/me/albums?limit=50"@,
            Stage::Artists => "/me/following?type=artist&limit=50"@,
            _ => "/me/tracks?limit=50"@,
        }
    }

    /// How many pages are read at most.
    pub open spec fn limit(self) -> int {
        match self {
            Stage::Playlists => 10,
            Stage::Albums => 10,
            Stage::Artists => 5,
            Stage::Liked => 100,
            _ => 1,
        }
    }

    /// What the documents stand for.
    pub open spec fn rows_kind(self) -> RowKind {
        match self {
            Stage::HomeTracks => RowKind::Track,
            Stage::HomeArtists => RowKind::Artist,
            Stage::Playlists => RowKind::Playlist,
            Stage::Albums => RowKind::SavedAlbum,
            Stage::Artists => RowKind::Artist,
            _ => RowKind::PlayedTrack,
        }
    }

    /// The rows that stand there before anything has been fetched: the row that
    /// plays all liked songs, and the label above them.
    pub open spec fn leading(self) -> Seq<Row> {
        if self is Liked {
            seq![
                library::play_row("▶︎  Play Liked Songs"@, "myx:action:liked-play"@),
                library::header_row("Songs"@),
            ]
        } else {
            Seq::empty()
        }
    }

    /// The walk at its beginning.
    pub open spec fn begun(self, api: Seq<char>) -> PagesView {
        PagesView {
            rows: self.leading(),
            url: Some(api + self.path()),
            pages: 0,
            max_pages: self.limit(),
            nested: if self is Artists {
                Some("artists"@)
            } else {
                None
            },
            kind: self.rows_kind(),
        }
    }

    /// The section that a finished walk fills.
    pub open spec fn fills(self) -> Option<Section> {
        match self {
            Stage::HomeArtists => Some(Section::Home),
            Stage::Recent => Some(Section::Recent),
            Stage::Playlists => Some(Section::Playlists),
            Stage::Albums => Some(Section::Albums),
            Stage::Artists => Some(Section::Artists),
            Stage::Liked => Some(Section::Liked),
            _ => None,
        }
    }

    /// The label and the number of rows that a finished walk gives the Home feed.
    pub open spec fn home_part(self, list: Seq<Row>) -> Seq<Row> {
        match self {
            Stage::HomeRecent => group("Recently Played"@, at_most(list, 6)),
            Stage::HomeTracks => group("Your Top Tracks"@, at_most(list, 8)),
            Stage::HomeArtists => group("Your Top Artists"@, at_most(list, 6)),
            _ => Seq::empty(),
        }
    }
}

/// The first `n` rows of a list.
pub open spec fn at_most(list: Seq<Row>, n: int) -> Seq<Row> {
    if list.len() <= n {
        list
    } else {
        list.take(n)
    }
}

/// The model of the whole fetch.
pub ghost struct FeedView {
    pub api: Seq<char>,
    pub stage: Stage,
    pub walk: PagesView,
    /// The Home feed so far.
    pub home: Seq<Row>,
    /// Whether anything has come at all.
    pub got_any: bool,
}

/// Rows for a section.
pub ghost struct Filled {
    pub section: Section,
    pub list: Seq<Row>,
}

impl FeedView {
    /// The page to ask for next.
    pub open spec fn wanted(self) -> Option<Seq<char>> {
        if self.stage is Done {
            None
        } else {
            self.walk.wanted()
        }
    }

    /// The Home feed once the current walk has ended.
    pub open spec fn home_after(self, walk: PagesView) -> Seq<Row> {
        self.home + self.stage.home_part(walk.rows)
    }

    /// The rows that a finished walk hands over.
    pub open spec fn handed(self, walk: PagesView) -> Seq<Row> {
        if self.stage is HomeArtists {
            self.home_after(walk)
        } else {
            walk.rows
        }
    }

    /// Whether a finished walk brought anything: the liked songs have two rows
    /// of their own.
    pub open spec fn brought(self, walk: PagesView) -> bool {
        match self.stage {
            Stage::HomeRecent => false,
            Stage::HomeTracks => false,
            Stage::Liked => walk.rows.len() > 2,
            _ => self.handed(walk).len() > 0,
        }
    }

    /// What a page hands to the UI: the liked songs are streamed every third
    /// page, and every section when its walk has ended.
    pub open spec fn handed_over(self, page: Option<json::JsonView>) -> Seq<Filled> {
        let walk = self.walk.turned(page);
        let streamed: Seq<Filled> = if self.stage is Liked && page is Some && walk.pages % 3 == 0 {
            seq![Filled { section: Section::Liked, list: walk.rows }]
        } else {
            Seq::empty()
        };
        if walk.wanted() is Some {
            streamed
        } else {
            match self.stage.fills() {
                Some(section) => streamed.push(Filled { section, list: self.handed(walk) }),
                None => streamed,
            }
        }
    }

    /// The fetch after a page.
    pub open spec fn stepped(self, page: Option<json::JsonView>) -> FeedView {
        let walk = self.walk.turned(page);
        if walk.wanted() is Some {
            FeedView { walk, ..self }
        } else {
            let next = self.stage.following();
            FeedView {
                api: self.api,
                stage: next,
                walk: if next is Done {
                    walk
                } else {
                    next.begun(self.api)
                },
                home: self.home_after(walk),
                got_any: self.got_any || self.brought(walk),
            }
        }
    }
}

/// The fetch of the whole library, page by page.
pub struct LibraryFetch {
    api: String,
    stage: Stage,
    walk: Pages,
    home: Vec<LibItem>,
    got_any: bool,
}

impl View for LibraryFetch {
    type V = FeedView;

    closed spec fn view(&self) -> FeedView {
        FeedView {
            api: self.api@,
            stage: self.stage,
            walk: self.walk@,
            home: library::rows(self.home@),
            got_any: self.got_any,
        }
    }
}

/// The walk of a stage at its beginning.
fn begin(stage: Stage, api: &str) -> (walk: Pages)
    requires
        !(stage is Done),
    ensures
        walk@ == stage.begun(api@),
{
    let path = match stage {
        Stage::HomeRecent => "/me/player/recently-played?limit=10",
        Stage::HomeTracks => "/me/top/tracks?limit=10",
        Stage::HomeArtists => "/me/top/artists?limit=10",
        Stage::Recent => "/me/player/recently-played?limit=50",
        Stage::Playlists => "/me/playlists?limit=50",
        Stage::Albums => "/me/albums?limit=50",
        Stage::Artists => "/me/following?type=artist&limit=50",
        _ => "/me/tracks?limit=50",
    };
    let max_pages: usize = match stage {
        Stage::Playlists => 10,
        Stage::Albums => 10,
        Stage::Artists => 5,
        Stage::Liked => 100,
        _ => 1,
    };
    let kind = match stage {
        Stage::HomeTracks => RowKind::Track,
        Stage::HomeArtists => RowKind::Artist,
        Stage::Playlists => RowKind::Playlist,
        Stage::Albums => RowKind::SavedAlbum,
        Stage::Artists => RowKind::Artist,
        _ => RowKind::PlayedTrack,
    };
    let mut rows: Vec<LibItem> = Vec::new();
    let mut nested: Option<String> = None;
    if stage == Stage::Liked {
        rows.push(
            LibItem::play("▶︎  Play Liked Songs".to_owned(), "myx:action:liked-play".to_owned()),
        );
        rows.push(LibItem::header("Songs"));
    }
    if stage == Stage::Artists {
        nested = Some("artists".to_owned());
    }
    assert(library::rows(rows@) =~= stage.leading());
    Pages::new(rows, text::join2(api, path), nested, max_pages, kind)
}

/// What is fetched next.
fn follow(stage: Stage) -> (next: Stage)
    ensures
        next == stage.following(),
{
    match stage {
        Stage::HomeRecent => Stage::HomeTracks,
        Stage::HomeTracks => Stage::HomeArtists,
        Stage::HomeArtists => Stage::Recent,
        Stage::Recent => Stage::Playlists,
        Stage::Playlists => Stage::Albums,
        Stage::Albums => Stage::Artists,
        Stage::Artists => Stage::Liked,
        _ => Stage::Done,
    }
}

/// Append a label and at most `n` rows to the Home feed; nothing where there
/// are none.
fn add_part(home: &mut Vec<LibItem>, title: &str, list: &Vec<LibItem>, n: usize)
    requires
        n > 0,
    ensures
        library::rows(final(home)@) == library::rows(old(home)@) + group(
            title@,
            at_most(library::rows(list@), n as int),
        ),
{
    let ghost before = library::rows(home@);
    let ghost want = at_most(library::rows(list@), n as int);
    if list.len() == 0 {
        assert(want.len() == 0);
        assert(library::rows(home@) =~= before + group(title@, want));
        return;
    }
    home.push(LibItem::header(title));
    assert(library::rows(home@) =~= before.push(library::header_row(title@)));
    let k: usize = if list.len() <= n {
        list.len()
    } else {
        n
    };
    let ghost headed = library::rows(home@);
    assert(want.take(0) =~= Seq::<Row>::empty());
    assert(library::rows(home@) =~= headed + want.take(0));
    let mut i: usize = 0;
    while i < k
        invariant
            i <= k,
            k <= list@.len(),
            k == want.len(),
            want == at_most(library::rows(list@), n as int),
            library::rows(home@) == headed + want.take(i as int),
        decreases k - i,
    {
        let ghost had = library::rows(home@);
        home.push(list[i].clone());
        assert(library::rows(home@) =~= had.push(list@[i as int]@));
        assert(want[i as int] == list@[i as int]@);
        assert(library::rows(home@) =~= headed + want.take(i + 1));
        i += 1;
    }
    assert(want.take(k as int) =~= want);
    assert(library::rows(home@) =~= before + group(title@, want));
}

/// The models of rows handed over.
pub open spec fn filled(out: Seq<(Section, Vec<LibItem>)>) -> Seq<Filled> {
    out.map_values(
        |p: (Section, Vec<LibItem>)| Filled { section: p.0, list: library::rows(p.1@) },
    )
}

/// The first pages asked for by a fresh fetch.
pub open spec fn fresh_feed(api: Seq<char>) -> FeedView {
    FeedView {
        api,
        stage: Stage::HomeRecent,
        walk: Stage::HomeRecent.begun(api),
        home: Seq::empty(),
        got_any: false,
    }
}

impl LibraryFetch {
    /// A fetch that has asked for nothing yet.
    pub fn new(api: String) -> (fetch: LibraryFetch)
        ensures
            fetch@ == fresh_feed(api@),
    {
        let walk = begin(Stage::HomeRecent, api.as_str());
        let fetch = LibraryFetch {
            api,
            stage: Stage::HomeRecent,
            walk,
            home: Vec::new(),
            got_any: false,
        };
        assert(fetch@.home =~= Seq::<Row>::empty());
        fetch
    }

    /// The page to ask for next; none when the fetch is done.
    pub fn next(&self) -> (url: Option<String>)
        ensures
            text::optional(url) == self@.wanted(),
    {
        if self.stage == Stage::Done {
            None
        } else {
            self.walk.next()
        }
    }

    /// Whether anything has come at all.
    pub fn got_any(&self) -> (yes: bool)
        ensures
            yes == self@.got_any,
    {
        self.got_any
    }

    /// The page that was asked for has come, or has not. What comes back is for
    /// the UI.
    pub fn page(&mut self, page: Option<&Json>) -> (out: Vec<(Section, Vec<LibItem>)>)
        requires
            old(self)@.wanted() is Some,
        ensures
            ({
                let doc = match page {
                    Some(doc) => Some(doc@),
                    None => None,
                };
                &&& final(self)@ == old(self)@.stepped(doc)
                &&& filled(out@) == old(self)@.handed_over(doc)
            }),
    {
        let ghost before = self@;
        let ghost doc = match page {
            Some(doc) => Some(doc@),
            None => None,
        };
        let ghost turned = before.walk.turned(doc);
        self.walk.turn(page);
        assert(self.walk@ == turned);
        let mut out: Vec<(Section, Vec<LibItem>)> = Vec::new();
        assert(filled(out@) =~= Seq::<Filled>::empty());
        if self.stage == Stage::Liked && page.is_some() && self.walk.pages % 3 == 0 {
            out.push((Section::Liked, library::copy_items(&self.walk.rows)));
            assert(filled(out@) =~= seq![
                Filled { section: Section::Liked, list: turned.rows },
            ]);
        }
        let ghost streamed = filled(out@);
        if self.walk.next().is_some() {
            return out;
        }
        match self.stage {
            Stage::HomeRecent => add_part(
                &mut self.home,
                "Recently Played",
                &self.walk.rows,
                6,
            ),
            Stage::HomeTracks => add_part(
                &mut self.home,
                "Your Top Tracks",
                &self.walk.rows,
                8,
            ),
            Stage::HomeArtists => add_part(
                &mut self.home,
                "Your Top Artists",
                &self.walk.rows,
                6,
            ),
            _ => {},
        }
        assert(library::rows(self.home@) =~= before.home_after(turned));
        let section: Option<Section> = match self.stage {
            Stage::HomeArtists => Some(Section::Home),
            Stage::Recent => Some(Section::Recent),
            Stage::Playlists => Some(Section::Playlists),
            Stage::Albums => Some(Section::Albums),
            Stage::Artists => Some(Section::Artists),
            Stage::Liked => Some(Section::Liked),
            _ => None,
        };
        if let Some(section) = section {
            let list = if self.stage == Stage::HomeArtists {
                library::copy_items(&self.home)
            } else {
                library::copy_items(&self.walk.rows)
            };
            assert(library::rows(list@) == before.handed(turned));
            let brought = if self.stage == Stage::Liked {
                list.len() > 2
            } else {
                list.len() > 0
            };
            assert(library::rows(list@).len() == list@.len());
            self.got_any = self.got_any || brought;
            out.push((section, list));
            assert(filled(out@) =~= streamed.push(
                Filled { section, list: before.handed(turned) },
            ));
        }
        let next = follow(self.stage);
        self.stage = next;
        if next != Stage::Done {
            self.walk = begin(next, self.api.as_str());
        }
        out
    }
}

// ----------------------------------------------------------------------- laws

/// The stages in the order they are fetched.
pub open spec fn rank(stage: Stage) -> int {
    match stage {
        Stage::HomeRecent => 0,
        Stage::HomeTracks => 1,
        Stage::HomeArtists => 2,
        Stage::Recent => 3,
        Stage::Playlists => 4,
        Stage::Albums => 5,
        Stage::Artists => 6,
        Stage::Liked => 7,
        Stage::Done => 8,
    }
}

/// The fetch always moves on: each page either turns another page of the same
/// stage, of which there are only so many, or goes on to the next stage.
pub proof fn law_the_fetch_comes_to_its_end(f: FeedView, page: Option<json::JsonView>)
    requires
        f.wanted() is Some,
        f.walk.max_pages == f.stage.limit(),
    ensures
        ({
            let after = f.stepped(page);
            ||| rank(after.stage) == rank(f.stage) + 1
            ||| after.stage == f.stage && after.walk.pages == f.walk.pages + 1
                && after.walk.pages < f.stage.limit()
        }),
        f.stepped(page).wanted() is Some ==> f.stepped(page).walk.max_pages == f.stepped(
            page,
        ).stage.limit(),
{
}

/// A fetch that brought nothing says so, and one that brought a row says that
/// it did: what has come is never forgotten.
pub proof fn law_what_has_come_is_remembered(f: FeedView, page: Option<json::JsonView>)
    ensures
        f.got_any ==> f.stepped(page).got_any,
        f.walk.turned(page).wanted() is None && f.brought(f.walk.turned(page)) ==> f.stepped(
            page,
        ).got_any,
{
}

/// The Home feed holds at most so many rows of each kind, each under its label.
pub proof fn law_the_home_feed_is_short(list: Seq<Row>)
    ensures
        Stage::HomeRecent.home_part(list).len() <= 7,
        Stage::HomeTracks.home_part(list).len() <= 9,
        Stage::HomeArtists.home_part(list).len() <= 7,
        list.len() == 0 ==> Stage::HomeRecent.home_part(list).len() == 0,
{
}

/// Every section is filled from the list that the service keeps for it, read as
/// what that list holds, and from so many of its pages at most.
pub proof fn law_each_section_is_fetched_from_its_own_list(stage: Stage, api: Seq<char>)
    requires
        !(stage is Done),
    ensures
        ({
            let walk = stage.begun(api);
            let from = |path: Seq<char>, kind: RowKind, pages: int|
                walk.wanted() == Some(api + path) && walk.kind == kind && walk.max_pages == pages;
            match stage.fills() {
                None => {
                    ||| stage is HomeRecent && from(
                        "/me/player/recently-played?limit=10"@,
                        RowKind::PlayedTrack,
                        1,
                    )
                    ||| stage is HomeTracks && from(
                        "/me/top/tracks?limit=10"@,
                        RowKind::Track,
                        1,
                    )
                },
                Some(Section::Home) => stage is HomeArtists && from(
                    "/me/top/artists?limit=10"@,
                    RowKind::Artist,
                    1,
                ),
                Some(Section::Recent) => from(
                    "/me/player/recently-played?limit=50"@,
                    RowKind::PlayedTrack,
                    1,
                ),
                Some(Section::Playlists) => from(
                    "/me/playlists?limit=50"@,
                    RowKind::Playlist,
                    10,
                ),
                Some(Section::Albums) => from("/me/albums?limit=50"@, RowKind::SavedAlbum, 10),
                Some(Section::Artists) => from(
                    "/me/following?type=artist&limit=50"@,
                    RowKind::Artist,
                    5,
                ) && walk.nested == Some("artists"@),
                Some(Section::Liked) => from("/me/tracks?limit=50"@, RowKind::PlayedTrack, 100),
            }
        }),
        stage.begun(api).pages == 0,
        !(stage.fills() == Some(Section::Artists)) ==> stage.begun(api).nested is None,
        !(stage.fills() == Some(Section::Liked)) ==> stage.begun(api).rows.len() == 0,
        stage.fills() == Some(Section::Liked) ==> {
            let lead = stage.begun(api).rows;
            &&& lead.len() == 2
            &&& lead[0].is_play && lead[0].uri == "myx:action:liked-play"@
            &&& lead[0].name == "▶︎  Play Liked Songs"@
            &&& lead[1].is_header && lead[1].name == "Songs"@
        },
{
}

/// A fresh fetch has brought nothing, and begins with what was heard last.
pub proof fn law_a_fresh_fetch_begins_at_the_beginning(api: Seq<char>)
    ensures
        fresh_feed(api).wanted() == Some(api + "/me/player/recently-played?limit=10"@),
        fresh_feed(api).home.len() == 0,
        !fresh_feed(api).got_any,
        fresh_feed(api).api == api,
{
}

/// The number of rows that a part of the home feed takes at most, and the label
/// above them.
pub open spec fn home_shelf(stage: Stage) -> (int, Seq<char>) {
    if stage is HomeRecent {
        (6, "Recently Played"@)
    } else if stage is HomeTracks {
        (8, "Your Top Tracks"@)
    } else {
        (6, "Your Top Artists"@)
    }
}

/// Each part of the home feed is its label and then the first rows of its list,
/// in their order, as many as there are and may be shown.
pub proof fn law_a_part_of_the_home_feed_is_the_top_of_its_list(
    stage: Stage,
    list: Seq<Row>,
    k: int,
)
    requires
        stage is HomeRecent || stage is HomeTracks || stage is HomeArtists,
        list.len() > 0,
    ensures
        ({
            let (most, title) = home_shelf(stage);
            let part = stage.home_part(list);
            &&& part.len() == 1 + (if list.len() <= most {
                list.len() as int
            } else {
                most
            })
            &&& part[0] == library::header_row(title)
            &&& 0 <= k < part.len() - 1 ==> part[k + 1] == list[k]
        }),
        stage.home_part(Seq::empty()).len() == 0,
{
}

/// The home feed is put together part by part in the order the parts are fetched,
/// and handed over whole when the last of them has come; no other stage touches
/// it.
pub proof fn law_the_home_feed_grows_part_by_part(f: FeedView, page: Option<json::JsonView>)
    ensures
        ({
            let walk = f.walk.turned(page);
            let ended = walk.wanted() is None;
            &&& !ended ==> f.stepped(page).home == f.home
            &&& ended && !(f.stage is HomeRecent || f.stage is HomeTracks || f.stage is HomeArtists)
                ==> f.stepped(page).home == f.home
            &&& ended && (f.stage is HomeRecent || f.stage is HomeTracks || f.stage is HomeArtists)
                ==> f.stepped(page).home == f.home + f.stage.home_part(walk.rows)
            &&& ended && f.stage is HomeArtists ==> f.handed_over(page) == seq![
                Filled { section: Section::Home, list: f.stepped(page).home },
            ]
            &&& f.stage is HomeRecent || f.stage is HomeTracks ==> f.handed_over(page).len() == 0
        }),
{
    let walk = f.walk.turned(page);
    assert(f.home + Seq::empty() =~= f.home);
    let none = Seq::<Filled>::empty();
    assert(none.push(Filled { section: Section::Home, list: f.home_after(walk) }) =~= seq![
        Filled { section: Section::Home, list: f.home_after(walk) },
    ]);
}

/// What a section is handed when its walk has ended is every row that has been
/// read of it, and nothing is handed to any other section. The liked songs are
/// shown early too, all that have come so far, after every third page.
pub proof fn law_a_section_is_handed_all_its_rows(f: FeedView, page: Option<json::JsonView>)
    requires
        f.stage is Recent || f.stage is Playlists || f.stage is Albums || f.stage is Artists
            || f.stage is Liked,
    ensures
        ({
            let walk = f.walk.turned(page);
            let out = f.handed_over(page);
            let section = f.stage.fills()->0;
            &&& f.stage.fills() is Some
            &&& forall|i: int|
                0 <= i < out.len() ==> (#[trigger] out[i]).section == section && out[i].list
                    == walk.rows
            &&& walk.wanted() is None ==> out.len() >= 1
            &&& walk.wanted() is Some && !(f.stage is Liked) ==> out.len() == 0
            &&& walk.wanted() is Some && f.stage is Liked ==> out.len() == (if page is Some
                && walk.pages % 3 == 0 {
                1int
            } else {
                0
            })
        }),
{
}

/// Something has come exactly when a list had a row of its own: the two rows
/// above the liked songs do not count.
pub proof fn law_only_rows_count_as_something(f: FeedView, page: Option<json::JsonView>)
    requires
        !f.got_any,
    ensures
        ({
            let walk = f.walk.turned(page);
            let ended = walk.wanted() is None;
            &&& f.stage is Recent || f.stage is Playlists || f.stage is Albums || f.stage is Artists
                ==> f.stepped(page).got_any == (ended && walk.rows.len() > 0)
            &&& f.stage is Liked ==> f.stepped(page).got_any == (ended && walk.rows.len() > 2)
            &&& f.stage is HomeArtists ==> f.stepped(page).got_any == (ended && f.stepped(
                page,
            ).home.len() > 0)
            &&& f.stage is HomeRecent || f.stage is HomeTracks ==> !f.stepped(page).got_any
        }),
{
}

/// When the walk of a stage has ended, the next begins at its beginning.
pub proof fn law_the_next_stage_begins_afresh(f: FeedView, page: Option<json::JsonView>)
    requires
        f.walk.turned(page).wanted() is None,
        f.stage.following() != Stage::Done,
    ensures
        f.stepped(page).walk == f.stage.following().begun(f.api),
        f.stepped(page).wanted() is Some,
        f.stepped(page).api == f.api,
{
}

/// What is handed over is modelled as it is.
pub proof fn law_what_is_handed_over_is_modelled_whole(
    out: Seq<(Section, Vec<LibItem>)>,
    i: int,
)
    requires
        0 <= i < out.len(),
    ensures
        filled(out).len() == out.len(),
        filled(out)[i].section == out[i].0,
        filled(out)[i].list == library::rows(out[i].1@),
{
}

} // verus!
