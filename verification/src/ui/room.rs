//! The Room view — host or join a listening room.
//!
//! Hosting shares the account's Premium session with guests; joining lets a
//! (possibly free) account play any track through the host's session.

use crate::room::host::HostInfo;
use crate::text;
use crate::ui::library::less;
use crate::ui::spans::add_blank;
use crate::ui::spans::add_line;
use crate::ui::spans::add_span;
use crate::ui::spans::add_text;
use crate::ui::spans::blank;
use crate::ui::spans::line_view;
use crate::ui::spans::lines_view;
use crate::ui::spans::one;
use crate::ui::spans::LineView;
use crate::ui::spans::Span;
use crate::ui::spans::Tone;
use crate::util;
use vstd::prelude::*;

verus! {

/// Whether this Myx hosts a room, has joined one, or neither.
#[derive(Clone, Copy, PartialEq, Eq, Structural, Debug)]
pub enum RoomMode {
    Idle,
    Host,
    Guest,
}

/// What the join form is asking for.
#[derive(Clone, Copy, PartialEq, Eq, Structural, Debug)]
pub enum RoomInput {
    Url,
    Token,
}

/// What the Room view shows.
pub struct RoomState {
    pub mode: RoomMode,
    pub guest_url: String,
    pub guest_token: String,
    pub queue: Vec<String>,
    pub queue_index: usize,
    /// The join form, while input is captured.
    pub input: Option<RoomInput>,
}

/// What plays: its title and its artist.
pub struct Playing {
    pub title: String,
    pub artist: String,
}

/// A caption and a value.
pub open spec fn pair(caption: Seq<char>, value: Seq<char>, tone: Tone) -> LineView {
    seq![(caption, Tone::Muted), (value, tone)]
}

/// A number in decimal.
pub open spec fn count(n: u64) -> Seq<char> {
    text::decimal(n as nat)
}

/// What an idle guest sees, who has no engine of their own.
pub open spec fn guest_mode_lines() -> Seq<LineView> {
    seq![
        one("GUEST MODE"@, Tone::Heading),
        blank(),
        one("No streaming engine — this Myx plays only through a room."@, Tone::Muted),
        one("Ask the host for their host:port and room token, then press J."@, Tone::Muted),
        blank(),
        one("Browsing works as usual; hosting needs a Premium session."@, Tone::Muted),
        blank(),
        one("J  join a room    L  leave"@, Tone::Muted),
    ]
}

/// What is shown when there is no room.
pub open spec fn idle_lines() -> Seq<LineView> {
    seq![
        one("LISTENING ROOM"@, Tone::Heading),
        blank(),
        one(
            "One Premium session, many listeners — each plays their own song."@,
            Tone::Muted,
        ),
        one(
            "Host (h): friends join your room and play through YOUR premium session."@,
            Tone::Muted,
        ),
        one("Join (J): you become a guest — play any track as if you had premium."@, Tone::Muted),
        blank(),
        one("h  host this room    J  join a room    L  leave"@, Tone::Muted),
    ]
}

/// The counters that a host sees.
pub ghost struct Counters {
    pub port: u16,
    pub token: Seq<char>,
    pub resolves: u64,
    pub joins: u64,
    pub cache_hits: u64,
    pub coalesced: u64,
    pub upstream: u64,
}

/// The counters of a room; all nought where there is none.
pub open spec fn counters(info: Option<HostInfo>) -> Counters {
    match info {
        Some(i) => Counters {
            port: i.port,
            token: i.token@,
            resolves: i.resolves,
            joins: i.joins,
            cache_hits: i.cache_hits,
            coalesced: i.coalesced,
            upstream: i.upstream,
        },
        None => Counters {
            port: 0,
            token: Seq::empty(),
            resolves: 0,
            joins: 0,
            cache_hits: 0,
            coalesced: 0,
            upstream: 0,
        },
    }
}

/// What a host sees.
pub open spec fn host_lines(info: Counters) -> Seq<LineView> {
    seq![
        one("HOSTING"@, Tone::Success),
        blank(),
        pair("port    "@, count(info.port as u64), Tone::Text),
        pair("token   "@, info.token, Tone::Primary),
        pair("joined  "@, count(info.joins), Tone::Text) + pair(
            "   resolved  "@,
            count(info.resolves),
            Tone::Text,
        ),
        pair("upstream"@, "  "@ + count(info.upstream), Tone::Text) + pair(
            "   cached  "@,
            count(info.cache_hits),
            Tone::Text,
        ) + pair("   shared  "@, count(info.coalesced), Tone::Text),
        blank(),
        one("Friends run myx → Room → J → host:port + token above."@, Tone::Muted),
        one("For remote guests expose this port (ngrok http 8787) and share the"@, Tone::Muted),
        one("token — your session never plays, so Spotify's one-stream rule holds."@, Tone::Muted),
        blank(),
        one("h/L  stop hosting    T  new token (locks out current guests)"@, Tone::Muted),
    ]
}

/// What plays, where anything does.
pub open spec fn playing_lines(now: Option<Playing>, max: int) -> Seq<LineView> {
    match now {
        Some(n) => seq![
            blank(),
            pair("playing "@, util::truncated(n.title@, less(max, 9)), Tone::Strong).push(
                ("  "@ + n.artist@, Tone::Muted),
            ),
        ],
        None => Seq::empty(),
    }
}

/// Where in the queue playback stands, where there is one.
pub open spec fn queue_lines(room: RoomState) -> Seq<LineView> {
    if room.queue@.len() == 0 {
        Seq::empty()
    } else {
        seq![
            pair(
                "queue   "@,
                text::decimal((room.queue_index + 1) as nat) + "/"@ + text::decimal(
                    room.queue@.len(),
                ) + "  (n/b to skip)"@,
                Tone::Text,
            ),
        ]
    }
}

/// What a guest sees who has joined a room.
pub open spec fn joined_lines(room: RoomState, now: Option<Playing>, max: int) -> Seq<LineView> {
    seq![
        one("JOINED ROOM"@, Tone::Success),
        blank(),
        pair("host   "@, util::truncated(room.guest_url@, less(max, 7)), Tone::Text),
        pair("token  "@, util::truncated(room.guest_token@, less(max, 7)), Tone::Primary),
    ] + playing_lines(now, max) + queue_lines(room) + seq![
        blank(),
        one("Browse/search anything and press Enter — audio comes from the"@, Tone::Muted),
        one("host's premium session via the room. Your own account is just for"@, Tone::Muted),
        one("browsing: playlists, likes and all."@, Tone::Muted),
        blank(),
        one("J  re-join    L  leave room"@, Tone::Muted),
    ]
}

/// The join form, while input is captured.
pub open spec fn form_lines(room: RoomState, max: int) -> Seq<LineView> {
    match room.input {
        Some(stage) => {
            let (label, value) = match stage {
                RoomInput::Url => ("host url (host:port)"@, room.guest_url@),
                RoomInput::Token => ("room token"@, room.guest_token@),
            };
            seq![
                blank(),
                seq![
                    (label + ": "@, Tone::Primary),
                    (util::truncated(value, less(max, label.len() as int + 2)), Tone::Text),
                    ("_"@, Tone::Accent),
                ],
                one("enter  next · esc  cancel"@, Tone::Muted),
            ]
        },
        None => Seq::empty(),
    }
}

/// The lines of the view.
pub open spec fn room_view(
    room: RoomState,
    guest_only: bool,
    info: Option<HostInfo>,
    now: Option<Playing>,
    max: int,
) -> Seq<LineView> {
    (match room.mode {
        RoomMode::Idle => if guest_only {
            guest_mode_lines()
        } else {
            idle_lines()
        },
        RoomMode::Host => host_lines(counters(info)),
        RoomMode::Guest => joined_lines(room, now, max),
    }) + form_lines(room, max)
}

/// Append a caption and a value.
fn add_pair(line: &mut Vec<Span>, caption: &str, value: String, tone: Tone)
    ensures
        line_view(final(line)@) == line_view(old(line)@) + pair(caption@, value@, tone),
{
    let ghost before = line_view(line@);
    add_span(line, caption.to_owned(), Tone::Muted);
    add_span(line, value, tone);
    assert(line_view(line@) =~= before + pair(caption@, value@, tone));
}

/// A caption and a value.
fn pair_line(caption: &str, value: String, tone: Tone) -> (line: Vec<Span>)
    ensures
        line_view(line@) == pair(caption@, value@, tone),
{
    let mut line: Vec<Span> = Vec::new();
    assert(line_view(line@) =~= Seq::empty());
    add_pair(&mut line, caption, value, tone);
    assert(line_view(line@) =~= pair(caption@, value@, tone));
    line
}

/// What an idle guest sees, who has no engine of their own.
fn show_guest_mode(lines: &mut Vec<Vec<Span>>)
    ensures
        lines_view(final(lines)@) == lines_view(old(lines)@) + guest_mode_lines(),
{
    let ghost before = lines_view(lines@);
    add_text(lines, "GUEST MODE", Tone::Heading);
    add_blank(lines);
    add_text(lines, "No streaming engine — this Myx plays only through a room.", Tone::Muted);
    add_text(
        lines,
        "Ask the host for their host:port and room token, then press J.",
        Tone::Muted,
    );
    add_blank(lines);
    add_text(lines, "Browsing works as usual; hosting needs a Premium session.", Tone::Muted);
    add_blank(lines);
    add_text(lines, "J  join a room    L  leave", Tone::Muted);
    assert(lines_view(lines@) =~= before + guest_mode_lines());
}

/// What is shown when there is no room.
fn show_idle(lines: &mut Vec<Vec<Span>>)
    ensures
        lines_view(final(lines)@) == lines_view(old(lines)@) + idle_lines(),
{
    let ghost before = lines_view(lines@);
    add_text(lines, "LISTENING ROOM", Tone::Heading);
    add_blank(lines);
    add_text(
        lines,
        "One Premium session, many listeners — each plays their own song.",
        Tone::Muted,
    );
    add_text(
        lines,
        "Host (h): friends join your room and play through YOUR premium session.",
        Tone::Muted,
    );
    add_text(
        lines,
        "Join (J): you become a guest — play any track as if you had premium.",
        Tone::Muted,
    );
    add_blank(lines);
    add_text(lines, "h  host this room    J  join a room    L  leave", Tone::Muted);
    assert(lines_view(lines@) =~= before + idle_lines());
}

/// What a host sees.
fn show_host(lines: &mut Vec<Vec<Span>>, info: &HostInfo)
    ensures
        lines_view(final(lines)@) == lines_view(old(lines)@) + host_lines(counters(Some(*info))),
{
    let ghost before = lines_view(lines@);
    add_text(lines, "HOSTING", Tone::Success);
    add_blank(lines);
    add_line(lines, pair_line("port    ", text::decimal_text(info.port as u64), Tone::Text));
    add_line(lines, pair_line("token   ", info.token.clone(), Tone::Primary));
    let mut served = pair_line("joined  ", text::decimal_text(info.joins), Tone::Text);
    add_pair(&mut served, "   resolved  ", text::decimal_text(info.resolves), Tone::Text);
    add_line(lines, served);
    let upstream = text::decimal_text(info.upstream);
    let mut cost = pair_line("upstream", text::join2("  ", upstream.as_str()), Tone::Text);
    add_pair(&mut cost, "   cached  ", text::decimal_text(info.cache_hits), Tone::Text);
    add_pair(&mut cost, "   shared  ", text::decimal_text(info.coalesced), Tone::Text);
    add_line(lines, cost);
    add_blank(lines);
    add_text(lines, "Friends run myx → Room → J → host:port + token above.", Tone::Muted);
    add_text(
        lines,
        "For remote guests expose this port (ngrok http 8787) and share the",
        Tone::Muted,
    );
    add_text(
        lines,
        "token — your session never plays, so Spotify's one-stream rule holds.",
        Tone::Muted,
    );
    add_blank(lines);
    add_text(
        lines,
        "h/L  stop hosting    T  new token (locks out current guests)",
        Tone::Muted,
    );
    assert(lines_view(lines@) =~= before + host_lines(counters(Some(*info))));
}

/// What a guest sees who has joined a room.
fn show_joined(lines: &mut Vec<Vec<Span>>, room: &RoomState, now: Option<&Playing>, max: usize)
    requires
        room.queue@.len() > 0 ==> room.queue_index < usize::MAX,
    ensures
        lines_view(final(lines)@) == lines_view(old(lines)@) + joined_lines(
            *room,
            match now {
                Some(n) => Some(*n),
                None => None,
            },
            max as int,
        ),
{
    let ghost before = lines_view(lines@);
    let ghost playing = match now {
        Some(n) => Some(*n),
        None => None,
    };
    add_text(lines, "JOINED ROOM", Tone::Success);
    add_blank(lines);
    let url = util::truncate(room.guest_url.as_str(), max.saturating_sub(7));
    add_line(lines, pair_line("host   ", url, Tone::Text));
    let token = util::truncate(room.guest_token.as_str(), max.saturating_sub(7));
    add_line(lines, pair_line("token  ", token, Tone::Primary));
    let ghost top = lines_view(lines@);
    if let Some(n) = now {
        add_blank(lines);
        let title = util::truncate(n.title.as_str(), max.saturating_sub(9));
        let mut line = pair_line("playing ", title, Tone::Strong);
        add_span(&mut line, text::join2("  ", n.artist.as_str()), Tone::Muted);
        add_line(lines, line);
    }
    assert(lines_view(lines@) =~= top + playing_lines(playing, max as int));
    let ghost middle = lines_view(lines@);
    if room.queue.len() > 0 {
        let at = text::decimal_text(room.queue_index as u64 + 1);
        let of = text::decimal_text(room.queue.len() as u64);
        let head = text::join3(at.as_str(), "/", of.as_str());
        add_line(
            lines,
            pair_line("queue   ", text::join2(head.as_str(), "  (n/b to skip)"), Tone::Text),
        );
    }
    assert(lines_view(lines@) =~= middle + queue_lines(*room));
    add_blank(lines);
    add_text(
        lines,
        "Browse/search anything and press Enter — audio comes from the",
        Tone::Muted,
    );
    add_text(
        lines,
        "host's premium session via the room. Your own account is just for",
        Tone::Muted,
    );
    add_text(lines, "browsing: playlists, likes and all.", Tone::Muted);
    add_blank(lines);
    add_text(lines, "J  re-join    L  leave room", Tone::Muted);
    assert(lines_view(lines@) =~= before + joined_lines(*room, playing, max as int));
}

/// The join form, while input is captured.
fn show_form(lines: &mut Vec<Vec<Span>>, room: &RoomState, max: usize)
    ensures
        lines_view(final(lines)@) == lines_view(old(lines)@) + form_lines(*room, max as int),
{
    let ghost before = lines_view(lines@);
    if let Some(stage) = room.input {
        proof {
            reveal_strlit("host url (host:port)");
            reveal_strlit("room token");
        }
        let (label, taken): (&str, usize) = match stage {
            RoomInput::Url => ("host url (host:port)", 22),
            RoomInput::Token => ("room token", 12),
        };
        let value = match stage {
            RoomInput::Url => util::truncate(room.guest_url.as_str(), max.saturating_sub(taken)),
            RoomInput::Token => util::truncate(
                room.guest_token.as_str(),
                max.saturating_sub(taken),
            ),
        };
        add_blank(lines);
        let mut line: Vec<Span> = Vec::new();
        assert(line_view(line@) =~= Seq::empty());
        add_span(&mut line, text::join2(label, ": "), Tone::Primary);
        add_span(&mut line, value, Tone::Text);
        add_span(&mut line, "_".to_owned(), Tone::Accent);
        let ghost shown = line_view(line@);
        add_line(lines, line);
        add_text(lines, "enter  next · esc  cancel", Tone::Muted);
        assert(shown =~= form_lines(*room, max as int)[1]);
        assert(lines_view(lines@) =~= before + form_lines(*room, max as int));
    } else {
        assert(lines_view(lines@) =~= before + form_lines(*room, max as int));
    }
}

/// The lines of the view. A host is shown with its counters.
pub fn room_lines(
    room: &RoomState,
    guest_only: bool,
    info: Option<&HostInfo>,
    now: Option<&Playing>,
    max: usize,
) -> (lines: Vec<Vec<Span>>)
    requires
        room.mode is Guest && room.queue@.len() > 0 ==> room.queue_index < usize::MAX,
    ensures
        lines_view(lines@) == room_view(
            *room,
            guest_only,
            match info {
                Some(i) => Some(*i),
                None => None,
            },
            match now {
                Some(n) => Some(*n),
                None => None,
            },
            max as int,
        ),
{
    let mut lines: Vec<Vec<Span>> = Vec::new();
    assert(lines_view(lines@) =~= Seq::empty());
    match room.mode {
        RoomMode::Idle => {
            if guest_only {
                show_guest_mode(&mut lines);
            } else {
                show_idle(&mut lines);
            }
        },
        RoomMode::Host => {
            match info {
                Some(info) => show_host(&mut lines, info),
                None => {
                    let nothing = HostInfo {
                        port: 0,
                        token: String::new(),
                        resolves: 0,
                        joins: 0,
                        cache_hits: 0,
                        coalesced: 0,
                        upstream: 0,
                    };
                    assert(counters(Some(nothing)).token =~= Seq::<char>::empty());
                    show_host(&mut lines, &nothing)
                },
            }
        },
        RoomMode::Guest => show_joined(&mut lines, room, now, max),
    }
    show_form(&mut lines, room, max);
    assert(lines_view(lines@) =~= room_view(
        *room,
        guest_only,
        match info {
            Some(i) => Some(*i),
            None => None,
        },
        match now {
            Some(n) => Some(*n),
            None => None,
        },
        max as int,
    ));
    lines
}

// ----------------------------------------------------------------------- laws

/// A host sees the port and the token that guests need, and every counter under
/// its own caption.
pub proof fn law_a_host_sees_its_room(info: HostInfo)
    ensures
        ({
            let lines = host_lines(counters(Some(info)));
            let number = |n: u64| text::decimal(n as nat);
            &&& lines.len() == 12
            &&& lines[0] == seq![("HOSTING"@, Tone::Success)]
            &&& lines[2] == seq![
                ("port    "@, Tone::Muted),
                (number(info.port as u64), Tone::Text),
            ]
            &&& lines[3] == seq![("token   "@, Tone::Muted), (info.token@, Tone::Primary)]
            &&& lines[4] == seq![
                ("joined  "@, Tone::Muted),
                (number(info.joins), Tone::Text),
                ("   resolved  "@, Tone::Muted),
                (number(info.resolves), Tone::Text),
            ]
            &&& lines[5] == seq![
                ("upstream"@, Tone::Muted),
                ("  "@ + number(info.upstream), Tone::Text),
                ("   cached  "@, Tone::Muted),
                (number(info.cache_hits), Tone::Text),
                ("   shared  "@, Tone::Muted),
                (number(info.coalesced), Tone::Text),
            ]
        }),
{
    let lines = host_lines(counters(Some(info)));
    let number = |n: u64| text::decimal(n as nat);
    assert(lines[4] =~= seq![
        ("joined  "@, Tone::Muted),
        (number(info.joins), Tone::Text),
        ("   resolved  "@, Tone::Muted),
        (number(info.resolves), Tone::Text),
    ]);
    assert(lines[5] =~= seq![
        ("upstream"@, Tone::Muted),
        ("  "@ + number(info.upstream), Tone::Text),
        ("   cached  "@, Tone::Muted),
        (number(info.cache_hits), Tone::Text),
        ("   shared  "@, Tone::Muted),
        (number(info.coalesced), Tone::Text),
    ]);
}

/// Without a room all counters stand at nought.
pub proof fn law_no_room_counts_nothing()
    ensures
        ({
            let c = counters(None);
            &&& c.port == 0 && c.token.len() == 0 && c.resolves == 0 && c.joins == 0
            &&& c.cache_hits == 0 && c.coalesced == 0 && c.upstream == 0
        }),
{
}

/// A guest sees where the room is and the token that opened it, whole where they
/// fit, then what plays, where anything does, and then the place in the queue
/// counted from one, where there is a queue.
pub proof fn law_a_guest_sees_the_room_and_the_queue(
    room: RoomState,
    now: Option<Playing>,
    max: int,
)
    ensures
        ({
            let lines = joined_lines(room, now, max);
            let playing: int = if now is Some {
                2
            } else {
                0
            };
            let queued: int = if room.queue@.len() > 0 {
                1
            } else {
                0
            };
            &&& lines.len() == 4 + playing + queued + 6
            &&& lines[0] == seq![("JOINED ROOM"@, Tone::Success)]
            &&& room.guest_url@.len() + 7 <= max ==> lines[2] == seq![
                ("host   "@, Tone::Muted),
                (room.guest_url@, Tone::Text),
            ]
            &&& room.guest_token@.len() + 7 <= max ==> lines[3] == seq![
                ("token  "@, Tone::Muted),
                (room.guest_token@, Tone::Primary),
            ]
            &&& now matches Some(n) ==> (n.title@.len() + 9 <= max ==> lines[5] == seq![
                ("playing "@, Tone::Muted),
                (n.title@, Tone::Strong),
                ("  "@ + n.artist@, Tone::Muted),
            ])
            &&& room.queue@.len() > 0 ==> lines[4 + playing] == seq![
                ("queue   "@, Tone::Muted),
                (
                    text::decimal((room.queue_index + 1) as nat) + "/"@ + text::decimal(
                        room.queue@.len(),
                    ) + "  (n/b to skip)"@,
                    Tone::Text,
                ),
            ]
            &&& lines.last() == seq![("J  re-join    L  leave room"@, Tone::Muted)]
        }),
{
    if let Some(n) = now {
        let line = joined_lines(room, now, max)[5];
        if n.title@.len() + 9 <= max {
            assert(line =~= seq![
                ("playing "@, Tone::Muted),
                (n.title@, Tone::Strong),
                ("  "@ + n.artist@, Tone::Muted),
            ]);
        }
    }
}

/// The form shows what has been typed of what it asks for, whole where it fits,
/// and stands below everything else; without a form there is nothing below.
pub proof fn law_the_form_shows_what_is_typed(room: RoomState, max: int)
    ensures
        room.input is None ==> form_lines(room, max).len() == 0,
        room.input == Some(RoomInput::Url) && room.guest_url@.len() + 22 <= max ==> form_lines(
            room,
            max,
        )[1] == seq![
            ("host url (host:port): "@, Tone::Primary),
            (room.guest_url@, Tone::Text),
            ("_"@, Tone::Accent),
        ],
        room.input == Some(RoomInput::Token) && room.guest_token@.len() + 12 <= max ==> form_lines(
            room,
            max,
        )[1] == seq![
            ("room token: "@, Tone::Primary),
            (room.guest_token@, Tone::Text),
            ("_"@, Tone::Accent),
        ],
        room.input is Some ==> form_lines(room, max).len() == 3 && form_lines(room, max)[2] == seq![
            ("enter  next · esc  cancel"@, Tone::Muted),
        ],
{
    reveal_strlit("host url (host:port)");
    reveal_strlit("room token");
    reveal_strlit(": ");
    reveal_strlit("host url (host:port): ");
    reveal_strlit("room token: ");
    assert("host url (host:port)"@ + ": "@ =~= "host url (host:port): "@);
    assert("room token"@ + ": "@ =~= "room token: "@);
}

/// What is shown goes by the mode: the counters to a host, the room to a guest,
/// and how to get into one to anybody else, who may host only with an engine;
/// the form comes last.
pub proof fn law_the_view_goes_by_the_mode(
    room: RoomState,
    guest_only: bool,
    info: Option<HostInfo>,
    now: Option<Playing>,
    max: int,
)
    ensures
        ({
            let lines = room_view(room, guest_only, info, now, max);
            let form = form_lines(room, max);
            let upper = lines.take(lines.len() - form.len());
            &&& lines == upper + form
            &&& room.mode is Host ==> upper == host_lines(counters(info))
            &&& room.mode is Guest ==> upper == joined_lines(room, now, max)
            &&& room.mode is Idle && guest_only ==> upper == guest_mode_lines()
            &&& room.mode is Idle && !guest_only ==> upper == idle_lines()
        }),
        guest_mode_lines().len() == 8,
        guest_mode_lines()[0] == seq![("GUEST MODE"@, Tone::Heading)],
        guest_mode_lines()[7] == seq![("J  join a room    L  leave"@, Tone::Muted)],
        idle_lines().len() == 7,
        idle_lines()[0] == seq![("LISTENING ROOM"@, Tone::Heading)],
        idle_lines()[6] == seq![
            ("h  host this room    J  join a room    L  leave"@, Tone::Muted),
        ],
{
    let lines = room_view(room, guest_only, info, now, max);
    let form = form_lines(room, max);
    let upper = lines.take(lines.len() - form.len());
    assert(lines =~= upper + form);
    assert(room.mode is Host ==> upper =~= host_lines(counters(info)));
    assert(room.mode is Guest ==> upper =~= joined_lines(room, now, max));
    assert(room.mode is Idle && guest_only ==> upper =~= guest_mode_lines());
    assert(room.mode is Idle && !guest_only ==> upper =~= idle_lines());
}

/// The words of the view, line by line.
pub proof fn law_the_words_of_the_view(info: Counters, room: RoomState, now: Option<Playing>, max: int)
    ensures
        guest_mode_lines()[1].len() == 0,
        guest_mode_lines()[2] == one(
            "No streaming engine — this Myx plays only through a room."@,
            Tone::Muted,
        ),
        guest_mode_lines()[3] == one(
            "Ask the host for their host:port and room token, then press J."@,
            Tone::Muted,
        ),
        guest_mode_lines()[4].len() == 0,
        guest_mode_lines()[5] == one(
            "Browsing works as usual; hosting needs a Premium session."@,
            Tone::Muted,
        ),
        guest_mode_lines()[6].len() == 0,
        idle_lines()[1].len() == 0,
        idle_lines()[2] == one(
            "One Premium session, many listeners — each plays their own song."@,
            Tone::Muted,
        ),
        idle_lines()[3] == one(
            "Host (h): friends join your room and play through YOUR premium session."@,
            Tone::Muted,
        ),
        idle_lines()[4] == one(
            "Join (J): you become a guest — play any track as if you had premium."@,
            Tone::Muted,
        ),
        idle_lines()[5].len() == 0,
        host_lines(info)[1].len() == 0,
        host_lines(info)[6].len() == 0,
        host_lines(info)[7] == one(
            "Friends run myx → Room → J → host:port + token above."@,
            Tone::Muted,
        ),
        host_lines(info)[8] == one(
            "For remote guests expose this port (ngrok http 8787) and share the"@,
            Tone::Muted,
        ),
        host_lines(info)[9] == one(
            "token — your session never plays, so Spotify's one-stream rule holds."@,
            Tone::Muted,
        ),
        host_lines(info)[10].len() == 0,
        host_lines(info)[11] == one(
            "h/L  stop hosting    T  new token (locks out current guests)"@,
            Tone::Muted,
        ),
        ({
            let lines = joined_lines(room, now, max);
            let n = lines.len() as int;
            &&& lines[1].len() == 0
            &&& lines[n - 6].len() == 0
            &&& lines[n - 5] == one(
                "Browse/search anything and press Enter — audio comes from the"@,
                Tone::Muted,
            )
            &&& lines[n - 4] == one(
                "host's premium session via the room. Your own account is just for"@,
                Tone::Muted,
            )
            &&& lines[n - 3] == one("browsing: playlists, likes and all."@, Tone::Muted)
            &&& lines[n - 2].len() == 0
        }),
{
}

} // verus!
