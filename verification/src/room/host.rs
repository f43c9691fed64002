//! The host side of the room: who is admitted, what each request is answered,
//! and the counters that the Room view shows.

use crate::hex;
use crate::json;
use crate::json::Field;
use crate::json::Json;
use crate::room::resolver::ResolveState;
use crate::room::resolver::Track;
use crate::room::token;
use crate::text;
use std::sync::Arc;
use vstd::prelude::*;

verus! {

/// Default port the room server binds.
pub const ROOM_PORT: u16 = 8787;

/// A read-only snapshot of the room server for the UI.
pub struct HostInfo {
    pub port: u16,
    pub token: String,
    pub resolves: u64,
    pub joins: u64,
    /// Served straight from cache, no upstream call.
    pub cache_hits: u64,
    /// Folded into an already-running resolve for the same track.
    pub coalesced: u64,
    /// Audio-key requests actually made against the Spotify session.
    pub upstream: u64,
}

impl Clone for HostInfo {
    fn clone(&self) -> (copy: HostInfo)
        ensures
            copy == *self,
    {
        HostInfo {
            port: self.port,
            token: self.token.clone(),
            resolves: self.resolves,
            joins: self.joins,
            cache_hits: self.cache_hits,
            coalesced: self.coalesced,
            upstream: self.upstream,
        }
    }
}

/// What a request is answered: a status and the fields of a JSON object.
pub struct Reply {
    pub status: u16,
    pub fields: Vec<(String, Field)>,
}

/// The model of a reply.
pub ghost struct ReplyView {
    pub status: u16,
    pub fields: Seq<(Seq<char>, json::FieldView)>,
}

impl Reply {
    /// The model of this reply.
    pub open spec fn view(self) -> ReplyView {
        ReplyView { status: self.status, fields: json::object_view(self.fields@) }
    }

    /// The body of the reply, as JSON text.
    pub fn body(&self) -> (text: String)
        ensures
            text@ == json::json_text(self.view().fields),
            json::reads_back(text@, self.view().fields),
    {
        json::object_text(&self.fields)
    }
}

/// An answer that says what was wrong.
pub open spec fn error_reply(status: u16, message: Seq<char>) -> ReplyView {
    ReplyView { status, fields: seq![("error"@, json::FieldView::Text(message))] }
}

/// The answer to a guest that may come in.
pub open spec fn joined_reply() -> ReplyView {
    ReplyView { status: 200, fields: seq![("ok"@, json::FieldView::Flag(true))] }
}

/// What the server says of itself to anyone who asks.
pub open spec fn info_reply() -> ReplyView {
    ReplyView {
        status: 200,
        fields: seq![
            ("app"@, json::FieldView::Text("myx"@)),
            ("room"@, json::FieldView::Text("0.1"@)),
            ("join"@, json::FieldView::Text("/join"@)),
            ("resolve"@, json::FieldView::Text("/resolve"@)),
        ],
    }
}

/// The answer that carries a resolved track.
pub open spec fn track_reply(uri: Seq<char>, track: Track) -> ReplyView {
    ReplyView {
        status: 200,
        fields: seq![
            ("track"@, json::FieldView::Text(uri)),
            ("format"@, json::FieldView::Text(track.format.name_view())),
            ("key_hex"@, json::FieldView::Text(hex::hex_of(track.key@))),
            ("urls"@, json::FieldView::Texts(json::texts(track.urls@))),
        ],
    }
}

fn reply1(status: u16, name: &str, value: Field) -> (r: Reply)
    ensures
        r.view() == (ReplyView { status, fields: seq![(name@, value.view())] }),
{
    let mut fields: Vec<(String, Field)> = Vec::new();
    fields.push((name.to_owned(), value));
    assert(json::object_view(fields@) =~= seq![(name@, value.view())]);
    Reply { status, fields }
}

/// An answer that says what was wrong.
fn refuse(status: u16, message: &str) -> (r: Reply)
    ensures
        r.view() == error_reply(status, message@),
{
    reply1(status, "error", Field::Text(message.to_owned()))
}

/// What the server says of itself to anyone who asks.
fn introduce() -> (r: Reply)
    ensures
        r.view() == info_reply(),
{
    let mut fields: Vec<(String, Field)> = Vec::new();
    fields.push(("app".to_owned(), Field::Text("myx".to_owned())));
    fields.push(("room".to_owned(), Field::Text("0.1".to_owned())));
    fields.push(("join".to_owned(), Field::Text("/join".to_owned())));
    fields.push(("resolve".to_owned(), Field::Text("/resolve".to_owned())));
    assert(json::object_view(fields@) =~= info_reply().fields);
    Reply { status: 200, fields }
}

// ------------------------------------------------------------------- requests

/// What a request asks for, as far as the rules look at it.
pub ghost struct Wish {
    pub method: Seq<char>,
    pub path: Seq<char>,
    /// The `token` field of the body, where it is a text.
    pub token: Option<Seq<char>>,
    /// The `uri` field of the body, where it is a text.
    pub uri: Option<Seq<char>>,
}

/// The path of a request: its url up to the query.
pub open spec fn path_of(url: Seq<char>) -> Seq<char> {
    url.take(text::first_index(url, '?'))
}

/// What a request asks for. Only a `POST` has a body, and one that is not JSON
/// counts as empty.
pub open spec fn wish(
    method: Seq<char>,
    url: Seq<char>,
    document: Option<json::JsonView>,
) -> Wish {
    let body = if method == "POST"@ && document is Some {
        document->0
    } else {
        json::JsonView::Null
    };
    Wish {
        method,
        path: path_of(url),
        token: body.text_field("token"@),
        uri: body.text_field("uri"@),
    }
}

/// What comes of a request.
pub ghost enum Outcome {
    /// It is answered at once.
    Answer(ReplyView),
    /// The track must be resolved first.
    Resolve(Seq<char>),
}

/// What comes of a request to a host with this token.
pub open spec fn outcome(token: Seq<char>, w: Wish) -> Outcome {
    let admitted = w.token == Some(token);
    if w.method == "GET"@ && w.path == "/info"@ {
        Outcome::Answer(info_reply())
    } else if w.method == "POST"@ && w.path == "/join"@ {
        if admitted {
            Outcome::Answer(joined_reply())
        } else {
            Outcome::Answer(error_reply(403, "invalid room token"@))
        }
    } else if w.method == "POST"@ && w.path == "/resolve"@ {
        if !admitted {
            Outcome::Answer(error_reply(403, "invalid room token"@))
        } else if w.uri is None || (w.uri->0).len() == 0 {
            Outcome::Answer(error_reply(400, "missing uri"@))
        } else {
            Outcome::Resolve(w.uri->0)
        }
    } else {
        Outcome::Answer(error_reply(404, "not found"@))
    }
}

/// Whether a request is a guest coming in.
pub open spec fn is_join(token: Seq<char>, w: Wish) -> bool {
    w.method == "POST"@ && w.path == "/join"@ && w.token == Some(token)
}

/// What comes of a request.
pub enum Handled {
    /// Send this answer.
    Answer(Reply),
    /// Resolve this track, then answer with what came of it.
    Resolve(String),
}

impl Handled {
    /// The model of this outcome.
    pub open spec fn view(self) -> Outcome {
        match self {
            Handled::Answer(reply) => Outcome::Answer(reply.view()),
            Handled::Resolve(uri) => Outcome::Resolve(uri@),
        }
    }
}

/// The path of a request: its url up to the query.
pub fn request_path(url: &str) -> (path: String)
    ensures
        path@ == path_of(url@),
{
    let chars = text::chars_of(url);
    let at = text::find_char(chars.as_slice(), '?');
    let head = vstd::slice::slice_subrange(chars.as_slice(), 0, at);
    assert(head@ =~= url@.take(at as int));
    text::string_of(head)
}

/// The host's own state: its token, its counters, and its resolves.
pub struct RoomHost {
    pub port: u16,
    pub token: String,
    pub joins: u64,
    pub resolves: u64,
    pub resolver: ResolveState,
}

/// The model of the text of an optional field.
pub open spec fn seen(field: Option<&String>) -> Option<Seq<char>> {
    match field {
        Some(s) => Some(s@),
        None => None,
    }
}

impl RoomHost {
    /// A host that nobody has joined.
    pub fn new(port: u16, token: String) -> (host: RoomHost)
        ensures
            host.port == port,
            host.token == token,
            host.joins == 0,
            host.resolves == 0,
            host.resolver@ == (crate::room::resolver::Flights {
                tracks: Map::empty(),
                waiting: Map::empty(),
                hits: 0,
                coalesced: 0,
                upstream: 0,
            }),
    {
        RoomHost { port, token, joins: 0, resolves: 0, resolver: ResolveState::new() }
    }

    /// A snapshot for the UI.
    pub fn info(&self) -> (info: HostInfo)
        ensures
            info.port == self.port,
            info.token@ == self.token@,
            info.resolves == self.resolves,
            info.joins == self.joins,
            info.cache_hits == self.resolver@.hits,
            info.coalesced == self.resolver@.coalesced,
            info.upstream == self.resolver@.upstream,
    {
        HostInfo {
            port: self.port,
            token: self.token.clone(),
            resolves: self.resolves,
            joins: self.joins,
            cache_hits: self.resolver.hits(),
            coalesced: self.resolver.coalesced(),
            upstream: self.resolver.upstream(),
        }
    }

    /// Put `fresh` in the place of the token, locking out everyone who holds
    /// the old one.
    pub fn replace_token(&mut self, fresh: String)
        ensures
            *final(self) == (RoomHost { token: fresh, ..*old(self) }),
    {
        self.token = fresh;
    }

    /// Mint a new token, invalidating every guest immediately.
    ///
    /// The counterpart to persistence: the token survives restarts, so there
    /// has to be a deliberate way to revoke one that leaked.
    pub fn rotate_token(&mut self) -> (fresh: String)
        ensures
            token::is_token(fresh@),
            final(self).token@ == fresh@,
            *final(self) == (RoomHost { token: final(self).token, ..*old(self) }),
    {
        let fresh = token::random_token();
        self.replace_token(fresh.clone());
        fresh
    }

    /// Apply the room's rules to a request.
    pub fn decide(
        &mut self,
        method: &str,
        path: &str,
        token: Option<&String>,
        uri: Option<&String>,
    ) -> (handled: Handled)
        ensures
            ({
                let w = Wish {
                    method: method@,
                    path: path@,
                    token: seen(token),
                    uri: seen(uri),
                };
                &&& handled.view() == outcome(old(self).token@, w)
                &&& *final(self) == (RoomHost {
                    joins: if is_join(old(self).token@, w) {
                        old(self).joins.wrapping_add(1)
                    } else {
                        old(self).joins
                    },
                    ..*old(self)
                })
            }),
    {
        proof {
            reveal_strlit("GET");
            reveal_strlit("POST");
            reveal_strlit("/join");
            reveal_strlit("/resolve");
            assert("GET"@.len() != "POST"@.len());
            assert("/join"@.len() != "/resolve"@.len());
        }
        let token_ok = match token {
            Some(t) => *t == self.token,
            None => false,
        };
        if text::same_text(method, "GET") && text::same_text(path, "/info") {
            return Handled::Answer(introduce());
        }
        if text::same_text(method, "POST") && text::same_text(path, "/join") {
            if !token_ok {
                return Handled::Answer(refuse(403, "invalid room token"));
            }
            self.joins = self.joins.wrapping_add(1);
            return Handled::Answer(reply1(200, "ok", Field::Flag(true)));
        }
        if text::same_text(method, "POST") && text::same_text(path, "/resolve") {
            if !token_ok {
                return Handled::Answer(refuse(403, "invalid room token"));
            }
            match uri {
                Some(uri) => {
                    if uri.as_str().unicode_len() == 0 {
                        return Handled::Answer(refuse(400, "missing uri"));
                    }
                    return Handled::Resolve(uri.clone());
                },
                None => {
                    return Handled::Answer(refuse(400, "missing uri"));
                },
            }
        }
        Handled::Answer(refuse(404, "not found"))
    }

    /// Take in a request: its method, its url, and the text of its body.
    pub fn handle(&mut self, method: &str, url: &str, body: &str) -> (handled: Handled)
        ensures
            ({
                let w = wish(method@, url@, json::json_document(body@));
                &&& handled.view() == outcome(old(self).token@, w)
                &&& *final(self) == (RoomHost {
                    joins: if is_join(old(self).token@, w) {
                        old(self).joins.wrapping_add(1)
                    } else {
                        old(self).joins
                    },
                    ..*old(self)
                })
            }),
    {
        let path = request_path(url);
        let document: Json = if text::same_text(method, "POST") {
            match json::parse(body) {
                Ok(document) => document,
                Err(_) => Json::Null,
            }
        } else {
            Json::Null
        };
        self.decide(
            method,
            path.as_str(),
            document.text_field("token"),
            document.text_field("uri"),
        )
    }

    /// The answer to a request whose track has been resolved, or has not.
    pub fn resolved(&mut self, uri: &str, result: &Result<Arc<Track>, String>) -> (reply: Reply)
        ensures
            match *result {
                Ok(track) => {
                    &&& reply.view() == track_reply(uri@, *track)
                    &&& *final(self) == (RoomHost {
                        resolves: old(self).resolves.wrapping_add(1),
                        ..*old(self)
                    })
                },
                Err(message) => {
                    &&& reply.view() == error_reply(400, "resolve failed: "@ + message@)
                    &&& *final(self) == *old(self)
                },
            },
    {
        match result {
            Ok(track) => {
                self.resolves = self.resolves.wrapping_add(1);
                let mut fields: Vec<(String, Field)> = Vec::new();
                fields.push(("track".to_owned(), Field::Text(uri.to_owned())));
                fields.push(("format".to_owned(), Field::Text(track.format.name())));
                fields.push(
                    ("key_hex".to_owned(), Field::Text(hex::hex_text(track.key.as_slice()))),
                );
                let urls = text::copy_texts(&track.urls);
                fields.push(("urls".to_owned(), Field::Texts(urls)));
                assert(json::object_view(fields@) =~= track_reply(uri@, **track).fields);
                Reply { status: 200, fields }
            },
            Err(message) => {
                let said = text::join2("resolve failed: ", message.as_str());
                refuse(400, said.as_str())
            },
        }
    }
}

/// The room service: whether a room is being hosted here, and which.
pub struct RoomHandle {
    pub host: Option<RoomHost>,
}

impl RoomHandle {
    /// Not hosting.
    pub fn new() -> (handle: RoomHandle)
        ensures
            handle.host is None,
    {
        RoomHandle { host: None }
    }

    /// Host a room, unless one is being hosted already.
    pub fn start_host(&mut self, port: u16, token: String) -> (out: Result<HostInfo, String>)
        ensures
            match out {
                Ok(info) => {
                    &&& old(self).host is None
                    &&& final(self).host is Some
                    &&& final(self).host->0.token == token
                    &&& final(self).host->0.port == port
                    &&& final(self).host->0.joins == 0
                    &&& final(self).host->0.resolves == 0
                    &&& final(self).host->0.resolver@ == (crate::room::resolver::Flights {
                        tracks: Map::empty(),
                        waiting: Map::empty(),
                        hits: 0,
                        coalesced: 0,
                        upstream: 0,
                    })
                    &&& info.port == port
                    &&& info.token@ == token@
                    &&& info.resolves == 0 && info.joins == 0
                    &&& info.cache_hits == 0 && info.coalesced == 0 && info.upstream == 0
                },
                Err(message) => {
                    &&& old(self).host is Some
                    &&& *final(self) == *old(self)
                    &&& message@ == "already hosting a room"@
                },
            },
    {
        if self.host.is_some() {
            return Err("already hosting a room".to_owned());
        }
        let host = RoomHost::new(port, token);
        let info = host.info();
        self.host = Some(host);
        Ok(info)
    }

    /// Stop hosting; the room that was open is handed back.
    pub fn stop_host(&mut self) -> (host: Option<RoomHost>)
        ensures
            host == old(self).host,
            final(self).host is None,
    {
        self.host.take()
    }

    /// Whether a room is being hosted.
    pub fn hosting(&self) -> (yes: bool)
        ensures
            yes == (self.host is Some),
    {
        self.host.is_some()
    }

    /// A snapshot of the hosted room.
    pub fn host_info(&self) -> (info: Option<HostInfo>)
        ensures
            match (info, self.host) {
                (Some(info), Some(host)) => {
                    &&& info.port == host.port
                    &&& info.token@ == host.token@
                    &&& info.resolves == host.resolves
                    &&& info.joins == host.joins
                    &&& info.cache_hits == host.resolver@.hits
                    &&& info.coalesced == host.resolver@.coalesced
                    &&& info.upstream == host.resolver@.upstream
                },
                (None, None) => true,
                _ => false,
            },
    {
        match &self.host {
            Some(host) => Some(host.info()),
            None => None,
        }
    }

    /// Rotate the room token, locking out anyone holding the old one. `None`
    /// when not hosting.
    pub fn rotate_token(&mut self) -> (fresh: Option<String>)
        ensures
            match (fresh, old(self).host) {
                (Some(fresh), Some(host)) => {
                    &&& token::is_token(fresh@)
                    &&& final(self).host is Some
                    &&& final(self).host->0.token@ == fresh@
                    &&& final(self).host->0 == (RoomHost {
                        token: final(self).host->0.token,
                        ..host
                    })
                },
                (None, None) => final(self).host is None,
                _ => false,
            },
    {
        match self.host.take() {
            Some(host) => {
                let mut host = host;
                let fresh = host.rotate_token();
                self.host = Some(host);
                Some(fresh)
            },
            None => None,
        }
    }
}

// ----------------------------------------------------------------------- laws

/// Whoever does not hold the token learns nothing but the server's
/// introduction: every other request is refused, and none is resolved.
pub proof fn law_without_the_token_nothing_is_resolved(token: Seq<char>, w: Wish)
    requires
        w.token != Some(token),
    ensures
        outcome(token, w) is Answer,
        ({
            let reply = outcome(token, w)->Answer_0;
            reply == info_reply() || reply == error_reply(403, "invalid room token"@) || reply
                == error_reply(404, "not found"@)
        }),
        !is_join(token, w),
{
}

/// Once the token has been replaced, the old one no longer opens the room.
pub proof fn law_a_rotated_token_locks_out_its_holders(stale: Seq<char>, fresh: Seq<char>, w: Wish)
    requires
        stale != fresh,
        w.token == Some(stale),
        w.method == "POST"@,
        w.path == "/join"@ || w.path == "/resolve"@,
    ensures
        outcome(fresh, w) == Outcome::Answer(error_reply(403, "invalid room token"@)),
{
    reveal_strlit("GET");
    reveal_strlit("POST");
    assert("GET"@.len() != "POST"@.len());
}

/// A request goes to the path of its url, whatever query is behind it.
pub proof fn law_a_query_does_not_change_the_path(path: Seq<char>, query: Seq<char>)
    requires
        text::lacks(path, '?'),
    ensures
        path_of(path) == path,
        path_of(path + seq!['?'] + query) == path,
{
    let url = path + seq!['?'] + query;
    text::lemma_first_index(path, '?', path.len() as int);
    assert forall|j: int| 0 <= j < path.len() implies url[j] != '?' by {
        assert(url[j] == path[j]);
    }
    text::lemma_first_index(url, '?', path.len() as int);
    assert(path.take(path.len() as int) =~= path);
    assert(url.take(path.len() as int) =~= path);
}

/// What is asked for is what the body of a `POST` says; any other request, and
/// one whose body is no document, says nothing.
pub proof fn law_only_a_post_has_a_body(
    method: Seq<char>,
    url: Seq<char>,
    doc: json::JsonView,
)
    ensures
        wish("POST"@, url, Some(doc)).token == doc.text_field("token"@),
        wish("POST"@, url, Some(doc)).uri == doc.text_field("uri"@),
        wish(method, url, Some(doc)).method == method,
        wish(method, url, Some(doc)).path == path_of(url),
        wish(method, url, None).token is None && wish(method, url, None).uri is None,
        method != "POST"@ ==> wish(method, url, Some(doc)).token is None && wish(
            method,
            url,
            Some(doc),
        ).uri is None,
{
}

/// What each request is answered: the introduction to anyone, a welcome or a
/// track to whoever holds the token, and otherwise what was wrong, under the
/// status that says so.
pub proof fn law_every_request_is_answered(token: Seq<char>, w: Wish)
    ensures
        w.method == "GET"@ && w.path == "/info"@ ==> outcome(token, w) == Outcome::Answer(
            info_reply(),
        ),
        w.method == "POST"@ && w.path == "/join"@ && w.token == Some(token) ==> outcome(token, w)
            == Outcome::Answer(joined_reply()),
        w.method == "POST"@ && (w.path == "/join"@ || w.path == "/resolve"@) && w.token != Some(
            token,
        ) ==> outcome(token, w) == Outcome::Answer(error_reply(403, "invalid room token"@)),
        w.method == "POST"@ && w.path == "/resolve"@ && w.token == Some(token) ==> {
            &&& w.uri is Some && w.uri->0.len() > 0 ==> outcome(token, w) == Outcome::Resolve(
                w.uri->0,
            )
            &&& w.uri is None || w.uri->0.len() == 0 ==> outcome(token, w) == Outcome::Answer(
                error_reply(400, "missing uri"@),
            )
        },
        !(w.method == "GET"@ && w.path == "/info"@) && !(w.method == "POST"@ && (w.path == "/join"@
            || w.path == "/resolve"@)) ==> outcome(token, w) == Outcome::Answer(
            error_reply(404, "not found"@),
        ),
        is_join(token, w) <==> w.method == "POST"@ && w.path == "/join"@ && w.token == Some(token),
{
    reveal_strlit("GET");
    reveal_strlit("POST");
    reveal_strlit("/join");
    reveal_strlit("/resolve");
    assert("GET"@.len() != "POST"@.len());
    assert("/join"@.len() != "/resolve"@.len());
}

/// What an answer says, field by field.
pub proof fn law_what_an_answer_says(status: u16, message: Seq<char>, uri: Seq<char>, track: Track)
    ensures
        error_reply(status, message).status == status,
        error_reply(status, message).fields == seq![
            ("error"@, json::FieldView::Text(message)),
        ],
        joined_reply().status == 200,
        joined_reply().fields == seq![("ok"@, json::FieldView::Flag(true))],
        info_reply().status == 200,
        info_reply().fields.len() == 4,
        info_reply().fields[0] == ("app"@, json::FieldView::Text("myx"@)),
        info_reply().fields[1] == ("room"@, json::FieldView::Text("0.1"@)),
        info_reply().fields[2] == ("join"@, json::FieldView::Text("/join"@)),
        info_reply().fields[3] == ("resolve"@, json::FieldView::Text("/resolve"@)),
        track_reply(uri, track).status == 200,
        track_reply(uri, track).fields.len() == 4,
        track_reply(uri, track).fields[0] == ("track"@, json::FieldView::Text(uri)),
        ROOM_PORT == 8787,
{
}

/// What is modelled of a reply and of a handled request is what it holds.
pub proof fn law_a_reply_is_modelled_whole(reply: Reply, handled: Handled)
    ensures
        reply.view().status == reply.status,
        reply.view().fields == json::object_view(reply.fields@),
        handled matches Handled::Answer(r) ==> handled.view() == Outcome::Answer(r.view()),
        handled matches Handled::Resolve(uri) ==> handled.view() == Outcome::Resolve(uri@),
{
}

/// A field that may be absent is modelled as it is.
pub proof fn law_a_field_is_seen_as_it_is(field: Option<&String>)
    ensures
        field is None <==> seen(field) is None,
        field matches Some(s) ==> seen(field) == Some(s@),
{
}

} // verus!
