//! The guest side of the room's HTTP: what is sent, and what the answers mean.

use crate::hex;
use crate::json;
use crate::json::Field;
use crate::room::host;
use crate::room::resolver::Track;
use crate::text;
use vstd::prelude::*;

verus! {

/// How a guest reaches a room: the host's address and the room's token.
#[derive(Debug)]
pub struct RoomClient {
    pub url: String,
    pub token: String,
}

impl Clone for RoomClient {
    fn clone(&self) -> (copy: RoomClient)
        ensures
            copy == *self,
    {
        RoomClient { url: self.url.clone(), token: self.token.clone() }
    }
}

/// The signed-url + key payload the host mints and the guest plays.
#[derive(Debug)]
pub struct ResolvedTrack {
    pub track: String,
    pub format: String,
    pub key_hex: String,
    pub urls: Vec<String>,
}

/// The fields that a guest sends to come in.
pub open spec fn join_fields(token: Seq<char>) -> Seq<(Seq<char>, json::FieldView)> {
    seq![("token"@, json::FieldView::Text(token))]
}

/// The fields that a guest sends to have a track resolved.
pub open spec fn resolve_fields(token: Seq<char>, uri: Seq<char>) -> Seq<
    (Seq<char>, json::FieldView),
> {
    seq![("token"@, json::FieldView::Text(token)), ("uri"@, json::FieldView::Text(uri))]
}

impl RoomClient {
    /// Where to send a request to come in.
    pub fn join_url(&self) -> (url: String)
        ensures
            url@ == "http://"@ + self.url@ + "/join"@,
    {
        text::join3("http://", self.url.as_str(), "/join")
    }

    /// Where to send a request for a track.
    pub fn resolve_url(&self) -> (url: String)
        ensures
            url@ == "http://"@ + self.url@ + "/resolve"@,
    {
        text::join3("http://", self.url.as_str(), "/resolve")
    }

    /// The body of a request to come in.
    pub fn join_body(&self) -> (body: String)
        ensures
            body@ == json::json_text(join_fields(self.token@)),
            json::reads_back(body@, join_fields(self.token@)),
    {
        let mut fields: Vec<(String, Field)> = Vec::new();
        fields.push(("token".to_owned(), Field::Text(self.token.clone())));
        assert(json::object_view(fields@) =~= join_fields(self.token@));
        json::object_text(&fields)
    }

    /// The body of a request for a track.
    pub fn resolve_body(&self, uri: &str) -> (body: String)
        ensures
            body@ == json::json_text(resolve_fields(self.token@, uri@)),
            json::reads_back(body@, resolve_fields(self.token@, uri@)),
    {
        let mut fields: Vec<(String, Field)> = Vec::new();
        fields.push(("token".to_owned(), Field::Text(self.token.clone())));
        fields.push(("uri".to_owned(), Field::Text(uri.to_owned())));
        assert(json::object_view(fields@) =~= resolve_fields(self.token@, uri@));
        json::object_text(&fields)
    }
}

/// A failure as the guest reports it: what failed, the status, the reply.
pub open spec fn failed_message(what: Seq<char>, status: u16, reply: Seq<char>) -> Seq<char> {
    what + " failed (HTTP "@ + text::decimal(status as nat) + "): "@ + reply
}

fn failure(what: &str, status: u16, reply: &str) -> (message: String)
    ensures
        message@ == failed_message(what@, status, reply@),
{
    let code = text::decimal_text(status as u64);
    let head = text::join3(what, " failed (HTTP ", code.as_str());
    text::join3(head.as_str(), "): ", reply)
}

/// What the answer to a request to come in means.
pub fn join_outcome(status: u16, reply: &str) -> (out: Result<(), String>)
    ensures
        match out {
            Ok(_) => status == 200,
            Err(message) => {
                &&& status != 200
                &&& status == 403 ==> message@ == "invalid room token"@
                &&& status != 403 ==> message@ == failed_message("join"@, status, reply@)
            },
        },
{
    if status == 200 {
        Ok(())
    } else if status == 403 {
        Err("invalid room token".to_owned())
    } else {
        Err(failure("join", status, reply))
    }
}

/// Whether the answer to a request for a track carries one.
pub fn resolve_outcome(status: u16, reply: &str) -> (out: Result<(), String>)
    ensures
        match out {
            Ok(_) => status == 200,
            Err(message) => {
                &&& status != 200
                &&& message@ == failed_message("resolve"@, status, reply@)
            },
        },
{
    if status == 200 {
        Ok(())
    } else {
        Err(failure("resolve", status, reply))
    }
}

// ----------------------------------------------------------------------- laws

/// A guest who holds the host's token is let in: the body it sends to `/join`
/// is one that the host admits.
pub proof fn law_the_token_opens_the_room(token: Seq<char>, body: Seq<char>)
    requires
        json::reads_back(body, join_fields(token)),
    ensures
        ({
            let w = host::wish("POST"@, "/join"@, json::json_document(body));
            host::outcome(token, w) == host::Outcome::Answer(host::joined_reply()) && host::is_join(
                token,
                w,
            )
        }),
{
    reveal_strlit("GET");
    reveal_strlit("POST");
    assert("GET"@.len() != "POST"@.len());
    reveal_strlit("/join");
    text::lemma_first_index("/join"@, '?', 5);
    assert("/join"@.take(5) =~= "/join"@);
    assert(join_fields(token)[0].0 == "token"@);
}

/// A guest who holds the host's token has its track resolved, whatever the
/// track, unless it names none.
pub proof fn law_the_token_resolves_any_track(token: Seq<char>, uri: Seq<char>, body: Seq<char>)
    requires
        json::reads_back(body, resolve_fields(token, uri)),
        uri.len() > 0,
    ensures
        host::outcome(token, host::wish("POST"@, "/resolve"@, json::json_document(body)))
            == host::Outcome::Resolve(uri),
{
    reveal_strlit("GET");
    reveal_strlit("POST");
    assert("GET"@.len() != "POST"@.len());
    reveal_strlit("/resolve");
    reveal_strlit("/join");
    assert("/join"@.len() != "/resolve"@.len());
    text::lemma_first_index("/resolve"@, '?', 8);
    assert("/resolve"@.take(8) =~= "/resolve"@);
    reveal_strlit("token");
    reveal_strlit("uri");
    assert("token"@.len() != "uri"@.len());
    let fields = resolve_fields(token, uri);
    assert(fields[0].0 == "token"@);
    assert(fields[1].0 == "uri"@);
}

/// A resolved track arrives whole: what a guest reads in the host's answer is
/// the track it asked for, with its format and its urls, and a key whose digits
/// spell the one that decrypts it.
pub proof fn law_a_resolved_track_arrives_whole(uri: Seq<char>, track: Track, body: Seq<char>)
    requires
        json::reads_back(body, host::track_reply(uri, track).fields),
    ensures
        ({
            let key_hex = hex::hex_of(track.key@);
            match json::json_document(body) {
                Some(doc) => {
                    &&& doc.text_field("track"@) == Some(uri)
                    &&& doc.text_field("format"@) == Some(track.format.name_view())
                    &&& doc.text_field("key_hex"@) == Some(key_hex)
                    &&& doc.list_field("urls"@) == Some(
                        json::texts(track.urls@).map_values(
                            |url: Seq<char>| json::JsonView::Text(url),
                        ),
                    )
                    &&& hex::spells_bytes(vstd::utf8::encode_utf8(key_hex), 16)
                    &&& hex::bytes_spelled(vstd::utf8::encode_utf8(key_hex)) == track.key@
                },
                None => false,
            }
        }),
{
    reveal_strlit("track");
    reveal_strlit("format");
    reveal_strlit("key_hex");
    reveal_strlit("urls");
    assert("track"@.len() == 5 && "format"@.len() == 6 && "key_hex"@.len() == 7 && "urls"@.len()
        == 4);
    let fields = host::track_reply(uri, track).fields;
    assert(fields[0].0 == "track"@);
    assert(fields[1].0 == "format"@);
    assert(fields[2].0 == "key_hex"@);
    assert(fields[3].0 == "urls"@);
    hex::law_hex_reads_back(track.key@);
}

/// A failure says what failed, under which status, and what was replied.
pub proof fn law_a_failure_says_what_was_replied(what: Seq<char>, status: u16, reply: Seq<char>)
    ensures
        ({
            let message = failed_message(what, status, reply);
            &&& text::begins_with(message, what)
            &&& text::contains_text(message, text::decimal(status as nat))
            &&& text::contains_text(message, reply)
            &&& message == what + " failed (HTTP "@ + text::decimal(status as nat) + "): "@ + reply
        }),
{
    let code = text::decimal(status as nat);
    let none = Seq::<char>::empty();
    let message = failed_message(what, status, reply);
    text::law_what_is_put_in_is_found(none, what, " failed (HTTP "@ + code + "): "@ + reply);
    assert(message =~= what + (" failed (HTTP "@ + code + "): "@ + reply));
    text::law_what_is_put_in_is_found(what + " failed (HTTP "@, code, "): "@ + reply);
    assert(message =~= what + " failed (HTTP "@ + code + ("): "@ + reply));
    text::law_what_is_put_in_is_found(what + " failed (HTTP "@ + code + "): "@, reply, none);
    assert(message =~= what + " failed (HTTP "@ + code + "): "@ + reply + none);
}

} // verus!
