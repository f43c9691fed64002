//! The listening room as the keys see it. Hosting and joining are mutually
//! exclusive: a guest never hosts, a host never guests.

use crate::app::play::track_uris;
use crate::app::play::uris_of_tracks;
use crate::json;
use crate::library;
use crate::library::LibItem;
use crate::text;
use crate::ui::room::RoomInput;
use crate::ui::room::RoomMode;
use crate::ui::room::RoomState;
use vstd::prelude::*;

verus! {

/// The keys of the Room view.
#[derive(Clone, Copy, PartialEq, Eq, Structural, Debug)]
pub enum RoomKey {
    /// `h`
    Host,
    /// `J`
    Join,
    /// `L`
    Leave,
    /// `T`
    NewToken,
}

/// What a key of the Room view asks for.
#[derive(Clone, Copy, PartialEq, Eq, Structural, Debug)]
pub enum RoomRequest {
    Nothing,
    /// Open the room to guests.
    StartHost,
    /// Close the room.
    StopHost,
    /// Lock out the current guests.
    RotateToken,
    /// Leave the room that was joined.
    LeaveRoom,
}

/// What a key asks for. A guest who presses `h`, and a host who presses `J`,
/// get nothing.
pub open spec fn asked_by(mode: RoomMode, key: RoomKey) -> RoomRequest {
    match (key, mode) {
        (RoomKey::Host, RoomMode::Idle) => RoomRequest::StartHost,
        (RoomKey::Host, RoomMode::Host) => RoomRequest::StopHost,
        (RoomKey::Leave, RoomMode::Host) => RoomRequest::StopHost,
        (RoomKey::Leave, RoomMode::Guest) => RoomRequest::LeaveRoom,
        (RoomKey::NewToken, RoomMode::Host) => RoomRequest::RotateToken,
        _ => RoomRequest::Nothing,
    }
}

impl RoomState {
    /// The state once a key has been pressed: what is closed or left is so at
    /// once, and `J` opens the form.
    pub open spec fn pressed(self, key: RoomKey) -> RoomState {
        if asked_by(self.mode, key) is StopHost || asked_by(self.mode, key) is LeaveRoom {
            RoomState { mode: RoomMode::Idle, ..self }
        } else if key is Join && !(self.mode is Host) {
            RoomState { input: Some(RoomInput::Url), ..self }
        } else {
            self
        }
    }

    /// The state once a room has been opened here, unless one was joined in the
    /// meantime.
    pub open spec fn hosting(self) -> RoomState {
        if self.mode is Guest {
            self
        } else {
            RoomState { mode: RoomMode::Host, ..self }
        }
    }

    /// The state once a room has been joined, unless one was opened here in the
    /// meantime.
    pub open spec fn guesting(self) -> RoomState {
        if self.mode is Host {
            self
        } else {
            RoomState { mode: RoomMode::Guest, ..self }
        }
    }

    /// A key of the Room view was pressed.
    pub fn press(&mut self, key: RoomKey) -> (request: RoomRequest)
        ensures
            request == asked_by(old(self).mode, key),
            *final(self) == old(self).pressed(key),
    {
        match (key, self.mode) {
            (RoomKey::Host, RoomMode::Idle) => RoomRequest::StartHost,
            (RoomKey::Host, RoomMode::Host) | (RoomKey::Leave, RoomMode::Host) => {
                self.mode = RoomMode::Idle;
                RoomRequest::StopHost
            },
            (RoomKey::Leave, RoomMode::Guest) => {
                self.mode = RoomMode::Idle;
                RoomRequest::LeaveRoom
            },
            (RoomKey::NewToken, RoomMode::Host) => RoomRequest::RotateToken,
            (RoomKey::Join, RoomMode::Idle) | (RoomKey::Join, RoomMode::Guest) => {
                self.input = Some(RoomInput::Url);
                RoomRequest::Nothing
            },
            _ => RoomRequest::Nothing,
        }
    }

    /// A room has been opened here; whether it may stay open.
    pub fn hosted(&mut self) -> (stays: bool)
        ensures
            stays == !(old(self).mode is Guest),
            *final(self) == old(self).hosting(),
    {
        match self.mode {
            RoomMode::Guest => false,
            _ => {
                self.mode = RoomMode::Host;
                true
            },
        }
    }

    /// A room has been joined; whether it may be stayed in.
    pub fn joined(&mut self) -> (stays: bool)
        ensures
            stays == !(old(self).mode is Host),
            *final(self) == old(self).guesting(),
    {
        match self.mode {
            RoomMode::Host => false,
            _ => {
                self.mode = RoomMode::Guest;
                true
            },
        }
    }
}

// ------------------------------------------------------------------ the queue

/// Where `uri` first stands in `queue`, from `from` on; the beginning where it
/// does not.
pub open spec fn place_in(queue: Seq<Seq<char>>, uri: Seq<char>, from: int) -> int
    decreases queue.len() - from,
{
    if from < 0 || from >= queue.len() {
        0
    } else if queue[from] == uri {
        from
    } else {
        place_in(queue, uri, from + 1)
    }
}

impl RoomState {
    /// Line up the tracks of a list, beginning with `uri`.
    pub fn line_up(&mut self, items: &Vec<LibItem>, uri: &str)
        ensures
            json::texts(final(self).queue@) == track_uris(library::rows(items@)),
            final(self).queue_index == place_in(json::texts(final(self).queue@), uri@, 0),
            *final(self) == (RoomState {
                queue: final(self).queue,
                queue_index: final(self).queue_index,
                ..*old(self)
            }),
    {
        let queue = uris_of_tracks(items);
        let ghost list = json::texts(queue@);
        let mut at: usize = 0;
        let mut found = false;
        while at < queue.len() && !found
            invariant
                at <= queue@.len(),
                list == json::texts(queue@),
                place_in(list, uri@, 0) == place_in(list, uri@, at as int),
                found ==> at < queue@.len() && list[at as int] == uri@,
            decreases queue@.len() - at,
                if found {
                    0int
                } else {
                    1int
                },
        {
            assert(list[at as int] == queue@[at as int]@);
            if text::same_text(queue[at].as_str(), uri) {
                found = true;
            } else {
                at += 1;
            }
        }
        self.queue_index = if found {
            at
        } else {
            0
        };
        self.queue = queue;
    }

    /// Go on to another track of the queue; none where the queue does not reach
    /// that far.
    pub fn skip(&mut self, by: isize) -> (uri: Option<String>)
        ensures
            ({
                let at = old(self).queue_index + by;
                if 0 <= at < old(self).queue@.len() {
                    &&& uri == Some(old(self).queue@[at])
                    &&& *final(self) == (RoomState { queue_index: at as usize, ..*old(self) })
                } else {
                    uri is None && *final(self) == *old(self)
                }
            }),
    {
        let at: i128 = self.queue_index as i128 + by as i128;
        if at < 0 || at >= self.queue.len() as i128 {
            return None;
        }
        self.queue_index = at as usize;
        Some(self.queue[at as usize].clone())
    }
}

// ----------------------------------------------------------------------- laws

/// A guest never hosts and a host never guests: whatever is pressed, and
/// whichever answer comes late, neither turns into the other without being idle
/// in between.
pub proof fn law_a_guest_never_hosts(room: RoomState, key: RoomKey)
    ensures
        room.mode is Guest ==> !(room.pressed(key).mode is Host) && !(room.hosting().mode is Host)
            && !(asked_by(room.mode, key) is StartHost),
        room.mode is Host ==> !(room.pressed(key).mode is Guest) && !(room.guesting().mode is Guest)
            && room.pressed(key).input == room.input,
{
}

/// What each key asks for: an idle player opens a room, a host closes it or
/// changes its token, a guest leaves; every other press asks for nothing.
pub proof fn law_the_keys_of_a_room(key: RoomKey)
    ensures
        asked_by(RoomMode::Idle, key) is StartHost <==> key is Host,
        asked_by(RoomMode::Idle, key) is Nothing <==> !(key is Host),
        asked_by(RoomMode::Host, key) is StopHost <==> key is Host || key is Leave,
        asked_by(RoomMode::Host, key) is RotateToken <==> key is NewToken,
        asked_by(RoomMode::Host, key) is Nothing <==> key is Join,
        asked_by(RoomMode::Guest, key) is LeaveRoom <==> key is Leave,
        asked_by(RoomMode::Guest, key) is Nothing <==> !(key is Leave),
{
}

/// Closing or leaving a room is done at once, asking to join opens the form at
/// its address, and no press touches anything else.
pub proof fn law_a_press_changes_the_mode_or_the_form(room: RoomState, key: RoomKey)
    ensures
        ({
            let after = room.pressed(key);
            &&& after == (RoomState { mode: after.mode, input: after.input, ..room })
            &&& (room.mode is Host && (key is Host || key is Leave)) || (room.mode is Guest
                && key is Leave) ==> after.mode is Idle && after.input == room.input
            &&& key is Join && !(room.mode is Host) ==> after.mode == room.mode && after.input
                == Some(RoomInput::Url)
            &&& key is NewToken ==> after == room
            &&& key is Host && !(room.mode is Host) ==> after == room
            &&& key is Leave && room.mode is Idle ==> after == room
            &&& key is Join && room.mode is Host ==> after == room
        }),
        !(room.mode is Guest) ==> room.hosting() == (RoomState { mode: RoomMode::Host, ..room }),
        !(room.mode is Host) ==> room.guesting() == (RoomState { mode: RoomMode::Guest, ..room }),
        room.mode is Guest ==> room.hosting() == room,
        room.mode is Host ==> room.guesting() == room,
{
}

/// A track is found where it stands first in the queue; one that is not there
/// begins the queue at its beginning.
pub proof fn law_the_queue_begins_where_the_track_stands(
    queue: Seq<Seq<char>>,
    uri: Seq<char>,
    k: int,
)
    requires
        0 <= k < queue.len() ==> queue[k] == uri,
        0 <= k <= queue.len(),
        forall|i: int| 0 <= i < k ==> queue[i] != uri,
    ensures
        k < queue.len() ==> place_in(queue, uri, 0) == k,
        k == queue.len() ==> place_in(queue, uri, 0) == 0,
{
    lemma_place_in(queue, uri, 0, k);
}

proof fn lemma_place_in(queue: Seq<Seq<char>>, uri: Seq<char>, from: int, k: int)
    requires
        0 <= from <= k <= queue.len(),
        k < queue.len() ==> queue[k] == uri,
        forall|i: int| 0 <= i < k ==> queue[i] != uri,
    ensures
        k < queue.len() ==> place_in(queue, uri, from) == k,
        k == queue.len() ==> place_in(queue, uri, from) == 0,
    decreases queue.len() - from,
{
    if from < k {
        assert(queue[from] != uri);
        lemma_place_in(queue, uri, from + 1, k);
    }
}

} // verus!
