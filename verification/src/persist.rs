//! What survives a restart: volume, modes, the last track, the queue, and where
//! playback came from.

use crate::playback::NowPlaying;
use crate::playback::PlaybackState;
use vstd::prelude::*;

verus! {

/// What kind of thing is currently playing — persisted so the real context (and
/// its live queue) can be resumed on reboot, not just a bare track.
#[derive(Debug)]
pub enum PlaySource {
    /// No known context.
    Unknown,
    /// Playlist / album / artist URI.
    Context(String),
    /// Seed track URI.
    Radio(String),
    Liked,
}

/// The model of a play source.
pub ghost enum SourceView {
    Unknown,
    Context(Seq<char>),
    Radio(Seq<char>),
    Liked,
}

impl PlaySource {
    /// The model of this source.
    pub open spec fn view(self) -> SourceView {
        match self {
            PlaySource::Unknown => SourceView::Unknown,
            PlaySource::Context(uri) => SourceView::Context(uri@),
            PlaySource::Radio(uri) => SourceView::Radio(uri@),
            PlaySource::Liked => SourceView::Liked,
        }
    }
}

impl Clone for PlaySource {
    fn clone(&self) -> (copy: PlaySource)
        ensures
            copy == *self,
    {
        match self {
            PlaySource::Unknown => PlaySource::Unknown,
            PlaySource::Context(uri) => PlaySource::Context(uri.clone()),
            PlaySource::Radio(uri) => PlaySource::Radio(uri.clone()),
            PlaySource::Liked => PlaySource::Liked,
        }
    }
}

/// The last track of a session.
#[derive(Debug)]
pub struct LastPlayed {
    pub uri: String,
    pub title: String,
    pub artist: String,
    pub album: String,
    pub duration_ms: u32,
    pub position_ms: u32,
}

/// Persisted across sessions.
#[derive(Debug)]
pub struct SavedState {
    pub volume: u8,
    pub shuffle: bool,
    pub repeat: bool,
    pub last_played: Option<LastPlayed>,
    pub queue: Vec<String>,
    pub queue_uris: Vec<String>,
    pub source: PlaySource,
    pub source_name: String,
}

/// The volume a session starts with: the saved one, and a sensible one where
/// none was saved.
pub open spec fn start_volume(saved: u8) -> u8 {
    if saved == 0 {
        80
    } else if saved > 100 {
        100
    } else {
        saved
    }
}

/// The volume a session starts with.
pub fn initial_volume(saved: u8) -> (volume: u8)
    ensures
        volume == start_volume(saved),
        0 < volume <= 100,
{
    if saved == 0 {
        80
    } else if saved > 100 {
        100
    } else {
        saved
    }
}

impl SavedState {
    /// What a session that was never saved starts from.
    pub fn fresh() -> (saved: SavedState)
        ensures
            saved.volume == 0,
            !saved.shuffle,
            !saved.repeat,
            saved.last_played is None,
            saved.queue@ == Seq::<String>::empty(),
            saved.queue_uris@ == Seq::<String>::empty(),
            saved.source is Unknown,
            saved.source_name@ == Seq::<char>::empty(),
    {
        SavedState {
            volume: 0,
            shuffle: false,
            repeat: false,
            last_played: None,
            queue: Vec::new(),
            queue_uris: Vec::new(),
            source: PlaySource::Unknown,
            source_name: String::new(),
        }
    }

    /// The last track, shown paused where it was left.
    pub fn restored(&self, clock: u64) -> (now: Option<NowPlaying>)
        ensures
            match self.last_played {
                Some(last) => now == Some(
                    NowPlaying {
                        uri: last.uri,
                        title: last.title,
                        artist: last.artist,
                        album: last.album,
                        duration_ms: last.duration_ms,
                        position_ms: last.position_ms,
                        position_at: clock,
                        is_playing: false,
                    },
                ),
                None => now is None,
            },
    {
        match &self.last_played {
            Some(last) => Some(
                NowPlaying {
                    uri: last.uri.clone(),
                    title: last.title.clone(),
                    artist: last.artist.clone(),
                    album: last.album.clone(),
                    duration_ms: last.duration_ms,
                    position_ms: last.position_ms,
                    position_at: clock,
                    is_playing: false,
                },
            ),
            None => None,
        }
    }
}

/// The last track of a session, where its playhead stands now.
pub fn last_played(playback: &PlaybackState, clock: u64) -> (last: Option<LastPlayed>)
    requires
        playback.countable(clock),
    ensures
        match playback.now {
            Some(n) => last == Some(
                LastPlayed {
                    uri: n.uri,
                    title: n.title,
                    artist: n.artist,
                    album: n.album,
                    duration_ms: n.duration_ms,
                    position_ms: playback.head(clock) as u32,
                },
            ),
            None => last is None,
        },
{
    let position_ms = playback.position_ms(clock);
    match &playback.now {
        Some(n) => Some(
            LastPlayed {
                uri: n.uri.clone(),
                title: n.title.clone(),
                artist: n.artist.clone(),
                album: n.album.clone(),
                duration_ms: n.duration_ms,
                position_ms,
            },
        ),
        None => None,
    }
}

/// What is modelled of a source is what it holds.
pub proof fn law_a_source_is_modelled_whole(source: PlaySource)
    ensures
        match source {
            PlaySource::Unknown => source.view() is Unknown,
            PlaySource::Context(uri) => source.view() == SourceView::Context(uri@),
            PlaySource::Radio(uri) => source.view() == SourceView::Radio(uri@),
            PlaySource::Liked => source.view() is Liked,
        },
{
}

/// A saved volume is kept as it is, up to the loudest there is. One of zero, as
/// none was saved, becomes eighty percent.
pub proof fn law_a_saved_volume_is_kept(saved: u8)
    ensures
        0 < saved <= 100 ==> start_volume(saved) == saved,
        saved >= 100 ==> start_volume(saved) == 100,
        saved == 0 ==> start_volume(saved) == 80,
{
}

} // verus!
