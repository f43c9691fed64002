//! What an audio backend reports to the UI.

use vstd::prelude::*;

verus! {

/// A playback event. Every backend speaks in these, so the UI treats them all
/// alike.
#[derive(Debug)]
pub enum EngineEvent {
    TrackChanged { uri: String },
    Playing { uri: String, position_ms: u32 },
    Paused { uri: String, position_ms: u32 },
    Stopped,
    /// An authoritative position, to correct the playhead by.
    PositionCorrection { uri: String, position_ms: u32 },
    /// The session was lost and is being re-established.
    Reconnecting,
    Reconnected,
    EndOfTrack { uri: String },
}

/// The model of a playback event.
pub ghost enum EngineEventView {
    TrackChanged { uri: Seq<char> },
    Playing { uri: Seq<char>, position_ms: u32 },
    Paused { uri: Seq<char>, position_ms: u32 },
    Stopped,
    PositionCorrection { uri: Seq<char>, position_ms: u32 },
    Reconnecting,
    Reconnected,
    EndOfTrack { uri: Seq<char> },
}

impl EngineEvent {
    /// The model of this event.
    pub open spec fn view(self) -> EngineEventView {
        match self {
            EngineEvent::TrackChanged { uri } => EngineEventView::TrackChanged { uri: uri@ },
            EngineEvent::Playing { uri, position_ms } => EngineEventView::Playing {
                uri: uri@,
                position_ms,
            },
            EngineEvent::Paused { uri, position_ms } => EngineEventView::Paused {
                uri: uri@,
                position_ms,
            },
            EngineEvent::Stopped => EngineEventView::Stopped,
            EngineEvent::PositionCorrection { uri, position_ms } =>
                EngineEventView::PositionCorrection { uri: uri@, position_ms },
            EngineEvent::Reconnecting => EngineEventView::Reconnecting,
            EngineEvent::Reconnected => EngineEventView::Reconnected,
            EngineEvent::EndOfTrack { uri } => EngineEventView::EndOfTrack { uri: uri@ },
        }
    }
}

impl Clone for EngineEvent {
    fn clone(&self) -> (copy: EngineEvent)
        ensures
            copy == *self,
    {
        match self {
            EngineEvent::TrackChanged { uri } => EngineEvent::TrackChanged { uri: uri.clone() },
            EngineEvent::Playing { uri, position_ms } => EngineEvent::Playing {
                uri: uri.clone(),
                position_ms: *position_ms,
            },
            EngineEvent::Paused { uri, position_ms } => EngineEvent::Paused {
                uri: uri.clone(),
                position_ms: *position_ms,
            },
            EngineEvent::Stopped => EngineEvent::Stopped,
            EngineEvent::PositionCorrection { uri, position_ms } =>
                EngineEvent::PositionCorrection { uri: uri.clone(), position_ms: *position_ms },
            EngineEvent::Reconnecting => EngineEvent::Reconnecting,
            EngineEvent::Reconnected => EngineEvent::Reconnected,
            EngineEvent::EndOfTrack { uri } => EngineEvent::EndOfTrack { uri: uri.clone() },
        }
    }
}

/// What is modelled of an event is what it holds.
pub proof fn law_an_event_is_modelled_whole(ev: EngineEvent)
    ensures
        match ev {
            EngineEvent::TrackChanged { uri } => ev.view() == (EngineEventView::TrackChanged {
                uri: uri@,
            }),
            EngineEvent::Playing { uri, position_ms } => {
                &&& ev.view() matches EngineEventView::Playing { uri: u, position_ms: p }
                &&& u == uri@ && p == position_ms
            },
            EngineEvent::Paused { uri, position_ms } => {
                &&& ev.view() matches EngineEventView::Paused { uri: u, position_ms: p }
                &&& u == uri@ && p == position_ms
            },
            EngineEvent::Stopped => ev.view() is Stopped,
            EngineEvent::PositionCorrection { uri, position_ms } => {
                &&& ev.view() matches EngineEventView::PositionCorrection {
                    uri: u,
                    position_ms: p,
                }
                &&& u == uri@ && p == position_ms
            },
            EngineEvent::Reconnecting => ev.view() is Reconnecting,
            EngineEvent::Reconnected => ev.view() is Reconnected,
            EngineEvent::EndOfTrack { uri } => ev.view() == (EngineEventView::EndOfTrack {
                uri: uri@,
            }),
        },
{
}

} // verus!
