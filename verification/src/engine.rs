//! The engine: which stream is played, and which events it gives out.
//!
//! The sound itself, and the requests for it, are outside.

use vstd::prelude::*;
use crate::app::TRACK;
use crate::subsonic::{request_url, SubsonicClient};
use crate::text::{join2, view_opt, views};

verus! {

/// A normalized playback event surfaced to the UI event loop.
#[derive(Debug)]
pub enum EngineEvent {
    TrackChanged { uri: String },
    Playing { uri: String, position_ms: u32 },
    Paused { uri: String, position_ms: u32 },
    Stopped,
    EndOfTrack { uri: String },
    PositionCorrection { uri: String, position_ms: u32 },
}

pub enum EngineEventView {
    TrackChanged { uri: Seq<char> },
    Playing { uri: Seq<char>, position_ms: u32 },
    Paused { uri: Seq<char>, position_ms: u32 },
    Stopped,
    EndOfTrack { uri: Seq<char> },
    PositionCorrection { uri: Seq<char>, position_ms: u32 },
}

impl View for EngineEvent {
    type V = EngineEventView;

    open spec fn view(&self) -> EngineEventView {
        match self {
            EngineEvent::TrackChanged { uri } => EngineEventView::TrackChanged { uri: uri@ },
            EngineEvent::Playing { uri, position_ms } => EngineEventView::Playing {
                uri: uri@,
                position_ms: *position_ms,
            },
            EngineEvent::Paused { uri, position_ms } => EngineEventView::Paused {
                uri: uri@,
                position_ms: *position_ms,
            },
            EngineEvent::Stopped => EngineEventView::Stopped,
            EngineEvent::EndOfTrack { uri } => EngineEventView::EndOfTrack { uri: uri@ },
            EngineEvent::PositionCorrection { uri, position_ms } =>
                EngineEventView::PositionCorrection { uri: uri@, position_ms: *position_ms },
        }
    }
}

impl Clone for EngineEvent {
    fn clone(&self) -> (r: Self)
        ensures
            r == *self,
    {
        match self {
            EngineEvent::TrackChanged { uri } => EngineEvent::TrackChanged { uri: uri.clone() },
            EngineEvent::Playing { uri, position_ms } => EngineEvent::Playing {
                uri: uri.clone(),
                position_ms: *position_ms,
            },
            EngineEvent::Paused { uri, position_ms } => EngineEvent::Paused {
                uri: uri.clone(),
                position_ms: *position_ms,
            },
            EngineEvent::Stopped => EngineEvent::Stopped,
            EngineEvent::EndOfTrack { uri } => EngineEvent::EndOfTrack { uri: uri.clone() },
            EngineEvent::PositionCorrection { uri, position_ms } =>
                EngineEvent::PositionCorrection { uri: uri.clone(), position_ms: *position_ms },
        }
    }
}

/// What the sink is to do.
#[derive(Debug, Clone, Copy, PartialEq, Eq, Structural)]
pub enum SinkAction {
    Play,
    Pause,
}

/// The server that is streamed from and the track that was last started.
pub struct Engine {
    pub client: SubsonicClient,
    pub current_track_uri: Option<String>,
}

impl Engine {
    pub fn new(client: SubsonicClient) -> (r: Engine)
        ensures
            r.client == client,
            r.current_track_uri is None,
    {
        Engine { client, current_track_uri: None }
    }

    /// Play a track by its Subsonic song ID: the URL of its stream and its URI.
    pub fn play_track_id(&self, track_id: &str) -> (r: (String, String))
        ensures
            r.0@ == request_url(self.client@, "stream.view"@, seq![("id"@, track_id@)]),
            r.1@ == TRACK@ + track_id@,
    {
        (self.client.id_url("stream.view", track_id), join2(TRACK, track_id))
    }

    /// A stream has been handed to the sink: the track is now the current one, and
    /// it plays from its start.
    pub fn stream_started(&mut self, track_uri: &str) -> (r: Vec<EngineEvent>)
        ensures
            final(self).client == old(self).client,
            view_opt(final(self).current_track_uri) == Some(track_uri@),
            views(r@) == seq![
                EngineEventView::TrackChanged { uri: track_uri@ },
                EngineEventView::Playing { uri: track_uri@, position_ms: 0 },
            ],
    {
        self.current_track_uri = Some(track_uri.to_string());
        let mut events: Vec<EngineEvent> = Vec::new();
        events.push(EngineEvent::TrackChanged { uri: track_uri.to_string() });
        events.push(EngineEvent::Playing { uri: track_uri.to_string(), position_ms: 0 });
        assert(views(events@) =~= seq![
            EngineEventView::TrackChanged { uri: track_uri@ },
            EngineEventView::Playing { uri: track_uri@, position_ms: 0 },
        ]);
        events
    }

    /// The event of a pause: none where nothing was ever started.
    pub fn pause(&self) -> (r: Option<EngineEvent>)
        ensures
            view_opt(r) == (match self.current_track_uri {
                Some(uri) => Some(EngineEventView::Paused { uri: uri@, position_ms: 0 }),
                None => None,
            }),
    {
        match &self.current_track_uri {
            Some(uri) => Some(EngineEvent::Paused { uri: uri.clone(), position_ms: 0 }),
            None => None,
        }
    }

    /// The event of going on: none where nothing was ever started.
    pub fn resume(&self) -> (r: Option<EngineEvent>)
        ensures
            view_opt(r) == (match self.current_track_uri {
                Some(uri) => Some(EngineEventView::Playing { uri: uri@, position_ms: 0 }),
                None => None,
            }),
    {
        match &self.current_track_uri {
            Some(uri) => Some(EngineEvent::Playing { uri: uri.clone(), position_ms: 0 }),
            None => None,
        }
    }

    /// What the sink is to do to change between playing and pausing.
    pub fn toggle_play(paused: bool) -> (r: SinkAction)
        ensures
            r == (if paused {
                SinkAction::Play
            } else {
                SinkAction::Pause
            }),
    {
        if paused {
            SinkAction::Play
        } else {
            SinkAction::Pause
        }
    }

    /// The event of stopping.
    pub fn stop(&self) -> (r: EngineEvent)
        ensures
            r == EngineEvent::Stopped,
    {
        EngineEvent::Stopped
    }

    /// Sound comes out: the sink is not paused and not empty.
    pub fn is_playing(paused: bool, empty: bool) -> (r: bool)
        ensures
            r == (!paused && !empty),
    {
        !paused && !empty
    }
}

} // verus!
