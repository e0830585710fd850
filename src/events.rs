use vstd::prelude::*;
use crate::bus::Message;

verus! {

/// The identifier of a track.
#[derive(Debug, Clone, PartialEq, Eq)]
pub struct TrackId {
    pub id: String,
}

impl TrackId {
    fn copy(&self) -> (r: TrackId)
        ensures
            r.id@ == self.id@,
    {
        TrackId { id: self.id.clone() }
    }
}

/// What is known of a track.
#[derive(Debug, Clone, PartialEq, Eq)]
pub struct Track {
    pub name: String,
    pub artist: String,
}

/// A song in the player: the track, who asked for it, and where playback
/// stands, in whole seconds.
#[derive(Debug, Clone, PartialEq, Eq)]
pub struct Song {
    pub track_id: TrackId,
    pub track: Track,
    pub user: Option<String>,
    pub is_playing: bool,
    pub elapsed: u64,
    pub duration: u64,
}

/// Events that drive the YouTube player.
#[derive(Debug, Clone, PartialEq, Eq)]
pub enum YouTubeEvent {
    /// Play a new song.
    Play { video_id: String, elapsed: u64, duration: u64 },
    /// Pause the player.
    Pause,
    /// Stop the player.
    Stop,
}

/// Messages of the YouTube player's bus.
#[derive(Debug, Clone, PartialEq, Eq)]
pub enum YouTube {
    YouTubeCurrent { event: YouTubeEvent },
    YouTubeVolume { volume: u32 },
}

impl Message for YouTube {
    open spec fn cache_id(&self) -> Option<Seq<char>> {
        match self {
            YouTube::YouTubeCurrent { .. } => Some("youtube/current"@),
            YouTube::YouTubeVolume { .. } => Some("youtube/volume"@),
        }
    }

    fn id(&self) -> (r: Option<&'static str>) {
        match self {
            YouTube::YouTubeCurrent { .. } => Some("youtube/current"),
            YouTube::YouTubeVolume { .. } => Some("youtube/volume"),
        }
    }
}

/// Messages of the global bus.
#[derive(Debug, Clone, PartialEq, Eq)]
pub enum Global {
    Firework,
    Ping,
    /// Progress of the current song.
    SongProgress { track_id: Option<TrackId>, elapsed: u64, duration: u64 },
    /// The current song.
    SongCurrent {
        track_id: Option<TrackId>,
        track: Option<Track>,
        user: Option<String>,
        is_playing: bool,
        elapsed: u64,
        duration: u64,
    },
}

impl Message for Global {
    open spec fn cache_id(&self) -> Option<Seq<char>> {
        match self {
            Global::SongProgress { .. } => Some("song/progress"@),
            Global::SongCurrent { .. } => Some("song/current"@),
            _ => None,
        }
    }

    fn id(&self) -> (r: Option<&'static str>) {
        match self {
            Global::SongProgress { .. } => Some("song/progress"),
            Global::SongCurrent { .. } => Some("song/current"),
            _ => None,
        }
    }
}

pub open spec fn same_track_id(a: Option<TrackId>, b: TrackId) -> bool {
    a matches Some(t) && t.id@ == b.id@
}

pub open spec fn same_user(a: Option<String>, b: Option<String>) -> bool {
    match (a, b) {
        (Some(x), Some(y)) => x@ == y@,
        (None, None) => true,
        _ => false,
    }
}

pub open spec fn same_track(a: Option<Track>, b: Track) -> bool {
    a matches Some(t) && t.name@ == b.name@ && t.artist@ == b.artist@
}

impl Global {
    /// The progress of `song`, or an empty progress where nothing plays.
    pub fn song_progress(song: Option<&Song>) -> (r: Self)
        ensures
            match song {
                None => r matches Global::SongProgress { track_id: None, elapsed: 0, duration: 0 },
                Some(s) => r matches Global::SongProgress { track_id, elapsed, duration } && same_track_id(
                    track_id,
                    s.track_id,
                ) && elapsed == s.elapsed && duration == s.duration,
            },
    {
        let song = match song {
            Some(song) => song,
            None => {
                return Global::SongProgress { track_id: None, elapsed: 0, duration: 0 };
            },
        };
        Global::SongProgress {
            track_id: Some(song.track_id.copy()),
            elapsed: song.elapsed,
            duration: song.duration,
        }
    }

    /// The message that `song` is current, or an empty one where nothing
    /// plays.
    pub fn song(song: Option<&Song>) -> (r: Self)
        ensures
            match song {
                None => r matches Global::SongCurrent {
                    track_id: None,
                    track: None,
                    user: None,
                    is_playing: false,
                    elapsed: 0,
                    duration: 0,
                },
                Some(s) => r matches Global::SongCurrent {
                    track_id,
                    track,
                    user,
                    is_playing,
                    elapsed,
                    duration,
                } && same_track_id(track_id, s.track_id) && same_track(track, s.track) && same_user(
                    user,
                    s.user,
                ) && is_playing == s.is_playing && elapsed == s.elapsed && duration == s.duration,
            },
    {
        let song = match song {
            Some(song) => song,
            None => {
                return Global::SongCurrent {
                    track_id: None,
                    track: None,
                    user: None,
                    is_playing: false,
                    elapsed: 0,
                    duration: 0,
                };
            },
        };
        let user = match &song.user {
            Some(u) => Some(u.clone()),
            None => None,
        };
        Global::SongCurrent {
            track_id: Some(song.track_id.copy()),
            track: Some(Track { name: song.track.name.clone(), artist: song.track.artist.clone() }),
            user,
            is_playing: song.is_playing,
            elapsed: song.elapsed,
            duration: song.duration,
        }
    }
}

} // verus!
