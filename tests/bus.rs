use bot_core::bus::{Bus, Message, Reader, CAPACITY};
use bot_core::events::{Global, Song, Track, TrackId, YouTube, YouTubeEvent};
use futures::{future, Async, Future, Stream};

fn progress(elapsed: u64) -> Global {
    Global::SongProgress { track_id: None, elapsed, duration: 100 }
}

fn elapsed_of(m: &Global) -> u64 {
    match m {
        Global::SongProgress { elapsed, .. } => *elapsed,
        _ => panic!("not a progress message"),
    }
}

/// Everything the reader has now, without waiting.
fn drain(rx: Reader<Global>) -> (Reader<Global>, Vec<Global>) {
    future::lazy(move || {
        let mut rx = rx;
        let mut out = Vec::new();
        loop {
            match rx.poll() {
                Ok(Async::Ready(Some(m))) => out.push(m),
                _ => break,
            }
        }
        Ok::<_, ()>((rx, out))
    })
    .wait()
    .unwrap()
}

#[test]
fn latest_keeps_last_value_per_kind() {
    let mut bus = Bus::new();
    bus.send(progress(1));
    bus.send(Global::song(None));
    bus.send(progress(2));
    bus.send(Global::Ping);
    bus.send(Global::Firework);
    let latest = bus.latest();
    assert_eq!(latest.len(), 2);
    assert!(latest.contains(&progress(2)));
    assert!(latest.contains(&Global::song(None)));
    assert!(!latest.contains(&progress(1)));
}

#[test]
fn uncached_messages_leave_cache_empty() {
    let mut bus: Bus<Global> = Bus::new();
    bus.send(Global::Ping);
    bus.send(Global::Firework);
    assert!(bus.latest().is_empty());
}

#[test]
fn youtube_messages_cached_by_kind() {
    let mut bus = Bus::new();
    bus.send(YouTube::YouTubeVolume { volume: 10 });
    bus.send(YouTube::YouTubeCurrent { event: YouTubeEvent::Pause });
    bus.send(YouTube::YouTubeVolume { volume: 50 });
    let latest = bus.latest();
    assert_eq!(latest.len(), 2);
    assert!(latest.contains(&YouTube::YouTubeVolume { volume: 50 }));
    assert!(latest.contains(&YouTube::YouTubeCurrent { event: YouTubeEvent::Pause }));
}

#[test]
fn overflow_drops_without_blocking_and_reader_sees_gap() {
    let mut bus = Bus::new();
    let rx = bus.add_rx();
    let total = (CAPACITY + 100) as u64;
    let mut refused = 0;
    for i in 0..total {
        if !bus.send(progress(i)) {
            refused += 1;
        }
    }
    assert!(refused > 0);
    let (_rx, got) = drain(rx);
    assert!(!got.is_empty());
    assert!((got.len() as u64) < total);
    let seen: Vec<u64> = got.iter().map(elapsed_of).collect();
    assert_eq!(seen[0], 0);
    assert!(seen.windows(2).all(|w| w[0] < w[1]));
    // the cache still has the very last publish
    assert_eq!(bus.latest(), vec![progress(total - 1)]);
}

#[test]
fn late_subscriber_sees_no_history_but_cache_has_it() {
    let mut bus = Bus::new();
    bus.send(progress(1));
    bus.send(progress(2));
    bus.send(Global::Ping);
    let rx = bus.add_rx();
    let (rx, got) = drain(rx);
    assert!(got.is_empty());
    assert_eq!(bus.latest(), vec![progress(2)]);
    bus.send(progress(3));
    let (_rx, got) = drain(rx);
    assert_eq!(got, vec![progress(3)]);
}

#[test]
fn message_ids() {
    assert_eq!(progress(0).id(), Some("song/progress"));
    assert_eq!(Global::song(None).id(), Some("song/current"));
    assert_eq!(Global::Ping.id(), None);
    assert_eq!(Global::Firework.id(), None);
    assert_eq!(YouTube::YouTubeVolume { volume: 1 }.id(), Some("youtube/volume"));
    let play = YouTubeEvent::Play { video_id: "v".to_string(), elapsed: 1, duration: 2 };
    assert_eq!(YouTube::YouTubeCurrent { event: play }.id(), Some("youtube/current"));
}

fn sample_song() -> Song {
    Song {
        track_id: TrackId { id: "t1".to_string() },
        track: Track { name: "Song".to_string(), artist: "Band".to_string() },
        user: Some("alice".to_string()),
        is_playing: true,
        elapsed: 12,
        duration: 240,
    }
}

#[test]
fn song_progress_messages() {
    assert_eq!(
        Global::song_progress(None),
        Global::SongProgress { track_id: None, elapsed: 0, duration: 0 }
    );
    assert_eq!(
        Global::song_progress(Some(&sample_song())),
        Global::SongProgress {
            track_id: Some(TrackId { id: "t1".to_string() }),
            elapsed: 12,
            duration: 240,
        }
    );
}

#[test]
fn song_current_messages() {
    assert_eq!(
        Global::song(None),
        Global::SongCurrent {
            track_id: None,
            track: None,
            user: None,
            is_playing: false,
            elapsed: 0,
            duration: 0,
        }
    );
    assert_eq!(
        Global::song(Some(&sample_song())),
        Global::SongCurrent {
            track_id: Some(TrackId { id: "t1".to_string() }),
            track: Some(Track { name: "Song".to_string(), artist: "Band".to_string() }),
            user: Some("alice".to_string()),
            is_playing: true,
            elapsed: 12,
            duration: 240,
        }
    );
}
