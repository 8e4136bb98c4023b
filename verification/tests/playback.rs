use ebook_playback::model::{AudioChapter, ChapterId};
use ebook_playback::playback::{
    backend_calls, handle_command, run_calls, AudioBackend, BackendCall, BackendError, NullBackend,
    PlaybackCommand, PlaybackController, PlaybackEvent, PlaybackState,
};
use ebook_playback::time::Duration;
use std::cell::RefCell;

fn chapter(title: &str) -> AudioChapter {
    AudioChapter {
        id: ChapterId::from_string(format!("id-{title}")),
        title: title.to_string(),
        file: format!("{title}.mp3"),
        duration: Some(Duration::from_secs(60)),
        section: None,
        chapter_index: Some(0),
    }
}

/// A device that records what it is asked and fails where it is told to.
struct Scripted {
    calls: RefCell<Vec<String>>,
    fail_on: Option<&'static str>,
    position: Option<u64>,
}

impl Scripted {
    fn new(fail_on: Option<&'static str>, position: Option<u64>) -> Self {
        Scripted { calls: RefCell::new(Vec::new()), fail_on, position }
    }

    fn answer(&self, name: &str) -> Result<(), BackendError> {
        self.calls.borrow_mut().push(name.to_string());
        if self.fail_on == Some(name_key(name)) {
            Err(BackendError { message: format!("{name} failed") })
        } else {
            Ok(())
        }
    }
}

fn name_key(name: &str) -> &'static str {
    match name {
        "load" => "load",
        "play" => "play",
        "pause" => "pause",
        "stop" => "stop",
        "seek" => "seek",
        _ => "other",
    }
}

impl AudioBackend for Scripted {
    fn load(&self, _chapter: &AudioChapter) -> Result<(), BackendError> {
        self.answer("load")
    }

    fn play(&self) -> Result<(), BackendError> {
        self.answer("play")
    }

    fn pause(&self) -> Result<(), BackendError> {
        self.answer("pause")
    }

    fn stop(&self) -> Result<(), BackendError> {
        self.answer("stop")
    }

    fn seek(&self, _position: Duration) -> Result<(), BackendError> {
        self.answer("seek")
    }

    fn position(&self) -> Result<Duration, BackendError> {
        self.calls.borrow_mut().push("position".to_string());
        match self.position {
            Some(ms) => Ok(Duration::from_millis(ms)),
            None => Err(BackendError { message: "no position".to_string() }),
        }
    }
}

#[test]
fn a_new_state_is_idle() {
    let state = PlaybackState::new();
    let snapshot = state.snapshot();
    assert!(snapshot.current_chapter.is_none());
    assert!(!snapshot.is_playing);
    assert_eq!(snapshot.position, Duration::zero());
}

#[test]
fn load_then_stop_starts_and_completes_the_chapter() {
    let backend = NullBackend;
    let mut state = PlaybackState::new();
    let mut events = Vec::new();

    let reply = handle_command(PlaybackCommand::LoadAndPlay(chapter("A")), &backend, &mut state);
    if let Ok(Some(event)) = reply {
        events.push(event);
    }
    let playing = state.snapshot();
    assert!(playing.is_playing);
    assert_eq!(playing.current_chapter.as_ref().map(|c| c.title.clone()), Some("A".to_string()));

    let reply = handle_command(PlaybackCommand::Stop, &backend, &mut state);
    if let Ok(Some(event)) = reply {
        events.push(event);
    }

    assert_eq!(events.len(), 2);
    assert!(matches!(&events[0], PlaybackEvent::ChapterStarted(c) if c.title == "A"));
    assert!(matches!(&events[1], PlaybackEvent::ChapterComplete(c) if c.title == "A"));
    let snapshot = state.snapshot();
    assert!(snapshot.current_chapter.is_none());
    assert!(!snapshot.is_playing);
    assert_eq!(snapshot.position, Duration::zero());
}

#[test]
fn pausing_twice_stays_paused_without_events() {
    let backend = NullBackend;
    let mut state = PlaybackState::new();
    let _ = handle_command(PlaybackCommand::LoadAndPlay(chapter("A")), &backend, &mut state);
    assert!(state.snapshot().is_playing);

    let first = handle_command(PlaybackCommand::Pause, &backend, &mut state);
    assert!(matches!(first, Ok(None)));
    assert!(!state.snapshot().is_playing);

    let second = handle_command(PlaybackCommand::Pause, &backend, &mut state);
    assert!(matches!(second, Ok(None)));
    assert!(!state.snapshot().is_playing);
    assert!(state.snapshot().current_chapter.is_some());
}

#[test]
fn resume_plays_again() {
    let backend = NullBackend;
    let mut state = PlaybackState::new();
    let _ = handle_command(PlaybackCommand::LoadAndPlay(chapter("A")), &backend, &mut state);
    let _ = handle_command(PlaybackCommand::Pause, &backend, &mut state);
    let reply = handle_command(PlaybackCommand::Resume, &backend, &mut state);
    assert!(matches!(reply, Ok(None)));
    assert!(state.snapshot().is_playing);
}

#[test]
fn stop_without_a_chapter_tells_nothing() {
    let backend = NullBackend;
    let mut state = PlaybackState::new();
    let reply = handle_command(PlaybackCommand::Stop, &backend, &mut state);
    assert!(matches!(reply, Ok(None)));
    assert!(state.snapshot().current_chapter.is_none());
}

#[test]
fn the_device_is_called_in_order() {
    let backend = Scripted::new(None, Some(250));
    let mut state = PlaybackState::new();
    let _ = handle_command(PlaybackCommand::LoadAndPlay(chapter("A")), &backend, &mut state);
    let _ = handle_command(PlaybackCommand::Seek(Duration::from_secs(9)), &backend, &mut state);
    let _ = handle_command(PlaybackCommand::Pause, &backend, &mut state);
    let _ = handle_command(PlaybackCommand::Resume, &backend, &mut state);
    let _ = handle_command(PlaybackCommand::Stop, &backend, &mut state);
    let calls = backend.calls.borrow().clone();
    assert_eq!(
        calls,
        vec![
            "load", "play", "position", "seek", "position", "pause", "position", "play",
            "position", "stop", "position"
        ]
    );
}

#[test]
fn the_reported_position_is_taken_over() {
    let backend = Scripted::new(None, Some(250));
    let mut state = PlaybackState::new();
    let _ = handle_command(PlaybackCommand::LoadAndPlay(chapter("A")), &backend, &mut state);
    assert_eq!(state.snapshot().position, Duration::from_millis(250));
    let _ = handle_command(PlaybackCommand::Seek(Duration::from_secs(9)), &backend, &mut state);
    assert_eq!(state.snapshot().position, Duration::from_millis(250));
}

#[test]
fn a_seek_is_kept_where_the_device_reports_nothing() {
    let backend = Scripted::new(None, None);
    let mut state = PlaybackState::new();
    let _ = handle_command(PlaybackCommand::LoadAndPlay(chapter("A")), &backend, &mut state);
    let _ = handle_command(PlaybackCommand::Seek(Duration::from_secs(9)), &backend, &mut state);
    assert_eq!(state.snapshot().position, Duration::from_secs(9));
}

#[test]
fn a_failed_load_is_reported_and_changes_nothing() {
    let backend = Scripted::new(Some("load"), Some(0));
    let mut state = PlaybackState::new();
    let reply = handle_command(PlaybackCommand::LoadAndPlay(chapter("A")), &backend, &mut state);
    match reply {
        Ok(Some(PlaybackEvent::ChapterFailed { chapter, error })) => {
            assert_eq!(chapter.title, "A");
            assert_eq!(error.message, "load failed");
        }
        _ => panic!("a failure event was expected"),
    }
    assert!(state.snapshot().current_chapter.is_none());
    assert!(!state.snapshot().is_playing);
    // play is not attempted after the failed load
    assert_eq!(backend.calls.borrow().clone(), vec!["load", "position"]);
}

#[test]
fn the_handler_goes_on_after_a_failure() {
    let failing = Scripted::new(Some("play"), Some(0));
    let mut state = PlaybackState::new();
    let reply = handle_command(PlaybackCommand::LoadAndPlay(chapter("A")), &failing, &mut state);
    assert!(matches!(reply, Ok(Some(PlaybackEvent::ChapterFailed { .. }))));
    let working = NullBackend;
    let reply = handle_command(PlaybackCommand::LoadAndPlay(chapter("B")), &working, &mut state);
    assert!(matches!(reply, Ok(Some(PlaybackEvent::ChapterStarted(c))) if c.title == "B"));
    assert!(state.snapshot().is_playing);
}

#[test]
fn a_failed_pause_concerns_the_current_chapter() {
    let mut state = PlaybackState::new();
    let _ = handle_command(PlaybackCommand::LoadAndPlay(chapter("A")), &NullBackend, &mut state);
    let failing = Scripted::new(Some("pause"), Some(0));
    let reply = handle_command(PlaybackCommand::Pause, &failing, &mut state);
    assert!(matches!(reply, Ok(Some(PlaybackEvent::ChapterFailed { chapter, .. })) if chapter.title == "A"));
    assert!(state.snapshot().is_playing);
}

#[test]
fn a_failure_without_a_chapter_hands_the_error_back() {
    let failing = Scripted::new(Some("pause"), Some(0));
    let mut state = PlaybackState::new();
    let reply = handle_command(PlaybackCommand::Pause, &failing, &mut state);
    match reply {
        Err(error) => assert_eq!(error.message, "pause failed"),
        _ => panic!("the error was expected"),
    }
}

#[test]
fn commands_ask_for_their_device_calls() {
    let calls = backend_calls(&PlaybackCommand::LoadAndPlay(chapter("A")));
    assert_eq!(calls.len(), 2);
    assert!(matches!(&calls[0], BackendCall::Load(c) if c.title == "A"));
    assert!(matches!(&calls[1], BackendCall::Play));
    assert!(matches!(backend_calls(&PlaybackCommand::Pause)[..], [BackendCall::Pause]));
    assert!(matches!(backend_calls(&PlaybackCommand::Resume)[..], [BackendCall::Play]));
    assert!(matches!(backend_calls(&PlaybackCommand::Stop)[..], [BackendCall::Stop]));
    let seek = backend_calls(&PlaybackCommand::Seek(Duration::from_secs(3)));
    assert!(matches!(&seek[..], [BackendCall::Seek(at)] if *at == Duration::from_secs(3)));
}

#[test]
fn a_run_of_calls_stops_at_the_first_failure() {
    let backend = Scripted::new(Some("play"), Some(0));
    let calls = vec![BackendCall::Pause, BackendCall::Play, BackendCall::Stop];
    let run = run_calls(&backend, &calls);
    assert_eq!(run.completed, 1);
    assert!(run.outcome.is_err());
    assert_eq!(backend.calls.borrow().clone(), vec!["pause", "play"]);

    let backend = Scripted::new(None, Some(0));
    let run = run_calls(&backend, &calls);
    assert_eq!(run.completed, 3);
    assert!(run.outcome.is_ok());
}

#[test]
fn a_controller_serves_commands_on_its_own_state() {
    let mut controller = PlaybackController::new(NullBackend);
    assert!(controller.state().current_chapter.is_none());
    let reply = controller.process(PlaybackCommand::LoadAndPlay(chapter("A")));
    assert!(matches!(reply, Ok(Some(PlaybackEvent::ChapterStarted(_)))));
    assert!(controller.state().is_playing);
    let reply = controller.process(PlaybackCommand::Stop);
    assert!(matches!(reply, Ok(Some(PlaybackEvent::ChapterComplete(_)))));
    assert!(!controller.state().is_playing);
    assert!(controller.state().current_chapter.is_none());
}

#[test]
fn state_setters_write_one_field() {
    let mut state = PlaybackState::default();
    state.set_playing(true);
    state.set_position(Duration::from_secs(4));
    state.set_chapter(Some(chapter("A")));
    let snapshot = state.snapshot();
    assert!(snapshot.is_playing);
    assert_eq!(snapshot.position, Duration::from_secs(4));
    assert!(snapshot.current_chapter.is_some());
    state.set_chapter(None);
    let snapshot = state.snapshot();
    assert!(!snapshot.is_playing);
    assert_eq!(snapshot.position, Duration::zero());
    assert!(snapshot.current_chapter.is_none());
}
