use ebook_playback::read_aloud::{Action, AudioShape, Outcome, ReadAloud, Signal, Stage};
use ebook_playback::time::Duration;

/// One second of mono audio at 16 kHz.
fn second() -> Signal {
    Signal::Audio(AudioShape { samples: 16_000, channels: 1, sample_rate: 16_000 })
}

/// Drives the loop to its end without cancelling; every synthesis gives
/// one second of audio.
fn run_to_end(reader: &mut ReadAloud) -> Vec<Action> {
    let mut actions = Vec::new();
    let mut signal = Signal::Continue;
    for _ in 0..100_000 {
        let action = reader.step(false, signal);
        signal = match action {
            Action::Synthesize { .. } => second(),
            _ => Signal::Continue,
        };
        actions.push(action);
        if matches!(action, Action::Finish { .. }) {
            return actions;
        }
    }
    panic!("the loop did not end");
}

fn slept(actions: &[Action]) -> u64 {
    actions
        .iter()
        .map(|a| match a {
            Action::Sleep { duration } => duration.as_nanos(),
            _ => 0,
        })
        .sum()
}

fn without_sleeps(actions: &[Action]) -> Vec<Action> {
    actions.iter().copied().filter(|a| !matches!(a, Action::Sleep { .. })).collect()
}

#[test]
fn sentences_are_announced_synthesized_and_highlighted_in_order() {
    let mut reader = ReadAloud::new(vec![vec![1, 3], vec![2]], 0, 0);
    let actions = run_to_end(&mut reader);
    assert_eq!(
        without_sleeps(&actions),
        vec![
            Action::AnnounceSentence { sentence: 0 },
            Action::Synthesize { sentence: 0 },
            Action::HighlightWord { sentence: 0, word: 0 },
            Action::HighlightWord { sentence: 0, word: 1 },
            Action::AnnounceSentence { sentence: 1 },
            Action::Synthesize { sentence: 1 },
            Action::HighlightWord { sentence: 1, word: 0 },
            Action::Finish { outcome: Outcome::Completed, sentence: 1, word: 0 },
        ]
    );
    assert!(reader.is_finished());
    assert_eq!(reader.position(), (1, 0));
}

#[test]
fn every_sentence_takes_its_estimated_time() {
    let mut reader = ReadAloud::new(vec![vec![1, 3], vec![2], vec![]], 0, 0);
    let actions = run_to_end(&mut reader);
    assert_eq!(slept(&actions), 3_000_000_000);
    for action in &actions {
        if let Action::Sleep { duration } = action {
            assert!(duration.as_nanos() > 0);
            assert!(*duration <= Duration::from_millis(15));
        }
    }
}

#[test]
fn words_sleep_for_their_share() {
    let mut reader = ReadAloud::new(vec![vec![1, 3]], 0, 0);
    let actions = run_to_end(&mut reader);
    let first = actions.iter().position(|a| matches!(a, Action::HighlightWord { word: 0, .. })).unwrap();
    let second = actions.iter().position(|a| matches!(a, Action::HighlightWord { word: 1, .. })).unwrap();
    assert_eq!(slept(&actions[first..second]), 250_000_000);
    assert_eq!(slept(&actions[second..]), 750_000_000);
    // 250 ms are sixteen steps of 15 ms and one of 10 ms
    assert_eq!(second - first - 1, 17);
    assert_eq!(actions[second - 1], Action::Sleep { duration: Duration::from_millis(10) });
}

#[test]
fn the_first_sentence_is_resumed_at_the_given_word() {
    let mut reader = ReadAloud::new(vec![vec![1], vec![1, 1, 2], vec![1, 1]], 1, 2);
    let actions = run_to_end(&mut reader);
    assert_eq!(
        without_sleeps(&actions),
        vec![
            Action::AnnounceSentence { sentence: 1 },
            Action::Synthesize { sentence: 1 },
            Action::HighlightWord { sentence: 1, word: 2 },
            Action::AnnounceSentence { sentence: 2 },
            Action::Synthesize { sentence: 2 },
            Action::HighlightWord { sentence: 2, word: 0 },
            Action::HighlightWord { sentence: 2, word: 1 },
            Action::Finish { outcome: Outcome::Completed, sentence: 2, word: 1 },
        ]
    );
}

#[test]
fn a_resume_word_past_the_end_is_held_inside_the_sentence() {
    let mut reader = ReadAloud::new(vec![vec![1, 1]], 0, 9);
    let actions = run_to_end(&mut reader);
    assert_eq!(
        without_sleeps(&actions),
        vec![
            Action::AnnounceSentence { sentence: 0 },
            Action::Synthesize { sentence: 0 },
            Action::HighlightWord { sentence: 0, word: 1 },
            Action::Finish { outcome: Outcome::Completed, sentence: 0, word: 1 },
        ]
    );
    assert_eq!(slept(&actions), 1_000_000_000);
}

#[test]
fn a_sentence_without_words_is_silence() {
    let mut reader = ReadAloud::new(vec![vec![]], 0, 0);
    let mut signal = Signal::Continue;
    let mut actions = Vec::new();
    for _ in 0..1_000 {
        let action = reader.step(false, signal);
        signal = match action {
            // synthesis gives nothing usable
            Action::Synthesize { .. } => {
                Signal::Audio(AudioShape { samples: 0, channels: 1, sample_rate: 16_000 })
            }
            _ => Signal::Continue,
        };
        actions.push(action);
        if matches!(action, Action::Finish { .. }) {
            break;
        }
    }
    assert_eq!(
        without_sleeps(&actions),
        vec![
            Action::AnnounceSentence { sentence: 0 },
            Action::Synthesize { sentence: 0 },
            Action::Finish { outcome: Outcome::Completed, sentence: 0, word: 0 },
        ]
    );
    assert_eq!(slept(&actions), 120_000_000);
}

#[test]
fn no_sentences_end_at_once() {
    let mut reader = ReadAloud::new(Vec::new(), 0, 0);
    assert_eq!(reader.stage(), Stage::NextSentence);
    assert_eq!(
        reader.step(false, Signal::Continue),
        Action::Finish { outcome: Outcome::Completed, sentence: 0, word: 0 }
    );
    assert!(reader.is_finished());
}

#[test]
fn a_start_past_the_last_sentence_ends_at_once() {
    let mut reader = ReadAloud::new(vec![vec![1]], 4, 2);
    assert_eq!(
        reader.step(false, Signal::Continue),
        Action::Finish { outcome: Outcome::Completed, sentence: 4, word: 2 }
    );
}

#[test]
fn cancelling_mid_sentence_stops_at_the_last_highlighted_word() {
    let mut reader = ReadAloud::new(vec![vec![1, 1, 1], vec![1]], 0, 0);
    assert_eq!(reader.step(false, Signal::Continue), Action::AnnounceSentence { sentence: 0 });
    assert_eq!(reader.step(false, Signal::Continue), Action::Synthesize { sentence: 0 });
    assert_eq!(reader.step(false, second()), Action::HighlightWord { sentence: 0, word: 0 });
    let mut action = reader.step(false, Signal::Continue);
    while matches!(action, Action::Sleep { .. }) {
        action = reader.step(false, Signal::Continue);
    }
    assert_eq!(action, Action::HighlightWord { sentence: 0, word: 1 });
    assert!(matches!(reader.step(false, Signal::Continue), Action::Sleep { .. }));

    // the request is seen at the next step: nothing more is highlighted
    assert_eq!(reader.step(true, Signal::Continue), Action::StopAudio);
    assert_eq!(reader.stage(), Stage::Stopping);
    assert!(!reader.is_finished());
    assert_eq!(
        reader.step(true, Signal::Continue),
        Action::Finish { outcome: Outcome::Cancelled, sentence: 0, word: 1 }
    );
    assert!(reader.is_finished());
    assert_eq!(reader.position(), (0, 1));
    // and the end stays the end
    assert_eq!(
        reader.step(false, Signal::Continue),
        Action::Finish { outcome: Outcome::Cancelled, sentence: 0, word: 1 }
    );
}

#[test]
fn cancelling_before_the_first_sentence_keeps_the_start_position() {
    let mut reader = ReadAloud::new(vec![vec![1, 1, 1]], 0, 2);
    assert_eq!(reader.step(true, Signal::Continue), Action::StopAudio);
    assert_eq!(
        reader.step(false, Signal::Continue),
        Action::Finish { outcome: Outcome::Cancelled, sentence: 0, word: 2 }
    );
}

#[test]
fn cancelling_while_audio_is_awaited_drops_the_audio() {
    let mut reader = ReadAloud::new(vec![vec![1, 1]], 0, 0);
    let _ = reader.step(false, Signal::Continue);
    let _ = reader.step(false, Signal::Continue);
    assert_eq!(reader.stage(), Stage::AwaitAudio);
    assert_eq!(reader.step(true, second()), Action::StopAudio);
    assert_eq!(
        reader.step(false, Signal::Continue),
        Action::Finish { outcome: Outcome::Cancelled, sentence: 0, word: 0 }
    );
}

#[test]
fn a_failed_synthesis_stops_the_loop() {
    let mut reader = ReadAloud::new(vec![vec![1], vec![1]], 0, 0);
    let actions = {
        let mut actions = Vec::new();
        let mut signal = Signal::Continue;
        for _ in 0..10_000 {
            let action = reader.step(false, signal);
            signal = match action {
                Action::Synthesize { sentence: 0 } => second(),
                Action::Synthesize { .. } => Signal::SynthesisFailed,
                _ => Signal::Continue,
            };
            actions.push(action);
            if matches!(action, Action::Finish { .. }) {
                break;
            }
        }
        actions
    };
    assert_eq!(
        without_sleeps(&actions),
        vec![
            Action::AnnounceSentence { sentence: 0 },
            Action::Synthesize { sentence: 0 },
            Action::HighlightWord { sentence: 0, word: 0 },
            Action::AnnounceSentence { sentence: 1 },
            Action::Synthesize { sentence: 1 },
            Action::StopAudio,
            Action::Finish { outcome: Outcome::Failed, sentence: 1, word: 0 },
        ]
    );
}

#[test]
fn audio_is_asked_for_again_until_it_is_reported() {
    let mut reader = ReadAloud::new(vec![vec![1]], 0, 0);
    let _ = reader.step(false, Signal::Continue);
    assert_eq!(reader.step(false, Signal::Continue), Action::Synthesize { sentence: 0 });
    assert_eq!(reader.step(false, Signal::Continue), Action::Synthesize { sentence: 0 });
    assert_eq!(reader.step(false, second()), Action::HighlightWord { sentence: 0, word: 0 });
}
