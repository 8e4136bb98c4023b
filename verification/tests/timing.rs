use ebook_playback::time::Duration;
use ebook_playback::timing::{
    allocate, compute_word_weights, estimate_sentence_duration, share_of, sleep_slice, weigh_word,
};

fn words(list: &[&str]) -> Vec<String> {
    list.iter().map(|w| w.to_string()).collect()
}

fn nanos(durations: &[Duration]) -> Vec<u64> {
    durations.iter().map(|d| d.as_nanos()).collect()
}

#[test]
fn weights_count_letters_and_digits() {
    assert_eq!(compute_word_weights(&words(&["hello,", "--", "a1", "", "don't"])), vec![5, 1, 2, 1, 4]);
    assert_eq!(compute_word_weights(&words(&[])), Vec::<usize>::new());
    assert_eq!(weigh_word("naïve"), 5);
    assert_eq!(weigh_word("..."), 1);
    assert_eq!(weigh_word("  "), 1);
    assert_eq!(weigh_word("1984!"), 4);
}

#[test]
fn the_estimate_is_the_playing_time() {
    assert_eq!(estimate_sentence_duration(16_000, 1, 16_000, 3), Duration::from_secs(1));
    assert_eq!(estimate_sentence_duration(16_000, 2, 16_000, 3), Duration::from_millis(500));
    assert_eq!(estimate_sentence_duration(22_050, 1, 44_100, 0), Duration::from_millis(500));
    assert_eq!(estimate_sentence_duration(1, 1, 3, 1), Duration::from_nanos(333_333_333));
    // no channels count as one, and so does a rate of zero
    assert_eq!(estimate_sentence_duration(4, 0, 2, 1), Duration::from_secs(2));
    assert_eq!(estimate_sentence_duration(4, 1, 0, 1), Duration::from_secs(4));
}

#[test]
fn without_audio_each_word_gets_a_fixed_time() {
    assert_eq!(estimate_sentence_duration(0, 1, 16_000, 3), Duration::from_millis(360));
    assert_eq!(estimate_sentence_duration(0, 1, 16_000, 1), Duration::from_millis(120));
    assert_eq!(estimate_sentence_duration(0, 1, 16_000, 0), Duration::from_millis(120));
    // one sample in two channels is no frame
    assert_eq!(estimate_sentence_duration(1, 2, 16_000, 2), Duration::from_millis(240));
}

#[test]
fn time_is_shared_by_weight() {
    let plan = allocate(&vec![1, 1, 2], 0, Duration::from_millis(400));
    assert_eq!(
        plan.durations,
        vec![Duration::from_millis(100), Duration::from_millis(100), Duration::from_millis(200)]
    );
    assert_eq!(plan.leftover, Duration::zero());
}

#[test]
fn shares_are_taken_from_what_is_left() {
    // 10 * 3 / 4 = 7 (rounded down), then all of the remaining 3
    let plan = allocate(&vec![3, 1], 0, Duration::from_nanos(10));
    assert_eq!(nanos(&plan.durations), vec![7, 3]);
    assert_eq!(plan.leftover, Duration::zero());
    // 100 * 1 / 3 = 33, then 67 * 1 / 2 = 33, then 34
    let plan = allocate(&vec![1, 1, 1], 0, Duration::from_nanos(100));
    assert_eq!(nanos(&plan.durations), vec![33, 33, 34]);
}

#[test]
fn a_resumed_sentence_shares_among_the_remaining_words() {
    let plan = allocate(&vec![5, 1, 3], 1, Duration::from_millis(400));
    assert_eq!(plan.durations, vec![Duration::from_millis(100), Duration::from_millis(300)]);
    assert_eq!(plan.leftover, Duration::zero());
}

#[test]
fn without_words_all_time_is_left_over() {
    let plan = allocate(&vec![], 0, Duration::from_millis(120));
    assert!(plan.durations.is_empty());
    assert_eq!(plan.leftover, Duration::from_millis(120));
    let plan = allocate(&vec![2, 2], 2, Duration::from_millis(50));
    assert!(plan.durations.is_empty());
    assert_eq!(plan.leftover, Duration::from_millis(50));
}

#[test]
fn an_empty_share_becomes_one_step_within_what_is_left() {
    // the share rounds to nothing: one step of 15 ms is wanted, 10 ns are there
    let plan = allocate(&vec![1, 1_000_000], 0, Duration::from_nanos(10));
    assert_eq!(nanos(&plan.durations), vec![10, 0]);
    assert_eq!(plan.leftover, Duration::zero());
    assert_eq!(share_of(Duration::from_secs(1), 1, 1_000_000_000_000), Duration::from_millis(15));
    assert_eq!(share_of(Duration::from_secs(1), 1, 4), Duration::from_millis(250));
    assert_eq!(share_of(Duration::from_secs(1), 0, 4), Duration::from_millis(250));
    assert_eq!(share_of(Duration::zero(), 1, 1), Duration::zero());
}

#[test]
fn zero_weights_count_as_one() {
    let plan = allocate(&vec![0, 0], 0, Duration::from_millis(100));
    assert_eq!(plan.durations, vec![Duration::from_millis(50), Duration::from_millis(50)]);
}

#[test]
fn the_plan_adds_up_to_the_total() {
    let weights = vec![7, 1, 1, 12, 3, 9, 2];
    let total = Duration::from_nanos(1_234_567_891);
    for start in 0..weights.len() {
        let plan = allocate(&weights, start, total);
        let sum: u64 = nanos(&plan.durations).iter().sum();
        assert_eq!(sum + plan.leftover.as_nanos(), total.as_nanos());
        assert_eq!(plan.durations.len(), weights.len() - start);
    }
}

#[test]
fn sleeps_are_cut_into_steps() {
    assert_eq!(sleep_slice(Duration::from_millis(100)), Duration::from_millis(15));
    assert_eq!(sleep_slice(Duration::from_millis(15)), Duration::from_millis(15));
    assert_eq!(sleep_slice(Duration::from_millis(14)), Duration::from_millis(14));
    assert_eq!(sleep_slice(Duration::zero()), Duration::zero());
}
