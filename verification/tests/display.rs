use ebook_playback::display::{
    catalogue_item, display_author, event_status, play_request, PlayRequest,
};
use ebook_playback::playback::{BackendError, PlaybackEvent};
use ebook_playback::display::{describe_book, format_duration};
use ebook_playback::model::{AudioChapter, ChapterId, Ebook, TextContent, TextFormat};
use ebook_playback::time::Duration;

fn book(lengths: &[Option<u64>], with_text: bool) -> Ebook {
    let mut book = Ebook::new("Title".to_string(), None);
    for length in lengths {
        book.audio_chapters.push(AudioChapter {
            id: ChapterId::new(),
            title: "t".to_string(),
            file: "t.mp3".to_string(),
            duration: length.map(Duration::from_secs),
            section: None,
            chapter_index: None,
        });
    }
    if with_text {
        book.text_content =
            Some(TextContent { file: "a.epub".to_string(), format: TextFormat::Epub, chapters: Vec::new() });
    }
    book
}

#[test]
fn durations_read_like_a_clock() {
    assert_eq!(format_duration(Duration::zero()), "00:00");
    assert_eq!(format_duration(Duration::from_secs(5)), "00:05");
    assert_eq!(format_duration(Duration::from_secs(65)), "01:05");
    assert_eq!(format_duration(Duration::from_secs(3_599)), "59:59");
    assert_eq!(format_duration(Duration::from_secs(3_600)), "01:00:00");
    assert_eq!(format_duration(Duration::from_secs(3_725)), "01:02:05");
    assert_eq!(format_duration(Duration::from_secs(360_000)), "100:00:00");
    assert_eq!(format_duration(Duration::from_millis(1_999)), "00:01");
}

#[test]
fn books_are_described_by_what_they_offer() {
    assert_eq!(describe_book(&book(&[], false)), "Uncategorized");
    assert_eq!(describe_book(&book(&[], true)), "Text");
    assert_eq!(describe_book(&book(&[None], false)), "Audio");
    assert_eq!(describe_book(&book(&[None, None], true)), "Audio • Text");
    assert_eq!(describe_book(&book(&[Some(60), None, Some(5)], false)), "Audio • 01:05");
    assert_eq!(describe_book(&book(&[Some(3_600)], true)), "Audio • 01:00:00 • Text");
    assert_eq!(describe_book(&book(&[Some(0)], true)), "Audio • Text");
}

#[test]
fn a_missing_author_is_unknown() {
    assert_eq!(display_author(&Some("Jane".to_string())), "Jane");
    assert_eq!(display_author(&Some(" Jane ".to_string())), " Jane ");
    assert_eq!(display_author(&Some("  ".to_string())), "Unknown Author");
    assert_eq!(display_author(&Some(String::new())), "Unknown Author");
    assert_eq!(display_author(&None), "Unknown Author");
}

#[test]
fn events_are_put_into_words() {
    let chapter = || book(&[Some(1)], false).audio_chapters.remove(0);
    let mut named = chapter();
    named.title = "Chapter One".to_string();
    assert_eq!(event_status(&PlaybackEvent::ChapterStarted(named.clone())), "Playing: Chapter One");
    assert_eq!(event_status(&PlaybackEvent::ChapterComplete(named.clone())), "Finished: Chapter One");
    assert_eq!(
        event_status(&PlaybackEvent::ChapterFailed {
            chapter: named,
            error: BackendError { message: "no device".to_string() },
        }),
        "Error playing Chapter One: no device"
    );
}

#[test]
fn a_play_request_takes_the_first_chapter() {
    let mut with_audio = book(&[Some(1), Some(2)], true);
    with_audio.audio_chapters[0].title = "first".to_string();
    assert!(matches!(play_request(&with_audio), PlayRequest::Play(c) if c.title == "first"));
    match play_request(&book(&[], true)) {
        PlayRequest::NoAudio(message) => {
            assert_eq!(message, "Title has no audio tracks; try the Read option instead")
        }
        _ => panic!("a hint was expected"),
    }
    assert!(matches!(play_request(&book(&[], false)), PlayRequest::Nothing));
}

#[test]
fn a_catalogue_line_sums_a_book_up() {
    let mut listed = book(&[Some(60)], true);
    listed.author = Some("  ".to_string());
    let item = catalogue_item(&listed);
    assert_eq!(item.title, "Title");
    assert_eq!(item.author, "Unknown Author");
    assert_eq!(item.detail, "Audio • 01:00 • Text");
    assert!(item.has_audio);
    assert!(item.has_text);
    let item = catalogue_item(&book(&[], false));
    assert_eq!(item.detail, "Uncategorized");
    assert!(!item.has_audio);
    assert!(!item.has_text);
}
