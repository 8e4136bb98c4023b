//! Short texts that describe a book.

use crate::chars::{chars_of, string_of, two_digit_chars, two_digits};
use crate::model::{chapter_views, opt_chars, total_nanos, AudioChapter, Ebook};
use crate::playback::{PlaybackEvent, EventView};
use crate::text::{trim_chars, trimmed};
use crate::time::{saturate, Duration, NANOS_PER_SEC};
use vstd::prelude::*;

verus! {

/// A span of `total_secs` seconds as a clock reads it: minutes and
/// seconds, with the hours in front where there are any, each in at
/// least two digits.
pub open spec fn clock(total_secs: nat) -> Seq<char> {
    let hours = total_secs / 3600;
    let minutes = (total_secs % 3600) / 60;
    let seconds = total_secs % 60;
    if hours > 0 {
        two_digits(hours) + seq![':'] + two_digits(minutes) + seq![':'] + two_digits(seconds)
    } else {
        two_digits(minutes) + seq![':'] + two_digits(seconds)
    }
}

/// `duration` as a clock reads it, to the whole second.
pub fn format_duration(duration: Duration) -> (text: String)
    ensures
        text@ == clock((duration.nanos / NANOS_PER_SEC) as nat),
{
    let total_secs: u64 = duration.as_secs();
    let hours = total_secs / 3600;
    let minutes = (total_secs % 3600) / 60;
    let seconds = total_secs % 60;
    let mut out: Vec<char> = Vec::new();
    if hours > 0 {
        let mut h = two_digit_chars(hours as u128);
        out.append(&mut h);
        out.push(':');
    }
    let mut m = two_digit_chars(minutes as u128);
    out.append(&mut m);
    out.push(':');
    let mut s = two_digit_chars(seconds as u128);
    out.append(&mut s);
    proof {
        assert(out@ =~= clock((duration.nanos / NANOS_PER_SEC) as nat));
    }
    string_of(&out)
}

/// What a book offers, in a few words: audio, with its total length
/// where that is known, and text; `Uncategorized` where it has neither.
pub open spec fn description_of(has_audio: bool, has_text: bool, total: Duration) -> Seq<char> {
    if has_audio && has_text {
        if total.nanos == 0 {
            "Audio • Text"@
        } else {
            "Audio • "@ + clock((total.nanos / NANOS_PER_SEC) as nat) + " • Text"@
        }
    } else if has_audio {
        if total.nanos == 0 {
            "Audio"@
        } else {
            "Audio • "@ + clock((total.nanos / NANOS_PER_SEC) as nat)
        }
    } else if has_text {
        "Text"@
    } else {
        "Uncategorized"@
    }
}

/// What `book` offers, in a few words.
pub fn describe_book(book: &Ebook) -> (text: String)
    ensures
        text@ == description_of(
            book.audio_chapters@.len() > 0,
            book.text_content is Some,
            Duration { nanos: saturate(total_nanos(chapter_views(book.audio_chapters@))) },
        ),
{
    let has_audio = book.has_audio();
    let has_text = book.has_text();
    if has_audio {
        let total = book.total_audio_duration();
        if total.is_zero() {
            if has_text {
                "Audio • Text".to_owned()
            } else {
                "Audio".to_owned()
            }
        } else {
            let mut out = chars_of("Audio • ");
            let mut length = chars_of(format_duration(total).as_str());
            out.append(&mut length);
            if has_text {
                let mut tail = chars_of(" • Text");
                out.append(&mut tail);
            }
            string_of(&out)
        }
    } else if has_text {
        "Text".to_owned()
    } else {
        "Uncategorized".to_owned()
    }
}

/// The author to show for a book: its author, `Unknown Author` where it
/// names none or a blank one.
pub fn display_author(author: &Option<String>) -> (shown: String)
    ensures
        shown@ == match opt_chars(*author) {
            Some(a) => if trimmed(a).len() > 0 {
                a
            } else {
                "Unknown Author"@
            },
            None => "Unknown Author"@,
        },
{
    match author {
        Some(a) => {
            if trim_chars(&chars_of(a.as_str())).len() > 0 {
                a.clone()
            } else {
                "Unknown Author".to_owned()
            }
        },
        None => "Unknown Author".to_owned(),
    }
}

/// The status line for a playback event.
pub open spec fn status_of(event: EventView) -> Seq<char> {
    match event {
        EventView::ChapterStarted(c) => "Playing: "@ + c.title,
        EventView::ChapterComplete(c) => "Finished: "@ + c.title,
        EventView::ChapterFailed { chapter, error } => "Error playing "@ + chapter.title + ": "@
            + error,
    }
}

/// The status line for a playback event: what plays, what finished, or
/// what failed and why.
pub fn event_status(event: &PlaybackEvent) -> (status: String)
    ensures
        status@ == status_of(event@),
{
    match event {
        PlaybackEvent::ChapterStarted(c) => {
            let mut out = chars_of("Playing: ");
            let mut title = chars_of(c.title.as_str());
            out.append(&mut title);
            string_of(&out)
        },
        PlaybackEvent::ChapterComplete(c) => {
            let mut out = chars_of("Finished: ");
            let mut title = chars_of(c.title.as_str());
            out.append(&mut title);
            string_of(&out)
        },
        PlaybackEvent::ChapterFailed { chapter, error } => {
            let mut out = chars_of("Error playing ");
            let mut title = chars_of(chapter.title.as_str());
            out.append(&mut title);
            let mut colon = chars_of(": ");
            out.append(&mut colon);
            let mut reason = chars_of(error.message.as_str());
            out.append(&mut reason);
            proof {
                assert(out@ =~= status_of(event@));
            }
            string_of(&out)
        },
    }
}

/// What a request to play a book comes to.
#[derive(Debug)]
pub enum PlayRequest {
    /// Play this chapter: the book's first.
    Play(AudioChapter),
    /// The book has text but no audio: say so.
    NoAudio(String),
    /// The book has neither: nothing to do.
    Nothing,
}

/// What a request to play `book` comes to: its first audio chapter
/// where it has one; else, where it has text, the hint to read it
/// instead; else nothing.
pub fn play_request(book: &Ebook) -> (request: PlayRequest)
    ensures
        match request {
            PlayRequest::Play(chapter) => book.audio_chapters@.len() > 0 && chapter@
                == book.audio_chapters@[0]@,
            PlayRequest::NoAudio(message) => book.audio_chapters@.len() == 0
                && book.text_content is Some && message@ == book.title@
                + " has no audio tracks; try the Read option instead"@,
            PlayRequest::Nothing => book.audio_chapters@.len() == 0 && book.text_content is None,
        },
{
    if book.audio_chapters.len() > 0 {
        PlayRequest::Play(book.audio_chapters[0].clone())
    } else if book.has_text() {
        let mut out = chars_of(book.title.as_str());
        let mut tail = chars_of(" has no audio tracks; try the Read option instead");
        out.append(&mut tail);
        PlayRequest::NoAudio(string_of(&out))
    } else {
        PlayRequest::Nothing
    }
}

/// One line of the catalogue.
#[derive(Debug)]
pub struct EbookItem {
    pub title: String,
    pub author: String,
    pub detail: String,
    pub has_audio: bool,
    pub has_text: bool,
}

/// The catalogue line for `book`: its title, the author to show, what
/// it offers, and whether it has audio and text.
pub fn catalogue_item(book: &Ebook) -> (item: EbookItem)
    ensures
        item.title@ == book.title@,
        item.author@ == match opt_chars(book.author) {
            Some(a) => if trimmed(a).len() > 0 {
                a
            } else {
                "Unknown Author"@
            },
            None => "Unknown Author"@,
        },
        item.detail@ == description_of(
            book.audio_chapters@.len() > 0,
            book.text_content is Some,
            Duration { nanos: saturate(total_nanos(chapter_views(book.audio_chapters@))) },
        ),
        item.has_audio == (book.audio_chapters@.len() > 0),
        item.has_text == book.text_content is Some,
{
    EbookItem {
        title: book.title.clone(),
        author: display_author(&book.author),
        detail: describe_book(book),
        has_audio: book.has_audio(),
        has_text: book.has_text(),
    }
}

} // verus!
