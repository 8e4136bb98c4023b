//! Books and their chapters.

use crate::chars::{ascii_lower, chars_of, lower_chars, same_chars};
use crate::time::{saturate, Duration};
use vstd::prelude::*;

verus! {

/// A fresh random identifier: a version 4 UUID in its hyphenated form.
///
/// Calls `uuid::Uuid::new_v4` and formats the result with its `Display`
/// impl. Assumed: the text is 36 characters long, as the hyphenated form
/// always is. Nothing is assumed of the characters themselves, which are
/// random.
#[verifier::external_body]
fn fresh_uuid() -> (id: String)
    ensures
        id@.len() == 36,
{
    uuid::Uuid::new_v4().to_string()
}

/// Whether a path is absolute on this platform.
///
/// Calls `std::path::Path::is_absolute`. Nothing is assumed of the
/// answer: what counts as absolute differs from platform to platform.
#[verifier::external_body]
fn path_is_absolute(path: &str) -> bool {
    std::path::Path::new(path).is_absolute()
}

/// The path `path` seen from the directory `root`.
///
/// Calls `std::path::Path::join` and takes the result as text. Nothing is
/// assumed of the result: how paths are joined differs from platform to
/// platform.
#[verifier::external_body]
fn path_join(root: &str, path: &str) -> String {
    std::path::Path::new(root).join(path).to_string_lossy().into_owned()
}

/// Whether `path` is where `file` is found, seen from `root`: `file`
/// itself where the platform takes it for absolute, else what the
/// platform joins `root` and `file` to.
pub closed spec fn resolves_to(file: Seq<char>, root: Seq<char>, path: Seq<char>) -> bool {
    ||| exists|f: &str|
        f@ == file && #[trigger] call_ensures(path_is_absolute, (f,), true) && path == file
    ||| exists|f: &str, r: &str, joined: String|
        {
            &&& f@ == file
            &&& r@ == root
            &&& joined@ == path
            &&& call_ensures(path_is_absolute, (f,), false)
            &&& #[trigger] call_ensures(path_join, (r, f), joined)
        }
}

/// Where `file` is found, seen from `root`: `file` itself where it is
/// absolute, else `root` joined with `file`.
pub fn resolve_from(file: &str, root: &str) -> (path: String)
    ensures
        resolves_to(file@, root@, path@),
{
    if path_is_absolute(file) {
        proof {
            assert(call_ensures(path_is_absolute, (file,), true));
        }
        file.to_owned()
    } else {
        let path = path_join(root, file);
        proof {
            assert(call_ensures(path_is_absolute, (file,), false));
            assert(call_ensures(path_join, (root, file), path));
        }
        path
    }
}

/// The characters of an optional string.
pub open spec fn opt_chars(text: Option<String>) -> Option<Seq<char>> {
    match text {
        Some(s) => Some(s@),
        None => None,
    }
}

/// A copy of an optional string.
pub fn clone_opt_string(text: &Option<String>) -> (copy: Option<String>)
    ensures
        opt_chars(copy) == opt_chars(*text),
{
    match text {
        Some(s) => Some(s.clone()),
        None => None,
    }
}

/// The identifier of a book.
#[derive(Debug, PartialEq, Eq, Hash)]
pub struct EbookId(String);

impl View for EbookId {
    type V = Seq<char>;

    closed spec fn view(&self) -> Seq<char> {
        self.0@
    }
}

impl EbookId {
    /// A fresh random identifier, 36 characters long.
    pub fn new() -> (id: EbookId)
        ensures
            id@.len() == 36,
    {
        EbookId(fresh_uuid())
    }

    /// The identifier with the given text.
    pub fn from_string(id: String) -> (out: EbookId)
        ensures
            out@ == id@,
    {
        EbookId(id)
    }

    /// The identifier's text.
    pub fn as_str(&self) -> (text: &str)
        ensures
            text@ == self@,
    {
        self.0.as_str()
    }
}

impl Clone for EbookId {
    fn clone(&self) -> (copy: EbookId)
        ensures
            copy@ == self@,
    {
        EbookId(self.0.clone())
    }
}

impl Default for EbookId {
    fn default() -> (id: EbookId)
        ensures
            id@.len() == 36,
    {
        EbookId::new()
    }
}

/// The identifier of a chapter.
#[derive(Debug, PartialEq, Eq, Hash)]
pub struct ChapterId(String);

impl View for ChapterId {
    type V = Seq<char>;

    closed spec fn view(&self) -> Seq<char> {
        self.0@
    }
}

impl ChapterId {
    /// A fresh random identifier, 36 characters long.
    pub fn new() -> (id: ChapterId)
        ensures
            id@.len() == 36,
    {
        ChapterId(fresh_uuid())
    }

    /// The identifier with the given text.
    pub fn from_string(id: String) -> (out: ChapterId)
        ensures
            out@ == id@,
    {
        ChapterId(id)
    }

    /// The identifier's text.
    pub fn as_str(&self) -> (text: &str)
        ensures
            text@ == self@,
    {
        self.0.as_str()
    }
}

impl Clone for ChapterId {
    fn clone(&self) -> (copy: ChapterId)
        ensures
            copy@ == self@,
    {
        ChapterId(self.0.clone())
    }
}

impl Default for ChapterId {
    fn default() -> (id: ChapterId)
        ensures
            id@.len() == 36,
    {
        ChapterId::new()
    }
}

/// A pre-recorded audio chapter: the unit that playback loads and plays.
#[derive(Debug)]
pub struct AudioChapter {
    pub id: ChapterId,
    pub title: String,
    /// Where the audio is found.
    pub file: String,
    /// The chapter's length, where it is known.
    pub duration: Option<Duration>,
    pub section: Option<String>,
    pub chapter_index: Option<u32>,
}

/// What an [`AudioChapter`] holds, as mathematical values.
pub struct AudioChapterView {
    pub id: Seq<char>,
    pub title: Seq<char>,
    pub file: Seq<char>,
    pub duration: Option<Duration>,
    pub section: Option<Seq<char>>,
    pub chapter_index: Option<u32>,
}

impl View for AudioChapter {
    type V = AudioChapterView;

    open spec fn view(&self) -> AudioChapterView {
        AudioChapterView {
            id: self.id@,
            title: self.title@,
            file: self.file@,
            duration: self.duration,
            section: opt_chars(self.section),
            chapter_index: self.chapter_index,
        }
    }
}

impl AudioChapter {
    /// Where the chapter's audio is found, seen from `root`: its file
    /// itself where that is absolute, else `root` joined with it.
    pub fn resolves_from(&self, root: &str) -> (path: String)
        ensures
            resolves_to(self.file@, root@, path@),
    {
        resolve_from(self.file.as_str(), root)
    }
}

impl Clone for AudioChapter {
    fn clone(&self) -> (copy: AudioChapter)
        ensures
            copy@ == self@,
    {
        AudioChapter {
            id: self.id.clone(),
            title: self.title.clone(),
            file: self.file.clone(),
            duration: self.duration,
            section: clone_opt_string(&self.section),
            chapter_index: self.chapter_index,
        }
    }
}

/// The views of a list of chapters.
pub open spec fn chapter_views(chapters: Seq<AudioChapter>) -> Seq<AudioChapterView> {
    chapters.map_values(|c: AudioChapter| c@)
}

/// The format of a book's text.
#[derive(Debug, Clone, Copy, PartialEq, Eq, Structural)]
pub enum TextFormat {
    Epub,
    Mobi,
    Pdf,
    PlainText,
    Markdown,
    Html,
    Unknown,
}

/// The format that a file extension stands for, whatever its letter case.
pub open spec fn format_of_extension(ext: Seq<char>) -> TextFormat {
    let lower = ascii_lower(ext);
    if lower == "epub"@ {
        TextFormat::Epub
    } else if lower == "mobi"@ || lower == "azw"@ || lower == "azw3"@ {
        TextFormat::Mobi
    } else if lower == "pdf"@ {
        TextFormat::Pdf
    } else {
        TextFormat::Unknown
    }
}

/// Whether `text` is the characters of `word`.
pub fn is_word(text: &Vec<char>, word: &str) -> (yes: bool)
    ensures
        yes == (text@ == word@),
{
    same_chars(text, &chars_of(word))
}

impl TextFormat {
    /// The format that the file extension `ext` stands for: `epub`;
    /// `mobi`, `azw` and `azw3`; `pdf`; in any letter case. Every other
    /// extension is `Unknown`.
    pub fn from_extension(ext: &str) -> (format: TextFormat)
        ensures
            format == format_of_extension(ext@),
    {
        let lower = lower_chars(&chars_of(ext));
        if is_word(&lower, "epub") {
            TextFormat::Epub
        } else if is_word(&lower, "mobi") || is_word(&lower, "azw") || is_word(&lower, "azw3") {
            TextFormat::Mobi
        } else if is_word(&lower, "pdf") {
            TextFormat::Pdf
        } else {
            TextFormat::Unknown
        }
    }
}

/// One entry of a text's outline.
#[derive(Debug)]
pub struct TextChapter {
    pub id: ChapterId,
    pub title: String,
    pub locator: Option<String>,
    pub chapter_index: Option<u32>,
}

/// What a [`TextChapter`] holds, as mathematical values.
pub struct TextChapterView {
    pub id: Seq<char>,
    pub title: Seq<char>,
    pub locator: Option<Seq<char>>,
    pub chapter_index: Option<u32>,
}

impl View for TextChapter {
    type V = TextChapterView;

    open spec fn view(&self) -> TextChapterView {
        TextChapterView {
            id: self.id@,
            title: self.title@,
            locator: opt_chars(self.locator),
            chapter_index: self.chapter_index,
        }
    }
}

impl Clone for TextChapter {
    fn clone(&self) -> (copy: TextChapter)
        ensures
            copy@ == self@,
    {
        TextChapter {
            id: self.id.clone(),
            title: self.title.clone(),
            locator: clone_opt_string(&self.locator),
            chapter_index: self.chapter_index,
        }
    }
}

/// The text that belongs to a book.
#[derive(Debug)]
pub struct TextContent {
    /// Where the text is found.
    pub file: String,
    pub format: TextFormat,
    pub chapters: Vec<TextChapter>,
}

/// What a [`TextContent`] holds, as mathematical values.
pub struct TextContentView {
    pub file: Seq<char>,
    pub format: TextFormat,
    pub chapters: Seq<TextChapterView>,
}

impl View for TextContent {
    type V = TextContentView;

    open spec fn view(&self) -> TextContentView {
        TextContentView {
            file: self.file@,
            format: self.format,
            chapters: self.chapters@.map_values(|c: TextChapter| c@),
        }
    }
}

impl TextContent {
    /// Where the text is found, seen from `root`: its file itself where
    /// that is absolute, else `root` joined with it.
    pub fn resolves_from(&self, root: &str) -> (path: String)
        ensures
            resolves_to(self.file@, root@, path@),
    {
        resolve_from(self.file.as_str(), root)
    }
}

impl Clone for TextContent {
    fn clone(&self) -> (copy: TextContent)
        ensures
            copy@ == self@,
    {
        let mut chapters: Vec<TextChapter> = Vec::new();
        let mut i: usize = 0;
        while i < self.chapters.len()
            invariant
                i <= self.chapters.len(),
                chapters@.len() == i,
                forall|k: int| 0 <= k < i ==> (#[trigger] chapters@[k])@ == self.chapters@[k]@,
            decreases self.chapters.len() - i,
        {
            chapters.push(self.chapters[i].clone());
            i = i + 1;
        }
        proof {
            assert(chapters@.map_values(|c: TextChapter| c@) =~= self.chapters@.map_values(
                |c: TextChapter| c@,
            ));
        }
        TextContent { file: self.file.clone(), format: self.format, chapters }
    }
}

/// The view of an optional text.
pub open spec fn opt_text_view(text: Option<TextContent>) -> Option<TextContentView> {
    match text {
        Some(t) => Some(t@),
        None => None,
    }
}

/// A book: audio chapters, text, or both.
#[derive(Debug)]
pub struct Ebook {
    pub id: EbookId,
    pub title: String,
    pub author: Option<String>,
    pub description: Option<String>,
    pub cover_art: Option<String>,
    pub audio_chapters: Vec<AudioChapter>,
    pub text_content: Option<TextContent>,
}

/// What an [`Ebook`] holds, as mathematical values.
pub struct EbookView {
    pub id: Seq<char>,
    pub title: Seq<char>,
    pub author: Option<Seq<char>>,
    pub description: Option<Seq<char>>,
    pub cover_art: Option<Seq<char>>,
    pub audio_chapters: Seq<AudioChapterView>,
    pub text_content: Option<TextContentView>,
}

impl View for Ebook {
    type V = EbookView;

    open spec fn view(&self) -> EbookView {
        EbookView {
            id: self.id@,
            title: self.title@,
            author: opt_chars(self.author),
            description: opt_chars(self.description),
            cover_art: opt_chars(self.cover_art),
            audio_chapters: chapter_views(self.audio_chapters@),
            text_content: opt_text_view(self.text_content),
        }
    }
}

impl Clone for Ebook {
    fn clone(&self) -> (copy: Ebook)
        ensures
            copy@ == self@,
    {
        let mut audio_chapters: Vec<AudioChapter> = Vec::new();
        let mut i: usize = 0;
        while i < self.audio_chapters.len()
            invariant
                i <= self.audio_chapters.len(),
                audio_chapters@.len() == i,
                forall|k: int|
                    0 <= k < i ==> (#[trigger] audio_chapters@[k])@ == self.audio_chapters@[k]@,
            decreases self.audio_chapters.len() - i,
        {
            audio_chapters.push(self.audio_chapters[i].clone());
            i = i + 1;
        }
        proof {
            assert(chapter_views(audio_chapters@) =~= chapter_views(self.audio_chapters@));
        }
        Ebook {
            id: self.id.clone(),
            title: self.title.clone(),
            author: clone_opt_string(&self.author),
            description: clone_opt_string(&self.description),
            cover_art: clone_opt_string(&self.cover_art),
            audio_chapters,
            text_content: match &self.text_content {
                Some(text) => Some(text.clone()),
                None => None,
            },
        }
    }
}

/// The nanoseconds of all chapters whose length is known, added up.
pub open spec fn total_nanos(chapters: Seq<AudioChapterView>) -> int
    decreases chapters.len(),
{
    if chapters.len() == 0 {
        0
    } else {
        total_nanos(chapters.drop_last()) + match chapters.last().duration {
            Some(d) => d.nanos as int,
            None => 0,
        }
    }
}

/// The total of known lengths is never negative.
pub proof fn lemma_total_nanos_nonnegative(chapters: Seq<AudioChapterView>)
    ensures
        total_nanos(chapters) >= 0,
    decreases chapters.len(),
{
    if chapters.len() > 0 {
        lemma_total_nanos_nonnegative(chapters.drop_last());
    }
}

impl Ebook {
    /// A book with a fresh identifier, the given title and author, and
    /// nothing else: no description, cover, audio or text.
    pub fn new(title: String, author: Option<String>) -> (book: Ebook)
        ensures
            book.id@.len() == 36,
            book.title@ == title@,
            opt_chars(book.author) == opt_chars(author),
            book.description is None,
            book.cover_art is None,
            book.audio_chapters@.len() == 0,
            book.text_content is None,
    {
        Ebook {
            id: EbookId::new(),
            title,
            author,
            description: None,
            cover_art: None,
            audio_chapters: Vec::new(),
            text_content: None,
        }
    }

    /// The lengths of all audio chapters whose length is known, added
    /// up and capped at the longest span.
    pub fn total_audio_duration(&self) -> (total: Duration)
        ensures
            total.nanos == saturate(total_nanos(chapter_views(self.audio_chapters@))),
    {
        let mut total = Duration::zero();
        let mut i: usize = 0;
        let ghost views = chapter_views(self.audio_chapters@);
        proof {
            assert(views.take(0) =~= Seq::<AudioChapterView>::empty());
        }
        while i < self.audio_chapters.len()
            invariant
                i <= self.audio_chapters.len(),
                views == chapter_views(self.audio_chapters@),
                total.nanos == saturate(total_nanos(views.take(i as int))),
            decreases self.audio_chapters.len() - i,
        {
            proof {
                assert(views.take(i + 1).drop_last() =~= views.take(i as int));
                assert(views.take(i + 1).last() == self.audio_chapters@[i as int]@);
                lemma_total_nanos_nonnegative(views.take(i as int));
            }
            match self.audio_chapters[i].duration {
                Some(d) => {
                    total = total.saturating_add(d);
                },
                None => {},
            }
            i = i + 1;
        }
        proof {
            assert(views.take(i as int) =~= views);
        }
        total
    }

    /// Whether the book has at least one audio chapter.
    pub fn has_audio(&self) -> (yes: bool)
        ensures
            yes == (self.audio_chapters@.len() > 0),
    {
        self.audio_chapters.len() > 0
    }

    /// Whether the book has text.
    pub fn has_text(&self) -> (yes: bool)
        ensures
            yes == self.text_content is Some,
    {
        self.text_content.is_some()
    }
}

} // verus!
