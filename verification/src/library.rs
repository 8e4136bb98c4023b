//! The catalogue of books and the rules by which files become books.

use crate::chars::{ascii_lower, chars_of, decimal, decimal_chars, lower_chars, same_text, string_of};
use crate::model::{
    clone_opt_string,
    format_of_extension,
    is_word,
    opt_chars,
    AudioChapter,
    ChapterId,
    Ebook,
    EbookId,
    TextChapter,
    TextContent,
    TextFormat,
};
use crate::paths::{
    by_path,
    components_le,
    lemma_by_path_rearranges,
    lemma_path_le_total,
    lemma_path_le_transitive,
    path_le,
    sort_by_path,
    ScannedFile,
};
use crate::text::{trim_chars, trimmed, TextMetadata};
use crate::time::Duration;
use crate::words::{humanize_label, humanized};
use vstd::prelude::*;

verus! {

/// Where a library is found and what its metadata files are called.
#[derive(Debug)]
pub struct LibraryConfig {
    pub root: String,
    pub metadata_file: String,
}

impl LibraryConfig {
    /// The library under `root`, with metadata files called `book.json`.
    pub fn new(root: String) -> (config: LibraryConfig)
        ensures
            config.root@ == root@,
            config.metadata_file@ == "book.json"@,
    {
        LibraryConfig { root, metadata_file: "book.json".to_owned() }
    }

    /// The same library, with metadata files called `name`.
    pub fn metadata_file(self, name: String) -> (config: LibraryConfig)
        ensures
            config.root@ == self.root@,
            config.metadata_file@ == name@,
    {
        LibraryConfig { root: self.root, metadata_file: name }
    }
}

/// The books of a library.
#[derive(Debug)]
pub struct Library {
    ebooks: Vec<Ebook>,
}

impl Library {
    /// The identifiers of the books, in order.
    pub closed spec fn ids(&self) -> Seq<Seq<char>> {
        self.ebooks@.map_values(|b: Ebook| b.id@)
    }

    /// The books, in order.
    pub closed spec fn books(&self) -> Seq<Ebook> {
        self.ebooks@
    }

    /// A library without books.
    pub fn new() -> (library: Library)
        ensures
            library.books().len() == 0,
    {
        Library { ebooks: Vec::new() }
    }

    /// Puts `data` in place of the books.
    pub fn replace_all(&mut self, data: Vec<Ebook>)
        ensures
            final(self).books() == data@,
    {
        self.ebooks = data;
    }

    /// The books, in order.
    pub fn iter(&self) -> (books: &Vec<Ebook>)
        ensures
            books@ == self.books(),
    {
        &self.ebooks
    }

    /// The first book with the identifier `id`, if there is one.
    pub fn get(&self, id: &EbookId) -> (found: Option<&Ebook>)
        ensures
            found is Some <==> exists|i: int| 0 <= i < self.books().len() && self.books()[i].id@ == id@,
            found is Some ==> exists|i: int|
                0 <= i < self.books().len() && *found->Some_0 == #[trigger] self.books()[i]
                    && self.books()[i].id@ == id@ && forall|k: int|
                    0 <= k < i ==> self.books()[k].id@ != id@,
    {
        let mut i: usize = 0;
        while i < self.ebooks.len()
            invariant
                i <= self.ebooks.len(),
                forall|k: int| 0 <= k < i ==> self.ebooks@[k].id@ != id@,
            decreases self.ebooks.len() - i,
        {
            if same_text(self.ebooks[i].id.as_str(), id.as_str()) {
                return Some(&self.ebooks[i]);
            }
            i = i + 1;
        }
        None
    }
}

impl Default for Library {
    fn default() -> (library: Library)
        ensures
            library.books().len() == 0,
    {
        Library::new()
    }
}

/// What loads a library.
#[derive(Debug)]
pub struct LibraryLoader {
    config: LibraryConfig,
}

impl LibraryLoader {
    /// The configuration, as mathematical values: root and metadata file
    /// name.
    pub closed spec fn view(&self) -> (Seq<char>, Seq<char>) {
        (self.config.root@, self.config.metadata_file@)
    }

    /// A loader for the library that `config` describes.
    pub fn new(config: LibraryConfig) -> (loader: LibraryLoader)
        ensures
            loader@ == (config.root@, config.metadata_file@),
    {
        LibraryLoader { config }
    }

    /// The library's configuration.
    pub fn config(&self) -> (config: &LibraryConfig)
        ensures
            (config.root@, config.metadata_file@) == self@,
    {
        &self.config
    }
}

/// Whether files with the extension `lower`, in small letters, hold
/// audio.
pub open spec fn audio_extension(lower: Seq<char>) -> bool {
    lower == "mp3"@ || lower == "m4a"@ || lower == "m4b"@ || lower == "flac"@ || lower == "wav"@
        || lower == "ogg"@ || lower == "oga"@ || lower == "opus"@ || lower == "aac"@
}

/// Whether files with the extension `lower`, in small letters, hold
/// text.
pub open spec fn text_extension(lower: Seq<char>) -> bool {
    lower == "epub"@ || lower == "mobi"@ || lower == "azw"@ || lower == "azw3"@ || lower == "pdf"@
        || lower == "txt"@ || lower == "htm"@ || lower == "html"@ || lower == "md"@ || lower
        == "markdown"@
}

/// What a file holds, by its extension.
#[derive(Debug, Clone, Copy, PartialEq, Eq, Structural)]
pub enum FileKind {
    Audio,
    Text,
}

/// What a file with the extension `ext` holds, whatever its letter case;
/// `None` where it is neither audio nor text.
pub fn file_kind(ext: &str) -> (kind: Option<FileKind>)
    ensures
        kind == if audio_extension(ascii_lower(ext@)) {
            Some(FileKind::Audio)
        } else if text_extension(ascii_lower(ext@)) {
            Some(FileKind::Text)
        } else {
            None
        },
{
    let lower = lower_chars(&chars_of(ext));
    if is_word(&lower, "mp3") || is_word(&lower, "m4a") || is_word(&lower, "m4b") || is_word(
        &lower,
        "flac",
    ) || is_word(&lower, "wav") || is_word(&lower, "ogg") || is_word(&lower, "oga") || is_word(
        &lower,
        "opus",
    ) || is_word(&lower, "aac") {
        Some(FileKind::Audio)
    } else if is_word(&lower, "epub") || is_word(&lower, "mobi") || is_word(&lower, "azw")
        || is_word(&lower, "azw3") || is_word(&lower, "pdf") || is_word(&lower, "txt") || is_word(
        &lower,
        "htm",
    ) || is_word(&lower, "html") || is_word(&lower, "md") || is_word(&lower, "markdown") {
        Some(FileKind::Text)
    } else {
        None
    }
}

/// The rank of a text file with the extension `ext` among the text files
/// of one book: the lower, the sooner it is chosen.
pub open spec fn priority_of(ext: Seq<char>) -> usize {
    if ext == "epub"@ {
        0
    } else if ext == "mobi"@ || ext == "azw"@ || ext == "azw3"@ {
        1
    } else if ext == "pdf"@ {
        2
    } else if ext == "html"@ || ext == "htm"@ {
        3
    } else if ext == "md"@ || ext == "markdown"@ {
        4
    } else if ext == "txt"@ {
        5
    } else {
        6
    }
}

/// The rank of a text file with the extension `ext` among the text files
/// of one book. Letter case counts.
pub fn text_priority(ext: &str) -> (rank: usize)
    ensures
        rank == priority_of(ext@),
{
    if same_text(ext, "epub") {
        0
    } else if same_text(ext, "mobi") || same_text(ext, "azw") || same_text(ext, "azw3") {
        1
    } else if same_text(ext, "pdf") {
        2
    } else if same_text(ext, "html") || same_text(ext, "htm") {
        3
    } else if same_text(ext, "md") || same_text(ext, "markdown") {
        4
    } else if same_text(ext, "txt") {
        5
    } else {
        6
    }
}

/// The title of the audio file with index `index` of a book: the label
/// made from its file stem, `Track` and its number where it has none.
pub fn track_title(stem: Option<&str>, index: usize) -> (title: String)
    ensures
        title@ == match stem {
            Some(s) => humanized(s@),
            None => "Track "@ + decimal((index + 1) as nat),
        },
{
    match stem {
        Some(s) => humanize_label(s),
        None => {
            let mut title = chars_of("Track ");
            let mut number = decimal_chars((index as u128) + 1);
            title.append(&mut number);
            string_of(&title)
        },
    }
}

/// `index` as a chapter index: its low 32 bits.
pub open spec fn chapter_index_of(index: usize) -> u32 {
    ((index as int) % 0x1_0000_0000) as u32
}

/// `index` as a chapter index: its low 32 bits.
pub fn to_chapter_index(index: usize) -> (out: u32)
    ensures
        out == chapter_index_of(index),
{
    ((index as u64) % 0x1_0000_0000u64) as u32
}

/// The audio chapter for the file `file` with index `index` of a book
/// that was found without metadata: a fresh identifier, the title that
/// [`track_title`] gives, no known length and no section.
pub fn scanned_chapter(file: String, stem: Option<&str>, index: usize) -> (chapter: AudioChapter)
    ensures
        chapter.id@.len() == 36,
        chapter.title@ == match stem {
            Some(s) => humanized(s@),
            None => "Track "@ + decimal((index + 1) as nat),
        },
        chapter.file@ == file@,
        chapter.duration is None,
        chapter.section is None,
        chapter.chapter_index == Some(chapter_index_of(index)),
{
    AudioChapter {
        id: ChapterId::new(),
        title: track_title(stem, index),
        file,
        duration: None,
        section: None,
        chapter_index: Some(to_chapter_index(index)),
    }
}

/// The title of a book whose text says `found` of its title: that title,
/// trimmed, where it is not blank; else the title `current`.
pub fn choose_title(current: String, found: Option<String>) -> (title: String)
    ensures
        title@ == match found {
            Some(t) => if trimmed(t@).len() > 0 {
                trimmed(t@)
            } else {
                current@
            },
            None => current@,
        },
{
    match found {
        Some(t) => {
            let kept = trim_chars(&chars_of(t.as_str()));
            if kept.len() > 0 {
                string_of(&kept)
            } else {
                current
            }
        },
        None => current,
    }
}

/// The author of a book whose text says `found` of its author: the
/// author already known, else that author, trimmed, where it is not
/// blank.
pub fn choose_author(current: Option<String>, found: Option<String>) -> (author: Option<String>)
    ensures
        opt_chars(author) == match current {
            Some(a) => Some(a@),
            None => match found {
                Some(t) => if trimmed(t@).len() > 0 {
                    Some(trimmed(t@))
                } else {
                    None
                },
                None => None,
            },
        },
{
    match current {
        Some(a) => Some(a),
        None => match found {
            Some(t) => {
                let kept = trim_chars(&chars_of(t.as_str()));
                if kept.len() > 0 {
                    Some(string_of(&kept))
                } else {
                    None
                }
            },
            None => None,
        },
    }
}

/// The outline of a text that brings none: one chapter for the full
/// text.
pub fn full_text_outline() -> (chapters: Vec<TextChapter>)
    ensures
        chapters@.len() == 1,
        chapters@[0].title@ == "Full Text"@,
        chapters@[0].locator is None,
        chapters@[0].chapter_index == Some(0u32),
{
    let mut chapters: Vec<TextChapter> = Vec::new();
    chapters.push(
        TextChapter {
            id: ChapterId::new(),
            title: "Full Text".to_owned(),
            locator: None,
            chapter_index: Some(0),
        },
    );
    chapters
}

/// One audio chapter as a metadata file describes it.
#[derive(Debug)]
pub struct MetadataAudioChapter {
    pub id: Option<String>,
    pub title: String,
    pub file: String,
    pub duration: Option<Duration>,
    pub section: Option<String>,
    pub chapter_index: Option<u32>,
}

impl MetadataAudioChapter {
    /// The chapter that this entry, the one with index `idx`, describes.
    /// `file` is where its audio is found. The identifier is the given
    /// one, else a fresh one; the chapter index is the given one, else
    /// `idx`.
    pub fn into_chapter(self, file: String, idx: usize) -> (chapter: AudioChapter)
        ensures
            match self.id {
                Some(id) => chapter.id@ == id@,
                None => chapter.id@.len() == 36,
            },
            chapter.title@ == self.title@,
            chapter.file@ == file@,
            chapter.duration == self.duration,
            opt_chars(chapter.section) == opt_chars(self.section),
            chapter.chapter_index == Some(
                match self.chapter_index {
                    Some(given) => given,
                    None => chapter_index_of(idx),
                },
            ),
    {
        AudioChapter {
            id: match self.id {
                Some(id) => ChapterId::from_string(id),
                None => ChapterId::new(),
            },
            title: self.title,
            file,
            duration: self.duration,
            section: self.section,
            chapter_index: match self.chapter_index {
                Some(given) => Some(given),
                None => Some(to_chapter_index(idx)),
            },
        }
    }
}

/// One outline entry as a metadata file describes it.
#[derive(Debug)]
pub struct MetadataTextChapter {
    pub title: String,
    pub locator: Option<String>,
}

impl MetadataTextChapter {
    /// The chapter that this entry, the one with index `idx`, describes,
    /// under a fresh identifier.
    pub fn into_chapter(self, idx: usize) -> (chapter: TextChapter)
        ensures
            chapter.id@.len() == 36,
            chapter.title@ == self.title@,
            opt_chars(chapter.locator) == opt_chars(self.locator),
            chapter.chapter_index == Some(chapter_index_of(idx)),
    {
        TextChapter {
            id: ChapterId::new(),
            title: self.title,
            locator: self.locator,
            chapter_index: Some(to_chapter_index(idx)),
        }
    }
}

/// A book's text as a metadata file describes it.
#[derive(Debug)]
pub struct MetadataText {
    pub file: String,
    pub format: Option<String>,
    pub toc: Vec<MetadataTextChapter>,
}

impl MetadataText {
    /// The format of the text: the one that the entry names, else the
    /// one that `extension`, the extension of its file, stands for.
    pub fn declared_format(&self, extension: Option<&str>) -> (format: TextFormat)
        ensures
            format == match self.format {
                Some(name) => format_of_extension(name@),
                None => match extension {
                    Some(ext) => format_of_extension(ext@),
                    None => TextFormat::Unknown,
                },
            },
    {
        match &self.format {
            Some(name) => TextFormat::from_extension(name.as_str()),
            None => match extension {
                Some(ext) => TextFormat::from_extension(ext),
                None => TextFormat::Unknown,
            },
        }
    }

    /// The text that this entry describes. `path` is where the text is
    /// found and `extension` the extension of that path, if it has one.
    /// The format is the one that the entry names, else the one that the
    /// extension stands for. The outline is the entry's own; where it
    /// has none, it is `outline`, the one found in the text itself.
    pub fn into_text(self, path: String, extension: Option<&str>, outline: Vec<TextChapter>) -> (text:
        TextContent)
        ensures
            text.file@ == path@,
            text.format == match self.format {
                Some(name) => format_of_extension(name@),
                None => match extension {
                    Some(ext) => format_of_extension(ext@),
                    None => TextFormat::Unknown,
                },
            },
            self.toc@.len() == 0 ==> text.chapters == outline,
            self.toc@.len() > 0 ==> text.chapters@.len() == self.toc@.len(),
            forall|i: int|
                0 <= i < self.toc@.len() ==> {
                    &&& (#[trigger] text.chapters@[i]).title@ == self.toc@[i].title@
                    &&& opt_chars(text.chapters@[i].locator) == opt_chars(self.toc@[i].locator)
                    &&& text.chapters@[i].chapter_index == Some(chapter_index_of(i as usize))
                    &&& text.chapters@[i].id@.len() == 36
                },
    {
        let format = self.declared_format(extension);
        if self.toc.len() == 0 {
            return TextContent { file: path, format, chapters: outline };
        }
        let mut chapters: Vec<TextChapter> = Vec::new();
        let mut i: usize = 0;
        while i < self.toc.len()
            invariant
                i <= self.toc.len(),
                chapters@.len() == i,
                forall|k: int|
                    0 <= k < i ==> {
                        &&& (#[trigger] chapters@[k]).title@ == self.toc@[k].title@
                        &&& opt_chars(chapters@[k].locator) == opt_chars(self.toc@[k].locator)
                        &&& chapters@[k].chapter_index == Some(chapter_index_of(k as usize))
                        &&& chapters@[k].id@.len() == 36
                    },
            decreases self.toc.len() - i,
        {
            let entry = MetadataTextChapter {
                title: self.toc[i].title.clone(),
                locator: clone_opt_string(&self.toc[i].locator),
            };
            chapters.push(entry.into_chapter(i));
            i = i + 1;
        }
        TextContent { file: path, format, chapters }
    }
}

/// A book as a metadata file describes it.
#[derive(Debug)]
pub struct MetadataFile {
    pub id: Option<String>,
    pub title: String,
    pub author: Option<String>,
    pub description: Option<String>,
    pub cover_art: Option<String>,
    pub audio_chapters: Vec<MetadataAudioChapter>,
    pub text: Option<MetadataText>,
}

impl MetadataFile {
    /// The book that this file describes, from its own fields and from
    /// what was made of its parts: the cover's place, the audio chapters
    /// and the text. The identifier is the given one, else a fresh one.
    pub fn into_ebook(
        self,
        cover_art: Option<String>,
        audio_chapters: Vec<AudioChapter>,
        text_content: Option<TextContent>,
    ) -> (book: Ebook)
        ensures
            match self.id {
                Some(id) => book.id@ == id@,
                None => book.id@.len() == 36,
            },
            book.title@ == self.title@,
            opt_chars(book.author) == opt_chars(self.author),
            opt_chars(book.description) == opt_chars(self.description),
            opt_chars(book.cover_art) == opt_chars(cover_art),
            book.audio_chapters == audio_chapters,
            book.text_content == text_content,
    {
        Ebook {
            id: match self.id {
                Some(id) => EbookId::from_string(id),
                None => EbookId::new(),
            },
            title: self.title,
            author: self.author,
            description: self.description,
            cover_art,
            audio_chapters,
            text_content,
        }
    }
}

/// Whether `text` begins with the characters of `start`.
pub open spec fn begins_with(text: Seq<char>, start: Seq<char>) -> bool {
    text.len() >= start.len() && text.take(start.len() as int) == start
}

/// Whether a file is a book's cover: its name begins with `cover.`, in
/// any letter case, and its extension is `jpg`, `jpeg`, `png` or `webp`,
/// in small letters.
pub open spec fn cover_file(name: Seq<char>, extension: Option<Seq<char>>) -> bool {
    begins_with(ascii_lower(name), "cover."@) && match extension {
        Some(ext) => ext == "jpg"@ || ext == "jpeg"@ || ext == "png"@ || ext == "webp"@,
        None => false,
    }
}

/// Whether the file with the name `name` and the extension `extension`
/// is a book's cover.
pub fn is_cover_file(name: &str, extension: Option<&str>) -> (yes: bool)
    ensures
        yes == cover_file(name@, crate::speech::opt_text(extension)),
{
    let lower = lower_chars(&chars_of(name));
    let start = chars_of("cover.");
    if lower.len() < start.len() {
        return false;
    }
    let mut i: usize = 0;
    while i < start.len()
        invariant
            i <= start.len() <= lower.len(),
            start@ == "cover."@,
            lower@ == ascii_lower(name@),
            forall|k: int| 0 <= k < i ==> lower@[k] == start@[k],
        decreases start.len() - i,
    {
        if lower[i] != start[i] {
            proof {
                let head = lower@.take(start@.len() as int);
                assert(head[i as int] == lower@[i as int]);
                assert(head[i as int] != start@[i as int]);
                assert(head != start@);
            }
            return false;
        }
        i = i + 1;
    }
    proof {
        assert(lower@.take(start@.len() as int) =~= start@);
    }
    match extension {
        Some(ext) => same_text(ext, "jpg") || same_text(ext, "jpeg") || same_text(ext, "png")
            || same_text(ext, "webp"),
        None => false,
    }
}

/// What was found in the text file of a book.
#[derive(Debug)]
pub struct TextFindings {
    pub outline: Vec<TextChapter>,
    pub metadata: TextMetadata,
}

/// The rank of a text file among the text files of one book: that of its
/// extension, the last where it has none.
pub open spec fn file_rank(file: &ScannedFile) -> usize {
    match file.extension {
        Some(ext) => priority_of(ext@),
        None => usize::MAX,
    }
}

/// The rank of a text file among the text files of one book.
pub fn rank_of(file: &ScannedFile) -> (rank: usize)
    ensures
        rank == file_rank(file),
{
    match &file.extension {
        Some(ext) => text_priority(ext.as_str()),
        None => usize::MAX,
    }
}

/// Whether the text file `a` is chosen no later than `b`: its rank is
/// lower, or the ranks are the same and its path comes before that of `b`
/// or is the same.
pub open spec fn file_before(a: ScannedFile, b: ScannedFile) -> bool {
    file_rank(&a) < file_rank(&b) || (file_rank(&a) == file_rank(&b) && path_le(
        a.components@,
        b.components@,
    ))
}

/// Of two text files, one is chosen no later than the other.
pub proof fn lemma_file_before_total(a: ScannedFile, b: ScannedFile)
    ensures
        file_before(a, b) || file_before(b, a),
{
    lemma_path_le_total(a.components@, b.components@);
}

/// A text file chosen no later than one that is chosen no later than a
/// third is chosen no later than the third.
pub proof fn lemma_file_before_transitive(a: ScannedFile, b: ScannedFile, c: ScannedFile)
    requires
        file_before(a, b),
        file_before(b, c),
    ensures
        file_before(a, c),
{
    if file_rank(&a) == file_rank(&b) && file_rank(&b) == file_rank(&c) {
        lemma_path_le_transitive(a.components@, b.components@, c.components@);
    }
}

/// Whether `best` is the place of the text file that is chosen among
/// `files`: no file has a lower rank; of the files of that rank none has
/// a path that comes before its path; and of several files of that rank
/// and path it is the first.
pub open spec fn is_chosen(files: Seq<ScannedFile>, best: int) -> bool {
    &&& 0 <= best < files.len()
    &&& forall|k: int| 0 <= k < files.len() ==> file_before(files[best], #[trigger] files[k])
    &&& forall|k: int| 0 <= k < best ==> !file_before(#[trigger] files[k], files[best])
}

/// The files of one book that came without metadata, gathered while the
/// library is walked, in whatever order they were found.
#[derive(Debug)]
pub struct BookBuilder {
    anchor: String,
    title: String,
    audio_files: Vec<ScannedFile>,
    text_files: Vec<ScannedFile>,
}

impl BookBuilder {
    /// Where the book's files were found.
    pub closed spec fn anchor(&self) -> Seq<char> {
        self.anchor@
    }

    /// The title that the book has from its place in the library.
    pub closed spec fn title(&self) -> Seq<char> {
        self.title@
    }

    /// The audio files, in the order added.
    pub closed spec fn audio(&self) -> Seq<ScannedFile> {
        self.audio_files@
    }

    /// The text files, in the order added.
    pub closed spec fn texts(&self) -> Seq<ScannedFile> {
        self.text_files@
    }

    /// A builder without files.
    pub fn new(anchor: String, title: String) -> (builder: BookBuilder)
        ensures
            builder.anchor() == anchor@,
            builder.title() == title@,
            builder.audio().len() == 0,
            builder.texts().len() == 0,
    {
        BookBuilder { anchor, title, audio_files: Vec::new(), text_files: Vec::new() }
    }

    /// Where the book's files were found.
    pub fn anchor_path(&self) -> (anchor: &str)
        ensures
            anchor@ == self.anchor(),
    {
        self.anchor.as_str()
    }

    /// Adds an audio file.
    pub fn add_audio(&mut self, file: ScannedFile)
        ensures
            final(self).audio() == old(self).audio().push(file),
            final(self).texts() == old(self).texts(),
            final(self).anchor() == old(self).anchor(),
            final(self).title() == old(self).title(),
    {
        self.audio_files.push(file);
    }

    /// Adds a text file.
    pub fn add_text(&mut self, file: ScannedFile)
        ensures
            final(self).texts() == old(self).texts().push(file),
            final(self).audio() == old(self).audio(),
            final(self).anchor() == old(self).anchor(),
            final(self).title() == old(self).title(),
    {
        self.text_files.push(file);
    }

    /// The place, in the order added, of the text file that stands for
    /// the book's text: the one of the lowest rank; among several of that
    /// rank the one whose path comes first; among several of that rank
    /// and path the first added. `None` where the book has no text file.
    pub fn select_text_file(&self) -> (chosen: Option<usize>)
        ensures
            chosen is None <==> self.texts().len() == 0,
            chosen is Some ==> is_chosen(self.texts(), chosen->Some_0 as int),
    {
        if self.text_files.len() == 0 {
            return None;
        }
        let mut best: usize = 0;
        let mut best_rank = rank_of(&self.text_files[0]);
        let mut i: usize = 1;
        proof {
            lemma_file_before_total(self.text_files@[0], self.text_files@[0]);
        }
        while i < self.text_files.len()
            invariant
                1 <= i <= self.text_files.len(),
                best < i,
                best_rank == file_rank(&self.text_files@[best as int]),
                forall|k: int|
                    0 <= k < i ==> file_before(
                        self.text_files@[best as int],
                        #[trigger] self.text_files@[k],
                    ),
                forall|k: int|
                    0 <= k < best ==> !file_before(
                        #[trigger] self.text_files@[k],
                        self.text_files@[best as int],
                    ),
            decreases self.text_files.len() - i,
        {
            let rank = rank_of(&self.text_files[i]);
            let sooner = rank < best_rank || (rank == best_rank && !components_le(
                &self.text_files[best].components,
                &self.text_files[i].components,
            ));
            if sooner {
                proof {
                    let files = self.text_files@;
                    let old_best = files[best as int];
                    let now = files[i as int];
                    assert(!file_before(old_best, now));
                    assert forall|k: int| 0 <= k < i + 1 implies file_before(
                        now,
                        #[trigger] files[k],
                    ) by {
                        lemma_file_before_total(now, files[k]);
                        if k < i && !file_before(now, files[k]) {
                            lemma_file_before_transitive(old_best, files[k], now);
                        }
                    }
                    assert forall|k: int| 0 <= k < i implies !file_before(
                        #[trigger] files[k],
                        now,
                    ) by {
                        if file_before(files[k], now) {
                            lemma_file_before_transitive(old_best, files[k], now);
                        }
                    }
                }
                best = i;
                best_rank = rank;
            }
            i = i + 1;
        }
        Some(best)
    }

    /// The book made of the gathered files; `None` where there are none.
    ///
    /// The audio files become the chapters, in ascending order of their
    /// paths (files with the same path in the order added), numbered from
    /// zero in that order and each titled by its own file stem. The
    /// chosen text file, if there is one, becomes the book's text, in the
    /// format that its extension stands for; `findings` is what was found
    /// in it. Its outline is the one found, or one chapter for the full
    /// text where none was found. A title found in the text takes the
    /// place of the builder's, and an author found there is the book's
    /// author, unless they are blank.
    pub fn build(self, cover_art: Option<String>, findings: Option<TextFindings>) -> (book: Option<
        Ebook,
    >)
        ensures
            book is None <==> self.audio().len() == 0 && self.texts().len() == 0,
            book matches Some(b) ==> {
                &&& b.id@.len() == 36
                &&& opt_chars(b.cover_art) == opt_chars(cover_art)
                &&& b.description is None
                &&& b.audio_chapters@.len() == self.audio().len()
                &&& b.audio_chapters@.len() == by_path(self.audio()).len()
                &&& forall|i: int|
                    0 <= i < b.audio_chapters@.len() ==> {
                        &&& (#[trigger] b.audio_chapters@[i]).file@ == by_path(
                            self.audio(),
                        )[i].path@
                        &&& b.audio_chapters@[i].title@ == match by_path(self.audio())[i].stem {
                            Some(s) => humanized(s@),
                            None => "Track "@ + decimal((i + 1) as nat),
                        }
                        &&& b.audio_chapters@[i].chapter_index == Some(chapter_index_of(i as usize))
                        &&& b.audio_chapters@[i].duration is None
                        &&& b.audio_chapters@[i].section is None
                        &&& b.audio_chapters@[i].id@.len() == 36
                    }
                &&& b.text_content is Some <==> self.texts().len() > 0
                &&& self.texts().len() == 0 ==> b.title@ == self.title() && b.author is None
                &&& self.texts().len() > 0 ==> exists|best: int|
                    {
                        &&& #[trigger] is_chosen(self.texts(), best)
                        &&& b.text_content->Some_0.file@ == self.texts()[best].path@
                        &&& b.text_content->Some_0.format == match self.texts()[best].extension {
                            Some(ext) => format_of_extension(ext@),
                            None => TextFormat::Unknown,
                        }
                    }
                &&& self.texts().len() > 0 && (findings is None || findings->Some_0.outline@.len()
                    == 0) ==> {
                    &&& b.text_content->Some_0.chapters@.len() == 1
                    &&& b.text_content->Some_0.chapters@[0].title@ == "Full Text"@
                    &&& b.text_content->Some_0.chapters@[0].locator is None
                    &&& b.text_content->Some_0.chapters@[0].chapter_index == Some(0u32)
                }
                &&& self.texts().len() > 0 ==> match findings {
                    Some(f) => {
                        &&& f.outline@.len() > 0 ==> b.text_content->Some_0.chapters == f.outline
                        &&& b.title@ == match f.metadata.title {
                            Some(t) => if trimmed(t@).len() > 0 {
                                trimmed(t@)
                            } else {
                                self.title()
                            },
                            None => self.title(),
                        }
                        &&& opt_chars(b.author) == match f.metadata.author {
                            Some(a) => if trimmed(a@).len() > 0 {
                                Some(trimmed(a@))
                            } else {
                                None
                            },
                            None => None,
                        }
                    },
                    None => b.title@ == self.title() && b.author is None,
                }
            },
    {
        if self.audio_files.len() == 0 && self.text_files.len() == 0 {
            return None;
        }
        let chosen = self.select_text_file();
        let mut title = self.title.clone();
        let mut author: Option<String> = None;
        let text_content = match chosen {
            Some(best) => {
                let file = &self.text_files[best];
                let format = match &file.extension {
                    Some(ext) => TextFormat::from_extension(ext.as_str()),
                    None => TextFormat::Unknown,
                };
                let chapters = match findings {
                    Some(found) => {
                        title = choose_title(title, found.metadata.title);
                        author = choose_author(author, found.metadata.author);
                        if found.outline.len() > 0 {
                            found.outline
                        } else {
                            full_text_outline()
                        }
                    },
                    None => full_text_outline(),
                };
                Some(TextContent { file: file.path.clone(), format, chapters })
            },
            None => None,
        };
        let ghost added = self.audio_files@;
        proof {
            lemma_by_path_rearranges(added);
        }
        let ordered = sort_by_path(self.audio_files);
        let mut audio_chapters: Vec<AudioChapter> = Vec::new();
        let mut i: usize = 0;
        while i < ordered.len()
            invariant
                i <= ordered.len(),
                audio_chapters@.len() == i,
                forall|k: int|
                    0 <= k < i ==> {
                        &&& (#[trigger] audio_chapters@[k]).file@ == ordered@[k].path@
                        &&& audio_chapters@[k].title@ == match ordered@[k].stem {
                            Some(s) => humanized(s@),
                            None => "Track "@ + decimal((k + 1) as nat),
                        }
                        &&& audio_chapters@[k].chapter_index == Some(chapter_index_of(k as usize))
                        &&& audio_chapters@[k].duration is None
                        &&& audio_chapters@[k].section is None
                        &&& audio_chapters@[k].id@.len() == 36
                    },
            decreases ordered.len() - i,
        {
            let file = &ordered[i];
            let stem: Option<&str> = match &file.stem {
                Some(s) => Some(s.as_str()),
                None => None,
            };
            audio_chapters.push(scanned_chapter(file.path.clone(), stem, i));
            i = i + 1;
        }
        Some(
            Ebook {
                id: EbookId::new(),
                title,
                author,
                description: None,
                cover_art,
                audio_chapters,
                text_content,
            },
        )
    }
}

} // verus!
