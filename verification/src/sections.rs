//! From what an extractor read to the sections of a text.

use crate::model::{opt_chars, TextChapter, TextContent, TextFormat};
use crate::outline::{extract_outline, flat_forest, flatten_navpoints, NavEntry};
use crate::text::{
    cleaned,
    epub_section_title,
    html_section,
    html_to_text,
    mobi_section,
    non_blank,
    outline_views,
    plain_text_section,
    render_failure,
    rendered_html,
    section_title_of,
    trimmed,
    TextError,
    TextMetadata,
    TextSection,
    RENDER_WIDTH,
};
use vstd::prelude::*;

verus! {

/// How the text of a book is to be read.
#[derive(Debug, Clone, Copy, PartialEq, Eq, Structural)]
pub enum SourceKind {
    Epub,
    Mobi,
    Pdf,
    Html,
    Plain,
}

/// How a text of the given format is to be read. A text of unknown
/// format is read as plain text.
pub fn source_kind(format: TextFormat) -> (kind: SourceKind)
    ensures
        kind == match format {
            TextFormat::Epub => SourceKind::Epub,
            TextFormat::Mobi => SourceKind::Mobi,
            TextFormat::Pdf => SourceKind::Pdf,
            TextFormat::Html => SourceKind::Html,
            TextFormat::PlainText | TextFormat::Markdown | TextFormat::Unknown => SourceKind::Plain,
        },
{
    match format {
        TextFormat::Epub => SourceKind::Epub,
        TextFormat::Mobi => SourceKind::Mobi,
        TextFormat::Pdf => SourceKind::Pdf,
        TextFormat::Html => SourceKind::Html,
        TextFormat::PlainText | TextFormat::Markdown | TextFormat::Unknown => SourceKind::Plain,
    }
}

/// The outline of a text of the given format whose table of contents is
/// `toc`: only an EPUB book brings one.
pub fn extract_outline_from_text(format: TextFormat, toc: &Vec<NavEntry>) -> (chapters: Vec<
    TextChapter,
>)
    ensures
        format != TextFormat::Epub ==> chapters@.len() == 0,
        format == TextFormat::Epub ==> chapters@.len() == flat_forest(toc@).len(),
        format == TextFormat::Epub ==> forall|i: int|
            0 <= i < chapters@.len() ==> {
                &&& (#[trigger] chapters@[i]).title@ == flat_forest(toc@)[i].title
                &&& chapters@[i].locator is Some
                &&& chapters@[i].locator->Some_0@ == crate::text::normalized_locator(
                    flat_forest(toc@)[i].locator,
                )
                &&& chapters@[i].chapter_index == Some(
                    crate::library::chapter_index_of(i as usize),
                )
                &&& chapters@[i].id@.len() == 36
            },
{
    match format {
        TextFormat::Epub => extract_outline(toc),
        _ => Vec::new(),
    }
}

/// What a book file says of title and author, as it was read.
#[derive(Debug)]
pub struct RawMetadata {
    pub title: Option<String>,
    /// The book's creator.
    pub creator: Option<String>,
    /// The book's author, where it names one apart from the creator.
    pub author: Option<String>,
    /// The creator in the role of author.
    pub author_role: Option<String>,
}

/// The first of three texts that is there.
pub open spec fn first_of(
    a: Option<Seq<char>>,
    b: Option<Seq<char>>,
    c: Option<Seq<char>>,
) -> Option<Seq<char>> {
    if a is Some {
        a
    } else if b is Some {
        b
    } else {
        c
    }
}

/// `text`, or nothing where it is missing or blank.
pub open spec fn unless_blank(text: Option<Seq<char>>) -> Option<Seq<char>> {
    match text {
        Some(t) => if trimmed(t).len() > 0 {
            Some(t)
        } else {
            None
        },
        None => None,
    }
}

/// Title and author of a text of the given format, from what its file
/// says. An EPUB book is taken at its word, with the creator, the author
/// or the creator in the role of author as its author, whichever is
/// there first. Of a MOBI book a blank title or author counts as none.
/// Other formats say nothing.
pub fn extract_text_metadata(format: TextFormat, raw: RawMetadata) -> (meta: TextMetadata)
    ensures
        opt_chars(meta.title) == match format {
            TextFormat::Epub => opt_chars(raw.title),
            TextFormat::Mobi => unless_blank(opt_chars(raw.title)),
            _ => None,
        },
        opt_chars(meta.author) == match format {
            TextFormat::Epub => first_of(
                opt_chars(raw.creator),
                opt_chars(raw.author),
                opt_chars(raw.author_role),
            ),
            TextFormat::Mobi => unless_blank(opt_chars(raw.author)),
            _ => None,
        },
{
    match format {
        TextFormat::Epub => TextMetadata {
            title: raw.title,
            author: if raw.creator.is_some() {
                raw.creator
            } else if raw.author.is_some() {
                raw.author
            } else {
                raw.author_role
            },
        },
        TextFormat::Mobi => TextMetadata {
            title: match raw.title {
                Some(t) => non_blank(t),
                None => None,
            },
            author: match raw.author {
                Some(a) => non_blank(a),
                None => None,
            },
        },
        _ => TextMetadata { title: None, author: None },
    }
}

/// One page of an EPUB book: where it is found inside the book, and its
/// HTML.
#[derive(Debug)]
pub struct EpubPage {
    pub path: String,
    pub html: String,
}

/// The text of a book as it was read from its file.
#[derive(Debug)]
pub enum TextSource {
    /// Plain text.
    Plain(String),
    /// One HTML document.
    Html(String),
    /// The text extracted from a PDF file.
    Pdf(String),
    /// A MOBI book: its title and its HTML.
    Mobi { title: String, html: String },
    /// An EPUB book: its pages in reading order and its table of
    /// contents.
    Epub { pages: Vec<EpubPage>, toc: Vec<NavEntry> },
}

/// The sections of an EPUB book with the outline `chapters`: one for
/// each page, in order, titled as [`epub_section_title`] says, with the
/// text of the page's HTML cleaned. A book without pages is refused, and
/// so is one with a page that cannot be rendered.
pub fn epub_sections(chapters: &Vec<TextChapter>, pages: &Vec<EpubPage>, toc: &Vec<NavEntry>) -> (
    sections: Result<Vec<TextSection>, TextError>)
    ensures
        pages@.len() == 0 ==> sections is Err && sections->Err_0.message@
            == "epub contained no readable pages"@,
        sections is Ok <==> pages@.len() > 0 && forall|i: int|
            0 <= i < pages@.len() ==> rendered_html(
                (#[trigger] pages@[i]).html@,
                RENDER_WIDTH as nat,
            ) is Some,
        sections matches Ok(list) ==> list@.len() == pages@.len() && forall|i: int|
            0 <= i < pages@.len() ==> (#[trigger] list@[i]).body@ == cleaned(
                rendered_html(pages@[i].html@, RENDER_WIDTH as nat)->Some_0,
            ) && list@[i].title@ == section_title_of(
                outline_views(chapters@),
                flat_forest(toc@),
                pages@[i].path@,
                i as nat,
            ),
        sections is Err && pages@.len() > 0 ==> exists|detail: Seq<char>|
            sections->Err_0.message@ == render_failure("EPUB section"@, detail),
{
    if pages.len() == 0 {
        return Err(TextError { message: "epub contained no readable pages".to_owned() });
    }
    let flat = flatten_navpoints(toc);
    let mut sections: Vec<TextSection> = Vec::new();
    let mut i: usize = 0;
    while i < pages.len()
        invariant
            i <= pages.len(),
            sections@.len() == i,
            forall|k: int|
                0 <= k < i ==> rendered_html((#[trigger] pages@[k]).html@, RENDER_WIDTH as nat)
                    is Some,
            forall|k: int|
                0 <= k < i ==> (#[trigger] sections@[k]).body@ == cleaned(
                    rendered_html(pages@[k].html@, RENDER_WIDTH as nat)->Some_0,
                ) && sections@[k].title@ == section_title_of(
                    outline_views(chapters@),
                    flat_forest(toc@),
                    pages@[k].path@,
                    k as nat,
                ),
            crate::text::items_of(flat@) == flat_forest(toc@),
        decreases pages.len() - i,
    {
        let title = epub_section_title(pages[i].path.as_str(), i, chapters, &flat);
        match html_to_text(pages[i].html.as_str(), "EPUB section") {
            Ok(body) => {
                sections.push(TextSection { title, body });
            },
            Err(error) => {
                return Err(error);
            },
        }
        i = i + 1;
    }
    Ok(sections)
}

/// The sections of the text `content` as it was read into `source`. An
/// EPUB book has one section for each page; every other text is one
/// section, titled by the first chapter of its outline. Plain text and
/// PDF text are cleaned; HTML is rendered to text first.
pub fn load_text_sections(content: &TextContent, source: &TextSource) -> (sections: Result<
    Vec<TextSection>,
    TextError,
>)
    ensures
        match source {
            TextSource::Plain(raw) | TextSource::Pdf(raw) => sections is Ok
                && sections->Ok_0@.len() == 1 && sections->Ok_0@[0].body@ == cleaned(raw@),
            TextSource::Html(html) => match rendered_html(html@, RENDER_WIDTH as nat) {
                Some(text) => sections is Ok && sections->Ok_0@.len() == 1
                    && sections->Ok_0@[0].body@ == cleaned(text),
                None => sections is Err && exists|detail: Seq<char>|
                    sections->Err_0.message@ == render_failure("HTML content"@, detail),
            },
            TextSource::Mobi { title, html } => match rendered_html(html@, RENDER_WIDTH as nat) {
                Some(text) => sections is Ok && sections->Ok_0@.len() == 1
                    && sections->Ok_0@[0].body@ == cleaned(text),
                None => sections is Err && exists|detail: Seq<char>|
                    sections->Err_0.message@ == render_failure("MOBI content"@, detail),
            },
            TextSource::Epub { pages, toc } => {
                &&& sections is Ok <==> pages@.len() > 0 && forall|i: int|
                    0 <= i < pages@.len() ==> rendered_html(
                        (#[trigger] pages@[i]).html@,
                        RENDER_WIDTH as nat,
                    ) is Some
                &&& sections matches Ok(list) ==> list@.len() == pages@.len() && forall|i: int|
                    0 <= i < pages@.len() ==> (#[trigger] list@[i]).body@ == cleaned(
                        rendered_html(pages@[i].html@, RENDER_WIDTH as nat)->Some_0,
                    ) && list@[i].title@ == section_title_of(
                        outline_views(content.chapters@),
                        flat_forest(toc@),
                        pages@[i].path@,
                        i as nat,
                    )
                &&& pages@.len() == 0 ==> sections is Err && sections->Err_0.message@
                    == "epub contained no readable pages"@
                &&& sections is Err && pages@.len() > 0 ==> exists|detail: Seq<char>|
                    sections->Err_0.message@ == render_failure("EPUB section"@, detail)
            },
        },
        !(source is Epub) && sections is Ok ==> sections->Ok_0@[0].title@ == match source {
            TextSource::Mobi { title, html } => if trimmed(title@).len() > 0 {
                title@
            } else if content.chapters@.len() > 0 {
                content.chapters@[0].title@
            } else {
                "Document"@
            },
            _ => if content.chapters@.len() > 0 {
                content.chapters@[0].title@
            } else {
                "Document"@
            },
        },
{
    match source {
        TextSource::Plain(raw) => {
            let mut list: Vec<TextSection> = Vec::new();
            list.push(plain_text_section(&content.chapters, raw.as_str()));
            Ok(list)
        },
        TextSource::Pdf(raw) => {
            let mut list: Vec<TextSection> = Vec::new();
            list.push(plain_text_section(&content.chapters, raw.as_str()));
            Ok(list)
        },
        TextSource::Html(html) => match html_section(&content.chapters, html.as_str()) {
            Ok(section) => {
                let mut list: Vec<TextSection> = Vec::new();
                list.push(section);
                Ok(list)
            },
            Err(error) => Err(error),
        },
        TextSource::Mobi { title, html } => match mobi_section(
            &content.chapters,
            title.clone(),
            html.as_str(),
        ) {
            Ok(section) => {
                let mut list: Vec<TextSection> = Vec::new();
                list.push(section);
                Ok(list)
            },
            Err(error) => Err(error),
        },
        TextSource::Epub { pages, toc } => epub_sections(&content.chapters, pages, toc),
    }
}

/// The sections to show for a text: its own, or one that says that
/// nothing readable was found where it has none.
pub fn ensure_sections(sections: Vec<TextSection>) -> (shown: Vec<TextSection>)
    ensures
        sections@.len() > 0 ==> shown == sections,
        sections@.len() == 0 ==> shown@.len() == 1 && shown@[0].title@ == "Document"@
            && shown@[0].body@ == "No readable content was found in this file."@,
{
    if sections.len() > 0 {
        sections
    } else {
        let mut shown: Vec<TextSection> = Vec::new();
        shown.push(
            TextSection {
                title: "Document".to_owned(),
                body: "No readable content was found in this file.".to_owned(),
            },
        );
        shown
    }
}

} // verus!
