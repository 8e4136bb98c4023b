//! The text of a book: sections, their titles, and the cleaning of what
//! an extractor hands over.

use crate::chars::{
    char_is_whitespace,
    chars_of,
    decimal,
    decimal_chars,
    is_whitespace_char,
    same_text,
    string_of,
};
use crate::model::{TextChapter, TextChapterView};
use vstd::prelude::*;

verus! {

/// One section of a book's text.
#[derive(Debug)]
pub struct TextSection {
    pub title: String,
    pub body: String,
}

/// What a text says of itself.
#[derive(Debug)]
pub struct TextMetadata {
    pub title: Option<String>,
    pub author: Option<String>,
}

impl Default for TextMetadata {
    fn default() -> (meta: TextMetadata)
        ensures
            meta.title is None,
            meta.author is None,
    {
        TextMetadata { title: None, author: None }
    }
}

/// Why a text could not be turned into sections.
#[derive(Debug)]
pub struct TextError {
    pub message: String,
}

/// `text` with every carriage return that stands before a line feed taken
/// out.
pub open spec fn without_cr(text: Seq<char>) -> Seq<char>
    decreases text.len(),
{
    if text.len() == 0 {
        text
    } else if text.len() >= 2 && text[0] == '\r' && text[1] == '\n' {
        seq!['\n'] + without_cr(text.skip(2))
    } else {
        seq![text[0]] + without_cr(text.skip(1))
    }
}

/// `line` without the carriage return at its end, if it has one.
pub open spec fn without_final_cr(line: Seq<char>) -> Seq<char> {
    if line.len() > 0 && line.last() == '\r' {
        line.drop_last()
    } else {
        line
    }
}

/// The lines of `text` that a line feed closes, each without the
/// carriage return before that line feed.
pub open spec fn closed_lines(text: Seq<char>) -> Seq<Seq<char>>
    decreases text.len(),
{
    if text.len() == 0 {
        Seq::empty()
    } else if text.last() == '\n' {
        closed_lines(text.drop_last()).push(without_final_cr(open_line(text.drop_last())))
    } else {
        closed_lines(text.drop_last())
    }
}

/// What follows the last line feed of `text`.
pub open spec fn open_line(text: Seq<char>) -> Seq<char>
    decreases text.len(),
{
    if text.len() == 0 || text.last() == '\n' {
        Seq::empty()
    } else {
        open_line(text.drop_last()).push(text.last())
    }
}

/// The lines of `text`: what stands between its line feeds, without the
/// line endings. What follows the last line feed is a line only where it
/// is not empty.
pub open spec fn lines_of(text: Seq<char>) -> Seq<Seq<char>> {
    if open_line(text).len() > 0 {
        closed_lines(text).push(open_line(text))
    } else {
        closed_lines(text)
    }
}

/// `text` without the white space at its end.
pub open spec fn trimmed_end(text: Seq<char>) -> Seq<char>
    decreases text.len(),
{
    if text.len() > 0 && is_whitespace_char(text.last()) {
        trimmed_end(text.drop_last())
    } else {
        text
    }
}

/// `text` without the white space at its start.
pub open spec fn trimmed_start(text: Seq<char>) -> Seq<char>
    decreases text.len(),
{
    if text.len() > 0 && is_whitespace_char(text[0]) {
        trimmed_start(text.drop_first())
    } else {
        text
    }
}

/// `text` without the white space at either end.
pub open spec fn trimmed(text: Seq<char>) -> Seq<char> {
    trimmed_start(trimmed_end(text))
}

/// The lines that are kept of `lines`: every line trimmed, and of each
/// run of blank lines only the first.
pub open spec fn kept_lines(lines: Seq<Seq<char>>) -> Seq<Seq<char>>
    decreases lines.len(),
{
    if lines.len() == 0 {
        Seq::empty()
    } else {
        let before = kept_lines(lines.drop_last());
        let line = trimmed(lines.last());
        if line.len() > 0 {
            before.push(line)
        } else if lines.len() >= 2 && trimmed(lines[lines.len() - 2]).len() == 0 {
            before
        } else {
            before.push(line)
        }
    }
}

/// `lines` put one after the other with a line feed between them.
pub open spec fn joined_lines(lines: Seq<Seq<char>>) -> Seq<char>
    decreases lines.len(),
{
    if lines.len() == 0 {
        Seq::empty()
    } else if lines.len() == 1 {
        lines[0]
    } else {
        joined_lines(lines.drop_last()) + seq!['\n'] + lines.last()
    }
}

/// The clean form of extracted text: line endings made uniform, every
/// line trimmed, runs of blank lines reduced to one, and the whole
/// trimmed.
pub open spec fn cleaned(text: Seq<char>) -> Seq<char> {
    trimmed(joined_lines(kept_lines(lines_of(without_cr(text)))))
}

/// `text` with every carriage return that stands before a line feed taken
/// out.
fn drop_carriage_returns(text: &Vec<char>) -> (out: Vec<char>)
    ensures
        out@ == without_cr(text@),
{
    let mut out: Vec<char> = Vec::new();
    let mut i: usize = 0;
    proof {
        assert(text@.skip(0) =~= text@);
        assert(out@ + without_cr(text@) =~= without_cr(text@));
    }
    while i < text.len()
        invariant
            i <= text.len(),
            without_cr(text@) == out@ + without_cr(text@.skip(i as int)),
        decreases text.len() - i,
    {
        let ghost rest = text@.skip(i as int);
        let ghost before = out@;
        if text[i] == '\r' && i + 1 < text.len() && text[i + 1] == '\n' {
            out.push('\n');
            proof {
                assert(rest[0] == '\r' && rest[1] == '\n');
                assert(rest.skip(2) =~= text@.skip(i + 2));
                assert(before + (seq!['\n'] + without_cr(rest.skip(2))) =~= out@ + without_cr(
                    text@.skip(i + 2),
                ));
            }
            i = i + 2;
        } else {
            out.push(text[i]);
            proof {
                assert(rest[0] == text@[i as int]);
                if rest.len() >= 2 {
                    assert(rest[1] == text@[i + 1]);
                }
                assert(rest.skip(1) =~= text@.skip(i + 1));
                assert(before + (seq![rest[0]] + without_cr(rest.skip(1))) =~= out@ + without_cr(
                    text@.skip(i + 1),
                ));
            }
            i = i + 1;
        }
    }
    proof {
        assert(text@.skip(i as int).len() == 0);
        assert(out@ + Seq::<char>::empty() =~= out@);
    }
    out
}

/// The views of a list of lines.
pub open spec fn line_views(lines: Seq<Vec<char>>) -> Seq<Seq<char>> {
    lines.map_values(|l: Vec<char>| l@)
}

/// The lines of `text`: see [`lines_of`].
pub fn split_lines(text: &Vec<char>) -> (lines: Vec<Vec<char>>)
    ensures
        line_views(lines@) == lines_of(text@),
{
    let mut lines: Vec<Vec<char>> = Vec::new();
    let mut current: Vec<char> = Vec::new();
    let mut i: usize = 0;
    proof {
        assert(text@.take(0) =~= Seq::<char>::empty());
        assert(line_views(lines@) =~= closed_lines(text@.take(0)));
        assert(current@ =~= open_line(text@.take(0)));
    }
    while i < text.len()
        invariant
            i <= text.len(),
            line_views(lines@) == closed_lines(text@.take(i as int)),
            current@ == open_line(text@.take(i as int)),
        decreases text.len() - i,
    {
        let c = text[i];
        let ghost done = line_views(lines@);
        proof {
            assert(text@.take(i + 1).drop_last() =~= text@.take(i as int));
            assert(text@.take(i + 1).last() == c);
        }
        if c == '\n' {
            let ghost whole = current@;
            let count = current.len();
            if count > 0 && current[count - 1] == '\r' {
                current.pop();
            }
            proof {
                assert(current@ =~= without_final_cr(whole));
            }
            let ghost line = current@;
            lines.push(current);
            current = Vec::new();
            proof {
                assert(line_views(lines@) =~= done.push(line));
                assert(current@ =~= open_line(text@.take(i + 1)));
            }
        } else {
            current.push(c);
        }
        i = i + 1;
    }
    proof {
        assert(text@.take(i as int) =~= text@);
    }
    if current.len() > 0 {
        let ghost done = line_views(lines@);
        let ghost line = current@;
        lines.push(current);
        proof {
            assert(line_views(lines@) =~= done.push(line));
        }
    }
    lines
}

/// Where trimming the end stops: everything from there on is white
/// space, and the character before is not.
proof fn lemma_trimmed_end_is_prefix(text: Seq<char>, end: int)
    requires
        0 <= end <= text.len(),
        forall|k: int| end <= k < text.len() ==> is_whitespace_char(#[trigger] text[k]),
        end > 0 ==> !is_whitespace_char(text[end - 1]),
    ensures
        trimmed_end(text) == text.take(end),
    decreases text.len() - end,
{
    if end < text.len() {
        assert(is_whitespace_char(text[text.len() - 1]));
        lemma_trimmed_end_is_prefix(text.drop_last(), end);
        assert(text.drop_last().take(end) =~= text.take(end));
    } else {
        assert(text.take(end) =~= text);
    }
}

/// Where trimming the start stops: everything before is white space, and
/// the character there is not.
proof fn lemma_trimmed_start_is_suffix(text: Seq<char>, start: int)
    requires
        0 <= start <= text.len(),
        forall|k: int| 0 <= k < start ==> is_whitespace_char(#[trigger] text[k]),
        start < text.len() ==> !is_whitespace_char(text[start]),
    ensures
        trimmed_start(text) == text.skip(start),
    decreases start,
{
    if start > 0 {
        assert(is_whitespace_char(text[0]));
        let rest = text.drop_first();
        assert forall|k: int| 0 <= k < start - 1 implies is_whitespace_char(#[trigger] rest[k]) by {
            assert(rest[k] == text[k + 1]);
        }
        lemma_trimmed_start_is_suffix(rest, start - 1);
        assert(rest.skip(start - 1) =~= text.skip(start));
    } else {
        assert(text.skip(0) =~= text);
    }
}

/// `text` without the white space at either end.
pub fn trim_chars(text: &Vec<char>) -> (out: Vec<char>)
    ensures
        out@ == trimmed(text@),
{
    let mut end: usize = text.len();
    while end > 0 && char_is_whitespace(text[end - 1])
        invariant
            end <= text.len(),
            forall|k: int| end <= k < text.len() ==> is_whitespace_char(#[trigger] text@[k]),
        decreases end,
    {
        end = end - 1;
    }
    proof {
        lemma_trimmed_end_is_prefix(text@, end as int);
    }
    let mut start: usize = 0;
    while start < end && char_is_whitespace(text[start])
        invariant
            start <= end <= text.len(),
            forall|k: int| 0 <= k < start ==> is_whitespace_char(#[trigger] text@[k]),
        decreases end - start,
    {
        start = start + 1;
    }
    proof {
        let head = text@.take(end as int);
        assert forall|k: int| 0 <= k < start implies is_whitespace_char(#[trigger] head[k]) by {
            assert(head[k] == text@[k]);
        }
        if start < end {
            assert(head[start as int] == text@[start as int]);
        }
        lemma_trimmed_start_is_suffix(head, start as int);
    }
    let mut out: Vec<char> = Vec::new();
    let mut i: usize = start;
    while i < end
        invariant
            start <= i <= end <= text.len(),
            out@ == text@.subrange(start as int, i as int),
        decreases end - i,
    {
        out.push(text[i]);
        proof {
            assert(out@ =~= text@.subrange(start as int, i + 1));
        }
        i = i + 1;
    }
    proof {
        assert(text@.subrange(start as int, end as int) =~= text@.take(end as int).skip(
            start as int,
        ));
    }
    out
}

/// The lines that are kept of `lines`: see [`kept_lines`].
fn keep_lines(lines: &Vec<Vec<char>>) -> (kept: Vec<Vec<char>>)
    ensures
        line_views(kept@) == kept_lines(line_views(lines@)),
{
    let mut kept: Vec<Vec<char>> = Vec::new();
    let mut last_was_empty = false;
    let mut i: usize = 0;
    let ghost all = line_views(lines@);
    proof {
        assert(all.take(0) =~= Seq::<Seq<char>>::empty());
        assert(line_views(kept@) =~= kept_lines(all.take(0)));
    }
    while i < lines.len()
        invariant
            i <= lines.len(),
            all == line_views(lines@),
            line_views(kept@) == kept_lines(all.take(i as int)),
            last_was_empty <==> i > 0 && trimmed(all[i - 1]).len() == 0,
        decreases lines.len() - i,
    {
        let line = trim_chars(&lines[i]);
        let ghost done = line_views(kept@);
        let ghost text = line@;
        proof {
            assert(all[i as int] == lines@[i as int]@);
            assert(all.take(i + 1).drop_last() =~= all.take(i as int));
            assert(all.take(i + 1).last() == all[i as int]);
            if i > 0 {
                assert(all.take(i + 1)[i - 1] == all[i - 1]);
            }
        }
        if line.len() == 0 {
            if !last_was_empty {
                kept.push(line);
                proof {
                    assert(line_views(kept@) =~= done.push(text));
                }
            }
            last_was_empty = true;
        } else {
            kept.push(line);
            proof {
                assert(line_views(kept@) =~= done.push(text));
            }
            last_was_empty = false;
        }
        i = i + 1;
    }
    proof {
        assert(all.take(i as int) =~= all);
    }
    kept
}

/// `lines` put one after the other with a line feed between them.
fn join_lines(lines: &Vec<Vec<char>>) -> (text: Vec<char>)
    ensures
        text@ == joined_lines(line_views(lines@)),
{
    let mut text: Vec<char> = Vec::new();
    let mut i: usize = 0;
    let ghost all = line_views(lines@);
    proof {
        assert(all.take(0) =~= Seq::<Seq<char>>::empty());
    }
    while i < lines.len()
        invariant
            i <= lines.len(),
            all == line_views(lines@),
            text@ == joined_lines(all.take(i as int)),
        decreases lines.len() - i,
    {
        let ghost before = text@;
        proof {
            assert(all[i as int] == lines@[i as int]@);
            assert(all.take(i + 1).drop_last() =~= all.take(i as int));
            assert(all.take(i + 1).last() == all[i as int]);
            if i == 0 {
                assert(all.take(1)[0] == all[0]);
            }
        }
        if i > 0 {
            text.push('\n');
        }
        let line = &lines[i];
        let mut k: usize = 0;
        let ghost start = text@;
        while k < line.len()
            invariant
                k <= line.len(),
                text@ == start + line@.take(k as int),
            decreases line.len() - k,
        {
            text.push(line[k]);
            proof {
                assert(text@ =~= start + line@.take(k + 1));
            }
            k = k + 1;
        }
        proof {
            assert(line@.take(k as int) =~= line@);
            if i > 0 {
                assert(text@ =~= before + seq!['\n'] + all[i as int]);
            } else {
                assert(text@ =~= all[0]);
            }
        }
        i = i + 1;
    }
    proof {
        assert(all.take(i as int) =~= all);
    }
    text
}

/// The clean form of extracted text: line endings made uniform, every
/// line trimmed, runs of blank lines reduced to one, and the whole
/// trimmed.
pub fn clean_text(input: &str) -> (clean: String)
    ensures
        clean@ == cleaned(input@),
{
    let normalized = drop_carriage_returns(&chars_of(input));
    let lines = split_lines(&normalized);
    let kept = keep_lines(&lines);
    let joined = join_lines(&kept);
    string_of(&trim_chars(&joined))
}

/// The title of the chapter with index `index` where nothing better is
/// known: `Chapter` and the chapter's number, counted from one.
pub fn fallback_chapter_title(index: usize) -> (title: String)
    ensures
        title@ == "Chapter "@ + decimal((index + 1) as nat),
{
    let mut title = chars_of("Chapter ");
    let mut number = decimal_chars((index as u128) + 1);
    title.append(&mut number);
    string_of(&title)
}

/// `text` without any `./` at its start, however many there are.
pub open spec fn without_dot_slash(text: Seq<char>) -> Seq<char>
    decreases text.len(),
{
    if text.len() >= 2 && text[0] == '.' && text[1] == '/' {
        without_dot_slash(text.skip(2))
    } else {
        text
    }
}

/// `c`, with a slash in place of a backslash.
pub open spec fn slashed(c: char) -> char {
    if c == '\\' {
        '/'
    } else {
        c
    }
}

/// The normal form of a locator inside a book: no `./` at its start, and
/// slashes for backslashes.
pub open spec fn normalized_locator(locator: Seq<char>) -> Seq<char> {
    without_dot_slash(locator).map_values(|c: char| slashed(c))
}

/// The number of characters that the `./` at the start of `text` take up.
fn dot_slash_len(text: &Vec<char>) -> (start: usize)
    ensures
        start <= text.len(),
        without_dot_slash(text@) == text@.skip(start as int),
{
    let mut start: usize = 0;
    proof {
        assert(text@.skip(0) =~= text@);
    }
    loop
        invariant
            start <= text.len(),
            without_dot_slash(text@) == without_dot_slash(text@.skip(start as int)),
        decreases text.len() - start,
    {
        let ghost rest = text@.skip(start as int);
        if text.len() - start >= 2 && text[start] == '.' && text[start + 1] == '/' {
            proof {
                assert(rest[0] == '.' && rest[1] == '/');
                assert(rest.skip(2) =~= text@.skip(start + 2));
            }
            start = start + 2;
        } else {
            proof {
                if rest.len() >= 2 {
                    assert(rest[0] == text@[start as int]);
                    assert(rest[1] == text@[start + 1]);
                }
            }
            return start;
        }
    }
}

/// The normal form of a locator inside a book: no `./` at its start, and
/// slashes for backslashes.
pub fn normalize_locator(locator: &str) -> (normal: String)
    ensures
        normal@ == normalized_locator(locator@),
{
    let chars = chars_of(locator);
    let start = dot_slash_len(&chars);
    let mut out: Vec<char> = Vec::new();
    let mut i: usize = start;
    while i < chars.len()
        invariant
            start <= i <= chars.len(),
            out@ == chars@.subrange(start as int, i as int).map_values(|c: char| slashed(c)),
        decreases chars.len() - i,
    {
        let c = chars[i];
        out.push(if c == '\\' { '/' } else { c });
        proof {
            assert(out@ =~= chars@.subrange(start as int, i + 1).map_values(|c: char| slashed(c)));
        }
        i = i + 1;
    }
    proof {
        assert(chars@.subrange(start as int, i as int) =~= chars@.skip(start as int));
    }
    string_of(&out)
}

/// The title of a text that comes as one section: the title of its first
/// chapter, `Document` where it has no chapters.
pub fn document_title(chapters: &Vec<TextChapter>) -> (title: String)
    ensures
        title@ == if chapters@.len() > 0 {
            chapters@[0].title@
        } else {
            "Document"@
        },
{
    if chapters.len() > 0 {
        chapters[0].title.clone()
    } else {
        "Document".to_owned()
    }
}

/// The one section of a text that comes as plain text: titled as
/// [`document_title`] says, with the raw text cleaned.
pub fn plain_text_section(chapters: &Vec<TextChapter>, raw: &str) -> (section: TextSection)
    ensures
        section.title@ == if chapters@.len() > 0 {
            chapters@[0].title@
        } else {
            "Document"@
        },
        section.body@ == cleaned(raw@),
{
    TextSection { title: document_title(chapters), body: clean_text(raw) }
}

/// `text`, or nothing where it is blank: empty or white space only.
pub fn non_blank(text: String) -> (kept: Option<String>)
    ensures
        kept is Some <==> trimmed(text@).len() > 0,
        kept is Some ==> kept->Some_0@ == text@,
{
    let chars = chars_of(text.as_str());
    if trim_chars(&chars).len() == 0 {
        None
    } else {
        Some(text)
    }
}

/// The width, in columns, that HTML is rendered to.
pub const RENDER_WIDTH: usize = 80;

/// The plain text that `html2text::from_read` renders `html` to at
/// `width` columns; `None` where it reports an error.
pub uninterp spec fn rendered_html(html: Seq<char>, width: nat) -> Option<Seq<char>>;

/// The error of `html2text`, carried from the renderer to where its
/// message is taken. Nothing is known of what it holds.
#[verifier::external_type_specification]
#[verifier::external_body]
pub struct ExRenderError(html2text::Error);

/// Renders HTML to plain text.
///
/// Calls `html2text::from_read` on the bytes of `html`. Assumed: what it
/// returns, text or error, depends on the HTML and the width alone.
#[verifier::external_body]
fn render_html(html: &str, width: usize) -> (out: Result<String, html2text::Error>)
    ensures
        match out {
            Ok(text) => rendered_html(html@, width as nat) == Some(text@),
            Err(_) => rendered_html(html@, width as nat) is None,
        },
{
    html2text::from_read(html.as_bytes(), width)
}

/// The message of a rendering error.
///
/// Formats the `html2text::Error` with its `Display` impl. Nothing is
/// assumed of the text.
#[verifier::external_body]
fn render_error_text(error: &html2text::Error) -> String {
    format!("{error}")
}

/// The message for a rendering of `what` that failed with `detail`.
pub open spec fn render_failure(what: Seq<char>, detail: Seq<char>) -> Seq<char> {
    "failed to render "@ + what + ": "@ + detail
}

/// The clean text of a rendering of `what`: the rendered text cleaned,
/// or the failure with its message.
pub fn clean_rendered(rendered: Result<String, String>, what: &str) -> (text: Result<
    String,
    TextError,
>)
    ensures
        match rendered {
            Ok(raw) => text is Ok && text->Ok_0@ == cleaned(raw@),
            Err(detail) => text is Err && text->Err_0.message@ == render_failure(what@, detail@),
        },
{
    match rendered {
        Ok(raw) => Ok(clean_text(raw.as_str())),
        Err(detail) => {
            let mut message = chars_of("failed to render ");
            let mut subject = chars_of(what);
            message.append(&mut subject);
            let mut colon = chars_of(": ");
            message.append(&mut colon);
            let mut tail = chars_of(detail.as_str());
            message.append(&mut tail);
            proof {
                assert(message@ =~= render_failure(what@, detail@));
            }
            Err(TextError { message: string_of(&message) })
        },
    }
}

/// The clean text of `html`, rendered at 80 columns. `what` names what
/// is rendered, for the message of a failure.
pub fn html_to_text(html: &str, what: &str) -> (text: Result<String, TextError>)
    ensures
        match rendered_html(html@, RENDER_WIDTH as nat) {
            Some(raw) => text is Ok && text->Ok_0@ == cleaned(raw),
            None => text is Err && exists|detail: Seq<char>|
                text->Err_0.message@ == render_failure(what@, detail),
        },
{
    let rendered: Result<String, String> = match render_html(html, RENDER_WIDTH) {
        Ok(raw) => Ok(raw),
        Err(error) => Err(render_error_text(&error)),
    };
    let ghost detail = match &rendered {
        Ok(_) => Seq::<char>::empty(),
        Err(d) => d@,
    };
    let text = clean_rendered(rendered, what);
    proof {
        if text is Err {
            assert(text->Err_0.message@ == render_failure(what@, detail));
        }
    }
    text
}

/// The one section of a text that comes as HTML: titled as
/// [`document_title`] says, with the text of the HTML cleaned.
pub fn html_section(chapters: &Vec<TextChapter>, html: &str) -> (section: Result<
    TextSection,
    TextError,
>)
    ensures
        match rendered_html(html@, RENDER_WIDTH as nat) {
            Some(raw) => section is Ok && section->Ok_0.body@ == cleaned(raw)
                && section->Ok_0.title@ == if chapters@.len() > 0 {
                chapters@[0].title@
            } else {
                "Document"@
            },
            None => section is Err && exists|detail: Seq<char>|
                section->Err_0.message@ == render_failure("HTML content"@, detail),
        },
{
    match html_to_text(html, "HTML content") {
        Ok(body) => Ok(TextSection { title: document_title(chapters), body }),
        Err(error) => Err(error),
    }
}

/// The one section of a MOBI book: titled as the book says, or as
/// [`document_title`] says where the book's own title is blank, with the
/// text of its HTML cleaned.
pub fn mobi_section(chapters: &Vec<TextChapter>, book_title: String, html: &str) -> (section:
    Result<TextSection, TextError>)
    ensures
        match rendered_html(html@, RENDER_WIDTH as nat) {
            Some(raw) => section is Ok && section->Ok_0.body@ == cleaned(raw)
                && section->Ok_0.title@ == if trimmed(book_title@).len() > 0 {
                book_title@
            } else if chapters@.len() > 0 {
                chapters@[0].title@
            } else {
                "Document"@
            },
            None => section is Err && exists|detail: Seq<char>|
                section->Err_0.message@ == render_failure("MOBI content"@, detail),
        },
{
    match html_to_text(html, "MOBI content") {
        Ok(body) => {
            let title = match non_blank(book_title) {
                Some(title) => title,
                None => document_title(chapters),
            };
            Ok(TextSection { title, body })
        },
        Err(error) => Err(error),
    }
}

/// A locator inside a book and the title that goes with it.
#[derive(Debug)]
pub struct LocatorTitle {
    pub locator: String,
    pub title: String,
}

/// The title that the outline `chapters` gives for the locator `key`:
/// that of the last chapter whose locator, in normal form, is `key`.
pub open spec fn outline_title(chapters: Seq<TextChapterView>, key: Seq<char>) -> Option<Seq<char>>
    decreases chapters.len(),
{
    if chapters.len() == 0 {
        None
    } else {
        match chapters.last().locator {
            Some(l) => if normalized_locator(l) == key {
                Some(chapters.last().title)
            } else {
                outline_title(chapters.drop_last(), key)
            },
            None => outline_title(chapters.drop_last(), key),
        }
    }
}

/// A title and the locator it belongs to, as mathematical values.
pub struct OutlineItem {
    pub title: Seq<char>,
    pub locator: Seq<char>,
}

/// A list of titled locators as mathematical values.
pub open spec fn items_of(list: Seq<LocatorTitle>) -> Seq<OutlineItem> {
    list.map_values(|t: LocatorTitle| OutlineItem { title: t.title@, locator: t.locator@ })
}

/// The title that the table of contents `entries` gives for the locator
/// `key`: that of the last entry whose locator, in normal form, is `key`.
pub open spec fn contents_title(entries: Seq<OutlineItem>, key: Seq<char>) -> Option<Seq<char>>
    decreases entries.len(),
{
    if entries.len() == 0 {
        None
    } else if normalized_locator(entries.last().locator) == key {
        Some(entries.last().title)
    } else {
        contents_title(entries.drop_last(), key)
    }
}

/// The title of the section with index `index` of an EPUB book, found
/// at `path` inside the book: the one that the book's outline gives for
/// that place, else the one that its table of contents gives, else
/// `Chapter` and the section's number.
pub open spec fn section_title_of(
    chapters: Seq<TextChapterView>,
    toc: Seq<OutlineItem>,
    path: Seq<char>,
    index: nat,
) -> Seq<char> {
    match outline_title(chapters, normalized_locator(path)) {
        Some(t) => t,
        None => match contents_title(toc, normalized_locator(path)) {
            Some(t) => t,
            None => "Chapter "@ + decimal(index + 1),
        },
    }
}

/// The views of a list of outline chapters.
pub open spec fn outline_views(chapters: Seq<TextChapter>) -> Seq<TextChapterView> {
    chapters.map_values(|c: TextChapter| c@)
}

/// The title of the section with index `index` of an EPUB book, found
/// at `path` inside the book: see [`section_title_of`].
pub fn epub_section_title(
    path: &str,
    index: usize,
    chapters: &Vec<TextChapter>,
    toc: &Vec<LocatorTitle>,
) -> (title: String)
    ensures
        title@ == section_title_of(
            outline_views(chapters@),
            items_of(toc@),
            path@,
            index as nat,
        ),
{
    let key = normalize_locator(path);
    let ghost views = outline_views(chapters@);
    let mut i: usize = chapters.len();
    proof {
        assert(views.take(i as int) =~= views);
    }
    while i > 0
        invariant
            i <= chapters.len(),
            views == outline_views(chapters@),
            key@ == normalized_locator(path@),
            outline_title(views, key@) == outline_title(views.take(i as int), key@),
        decreases i,
    {
        proof {
            assert(views.take(i as int).last() == chapters@[i - 1]@);
            assert(views.take(i as int).drop_last() =~= views.take(i - 1));
        }
        match &chapters[i - 1].locator {
            Some(l) => {
                let normal = normalize_locator(l.as_str());
                if same_text(normal.as_str(), key.as_str()) {
                    return chapters[i - 1].title.clone();
                }
            },
            None => {},
        }
        i = i - 1;
    }
    let mut k: usize = toc.len();
    let ghost items = items_of(toc@);
    proof {
        assert(views.take(0).len() == 0);
        assert(items.take(k as int) =~= items);
    }
    while k > 0
        invariant
            k <= toc.len(),
            items == items_of(toc@),
            key@ == normalized_locator(path@),
            outline_title(outline_views(chapters@), key@) is None,
            contents_title(items, key@) == contents_title(items.take(k as int), key@),
        decreases k,
    {
        proof {
            assert(items.take(k as int).last().locator == toc@[k - 1].locator@);
            assert(items.take(k as int).last().title == toc@[k - 1].title@);
            assert(items.take(k as int).drop_last() =~= items.take(k - 1));
        }
        let normal = normalize_locator(toc[k - 1].locator.as_str());
        if same_text(normal.as_str(), key.as_str()) {
            return toc[k - 1].title.clone();
        }
        k = k - 1;
    }
    proof {
        assert(items.take(0).len() == 0);
    }
    fallback_chapter_title(index)
}

} // verus!
