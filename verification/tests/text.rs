use ebook_playback::chars::chars_of;
use ebook_playback::model::{ChapterId, TextChapter};
use ebook_playback::text::{
    clean_rendered, clean_text, document_title, epub_section_title, fallback_chapter_title,
    html_section, html_to_text, mobi_section, non_blank, normalize_locator, plain_text_section,
    split_lines, trim_chars, LocatorTitle, TextMetadata,
};

fn chapter(title: &str, locator: Option<&str>) -> TextChapter {
    TextChapter {
        id: ChapterId::from_string(title.to_string()),
        title: title.to_string(),
        locator: locator.map(|l| l.to_string()),
        chapter_index: None,
    }
}

fn entry(locator: &str, title: &str) -> LocatorTitle {
    LocatorTitle { locator: locator.to_string(), title: title.to_string() }
}

fn lines(text: &str) -> Vec<String> {
    split_lines(&chars_of(text)).into_iter().map(|l| l.into_iter().collect()).collect()
}

/// What the standard library makes of the same text, for comparison.
fn reference_clean(input: &str) -> String {
    let normalized = input.replace("\r\n", "\n");
    let mut lines = Vec::new();
    let mut last_was_empty = false;
    for line in normalized.lines() {
        let trimmed = line.trim_end();
        if trimmed.is_empty() {
            if !last_was_empty {
                lines.push(String::new());
            }
            last_was_empty = true;
        } else {
            lines.push(trimmed.trim_start().to_string());
            last_was_empty = false;
        }
    }
    lines.join("\n").trim().to_string()
}

#[test]
fn lines_are_trimmed_and_blank_runs_reduced() {
    assert_eq!(clean_text("  one  \r\n\r\n\r\n  two\n"), "one\n\ntwo");
    assert_eq!(clean_text("a\n\n\n\nb\n \t \nc"), "a\n\nb\n\nc");
    assert_eq!(clean_text("\n\n  first\nsecond  \n\n"), "first\nsecond");
    assert_eq!(clean_text(""), "");
    assert_eq!(clean_text(" \n \r\n "), "");
    assert_eq!(clean_text("single"), "single");
}

#[test]
fn cleaning_agrees_with_the_standard_library() {
    let samples = [
        "",
        "\n",
        "\r",
        "\r\n",
        "\r\r\n",
        "a\r\r\nb",
        "a\rb\nc\r",
        "  a  \n\n\n b \n",
        "\u{a0}x\u{2003}\n\u{3000}\n\ny\u{feff}",
        "one\n\n\ntwo\n\n\n\nthree",
        " \t\n\t \nlast",
        "no newline at end  ",
        "tabs\tinside\tstay\n  and spaces too  ",
    ];
    for sample in samples {
        assert_eq!(clean_text(sample), reference_clean(sample));
    }
}

#[test]
fn lines_end_at_line_feeds() {
    assert_eq!(lines("a\nb"), vec!["a", "b"]);
    assert_eq!(lines("a\nb\n"), vec!["a", "b"]);
    assert_eq!(lines("a\r\nb\r"), vec!["a", "b\r"]);
    assert_eq!(lines("\n\na"), vec!["", "", "a"]);
    assert_eq!(lines(""), Vec::<String>::new());
    for sample in ["", "\n", "a\n\nb", "a\r\n\r\nb\r\n", "x\ry\n", "\r\n\r", "end\n\n"] {
        let expected: Vec<String> = sample.lines().map(|l| l.to_string()).collect();
        assert_eq!(lines(sample), expected);
    }
}

#[test]
fn trimming_takes_white_space_off_both_ends() {
    for sample in ["", " ", "a", " a", "a ", "  a b  ", "\t\n a\u{a0}", "\u{2003}x y\u{2003}"] {
        let ours: String = trim_chars(&chars_of(sample)).into_iter().collect();
        assert_eq!(ours, sample.trim());
    }
}

#[test]
fn fallback_titles_count_from_one() {
    assert_eq!(fallback_chapter_title(0), "Chapter 1");
    assert_eq!(fallback_chapter_title(9), "Chapter 10");
    assert_eq!(fallback_chapter_title(usize::MAX), format!("Chapter {}", usize::MAX as u128 + 1));
}

#[test]
fn locators_are_normalized() {
    assert_eq!(normalize_locator("./text/ch1.xhtml"), "text/ch1.xhtml");
    assert_eq!(normalize_locator("././a\\b\\c.html"), "a/b/c.html");
    assert_eq!(normalize_locator("a/./b"), "a/./b");
    assert_eq!(normalize_locator("."), ".");
    assert_eq!(normalize_locator("./"), "");
    assert_eq!(normalize_locator(""), "");
    assert_eq!(normalize_locator(".\\a"), "./a");
}

#[test]
fn a_document_is_titled_by_its_first_chapter() {
    assert_eq!(document_title(&vec![chapter("Intro", None), chapter("Two", None)]), "Intro");
    assert_eq!(document_title(&Vec::new()), "Document");
    let section = plain_text_section(&vec![chapter("Intro", None)], " a \r\n\r\n\r\n b ");
    assert_eq!(section.title, "Intro");
    assert_eq!(section.body, "a\n\nb");
    let section = plain_text_section(&Vec::new(), "x");
    assert_eq!(section.title, "Document");
}

#[test]
fn blank_text_counts_as_none() {
    assert_eq!(non_blank("".to_string()), None);
    assert_eq!(non_blank(" \t\n".to_string()), None);
    assert_eq!(non_blank(" a ".to_string()), Some(" a ".to_string()));
    let meta = TextMetadata::default();
    assert_eq!(meta.title, None);
    assert_eq!(meta.author, None);
}

#[test]
fn html_is_rendered_to_clean_text() {
    let html = "<html><body><h1>Title</h1><p>First   paragraph.</p>\n\n\n<p>Second.</p></body></html>";
    let text = html_to_text(html, "HTML content").ok().unwrap();
    assert!(text.contains("Title"));
    assert!(text.contains("First paragraph."));
    assert!(text.contains("Second."));
    assert!(!text.contains('<'));
    assert!(!text.contains("\n\n\n"));
    assert_eq!(text, text.trim());
    assert_eq!(text, clean_text(&text));
}

#[test]
fn html_sections_take_the_document_title() {
    let section = html_section(&vec![chapter("Intro", None)], "<p>Hello there</p>").ok().unwrap();
    assert_eq!(section.title, "Intro");
    assert_eq!(section.body, "Hello there");
    let section = html_section(&Vec::new(), "<p>Hello there</p>").ok().unwrap();
    assert_eq!(section.title, "Document");
}

#[test]
fn mobi_sections_take_the_book_title_unless_blank() {
    let chapters = vec![chapter("Intro", None)];
    let section = mobi_section(&chapters, "The Book".to_string(), "<p>Body</p>").ok().unwrap();
    assert_eq!(section.title, "The Book");
    assert_eq!(section.body, "Body");
    let section = mobi_section(&chapters, "   ".to_string(), "<p>Body</p>").ok().unwrap();
    assert_eq!(section.title, "Intro");
    let section = mobi_section(&Vec::new(), "".to_string(), "<p>Body</p>").ok().unwrap();
    assert_eq!(section.title, "Document");
}

#[test]
fn rendered_text_is_cleaned_and_failures_are_named() {
    assert_eq!(clean_rendered(Ok("  a \n\n\n b ".to_string()), "HTML content").ok().unwrap(), "a\n\nb");
    let error = clean_rendered(Err("I/O error".to_string()), "EPUB section").err().unwrap();
    assert_eq!(error.message, "failed to render EPUB section: I/O error");
}

#[test]
fn epub_sections_are_titled_by_outline_then_contents_then_number() {
    let chapters = vec![
        chapter("One", Some("./text/one.xhtml")),
        chapter("No locator", None),
        chapter("One again", Some("text\\one.xhtml")),
    ];
    let toc = vec![entry("text/one.xhtml", "Contents one"), entry("./text/two.xhtml", "Contents two")];
    // the last matching outline chapter wins
    assert_eq!(epub_section_title("text/one.xhtml", 0, &chapters, &toc), "One again");
    assert_eq!(epub_section_title("./text/two.xhtml", 1, &chapters, &toc), "Contents two");
    assert_eq!(epub_section_title("text/three.xhtml", 2, &chapters, &toc), "Chapter 3");
    assert_eq!(epub_section_title("text/one.xhtml", 0, &Vec::new(), &toc), "Contents one");
    assert_eq!(epub_section_title("text/one.xhtml", 4, &Vec::new(), &Vec::new()), "Chapter 5");
}
