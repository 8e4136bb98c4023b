use ebook_playback::library::{is_cover_file, BookBuilder, TextFindings};
use ebook_playback::paths::{PathComponent, ScannedFile};
use ebook_playback::text::TextMetadata;
use ebook_playback::library::{
    choose_author, choose_title, file_kind, full_text_outline, scanned_chapter, text_priority,
    to_chapter_index, track_title, FileKind, Library, LibraryConfig, LibraryLoader,
    MetadataAudioChapter, MetadataFile, MetadataText, MetadataTextChapter,
};
use ebook_playback::model::{ChapterId, Ebook, EbookId, TextChapter, TextFormat};
use ebook_playback::time::Duration;

#[test]
fn a_library_looks_for_book_json() {
    let config = LibraryConfig::new("/books".to_string());
    assert_eq!(config.root, "/books");
    assert_eq!(config.metadata_file, "book.json");
    let config = config.metadata_file("meta.json".to_string());
    assert_eq!(config.root, "/books");
    assert_eq!(config.metadata_file, "meta.json");
    let loader = LibraryLoader::new(config);
    assert_eq!(loader.config().root, "/books");
    assert_eq!(loader.config().metadata_file, "meta.json");
}

#[test]
fn books_are_found_by_identifier() {
    let mut library = Library::default();
    assert!(library.iter().is_empty());
    let mut first = Ebook::new("First".to_string(), None);
    first.id = EbookId::from_string("a".to_string());
    let mut second = Ebook::new("Second".to_string(), None);
    second.id = EbookId::from_string("b".to_string());
    let mut shadowed = Ebook::new("Shadowed".to_string(), None);
    shadowed.id = EbookId::from_string("a".to_string());
    library.replace_all(vec![first, second, shadowed]);
    assert_eq!(library.iter().len(), 3);
    assert_eq!(library.get(&EbookId::from_string("a".to_string())).unwrap().title, "First");
    assert_eq!(library.get(&EbookId::from_string("b".to_string())).unwrap().title, "Second");
    assert!(library.get(&EbookId::from_string("c".to_string())).is_none());
    assert!(Library::new().get(&EbookId::from_string("a".to_string())).is_none());
}

#[test]
fn extensions_tell_audio_from_text() {
    for ext in ["mp3", "m4a", "m4b", "flac", "wav", "ogg", "oga", "opus", "aac", "MP3", "Flac"] {
        assert_eq!(file_kind(ext), Some(FileKind::Audio));
    }
    for ext in ["epub", "mobi", "azw", "azw3", "pdf", "txt", "htm", "html", "md", "markdown", "EPUB", "Md"] {
        assert_eq!(file_kind(ext), Some(FileKind::Text));
    }
    for ext in ["", "jpg", "mp4", "json", "mp3 ", "epub3"] {
        assert_eq!(file_kind(ext), None);
    }
}

#[test]
fn text_files_are_ranked_by_extension() {
    assert_eq!(text_priority("epub"), 0);
    assert_eq!(text_priority("mobi"), 1);
    assert_eq!(text_priority("azw"), 1);
    assert_eq!(text_priority("azw3"), 1);
    assert_eq!(text_priority("pdf"), 2);
    assert_eq!(text_priority("html"), 3);
    assert_eq!(text_priority("htm"), 3);
    assert_eq!(text_priority("md"), 4);
    assert_eq!(text_priority("markdown"), 4);
    assert_eq!(text_priority("txt"), 5);
    assert_eq!(text_priority("doc"), 6);
    // letter case counts here
    assert_eq!(text_priority("EPUB"), 6);
    assert_eq!(text_priority(""), 6);
}

#[test]
fn tracks_are_titled_by_their_file_stem() {
    assert_eq!(track_title(Some("01_the-beginning"), 0), "01 The Beginning");
    assert_eq!(track_title(Some("__"), 0), "Untitled");
    assert_eq!(track_title(None, 0), "Track 1");
    assert_eq!(track_title(None, 11), "Track 12");
    let chapter = scanned_chapter("/books/a/01_intro.mp3".to_string(), Some("01_intro"), 3);
    assert_eq!(chapter.id.as_str().len(), 36);
    assert_eq!(chapter.title, "01 Intro");
    assert_eq!(chapter.file, "/books/a/01_intro.mp3");
    assert_eq!(chapter.duration, None);
    assert_eq!(chapter.section, None);
    assert_eq!(chapter.chapter_index, Some(3));
    assert_eq!(to_chapter_index(7), 7);
}

#[test]
fn titles_and_authors_come_from_the_text_where_it_has_them() {
    assert_eq!(choose_title("Folder".to_string(), Some("  Real Title \n".to_string())), "Real Title");
    assert_eq!(choose_title("Folder".to_string(), Some("   ".to_string())), "Folder");
    assert_eq!(choose_title("Folder".to_string(), None), "Folder");
    assert_eq!(choose_author(None, Some(" Jane ".to_string())), Some("Jane".to_string()));
    assert_eq!(choose_author(None, Some(" ".to_string())), None);
    assert_eq!(choose_author(None, None), None);
    assert_eq!(choose_author(Some("Known".to_string()), Some("Jane".to_string())), Some("Known".to_string()));
}

#[test]
fn a_text_without_outline_gets_one_chapter() {
    let outline = full_text_outline();
    assert_eq!(outline.len(), 1);
    assert_eq!(outline[0].title, "Full Text");
    assert_eq!(outline[0].locator, None);
    assert_eq!(outline[0].chapter_index, Some(0));
    assert_eq!(outline[0].id.as_str().len(), 36);
}

#[test]
fn metadata_chapters_become_audio_chapters() {
    let entry = MetadataAudioChapter {
        id: Some("c1".to_string()),
        title: "One".to_string(),
        file: "one.mp3".to_string(),
        duration: Some(Duration::from_secs(90)),
        section: Some("Part I".to_string()),
        chapter_index: Some(7),
    };
    let chapter = entry.into_chapter("/books/a/one.mp3".to_string(), 2);
    assert_eq!(chapter.id.as_str(), "c1");
    assert_eq!(chapter.title, "One");
    assert_eq!(chapter.file, "/books/a/one.mp3");
    assert_eq!(chapter.duration, Some(Duration::from_secs(90)));
    assert_eq!(chapter.section, Some("Part I".to_string()));
    assert_eq!(chapter.chapter_index, Some(7));

    let entry = MetadataAudioChapter {
        id: None,
        title: "Two".to_string(),
        file: "two.mp3".to_string(),
        duration: None,
        section: None,
        chapter_index: None,
    };
    let chapter = entry.into_chapter("/books/a/two.mp3".to_string(), 2);
    assert_eq!(chapter.id.as_str().len(), 36);
    assert_eq!(chapter.chapter_index, Some(2));
    assert_eq!(chapter.duration, None);
}

#[test]
fn metadata_text_names_its_format_or_the_extension_does() {
    let found = vec![TextChapter {
        id: ChapterId::from_string("x".to_string()),
        title: "Found".to_string(),
        locator: None,
        chapter_index: Some(0),
    }];
    let text = MetadataText { file: "b.bin".to_string(), format: Some("EPUB".to_string()), toc: Vec::new() };
    let content = text.into_text("/books/a/b.bin".to_string(), Some("bin"), found);
    assert_eq!(content.file, "/books/a/b.bin");
    assert_eq!(content.format, TextFormat::Epub);
    assert_eq!(content.chapters.len(), 1);
    assert_eq!(content.chapters[0].title, "Found");

    let text = MetadataText {
        file: "b.pdf".to_string(),
        format: None,
        toc: vec![
            MetadataTextChapter { title: "One".to_string(), locator: Some("page-1".to_string()) },
            MetadataTextChapter { title: "Two".to_string(), locator: None },
        ],
    };
    let content = text.into_text("/books/a/b.pdf".to_string(), Some("pdf"), Vec::new());
    assert_eq!(content.format, TextFormat::Pdf);
    assert_eq!(content.chapters.len(), 2);
    assert_eq!(content.chapters[0].title, "One");
    assert_eq!(content.chapters[0].locator, Some("page-1".to_string()));
    assert_eq!(content.chapters[0].chapter_index, Some(0));
    assert_eq!(content.chapters[1].title, "Two");
    assert_eq!(content.chapters[1].locator, None);
    assert_eq!(content.chapters[1].chapter_index, Some(1));
    assert_ne!(content.chapters[0].id, content.chapters[1].id);

    let text = MetadataText { file: "b".to_string(), format: None, toc: Vec::new() };
    assert_eq!(text.into_text("/books/a/b".to_string(), None, Vec::new()).format, TextFormat::Unknown);
    let entry = MetadataTextChapter { title: "T".to_string(), locator: None };
    assert_eq!(entry.into_chapter(4).chapter_index, Some(4));
}

#[test]
fn a_metadata_file_becomes_a_book() {
    let file = MetadataFile {
        id: Some("book-1".to_string()),
        title: "Title".to_string(),
        author: Some("Author".to_string()),
        description: None,
        cover_art: Some("cover.jpg".to_string()),
        audio_chapters: Vec::new(),
        text: None,
    };
    let book = file.into_ebook(Some("/books/a/cover.jpg".to_string()), Vec::new(), None);
    assert_eq!(book.id.as_str(), "book-1");
    assert_eq!(book.title, "Title");
    assert_eq!(book.author, Some("Author".to_string()));
    assert_eq!(book.description, None);
    assert_eq!(book.cover_art, Some("/books/a/cover.jpg".to_string()));
    assert!(!book.has_audio());
    assert!(!book.has_text());

    let file = MetadataFile {
        id: None,
        title: "T".to_string(),
        author: None,
        description: Some("D".to_string()),
        cover_art: None,
        audio_chapters: Vec::new(),
        text: None,
    };
    let book = file.into_ebook(None, Vec::new(), None);
    assert_eq!(book.id.as_str().len(), 36);
    assert_eq!(book.description, Some("D".to_string()));
}

fn scanned(path: &str) -> ScannedFile {
    let name = path.rsplit('/').next().unwrap();
    let (stem, extension) = match name.rsplit_once('.') {
        Some((stem, ext)) => (Some(stem.to_string()), Some(ext.to_string())),
        None => (Some(name.to_string()), None),
    };
    let components = std::path::Path::new(path)
        .components()
        .map(|part| match part {
            std::path::Component::Prefix(p) => {
                PathComponent::Prefix(p.as_os_str().to_string_lossy().into_owned())
            }
            std::path::Component::RootDir => PathComponent::RootDir,
            std::path::Component::CurDir => PathComponent::CurDir,
            std::path::Component::ParentDir => PathComponent::ParentDir,
            std::path::Component::Normal(n) => PathComponent::Normal(n.to_string_lossy().into_owned()),
        })
        .collect();
    ScannedFile { path: path.to_string(), components, stem, extension }
}

#[test]
fn a_builder_without_files_builds_nothing() {
    let builder = BookBuilder::new("/books/a".to_string(), "A".to_string());
    assert_eq!(builder.anchor_path(), "/books/a");
    assert_eq!(builder.select_text_file(), None);
    assert!(builder.build(None, None).is_none());
}

#[test]
fn the_text_file_of_the_lowest_rank_is_chosen() {
    let mut builder = BookBuilder::new("/books/a".to_string(), "A".to_string());
    builder.add_text(scanned("/books/a/notes.txt"));
    builder.add_text(scanned("/books/a/b.pdf"));
    builder.add_text(scanned("/books/a/a.mobi"));
    builder.add_text(scanned("/books/a/c.azw3"));
    builder.add_text(scanned("/books/a/README"));
    assert_eq!(builder.select_text_file(), Some(2));
    builder.add_text(scanned("/books/a/z.epub"));
    builder.add_text(scanned("/books/a/zz.epub"));
    assert_eq!(builder.select_text_file(), Some(5));
    // of two files of the same rank the one whose path comes first is chosen
    builder.add_text(scanned("/books/a/a.epub"));
    assert_eq!(builder.select_text_file(), Some(7));
    // and of two with the same path the first added
    builder.add_text(scanned("/books/a/a.epub"));
    assert_eq!(builder.select_text_file(), Some(7));
}

#[test]
fn audio_chapters_follow_the_order_of_the_paths() {
    let mut builder = BookBuilder::new("lib/bk".to_string(), "Bk".to_string());
    builder.add_audio(scanned("lib/bk/02_two.mp3"));
    builder.add_audio(scanned("lib/bk/01_one.mp3"));
    let book = builder.build(None, None).unwrap();
    assert_eq!(book.title, "Bk");
    assert_eq!(book.author, None);
    assert!(book.text_content.is_none());
    let chapters: Vec<(&str, &str, Option<u32>)> = book
        .audio_chapters
        .iter()
        .map(|c| (c.file.as_str(), c.title.as_str(), c.chapter_index))
        .collect();
    assert_eq!(
        chapters,
        vec![("lib/bk/01_one.mp3", "01 One", Some(0)), ("lib/bk/02_two.mp3", "02 Two", Some(1))]
    );
}

#[test]
fn paths_are_ordered_by_their_components() {
    let mut builder = BookBuilder::new("lib".to_string(), "Bk".to_string());
    // as texts, `lib/a-b/x.mp3` comes before `lib/a/x.mp3`; as paths, after
    builder.add_audio(scanned("lib/a-b/x.mp3"));
    builder.add_audio(scanned("lib/a/x.mp3"));
    builder.add_audio(scanned("lib/a"));
    let book = builder.build(None, None).unwrap();
    let files: Vec<&str> = book.audio_chapters.iter().map(|c| c.file.as_str()).collect();
    assert_eq!(files, vec!["lib/a", "lib/a/x.mp3", "lib/a-b/x.mp3"]);
}

#[test]
fn audio_files_become_chapters_in_order() {
    let mut builder = BookBuilder::new("/books/a".to_string(), "Folder Title".to_string());
    builder.add_audio(scanned("/books/a/01_intro.mp3"));
    builder.add_audio(scanned("/books/a/02-the_end.mp3"));
    let book = builder.build(Some("/books/a/cover.jpg".to_string()), None).unwrap();
    assert_eq!(book.title, "Folder Title");
    assert_eq!(book.author, None);
    assert_eq!(book.description, None);
    assert_eq!(book.cover_art, Some("/books/a/cover.jpg".to_string()));
    assert_eq!(book.id.as_str().len(), 36);
    assert!(book.text_content.is_none());
    assert_eq!(book.audio_chapters.len(), 2);
    assert_eq!(book.audio_chapters[0].title, "01 Intro");
    assert_eq!(book.audio_chapters[0].file, "/books/a/01_intro.mp3");
    assert_eq!(book.audio_chapters[0].chapter_index, Some(0));
    assert_eq!(book.audio_chapters[1].title, "02 The End");
    assert_eq!(book.audio_chapters[1].chapter_index, Some(1));
    assert_eq!(book.audio_chapters[1].duration, None);
}

#[test]
fn the_text_names_the_book_where_it_can() {
    let outline = vec![TextChapter {
        id: ChapterId::from_string("c".to_string()),
        title: "Found".to_string(),
        locator: Some("one.xhtml".to_string()),
        chapter_index: Some(0),
    }];
    let mut builder = BookBuilder::new("/books/a".to_string(), "Folder Title".to_string());
    builder.add_text(scanned("/books/a/book.EPUB"));
    let findings = TextFindings {
        outline,
        metadata: TextMetadata { title: Some("  Real Title ".to_string()), author: Some(" Jane ".to_string()) },
    };
    let book = builder.build(None, Some(findings)).unwrap();
    assert_eq!(book.title, "Real Title");
    assert_eq!(book.author, Some("Jane".to_string()));
    let text = book.text_content.unwrap();
    assert_eq!(text.file, "/books/a/book.EPUB");
    assert_eq!(text.format, TextFormat::Epub);
    assert_eq!(text.chapters.len(), 1);
    assert_eq!(text.chapters[0].title, "Found");
    assert!(book.audio_chapters.is_empty());
}

#[test]
fn a_text_without_findings_keeps_the_folder_title() {
    let mut builder = BookBuilder::new("/books/a".to_string(), "Folder Title".to_string());
    builder.add_text(scanned("/books/a/notes.txt"));
    let findings = TextFindings {
        outline: Vec::new(),
        metadata: TextMetadata { title: Some("   ".to_string()), author: Some("".to_string()) },
    };
    let book = builder.build(None, Some(findings)).unwrap();
    assert_eq!(book.title, "Folder Title");
    assert_eq!(book.author, None);
    let text = book.text_content.unwrap();
    assert_eq!(text.format, TextFormat::Unknown);
    assert_eq!(text.chapters.len(), 1);
    assert_eq!(text.chapters[0].title, "Full Text");

    let mut builder = BookBuilder::new("/books/a".to_string(), "Folder Title".to_string());
    builder.add_text(scanned("/books/a/README"));
    let book = builder.build(None, None).unwrap();
    assert_eq!(book.title, "Folder Title");
    assert_eq!(book.text_content.unwrap().chapters[0].title, "Full Text");
}

#[test]
fn covers_are_told_by_name_and_extension() {
    assert!(is_cover_file("cover.jpg", Some("jpg")));
    assert!(is_cover_file("Cover.PNG.png", Some("png")));
    assert!(is_cover_file("COVER.front.webp", Some("webp")));
    assert!(is_cover_file("cover.jpeg", Some("jpeg")));
    assert!(!is_cover_file("cover.JPG", Some("JPG")));
    assert!(!is_cover_file("cover.gif", Some("gif")));
    assert!(!is_cover_file("cover", None));
    assert!(!is_cover_file("cover.", None));
    assert!(!is_cover_file("covers.jpg", Some("jpg")));
    assert!(!is_cover_file("my-cover.jpg", Some("jpg")));
    assert!(!is_cover_file("", Some("jpg")));
}
