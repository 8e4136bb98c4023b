use ebook_playback::chars::chars_of;
use ebook_playback::model::Ebook;
use ebook_playback::sorting::{chars_le, sort_by_title};

fn titled(titles: &[&str]) -> Vec<Ebook> {
    titles.iter().map(|t| Ebook::new(t.to_string(), None)).collect()
}

fn titles(books: &[Ebook]) -> Vec<&str> {
    books.iter().map(|b| b.title.as_str()).collect()
}

#[test]
fn books_are_ordered_by_title_whatever_the_case() {
    let sorted = sort_by_title(titled(&["banana", "Apple", "cherry", "aardvark"]));
    assert_eq!(titles(&sorted), vec!["aardvark", "Apple", "banana", "cherry"]);
    assert!(sort_by_title(Vec::new()).is_empty());
    assert_eq!(titles(&sort_by_title(titled(&["one"]))), vec!["one"]);
}

#[test]
fn equal_titles_stay_in_their_order() {
    let sorted = sort_by_title(titled(&["banana", "Apple", "apple", "cherry", "Banana", "APPLE"]));
    assert_eq!(titles(&sorted), vec!["Apple", "apple", "APPLE", "banana", "Banana", "cherry"]);
}

#[test]
fn ordering_agrees_with_the_standard_library() {
    let samples = ["", "a", "ab", "b", "B", "é", "z", "zz", "Ärger", "ärger", "10", "9", " x", "x "];
    let mut expected: Vec<String> = samples.iter().map(|s| s.to_string()).collect();
    expected.sort_by(|a, b| a.to_lowercase().cmp(&b.to_lowercase()));
    let sorted = sort_by_title(titled(&samples));
    assert_eq!(titles(&sorted), expected.iter().map(|s| s.as_str()).collect::<Vec<_>>());
    for a in samples {
        for b in samples {
            assert_eq!(chars_le(&chars_of(a), &chars_of(b)), a <= b);
        }
    }
}

#[test]
fn ordering_keeps_the_books() {
    let books = titled(&["c", "a", "b"]);
    let ids: Vec<String> = books.iter().map(|b| b.id.as_str().to_string()).collect();
    let sorted = sort_by_title(books);
    let sorted_ids: Vec<String> = sorted.iter().map(|b| b.id.as_str().to_string()).collect();
    assert_eq!(sorted_ids, vec![ids[1].clone(), ids[2].clone(), ids[0].clone()]);
}
