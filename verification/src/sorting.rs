//! The order of a catalogue: by title, whatever the letter case.

use crate::chars::chars_of;
use crate::model::Ebook;
use crate::words::{lowercase_of, str_to_lowercase};
use vstd::prelude::*;

verus! {

/// Whether `a` comes before `b` or is the same text, character by
/// character.
pub open spec fn text_le(a: Seq<char>, b: Seq<char>) -> bool
    decreases a.len(),
{
    if a.len() == 0 {
        true
    } else if b.len() == 0 {
        false
    } else if a[0] != b[0] {
        a[0] < b[0]
    } else {
        text_le(a.drop_first(), b.drop_first())
    }
}

/// Whether `a` comes before `b` or is the same text.
pub fn chars_le(a: &Vec<char>, b: &Vec<char>) -> (le: bool)
    ensures
        le == text_le(a@, b@),
{
    let mut i: usize = 0;
    proof {
        assert(a@.skip(0) =~= a@);
        assert(b@.skip(0) =~= b@);
    }
    loop
        invariant
            i <= a.len(),
            i <= b.len(),
            text_le(a@, b@) == text_le(a@.skip(i as int), b@.skip(i as int)),
        decreases a.len() - i,
    {
        let ghost x = a@.skip(i as int);
        let ghost y = b@.skip(i as int);
        if i >= a.len() {
            return true;
        }
        if i >= b.len() {
            return false;
        }
        proof {
            assert(x[0] == a@[i as int]);
            assert(y[0] == b@[i as int]);
            assert(x.drop_first() =~= a@.skip(i + 1));
            assert(y.drop_first() =~= b@.skip(i + 1));
        }
        if a[i] != b[i] {
            return a[i] < b[i];
        }
        i = i + 1;
    }
}

/// What a book is ordered by: its title in lower case.
pub open spec fn title_key(book: Ebook) -> Seq<char> {
    lowercase_of(book.title@)
}

/// `sorted` with `book` put in before the first book that does not come
/// before it.
pub open spec fn inserted(sorted: Seq<Ebook>, book: Ebook) -> Seq<Ebook>
    decreases sorted.len(),
{
    if sorted.len() == 0 {
        seq![book]
    } else if text_le(title_key(book), title_key(sorted[0])) {
        seq![book] + sorted
    } else {
        seq![sorted[0]] + inserted(sorted.drop_first(), book)
    }
}

/// `books` in the order of their titles, whatever the letter case; books
/// with the same title stay in the order they came in.
pub open spec fn by_title(books: Seq<Ebook>) -> Seq<Ebook>
    decreases books.len(),
{
    if books.len() == 0 {
        Seq::empty()
    } else {
        inserted(by_title(books.drop_first()), books[0])
    }
}

/// Whether `books` are in the order of their titles.
pub open spec fn in_title_order(books: Seq<Ebook>) -> bool {
    forall|i: int, j: int|
        0 <= i <= j < books.len() ==> text_le(title_key(books[i]), title_key(books[j]))
}

/// The keys of a list of books.
pub open spec fn keys_of(books: Seq<Ebook>) -> Seq<Seq<char>> {
    books.map_values(|b: Ebook| title_key(b))
}

/// `books` in the order of their titles, whatever the letter case; books
/// with the same title stay in the order they came in.
pub fn sort_by_title(books: Vec<Ebook>) -> (sorted: Vec<Ebook>)
    ensures
        sorted@ == by_title(books@),
{
    let ghost all = books@;
    let mut rest = books;
    let mut sorted: Vec<Ebook> = Vec::new();
    let mut keys: Vec<Vec<char>> = Vec::new();
    proof {
        assert(all.skip(all.len() as int) =~= Seq::<Ebook>::empty());
        assert(keys@.map_values(|k: Vec<char>| k@) =~= keys_of(sorted@));
    }
    while rest.len() > 0
        invariant
            rest@ == all.take(rest@.len() as int),
            rest@.len() <= all.len(),
            sorted@ == by_title(all.skip(rest@.len() as int)),
            keys@.len() == sorted@.len(),
            keys@.map_values(|k: Vec<char>| k@) == keys_of(sorted@),
        decreases rest.len(),
    {
        let ghost before = rest@.len() as int;
        let book = rest.pop().unwrap();
        proof {
            assert(book == all[before - 1]);
            assert(rest@ =~= all.take(before - 1));
            assert(all.skip(before - 1)[0] == book);
            assert(all.skip(before - 1).drop_first() =~= all.skip(before));
        }
        let key = chars_of(str_to_lowercase(book.title.as_str()).as_str());
        let ghost old_sorted = sorted@;
        let ghost old_keys = keys@.map_values(|k: Vec<char>| k@);
        let mut at: usize = 0;
        proof {
            assert(old_sorted.take(0) + inserted(old_sorted.skip(0), book) =~= inserted(
                old_sorted,
                book,
            )) by {
                assert(old_sorted.skip(0) =~= old_sorted);
            }
        }
        while at < sorted.len() && !chars_le(&key, &keys[at])
            invariant
                at <= sorted.len(),
                sorted@ == old_sorted,
                keys@.len() == sorted@.len(),
                keys@.map_values(|k: Vec<char>| k@) == keys_of(old_sorted),
                key@ == title_key(book),
                inserted(old_sorted, book) == old_sorted.take(at as int) + inserted(
                    old_sorted.skip(at as int),
                    book,
                ),
            decreases sorted.len() - at,
        {
            proof {
                let tail = old_sorted.skip(at as int);
                assert(keys@.map_values(|k: Vec<char>| k@)[at as int] == keys@[at as int]@);
                assert(keys_of(old_sorted)[at as int] == title_key(old_sorted[at as int]));
                assert(tail[0] == old_sorted[at as int]);
                assert(tail.drop_first() =~= old_sorted.skip(at + 1));
                assert(old_sorted.take(at as int) + (seq![tail[0]] + inserted(
                    tail.drop_first(),
                    book,
                )) =~= old_sorted.take(at + 1) + inserted(old_sorted.skip(at + 1), book));
            }
            at = at + 1;
        }
        proof {
            let tail = old_sorted.skip(at as int);
            if at < sorted.len() {
                assert(keys@.map_values(|k: Vec<char>| k@)[at as int] == keys@[at as int]@);
                assert(keys_of(old_sorted)[at as int] == title_key(old_sorted[at as int]));
                assert(tail[0] == old_sorted[at as int]);
            }
            assert(old_sorted.take(at as int) + inserted(tail, book) =~= old_sorted.insert(
                at as int,
                book,
            ));
        }
        let ghost key_view = key@;
        sorted.insert(at, book);
        keys.insert(at, key);
        proof {
            assert(keys@.map_values(|k: Vec<char>| k@) =~= old_keys.insert(at as int, key_view));
            assert(keys_of(sorted@) =~= keys_of(old_sorted).insert(at as int, key_view));
        }
    }
    proof {
        assert(all.skip(0) =~= all);
    }
    sorted
}

/// Of two texts, one comes before the other or they are the same.
pub proof fn lemma_text_le_total(a: Seq<char>, b: Seq<char>)
    ensures
        text_le(a, b) || text_le(b, a),
    decreases a.len(),
{
    if a.len() > 0 && b.len() > 0 && a[0] == b[0] {
        lemma_text_le_total(a.drop_first(), b.drop_first());
    }
}

/// Two texts of which each comes before the other or is the same are
/// the same.
pub proof fn lemma_text_le_antisymmetric(a: Seq<char>, b: Seq<char>)
    requires
        text_le(a, b),
        text_le(b, a),
    ensures
        a == b,
    decreases a.len(),
{
    if a.len() > 0 && b.len() > 0 {
        let x = a.drop_first();
        let y = b.drop_first();
        lemma_text_le_antisymmetric(x, y);
        assert(a.len() == b.len());
        assert forall|i: int| 0 <= i < a.len() implies a[i] == b[i] by {
            if i > 0 {
                assert(a[i] == x[i - 1]);
                assert(b[i] == y[i - 1]);
            }
        }
        assert(a =~= b);
    } else {
        assert(a =~= b);
    }
}

/// What comes before something that comes before a third comes before
/// the third.
pub proof fn lemma_text_le_transitive(a: Seq<char>, b: Seq<char>, c: Seq<char>)
    requires
        text_le(a, b),
        text_le(b, c),
    ensures
        text_le(a, c),
    decreases a.len(),
{
    if a.len() > 0 && b.len() > 0 && c.len() > 0 && a[0] == b[0] && b[0] == c[0] {
        lemma_text_le_transitive(a.drop_first(), b.drop_first(), c.drop_first());
    }
}

/// Where `book` is put into `sorted`: before the first book that does
/// not come before it.
pub open spec fn insert_point(sorted: Seq<Ebook>, book: Ebook) -> int
    decreases sorted.len(),
{
    if sorted.len() == 0 || text_le(title_key(book), title_key(sorted[0])) {
        0
    } else {
        1 + insert_point(sorted.drop_first(), book)
    }
}

/// Putting a book in puts it at its insert point and moves no other book.
proof fn lemma_inserted_at_point(sorted: Seq<Ebook>, book: Ebook)
    ensures
        0 <= insert_point(sorted, book) <= sorted.len(),
        inserted(sorted, book) == sorted.insert(insert_point(sorted, book), book),
        forall|k: int|
            0 <= k < insert_point(sorted, book) ==> !text_le(
                title_key(book),
                title_key(#[trigger] sorted[k]),
            ),
        insert_point(sorted, book) < sorted.len() ==> text_le(
            title_key(book),
            title_key(sorted[insert_point(sorted, book)]),
        ),
    decreases sorted.len(),
{
    if sorted.len() == 0 {
        assert(seq![book] =~= sorted.insert(0, book));
    } else if text_le(title_key(book), title_key(sorted[0])) {
        assert(seq![book] + sorted =~= sorted.insert(0, book));
    } else {
        let rest = sorted.drop_first();
        lemma_inserted_at_point(rest, book);
        let p = insert_point(rest, book);
        assert(seq![sorted[0]] + rest.insert(p, book) =~= sorted.insert(p + 1, book));
        assert forall|k: int| 0 <= k < p + 1 implies !text_le(
            title_key(book),
            title_key(#[trigger] sorted[k]),
        ) by {
            if k > 0 {
                assert(sorted[k] == rest[k - 1]);
            }
        }
        if p < rest.len() {
            assert(sorted[p + 1] == rest[p]);
        }
    }
}

/// Putting a book into books that are in title order leaves them in
/// title order.
proof fn lemma_inserted_keeps_order(sorted: Seq<Ebook>, book: Ebook)
    requires
        in_title_order(sorted),
    ensures
        in_title_order(inserted(sorted, book)),
{
    lemma_inserted_at_point(sorted, book);
    let p = insert_point(sorted, book);
    let out = inserted(sorted, book);
    assert forall|i: int, j: int| 0 <= i <= j < out.len() implies text_le(
        title_key(out[i]),
        title_key(out[j]),
    ) by {
        let x = title_key(book);
        if i == j {
            lemma_text_le_total(title_key(out[i]), title_key(out[i]));
        } else if j < p {
            assert(out[i] == sorted[i] && out[j] == sorted[j]);
        } else if j == p {
            assert(out[i] == sorted[i]);
            lemma_text_le_total(x, title_key(sorted[i]));
        } else if i < p {
            assert(out[i] == sorted[i] && out[j] == sorted[j - 1]);
        } else if i == p {
            assert(out[j] == sorted[j - 1]);
            assert(text_le(title_key(sorted[p]), title_key(sorted[j - 1])));
            lemma_text_le_transitive(x, title_key(sorted[p]), title_key(sorted[j - 1]));
        } else {
            assert(out[i] == sorted[i - 1] && out[j] == sorted[j - 1]);
        }
    }
}

/// Ordering by title only rearranges: the result is in title order and
/// holds the same books, each as often as before.
pub proof fn lemma_by_title_rearranges(books: Seq<Ebook>)
    ensures
        in_title_order(by_title(books)),
        by_title(books).to_multiset() == books.to_multiset(),
        by_title(books).len() == books.len(),
    decreases books.len(),
{
    if books.len() > 0 {
        let rest = books.drop_first();
        lemma_by_title_rearranges(rest);
        lemma_inserted_keeps_order(by_title(rest), books[0]);
        lemma_inserted_at_point(by_title(rest), books[0]);
        vstd::seq_lib::to_multiset_insert(
            by_title(rest),
            insert_point(by_title(rest), books[0]),
            books[0],
        );
        vstd::seq_lib::to_multiset_insert(rest, 0, books[0]);
        assert(rest.insert(0, books[0]) =~= books);
    } else {
        assert(by_title(books) =~= books);
    }
}

} // verus!
