//! The outline of a book as its table of contents gives it.

use crate::library::{chapter_index_of, to_chapter_index};
use crate::model::{ChapterId, TextChapter};
use crate::text::{items_of, normalize_locator, normalized_locator, LocatorTitle, OutlineItem};
use vstd::prelude::*;

verus! {

/// One entry of a table of contents, with the entries below it.
#[derive(Debug)]
pub struct NavEntry {
    pub label: String,
    /// Where the entry points to inside the book.
    pub content: String,
    pub children: Vec<NavEntry>,
}

/// The entries of the tree under `entry`, itself first, then those below
/// it, in order.
pub open spec fn flat_entry(entry: NavEntry) -> Seq<OutlineItem>
    decreases entry,
{
    seq![OutlineItem { title: entry.label@, locator: entry.content@ }] + flat_forest(
        entry.children@,
    )
}

/// The entries of the trees under `entries`, one tree after the other.
pub open spec fn flat_forest(entries: Seq<NavEntry>) -> Seq<OutlineItem>
    decreases entries,
{
    if entries.len() == 0 {
        Seq::empty()
    } else {
        flat_forest(entries.drop_last()) + flat_entry(entries.last())
    }
}

/// Appends the entries of the tree under `entry` to `out`.
fn collect_nav(entry: &NavEntry, out: &mut Vec<LocatorTitle>)
    ensures
        items_of(final(out)@) == items_of(old(out)@) + flat_entry(*entry),
    decreases entry,
{
    let ghost before = items_of(out@);
    let ghost own = OutlineItem { title: entry.label@, locator: entry.content@ };
    out.push(LocatorTitle { locator: entry.content.clone(), title: entry.label.clone() });
    proof {
        assert(items_of(out@) =~= before + seq![own]);
        assert(entry.children@.take(0) =~= Seq::<NavEntry>::empty());
        assert(before + seq![own] + flat_forest(entry.children@.take(0)) =~= before + seq![own]);
    }
    let mut i: usize = 0;
    while i < entry.children.len()
        invariant
            i <= entry.children.len(),
            items_of(out@) == before + seq![own] + flat_forest(entry.children@.take(i as int)),
        decreases entry.children.len() - i,
    {
        let ghost so_far = items_of(out@);
        collect_nav(&entry.children[i], out);
        proof {
            let done = entry.children@.take(i as int);
            let more = entry.children@.take(i + 1);
            assert(more.drop_last() =~= done);
            assert(more.last() == entry.children@[i as int]);
            assert(before + seq![own] + flat_forest(done) + flat_entry(entry.children@[i as int])
                =~= before + seq![own] + (flat_forest(done) + flat_entry(
                entry.children@[i as int],
            )));
        }
        i = i + 1;
    }
    proof {
        assert(entry.children@.take(i as int) =~= entry.children@);
        assert(before + seq![own] + flat_forest(entry.children@) =~= before + (seq![own]
            + flat_forest(entry.children@)));
    }
}

/// The entries of a table of contents as one list: every entry before
/// the entries below it, and those before the entry that follows it.
pub fn flatten_navpoints(toc: &Vec<NavEntry>) -> (flat: Vec<LocatorTitle>)
    ensures
        items_of(flat@) == flat_forest(toc@),
{
    let mut flat: Vec<LocatorTitle> = Vec::new();
    let mut i: usize = 0;
    proof {
        assert(toc@.take(0) =~= Seq::<NavEntry>::empty());
        assert(items_of(flat@) =~= flat_forest(toc@.take(0)));
    }
    while i < toc.len()
        invariant
            i <= toc.len(),
            items_of(flat@) == flat_forest(toc@.take(i as int)),
        decreases toc.len() - i,
    {
        collect_nav(&toc[i], &mut flat);
        proof {
            assert(toc@.take(i + 1).drop_last() =~= toc@.take(i as int));
            assert(toc@.take(i + 1).last() == toc@[i as int]);
        }
        i = i + 1;
    }
    proof {
        assert(toc@.take(i as int) =~= toc@);
    }
    flat
}

/// The outline that a table of contents gives: one chapter for each of
/// its entries, in the order of [`flatten_navpoints`], under a fresh
/// identifier, with the entry's label as its title, the normal form of
/// the entry's locator, and its place in the list as chapter index.
pub fn extract_outline(toc: &Vec<NavEntry>) -> (chapters: Vec<TextChapter>)
    ensures
        chapters@.len() == flat_forest(toc@).len(),
        forall|i: int|
            0 <= i < chapters@.len() ==> {
                &&& (#[trigger] chapters@[i]).title@ == flat_forest(toc@)[i].title
                &&& chapters@[i].locator is Some
                &&& chapters@[i].locator->Some_0@ == normalized_locator(flat_forest(toc@)[i].locator)
                &&& chapters@[i].chapter_index == Some(chapter_index_of(i as usize))
                &&& chapters@[i].id@.len() == 36
            },
{
    let flat = flatten_navpoints(toc);
    let ghost items = flat_forest(toc@);
    let mut chapters: Vec<TextChapter> = Vec::new();
    let mut i: usize = 0;
    while i < flat.len()
        invariant
            i <= flat.len(),
            items_of(flat@) == items,
            chapters@.len() == i,
            forall|k: int|
                0 <= k < i ==> {
                    &&& (#[trigger] chapters@[k]).title@ == items[k].title
                    &&& chapters@[k].locator is Some
                    &&& chapters@[k].locator->Some_0@ == normalized_locator(items[k].locator)
                    &&& chapters@[k].chapter_index == Some(chapter_index_of(k as usize))
                    &&& chapters@[k].id@.len() == 36
                },
        decreases flat.len() - i,
    {
        proof {
            assert(items_of(flat@)[i as int].title == flat@[i as int].title@);
            assert(items_of(flat@)[i as int].locator == flat@[i as int].locator@);
        }
        chapters.push(
            TextChapter {
                id: ChapterId::new(),
                title: flat[i].title.clone(),
                locator: Some(normalize_locator(flat[i].locator.as_str())),
                chapter_index: Some(to_chapter_index(i)),
            },
        );
        i = i + 1;
    }
    proof {
        assert(items_of(flat@).len() == flat@.len());
    }
    chapters
}

} // verus!
