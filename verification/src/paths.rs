//! Paths as plain values: their components, and the order of paths by
//! their components.

use crate::chars::chars_of;
use crate::sorting::{
    chars_le,
    lemma_text_le_antisymmetric,
    lemma_text_le_total,
    lemma_text_le_transitive,
    text_le,
};
use vstd::prelude::*;

verus! {

/// One component of a path.
#[derive(Debug)]
pub enum PathComponent {
    /// A prefix such as a drive or a share, with its text.
    Prefix(String),
    /// The root directory.
    RootDir,
    /// The current directory, `.`.
    CurDir,
    /// The parent directory, `..`.
    ParentDir,
    /// A directory or a file, with its name.
    Normal(String),
}

/// The place of a component's kind in the order of kinds: prefixes
/// first, then the root, the current and the parent directory, then
/// names.
pub open spec fn rank(c: PathComponent) -> int {
    match c {
        PathComponent::Prefix(_) => 0,
        PathComponent::RootDir => 1,
        PathComponent::CurDir => 2,
        PathComponent::ParentDir => 3,
        PathComponent::Normal(_) => 4,
    }
}

/// The text of a component that has one; empty for the others.
pub open spec fn text(c: PathComponent) -> Seq<char> {
    match c {
        PathComponent::Prefix(t) => t@,
        PathComponent::Normal(t) => t@,
        _ => Seq::empty(),
    }
}

/// Whether two components are the same: of the same kind, with the same
/// text.
pub open spec fn same_component(a: PathComponent, b: PathComponent) -> bool {
    rank(a) == rank(b) && text(a) == text(b)
}

/// Whether `a` comes before `b` or is the same: by kind first, then by
/// text.
pub open spec fn component_le(a: PathComponent, b: PathComponent) -> bool {
    rank(a) < rank(b) || (rank(a) == rank(b) && text_le(text(a), text(b)))
}

/// Whether the path `a` comes before the path `b` or is the same,
/// component by component: the first component in which they differ
/// decides, and a path comes before every path that it begins.
pub open spec fn path_le(a: Seq<PathComponent>, b: Seq<PathComponent>) -> bool
    decreases a.len(),
{
    if a.len() == 0 {
        true
    } else if b.len() == 0 {
        false
    } else if same_component(a[0], b[0]) {
        path_le(a.drop_first(), b.drop_first())
    } else {
        component_le(a[0], b[0])
    }
}

/// The place of a component's kind in the order of kinds.
fn rank_of(c: &PathComponent) -> (r: u8)
    ensures
        r == rank(*c),
{
    match c {
        PathComponent::Prefix(_) => 0,
        PathComponent::RootDir => 1,
        PathComponent::CurDir => 2,
        PathComponent::ParentDir => 3,
        PathComponent::Normal(_) => 4,
    }
}

/// The text of a component.
fn text_of(c: &PathComponent) -> (t: Vec<char>)
    ensures
        t@ == text(*c),
{
    match c {
        PathComponent::Prefix(t) => chars_of(t.as_str()),
        PathComponent::Normal(t) => chars_of(t.as_str()),
        _ => Vec::new(),
    }
}

/// Whether the path `a` comes before the path `b` or is the same: see
/// [`path_le`].
pub fn components_le(a: &Vec<PathComponent>, b: &Vec<PathComponent>) -> (le: bool)
    ensures
        le == path_le(a@, b@),
{
    let mut i: usize = 0;
    proof {
        assert(a@.skip(0) =~= a@);
        assert(b@.skip(0) =~= b@);
    }
    loop
        invariant
            i <= a.len(),
            i <= b.len(),
            path_le(a@, b@) == path_le(a@.skip(i as int), b@.skip(i as int)),
        decreases a.len() - i,
    {
        let ghost x = a@.skip(i as int);
        let ghost y = b@.skip(i as int);
        if i >= a.len() {
            return true;
        }
        if i >= b.len() {
            return false;
        }
        proof {
            assert(x[0] == a@[i as int]);
            assert(y[0] == b@[i as int]);
            assert(x.drop_first() =~= a@.skip(i + 1));
            assert(y.drop_first() =~= b@.skip(i + 1));
        }
        let rank_a = rank_of(&a[i]);
        let rank_b = rank_of(&b[i]);
        let text_a = text_of(&a[i]);
        let text_b = text_of(&b[i]);
        if rank_a != rank_b {
            return rank_a < rank_b;
        }
        if !crate::chars::same_chars(&text_a, &text_b) {
            return chars_le(&text_a, &text_b);
        }
        i = i + 1;
    }
}

/// Of two components, one comes before the other or they are the same.
pub proof fn lemma_component_le_total(a: PathComponent, b: PathComponent)
    ensures
        component_le(a, b) || component_le(b, a),
{
    lemma_text_le_total(text(a), text(b));
}

/// Two components of which each comes before the other or is the same
/// are the same.
pub proof fn lemma_component_le_antisymmetric(a: PathComponent, b: PathComponent)
    requires
        component_le(a, b),
        component_le(b, a),
    ensures
        same_component(a, b),
{
    lemma_text_le_antisymmetric(text(a), text(b));
}

/// A component that comes before one that comes before a third comes
/// before the third.
pub proof fn lemma_component_le_transitive(a: PathComponent, b: PathComponent, c: PathComponent)
    requires
        component_le(a, b),
        component_le(b, c),
    ensures
        component_le(a, c),
{
    if rank(a) == rank(b) && rank(b) == rank(c) {
        lemma_text_le_transitive(text(a), text(b), text(c));
    }
}

/// Of two paths, one comes before the other or they are the same.
pub proof fn lemma_path_le_total(a: Seq<PathComponent>, b: Seq<PathComponent>)
    ensures
        path_le(a, b) || path_le(b, a),
    decreases a.len(),
{
    if a.len() > 0 && b.len() > 0 {
        if same_component(a[0], b[0]) {
            lemma_path_le_total(a.drop_first(), b.drop_first());
        } else {
            lemma_component_le_total(a[0], b[0]);
        }
    }
}

/// A path that comes before one that comes before a third comes before
/// the third.
pub proof fn lemma_path_le_transitive(
    a: Seq<PathComponent>,
    b: Seq<PathComponent>,
    c: Seq<PathComponent>,
)
    requires
        path_le(a, b),
        path_le(b, c),
    ensures
        path_le(a, c),
    decreases a.len(),
{
    if a.len() > 0 {
        if same_component(a[0], b[0]) && same_component(b[0], c[0]) {
            lemma_path_le_transitive(a.drop_first(), b.drop_first(), c.drop_first());
        } else if same_component(a[0], b[0]) {
            assert(component_le(a[0], c[0]));
        } else if same_component(b[0], c[0]) {
            assert(component_le(a[0], c[0]));
        } else {
            lemma_component_le_transitive(a[0], b[0], c[0]);
            if same_component(a[0], c[0]) {
                assert(component_le(b[0], a[0]));
                lemma_component_le_antisymmetric(a[0], b[0]);
            }
        }
    }
}

/// A file found in a library, with the parts of its path that the rules
/// go by.
#[derive(Debug)]
pub struct ScannedFile {
    pub path: String,
    /// The components of the path, in order.
    pub components: Vec<PathComponent>,
    /// The file's name without its extension, where it has a name.
    pub stem: Option<String>,
    /// The file's extension, where it has one.
    pub extension: Option<String>,
}

/// Whether the file `a` comes before the file `b` or has the same path.
pub open spec fn file_le(a: ScannedFile, b: ScannedFile) -> bool {
    path_le(a.components@, b.components@)
}

/// `sorted` with `file` put in before the first file that does not come
/// before it.
pub open spec fn inserted(sorted: Seq<ScannedFile>, file: ScannedFile) -> Seq<ScannedFile>
    decreases sorted.len(),
{
    if sorted.len() == 0 {
        seq![file]
    } else if file_le(file, sorted[0]) {
        seq![file] + sorted
    } else {
        seq![sorted[0]] + inserted(sorted.drop_first(), file)
    }
}

/// `files` in ascending order of their paths; files with the same path
/// stay in the order they came in.
pub open spec fn by_path(files: Seq<ScannedFile>) -> Seq<ScannedFile>
    decreases files.len(),
{
    if files.len() == 0 {
        Seq::empty()
    } else {
        inserted(by_path(files.drop_first()), files[0])
    }
}

/// Whether `files` are in ascending order of their paths.
pub open spec fn in_path_order(files: Seq<ScannedFile>) -> bool {
    forall|i: int, j: int| 0 <= i <= j < files.len() ==> file_le(files[i], files[j])
}

/// `files` in ascending order of their paths; files with the same path
/// stay in the order they came in.
pub fn sort_by_path(files: Vec<ScannedFile>) -> (sorted: Vec<ScannedFile>)
    ensures
        sorted@ == by_path(files@),
{
    let ghost all = files@;
    let mut rest = files;
    let mut sorted: Vec<ScannedFile> = Vec::new();
    proof {
        assert(all.skip(all.len() as int) =~= Seq::<ScannedFile>::empty());
    }
    while rest.len() > 0
        invariant
            rest@ == all.take(rest@.len() as int),
            rest@.len() <= all.len(),
            sorted@ == by_path(all.skip(rest@.len() as int)),
        decreases rest.len(),
    {
        let ghost before = rest@.len() as int;
        let file = rest.pop().unwrap();
        proof {
            assert(file == all[before - 1]);
            assert(rest@ =~= all.take(before - 1));
            assert(all.skip(before - 1)[0] == file);
            assert(all.skip(before - 1).drop_first() =~= all.skip(before));
        }
        let ghost old_sorted = sorted@;
        let mut at: usize = 0;
        proof {
            assert(old_sorted.skip(0) =~= old_sorted);
            assert(old_sorted.take(0) + inserted(old_sorted.skip(0), file) =~= inserted(
                old_sorted,
                file,
            ));
        }
        while at < sorted.len() && !components_le(&file.components, &sorted[at].components)
            invariant
                at <= sorted.len(),
                sorted@ == old_sorted,
                inserted(old_sorted, file) == old_sorted.take(at as int) + inserted(
                    old_sorted.skip(at as int),
                    file,
                ),
            decreases sorted.len() - at,
        {
            proof {
                let tail = old_sorted.skip(at as int);
                assert(tail[0] == old_sorted[at as int]);
                assert(tail.drop_first() =~= old_sorted.skip(at + 1));
                assert(old_sorted.take(at as int) + (seq![tail[0]] + inserted(
                    tail.drop_first(),
                    file,
                )) =~= old_sorted.take(at + 1) + inserted(old_sorted.skip(at + 1), file));
            }
            at = at + 1;
        }
        proof {
            let tail = old_sorted.skip(at as int);
            if at < sorted.len() {
                assert(tail[0] == old_sorted[at as int]);
            }
            assert(old_sorted.take(at as int) + inserted(tail, file) =~= old_sorted.insert(
                at as int,
                file,
            ));
        }
        sorted.insert(at, file);
    }
    proof {
        assert(all.skip(0) =~= all);
    }
    sorted
}

/// Where `file` is put into `sorted`: before the first file that does
/// not come before it.
pub open spec fn insert_point(sorted: Seq<ScannedFile>, file: ScannedFile) -> int
    decreases sorted.len(),
{
    if sorted.len() == 0 || file_le(file, sorted[0]) {
        0
    } else {
        1 + insert_point(sorted.drop_first(), file)
    }
}

/// Putting a file in puts it at its insert point and moves no other file.
proof fn lemma_inserted_at_point(sorted: Seq<ScannedFile>, file: ScannedFile)
    ensures
        0 <= insert_point(sorted, file) <= sorted.len(),
        inserted(sorted, file) == sorted.insert(insert_point(sorted, file), file),
        forall|k: int|
            0 <= k < insert_point(sorted, file) ==> !file_le(file, #[trigger] sorted[k]),
        insert_point(sorted, file) < sorted.len() ==> file_le(
            file,
            sorted[insert_point(sorted, file)],
        ),
    decreases sorted.len(),
{
    if sorted.len() == 0 {
        assert(seq![file] =~= sorted.insert(0, file));
    } else if file_le(file, sorted[0]) {
        assert(seq![file] + sorted =~= sorted.insert(0, file));
    } else {
        let rest = sorted.drop_first();
        lemma_inserted_at_point(rest, file);
        let p = insert_point(rest, file);
        assert(seq![sorted[0]] + rest.insert(p, file) =~= sorted.insert(p + 1, file));
        assert forall|k: int| 0 <= k < p + 1 implies !file_le(file, #[trigger] sorted[k]) by {
            if k > 0 {
                assert(sorted[k] == rest[k - 1]);
            }
        }
        if p < rest.len() {
            assert(sorted[p + 1] == rest[p]);
        }
    }
}

/// Putting a file into files that are in path order leaves them in path
/// order.
proof fn lemma_inserted_keeps_order(sorted: Seq<ScannedFile>, file: ScannedFile)
    requires
        in_path_order(sorted),
    ensures
        in_path_order(inserted(sorted, file)),
{
    lemma_inserted_at_point(sorted, file);
    let p = insert_point(sorted, file);
    let out = inserted(sorted, file);
    assert forall|i: int, j: int| 0 <= i <= j < out.len() implies file_le(out[i], out[j]) by {
        if i == j {
            lemma_path_le_total(out[i].components@, out[i].components@);
        } else if j < p {
            assert(out[i] == sorted[i] && out[j] == sorted[j]);
        } else if j == p {
            assert(out[i] == sorted[i]);
            lemma_path_le_total(file.components@, sorted[i].components@);
        } else if i < p {
            assert(out[i] == sorted[i] && out[j] == sorted[j - 1]);
        } else if i == p {
            assert(out[j] == sorted[j - 1]);
            assert(file_le(sorted[p], sorted[j - 1]));
            lemma_path_le_transitive(
                file.components@,
                sorted[p].components@,
                sorted[j - 1].components@,
            );
        } else {
            assert(out[i] == sorted[i - 1] && out[j] == sorted[j - 1]);
        }
    }
}

/// Ordering by path only rearranges: the result is in ascending order of
/// the paths and holds the same files, each as often as before.
pub proof fn lemma_by_path_rearranges(files: Seq<ScannedFile>)
    ensures
        in_path_order(by_path(files)),
        by_path(files).to_multiset() == files.to_multiset(),
        by_path(files).len() == files.len(),
    decreases files.len(),
{
    if files.len() > 0 {
        let rest = files.drop_first();
        lemma_by_path_rearranges(rest);
        lemma_inserted_keeps_order(by_path(rest), files[0]);
        lemma_inserted_at_point(by_path(rest), files[0]);
        vstd::seq_lib::to_multiset_insert(
            by_path(rest),
            insert_point(by_path(rest), files[0]),
            files[0],
        );
        vstd::seq_lib::to_multiset_insert(rest, 0, files[0]);
        assert(rest.insert(0, files[0]) =~= files);
    } else {
        assert(by_path(files) =~= files);
    }
}

} // verus!
