//! Source discovery: from the listings of the source directories to the
//! sorted list of the files to compile.

use crate::path::{directly_in, extension, has_extension, is_directly_in};
use crate::text::{
    lemma_lex_irreflexive, lemma_lex_total, lemma_lex_transitive, lex_lt, str_eq, str_lt,
};
use vstd::prelude::*;
use vstd::string::StringExecFns;

verus! {

/// The part of the vendor tree that a source directory belongs to.
#[derive(Clone, Copy, Debug, PartialEq, Eq)]
pub enum SourceCategory {
    /// The library's own directory.
    RootLibrary,
    /// The protocol handlers.
    ProtocolHandlers,
    /// The third-party helpers.
    ThirdPartyHelpers,
}

impl SourceCategory {
    /// The place of the category among the three; a file that is listed
    /// under several keeps the one of the lowest rank.
    pub open spec fn rank(self) -> int {
        match self {
            SourceCategory::RootLibrary => 0,
            SourceCategory::ProtocolHandlers => 1,
            SourceCategory::ThirdPartyHelpers => 2,
        }
    }

    /// Computes `rank`.
    pub fn rank_of(self) -> (r: u8)
        ensures
            r == self.rank(),
    {
        match self {
            SourceCategory::RootLibrary => 0,
            SourceCategory::ProtocolHandlers => 1,
            SourceCategory::ThirdPartyHelpers => 2,
        }
    }
}

/// One entry of a directory as the walk found it.
#[derive(Clone, Debug, PartialEq, Eq)]
pub struct DirEntry {
    /// The path of the entry.
    pub path: String,
    /// Whether the entry is a regular file.
    pub is_file: bool,
}

/// The entries found directly in one source directory.
#[derive(Clone, Debug, PartialEq, Eq)]
pub struct DirListing {
    /// The path of the directory.
    pub dir: String,
    /// The category of the directory.
    pub category: SourceCategory,
    /// The entries, in the order in which the walk came upon them.
    pub entries: Vec<DirEntry>,
}

/// A file to compile as one translation unit.
#[derive(Clone, Debug, PartialEq, Eq)]
pub struct SourceFile {
    /// The path of the file.
    pub path: String,
    /// The category of the directory that holds it.
    pub category: SourceCategory,
}

/// An entry together with the directory that was listed and its category.
pub ghost struct Listed {
    pub path: Seq<char>,
    pub is_file: bool,
    pub dir: Seq<char>,
    pub category: SourceCategory,
}

/// What a `SourceFile` stands for.
pub ghost struct Source {
    pub path: Seq<char>,
    pub category: SourceCategory,
}

impl View for SourceFile {
    type V = Source;

    open spec fn view(&self) -> Source {
        Source { path: self.path@, category: self.category }
    }
}

/// What `files` stand for, in order.
pub open spec fn sources_of(files: Seq<SourceFile>) -> Seq<Source> {
    Seq::new(files.len(), |i: int| files[i]@)
}

/// The entries of `listing`, each with the listing's directory and
/// category.
pub open spec fn entries_of(listing: DirListing) -> Seq<Listed> {
    Seq::new(
        listing.entries.len() as nat,
        |i: int|
            Listed {
                path: listing.entries[i].path@,
                is_file: listing.entries[i].is_file,
                dir: listing.dir@,
                category: listing.category,
            },
    )
}

/// The entries of all of `listings`, in order.
pub open spec fn all_entries(listings: Seq<DirListing>) -> Seq<Listed>
    decreases listings.len(),
{
    if listings.len() == 0 {
        Seq::empty()
    } else {
        all_entries(listings.drop_last()) + entries_of(listings.last())
    }
}

/// The extension of the files to compile.
pub open spec fn source_extension() -> Seq<char> {
    "c"@
}

/// Whether `e` is a file to compile: a regular file with the source
/// extension that stands in the listed directory itself.
pub open spec fn is_source(e: Listed) -> bool {
    e.is_file && extension(e.path) == Some(source_extension()) && directly_in(e.path, e.dir)
}

/// Whether `seen` lists the source file `path` under `category`.
pub open spec fn listed_under(seen: Seq<Listed>, path: Seq<char>, category: SourceCategory) -> bool {
    exists|j: int|
        0 <= j < seen.len() && is_source(#[trigger] seen[j]) && seen[j].path == path
            && seen[j].category == category
}

/// Whether `seen` lists the source file `path`.
pub open spec fn is_listed(seen: Seq<Listed>, path: Seq<char>) -> bool {
    ||| listed_under(seen, path, SourceCategory::RootLibrary)
    ||| listed_under(seen, path, SourceCategory::ProtocolHandlers)
    ||| listed_under(seen, path, SourceCategory::ThirdPartyHelpers)
}

/// The category of the source file `path`: of those that `seen` lists it
/// under, the one of the lowest rank.
pub open spec fn category_of(seen: Seq<Listed>, path: Seq<char>) -> SourceCategory {
    if listed_under(seen, path, SourceCategory::RootLibrary) {
        SourceCategory::RootLibrary
    } else if listed_under(seen, path, SourceCategory::ProtocolHandlers) {
        SourceCategory::ProtocolHandlers
    } else {
        SourceCategory::ThirdPartyHelpers
    }
}

/// Whether `out` holds a file of the path `path`.
pub open spec fn has_path(out: Seq<Source>, path: Seq<char>) -> bool {
    exists|k: int| 0 <= k < out.len() && (#[trigger] out[k]).path == path
}

/// Whether the paths of `out` rise strictly in the lexicographic order.
pub open spec fn sorted_by_path(out: Seq<Source>) -> bool {
    forall|i: int, j: int|
        0 <= i < j < out.len() ==> lex_lt((#[trigger] out[i]).path, (#[trigger] out[j]).path)
}

/// Whether `out` is the list of the files to compile that `seen` gives:
/// sorted by path with no path twice, a file for each source file listed
/// and for no other path, each with its category. There is one such list
/// and no other.
pub open spec fn is_discovery(out: Seq<Source>, seen: Seq<Listed>) -> bool {
    &&& sorted_by_path(out)
    &&& forall|path: Seq<char>|
        #![trigger has_path(out, path)]
        #![trigger is_listed(seen, path)]
        has_path(out, path) <==> is_listed(seen, path)
    &&& forall|k: int|
        0 <= k < out.len() ==> (#[trigger] out[k]).category == category_of(seen, out[k].path)
}

/// What one more entry adds to what is listed.
pub proof fn lemma_listed_push(seen: Seq<Listed>, e: Listed, path: Seq<char>, category: SourceCategory)
    ensures
        listed_under(seen.push(e), path, category) == (listed_under(seen, path, category) || (
        is_source(e) && e.path == path && e.category == category)),
{
    let more = seen.push(e);
    if listed_under(seen, path, category) {
        let j = choose|j: int|
            0 <= j < seen.len() && is_source(#[trigger] seen[j]) && seen[j].path == path
                && seen[j].category == category;
        assert(more[j] == seen[j]);
    }
    if is_source(e) && e.path == path && e.category == category {
        assert(more[seen.len() as int] == e);
    }
    if listed_under(more, path, category) {
        let j = choose|j: int|
            0 <= j < more.len() && is_source(#[trigger] more[j]) && more[j].path == path
                && more[j].category == category;
        if j < seen.len() {
            assert(more[j] == seen[j]);
        }
    }
}

/// An entry that is no source file changes nothing.
pub proof fn lemma_discovery_skips(out: Seq<Source>, seen: Seq<Listed>, e: Listed)
    requires
        is_discovery(out, seen),
        !is_source(e),
    ensures
        is_discovery(out, seen.push(e)),
{
    let more = seen.push(e);
    assert forall|path: Seq<char>|
        #![trigger has_path(out, path)]
        #![trigger is_listed(more, path)]
        has_path(out, path) <==> is_listed(more, path) by {
        lemma_listed_push(seen, e, path, SourceCategory::RootLibrary);
        lemma_listed_push(seen, e, path, SourceCategory::ProtocolHandlers);
        lemma_listed_push(seen, e, path, SourceCategory::ThirdPartyHelpers);
        assert(is_listed(more, path) == is_listed(seen, path));
    }
    assert forall|k: int| 0 <= k < out.len() implies (#[trigger] out[k]).category == category_of(
        more,
        out[k].path,
    ) by {
        lemma_listed_push(seen, e, out[k].path, SourceCategory::RootLibrary);
        lemma_listed_push(seen, e, out[k].path, SourceCategory::ProtocolHandlers);
        lemma_listed_push(seen, e, out[k].path, SourceCategory::ThirdPartyHelpers);
    }
}

/// The three facts of `lemma_listed_push` for one path.
proof fn lemma_listed_push_all(seen: Seq<Listed>, e: Listed, path: Seq<char>)
    ensures
        listed_under(seen.push(e), path, SourceCategory::RootLibrary) == (listed_under(
            seen,
            path,
            SourceCategory::RootLibrary,
        ) || (is_source(e) && e.path == path && e.category == SourceCategory::RootLibrary)),
        listed_under(seen.push(e), path, SourceCategory::ProtocolHandlers) == (listed_under(
            seen,
            path,
            SourceCategory::ProtocolHandlers,
        ) || (is_source(e) && e.path == path && e.category == SourceCategory::ProtocolHandlers)),
        listed_under(seen.push(e), path, SourceCategory::ThirdPartyHelpers) == (listed_under(
            seen,
            path,
            SourceCategory::ThirdPartyHelpers,
        ) || (is_source(e) && e.path == path && e.category == SourceCategory::ThirdPartyHelpers)),
{
    lemma_listed_push(seen, e, path, SourceCategory::RootLibrary);
    lemma_listed_push(seen, e, path, SourceCategory::ProtocolHandlers);
    lemma_listed_push(seen, e, path, SourceCategory::ThirdPartyHelpers);
}

/// A source file whose path is new goes to its place in the order.
pub proof fn lemma_discovery_insert(out: Seq<Source>, seen: Seq<Listed>, e: Listed, p: int)
    requires
        is_discovery(out, seen),
        is_source(e),
        0 <= p <= out.len(),
        forall|i: int| 0 <= i < p ==> lex_lt((#[trigger] out[i]).path, e.path),
        p < out.len() ==> lex_lt(e.path, out[p].path),
    ensures
        is_discovery(
            out.insert(p, Source { path: e.path, category: e.category }),
            seen.push(e),
        ),
{
    let x = Source { path: e.path, category: e.category };
    let new = out.insert(p, x);
    let more = seen.push(e);
    assert forall|j: int| p <= j < out.len() implies lex_lt(e.path, (#[trigger] out[j]).path) by {
        if j > p {
            lemma_lex_transitive(e.path, out[p].path, out[j].path);
        }
    }
    assert(!has_path(out, e.path)) by {
        if has_path(out, e.path) {
            let k = choose|k: int| 0 <= k < out.len() && (#[trigger] out[k]).path == e.path;
            lemma_lex_irreflexive(e.path);
        }
    }
    assert(sorted_by_path(new)) by {
        assert forall|i: int, j: int| 0 <= i < j < new.len() implies lex_lt(
            (#[trigger] new[i]).path,
            (#[trigger] new[j]).path,
        ) by {
            if j < p {
                assert(new[i] == out[i] && new[j] == out[j]);
            } else if j == p {
                assert(new[i] == out[i]);
            } else if i < p {
                assert(new[i] == out[i] && new[j] == out[j - 1]);
            } else if i == p {
                assert(new[j] == out[j - 1]);
            } else {
                assert(new[i] == out[i - 1] && new[j] == out[j - 1]);
            }
        }
    }
    assert forall|path: Seq<char>|
        #![trigger has_path(new, path)]
        #![trigger is_listed(more, path)]
        has_path(new, path) <==> is_listed(more, path) by {
        lemma_listed_push_all(seen, e, path);
        if has_path(out, path) {
            let k = choose|k: int| 0 <= k < out.len() && (#[trigger] out[k]).path == path;
            if k < p {
                assert(new[k] == out[k]);
            } else {
                assert(new[k + 1] == out[k]);
            }
        }
        if path == e.path {
            assert(new[p] == x);
        }
        if has_path(new, path) {
            let k = choose|k: int| 0 <= k < new.len() && (#[trigger] new[k]).path == path;
            if k < p {
                assert(new[k] == out[k]);
            } else if k > p {
                assert(new[k] == out[k - 1]);
            }
        }
        assert(has_path(new, path) == (has_path(out, path) || path == e.path));
        assert(is_listed(more, path) == (is_listed(seen, path) || path == e.path));
    }
    assert forall|k: int| 0 <= k < new.len() implies (#[trigger] new[k]).category == category_of(
        more,
        new[k].path,
    ) by {
        lemma_listed_push_all(seen, e, new[k].path);
        if k < p {
            assert(new[k] == out[k]);
            lemma_lex_irreflexive(e.path);
        } else if k > p {
            assert(new[k] == out[k - 1]);
            lemma_lex_irreflexive(e.path);
        } else {
            assert(!is_listed(seen, e.path));
        }
    }
}

/// The category that a file keeps when it is listed once more under
/// `category`.
pub open spec fn better(kept: SourceCategory, category: SourceCategory) -> SourceCategory {
    if category.rank() < kept.rank() {
        category
    } else {
        kept
    }
}

/// A source file whose path is known keeps the better of its categories.
pub proof fn lemma_discovery_update(out: Seq<Source>, seen: Seq<Listed>, e: Listed, p: int)
    requires
        is_discovery(out, seen),
        is_source(e),
        0 <= p < out.len(),
        out[p].path == e.path,
    ensures
        is_discovery(
            out.update(p, Source { path: e.path, category: better(out[p].category, e.category) }),
            seen.push(e),
        ),
{
    let x = Source { path: e.path, category: better(out[p].category, e.category) };
    let new = out.update(p, x);
    let more = seen.push(e);
    assert(sorted_by_path(new)) by {
        assert forall|i: int, j: int| 0 <= i < j < new.len() implies lex_lt(
            (#[trigger] new[i]).path,
            (#[trigger] new[j]).path,
        ) by {
            assert(new[i].path == out[i].path && new[j].path == out[j].path);
        }
    }
    assert(has_path(out, e.path));
    assert forall|path: Seq<char>|
        #![trigger has_path(new, path)]
        #![trigger is_listed(more, path)]
        has_path(new, path) <==> is_listed(more, path) by {
        lemma_listed_push_all(seen, e, path);
        if has_path(out, path) {
            let k = choose|k: int| 0 <= k < out.len() && (#[trigger] out[k]).path == path;
            assert(new[k].path == out[k].path);
        }
        if has_path(new, path) {
            let k = choose|k: int| 0 <= k < new.len() && (#[trigger] new[k]).path == path;
            assert(new[k].path == out[k].path);
        }
        assert(has_path(new, path) == has_path(out, path));
        assert(is_listed(more, path) == (is_listed(seen, path) || path == e.path));
    }
    assert forall|k: int| 0 <= k < new.len() implies (#[trigger] new[k]).category == category_of(
        more,
        new[k].path,
    ) by {
        lemma_listed_push_all(seen, e, new[k].path);
        if k != p {
            assert(new[k] == out[k]);
            assert(out[k].path != e.path) by {
                lemma_lex_irreflexive(e.path);
                if k < p {
                    assert(lex_lt(out[k].path, out[p].path));
                } else {
                    assert(lex_lt(out[p].path, out[k].path));
                }
            }
        } else {
            assert(is_listed(seen, e.path));
            assert(out[p].category == category_of(seen, e.path));
        }
    }
}

/// Puts the source file `path` of `category` into `out`, which holds the
/// files found so far.
fn insert_source(
    out: &mut Vec<SourceFile>,
    path: &str,
    category: SourceCategory,
    Ghost(seen): Ghost<Seq<Listed>>,
    Ghost(e): Ghost<Listed>,
)
    requires
        is_discovery(sources_of(old(out)@), seen),
        is_source(e),
        e.path == path@,
        e.category == category,
    ensures
        is_discovery(sources_of(final(out)@), seen.push(e)),
{
    let ghost before = sources_of(out@);
    let mut p: usize = 0;
    while p < out.len() && str_lt(out[p].path.as_str(), path)
        invariant
            0 <= p <= out.len(),
            before == sources_of(out@),
            forall|i: int| 0 <= i < p ==> lex_lt((#[trigger] before[i]).path, path@),
        decreases out.len() - p,
    {
        p = p + 1;
    }
    if p < out.len() && str_eq(out[p].path.as_str(), path) {
        let kept = out[p].category;
        let category = if category.rank_of() < kept.rank_of() {
            category
        } else {
            kept
        };
        out.set(p, SourceFile { path: String::from_str(path), category });
        proof {
            lemma_discovery_update(before, seen, e, p as int);
            assert(sources_of(out@) =~= before.update(
                p as int,
                Source { path: e.path, category: better(before[p as int].category, e.category) },
            ));
        }
    } else {
        proof {
            if p < out.len() {
                lemma_lex_total(path@, before[p as int].path);
            }
            lemma_discovery_insert(before, seen, e, p as int);
        }
        out.insert(p, SourceFile { path: String::from_str(path), category });
        proof {
            assert(sources_of(out@) =~= before.insert(
                p as int,
                Source { path: e.path, category: e.category },
            ));
        }
    }
}

/// Adds the source files of `listing` to `out`.
fn add_listing(out: &mut Vec<SourceFile>, listing: &DirListing, Ghost(seen): Ghost<Seq<Listed>>)
    requires
        is_discovery(sources_of(old(out)@), seen),
    ensures
        is_discovery(sources_of(final(out)@), seen + entries_of(*listing)),
{
    let ghost found = entries_of(*listing);
    let mut i: usize = 0;
    proof {
        assert(seen + found.take(0) =~= seen);
    }
    while i < listing.entries.len()
        invariant
            0 <= i <= listing.entries.len(),
            found == entries_of(*listing),
            is_discovery(sources_of(out@), seen + found.take(i as int)),
        decreases listing.entries.len() - i,
    {
        let entry = &listing.entries[i];
        let ghost so_far = seen + found.take(i as int);
        proof {
            assert(so_far.push(found[i as int]) =~= seen + found.take(i + 1));
        }
        if entry.is_file && has_extension(entry.path.as_str(), "c") && is_directly_in(
            entry.path.as_str(),
            listing.dir.as_str(),
        ) {
            insert_source(
                out,
                entry.path.as_str(),
                listing.category,
                Ghost(so_far),
                Ghost(found[i as int]),
            );
        } else {
            proof {
                lemma_discovery_skips(sources_of(out@), so_far, found[i as int]);
            }
        }
        i = i + 1;
    }
    proof {
        assert(found.take(listing.entries.len() as int) =~= found);
    }
}

/// The files to compile that one directory holds: every regular file of
/// the listing that has the source extension and stands in the directory
/// itself, once, sorted by path.
pub fn collect_c_sources_from_dir(listing: &DirListing) -> (out: Vec<SourceFile>)
    ensures
        is_discovery(sources_of(out@), entries_of(*listing)),
{
    let mut out: Vec<SourceFile> = Vec::new();
    proof {
        assert(is_discovery(sources_of(out@), Seq::<Listed>::empty()));
        assert(Seq::<Listed>::empty() + entries_of(*listing) =~= entries_of(*listing));
    }
    add_listing(&mut out, listing, Ghost(Seq::empty()));
    out
}

/// The files to compile that the directories hold together: every regular
/// file of the listings that has the source extension and stands in the
/// directory of its listing itself, once, sorted by path over all of them.
/// A file that several listings name belongs to the category of the lowest
/// rank among them.
pub fn collect_c_sources(listings: &Vec<DirListing>) -> (out: Vec<SourceFile>)
    ensures
        is_discovery(sources_of(out@), all_entries(listings@)),
{
    let mut out: Vec<SourceFile> = Vec::new();
    let mut i: usize = 0;
    proof {
        assert(listings@.take(0) =~= Seq::<DirListing>::empty());
        assert(is_discovery(sources_of(out@), Seq::<Listed>::empty()));
    }
    while i < listings.len()
        invariant
            0 <= i <= listings.len(),
            is_discovery(sources_of(out@), all_entries(listings@.take(i as int))),
        decreases listings.len() - i,
    {
        proof {
            let next = listings@.take(i + 1);
            assert(next.drop_last() =~= listings@.take(i as int));
            assert(next.last() == listings@[i as int]);
        }
        add_listing(&mut out, &listings[i], Ghost(all_entries(listings@.take(i as int))));
        i = i + 1;
    }
    proof {
        assert(listings@.take(listings.len() as int) =~= listings@);
    }
    out
}

} // verus!
