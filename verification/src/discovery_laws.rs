//! What holds of every discovery: the list of the files to compile depends
//! on the tree alone.

use crate::discovery::{
    category_of, has_path, is_discovery, is_listed, is_source, listed_under, sorted_by_path,
    Listed, Source, SourceCategory,
};
use crate::text::{lemma_lex_asymmetric, lemma_lex_irreflexive, lex_lt};
use vstd::prelude::*;

verus! {

/// What is listed depends on the entries alone, not on their order nor on
/// how often each is met.
pub proof fn lemma_listed_by_set(
    a: Seq<Listed>,
    b: Seq<Listed>,
    path: Seq<char>,
    category: SourceCategory,
)
    requires
        a.to_set() == b.to_set(),
    ensures
        listed_under(a, path, category) == listed_under(b, path, category),
{
    if listed_under(a, path, category) {
        let j = choose|j: int|
            0 <= j < a.len() && is_source(#[trigger] a[j]) && a[j].path == path && a[j].category
                == category;
        assert(a.contains(a[j]));
        assert(a.to_set().contains(a[j]));
        assert(b.contains(a[j]));
        let k = choose|k: int| 0 <= k < b.len() && b[k] == a[j];
        assert(is_source(b[k]));
    }
    if listed_under(b, path, category) {
        let j = choose|j: int|
            0 <= j < b.len() && is_source(#[trigger] b[j]) && b[j].path == path && b[j].category
                == category;
        assert(b.contains(b[j]));
        assert(b.to_set().contains(b[j]));
        assert(a.contains(b[j]));
        let k = choose|k: int| 0 <= k < a.len() && a[k] == b[j];
        assert(is_source(a[k]));
    }
}

/// Two lists sorted by path that hold the same paths hold them at the same
/// places.
pub proof fn lemma_sorted_paths_agree(a: Seq<Source>, b: Seq<Source>)
    requires
        sorted_by_path(a),
        sorted_by_path(b),
        forall|path: Seq<char>|
            #![trigger has_path(a, path)]
            #![trigger has_path(b, path)]
            has_path(a, path) <==> has_path(b, path),
    ensures
        a.len() == b.len(),
        forall|k: int| 0 <= k < a.len() ==> (#[trigger] a[k]).path == b[k].path,
    decreases a.len(),
{
    if a.len() == 0 {
        if b.len() > 0 {
            assert(has_path(b, b[0].path));
            assert(has_path(a, b[0].path));
        }
    } else {
        assert(has_path(a, a[0].path));
        assert(has_path(b, a[0].path));
        let j = choose|j: int| 0 <= j < b.len() && (#[trigger] b[j]).path == a[0].path;
        assert(has_path(b, b[0].path));
        assert(has_path(a, b[0].path));
        let i = choose|i: int| 0 <= i < a.len() && (#[trigger] a[i]).path == b[0].path;
        assert(a[0].path == b[0].path) by {
            if i > 0 && j > 0 {
                assert(lex_lt(a[0].path, a[i].path));
                assert(lex_lt(b[0].path, b[j].path));
                lemma_lex_asymmetric(a[0].path, b[0].path);
            }
        }
        let ta = a.drop_first();
        let tb = b.drop_first();
        assert(sorted_by_path(ta)) by {
            assert forall|x: int, y: int| 0 <= x < y < ta.len() implies lex_lt(
                (#[trigger] ta[x]).path,
                (#[trigger] ta[y]).path,
            ) by {
                assert(ta[x] == a[x + 1] && ta[y] == a[y + 1]);
            }
        }
        assert(sorted_by_path(tb)) by {
            assert forall|x: int, y: int| 0 <= x < y < tb.len() implies lex_lt(
                (#[trigger] tb[x]).path,
                (#[trigger] tb[y]).path,
            ) by {
                assert(tb[x] == b[x + 1] && tb[y] == b[y + 1]);
            }
        }
        assert forall|path: Seq<char>|
            #![trigger has_path(ta, path)]
            #![trigger has_path(tb, path)]
            has_path(ta, path) <==> has_path(tb, path) by {
            lemma_lex_irreflexive(path);
            if has_path(ta, path) {
                let k = choose|k: int| 0 <= k < ta.len() && (#[trigger] ta[k]).path == path;
                assert(ta[k] == a[k + 1]);
                assert(lex_lt(a[0].path, a[k + 1].path));
                assert(has_path(a, path));
                assert(has_path(b, path));
                let m = choose|m: int| 0 <= m < b.len() && (#[trigger] b[m]).path == path;
                assert(m > 0);
                assert(tb[m - 1] == b[m]);
            }
            if has_path(tb, path) {
                let k = choose|k: int| 0 <= k < tb.len() && (#[trigger] tb[k]).path == path;
                assert(tb[k] == b[k + 1]);
                assert(lex_lt(b[0].path, b[k + 1].path));
                assert(has_path(b, path));
                assert(has_path(a, path));
                let m = choose|m: int| 0 <= m < a.len() && (#[trigger] a[m]).path == path;
                assert(m > 0);
                assert(ta[m - 1] == a[m]);
            }
        }
        lemma_sorted_paths_agree(ta, tb);
        assert forall|k: int| 0 <= k < a.len() implies (#[trigger] a[k]).path == b[k].path by {
            if k > 0 {
                assert(ta[k - 1] == a[k]);
                assert(tb[k - 1] == b[k]);
            }
        }
    }
}

/// Discovery is a function of the tree: two listings that hold the same
/// entries, in whatever order and however often, give the same files in the
/// same order. So does one listing read twice.
pub proof fn lemma_discovery_is_determined(
    a: Seq<Source>,
    b: Seq<Source>,
    seen_a: Seq<Listed>,
    seen_b: Seq<Listed>,
)
    requires
        is_discovery(a, seen_a),
        is_discovery(b, seen_b),
        seen_a.to_set() == seen_b.to_set(),
    ensures
        a == b,
{
    assert forall|path: Seq<char>|
        #![trigger has_path(a, path)]
        #![trigger has_path(b, path)]
        has_path(a, path) <==> has_path(b, path) by {
        lemma_listed_by_set(seen_a, seen_b, path, SourceCategory::RootLibrary);
        lemma_listed_by_set(seen_a, seen_b, path, SourceCategory::ProtocolHandlers);
        lemma_listed_by_set(seen_a, seen_b, path, SourceCategory::ThirdPartyHelpers);
        assert(is_listed(seen_a, path) == is_listed(seen_b, path));
    }
    lemma_sorted_paths_agree(a, b);
    assert forall|k: int| 0 <= k < a.len() implies a[k] == b[k] by {
        let path = a[k].path;
        lemma_listed_by_set(seen_a, seen_b, path, SourceCategory::RootLibrary);
        lemma_listed_by_set(seen_a, seen_b, path, SourceCategory::ProtocolHandlers);
        lemma_listed_by_set(seen_a, seen_b, path, SourceCategory::ThirdPartyHelpers);
        assert(a[k].category == category_of(seen_a, path));
        assert(b[k].category == category_of(seen_b, path));
    }
    assert(a =~= b);
}

} // verus!
