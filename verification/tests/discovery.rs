use ndpi_plugin::discovery::{
    collect_c_sources, collect_c_sources_from_dir, DirEntry, DirListing, SourceCategory, SourceFile,
};
use ndpi_plugin::path::is_directly_in;

fn file(path: &str) -> DirEntry {
    DirEntry { path: path.to_string(), is_file: true }
}

fn dir(path: &str) -> DirEntry {
    DirEntry { path: path.to_string(), is_file: false }
}

fn listing(dir: &str, category: SourceCategory, entries: Vec<DirEntry>) -> DirListing {
    DirListing { dir: dir.to_string(), category, entries }
}

fn source(path: &str, category: SourceCategory) -> SourceFile {
    SourceFile { path: path.to_string(), category }
}

fn paths(files: &[SourceFile]) -> Vec<&str> {
    files.iter().map(|f| f.path.as_str()).collect()
}

#[test]
fn sources_of_one_directory_come_sorted() {
    let found = listing(
        "lib",
        SourceCategory::RootLibrary,
        vec![
            dir("lib"),
            file("lib/ndpi_main.c"),
            file("lib/Makefile.in"),
            file("lib/ndpi_utils.c"),
            dir("lib/protocols"),
            file("lib/ndpi_analyze.c"),
            file("lib/ndpi_private.h"),
        ],
    );
    let out = collect_c_sources_from_dir(&found);
    assert_eq!(
        out,
        vec![
            source("lib/ndpi_analyze.c", SourceCategory::RootLibrary),
            source("lib/ndpi_main.c", SourceCategory::RootLibrary),
            source("lib/ndpi_utils.c", SourceCategory::RootLibrary),
        ]
    );
}

#[test]
fn an_empty_or_absent_directory_gives_nothing() {
    let found = listing("lib/protocols", SourceCategory::ProtocolHandlers, Vec::new());
    assert_eq!(collect_c_sources_from_dir(&found), Vec::<SourceFile>::new());
    assert_eq!(collect_c_sources(&vec![found]), Vec::<SourceFile>::new());
    assert_eq!(collect_c_sources(&Vec::new()), Vec::<SourceFile>::new());
}

#[test]
fn a_directory_named_like_a_source_is_left_out() {
    let found = listing("lib", SourceCategory::RootLibrary, vec![dir("lib/odd.c"), file("lib/a.c")]);
    assert_eq!(paths(&collect_c_sources_from_dir(&found)), vec!["lib/a.c"]);
}

#[test]
fn only_the_source_extension_counts() {
    let found = listing(
        "lib",
        SourceCategory::RootLibrary,
        vec![
            file("lib/a.c"),
            file("lib/b.C"),
            file("lib/c.cc"),
            file("lib/d.h"),
            file("lib/.c"),
            file("lib/e.c.in"),
            file("lib/f.x.c"),
            file("lib/g"),
        ],
    );
    assert_eq!(paths(&collect_c_sources_from_dir(&found)), vec!["lib/a.c", "lib/f.x.c"]);
}

#[test]
fn files_of_directories_further_down_are_left_out() {
    let found = listing(
        "lib",
        SourceCategory::RootLibrary,
        vec![
            file("lib/a.c"),
            file("lib/protocols/tls.c"),
            file("lib/third_party/src/hll/hll.c"),
            file("other/b.c"),
            file("lib.c"),
            file("b.c"),
            file("lib/c.c"),
        ],
    );
    assert_eq!(paths(&collect_c_sources_from_dir(&found)), vec!["lib/a.c", "lib/c.c"]);
}

#[test]
fn an_entry_stands_directly_in_a_directory_or_not() {
    assert!(is_directly_in("lib/a.c", "lib"));
    assert!(is_directly_in("lib/a.c", "lib/"));
    assert!(is_directly_in("/abs/lib/a.c", "/abs/lib"));
    assert!(is_directly_in("a.c", ""));
    assert!(is_directly_in("./a.c", "."));
    assert!(!is_directly_in("lib/x/a.c", "lib"));
    assert!(!is_directly_in("lib/a.c", "li"));
    assert!(!is_directly_in("lib/a.c", "lib/x"));
    assert!(!is_directly_in("lib", "lib"));
    assert!(!is_directly_in("a.c", "lib"));
}

#[test]
fn the_combined_list_is_sorted_over_all_directories() {
    let listings = vec![
        listing(
            "lib",
            SourceCategory::RootLibrary,
            vec![dir("lib"), file("lib/ndpi_main.c"), file("lib/ndpi_api.c")],
        ),
        listing(
            "lib/protocols",
            SourceCategory::ProtocolHandlers,
            vec![dir("lib/protocols"), file("lib/protocols/tls.c"), file("lib/protocols/dns.c")],
        ),
        listing(
            "lib/third_party/src",
            SourceCategory::ThirdPartyHelpers,
            vec![file("lib/third_party/src/roaring.c"), dir("lib/third_party/src/hll")],
        ),
        listing(
            "lib/third_party/src/hll",
            SourceCategory::ThirdPartyHelpers,
            vec![file("lib/third_party/src/hll/hll.c")],
        ),
    ];
    let out = collect_c_sources(&listings);
    assert_eq!(
        out,
        vec![
            source("lib/ndpi_api.c", SourceCategory::RootLibrary),
            source("lib/ndpi_main.c", SourceCategory::RootLibrary),
            source("lib/protocols/dns.c", SourceCategory::ProtocolHandlers),
            source("lib/protocols/tls.c", SourceCategory::ProtocolHandlers),
            source("lib/third_party/src/hll/hll.c", SourceCategory::ThirdPartyHelpers),
            source("lib/third_party/src/roaring.c", SourceCategory::ThirdPartyHelpers),
        ]
    );
}

#[test]
fn the_order_is_by_code_point() {
    let listings = vec![
        listing(
            "",
            SourceCategory::RootLibrary,
            vec![file("b.c"), file("a.c"), file("B.c"), file("a-b.c"), file("é.c"), file("a0.c")],
        ),
        listing("a", SourceCategory::ProtocolHandlers, vec![file("a/z.c")]),
    ];
    assert_eq!(
        paths(&collect_c_sources(&listings)),
        vec!["B.c", "a-b.c", "a.c", "a/z.c", "a0.c", "b.c", "é.c"]
    );
}

#[test]
fn a_file_listed_twice_is_compiled_once() {
    let found = listing(
        "lib",
        SourceCategory::RootLibrary,
        vec![file("lib/a.c"), file("lib/b.c"), file("lib/a.c")],
    );
    assert_eq!(paths(&collect_c_sources_from_dir(&found)), vec!["lib/a.c", "lib/b.c"]);
}

#[test]
fn a_file_of_two_listings_keeps_the_category_of_lowest_rank() {
    let third = listing("x", SourceCategory::ThirdPartyHelpers, vec![file("x/a.c")]);
    let proto = listing("x", SourceCategory::ProtocolHandlers, vec![file("x/a.c")]);
    let root = listing("x", SourceCategory::RootLibrary, vec![file("x/a.c")]);
    assert_eq!(
        collect_c_sources(&vec![third.clone(), proto.clone()]),
        vec![source("x/a.c", SourceCategory::ProtocolHandlers)]
    );
    assert_eq!(
        collect_c_sources(&vec![proto.clone(), third.clone()]),
        vec![source("x/a.c", SourceCategory::ProtocolHandlers)]
    );
    assert_eq!(
        collect_c_sources(&vec![third, root, proto]),
        vec![source("x/a.c", SourceCategory::RootLibrary)]
    );
}

#[test]
fn the_result_does_not_depend_on_the_order_of_the_listing() {
    let names = ["lib/d.c", "lib/a.c", "lib/c.c", "lib/b.c", "lib/e.h", "lib/aa.c"];
    let forward = listing("lib", SourceCategory::RootLibrary, names.iter().map(|n| file(n)).collect());
    let backward =
        listing("lib", SourceCategory::RootLibrary, names.iter().rev().map(|n| file(n)).collect());
    let rotated = listing(
        "lib",
        SourceCategory::RootLibrary,
        names.iter().cycle().skip(3).take(names.len() * 2).map(|n| file(n)).collect(),
    );
    let want = collect_c_sources_from_dir(&forward);
    assert_eq!(paths(&want), vec!["lib/a.c", "lib/aa.c", "lib/b.c", "lib/c.c", "lib/d.c"]);
    assert_eq!(collect_c_sources_from_dir(&backward), want);
    assert_eq!(collect_c_sources_from_dir(&rotated), want);
    assert_eq!(collect_c_sources_from_dir(&forward), want);
}

#[test]
fn ranks_order_the_categories() {
    assert_eq!(SourceCategory::RootLibrary.rank_of(), 0);
    assert_eq!(SourceCategory::ProtocolHandlers.rank_of(), 1);
    assert_eq!(SourceCategory::ThirdPartyHelpers.rank_of(), 2);
}
