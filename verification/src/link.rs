//! Link directives: what the final artifact has to be linked with, and on
//! which platforms.

use crate::text::{str_eq, texts_of};
use vstd::prelude::*;
use vstd::string::StringExecFns;

verus! {

/// How a library is linked.
#[derive(Clone, Copy, Debug, PartialEq, Eq)]
pub enum LinkKind {
    /// A static library built here.
    Static,
    /// A library of the system.
    System,
}

/// The platforms on which a directive holds.
#[derive(Clone, Debug, PartialEq, Eq)]
pub enum Platform {
    /// Every target.
    Any,
    /// Every target but those of one operating system.
    AllBut { target_os: String },
}

/// A library that the final artifact is linked with.
#[derive(Clone, Debug, PartialEq, Eq)]
pub struct LinkDirective {
    pub library: String,
    pub kind: LinkKind,
    pub platform: Platform,
}

/// What a `LinkDirective` stands for; `excluded` is the operating system
/// that the directive does not hold for, if there is one.
pub ghost struct Link {
    pub library: Seq<char>,
    pub kind: LinkKind,
    pub excluded: Option<Seq<char>>,
}

impl View for LinkDirective {
    type V = Link;

    open spec fn view(&self) -> Link {
        Link {
            library: self.library@,
            kind: self.kind,
            excluded: match self.platform {
                Platform::Any => None,
                Platform::AllBut { target_os } => Some(target_os@),
            },
        }
    }
}

/// What `directives` stand for, in order.
pub open spec fn links_of(directives: Seq<LinkDirective>) -> Seq<Link> {
    Seq::new(directives.len(), |i: int| directives[i]@)
}

/// Whether `link` holds for the target `target_os`.
pub open spec fn applies(link: Link, target_os: Seq<char>) -> bool {
    link.excluded != Some(target_os)
}

/// The line that declares `link` to the build orchestrator.
pub open spec fn directive_text(link: Link) -> Seq<char> {
    match link.kind {
        LinkKind::Static => "cargo:rustc-link-lib=static="@ + link.library,
        LinkKind::System => "cargo:rustc-link-lib="@ + link.library,
    }
}

/// The lines to emit for the target `target_os`: one for each of `links`
/// that holds for it, in order.
pub open spec fn emitted(links: Seq<Link>, target_os: Seq<char>) -> Seq<Seq<char>>
    decreases links.len(),
{
    if links.len() == 0 {
        Seq::empty()
    } else if applies(links.last(), target_os) {
        emitted(links.drop_last(), target_os).push(directive_text(links.last()))
    } else {
        emitted(links.drop_last(), target_os)
    }
}

/// The operating system whose targets have no math library of their own.
pub open spec fn os_without_math_library() -> Seq<char> {
    "windows"@
}

/// The compiled vendor library.
pub open spec fn vendor_link() -> Link {
    Link { library: "ndpi"@, kind: LinkKind::Static, excluded: None }
}

/// The math library of the system, which the vendor library calls.
pub open spec fn math_link() -> Link {
    Link { library: "m"@, kind: LinkKind::System, excluded: Some(os_without_math_library()) }
}

impl LinkDirective {
    /// Whether the directive holds for the target `target_os`.
    pub fn applies_to(&self, target_os: &str) -> (r: bool)
        ensures
            r == applies(self@, target_os@),
    {
        match &self.platform {
            Platform::Any => true,
            Platform::AllBut { target_os: excluded } => !str_eq(excluded.as_str(), target_os),
        }
    }

    /// The line that declares the directive to the build orchestrator.
    pub fn line(&self) -> (text: String)
        ensures
            text@ == directive_text(self@),
    {
        let mut text = match self.kind {
            LinkKind::Static => String::from_str("cargo:rustc-link-lib=static="),
            LinkKind::System => String::from_str("cargo:rustc-link-lib="),
        };
        text.append(self.library.as_str());
        text
    }
}

/// The directive for the compiled vendor library.
pub fn vendor_library() -> (directive: LinkDirective)
    ensures
        directive@ == vendor_link(),
{
    LinkDirective {
        library: String::from_str("ndpi"),
        kind: LinkKind::Static,
        platform: Platform::Any,
    }
}

/// The directive for the math library: it holds for every target but those
/// of the one operating system that has none.
pub fn math_library() -> (directive: LinkDirective)
    ensures
        directive@ == math_link(),
{
    LinkDirective {
        library: String::from_str("m"),
        kind: LinkKind::System,
        platform: Platform::AllBut { target_os: String::from_str("windows") },
    }
}

/// The lines to emit for the target `target_os`.
pub fn link_lines(directives: &Vec<LinkDirective>, target_os: &str) -> (lines: Vec<String>)
    ensures
        texts_of(lines@) == emitted(links_of(directives@), target_os@),
{
    let mut lines: Vec<String> = Vec::new();
    let mut i: usize = 0;
    let ghost links = links_of(directives@);
    proof {
        assert(links.take(0) =~= Seq::<Link>::empty());
        assert(texts_of(lines@) =~= emitted(links.take(0), target_os@));
    }
    while i < directives.len()
        invariant
            0 <= i <= directives.len(),
            links == links_of(directives@),
            texts_of(lines@) == emitted(links.take(i as int), target_os@),
        decreases directives.len() - i,
    {
        proof {
            let next = links.take(i + 1);
            assert(next.drop_last() =~= links.take(i as int));
            assert(next.last() == directives[i as int]@);
        }
        if directives[i].applies_to(target_os) {
            let ghost before = texts_of(lines@);
            let text = directives[i].line();
            lines.push(text);
            proof {
                assert(texts_of(lines@) =~= before.push(text@));
            }
        }
        i = i + 1;
    }
    proof {
        assert(links.take(directives.len() as int) =~= links);
    }
    lines
}

/// The math library is declared exactly where the target has one: for
/// every operating system but the one without it, the line is emitted, and
/// for that one it is not.
pub proof fn lemma_math_library_by_platform(target_os: Seq<char>)
    ensures
        target_os != os_without_math_library() ==> emitted(seq![math_link()], target_os) == seq![
            directive_text(math_link()),
        ],
        target_os == os_without_math_library() ==> emitted(seq![math_link()], target_os)
            == Seq::<Seq<char>>::empty(),
{
    let links = seq![math_link()];
    assert(links.drop_last() =~= Seq::<Link>::empty());
    assert(links.last() == math_link());
    assert(emitted(links.drop_last(), target_os) =~= Seq::<Seq<char>>::empty());
    if target_os != os_without_math_library() {
        assert(emitted(links, target_os) =~= seq![directive_text(math_link())]);
    }
}

} // verus!
