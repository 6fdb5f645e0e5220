//! The vendor's public headers, which are copied to where the generated
//! headers stand.

use crate::discovery::DirEntry;
use crate::path::{extension, file_name, file_name_of, has_extension, join, joined};
use vstd::prelude::*;
use vstd::string::StringExecFns;

verus! {

/// A file to copy.
#[derive(Clone, Debug, PartialEq, Eq)]
pub struct HeaderCopy {
    pub from: String,
    pub to: String,
}

/// What a `HeaderCopy` stands for.
pub ghost struct Copied {
    pub from: Seq<char>,
    pub to: Seq<char>,
}

impl View for HeaderCopy {
    type V = Copied;

    open spec fn view(&self) -> Copied {
        Copied { from: self.from@, to: self.to@ }
    }
}

/// What `copies` stand for, in order.
pub open spec fn copies_of(copies: Seq<HeaderCopy>) -> Seq<Copied> {
    Seq::new(copies.len(), |i: int| copies[i]@)
}

/// The paths of `entries`, in order.
pub open spec fn paths_of(entries: Seq<DirEntry>) -> Seq<Seq<char>> {
    Seq::new(entries.len(), |i: int| entries[i].path@)
}

/// The extension of a header.
pub open spec fn header_extension() -> Seq<char> {
    "h"@
}

/// The copies to make of the headers among `paths`: each path with the
/// header extension goes, under its own file name, to `destination`. The
/// order is that of `paths`.
pub open spec fn header_copies(paths: Seq<Seq<char>>, destination: Seq<char>) -> Seq<Copied>
    decreases paths.len(),
{
    if paths.len() == 0 {
        Seq::empty()
    } else if extension(paths.last()) == Some(header_extension()) {
        header_copies(paths.drop_last(), destination).push(
            Copied { from: paths.last(), to: joined(destination, file_name(paths.last())) },
        )
    } else {
        header_copies(paths.drop_last(), destination)
    }
}

/// The copies to make of the public headers that a directory holds.
pub fn public_header_copies(entries: &Vec<DirEntry>, destination: &str) -> (copies: Vec<HeaderCopy>)
    ensures
        copies_of(copies@) == header_copies(paths_of(entries@), destination@),
{
    let mut copies: Vec<HeaderCopy> = Vec::new();
    let mut i: usize = 0;
    let ghost paths = paths_of(entries@);
    proof {
        assert(paths.take(0) =~= Seq::<Seq<char>>::empty());
        assert(copies_of(copies@) =~= header_copies(paths.take(0), destination@));
    }
    while i < entries.len()
        invariant
            0 <= i <= entries.len(),
            paths == paths_of(entries@),
            copies_of(copies@) == header_copies(paths.take(i as int), destination@),
        decreases entries.len() - i,
    {
        proof {
            let next = paths.take(i + 1);
            assert(next.drop_last() =~= paths.take(i as int));
            assert(next.last() == entries[i as int].path@);
        }
        let path = entries[i].path.as_str();
        if has_extension(path, "h") {
            let ghost before = copies_of(copies@);
            let name = file_name_of(path);
            let copy = HeaderCopy { from: String::from_str(path), to: join(destination, name.as_str()) };
            copies.push(copy);
            proof {
                assert(copies_of(copies@) =~= before.push(copy@));
            }
        }
        i = i + 1;
    }
    proof {
        assert(paths.take(entries.len() as int) =~= paths);
    }
    copies
}

} // verus!
