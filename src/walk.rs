//! The random walk down a directory tree that picks a picture: one step per
//! directory, each choosing one entry uniformly at random.

use crate::canvas::Image;
use crate::paper::{drawn, Paper, Style};
use crate::text::{ends_with, has_suffix};
use rand::seq::IteratorRandom;
use vstd::prelude::*;

verus! {

/// The deepest directory level the walk enters before giving up.
pub const MAX_WALK_DEPTH: u32 = 64;

/// What a directory entry is.
#[derive(PartialEq, Eq, Structural, Clone, Copy)]
pub enum EntryKind {
    File,
    Directory,
    Other,
}

/// One entry of a directory listing.
pub struct Entry {
    pub name: String,
    pub kind: EntryKind,
}

/// Where the walk goes after one step.
#[derive(PartialEq, Eq, Structural, Clone, Copy)]
pub enum Step {
    /// The entry at this index is a picture: decode it.
    Open(usize),
    /// The entry at this index is a directory: walk on inside it.
    Enter(usize),
}

/// Why the walk found no picture.
#[derive(PartialEq, Eq, Structural, Clone, Copy)]
pub enum WalkError {
    /// The directory chosen has no entries.
    EmptyDirectory,
    /// The entry chosen is neither a picture nor a directory.
    InvalidFileType,
    /// The walk went deeper than `MAX_WALK_DEPTH`.
    TooDeep,
}

/// A file name that ends in `.png`, `.jpg` or `.jpeg`, letter case included.
pub open spec fn is_picture_name(name: Seq<char>) -> bool {
    ends_with(name, ".png"@) || ends_with(name, ".jpg"@) || ends_with(name, ".jpeg"@)
}

/// Where the walk goes when it has chosen the entry `e` at index `i`.
pub open spec fn outcome(e: Entry, i: usize) -> Result<Step, WalkError> {
    if e.kind == EntryKind::File && is_picture_name(e.name@) {
        Ok(Step::Open(i))
    } else if e.kind == EntryKind::Directory {
        Ok(Step::Enter(i))
    } else {
        Err(WalkError::InvalidFileType)
    }
}

/// `r` is a result that one step at `depth` over `entries` may give, whichever entry was drawn.
pub open spec fn step_outcome(depth: u32, entries: Seq<Entry>, r: Result<Step, WalkError>) -> bool {
    if depth > MAX_WALK_DEPTH {
        r == Err::<Step, WalkError>(WalkError::TooDeep)
    } else if entries.len() == 0 {
        r == Err::<Step, WalkError>(WalkError::EmptyDirectory)
    } else {
        exists|i: usize| 0 <= i < entries.len() && r == outcome(entries[i as int], i)
    }
}

/// Relies on rand's `IteratorRandom::choose` over `0..n` with the thread-local
/// generator: `None` exactly when `n` is zero, otherwise an index below `n`.
#[verifier::external_body]
fn choose_index(n: usize) -> (r: Option<usize>)
    ensures
        r is None <==> n == 0,
        r matches Some(i) ==> i < n,
{
    (0..n).choose(&mut rand::thread_rng())
}

/// The name ends in a picture extension.
pub fn is_picture(name: &str) -> (r: bool)
    ensures
        r == is_picture_name(name@),
{
    has_suffix(name, ".png") || has_suffix(name, ".jpg") || has_suffix(name, ".jpeg")
}

/// Where the walk goes after choosing the entry at index `i`.
pub fn step_to(entries: &Vec<Entry>, i: usize) -> (r: Result<Step, WalkError>)
    requires
        i < entries@.len(),
    ensures
        r == outcome(entries@[i as int], i),
{
    let e = &entries[i];
    if e.kind == EntryKind::File && is_picture(e.name.as_str()) {
        Ok(Step::Open(i))
    } else if e.kind == EntryKind::Directory {
        Ok(Step::Enter(i))
    } else {
        Err(WalkError::InvalidFileType)
    }
}

/// One step of the walk in a directory `depth` levels below the starting one:
/// chooses one of `entries` uniformly at random and says where to go next.
pub fn random_step(depth: u32, entries: &Vec<Entry>) -> (r: Result<Step, WalkError>)
    ensures
        step_outcome(depth, entries@, r),
{
    if depth > MAX_WALK_DEPTH {
        return Err(WalkError::TooDeep);
    }
    match choose_index(entries.len()) {
        None => Err(WalkError::EmptyDirectory),
        Some(i) => step_to(entries, i),
    }
}

/// In a directory that holds only the files `a.png` and `b.txt`, in either order, a
/// step never enters anything, and a picture it opens is `a.png`; the step fails
/// only where `b.txt` was drawn, as not a picture.
pub proof fn lemma_only_picture_is_opened(depth: u32, entries: Seq<Entry>, r: Result<Step, WalkError>)
    requires
        depth <= MAX_WALK_DEPTH,
        entries.len() == 2,
        entries[0].kind == EntryKind::File,
        entries[1].kind == EntryKind::File,
        (entries[0].name@ == "a.png"@ && entries[1].name@ == "b.txt"@) || (entries[0].name@
            == "b.txt"@ && entries[1].name@ == "a.png"@),
        step_outcome(depth, entries, r),
    ensures
        r matches Ok(step) ==> step matches Step::Open(i) && entries[i as int].name@ == "a.png"@,
        r is Ok || r == Err::<Step, WalkError>(WalkError::InvalidFileType),
{
    reveal_strlit("a.png");
    reveal_strlit("b.txt");
    reveal_strlit(".png");
    reveal_strlit(".jpg");
    reveal_strlit(".jpeg");
    assert(is_picture_name("a.png"@)) by {
        assert("a.png"@.subrange(1, 5) =~= ".png"@);
    }
    assert(!is_picture_name("b.txt"@)) by {
        assert("b.txt"@.subrange(1, 5)[1] != ".png"@[1]);
        assert("b.txt"@.subrange(1, 5)[1] != ".jpg"@[1]);
        assert("b.txt"@.subrange(0, 5)[1] != ".jpeg"@[1]);
    }
}

/// A step in an empty directory fails as such, and the frame drawn without a picture
/// keeps every pixel it had.
pub proof fn lemma_empty_directory(
    depth: u32,
    entries: Seq<Entry>,
    r: Result<Step, WalkError>,
    paper: Paper,
    w: int,
    h: int,
    px: Seq<u32>,
)
    requires
        depth <= MAX_WALK_DEPTH,
        entries.len() == 0,
        step_outcome(depth, entries, r),
        paper.style is Directory,
        paper.border is None,
    ensures
        r == Err::<Step, WalkError>(WalkError::EmptyDirectory),
        drawn(paper, w, h, px, None::<Image>) == px,
{
}

} // verus!
