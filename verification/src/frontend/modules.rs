//! Finding the source file of a module named by a `use` path, and showing
//! such paths.
//!
//! The search looks, segment by segment, below the folder of the root file:
//! a folder of the segment's name lets it go on to the next segment; else a
//! file `<segment>.jitter` is the module; else it goes on to the next segment
//! all the same. The search itself decides what to look at next; whoever
//! drives it answers whether that folder or file exists.
use vstd::prelude::*;

use crate::text::copy_str;

verus! {

/// `a::b::c` for the segments `a`, `b`, `c`.
pub open spec fn module_text(segments: Seq<Seq<char>>) -> Seq<char>
    decreases segments.len(),
{
    if segments.len() == 0 {
        Seq::empty()
    } else if segments.len() == 1 {
        segments[0]
    } else {
        module_text(segments.drop_last()) + "::"@ + segments.last()
    }
}

/// Converts path segments `["a", "b", "c"]` to `"a::b::c"`.
pub fn display_module(use_path: &Vec<String>) -> (r: String)
    ensures
        r@ == module_text(use_path@.map_values(|s: String| s@)),
{
    let ghost segs = use_path@.map_values(|s: String| s@);
    let mut string = String::new();
    let mut index: usize = 0;
    while index < use_path.len()
        invariant
            index <= use_path@.len(),
            segs == use_path@.map_values(|s: String| s@),
            string@ == module_text(segs.take(index as int)),
        decreases use_path@.len() - index,
    {
        proof {
            assert(segs.take(index + 1).drop_last() =~= segs.take(index as int));
            if index == 0 {
                assert(segs.take(1) =~= seq![segs[0]]);
                assert(string@ =~= Seq::<char>::empty());
            }
        }
        let ghost before = string@;
        if index > 0 {
            string.append("::");
        }
        string.append(use_path[index].as_str());
        proof {
            if index > 0 {
                assert(string@ =~= before + "::"@ + segs[index as int]);
            } else {
                assert(string@ =~= segs[0]);
            }
        }
        index += 1;
    }
    assert(segs.take(index as int) =~= segs);
    string
}

pub open spec fn not_found_message(segments: Seq<Seq<char>>) -> Seq<char> {
    "Could not locate module source: `"@ + module_text(segments) + "`"@
}

/// What the search asks about, or how it ended. A location is the folder
/// of the root file followed by the first `n` segments of the module path.
#[derive(Debug, PartialEq, Eq)]
pub enum SearchStep {
    /// Does the location with `n` segments exist (as a folder)?
    CheckFolder(usize),
    /// Does the location with `n` segments, with the extension `jitter`,
    /// exist (as a file)?
    CheckFile(usize),
    /// The module is the file at the location with `n` segments, with the
    /// extension `jitter`.
    Found(usize),
    /// No segment led to a file.
    NotFound(String),
}

pub enum SearchStepV {
    CheckFolder(nat),
    CheckFile(nat),
    Found(nat),
    NotFound(Seq<char>),
}

impl View for SearchStep {
    type V = SearchStepV;

    open spec fn view(&self) -> SearchStepV {
        match self {
            SearchStep::CheckFolder(n) => SearchStepV::CheckFolder(*n as nat),
            SearchStep::CheckFile(n) => SearchStepV::CheckFile(*n as nat),
            SearchStep::Found(n) => SearchStepV::Found(*n as nat),
            SearchStep::NotFound(m) => SearchStepV::NotFound(m@),
        }
    }
}

/// The search for a module's source file.
pub struct ModuleSearch {
    use_path: Vec<String>,
    /// The number of segments in the location being looked at
    depth: usize,
    /// Whether the file (rather than the folder) is being looked at
    at_file: bool,
    /// Whether the search has ended
    done: bool,
}

/// The step that moves on to segment number `next` (counted from 0), once
/// the earlier segments are settled.
pub open spec fn next_segment(segments: Seq<Seq<char>>, next: nat) -> SearchStepV {
    if next < segments.len() {
        SearchStepV::CheckFolder(next + 1)
    } else {
        SearchStepV::NotFound(not_found_message(segments))
    }
}

/// The step after the answer `exists` to the question `asked`.
pub open spec fn after_answer(segments: Seq<Seq<char>>, asked: SearchStepV, exists: bool) -> SearchStepV {
    match asked {
        SearchStepV::CheckFolder(n) => if exists {
            next_segment(segments, n)
        } else {
            SearchStepV::CheckFile(n)
        },
        SearchStepV::CheckFile(n) => if exists {
            SearchStepV::Found(n)
        } else {
            next_segment(segments, n)
        },
        _ => asked,
    }
}

/// The most answers that a search of a path of `len` segments can still
/// take after the step `step`: every search ends.
pub open spec fn answers_left(len: nat, step: SearchStepV) -> nat {
    match step {
        SearchStepV::CheckFolder(n) => if n <= len { (2 * (len - n) + 2) as nat } else { 0 },
        SearchStepV::CheckFile(n) => if n <= len { (2 * (len - n) + 1) as nat } else { 0 },
        _ => 0,
    }
}

impl ModuleSearch {
    pub closed spec fn segments(&self) -> Seq<Seq<char>> {
        self.use_path@.map_values(|s: String| s@)
    }

    /// The question the search is waiting on an answer to, or how it ended.
    pub closed spec fn pending(&self) -> SearchStepV {
        if self.done {
            if self.at_file {
                SearchStepV::Found(self.depth as nat)
            } else {
                SearchStepV::NotFound(not_found_message(self.segments()))
            }
        } else if self.at_file {
            SearchStepV::CheckFile(self.depth as nat)
        } else {
            SearchStepV::CheckFolder(self.depth as nat)
        }
    }

    pub closed spec fn well_formed(&self) -> bool {
        &&& 0 < self.depth <= self.use_path@.len() || (self.done && !self.at_file)
    }

    /// Starts a search for the module named by `use_path`; gives the
    /// first step.
    pub fn start(use_path: Vec<String>) -> (r: (ModuleSearch, SearchStep))
        ensures
            r.0.well_formed(),
            r.0.segments() == use_path@.map_values(|s: String| s@),
            r.1@ == next_segment(r.0.segments(), 0),
            r.0.pending() == r.1@,
            answers_left(r.0.segments().len(), r.1@) <= 2 * r.0.segments().len(),
    {
        if use_path.len() == 0 {
            let message = not_found(&use_path);
            let search = ModuleSearch { use_path, depth: 0, at_file: false, done: true };
            return (search, SearchStep::NotFound(message));
        }
        let search = ModuleSearch { use_path, depth: 1, at_file: false, done: false };
        (search, SearchStep::CheckFolder(1))
    }

    /// Takes the answer to the pending question; gives the next step.
    pub fn answer(&mut self, exists: bool) -> (r: SearchStep)
        requires
            old(self).well_formed(),
            old(self).pending() is CheckFolder || old(self).pending() is CheckFile,
        ensures
            final(self).well_formed(),
            final(self).segments() == old(self).segments(),
            r@ == after_answer(old(self).segments(), old(self).pending(), exists),
            final(self).pending() == r@,
            answers_left(old(self).segments().len(), r@) < answers_left(
                old(self).segments().len(),
                old(self).pending(),
            ),
    {
        if self.at_file {
            if exists {
                self.done = true;
                return SearchStep::Found(self.depth);
            }
        } else if !exists {
            self.at_file = true;
            return SearchStep::CheckFile(self.depth);
        }
        self.at_file = false;
        if self.depth < self.use_path.len() {
            self.depth = self.depth + 1;
            SearchStep::CheckFolder(self.depth)
        } else {
            self.done = true;
            SearchStep::NotFound(not_found(&self.use_path))
        }
    }
}

fn not_found(use_path: &Vec<String>) -> (r: String)
    ensures
        r@ == not_found_message(use_path@.map_values(|s: String| s@)),
{
    let mut m = copy_str("Could not locate module source: `");
    let shown = display_module(use_path);
    m.append(shown.as_str());
    m.append("`");
    m
}

/// Starts looking for the source file of the module named by the segments
/// of `use_path`, below the folder of the root file; gives the search and
/// its first step.
pub fn locate_module(use_path: Vec<String>) -> (r: (ModuleSearch, SearchStep))
    ensures
        r.0.well_formed(),
        r.0.segments() == use_path@.map_values(|s: String| s@),
        r.1@ == next_segment(r.0.segments(), 0),
        r.0.pending() == r.1@,
        answers_left(r.0.segments().len(), r.1@) <= 2 * r.0.segments().len(),
{
    ModuleSearch::start(use_path)
}

} // verus!
