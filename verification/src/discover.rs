//! Discovery of programs: the bookkeeping of a walk over directories. The
//! caller lists directories and reads files; what to do with each thing found
//! is decided here.

use vstd::prelude::*;
use crate::entry::{outcome_of_bytes, parse_program, EntryError};
use crate::program::{ProgramModel, ProgramResult};
use crate::text::chars_of;

verus! {

/// Whether a file name marks an entry file: it ends in `.desktop`, and
/// something stands before that.
pub open spec fn has_entry_extension(name: Seq<char>) -> bool {
    name.len() > 8 && name.subrange(name.len() - 8, name.len() as int) == ".desktop"@
}

/// Tells whether a file name, without its directory, marks an entry file.
pub fn is_entry_file_name(name: &str) -> (b: bool)
    ensures
        b == has_entry_extension(name@),
{
    let c = chars_of(name);
    let n: usize = c.len();
    proof {
        reveal_strlit(".desktop");
    }
    if n <= 8 {
        return false;
    }
    let ghost tail = name@.subrange(n - 8, n as int);
    let b = c[n - 8] == '.' && c[n - 7] == 'd' && c[n - 6] == 'e' && c[n - 5] == 's' && c[n - 4]
        == 'k' && c[n - 3] == 't' && c[n - 2] == 'o' && c[n - 1] == 'p';
    proof {
        assert(tail.len() == 8);
        assert(tail[0] == c@[n - 8] && tail[1] == c@[n - 7] && tail[2] == c@[n - 6] && tail[3]
            == c@[n - 5] && tail[4] == c@[n - 4] && tail[5] == c@[n - 3] && tail[6] == c@[n - 2]
            && tail[7] == c@[n - 1]);
        if b {
            assert(tail =~= ".desktop"@);
        }
    }
    b
}

/// What to do with a child of a directory.
#[derive(Debug, Clone, Copy, PartialEq, Eq, Structural)]
pub enum Visit {
    /// It is a directory: walk it too.
    Descend,
    /// It is an entry file: read it.
    Read,
    /// It is neither: pass over it.
    Skip,
}

/// What a walk does with a child of the given file name.
pub open spec fn visit_of(name: Seq<char>, is_dir: bool) -> Visit {
    if is_dir {
        Visit::Descend
    } else if has_entry_extension(name) {
        Visit::Read
    } else {
        Visit::Skip
    }
}

/// Every directory is walked, whatever its name, and of the other children
/// exactly the entry files are read.
pub proof fn lemma_visit_of(name: Seq<char>)
    ensures
        visit_of(name, true) == Visit::Descend,
        visit_of(name, false) == Visit::Read <==> has_entry_extension(name),
        visit_of(name, false) != Visit::Descend,
{
}

/// Decides what to do with a child of a directory, from its file name and
/// from whether it is a directory.
pub fn classify(name: &str, is_dir: bool) -> (v: Visit)
    ensures
        v == visit_of(name@, is_dir),
{
    if is_dir {
        Visit::Descend
    } else if is_entry_file_name(name) {
        Visit::Read
    } else {
        Visit::Skip
    }
}

/// The models of a list of program records, in order.
pub open spec fn program_models(v: Seq<ProgramResult>) -> Seq<ProgramModel> {
    Seq::new(v.len(), |i: int| v[i]@)
}

/// A walk in progress: the directories still to be listed, in whatever form
/// the caller names them, and the programs found so far.
pub struct Scan<P> {
    pending: Vec<P>,
    found: Vec<ProgramResult>,
}

impl<P> Scan<P> {
    /// The directories still to be listed; the last is listed next.
    pub closed spec fn pending(&self) -> Seq<P> {
        self.pending@
    }

    /// The programs found so far.
    pub closed spec fn found(&self) -> Seq<ProgramModel> {
        program_models(self.found@)
    }

    /// Starts a walk at the given directories, with nothing found.
    pub fn new(roots: Vec<P>) -> (s: Scan<P>)
        ensures
            s.pending() == roots@,
            s.found().len() == 0,
    {
        Scan { pending: roots, found: Vec::new() }
    }

    /// Whether no directory is left to be listed.
    pub fn is_finished(&self) -> (b: bool)
        ensures
            b == (self.pending().len() == 0),
    {
        self.pending.len() == 0
    }

    /// Hands out the directory to be listed next, and takes it off the walk.
    pub fn next_directory(&mut self) -> (r: Option<P>)
        ensures
            final(self).found() == old(self).found(),
            match r {
                Some(dir) => {
                    &&& old(self).pending().len() > 0
                    &&& dir == old(self).pending().last()
                    &&& final(self).pending() == old(self).pending().drop_last()
                },
                None => old(self).pending().len() == 0 && final(self).pending() == old(
                    self,
                ).pending(),
            },
    {
        self.pending.pop()
    }

    /// Adds a directory to those still to be listed.
    pub fn add_directory(&mut self, path: P)
        ensures
            final(self).found() == old(self).found(),
            final(self).pending() == old(self).pending().push(path),
    {
        self.pending.push(path);
    }

    /// Takes in the bytes of an entry file. Where they make a program record
    /// it joins those found, and `Ok(true)` is returned; where they make none,
    /// nothing changes, and the result says whether that is an error, and
    /// which.
    pub fn add_entry(&mut self, bytes: Vec<u8>) -> (r: Result<bool, EntryError>)
        ensures
            final(self).pending() == old(self).pending(),
            match outcome_of_bytes(bytes@) {
                Ok(Some(p)) => r == Ok::<bool, EntryError>(true) && final(self).found() == old(
                    self,
                ).found().push(p),
                Ok(None) => r == Ok::<bool, EntryError>(false) && final(self).found() == old(
                    self,
                ).found(),
                Err(e) => r == Err::<bool, EntryError>(e) && final(self).found() == old(
                    self,
                ).found(),
            },
    {
        match parse_program(bytes) {
            Ok(Some(p)) => {
                self.found.push(p);
                assert(program_models(self.found@) == program_models(old(self).found@).push(p@));
                Ok(true)
            },
            Ok(None) => Ok(false),
            Err(e) => Err(e),
        }
    }

    /// Ends the walk and hands out the programs found, in the order in which
    /// they were found.
    pub fn into_results(self) -> (v: Vec<ProgramResult>)
        ensures
            program_models(v@) == self.found(),
    {
        self.found
    }
}

/// The records that the files at and after index `i` make, in order; a
/// file that makes none, for whatever reason, adds nothing.
pub open spec fn found_from(files: Seq<Seq<u8>>, i: int) -> Seq<ProgramModel>
    decreases files.len() - i,
{
    if i < 0 || i >= files.len() {
        Seq::<ProgramModel>::empty()
    } else {
        match outcome_of_bytes(files[i]) {
            Ok(Some(p)) => seq![p] + found_from(files, i + 1),
            _ => found_from(files, i + 1),
        }
    }
}

/// The errors of the files at and after index `i`, in order, each with the
/// index of its file.
pub open spec fn errors_from(files: Seq<Seq<u8>>, i: int) -> Seq<(usize, EntryError)>
    decreases files.len() - i,
{
    if i < 0 || i >= files.len() {
        Seq::<(usize, EntryError)>::empty()
    } else {
        match outcome_of_bytes(files[i]) {
            Err(e) => seq![(i as usize, e)] + errors_from(files, i + 1),
            _ => errors_from(files, i + 1),
        }
    }
}

/// The byte sequences held by a list of byte vectors.
pub open spec fn contents(files: Seq<Vec<u8>>) -> Seq<Seq<u8>> {
    Seq::new(files.len(), |i: int| files[i]@)
}

/// What a set of entry files gives: the records made, and for each file
/// that is in error its index among the files and the error.
#[derive(Debug)]
pub struct Discovered {
    pub programs: Vec<ProgramResult>,
    pub errors: Vec<(usize, EntryError)>,
}

impl ProgramResult {
    /// Makes the records of all the entry files whose bytes are given. A file
    /// that is hidden or without a launch command is passed over. A file that
    /// is malformed, or lists an action without a launch command, makes no
    /// record and is reported with its index and its error. No file affects
    /// what another gives.
    pub fn find_all(files: Vec<Vec<u8>>) -> (d: Discovered)
        ensures
            program_models(d.programs@) == found_from(contents(files@), 0),
            d.errors@ == errors_from(contents(files@), 0),
    {
        let ghost all = contents(files@);
        let mut files = files;
        let mut programs: Vec<ProgramResult> = Vec::new();
        let mut errors: Vec<(usize, EntryError)> = Vec::new();
        let mut i: usize = 0;
        while i < files.len()
            invariant
                i <= files@.len(),
                files@.len() == all.len(),
                forall|j: int| i <= j < files@.len() ==> (#[trigger] files@[j])@ == all[j],
                program_models(programs@) + found_from(all, i as int) == found_from(all, 0),
                errors@ + errors_from(all, i as int) == errors_from(all, 0),
            decreases files@.len() - i,
        {
            let ghost found_before = program_models(programs@);
            let ghost found_rest = found_from(all, i as int);
            let ghost errors_before = errors@;
            let ghost errors_rest = errors_from(all, i as int);
            let mut bytes: Vec<u8> = Vec::new();
            std::mem::swap(&mut bytes, &mut files[i]);
            match parse_program(bytes) {
                Ok(Some(p)) => {
                    programs.push(p);
                    assert(program_models(programs@) == found_before.push(p@));
                },
                Ok(None) => {},
                Err(e) => {
                    errors.push((i, e));
                },
            }
            i += 1;
            assert(program_models(programs@) + found_from(all, i as int) == found_before
                + found_rest);
            assert(errors@ + errors_from(all, i as int) == errors_before + errors_rest);
        }
        assert(program_models(programs@) + Seq::<ProgramModel>::empty() == program_models(
            programs@,
        ));
        assert(errors@ + Seq::<(usize, EntryError)>::empty() == errors@);
        Discovered { programs, errors }
    }
}

/// Every file that makes a record has it among those found.
pub proof fn lemma_record_is_found(files: Seq<Seq<u8>>, i: int, k: int)
    requires
        0 <= i <= k < files.len(),
        outcome_of_bytes(files[k]) matches Ok(Some(_)),
    ensures
        found_from(files, i).contains(outcome_of_bytes(files[k])->Ok_0->0),
    decreases k - i,
{
    let p = outcome_of_bytes(files[k])->Ok_0->0;
    if i < k {
        lemma_record_is_found(files, i + 1, k);
        let tail = found_from(files, i + 1);
        let at = choose|at: int| 0 <= at < tail.len() && tail[at] == p;
        match outcome_of_bytes(files[i]) {
            Ok(Some(q)) => {
                assert((seq![q] + tail)[at + 1] == p);
            },
            _ => {},
        }
    } else {
        assert((seq![p] + found_from(files, k + 1))[0] == p);
    }
}

/// Every file that is in error is reported, with its index and its error.
pub proof fn lemma_error_is_reported(files: Seq<Seq<u8>>, i: int, k: int)
    requires
        0 <= i <= k < files.len(),
        outcome_of_bytes(files[k]) is Err,
    ensures
        errors_from(files, i).contains((k as usize, outcome_of_bytes(files[k])->Err_0)),
    decreases k - i,
{
    let x = (k as usize, outcome_of_bytes(files[k])->Err_0);
    if i < k {
        lemma_error_is_reported(files, i + 1, k);
        let tail = errors_from(files, i + 1);
        let at = choose|at: int| 0 <= at < tail.len() && tail[at] == x;
        match outcome_of_bytes(files[i]) {
            Err(e) => {
                assert((seq![(i as usize, e)] + tail)[at + 1] == x);
            },
            _ => {},
        }
    } else {
        assert((seq![x] + errors_from(files, k + 1))[0] == x);
    }
}

/// No file gives both a record and an error, and none gives more than one
/// of either.
pub proof fn lemma_at_most_one_per_file(files: Seq<Seq<u8>>, i: int)
    requires
        0 <= i <= files.len(),
    ensures
        found_from(files, i).len() + errors_from(files, i).len() <= files.len() - i,
    decreases files.len() - i,
{
    if i < files.len() {
        lemma_at_most_one_per_file(files, i + 1);
    }
}

} // verus!
