//! What to do when a destination is taken: go ahead where nothing is in the
//! way, skip a file of the same size, and find a free name for a different
//! one.
//!
//! The library touches no file. `resolve_conflict` is one step of the
//! decision: it is given what was learned so far and says what to find out
//! next, or how the conflict is resolved. The caller asks the file system
//! and comes back with the answer.

use crate::decimal::{decimal_chars, decimal_text, decimal_value, lemma_decimal_text_value};
use crate::names::{
    extension_of, lemma_last_dot_within, name_extension, name_stem, split_point, stem_of,
};
use crate::paths::{TargetPath, TargetView};
use crate::text::{append_chars, from_chars, to_chars};
use vstd::prelude::*;

verus! {

/// How many names are tried at most: the names tried carry the numbers 1
/// to 1000.
pub const ATTEMPT_CEILING: u32 = 1000;

/// How a conflict is resolved.
#[derive(Debug)]
pub enum ConflictResolution {
    /// Nothing is in the way: the file goes to this path.
    NoConflict(TargetPath),
    /// A file of the same size is there already: the file stays where it
    /// is, for the reason given.
    Skip(String),
    /// A different file is there: the file goes to this free path.
    Rename(TargetPath),
}

/// A `ConflictResolution` as plain text.
pub enum ResolutionView {
    NoConflict(TargetView),
    Skip(Seq<char>),
    Rename(TargetView),
}

impl View for ConflictResolution {
    type V = ResolutionView;

    open spec fn view(&self) -> ResolutionView {
        match self {
            ConflictResolution::NoConflict(path) => ResolutionView::NoConflict(path@),
            ConflictResolution::Skip(reason) => ResolutionView::Skip(reason@),
            ConflictResolution::Rename(path) => ResolutionView::Rename(path@),
        }
    }
}

/// What is known of a conflict so far: the last question and its answer.
#[derive(Debug, Clone, Copy, PartialEq, Eq, Structural)]
pub enum ConflictProgress {
    /// Nothing was asked yet.
    Start,
    /// Whether the destination exists.
    TargetChecked { present: bool },
    /// The sizes in bytes of the source and of the file at the destination.
    SizesRead { source: u64, target: u64 },
    /// Whether the name with the number `attempt` exists.
    CandidateChecked { attempt: u32, present: bool },
}

/// What `resolve_conflict` asks for next, or how the conflict ends.
#[derive(Debug)]
pub enum ConflictStep {
    /// Find out whether the destination exists.
    CheckTarget,
    /// Read the sizes of the source and of the file at the destination.
    ReadSizes,
    /// Find out whether `candidate`, the name with the number `attempt`,
    /// exists.
    CheckCandidate { attempt: u32, candidate: TargetPath },
    /// The conflict is resolved.
    Resolved(ConflictResolution),
    /// Every name up to the ceiling is taken.
    Exhausted,
}

/// A `ConflictStep` as plain text.
pub enum StepView {
    CheckTarget,
    ReadSizes,
    CheckCandidate { attempt: u32, candidate: TargetView },
    Resolved(ResolutionView),
    Exhausted,
}

impl View for ConflictStep {
    type V = StepView;

    open spec fn view(&self) -> StepView {
        match self {
            ConflictStep::CheckTarget => StepView::CheckTarget,
            ConflictStep::ReadSizes => StepView::ReadSizes,
            ConflictStep::CheckCandidate { attempt, candidate } => StepView::CheckCandidate {
                attempt: *attempt,
                candidate: candidate@,
            },
            ConflictStep::Resolved(resolution) => StepView::Resolved(resolution@),
            ConflictStep::Exhausted => StepView::Exhausted,
        }
    }
}

/// `file_name` with `_` and the number `n` behind its stem: `photo.jpg`
/// becomes `photo_1.jpg`, and `notes` becomes `notes_1`.
pub open spec fn numbered_name(file_name: Seq<char>, n: nat) -> Seq<char> {
    let numbered = stem_of(file_name) + seq!['_'] + decimal_text(n);
    match extension_of(file_name) {
        Some(extension) => if extension.len() > 0 {
            numbered + seq!['.'] + extension
        } else {
            numbered
        },
        None => numbered,
    }
}

/// The path beside `target` whose name carries the number `n`.
pub open spec fn candidate(target: TargetView, n: nat) -> TargetView {
    TargetView {
        base_dir: target.base_dir,
        directory: target.directory,
        file_name: numbered_name(target.file_name, n),
    }
}

/// Why a file of `size` bytes is skipped.
pub open spec fn skip_reason(size: u64) -> Seq<char> {
    "File already exists with same size ("@ + decimal_text(size as nat) + " bytes)"@
}

/// The step that follows on what is known so far. A destination that does
/// not exist is no conflict. One that exists is compared by size: equal
/// sizes skip the file. For different sizes the names numbered from 1 are
/// tried in turn, and the first that does not exist is taken; once the
/// name numbered with the ceiling is found taken, the search gives up.
pub open spec fn conflict_step(target: TargetView, progress: ConflictProgress) -> StepView {
    match progress {
        ConflictProgress::Start => StepView::CheckTarget,
        ConflictProgress::TargetChecked { present } => if present {
            StepView::ReadSizes
        } else {
            StepView::Resolved(ResolutionView::NoConflict(target))
        },
        ConflictProgress::SizesRead { source, target: target_size } => if source == target_size {
            StepView::Resolved(ResolutionView::Skip(skip_reason(source)))
        } else {
            StepView::CheckCandidate { attempt: 1, candidate: candidate(target, 1) }
        },
        ConflictProgress::CandidateChecked { attempt, present } => if !present {
            StepView::Resolved(ResolutionView::Rename(candidate(target, attempt as nat)))
        } else if attempt < ATTEMPT_CEILING {
            StepView::CheckCandidate {
                attempt: (attempt + 1) as u32,
                candidate: candidate(target, (attempt + 1) as nat),
            }
        } else {
            StepView::Exhausted
        },
    }
}

/// The path beside `target` whose name carries the number `attempt`, as
/// in `photo_1.jpg` beside `photo.jpg`.
pub fn generate_unique_name(target: &TargetPath, attempt: u32) -> (path: TargetPath)
    ensures
        path@ == candidate(target@, attempt as nat),
{
    let name = to_chars(target.file_name.as_str());
    let mut numbered = name_stem(&name);
    numbered.push('_');
    let number = decimal_chars(attempt as u64);
    append_chars(&mut numbered, &number);
    let ghost plain = stem_of(name@) + seq!['_'] + decimal_text(attempt as nat);
    assert(numbered@ == plain);
    match name_extension(&name) {
        Some(extension) => {
            if extension.len() > 0 {
                numbered.push('.');
                append_chars(&mut numbered, &extension);
                assert(numbered@ == plain + seq!['.'] + extension@);
            }
        },
        None => {},
    }
    TargetPath {
        base_dir: target.base_dir.clone(),
        directory: target.directory.clone(),
        file_name: from_chars(&numbered),
    }
}

/// Computes `skip_reason`.
fn reason_for_skip(size: u64) -> (reason: String)
    ensures
        reason@ == skip_reason(size),
{
    let mut text = to_chars("File already exists with same size (");
    let number = decimal_chars(size);
    append_chars(&mut text, &number);
    let tail = to_chars(" bytes)");
    append_chars(&mut text, &tail);
    from_chars(&text)
}

/// One step of resolving the conflict at `target`: what to find out next,
/// given what is known so far, or how the conflict is resolved.
pub fn resolve_conflict(target: &TargetPath, progress: ConflictProgress) -> (step: ConflictStep)
    ensures
        step@ == conflict_step(target@, progress),
{
    match progress {
        ConflictProgress::Start => ConflictStep::CheckTarget,
        ConflictProgress::TargetChecked { present } => {
            if present {
                ConflictStep::ReadSizes
            } else {
                ConflictStep::Resolved(ConflictResolution::NoConflict(target.duplicate()))
            }
        },
        ConflictProgress::SizesRead { source, target: target_size } => {
            if source == target_size {
                ConflictStep::Resolved(ConflictResolution::Skip(reason_for_skip(source)))
            } else {
                ConflictStep::CheckCandidate {
                    attempt: 1,
                    candidate: generate_unique_name(target, 1),
                }
            }
        },
        ConflictProgress::CandidateChecked { attempt, present } => {
            if !present {
                ConflictStep::Resolved(
                    ConflictResolution::Rename(generate_unique_name(target, attempt)),
                )
            } else if attempt < ATTEMPT_CEILING {
                ConflictStep::CheckCandidate {
                    attempt: attempt + 1,
                    candidate: generate_unique_name(target, attempt + 1),
                }
            } else {
                ConflictStep::Exhausted
            }
        },
    }
}

/// No numbered name is the name itself, and no two numbers give the same
/// name: a file that is renamed never takes the place of the file that was
/// in its way, and each attempt asks about a new path.
pub proof fn law_numbered_names_differ(file_name: Seq<char>, n: nat, m: nat)
    ensures
        numbered_name(file_name, n) != file_name,
        n != m ==> numbered_name(file_name, n) != numbered_name(file_name, m),
{
    let stem = stem_of(file_name);
    let first = decimal_text(n);
    let second = decimal_text(m);
    lemma_decimal_text_value(n);
    lemma_decimal_text_value(m);
    assert(numbered_name(file_name, n).len() > file_name.len()) by {
        lemma_last_dot_within(file_name);
        match split_point(file_name) {
            Some(at) => {
                assert(file_name.take(at).len() == at);
                assert(file_name.skip(at + 1).len() == file_name.len() - at - 1);
            },
            None => {},
        }
    }
    if n != m && numbered_name(file_name, n) == numbered_name(file_name, m) {
        let a = numbered_name(file_name, n);
        let b = numbered_name(file_name, m);
        assert(first.len() == second.len()) by {
            assert(a.len() == b.len());
        }
        let from = stem.len() as int + 1;
        assert(a.subrange(from, from + first.len()) == first);
        assert(b.subrange(from, from + second.len()) == second);
        assert(first == second);
        assert(decimal_value(first) == decimal_value(second));
    }
}

/// How a conflict ends.
pub enum Outcome {
    /// It is resolved.
    Resolved(ResolutionView),
    /// Every name up to the ceiling is taken.
    Exhausted,
    /// The steps allowed were used up before the end.
    Unfinished,
}

/// What the file system is asked and answers, as far as a conflict goes:
/// which paths exist, and the sizes of the source and of the file at the
/// destination.
pub struct Surroundings {
    pub present: spec_fn(TargetView) -> bool,
    pub source_size: u64,
    pub target_size: u64,
}

/// The first number from `attempt` on, up to the ceiling, whose name does
/// not exist.
pub open spec fn first_free(target: TargetView, present: spec_fn(TargetView) -> bool, attempt: nat) -> Option<
    nat,
>
    decreases ATTEMPT_CEILING + 1 - attempt,
{
    if attempt > ATTEMPT_CEILING {
        None
    } else if !present(candidate(target, attempt)) {
        Some(attempt)
    } else {
        first_free(target, present, attempt + 1)
    }
}

/// How the conflict at `target` is to end in given surroundings.
pub open spec fn resolution(target: TargetView, around: Surroundings) -> Outcome {
    if !(around.present)(target) {
        Outcome::Resolved(ResolutionView::NoConflict(target))
    } else if around.source_size == around.target_size {
        Outcome::Resolved(ResolutionView::Skip(skip_reason(around.source_size)))
    } else {
        match first_free(target, around.present, 1) {
            Some(n) => Outcome::Resolved(ResolutionView::Rename(candidate(target, n))),
            None => Outcome::Exhausted,
        }
    }
}

/// How the conflict ends when `resolve_conflict` is called over and over
/// from `progress` on, at most `steps` times, and each question is answered
/// from the surroundings.
pub open spec fn run(target: TargetView, around: Surroundings, progress: ConflictProgress, steps: nat) -> Outcome
    decreases steps,
{
    if steps == 0 {
        Outcome::Unfinished
    } else {
        match conflict_step(target, progress) {
            StepView::CheckTarget => run(
                target,
                around,
                ConflictProgress::TargetChecked { present: (around.present)(target) },
                (steps - 1) as nat,
            ),
            StepView::ReadSizes => run(
                target,
                around,
                ConflictProgress::SizesRead {
                    source: around.source_size,
                    target: around.target_size,
                },
                (steps - 1) as nat,
            ),
            StepView::CheckCandidate { attempt, candidate } => run(
                target,
                around,
                ConflictProgress::CandidateChecked { attempt, present: (around.present)(candidate) },
                (steps - 1) as nat,
            ),
            StepView::Resolved(resolution) => Outcome::Resolved(resolution),
            StepView::Exhausted => Outcome::Exhausted,
        }
    }
}

/// The name that a rename goes to is the first free one: `first_free` finds
/// a number up to the ceiling whose name does not exist, while the name of
/// every number before it, from `attempt` on, does; or it finds nothing,
/// where the names of all numbers from `attempt` to the ceiling exist.
pub proof fn law_first_free_is_least(target: TargetView, present: spec_fn(TargetView) -> bool, attempt: nat)
    ensures
        match first_free(target, present, attempt) {
            Some(n) => attempt <= n <= ATTEMPT_CEILING && !present(candidate(target, n)) && forall|
                k: nat,
            |
                attempt <= k < n ==> present(candidate(target, k)),
            None => forall|k: nat|
                attempt <= k <= ATTEMPT_CEILING ==> present(candidate(target, k)),
        },
    decreases ATTEMPT_CEILING + 1 - attempt,
{
    if attempt <= ATTEMPT_CEILING && present(candidate(target, attempt)) {
        law_first_free_is_least(target, present, attempt + 1);
    }
}

/// The search for a free name, once the name numbered `attempt` is the
/// next to be checked, ends as `first_free` says.
proof fn lemma_search(target: TargetView, around: Surroundings, attempt: u32, steps: nat)
    requires
        1 <= attempt <= ATTEMPT_CEILING,
        steps >= ATTEMPT_CEILING + 1 - attempt,
    ensures
        run(
            target,
            around,
            ConflictProgress::CandidateChecked {
                attempt,
                present: (around.present)(candidate(target, attempt as nat)),
            },
            steps,
        ) == (match first_free(target, around.present, attempt as nat) {
            Some(n) => Outcome::Resolved(ResolutionView::Rename(candidate(target, n))),
            None => Outcome::Exhausted,
        }),
    decreases ATTEMPT_CEILING - attempt,
{
    if (around.present)(candidate(target, attempt as nat)) && attempt < ATTEMPT_CEILING {
        lemma_search(target, around, (attempt + 1) as u32, (steps - 1) as nat);
    } else if (around.present)(candidate(target, attempt as nat)) {
        assert(first_free(target, around.present, (attempt + 1) as nat) == None::<nat>);
    }
}

/// Resolving a conflict step by step, each question answered from the
/// surroundings, ends as `resolution` says: no conflict where the
/// destination is free, a skip for equal sizes, else the first free
/// numbered name, or exhaustion where the names 1 to 1000 are all taken.
/// 1003 steps are enough for that.
pub proof fn law_steps_resolve(target: TargetView, around: Surroundings)
    ensures
        run(target, around, ConflictProgress::Start, 1003) == resolution(target, around),
{
    let checked = ConflictProgress::TargetChecked { present: (around.present)(target) };
    let sized = ConflictProgress::SizesRead {
        source: around.source_size,
        target: around.target_size,
    };
    assert(run(target, around, ConflictProgress::Start, 1003) == run(target, around, checked, 1002));
    if (around.present)(target) {
        assert(run(target, around, checked, 1002) == run(target, around, sized, 1001));
        if around.source_size != around.target_size {
            let first = ConflictProgress::CandidateChecked {
                attempt: 1,
                present: (around.present)(candidate(target, 1)),
            };
            assert(run(target, around, sized, 1001) == run(target, around, first, 1000));
            lemma_search(target, around, 1, 1000);
        }
    }
}

/// A file of the same size as the one in its way is skipped; a file of
/// another size goes to the name numbered `k` where the names numbered 1 to
/// `k - 1` exist and the one numbered `k` does not. So once the name that a
/// conflict was resolved to exists, the same conflict is resolved to the
/// next name.
pub proof fn law_rename_goes_to_first_free(target: TargetView, around: Surroundings, k: nat)
    requires
        (around.present)(target),
        1 <= k <= ATTEMPT_CEILING,
        forall|j: nat| 1 <= j < k ==> (around.present)(candidate(target, j)),
        !(around.present)(candidate(target, k)),
    ensures
        around.source_size == around.target_size ==> resolution(target, around)
            == Outcome::Resolved(ResolutionView::Skip(skip_reason(around.source_size))),
        around.source_size != around.target_size ==> resolution(target, around)
            == Outcome::Resolved(ResolutionView::Rename(candidate(target, k))),
        run(target, around, ConflictProgress::Start, 1003) == resolution(target, around),
{
    law_first_free_is_least(target, around.present, 1);
    law_steps_resolve(target, around);
}

} // verus!
