//! The per-buffer decision that drives the file pipeline, and the fold of
//! per-path outcomes into the process exit status. Reading and rewriting
//! files is the caller's business; everything decided about their bytes is
//! decided here.

use vstd::prelude::*;

use crate::endings::convert_line_endings;
use crate::endings::convert_spec;
use crate::endings::is_binary;
use crate::endings::is_binary_spec;
use crate::endings::needs_conversion;
use crate::endings::needs_conversion_spec;

verus! {

/// What should happen to one file's content.
pub enum Decision {
    /// The buffer looks binary; leave the file untouched.
    SkipBinary,
    /// Every line feed already follows a carriage return; nothing to write.
    SkipAlreadyConverted,
    /// The buffer holds bare line feeds; write this converted content back.
    Convert(Vec<u8>),
}

/// Decides what to do with one file's content, in the pipeline's order:
/// binary buffers are skipped first, then buffers with no bare line feed;
/// only the rest are converted.
pub fn decide(content: &[u8]) -> (d: Decision)
    ensures
        match d {
            Decision::SkipBinary => is_binary_spec(content@),
            Decision::SkipAlreadyConverted => !is_binary_spec(content@)
                && !needs_conversion_spec(content@),
            Decision::Convert(converted) => !is_binary_spec(content@)
                && needs_conversion_spec(content@)
                && converted@ == convert_spec(content@),
        },
{
    if is_binary(content) {
        Decision::SkipBinary
    } else if !needs_conversion(content) {
        Decision::SkipAlreadyConverted
    } else {
        Decision::Convert(convert_line_endings(content))
    }
}

/// The reported outcome of processing one path.
pub enum Outcome {
    /// The file held bare line feeds and was rewritten.
    Converted,
    /// The file looked binary and was left untouched.
    SkippedBinary,
    /// The file already used carriage-return/line-feed endings.
    SkippedAlreadyConverted,
    /// The path named no existing file.
    SkippedMissing,
    /// Reading or writing the file failed; the field holds the error's text.
    Failed(String),
}

/// An outcome that does not mark the whole run as failed.
pub open spec fn is_success(o: Outcome) -> bool {
    match o {
        Outcome::Converted => true,
        Outcome::SkippedBinary => true,
        Outcome::SkippedAlreadyConverted => true,
        Outcome::SkippedMissing => false,
        Outcome::Failed(_) => false,
    }
}

/// Every outcome of the run succeeded.
pub open spec fn all_succeeded(outcomes: Seq<Outcome>) -> bool {
    forall|i: int| 0 <= i < outcomes.len() ==> is_success(#[trigger] outcomes[i])
}

/// Folds a run's outcomes into the process exit status: 0 when at least one
/// path was supplied and every outcome succeeded, 1 otherwise. An empty run
/// is the zero-argument usage error, which also exits with 1.
pub fn exit_code(outcomes: &Vec<Outcome>) -> (code: i32)
    ensures
        code == if outcomes@.len() > 0 && all_succeeded(outcomes@) {
            0int
        } else {
            1int
        },
{
    if outcomes.len() == 0 {
        return 1;
    }
    let mut i: usize = 0;
    while i < outcomes.len()
        invariant
            i <= outcomes@.len(),
            forall|j: int| 0 <= j < i ==> is_success(#[trigger] outcomes@[j]),
        decreases outcomes@.len() - i,
    {
        let ok = match &outcomes[i] {
            Outcome::Converted => true,
            Outcome::SkippedBinary => true,
            Outcome::SkippedAlreadyConverted => true,
            Outcome::SkippedMissing => false,
            Outcome::Failed(_) => false,
        };
        if !ok {
            assert(!is_success(outcomes@[i as int]));
            return 1;
        }
        i += 1;
    }
    0
}

} // verus!
