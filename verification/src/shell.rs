//! The report of a command that was run on a caller's behalf.

use crate::text::{decode_lossy, lossy_text};
use vstd::prelude::*;
use vstd::utf8::{decode_utf8, valid_utf8};

verus! {

/// What became of a command.
#[derive(Debug)]
pub enum Outcome {
    /// It ran to its end, with or without success, and wrote this.
    Finished { success: bool, stdout: Vec<u8>, stderr: Vec<u8> },
    /// It could not be started, for this reason.
    NotStarted(String),
}

/// What the caller is told: the output of a command that succeeded, or the
/// error of one that did not.
#[derive(Debug)]
pub struct VMResponse {
    pub output: String,
    pub error: Option<String>,
}

/// A report as sequences.
pub struct VMResponseView {
    pub output: Seq<char>,
    pub error: Option<Seq<char>>,
}

impl View for VMResponse {
    type V = VMResponseView;

    open spec fn view(&self) -> VMResponseView {
        VMResponseView {
            output: self.output@,
            error: match self.error {
                Some(e) => Some(e@),
                None => None,
            },
        }
    }
}

/// The report of a command that succeeded and wrote `output`.
pub open spec fn succeeded(output: Seq<char>) -> VMResponseView {
    VMResponseView { output, error: None }
}

/// The report of a command that failed with `error`.
pub open spec fn failed(error: Seq<char>) -> VMResponseView {
    VMResponseView { output: Seq::empty(), error: Some(error) }
}

impl VMResponse {
    /// The report of a command that succeeded and wrote `output`.
    pub fn succeeded(output: String) -> (r: VMResponse)
        ensures
            r@ == succeeded(output@),
    {
        VMResponse { output, error: None }
    }

    /// The report of a command that failed with `error`.
    pub fn failed(error: String) -> (r: VMResponse)
        ensures
            r@ == failed(error@),
    {
        VMResponse { output: String::new(), error: Some(error) }
    }

    /// The report of a command: what it wrote to its output where it succeeded,
    /// what it wrote to its error stream where it did not, either of them
    /// decoded as text with malformed sequences replaced; the reason where it
    /// could not be started.
    pub fn report(outcome: Outcome) -> (r: VMResponse)
        ensures
            r@ == match outcome {
                Outcome::Finished { success, stdout, stderr } => if success {
                    succeeded(lossy_text(stdout@))
                } else {
                    failed(lossy_text(stderr@))
                },
                Outcome::NotStarted(reason) => failed(reason@),
            },
            outcome matches Outcome::Finished { success, stdout, stderr } ==> (success
                && valid_utf8(stdout@) ==> r@ == succeeded(decode_utf8(stdout@))) && (!success
                && valid_utf8(stderr@) ==> r@ == failed(decode_utf8(stderr@))),
    {
        match outcome {
            Outcome::Finished { success, stdout, stderr } => {
                if success {
                    VMResponse::succeeded(decode_lossy(stdout.as_slice()))
                } else {
                    VMResponse::failed(decode_lossy(stderr.as_slice()))
                }
            },
            Outcome::NotStarted(reason) => VMResponse::failed(reason),
        }
    }
}

} // verus!
