//! Running `cargo build` on a checked-out repository: what the build
//! endpoint answers and what a webhook records of a build.

use vstd::prelude::*;
use vstd::string::StringExecFns;
use crate::text::{trim, trim_spec, is_space, law_trim_takes_only_outer_space};

verus! {

broadcast use vstd::string::group_string_axioms;

/// The text of `bytes` with every invalid UTF-8 sequence replaced by
/// U+FFFD, as `String::from_utf8_lossy` gives it.
pub uninterp spec fn lossy_text(bytes: Seq<u8>) -> Seq<char>;

/// `String::from_utf8_lossy`: the text of `bytes`, invalid sequences
/// replaced.
#[verifier::external_body]
fn utf8_lossy(bytes: &[u8]) -> (r: String)
    ensures
        r@ == lossy_text(bytes@),
{
    String::from_utf8_lossy(bytes).into_owned()
}

/// What a run of `cargo build` gave: the bytes it wrote to standard error
/// (where `cargo build` reports), or the message of the error that kept the
/// command from running.
#[derive(Debug)]
pub enum BuildOutcome {
    Ran(Vec<u8>),
    Failed(String),
}

/// The text recorded of a build.
pub open spec fn build_text(outcome: BuildOutcome) -> Seq<char> {
    match outcome {
        BuildOutcome::Ran(err) => trim_spec(lossy_text(err@)),
        BuildOutcome::Failed(e) => "'cargo build' failed! Error: "@ + e@,
    }
}

/// The record of a command that ran is its whole error output with only the
/// white space at both ends taken off, however long it is: a piece of the
/// output, with nothing but white space before and after it, which neither
/// starts nor ends with white space. The record of a command that did not
/// run is the fixed message followed by the whole error text.
pub proof fn law_build_record_is_whole_output(err: Vec<u8>, e: String)
    ensures
        build_text(BuildOutcome::Ran(err)).len() > 0 ==> !is_space(build_text(BuildOutcome::Ran(err))[0])
            && !is_space(build_text(BuildOutcome::Ran(err)).last()),
        exists|a: int| #![trigger lossy_text(err@).subrange(a, a + build_text(BuildOutcome::Ran(err)).len())]
            0 <= a && a + build_text(BuildOutcome::Ran(err)).len() <= lossy_text(err@).len()
            && lossy_text(err@).subrange(a, a + build_text(BuildOutcome::Ran(err)).len())
                == build_text(BuildOutcome::Ran(err))
            && (forall|i: int| 0 <= i < a ==> is_space(#[trigger] lossy_text(err@)[i]))
            && (forall|i: int| a + build_text(BuildOutcome::Ran(err)).len() <= i < lossy_text(err@).len()
                ==> is_space(#[trigger] lossy_text(err@)[i])),
        build_text(BuildOutcome::Failed(e)) == "'cargo build' failed! Error: "@ + e@,
{
    let s = lossy_text(err@);
    law_trim_takes_only_outer_space(s);
    let t = build_text(BuildOutcome::Ran(err));
    assert(t == trim_spec(s));
    let a: int = choose|a: int| #![trigger s.subrange(a, a + trim_spec(s).len())]
        0 <= a && a + trim_spec(s).len() <= s.len()
        && s.subrange(a, a + trim_spec(s).len()) == trim_spec(s)
        && (forall|i: int| 0 <= i < a ==> is_space(#[trigger] s[i]))
        && (forall|i: int| a + trim_spec(s).len() <= i < s.len() ==> is_space(#[trigger] s[i]));
    assert(0 <= a && a + t.len() <= s.len() && s.subrange(a, a + t.len()) == t
        && (forall|i: int| 0 <= i < a ==> is_space(#[trigger] s[i]))
        && (forall|i: int| a + t.len() <= i < s.len() ==> is_space(#[trigger] s[i])));
}

/// The outcome of `cargo build` in one directory, as a webhook records it.
pub struct Build {
    out: String,
}

impl Build {
    /// The text of the build.
    pub closed spec fn text(&self) -> Seq<char> {
        self.out@
    }

    /// The record of a build: the trimmed error output of a command that
    /// ran, or a message saying why it did not run.
    pub fn from_outcome(outcome: &BuildOutcome) -> (r: Build)
        ensures
            r.text() == build_text(*outcome),
    {
        match outcome {
            BuildOutcome::Ran(err) => {
                let text = utf8_lossy(err.as_slice());
                Build { out: trim(text.as_str()) }
            },
            BuildOutcome::Failed(e) => {
                let mut out = "'cargo build' failed! Error: ".to_string();
                out.append(e.as_str());
                Build { out }
            },
        }
    }

    /// The text of the build, as its `Display` prints it.
    pub fn to_string(&self) -> (r: String)
        ensures
            r@ == self.text(),
    {
        self.out.clone()
    }
}

/// The message of a request to the build endpoint whose query could not be
/// decoded, given the decoder's message.
pub fn query_error_message(why: &str) -> (r: String)
    ensures
        r@ == "\nCould not extract HashMap from url...\nError: "@ + why@ + "\n"@,
{
    let mut r = "\nCould not extract HashMap from url...\nError: ".to_string();
    r.append(why);
    r.append("\n");
    r
}

/// The message of a request to the build endpoint without a `path`.
pub fn missing_path_message() -> (r: String)
    ensures
        r@ == "\nProblem unpacking urlencoded HashMap: No value(s) exist for given key!\n"@,
{
    "\nProblem unpacking urlencoded HashMap: No value(s) exist for given key!\n".to_string()
}

/// The directory to build: the first value given for `path`, if any.
pub fn build_target(path_values: Option<&Vec<String>>) -> (r: Option<String>)
    ensures
        match path_values {
            Some(v) => if v@.len() > 0 {
                r == Some(v@[0])
            } else {
                r is None
            },
            None => r is None,
        },
{
    match path_values {
        Some(v) => if v.len() > 0 {
            Some(v[0].clone())
        } else {
            None
        },
        None => None,
    }
}

/// The text of the build endpoint's answer for a build in `path`.
pub open spec fn build_answer_text(path: Seq<char>, outcome: BuildOutcome) -> Seq<char> {
    "\nRunning 'cargo build'...\nTarget Directory: "@ + path + "\n"@ + match outcome {
        BuildOutcome::Ran(err) => "\nSuccess! output: "@ + lossy_text(err@),
        BuildOutcome::Failed(e) => "\n'cargo build' failed! Reason: "@ + e@,
    }
}

/// The build endpoint's answer for a build in `path`: where it ran, then
/// the command's error output untrimmed, or why it did not run.
pub fn build_answer(path: &str, outcome: &BuildOutcome) -> (r: String)
    ensures
        r@ == build_answer_text(path@, *outcome),
{
    let mut r = "\nRunning 'cargo build'...\nTarget Directory: ".to_string();
    r.append(path);
    r.append("\n");
    match outcome {
        BuildOutcome::Ran(err) => {
            r.append("\nSuccess! output: ");
            let text = utf8_lossy(err.as_slice());
            r.append(text.as_str());
        },
        BuildOutcome::Failed(e) => {
            r.append("\n'cargo build' failed! Reason: ");
            r.append(e.as_str());
        },
    }
    r
}

/// Why a build could not start.
#[derive(Debug)]
pub enum BuildError {
    IO(std::io::Error),
    NotFound,
}

/// `Debug` of `std::io::Error`, through `format!`. Nothing is stated of the
/// text, which for errors of the system comes from the system.
#[verifier::external_body]
fn io_error_debug(e: &std::io::Error) -> String {
    format!("{:?}", e)
}

impl BuildError {
    /// A short description of the kind of error.
    pub fn description(&self) -> (r: String)
        ensures
            r@ == (match self {
                BuildError::IO(_) => "I/O Error!"@,
                BuildError::NotFound => "Location error!"@,
            }),
    {
        match self {
            BuildError::IO(_) => "I/O Error!".to_string(),
            BuildError::NotFound => "Location error!".to_string(),
        }
    }

    /// The message shown to a user: the I/O error in its `Debug` form, or
    /// `No src or directory to build from!`.
    pub fn to_string(&self) -> (r: String)
        ensures
            self is NotFound ==> r@ == "No src or directory to build from!"@,
    {
        match self {
            BuildError::IO(e) => io_error_debug(e),
            BuildError::NotFound => "No src or directory to build from!".to_string(),
        }
    }
}

} // verus!
