//! Marking of tutor-marked assignments with the help of a language model that
//! runs in a sandbox, with two promises: no personal data crosses into the
//! sandbox or comes back from it, and every change of state is recorded in an
//! append-only log.
//!
//! The modules of the pipeline are [`tma`] (the submission and its rules),
//! [`security`] (anonymization, detection and removal of personal data),
//! [`events`] (the log), [`ipc`] (the messages exchanged with the sandbox and
//! the decisions around each exchange) and [`feedback`] (the steps of one
//! request). Around them stand utilities: [`text`], [`pattern`], [`crypto`],
//! [`validation`], [`sanitization`], [`time`], [`logging`], [`errors`],
//! [`leakage`] and [`testing`], and the records of the command-line client
//! and of the inference process in [`config`], [`models`], [`output`],
//! [`model`] and [`protocol`].
//!
//! Contracts speak of texts as sequences of characters. Reading and writing
//! files, processes and the network is left to the caller, who hands plain
//! values in and takes plain values back.

use vstd::prelude::*;

pub mod config;
pub mod crypto;
pub mod errors;
pub mod events;
pub mod feedback;
pub mod ipc;
pub mod leakage;
pub mod logging;
pub mod model;
pub mod models;
pub mod output;
pub mod pattern;
pub mod protocol;
pub mod sanitization;
pub mod security;
pub mod testing;
pub mod text;
pub mod time;
pub mod tma;
pub mod validation;

verus! {

/// Name under which the utilities are published.
pub const NAME: &'static str = "academic-shared";

/// Version of the library.
pub const VERSION: &'static str = "0.1.0";

/// The name and the version of the library, as `name vX.Y.Z`.
pub fn library_info() -> (r: String)
    ensures
        r@ == NAME@ + " v"@ + VERSION@,
{
    let mut out: Vec<char> = Vec::new();
    text::push_str(&mut out, NAME);
    text::push_str(&mut out, " v");
    text::push_str(&mut out, VERSION);
    assert(out@ == NAME@ + " v"@ + VERSION@);
    text::from_chars(&out)
}

} // verus!
