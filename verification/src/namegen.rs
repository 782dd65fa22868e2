//! Collision-free artifact filenames.
//!
//! A name is a random token followed by `.html`. A candidate that matches a
//! name already present in the output directory is re-drawn; after a bounded
//! number of draws a deterministic fallback picks a name strictly longer than
//! every existing one, so the function always returns a fresh name.

use vstd::prelude::*;
use vstd::string::{StrSliceExecFns, StringExecFns};

verus! {

/// Relies on nanoid::format with the default generator and the url-safe
/// 64-symbol alphabet: it returns a string of exactly `len` of those
/// one-byte symbols. It loops forever on `len == 0`, which the
/// precondition excludes.
#[verifier::external_body]
fn random_token(len: usize) -> (r: String)
    requires
        len >= 1,
    ensures
        r@.len() == len as int,
{
    nanoid::format(nanoid::rngs::default, &nanoid::alphabet::SAFE, len)
}

/// A candidate filename: a random token of `tlen` symbols plus `.html`.
fn candidate_name(tlen: usize) -> (r: String)
    requires
        tlen >= 1,
    ensures
        r@.len() == tlen + 5,
{
    let token = random_token(tlen);
    let r = token.concat(".html");
    proof {
        reveal_strlit(".html");
    }
    r
}

/// Whether some name in `existing` reads exactly like `name`.
pub fn contains_name(existing: &Vec<String>, name: &String) -> (b: bool)
    ensures
        b == exists|i: int| 0 <= i < existing@.len() && existing@[i]@ == name@,
{
    let mut i: usize = 0;
    while i < existing.len()
        invariant
            i <= existing@.len(),
            forall|k: int| 0 <= k < i ==> existing@[k]@ != name@,
        decreases existing@.len() - i,
    {
        if existing[i].eq(name) {
            return true;
        }
        i = i + 1;
    }
    false
}

/// An upper bound on the lengths of the names in `existing`.
fn max_name_len(existing: &Vec<String>) -> (m: usize)
    ensures
        forall|i: int| 0 <= i < existing@.len() ==> existing@[i]@.len() <= m as int,
{
    let mut m: usize = 0;
    let mut i: usize = 0;
    while i < existing.len()
        invariant
            i <= existing@.len(),
            forall|k: int| 0 <= k < i ==> existing@[k]@.len() <= m as int,
        decreases existing@.len() - i,
    {
        let l = existing[i].as_str().unicode_len();
        if l > m {
            m = l;
        }
        i = i + 1;
    }
    m
}

/// Produce a filename that collides with no name in `existing`, whatever
/// names it already holds and however many. The name ends in `.html`.
pub fn fresh_name(existing: &Vec<String>) -> (r: String)
    ensures
        forall|i: int| 0 <= i < existing@.len() ==> existing@[i]@ != r@,
        r@.len() >= 15,
{
    let mut tries: usize = 0;
    while tries < 16
        invariant
            tries <= 16,
        decreases 16 - tries,
    {
        let cand = candidate_name(10);
        if !contains_name(existing, &cand) {
            return cand;
        }
        tries = tries + 1;
    }
    let bound = max_name_len(existing);
    let tlen: usize = if bound <= 14 {
        10
    } else {
        bound - 4
    };
    let cand = candidate_name(tlen);
    proof {
        assert forall|i: int| 0 <= i < existing@.len() implies existing@[i]@ != cand@ by {
            assert(existing@[i]@.len() <= bound as int);
            assert(cand@.len() > bound as int);
        }
    }
    cand
}

} // verus!
