use vstd::prelude::*;

use crate::bob::{ElixirBuild, ErlangBuild};
use crate::error::Error;
use crate::text::{contains_seq, str_contains};

verus! {

/// Pick the first listed Elixir build whose version label contains the
/// requested string as a substring, in manifest order. This deliberately
/// preserves substring matching: a requested "1.17.1" also matches a label
/// like "v1.17.10", and the manifest's own ordering decides which build wins
/// when several labels match.
pub fn resolve_elixir(builds: &Vec<ElixirBuild>, requested: &str) -> (r: Result<usize, Error>)
    ensures
        match r {
            Ok(i) => {
                &&& 0 <= i < builds@.len()
                &&& contains_seq(builds@[i as int]@.version, requested@)
                &&& forall|j: int|
                    0 <= j < i ==> !contains_seq(#[trigger] builds@[j]@.version, requested@)
            },
            Err(e) => {
                &&& e == Error::VersionNotFound
                &&& forall|j: int|
                    0 <= j < builds@.len() ==> !contains_seq(
                        #[trigger] builds@[j]@.version,
                        requested@,
                    )
            },
        },
{
    let mut i: usize = 0;
    while i < builds.len()
        invariant
            i <= builds@.len(),
            forall|j: int| 0 <= j < i ==> !contains_seq(#[trigger] builds@[j]@.version, requested@),
        decreases builds@.len() - i,
    {
        if str_contains(builds[i].version.as_str(), requested) {
            return Ok(i);
        }
        i = i + 1;
    }
    Err(Error::VersionNotFound)
}

/// Pick the first listed Erlang/OTP build whose version label contains the
/// requested string as a substring, in manifest order. The same substring
/// policy as for Elixir builds applies.
pub fn resolve_erlang(builds: &Vec<ErlangBuild>, requested: &str) -> (r: Result<usize, Error>)
    ensures
        match r {
            Ok(i) => {
                &&& 0 <= i < builds@.len()
                &&& contains_seq(builds@[i as int]@.version, requested@)
                &&& forall|j: int|
                    0 <= j < i ==> !contains_seq(#[trigger] builds@[j]@.version, requested@)
            },
            Err(e) => {
                &&& e == Error::VersionNotFound
                &&& forall|j: int|
                    0 <= j < builds@.len() ==> !contains_seq(
                        #[trigger] builds@[j]@.version,
                        requested@,
                    )
            },
        },
{
    let mut i: usize = 0;
    while i < builds.len()
        invariant
            i <= builds@.len(),
            forall|j: int| 0 <= j < i ==> !contains_seq(#[trigger] builds@[j]@.version, requested@),
        decreases builds@.len() - i,
    {
        if str_contains(builds[i].version.as_str(), requested) {
            return Ok(i);
        }
        i = i + 1;
    }
    Err(Error::VersionNotFound)
}

} // verus!
