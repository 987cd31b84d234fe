//! Reading of errors met while fetching container logs.
use crate::text::{chars_of, contains_chars, contains_seq};
use vstd::prelude::*;

verus! {

/// The error says the container is gone (removed, e.g. started with `--rm`), rather than
/// that fetching failed: it mentions `dead or marked for removal` or `409`.
pub open spec fn removed_container_error(msg: Seq<char>) -> bool {
    contains_seq(msg, "dead or marked for removal"@) || contains_seq(msg, "409"@)
}

/// Whether a log-fetch error means the container was removed.
pub fn is_removed_container_error(msg: &str) -> (r: bool)
    ensures
        r == removed_container_error(msg@),
{
    let cs = chars_of(msg);
    let gone = chars_of("dead or marked for removal");
    if contains_chars(cs.as_slice(), gone.as_slice()) {
        return true;
    }
    let conflict = chars_of("409");
    contains_chars(cs.as_slice(), conflict.as_slice())
}

} // verus!
