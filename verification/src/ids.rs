//! Container identifiers: `<prefix>-<random 128-bit id>`.

use vstd::prelude::*;

use crate::chars::{push_str_chars, string_from_chars};

verus! {

/// Relies on `uuid::Uuid::new_v4` and its `Display` impl: a fresh random
/// identifier always formats as 36 hyphenated lowercase-hex characters.
/// Nothing is assumed about which characters come back beyond their count.
#[verifier::external_body]
fn random_uuid_chars() -> (r: Vec<char>)
    ensures
        r@.len() == 36,
{
    uuid::Uuid::new_v4().to_string().chars().collect()
}

/// A fresh container identifier: the given prefix, a hyphen, and a random
/// 128-bit identifier.
pub fn fresh_container_id(prefix: &str) -> (r: String)
    ensures
        r@.len() == prefix@.len() + 37,
        r@.subrange(0, prefix@.len() as int) == prefix@,
        r@[prefix@.len() as int] == '-',
{
    let mut out: Vec<char> = Vec::new();
    push_str_chars(&mut out, prefix);
    out.push('-');
    let tail = random_uuid_chars();
    let mut k: usize = 0;
    while k < tail.len()
        invariant
            k <= tail@.len(),
            tail@.len() == 36,
            out@ == prefix@ + seq!['-'] + tail@.subrange(0, k as int),
        decreases tail@.len() - k,
    {
        out.push(tail[k]);
        k = k + 1;
        proof {
            assert(out@ =~= prefix@ + seq!['-'] + tail@.subrange(0, k as int));
        }
    }
    proof {
        assert(tail@.subrange(0, 36) =~= tail@);
        assert(out@.subrange(0, prefix@.len() as int) =~= prefix@);
    }
    string_from_chars(&out)
}

} // verus!
