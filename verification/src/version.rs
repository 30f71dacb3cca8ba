//! The version token of a file: a fingerprint of its content and of the time
//! at which it was last modified. A token that differs proves a change; equal
//! tokens do not prove that nothing changed.

use core::hash::Hasher;
use std::collections::hash_map::DefaultHasher;
use vstd::prelude::*;
use vstd::bytes::{spec_u64_to_le_bytes, u64_to_le_bytes};
use vstd::std_specs::hash::DefaultHasherAdditionalSpecFns;

verus! {

/// The token of a content and a time of modification: what the default hasher
/// of the standard library makes of the length of the content, the content,
/// and the time, the two numbers as eight bytes each, lowest first.
pub open spec fn version_token(content: Seq<u8>, last_modified: u64) -> u64 {
    DefaultHasher::spec_finish(
        seq![
            spec_u64_to_le_bytes(content.len() as u64),
            content,
            spec_u64_to_le_bytes(last_modified),
        ],
    )
}

/// The version token of the content `bytes`, last modified at `last_modified`.
/// Equal arguments give equal tokens.
pub fn hash_version(bytes: &[u8], last_modified: u64) -> (version: u64)
    ensures
        version == version_token(bytes@, last_modified),
{
    let mut hasher = DefaultHasher::new();
    let length = u64_to_le_bytes(bytes.len() as u64);
    hasher.write(length.as_slice());
    hasher.write(bytes);
    let time = u64_to_le_bytes(last_modified);
    hasher.write(time.as_slice());
    proof {
        assert(hasher@ =~= seq![
            spec_u64_to_le_bytes(bytes@.len() as u64),
            bytes@,
            spec_u64_to_le_bytes(last_modified),
        ]);
    }
    hasher.finish()
}

/// The token is a function of the content and the time: the same content at
/// the same time has the same token, so tokens that differ prove a change.
pub proof fn lemma_token_tells_change(
    content: Seq<u8>,
    last_modified: u64,
    other: Seq<u8>,
    other_modified: u64,
)
    ensures
        content == other && last_modified == other_modified ==> version_token(
            content,
            last_modified,
        ) == version_token(other, other_modified),
        version_token(content, last_modified) != version_token(other, other_modified) ==> content
            != other || last_modified != other_modified,
{
}

/// The time of modification in milliseconds since the epoch, as a file's
/// metadata give it: the low 64 bits of the count, and 0 where the file system
/// gives no time or one before the epoch.
pub open spec fn epoch_ms(since_epoch_ms: Option<u128>) -> u64 {
    match since_epoch_ms {
        Some(ms) => (ms % 0x1_0000_0000_0000_0000) as u64,
        None => 0,
    }
}

/// The time of modification in milliseconds since the epoch.
pub fn last_modified_epoch_ms(since_epoch_ms: Option<u128>) -> (ms: u64)
    ensures
        ms == epoch_ms(since_epoch_ms),
{
    match since_epoch_ms {
        Some(ms) => (ms % 0x1_0000_0000_0000_0000) as u64,
        None => 0,
    }
}

} // verus!
