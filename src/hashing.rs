//! Key hashing and shard routing.
use vstd::prelude::*;

verus! {

/// The hash that `std`'s `DefaultHasher` gives a key, as a function of the
/// key's characters.
pub uninterp spec fn key_hash(key: Seq<char>) -> u64;

/// Relies on `BuildHasher::hash_one` over `BuildHasherDefault<DefaultHasher>`:
/// every `DefaultHasher` built by `default` starts from the same state, so the
/// hash of a string depends on its characters alone.
#[verifier::external_body]
fn default_hash(key: &str) -> (r: u64)
    ensures
        r == key_hash(key@),
{
    let builder = std::hash::BuildHasherDefault::<std::collections::hash_map::DefaultHasher>::default();
    std::hash::BuildHasher::hash_one(&builder, key)
}

/// The shard that `key` belongs to among `shard_count` shards.
pub open spec fn route_of(key: Seq<char>, shard_count: nat) -> nat
    recommends
        shard_count >= 1,
{
    (key_hash(key) as nat) % shard_count
}

/// Hashes a key with `std`'s default hasher.
pub fn calculate_hash(key: &str) -> (r: u64)
    ensures
        r == key_hash(key@),
{
    default_hash(key)
}

/// Index of the shard that holds `key`: its hash modulo the shard count.
pub fn shard_index(key: &str, shard_count: usize) -> (r: usize)
    requires
        shard_count >= 1,
    ensures
        r as nat == route_of(key@, shard_count as nat),
        r < shard_count,
{
    let h = calculate_hash(key);
    (h % (shard_count as u64)) as usize
}

} // verus!
