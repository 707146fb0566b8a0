//! Deterministic percentage rollout: each entity gets a stable bucket in
//! `[0, 100)` per resource, computed from a hash of `"<entity>:<resource>"`.
use vstd::prelude::*;

verus! {

/// The longest tag, in characters, that can be hashed: its UTF-8 encoding
/// stays below 2^32 bytes.
pub const MAX_TAG_LEN: usize = 0x3fff_ffff;

/// The 32-bit MurmurHash3 (x86 variant, seed 0) of the UTF-8 encoding.
pub uninterp spec fn murmur3_32_of(s: Seq<char>) -> u32;

/// Relies on `murmur3::murmur3_32` with seed 0, reading the UTF-8 bytes of
/// `v` from an in-memory cursor. The function fails only when its reader
/// fails, which a cursor over a slice never does; it counts the bytes read
/// in a `u32`, hence the bound on the length.
#[verifier::external_body]
fn hash(v: &str) -> (r: u32)
    requires
        v@.len() <= MAX_TAG_LEN,
    ensures
        r == murmur3_32_of(v@),
{
    match murmur3::murmur3_32(&mut std::io::Cursor::new(v.as_bytes()), 0) {
        Ok(h) => h,
        Err(_) => 0,
    }
}

/// The bucket of a hash value: `floor(h / 2^32 * 100)`.
pub open spec fn bucket_spec(h: u32) -> int {
    (h as int * 100) / 0x1_0000_0000
}

/// Maps a hash value to its bucket in `[0, 100)`.
pub fn bucket_of_hash(h: u32) -> (r: u32)
    ensures
        r == bucket_spec(h),
        r < 100,
{
    let scaled: u64 = (h as u64) * 100;
    assert(scaled / 0x1_0000_0000u64 < 100) by (nonlinear_arith)
        requires
            scaled == h as int * 100,
            h < 0x1_0000_0000,
    ;
    (scaled / 0x1_0000_0000u64) as u32
}

/// The bucket in `[0, 100)` of a tag.
pub fn random_value(v: &str) -> (r: u32)
    requires
        v@.len() <= MAX_TAG_LEN,
    ensures
        r == bucket_spec(murmur3_32_of(v@)),
        r < 100,
{
    bucket_of_hash(hash(v))
}

/// The tag that decides the bucket of an entity for a resource.
pub open spec fn rollout_tag(entity_id: Seq<char>, resource_id: Seq<char>) -> Seq<char> {
    entity_id + seq![':'] + resource_id
}

/// Whether a tag of the two ids can be hashed.
pub open spec fn tag_fits(entity_id: Seq<char>, resource_id: Seq<char>) -> bool {
    entity_id.len() + 1 + resource_id.len() <= MAX_TAG_LEN
}

/// Whether an entity is in the rollout of a resource at a percentage.
pub open spec fn should_include(percentage: u32, entity_id: Seq<char>, resource_id: Seq<char>) -> bool {
    percentage == 100 || bucket_spec(murmur3_32_of(rollout_tag(entity_id, resource_id))) < percentage
}

/// The rollout decision, where it can be made: a full rollout takes every
/// entity in without a hash; otherwise the tag has to be short enough to be
/// hashed.
pub open spec fn rollout_decision(percentage: u32, entity_id: Seq<char>, resource_id: Seq<char>) -> Option<
    bool,
> {
    if percentage == 100 {
        Some(true)
    } else if tag_fits(entity_id, resource_id) {
        Some(should_include(percentage, entity_id, resource_id))
    } else {
        None
    }
}

/// Decides whether an entity is in the rollout of a resource; `None` where
/// the tag of the two ids is too long to be hashed.
pub fn should_rollout(rollout_percentage: u32, entity_id: &str, resource_id: &str) -> (r: Option<bool>)
    ensures
        r == rollout_decision(rollout_percentage, entity_id@, resource_id@),
{
    if rollout_percentage == 100 {
        return Some(true);
    }
    let n = entity_id.unicode_len();
    let m = resource_id.unicode_len();
    if !(n < MAX_TAG_LEN && m <= MAX_TAG_LEN - 1 - n) {
        return None;
    }
    let mut tag = entity_id.to_owned();
    tag.append(":");
    tag.append(resource_id);
    proof {
        reveal_strlit(":");
    }
    assert(tag@ =~= rollout_tag(entity_id@, resource_id@));
    Some(random_value(tag.as_str()) < rollout_percentage)
}

} // verus!
