//! A model of the backing store's set commands: the membership check and
//! the add-if-absent insertion, with the store's numeric reply conventions
//! (0 for not a member / not newly added, non-zero otherwise).
//!
//! The round-trips themselves are I/O performed outside the verified core;
//! this model states their per-command semantics so that the end-to-end
//! properties of the pipeline — what a read reports before and after a
//! write, and what a repeated write reports — can be stated and proved.

use vstd::prelude::*;

verus! {

/// The set's members after adding `key`: add-if-absent.
pub open spec fn spec_add_members(members: Set<Seq<char>>, key: Seq<char>) -> Set<Seq<char>> {
    members.insert(key)
}

/// The store's reply to an insertion: 1 when the key was newly added, 0
/// when it was already present.
pub open spec fn spec_add_outcome(members: Set<Seq<char>>, key: Seq<char>) -> int {
    if members.contains(key) {
        0
    } else {
        1
    }
}

/// The store's reply to a membership check: 1 when the key is a member, 0
/// when it is not.
pub open spec fn spec_member_outcome(members: Set<Seq<char>>, key: Seq<char>) -> int {
    if members.contains(key) {
        1
    } else {
        0
    }
}

/// Adding the same key twice: the first insertion reports it newly added,
/// the second reports it already present, and the second changes nothing.
/// With the success summaries, the first write therefore reports the key
/// added and the second reports it already allowed, both as allowed.
pub proof fn lemma_add_twice(members: Set<Seq<char>>, key: Seq<char>)
    requires
        !members.contains(key),
    ensures
        spec_add_outcome(members, key) == 1,
        spec_add_outcome(spec_add_members(members, key), key) == 0,
        spec_add_members(spec_add_members(members, key), key) == spec_add_members(members, key),
{
    assert(spec_add_members(spec_add_members(members, key), key) =~= spec_add_members(
        members,
        key,
    ));
}

/// Read after write: once a key is added, a membership check reports it a
/// member, so a read-verb request for it reports the key allowed.
pub proof fn lemma_read_after_write(members: Set<Seq<char>>, key: Seq<char>)
    ensures
        spec_member_outcome(spec_add_members(members, key), key) == 1,
{
}

/// Read before write: a key never added is reported not a member, so a
/// read-verb request for it reports the key not allowed.
pub proof fn lemma_read_before_write(members: Set<Seq<char>>, key: Seq<char>)
    requires
        !members.contains(key),
    ensures
        spec_member_outcome(members, key) == 0,
{
}

} // verus!
