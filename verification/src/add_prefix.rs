//! The namespacing capability: every record type and every container shape
//! that holds identifiers can rewrite them by prepending a caller-chosen
//! prefix, so that independently produced datasets can be merged without
//! identifier collisions.

use vstd::prelude::*;

verus! {

use crate::collection::lemma_prepend_injective;
use crate::strings::concat_str;

/// Capability of a value whose identifiers can be re-namespaced.
pub trait AddPrefix: Sized {
    /// What it means for `self` to be `pre` with every identifier it owns,
    /// and every identifier it holds by reference, rewritten by prepending
    /// `prefix`. Each implementor pins every one of its fields here.
    spec fn prefixed_from(self, pre: Self, prefix: Seq<char>) -> bool;

    /// Add the prefix to all elements of the object that need to be prefixed.
    fn add_prefix(&mut self, prefix: &str)
        ensures
            final(self).prefixed_from(*old(self), prefix@),
    ;

    /// Add the prefix to all elements of the object that need to be prefixed,
    /// with a separator placed between the prefix and the identifier.
    fn add_prefix_with_sep(&mut self, prefix: &str, sep: &str)
        ensures
            final(self).prefixed_from(*old(self), prefix@ + sep@),
    {
        let full = concat_str(prefix, sep);
        self.add_prefix(full.as_str());
    }
}

/// What it means for `post` to be the auxiliary map `pre`, keyed by
/// `(trip identifier, sequence number)`, with every key's identifier
/// component prefixed and everything else copied verbatim.
pub open spec fn vj_keys_prefixed(
    post: Seq<((String, u32), String)>,
    pre: Seq<((String, u32), String)>,
    prefix: Seq<char>,
) -> bool {
    &&& post.len() == pre.len()
    &&& forall|i: int| 0 <= i < pre.len() ==> {
        &&& (#[trigger] post[i]).0.0@ == prefix + pre[i].0.0@
        &&& post[i].0.1 == pre[i].0.1
        &&& post[i].1 == pre[i].1
    }
}

/// What it means for `post` to be `pre` with every key's identifier component
/// and every value prefixed, and every sequence number copied verbatim.
pub open spec fn vj_keys_and_values_prefixed(
    post: Seq<((String, u32), String)>,
    pre: Seq<((String, u32), String)>,
    prefix: Seq<char>,
) -> bool {
    &&& post.len() == pre.len()
    &&& forall|i: int| 0 <= i < pre.len() ==> {
        &&& (#[trigger] post[i]).0.0@ == prefix + pre[i].0.0@
        &&& post[i].0.1 == pre[i].0.1
        &&& post[i].1@ == prefix + pre[i].1@
    }
}

/// Rewrites the trip identifier inside each composite key, leaving the
/// sequence number and the associated value untouched. Used when the value
/// belongs to a different namespace, such as a display label.
pub fn add_prefix_on_vehicle_journey_ids(
    vehicle_journey_ids: &Vec<((String, u32), String)>,
    prefix: &str,
) -> (r: Vec<((String, u32), String)>)
    ensures
        vj_keys_prefixed(r@, vehicle_journey_ids@, prefix@),
{
    let mut out: Vec<((String, u32), String)> = Vec::new();
    let mut i: usize = 0;
    while i < vehicle_journey_ids.len()
        invariant
            i <= vehicle_journey_ids@.len(),
            out@.len() == i,
            forall|j: int| 0 <= j < i ==> {
                &&& (#[trigger] out@[j]).0.0@ == prefix@ + vehicle_journey_ids@[j].0.0@
                &&& out@[j].0.1 == vehicle_journey_ids@[j].0.1
                &&& out@[j].1 == vehicle_journey_ids@[j].1
            },
        decreases vehicle_journey_ids@.len() - i,
    {
        let entry = &vehicle_journey_ids[i];
        let trip_id = concat_str(prefix, entry.0.0.as_str());
        out.push(((trip_id, entry.0.1), entry.1.clone()));
        i += 1;
    }
    out
}

/// Rewrites both the trip identifier inside each composite key and the
/// associated value, leaving the sequence number untouched. Used when the
/// value is itself a same-namespace identifier.
pub fn add_prefix_on_vehicle_journey_ids_and_values(
    vehicle_journey_ids: &Vec<((String, u32), String)>,
    prefix: &str,
) -> (r: Vec<((String, u32), String)>)
    ensures
        vj_keys_and_values_prefixed(r@, vehicle_journey_ids@, prefix@),
{
    let mut out: Vec<((String, u32), String)> = Vec::new();
    let mut i: usize = 0;
    while i < vehicle_journey_ids.len()
        invariant
            i <= vehicle_journey_ids@.len(),
            out@.len() == i,
            forall|j: int| 0 <= j < i ==> {
                &&& (#[trigger] out@[j]).0.0@ == prefix@ + vehicle_journey_ids@[j].0.0@
                &&& out@[j].0.1 == vehicle_journey_ids@[j].0.1
                &&& out@[j].1@ == prefix@ + vehicle_journey_ids@[j].1@
            },
        decreases vehicle_journey_ids@.len() - i,
    {
        let entry = &vehicle_journey_ids[i];
        let trip_id = concat_str(prefix, entry.0.0.as_str());
        let value = concat_str(prefix, entry.1.as_str());
        out.push(((trip_id, entry.0.1), value));
        i += 1;
    }
    out
}

/// The composite keys of an auxiliary map are pairwise distinct, as the
/// keys of an actual mapping are.
pub open spec fn vj_keys_unique(m: Seq<((String, u32), String)>) -> bool {
    forall|i: int, j: int| 0 <= i < j < m.len() ==> !((#[trigger] m[i]).0.0@ == (#[trigger] m[j]).0.0@
        && m[i].0.1 == m[j].0.1)
}

/// Law: prefixing the trip identifier inside every composite key keeps
/// distinct keys distinct, since prepending one and the same prefix is
/// injective and the sequence numbers are copied verbatim.
pub proof fn lemma_vj_prefixing_preserves_unique(
    post: Seq<((String, u32), String)>,
    pre: Seq<((String, u32), String)>,
    prefix: Seq<char>,
)
    requires
        post.len() == pre.len(),
        forall|i: int| 0 <= i < pre.len() ==> (#[trigger] post[i]).0.0@ == prefix + pre[i].0.0@
            && post[i].0.1 == pre[i].0.1,
        vj_keys_unique(pre),
    ensures
        vj_keys_unique(post),
{
    assert forall|i: int, j: int| 0 <= i < j < post.len() implies !((#[trigger] post[i]).0.0@ == (
    #[trigger] post[j]).0.0@ && post[i].0.1 == post[j].0.1) by {
        lemma_prepend_injective(prefix, pre[i].0.0@, pre[j].0.0@);
    }
}

} // verus!
