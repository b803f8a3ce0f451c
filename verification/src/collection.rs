//! Ordered containers of records: a plain sequence, and an identifier-indexed
//! sequence whose identifiers are unique at all times after construction.

use vstd::prelude::*;

verus! {

use crate::Error;
use crate::add_prefix::AddPrefix;
use crate::strings::str_eq;

/// A record type that owns a unique identifier, and whose namespacing
/// rewrites that identifier by prepending the prefix.
pub trait Id: AddPrefix {
    /// The identifier of this record.
    spec fn spec_id(self) -> Seq<char>;

    /// Read accessor for the identifier.
    fn id(&self) -> (r: &str)
        ensures
            r@ == self.spec_id(),
    ;

    /// Mutator for the identifier.
    fn set_id(&mut self, id: String)
        ensures
            final(self).spec_id() == id@,
    ;

    /// Law each record type must prove: namespacing maps the identifier to
    /// the prefix followed by the old identifier.
    proof fn lemma_prefixed_id(post: Self, pre: Self, prefix: Seq<char>)
        requires
            post.prefixed_from(pre, prefix),
        ensures
            post.spec_id() == prefix + pre.spec_id(),
    ;
}

/// An ordered sequence of records with no identifier indexing, for record
/// types that have no independent identifier of their own.
pub struct Collection<T> {
    items: Vec<T>,
}

impl<T> View for Collection<T> {
    type V = Seq<T>;

    closed spec fn view(&self) -> Seq<T> {
        self.items@
    }
}

impl<T> Collection<T> {
    /// Wraps the given records, in order.
    pub fn new(items: Vec<T>) -> (r: Self)
        ensures
            r@ == items@,
    {
        Collection { items }
    }

    /// The records, in order.
    pub fn values(&self) -> (r: &Vec<T>)
        ensures
            r@ == self@,
    {
        &self.items
    }

    /// The number of records.
    pub fn len(&self) -> (r: usize)
        ensures
            r == self@.len(),
    {
        self.items.len()
    }
}

impl<T> Default for Collection<T> {
    /// An empty collection.
    fn default() -> (r: Self)
        ensures
            r@ == Seq::<T>::empty(),
    {
        Collection { items: Vec::new() }
    }
}

impl<T: AddPrefix> AddPrefix for Collection<T> {
    /// Elementwise: order and count are preserved, each record is rewritten.
    open spec fn prefixed_from(self, pre: Self, prefix: Seq<char>) -> bool {
        &&& self@.len() == pre@.len()
        &&& forall|i: int| 0 <= i < pre@.len() ==> (#[trigger] self@[i]).prefixed_from(
            pre@[i],
            prefix,
        )
    }

    fn add_prefix(&mut self, prefix: &str) {
        let n = self.items.len();
        let mut i: usize = 0;
        while i < n
            invariant
                i <= n,
                n == self.items@.len(),
                forall|j: int| i <= j < n ==> self.items@[j] == old(self)@[j],
                forall|j: int| 0 <= j < i ==> (#[trigger] self.items@[j]).prefixed_from(
                    old(self)@[j],
                    prefix@,
                ),
            decreases n - i,
        {
            let mut item = self.items.remove(i);
            item.add_prefix(prefix);
            self.items.insert(i, item);
            i += 1;
        }
    }
}

/// An ordered sequence of records paired with enforced identifier uniqueness
/// and lookup by identifier. Construction rejects duplicate identifiers; it
/// never silently drops a record.
pub struct CollectionWithId<T> {
    items: Vec<T>,
}

impl<T: Id> View for CollectionWithId<T> {
    type V = Seq<T>;

    closed spec fn view(&self) -> Seq<T> {
        self.items@
    }
}

impl<T: Id> CollectionWithId<T> {
    /// The identifiers of the records, in order.
    pub open spec fn spec_ids(&self) -> Seq<Seq<char>> {
        Seq::new(self@.len(), |i: int| self@[i].spec_id())
    }

    /// Identifiers are pairwise distinct.
    pub open spec fn unique_ids(&self) -> bool {
        forall|i: int, j: int| 0 <= i < j < self@.len() ==> self@[i].spec_id() != self@[j].spec_id()
    }

    /// Wraps the given records, in order, rejecting any duplicate identifier
    /// with an error that names it.
    pub fn new(items: Vec<T>) -> (r: Result<Self, Error>)
        ensures
            r matches Ok(c) ==> c@ == items@ && c.unique_ids(),
            r is Ok <==> (forall|i: int, j: int| 0 <= i < j < items@.len()
                ==> items@[i].spec_id() != items@[j].spec_id()),
            r matches Err(e) ==> e matches Error::DuplicateId(id) && exists|i: int, j: int|
                0 <= i < j < items@.len() && items@[i].spec_id() == items@[j].spec_id()
                && id@ == items@[j].spec_id(),
    {
        let n = items.len();
        let mut j: usize = 0;
        while j < n
            invariant
                j <= n,
                n == items@.len(),
                forall|a: int, b: int| 0 <= a < b < j ==> items@[a].spec_id() != items@[b].spec_id(),
            decreases n - j,
        {
            let mut i: usize = 0;
            while i < j
                invariant
                    i <= j < n,
                    n == items@.len(),
                    forall|a: int, b: int| 0 <= a < b < j ==> items@[a].spec_id() != items@[b].spec_id(),
                    forall|a: int| 0 <= a < i ==> items@[a].spec_id() != items@[j as int].spec_id(),
                decreases j - i,
            {
                if str_eq(items[i].id(), items[j].id()) {
                    return Err(Error::DuplicateId(items[j].id().to_owned()));
                }
                i += 1;
            }
            j += 1;
        }
        Ok(CollectionWithId { items })
    }

    /// The records, in order.
    pub fn values(&self) -> (r: &Vec<T>)
        ensures
            r@ == self@,
    {
        &self.items
    }

    /// The number of records.
    pub fn len(&self) -> (r: usize)
        ensures
            r == self@.len(),
    {
        self.items.len()
    }

    /// Lookup by identifier.
    pub fn get(&self, id: &str) -> (r: Option<&T>)
        ensures
            r is Some <==> (exists|i: int| 0 <= i < self@.len() && (#[trigger] self@[i]).spec_id() == id@),
            r matches Some(t) ==> t.spec_id() == id@ && self@.contains(*t),
    {
        let n = self.items.len();
        let mut i: usize = 0;
        while i < n
            invariant
                i <= n,
                n == self@.len(),
                forall|j: int| 0 <= j < i ==> (#[trigger] self@[j]).spec_id() != id@,
            decreases n - i,
        {
            if str_eq(self.items[i].id(), id) {
                return Some(&self.items[i]);
            }
            i += 1;
        }
        None
    }
}

impl<T: Id> Default for CollectionWithId<T> {
    /// An empty collection.
    fn default() -> (r: Self)
        ensures
            r@ == Seq::<T>::empty(),
            r.unique_ids(),
    {
        CollectionWithId { items: Vec::new() }
    }
}

impl<T: Id> AddPrefix for CollectionWithId<T> {
    /// Elementwise: order and count are preserved, each record is rewritten
    /// in place at its pre-captured position.
    open spec fn prefixed_from(self, pre: Self, prefix: Seq<char>) -> bool {
        &&& self@.len() == pre@.len()
        &&& forall|i: int| 0 <= i < pre@.len() ==> (#[trigger] self@[i]).prefixed_from(
            pre@[i],
            prefix,
        )
    }

    fn add_prefix(&mut self, prefix: &str) {
        let n = self.items.len();
        let mut i: usize = 0;
        while i < n
            invariant
                i <= n,
                n == self.items@.len(),
                forall|j: int| i <= j < n ==> self.items@[j] == old(self)@[j],
                forall|j: int| 0 <= j < i ==> (#[trigger] self.items@[j]).prefixed_from(
                    old(self)@[j],
                    prefix@,
                ),
            decreases n - i,
        {
            let mut item = self.items.remove(i);
            item.add_prefix(prefix);
            self.items.insert(i, item);
            i += 1;
        }
    }
}

/// Law: prepending one and the same prefix to two identifiers keeps distinct
/// identifiers distinct.
pub proof fn lemma_prepend_injective(prefix: Seq<char>, a: Seq<char>, b: Seq<char>)
    ensures
        prefix + a == prefix + b ==> a == b,
{
    if prefix + a == prefix + b {
        assert((prefix + a).subrange(prefix.len() as int, (prefix + a).len() as int) =~= a);
        assert((prefix + b).subrange(prefix.len() as int, (prefix + b).len() as int) =~= b);
    }
}

/// What namespacing owes an identified collection: the record count is kept
/// and every identifier is the prefix followed by its old value.
pub open spec fn ids_prefixed<T: Id>(
    post: CollectionWithId<T>,
    pre: CollectionWithId<T>,
    prefix: Seq<char>,
) -> bool {
    &&& post@.len() == pre@.len()
    &&& forall|i: int| 0 <= i < pre@.len() ==> (#[trigger] post.spec_ids()[i]) == prefix
        + pre.spec_ids()[i]
}

/// Law: after namespacing an identified collection, every identifier equals
/// the prefix followed by its pre-namespacing value, and the number of
/// records is unchanged.
pub proof fn lemma_prefixing_shape<T: Id>(
    post: CollectionWithId<T>,
    pre: CollectionWithId<T>,
    prefix: Seq<char>,
)
    requires
        post.prefixed_from(pre, prefix),
    ensures
        ids_prefixed(post, pre, prefix),
{
    assert forall|i: int| 0 <= i < pre@.len() implies (#[trigger] post.spec_ids()[i]) == prefix
        + pre.spec_ids()[i] by {
        T::lemma_prefixed_id(post@[i], pre@[i], prefix);
    }
}

/// Law: namespacing preserves identifier uniqueness.
pub proof fn lemma_prefixing_preserves_unique<T: Id>(
    post: CollectionWithId<T>,
    pre: CollectionWithId<T>,
    prefix: Seq<char>,
)
    requires
        post.prefixed_from(pre, prefix),
        pre.unique_ids(),
    ensures
        post.unique_ids(),
{
    lemma_prefixing_shape(post, pre, prefix);
    assert forall|i: int, j: int| 0 <= i < j < post@.len() implies post@[i].spec_id() != post@[j].spec_id() by {
        T::lemma_prefixed_id(post@[i], pre@[i], prefix);
        T::lemma_prefixed_id(post@[j], pre@[j], prefix);
        lemma_prepend_injective(prefix, pre@[i].spec_id(), pre@[j].spec_id());
    }
}

} // verus!
