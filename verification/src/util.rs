//! Small general helpers: explicit success/failure, named values, and the
//! recursive choice algebra `Join` shared by requirement-, action- and
//! query-trees.

use vstd::prelude::*;

verus! {

/// Success, or a failure carrying a reason.
pub enum Failure<T> {
    Fail(T),
    Succeed,
}

impl<T> Failure<T> {
    /// Unwraps a result that the caller has shown to be a success.
    pub fn check(&self)
        requires
            self is Succeed,
    {
    }

    pub fn as_result(self) -> (r: Result<(), T>)
        ensures
            self is Succeed ==> r is Ok,
            self is Fail ==> r == Result::<(), T>::Err(self->Fail_0),
    {
        match self {
            Failure::Fail(x) => Err(x),
            Failure::Succeed => Ok(()),
        }
    }
}

/// A value paired with a human-readable name.
pub struct Named<T> {
    pub name: String,
    pub item: T,
}

impl<T> Named<T> {
    pub fn of(name: &str, item: T) -> (r: Named<T>)
        ensures
            r.name@ == name@,
            r.item == item,
    {
        Named { name: name.to_owned(), item }
    }
}

/// The choice algebra: exactly one payload, all children, or exactly one
/// child picked by the client.
pub enum Join<T> {
    Unit(T),
    Union(Vec<Join<T>>),
    Disjoint(Vec<Join<T>>),
}

impl<T> Join<T> {
    /// The children of a `Union` or `Disjoint` node; a `Unit` has none.
    pub open spec fn children(self) -> Seq<Join<T>> {
        match self {
            Join::Unit(_) => Seq::empty(),
            Join::Union(cs) => cs@,
            Join::Disjoint(cs) => cs@,
        }
    }

    /// Well-formed trees never hold an empty `Union` or `Disjoint`.
    pub open spec fn wf(self) -> bool
        decreases self,
    {
        match self {
            Join::Unit(_) => true,
            Join::Union(cs) => cs@.len() > 0 && Join::seq_wf(cs@),
            Join::Disjoint(cs) => cs@.len() > 0 && Join::seq_wf(cs@),
        }
    }

    /// Every tree in the sequence is well-formed.
    pub open spec fn seq_wf(s: Seq<Join<T>>) -> bool
        decreases s,
    {
        if s.len() == 0 {
            true
        } else {
            s[0].wf() && Join::seq_wf(s.drop_first())
        }
    }

    /// A sequence of well-formed trees satisfies `seq_wf`.
    pub proof fn lemma_seq_wf(s: Seq<Join<T>>)
        requires
            forall|i: int| 0 <= i < s.len() ==> #[trigger] s[i].wf(),
        ensures
            Join::seq_wf(s),
        decreases s.len(),
    {
        if s.len() > 0 {
            assert(s[0].wf());
            assert forall|j: int| 0 <= j < s.drop_first().len() implies #[trigger] s.drop_first()[j].wf() by {
                assert(s.drop_first()[j] == s[j + 1]);
            }
            Join::lemma_seq_wf(s.drop_first());
        }
    }

}

impl<T> Join<T> {
    pub fn unit(item: T) -> (r: Join<T>)
        ensures
            r == Join::Unit(item),
    {
        Join::Unit(item)
    }

    /// Wraps every item; a single-element list collapses to a `Unit`.
    pub fn union(items: Vec<T>) -> (r: Join<T>)
        requires
            items@.len() > 0,
        ensures
            items@.len() == 1 ==> r == Join::Unit(items@[0]),
            items@.len() > 1 ==> r is Union,
            items@.len() > 1 ==> r.children().len() == items@.len(),
            items@.len() > 1 ==> forall|i: int|
                0 <= i < items@.len() ==> r.children()[i] == Join::Unit(items@[i]),
            r.wf(),
    {
        Join::from_vec(items, true)
    }

    /// Wraps every item; a single-element list collapses to a `Unit`.
    pub fn disjoint(items: Vec<T>) -> (r: Join<T>)
        requires
            items@.len() > 0,
        ensures
            items@.len() == 1 ==> r == Join::Unit(items@[0]),
            items@.len() > 1 ==> r is Disjoint,
            items@.len() > 1 ==> r.children().len() == items@.len(),
            items@.len() > 1 ==> forall|i: int|
                0 <= i < items@.len() ==> r.children()[i] == Join::Unit(items@[i]),
            r.wf(),
    {
        Join::from_vec(items, false)
    }

    /// Shared constructor: `union` picks the `Union` shape, otherwise
    /// `Disjoint`; one element always collapses to a `Unit`.
    pub fn from_vec(items: Vec<T>, union: bool) -> (r: Join<T>)
        requires
            items@.len() > 0,
        ensures
            items@.len() == 1 ==> r == Join::Unit(items@[0]),
            items@.len() > 1 && union ==> r is Union,
            items@.len() > 1 && !union ==> r is Disjoint,
            items@.len() > 1 ==> r.children().len() == items@.len(),
            items@.len() > 1 ==> forall|i: int|
                0 <= i < items@.len() ==> r.children()[i] == Join::Unit(items@[i]),
            r.wf(),
    {
        let mut items = items;
        if items.len() == 1 {
            let r = Join::Unit(items.remove(0));
            proof {
                assert(r.wf());
            }
            r
        } else {
            let ghost orig = items@;
            let mut wrapped: Vec<Join<T>> = Vec::new();
            let n = items.len();
            let mut i: usize = 0;
            while i < n
                invariant
                    n == orig.len(),
                    i <= n,
                    items@ == orig.skip(i as int),
                    wrapped@.len() == i,
                    forall|j: int| 0 <= j < i ==> wrapped@[j] == Join::Unit(orig[j]),
                decreases n - i,
            {
                let item = items.remove(0);
                wrapped.push(Join::Unit(item));
                i += 1;
            }
            proof {
                assert forall|j: int| 0 <= j < wrapped@.len() implies #[trigger] wrapped@[j].wf() by {
                    assert(wrapped@[j] == Join::Unit(orig[j]));
                }
                Join::lemma_seq_wf(wrapped@);
            }
            if union {
                Join::Union(wrapped)
            } else {
                Join::Disjoint(wrapped)
            }
        }
    }
}

} // verus!
