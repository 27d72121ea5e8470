//! The ordered, indexable collection behind decks, discard piles, hands,
//! tables and the trade row. The "top" of a stack is its highest index.

use vstd::prelude::*;
use crate::rng::random_below;

verus! {

/// A stack of items backed by a vector; drawing takes the last element.
#[derive(Debug)]
pub struct SimpleStack<T> {
    pub elements: Vec<T>,
}

impl<T> View for SimpleStack<T> {
    type V = Seq<T>;

    open spec fn view(&self) -> Seq<T> {
        self.elements@
    }
}

impl<T> SimpleStack<T> {
    pub fn new(elements: Vec<T>) -> (r: SimpleStack<T>)
        ensures
            r@ == elements@,
    {
        SimpleStack { elements }
    }

    pub fn empty() -> (r: SimpleStack<T>)
        ensures
            r@ == Seq::<T>::empty(),
    {
        SimpleStack { elements: Vec::new() }
    }

    pub fn len(&self) -> (r: usize)
        ensures
            r == self@.len(),
    {
        self.elements.len()
    }

    pub fn get(&self, index: usize) -> (r: Option<&T>)
        ensures
            index < self@.len() ==> r == Some(&self@[index as int]),
            index >= self@.len() ==> r is None,
    {
        if index < self.elements.len() {
            Some(&self.elements[index])
        } else {
            None
        }
    }

    /// Appends at the top.
    pub fn add(&mut self, item: T)
        ensures
            final(self)@ == old(self)@.push(item),
    {
        self.elements.push(item);
    }

    /// Inserts an item at `index`, shifting everything at and above it up.
    pub fn insert_at(&mut self, index: usize, item: T)
        requires
            index <= old(self)@.len(),
        ensures
            final(self)@ == old(self)@.insert(index as int, item),
    {
        self.elements.insert(index, item);
    }

    /// Removes the item at `index`, shifting everything above it down;
    /// an out-of-range index leaves the stack unchanged.
    pub fn remove(&mut self, index: usize) -> (r: Option<T>)
        ensures
            index < old(self)@.len() ==> r == Some(old(self)@[index as int])
                && final(self)@ == old(self)@.remove(index as int),
            index >= old(self)@.len() ==> r is None && *final(self) == *old(self),
    {
        if index < self.elements.len() {
            Some(self.elements.remove(index))
        } else {
            None
        }
    }

    /// Removes and returns the top item; `None` on an empty stack.
    pub fn draw(&mut self) -> (r: Option<T>)
        ensures
            old(self)@.len() > 0 ==> r == Some(old(self)@.last())
                && final(self)@ == old(self)@.drop_last(),
            old(self)@.len() == 0 ==> r is None && *final(self) == *old(self),
    {
        let n = self.elements.len();
        if n > 0 {
            let x = self.elements.remove(n - 1);
            proof {
                assert(old(self)@.remove(n - 1) =~= old(self)@.drop_last());
            }
            Some(x)
        } else {
            None
        }
    }

    /// The top item, without removing it.
    pub fn peek(&self) -> (r: Option<&T>)
        ensures
            self@.len() > 0 ==> r == Some(&self@.last()),
            self@.len() == 0 ==> r is None,
    {
        let n = self.elements.len();
        if n > 0 {
            Some(&self.elements[n - 1])
        } else {
            None
        }
    }

    /// Permutes the stack randomly: afterwards it holds exactly the same
    /// items, as a multiset, as before.
    pub fn shuffle(&mut self)
        ensures
            final(self)@.to_multiset() == old(self)@.to_multiset(),
            final(self)@.len() == old(self)@.len(),
    {
        proof {
            broadcast use vstd::seq_lib::group_to_multiset_ensures;
        }
        let n = self.elements.len();
        let mut i: usize = 0;
        while i < n
            invariant
                self@.len() == n,
                i <= n,
                self@.to_multiset() == old(self)@.to_multiset(),
            decreases n - i,
        {
            proof {
                broadcast use vstd::seq_lib::group_to_multiset_ensures;
            }
            let j = random_below(n - i);
            let ghost pre = self@;
            let x = self.elements.remove(j);
            self.elements.push(x);
            proof {
                assert(self@ =~= pre.remove(j as int).push(pre[j as int]));
                assert(self@.to_multiset() =~= pre.to_multiset());
            }
            i += 1;
        }
    }
}

/// Drains `from` into `to`, drawing from the top each time: `to` gains the
/// elements of `from` in reverse order.
pub fn move_all_to<T>(from: &mut SimpleStack<T>, to: &mut SimpleStack<T>)
    ensures
        final(from)@ == Seq::<T>::empty(),
        final(to)@ == old(to)@ + old(from)@.reverse(),
{
    let ghost from0 = old(from)@;
    let ghost to0 = old(to)@;
    proof {
        assert(from0.take(from0.len() as int) =~= from0);
        assert(from0.skip(from0.len() as int).reverse() =~= Seq::<T>::empty());
        assert(to0 + from0.skip(from0.len() as int).reverse() =~= to0);
    }
    while from.len() > 0
        invariant
            from@.len() <= from0.len(),
            from@ == from0.take(from@.len() as int),
            to@ == to0 + from0.skip(from@.len() as int).reverse(),
        decreases from@.len(),
    {
        let ghost pre_from = from@;
        let ghost pre_to = to@;
        let ghost k = pre_from.len() - 1;
        if let Some(card) = from.draw() {
            to.add(card);
        }
        proof {
            assert(from@ =~= from0.take(k));
            assert(pre_from.last() == from0[k]);
            assert(from0.skip(k).reverse() =~= from0.skip(k + 1).reverse().push(from0[k]));
            assert(to@ =~= to0 + from0.skip(k).reverse());
        }
    }
    proof {
        assert(from@ =~= Seq::<T>::empty());
        assert(from0.skip(0) =~= from0);
        assert(to@ =~= to0 + from0.reverse());
    }
}

/// Draws one item from `from` (if any) and adds it to `to`.
pub fn draw_to<T>(from: &mut SimpleStack<T>, to: &mut SimpleStack<T>)
    ensures
        old(from)@.len() > 0 ==> final(from)@ == old(from)@.drop_last()
            && final(to)@ == old(to)@.push(old(from)@.last()),
        old(from)@.len() == 0 ==> final(from)@ == old(from)@ && final(to)@ == old(to)@,
{
    if let Some(i) = from.draw() {
        to.add(i);
    }
}


/// Shuffling and then draining a stack by repeated draws hands back a
/// permutation of the original contents: the same multiset of items, so
/// nothing is lost or duplicated. `after_shuffle` is what `shuffle` left
/// (the same multiset), and draining by `draw` yields the stack reversed.
pub proof fn lemma_shuffle_drain_permutation<T>(
    before: Seq<T>,
    after_shuffle: Seq<T>,
    drained: Seq<T>,
)
    requires
        after_shuffle.to_multiset() == before.to_multiset(),
        drained == after_shuffle.reverse(),
    ensures
        drained.to_multiset() == before.to_multiset(),
{
    after_shuffle.lemma_reverse_to_multiset();
}

} // verus!
