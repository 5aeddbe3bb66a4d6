//! A singly linked list with owned boxed nodes, viewed as the sequence of
//! its values from the front.

use vstd::pervasive::cloned;
use vstd::prelude::*;
use vstd::std_specs::cmp::PartialEqSpec;

verus! {

/// One list cell: a value and the rest of the chain.
pub struct Node<T> {
    value: T,
    next: Option<Box<Node<T>>>,
}

/// The values hanging off a chain of nodes, front first.
pub closed spec fn chain_view<T>(o: Option<Box<Node<T>>>) -> Seq<T>
    decreases o,
{
    match o {
        None => Seq::empty(),
        Some(n) => seq![n.value] + chain_view(n.next),
    }
}

impl<T> View for Node<T> {
    type V = Seq<T>;

    closed spec fn view(&self) -> Seq<T> {
        seq![self.value] + chain_view(self.next)
    }
}

impl<T> Node<T> {
    /// A node holding `value` in front of the chain `next`.
    pub fn new(value: T, next: Option<Box<Node<T>>>) -> (r: Node<T>)
        ensures
            r@ == seq![value] + chain_view(next),
    {
        Node { value, next }
    }
}

pub struct LinkedList<T> {
    head: Option<Box<Node<T>>>,
    size: usize,
}

impl<T> View for LinkedList<T> {
    type V = Seq<T>;

    closed spec fn view(&self) -> Seq<T> {
        chain_view(self.head)
    }
}

impl<T> LinkedList<T> {
    /// The stored size agrees with the chain; constructors establish it and
    /// every method preserves it.
    pub closed spec fn wf(self) -> bool {
        self.size == self@.len()
    }

    /// An empty list.
    pub fn new() -> (r: LinkedList<T>)
        ensures
            r.wf(),
            r@ == Seq::<T>::empty(),
    {
        LinkedList { head: None, size: 0 }
    }

    /// Number of values in the list.
    pub fn get_size(&self) -> (r: usize)
        requires
            self.wf(),
        ensures
            r == self@.len(),
    {
        self.size
    }

    /// Whether the list holds no values.
    pub fn is_empty(&self) -> (r: bool)
        requires
            self.wf(),
        ensures
            r == (self@.len() == 0),
    {
        self.get_size() == 0
    }

    /// Puts `value` in front of every present value.
    pub fn push_front(&mut self, value: T)
        requires
            old(self).wf(),
            old(self)@.len() < usize::MAX,
        ensures
            final(self).wf(),
            final(self)@ == seq![value] + old(self)@,
    {
        let next = self.head.take();
        self.head = Some(Box::new(Node { value, next }));
        self.size = self.size + 1;
    }

    /// Takes the front value out, oldest pushes last; `None` exactly on the
    /// empty list, which it leaves unchanged.
    pub fn pop_front(&mut self) -> (r: Option<T>)
        requires
            old(self).wf(),
        ensures
            final(self).wf(),
            match r {
                Some(v) => old(self)@.len() > 0 && v == old(self)@[0] && final(self)@ == old(
                    self,
                )@.drop_first(),
                None => old(self)@.len() == 0 && *final(self) == *old(self),
            },
    {
        match self.head.take() {
            None => None,
            Some(node) => {
                let node = *node;
                self.head = node.next;
                self.size = self.size - 1;
                proof {
                    assert(old(self)@.drop_first() =~= chain_view(node.next));
                }
                Some(node.value)
            },
        }
    }

    /// The values as a vector, front first.
    pub fn to_vec(&self) -> (r: Vec<T>)
        where T: Copy
        ensures
            r@ == self@,
    {
        let mut r: Vec<T> = Vec::new();
        let mut cur: &Option<Box<Node<T>>> = &self.head;
        while cur.is_some()
            invariant
                r@ + chain_view(*cur) == self@,
            decreases chain_view(*cur).len(),
        {
            let node = cur.as_ref().unwrap();
            r.push(node.value);
            proof {
                assert((r@ + chain_view(node.next)) =~= self@);
            }
            cur = &node.next;
        }
        proof {
            assert(r@ =~= self@);
        }
        r
    }
}

/// Pointwise equality of two value sequences, under the element type's own
/// equality.
pub open spec fn seqs_eq_spec<T: PartialEq>(a: Seq<T>, b: Seq<T>) -> bool {
    a.len() == b.len() && forall|i: int| 0 <= i < a.len() ==> #[trigger] a[i].eq_spec(&b[i])
}

fn nodes_eq<T: PartialEq>(a: &Option<Box<Node<T>>>, b: &Option<Box<Node<T>>>) -> (r: bool)
    ensures
        T::obeys_eq_spec() ==> r == seqs_eq_spec(chain_view(*a), chain_view(*b)),
    decreases chain_view(*a).len(),
{
    match (a, b) {
        (None, None) => true,
        (Some(x), Some(y)) => {
            let heads_eq = x.value == y.value;
            if heads_eq {
                let r = nodes_eq(&x.next, &y.next);
                proof {
                    if T::obeys_eq_spec() {
                        let va = chain_view(*a);
                        let vb = chain_view(*b);
                        let ta = chain_view(x.next);
                        let tb = chain_view(y.next);
                        assert(va.len() == ta.len() + 1 && vb.len() == tb.len() + 1);
                        if r {
                            assert forall|i: int| 0 <= i < va.len() implies #[trigger] va[i]
                                .eq_spec(&vb[i]) by {
                                if i > 0 {
                                    assert(va[i] == ta[i - 1] && vb[i] == tb[i - 1]);
                                    assert(ta[i - 1].eq_spec(&tb[i - 1]));
                                }
                            }
                        } else {
                            if seqs_eq_spec(va, vb) {
                                assert forall|i: int| 0 <= i < ta.len() implies #[trigger] ta[i]
                                    .eq_spec(&tb[i]) by {
                                    assert(va[i + 1].eq_spec(&vb[i + 1]));
                                    assert(va[i + 1] == ta[i] && vb[i + 1] == tb[i]);
                                }
                            }
                        }
                    }
                }
                r
            } else {
                proof {
                    if T::obeys_eq_spec() {
                        assert(chain_view(*a)[0] == x.value && chain_view(*b)[0] == y.value);
                    }
                }
                false
            }
        },
        _ => {
            proof {
                assert(chain_view(*a).len() != chain_view(*b).len());
            }
            false
        },
    }
}

impl<T: PartialEq> vstd::std_specs::cmp::PartialEqSpecImpl for LinkedList<T> {
    open spec fn obeys_eq_spec() -> bool {
        T::obeys_eq_spec()
    }

    open spec fn eq_spec(&self, other: &LinkedList<T>) -> bool {
        seqs_eq_spec(self@, other@)
    }
}

impl<T: PartialEq> PartialEq for LinkedList<T> {
    /// Two lists are equal when they hold equal values in the same order.
    fn eq(&self, other: &Self) -> (r: bool) {
        nodes_eq(&self.head, &other.head)
    }
}

fn clone_chain<T: Clone>(o: &Option<Box<Node<T>>>) -> (r: Option<Box<Node<T>>>)
    ensures
        chain_view(r).len() == chain_view(*o).len(),
        forall|i: int|
            0 <= i < chain_view(*o).len() ==> cloned::<T>(
                chain_view(*o)[i],
                #[trigger] chain_view(r)[i],
            ),
    decreases chain_view(*o).len(),
{
    match o {
        None => None,
        Some(node) => {
            let value = node.value.clone();
            let next = clone_chain(&node.next);
            proof {
                let vo = chain_view(*o);
                let vn = chain_view(next);
                assert forall|i: int| 0 <= i < vo.len() implies cloned::<T>(
                    vo[i],
                    #[trigger] (seq![value] + vn)[i],
                ) by {
                    if i > 0 {
                        assert(vo[i] == chain_view(node.next)[i - 1]);
                        assert((seq![value] + vn)[i] == vn[i - 1]);
                    }
                }
            }
            Some(Box::new(Node { value, next }))
        },
    }
}

impl<T: Clone> Clone for LinkedList<T> {
    /// The clone holds, position by position, a clone of each value.
    fn clone(&self) -> (r: Self)
        ensures
            r@.len() == self@.len(),
            forall|i: int| 0 <= i < self@.len() ==> cloned::<T>(self@[i], #[trigger] r@[i]),
            self.wf() ==> r.wf(),
    {
        LinkedList { head: clone_chain(&self.head), size: self.size }
    }
}

} // verus!
