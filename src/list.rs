use vstd::prelude::*;

verus! {

/// One arena slot's payload: a value and the index of the slot that follows it.
pub struct Node<T> {
    value: T,
    next: Option<usize>,
}

impl<T> Node<T> {
    /// The value held by the node.
    pub closed spec fn val(&self) -> T {
        self.value
    }

    /// The slot of the node that follows this one, if any.
    pub closed spec fn link(&self) -> Option<usize> {
        self.next
    }

    /// A node holding `value`, with nothing after it.
    pub fn new(value: T) -> (r: Node<T>)
        ensures
            r.val() == value,
            r.link() is None,
    {
        Node { value, next: None }
    }
}

/// The effect of removing the front of `s`: what remains, and the removed
/// value, or `None` with `s` unchanged when `s` is empty.
pub open spec fn pop_front<T>(s: Seq<T>) -> (Seq<T>, Option<T>) {
    if s.len() == 0 {
        (s, None)
    } else {
        (s.drop_first(), Some(s[0]))
    }
}

/// A list with append at the tail and pop at the head.
///
/// Nodes are stored in `slots`; a node's link to its successor is the index of
/// the successor's slot. Emptied slots are recorded in `free` and reused.
pub struct List<T> {
    slots: Vec<Option<Node<T>>>,
    free: Vec<usize>,
    head: Option<usize>,
    tail: Option<usize>,
    length: usize,
    /// The slots of the live nodes, from head to tail.
    order: Ghost<Seq<usize>>,
}

impl<T> View for List<T> {
    type V = Seq<T>;

    closed spec fn view(&self) -> Seq<T> {
        Seq::new(self.order@.len(), |k: int| self.slots@[self.order@[k] as int]->Some_0.value)
    }
}

impl<T> List<T> {
    /// The internal invariant: the live slots, followed from `head` along the
    /// `next` links, are exactly `order`, ending at `tail`; free slots are empty.
    pub closed spec fn wf(&self) -> bool {
        let order = self.order@;
        let n = order.len();
        &&& self.length == n
        &&& n + self.free@.len() == self.slots@.len()
        &&& order.no_duplicates()
        &&& self.free@.no_duplicates()
        &&& forall|k: int|
            0 <= k < n ==> {
                &&& 0 <= #[trigger] order[k] < self.slots@.len()
                &&& self.slots@[order[k] as int] is Some
            }
        &&& forall|k: int|
            0 <= k < n ==> (#[trigger] self.slots@[order[k] as int])->Some_0.next == if k + 1 < n {
                Some(order[k + 1])
            } else {
                None::<usize>
            }
        &&& forall|j: int|
            0 <= j < self.free@.len() ==> {
                &&& 0 <= #[trigger] self.free@[j] < self.slots@.len()
                &&& self.slots@[self.free@[j] as int] is None
            }
        &&& self.head == if n == 0 {
            None::<usize>
        } else {
            Some(order[0])
        }
        &&& self.tail == if n == 0 {
            None::<usize>
        } else {
            Some(order[n - 1])
        }
    }

    /// An empty list.
    pub fn new() -> (r: List<T>)
        ensures
            r.wf(),
            r@ == Seq::<T>::empty(),
    {
        List {
            slots: Vec::new(),
            free: Vec::new(),
            head: None,
            tail: None,
            length: 0,
            order: Ghost(Seq::empty()),
        }
    }

    /// Puts `node` into a free slot, or into a new one when none is free, and
    /// returns the slot's index. The live nodes are left as they were.
    fn store(&mut self, node: Node<T>) -> (idx: usize)
        requires
            old(self).wf(),
        ensures
            final(self).order == old(self).order,
            final(self).head == old(self).head,
            final(self).tail == old(self).tail,
            final(self).length == old(self).length,
            idx <= old(self).slots@.len(),
            !old(self).order@.contains(idx),
            final(self).slots@.len() == if idx < old(self).slots@.len() {
                old(self).slots@.len()
            } else {
                old(self).slots@.len() + 1
            },
            final(self).slots@[idx as int] == Some(node),
            forall|i: int|
                0 <= i < old(self).slots@.len() && i != idx ==> #[trigger] final(self).slots@[i]
                    == old(self).slots@[i],
            old(self).order@.len() + 1 + final(self).free@.len() == final(self).slots@.len(),
            final(self).free@.no_duplicates(),
            forall|j: int|
                0 <= j < final(self).free@.len() ==> {
                    &&& 0 <= #[trigger] final(self).free@[j] < final(self).slots@.len()
                    &&& final(self).slots@[final(self).free@[j] as int] is None
                },
    {
        let ghost old_list = *self;
        let idx: usize;
        if self.free.len() > 0 {
            idx = self.free.pop().unwrap();
            proof {
                let order = old_list.order@;
                let last = old_list.free@.len() - 1;
                assert(old_list.free@[last] == idx);
                assert(!order.contains(idx)) by {
                    if order.contains(idx) {
                        let k = order.index_of(idx);
                        assert(old_list.slots@[order[k] as int] is Some);
                    }
                }
                assert forall|j: int| 0 <= j < self.free@.len() implies #[trigger] self.free@[j]
                    != idx by {
                    assert(old_list.free@[j] == self.free@[j]);
                }
                assert forall|j: int| 0 <= j < self.free@.len() implies #[trigger] self.free@[j]
                    == old_list.free@[j] by {}
            }
            self.slots.set(idx, Some(node));
        } else {
            idx = self.slots.len();
            self.slots.push(Some(node));
            proof {
                if old_list.order@.contains(idx) {
                    let k = old_list.order@.index_of(idx);
                    assert(old_list.order@[k] < old_list.slots@.len());
                }
            }
        }
        idx
    }

    /// Sets the link of the node in slot `t` to `to`.
    fn set_link(&mut self, t: usize, to: usize)
        requires
            t < old(self).slots@.len(),
            old(self).slots@[t as int] is Some,
        ensures
            final(self).slots@ == old(self).slots@.update(
                t as int,
                Some(Node { value: old(self).slots@[t as int]->Some_0.value, next: Some(to) }),
            ),
            final(self).free == old(self).free,
            final(self).order == old(self).order,
            final(self).head == old(self).head,
            final(self).tail == old(self).tail,
            final(self).length == old(self).length,
    {
        let mut taken: Option<Node<T>> = None;
        self.slots.set_and_swap(t, &mut taken);
        let mut last = taken.unwrap();
        last.next = Some(to);
        self.slots.set(t, Some(last));
    }

    /// Adds `value` at the tail.
    pub fn append(&mut self, value: T)
        requires
            old(self).wf(),
        ensures
            final(self).wf(),
            final(self)@ == old(self)@.push(value),
            final(self)@.len() == old(self)@.len() + 1,
    {
        let ghost old_list = *self;
        let node = Node::new(value);
        let idx = self.store(node);
        let ghost mid = *self;
        assert(self.slots@.len() == self.slots.len());
        match self.tail {
            Some(t) => {
                self.set_link(t, idx);
            },
            None => {
                self.head = Some(idx);
            },
        }
        self.tail = Some(idx);
        self.length = self.length + 1;
        proof {
            let order = old_list.order@;
            let n = order.len();
            self.order@ = order.push(idx);
            assert forall|k: int| 0 <= k < n implies old_list.slots@[#[trigger] order[k] as int]
                == mid.slots@[order[k] as int] && order[k] != idx by {
                assert(order.contains(order[k]));
            }
            assert forall|k: int| 0 <= k < n + 1 implies {
                &&& 0 <= #[trigger] self.order@[k] < self.slots@.len()
                &&& self.slots@[self.order@[k] as int] is Some
                &&& self.slots@[self.order@[k] as int]->Some_0.next == if k + 1 < n + 1 {
                    Some(self.order@[k + 1])
                } else {
                    None::<usize>
                }
            } by {
                if k < n {
                    assert(self.order@[k] == order[k]);
                    assert(old_list.slots@[order[k] as int]->Some_0.next == if k + 1 < n {
                        Some(order[k + 1])
                    } else {
                        None::<usize>
                    });
                    if k < n - 1 {
                        assert(order[k] != order[n - 1]);
                        assert(self.order@[k + 1] == order[k + 1]);
                    }
                }
            }
            assert forall|j: int| 0 <= j < self.free@.len() implies {
                &&& 0 <= #[trigger] self.free@[j] < self.slots@.len()
                &&& self.slots@[self.free@[j] as int] is None
            } by {
                assert(mid.slots@[mid.free@[j] as int] is None);
            }
            assert(self@ =~= old_list@.push(value)) by {
                assert forall|k: int| 0 <= k < n implies #[trigger] self@[k] == old_list@[k] by {
                    assert(self.order@[k] == order[k]);
                }
            }
        }
    }

    /// Removes the value at the head and returns it; `None` when the list is empty.
    pub fn pop(&mut self) -> (r: Option<T>)
        requires
            old(self).wf(),
        ensures
            final(self).wf(),
            (final(self)@, r) == pop_front(old(self)@),
            old(self)@.len() > 0 ==> r is Some && final(self)@.len() == old(self)@.len() - 1,
            old(self)@.len() == 0 ==> r is None && final(self)@.len() == 0,
    {
        match self.head {
            None => None,
            Some(h) => {
                let ghost old_list = *self;
                let mut taken: Option<Node<T>> = None;
                self.slots.set_and_swap(h, &mut taken);
                let node = taken.unwrap();
                match node.next {
                    Some(nx) => {
                        self.head = Some(nx);
                    },
                    None => {
                        self.head = None;
                        self.tail = None;
                    },
                }
                proof {
                    let order = old_list.order@;
                    assert(!old_list.free@.contains(h)) by {
                        if old_list.free@.contains(h) {
                            let j = old_list.free@.index_of(h);
                            assert(old_list.slots@[old_list.free@[j] as int] is None);
                        }
                    }
                    assert forall|k: int| 1 <= k < order.len() implies #[trigger] order[k] != h by {
                        assert(order[0] == h);
                    }
                }
                self.free.push(h);
                self.length = self.length - 1;
                proof {
                    self.order@ = self.order@.drop_first();
                }
                assert(self@ =~= old_list@.drop_first());
                Some(node.value)
            },
        }
    }

    /// The value at the head, or `None` when the list is empty.
    pub fn head(&self) -> (r: Option<&T>)
        requires
            self.wf(),
        ensures
            r == if self@.len() == 0 {
                None
            } else {
                Some(&self@[0])
            },
    {
        match self.head {
            None => None,
            Some(h) => match &self.slots[h] {
                Some(node) => Some(&node.value),
                None => None,
            },
        }
    }

    /// The value at the tail, or `None` when the list is empty.
    pub fn tail(&self) -> (r: Option<&T>)
        requires
            self.wf(),
        ensures
            r == if self@.len() == 0 {
                None
            } else {
                Some(&self@.last())
            },
    {
        match self.tail {
            None => None,
            Some(t) => match &self.slots[t] {
                Some(node) => Some(&node.value),
                None => None,
            },
        }
    }

    /// The number of values in the list.
    pub fn length(&self) -> (r: usize)
        requires
            self.wf(),
        ensures
            r == self@.len(),
    {
        self.length
    }
}

} // verus!
