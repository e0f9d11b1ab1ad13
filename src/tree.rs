use vstd::prelude::*;

verus! {

/// One entry of a scene tree: its payload, the handle of its parent group
/// and the handles of its children.
#[derive(Clone, Debug)]
pub struct Node<T> {
    pub parent: Option<usize>,
    pub children: Vec<usize>,
    pub data: T,
}

impl<T> Node<T> {
    /// A node with no parent and no children.
    pub fn new(data: T) -> (n: Node<T>)
        ensures
            n.parent is None,
            n.children@.len() == 0,
            n.data == data,
    {
        Node { parent: None, children: Vec::new(), data }
    }
}

/// An arena of nodes addressed by integer handles. Handle `0` is the root;
/// every other node has a parent of smaller handle, so parent chains always
/// end at the root and the structure is a tree by construction.
pub struct Tree<T> {
    nodes: Vec<Node<T>>,
}

impl<T> Tree<T> {
    /// Number of nodes.
    pub closed spec fn size(&self) -> nat {
        self.nodes.len() as nat
    }

    /// Parent handle of node `h`.
    pub closed spec fn parent_of(&self, h: int) -> Option<usize> {
        self.nodes@[h].parent
    }

    /// Child handles of node `h`, in insertion order.
    pub closed spec fn children_of(&self, h: int) -> Seq<usize> {
        self.nodes@[h].children@
    }

    /// Payload of node `h`.
    pub closed spec fn data_of(&self, h: int) -> T {
        self.nodes@[h].data
    }

    /// The root has no parent, every other node a parent of smaller handle,
    /// and child lists agree with parent links.
    pub open spec fn wf(&self) -> bool {
        &&& self.size() >= 1
        &&& self.parent_of(0) is None
        &&& forall|h: int| 0 < h < self.size() ==> (#[trigger] self.parent_of(h) matches Some(p) && p < h)
        &&& forall|h: int, k: int| 0 <= h < self.size() && 0 <= k < self.children_of(h).len() ==> {
                let c = #[trigger] self.children_of(h)[k];
                &&& c < self.size()
                &&& self.parent_of(c as int) == Some(h as usize)
            }
        &&& forall|h: int| 0 < h < self.size() ==> #[trigger] self.children_of(self.parent_of(h)->Some_0 as int).contains(h as usize)
    }

    /// The handles from `h` up to the root: `h`, its parent, its parent's
    /// parent, and so on.
    pub open spec fn path_to_root(&self, h: int) -> Seq<usize>
        decreases h,
    {
        if h <= 0 {
            seq![0usize]
        } else {
            match self.parent_of(h) {
                Some(p) => if p < h {
                    seq![h as usize] + self.path_to_root(p as int)
                } else {
                    seq![h as usize]
                },
                None => seq![h as usize],
            }
        }
    }

    /// A tree holding only a root with payload `data`.
    pub fn new(data: T) -> (t: Tree<T>)
        ensures
            t.wf(),
            t.size() == 1,
            t.data_of(0) == data,
            t.children_of(0).len() == 0,
    {
        let mut nodes: Vec<Node<T>> = Vec::new();
        nodes.push(Node::new(data));
        Tree { nodes }
    }

    /// Number of nodes.
    pub fn len(&self) -> (r: usize)
        ensures
            r == self.size(),
    {
        self.nodes.len()
    }

    /// Parent handle of node `h`.
    pub fn parent(&self, h: usize) -> (r: Option<usize>)
        requires
            h < self.size(),
        ensures
            r == self.parent_of(h as int),
    {
        self.nodes[h].parent
    }

    /// Child handles of node `h`.
    pub fn children(&self, h: usize) -> (r: &Vec<usize>)
        requires
            h < self.size(),
        ensures
            r@ == self.children_of(h as int),
    {
        &self.nodes[h].children
    }

    /// Payload of node `h`.
    pub fn get(&self, h: usize) -> (r: &T)
        requires
            h < self.size(),
        ensures
            *r == self.data_of(h as int),
    {
        &self.nodes[h].data
    }

    /// Adds a node with payload `data` as the last child of `parent` and
    /// returns its handle, which is the number of nodes before the call.
    pub fn add_child(&mut self, parent: usize, data: T) -> (h: usize)
        requires
            old(self).wf(),
            parent < old(self).size(),
            old(self).size() < usize::MAX,
        ensures
            final(self).wf(),
            h == old(self).size(),
            final(self).size() == old(self).size() + 1,
            final(self).parent_of(h as int) == Some(parent),
            final(self).data_of(h as int) == data,
            final(self).children_of(h as int).len() == 0,
            final(self).children_of(parent as int) == old(self).children_of(parent as int).push(h),
            forall|k: int| 0 <= k < old(self).size() ==> #[trigger] final(self).parent_of(k) == old(self).parent_of(k),
            forall|k: int| 0 <= k < old(self).size() ==> #[trigger] final(self).data_of(k) == old(self).data_of(k),
            forall|k: int| 0 <= k < old(self).size() && k != parent ==> #[trigger] final(self).children_of(k) == old(self).children_of(k),
    {
        let h = self.nodes.len();
        let mut node = Node::new(data);
        node.parent = Some(parent);
        self.nodes.push(node);
        self.nodes[parent].children.push(h);
        proof {
            let t = &*self;
            assert(t.children_of(parent as int) == old(self).children_of(parent as int).push(h));
            assert forall|g: int| 0 <= g < t.size() && g != h as int implies #[trigger] t.parent_of(g) == old(self).parent_of(g) by {
            }
            assert forall|g: int| 0 < g < t.size() implies (#[trigger] t.parent_of(g) matches Some(p) && p < g) by {
                if g < h as int {
                    assert(t.parent_of(g) == old(self).parent_of(g));
                }
            }
            assert(t.parent_of(0) is None);
            assert forall|g: int, k: int| 0 <= g < t.size() && 0 <= k < t.children_of(g).len() implies {
                let c = #[trigger] t.children_of(g)[k];
                &&& c < t.size()
                &&& t.parent_of(c as int) == Some(g as usize)
            } by {
                if g == parent as int && k == old(self).children_of(g).len() {
                } else {
                    assert(t.children_of(g)[k] == old(self).children_of(g)[k]);
                }
            }
            assert forall|g: int| 0 < g < t.size() implies #[trigger] t.children_of(t.parent_of(g)->Some_0 as int).contains(g as usize) by {
                if g == h as int {
                    assert(t.children_of(parent as int)[old(self).children_of(parent as int).len() as int] == h);
                } else {
                    let p = old(self).parent_of(g)->Some_0;
                    assert(old(self).children_of(p as int).contains(g as usize));
                    let w = choose|w: int| 0 <= w < old(self).children_of(p as int).len() && old(self).children_of(p as int)[w] == g as usize;
                    assert(t.children_of(p as int)[w] == g as usize);
                }
            }
        }
        h
    }

    /// The handles from `h` up to the root, `h` first and the root last.
    pub fn ancestors(&self, h: usize) -> (r: Vec<usize>)
        requires
            self.wf(),
            h < self.size(),
        ensures
            r@ == self.path_to_root(h as int),
    {
        let mut r: Vec<usize> = Vec::new();
        let mut cur: usize = h;
        while cur != 0
            invariant
                self.wf(),
                cur < self.size(),
                r@ + self.path_to_root(cur as int) == self.path_to_root(h as int),
            decreases cur,
        {
            let p = self.nodes[cur].parent;
            match p {
                Some(p) => {
                    proof {
                        assert(self.parent_of(cur as int) == Some(p));
                        assert(self.path_to_root(cur as int) == seq![cur] + self.path_to_root(p as int));
                        assert(r@.push(cur) + self.path_to_root(p as int) =~= r@ + self.path_to_root(cur as int));
                    }
                    r.push(cur);
                    cur = p;
                },
                None => {
                    proof {
                        assert(self.parent_of(cur as int) matches Some(_));
                    }
                    cur = 0;
                },
            }
        }
        proof {
            assert(self.path_to_root(0) == seq![0usize]);
        }
        r.push(0);
        proof {
            assert(r@ =~= self.path_to_root(h as int));
        }
        r
    }
}

} // verus!
