use std::collections::VecDeque;
use vstd::prelude::*;
use vstd::std_specs::cmp::PartialEqSpec;

verus! {

/// A node of a graph built from shared references.
///
/// A node can only refer to nodes that exist before it, so the nodes that
/// can be reached from any node form a finite acyclic graph.
#[derive(Debug)]
pub struct GraphNode<'a, T> {
    pub value: T,
    pub children: Vec<&'a GraphNode<'a, T>>,
}

/// Number of nodes in the tree that unfolds from the nodes of `nodes`: a
/// node is counted once for every path that reaches it.
pub open spec fn forest_size<'a, T>(nodes: Seq<&'a GraphNode<'a, T>>) -> nat
    decreases nodes,
{
    if nodes.len() == 0 {
        0
    } else {
        proof {
            assert(decreases_to!(nodes => nodes[0]));
            assert(decreases_to!(nodes[0] => nodes[0].children));
            assert(decreases_to!(nodes[0].children => nodes[0].children@));
        }
        1 + forest_size(nodes[0].children@) + forest_size(nodes.subrange(1, nodes.len() as int))
    }
}

/// The sizes of two forests add up.
pub proof fn lemma_forest_size_append<'a, T>(a: Seq<&'a GraphNode<'a, T>>, b: Seq<&'a GraphNode<'a, T>>)
    ensures
        forest_size(a + b) == forest_size(a) + forest_size(b),
    decreases a.len(),
{
    if a.len() == 0 {
        assert(a + b =~= b);
    } else {
        assert((a + b)[0] == a[0]);
        assert((a + b).subrange(1, (a + b).len() as int) =~= a.subrange(1, a.len() as int) + b);
        lemma_forest_size_append(a.subrange(1, a.len() as int), b);
    }
}

/// Taking the first node of a queue and putting its children at the back
/// makes the forest one node smaller.
pub proof fn lemma_forest_size_step<'a, T>(queue: Seq<&'a GraphNode<'a, T>>)
    requires
        queue.len() > 0,
    ensures
        forest_size(queue.subrange(1, queue.len() as int) + queue[0].children@) + 1 == forest_size(queue),
{
    lemma_forest_size_append(queue.subrange(1, queue.len() as int), queue[0].children@);
}

/// The nodes reached by a breadth-first walk that starts from `queue`,
/// in the order the walk visits them.
pub open spec fn bfs_nodes<'a, T>(queue: Seq<&'a GraphNode<'a, T>>) -> Seq<&'a GraphNode<'a, T>>
    decreases forest_size(queue),
{
    if queue.len() == 0 {
        Seq::empty()
    } else {
        proof {
            lemma_forest_size_step(queue);
        }
        seq![queue[0]] + bfs_nodes(queue.subrange(1, queue.len() as int) + queue[0].children@)
    }
}

/// The first of `nodes` whose value equals `value`.
pub open spec fn first_match<'a, T: PartialEq>(nodes: Seq<&'a GraphNode<'a, T>>, value: T) -> Option<
    &'a GraphNode<'a, T>,
>
    decreases nodes.len(),
{
    if nodes.len() == 0 {
        None
    } else if nodes[0].value.eq_spec(&value) {
        Some(nodes[0])
    } else {
        first_match(nodes.subrange(1, nodes.len() as int), value)
    }
}

/// The values of `nodes`, in order.
pub open spec fn values_of<'a, T>(nodes: Seq<&'a GraphNode<'a, T>>) -> Seq<&'a T> {
    nodes.map_values(|n: &'a GraphNode<'a, T>| &n.value)
}

impl<'a, T> GraphNode<'a, T> where T: PartialEq {
    /// Adds `node` as the last child of this node.
    pub fn add_node(&mut self, node: &'a GraphNode<T>)
        ensures
            final(self).value == old(self).value,
            final(self).children@ == old(self).children@.push(node),
    {
        self.children.push(node)
    }

    /// Finds the first node, in breadth-first order from this node, whose
    /// value equals `value`.
    pub fn search(&self, value: T) -> (found: Option<&GraphNode<T>>)
        ensures
            T::obeys_eq_spec() ==> found == first_match(bfs_nodes(seq![self]), value),
            T::obeys_eq_spec() && self.value.eq_spec(&value) ==> found == Some(self),
            T::obeys_eq_spec() ==> match found {
                Some(n) => n.value.eq_spec(&value),
                None => true,
            },
    {
        proof {
            let walk = bfs_nodes(seq![self]);
            lemma_walk_starts_at_root(self);
            lemma_first_match_consistent(walk, value);
            if self.value.eq_spec(&value) {
                lemma_first_match_finds_first(walk, value, 0);
            }
        }
        let mut queue: VecDeque<&GraphNode<T>> = VecDeque::new();
        queue.push_back(self);
        assert(queue@ =~= seq![self]);
        while queue.len() > 0
            invariant
                self.value.eq_spec(&value) ==> first_match(bfs_nodes(seq![self]), value) == Some(self),
                match first_match(bfs_nodes(seq![self]), value) {
                    Some(n) => n.value.eq_spec(&value),
                    None => true,
                },
                T::obeys_eq_spec() ==> first_match(bfs_nodes(seq![self]), value) == first_match(
                    bfs_nodes(queue@),
                    value,
                ),
            decreases forest_size(queue@),
        {
            let ghost q = queue@;
            let node = queue.pop_front().unwrap();
            if node.value == value {
                return Some(node);
            }
            let mut i: usize = 0;
            while i < node.children.len()
                invariant
                    q.len() > 0,
                    node == q[0],
                    i <= node.children@.len(),
                    queue@ == q.subrange(1, q.len() as int) + node.children@.subrange(0, i as int),
                decreases node.children@.len() - i,
            {
                queue.push_back(node.children[i]);
                i = i + 1;
                assert(queue@ =~= q.subrange(1, q.len() as int) + node.children@.subrange(0, i as int));
            }
            assert(node.children@.subrange(0, i as int) =~= node.children@);
            proof {
                lemma_forest_size_step(q);
                let rest = q.subrange(1, q.len() as int) + q[0].children@;
                let walk = seq![q[0]] + bfs_nodes(rest);
                assert(bfs_nodes(q) == walk);
                assert(walk[0] == q[0]);
                assert(walk.subrange(1, walk.len() as int) =~= bfs_nodes(rest));
            }
        }
        assert(bfs_nodes(queue@) =~= Seq::<&GraphNode<T>>::empty());
        None
    }

    /// Lists the values of the nodes reached from this node, in
    /// breadth-first order.
    pub fn top_sort(&self) -> (res: Vec<&T>)
        ensures
            res@ == values_of(bfs_nodes(seq![self])),
            res@.len() == forest_size(seq![self]),
            res@[0] == &self.value,
    {
        proof {
            lemma_walk_len(seq![self]);
            lemma_walk_starts_at_root(self);
            lemma_values_of(bfs_nodes(seq![self]));
        }
        let mut res: Vec<&T> = Vec::new();
        let mut queue: VecDeque<&GraphNode<T>> = VecDeque::new();
        queue.push_back(self);
        assert(queue@ =~= seq![self]);
        assert(res@ + values_of(bfs_nodes(queue@)) =~= values_of(bfs_nodes(seq![self])));
        while queue.len() > 0
            invariant
                res@ + values_of(bfs_nodes(queue@)) == values_of(bfs_nodes(seq![self])),
                values_of(bfs_nodes(seq![self])).len() == forest_size(seq![self]),
                values_of(bfs_nodes(seq![self]))[0] == &self.value,
            decreases forest_size(queue@),
        {
            let ghost q = queue@;
            let ghost r = res@;
            let node = queue.pop_front().unwrap();
            res.push(&node.value);
            let mut i: usize = 0;
            while i < node.children.len()
                invariant
                    q.len() > 0,
                    node == q[0],
                    i <= node.children@.len(),
                    queue@ == q.subrange(1, q.len() as int) + node.children@.subrange(0, i as int),
                decreases node.children@.len() - i,
            {
                queue.push_back(node.children[i]);
                i = i + 1;
                assert(queue@ =~= q.subrange(1, q.len() as int) + node.children@.subrange(0, i as int));
            }
            assert(node.children@.subrange(0, i as int) =~= node.children@);
            proof {
                lemma_forest_size_step(q);
                let rest = q.subrange(1, q.len() as int) + q[0].children@;
                assert(bfs_nodes(q) == seq![q[0]] + bfs_nodes(rest));
                assert(values_of(seq![q[0]] + bfs_nodes(rest)) =~= seq![&q[0].value] + values_of(
                    bfs_nodes(rest),
                ));
                assert(res@ + values_of(bfs_nodes(queue@)) =~= r + values_of(bfs_nodes(q)));
            }
        }
        assert(bfs_nodes(queue@) =~= Seq::<&GraphNode<T>>::empty());
        assert(res@ =~= res@ + values_of(bfs_nodes(queue@)));
        res
    }
}

/// What `search` finds is consistent with the walk that `top_sort` lists:
/// a found node is one of the walked nodes and its value equals the value
/// searched for, and nothing is found only when no walked node has that
/// value.
pub proof fn lemma_first_match_consistent<'a, T: PartialEq>(
    nodes: Seq<&'a GraphNode<'a, T>>,
    value: T,
)
    ensures
        first_match(nodes, value) matches Some(n) ==> nodes.contains(n) && n.value.eq_spec(&value),
        first_match(nodes, value) is None ==> forall|i: int|
            0 <= i < nodes.len() ==> !(#[trigger] nodes[i]).value.eq_spec(&value),
    decreases nodes.len(),
{
    if nodes.len() > 0 && !nodes[0].value.eq_spec(&value) {
        let rest = nodes.subrange(1, nodes.len() as int);
        lemma_first_match_consistent(rest, value);
        if let Some(n) = first_match(rest, value) {
            let j = choose|j: int| 0 <= j < rest.len() && rest[j] == n;
            assert(nodes[j + 1] == n);
        }
        assert forall|i: int| 0 <= i < nodes.len() && first_match(nodes, value) is None implies !(
        #[trigger] nodes[i]).value.eq_spec(&value) by {
            if i > 0 {
                assert(nodes[i] == rest[i - 1]);
            }
        }
    } else if nodes.len() > 0 {
        assert(nodes[0] == nodes[0]);
    }
}

/// The walk from a node visits that node first.
pub proof fn lemma_walk_starts_at_root<'a, T>(root: &'a GraphNode<'a, T>)
    ensures
        bfs_nodes(seq![root]).len() > 0,
        bfs_nodes(seq![root])[0] == root,
        values_of(bfs_nodes(seq![root]))[0] == &root.value,
{
    lemma_forest_size_step(seq![root]);
}

/// The children of the nodes of `nodes`, node after node, each node's
/// children in order.
pub open spec fn children_of<'a, T>(nodes: Seq<&'a GraphNode<'a, T>>) -> Seq<&'a GraphNode<'a, T>>
    decreases nodes.len(),
{
    if nodes.len() == 0 {
        Seq::empty()
    } else {
        nodes[0].children@ + children_of(nodes.subrange(1, nodes.len() as int))
    }
}

/// The children of a single node are its own children, and the children of
/// two runs of nodes are those of the first run followed by those of the
/// second.
pub proof fn lemma_children_of<'a, T>(
    n: &'a GraphNode<'a, T>,
    a: Seq<&'a GraphNode<'a, T>>,
    b: Seq<&'a GraphNode<'a, T>>,
)
    ensures
        children_of(seq![n]) == n.children@,
        children_of(a + b) == children_of(a) + children_of(b),
    decreases a.len(),
{
    assert(seq![n].subrange(1, 1) =~= Seq::<&GraphNode<T>>::empty());
    assert(children_of(seq![n].subrange(1, 1)) =~= Seq::<&GraphNode<T>>::empty());
    assert(children_of(seq![n]) =~= n.children@);
    if a.len() == 0 {
        assert(a + b =~= b);
        assert(children_of(a) + children_of(b) =~= children_of(b));
    } else {
        let a2 = a.subrange(1, a.len() as int);
        lemma_children_of(n, a2, b);
        assert((a + b)[0] == a[0]);
        assert((a + b).subrange(1, (a + b).len() as int) =~= a2 + b);
        assert(children_of(a + b) =~= children_of(a) + children_of(b));
    }
}

/// A single node counts once, plus the trees of its children.
pub proof fn lemma_forest_size_single<'a, T>(n: &'a GraphNode<'a, T>)
    ensures
        forest_size(seq![n]) == 1 + forest_size(n.children@),
{
    assert(seq![n].subrange(1, 1) =~= Seq::<&GraphNode<T>>::empty());
    assert(forest_size(seq![n].subrange(1, 1)) == 0);
}

/// The walk lists one node for every path: it is exactly as long as the
/// unfolded tree is large.
pub proof fn lemma_walk_len<'a, T>(queue: Seq<&'a GraphNode<'a, T>>)
    ensures
        bfs_nodes(queue).len() == forest_size(queue),
    decreases forest_size(queue),
{
    if queue.len() > 0 {
        lemma_forest_size_step(queue);
        lemma_walk_len(queue.subrange(1, queue.len() as int) + queue[0].children@);
    }
}

/// Breadth-first order, level by level: the walk from `a` followed by `b`
/// lists the nodes of `a` first, in order, and then walks from `b` followed
/// by all the children of `a`.
pub proof fn lemma_walk_level_order<'a, T>(a: Seq<&'a GraphNode<'a, T>>, b: Seq<&'a GraphNode<'a, T>>)
    ensures
        bfs_nodes(a + b) == a + bfs_nodes(b + children_of(a)),
    decreases a.len(),
{
    if a.len() == 0 {
        assert(a + b =~= b);
        assert(b + children_of(a) =~= b);
        assert(a + bfs_nodes(b) =~= bfs_nodes(b));
    } else {
        let x = a[0];
        let a2 = a.subrange(1, a.len() as int);
        let ab = a + b;
        assert(ab[0] == x);
        assert(ab.subrange(1, ab.len() as int) + x.children@ =~= a2 + (b + x.children@));
        lemma_walk_level_order(a2, b + x.children@);
        assert(children_of(a) == x.children@ + children_of(a2));
        assert(b + x.children@ + children_of(a2) =~= b + children_of(a));
        assert(seq![x] + (a2 + bfs_nodes(b + children_of(a))) =~= a + bfs_nodes(b + children_of(a)));
    }
}

/// The walk from a node lists the node, then walks from all its children:
/// no child is left out and none is added.
pub proof fn lemma_walk_from_node<'a, T>(n: &'a GraphNode<'a, T>)
    ensures
        bfs_nodes(seq![n]) == seq![n] + bfs_nodes(n.children@),
{
    lemma_walk_level_order(seq![n], Seq::empty());
    lemma_children_of(n, Seq::empty(), Seq::empty());
    assert(seq![n] + Seq::<&GraphNode<T>>::empty() =~= seq![n]);
    assert(Seq::<&GraphNode<T>>::empty() + children_of(seq![n]) =~= n.children@);
}

/// The values of a run of nodes are the nodes' values, one for one.
pub proof fn lemma_values_of<'a, T>(nodes: Seq<&'a GraphNode<'a, T>>)
    ensures
        values_of(nodes).len() == nodes.len(),
        forall|i: int| 0 <= i < nodes.len() ==> #[trigger] values_of(nodes)[i] == &nodes[i].value,
{
}

/// The search answers the first matching node of a run: when node `i`
/// matches and none before it does, that node is the answer.
pub proof fn lemma_first_match_finds_first<'a, T: PartialEq>(
    nodes: Seq<&'a GraphNode<'a, T>>,
    value: T,
    i: int,
)
    requires
        0 <= i < nodes.len(),
        nodes[i].value.eq_spec(&value),
        forall|j: int| 0 <= j < i ==> !(#[trigger] nodes[j]).value.eq_spec(&value),
    ensures
        first_match(nodes, value) == Some(nodes[i]),
    decreases i,
{
    if i > 0 {
        let rest = nodes.subrange(1, nodes.len() as int);
        assert(!nodes[0].value.eq_spec(&value));
        assert forall|j: int| 0 <= j < i - 1 implies !(#[trigger] rest[j]).value.eq_spec(&value) by {
            assert(rest[j] == nodes[j + 1]);
        }
        lemma_first_match_finds_first(rest, value, i - 1);
    }
}

/// When no node of a run matches, the search answers nothing.
pub proof fn lemma_first_match_none<'a, T: PartialEq>(nodes: Seq<&'a GraphNode<'a, T>>, value: T)
    requires
        forall|j: int| 0 <= j < nodes.len() ==> !(#[trigger] nodes[j]).value.eq_spec(&value),
    ensures
        first_match(nodes, value) is None,
    decreases nodes.len(),
{
    if nodes.len() > 0 {
        let rest = nodes.subrange(1, nodes.len() as int);
        assert(!nodes[0].value.eq_spec(&value));
        assert forall|j: int| 0 <= j < rest.len() implies !(#[trigger] rest[j]).value.eq_spec(&value) by {
            assert(rest[j] == nodes[j + 1]);
        }
        lemma_first_match_none(rest, value);
    }
}

} // verus!
