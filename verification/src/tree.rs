//! The object tree: a handle with its `ObjectInfo` and optional
//! children, and the breadth-first walk that pairs every node with its
//! slash-joined path.

use vstd::prelude::*;
use crate::datasets::{ObjectInfo, ObjectInfoView};

verus! {

broadcast use vstd::seq::axiom_seq_index_decreases, vstd::seq::axiom_seq_subrange_decreases, vstd::std_specs::vec::axiom_vec_index_decreases, vstd::std_specs::vec::axiom_vec_decreases_to_view;

/// A node of the object tree.
#[derive(Debug)]
pub struct ObjectTree {
    pub handle: u32,
    pub info: ObjectInfo,
    pub children: Option<Vec<ObjectTree>>,
}

/// The mathematical value of an `ObjectTree`.
pub struct ObjectTreeView {
    pub handle: u32,
    pub info: ObjectInfoView,
    pub children: Option<Seq<ObjectTreeView>>,
}

/// The mathematical value of a node, children included.
pub open spec fn view_tree(t: ObjectTree) -> ObjectTreeView
    decreases t,
{
    ObjectTreeView {
        handle: t.handle,
        info: t.info@,
        children: match t.children {
            Some(cs) => Some(view_forest(cs@)),
            None => None,
        },
    }
}

/// The mathematical values of a sequence of nodes.
pub open spec fn view_forest(cs: Seq<ObjectTree>) -> Seq<ObjectTreeView>
    decreases cs,
{
    if cs.len() == 0 {
        Seq::empty()
    } else {
        seq![view_tree(cs[0])] + view_forest(cs.drop_first())
    }
}

/// A forest's view has one entry per node, in order.
pub proof fn lemma_view_forest(cs: Seq<ObjectTree>)
    ensures
        view_forest(cs).len() == cs.len(),
        forall|i: int| 0 <= i < cs.len() ==> #[trigger] view_forest(cs)[i] == view_tree(cs[i]),
    decreases cs,
{
    if cs.len() > 0 {
        lemma_view_forest(cs.drop_first());
        assert forall|i: int| 0 <= i < cs.len() implies #[trigger] view_forest(cs)[i] == view_tree(
            cs[i],
        ) by {
            if i > 0 {
                assert(view_forest(cs.drop_first())[i - 1] == view_tree(cs.drop_first()[i - 1]));
                assert(cs.drop_first()[i - 1] == cs[i]);
            }
        }
    }
}

impl View for ObjectTree {
    type V = ObjectTreeView;

    open spec fn view(&self) -> ObjectTreeView {
        view_tree(*self)
    }
}

/// How many nodes a tree holds.
pub open spec fn tree_size(t: ObjectTreeView) -> nat
    decreases t,
{
    match t.children {
        Some(cs) => 1 + forest_size(cs),
        None => 1,
    }
}

/// How many nodes a forest holds.
pub open spec fn forest_size(ts: Seq<ObjectTreeView>) -> nat
    decreases ts,
{
    if ts.len() == 0 {
        0nat
    } else {
        tree_size(ts[0]) + forest_size(ts.drop_first())
    }
}

/// A tree in a forest holds no more nodes than the forest.
pub proof fn lemma_forest_size_element(ts: Seq<ObjectTreeView>, i: int)
    requires
        0 <= i < ts.len(),
    ensures
        tree_size(ts[i]) <= forest_size(ts),
    decreases i,
{
    if i > 0 {
        lemma_forest_size_element(ts.drop_first(), i - 1);
        assert(ts.drop_first()[i - 1] == ts[i]);
    }
}

/// How many nodes the trees of a traversal queue hold together.
pub open spec fn queue_size(q: Seq<(Seq<char>, ObjectTreeView)>) -> nat
    decreases q,
{
    if q.len() == 0 {
        0nat
    } else {
        tree_size(q[0].1) + queue_size(q.drop_first())
    }
}

pub proof fn lemma_queue_size_concat(a: Seq<(Seq<char>, ObjectTreeView)>, b: Seq<
    (Seq<char>, ObjectTreeView),
>)
    ensures
        queue_size(a + b) == queue_size(a) + queue_size(b),
    decreases a,
{
    if a.len() == 0 {
        assert(a + b =~= b);
    } else {
        assert((a + b)[0] == a[0]);
        assert((a + b).drop_first() =~= a.drop_first() + b);
        lemma_queue_size_concat(a.drop_first(), b);
    }
}

/// The path of a node under a prefix: the prefix, a separating slash
/// when the prefix is not empty, and the node's filename.
pub open spec fn spec_path(prefix: Seq<char>, t: ObjectTreeView) -> Seq<char> {
    prefix + (if prefix.len() == 0 {
        Seq::<char>::empty()
    } else {
        "/"@
    }) + t.info.Filename
}

/// The queue entries a node's children contribute, each under the
/// node's own path.
pub open spec fn child_entries(path: Seq<char>, t: ObjectTreeView) -> Seq<
    (Seq<char>, ObjectTreeView),
> {
    match t.children {
        Some(cs) => Seq::new(cs.len(), |i: int| (path, cs[i])),
        None => Seq::empty(),
    }
}

pub proof fn lemma_child_entries_size(path: Seq<char>, cs: Seq<ObjectTreeView>)
    ensures
        queue_size(Seq::new(cs.len(), |i: int| (path, cs[i]))) == forest_size(cs),
    decreases cs,
{
    let q = Seq::new(cs.len(), |i: int| (path, cs[i]));
    if cs.len() == 0 {
    } else {
        assert(q[0] == (path, cs[0]));
        assert(q.drop_first() =~= Seq::new(
            cs.drop_first().len(),
            |i: int| (path, cs.drop_first()[i]),
        ));
        lemma_child_entries_size(path, cs.drop_first());
    }
}

/// The mathematical value of a path-and-node list.
pub open spec fn entries_view(v: Seq<(String, ObjectTree)>) -> Seq<(Seq<char>, ObjectTreeView)> {
    Seq::new(v.len(), |i: int| (v[i].0@, v[i].1@))
}

/// The breadth-first traversal: the head of the queue is emitted with
/// its path, its children join the tail of the queue under that path,
/// and the walk continues until the queue is empty.
pub open spec fn spec_walk(queue: Seq<(Seq<char>, ObjectTreeView)>) -> Seq<
    (Seq<char>, ObjectTreeView),
>
    decreases queue_size(queue), queue.len(),
    via spec_walk_decreases
{
    if queue.len() == 0 {
        Seq::empty()
    } else {
        let prefix = queue[0].0;
        let t = queue[0].1;
        let path = spec_path(prefix, t);
        seq![(path, t)] + spec_walk(queue.drop_first() + child_entries(path, t))
    }
}

#[via_fn]
proof fn spec_walk_decreases(queue: Seq<(Seq<char>, ObjectTreeView)>) {
    if queue.len() > 0 {
        let t = queue[0].1;
        let path = spec_path(queue[0].0, t);
        assert(queue =~= seq![queue[0]] + queue.drop_first());
        lemma_queue_size_concat(seq![queue[0]], queue.drop_first());
        assert(seq![queue[0]].drop_first() =~= Seq::<(Seq<char>, ObjectTreeView)>::empty());
        assert(queue_size(seq![queue[0]]) == tree_size(t));
        lemma_queue_size_concat(queue.drop_first(), child_entries(path, t));
        match t.children {
            Some(cs) => {
                lemma_child_entries_size(path, cs);
            },
            None => {
                assert(child_entries(path, t) =~= Seq::<(Seq<char>, ObjectTreeView)>::empty());
            },
        }
    }
}

impl Clone for ObjectTree {
    /// A deep copy with the same mathematical value.
    #[verifier::loop_isolation(false)]
    fn clone(&self) -> (r: ObjectTree)
        ensures
            r@ == self@,
        decreases tree_size(view_tree(*self)),
    {
        let children = match &self.children {
            Some(cs) => {
                let mut out: Vec<ObjectTree> = Vec::new();
                let mut k: usize = 0;
                proof {
                    lemma_view_forest(cs@);
                }
                while k < cs.len()
                    invariant
                        k <= cs@.len(),
                        out@.len() == k,
                        forall|i: int| 0 <= i < k ==> #[trigger] view_tree(out@[i]) == view_tree(
                            cs@[i],
                        ),
                    decreases cs@.len() - k,
                {
                    proof {
                        lemma_forest_size_element(view_forest(cs@), k as int);
                        assert(view_forest(cs@)[k as int] == view_tree(cs@[k as int]));
                        assert(view_tree(*self).children == Some(view_forest(cs@)));
                        assert(tree_size(view_tree(*self)) == 1 + forest_size(view_forest(cs@)));
                    }
                    let c = cs[k].clone();
                    out.push(c);
                    k = k + 1;
                }
                proof {
                    lemma_view_forest(out@);
                    assert(view_forest(out@) =~= view_forest(cs@));
                }
                Some(out)
            },
            None => None,
        };
        ObjectTree { handle: self.handle, info: self.info.clone(), children }
    }
}

impl ObjectTree {
    /// Walks the tree breadth first, pairing every node with its path:
    /// the root under its own filename, each child under its parent's
    /// path joined with a slash.
    #[verifier::loop_isolation(false)]
    pub fn walk(&self) -> (r: Vec<(String, ObjectTree)>)
        ensures
            entries_view(r@) == spec_walk(seq![(Seq::<char>::empty(), self@)]),
    {
        let mut input: Vec<(String, ObjectTree)> = Vec::new();
        input.push((String::new(), self.clone()));
        let mut output: Vec<(String, ObjectTree)> = Vec::new();
        let ghost start = seq![(Seq::<char>::empty(), self@)];
        proof {
            assert(entries_view(input@) =~= start);
            assert(entries_view(output@) =~= Seq::<(Seq<char>, ObjectTreeView)>::empty());
        }
        while input.len() > 0
            invariant
                spec_walk(start) == entries_view(output@) + spec_walk(entries_view(input@)),
            decreases queue_size(entries_view(input@)),
        {
            let ghost in0 = entries_view(input@);
            let ghost out0 = entries_view(output@);
            let (prefix, item) = input.remove(0);
            let ghost iv = item@;
            proof {
                assert(in0[0] == (prefix@, iv));
                assert(entries_view(input@) =~= in0.drop_first());
            }
            let mut path = prefix.clone();
            if !prefix.as_str().is_empty() {
                path.append("/");
            }
            path.append(item.info.Filename.as_str());
            proof {
                assert(path@ =~= spec_path(prefix@, iv));
            }
            let entry_tree = item.clone();
            let path_out = path.clone();
            output.push((path_out, entry_tree));
            proof {
                assert(entries_view(output@) =~= out0.push((path@, iv)));
            }
            let ghost mid = entries_view(input@);
            let ghost entries = child_entries(path@, iv);
            match item.children {
                Some(mut children) => {
                    proof {
                        lemma_view_forest(children@);
                    }
                    let ghost cs0 = view_forest(children@);
                    let ghost mut k: int = 0;
                    while children.len() > 0
                        invariant
                            0 <= k <= cs0.len(),
                            k == cs0.len() - children@.len(),
                            view_forest(children@) == cs0.skip(k as int),
                            entries_view(input@) == mid + Seq::new(
                                k as nat,
                                |i: int| (path@, cs0[i]),
                            ),
                        decreases children@.len(),
                    {
                        let ghost oldc = children@;
                        proof {
                            lemma_view_forest(oldc);
                        }
                        let c = children.remove(0);
                        let ghost cv = view_tree(c);
                        let p = path.clone();
                        proof {
                            assert(view_forest(oldc) == cs0.skip(k as int));
                            assert(view_forest(oldc)[0] == view_tree(oldc[0]));
                            assert(cv == cs0[k as int]);
                            assert(children@ =~= oldc.drop_first());
                            lemma_view_forest(children@);
                            assert(view_forest(children@) =~= cs0.skip(k + 1)) by {
                                assert forall|i: int|
                                    0 <= i < children@.len() implies #[trigger] view_forest(
                                    children@,
                                )[i] == cs0.skip(k + 1)[i] by {
                                    assert(view_forest(children@)[i] == view_tree(children@[i]));
                                    assert(children@[i] == oldc[i + 1]);
                                    assert(view_forest(oldc)[i + 1] == view_tree(oldc[i + 1]));
                                    assert(cs0.skip(k as int)[i + 1] == cs0[k + 1 + i]);
                                }
                            }
                        }
                        let ghost inb = input@;
                        input.push((p, c));
                        proof {
                            assert(entries_view(input@) =~= mid + Seq::new(
                                (k + 1) as nat,
                                |i: int| (path@, cs0[i]),
                            )) by {
                                assert(input@ =~= inb.push((p, c)));
                                assert forall|i: int| 0 <= i < input@.len() implies #[trigger] entries_view(
                                    input@,
                                )[i] == (mid + Seq::new((k + 1) as nat, |i2: int| (path@, cs0[i2])))[i]
                                    by {
                                    if i < inb.len() {
                                        assert(input@[i] == inb[i]);
                                        assert(entries_view(inb)[i] == (inb[i].0@, inb[i].1@));
                                    } else {
                                        assert(input@[i] == (p, c));
                                        assert(p@ == path@);
                                        assert((p, c).1@ == cv);
                                    }
                                }
                            }
                            k = k + 1;
                        }
                    }
                    proof {
                        assert(k == cs0.len());
                        assert(iv.children matches Some(cs) && cs == cs0);
                        assert(entries =~= Seq::new(cs0.len(), |i: int| (path@, cs0[i])));
                        assert(entries_view(input@) == mid + entries);
                    }
                },
                None => {
                    proof {
                        assert(entries =~= Seq::<(Seq<char>, ObjectTreeView)>::empty());
                        assert(entries_view(input@) =~= mid + entries);
                    }
                },
            }
            proof {
                assert(spec_walk(in0) == seq![(path@, iv)] + spec_walk(
                    in0.drop_first() + entries,
                ));
                assert(out0 + spec_walk(in0) =~= (out0.push((path@, iv))) + spec_walk(
                    in0.drop_first() + entries,
                ));
                assert(mid == in0.drop_first());
                assert(in0 =~= seq![in0[0]] + in0.drop_first());
                lemma_queue_size_concat(seq![in0[0]], in0.drop_first());
                assert(seq![in0[0]].drop_first() =~= Seq::<(Seq<char>, ObjectTreeView)>::empty());
                assert(queue_size(seq![in0[0]]) == tree_size(iv));
                lemma_queue_size_concat(mid, entries);
                match iv.children {
                    Some(cs) => {
                        lemma_child_entries_size(path@, cs);
                    },
                    None => {
                        assert(entries =~= Seq::<(Seq<char>, ObjectTreeView)>::empty());
                    },
                }
                assert(queue_size(entries_view(input@)) < queue_size(in0));
            }
        }
        proof {
            assert(entries_view(input@).len() == 0);
            assert(spec_walk(entries_view(input@)) =~= Seq::<(Seq<char>, ObjectTreeView)>::empty());
            assert(spec_walk(start) =~= entries_view(output@));
        }
        output
    }
}

} // verus!
