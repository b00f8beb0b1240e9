use vstd::prelude::*;
use crate::celestia::cosm::Cosm;
use crate::celestia::definitions::lemma_child_added_keeps_at;
use crate::celestia::setup::{planted, Candidate};
use crate::celestia::tree::{lemma_seek_finds, FrameTree};
use crate::scalar::Scalar;

verus! {

impl FrameTree {
    /// Every node of this subtree, which sits at `at`, records as its frame
    /// path the path that leads to it from the root.
    pub open spec fn placed(self, at: Seq<usize>) -> bool {
        forall|q: Seq<usize>|
            #![trigger self.node_at(q)]
            self.node_at(q) is Some ==> self.node_at(q)->0.frame.frame_slots()@ == at + q
    }
}

impl Cosm {
    /// The frames are where they say they are, and the table of bodies leads
    /// to frames that exist.
    pub open spec fn wf(self) -> bool {
        &&& self.frame_root.placed(Seq::empty())
        &&& forall|i: int|
            0 <= i < self.ephem2frame_map@.len() ==> self.frame_root.node_at(
                (#[trigger] self.ephem2frame_map@[i]).frame@,
            ) is Some
    }
}

/// After a child was added, a node of the tree is either a node that was
/// there, unchanged, or the child.
pub proof fn lemma_child_added_nodes(
    before: FrameTree,
    after: FrameTree,
    path: Seq<usize>,
    child: FrameTree,
    q: Seq<usize>,
)
    requires
        before.child_added(after, path, child),
        before.node_at(path) is Some,
        child.children@.len() == 0,
        after.node_at(q) is Some,
    ensures
        FrameTree::same_node(before.node_at(q), after.node_at(q)) || (q == path.push(
            before.node_at(path)->0.children@.len() as usize,
        ) && after.node_at(q) == Some(child)),
    decreases q.len(),
{
    let index = before.node_at(path)->0.children@.len() as usize;
    if q.len() > 0 {
        let i = q[0] as int;
        if path.len() == 0 {
            assert(before.children@.len() == before.children.len());
            if i < before.children@.len() {
                assert(after.children@[i] == before.children@[i]);
            } else {
                assert(after.children@.len() == before.children@.len() + 1);
                assert(i < after.children@.len());
                assert(i == before.children@.len());
                assert(after.children@[i] == child);
                assert(after.node_at(q) == child.node_at(q.drop_first()));
                if q.drop_first().len() > 0 {
                    assert(child.node_at(q.drop_first()) is None);
                }
                assert(q.len() == 1);
                assert(before.node_at(path) == Some(before));
                assert(index == before.children@.len());
                assert(path.push(index).len() == 1);
                assert(q[0] == path.push(index)[0]);
                assert(q =~= path.push(index));
            }
        } else {
            if q[0] == path[0] {
                lemma_child_added_nodes(
                    before.children@[i],
                    after.children@[i],
                    path.drop_first(),
                    child,
                    q.drop_first(),
                );
                assert(before.node_at(path) == before.children@[i].node_at(path.drop_first()));
                let rest = path.drop_first().push(index);
                if q.drop_first() == rest {
                    assert(q.len() == path.len() + 1);
                    assert forall|j: int| 0 <= j < q.len() implies q[j] == path.push(index)[j] by {
                        if j > 0 {
                            assert(q[j] == q.drop_first()[j - 1]);
                            assert(rest[j - 1] == path.push(index)[j]);
                        }
                    }
                    assert(q =~= path.push(index));
                }
            } else {
                assert(after.children@[i] == before.children@[i]);
            }
        }
    }
}

/// A child that records its place keeps the tree in order.
pub proof fn lemma_child_added_placed(
    before: FrameTree,
    after: FrameTree,
    path: Seq<usize>,
    child: FrameTree,
)
    requires
        before.placed(Seq::empty()),
        before.child_added(after, path, child),
        before.node_at(path) is Some,
        child.children@.len() == 0,
        child.frame.frame_slots()@ == path.push(before.node_at(path)->0.children@.len() as usize),
    ensures
        after.placed(Seq::empty()),
{
    assert forall|q: Seq<usize>| after.node_at(q) is Some implies (#[trigger] after.node_at(
        q,
    ))->0.frame.frame_slots()@ == Seq::<usize>::empty() + q by {
        lemma_child_added_nodes(before, after, path, child, q);
        assert(Seq::<usize>::empty() + q =~= q);
        if FrameTree::same_node(before.node_at(q), after.node_at(q)) {
            assert(before.node_at(q)->0.frame.frame_slots()@ == Seq::<usize>::empty() + q);
        }
    }
}

/// Replacing a gravitational parameter moves no node: every node keeps its
/// name, its rotation and the number of its children, and every node but the
/// one at `path` keeps its frame.
pub proof fn lemma_gm_replaced_nodes(
    before: FrameTree,
    after: FrameTree,
    path: Seq<usize>,
    new_gm: Scalar,
    q: Seq<usize>,
)
    requires
        before.gm_replaced(after, path, new_gm),
    ensures
        before.node_at(q) is Some <==> after.node_at(q) is Some,
        before.node_at(q) is Some ==> {
            &&& after.node_at(q)->0.name == before.node_at(q)->0.name
            &&& after.node_at(q)->0.parent_rotation == before.node_at(q)->0.parent_rotation
            &&& after.node_at(q)->0.children@.len() == before.node_at(q)->0.children@.len()
            &&& after.node_at(q)->0.frame == if q == path {
                before.node_at(q)->0.frame.with_gm(new_gm)
            } else {
                before.node_at(q)->0.frame
            }
        },
    decreases q.len(),
{
    if q.len() > 0 {
        let i = q[0] as int;
        if path.len() == 0 {
            assert(after.children@ == before.children@);
        } else if path[0] < before.children@.len() {
            if q[0] == path[0] {
                lemma_gm_replaced_nodes(
                    before.children@[i],
                    after.children@[i],
                    path.drop_first(),
                    new_gm,
                    q.drop_first(),
                );
                if q.drop_first() == path.drop_first() {
                    assert(q =~= seq![q[0]] + q.drop_first());
                    assert(path =~= seq![path[0]] + path.drop_first());
                }
            } else if i < before.children@.len() {
                assert(after.children@[i] == before.children@[i]);
            }
        }
    } else if path.len() == 0 {
        assert(q =~= path);
    }
}

/// Replacing a gravitational parameter changes what no search finds.
pub proof fn lemma_gm_replaced_seek(
    before: FrameTree,
    after: FrameTree,
    path: Seq<usize>,
    new_gm: Scalar,
    name: Seq<char>,
)
    requires
        before.gm_replaced(after, path, new_gm),
    ensures
        after.seek(name) == before.seek(name),
    decreases before,
{
    if before.name@ != name {
        if path.len() == 0 {
            assert(after.children@ == before.children@);
        } else if path[0] < before.children@.len() {
            lemma_gm_replaced_seek_from(before, after, path, new_gm, name, 0);
        }
    }
}

/// Replacing a gravitational parameter in one of the subtrees changes what no
/// search through them finds.
pub proof fn lemma_gm_replaced_seek_from(
    before: FrameTree,
    after: FrameTree,
    path: Seq<usize>,
    new_gm: Scalar,
    name: Seq<char>,
    i: nat,
)
    requires
        path.len() > 0,
        path[0] < before.children@.len(),
        before.gm_replaced(after, path, new_gm),
    ensures
        FrameTree::seek_from(after.children@, name, i) == FrameTree::seek_from(
            before.children@,
            name,
            i,
        ),
    decreases before, before.children@.len() - i,
{
    if i < before.children@.len() {
        if i == path[0] {
            lemma_gm_replaced_seek(
                before.children@[i as int],
                after.children@[i as int],
                path.drop_first(),
                new_gm,
                name,
            );
        } else {
            assert(after.children@[i as int] == before.children@[i as int]);
        }
        lemma_gm_replaced_seek_from(before, after, path, new_gm, name, i + 1);
    }
}

/// The node whose gravitational parameter was replaced has the new one, and
/// is otherwise what it was.
pub proof fn lemma_gm_replaced_at(
    before: FrameTree,
    after: FrameTree,
    path: Seq<usize>,
    new_gm: Scalar,
)
    requires
        before.gm_replaced(after, path, new_gm),
        before.node_at(path) is Some,
    ensures
        after.node_at(path) is Some,
        after.node_at(path)->0.frame == before.node_at(path)->0.frame.with_gm(new_gm),
    decreases path.len(),
{
    if path.len() > 0 {
        lemma_gm_replaced_at(
            before.children@[path[0] as int],
            after.children@[path[0] as int],
            path.drop_first(),
            new_gm,
        );
    }
}

/// In frames that are in order, replacing the gravitational parameter of the
/// frame that a name asks for gives that name a frame with the new parameter,
/// and leaves nothing else of it changed.
pub proof fn lemma_gm_replaced_named(cosm: Cosm, after: Cosm, name: Seq<char>, new_gm: Scalar)
    requires
        cosm.wf(),
        cosm.spec_frame(name) is Some,
        cosm.frame_root.gm_replaced(
            after.frame_root,
            cosm.spec_frame(name)->0.frame_slots()@,
            new_gm,
        ),
    ensures
        after.spec_frame(name) == Some(cosm.spec_frame(name)->0.with_gm(new_gm)),
{
    let stored = crate::celestia::cosm::fixed_frame_name(name);
    let frame = cosm.spec_frame(name)->0;
    lemma_seek_finds(cosm.frame_root, stored);
    let path = cosm.frame_root.seek(stored)->0;
    assert(Seq::<usize>::empty() + path =~= path);
    assert(frame.frame_slots()@ == path);
    lemma_gm_replaced_seek(cosm.frame_root, after.frame_root, path, new_gm, stored);
    lemma_gm_replaced_at(cosm.frame_root, after.frame_root, path, new_gm);
}

/// Replacing a gravitational parameter keeps the frames in order.
pub proof fn lemma_gm_replaced_wf(before: Cosm, after: Cosm, path: Seq<usize>, new_gm: Scalar)
    requires
        before.wf(),
        before.frame_root.gm_replaced(after.frame_root, path, new_gm),
        after.ephem2frame_map == before.ephem2frame_map,
    ensures
        after.wf(),
{
    assert forall|q: Seq<usize>| after.frame_root.node_at(q) is Some implies (
    #[trigger] after.frame_root.node_at(q))->0.frame.frame_slots()@ == Seq::<usize>::empty()
        + q by {
        lemma_gm_replaced_nodes(before.frame_root, after.frame_root, path, new_gm, q);
        assert(before.frame_root.node_at(q)->0.frame.frame_slots()@ == Seq::<usize>::empty() + q);
    }
    assert forall|i: int| 0 <= i < after.ephem2frame_map@.len() implies after.frame_root.node_at(
        (#[trigger] after.ephem2frame_map@[i]).frame@,
    ) is Some by {
        lemma_gm_replaced_nodes(
            before.frame_root,
            after.frame_root,
            path,
            new_gm,
            before.ephem2frame_map@[i].frame@,
        );
    }
}

/// A child that records its place, added to frames in order, leaves them in
/// order.
pub proof fn lemma_child_added_wf(before: Cosm, after: Cosm, path: Seq<usize>, child: FrameTree)
    requires
        before.wf(),
        before.frame_root.child_added(after.frame_root, path, child),
        before.frame_root.node_at(path) is Some,
        child.children@.len() == 0,
        child.frame.frame_slots()@ == path.push(
            before.frame_root.node_at(path)->0.children@.len() as usize,
        ),
        after.ephem2frame_map == before.ephem2frame_map,
    ensures
        after.wf(),
{
    lemma_child_added_placed(before.frame_root, after.frame_root, path, child);
    assert forall|i: int| 0 <= i < after.ephem2frame_map@.len() implies after.frame_root.node_at(
        (#[trigger] after.ephem2frame_map@[i]).frame@,
    ) is Some by {
        lemma_child_added_keeps_at(
            before.frame_root,
            after.frame_root,
            path,
            child,
            before.ephem2frame_map@[i].frame@,
        );
    }
}

/// The frames made for the bodies of a store, added to frames in order, leave
/// them in order.
pub proof fn lemma_grown_wf(before: Cosm, after: Cosm, bodies: Seq<Candidate>)
    requires
        before.wf(),
        after.grown_by(
            before,
            bodies,
            before.frame_root.children@.len(),
            before.ephem2frame_map@.len(),
        ),
    ensures
        after.wf(),
{
    let kept = before.frame_root.children@.len();
    let links = before.ephem2frame_map@.len();
    assert(kept == before.frame_root.children.len());
    assert(after.frame_root.children@.len() == after.frame_root.children.len());
    assert forall|q: Seq<usize>| after.frame_root.node_at(q) is Some implies (
    #[trigger] after.frame_root.node_at(q))->0.frame.frame_slots()@ == Seq::<usize>::empty()
        + q by {
        assert(Seq::<usize>::empty() + q =~= q);
        if q.len() == 0 {
            assert(before.frame_root.node_at(q) == Some(before.frame_root));
            assert(before.frame_root.frame.frame_slots()@ == Seq::<usize>::empty() + q);
        } else {
            let i = q[0] as int;
            if i < kept {
                assert(after.frame_root.children@[i] == before.frame_root.children@[i]);
                assert(before.frame_root.node_at(q) == after.frame_root.node_at(q));
                assert(before.frame_root.node_at(q)->0.frame.frame_slots()@ == Seq::<
                    usize,
                >::empty() + q);
            } else {
                let t = i - kept;
                let node = after.frame_root.children@[kept + t];
                assert(planted(node, bodies[t], (kept + t) as usize));
                if q.drop_first().len() > 0 {
                    assert(node.node_at(q.drop_first()) is None);
                }
                assert(q.drop_first().len() == 0);
                assert(node.node_at(q.drop_first()) == Some(node));
                assert(node.frame.frame_slots()@ =~= seq![(kept + t) as usize]);
                assert(q =~= seq![q[0]]);
            }
        }
    }
    assert forall|i: int| 0 <= i < after.ephem2frame_map@.len() implies after.frame_root.node_at(
        (#[trigger] after.ephem2frame_map@[i]).frame@,
    ) is Some by {
        let target = after.ephem2frame_map@[i].frame@;
        if i < links {
            assert(after.ephem2frame_map@[i] == before.ephem2frame_map@[i]);
            assert(before.frame_root.node_at(before.ephem2frame_map@[i].frame@) is Some);
            lemma_grown_keeps(before, after, bodies, target);
        } else if i == links {
        } else {
            let t = i - links - 1;
            assert(after.ephem2frame_map@[links + 1 + t].frame@ == seq![(kept + t) as usize]);
            assert(target.drop_first() =~= Seq::<usize>::empty());
            let node = after.frame_root.children@[kept + t];
            assert(node.node_at(Seq::<usize>::empty()) == Some(node));
        }
    }
}

/// A node that was there before the frames of a store were made is still
/// there.
pub proof fn lemma_grown_keeps(before: Cosm, after: Cosm, bodies: Seq<Candidate>, q: Seq<usize>)
    requires
        after.grown_by(
            before,
            bodies,
            before.frame_root.children@.len(),
            before.ephem2frame_map@.len(),
        ),
        before.frame_root.node_at(q) is Some,
    ensures
        FrameTree::same_node(before.frame_root.node_at(q), after.frame_root.node_at(q)),
{
    if q.len() > 0 {
        let i = q[0] as int;
        assert(after.frame_root.children@[i] == before.frame_root.children@[i]);
    }
}

/// A frame that was looked up by name in frames that are in order is found
/// again under the path that it records.
pub proof fn lemma_frame_is_placed(cosm: Cosm, name: Seq<char>)
    requires
        cosm.wf(),
        cosm.spec_frame(name) is Some,
    ensures
        cosm.frame_root.node_at(cosm.spec_frame(name)->0.frame_slots()@) is Some,
        cosm.frame_root.node_at(cosm.spec_frame(name)->0.frame_slots()@)->0.frame
            == cosm.spec_frame(name)->0,
{
    let stored = crate::celestia::cosm::fixed_frame_name(name);
    lemma_seek_finds(cosm.frame_root, stored);
    let path = cosm.frame_root.seek(stored)->0;
    assert(cosm.frame_root.node_at(path)->0.frame.frame_slots()@ == Seq::<usize>::empty() + path);
    assert(Seq::<usize>::empty() + path =~= path);
}

/// Between two frames that were looked up by name in frames that are in
/// order, the rotation can always be had.
pub proof fn lemma_dcm_between_named(
    cosm: Cosm,
    from: Seq<char>,
    to: Seq<char>,
    epoch: crate::time::Epoch,
)
    requires
        cosm.wf(),
        cosm.spec_frame(from) is Some,
        cosm.spec_frame(to) is Some,
    ensures
        cosm.spec_dcm(
            cosm.spec_frame(from)->0.frame_slots()@,
            cosm.spec_frame(to)->0.frame_slots()@,
            epoch,
        ) is Ok,
{
    lemma_frame_is_placed(cosm, from);
    lemma_frame_is_placed(cosm, to);
}

} // verus!
