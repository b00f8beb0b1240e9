use vstd::prelude::*;
use crate::celestia::frames::Frame;
use crate::errors::NyxError;
use crate::scalar::Scalar;
use crate::utils::str_eq;

verus! {

/// The unit of the angles that a rotation definition yields.
#[derive(Clone, Copy, Debug, PartialEq, Eq, Structural)]
pub enum AngleUnit {
    Degrees,
    Radians,
}

/// One named value that the expressions of a rotation may refer to.
#[derive(Debug)]
pub struct ContextEntry {
    pub name: String,
    pub expression: String,
}

/// A rotation to the parent frame, given by right ascension, declination and
/// prime meridian as expressions in time. The expressions are kept as written;
/// the numerical host evaluates them.
#[derive(Debug)]
pub struct Euler3AxisDt {
    pub right_asc: String,
    pub declin: String,
    pub w: String,
    pub context: Vec<ContextEntry>,
    pub angle_unit: AngleUnit,
}

/// A node of the frame tree: a named frame, how it is rotated against its
/// parent, and the frames defined relative to it.
#[derive(Debug)]
pub struct FrameTree {
    pub name: String,
    pub frame: Frame,
    /// `None` means that the axes are those of the parent.
    pub parent_rotation: Option<Euler3AxisDt>,
    pub children: Vec<FrameTree>,
}

/// The character sequences of a list of strings.
pub open spec fn views(names: Seq<String>) -> Seq<Seq<char>> {
    names.map_values(|s: String| s@)
}

impl FrameTree {
    /// The node reached from this one by following `path`, child index by
    /// child index.
    pub open spec fn node_at(self, path: Seq<usize>) -> Option<FrameTree>
        decreases path.len(),
    {
        if path.len() == 0 {
            Some(self)
        } else if path[0] < self.children@.len() {
            self.children@[path[0] as int].node_at(path.drop_first())
        } else {
            None
        }
    }

    /// The path of the first node called `name`, searching depth first: a node
    /// before its children, the children in order.
    pub open spec fn seek(self, name: Seq<char>) -> Option<Seq<usize>>
        decreases self,
    {
        if self.name@ == name {
            Some(Seq::empty())
        } else {
            Self::seek_from(self.children@, name, 0)
        }
    }

    /// The path of the first node called `name` in the subtrees at and after
    /// position `i`, searching depth first.
    pub open spec fn seek_from(children: Seq<FrameTree>, name: Seq<char>, i: nat) -> Option<
        Seq<usize>,
    >
        decreases children, children.len() - i,
    {
        if i >= children.len() {
            None
        } else {
            match children[i as int].seek(name) {
                Some(p) => Some(seq![i as usize] + p),
                None => Self::seek_from(children, name, i + 1),
            }
        }
    }

    /// The names of all nodes, a node before its children, the children in
    /// order.
    pub open spec fn names(self) -> Seq<Seq<char>>
        decreases self,
    {
        seq![self.name@] + Self::names_from(self.children@, 0)
    }

    /// The names of all nodes of the subtrees at and after position `i`.
    pub open spec fn names_from(children: Seq<FrameTree>, i: nat) -> Seq<Seq<char>>
        decreases children, children.len() - i,
    {
        if i >= children.len() {
            Seq::empty()
        } else {
            children[i as int].names() + Self::names_from(children, i + 1)
        }
    }

    /// `after` is this tree with the gravitational parameter of the node at
    /// `path` replaced by `new_gm` and nothing else changed. A path that leads
    /// nowhere changes nothing.
    pub open spec fn gm_replaced(self, after: FrameTree, path: Seq<usize>, new_gm: Scalar) -> bool
        decreases path.len(),
    {
        if path.len() == 0 {
            &&& after.name == self.name
            &&& after.frame == self.frame.with_gm(new_gm)
            &&& after.parent_rotation == self.parent_rotation
            &&& after.children == self.children
        } else if path[0] < self.children@.len() {
            &&& after.name == self.name
            &&& after.frame == self.frame
            &&& after.parent_rotation == self.parent_rotation
            &&& after.children@.len() == self.children@.len()
            &&& forall|j: int|
                0 <= j < self.children@.len() && j != path[0] ==> after.children@[j]
                    == self.children@[j]
            &&& self.children@[path[0] as int].gm_replaced(
                after.children@[path[0] as int],
                path.drop_first(),
                new_gm,
            )
        } else {
            after == self
        }
    }

    /// A leaf with the axes of its parent.
    pub fn new(name: String, frame: Frame) -> (t: FrameTree)
        ensures
            t.name == name,
            t.frame == frame,
            t.parent_rotation is None,
            t.children@.len() == 0,
    {
        FrameTree { name, frame, parent_rotation: None, children: Vec::new() }
    }

    /// The node at `path`, if the path leads somewhere.
    pub fn get(&self, path: &[usize]) -> (r: Option<&FrameTree>)
        ensures
            r is Some <==> self.node_at(path@) is Some,
            r matches Some(n) ==> Some(*n) == self.node_at(path@),
    {
        let mut cur: &FrameTree = self;
        let mut i: usize = 0;
        assert(path@.take(0) =~= Seq::<usize>::empty());
        while i < path.len()
            invariant
                i <= path@.len(),
                self.node_at(path@.take(i as int)) == Some(*cur),
            decreases path@.len() - i,
        {
            let next = path[i];
            proof {
                lemma_frame_step(*self, path@.take(i as int), next);
                assert(path@.take(i as int).push(next) =~= path@.take(i + 1));
            }
            if next >= cur.children.len() {
                proof {
                    lemma_frame_prefix(*self, path@, i + 1);
                }
                return None;
            }
            cur = &cur.children[next];
            i += 1;
        }
        assert(path@.take(i as int) =~= path@);
        Some(cur)
    }

    /// Seeks the first node called `name` in the subtree of `f`, depth first,
    /// and returns its path with `cur_path`, the path of `f`, in front.
    ///
    /// Fails with `ObjectNotFound`, which carries `name`, when no node of the
    /// subtree has that name.
    pub fn frame_seek_by_name(name: &str, cur_path: &mut Vec<usize>, f: &FrameTree) -> (r: Result<
        Vec<usize>,
        NyxError,
    >)
        ensures
            final(cur_path)@ == old(cur_path)@,
            r is Ok <==> f.seek(name@) is Some,
            r matches Ok(p) ==> p@ == old(cur_path)@ + f.seek(name@)->0,
            r matches Err(e) ==> e matches NyxError::ObjectNotFound(n) && n@ == name@,
        decreases f,
    {
        if str_eq(f.name.as_str(), name) {
            let found = cur_path.clone();
            assert(found@ =~= cur_path@ + Seq::<usize>::empty());
            Ok(found)
        } else {
            let mut cno: usize = 0;
            while cno < f.children.len()
                invariant
                    cno <= f.children@.len(),
                    cur_path@ == old(cur_path)@,
                    f.name@ != name@,
                    f.seek(name@) == FrameTree::seek_from(f.children@, name@, cno as nat),
                decreases f.children@.len() - cno,
            {
                let mut this_path = cur_path.clone();
                this_path.push(cno);
                let child_attempt = Self::frame_seek_by_name(name, &mut this_path, &f.children[cno]);
                if let Ok(found_path) = child_attempt {
                    assert(found_path@ =~= cur_path@ + (seq![cno] + f.children@[cno as int].seek(
                        name@,
                    )->0));
                    return Ok(found_path);
                }
                cno += 1;
            }
            Err(NyxError::ObjectNotFound(name.to_string()))
        }
    }

    /// Appends to `names` the names of all nodes of `f`, a node before its
    /// children.
    pub fn frame_names(names: &mut Vec<String>, f: &FrameTree)
        ensures
            views(final(names)@) == views(old(names)@) + f.names(),
        decreases f,
    {
        names.push(f.name.clone());
        assert(views(names@) =~= views(old(names)@) + seq![f.name@]);
        let mut i: usize = 0;
        while i < f.children.len()
            invariant
                i <= f.children@.len(),
                views(names@) + FrameTree::names_from(f.children@, i as nat) == views(old(names)@)
                    + f.names(),
            decreases f.children@.len() - i,
        {
            let ghost before = names@;
            Self::frame_names(names, &f.children[i]);
            proof {
                let rest = FrameTree::names_from(f.children@, (i + 1) as nat);
                let own = f.children@[i as int].names();
                assert((views(before) + own) + rest =~= views(before) + (own + rest));
            }
            i += 1;
        }
        assert(views(names@) + Seq::<Seq<char>>::empty() =~= views(names@));
    }

    /// Replaces the gravitational parameter of the node at `path`. A path that
    /// leads nowhere changes nothing.
    pub fn set_gm_at(&mut self, path: &[usize], new_gm: Scalar)
        ensures
            old(self).gm_replaced(*final(self), path@, new_gm),
    {
        assert(path@.skip(0) =~= path@);
        Self::set_gm_from(self, path, 0, new_gm);
    }

    fn set_gm_from(node: &mut FrameTree, path: &[usize], depth: usize, new_gm: Scalar)
        requires
            depth <= path@.len(),
        ensures
            old(node).gm_replaced(*final(node), path@.skip(depth as int), new_gm),
        decreases path@.len() - depth,
    {
        if depth == path.len() {
            node.frame.gm_mut(new_gm);
        } else {
            let next = path[depth];
            assert(path@.skip(depth as int)[0] == next);
            assert(path@.skip(depth as int).drop_first() =~= path@.skip(depth + 1));
            if next < node.children.len() {
                Self::set_gm_from(&mut node.children[next], path, depth + 1, new_gm);
            }
        }
    }
}

/// Following `path` and then one more level is following the longer path.
pub proof fn lemma_frame_step(root: FrameTree, path: Seq<usize>, next: usize)
    ensures
        root.node_at(path.push(next)) == match root.node_at(path) {
            Some(node) => if next < node.children@.len() {
                Some(node.children@[next as int])
            } else {
                None
            },
            None => None,
        },
    decreases path.len(),
{
    if path.len() == 0 {
        assert(path.push(next).drop_first() =~= Seq::<usize>::empty());
        if next < root.children@.len() {
            assert(root.children@[next as int].node_at(Seq::<usize>::empty()) == Some(
                root.children@[next as int],
            ));
        }
    } else {
        assert(path.push(next).drop_first() =~= path.drop_first().push(next));
        if path[0] < root.children@.len() {
            lemma_frame_step(root.children@[path[0] as int], path.drop_first(), next);
        }
    }
}

/// If a path leads nowhere, no longer path does.
pub proof fn lemma_frame_prefix(root: FrameTree, path: Seq<usize>, n: int)
    requires
        0 <= n <= path.len(),
        root.node_at(path.take(n)) is None,
    ensures
        root.node_at(path) is None,
    decreases path.len(),
{
    if n == 0 {
        assert(path.take(0) =~= Seq::<usize>::empty());
    } else {
        assert(path.take(n).drop_first() =~= path.drop_first().take(n - 1));
        assert(path.take(n)[0] == path[0]);
        if path[0] < root.children@.len() {
            lemma_frame_prefix(root.children@[path[0] as int], path.drop_first(), n - 1);
        }
    }
}

/// What a search finds is a node of the tree with the name that was sought.
pub proof fn lemma_seek_finds(tree: FrameTree, name: Seq<char>)
    requires
        tree.seek(name) is Some,
    ensures
        tree.node_at(tree.seek(name)->0) is Some,
        tree.node_at(tree.seek(name)->0)->0.name@ == name,
    decreases tree,
{
    if tree.name@ != name {
        assert(tree.children@.len() == tree.children.len());
        lemma_seek_from_finds(tree.children@, name, 0);
        let p = tree.seek(name)->0;
        assert(tree.node_at(p) == tree.children@[p[0] as int].node_at(p.drop_first()));
    }
}

/// What a search through a list of subtrees finds lies in one of them, under
/// its index, and has the name that was sought.
pub proof fn lemma_seek_from_finds(children: Seq<FrameTree>, name: Seq<char>, i: nat)
    requires
        FrameTree::seek_from(children, name, i) is Some,
        children.len() <= usize::MAX,
    ensures
        ({
            let p = FrameTree::seek_from(children, name, i)->0;
            &&& p.len() > 0
            &&& i <= p[0] < children.len()
            &&& children[p[0] as int].node_at(p.drop_first()) is Some
            &&& children[p[0] as int].node_at(p.drop_first())->0.name@ == name
        }),
    decreases children, children.len() - i,
{
    if i < children.len() {
        match children[i as int].seek(name) {
            Some(q) => {
                lemma_seek_finds(children[i as int], name);
                assert((seq![i as usize] + q).drop_first() =~= q);
            },
            None => {
                lemma_seek_from_finds(children, name, i + 1);
            },
        }
    }
}

/// When a search finds nothing, no node of the tree has the name.
pub proof fn lemma_seek_misses(tree: FrameTree, name: Seq<char>, path: Seq<usize>)
    requires
        tree.seek(name) is None,
        tree.node_at(path) is Some,
    ensures
        tree.node_at(path)->0.name@ != name,
    decreases tree,
{
    if path.len() > 0 {
        lemma_seek_from_misses(tree.children@, name, 0, path[0] as nat);
        lemma_seek_misses(tree.children@[path[0] as int], name, path.drop_first());
    }
}

/// When a search through a list of subtrees finds nothing, the search through
/// each of them finds nothing.
pub proof fn lemma_seek_from_misses(children: Seq<FrameTree>, name: Seq<char>, i: nat, j: nat)
    requires
        FrameTree::seek_from(children, name, i) is None,
        i <= j < children.len(),
    ensures
        children[j as int].seek(name) is None,
    decreases children.len() - i,
{
    if i < j {
        lemma_seek_from_misses(children, name, i + 1, j);
    }
}

} // verus!
