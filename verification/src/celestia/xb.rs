use vstd::prelude::*;
use vstd::arithmetic::div_mod::{lemma_fundamental_div_mod, lemma_mod_bound};
use crate::errors::NyxError;
use crate::scalar::Scalar;
use crate::time::{Duration, Epoch};
use crate::utils::str_eq;

verus! {

/// The time windows of one body: `windows` windows of equal length, one after
/// the other from the start epoch of the interpolator on. The coefficients of
/// each window stay with the numerical host.
#[derive(Clone, Copy, Debug, PartialEq, Eq, Structural)]
pub struct EqualStepStates {
    pub window_duration: Duration,
    pub windows: usize,
}

/// How the position of a body is interpolated.
#[derive(Clone, Copy, Debug, PartialEq, Eq, Structural)]
pub struct EphemInterp {
    /// The start of the first window.
    pub start_epoch: Epoch,
    /// The number of coefficients of each position component.
    pub position_degree: u32,
    pub state_data: Option<EqualStepStates>,
}

/// A named physical constant of a body.
#[derive(Debug)]
pub struct Constant {
    pub name: String,
    pub value: Scalar,
}

/// One body of the ephemeris tree.
#[derive(Debug)]
pub struct Ephemeris {
    pub name: String,
    pub constants: Vec<Constant>,
    pub interpolator: Option<EphemInterp>,
    pub children: Vec<Ephemeris>,
}

/// The ephemeris store: a tree of bodies below the solar-system barycenter.
#[derive(Debug)]
pub struct Xb {
    pub ephemeris_root: Option<Ephemeris>,
}

/// One window of a body's ephemeris, and where in it an epoch falls.
#[derive(Clone, Copy, Debug, PartialEq, Eq, Structural)]
pub struct Segment {
    /// The index of the window.
    pub index: usize,
    /// The time from the start of the window to the epoch.
    pub offset: Duration,
    /// The length of the window.
    pub duration: Duration,
    /// The number of coefficients of each position component.
    pub degree: usize,
}

/// The elapsed time from the start of the first window to `epoch`.
pub open spec fn elapsed(start: Epoch, epoch: Epoch) -> int {
    epoch.nanos - start.nanos
}

/// The windows hold `epoch`: there is at least one window, windows have a
/// positive length, and `epoch` lies between the start of the first and the
/// end of the last, both ends included.
pub open spec fn covers(states: EqualStepStates, start: Epoch, epoch: Epoch) -> bool {
    &&& states.windows > 0
    &&& states.window_duration.nanos > 0
    &&& 0 <= elapsed(start, epoch) <= states.windows * states.window_duration.nanos
}

/// The window in which `epoch` falls: the whole number of windows that have
/// elapsed, but the last window when `epoch` is the very end of the data.
pub open spec fn window_index(states: EqualStepStates, start: Epoch, epoch: Epoch) -> int {
    let delta = elapsed(start, epoch);
    let w = states.window_duration.nanos as int;
    if delta == states.windows * w {
        states.windows - 1
    } else {
        delta / w
    }
}

/// The time from the start of the window of `epoch` to `epoch`.
pub open spec fn window_offset(states: EqualStepStates, start: Epoch, epoch: Epoch) -> int {
    elapsed(start, epoch) - window_index(states, start, epoch) * states.window_duration.nanos
}

/// Finds the window of `epoch`, or `None` when the windows do not hold it.
pub fn select_window(states: &EqualStepStates, start: Epoch, epoch: Epoch) -> (r: Option<
    (usize, Duration),
>)
    ensures
        r is Some <==> covers(*states, start, epoch),
        r matches Some((index, offset)) ==> {
            &&& index == window_index(*states, start, epoch)
            &&& offset.nanos == window_offset(*states, start, epoch)
            &&& index < states.windows
            &&& 0 <= offset.nanos <= states.window_duration.nanos
        },
{
    let w: i128 = states.window_duration.nanos;
    let n: usize = states.windows;
    let delta: i128 = epoch.since(start).nanos;
    if n == 0 || w <= 0 || delta < 0 {
        return None;
    }
    let q: i128 = delta / w;
    let r: i128 = delta % w;
    let count: i128 = n as i128;
    proof {
        lemma_fundamental_div_mod(delta as int, w as int);
        lemma_mod_bound(delta as int, w as int);
    }
    if q < count {
        assert(delta < n * w && q * w + r == delta) by (nonlinear_arith)
            requires
                delta == w * q + r,
                0 <= r < w,
                0 <= q < n,
        ;
        let index: usize = q as usize;
        Some((index, Duration { nanos: r }))
    } else if q == count && r == 0 {
        assert(delta == n * w && delta - (n - 1) * w == w) by (nonlinear_arith)
            requires
                delta == w * q + r,
                r == 0,
                q == n,
        ;
        Some((n - 1, Duration { nanos: w }))
    } else {
        assert(delta > n * w) by (nonlinear_arith)
            requires
                delta == w * q + r,
                0 <= r < w,
                q > n || (q == n && r > 0),
                w > 0,
        ;
        None
    }
}

impl Ephemeris {
    /// The body reached from this one by following `path`, child index by child
    /// index.
    pub open spec fn node_at(self, path: Seq<usize>) -> Option<Ephemeris>
        decreases path.len(),
    {
        if path.len() == 0 {
            Some(self)
        } else if path[0] < self.children@.len() {
            self.children@[path[0] as int].node_at(path.drop_first())
        } else {
            None
        }
    }

    /// The value of the first constant called `name`, if there is one.
    pub open spec fn spec_constant(self, name: Seq<char>) -> Option<Scalar> {
        Self::first_constant(self.constants@, name, 0)
    }

    /// The value of the first constant called `name` at or after position `i`.
    pub open spec fn first_constant(constants: Seq<Constant>, name: Seq<char>, i: nat) -> Option<
        Scalar,
    >
        decreases constants.len() - i,
    {
        if i >= constants.len() {
            None
        } else if constants[i as int].name@ == name {
            Some(constants[i as int].value)
        } else {
            Self::first_constant(constants, name, i + 1)
        }
    }

    /// The value of the first constant called `name`, if there is one.
    pub fn constant(&self, name: &str) -> (r: Option<Scalar>)
        ensures
            r == self.spec_constant(name@),
    {
        let mut i: usize = 0;
        while i < self.constants.len()
            invariant
                i <= self.constants@.len(),
                self.spec_constant(name@) == Self::first_constant(self.constants@, name@, i as nat),
            decreases self.constants@.len() - i,
        {
            if str_eq(self.constants[i].name.as_str(), name) {
                return Some(self.constants[i].value);
            }
            i += 1;
        }
        None
    }
}

/// Following `path` and then one more level is following the longer path.
pub proof fn lemma_ephemeris_step(root: Ephemeris, path: Seq<usize>, next: usize)
    ensures
        root.node_at(path.push(next)) == match root.node_at(path) {
            Some(node) => if next < node.children@.len() {
                Some(node.children@[next as int])
            } else {
                None
            },
            None => None,
        },
    decreases path.len(),
{
    if path.len() == 0 {
        assert(path.push(next).drop_first() =~= Seq::<usize>::empty());
        if next < root.children@.len() {
            assert(root.children@[next as int].node_at(Seq::<usize>::empty()) == Some(
                root.children@[next as int],
            ));
        }
    } else {
        assert(path.push(next).drop_first() =~= path.drop_first().push(next));
        if path[0] < root.children@.len() {
            lemma_ephemeris_step(root.children@[path[0] as int], path.drop_first(), next);
        }
    }
}

impl Xb {
    /// The body at `path`, if the store has a root and the path leads
    /// somewhere.
    pub open spec fn spec_ephemeris(self, path: Seq<usize>) -> Option<Ephemeris> {
        match self.ephemeris_root {
            Some(root) => root.node_at(path),
            None => None,
        }
    }

    /// The body at `path`. The empty path is the root.
    ///
    /// Fails with `ObjectNotFound` when the store has no root or when a level
    /// of `path` has no such child.
    pub fn ephemeris_from_path(&self, path: &[usize]) -> (r: Result<&Ephemeris, NyxError>)
        ensures
            r is Ok <==> self.spec_ephemeris(path@) is Some,
            r matches Ok(e) ==> Some(*e) == self.spec_ephemeris(path@),
            r matches Err(e) ==> e is ObjectNotFound,
    {
        match &self.ephemeris_root {
            None => Err(NyxError::ObjectNotFound("no ephemeris root".to_string())),
            Some(root) => {
                let mut cur: &Ephemeris = root;
                let mut i: usize = 0;
                assert(path@.take(0) =~= Seq::<usize>::empty());
                while i < path.len()
                    invariant
                        i <= path@.len(),
                        self.ephemeris_root == Some(*root),
                        root.node_at(path@.take(i as int)) == Some(*cur),
                    decreases path@.len() - i,
                {
                    let next = path[i];
                    proof {
                        lemma_ephemeris_step(*root, path@.take(i as int), next);
                        assert(path@.take(i as int).push(next) =~= path@.take(i + 1));
                    }
                    if next >= cur.children.len() {
                        proof {
                            lemma_node_at_prefix(*root, path@, i + 1);
                        }
                        return Err(
                            NyxError::ObjectNotFound("no ephemeris at this path".to_string()),
                        );
                    }
                    cur = &cur.children[next];
                    i += 1;
                }
                assert(path@.take(i as int) =~= path@);
                Ok(cur)
            },
        }
    }

    /// The names of all bodies, each body before its children.
    pub fn ephemeris_get_names(&self) -> (names: Vec<String>)
        ensures
            names@.map_values(|s: String| s@) == match self.ephemeris_root {
                Some(root) => root.names(),
                None => Seq::<Seq<char>>::empty(),
            },
    {
        let mut names: Vec<String> = Vec::new();
        assert(names@.map_values(|s: String| s@) =~= Seq::<Seq<char>>::empty());
        match &self.ephemeris_root {
            Some(root) => {
                Ephemeris::collect_names(&mut names, root);
                assert(Seq::<Seq<char>>::empty() + root.names() =~= root.names());
            },
            None => {},
        }
        names
    }
}

impl Ephemeris {
    /// The names of all bodies of this subtree, each body before its
    /// children, the children in order.
    pub open spec fn names(self) -> Seq<Seq<char>>
        decreases self,
    {
        seq![self.name@] + Self::names_from(self.children@, 0)
    }

    /// The names of all bodies of the subtrees at and after position `i`.
    pub open spec fn names_from(children: Seq<Ephemeris>, i: nat) -> Seq<Seq<char>>
        decreases children, children.len() - i,
    {
        if i >= children.len() {
            Seq::empty()
        } else {
            children[i as int].names() + Self::names_from(children, i + 1)
        }
    }

    fn collect_names(names: &mut Vec<String>, e: &Ephemeris)
        ensures
            final(names)@.map_values(|s: String| s@) == old(names)@.map_values(|s: String| s@)
                + e.names(),
        decreases e,
    {
        names.push(e.name.clone());
        assert(names@.map_values(|s: String| s@) =~= old(names)@.map_values(|s: String| s@)
            + seq![e.name@]);
        let mut i: usize = 0;
        while i < e.children.len()
            invariant
                i <= e.children@.len(),
                names@.map_values(|s: String| s@) + Self::names_from(e.children@, i as nat) == old(
                    names,
                )@.map_values(|s: String| s@) + e.names(),
            decreases e.children@.len() - i,
        {
            let ghost before = names@.map_values(|s: String| s@);
            Self::collect_names(names, &e.children[i]);
            proof {
                let rest = Self::names_from(e.children@, (i + 1) as nat);
                let own = e.children@[i as int].names();
                assert((before + own) + rest =~= before + (own + rest));
            }
            i += 1;
        }
        assert(names@.map_values(|s: String| s@) + Seq::<Seq<char>>::empty()
            =~= names@.map_values(|s: String| s@));
    }
}

/// If a path leads nowhere, no longer path does.
pub proof fn lemma_node_at_prefix(root: Ephemeris, path: Seq<usize>, n: int)
    requires
        0 <= n <= path.len(),
        root.node_at(path.take(n)) is None,
    ensures
        root.node_at(path) is None,
    decreases path.len(),
{
    if n == 0 {
        assert(path.take(0) =~= Seq::<usize>::empty());
    } else {
        assert(path.take(n).drop_first() =~= path.drop_first().take(n - 1));
        assert(path.take(n)[0] == path[0]);
        if path[0] < root.children@.len() {
            lemma_node_at_prefix(root.children@[path[0] as int], path.drop_first(), n - 1);
        }
    }
}

} // verus!
