use vstd::prelude::*;
use crate::celestia::frames::{Frame, PathSlots};
use crate::celestia::paths::{common_len, common_len_from, lemma_common_len, lemma_common_len_from};
use crate::celestia::tree::{views, FrameTree, lemma_seek_finds};
use crate::celestia::xb::Xb;
use crate::errors::NyxError;
use crate::scalar::Scalar;
use crate::utils::{
    capitalize, capitalized, chars_of, join, join_with, lowercase_of, spaced, split, split_on,
    str_eq, string_of, to_lowercase, trim, trimmed, underscores_to_spaces, word_views,
};

verus! {

/// Whether the finite speed of light is accounted for when the state of a body
/// is asked for.
#[derive(Clone, Copy, Debug, PartialEq, Eq, Structural)]
pub enum LTCorr {
    /// No correction: light is taken to arrive at once.
    NoCorrection,
    /// The target is seen where it was when the light left it.
    LightTime,
    /// Light time, and the shift that the observer's own velocity causes.
    Abberation,
}

/// One entry of the table that leads from a body of the ephemeris tree to the
/// frame in which its states are stored.
#[derive(Debug)]
pub struct PathLink {
    pub ephem: Vec<usize>,
    pub frame: Vec<usize>,
}

/// The frames and the ephemeris store, and the table that links the two.
#[derive(Debug)]
pub struct Cosm {
    pub xb: Xb,
    pub frame_root: FrameTree,
    /// Later entries take precedence over earlier ones with the same body.
    pub ephem2frame_map: Vec<PathLink>,
}

/// True exactly when both paths hold the same indices.
pub fn path_eq(a: &[usize], b: &[usize]) -> (r: bool)
    ensures
        r == (a@ == b@),
{
    if a.len() != b.len() {
        return false;
    }
    let mut i: usize = 0;
    while i < a.len()
        invariant
            i <= a@.len(),
            a@.len() == b@.len(),
            forall|j: int| 0 <= j < i ==> a@[j] == b@[j],
        decreases a@.len() - i,
    {
        if a[i] != b[i] {
            return false;
        }
        i += 1;
    }
    assert(a@ =~= b@);
    true
}

/// The frame path of the last of the first `n` entries that is about the body
/// at `ephem`.
pub open spec fn last_link(links: Seq<PathLink>, ephem: Seq<usize>, n: nat) -> Option<Seq<usize>>
    decreases n,
{
    if n == 0 || n > links.len() {
        None
    } else if links[n - 1].ephem@ == ephem {
        Some(links[n - 1].frame@)
    } else {
        last_link(links, ephem, (n - 1) as nat)
    }
}

/// The name under which a frame is stored, given the name that was asked for
/// in lower case, trimmed, and with spaces for underscores.
///
/// Four names are aliases. A name whose first word is `iau` is kept: its first
/// word, a space, and its other words with a space between each two. Of any
/// other name each word is capitalized; a name of a single word gets a space
/// in front.
pub open spec fn canonical_name(name: Seq<char>) -> Seq<char> {
    let words = split(name, ' ');
    if name == "eme2000"@ {
        "Earth J2000"@
    } else if name == "luna"@ {
        "Moon J2000"@
    } else if name == "earth moon barycenter"@ {
        "Earth Barycenter J2000"@
    } else if name == "ssb"@ {
        "SSB J2000"@
    } else if words[0] == "iau"@ {
        words[0].push(' ') + join(words.skip(1), ' ')
    } else {
        join(words.drop_last().map_values(|w: Seq<char>| capitalized(w)), ' ').push(' ')
            + capitalized(words.last())
    }
}

/// The stored name of the frame that `name` asks for.
pub open spec fn fixed_frame_name(name: Seq<char>) -> Seq<char> {
    canonical_name(spaced(trimmed(lowercase_of(name))))
}

/// Returns the name under which a frame is stored, given the name that was
/// asked for in lower case, trimmed, and with spaces for underscores.
pub fn canonical_frame_name(name: &[char]) -> (r: Vec<char>)
    ensures
        r@ == canonical_name(name@),
{
    let as_string = string_of(name);
    if str_eq(as_string.as_str(), "eme2000") {
        chars_of("Earth J2000")
    } else if str_eq(as_string.as_str(), "luna") {
        chars_of("Moon J2000")
    } else if str_eq(as_string.as_str(), "earth moon barycenter") {
        chars_of("Earth Barycenter J2000")
    } else if str_eq(as_string.as_str(), "ssb") {
        chars_of("SSB J2000")
    } else {
        let splt = split_on(name, ' ');
        let n = splt.len();
        let first = string_of(splt[0].as_slice());
        assert(word_views(splt@)[0] == splt@[0]@);
        if str_eq(first.as_str(), "iau") {
            let mut rest: Vec<Vec<char>> = Vec::new();
            let mut i: usize = 1;
            while i < n
                invariant
                    1 <= i <= n,
                    n == splt@.len(),
                    word_views(rest@) == word_views(splt@).subrange(1, i as int),
                decreases n - i,
            {
                let ghost before = rest@;
                let word = chars_of(string_of(splt[i].as_slice()).as_str());
                rest.push(word);
                assert(word_views(before).len() == before.len());
                assert(word_views(splt@).len() == splt@.len());
                assert(before.len() == i - 1);
                assert(word_views(splt@)[i as int] == splt@[i as int]@);
                assert forall|j: int| 0 <= j < rest@.len() implies word_views(rest@)[j]
                    == word_views(splt@).subrange(1, i + 1)[j] by {
                    if j < before.len() {
                        assert(word_views(rest@)[j] == word_views(before)[j]);
                    }
                }
                assert(word_views(rest@) =~= word_views(splt@).subrange(1, i + 1));
                i += 1;
            }
            assert(word_views(splt@).subrange(1, n as int) =~= word_views(splt@).skip(1));
            let tail = join_with(rest.as_slice(), ' ');
            let mut out = chars_of(first.as_str());
            out.push(' ');
            let mut j: usize = 0;
            let ghost base = out@;
            while j < tail.len()
                invariant
                    j <= tail@.len(),
                    out@ == base + tail@.take(j as int),
                decreases tail@.len() - j,
            {
                out.push(tail[j]);
                assert(out@ =~= base + tail@.take(j + 1));
                j += 1;
            }
            assert(tail@.take(tail@.len() as int) =~= tail@);
            out
        } else {
            let mut caps: Vec<Vec<char>> = Vec::new();
            let mut i: usize = 0;
            let ghost all = word_views(splt@);
            while i < n - 1
                invariant
                    i <= n - 1,
                    n == splt@.len(),
                    n >= 1,
                    all == word_views(splt@),
                    word_views(caps@) == all.take(i as int).map_values(
                        |w: Seq<char>| capitalized(w),
                    ),
                decreases n - 1 - i,
            {
                let ghost before = caps@;
                let word = capitalize(splt[i].as_slice());
                caps.push(word);
                assert(word_views(before).len() == before.len());
                assert(all.len() == splt@.len());
                assert(before.len() == i);
                assert forall|j: int| 0 <= j < caps@.len() implies word_views(caps@)[j] == all.take(
                    i + 1,
                ).map_values(|w: Seq<char>| capitalized(w))[j] by {
                    if j < before.len() {
                        assert(word_views(caps@)[j] == word_views(before)[j]);
                    } else {
                        assert(all[i as int] == splt@[i as int]@);
                    }
                }
                assert(word_views(caps@) =~= all.take(i + 1).map_values(
                    |w: Seq<char>| capitalized(w),
                ));
                i += 1;
            }
            assert(all.take(n - 1) =~= all.drop_last());
            let mut out = join_with(caps.as_slice(), ' ');
            out.push(' ');
            let last = capitalize(splt[n - 1].as_slice());
            assert(all.last() == splt@[n - 1]@);
            let mut j: usize = 0;
            let ghost base = out@;
            while j < last.len()
                invariant
                    j <= last@.len(),
                    out@ == base + last@.take(j as int),
                decreases last@.len() - j,
            {
                out.push(last[j]);
                assert(out@ =~= base + last@.take(j + 1));
                j += 1;
            }
            assert(last@.take(last@.len() as int) =~= last@);
            out
        }
    }
}

impl Cosm {
    /// The frame path that the table gives for the body at `ephem`.
    pub open spec fn linked_path(self, ephem: Seq<usize>) -> Option<Seq<usize>> {
        last_link(self.ephem2frame_map@, ephem, self.ephem2frame_map@.len())
    }

    /// The frame in which the states of the body at `ephem` are stored.
    pub open spec fn linked_frame(self, ephem: Seq<usize>) -> Option<Frame> {
        match self.linked_path(ephem) {
            Some(path) => match self.frame_root.node_at(path) {
                Some(node) => Some(node.frame),
                None => None,
            },
            None => None,
        }
    }

    /// The frame stored under `name`, which is taken as it is.
    pub open spec fn stored_frame(self, name: Seq<char>) -> Option<Frame> {
        match self.frame_root.seek(name) {
            Some(path) => match self.frame_root.node_at(path) {
                Some(node) => Some(node.frame),
                None => None,
            },
            None => None,
        }
    }

    /// The frame that `name` asks for.
    pub open spec fn spec_frame(self, name: Seq<char>) -> Option<Frame> {
        self.stored_frame(fixed_frame_name(name))
    }

    /// Returns the name under which the frame that `name` asks for is stored.
    pub fn fix_frame_name(name: &str) -> (r: String)
        ensures
            r@ == fixed_frame_name(name@),
    {
        let lowered = to_lowercase(name);
        let trimmed_chars = trim(chars_of(lowered.as_str()).as_slice());
        let normalized = underscores_to_spaces(trimmed_chars.as_slice());
        string_of(canonical_frame_name(normalized.as_slice()).as_slice())
    }

    /// The frame path that the table gives for the body at `ephem_path`.
    pub fn frame_path_from_ephem_path(&self, ephem_path: &[usize]) -> (r: Option<&Vec<usize>>)
        ensures
            r is Some <==> self.linked_path(ephem_path@) is Some,
            r matches Some(p) ==> Some(p@) == self.linked_path(ephem_path@),
    {
        let mut n: usize = self.ephem2frame_map.len();
        while n > 0
            invariant
                n <= self.ephem2frame_map@.len(),
                self.linked_path(ephem_path@) == last_link(
                    self.ephem2frame_map@,
                    ephem_path@,
                    n as nat,
                ),
            decreases n,
        {
            if path_eq(self.ephem2frame_map[n - 1].ephem.as_slice(), ephem_path) {
                return Some(&self.ephem2frame_map[n - 1].frame);
            }
            n -= 1;
        }
        None
    }

    /// Fetches the frame that `name` asks for, searching the whole tree.
    ///
    /// Fails with `ObjectNotFound`, which carries the stored form of `name`,
    /// when there is no such frame.
    pub fn try_frame(&self, name: &str) -> (r: Result<Frame, NyxError>)
        ensures
            r is Ok <==> self.spec_frame(name@) is Some,
            r matches Ok(frame) ==> Some(frame) == self.spec_frame(name@),
            r matches Err(e) ==> e matches NyxError::ObjectNotFound(n) && n@ == fixed_frame_name(
                name@,
            ),
    {
        let name = Self::fix_frame_name(name);
        let mut path: Vec<usize> = Vec::new();
        let sought = FrameTree::frame_seek_by_name(name.as_str(), &mut path, &self.frame_root);
        match sought {
            Ok(found) => {
                proof {
                    lemma_seek_finds(self.frame_root, name@);
                    assert(found@ =~= self.frame_root.seek(name@)->0);
                }
                Ok(self.frame_from_frame_path(found.as_slice()))
            },
            Err(e) => Err(e),
        }
    }

    /// The frame that `name` asks for, which must exist.
    pub fn frame(&self, name: &str) -> (r: Frame)
        requires
            self.spec_frame(name@) is Some,
        ensures
            Some(r) == self.spec_frame(name@),
    {
        match self.try_frame(name) {
            Ok(frame) => frame,
            Err(_) => {
                proof {
                    assert(false);
                }
                self.frame_root.frame
            },
        }
    }

    /// The frame in which the states of the body at `ephem_path` are stored.
    /// The table must know the body.
    pub fn frame_from_ephem_path(&self, ephem_path: &[usize]) -> (r: Frame)
        requires
            self.linked_frame(ephem_path@) is Some,
        ensures
            Some(r) == self.linked_frame(ephem_path@),
    {
        match self.frame_path_from_ephem_path(ephem_path) {
            Some(path) => self.frame_from_frame_path(path.as_slice()),
            None => {
                proof {
                    assert(false);
                }
                self.frame_root.frame
            },
        }
    }

    /// The frame of the node at `frame_path`, which must exist.
    pub fn frame_from_frame_path(&self, frame_path: &[usize]) -> (r: Frame)
        requires
            self.frame_root.node_at(frame_path@) is Some,
        ensures
            r == self.frame_root.node_at(frame_path@)->0.frame,
    {
        match self.frame_root.get(frame_path) {
            Some(node) => node.frame,
            None => {
                proof {
                    assert(false);
                }
                self.frame_root.frame
            },
        }
    }

    /// Tells whether an orientation called `name` is known, `name` taken as it
    /// is. Every orientation is anchored at the root, so the path that is
    /// returned for a known one is empty.
    ///
    /// Fails with `ObjectNotFound`, which carries `name`, when no node of the
    /// tree has that name.
    pub fn frame_find_path_for_orientation(&self, name: &str) -> (r: Result<Vec<usize>, NyxError>)
        ensures
            r is Ok <==> self.frame_root.seek(name@) is Some,
            r matches Ok(path) ==> path@.len() == 0,
            r matches Err(e) ==> e matches NyxError::ObjectNotFound(n) && n@ == name@,
    {
        let mut path: Vec<usize> = Vec::new();
        Self::frame_find_path(name, &mut path, &self.frame_root)
    }

    /// Seeks an orientation called `name` in the subtree of `f` and returns
    /// the path at which the search started.
    pub fn frame_find_path(frame_name: &str, cur_path: &mut Vec<usize>, f: &FrameTree) -> (r:
        Result<Vec<usize>, NyxError>)
        ensures
            final(cur_path)@ == old(cur_path)@,
            r is Ok <==> f.seek(frame_name@) is Some,
            r matches Ok(path) ==> path@ == old(cur_path)@,
            r matches Err(e) ==> e matches NyxError::ObjectNotFound(n) && n@ == frame_name@,
    {
        let mut scratch = cur_path.clone();
        match FrameTree::frame_seek_by_name(frame_name, &mut scratch, f) {
            Ok(_) => Ok(cur_path.clone()),
            Err(e) => Err(e),
        }
    }

    /// The names of all frames, a frame before those defined relative to it.
    pub fn frames_get_names(&self) -> (names: Vec<String>)
        ensures
            views(names@) == self.frame_root.names(),
    {
        let mut names: Vec<String> = Vec::new();
        FrameTree::frame_names(&mut names, &self.frame_root);
        assert(views(Seq::<String>::empty()) =~= Seq::<Seq<char>>::empty());
        assert(Seq::<Seq<char>>::empty() + self.frame_root.names() =~= self.frame_root.names());
        names
    }

    /// Replaces the gravitational parameter of the frame that `name` asks for,
    /// at the place in the tree that the frame records as its own. The frame
    /// must exist. In frames that are in order `name` then asks for the frame
    /// with the new parameter.
    pub fn frame_mut_gm(&mut self, name: &str, new_gm: Scalar)
        requires
            old(self).spec_frame(name@) is Some,
        ensures
            final(self).xb == old(self).xb,
            final(self).ephem2frame_map == old(self).ephem2frame_map,
            old(self).frame_root.gm_replaced(
                final(self).frame_root,
                old(self).spec_frame(name@)->0.frame_slots()@,
                new_gm,
            ),
            old(self).wf() ==> final(self).wf() && final(self).spec_frame(name@) == Some(
                old(self).spec_frame(name@)->0.with_gm(new_gm),
            ),
    {
        let frame_path = self.frame(name).frame_path();
        self.frame_root.set_gm_at(frame_path.as_slice(), new_gm);
        proof {
            if old(self).wf() {
                crate::celestia::wellformed::lemma_gm_replaced_wf(
                    *old(self),
                    *self,
                    frame_path@,
                    new_gm,
                );
                crate::celestia::wellformed::lemma_gm_replaced_named(
                    *old(self),
                    *self,
                    name@,
                    new_gm,
                );
            }
        }
    }

    /// The longest common prefix of two paths: the path of the deepest node
    /// that lies above both ends. It never fails.
    pub fn find_common_root(&self, from: &[usize], to: &[usize]) -> (r: Result<
        Vec<usize>,
        NyxError,
    >)
        ensures
            r is Ok,
            r->Ok_0@ == from@.take(common_len(from@, to@) as int),
            r->Ok_0@ == to@.take(common_len(from@, to@) as int),
    {
        let mut common_root: Vec<usize> = Vec::new();
        let mut n: usize = 0;
        proof {
            lemma_common_len(from@, to@);
        }
        while n < from.len() && n < to.len() && from[n] == to[n]
            invariant
                n <= from@.len(),
                n <= to@.len(),
                common_root@ == from@.take(n as int),
                common_len(from@, to@) == common_len_from(from@, to@, n as nat),
            decreases from@.len() - n,
        {
            common_root.push(from[n]);
            assert(common_root@ =~= from@.take(n + 1));
            n += 1;
        }
        Ok(common_root)
    }
}

} // verus!
