use vstd::prelude::*;
use crate::celestia::cosm::{fixed_frame_name, Cosm};
use crate::celestia::frames::Frame;
use crate::celestia::tree::lemma_seek_finds;
use crate::celestia::wellformed::{lemma_gm_replaced_nodes, lemma_gm_replaced_seek};
use crate::scalar::Scalar;

verus! {

/// The gravitational parameter of the Sun, 132 712 440 017.99 km^3/s^2.
pub const GMAT_SUN_GM_BITS: u64 = 0x423EE64720D1FD71;

/// The gravitational parameter of Mercury, 22 032.080 486 418 km^3/s^2.
pub const GMAT_MERCURY_GM_BITS: u64 = 0x40D5840526B08145;

/// The gravitational parameter of Venus, 324 858.598 826 46 km^3/s^2.
pub const GMAT_VENUS_GM_BITS: u64 = 0x4113D3EA6532C377;

/// The gravitational parameter of the Earth, 398 600.441 5 km^3/s^2.
pub const GMAT_EARTH_GM_BITS: u64 = 0x41185421C4189375;

/// The gravitational parameter of the Moon, 4 902.800 582 147 8 km^3/s^2.
pub const GMAT_MOON_GM_BITS: u64 = 0x40B326CCF2F39E90;

/// The gravitational parameter of Mars, 42 828.314 258 067 km^3/s^2.
pub const GMAT_MARS_GM_BITS: u64 = 0x40E4E98A0E66EF09;

/// The gravitational parameter of Jupiter, 126 712 767.857 80 km^3/s^2.
pub const GMAT_JUPITER_GM_BITS: u64 = 0x419E35EEFF6E6320;

/// The gravitational parameter of Saturn, 37 940 626.061 137 km^3/s^2.
pub const GMAT_SATURN_GM_BITS: u64 = 0x4182176C907D3565;

/// The gravitational parameter of Uranus, 5 794 549.007 071 9 km^3/s^2.
pub const GMAT_URANUS_GM_BITS: u64 = 0x41561ABD4073DDB3;

/// The gravitational parameter of Neptune, 6 836 534.063 879 3 km^3/s^2.
pub const GMAT_NEPTUNE_GM_BITS: u64 = 0x415A144D84169934;

/// A gravitational parameter to give to the frame that a name asks for.
#[derive(Debug)]
pub struct GmOverride {
    pub name: String,
    pub gm: Scalar,
}

/// Each override as the name it is for and the bit pattern it gives.
pub open spec fn override_views(overrides: Seq<GmOverride>) -> Seq<(Seq<char>, u64)> {
    overrides.map_values(|o: GmOverride| (o.name@, o.gm.bits))
}

/// The gravitational parameters that GMAT uses, each for a body's inertial
/// frame and then for its body-fixed frame. Mercury has no body-fixed frame.
pub open spec fn gmat_table() -> Seq<(Seq<char>, u64)> {
    seq![
        ("Sun J2000"@, GMAT_SUN_GM_BITS),
        ("IAU Sun"@, GMAT_SUN_GM_BITS),
        ("Mercury Barycenter J2000"@, GMAT_MERCURY_GM_BITS),
        ("Venus Barycenter J2000"@, GMAT_VENUS_GM_BITS),
        ("IAU Venus"@, GMAT_VENUS_GM_BITS),
        ("EME2000"@, GMAT_EARTH_GM_BITS),
        ("IAU Earth"@, GMAT_EARTH_GM_BITS),
        ("Luna"@, GMAT_MOON_GM_BITS),
        ("IAU Moon"@, GMAT_MOON_GM_BITS),
        ("Mars Barycenter J2000"@, GMAT_MARS_GM_BITS),
        ("IAU Mars"@, GMAT_MARS_GM_BITS),
        ("Jupiter Barycenter J2000"@, GMAT_JUPITER_GM_BITS),
        ("IAU Jupiter"@, GMAT_JUPITER_GM_BITS),
        ("Saturn Barycenter J2000"@, GMAT_SATURN_GM_BITS),
        ("IAU Saturn"@, GMAT_SATURN_GM_BITS),
        ("Uranus Barycenter J2000"@, GMAT_URANUS_GM_BITS),
        ("IAU Uranus"@, GMAT_URANUS_GM_BITS),
        ("Neptune Barycenter J2000"@, GMAT_NEPTUNE_GM_BITS),
        ("IAU Neptune"@, GMAT_NEPTUNE_GM_BITS),
    ]
}

/// Adds one override at the end of the list.
fn push_override(overrides: &mut Vec<GmOverride>, name: &str, bits: u64)
    ensures
        override_views(final(overrides)@) == override_views(old(overrides)@).push((name@, bits)),
{
    overrides.push(GmOverride { name: name.to_string(), gm: Scalar::from_bits(bits) });
    assert(override_views(overrides@) =~= override_views(old(overrides)@).push((name@, bits)));
}

/// The gravitational parameters that GMAT uses, in the order in which they
/// are to be applied.
pub fn gmat_gms() -> (overrides: Vec<GmOverride>)
    ensures
        override_views(overrides@) == gmat_table(),
{
    let mut overrides: Vec<GmOverride> = Vec::new();
    assert(override_views(overrides@) =~= Seq::empty());
    push_override(&mut overrides, "Sun J2000", GMAT_SUN_GM_BITS);
    push_override(&mut overrides, "IAU Sun", GMAT_SUN_GM_BITS);
    push_override(&mut overrides, "Mercury Barycenter J2000", GMAT_MERCURY_GM_BITS);
    push_override(&mut overrides, "Venus Barycenter J2000", GMAT_VENUS_GM_BITS);
    push_override(&mut overrides, "IAU Venus", GMAT_VENUS_GM_BITS);
    push_override(&mut overrides, "EME2000", GMAT_EARTH_GM_BITS);
    push_override(&mut overrides, "IAU Earth", GMAT_EARTH_GM_BITS);
    push_override(&mut overrides, "Luna", GMAT_MOON_GM_BITS);
    push_override(&mut overrides, "IAU Moon", GMAT_MOON_GM_BITS);
    push_override(&mut overrides, "Mars Barycenter J2000", GMAT_MARS_GM_BITS);
    push_override(&mut overrides, "IAU Mars", GMAT_MARS_GM_BITS);
    push_override(&mut overrides, "Jupiter Barycenter J2000", GMAT_JUPITER_GM_BITS);
    push_override(&mut overrides, "IAU Jupiter", GMAT_JUPITER_GM_BITS);
    push_override(&mut overrides, "Saturn Barycenter J2000", GMAT_SATURN_GM_BITS);
    push_override(&mut overrides, "IAU Saturn", GMAT_SATURN_GM_BITS);
    push_override(&mut overrides, "Uranus Barycenter J2000", GMAT_URANUS_GM_BITS);
    push_override(&mut overrides, "IAU Uranus", GMAT_URANUS_GM_BITS);
    push_override(&mut overrides, "Neptune Barycenter J2000", GMAT_NEPTUNE_GM_BITS);
    push_override(&mut overrides, "IAU Neptune", GMAT_NEPTUNE_GM_BITS);
    assert(override_views(overrides@) =~= gmat_table());
    overrides
}

impl Cosm {
    /// The frame of the node at `q` once the first `n` of `overrides` have
    /// been applied, one after the other, to these frames. An override
    /// changes the node that its name asks for and no other.
    pub open spec fn overridden(self, q: Seq<usize>, overrides: Seq<(Seq<char>, u64)>, n: nat) -> Frame
        recommends
            self.frame_root.node_at(q) is Some,
            n <= overrides.len(),
        decreases n,
    {
        if n == 0 {
            self.frame_root.node_at(q)->0.frame
        } else {
            let before = self.overridden(q, overrides, (n - 1) as nat);
            if self.frame_root.seek(fixed_frame_name(overrides[n - 1].0)) == Some(q) {
                before.with_gm(Scalar { bits: overrides[n - 1].1 })
            } else {
                before
            }
        }
    }

    /// `after` is `self` with the first `n` of `overrides` applied: the same
    /// store, the same table of bodies, and the same tree of frames node by
    /// node, but for the gravitational parameters that were replaced.
    pub open spec fn gms_overridden(
        self,
        after: Cosm,
        overrides: Seq<(Seq<char>, u64)>,
        n: nat,
    ) -> bool {
        &&& after.xb == self.xb
        &&& after.ephem2frame_map == self.ephem2frame_map
        &&& forall|q: Seq<usize>|
            #![trigger after.frame_root.node_at(q)]
            {
                &&& after.frame_root.node_at(q) is Some <==> self.frame_root.node_at(q) is Some
                &&& self.frame_root.node_at(q) is Some ==> {
                    &&& after.frame_root.node_at(q)->0.name == self.frame_root.node_at(q)->0.name
                    &&& after.frame_root.node_at(q)->0.parent_rotation == self.frame_root.node_at(
                        q,
                    )->0.parent_rotation
                    &&& after.frame_root.node_at(q)->0.children@.len() == self.frame_root.node_at(
                        q,
                    )->0.children@.len()
                    &&& after.frame_root.node_at(q)->0.frame == self.overridden(q, overrides, n)
                }
            }
    }

    /// Applies the overrides one after the other, as `frame_mut_gm` does each.
    /// Every name must ask for a frame that exists.
    pub fn override_gms(&mut self, overrides: &[GmOverride])
        requires
            old(self).wf(),
            forall|i: int|
                0 <= i < overrides@.len() ==> old(self).spec_frame(
                    (#[trigger] overrides@[i]).name@,
                ) is Some,
        ensures
            final(self).wf(),
            old(self).gms_overridden(
                *final(self),
                override_views(overrides@),
                overrides@.len() as nat,
            ),
    {
        let ghost table = override_views(overrides@);
        let mut k: usize = 0;
        while k < overrides.len()
            invariant
                k <= overrides@.len(),
                table == override_views(overrides@),
                self.wf(),
                old(self).gms_overridden(*self, table, k as nat),
                forall|name: Seq<char>| #[trigger]
                    self.frame_root.seek(name) == old(self).frame_root.seek(name),
                forall|i: int|
                    0 <= i < overrides@.len() ==> old(self).spec_frame(
                        (#[trigger] overrides@[i]).name@,
                    ) is Some,
            decreases overrides@.len() - k,
        {
            let ghost mid = *self;
            let ghost name = overrides@[k as int].name@;
            let ghost stored = fixed_frame_name(name);
            let gm = overrides[k].gm;
            proof {
                assert(old(self).spec_frame(name) is Some);
                assert(mid.frame_root.seek(stored) == old(self).frame_root.seek(stored));
                lemma_seek_finds(old(self).frame_root, stored);
                let p = old(self).frame_root.seek(stored)->0;
                assert(mid.frame_root.node_at(p) is Some);
                assert(mid.spec_frame(name) is Some);
            }
            self.frame_mut_gm(overrides[k].name.as_str(), gm);
            proof {
                let p = old(self).frame_root.seek(stored)->0;
                let path = mid.spec_frame(name)->0.frame_slots()@;
                assert(Seq::<usize>::empty() + p =~= p);
                assert(mid.frame_root.node_at(p)->0.frame.frame_slots()@ == Seq::<usize>::empty()
                    + p);
                assert(path == p);
                assert(table[k as int] == (name, gm.bits));
                assert forall|n: Seq<char>| #[trigger]
                    self.frame_root.seek(n) == old(self).frame_root.seek(n) by {
                    lemma_gm_replaced_seek(mid.frame_root, self.frame_root, path, gm, n);
                }
                assert forall|q: Seq<usize>| #![trigger self.frame_root.node_at(q)]
                    {
                        &&& self.frame_root.node_at(q) is Some <==> old(self).frame_root.node_at(
                            q,
                        ) is Some
                        &&& old(self).frame_root.node_at(q) is Some ==> {
                            &&& self.frame_root.node_at(q)->0.name == old(
                                self,
                            ).frame_root.node_at(q)->0.name
                            &&& self.frame_root.node_at(q)->0.parent_rotation == old(
                                self,
                            ).frame_root.node_at(q)->0.parent_rotation
                            &&& self.frame_root.node_at(q)->0.children@.len() == old(
                                self,
                            ).frame_root.node_at(q)->0.children@.len()
                            &&& self.frame_root.node_at(q)->0.frame == old(self).overridden(
                                q,
                                table,
                                (k + 1) as nat,
                            )
                        }
                    } by {
                    lemma_gm_replaced_nodes(mid.frame_root, self.frame_root, path, gm, q);
                    assert(mid.frame_root.node_at(q) is Some <==> old(self).frame_root.node_at(
                        q,
                    ) is Some);
                }
            }
            k += 1;
        }
    }

    /// Gives the frames of the Sun and the planets the gravitational
    /// parameters that GMAT uses. All of these frames must exist.
    pub fn de438_gmat(&mut self)
        requires
            old(self).wf(),
            forall|i: int|
                0 <= i < gmat_table().len() ==> old(self).spec_frame(
                    (#[trigger] gmat_table()[i]).0,
                ) is Some,
        ensures
            final(self).wf(),
            old(self).gms_overridden(*final(self), gmat_table(), gmat_table().len()),
    {
        let overrides = gmat_gms();
        assert forall|i: int| 0 <= i < overrides@.len() implies old(self).spec_frame(
            (#[trigger] overrides@[i]).name@,
        ) is Some by {
            assert(override_views(overrides@)[i].0 == overrides@[i].name@);
            assert(gmat_table()[i].0 == overrides@[i].name@);
        }
        self.override_gms(overrides.as_slice());
    }
}

} // verus!
