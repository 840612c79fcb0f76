use crate::number::Real;
use crate::space_data::{value_reals, values_reals, SpaceData};
use crate::space_template::SpaceTemplate;
use rand::rngs::StdRng;
use rand::Rng;
use vstd::prelude::*;

verus! {

/// rand's seedable standard generator, carried through as an opaque value
/// so that callers choose, and can replay, the draws.
#[verifier::external_type_specification]
#[verifier::external_body]
pub struct ExStdRng(StdRng);

/// Relies on rand's `Rng::gen_range`: a draw from `0..n` lies in that
/// range. It panics on an empty range, which `requires` rules out.
#[verifier::external_body]
fn draw_below(rng: &mut StdRng, n: usize) -> (r: usize)
    requires
        n > 0,
    ensures
        r < n,
{
    rng.gen_range(0..n)
}

/// The bounds `(low, high)` of every real that a value of the space holds,
/// in the order in which the value holds them.
pub open spec fn slots(s: SpaceTemplate) -> Seq<(Real, Real)>
    decreases s,
{
    match s {
        SpaceTemplate::Discrete { .. } => Seq::empty(),
        SpaceTemplate::Box { high, low, .. } => Seq::new(
            low.len() as nat,
            |i: int| (low@[i], high@[i]),
        ),
        SpaceTemplate::Tuple { spaces } => slots_of(spaces@),
    }
}

/// The bounds of the reals of several spaces, one space after the other.
pub open spec fn slots_of(ss: Seq<SpaceTemplate>) -> Seq<(Real, Real)>
    decreases ss,
{
    if ss.len() == 0 {
        Seq::empty()
    } else {
        slots_of(ss.drop_last()) + slots(ss.last())
    }
}

/// Every real lies in its slot: at or above the lower bound and below the
/// upper one.
pub open spec fn draws_fit(bounds: Seq<(Real, Real)>, xs: Seq<Real>) -> bool {
    &&& xs.len() == bounds.len()
    &&& forall|i: int|
        0 <= i < xs.len() ==> bounds[i].0.le_spec(#[trigger] xs[i]) && xs[i].lt_spec(bounds[i].1)
}

/// A prefix of the spaces holds no more reals than all of them.
pub proof fn lemma_slots_of_prefix(ss: Seq<SpaceTemplate>, i: int)
    requires
        0 <= i <= ss.len(),
    ensures
        slots_of(ss.subrange(0, i)).len() <= slots_of(ss).len(),
    decreases ss.len(),
{
    if i < ss.len() {
        lemma_slots_of_prefix(ss.drop_last(), i);
        assert(ss.drop_last().subrange(0, i) =~= ss.subrange(0, i));
    } else {
        assert(ss.subrange(0, i) =~= ss);
    }
}

impl SpaceTemplate {
    /// The bounds of every real that a value of this space holds, in order.
    pub fn real_slots(&self) -> (r: Vec<(Real, Real)>)
        requires
            self.wf(),
        ensures
            r@ == slots(*self),
        decreases self,
    {
        match self {
            SpaceTemplate::Discrete { .. } => Vec::new(),
            SpaceTemplate::Box { high, low, .. } => {
                let mut out: Vec<(Real, Real)> = Vec::new();
                let mut i: usize = 0;
                while i < low.len()
                    invariant
                        high.len() == low.len(),
                        i <= low.len(),
                        out.len() == i,
                        forall|j: int| 0 <= j < i ==> #[trigger] out@[j] == (low@[j], high@[j]),
                    decreases low.len() - i,
                {
                    out.push((low[i], high[i]));
                    i = i + 1;
                }
                proof {
                    assert(out@ =~= slots(*self));
                }
                out
            },
            SpaceTemplate::Tuple { spaces } => {
                let mut out: Vec<(Real, Real)> = Vec::new();
                let mut i: usize = 0;
                while i < spaces.len()
                    invariant
                        *self == (SpaceTemplate::Tuple { spaces: *spaces }),
                        self.wf(),
                        i <= spaces.len(),
                        out@ == slots_of(spaces@.subrange(0, i as int)),
                    decreases spaces.len() - i,
                {
                    proof {
                        assert(decreases_to!(*self => self->spaces));
                        assert(decreases_to!(self->spaces => spaces[i as int]));
                    }
                    let mut part = spaces[i].real_slots();
                    out.append(&mut part);
                    proof {
                        let s = spaces@.subrange(0, i + 1);
                        assert(s.drop_last() =~= spaces@.subrange(0, i as int));
                    }
                    i = i + 1;
                }
                proof {
                    assert(spaces@.subrange(0, spaces.len() as int) =~= spaces@);
                }
                out
            },
        }
    }

    /// Draws a value of this space. Indices come from `rng`, uniformly
    /// below their bound; the reals of boxes are taken from `reals`, in
    /// order, which must hold one real per slot of `real_slots`, each in
    /// its half-open slot `[low, high)`. Otherwise nothing is drawn.
    pub fn sample(&self, rng: &mut StdRng, reals: &Vec<Real>) -> (r: Option<SpaceData>)
        requires
            self.wf(),
        ensures
            r is Some <==> draws_fit(slots(*self), reals@),
            r matches Some(v) ==> {
                &&& self.contains(v)
                &&& value_reals(v) == reals@
                &&& draws_fit(slots(*self), value_reals(v))
            },
    {
        let bounds = self.real_slots();
        if bounds.len() != reals.len() {
            return None;
        }
        let mut i: usize = 0;
        while i < reals.len()
            invariant
                bounds@ == slots(*self),
                bounds.len() == reals.len(),
                i <= reals.len(),
                forall|j: int|
                    0 <= j < i ==> bounds@[j].0.le_spec(#[trigger] reals@[j]) && reals@[j].lt_spec(
                        bounds@[j].1,
                    ),
            decreases reals.len() - i,
        {
            if !(bounds[i].0.le(&reals[i]) && reals[i].lt(&bounds[i].1)) {
                return None;
            }
            i = i + 1;
        }
        let (v, _next) = self.draw(rng, reals, 0);
        proof {
            assert(reals@.subrange(0, reals.len() as int) =~= reals@);
        }
        Some(v)
    }

    fn draw(&self, rng: &mut StdRng, reals: &Vec<Real>, pos: usize) -> (r: (SpaceData, usize))
        requires
            self.wf(),
            pos + slots(*self).len() <= reals.len(),
        ensures
            self.contains(r.0),
            r.1 == pos + slots(*self).len(),
            value_reals(r.0) == reals@.subrange(pos as int, r.1 as int),
        decreases self,
    {
        match self {
            SpaceTemplate::Discrete { n } => {
                let k = draw_below(rng, *n);
                proof {
                    assert(reals@.subrange(pos as int, pos as int) =~= Seq::<Real>::empty());
                }
                (SpaceData::Discrete(k), pos)
            },
            SpaceTemplate::Box { low, .. } => {
                let mut xs: Vec<Real> = Vec::new();
                let mut i: usize = 0;
                while i < low.len()
                    invariant
                        slots(*self).len() == low.len(),
                        pos + low.len() <= reals.len(),
                        i <= low.len(),
                        xs@ == reals@.subrange(pos as int, pos + i),
                    decreases low.len() - i,
                {
                    xs.push(reals[pos + i]);
                    proof {
                        assert(xs@ =~= reals@.subrange(pos as int, pos + i + 1));
                    }
                    i = i + 1;
                }
                (SpaceData::Box(xs), pos + low.len())
            },
            SpaceTemplate::Tuple { spaces } => {
                let mut out: Vec<SpaceData> = Vec::new();
                let mut cur: usize = pos;
                let mut i: usize = 0;
                proof {
                    assert(spaces@.subrange(0, 0) =~= Seq::<SpaceTemplate>::empty());
                    assert(out@ =~= Seq::<SpaceData>::empty());
                    assert(reals@.subrange(pos as int, pos as int) =~= Seq::<Real>::empty());
                }
                while i < spaces.len()
                    invariant
                        *self == (SpaceTemplate::Tuple { spaces: *spaces }),
                        self.wf(),
                        pos + slots(*self).len() <= reals.len(),
                        i <= spaces.len(),
                        out.len() == i,
                        cur == pos + slots_of(spaces@.subrange(0, i as int)).len(),
                        values_reals(out@) == reals@.subrange(pos as int, cur as int),
                        forall|j: int| 0 <= j < i ==> (#[trigger] spaces@[j]).contains(out@[j]),
                    decreases spaces.len() - i,
                {
                    proof {
                        assert(decreases_to!(*self => self->spaces));
                        assert(decreases_to!(self->spaces => spaces[i as int]));
                        let s = spaces@.subrange(0, i + 1);
                        assert(s.drop_last() =~= spaces@.subrange(0, i as int));
                        lemma_slots_of_prefix(spaces@, i + 1);
                    }
                    let (v, next) = spaces[i].draw(rng, reals, cur);
                    let ghost before = out@;
                    out.push(v);
                    proof {
                        assert(out@.drop_last() =~= before);
                        assert(reals@.subrange(pos as int, cur as int) + reals@.subrange(
                            cur as int,
                            next as int,
                        ) =~= reals@.subrange(pos as int, next as int));
                    }
                    cur = next;
                    i = i + 1;
                }
                proof {
                    assert(spaces@.subrange(0, spaces.len() as int) =~= spaces@);
                }
                (SpaceData::Tuple(out), cur)
            },
        }
    }
}

} // verus!
