use crate::error::GymError;
use crate::number::Real;
use vstd::prelude::*;

verus! {

/// A concrete value of a space: what an action or an observation holds.
#[derive(Debug)]
pub enum SpaceData {
    /// An index.
    Discrete(usize),
    /// The components of a box, flattened in row-major order.
    Box(Vec<Real>),
    /// One value per member of a tuple space, in order.
    Tuple(Vec<SpaceData>),
}

/// The reals of a value in order: the components of each box, walking
/// tuples from left to right.
pub open spec fn value_reals(v: SpaceData) -> Seq<Real>
    decreases v,
{
    match v {
        SpaceData::Discrete(_) => Seq::empty(),
        SpaceData::Box(xs) => xs@,
        SpaceData::Tuple(vs) => values_reals(vs@),
    }
}

/// The reals of a sequence of values, one after the other.
pub open spec fn values_reals(vs: Seq<SpaceData>) -> Seq<Real>
    decreases vs,
{
    if vs.len() == 0 {
        Seq::empty()
    } else {
        values_reals(vs.drop_last()) + value_reals(vs.last())
    }
}

/// `a` and `b` hold the same data: the same index, the same reals, or
/// member by member the same data.
pub open spec fn same_value(a: SpaceData, b: SpaceData) -> bool
    decreases a,
{
    match a {
        SpaceData::Discrete(k) => b matches SpaceData::Discrete(j) && j == k,
        SpaceData::Box(xs) => b matches SpaceData::Box(ys) && ys@ == xs@,
        SpaceData::Tuple(vs) => {
            &&& b matches SpaceData::Tuple(ws)
            &&& ws.len() == vs.len()
            &&& forall|i: int| 0 <= i < vs.len() ==> same_value(#[trigger] vs@[i], ws@[i])
        },
    }
}

impl SpaceData {
    /// A copy holding the same data.
    pub fn copy_value(&self) -> (r: SpaceData)
        ensures
            same_value(*self, r),
        decreases self,
    {
        match self {
            SpaceData::Discrete(k) => SpaceData::Discrete(*k),
            SpaceData::Box(xs) => {
                let mut ys: Vec<Real> = Vec::new();
                let mut i: usize = 0;
                while i < xs.len()
                    invariant
                        i <= xs.len(),
                        ys@ == xs@.subrange(0, i as int),
                    decreases xs.len() - i,
                {
                    ys.push(xs[i]);
                    proof {
                        assert(ys@ =~= xs@.subrange(0, i + 1));
                    }
                    i = i + 1;
                }
                proof {
                    assert(xs@.subrange(0, xs.len() as int) =~= xs@);
                }
                SpaceData::Box(ys)
            },
            SpaceData::Tuple(vs) => {
                let mut ws: Vec<SpaceData> = Vec::new();
                let mut i: usize = 0;
                while i < vs.len()
                    invariant
                        *self == SpaceData::Tuple(*vs),
                        i <= vs.len(),
                        ws.len() == i,
                        forall|j: int| 0 <= j < i ==> same_value(#[trigger] vs@[j], ws@[j]),
                    decreases vs.len() - i,
                {
                    proof {
                        assert(decreases_to!(*self => self->Tuple_0));
                        assert(decreases_to!(self->Tuple_0 => vs[i as int]));
                    }
                    ws.push(vs[i].copy_value());
                    i = i + 1;
                }
                SpaceData::Tuple(ws)
            },
        }
    }

    /// The index of a discrete value.
    pub fn get_discrete(self) -> (r: Result<usize, GymError>)
        ensures
            self matches SpaceData::Discrete(k) ==> r == Ok::<usize, GymError>(k),
            !(self is Discrete) ==> r == Err::<usize, GymError>(GymError::WrongType),
    {
        match self {
            SpaceData::Discrete(n) => Ok(n),
            _ => Err(GymError::WrongType),
        }
    }

    /// The components of a box value.
    pub fn get_box(self) -> (r: Result<Vec<Real>, GymError>)
        ensures
            self matches SpaceData::Box(v) ==> r == Ok::<Vec<Real>, GymError>(v),
            !(self is Box) ==> r == Err::<Vec<Real>, GymError>(GymError::WrongType),
    {
        match self {
            SpaceData::Box(v) => Ok(v),
            _ => Err(GymError::WrongType),
        }
    }

    /// The members of a tuple value.
    pub fn get_tuple(self) -> (r: Result<Vec<SpaceData>, GymError>)
        ensures
            self matches SpaceData::Tuple(s) ==> r == Ok::<Vec<SpaceData>, GymError>(s),
            !(self is Tuple) ==> r == Err::<Vec<SpaceData>, GymError>(GymError::WrongType),
    {
        match self {
            SpaceData::Tuple(s) => Ok(s),
            _ => Err(GymError::WrongType),
        }
    }
}

impl Clone for SpaceData {
    fn clone(&self) -> Self {
        self.copy_value()
    }
}

} // verus!
