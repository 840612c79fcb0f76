use crate::error::GymError;
use crate::number::Real;
use crate::payload::{flat_items, flat_reals, scalar_real, Payload};
use crate::space_data::{same_value, SpaceData};
use vstd::prelude::*;

verus! {

/// The shape of the values that an action or an observation may take.
#[derive(Debug)]
pub enum SpaceTemplate {
    /// The indices `0 .. n`.
    Discrete { n: usize },
    /// Real arrays of the given shape, flattened in row-major order, with
    /// one lower and one upper bound per component.
    Box { high: Vec<Real>, low: Vec<Real>, shape: Vec<usize> },
    /// One value of each member space, in order.
    Tuple { spaces: Vec<SpaceTemplate> },
}

/// The number of components of an array of the given shape.
pub open spec fn shape_size(shape: Seq<usize>) -> int
    decreases shape.len(),
{
    if shape.len() == 0 {
        1
    } else {
        shape_size(shape.drop_last()) * shape.last()
    }
}

/// The index that a payload stands for, if it stands for one: an integer,
/// or a flag read as 0 or 1.
pub open spec fn payload_index(p: Payload) -> Option<int> {
    match p {
        Payload::Int(k) => Some(k as int),
        Payload::Flag(b) => Some(
            if b {
                1
            } else {
                0
            },
        ),
        _ => None,
    }
}

/// `p` is what encoding `v` gives: an integer for an index, a list of reals
/// for a box, a list of the members' encodings for a tuple.
pub open spec fn encodes(v: SpaceData, p: Payload) -> bool
    decreases v,
{
    match v {
        SpaceData::Discrete(k) => p == Payload::Int(k as i128),
        SpaceData::Box(xs) => {
            &&& p matches Payload::List(items)
            &&& items.len() == xs.len()
            &&& forall|i: int| 0 <= i < xs.len() ==> items@[i] == Payload::Real(#[trigger] xs@[i])
        },
        SpaceData::Tuple(vs) => {
            &&& p matches Payload::List(items)
            &&& items.len() == vs.len()
            &&& forall|i: int| 0 <= i < vs.len() ==> encodes(#[trigger] vs@[i], items@[i])
        },
    }
}

impl SpaceTemplate {
    /// Every index bound is positive; every box has positive dimensions,
    /// as many bounds of each kind as its shape has components, and each
    /// lower bound below its upper bound.
    pub open spec fn wf(self) -> bool
        decreases self,
    {
        match self {
            SpaceTemplate::Discrete { n } => n > 0,
            SpaceTemplate::Box { high, low, shape } => {
                &&& forall|i: int| 0 <= i < shape.len() ==> #[trigger] shape@[i] > 0
                &&& low.len() == shape_size(shape@)
                &&& high.len() == low.len()
                &&& forall|i: int| 0 <= i < low.len() ==> (#[trigger] low@[i]).lt_spec(high@[i])
            },
            SpaceTemplate::Tuple { spaces } => forall|i: int|
                0 <= i < spaces.len() ==> (#[trigger] spaces@[i]).wf(),
        }
    }

    /// `v` is a value of this space: an index below the bound, as many
    /// reals as the box has components, a tuple member by member.
    pub open spec fn contains(self, v: SpaceData) -> bool
        decreases self,
    {
        match self {
            SpaceTemplate::Discrete { n } => v matches SpaceData::Discrete(k) && k < n,
            SpaceTemplate::Box { shape, .. } => v matches SpaceData::Box(xs) && xs.len()
                == shape_size(shape@),
            SpaceTemplate::Tuple { spaces } => {
                &&& v matches SpaceData::Tuple(vs)
                &&& vs.len() == spaces.len()
                &&& forall|i: int| 0 <= i < spaces.len() ==> (#[trigger] spaces@[i]).contains(vs@[i])
            },
        }
    }

    /// Whether an engine payload can be read as a value of this space.
    pub open spec fn decodable(self, p: Payload) -> bool
        decreases self,
    {
        match self {
            SpaceTemplate::Discrete { n } => payload_index(p) matches Some(k) && 0 <= k < n,
            SpaceTemplate::Box { low, .. } => flat_reals(p) matches Some(xs) && xs.len()
                == low.len(),
            SpaceTemplate::Tuple { spaces } => {
                &&& p matches Payload::List(items)
                &&& items.len() == spaces.len()
                &&& forall|i: int|
                    0 <= i < spaces.len() ==> (#[trigger] spaces@[i]).decodable(items@[i])
            },
        }
    }

    /// `v` is what reading the payload `p` as a value of this space gives.
    pub open spec fn decodes(self, p: Payload, v: SpaceData) -> bool
        decreases self,
    {
        match self {
            SpaceTemplate::Discrete { n } => {
                &&& v matches SpaceData::Discrete(k)
                &&& payload_index(p) == Some(k as int)
                &&& k < n
            },
            SpaceTemplate::Box { low, .. } => {
                &&& v matches SpaceData::Box(xs)
                &&& flat_reals(p) == Some(xs@)
                &&& xs.len() == low.len()
            },
            SpaceTemplate::Tuple { spaces } => {
                &&& p matches Payload::List(items)
                &&& v matches SpaceData::Tuple(vs)
                &&& items.len() == spaces.len()
                &&& vs.len() == spaces.len()
                &&& forall|i: int|
                    0 <= i < spaces.len() ==> (#[trigger] spaces@[i]).decodes(items@[i], vs@[i])
            },
        }
    }

    /// Reads an engine payload as a value of this space. Flags count as the
    /// indices 0 and 1, scalars as one-component arrays, and nested arrays
    /// are flattened in row-major order; text, nulls, maps, an index out of
    /// range and a count that does not fit are refused.
    pub fn extract_data(&self, pyo: &Payload) -> (r: Result<SpaceData, GymError>)
        ensures
            r is Ok <==> self.decodable(*pyo),
            r matches Ok(v) ==> self.decodes(*pyo, v),
            r matches Err(e) ==> e == GymError::InvalidConversion,
        decreases self,
    {
        match self {
            SpaceTemplate::Discrete { n } => {
                let k: i128 = match pyo {
                    Payload::Int(k) => *k,
                    Payload::Flag(b) => if *b {
                        1
                    } else {
                        0
                    },
                    _ => {
                        return Err(GymError::InvalidConversion);
                    },
                };
                if 0 <= k && k < *n as i128 {
                    Ok(SpaceData::Discrete(k as usize))
                } else {
                    Err(GymError::InvalidConversion)
                }
            },
            SpaceTemplate::Box { low, .. } => {
                match pyo.flatten() {
                    Ok(xs) => {
                        if xs.len() == low.len() {
                            Ok(SpaceData::Box(xs))
                        } else {
                            Err(GymError::InvalidConversion)
                        }
                    },
                    Err(e) => Err(e),
                }
            },
            SpaceTemplate::Tuple { spaces } => {
                let items = match pyo {
                    Payload::List(items) => items,
                    _ => {
                        return Err(GymError::InvalidConversion);
                    },
                };
                if items.len() != spaces.len() {
                    return Err(GymError::InvalidConversion);
                }
                let mut out: Vec<SpaceData> = Vec::new();
                let mut i: usize = 0;
                while i < spaces.len()
                    invariant
                        *self == (SpaceTemplate::Tuple { spaces: *spaces }),
                        *pyo == Payload::List(*items),
                        items.len() == spaces.len(),
                        i <= spaces.len(),
                        out.len() == i,
                        forall|j: int|
                            0 <= j < i ==> (#[trigger] spaces@[j]).decodes(items@[j], out@[j]),
                        forall|j: int| 0 <= j < i ==> (#[trigger] spaces@[j]).decodable(items@[j]),
                    decreases spaces.len() - i,
                {
                    proof {
                        assert(decreases_to!(*self => self->spaces));
                            assert(decreases_to!(self->spaces => spaces[i as int]));
                    }
                    match spaces[i].extract_data(&items[i]) {
                        Ok(v) => {
                            out.push(v);
                        },
                        Err(e) => {
                            return Err(e);
                        },
                    }
                    i = i + 1;
                }
                Ok(SpaceData::Tuple(out))
            },
        }
    }

    /// Whether this space is well-formed, for a space built by hand.
    pub fn is_valid(&self) -> (r: bool)
        ensures
            r == self.wf(),
        decreases self,
    {
        match self {
            SpaceTemplate::Discrete { n } => *n > 0,
            SpaceTemplate::Box { high, low, shape } => {
                let mut k: usize = 0;
                while k < shape.len()
                    invariant
                        *self == (SpaceTemplate::Box { high: *high, low: *low, shape: *shape }),
                        k <= shape.len(),
                        forall|j: int| 0 <= j < k ==> #[trigger] shape@[j] > 0,
                    decreases shape.len() - k,
                {
                    if shape[k] == 0 {
                        return false;
                    }
                    k = k + 1;
                }
                let mut size: usize = 1;
                let mut k: usize = 0;
                while k < shape.len()
                    invariant
                        *self == (SpaceTemplate::Box { high: *high, low: *low, shape: *shape }),
                        k <= shape.len(),
                        forall|j: int| 0 <= j < shape.len() ==> #[trigger] shape@[j] > 0,
                        size as int == shape_size(shape@.subrange(0, k as int)),
                    decreases shape.len() - k,
                {
                    proof {
                        let s = shape@.subrange(0, k + 1);
                        assert(s.drop_last() =~= shape@.subrange(0, k as int));
                        crate::descriptor::lemma_shape_size_prefix(shape@, k + 1);
                    }
                    match size.checked_mul(shape[k]) {
                        Some(m) => {
                            size = m;
                        },
                        None => {
                            return false;
                        },
                    }
                    k = k + 1;
                }
                proof {
                    assert(shape@.subrange(0, shape.len() as int) =~= shape@);
                }
                if low.len() != size || high.len() != size {
                    return false;
                }
                let mut j: usize = 0;
                while j < low.len()
                    invariant
                        *self == (SpaceTemplate::Box { high: *high, low: *low, shape: *shape }),
                        high.len() == low.len(),
                        j <= low.len(),
                        forall|m: int| 0 <= m < j ==> (#[trigger] low@[m]).lt_spec(high@[m]),
                    decreases low.len() - j,
                {
                    if !low[j].lt(&high[j]) {
                        return false;
                    }
                    j = j + 1;
                }
                true
            },
            SpaceTemplate::Tuple { spaces } => {
                let mut i: usize = 0;
                while i < spaces.len()
                    invariant
                        *self == (SpaceTemplate::Tuple { spaces: *spaces }),
                        i <= spaces.len(),
                        forall|j: int| 0 <= j < i ==> (#[trigger] spaces@[j]).wf(),
                    decreases spaces.len() - i,
                {
                    proof {
                        assert(decreases_to!(*self => self->spaces));
                        assert(decreases_to!(self->spaces => spaces[i as int]));
                    }
                    if !spaces[i].is_valid() {
                        return false;
                    }
                    i = i + 1;
                }
                true
            },
        }
    }

    /// Encodes a value of this space as the payload the engine takes; a
    /// value that does not belong to the space is refused.
    pub fn encode(&self, v: &SpaceData) -> (r: Result<Payload, GymError>)
        requires
            self.wf(),
        ensures
            r is Ok <==> self.contains(*v),
            r matches Ok(p) ==> encodes(*v, p),
            r matches Err(e) ==> e == GymError::InvalidAction,
        decreases self,
    {
        match self {
            SpaceTemplate::Discrete { n } => match v {
                SpaceData::Discrete(k) => {
                    if *k < *n {
                        Ok(Payload::Int(*k as i128))
                    } else {
                        Err(GymError::InvalidAction)
                    }
                },
                _ => Err(GymError::InvalidAction),
            },
            SpaceTemplate::Box { low, .. } => match v {
                SpaceData::Box(xs) => {
                    if xs.len() != low.len() {
                        return Err(GymError::InvalidAction);
                    }
                    let mut items: Vec<Payload> = Vec::new();
                    let mut i: usize = 0;
                    while i < xs.len()
                        invariant
                            i <= xs.len(),
                            items.len() == i,
                            forall|j: int|
                                0 <= j < i ==> items@[j] == Payload::Real(#[trigger] xs@[j]),
                        decreases xs.len() - i,
                    {
                        items.push(Payload::Real(xs[i]));
                        i = i + 1;
                    }
                    Ok(Payload::List(items))
                },
                _ => Err(GymError::InvalidAction),
            },
            SpaceTemplate::Tuple { spaces } => match v {
                SpaceData::Tuple(vs) => {
                    if vs.len() != spaces.len() {
                        return Err(GymError::InvalidAction);
                    }
                    let mut items: Vec<Payload> = Vec::new();
                    let mut i: usize = 0;
                    while i < vs.len()
                        invariant
                            *self == (SpaceTemplate::Tuple { spaces: *spaces }),
                            *v == SpaceData::Tuple(*vs),
                            self.wf(),
                            vs.len() == spaces.len(),
                            i <= vs.len(),
                            items.len() == i,
                            forall|j: int| 0 <= j < i ==> encodes(#[trigger] vs@[j], items@[j]),
                            forall|j: int| 0 <= j < i ==> (#[trigger] spaces@[j]).contains(vs@[j]),
                        decreases vs.len() - i,
                    {
                        proof {
                            assert(decreases_to!(*self => self->spaces));
                            assert(decreases_to!(self->spaces => spaces[i as int]));
                        }
                        match spaces[i].encode(&vs[i]) {
                            Ok(p) => {
                                items.push(p);
                            },
                            Err(e) => {
                                return Err(e);
                            },
                        }
                        i = i + 1;
                    }
                    Ok(Payload::List(items))
                },
                _ => Err(GymError::InvalidAction),
            },
        }
    }
}

/// Reals wrapped one by one flatten back to themselves.
pub proof fn lemma_flat_real_items(items: Seq<Payload>, xs: Seq<Real>)
    requires
        items.len() == xs.len(),
        forall|i: int| 0 <= i < xs.len() ==> items[i] == Payload::Real(#[trigger] xs[i]),
    ensures
        flat_items(items) == Some(xs),
    decreases items.len(),
{
    if items.len() == 0 {
        assert(xs =~= Seq::empty());
    } else {
        lemma_flat_real_items(items.drop_last(), xs.drop_last());
        assert(items[items.len() - 1] == Payload::Real(xs[xs.len() - 1]));
        assert(scalar_real(items.last()) == Some(xs.last()));
        assert(flat_reals(items.last()) == Some(seq![xs.last()]));
        assert(xs.drop_last() + seq![xs.last()] =~= xs);
    }
}

/// Whatever reads as a value of a well-formed space belongs to it.
pub proof fn lemma_decoded_value_belongs(s: SpaceTemplate, p: Payload, v: SpaceData)
    requires
        s.wf(),
        s.decodes(p, v),
    ensures
        s.contains(v),
    decreases s,
{
    if let SpaceTemplate::Tuple { spaces } = s {
        if let (Payload::List(items), SpaceData::Tuple(vs)) = (p, v) {
            assert forall|i: int| 0 <= i < spaces.len() implies (#[trigger] spaces@[i]).contains(
                vs@[i],
            ) by {
                assert(decreases_to!(s => s->spaces));
                assert(decreases_to!(s->spaces => spaces[i]));
                lemma_decoded_value_belongs(spaces@[i], items@[i], vs@[i]);
            }
        }
    }
}

/// A payload reads as at most one value of a space.
pub proof fn lemma_decodes_unique(s: SpaceTemplate, p: Payload, v: SpaceData, w: SpaceData)
    requires
        s.decodes(p, v),
        s.decodes(p, w),
    ensures
        same_value(v, w),
    decreases s,
{
    if let SpaceTemplate::Tuple { spaces } = s {
        if let (Payload::List(items), SpaceData::Tuple(vs), SpaceData::Tuple(ws)) = (p, v, w) {
            assert forall|i: int| 0 <= i < vs.len() implies same_value(#[trigger] vs@[i], ws@[i]) by {
                assert(decreases_to!(s => s->spaces));
                assert(decreases_to!(s->spaces => spaces[i]));
                lemma_decodes_unique(spaces@[i], items@[i], vs@[i], ws@[i]);
            }
        }
    }
}

/// Round trip: encoding a value of a well-formed space and reading the
/// payload back as a value of that space gives the value again, and
/// nothing else.
pub proof fn lemma_round_trip(s: SpaceTemplate, v: SpaceData, p: Payload)
    requires
        s.wf(),
        s.contains(v),
        encodes(v, p),
    ensures
        s.decodable(p),
        s.decodes(p, v),
        forall|w: SpaceData| #[trigger] s.decodes(p, w) ==> same_value(v, w),
{
    lemma_encoded_value_decodes(s, v, p);
    assert forall|w: SpaceData| #[trigger] s.decodes(p, w) implies same_value(v, w) by {
        lemma_decodes_unique(s, p, v, w);
    }
}

/// Encoding a value of a well-formed space gives a payload that reads
/// back as that value.
pub proof fn lemma_encoded_value_decodes(s: SpaceTemplate, v: SpaceData, p: Payload)
    requires
        s.wf(),
        s.contains(v),
        encodes(v, p),
    ensures
        s.decodable(p),
        s.decodes(p, v),
    decreases s,
{
    match s {
        SpaceTemplate::Discrete { .. } => {},
        SpaceTemplate::Box { .. } => {
            if let (SpaceData::Box(xs), Payload::List(items)) = (v, p) {
                lemma_flat_real_items(items@, xs@);
            }
        },
        SpaceTemplate::Tuple { spaces } => {
            if let (SpaceData::Tuple(vs), Payload::List(items)) = (v, p) {
                assert forall|i: int| 0 <= i < spaces.len() implies (#[trigger] spaces@[i]).decodes(
                    items@[i],
                    vs@[i],
                ) && spaces@[i].decodable(items@[i]) by {
                    assert(decreases_to!(s => s->spaces));
                    assert(decreases_to!(s->spaces => spaces[i]));
                    lemma_encoded_value_decodes(spaces@[i], vs@[i], items@[i]);
                }
            }
        },
    }
}

} // verus!
