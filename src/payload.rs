use crate::error::GymError;
use crate::number::{int_bits, int_in_exact_range, Real, ONE_BITS};
use vstd::prelude::*;

verus! {

/// A value as the engine hands it over or takes it, independent of the
/// transport that carried it.
#[derive(Debug)]
pub enum Payload {
    Flag(bool),
    Int(i128),
    Real(Real),
    /// An ordered composite: a list, a tuple or an array of any depth.
    List(Vec<Payload>),
    Text(String),
    Null,
    /// A keyed map, or any other engine value with no representation here.
    Opaque,
}

/// The real that a scalar payload stands for: flags are 0 or 1, integers
/// are taken exactly when they can be.
pub open spec fn scalar_real(p: Payload) -> Option<Real> {
    match p {
        Payload::Flag(b) => Some(Real { bits: if b { ONE_BITS } else { 0 } }),
        Payload::Int(k) => if int_in_exact_range(k as int) {
            Some(Real { bits: int_bits(k as int) as u64 })
        } else {
            None
        },
        Payload::Real(r) => Some(r),
        _ => None,
    }
}

/// The reals of a payload in row-major order, at any nesting depth; `None`
/// when some leaf is not a number or a flag.
pub open spec fn flat_reals(p: Payload) -> Option<Seq<Real>>
    decreases p,
{
    match p {
        Payload::List(items) => flat_items(items@),
        _ => match scalar_real(p) {
            Some(r) => Some(seq![r]),
            None => None,
        },
    }
}

/// The reals of a sequence of payloads, one after the other.
pub open spec fn flat_items(items: Seq<Payload>) -> Option<Seq<Real>>
    decreases items,
{
    if items.len() == 0 {
        Some(Seq::empty())
    } else {
        match (flat_items(items.drop_last()), flat_reals(items.last())) {
            (Some(a), Some(b)) => Some(a + b),
            _ => None,
        }
    }
}

impl Payload {
    /// Reads a scalar as a real.
    pub fn scalar_real(&self) -> (r: Option<Real>)
        ensures
            r == scalar_real(*self),
    {
        match self {
            Payload::Flag(b) => Some(Real::from_flag(*b)),
            Payload::Int(k) => Real::from_int(*k),
            Payload::Real(r) => Some(*r),
            _ => None,
        }
    }

    /// Flattens a payload of any nesting depth into its reals, in
    /// row-major order.
    pub fn flatten(&self) -> (r: Result<Vec<Real>, GymError>)
        ensures
            r is Ok <==> flat_reals(*self) is Some,
            r matches Ok(v) ==> flat_reals(*self) == Some(v@),
            r matches Err(e) ==> e == GymError::InvalidConversion,
        decreases self,
    {
        match self {
            Payload::List(items) => {
                let mut out: Vec<Real> = Vec::new();
                let mut i: usize = 0;
                while i < items.len()
                    invariant
                        *self == Payload::List(*items),
                        i <= items.len(),
                        flat_items(items@.subrange(0, i as int)) == Some(out@),
                    decreases items.len() - i,
                {
                    proof {
                        assert(decreases_to!(*self => items[i as int]));
                    }
                    let part = items[i].flatten();
                    match part {
                        Ok(v) => {
                            let ghost before = out@;
                            let mut v = v;
                            out.append(&mut v);
                            proof {
                                let s = items@.subrange(0, i + 1);
                                assert(s.drop_last() =~= items@.subrange(0, i as int));
                                assert(s.last() == items@[i as int]);
                            }
                        },
                        Err(e) => {
                            proof {
                                lemma_flat_items_prefix_fails(items@, i as int);
                            }
                            return Err(e);
                        },
                    }
                    i = i + 1;
                }
                proof {
                    assert(items@.subrange(0, items.len() as int) =~= items@);
                }
                Ok(out)
            },
            _ => match self.scalar_real() {
                Some(x) => Ok(vec![x]),
                None => Err(GymError::InvalidConversion),
            },
        }
    }
}

/// Collects the members of an engine composite that exposes no count: looks
/// up index 0, 1, ... in turn and stops at the first index that the lookup
/// does not find, or once `cap` members were found.
pub fn probe_items<T, F: Fn(usize) -> Option<T>>(lookup: F, cap: usize) -> (r: Vec<T>)
    requires
        forall|i: usize| i < cap ==> call_requires(lookup, (i,)),
    ensures
        r.len() <= cap,
        forall|i: int|
            0 <= i < r.len() ==> call_ensures(lookup, (i as usize,), Some(#[trigger] r@[i])),
        r.len() < cap ==> call_ensures(lookup, (r.len(),), None::<T>),
{
    let mut out: Vec<T> = Vec::new();
    let mut i: usize = 0;
    while i < cap
        invariant
            forall|j: usize| j < cap ==> call_requires(lookup, (j,)),
            i <= cap,
            out.len() == i,
            forall|j: int|
                0 <= j < out.len() ==> call_ensures(lookup, (j as usize,), Some(#[trigger] out@[j])),
        decreases cap - i,
    {
        match lookup(i) {
            Some(x) => {
                out.push(x);
            },
            None => {
                return out;
            },
        }
        i = i + 1;
    }
    out
}

/// Once an element cannot be flattened, no longer prefix can.
pub proof fn lemma_flat_items_prefix_fails(items: Seq<Payload>, i: int)
    requires
        0 <= i < items.len(),
        flat_reals(items[i]) is None,
    ensures
        flat_items(items) is None,
    decreases items.len(),
{
    if i < items.len() - 1 {
        lemma_flat_items_prefix_fails(items.drop_last(), i);
    }
}

} // verus!
