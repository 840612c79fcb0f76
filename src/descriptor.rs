use crate::error::GymError;
use crate::number::Real;
use crate::payload::{flat_reals, Payload};
use crate::space_template::{shape_size, SpaceTemplate};
use vstd::prelude::*;

verus! {

/// The engine's own description of a space, as read off the engine: the
/// name of its kind and whichever of the known fields it has.
#[derive(Debug)]
pub struct Descriptor {
    /// The kind's name, such as `Discrete`, `Box` or `Tuple`.
    pub kind: String,
    /// The number of indices of a discrete space.
    pub n: Option<Payload>,
    /// The dimensions of a box.
    pub shape: Option<Payload>,
    /// The lower bounds of a box, as an array of any nesting depth.
    pub low: Option<Payload>,
    /// The upper bounds of a box, as an array of any nesting depth.
    pub high: Option<Payload>,
    /// The member descriptions of a tuple, found by looking up index 0, 1,
    /// ... until one is absent.
    pub items: Vec<Descriptor>,
}

/// A positive count that fits in `usize`.
pub open spec fn count_of(p: Payload) -> Option<usize> {
    match p {
        Payload::Int(k) => if 0 < k <= usize::MAX {
            Some(k as usize)
        } else {
            None
        },
        _ => None,
    }
}

pub open spec fn dims_ok(dims: Seq<Payload>) -> bool {
    forall|i: int| 0 <= i < dims.len() ==> (#[trigger] count_of(dims[i])) is Some
}

pub open spec fn dims_shape(dims: Seq<Payload>) -> Seq<usize> {
    Seq::new(
        dims.len(),
        |i: int|
            match count_of(dims[i]) {
                Some(k) => k,
                None => 0,
            },
    )
}

/// A box description whose bounds flatten to `low` and `high`, whose
/// dimensions are positive counts with a product that fits in `usize` and
/// equals the number of bounds of each kind, and whose every lower bound is
/// below its upper bound.
pub open spec fn box_fields_ok(d: Descriptor, low: Seq<Real>, high: Seq<Real>) -> bool {
    &&& d.shape matches Some(Payload::List(dims))
    &&& dims_ok(dims@)
    &&& d.low matches Some(lp)
    &&& flat_reals(lp) == Some(low)
    &&& d.high matches Some(hp)
    &&& flat_reals(hp) == Some(high)
    &&& low.len() == shape_size(dims_shape(dims@))
    &&& low.len() <= usize::MAX
    &&& high.len() == low.len()
    &&& forall|i: int| 0 <= i < low.len() ==> (#[trigger] low[i]).lt_spec(high[i])
}

pub open spec fn box_ok(d: Descriptor) -> bool {
    match (d.low, d.high) {
        (Some(lp), Some(hp)) => match (flat_reals(lp), flat_reals(hp)) {
            (Some(low), Some(high)) => box_fields_ok(d, low, high),
            _ => false,
        },
        _ => false,
    }
}

/// The error that reading a description gives, or `None` when it
/// describes a space. Tuple members are read in order and the first error
/// wins.
pub open spec fn descriptor_error(d: Descriptor) -> Option<GymError>
    decreases d,
{
    if d.kind@ == "Discrete"@ {
        if d.n matches Some(p) && count_of(p) is Some {
            None
        } else {
            Some(GymError::InvalidDescriptor)
        }
    } else if d.kind@ == "Box"@ {
        if box_ok(d) {
            None
        } else {
            Some(GymError::InvalidDescriptor)
        }
    } else if d.kind@ == "Tuple"@ {
        items_error(d.items@)
    } else {
        Some(GymError::UnrecognizedDescriptor(d.kind))
    }
}

/// The first error among member descriptions.
pub open spec fn items_error(s: Seq<Descriptor>) -> Option<GymError>
    decreases s,
{
    if s.len() == 0 {
        None
    } else {
        match items_error(s.drop_last()) {
            Some(e) => Some(e),
            None => descriptor_error(s.last()),
        }
    }
}

/// `t` is the space that `d` describes.
pub open spec fn describes(d: Descriptor, t: SpaceTemplate) -> bool
    decreases d,
{
    match t {
        SpaceTemplate::Discrete { n } => {
            &&& d.kind@ == "Discrete"@
            &&& d.n matches Some(p)
            &&& count_of(p) == Some(n)
        },
        SpaceTemplate::Box { high, low, shape } => {
            &&& d.kind@ == "Box"@
            &&& box_fields_ok(d, low@, high@)
            &&& d.shape matches Some(Payload::List(dims))
            &&& shape@ == dims_shape(dims@)
        },
        SpaceTemplate::Tuple { spaces } => {
            &&& d.kind@ == "Tuple"@
            &&& spaces.len() == d.items.len()
            &&& forall|i: int|
                0 <= i < spaces.len() ==> describes(#[trigger] d.items[i], spaces@[i])
        },
    }
}

fn kind_is(kind: &String, name: &str) -> (r: bool)
    ensures
        r == (kind@ == name@),
{
    *kind == name.to_owned()
}

/// Dimensions that are all at least one only grow in product.
pub proof fn lemma_shape_size_prefix(shape: Seq<usize>, i: int)
    requires
        0 <= i <= shape.len(),
        forall|j: int| 0 <= j < shape.len() ==> #[trigger] shape[j] > 0,
    ensures
        1 <= shape_size(shape.subrange(0, i)) <= shape_size(shape),
    decreases shape.len(),
{
    if shape.len() == 0 {
        assert(shape.subrange(0, i) =~= shape);
    } else {
        let s = shape.drop_last();
        lemma_shape_size_prefix(s, s.len() as int);
        assert(s.subrange(0, s.len() as int) =~= s);
        let a = shape_size(s);
        let b = shape.last() as int;
        assert(a <= a * b) by (nonlinear_arith)
            requires
                a >= 1,
                b >= 1,
        ;
        assert(shape_size(shape) == a * b);
        if i == shape.len() {
            assert(shape.subrange(0, i) =~= shape);
        } else {
            lemma_shape_size_prefix(s, i);
            assert(s.subrange(0, i) =~= shape.subrange(0, i));
        }
    }
}

/// Once a member description fails, the first failure stays the same
/// however many members follow.
pub proof fn lemma_items_error_prefix(s: Seq<Descriptor>, i: int)
    requires
        0 <= i <= s.len(),
        items_error(s.subrange(0, i)) is Some,
    ensures
        items_error(s) == items_error(s.subrange(0, i)),
    decreases s.len(),
{
    if i < s.len() {
        assert(s.drop_last().subrange(0, i) =~= s.subrange(0, i));
        lemma_items_error_prefix(s.drop_last(), i);
    } else {
        assert(s.subrange(0, i) =~= s);
    }
}

impl SpaceTemplate {
    /// Reads the space that an engine description stands for. A kind
    /// other than `Discrete`, `Box` and `Tuple` is refused as
    /// unrecognized; a known kind with a missing or malformed field, or a
    /// box whose bounds do not fit its shape or are not ordered, is
    /// refused as invalid.
    pub fn extract_template(pyo: &Descriptor) -> (r: Result<SpaceTemplate, GymError>)
        ensures
            r is Ok <==> descriptor_error(*pyo) is None,
            r matches Ok(t) ==> describes(*pyo, t) && t.wf(),
            r matches Err(e) ==> descriptor_error(*pyo) == Some(e),
        decreases pyo,
    {
        if kind_is(&pyo.kind, "Discrete") {
            match &pyo.n {
                Some(Payload::Int(k)) => {
                    if 0 < *k && *k <= usize::MAX as i128 {
                        return Ok(SpaceTemplate::Discrete { n: *k as usize });
                    }
                },
                _ => {},
            }
            Err(GymError::InvalidDescriptor)
        } else if kind_is(&pyo.kind, "Box") {
            Self::extract_box(pyo)
        } else if kind_is(&pyo.kind, "Tuple") {
            let items = &pyo.items;
            let mut spaces: Vec<SpaceTemplate> = Vec::new();
            let mut i: usize = 0;
            while i < items.len()
                invariant
                    items == &pyo.items,
                    pyo.kind@ != "Discrete"@,
                    pyo.kind@ != "Box"@,
                    pyo.kind@ == "Tuple"@,
                    i <= items.len(),
                    spaces.len() == i,
                    items_error(items@.subrange(0, i as int)) is None,
                    forall|j: int| 0 <= j < i ==> describes(#[trigger] items[j], spaces@[j]),
                    forall|j: int| 0 <= j < i ==> (#[trigger] spaces@[j]).wf(),
                decreases items.len() - i,
            {
                proof {
                    assert(decreases_to!(*pyo => pyo.items));
                    assert(decreases_to!(pyo.items => items[i as int]));
                }
                let step = Self::extract_template(&items[i]);
                proof {
                    let s = items@.subrange(0, i + 1);
                    assert(s.drop_last() =~= items@.subrange(0, i as int));
                    assert(s.last() == items[i as int]);
                }
                match step {
                    Ok(t) => {
                        spaces.push(t);
                    },
                    Err(e) => {
                        proof {
                            lemma_items_error_prefix(items@, i + 1);
                        }
                        return Err(e);
                    },
                }
                i = i + 1;
            }
            proof {
                assert(items@.subrange(0, items.len() as int) =~= items@);
            }
            Ok(SpaceTemplate::Tuple { spaces })
        } else {
            Err(GymError::UnrecognizedDescriptor(pyo.kind.clone()))
        }
    }

    fn extract_box(pyo: &Descriptor) -> (r: Result<SpaceTemplate, GymError>)
        requires
            pyo.kind@ == "Box"@,
        ensures
            r is Ok <==> box_ok(*pyo),
            r matches Ok(t) ==> describes(*pyo, t) && t.wf(),
            r matches Err(e) ==> e == GymError::InvalidDescriptor,
    {
        let dims = match &pyo.shape {
            Some(Payload::List(dims)) => dims,
            _ => {
                return Err(GymError::InvalidDescriptor);
            },
        };
        let mut shape: Vec<usize> = Vec::new();
        let mut size: usize = 1;
        let mut i: usize = 0;
        while i < dims.len()
            invariant
                pyo.shape == Some(Payload::List(*dims)),
                i <= dims.len(),
                shape@ == dims_shape(dims@.subrange(0, i as int)),
                dims_ok(dims@.subrange(0, i as int)),
                size as int == shape_size(shape@),
            decreases dims.len() - i,
        {
            let k: usize = match &dims[i] {
                Payload::Int(k) => {
                    if 0 < *k && *k <= usize::MAX as i128 {
                        *k as usize
                    } else {
                        proof {
                            assert(count_of(dims@[i as int]) is None);
                        }
                        return Err(GymError::InvalidDescriptor);
                    }
                },
                _ => {
                    proof {
                        assert(count_of(dims@[i as int]) is None);
                    }
                    return Err(GymError::InvalidDescriptor);
                },
            };
            let ghost old_shape = shape@;
            shape.push(k);
            proof {
                assert(shape@ =~= dims_shape(dims@.subrange(0, i + 1)));
                assert(dims_ok(dims@.subrange(0, i + 1)));
                assert(shape@.drop_last() =~= old_shape);
            }
            match size.checked_mul(k) {
                Some(m) => {
                    size = m;
                },
                None => {
                    proof {
                        if box_ok(*pyo) {
                            let full = dims_shape(dims@);
                            assert(full.subrange(0, i + 1) =~= shape@);
                            lemma_shape_size_prefix(full, i + 1);
                        }
                    }
                    return Err(GymError::InvalidDescriptor);
                },
            }
            i = i + 1;
        }
        proof {
            assert(dims@.subrange(0, dims.len() as int) =~= dims@);
        }
        let low = match &pyo.low {
            Some(p) => match p.flatten() {
                Ok(v) => v,
                Err(_) => {
                    return Err(GymError::InvalidDescriptor);
                },
            },
            None => {
                return Err(GymError::InvalidDescriptor);
            },
        };
        let high = match &pyo.high {
            Some(p) => match p.flatten() {
                Ok(v) => v,
                Err(_) => {
                    return Err(GymError::InvalidDescriptor);
                },
            },
            None => {
                return Err(GymError::InvalidDescriptor);
            },
        };
        if low.len() != size || high.len() != size {
            return Err(GymError::InvalidDescriptor);
        }
        proof {
            assert(box_ok(*pyo) ==> box_fields_ok(*pyo, low@, high@));
        }
        let mut j: usize = 0;
        while j < low.len()
            invariant
                box_ok(*pyo) ==> box_fields_ok(*pyo, low@, high@),
                high.len() == low.len(),
                j <= low.len(),
                forall|m: int| 0 <= m < j ==> (#[trigger] low@[m]).lt_spec(high@[m]),
            decreases low.len() - j,
        {
            if !low[j].lt(&high[j]) {
                return Err(GymError::InvalidDescriptor);
            }
            j = j + 1;
        }
        proof {
            assert(box_fields_ok(*pyo, low@, high@));
        }
        Ok(SpaceTemplate::Box { high, low, shape })
    }
}

} // verus!
