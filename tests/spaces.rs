use gym::descriptor::Descriptor;
use gym::error::GymError;
use gym::number::Real;
use gym::payload::{probe_items, Payload};
use gym::space::tuples;
use gym::space_data::SpaceData;
use gym::space_template::SpaceTemplate;
use rand::rngs::StdRng;
use rand::{Rng, SeedableRng};

fn re(x: f64) -> Real {
    Real::from_bits(x.to_bits())
}

fn float(r: &Real) -> f64 {
    f64::from_bits(r.to_bits())
}

fn reals(xs: &[f64]) -> Payload {
    Payload::List(xs.iter().map(|x| Payload::Real(re(*x))).collect())
}

fn ints(xs: &[i128]) -> Payload {
    Payload::List(xs.iter().map(|x| Payload::Int(*x)).collect())
}

fn bare(kind: &str) -> Descriptor {
    Descriptor { kind: kind.to_string(), n: None, shape: None, low: None, high: None, items: vec![] }
}

fn discrete(n: i128) -> Descriptor {
    Descriptor { n: Some(Payload::Int(n)), ..bare("Discrete") }
}

fn boxed(shape: &[i128], low: Payload, high: Payload) -> Descriptor {
    Descriptor { shape: Some(ints(shape)), low: Some(low), high: Some(high), ..bare("Box") }
}

fn tuple(items: Vec<Descriptor>) -> Descriptor {
    Descriptor { items, ..bare("Tuple") }
}

fn template(d: &Descriptor) -> SpaceTemplate {
    SpaceTemplate::extract_template(d).unwrap()
}

/// Draws from the real slots of a space uniformly, as a caller must.
fn draw_reals(space: &SpaceTemplate, rng: &mut StdRng) -> Vec<Real> {
    space
        .real_slots()
        .iter()
        .map(|(lo, hi)| re(rng.gen_range(float(lo)..float(hi))))
        .collect()
}

/// Whether `v` is a value of `space`, checked by hand.
fn belongs(space: &SpaceTemplate, v: &SpaceData) -> bool {
    match (space, v) {
        (SpaceTemplate::Discrete { n }, SpaceData::Discrete(k)) => k < n,
        (SpaceTemplate::Box { shape, .. }, SpaceData::Box(xs)) => xs.len() == shape.iter().product::<usize>(),
        (SpaceTemplate::Tuple { spaces }, SpaceData::Tuple(vs)) => {
            spaces.len() == vs.len() && spaces.iter().zip(vs.iter()).all(|(s, v)| belongs(s, v))
        },
        _ => false,
    }
}

#[test]
fn samples_belong_to_nested_spaces() {
    let mut rng = StdRng::seed_from_u64(7);
    let d = tuple(vec![
        discrete(3),
        boxed(&[2, 2], reals(&[-1.0, -2.0, 0.0, 5.0]), reals(&[1.0, 2.0, 0.5, 6.0])),
        tuple(vec![discrete(1), boxed(&[1], reals(&[10.0]), reals(&[11.0]))]),
        tuple(vec![]),
    ]);
    let space = template(&d);
    for _ in 0..200 {
        let xs = draw_reals(&space, &mut rng);
        let v = space.sample(&mut rng, &xs).unwrap();
        assert!(belongs(&space, &v));
        assert!(space.is_valid());
    }
}

#[test]
fn box_round_trip() {
    let space = template(&boxed(&[3], reals(&[0.0, -5.0, 1.0]), reals(&[1.0, 5.0, 2.0])));
    let v = SpaceData::Box(vec![re(0.25), re(-4.5), re(1.75)]);
    let p = space.encode(&v).unwrap();
    let back = space.extract_data(&p).unwrap().get_box().unwrap();
    assert_eq!(back, vec![re(0.25), re(-4.5), re(1.75)]);
}

#[test]
fn box_samples_stay_in_bounds() {
    let low = [-1.0, 0.0, 100.0];
    let high = [1.0, 1e-9, 100.5];
    let space = template(&boxed(&[3], reals(&low), reals(&high)));
    let mut rng = StdRng::seed_from_u64(11);
    for _ in 0..10_000 {
        let xs = draw_reals(&space, &mut rng);
        let v = space.sample(&mut rng, &xs).unwrap().get_box().unwrap();
        assert_eq!(v.len(), 3);
        for i in 0..3 {
            let x = float(&v[i]);
            assert!(low[i] <= x && x < high[i]);
        }
    }
}

#[test]
fn sample_refuses_reals_outside_their_slots() {
    let space = template(&boxed(&[2], reals(&[0.0, 0.0]), reals(&[1.0, 1.0])));
    let mut rng = StdRng::seed_from_u64(1);
    assert!(space.sample(&mut rng, &vec![re(0.5), re(1.0)]).is_none());
    assert!(space.sample(&mut rng, &vec![re(-0.1), re(0.5)]).is_none());
    assert!(space.sample(&mut rng, &vec![re(0.5)]).is_none());
    assert!(space.sample(&mut rng, &vec![re(0.0), re(0.999)]).is_some());
}

#[test]
fn discrete_samples_cover_all_indices_evenly() {
    let space = template(&discrete(6));
    let mut rng = StdRng::seed_from_u64(42);
    let mut counts = [0usize; 6];
    for _ in 0..60_000 {
        let k = space.sample(&mut rng, &vec![]).unwrap().get_discrete().unwrap();
        assert!(k < 6);
        counts[k] += 1;
    }
    let expected = 10_000.0;
    let chi2: f64 = counts.iter().map(|&c| (c as f64 - expected).powi(2) / expected).sum();
    // five degrees of freedom: 20.5 is far beyond the 99.9th percentile
    assert!(chi2 < 20.5, "chi-square {}", chi2);
}

#[test]
fn tuple_sample_has_one_value_per_member() {
    let space = template(&tuple(vec![discrete(2), boxed(&[3], reals(&[0.0; 3]), reals(&[1.0; 3]))]));
    let mut rng = StdRng::seed_from_u64(3);
    let xs = draw_reals(&space, &mut rng);
    assert_eq!(xs.len(), 3);
    let vs = space.sample(&mut rng, &xs).unwrap().get_tuple().unwrap();
    assert_eq!(vs.len(), 2);
    assert!(matches!(vs[0], SpaceData::Discrete(k) if k < 2));
    match &vs[1] {
        SpaceData::Box(b) => assert_eq!(b, &xs),
        other => panic!("expected a box, got {:?}", other),
    }
}

#[test]
fn projections_refuse_other_variants() {
    assert_eq!(SpaceData::Discrete(3).get_box(), Err(GymError::WrongType));
    assert!(matches!(SpaceData::Discrete(3).get_tuple(), Err(GymError::WrongType)));
    assert_eq!(SpaceData::Box(vec![]).get_discrete(), Err(GymError::WrongType));
    assert_eq!(SpaceData::Tuple(vec![]).get_box(), Err(GymError::WrongType));
    assert_eq!(SpaceData::Discrete(3).get_discrete(), Ok(3));
    assert_eq!(SpaceData::Box(vec![re(2.5)]).get_box(), Ok(vec![re(2.5)]));
    assert_eq!(SpaceData::Tuple(vec![]).get_tuple().map(|v| v.len()), Ok(0));
}

#[test]
fn three_dimensional_box_flattens_row_major() {
    let space = template(&boxed(&[2, 2, 2], reals(&[0.0; 8]), reals(&[10.0; 8])));
    let p = Payload::List(vec![
        Payload::List(vec![reals(&[1.0, 2.0]), reals(&[3.0, 4.0])]),
        Payload::List(vec![reals(&[5.0, 6.0]), reals(&[7.0, 8.0])]),
    ]);
    let v = space.extract_data(&p).unwrap().get_box().unwrap();
    let got: Vec<f64> = v.iter().map(float).collect();
    assert_eq!(got, vec![1.0, 2.0, 3.0, 4.0, 5.0, 6.0, 7.0, 8.0]);
}

#[test]
fn box_bounds_of_any_depth_are_flattened() {
    let low = Payload::List(vec![ints(&[0, 0]), ints(&[0, 0])]);
    let high = Payload::List(vec![ints(&[255, 255]), ints(&[255, 255])]);
    match template(&boxed(&[2, 2], low, high)) {
        SpaceTemplate::Box { high, low, shape } => {
            assert_eq!(shape, vec![2, 2]);
            assert_eq!(low, vec![re(0.0); 4]);
            assert_eq!(high, vec![re(255.0); 4]);
        },
        other => panic!("expected a box, got {:?}", other),
    }
}

#[test]
fn decoding_reads_flags_ints_and_scalars() {
    let space = template(&tuple(vec![
        discrete(32),
        discrete(2),
        boxed(&[1], reals(&[-10.0]), reals(&[10.0])),
        boxed(&[2], reals(&[-10.0, -10.0]), reals(&[10.0, 10.0])),
    ]));
    let p = Payload::List(vec![
        Payload::Int(14),
        Payload::Flag(true),
        Payload::Int(-3),
        Payload::List(vec![Payload::Flag(false), Payload::Real(re(2.5))]),
    ]);
    let vs = space.extract_data(&p).unwrap().get_tuple().unwrap();
    assert!(matches!(vs[0], SpaceData::Discrete(14)));
    assert!(matches!(vs[1], SpaceData::Discrete(1)));
    match (&vs[2], &vs[3]) {
        (SpaceData::Box(a), SpaceData::Box(b)) => {
            assert_eq!(a, &vec![re(-3.0)]);
            assert_eq!(b, &vec![re(0.0), re(2.5)]);
        },
        _ => panic!("expected boxes"),
    }
}

#[test]
fn decoding_refuses_what_it_cannot_represent() {
    let d = template(&discrete(5));
    assert_eq!(d.extract_data(&Payload::Int(5)).unwrap_err(), GymError::InvalidConversion);
    assert_eq!(d.extract_data(&Payload::Int(-1)).unwrap_err(), GymError::InvalidConversion);
    assert_eq!(d.extract_data(&Payload::Real(re(2.0))).unwrap_err(), GymError::InvalidConversion);
    let b = template(&boxed(&[2], reals(&[0.0, 0.0]), reals(&[1.0, 1.0])));
    assert_eq!(b.extract_data(&reals(&[0.5])).unwrap_err(), GymError::InvalidConversion);
    let text = Payload::List(vec![Payload::Real(re(0.5)), Payload::Text("x".to_string())]);
    assert_eq!(b.extract_data(&text).unwrap_err(), GymError::InvalidConversion);
    let t = template(&tuple(vec![discrete(2), discrete(2)]));
    assert_eq!(t.extract_data(&Payload::Null).unwrap_err(), GymError::InvalidConversion);
    assert_eq!(t.extract_data(&Payload::Opaque).unwrap_err(), GymError::InvalidConversion);
    assert_eq!(t.extract_data(&ints(&[0])).unwrap_err(), GymError::InvalidConversion);
    assert!(t.extract_data(&ints(&[0, 1])).is_ok());
}

#[test]
fn encoding_checks_the_value_against_the_space() {
    let t = template(&tuple(vec![discrete(2), boxed(&[2], reals(&[0.0, 0.0]), reals(&[1.0, 1.0]))]));
    let ok = SpaceData::Tuple(vec![SpaceData::Discrete(1), SpaceData::Box(vec![re(0.5), re(0.25)])]);
    match t.encode(&ok).unwrap() {
        Payload::List(items) => {
            assert_eq!(items.len(), 2);
            assert!(matches!(items[0], Payload::Int(1)));
        },
        other => panic!("expected a list, got {:?}", other),
    }
    let wrong_index = SpaceData::Tuple(vec![SpaceData::Discrete(2), SpaceData::Box(vec![re(0.5), re(0.25)])]);
    assert_eq!(t.encode(&wrong_index).unwrap_err(), GymError::InvalidAction);
    let wrong_len = SpaceData::Tuple(vec![SpaceData::Discrete(0), SpaceData::Box(vec![re(0.5)])]);
    assert_eq!(t.encode(&wrong_len).unwrap_err(), GymError::InvalidAction);
    assert_eq!(t.encode(&SpaceData::Discrete(0)).unwrap_err(), GymError::InvalidAction);
}

#[test]
fn descriptors_of_unknown_kinds_are_refused() {
    let err = SpaceTemplate::extract_template(&bare("MultiBinary")).unwrap_err();
    assert_eq!(err, GymError::UnrecognizedDescriptor("MultiBinary".to_string()));
    let nested = tuple(vec![discrete(2), bare("Dict"), bare("Text")]);
    let err = SpaceTemplate::extract_template(&nested).unwrap_err();
    assert_eq!(err, GymError::UnrecognizedDescriptor("Dict".to_string()));
}

#[test]
fn malformed_descriptors_are_refused() {
    let invalid = |d: Descriptor| SpaceTemplate::extract_template(&d).unwrap_err() == GymError::InvalidDescriptor;
    assert!(invalid(discrete(0)));
    assert!(invalid(bare("Discrete")));
    assert!(invalid(Descriptor { n: Some(Payload::Real(re(3.0))), ..bare("Discrete") }));
    // bounds that do not match the shape
    assert!(invalid(boxed(&[3], reals(&[0.0, 0.0]), reals(&[1.0, 1.0]))));
    // a lower bound that is not below its upper bound
    assert!(invalid(boxed(&[2], reals(&[0.0, 1.0]), reals(&[1.0, 1.0]))));
    assert!(invalid(boxed(&[1], reals(&[f64::NAN]), reals(&[1.0]))));
    // a dimension that is not positive
    assert!(invalid(boxed(&[0], reals(&[]), reals(&[]))));
    assert!(invalid(Descriptor { shape: None, ..boxed(&[1], reals(&[0.0]), reals(&[1.0])) }));
    assert!(invalid(tuple(vec![discrete(2), discrete(-1)])));
    // a product of dimensions beyond any length
    assert!(invalid(boxed(&[1 << 40, 1 << 40, 1 << 40], reals(&[0.0]), reals(&[1.0]))));
}

#[test]
fn scalar_box_has_one_component() {
    let space = template(&boxed(&[], reals(&[-1.0]), reals(&[1.0])));
    let v = space.extract_data(&Payload::Real(re(0.5))).unwrap();
    assert_eq!(v.get_box().unwrap(), vec![re(0.5)]);
}

#[test]
fn probing_stops_at_the_first_absent_index() {
    let members = [10, 20, 30];
    let found = probe_items(|i: usize| members.get(i).copied(), 100);
    assert_eq!(found, vec![10, 20, 30]);
    let capped = probe_items(|i: usize| Some(i * 2), 4);
    assert_eq!(capped, vec![0, 2, 4, 6]);
    let none: Vec<u8> = probe_items(|_| None, 4);
    assert!(none.is_empty());
}

#[test]
fn tuples_enumerate_positions_row_major() {
    assert_eq!(tuples(&[]), Vec::<Vec<u64>>::new());
    assert_eq!(tuples(&[3]), vec![vec![0], vec![1], vec![2]]);
    assert_eq!(
        tuples(&[2, 3]),
        vec![vec![0, 0], vec![0, 1], vec![0, 2], vec![1, 0], vec![1, 1], vec![1, 2]]
    );
    assert_eq!(tuples(&[2, 0, 3]).len(), 0);
    let all = tuples(&[2, 2, 2]);
    assert_eq!(all.len(), 8);
    assert_eq!(all[5], vec![1, 0, 1]);
}

#[test]
fn hand_built_spaces_are_checked() {
    let ok = SpaceTemplate::Box { high: vec![re(1.0), re(2.0)], low: vec![re(0.0), re(0.0)], shape: vec![2] };
    assert!(ok.is_valid());
    let unordered = SpaceTemplate::Box { high: vec![re(1.0), re(0.0)], low: vec![re(0.0), re(0.0)], shape: vec![2] };
    assert!(!unordered.is_valid());
    let short = SpaceTemplate::Box { high: vec![re(1.0)], low: vec![re(0.0)], shape: vec![2] };
    assert!(!short.is_valid());
    let flat = SpaceTemplate::Box { high: vec![], low: vec![], shape: vec![2, 0] };
    assert!(!flat.is_valid());
    let huge = SpaceTemplate::Box { high: vec![re(1.0)], low: vec![re(0.0)], shape: vec![usize::MAX, 2] };
    assert!(!huge.is_valid());
    assert!(!SpaceTemplate::Discrete { n: 0 }.is_valid());
    let nested = SpaceTemplate::Tuple { spaces: vec![SpaceTemplate::Discrete { n: 2 }, SpaceTemplate::Discrete { n: 0 }] };
    assert!(!nested.is_valid());
    assert!(SpaceTemplate::Tuple { spaces: vec![] }.is_valid());
}

#[test]
fn copies_hold_the_same_data() {
    let v = SpaceData::Tuple(vec![SpaceData::Discrete(4), SpaceData::Box(vec![re(1.5), re(-2.0)])]);
    let w = v.clone();
    let vs = w.get_tuple().unwrap();
    assert!(matches!(vs[0], SpaceData::Discrete(4)));
    match &vs[1] {
        SpaceData::Box(b) => assert_eq!(b, &vec![re(1.5), re(-2.0)]),
        other => panic!("expected a box, got {:?}", other),
    }
}

#[test]
fn blackjack_observations_read_flags_as_indices() {
    let space = template(&tuple(vec![discrete(32), discrete(11), discrete(2)]));
    let p = Payload::List(vec![Payload::Int(20), Payload::Int(10), Payload::Flag(false)]);
    let vs = space.extract_data(&p).unwrap().get_tuple().unwrap();
    assert!(matches!(vs[..], [SpaceData::Discrete(20), SpaceData::Discrete(10), SpaceData::Discrete(0)]));
}
