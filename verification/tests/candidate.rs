use std::cmp::Ordering;
use caligula::candidate::{Candidate, Candidates, Certainty, Reason};

fn reason(bits: u64) -> Reason {
    Reason::new(Certainty::Partial(bits), format!("{bits} bits"))
}

#[test]
fn certainty_zero_and_default_are_no_bits() {
    assert_eq!(Certainty::zero(), Certainty::Partial(0));
    assert_eq!(Certainty::default(), Certainty::Partial(0));
}

#[test]
fn certainty_addition_saturates_and_perfect_absorbs() {
    assert_eq!(Certainty::Partial(3) + Certainty::Partial(4), Certainty::Partial(7));
    assert_eq!(
        Certainty::Partial(u64::MAX - 1) + Certainty::Partial(5),
        Certainty::Partial(u64::MAX)
    );
    assert_eq!(Certainty::Partial(3) + Certainty::Perfect, Certainty::Perfect);
    assert_eq!(Certainty::Perfect + Certainty::Partial(0), Certainty::Perfect);
    let mut c = Certainty::Partial(10);
    c += Certainty::Partial(5);
    assert_eq!(c, Certainty::Partial(15));
}

#[test]
fn certainty_sum_of_lists() {
    assert_eq!(Certainty::sum(&[]), Certainty::Partial(0));
    assert_eq!(
        Certainty::sum(&[Certainty::Partial(1), Certainty::Partial(2), Certainty::Partial(3)]),
        Certainty::Partial(6)
    );
    assert_eq!(
        Certainty::sum(&[Certainty::Partial(u64::MAX), Certainty::Partial(u64::MAX)]),
        Certainty::Partial(u64::MAX)
    );
    assert_eq!(
        Certainty::sum(&[Certainty::Partial(1), Certainty::Perfect, Certainty::Partial(3)]),
        Certainty::Perfect
    );
}

#[test]
fn certainty_order() {
    assert!(Certainty::Partial(1).is_less_than(&Certainty::Partial(2)));
    assert!(!Certainty::Partial(2).is_less_than(&Certainty::Partial(2)));
    assert!(Certainty::Partial(u64::MAX).is_less_than(&Certainty::Perfect));
    assert!(!Certainty::Perfect.is_less_than(&Certainty::Perfect));
    assert!(!Certainty::Perfect.is_less_than(&Certainty::Partial(0)));
}

#[test]
fn reason_accessors() {
    let r = Reason::new(Certainty::Partial(24), "file extension .gz".to_string());
    assert_eq!(r.certainty(), Certainty::Partial(24));
    assert_eq!(r.description(), "file extension .gz");
}

#[test]
fn candidate_certainty_is_sum_of_reasons() {
    let c = Candidate::new("gzip", vec![reason(16), reason(24)]);
    assert_eq!(c.certainty(), Certainty::Partial(40));
    assert_eq!(*c.value(), "gzip");
    let none: Candidate<u8> = Candidate::new(1, vec![]);
    assert_eq!(none.certainty(), Certainty::Partial(0));
}

#[test]
fn candidate_value_mut_changes_value() {
    let mut c = Candidate::new(1u32, vec![reason(5)]);
    *c.value_mut() = 9;
    assert_eq!(*c.value(), 9);
    assert_eq!(c.certainty(), Certainty::Partial(5));
}

#[test]
fn candidate_ordering_by_certainty_then_value() {
    let a = Candidate::new(5u32, vec![reason(10)]);
    let b = Candidate::new(1u32, vec![reason(20)]);
    let c = Candidate::new(7u32, vec![reason(10)]);
    assert_eq!(a.cmp(&b), Ordering::Less);
    assert_eq!(b.cmp(&a), Ordering::Greater);
    assert_eq!(a.cmp(&c), Ordering::Less);
    assert_eq!(a.cmp(&a), Ordering::Equal);
    assert_eq!(a.partial_cmp(&c), Some(Ordering::Less));
    assert!(a == Candidate::new(5u32, vec![reason(4), reason(6)]));
    assert!(a != c);
}

#[test]
fn likeliest_of_empty_is_empty() {
    let cs: Candidates<u8> = Candidates::new(vec![]);
    assert!(cs.likeliest().is_empty());
}

#[test]
fn likeliest_follows_the_module_example() {
    // two reasons for gzip against one for a raw disk; the extension breaks the tie
    const PATH_MAX: u64 = 4096;
    let gzip = Candidate::new(
        "gzip",
        vec![
            Reason::new(Certainty::Partial(24), "extension .gz".to_string()),
            Reason::new(Certainty::Partial(16 + PATH_MAX * 8), "magic 1f 8b".to_string()),
        ],
    );
    let raw = Candidate::new(
        "raw disk",
        vec![Reason::new(Certainty::Partial(16 + PATH_MAX * 8), "55 aa at 510".to_string())],
    );
    let cs = Candidates::new(vec![gzip, raw]);
    let top = cs.likeliest();
    assert_eq!(top.len(), 1);
    assert_eq!(*top[0].value(), "gzip");
}

#[test]
fn likeliest_keeps_all_ties_in_order() {
    let mut cs = Candidates::new(vec![Candidate::new(3u32, vec![reason(8)])]);
    cs.add(Candidate::new(3u32, vec![reason(8)]));
    cs.add(Candidate::new(1u32, vec![reason(8)]));
    cs.add(Candidate::new(3u32, vec![reason(2), reason(6)]));
    cs.add(Candidate::new(9u32, vec![reason(7)]));
    let top = cs.likeliest();
    let values: Vec<u32> = top.iter().map(|c| *c.value()).collect();
    assert_eq!(values, vec![3, 3, 1, 3]);
    assert!(top.iter().all(|c| c.certainty() == Certainty::Partial(8)));
    assert_eq!(cs.all_candidates().len(), 5);
}

#[test]
fn likeliest_prefers_perfect_certainty() {
    let cs = Candidates::new(vec![
        Candidate::new(9u32, vec![reason(u64::MAX)]),
        Candidate::new(0u32, vec![Reason::new(Certainty::Perfect, "said so".to_string())]),
    ]);
    let top = cs.likeliest();
    assert_eq!(top.len(), 1);
    assert_eq!(*top[0].value(), 0);
}

#[test]
fn likeliest_returns_every_candidate_tying_on_certainty() {
    let cs = Candidates::new(vec![
        Candidate::new(1u8, vec![Reason::new(Certainty::Partial(8), "a".to_string())]),
        Candidate::new(2u8, vec![Reason::new(Certainty::Partial(8), "b".to_string())]),
    ]);
    let values: Vec<u8> = cs.likeliest().iter().map(|c| *c.value()).collect();
    assert_eq!(values, vec![1, 2]);

    let cs = Candidates::new(vec![
        Candidate::new(2u32, vec![reason(1)]),
        Candidate::new(5u32, vec![reason(1)]),
        Candidate::new(4u32, vec![reason(1)]),
    ]);
    let values: Vec<u32> = cs.likeliest().iter().map(|c| *c.value()).collect();
    assert_eq!(values, vec![2, 5, 4]);
}

#[test]
fn certainty_addition_laws_on_examples() {
    let (a, b, c) = (Certainty::Partial(7), Certainty::Partial(u64::MAX - 3), Certainty::Perfect);
    assert_eq!(a + b, b + a);
    assert_eq!((a + b) + Certainty::Partial(1), a + (b + Certainty::Partial(1)));
    assert_eq!((a + b) + c, a + (b + c));
    assert_eq!(a + Certainty::zero(), a);
    assert!(!(a + b).is_less_than(&a));
    // the derived order agrees with the rank order
    assert!(Certainty::Partial(3) < Certainty::Partial(4));
    assert!(Certainty::Partial(u64::MAX) < Certainty::Perfect);
}

#[test]
fn certainty_sum_of_concatenation() {
    let s = [Certainty::Partial(5), Certainty::Partial(6)];
    let t = [Certainty::Partial(u64::MAX), Certainty::Partial(1)];
    let st: Vec<Certainty> = s.iter().chain(t.iter()).copied().collect();
    assert_eq!(Certainty::sum(&st), Certainty::sum(&s) + Certainty::sum(&t));
    let folded = st.iter().fold(Certainty::default(), |acc, x| acc + *x);
    assert_eq!(Certainty::sum(&st), folded);
}

#[test]
fn adding_a_more_certain_candidate_makes_it_the_only_likeliest() {
    let mut cs = Candidates::new(vec![
        Candidate::new(1u32, vec![reason(10)]),
        Candidate::new(2u32, vec![reason(10)]),
    ]);
    assert_eq!(cs.likeliest().len(), 2);
    cs.add(Candidate::new(0u32, vec![reason(10), reason(1)]));
    let top = cs.likeliest();
    assert_eq!(top.len(), 1);
    assert_eq!(*top[0].value(), 0);
    assert_eq!(top[0].certainty(), Certainty::Partial(11));
}

#[test]
fn adding_a_less_certain_candidate_changes_nothing() {
    let mut cs = Candidates::new(vec![
        Candidate::new(1u32, vec![reason(10)]),
        Candidate::new(2u32, vec![reason(10)]),
    ]);
    let before: Vec<u32> = cs.likeliest().iter().map(|c| *c.value()).collect();
    cs.add(Candidate::new(99u32, vec![reason(9)]));
    let after: Vec<u32> = cs.likeliest().iter().map(|c| *c.value()).collect();
    assert_eq!(before, after);
    assert_eq!(after, vec![1, 2]);
}

#[test]
fn reason_order_does_not_change_certainty() {
    let a = Candidate::new(0u8, vec![reason(u64::MAX), reason(3), reason(4)]);
    let b = Candidate::new(0u8, vec![reason(4), reason(u64::MAX), reason(3)]);
    assert_eq!(a.certainty(), b.certainty());
    let c = Candidate::new(0u8, vec![reason(3), Reason::new(Certainty::Perfect, "x".to_string())]);
    let d = Candidate::new(0u8, vec![Reason::new(Certainty::Perfect, "x".to_string()), reason(3)]);
    assert_eq!(c.certainty(), d.certainty());
    let more = Candidate::new(0u8, vec![reason(4), reason(u64::MAX), reason(3), reason(1)]);
    assert!(!more.certainty().is_less_than(&b.certainty()));
}

#[test]
fn str_candidates_order_by_certainty_before_value() {
    let low = Candidate::new("zzz", vec![reason(1)]);
    let high = Candidate::new("aaa", vec![reason(2)]);
    assert_eq!(low.cmp(&high), Ordering::Less);
    assert_eq!(high.cmp(&low), Ordering::Greater);
    let tie = Candidate::new("bbb", vec![reason(1)]);
    assert_eq!(low.cmp(&tie), Ordering::Greater);
    assert!(low != Candidate::new("zzz", vec![reason(2)]));
}
