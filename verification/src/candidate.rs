//! Utilities for working with multiple candidate values using entropy-based
//! certainties.
//!
//! Each [`Reason`] carries a [`Certainty`], measured in bits. The certainty of a
//! [`Candidate`] is the saturating sum of the certainties of its reasons, and the
//! likeliest candidates are all those with the greatest certainty. Candidates are
//! ordered by certainty and then by value.

use core::cmp::Ordering;
use core::ops::AddAssign;
use vstd::laws_cmp::obeys_cmp;
use vstd::prelude::*;
use vstd::std_specs::cmp::{OrdSpec, PartialEqSpec, PartialOrdSpec};

verus! {

/// A representation of how certain something is.
#[derive(Debug, Clone, Copy, PartialEq, Eq, Structural, PartialOrd, Ord, Hash)]
pub enum Certainty {
    /// Partial (or zero) certainty, represented in bits.
    Partial(u64),
    /// Perfect certainty (infinity bits).
    Perfect,
}

/// The largest number of bits a partial certainty can hold, plus one: the rank of
/// perfect certainty.
pub open spec fn perfect_rank() -> int {
    u64::MAX + 1
}

impl Certainty {
    /// The position of this certainty in the order `Partial(0) < Partial(1) < ... <
    /// Partial(u64::MAX) < Perfect`.
    pub open spec fn rank(self) -> int {
        match self {
            Certainty::Partial(bits) => bits as int,
            Certainty::Perfect => perfect_rank(),
        }
    }

    /// Saturating addition of certainties; perfect certainty absorbs everything.
    pub open spec fn plus(self, rhs: Certainty) -> Certainty {
        match (self, rhs) {
            (Certainty::Partial(l), Certainty::Partial(r)) => Certainty::Partial(
                if l + r > u64::MAX { u64::MAX } else { (l + r) as u64 },
            ),
            _ => Certainty::Perfect,
        }
    }

    /// No certainty at all.
    pub fn zero() -> (c: Certainty)
        ensures
            c == Certainty::Partial(0),
    {
        Certainty::Partial(0)
    }
}


/// Whether some certainty in `items` is perfect.
pub open spec fn any_perfect(items: Seq<Certainty>) -> bool {
    exists|i: int| 0 <= i < items.len() && items[i] == Certainty::Perfect
}

/// The exact number of bits of all partial certainties in `items`.
pub open spec fn total_bits(items: Seq<Certainty>) -> int
    decreases items.len(),
{
    if items.len() == 0 {
        0
    } else {
        total_bits(items.drop_last()) + match items.last() {
            Certainty::Partial(bits) => bits as int,
            Certainty::Perfect => 0,
        }
    }
}

/// The sum of a sequence of certainties: perfect if any of them is perfect, and
/// otherwise the total number of bits, saturated at `u64::MAX`.
pub open spec fn certainty_sum(items: Seq<Certainty>) -> Certainty {
    if any_perfect(items) {
        Certainty::Perfect
    } else if total_bits(items) > u64::MAX {
        Certainty::Partial(u64::MAX)
    } else {
        Certainty::Partial(total_bits(items) as u64)
    }
}

/// Adding certainties one by one from the left gives `certainty_sum`.
pub proof fn lemma_certainty_sum_step(items: Seq<Certainty>)
    requires
        items.len() > 0,
    ensures
        certainty_sum(items) == certainty_sum(items.drop_last()).plus(items.last()),
{
    let init = items.drop_last();
    assert(any_perfect(items) <==> any_perfect(init) || items.last() == Certainty::Perfect) by {
        if any_perfect(items) && items.last() != Certainty::Perfect {
            let i = choose|i: int| 0 <= i < items.len() && items[i] == Certainty::Perfect;
            assert(init[i] == Certainty::Perfect);
        }
        if any_perfect(init) {
            let i = choose|i: int| 0 <= i < init.len() && init[i] == Certainty::Perfect;
            assert(items[i] == Certainty::Perfect);
        }
        if items.last() == Certainty::Perfect {
            assert(items[items.len() - 1] == Certainty::Perfect);
        }
    }
    lemma_total_bits_nonneg(init);
}

/// The total number of bits is never negative.
proof fn lemma_total_bits_nonneg(items: Seq<Certainty>)
    ensures
        total_bits(items) >= 0,
    decreases items.len(),
{
    if items.len() > 0 {
        lemma_total_bits_nonneg(items.drop_last());
    }
}

/// Adding certainties does not depend on the order of the operands.
pub proof fn lemma_plus_commutative(a: Certainty, b: Certainty)
    ensures
        a.plus(b) == b.plus(a),
{
}

/// Adding certainties does not depend on how the additions are grouped.
pub proof fn lemma_plus_associative(a: Certainty, b: Certainty, c: Certainty)
    ensures
        a.plus(b).plus(c) == a.plus(b.plus(c)),
{
}

/// Zero certainty is the identity of addition, and perfect certainty absorbs any
/// other certainty.
pub proof fn lemma_plus_zero_and_perfect(a: Certainty)
    ensures
        a.plus(Certainty::Partial(0)) == a,
        a.plus(Certainty::Perfect) == Certainty::Perfect,
{
}

/// Adding a reason never makes a candidate less certain.
pub proof fn lemma_plus_monotone(a: Certainty, b: Certainty)
    ensures
        a.rank() <= a.plus(b).rank(),
        b.rank() <= a.plus(b).rank(),
{
}

/// The sum of two lists of certainties put together is the sum of the two sums.
pub proof fn lemma_certainty_sum_concat(s: Seq<Certainty>, t: Seq<Certainty>)
    ensures
        certainty_sum(s + t) == certainty_sum(s).plus(certainty_sum(t)),
    decreases t.len(),
{
    if t.len() == 0 {
        assert(s + t =~= s);
        assert(!any_perfect(t));
        assert(total_bits(t) == 0);
        lemma_total_bits_nonneg(s);
    } else {
        let t0 = t.drop_last();
        lemma_certainty_sum_concat(s, t0);
        assert((s + t).drop_last() =~= s + t0);
        assert((s + t).last() == t.last());
        lemma_certainty_sum_step(s + t);
        lemma_certainty_sum_step(t);
    }
}

impl Default for Certainty {
    /// No certainty at all.
    fn default() -> (c: Certainty)
        ensures
            c == Certainty::Partial(0),
    {
        Certainty::zero()
    }
}

impl core::ops::Add<Certainty> for Certainty {
    type Output = Certainty;

    fn add(self, rhs: Certainty) -> (c: Certainty) {
        match (self, rhs) {
            (Certainty::Partial(l), Certainty::Partial(r)) => Certainty::Partial(
                u64::saturating_add(l, r),
            ),
            _ => Certainty::Perfect,
        }
    }
}

impl vstd::std_specs::ops::AddSpecImpl<Certainty> for Certainty {
    open spec fn obeys_add_spec() -> bool {
        true
    }

    open spec fn add_req(self, rhs: Certainty) -> bool {
        true
    }

    open spec fn add_spec(self, rhs: Certainty) -> Certainty {
        self.plus(rhs)
    }
}

impl core::ops::AddAssign<Certainty> for Certainty {
    fn add_assign(&mut self, rhs: Certainty)
        ensures
            *final(self) == old(self).plus(rhs),
    {
        *self = *self + rhs;
    }
}

impl Certainty {

    /// Sums up a list of certainties, starting from zero.
    pub fn sum(items: &[Certainty]) -> (total: Certainty)
        ensures
            total == certainty_sum(items@),
    {
        let mut acc = Certainty::default();
        let mut i: usize = 0;
        assert(items@.take(0) =~= Seq::<Certainty>::empty());
        while i < items.len()
            invariant
                i <= items.len(),
                acc == certainty_sum(items@.take(i as int)),
            decreases items.len() - i,
        {
            proof {
                let next = items@.take(i + 1);
                assert(next.drop_last() =~= items@.take(i as int));
                lemma_certainty_sum_step(next);
            }
            acc.add_assign(items[i]);
            i = i + 1;
        }
        assert(items@.take(items.len() as int) =~= items@);
        acc
    }

    /// Whether this certainty is strictly less than `other`.
    pub fn is_less_than(&self, other: &Certainty) -> (r: bool)
        ensures
            r == (self.rank() < other.rank()),
    {
        match (*self, *other) {
            (Certainty::Partial(l), Certainty::Partial(r)) => l < r,
            (Certainty::Partial(_), Certainty::Perfect) => true,
            (Certainty::Perfect, _) => false,
        }
    }
}


/// Reason a value was provided as a candidate, combined with a certainty value it
/// provides.
pub struct Reason {
    certainty: Certainty,
    description: String,
}

impl Reason {
    /// The certainty this reason carries.
    pub closed spec fn certainty_of(self) -> Certainty {
        self.certainty
    }

    /// The text describing this reason.
    pub closed spec fn description_of(self) -> Seq<char> {
        self.description@
    }

    pub fn new(certainty: Certainty, description: String) -> (r: Reason)
        ensures
            r.certainty_of() == certainty,
            r.description_of() == description@,
    {
        Reason { certainty, description }
    }

    /// How much certainty this reason adds to this candidate.
    pub fn certainty(&self) -> (c: Certainty)
        ensures
            c == self.certainty_of(),
    {
        self.certainty
    }

    /// A string describing what this reason is.
    pub fn description(&self) -> (d: &str)
        ensures
            d@ == self.description_of(),
    {
        self.description.as_str()
    }
}

/// The certainties carried by a list of reasons, in order.
pub open spec fn reason_certainties(reasons: Seq<Reason>) -> Seq<Certainty> {
    reasons.map_values(|r: Reason| r.certainty_of())
}

/// A single certainty sums to itself.
proof fn lemma_certainty_sum_single(x: Certainty)
    ensures
        certainty_sum(seq![x]) == x,
{
    let s = seq![x];
    assert(s.drop_last() =~= Seq::<Certainty>::empty());
    lemma_certainty_sum_step(s);
    assert(!any_perfect(Seq::<Certainty>::empty()));
}

/// Taking out any one certainty and adding it back afterwards gives the same sum.
proof fn lemma_certainty_sum_remove(t: Seq<Certainty>, i: int)
    requires
        0 <= i < t.len(),
    ensures
        certainty_sum(t) == certainty_sum(t.remove(i)).plus(t[i]),
{
    let a = t.take(i);
    let b = t.skip(i + 1);
    let x = t[i];
    assert(t =~= (a + seq![x]) + b);
    assert(t.remove(i) =~= a + b);
    lemma_certainty_sum_concat(a + seq![x], b);
    lemma_certainty_sum_concat(a, seq![x]);
    lemma_certainty_sum_concat(a, b);
    lemma_certainty_sum_single(x);
    let (sa, sb) = (certainty_sum(a), certainty_sum(b));
    lemma_plus_associative(sa, x, sb);
    lemma_plus_commutative(x, sb);
    lemma_plus_associative(sa, sb, x);
}

/// The sum of certainties does not depend on their order.
pub proof fn lemma_certainty_sum_permutation(s: Seq<Certainty>, t: Seq<Certainty>)
    requires
        s.to_multiset() == t.to_multiset(),
    ensures
        certainty_sum(s) == certainty_sum(t),
    decreases s.len(),
{
    broadcast use vstd::seq_lib::group_to_multiset_ensures;

    if s.len() == 0 {
        assert(s.to_multiset().len() == s.len());
        assert(t.to_multiset().len() == t.len());
        assert(t.len() == 0);
        assert(s =~= t);
    } else {
        let x = s.last();
        let s0 = s.drop_last();
        assert(s0.push(x) =~= s);
        assert(t.to_multiset().count(x) > 0);
        assert(t.contains(x));
        let i = choose|i: int| 0 <= i < t.len() && t[i] == x;
        let t0 = t.remove(i);
        assert(t0.to_multiset() =~= s0.to_multiset());
        lemma_certainty_sum_permutation(s0, t0);
        lemma_certainty_sum_step(s);
        lemma_certainty_sum_remove(t, i);
    }
}

/// Mapping two sequences with the same elements gives two sequences with the same
/// elements.
proof fn lemma_map_keeps_permutation<A, B>(s: Seq<A>, t: Seq<A>, f: spec_fn(A) -> B)
    requires
        s.to_multiset() == t.to_multiset(),
    ensures
        s.map_values(f).to_multiset() == t.map_values(f).to_multiset(),
    decreases s.len(),
{
    broadcast use vstd::seq_lib::group_to_multiset_ensures;

    if s.len() == 0 {
        assert(s.to_multiset().len() == s.len());
        assert(t.to_multiset().len() == t.len());
        assert(t.len() == 0);
        assert(s.map_values(f) =~= t.map_values(f));
    } else {
        let x = s.last();
        let s0 = s.drop_last();
        assert(s0.push(x) =~= s);
        assert(t.to_multiset().count(x) > 0);
        assert(t.contains(x));
        let i = choose|i: int| 0 <= i < t.len() && t[i] == x;
        let t0 = t.remove(i);
        assert(t0.to_multiset() =~= s0.to_multiset());
        lemma_map_keeps_permutation(s0, t0, f);
        assert(s.map_values(f) =~= s0.map_values(f).push(f(x)));
        assert(t0.map_values(f) =~= t.map_values(f).remove(i));
        assert(t.map_values(f)[i] == f(x));
        let mt = t.map_values(f);
        assert(mt.remove(i).to_multiset() =~= mt.to_multiset().remove(f(x)));
        assert(mt.to_multiset().count(f(x)) > 0) by {
            assert(mt.contains(f(x)));
        }
        assert(mt.to_multiset() =~= mt.remove(i).to_multiset().insert(f(x)));
    }
}

/// The certainty given by a list of reasons does not depend on their order.
pub proof fn lemma_reason_order_is_irrelevant(rs: Seq<Reason>, rs2: Seq<Reason>)
    requires
        rs.to_multiset() == rs2.to_multiset(),
    ensures
        certainty_sum(reason_certainties(rs)) == certainty_sum(reason_certainties(rs2)),
{
    lemma_map_keeps_permutation(rs, rs2, |r: Reason| r.certainty_of());
    lemma_certainty_sum_permutation(reason_certainties(rs), reason_certainties(rs2));
}

/// One more reason never makes the certainty smaller.
pub proof fn lemma_more_reasons_never_less_certain(rs: Seq<Reason>, r: Reason)
    ensures
        certainty_sum(reason_certainties(rs)).rank() <= certainty_sum(
            reason_certainties(rs.push(r)),
        ).rank(),
{
    let longer = reason_certainties(rs.push(r));
    assert(longer.drop_last() =~= reason_certainties(rs));
    assert(longer.last() == r.certainty_of());
    lemma_certainty_sum_step(longer);
    lemma_plus_monotone(certainty_sum(reason_certainties(rs)), r.certainty_of());
}

/// A candidate value `T` combined with a list of [`Reason`]s it's listed as a
/// candidate.
///
/// The `T` must implement [`Ord`] to act as a tiebreaker in case there exist two
/// candidates with the same certainty.
pub struct Candidate<T: Ord> {
    value: T,
    reasons: Vec<Reason>,
}

impl<T: Ord> Candidate<T> {
    /// The candidate value.
    pub closed spec fn value_of(self) -> T {
        self.value
    }

    /// The reasons for this candidate, in the order they were given.
    pub closed spec fn reasons_of(self) -> Seq<Reason> {
        self.reasons@
    }

    /// The total certainty of this candidate: the sum of its reasons' certainties.
    pub open spec fn total_certainty(self) -> Certainty {
        certainty_sum(reason_certainties(self.reasons_of()))
    }

    pub fn new(value: T, reasons: Vec<Reason>) -> (c: Candidate<T>)
        ensures
            c.value_of() == value,
            c.reasons_of() == reasons@,
    {
        Candidate { value, reasons }
    }

    pub fn certainty(&self) -> (c: Certainty)
        ensures
            c == self.total_certainty(),
    {
        let mut acc = Certainty::default();
        let mut i: usize = 0;
        let ghost all = reason_certainties(self.reasons@);
        assert(all.take(0) =~= Seq::<Certainty>::empty());
        while i < self.reasons.len()
            invariant
                i <= self.reasons.len(),
                all == reason_certainties(self.reasons@),
                all.len() == self.reasons.len(),
                acc == certainty_sum(all.take(i as int)),
            decreases self.reasons.len() - i,
        {
            proof {
                let next = all.take(i + 1);
                assert(next.drop_last() =~= all.take(i as int));
                lemma_certainty_sum_step(next);
            }
            acc.add_assign(self.reasons[i].certainty());
            i = i + 1;
        }
        assert(all.take(self.reasons.len() as int) =~= all);
        acc
    }

    pub fn value(&self) -> (v: &T)
        ensures
            *v == self.value_of(),
    {
        &self.value
    }

    pub fn value_mut(&mut self) -> (v: &mut T)
        ensures
            *v == old(self).value_of(),
            final(self).value_of() == *final(v),
            final(self).reasons_of() == old(self).reasons_of(),
    {
        &mut self.value
    }
}


impl<T: Ord> Candidate<T> {
    /// How this candidate compares to `other`: by certainty first, then by value.
    pub open spec fn order(self, other: Candidate<T>) -> Ordering {
        let l = self.total_certainty().rank();
        let r = other.total_certainty().rank();
        if l < r {
            Ordering::Less
        } else if l > r {
            Ordering::Greater
        } else {
            self.value_of().cmp_spec(&other.value_of())
        }
    }

    /// Whether this candidate equals `other`: same value and same certainty.
    pub open spec fn same_as(self, other: Candidate<T>) -> bool {
        &&& self.value_of().eq_spec(&other.value_of())
        &&& self.total_certainty() == other.total_certainty()
    }

    /// Compares certainties, then uses the value itself as a tiebreaker. The
    /// certainty decides whatever `T`'s order is; where the certainties are equal,
    /// the result is `T`'s comparison of the values, which is stated where `T`'s
    /// order follows its specification.
    pub fn cmp(&self, other: &Candidate<T>) -> (o: Ordering)
        ensures
            self.total_certainty().rank() < other.total_certainty().rank() ==> o
                == Ordering::Less,
            self.total_certainty().rank() > other.total_certainty().rank() ==> o
                == Ordering::Greater,
            T::obeys_cmp_spec() ==> o == self.order(*other),
    {
        let l = self.certainty();
        let r = other.certainty();
        if l.is_less_than(&r) {
            Ordering::Less
        } else if r.is_less_than(&l) {
            Ordering::Greater
        } else {
            self.value.cmp(&other.value)
        }
    }
}

impl<T: Ord> PartialEq for Candidate<T> {
    fn eq(&self, other: &Candidate<T>) -> (r: bool)
        ensures
            r ==> self.total_certainty() == other.total_certainty(),
    {
        self.value == other.value && self.certainty() == other.certainty()
    }
}

impl<T: Ord> vstd::std_specs::cmp::PartialEqSpecImpl for Candidate<T> {
    open spec fn obeys_eq_spec() -> bool {
        T::obeys_eq_spec()
    }

    open spec fn eq_spec(&self, other: &Candidate<T>) -> bool {
        self.same_as(*other)
    }
}

impl<T: Ord> Eq for Candidate<T> {

}

impl<T: Ord> PartialOrd for Candidate<T> {
    fn partial_cmp(&self, other: &Candidate<T>) -> (r: Option<Ordering>) {
        Some(self.cmp(other))
    }
}

impl<T: Ord> vstd::std_specs::cmp::PartialOrdSpecImpl for Candidate<T> {
    open spec fn obeys_partial_cmp_spec() -> bool {
        T::obeys_cmp_spec()
    }

    open spec fn partial_cmp_spec(&self, other: &Candidate<T>) -> Option<Ordering> {
        Some(self.order(*other))
    }
}

/// The facts about `T`'s comparison that the ordering of candidates rests on.
proof fn lemma_value_order_laws<T: Ord>()
    requires
        obeys_cmp::<T>(),
    ensures
        forall|x: T, y: T| #[trigger]
            x.cmp_spec(&y) == Ordering::Equal <==> x.eq_spec(&y),
        forall|x: T, y: T| #[trigger]
            x.cmp_spec(&y) == Ordering::Less <==> y.cmp_spec(&x) == Ordering::Greater,
        forall|x: T, y: T, z: T|
            x.cmp_spec(&y) == Ordering::Less && #[trigger] y.cmp_spec(&z) == Ordering::Less
                ==> #[trigger] x.cmp_spec(&z) == Ordering::Less,
        forall|x: T, y: T| #[trigger] x.eq_spec(&y) ==> y.eq_spec(&x),
        forall|x: T, y: T, z: T| x.eq_spec(&y) && #[trigger] y.eq_spec(&z) ==> #[trigger] x.eq_spec(&z),
{
    reveal(vstd::laws_eq::obeys_eq_spec_properties);
    reveal(vstd::laws_cmp::obeys_partial_cmp_spec_properties);
    reveal(vstd::laws_cmp::obeys_cmp_partial_ord);
    reveal(vstd::laws_cmp::obeys_cmp_ord);
    assert forall|x: T, y: T| #[trigger]
        x.cmp_spec(&y) == Ordering::Equal <==> x.eq_spec(&y) by {
        assert(x.partial_cmp_spec(&y) == Some(x.cmp_spec(&y)));
    }
    assert forall|x: T, y: T| #[trigger]
        x.cmp_spec(&y) == Ordering::Less <==> y.cmp_spec(&x) == Ordering::Greater by {
        assert(x.partial_cmp_spec(&y) == Some(x.cmp_spec(&y)));
        assert(y.partial_cmp_spec(&x) == Some(y.cmp_spec(&x)));
    }
    assert forall|x: T, y: T, z: T|
        x.cmp_spec(&y) == Ordering::Less && #[trigger] y.cmp_spec(&z) == Ordering::Less
            implies #[trigger] x.cmp_spec(&z) == Ordering::Less by {
        assert(x.partial_cmp_spec(&y) == Some(x.cmp_spec(&y)));
        assert(y.partial_cmp_spec(&z) == Some(y.cmp_spec(&z)));
        assert(x.partial_cmp_spec(&z) == Some(x.cmp_spec(&z)));
    }
}

/// Under a lawful order on `T`, the order of candidates is a total order whose
/// equality is candidate equality.
pub proof fn lemma_candidate_order_is_total<T: Ord>(a: Candidate<T>, b: Candidate<T>, c: Candidate<T>)
    requires
        obeys_cmp::<T>(),
    ensures
        a.order(a) == Ordering::Equal,
        a.order(b) == Ordering::Less <==> b.order(a) == Ordering::Greater,
        a.order(b) == Ordering::Equal <==> b.order(a) == Ordering::Equal,
        a.order(b) == Ordering::Equal <==> a.same_as(b),
        a.order(b) != Ordering::Greater && b.order(c) != Ordering::Greater ==> a.order(c)
            != Ordering::Greater,
        a.order(b) == Ordering::Less && b.order(c) != Ordering::Greater ==> a.order(c)
            == Ordering::Less,
        a.order(b) != Ordering::Greater && b.order(c) == Ordering::Less ==> a.order(c)
            == Ordering::Less,
{
    lemma_value_order_laws::<T>();
    let (x, y, z) = (a.value_of(), b.value_of(), c.value_of());
    // reflexivity: x < x would give x > x as well
    assert(x.cmp_spec(&x) == Ordering::Equal) by {
        if x.cmp_spec(&x) == Ordering::Less {
            assert(x.cmp_spec(&x) == Ordering::Greater);
        }
        if x.cmp_spec(&x) == Ordering::Greater {
            assert(x.cmp_spec(&x) == Ordering::Less);
        }
    }
    assert(x.cmp_spec(&y) == Ordering::Equal <==> y.cmp_spec(&x) == Ordering::Equal) by {
        if x.cmp_spec(&y) == Ordering::Equal {
            assert(x.eq_spec(&y));
            assert(y.eq_spec(&x));
        }
        if y.cmp_spec(&x) == Ordering::Equal {
            assert(y.eq_spec(&x));
            assert(x.eq_spec(&y));
        }
    }
    lemma_value_le_trans(x, y, z);
}

/// Transitivity of `<=` and its strict variants on a lawful order.
proof fn lemma_value_le_trans<T: Ord>(x: T, y: T, z: T)
    requires
        obeys_cmp::<T>(),
    ensures
        x.cmp_spec(&y) != Ordering::Greater && y.cmp_spec(&z) != Ordering::Greater ==> x.cmp_spec(
            &z,
        ) != Ordering::Greater,
        x.cmp_spec(&y) == Ordering::Less && y.cmp_spec(&z) != Ordering::Greater ==> x.cmp_spec(&z)
            == Ordering::Less,
        x.cmp_spec(&y) != Ordering::Greater && y.cmp_spec(&z) == Ordering::Less ==> x.cmp_spec(&z)
            == Ordering::Less,
{
    lemma_value_order_laws::<T>();
    let xy = x.cmp_spec(&y);
    let yz = y.cmp_spec(&z);
    let xz = x.cmp_spec(&z);
    let zx = z.cmp_spec(&x);
    let zy = z.cmp_spec(&y);
    let yx = y.cmp_spec(&x);
    if xy != Ordering::Greater && yz != Ordering::Greater {
        if xy == Ordering::Equal && yz == Ordering::Equal {
            assert(x.eq_spec(&y) && y.eq_spec(&z));
            assert(x.eq_spec(&z));
        } else if xy == Ordering::Less && yz == Ordering::Less {
        } else if xy == Ordering::Equal {
            // x == y < z
            assert(x.eq_spec(&y));
            assert(yz == Ordering::Less);
            if xz == Ordering::Equal {
                assert(x.eq_spec(&z));
                assert(y.eq_spec(&x));
                assert(y.eq_spec(&z));
            } else if xz == Ordering::Greater {
                assert(zx == Ordering::Less);
                assert(z.cmp_spec(&x) == Ordering::Less && x.cmp_spec(&z) == Ordering::Greater);
                // z < x and y < z gives y < x, but y == x
                assert(y.cmp_spec(&x) == Ordering::Less);
                assert(y.eq_spec(&x));
            }
        } else {
            // x < y == z
            assert(y.eq_spec(&z));
            assert(xy == Ordering::Less);
            if xz == Ordering::Equal {
                assert(x.eq_spec(&z));
                assert(z.eq_spec(&y));
                assert(x.eq_spec(&y));
            } else if xz == Ordering::Greater {
                assert(zx == Ordering::Less);
                // z < x < y gives z < y, but z == y
                assert(z.cmp_spec(&y) == Ordering::Less);
                assert(z.eq_spec(&y));
            }
        }
    }
}


/// Whether no candidate in `items` is more certain than `c`.
pub open spec fn is_likeliest<T: Ord>(items: Seq<Candidate<T>>, c: Candidate<T>) -> bool {
    forall|j: int|
        0 <= j < items.len() ==> (#[trigger] items[j]).total_certainty().rank()
            <= c.total_certainty().rank()
}

/// The test that picks the likeliest candidates out of `items`.
pub open spec fn likeliest_test<T: Ord>(items: Seq<Candidate<T>>) -> spec_fn(Candidate<T>) -> bool {
    |c: Candidate<T>| is_likeliest(items, c)
}

/// The likeliest candidates of `items`: those with the greatest certainty, ties
/// included, in their original order.
pub open spec fn likeliest_of<T: Ord>(items: Seq<Candidate<T>>) -> Seq<Candidate<T>> {
    items.filter(likeliest_test(items))
}

/// Filtering with two tests that agree on every element gives the same result.
proof fn lemma_filter_agree<A>(s: Seq<A>, p: spec_fn(A) -> bool, q: spec_fn(A) -> bool)
    requires
        forall|i: int| 0 <= i < s.len() ==> p(#[trigger] s[i]) == q(s[i]),
    ensures
        s.filter(p) == s.filter(q),
    decreases s.len(),
{
    reveal(Seq::filter);
    if s.len() > 0 {
        let init = s.drop_last();
        assert forall|i: int| 0 <= i < init.len() implies p(#[trigger] init[i]) == q(init[i]) by {
            assert(init[i] == s[i]);
        }
        lemma_filter_agree(init, p, q);
        assert(p(s[s.len() - 1]) == q(s[s.len() - 1]));
    }
}

/// Among the first `k` candidates there is one that none of them is more certain
/// than.
proof fn lemma_most_certain_of_prefix<T: Ord>(items: Seq<Candidate<T>>, k: int) -> (m: int)
    requires
        0 < k <= items.len(),
    ensures
        0 <= m < k,
        forall|j: int|
            0 <= j < k ==> (#[trigger] items[j]).total_certainty().rank()
                <= items[m].total_certainty().rank(),
    decreases k,
{
    if k == 1 {
        0
    } else {
        let m0 = lemma_most_certain_of_prefix(items, k - 1);
        if items[m0].total_certainty().rank() >= items[k - 1].total_certainty().rank() {
            m0
        } else {
            k - 1
        }
    }
}

/// There is a likeliest candidate exactly when there is a candidate at all.
pub proof fn lemma_likeliest_nonempty<T: Ord>(items: Seq<Candidate<T>>)
    ensures
        likeliest_of(items).len() > 0 <==> items.len() > 0,
{
    if items.len() > 0 {
        let m = lemma_most_certain_of_prefix(items, items.len() as int);
        assert(likeliest_test(items)(items[m]));
        items.lemma_filter_contains(likeliest_test(items), m);
    } else {
        reveal(Seq::filter);
    }
}

/// The likeliest candidates are exactly the ties for the top certainty: each of
/// them comes from the list, none is less certain than any candidate of the list,
/// and any two of them are equally certain.
pub proof fn lemma_likeliest_are_ties<T: Ord>(items: Seq<Candidate<T>>, i: int, j: int)
    requires
        0 <= i < likeliest_of(items).len(),
        0 <= j < likeliest_of(items).len(),
    ensures
        items.contains(likeliest_of(items)[i]),
        is_likeliest(items, likeliest_of(items)[i]),
        likeliest_of(items)[i].total_certainty() == likeliest_of(items)[j].total_certainty(),
{
    let test = likeliest_test(items);
    let top = likeliest_of(items);
    items.lemma_filter_pred(test, i);
    items.lemma_filter_pred(test, j);
    assert(top.contains(top[i]));
    assert(top.contains(top[j]));
    items.lemma_filter_contains_rev(test, top[i]);
    items.lemma_filter_contains_rev(test, top[j]);
    let a = choose|a: int| 0 <= a < items.len() && items[a] == top[i];
    let b = choose|b: int| 0 <= b < items.len() && items[b] == top[j];
    assert(items[a].total_certainty().rank() <= top[j].total_certainty().rank());
    assert(items[b].total_certainty().rank() <= top[i].total_certainty().rank());
}

/// Candidates with the same rank have the same certainty.
proof fn lemma_rank_determines_certainty(a: Certainty, b: Certainty)
    ensures
        a.rank() == b.rank() <==> a == b,
{
}

/// A candidate added with more certainty than every candidate so far becomes the
/// only likeliest one.
pub proof fn lemma_dominant_candidate_wins<T: Ord>(items: Seq<Candidate<T>>, c: Candidate<T>)
    requires
        forall|j: int|
            0 <= j < items.len() ==> (#[trigger] items[j]).total_certainty().rank()
                < c.total_certainty().rank(),
    ensures
        likeliest_of(items.push(c)) == seq![c],
{
    let all = items.push(c);
    let test = likeliest_test(all);
    reveal(Seq::filter);
    assert(all.drop_last() =~= items);
    assert(all.last() == c);
    assert forall|j: int| 0 <= j < all.len() implies (#[trigger] all[j]).total_certainty().rank()
        <= c.total_certainty().rank() by {
        if j < items.len() {
            assert(all[j] == items[j]);
        }
    }
    assert(test(c));
    let rest = items.filter(test);
    if rest.len() > 0 {
        items.lemma_filter_pred(test, 0);
        assert(rest.contains(rest[0]));
        items.lemma_filter_contains_rev(test, rest[0]);
        let k = choose|k: int| 0 <= k < items.len() && items[k] == rest[0];
        assert(items[k].total_certainty().rank() < c.total_certainty().rank());
        assert(all[items.len() as int] == c);
        assert(!test(rest[0]));
    }
    assert(rest =~= Seq::<Candidate<T>>::empty());
    assert(all.filter(test) =~= seq![c]);
}

/// Adding a candidate that some stored candidate is more certain than leaves the
/// likeliest candidates as they were.
pub proof fn lemma_dominated_candidate_changes_nothing<T: Ord>(
    items: Seq<Candidate<T>>,
    c: Candidate<T>,
    k: int,
)
    requires
        0 <= k < items.len(),
        items[k].total_certainty().rank() > c.total_certainty().rank(),
    ensures
        likeliest_of(items.push(c)) == likeliest_of(items),
{
    let all = items.push(c);
    let old_test = likeliest_test(items);
    let new_test = likeliest_test(all);
    reveal(Seq::filter);
    assert(all.drop_last() =~= items);
    assert(all.last() == c);
    assert(all[k] == items[k]);
    assert(!new_test(c));
    assert forall|i: int| 0 <= i < items.len() implies new_test(#[trigger] items[i]) == old_test(
        items[i],
    ) by {
        let x = items[i];
        if old_test(x) {
            assert(items[k].total_certainty().rank() <= x.total_certainty().rank());
            assert forall|j: int| 0 <= j < all.len() implies (#[trigger] all[j]).total_certainty().rank()
                <= x.total_certainty().rank() by {
                if j < items.len() {
                    assert(all[j] == items[j]);
                }
            }
        }
        if new_test(x) {
            assert forall|j: int| 0 <= j < items.len() implies (#[trigger] items[j]).total_certainty().rank()
                <= x.total_certainty().rank() by {
                assert(all[j] == items[j]);
            }
        }
    }
    lemma_filter_agree(items, new_test, old_test);
}

/// A list of candidate values.
pub struct Candidates<T: Ord> {
    inner: Vec<Candidate<T>>,
}

impl<T: Ord> Candidates<T> {
    /// The candidates stored here, in the order they were added.
    pub closed spec fn items(self) -> Seq<Candidate<T>> {
        self.inner@
    }

    pub fn new(inner: Vec<Candidate<T>>) -> (c: Candidates<T>)
        ensures
            c.items() == inner@,
    {
        Candidates { inner }
    }

    /// Get the likeliest candidate values stored here: every candidate with the
    /// greatest certainty, ties included, in the order they were added.
    pub fn likeliest(&self) -> (r: Vec<&Candidate<T>>)
        ensures
            r@.len() == likeliest_of(self.items()).len(),
            forall|i: int| 0 <= i < r@.len() ==> *r@[i] == likeliest_of(self.items())[i],
    {
        let ghost items = self.inner@;
        let n = self.inner.len();
        if n == 0 {
            proof {
                reveal(Seq::filter);
            }
            return Vec::new();
        }
        // Get the maximum certainty

        let mut max = self.inner[0].certainty();
        let ghost mut top: int = 0;
        let mut i: usize = 1;
        while i < n
            invariant
                items == self.inner@,
                n == items.len(),
                1 <= i <= n,
                0 <= top < i,
                items[top].total_certainty() == max,
                forall|j: int|
                    0 <= j < i ==> (#[trigger] items[j]).total_certainty().rank() <= max.rank(),
            decreases n - i,
        {
            let c = self.inner[i].certainty();
            if max.is_less_than(&c) {
                max = c;
                proof {
                    top = i as int;
                }
            }
            i = i + 1;
        }
        // Find all values with the same certainty as the maximum to search for ties

        let mut result: Vec<&Candidate<T>> = Vec::new();
        let mut k: usize = 0;
        proof {
            reveal(Seq::filter);
            assert(items.take(0) =~= Seq::<Candidate<T>>::empty());
        }
        while k < n
            invariant
                items == self.inner@,
                n == items.len(),
                0 <= top < n,
                items[top].total_certainty() == max,
                k <= n,
                forall|j: int|
                    0 <= j < n ==> (#[trigger] items[j]).total_certainty().rank() <= max.rank(),
                result@.len() == items.take(k as int).filter(likeliest_test(items)).len(),
                forall|m: int|
                    0 <= m < result@.len() ==> *result@[m] == items.take(k as int).filter(
                        likeliest_test(items),
                    )[m],
            decreases n - k,
        {
            let c = &self.inner[k];
            let same = c.certainty() == max;
            proof {
                let cand = items[k as int];
                reveal(Seq::filter);
                assert(items.take(k + 1).drop_last() =~= items.take(k as int));
                assert(items.take(k + 1).last() == cand);
                lemma_rank_determines_certainty(cand.total_certainty(), max);
                if same {
                    assert(is_likeliest(items, cand));
                } else {
                    assert(items[top].total_certainty().rank() > cand.total_certainty().rank());
                    assert(!is_likeliest(items, cand));
                }
            }
            if same {
                result.push(c);
            }
            k = k + 1;
        }
        proof {
            assert(items.take(n as int) =~= items);
        }
        result
    }

    /// Get a list of all candidates stored here.
    pub fn all_candidates(&self) -> (all: &[Candidate<T>])
        ensures
            all@ == self.items(),
    {
        self.inner.as_slice()
    }

    /// Add a candidate to this set.
    pub fn add(&mut self, item: Candidate<T>)
        ensures
            final(self).items() == old(self).items().push(item),
    {
        self.inner.push(item);
    }
}

} // verus!
