//! Canonical duration decomposition: turning one marking's rational
//! duration into the ordered run of single-glyph notation symbols, and the
//! notator that drives it while keeping the running offsets exact.

use crate::fraction::{
    divides, in_lowest_terms, lemma_divides_le, lemma_lowest_terms_minimal, Fraction,
};
use crate::glyph::is_duration_class;
use crate::svg::ElementV;
use crate::{pitch_symbol_v, rest_symbol_v, Marking, MeasureElem, Note, Staff, COORD_LIMIT};
use vstd::arithmetic::div_mod::lemma_div_multiples_vanish;
use vstd::arithmetic::mul::lemma_mul_upper_bound;
use vstd::prelude::*;

verus! {

/// The duration of a fraction of a whole note, counted in 128th notes and
/// rounded toward zero.
pub open spec fn spec_units(f: Fraction) -> int {
    (f.num as int) * 128 / (f.den as int)
}

/// The durations the decomposition accepts: positive, exactly representable
/// in 128th notes, and shorter than two whole notes.
pub open spec fn decomposable(f: Fraction) -> bool {
    &&& f.den > 0
    &&& (f.num as int) * 128 <= u64::MAX
    &&& (f.num as int) * 128 % (f.den as int) == 0
    &&& 1 <= spec_units(f) <= 255
}

/// Whether `s` is the size, in 128th notes, of a duration class: a power of
/// two between a 128th note (1) and a whole note (128).
pub open spec fn is_class_size(s: int) -> bool {
    s == 1 || s == 2 || s == 4 || s == 8 || s == 16 || s == 32 || s == 64 || s == 128
}

/// Greedy decomposition of `u` 128th notes, trying each class size from `c`
/// downward: every class no larger than the remainder is emitted once.
pub open spec fn canon_rec(u: int, c: int) -> Seq<int>
    decreases c,
{
    if c < 1 {
        Seq::empty()
    } else if u >= c {
        seq![c] + canon_rec(u - c, c / 2)
    } else {
        canon_rec(u, c / 2)
    }
}

/// The canonical decomposition of a duration of `u` 128th notes: class
/// sizes, largest first.
pub open spec fn canon(u: int) -> Seq<int> {
    canon_rec(u, 128)
}

/// The sum of a sequence of sizes.
pub open spec fn seq_sum(s: Seq<int>) -> int
    decreases s.len(),
{
    if s.len() == 0 {
        0
    } else {
        s[0] + seq_sum(s.subrange(1, s.len() as int))
    }
}

/// The elements of a run of `u8` sizes, as mathematical integers.
pub open spec fn sizes_of(v: Seq<u8>) -> Seq<int> {
    Seq::new(v.len(), |i: int| v[i] as int)
}

/// A head extends a sum by one element.
proof fn lemma_seq_sum_cons(x: int, t: Seq<int>)
    ensures
        seq_sum(seq![x] + t) == x + seq_sum(t),
{
    let s = seq![x] + t;
    assert(s[0] == x);
    assert(s.subrange(1, s.len() as int) =~= t);
}

/// Appending one element adds it to the sum.
pub proof fn lemma_seq_sum_push(s: Seq<int>, x: int)
    ensures
        seq_sum(s.push(x)) == seq_sum(s) + x,
    decreases s.len(),
{
    if s.len() == 0 {
        assert(s.push(x).subrange(1, 1) =~= Seq::<int>::empty());
        assert(s.push(x)[0] == x);
        assert(seq_sum(s.push(x)) == x + seq_sum(Seq::<int>::empty()));
    } else {
        let t = s.subrange(1, s.len() as int);
        lemma_seq_sum_push(t, x);
        assert(s.push(x).subrange(1, s.len() as int + 1) =~= t.push(x));
        assert(s.push(x)[0] == s[0]);
        assert(seq_sum(s.push(x)) == s[0] + seq_sum(t.push(x)));
        assert(seq_sum(s) == s[0] + seq_sum(t));
    }
}

/// A sum splits at any point.
pub proof fn lemma_seq_sum_split(s: Seq<int>, k: int)
    requires
        0 <= k <= s.len(),
    ensures
        seq_sum(s) == seq_sum(s.subrange(0, k)) + seq_sum(s.subrange(k, s.len() as int)),
    decreases k,
{
    if k == 0 {
        assert(s.subrange(0, 0) =~= Seq::<int>::empty());
        assert(s.subrange(0, s.len() as int) =~= s);
    } else {
        lemma_seq_sum_split(s, k - 1);
        lemma_seq_sum_push(s.subrange(0, k - 1), s[k - 1]);
        assert(s.subrange(0, k - 1).push(s[k - 1]) =~= s.subrange(0, k));
        let tail = s.subrange(k - 1, s.len() as int);
        assert(tail[0] == s[k - 1]);
        assert(tail.subrange(1, tail.len() as int) =~= s.subrange(k, s.len() as int));
    }
}

/// A sum of nonnegative sizes is nonnegative.
pub proof fn lemma_seq_sum_nonneg(s: Seq<int>)
    requires
        forall|i: int| 0 <= i < s.len() ==> s[i] >= 0,
    ensures
        seq_sum(s) >= 0,
    decreases s.len(),
{
    if s.len() > 0 {
        lemma_seq_sum_nonneg(s.subrange(1, s.len() as int));
    }
}

/// The greedy run against classes of size at most `c` recovers every
/// remainder below `2*c` exactly.
proof fn lemma_canon_rec_sum(u: int, c: int)
    requires
        is_class_size(c),
        0 <= u < 2 * c,
    ensures
        seq_sum(canon_rec(u, c)) == u,
    decreases c,
{
    if c == 1 {
        if u >= 1 {
            assert(canon_rec(u - 1, 0) =~= Seq::<int>::empty());
            lemma_seq_sum_cons(1, canon_rec(u - 1, 0));
        } else {
            assert(canon_rec(u, 0) =~= Seq::<int>::empty());
        }
    } else {
        if u >= c {
            lemma_seq_sum_cons(c, canon_rec(u - c, c / 2));
            lemma_canon_rec_sum(u - c, c / 2);
        } else {
            lemma_canon_rec_sum(u, c / 2);
        }
    }
}

/// The decomposition is exact: the class sizes of `canon(u)` sum to `u`.
pub proof fn lemma_canon_sum(u: int)
    requires
        0 <= u <= 255,
    ensures
        seq_sum(canon(u)) == u,
{
    lemma_canon_rec_sum(u, 128);
}

/// Every emitted size is a duration class no larger than `c`, and the run
/// is strictly descending: the largest class comes first, and no class
/// repeats.
proof fn lemma_canon_rec_classes(u: int, c: int)
    requires
        is_class_size(c),
        0 <= u,
    ensures
        forall|i: int|
            0 <= i < canon_rec(u, c).len() ==> is_class_size(#[trigger] canon_rec(u, c)[i])
                && canon_rec(u, c)[i] <= c,
        forall|i: int, j: int|
            0 <= i < j < canon_rec(u, c).len() ==> #[trigger] canon_rec(u, c)[i]
                > #[trigger] canon_rec(u, c)[j],
    decreases c,
{
    let s = canon_rec(u, c);
    if c == 1 {
        if u >= 1 {
            assert(canon_rec(u - 1, 0) =~= Seq::<int>::empty());
            assert(s =~= seq![1int]);
            assert(s[0] == 1);
        } else {
            assert(s == canon_rec(u, 0));
            assert(canon_rec(u, 0) =~= Seq::<int>::empty());
        }
    } else {
        if u >= c {
            lemma_canon_rec_classes(u - c, c / 2);
            let t = canon_rec(u - c, c / 2);
            assert(s == seq![c] + t);
            assert(s[0] == c);
            assert forall|i: int|
                0 <= i < s.len() implies is_class_size(#[trigger] s[i]) && s[i] <= c by {
                if i > 0 {
                    assert(s[i] == t[i - 1]);
                    assert(is_class_size(t[i - 1]) && t[i - 1] <= c / 2);
                }
            }
            assert forall|i: int, j: int|
                0 <= i < j < s.len() implies #[trigger] s[i] > #[trigger] s[j] by {
                assert(s[j] == t[j - 1]);
                assert(is_class_size(t[j - 1]) && t[j - 1] <= c / 2);
                if i > 0 {
                    assert(s[i] == t[i - 1]);
                    assert(t[i - 1] > t[j - 1]);
                }
            }
        } else {
            lemma_canon_rec_classes(u, c / 2);
            let t = canon_rec(u, c / 2);
            assert(s == t);
            assert forall|i: int|
                0 <= i < s.len() implies is_class_size(#[trigger] s[i]) && s[i] <= c by {
                assert(is_class_size(t[i]) && t[i] <= c / 2);
            }
            assert forall|i: int, j: int|
                0 <= i < j < s.len() implies #[trigger] s[i] > #[trigger] s[j] by {
                assert(t[i] > t[j]);
            }
        }
    }
}

/// The canonical decomposition is order-stable: class sizes strictly
/// descend, largest first, and each is a duration class.
pub proof fn lemma_canon_classes(u: int)
    requires
        0 <= u,
    ensures
        forall|i: int|
            0 <= i < canon(u).len() ==> is_class_size(#[trigger] canon(u)[i]),
        forall|i: int, j: int|
            0 <= i < j < canon(u).len() ==> #[trigger] canon(u)[i] > #[trigger] canon(u)[j],
{
    lemma_canon_rec_classes(u, 128);
}

/// A strictly descending run of class sizes, none above its head, sums to
/// less than twice its head: distinct powers of two below a bound cannot
/// reach it twice over.
proof fn lemma_desc_sum_bound(s: Seq<int>)
    requires
        s.len() > 0,
        forall|i: int| 0 <= i < s.len() ==> is_class_size(#[trigger] s[i]),
        forall|i: int, j: int| 0 <= i < j < s.len() ==> #[trigger] s[i] > #[trigger] s[j],
    ensures
        seq_sum(s) <= 2 * s[0] - 1,
    decreases s.len(),
{
    let t = s.subrange(1, s.len() as int);
    if s.len() == 1 {
        assert(t =~= Seq::<int>::empty());
        assert(seq_sum(Seq::<int>::empty()) == 0);
        assert(seq_sum(s) == s[0]);
        assert(s[0] >= 1);
    } else {
        assert(forall|i: int| 0 <= i < t.len() ==> is_class_size(#[trigger] t[i])) by {
            assert(forall|i: int| 0 <= i < t.len() ==> #[trigger] t[i] == s[i + 1]);
        }
        assert forall|i: int, j: int| 0 <= i < j < t.len() implies #[trigger] t[i]
            > #[trigger] t[j] by {
            assert(t[i] == s[i + 1]);
            assert(t[j] == s[j + 1]);
        }
        lemma_desc_sum_bound(t);
        assert(t[0] == s[1]);
        assert(s[1] < s[0]);
        // Two distinct class sizes differ by at least a factor of two.
        assert(s[1] <= s[0] / 2);
        assert(seq_sum(s) == s[0] + seq_sum(t));
    }
}

/// A strictly descending run of class sizes, none above `c`, that sums to
/// `u` is exactly what the greedy pass from `c` downward emits.
proof fn lemma_canon_rec_unique(s: Seq<int>, u: int, c: int)
    requires
        is_class_size(c),
        forall|i: int| 0 <= i < s.len() ==> is_class_size(#[trigger] s[i]) && s[i] <= c,
        forall|i: int, j: int| 0 <= i < j < s.len() ==> #[trigger] s[i] > #[trigger] s[j],
        seq_sum(s) == u,
    ensures
        s == canon_rec(u, c),
    decreases c,
{
    if s.len() == 0 {
        lemma_canon_rec_zero(c);
        assert(s =~= canon_rec(0int, c));
    } else {
        let t = s.subrange(1, s.len() as int);
        assert(forall|i: int| 0 <= i < t.len() ==> is_class_size(#[trigger] t[i])) by {
            assert(forall|i: int| 0 <= i < t.len() ==> #[trigger] t[i] == s[i + 1]);
        }
        assert forall|i: int, j: int| 0 <= i < j < t.len() implies #[trigger] t[i]
            > #[trigger] t[j] by {
            assert(t[i] == s[i + 1]);
            assert(t[j] == s[j + 1]);
        }
        assert(seq_sum(s) == s[0] + seq_sum(t));
        if s.len() > 1 {
            assert(t[0] == s[1]);
            lemma_desc_sum_bound(t);
        } else {
            assert(t =~= Seq::<int>::empty());
        }
        if s[0] == c {
            // The head is the class the greedy pass takes first.
            assert(u >= c) by {
                if s.len() > 1 {
                    lemma_seq_sum_nonneg_classes(t);
                }
            }
            assert forall|i: int| 0 <= i < t.len() implies is_class_size(#[trigger] t[i])
                && t[i] <= c / 2 by {
                assert(t[i] == s[i + 1]);
                assert(s[i + 1] < s[0]);
                assert(t[i] <= c / 2);
            }
            if c == 1 {
                assert(t =~= Seq::<int>::empty());
                assert(u == 1);
                assert(canon_rec(1int, 1int) == seq![1int] + canon_rec(0int, 0int));
                assert(canon_rec(0int, 0int) =~= Seq::<int>::empty());
                assert(s =~= canon_rec(u, c));
            } else {
                lemma_canon_rec_unique(t, u - c, c / 2);
                assert(canon_rec(u, c) == seq![c] + canon_rec(u - c, c / 2));
                assert(s =~= seq![c] + t);
            }
        } else {
            // The head is below `c`, so the whole run fits below `c` and
            // the greedy pass skips to the next class down.
            assert(s[0] < c);
            assert(s[0] <= c / 2);
            assert forall|i: int| 0 <= i < s.len() implies is_class_size(#[trigger] s[i])
                && s[i] <= c / 2 by {
                if i > 0 {
                    assert(s[i] < s[0]);
                }
            }
            lemma_desc_sum_bound(s);
            assert(u <= 2 * s[0] - 1);
            assert(u < c);
            assert(c >= 2);
            lemma_canon_rec_unique(s, u, c / 2);
        }
    }
}

/// A sum of class sizes is at least its length.
proof fn lemma_seq_sum_nonneg_classes(s: Seq<int>)
    requires
        forall|i: int| 0 <= i < s.len() ==> is_class_size(#[trigger] s[i]),
    ensures
        seq_sum(s) >= s.len(),
    decreases s.len(),
{
    if s.len() > 0 {
        let t = s.subrange(1, s.len() as int);
        assert(forall|i: int| 0 <= i < t.len() ==> is_class_size(#[trigger] t[i])) by {
            assert(forall|i: int| 0 <= i < t.len() ==> #[trigger] t[i] == s[i + 1]);
        }
        lemma_seq_sum_nonneg_classes(t);
    }
}

/// Law: the decomposition is deterministic and order-stable. A strictly
/// descending run of duration-class sizes whose sum is `u` is unique: it
/// is exactly the run the canonical decomposition yields, largest class
/// first.
pub proof fn lemma_canon_unique(s: Seq<int>, u: int)
    requires
        forall|i: int| 0 <= i < s.len() ==> is_class_size(#[trigger] s[i]),
        forall|i: int, j: int| 0 <= i < j < s.len() ==> #[trigger] s[i] > #[trigger] s[j],
        seq_sum(s) == u,
    ensures
        s == canon(u),
{
    lemma_canon_rec_unique(s, u, 128);
}

/// A remainder of zero emits nothing.
proof fn lemma_canon_rec_zero(c: int)
    ensures
        canon_rec(0, c) == Seq::<int>::empty(),
    decreases c,
{
    if c >= 1 {
        lemma_canon_rec_zero(c / 2);
    }
}

/// Running the greedy pass over classes down from `c` on a single class
/// size `s <= c` emits exactly that one symbol.
proof fn lemma_canon_rec_single(s: int, c: int)
    requires
        is_class_size(s),
        is_class_size(c),
        s <= c,
    ensures
        canon_rec(s, c) == seq![s],
    decreases c,
{
    if s == c {
        lemma_canon_rec_zero(c / 2);
        assert(canon_rec(s, c) =~= seq![s]);
    } else {
        lemma_canon_rec_single(s, c / 2);
    }
}

/// A duration equal to a single duration class decomposes into exactly one
/// symbol of that class.
pub proof fn lemma_canon_single(s: int)
    requires
        is_class_size(s),
    ensures
        canon(s) == seq![s],
{
    lemma_canon_rec_single(s, 128);
}

/// Decompose a duration of `units` 128th notes into the canonical run of
/// class sizes, largest first.
pub fn decompose(units: u8) -> (r: Vec<u8>)
    requires
        1 <= units,
    ensures
        sizes_of(r@) == canon(units as int),
{
    let mut r: Vec<u8> = Vec::new();
    let mut u: u8 = units;
    let mut c: u8 = 128;
    while c > 0
        invariant
            is_class_size(c as int) || c == 0,
            sizes_of(r@) + canon_rec(u as int, c as int) == canon(units as int),
        decreases c,
    {
        if u >= c {
            let ghost before = r@;
            r.push(c);
            u = u - c;
            proof {
                assert(sizes_of(r@) =~= sizes_of(before).push(c as int));
                assert(sizes_of(before).push(c as int) + canon_rec(u as int, c as int / 2)
                    =~= sizes_of(before) + (seq![c as int] + canon_rec(u as int, c as int / 2)));
            }
        }
        c = c / 2;
    }
    proof {
        assert(sizes_of(r@) + canon_rec(u as int, 0) =~= sizes_of(r@));
    }
    r
}

/// The duration of a marking, counted in 128th notes.
pub open spec fn marking_units(m: Marking) -> int {
    match m {
        Marking::Note(n) => spec_units(n.duration),
    }
}

/// The markings the layout engine accepts: a decomposable duration, and a
/// pitch within the staff's reach.
pub open spec fn marking_wf(m: Marking) -> bool {
    match m {
        Marking::Note(n) => decomposable(n.duration) && (match n.pitch {
            Some(vd) => -32767 <= vd <= 32767,
            None => true,
        }),
    }
}

/// The primitives of one symbol, pitched or rest, of class size `s` (in
/// 128th notes) at running offset `w`.
pub open spec fn symbol_v(staff: Staff, pitch: Option<i32>, s: int, w: int) -> Seq<ElementV> {
    let class = (128 as int / s) as u8;
    match pitch {
        Some(vd) => pitch_symbol_v(staff, class, w, vd as int),
        None => rest_symbol_v(staff, class, w),
    }
}

/// The primitives of the first `k` symbols of a decomposed marking, each
/// placed after the widths of the symbols before it: 25 horizontal units
/// per 128th note, so that a whole bar of 128 spans the bar width.
pub open spec fn symbols_v_upto(
    staff: Staff,
    pitch: Option<i32>,
    sizes: Seq<int>,
    k: int,
    w0: int,
) -> Seq<ElementV>
    decreases k,
{
    if k <= 0 {
        Seq::empty()
    } else {
        symbols_v_upto(staff, pitch, sizes, k - 1, w0) + symbol_v(
            staff,
            pitch,
            sizes[k - 1],
            w0 + 25 * seq_sum(sizes.subrange(0, k - 1)),
        )
    }
}

/// The primitives of one whole marking at running offset `w`: its canonical
/// decomposition, drawn left to right.
pub open spec fn marking_v(staff: Staff, m: Marking, w: int) -> Seq<ElementV> {
    match m {
        Marking::Note(n) => {
            let sizes = canon(spec_units(n.duration));
            symbols_v_upto(staff, n.pitch, sizes, sizes.len() as int, w)
        },
    }
}

/// The total duration of the first `j` markings, in 128th notes.
pub open spec fn markings_units_upto(ms: Seq<Marking>, j: int) -> int
    decreases j,
{
    if j <= 0 {
        0
    } else {
        markings_units_upto(ms, j - 1) + marking_units(ms[j - 1])
    }
}

/// The primitives of the first `j` markings of a measure, starting at
/// running offset `w0`.
pub open spec fn markings_v_upto(staff: Staff, ms: Seq<Marking>, j: int, w0: int) -> Seq<ElementV>
    decreases j,
{
    if j <= 0 {
        Seq::empty()
    } else {
        markings_v_upto(staff, ms, j - 1, w0) + marking_v(
            staff,
            ms[j - 1],
            w0 + 25 * markings_units_upto(ms, j - 1),
        )
    }
}

/// A notator width fraction: in lowest terms, with a denominator that
/// measures 128, so that the width is an exact count of 128th notes.
pub open spec fn width_wf(f: Fraction) -> bool {
    in_lowest_terms(f) && divides(f.den as int, 128)
}

/// The width as an exact count of 128th notes.
pub open spec fn units_of_width(f: Fraction) -> int {
    (f.num as int) * (128int / (f.den as int))
}

/// Notates the symbols of one measure's markings in order. Keeps the
/// fraction of the measure that has been notated, always in lowest terms.
pub struct Notator {
    /// Fraction of the measure that has been notated.
    pub width: Fraction,
}

impl Notator {
    /// Create a new `Notator` with nothing notated yet.
    pub fn new() -> (r: Self)
        ensures
            r.width.num == 0,
            r.width.den == 1,
            width_wf(r.width),
            units_of_width(r.width) == 0,
    {
        let width = Fraction::new(0, 1);
        proof {
            assert(crate::fraction::spec_gcd(0nat, 1nat) == 1) by {
                assert(crate::fraction::spec_gcd(0nat, 1nat) == crate::fraction::spec_gcd(
                    1nat,
                    0nat,
                ));
            }
            assert(divides(1int, 128int)) by {
                assert(128int == 128int * 1int);
            }
        }
        Notator { width }
    }

    /// Advance the notated width by one symbol of class size `s`, keeping
    /// the fraction in lowest terms.
    fn advance_width(&mut self, s: u8)
        requires
            is_class_size(s as int),
            width_wf(old(self).width),
            0 <= units_of_width(old(self).width),
            units_of_width(old(self).width) + s <= COORD_LIMIT,
        ensures
            width_wf(final(self).width),
            units_of_width(final(self).width) == units_of_width(old(self).width) + s,
    {
        let w = self.width;
        let ghost q = 128int / (w.den as int);
        let ghost m = units_of_width(w) + s;
        proof {
            lemma_divides_le(w.den as int, 128);
            let k = choose|k: int| 128int == #[trigger] (k * (w.den as int));
            lemma_div_multiples_vanish(k, w.den as int);
            assert((w.den as int) * k == k * (w.den as int)) by (nonlinear_arith);
            assert(q == k);
            assert(q * (w.den as int) == 128);
            assert(q >= 1) by (nonlinear_arith)
                requires
                    q * (w.den as int) == 128,
                    0 < w.den <= 128,
            ;
            assert(w.num <= units_of_width(w)) by (nonlinear_arith)
                requires
                    q >= 1,
                    units_of_width(w) == (w.num as int) * q,
                    w.num >= 0,
            ;
        }
        let step = Fraction::new(s as u64, 128).simplify();
        proof {
            lemma_divides_le(step.den as int, 128);
            lemma_mul_upper_bound(w.num as int, COORD_LIMIT as int, step.den as int, 128);
            lemma_mul_upper_bound(step.num as int, 128, w.den as int, 128);
            lemma_mul_upper_bound(w.den as int, 128, step.den as int, 128);
        }
        let sum = w.add(step);
        proof {
            assert(sum.den > 0) by (nonlinear_arith)
                requires
                    sum.den as int == (w.den as int) * (step.den as int),
                    w.den > 0,
                    step.den > 0,
            ;
        }
        let next = sum.simplify();
        proof {
            // The unreduced sum stands for (units + s) / 128.
            assert((sum.num as int) * 128 == m * (sum.den as int)) by (nonlinear_arith)
                requires
                    sum.num as int == (w.num as int) * (step.den as int) + (step.num as int) * (
                    w.den as int),
                    sum.den as int == (w.den as int) * (step.den as int),
                    (step.num as int) * 128 == (s as int) * (step.den as int),
                    q * (w.den as int) == 128,
                    m == (w.num as int) * q + s,
            ;
            // So does its reduced form.
            assert((next.num as int) * 128 == m * (next.den as int)) by (nonlinear_arith)
                requires
                    (next.num as int) * (sum.den as int) == (sum.num as int) * (next.den as int),
                    (sum.num as int) * 128 == m * (sum.den as int),
                    sum.den > 0,
            ;
            assert(m >= 0) by (nonlinear_arith)
                requires
                    m == (w.num as int) * q + s,
                    w.num >= 0,
                    q >= 1,
                    s >= 1,
            ;
            lemma_lowest_terms_minimal(next, m, 128);
            let kn = choose|k: int| 128int == #[trigger] (k * (next.den as int));
            lemma_div_multiples_vanish(kn, next.den as int);
            assert((next.den as int) * kn == kn * (next.den as int)) by (nonlinear_arith);
            assert(units_of_width(next) == m) by (nonlinear_arith)
                requires
                    units_of_width(next) == (next.num as int) * kn,
                    kn * (next.den as int) == 128,
                    (next.num as int) * 128 == m * (next.den as int),
                    next.den > 0,
            ;
        }
        self.width = next;
    }

    /// Notate a note or rest: decompose its duration and lay the symbols
    /// out left to right.
    pub fn notate(&mut self, measure: &mut MeasureElem, note: &Note)
        requires
            old(measure).staff.wf(),
            marking_wf(Marking::Note(*note)),
            0 <= old(measure).width,
            old(measure).width + 25 * marking_units(Marking::Note(*note)) <= COORD_LIMIT,
            width_wf(old(self).width),
            0 <= units_of_width(old(self).width),
            units_of_width(old(self).width) + marking_units(Marking::Note(*note)) <= COORD_LIMIT,
        ensures
            final(measure).staff == old(measure).staff,
            final(measure).width == old(measure).width + 25 * marking_units(
                Marking::Note(*note),
            ),
            final(measure).elems() == old(measure).elems() + marking_v(
                old(measure).staff,
                Marking::Note(*note),
                old(measure).width as int,
            ),
            width_wf(final(self).width),
            units_of_width(final(self).width) == units_of_width(old(self).width) + marking_units(
                Marking::Note(*note),
            ),
    {
        proof {
            lemma_mul_upper_bound(note.duration.num as int, u64::MAX as int / 128, 128, 128);
        }
        let dur = ((note.duration.num * 128) / note.duration.den) as u8;
        match note.pitch {
            Some(vd) => self.notate_pitch(measure, dur, vd),
            None => self.notate_rest(measure, dur),
        }
    }

    /// Notate a pitched note: one notehead (and stem, except for a whole
    /// note) per decomposed class, left to right.
    fn notate_pitch(&mut self, measure: &mut MeasureElem, dur: u8, visual_distance: i32)
        requires
            old(measure).staff.wf(),
            1 <= dur,
            -32767 <= visual_distance <= 32767,
            0 <= old(measure).width,
            old(measure).width + 25 * (dur as int) <= COORD_LIMIT,
            width_wf(old(self).width),
            0 <= units_of_width(old(self).width),
            units_of_width(old(self).width) + dur <= COORD_LIMIT,
        ensures
            final(measure).staff == old(measure).staff,
            final(measure).width == old(measure).width + 25 * (dur as int),
            final(measure).elems() == old(measure).elems() + symbols_v_upto(
                old(measure).staff,
                Some(visual_distance),
                canon(dur as int),
                canon(dur as int).len() as int,
                old(measure).width as int,
            ),
            width_wf(final(self).width),
            units_of_width(final(self).width) == units_of_width(old(self).width) + dur,
    {
        let sizes = decompose(dur);
        let ghost gsizes = canon(dur as int);
        proof {
            lemma_canon_classes(dur as int);
            lemma_canon_sum(dur as int);
        }
        let mut k: usize = 0;
        while k < sizes.len()
            invariant
                sizes_of(sizes@) == gsizes,
                gsizes == canon(dur as int),
                seq_sum(gsizes) == dur,
                forall|i: int| 0 <= i < gsizes.len() ==> is_class_size(#[trigger] gsizes[i]),
                k <= sizes.len(),
                measure.staff == old(measure).staff,
                measure.staff.wf(),
                -32767 <= visual_distance <= 32767,
                measure.width == old(measure).width + 25 * seq_sum(gsizes.subrange(0, k as int)),
                0 <= old(measure).width,
                old(measure).width + 25 * (dur as int) <= COORD_LIMIT,
                measure.elems() == old(measure).elems() + symbols_v_upto(
                    old(measure).staff,
                    Some(visual_distance),
                    gsizes,
                    k as int,
                    old(measure).width as int,
                ),
                width_wf(self.width),
                0 <= units_of_width(self.width),
                units_of_width(self.width) == units_of_width(old(self).width) + seq_sum(
                    gsizes.subrange(0, k as int),
                ),
                units_of_width(old(self).width) + dur <= COORD_LIMIT,
            decreases sizes.len() - k,
    {
            proof {
                lemma_partial_sum_bounds(gsizes, k as int);
            }
            let s = sizes[k];
            assert(s as int == gsizes[k as int]);
            proof {
                lemma_class_of_size(s as int);
            }
            let class = 128u8 / s;
            assert(is_duration_class(class) && class as int == 128int / (s as int));
            measure.add_pitch(class, visual_distance);
            measure.width += (s as i32) * 25;
            self.advance_width(s);
            proof {
                lemma_seq_sum_push(gsizes.subrange(0, k as int), gsizes[k as int]);
                assert(gsizes.subrange(0, k as int).push(gsizes[k as int]) =~= gsizes.subrange(
                    0,
                    k as int + 1,
                ));
                assert(measure.elems() =~= old(measure).elems() + symbols_v_upto(
                    old(measure).staff,
                    Some(visual_distance),
                    gsizes,
                    k as int + 1,
                    old(measure).width as int,
                ));
            }
            k += 1;
        }
        proof {
            assert(gsizes.subrange(0, gsizes.len() as int) =~= gsizes);
        }
    }

    /// Notate a rest: one rest glyph per decomposed class, left to right.
    fn notate_rest(&mut self, measure: &mut MeasureElem, dur: u8)
        requires
            old(measure).staff.wf(),
            1 <= dur,
            0 <= old(measure).width,
            old(measure).width + 25 * (dur as int) <= COORD_LIMIT,
            width_wf(old(self).width),
            0 <= units_of_width(old(self).width),
            units_of_width(old(self).width) + dur <= COORD_LIMIT,
        ensures
            final(measure).staff == old(measure).staff,
            final(measure).width == old(measure).width + 25 * (dur as int),
            final(measure).elems() == old(measure).elems() + symbols_v_upto(
                old(measure).staff,
                None,
                canon(dur as int),
                canon(dur as int).len() as int,
                old(measure).width as int,
            ),
            width_wf(final(self).width),
            units_of_width(final(self).width) == units_of_width(old(self).width) + dur,
    {
        let sizes = decompose(dur);
        let ghost gsizes = canon(dur as int);
        proof {
            lemma_canon_classes(dur as int);
            lemma_canon_sum(dur as int);
        }
        let mut k: usize = 0;
        while k < sizes.len()
            invariant
                sizes_of(sizes@) == gsizes,
                gsizes == canon(dur as int),
                seq_sum(gsizes) == dur,
                forall|i: int| 0 <= i < gsizes.len() ==> is_class_size(#[trigger] gsizes[i]),
                k <= sizes.len(),
                measure.staff == old(measure).staff,
                measure.staff.wf(),
                measure.width == old(measure).width + 25 * seq_sum(gsizes.subrange(0, k as int)),
                0 <= old(measure).width,
                old(measure).width + 25 * (dur as int) <= COORD_LIMIT,
                measure.elems() == old(measure).elems() + symbols_v_upto(
                    old(measure).staff,
                    None,
                    gsizes,
                    k as int,
                    old(measure).width as int,
                ),
                width_wf(self.width),
                0 <= units_of_width(self.width),
                units_of_width(self.width) == units_of_width(old(self).width) + seq_sum(
                    gsizes.subrange(0, k as int),
                ),
                units_of_width(old(self).width) + dur <= COORD_LIMIT,
            decreases sizes.len() - k,
        {
            proof {
                lemma_partial_sum_bounds(gsizes, k as int);
            }
            let s = sizes[k];
            assert(s as int == gsizes[k as int]);
            proof {
                lemma_class_of_size(s as int);
            }
            let class = 128u8 / s;
            assert(is_duration_class(class) && class as int == 128int / (s as int));
            measure.add_rest(Some(class));
            measure.width += (s as i32) * 25;
            self.advance_width(s);
            proof {
                lemma_seq_sum_push(gsizes.subrange(0, k as int), gsizes[k as int]);
                assert(gsizes.subrange(0, k as int).push(gsizes[k as int]) =~= gsizes.subrange(
                    0,
                    k as int + 1,
                ));
                assert(measure.elems() =~= old(measure).elems() + symbols_v_upto(
                    old(measure).staff,
                    None,
                    gsizes,
                    k as int + 1,
                    old(measure).width as int,
                ));
            }
            k += 1;
        }
        proof {
            assert(gsizes.subrange(0, gsizes.len() as int) =~= gsizes);
        }
    }
}

/// The duration class named by a class size: a whole note's 128 units give
/// class 1, a 128th note's single unit gives class 128.
proof fn lemma_class_of_size(s: int)
    requires
        is_class_size(s),
    ensures
        is_duration_class((128int / s) as u8),
        1 <= 128int / s <= 128,
        is_class_size(128int / s),
{
    if s == 1 {
        assert(128int / 1 == 128);
    } else if s == 2 {
        assert(128int / 2 == 64);
    } else if s == 4 {
        assert(128int / 4 == 32);
    } else if s == 8 {
        assert(128int / 8 == 16);
    } else if s == 16 {
        assert(128int / 16 == 8);
    } else if s == 32 {
        assert(128int / 32 == 4);
    } else if s == 64 {
        assert(128int / 64 == 2);
    } else {
        assert(128int / 128 == 1);
    }
}

/// Partial sums of a run of class sizes stay between zero and the whole
/// sum.
proof fn lemma_partial_sum_bounds(s: Seq<int>, k: int)
    requires
        0 <= k <= s.len(),
        forall|i: int| 0 <= i < s.len() ==> is_class_size(#[trigger] s[i]),
    ensures
        0 <= seq_sum(s.subrange(0, k)),
        seq_sum(s.subrange(0, k)) <= seq_sum(s),
        k < s.len() ==> seq_sum(s.subrange(0, k)) + s[k] <= seq_sum(s),
{
    lemma_seq_sum_split(s, k);
    let front = s.subrange(0, k);
    let back = s.subrange(k, s.len() as int);
    assert(forall|i: int| 0 <= i < front.len() ==> #[trigger] front[i] >= 0);
    assert(forall|i: int| 0 <= i < back.len() ==> #[trigger] back[i] >= 0);
    lemma_seq_sum_nonneg(front);
    lemma_seq_sum_nonneg(back);
    if k < s.len() {
        assert(back[0] == s[k]);
        assert(back.subrange(1, back.len() as int) =~= s.subrange(k + 1, s.len() as int));
        lemma_seq_sum_nonneg(s.subrange(k + 1, s.len() as int));
    }
}

} // verus!
