//! Hit records and ordered hit collections.
//!
//! An `Intersection` pairs a parametric distance with the shape that
//! was hit.  `Intersections` keeps its records sorted ascending by
//! distance from construction on; `hit` picks the first record with a
//! nonnegative distance, which sortedness makes the nearest visible
//! one.

use vstd::prelude::*;
use vstd::multiset::Multiset;
use crate::shape::Shape;
use crate::shape::ShapeV;
use crate::shape::shape_eq_s;

verus! {

/// The mathematical value of a hit record.
pub ghost struct IntersectionV {
    pub t: int,
    pub object: ShapeV,
}

/// A hit record: the distance along the ray and the shape hit.
#[derive(Debug, Clone, Copy)]
pub struct Intersection {
    pub t: i128,
    pub object: Shape,
}

impl View for Intersection {
    type V = IntersectionV;

    open spec fn view(&self) -> IntersectionV {
        IntersectionV { t: self.t as int, object: self.object@ }
    }
}

/// Two hit records agree: equal distance and the same shape.
pub open spec fn inter_eq_s(a: IntersectionV, b: IntersectionV) -> bool {
    a.t == b.t && shape_eq_s(a.object, b.object)
}

/// The sequence of views of a vector of hit records.
pub open spec fn inters_view(s: Seq<Intersection>) -> Seq<IntersectionV> {
    s.map_values(|i: Intersection| i@)
}

/// Insertion into a sequence: before the first record with a strictly
/// larger distance.
pub open spec fn insert_s(s: Seq<IntersectionV>, x: IntersectionV) -> Seq<IntersectionV>
    decreases s.len(),
{
    if s.len() == 0 {
        seq![x]
    } else if x.t < s[0].t {
        seq![x] + s
    } else {
        seq![s[0]] + insert_s(s.subrange(1, s.len() as int), x)
    }
}

/// The first `n` records inserted one after the other.
pub open spec fn sort_pref(s: Seq<IntersectionV>, n: int) -> Seq<IntersectionV>
    decreases n,
{
    if n <= 0 {
        Seq::empty()
    } else {
        insert_s(sort_pref(s, n - 1), s[n - 1])
    }
}

/// The records sorted ascending by distance, by repeated insertion in
/// the order given.
pub open spec fn sort_s(s: Seq<IntersectionV>) -> Seq<IntersectionV> {
    sort_pref(s, s.len() as int)
}

/// Sorted ascending by distance.
pub open spec fn sorted_s(s: Seq<IntersectionV>) -> bool {
    forall|i: int, j: int| 0 <= i <= j < s.len() ==> (#[trigger] s[i]).t <= (#[trigger] s[j]).t
}

/// The first record with a nonnegative distance.
pub open spec fn hit_s(s: Seq<IntersectionV>) -> Option<IntersectionV>
    decreases s.len(),
{
    if s.len() == 0 {
        Option::None
    } else if s[0].t >= 0 {
        Option::Some(s[0])
    } else {
        hit_s(s.subrange(1, s.len() as int))
    }
}

/// Inserting splits the sequence at the scan position: before `j` no
/// record is larger than `x`, and at `j` (if any) the first larger
/// record begins.
pub proof fn lemma_insert_at(s: Seq<IntersectionV>, x: IntersectionV, j: int)
    requires
        0 <= j <= s.len(),
        forall|k: int| 0 <= k < j ==> !(x.t < (#[trigger] s[k]).t),
        j < s.len() ==> x.t < s[j].t,
    ensures
        insert_s(s, x) =~= s.subrange(0, j).push(x) + s.subrange(j, s.len() as int),
    decreases j,
{
    if j == 0 {
        if s.len() == 0 {
            assert(insert_s(s, x) =~= seq![x]);
        } else {
            assert(x.t < s[0].t);
        }
    } else {
        assert(!(x.t < s[0].t));
        let rest = s.subrange(1, s.len() as int);
        lemma_insert_at(rest, x, j - 1);
        assert(insert_s(s, x) == seq![s[0]] + insert_s(rest, x));
        assert(rest.subrange(0, j - 1) =~= s.subrange(1, j));
        assert(rest.subrange(j - 1, rest.len() as int) =~= s.subrange(j, s.len() as int));
    }
}

/// Insertion keeps a sorted sequence sorted and adds exactly the new
/// record.
pub proof fn lemma_insert_sorted(s: Seq<IntersectionV>, x: IntersectionV)
    requires
        sorted_s(s),
    ensures
        sorted_s(insert_s(s, x)),
        insert_s(s, x).len() == s.len() + 1,
        insert_s(s, x).to_multiset() == s.to_multiset().insert(x),
    decreases s.len(),
{
    broadcast use vstd::seq_lib::group_to_multiset_ensures;

    if s.len() == 0 {
        assert(insert_s(s, x) =~= seq![x]);
        assert(seq![x] =~= Seq::empty().push(x));
        assert(s.to_multiset() =~= Multiset::empty());
        assert(seq![x].to_multiset() == s.to_multiset().insert(x));
    } else if x.t < s[0].t {
        let r = seq![x] + s;
        assert(r =~= s.insert(0, x));
        assert(r.to_multiset() == s.to_multiset().insert(x));
        assert forall|i: int, j: int| 0 <= i <= j < r.len() implies
            (#[trigger] r[i]).t <= (#[trigger] r[j]).t by {
            if i > 0 {
                assert(r[i] == s[i - 1] && r[j] == s[j - 1]);
            } else if j > 0 {
                assert(r[j] == s[j - 1]);
                assert(s[0].t <= s[j - 1].t);
            }
        }
    } else {
        let rest = s.subrange(1, s.len() as int);
        assert(sorted_s(rest));
        lemma_insert_sorted(rest, x);
        let ri = insert_s(rest, x);
        let r = seq![s[0]] + ri;
        assert(insert_s(s, x) == r);
        assert(rest.to_multiset().insert(x) == ri.to_multiset());
        assert(s =~= seq![s[0]] + rest);
        lemma_multiset_cons(s[0], rest);
        lemma_multiset_cons(s[0], ri);
        assert(r.to_multiset() == s.to_multiset().insert(x)) by {
            assert(r.to_multiset() == ri.to_multiset().insert(s[0]));
            assert(s.to_multiset() == rest.to_multiset().insert(s[0]));
            assert(ri.to_multiset().insert(s[0])
                == rest.to_multiset().insert(x).insert(s[0]));
            assert(rest.to_multiset().insert(x).insert(s[0])
                =~= rest.to_multiset().insert(s[0]).insert(x));
        }
        // Everything in the inserted tail is at least s[0].
        assert forall|i: int, j: int| 0 <= i <= j < r.len() implies
            (#[trigger] r[i]).t <= (#[trigger] r[j]).t by {
            if i > 0 {
                assert(r[i] == ri[i - 1] && r[j] == ri[j - 1]);
            } else if j > 0 {
                assert(r[j] == ri[j - 1]);
                lemma_insert_members(rest, x, j - 1);
                if ri[j - 1] != x {
                    let w = choose|w: int| 0 <= w < rest.len() && rest[w] == ri[j - 1];
                    assert(s[w + 1] == rest[w]);
                    assert(s[0].t <= s[w + 1].t);
                } else {
                    assert(!(x.t < s[0].t));
                }
            }
        }
    }
}

/// Every record of an inserted sequence is the new record or one of
/// the old ones.
pub proof fn lemma_insert_members(s: Seq<IntersectionV>, x: IntersectionV, i: int)
    requires
        0 <= i < insert_s(s, x).len(),
        insert_s(s, x).len() == s.len() + 1,
    ensures
        insert_s(s, x)[i] == x || exists|w: int| 0 <= w < s.len() && s[w] == insert_s(s, x)[i],
    decreases s.len(),
{
    if s.len() == 0 {
        assert(insert_s(s, x) =~= seq![x]);
    } else if x.t < s[0].t {
        if i > 0 {
            assert((seq![x] + s)[i] == s[i - 1]);
        }
    } else {
        let rest = s.subrange(1, s.len() as int);
        let ri = insert_s(rest, x);
        lemma_insert_len(rest, x);
        if i == 0 {
            assert((seq![s[0]] + ri)[0] == s[0]);
        } else {
            lemma_insert_members(rest, x, i - 1);
            if ri[i - 1] != x {
                let w = choose|w: int| 0 <= w < rest.len() && rest[w] == ri[i - 1];
                assert(s[w + 1] == ri[i - 1]);
            }
        }
    }
}

/// Insertion grows the length by one.
pub proof fn lemma_insert_len(s: Seq<IntersectionV>, x: IntersectionV)
    ensures
        insert_s(s, x).len() == s.len() + 1,
    decreases s.len(),
{
    if s.len() > 0 && !(x.t < s[0].t) {
        lemma_insert_len(s.subrange(1, s.len() as int), x);
    }
}

/// Two multiset inserts commute, and consing onto a sequence inserts
/// into its multiset.
proof fn lemma_multiset_cons(x: IntersectionV, s: Seq<IntersectionV>)
    ensures
        (seq![x] + s).to_multiset() == s.to_multiset().insert(x),
{
    broadcast use vstd::seq_lib::group_to_multiset_ensures;

    assert((seq![x] + s) =~= s.insert(0, x));
}

/// The sorted sequence is sorted and holds exactly the records given.
pub proof fn lemma_sort_pref_sorted(s: Seq<IntersectionV>, n: int)
    requires
        0 <= n <= s.len(),
    ensures
        sorted_s(sort_pref(s, n)),
        sort_pref(s, n).to_multiset() == s.subrange(0, n).to_multiset(),
        sort_pref(s, n).len() == n,
    decreases n,
{
    broadcast use vstd::seq_lib::group_to_multiset_ensures;

    if n == 0 {
        assert(s.subrange(0, 0) =~= Seq::empty());
        assert(sort_pref(s, 0).to_multiset() =~= Seq::<IntersectionV>::empty().to_multiset());
    } else {
        lemma_sort_pref_sorted(s, n - 1);
        lemma_insert_sorted(sort_pref(s, n - 1), s[n - 1]);
        assert(s.subrange(0, n) =~= s.subrange(0, n - 1).push(s[n - 1]));
        assert(s.subrange(0, n).to_multiset()
            == s.subrange(0, n - 1).to_multiset().insert(s[n - 1]));
    }
}

/// The sorted view of a record sequence: sorted, and the same records
/// as a multiset.
pub proof fn lemma_sort_sorted(s: Seq<IntersectionV>)
    ensures
        sorted_s(sort_s(s)),
        sort_s(s).to_multiset() == s.to_multiset(),
        sort_s(s).len() == s.len(),
{
    lemma_sort_pref_sorted(s, s.len() as int);
    assert(s.subrange(0, s.len() as int) =~= s);
}

/// Of a sorted sequence, the first record with nonnegative distance
/// is the nearest visible hit: it has the smallest nonnegative
/// distance, and when there is none, every distance is negative.
pub proof fn lemma_hit_min(s: Seq<IntersectionV>)
    requires
        sorted_s(s),
    ensures
        match hit_s(s) {
            Option::None => forall|i: int| 0 <= i < s.len() ==> (#[trigger] s[i]).t < 0,
            Option::Some(h) => {
                &&& h.t >= 0
                &&& exists|i: int| 0 <= i < s.len() && s[i] == h
                &&& forall|i: int| 0 <= i < s.len() && (#[trigger] s[i]).t >= 0 ==> h.t <= s[i].t
            },
        },
    decreases s.len(),
{
    if s.len() > 0 && s[0].t < 0 {
        let rest = s.subrange(1, s.len() as int);
        assert(sorted_s(rest));
        lemma_hit_min(rest);
        match hit_s(rest) {
            Option::None => {
                assert forall|i: int| 0 <= i < s.len() implies (#[trigger] s[i]).t < 0 by {
                    if i > 0 {
                        assert(s[i] == rest[i - 1]);
                    }
                }
            },
            Option::Some(h) => {
                let w = choose|i: int| 0 <= i < rest.len() && rest[i] == h;
                assert(s[w + 1] == h);
                assert forall|i: int| 0 <= i < s.len() && (#[trigger] s[i]).t >= 0 implies
                    h.t <= s[i].t by {
                    if i > 0 {
                        assert(s[i] == rest[i - 1]);
                    }
                }
            },
        }
    }
}

/// An ordered collection of hit records, sorted ascending by distance
/// from construction.
#[derive(Debug)]
pub struct Intersections {
    pub xs: Vec<Intersection>,
}

impl View for Intersections {
    type V = Seq<IntersectionV>;

    open spec fn view(&self) -> Seq<IntersectionV> {
        inters_view(self.xs@)
    }
}

impl Intersections {
    /// A collection from any record list: the records, sorted
    /// ascending by distance.
    pub fn new(intersections: Vec<Intersection>) -> (r: Intersections)
        ensures
            r@ == sort_s(inters_view(intersections@)),
            sorted_s(r@),
    {
        let ghost input = inters_view(intersections@);
        let mut out: Vec<Intersection> = Vec::new();
        let mut i: usize = 0;
        proof {
            assert(inters_view(out@) =~= sort_pref(input, 0));
            lemma_sort_pref_sorted(input, 0);
        }
        while i < intersections.len()
            invariant
                0 <= i <= intersections@.len(),
                input == inters_view(intersections@),
                input.len() == intersections@.len(),
                inters_view(out@) == sort_pref(input, i as int),
                out@.len() == i,
                sorted_s(inters_view(out@)),
            decreases intersections@.len() - i,
        {
            let x = intersections[i];
            let mut j: usize = 0;
            while j < out.len() && out[j].t <= x.t
                invariant
                    0 <= j <= out@.len(),
                    forall|k: int| 0 <= k < j ==> !((x@.t) < (#[trigger] inters_view(out@)[k]).t),
                    inters_view(out@) == sort_pref(input, i as int),
                    out@.len() <= i,
                    0 <= i < intersections@.len(),
                    x == intersections@[i as int],
                    input == inters_view(intersections@),
                decreases out@.len() - j,
            {
                j += 1;
            }
            proof {
                lemma_insert_at(inters_view(out@), x@, j as int);
            }
            out.insert(j, x);
            proof {
                assert(inters_view(out@) =~= sort_pref(input, i as int).subrange(0, j as int)
                    .push(x@) + sort_pref(input, i as int).subrange(
                    j as int, sort_pref(input, i as int).len() as int));
                assert(input[i as int] == x@);
                assert(inters_view(out@) =~= insert_s(sort_pref(input, i as int), x@));
                lemma_sort_pref_sorted(input, i as int + 1);
            }
            i += 1;
        }
        proof {
            assert(sort_pref(input, input.len() as int) == sort_s(input));
        }
        Intersections { xs: out }
    }

    /// A collection holding one record.
    pub fn from_one(i: Intersection) -> (r: Intersections)
        ensures
            r@ == seq![i@],
    {
        let mut v: Vec<Intersection> = Vec::new();
        v.push(i);
        let r = Intersections::new(v);
        proof {
            let iv = inters_view(v@);
            assert(iv =~= seq![i@]);
            assert(sort_pref(iv, 0) =~= Seq::<IntersectionV>::empty());
            assert(insert_s(sort_pref(iv, 0), iv[0]) =~= seq![i@]);
            assert(r@ =~= seq![i@]);
        }
        r
    }

    /// The number of records.
    pub fn len(&self) -> (n: usize)
        ensures
            n == self@.len(),
    {
        self.xs.len()
    }

    /// The record at an index.
    pub fn get(&self, i: usize) -> (r: &Intersection)
        requires
            i < self@.len(),
        ensures
            r@ == self@[i as int],
    {
        &self.xs[i]
    }

    /// The first record with a nonnegative distance, or nothing when
    /// every distance is negative.
    pub fn hit(&self) -> (r: Option<Intersection>)
        ensures
            match r {
                Option::Some(h) => hit_s(self@) == Option::Some(h@),
                Option::None => hit_s(self@) == Option::<IntersectionV>::None,
            },
    {
        let mut i: usize = 0;
        proof {
            assert(self@.subrange(0, self@.len() as int) =~= self@);
        }
        while i < self.xs.len()
            invariant
                0 <= i <= self@.len(),
                self@.len() == self.xs@.len(),
                hit_s(self@.subrange(i as int, self@.len() as int)) == hit_s(self@),
                forall|k: int| 0 <= k < i ==> (#[trigger] self@[k]).t < 0,
            decreases self@.len() - i,
        {
            proof {
                assert(self@.subrange(i as int, self@.len() as int)[0] == self@[i as int]);
            }
            if self.xs[i].t >= 0 {
                return Some(self.xs[i]);
            }
            proof {
                let sub = self@.subrange(i as int, self@.len() as int);
                assert(sub.subrange(1, sub.len() as int)
                    =~= self@.subrange(i as int + 1, self@.len() as int));
            }
            i += 1;
        }
        proof {
            assert(self@.subrange(self@.len() as int, self@.len() as int).len() == 0);
        }
        None
    }
}

impl Intersection {
    /// A hit record from a distance and a shape.
    pub fn new(t: i128, object: Shape) -> (r: Intersection)
        ensures
            r@.t == t as int,
            r@.object == object@,
    {
        Intersection { t, object }
    }

    /// Whether two hit records agree: equal distance and the same
    /// shape.
    pub fn equals(&self, other: &Intersection) -> (r: bool)
        requires
            crate::shape::shape_wf(self@.object),
            crate::shape::shape_wf(other@.object),
        ensures
            r == inter_eq_s(self@, other@),
    {
        self.t == other.t && self.object.shape_eq(&other.object)
    }
}

} // verus!
