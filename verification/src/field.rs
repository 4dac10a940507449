//! Superposition of segment contributions.
//!
//! A `Field` owns an ordered sequence of segments.  Evaluating it at a point
//! sums every segment's induced field, left to right, with the checked
//! vector addition; an empty field is exactly zero everywhere.  A single
//! undefined contribution (singular geometry, out-of-range step) poisons the
//! whole result, which comes back as `None`: failures are not isolated, just
//! as an IEEE NaN would propagate through the sum.  Evaluation mutates
//! nothing, so a constructed field may be queried from any number of readers.

use vstd::prelude::*;
use crate::scalar::in_range;
use crate::segment::CurrentSgmt;
use crate::segment::s_induced;
use crate::vector::Location;
use crate::vector::Vector;
use crate::vector::ovval;
use crate::vector::s_vadd;

verus! {

/// An ordered collection of current segments.
pub struct Field {
    currents: Vec<CurrentSgmt>,
}

/// Exact value of superposition: the zero triple for no segments, otherwise
/// the checked sum of the last segment's contribution onto the evaluation of
/// the rest, so the fold runs left to right; `None` as soon as one
/// contribution or one partial sum is undefined.
pub open spec fn s_eval(segs: Seq<CurrentSgmt>, p: (int, int, int)) -> Option<(int, int, int)>
    decreases segs.len(),
{
    if segs.len() == 0 {
        Some((0int, 0int, 0int))
    } else {
        match s_eval(segs.drop_last(), p) {
            None => None,
            Some(acc) => match s_induced(
                segs.last().s_start(),
                segs.last().s_axis(),
                segs.last().s_len(),
                p,
            ) {
                None => None,
                Some(c) => s_vadd(acc, c),
            },
        }
    }
}

/// An empty field evaluates to the zero vector at every point.
pub proof fn lemma_empty_field_zero(p: (int, int, int))
    ensures
        s_eval(Seq::<CurrentSgmt>::empty(), p) == Some((0int, 0int, 0int)),
{
}

/// Contribution of one segment at a point, as `s_eval` sums it.
pub open spec fn s_contribution(s: CurrentSgmt, p: (int, int, int)) -> Option<(int, int, int)> {
    s_induced(s.s_start(), s.s_axis(), s.s_len(), p)
}

/// Superposition of two segments does not depend on their order: swapping
/// them gives the same result, defined or not.
pub proof fn lemma_superposition_pair_order(a: CurrentSgmt, b: CurrentSgmt, p: (int, int, int))
    ensures
        s_eval(seq![a, b], p) == s_eval(seq![b, a], p),
{
    crate::segment::lemma_induced_in_range(a.s_start(), a.s_axis(), a.s_len(), p);
    crate::segment::lemma_induced_in_range(b.s_start(), b.s_axis(), b.s_len(), p);
    assert(seq![a, b].drop_last() =~= seq![a]);
    assert(seq![b, a].drop_last() =~= seq![b]);
    assert(seq![a].drop_last() =~= Seq::<CurrentSgmt>::empty());
    assert(seq![b].drop_last() =~= Seq::<CurrentSgmt>::empty());
    assert(seq![a, b].last() == b && seq![b, a].last() == a);
    assert(seq![a].last() == a && seq![b].last() == b);
    match (s_contribution(a, p), s_contribution(b, p)) {
        (Some(ca), Some(cb)) => {
            assert(seq![a].len() == 1 && seq![b].len() == 1);
            assert(s_contribution(a, p) == Some(ca));
            assert(s_contribution(b, p) == Some(cb));
            assert(in_range(ca.0) && in_range(ca.1) && in_range(ca.2));
            assert(in_range(cb.0) && in_range(cb.1) && in_range(cb.2));
            assert(s_eval(Seq::<CurrentSgmt>::empty(), p) == Some((0int, 0int, 0int)));
            assert(s_eval(seq![a], p) == s_vadd((0int, 0int, 0int), ca));
            assert(s_eval(seq![b], p) == s_vadd((0int, 0int, 0int), cb));
            assert((ca.0, ca.1, ca.2) == ca && (cb.0, cb.1, cb.2) == cb);
            assert(s_eval(seq![a], p) == Some(ca));
            assert(s_eval(seq![b], p) == Some(cb));
            assert(s_eval(seq![a, b], p) == s_vadd(ca, cb));
            assert(s_eval(seq![b, a], p) == s_vadd(cb, ca));
        },
        _ => {
        },
    }
}

/// Once a prefix of the fold is undefined, the whole fold is undefined: a
/// degenerate contribution poisons the aggregate, whatever follows it.
pub proof fn lemma_eval_none_prefix(segs: Seq<CurrentSgmt>, p: (int, int, int), j: int)
    requires
        0 <= j <= segs.len(),
        s_eval(segs.take(j), p) == None::<(int, int, int)>,
    ensures
        s_eval(segs, p) == None::<(int, int, int)>,
    decreases segs.len() - j,
{
    if j == segs.len() {
        assert(segs.take(j) =~= segs);
    } else {
        assert(segs.take(j + 1).drop_last() =~= segs.take(j));
        lemma_eval_none_prefix(segs, p, j + 1);
    }
}

impl Field {
    /// The owned segments, in insertion order.
    pub closed spec fn segments(self) -> Seq<CurrentSgmt> {
        self.currents@
    }

    /// Every owned segment is valid.
    pub open spec fn wf(self) -> bool {
        forall|i: int| 0 <= i < self.segments().len() ==> self.segments()[i].wf()
    }

    /// An empty field.
    pub fn new() -> (r: Field)
        ensures
            r.segments() =~= Seq::<CurrentSgmt>::empty(),
            r.wf(),
    {
        Field { currents: Vec::new() }
    }

    /// Append one segment; order is preserved.
    pub fn add_segment(&mut self, segment: CurrentSgmt)
        requires
            old(self).wf(),
            segment.wf(),
        ensures
            final(self).segments() =~= old(self).segments().push(segment),
            final(self).wf(),
    {
        self.currents.push(segment);
        proof {
            assert forall|i: int| 0 <= i < self.segments().len() implies self.segments()[i].wf() by {
                if i < old(self).segments().len() {
                    assert(self.segments()[i] == old(self).segments()[i]);
                }
            }
        }
    }

    /// Number of owned segments.
    pub fn len(&self) -> (r: usize)
        ensures
            r == self.segments().len(),
    {
        self.currents.len()
    }

    /// Read one segment back, in insertion order.
    pub fn segment(&self, i: usize) -> (r: CurrentSgmt)
        requires
            i < self.segments().len(),
        ensures
            r == self.segments()[i as int],
    {
        self.currents[i]
    }

    /// The component-wise sum of `induced_field` over every owned segment at
    /// `loc`, exactly as `s_eval` states it: the zero vector for an empty
    /// field, `None` as soon as any contribution or partial sum is
    /// undefined.
    pub fn eval_at_pnt(&self, loc: Location) -> (r: Option<Vector>)
        requires
            self.wf(),
            loc.wf(),
        ensures
            ovval(r) == s_eval(self.segments(), loc.val()),
            self.segments().len() == 0 ==> ovval(r) == Some((0int, 0int, 0int)),
            r matches Some(v) ==> v.wf(),
    {
        let mut res: Vector = Vector::zero();
        let mut i: usize = 0;
        while i < self.currents.len()
            invariant
                self.wf(),
                loc.wf(),
                res.wf(),
                i <= self.currents.len(),
                s_eval(self.segments().take(i as int), loc.val()) == Some(res.val()),
            decreases self.currents.len() - i,
        {
            proof {
                assert(self.segments().take(i as int + 1).drop_last() =~= self.segments().take(
                    i as int,
                ));
                assert(self.segments().take(i as int + 1).last() == self.segments()[i as int]);
            }
            let contribution: Option<Vector> = self.currents[i].induced_field(&loc);
            match contribution {
                Some(c) => {
                    match res.add(c) {
                        Some(next) => {
                            res = next;
                        },
                        None => {
                            proof {
                                lemma_eval_none_prefix(self.segments(), loc.val(), i as int + 1);
                            }
                            return None;
                        },
                    }
                },
                None => {
                    proof {
                        lemma_eval_none_prefix(self.segments(), loc.val(), i as int + 1);
                    }
                    return None;
                },
            }
            i = i + 1;
        }
        proof {
            assert(self.segments().take(i as int) =~= self.segments());
        }
        Some(res)
    }
}

} // verus!
