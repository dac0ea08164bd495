use crate::model::{first_outside, replica_set, without};
use crate::types::{XorName, STORE_REDUNDANCY};
use vstd::prelude::*;

verus! {

/// Whether `x` is listed in `v`.
pub fn contains_name(v: &Vec<XorName>, x: XorName) -> (r: bool)
    ensures
        r == v@.contains(x),
{
    let mut i: usize = 0;
    while i < v.len()
        invariant
            i <= v@.len(),
            forall|j: int| 0 <= j < i ==> v@[j] != x,
        decreases v@.len() - i,
    {
        if v[i] == x {
            assert(v@[i as int] == x);
            return true;
        }
        i = i + 1;
    }
    false
}

/// The replica set for a new item with the given close group.
pub fn replica_set_of(close_group: &Vec<XorName>) -> (r: Vec<XorName>)
    ensures
        r@ == replica_set(close_group@),
{
    let mut out: Vec<XorName> = Vec::new();
    let mut i: usize = 0;
    assert(close_group@.subrange(0, 0) =~= Seq::<XorName>::empty());
    while i < close_group.len()
        invariant
            i <= close_group@.len(),
            out@ == replica_set(close_group@.subrange(0, i as int)),
        decreases close_group@.len() - i,
    {
        let c = close_group[i];
        let pre = Ghost(close_group@.subrange(0, i + 1));
        assert(pre@.drop_last() =~= close_group@.subrange(0, i as int));
        assert(pre@.last() == c);
        if out.len() < STORE_REDUNDANCY && !contains_name(&out, c) {
            out.push(c);
        }
        i = i + 1;
    }
    assert(close_group@.subrange(0, i as int) =~= close_group@);
    out
}

/// `v` without any occurrence of `x`.
pub fn without_name(v: &Vec<XorName>, x: XorName) -> (r: Vec<XorName>)
    ensures
        r@ == without(v@, x),
{
    let mut out: Vec<XorName> = Vec::new();
    let mut i: usize = 0;
    assert(v@.subrange(0, 0) =~= Seq::<XorName>::empty());
    while i < v.len()
        invariant
            i <= v@.len(),
            out@ == without(v@.subrange(0, i as int), x),
        decreases v@.len() - i,
    {
        let c = v[i];
        let pre = Ghost(v@.subrange(0, i + 1));
        assert(pre@.drop_last() =~= v@.subrange(0, i as int));
        assert(pre@.last() == c);
        if c != x {
            out.push(c);
        }
        i = i + 1;
    }
    assert(v@.subrange(0, i as int) =~= v@);
    out
}

/// The first member of `close_group` that `holders` does not list.
pub fn first_outside_of(close_group: &Vec<XorName>, holders: &Vec<XorName>) -> (r: Option<XorName>)
    ensures
        r == first_outside(close_group@, holders@),
{
    let mut i: usize = 0;
    assert(close_group@.subrange(0, close_group@.len() as int) =~= close_group@);
    while i < close_group.len()
        invariant
            i <= close_group@.len(),
            first_outside(close_group@, holders@) == first_outside(
                close_group@.subrange(i as int, close_group@.len() as int),
                holders@,
            ),
        decreases close_group@.len() - i,
    {
        let rest = Ghost(close_group@.subrange(i as int, close_group@.len() as int));
        assert(rest@[0] == close_group@[i as int]);
        assert(rest@.drop_first() =~= close_group@.subrange(i + 1, close_group@.len() as int));
        let c = close_group[i];
        if !contains_name(holders, c) {
            return Some(c);
        }
        i = i + 1;
    }
    None
}

} // verus!
