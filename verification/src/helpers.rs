use vstd::prelude::*;

verus! {

/// Two tag lists share at least one tag.
pub open spec fn tags_intersect(a: Seq<u64>, b: Seq<u64>) -> bool {
    exists|t: u64| #[trigger] a.contains(t) && b.contains(t)
}

/// True when `v` holds `t`.
pub fn tags_contain(v: &Vec<u64>, t: u64) -> (r: bool)
    ensures
        r == v@.contains(t),
{
    let mut i: usize = 0;
    while i < v.len()
        invariant
            i <= v.len(),
            forall|j: int| 0 <= j < i ==> v@[j] != t,
        decreases v.len() - i,
    {
        if v[i] == t {
            return true;
        }
        i += 1;
    }
    false
}

/// True when the two tag lists share a tag.
pub fn intersect(a: &Vec<u64>, b: &Vec<u64>) -> (r: bool)
    ensures
        r == tags_intersect(a@, b@),
{
    let mut i: usize = 0;
    while i < a.len()
        invariant
            i <= a.len(),
            forall|j: int| 0 <= j < i ==> !b@.contains(#[trigger] a@[j]),
        decreases a.len() - i,
    {
        if tags_contain(b, a[i]) {
            assert(a@.contains(a@[i as int]));
            return true;
        }
        i += 1;
    }
    proof {
        assert forall|t: u64| #[trigger] a@.contains(t) implies !b@.contains(t) by {
            let j = choose|j: int| 0 <= j < a@.len() && a@[j] == t;
            assert(!b@.contains(a@[j]));
        }
    }
    false
}

/// A copy of a tag list.
pub fn clone_tags(v: &Vec<u64>) -> (r: Vec<u64>)
    ensures
        r@ == v@,
{
    let mut out: Vec<u64> = Vec::new();
    let mut i: usize = 0;
    while i < v.len()
        invariant
            i <= v.len(),
            out@ == v@.take(i as int),
        decreases v.len() - i,
    {
        out.push(v[i]);
        proof {
            assert(v@.take(i + 1) =~= v@.take(i as int).push(v@[i as int]));
        }
        i += 1;
    }
    proof {
        assert(v@.take(v@.len() as int) =~= v@);
    }
    out
}

/// Whether two tag lists are equal element by element.
pub fn tags_eq(a: &Vec<u64>, b: &Vec<u64>) -> (r: bool)
    ensures
        r == (a@ == b@),
{
    if a.len() != b.len() {
        return false;
    }
    let mut i: usize = 0;
    while i < a.len()
        invariant
            i <= a.len(),
            a.len() == b.len(),
            forall|j: int| 0 <= j < i ==> a@[j] == b@[j],
        decreases a.len() - i,
    {
        if a[i] != b[i] {
            return false;
        }
        i += 1;
    }
    proof {
        assert(a@ =~= b@);
    }
    true
}

} // verus!
