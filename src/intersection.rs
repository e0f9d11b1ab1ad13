use vstd::prelude::*;

verus! {

/// `s` with every occurrence of `o` taken out, order kept.
pub open spec fn without(s: Seq<usize>, o: usize) -> Seq<usize>
    decreases s.len(),
{
    if s.len() == 0 {
        s
    } else {
        let rest = without(s.drop_last(), o);
        if s.last() == o {
            rest
        } else {
            rest.push(s.last())
        }
    }
}

/// Crossing the surface of object `o`: leave it if the ray is inside it,
/// enter it otherwise.
pub open spec fn toggle(inside: Seq<usize>, o: usize) -> Seq<usize> {
    if inside.contains(o) {
        without(inside, o)
    } else {
        inside.push(o)
    }
}

/// The objects the ray is inside of, innermost last, after crossing the
/// surfaces of the first `k` entries of `objects`.
pub open spec fn inside_after(objects: Seq<usize>, k: nat) -> Seq<usize>
    decreases k,
{
    if k == 0 || k > objects.len() {
        Seq::empty()
    } else {
        toggle(inside_after(objects, (k - 1) as nat), objects[k - 1])
    }
}

/// The innermost object of a stack of entered objects, if any.
pub open spec fn innermost(inside: Seq<usize>) -> Option<usize> {
    if inside.len() == 0 {
        None
    } else {
        Some(inside.last())
    }
}

/// Refractive index of the medium made by the innermost object, or `air`
/// outside every object.
pub open spec fn medium_index(indices: Seq<u32>, inner: Option<usize>, air: u32) -> u32 {
    match inner {
        Some(o) => indices[o as int],
        None => air,
    }
}

/// Refractive index of empty space, in thousandths.
pub const AIR_INDEX: u32 = 1000;

/// A hit is the least positive key; among equal keys the earliest entry.
pub open spec fn is_hit(keys: Seq<i64>, i: int) -> bool {
    &&& 0 <= i < keys.len()
    &&& keys[i] > 0
    &&& forall|j: int| 0 <= j < keys.len() && keys[j] > 0 ==> keys[i] <= #[trigger] keys[j]
    &&& forall|j: int| 0 <= j < i && keys[j] > 0 ==> keys[i] < #[trigger] keys[j]
}

/// Selects the visible intersection. `keys[i]` orders the `i`-th intersection
/// along the ray the way its `t` does, with key zero at `t = 0`. The result is
/// the position of the lowest positive key, ties going to the earlier entry;
/// `None` when no key is positive.
pub fn hit(keys: &Vec<i64>) -> (r: Option<usize>)
    ensures
        r matches Some(i) ==> is_hit(keys@, i as int),
        r is None <==> forall|j: int| 0 <= j < keys.len() ==> #[trigger] keys@[j] <= 0,
{
    let mut best: Option<usize> = None;
    let mut i: usize = 0;
    while i < keys.len()
        invariant
            i <= keys.len(),
            best matches Some(b) ==> b < i && is_hit(keys@.subrange(0, i as int), b as int),
            best is None ==> forall|j: int| 0 <= j < i ==> #[trigger] keys@[j] <= 0,
        decreases keys.len() - i,
    {
        let k = keys[i];
        if k > 0 {
            match best {
                None => {
                    best = Some(i);
                },
                Some(b) => {
                    if k < keys[b] {
                        best = Some(i);
                    }
                },
            }
        }
        proof {
            let pre = keys@.subrange(0, i as int);
            let cur = keys@.subrange(0, i + 1);
            assert(forall|j: int| 0 <= j < i ==> cur[j] == pre[j]);
            assert(cur[i as int] == keys@[i as int]);
        }
        i = i + 1;
    }
    proof {
        assert(keys@.subrange(0, keys.len() as int) =~= keys@);
    }
    best
}

/// Refractive indices on either side of the surface crossed at entry `hit`
/// of an intersection list sorted along the ray. `objects[i]` is the object
/// of the `i`-th entry and `indices[o]` the refractive index of object `o`,
/// both in thousandths. The first index is that of the medium the ray leaves,
/// the second that of the medium it enters.
pub fn refractive_indices(objects: &Vec<usize>, indices: &Vec<u32>, hit: usize) -> (r: (u32, u32))
    requires
        hit < objects.len(),
        forall|i: int| 0 <= i < objects.len() ==> #[trigger] objects@[i] < indices.len(),
    ensures
        r.0 == medium_index(indices@, innermost(inside_after(objects@, hit as nat)), AIR_INDEX),
        r.1 == medium_index(indices@, innermost(inside_after(objects@, (hit + 1) as nat)), AIR_INDEX),
{
    let mut inside: Vec<usize> = Vec::new();
    let mut i: usize = 0;
    while i < hit
        invariant
            i <= hit < objects.len(),
            inside@ == inside_after(objects@, i as nat),
            forall|j: int| 0 <= j < inside.len() ==> #[trigger] inside@[j] < indices.len(),
            forall|i: int| 0 <= i < objects.len() ==> #[trigger] objects@[i] < indices.len(),
        decreases hit - i,
    {
        proof {
            lemma_without_bounded(inside@, objects@[i as int], indices.len());
        }
        inside = cross(&inside, objects[i]);
        i = i + 1;
    }
    let n1 = if inside.len() == 0 {
        AIR_INDEX
    } else {
        indices[inside[inside.len() - 1]]
    };
    proof {
        lemma_without_bounded(inside@, objects@[hit as int], indices.len());
    }
    inside = cross(&inside, objects[hit]);
    let n2 = if inside.len() == 0 {
        AIR_INDEX
    } else {
        indices[inside[inside.len() - 1]]
    };
    (n1, n2)
}

proof fn lemma_without_bounded(s: Seq<usize>, o: usize, bound: usize)
    requires
        forall|j: int| 0 <= j < s.len() ==> #[trigger] s[j] < bound,
    ensures
        forall|j: int| 0 <= j < without(s, o).len() ==> #[trigger] without(s, o)[j] < bound,
    decreases s.len(),
{
    if s.len() > 0 {
        let d = s.drop_last();
        assert forall|j: int| 0 <= j < d.len() implies #[trigger] d[j] < bound by {
            assert(d[j] == s[j]);
        }
        lemma_without_bounded(d, o, bound);
        let w = without(s, o);
        let rest = without(d, o);
        assert forall|j: int| 0 <= j < w.len() implies #[trigger] w[j] < bound by {
            if j < rest.len() {
                assert(w[j] == rest[j]);
            } else {
                assert(w[j] == s[s.len() - 1]);
            }
        }
    }
}

/// Crosses the surface of `o` given the stack of entered objects.
fn cross(inside: &Vec<usize>, o: usize) -> (r: Vec<usize>)
    ensures
        r@ == toggle(inside@, o),
{
    let mut found = false;
    let mut k: usize = 0;
    while k < inside.len()
        invariant
            k <= inside.len(),
            found <==> inside@.subrange(0, k as int).contains(o),
        decreases inside.len() - k,
    {
        if inside[k] == o {
            found = true;
        }
        proof {
            let pre = inside@.subrange(0, k as int);
            let cur = inside@.subrange(0, k + 1);
            assert(cur =~= pre.push(inside@[k as int]));
            assert(cur[k as int] == inside@[k as int]);
            if pre.contains(o) {
                let w = choose|w: int| 0 <= w < pre.len() && pre[w] == o;
                assert(cur[w] == o);
            }
            if cur.contains(o) && !pre.contains(o) {
                let w = choose|w: int| 0 <= w < cur.len() && cur[w] == o;
                if w < k {
                    assert(pre[w] == o);
                }
            }
        }
        k = k + 1;
    }
    proof {
        assert(inside@.subrange(0, inside.len() as int) =~= inside@);
    }
    if !found {
        let mut r = inside.clone();
        r.push(o);
        return r;
    }
    let mut r: Vec<usize> = Vec::new();
    let mut k: usize = 0;
    while k < inside.len()
        invariant
            k <= inside.len(),
            r@ == without(inside@.subrange(0, k as int), o),
        decreases inside.len() - k,
    {
        proof {
            let cur = inside@.subrange(0, k + 1);
            assert(cur.drop_last() =~= inside@.subrange(0, k as int));
        }
        if inside[k] != o {
            r.push(inside[k]);
        }
        k = k + 1;
    }
    proof {
        assert(inside@.subrange(0, inside.len() as int) =~= inside@);
    }
    r
}

} // verus!
