//! The integer stages of eye detection: keeping candidate pixels that are close
//! to black in the camera image, and de-duplicating candidates that lie within
//! a minimum distance of one already kept.
use vstd::prelude::*;

verus! {

/// Squared Euclidean distance between two pixel positions.
pub open spec fn squared_distance(a: [u32; 2], b: [u32; 2]) -> int {
    (a[0] - b[0]) * (a[0] - b[0]) + (a[1] - b[1]) * (a[1] - b[1])
}

/// `p` is at least `threshold` away from every point of `kept`.
pub open spec fn far_from_all(p: [u32; 2], kept: Seq<[u32; 2]>, threshold: u32) -> bool {
    forall|k: int|
        0 <= k < kept.len() ==> squared_distance(p, #[trigger] kept[k]) >= threshold * threshold
}

/// Walks the points in order and keeps each one that is at least `threshold`
/// away from every point kept before it.
pub open spec fn spread_points(s: Seq<[u32; 2]>, threshold: u32) -> Seq<[u32; 2]>
    decreases s.len(),
{
    if s.len() == 0 {
        Seq::empty()
    } else {
        let kept = spread_points(s.drop_last(), threshold);
        if far_from_all(s.last(), kept, threshold) {
            kept.push(s.last())
        } else {
            kept
        }
    }
}

fn squared_distance_exec(a: [u32; 2], b: [u32; 2]) -> (r: u128)
    ensures
        r == squared_distance(a, b),
{
    let dx: u64 = if a[0] >= b[0] {
        (a[0] - b[0]) as u64
    } else {
        (b[0] - a[0]) as u64
    };
    let dy: u64 = if a[1] >= b[1] {
        (a[1] - b[1]) as u64
    } else {
        (b[1] - a[1]) as u64
    };
    proof {
        assert(dx * dx == (a[0] - b[0]) * (a[0] - b[0])) by (nonlinear_arith)
            requires
                dx == a[0] - b[0] || dx == b[0] - a[0],
        ;
        assert(dy * dy == (a[1] - b[1]) * (a[1] - b[1])) by (nonlinear_arith)
            requires
                dy == a[1] - b[1] || dy == b[1] - a[1],
        ;
        assert(dx * dx <= (u32::MAX as int) * (u32::MAX as int)) by (nonlinear_arith)
            requires
                dx <= u32::MAX,
        ;
        assert(dy * dy <= (u32::MAX as int) * (u32::MAX as int)) by (nonlinear_arith)
            requires
                dy <= u32::MAX,
        ;
    }
    (dx as u128) * (dx as u128) + (dy as u128) * (dy as u128)
}

/// `a` comes no later than `b` in `[x, y]` order: by x, then by y.
pub open spec fn lex_le(a: [u32; 2], b: [u32; 2]) -> bool {
    a[0] < b[0] || (a[0] == b[0] && a[1] <= b[1])
}

/// The points are in ascending `[x, y]` order.
pub open spec fn is_sorted(s: Seq<[u32; 2]>) -> bool {
    forall|i: int, j: int| 0 <= i < j < s.len() ==> lex_le(#[trigger] s[i], #[trigger] s[j])
}

/// Where `p` goes in `s`: before the first point it does not come after.
pub open spec fn insert_pos(s: Seq<[u32; 2]>, p: [u32; 2]) -> nat
    decreases s.len(),
{
    if s.len() == 0 || lex_le(p, s[0]) {
        0
    } else {
        1 + insert_pos(s.drop_first(), p)
    }
}

/// The points in ascending `[x, y]` order, inserted one after the other.
pub open spec fn sort_points(s: Seq<[u32; 2]>) -> Seq<[u32; 2]>
    decreases s.len(),
{
    if s.len() == 0 {
        Seq::empty()
    } else {
        let t = sort_points(s.drop_last());
        t.insert(insert_pos(t, s.last()) as int, s.last())
    }
}

proof fn lemma_insert_pos_bound(s: Seq<[u32; 2]>, p: [u32; 2])
    ensures
        insert_pos(s, p) <= s.len(),
        forall|j: int| 0 <= j < insert_pos(s, p) ==> !lex_le(p, #[trigger] s[j]),
        insert_pos(s, p) < s.len() ==> lex_le(p, s[insert_pos(s, p) as int]),
    decreases s.len(),
{
    if s.len() > 0 && !lex_le(p, s[0]) {
        lemma_insert_pos_bound(s.drop_first(), p);
        assert forall|j: int| 0 <= j < insert_pos(s, p) implies !lex_le(p, #[trigger] s[j]) by {
            if j > 0 {
                assert(s[j] == s.drop_first()[j - 1]);
            }
        }
    }
}

proof fn lemma_insert_pos_found(s: Seq<[u32; 2]>, p: [u32; 2], k: int)
    requires
        0 <= k <= s.len(),
        forall|j: int| 0 <= j < k ==> !lex_le(p, #[trigger] s[j]),
        k < s.len() ==> lex_le(p, s[k]),
    ensures
        insert_pos(s, p) == k,
    decreases s.len(),
{
    if k > 0 {
        assert(!lex_le(p, s[0]));
        assert forall|j: int| 0 <= j < k - 1 implies !lex_le(p, #[trigger] s.drop_first()[j]) by {
            assert(s.drop_first()[j] == s[j + 1]);
        }
        lemma_insert_pos_found(s.drop_first(), p, k - 1);
    }
}

/// Sorting keeps every point, as often as it occurs, and puts them in
/// ascending `[x, y]` order.
pub proof fn lemma_sort_points(s: Seq<[u32; 2]>)
    ensures
        is_sorted(sort_points(s)),
        sort_points(s).to_multiset() == s.to_multiset(),
        sort_points(s).len() == s.len(),
    decreases s.len(),
{
    broadcast use vstd::seq_lib::to_multiset_insert, vstd::seq_lib::to_multiset_build;

    if s.len() > 0 {
        let t = sort_points(s.drop_last());
        lemma_sort_points(s.drop_last());
        let p = s.last();
        lemma_insert_pos_bound(t, p);
        let k = insert_pos(t, p) as int;
        let r = t.insert(k, p);
        assert(s == s.drop_last().push(p));
        vstd::seq_lib::to_multiset_insert(t, k, p);
        vstd::seq_lib::to_multiset_build(s.drop_last(), p);
        assert(r.to_multiset() == s.to_multiset());
        assert forall|i: int, j: int| 0 <= i < j < r.len() implies lex_le(
            #[trigger] r[i],
            #[trigger] r[j],
        ) by {
            if j < k {
                assert(r[i] == t[i] && r[j] == t[j]);
            } else if j == k {
                assert(r[i] == t[i]);
                assert(!lex_le(p, t[i]));
            } else if i < k {
                assert(r[i] == t[i] && r[j] == t[j - 1]);
            } else if i == k {
                assert(r[j] == t[j - 1]);
                assert(lex_le(p, t[k]));
                if j - 1 > k {
                    assert(lex_le(t[k], t[j - 1]));
                }
            } else {
                assert(r[i] == t[i - 1] && r[j] == t[j - 1]);
            }
        }
    } else {
        assert(s =~= Seq::<[u32; 2]>::empty());
    }
}

/// Every point `spread_points` keeps is one of its input points, kept in order.
pub proof fn lemma_spread_points_sorted(s: Seq<[u32; 2]>, threshold: u32)
    requires
        is_sorted(s),
    ensures
        is_sorted(spread_points(s, threshold)),
        forall|i: int|
            0 <= i < spread_points(s, threshold).len() ==> s.contains(
                #[trigger] spread_points(s, threshold)[i],
            ),
    decreases s.len(),
{
    if s.len() > 0 {
        let t = s.drop_last();
        assert forall|i: int, j: int| 0 <= i < j < t.len() implies lex_le(
            #[trigger] t[i],
            #[trigger] t[j],
        ) by {
            assert(t[i] == s[i] && t[j] == s[j]);
        }
        lemma_spread_points_sorted(t, threshold);
        let kept = spread_points(t, threshold);
        assert forall|i: int| 0 <= i < kept.len() implies s.contains(#[trigger] kept[i]) by {
            let m = choose|m: int| 0 <= m < t.len() && t[m] == kept[i];
            assert(s[m] == kept[i]);
        }
        if far_from_all(s.last(), kept, threshold) {
            let g = kept.push(s.last());
            assert forall|i: int, j: int| 0 <= i < j < g.len() implies lex_le(
                #[trigger] g[i],
                #[trigger] g[j],
            ) by {
                if j == g.len() - 1 {
                    let m = choose|m: int| 0 <= m < t.len() && t[m] == kept[i];
                    assert(g[i] == s[m]);
                    assert(lex_le(s[m], s[s.len() - 1]));
                } else {
                    assert(g[i] == kept[i] && g[j] == kept[j]);
                }
            }
            assert forall|i: int| 0 <= i < g.len() implies s.contains(#[trigger] g[i]) by {
                if i == g.len() - 1 {
                    assert(s[s.len() - 1] == g[i]);
                } else {
                    assert(g[i] == kept[i]);
                }
            }
        }
    }
}

/// The points in ascending `[x, y]` order.
fn sorted_points(values: &[[u32; 2]]) -> (r: Vec<[u32; 2]>)
    ensures
        r@ == sort_points(values@),
{
    let mut sorted: Vec<[u32; 2]> = Vec::new();
    let mut i: usize = 0;
    while i < values.len()
        invariant
            i <= values@.len(),
            sorted@ == sort_points(values@.take(i as int)),
        decreases values@.len() - i,
    {
        let p = values[i];
        let mut k: usize = 0;
        while k < sorted.len() && !(p[0] < sorted[k][0] || (p[0] == sorted[k][0] && p[1]
            <= sorted[k][1]))
            invariant
                k <= sorted@.len(),
                forall|j: int| 0 <= j < k ==> !lex_le(p, #[trigger] sorted@[j]),
            decreases sorted@.len() - k,
        {
            k = k + 1;
        }
        proof {
            lemma_insert_pos_found(sorted@, p, k as int);
            assert(values@.take(i + 1).drop_last() =~= values@.take(i as int));
            assert(values@.take(i + 1).last() == p);
        }
        sorted.insert(k, p);
        i = i + 1;
    }
    assert(values@.take(values@.len() as int) =~= values@);
    sorted
}

/// De-duplicates detections: sorts them in ascending `[x, y]` order, then keeps
/// every point at least `threshold` pixels from all points kept before it.
pub fn filter_close_values(values: &[[u32; 2]], threshold: u32) -> (r: Vec<[u32; 2]>)
    ensures
        r@ == spread_points(sort_points(values@), threshold),
        is_sorted(r@),
        forall|i: int| 0 <= i < r@.len() ==> values@.contains(#[trigger] r@[i]),
{
    let sorted = sorted_points(values);
    let r = spread_sorted(sorted.as_slice(), threshold);
    proof {
        lemma_sort_points(values@);
        lemma_spread_points_sorted(sorted@, threshold);
        assert forall|i: int| 0 <= i < r@.len() implies values@.contains(#[trigger] r@[i]) by {
            assert(sorted@.contains(r@[i]));
            let m = choose|m: int| 0 <= m < sorted@.len() && sorted@[m] == r@[i];
            vstd::seq_lib::to_multiset_contains(sorted@, sorted@[m]);
            vstd::seq_lib::to_multiset_contains(values@, sorted@[m]);
        }
    }
    r
}

/// Keeps, in order, every point at least `threshold` pixels from all points
/// kept before it.
fn spread_sorted(values: &[[u32; 2]], threshold: u32) -> (r: Vec<[u32; 2]>)
    ensures
        r@ == spread_points(values@, threshold),
{
    proof {
        assert((threshold as int) * (threshold as int) <= (u32::MAX as int) * (u32::MAX as int))
            by (nonlinear_arith)
            requires
                threshold <= u32::MAX,
        ;
    }
    let min_sq: u128 = (threshold as u128) * (threshold as u128);
    let mut kept: Vec<[u32; 2]> = Vec::new();
    let mut i: usize = 0;
    while i < values.len()
        invariant
            i <= values@.len(),
            min_sq == threshold * threshold,
            kept@ == spread_points(values@.take(i as int), threshold),
        decreases values@.len() - i,
    {
        let p = values[i];
        let mut far = true;
        let mut k: usize = 0;
        while k < kept.len()
            invariant
                k <= kept@.len(),
                min_sq == threshold * threshold,
                far == far_from_all(p, kept@.take(k as int), threshold),
            decreases kept@.len() - k,
        {
            let d = squared_distance_exec(p, kept[k]);
            let ghost before = kept@.take(k as int);
            let ghost after = kept@.take(k + 1);
            proof {
                assert(after =~= before.push(kept@[k as int]));
                assert(after[k as int] == kept@[k as int]);
            }
            if d < min_sq {
                far = false;
                assert(!far_from_all(p, after, threshold));
            } else {
                assert(far_from_all(p, after, threshold) == far_from_all(p, before, threshold)) by {
                    if far_from_all(p, before, threshold) {
                        assert forall|j: int| 0 <= j < after.len() implies squared_distance(
                            p,
                            #[trigger] after[j],
                        ) >= threshold * threshold by {
                            if j < k {
                                assert(after[j] == before[j]);
                            }
                        }
                    } else {
                        let j = choose|j: int|
                            0 <= j < before.len() && !(squared_distance(p, #[trigger] before[j])
                                >= threshold * threshold);
                        assert(after[j] == before[j]);
                    }
                }
            }
            k = k + 1;
        }
        assert(kept@.take(kept@.len() as int) =~= kept@);
        assert(values@.take(i + 1).drop_last() =~= values@.take(i as int));
        if far {
            kept.push(p);
        }
        i = i + 1;
    }
    assert(values@.take(values@.len() as int) =~= values@);
    kept
}

/// Any two points kept by `spread_points` are at least `threshold` apart.
pub proof fn lemma_spread_points_apart(s: Seq<[u32; 2]>, threshold: u32)
    ensures
        forall|i: int, j: int|
            0 <= i < j < spread_points(s, threshold).len() ==> squared_distance(
                #[trigger] spread_points(s, threshold)[i],
                #[trigger] spread_points(s, threshold)[j],
            ) >= threshold * threshold,
    decreases s.len(),
{
    if s.len() > 0 {
        lemma_spread_points_apart(s.drop_last(), threshold);
        let kept = spread_points(s.drop_last(), threshold);
        let p = s.last();
        if far_from_all(p, kept, threshold) {
            let g = kept.push(p);
            assert forall|i: int, j: int| 0 <= i < j < g.len() implies squared_distance(
                #[trigger] g[i],
                #[trigger] g[j],
            ) >= threshold * threshold by {
                if j == g.len() - 1 {
                    assert(squared_distance(p, kept[i]) >= threshold * threshold);
                    assert(squared_distance(g[i], g[j]) == squared_distance(p, kept[i])) by (
                    nonlinear_arith)
                        requires
                            g[i] == kept[i],
                            g[j] == p,
                    ;
                } else {
                    assert(g[i] == kept[i] && g[j] == kept[j]);
                }
            }
        }
    }
}

/// The pixel `(r, g, b)` is within 0.2 of black, distance measured as the
/// Euclidean norm of the channels divided by 256: `sqrt(r² + g² + b²) / 256 < 0.2`,
/// that is `25 * (r² + g² + b²) < 256²`.
pub open spec fn is_dark(r: u8, g: u8, b: u8) -> bool {
    25 * (r * r + g * g + b * b) < 65536
}

/// The pixel at `p` exists in an RGB image of `width` by `height` stored row by
/// row in `rgb`, three bytes per pixel, and is dark.
pub open spec fn dark_at(rgb: Seq<u8>, width: u32, height: u32, p: [u32; 2]) -> bool {
    let at = (p[1] * width + p[0]) * 3;
    &&& p[0] < width
    &&& p[1] < height
    &&& at + 2 < rgb.len()
    &&& is_dark(rgb[at], rgb[at + 1], rgb[at + 2])
}

/// The points of `s` at which the image is dark, in order.
pub open spec fn dark_points(s: Seq<[u32; 2]>, rgb: Seq<u8>, width: u32, height: u32) -> Seq<
    [u32; 2],
>
    decreases s.len(),
{
    if s.len() == 0 {
        Seq::empty()
    } else {
        let kept = dark_points(s.drop_last(), rgb, width, height);
        if dark_at(rgb, width, height, s.last()) {
            kept.push(s.last())
        } else {
            kept
        }
    }
}

pub fn is_dark_pixel(r: u8, g: u8, b: u8) -> (d: bool)
    ensures
        d == is_dark(r, g, b),
{
    let r = r as u64;
    let g = g as u64;
    let b = b as u64;
    proof {
        assert(r * r <= 255 * 255 && g * g <= 255 * 255 && b * b <= 255 * 255) by (nonlinear_arith)
            requires
                r <= 255,
                g <= 255,
                b <= 255,
        ;
    }
    25 * (r * r + g * g + b * b) < 65536
}

/// Keeps the candidates that fall on a dark pixel of the image.
pub fn keep_dark_candidates(points: &[[u32; 2]], rgb: &[u8], width: u32, height: u32) -> (r: Vec<
    [u32; 2],
>)
    ensures
        r@ == dark_points(points@, rgb@, width, height),
{
    let mut kept: Vec<[u32; 2]> = Vec::new();
    let mut i: usize = 0;
    while i < points.len()
        invariant
            i <= points@.len(),
            kept@ == dark_points(points@.take(i as int), rgb@, width, height),
        decreases points@.len() - i,
    {
        let p = points[i];
        assert(points@.take(i + 1).drop_last() =~= points@.take(i as int));
        if p[0] < width && p[1] < height {
            proof {
                assert((p[1] as int) * (width as int) + (p[0] as int) <= (height as int) * (
                width as int)) by (nonlinear_arith)
                    requires
                        p[1] < height,
                        p[0] < width,
                ;
                assert((height as int) * (width as int) <= (u32::MAX as int) * (u32::MAX as int))
                    by (nonlinear_arith)
                    requires
                        height <= u32::MAX,
                        width <= u32::MAX,
                ;
            }
            let at: u128 = ((p[1] as u128) * (width as u128) + (p[0] as u128)) * 3;
            if at + 2 < rgb.len() as u128 {
                let a = at as usize;
                if is_dark_pixel(rgb[a], rgb[a + 1], rgb[a + 2]) {
                    kept.push(p);
                }
            }
        }
        i = i + 1;
    }
    assert(points@.take(points@.len() as int) =~= points@);
    kept
}

} // verus!
