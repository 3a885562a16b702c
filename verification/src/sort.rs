//! Stable sorting of usage samples by a selectable key and direction.

use vstd::prelude::*;

use crate::fdinfo::{FdInfoSortType, ProcUsage};

verus! {

/// The integer key a sample is ordered by.
pub open spec fn sort_key(st: FdInfoSortType, pu: ProcUsage) -> int {
    match st {
        FdInfoSortType::PID => pu.pid as int,
        FdInfoSortType::VRAM => pu.usage.vram_usage as int,
        FdInfoSortType::GFX => pu.usage.gfx as int,
        FdInfoSortType::MediaEngine => pu.usage.dec + pu.usage.enc + pu.usage.uvd_enc,
    }
}

/// `a` strictly precedes `b` in the selected order: descending by
/// default, ascending when `reverse` is set.
pub open spec fn spec_before(st: FdInfoSortType, reverse: bool, a: ProcUsage, b: ProcUsage)
    -> bool {
    if reverse {
        sort_key(st, a) < sort_key(st, b)
    } else {
        sort_key(st, a) > sort_key(st, b)
    }
}

/// `x` placed into `s` before the first element that does not strictly
/// precede it; ties keep `x`, the earlier sample, in front.
pub open spec fn spec_insert_sample(
    st: FdInfoSortType,
    reverse: bool,
    x: ProcUsage,
    s: Seq<ProcUsage>,
) -> Seq<ProcUsage>
    decreases s.len(),
{
    if s.len() == 0 {
        seq![x]
    } else if !spec_before(st, reverse, s[0], x) {
        seq![x] + s
    } else {
        seq![s[0]] + spec_insert_sample(st, reverse, x, s.drop_first())
    }
}

/// The stable sort of `s`: each sample inserted, in input order, into the
/// sorted rest.
pub open spec fn spec_sort_samples(st: FdInfoSortType, reverse: bool, s: Seq<ProcUsage>)
    -> Seq<ProcUsage>
    decreases s.len(),
{
    if s.len() == 0 {
        s
    } else {
        spec_insert_sample(st, reverse, s.first(), spec_sort_samples(st, reverse, s.drop_first()))
    }
}

/// Where the scan of the insertion position stops, the spec insertion
/// splits the sequence.
proof fn lemma_insert_sample_at(
    st: FdInfoSortType,
    reverse: bool,
    x: ProcUsage,
    s: Seq<ProcUsage>,
    j: int,
)
    requires
        0 <= j <= s.len(),
        forall|i: int| 0 <= i < j ==> spec_before(st, reverse, #[trigger] s[i], x),
        j < s.len() ==> !spec_before(st, reverse, s[j], x),
    ensures
        spec_insert_sample(st, reverse, x, s) == s.subrange(0, j) + seq![x] + s.subrange(
            j,
            s.len() as int,
        ),
    decreases j,
{
    if s.len() == 0 {
        assert(spec_insert_sample(st, reverse, x, s) =~= s.subrange(0, j) + seq![x] + s.subrange(
            j,
            s.len() as int,
        ));
    } else if j == 0 {
        assert(spec_insert_sample(st, reverse, x, s) =~= s.subrange(0, j) + seq![x] + s.subrange(
            j,
            s.len() as int,
        ));
    } else {
        let r = s.drop_first();
        assert(forall|i: int| 0 <= i < j - 1 ==> spec_before(st, reverse, #[trigger] r[i], x));
        lemma_insert_sample_at(st, reverse, x, r, j - 1);
        assert(spec_insert_sample(st, reverse, x, s) =~= seq![s[0]] + spec_insert_sample(
            st,
            reverse,
            x,
            r,
        ));
        assert(seq![s[0]] + (r.subrange(0, j - 1) + seq![x] + r.subrange(j - 1, r.len() as int))
            =~= s.subrange(0, j) + seq![x] + s.subrange(j, s.len() as int));
    }
}

/// The samples are in ascending key order.
pub open spec fn spec_sorted_asc(st: FdInfoSortType, s: Seq<ProcUsage>) -> bool {
    forall|i: int, j: int|
        0 <= i < j < s.len() ==> sort_key(st, #[trigger] s[i]) <= sort_key(st, #[trigger] s[j])
}

/// No two samples share a key.
pub open spec fn spec_distinct_keys(st: FdInfoSortType, s: Seq<ProcUsage>) -> bool {
    forall|i: int, j: int|
        0 <= i < j < s.len() ==> sort_key(st, #[trigger] s[i]) != sort_key(st, #[trigger] s[j])
}

/// The inserted sequence holds exactly the old elements and `x`.
proof fn lemma_insert_contains(
    st: FdInfoSortType,
    reverse: bool,
    x: ProcUsage,
    t: Seq<ProcUsage>,
    y: ProcUsage,
)
    ensures
        spec_insert_sample(st, reverse, x, t).contains(y) <==> (y == x || t.contains(y)),
    decreases t.len(),
{
    let ins = spec_insert_sample(st, reverse, x, t);
    if t.len() == 0 {
        assert(ins[0] == x);
        if y == x {
            assert(ins.contains(y));
        }
    } else if !spec_before(st, reverse, t[0], x) {
        assert(ins == seq![x] + t);
        assert(ins[0] == x);
        assert(forall|i: int| 0 <= i < t.len() ==> ins[i + 1] == t[i]);
        if ins.contains(y) {
            let i = choose|i: int| 0 <= i < ins.len() && ins[i] == y;
            if i > 0 {
                assert(t[i - 1] == y);
                assert(t.contains(y));
            }
        }
        if t.contains(y) {
            let i = choose|i: int| 0 <= i < t.len() && t[i] == y;
            assert(ins[i + 1] == y);
            assert(ins.contains(y));
        }
        if y == x {
            assert(ins.contains(y));
        }
    } else {
        let r = t.drop_first();
        let q = spec_insert_sample(st, reverse, x, r);
        lemma_insert_contains(st, reverse, x, r, y);
        assert(ins == seq![t[0]] + q);
        assert(ins[0] == t[0]);
        assert(forall|i: int| 0 <= i < q.len() ==> ins[i + 1] == q[i]);
        if ins.contains(y) {
            let i = choose|i: int| 0 <= i < ins.len() && ins[i] == y;
            if i == 0 {
                assert(t[0] == y);
                assert(t.contains(y));
            } else {
                assert(q[i - 1] == y);
                assert(q.contains(y));
                if y != x {
                    let j = choose|j: int| 0 <= j < r.len() && r[j] == y;
                    assert(t[j + 1] == y);
                    assert(t.contains(y));
                }
            }
        }
        if y == x {
            assert(q.contains(y));
            let i = choose|i: int| 0 <= i < q.len() && q[i] == y;
            assert(ins[i + 1] == y);
            assert(ins.contains(y));
        }
        if t.contains(y) {
            let i = choose|i: int| 0 <= i < t.len() && t[i] == y;
            if i == 0 {
                assert(ins[0] == y);
            } else {
                assert(r[i - 1] == y);
                assert(r.contains(y));
                assert(q.contains(y));
                let j = choose|j: int| 0 <= j < q.len() && q[j] == y;
                assert(ins[j + 1] == y);
            }
            assert(ins.contains(y));
        }
    }
}

/// Sorting keeps exactly the input's elements.
proof fn lemma_sort_contains(
    st: FdInfoSortType,
    reverse: bool,
    s: Seq<ProcUsage>,
    y: ProcUsage,
)
    ensures
        spec_sort_samples(st, reverse, s).contains(y) <==> s.contains(y),
    decreases s.len(),
{
    if s.len() > 0 {
        let r = s.drop_first();
        lemma_sort_contains(st, reverse, r, y);
        lemma_insert_contains(st, reverse, s.first(), spec_sort_samples(st, reverse, r), y);
        if s.contains(y) {
            let i = choose|i: int| 0 <= i < s.len() && s[i] == y;
            if i > 0 {
                assert(r[i - 1] == y);
                assert(r.contains(y));
            }
        }
        if r.contains(y) {
            let i = choose|i: int| 0 <= i < r.len() && r[i] == y;
            assert(s[i + 1] == y);
            assert(s.contains(y));
        }
        if y == s.first() {
            assert(s[0] == y);
            assert(s.contains(y));
        }
    }
}

/// When every element strictly precedes `x`, insertion appends `x`.
proof fn lemma_insert_at_end(
    st: FdInfoSortType,
    reverse: bool,
    x: ProcUsage,
    t: Seq<ProcUsage>,
)
    requires
        forall|i: int| 0 <= i < t.len() ==> spec_before(st, reverse, #[trigger] t[i], x),
    ensures
        spec_insert_sample(st, reverse, x, t) == t + seq![x],
    decreases t.len(),
{
    if t.len() == 0 {
        assert(spec_insert_sample(st, reverse, x, t) =~= t + seq![x]);
    } else {
        let r = t.drop_first();
        lemma_insert_at_end(st, reverse, x, r);
        assert(spec_insert_sample(st, reverse, x, t) =~= t + seq![x]);
    }
}

/// Insertion before a final element that does not strictly precede `x`
/// never moves past that element.
proof fn lemma_insert_before_last(
    st: FdInfoSortType,
    reverse: bool,
    x: ProcUsage,
    a: Seq<ProcUsage>,
    h: ProcUsage,
)
    requires
        !spec_before(st, reverse, h, x),
    ensures
        spec_insert_sample(st, reverse, x, a + seq![h]) == spec_insert_sample(st, reverse, x, a)
            + seq![h],
    decreases a.len(),
{
    let t = a + seq![h];
    if a.len() == 0 {
        assert(t[0] == h);
        assert(spec_insert_sample(st, reverse, x, t) =~= spec_insert_sample(st, reverse, x, a)
            + seq![h]);
    } else {
        assert(t[0] == a[0]);
        if !spec_before(st, reverse, a[0], x) {
            assert(spec_insert_sample(st, reverse, x, t) =~= spec_insert_sample(
                st,
                reverse,
                x,
                a,
            ) + seq![h]);
        } else {
            assert(t.drop_first() =~= a.drop_first() + seq![h]);
            lemma_insert_before_last(st, reverse, x, a.drop_first(), h);
            assert(spec_insert_sample(st, reverse, x, t) =~= spec_insert_sample(
                st,
                reverse,
                x,
                a,
            ) + seq![h]);
        }
    }
}

/// Inserting into an ascending sequence keeps it ascending.
proof fn lemma_insert_sorted_asc(st: FdInfoSortType, x: ProcUsage, t: Seq<ProcUsage>)
    requires
        spec_sorted_asc(st, t),
    ensures
        spec_sorted_asc(st, spec_insert_sample(st, true, x, t)),
    decreases t.len(),
{
    let ins = spec_insert_sample(st, true, x, t);
    if t.len() == 0 {
    } else if !spec_before(st, true, t[0], x) {
        assert(ins == seq![x] + t);
        assert forall|i: int, j: int| 0 <= i < j < ins.len() implies sort_key(st, #[trigger] ins[i])
            <= sort_key(st, #[trigger] ins[j]) by {
            if i == 0 {
                assert(ins[j] == t[j - 1]);
                if j > 1 {
                    assert(sort_key(st, t[0]) <= sort_key(st, t[j - 1]));
                }
            } else {
                assert(ins[i] == t[i - 1]);
                assert(ins[j] == t[j - 1]);
            }
        }
    } else {
        let r = t.drop_first();
        let q = spec_insert_sample(st, true, x, r);
        assert(spec_sorted_asc(st, r)) by {
            assert(forall|i: int| 0 <= i < r.len() ==> #[trigger] r[i] == t[i + 1]);
        }
        lemma_insert_sorted_asc(st, x, r);
        assert(ins == seq![t[0]] + q);
        assert forall|i: int, j: int| 0 <= i < j < ins.len() implies sort_key(st, #[trigger] ins[i])
            <= sort_key(st, #[trigger] ins[j]) by {
            if i == 0 {
                let y = ins[j];
                assert(y == q[j - 1]);
                assert(q.contains(y));
                lemma_insert_contains(st, true, x, r, y);
                if y == x {
                    assert(sort_key(st, t[0]) < sort_key(st, x));
                } else {
                    let k = choose|k: int| 0 <= k < r.len() && r[k] == y;
                    assert(t[k + 1] == y);
                    assert(sort_key(st, t[0]) <= sort_key(st, y));
                }
            } else {
                assert(ins[i] == q[i - 1]);
                assert(ins[j] == q[j - 1]);
            }
        }
    }
}

/// An insertion-sorted sequence is ascending.
proof fn lemma_sort_sorted_asc(st: FdInfoSortType, s: Seq<ProcUsage>)
    ensures
        spec_sorted_asc(st, spec_sort_samples(st, true, s)),
    decreases s.len(),
{
    if s.len() > 0 {
        lemma_sort_sorted_asc(st, s.drop_first());
        lemma_insert_sorted_asc(st, s.first(), spec_sort_samples(st, true, s.drop_first()));
    }
}

/// Inserting a fresh key descending into the reverse of an ascending
/// sequence lands in the mirrored position.
proof fn lemma_insert_reverse(st: FdInfoSortType, x: ProcUsage, t: Seq<ProcUsage>)
    requires
        spec_sorted_asc(st, t),
        forall|i: int| 0 <= i < t.len() ==> sort_key(st, #[trigger] t[i]) != sort_key(st, x),
    ensures
        spec_insert_sample(st, false, x, t.reverse()) == spec_insert_sample(
            st,
            true,
            x,
            t,
        ).reverse(),
    decreases t.len(),
{
    if t.len() == 0 {
        assert(t.reverse() =~= t);
        assert(spec_insert_sample(st, false, x, t.reverse()) =~= spec_insert_sample(
            st,
            true,
            x,
            t,
        ).reverse());
    } else {
        let h = t[0];
        let r = t.drop_first();
        assert(spec_sorted_asc(st, r) && forall|i: int|
            0 <= i < r.len() ==> sort_key(st, #[trigger] r[i]) != sort_key(st, x)) by {
            assert(forall|i: int| 0 <= i < r.len() ==> #[trigger] r[i] == t[i + 1]);
        }
        if sort_key(st, x) < sort_key(st, h) {
            assert(spec_insert_sample(st, true, x, t) == seq![x] + t);
            assert(forall|i: int|
                0 <= i < t.len() ==> sort_key(st, x) < sort_key(st, #[trigger] t[i]));
            assert(forall|i: int|
                0 <= i < t.reverse().len() ==> spec_before(
                    st,
                    false,
                    #[trigger] t.reverse()[i],
                    x,
                ));
            lemma_insert_at_end(st, false, x, t.reverse());
            assert(t.reverse() + seq![x] =~= (seq![x] + t).reverse());
        } else {
            assert(sort_key(st, h) < sort_key(st, x));
            assert(spec_insert_sample(st, true, x, t) == seq![h] + spec_insert_sample(
                st,
                true,
                x,
                r,
            ));
            lemma_insert_reverse(st, x, r);
            assert(t.reverse() =~= r.reverse() + seq![h]);
            lemma_insert_before_last(st, false, x, r.reverse(), h);
            assert(spec_insert_sample(st, false, x, t.reverse()) == spec_insert_sample(
                st,
                true,
                x,
                r,
            ).reverse() + seq![h]);
            assert((seq![h] + spec_insert_sample(st, true, x, r)).reverse() =~= spec_insert_sample(
                st,
                true,
                x,
                r,
            ).reverse() + seq![h]);
        }
    }
}

/// Sort correctness: over samples whose keys are pairwise distinct, the
/// descending sort is exactly the reverse of the ascending sort.
pub proof fn lemma_sort_reverse_on_distinct_keys(st: FdInfoSortType, s: Seq<ProcUsage>)
    requires
        spec_distinct_keys(st, s),
    ensures
        spec_sort_samples(st, false, s) == spec_sort_samples(st, true, s).reverse(),
    decreases s.len(),
{
    if s.len() == 0 {
        assert(spec_sort_samples(st, false, s).reverse() =~= s);
        assert(spec_sort_samples(st, false, s) =~= spec_sort_samples(st, true, s).reverse());
    } else {
        let h = s.first();
        let r = s.drop_first();
        assert(spec_distinct_keys(st, r)) by {
            assert(forall|i: int| 0 <= i < r.len() ==> #[trigger] r[i] == s[i + 1]);
        }
        lemma_sort_reverse_on_distinct_keys(st, r);
        let t = spec_sort_samples(st, true, r);
        lemma_sort_sorted_asc(st, r);
        assert forall|i: int| 0 <= i < t.len() implies sort_key(st, #[trigger] t[i]) != sort_key(
            st,
            h,
        ) by {
            assert(t.contains(t[i]));
            lemma_sort_contains(st, true, r, t[i]);
            let k = choose|k: int| 0 <= k < r.len() && r[k] == t[i];
            assert(s[k + 1] == t[i]);
            assert(s[0] == h);
            assert(sort_key(st, s[k + 1]) != sort_key(st, s[0]));
        }
        lemma_insert_reverse(st, h, t);
        assert(spec_sort_samples(st, false, s) == spec_insert_sample(
            st,
            false,
            h,
            spec_sort_samples(st, false, r),
        ));
        assert(spec_sort_samples(st, false, r) == t.reverse());
    }
}

fn before(st: &FdInfoSortType, reverse: bool, a: &ProcUsage, b: &ProcUsage) -> (r: bool)
    ensures
        r == spec_before(*st, reverse, *a, *b),
{
    let ka: i128 = match st {
        FdInfoSortType::PID => a.pid as i128,
        FdInfoSortType::VRAM => a.usage.vram_usage as i128,
        FdInfoSortType::GFX => a.usage.gfx as i128,
        FdInfoSortType::MediaEngine => a.usage.dec as i128 + a.usage.enc as i128
            + a.usage.uvd_enc as i128,
    };
    let kb: i128 = match st {
        FdInfoSortType::PID => b.pid as i128,
        FdInfoSortType::VRAM => b.usage.vram_usage as i128,
        FdInfoSortType::GFX => b.usage.gfx as i128,
        FdInfoSortType::MediaEngine => b.usage.dec as i128 + b.usage.enc as i128
            + b.usage.uvd_enc as i128,
    };
    if reverse {
        ka < kb
    } else {
        ka > kb
    }
}

/// Re-sorts the whole sample table by the selected key and direction;
/// ties keep their input order.
pub fn sort_proc_usage(v: &mut Vec<ProcUsage>, st: &FdInfoSortType, reverse: bool)
    ensures
        final(v)@ == spec_sort_samples(*st, reverse, old(v)@),
{
    let ghost input = old(v)@;
    let mut out: Vec<ProcUsage> = Vec::new();
    proof {
        assert(input.subrange(input.len() as int, input.len() as int) =~= Seq::<
            ProcUsage,
        >::empty());
    }
    while v.len() > 0
        invariant
            v@.len() <= input.len(),
            v@ == input.subrange(0, v@.len() as int),
            out@ == spec_sort_samples(*st, reverse, input.subrange(
                v@.len() as int,
                input.len() as int,
            )),
        decreases v@.len(),
    {
        let ghost m = v@.len() as int;
        let last = v.len() - 1;
        let x = v.remove(last);
        proof {
            assert(x == input[m - 1]);
            assert(v@ =~= input.subrange(0, m - 1));
            let suffix = input.subrange(m - 1, input.len() as int);
            assert(suffix.first() == x);
            assert(suffix.drop_first() =~= input.subrange(m, input.len() as int));
        }
        let n_out = out.len();
        let mut j: usize = 0;
        while j < n_out
            invariant
                j <= n_out,
                n_out == out@.len(),
                forall|i: int| 0 <= i < j ==> spec_before(*st, reverse, #[trigger] out@[i], x),
            ensures
                j <= n_out,
                n_out == out@.len(),
                forall|i: int| 0 <= i < j ==> spec_before(*st, reverse, #[trigger] out@[i], x),
                j < n_out ==> !spec_before(*st, reverse, out@[j as int], x),
            decreases n_out - j,
        {
            if !before(st, reverse, &out[j], &x) {
                break ;
            }
            j = j + 1;
        }
        let ghost out_before = out@;
        proof {
            lemma_insert_sample_at(*st, reverse, x, out_before, j as int);
        }
        out.insert(j, x);
        proof {
            assert(out@ =~= out_before.subrange(0, j as int) + seq![x] + out_before.subrange(
                j as int,
                out_before.len() as int,
            ));
        }
    }
    proof {
        assert(input.subrange(0, input.len() as int) =~= input);
    }
    *v = out;
}

} // verus!
