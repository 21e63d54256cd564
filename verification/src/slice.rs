//! How a slice is cut for the parallel maps: the chunks that each become one
//! task, and the chunk size that spreads a slice over a bounded number of
//! tasks.

use vstd::prelude::*;

use vstd::arithmetic::div_mod::lemma_div_plus_one;
use vstd::arithmetic::div_mod::lemma_fundamental_div_mod;
use vstd::arithmetic::div_mod::lemma_fundamental_div_mod_converse;
use vstd::arithmetic::div_mod::lemma_multiply_divide_lt;
use vstd::seq_lib::lemma_flatten_concat;

verus! {

/// The chunks of `s` of length `size`, in order: every chunk but the last
/// holds exactly `size` elements, the last holds the rest (as
/// `<[T]>::chunks` yields them). An empty slice has no chunks.
pub open spec fn chunks<T>(s: Seq<T>, size: nat) -> Seq<Seq<T>>
    decreases s.len(),
{
    if s.len() == 0 || size == 0 {
        Seq::empty()
    } else if s.len() <= size {
        seq![s]
    } else {
        seq![s.take(size as int)] + chunks(s.skip(size as int), size)
    }
}

/// How many chunks of length `size` a slice of `len` elements is cut into:
/// `len / size`, rounded up.
pub open spec fn chunk_count(len: nat, size: nat) -> nat {
    if size == 0 {
        0
    } else {
        ((len + size - 1) / size as int) as nat
    }
}

/// The contents of a sequence of slices.
pub open spec fn slice_views<'a, T>(slices: Seq<&'a [T]>) -> Seq<Seq<T>> {
    slices.map_values(|c: &'a [T]| c@)
}

/// The chunk size that `par_splat_map` uses: at least one element, and at
/// least the slice's share per thread and its share per task, each share
/// rounded up (the number of threads stands for the number of tasks when
/// `max_tasks` is `None`).
pub open spec fn splat_chunk_size_spec(len: nat, thread_num: nat, max_tasks: Option<usize>) -> nat {
    let tasks = match max_tasks {
        Some(m) => m as nat,
        None => thread_num,
    };
    let per_thread = chunk_count(len, thread_num);
    let per_task = chunk_count(len, tasks);
    let larger = if per_thread < per_task { per_task } else { per_thread };
    if larger < 1 { 1 } else { larger }
}

/// Chunking a slice loses nothing and adds nothing: the chunks, put back
/// together in order, are the slice.
pub proof fn lemma_chunks_concat<T>(s: Seq<T>, size: nat)
    requires
        size > 0,
    ensures
        chunks(s, size).flatten() == s,
    decreases s.len(),
{
    if s.len() == 0 {
    } else if s.len() <= size {
        seq![s].lemma_flatten_one_element();
    } else {
        lemma_chunks_concat(s.skip(size as int), size);
        lemma_flatten_concat(seq![s.take(size as int)], chunks(s.skip(size as int), size));
        seq![s.take(size as int)].lemma_flatten_one_element();
        assert(s.take(size as int) + s.skip(size as int) =~= s);
    }
}

/// `f` combined over `parts` by addition, in order.
pub open spec fn sum_over_parts<T>(parts: Seq<Seq<T>>, f: spec_fn(Seq<T>) -> int) -> int
    decreases parts.len(),
{
    if parts.len() == 0 {
        0
    } else {
        f(parts.first()) + sum_over_parts(parts.drop_first(), f)
    }
}

/// For an `f` that adds up over concatenation, combining `f` over some parts
/// gives `f` of the parts put back together.
proof fn lemma_sum_over_parts<T>(parts: Seq<Seq<T>>, f: spec_fn(Seq<T>) -> int)
    requires
        f(Seq::<T>::empty()) == 0,
        forall|a: Seq<T>, b: Seq<T>| #[trigger] f(a + b) == f(a) + f(b),
    ensures
        sum_over_parts(parts, f) == f(parts.flatten()),
    decreases parts.len(),
{
    if parts.len() > 0 {
        lemma_sum_over_parts(parts.drop_first(), f);
        assert(f(parts.first() + parts.drop_first().flatten()) == f(parts.first()) + f(
            parts.drop_first().flatten(),
        ));
    }
}

/// The combined result of a parallel map does not depend on how the slice
/// was split: for an `f` that adds up over concatenation and gives zero on
/// nothing (such as the sum of the elements), adding up `f` over the chunks
/// of any two chunk sizes gives the same, namely `f` of the whole slice.
pub proof fn lemma_chunked_result_independent_of_split<T>(
    s: Seq<T>,
    size1: nat,
    size2: nat,
    f: spec_fn(Seq<T>) -> int,
)
    requires
        size1 > 0,
        size2 > 0,
        f(Seq::<T>::empty()) == 0,
        forall|a: Seq<T>, b: Seq<T>| #[trigger] f(a + b) == f(a) + f(b),
    ensures
        sum_over_parts(chunks(s, size1), f) == f(s),
        sum_over_parts(chunks(s, size1), f) == sum_over_parts(chunks(s, size2), f),
{
    lemma_chunks_concat(s, size1);
    lemma_chunks_concat(s, size2);
    lemma_sum_over_parts(chunks(s, size1), f);
    lemma_sum_over_parts(chunks(s, size2), f);
}

/// Every chunk holds between one and `size` elements, and every chunk but
/// the last holds exactly `size`.
pub proof fn lemma_chunks_shape<T>(s: Seq<T>, size: nat)
    requires
        size > 0,
    ensures
        forall|i: int|
            0 <= i < chunks(s, size).len() ==> 0 < #[trigger] chunks(s, size)[i].len() <= size,
        forall|i: int|
            0 <= i < chunks(s, size).len() - 1 ==> #[trigger] chunks(s, size)[i].len() == size,
    decreases s.len(),
{
    if s.len() == 0 {
    } else if s.len() <= size {
    } else {
        let rest = chunks(s.skip(size as int), size);
        lemma_chunks_shape(s.skip(size as int), size);
        assert forall|i: int| 0 < i < chunks(s, size).len() implies #[trigger] chunks(s, size)[i]
            == rest[i - 1] by {}
    }
}

/// A slice of `len` elements is cut into `len / size` chunks, rounded up.
pub proof fn lemma_chunks_count<T>(s: Seq<T>, size: nat)
    requires
        size > 0,
    ensures
        chunks(s, size).len() == chunk_count(s.len(), size),
    decreases s.len(),
{
    if s.len() == 0 {
        lemma_fundamental_div_mod_converse(size - 1, size as int, 0, size - 1);
    } else if s.len() <= size {
        lemma_fundamental_div_mod_converse(s.len() + size - 1, size as int, 1, s.len() - 1);
    } else {
        lemma_chunks_count(s.skip(size as int), size);
        lemma_div_plus_one(s.len() - 1, size as int);
    }
}

/// `m` parts of `len / m` elements, rounded up, hold all `len` elements.
proof fn lemma_share_covers(len: nat, m: nat)
    requires
        m > 0,
    ensures
        m * chunk_count(len, m) >= len,
{
    let c = chunk_count(len, m);
    lemma_fundamental_div_mod(len + m - 1, m as int);
    let r = (len + m - 1) % (m as int);
    assert(len + m - 1 == m * c + r);
    assert(r < m);
}

/// A chunk size of at least the `m`-th share of `len`, rounded up, cuts a
/// slice of `len` elements into at most `m` chunks.
proof fn lemma_chunk_count_at_most(len: nat, size: nat, m: nat)
    requires
        m > 0,
        size >= 1,
        size >= chunk_count(len, m),
    ensures
        chunk_count(len, size) <= m,
{
    lemma_share_covers(len, m);
    let c = chunk_count(len, m);
    assert(m * c <= m * size) by (nonlinear_arith)
        requires
            c <= size,
    ;
    assert(size * (m + 1) == m * size + size) by (nonlinear_arith);
    lemma_multiply_divide_lt(len + size - 1, size as int, m + 1int);
    assert((len + size - 1) / (size as int) < m + 1);
}

/// A chunk size one below the `k`-th share of `len` (rounded up, when that
/// share is at least two) cuts the slice into more than `k` chunks.
proof fn lemma_share_is_least(len: nat, k: nat)
    requires
        k > 0,
        chunk_count(len, k) >= 2,
    ensures
        chunk_count(len, (chunk_count(len, k) - 1) as nat) > k,
{
    let c = chunk_count(len, k);
    lemma_fundamental_div_mod(len + k - 1, k as int);
    let r = (len + k - 1) % (k as int);
    assert(len + k - 1 == k * c + r);
    let d: int = c - 1;
    assert(k * d <= len - 1) by (nonlinear_arith)
        requires
            len + k - 1 == k * c + r,
            r >= 0,
            d == c - 1,
    ;
    lemma_fundamental_div_mod(len + d - 1, d);
    let q = (len + d - 1) / d;
    let r2 = (len + d - 1) % d;
    assert(q >= k + 1) by (nonlinear_arith)
        requires
            len + d - 1 == d * q + r2,
            0 <= r2 < d,
            k * d <= len - 1,
            d >= 1,
    ;
}

/// `par_splat_map` spawns at most one task per thread of the pool, and at
/// most `max_tasks` tasks when it is given; and its chunks are as large as
/// needed for that and no larger: one element fewer per chunk would take
/// more tasks than one of the two bounds allows.
pub proof fn lemma_splat_task_bound(len: nat, thread_num: nat, max_tasks: Option<usize>)
    requires
        thread_num > 0,
        max_tasks != Some(0usize),
    ensures
        splat_chunk_size_spec(len, thread_num, max_tasks) >= 1,
        chunk_count(len, splat_chunk_size_spec(len, thread_num, max_tasks)) <= thread_num,
        max_tasks matches Some(m) ==> chunk_count(
            len,
            splat_chunk_size_spec(len, thread_num, max_tasks),
        ) <= m,
        splat_chunk_size_spec(len, thread_num, max_tasks) == 1 || chunk_count(
            len,
            (splat_chunk_size_spec(len, thread_num, max_tasks) - 1) as nat,
        ) > thread_num || (max_tasks matches Some(m) && chunk_count(
            len,
            (splat_chunk_size_spec(len, thread_num, max_tasks) - 1) as nat,
        ) > m),
{
    let size = splat_chunk_size_spec(len, thread_num, max_tasks);
    lemma_chunk_count_at_most(len, size, thread_num);
    if let Some(m) = max_tasks {
        lemma_chunk_count_at_most(len, size, m as nat);
    }
    if size > 1 {
        if size == chunk_count(len, thread_num) {
            lemma_share_is_least(len, thread_num);
        } else if let Some(m) = max_tasks {
            lemma_share_is_least(len, m as nat);
        } else {
            lemma_share_is_least(len, thread_num);
        }
    }
}

/// Cuts `slice` into consecutive chunks of `chunk_size` elements, the last
/// one possibly shorter, as `slice.chunks(chunk_size)` does; each chunk
/// becomes one task of a parallel map.
pub fn chunks_of<'a, T>(slice: &'a [T], chunk_size: usize) -> (out: Vec<&'a [T]>)
    requires
        chunk_size > 0,
    ensures
        slice_views(out@) == chunks(slice@, chunk_size as nat),
{
    let mut out: Vec<&'a [T]> = Vec::new();
    let mut rest: &'a [T] = slice;
    while rest.len() > 0
        invariant
            chunk_size > 0,
            slice_views(out@) + chunks(rest@, chunk_size as nat) == chunks(
                slice@,
                chunk_size as nat,
            ),
        decreases rest.len(),
    {
        let n: usize = if rest.len() < chunk_size { rest.len() } else { chunk_size };
        let (head, tail) = rest.split_at(n);
        proof {
            assert(slice_views(out@.push(head)) =~= slice_views(out@).push(head@));
            if rest@.len() <= chunk_size {
                assert(head@ =~= rest@);
                assert(tail@.len() == 0);
            } else {
                assert(head@ =~= rest@.take(chunk_size as int));
                assert(tail@ =~= rest@.skip(chunk_size as int));
            }
            assert(slice_views(out@).push(head@) + chunks(tail@, chunk_size as nat)
                =~= slice_views(out@) + chunks(rest@, chunk_size as nat));
        }
        out.push(head);
        rest = tail;
    }
    proof {
        assert(slice_views(out@) + chunks(rest@, chunk_size as nat) =~= slice_views(out@));
    }
    out
}

/// Cuts `slice` into consecutive mutable chunks of `chunk_size` elements, the
/// last one possibly shorter, as `slice.chunks_mut(chunk_size)` does. Each
/// chunk starts with its part of the slice, and whatever is written through
/// the chunks is what the slice holds afterwards, in chunk order.
pub fn chunks_of_mut<'a, T>(slice: &'a mut [T], chunk_size: usize) -> (out: Vec<&'a mut [T]>)
    requires
        chunk_size > 0,
    ensures
        out@.len() == chunks(old(slice)@, chunk_size as nat).len(),
        forall|i: int| 0 <= i < out@.len() ==> out@[i]@ == #[trigger] chunks(old(slice)@, chunk_size as nat)[i],
        final(slice)@ == Seq::new(out@.len(), |i: int| final(out@[i])@).flatten(),
{
    let ghost start = old(slice)@;
    let ghost fin = final(slice)@;
    let mut out: Vec<&'a mut [T]> = Vec::new();
    let mut rest: &'a mut [T] = slice;
    while rest.len() > 0
        invariant
            chunk_size > 0,
            Seq::new(out@.len(), |i: int| out@[i]@) + chunks(rest@, chunk_size as nat) == chunks(start, chunk_size as nat),
            fin == Seq::new(out@.len(), |i: int| final(out@[i])@).flatten() + final(rest)@,
        decreases rest.len(),
    {
        let n: usize = if rest.len() < chunk_size { rest.len() } else { chunk_size };
        let ghost old_out = out@;
        let ghost old_rest = rest@;
        let ghost old_rest_final = final(rest)@;
        let (head, tail) = rest.split_at_mut(n);
        let ghost head_now = head@;
        let ghost head_final = final(head)@;
        let ghost tail_final = final(tail)@;
        out.push(head);
        rest = tail;
        proof {
            assert(Seq::new(out@.len(), |i: int| out@[i]@) =~= Seq::new(old_out.len(), |i: int| old_out[i]@).push(head_now));
            assert(Seq::new(out@.len(), |i: int| final(out@[i])@) =~= Seq::new(old_out.len(), |i: int| final(old_out[i])@).push(head_final));
            Seq::new(old_out.len(), |i: int| final(old_out[i])@).lemma_flatten_push(head_final);
            if old_rest.len() <= chunk_size {
                assert(head_now =~= old_rest);
                assert(rest@.len() == 0);
            } else {
                assert(head_now =~= old_rest.take(chunk_size as int));
                assert(rest@ =~= old_rest.skip(chunk_size as int));
            }
            assert(Seq::new(old_out.len(), |i: int| old_out[i]@).push(head_now) + chunks(rest@, chunk_size as nat)
                =~= Seq::new(old_out.len(), |i: int| old_out[i]@) + chunks(old_rest, chunk_size as nat));
        }
    }
    out
}

/// The `parts`-th share of `len` elements, rounded up.
fn share(len: usize, parts: usize) -> (s: usize)
    requires
        parts > 0,
    ensures
        s == chunk_count(len as nat, parts as nat),
{
    let q = len / parts;
    let r = len % parts;
    proof {
        lemma_fundamental_div_mod(len as int, parts as int);
    }
    if r == 0 {
        proof {
            assert(q * parts == parts * q) by (nonlinear_arith);
            lemma_fundamental_div_mod_converse(len + parts - 1, parts as int, q as int, parts - 1);
        }
        q
    } else {
        proof {
            assert((q + 1) * parts == parts * q + parts) by (nonlinear_arith);
            lemma_fundamental_div_mod_converse(len + parts - 1, parts as int, q + 1, r - 1);
            assert(q + 1 <= len) by (nonlinear_arith)
                requires
                    len == parts * q + r,
                    r >= 1,
                    parts >= 1,
                    q >= 0,
            ;
        }
        q + 1
    }
}

/// The chunk size for spreading a slice of `len` elements over a pool of
/// `thread_num` threads with at most `max_tasks` tasks (the number of
/// threads when `None`): the larger of the two shares, each rounded up, and
/// at least one. The slice is then cut into at most `thread_num` chunks,
/// and at most `max_tasks` when it is given.
pub fn splat_chunk_size(len: usize, thread_num: usize, max_tasks: Option<usize>) -> (size: usize)
    requires
        thread_num > 0,
        max_tasks != Some(0usize),
    ensures
        size == splat_chunk_size_spec(len as nat, thread_num as nat, max_tasks),
        size >= 1,
        chunk_count(len as nat, size as nat) <= thread_num,
        max_tasks matches Some(m) ==> chunk_count(len as nat, size as nat) <= m,
        size == 1 || chunk_count(len as nat, (size - 1) as nat) > thread_num || (max_tasks matches Some(
            m,
        ) && chunk_count(len as nat, (size - 1) as nat) > m),
{
    proof {
        lemma_splat_task_bound(len as nat, thread_num as nat, max_tasks);
    }
    let tasks = match max_tasks {
        Some(m) => m,
        None => thread_num,
    };
    let per_thread = share(len, thread_num);
    let per_task = share(len, tasks);
    let larger = if per_thread < per_task { per_task } else { per_thread };
    if larger < 1 { 1 } else { larger }
}

} // verus!
