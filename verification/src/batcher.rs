//! Cutting a stream of records into batches of a fixed size.

use vstd::prelude::*;
use vstd::std_specs::iter::IteratorSpec;
use vstd::arithmetic::div_mod::{lemma_fundamental_div_mod, lemma_fundamental_div_mod_converse};

verus! {

/// How many batches `len` records make at `size` records a batch: `len / size`,
/// rounded up.
pub open spec fn batch_count(len: int, size: int) -> int {
    (len + size - 1) / size
}

/// Where batch `i` ends in the input.
pub open spec fn batch_end(len: int, size: int, i: int) -> int {
    if (i + 1) * size <= len {
        (i + 1) * size
    } else {
        len
    }
}

/// Batch `i` of `items`: the records from `i * size` up to the next multiple
/// of `size`, or up to the end of the input.
pub open spec fn batch_at<T>(items: Seq<T>, size: int, i: int) -> Seq<T> {
    items.subrange(i * size, batch_end(items.len() as int, size, i))
}

/// The batches of `items`, in order.
pub open spec fn batches_of<T>(items: Seq<T>, size: int) -> Seq<Seq<T>> {
    Seq::new(batch_count(items.len() as int, size) as nat, |i: int| batch_at(items, size, i))
}

/// The contents of a list of batches.
pub open spec fn batch_views<T>(batches: Seq<Vec<T>>) -> Seq<Seq<T>> {
    batches.map_values(|b: Vec<T>| b@)
}

/// The number of records in a list of batches.
pub open spec fn total_len<T>(batches: Seq<Seq<T>>) -> int
    decreases batches.len(),
{
    if batches.len() == 0 {
        0
    } else {
        total_len(batches.drop_last()) + batches.last().len()
    }
}

/// The batch count is the least number of batches of `size` that hold `len`
/// records.
pub proof fn lemma_batch_count(len: int, size: int)
    requires
        len >= 0,
        size > 0,
    ensures
        batch_count(len, size) >= 0,
        (batch_count(len, size) - 1) * size < len || len == 0,
        len <= batch_count(len, size) * size,
        len == 0 ==> batch_count(len, size) == 0,
{
    let x = len + size - 1;
    let c = x / size;
    lemma_fundamental_div_mod(x, size);
    assert(0 <= x % size < size);
    assert((c - 1) * size == size * c - size) by (nonlinear_arith);
    assert(c * size == size * c) by (nonlinear_arith);
    if c < 0 {
        assert(size * c <= -size) by (nonlinear_arith)
            requires
                c <= -1,
                size > 0,
        ;
    }
    if len == 0 && c >= 1 {
        assert(size * c >= size) by (nonlinear_arith)
            requires
                c >= 1,
                size > 0,
        ;
    }
}

/// `i * size` grows with `i`.
proof fn lemma_scale(i: int, j: int, size: int)
    requires
        i <= j,
        size > 0,
    ensures
        i * size <= j * size,
        (i + 1) * size == i * size + size,
{
    assert(i * size <= j * size) by (nonlinear_arith)
        requires
            i <= j,
            size > 0,
    ;
    assert((i + 1) * size == i * size + size) by (nonlinear_arith);
}

/// The shape of the batches: each but the last is full, the last holds the
/// remainder of `len / size`, or is full where there is none, and none is
/// empty.
pub proof fn lemma_batch_shape<T>(items: Seq<T>, size: int, i: int)
    requires
        size > 0,
        0 <= i < batch_count(items.len() as int, size),
    ensures
        batches_of(items, size).len() == batch_count(items.len() as int, size),
        batches_of(items, size)[i] == batch_at(items, size, i),
        1 <= batch_at(items, size, i).len() <= size,
        i < batch_count(items.len() as int, size) - 1 ==> batch_at(items, size, i).len() == size,
        i == batch_count(items.len() as int, size) - 1 ==> batch_at(items, size, i).len() == (if items.len()
            % (size as nat) == 0 {
            size
        } else {
            items.len() as int % size
        }),
{
    let len = items.len() as int;
    let c = batch_count(len, size);
    lemma_batch_count(len, size);
    lemma_scale(i, c - 1, size);
    lemma_scale(i, i, size);
    if i < c - 1 {
        lemma_scale(i + 1, c - 1, size);
    } else {
        lemma_scale(c - 1, c - 1, size);
        let rest = len - i * size;
        assert(0 < rest <= size);
        if rest == size {
            assert(len == size * (i + 1) + 0) by (nonlinear_arith)
                requires
                    len == i * size + size,
            ;
            lemma_fundamental_div_mod_converse(len, size, i + 1, 0);
        } else {
            assert(len == size * i + rest) by (nonlinear_arith)
                requires
                    rest == len - i * size,
            ;
            lemma_fundamental_div_mod_converse(len, size, i, rest);
        }
    }
}

/// The first `n` batches hold the first `n * size` records, or all of them.
proof fn lemma_prefix_total<T>(items: Seq<T>, size: int, n: int)
    requires
        size > 0,
        0 <= n <= batch_count(items.len() as int, size),
    ensures
        total_len(batches_of(items, size).take(n)) == batch_end(items.len() as int, size, n - 1),
    decreases n,
{
    let all = batches_of(items, size);
    let len = items.len() as int;
    lemma_batch_count(len, size);
    if n == 0 {
        assert(0 * size == 0) by (nonlinear_arith);
    } else {
        lemma_prefix_total(items, size, n - 1);
        lemma_batch_shape(items, size, n - 1);
        assert(all.take(n).drop_last() =~= all.take(n - 1));
        assert(all.take(n).last() == batch_at(items, size, n - 1));
        lemma_scale(n - 2, n - 1, size);
        lemma_scale(n - 1, n - 1, size);
        lemma_scale(n - 1, batch_count(len, size) - 1, size);
    }
}

/// Batching neither drops nor adds a record: the batches together hold as
/// many records as the input.
pub proof fn lemma_batches_keep_count<T>(items: Seq<T>, size: int)
    requires
        size > 0,
    ensures
        total_len(batches_of(items, size)) == items.len(),
{
    let len = items.len() as int;
    let c = batch_count(len, size);
    lemma_batch_count(len, size);
    lemma_prefix_total(items, size, c);
    assert(batches_of(items, size).take(c) =~= batches_of(items, size));
    lemma_scale(c - 1, c - 1, size);
    if len == 0 {
        assert(0 * size == 0) by (nonlinear_arith);
    }
}

/// Collects records one by one and closes a batch whenever it is full.
pub struct Batcher<T> {
    size: usize,
    done: Vec<Vec<T>>,
    current: Vec<T>,
    seen: Ghost<Seq<T>>,
}

impl<T> Batcher<T> {
    /// The records taken so far, in order.
    pub closed spec fn items(self) -> Seq<T> {
        self.seen@
    }

    /// The size at which a batch is closed.
    pub closed spec fn batch_size(self) -> int {
        self.size as int
    }

    /// The closed batches are the full batches of the records taken so far,
    /// and the open batch holds the rest.
    pub closed spec fn well_formed(self) -> bool {
        &&& self.size > 0
        &&& self.current@.len() < self.size
        &&& self.seen@.len() == self.done@.len() * self.size + self.current@.len()
        &&& forall|i: int|
            0 <= i < self.done@.len() ==> (#[trigger] self.done@[i])@ == self.seen@.subrange(
                i * self.size,
                (i + 1) * self.size,
            )
        &&& self.current@ == self.seen@.subrange(
            self.done@.len() * self.size,
            self.seen@.len() as int,
        )
    }

    /// A batcher that has taken no record yet.
    pub fn new(size: usize) -> (r: Batcher<T>)
        requires
            size > 0,
        ensures
            r.well_formed(),
            r.batch_size() == size,
            r.items() == Seq::<T>::empty(),
    {
        let r = Batcher { size, done: Vec::new(), current: Vec::new(), seen: Ghost(Seq::empty()) };
        proof {
            assert(0 * size == 0) by (nonlinear_arith);
            assert(r.current@ =~= r.seen@.subrange(0, 0));
        }
        r
    }

    /// Takes the next record.
    pub fn push(&mut self, item: T)
        requires
            old(self).well_formed(),
        ensures
            final(self).well_formed(),
            final(self).batch_size() == old(self).batch_size(),
            final(self).items() == old(self).items().push(item),
    {
        let ghost before = self.seen@;
        let ghost n = self.done@.len() as int;
        let ghost size = self.size as int;
        self.current.push(item);
        proof {
            self.seen = Ghost(before.push(item));
            lemma_scale(n, n, size);
            assert(self.current@ =~= self.seen@.subrange(n * size, self.seen@.len() as int));
            assert forall|i: int| 0 <= i < n implies (#[trigger] self.done@[i])@
                == self.seen@.subrange(i * size, (i + 1) * size) by {
                lemma_scale(i + 1, n, size);
                lemma_scale(0, i, size);
                lemma_scale(i, i, size);
                assert(0 * size == 0) by (nonlinear_arith);
                assert(before.subrange(i * size, (i + 1) * size) =~= self.seen@.subrange(
                    i * size,
                    (i + 1) * size,
                ));
            }
        }
        if self.current.len() >= self.size {
            let mut full: Vec<T> = Vec::new();
            std::mem::swap(&mut self.current, &mut full);
            self.done.push(full);
            proof {
                lemma_scale(n + 1, n + 1, size);
                assert(self.current@ =~= self.seen@.subrange(
                    (n + 1) * size,
                    self.seen@.len() as int,
                ));
            }
        }
    }

    /// Closes the open batch, unless it is empty, and hands out the batches.
    pub fn finish(self) -> (r: Vec<Vec<T>>)
        requires
            self.well_formed(),
        ensures
            batch_views(r@) == batches_of(self.items(), self.batch_size()),
    {
        let ghost n = self.done@.len() as int;
        let ghost size = self.size as int;
        let ghost seen = self.seen@;
        let ghost len = seen.len() as int;
        let ghost open_len = self.current@.len() as int;
        let mut done = self.done;
        let current = self.current;
        if current.len() > 0 {
            done.push(current);
        }
        proof {
            lemma_batch_count(len, size);
            lemma_scale(n, n, size);
            let c = batch_count(len, size);
            if open_len == 0 {
                assert(len + size - 1 == size * n + (size - 1)) by (nonlinear_arith)
                    requires
                        len == n * size,
                ;
                lemma_fundamental_div_mod_converse(len + size - 1, size, n, size - 1);
            } else {
                assert(len + size - 1 == size * (n + 1) + (open_len - 1)) by (nonlinear_arith)
                    requires
                        len == n * size + open_len,
                ;
                lemma_fundamental_div_mod_converse(len + size - 1, size, n + 1, open_len - 1);
            }
            assert(done@.len() == c);
            assert forall|i: int| 0 <= i < c implies batch_views(done@)[i] == batches_of(
                seen,
                size,
            )[i] by {
                lemma_scale(i, i, size);
                if i < n {
                    lemma_scale(i + 1, n, size);
                }
            }
            assert(batch_views(done@) =~= batches_of(seen, size));
        }
        done
    }
}

/// Cuts `items` into batches of `size` records, in order. The last batch
/// holds what is left, and no batch is empty.
pub fn split_batches<T>(items: Vec<T>, size: usize) -> (r: Vec<Vec<T>>)
    requires
        size > 0,
    ensures
        r@.len() == batch_count(items@.len() as int, size as int),
        batch_views(r@) == batches_of(items@, size as int),
        forall|i: int| 0 <= i < r@.len() ==> (#[trigger] r@[i])@ == batch_at(items@, size as int, i),
        forall|i: int| 0 <= i < r@.len() ==> 1 <= (#[trigger] r@[i])@.len() <= size,
        forall|i: int| 0 <= i < r@.len() - 1 ==> (#[trigger] r@[i])@.len() == size,
        r@.len() > 0 ==> r@[r@.len() - 1]@.len() == (if items@.len() % (size as nat) == 0 {
            size as int
        } else {
            items@.len() as int % (size as int)
        }),
        total_len(batch_views(r@)) == items@.len(),
{
    broadcast use vstd::std_specs::vec::axiom_spec_into_iter;

    let ghost all = items@;
    let mut batcher: Batcher<T> = Batcher::new(size);
    let ghost mut taken: int = 0;
    for item in it: items.into_iter()
        invariant
            taken == it.index(),
            it.seq() == all,
            batcher.well_formed(),
            batcher.batch_size() == size,
            batcher.items() == all.take(taken),
    {
        batcher.push(item);
        proof {
            assert(all.take(taken).push(item) =~= all.take(taken + 1));
            taken = taken + 1;
        }
    }
    proof {
        assert(all.take(taken) =~= all);
    }
    let r = batcher.finish();
    proof {
        lemma_batch_count(all.len() as int, size as int);
        lemma_batches_keep_count(all, size as int);
        assert forall|i: int| 0 <= i < r@.len() implies (#[trigger] r@[i])@ == batch_at(
            all,
            size as int,
            i,
        ) && 1 <= r@[i]@.len() <= size && (i < r@.len() - 1 ==> r@[i]@.len() == size) by {
            assert(batch_views(r@)[i] == r@[i]@);
            lemma_batch_shape(all, size as int, i);
        }
        if r@.len() > 0 {
            lemma_batch_shape(all, size as int, r@.len() - 1);
        }
    }
    r
}

} // verus!
