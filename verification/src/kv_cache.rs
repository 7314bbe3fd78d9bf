//! Key/value cache for multi-head attention: keys and values of every cached
//! position, flattened in row-major order (position, head, dimension).

use vstd::prelude::*;
use vstd::slice::slice_subrange;

use rayon::iter::{IntoParallelIterator, ParallelIterator};

verus! {

/// Evaluates `f` at `0..len` on rayon's thread pool and collects the
/// results in index order.
///
/// Calls `(0..len).into_par_iter().map(f).collect::<Vec<_>>()`; rayon's
/// collection of an indexed parallel iterator into a `Vec` keeps the order
/// of the indices, so element `i` is `f(i)`.
#[verifier::external_body]
fn par_collect<R: Send, F: Fn(usize) -> R + Sync + Send>(len: usize, f: F) -> (res: Vec<R>)
    requires
        forall|i: usize| i < len ==> call_requires(f, (i,)),
    ensures
        res@.len() == len,
        forall|i: int| 0 <= i < len ==> call_ensures(f, (i as usize,), #[trigger] res@[i]),
{
    (0..len).into_par_iter().map(f).collect()
}

/// KV cache layout:
/// - `keys`  : [max_seq, n_head, head_dim]
/// - `values`: [max_seq, n_head, head_dim]
///
/// Flattened in row-major order (seq -> head -> dim).
#[derive(Debug, Clone)]
pub struct KvCache<T> {
    /// Number of positions the cache can hold.
    pub max_seq: usize,
    /// Number of attention heads.
    pub n_head: usize,
    /// Dimension of one head.
    pub head_dim: usize,
    /// Keys, `max_seq * n_head * head_dim` entries.
    pub keys: Vec<T>,
    /// Values, `max_seq * n_head * head_dim` entries.
    pub values: Vec<T>,
    /// Number of positions filled so far.
    pub cur_len: usize,
}

/// The entries of one position of the cache.
pub open spec fn row_size(n_head: usize, head_dim: usize) -> int {
    n_head * head_dim
}

/// Where the entries of head `head` at position `pos` start.
pub open spec fn slot_start(n_head: usize, head_dim: usize, pos: int, head: int) -> int {
    (pos * n_head + head) * head_dim
}

/// `s` with `part` written over it from position `at`.
pub open spec fn overwrite<T>(s: Seq<T>, at: int, part: Seq<T>) -> Seq<T> {
    s.subrange(0, at) + part + s.subrange(at + part.len(), s.len() as int)
}

impl<T: Copy> KvCache<T> {
    /// Whether the buffers have room for `max_seq` positions and at most
    /// that many are filled.
    pub open spec fn wf(&self) -> bool {
        &&& self.max_seq * self.n_head <= usize::MAX
        &&& self.max_seq * self.n_head * self.head_dim <= usize::MAX
        &&& self.keys@.len() == self.max_seq * self.n_head * self.head_dim
        &&& self.values@.len() == self.max_seq * self.n_head * self.head_dim
        &&& self.cur_len <= self.max_seq
    }

    /// Create a new, empty KV cache whose entries all start as `zero`.
    pub fn new(max_seq: usize, n_head: usize, head_dim: usize, zero: T) -> (res: Self)
        requires
            max_seq * n_head <= usize::MAX,
            max_seq * n_head * head_dim <= usize::MAX,
        ensures
            res.wf(),
            res.max_seq == max_seq,
            res.n_head == n_head,
            res.head_dim == head_dim,
            res.cur_len == 0,
            res.keys@ == Seq::new((max_seq * n_head * head_dim) as nat, |i: int| zero),
            res.values@ == Seq::new((max_seq * n_head * head_dim) as nat, |i: int| zero),
    {
        let size = max_seq * n_head * head_dim;
        let mut keys: Vec<T> = Vec::new();
        let mut values: Vec<T> = Vec::new();
        let mut i: usize = 0;
        while i < size
            invariant
                i <= size,
                keys@ == Seq::new(i as nat, |j: int| zero),
                values@ == Seq::new(i as nat, |j: int| zero),
            decreases size - i,
        {
            keys.push(zero);
            values.push(zero);
            i = i + 1;
            proof {
                assert(keys@ =~= Seq::new(i as nat, |j: int| zero));
                assert(values@ =~= Seq::new(i as nat, |j: int| zero));
            }
        }
        KvCache { max_seq, n_head, head_dim, keys, values, cur_len: 0 }
    }

    /// Append a new token's key and value vectors, each of `n_head *
    /// head_dim` entries, at the next free position.
    pub fn push(&mut self, k: &[T], v: &[T])
        requires
            old(self).wf(),
            k@.len() == old(self).n_head * old(self).head_dim,
            v@.len() == old(self).n_head * old(self).head_dim,
            old(self).cur_len < old(self).max_seq,
        ensures
            final(self).wf(),
            final(self).max_seq == old(self).max_seq,
            final(self).n_head == old(self).n_head,
            final(self).head_dim == old(self).head_dim,
            final(self).cur_len == old(self).cur_len + 1,
            final(self).keys@ == overwrite(old(self).keys@, old(self).cur_len * row_size(old(self).n_head, old(self).head_dim), k@),
            final(self).values@ == overwrite(old(self).values@, old(self).cur_len * row_size(old(self).n_head, old(self).head_dim), v@),
    {
        let ghost n = self.max_seq * self.n_head * self.head_dim;
        proof {
            assert((self.cur_len + 1) * (self.n_head * self.head_dim) <= self.max_seq * self.n_head * self.head_dim) by (nonlinear_arith)
                requires
                    self.cur_len < self.max_seq;
            assert(self.cur_len * (self.n_head * self.head_dim) + self.n_head * self.head_dim
                == (self.cur_len + 1) * (self.n_head * self.head_dim)) by (nonlinear_arith);
            assert(self.max_seq * self.n_head * self.head_dim == self.max_seq * (self.n_head * self.head_dim)) by (nonlinear_arith);
        }
        let row = self.n_head * self.head_dim;
        let offset = self.cur_len * row;
        let ghost old_keys = self.keys@;
        let ghost old_values = self.values@;
        let mut i: usize = 0;
        while i < row
            invariant
                self.max_seq == old(self).max_seq,
                self.n_head == old(self).n_head,
                self.head_dim == old(self).head_dim,
                self.cur_len == old(self).cur_len,
                self.cur_len < self.max_seq,
                self.max_seq * self.n_head <= usize::MAX,
                n == self.max_seq * self.n_head * self.head_dim,
                n <= usize::MAX,
                offset == self.cur_len * row_size(self.n_head, self.head_dim),
                row == k@.len(),
                row == v@.len(),
                offset + row <= n,
                self.keys@.len() == n,
                self.values@.len() == n,
                i <= row,
                self.keys@ == overwrite(old_keys, offset as int, k@.subrange(0, i as int)),
                self.values@ == overwrite(old_values, offset as int, v@.subrange(0, i as int)),
                old_keys.len() == n,
                old_values.len() == n,
            decreases row - i,
        {
            self.keys.set(offset + i, k[i]);
            self.values.set(offset + i, v[i]);
            i = i + 1;
            proof {
                assert(self.keys@ =~= overwrite(old_keys, offset as int, k@.subrange(0, i as int)));
                assert(self.values@ =~= overwrite(old_values, offset as int, v@.subrange(0, i as int)));
            }
        }
        proof {
            assert(k@.subrange(0, row as int) =~= k@);
            assert(v@.subrange(0, row as int) =~= v@);
        }
        self.cur_len = self.cur_len + 1;
    }

    /// Retrieve the key and value entries of head `head` at filled position
    /// `pos`, each of length `head_dim`.
    pub fn get(&self, pos: usize, head: usize) -> (res: (&[T], &[T]))
        requires
            self.wf(),
            pos < self.cur_len,
            head < self.n_head,
        ensures
            ({
                let s = slot_start(self.n_head, self.head_dim, pos as int, head as int);
                &&& res.0@ == self.keys@.subrange(s, s + self.head_dim)
                &&& res.1@ == self.values@.subrange(s, s + self.head_dim)
            }),
    {
        proof {
            lemma_slot_in_bounds(self.max_seq, self.n_head, self.head_dim, pos as int, head as int);
            assert(pos * self.n_head + head <= self.max_seq * self.n_head) by (nonlinear_arith)
                requires
                    pos < self.max_seq,
                    head < self.n_head;
        }
        let base = (pos * self.n_head + head) * self.head_dim;
        (
            slice_subrange(self.keys.as_slice(), base, base + self.head_dim),
            slice_subrange(self.values.as_slice(), base, base + self.head_dim),
        )
    }

    /// The key entries of head `head` at position `pos`.
    fn key_slot(&self, pos: usize, head: usize) -> (res: &[T])
        requires
            pos * self.n_head + head <= usize::MAX,
            (pos * self.n_head + head) * self.head_dim + self.head_dim <= self.keys@.len(),
        ensures
            ({
                let s = slot_start(self.n_head, self.head_dim, pos as int, head as int);
                res@ == self.keys@.subrange(s, s + self.head_dim)
            }),
    {
        proof {
            assert(self.keys@.len() == self.keys.len());
        }
        let base = (pos * self.n_head + head) * self.head_dim;
        slice_subrange(self.keys.as_slice(), base, base + self.head_dim)
    }

    /// The value entries of head `head` at position `pos`.
    fn value_slot(&self, pos: usize, head: usize) -> (res: &[T])
        requires
            pos * self.n_head + head <= usize::MAX,
            (pos * self.n_head + head) * self.head_dim + self.head_dim <= self.values@.len(),
        ensures
            ({
                let s = slot_start(self.n_head, self.head_dim, pos as int, head as int);
                res@ == self.values@.subrange(s, s + self.head_dim)
            }),
    {
        proof {
            assert(self.values@.len() == self.values.len());
        }
        let base = (pos * self.n_head + head) * self.head_dim;
        slice_subrange(self.values.as_slice(), base, base + self.head_dim)
    }
}

/// A slot of a filled position lies within buffers of `max_seq` positions.
proof fn lemma_slot_in_bounds(max_seq: usize, n_head: usize, head_dim: usize, pos: int, head: int)
    requires
        0 <= pos < max_seq,
        0 <= head < n_head,
    ensures
        slot_start(n_head, head_dim, pos, head) + head_dim <= max_seq * n_head * head_dim,
        0 <= slot_start(n_head, head_dim, pos, head),
{
    assert((pos * n_head + head) * head_dim + head_dim <= max_seq * n_head * head_dim) by (nonlinear_arith)
        requires
            0 <= pos < max_seq,
            0 <= head < n_head;
    assert(0 <= (pos * n_head + head) * head_dim) by (nonlinear_arith)
        requires
            0 <= pos,
            0 <= head;
}

/// Whether the slots of head `head` at positions `0..len` lie within
/// buffers of `n` entries.
pub open spec fn head_slots_fit(n_head: usize, head_dim: usize, head: usize, len: usize, n: int) -> bool {
    len == 0 || {
        &&& (len - 1) * n_head + head <= usize::MAX
        &&& slot_start(n_head, head_dim, len - 1, head as int) + head_dim <= n
    }
}

/// The slots of later positions start later.
proof fn lemma_slots_monotone(n_head: usize, head_dim: usize, head: int, p: int, q: int)
    requires
        0 <= p <= q,
        0 <= head,
    ensures
        slot_start(n_head, head_dim, p, head) <= slot_start(n_head, head_dim, q, head),
        p * n_head + head <= q * n_head + head,
{
    assert(p * n_head <= q * n_head) by (nonlinear_arith)
        requires
            0 <= p <= q;
    assert((p * n_head + head) * head_dim <= (q * n_head + head) * head_dim) by (nonlinear_arith)
        requires
            0 <= p <= q,
            0 <= head;
}

impl<T: Copy + Sync> KvCache<T> {
    /// The key entries of head `head` at positions `0..len`, gathered in
    /// parallel.
    pub fn get_head_keys(&self, head: usize, len: usize) -> (res: Vec<&[T]>)
        requires
            head_slots_fit(self.n_head, self.head_dim, head, len, self.keys@.len() as int),
        ensures
            res@.len() == len,
            forall|pos: int| 0 <= pos < len ==> {
                let s = slot_start(self.n_head, self.head_dim, pos, head as int);
                #[trigger] res@[pos]@ == self.keys@.subrange(s, s + self.head_dim)
            },
    {
        let f = |pos: usize| -> (r: &[T])
            requires
                pos < len,
            ensures
                ({
                    let s = slot_start(self.n_head, self.head_dim, pos as int, head as int);
                    r@ == self.keys@.subrange(s, s + self.head_dim)
                }),
        {
            proof {
                lemma_slots_monotone(self.n_head, self.head_dim, head as int, pos as int, len - 1);
            }
            self.key_slot(pos, head)
        };
        par_collect(len, f)
    }

    /// The value entries of head `head` at positions `0..len`, gathered in
    /// parallel.
    pub fn get_head_values(&self, head: usize, len: usize) -> (res: Vec<&[T]>)
        requires
            head_slots_fit(self.n_head, self.head_dim, head, len, self.values@.len() as int),
        ensures
            res@.len() == len,
            forall|pos: int| 0 <= pos < len ==> {
                let s = slot_start(self.n_head, self.head_dim, pos, head as int);
                #[trigger] res@[pos]@ == self.values@.subrange(s, s + self.head_dim)
            },
    {
        let f = |pos: usize| -> (r: &[T])
            requires
                pos < len,
            ensures
                ({
                    let s = slot_start(self.n_head, self.head_dim, pos as int, head as int);
                    r@ == self.values@.subrange(s, s + self.head_dim)
                }),
        {
            proof {
                lemma_slots_monotone(self.n_head, self.head_dim, head as int, pos as int, len - 1);
            }
            self.value_slot(pos, head)
        };
        par_collect(len, f)
    }
}

/// Reading a slot after a push: the newly filled position holds the pushed
/// entries of that head, and every earlier position keeps what it held.
pub proof fn law_push_then_get<T>(
    s: Seq<T>,
    max_seq: usize,
    n_head: usize,
    head_dim: usize,
    cur: int,
    k: Seq<T>,
    pos: int,
    head: int,
)
    requires
        0 <= cur < max_seq,
        s.len() == max_seq * n_head * head_dim,
        k.len() == n_head * head_dim,
        0 <= head < n_head,
        0 <= pos <= cur,
    ensures
        ({
            let w = overwrite(s, cur * row_size(n_head, head_dim), k);
            let st = slot_start(n_head, head_dim, pos, head);
            &&& w.len() == s.len()
            &&& pos == cur ==> w.subrange(st, st + head_dim) == k.subrange(head * head_dim, head * head_dim + head_dim)
            &&& pos < cur ==> w.subrange(st, st + head_dim) == s.subrange(st, st + head_dim)
        }),
{
    let row = n_head * head_dim;
    let at = cur * row;
    let st = slot_start(n_head, head_dim, pos, head);
    assert(at + row <= s.len()) by (nonlinear_arith)
        requires
            0 <= cur < max_seq,
            s.len() == max_seq * n_head * head_dim,
            row == n_head * head_dim,
            at == cur * row;
    assert(0 <= at) by (nonlinear_arith)
        requires
            0 <= cur,
            at == cur * row,
            row == n_head * head_dim;
    let w = overwrite(s, at, k);
    assert(w.len() == s.len());
    if pos == cur {
        assert(st == at + head * head_dim && head * head_dim + head_dim <= row && 0 <= head * head_dim) by (nonlinear_arith)
            requires
                pos == cur,
                st == (pos * n_head + head) * head_dim,
                at == cur * row,
                row == n_head * head_dim,
                0 <= head < n_head;
        assert(w.subrange(st, st + head_dim) =~= k.subrange(head * head_dim, head * head_dim + head_dim));
    } else {
        assert(st + head_dim <= at && 0 <= st) by (nonlinear_arith)
            requires
                0 <= pos < cur,
                st == (pos * n_head + head) * head_dim,
                at == cur * row,
                row == n_head * head_dim,
                0 <= head < n_head;
        assert(w.subrange(st, st + head_dim) =~= s.subrange(st, st + head_dim));
    }
}

} // verus!
