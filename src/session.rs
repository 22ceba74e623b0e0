use vstd::prelude::*;
use crate::graph::{
    build_graph, buildable, embeddings_node, expand_order, graph_ops, logits_node, step_error,
    EvalError, Graph, TokenId,
};
use crate::hyperparameters::Hyperparameters;
use crate::kv_cache::{ContextWindowExceeded, KvCache};

verus! {

/// The state of one decoding session: how many positions are cached, the cache itself, and
/// the logits and, where they were asked for, the final-layer embeddings of the last
/// position of the latest step.
pub struct Session<T> {
    n_past: usize,
    cache: KvCache<T>,
    last_logits: Vec<T>,
    last_embeddings: Option<Vec<T>>,
}

/// The last of `n` rows of width `w` of a matrix, where one was given.
pub open spec fn last_row_of<T>(m: Option<Vec<T>>, w: nat, n: nat) -> Option<Seq<T>> {
    match m {
        Some(v) => Some(last_row(v@, w, n)),
        None => None,
    }
}

/// The logits of the last of `n` positions, from a matrix with one run of `n_vocab`
/// logits per position.
pub open spec fn last_row<T>(all: Seq<T>, n_vocab: nat, n: nat) -> Seq<T> {
    all.subrange((n - 1) * n_vocab, (n * n_vocab) as int)
}

/// Copies the logits of the last of `n` positions.
pub fn read_last_row<T: Copy>(all: &Vec<T>, n_vocab: usize, n: usize) -> (r: Vec<T>)
    requires
        1 <= n,
        all@.len() == n * n_vocab,
    ensures
        r@ == last_row(all@, n_vocab as nat, n as nat),
{
    let len = all.len();
    proof {
        assert((n - 1) * n_vocab + n_vocab == n * n_vocab) by (nonlinear_arith);
    }
    let start = (n - 1) * n_vocab;
    let mut r: Vec<T> = Vec::new();
    let mut i: usize = 0;
    while i < n_vocab
        invariant
            start + n_vocab == all@.len(),
            len == all@.len(),
            i <= n_vocab,
            r@ == all@.subrange(start as int, start + i),
        decreases n_vocab - i,
    {
        r.push(all[start + i]);
        i = i + 1;
        assert(r@ =~= all@.subrange(start as int, start + i));
    }
    r
}

/// `new` is `old` with the keys and values of `n` positions from `p` written in: row `il`
/// of `keys` and `values` holds one run of elements per position for layer `il`. Every
/// other slot keeps its value.
pub open spec fn committed<T: Copy>(
    old: KvCache<T>,
    new: KvCache<T>,
    p: nat,
    n: nat,
    keys: Seq<Seq<T>>,
    values: Seq<Seq<T>>,
) -> bool {
    &&& new.wf()
    &&& new.spec_n_layer() == old.spec_n_layer()
    &&& new.spec_n_ctx() == old.spec_n_ctx()
    &&& new.spec_n_embd() == old.spec_n_embd()
    &&& forall|il: nat, pos: nat, d: nat|
        #![trigger new.key(il, pos, d)]
        #![trigger new.value(il, pos, d)]
        il < old.spec_n_layer() && pos < old.spec_n_ctx() && d < old.spec_n_embd() ==> {
            let e = old.spec_n_embd();
            if p <= pos < p + n {
                &&& new.key(il, pos, d) == keys[il as int][(pos - p) * e + d]
                &&& new.value(il, pos, d) == values[il as int][(pos - p) * e + d]
            } else {
                &&& new.key(il, pos, d) == old.key(il, pos, d)
                &&& new.value(il, pos, d) == old.value(il, pos, d)
            }
        }
}

/// The rows of a matrix of vectors, as sequences.
pub open spec fn rows<T>(m: Seq<Vec<T>>) -> Seq<Seq<T>> {
    m.map_values(|v: Vec<T>| v@)
}

/// Each row of `a` followed by the same row of `b`.
pub open spec fn join_rows<T>(a: Seq<Seq<T>>, b: Seq<Seq<T>>) -> Seq<Seq<T>> {
    Seq::new(a.len(), |l: int| a[l] + b[l])
}

/// Writing the keys and values of `n1` positions and then of `n2` more leaves the cache
/// exactly as writing all `n1 + n2` positions at once does.
pub proof fn lemma_split_commit<T: Copy>(
    a: KvCache<T>,
    b: KvCache<T>,
    c: KvCache<T>,
    d: KvCache<T>,
    p: nat,
    n1: nat,
    n2: nat,
    k1: Seq<Seq<T>>,
    v1: Seq<Seq<T>>,
    k2: Seq<Seq<T>>,
    v2: Seq<Seq<T>>,
)
    requires
        k1.len() == a.spec_n_layer(),
        v1.len() == a.spec_n_layer(),
        k2.len() == a.spec_n_layer(),
        v2.len() == a.spec_n_layer(),
        forall|l: int| 0 <= l < k1.len() ==> #[trigger] k1[l].len() == n1 * a.spec_n_embd(),
        forall|l: int| 0 <= l < v1.len() ==> #[trigger] v1[l].len() == n1 * a.spec_n_embd(),
        forall|l: int| 0 <= l < k2.len() ==> #[trigger] k2[l].len() == n2 * a.spec_n_embd(),
        forall|l: int| 0 <= l < v2.len() ==> #[trigger] v2[l].len() == n2 * a.spec_n_embd(),
        committed(a, b, p, n1, k1, v1),
        committed(b, c, p + n1, n2, k2, v2),
        committed(a, d, p, n1 + n2, join_rows(k1, k2), join_rows(v1, v2)),
    ensures
        c.spec_n_layer() == d.spec_n_layer(),
        c.spec_n_ctx() == d.spec_n_ctx(),
        c.spec_n_embd() == d.spec_n_embd(),
        forall|il: nat, pos: nat, e: nat|
            il < a.spec_n_layer() && pos < a.spec_n_ctx() && e < a.spec_n_embd() ==> c.key(il, pos, e)
                == d.key(il, pos, e) && c.value(il, pos, e) == d.value(il, pos, e),
{
    let w = a.spec_n_embd();
    assert forall|il: nat, pos: nat, e: nat|
        il < a.spec_n_layer() && pos < a.spec_n_ctx() && e < w implies c.key(il, pos, e) == d.key(il, pos, e)
            && c.value(il, pos, e) == d.value(il, pos, e) by {
        let li = il as int;
        assert(k1[li].len() == n1 * w);
        assert(v1[li].len() == n1 * w);
        assert(k2[li].len() == n2 * w);
        assert(v2[li].len() == n2 * w);
        let jk = join_rows(k1, k2)[li];
        let jv = join_rows(v1, v2)[li];
        assert(jk == k1[li] + k2[li]);
        assert(jv == v1[li] + v2[li]);
        if p <= pos < p + n1 {
            let idx = (pos - p) * w + e;
            assert(0 <= (pos - p) * w + e < n1 * w) by (nonlinear_arith)
                requires
                    0 <= pos - p < n1,
                    e < w,
            ;
            assert(jk[idx] == k1[li][idx]);
            assert(jv[idx] == v1[li][idx]);
        } else if p + n1 <= pos < p + n1 + n2 {
            let idx = (pos - p) * w + e;
            let idx2 = (pos - (p + n1)) * w + e;
            assert((pos - p) * w + e == n1 * w + ((pos - (p + n1)) * w + e)) by (nonlinear_arith)
                requires
                    pos >= p + n1,
            ;
            assert(0 <= (pos - (p + n1)) * w + e < n2 * w) by (nonlinear_arith)
                requires
                    0 <= pos - (p + n1) < n2,
                    e < w,
            ;
            assert(jk[idx] == k2[li][idx2]);
            assert(jv[idx] == v2[li][idx2]);
        }
    }
}

impl<T: Copy> Session<T> {
    pub closed spec fn spec_n_past(&self) -> nat {
        self.n_past as nat
    }

    pub closed spec fn spec_cache(&self) -> KvCache<T> {
        self.cache
    }

    pub closed spec fn spec_last_logits(&self) -> Seq<T> {
        self.last_logits@
    }

    pub closed spec fn spec_last_embeddings(&self) -> Option<Seq<T>> {
        match self.last_embeddings {
            Some(v) => Some(v@),
            None => None,
        }
    }

    /// The cache is well formed and the cached positions lie within it.
    pub open spec fn wf(&self) -> bool {
        &&& self.spec_cache().wf()
        &&& self.spec_n_past() <= self.spec_cache().spec_n_ctx()
    }

    /// A session for a model of these hyperparameters: nothing cached, every cache element `zero`.
    pub fn start(h: &Hyperparameters, zero: T) -> (r: Self)
        requires
            h.n_layer as nat * h.n_ctx as nat * h.n_embd as nat <= usize::MAX,
        ensures
            r.wf(),
            r.spec_n_past() == 0,
            r.spec_cache().spec_n_layer() == h.n_layer,
            r.spec_cache().spec_n_ctx() == h.n_ctx,
            r.spec_cache().spec_n_embd() == h.n_embd,
            forall|i: int| 0 <= i < r.spec_cache().size() ==> r.spec_cache().key_buffer()[i] == zero
                && r.spec_cache().value_buffer()[i] == zero,
            r.spec_last_logits().len() == 0,
            r.spec_last_embeddings() is None,
    {
        Session {
            n_past: 0,
            cache: KvCache::new(h.n_layer, h.n_ctx, h.n_embd, zero),
            last_logits: Vec::new(),
            last_embeddings: None,
        }
    }

    pub fn n_past(&self) -> (r: usize)
        ensures
            r == self.spec_n_past(),
    {
        self.n_past
    }

    pub fn cache(&self) -> (r: &KvCache<T>)
        ensures
            *r == self.spec_cache(),
    {
        &self.cache
    }

    pub fn last_logits(&self) -> (r: &Vec<T>)
        ensures
            r@ == self.spec_last_logits(),
    {
        &self.last_logits
    }

    /// The final-layer embeddings of the last position of the latest step, where that step
    /// asked for them.
    pub fn last_embeddings(&self) -> (r: Option<&Vec<T>>)
        ensures
            r matches Some(v) ==> self.spec_last_embeddings() == Some(v@),
            r is None <==> self.spec_last_embeddings() is None,
    {
        match &self.last_embeddings {
            Some(v) => Some(v),
            None => None,
        }
    }

    /// Records the outcome of a step of `n` tokens, as the engine computed it from the step's
    /// graph: the keys and values that each layer computed for the new positions (what the
    /// graph's copies into the cache views hold: one run of `n_embd` elements per position),
    /// the logits of every position (one run of `n_vocab` per position), and, where they were
    /// asked for, the final-layer embeddings of every position (one run of `n_embd` each).
    /// Writes the keys and values into the cache at the slots of positions `n_past ..
    /// n_past + n`, keeps the logits and embeddings of the last position, and advances the
    /// cached positions by `n`. An empty step, or one that would pass the context window,
    /// changes nothing.
    pub fn commit(
        &mut self,
        keys: &Vec<Vec<T>>,
        values: &Vec<Vec<T>>,
        logits: &Vec<T>,
        embeddings: Option<Vec<T>>,
        n_vocab: usize,
        n: usize,
    ) -> (r: Result<(), EvalError>)
        requires
            old(self).wf(),
            keys@.len() == old(self).spec_cache().spec_n_layer(),
            values@.len() == old(self).spec_cache().spec_n_layer(),
            forall|l: int| 0 <= l < keys@.len() ==> keys@[l]@.len() == n as nat * old(self).spec_cache().spec_n_embd(),
            forall|l: int| 0 <= l < values@.len() ==> values@[l]@.len() == n as nat * old(self).spec_cache().spec_n_embd(),
            logits@.len() == n as nat * n_vocab as nat,
            embeddings matches Some(e) ==> e@.len() == n as nat * old(self).spec_cache().spec_n_embd(),
        ensures
            n == 0 ==> r == Err::<(), EvalError>(EvalError::EmptyBatch),
            n > 0 && old(self).spec_n_past() + n > old(self).spec_cache().spec_n_ctx() ==> r == Err::<(), EvalError>(
                EvalError::ContextWindowExceeded(
                    ContextWindowExceeded {
                        n_past: old(self).spec_n_past() as usize,
                        n,
                        n_ctx: old(self).spec_cache().spec_n_ctx() as usize,
                    },
                ),
            ),
            r is Err ==> *final(self) == *old(self),
            r is Ok <==> (n > 0 && old(self).spec_n_past() + n <= old(self).spec_cache().spec_n_ctx()),
            final(self).wf(),
            final(self).spec_cache().spec_n_layer() == old(self).spec_cache().spec_n_layer(),
            final(self).spec_cache().spec_n_ctx() == old(self).spec_cache().spec_n_ctx(),
            final(self).spec_cache().spec_n_embd() == old(self).spec_cache().spec_n_embd(),
            r is Ok ==> final(self).spec_n_past() == old(self).spec_n_past() + n,
            r is Ok ==> final(self).spec_last_logits() == last_row(logits@, n_vocab as nat, n as nat),
            r is Ok ==> final(self).spec_last_embeddings() == last_row_of(
                embeddings,
                old(self).spec_cache().spec_n_embd(),
                n as nat,
            ),
            r is Ok ==> committed(
                old(self).spec_cache(),
                final(self).spec_cache(),
                old(self).spec_n_past(),
                n as nat,
                rows(keys@),
                rows(values@),
            ),
    {
        if n == 0 {
            return Err(EvalError::EmptyBatch);
        }
        let n_ctx = self.cache.n_ctx();
        if self.n_past > n_ctx || n > n_ctx - self.n_past {
            return Err(
                EvalError::ContextWindowExceeded(
                    ContextWindowExceeded { n_past: self.n_past, n, n_ctx },
                ),
            );
        }
        let ghost pre = *self;
        let ghost l = self.cache.spec_n_layer();
        let ghost c = self.cache.spec_n_ctx();
        let ghost e = self.cache.spec_n_embd();
        let n_layer = self.cache.n_layer();
        let mut il: usize = 0;
        while il < n_layer
            invariant
                pre.wf(),
                self.cache.wf(),
                self.n_past == pre.n_past,
                self.last_logits == pre.last_logits,
                self.last_embeddings == pre.last_embeddings,
                l == pre.spec_cache().spec_n_layer(),
                c == pre.spec_cache().spec_n_ctx(),
                e == pre.spec_cache().spec_n_embd(),
                n_layer == l,
                self.cache.spec_n_layer() == l,
                self.cache.spec_n_ctx() == c,
                self.cache.spec_n_embd() == e,
                il <= l,
                self.n_past + n <= c,
                keys@.len() == l,
                values@.len() == l,
                forall|k: int| 0 <= k < keys@.len() ==> keys@[k]@.len() == n as nat * e,
                forall|k: int| 0 <= k < values@.len() ==> values@[k]@.len() == n as nat * e,
                forall|il2: nat, pos: nat, d: nat|
                    #![trigger self.cache.key(il2, pos, d)]
                    #![trigger self.cache.value(il2, pos, d)]
                    il2 < l && pos < c && d < e ==> {
                        if il2 < il && self.n_past <= pos < self.n_past + n {
                            &&& self.cache.key(il2, pos, d) == keys@[il2 as int]@[(pos - self.n_past) * e + d]
                            &&& self.cache.value(il2, pos, d) == values@[il2 as int]@[(pos - self.n_past) * e + d]
                        } else {
                            &&& self.cache.key(il2, pos, d) == pre.cache.key(il2, pos, d)
                            &&& self.cache.value(il2, pos, d) == pre.cache.value(il2, pos, d)
                        }
                    },
            decreases l - il,
        {
            let ghost prev = self.cache;
            let _ = self.cache.store(il, self.n_past, n, &keys[il], &values[il]);
            proof {
                assert forall|il2: nat, pos: nat, d: nat|
                    #![trigger self.cache.key(il2, pos, d)]
                    #![trigger self.cache.value(il2, pos, d)]
                    il2 < l && pos < c && d < e implies {
                        if il2 < il + 1 && self.n_past <= pos < self.n_past + n {
                            &&& self.cache.key(il2, pos, d) == keys@[il2 as int]@[(pos - self.n_past) * e + d]
                            &&& self.cache.value(il2, pos, d) == values@[il2 as int]@[(pos - self.n_past) * e + d]
                        } else {
                            &&& self.cache.key(il2, pos, d) == pre.cache.key(il2, pos, d)
                            &&& self.cache.value(il2, pos, d) == pre.cache.value(il2, pos, d)
                        }
                    } by {
                }
            }
            il = il + 1;
        }
        proof {
            let kr = rows(keys@);
            let vr = rows(values@);
            assert forall|il2: nat, pos: nat, d: nat|
                #![trigger self.cache.key(il2, pos, d)]
                #![trigger self.cache.value(il2, pos, d)]
                il2 < l && pos < c && d < e implies {
                    if pre.n_past <= pos < pre.n_past + n {
                        &&& self.cache.key(il2, pos, d) == kr[il2 as int][(pos - pre.n_past) * e + d]
                        &&& self.cache.value(il2, pos, d) == vr[il2 as int][(pos - pre.n_past) * e + d]
                    } else {
                        &&& self.cache.key(il2, pos, d) == pre.cache.key(il2, pos, d)
                        &&& self.cache.value(il2, pos, d) == pre.cache.value(il2, pos, d)
                    }
                } by {
                assert(kr[il2 as int] == keys@[il2 as int]@);
                assert(vr[il2 as int] == values@[il2 as int]@);
            }
        }
        self.last_logits = read_last_row(logits, n_vocab, n);
        let n_embd = self.cache.n_embd();
        self.last_embeddings = match embeddings {
            Some(e) => Some(read_last_row(&e, n_embd, n)),
            None => None,
        };
        self.n_past = self.n_past + n;
        Ok(())
    }

    /// The graph of the next step over `tokens`, from the positions cached so far.
    pub fn build_step(&self, h: &Hyperparameters, tokens: &[TokenId]) -> (r: Result<Graph, EvalError>)
        requires
            buildable(*h),
        ensures
            step_error(*h, self.spec_n_past(), tokens@.len()) is Some ==> r == Err::<Graph, EvalError>(
                step_error(*h, self.spec_n_past(), tokens@.len())->Some_0,
            ),
            step_error(*h, self.spec_n_past(), tokens@.len()) is None ==> r is Ok,
            r matches Ok(g) ==> {
                &&& g.nodes@ == graph_ops(*h, self.spec_n_past(), tokens@.len())
                &&& g.expand@ == expand_order(*h, h.n_layer as nat).push(logits_node(*h) as usize)
                &&& g.tokens@ == tokens@
                &&& g.logits == logits_node(*h)
                &&& g.embeddings == embeddings_node(*h)
            },
    {
        build_graph(h, self.n_past, tokens)
    }
}

} // verus!
