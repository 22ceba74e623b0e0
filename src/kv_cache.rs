use vstd::prelude::*;

verus! {

/// A batch of `n` tokens does not fit after the positions already cached.
#[derive(Debug, Clone, Copy, PartialEq, Eq, Structural)]
pub struct ContextWindowExceeded {
    pub n_past: usize,
    pub n: usize,
    pub n_ctx: usize,
}

/// Where key element `d` of position `pos` of layer `il` lies: positions follow one
/// another, each a run of `n_embd` elements.
pub open spec fn key_index(n_ctx: nat, n_embd: nat, il: nat, pos: nat, d: nat) -> nat {
    (il * n_ctx + pos) * n_embd + d
}

/// Where value element `d` of position `pos` of layer `il` lies: transposed, so that the
/// positions of one element form a run of `n_ctx` elements.
pub open spec fn value_index(n_ctx: nat, n_embd: nat, il: nat, pos: nat, d: nat) -> nat {
    (il * n_embd + d) * n_ctx + pos
}

/// A row-major index stays below the end of its last row.
pub proof fn lemma_row_major_bound(r: int, c: int, w: int, rows: int)
    requires
        0 <= r < rows,
        0 <= c < w,
    ensures
        0 <= r * w + c < rows * w,
        r <= r * w + c,
{
    assert(r * w + c < rows * w) by (nonlinear_arith)
        requires
            0 <= r < rows,
            0 <= c < w,
    ;
    assert(0 <= r * w && r <= r * w) by (nonlinear_arith)
        requires
            0 <= r,
            1 <= w,
    ;
}

/// Two row-major indices agree only at the same row and column.
pub proof fn lemma_row_major_injective(r1: int, c1: int, r2: int, c2: int, w: int)
    requires
        0 <= r1,
        0 <= r2,
        0 <= c1 < w,
        0 <= c2 < w,
        r1 * w + c1 == r2 * w + c2,
    ensures
        r1 == r2,
        c1 == c2,
{
    if r1 < r2 {
        assert(r1 * w + w <= r2 * w) by (nonlinear_arith)
            requires
                r1 + 1 <= r2,
                0 <= w,
        ;
    } else if r2 < r1 {
        assert(r2 * w + w <= r1 * w) by (nonlinear_arith)
            requires
                r2 + 1 <= r1,
                0 <= w,
        ;
    }
}

/// Distinct slots of the cache have distinct key indices and distinct value indices.
pub proof fn lemma_indices_injective(
    n_ctx: nat,
    n_embd: nat,
    il1: nat,
    pos1: nat,
    d1: nat,
    il2: nat,
    pos2: nat,
    d2: nat,
)
    requires
        pos1 < n_ctx,
        pos2 < n_ctx,
        d1 < n_embd,
        d2 < n_embd,
    ensures
        key_index(n_ctx, n_embd, il1, pos1, d1) == key_index(n_ctx, n_embd, il2, pos2, d2) ==> (
        il1 == il2 && pos1 == pos2 && d1 == d2),
        value_index(n_ctx, n_embd, il1, pos1, d1) == value_index(n_ctx, n_embd, il2, pos2, d2)
            ==> (il1 == il2 && pos1 == pos2 && d1 == d2),
{
    if key_index(n_ctx, n_embd, il1, pos1, d1) == key_index(n_ctx, n_embd, il2, pos2, d2) {
        assert(0 <= il1 * n_ctx && 0 <= il2 * n_ctx) by (nonlinear_arith);
        lemma_row_major_injective(
            (il1 * n_ctx + pos1) as int,
            d1 as int,
            (il2 * n_ctx + pos2) as int,
            d2 as int,
            n_embd as int,
        );
        lemma_row_major_injective(il1 as int, pos1 as int, il2 as int, pos2 as int, n_ctx as int);
    }
    if value_index(n_ctx, n_embd, il1, pos1, d1) == value_index(n_ctx, n_embd, il2, pos2, d2) {
        assert(0 <= il1 * n_embd && 0 <= il2 * n_embd) by (nonlinear_arith);
        lemma_row_major_injective(
            (il1 * n_embd + d1) as int,
            pos1 as int,
            (il2 * n_embd + d2) as int,
            pos2 as int,
            n_ctx as int,
        );
        lemma_row_major_injective(il1 as int, d1 as int, il2 as int, d2 as int, n_embd as int);
    }
}

/// Every slot of the cache has its key index and its value index inside the buffers.
pub proof fn lemma_indices_in_bounds(n_layer: nat, n_ctx: nat, n_embd: nat, il: nat, pos: nat, d: nat)
    requires
        il < n_layer,
        pos < n_ctx,
        d < n_embd,
    ensures
        key_index(n_ctx, n_embd, il, pos, d) < n_layer * n_ctx * n_embd,
        value_index(n_ctx, n_embd, il, pos, d) < n_layer * n_ctx * n_embd,
        il * n_ctx + pos <= key_index(n_ctx, n_embd, il, pos, d),
        il * n_embd + d <= value_index(n_ctx, n_embd, il, pos, d),
{
    lemma_row_major_bound(il as int, pos as int, n_ctx as int, n_layer as int);
    lemma_row_major_bound((il * n_ctx + pos) as int, d as int, n_embd as int, (n_layer * n_ctx) as int);
    lemma_row_major_bound(il as int, d as int, n_embd as int, n_layer as int);
    lemma_row_major_bound((il * n_embd + d) as int, pos as int, n_ctx as int, (n_layer * n_embd) as int);
    assert(n_layer * n_embd * n_ctx == n_layer * n_ctx * n_embd) by (nonlinear_arith);
}

/// The slot for element `d` of position `pos` of layer `il` has been written by a store of
/// `n` positions from `n_past` that reached batch position `t`, element `e`.
pub open spec fn stored_before(il: nat, n_past: nat, t: nat, e: nat, il2: nat, pos: nat, d: nat) -> bool {
    il2 == il && n_past <= pos && (pos < n_past + t || (pos == n_past + t && d < e))
}

/// The keys and values of every layer and position of one session, in two buffers of
/// `n_layer * n_ctx * n_embd` elements, allocated once at full size.
pub struct KvCache<T> {
    n_layer: usize,
    n_ctx: usize,
    n_embd: usize,
    keys: Vec<T>,
    values: Vec<T>,
}

impl<T: Copy> KvCache<T> {
    pub closed spec fn spec_n_layer(&self) -> nat {
        self.n_layer as nat
    }

    pub closed spec fn spec_n_ctx(&self) -> nat {
        self.n_ctx as nat
    }

    pub closed spec fn spec_n_embd(&self) -> nat {
        self.n_embd as nat
    }

    pub open spec fn size(&self) -> nat {
        self.spec_n_layer() * self.spec_n_ctx() * self.spec_n_embd()
    }

    /// Both buffers hold exactly one element per layer, position and embedding element.
    pub open spec fn wf(&self) -> bool {
        &&& self.key_buffer().len() == self.size()
        &&& self.value_buffer().len() == self.size()
        &&& self.size() <= usize::MAX
    }

    /// The cached key element `d` of position `pos` of layer `il`.
    pub open spec fn key(&self, il: nat, pos: nat, d: nat) -> T {
        self.key_buffer()[key_index(self.spec_n_ctx(), self.spec_n_embd(), il, pos, d) as int]
    }

    /// The cached value element `d` of position `pos` of layer `il`.
    pub open spec fn value(&self, il: nat, pos: nat, d: nat) -> T {
        self.value_buffer()[value_index(self.spec_n_ctx(), self.spec_n_embd(), il, pos, d) as int]
    }

    pub closed spec fn key_buffer(&self) -> Seq<T> {
        self.keys@
    }

    pub closed spec fn value_buffer(&self) -> Seq<T> {
        self.values@
    }

    /// A cache for `n_layer` layers of `n_ctx` positions of width `n_embd`, every element
    /// set to `zero`.
    pub fn new(n_layer: usize, n_ctx: usize, n_embd: usize, zero: T) -> (r: Self)
        requires
            n_layer as nat * n_ctx as nat * n_embd as nat <= usize::MAX,
        ensures
            r.wf(),
            r.spec_n_layer() == n_layer,
            r.spec_n_ctx() == n_ctx,
            r.spec_n_embd() == n_embd,
            forall|i: int| 0 <= i < r.size() ==> r.key_buffer()[i] == zero && r.value_buffer()[i]
                == zero,
    {
        assert(n_layer as nat * n_ctx as nat <= u128::MAX) by (nonlinear_arith)
            requires
                n_layer <= usize::MAX,
                n_ctx <= usize::MAX,
                usize::MAX < 0x1_0000_0000_0000_0000,
        ;
        let a = n_layer as u128 * n_ctx as u128;
        assert(a * n_embd as u128 <= usize::MAX) by (nonlinear_arith)
            requires
                a == n_layer as nat * n_ctx as nat,
                n_layer as nat * n_ctx as nat * n_embd as nat <= usize::MAX,
        ;
        let size = (a * n_embd as u128) as usize;
        let mut keys: Vec<T> = Vec::new();
        let mut values: Vec<T> = Vec::new();
        let mut i: usize = 0;
        while i < size
            invariant
                i <= size,
                keys@.len() == i,
                values@.len() == i,
                forall|j: int| 0 <= j < i ==> keys@[j] == zero && values@[j] == zero,
            decreases size - i,
        {
            keys.push(zero);
            values.push(zero);
            i = i + 1;
        }
        KvCache { n_layer, n_ctx, n_embd, keys, values }
    }

    /// The buffer index of key element `d` of position `pos` of layer `il`.
    fn key_slot(&self, il: usize, pos: usize, d: usize) -> (r: usize)
        requires
            self.wf(),
            il < self.spec_n_layer(),
            pos < self.spec_n_ctx(),
            d < self.spec_n_embd(),
        ensures
            r == key_index(self.spec_n_ctx(), self.spec_n_embd(), il as nat, pos as nat, d as nat),
            r < self.size(),
    {
        proof {
            lemma_indices_in_bounds(self.n_layer as nat, self.n_ctx as nat, self.n_embd as nat, il as nat, pos as nat, d as nat);
            assert(il * self.n_ctx <= il * self.n_ctx + pos);
            assert((il * self.n_ctx + pos) * self.n_embd <= (il * self.n_ctx + pos) * self.n_embd + d);
        }
        (il * self.n_ctx + pos) * self.n_embd + d
    }

    /// The buffer index of value element `d` of position `pos` of layer `il`.
    fn value_slot(&self, il: usize, pos: usize, d: usize) -> (r: usize)
        requires
            self.wf(),
            il < self.spec_n_layer(),
            pos < self.spec_n_ctx(),
            d < self.spec_n_embd(),
        ensures
            r == value_index(self.spec_n_ctx(), self.spec_n_embd(), il as nat, pos as nat, d as nat),
            r < self.size(),
    {
        proof {
            lemma_indices_in_bounds(self.n_layer as nat, self.n_ctx as nat, self.n_embd as nat, il as nat, pos as nat, d as nat);
            assert(il * self.n_embd <= il * self.n_embd + d);
            assert((il * self.n_embd + d) * self.n_ctx <= (il * self.n_embd + d) * self.n_ctx + pos);
        }
        (il * self.n_embd + d) * self.n_ctx + pos
    }

    /// Writes the keys and values of `n` new positions of layer `il`, from position `n_past`
    /// on. `kcur` and `vcur` hold one run of `n_embd` elements per new position. Where the
    /// positions would pass the context window, nothing is written.
    pub fn store(&mut self, il: usize, n_past: usize, n: usize, kcur: &Vec<T>, vcur: &Vec<T>) -> (r:
        Result<(), ContextWindowExceeded>)
        requires
            old(self).wf(),
            il < old(self).spec_n_layer(),
            kcur@.len() == n as nat * old(self).spec_n_embd(),
            vcur@.len() == n as nat * old(self).spec_n_embd(),
        ensures
            n_past + n > old(self).spec_n_ctx() ==> r == Err::<(), ContextWindowExceeded>(
                ContextWindowExceeded { n_past, n, n_ctx: old(self).spec_n_ctx() as usize },
            ) && *final(self) == *old(self),
            n_past + n <= old(self).spec_n_ctx() ==> r is Ok,
            final(self).wf(),
            final(self).spec_n_layer() == old(self).spec_n_layer(),
            final(self).spec_n_ctx() == old(self).spec_n_ctx(),
            final(self).spec_n_embd() == old(self).spec_n_embd(),
            n_past + n <= old(self).spec_n_ctx() ==> forall|il2: nat, pos: nat, d: nat|
                #![trigger final(self).key(il2, pos, d)]
                #![trigger final(self).value(il2, pos, d)]
                il2 < old(self).spec_n_layer() && pos < old(self).spec_n_ctx() && d < old(
                    self,
                ).spec_n_embd() ==> {
                    if il2 == il && n_past <= pos < n_past + n {
                        &&& final(self).key(il2, pos, d) == kcur@[(pos - n_past) * old(self).spec_n_embd() + d]
                        &&& final(self).value(il2, pos, d) == vcur@[(pos - n_past) * old(self).spec_n_embd() + d]
                    } else {
                        &&& final(self).key(il2, pos, d) == old(self).key(il2, pos, d)
                        &&& final(self).value(il2, pos, d) == old(self).value(il2, pos, d)
                    }
                },
    {
        if n_past > self.n_ctx || n > self.n_ctx - n_past {
            return Err(ContextWindowExceeded { n_past, n, n_ctx: self.n_ctx });
        }
        let ghost pre = *self;
        let ghost l = self.n_layer as nat;
        let ghost c = self.n_ctx as nat;
        let ghost e = self.n_embd as nat;
        let kn = kcur.len();
        let mut t: usize = 0;
        while t < n
            invariant
                kn == kcur@.len(),
                pre.wf(),
                self.wf(),
                self.n_layer == pre.n_layer,
                self.n_ctx == pre.n_ctx,
                self.n_embd == pre.n_embd,
                l == pre.spec_n_layer(),
                c == pre.spec_n_ctx(),
                e == pre.spec_n_embd(),
                il < l,
                n_past + n <= c,
                t <= n,
                kcur@.len() == n * e,
                vcur@.len() == n * e,
                forall|il2: nat, pos: nat, d: nat|
                    #![trigger self.key(il2, pos, d)]
                    #![trigger self.value(il2, pos, d)]
                    il2 < l && pos < c && d < e ==> {
                        if stored_before(il as nat, n_past as nat, t as nat, 0, il2, pos, d) {
                            &&& self.key(il2, pos, d) == kcur@[(pos - n_past) * e + d]
                            &&& self.value(il2, pos, d) == vcur@[(pos - n_past) * e + d]
                        } else {
                            &&& self.key(il2, pos, d) == pre.key(il2, pos, d)
                            &&& self.value(il2, pos, d) == pre.value(il2, pos, d)
                        }
                    },
            decreases n - t,
        {
            let mut d: usize = 0;
            while d < self.n_embd
                invariant
                    kn == kcur@.len(),
                    pre.wf(),
                    self.wf(),
                    self.n_layer == pre.n_layer,
                    self.n_ctx == pre.n_ctx,
                    self.n_embd == pre.n_embd,
                    l == pre.spec_n_layer(),
                    c == pre.spec_n_ctx(),
                    e == pre.spec_n_embd(),
                    il < l,
                    n_past + n <= c,
                    t < n,
                    d <= e,
                    kcur@.len() == n * e,
                    vcur@.len() == n * e,
                    forall|il2: nat, pos: nat, d2: nat|
                        #![trigger self.key(il2, pos, d2)]
                        #![trigger self.value(il2, pos, d2)]
                        il2 < l && pos < c && d2 < e ==> {
                            if stored_before(il as nat, n_past as nat, t as nat, d as nat, il2, pos, d2) {
                                &&& self.key(il2, pos, d2) == kcur@[(pos - n_past) * e + d2]
                                &&& self.value(il2, pos, d2) == vcur@[(pos - n_past) * e + d2]
                            } else {
                                &&& self.key(il2, pos, d2) == pre.key(il2, pos, d2)
                                &&& self.value(il2, pos, d2) == pre.value(il2, pos, d2)
                            }
                        },
                decreases e - d,
            {
                let pos = n_past + t;
                let ki = self.key_slot(il, pos, d);
                let vi = self.value_slot(il, pos, d);
                proof {
                    lemma_row_major_bound(t as int, d as int, e as int, n as int);
                    assert(t * e + d < n * e);
                    assert(t * self.n_embd + d < kcur@.len());
                }
                let src = t * self.n_embd + d;
                let ghost prev = *self;
                self.keys.set(ki, kcur[src]);
                self.values.set(vi, vcur[src]);
                proof {
                    assert forall|il2: nat, pos2: nat, d2: nat|
                        #![trigger self.key(il2, pos2, d2)]
                        #![trigger self.value(il2, pos2, d2)]
                        il2 < l && pos2 < c && d2 < e implies {
                            if stored_before(il as nat, n_past as nat, t as nat, (d + 1) as nat, il2, pos2, d2) {
                                &&& self.key(il2, pos2, d2) == kcur@[(pos2 - n_past) * e + d2]
                                &&& self.value(il2, pos2, d2) == vcur@[(pos2 - n_past) * e + d2]
                            } else {
                                &&& self.key(il2, pos2, d2) == pre.key(il2, pos2, d2)
                                &&& self.value(il2, pos2, d2) == pre.value(il2, pos2, d2)
                            }
                        } by {
                        lemma_indices_injective(c, e, il as nat, pos as nat, d as nat, il2, pos2, d2);
                        lemma_indices_in_bounds(l, c, e, il2, pos2, d2);
                        let k2 = key_index(c, e, il2, pos2, d2);
                        let v2 = value_index(c, e, il2, pos2, d2);
                        if il2 == il && pos2 == pos && d2 == d {
                            assert(self.keys@[k2 as int] == kcur@[src as int]);
                            assert(self.values@[v2 as int] == vcur@[src as int]);
                            assert((pos2 - n_past) * e + d2 == src);
                        } else {
                            assert(k2 != ki);
                            assert(v2 != vi);
                            assert(self.keys@[k2 as int] == prev.keys@[k2 as int]);
                            assert(self.values@[v2 as int] == prev.values@[v2 as int]);
                            assert(prev.key(il2, pos2, d2) == prev.keys@[k2 as int]);
                            assert(prev.value(il2, pos2, d2) == prev.values@[v2 as int]);
                        }
                    }
                }
                d = d + 1;
            }
            proof {
                assert forall|il2: nat, pos2: nat, d2: nat|
                    il2 < l && pos2 < c && d2 < e implies stored_before(il as nat, n_past as nat, t as nat, e, il2, pos2, d2)
                        == stored_before(il as nat, n_past as nat, (t + 1) as nat, 0, il2, pos2, d2) by {}
            }
            t = t + 1;
        }
        Ok(())
    }

    pub fn n_layer(&self) -> (r: usize)
        ensures
            r == self.spec_n_layer(),
    {
        self.n_layer
    }

    pub fn n_ctx(&self) -> (r: usize)
        ensures
            r == self.spec_n_ctx(),
    {
        self.n_ctx
    }

    pub fn n_embd(&self) -> (r: usize)
        ensures
            r == self.spec_n_embd(),
    {
        self.n_embd
    }

    /// The whole key buffer.
    pub fn keys(&self) -> (r: &Vec<T>)
        ensures
            r@ == self.key_buffer(),
    {
        &self.keys
    }

    /// The whole value buffer.
    pub fn values(&self) -> (r: &Vec<T>)
        ensures
            r@ == self.value_buffer(),
    {
        &self.values
    }
}

} // verus!
