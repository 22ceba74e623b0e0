use vstd::prelude::*;
use crate::hyperparameters::Hyperparameters;
use crate::kv_cache::{key_index, value_index, ContextWindowExceeded};

verus! {

/// A token of the vocabulary.
pub type TokenId = i32;

/// The weights that a graph reads, by role; per-layer weights carry their layer.
#[derive(Debug, Clone, Copy, PartialEq, Eq, Structural)]
pub enum WeightId {
    TokenEmbedding,
    FinalNormScale,
    FinalNormBias,
    HeadWeight,
    HeadBias,
    NormScale(usize),
    NormBias(usize),
    Query(usize),
    Key(usize),
    Value(usize),
    AttentionOut(usize),
    FeedForwardIn(usize),
    FeedForwardInBias(usize),
    FeedForwardOut(usize),
    FeedForwardOutBias(usize),
}

/// One node of a graph. Operands are indices of earlier nodes; view offsets, lengths and
/// strides count elements.
#[derive(Debug, Clone, Copy, PartialEq, Eq, Structural)]
pub enum Op {
    /// The input tokens.
    Tokens,
    /// A weight of the model.
    Weight(WeightId),
    /// The session's key buffer.
    CacheKeys,
    /// The session's value buffer.
    CacheValues,
    /// Rows of a table, one per index.
    GetRows { table: usize, rows: usize },
    /// Normalization of each column.
    Norm(usize),
    /// `a` repeated to the shape of `like`.
    Repeat { a: usize, like: usize },
    Mul(usize, usize),
    Add(usize, usize),
    MulMat(usize, usize),
    Reshape3d { src: usize, ne0: usize, ne1: usize, ne2: usize },
    /// Rotary position encoding of the first `n_rot` elements, from position `n_past`.
    Rope { src: usize, n_past: usize, n_rot: usize },
    Transpose(usize),
    View1d { src: usize, len: usize, offset: usize },
    View2d { src: usize, ne0: usize, ne1: usize, stride1: usize, offset: usize },
    View3d {
        src: usize,
        ne0: usize,
        ne1: usize,
        ne2: usize,
        stride1: usize,
        stride2: usize,
        offset: usize,
    },
    /// Copies `src` into `dst`.
    Copy { src: usize, dst: usize },
    /// Swaps the second and third axes.
    PermuteHeads(usize),
    /// Scales by the inverse square root of `head_dim`.
    ScaleInvSqrt { src: usize, head_dim: usize },
    /// Sets to negative infinity every score of query `i` at a key position past `n_past + i`.
    DiagMaskInf { src: usize, n_past: usize },
    SoftMax(usize),
    Gelu(usize),
    /// A fresh matrix of `ne0` by `ne1` elements.
    NewMatrix { ne0: usize, ne1: usize },
}

/// The number of nodes before the first layer: tokens, token embedding table, their
/// lookup, and the two cache buffers.
pub const HEAD_NODES: usize = 5;
/// The number of nodes of one layer.
pub const LAYER_NODES: usize = 50;
/// The number of nodes after the last layer.
pub const TAIL_NODES: usize = 12;

pub const TOKENS_NODE: usize = 0;
pub const EMBEDDING_NODE: usize = 2;
pub const KEYS_NODE: usize = 3;
pub const VALUES_NODE: usize = 4;

/// The nodes before the first layer.
pub open spec fn head_ops() -> Seq<Op> {
    seq![
        Op::Tokens,
        Op::Weight(WeightId::TokenEmbedding),
        Op::GetRows { table: 1, rows: 0 },
        Op::CacheKeys,
        Op::CacheValues,
    ]
}

/// Where the block of layer `il` starts.
pub open spec fn layer_base(il: nat) -> nat {
    HEAD_NODES as nat + il * LAYER_NODES as nat
}

/// The node that holds the input of layer `il`: the embeddings, or the output of the layer before.
pub open spec fn layer_input(il: nat) -> nat {
    if il == 0 {
        EMBEDDING_NODE as nat
    } else {
        (layer_base(il) - 1) as nat
    }
}

/// The nodes of layer `il` of a step of `n` tokens after `n_past` cached positions, placed
/// from index `b`, reading its input from node `inp`.
pub open spec fn layer_ops(h: Hyperparameters, n_past: nat, n: nat, il: nat, b: nat, inp: nat) -> Seq<
    Op,
> {
    let hd = (h.n_embd / h.n_head) as usize;
    let ctx = h.n_ctx as nat;
    let e = h.n_embd as nat;
    let l = il as usize;
    let u = |k: nat| (b + k) as usize;
    seq![
        Op::Norm(inp as usize),
        Op::Weight(WeightId::NormScale(l)),
        Op::Repeat { a: u(1), like: u(0) },
        Op::Mul(u(2), u(0)),
        Op::Weight(WeightId::NormBias(l)),
        Op::Repeat { a: u(4), like: u(0) },
        Op::Add(u(3), u(5)),
        Op::Weight(WeightId::Query(l)),
        Op::MulMat(u(7), u(6)),
        Op::Reshape3d { src: u(8), ne0: hd, ne1: h.n_head, ne2: n as usize },
        Op::Rope { src: u(9), n_past: n_past as usize, n_rot: h.n_rot },
        Op::Weight(WeightId::Key(l)),
        Op::MulMat(u(11), u(6)),
        Op::Reshape3d { src: u(12), ne0: hd, ne1: h.n_head, ne2: n as usize },
        Op::Rope { src: u(13), n_past: n_past as usize, n_rot: h.n_rot },
        Op::Weight(WeightId::Value(l)),
        Op::MulMat(u(15), u(6)),
        Op::Transpose(u(16)),
        Op::View1d {
            src: KEYS_NODE,
            len: (n * e) as usize,
            offset: key_index(ctx, e, il, n_past, 0) as usize,
        },
        Op::View2d {
            src: VALUES_NODE,
            ne0: n as usize,
            ne1: h.n_embd,
            stride1: h.n_ctx,
            offset: value_index(ctx, e, il, n_past, 0) as usize,
        },
        Op::Copy { src: u(14), dst: u(18) },
        Op::Copy { src: u(17), dst: u(19) },
        Op::PermuteHeads(u(10)),
        Op::View1d {
            src: KEYS_NODE,
            len: ((n_past + n) * e) as usize,
            offset: key_index(ctx, e, il, 0, 0) as usize,
        },
        Op::Reshape3d { src: u(23), ne0: hd, ne1: h.n_head, ne2: (n_past + n) as usize },
        Op::PermuteHeads(u(24)),
        Op::MulMat(u(25), u(22)),
        Op::ScaleInvSqrt { src: u(26), head_dim: hd },
        Op::DiagMaskInf { src: u(27), n_past: n_past as usize },
        Op::SoftMax(u(28)),
        Op::View3d {
            src: VALUES_NODE,
            ne0: (n_past + n) as usize,
            ne1: hd,
            ne2: h.n_head,
            stride1: h.n_ctx,
            stride2: (ctx * hd) as usize,
            offset: value_index(ctx, e, il, 0, 0) as usize,
        },
        Op::MulMat(u(30), u(29)),
        Op::PermuteHeads(u(31)),
        Op::NewMatrix { ne0: h.n_embd, ne1: n as usize },
        Op::Copy { src: u(32), dst: u(33) },
        Op::Weight(WeightId::AttentionOut(l)),
        Op::MulMat(u(35), u(34)),
        Op::Weight(WeightId::FeedForwardIn(l)),
        Op::MulMat(u(37), u(6)),
        Op::Weight(WeightId::FeedForwardInBias(l)),
        Op::Repeat { a: u(39), like: u(38) },
        Op::Add(u(40), u(38)),
        Op::Gelu(u(41)),
        Op::Weight(WeightId::FeedForwardOut(l)),
        Op::MulMat(u(43), u(42)),
        Op::Weight(WeightId::FeedForwardOutBias(l)),
        Op::Repeat { a: u(45), like: u(44) },
        Op::Add(u(46), u(44)),
        Op::Add(u(47), u(36)),
        Op::Add(u(48), inp as usize),
    ]
}

/// The nodes after the last layer, placed from index `t` and reading the output of the
/// layers from node `inp`: final normalization, then the vocabulary projection.
pub open spec fn tail_ops(t: nat, inp: nat) -> Seq<Op> {
    let u = |k: nat| (t + k) as usize;
    seq![
        Op::Norm(inp as usize),
        Op::Weight(WeightId::FinalNormScale),
        Op::Repeat { a: u(1), like: u(0) },
        Op::Mul(u(2), u(0)),
        Op::Weight(WeightId::FinalNormBias),
        Op::Repeat { a: u(4), like: u(0) },
        Op::Add(u(3), u(5)),
        Op::Weight(WeightId::HeadWeight),
        Op::MulMat(u(7), u(6)),
        Op::Weight(WeightId::HeadBias),
        Op::Repeat { a: u(9), like: u(8) },
        Op::Add(u(10), u(8)),
    ]
}

/// The nodes of the first `k` layers.
pub open spec fn layers_ops(h: Hyperparameters, n_past: nat, n: nat, k: nat) -> Seq<Op>
    decreases k,
{
    if k == 0 {
        Seq::empty()
    } else {
        layers_ops(h, n_past, n, (k - 1) as nat) + layer_ops(
            h,
            n_past,
            n,
            (k - 1) as nat,
            layer_base((k - 1) as nat),
            layer_input((k - 1) as nat),
        )
    }
}

/// The whole graph of one step of `n` tokens after `n_past` cached positions.
pub open spec fn graph_ops(h: Hyperparameters, n_past: nat, n: nat) -> Seq<Op> {
    head_ops() + layers_ops(h, n_past, n, h.n_layer as nat) + tail_ops(
        layer_base(h.n_layer as nat),
        layer_input(h.n_layer as nat),
    )
}

/// The node that holds the logits.
pub open spec fn logits_node(h: Hyperparameters) -> nat {
    (layer_base(h.n_layer as nat) + TAIL_NODES - 1) as nat
}

/// The node that holds the final-layer embeddings.
pub open spec fn embeddings_node(h: Hyperparameters) -> nat {
    layer_base(h.n_layer as nat) + 6
}

/// The nodes that the executor is asked to compute, in order: the two cache writes of
/// each layer, then the logits.
pub open spec fn expand_order(h: Hyperparameters, k: nat) -> Seq<usize>
    decreases k,
{
    if k == 0 {
        Seq::empty()
    } else {
        expand_order(h, (k - 1) as nat) + seq![
            (layer_base((k - 1) as nat) + 20) as usize,
            (layer_base((k - 1) as nat) + 21) as usize,
        ]
    }
}

/// The shapes under which a graph can be built: at least one head, a cache whose size
/// fits in memory, and a node count that fits in an index.
#[verifier::opaque]
pub open spec fn buildable(h: Hyperparameters) -> bool {
    &&& h.n_head > 0
    &&& h.n_layer as nat * h.n_ctx as nat * h.n_embd as nat <= usize::MAX
    &&& HEAD_NODES + h.n_layer as nat * LAYER_NODES + TAIL_NODES <= usize::MAX
}

/// The offsets and lengths of the views of layer `il` lie within the cache buffers, and
/// the nodes of the layer get indices below the largest `usize`.
proof fn lemma_layer_sizes(h: Hyperparameters, n_past: nat, n: nat, il: nat)
    requires
        buildable(h),
        il < h.n_layer,
        1 <= n,
        n_past + n <= h.n_ctx,
    ensures
        layer_base(il) + LAYER_NODES <= usize::MAX,
        il * h.n_embd * h.n_ctx + n_past * h.n_embd <= usize::MAX,
        il * h.n_embd * h.n_ctx + n_past * h.n_embd == (il * h.n_ctx + n_past) * h.n_embd,
        il * h.n_embd * h.n_ctx == il * h.n_ctx * h.n_embd,
        il * h.n_embd * h.n_ctx <= usize::MAX,
        il * h.n_embd <= usize::MAX,
        il * h.n_embd * h.n_ctx + n_past <= usize::MAX,
        n * h.n_embd <= usize::MAX,
        (n_past + n) * h.n_embd <= usize::MAX,
        h.n_ctx * (h.n_embd / h.n_head) <= usize::MAX,
        h.n_head > 0,
{
    reveal(buildable);
    let ctx = h.n_ctx as nat;
    let e = h.n_embd as nat;
    let l = h.n_layer as nat;
    assert(layer_base(il) + LAYER_NODES <= usize::MAX) by (nonlinear_arith)
        requires
            il < l,
            HEAD_NODES + l * LAYER_NODES + TAIL_NODES <= usize::MAX,
            layer_base(il) == HEAD_NODES + il * LAYER_NODES,
    ;
    assert(il * ctx * e + ctx * e <= l * ctx * e) by (nonlinear_arith)
        requires
            il < l,
    ;
    assert((n_past + n) * e <= ctx * e) by (nonlinear_arith)
        requires
            n_past + n <= ctx,
    ;
    assert(n * e <= (n_past + n) * e) by (nonlinear_arith);
    assert((il * ctx + n_past) * e == il * ctx * e + n_past * e) by (nonlinear_arith);
    assert(n_past * e <= ctx * e) by (nonlinear_arith)
        requires
            n_past <= ctx,
    ;
    assert(il * ctx * e == il * e * ctx) by (nonlinear_arith);
    assert(il * e <= il * e * ctx) by (nonlinear_arith)
        requires
            ctx >= 1,
    ;
    if e == 0 {
        assert(il * e * ctx == 0) by (nonlinear_arith)
            requires
                e == 0,
        ;
        assert(n_past * e == 0) by (nonlinear_arith)
            requires
                e == 0,
        ;
    } else {
        assert(ctx <= e * ctx) by (nonlinear_arith)
            requires
                e >= 1,
        ;
        assert(il * e * ctx + e * ctx <= l * ctx * e) by (nonlinear_arith)
            requires
                il * ctx * e + ctx * e <= l * ctx * e,
                il * ctx * e == il * e * ctx,
        ;
    }
    assert(ctx * (e / h.n_head as nat) <= ctx * e) by (nonlinear_arith)
        requires
            h.n_head > 0,
    ;
}

/// Every layer's block, and the nodes after the last layer, get indices below the largest `usize`.
proof fn lemma_node_count(h: Hyperparameters, il: nat)
    requires
        buildable(h),
        il <= h.n_layer,
    ensures
        layer_base(il) + LAYER_NODES + TAIL_NODES <= usize::MAX + LAYER_NODES,
        il < h.n_layer ==> layer_base(il) + LAYER_NODES <= usize::MAX,
        layer_base(il) + TAIL_NODES <= usize::MAX,
{
    reveal(buildable);
    assert(il * LAYER_NODES <= h.n_layer * LAYER_NODES) by (nonlinear_arith)
        requires
            il <= h.n_layer,
    ;
    if il < h.n_layer {
        assert(il * LAYER_NODES + LAYER_NODES <= h.n_layer * LAYER_NODES) by (nonlinear_arith)
            requires
                il < h.n_layer,
        ;
    }
}

/// Appends the nodes of layer `il`.
#[verifier::rlimit(100)]
fn push_layer(nodes: &mut Vec<Op>, h: &Hyperparameters, n_past: usize, n: usize, il: usize, inp: usize)
    requires
        buildable(*h),
        il < h.n_layer,
        1 <= n,
        n_past + n <= h.n_ctx,
        old(nodes)@.len() == layer_base(il as nat),
        inp == layer_input(il as nat),
    ensures
        final(nodes)@ == old(nodes)@ + layer_ops(*h, n_past as nat, n as nat, il as nat, layer_base(il as nat), inp as nat),
{
    proof {
        lemma_layer_sizes(*h, n_past as nat, n as nat, il as nat);
    }
    let b = nodes.len();
    let hd = h.n_embd / h.n_head;
    let v_base = il * h.n_embd * h.n_ctx;
    let k_off = v_base + n_past * h.n_embd;
    let k_base = v_base;
    let v_off = v_base + n_past;
    let k_len = n * h.n_embd;
    let kv_len = (n_past + n) * h.n_embd;
    let v_stride2 = h.n_ctx * hd;
    nodes.push(Op::Norm(inp));
    nodes.push(Op::Weight(WeightId::NormScale(il)));
    nodes.push(Op::Repeat { a: b + 1, like: b });
    nodes.push(Op::Mul(b + 2, b));
    nodes.push(Op::Weight(WeightId::NormBias(il)));
    nodes.push(Op::Repeat { a: b + 4, like: b });
    nodes.push(Op::Add(b + 3, b + 5));
    nodes.push(Op::Weight(WeightId::Query(il)));
    nodes.push(Op::MulMat(b + 7, b + 6));
    nodes.push(Op::Reshape3d { src: b + 8, ne0: hd, ne1: h.n_head, ne2: n });
    nodes.push(Op::Rope { src: b + 9, n_past, n_rot: h.n_rot });
    nodes.push(Op::Weight(WeightId::Key(il)));
    nodes.push(Op::MulMat(b + 11, b + 6));
    nodes.push(Op::Reshape3d { src: b + 12, ne0: hd, ne1: h.n_head, ne2: n });
    nodes.push(Op::Rope { src: b + 13, n_past, n_rot: h.n_rot });
    nodes.push(Op::Weight(WeightId::Value(il)));
    nodes.push(Op::MulMat(b + 15, b + 6));
    nodes.push(Op::Transpose(b + 16));
    nodes.push(Op::View1d { src: KEYS_NODE, len: k_len, offset: k_off });
    nodes.push(Op::View2d { src: VALUES_NODE, ne0: n, ne1: h.n_embd, stride1: h.n_ctx, offset: v_off });
    nodes.push(Op::Copy { src: b + 14, dst: b + 18 });
    nodes.push(Op::Copy { src: b + 17, dst: b + 19 });
    nodes.push(Op::PermuteHeads(b + 10));
    nodes.push(Op::View1d { src: KEYS_NODE, len: kv_len, offset: k_base });
    nodes.push(Op::Reshape3d { src: b + 23, ne0: hd, ne1: h.n_head, ne2: n_past + n });
    nodes.push(Op::PermuteHeads(b + 24));
    nodes.push(Op::MulMat(b + 25, b + 22));
    nodes.push(Op::ScaleInvSqrt { src: b + 26, head_dim: hd });
    nodes.push(Op::DiagMaskInf { src: b + 27, n_past });
    nodes.push(Op::SoftMax(b + 28));
    nodes.push(
        Op::View3d {
            src: VALUES_NODE,
            ne0: n_past + n,
            ne1: hd,
            ne2: h.n_head,
            stride1: h.n_ctx,
            stride2: v_stride2,
            offset: v_base,
        },
    );
    nodes.push(Op::MulMat(b + 30, b + 29));
    nodes.push(Op::PermuteHeads(b + 31));
    nodes.push(Op::NewMatrix { ne0: h.n_embd, ne1: n });
    nodes.push(Op::Copy { src: b + 32, dst: b + 33 });
    nodes.push(Op::Weight(WeightId::AttentionOut(il)));
    nodes.push(Op::MulMat(b + 35, b + 34));
    nodes.push(Op::Weight(WeightId::FeedForwardIn(il)));
    nodes.push(Op::MulMat(b + 37, b + 6));
    nodes.push(Op::Weight(WeightId::FeedForwardInBias(il)));
    nodes.push(Op::Repeat { a: b + 39, like: b + 38 });
    nodes.push(Op::Add(b + 40, b + 38));
    nodes.push(Op::Gelu(b + 41));
    nodes.push(Op::Weight(WeightId::FeedForwardOut(il)));
    nodes.push(Op::MulMat(b + 43, b + 42));
    nodes.push(Op::Weight(WeightId::FeedForwardOutBias(il)));
    nodes.push(Op::Repeat { a: b + 45, like: b + 44 });
    nodes.push(Op::Add(b + 46, b + 44));
    nodes.push(Op::Add(b + 47, b + 36));
    nodes.push(Op::Add(b + 48, inp));
    assert(nodes@ =~= old(nodes)@ + layer_ops(*h, n_past as nat, n as nat, il as nat, layer_base(il as nat), inp as nat));
}

/// The graph of one step: its nodes, the nodes to compute in order, the input tokens, the
/// node that holds the logits, and the node that holds the final-layer embeddings (the
/// output of the last layer after the final normalization, one column of `n_embd` per
/// position, which the vocabulary projection reads).
pub struct Graph {
    pub nodes: Vec<Op>,
    pub expand: Vec<usize>,
    pub tokens: Vec<TokenId>,
    pub logits: usize,
    pub embeddings: usize,
}

/// Why a step cannot be taken.
#[derive(Debug, Clone, Copy, PartialEq, Eq, Structural)]
pub enum EvalError {
    /// No input tokens.
    EmptyBatch,
    /// The tokens would pass the context window.
    ContextWindowExceeded(ContextWindowExceeded),
}

/// What building the graph of a step of `n` tokens after `n_past` cached positions gives,
/// but for the graph itself.
pub open spec fn step_error(h: Hyperparameters, n_past: nat, n: nat) -> Option<EvalError> {
    if n == 0 {
        Some(EvalError::EmptyBatch)
    } else if n_past + n > h.n_ctx {
        Some(
            EvalError::ContextWindowExceeded(
                ContextWindowExceeded { n_past: n_past as usize, n: n as usize, n_ctx: h.n_ctx },
            ),
        )
    } else {
        None
    }
}

/// The first `k` layers take `LAYER_NODES` nodes each.
pub proof fn lemma_layers_len(h: Hyperparameters, n_past: nat, n: nat, k: nat)
    ensures
        layers_ops(h, n_past, n, k).len() == k * LAYER_NODES,
    decreases k,
{
    if k > 0 {
        lemma_layers_len(h, n_past, n, (k - 1) as nat);
        assert((k - 1) * LAYER_NODES + LAYER_NODES == k * LAYER_NODES) by (nonlinear_arith);
    }
}

/// Appends the nodes after the last layer.
fn push_tail(nodes: &mut Vec<Op>, inp: usize)
    requires
        old(nodes)@.len() + TAIL_NODES <= usize::MAX,
    ensures
        final(nodes)@ == old(nodes)@ + tail_ops(old(nodes)@.len(), inp as nat),
{
    let t = nodes.len();
    nodes.push(Op::Norm(inp));
    nodes.push(Op::Weight(WeightId::FinalNormScale));
    nodes.push(Op::Repeat { a: t + 1, like: t });
    nodes.push(Op::Mul(t + 2, t));
    nodes.push(Op::Weight(WeightId::FinalNormBias));
    nodes.push(Op::Repeat { a: t + 4, like: t });
    nodes.push(Op::Add(t + 3, t + 5));
    nodes.push(Op::Weight(WeightId::HeadWeight));
    nodes.push(Op::MulMat(t + 7, t + 6));
    nodes.push(Op::Weight(WeightId::HeadBias));
    nodes.push(Op::Repeat { a: t + 9, like: t + 8 });
    nodes.push(Op::Add(t + 10, t + 8));
    assert(nodes@ =~= old(nodes)@ + tail_ops(t as nat, inp as nat));
}

/// Appends layer `il` to the nodes of the layers before it, and its two cache writes to
/// the order of computation.
#[verifier::rlimit(100)]
fn push_layer_step(nodes: &mut Vec<Op>, expand: &mut Vec<usize>, h: &Hyperparameters, n_past: usize, n: usize, il: usize)
    requires
        buildable(*h),
        1 <= n,
        n_past + n <= h.n_ctx,
        il < h.n_layer,
        old(nodes)@ == head_ops() + layers_ops(*h, n_past as nat, n as nat, il as nat),
        old(expand)@ == expand_order(*h, il as nat),
    ensures
        final(nodes)@ == head_ops() + layers_ops(*h, n_past as nat, n as nat, (il + 1) as nat),
        final(expand)@ == expand_order(*h, (il + 1) as nat),
{
    proof {
        lemma_layers_len(*h, n_past as nat, n as nat, il as nat);
        lemma_node_count(*h, il as nat);
    }
    let b = nodes.len();
    assert(b == layer_base(il as nat));
    let inp = if il == 0 { EMBEDDING_NODE } else { b - 1 };
    push_layer(nodes, h, n_past, n, il, inp);
    expand.push(b + 20);
    expand.push(b + 21);
    proof {
        let prev = layers_ops(*h, n_past as nat, n as nat, il as nat);
        let blk = layer_ops(*h, n_past as nat, n as nat, il as nat, layer_base(il as nat), inp as nat);
        assert(layers_ops(*h, n_past as nat, n as nat, (il + 1) as nat) == prev + blk);
        assert(head_ops() + (prev + blk) =~= (head_ops() + prev) + blk);
        assert(expand@ =~= expand_order(*h, (il + 1) as nat));
    }
}

/// Builds the graph of one step over `tokens`, after `n_past` cached positions. Nothing is
/// computed or written: a batch that is empty or would pass the context window is refused
/// here, before any cache write can happen.
pub fn build_graph(h: &Hyperparameters, n_past: usize, tokens: &[TokenId]) -> (r: Result<Graph, EvalError>)
    requires
        buildable(*h),
    ensures
        step_error(*h, n_past as nat, tokens@.len()) is Some ==> r == Err::<Graph, EvalError>(
            step_error(*h, n_past as nat, tokens@.len())->Some_0,
        ),
        step_error(*h, n_past as nat, tokens@.len()) is None ==> r is Ok,
        r matches Ok(g) ==> {
            &&& g.nodes@ == graph_ops(*h, n_past as nat, tokens@.len())
            &&& g.expand@ == expand_order(*h, h.n_layer as nat).push(logits_node(*h) as usize)
            &&& g.tokens@ == tokens@
            &&& g.logits == logits_node(*h)
            &&& g.embeddings == embeddings_node(*h)
        },
{
    let n = tokens.len();
    if n == 0 {
        return Err(EvalError::EmptyBatch);
    }
    if n_past > h.n_ctx || n > h.n_ctx - n_past {
        return Err(EvalError::ContextWindowExceeded(ContextWindowExceeded { n_past, n, n_ctx: h.n_ctx }));
    }
    let mut toks: Vec<TokenId> = Vec::new();
    let mut i: usize = 0;
    while i < n
        invariant
            n == tokens@.len(),
            i <= n,
            toks@ == tokens@.subrange(0, i as int),
        decreases n - i,
    {
        toks.push(tokens[i]);
        i = i + 1;
    }
    assert(toks@ =~= tokens@);
    let mut nodes: Vec<Op> = Vec::new();
    nodes.push(Op::Tokens);
    nodes.push(Op::Weight(WeightId::TokenEmbedding));
    nodes.push(Op::GetRows { table: 1, rows: TOKENS_NODE });
    nodes.push(Op::CacheKeys);
    nodes.push(Op::CacheValues);
    assert(nodes@ =~= head_ops() + layers_ops(*h, n_past as nat, n as nat, 0));
    let mut expand: Vec<usize> = Vec::new();
    let mut il: usize = 0;
    while il < h.n_layer
        invariant
            buildable(*h),
            1 <= n,
            n_past + n <= h.n_ctx,
            il <= h.n_layer,
            nodes@ == head_ops() + layers_ops(*h, n_past as nat, n as nat, il as nat),
            expand@ == expand_order(*h, il as nat),
        decreases h.n_layer - il,
    {
        push_layer_step(&mut nodes, &mut expand, h, n_past, n, il);
        il = il + 1;
    }
    proof {
        lemma_layers_len(*h, n_past as nat, n as nat, h.n_layer as nat);
        lemma_node_count(*h, h.n_layer as nat);
    }
    let t = nodes.len();
    let inp = if h.n_layer == 0 { EMBEDDING_NODE } else { t - 1 };
    push_tail(&mut nodes, inp);
    let logits = t + TAIL_NODES - 1;
    expand.push(logits);
    assert(nodes@ =~= graph_ops(*h, n_past as nat, n as nat));
    let embeddings = t + 6;
    Ok(Graph { nodes, expand, tokens: toks, logits, embeddings })
}

proof fn lemma_layers_index(h: Hyperparameters, n_past: nat, n: nat, k: nat, il: nat, j: nat)
    requires
        il < k,
        j < LAYER_NODES,
    ensures
        layers_ops(h, n_past, n, k).len() == k * LAYER_NODES,
        layers_ops(h, n_past, n, k)[(il * LAYER_NODES + j) as int] == layer_ops(
            h,
            n_past,
            n,
            il,
            layer_base(il),
            layer_input(il),
        )[j as int],
    decreases k,
{
    lemma_layers_len(h, n_past, n, k);
    lemma_layers_len(h, n_past, n, (k - 1) as nat);
    if il < k - 1 {
        lemma_layers_index(h, n_past, n, (k - 1) as nat, il, j);
        assert(il * LAYER_NODES + j < (k - 1) * LAYER_NODES) by (nonlinear_arith)
            requires
                il < k - 1,
                j < LAYER_NODES,
        ;
    }
}

/// Node `j` of the block of layer `il` in the whole graph.
proof fn lemma_graph_layer_node(h: Hyperparameters, n_past: nat, n: nat, il: nat, j: nat)
    requires
        il < h.n_layer,
        j < LAYER_NODES,
    ensures
        graph_ops(h, n_past, n)[(layer_base(il) + j) as int] == layer_ops(
            h,
            n_past,
            n,
            il,
            layer_base(il),
            layer_input(il),
        )[j as int],
{
    lemma_layers_index(h, n_past, n, h.n_layer as nat, il, j);
    assert(il * LAYER_NODES + j < h.n_layer * LAYER_NODES) by (nonlinear_arith)
        requires
            il < h.n_layer,
            j < LAYER_NODES,
    ;
}

/// In every layer, attention and feed-forward are parallel branches: the query, key and
/// value projections and the feed-forward input projection all read the same normalized
/// input, and the layer's output is its input plus the output of each branch, in one
/// combined residual sum.
pub proof fn lemma_parallel_branches(h: Hyperparameters, n_past: nat, n: nat, il: nat)
    requires
        il < h.n_layer,
    ensures
        ({
            let g = graph_ops(h, n_past, n);
            let b = layer_base(il) as int;
            let u = |k: int| (b + k) as usize;
            &&& g[b + 0] == Op::Norm(layer_input(il) as usize)
            &&& g[b + 6] == Op::Add(u(3), u(5))
            &&& g[b + 8] == Op::MulMat(u(7), u(6))
            &&& g[b + 12] == Op::MulMat(u(11), u(6))
            &&& g[b + 16] == Op::MulMat(u(15), u(6))
            &&& g[b + 36] == Op::MulMat(u(35), u(34))
            &&& g[b + 38] == Op::MulMat(u(37), u(6))
            &&& g[b + 47] == Op::Add(u(46), u(44))
            &&& g[b + 48] == Op::Add(u(47), u(36))
            &&& g[b + 49] == Op::Add(u(48), layer_input(il) as usize)
        }),
{
    lemma_graph_layer_node(h, n_past, n, il, 0);
    lemma_graph_layer_node(h, n_past, n, il, 6);
    lemma_graph_layer_node(h, n_past, n, il, 8);
    lemma_graph_layer_node(h, n_past, n, il, 12);
    lemma_graph_layer_node(h, n_past, n, il, 16);
    lemma_graph_layer_node(h, n_past, n, il, 36);
    lemma_graph_layer_node(h, n_past, n, il, 38);
    lemma_graph_layer_node(h, n_past, n, il, 47);
    lemma_graph_layer_node(h, n_past, n, il, 48);
    lemma_graph_layer_node(h, n_past, n, il, 49);
}

/// In every layer, the scores are masked causally from the step's `n_past` before they are
/// normalized, so that query `i` gets no weight at a key position past `n_past + i`.
pub proof fn lemma_causal_mask_node(h: Hyperparameters, n_past: nat, n: nat, il: nat)
    requires
        il < h.n_layer,
    ensures
        ({
            let g = graph_ops(h, n_past, n);
            let b = layer_base(il) as int;
            &&& g[b + 28] == Op::DiagMaskInf { src: (b + 27) as usize, n_past: n_past as usize }
            &&& g[b + 29] == Op::SoftMax((b + 28) as usize)
        }),
{
    lemma_graph_layer_node(h, n_past, n, il, 28);
    lemma_graph_layer_node(h, n_past, n, il, 29);
}

/// In every layer, the new keys and values are copied into the cache slots of positions
/// `n_past .. n_past + n`: element `d` of new position `t` lands in key slot and value
/// slot `(il, n_past + t, d)`. The attention then reads the keys and values of all
/// positions `0 .. n_past + n` of the layer.
pub proof fn lemma_cache_views(h: Hyperparameters, n_past: nat, n: nat, il: nat)
    requires
        il < h.n_layer,
    ensures
        ({
            let g = graph_ops(h, n_past, n);
            let b = layer_base(il) as int;
            let ctx = h.n_ctx as nat;
            let e = h.n_embd as nat;
            &&& g[b + 18] == Op::View1d {
                src: KEYS_NODE,
                len: (n * e) as usize,
                offset: key_index(ctx, e, il, n_past, 0) as usize,
            }
            &&& g[b + 19] == Op::View2d {
                src: VALUES_NODE,
                ne0: n as usize,
                ne1: h.n_embd,
                stride1: h.n_ctx,
                offset: value_index(ctx, e, il, n_past, 0) as usize,
            }
            &&& g[b + 20] == Op::Copy { src: (b + 14) as usize, dst: (b + 18) as usize }
            &&& g[b + 21] == Op::Copy { src: (b + 17) as usize, dst: (b + 19) as usize }
            &&& g[b + 23] == Op::View1d {
                src: KEYS_NODE,
                len: ((n_past + n) * e) as usize,
                offset: key_index(ctx, e, il, 0, 0) as usize,
            }
        }),
        forall|t: nat, d: nat|
            #![trigger key_index(h.n_ctx as nat, h.n_embd as nat, il, n_past + t, d)]
            key_index(h.n_ctx as nat, h.n_embd as nat, il, n_past, 0) + t * h.n_embd + d
                == key_index(h.n_ctx as nat, h.n_embd as nat, il, n_past + t, d),
        forall|t: nat, d: nat|
            #![trigger value_index(h.n_ctx as nat, h.n_embd as nat, il, n_past + t, d)]
            value_index(h.n_ctx as nat, h.n_embd as nat, il, n_past, 0) + d * h.n_ctx + t
                == value_index(h.n_ctx as nat, h.n_embd as nat, il, n_past + t, d),
{
    lemma_graph_layer_node(h, n_past, n, il, 18);
    lemma_graph_layer_node(h, n_past, n, il, 19);
    lemma_graph_layer_node(h, n_past, n, il, 20);
    lemma_graph_layer_node(h, n_past, n, il, 21);
    lemma_graph_layer_node(h, n_past, n, il, 23);
    let ctx = h.n_ctx as nat;
    let e = h.n_embd as nat;
    assert forall|t: nat, d: nat|
        #![trigger key_index(ctx, e, il, n_past + t, d)]
        key_index(ctx, e, il, n_past, 0) + t * e + d == key_index(ctx, e, il, n_past + t, d) by {
        assert((il * ctx + n_past) * e + t * e == (il * ctx + (n_past + t)) * e) by (nonlinear_arith);
    }
    assert forall|t: nat, d: nat|
        #![trigger value_index(ctx, e, il, n_past + t, d)]
        value_index(ctx, e, il, n_past, 0) + d * ctx + t == value_index(ctx, e, il, n_past + t, d) by {
        assert((il * e + 0) * ctx + d * ctx == (il * e + d) * ctx) by (nonlinear_arith);
    }
}

/// The nodes that a node reads.
pub open spec fn operands(op: Op) -> Seq<usize> {
    match op {
        Op::Tokens => Seq::empty(),
        Op::Weight(_) => Seq::empty(),
        Op::CacheKeys => Seq::empty(),
        Op::CacheValues => Seq::empty(),
        Op::NewMatrix { .. } => Seq::empty(),
        Op::GetRows { table, rows } => seq![table, rows],
        Op::Norm(a) => seq![a],
        Op::Repeat { a, like } => seq![a, like],
        Op::Mul(a, b) => seq![a, b],
        Op::Add(a, b) => seq![a, b],
        Op::MulMat(a, b) => seq![a, b],
        Op::Reshape3d { src, .. } => seq![src],
        Op::Rope { src, .. } => seq![src],
        Op::Transpose(a) => seq![a],
        Op::View1d { src, .. } => seq![src],
        Op::View2d { src, .. } => seq![src],
        Op::View3d { src, .. } => seq![src],
        Op::Copy { src, dst } => seq![src, dst],
        Op::PermuteHeads(a) => seq![a],
        Op::ScaleInvSqrt { src, .. } => seq![src],
        Op::DiagMaskInf { src, .. } => seq![src],
        Op::SoftMax(a) => seq![a],
        Op::Gelu(a) => seq![a],
    }
}

/// Every operand of node `op`, placed at index `i`, is an earlier node.
pub open spec fn reads_earlier(op: Op, i: int) -> bool {
    forall|j: int| 0 <= j < operands(op).len() ==> operands(op)[j] < i
}

/// Every node reads only earlier nodes, so the graph has no cycle and its order is an
/// order of evaluation.
pub open spec fn acyclic(g: Seq<Op>) -> bool {
    forall|i: int| 0 <= i < g.len() ==> #[trigger] reads_earlier(g[i], i)
}

proof fn lemma_layer_reads_earlier(h: Hyperparameters, n_past: nat, n: nat, il: nat, b: nat, inp: nat, k: int)
    requires
        inp < b,
        KEYS_NODE < b,
        VALUES_NODE < b,
        b + LAYER_NODES <= usize::MAX,
        0 <= k < LAYER_NODES,
    ensures
        reads_earlier(layer_ops(h, n_past, n, il, b, inp)[k], b + k),
{
    let blk = layer_ops(h, n_past, n, il, b, inp);
    assert(reads_earlier(blk[k], b + k));
}

proof fn lemma_tail_reads_earlier(t: nat, inp: nat, k: int)
    requires
        inp < t,
        t + TAIL_NODES <= usize::MAX,
        0 <= k < TAIL_NODES,
    ensures
        reads_earlier(tail_ops(t, inp)[k], t + k),
{
    let tl = tail_ops(t, inp);
    assert(reads_earlier(tl[k], t + k));
}

/// The graph of every step is acyclic: each node reads only nodes before it.
pub proof fn lemma_graph_acyclic(h: Hyperparameters, n_past: nat, n: nat)
    requires
        buildable(h),
    ensures
        acyclic(graph_ops(h, n_past, n)),
{
    let g = graph_ops(h, n_past, n);
    let l = h.n_layer as nat;
    lemma_layers_len(h, n_past, n, l);
    lemma_node_count(h, l);
    assert forall|i: int| 0 <= i < g.len() implies #[trigger] reads_earlier(g[i], i) by {
        if i < HEAD_NODES {
            assert(g[i] == head_ops()[i]);
            assert(reads_earlier(head_ops()[i], i));
        } else if i < layer_base(l) {
            let il = ((i - HEAD_NODES) / LAYER_NODES as int) as nat;
            let k = (i - HEAD_NODES) % LAYER_NODES as int;
            assert(il < l) by {
                assert(i - HEAD_NODES < l * LAYER_NODES);
            }
            assert(i == layer_base(il) + k);
            lemma_graph_layer_node(h, n_past, n, il, k as nat);
            lemma_node_count(h, il);
            assert(layer_input(il) < layer_base(il));
            lemma_layer_reads_earlier(h, n_past, n, il, layer_base(il), layer_input(il), k);
        } else {
            let t = layer_base(l);
            assert(g[i] == tail_ops(t, layer_input(l))[i - t]);
            lemma_tail_reads_earlier(t, layer_input(l), i - t);
        }
    }
}

} // verus!
