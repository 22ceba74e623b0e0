use vstd::prelude::*;
use crate::graph::WeightId;
use vstd::string::StringSliceAdditionalSpecFns;

verus! {

/// The decimal digits of `i`, most significant first.
pub open spec fn decimal(i: nat) -> Seq<u8>
    decreases i,
{
    if i < 10 {
        seq![(48 + i) as u8]
    } else {
        decimal(i / 10).push((48 + i % 10) as u8)
    }
}

/// The name of a weight of layer `i`: the layer's prefix, then the weight's own suffix.
pub open spec fn layer_name(i: nat, suffix: Seq<u8>) -> Seq<u8> {
    "transformer.h.".spec_bytes() + decimal(i) + suffix
}

/// The name under which a model file holds each weight.
pub open spec fn name_of(w: WeightId) -> Seq<u8> {
    match w {
        WeightId::TokenEmbedding => "transformer.wte.weight".spec_bytes(),
        WeightId::FinalNormScale => "transformer.ln_f.weight".spec_bytes(),
        WeightId::FinalNormBias => "transformer.ln_f.bias".spec_bytes(),
        WeightId::HeadWeight => "lm_head.weight".spec_bytes(),
        WeightId::HeadBias => "lm_head.bias".spec_bytes(),
        WeightId::NormScale(i) => layer_name(i as nat, ".ln_1.weight".spec_bytes()),
        WeightId::NormBias(i) => layer_name(i as nat, ".ln_1.bias".spec_bytes()),
        WeightId::Query(i) => layer_name(i as nat, ".attn.q_proj.weight".spec_bytes()),
        WeightId::Key(i) => layer_name(i as nat, ".attn.k_proj.weight".spec_bytes()),
        WeightId::Value(i) => layer_name(i as nat, ".attn.v_proj.weight".spec_bytes()),
        WeightId::AttentionOut(i) => layer_name(i as nat, ".attn.out_proj.weight".spec_bytes()),
        WeightId::FeedForwardIn(i) => layer_name(i as nat, ".mlp.fc_in.weight".spec_bytes()),
        WeightId::FeedForwardInBias(i) => layer_name(i as nat, ".mlp.fc_in.bias".spec_bytes()),
        WeightId::FeedForwardOut(i) => layer_name(i as nat, ".mlp.fc_out.weight".spec_bytes()),
        WeightId::FeedForwardOutBias(i) => layer_name(i as nat, ".mlp.fc_out.bias".spec_bytes()),
    }
}

/// The weights of layer `i`, in the order they are loaded.
pub open spec fn layer_weights(i: usize) -> Seq<WeightId> {
    seq![
        WeightId::NormScale(i),
        WeightId::NormBias(i),
        WeightId::Query(i),
        WeightId::Key(i),
        WeightId::Value(i),
        WeightId::AttentionOut(i),
        WeightId::FeedForwardIn(i),
        WeightId::FeedForwardInBias(i),
        WeightId::FeedForwardOut(i),
        WeightId::FeedForwardOutBias(i),
    ]
}

/// The weights of the first `k` layers, layer by layer.
pub open spec fn layers_weights(k: nat) -> Seq<WeightId>
    decreases k,
{
    if k == 0 {
        Seq::empty()
    } else {
        layers_weights((k - 1) as nat) + layer_weights((k - 1) as usize)
    }
}

/// Every weight of a model of `n_layer` layers, in the order they are loaded: token
/// embeddings, final normalization, vocabulary projection, then each layer's.
pub open spec fn load_order(n_layer: nat) -> Seq<WeightId> {
    seq![
        WeightId::TokenEmbedding,
        WeightId::FinalNormScale,
        WeightId::FinalNormBias,
        WeightId::HeadWeight,
        WeightId::HeadBias,
    ] + layers_weights(n_layer)
}

/// Appends the bytes of `s`.
fn push_bytes(out: &mut Vec<u8>, s: &[u8])
    ensures
        final(out)@ == old(out)@ + s@,
{
    let mut i: usize = 0;
    while i < s.len()
        invariant
            i <= s@.len(),
            out@ == old(out)@ + s@.subrange(0, i as int),
        decreases s@.len() - i,
    {
        out.push(s[i]);
        i = i + 1;
        assert(out@ =~= old(out)@ + s@.subrange(0, i as int));
    }
    assert(s@.subrange(0, s@.len() as int) =~= s@);
}

/// Appends the decimal digits of `i`.
fn push_decimal(out: &mut Vec<u8>, i: usize)
    ensures
        final(out)@ == old(out)@ + decimal(i as nat),
    decreases i,
{
    if i >= 10 {
        push_decimal(out, i / 10);
    }
    out.push((48 + i % 10) as u8);
    assert(out@ =~= old(out)@ + decimal(i as nat));
}

/// The name of a weight of layer `i` with the given suffix.
fn layer_weight_name(i: usize, suffix: &str) -> (r: Vec<u8>)
    ensures
        r@ == layer_name(i as nat, suffix.spec_bytes()),
{
    let mut out: Vec<u8> = Vec::new();
    push_bytes(&mut out, "transformer.h.".as_bytes());
    push_decimal(&mut out, i);
    push_bytes(&mut out, suffix.as_bytes());
    assert(out@ =~= layer_name(i as nat, suffix.spec_bytes()));
    out
}

/// The bytes of `s`.
fn bytes_of(s: &str) -> (r: Vec<u8>)
    ensures
        r@ == s.spec_bytes(),
{
    let mut out: Vec<u8> = Vec::new();
    push_bytes(&mut out, s.as_bytes());
    assert(out@ =~= s.spec_bytes());
    out
}

impl WeightId {
    /// The name under which a model file holds this weight.
    pub fn name(&self) -> (r: Vec<u8>)
        ensures
            r@ == name_of(*self),
    {
        match *self {
            WeightId::TokenEmbedding => bytes_of("transformer.wte.weight"),
            WeightId::FinalNormScale => bytes_of("transformer.ln_f.weight"),
            WeightId::FinalNormBias => bytes_of("transformer.ln_f.bias"),
            WeightId::HeadWeight => bytes_of("lm_head.weight"),
            WeightId::HeadBias => bytes_of("lm_head.bias"),
            WeightId::NormScale(i) => layer_weight_name(i, ".ln_1.weight"),
            WeightId::NormBias(i) => layer_weight_name(i, ".ln_1.bias"),
            WeightId::Query(i) => layer_weight_name(i, ".attn.q_proj.weight"),
            WeightId::Key(i) => layer_weight_name(i, ".attn.k_proj.weight"),
            WeightId::Value(i) => layer_weight_name(i, ".attn.v_proj.weight"),
            WeightId::AttentionOut(i) => layer_weight_name(i, ".attn.out_proj.weight"),
            WeightId::FeedForwardIn(i) => layer_weight_name(i, ".mlp.fc_in.weight"),
            WeightId::FeedForwardInBias(i) => layer_weight_name(i, ".mlp.fc_in.bias"),
            WeightId::FeedForwardOut(i) => layer_weight_name(i, ".mlp.fc_out.weight"),
            WeightId::FeedForwardOutBias(i) => layer_weight_name(i, ".mlp.fc_out.bias"),
        }
    }
}

/// Every weight of a model of `n_layer` layers, in the order a loader is asked for them.
pub fn load_order_of(n_layer: usize) -> (r: Vec<WeightId>)
    ensures
        r@ == load_order(n_layer as nat),
{
    let mut r: Vec<WeightId> = Vec::new();
    r.push(WeightId::TokenEmbedding);
    r.push(WeightId::FinalNormScale);
    r.push(WeightId::FinalNormBias);
    r.push(WeightId::HeadWeight);
    r.push(WeightId::HeadBias);
    let ghost globals = r@;
    assert(globals =~= load_order(0));
    let mut i: usize = 0;
    while i < n_layer
        invariant
            i <= n_layer,
            r@ == globals + layers_weights(i as nat),
            globals =~= load_order(0),
        decreases n_layer - i,
    {
        r.push(WeightId::NormScale(i));
        r.push(WeightId::NormBias(i));
        r.push(WeightId::Query(i));
        r.push(WeightId::Key(i));
        r.push(WeightId::Value(i));
        r.push(WeightId::AttentionOut(i));
        r.push(WeightId::FeedForwardIn(i));
        r.push(WeightId::FeedForwardInBias(i));
        r.push(WeightId::FeedForwardOut(i));
        r.push(WeightId::FeedForwardOutBias(i));
        assert(r@ =~= globals + layers_weights((i + 1) as nat));
        i = i + 1;
    }
    r
}

} // verus!
