use vstd::prelude::*;
use crate::graph::{
    buildable, embeddings_node, expand_order, graph_ops, logits_node, step_error, EvalError,
    Graph, TokenId, WeightId,
};
use crate::hyperparameters::Hyperparameters;
use crate::session::Session;
use crate::weights::{layer_weights, layers_weights, load_order};
use vstd::string::StringSliceAdditionalSpecFns;

verus! {

/// Why a model cannot be put together.
#[derive(Debug, Clone, Copy, PartialEq, Eq, Structural)]
pub enum ModelError {
    /// The number of loaded weights is not the number the hyperparameters call for.
    WrongWeightCount { expected: usize, found: usize },
    /// The vocabulary has no end-of-text token.
    MissingEndOfText,
    /// The shape cannot be built: no heads, or a cache or graph too large for memory.
    UnbuildableShape,
}

/// The position of a weight in the load order of a model of `n_layer` layers.
pub open spec fn weight_index(w: WeightId) -> nat {
    match w {
        WeightId::TokenEmbedding => 0nat,
        WeightId::FinalNormScale => 1nat,
        WeightId::FinalNormBias => 2nat,
        WeightId::HeadWeight => 3nat,
        WeightId::HeadBias => 4nat,
        WeightId::NormScale(i) => (5 + 10 * i + 0) as nat,
        WeightId::NormBias(i) => (5 + 10 * i + 1) as nat,
        WeightId::Query(i) => (5 + 10 * i + 2) as nat,
        WeightId::Key(i) => (5 + 10 * i + 3) as nat,
        WeightId::Value(i) => (5 + 10 * i + 4) as nat,
        WeightId::AttentionOut(i) => (5 + 10 * i + 5) as nat,
        WeightId::FeedForwardIn(i) => (5 + 10 * i + 6) as nat,
        WeightId::FeedForwardInBias(i) => (5 + 10 * i + 7) as nat,
        WeightId::FeedForwardOut(i) => (5 + 10 * i + 8) as nat,
        WeightId::FeedForwardOutBias(i) => (5 + 10 * i + 9) as nat,
    }
}

/// The layer a weight belongs to, if any.
pub open spec fn weight_layer(w: WeightId) -> Option<usize> {
    match w {
        WeightId::NormScale(i) => Some(i),
        WeightId::NormBias(i) => Some(i),
        WeightId::Query(i) => Some(i),
        WeightId::Key(i) => Some(i),
        WeightId::Value(i) => Some(i),
        WeightId::AttentionOut(i) => Some(i),
        WeightId::FeedForwardIn(i) => Some(i),
        WeightId::FeedForwardInBias(i) => Some(i),
        WeightId::FeedForwardOut(i) => Some(i),
        WeightId::FeedForwardOutBias(i) => Some(i),
        _ => None,
    }
}

/// Whether a model of `n_layer` layers has this weight.
pub open spec fn has_weight(n_layer: nat, w: WeightId) -> bool {
    match weight_layer(w) {
        Some(i) => i < n_layer,
        None => true,
    }
}

proof fn lemma_layers_weights_len(k: nat)
    ensures
        layers_weights(k).len() == 10 * k,
    decreases k,
{
    if k > 0 {
        lemma_layers_weights_len((k - 1) as nat);
    }
}

proof fn lemma_layers_weights_index(k: nat, i: nat, r: nat)
    requires
        i < k,
        r < 10,
    ensures
        layers_weights(k)[(10 * i + r) as int] == layer_weights(i as usize)[r as int],
    decreases k,
{
    lemma_layers_weights_len((k - 1) as nat);
    if i < k - 1 {
        lemma_layers_weights_index((k - 1) as nat, i, r);
    }
}

/// Each weight that a model has stands at its own position in the load order.
pub proof fn lemma_weight_index(n_layer: nat, w: WeightId)
    requires
        has_weight(n_layer, w),
    ensures
        weight_index(w) < load_order(n_layer).len(),
        load_order(n_layer)[weight_index(w) as int] == w,
{
    lemma_layers_weights_len(n_layer);
    match weight_layer(w) {
        Some(i) => {
            lemma_layers_weights_index(n_layer, i as nat, (weight_index(w) - 5 - 10 * i) as nat);
        },
        None => {},
    }
}

/// The bytes of the end-of-text token.
pub open spec fn end_of_text() -> Seq<u8> {
    "<|endoftext|>".spec_bytes()
}

fn bytes_equal(a: &Vec<u8>, b: &[u8]) -> (r: bool)
    ensures
        r == (a@ == b@),
{
    if a.len() != b.len() {
        return false;
    }
    let mut i: usize = 0;
    while i < a.len()
        invariant
            a@.len() == b@.len(),
            i <= a@.len(),
            forall|j: int| 0 <= j < i ==> a@[j] == b@[j],
        decreases a@.len() - i,
    {
        if a[i] != b[i] {
            return false;
        }
        i = i + 1;
    }
    assert(a@ =~= b@);
    true
}

/// The id of the end-of-text token in a vocabulary listed by id: the first token spelled
/// `<|endoftext|>`.
pub fn eot_token_id(tokens: &Vec<Vec<u8>>) -> (r: Option<TokenId>)
    requires
        tokens@.len() <= i32::MAX,
    ensures
        r matches Some(t) ==> 0 <= t < tokens@.len() && tokens@[t as int]@ == end_of_text() && forall|j: int|
            0 <= j < t ==> tokens@[j]@ != end_of_text(),
        r is None <==> forall|j: int| 0 <= j < tokens@.len() ==> tokens@[j]@ != end_of_text(),
{
    let eot = "<|endoftext|>".as_bytes();
    let mut i: usize = 0;
    while i < tokens.len()
        invariant
            i <= tokens@.len(),
            tokens@.len() <= i32::MAX,
            eot@ == end_of_text(),
            forall|j: int| 0 <= j < i ==> tokens@[j]@ != end_of_text(),
        decreases tokens@.len() - i,
    {
        if bytes_equal(&tokens[i], eot) {
            return Some(i as TokenId);
        }
        i = i + 1;
    }
    None
}

/// A GPT-J model: its hyperparameters, its weights in load order, and the id of its
/// end-of-text token. `W` is the tensor engine's handle of a weight; the model only
/// hands weights out by role, never changes them, and so can be shared by any number of
/// sessions.
pub struct GptJ<W> {
    hyperparameters: Hyperparameters,
    weights: Vec<W>,
    vocabulary: Vec<Vec<u8>>,
    eot: TokenId,
}

impl<W> GptJ<W> {
    pub closed spec fn spec_hyperparameters(&self) -> Hyperparameters {
        self.hyperparameters
    }

    pub closed spec fn spec_weights(&self) -> Seq<W> {
        self.weights@
    }

    pub closed spec fn spec_eot(&self) -> TokenId {
        self.eot
    }

    pub closed spec fn spec_vocabulary(&self) -> Seq<Vec<u8>> {
        self.vocabulary@
    }

    /// One weight per entry of the load order, and a shape that a step can be built for.
    pub open spec fn wf(&self) -> bool {
        &&& self.spec_weights().len() == load_order(self.spec_hyperparameters().n_layer as nat).len()
        &&& buildable(self.spec_hyperparameters())
    }

    /// A model from its hyperparameters, the weights that a loader gave for each entry of
    /// the load order, in that order, and its vocabulary listed by id.
    pub fn new(hyperparameters: Hyperparameters, weights: Vec<W>, tokens: Vec<Vec<u8>>) -> (r: Result<Self, ModelError>)
        requires
            tokens@.len() <= i32::MAX,
        ensures
            r matches Ok(m) ==> {
                &&& m.wf()
                &&& m.spec_hyperparameters() == hyperparameters
                &&& m.spec_weights() == weights@
                &&& m.spec_vocabulary() == tokens@
                &&& first_end_of_text_id(tokens@, m.spec_eot())
            },
            !buildable(hyperparameters) ==> r == Err::<Self, ModelError>(ModelError::UnbuildableShape),
            buildable(hyperparameters) && weights@.len() != load_order(hyperparameters.n_layer as nat).len() ==> r
                == Err::<Self, ModelError>(
                ModelError::WrongWeightCount {
                    expected: load_order(hyperparameters.n_layer as nat).len() as usize,
                    found: weights@.len() as usize,
                },
            ),
            buildable(hyperparameters) && weights@.len() == load_order(hyperparameters.n_layer as nat).len() ==> (r
                == Err::<Self, ModelError>(ModelError::MissingEndOfText) <==> forall|j: int|
                0 <= j < tokens@.len() ==> tokens@[j]@ != end_of_text()),
            r is Err <==> (!buildable(hyperparameters) || weights@.len() != load_order(hyperparameters.n_layer as nat).len()
                || forall|j: int| 0 <= j < tokens@.len() ==> tokens@[j]@ != end_of_text()),
    {
        if !check_buildable(&hyperparameters) {
            return Err(ModelError::UnbuildableShape);
        }
        proof {
            lemma_layers_weights_len(hyperparameters.n_layer as nat);
            reveal(buildable);
        }
        let expected = 5 + 10 * hyperparameters.n_layer;
        if weights.len() != expected {
            return Err(ModelError::WrongWeightCount { expected, found: weights.len() });
        }
        match eot_token_id(&tokens) {
            Some(eot) => Ok(GptJ { hyperparameters, weights, vocabulary: tokens, eot }),
            None => Err(ModelError::MissingEndOfText),
        }
    }

    pub fn hyperparameters(&self) -> (r: &Hyperparameters)
        ensures
            *r == self.spec_hyperparameters(),
    {
        &self.hyperparameters
    }

    /// The vocabulary, listed by token id.
    pub fn vocabulary(&self) -> (r: &Vec<Vec<u8>>)
        ensures
            r@ == self.spec_vocabulary(),
    {
        &self.vocabulary
    }

    /// The length of the context window.
    pub fn n_context_tokens(&self) -> (r: usize)
        ensures
            r == self.spec_hyperparameters().n_ctx,
    {
        self.hyperparameters.n_ctx
    }

    /// The id of the end-of-text token.
    pub fn eot_token_id(&self) -> (r: TokenId)
        ensures
            r == self.spec_eot(),
    {
        self.eot
    }

    /// The weight that plays role `w`.
    pub fn weight(&self, w: WeightId) -> (r: &W)
        requires
            self.wf(),
            has_weight(self.spec_hyperparameters().n_layer as nat, w),
        ensures
            *r == self.spec_weights()[weight_index(w) as int],
    {
        proof {
            lemma_weight_index(self.hyperparameters.n_layer as nat, w);
        }
        let n = self.weights.len();
        assert(weight_index(w) < n);
        let i: usize = match w {
            WeightId::TokenEmbedding => 0,
            WeightId::FinalNormScale => 1,
            WeightId::FinalNormBias => 2,
            WeightId::HeadWeight => 3,
            WeightId::HeadBias => 4,
            WeightId::NormScale(l) => 5 + 10 * l + 0,
            WeightId::NormBias(l) => 5 + 10 * l + 1,
            WeightId::Query(l) => 5 + 10 * l + 2,
            WeightId::Key(l) => 5 + 10 * l + 3,
            WeightId::Value(l) => 5 + 10 * l + 4,
            WeightId::AttentionOut(l) => 5 + 10 * l + 5,
            WeightId::FeedForwardIn(l) => 5 + 10 * l + 6,
            WeightId::FeedForwardInBias(l) => 5 + 10 * l + 7,
            WeightId::FeedForwardOut(l) => 5 + 10 * l + 8,
            WeightId::FeedForwardOutBias(l) => 5 + 10 * l + 9,
        };
        &self.weights[i]
    }

    /// A new session of this model, nothing cached, every cache element `zero`.
    pub fn start_session<T: Copy>(&self, zero: T) -> (r: Session<T>)
        requires
            self.wf(),
        ensures
            r.wf(),
            r.spec_n_past() == 0,
            r.spec_cache().spec_n_layer() == self.spec_hyperparameters().n_layer,
            r.spec_cache().spec_n_ctx() == self.spec_hyperparameters().n_ctx,
            r.spec_cache().spec_n_embd() == self.spec_hyperparameters().n_embd,
            r.spec_last_logits().len() == 0,
            r.spec_last_embeddings() is None,
    {
        proof {
            reveal(buildable);
        }
        Session::start(&self.hyperparameters, zero)
    }

    /// The graph of the next step of `session` over `tokens`: refused, before anything is
    /// written, where the batch is empty or would pass the context window. The engine runs
    /// the graph and hands its outcome to `Session::commit`.
    pub fn evaluate<T: Copy>(&self, session: &Session<T>, tokens: &[TokenId]) -> (r: Result<Graph, EvalError>)
        requires
            self.wf(),
        ensures
            ({
                let h = self.spec_hyperparameters();
                let e = step_error(h, session.spec_n_past(), tokens@.len());
                &&& e is Some ==> r == Err::<Graph, EvalError>(e->Some_0)
                &&& e is None ==> r is Ok
                &&& r matches Ok(g) ==> {
                    &&& g.nodes@ == graph_ops(h, session.spec_n_past(), tokens@.len())
                    &&& g.expand@ == expand_order(h, h.n_layer as nat).push(logits_node(h) as usize)
                    &&& g.tokens@ == tokens@
                    &&& g.logits == logits_node(h)
                    &&& g.embeddings == embeddings_node(h)
                }
            }),
    {
        session.build_step(&self.hyperparameters, tokens)
    }
}

/// Whether `t` is the id of the first end-of-text token of `tokens`.
pub open spec fn first_end_of_text_id(tokens: Seq<Vec<u8>>, t: TokenId) -> bool {
    &&& 0 <= t < tokens.len()
    &&& tokens[t as int]@ == end_of_text()
    &&& forall|j: int| 0 <= j < t ==> tokens[j]@ != end_of_text()
}

/// Whether a step can be built for this shape.
pub fn check_buildable(h: &Hyperparameters) -> (r: bool)
    ensures
        r == buildable(*h),
{
    reveal(buildable);
    if h.n_head == 0 {
        return false;
    }
    let l = h.n_layer as u128;
    let c = h.n_ctx as u128;
    let e = h.n_embd as u128;
    proof {
        assert(l * c <= 0xffff_ffff_ffff_ffff_ffff_ffff_ffff_ffff) by (nonlinear_arith)
            requires
                l <= 0xffff_ffff_ffff_ffff,
                c <= 0xffff_ffff_ffff_ffff,
        ;
    }
    let lc = l * c;
    if e > 0 && lc > (usize::MAX as u128) / e {
        proof {
            assert(lc * e > usize::MAX) by (nonlinear_arith)
                requires
                    e > 0,
                    lc > usize::MAX as u128 / e,
        ;
        }
        return false;
    }
    proof {
        assert(lc * e <= usize::MAX) by (nonlinear_arith)
            requires
                e == 0 || lc <= usize::MAX as u128 / e,
        ;
    }
    if h.n_layer > (usize::MAX - 17) / 50 {
        return false;
    }
    true
}

} // verus!
