use gptj::graph::{EvalError, Op, WeightId};
use gptj::hyperparameters::{FileType, Hyperparameters};
use gptj::kv_cache::ContextWindowExceeded;
use gptj::model::{check_buildable, eot_token_id, GptJ, ModelError};
use gptj::weights::load_order_of;

fn shape(n_layer: usize) -> Hyperparameters {
    Hyperparameters {
        n_vocab: 4,
        n_ctx: 8,
        n_embd: 4,
        n_head: 2,
        n_layer,
        n_rot: 2,
        file_type: FileType::F32,
    }
}

fn vocab() -> Vec<Vec<u8>> {
    vec![b"a".to_vec(), b"<|endoftext|>".to_vec(), b"b".to_vec(), b"<|endoftext|>".to_vec()]
}

#[test]
fn weight_names_follow_the_file_layout() {
    assert_eq!(WeightId::TokenEmbedding.name(), b"transformer.wte.weight".to_vec());
    assert_eq!(WeightId::FinalNormBias.name(), b"transformer.ln_f.bias".to_vec());
    assert_eq!(WeightId::HeadWeight.name(), b"lm_head.weight".to_vec());
    assert_eq!(WeightId::NormScale(0).name(), b"transformer.h.0.ln_1.weight".to_vec());
    assert_eq!(WeightId::Query(7).name(), b"transformer.h.7.attn.q_proj.weight".to_vec());
    assert_eq!(
        WeightId::AttentionOut(27).name(),
        b"transformer.h.27.attn.out_proj.weight".to_vec()
    );
    assert_eq!(
        WeightId::FeedForwardOutBias(105).name(),
        b"transformer.h.105.mlp.fc_out.bias".to_vec()
    );
    assert_eq!(WeightId::FeedForwardIn(10).name(), b"transformer.h.10.mlp.fc_in.weight".to_vec());
}

#[test]
fn load_order_lists_globals_then_layers() {
    let order = load_order_of(2);
    assert_eq!(order.len(), 25);
    assert_eq!(order[0], WeightId::TokenEmbedding);
    assert_eq!(order[4], WeightId::HeadBias);
    assert_eq!(order[5], WeightId::NormScale(0));
    assert_eq!(order[14], WeightId::FeedForwardOutBias(0));
    assert_eq!(order[17], WeightId::Query(1));
    assert_eq!(order[24], WeightId::FeedForwardOutBias(1));
    assert_eq!(load_order_of(0).len(), 5);
}

#[test]
fn eot_is_first_matching_token() {
    assert_eq!(eot_token_id(&vocab()), Some(1));
    assert_eq!(eot_token_id(&vec![b"<|endoftext|".to_vec(), b"x".to_vec()]), None);
    assert_eq!(eot_token_id(&vec![]), None);
}

#[test]
fn model_hands_out_weights_by_role() {
    let weights: Vec<usize> = (0..25).collect();
    let m = GptJ::new(shape(2), weights, vocab()).unwrap();
    assert_eq!(*m.weight(WeightId::TokenEmbedding), 0);
    assert_eq!(*m.weight(WeightId::HeadBias), 4);
    assert_eq!(*m.weight(WeightId::Key(0)), 8);
    assert_eq!(*m.weight(WeightId::Value(1)), 19);
    assert_eq!(*m.weight(WeightId::FeedForwardOutBias(1)), 24);
    assert_eq!(m.eot_token_id(), 1);
    assert_eq!(m.n_context_tokens(), 8);
    assert_eq!(m.hyperparameters().n_layer, 2);
    assert_eq!(m.vocabulary(), &vocab());
}

#[test]
fn model_refuses_bad_parts() {
    let short: Vec<usize> = (0..24).collect();
    assert!(matches!(
        GptJ::new(shape(2), short, vocab()),
        Err(ModelError::WrongWeightCount { expected: 25, found: 24 })
    ));
    let weights: Vec<usize> = (0..25).collect();
    assert!(matches!(
        GptJ::new(shape(2), weights, vec![b"a".to_vec()]),
        Err(ModelError::MissingEndOfText)
    ));
    let no_heads = Hyperparameters { n_head: 0, ..shape(0) };
    assert!(matches!(
        GptJ::new(no_heads, vec![0usize; 5], vocab()),
        Err(ModelError::UnbuildableShape)
    ));
}

#[test]
fn buildable_shapes() {
    assert!(check_buildable(&shape(28)));
    assert!(!check_buildable(&Hyperparameters { n_head: 0, ..shape(1) }));
    assert!(!check_buildable(&Hyperparameters { n_ctx: usize::MAX, n_embd: 2, ..shape(1) }));
    assert!(check_buildable(&Hyperparameters { n_ctx: usize::MAX, n_embd: 0, ..shape(1) }));
    assert!(!check_buildable(&Hyperparameters { n_embd: 0, ..shape(usize::MAX / 10) }));
}

#[test]
fn model_session_steps() {
    let weights: Vec<u8> = vec![0; 15];
    let m = GptJ::new(shape(1), weights, vocab()).unwrap();
    let s = m.start_session(0.0f32);
    assert_eq!(s.n_past(), 0);
    assert_eq!(s.cache().keys().len(), 8 * 4);
    let g = m.evaluate(&s, &[0, 1, 2]).unwrap();
    assert_eq!(g.nodes.len(), 5 + 50 + 12);
    assert_eq!(g.tokens, vec![0, 1, 2]);
    assert_eq!(g.expand, vec![25, 26, 66]);
    assert_eq!(g.logits, 66);
    assert_eq!(g.embeddings, 61);
    assert_eq!(s.last_logits().len(), 0);
    assert_eq!(s.last_embeddings(), None);
    assert_eq!(g.nodes[5 + 28], Op::DiagMaskInf { src: 5 + 27, n_past: 0 });
    assert!(matches!(m.evaluate(&s, &[]), Err(EvalError::EmptyBatch)));
    assert!(matches!(
        m.evaluate(&s, &[0; 9]),
        Err(EvalError::ContextWindowExceeded(ContextWindowExceeded { n_past: 0, n: 9, n_ctx: 8 }))
    ));
}
