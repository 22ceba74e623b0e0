use gptj::graph::{build_graph, EvalError, Op, WeightId};
use gptj::hyperparameters::{FileType, Hyperparameters};
use gptj::kv_cache::{ContextWindowExceeded, KvCache};
use gptj::mask::diag_mask;
use gptj::session::{read_last_row, Session};

fn small() -> Hyperparameters {
    Hyperparameters {
        n_vocab: 3,
        n_ctx: 4,
        n_embd: 2,
        n_head: 1,
        n_layer: 2,
        n_rot: 2,
        file_type: FileType::F32,
    }
}

#[test]
fn store_writes_keys_contiguously_and_values_transposed() {
    let mut c: KvCache<f32> = KvCache::new(2, 4, 2, 0.0);
    let k = vec![1.0, 2.0, 3.0, 4.0];
    let v = vec![5.0, 6.0, 7.0, 8.0];
    assert_eq!(c.store(1, 1, 2, &k, &v), Ok(()));
    let mut keys = vec![0.0f32; 16];
    keys[10] = 1.0;
    keys[11] = 2.0;
    keys[12] = 3.0;
    keys[13] = 4.0;
    assert_eq!(c.keys(), &keys);
    // layer 1 starts at 8; element d of position p at 8 + d * 4 + p
    let mut values = vec![0.0f32; 16];
    values[9] = 5.0;
    values[13] = 6.0;
    values[10] = 7.0;
    values[14] = 8.0;
    assert_eq!(c.values(), &values);
}

#[test]
fn store_past_window_changes_nothing() {
    let mut c: KvCache<i32> = KvCache::new(1, 4, 1, 9);
    let r = c.store(0, 3, 2, &vec![1, 2], &vec![3, 4]);
    assert_eq!(r, Err(ContextWindowExceeded { n_past: 3, n: 2, n_ctx: 4 }));
    assert_eq!(c.keys(), &vec![9, 9, 9, 9]);
    assert_eq!(c.values(), &vec![9, 9, 9, 9]);
}

#[test]
fn session_overflow_leaves_cache_untouched() {
    let h = Hyperparameters { n_embd: 1, n_layer: 1, ..small() };
    let mut s: Session<f32> = Session::start(&h, 0.0);
    let one = vec![vec![1.0f32]];
    for t in 0..3 {
        let k = vec![vec![t as f32 + 1.0]];
        assert_eq!(s.commit(&k, &one, &vec![0.0, 0.0, 0.0], None, 3, 1), Ok(()));
    }
    assert_eq!(s.n_past(), 3);
    let keys_before = s.cache().keys().clone();
    let values_before = s.cache().values().clone();
    let k = vec![vec![7.0f32, 8.0]];
    let r = s.commit(&k, &k, &vec![0.0; 6], None, 3, 2);
    assert_eq!(
        r,
        Err(EvalError::ContextWindowExceeded(ContextWindowExceeded { n_past: 3, n: 2, n_ctx: 4 }))
    );
    assert_eq!(s.n_past(), 3);
    assert_eq!(s.cache().keys(), &keys_before);
    assert_eq!(s.cache().values(), &values_before);
    assert_eq!(keys_before, vec![1.0, 2.0, 3.0, 0.0]);
}

#[test]
fn commit_keeps_last_logits_and_advances() {
    let h = small();
    let mut s: Session<f32> = Session::start(&h, 0.0);
    let kv = vec![vec![1.0f32, 2.0, 3.0, 4.0], vec![5.0, 6.0, 7.0, 8.0]];
    let logits = vec![0.1f32, 0.2, 0.3, 0.4, 0.5, 0.6];
    assert_eq!(s.commit(&kv, &kv, &logits, None, 3, 2), Ok(()));
    assert_eq!(s.n_past(), 2);
    assert_eq!(s.last_logits(), &vec![0.4f32, 0.5, 0.6]);
    assert_eq!(s.last_embeddings(), None);
    assert_eq!(s.cache().keys()[8..12].to_vec(), vec![5.0f32, 6.0, 7.0, 8.0]);
    let none: Vec<Vec<f32>> = vec![vec![], vec![]];
    assert_eq!(s.commit(&none, &none, &vec![], None, 3, 0), Err(EvalError::EmptyBatch));
}

#[test]
fn last_row_of_logits() {
    assert_eq!(read_last_row(&vec![1, 2, 3, 4, 5, 6], 2, 3), vec![5, 6]);
    assert_eq!(read_last_row(&vec![1, 2, 3], 3, 1), vec![1, 2, 3]);
}

#[test]
fn mask_hides_later_positions() {
    // two queries after two cached positions, four key positions each
    let scores = vec![1, 2, 3, 4, 5, 6, 7, 8];
    let m = diag_mask(&scores, 4, 2, 2);
    assert_eq!(m, vec![Some(1), Some(2), Some(3), None, Some(5), Some(6), Some(7), Some(8)]);
    let m0 = diag_mask(&vec![1, 2, 3, 4], 2, 2, 0);
    assert_eq!(m0, vec![Some(1), None, Some(3), Some(4)]);
}

#[test]
fn graph_has_one_block_per_layer() {
    let h = small();
    let g = build_graph(&h, 1, &[5, 6]).unwrap();
    assert_eq!(g.nodes.len(), 5 + 2 * 50 + 12);
    assert_eq!(g.logits, 5 + 2 * 50 + 11);
    assert_eq!(g.tokens, vec![5, 6]);
    assert_eq!(g.expand, vec![25, 26, 75, 76, 116]);
    assert_eq!(g.nodes[116], Op::Add(115, 113));
    assert_eq!(g.nodes[114], Op::Weight(WeightId::HeadBias));
}

#[test]
fn graph_writes_cache_at_n_past() {
    let h = small();
    let g = build_graph(&h, 1, &[5, 6]).unwrap();
    // layer 1 starts at 55
    assert_eq!(g.nodes[55 + 18], Op::View1d { src: 3, len: 4, offset: 10 });
    assert_eq!(
        g.nodes[55 + 19],
        Op::View2d { src: 4, ne0: 2, ne1: 2, stride1: 4, offset: 9 }
    );
    assert_eq!(g.nodes[55 + 23], Op::View1d { src: 3, len: 6, offset: 8 });
    assert_eq!(g.nodes[55 + 28], Op::DiagMaskInf { src: 55 + 27, n_past: 1 });
    assert_eq!(g.nodes[55 + 10], Op::Rope { src: 55 + 9, n_past: 1, n_rot: 2 });
}

#[test]
fn graph_branches_read_same_normalized_input() {
    let h = small();
    let g = build_graph(&h, 0, &[1]).unwrap();
    let b = 5;
    assert_eq!(g.nodes[b], Op::Norm(2));
    assert_eq!(g.nodes[b + 8], Op::MulMat(b + 7, b + 6));
    assert_eq!(g.nodes[b + 38], Op::MulMat(b + 37, b + 6));
    assert_eq!(g.nodes[b + 48], Op::Add(b + 47, b + 36));
    assert_eq!(g.nodes[b + 49], Op::Add(b + 48, 2));
    assert_eq!(g.nodes[55], Op::Norm(54));
}

#[test]
fn graph_refuses_empty_and_overflowing_batches() {
    let h = small();
    assert!(matches!(build_graph(&h, 0, &[]), Err(EvalError::EmptyBatch)));
    assert!(matches!(
        build_graph(&h, 3, &[1, 2]),
        Err(EvalError::ContextWindowExceeded(ContextWindowExceeded { n_past: 3, n: 2, n_ctx: 4 }))
    ));
    assert!(build_graph(&h, 2, &[1, 2]).is_ok());
}

#[test]
fn graph_is_the_same_for_the_same_inputs() {
    let h = small();
    let a = build_graph(&h, 1, &[3, 4]).unwrap();
    let b = build_graph(&h, 1, &[3, 4]).unwrap();
    assert_eq!(a.nodes, b.nodes);
    assert_eq!(a.expand, b.expand);
}

#[test]
fn session_step_builds_from_n_past() {
    let h = small();
    let mut s: Session<f32> = Session::start(&h, 0.0);
    let kv = vec![vec![1.0f32, 2.0], vec![3.0, 4.0]];
    assert_eq!(s.commit(&kv, &kv, &vec![0.0, 0.0, 0.0], None, 3, 1), Ok(()));
    let g = s.build_step(&h, &[9]).unwrap();
    assert_eq!(g.nodes[5 + 28], Op::DiagMaskInf { src: 5 + 27, n_past: 1 });
    assert_eq!(g.nodes[5 + 18], Op::View1d { src: 3, len: 2, offset: 2 });
}

#[test]
fn two_single_steps_fill_cache_like_one_double_step() {
    let h = small();
    let mut split: Session<f32> = Session::start(&h, 0.0);
    let mut whole: Session<f32> = Session::start(&h, 0.0);
    let k0 = vec![vec![1.0f32, 2.0], vec![3.0, 4.0]];
    let k1 = vec![vec![5.0f32, 6.0], vec![7.0, 8.0]];
    let v0 = vec![vec![-1.0f32, -2.0], vec![-3.0, -4.0]];
    let v1 = vec![vec![-5.0f32, -6.0], vec![-7.0, -8.0]];
    assert_eq!(split.commit(&k0, &v0, &vec![0.0, 0.0, 1.0], None, 3, 1), Ok(()));
    assert_eq!(split.commit(&k1, &v1, &vec![0.0, 2.0, 0.0], None, 3, 1), Ok(()));
    let kk = vec![vec![1.0f32, 2.0, 5.0, 6.0], vec![3.0, 4.0, 7.0, 8.0]];
    let vv = vec![vec![-1.0f32, -2.0, -5.0, -6.0], vec![-3.0, -4.0, -7.0, -8.0]];
    assert_eq!(whole.commit(&kk, &vv, &vec![0.0, 0.0, 1.0, 0.0, 2.0, 0.0], None, 3, 2), Ok(()));
    assert_eq!(split.n_past(), 2);
    assert_eq!(whole.n_past(), 2);
    assert_eq!(split.cache().keys(), whole.cache().keys());
    assert_eq!(split.cache().values(), whole.cache().values());
    assert_eq!(split.last_logits(), whole.last_logits());
    assert_eq!(whole.last_logits(), &vec![0.0f32, 2.0, 0.0]);
}

#[test]
fn commit_keeps_last_embeddings_when_asked() {
    let h = small();
    let mut s: Session<f32> = Session::start(&h, 0.0);
    assert_eq!(s.last_embeddings(), None);
    let kv = vec![vec![1.0f32, 2.0, 3.0, 4.0], vec![5.0, 6.0, 7.0, 8.0]];
    let logits = vec![0.1f32, 0.2, 0.3, 0.4, 0.5, 0.6];
    let embd = vec![9.0f32, 8.0, 7.0, 6.0];
    assert_eq!(s.commit(&kv, &kv, &logits, Some(embd), 3, 2), Ok(()));
    assert_eq!(s.last_embeddings(), Some(&vec![7.0f32, 6.0]));
    let one = vec![vec![1.0f32, 1.0], vec![1.0, 1.0]];
    assert_eq!(s.commit(&one, &one, &vec![0.0, 0.0, 0.0], None, 3, 1), Ok(()));
    assert_eq!(s.last_embeddings(), None);
}

#[test]
fn graph_names_embeddings_node() {
    let h = small();
    let g = build_graph(&h, 0, &[1]).unwrap();
    assert_eq!(g.embeddings, 105 + 6);
    assert_eq!(g.nodes[g.embeddings], Op::Add(108, 110));
    assert_eq!(g.nodes[105], Op::Norm(104));
}
