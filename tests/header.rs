use gptj::hyperparameters::{FileType, HeaderError, Hyperparameters};

fn header(fields: &[i32]) -> Vec<u8> {
    let mut out = Vec::new();
    for f in fields {
        out.extend_from_slice(&f.to_le_bytes());
    }
    out
}

fn sample() -> Hyperparameters {
    Hyperparameters {
        n_vocab: 50400,
        n_ctx: 2048,
        n_embd: 4096,
        n_head: 16,
        n_layer: 28,
        n_rot: 64,
        file_type: FileType::MostlyQ4_0,
    }
}

#[test]
fn read_accepts_matching_vocab_fields() {
    let b = header(&[50257, 1024, 768, 12, 12, 64, 1, 50257]);
    let h = Hyperparameters::read(&b).unwrap();
    assert_eq!(h.n_vocab, 50257);
    assert_eq!(h.n_ctx, 1024);
    assert_eq!(h.n_embd, 768);
    assert_eq!(h.n_head, 12);
    assert_eq!(h.n_layer, 12);
    assert_eq!(h.n_rot, 64);
    assert_eq!(h.file_type, FileType::MostlyF16);
    assert_eq!(h.n_vocabulary(), 50257);
}

#[test]
fn read_rejects_disagreeing_vocab_fields() {
    let b = header(&[50257, 1024, 768, 12, 12, 64, 1, 50256]);
    assert_eq!(
        Hyperparameters::read(&b),
        Err(HeaderError::InvariantBroken { expected: 50257, found: 50256 })
    );
}

#[test]
fn read_rejects_unknown_file_type() {
    let b = header(&[50257, 1024, 768, 12, 12, 64, 6, 50257]);
    assert_eq!(Hyperparameters::read(&b), Err(HeaderError::UnsupportedFileType(6)));
}

#[test]
fn read_rejects_negative_field() {
    let b = header(&[50257, 1024, -768, 12, -1, 64, 1, 50257]);
    assert_eq!(
        Hyperparameters::read(&b),
        Err(HeaderError::NegativeField { index: 2, value: -768 })
    );
}

#[test]
fn read_rejects_short_input() {
    let b = header(&[50257, 1024, 768, 12, 12, 64, 1]);
    assert_eq!(Hyperparameters::read(&b), Err(HeaderError::UnexpectedEnd));
}

#[test]
fn read_checks_file_type_before_repeated_vocab() {
    let b = header(&[50257, 1024, 768, 12, 12, 64, 6]);
    assert_eq!(Hyperparameters::read(&b), Err(HeaderError::UnsupportedFileType(6)));
}

#[test]
fn read_reports_negative_field_in_short_input() {
    let b = header(&[50257, -1]);
    assert_eq!(
        Hyperparameters::read(&b),
        Err(HeaderError::NegativeField { index: 1, value: -1 })
    );
    let c = header(&[50257, 1024, 768]);
    assert_eq!(Hyperparameters::read(&c), Err(HeaderError::UnexpectedEnd));
    let d = header(&[50257, 1024, 768, 12]);
    assert_eq!(Hyperparameters::read(&d[..13]), Err(HeaderError::UnexpectedEnd));
}

#[test]
fn read_ignores_bytes_after_header() {
    let mut b = header(&[10, 4, 8, 2, 1, 4, 0, 10]);
    b.extend_from_slice(&[1, 2, 3]);
    let h = Hyperparameters::read(&b).unwrap();
    assert_eq!(h.file_type, FileType::F32);
    assert_eq!(h.n_ctx, 4);
}

#[test]
fn write_lays_out_fields_in_order() {
    let h = sample();
    let b = h.write().unwrap();
    assert_eq!(b, header(&[50400, 2048, 4096, 16, 28, 64, 2]));
}

#[test]
fn write_then_read_round_trips() {
    let h = sample();
    let mut b = h.write().unwrap();
    assert_eq!(Hyperparameters::read(&b), Err(HeaderError::UnexpectedEnd));
    b.extend_from_slice(&50400i32.to_le_bytes());
    assert_eq!(Hyperparameters::read(&b), Ok(h));
}

#[test]
fn write_rejects_field_over_i32() {
    let mut h = sample();
    h.n_embd = (i32::MAX as usize) + 1;
    h.n_rot = usize::MAX;
    assert_eq!(h.write(), Err(HeaderError::Overflow { index: 2 }));
}

#[test]
fn file_type_codes() {
    assert_eq!(FileType::from_code(7), Some(FileType::MostlyQ8_0));
    assert_eq!(FileType::from_code(9), Some(FileType::MostlyQ5_1));
    assert_eq!(FileType::from_code(-1), None);
    assert_eq!(FileType::MostlyQ5_0.code(), 8);
    assert_eq!(FileType::MostlyQ4_1SomeF16.code(), 4);
}
