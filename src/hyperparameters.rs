use vstd::prelude::*;

verus! {

/// How the weights of a model file are stored.
#[derive(Debug, Clone, Copy, PartialEq, Eq, Structural)]
pub enum FileType {
    F32,
    MostlyF16,
    MostlyQ4_0,
    MostlyQ4_1,
    MostlyQ4_1SomeF16,
    MostlyQ4_2,
    MostlyQ8_0,
    MostlyQ5_0,
    MostlyQ5_1,
}

/// The code of each storage kind in a model file; `None` for an unknown code.
pub open spec fn file_type_of_code(code: int) -> Option<FileType> {
    if code == 0 {
        Some(FileType::F32)
    } else if code == 1 {
        Some(FileType::MostlyF16)
    } else if code == 2 {
        Some(FileType::MostlyQ4_0)
    } else if code == 3 {
        Some(FileType::MostlyQ4_1)
    } else if code == 4 {
        Some(FileType::MostlyQ4_1SomeF16)
    } else if code == 5 {
        Some(FileType::MostlyQ4_2)
    } else if code == 7 {
        Some(FileType::MostlyQ8_0)
    } else if code == 8 {
        Some(FileType::MostlyQ5_0)
    } else if code == 9 {
        Some(FileType::MostlyQ5_1)
    } else {
        None
    }
}

pub open spec fn code_of_file_type(t: FileType) -> int {
    match t {
        FileType::F32 => 0,
        FileType::MostlyF16 => 1,
        FileType::MostlyQ4_0 => 2,
        FileType::MostlyQ4_1 => 3,
        FileType::MostlyQ4_1SomeF16 => 4,
        FileType::MostlyQ4_2 => 5,
        FileType::MostlyQ8_0 => 7,
        FileType::MostlyQ5_0 => 8,
        FileType::MostlyQ5_1 => 9,
    }
}

impl FileType {
    /// Maps a code of a model file to its storage kind.
    pub fn from_code(code: i32) -> (r: Option<FileType>)
        ensures
            r == file_type_of_code(code as int),
    {
        match code {
            0 => Some(FileType::F32),
            1 => Some(FileType::MostlyF16),
            2 => Some(FileType::MostlyQ4_0),
            3 => Some(FileType::MostlyQ4_1),
            4 => Some(FileType::MostlyQ4_1SomeF16),
            5 => Some(FileType::MostlyQ4_2),
            7 => Some(FileType::MostlyQ8_0),
            8 => Some(FileType::MostlyQ5_0),
            9 => Some(FileType::MostlyQ5_1),
            _ => None,
        }
    }

    /// The code under which this storage kind is written.
    pub fn code(&self) -> (r: i32)
        ensures
            r as int == code_of_file_type(*self),
            file_type_of_code(r as int) == Some(*self),
    {
        match self {
            FileType::F32 => 0,
            FileType::MostlyF16 => 1,
            FileType::MostlyQ4_0 => 2,
            FileType::MostlyQ4_1 => 3,
            FileType::MostlyQ4_1SomeF16 => 4,
            FileType::MostlyQ4_2 => 5,
            FileType::MostlyQ8_0 => 7,
            FileType::MostlyQ5_0 => 8,
            FileType::MostlyQ5_1 => 9,
        }
    }
}

/// The shape of a model: vocabulary, context window, embedding width, heads, layers,
/// rotary width, and how its weights are stored.
#[derive(Debug, Clone, Copy, PartialEq, Eq, Structural)]
pub struct Hyperparameters {
    pub n_vocab: usize,
    pub n_ctx: usize,
    pub n_embd: usize,
    pub n_head: usize,
    pub n_layer: usize,
    pub n_rot: usize,
    pub file_type: FileType,
}

/// Why a header could not be read or written.
#[derive(Debug, Clone, Copy, PartialEq, Eq, Structural)]
pub enum HeaderError {
    /// The input ends before the header does.
    UnexpectedEnd,
    /// A size field is negative.
    NegativeField { index: usize, value: i32 },
    /// The storage kind code is not known.
    UnsupportedFileType(i32),
    /// The repeated vocabulary size disagrees with the first one.
    InvariantBroken { expected: usize, found: i32 },
    /// A field does not fit in a signed 32-bit integer.
    Overflow { index: usize },
}

/// The signed 32-bit little-endian integer held by four bytes.
pub open spec fn le_i32(b0: u8, b1: u8, b2: u8, b3: u8) -> int {
    let u = b0 as int + 256 * b1 as int + 65536 * b2 as int + 16777216 * b3 as int;
    if u < 0x8000_0000 {
        u
    } else {
        u - 0x1_0000_0000
    }
}

/// Field `k` of a header held in `b`.
pub open spec fn field(b: Seq<u8>, k: int) -> int {
    le_i32(b[4 * k], b[4 * k + 1], b[4 * k + 2], b[4 * k + 3])
}

/// What reading the size fields from field `k` on gives: the end of the input where the
/// next field is missing, the first negative field, or nothing wrong.
pub open spec fn size_fields_error(b: Seq<u8>, k: nat) -> Option<HeaderError>
    decreases 6 - k,
{
    if k >= 6 {
        None
    } else if b.len() < 4 * k + 4 {
        Some(HeaderError::UnexpectedEnd)
    } else if field(b, k as int) < 0 {
        Some(HeaderError::NegativeField { index: k as usize, value: field(b, k as int) as i32 })
    } else {
        size_fields_error(b, k + 1)
    }
}

/// What reading the header held at the start of `b` gives. Fields are read in order, and
/// the input may end only after a field that already decided the outcome.
pub open spec fn header_result(b: Seq<u8>) -> Result<Hyperparameters, HeaderError> {
    if size_fields_error(b, 0) is Some {
        Err(size_fields_error(b, 0)->Some_0)
    } else if b.len() < 28 {
        Err(HeaderError::UnexpectedEnd)
    } else if file_type_of_code(field(b, 6)) is None {
        Err(HeaderError::UnsupportedFileType(field(b, 6) as i32))
    } else if b.len() < 32 {
        Err(HeaderError::UnexpectedEnd)
    } else if field(b, 7) != field(b, 0) {
        Err(HeaderError::InvariantBroken { expected: field(b, 0) as usize, found: field(b, 7) as i32 })
    } else {
        Ok(
            Hyperparameters {
                n_vocab: field(b, 0) as usize,
                n_ctx: field(b, 1) as usize,
                n_embd: field(b, 2) as usize,
                n_head: field(b, 3) as usize,
                n_layer: field(b, 4) as usize,
                n_rot: field(b, 5) as usize,
                file_type: file_type_of_code(field(b, 6))->Some_0,
            },
        )
    }
}

/// Where every size field from `k` on is present and not negative, reading them finds
/// nothing wrong.
proof fn lemma_size_fields_ok(b: Seq<u8>, k: nat)
    requires
        b.len() >= 24,
        forall|j: int| k <= j < 6 ==> field(b, j) >= 0,
    ensures
        size_fields_error(b, k) is None,
    decreases 6 - k,
{
    if k < 6 {
        lemma_size_fields_ok(b, k + 1);
    }
}

/// The 28 bytes that hold the seven fields of a header, each a signed 32-bit value. A
/// model file follows them with the vocabulary size once more, which reading checks.
pub open spec fn header_bytes(h: Hyperparameters) -> Seq<u8> {
    le_bytes(h.n_vocab as int) + le_bytes(h.n_ctx as int) + le_bytes(h.n_embd as int)
        + le_bytes(h.n_head as int) + le_bytes(h.n_layer as int) + le_bytes(h.n_rot as int)
        + le_bytes(code_of_file_type(h.file_type))
}

/// The four little-endian bytes of a value in `0..2^31`.
#[verifier::opaque]
pub open spec fn le_bytes(v: int) -> Seq<u8> {
    seq![
        (v % 256) as u8,
        ((v / 256) % 256) as u8,
        ((v / 65536) % 256) as u8,
        ((v / 16777216) % 256) as u8,
    ]
}

/// Whether every size field fits in a signed 32-bit integer.
pub open spec fn fits_i32(h: Hyperparameters) -> bool {
    h.n_vocab <= i32::MAX && h.n_ctx <= i32::MAX && h.n_embd <= i32::MAX && h.n_head
        <= i32::MAX && h.n_layer <= i32::MAX && h.n_rot <= i32::MAX
}

/// The index of the first size field that does not fit in a signed 32-bit integer.
pub open spec fn first_overflow(h: Hyperparameters) -> usize {
    if h.n_vocab > i32::MAX {
        0
    } else if h.n_ctx > i32::MAX {
        1
    } else if h.n_embd > i32::MAX {
        2
    } else if h.n_head > i32::MAX {
        3
    } else if h.n_layer > i32::MAX {
        4
    } else {
        5
    }
}

/// Reads field `k` of the header at the start of `b`.
fn read_i32(b: &[u8], k: usize) -> (r: i32)
    requires
        k < 8,
        b@.len() >= 4 * k + 4,
    ensures
        r as int == field(b@, k as int),
{
    let i = 4 * k;
    let u: u32 = b[i] as u32 + 256 * (b[i + 1] as u32) + 65536 * (b[i + 2] as u32) + 16777216 * (
    b[i + 3] as u32);
    if u < 0x8000_0000 {
        u as i32
    } else {
        (u as i64 - 0x1_0000_0000i64) as i32
    }
}

/// Appends the four little-endian bytes of `v`.
fn push_i32(out: &mut Vec<u8>, v: u32)
    requires
        v <= i32::MAX,
    ensures
        final(out)@ == old(out)@ + le_bytes(v as int),
{
    reveal(le_bytes);
    out.push((v % 256) as u8);
    out.push(((v / 256) % 256) as u8);
    out.push(((v / 65536) % 256) as u8);
    out.push(((v / 16777216) % 256) as u8);
    assert(out@ =~= old(out)@ + le_bytes(v as int));
}

impl Hyperparameters {
    /// Reads a header: seven signed 32-bit little-endian fields in the order vocabulary size,
    /// context length, embedding width, head count, layer count, rotary width, storage kind,
    /// then the vocabulary size once more, which must agree with the first. Each field is
    /// checked as it is read; `UnexpectedEnd` comes where the next field is missing.
    pub fn read(b: &[u8]) -> (r: Result<Hyperparameters, HeaderError>)
        ensures
            r == header_result(b@),
    {
        let len = b.len();
        let mut vals: Vec<usize> = Vec::new();
        let mut k: usize = 0;
        while k < 6
            invariant
                len == b@.len(),
                k <= 6,
                vals@.len() == k,
                len >= 4 * k,
                forall|j: int| 0 <= j < k ==> field(b@, j) >= 0 && vals@[j] as int == field(b@, j),
                size_fields_error(b@, 0) == size_fields_error(b@, k as nat),
            decreases 6 - k,
        {
            if len < 4 * k + 4 {
                return Err(HeaderError::UnexpectedEnd);
            }
            let v = read_i32(b, k);
            if v < 0 {
                return Err(HeaderError::NegativeField { index: k, value: v });
            }
            vals.push(v as usize);
            k = k + 1;
        }
        if len < 28 {
            return Err(HeaderError::UnexpectedEnd);
        }
        let code = read_i32(b, 6);
        let file_type = match FileType::from_code(code) {
            Some(t) => t,
            None => {
                return Err(HeaderError::UnsupportedFileType(code));
            },
        };
        if len < 32 {
            return Err(HeaderError::UnexpectedEnd);
        }
        let repeat = read_i32(b, 7);
        if repeat as i64 != vals[0] as i64 {
            return Err(HeaderError::InvariantBroken { expected: vals[0], found: repeat });
        }
        Ok(
            Hyperparameters {
                n_vocab: vals[0],
                n_ctx: vals[1],
                n_embd: vals[2],
                n_head: vals[3],
                n_layer: vals[4],
                n_rot: vals[5],
                file_type,
            },
        )
    }

    /// Writes the seven fields of the header in the layout that `read` takes (the repeated
    /// vocabulary size that `read` checks is not part of it): `Overflow` names the first
    /// size field that does not fit in a signed 32-bit integer.
    pub fn write(&self) -> (r: Result<Vec<u8>, HeaderError>)
        ensures
            fits_i32(*self) ==> r is Ok && r->Ok_0@ == header_bytes(*self),
            !fits_i32(*self) ==> r == Err::<Vec<u8>, HeaderError>(
                HeaderError::Overflow { index: first_overflow(*self) },
            ),
    {
        let max: usize = 0x7fff_ffff;
        if self.n_vocab > max {
            return Err(HeaderError::Overflow { index: 0 });
        }
        if self.n_ctx > max {
            return Err(HeaderError::Overflow { index: 1 });
        }
        if self.n_embd > max {
            return Err(HeaderError::Overflow { index: 2 });
        }
        if self.n_head > max {
            return Err(HeaderError::Overflow { index: 3 });
        }
        if self.n_layer > max {
            return Err(HeaderError::Overflow { index: 4 });
        }
        if self.n_rot > max {
            return Err(HeaderError::Overflow { index: 5 });
        }
        let mut out: Vec<u8> = Vec::new();
        push_i32(&mut out, self.n_vocab as u32);
        push_i32(&mut out, self.n_ctx as u32);
        push_i32(&mut out, self.n_embd as u32);
        push_i32(&mut out, self.n_head as u32);
        push_i32(&mut out, self.n_layer as u32);
        push_i32(&mut out, self.n_rot as u32);
        push_i32(&mut out, self.file_type.code() as u32);
        Ok(out)
    }

    /// The vocabulary size.
    pub fn n_vocabulary(&self) -> (r: usize)
        ensures
            r == self.n_vocab,
    {
        self.n_vocab
    }
}

proof fn lemma_le_bytes_round_trip(v: int)
    requires
        0 <= v <= i32::MAX,
    ensures
        le_bytes(v).len() == 4,
        le_i32(le_bytes(v)[0], le_bytes(v)[1], le_bytes(v)[2], le_bytes(v)[3]) == v,
{
    reveal(le_bytes);
    let b = le_bytes(v);
    let q1 = v / 256;
    let q2 = q1 / 256;
    let q3 = q2 / 256;
    assert(v == q1 * 256 + v % 256);
    assert(q1 == q2 * 256 + q1 % 256);
    assert(q2 == q3 * 256 + q2 % 256);
    assert(q2 == v / 65536) by {
        vstd::arithmetic::div_mod::lemma_div_denominator(v, 256, 256);
    }
    assert(q3 == v / 16777216) by {
        vstd::arithmetic::div_mod::lemma_div_denominator(v, 65536, 256);
    }
    assert(q3 < 128);
    assert(b[0] as int == v % 256);
    assert(b[1] as int == q1 % 256);
    assert(b[2] as int == q2 % 256);
    assert(b[3] as int == q3 % 256);
    assert(q3 % 256 == q3);
}

proof fn lemma_field_at(b: Seq<u8>, k: int, v: int)
    requires
        0 <= k,
        4 * k + 4 <= b.len(),
        b.subrange(4 * k, 4 * k + 4) == le_bytes(v),
        0 <= v <= i32::MAX,
    ensures
        field(b, k) == v,
{
    lemma_le_bytes_round_trip(v);
    assert(b[4 * k] == b.subrange(4 * k, 4 * k + 4)[0]);
    assert(b[4 * k + 1] == b.subrange(4 * k, 4 * k + 4)[1]);
    assert(b[4 * k + 2] == b.subrange(4 * k, 4 * k + 4)[2]);
    assert(b[4 * k + 3] == b.subrange(4 * k, 4 * k + 4)[3]);
}

proof fn lemma_header_fields(h: Hyperparameters)
    requires
        fits_i32(h),
    ensures
        (header_bytes(h) + le_bytes(h.n_vocab as int)).len() == 32,
        field(header_bytes(h) + le_bytes(h.n_vocab as int), 0) == h.n_vocab as int,
        field(header_bytes(h) + le_bytes(h.n_vocab as int), 1) == h.n_ctx as int,
        field(header_bytes(h) + le_bytes(h.n_vocab as int), 2) == h.n_embd as int,
        field(header_bytes(h) + le_bytes(h.n_vocab as int), 3) == h.n_head as int,
        field(header_bytes(h) + le_bytes(h.n_vocab as int), 4) == h.n_layer as int,
        field(header_bytes(h) + le_bytes(h.n_vocab as int), 5) == h.n_rot as int,
        field(header_bytes(h) + le_bytes(h.n_vocab as int), 6) == code_of_file_type(h.file_type),
        field(header_bytes(h) + le_bytes(h.n_vocab as int), 7) == h.n_vocab as int,
{
    let b = header_bytes(h) + le_bytes(h.n_vocab as int);
    let vals = seq![
        h.n_vocab as int,
        h.n_ctx as int,
        h.n_embd as int,
        h.n_head as int,
        h.n_layer as int,
        h.n_rot as int,
        code_of_file_type(h.file_type),
        h.n_vocab as int,
    ];
    assert forall|v: int| #[trigger] le_bytes(v).len() == 4 by {
        reveal(le_bytes);
    }
    assert(b.subrange(0, 4) =~= le_bytes(vals[0]));
    lemma_field_at(b, 0, vals[0]);
    assert(b.subrange(4, 8) =~= le_bytes(vals[1]));
    lemma_field_at(b, 1, vals[1]);
    assert(b.subrange(8, 12) =~= le_bytes(vals[2]));
    lemma_field_at(b, 2, vals[2]);
    assert(b.subrange(12, 16) =~= le_bytes(vals[3]));
    lemma_field_at(b, 3, vals[3]);
    assert(b.subrange(16, 20) =~= le_bytes(vals[4]));
    lemma_field_at(b, 4, vals[4]);
    assert(b.subrange(20, 24) =~= le_bytes(vals[5]));
    lemma_field_at(b, 5, vals[5]);
    assert(b.subrange(24, 28) =~= le_bytes(vals[6]));
    lemma_field_at(b, 6, vals[6]);
    assert(b.subrange(28, 32) =~= le_bytes(vals[7]));
    lemma_field_at(b, 7, vals[7]);
}

/// Writing a header, followed by the repeated vocabulary size, and reading it back gives the
/// same hyperparameters, for every header whose size fields fit in a signed 32-bit integer.
#[verifier::rlimit(100)]
pub proof fn lemma_header_round_trip(h: Hyperparameters)
    requires
        fits_i32(h),
    ensures
        header_result(header_bytes(h) + le_bytes(h.n_vocab as int)) == Ok::<Hyperparameters, HeaderError>(h),
{
    let b = header_bytes(h) + le_bytes(h.n_vocab as int);
    lemma_header_fields(h);
    lemma_size_fields_ok(b, 0);
    assert(file_type_of_code(code_of_file_type(h.file_type)) == Some(h.file_type));
}

/// A header whose fields are otherwise valid is read exactly when its repeated vocabulary
/// size agrees with the first one; when they disagree, reading fails with `InvariantBroken`.
pub proof fn lemma_vocab_consistency(b: Seq<u8>)
    requires
        b.len() >= 32,
        forall|k: int| 0 <= k < 6 ==> field(b, k) >= 0,
        file_type_of_code(field(b, 6)) is Some,
    ensures
        header_result(b) is Ok <==> field(b, 7) == field(b, 0),
        field(b, 7) != field(b, 0) ==> header_result(b) == Err::<Hyperparameters, HeaderError>(
            HeaderError::InvariantBroken { expected: field(b, 0) as usize, found: field(b, 7) as i32 },
        ),
{
    lemma_size_fields_ok(b, 0);
}

} // verus!
