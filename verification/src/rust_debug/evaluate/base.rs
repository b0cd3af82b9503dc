//! Decoding base-type values from raw little-endian bytes or 32-bit words.
use vstd::prelude::*;
use crate::rust_debug::evaluate::value::BaseValue;

verus! {

/// The number that little-endian bytes `s` hold.
pub open spec fn le_value(s: Seq<u8>) -> nat
    decreases s.len(),
{
    if s.len() == 0 {
        0
    } else {
        s[0] as nat + 256 * le_value(s.drop_first())
    }
}

/// The `n` low bytes of `x`, least significant first (`to_le_bytes`).
pub open spec fn le_bytes(x: nat, n: nat) -> Seq<u8>
    decreases n,
{
    if n == 0 {
        seq![]
    } else {
        seq![(x % 256) as u8] + le_bytes(x / 256, (n - 1) as nat)
    }
}

/// `256` to the power `n`.
pub open spec fn pow256(n: nat) -> nat
    decreases n,
{
    if n == 0 {
        1
    } else {
        256 * pow256((n - 1) as nat)
    }
}

/// The number that `n` little-endian bytes hold is below `256^n`.
pub proof fn lemma_le_value_bound(s: Seq<u8>)
    ensures
        le_value(s) < pow256(s.len()),
    decreases s.len(),
{
    if s.len() > 0 {
        lemma_le_value_bound(s.drop_first());
    }
}

/// Writing a number as `n` little-endian bytes gives `n` bytes.
pub proof fn lemma_le_bytes_len(x: nat, n: nat)
    ensures
        le_bytes(x, n).len() == n,
    decreases n,
{
    if n > 0 {
        lemma_le_bytes_len(x / 256, (n - 1) as nat);
    }
}

/// The `n` low bytes of `x`, least significant first.
pub fn to_le_bytes(x: u64, n: usize) -> (v: Vec<u8>)
    ensures
        v@ == le_bytes(x as nat, n as nat),
{
    let mut v: Vec<u8> = Vec::new();
    let mut cur: u64 = x;
    let mut k: usize = 0;
    while k < n
        invariant
            k <= n,
            v@ + le_bytes(cur as nat, (n - k) as nat) == le_bytes(x as nat, n as nat),
        decreases n - k,
    {
        let b = (cur % 256) as u8;
        assert(le_bytes(cur as nat, (n - k) as nat) == seq![b] + le_bytes((cur / 256) as nat, (n - k
            - 1) as nat));
        assert(v@ + le_bytes(cur as nat, (n - k) as nat) =~= v@.push(b) + le_bytes(
            (cur / 256) as nat,
            (n - k - 1) as nat,
        ));
        v.push(b);
        cur = cur / 256;
        k += 1;
    }
    assert(le_bytes(cur as nat, 0) =~= seq![]);
    assert(v@ + seq![] =~= v@);
    v
}

proof fn lemma_le_value_skip(s: Seq<u8>, i: int)
    requires
        0 <= i < s.len(),
    ensures
        le_value(s.skip(i)) == s[i] + 256 * le_value(s.skip(i + 1)),
{
    assert(s.skip(i).drop_first() =~= s.skip(i + 1));
}

/// The number that at most eight little-endian bytes hold.
pub fn from_le_bytes(s: &Vec<u8>) -> (r: u64)
    requires
        s.len() <= 8,
    ensures
        r as nat == le_value(s@),
{
    let mut acc: u64 = 0;
    let mut i: usize = s.len();
    assert(s@.skip(s.len() as int) =~= seq![]);
    while i > 0
        invariant
            i <= s.len() <= 8,
            acc as nat == le_value(s@.skip(i as int)),
        decreases i,
    {
        proof {
            lemma_le_value_skip(s@, i - 1);
            lemma_le_value_bound(s@.skip(i - 1));
            assert(pow256((s.len() - (i - 1)) as nat) <= pow256(8)) by {
                lemma_pow256_mono((s.len() - (i - 1)) as nat, 8);
            }
            assert(pow256(8) == 0x1_0000_0000_0000_0000) by {
                reveal_with_fuel(pow256, 9);
            }
        }
        acc = (s[i - 1] as u64) + 256 * acc;
        i -= 1;
    }
    assert(s@.skip(0) =~= s@);
    acc
}

proof fn lemma_pow256_mono(a: nat, b: nat)
    requires
        a <= b,
    ensures
        pow256(a) <= pow256(b),
    decreases b,
{
    if a < b {
        lemma_pow256_mono(a, (b - 1) as nat);
    }
}

/// The base value that `new_eval_base_type` reads from `data` with the given
/// DWARF base-type encoding (`DW_ATE_*`), `None` for the combinations it does
/// not handle.
pub open spec fn base_value_from_bytes(data: Seq<u8>, encoding: u8) -> Option<BaseValue> {
    let v = le_value(data);
    let n = data.len();
    if encoding == 1 && n == 4 {
        Some(BaseValue::Address32(v as u32))
    } else if encoding == 2 && n == 1 {
        Some(BaseValue::Bool(v == 1))
    } else if encoding == 4 && n == 4 {
        Some(BaseValue::F32(v as u32))
    } else if encoding == 4 && n == 8 {
        Some(BaseValue::F64(v as u64))
    } else if encoding == 5 && n == 1 {
        Some(BaseValue::I8((v as u8) as i8))
    } else if encoding == 5 && n == 2 {
        Some(BaseValue::I16((v as u16) as i16))
    } else if encoding == 5 && n == 4 {
        Some(BaseValue::I32((v as u32) as i32))
    } else if encoding == 5 && n == 8 {
        Some(BaseValue::I64((v as u64) as i64))
    } else if encoding == 7 && n == 1 {
        Some(BaseValue::U8(v as u8))
    } else if encoding == 7 && n == 2 {
        Some(BaseValue::U16(v as u16))
    } else if encoding == 7 && n == 4 {
        Some(BaseValue::U32(v as u32))
    } else if encoding == 7 && n == 8 {
        Some(BaseValue::U64(v as u64))
    } else {
        None
    }
}

/// The encodings and lengths that `new_eval_base_type` handles.
pub open spec fn base_encoding_supported(encoding: u8, len: nat) -> bool {
    (encoding == 1 && len == 4) || (encoding == 2 && len == 1) || (encoding == 4 && (len == 4 || len
        == 8)) || ((encoding == 5 || encoding == 7) && (len == 1 || len == 2 || len == 4 || len == 8))
}

/// The decoder handles exactly the supported encodings and lengths.
pub proof fn lemma_base_value_defined(data: Seq<u8>, encoding: u8)
    ensures
        base_value_from_bytes(data, encoding) is Some <==> base_encoding_supported(
            encoding,
            data.len(),
        ),
{
}

/// Whether `new_eval_base_type` handles `len` bytes with `encoding`.
pub fn supported_base_encoding(encoding: u8, len: usize) -> (r: bool)
    ensures
        r == base_encoding_supported(encoding, len as nat),
{
    (encoding == 1 && len == 4) || (encoding == 2 && len == 1) || (encoding == 4 && (len == 4 || len
        == 8)) || ((encoding == 5 || encoding == 7) && (len == 1 || len == 2 || len == 4 || len == 8))
}

/// Decodes a base-type value from its little-endian bytes.
pub fn new_eval_base_type(data: Vec<u8>, encoding: u8) -> (r: BaseValue)
    requires
        base_value_from_bytes(data@, encoding) is Some,
    ensures
        Some(r) == base_value_from_bytes(data@, encoding),
{
    let n = data.len();
    let v = from_le_bytes(&data);
    if encoding == 1 && n == 4 {
        BaseValue::Address32(v as u32)
    } else if encoding == 2 && n == 1 {
        BaseValue::Bool(v == 1)
    } else if encoding == 4 && n == 4 {
        BaseValue::F32(v as u32)
    } else if encoding == 4 {
        BaseValue::F64(v)
    } else if encoding == 5 && n == 1 {
        BaseValue::I8((v as u8) as i8)
    } else if encoding == 5 && n == 2 {
        BaseValue::I16((v as u16) as i16)
    } else if encoding == 5 && n == 4 {
        BaseValue::I32((v as u32) as i32)
    } else if encoding == 5 {
        BaseValue::I64(v as i64)
    } else if n == 1 {
        BaseValue::U8(v as u8)
    } else if n == 2 {
        BaseValue::U16(v as u16)
    } else if n == 4 {
        BaseValue::U32(v as u32)
    } else {
        BaseValue::U64(v)
    }
}

/// The 64-bit number that one or two 32-bit words hold (low word first).
pub open spec fn words_value(data: Seq<u32>) -> u64 {
    if data.len() < 2 {
        data[0] as u64
    } else {
        (data[1] * 0x1_0000_0000 + data[0]) as u64
    }
}

/// Joins one or two 32-bit words into a 64-bit number, low word first.
pub fn slize_as_u64(data: &[u32]) -> (r: u64)
    requires
        1 <= data@.len() <= 2,
    ensures
        r == words_value(data@),
{
    if data.len() < 2 {
        return data[0] as u64;
    }
    (data[1] as u64) * 0x1_0000_0000 + (data[0] as u64)
}

/// The base value that `eval_base_type` reads from the word value `value`
/// with the given encoding and byte size, `None` for the combinations it
/// does not handle.
pub open spec fn base_value_from_word(value: u64, encoding: u8, byte_size: u64) -> Option<BaseValue> {
    if encoding == 1 && byte_size == 4 {
        Some(BaseValue::Address32(value as u32))
    } else if encoding == 2 && byte_size == 1 {
        Some(BaseValue::Bool((value as u8) == 1))
    } else if encoding == 4 && byte_size == 4 {
        Some(BaseValue::F32(value as u32))
    } else if encoding == 4 && byte_size == 8 {
        Some(BaseValue::F64(value))
    } else if encoding == 5 && byte_size == 1 {
        Some(BaseValue::I8(value as i8))
    } else if encoding == 5 && byte_size == 2 {
        Some(BaseValue::I16(value as i16))
    } else if encoding == 5 && byte_size == 4 {
        Some(BaseValue::I32(value as i32))
    } else if encoding == 5 && byte_size == 8 {
        Some(BaseValue::I64(value as i64))
    } else if encoding == 7 && byte_size == 1 {
        Some(BaseValue::U8(value as u8))
    } else if encoding == 7 && byte_size == 2 {
        Some(BaseValue::U16(value as u16))
    } else if encoding == 7 && byte_size == 4 {
        Some(BaseValue::U32(value as u32))
    } else if encoding == 7 && byte_size == 8 {
        Some(BaseValue::U64(value))
    } else {
        None
    }
}

/// The encodings and byte sizes that `eval_base_type` handles.
pub open spec fn word_encoding_supported(encoding: u8, byte_size: u64) -> bool {
    (encoding == 1 && byte_size == 4) || (encoding == 2 && byte_size == 1) || (encoding == 4 && (
    byte_size == 4 || byte_size == 8)) || ((encoding == 5 || encoding == 7) && (byte_size == 1
        || byte_size == 2 || byte_size == 4 || byte_size == 8))
}

/// Whether `eval_base_type` handles `encoding` with `byte_size`.
pub fn supported_word_encoding(encoding: u8, byte_size: u64) -> (r: bool)
    ensures
        r == word_encoding_supported(encoding, byte_size),
        forall|v: u64| r == (#[trigger] base_value_from_word(v, encoding, byte_size)) is Some,
{
    (encoding == 1 && byte_size == 4) || (encoding == 2 && byte_size == 1) || (encoding == 4 && (
    byte_size == 4 || byte_size == 8)) || ((encoding == 5 || encoding == 7) && (byte_size == 1
        || byte_size == 2 || byte_size == 4 || byte_size == 8))
}

/// Decodes a base-type value from one or two 32-bit words.
pub fn eval_base_type(data: &[u32], encoding: u8, byte_size: u64) -> (r: BaseValue)
    requires
        1 <= data@.len() <= 2,
        base_value_from_word(words_value(data@), encoding, byte_size) is Some,
    ensures
        Some(r) == base_value_from_word(words_value(data@), encoding, byte_size),
{
    let value = slize_as_u64(data);
    if encoding == 1 && byte_size == 4 {
        BaseValue::Address32(value as u32)
    } else if encoding == 2 && byte_size == 1 {
        BaseValue::Bool((value as u8) == 1)
    } else if encoding == 4 && byte_size == 4 {
        BaseValue::F32(value as u32)
    } else if encoding == 4 {
        BaseValue::F64(value)
    } else if encoding == 5 && byte_size == 1 {
        BaseValue::I8(value as i8)
    } else if encoding == 5 && byte_size == 2 {
        BaseValue::I16(value as i16)
    } else if encoding == 5 && byte_size == 4 {
        BaseValue::I32(value as i32)
    } else if encoding == 5 {
        BaseValue::I64(value as i64)
    } else if byte_size == 1 {
        BaseValue::U8(value as u8)
    } else if byte_size == 2 {
        BaseValue::U16(value as u16)
    } else if byte_size == 4 {
        BaseValue::U32(value as u32)
    } else {
        BaseValue::U64(value)
    }
}

/// A base-type DIE as `parse_base_type` reads it: its encoding and byte size.
#[derive(Debug, Clone, Copy, PartialEq, Eq, Structural)]
pub struct BaseTypeInfo {
    pub encoding: u8,
    pub byte_size: u64,
}

/// Decodes the words handed over by the expression evaluator with the given
/// base type; no base type (the offset 0) means the generic type.
pub fn parse_base_type(data: &[u32], base_type: Option<BaseTypeInfo>) -> (r: BaseValue)
    requires
        1 <= data@.len() <= 2,
        base_type matches Some(bt) ==> base_value_from_word(
            words_value(data@),
            bt.encoding,
            bt.byte_size,
        ) is Some,
    ensures
        match base_type {
            None => r == BaseValue::Generic(words_value(data@)),
            Some(bt) => Some(r) == base_value_from_word(words_value(data@), bt.encoding, bt.byte_size),
        },
{
    match base_type {
        None => BaseValue::Generic(slize_as_u64(data)),
        Some(bt) => eval_base_type(data, bt.encoding, bt.byte_size),
    }
}

/// Decoding the little-endian bytes of an unsigned number gives the number
/// back, for every width the decoder handles.
pub proof fn lemma_unsigned_round_trip(x: u64, n: nat)
    requires
        n == 1 || n == 2 || n == 4 || n == 8,
        x < pow256(n),
    ensures
        le_value(le_bytes(x as nat, n)) == x,
    decreases n,
{
    lemma_le_bytes_value(x as nat, n);
}

proof fn lemma_le_bytes_value(x: nat, n: nat)
    requires
        x < pow256(n),
    ensures
        le_value(le_bytes(x, n)) == x,
    decreases n,
{
    if n > 0 {
        let rest = le_bytes(x / 256, (n - 1) as nat);
        assert((seq![(x % 256) as u8] + rest).drop_first() =~= rest);
        assert(x / 256 < pow256((n - 1) as nat));
        lemma_le_bytes_value(x / 256, (n - 1) as nat);
    }
}


/// The two's-complement reading of `x` as a number of `m` values
/// (`0 <= x < m`): `x` below `m / 2`, `x - m` from there on.
pub open spec fn twos(x: int, m: int) -> int {
    if x < m / 2 {
        x
    } else {
        x - m
    }
}

/// What the casts from a 64-bit word to the narrower integer types give:
/// the low bits, read as unsigned or in two's complement.
pub proof fn lemma_word_casts(v: u64)
    ensures
        (v as u8) as int == v % 0x100,
        (v as u16) as int == v % 0x1_0000,
        (v as u32) as int == v % 0x1_0000_0000,
        (v as i8) as int == twos(v as int % 0x100, 0x100),
        (v as i16) as int == twos(v as int % 0x1_0000, 0x1_0000),
        (v as i32) as int == twos(v as int % 0x1_0000_0000, 0x1_0000_0000),
        (v as i64) as int == twos(v as int, 0x1_0000_0000_0000_0000),
{
    assert((v as u8) == v % 0x100) by (bit_vector);
    assert((v as u16) == v % 0x1_0000) by (bit_vector);
    assert((v as u32) == v % 0x1_0000_0000) by (bit_vector);
    let w8: u64 = v % 0x100;
    assert(w8 < 0x80 ==> (v as i8) == (w8 as i8)) by (bit_vector)
        requires
            w8 == v % 0x100,
    ;
    if w8 >= 0x80 {
        let t: i64 = (w8 as i64 - 0x100) as i64;
        assert((v as i8) == (t as i8)) by (bit_vector)
            requires
                w8 == v % 0x100,
                t == (w8 as i64) - 0x100i64,
                w8 >= 0x80,
        ;
    }
    let w16: u64 = v % 0x1_0000;
    assert(w16 < 0x8000 ==> (v as i16) == (w16 as i16)) by (bit_vector)
        requires
            w16 == v % 0x1_0000,
    ;
    if w16 >= 0x8000 {
        let t: i64 = (w16 as i64 - 0x1_0000) as i64;
        assert((v as i16) == (t as i16)) by (bit_vector)
            requires
                w16 == v % 0x1_0000,
                t == (w16 as i64) - 0x1_0000i64,
                w16 >= 0x8000,
        ;
    }
    let w32: u64 = v % 0x1_0000_0000;
    assert(w32 < 0x8000_0000 ==> (v as i32) == (w32 as i32)) by (bit_vector)
        requires
            w32 == v % 0x1_0000_0000,
    ;
    if w32 >= 0x8000_0000 {
        let t: i64 = (w32 as i64 - 0x1_0000_0000) as i64;
        assert((v as i32) == (t as i32)) by (bit_vector)
            requires
                w32 == v % 0x1_0000_0000,
                t == (w32 as i64) - 0x1_0000_0000i64,
                w32 >= 0x8000_0000,
        ;
    }
    assert(v < 0x8000_0000_0000_0000 ==> (v as i64) as u64 == v) by (bit_vector);
    if v >= 0x8000_0000_0000_0000 {
        let nv: u64 = !v;
        assert(nv == 0xffff_ffff_ffff_ffff - v) by (bit_vector)
            requires
                nv == !v,
        ;
        assert((v as i64) == -(nv as i64) - 1) by (bit_vector)
            requires
                nv == !v,
                v >= 0x8000_0000_0000_0000,
        ;
    }
}

/// What the casts from the unsigned to the signed types of one width give:
/// the two's-complement reading.
pub proof fn lemma_signed_casts(a: u8, b: u16, c: u32)
    ensures
        (a as i8) as int == twos(a as int, 0x100),
        (b as i16) as int == twos(b as int, 0x1_0000),
        (c as i32) as int == twos(c as int, 0x1_0000_0000),
{
    let a64 = a as u64;
    let b64 = b as u64;
    let c64 = c as u64;
    assert((a as i8) == (a64 as i8)) by (bit_vector)
        requires
            a64 == a as u64,
    ;
    assert((b as i16) == (b64 as i16)) by (bit_vector)
        requires
            b64 == b as u64,
    ;
    assert((c as i32) == (c64 as i32)) by (bit_vector)
        requires
            c64 == c as u64,
    ;
    lemma_word_casts(a64);
    lemma_word_casts(b64);
    lemma_word_casts(c64);
}

proof fn lemma_pow256_values()
    ensures
        pow256(1) == 0x100,
        pow256(2) == 0x1_0000,
        pow256(4) == 0x1_0000_0000,
        pow256(8) == 0x1_0000_0000_0000_0000,
{
    reveal_with_fuel(pow256, 9);
}

/// Decoding little-endian bytes: the `n` bytes of a number `x` below
/// `256^n` (`n` of 1, 2, 4 or 8) decode, as an unsigned type, to `x` in the
/// type of that width, and as a signed type to the two's-complement reading
/// of `x`; four bytes decode as an address to `x`, one byte as a boolean to
/// whether `x` is 1.
pub proof fn lemma_little_endian_decoding(x: nat, n: nat)
    requires
        n == 1 || n == 2 || n == 4 || n == 8,
        x < pow256(n),
    ensures
        n == 1 ==> base_value_from_bytes(le_bytes(x, n), 7) == Some(BaseValue::U8(x as u8))
            && base_value_from_bytes(le_bytes(x, n), 2) == Some(BaseValue::Bool(x == 1))
            && (base_value_from_bytes(le_bytes(x, n), 5) matches Some(BaseValue::I8(s)) && s as int
            == twos(x as int, 0x100)),
        n == 2 ==> base_value_from_bytes(le_bytes(x, n), 7) == Some(BaseValue::U16(x as u16))
            && (base_value_from_bytes(le_bytes(x, n), 5) matches Some(BaseValue::I16(s)) && s as int
            == twos(x as int, 0x1_0000)),
        n == 4 ==> base_value_from_bytes(le_bytes(x, n), 7) == Some(BaseValue::U32(x as u32))
            && base_value_from_bytes(le_bytes(x, n), 1) == Some(BaseValue::Address32(x as u32))
            && (base_value_from_bytes(le_bytes(x, n), 5) matches Some(BaseValue::I32(s)) && s as int
            == twos(x as int, 0x1_0000_0000)),
        n == 8 ==> base_value_from_bytes(le_bytes(x, n), 7) == Some(BaseValue::U64(x as u64))
            && (base_value_from_bytes(le_bytes(x, n), 5) matches Some(BaseValue::I64(s)) && s as int
            == twos(x as int, 0x1_0000_0000_0000_0000)),
{
    lemma_pow256_values();
    lemma_le_bytes_value(x, n);
    lemma_le_bytes_len(x, n);
    if n == 1 {
        lemma_signed_casts(x as u8, 0, 0);
    } else if n == 2 {
        lemma_signed_casts(0, x as u16, 0);
    } else if n == 4 {
        lemma_signed_casts(0, 0, x as u32);
    } else {
        lemma_word_casts(x as u64);
    }
}

/// Decoding a word value: as an unsigned type of `b` bytes (1, 2, 4 or 8)
/// it gives the low `8 * b` bits of the value, as a signed type their
/// two's-complement reading, as a four-byte address the low 32 bits, as a
/// one-byte boolean whether the low byte is 1.
pub proof fn lemma_word_decoding(v: u64)
    ensures
        base_value_from_word(v, 7, 1) == Some(BaseValue::U8((v % 0x100) as u8)),
        base_value_from_word(v, 7, 2) == Some(BaseValue::U16((v % 0x1_0000) as u16)),
        base_value_from_word(v, 7, 4) == Some(BaseValue::U32((v % 0x1_0000_0000) as u32)),
        base_value_from_word(v, 7, 8) == Some(BaseValue::U64(v)),
        base_value_from_word(v, 1, 4) == Some(BaseValue::Address32((v % 0x1_0000_0000) as u32)),
        base_value_from_word(v, 2, 1) == Some(BaseValue::Bool(v % 0x100 == 1)),
        base_value_from_word(v, 5, 1) matches Some(BaseValue::I8(s)) && s as int == twos(v as int % 0x100, 0x100),
        base_value_from_word(v, 5, 2) matches Some(BaseValue::I16(s)) && s as int == twos(v as int % 0x1_0000, 0x1_0000),
        base_value_from_word(v, 5, 4) matches Some(BaseValue::I32(s)) && s as int == twos(v as int % 0x1_0000_0000, 0x1_0000_0000),
        base_value_from_word(v, 5, 8) matches Some(BaseValue::I64(s)) && s as int == twos(v as int, 0x1_0000_0000_0000_0000),
{
    lemma_word_casts(v);
}

/// Joining words: one word is its own value; of two, the second is the
/// more significant.
pub proof fn lemma_words_value(data: Seq<u32>)
    requires
        1 <= data.len() <= 2,
    ensures
        data.len() == 1 ==> words_value(data) as int == data[0] as int,
        data.len() == 2 ==> words_value(data) as int == data[1] * 0x1_0000_0000 + data[0],
{
    if data.len() == 2 {
        assert(data[1] * 0x1_0000_0000 + data[0] <= u64::MAX) by (nonlinear_arith)
            requires
                data[1] <= u32::MAX,
                data[0] <= u32::MAX,
        ;
    }
}

} // verus!
