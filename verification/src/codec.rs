//! The conversion contract's correctness core: a type-directed codec
//! for values crossing the foreign-function boundary.
//!
//! Per semantic [`Type`], `lower` serializes a value into its boundary
//! encoding and `lift` deserializes it back; `write` appends the
//! encoding to an output stream and `read` consumes the next value from
//! an input stream, advancing the cursor exactly past the written
//! representation. Scalars are fixed-width big-endian; strings carry a
//! length prefix and their bytes; sequences and dictionaries carry a
//! count prefix and their elements in order; objects, delegate objects
//! and callback interfaces cross as opaque handles, never as
//! inline-encoded data. A record's layout comes from its definition
//! rather than from the bare type reference, so no value is
//! representable under a bare record reference here.

use vstd::prelude::*;

use crate::types::Type;

verus! {

broadcast use {vstd::std_specs::vec::group_vec_axioms, vstd::seq::group_seq_axioms};

/// A value at the boundary, shaped by the semantic type it crosses
/// under.
#[derive(Debug, PartialEq, Eq)]
pub enum Value {
    U32(u32),
    I32(i32),
    U64(u64),
    Bool(bool),
    /// The bytes of a string's encoded text.
    Text(Vec<u8>),
    /// The opaque handle of an object, delegate object or callback
    /// interface.
    Handle(u64),
    /// The index of an enum or error variant.
    EnumIndex(u32),
    /// An optional value that is absent.
    Nothing,
    /// An optional value that is present.
    Just(Box<Value>),
    /// The elements of a sequence.
    List(Vec<Value>),
    /// The entries of a dictionary.
    Table(Vec<(Value, Value)>),
}

/// The mathematical shape of a [`Value`].
pub enum ValueModel {
    U32(u32),
    I32(i32),
    U64(u64),
    Bool(bool),
    Text(Seq<u8>),
    Handle(u64),
    EnumIndex(u32),
    Nothing,
    Just(Box<ValueModel>),
    List(Seq<ValueModel>),
    Table(Seq<(ValueModel, ValueModel)>),
}

pub open spec fn value_model(v: Value) -> ValueModel
    decreases v,
{
    match v {
        Value::U32(x) => ValueModel::U32(x),
        Value::I32(x) => ValueModel::I32(x),
        Value::U64(x) => ValueModel::U64(x),
        Value::Bool(b) => ValueModel::Bool(b),
        Value::Text(bs) => ValueModel::Text(bs@),
        Value::Handle(h) => ValueModel::Handle(h),
        Value::EnumIndex(x) => ValueModel::EnumIndex(x),
        Value::Nothing => ValueModel::Nothing,
        Value::Just(inner) => ValueModel::Just(Box::new(value_model(*inner))),
        Value::List(vs) => ValueModel::List(value_models(vs@)),
        Value::Table(ps) => ValueModel::Table(value_pair_models(ps@)),
    }
}

pub open spec fn value_models(vs: Seq<Value>) -> Seq<ValueModel>
    decreases vs,
{
    if vs.len() == 0 {
        Seq::empty()
    } else {
        seq![value_model(vs[0])] + value_models(vs.drop_first())
    }
}

pub open spec fn value_pair_models(ps: Seq<(Value, Value)>) -> Seq<(ValueModel, ValueModel)>
    decreases ps,
{
    if ps.len() == 0 {
        Seq::empty()
    } else {
        seq![(value_model(ps[0].0), value_model(ps[0].1))] + value_pair_models(ps.drop_first())
    }
}

impl View for Value {
    type V = ValueModel;

    open spec fn view(&self) -> ValueModel {
        value_model(*self)
    }
}

/// The number of bytes a count or length prefix can carry.
pub open spec fn count_limit() -> int {
    0x1_0000_0000
}

/// Whether `v` is a representable value of type `t`.
pub open spec fn value_matches_type(v: ValueModel, t: Type) -> bool
    decreases v, 1int,
{
    match t {
        Type::UInt32 => v is U32,
        Type::Int32 => v is I32,
        Type::UInt64 => v is U64,
        Type::Boolean => v is Bool,
        Type::String => v matches ValueModel::Text(bs) && bs.len() < count_limit(),
        Type::Record(_) => false,
        Type::Enum(_) => v is EnumIndex,
        Type::Error(_) => v is EnumIndex,
        Type::Object(_) => v is Handle,
        Type::DelegateObject(_) => v is Handle,
        Type::CallbackInterface(_) => v is Handle,
        Type::Optional(et) => match v {
            ValueModel::Nothing => true,
            ValueModel::Just(inner) => value_matches_type(*inner, *et),
            _ => false,
        },
        Type::Sequence(et) => match v {
            ValueModel::List(vs) => vs.len() < count_limit() && values_match_type(vs, *et),
            _ => false,
        },
        Type::Dictionary(kt, vt) => match v {
            ValueModel::Table(ps) => ps.len() < count_limit() && pairs_match_types(ps, *kt, *vt),
            _ => false,
        },
    }
}

pub open spec fn values_match_type(vs: Seq<ValueModel>, t: Type) -> bool
    decreases vs, 0int,
{
    if vs.len() == 0 {
        true
    } else {
        value_matches_type(vs[0], t) && values_match_type(vs.drop_first(), t)
    }
}

pub open spec fn pairs_match_types(ps: Seq<(ValueModel, ValueModel)>, kt: Type, vt: Type) -> bool
    decreases ps, 0int,
{
    if ps.len() == 0 {
        true
    } else {
        value_matches_type(ps[0].0, kt) && value_matches_type(ps[0].1, vt) && pairs_match_types(
            ps.drop_first(),
            kt,
            vt,
        )
    }
}

/// The big-endian bytes of a 32-bit word.
pub open spec fn u32_be(x: u32) -> Seq<u8> {
    seq![(x >> 24) as u8, (x >> 16) as u8, (x >> 8) as u8, x as u8]
}

/// The 32-bit word four big-endian bytes carry.
pub open spec fn u32_from_be(b0: u8, b1: u8, b2: u8, b3: u8) -> u32 {
    (((b0 as u32) << 24) | ((b1 as u32) << 16) | ((b2 as u32) << 8) | (b3 as u32)) as u32
}

/// The big-endian bytes of a 64-bit word.
pub open spec fn u64_be(x: u64) -> Seq<u8> {
    seq![
        (x >> 56) as u8,
        (x >> 48) as u8,
        (x >> 40) as u8,
        (x >> 32) as u8,
        (x >> 24) as u8,
        (x >> 16) as u8,
        (x >> 8) as u8,
        x as u8,
    ]
}

/// The 64-bit word eight big-endian bytes carry.
pub open spec fn u64_from_be(
    b0: u8,
    b1: u8,
    b2: u8,
    b3: u8,
    b4: u8,
    b5: u8,
    b6: u8,
    b7: u8,
) -> u64 {
    (((b0 as u64) << 56) | ((b1 as u64) << 48) | ((b2 as u64) << 40) | ((b3 as u64) << 32) | ((
    b4 as u64) << 24) | ((b5 as u64) << 16) | ((b6 as u64) << 8) | (b7 as u64)) as u64
}

proof fn lemma_u32_be_round(x: u32)
    ensures
        u32_from_be((x >> 24) as u8, (x >> 16) as u8, (x >> 8) as u8, x as u8) == x,
{
    assert((((((x >> 24) as u8) as u32) << 24) | ((((x >> 16) as u8) as u32) << 16) | ((((x >> 8)
        as u8) as u32) << 8) | (((x as u8) as u32))) as u32 == x) by (bit_vector);
}

proof fn lemma_u64_be_round(x: u64)
    ensures
        u64_from_be(
            (x >> 56) as u8,
            (x >> 48) as u8,
            (x >> 40) as u8,
            (x >> 32) as u8,
            (x >> 24) as u8,
            (x >> 16) as u8,
            (x >> 8) as u8,
            x as u8,
        ) == x,
{
    assert((((((x >> 56) as u8) as u64) << 56) | ((((x >> 48) as u8) as u64) << 48) | ((((x >> 40)
        as u8) as u64) << 40) | ((((x >> 32) as u8) as u64) << 32) | ((((x >> 24) as u8) as u64)
        << 24) | ((((x >> 16) as u8) as u64) << 16) | ((((x >> 8) as u8) as u64) << 8) | (((
    x as u8) as u64))) as u64 == x) by (bit_vector);
}

proof fn lemma_i32_u32_round(x: i32)
    ensures
        ((x as u32) as i32) == x,
{
    assert(((x as u32) as i32) == x) by (bit_vector);
}

/// The boundary encoding of a representable value of type `t`.
pub open spec fn enc(t: Type, v: ValueModel) -> Seq<u8>
    decreases v, 1int,
{
    match (t, v) {
        (Type::UInt32, ValueModel::U32(x)) => u32_be(x),
        (Type::Int32, ValueModel::I32(x)) => u32_be(x as u32),
        (Type::UInt64, ValueModel::U64(x)) => u64_be(x),
        (Type::Boolean, ValueModel::Bool(b)) => seq![if b { 1u8 } else { 0u8 }],
        (Type::String, ValueModel::Text(bs)) => u32_be(bs.len() as u32) + bs,
        (Type::Enum(_), ValueModel::EnumIndex(x)) => u32_be(x),
        (Type::Error(_), ValueModel::EnumIndex(x)) => u32_be(x),
        (Type::Object(_), ValueModel::Handle(h)) => u64_be(h),
        (Type::DelegateObject(_), ValueModel::Handle(h)) => u64_be(h),
        (Type::CallbackInterface(_), ValueModel::Handle(h)) => u64_be(h),
        (Type::Optional(_), ValueModel::Nothing) => seq![0u8],
        (Type::Optional(et), ValueModel::Just(inner)) => seq![1u8] + enc(*et, *inner),
        (Type::Sequence(et), ValueModel::List(vs)) => u32_be(vs.len() as u32) + enc_list(*et, vs),
        (Type::Dictionary(kt, vt), ValueModel::Table(ps)) => u32_be(ps.len() as u32) + enc_pairs(
            *kt,
            *vt,
            ps,
        ),
        _ => Seq::empty(),
    }
}

pub open spec fn enc_list(t: Type, vs: Seq<ValueModel>) -> Seq<u8>
    decreases vs, 0int,
{
    if vs.len() == 0 {
        Seq::empty()
    } else {
        enc(t, vs[0]) + enc_list(t, vs.drop_first())
    }
}

pub open spec fn enc_pairs(kt: Type, vt: Type, ps: Seq<(ValueModel, ValueModel)>) -> Seq<u8>
    decreases ps, 0int,
{
    if ps.len() == 0 {
        Seq::empty()
    } else {
        enc(kt, ps[0].0) + enc(vt, ps[0].1) + enc_pairs(kt, vt, ps.drop_first())
    }
}

/// The structural depth of a type, the measure decoding recurses on.
pub open spec fn type_height(t: Type) -> nat
    decreases t,
{
    match t {
        Type::Optional(et) => 1 + type_height(*et),
        Type::Sequence(et) => 1 + type_height(*et),
        Type::Dictionary(kt, vt) => 1 + type_height(*kt) + type_height(*vt),
        _ => 0,
    }
}

/// The decoding of the next value of type `t` from `bytes` at cursor
/// `pos`: the value and the cursor just past its representation, or
/// `None` when the bytes there do not carry one.
pub open spec fn dec(t: Type, bytes: Seq<u8>, pos: int) -> Option<(ValueModel, int)>
    decreases type_height(t), 0int, 0int,
{
    match t {
        Type::UInt32 => if 0 <= pos && pos + 4 <= bytes.len() {
            Some(
                (
                    ValueModel::U32(
                        u32_from_be(bytes[pos], bytes[pos + 1], bytes[pos + 2], bytes[pos + 3]),
                    ),
                    pos + 4,
                ),
            )
        } else {
            None
        },
        Type::Int32 => if 0 <= pos && pos + 4 <= bytes.len() {
            Some(
                (
                    ValueModel::I32(
                        u32_from_be(bytes[pos], bytes[pos + 1], bytes[pos + 2], bytes[pos + 3])
                            as i32,
                    ),
                    pos + 4,
                ),
            )
        } else {
            None
        },
        Type::UInt64 => match dec_u64(bytes, pos) {
            Some((h, p)) => Some((ValueModel::U64(h), p)),
            None => None,
        },
        Type::Boolean => if 0 <= pos && pos + 1 <= bytes.len() {
            if bytes[pos] == 1u8 {
                Some((ValueModel::Bool(true), pos + 1))
            } else if bytes[pos] == 0u8 {
                Some((ValueModel::Bool(false), pos + 1))
            } else {
                None
            }
        } else {
            None
        },
        Type::String => if 0 <= pos && pos + 4 <= bytes.len() {
            let n = u32_from_be(
                bytes[pos],
                bytes[pos + 1],
                bytes[pos + 2],
                bytes[pos + 3],
            ) as int;
            if pos + 4 + n <= bytes.len() {
                Some((ValueModel::Text(bytes.subrange(pos + 4, pos + 4 + n)), pos + 4 + n))
            } else {
                None
            }
        } else {
            None
        },
        Type::Record(_) => None,
        Type::Enum(_) => if 0 <= pos && pos + 4 <= bytes.len() {
            Some(
                (
                    ValueModel::EnumIndex(
                        u32_from_be(bytes[pos], bytes[pos + 1], bytes[pos + 2], bytes[pos + 3]),
                    ),
                    pos + 4,
                ),
            )
        } else {
            None
        },
        Type::Error(_) => if 0 <= pos && pos + 4 <= bytes.len() {
            Some(
                (
                    ValueModel::EnumIndex(
                        u32_from_be(bytes[pos], bytes[pos + 1], bytes[pos + 2], bytes[pos + 3]),
                    ),
                    pos + 4,
                ),
            )
        } else {
            None
        },
        Type::Object(_) => match dec_u64(bytes, pos) {
            Some((h, p)) => Some((ValueModel::Handle(h), p)),
            None => None,
        },
        Type::DelegateObject(_) => match dec_u64(bytes, pos) {
            Some((h, p)) => Some((ValueModel::Handle(h), p)),
            None => None,
        },
        Type::CallbackInterface(_) => match dec_u64(bytes, pos) {
            Some((h, p)) => Some((ValueModel::Handle(h), p)),
            None => None,
        },
        Type::Optional(et) => if 0 <= pos && pos + 1 <= bytes.len() {
            if bytes[pos] == 0u8 {
                Some((ValueModel::Nothing, pos + 1))
            } else if bytes[pos] == 1u8 {
                match dec(*et, bytes, pos + 1) {
                    Some((v, p)) => Some((ValueModel::Just(Box::new(v)), p)),
                    None => None,
                }
            } else {
                None
            }
        } else {
            None
        },
        Type::Sequence(et) => if 0 <= pos && pos + 4 <= bytes.len() {
            let n = u32_from_be(
                bytes[pos],
                bytes[pos + 1],
                bytes[pos + 2],
                bytes[pos + 3],
            ) as int;
            match dec_list(*et, bytes, pos + 4, n) {
                Some((vs, p)) => Some((ValueModel::List(vs), p)),
                None => None,
            }
        } else {
            None
        },
        Type::Dictionary(kt, vt) => if 0 <= pos && pos + 4 <= bytes.len() {
            let n = u32_from_be(
                bytes[pos],
                bytes[pos + 1],
                bytes[pos + 2],
                bytes[pos + 3],
            ) as int;
            match dec_pairs(*kt, *vt, bytes, pos + 4, n) {
                Some((ps, p)) => Some((ValueModel::Table(ps), p)),
                None => None,
            }
        } else {
            None
        },
    }
}

/// The decoding of an eight-byte big-endian word.
pub open spec fn dec_u64(bytes: Seq<u8>, pos: int) -> Option<(u64, int)> {
    if 0 <= pos && pos + 8 <= bytes.len() {
        Some(
            (
                u64_from_be(
                    bytes[pos],
                    bytes[pos + 1],
                    bytes[pos + 2],
                    bytes[pos + 3],
                    bytes[pos + 4],
                    bytes[pos + 5],
                    bytes[pos + 6],
                    bytes[pos + 7],
                ),
                pos + 8,
            ),
        )
    } else {
        None
    }
}

/// The decoding of `n` consecutive values of type `t`.
pub open spec fn dec_list(t: Type, bytes: Seq<u8>, pos: int, n: int) -> Option<
    (Seq<ValueModel>, int),
>
    decreases type_height(t), n, 1int,
{
    if n <= 0 {
        Some((Seq::empty(), pos))
    } else {
        match dec(t, bytes, pos) {
            None => None,
            Some((v, p)) => match dec_list(t, bytes, p, n - 1) {
                None => None,
                Some((vs, p2)) => Some((seq![v] + vs, p2)),
            },
        }
    }
}

/// The decoding of `n` consecutive key-value entries.
pub open spec fn dec_pairs(kt: Type, vt: Type, bytes: Seq<u8>, pos: int, n: int) -> Option<
    (Seq<(ValueModel, ValueModel)>, int),
>
    decreases type_height(kt) + type_height(vt), n, 1int,
{
    if n <= 0 {
        Some((Seq::empty(), pos))
    } else {
        match dec(kt, bytes, pos) {
            None => None,
            Some((k, p)) => match dec(vt, bytes, p) {
                None => None,
                Some((v, p2)) => match dec_pairs(kt, vt, bytes, p2, n - 1) {
                    None => None,
                    Some((ps, p3)) => Some((seq![(k, v)] + ps, p3)),
                },
            },
        }
    }
}


/// Reading immediately after writing reproduces the value and advances
/// the cursor exactly past the written representation: whatever stands
/// before and after the encoding in the stream, decoding type `t` at
/// the encoding's start yields the value back and stops at its end.
pub proof fn lemma_read_after_write(t: Type, v: ValueModel, pre: Seq<u8>, suf: Seq<u8>)
    requires
        value_matches_type(v, t),
    ensures
        dec(t, pre + enc(t, v) + suf, pre.len() as int) == Some(
            (v, pre.len() + enc(t, v).len() as int),
        ),
    decreases v, 1int,
{
    let bytes = pre + enc(t, v) + suf;
    let pos = pre.len() as int;
    match (t, v) {
        (Type::UInt32, ValueModel::U32(x)) => {
            assert(bytes[pos] == (x >> 24) as u8);
            assert(bytes[pos + 1] == (x >> 16) as u8);
            assert(bytes[pos + 2] == (x >> 8) as u8);
            assert(bytes[pos + 3] == x as u8);
            lemma_u32_be_round(x);
        },
        (Type::Int32, ValueModel::I32(x)) => {
            let u = x as u32;
            assert(bytes[pos] == (u >> 24) as u8);
            assert(bytes[pos + 1] == (u >> 16) as u8);
            assert(bytes[pos + 2] == (u >> 8) as u8);
            assert(bytes[pos + 3] == u as u8);
            lemma_u32_be_round(u);
            lemma_i32_u32_round(x);
        },
        (Type::UInt64, ValueModel::U64(x)) => {
            lemma_u64_at(x, pre, suf);
        },
        (Type::Boolean, ValueModel::Bool(b)) => {
            assert(bytes[pos] == (if b { 1u8 } else { 0u8 }));
        },
        (Type::String, ValueModel::Text(bs)) => {
            let n = bs.len() as u32;
            assert(bytes[pos] == (n >> 24) as u8);
            assert(bytes[pos + 1] == (n >> 16) as u8);
            assert(bytes[pos + 2] == (n >> 8) as u8);
            assert(bytes[pos + 3] == n as u8);
            lemma_u32_be_round(n);
            assert(n as int == bs.len());
            assert(bytes.subrange(pos + 4, pos + 4 + n as int) =~= bs);
        },
        (Type::Enum(_), ValueModel::EnumIndex(x)) => {
            assert(bytes[pos] == (x >> 24) as u8);
            assert(bytes[pos + 1] == (x >> 16) as u8);
            assert(bytes[pos + 2] == (x >> 8) as u8);
            assert(bytes[pos + 3] == x as u8);
            lemma_u32_be_round(x);
        },
        (Type::Error(_), ValueModel::EnumIndex(x)) => {
            assert(bytes[pos] == (x >> 24) as u8);
            assert(bytes[pos + 1] == (x >> 16) as u8);
            assert(bytes[pos + 2] == (x >> 8) as u8);
            assert(bytes[pos + 3] == x as u8);
            lemma_u32_be_round(x);
        },
        (Type::Object(_), ValueModel::Handle(h)) => {
            lemma_u64_at(h, pre, suf);
        },
        (Type::DelegateObject(_), ValueModel::Handle(h)) => {
            lemma_u64_at(h, pre, suf);
        },
        (Type::CallbackInterface(_), ValueModel::Handle(h)) => {
            lemma_u64_at(h, pre, suf);
        },
        (Type::Optional(_), ValueModel::Nothing) => {
            assert(bytes[pos] == 0u8);
        },
        (Type::Optional(et), ValueModel::Just(inner)) => {
            assert(bytes[pos] == 1u8);
            lemma_read_after_write(*et, *inner, pre + seq![1u8], suf);
            assert(pre + seq![1u8] + enc(*et, *inner) + suf =~= bytes);
        },
        (Type::Sequence(et), ValueModel::List(vs)) => {
            let n = vs.len() as u32;
            assert(bytes[pos] == (n >> 24) as u8);
            assert(bytes[pos + 1] == (n >> 16) as u8);
            assert(bytes[pos + 2] == (n >> 8) as u8);
            assert(bytes[pos + 3] == n as u8);
            lemma_u32_be_round(n);
            assert(n as int == vs.len());
            lemma_read_list_after_write(*et, vs, pre + u32_be(n), suf);
            assert(pre + u32_be(n) + enc_list(*et, vs) + suf =~= bytes);
        },
        (Type::Dictionary(kt, vt), ValueModel::Table(ps)) => {
            let n = ps.len() as u32;
            assert(bytes[pos] == (n >> 24) as u8);
            assert(bytes[pos + 1] == (n >> 16) as u8);
            assert(bytes[pos + 2] == (n >> 8) as u8);
            assert(bytes[pos + 3] == n as u8);
            lemma_u32_be_round(n);
            assert(n as int == ps.len());
            lemma_read_pairs_after_write(*kt, *vt, ps, pre + u32_be(n), suf);
            assert(pre + u32_be(n) + enc_pairs(*kt, *vt, ps) + suf =~= bytes);
        },
        _ => {
            assert(false);
        },
    }
}

proof fn lemma_u64_at(x: u64, pre: Seq<u8>, suf: Seq<u8>)
    ensures
        dec_u64(pre + u64_be(x) + suf, pre.len() as int) == Some(
            (x, pre.len() + u64_be(x).len() as int),
        ),
{
    let bytes = pre + u64_be(x) + suf;
    let pos = pre.len() as int;
    assert(bytes[pos] == (x >> 56) as u8);
    assert(bytes[pos + 1] == (x >> 48) as u8);
    assert(bytes[pos + 2] == (x >> 40) as u8);
    assert(bytes[pos + 3] == (x >> 32) as u8);
    assert(bytes[pos + 4] == (x >> 24) as u8);
    assert(bytes[pos + 5] == (x >> 16) as u8);
    assert(bytes[pos + 6] == (x >> 8) as u8);
    assert(bytes[pos + 7] == x as u8);
    lemma_u64_be_round(x);
}

proof fn lemma_read_list_after_write(t: Type, vs: Seq<ValueModel>, pre: Seq<u8>, suf: Seq<u8>)
    requires
        values_match_type(vs, t),
    ensures
        dec_list(t, pre + enc_list(t, vs) + suf, pre.len() as int, vs.len() as int) == Some(
            (vs, pre.len() + enc_list(t, vs).len() as int),
        ),
    decreases vs, 0int,
{
    let bytes = pre + enc_list(t, vs) + suf;
    if vs.len() == 0 {
        assert(vs =~= Seq::<ValueModel>::empty());
    } else {
        let head = vs[0];
        let rest = vs.drop_first();
        lemma_read_after_write(t, head, pre, enc_list(t, rest) + suf);
        assert(pre + enc(t, head) + (enc_list(t, rest) + suf) =~= bytes);
        lemma_read_list_after_write(t, rest, pre + enc(t, head), suf);
        assert(pre + enc(t, head) + enc_list(t, rest) + suf =~= bytes);
        assert(seq![head] + rest =~= vs);
    }
}

proof fn lemma_read_pairs_after_write(
    kt: Type,
    vt: Type,
    ps: Seq<(ValueModel, ValueModel)>,
    pre: Seq<u8>,
    suf: Seq<u8>,
)
    requires
        pairs_match_types(ps, kt, vt),
    ensures
        dec_pairs(kt, vt, pre + enc_pairs(kt, vt, ps) + suf, pre.len() as int, ps.len() as int)
            == Some((ps, pre.len() + enc_pairs(kt, vt, ps).len() as int)),
    decreases ps, 0int,
{
    let bytes = pre + enc_pairs(kt, vt, ps) + suf;
    if ps.len() == 0 {
        assert(ps =~= Seq::<(ValueModel, ValueModel)>::empty());
    } else {
        let k = ps[0].0;
        let v = ps[0].1;
        let rest = ps.drop_first();
        lemma_read_after_write(kt, k, pre, enc(vt, v) + enc_pairs(kt, vt, rest) + suf);
        assert(pre + enc(kt, k) + (enc(vt, v) + enc_pairs(kt, vt, rest) + suf) =~= bytes);
        lemma_read_after_write(vt, v, pre + enc(kt, k), enc_pairs(kt, vt, rest) + suf);
        assert(pre + enc(kt, k) + enc(vt, v) + (enc_pairs(kt, vt, rest) + suf) =~= bytes);
        lemma_read_pairs_after_write(kt, vt, rest, pre + enc(kt, k) + enc(vt, v), suf);
        assert(pre + enc(kt, k) + enc(vt, v) + enc_pairs(kt, vt, rest) + suf =~= bytes);
        assert(seq![(k, v)] + rest =~= ps);
    }
}

/// The round-trip law at the model level: deserializing a serialized
/// value yields the value back, consuming exactly its representation.
pub proof fn lemma_lift_lower_round_trip(t: Type, v: ValueModel)
    requires
        value_matches_type(v, t),
    ensures
        dec(t, enc(t, v), 0) == Some((v, enc(t, v).len() as int)),
{
    lemma_read_after_write(t, v, Seq::empty(), Seq::empty());
    assert(Seq::<u8>::empty() + enc(t, v) + Seq::<u8>::empty() =~= enc(t, v));
}


proof fn lemma_value_models_index(vs: Seq<Value>)
    ensures
        value_models(vs).len() == vs.len(),
        forall|i: int| 0 <= i < vs.len() ==> value_models(vs)[i] == value_model(#[trigger] vs[i]),
    decreases vs.len(),
{
    if vs.len() > 0 {
        lemma_value_models_index(vs.drop_first());
        assert forall|i: int| 0 <= i < vs.len() implies value_models(vs)[i] == value_model(
            #[trigger] vs[i],
        ) by {
            if i > 0 {
                assert(vs.drop_first()[i - 1] == vs[i]);
                assert(value_models(vs)[i] == value_models(vs.drop_first())[i - 1]);
            }
        }
    }
}

proof fn lemma_value_pair_models_index(ps: Seq<(Value, Value)>)
    ensures
        value_pair_models(ps).len() == ps.len(),
        forall|i: int|
            0 <= i < ps.len() ==> value_pair_models(ps)[i] == (
                value_model(#[trigger] ps[i].0),
                value_model(ps[i].1),
            ),
    decreases ps.len(),
{
    if ps.len() > 0 {
        lemma_value_pair_models_index(ps.drop_first());
        assert forall|i: int| 0 <= i < ps.len() implies value_pair_models(ps)[i] == (
            value_model(#[trigger] ps[i].0),
            value_model(ps[i].1),
        ) by {
            if i > 0 {
                assert(ps.drop_first()[i - 1] == ps[i]);
                assert(value_pair_models(ps)[i] == value_pair_models(ps.drop_first())[i - 1]);
            }
        }
    }
}

proof fn lemma_values_match_type_index(ms: Seq<ValueModel>, t: Type)
    requires
        values_match_type(ms, t),
    ensures
        forall|i: int| 0 <= i < ms.len() ==> value_matches_type(#[trigger] ms[i], t),
    decreases ms.len(),
{
    if ms.len() > 0 {
        lemma_values_match_type_index(ms.drop_first(), t);
        assert(forall|i: int|
            1 <= i < ms.len() ==> #[trigger] ms[i] == ms.drop_first()[i - 1]);
    }
}

proof fn lemma_pairs_match_types_index(ps: Seq<(ValueModel, ValueModel)>, kt: Type, vt: Type)
    requires
        pairs_match_types(ps, kt, vt),
    ensures
        forall|i: int|
            0 <= i < ps.len() ==> value_matches_type(#[trigger] ps[i].0, kt) && value_matches_type(
                ps[i].1,
                vt,
            ),
    decreases ps.len(),
{
    if ps.len() > 0 {
        lemma_pairs_match_types_index(ps.drop_first(), kt, vt);
        assert(forall|i: int|
            1 <= i < ps.len() ==> #[trigger] ps[i] == ps.drop_first()[i - 1]);
    }
}

proof fn lemma_enc_list_snoc(t: Type, vs: Seq<ValueModel>, x: ValueModel)
    ensures
        enc_list(t, vs.push(x)) == enc_list(t, vs) + enc(t, x),
    decreases vs.len(),
{
    let l = vs.push(x);
    if vs.len() == 0 {
        assert(l.drop_first() =~= Seq::<ValueModel>::empty());
        assert(l[0] == x);
        assert(enc_list(t, l) == enc(t, x) + enc_list(t, l.drop_first()));
        assert(enc(t, x) + Seq::<u8>::empty() =~= Seq::<u8>::empty() + enc(t, x));
    } else {
        assert(l.drop_first() =~= vs.drop_first().push(x));
        assert(l[0] == vs[0]);
        lemma_enc_list_snoc(t, vs.drop_first(), x);
        assert(enc_list(t, l) == enc(t, vs[0]) + enc_list(t, l.drop_first()));
        assert(enc_list(t, l.drop_first()) == enc_list(t, vs.drop_first()) + enc(t, x));
        assert(enc(t, vs[0]) + (enc_list(t, vs.drop_first()) + enc(t, x)) =~= (enc(t, vs[0])
            + enc_list(t, vs.drop_first())) + enc(t, x));
    }
}

proof fn lemma_enc_pairs_snoc(
    kt: Type,
    vt: Type,
    ps: Seq<(ValueModel, ValueModel)>,
    k: ValueModel,
    v: ValueModel,
)
    ensures
        enc_pairs(kt, vt, ps.push((k, v))) == enc_pairs(kt, vt, ps) + enc(kt, k) + enc(vt, v),
    decreases ps.len(),
{
    let l = ps.push((k, v));
    if ps.len() == 0 {
        assert(l.drop_first() =~= Seq::<(ValueModel, ValueModel)>::empty());
        assert(l[0] == (k, v));
        assert(enc_pairs(kt, vt, l) == enc(kt, k) + enc(vt, v) + enc_pairs(kt, vt, l.drop_first()));
        assert(enc(kt, k) + enc(vt, v) + Seq::<u8>::empty() =~= Seq::<u8>::empty() + enc(kt, k)
            + enc(vt, v));
    } else {
        assert(l.drop_first() =~= ps.drop_first().push((k, v)));
        assert(l[0] == ps[0]);
        lemma_enc_pairs_snoc(kt, vt, ps.drop_first(), k, v);
        assert(enc_pairs(kt, vt, l) == enc(kt, ps[0].0) + enc(vt, ps[0].1) + enc_pairs(
            kt,
            vt,
            l.drop_first(),
        ));
        assert(enc_pairs(kt, vt, l.drop_first()) == enc_pairs(kt, vt, ps.drop_first()) + enc(
            kt,
            k,
        ) + enc(vt, v));
        assert(enc(kt, ps[0].0) + enc(vt, ps[0].1) + (enc_pairs(kt, vt, ps.drop_first()) + enc(
            kt,
            k,
        ) + enc(vt, v)) =~= (enc(kt, ps[0].0) + enc(vt, ps[0].1) + enc_pairs(
            kt,
            vt,
            ps.drop_first(),
        )) + enc(kt, k) + enc(vt, v));
    }
}

proof fn lemma_value_models_snoc(vs: Seq<Value>, x: Value)
    ensures
        value_models(vs.push(x)) == value_models(vs).push(value_model(x)),
    decreases vs.len(),
{
    let l = vs.push(x);
    if vs.len() == 0 {
        assert(l.drop_first() =~= Seq::<Value>::empty());
        assert(l[0] == x);
        assert(value_models(l) == seq![value_model(x)] + value_models(l.drop_first()));
        assert(seq![value_model(x)] + Seq::<ValueModel>::empty() =~= value_models(vs).push(
            value_model(x),
        ));
    } else {
        assert(l.drop_first() =~= vs.drop_first().push(x));
        assert(l[0] == vs[0]);
        lemma_value_models_snoc(vs.drop_first(), x);
        assert(value_models(l) == seq![value_model(vs[0])] + value_models(l.drop_first()));
        assert(value_models(l.drop_first()) == value_models(vs.drop_first()).push(value_model(x)));
        assert(seq![value_model(vs[0])] + value_models(vs.drop_first()).push(value_model(x)) =~= (
        seq![value_model(vs[0])] + value_models(vs.drop_first())).push(value_model(x)));
    }
}

proof fn lemma_value_pair_models_snoc(ps: Seq<(Value, Value)>, x: (Value, Value))
    ensures
        value_pair_models(ps.push(x)) == value_pair_models(ps).push(
            (value_model(x.0), value_model(x.1)),
        ),
    decreases ps.len(),
{
    let l = ps.push(x);
    let xm = (value_model(x.0), value_model(x.1));
    if ps.len() == 0 {
        assert(l.drop_first() =~= Seq::<(Value, Value)>::empty());
        assert(l[0] == x);
        assert(value_pair_models(l) == seq![xm] + value_pair_models(l.drop_first()));
        assert(seq![xm] + Seq::<(ValueModel, ValueModel)>::empty() =~= value_pair_models(ps).push(
            xm,
        ));
    } else {
        assert(l.drop_first() =~= ps.drop_first().push(x));
        assert(l[0] == ps[0]);
        lemma_value_pair_models_snoc(ps.drop_first(), x);
        let hm = (value_model(ps[0].0), value_model(ps[0].1));
        assert(value_pair_models(l) == seq![hm] + value_pair_models(l.drop_first()));
        assert(value_pair_models(l.drop_first()) == value_pair_models(ps.drop_first()).push(xm));
        assert(seq![hm] + value_pair_models(ps.drop_first()).push(xm) =~= (seq![hm]
            + value_pair_models(ps.drop_first())).push(xm));
    }
}

fn write_u32(x: u32, buf: &mut Vec<u8>)
    ensures
        final(buf)@ == old(buf)@ + u32_be(x),
{
    buf.push((x >> 24) as u8);
    buf.push((x >> 16) as u8);
    buf.push((x >> 8) as u8);
    buf.push(x as u8);
    proof {
        assert(final(buf)@ =~= old(buf)@ + u32_be(x));
    }
}

fn write_u64(x: u64, buf: &mut Vec<u8>)
    ensures
        final(buf)@ == old(buf)@ + u64_be(x),
{
    buf.push((x >> 56) as u8);
    buf.push((x >> 48) as u8);
    buf.push((x >> 40) as u8);
    buf.push((x >> 32) as u8);
    buf.push((x >> 24) as u8);
    buf.push((x >> 16) as u8);
    buf.push((x >> 8) as u8);
    buf.push(x as u8);
    proof {
        assert(final(buf)@ =~= old(buf)@ + u64_be(x));
    }
}

/// Serializes a representable value of type `t` onto the end of an
/// output stream: exactly the value's boundary encoding is appended.
pub fn write(t: &Type, v: &Value, buf: &mut Vec<u8>)
    requires
        value_matches_type(v@, *t),
    ensures
        final(buf)@ == old(buf)@ + enc(*t, v@),
    decreases type_height(*t),
{
    match (t, v) {
        (Type::UInt32, Value::U32(x)) => {
            write_u32(*x, buf);
        },
        (Type::Int32, Value::I32(x)) => {
            write_u32(#[verifier::truncate] (*x as u32), buf);
        },
        (Type::UInt64, Value::U64(x)) => {
            write_u64(*x, buf);
        },
        (Type::Boolean, Value::Bool(b)) => {
            buf.push(if *b { 1u8 } else { 0u8 });
            proof {
                assert(final(buf)@ =~= old(buf)@ + enc(*t, v@));
            }
        },
        (Type::String, Value::Text(bs)) => {
            write_u32(bs.len() as u32, buf);
            let ghost mid = buf@;
            let mut j: usize = 0;
            while j < bs.len()
                invariant
                    0 <= j <= bs@.len(),
                    buf@ == mid + bs@.take(j as int),
                decreases bs@.len() - j,
            {
                buf.push(bs[j]);
                proof {
                    assert(mid + bs@.take(j as int) + seq![bs@[j as int]] =~= mid + bs@.take(
                        j as int + 1,
                    ));
                }
                j = j + 1;
            }
            proof {
                assert(bs@.take(bs@.len() as int) =~= bs@);
                assert(final(buf)@ =~= old(buf)@ + enc(*t, v@));
            }
        },
        (Type::Enum(_), Value::EnumIndex(x)) => {
            write_u32(*x, buf);
        },
        (Type::Error(_), Value::EnumIndex(x)) => {
            write_u32(*x, buf);
        },
        (Type::Object(_), Value::Handle(h)) => {
            write_u64(*h, buf);
        },
        (Type::DelegateObject(_), Value::Handle(h)) => {
            write_u64(*h, buf);
        },
        (Type::CallbackInterface(_), Value::Handle(h)) => {
            write_u64(*h, buf);
        },
        (Type::Optional(_), Value::Nothing) => {
            buf.push(0u8);
            proof {
                assert(final(buf)@ =~= old(buf)@ + enc(*t, v@));
            }
        },
        (Type::Optional(et), Value::Just(inner)) => {
            buf.push(1u8);
            write(et, inner, buf);
            proof {
                assert(final(buf)@ =~= old(buf)@ + enc(*t, v@));
            }
        },
        (Type::Sequence(et), Value::List(vs)) => {
            let ghost models = value_models(vs@);
            proof {
                lemma_value_models_index(vs@);
                lemma_values_match_type_index(models, **et);
            }
            write_u32(vs.len() as u32, buf);
            let ghost mid = buf@;
            let mut j: usize = 0;
            while j < vs.len()
                invariant
                    0 <= j <= vs@.len(),
                    type_height(**et) < type_height(*t),
                    models == value_models(vs@),
                    models.len() == vs@.len(),
                    forall|i: int|
                        0 <= i < vs@.len() ==> models[i] == value_model(#[trigger] vs@[i]),
                    forall|i: int|
                        0 <= i < models.len() ==> value_matches_type(#[trigger] models[i], **et),
                    buf@ == mid + enc_list(**et, models.take(j as int)),
                decreases vs@.len() - j,
            {
                write(et, &vs[j], buf);
                proof {
                    lemma_enc_list_snoc(**et, models.take(j as int), models[j as int]);
                    assert(models.take(j as int).push(models[j as int]) =~= models.take(
                        j as int + 1,
                    ));
                    assert(buf@ =~= mid + enc_list(**et, models.take(j as int + 1)));
                }
                j = j + 1;
            }
            proof {
                assert(models.take(models.len() as int) =~= models);
                assert(final(buf)@ =~= old(buf)@ + enc(*t, v@));
            }
        },
        (Type::Dictionary(kt, vt), Value::Table(ps)) => {
            let ghost models = value_pair_models(ps@);
            proof {
                lemma_value_pair_models_index(ps@);
                lemma_pairs_match_types_index(models, **kt, **vt);
            }
            write_u32(ps.len() as u32, buf);
            let ghost mid = buf@;
            let mut j: usize = 0;
            while j < ps.len()
                invariant
                    0 <= j <= ps@.len(),
                    type_height(**kt) < type_height(*t),
                    type_height(**vt) < type_height(*t),
                    models == value_pair_models(ps@),
                    models.len() == ps@.len(),
                    forall|i: int|
                        0 <= i < ps@.len() ==> models[i] == (
                            value_model(#[trigger] ps@[i].0),
                            value_model(ps@[i].1),
                        ),
                    forall|i: int|
                        0 <= i < models.len() ==> value_matches_type(
                            #[trigger] models[i].0,
                            **kt,
                        ) && value_matches_type(models[i].1, **vt),
                    buf@ == mid + enc_pairs(**kt, **vt, models.take(j as int)),
                decreases ps@.len() - j,
            {
                write(kt, &ps[j].0, buf);
                write(vt, &ps[j].1, buf);
                proof {
                    lemma_enc_pairs_snoc(
                        **kt,
                        **vt,
                        models.take(j as int),
                        models[j as int].0,
                        models[j as int].1,
                    );
                    assert(models.take(j as int).push(models[j as int]) =~= models.take(
                        j as int + 1,
                    ));
                    assert(buf@ =~= mid + enc_pairs(**kt, **vt, models.take(j as int + 1)));
                }
                j = j + 1;
            }
            proof {
                assert(models.take(models.len() as int) =~= models);
                assert(final(buf)@ =~= old(buf)@ + enc(*t, v@));
            }
        },
        _ => {
            proof {
                assert(false);
            }
        },
    }
}

/// Serializes a representable value of type `t` into its boundary
/// encoding.
pub fn lower(t: &Type, v: &Value) -> (r: Vec<u8>)
    requires
        value_matches_type(v@, *t),
    ensures
        r@ == enc(*t, v@),
{
    let mut buf: Vec<u8> = Vec::new();
    write(t, v, &mut buf);
    proof {
        assert(buf@ =~= enc(*t, v@));
    }
    buf
}


fn read_u32(bytes: &Vec<u8>, pos: usize) -> (r: Option<(u32, usize)>)
    ensures
        match r {
            Some(p) => pos + 4 <= bytes@.len() && p.0 == u32_from_be(
                bytes@[pos as int],
                bytes@[pos as int + 1],
                bytes@[pos as int + 2],
                bytes@[pos as int + 3],
            ) && p.1 == pos + 4,
            None => !(pos + 4 <= bytes@.len()),
        },
{
    if bytes.len() >= 4 && pos <= bytes.len() - 4 {
        let b0 = bytes[pos];
        let b1 = bytes[pos + 1];
        let b2 = bytes[pos + 2];
        let b3 = bytes[pos + 3];
        let x: u32 = ((b0 as u32) << 24) | ((b1 as u32) << 16) | ((b2 as u32) << 8) | (b3 as u32);
        Some((x, pos + 4))
    } else {
        None
    }
}

fn read_u64(bytes: &Vec<u8>, pos: usize) -> (r: Option<(u64, usize)>)
    ensures
        match r {
            Some(p) => dec_u64(bytes@, pos as int) == Some((p.0, p.1 as int)),
            None => dec_u64(bytes@, pos as int) is None,
        },
{
    if bytes.len() >= 8 && pos <= bytes.len() - 8 {
        let b0 = bytes[pos];
        let b1 = bytes[pos + 1];
        let b2 = bytes[pos + 2];
        let b3 = bytes[pos + 3];
        let b4 = bytes[pos + 4];
        let b5 = bytes[pos + 5];
        let b6 = bytes[pos + 6];
        let b7 = bytes[pos + 7];
        let x: u64 = ((b0 as u64) << 56) | ((b1 as u64) << 48) | ((b2 as u64) << 40) | ((b3
            as u64) << 32) | ((b4 as u64) << 24) | ((b5 as u64) << 16) | ((b6 as u64) << 8) | (
        b7 as u64);
        Some((x, pos + 8))
    } else {
        None
    }
}

/// Deserializes the next value of type `t` from an input stream at
/// cursor `pos`, consuming exactly its representation: the value and
/// the advanced cursor, or `None` when the bytes there carry no value
/// of the type.
pub fn read(t: &Type, bytes: &Vec<u8>, pos: usize) -> (r: Option<(Value, usize)>)
    ensures
        match r {
            Some(p) => dec(*t, bytes@, pos as int) == Some((p.0@, p.1 as int)),
            None => dec(*t, bytes@, pos as int) is None,
        },
    decreases type_height(*t),
{
    match t {
        Type::UInt32 => match read_u32(bytes, pos) {
            Some((x, p)) => Some((Value::U32(x), p)),
            None => None,
        },
        Type::Int32 => match read_u32(bytes, pos) {
            Some((x, p)) => Some((Value::I32(#[verifier::truncate] (x as i32)), p)),
            None => None,
        },
        Type::UInt64 => match read_u64(bytes, pos) {
            Some((x, p)) => Some((Value::U64(x), p)),
            None => None,
        },
        Type::Boolean => {
            if pos < bytes.len() {
                let b = bytes[pos];
                if b == 1 {
                    Some((Value::Bool(true), pos + 1))
                } else if b == 0 {
                    Some((Value::Bool(false), pos + 1))
                } else {
                    None
                }
            } else {
                None
            }
        },
        Type::String => match read_u32(bytes, pos) {
            Some((n, cur)) => {
                if n as usize <= bytes.len() - cur {
                    let end: usize = cur + n as usize;
                    let mut sub: Vec<u8> = Vec::new();
                    let mut j: usize = cur;
                    while j < end
                        invariant
                            cur <= j <= end,
                            end <= bytes@.len(),
                            sub@ == bytes@.subrange(cur as int, j as int),
                        decreases end - j,
                    {
                        sub.push(bytes[j]);
                        proof {
                            assert(sub@ =~= bytes@.subrange(cur as int, j as int + 1));
                        }
                        j = j + 1;
                    }
                    proof {
                        assert(Seq::<u8>::empty() =~= bytes@.subrange(cur as int, cur as int));
                    }
                    Some((Value::Text(sub), end))
                } else {
                    None
                }
            },
            None => None,
        },
        Type::Record(_) => None,
        Type::Enum(_) => match read_u32(bytes, pos) {
            Some((x, p)) => Some((Value::EnumIndex(x), p)),
            None => None,
        },
        Type::Error(_) => match read_u32(bytes, pos) {
            Some((x, p)) => Some((Value::EnumIndex(x), p)),
            None => None,
        },
        Type::Object(_) => match read_u64(bytes, pos) {
            Some((x, p)) => Some((Value::Handle(x), p)),
            None => None,
        },
        Type::DelegateObject(_) => match read_u64(bytes, pos) {
            Some((x, p)) => Some((Value::Handle(x), p)),
            None => None,
        },
        Type::CallbackInterface(_) => match read_u64(bytes, pos) {
            Some((x, p)) => Some((Value::Handle(x), p)),
            None => None,
        },
        Type::Optional(et) => {
            if pos < bytes.len() {
                let b = bytes[pos];
                if b == 0 {
                    Some((Value::Nothing, pos + 1))
                } else if b == 1 {
                    match read(et, bytes, pos + 1) {
                        Some((v, p)) => Some((Value::Just(Box::new(v)), p)),
                        None => None,
                    }
                } else {
                    None
                }
            } else {
                None
            }
        },
        Type::Sequence(et) => match read_u32(bytes, pos) {
            Some((n, start)) => {
                let mut done: Vec<Value> = Vec::new();
                let mut cur: usize = start;
                let mut j: u32 = 0;
                proof {
                    assert(value_models(done@) =~= Seq::<ValueModel>::empty());
                    assert(value_models(done@) + dec_list(
                        **et,
                        bytes@,
                        cur as int,
                        n as int,
                    )->Some_0.0 =~= dec_list(**et, bytes@, cur as int, n as int)->Some_0.0);
                }
                while j < n
                    invariant
                        0 <= j <= n,
                        type_height(**et) < type_height(*t),
                        t matches Type::Sequence(e2) && **e2 == **et,
                        pos + 4 <= bytes@.len(),
                        start == pos + 4,
                        n == u32_from_be(
                            bytes@[pos as int],
                            bytes@[pos as int + 1],
                            bytes@[pos as int + 2],
                            bytes@[pos as int + 3],
                        ),
                        match dec_list(**et, bytes@, cur as int, n as int - j as int) {
                            Some(q) => dec_list(**et, bytes@, start as int, n as int) == Some(
                                (value_models(done@) + q.0, q.1),
                            ),
                            None => dec_list(**et, bytes@, start as int, n as int) is None,
                        },
                    decreases n - j,
                {
                    match read(et, bytes, cur) {
                        Some((v, p)) => {
                            proof {
                                lemma_value_models_snoc(done@, v);
                                let q2 = dec_list(**et, bytes@, p as int, n as int - j as int - 1);
                                if q2 is Some {
                                    assert(value_models(done@) + (seq![value_model(v)]
                                        + q2->Some_0.0) =~= value_models(done@.push(v))
                                        + q2->Some_0.0);
                                }
                            }
                            done.push(v);
                            cur = p;
                        },
                        None => {
                            return None;
                        },
                    }
                    j = j + 1;
                }
                proof {
                    assert(value_models(done@) + Seq::<ValueModel>::empty() =~= value_models(
                        done@,
                    ));
                }
                Some((Value::List(done), cur))
            },
            None => None,
        },
        Type::Dictionary(kt, vt) => match read_u32(bytes, pos) {
            Some((n, start)) => {
                let mut done: Vec<(Value, Value)> = Vec::new();
                let mut cur: usize = start;
                let mut j: u32 = 0;
                proof {
                    assert(value_pair_models(done@) =~= Seq::<(ValueModel, ValueModel)>::empty());
                    assert(value_pair_models(done@) + dec_pairs(
                        **kt,
                        **vt,
                        bytes@,
                        cur as int,
                        n as int,
                    )->Some_0.0 =~= dec_pairs(**kt, **vt, bytes@, cur as int, n as int)->Some_0.0);
                }
                while j < n
                    invariant
                        0 <= j <= n,
                        type_height(**kt) < type_height(*t),
                        type_height(**vt) < type_height(*t),
                        t matches Type::Dictionary(k2, v2) && **k2 == **kt && **v2 == **vt,
                        pos + 4 <= bytes@.len(),
                        start == pos + 4,
                        n == u32_from_be(
                            bytes@[pos as int],
                            bytes@[pos as int + 1],
                            bytes@[pos as int + 2],
                            bytes@[pos as int + 3],
                        ),
                        match dec_pairs(**kt, **vt, bytes@, cur as int, n as int - j as int) {
                            Some(q) => dec_pairs(**kt, **vt, bytes@, start as int, n as int)
                                == Some((value_pair_models(done@) + q.0, q.1)),
                            None => dec_pairs(**kt, **vt, bytes@, start as int, n as int) is None,
                        },
                    decreases n - j,
                {
                    let k = match read(kt, bytes, cur) {
                        Some((k, p)) => {
                            cur = p;
                            k
                        },
                        None => {
                            return None;
                        },
                    };
                    match read(vt, bytes, cur) {
                        Some((v, p)) => {
                            proof {
                                lemma_value_pair_models_snoc(done@, (k, v));
                                let q2 = dec_pairs(
                                    **kt,
                                    **vt,
                                    bytes@,
                                    p as int,
                                    n as int - j as int - 1,
                                );
                                if q2 is Some {
                                    assert(value_pair_models(done@) + (seq![
                                        (value_model(k), value_model(v)),
                                    ] + q2->Some_0.0) =~= value_pair_models(done@.push((k, v)))
                                        + q2->Some_0.0);
                                }
                            }
                            done.push((k, v));
                            cur = p;
                        },
                        None => {
                            return None;
                        },
                    }
                    j = j + 1;
                }
                proof {
                    assert(value_pair_models(done@) + Seq::<(ValueModel, ValueModel)>::empty()
                        =~= value_pair_models(done@));
                }
                Some((Value::Table(done), cur))
            },
            None => None,
        },
    }
}

/// Deserializes a whole boundary encoding of type `t`: the value it
/// carries, when the bytes are exactly one representation of the type;
/// `None` when they are not, or when trailing bytes remain.
pub fn lift(t: &Type, bytes: &Vec<u8>) -> (r: Option<Value>)
    ensures
        match r {
            Some(v) => dec(*t, bytes@, 0) == Some((v@, bytes@.len() as int)),
            None => !(dec(*t, bytes@, 0) matches Some(q) && q.1 == bytes@.len()),
        },
{
    match read(t, bytes, 0) {
        Some((v, p)) => {
            if p == bytes.len() {
                Some(v)
            } else {
                None
            }
        },
        None => None,
    }
}

} // verus!
