//! The conversion protocol: producing a [`Value`] from a typed value, and
//! attempting to recover a typed value from a [`Value`].
//!
//! Every implementation carries an exact contract: `to_value` yields the
//! value whose model is `value_model`, and `from_value` succeeds exactly
//! when `from_value_model` does, returning an item with the model it names.

use crate::number::NumberValue;
use crate::value::{distinct_keys, entry_models, lemma_entry_models, lemma_seq_models,
    lemma_seq_wf, model_of, seq_models, ValueModel, Value};
use vstd::hash_map::StringHashMap;
use vstd::prelude::*;

verus! {

/// A trait for converting types to `Value`.
///
/// Conversion is total and lossless: the produced value's model is pinned
/// by `value_model`, and is always well-formed.
pub trait ToValueTrait {
    /// The model of the value this type converts to.
    spec fn value_model(&self) -> ValueModel;

    /// Converts a type into a `Value`.
    fn to_value(&self) -> (r: Value)
        ensures
            r@ == self.value_model(),
            r@.wf(),
    ;
}

/// A trait for converting `Value` to types.
///
/// `from_value` is partial: it fails on a variant mismatch, on a number not
/// representable at the requested width, and on any nested element failure,
/// exactly as `from_value_model` says.
pub trait FromValueTrait {
    /// The reconstructed type.
    type Item;

    /// The mathematical model of a reconstructed item.
    type Repr;

    /// The model of a reconstructed item.
    spec fn item_model(x: Self::Item) -> Self::Repr;

    /// Which value models convert, and to what.
    spec fn from_value_model(v: ValueModel) -> Option<Self::Repr>;

    /// Converts a `Value` into a type.
    fn from_value(value: Value) -> (r: Option<Self::Item>)
        ensures
            match (r, Self::from_value_model(value@)) {
                (Some(x), Some(m)) => Self::item_model(x) == m,
                (None, None) => true,
                _ => false,
            },
    ;
}

impl ToValueTrait for i8 {
    open spec fn value_model(&self) -> ValueModel {
        ValueModel::Number(*self as int)
    }

    fn to_value(&self) -> (r: Value) {
        Value::Number(NumberValue::Signed(*self as i128))
    }
}

impl FromValueTrait for i8 {
    type Item = i8;

    type Repr = i8;

    open spec fn item_model(x: i8) -> i8 {
        x
    }

    open spec fn from_value_model(v: ValueModel) -> Option<i8> {
        match v {
            ValueModel::Number(n) => if i8::MIN <= n <= i8::MAX {
                Some(n as i8)
            } else {
                None
            },
            _ => None,
        }
    }

    fn from_value(value: Value) -> (r: Option<i8>) {
        if let Value::Number(number) = value {
            number.get_i8()
        } else {
            None
        }
    }
}

impl ToValueTrait for i16 {
    open spec fn value_model(&self) -> ValueModel {
        ValueModel::Number(*self as int)
    }

    fn to_value(&self) -> (r: Value) {
        Value::Number(NumberValue::Signed(*self as i128))
    }
}

impl FromValueTrait for i16 {
    type Item = i16;

    type Repr = i16;

    open spec fn item_model(x: i16) -> i16 {
        x
    }

    open spec fn from_value_model(v: ValueModel) -> Option<i16> {
        match v {
            ValueModel::Number(n) => if i16::MIN <= n <= i16::MAX {
                Some(n as i16)
            } else {
                None
            },
            _ => None,
        }
    }

    fn from_value(value: Value) -> (r: Option<i16>) {
        if let Value::Number(number) = value {
            number.get_i16()
        } else {
            None
        }
    }
}

impl ToValueTrait for i32 {
    open spec fn value_model(&self) -> ValueModel {
        ValueModel::Number(*self as int)
    }

    fn to_value(&self) -> (r: Value) {
        Value::Number(NumberValue::Signed(*self as i128))
    }
}

impl FromValueTrait for i32 {
    type Item = i32;

    type Repr = i32;

    open spec fn item_model(x: i32) -> i32 {
        x
    }

    open spec fn from_value_model(v: ValueModel) -> Option<i32> {
        match v {
            ValueModel::Number(n) => if i32::MIN <= n <= i32::MAX {
                Some(n as i32)
            } else {
                None
            },
            _ => None,
        }
    }

    fn from_value(value: Value) -> (r: Option<i32>) {
        if let Value::Number(number) = value {
            number.get_i32()
        } else {
            None
        }
    }
}

impl ToValueTrait for i64 {
    open spec fn value_model(&self) -> ValueModel {
        ValueModel::Number(*self as int)
    }

    fn to_value(&self) -> (r: Value) {
        Value::Number(NumberValue::Signed(*self as i128))
    }
}

impl FromValueTrait for i64 {
    type Item = i64;

    type Repr = i64;

    open spec fn item_model(x: i64) -> i64 {
        x
    }

    open spec fn from_value_model(v: ValueModel) -> Option<i64> {
        match v {
            ValueModel::Number(n) => if i64::MIN <= n <= i64::MAX {
                Some(n as i64)
            } else {
                None
            },
            _ => None,
        }
    }

    fn from_value(value: Value) -> (r: Option<i64>) {
        if let Value::Number(number) = value {
            number.get_i64()
        } else {
            None
        }
    }
}

impl ToValueTrait for i128 {
    open spec fn value_model(&self) -> ValueModel {
        ValueModel::Number(*self as int)
    }

    fn to_value(&self) -> (r: Value) {
        Value::Number(NumberValue::Signed(*self))
    }
}

impl FromValueTrait for i128 {
    type Item = i128;

    type Repr = i128;

    open spec fn item_model(x: i128) -> i128 {
        x
    }

    open spec fn from_value_model(v: ValueModel) -> Option<i128> {
        match v {
            ValueModel::Number(n) => if i128::MIN <= n <= i128::MAX {
                Some(n as i128)
            } else {
                None
            },
            _ => None,
        }
    }

    fn from_value(value: Value) -> (r: Option<i128>) {
        if let Value::Number(number) = value {
            number.get_i128()
        } else {
            None
        }
    }
}

impl ToValueTrait for u8 {
    open spec fn value_model(&self) -> ValueModel {
        ValueModel::Number(*self as int)
    }

    fn to_value(&self) -> (r: Value) {
        Value::Number(NumberValue::Unsigned(*self as u128))
    }
}

impl FromValueTrait for u8 {
    type Item = u8;

    type Repr = u8;

    open spec fn item_model(x: u8) -> u8 {
        x
    }

    open spec fn from_value_model(v: ValueModel) -> Option<u8> {
        match v {
            ValueModel::Number(n) => if 0 <= n <= u8::MAX {
                Some(n as u8)
            } else {
                None
            },
            _ => None,
        }
    }

    fn from_value(value: Value) -> (r: Option<u8>) {
        if let Value::Number(number) = value {
            number.get_u8()
        } else {
            None
        }
    }
}

impl ToValueTrait for u16 {
    open spec fn value_model(&self) -> ValueModel {
        ValueModel::Number(*self as int)
    }

    fn to_value(&self) -> (r: Value) {
        Value::Number(NumberValue::Unsigned(*self as u128))
    }
}

impl FromValueTrait for u16 {
    type Item = u16;

    type Repr = u16;

    open spec fn item_model(x: u16) -> u16 {
        x
    }

    open spec fn from_value_model(v: ValueModel) -> Option<u16> {
        match v {
            ValueModel::Number(n) => if 0 <= n <= u16::MAX {
                Some(n as u16)
            } else {
                None
            },
            _ => None,
        }
    }

    fn from_value(value: Value) -> (r: Option<u16>) {
        if let Value::Number(number) = value {
            number.get_u16()
        } else {
            None
        }
    }
}

impl ToValueTrait for u32 {
    open spec fn value_model(&self) -> ValueModel {
        ValueModel::Number(*self as int)
    }

    fn to_value(&self) -> (r: Value) {
        Value::Number(NumberValue::Unsigned(*self as u128))
    }
}

impl FromValueTrait for u32 {
    type Item = u32;

    type Repr = u32;

    open spec fn item_model(x: u32) -> u32 {
        x
    }

    open spec fn from_value_model(v: ValueModel) -> Option<u32> {
        match v {
            ValueModel::Number(n) => if 0 <= n <= u32::MAX {
                Some(n as u32)
            } else {
                None
            },
            _ => None,
        }
    }

    fn from_value(value: Value) -> (r: Option<u32>) {
        if let Value::Number(number) = value {
            number.get_u32()
        } else {
            None
        }
    }
}

impl ToValueTrait for u64 {
    open spec fn value_model(&self) -> ValueModel {
        ValueModel::Number(*self as int)
    }

    fn to_value(&self) -> (r: Value) {
        Value::Number(NumberValue::Unsigned(*self as u128))
    }
}

impl FromValueTrait for u64 {
    type Item = u64;

    type Repr = u64;

    open spec fn item_model(x: u64) -> u64 {
        x
    }

    open spec fn from_value_model(v: ValueModel) -> Option<u64> {
        match v {
            ValueModel::Number(n) => if 0 <= n <= u64::MAX {
                Some(n as u64)
            } else {
                None
            },
            _ => None,
        }
    }

    fn from_value(value: Value) -> (r: Option<u64>) {
        if let Value::Number(number) = value {
            number.get_u64()
        } else {
            None
        }
    }
}

impl ToValueTrait for u128 {
    open spec fn value_model(&self) -> ValueModel {
        ValueModel::Number(*self as int)
    }

    fn to_value(&self) -> (r: Value) {
        Value::Number(NumberValue::Unsigned(*self))
    }
}

impl FromValueTrait for u128 {
    type Item = u128;

    type Repr = u128;

    open spec fn item_model(x: u128) -> u128 {
        x
    }

    open spec fn from_value_model(v: ValueModel) -> Option<u128> {
        match v {
            ValueModel::Number(n) => if 0 <= n <= u128::MAX {
                Some(n as u128)
            } else {
                None
            },
            _ => None,
        }
    }

    fn from_value(value: Value) -> (r: Option<u128>) {
        if let Value::Number(number) = value {
            number.get_u128()
        } else {
            None
        }
    }
}

impl ToValueTrait for bool {
    open spec fn value_model(&self) -> ValueModel {
        ValueModel::Boolean(*self)
    }

    fn to_value(&self) -> (r: Value) {
        Value::Boolean(*self)
    }
}

impl FromValueTrait for bool {
    type Item = bool;

    type Repr = bool;

    open spec fn item_model(x: bool) -> bool {
        x
    }

    open spec fn from_value_model(v: ValueModel) -> Option<bool> {
        match v {
            ValueModel::Boolean(b) => Some(b),
            _ => None,
        }
    }

    fn from_value(value: Value) -> (r: Option<bool>) {
        if let Value::Boolean(b) = value {
            Some(b)
        } else {
            None
        }
    }
}

impl ToValueTrait for String {
    open spec fn value_model(&self) -> ValueModel {
        ValueModel::String(self@)
    }

    fn to_value(&self) -> (r: Value) {
        Value::String(self.clone())
    }
}

impl FromValueTrait for String {
    type Item = String;

    type Repr = Seq<char>;

    open spec fn item_model(x: String) -> Seq<char> {
        x@
    }

    open spec fn from_value_model(v: ValueModel) -> Option<Seq<char>> {
        match v {
            ValueModel::String(s) => Some(s),
            _ => None,
        }
    }

    fn from_value(value: Value) -> (r: Option<String>) {
        if let Value::String(text) = value {
            Some(text)
        } else {
            None
        }
    }
}

impl<T: ToValueTrait> ToValueTrait for Vec<T> {
    open spec fn value_model(&self) -> ValueModel {
        ValueModel::Array(Seq::new(self@.len(), |i: int| self@[i].value_model()))
    }

    fn to_value(&self) -> (r: Value) {
        let mut out: Vec<Value> = Vec::new();
        let mut i: usize = 0;
        while i < self.len()
            invariant
                i <= self.len(),
                out@.len() == i as int,
                forall|k: int|
                    0 <= k < i as int ==> model_of(#[trigger] out@[k]) == self@[k].value_model()
                        && model_of(out@[k]).wf(),
            decreases self.len() - i,
        {
            let v = self[i].to_value();
            out.push(v);
            i += 1;
        }
        let r = Value::Array(out);
        proof {
            lemma_seq_models(r->Array_0@);
            assert(seq_models(r->Array_0@) =~= Seq::new(
                self@.len(),
                |i: int| self@[i].value_model(),
            ));
            lemma_seq_wf(seq_models(r->Array_0@));
        }
        r
    }
}

impl<T: ToValueTrait> ToValueTrait for Option<T> {
    open spec fn value_model(&self) -> ValueModel {
        match *self {
            Some(x) => x.value_model(),
            None => ValueModel::Null,
        }
    }

    fn to_value(&self) -> (r: Value) {
        match self {
            Some(x) => x.to_value(),
            None => Value::Null,
        }
    }
}

impl<T: FromValueTrait> FromValueTrait for Vec<T> {
    type Item = Vec<T::Item>;

    type Repr = Seq<T::Repr>;

    open spec fn item_model(x: Vec<T::Item>) -> Seq<T::Repr> {
        Seq::new(x@.len(), |i: int| T::item_model(x@[i]))
    }

    open spec fn from_value_model(v: ValueModel) -> Option<Seq<T::Repr>> {
        match v {
            ValueModel::Array(elems) => if forall|i: int|
                0 <= i < elems.len() ==> (#[trigger] T::from_value_model(elems[i])) is Some {
                Some(Seq::new(elems.len(), |i: int| T::from_value_model(elems[i])->0))
            } else {
                None
            },
            _ => None,
        }
    }

    fn from_value(value: Value) -> (r: Option<Vec<T::Item>>) {
        if let Value::Array(mut array) = value {
            let ghost elems = seq_models(array@);
            proof {
                lemma_seq_models(array@);
                assert(value@ == ValueModel::Array(elems));
            }
            let mut out: Vec<T::Item> = Vec::new();
            while array.len() > 0
                invariant
                    value@ == ValueModel::Array(elems),
                    out@.len() + array@.len() == elems.len(),
                    forall|j: int|
                        0 <= j < array@.len() ==> elems[out@.len() + j] == model_of(
                            #[trigger] array@[j],
                        ),
                    forall|k: int|
                        0 <= k < out@.len() ==> (#[trigger] T::from_value_model(elems[k])) is Some
                            && T::item_model(out@[k]) == T::from_value_model(elems[k])->0,
                decreases array@.len(),
            {
                let ghost processed = out@.len() as int;
                let ghost prev = array@;
                let head = array.remove(0);
                assert(forall|j: int| 0 <= j < array@.len() ==> array@[j] == prev[j + 1]) by {
                    assert(array@ =~= prev.subrange(1, prev.len() as int));
                }
                match T::from_value(head) {
                    Some(item) => {
                        out.push(item);
                    },
                    None => {
                        proof {
                            assert(T::from_value_model(elems[processed]) is None);
                        }
                        return None;
                    },
                }
            }
            proof {
                assert(Self::item_model(out) =~= Seq::new(
                    elems.len(),
                    |i: int| T::from_value_model(elems[i])->0,
                ));
            }
            Some(out)
        } else {
            None
        }
    }
}

impl<T: FromValueTrait> FromValueTrait for Option<T> {
    type Item = Option<T::Item>;

    type Repr = Option<T::Repr>;

    open spec fn item_model(x: Option<T::Item>) -> Option<T::Repr> {
        match x {
            Some(inner) => Some(T::item_model(inner)),
            None => None,
        }
    }

    open spec fn from_value_model(v: ValueModel) -> Option<Option<T::Repr>> {
        match v {
            ValueModel::Null => Some(None),
            _ => match T::from_value_model(v) {
                Some(m) => Some(Some(m)),
                None => Some(None),
            },
        }
    }

    /// The outer result is always present: an explicit `Null` and an inner
    /// conversion failure both surface as an absent payload. The two cases
    /// are deliberately not distinguished by this protocol.
    fn from_value(value: Value) -> (r: Option<Option<T::Item>>) {
        match value {
            Value::Null => Some(None),
            other => Some(T::from_value(other)),
        }
    }
}

/// The mapping that a sequence of modelled object entries denotes, assuming
/// every entry's value converts; on a repeated key the later entry wins.
pub open spec fn entries_map<T: FromValueTrait>(
    entries: Seq<(Seq<char>, ValueModel)>,
) -> Map<Seq<char>, T::Repr>
    decreases entries.len(),
{
    if entries.len() == 0 {
        Map::empty()
    } else {
        entries_map::<T>(entries.drop_last()).insert(
            entries.last().0,
            T::from_value_model(entries.last().1)->0,
        )
    }
}

impl<T: FromValueTrait> FromValueTrait for StringHashMap<T> {
    type Item = StringHashMap<T::Item>;

    type Repr = Map<Seq<char>, T::Repr>;

    open spec fn item_model(x: StringHashMap<T::Item>) -> Map<Seq<char>, T::Repr> {
        x@.map_values(|e: T::Item| T::item_model(e))
    }

    open spec fn from_value_model(v: ValueModel) -> Option<Map<Seq<char>, T::Repr>> {
        match v {
            ValueModel::Object(entries) => if forall|i: int|
                0 <= i < entries.len() ==> (#[trigger] T::from_value_model(entries[i].1)) is Some {
                Some(entries_map::<T>(entries))
            } else {
                None
            },
            _ => None,
        }
    }

    fn from_value(value: Value) -> (r: Option<StringHashMap<T::Item>>) {
        if let Value::Object(mut entries) = value {
            let ghost ms = entry_models(entries@);
            proof {
                lemma_entry_models(entries@);
                assert(value@ == ValueModel::Object(ms));
            }
            let mut out: StringHashMap<T::Item> = StringHashMap::new();
            let ghost mut processed: int = 0;
            proof {
                assert(Self::item_model(out) =~= entries_map::<T>(ms.subrange(0, 0)));
            }
            while entries.len() > 0
                invariant
                    value@ == ValueModel::Object(ms),
                    0 <= processed,
                    processed + entries@.len() == ms.len(),
                    forall|j: int|
                        0 <= j < entries@.len() ==> ms[processed + j] == ((
                        #[trigger] entries@[j]).0@, model_of(entries@[j].1)),
                    forall|k: int|
                        0 <= k < processed ==> (#[trigger] T::from_value_model(ms[k].1)) is Some,
                    Self::item_model(out) == entries_map::<T>(ms.subrange(0, processed)),
                decreases entries@.len(),
            {
                let ghost prev = entries@;
                let entry = entries.remove(0);
                assert(forall|j: int| 0 <= j < entries@.len() ==> entries@[j] == prev[j + 1]) by {
                    assert(entries@ =~= prev.subrange(1, prev.len() as int));
                }
                let (key, val) = entry;
                match T::from_value(val) {
                    Some(item) => {
                        out.insert(key, item);
                        proof {
                            let prefix = ms.subrange(0, processed);
                            let extended = ms.subrange(0, processed + 1);
                            assert(extended.drop_last() =~= prefix);
                            assert(extended.last() == ms[processed]);
                            assert(Self::item_model(out) =~= entries_map::<T>(extended));
                            processed = processed + 1;
                        }
                    },
                    None => {
                        proof {
                            assert(T::from_value_model(ms[processed].1) is None);
                        }
                        return None;
                    },
                }
            }
            proof {
                assert(ms.subrange(0, processed) =~= ms);
            }
            Some(out)
        } else {
            None
        }
    }
}

// Laws of the conversion protocol.
//
// Together with the trait contracts, each law below pins the behaviour of
// the executable conversions: `to_value` returns the value whose model is
// `value_model`, and `from_value` follows `from_value_model` exactly.

/// Round trip for signed 8-bit integers: converting to a value and back
/// recovers the number.
pub proof fn lemma_round_trip_i8(x: i8)
    ensures
        <i8 as FromValueTrait>::from_value_model(x.value_model()) == Some(x),
{
}

/// Round trip for signed 16-bit integers.
pub proof fn lemma_round_trip_i16(x: i16)
    ensures
        <i16 as FromValueTrait>::from_value_model(x.value_model()) == Some(x),
{
}

/// Round trip for signed 32-bit integers.
pub proof fn lemma_round_trip_i32(x: i32)
    ensures
        <i32 as FromValueTrait>::from_value_model(x.value_model()) == Some(x),
{
}

/// Round trip for signed 64-bit integers.
pub proof fn lemma_round_trip_i64(x: i64)
    ensures
        <i64 as FromValueTrait>::from_value_model(x.value_model()) == Some(x),
{
}

/// Round trip for signed 128-bit integers.
pub proof fn lemma_round_trip_i128(x: i128)
    ensures
        <i128 as FromValueTrait>::from_value_model(x.value_model()) == Some(x),
{
}

/// Round trip for unsigned 8-bit integers.
pub proof fn lemma_round_trip_u8(x: u8)
    ensures
        <u8 as FromValueTrait>::from_value_model(x.value_model()) == Some(x),
{
}

/// Round trip for unsigned 16-bit integers.
pub proof fn lemma_round_trip_u16(x: u16)
    ensures
        <u16 as FromValueTrait>::from_value_model(x.value_model()) == Some(x),
{
}

/// Round trip for unsigned 32-bit integers.
pub proof fn lemma_round_trip_u32(x: u32)
    ensures
        <u32 as FromValueTrait>::from_value_model(x.value_model()) == Some(x),
{
}

/// Round trip for unsigned 64-bit integers.
pub proof fn lemma_round_trip_u64(x: u64)
    ensures
        <u64 as FromValueTrait>::from_value_model(x.value_model()) == Some(x),
{
}

/// Round trip for unsigned 128-bit integers.
pub proof fn lemma_round_trip_u128(x: u128)
    ensures
        <u128 as FromValueTrait>::from_value_model(x.value_model()) == Some(x),
{
}

/// Round trip for booleans.
pub proof fn lemma_round_trip_bool(x: bool)
    ensures
        <bool as FromValueTrait>::from_value_model(x.value_model()) == Some(x),
{
}

/// Round trip for text: converting to a value and back recovers the
/// character sequence.
pub proof fn lemma_round_trip_string(x: String)
    ensures
        <String as FromValueTrait>::from_value_model(x.value_model()) == Some(x@),
{
}

/// The sequence embedding is lossless: when every element of `xs` round
/// trips, the array that `xs` converts to converts back to exactly the
/// elements' models, in order.
pub proof fn lemma_round_trip_vec<T: ToValueTrait + FromValueTrait>(xs: Vec<T>)
    requires
        forall|i: int|
            0 <= i < xs@.len() ==> (#[trigger] T::from_value_model(
                xs@[i].value_model(),
            )) is Some,
    ensures
        <Vec<T> as FromValueTrait>::from_value_model(xs.value_model()) == Some(
            Seq::new(xs@.len(), |i: int| T::from_value_model(xs@[i].value_model())->0),
        ),
{
    let elems = Seq::new(xs@.len(), |i: int| xs@[i].value_model());
    assert(Seq::new(elems.len(), |i: int| T::from_value_model(elems[i])->0) =~= Seq::new(
        xs@.len(),
        |i: int| T::from_value_model(xs@[i].value_model())->0,
    ));
}

/// A number outside the signed 8-bit range is rejected by the 8-bit
/// conversion; it is never truncated or wrapped.
pub proof fn lemma_narrowing_rejected_i8(n: int)
    requires
        n < i8::MIN || n > i8::MAX,
    ensures
        <i8 as FromValueTrait>::from_value_model(ValueModel::Number(n)) is None,
{
}

/// A negative number is rejected by every unsigned conversion width.
pub proof fn lemma_negative_rejected_u8(n: int)
    requires
        n < 0,
    ensures
        <u8 as FromValueTrait>::from_value_model(ValueModel::Number(n)) is None,
        <u16 as FromValueTrait>::from_value_model(ValueModel::Number(n)) is None,
        <u32 as FromValueTrait>::from_value_model(ValueModel::Number(n)) is None,
        <u64 as FromValueTrait>::from_value_model(ValueModel::Number(n)) is None,
        <u128 as FromValueTrait>::from_value_model(ValueModel::Number(n)) is None,
{
}

/// A value whose variant is not `Number` never converts to a number; there
/// is no implicit coercion from text or any other variant.
pub proof fn lemma_variant_mismatch_i32(v: ValueModel)
    requires
        !(v is Number),
    ensures
        <i32 as FromValueTrait>::from_value_model(v) is None,
{
}

/// If any element of an array fails to convert, the whole sequence
/// conversion fails; no partial sequence is produced.
pub proof fn lemma_sequence_failure_propagates<T: FromValueTrait>(elems: Seq<ValueModel>, i: int)
    requires
        0 <= i < elems.len(),
        T::from_value_model(elems[i]) is None,
    ensures
        <Vec<T> as FromValueTrait>::from_value_model(ValueModel::Array(elems)) is None,
{
}

/// If every element of an array converts, the sequence conversion succeeds
/// with exactly the elementwise conversions, in order.
pub proof fn lemma_sequence_all_convert<T: FromValueTrait>(elems: Seq<ValueModel>)
    requires
        forall|i: int| 0 <= i < elems.len() ==> (#[trigger] T::from_value_model(elems[i])) is Some,
    ensures
        <Vec<T> as FromValueTrait>::from_value_model(ValueModel::Array(elems)) == Some(
            Seq::new(elems.len(), |i: int| T::from_value_model(elems[i])->0),
        ),
{
}

/// If any entry of an object fails to convert, the whole mapping
/// conversion fails.
pub proof fn lemma_mapping_failure_propagates<T: FromValueTrait>(
    entries: Seq<(Seq<char>, ValueModel)>,
    i: int,
)
    requires
        0 <= i < entries.len(),
        T::from_value_model(entries[i].1) is None,
    ensures
        <StringHashMap<T> as FromValueTrait>::from_value_model(
            ValueModel::Object(entries),
        ) is None,
{
}

/// On an object with distinct keys whose entries all convert, the mapping
/// conversion copies each key verbatim and converts its value.
pub proof fn lemma_mapping_converts<T: FromValueTrait>(
    entries: Seq<(Seq<char>, ValueModel)>,
    i: int,
)
    requires
        distinct_keys(entries),
        0 <= i < entries.len(),
        forall|k: int|
            0 <= k < entries.len() ==> (#[trigger] T::from_value_model(entries[k].1)) is Some,
    ensures
        <StringHashMap<T> as FromValueTrait>::from_value_model(ValueModel::Object(entries))
            matches Some(m) && m.contains_key(entries[i].0) && m[entries[i].0]
            == T::from_value_model(entries[i].1)->0,
{
    lemma_entries_map_index::<T>(entries, i);
}

/// Each entry of an object with distinct keys appears in `entries_map`.
proof fn lemma_entries_map_index<T: FromValueTrait>(entries: Seq<(Seq<char>, ValueModel)>, i: int)
    requires
        distinct_keys(entries),
        0 <= i < entries.len(),
    ensures
        entries_map::<T>(entries).contains_key(entries[i].0),
        entries_map::<T>(entries)[entries[i].0] == T::from_value_model(entries[i].1)->0,
    decreases entries.len(),
{
    if i < entries.len() - 1 {
        assert(entries.drop_last()[i] == entries[i]);
        lemma_entries_map_index::<T>(entries.drop_last(), i);
        assert(entries.last().0 != entries[i].0);
    }
}

/// The optional conversion is total on the outside: a `Null` becomes an
/// absent payload, a converting value becomes a present payload, and a
/// non-converting value also becomes an absent payload.
pub proof fn lemma_optional_semantics<T: FromValueTrait>(v: ValueModel)
    ensures
        <Option<T> as FromValueTrait>::from_value_model(v) is Some,
        v is Null ==> <Option<T> as FromValueTrait>::from_value_model(v) == Some(
            None::<T::Repr>,
        ),
        !(v is Null) && T::from_value_model(v) is None
            ==> <Option<T> as FromValueTrait>::from_value_model(v) == Some(None::<T::Repr>),
        !(v is Null) && T::from_value_model(v) is Some
            ==> <Option<T> as FromValueTrait>::from_value_model(v) == Some(
            Some(T::from_value_model(v)->0),
        ),
{
}

} // verus!
