//! Runtime values: primitives, arrays and mappings, with their mathematical
//! model (the views `KeyV`, `NumV`, `PrimV` and `ValueV`).
use vstd::prelude::*;

use crate::catchable::cerr;
use crate::spec::text::{Text, chars_of, i64_to_text, int_to_decimal, parse_i64, parse_i64_spec};

verus! {

// ---------------------------------------------------------------------------
// Models
// ---------------------------------------------------------------------------

/// Model of a mapping key.
pub enum KeyV {
    Str(Seq<char>),
    Int(i64),
}

/// Model of a number: an integer, or a floating-point number given by its
/// bits and its decimal text.
pub enum NumV {
    Int(i64),
    Float(u64, Seq<char>),
}

/// Model of a primitive value.
pub enum PrimV {
    Str(Seq<char>),
    Num(NumV),
}

/// Model of a runtime value. A mapping is the sequence of its entries in
/// key order, with its optional default value.
pub enum ValueV {
    Prim(PrimV),
    Array(Seq<ValueV>),
    Mapping(Seq<(KeyV, ValueV)>, Option<Box<ValueV>>),
}

// ---------------------------------------------------------------------------
// Executable types
// ---------------------------------------------------------------------------

/// A key of a mapping.
#[derive(Debug, PartialEq, Eq, PartialOrd, Ord, Hash)]
pub enum MapKey {
    Str(Text),
    Int(i64),
}

/// A floating-point number, held by its bits (`f64::to_bits`) and the text
/// that its `Display` gives.
#[derive(Debug, PartialEq, Eq, PartialOrd, Ord, Hash)]
pub struct FloatValue {
    pub bits: u64,
    pub text: Text,
}

/// A number: an integer or a floating-point number.
#[derive(Debug, PartialEq, Eq, PartialOrd, Ord, Hash)]
pub enum Numeric {
    Int(i64),
    Float(FloatValue),
}

/// A primitive value: a text or a number.
#[derive(Debug, PartialEq, Eq, PartialOrd, Ord, Hash)]
pub enum PrimitiveValue {
    Str(Text),
    Number(Numeric),
}

/// A sequence of values.
#[derive(Debug, PartialEq, Eq, PartialOrd, Ord, Hash)]
pub struct Array(pub Vec<RuntimeValue>);

/// A mapping from keys to values, its entries in strictly increasing key
/// order, with an optional default for missing keys.
#[derive(Debug, PartialEq, Eq, PartialOrd, Ord, Hash)]
pub struct RealMapping {
    pub mapping: Vec<(MapKey, RuntimeValue)>,
    pub default: Option<Box<RuntimeValue>>,
}

/// A collection: an array or a mapping.
#[derive(Debug, PartialEq, Eq, PartialOrd, Ord, Hash)]
pub enum MappingOrArray {
    Array(Array),
    Mapping(RealMapping),
}

/// A value at runtime: a primitive or a collection.
#[derive(Debug, PartialEq, Eq, PartialOrd, Ord, Hash)]
pub enum RuntimeValue {
    Prim(PrimitiveValue),
    Comp(MappingOrArray),
}

// ---------------------------------------------------------------------------
// Views
// ---------------------------------------------------------------------------

impl View for MapKey {
    type V = KeyV;

    open spec fn view(&self) -> KeyV {
        match self {
            MapKey::Str(t) => KeyV::Str(t@),
            MapKey::Int(i) => KeyV::Int(*i),
        }
    }
}

impl View for Numeric {
    type V = NumV;

    open spec fn view(&self) -> NumV {
        match self {
            Numeric::Int(i) => NumV::Int(*i),
            Numeric::Float(f) => NumV::Float(f.bits, f.text@),
        }
    }
}

impl View for PrimitiveValue {
    type V = PrimV;

    open spec fn view(&self) -> PrimV {
        match self {
            PrimitiveValue::Str(t) => PrimV::Str(t@),
            PrimitiveValue::Number(n) => PrimV::Num(n@),
        }
    }
}

/// The model of a value.
pub open spec fn value_view(v: RuntimeValue) -> ValueV
    decreases v,
{
    match v {
        RuntimeValue::Prim(p) => ValueV::Prim(p@),
        RuntimeValue::Comp(MappingOrArray::Array(a)) => ValueV::Array(
            Seq::new(
                a.0@.len(),
                |i: int|
                    if 0 <= i < a.0@.len() {
                        value_view(a.0@[i])
                    } else {
                        ValueV::Prim(PrimV::Str(Seq::empty()))
                    },
            ),
        ),
        RuntimeValue::Comp(MappingOrArray::Mapping(m)) => ValueV::Mapping(
            Seq::new(
                m.mapping@.len(),
                |i: int|
                    if 0 <= i < m.mapping@.len() {
                        (m.mapping@[i].0@, value_view(m.mapping@[i].1))
                    } else {
                        (KeyV::Int(0), ValueV::Prim(PrimV::Str(Seq::empty())))
                    },
            ),
            match m.default {
                Some(b) => Some(Box::new(value_view(*b))),
                None => None,
            },
        ),
    }
}

impl View for RuntimeValue {
    type V = ValueV;

    open spec fn view(&self) -> ValueV {
        value_view(*self)
    }
}

impl View for Array {
    type V = Seq<ValueV>;

    open spec fn view(&self) -> Seq<ValueV> {
        Seq::new(self.0@.len(), |i: int| self.0@[i]@)
    }
}

/// The model of a list of entries.
pub open spec fn entries_view(es: Seq<(MapKey, RuntimeValue)>) -> Seq<(KeyV, ValueV)> {
    Seq::new(es.len(), |i: int| (es[i].0@, es[i].1@))
}

/// The model of an optional boxed default.
pub open spec fn default_view(d: Option<Box<RuntimeValue>>) -> Option<Box<ValueV>> {
    match d {
        Some(b) => Some(Box::new((*b)@)),
        None => None,
    }
}

impl View for RealMapping {
    type V = ValueV;

    open spec fn view(&self) -> ValueV {
        ValueV::Mapping(entries_view(self.mapping@), default_view(self.default))
    }
}

impl View for MappingOrArray {
    type V = ValueV;

    open spec fn view(&self) -> ValueV {
        match self {
            MappingOrArray::Array(a) => ValueV::Array(a@),
            MappingOrArray::Mapping(m) => m@,
        }
    }
}

/// The model of a collection agrees with that of the value that holds it.
pub proof fn lemma_comp_view(c: MappingOrArray)
    ensures
        RuntimeValue::Comp(c)@ == c@,
{
    match c {
        MappingOrArray::Array(a) => {
            assert(RuntimeValue::Comp(MappingOrArray::Array(a))@ == ValueV::Array(a@)) by {
                assert(value_view(RuntimeValue::Comp(MappingOrArray::Array(a)))->Array_0 =~= a@);
            }
        },
        MappingOrArray::Mapping(m) => {
            let v = RuntimeValue::Comp(MappingOrArray::Mapping(m));
            assert(value_view(v)->Mapping_0 =~= entries_view(m.mapping@));
        },
    }
}

// ---------------------------------------------------------------------------
// Order of keys
// ---------------------------------------------------------------------------

/// The length of the longest common prefix of two texts.
pub open spec fn lcp(a: Seq<char>, b: Seq<char>) -> nat
    decreases a.len(),
{
    if a.len() > 0 && b.len() > 0 && a[0] == b[0] {
        1 + lcp(a.drop_first(), b.drop_first())
    } else {
        0
    }
}

/// The order of `str`: lexicographic by code point.
pub open spec fn chars_lt(a: Seq<char>, b: Seq<char>) -> bool {
    let i = lcp(a, b) as int;
    (i == a.len() && i < b.len()) || (i < a.len() && i < b.len() && a[i] < b[i])
}

/// The order of keys: texts before integers, texts as `str`, integers by
/// value.
pub open spec fn key_lt(a: KeyV, b: KeyV) -> bool {
    match (a, b) {
        (KeyV::Str(x), KeyV::Str(y)) => chars_lt(x, y),
        (KeyV::Str(_), KeyV::Int(_)) => true,
        (KeyV::Int(_), KeyV::Str(_)) => false,
        (KeyV::Int(x), KeyV::Int(y)) => x < y,
    }
}

/// Whether the keys of the entries strictly increase.
pub open spec fn keys_sorted(es: Seq<(KeyV, ValueV)>) -> bool {
    forall|i: int, j: int| 0 <= i < j < es.len() ==> key_lt(#[trigger] es[i].0, #[trigger] es[j].0)
}

/// The common prefix of two texts: both agree on it, and differ right after
/// it unless one of them ends there.
pub proof fn lemma_lcp(a: Seq<char>, b: Seq<char>)
    ensures
        lcp(a, b) <= a.len(),
        lcp(a, b) <= b.len(),
        forall|j: int| 0 <= j < lcp(a, b) ==> a[j] == b[j],
        lcp(a, b) < a.len() && lcp(a, b) < b.len() ==> a[lcp(a, b) as int] != b[lcp(
            a,
            b,
        ) as int],
    decreases a.len(),
{
    if a.len() > 0 && b.len() > 0 && a[0] == b[0] {
        lemma_lcp(a.drop_first(), b.drop_first());
        assert forall|j: int| 0 <= j < lcp(a, b) implies a[j] == b[j] by {
            if j > 0 {
                assert(a[j] == a.drop_first()[j - 1]);
                assert(b[j] == b.drop_first()[j - 1]);
            }
        }
    }
}

/// A length on which two texts agree, and after which they differ or one
/// ends, is the length of their common prefix.
pub proof fn lemma_lcp_is(a: Seq<char>, b: Seq<char>, k: int)
    requires
        0 <= k <= a.len(),
        k <= b.len(),
        forall|j: int| 0 <= j < k ==> a[j] == b[j],
        k == a.len() || k == b.len() || a[k] != b[k],
    ensures
        lcp(a, b) == k,
    decreases a.len(),
{
    if k > 0 {
        assert(a[0] == b[0]);
        assert forall|j: int| 0 <= j < k - 1 implies a.drop_first()[j] == b.drop_first()[j] by {
            assert(a[j + 1] == b[j + 1]);
        }
        if k - 1 < a.drop_first().len() && k - 1 < b.drop_first().len() {
            assert(a.drop_first()[k - 1] == a[k]);
            assert(b.drop_first()[k - 1] == b[k]);
        }
        lemma_lcp_is(a.drop_first(), b.drop_first(), k - 1);
    }
}

/// The order of texts is a strict total order.
pub proof fn lemma_chars_order(a: Seq<char>, b: Seq<char>, c: Seq<char>)
    ensures
        !chars_lt(a, a),
        chars_lt(a, b) ==> !chars_lt(b, a),
        a != b ==> chars_lt(a, b) || chars_lt(b, a),
        chars_lt(a, b) && chars_lt(b, c) ==> chars_lt(a, c),
{
    lemma_lcp(a, a);
    lemma_lcp_is(a, a, a.len() as int);
    lemma_lcp(a, b);
    lemma_lcp(b, a);
    lemma_lcp(b, c);
    lemma_lcp(a, c);
    let p = lcp(a, b) as int;
    lemma_lcp_is(b, a, p);
    if a != b {
        if p == a.len() && p == b.len() {
            assert(a =~= b);
        }
    }
    if chars_lt(a, b) && chars_lt(b, c) {
        let q = lcp(b, c) as int;
        if p < q {
            lemma_lcp_is(a, c, p);
        } else if p > q {
            lemma_lcp_is(a, c, q);
        } else {
            lemma_lcp_is(a, c, p);
        }
    }
}

/// The order of keys is a strict total order.
pub proof fn lemma_key_order(a: KeyV, b: KeyV, c: KeyV)
    ensures
        !key_lt(a, a),
        key_lt(a, b) ==> !key_lt(b, a),
        a != b ==> key_lt(a, b) || key_lt(b, a),
        key_lt(a, b) && key_lt(b, c) ==> key_lt(a, c),
{
    match (a, b, c) {
        (KeyV::Str(x), KeyV::Str(y), KeyV::Str(z)) => lemma_chars_order(x, y, z),
        (KeyV::Str(x), KeyV::Str(y), _) => lemma_chars_order(x, y, y),
        (KeyV::Str(x), _, KeyV::Str(z)) => lemma_chars_order(x, x, z),
        (_, KeyV::Str(y), KeyV::Str(z)) => lemma_chars_order(y, y, z),
        (KeyV::Str(x), _, _) => lemma_chars_order(x, x, x),
        (_, KeyV::Str(y), _) => lemma_chars_order(y, y, y),
        _ => {},
    }
}

/// The outcome of comparing two keys.
#[derive(Debug, PartialEq, Eq, Structural, Clone, Copy)]
pub enum KeyOrder {
    Less,
    Equal,
    Greater,
}

/// Compares two texts in the order of `str`.
pub fn compare_text(a: &Text, b: &Text) -> (r: KeyOrder)
    ensures
        r == KeyOrder::Less <==> chars_lt(a@, b@),
        r == KeyOrder::Equal <==> a@ == b@,
        r == KeyOrder::Greater <==> chars_lt(b@, a@),
{
    let x = chars_of(a.as_str());
    let y = chars_of(b.as_str());
    let mut i: usize = 0;
    while i < x.len() && i < y.len() && x[i] == y[i]
        invariant
            i <= x.len(),
            i <= y.len(),
            forall|j: int| 0 <= j < i ==> x@[j] == y@[j],
        decreases x.len() - i,
    {
        i = i + 1;
    }
    proof {
        lemma_lcp_is(x@, y@, i as int);
        lemma_lcp_is(y@, x@, i as int);
        lemma_chars_order(x@, y@, y@);
        if i == x.len() && i == y.len() {
            assert(x@ =~= y@);
        }
    }
    if i == x.len() {
        if i == y.len() {
            KeyOrder::Equal
        } else {
            KeyOrder::Less
        }
    } else if i == y.len() {
        KeyOrder::Greater
    } else if x[i] < y[i] {
        KeyOrder::Less
    } else {
        KeyOrder::Greater
    }
}

/// Compares two keys in key order.
pub fn compare_key(a: &MapKey, b: &MapKey) -> (r: KeyOrder)
    ensures
        r == KeyOrder::Less <==> key_lt(a@, b@),
        r == KeyOrder::Equal <==> a@ == b@,
        r == KeyOrder::Greater <==> key_lt(b@, a@),
{
    match (a, b) {
        (MapKey::Str(x), MapKey::Str(y)) => compare_text(x, y),
        (MapKey::Str(_), MapKey::Int(_)) => KeyOrder::Less,
        (MapKey::Int(_), MapKey::Str(_)) => KeyOrder::Greater,
        (MapKey::Int(x), MapKey::Int(y)) => {
            if *x < *y {
                KeyOrder::Less
            } else if *x == *y {
                KeyOrder::Equal
            } else {
                KeyOrder::Greater
            }
        },
    }
}

/// Whether two keys are equal.
pub fn key_eq(a: &MapKey, b: &MapKey) -> (r: bool)
    ensures
        r == (a@ == b@),
{
    match (a, b) {
        (MapKey::Str(x), MapKey::Str(y)) => x.text_eq(y),
        (MapKey::Int(x), MapKey::Int(y)) => *x == *y,
        _ => false,
    }
}

// ---------------------------------------------------------------------------
// Texts of primitives
// ---------------------------------------------------------------------------

/// The text that `to_string` gives for a number.
pub open spec fn num_text(n: NumV) -> Seq<char> {
    match n {
        NumV::Int(i) => int_to_decimal(i as int),
        NumV::Float(_, t) => t,
    }
}

/// A primitive as a text: a text stays as it is, a number is written out.
pub open spec fn prim_text(p: PrimV) -> Seq<char> {
    match p {
        PrimV::Str(t) => t,
        PrimV::Num(n) => num_text(n),
    }
}

/// A key as a text: a text stays as it is, an integer is written out.
pub open spec fn key_text(k: KeyV) -> Seq<char> {
    match k {
        KeyV::Str(t) => t,
        KeyV::Int(i) => int_to_decimal(i as int),
    }
}

/// A key as a primitive.
pub open spec fn key_prim(k: KeyV) -> PrimV {
    match k {
        KeyV::Str(t) => PrimV::Str(t),
        KeyV::Int(i) => PrimV::Num(NumV::Int(i)),
    }
}

impl Numeric {
    /// The text of the number.
    pub fn to_text(&self) -> (r: Text)
        ensures
            r@ == num_text(self@),
    {
        match self {
            Numeric::Int(i) => i64_to_text(*i),
            Numeric::Float(f) => f.text.clone(),
        }
    }
}

impl PrimitiveValue {
    /// The value as a text.
    pub fn into_text(self) -> (r: Text)
        ensures
            r@ == prim_text(self@),
    {
        match self {
            PrimitiveValue::Str(t) => t,
            PrimitiveValue::Number(n) => n.to_text(),
        }
    }
}

impl MapKey {
    /// The key as a text.
    pub fn into_text(self) -> (r: Text)
        ensures
            r@ == key_text(self@),
    {
        match self {
            MapKey::Str(t) => t,
            MapKey::Int(i) => i64_to_text(i),
        }
    }

    /// The key as a primitive value.
    pub fn to_prim(&self) -> (r: PrimitiveValue)
        ensures
            r@ == key_prim(self@),
    {
        match self {
            MapKey::Str(t) => PrimitiveValue::Str(t.clone()),
            MapKey::Int(i) => PrimitiveValue::Number(Numeric::Int(*i)),
        }
    }
}

// ---------------------------------------------------------------------------
// Copies
// ---------------------------------------------------------------------------

impl Clone for MapKey {
    fn clone(&self) -> (r: Self)
        ensures
            r@ == self@,
    {
        match self {
            MapKey::Str(t) => MapKey::Str(t.clone()),
            MapKey::Int(i) => MapKey::Int(*i),
        }
    }
}

impl Clone for FloatValue {
    fn clone(&self) -> (r: Self)
        ensures
            r.bits == self.bits,
            r.text@ == self.text@,
    {
        FloatValue { bits: self.bits, text: self.text.clone() }
    }
}

impl Clone for Numeric {
    fn clone(&self) -> (r: Self)
        ensures
            r@ == self@,
    {
        match self {
            Numeric::Int(i) => Numeric::Int(*i),
            Numeric::Float(f) => Numeric::Float(f.clone()),
        }
    }
}

impl Clone for PrimitiveValue {
    fn clone(&self) -> (r: Self)
        ensures
            r@ == self@,
    {
        match self {
            PrimitiveValue::Str(t) => PrimitiveValue::Str(t.clone()),
            PrimitiveValue::Number(n) => PrimitiveValue::Number(n.clone()),
        }
    }
}

proof fn lemma_array_item_smaller(a: Array, i: int)
    requires
        0 <= i < a.0@.len(),
    ensures
        decreases_to!(RuntimeValue::Comp(MappingOrArray::Array(a)) => a.0@[i]),
{
    let v = RuntimeValue::Comp(MappingOrArray::Array(a));
    assert(decreases_to!(v => v->Comp_0));
    assert(decreases_to!(v->Comp_0 => v->Comp_0->Array_0));
    assert(decreases_to!(a => a.0));
    assert(decreases_to!(a.0 => a.0@));
}

proof fn lemma_mapping_item_smaller(m: RealMapping, i: int)
    requires
        0 <= i < m.mapping@.len(),
    ensures
        decreases_to!(RuntimeValue::Comp(MappingOrArray::Mapping(m)) => m.mapping@[i].1),
{
    let v = RuntimeValue::Comp(MappingOrArray::Mapping(m));
    assert(decreases_to!(v => v->Comp_0));
    assert(decreases_to!(v->Comp_0 => v->Comp_0->Mapping_0));
    assert(decreases_to!(m => m.mapping));
    assert(decreases_to!(m.mapping => m.mapping@));
    assert(decreases_to!(m.mapping@ => m.mapping@[i]));
}

/// A copy of a mapping.
pub fn clone_mapping(m: &RealMapping) -> (r: RealMapping)
    ensures
        r@ == m@,
{
    let d = match &m.default {
        Some(b) => Some(Box::new(clone_value(b))),
        None => None,
    };
    RealMapping { mapping: clone_entries(&m.mapping), default: d }
}

impl Clone for RealMapping {
    fn clone(&self) -> (r: Self)
        ensures
            r@ == self@,
    {
        clone_mapping(self)
    }
}

/// A copy of a value.
pub fn clone_value(v: &RuntimeValue) -> (r: RuntimeValue)
    ensures
        r@ == v@,
    decreases v,
{
    match v {
        RuntimeValue::Prim(p) => RuntimeValue::Prim(p.clone()),
        RuntimeValue::Comp(MappingOrArray::Array(a)) => {
            let mut out: Vec<RuntimeValue> = Vec::new();
            let mut i: usize = 0;
            while i < a.0.len()
                invariant
                    i <= a.0.len(),
                    *v == RuntimeValue::Comp(MappingOrArray::Array(*a)),
                    out@.len() == i,
                    forall|j: int| 0 <= j < i ==> (#[trigger] out@[j])@ == a.0@[j]@,
                decreases a.0.len() - i,
            {
                proof {
                    lemma_array_item_smaller(*a, i as int);
                }
                out.push(clone_value(&a.0[i]));
                i = i + 1;
            }
            let r = RuntimeValue::Comp(MappingOrArray::Array(Array(out)));
            assert(value_view(r)->Array_0 =~= value_view(*v)->Array_0);
            r
        },
        RuntimeValue::Comp(MappingOrArray::Mapping(m)) => {
            let mut out: Vec<(MapKey, RuntimeValue)> = Vec::new();
            let mut i: usize = 0;
            while i < m.mapping.len()
                invariant
                    i <= m.mapping.len(),
                    *v == RuntimeValue::Comp(MappingOrArray::Mapping(*m)),
                    out@.len() == i,
                    forall|j: int|
                        0 <= j < i ==> (#[trigger] out@[j]).0@ == m.mapping@[j].0@ && out@[j].1@
                            == m.mapping@[j].1@,
                decreases m.mapping.len() - i,
            {
                let k = m.mapping[i].0.clone();
                proof {
                    lemma_mapping_item_smaller(*m, i as int);
                }
                let x = clone_value(&m.mapping[i].1);
                out.push((k, x));
                i = i + 1;
            }
            let d = match &m.default {
                Some(b) => {
                    Some(Box::new(clone_value(b)))
                },
                None => None,
            };
            let r = RuntimeValue::Comp(MappingOrArray::Mapping(RealMapping { mapping: out, default: d }));
            assert(value_view(r)->Mapping_0 =~= value_view(*v)->Mapping_0);
            r
        },
    }
}

/// A copy of a list of entries.
pub fn clone_entries(es: &Vec<(MapKey, RuntimeValue)>) -> (r: Vec<(MapKey, RuntimeValue)>)
    ensures
        entries_view(r@) == entries_view(es@),
{
    let mut out: Vec<(MapKey, RuntimeValue)> = Vec::new();
    let mut i: usize = 0;
    while i < es.len()
        invariant
            i <= es.len(),
            out@.len() == i,
            forall|j: int|
                0 <= j < i ==> (#[trigger] out@[j]).0@ == es@[j].0@ && out@[j].1@ == es@[j].1@,
        decreases es.len() - i,
    {
        out.push((es[i].0.clone(), clone_value(&es[i].1)));
        i = i + 1;
    }
    assert(entries_view(out@) =~= entries_view(es@));
    out
}

impl Clone for RuntimeValue {
    fn clone(&self) -> (r: Self)
        ensures
            r@ == self@,
    {
        clone_value(self)
    }
}

} // verus!

verus! {

// ---------------------------------------------------------------------------
// Lookups
// ---------------------------------------------------------------------------

/// The position of the first entry with key `k`.
pub open spec fn find_key(es: Seq<(KeyV, ValueV)>, k: KeyV) -> Option<int> {
    if exists|i: int| 0 <= i < es.len() && es[i].0 == k {
        Some(
            choose|i: int|
                0 <= i < es.len() && es[i].0 == k && forall|j: int| 0 <= j < i ==> es[j].0 != k,
        )
    } else {
        None
    }
}

/// Looking up `k` in a mapping: its value, else the default, else
/// `collection_valueNotFound`.
pub open spec fn mapping_get(es: Seq<(KeyV, ValueV)>, d: Option<Box<ValueV>>, k: KeyV) -> Result<
    ValueV,
    cerr,
> {
    match find_key(es, k) {
        Some(i) => Ok(es[i].1),
        None => match d {
            Some(b) => Ok(*b),
            None => Err(cerr::collection_valueNotFound()),
        },
    }
}

/// Indexing an array: a negative index counts from the end; an index that
/// stays negative is `collection_keyInvalidForArray`, one past the end
/// `collection_valueNotFound`.
pub open spec fn array_get(s: Seq<ValueV>, key: i64) -> Result<ValueV, cerr> {
    let k: int = if key < 0 && s.len() <= i64::MAX {
        key + s.len()
    } else {
        key as int
    };
    if k < 0 {
        Err(cerr::collection_keyInvalidForArray())
    } else if k >= s.len() {
        Err(cerr::collection_valueNotFound())
    } else {
        Ok(s[k])
    }
}

/// Looking up one key in a value: arrays take integer keys, mappings any
/// key; a primitive is no collection.
pub open spec fn collection_get(v: ValueV, k: KeyV) -> Result<ValueV, cerr> {
    match v {
        ValueV::Array(s) => match k {
            KeyV::Int(i) => array_get(s, i),
            KeyV::Str(_) => Err(cerr::collection_keyInvalidForArray()),
        },
        ValueV::Mapping(es, d) => mapping_get(es, d, k),
        ValueV::Prim(_) => Err(cerr::typing_notCollection()),
    }
}

/// Following a path of keys from `v`.
pub open spec fn walk(v: ValueV, ks: Seq<KeyV>) -> Result<ValueV, cerr>
    decreases ks.len(),
{
    if ks.len() == 0 {
        Ok(v)
    } else {
        match collection_get(v, ks[0]) {
            Ok(n) => walk(n, ks.drop_first()),
            Err(e) => Err(e),
        }
    }
}

/// The view of a looked-up reference.
pub open spec fn ref_result_view(r: Result<&RuntimeValue, cerr>) -> Result<ValueV, cerr> {
    match r {
        Ok(x) => Ok(x@),
        Err(e) => Err(e),
    }
}

/// The keys of a sequence of entries.
pub open spec fn keys_of(es: Seq<(KeyV, ValueV)>) -> Seq<KeyV> {
    Seq::new(es.len(), |i: int| es[i].0)
}

/// The values of a sequence of entries.
pub open spec fn values_of(es: Seq<(KeyV, ValueV)>) -> Seq<ValueV> {
    Seq::new(es.len(), |i: int| es[i].1)
}

/// The keys of an array of length `n`: the integers from 0.
pub open spec fn index_keys(n: nat) -> Seq<KeyV> {
    Seq::new(n, |i: int| KeyV::Int(i as i64))
}

impl Array {
    /// An array of the given values.
    pub fn new(array: Vec<RuntimeValue>) -> (r: Array)
        ensures
            r.0@ == array@,
    {
        Array(array)
    }

    /// The number of values.
    pub fn len(&self) -> (r: usize)
        ensures
            r == self@.len(),
    {
        self.0.len()
    }

    /// Whether there is no value.
    pub fn is_empty(&self) -> (r: bool)
        ensures
            r == (self@.len() == 0),
    {
        self.0.len() == 0
    }

    /// The value at `key`, where a negative key counts from the end.
    pub fn get(&self, key: i64) -> (r: Result<&RuntimeValue, cerr>)
        ensures
            ref_result_view(r) == array_get(self@, key),
    {
        let n = self.0.len();
        let mut k: i64 = key;
        if (n as u64) <= 9223372036854775807u64 && k < 0 {
            k = k + (n as i64);
        }
        if k < 0 {
            Err(cerr::collection_keyInvalidForArray())
        } else if (k as u64) >= (n as u64) {
            Err(cerr::collection_valueNotFound())
        } else {
            let i = k as usize;
            Ok(&self.0[i])
        }
    }

    /// The keys: the integers from 0 up to the length.
    pub fn keys(&self) -> (r: Vec<MapKey>)
        ensures
            r@.len() == self@.len(),
            forall|i: int| 0 <= i < r@.len() ==> (#[trigger] r@[i])@ == KeyV::Int(i as i64),
    {
        let mut out: Vec<MapKey> = Vec::new();
        let mut i: usize = 0;
        while i < self.0.len()
            invariant
                i <= self.0.len(),
                self.0.len() <= usize::MAX,
                out@.len() == i,
                forall|j: int| 0 <= j < i ==> (#[trigger] out@[j])@ == KeyV::Int(j as i64),
            decreases self.0.len() - i,
        {
            out.push(MapKey::Int(i as i64));
            i = i + 1;
        }
        out
    }

    /// A copy of this array.
    pub fn value_array(&self) -> (r: Array)
        ensures
            r@ == self@,
    {
        let mut out: Vec<RuntimeValue> = Vec::new();
        let mut i: usize = 0;
        while i < self.0.len()
            invariant
                i <= self.0.len(),
                out@.len() == i,
                forall|j: int| 0 <= j < i ==> (#[trigger] out@[j])@ == self.0@[j]@,
            decreases self.0.len() - i,
        {
            out.push(clone_value(&self.0[i]));
            i = i + 1;
        }
        let r = Array(out);
        assert(r@ =~= self@);
        r
    }
}

/// What a value adds to a sum, before the addition: a number, the integer
/// that a text reads as, or a text that counts if it reads as a
/// floating-point number. A collection adds nothing.
#[derive(Debug)]
pub enum Summand {
    Number(Numeric),
    Int(i64),
    FloatText(Text),
}

/// Model of a summand.
pub enum SummandV {
    Number(NumV),
    Int(i64),
    FloatText(Seq<char>),
}

impl View for Summand {
    type V = SummandV;

    open spec fn view(&self) -> SummandV {
        match self {
            Summand::Number(n) => SummandV::Number(n@),
            Summand::Int(i) => SummandV::Int(*i),
            Summand::FloatText(t) => SummandV::FloatText(t@),
        }
    }
}

/// What the values add to a sum, in order.
pub open spec fn summands(s: Seq<ValueV>) -> Seq<SummandV>
    decreases s.len(),
{
    if s.len() == 0 {
        Seq::empty()
    } else {
        let rest = summands(s.drop_last());
        match s.last() {
            ValueV::Prim(PrimV::Num(n)) => rest.push(SummandV::Number(n)),
            ValueV::Prim(PrimV::Str(t)) => match parse_i64_spec(t) {
                Some(i) => rest.push(SummandV::Int(i)),
                None => rest.push(SummandV::FloatText(t)),
            },
            _ => rest,
        }
    }
}

/// What the values add to a sum (`Numeric::sum` before the additions).
pub fn summands_of(values: &Vec<RuntimeValue>) -> (r: Vec<Summand>)
    ensures
        r@.map_values(|x: Summand| x@) == summands(values@.map_values(|v: RuntimeValue| v@)),
{
    let ghost vs = values@.map_values(|v: RuntimeValue| v@);
    let mut out: Vec<Summand> = Vec::new();
    let mut i: usize = 0;
    while i < values.len()
        invariant
            i <= values@.len(),
            vs == values@.map_values(|v: RuntimeValue| v@),
            out@.map_values(|x: Summand| x@) == summands(vs.take(i as int)),
        decreases values@.len() - i,
    {
        let ghost before = out@.map_values(|x: Summand| x@);
        assert(vs.take(i as int + 1).drop_last() =~= vs.take(i as int));
        assert(vs.take(i as int + 1).last() == values@[i as int]@);
        match &values[i] {
            RuntimeValue::Prim(PrimitiveValue::Number(n)) => {
                out.push(Summand::Number(n.clone()));
                assert(out@.map_values(|x: Summand| x@) =~= before.push(SummandV::Number(n@)));
            },
            RuntimeValue::Prim(PrimitiveValue::Str(t)) => {
                match parse_i64(t.0.as_str()) {
                    Some(k) => {
                        out.push(Summand::Int(k));
                        assert(out@.map_values(|x: Summand| x@) =~= before.push(SummandV::Int(k)));
                    },
                    None => {
                        out.push(Summand::FloatText(t.clone()));
                        assert(out@.map_values(|x: Summand| x@) =~= before.push(SummandV::FloatText(t@)));
                    },
                }
            },
            RuntimeValue::Comp(_) => {
                assert(out@.map_values(|x: Summand| x@) =~= before);
            },
        }
        i = i + 1;
    }
    assert(vs.take(values@.len() as int) =~= vs);
    out
}

impl Array {
    /// What the values add to a sum, in order.
    pub fn summands(&self) -> (r: Vec<Summand>)
        ensures
            r@.map_values(|x: Summand| x@) == summands(self@),
    {
        assert(self.0@.map_values(|v: RuntimeValue| v@) =~= self@);
        summands_of(&self.0)
    }
}

impl RealMapping {
    /// A mapping with the given entries and default.
    pub fn new_with_default(
        mapping: Vec<(MapKey, RuntimeValue)>,
        default: Option<Box<RuntimeValue>>,
    ) -> (r: RealMapping)
        ensures
            r.mapping@ == mapping@,
            r.default == default,
    {
        RealMapping { mapping, default }
    }

    /// The empty mapping without default.
    pub fn empty() -> (r: RealMapping)
        ensures
            r@ == ValueV::Mapping(Seq::empty(), None),
    {
        let r = RealMapping { mapping: Vec::new(), default: None };
        assert(entries_view(r.mapping@) =~= Seq::empty());
        r
    }

    /// The same entries with another default.
    pub fn with_default(self, default: Option<Box<RuntimeValue>>) -> (r: RealMapping)
        ensures
            r.mapping@ == self.mapping@,
            r.default == default,
    {
        RealMapping { mapping: self.mapping, default }
    }

    /// The number of entries.
    pub fn len(&self) -> (r: usize)
        ensures
            r == self.mapping@.len(),
    {
        self.mapping.len()
    }

    /// Whether there is no entry.
    pub fn is_empty(&self) -> (r: bool)
        ensures
            r == (self.mapping@.len() == 0),
    {
        self.mapping.len() == 0
    }

    /// The position of the first entry with key `key`.
    pub fn position(&self, key: &MapKey) -> (r: Option<usize>)
        ensures
            match r {
                Some(i) => i < self.mapping@.len() && find_key(entries_view(self.mapping@), key@)
                    == Some(i as int),
                None => find_key(entries_view(self.mapping@), key@) is None,
            },
    {
        let ghost es = entries_view(self.mapping@);
        let mut i: usize = 0;
        while i < self.mapping.len()
            invariant
                i <= self.mapping.len(),
                es == entries_view(self.mapping@),
                forall|j: int| 0 <= j < i ==> es[j].0 != key@,
            decreases self.mapping.len() - i,
        {
            if key_eq(&self.mapping[i].0, key) {
                proof {
                    let c = choose|c: int|
                        0 <= c < es.len() && es[c].0 == key@ && forall|j: int|
                            0 <= j < c ==> es[j].0 != key@;
                    assert(es[i as int].0 == key@);
                    if c < i {
                    } else if c > i {
                    }
                }
                return Some(i);
            }
            i = i + 1;
        }
        None
    }

    /// The value of `key`, else the default, else `collection_valueNotFound`.
    pub fn get(&self, key: &MapKey) -> (r: Result<&RuntimeValue, cerr>)
        ensures
            ref_result_view(r) == mapping_get(
                entries_view(self.mapping@),
                default_view(self.default),
                key@,
            ),
    {
        match self.position(key) {
            Some(i) => Ok(&self.mapping[i].1),
            None => match &self.default {
                Some(b) => Ok(&**b),
                None => Err(cerr::collection_valueNotFound()),
            },
        }
    }

    /// The keys in order.
    pub fn keys(&self) -> (r: Vec<MapKey>)
        ensures
            r@.len() == self.mapping@.len(),
            forall|i: int| 0 <= i < r@.len() ==> (#[trigger] r@[i])@ == self.mapping@[i].0@,
    {
        let mut out: Vec<MapKey> = Vec::new();
        let mut i: usize = 0;
        while i < self.mapping.len()
            invariant
                i <= self.mapping.len(),
                out@.len() == i,
                forall|j: int| 0 <= j < i ==> (#[trigger] out@[j])@ == self.mapping@[j].0@,
            decreases self.mapping.len() - i,
        {
            out.push(self.mapping[i].0.clone());
            i = i + 1;
        }
        out
    }

    /// The values in key order.
    pub fn values(&self) -> (r: Vec<RuntimeValue>)
        ensures
            r@.len() == self.mapping@.len(),
            forall|i: int| 0 <= i < r@.len() ==> (#[trigger] r@[i])@ == self.mapping@[i].1@,
    {
        let mut out: Vec<RuntimeValue> = Vec::new();
        let mut i: usize = 0;
        while i < self.mapping.len()
            invariant
                i <= self.mapping.len(),
                out@.len() == i,
                forall|j: int| 0 <= j < i ==> (#[trigger] out@[j])@ == self.mapping@[j].1@,
            decreases self.mapping.len() - i,
        {
            out.push(clone_value(&self.mapping[i].1));
            i = i + 1;
        }
        out
    }

    /// Follows a path of keys: `Ok(None)` for the empty path (the mapping
    /// itself), else the value at its end or the first error on the way.
    pub fn get_by_seq<'a>(&'a self, key: &[MapKey]) -> (r: Result<Option<&'a RuntimeValue>, cerr>)
        ensures
            key@.len() == 0 ==> r == Ok::<Option<&RuntimeValue>, cerr>(None),
            key@.len() > 0 ==> match r {
                Ok(Some(x)) => walk(self@, key@.map_values(|k: MapKey| k@)) == Ok::<ValueV, cerr>(x@),
                Ok(None) => false,
                Err(e) => walk(self@, key@.map_values(|k: MapKey| k@)) == Err::<ValueV, cerr>(e),
            },
    {
        let ghost ks = key@.map_values(|k: MapKey| k@);
        if key.len() == 0 {
            return Ok(None);
        }
        let first = self.get(&key[0]);
        let mut curr: &RuntimeValue = match first {
            Ok(c) => c,
            Err(e) => {
                return Err(e);
            },
        };
        let mut i: usize = 1;
        assert(ks.skip(1) =~= ks.drop_first());
        while i < key.len()
            invariant
                1 <= i <= key.len(),
                ks == key@.map_values(|k: MapKey| k@),
                walk(self@, ks) == walk(curr@, ks.skip(i as int)),
            decreases key.len() - i,
        {
            let ghost rest = ks.skip(i as int);
            assert(rest[0] == key@[i as int]@);
            assert(rest.drop_first() =~= ks.skip(i + 1));
            match curr {
                RuntimeValue::Comp(coll) => {
                    proof {
                        lemma_comp_view(*coll);
                    }
                    match coll.get(&key[i]) {
                        Ok(n) => {
                            curr = n;
                        },
                        Err(e) => {
                            return Err(e);
                        },
                    }
                },
                RuntimeValue::Prim(_) => {
                    return Err(cerr::typing_notCollection());
                },
            }
            i = i + 1;
        }
        assert(ks.skip(key.len() as int).len() == 0);
        Ok(Some(curr))
    }
}

impl MappingOrArray {
    /// The number of values.
    pub fn len(&self) -> (r: usize)
        ensures
            r == match self@ {
                ValueV::Array(s) => s.len(),
                ValueV::Mapping(es, _) => es.len(),
                _ => 0,
            },
    {
        match self {
            MappingOrArray::Array(a) => a.len(),
            MappingOrArray::Mapping(m) => m.len(),
        }
    }

    /// Whether there is no value.
    pub fn is_empty(&self) -> (r: bool)
        ensures
            r == (match self@ {
                ValueV::Array(s) => s.len(),
                ValueV::Mapping(es, _) => es.len(),
                _ => 0,
            } == 0),
    {
        self.len() == 0
    }

    /// The value of one key.
    pub fn get(&self, key: &MapKey) -> (r: Result<&RuntimeValue, cerr>)
        ensures
            ref_result_view(r) == collection_get(self@, key@),
    {
        match (self, key) {
            (MappingOrArray::Array(array), MapKey::Int(k)) => array.get(*k),
            (MappingOrArray::Mapping(mapping), _) => mapping.get(key),
            (MappingOrArray::Array(_), MapKey::Str(_)) => Err(
                cerr::collection_keyInvalidForArray(),
            ),
        }
    }

    /// The keys: integers from 0 for an array, the entry keys for a mapping.
    pub fn keys(&self) -> (r: Vec<MapKey>)
        ensures
            r@.map_values(|k: MapKey| k@) == match self@ {
                ValueV::Array(s) => index_keys(s.len()),
                ValueV::Mapping(es, _) => keys_of(es),
                _ => Seq::empty(),
            },
    {
        match self {
            MappingOrArray::Array(a) => {
                let r = a.keys();
                assert(r@.map_values(|k: MapKey| k@) =~= index_keys(a@.len()));
                r
            },
            MappingOrArray::Mapping(m) => {
                let r = m.keys();
                assert(r@.map_values(|k: MapKey| k@) =~= keys_of(entries_view(m.mapping@)));
                r
            },
        }
    }

    /// The values in order.
    pub fn value_array(&self) -> (r: Array)
        ensures
            r@ == match self@ {
                ValueV::Array(s) => s,
                ValueV::Mapping(es, _) => values_of(es),
                _ => Seq::empty(),
            },
    {
        match self {
            MappingOrArray::Array(a) => a.value_array(),
            MappingOrArray::Mapping(m) => {
                let r = Array(m.values());
                assert(r@ =~= values_of(entries_view(m.mapping@)));
                r
            },
        }
    }

    /// What the values add to a sum, in order.
    pub fn summands(&self) -> (r: Vec<Summand>)
        ensures
            r@.map_values(|x: Summand| x@) == summands(match self@ {
                ValueV::Array(s) => s,
                ValueV::Mapping(es, _) => values_of(es),
                _ => Seq::empty(),
            }),
    {
        match self {
            MappingOrArray::Array(a) => a.summands(),
            MappingOrArray::Mapping(m) => {
                let vs = m.values();
                assert(vs@.map_values(|v: RuntimeValue| v@) =~= values_of(entries_view(m.mapping@)));
                summands_of(&vs)
            },
        }
    }

    /// The entries: for an array each value under its index.
    pub fn to_btreemap(&self) -> (r: Vec<(MapKey, RuntimeValue)>)
        ensures
            entries_view(r@) == match self@ {
                ValueV::Array(s) => Seq::new(s.len(), |i: int| (KeyV::Int(i as i64), s[i])),
                ValueV::Mapping(es, _) => es,
                _ => Seq::empty(),
            },
    {
        let mut out: Vec<(MapKey, RuntimeValue)> = Vec::new();
        match self {
            MappingOrArray::Array(a) => {
                let mut i: usize = 0;
                while i < a.0.len()
                    invariant
                        i <= a.0.len(),
                        out@.len() == i,
                        forall|j: int|
                            0 <= j < i ==> (#[trigger] out@[j]).0@ == KeyV::Int(j as i64)
                                && out@[j].1@ == a.0@[j]@,
                    decreases a.0.len() - i,
                {
                    out.push((MapKey::Int(i as i64), clone_value(&a.0[i])));
                    i = i + 1;
                }
                assert(entries_view(out@) =~= Seq::new(
                    a@.len(),
                    |i: int| (KeyV::Int(i as i64), a@[i]),
                ));
            },
            MappingOrArray::Mapping(m) => {
                let mut i: usize = 0;
                while i < m.mapping.len()
                    invariant
                        i <= m.mapping.len(),
                        out@.len() == i,
                        forall|j: int|
                            0 <= j < i ==> (#[trigger] out@[j]).0@ == m.mapping@[j].0@
                                && out@[j].1@ == m.mapping@[j].1@,
                    decreases m.mapping.len() - i,
                {
                    out.push((m.mapping[i].0.clone(), clone_value(&m.mapping[i].1)));
                    i = i + 1;
                }
                assert(entries_view(out@) =~= entries_view(m.mapping@));
            },
        }
        out
    }
}

} // verus!
