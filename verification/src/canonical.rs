//! Bringing a decoded message in line with the protobuf JSON mapping:
//! object keys become lowerCamelCase, and protobuf map fields (decoded as
//! lists of `key`/`value` entries) become objects.
use vstd::prelude::*;

verus! {

/// A decoded value. Floating-point numbers are carried by their bit
/// patterns; a map is the list of its entries in the order they are inserted
/// (a later entry replaces an earlier one with the same key).
pub enum Value {
    Bool(bool),
    U8(u8),
    U16(u16),
    U32(u32),
    U64(u64),
    I8(i8),
    I16(i16),
    I32(i32),
    I64(i64),
    F32Bits(u32),
    F64Bits(u64),
    Char(char),
    Str(String),
    Unit,
    Optional(Option<Box<Value>>),
    Newtype(Box<Value>),
    List(Vec<Value>),
    Dict(Vec<(Value, Value)>),
    Bytes(Vec<u8>),
}

/// The spec-level form of a value, with lists, maps, strings and byte
/// strings as sequences.
pub enum SpecValue {
    Bool(bool),
    U8(u8),
    U16(u16),
    U32(u32),
    U64(u64),
    I8(i8),
    I16(i16),
    I32(i32),
    I64(i64),
    F32Bits(u32),
    F64Bits(u64),
    Char(char),
    Str(Seq<char>),
    Unit,
    Optional(Option<Box<SpecValue>>),
    Newtype(Box<SpecValue>),
    List(Seq<SpecValue>),
    Dict(Seq<(SpecValue, SpecValue)>),
    Bytes(Seq<u8>),
}

impl Value {
    /// The spec-level form of this value.
    pub open spec fn deep(&self) -> SpecValue
        decreases self, 0nat,
    {
        match self {
            Value::Bool(b) => SpecValue::Bool(*b),
            Value::U8(x) => SpecValue::U8(*x),
            Value::U16(x) => SpecValue::U16(*x),
            Value::U32(x) => SpecValue::U32(*x),
            Value::U64(x) => SpecValue::U64(*x),
            Value::I8(x) => SpecValue::I8(*x),
            Value::I16(x) => SpecValue::I16(*x),
            Value::I32(x) => SpecValue::I32(*x),
            Value::I64(x) => SpecValue::I64(*x),
            Value::F32Bits(x) => SpecValue::F32Bits(*x),
            Value::F64Bits(x) => SpecValue::F64Bits(*x),
            Value::Char(c) => SpecValue::Char(*c),
            Value::Str(s) => SpecValue::Str(s@),
            Value::Unit => SpecValue::Unit,
            Value::Optional(None) => SpecValue::Optional(None),
            Value::Optional(Some(b)) => SpecValue::Optional(Some(Box::new((**b).deep()))),
            Value::Newtype(b) => SpecValue::Newtype(Box::new((**b).deep())),
            Value::List(xs) => SpecValue::List(deep_list(xs@)),
            Value::Dict(es) => SpecValue::Dict(deep_entries(es@)),
            Value::Bytes(b) => SpecValue::Bytes(b@),
        }
    }
}

/// The spec-level forms of a list of values.
pub open spec fn deep_list(xs: Seq<Value>) -> Seq<SpecValue>
    decreases xs, 0nat,
{
    if xs.len() == 0 {
        Seq::empty()
    } else {
        seq![xs[0].deep()] + deep_list(xs.drop_first())
    }
}

/// The spec-level forms of a list of map entries.
pub open spec fn deep_entries(es: Seq<(Value, Value)>) -> Seq<(SpecValue, SpecValue)>
    decreases es, 0nat,
{
    if es.len() == 0 {
        Seq::empty()
    } else {
        seq![(es[0].0.deep(), es[0].1.deep())] + deep_entries(es.drop_first())
    }
}

/// What inflector's `to_camel_case` makes of a string.
pub uninterp spec fn camel_case(s: Seq<char>) -> Seq<char>;

/// inflector's `to_camel_case`: the lowerCamelCase form of `s`. Its result
/// depends on `s` alone; what that result is, is not stated here.
#[verifier::external_body]
fn to_camel_case(s: &str) -> (r: String)
    ensures
        r@ == camel_case(s@),
{
    inflector::cases::camelcase::to_camel_case(s)
}

/// Index of the first entry of `es` whose key is the string `name`.
pub open spec fn find_key(es: Seq<(SpecValue, SpecValue)>, name: Seq<char>) -> Option<nat>
    decreases es.len(),
{
    if es.len() == 0 {
        None
    } else if es[0].0 == SpecValue::Str(name) {
        Some(0)
    } else {
        match find_key(es.drop_first(), name) {
            Some(i) => Some(i + 1),
            None => None,
        }
    }
}

/// `find_key` gives an index of `es`.
pub proof fn lemma_find_key_in_range(es: Seq<(SpecValue, SpecValue)>, name: Seq<char>)
    ensures
        find_key(es, name) matches Some(i) ==> i < es.len() && es[i as int].0 == SpecValue::Str(name),
    decreases es.len(),
{
    if es.len() > 0 && es[0].0 != SpecValue::Str(name) {
        lemma_find_key_in_range(es.drop_first(), name);
    }
}

/// `x` is how a protobuf map entry decodes: an object of exactly two
/// entries, `key` holding a present optional and `value` holding anything.
pub open spec fn is_map_entry(x: SpecValue) -> bool {
    match x {
        SpecValue::Dict(es) => es.len() == 2 && (match find_key(es, "key"@) {
            Some(i) => es[i as int].1 matches SpecValue::Optional(Some(_)),
            None => false,
        }) && find_key(es, "value"@) is Some,
        _ => false,
    }
}

/// The JSON-spec form of `v`: object keys that are strings go to
/// lowerCamelCase (other keys are brought to their JSON-spec form); a list
/// holding protobuf map entries becomes the object of those entries, their
/// keys as they are and their values in JSON-spec form; optionals that are
/// present and newtypes are replaced by their contents; everything else
/// stays as it is.
pub open spec fn canon(v: SpecValue) -> SpecValue
    decreases v, 0nat,
{
    match v {
        SpecValue::Dict(es) => SpecValue::Dict(canon_entries(es)),
        SpecValue::List(xs) => if exists|i: int| 0 <= i < xs.len() && is_map_entry(#[trigger] xs[i]) {
            SpecValue::Dict(flatten_map_entries(xs))
        } else {
            SpecValue::List(canon_list(xs))
        },
        SpecValue::Optional(Some(b)) => canon(*b),
        SpecValue::Newtype(b) => canon(*b),
        _ => v,
    }
}

/// The JSON-spec forms of the values of a list.
pub open spec fn canon_list(xs: Seq<SpecValue>) -> Seq<SpecValue>
    decreases xs, 0nat,
{
    if xs.len() == 0 {
        Seq::empty()
    } else {
        seq![canon(xs[0])] + canon_list(xs.drop_first())
    }
}

/// The entries of an object with their keys converted: string keys to
/// lowerCamelCase, other keys and all values to their JSON-spec form.
pub open spec fn canon_entries(es: Seq<(SpecValue, SpecValue)>) -> Seq<(SpecValue, SpecValue)>
    decreases es, 0nat,
{
    if es.len() == 0 {
        Seq::empty()
    } else {
        let k = match es[0].0 {
            SpecValue::Str(s) => SpecValue::Str(camel_case(s)),
            _ => canon(es[0].0),
        };
        seq![(k, canon(es[0].1))] + canon_entries(es.drop_first())
    }
}

/// The entries of an object made of a list of protobuf map entries: each
/// entry's key (the contents of its `key` optional) with its value in
/// JSON-spec form. Elements that are not map entries contribute nothing.
pub open spec fn flatten_map_entries(xs: Seq<SpecValue>) -> Seq<(SpecValue, SpecValue)>
    decreases xs, 0nat,
{
    if xs.len() == 0 {
        Seq::empty()
    } else {
        let rest = flatten_map_entries(xs.drop_first());
        match xs[0] {
            SpecValue::Dict(es) => if is_map_entry(xs[0]) {
                let i = find_key(es, "key"@)->0 as int;
                let j = find_key(es, "value"@)->0 as int;
                proof {
                    lemma_find_key_in_range(es, "key"@);
                    lemma_find_key_in_range(es, "value"@);
                }
                match es[i].1 {
                    SpecValue::Optional(Some(k)) => seq![(*k, canon(es[j].1))] + rest,
                    _ => rest,
                }
            } else {
                rest
            },
            _ => rest,
        }
    }
}

/// `v` can be brought to its JSON-spec form without tripping over a list
/// that mixes protobuf map entries with other values.
pub open spec fn compliance_ok(v: SpecValue) -> bool
    decreases v, 0nat,
{
    match v {
        SpecValue::Dict(es) => entries_ok(es),
        SpecValue::List(xs) => if exists|i: int| 0 <= i < xs.len() && is_map_entry(#[trigger] xs[i]) {
            (forall|i: int| 0 <= i < xs.len() ==> is_map_entry(#[trigger] xs[i])) && map_entries_ok(xs)
        } else {
            list_ok(xs)
        },
        SpecValue::Optional(Some(b)) => compliance_ok(*b),
        SpecValue::Newtype(b) => compliance_ok(*b),
        _ => true,
    }
}

/// Every value of the list satisfies `compliance_ok`.
pub open spec fn list_ok(xs: Seq<SpecValue>) -> bool
    decreases xs, 0nat,
{
    xs.len() == 0 || (compliance_ok(xs[0]) && list_ok(xs.drop_first()))
}

/// Every non-string key and every value of the entries satisfy `compliance_ok`.
pub open spec fn entries_ok(es: Seq<(SpecValue, SpecValue)>) -> bool
    decreases es, 0nat,
{
    es.len() == 0 || ((es[0].0 is Str || compliance_ok(es[0].0)) && compliance_ok(es[0].1)
        && entries_ok(es.drop_first()))
}

/// The `value` of every protobuf map entry of the list satisfies `compliance_ok`.
pub open spec fn map_entries_ok(xs: Seq<SpecValue>) -> bool
    decreases xs, 0nat,
{
    if xs.len() == 0 {
        true
    } else {
        let here = match xs[0] {
            SpecValue::Dict(es) => if is_map_entry(xs[0]) {
                let j = find_key(es, "value"@)->0 as int;
                proof {
                    lemma_find_key_in_range(es, "value"@);
                }
                compliance_ok(es[j].1)
            } else {
                true
            },
            _ => true,
        };
        here && map_entries_ok(xs.drop_first())
    }
}

/// The JSON-spec form of one object entry, as `canon_entries` makes it.
pub open spec fn canon_entry(e: (SpecValue, SpecValue)) -> (SpecValue, SpecValue) {
    let k = match e.0 {
        SpecValue::Str(s) => SpecValue::Str(camel_case(s)),
        _ => canon(e.0),
    };
    (k, canon(e.1))
}

/// The object entry that a protobuf map entry becomes, as
/// `flatten_map_entries` makes it.
pub open spec fn map_entry_pair(x: SpecValue) -> (SpecValue, SpecValue) {
    match x {
        SpecValue::Dict(es) => {
            let i = find_key(es, "key"@)->0 as int;
            let j = find_key(es, "value"@)->0 as int;
            match es[i].1 {
                SpecValue::Optional(Some(k)) => (*k, canon(es[j].1)),
                _ => arbitrary(),
            }
        },
        _ => arbitrary(),
    }
}

/// The `value` of a protobuf map entry satisfies `compliance_ok`.
pub open spec fn map_entry_value_ok(x: SpecValue) -> bool {
    match x {
        SpecValue::Dict(es) => compliance_ok(es[find_key(es, "value"@)->0 as int].1),
        _ => true,
    }
}

proof fn lemma_deep_list(xs: Seq<Value>)
    ensures
        deep_list(xs).len() == xs.len(),
        forall|i: int| 0 <= i < xs.len() ==> #[trigger] deep_list(xs)[i] == xs[i].deep(),
    decreases xs.len(),
{
    if xs.len() > 0 {
        lemma_deep_list(xs.drop_first());
        assert forall|i: int| 0 <= i < xs.len() implies #[trigger] deep_list(xs)[i] == xs[i].deep() by {
            if i > 0 {
                assert(xs.drop_first()[i - 1] == xs[i]);
            }
        }
    }
}

/// The spec-level form of a list of entries holds the spec-level forms of
/// its keys and values, one for one.
pub proof fn lemma_deep_entries_public(es: Seq<(Value, Value)>)
    ensures
        deep_entries(es).len() == es.len(),
        forall|i: int| 0 <= i < es.len() ==> #[trigger] deep_entries(es)[i] == (es[i].0.deep(), es[i].1.deep()),
{
    lemma_deep_entries(es);
}

proof fn lemma_deep_entries(es: Seq<(Value, Value)>)
    ensures
        deep_entries(es).len() == es.len(),
        forall|i: int| 0 <= i < es.len() ==> #[trigger] deep_entries(es)[i] == (es[i].0.deep(), es[i].1.deep()),
    decreases es.len(),
{
    if es.len() > 0 {
        lemma_deep_entries(es.drop_first());
        assert forall|i: int| 0 <= i < es.len() implies #[trigger] deep_entries(es)[i] == (es[i].0.deep(), es[i].1.deep()) by {
            if i > 0 {
                assert(es.drop_first()[i - 1] == es[i]);
            }
        }
    }
}

proof fn lemma_canon_list(xs: Seq<SpecValue>)
    ensures
        canon_list(xs).len() == xs.len(),
        forall|i: int| 0 <= i < xs.len() ==> #[trigger] canon_list(xs)[i] == canon(xs[i]),
    decreases xs.len(),
{
    if xs.len() > 0 {
        lemma_canon_list(xs.drop_first());
        assert forall|i: int| 0 <= i < xs.len() implies #[trigger] canon_list(xs)[i] == canon(xs[i]) by {
            if i > 0 {
                assert(xs.drop_first()[i - 1] == xs[i]);
            }
        }
    }
}

proof fn lemma_canon_entries(es: Seq<(SpecValue, SpecValue)>)
    ensures
        canon_entries(es).len() == es.len(),
        forall|i: int| 0 <= i < es.len() ==> #[trigger] canon_entries(es)[i] == canon_entry(es[i]),
    decreases es.len(),
{
    if es.len() > 0 {
        lemma_canon_entries(es.drop_first());
        assert forall|i: int| 0 <= i < es.len() implies #[trigger] canon_entries(es)[i] == canon_entry(es[i]) by {
            if i > 0 {
                assert(es.drop_first()[i - 1] == es[i]);
            }
        }
    }
}

proof fn lemma_list_ok(xs: Seq<SpecValue>)
    ensures
        list_ok(xs) <==> forall|i: int| 0 <= i < xs.len() ==> compliance_ok(#[trigger] xs[i]),
    decreases xs.len(),
{
    if xs.len() > 0 {
        lemma_list_ok(xs.drop_first());
        if forall|i: int| 0 <= i < xs.len() ==> compliance_ok(#[trigger] xs[i]) {
            assert forall|i: int| 0 <= i < xs.drop_first().len() implies compliance_ok(#[trigger] xs.drop_first()[i]) by {
                assert(xs.drop_first()[i] == xs[i + 1]);
            }
        }
        if list_ok(xs) {
            assert forall|i: int| 0 <= i < xs.len() implies compliance_ok(#[trigger] xs[i]) by {
                if i > 0 {
                    assert(xs.drop_first()[i - 1] == xs[i]);
                }
            }
        }
    }
}

proof fn lemma_entries_ok(es: Seq<(SpecValue, SpecValue)>)
    ensures
        entries_ok(es) <==> forall|i: int| 0 <= i < es.len() ==> ((#[trigger] es[i]).0 is Str || compliance_ok(es[i].0))
            && compliance_ok(es[i].1),
    decreases es.len(),
{
    if es.len() > 0 {
        lemma_entries_ok(es.drop_first());
        if forall|i: int| 0 <= i < es.len() ==> ((#[trigger] es[i]).0 is Str || compliance_ok(es[i].0)) && compliance_ok(es[i].1) {
            assert forall|i: int| 0 <= i < es.drop_first().len() implies ((#[trigger] es.drop_first()[i]).0 is Str
                || compliance_ok(es.drop_first()[i].0)) && compliance_ok(es.drop_first()[i].1) by {
                assert(es.drop_first()[i] == es[i + 1]);
            }
        }
        if entries_ok(es) {
            assert forall|i: int| 0 <= i < es.len() implies ((#[trigger] es[i]).0 is Str || compliance_ok(es[i].0))
                && compliance_ok(es[i].1) by {
                if i > 0 {
                    assert(es.drop_first()[i - 1] == es[i]);
                }
            }
        }
    }
}

proof fn lemma_flatten_map_entries(xs: Seq<SpecValue>)
    requires
        forall|i: int| 0 <= i < xs.len() ==> is_map_entry(#[trigger] xs[i]),
    ensures
        flatten_map_entries(xs).len() == xs.len(),
        forall|i: int| 0 <= i < xs.len() ==> #[trigger] flatten_map_entries(xs)[i] == map_entry_pair(xs[i]),
        map_entries_ok(xs) <==> forall|i: int| 0 <= i < xs.len() ==> map_entry_value_ok(#[trigger] xs[i]),
    decreases xs.len(),
{
    if xs.len() > 0 {
        let tail = xs.drop_first();
        assert forall|i: int| 0 <= i < tail.len() implies is_map_entry(#[trigger] tail[i]) by {
            assert(tail[i] == xs[i + 1]);
        }
        lemma_flatten_map_entries(tail);
        assert(is_map_entry(xs[0]));
        assert forall|i: int| 0 <= i < xs.len() implies #[trigger] flatten_map_entries(xs)[i] == map_entry_pair(xs[i]) by {
            if i > 0 {
                assert(tail[i - 1] == xs[i]);
            }
        }
        if forall|i: int| 0 <= i < xs.len() ==> map_entry_value_ok(#[trigger] xs[i]) {
            assert forall|i: int| 0 <= i < tail.len() implies map_entry_value_ok(#[trigger] tail[i]) by {
                assert(tail[i] == xs[i + 1]);
            }
            assert(map_entry_value_ok(xs[0]));
        }
        if map_entries_ok(xs) {
            assert forall|i: int| 0 <= i < xs.len() implies map_entry_value_ok(#[trigger] xs[i]) by {
                if i > 0 {
                    assert(tail[i - 1] == xs[i]);
                }
            }
        }
    }
}

proof fn lemma_find_key_first(es: Seq<(SpecValue, SpecValue)>, name: Seq<char>, i: int)
    requires
        0 <= i <= es.len(),
        forall|j: int| 0 <= j < i ==> (#[trigger] es[j]).0 != SpecValue::Str(name),
    ensures
        i < es.len() && es[i].0 == SpecValue::Str(name) ==> find_key(es, name) == Some(i as nat),
        i == es.len() ==> find_key(es, name) is None,
    decreases es.len(),
{
    if es.len() > 0 && i > 0 {
        let tail = es.drop_first();
        assert forall|j: int| 0 <= j < i - 1 implies (#[trigger] tail[j]).0 != SpecValue::Str(name) by {
            assert(tail[j] == es[j + 1]);
        }
        assert(es[0].0 != SpecValue::Str(name));
        lemma_find_key_first(tail, name, i - 1);
        if i < es.len() {
            assert(tail[i - 1] == es[i]);
        }
    }
}

/// `k` is the string `name`.
fn key_is(k: &Value, name: &str) -> (r: bool)
    ensures
        r == (k.deep() == SpecValue::Str(name@)),
{
    match k {
        Value::Str(s) => crate::stream::str_equals(s.as_str(), name),
        _ => false,
    }
}

/// Index of the first entry of `es` whose key is the string `name`.
fn find_entry(es: &Vec<(Value, Value)>, name: &str) -> (r: Option<usize>)
    ensures
        r matches Some(i) ==> i < es.len() && find_key(deep_entries(es@), name@) == Some(i as nat),
        r is None ==> find_key(deep_entries(es@), name@) is None,
{
    proof { lemma_deep_entries(es@); }
    let ghost d = deep_entries(es@);
    let mut i: usize = 0;
    while i < es.len()
        invariant
            i <= es.len(),
            d == deep_entries(es@),
            d.len() == es.len(),
            forall|j: int| 0 <= j < es.len() ==> #[trigger] d[j] == (es@[j].0.deep(), es@[j].1.deep()),
            forall|j: int| 0 <= j < i ==> (#[trigger] d[j]).0 != SpecValue::Str(name@),
        decreases es.len() - i,
    {
        if key_is(&es[i].0, name) {
            proof { lemma_find_key_first(d, name@, i as int); }
            return Some(i);
        }
        i = i + 1;
    }
    proof { lemma_find_key_first(d, name@, i as int); }
    None
}

/// Whether `elem` is a protobuf map entry: an object of exactly two entries,
/// `key` holding a present optional and `value` holding anything.
fn is_possible_map_entry(elem: &Value) -> (r: bool)
    ensures
        r == is_map_entry(elem.deep()),
{
    match elem {
        Value::Dict(map) => {
            proof { lemma_deep_entries(map@); }
            if map.len() == 2 {
                match find_entry(map, "key") {
                    Some(i) => {
                        let ok = match &map[i].1 {
                            Value::Optional(Some(_)) => true,
                            _ => false,
                        };
                        if ok {
                            find_entry(map, "value").is_some()
                        } else {
                            false
                        }
                    },
                    None => false,
                }
            } else {
                false
            }
        },
        _ => false,
    }
}

/// Splits the indices of `x` into those of protobuf map entries and the
/// others, each in increasing order.
fn partition_vec_to_find_possible_map(x: &Vec<Value>) -> (r: (Vec<usize>, Vec<usize>))
    ensures
        forall|k: int| 0 <= k < r.0.len() ==> r.0[k] < x.len() && is_map_entry(x@[r.0[k] as int].deep()),
        forall|k: int| 0 <= k < r.1.len() ==> r.1[k] < x.len() && !is_map_entry(x@[r.1[k] as int].deep()),
        forall|k1: int, k2: int| 0 <= k1 < k2 < r.0.len() ==> r.0[k1] < r.0[k2],
        forall|k1: int, k2: int| 0 <= k1 < k2 < r.1.len() ==> r.1[k1] < r.1[k2],
        r.0.len() + r.1.len() == x.len(),
{
    let mut kv: Vec<usize> = Vec::new();
    let mut other: Vec<usize> = Vec::new();
    let mut i: usize = 0;
    while i < x.len()
        invariant
            i <= x.len(),
            kv.len() + other.len() == i,
            forall|k: int| 0 <= k < kv.len() ==> kv[k] < i && is_map_entry(x@[kv[k] as int].deep()),
            forall|k: int| 0 <= k < other.len() ==> other[k] < i && !is_map_entry(x@[other[k] as int].deep()),
            forall|k1: int, k2: int| 0 <= k1 < k2 < kv.len() ==> kv[k1] < kv[k2],
            forall|k1: int, k2: int| 0 <= k1 < k2 < other.len() ==> other[k1] < other[k2],
        decreases x.len() - i,
    {
        if is_possible_map_entry(&x[i]) {
            kv.push(i);
        } else {
            other.push(i);
        }
        i = i + 1;
    }
    (kv, other)
}

/// A copy of `v`.
fn clone_value(v: &Value) -> (r: Value)
    ensures
        r.deep() == v.deep(),
    decreases v,
{
    match v {
        Value::Bool(b) => Value::Bool(*b),
        Value::U8(x) => Value::U8(*x),
        Value::U16(x) => Value::U16(*x),
        Value::U32(x) => Value::U32(*x),
        Value::U64(x) => Value::U64(*x),
        Value::I8(x) => Value::I8(*x),
        Value::I16(x) => Value::I16(*x),
        Value::I32(x) => Value::I32(*x),
        Value::I64(x) => Value::I64(*x),
        Value::F32Bits(x) => Value::F32Bits(*x),
        Value::F64Bits(x) => Value::F64Bits(*x),
        Value::Char(c) => Value::Char(*c),
        Value::Str(s) => Value::Str(s.clone()),
        Value::Unit => Value::Unit,
        Value::Optional(None) => Value::Optional(None),
        Value::Optional(Some(b)) => Value::Optional(Some(Box::new(clone_value(b)))),
        Value::Newtype(b) => Value::Newtype(Box::new(clone_value(b))),
        Value::List(xs) => Value::List(clone_list(xs)),
        Value::Dict(es) => Value::Dict(clone_entries(es)),
        Value::Bytes(b) => Value::Bytes(crate::reader::copy_bytes(b.as_slice())),
    }
}

/// A copy of the list `xs`.
fn clone_list(xs: &Vec<Value>) -> (r: Vec<Value>)
    ensures
        deep_list(r@) == deep_list(xs@),
    decreases xs,
{
    let mut out: Vec<Value> = Vec::new();
    let mut i: usize = 0;
    while i < xs.len()
        invariant
            i <= xs.len(),
            out.len() == i,
            forall|k: int| 0 <= k < i ==> (#[trigger] out@[k]).deep() == xs@[k].deep(),
        decreases xs.len() - i,
    {
        out.push(clone_value(&xs[i]));
        i = i + 1;
    }
    proof {
        lemma_deep_list(out@);
        lemma_deep_list(xs@);
        assert(deep_list(out@) =~= deep_list(xs@));
    }
    out
}

/// A copy of the entries `es`.
fn clone_entries(es: &Vec<(Value, Value)>) -> (r: Vec<(Value, Value)>)
    ensures
        deep_entries(r@) == deep_entries(es@),
    decreases es,
{
    let mut out: Vec<(Value, Value)> = Vec::new();
    let mut i: usize = 0;
    while i < es.len()
        invariant
            i <= es.len(),
            out.len() == i,
            forall|k: int| 0 <= k < i ==> (#[trigger] out@[k]).0.deep() == es@[k].0.deep()
                && out@[k].1.deep() == es@[k].1.deep(),
        decreases es.len() - i,
    {
        let k = clone_value(&es[i].0);
        let v = clone_value(&es[i].1);
        out.push((k, v));
        i = i + 1;
    }
    proof {
        lemma_deep_entries(out@);
        lemma_deep_entries(es@);
        assert(deep_entries(out@) =~= deep_entries(es@));
    }
    out
}

/// Traverses the JSON produced from a decoded protobuf message and enforces
/// the protobuf JSON mapping on it: object keys become lowerCamelCase, and
/// protobuf map fields (lists of `key`/`value` entries) become objects.
pub fn spec_compliance(json: Value) -> (r: Value)
    requires
        compliance_ok(json.deep()),
    ensures
        r.deep() == canon(json.deep()),
{
    canonicalize(&json)
}

/// The JSON-spec form of `v`.
fn canonicalize(v: &Value) -> (r: Value)
    requires
        compliance_ok(v.deep()),
    ensures
        r.deep() == canon(v.deep()),
    decreases v,
{
    match v {
        Value::Dict(map) => Value::Dict(traverse_and_canonicalize_map_keys(map)),
        Value::List(x) => {
            proof { lemma_deep_list(x@); }
            let (kvmapseq, nonkvmapseq) = partition_vec_to_find_possible_map(x);
            if kvmapseq.len() > 0 {
                assert(is_map_entry(deep_list(x@)[kvmapseq[0] as int]));
                assert(nonkvmapseq.len() == 0) by {
                    if nonkvmapseq.len() > 0 {
                        assert(!is_map_entry(deep_list(x@)[nonkvmapseq[0] as int]));
                    }
                }
                Value::Dict(convert_seq_map_to_flattened_map(x))
            } else {
                assert forall|i: int| 0 <= i < deep_list(x@).len() implies !is_map_entry(#[trigger] deep_list(x@)[i]) by {
                    assert(nonkvmapseq.len() == x.len());
                    assert(x@[i].deep() == deep_list(x@)[i]);
                    lemma_sorted_indices_cover(nonkvmapseq@, x.len() as int, i);
                }
                Value::List(canonicalize_list(x))
            }
        },
        Value::Optional(Some(b)) => canonicalize(b),
        Value::Newtype(b) => canonicalize(b),
        _ => clone_value(v),
    }
}

/// `n` strictly increasing indices below `n` are all of `0 .. n`.
proof fn lemma_sorted_indices_cover(idx: Seq<usize>, n: int, i: int)
    requires
        idx.len() == n,
        0 <= i < n,
        forall|k: int| 0 <= k < idx.len() ==> idx[k] < n,
        forall|k1: int, k2: int| 0 <= k1 < k2 < idx.len() ==> idx[k1] < idx[k2],
    ensures
        idx[i] == i,
    decreases n - i,
{
    assert forall|k: int| 0 <= k < n implies idx[k] >= k by {
        lemma_sorted_indices_lower(idx, k);
    }
    if i < n - 1 {
        lemma_sorted_indices_cover(idx, n, i + 1);
    }
}

proof fn lemma_sorted_indices_lower(idx: Seq<usize>, k: int)
    requires
        0 <= k < idx.len(),
        forall|k1: int, k2: int| 0 <= k1 < k2 < idx.len() ==> idx[k1] < idx[k2],
    ensures
        idx[k] >= k,
    decreases k,
{
    if k > 0 {
        lemma_sorted_indices_lower(idx, k - 1);
    }
}

/// The JSON-spec forms of the values of `xs`.
fn canonicalize_list(xs: &Vec<Value>) -> (r: Vec<Value>)
    requires
        list_ok(deep_list(xs@)),
    ensures
        deep_list(r@) == canon_list(deep_list(xs@)),
    decreases xs,
{
    proof {
        lemma_deep_list(xs@);
        lemma_list_ok(deep_list(xs@));
        lemma_canon_list(deep_list(xs@));
    }
    let mut out: Vec<Value> = Vec::new();
    let mut i: usize = 0;
    while i < xs.len()
        invariant
            i <= xs.len(),
            out.len() == i,
            deep_list(xs@).len() == xs.len(),
            forall|k: int| 0 <= k < xs.len() ==> #[trigger] deep_list(xs@)[k] == xs@[k].deep(),
            forall|k: int| 0 <= k < xs.len() ==> compliance_ok(#[trigger] deep_list(xs@)[k]),
            forall|k: int| 0 <= k < i ==> (#[trigger] out@[k]).deep() == canon(xs@[k].deep()),
        decreases xs.len() - i,
    {
        assert(compliance_ok(deep_list(xs@)[i as int]));
        out.push(canonicalize(&xs[i]));
        i = i + 1;
    }
    proof {
        lemma_deep_list(out@);
        assert(deep_list(out@) =~= canon_list(deep_list(xs@)));
    }
    out
}

/// Traverses an object and converts its keys: string keys to
/// lowerCamelCase, other keys and all values to their JSON-spec form.
fn traverse_and_canonicalize_map_keys(map: &Vec<(Value, Value)>) -> (r: Vec<(Value, Value)>)
    requires
        entries_ok(deep_entries(map@)),
    ensures
        deep_entries(r@) == canon_entries(deep_entries(map@)),
    decreases map,
{
    proof {
        lemma_deep_entries(map@);
        lemma_entries_ok(deep_entries(map@));
        lemma_canon_entries(deep_entries(map@));
    }
    let ghost d = deep_entries(map@);
    let mut out: Vec<(Value, Value)> = Vec::new();
    let mut i: usize = 0;
    while i < map.len()
        invariant
            i <= map.len(),
            out.len() == i,
            d == deep_entries(map@),
            d.len() == map.len(),
            forall|k: int| 0 <= k < map.len() ==> #[trigger] d[k] == (map@[k].0.deep(), map@[k].1.deep()),
            forall|k: int| 0 <= k < map.len() ==> ((#[trigger] d[k]).0 is Str || compliance_ok(d[k].0))
                && compliance_ok(d[k].1),
            forall|k: int| 0 <= k < i ==> ((#[trigger] out@[k]).0.deep(), out@[k].1.deep()) == canon_entry(d[k]),
        decreases map.len() - i,
    {
        assert(((d[i as int]).0 is Str || compliance_ok(d[i as int].0)) && compliance_ok(d[i as int].1));
        let key = match &map[i].0 {
            Value::Str(contents) => Value::Str(to_camel_case(contents.as_str())),
            k => canonicalize(k),
        };
        let value = canonicalize(&map[i].1);
        out.push((key, value));
        i = i + 1;
    }
    proof {
        lemma_deep_entries(out@);
        assert(deep_entries(out@) =~= canon_entries(d));
    }
    out
}

/// Converts a list of protobuf map entries into the entries of an object:
/// each entry's key (the contents of its `key` optional) with its value in
/// JSON-spec form.
fn convert_seq_map_to_flattened_map(x: &Vec<Value>) -> (r: Vec<(Value, Value)>)
    requires
        forall|i: int| 0 <= i < deep_list(x@).len() ==> is_map_entry(#[trigger] deep_list(x@)[i]),
        map_entries_ok(deep_list(x@)),
    ensures
        deep_entries(r@) == flatten_map_entries(deep_list(x@)),
    decreases x,
{
    proof {
        lemma_deep_list(x@);
        lemma_flatten_map_entries(deep_list(x@));
    }
    let ghost d = deep_list(x@);
    let mut out: Vec<(Value, Value)> = Vec::new();
    let mut i: usize = 0;
    while i < x.len()
        invariant
            i <= x.len(),
            out.len() == i,
            d == deep_list(x@),
            d.len() == x.len(),
            forall|k: int| 0 <= k < x.len() ==> #[trigger] d[k] == x@[k].deep(),
            forall|k: int| 0 <= k < x.len() ==> is_map_entry(#[trigger] d[k]),
            forall|k: int| 0 <= k < x.len() ==> map_entry_value_ok(#[trigger] d[k]),
            forall|k: int| 0 <= k < i ==> ((#[trigger] out@[k]).0.deep(), out@[k].1.deep()) == map_entry_pair(d[k]),
        decreases x.len() - i,
    {
        assert(is_map_entry(d[i as int]) && map_entry_value_ok(d[i as int]));
        match &x[i] {
            Value::Dict(map) => {
                proof {
                    lemma_deep_entries(map@);
                    lemma_find_key_in_range(deep_entries(map@), "key"@);
                    lemma_find_key_in_range(deep_entries(map@), "value"@);
                }
                let ki = find_entry(map, "key").unwrap();
                let vi = find_entry(map, "value").unwrap();
                match &map[ki].1 {
                    Value::Optional(Some(k)) => {
                        let key = clone_value(k);
                        let value = canonicalize(&map[vi].1);
                        out.push((key, value));
                    },
                    _ => {
                        assert(false);
                    },
                }
            },
            _ => {
                assert(false);
            },
        }
        i = i + 1;
    }
    proof {
        lemma_deep_entries(out@);
        assert(deep_entries(out@) =~= flatten_map_entries(d));
    }
    out
}

/// Every string key of an object comes out in lowerCamelCase, in place, and
/// the object keeps its number of entries.
pub proof fn law_object_keys_camel_cased(es: Seq<(SpecValue, SpecValue)>)
    ensures
        canon(SpecValue::Dict(es)) matches SpecValue::Dict(out) && out.len() == es.len()
            && forall|i: int| 0 <= i < es.len() ==> (#[trigger] es[i].0 matches SpecValue::Str(k)
                ==> out[i].0 == SpecValue::Str(camel_case(k))),
{
    lemma_canon_entries(es);
}

/// A non-empty list whose elements are all protobuf map entries comes out
/// as an object with one entry per map entry, in order: the entry's key
/// with its value in JSON-spec form.
pub proof fn law_map_entries_become_object(xs: Seq<SpecValue>)
    requires
        xs.len() > 0,
        forall|i: int| 0 <= i < xs.len() ==> is_map_entry(#[trigger] xs[i]),
    ensures
        canon(SpecValue::List(xs)) matches SpecValue::Dict(out) && out.len() == xs.len()
            && forall|i: int| 0 <= i < xs.len() ==> #[trigger] out[i] == map_entry_pair(xs[i]),
{
    assert(is_map_entry(xs[0]));
    lemma_flatten_map_entries(xs);
}

/// A list with no protobuf map entry stays a list of the same length, each
/// element in JSON-spec form.
pub proof fn law_plain_list_stays_list(xs: Seq<SpecValue>)
    requires
        forall|i: int| 0 <= i < xs.len() ==> !is_map_entry(#[trigger] xs[i]),
    ensures
        canon(SpecValue::List(xs)) matches SpecValue::List(out) && out.len() == xs.len()
            && forall|i: int| 0 <= i < xs.len() ==> #[trigger] out[i] == canon(xs[i]),
{
    lemma_canon_list(xs);
}

/// Every entry of an object is brought to JSON-spec form where it stands:
/// its value, at whatever depth it nests further objects, lists or
/// wrappers, and its key unless that is a string (string keys go to
/// lowerCamelCase); a value that is a present optional or a newtype comes
/// out as the JSON-spec form of what it wraps.
pub proof fn law_object_values_canonical(es: Seq<(SpecValue, SpecValue)>)
    ensures
        canon(SpecValue::Dict(es)) matches SpecValue::Dict(out) && out.len() == es.len()
            && (forall|i: int| 0 <= i < es.len() ==> #[trigger] out[i].1 == canon(es[i].1))
            && (forall|i: int| 0 <= i < es.len() && !(es[i].0 is Str) ==> #[trigger] out[i].0 == canon(es[i].0))
            && (forall|i: int| 0 <= i < es.len() ==> (#[trigger] es[i].1 matches SpecValue::Optional(Some(b))
                ==> out[i].1 == canon(*b)))
            && (forall|i: int| 0 <= i < es.len() ==> (#[trigger] es[i].1 matches SpecValue::Newtype(b)
                ==> out[i].1 == canon(*b))),
{
    lemma_canon_entries(es);
    let out = canon_entries(es);
    assert forall|i: int| 0 <= i < es.len() implies #[trigger] out[i].1 == canon(es[i].1) by {
        assert(out[i] == canon_entry(es[i]));
    }
    assert forall|i: int| 0 <= i < es.len() && !(es[i].0 is Str) implies #[trigger] out[i].0 == canon(es[i].0) by {
        assert(out[i] == canon_entry(es[i]));
    }
    assert forall|i: int| 0 <= i < es.len() implies (#[trigger] es[i].1 matches SpecValue::Optional(Some(b))
        ==> out[i].1 == canon(*b)) by {
        assert(out[i] == canon_entry(es[i]));
    }
    assert forall|i: int| 0 <= i < es.len() implies (#[trigger] es[i].1 matches SpecValue::Newtype(b)
        ==> out[i].1 == canon(*b)) by {
        assert(out[i] == canon_entry(es[i]));
    }
}

/// How a protobuf map entry with key `k` and value `v` decodes: an object
/// whose `key` is the present optional of `k` and whose `value` is `v`.
pub open spec fn decoded_map_entry(k: SpecValue, v: SpecValue) -> SpecValue {
    SpecValue::Dict(seq![
        (SpecValue::Str("key"@), SpecValue::Optional(Some(Box::new(k)))),
        (SpecValue::Str("value"@), v),
    ])
}

/// A decoded protobuf map entry is recognised as one, whatever its key and
/// value are.
pub proof fn law_decoded_map_entry_recognised(k: SpecValue, v: SpecValue)
    ensures
        is_map_entry(decoded_map_entry(k, v)),
        map_entry_pair(decoded_map_entry(k, v)) == (k, canon(v)),
{
    reveal_strlit("key");
    reveal_strlit("value");
    let es = seq![
        (SpecValue::Str("key"@), SpecValue::Optional(Some(Box::new(k)))),
        (SpecValue::Str("value"@), v),
    ];
    assert("key"@ != "value"@) by {
        assert("key"@.len() != "value"@.len());
    }
    assert(find_key(es, "key"@) == Some(0nat));
    assert(es.drop_first()[0].0 == SpecValue::Str("value"@));
    assert(find_key(es.drop_first(), "value"@) == Some(0nat));
    assert(find_key(es, "value"@) == Some(1nat));
}

/// A protobuf map field, decoded as a non-empty list of entries with keys
/// `ks` and values `vs`, becomes the object that maps each key, as it is,
/// to its value in JSON-spec form, in the order of the entries.
pub proof fn law_map_field_becomes_object(ks: Seq<SpecValue>, vs: Seq<SpecValue>)
    requires
        ks.len() == vs.len(),
        ks.len() > 0,
    ensures
        canon(SpecValue::List(Seq::new(ks.len(), |i: int| decoded_map_entry(ks[i], vs[i]))))
            == SpecValue::Dict(Seq::new(ks.len(), |i: int| (ks[i], canon(vs[i])))),
{
    let xs = Seq::new(ks.len(), |i: int| decoded_map_entry(ks[i], vs[i]));
    assert forall|i: int| 0 <= i < xs.len() implies is_map_entry(#[trigger] xs[i]) by {
        law_decoded_map_entry_recognised(ks[i], vs[i]);
    }
    law_map_entries_become_object(xs);
    let out = canon(SpecValue::List(xs))->Dict_0;
    assert forall|i: int| 0 <= i < xs.len() implies #[trigger] out[i] == (ks[i], canon(vs[i])) by {
        law_decoded_map_entry_recognised(ks[i], vs[i]);
    }
    assert(out =~= Seq::new(ks.len(), |i: int| (ks[i], canon(vs[i]))));
}

/// Whether `v` can be brought to its JSON-spec form: no list on the way
/// mixes protobuf map entries with other values.
pub fn check_compliance(v: &Value) -> (r: bool)
    ensures
        r == compliance_ok(v.deep()),
    decreases v,
{
    match v {
        Value::Dict(map) => check_entries(map),
        Value::List(x) => {
            proof { lemma_deep_list(x@); }
            let (kvmapseq, nonkvmapseq) = partition_vec_to_find_possible_map(x);
            if kvmapseq.len() > 0 {
                assert(is_map_entry(deep_list(x@)[kvmapseq[0] as int]));
                if nonkvmapseq.len() > 0 {
                    assert(!is_map_entry(deep_list(x@)[nonkvmapseq[0] as int]));
                    false
                } else {
                    assert forall|i: int| 0 <= i < deep_list(x@).len() implies is_map_entry(#[trigger] deep_list(x@)[i]) by {
                        assert(x@[i].deep() == deep_list(x@)[i]);
                        lemma_sorted_indices_cover(kvmapseq@, x.len() as int, i);
                    }
                    check_map_entries(x)
                }
            } else {
                assert forall|i: int| 0 <= i < deep_list(x@).len() implies !is_map_entry(#[trigger] deep_list(x@)[i]) by {
                    assert(x@[i].deep() == deep_list(x@)[i]);
                    lemma_sorted_indices_cover(nonkvmapseq@, x.len() as int, i);
                }
                check_list(x)
            }
        },
        Value::Optional(Some(b)) => check_compliance(b),
        Value::Newtype(b) => check_compliance(b),
        _ => true,
    }
}

/// Whether every value of `xs` satisfies `compliance_ok`.
fn check_list(xs: &Vec<Value>) -> (r: bool)
    ensures
        r == list_ok(deep_list(xs@)),
    decreases xs,
{
    proof {
        lemma_deep_list(xs@);
        lemma_list_ok(deep_list(xs@));
    }
    let mut i: usize = 0;
    while i < xs.len()
        invariant
            i <= xs.len(),
            deep_list(xs@).len() == xs.len(),
            forall|k: int| 0 <= k < xs.len() ==> #[trigger] deep_list(xs@)[k] == xs@[k].deep(),
            forall|k: int| 0 <= k < i ==> compliance_ok(#[trigger] deep_list(xs@)[k]),
            list_ok(deep_list(xs@)) <==> forall|k: int| 0 <= k < xs.len() ==> compliance_ok(#[trigger] deep_list(xs@)[k]),
        decreases xs.len() - i,
    {
        if !check_compliance(&xs[i]) {
            assert(!compliance_ok(deep_list(xs@)[i as int]));
            return false;
        }
        i = i + 1;
    }
    true
}

/// Whether every non-string key and every value of `map` satisfy `compliance_ok`.
fn check_entries(map: &Vec<(Value, Value)>) -> (r: bool)
    ensures
        r == entries_ok(deep_entries(map@)),
    decreases map,
{
    proof {
        lemma_deep_entries(map@);
        lemma_entries_ok(deep_entries(map@));
    }
    let ghost d = deep_entries(map@);
    let mut i: usize = 0;
    while i < map.len()
        invariant
            i <= map.len(),
            d == deep_entries(map@),
            d.len() == map.len(),
            forall|k: int| 0 <= k < map.len() ==> #[trigger] d[k] == (map@[k].0.deep(), map@[k].1.deep()),
            forall|k: int| 0 <= k < i ==> ((#[trigger] d[k]).0 is Str || compliance_ok(d[k].0))
                && compliance_ok(d[k].1),
            entries_ok(d) <==> forall|k: int| 0 <= k < d.len() ==> ((#[trigger] d[k]).0 is Str || compliance_ok(d[k].0))
                && compliance_ok(d[k].1),
        decreases map.len() - i,
    {
        let key_ok = match &map[i].0 {
            Value::Str(_) => true,
            k => check_compliance(k),
        };
        if !key_ok || !check_compliance(&map[i].1) {
            assert(!(((d[i as int]).0 is Str || compliance_ok(d[i as int].0)) && compliance_ok(d[i as int].1)));
            return false;
        }
        i = i + 1;
    }
    true
}

/// Whether the `value` of every protobuf map entry of `x` satisfies `compliance_ok`.
fn check_map_entries(x: &Vec<Value>) -> (r: bool)
    requires
        forall|i: int| 0 <= i < deep_list(x@).len() ==> is_map_entry(#[trigger] deep_list(x@)[i]),
    ensures
        r == map_entries_ok(deep_list(x@)),
    decreases x,
{
    proof {
        lemma_deep_list(x@);
        lemma_flatten_map_entries(deep_list(x@));
    }
    let ghost d = deep_list(x@);
    let mut i: usize = 0;
    while i < x.len()
        invariant
            i <= x.len(),
            d == deep_list(x@),
            d.len() == x.len(),
            forall|k: int| 0 <= k < x.len() ==> #[trigger] d[k] == x@[k].deep(),
            forall|k: int| 0 <= k < x.len() ==> is_map_entry(#[trigger] d[k]),
            forall|k: int| 0 <= k < i ==> map_entry_value_ok(#[trigger] d[k]),
            map_entries_ok(d) <==> forall|k: int| 0 <= k < d.len() ==> map_entry_value_ok(#[trigger] d[k]),
        decreases x.len() - i,
    {
        assert(is_map_entry(d[i as int]));
        match &x[i] {
            Value::Dict(map) => {
                proof {
                    lemma_deep_entries(map@);
                    lemma_find_key_in_range(deep_entries(map@), "value"@);
                }
                let vi = find_entry(map, "value").unwrap();
                if !check_compliance(&map[vi].1) {
                    assert(!map_entry_value_ok(d[i as int]));
                    return false;
                }
            },
            _ => {
                assert(false);
            },
        }
        i = i + 1;
    }
    true
}

} // verus!
