//! The serialization boundary of generated records: conversion between a
//! record's typed property values and a string-keyed string map, each value
//! under its property's original schema key in its canonical string form.

use vstd::prelude::*;
use crate::codec::bool_str;
use crate::codec::bool_to_canonical;
use crate::codec::i32_str;
use crate::codec::i32_to_canonical;
use crate::codec::lemma_bool_round_trip;
use crate::codec::lemma_i32_round_trip;
use crate::codec::parse_bool;
use crate::codec::parse_bool_spec;
use crate::codec::parse_i32;
use crate::codec::parse_i32_spec;
use crate::infer::PropValueType;
use crate::model::axis_labels_seq;
use crate::model::face_labels_seq;
use crate::model::facing_labels_seq;
use crate::model::half_labels_seq;
use crate::model::hinge_labels_seq;
use crate::model::part_labels_seq;
use crate::model::shape_labels_seq;
use crate::model::DataStruct;
use crate::model::Field;
use crate::model::FieldModel;
use crate::names::str_eq;

verus! {

/// A concrete typed value of one record field: a boolean, a 32-bit integer,
/// or the rank of an enumeration value within its domain.
#[derive(Clone, Copy, Debug, PartialEq, Eq, Structural)]
pub enum PropValue {
    Bool(bool),
    Int(i32),
    Choice(usize),
}

/// Whether an inferred type carries enumeration ranks.
pub open spec fn is_choice_type(ty: PropValueType) -> bool {
    ty != PropValueType::Bool && ty != PropValueType::I32
}

/// The ordered labels an enumeration-typed field serializes its ranks
/// through: the fixed table of a well-known domain, or the field's own
/// declared domain for a custom enumeration.
pub open spec fn choice_labels(f: FieldModel) -> Seq<Seq<char>> {
    match f.ty {
        PropValueType::Facing => facing_labels_seq(),
        PropValueType::Axis => axis_labels_seq(),
        PropValueType::Half => half_labels_seq(),
        PropValueType::Face => face_labels_seq(),
        PropValueType::Shape => shape_labels_seq(),
        PropValueType::Hinge => hinge_labels_seq(),
        PropValueType::Part => part_labels_seq(),
        PropValueType::Enum => f.domain,
        PropValueType::Bool => Seq::<Seq<char>>::empty(),
        PropValueType::I32 => Seq::<Seq<char>>::empty(),
    }
}

/// A value inhabits a field: its shape matches the field's inferred type,
/// and a rank lies within the field's domain.
pub open spec fn valid_value(f: FieldModel, v: PropValue) -> bool {
    match v {
        PropValue::Bool(_) => f.ty == PropValueType::Bool,
        PropValue::Int(_) => f.ty == PropValueType::I32,
        PropValue::Choice(r) => is_choice_type(f.ty) && (r as int) < choice_labels(f).len(),
    }
}

/// The canonical string a field value serializes to.
pub open spec fn entry_string(f: FieldModel, v: PropValue) -> Seq<char> {
    match v {
        PropValue::Bool(b) => bool_str(b),
        PropValue::Int(x) => i32_str(x),
        PropValue::Choice(r) => choice_labels(f)[r as int],
    }
}

/// Index of the first occurrence of `s` among `labels`, or -1.
pub open spec fn first_index_of(labels: Seq<Seq<char>>, s: Seq<char>) -> int
    decreases labels.len(),
{
    if labels.len() == 0 {
        -1
    } else if labels[0] == s {
        0
    } else {
        let r = first_index_of(labels.skip(1), s);
        if r == -1 {
            -1
        } else {
            r + 1
        }
    }
}

/// What parsing a serialized string into a field's type yields: the typed
/// value, or nothing when the string does not parse for the inferred type.
pub open spec fn parse_value(f: FieldModel, s: Seq<char>) -> Option<PropValue> {
    match f.ty {
        PropValueType::Bool => match parse_bool_spec(s) {
            Option::Some(b) => Option::Some(PropValue::Bool(b)),
            Option::None => Option::None,
        },
        PropValueType::I32 => match parse_i32_spec(s) {
            Option::Some(x) => Option::Some(PropValue::Int(x)),
            Option::None => Option::None,
        },
        _ => {
            let r = first_index_of(choice_labels(f), s);
            if r == -1 {
                Option::None
            } else {
                Option::Some(PropValue::Choice(r as usize))
            }
        },
    }
}

/// The string map a record instance serializes to: one entry per field in
/// schema order, under the property's original schema key.
pub open spec fn string_map_of(fields: Seq<FieldModel>, vals: Seq<PropValue>) -> Seq<
    (Seq<char>, Seq<char>),
> {
    Seq::new(fields.len(), |i: int| (fields[i].key, entry_string(fields[i], vals[i])))
}

/// First value stored under `key`, or nothing.
pub open spec fn lookup(map: Seq<(Seq<char>, Seq<char>)>, key: Seq<char>) -> Option<Seq<char>>
    decreases map.len(),
{
    if map.len() == 0 {
        Option::None
    } else if map[0].0 == key {
        Option::Some(map[0].1)
    } else {
        lookup(map.skip(1), key)
    }
}

/// What deserializing a string map into a record yields: each field looked
/// up under its original key and parsed for its type; nothing as soon as a
/// key is absent or a value does not parse.
pub open spec fn from_map_spec(fields: Seq<FieldModel>, map: Seq<(Seq<char>, Seq<char>)>) -> Option<
    Seq<PropValue>,
>
    decreases fields.len(),
{
    if fields.len() == 0 {
        Option::Some(Seq::<PropValue>::empty())
    } else {
        match from_map_spec(fields.drop_last(), map) {
            Option::None => Option::None,
            Option::Some(pre) => match lookup(map, fields.last().key) {
                Option::None => Option::None,
                Option::Some(s) => match parse_value(fields.last(), s) {
                    Option::None => Option::None,
                    Option::Some(v) => Option::Some(pre.push(v)),
                },
            },
        }
    }
}

fn push_label(v: &mut Vec<String>, label: &str)
    ensures
        final(v).deep_view() == old(v).deep_view().push(label@),
{
    v.push(label.to_owned());
    proof {
        assert(v.deep_view() =~= old(v).deep_view().push(label@));
    }
}

fn clone_labels(v: &Vec<String>) -> (r: Vec<String>)
    ensures
        r.deep_view() == v.deep_view(),
{
    let mut r: Vec<String> = Vec::new();
    let n: usize = v.len();
    let mut i: usize = 0;
    while i < n
        invariant
            0 <= i <= n,
            n == v@.len(),
            r@.len() == i,
            forall|j: int| 0 <= j < i ==> r@[j]@ == v@[j]@,
        decreases n - i,
    {
        r.push(v[i].clone());
        i = i + 1;
    }
    proof {
        assert(r.deep_view() =~= v.deep_view());
    }
    r
}

/// The concrete label table an enumeration-typed field serializes through.
fn field_labels(f: &Field) -> (r: Vec<String>)
    ensures
        r.deep_view() == choice_labels(f.deep_view()),
{
    match f.ty {
        PropValueType::Facing => {
            let mut v: Vec<String> = Vec::new();
            push_label(&mut v, "north");
            push_label(&mut v, "south");
            push_label(&mut v, "east");
            push_label(&mut v, "west");
            push_label(&mut v, "up");
            push_label(&mut v, "down");
            proof {
                assert(v.deep_view() =~= facing_labels_seq());
            }
            v
        },
        PropValueType::Axis => {
            let mut v: Vec<String> = Vec::new();
            push_label(&mut v, "x");
            push_label(&mut v, "y");
            push_label(&mut v, "z");
            proof {
                assert(v.deep_view() =~= axis_labels_seq());
            }
            v
        },
        PropValueType::Half => {
            let mut v: Vec<String> = Vec::new();
            push_label(&mut v, "upper");
            push_label(&mut v, "lower");
            push_label(&mut v, "top");
            push_label(&mut v, "bottom");
            proof {
                assert(v.deep_view() =~= half_labels_seq());
            }
            v
        },
        PropValueType::Face => {
            let mut v: Vec<String> = Vec::new();
            push_label(&mut v, "floor");
            push_label(&mut v, "wall");
            push_label(&mut v, "ceiling");
            proof {
                assert(v.deep_view() =~= face_labels_seq());
            }
            v
        },
        PropValueType::Shape => {
            let mut v: Vec<String> = Vec::new();
            push_label(&mut v, "straight");
            push_label(&mut v, "inner_left");
            push_label(&mut v, "inner_right");
            push_label(&mut v, "outer_left");
            push_label(&mut v, "ascending_north");
            push_label(&mut v, "ascending_south");
            push_label(&mut v, "ascending_east");
            push_label(&mut v, "ascending_west");
            push_label(&mut v, "north_east");
            push_label(&mut v, "north_west");
            push_label(&mut v, "south_east");
            push_label(&mut v, "south_west");
            push_label(&mut v, "north_south");
            push_label(&mut v, "east_west");
            proof {
                assert(v.deep_view() =~= shape_labels_seq());
            }
            v
        },
        PropValueType::Hinge => {
            let mut v: Vec<String> = Vec::new();
            push_label(&mut v, "left");
            push_label(&mut v, "right");
            proof {
                assert(v.deep_view() =~= hinge_labels_seq());
            }
            v
        },
        PropValueType::Part => {
            let mut v: Vec<String> = Vec::new();
            push_label(&mut v, "head");
            push_label(&mut v, "foot");
            proof {
                assert(v.deep_view() =~= part_labels_seq());
            }
            v
        },
        PropValueType::Enum => clone_labels(&f.domain),
        PropValueType::Bool => {
            let v: Vec<String> = Vec::new();
            proof {
                assert(v.deep_view() =~= Seq::<Seq<char>>::empty());
            }
            v
        },
        PropValueType::I32 => {
            let v: Vec<String> = Vec::new();
            proof {
                assert(v.deep_view() =~= Seq::<Seq<char>>::empty());
            }
            v
        },
    }
}

/// Serializes one field value to its canonical string.
fn entry_string_exec(f: &Field, v: PropValue) -> (r: String)
    requires
        valid_value(f.deep_view(), v),
    ensures
        r@ == entry_string(f.deep_view(), v),
{
    match v {
        PropValue::Bool(b) => bool_to_canonical(b),
        PropValue::Int(x) => i32_to_canonical(x),
        PropValue::Choice(rank) => {
            let labels = field_labels(f);
            proof {
                assert(labels@[rank as int]@ == choice_labels(f.deep_view())[rank as int]);
            }
            labels[rank].clone()
        },
    }
}

proof fn lemma_first_index_found(labels: Seq<Seq<char>>, s: Seq<char>, i: int)
    requires
        0 <= i < labels.len(),
        labels[i] == s,
        forall|j: int| 0 <= j < i ==> labels[j] != s,
    ensures
        first_index_of(labels, s) == i,
    decreases i,
{
    if i == 0 {
    } else {
        assert(labels[0] != s);
        assert(labels.skip(1)[i - 1] == labels[i]);
        assert(forall|j: int| 0 <= j < i - 1 ==> labels.skip(1)[j] == labels[j + 1]);
        lemma_first_index_found(labels.skip(1), s, i - 1);
    }
}

proof fn lemma_first_index_none(labels: Seq<Seq<char>>, s: Seq<char>)
    requires
        forall|j: int| 0 <= j < labels.len() ==> labels[j] != s,
    ensures
        first_index_of(labels, s) == -1,
    decreases labels.len(),
{
    if labels.len() > 0 {
        assert(forall|j: int|
            0 <= j < labels.skip(1).len() ==> labels.skip(1)[j] == labels[j + 1]);
        lemma_first_index_none(labels.skip(1), s);
    }
}

proof fn lemma_first_index_hit(labels: Seq<Seq<char>>, s: Seq<char>)
    requires
        first_index_of(labels, s) != -1,
    ensures
        0 <= first_index_of(labels, s) < labels.len(),
        labels[first_index_of(labels, s)] == s,
    decreases labels.len(),
{
    if labels.len() == 0 {
    } else if labels[0] == s {
    } else {
        lemma_first_index_hit(labels.skip(1), s);
    }
}

/// Parses one serialized string into a field's typed value.
fn parse_value_exec(f: &Field, s: &str) -> (r: Option<PropValue>)
    ensures
        r == parse_value(f.deep_view(), s@),
{
    match f.ty {
        PropValueType::Bool => match parse_bool(s) {
            Option::Some(b) => Option::Some(PropValue::Bool(b)),
            Option::None => Option::None,
        },
        PropValueType::I32 => match parse_i32(s) {
            Option::Some(x) => Option::Some(PropValue::Int(x)),
            Option::None => Option::None,
        },
        _ => {
            let ghost fm = f.deep_view();
            let labels = field_labels(f);
            let n: usize = labels.len();
            let mut i: usize = 0;
            while i < n
                invariant
                    0 <= i <= n,
                    n == labels@.len(),
                    fm == f.deep_view(),
                    fm.ty != PropValueType::Bool,
                    fm.ty != PropValueType::I32,
                    labels.deep_view() == choice_labels(fm),
                    forall|j: int| 0 <= j < i ==> choice_labels(fm)[j] != s@,
                decreases n - i,
            {
                if str_eq(labels[i].as_str(), s) {
                    proof {
                        assert(choice_labels(fm)[i as int] == labels@[i as int]@);
                        lemma_first_index_found(choice_labels(fm), s@, i as int);
                    }
                    return Option::Some(PropValue::Choice(i));
                }
                proof {
                    assert(choice_labels(fm)[i as int] == labels@[i as int]@);
                }
                i = i + 1;
            }
            proof {
                lemma_first_index_none(choice_labels(fm), s@);
            }
            Option::None
        },
    }
}

impl DataStruct {
    /// Serializes a record instance: one entry per field in schema order,
    /// each value in its canonical string form under the property's
    /// original schema key.
    pub fn to_string_map(&self, vals: &Vec<PropValue>) -> (m: Vec<(String, String)>)
        requires
            vals@.len() == self.fields@.len(),
            forall|i: int|
                0 <= i < vals@.len() ==> valid_value(
                    (#[trigger] self.fields@[i]).deep_view(),
                    vals@[i],
                ),
        ensures
            m.deep_view() == string_map_of(self.deep_view().fields, vals@),
    {
        let mut m: Vec<(String, String)> = Vec::new();
        let n: usize = self.fields.len();
        let mut i: usize = 0;
        while i < n
            invariant
                0 <= i <= n,
                n == self.fields@.len(),
                vals@.len() == n,
                forall|j: int|
                    0 <= j < n ==> valid_value(
                        (#[trigger] self.fields@[j]).deep_view(),
                        vals@[j],
                    ),
                m@.len() == i,
                forall|j: int|
                    0 <= j < i ==> (#[trigger] m@[j]).0@ == self.fields@[j].deep_view().key
                        && m@[j].1@ == entry_string(self.fields@[j].deep_view(), vals@[j]),
            decreases n - i,
        {
            let key = self.fields[i].key.clone();
            let entry = entry_string_exec(&self.fields[i], vals[i]);
            m.push((key, entry));
            i = i + 1;
        }
        proof {
            assert(m.deep_view() =~= string_map_of(self.deep_view().fields, vals@));
        }
        m
    }

    /// Deserializes a string map into a record instance: each field is
    /// looked up under its original schema key and parsed for its inferred
    /// type; yields nothing as soon as a key is absent or a value does not
    /// parse.
    pub fn from_string_map(&self, map: &Vec<(String, String)>) -> (r: Option<Vec<PropValue>>)
        ensures
            from_map_spec(self.deep_view().fields, map.deep_view()) == (match r {
                Option::Some(v) => Option::Some(v@),
                Option::None => Option::None::<Seq<PropValue>>,
            }),
    {
        let ghost fields = self.deep_view().fields;
        let ghost mdv = map.deep_view();
        let mut vals: Vec<PropValue> = Vec::new();
        let n: usize = self.fields.len();
        let mut i: usize = 0;
        proof {
            assert(fields.take(0) =~= Seq::<FieldModel>::empty());
        }
        while i < n
            invariant
                0 <= i <= n,
                n == self.fields@.len(),
                fields == self.deep_view().fields,
                mdv == map.deep_view(),
                fields.len() == n,
                vals@.len() == i,
                from_map_spec(fields.take(i as int), mdv) == Option::Some(vals@),
            decreases n - i,
        {
            proof {
                assert(fields.take(i + 1).drop_last() =~= fields.take(i as int));
                assert(fields.take(i + 1).last() == fields[i as int]);
                assert(fields[i as int] == self.fields@[i as int].deep_view());
            }
            let looked = lookup_exec(map, self.fields[i].key.as_str());
            match looked {
                Option::None => {
                    proof {
                        assert(from_map_spec(fields.take(i + 1), mdv) is None);
                        lemma_from_map_none_mono(fields, mdv, i + 1);
                    }
                    return Option::None;
                },
                Option::Some(sv) => {
                    let parsed = parse_value_exec(&self.fields[i], sv.as_str());
                    match parsed {
                        Option::None => {
                            proof {
                                assert(from_map_spec(fields.take(i + 1), mdv) is None);
                                lemma_from_map_none_mono(fields, mdv, i + 1);
                            }
                            return Option::None;
                        },
                        Option::Some(v) => {
                            vals.push(v);
                        },
                    }
                },
            }
            i = i + 1;
        }
        proof {
            assert(fields.take(n as int) =~= fields);
        }
        Option::Some(vals)
    }
}

fn lookup_exec(map: &Vec<(String, String)>, key: &str) -> (r: Option<String>)
    ensures
        lookup(map.deep_view(), key@) == (match r {
            Option::Some(s) => Option::Some(s@),
            Option::None => Option::None::<Seq<char>>,
        }),
{
    let ghost mdv = map.deep_view();
    let n: usize = map.len();
    let mut i: usize = 0;
    while i < n
        invariant
            0 <= i <= n,
            n == map@.len(),
            mdv == map.deep_view(),
            forall|j: int| 0 <= j < i ==> (#[trigger] mdv[j]).0 != key@,
        decreases n - i,
    {
        if str_eq(map[i].0.as_str(), key) {
            proof {
                assert(mdv[i as int].0 == map@[i as int].0@);
                lemma_lookup_found(mdv, key@, i as int);
            }
            return Option::Some(map[i].1.clone());
        }
        proof {
            assert(mdv[i as int].0 == map@[i as int].0@);
        }
        i = i + 1;
    }
    proof {
        lemma_lookup_none(mdv, key@);
    }
    Option::None
}

proof fn lemma_lookup_found(map: Seq<(Seq<char>, Seq<char>)>, key: Seq<char>, i: int)
    requires
        0 <= i < map.len(),
        map[i].0 == key,
        forall|j: int| 0 <= j < i ==> (#[trigger] map[j]).0 != key,
    ensures
        lookup(map, key) == Option::Some(map[i].1),
    decreases i,
{
    if i == 0 {
    } else {
        assert(map[0].0 != key);
        assert(map.skip(1)[i - 1] == map[i]);
        assert(forall|j: int| 0 <= j < i - 1 ==> map.skip(1)[j] == map[j + 1]);
        lemma_lookup_found(map.skip(1), key, i - 1);
    }
}

proof fn lemma_lookup_none(map: Seq<(Seq<char>, Seq<char>)>, key: Seq<char>)
    requires
        forall|j: int| 0 <= j < map.len() ==> (#[trigger] map[j]).0 != key,
    ensures
        lookup(map, key) is None,
    decreases map.len(),
{
    if map.len() > 0 {
        assert(forall|j: int| 0 <= j < map.skip(1).len() ==> map.skip(1)[j] == map[j + 1]);
        lemma_lookup_none(map.skip(1), key);
    }
}

/// Pairwise-distinct strings.
pub open spec fn distinct_strs(s: Seq<Seq<char>>) -> bool {
    forall|i: int, j: int| 0 <= i < j < s.len() ==> s[i] != s[j]
}

/// No two fields serialize under one key.
pub open spec fn distinct_keys(fields: Seq<FieldModel>) -> bool {
    forall|i: int, j: int|
        0 <= i < j < fields.len() ==> (#[trigger] fields[i]).key != (#[trigger] fields[j]).key
}

proof fn lemma_parse_entry_round_trip(f: FieldModel, v: PropValue)
    requires
        valid_value(f, v),
        distinct_strs(choice_labels(f)),
    ensures
        parse_value(f, entry_string(f, v)) == Option::Some(v),
{
    match v {
        PropValue::Bool(b) => {
            lemma_bool_round_trip(b);
        },
        PropValue::Int(x) => {
            lemma_i32_round_trip(x);
        },
        PropValue::Choice(r) => {
            let labels = choice_labels(f);
            assert(forall|j: int| 0 <= j < r ==> labels[j] != labels[r as int]);
            lemma_first_index_found(labels, labels[r as int], r as int);
        },
    }
}

proof fn lemma_from_map_agrees(
    fields: Seq<FieldModel>,
    map: Seq<(Seq<char>, Seq<char>)>,
    vals: Seq<PropValue>,
)
    requires
        fields.len() == vals.len(),
        forall|i: int| 0 <= i < fields.len() ==> valid_value(#[trigger] fields[i], vals[i]),
        forall|i: int|
            0 <= i < fields.len() ==> distinct_strs(choice_labels(#[trigger] fields[i])),
        forall|i: int|
            0 <= i < fields.len() ==> lookup(map, (#[trigger] fields[i]).key) == Option::Some(
                entry_string(fields[i], vals[i]),
            ),
    ensures
        from_map_spec(fields, map) == Option::Some(vals),
    decreases fields.len(),
{
    if fields.len() == 0 {
        assert(vals =~= Seq::<PropValue>::empty());
    } else {
        let k = fields.len() - 1;
        assert(forall|i: int| 0 <= i < k ==> fields.drop_last()[i] == fields[i]);
        assert(forall|i: int| 0 <= i < k ==> vals.drop_last()[i] == vals[i]);
        lemma_from_map_agrees(fields.drop_last(), map, vals.drop_last());
        lemma_parse_entry_round_trip(fields[k], vals[k]);
        assert(vals.drop_last().push(vals[k]) =~= vals);
    }
}

/// Serialization round trip: deserializing the string map that a valid
/// record instance serializes to yields exactly that instance, provided no
/// two fields share a key and no enumeration domain repeats a label.
pub proof fn lemma_serialization_round_trip(fields: Seq<FieldModel>, vals: Seq<PropValue>)
    requires
        fields.len() == vals.len(),
        forall|i: int| 0 <= i < fields.len() ==> valid_value(#[trigger] fields[i], vals[i]),
        forall|i: int|
            0 <= i < fields.len() ==> distinct_strs(choice_labels(#[trigger] fields[i])),
        distinct_keys(fields),
    ensures
        from_map_spec(fields, string_map_of(fields, vals)) == Option::Some(vals),
{
    let map = string_map_of(fields, vals);
    assert forall|i: int| 0 <= i < fields.len() implies lookup(
        map,
        (#[trigger] fields[i]).key,
    ) == Option::Some(entry_string(fields[i], vals[i])) by {
        assert(forall|j: int| 0 <= j < i ==> (#[trigger] map[j]).0 == fields[j].key);
        assert(forall|j: int| 0 <= j < i ==> (#[trigger] map[j]).0 != fields[i].key);
        lemma_lookup_found(map, fields[i].key, i);
    };
    lemma_from_map_agrees(fields, map, vals);
}

/// Canonical string round trip: a domain string that parses for its field's
/// type re-serializes to exactly itself. For an integer-typed field this is
/// stated of the canonical decimal strings: a non-canonical spelling such as
/// one with a leading zero parses but re-serializes canonically.
pub proof fn lemma_canonical_string_round_trip(f: FieldModel, s: Seq<char>)
    requires
        parse_value(f, s) is Some,
        f.ty == PropValueType::I32 ==> (exists|w: i32| s == i32_str(w)),
        is_choice_type(f.ty) ==> choice_labels(f).len() <= usize::MAX,
    ensures
        entry_string(f, parse_value(f, s).unwrap()) == s,
{
    match f.ty {
        PropValueType::Bool => {
        },
        PropValueType::I32 => {
            let w = choose|w: i32| s == i32_str(w);
            lemma_i32_round_trip(w);
        },
        _ => {
            let labels = choice_labels(f);
            lemma_first_index_hit(labels, s);
        },
    }
}

proof fn lemma_from_map_none_mono(
    fields: Seq<FieldModel>,
    map: Seq<(Seq<char>, Seq<char>)>,
    i: int,
)
    requires
        0 <= i <= fields.len(),
        from_map_spec(fields.take(i), map) is None,
    ensures
        from_map_spec(fields, map) is None,
    decreases fields.len() - i,
{
    if i == fields.len() {
        assert(fields.take(i) =~= fields);
    } else {
        assert(fields.take(i + 1).drop_last() =~= fields.take(i));
        lemma_from_map_none_mono(fields, map, i + 1);
    }
}

} // verus!
