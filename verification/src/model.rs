//! The structural model builder: consumes the schema block by block in
//! declared order and produces the generator's intermediate representation —
//! one sum-type variant per block (nullary, or carrying a record of typed
//! fields), one synthesized enumeration per custom property domain, a fixed
//! library of well-known enumerations shared across blocks, and the
//! mixed-radix multiplier formula of every record.

use vstd::prelude::*;
use crate::encode::card_seq;
use crate::encode::multipliers_of;
use crate::encode::product_of;
use crate::infer::spec_guess;
use crate::infer::type_name_of;
use crate::infer::PropValueType;
use crate::names::camel_of;
use crate::names::correct_variable_name;
use crate::names::corrected_of;
use crate::names::to_camel_case;

verus! {

/// An ordered property set: property name to ordered, non-empty list of
/// permitted value strings. Order fixes the mixed-radix weights.
#[derive(Debug, Clone, PartialEq, Eq)]
pub struct BlockProperties {
    pub props: Vec<(String, Vec<String>)>,
}

impl DeepView for BlockProperties {
    type V = Seq<(Seq<char>, Seq<Seq<char>>)>;

    open spec fn deep_view(&self) -> Seq<(Seq<char>, Seq<Seq<char>>)> {
        self.props.deep_view()
    }
}

/// A block: an optional ordered property set. Absence means the block has a
/// single nullary representation.
#[derive(Debug, Clone, PartialEq, Eq)]
pub struct Block {
    pub properties: Option<BlockProperties>,
}

impl DeepView for Block {
    type V = Option<Seq<(Seq<char>, Seq<Seq<char>>)>>;

    open spec fn deep_view(&self) -> Option<Seq<(Seq<char>, Seq<Seq<char>>)>> {
        match self.properties {
            Option::Some(ref p) => Option::Some(p.deep_view()),
            Option::None => Option::None,
        }
    }
}

/// The whole schema: an ordered mapping from block name to block; iteration
/// order becomes the stable native type id numbering.
#[derive(Debug, Clone, PartialEq, Eq)]
pub struct BlockReport {
    pub blocks: Vec<(String, Block)>,
}

impl DeepView for BlockReport {
    type V = Seq<(Seq<char>, Option<Seq<(Seq<char>, Seq<Seq<char>>)>>)>;

    open spec fn deep_view(&self) -> Seq<
        (Seq<char>, Option<Seq<(Seq<char>, Seq<Seq<char>>)>>),
    > {
        self.blocks.deep_view()
    }
}

/// A synthesized or well-known closed enumeration: its type name, its
/// CamelCase variant identifiers, and the original snake_case labels they
/// serialize under, in domain order.
#[derive(Debug, Clone, PartialEq, Eq)]
pub struct PropertyEnum {
    pub name: String,
    pub variants: Vec<String>,
    pub labels: Vec<String>,
}

/// The mathematical content of a [`PropertyEnum`].
#[verifier::ext_equal]
pub struct PropertyEnumModel {
    pub name: Seq<char>,
    pub variants: Seq<Seq<char>>,
    pub labels: Seq<Seq<char>>,
}

impl DeepView for PropertyEnum {
    type V = PropertyEnumModel;

    open spec fn deep_view(&self) -> PropertyEnumModel {
        PropertyEnumModel {
            name: self.name@,
            variants: self.variants.deep_view(),
            labels: self.labels.deep_view(),
        }
    }
}

/// The enumeration synthesized for a custom property domain: named by the
/// block's variant identifier followed by the property's CamelCase name, so
/// two distinct blocks never share one, with one variant per permitted value
/// in domain order.
pub open spec fn property_enum_model(
    variant: Seq<char>,
    prop: Seq<char>,
    values: Seq<Seq<char>>,
) -> PropertyEnumModel {
    PropertyEnumModel {
        name: variant + camel_of(prop),
        variants: values.map_values(|v: Seq<char>| camel_of(v)),
        labels: values,
    }
}

/// The domain cardinalities of a property list, in property order.
pub open spec fn prop_cards(props: Seq<(Seq<char>, Seq<Seq<char>>)>) -> Seq<int> {
    props.map_values(|p: (Seq<char>, Seq<Seq<char>>)| p.1.len() as int)
}

/// Every property's domain is non-empty.
pub open spec fn wf_props(props: Seq<(Seq<char>, Seq<Seq<char>>)>) -> bool {
    forall|i: int| 0 <= i < props.len() ==> (#[trigger] props[i]).1.len() >= 1
}

/// The block's full state count fits the machine word, so every positional
/// multiplier does too.
pub open spec fn props_fit(props: Seq<(Seq<char>, Seq<Seq<char>>)>) -> bool {
    product_of(prop_cards(props)) <= usize::MAX
}

/// One typed record field of a generated data struct.
#[derive(Debug, Clone, PartialEq, Eq)]
pub struct Field {
    /// The field identifier, after the reserved-name exception table.
    pub name: String,
    /// The property's original schema name: the serialization key.
    pub key: String,
    /// The inferred type of the property's domain.
    pub ty: PropValueType,
    /// The identifier of the field's type.
    pub ty_name: String,
    /// The property's ordered value domain.
    pub domain: Vec<String>,
}

/// The mathematical content of a [`Field`].
#[verifier::ext_equal]
pub struct FieldModel {
    pub name: Seq<char>,
    pub key: Seq<char>,
    pub ty: PropValueType,
    pub ty_name: Seq<char>,
    pub domain: Seq<Seq<char>>,
}

impl DeepView for Field {
    type V = FieldModel;

    open spec fn deep_view(&self) -> FieldModel {
        FieldModel {
            name: self.name@,
            key: self.key@,
            ty: self.ty,
            ty_name: self.ty_name@,
            domain: self.domain.deep_view(),
        }
    }
}

/// The field a property turns into: its name runs through the exception
/// table, its type is inferred from the first permitted value, and it keeps
/// its original schema key and its full domain.
pub open spec fn field_model(
    variant: Seq<char>,
    key: Seq<char>,
    values: Seq<Seq<char>>,
) -> FieldModel {
    let ty = spec_guess(values[0]);
    FieldModel {
        name: corrected_of(key),
        key: key,
        ty: ty,
        ty_name: type_name_of(ty, variant, key),
        domain: values,
    }
}

/// The mixed-radix encoding formula of a generated record: one term per
/// field, pairing the field name with its positional multiplier.
#[derive(Debug, Clone, PartialEq, Eq)]
pub struct ValueImpl {
    pub ty_name: String,
    pub terms: Vec<(String, usize)>,
}

/// The mathematical content of a [`ValueImpl`].
#[verifier::ext_equal]
pub struct ValueImplModel {
    pub ty_name: Seq<char>,
    pub terms: Seq<(Seq<char>, int)>,
}

impl DeepView for ValueImpl {
    type V = ValueImplModel;

    open spec fn deep_view(&self) -> ValueImplModel {
        ValueImplModel {
            ty_name: self.ty_name@,
            terms: Seq::new(
                self.terms@.len(),
                |i: int| (self.terms@[i].0@, self.terms@[i].1 as int),
            ),
        }
    }
}

/// The encoding formula of a property list: each property's multiplier is
/// the product of the cardinalities of all properties after it, so the last
/// property is the fastest-varying digit with multiplier 1.
pub open spec fn value_impl_model(
    variant: Seq<char>,
    props: Seq<(Seq<char>, Seq<Seq<char>>)>,
) -> ValueImplModel {
    ValueImplModel {
        ty_name: variant + "Data"@,
        terms: Seq::new(
            props.len(),
            |i: int| (corrected_of(props[i].0), product_of(prop_cards(props).skip(i + 1))),
        ),
    }
}

/// A generated record type: its name, its typed fields in schema order, and
/// its encoding formula.
#[derive(Debug, Clone, PartialEq, Eq)]
pub struct DataStruct {
    pub name: String,
    pub fields: Vec<Field>,
    pub value_impl: ValueImpl,
}

/// The mathematical content of a [`DataStruct`].
#[verifier::ext_equal]
pub struct DataStructModel {
    pub name: Seq<char>,
    pub fields: Seq<FieldModel>,
    pub value_impl: ValueImplModel,
}

impl DeepView for DataStruct {
    type V = DataStructModel;

    open spec fn deep_view(&self) -> DataStructModel {
        DataStructModel {
            name: self.name@,
            fields: self.fields.deep_view(),
            value_impl: self.value_impl.deep_view(),
        }
    }
}

/// The record type of a block with properties: named by the variant followed
/// by `Data`, with one field per property in schema order.
pub open spec fn data_struct_model(
    variant: Seq<char>,
    props: Seq<(Seq<char>, Seq<Seq<char>>)>,
) -> DataStructModel {
    DataStructModel {
        name: variant + "Data"@,
        fields: Seq::new(props.len(), |i: int| field_model(variant, props[i].0, props[i].1)),
        value_impl: value_impl_model(variant, props),
    }
}

/// The enumerations synthesized for a property list's custom domains, in
/// property order.
pub open spec fn custom_enum_models(
    variant: Seq<char>,
    props: Seq<(Seq<char>, Seq<Seq<char>>)>,
) -> Seq<PropertyEnumModel>
    decreases props.len(),
{
    if props.len() == 0 {
        Seq::<PropertyEnumModel>::empty()
    } else {
        (if spec_guess(props[0].1[0]) == PropValueType::Enum {
            seq![property_enum_model(variant, props[0].0, props[0].1)]
        } else {
            Seq::<PropertyEnumModel>::empty()
        }) + custom_enum_models(variant, props.skip(1))
    }
}

proof fn lemma_custom_enum_models_snoc(
    variant: Seq<char>,
    props: Seq<(Seq<char>, Seq<Seq<char>>)>,
    i: int,
)
    requires
        0 <= i < props.len(),
    ensures
        custom_enum_models(variant, props.take(i + 1)) == custom_enum_models(
            variant,
            props.take(i),
        ) + (if spec_guess(props[i].1[0]) == PropValueType::Enum {
            seq![property_enum_model(variant, props[i].0, props[i].1)]
        } else {
            Seq::<PropertyEnumModel>::empty()
        }),
    decreases i,
{
    let item = if spec_guess(props[i].1[0]) == PropValueType::Enum {
        seq![property_enum_model(variant, props[i].0, props[i].1)]
    } else {
        Seq::<PropertyEnumModel>::empty()
    };
    if i == 0 {
        assert(props.take(0) =~= Seq::<(Seq<char>, Seq<Seq<char>>)>::empty());
        assert(props.take(1)[0] == props[0]);
        assert(props.take(1).skip(1) =~= props.take(0));
        assert(custom_enum_models(variant, props.take(0)).len() == 0);
        assert(custom_enum_models(variant, props.take(1)) == item + custom_enum_models(
            variant,
            props.take(1).skip(1),
        ));
        assert(item + custom_enum_models(variant, props.take(0)) =~= item);
        assert(custom_enum_models(variant, props.take(0)) + item =~= item);
    } else {
        let tail = props.skip(1);
        lemma_custom_enum_models_snoc(variant, tail, i - 1);
        assert(props.take(i + 1).skip(1) =~= tail.take(i));
        assert(props.take(i).skip(1) =~= tail.take(i - 1));
        assert(props.take(i + 1)[0] == props[0]);
        assert(props.take(i)[0] == props[0]);
        assert(tail[i - 1] == props[i]);
        let head = if spec_guess(props[0].1[0]) == PropValueType::Enum {
            seq![property_enum_model(variant, props[0].0, props[0].1)]
        } else {
            Seq::<PropertyEnumModel>::empty()
        };
        assert(custom_enum_models(variant, props.take(i + 1)) == head + (custom_enum_models(
            variant,
            tail.take(i - 1),
        ) + item));
        assert(head + (custom_enum_models(variant, tail.take(i - 1)) + item) =~= (head
            + custom_enum_models(variant, tail.take(i - 1))) + item);
    }
}

fn clone_strings(v: &Vec<String>) -> (r: Vec<String>)
    ensures
        r.deep_view() == v.deep_view(),
{
    let mut r: Vec<String> = Vec::new();
    let n: usize = v.len();
    let mut i: usize = 0;
    while i < n
        invariant
            0 <= i <= n,
            n == v@.len(),
            r@.len() == i,
            forall|j: int| 0 <= j < i ==> r@[j]@ == v@[j]@,
        decreases n - i,
    {
        r.push(v[i].clone());
        i = i + 1;
    }
    proof {
        assert(r.deep_view() =~= v.deep_view());
    }
    r
}

/// Synthesizes the closed enumeration for one custom property domain and
/// appends it to the collected property enumerations.
pub fn create_property_enum(
    variant_name: &str,
    prop_name: &str,
    possible_values: &Vec<String>,
    property_enums: &mut Vec<PropertyEnum>,
)
    ensures
        final(property_enums).deep_view() == old(property_enums).deep_view().push(
            property_enum_model(variant_name@, prop_name@, possible_values.deep_view()),
        ),
{
    let mut name: String = variant_name.to_owned();
    let camel_prop = to_camel_case(prop_name);
    name.append(camel_prop.as_str());
    let mut variants: Vec<String> = Vec::new();
    let n: usize = possible_values.len();
    let mut i: usize = 0;
    while i < n
        invariant
            0 <= i <= n,
            n == possible_values@.len(),
            variants@.len() == i,
            forall|j: int| 0 <= j < i ==> variants@[j]@ == camel_of(possible_values@[j]@),
        decreases n - i,
    {
        variants.push(to_camel_case(possible_values[i].as_str()));
        i = i + 1;
    }
    let labels = clone_strings(possible_values);
    let en = PropertyEnum { name, variants, labels };
    proof {
        assert(en.deep_view().variants =~= property_enum_model(
            variant_name@,
            prop_name@,
            possible_values.deep_view(),
        ).variants);
        assert(en.deep_view() =~= property_enum_model(
            variant_name@,
            prop_name@,
            possible_values.deep_view(),
        ));
    }
    property_enums.push(en);
    proof {
        assert(property_enums.deep_view() =~= old(property_enums).deep_view().push(
            property_enum_model(variant_name@, prop_name@, possible_values.deep_view()),
        ));
    }
}

fn type_name_exec(ty: PropValueType, variant_name: &str, prop_name: &str) -> (r: String)
    ensures
        r@ == type_name_of(ty, variant_name@, prop_name@),
{
    match ty {
        PropValueType::Bool => "bool".to_owned(),
        PropValueType::I32 => "i32".to_owned(),
        PropValueType::Part => "Part".to_owned(),
        PropValueType::Hinge => "Hinge".to_owned(),
        PropValueType::Shape => "Shape".to_owned(),
        PropValueType::Half => "Half".to_owned(),
        PropValueType::Axis => "Axis".to_owned(),
        PropValueType::Face => "Face".to_owned(),
        PropValueType::Facing => "Facing".to_owned(),
        PropValueType::Enum => {
            let mut n: String = variant_name.to_owned();
            let camel_prop = to_camel_case(prop_name);
            n.append(camel_prop.as_str());
            n
        },
    }
}

/// Derives the mixed-radix encoding formula of a block's record type: one
/// term per property in schema order, weighting each field by the product of
/// the cardinalities of all later properties.
pub fn generate_value_implementation(variant_name: &str, props: &BlockProperties) -> (r: ValueImpl)
    requires
        wf_props(props.deep_view()),
        props_fit(props.deep_view()),
    ensures
        r.deep_view() == value_impl_model(variant_name@, props.deep_view()),
{
    let ghost dv = props.deep_view();
    let n: usize = props.props.len();
    proof {
        assert(dv.len() == n);
    }
    let mut cards: Vec<usize> = Vec::new();
    let mut i: usize = 0;
    while i < n
        invariant
            0 <= i <= n,
            n == props.props@.len(),
            dv == props.deep_view(),
            dv.len() == n,
            cards@.len() == i,
            forall|j: int| 0 <= j < i ==> cards@[j] as int == dv[j].1.len(),
        decreases n - i,
    {
        let len_j: usize = props.props[i].1.len();
        proof {
            assert(dv[i as int].1 == props.props@[i as int].1.deep_view());
        }
        cards.push(len_j);
        i = i + 1;
    }
    proof {
        assert(card_seq(cards@) =~= prop_cards(dv));
    }
    let mults = multipliers_of(&cards);
    let mut terms: Vec<(String, usize)> = Vec::new();
    let mut k: usize = 0;
    while k < n
        invariant
            0 <= k <= n,
            n == props.props@.len(),
            dv == props.deep_view(),
            dv.len() == n,
            mults@.len() == n,
            forall|j: int| 0 <= j < n ==> mults@[j] as int == product_of(prop_cards(dv).skip(j + 1)),
            terms@.len() == k,
            forall|j: int|
                0 <= j < k ==> (#[trigger] terms@[j]).0@ == corrected_of(dv[j].0) && terms@[j].1
                    as int == product_of(prop_cards(dv).skip(j + 1)),
        decreases n - k,
    {
        let field_name: String = correct_variable_name(props.props[k].0.as_str()).to_owned();
        proof {
            assert(dv[k as int].0 == props.props@[k as int].0@);
        }
        terms.push((field_name, mults[k]));
        k = k + 1;
    }
    let mut ty_name: String = variant_name.to_owned();
    ty_name.append("Data");
    let r = ValueImpl { ty_name, terms };
    proof {
        assert(r.deep_view().terms =~= value_impl_model(variant_name@, dv).terms);
        assert(r.deep_view() =~= value_impl_model(variant_name@, dv));
    }
    r
}

/// Builds the record type of a block with properties: one typed field per
/// property in schema order, the synthesized enumerations for its custom
/// domains, and the record's encoding formula. The record is appended to the
/// collected data structs, the synthesized enumerations to the collected
/// property enumerations.
pub fn create_block_data_struct(
    variant_name: &str,
    props: &BlockProperties,
    property_enums: &mut Vec<PropertyEnum>,
    data_structs: &mut Vec<DataStruct>,
)
    requires
        wf_props(props.deep_view()),
        props_fit(props.deep_view()),
    ensures
        final(data_structs).deep_view() == old(data_structs).deep_view().push(
            data_struct_model(variant_name@, props.deep_view()),
        ),
        final(property_enums).deep_view() == old(property_enums).deep_view()
            + custom_enum_models(variant_name@, props.deep_view()),
{
    let ghost dv = props.deep_view();
    let n: usize = props.props.len();
    proof {
        assert(dv.len() == n);
        assert(dv.take(0) =~= Seq::<(Seq<char>, Seq<Seq<char>>)>::empty());
        assert(old(property_enums).deep_view() + custom_enum_models(variant_name@, dv.take(0))
            =~= old(property_enums).deep_view());
    }
    let mut fields: Vec<Field> = Vec::new();
    let mut i: usize = 0;
    while i < n
        invariant
            0 <= i <= n,
            n == props.props@.len(),
            dv == props.deep_view(),
            dv.len() == n,
            wf_props(dv),
            fields@.len() == i,
            forall|j: int|
                0 <= j < i ==> (#[trigger] fields@[j]).deep_view() == field_model(
                    variant_name@,
                    dv[j].0,
                    dv[j].1,
                ),
            property_enums.deep_view() == old(property_enums).deep_view() + custom_enum_models(
                variant_name@,
                dv.take(i as int),
            ),
        decreases n - i,
    {
        let key: &String = &props.props[i].0;
        let values: &Vec<String> = &props.props[i].1;
        proof {
            assert(dv[i as int].0 == props.props@[i as int].0@);
            assert(dv[i as int].1 == props.props@[i as int].1.deep_view());
            assert(dv[i as int].1.len() >= 1);
            assert(dv[i as int].1[0] == props.props@[i as int].1@[0]@);
        }
        let ty = PropValueType::guess_from_value(values[0].as_str());
        let ghost pe_before = property_enums.deep_view();
        if ty == PropValueType::Enum {
            create_property_enum(variant_name, key.as_str(), values, property_enums);
            proof {
                assert(property_enums.deep_view() =~= pe_before + seq![
                    property_enum_model(variant_name@, dv[i as int].0, dv[i as int].1),
                ]);
            }
        } else {
            proof {
                assert(property_enums.deep_view() =~= pe_before
                    + Seq::<PropertyEnumModel>::empty());
            }
        }
        proof {
            lemma_custom_enum_models_snoc(variant_name@, dv, i as int);
            assert(property_enums.deep_view() == old(property_enums).deep_view()
                + custom_enum_models(variant_name@, dv.take(i + 1)));
        }
        let field_name: String = correct_variable_name(key.as_str()).to_owned();
        let ty_name = type_name_exec(ty, variant_name, key.as_str());
        let domain = clone_strings(values);
        let f = Field { name: field_name, key: key.clone(), ty, ty_name, domain };
        proof {
            assert(f.deep_view() =~= field_model(variant_name@, dv[i as int].0, dv[i as int].1));
        }
        fields.push(f);
        i = i + 1;
    }
    let value_impl = generate_value_implementation(variant_name, props);
    let mut name: String = variant_name.to_owned();
    name.append("Data");
    let ds = DataStruct { name, fields, value_impl };
    proof {
        assert(ds.deep_view().fields =~= data_struct_model(variant_name@, dv).fields);
        assert(ds.deep_view() =~= data_struct_model(variant_name@, dv));
        assert(dv.take(n as int) =~= dv);
    }
    data_structs.push(ds);
    proof {
        assert(data_structs.deep_view() =~= old(data_structs).deep_view().push(
            data_struct_model(variant_name@, dv),
        ));
    }
}

/// Labels of the directional facing domain, in rank order.
pub open spec fn facing_labels_seq() -> Seq<Seq<char>> {
    seq!["north"@, "south"@, "east"@, "west"@, "up"@, "down"@]
}

/// Labels of the spatial axis domain, in rank order.
pub open spec fn axis_labels_seq() -> Seq<Seq<char>> {
    seq!["x"@, "y"@, "z"@]
}

/// Labels of the vertical half domain, in rank order.
pub open spec fn half_labels_seq() -> Seq<Seq<char>> {
    seq!["upper"@, "lower"@, "top"@, "bottom"@]
}

/// Labels of the surface face domain, in rank order.
pub open spec fn face_labels_seq() -> Seq<Seq<char>> {
    seq!["floor"@, "wall"@, "ceiling"@]
}

/// Labels of the stair and rail shape domain, in rank order.
pub open spec fn shape_labels_seq() -> Seq<Seq<char>> {
    seq![
        "straight"@,
        "inner_left"@,
        "inner_right"@,
        "outer_left"@,
        "ascending_north"@,
        "ascending_south"@,
        "ascending_east"@,
        "ascending_west"@,
        "north_east"@,
        "north_west"@,
        "south_east"@,
        "south_west"@,
        "north_south"@,
        "east_west"@,
    ]
}

/// Labels of the hinge side domain, in rank order.
pub open spec fn hinge_labels_seq() -> Seq<Seq<char>> {
    seq!["left"@, "right"@]
}

/// Labels of the bed part domain, in rank order.
pub open spec fn part_labels_seq() -> Seq<Seq<char>> {
    seq!["head"@, "foot"@]
}

/// The fixed library of seven well-known enumerations, emitted exactly once
/// per generation run regardless of how many blocks reference them.
pub open spec fn known_enum_models() -> Seq<PropertyEnumModel> {
    seq![
        PropertyEnumModel {
            name: "Facing"@,
            variants: seq!["North"@, "South"@, "East"@, "West"@, "Up"@, "Down"@],
            labels: facing_labels_seq(),
        },
        PropertyEnumModel {
            name: "Axis"@,
            variants: seq!["X"@, "Y"@, "Z"@],
            labels: axis_labels_seq(),
        },
        PropertyEnumModel {
            name: "Half"@,
            variants: seq!["Upper"@, "Lower"@, "Top"@, "Bottom"@],
            labels: half_labels_seq(),
        },
        PropertyEnumModel {
            name: "Face"@,
            variants: seq!["Floor"@, "Wall"@, "Ceiling"@],
            labels: face_labels_seq(),
        },
        PropertyEnumModel {
            name: "Hinge"@,
            variants: seq!["Left"@, "Right"@],
            labels: hinge_labels_seq(),
        },
        PropertyEnumModel {
            name: "Shape"@,
            variants: seq![
                "Straight"@,
                "InnerLeft"@,
                "InnerRight"@,
                "OuterLeft"@,
                "AscendingNorth"@,
                "AscendingSouth"@,
                "AscendingEast"@,
                "AscendingWest"@,
                "NorthEast"@,
                "NorthWest"@,
                "SouthEast"@,
                "SouthWest"@,
                "NorthSouth"@,
                "EastWest"@,
            ],
            labels: shape_labels_seq(),
        },
        PropertyEnumModel {
            name: "Part"@,
            variants: seq!["Head"@, "Foot"@],
            labels: part_labels_seq(),
        },
    ]
}

fn owned_pair(variants: &mut Vec<String>, labels: &mut Vec<String>, variant: &str, label: &str)
    ensures
        final(variants)@.len() == old(variants)@.len() + 1,
        final(labels)@.len() == old(labels)@.len() + 1,
        final(variants).deep_view() == old(variants).deep_view().push(variant@),
        final(labels).deep_view() == old(labels).deep_view().push(label@),
{
    variants.push(variant.to_owned());
    labels.push(label.to_owned());
    proof {
        assert(variants.deep_view() =~= old(variants).deep_view().push(variant@));
        assert(labels.deep_view() =~= old(labels).deep_view().push(label@));
    }
}

/// Emits the fixed library of well-known enumerations, shared across all
/// blocks that reference them.
pub fn generate_known_enums() -> (r: Vec<PropertyEnum>)
    ensures
        r.deep_view() == known_enum_models(),
{
    let mut r: Vec<PropertyEnum> = Vec::new();

    let mut fv: Vec<String> = Vec::new();
    let mut fl: Vec<String> = Vec::new();
    owned_pair(&mut fv, &mut fl, "North", "north");
    owned_pair(&mut fv, &mut fl, "South", "south");
    owned_pair(&mut fv, &mut fl, "East", "east");
    owned_pair(&mut fv, &mut fl, "West", "west");
    owned_pair(&mut fv, &mut fl, "Up", "up");
    owned_pair(&mut fv, &mut fl, "Down", "down");
    r.push(PropertyEnum { name: "Facing".to_owned(), variants: fv, labels: fl });

    let mut av: Vec<String> = Vec::new();
    let mut al: Vec<String> = Vec::new();
    owned_pair(&mut av, &mut al, "X", "x");
    owned_pair(&mut av, &mut al, "Y", "y");
    owned_pair(&mut av, &mut al, "Z", "z");
    r.push(PropertyEnum { name: "Axis".to_owned(), variants: av, labels: al });

    let mut hv: Vec<String> = Vec::new();
    let mut hl: Vec<String> = Vec::new();
    owned_pair(&mut hv, &mut hl, "Upper", "upper");
    owned_pair(&mut hv, &mut hl, "Lower", "lower");
    owned_pair(&mut hv, &mut hl, "Top", "top");
    owned_pair(&mut hv, &mut hl, "Bottom", "bottom");
    r.push(PropertyEnum { name: "Half".to_owned(), variants: hv, labels: hl });

    let mut cv: Vec<String> = Vec::new();
    let mut cl: Vec<String> = Vec::new();
    owned_pair(&mut cv, &mut cl, "Floor", "floor");
    owned_pair(&mut cv, &mut cl, "Wall", "wall");
    owned_pair(&mut cv, &mut cl, "Ceiling", "ceiling");
    r.push(PropertyEnum { name: "Face".to_owned(), variants: cv, labels: cl });

    let mut gv: Vec<String> = Vec::new();
    let mut gl: Vec<String> = Vec::new();
    owned_pair(&mut gv, &mut gl, "Left", "left");
    owned_pair(&mut gv, &mut gl, "Right", "right");
    r.push(PropertyEnum { name: "Hinge".to_owned(), variants: gv, labels: gl });

    let mut sv: Vec<String> = Vec::new();
    let mut sl: Vec<String> = Vec::new();
    owned_pair(&mut sv, &mut sl, "Straight", "straight");
    owned_pair(&mut sv, &mut sl, "InnerLeft", "inner_left");
    owned_pair(&mut sv, &mut sl, "InnerRight", "inner_right");
    owned_pair(&mut sv, &mut sl, "OuterLeft", "outer_left");
    owned_pair(&mut sv, &mut sl, "AscendingNorth", "ascending_north");
    owned_pair(&mut sv, &mut sl, "AscendingSouth", "ascending_south");
    owned_pair(&mut sv, &mut sl, "AscendingEast", "ascending_east");
    owned_pair(&mut sv, &mut sl, "AscendingWest", "ascending_west");
    owned_pair(&mut sv, &mut sl, "NorthEast", "north_east");
    owned_pair(&mut sv, &mut sl, "NorthWest", "north_west");
    owned_pair(&mut sv, &mut sl, "SouthEast", "south_east");
    owned_pair(&mut sv, &mut sl, "SouthWest", "south_west");
    owned_pair(&mut sv, &mut sl, "NorthSouth", "north_south");
    owned_pair(&mut sv, &mut sl, "EastWest", "east_west");
    r.push(PropertyEnum { name: "Shape".to_owned(), variants: sv, labels: sl });

    let mut pv: Vec<String> = Vec::new();
    let mut pl: Vec<String> = Vec::new();
    owned_pair(&mut pv, &mut pl, "Head", "head");
    owned_pair(&mut pv, &mut pl, "Foot", "foot");
    r.push(PropertyEnum { name: "Part".to_owned(), variants: pv, labels: pl });

    proof {
        assert(r.deep_view()[0].variants =~= known_enum_models()[0].variants);
        assert(r.deep_view()[0].labels =~= known_enum_models()[0].labels);
        assert(r.deep_view()[0] =~= known_enum_models()[0]);
        assert(r.deep_view()[1].variants =~= known_enum_models()[1].variants);
        assert(r.deep_view()[1].labels =~= known_enum_models()[1].labels);
        assert(r.deep_view()[1] =~= known_enum_models()[1]);
        assert(r.deep_view()[2].variants =~= known_enum_models()[2].variants);
        assert(r.deep_view()[2].labels =~= known_enum_models()[2].labels);
        assert(r.deep_view()[2] =~= known_enum_models()[2]);
        assert(r.deep_view()[3].variants =~= known_enum_models()[3].variants);
        assert(r.deep_view()[3].labels =~= known_enum_models()[3].labels);
        assert(r.deep_view()[3] =~= known_enum_models()[3]);
        assert(r.deep_view()[4].variants =~= known_enum_models()[4].variants);
        assert(r.deep_view()[4].labels =~= known_enum_models()[4].labels);
        assert(r.deep_view()[4] =~= known_enum_models()[4]);
        assert(r.deep_view()[5].variants =~= known_enum_models()[5].variants);
        assert(r.deep_view()[5].labels =~= known_enum_models()[5].labels);
        assert(r.deep_view()[5] =~= known_enum_models()[5]);
        assert(r.deep_view()[6].variants =~= known_enum_models()[6].variants);
        assert(r.deep_view()[6].labels =~= known_enum_models()[6].labels);
        assert(r.deep_view()[6] =~= known_enum_models()[6]);
        assert(r.deep_view() =~= known_enum_models());
    }
    r
}

/// One variant of the generated block sum type.
#[derive(Debug, Clone, PartialEq, Eq)]
pub struct EnumEntry {
    pub variant: String,
    pub has_data: bool,
}

/// The mathematical content of an [`EnumEntry`].
#[verifier::ext_equal]
pub struct EnumEntryModel {
    pub variant: Seq<char>,
    pub has_data: bool,
}

impl DeepView for EnumEntry {
    type V = EnumEntryModel;

    open spec fn deep_view(&self) -> EnumEntryModel {
        EnumEntryModel { variant: self.variant@, has_data: self.has_data }
    }
}

/// A block's native type id: its 0-based position in schema order.
#[derive(Debug, Clone, PartialEq, Eq)]
pub struct NativeTypeId {
    pub variant: String,
    pub id: usize,
}

/// The mathematical content of a [`NativeTypeId`].
#[verifier::ext_equal]
pub struct NativeTypeIdModel {
    pub variant: Seq<char>,
    pub id: int,
}

impl DeepView for NativeTypeId {
    type V = NativeTypeIdModel;

    open spec fn deep_view(&self) -> NativeTypeIdModel {
        NativeTypeIdModel { variant: self.variant@, id: self.id as int }
    }
}

/// The variant identifier of a block: its name with the 10-character
/// namespace prefix stripped, in CamelCase.
pub open spec fn variant_of(block_name: Seq<char>) -> Seq<char> {
    camel_of(block_name.skip(10))
}

/// A block's property set is well-formed for generation: every domain is
/// non-empty and the state count fits the machine word.
pub open spec fn wf_block(b: Option<Seq<(Seq<char>, Seq<Seq<char>>)>>) -> bool {
    match b {
        Option::Some(p) => wf_props(p) && props_fit(p),
        Option::None => true,
    }
}

/// The data structs one block contributes: one record when it has
/// properties, none otherwise.
pub open spec fn data_structs_of_block(
    variant: Seq<char>,
    b: Option<Seq<(Seq<char>, Seq<Seq<char>>)>>,
) -> Seq<DataStructModel> {
    match b {
        Option::Some(p) => seq![data_struct_model(variant, p)],
        Option::None => Seq::<DataStructModel>::empty(),
    }
}

/// The custom enumerations one block contributes.
pub open spec fn property_enums_of_block(
    variant: Seq<char>,
    b: Option<Seq<(Seq<char>, Seq<Seq<char>>)>>,
) -> Seq<PropertyEnumModel> {
    match b {
        Option::Some(p) => custom_enum_models(variant, p),
        Option::None => Seq::<PropertyEnumModel>::empty(),
    }
}

/// Processes one block in schema order: appends its sum-type variant and its
/// native type id, and, when it has properties, its record type and the
/// enumerations synthesized for its custom domains.
pub fn generate_block_code(
    block: &Block,
    block_name: &String,
    property_enums: &mut Vec<PropertyEnum>,
    data_structs: &mut Vec<DataStruct>,
    enum_entries: &mut Vec<EnumEntry>,
    native_type_id_entries: &mut Vec<NativeTypeId>,
    count: usize,
)
    requires
        block_name@.len() >= 10,
        wf_block(block.deep_view()),
    ensures
        final(enum_entries).deep_view() == old(enum_entries).deep_view().push(
            EnumEntryModel {
                variant: variant_of(block_name@),
                has_data: block.deep_view() is Some,
            },
        ),
        final(native_type_id_entries).deep_view() == old(native_type_id_entries).deep_view().push(
            NativeTypeIdModel { variant: variant_of(block_name@), id: count as int },
        ),
        final(data_structs).deep_view() == old(data_structs).deep_view() + data_structs_of_block(
            variant_of(block_name@),
            block.deep_view(),
        ),
        final(property_enums).deep_view() == old(property_enums).deep_view()
            + property_enums_of_block(variant_of(block_name@), block.deep_view()),
{
    let name_len: usize = block_name.as_str().unicode_len();
    let suffix = block_name.as_str().substring_char(10, name_len);
    proof {
        assert(suffix@ =~= block_name@.skip(10));
    }
    let variant_name = to_camel_case(suffix);
    match &block.properties {
        Option::Some(props) => {
            create_block_data_struct(variant_name.as_str(), props, property_enums, data_structs);
            proof {
                assert(data_structs.deep_view() =~= old(data_structs).deep_view()
                    + data_structs_of_block(variant_of(block_name@), block.deep_view()));
            }
            enum_entries.push(EnumEntry { variant: variant_name.clone(), has_data: true });
        },
        Option::None => {
            proof {
                assert(data_structs.deep_view() =~= old(data_structs).deep_view()
                    + data_structs_of_block(variant_of(block_name@), block.deep_view()));
                assert(property_enums.deep_view() =~= old(property_enums).deep_view()
                    + property_enums_of_block(variant_of(block_name@), block.deep_view()));
            }
            enum_entries.push(EnumEntry { variant: variant_name.clone(), has_data: false });
        },
    }
    native_type_id_entries.push(NativeTypeId { variant: variant_name, id: count });
    proof {
        assert(enum_entries.deep_view() =~= old(enum_entries).deep_view().push(
            EnumEntryModel {
                variant: variant_of(block_name@),
                has_data: block.deep_view() is Some,
            },
        ));
        assert(native_type_id_entries.deep_view() =~= old(
            native_type_id_entries,
        ).deep_view().push(
            NativeTypeIdModel { variant: variant_of(block_name@), id: count as int },
        ));
    }
}

/// Every block of a schema can be generated: names carry the 10-character
/// namespace prefix and every property set is well-formed.
pub open spec fn wf_report(
    blocks: Seq<(Seq<char>, Option<Seq<(Seq<char>, Seq<Seq<char>>)>>)>,
) -> bool {
    forall|i: int|
        0 <= i < blocks.len() ==> (#[trigger] blocks[i]).0.len() >= 10 && wf_block(blocks[i].1)
}

/// The sum-type variants of a schema, in schema order.
pub open spec fn enum_entries_of(
    blocks: Seq<(Seq<char>, Option<Seq<(Seq<char>, Seq<Seq<char>>)>>)>,
) -> Seq<EnumEntryModel>
    decreases blocks.len(),
{
    if blocks.len() == 0 {
        Seq::<EnumEntryModel>::empty()
    } else {
        enum_entries_of(blocks.drop_last()).push(
            EnumEntryModel {
                variant: variant_of(blocks.last().0),
                has_data: blocks.last().1 is Some,
            },
        )
    }
}

/// The native type ids of a schema: each block's 0-based position in schema
/// order.
pub open spec fn native_ids_of(
    blocks: Seq<(Seq<char>, Option<Seq<(Seq<char>, Seq<Seq<char>>)>>)>,
) -> Seq<NativeTypeIdModel>
    decreases blocks.len(),
{
    if blocks.len() == 0 {
        Seq::<NativeTypeIdModel>::empty()
    } else {
        native_ids_of(blocks.drop_last()).push(
            NativeTypeIdModel {
                variant: variant_of(blocks.last().0),
                id: blocks.len() - 1,
            },
        )
    }
}

/// The record types of a schema, in schema order.
pub open spec fn data_structs_of(
    blocks: Seq<(Seq<char>, Option<Seq<(Seq<char>, Seq<Seq<char>>)>>)>,
) -> Seq<DataStructModel>
    decreases blocks.len(),
{
    if blocks.len() == 0 {
        Seq::<DataStructModel>::empty()
    } else {
        data_structs_of(blocks.drop_last()) + data_structs_of_block(
            variant_of(blocks.last().0),
            blocks.last().1,
        )
    }
}

/// The synthesized custom enumerations of a schema, in schema order.
pub open spec fn property_enums_of(
    blocks: Seq<(Seq<char>, Option<Seq<(Seq<char>, Seq<Seq<char>>)>>)>,
) -> Seq<PropertyEnumModel>
    decreases blocks.len(),
{
    if blocks.len() == 0 {
        Seq::<PropertyEnumModel>::empty()
    } else {
        property_enums_of(blocks.drop_last()) + property_enums_of_block(
            variant_of(blocks.last().0),
            blocks.last().1,
        )
    }
}

/// The generator's intermediate representation of one schema.
#[derive(Debug, Clone, PartialEq, Eq)]
pub struct StructuralModel {
    pub enum_entries: Vec<EnumEntry>,
    pub native_type_ids: Vec<NativeTypeId>,
    pub data_structs: Vec<DataStruct>,
    pub property_enums: Vec<PropertyEnum>,
    pub known_enums: Vec<PropertyEnum>,
}

/// The mathematical content of a [`StructuralModel`].
#[verifier::ext_equal]
pub struct StructuralModelModel {
    pub enum_entries: Seq<EnumEntryModel>,
    pub native_type_ids: Seq<NativeTypeIdModel>,
    pub data_structs: Seq<DataStructModel>,
    pub property_enums: Seq<PropertyEnumModel>,
    pub known_enums: Seq<PropertyEnumModel>,
}

impl DeepView for StructuralModel {
    type V = StructuralModelModel;

    open spec fn deep_view(&self) -> StructuralModelModel {
        StructuralModelModel {
            enum_entries: self.enum_entries.deep_view(),
            native_type_ids: self.native_type_ids.deep_view(),
            data_structs: self.data_structs.deep_view(),
            property_enums: self.property_enums.deep_view(),
            known_enums: self.known_enums.deep_view(),
        }
    }
}

/// The structural model a schema determines: a pure function of the schema
/// alone, so repeated generation runs agree exactly.
pub open spec fn structural_model_of(
    blocks: Seq<(Seq<char>, Option<Seq<(Seq<char>, Seq<Seq<char>>)>>)>,
) -> StructuralModelModel {
    StructuralModelModel {
        enum_entries: enum_entries_of(blocks),
        native_type_ids: native_ids_of(blocks),
        data_structs: data_structs_of(blocks),
        property_enums: property_enums_of(blocks),
        known_enums: known_enum_models(),
    }
}

/// Builds the full structural model of a schema: one pass over the blocks in
/// declared order, then the fixed well-known enumeration library.
pub fn build_structural_model(report: &BlockReport) -> (m: StructuralModel)
    requires
        wf_report(report.deep_view()),
    ensures
        m.deep_view() == structural_model_of(report.deep_view()),
{
    let ghost dv = report.deep_view();
    let n: usize = report.blocks.len();
    let mut enum_entries: Vec<EnumEntry> = Vec::new();
    let mut native_type_ids: Vec<NativeTypeId> = Vec::new();
    let mut data_structs: Vec<DataStruct> = Vec::new();
    let mut property_enums: Vec<PropertyEnum> = Vec::new();
    proof {
        assert(dv.take(0) =~= Seq::<
            (Seq<char>, Option<Seq<(Seq<char>, Seq<Seq<char>>)>>),
        >::empty());
    }
    let mut count: usize = 0;
    while count < n
        invariant
            0 <= count <= n,
            n == report.blocks@.len(),
            dv == report.deep_view(),
            dv.len() == n,
            wf_report(dv),
            enum_entries.deep_view() == enum_entries_of(dv.take(count as int)),
            native_type_ids.deep_view() == native_ids_of(dv.take(count as int)),
            data_structs.deep_view() == data_structs_of(dv.take(count as int)),
            property_enums.deep_view() == property_enums_of(dv.take(count as int)),
        decreases n - count,
    {
        let block_name: &String = &report.blocks[count].0;
        let block: &Block = &report.blocks[count].1;
        proof {
            assert(dv[count as int].0 == block_name@);
            assert(dv[count as int].1 == block.deep_view());
            assert(dv.take(count + 1).drop_last() =~= dv.take(count as int));
            assert(dv.take(count + 1).last() == dv[count as int]);
        }
        generate_block_code(
            block,
            block_name,
            &mut property_enums,
            &mut data_structs,
            &mut enum_entries,
            &mut native_type_ids,
            count,
        );
        count = count + 1;
    }
    let known_enums = generate_known_enums();
    let m = StructuralModel {
        enum_entries,
        native_type_ids,
        data_structs,
        property_enums,
        known_enums,
    };
    proof {
        assert(dv.take(n as int) =~= dv);
        assert(m.deep_view() =~= structural_model_of(dv));
    }
    m
}

proof fn lemma_concat_right_cancel(a: Seq<char>, b: Seq<char>, c: Seq<char>)
    requires
        a != b,
    ensures
        a + c != b + c,
{
    if a.len() != b.len() {
        assert((a + c).len() != (b + c).len());
    } else {
        assert(exists|i: int| 0 <= i < a.len() && a[i] != b[i]) by {
            if forall|i: int| 0 <= i < a.len() ==> a[i] == b[i] {
                assert(a =~= b);
            }
        };
        let i = choose|i: int| 0 <= i < a.len() && a[i] != b[i];
        assert((a + c)[i] != (b + c)[i]);
    }
}

/// Naming collision freedom: two blocks with distinct variant identifiers
/// synthesize differently-named enumerations for a same-named custom
/// property, whatever the two value domains, because each enumeration name
/// starts with its block's variant identifier.
pub proof fn lemma_custom_enum_naming_collision_free(
    variant1: Seq<char>,
    variant2: Seq<char>,
    prop: Seq<char>,
    values1: Seq<Seq<char>>,
    values2: Seq<Seq<char>>,
)
    requires
        variant1 != variant2,
    ensures
        property_enum_model(variant1, prop, values1).name != property_enum_model(
            variant2,
            prop,
            values2,
        ).name,
{
    lemma_concat_right_cancel(variant1, variant2, camel_of(prop));
}

/// Naming collision freedom over raw schema names: two blocks whose names
/// differ past the namespace prefix, both well-formed snake_case,
/// synthesize differently-named enumerations for a same-named custom
/// property. (Without well-formedness this can fail: names that differ only
/// by an underscore before a digit collapse to one variant identifier.)
pub proof fn lemma_block_naming_collision_free(
    name1: Seq<char>,
    name2: Seq<char>,
    prop: Seq<char>,
    values1: Seq<Seq<char>>,
    values2: Seq<Seq<char>>,
)
    requires
        name1.len() >= 10,
        name2.len() >= 10,
        crate::names::wf_snake(name1.skip(10)),
        crate::names::wf_snake(name2.skip(10)),
        name1.skip(10) != name2.skip(10),
    ensures
        property_enum_model(variant_of(name1), prop, values1).name != property_enum_model(
            variant_of(name2),
            prop,
            values2,
        ).name,
{
    if variant_of(name1) == variant_of(name2) {
        crate::names::lemma_camel_injective(name1.skip(10), name2.skip(10));
    }
    lemma_concat_right_cancel(variant_of(name1), variant_of(name2), camel_of(prop));
}

/// Determinism: the structural model is a pure function of the schema's
/// mathematical content, so any two generation runs over one schema agree
/// exactly, down to every name, id, field and multiplier.
pub proof fn lemma_generation_deterministic(
    blocks: Seq<(Seq<char>, Option<Seq<(Seq<char>, Seq<Seq<char>>)>>)>,
    m1: StructuralModelModel,
    m2: StructuralModelModel,
)
    requires
        m1 == structural_model_of(blocks),
        m2 == structural_model_of(blocks),
    ensures
        m1 == m2,
{
}

} // verus!
