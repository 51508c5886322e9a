//! Definitions of the types that cross the boundary.

use crate::files;
use crate::files::{BindingsFile, Contents};
use crate::formatting;
use crate::formatting::{format_items, format_type};
use crate::order;
use crate::order::OrderedSet;
use crate::text;
use crate::text::{is_named, join_strings};
use crate::types;
use crate::types::{
    format_name_with_generics, EnumOptions, Field, GenericArgument, Type, Variant,
};
use vstd::prelude::*;
use vstd::string::StringExecFns;

verus! {

/// In which directions a type crosses the boundary.
#[derive(Clone, Copy, Debug, PartialEq, Eq, Structural)]
pub enum SerializationRequirements {
    Serialize,
    Deserialize,
    Both,
}

/// The directions in which a member of either set crosses the boundary.
pub open spec fn requirements(
    ty: types::TypeModel,
    serializable_types: Set<types::TypeModel>,
    deserializable_types: Set<types::TypeModel>,
) -> SerializationRequirements {
    if !deserializable_types.contains(ty) {
        SerializationRequirements::Serialize
    } else if !serializable_types.contains(ty) {
        SerializationRequirements::Deserialize
    } else {
        SerializationRequirements::Both
    }
}

impl SerializationRequirements {
    /// Finds out in which directions a type crosses the boundary.
    pub fn from_sets(
        ty: &Type,
        serializable_types: &OrderedSet<Type>,
        deserializable_types: &OrderedSet<Type>,
    ) -> (reqs: Self)
        requires
            serializable_types@.contains(ty@) || deserializable_types@.contains(ty@),
        ensures
            reqs == requirements(ty@, serializable_types@, deserializable_types@),
    {
        let needs_serialization = serializable_types.contains(ty);
        let needs_deserialization = deserializable_types.contains(ty);
        match (needs_serialization, needs_deserialization) {
            (true, true) => SerializationRequirements::Both,
            (true, false) => SerializationRequirements::Serialize,
            _ => SerializationRequirements::Deserialize,
        }
    }
}

/// The traits of serde that a type derives.
pub open spec fn derives(reqs: SerializationRequirements) -> Seq<char> {
    match reqs {
        SerializationRequirements::Serialize => "Serialize"@,
        SerializationRequirements::Deserialize => "Deserialize"@,
        SerializationRequirements::Both => "Serialize, Deserialize"@,
    }
}

/// Names the traits of serde that a type derives.
fn format_derives(reqs: &SerializationRequirements) -> (formatted: &'static str)
    ensures
        formatted@ == derives(*reqs),
{
    match reqs {
        SerializationRequirements::Serialize => "Serialize",
        SerializationRequirements::Deserialize => "Deserialize",
        SerializationRequirements::Both => "Serialize, Deserialize",
    }
}

/// The paths below `std` that a type's definition takes imports from.
pub open spec fn std_types(ty: types::TypeModel) -> Set<Seq<char>>
    decreases ty,
{
    match ty {
        types::TypeModel::Alias(_, ty) => std_types(*ty),
        types::TypeModel::Container(name, ty) => if name == "Rc"@ {
            std_types(*ty).insert("rc::Rc"@)
        } else {
            std_types(*ty)
        },
        types::TypeModel::Custom(_) => Set::empty(),
        types::TypeModel::Enum(_, _, variants, _) => variants_std_types(variants),
        types::TypeModel::GenericArgument(arg) => match arg.ty {
            Some(ty) => std_types(ty),
            None => Set::empty(),
        },
        types::TypeModel::List(name, ty) => if name == "BTreeSet"@ || name == "HashSet"@ {
            std_types(*ty).insert("collections::"@ + name)
        } else {
            std_types(*ty)
        },
        types::TypeModel::Mapping(name, key, value) => if name == "BTreeMap"@ || name
            == "HashMap"@ {
            std_types(*key).union(std_types(*value)).insert("collections::"@ + name)
        } else {
            std_types(*key).union(std_types(*value))
        },
        types::TypeModel::Primitive(_) => Set::empty(),
        types::TypeModel::String => Set::empty(),
        types::TypeModel::Struct(_, _, fields) => fields_std_types(fields),
        types::TypeModel::Tuple(items) => items_std_types(items),
        types::TypeModel::Unit => Set::empty(),
    }
}

/// The paths below `std` that any of the variants takes imports from.
pub open spec fn variants_std_types(variants: Seq<types::VariantModel>) -> Set<Seq<char>>
    decreases variants,
{
    if variants.len() == 0 {
        Set::empty()
    } else {
        variants_std_types(variants.drop_last()).union(std_types(variants.last().ty))
    }
}

/// The paths below `std` that any of the fields takes imports from.
pub open spec fn fields_std_types(fields: Seq<types::FieldModel>) -> Set<Seq<char>>
    decreases fields,
{
    if fields.len() == 0 {
        Set::empty()
    } else {
        fields_std_types(fields.drop_last()).union(std_types(fields.last().ty))
    }
}

/// The paths below `std` that any of the items takes imports from.
pub open spec fn items_std_types(items: Seq<types::TypeModel>) -> Set<Seq<char>>
    decreases items,
{
    if items.len() == 0 {
        Set::empty()
    } else {
        items_std_types(items.drop_last()).union(std_types(items.last()))
    }
}

/// Collects the paths below `std` that a type's definition takes imports from.
pub fn collect_std_types(ty: &Type) -> (collected: OrderedSet<String>)
    ensures
        collected@ == std_types(ty@),
    decreases ty,
{
    match ty {
        Type::Alias(_, ty) => collect_std_types(ty),
        Type::Container(name, ty) => {
            let mut collected = collect_std_types(ty);
            if is_named(name, "Rc") {
                collected.insert("rc::Rc".to_owned());
            }
            collected
        },
        Type::Custom(_) => OrderedSet::new(),
        Type::Enum(_, _, variants, _) => collect_from_variants(variants),
        Type::GenericArgument(arg) => {
            assert(ty@ == types::TypeModel::GenericArgument(Box::new((**arg)@)));
            match &arg.ty {
                Some(ty) => collect_std_types(ty),
                None => OrderedSet::new(),
            }
        },
        Type::List(name, ty) => {
            let mut collected = collect_std_types(ty);
            if is_named(name, "BTreeSet") || is_named(name, "HashSet") {
                collected.insert("collections::".to_owned().concat(name.as_str()));
            }
            collected
        },
        Type::Mapping(name, key, value) => {
            let mut collected = collect_std_types(key);
            collected.append(collect_std_types(value));
            if is_named(name, "BTreeMap") || is_named(name, "HashMap") {
                collected.insert("collections::".to_owned().concat(name.as_str()));
            }
            collected
        },
        Type::Primitive(_) => OrderedSet::new(),
        Type::String => OrderedSet::new(),
        Type::Struct(_, _, fields) => collect_from_fields(fields),
        Type::Tuple(items) => collect_from_items(items),
        Type::Unit => OrderedSet::new(),
    }
}

/// Collects the paths below `std` that any of the variants takes imports from.
fn collect_from_variants(variants: &Vec<Variant>) -> (collected: OrderedSet<String>)
    ensures
        collected@ == variants_std_types(types::variant_models(variants@)),
    decreases variants,
{
    let ghost list = types::variant_models(variants@);
    proof {
        types::lemma_variant_models(variants@);
    }
    let mut collected = OrderedSet::new();
    for i in 0..variants.len()
        invariant
            list.len() == variants.len(),
            forall|j: int| 0 <= j < list.len() ==> list[j] == #[trigger] variants[j]@,
            collected@ == variants_std_types(list.take(i as int)),
    {
        let item = &variants[i];
        assert(decreases_to!(variants => item));
        collected.append(collect_std_types(&item.ty));
        assert(list.take(i + 1).drop_last() =~= list.take(i as int));
        assert(list.take(i + 1).last() == item@);
    }
    assert(list.take(list.len() as int) =~= list);
    collected
}

/// Collects the paths below `std` that any of the fields takes imports from.
fn collect_from_fields(fields: &Vec<Field>) -> (collected: OrderedSet<String>)
    ensures
        collected@ == fields_std_types(types::field_models(fields@)),
    decreases fields,
{
    let ghost list = types::field_models(fields@);
    proof {
        types::lemma_field_models(fields@);
    }
    let mut collected = OrderedSet::new();
    for i in 0..fields.len()
        invariant
            list.len() == fields.len(),
            forall|j: int| 0 <= j < list.len() ==> list[j] == #[trigger] fields[j]@,
            collected@ == fields_std_types(list.take(i as int)),
    {
        let item = &fields[i];
        assert(decreases_to!(fields => item));
        collected.append(collect_std_types(&item.ty));
        assert(list.take(i + 1).drop_last() =~= list.take(i as int));
        assert(list.take(i + 1).last() == item@);
    }
    assert(list.take(list.len() as int) =~= list);
    collected
}

/// Collects the paths below `std` that any of the items takes imports from.
fn collect_from_items(items: &Vec<Type>) -> (collected: OrderedSet<String>)
    ensures
        collected@ == items_std_types(types::type_models(items@)),
    decreases items,
{
    let ghost list = types::type_models(items@);
    proof {
        types::lemma_type_models(items@);
    }
    let mut collected = OrderedSet::new();
    for i in 0..items.len()
        invariant
            list.len() == items.len(),
            forall|j: int| 0 <= j < list.len() ==> list[j] == #[trigger] items[j]@,
            collected@ == items_std_types(list.take(i as int)),
    {
        let item = &items[i];
        assert(decreases_to!(items => item));
        collected.append(collect_std_types(item));
        assert(list.take(i + 1).drop_last() =~= list.take(i as int));
        assert(list.take(i + 1).last() == item@);
    }
    assert(list.take(list.len() as int) =~= list);
    collected
}

/// A named value with its type, as fields are declared.
pub open spec fn declaration(field: types::FieldModel) -> Seq<char> {
    field.name + ": "@ + formatting::type_text(field.ty)
}

/// Whether a variant can have this type.
pub open spec fn is_variant_type(ty: types::TypeModel) -> bool {
    ty is Unit || ty is Struct || ty is Tuple
}

/// A variant in the definition of its enum. Other types than `is_variant_type` tells have none.
pub open spec fn variant_text(variant: types::VariantModel) -> Seq<char> {
    match variant.ty {
        types::TypeModel::Unit => "    "@ + variant.name + ","@,
        types::TypeModel::Struct(_, _, fields) =>
            "    #[serde(rename_all = \"camelCase\")]\n    "@ + variant.name + " { "@ + text::join(
            fields.map_values(|field: types::FieldModel| declaration(field)),
            ", "@,
        ) + " },"@,
        types::TypeModel::Tuple(items) => "    "@ + variant.name + "("@ + text::join(
            formatting::type_texts(items),
            ", "@,
        ) + "),"@,
        _ => Seq::empty(),
    }
}

/// The definition of an enum.
pub open spec fn enum_text(
    name: Seq<char>,
    generic_args: Seq<types::GenericModel>,
    variants: Seq<types::VariantModel>,
    attrs: Seq<Seq<char>>,
    reqs: SerializationRequirements,
) -> Seq<char> {
    "#[derive(Clone, Debug, PartialEq, "@ + derives(reqs) + ")]\n#[serde("@ + text::join(attrs, ", "@)
        + ")]\npub enum "@ + types::with_arguments(name, types::parameter_names(generic_args))
        + " {\n"@ + text::join(
        variants.map_values(|variant: types::VariantModel| variant_text(variant)),
        "\n"@,
    ) + "\n}"@
}

/// A field in the definition of its struct. An optional one is left out of what is serialized
/// while it holds nothing.
pub open spec fn field_text(field: types::FieldModel) -> Seq<char> {
    let skip = match field.ty {
        types::TypeModel::Enum(name, _, _, _) => if name == "Option"@ {
            "    #[serde(skip_serializing_if = \"Option::is_none\")]\n"@
        } else {
            ""@
        },
        _ => ""@,
    };
    skip + "    pub "@ + field.name + ": "@ + formatting::type_text(field.ty) + ","@
}

/// The definition of a struct.
pub open spec fn struct_text(
    name: Seq<char>,
    generic_args: Seq<types::GenericModel>,
    fields: Seq<types::FieldModel>,
    reqs: SerializationRequirements,
) -> Seq<char> {
    "#[derive(Clone, Debug, PartialEq, "@ + derives(reqs)
        + ")]\n#[serde(rename_all = \"camelCase\")]\npub struct "@ + types::with_arguments(
        name,
        types::parameter_names(generic_args),
    ) + " {\n"@ + text::join(
        fields.map_values(|field: types::FieldModel| field_text(field)),
        "\n"@,
    ) + "\n}"@
}

/// Writes the fields of a variant.
fn format_declarations(fields: &Vec<Field>) -> (formatted: Vec<String>)
    ensures
        text::texts(formatted@) == types::field_models(fields@).map_values(
            |field: types::FieldModel| declaration(field),
        ),
{
    let ghost list = types::field_models(fields@);
    proof {
        types::lemma_field_models(fields@);
    }
    let mut formatted: Vec<String> = Vec::new();
    for i in 0..fields.len()
        invariant
            list.len() == fields.len(),
            forall|j: int| 0 <= j < list.len() ==> list[j] == #[trigger] fields[j]@,
            formatted.len() == i,
            forall|j: int| 0 <= j < i ==> #[trigger] formatted[j]@ == declaration(list[j]),
    {
        let field = &fields[i];
        assert(list[i as int] == field@);
        formatted.push(
            field.name.clone().concat(": ").concat(format_type(&field.ty).as_str()),
        );
    }
    assert(text::texts(formatted@) =~= list.map_values(
        |field: types::FieldModel| declaration(field),
    ));
    formatted
}

/// Writes a variant of an enum.
fn format_variant(variant: &Variant) -> (formatted: String)
    requires
        is_variant_type(variant@.ty),
    ensures
        formatted@ == variant_text(variant@),
{
    match &variant.ty {
        Type::Struct(_, _, fields) => {
            let fields = format_declarations(fields);
            "    #[serde(rename_all = \"camelCase\")]\n    ".to_owned().concat(
                variant.name.as_str(),
            ).concat(" { ").concat(join_strings(&fields, ", ").as_str()).concat(" },")
        },
        Type::Tuple(items) => {
            let items = format_items(items);
            "    ".to_owned().concat(variant.name.as_str()).concat("(").concat(
                join_strings(&items, ", ").as_str(),
            ).concat("),")
        },
        _ => "    ".to_owned().concat(variant.name.as_str()).concat(","),
    }
}

/// Writes the definition of an enum.
pub fn create_enum_definition(
    name: &str,
    generic_args: &Vec<GenericArgument>,
    variants: &Vec<Variant>,
    serde_reqs: &SerializationRequirements,
    opts: &EnumOptions,
) -> (definition: String)
    requires
        forall|i: int| 0 <= i < variants.len() ==> is_variant_type((#[trigger] variants[i])@.ty),
    ensures
        definition@ == enum_text(
            name@,
            types::generic_models(generic_args@),
            types::variant_models(variants@),
            opts@,
            *serde_reqs,
        ),
{
    let ghost list = types::variant_models(variants@);
    proof {
        types::lemma_variant_models(variants@);
    }
    let mut formatted: Vec<String> = Vec::new();
    for i in 0..variants.len()
        invariant
            list.len() == variants.len(),
            forall|j: int| 0 <= j < list.len() ==> list[j] == #[trigger] variants[j]@,
            forall|j: int|
                0 <= j < variants.len() ==> is_variant_type((#[trigger] variants[j])@.ty),
            formatted.len() == i,
            forall|j: int| 0 <= j < i ==> #[trigger] formatted[j]@ == variant_text(list[j]),
    {
        assert(list[i as int] == variants[i as int]@);
        formatted.push(format_variant(&variants[i]));
    }
    assert(text::texts(formatted@) =~= list.map_values(
        |variant: types::VariantModel| variant_text(variant),
    ));
    "#[derive(Clone, Debug, PartialEq, ".to_owned().concat(format_derives(serde_reqs)).concat(
        ")]\n#[serde(",
    ).concat(join_strings(&opts.to_serde_attrs(), ", ").as_str()).concat(")]\npub enum ").concat(
        format_name_with_generics(name, generic_args).as_str(),
    ).concat(" {\n").concat(join_strings(&formatted, "\n").as_str()).concat("\n}")
}

/// Writes a field of a struct.
fn format_field(field: &Field) -> (formatted: String)
    ensures
        formatted@ == field_text(field@),
{
    let skip = match &field.ty {
        Type::Enum(name, _, _, _) => if is_named(name, "Option") {
            "    #[serde(skip_serializing_if = \"Option::is_none\")]\n"
        } else {
            ""
        },
        _ => "",
    };
    skip.to_owned().concat("    pub ").concat(field.name.as_str()).concat(": ").concat(
        format_type(&field.ty).as_str(),
    ).concat(",")
}

/// Writes the definition of a struct.
pub fn create_struct_definition(
    name: &str,
    generic_args: &Vec<GenericArgument>,
    fields: &Vec<Field>,
    serde_reqs: &SerializationRequirements,
) -> (definition: String)
    ensures
        definition@ == struct_text(
            name@,
            types::generic_models(generic_args@),
            types::field_models(fields@),
            *serde_reqs,
        ),
{
    let ghost list = types::field_models(fields@);
    proof {
        types::lemma_field_models(fields@);
    }
    let mut formatted: Vec<String> = Vec::new();
    for i in 0..fields.len()
        invariant
            list.len() == fields.len(),
            forall|j: int| 0 <= j < list.len() ==> list[j] == #[trigger] fields[j]@,
            formatted.len() == i,
            forall|j: int| 0 <= j < i ==> #[trigger] formatted[j]@ == field_text(list[j]),
    {
        assert(list[i as int] == fields[i as int]@);
        formatted.push(format_field(&fields[i]));
    }
    assert(text::texts(formatted@) =~= list.map_values(
        |field: types::FieldModel| field_text(field),
    ));
    "#[derive(Clone, Debug, PartialEq, ".to_owned().concat(format_derives(serde_reqs)).concat(
        ")]\n#[serde(rename_all = \"camelCase\")]\npub struct ",
    ).concat(format_name_with_generics(name, generic_args).as_str()).concat(" {\n").concat(
        join_strings(&formatted, "\n").as_str(),
    ).concat("\n}")
}

/// The definition of a type. `Result` has its own in Rust, and so have types that are neither an
/// alias, an enum nor a struct.
pub open spec fn definition(ty: types::TypeModel, reqs: SerializationRequirements) -> Option<
    Seq<char>,
> {
    match ty {
        types::TypeModel::Alias(name, ty) => Some(
            "pub type "@ + name + " = "@ + formatting::type_text(*ty) + ";"@,
        ),
        types::TypeModel::Enum(name, generic_args, variants, attrs) => if name == "Result"@ {
            None
        } else {
            Some(enum_text(name, generic_args, variants, attrs, reqs))
        },
        types::TypeModel::Struct(name, generic_args, fields) => Some(
            struct_text(name, generic_args, fields, reqs),
        ),
        _ => None,
    }
}

/// The definition of a member of either set.
pub open spec fn member_definition(
    ty: types::TypeModel,
    serializable_types: Set<types::TypeModel>,
    deserializable_types: Set<types::TypeModel>,
) -> Option<Seq<char>> {
    definition(ty, requirements(ty, serializable_types, deserializable_types))
}

/// The definitions of those types of a list that have one, in the order of the list.
pub open spec fn definitions(
    list: Seq<types::TypeModel>,
    serializable_types: Set<types::TypeModel>,
    deserializable_types: Set<types::TypeModel>,
) -> Seq<Seq<char>> {
    list.filter(
        |ty: types::TypeModel|
            member_definition(ty, serializable_types, deserializable_types) is Some,
    ).map_values(
        |ty: types::TypeModel|
            member_definition(ty, serializable_types, deserializable_types)->0,
    )
}

/// The last type of a list adds its definition behind those of the others.
pub proof fn lemma_definitions(
    list: Seq<types::TypeModel>,
    serializable_types: Set<types::TypeModel>,
    deserializable_types: Set<types::TypeModel>,
)
    ensures
        list.len() == 0 ==> definitions(list, serializable_types, deserializable_types).len() == 0,
        list.len() > 0 ==> definitions(list, serializable_types, deserializable_types) == ({
            let before = definitions(list.drop_last(), serializable_types, deserializable_types);
            match member_definition(list.last(), serializable_types, deserializable_types) {
                Some(definition) => before.push(definition),
                None => before,
            }
        }),
{
    reveal(Seq::filter);
    if list.len() > 0 {
        let before = definitions(list.drop_last(), serializable_types, deserializable_types);
        match member_definition(list.last(), serializable_types, deserializable_types) {
            Some(definition) => {
                assert(definitions(list, serializable_types, deserializable_types) =~= before.push(
                    definition,
                ));
            },
            None => {
                assert(definitions(list, serializable_types, deserializable_types) =~= before);
            },
        }
    }
}

/// The paths below `std` that the definitions of a set of types take imports from.
pub open spec fn std_types_of(set: Set<types::TypeModel>) -> Set<Seq<char>> {
    Set::new(
        |path: Seq<char>|
            exists|ty: types::TypeModel| set.contains(ty) && #[trigger] std_types(ty).contains(path),
    )
}

/// The import of paths below `std`.
pub open spec fn imports_text(paths: Seq<Seq<char>>) -> Seq<char> {
    if paths.len() == 0 {
        ""@
    } else if paths.len() == 1 {
        "use std::"@ + paths[0] + ";\n"@
    } else {
        "use std::{"@ + text::join(paths, ", "@) + "};\n"@
    }
}

/// The file that defines the types of both sets, in ascending order.
pub open spec fn types_text(
    serializable_types: Set<types::TypeModel>,
    deserializable_types: Set<types::TypeModel>,
) -> Seq<char> {
    let all_types = serializable_types.union(deserializable_types);
    "use serde::{Deserialize, Serialize};\n"@ + imports_text(
        order::listing::<String>(std_types_of(all_types)),
    ) + "\n"@ + text::join(
        definitions(
            order::listing::<Type>(all_types),
            serializable_types,
            deserializable_types,
        ),
        "\n\n"@,
    ) + "\n"@
}

/// The file of `types_text`, at its path.
pub open spec fn types_file(
    serializable_types: Set<types::TypeModel>,
    deserializable_types: Set<types::TypeModel>,
    path: Seq<char>,
) -> files::FileModel {
    files::FileModel {
        path: path + "/types.rs"@,
        contents: files::ContentsModel::Text(types_text(serializable_types, deserializable_types)),
    }
}

/// Whether each variant that the definition of a type lists has a type that a variant can have.
pub open spec fn is_definable(ty: types::TypeModel) -> bool {
    match ty {
        types::TypeModel::Enum(name, _, variants, _) => name == "Result"@ || forall|i: int|
            0 <= i < variants.len() ==> is_variant_type((#[trigger] variants[i]).ty),
        _ => true,
    }
}

/// Whether all members of a set are definable.
pub open spec fn are_definable(set: Set<types::TypeModel>) -> bool {
    forall|ty: types::TypeModel| #[trigger] set.contains(ty) ==> is_definable(ty)
}

/// Whether `unsupported` is the type of the first variant that keeps a type from being definable.
pub open spec fn is_first_unsupported(
    ty: types::TypeModel,
    unsupported: types::TypeModel,
) -> bool {
    match ty {
        types::TypeModel::Enum(name, _, variants, _) => name != "Result"@ && exists|i: int|
            {
                &&& 0 <= i < variants.len()
                &&& (#[trigger] variants[i]).ty == unsupported
                &&& !is_variant_type(unsupported)
                &&& forall|j: int| 0 <= j < i ==> is_variant_type((#[trigger] variants[j]).ty)
            },
        _ => false,
    }
}

/// Finds the first variant that keeps a type from being definable.
fn first_unsupported(ty: &Type) -> (found: Option<&Type>)
    ensures
        match found {
            Some(unsupported) => !is_definable(ty@) && is_first_unsupported(ty@, unsupported@),
            None => is_definable(ty@),
        },
{
    match ty {
        Type::Enum(name, _, variants, _) => {
            if is_named(name, "Result") {
                return None;
            }
            let ghost list = types::variant_models(variants@);
            proof {
                types::lemma_variant_models(variants@);
            }
            for i in 0..variants.len()
                invariant
                    name@ != "Result"@,
                    ty@ matches types::TypeModel::Enum(m, _, l, _) && m == name@ && l == list,
                    list.len() == variants.len(),
                    forall|j: int| 0 <= j < list.len() ==> list[j] == #[trigger] variants[j]@,
                    forall|j: int| 0 <= j < i ==> is_variant_type((#[trigger] list[j]).ty),
            {
                assert(list[i as int] == variants[i as int]@);
                match &variants[i].ty {
                    Type::Unit | Type::Struct(_, _, _) | Type::Tuple(_) => {},
                    unsupported => {
                        assert(list[i as int].ty == unsupported@);
                        return Some(unsupported);
                    },
                }
            }
            None
        },
        _ => None,
    }
}

/// Finds the first variant for which no definition can be written, in the order in which the
/// types of both sets are defined. Bindings can be generated where there is none.
pub fn find_unsupported_variant<'a>(
    serializable_types: &'a OrderedSet<Type>,
    deserializable_types: &'a OrderedSet<Type>,
) -> (found: Option<&'a Type>)
    ensures
        found is None <==> are_definable(serializable_types@) && are_definable(
            deserializable_types@,
        ),
        found matches Some(unsupported) ==> ({
            let list = order::listing::<Type>(serializable_types@.union(deserializable_types@));
            exists|i: int|
                {
                    &&& 0 <= i < list.len()
                    &&& is_first_unsupported(#[trigger] list[i], unsupported@)
                    &&& forall|j: int| 0 <= j < i ==> is_definable(#[trigger] list[j])
                }
        }),
{
    let all_types = unite(serializable_types, deserializable_types);
    let members = all_types.members();
    let ghost all = serializable_types@.union(deserializable_types@);
    let ghost list = order::models(members@);
    proof {
        lemma_listing_of_references(members@);
    }
    for i in 0..members.len()
        invariant
            list == order::models(members@),
            list.to_set() == all,
            list == order::listing::<Type>(all),
            all == serializable_types@.union(deserializable_types@),
            forall|j: int| 0 <= j < i ==> is_definable(#[trigger] list[j]),
    {
        let ty: &'a Type = members[i];
        assert(list[i as int] == ty@);
        let found = first_unsupported(ty);
        if found.is_some() {
            assert(all.contains(list[i as int]));
            return found;
        }
    }
    assert forall|ty: types::TypeModel| #[trigger] all.contains(ty) implies is_definable(ty) by {
        assert(list.to_set().contains(ty));
        let j = choose|j: int| 0 <= j < list.len() && list[j] == ty;
        assert(is_definable(list[j]));
    }
    assert(forall|ty: types::TypeModel| #[trigger]
        serializable_types@.contains(ty) ==> all.contains(ty));
    assert(forall|ty: types::TypeModel| #[trigger]
        deserializable_types@.contains(ty) ==> all.contains(ty));
    None
}

/// The members of both sets.
fn unite<'a>(first: &'a OrderedSet<Type>, second: &'a OrderedSet<Type>) -> (all: OrderedSet<
    &'a Type,
>)
    ensures
        all@ == first@.union(second@),
{
    let mut all: OrderedSet<&'a Type> = OrderedSet::new();
    insert_all(&mut all, first);
    insert_all(&mut all, second);
    assert(all@ =~= first@.union(second@));
    all
}

/// References to types are listed as the types themselves are.
proof fn lemma_listing_of_references(members: Seq<&Type>)
    requires
        order::ascending::<&Type>(order::models(members)),
    ensures
        order::listing::<Type>(order::models(members).to_set()) == order::models(members),
{
    let list = order::models(members);
    assert forall|i: int, j: int| 0 <= i < j < list.len() implies order::precedes(
        #[trigger] <Type as order::Ordered>::key(list[i]),
        #[trigger] <Type as order::Ordered>::key(list[j]),
    ) by {
        assert(order::precedes(
            <&Type as order::Ordered>::key(list[i]),
            <&Type as order::Ordered>::key(list[j]),
        ));
    }
    order::ascending_list_is_listing::<Type>(list);
}

/// Writes the import of paths below `std`.
fn format_imports(paths: &OrderedSet<String>) -> (formatted: String)
    ensures
        formatted@ == imports_text(order::listing::<String>(paths@)),
{
    let members = paths.members();
    assert(order::models(members@) =~= text::texts(members@));
    if members.is_empty() {
        "".to_owned()
    } else if members.len() == 1 {
        "use std::".to_owned().concat(members[0].as_str()).concat(";\n")
    } else {
        "use std::{".to_owned().concat(join_strings(members, ", ").as_str()).concat("};\n")
    }
}

/// Writes the definition of a type, where it has one.
fn format_definition(ty: &Type, serde_reqs: &SerializationRequirements) -> (formatted: Option<
    String,
>)
    requires
        is_definable(ty@),
    ensures
        match formatted {
            Some(formatted) => definition(ty@, *serde_reqs) == Some(formatted@),
            None => definition(ty@, *serde_reqs) is None,
        },
{
    match ty {
        Type::Alias(name, ty) => Some(
            "pub type ".to_owned().concat(name.as_str()).concat(" = ").concat(
                format_type(ty).as_str(),
            ).concat(";"),
        ),
        Type::Enum(name, generic_args, variants, opts) => {
            if is_named(name, "Result") {
                None  // No need to define our own.

            } else {
                proof {
                    types::lemma_variant_models(variants@);
                    let list = types::variant_models(variants@);
                    assert forall|i: int| 0 <= i < variants.len() implies is_variant_type(
                        (#[trigger] variants[i])@.ty,
                    ) by {
                        assert(list[i] == variants[i]@);
                    }
                }
                Some(
                    create_enum_definition(name.as_str(), generic_args, variants, serde_reqs, opts),
                )
            }
        },
        Type::Struct(name, generic_args, fields) => Some(
            create_struct_definition(name.as_str(), generic_args, fields, serde_reqs),
        ),
        _ => None,
    }
}

/// Generates the file that defines the types which cross the boundary in either direction.
pub fn generate_type_bindings(
    serializable_types: OrderedSet<Type>,
    deserializable_types: OrderedSet<Type>,
    path: &str,
) -> (file: BindingsFile)
    requires
        are_definable(serializable_types@),
        are_definable(deserializable_types@),
    ensures
        file@ == types_file(serializable_types@, deserializable_types@, path@),
{
    let all_types = unite(&serializable_types, &deserializable_types);
    let ghost all = serializable_types@.union(deserializable_types@);
    let members = all_types.members();
    let ghost list = order::models(members@);
    proof {
        lemma_listing_of_references(members@);
    }
    let std_types = collect_all_std_types(members);
    assert(std_types@ =~= std_types_of(all));

    let mut type_defs: Vec<String> = Vec::new();
    proof {
        lemma_definitions(list.take(0), serializable_types@, deserializable_types@);
        assert(text::texts(type_defs@) =~= definitions(
            list.take(0),
            serializable_types@,
            deserializable_types@,
        ));
    }
    for i in 0..members.len()
        invariant
            list == order::models(members@),
            list.to_set() == all,
            all == serializable_types@.union(deserializable_types@),
            are_definable(serializable_types@),
            are_definable(deserializable_types@),
            text::texts(type_defs@) == definitions(
                list.take(i as int),
                serializable_types@,
                deserializable_types@,
            ),
    {
        let ty: &Type = members[i];
        assert(list[i as int] == ty@);
        assert(all.contains(list[i as int]));
        proof {
            assert(list.take(i + 1).drop_last() =~= list.take(i as int));
            lemma_definitions(list.take(i + 1), serializable_types@, deserializable_types@);
        }
        let serde_reqs = SerializationRequirements::from_sets(
            ty,
            &serializable_types,
            &deserializable_types,
        );
        let ghost before = type_defs@;
        if let Some(definition) = format_definition(ty, &serde_reqs) {
            type_defs.push(definition);
            assert(text::texts(type_defs@) =~= text::texts(before).push(definition@));
        }
    }
    assert(list.take(members.len() as int) =~= list);

    BindingsFile {
        path: path.to_owned().concat("/types.rs"),
        contents: Contents::Text(
            "use serde::{Deserialize, Serialize};\n".to_owned().concat(
                format_imports(&std_types).as_str(),
            ).concat("\n").concat(join_strings(&type_defs, "\n\n").as_str()).concat("\n"),
        ),
    }
}

/// Adds the members of one set to a set of references.
fn insert_all<'a>(all: &mut OrderedSet<&'a Type>, set: &'a OrderedSet<Type>)
    ensures
        final(all)@ == old(all)@.union(set@),
{
    let ghost before = all@;
    let members = set.members();
    let ghost list = order::models(members@);
    assert(list.take(0).to_set() =~= Set::empty());
    assert(all@ =~= before.union(list.take(0).to_set()));
    for i in 0..members.len()
        invariant
            list == order::models(members@),
            list.to_set() == set@,
            all@ == before.union(list.take(i as int).to_set()),
    {
        assert(list[i as int] == members[i as int]@);
        all.insert(&members[i]);
        let ghost done = list.take(i as int);
        let ghost grown = list.take(i + 1);
        assert(grown =~= done.push(list[i as int]));
        assert forall|ty: types::TypeModel| grown.contains(ty) <==> done.contains(ty) || ty
            == list[i as int] by {
            if done.contains(ty) {
                let j = choose|j: int| 0 <= j < done.len() && done[j] == ty;
                assert(grown[j] == ty);
            }
            assert(grown[i as int] == list[i as int]);
            if grown.contains(ty) && ty != list[i as int] {
                let j = choose|j: int| 0 <= j < grown.len() && grown[j] == ty;
                assert(done[j] == ty);
            }
        }
        assert(all@ =~= before.union(grown.to_set()));
    }
    assert(list.take(members.len() as int) =~= list);
}

/// Collects the paths below `std` that any of the types takes imports from.
fn collect_all_std_types(members: &Vec<&Type>) -> (collected: OrderedSet<String>)
    ensures
        collected@ == std_types_of(order::models(members@).to_set()),
{
    let ghost list = order::models(members@);
    let mut collected: OrderedSet<String> = OrderedSet::new();
    assert(collected@ =~= items_std_types(list.take(0)));
    for i in 0..members.len()
        invariant
            list == order::models(members@),
            collected@ == items_std_types(list.take(i as int)),
    {
        assert(list[i as int] == members[i as int]@);
        collected.append(collect_std_types(members[i]));
        assert(list.take(i + 1).drop_last() =~= list.take(i as int));
    }
    assert(list.take(members.len() as int) =~= list);
    proof {
        lemma_items_std_types(list);
    }
    collected
}

/// What a list of types takes imports from does not depend on its order.
pub proof fn lemma_items_std_types(list: Seq<types::TypeModel>)
    ensures
        items_std_types(list) == std_types_of(list.to_set()),
    decreases list.len(),
{
    if list.len() > 0 {
        let before = list.drop_last();
        lemma_items_std_types(before);
        assert forall|path: Seq<char>| items_std_types(list).contains(path) <==> std_types_of(
            list.to_set(),
        ).contains(path) by {
            if std_types_of(before.to_set()).contains(path) {
                let ty = choose|ty: types::TypeModel|
                    before.to_set().contains(ty) && #[trigger] std_types(ty).contains(path);
                let j = choose|j: int| 0 <= j < before.len() && before[j] == ty;
                assert(list[j] == ty);
                assert(list.to_set().contains(ty));
            }
            if std_types(list.last()).contains(path) {
                assert(list.to_set().contains(list.last()));
            }
            if std_types_of(list.to_set()).contains(path) {
                let ty = choose|ty: types::TypeModel|
                    list.to_set().contains(ty) && #[trigger] std_types(ty).contains(path);
                let j = choose|j: int| 0 <= j < list.len() && list[j] == ty;
                if j < before.len() {
                    assert(before[j] == ty);
                    assert(before.to_set().contains(ty));
                }
            }
        }
    }
    assert(items_std_types(list) =~= std_types_of(list.to_set()));
}

} // verus!
