//! Types written as Rust code.

use crate::text;
use crate::types;
use crate::types::{GenericArgument, Primitive, Type};
use vstd::prelude::*;
use vstd::string::StringExecFns;

verus! {

/// A type written as Rust code. Generic arguments are written as the types that fill them, where
/// these are known.
pub open spec fn type_text(ty: types::TypeModel) -> Seq<char>
    decreases ty,
{
    match ty {
        types::TypeModel::Alias(name, _) => name,
        types::TypeModel::Container(name, ty) => name + "<"@ + type_text(*ty) + ">"@,
        types::TypeModel::Custom(custom) => custom.rs_ty,
        types::TypeModel::Enum(name, generic_args, _, _) => types::with_arguments(
            name,
            argument_texts(generic_args),
        ),
        types::TypeModel::GenericArgument(arg) => arg.name,
        types::TypeModel::List(name, ty) => name + "<"@ + type_text(*ty) + ">"@,
        types::TypeModel::Mapping(name, key, value) => name + "<"@ + type_text(*key) + ", "@
            + type_text(*value) + ">"@,
        types::TypeModel::Primitive(primitive) => types::primitive_name(primitive),
        types::TypeModel::String => "String"@,
        types::TypeModel::Struct(name, generic_args, _) => types::with_arguments(
            name,
            argument_texts(generic_args),
        ),
        types::TypeModel::Tuple(items) => "("@ + text::join(type_texts(items), ", "@) + ")"@,
        types::TypeModel::Unit => "()"@,
    }
}

/// A generic argument written as Rust code: the type that fills it, or its own name.
pub open spec fn argument_text(arg: types::GenericModel) -> Seq<char>
    decreases arg,
{
    match arg.ty {
        Some(ty) => type_text(ty),
        None => arg.name,
    }
}

/// Generic arguments written as Rust code.
pub open spec fn argument_texts(args: Seq<types::GenericModel>) -> Seq<Seq<char>>
    decreases args,
{
    if args.len() == 0 {
        Seq::empty()
    } else {
        argument_texts(args.drop_last()).push(argument_text(args.last()))
    }
}

/// Generic arguments are written in the order of their list, one for one.
pub proof fn lemma_argument_texts(args: Seq<types::GenericModel>)
    ensures
        argument_texts(args) == args.map_values(|arg: types::GenericModel| argument_text(arg)),
    decreases args.len(),
{
    if args.len() > 0 {
        lemma_argument_texts(args.drop_last());
    }
    assert(argument_texts(args) =~= args.map_values(
        |arg: types::GenericModel| argument_text(arg),
    ));
}

/// The types of a list written as Rust code.
pub open spec fn type_texts(items: Seq<types::TypeModel>) -> Seq<Seq<char>>
    decreases items,
{
    if items.len() == 0 {
        Seq::empty()
    } else {
        type_texts(items.drop_last()).push(type_text(items.last()))
    }
}

/// The types of a list are written in the order of the list, one for one.
pub proof fn lemma_type_texts(items: Seq<types::TypeModel>)
    ensures
        type_texts(items) == items.map_values(|item: types::TypeModel| type_text(item)),
    decreases items.len(),
{
    if items.len() > 0 {
        lemma_type_texts(items.drop_last());
    }
    assert(type_texts(items) =~= items.map_values(|item: types::TypeModel| type_text(item)));
}

/// Writes a name with its generic arguments, each as the type that fills it where one is known.
pub fn format_name_with_types(name: &str, generic_args: &Vec<GenericArgument>) -> (formatted:
    String)
    ensures
        formatted@ == types::with_arguments(
            name@,
            argument_texts(types::generic_models(generic_args@)),
        ),
    decreases generic_args,
{
    let ghost args = types::generic_models(generic_args@);
    proof {
        types::lemma_generic_models(generic_args@);
        lemma_argument_texts(args);
    }
    if generic_args.is_empty() {
        return name.to_owned();
    }
    let mut formatted: Vec<String> = Vec::new();
    for i in 0..generic_args.len()
        invariant
            formatted.len() == i,
            forall|j: int| 0 <= j < i ==> formatted[j]@ == argument_text(generic_args[j]@),
    {
        let arg = &generic_args[i];
        assert(decreases_to!(generic_args => arg));
        formatted.push(
            match &arg.ty {
                Some(ty) => format_type(ty),
                None => arg.name.clone(),
            },
        );
    }
    assert(text::texts(formatted@) =~= argument_texts(args));
    name.to_owned().concat("<").concat(text::join_strings(&formatted, ", ").as_str()).concat(">")
}

/// Writes the types of a list.
pub fn format_items(items: &Vec<Type>) -> (formatted: Vec<String>)
    ensures
        text::texts(formatted@) == type_texts(types::type_models(items@)),
    decreases items,
{
    let mut formatted: Vec<String> = Vec::new();
    for i in 0..items.len()
        invariant
            formatted.len() == i,
            forall|j: int| 0 <= j < i ==> formatted[j]@ == type_text(items[j]@),
    {
        formatted.push(format_type(&items[i]));
    }
    proof {
        types::lemma_type_models(items@);
        lemma_type_texts(types::type_models(items@));
    }
    assert(text::texts(formatted@) =~= type_texts(types::type_models(items@)));
    formatted
}

/// Formats a type so it's valid Rust again.
pub fn format_type(ty: &Type) -> (formatted: String)
    ensures
        formatted@ == type_text(ty@),
    decreases ty,
{
    match ty {
        Type::Alias(name, _) => name.clone(),
        Type::Container(name, ty) => name.clone().concat("<").concat(
            format_type(ty).as_str(),
        ).concat(">"),
        Type::Custom(custom) => custom.rs_ty.clone(),
        Type::Enum(name, generic_args, _, _) => format_name_with_types(name.as_str(), generic_args),
        Type::GenericArgument(arg) => {
            assert((**arg)@.name == arg.name@);
            arg.name.clone()
        },
        Type::List(name, ty) => name.clone().concat("<").concat(format_type(ty).as_str()).concat(
            ">",
        ),
        Type::Mapping(name, key, value) => name.clone().concat("<").concat(
            format_type(key).as_str(),
        ).concat(", ").concat(format_type(value).as_str()).concat(">"),
        Type::Primitive(primitive) => format_primitive(*primitive),
        Type::String => "String".to_owned(),
        Type::Struct(name, generic_args, _) => format_name_with_types(name.as_str(), generic_args),
        Type::Tuple(items) => {
            let items = format_items(items);
            "(".to_owned().concat(text::join_strings(&items, ", ").as_str()).concat(")")
        },
        Type::Unit => "()".to_owned(),
    }
}

/// Writes a primitive type as Rust does.
pub fn format_primitive(primitive: Primitive) -> (formatted: String)
    ensures
        formatted@ == types::primitive_name(primitive),
{
    let string = match primitive {
        Primitive::Bool => "bool",
        Primitive::F32 => "f32",
        Primitive::F64 => "f64",
        Primitive::I8 => "i8",
        Primitive::I16 => "i16",
        Primitive::I32 => "i32",
        Primitive::I64 => "i64",
        Primitive::I128 => "i128",
        Primitive::U8 => "u8",
        Primitive::U16 => "u16",
        Primitive::U32 => "u32",
        Primitive::U64 => "u64",
        Primitive::U128 => "u128",
    };
    string.to_owned()
}

} // verus!
