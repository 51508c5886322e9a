//! The types that bindings are generated for.

use crate::text;
use vstd::prelude::*;
use vstd::string::StringExecFns;

verus! {

/// A primitive type.
#[derive(Clone, Copy, Debug, PartialEq, Eq, Structural)]
pub enum Primitive {
    Bool,
    F32,
    F64,
    I8,
    I16,
    I32,
    I64,
    I128,
    U8,
    U16,
    U32,
    U64,
    U128,
}

/// A type that stands outside the protocol and is named by a path.
#[derive(Debug)]
pub struct CustomType {
    /// The name that the protocol knows it by.
    pub name: String,
    /// How generated Rust code writes it.
    pub rs_ty: String,
}

/// A generic parameter, with the type that fills it where one is known.
#[derive(Debug)]
pub struct GenericArgument {
    pub name: String,
    pub ty: Option<Type>,
}

/// A field of a struct.
#[derive(Debug)]
pub struct Field {
    pub name: String,
    pub ty: Type,
}

/// A variant of an enum. Its type is `Unit`, a `Tuple` or a `Struct`, as the variant holds
/// nothing, unnamed or named values.
#[derive(Debug)]
pub struct Variant {
    pub name: String,
    pub ty: Type,
}

/// How an enum is represented when it is serialized.
#[derive(Debug)]
pub struct EnumOptions {
    /// The arguments of the enum's `serde` attribute, in order.
    pub serde_attrs: Vec<String>,
}

/// A type of the protocol.
#[derive(Debug)]
pub enum Type {
    Alias(String, Box<Type>),
    Container(String, Box<Type>),
    Custom(CustomType),
    Enum(String, Vec<GenericArgument>, Vec<Variant>, EnumOptions),
    GenericArgument(Box<GenericArgument>),
    List(String, Box<Type>),
    Mapping(String, Box<Type>, Box<Type>),
    Primitive(Primitive),
    String,
    Struct(String, Vec<GenericArgument>, Vec<Field>),
    Tuple(Vec<Type>),
    Unit,
}

/// The content of a `CustomType`.
pub ghost struct CustomModel {
    pub name: Seq<char>,
    pub rs_ty: Seq<char>,
}

/// The content of a `GenericArgument`.
pub ghost struct GenericModel {
    pub name: Seq<char>,
    pub ty: Option<TypeModel>,
}

/// The content of a `Field`.
pub ghost struct FieldModel {
    pub name: Seq<char>,
    pub ty: TypeModel,
}

/// The content of a `Variant`.
pub ghost struct VariantModel {
    pub name: Seq<char>,
    pub ty: TypeModel,
}

/// The content of a `Type`.
pub ghost enum TypeModel {
    Alias(Seq<char>, Box<TypeModel>),
    Container(Seq<char>, Box<TypeModel>),
    Custom(CustomModel),
    Enum(Seq<char>, Seq<GenericModel>, Seq<VariantModel>, Seq<Seq<char>>),
    GenericArgument(Box<GenericModel>),
    List(Seq<char>, Box<TypeModel>),
    Mapping(Seq<char>, Box<TypeModel>, Box<TypeModel>),
    Primitive(Primitive),
    String,
    Struct(Seq<char>, Seq<GenericModel>, Seq<FieldModel>),
    Tuple(Seq<TypeModel>),
    Unit,
}

/// The content of a type.
pub open spec fn type_model(ty: Type) -> TypeModel
    decreases ty,
{
    match ty {
        Type::Alias(name, ty) => TypeModel::Alias(name@, Box::new(type_model(*ty))),
        Type::Container(name, ty) => TypeModel::Container(name@, Box::new(type_model(*ty))),
        Type::Custom(custom) => TypeModel::Custom(custom@),
        Type::Enum(name, generic_args, variants, opts) => TypeModel::Enum(
            name@,
            generic_models(generic_args@),
            variant_models(variants@),
            opts@,
        ),
        Type::GenericArgument(arg) => TypeModel::GenericArgument(Box::new(generic_model(*arg))),
        Type::List(name, ty) => TypeModel::List(name@, Box::new(type_model(*ty))),
        Type::Mapping(name, key, value) => TypeModel::Mapping(
            name@,
            Box::new(type_model(*key)),
            Box::new(type_model(*value)),
        ),
        Type::Primitive(primitive) => TypeModel::Primitive(primitive),
        Type::String => TypeModel::String,
        Type::Struct(name, generic_args, fields) => TypeModel::Struct(
            name@,
            generic_models(generic_args@),
            field_models(fields@),
        ),
        Type::Tuple(items) => TypeModel::Tuple(type_models(items@)),
        Type::Unit => TypeModel::Unit,
    }
}

/// The content of a generic parameter.
pub open spec fn generic_model(arg: GenericArgument) -> GenericModel
    decreases arg,
{
    GenericModel {
        name: arg.name@,
        ty: match arg.ty {
            Some(ty) => Some(type_model(ty)),
            None => None,
        },
    }
}

/// The content of a field.
pub open spec fn field_model(field: Field) -> FieldModel
    decreases field,
{
    FieldModel { name: field.name@, ty: type_model(field.ty) }
}

/// The content of a variant.
pub open spec fn variant_model(variant: Variant) -> VariantModel
    decreases variant,
{
    VariantModel { name: variant.name@, ty: type_model(variant.ty) }
}

/// The contents of a list of types.
pub open spec fn type_models(types: Seq<Type>) -> Seq<TypeModel>
    decreases types,
{
    if types.len() == 0 {
        Seq::empty()
    } else {
        type_models(types.drop_last()).push(type_model(types.last()))
    }
}

/// The contents of a list of generic parameters.
pub open spec fn generic_models(args: Seq<GenericArgument>) -> Seq<GenericModel>
    decreases args,
{
    if args.len() == 0 {
        Seq::empty()
    } else {
        generic_models(args.drop_last()).push(generic_model(args.last()))
    }
}

/// The contents of a list of fields.
pub open spec fn field_models(fields: Seq<Field>) -> Seq<FieldModel>
    decreases fields,
{
    if fields.len() == 0 {
        Seq::empty()
    } else {
        field_models(fields.drop_last()).push(field_model(fields.last()))
    }
}

/// The contents of a list of variants.
pub open spec fn variant_models(variants: Seq<Variant>) -> Seq<VariantModel>
    decreases variants,
{
    if variants.len() == 0 {
        Seq::empty()
    } else {
        variant_models(variants.drop_last()).push(variant_model(variants.last()))
    }
}

impl View for CustomType {
    type V = CustomModel;

    open spec fn view(&self) -> CustomModel {
        CustomModel { name: self.name@, rs_ty: self.rs_ty@ }
    }
}

impl View for EnumOptions {
    type V = Seq<Seq<char>>;

    open spec fn view(&self) -> Seq<Seq<char>> {
        text::texts(self.serde_attrs@)
    }
}

impl View for GenericArgument {
    type V = GenericModel;

    open spec fn view(&self) -> GenericModel {
        generic_model(*self)
    }
}

impl View for Field {
    type V = FieldModel;

    open spec fn view(&self) -> FieldModel {
        field_model(*self)
    }
}

impl View for Variant {
    type V = VariantModel;

    open spec fn view(&self) -> VariantModel {
        variant_model(*self)
    }
}

impl View for Type {
    type V = TypeModel;

    open spec fn view(&self) -> TypeModel {
        type_model(*self)
    }
}

/// The contents of a list stand in the order of the list, one for one.
pub proof fn lemma_type_models(types: Seq<Type>)
    ensures
        type_models(types) == types.map_values(|ty: Type| ty@),
    decreases types.len(),
{
    if types.len() > 0 {
        lemma_type_models(types.drop_last());
    }
    assert(type_models(types) =~= types.map_values(|ty: Type| ty@));
}

/// The contents of a list stand in the order of the list, one for one.
pub proof fn lemma_generic_models(args: Seq<GenericArgument>)
    ensures
        generic_models(args) == args.map_values(|arg: GenericArgument| arg@),
    decreases args.len(),
{
    if args.len() > 0 {
        lemma_generic_models(args.drop_last());
    }
    assert(generic_models(args) =~= args.map_values(|arg: GenericArgument| arg@));
}

/// The contents of a list stand in the order of the list, one for one.
pub proof fn lemma_field_models(fields: Seq<Field>)
    ensures
        field_models(fields) == fields.map_values(|field: Field| field@),
    decreases fields.len(),
{
    if fields.len() > 0 {
        lemma_field_models(fields.drop_last());
    }
    assert(field_models(fields) =~= fields.map_values(|field: Field| field@));
}

/// The contents of a list stand in the order of the list, one for one.
pub proof fn lemma_variant_models(variants: Seq<Variant>)
    ensures
        variant_models(variants) == variants.map_values(|variant: Variant| variant@),
    decreases variants.len(),
{
    if variants.len() > 0 {
        lemma_variant_models(variants.drop_last());
    }
    assert(variant_models(variants) =~= variants.map_values(|variant: Variant| variant@));
}

impl EnumOptions {
    /// The arguments of the enum's `serde` attribute.
    pub fn to_serde_attrs(&self) -> (attrs: Vec<String>)
        ensures
            text::texts(attrs@) == self@,
    {
        text::copy_strings(&self.serde_attrs)
    }
}

/// The name of a primitive type, which is also how Rust writes it.
pub open spec fn primitive_name(primitive: Primitive) -> Seq<char> {
    match primitive {
        Primitive::Bool => "bool"@,
        Primitive::F32 => "f32"@,
        Primitive::F64 => "f64"@,
        Primitive::I8 => "i8"@,
        Primitive::I16 => "i16"@,
        Primitive::I32 => "i32"@,
        Primitive::I64 => "i64"@,
        Primitive::I128 => "i128"@,
        Primitive::U8 => "u8"@,
        Primitive::U16 => "u16"@,
        Primitive::U32 => "u32"@,
        Primitive::U64 => "u64"@,
        Primitive::U128 => "u128"@,
    }
}

/// A name followed by generic arguments in angle brackets, or alone where there are none.
pub open spec fn with_arguments(name: Seq<char>, args: Seq<Seq<char>>) -> Seq<char> {
    if args.len() == 0 {
        name
    } else {
        name + "<"@ + text::join(args, ", "@) + ">"@
    }
}

/// The names of generic parameters.
pub open spec fn parameter_names(args: Seq<GenericModel>) -> Seq<Seq<char>> {
    args.map_values(|arg: GenericModel| arg.name)
}

/// Writes a name with the names of its generic parameters.
pub fn format_name_with_generics(name: &str, generic_args: &Vec<GenericArgument>) -> (formatted:
    String)
    ensures
        formatted@ == with_arguments(name@, parameter_names(generic_models(generic_args@))),
{
    proof {
        lemma_generic_models(generic_args@);
    }
    if generic_args.is_empty() {
        return name.to_owned();
    }
    let mut names: Vec<String> = Vec::new();
    for i in 0..generic_args.len()
        invariant
            names.len() == i,
            forall|j: int| 0 <= j < i ==> names[j]@ == generic_args[j].name@,
    {
        names.push(generic_args[i].name.clone());
    }
    assert(text::texts(names@) =~= parameter_names(generic_models(generic_args@)));
    name.to_owned().concat("<").concat(text::join_strings(&names, ", ").as_str()).concat(">")
}

} // verus!
