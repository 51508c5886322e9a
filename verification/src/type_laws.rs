//! What holds of types, their texts, their imports and their definitions.

use crate::files;
use crate::files::BindingsFile;
use crate::formatting;
use crate::formatting::{
    format_items, format_name_with_types, format_primitive, format_type,
};
use crate::laws;
use crate::order;
use crate::order::OrderedSet;
use crate::text;
use crate::text_laws;
use crate::type_bindings;
use crate::type_bindings::{
    collect_std_types, create_enum_definition, create_struct_definition, find_unsupported_variant,
    generate_type_bindings, SerializationRequirements,
};
use crate::types;
use crate::types::{
    format_name_with_generics, EnumOptions, Field, GenericArgument, Primitive, Type, Variant,
};
use vstd::prelude::*;

verus! {

/// The content of a generic parameter is its name and the content of the type that fills it.
pub proof fn generic_arguments_are_seen_whole(arg: GenericArgument)
    ensures
        arg@.name == arg.name@,
        arg@.ty is Some <==> arg.ty is Some,
        arg.ty matches Some(ty) ==> arg@.ty == Some(ty@),
{
}

/// The contents of fields and variants are their names and the contents of their types.
pub proof fn fields_and_variants_are_seen_whole(field: Field, variant: Variant)
    ensures
        field@.name == field.name@,
        field@.ty == field.ty@,
        variant@.name == variant.name@,
        variant@.ty == variant.ty@,
{
}

/// The attributes of an enum are seen in order.
pub proof fn enum_options_are_seen_whole(opts: EnumOptions, i: int)
    ensures
        opts@.len() == opts.serde_attrs.len(),
        0 <= i < opts@.len() ==> opts@[i] == opts.serde_attrs[i]@,
{
}

/// The contents of lists stand in the order of the lists.
pub proof fn lists_are_seen_in_order(
    items: Seq<Type>,
    args: Seq<GenericArgument>,
    fields: Seq<Field>,
    variants: Seq<Variant>,
    i: int,
)
    ensures
        types::type_models(items).len() == items.len(),
        types::generic_models(args).len() == args.len(),
        types::field_models(fields).len() == fields.len(),
        types::variant_models(variants).len() == variants.len(),
        0 <= i < items.len() ==> types::type_models(items)[i] == items[i]@,
        0 <= i < args.len() ==> types::generic_models(args)[i] == args[i]@,
        0 <= i < fields.len() ==> types::field_models(fields)[i] == fields[i]@,
        0 <= i < variants.len() ==> types::variant_models(variants)[i] == variants[i]@,
{
    types::lemma_type_models(items);
    types::lemma_generic_models(args);
    types::lemma_field_models(fields);
    types::lemma_variant_models(variants);
}

/// The content of a type is of its kind, and has the contents of all its parts.
pub proof fn types_are_seen_whole(ty: Type)
    ensures
        match ty {
            Type::Alias(name, of) => ty@ == types::TypeModel::Alias(name@, Box::new(of@)),
            Type::Container(name, of) => ty@ == types::TypeModel::Container(name@, Box::new(of@)),
            Type::Custom(custom) => ty@ matches types::TypeModel::Custom(seen) && seen.name
                == custom.name@ && seen.rs_ty == custom.rs_ty@,
            Type::Enum(name, args, variants, opts) => ty@ == types::TypeModel::Enum(
                name@,
                args@.map_values(|arg: GenericArgument| arg@),
                variants@.map_values(|variant: Variant| variant@),
                opts.serde_attrs@.map_values(|attr: String| attr@),
            ),
            Type::GenericArgument(arg) => ty@ matches types::TypeModel::GenericArgument(seen)
                && *seen == (*arg)@,
            Type::List(name, of) => ty@ == types::TypeModel::List(name@, Box::new(of@)),
            Type::Mapping(name, key, value) => ty@ == types::TypeModel::Mapping(
                name@,
                Box::new(key@),
                Box::new(value@),
            ),
            Type::Primitive(primitive) => ty@ == types::TypeModel::Primitive(primitive),
            Type::String => ty@ is String,
            Type::Struct(name, args, fields) => ty@ == types::TypeModel::Struct(
                name@,
                args@.map_values(|arg: GenericArgument| arg@),
                fields@.map_values(|field: Field| field@),
            ),
            Type::Tuple(items) => ty@ == types::TypeModel::Tuple(
                items@.map_values(|item: Type| item@),
            ),
            Type::Unit => ty@ is Unit,
        },
{
    match ty {
        Type::Enum(_, args, variants, _) => {
            types::lemma_generic_models(args@);
            types::lemma_variant_models(variants@);
        },
        Type::Struct(_, args, fields) => {
            types::lemma_generic_models(args@);
            types::lemma_field_models(fields@);
        },
        Type::Tuple(items) => {
            types::lemma_type_models(items@);
        },
        _ => {},
    }
}

/// The letter that the name of a number type starts with.
pub open spec fn sign_letter(primitive: Primitive) -> char {
    match primitive {
        Primitive::F32 | Primitive::F64 => 'f',
        Primitive::I8 | Primitive::I16 | Primitive::I32 | Primitive::I64 | Primitive::I128 => 'i',
        _ => 'u',
    }
}

/// The width of a number type in bits, in decimal digits.
pub open spec fn width_digits(primitive: Primitive) -> Seq<char> {
    match primitive {
        Primitive::I8 | Primitive::U8 => seq!['8'],
        Primitive::I16 | Primitive::U16 => seq!['1', '6'],
        Primitive::F32 | Primitive::I32 | Primitive::U32 => seq!['3', '2'],
        Primitive::F64 | Primitive::I64 | Primitive::U64 => seq!['6', '4'],
        _ => seq!['1', '2', '8'],
    }
}

/// A number type is written as the letter for its sign followed by its width in bits.
pub proof fn primitives_are_written_by_sign_and_width(primitive: Primitive, written: String)
    requires
        call_ensures(format_primitive, (primitive,), written),
    ensures
        primitive is Bool ==> written@ == seq!['b', 'o', 'o', 'l'],
        !(primitive is Bool) ==> written@ == seq![sign_letter(primitive)] + width_digits(primitive),
{
    reveal_strlit("bool");
    reveal_strlit("f32");
    reveal_strlit("f64");
    reveal_strlit("i8");
    reveal_strlit("i16");
    reveal_strlit("i32");
    reveal_strlit("i64");
    reveal_strlit("i128");
    reveal_strlit("u8");
    reveal_strlit("u16");
    reveal_strlit("u32");
    reveal_strlit("u64");
    reveal_strlit("u128");
    if primitive is Bool {
        assert(written@ =~= seq!['b', 'o', 'o', 'l']);
    } else {
        assert(written@ =~= seq![sign_letter(primitive)] + width_digits(primitive));
    }
}

/// A primitive type is written the same alone and as a type.
pub proof fn primitive_types_are_written_as_primitives(primitive: Primitive, alone: String)
    requires
        call_ensures(format_primitive, (primitive,), alone),
    ensures
        formatting::type_text(types::TypeModel::Primitive(primitive)) == alone@,
{
}

/// Types that only stand for a name are written as that name: an alias whatever it stands for, a
/// custom type by its Rust path, a generic parameter whatever fills it.
pub proof fn named_types_are_written_by_name(
    name: Seq<char>,
    of: types::TypeModel,
    custom: types::CustomModel,
    arg: types::GenericModel,
)
    ensures
        formatting::type_text(types::TypeModel::Alias(name, Box::new(of))) == name,
        formatting::type_text(types::TypeModel::Custom(custom)) == custom.rs_ty,
        formatting::type_text(types::TypeModel::GenericArgument(Box::new(arg))) == arg.name,
        formatting::type_text(types::TypeModel::String) == "String"@,
        formatting::type_text(types::TypeModel::Unit) == "()"@,
{
}

/// Containers, lists and maps are written as their name with the texts of what they hold in angle
/// brackets, and a container as a list.
pub proof fn holders_are_written_around_their_contents(
    name: Seq<char>,
    first: types::TypeModel,
    second: types::TypeModel,
)
    ensures
        formatting::type_text(types::TypeModel::List(name, Box::new(first))) == name + "<"@
            + formatting::type_text(first) + ">"@,
        formatting::type_text(types::TypeModel::Container(name, Box::new(first)))
            == formatting::type_text(types::TypeModel::List(name, Box::new(first))),
        formatting::type_text(
            types::TypeModel::Mapping(name, Box::new(first), Box::new(second)),
        ) == name + "<"@ + formatting::type_text(first) + ", "@ + formatting::type_text(second)
            + ">"@,
{
}

/// Whether `written` holds the text of each generic argument: that of the type which fills it,
/// or its own name where none does.
pub open spec fn are_argument_texts(
    args: Seq<types::GenericModel>,
    written: Seq<Seq<char>>,
) -> bool {
    &&& written.len() == args.len()
    &&& forall|i: int|
        0 <= i < args.len() ==> #[trigger] written[i] == (if args[i].ty is Some {
            formatting::type_text(args[i].ty->0)
        } else {
            args[i].name
        })
}

/// A struct or enum without generic arguments is written as its name. With some it is its name,
/// followed in angle brackets by the texts of all of them in order; what fields or variants it has
/// makes no difference.
pub proof fn generic_types_are_written_with_all_arguments(
    name: Seq<char>,
    args: Seq<types::GenericModel>,
    fields: Seq<types::FieldModel>,
    variants: Seq<types::VariantModel>,
    attrs: Seq<Seq<char>>,
    written: Seq<Seq<char>>,
)
    requires
        are_argument_texts(args, written),
    ensures
        args.len() == 0 ==> formatting::type_text(types::TypeModel::Struct(name, args, fields))
            == name,
        args.len() > 0 ==> formatting::type_text(types::TypeModel::Struct(name, args, fields))
            == name + "<"@ + text::join(written, ", "@) + ">"@,
        formatting::type_text(types::TypeModel::Enum(name, args, variants, attrs))
            == formatting::type_text(types::TypeModel::Struct(name, args, fields)),
{
    formatting::lemma_argument_texts(args);
    assert forall|i: int| 0 <= i < args.len() implies formatting::argument_texts(args)[i]
        == written[i] by {
        assert(formatting::argument_texts(args)[i] == formatting::argument_text(args[i]));
    }
    assert(formatting::argument_texts(args) =~= written);
}

/// Structs of one name that are filled with types of different texts are written differently.
pub proof fn a_different_filling_shows(
    name: Seq<char>,
    args: Seq<types::GenericModel>,
    fields: Seq<types::FieldModel>,
    i: int,
    filling: types::TypeModel,
)
    requires
        0 <= i < args.len(),
        args[i].ty is Some,
        formatting::type_text(args[i].ty->0) != formatting::type_text(filling),
    ensures
        ({
            let refilled = args.update(
                i,
                types::GenericModel { name: args[i].name, ty: Some(filling) },
            );
            formatting::type_text(types::TypeModel::Struct(name, args, fields))
                != formatting::type_text(types::TypeModel::Struct(name, refilled, fields))
        }),
{
    let refilled = args.update(i, types::GenericModel { name: args[i].name, ty: Some(filling) });
    let written = args.map_values(
        |arg: types::GenericModel|
            if arg.ty is Some {
                formatting::type_text(arg.ty->0)
            } else {
                arg.name
            },
    );
    let rewritten = written.update(i, formatting::type_text(filling));
    generic_types_are_written_with_all_arguments(
        name,
        args,
        fields,
        Seq::empty(),
        Seq::empty(),
        written,
    );
    generic_types_are_written_with_all_arguments(
        name,
        refilled,
        fields,
        Seq::empty(),
        Seq::empty(),
        rewritten,
    );
    text_laws::a_changed_piece_shows(written, ", "@, i, formatting::type_text(filling));
    let a = text::join(written, ", "@);
    let b = text::join(rewritten, ", "@);
    let s = name + "<"@ + a + ">"@;
    let t = name + "<"@ + b + ">"@;
    if s == t {
        let from = (name + "<"@).len() as int;
        assert(s.len() == t.len());
        assert(a.len() == b.len());
        assert(s.subrange(from, from + a.len()) =~= a);
        assert(t.subrange(from, from + a.len()) =~= b);
    }
}

/// Formatting writes each type as `type_text` tells, and so does formatting a list of types.
pub proof fn formatted_types_are_their_texts(
    ty: &Type,
    written: String,
    items: &Vec<Type>,
    all_written: Vec<String>,
    i: int,
)
    requires
        call_ensures(format_type, (ty,), written),
        call_ensures(format_items, (items,), all_written),
    ensures
        written@ == formatting::type_text(ty@),
        all_written.len() == items.len(),
        0 <= i < items.len() ==> all_written[i]@ == formatting::type_text(items[i]@),
{
    let list = types::type_models(items@);
    types::lemma_type_models(items@);
    formatting::lemma_type_texts(list);
    assert(text::texts(all_written@).len() == all_written.len());
    if 0 <= i < items.len() {
        assert(text::texts(all_written@)[i] == all_written[i]@);
        assert(list[i] == items[i]@);
    }
}

/// A name is followed by its generic parameters, written by their names in one form and by the
/// types that fill them in the other. Both forms are the name alone where there are none.
pub proof fn names_take_all_parameters(
    name: &str,
    args: &Vec<GenericArgument>,
    with_parameters: String,
    with_types: String,
    parameters: Seq<Seq<char>>,
    written: Seq<Seq<char>>,
)
    requires
        call_ensures(format_name_with_generics, (name, args), with_parameters),
        call_ensures(format_name_with_types, (name, args), with_types),
        parameters.len() == args.len(),
        written.len() == args.len(),
        forall|i: int| 0 <= i < args.len() ==> #[trigger] parameters[i] == args[i].name@,
        forall|i: int|
            0 <= i < args.len() ==> #[trigger] written[i] == (match args[i].ty {
                Some(ty) => formatting::type_text(ty@),
                None => args[i].name@,
            }),
    ensures
        args.len() == 0 ==> with_parameters@ == name@ && with_types@ == name@,
        args.len() > 0 ==> with_parameters@ == name@ + "<"@ + text::join(parameters, ", "@) + ">"@,
        args.len() > 0 ==> with_types@ == name@ + "<"@ + text::join(written, ", "@) + ">"@,
{
    let list = types::generic_models(args@);
    types::lemma_generic_models(args@);
    formatting::lemma_argument_texts(list);
    assert forall|i: int| 0 <= i < args.len() implies types::parameter_names(list)[i]
        == parameters[i] && formatting::argument_texts(list)[i] == written[i] by {
        assert(list[i] == args[i]@);
        assert(formatting::argument_texts(list)[i] == formatting::argument_text(list[i]));
    }
    assert(types::parameter_names(list) =~= parameters);
    assert(formatting::argument_texts(list) =~= written);
}

/// The types that a type is made of. Generic arguments of a struct or enum are no part of its
/// definition.
pub open spec fn parts(ty: types::TypeModel) -> Seq<types::TypeModel> {
    match ty {
        types::TypeModel::Alias(_, of) => seq![*of],
        types::TypeModel::Container(_, of) => seq![*of],
        types::TypeModel::Enum(_, _, variants, _) => variants.map_values(
            |variant: types::VariantModel| variant.ty,
        ),
        types::TypeModel::GenericArgument(arg) => if arg.ty is Some {
            seq![arg.ty->0]
        } else {
            Seq::empty()
        },
        types::TypeModel::List(_, of) => seq![*of],
        types::TypeModel::Mapping(_, key, value) => seq![*key, *value],
        types::TypeModel::Struct(_, _, fields) => fields.map_values(
            |field: types::FieldModel| field.ty,
        ),
        types::TypeModel::Tuple(items) => items,
        _ => Seq::empty(),
    }
}

/// Whether a type is itself one that `std` has to be asked for under this path.
pub open spec fn is_imported_as(ty: types::TypeModel, path: Seq<char>) -> bool {
    match ty {
        types::TypeModel::Container(name, _) => name == "Rc"@ && path == "rc::Rc"@,
        types::TypeModel::List(name, _) => {
            ||| name == "BTreeSet"@ && path == "collections::BTreeSet"@
            ||| name == "HashSet"@ && path == "collections::HashSet"@
        },
        types::TypeModel::Mapping(name, _, _) => {
            ||| name == "BTreeMap"@ && path == "collections::BTreeMap"@
            ||| name == "HashMap"@ && path == "collections::HashMap"@
        },
        _ => false,
    }
}

proof fn lemma_variant_imports(variants: Seq<types::VariantModel>, path: Seq<char>)
    ensures
        type_bindings::variants_std_types(variants).contains(path) <==> exists|i: int|
            0 <= i < variants.len() && type_bindings::std_types(
                (#[trigger] variants[i]).ty,
            ).contains(path),
    decreases variants.len(),
{
    if variants.len() > 0 {
        let fewer = variants.drop_last();
        lemma_variant_imports(fewer, path);
        if type_bindings::variants_std_types(fewer).contains(path) {
            let i = choose|i: int|
                0 <= i < fewer.len() && type_bindings::std_types((#[trigger] fewer[i]).ty).contains(
                    path,
                );
            assert(variants[i] == fewer[i]);
        }
        if type_bindings::std_types(variants.last().ty).contains(path) {
            assert(type_bindings::std_types(variants[variants.len() - 1].ty).contains(path));
        }
        if exists|i: int|
            0 <= i < variants.len() && type_bindings::std_types(
                (#[trigger] variants[i]).ty,
            ).contains(path) {
            let i = choose|i: int|
                0 <= i < variants.len() && type_bindings::std_types(
                    (#[trigger] variants[i]).ty,
                ).contains(path);
            if i < fewer.len() {
                assert(fewer[i] == variants[i]);
            }
        }
    }
}

proof fn lemma_field_imports(fields: Seq<types::FieldModel>, path: Seq<char>)
    ensures
        type_bindings::fields_std_types(fields).contains(path) <==> exists|i: int|
            0 <= i < fields.len() && type_bindings::std_types((#[trigger] fields[i]).ty).contains(
                path,
            ),
    decreases fields.len(),
{
    if fields.len() > 0 {
        let fewer = fields.drop_last();
        lemma_field_imports(fewer, path);
        if type_bindings::fields_std_types(fewer).contains(path) {
            let i = choose|i: int|
                0 <= i < fewer.len() && type_bindings::std_types((#[trigger] fewer[i]).ty).contains(
                    path,
                );
            assert(fields[i] == fewer[i]);
        }
        if type_bindings::std_types(fields.last().ty).contains(path) {
            assert(type_bindings::std_types(fields[fields.len() - 1].ty).contains(path));
        }
        if exists|i: int|
            0 <= i < fields.len() && type_bindings::std_types((#[trigger] fields[i]).ty).contains(
                path,
            ) {
            let i = choose|i: int|
                0 <= i < fields.len() && type_bindings::std_types(
                    (#[trigger] fields[i]).ty,
                ).contains(path);
            if i < fewer.len() {
                assert(fewer[i] == fields[i]);
            }
        }
    }
}

proof fn lemma_item_imports(items: Seq<types::TypeModel>, path: Seq<char>)
    ensures
        type_bindings::items_std_types(items).contains(path) <==> exists|i: int|
            0 <= i < items.len() && type_bindings::std_types(#[trigger] items[i]).contains(path),
{
    type_bindings::lemma_items_std_types(items);
    if type_bindings::items_std_types(items).contains(path) {
        let ty = choose|ty: types::TypeModel|
            items.to_set().contains(ty) && #[trigger] type_bindings::std_types(ty).contains(path);
        let i = choose|i: int| 0 <= i < items.len() && items[i] == ty;
        assert(type_bindings::std_types(items[i]).contains(path));
    }
    if exists|i: int|
        0 <= i < items.len() && type_bindings::std_types(#[trigger] items[i]).contains(path) {
        let i = choose|i: int|
            0 <= i < items.len() && type_bindings::std_types(#[trigger] items[i]).contains(path);
        assert(items.to_set().contains(items[i]));
    }
}

/// A type takes an import if and only if it is itself what is imported, or one of the types that
/// it is made of takes it. So nothing that a definition names is left out, and nothing else comes
/// in.
pub proof fn imports_come_from_all_parts(ty: types::TypeModel, path: Seq<char>)
    ensures
        type_bindings::std_types(ty).contains(path) <==> is_imported_as(ty, path) || exists|i: int|
            0 <= i < parts(ty).len() && type_bindings::std_types(
                #[trigger] parts(ty)[i],
            ).contains(path),
{
    laws::lemma_collection_paths();
    let inner = parts(ty);
    let some = exists|i: int|
        0 <= i < inner.len() && type_bindings::std_types(#[trigger] inner[i]).contains(path);
    match ty {
        types::TypeModel::Enum(_, _, variants, _) => {
            lemma_variant_imports(variants, path);
            if type_bindings::variants_std_types(variants).contains(path) {
                let i = choose|i: int|
                    0 <= i < variants.len() && type_bindings::std_types(
                        (#[trigger] variants[i]).ty,
                    ).contains(path);
                assert(inner[i] == variants[i].ty);
            }
            if some {
                let i = choose|i: int|
                    0 <= i < inner.len() && type_bindings::std_types(
                        #[trigger] inner[i],
                    ).contains(path);
                assert(inner[i] == variants[i].ty);
            }
        },
        types::TypeModel::Struct(_, _, fields) => {
            lemma_field_imports(fields, path);
            if type_bindings::fields_std_types(fields).contains(path) {
                let i = choose|i: int|
                    0 <= i < fields.len() && type_bindings::std_types(
                        (#[trigger] fields[i]).ty,
                    ).contains(path);
                assert(inner[i] == fields[i].ty);
            }
            if some {
                let i = choose|i: int|
                    0 <= i < inner.len() && type_bindings::std_types(
                        #[trigger] inner[i],
                    ).contains(path);
                assert(inner[i] == fields[i].ty);
            }
        },
        types::TypeModel::Tuple(items) => {
            lemma_item_imports(items, path);
        },
        types::TypeModel::Mapping(_, key, value) => {
            assert(inner[0] == *key && inner[1] == *value);
        },
        types::TypeModel::Alias(_, of) => {
            assert(inner[0] == *of);
        },
        types::TypeModel::Container(_, of) => {
            assert(inner[0] == *of);
        },
        types::TypeModel::List(_, of) => {
            assert(inner[0] == *of);
        },
        types::TypeModel::GenericArgument(arg) => {
            if arg.ty is Some {
                assert(inner[0] == arg.ty->0);
            }
        },
        _ => {},
    }
}

/// Whether `inner` is what `ty` is made of, or what that is made of, and so on, `depth` times.
pub open spec fn is_made_of(ty: types::TypeModel, inner: types::TypeModel, depth: nat) -> bool
    decreases depth,
{
    if depth == 0 {
        ty == inner
    } else {
        exists|i: int|
            0 <= i < parts(ty).len() && is_made_of(
                #[trigger] parts(ty)[i],
                inner,
                (depth - 1) as nat,
            )
    }
}

/// Whatever a type is made of at any depth, it takes the imports of that.
pub proof fn imports_reach_any_depth(
    ty: types::TypeModel,
    inner: types::TypeModel,
    depth: nat,
    path: Seq<char>,
)
    requires
        is_made_of(ty, inner, depth),
        is_imported_as(inner, path),
    ensures
        type_bindings::std_types(ty).contains(path),
    decreases depth,
{
    imports_come_from_all_parts(ty, path);
    if depth > 0 {
        let i = choose|i: int|
            0 <= i < parts(ty).len() && is_made_of(
                #[trigger] parts(ty)[i],
                inner,
                (depth - 1) as nat,
            );
        imports_reach_any_depth(parts(ty)[i], inner, (depth - 1) as nat, path);
    }
}

/// What is collected of a type is what it takes imports from.
pub proof fn collected_imports_are_complete(ty: &Type, collected: OrderedSet<String>, path: Seq<char>)
    requires
        call_ensures(collect_std_types, (ty,), collected),
    ensures
        collected@.contains(path) <==> is_imported_as(ty@, path) || exists|i: int|
            0 <= i < parts(ty@).len() && type_bindings::std_types(
                #[trigger] parts(ty@)[i],
            ).contains(path),
{
    imports_come_from_all_parts(ty@, path);
}

/// A set of types takes an import if and only if one of its members does.
pub proof fn a_set_takes_the_imports_of_its_members(
    set: Set<types::TypeModel>,
    more: Set<types::TypeModel>,
    ty: types::TypeModel,
)
    ensures
        type_bindings::std_types_of(Set::empty()) == Set::<Seq<char>>::empty(),
        type_bindings::std_types_of(set.insert(ty)) == type_bindings::std_types_of(set).union(
            type_bindings::std_types(ty),
        ),
        type_bindings::std_types_of(set.union(more)) == type_bindings::std_types_of(set).union(
            type_bindings::std_types_of(more),
        ),
{
    assert(type_bindings::std_types_of(Set::empty()) =~= Set::<Seq<char>>::empty());
    assert forall|path: Seq<char>| type_bindings::std_types_of(set.insert(ty)).contains(path)
        <==> type_bindings::std_types_of(set).contains(path) || type_bindings::std_types(
        ty,
    ).contains(path) by {
        if type_bindings::std_types_of(set).contains(path) {
            let member = choose|member: types::TypeModel|
                set.contains(member) && #[trigger] type_bindings::std_types(member).contains(path);
            assert(set.insert(ty).contains(member));
        }
        if type_bindings::std_types(ty).contains(path) {
            assert(set.insert(ty).contains(ty));
        }
    }
    assert(type_bindings::std_types_of(set.insert(ty)) =~= type_bindings::std_types_of(set).union(
        type_bindings::std_types(ty),
    ));
    assert forall|path: Seq<char>| type_bindings::std_types_of(set.union(more)).contains(path)
        <==> type_bindings::std_types_of(set).contains(path) || type_bindings::std_types_of(
        more,
    ).contains(path) by {
        if type_bindings::std_types_of(set).contains(path) {
            let member = choose|member: types::TypeModel|
                set.contains(member) && #[trigger] type_bindings::std_types(member).contains(path);
            assert(set.union(more).contains(member));
        }
        if type_bindings::std_types_of(more).contains(path) {
            let member = choose|member: types::TypeModel|
                more.contains(member) && #[trigger] type_bindings::std_types(member).contains(path);
            assert(set.union(more).contains(member));
        }
    }
    assert(type_bindings::std_types_of(set.union(more)) =~= type_bindings::std_types_of(set).union(
        type_bindings::std_types_of(more),
    ));
}

/// An import statement names all of its paths: none makes no statement, one stands alone, and
/// several stand in braces, in order.
pub proof fn import_statements_name_all_paths(paths: Seq<Seq<char>>, i: int)
    ensures
        paths.len() == 0 ==> type_bindings::imports_text(paths).len() == 0,
        paths.len() == 1 ==> type_bindings::imports_text(paths) == "use std::"@ + paths[0] + ";\n"@,
        paths.len() > 1 ==> type_bindings::imports_text(paths) == "use std::{"@ + text::join(
            paths,
            ", "@,
        ) + "};\n"@,
        0 <= i < paths.len() ==> text_laws::holds(type_bindings::imports_text(paths), paths[i]),
{
    reveal_strlit("");
    if 0 <= i < paths.len() {
        if paths.len() == 1 {
            text_laws::lemma_holds("use std::"@, paths[0], ";\n"@);
        } else {
            text_laws::pieces_are_kept(paths, ", "@, i);
            text_laws::lemma_holds_within(
                "use std::{"@,
                text::join(paths, ", "@),
                "};\n"@,
                paths[i],
            );
        }
    }
}

/// Whether a field can be left out of what is serialized: its type is the enum `Option`.
pub open spec fn is_optional(ty: types::TypeModel) -> bool {
    ty matches types::TypeModel::Enum(name, _, _, _) && name == "Option"@
}

/// A field starts with the attribute that leaves it out if and only if it is optional. What
/// follows, and the whole of any other field, is its visibility, name and type.
pub proof fn only_optional_fields_are_left_out(field: types::FieldModel)
    ensures
        ({
            let attribute = "    #[serde(skip_serializing_if = \"Option::is_none\")]\n"@;
            let declared = "    pub "@ + field.name + ": "@ + formatting::type_text(field.ty) + ","@;
            &&& is_optional(field.ty) ==> type_bindings::field_text(field) == attribute + declared
            &&& !is_optional(field.ty) ==> type_bindings::field_text(field) == declared
            &&& text_laws::starts_with(type_bindings::field_text(field), attribute)
                <==> is_optional(field.ty)
        }),
{
    let attribute = "    #[serde(skip_serializing_if = \"Option::is_none\")]\n"@;
    let declared = "    pub "@ + field.name + ": "@ + formatting::type_text(field.ty) + ","@;
    reveal_strlit("");
    reveal_strlit("    pub ");
    reveal_strlit("    #[serde(skip_serializing_if = \"Option::is_none\")]\n");
    assert(attribute.len() > 8 && attribute[4] == '#');
    assert(("    pub "@)[4] == 'p');
    if is_optional(field.ty) {
        assert(type_bindings::field_text(field) =~= attribute + declared);
        assert((attribute + declared).take(attribute.len() as int) =~= attribute);
    } else {
        assert(type_bindings::field_text(field) =~= declared);
        assert(declared[4] == 'p');
        if text_laws::starts_with(declared, attribute) {
            assert(declared.take(attribute.len() as int)[4] == 'p');
        }
    }
}

/// The traits that a type derives for its directions: one for each, and both for both.
pub proof fn derived_traits_add_up()
    ensures
        type_bindings::derives(SerializationRequirements::Serialize) == "Serialize"@,
        type_bindings::derives(SerializationRequirements::Deserialize) == "Deserialize"@,
        type_bindings::derives(SerializationRequirements::Both) == type_bindings::derives(
            SerializationRequirements::Serialize,
        ) + ", "@ + type_bindings::derives(SerializationRequirements::Deserialize),
{
    reveal_strlit("Serialize, Deserialize");
    reveal_strlit("Serialize");
    reveal_strlit("Deserialize");
    reveal_strlit(", ");
    assert("Serialize, Deserialize"@ =~= "Serialize"@ + ", "@ + "Deserialize"@);
}

/// The name that a definition declares, with the names of its parameters.
pub open spec fn declared_name(name: Seq<char>, parameters: Seq<Seq<char>>) -> Seq<char> {
    if parameters.len() == 0 {
        name
    } else {
        name + "<"@ + text::join(parameters, ", "@) + ">"@
    }
}

/// Whether `parameters` holds the names of generic parameters, in order.
pub open spec fn are_parameter_names(
    args: Seq<types::GenericModel>,
    parameters: Seq<Seq<char>>,
) -> bool {
    &&& parameters.len() == args.len()
    &&& forall|i: int| 0 <= i < args.len() ==> #[trigger] parameters[i] == args[i].name
}

/// The definition of a struct has one entry for each field, in order, below the traits of its
/// directions and its name with the names of its parameters.
pub proof fn structs_are_defined_field_by_field(
    name: Seq<char>,
    args: Seq<types::GenericModel>,
    fields: Seq<types::FieldModel>,
    reqs: SerializationRequirements,
    parameters: Seq<Seq<char>>,
    entries: Seq<Seq<char>>,
)
    requires
        are_parameter_names(args, parameters),
        entries.len() == fields.len(),
        forall|i: int|
            0 <= i < fields.len() ==> #[trigger] entries[i] == type_bindings::field_text(fields[i]),
    ensures
        type_bindings::struct_text(name, args, fields, reqs) == "#[derive(Clone, Debug, PartialEq, "@
            + type_bindings::derives(reqs)
            + ")]\n#[serde(rename_all = \"camelCase\")]\npub struct "@ + declared_name(
            name,
            parameters,
        ) + " {\n"@ + text::join(entries, "\n"@) + "\n}"@,
{
    assert(types::parameter_names(args) =~= parameters);
    assert(fields.map_values(|field: types::FieldModel| type_bindings::field_text(field))
        =~= entries);
}

/// A variant is written by what it holds: nothing, the texts of its items, or its fields with
/// their types, each of them in order.
pub proof fn variants_are_written_with_all_they_hold(
    name: Seq<char>,
    items: Seq<types::TypeModel>,
    fields: Seq<types::FieldModel>,
    inner_name: Seq<char>,
    inner_args: Seq<types::GenericModel>,
    item_texts: Seq<Seq<char>>,
    field_texts: Seq<Seq<char>>,
)
    requires
        item_texts.len() == items.len(),
        forall|i: int|
            0 <= i < items.len() ==> #[trigger] item_texts[i] == formatting::type_text(items[i]),
        field_texts.len() == fields.len(),
        forall|i: int|
            0 <= i < fields.len() ==> #[trigger] field_texts[i] == fields[i].name + ": "@
                + formatting::type_text(fields[i].ty),
    ensures
        type_bindings::variant_text(types::VariantModel { name, ty: types::TypeModel::Unit })
            == "    "@ + name + ","@,
        type_bindings::variant_text(
            types::VariantModel { name, ty: types::TypeModel::Tuple(items) },
        ) == "    "@ + name + "("@ + text::join(item_texts, ", "@) + "),"@,
        type_bindings::variant_text(
            types::VariantModel {
                name,
                ty: types::TypeModel::Struct(inner_name, inner_args, fields),
            },
        ) == "    #[serde(rename_all = \"camelCase\")]\n    "@ + name + " { "@ + text::join(
            field_texts,
            ", "@,
        ) + " },"@,
{
    formatting::lemma_type_texts(items);
    assert(formatting::type_texts(items) =~= item_texts);
    assert(fields.map_values(|field: types::FieldModel| type_bindings::declaration(field))
        =~= field_texts);
}

/// The definition of an enum has one entry for each variant, in order, below the traits of its
/// directions, all of its attributes, and its name with the names of its parameters.
pub proof fn enums_are_defined_variant_by_variant(
    name: Seq<char>,
    args: Seq<types::GenericModel>,
    variants: Seq<types::VariantModel>,
    attrs: Seq<Seq<char>>,
    reqs: SerializationRequirements,
    parameters: Seq<Seq<char>>,
    entries: Seq<Seq<char>>,
)
    requires
        are_parameter_names(args, parameters),
        entries.len() == variants.len(),
        forall|i: int|
            0 <= i < variants.len() ==> #[trigger] entries[i] == type_bindings::variant_text(
                variants[i],
            ),
    ensures
        type_bindings::enum_text(name, args, variants, attrs, reqs)
            == "#[derive(Clone, Debug, PartialEq, "@ + type_bindings::derives(reqs)
            + ")]\n#[serde("@ + text::join(attrs, ", "@) + ")]\npub enum "@ + declared_name(
            name,
            parameters,
        ) + " {\n"@ + text::join(entries, "\n"@) + "\n}"@,
{
    assert(types::parameter_names(args) =~= parameters);
    assert(variants.map_values(|variant: types::VariantModel| type_bindings::variant_text(variant))
        =~= entries);
}

/// The definitions that are created are those of the contents of what they are created from.
pub proof fn created_definitions_are_their_texts(
    name: &str,
    args: &Vec<GenericArgument>,
    fields: &Vec<Field>,
    variants: &Vec<Variant>,
    reqs: &SerializationRequirements,
    opts: &EnumOptions,
    of_struct: String,
    of_enum: String,
)
    requires
        call_ensures(create_struct_definition, (name, args, fields, reqs), of_struct),
        call_ensures(create_enum_definition, (name, args, variants, reqs, opts), of_enum),
    ensures
        of_struct@ == type_bindings::struct_text(
            name@,
            args@.map_values(|arg: GenericArgument| arg@),
            fields@.map_values(|field: Field| field@),
            *reqs,
        ),
        of_enum@ == type_bindings::enum_text(
            name@,
            args@.map_values(|arg: GenericArgument| arg@),
            variants@.map_values(|variant: Variant| variant@),
            opts.serde_attrs@.map_values(|attr: String| attr@),
            *reqs,
        ),
{
    types::lemma_generic_models(args@);
    types::lemma_field_models(fields@);
    types::lemma_variant_models(variants@);
}

/// What is generated for a type is sent exactly if it is among the sent types, and received
/// exactly if it is among the received ones.
pub proof fn requirements_are_found_in_the_sets(
    ty: &Type,
    serializable_types: &OrderedSet<Type>,
    deserializable_types: &OrderedSet<Type>,
    reqs: SerializationRequirements,
)
    requires
        serializable_types@.contains(ty@) || deserializable_types@.contains(ty@),
        call_ensures(
            SerializationRequirements::from_sets,
            (ty, serializable_types, deserializable_types),
            reqs,
        ),
    ensures
        serializable_types@.contains(ty@) <==> reqs != SerializationRequirements::Deserialize,
        deserializable_types@.contains(ty@) <==> reqs != SerializationRequirements::Serialize,
{
}

/// An alias is defined as another name for the text of what it stands for; structs and enums are
/// defined as such, for the directions in which they cross.
pub proof fn definitions_are_of_their_kind(
    name: Seq<char>,
    of: types::TypeModel,
    args: Seq<types::GenericModel>,
    fields: Seq<types::FieldModel>,
    variants: Seq<types::VariantModel>,
    attrs: Seq<Seq<char>>,
    reqs: SerializationRequirements,
)
    ensures
        type_bindings::definition(types::TypeModel::Alias(name, Box::new(of)), reqs) == Some(
            "pub type "@ + name + " = "@ + formatting::type_text(of) + ";"@,
        ),
        type_bindings::definition(types::TypeModel::Struct(name, args, fields), reqs) == Some(
            type_bindings::struct_text(name, args, fields, reqs),
        ),
        name != "Result"@ ==> type_bindings::definition(
            types::TypeModel::Enum(name, args, variants, attrs),
            reqs,
        ) == Some(type_bindings::enum_text(name, args, variants, attrs, reqs)),
{
}

/// The definition of a member of the sets is that for the directions which the sets tell.
pub proof fn members_are_defined_for_their_directions(
    ty: types::TypeModel,
    serializable_types: Set<types::TypeModel>,
    deserializable_types: Set<types::TypeModel>,
)
    requires
        serializable_types.contains(ty) || deserializable_types.contains(ty),
    ensures
        ({
            let member = type_bindings::member_definition(
                ty,
                serializable_types,
                deserializable_types,
            );
            let sent = serializable_types.contains(ty);
            let received = deserializable_types.contains(ty);
            &&& sent && received ==> member == type_bindings::definition(
                ty,
                SerializationRequirements::Both,
            )
            &&& sent && !received ==> member == type_bindings::definition(
                ty,
                SerializationRequirements::Serialize,
            )
            &&& !sent && received ==> member == type_bindings::definition(
                ty,
                SerializationRequirements::Deserialize,
            )
        }),
{
}

/// The definitions of a list of types are those of its parts, in order; a single type has the
/// definition that it has, or none.
pub proof fn definitions_follow_the_list(
    a: Seq<types::TypeModel>,
    b: Seq<types::TypeModel>,
    ty: types::TypeModel,
    serializable_types: Set<types::TypeModel>,
    deserializable_types: Set<types::TypeModel>,
)
    ensures
        type_bindings::definitions(a + b, serializable_types, deserializable_types)
            == type_bindings::definitions(a, serializable_types, deserializable_types)
            + type_bindings::definitions(b, serializable_types, deserializable_types),
        type_bindings::definitions(seq![ty], serializable_types, deserializable_types) == (
        match type_bindings::member_definition(ty, serializable_types, deserializable_types) {
            Some(definition) => seq![definition],
            None => Seq::empty(),
        }),
    decreases b.len(),
{
    type_bindings::lemma_definitions(seq![ty], serializable_types, deserializable_types);
    assert(seq![ty].drop_last() =~= Seq::empty());
    type_bindings::lemma_definitions(Seq::empty(), serializable_types, deserializable_types);
    assert(type_bindings::definitions(seq![ty], serializable_types, deserializable_types) =~= (
    match type_bindings::member_definition(ty, serializable_types, deserializable_types) {
        Some(definition) => seq![definition],
        None => Seq::empty(),
    }));
    type_bindings::lemma_definitions(b, serializable_types, deserializable_types);
    if b.len() == 0 {
        assert(a + b =~= a);
    } else {
        type_bindings::lemma_definitions(a + b, serializable_types, deserializable_types);
        assert((a + b).drop_last() =~= a + b.drop_last());
        definitions_follow_the_list(
            a,
            b.drop_last(),
            ty,
            serializable_types,
            deserializable_types,
        );
    }
    assert(type_bindings::definitions(a + b, serializable_types, deserializable_types)
        =~= type_bindings::definitions(a, serializable_types, deserializable_types)
        + type_bindings::definitions(b, serializable_types, deserializable_types));
}

/// The generated file of types stands below the path. It imports what any type of either set
/// takes, and then defines the types of both sets in ascending order.
pub proof fn types_of_both_sets_are_written(
    serializable_types: OrderedSet<Type>,
    deserializable_types: OrderedSet<Type>,
    path: &str,
    file: BindingsFile,
    all_types: Seq<types::TypeModel>,
    paths: Seq<Seq<char>>,
)
    requires
        call_ensures(
            generate_type_bindings,
            (serializable_types, deserializable_types, path),
            file,
        ),
        order::ascending::<Type>(all_types),
        all_types.to_set() == serializable_types@.union(deserializable_types@),
        order::ascending::<String>(paths),
        forall|p: Seq<char>|
            paths.contains(p) <==> exists|i: int|
                0 <= i < all_types.len() && (#[trigger] type_bindings::std_types(
                    all_types[i],
                )).contains(p),
    ensures
        file@.path == path@ + "/types.rs"@,
        file@.contents == files::ContentsModel::Text(
            "use serde::{Deserialize, Serialize};\n"@ + type_bindings::imports_text(paths) + "\n"@
                + text::join(
                type_bindings::definitions(
                    all_types,
                    serializable_types@,
                    deserializable_types@,
                ),
                "\n\n"@,
            ) + "\n"@,
        ),
{
    let set = serializable_types@.union(deserializable_types@);
    order::ascending_list_is_listing::<Type>(all_types);
    assert forall|p: Seq<char>| paths.to_set().contains(p) <==> type_bindings::std_types_of(
        set,
    ).contains(p) by {
        assert(paths.to_set().contains(p) <==> paths.contains(p));
        if paths.contains(p) {
            let i = choose|i: int|
                0 <= i < all_types.len() && (#[trigger] type_bindings::std_types(
                    all_types[i],
                )).contains(p);
            assert(all_types.to_set().contains(all_types[i]));
        }
        if type_bindings::std_types_of(set).contains(p) {
            let ty = choose|ty: types::TypeModel|
                set.contains(ty) && #[trigger] type_bindings::std_types(ty).contains(p);
            assert(all_types.to_set().contains(ty));
            let i = choose|i: int| 0 <= i < all_types.len() && all_types[i] == ty;
            assert(type_bindings::std_types(all_types[i]).contains(p));
        }
    }
    assert(paths.to_set() =~= type_bindings::std_types_of(set));
    order::ascending_list_is_listing::<String>(paths);
}

/// Enums other than `Result` can be defined if and only if each variant holds nothing, a tuple or
/// a struct. Any other type can be defined, or needs no definition.
pub proof fn what_can_be_defined(ty: types::TypeModel)
    ensures
        type_bindings::is_definable(ty) <==> (ty matches types::TypeModel::Enum(name, _, variants, _)
            ==> name == "Result"@ || forall|i: int|
            0 <= i < variants.len() ==> (match (#[trigger] variants[i]).ty {
                types::TypeModel::Unit => true,
                types::TypeModel::Struct(_, _, _) => true,
                types::TypeModel::Tuple(_) => true,
                _ => false,
            })),
{
    match ty {
        types::TypeModel::Enum(_, _, variants, _) => {
            assert forall|i: int| 0 <= i < variants.len() implies type_bindings::is_variant_type(
                (#[trigger] variants[i]).ty,
            ) == (match variants[i].ty {
                types::TypeModel::Unit => true,
                types::TypeModel::Struct(_, _, _) => true,
                types::TypeModel::Tuple(_) => true,
                _ => false,
            }) by {}
        },
        _ => {},
    }
}

/// No unsupported variant is found if and only if all types of both sets can be defined, and one
/// that is found is the type of a variant that holds something else than a tuple or a struct.
pub proof fn found_variants_are_unsupported(
    serializable_types: &OrderedSet<Type>,
    deserializable_types: &OrderedSet<Type>,
    found: Option<&Type>,
)
    requires
        call_ensures(
            find_unsupported_variant,
            (serializable_types, deserializable_types),
            found,
        ),
    ensures
        found is None <==> forall|ty: types::TypeModel| #[trigger]
            serializable_types@.union(deserializable_types@).contains(ty)
                ==> type_bindings::is_definable(ty),
        found matches Some(ty) ==> !(ty@ is Unit) && !(ty@ is Struct) && !(ty@ is Tuple),
{
    let all = serializable_types@.union(deserializable_types@);
    assert(forall|ty: types::TypeModel| #[trigger]
        serializable_types@.contains(ty) ==> all.contains(ty));
    assert(forall|ty: types::TypeModel| #[trigger]
        deserializable_types@.contains(ty) ==> all.contains(ty));
}

/// What is found is the first variant, in the order of the definition, of the first type, in the
/// order of the listing, that holds something else than a tuple or a struct.
pub proof fn the_first_unsupported_variant_is_found(
    serializable_types: &OrderedSet<Type>,
    deserializable_types: &OrderedSet<Type>,
    found: Option<&Type>,
    all_types: Seq<types::TypeModel>,
    at: int,
    i: int,
)
    requires
        call_ensures(
            find_unsupported_variant,
            (serializable_types, deserializable_types),
            found,
        ),
        order::ascending::<Type>(all_types),
        all_types.to_set() == serializable_types@.union(deserializable_types@),
        0 <= at < all_types.len(),
        forall|j: int| 0 <= j < at ==> type_bindings::is_definable(#[trigger] all_types[j]),
        all_types[at] matches types::TypeModel::Enum(name, _, variants, _) && name != "Result"@
            && 0 <= i < variants.len() && !(variants[i].ty is Unit || variants[i].ty is Struct
            || variants[i].ty is Tuple) && forall|j: int|
            0 <= j < i ==> (#[trigger] variants[j]).ty is Unit || variants[j].ty is Struct
                || variants[j].ty is Tuple,
    ensures
        found is Some,
        all_types[at] matches types::TypeModel::Enum(_, _, variants, _) ==> found->0@
            == variants[i].ty,
{
    let all = serializable_types@.union(deserializable_types@);
    order::ascending_list_is_listing::<Type>(all_types);
    match all_types[at] {
        types::TypeModel::Enum(_, _, variants, _) => {
            assert(!type_bindings::is_variant_type(variants[i].ty));
            assert(!type_bindings::is_definable(all_types[at]));
            assert(all_types.to_set().contains(all_types[at]));
            assert(all.contains(all_types[at]));
            found_variants_are_unsupported(serializable_types, deserializable_types, found);
            let unsupported = found->0@;
            let k = choose|k: int|
                {
                    &&& 0 <= k < all_types.len()
                    &&& type_bindings::is_first_unsupported(#[trigger] all_types[k], unsupported)
                    &&& forall|j: int| 0 <= j < k ==> type_bindings::is_definable(
                        #[trigger] all_types[j],
                    )
                };
            assert(!type_bindings::is_definable(all_types[k]));
            assert(k == at);
        },
        _ => {},
    }
}

} // verus!
