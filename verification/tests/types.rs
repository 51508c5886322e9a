//! Types, their texts and their definitions.

use fp_bindgen::files::{BindingsFile, Contents};
use fp_bindgen::formatting::{format_name_with_types, format_primitive, format_type};
use fp_bindgen::order::OrderedSet;
use fp_bindgen::type_bindings::{
    collect_std_types, create_enum_definition, create_struct_definition,
    find_unsupported_variant, generate_type_bindings, SerializationRequirements,
};
use fp_bindgen::types::{
    format_name_with_generics, CustomType, EnumOptions, Field, GenericArgument, Primitive, Type,
    Variant,
};

fn primitive(primitive: Primitive) -> Type {
    Type::Primitive(primitive)
}

fn list(name: &str, ty: Type) -> Type {
    Type::List(name.to_owned(), Box::new(ty))
}

fn mapping(name: &str, key: Type, value: Type) -> Type {
    Type::Mapping(name.to_owned(), Box::new(key), Box::new(value))
}

fn container(name: &str, ty: Type) -> Type {
    Type::Container(name.to_owned(), Box::new(ty))
}

fn alias(name: &str, ty: Type) -> Type {
    Type::Alias(name.to_owned(), Box::new(ty))
}

fn custom(name: &str, rs_ty: &str) -> Type {
    Type::Custom(CustomType { name: name.to_owned(), rs_ty: rs_ty.to_owned() })
}

fn argument(name: &str, ty: Option<Type>) -> GenericArgument {
    GenericArgument { name: name.to_owned(), ty }
}

fn field(name: &str, ty: Type) -> Field {
    Field { name: name.to_owned(), ty }
}

fn variant(name: &str, ty: Type) -> Variant {
    Variant { name: name.to_owned(), ty }
}

fn no_options() -> EnumOptions {
    EnumOptions { serde_attrs: vec![] }
}

fn option_of(ty: Type) -> Type {
    Type::Enum(
        "Option".to_owned(),
        vec![argument("T", Some(ty))],
        vec![
            variant("None", Type::Unit),
            variant("Some", Type::Tuple(vec![Type::GenericArgument(Box::new(argument("T", None)))])),
        ],
        no_options(),
    )
}

fn structure(name: &str, fields: Vec<Field>) -> Type {
    Type::Struct(name.to_owned(), vec![], fields)
}

fn set(types: Vec<Type>) -> OrderedSet<Type> {
    let mut set = OrderedSet::new();
    for ty in types {
        set.insert(ty);
    }
    set
}

fn text(file: &BindingsFile) -> &str {
    match &file.contents {
        Contents::Text(text) => text,
        Contents::Asset(asset) => panic!("expected text, found {:?}", asset),
    }
}

#[test]
fn primitives_are_written_as_rust_does() {
    let expected = vec![
        (Primitive::Bool, "bool"),
        (Primitive::F32, "f32"),
        (Primitive::F64, "f64"),
        (Primitive::I8, "i8"),
        (Primitive::I16, "i16"),
        (Primitive::I32, "i32"),
        (Primitive::I64, "i64"),
        (Primitive::I128, "i128"),
        (Primitive::U8, "u8"),
        (Primitive::U16, "u16"),
        (Primitive::U32, "u32"),
        (Primitive::U64, "u64"),
        (Primitive::U128, "u128"),
    ];
    for (primitive, name) in expected {
        assert_eq!(format_primitive(primitive), name);
        assert_eq!(format_type(&Type::Primitive(primitive)), name);
    }
}

#[test]
fn every_kind_of_type_has_a_text() {
    assert_eq!(format_type(&alias("Body", list("Vec", primitive(Primitive::U8)))), "Body");
    assert_eq!(format_type(&container("Box", Type::String)), "Box<String>");
    assert_eq!(format_type(&custom("Value", "serde_json::Value")), "serde_json::Value");
    assert_eq!(format_type(&option_of(primitive(Primitive::U8))), "Option<u8>");
    assert_eq!(
        format_type(&Type::GenericArgument(Box::new(argument("T", Some(Type::String))))),
        "T"
    );
    assert_eq!(format_type(&list("Vec", custom("Value", "json::Value"))), "Vec<json::Value>");
    assert_eq!(
        format_type(&mapping("BTreeMap", Type::String, option_of(Type::Unit))),
        "BTreeMap<String, Option<()>>"
    );
    assert_eq!(format_type(&Type::String), "String");
    assert_eq!(format_type(&structure("Point", vec![])), "Point");
    assert_eq!(format_type(&Type::Unit), "()");
}

#[test]
fn tuples_are_written_item_by_item() {
    assert_eq!(format_type(&Type::Tuple(vec![])), "()");
    assert_eq!(
        format_type(&Type::Tuple(vec![primitive(Primitive::I64), list("Vec", Type::String)])),
        "(i64, Vec<String>)"
    );
    assert_eq!(
        format_type(&Type::Tuple(vec![
            custom("Value", "serde_json::Value"),
            option_of(primitive(Primitive::U8)),
        ])),
        "(serde_json::Value, Option<u8>)"
    );
    assert_eq!(
        format_type(&list(
            "Vec",
            Type::Tuple(vec![Type::String, Type::Tuple(vec![custom("V", "json::V"), Type::Unit])]),
        )),
        "Vec<(String, (json::V, ()))>"
    );
}

#[test]
fn names_take_parameters_or_types() {
    let args = vec![argument("K", Some(Type::String)), argument("V", None)];
    assert_eq!(format_name_with_generics("Pair", &args), "Pair<K, V>");
    assert_eq!(format_name_with_types("Pair", &args), "Pair<String, V>");
    assert_eq!(format_name_with_generics("Pair", &vec![]), "Pair");
    assert_eq!(format_name_with_types("Pair", &vec![]), "Pair");
}

#[test]
fn requirements_come_from_the_sets() {
    let serializable = set(vec![structure("A", vec![]), structure("B", vec![])]);
    let deserializable = set(vec![structure("B", vec![]), structure("C", vec![])]);
    let of = |name: &str| {
        SerializationRequirements::from_sets(
            &structure(name, vec![]),
            &serializable,
            &deserializable,
        )
    };
    assert_eq!(of("A"), SerializationRequirements::Serialize);
    assert_eq!(of("B"), SerializationRequirements::Both);
    assert_eq!(of("C"), SerializationRequirements::Deserialize);
}

#[test]
fn std_types_are_found_at_any_depth() {
    let found = |ty: Type| collect_std_types(&ty).members().clone();
    assert_eq!(found(Type::String), Vec::<String>::new());
    assert_eq!(found(custom("Rc", "std::rc::Rc<u8>")), Vec::<String>::new());
    assert_eq!(found(list("Vec", container("Box", Type::Unit))), Vec::<String>::new());
    assert_eq!(found(alias("Shared", container("Rc", Type::String))), vec!["rc::Rc"]);
    assert_eq!(found(list("HashSet", Type::String)), vec!["collections::HashSet"]);
    assert_eq!(
        found(mapping(
            "BTreeMap",
            list("BTreeSet", Type::String),
            mapping("HashMap", container("Rc", Type::Unit), list("BTreeSet", Type::Unit)),
        )),
        vec!["collections::BTreeMap", "collections::BTreeSet", "collections::HashMap", "rc::Rc"]
    );
    assert_eq!(
        found(structure(
            "S",
            vec![
                field("a", Type::Tuple(vec![Type::Unit, container("Rc", Type::Unit)])),
                field("b", list("HashSet", Type::Unit)),
            ],
        )),
        vec!["collections::HashSet", "rc::Rc"]
    );
    assert_eq!(
        found(Type::GenericArgument(Box::new(argument("T", Some(list("HashSet", Type::Unit)))))),
        vec!["collections::HashSet"]
    );
    // Only variants count for an enum, not what fills its generic parameters.
    assert_eq!(found(option_of(list("HashSet", Type::Unit))), Vec::<String>::new());
}

#[test]
fn enums_list_their_variants() {
    let definition = create_enum_definition(
        "Event",
        &vec![argument("T", Some(Type::String)), argument("U", None)],
        &vec![
            variant("Quit", Type::Unit),
            variant(
                "Move",
                structure("Move", vec![
                    field("delta_x", primitive(Primitive::I32)),
                    field("delta_y", option_of(primitive(Primitive::I32))),
                ]),
            ),
            variant("Pair", Type::Tuple(vec![Type::String, custom("V", "json::V")])),
        ],
        &SerializationRequirements::Both,
        &EnumOptions {
            serde_attrs: vec!["tag = \"type\"".to_owned(), "rename_all = \"snake_case\"".to_owned()],
        },
    );
    assert_eq!(
        definition,
        "#[derive(Clone, Debug, PartialEq, Serialize, Deserialize)]\n\
         #[serde(tag = \"type\", rename_all = \"snake_case\")]\n\
         pub enum Event<T, U> {\n    Quit,\n    #[serde(rename_all = \"camelCase\")]\n    \
         Move { delta_x: i32, delta_y: Option<i32> },\n    Pair(String, json::V),\n}"
    );
}

#[test]
fn an_enum_may_be_empty() {
    let definition = create_enum_definition(
        "Never",
        &vec![],
        &vec![],
        &SerializationRequirements::Deserialize,
        &no_options(),
    );
    assert_eq!(
        definition,
        "#[derive(Clone, Debug, PartialEq, Deserialize)]\n#[serde()]\npub enum Never {\n\n}"
    );
}

#[test]
fn structs_leave_out_absent_options() {
    let definition = create_struct_definition(
        "Request",
        &vec![argument("T", None)],
        &vec![
            field("url", Type::String),
            field("body", option_of(list("Vec", primitive(Primitive::U8)))),
            field("tag", Type::GenericArgument(Box::new(argument("T", None)))),
        ],
        &SerializationRequirements::Serialize,
    );
    assert_eq!(
        definition,
        "#[derive(Clone, Debug, PartialEq, Serialize)]\n\
         #[serde(rename_all = \"camelCase\")]\n\
         pub struct Request<T> {\n    pub url: String,\n    \
         #[serde(skip_serializing_if = \"Option::is_none\")]\n    \
         pub body: Option<Vec<u8>>,\n    pub tag: T,\n}"
    );
}

#[test]
fn no_types_give_an_empty_file() {
    let file = generate_type_bindings(set(vec![]), set(vec![]), "out");
    assert_eq!(file.path, "out/types.rs");
    assert_eq!(text(&file), "use serde::{Deserialize, Serialize};\n\n\n");
}

#[test]
fn types_are_defined_once_in_order() {
    let result = Type::Enum("Result".to_owned(), vec![], vec![], no_options());
    let file = generate_type_bindings(
        set(vec![
            structure("B", vec![field("s", container("Rc", Type::String))]),
            structure("A", vec![]),
            alias("Body", list("Vec", primitive(Primitive::U8))),
            Type::String,
            result,
        ]),
        set(vec![
            Type::Enum("E".to_owned(), vec![], vec![variant("X", Type::Unit)], no_options()),
            structure("A", vec![]),
            Type::Tuple(vec![]),
        ]),
        "/tmp/bindings",
    );
    assert_eq!(file.path, "/tmp/bindings/types.rs");
    assert_eq!(
        text(&file),
        "use serde::{Deserialize, Serialize};\n\
         use std::rc::Rc;\n\
         \n\
         pub type Body = Vec<u8>;\n\
         \n\
         #[derive(Clone, Debug, PartialEq, Deserialize)]\n\
         #[serde()]\n\
         pub enum E {\n    X,\n}\n\
         \n\
         #[derive(Clone, Debug, PartialEq, Serialize, Deserialize)]\n\
         #[serde(rename_all = \"camelCase\")]\n\
         pub struct A {\n\n}\n\
         \n\
         #[derive(Clone, Debug, PartialEq, Serialize)]\n\
         #[serde(rename_all = \"camelCase\")]\n\
         pub struct B {\n    pub s: Rc<String>,\n}\n"
    );
}

#[test]
fn several_imports_share_braces() {
    let file = generate_type_bindings(
        set(vec![list("HashSet", Type::String), container("Rc", Type::Unit)]),
        set(vec![mapping("BTreeMap", Type::String, list("HashSet", Type::String))]),
        "x",
    );
    assert_eq!(
        text(&file),
        "use serde::{Deserialize, Serialize};\n\
         use std::{collections::BTreeMap, collections::HashSet, rc::Rc};\n\n\n"
    );
}

#[test]
fn insertion_order_does_not_show() {
    let members = || vec![structure("A", vec![]), structure("B", vec![]), alias("C", Type::Unit)];
    let mut reversed = members();
    reversed.reverse();
    let first = generate_type_bindings(set(members()), set(vec![]), "p");
    let second = generate_type_bindings(set(reversed), set(vec![]), "p");
    assert_eq!(text(&first), text(&second));
}

#[test]
fn unsupported_variants_are_noticed() {
    let with_variant = |name: &str, ty: Type| {
        Type::Enum(
            name.to_owned(),
            vec![],
            vec![variant("Fine", Type::Unit), variant("X", ty)],
            no_options(),
        )
    };
    let found = |first: Vec<Type>, second: Vec<Type>| {
        find_unsupported_variant(&set(first), &set(second)).map(|ty| format_type(ty))
    };
    assert_eq!(found(vec![], vec![]), None);
    assert_eq!(
        found(
            vec![with_variant("E", Type::Tuple(vec![Type::String])), Type::String],
            vec![with_variant("F", structure("X", vec![]))],
        ),
        None
    );
    assert_eq!(found(vec![with_variant("Result", Type::String)], vec![]), None);
    assert_eq!(found(vec![with_variant("E", Type::String)], vec![]), Some("String".to_owned()));
    assert_eq!(found(vec![], vec![with_variant("E", Type::String)]), Some("String".to_owned()));
    // The first in the order of definitions is found, whichever set it is from.
    assert_eq!(
        found(
            vec![with_variant("B", Type::String)],
            vec![with_variant("A", primitive(Primitive::U8))],
        ),
        Some("u8".to_owned())
    );
}

#[test]
fn sets_order_types_by_kind_and_name() {
    let ordered = set(vec![
        Type::Unit,
        structure("B", vec![]),
        structure("A", vec![field("y", Type::Unit)]),
        structure("A", vec![field("x", Type::Unit)]),
        structure("A", vec![]),
        primitive(Primitive::U8),
        primitive(Primitive::Bool),
        option_of(Type::Unit),
        option_of(Type::String),
        alias("Z", Type::Unit),
    ]);
    let names: Vec<String> = ordered.members().iter().map(|ty| format_type(ty)).collect();
    assert_eq!(
        names,
        vec![
            "Z",
            "Option<String>",
            "Option<()>",
            "bool",
            "u8",
            "A",
            "A",
            "A",
            "B",
            "()",
        ]
    );
    match &ordered.members()[6] {
        Type::Struct(_, _, fields) => assert_eq!(fields[0].name, "x"),
        other => panic!("expected a struct, found {:?}", other),
    }
}

#[test]
fn sets_hold_each_member_once() {
    let mut strings: OrderedSet<String> = OrderedSet::new();
    for string in ["b", "a", "ab", "", "\u{e9}", "z", "a"] {
        let expected = !strings.contains(&string.to_owned());
        assert_eq!(strings.insert(string.to_owned()), expected);
    }
    assert_eq!(strings.members(), &vec!["", "a", "ab", "b", "z", "\u{e9}"]);
    let mut more: OrderedSet<String> = OrderedSet::new();
    more.insert("b".to_owned());
    more.insert("c".to_owned());
    strings.append(more);
    assert_eq!(strings.members(), &vec!["", "a", "ab", "b", "c", "z", "\u{e9}"]);
    assert!(strings.contains(&"c".to_owned()));
    assert!(!strings.contains(&"d".to_owned()));
}

#[test]
fn strings_are_ordered_as_in_std() {
    let samples = ["", "a", "b", "ab", "aa", "A", "_", "\u{7f}", "\u{80}", "\u{ffff}", "\u{10000}"];
    let mut ordered: OrderedSet<String> = OrderedSet::new();
    let mut expected = std::collections::BTreeSet::new();
    for sample in samples {
        ordered.insert(sample.to_owned());
        expected.insert(sample.to_owned());
    }
    let expected: Vec<String> = expected.into_iter().collect();
    assert_eq!(ordered.members(), &expected);
}
