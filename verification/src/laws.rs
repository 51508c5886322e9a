//! What holds of the bindings as a whole.

use crate::bindings;
use crate::bindings::generate_bindings;
use crate::files;
use crate::files::{Asset, BindingsFile};
use crate::formatting;
use crate::function_bindings;
use crate::function_bindings::generate_function_bindings;
use crate::functions;
use crate::functions::FunctionList;
use crate::keys;
use crate::order;
use crate::order::{Ordered, OrderedSet};
use crate::text;
use crate::type_bindings;
use crate::type_bindings::generate_type_bindings;
use crate::types;
use crate::types::{Primitive, Type};
use vstd::prelude::*;

verus! {

/// Whether one string comes before another by the code points of their characters.
pub open spec fn comes_before(a: Seq<char>, b: Seq<char>) -> bool {
    exists|at: int|
        #![trigger a.take(at)]
        0 <= at <= a.len() && at < b.len() && a.take(at) == b.take(at) && (at < a.len() ==> a[at]
            < b[at])
}

/// Strings are listed in the order of their code points, a proper prefix before what it starts.
pub proof fn strings_are_ordered_by_code_points(a: Seq<char>, b: Seq<char>)
    ensures
        order::precedes(keys::string_key(a), keys::string_key(b)) == comes_before(a, b),
{
    let p = keys::string_key(a);
    let q = keys::string_key(b);
    if order::precedes(p, q) {
        let at = choose|at: int| order::precedes_at(p, q, at);
        assert(at <= a.len()) by {
            if at > a.len() {
                assert(p.take(at)[a.len() as int] == 0);
                assert(q[a.len() as int] == 0);
                assert(b.len() == a.len()) by {
                    if a.len() < b.len() {
                        assert(q[a.len() as int] == keys::char_key(b[a.len() as int]));
                        keys::lemma_chars(b[a.len() as int], b[a.len() as int]);
                    }
                }
            }
        }
        assert(at < b.len()) by {
            if at >= b.len() {
                assert(q[at] == 0 && at == b.len());
                if at < a.len() {
                    keys::lemma_chars(a[at], a[at]);
                }
            }
        }
        assert forall|i: int| 0 <= i < at implies a[i] == b[i] by {
            assert(p.take(at)[i] == q.take(at)[i]);
            if i < b.len() {
                assert(p[i] == keys::char_key(a[i]) && q[i] == keys::char_key(b[i]));
                keys::lemma_chars(a[i], b[i]);
            }
        }
        assert(a.take(at) =~= b.take(at));
        if at < a.len() {
            assert(p[at] == keys::char_key(a[at]) && q[at] == keys::char_key(b[at]));
            keys::lemma_chars(a[at], b[at]);
        }
        assert(comes_before(a, b));
    }
    if comes_before(a, b) {
        let at = choose|at: int|
            #![trigger a.take(at)]
            0 <= at <= a.len() && at < b.len() && a.take(at) == b.take(at) && (at < a.len()
                ==> a[at] < b[at]);
        assert forall|i: int| 0 <= i < at implies p[i] == q[i] by {
            assert(a.take(at)[i] == b.take(at)[i]);
        }
        assert(p.take(at) =~= q.take(at));
        assert(q[at] == keys::char_key(b[at]));
        keys::lemma_chars(b[at], b[at]);
        if at < a.len() {
            assert(p[at] == keys::char_key(a[at]));
            keys::lemma_chars(a[at], b[at]);
        }
        assert(order::precedes_at(p, q, at));
    }
}

/// Types are listed by their kinds first: aliases before enums, enums before structs.
pub proof fn types_are_ordered_by_kind(a: types::TypeModel, b: types::TypeModel)
    requires
        keys::kind(a) < keys::kind(b),
    ensures
        order::precedes(keys::type_key(a), keys::type_key(b)),
{
    let p = keys::type_key(a);
    let q = keys::type_key(b);
    assert(p.take(0) =~= q.take(0));
    assert(order::precedes_at(p, q, 0));
}

/// The name that a definition declares.
pub open spec fn defined_name(ty: types::TypeModel) -> Option<Seq<char>> {
    match ty {
        types::TypeModel::Alias(name, _) => Some(name),
        types::TypeModel::Enum(name, _, _, _) => Some(name),
        types::TypeModel::Struct(name, _, _) => Some(name),
        _ => None,
    }
}

/// Definitions of one kind are listed by the names that they declare.
pub proof fn definitions_of_a_kind_are_ordered_by_name(a: types::TypeModel, b: types::TypeModel)
    requires
        keys::kind(a) == keys::kind(b),
        defined_name(a) is Some,
        comes_before(defined_name(a)->0, defined_name(b)->0),
    ensures
        order::precedes(keys::type_key(a), keys::type_key(b)),
{
    let m = defined_name(a)->0;
    let n = defined_name(b)->0;
    let p = keys::string_key(m);
    let q = keys::string_key(n);
    let s = keys::type_key(a);
    let t = keys::type_key(b);
    strings_are_ordered_by_code_points(m, n);
    let at = choose|at: int| order::precedes_at(p, q, at);
    assert(at < p.len()) by {
        if at == p.len() {
            assert(p.take(at)[at - 1] == 0);
            assert(q[at - 1] == 0);
            assert(at - 1 < n.len());
            keys::lemma_chars(n[at - 1], n[at - 1]);
        }
    }
    assert(forall|i: int| 0 <= i < p.len() ==> s[i + 1] == #[trigger] p[i]);
    assert(forall|i: int| 0 <= i < q.len() ==> t[i + 1] == #[trigger] q[i]);
    assert forall|i: int| 0 <= i < at + 1 implies s[i] == t[i] by {
        if i > 0 {
            assert(p.take(at)[i - 1] == q.take(at)[i - 1]);
            assert(s[i] == p[i - 1] && t[i] == q[i - 1]);
        }
    }
    assert(s.take(at + 1) =~= t.take(at + 1));
    assert(s[at + 1] == p[at] && t[at + 1] == q[at]);
    assert(order::precedes_at(s, t, at + 1));
}

/// The paths below `std` that bindings can import.
pub open spec fn known_std_types() -> Set<Seq<char>> {
    set![
        "collections::BTreeMap"@,
        "collections::BTreeSet"@,
        "collections::HashMap"@,
        "collections::HashSet"@,
        "rc::Rc"@,
    ]
}

/// The paths of collections are their names below their module.
pub proof fn lemma_collection_paths()
    ensures
        "collections::"@ + "BTreeMap"@ == "collections::BTreeMap"@,
        "collections::"@ + "BTreeSet"@ == "collections::BTreeSet"@,
        "collections::"@ + "HashMap"@ == "collections::HashMap"@,
        "collections::"@ + "HashSet"@ == "collections::HashSet"@,
{
    reveal_strlit("collections::");
    reveal_strlit("BTreeMap");
    reveal_strlit("BTreeSet");
    reveal_strlit("HashMap");
    reveal_strlit("HashSet");
    reveal_strlit("collections::BTreeMap");
    reveal_strlit("collections::BTreeSet");
    reveal_strlit("collections::HashMap");
    reveal_strlit("collections::HashSet");
    assert("collections::"@ + "BTreeMap"@ =~= "collections::BTreeMap"@);
    assert("collections::"@ + "BTreeSet"@ =~= "collections::BTreeSet"@);
    assert("collections::"@ + "HashMap"@ =~= "collections::HashMap"@);
    assert("collections::"@ + "HashSet"@ =~= "collections::HashSet"@);
}

/// Whatever a type is made of, it takes no other imports from `std` than the known ones.
pub proof fn std_types_are_known(ty: types::TypeModel)
    ensures
        type_bindings::std_types(ty).subset_of(known_std_types()),
    decreases ty,
{
    lemma_collection_paths();
    match ty {
        types::TypeModel::Alias(_, ty) => std_types_are_known(*ty),
        types::TypeModel::Container(_, ty) => std_types_are_known(*ty),
        types::TypeModel::Enum(_, _, variants, _) => lemma_variants(variants),
        types::TypeModel::GenericArgument(arg) => match arg.ty {
            Some(ty) => std_types_are_known(ty),
            None => {},
        },
        types::TypeModel::List(_, ty) => std_types_are_known(*ty),
        types::TypeModel::Mapping(_, key, value) => {
            std_types_are_known(*key);
            std_types_are_known(*value);
        },
        types::TypeModel::Struct(_, _, fields) => lemma_fields(fields),
        types::TypeModel::Tuple(items) => lemma_items(items),
        _ => {},
    }
}

proof fn lemma_variants(variants: Seq<types::VariantModel>)
    ensures
        type_bindings::variants_std_types(variants).subset_of(known_std_types()),
    decreases variants,
{
    if variants.len() > 0 {
        lemma_variants(variants.drop_last());
        assert(decreases_to!(variants => variants[variants.len() - 1]));
        std_types_are_known(variants.last().ty);
    }
}

proof fn lemma_fields(fields: Seq<types::FieldModel>)
    ensures
        type_bindings::fields_std_types(fields).subset_of(known_std_types()),
    decreases fields,
{
    if fields.len() > 0 {
        lemma_fields(fields.drop_last());
        assert(decreases_to!(fields => fields[fields.len() - 1]));
        std_types_are_known(fields.last().ty);
    }
}

proof fn lemma_items(items: Seq<types::TypeModel>)
    ensures
        type_bindings::items_std_types(items).subset_of(known_std_types()),
    decreases items,
{
    if items.len() > 0 {
        lemma_items(items.drop_last());
        std_types_are_known(items.last());
    }
}

/// The imports of a file are some of the known ones, each once and in ascending order.
pub proof fn imports_are_known_and_ascending(set: Set<types::TypeModel>)
    ensures
        ({
            let paths = order::listing::<String>(type_bindings::std_types_of(set));
            &&& paths.to_set() == type_bindings::std_types_of(set)
            &&& paths.to_set().subset_of(known_std_types())
            &&& paths.no_duplicates()
            &&& forall|i: int, j: int|
                0 <= i < j < paths.len() ==> comes_before(#[trigger] paths[i], #[trigger] paths[j])
        }),
{
    let imported = type_bindings::std_types_of(set);
    assert forall|path: Seq<char>| imported.contains(path) implies known_std_types().contains(
        path,
    ) by {
        let ty = choose|ty: types::TypeModel|
            set.contains(ty) && #[trigger] type_bindings::std_types(ty).contains(path);
        std_types_are_known(ty);
    }
    vstd::set_lib::lemma_set_subset_finite(known_std_types(), imported);
    order::finite_sets_have_listings::<String>(imported);
    let paths = order::listing::<String>(imported);
    assert forall|i: int, j: int| 0 <= i < j < paths.len() implies comes_before(
        #[trigger] paths[i],
        #[trigger] paths[j],
    ) by {
        assert(order::precedes(
            <String as Ordered>::key(paths[i]),
            <String as Ordered>::key(paths[j]),
        ));
        strings_are_ordered_by_code_points(paths[i], paths[j]);
    }
}

/// A type derives serialization if and only if it is sent, and deserialization if and only if it
/// is received.
pub proof fn directions_follow_the_sets(
    ty: types::TypeModel,
    serializable_types: Set<types::TypeModel>,
    deserializable_types: Set<types::TypeModel>,
)
    requires
        serializable_types.contains(ty) || deserializable_types.contains(ty),
    ensures
        ({
            let reqs = type_bindings::requirements(ty, serializable_types, deserializable_types);
            &&& serializable_types.contains(ty) <==> reqs
                != type_bindings::SerializationRequirements::Deserialize
            &&& deserializable_types.contains(ty) <==> reqs
                != type_bindings::SerializationRequirements::Serialize
        }),
{
}

/// Aliases, structs and all enums but `Result` are defined, and nothing else is.
pub proof fn what_is_defined(
    ty: types::TypeModel,
    reqs: type_bindings::SerializationRequirements,
)
    ensures
        type_bindings::definition(ty, reqs) is Some <==> match ty {
            types::TypeModel::Alias(_, _) => true,
            types::TypeModel::Enum(name, _, _, _) => name != "Result"@,
            types::TypeModel::Struct(_, _, _) => true,
            _ => false,
        },
{
}

/// The file of types holds the definition of every type of either set that has one, and holds no
/// other definitions.
pub proof fn every_type_is_defined(
    serializable_types: Set<types::TypeModel>,
    deserializable_types: Set<types::TypeModel>,
    text: Seq<char>,
)
    requires
        serializable_types.finite(),
        deserializable_types.finite(),
    ensures
        ({
            let all_types = serializable_types.union(deserializable_types);
            type_bindings::definitions(
                order::listing::<Type>(all_types),
                serializable_types,
                deserializable_types,
            ).contains(text) <==> exists|ty: types::TypeModel|
                all_types.contains(ty) && #[trigger] type_bindings::member_definition(
                    ty,
                    serializable_types,
                    deserializable_types,
                ) == Some(text)
        }),
{
    let all_types = serializable_types.union(deserializable_types);
    order::finite_sets_have_listings::<Type>(all_types);
    let list = order::listing::<Type>(all_types);
    lemma_defined_texts(list, serializable_types, deserializable_types, text);
    assert forall|ty: types::TypeModel| all_types.contains(ty) <==> list.contains(ty) by {
        assert(list.to_set().contains(ty) <==> list.contains(ty));
    }
}

proof fn lemma_defined_texts(
    list: Seq<types::TypeModel>,
    serializable_types: Set<types::TypeModel>,
    deserializable_types: Set<types::TypeModel>,
    text: Seq<char>,
)
    ensures
        type_bindings::definitions(list, serializable_types, deserializable_types).contains(text)
            <==> exists|ty: types::TypeModel|
            list.contains(ty) && #[trigger] type_bindings::member_definition(
                ty,
                serializable_types,
                deserializable_types,
            ) == Some(text),
    decreases list.len(),
{
    type_bindings::lemma_definitions(list, serializable_types, deserializable_types);
    if list.len() > 0 {
        let fewer = list.drop_last();
        let last = list.last();
        lemma_defined_texts(fewer, serializable_types, deserializable_types, text);
        let before = type_bindings::definitions(fewer, serializable_types, deserializable_types);
        let after = type_bindings::definitions(list, serializable_types, deserializable_types);
        assert forall|ty: types::TypeModel| list.contains(ty) <==> fewer.contains(ty) || ty
            == last by {
            assert(list[list.len() - 1] == last);
            if fewer.contains(ty) {
                let i = choose|i: int| 0 <= i < fewer.len() && fewer[i] == ty;
                assert(list[i] == ty);
            }
            if list.contains(ty) && ty != last {
                let i = choose|i: int| 0 <= i < list.len() && list[i] == ty;
                assert(fewer[i] == ty);
            }
        }
        match type_bindings::member_definition(last, serializable_types, deserializable_types) {
            Some(definition) => {
                assert(after == before.push(definition));
                assert(after[before.len() as int] == definition);
                if before.contains(text) {
                    let i = choose|i: int| 0 <= i < before.len() && before[i] == text;
                    assert(after[i] == text);
                }
                if after.contains(text) && text != definition {
                    let i = choose|i: int| 0 <= i < after.len() && after[i] == text;
                    assert(before[i] == text);
                }
            },
            None => {},
        }
    }
}

proof fn lemma_paths_differ(path: Seq<char>, a: Seq<char>, b: Seq<char>)
    requires
        a != b,
    ensures
        path + a != path + b,
{
    if path + a == path + b {
        assert(a =~= (path + a).skip(path.len() as int));
        assert(b =~= (path + b).skip(path.len() as int));
    }
}

/// The names that the files of bindings are written under, below their common path.
pub open spec fn file_names(requires_async: bool) -> Seq<Seq<char>> {
    if requires_async {
        seq![
            "/types.rs"@,
            "/functions.rs"@,
            "/support.rs"@,
            "/async.rs"@,
            "/queue.rs"@,
            "/task.rs"@,
            "/mod.rs"@,
        ]
    } else {
        seq!["/types.rs"@, "/functions.rs"@, "/support.rs"@, "/mod.rs"@]
    }
}

proof fn lemma_file_names(requires_async: bool)
    ensures
        file_names(requires_async).no_duplicates(),
{
    reveal_strlit("/types.rs");
    reveal_strlit("/functions.rs");
    reveal_strlit("/support.rs");
    reveal_strlit("/async.rs");
    reveal_strlit("/queue.rs");
    reveal_strlit("/task.rs");
    reveal_strlit("/mod.rs");
    assert("/types.rs"@.len() == 9 && "/types.rs"@[1] == 't');
    assert("/functions.rs"@.len() == 13);
    assert("/support.rs"@.len() == 11);
    assert("/async.rs"@.len() == 9 && "/async.rs"@[1] == 'a');
    assert("/queue.rs"@.len() == 9 && "/queue.rs"@[1] == 'q');
    assert("/task.rs"@.len() == 8);
    assert("/mod.rs"@.len() == 7);
    let names = file_names(requires_async);
    assert forall|i: int, j: int| 0 <= i < j < names.len() implies names[i] != names[j] by {
        assert(i == 0 || i == 1 || i == 2 || i == 3 || i == 4 || i == 5);
        assert(j == 1 || j == 2 || j == 3 || j == 4 || j == 5 || j == 6);
    }
}

/// All files of bindings are written below the given path, each under a name of its own, so that
/// none overwrites another.
pub proof fn files_do_not_overwrite_each_other(
    import_functions: Seq<functions::FunctionModel>,
    export_functions: Seq<functions::FunctionModel>,
    serializable_types: Set<types::TypeModel>,
    deserializable_types: Set<types::TypeModel>,
    path: Seq<char>,
)
    ensures
        ({
            let written = bindings::bindings_files(
                import_functions,
                export_functions,
                serializable_types,
                deserializable_types,
                path,
            );
            let names = file_names(bindings::requires_async(import_functions));
            &&& written.len() == names.len()
            &&& forall|i: int|
                0 <= i < written.len() ==> (#[trigger] written[i]).path == path + names[i]
            &&& forall|i: int, j: int|
                0 <= i < j < written.len() ==> (#[trigger] written[i]).path != (
                #[trigger] written[j]).path
        }),
{
    let written = bindings::bindings_files(
        import_functions,
        export_functions,
        serializable_types,
        deserializable_types,
        path,
    );
    let requires_async = bindings::requires_async(import_functions);
    let names = file_names(requires_async);
    lemma_file_names(requires_async);
    let types_file = type_bindings::types_file(serializable_types, deserializable_types, path);
    let functions_file = function_bindings::functions_file(
        import_functions,
        export_functions,
        path,
        requires_async,
    );
    lemma_written_under(types_file, functions_file, path, requires_async);
    assert forall|i: int, j: int| 0 <= i < j < written.len() implies (#[trigger] written[i]).path != (
    #[trigger] written[j]).path by {
        lemma_paths_differ(path, names[i], names[j]);
    }
}

proof fn lemma_written_under(
    types_file: files::FileModel,
    functions_file: files::FileModel,
    path: Seq<char>,
    requires_async: bool,
)
    requires
        types_file.path == path + "/types.rs"@,
        functions_file.path == path + "/functions.rs"@,
    ensures
        ({
            let written = bindings::with_runtime(types_file, functions_file, path, requires_async);
            let names = file_names(requires_async);
            &&& written.len() == names.len()
            &&& forall|i: int|
                0 <= i < written.len() ==> (#[trigger] written[i]).path == path + names[i]
        }),
{
    let written = bindings::with_runtime(types_file, functions_file, path, requires_async);
    assert forall|i: int| 0 <= i < written.len() implies (#[trigger] written[i]).path == path
        + file_names(requires_async)[i] by {
        assert(i == 0 || i == 1 || i == 2 || i == 3 || i == 4 || i == 5 || i == 6);
    }
}

/// Whether a part of the runtime is among the files.
pub open spec fn has_asset(written: Seq<files::FileModel>, asset: Asset) -> bool {
    exists|i: int|
        0 <= i < written.len() && (#[trigger] written[i]).contents == files::ContentsModel::Asset(
            asset,
        )
}

/// Every plugin gets the supporting part of the runtime. The asynchronous parts go to those
/// plugins, and to those alone, that import an asynchronous function.
pub proof fn runtime_follows_async_imports(
    import_functions: Seq<functions::FunctionModel>,
    export_functions: Seq<functions::FunctionModel>,
    serializable_types: Set<types::TypeModel>,
    deserializable_types: Set<types::TypeModel>,
    path: Seq<char>,
)
    ensures
        ({
            let written = bindings::bindings_files(
                import_functions,
                export_functions,
                serializable_types,
                deserializable_types,
                path,
            );
            let requires_async = bindings::requires_async(import_functions);
            &&& has_asset(written, Asset::Support)
            &&& has_asset(written, Asset::Async) == requires_async
            &&& has_asset(written, Asset::Queue) == requires_async
            &&& has_asset(written, Asset::Task) == requires_async
        }),
{
    let written = bindings::bindings_files(
        import_functions,
        export_functions,
        serializable_types,
        deserializable_types,
        path,
    );
    let requires_async = bindings::requires_async(import_functions);
    let types_file = type_bindings::types_file(serializable_types, deserializable_types, path);
    let functions_file = function_bindings::functions_file(
        import_functions,
        export_functions,
        path,
        requires_async,
    );
    lemma_runtime(types_file, functions_file, path, requires_async);
    assert(written == bindings::with_runtime(types_file, functions_file, path, requires_async));
}

proof fn lemma_runtime(
    types_file: files::FileModel,
    functions_file: files::FileModel,
    path: Seq<char>,
    requires_async: bool,
)
    requires
        types_file.contents is Text,
        functions_file.contents is Text,
    ensures
        ({
            let written = bindings::with_runtime(types_file, functions_file, path, requires_async);
            &&& has_asset(written, Asset::Support)
            &&& has_asset(written, Asset::Async) == requires_async
            &&& has_asset(written, Asset::Queue) == requires_async
            &&& has_asset(written, Asset::Task) == requires_async
        }),
{
    let written = bindings::with_runtime(types_file, functions_file, path, requires_async);
    assert(written[2].contents == files::ContentsModel::Asset(Asset::Support));
    if requires_async {
        assert(written[3].contents == files::ContentsModel::Asset(Asset::Async));
        assert(written[4].contents == files::ContentsModel::Asset(Asset::Queue));
        assert(written[5].contents == files::ContentsModel::Asset(Asset::Task));
    } else {
        assert(written.len() == 4);
        assert(written[0] == types_file && written[1] == functions_file);
        assert(written[3].contents is Text);
    }
}

/// Different primitive types are written differently.
pub proof fn primitives_are_told_apart(a: Primitive, b: Primitive)
    requires
        types::primitive_name(a) == types::primitive_name(b),
    ensures
        a == b,
{
    reveal_strlit("bool");
    reveal_strlit("f32");
    reveal_strlit("f64");
    reveal_strlit("i8");
    reveal_strlit("i16");
    reveal_strlit("i32");
    reveal_strlit("i64");
    reveal_strlit("i128");
    reveal_strlit("u8");
    reveal_strlit("u16");
    reveal_strlit("u32");
    reveal_strlit("u64");
    reveal_strlit("u128");
    assert("bool"@.len() == 4 && "bool"@[0] == 'b' && "bool"@[1] == 'o');
    assert("f32"@.len() == 3 && "f32"@[0] == 'f' && "f32"@[1] == '3');
    assert("f64"@.len() == 3 && "f64"@[0] == 'f' && "f64"@[1] == '6');
    assert("i8"@.len() == 2 && "i8"@[0] == 'i' && "i8"@[1] == '8');
    assert("i16"@.len() == 3 && "i16"@[0] == 'i' && "i16"@[1] == '1');
    assert("i32"@.len() == 3 && "i32"@[0] == 'i' && "i32"@[1] == '3');
    assert("i64"@.len() == 3 && "i64"@[0] == 'i' && "i64"@[1] == '6');
    assert("i128"@.len() == 4 && "i128"@[0] == 'i' && "i128"@[1] == '1');
    assert("u8"@.len() == 2 && "u8"@[0] == 'u' && "u8"@[1] == '8');
    assert("u16"@.len() == 3 && "u16"@[0] == 'u' && "u16"@[1] == '1');
    assert("u32"@.len() == 3 && "u32"@[0] == 'u' && "u32"@[1] == '3');
    assert("u64"@.len() == 3 && "u64"@[0] == 'u' && "u64"@[1] == '6');
    assert("u128"@.len() == 4 && "u128"@[0] == 'u' && "u128"@[1] == '1');
}

/// The text of a tuple is made of the texts of its items, so that it is Rust code where theirs are.
pub proof fn tuples_are_written_item_by_item(items: Seq<types::TypeModel>)
    ensures
        formatting::type_text(types::TypeModel::Tuple(items)) == "("@ + text::join(
            items.map_values(|item: types::TypeModel| formatting::type_text(item)),
            ", "@,
        ) + ")"@,
{
    formatting::lemma_type_texts(items);
}

/// Whether all arguments of a function are primitives.
pub open spec fn takes_primitives(function: functions::FunctionModel) -> bool {
    forall|i: int| 0 <= i < function.args.len() ==> (#[trigger] function.args[i]).ty is Primitive
}

/// Primitive arguments cross the boundary as they are: they keep their types, and no line converts
/// them in either direction.
pub proof fn primitives_cross_unchanged(function: functions::FunctionModel, pointer: Seq<char>)
    requires
        takes_primitives(function),
    ensures
        function_bindings::boundary_args(function.args, pointer) == function_bindings::typed_args(
            function.args,
        ),
        function_bindings::import_args(function.args).len() == 0,
        forall|i: int|
            0 <= i < function.args.len() ==> function_bindings::export_arg(
                #[trigger] function.args[i],
            ) == ""@,
{
    let args = function.args;
    assert forall|i: int| 0 <= i < args.len() implies function_bindings::boundary_type(
        (#[trigger] args[i]).ty,
        pointer,
    ) == formatting::type_text(args[i].ty) by {
        assert(args[i].ty is Primitive);
    }
    assert(args.map_values(
        |arg: functions::ArgModel|
            arg.name + ": "@ + function_bindings::boundary_type(arg.ty, pointer),
    ) =~= args.map_values(
        |arg: functions::ArgModel| arg.name + ": "@ + formatting::type_text(arg.ty),
    ));
    lemma_none_behind_pointers(args);
}

proof fn lemma_none_behind_pointers(args: Seq<functions::ArgModel>)
    requires
        forall|i: int| 0 <= i < args.len() ==> (#[trigger] args[i]).ty is Primitive,
    ensures
        args.filter(
            |arg: functions::ArgModel| function_bindings::is_behind_pointer(arg),
        ).len() == 0,
    decreases args.len(),
{
    reveal(Seq::filter);
    if args.len() > 0 {
        assert forall|i: int| 0 <= i < args.len() - 1 implies (
        #[trigger] args.drop_last()[i]).ty is Primitive by {
            assert(args[i].ty is Primitive);
        }
        assert(args[args.len() - 1].ty is Primitive);
        lemma_none_behind_pointers(args.drop_last());
    }
}

/// The asynchronous runtime is needed for a list of imports if and only if it is needed for a part
/// of the list, and for a single import if and only if that is asynchronous.
pub proof fn async_is_found_in_any_import(
    a: Seq<functions::FunctionModel>,
    b: Seq<functions::FunctionModel>,
    function: functions::FunctionModel,
)
    ensures
        !bindings::requires_async(Seq::empty()),
        bindings::requires_async(seq![function]) == function.is_async,
        bindings::requires_async(a + b) == (bindings::requires_async(a) || bindings::requires_async(
            b,
        )),
{
    let one = seq![function];
    assert(one[0] == function);
    let both = a + b;
    if bindings::requires_async(a) {
        let i = choose|i: int| 0 <= i < a.len() && (#[trigger] a[i]).is_async;
        assert(both[i] == a[i]);
    }
    if bindings::requires_async(b) {
        let i = choose|i: int| 0 <= i < b.len() && (#[trigger] b[i]).is_async;
        assert(both[a.len() + i] == b[i]);
    }
    if bindings::requires_async(both) {
        let i = choose|i: int| 0 <= i < both.len() && (#[trigger] both[i]).is_async;
        if i < a.len() {
            assert(a[i] == both[i]);
        } else {
            assert(b[i - a.len()] == both[i]);
        }
    }
}

/// Complete bindings start with the files of types and of functions, as these are generated alone,
/// and go on with the runtime. The functions and the module that holds the files together are
/// asynchronous if and only if an import is.
pub proof fn complete_bindings_hold_all_files(
    import_functions: FunctionList,
    export_functions: FunctionList,
    serializable_types: OrderedSet<Type>,
    deserializable_types: OrderedSet<Type>,
    path: &str,
    generated: Vec<BindingsFile>,
    of_types: BindingsFile,
    of_functions: BindingsFile,
)
    requires
        call_ensures(
            generate_bindings,
            (import_functions, export_functions, serializable_types, deserializable_types, path),
            generated,
        ),
        call_ensures(
            generate_type_bindings,
            (serializable_types, deserializable_types, path),
            of_types,
        ),
        call_ensures(
            generate_function_bindings,
            (
                import_functions,
                export_functions,
                path,
                bindings::requires_async(import_functions@),
            ),
            of_functions,
        ),
    ensures
        ({
            let requires_async = bindings::requires_async(import_functions@);
            let last = generated.len() - 1;
            &&& generated.len() == if requires_async {
                7int
            } else {
                4
            }
            &&& generated[0]@ == of_types@
            &&& generated[1]@ == of_functions@
            &&& generated[2]@ == (files::FileModel {
                path: path@ + "/support.rs"@,
                contents: files::ContentsModel::Asset(Asset::Support),
            })
            &&& requires_async ==> generated[3]@ == (files::FileModel {
                path: path@ + "/async.rs"@,
                contents: files::ContentsModel::Asset(Asset::Async),
            })
            &&& requires_async ==> generated[4]@ == (files::FileModel {
                path: path@ + "/queue.rs"@,
                contents: files::ContentsModel::Asset(Asset::Queue),
            })
            &&& requires_async ==> generated[5]@ == (files::FileModel {
                path: path@ + "/task.rs"@,
                contents: files::ContentsModel::Asset(Asset::Task),
            })
            &&& generated[last]@ == (files::FileModel {
                path: path@ + "/mod.rs"@,
                contents: files::ContentsModel::Text(bindings::module_text(requires_async)),
            })
        }),
{
    let requires_async = bindings::requires_async(import_functions@);
    let written = generated@.map_values(|file: BindingsFile| file@);
    lemma_positions(of_types@, of_functions@, path@, requires_async);
    assert(written == bindings::with_runtime(of_types@, of_functions@, path@, requires_async));
    assert(forall|i: int| 0 <= i < generated.len() ==> #[trigger] written[i] == generated[i]@);
    assert(written.len() == generated.len());
}

proof fn lemma_positions(
    types_file: files::FileModel,
    functions_file: files::FileModel,
    path: Seq<char>,
    requires_async: bool,
)
    ensures
        ({
            let written = bindings::with_runtime(types_file, functions_file, path, requires_async);
            &&& written.len() == if requires_async {
                7int
            } else {
                4
            }
            &&& written[0] == types_file
            &&& written[1] == functions_file
            &&& written[2] == (files::FileModel {
                path: path + "/support.rs"@,
                contents: files::ContentsModel::Asset(Asset::Support),
            })
            &&& requires_async ==> written[3] == (files::FileModel {
                path: path + "/async.rs"@,
                contents: files::ContentsModel::Asset(Asset::Async),
            })
            &&& requires_async ==> written[4] == (files::FileModel {
                path: path + "/queue.rs"@,
                contents: files::ContentsModel::Asset(Asset::Queue),
            })
            &&& requires_async ==> written[5] == (files::FileModel {
                path: path + "/task.rs"@,
                contents: files::ContentsModel::Asset(Asset::Task),
            })
            &&& written.last() == (files::FileModel {
                path: path + "/mod.rs"@,
                contents: files::ContentsModel::Text(bindings::module_text(requires_async)),
            })
        }),
{
}

/// The module declares exactly the files that stand beside it, and re-exports what each offers.
/// With the asynchronous runtime it holds all that it holds without, and more.
pub proof fn the_module_declares_its_files(requires_async: bool)
    ensures
        ({
            let module = bindings::module_text(requires_async);
            let base = "pub use support::{\n    FatPtr as _FP_FatPtr, __fp_free, __fp_malloc, export_value_to_host as _fp_export_value_to_host,\n    from_fat_ptr as _fp_from_fat_ptr, import_value_from_host as _fp_import_value_from_host,\n    malloc as _fp_malloc, to_fat_ptr as _fp_to_fat_ptr,\n};\n"@;
            &&& requires_async ==> module == "mod r#async;\n"@ + "mod functions;\n"@
                + "mod queue;\n"@ + "mod support;\n"@ + "mod task;\n"@
                + "mod types;\n\npub use functions::*;\n"@
                + "pub use r#async::{AsyncValue as _FP_AsyncValue, __fp_guest_resolve_async_value};\n"@
                + base + "pub use task::Task as _FP_Task;\n"@ + "pub use types::*;\n"@
            &&& !requires_async ==> module == "mod functions;\n"@ + "mod support;\n"@
                + "mod types;\n\npub use functions::*;\n"@ + base + "pub use types::*;\n"@
        }),
{
    let base = "pub use support::{\n    FatPtr as _FP_FatPtr, __fp_free, __fp_malloc, export_value_to_host as _fp_export_value_to_host,\n    from_fat_ptr as _fp_from_fat_ptr, import_value_from_host as _fp_import_value_from_host,\n    malloc as _fp_malloc, to_fat_ptr as _fp_to_fat_ptr,\n};\n"@;
    if !requires_async {
        reveal_strlit("");
        let a = "mod functions;\n"@;
        let b = "mod support;\n"@;
        let c = "mod types;\n\npub use functions::*;\n"@;
        let d = "pub use types::*;\n"@;
        assert(bindings::module_text(requires_async) == ""@ + a + ""@ + b + ""@ + c + ""@ + base
            + ""@ + d);
        lemma_without_blanks(""@, a, b, c, base, d);
    }
}

proof fn lemma_without_blanks(
    blank: Seq<char>,
    a: Seq<char>,
    b: Seq<char>,
    c: Seq<char>,
    d: Seq<char>,
    e: Seq<char>,
)
    requires
        blank.len() == 0,
    ensures
        blank + a + blank + b + blank + c + blank + d + blank + e == a + b + c + d + e,
{
    assert(blank + a =~= a);
    assert(a + blank =~= a);
    assert(a + b + blank =~= a + b);
    assert(a + b + c + blank =~= a + b + c);
    assert(a + b + c + d + blank =~= a + b + c + d);
}

/// Aliases are listed before enums, and enums before structs.
pub proof fn aliases_precede_enums_and_structs(
    a: types::TypeModel,
    b: types::TypeModel,
    c: types::TypeModel,
)
    requires
        a is Alias,
        b is Enum,
        c is Struct,
    ensures
        order::precedes(keys::type_key(a), keys::type_key(b)),
        order::precedes(keys::type_key(b), keys::type_key(c)),
{
    types_are_ordered_by_kind(a, b);
    types_are_ordered_by_kind(b, c);
}

/// A set has a member if and only if one of its listed members is that member. Its members are
/// listed in their order, and so none of them twice.
pub proof fn sets_know_their_members(
    set: &OrderedSet<Type>,
    ty: &Type,
    found: bool,
    members: &Vec<Type>,
)
    requires
        call_ensures(OrderedSet::<Type>::contains, (set, ty), found),
        call_ensures(OrderedSet::<Type>::members, (set,), members),
    ensures
        found <==> exists|i: int| 0 <= i < members.len() && (#[trigger] members[i])@ == ty@,
        forall|i: int, j: int|
            0 <= i < j < members.len() ==> order::precedes(
                keys::type_key((#[trigger] members[i])@),
                keys::type_key((#[trigger] members[j])@),
            ) && members[i]@ != members[j]@,
{
    let list = order::models(members@);
    assert(list.to_set().contains(ty@) <==> list.contains(ty@));
    if found {
        let i = choose|i: int| 0 <= i < list.len() && list[i] == ty@;
        assert(members[i]@ == ty@);
    }
    if exists|i: int| 0 <= i < members.len() && (#[trigger] members[i])@ == ty@ {
        let i = choose|i: int| 0 <= i < members.len() && (#[trigger] members[i])@ == ty@;
        assert(list[i] == ty@);
    }
    assert forall|i: int, j: int| 0 <= i < j < members.len() implies order::precedes(
        keys::type_key((#[trigger] members[i])@),
        keys::type_key((#[trigger] members[j])@),
    ) && members[i]@ != members[j]@ by {
        assert(list[i] == members[i]@ && list[j] == members[j]@);
        assert(order::precedes(
            <Type as Ordered>::key(list[i]),
            <Type as Ordered>::key(list[j]),
        ));
        order::precedes_is_irreflexive(<Type as Ordered>::key(list[i]));
    }
}

} // verus!
