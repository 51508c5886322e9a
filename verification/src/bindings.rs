//! Complete bindings for a plugin.

use crate::files;
use crate::files::{Asset, BindingsFile, Contents};
use crate::function_bindings;
use crate::function_bindings::generate_function_bindings;
use crate::functions;
use crate::functions::FunctionList;
use crate::order::OrderedSet;
use crate::type_bindings;
use crate::type_bindings::generate_type_bindings;
use crate::types;
use crate::types::Type;
use vstd::prelude::*;
use vstd::string::StringExecFns;

verus! {

/// Whether a plugin needs the asynchronous part of the runtime: it imports an asynchronous
/// function.
pub open spec fn requires_async(import_functions: Seq<functions::FunctionModel>) -> bool {
    exists|i: int| 0 <= i < import_functions.len() && (#[trigger] import_functions[i]).is_async
}

/// The text, where the asynchronous part of the runtime is needed.
pub open spec fn if_async(requires_async: bool, text: Seq<char>) -> Seq<char> {
    if requires_async {
        text
    } else {
        ""@
    }
}

/// The file that holds the modules of the bindings together.
pub open spec fn module_text(requires_async: bool) -> Seq<char> {
    if_async(requires_async, "mod r#async;\n"@) + "mod functions;\n"@ + if_async(
        requires_async,
        "mod queue;\n"@,
    ) + "mod support;\n"@ + if_async(requires_async, "mod task;\n"@)
        + "mod types;\n\npub use functions::*;\n"@ + if_async(
        requires_async,
        "pub use r#async::{AsyncValue as _FP_AsyncValue, __fp_guest_resolve_async_value};\n"@,
    )
        + "pub use support::{\n    FatPtr as _FP_FatPtr, __fp_free, __fp_malloc, export_value_to_host as _fp_export_value_to_host,\n    from_fat_ptr as _fp_from_fat_ptr, import_value_from_host as _fp_import_value_from_host,\n    malloc as _fp_malloc, to_fat_ptr as _fp_to_fat_ptr,\n};\n"@
        + if_async(requires_async, "pub use task::Task as _FP_Task;\n"@) + "pub use types::*;\n"@
}

/// A part of the runtime, at its path.
pub open spec fn asset_file(path: Seq<char>, name: Seq<char>, asset: Asset) -> files::FileModel {
    files::FileModel { path: path + name, contents: files::ContentsModel::Asset(asset) }
}

/// The two files that depend on the protocol, followed by the runtime and the file that holds
/// the modules together.
pub open spec fn with_runtime(
    types_file: files::FileModel,
    functions_file: files::FileModel,
    path: Seq<char>,
    requires_async: bool,
) -> Seq<files::FileModel> {
    let support = asset_file(path, "/support.rs"@, Asset::Support);
    let module = files::FileModel {
        path: path + "/mod.rs"@,
        contents: files::ContentsModel::Text(module_text(requires_async)),
    };
    if requires_async {
        seq![
            types_file,
            functions_file,
            support,
            asset_file(path, "/async.rs"@, Asset::Async),
            asset_file(path, "/queue.rs"@, Asset::Queue),
            asset_file(path, "/task.rs"@, Asset::Task),
            module,
        ]
    } else {
        seq![types_file, functions_file, support, module]
    }
}

/// The files of complete bindings, in the order in which they are written.
pub open spec fn bindings_files(
    import_functions: Seq<functions::FunctionModel>,
    export_functions: Seq<functions::FunctionModel>,
    serializable_types: Set<types::TypeModel>,
    deserializable_types: Set<types::TypeModel>,
    path: Seq<char>,
) -> Seq<files::FileModel> {
    let requires_async = requires_async(import_functions);
    with_runtime(
        type_bindings::types_file(serializable_types, deserializable_types, path),
        function_bindings::functions_file(import_functions, export_functions, path, requires_async),
        path,
        requires_async,
    )
}

/// Finds out whether a plugin needs the asynchronous part of the runtime.
fn any_async(import_functions: &FunctionList) -> (found: bool)
    ensures
        found == requires_async(import_functions@),
{
    for i in 0..import_functions.functions.len()
        invariant
            forall|j: int| 0 <= j < i ==> !(#[trigger] import_functions@[j]).is_async,
    {
        assert(import_functions@[i as int] == import_functions.functions[i as int]@);
        if import_functions.functions[i].is_async {
            return true;
        }
    }
    false
}

/// Yields the text where the asynchronous part of the runtime is needed.
fn text_if_async(requires_async: bool, text: &'static str) -> (result: &'static str)
    ensures
        result@ == if_async(requires_async, text@),
{
    if requires_async {
        text
    } else {
        ""
    }
}

/// Writes the file that holds the modules of the bindings together.
fn format_module(requires_async: bool) -> (formatted: String)
    ensures
        formatted@ == module_text(requires_async),
{
    text_if_async(requires_async, "mod r#async;\n").to_owned().concat("mod functions;\n").concat(
        text_if_async(requires_async, "mod queue;\n"),
    ).concat("mod support;\n").concat(text_if_async(requires_async, "mod task;\n")).concat(
        "mod types;\n\npub use functions::*;\n",
    ).concat(
        text_if_async(
            requires_async,
            "pub use r#async::{AsyncValue as _FP_AsyncValue, __fp_guest_resolve_async_value};\n",
        ),
    ).concat(
        "pub use support::{\n    FatPtr as _FP_FatPtr, __fp_free, __fp_malloc, export_value_to_host as _fp_export_value_to_host,\n    from_fat_ptr as _fp_from_fat_ptr, import_value_from_host as _fp_import_value_from_host,\n    malloc as _fp_malloc, to_fat_ptr as _fp_to_fat_ptr,\n};\n",
    ).concat(text_if_async(requires_async, "pub use task::Task as _FP_Task;\n")).concat(
        "pub use types::*;\n",
    )
}

/// Generates the files of complete bindings, in the order in which they are to be written.
pub fn generate_bindings(
    import_functions: FunctionList,
    export_functions: FunctionList,
    serializable_types: OrderedSet<Type>,
    deserializable_types: OrderedSet<Type>,
    path: &str,
) -> (generated: Vec<BindingsFile>)
    requires
        type_bindings::are_definable(serializable_types@),
        type_bindings::are_definable(deserializable_types@),
    ensures
        generated@.map_values(|file: BindingsFile| file@) == bindings_files(
            import_functions@,
            export_functions@,
            serializable_types@,
            deserializable_types@,
            path@,
        ),
{
    let requires_async = any_async(&import_functions);
    let ghost types_file = type_bindings::types_file(
        serializable_types@,
        deserializable_types@,
        path@,
    );
    let ghost functions_file = function_bindings::functions_file(
        import_functions@,
        export_functions@,
        path@,
        requires_async,
    );
    let mut generated: Vec<BindingsFile> = Vec::new();
    generated.push(generate_type_bindings(serializable_types, deserializable_types, path));
    generated.push(
        generate_function_bindings(import_functions, export_functions, path, requires_async),
    );
    generated.push(
        BindingsFile {
            path: path.to_owned().concat("/support.rs"),
            contents: Contents::Asset(Asset::Support),
        },
    );
    if requires_async {
        generated.push(
            BindingsFile {
                path: path.to_owned().concat("/async.rs"),
                contents: Contents::Asset(Asset::Async),
            },
        );
        generated.push(
            BindingsFile {
                path: path.to_owned().concat("/queue.rs"),
                contents: Contents::Asset(Asset::Queue),
            },
        );
        generated.push(
            BindingsFile {
                path: path.to_owned().concat("/task.rs"),
                contents: Contents::Asset(Asset::Task),
            },
        );
    }
    generated.push(
        BindingsFile {
            path: path.to_owned().concat("/mod.rs"),
            contents: Contents::Text(format_module(requires_async)),
        },
    );
    assert(generated@.map_values(|file: BindingsFile| file@) =~= with_runtime(
        types_file,
        functions_file,
        path@,
        requires_async,
    ));
    generated
}

} // verus!
