//! Functions that cross the boundary, on the plugin's side.

use crate::files;
use crate::files::{BindingsFile, Contents};
use crate::formatting;
use crate::formatting::{format_primitive, format_type};
use crate::functions;
use crate::functions::{Function, FunctionArg, FunctionList};
use crate::text;
use crate::text::join_strings;
use crate::types;
use crate::types::Type;
use vstd::prelude::*;
use vstd::string::StringExecFns;

verus! {

/// How a value of this type crosses the boundary: a primitive as it is, any other behind a
/// pointer.
pub open spec fn boundary_type(ty: types::TypeModel, pointer: Seq<char>) -> Seq<char> {
    match ty {
        types::TypeModel::Primitive(primitive) => types::primitive_name(primitive),
        _ => pointer,
    }
}

/// The names of the arguments, as a call lists them.
pub open spec fn arg_names(args: Seq<functions::ArgModel>) -> Seq<char> {
    text::join(args.map_values(|arg: functions::ArgModel| arg.name), ", "@)
}

/// The arguments with their types, as a declaration lists them.
pub open spec fn typed_args(args: Seq<functions::ArgModel>) -> Seq<char> {
    text::join(
        args.map_values(
            |arg: functions::ArgModel| arg.name + ": "@ + formatting::type_text(arg.ty),
        ),
        ", "@,
    )
}

/// The arguments with the types in which they cross the boundary.
pub open spec fn boundary_args(args: Seq<functions::ArgModel>, pointer: Seq<char>) -> Seq<char> {
    text::join(
        args.map_values(
            |arg: functions::ArgModel| arg.name + ": "@ + boundary_type(arg.ty, pointer),
        ),
        ", "@,
    )
}

/// What is written before the `fn` of an asynchronous function.
pub open spec fn modifiers(is_async: bool) -> Seq<char> {
    if is_async {
        "async "@
    } else {
        ""@
    }
}

/// Writes how a value crosses the boundary.
fn format_boundary_type(ty: &Type, pointer: &str) -> (formatted: String)
    ensures
        formatted@ == boundary_type(ty@, pointer@),
{
    match ty {
        Type::Primitive(primitive) => format_primitive(*primitive),
        _ => pointer.to_owned(),
    }
}

/// Writes the names of the arguments.
fn format_arg_names(args: &Vec<FunctionArg>) -> (formatted: String)
    ensures
        formatted@ == arg_names(args@.map_values(|arg: FunctionArg| arg@)),
{
    let mut names: Vec<String> = Vec::new();
    for i in 0..args.len()
        invariant
            names.len() == i,
            forall|j: int| 0 <= j < i ==> #[trigger] names[j]@ == args[j].name@,
    {
        names.push(args[i].name.clone());
    }
    assert(text::texts(names@) =~= args@.map_values(|arg: FunctionArg| arg@).map_values(
        |arg: functions::ArgModel| arg.name,
    ));
    join_strings(&names, ", ")
}

/// Writes the arguments with their types.
fn format_typed_args(args: &Vec<FunctionArg>) -> (formatted: String)
    ensures
        formatted@ == typed_args(args@.map_values(|arg: FunctionArg| arg@)),
{
    let mut typed: Vec<String> = Vec::new();
    for i in 0..args.len()
        invariant
            typed.len() == i,
            forall|j: int|
                0 <= j < i ==> #[trigger] typed[j]@ == args[j].name@ + ": "@
                    + formatting::type_text(args[j].ty@),
    {
        typed.push(
            args[i].name.clone().concat(": ").concat(format_type(&args[i].ty).as_str()),
        );
    }
    assert(text::texts(typed@) =~= args@.map_values(|arg: FunctionArg| arg@).map_values(
        |arg: functions::ArgModel| arg.name + ": "@ + formatting::type_text(arg.ty),
    ));
    join_strings(&typed, ", ")
}

/// Writes the arguments with the types in which they cross the boundary.
fn format_boundary_args(args: &Vec<FunctionArg>, pointer: &str) -> (formatted: String)
    ensures
        formatted@ == boundary_args(args@.map_values(|arg: FunctionArg| arg@), pointer@),
{
    let mut typed: Vec<String> = Vec::new();
    for i in 0..args.len()
        invariant
            typed.len() == i,
            forall|j: int|
                0 <= j < i ==> #[trigger] typed[j]@ == args[j].name@ + ": "@ + boundary_type(
                    args[j].ty@,
                    pointer@,
                ),
    {
        typed.push(
            args[i].name.clone().concat(": ").concat(
                format_boundary_type(&args[i].ty, pointer).as_str(),
            ),
        );
    }
    assert(text::texts(typed@) =~= args@.map_values(|arg: FunctionArg| arg@).map_values(
        |arg: functions::ArgModel| arg.name + ": "@ + boundary_type(arg.ty, pointer@),
    ));
    join_strings(&typed, ", ")
}

/// Writes what stands before the `fn` of an asynchronous function.
fn format_modifiers(is_async: bool) -> (formatted: &'static str)
    ensures
        formatted@ == modifiers(is_async),
{
    if is_async {
        "async "
    } else {
        ""
    }
}

/// The declaration of the host's side of an imported function.
pub open spec fn import_declaration(function: functions::FunctionModel) -> Seq<char> {
    let return_type = match function.return_type {
        types::TypeModel::Unit => ""@,
        ty => " -> "@ + boundary_type(ty, "FatPtr"@),
    };
    "    fn __fp_gen_"@ + function.name + "("@ + boundary_args(function.args, "FatPtr"@) + ")"@
        + return_type + ";"@
}

/// Declares the host's side of an imported function.
fn format_import_declaration(function: &Function) -> (formatted: String)
    ensures
        formatted@ == import_declaration(function@),
{
    let return_type = match &function.return_type {
        Type::Unit => "".to_owned(),
        ty => " -> ".to_owned().concat(format_boundary_type(ty, "FatPtr").as_str()),
    };
    "    fn __fp_gen_".to_owned().concat(function.name.as_str()).concat("(").concat(
        format_boundary_args(&function.args, "FatPtr").as_str(),
    ).concat(")").concat(return_type.as_str()).concat(";")
}

/// The documentation of a function.
pub open spec fn doc_text(doc_lines: Seq<Seq<char>>) -> Seq<char> {
    text::join(doc_lines.map_values(|line: Seq<char>| "///"@ + line + "\n"@), ""@)
}

/// Writes the documentation of a function.
fn format_doc(doc_lines: &Vec<String>) -> (formatted: String)
    ensures
        formatted@ == doc_text(text::texts(doc_lines@)),
{
    let mut lines: Vec<String> = Vec::new();
    for i in 0..doc_lines.len()
        invariant
            lines.len() == i,
            forall|j: int| 0 <= j < i ==> #[trigger] lines[j]@ == "///"@ + doc_lines[j]@ + "\n"@,
    {
        lines.push("///".to_owned().concat(doc_lines[i].as_str()).concat("\n"));
    }
    assert(text::texts(lines@) =~= text::texts(doc_lines@).map_values(
        |line: Seq<char>| "///"@ + line + "\n"@,
    ));
    join_strings(&lines, "")
}

/// The line that hands an argument of an imported function to the host. Primitives need none.
pub open spec fn export_arg(arg: functions::ArgModel) -> Seq<char> {
    match arg.ty {
        types::TypeModel::Primitive(_) => ""@,
        _ => "    let "@ + arg.name + " = export_value_to_host(&"@ + arg.name + ");\n"@,
    }
}

/// Writes the line that hands an argument to the host.
fn format_export_arg(arg: &FunctionArg) -> (formatted: String)
    ensures
        formatted@ == export_arg(arg@),
{
    match &arg.ty {
        Type::Primitive(_) => "".to_owned(),
        _ => "    let ".to_owned().concat(arg.name.as_str()).concat(
            " = export_value_to_host(&",
        ).concat(arg.name.as_str()).concat(");\n"),
    }
}

/// Writes the lines that hand the arguments to the host.
fn format_export_args(args: &Vec<FunctionArg>) -> (formatted: String)
    ensures
        formatted@ == text::join(
            args@.map_values(|arg: FunctionArg| arg@).map_values(
                |arg: functions::ArgModel| export_arg(arg),
            ),
            ""@,
        ),
{
    let mut lines: Vec<String> = Vec::new();
    for i in 0..args.len()
        invariant
            lines.len() == i,
            forall|j: int| 0 <= j < i ==> #[trigger] lines[j]@ == export_arg(args[j]@),
    {
        lines.push(format_export_arg(&args[i]));
    }
    assert(text::texts(lines@) =~= args@.map_values(|arg: FunctionArg| arg@).map_values(
        |arg: functions::ArgModel| export_arg(arg),
    ));
    join_strings(&lines, "")
}

/// The call of the host's side of an imported function, with what turns its result into the
/// function's own.
pub open spec fn import_call(function: functions::FunctionModel) -> Seq<char> {
    let call = "__fp_gen_"@ + function.name + "("@ + arg_names(function.args);
    match function.return_type {
        types::TypeModel::Unit => "unsafe { "@ + (call + ");"@) + " }"@,
        types::TypeModel::Primitive(_) => "unsafe { "@ + (call + ")"@) + " }"@,
        _ => "unsafe {\n        let ret = "@ + (call + ");"@) + "\n"@ + (if function.is_async {
            "        let result_ptr = HostFuture::new(ret).await;\n        import_value_from_host(result_ptr)\n"@
        } else {
            "        import_value_from_host(ret)\n"@
        }) + "    }"@,
    }
}

/// Writes the call of the host's side of an imported function.
fn format_import_call(function: &Function) -> (formatted: String)
    ensures
        formatted@ == import_call(function@),
{
    let call = "__fp_gen_".to_owned().concat(function.name.as_str()).concat("(").concat(
        format_arg_names(&function.args).as_str(),
    );
    match &function.return_type {
        Type::Unit => "unsafe { ".to_owned().concat(call.concat(");").as_str()).concat(" }"),
        Type::Primitive(_) => "unsafe { ".to_owned().concat(call.concat(")").as_str()).concat(" }"),
        _ => "unsafe {\n        let ret = ".to_owned().concat(call.concat(");").as_str()).concat(
            "\n",
        ).concat(
            if function.is_async {
                "        let result_ptr = HostFuture::new(ret).await;\n        import_value_from_host(result_ptr)\n"
            } else {
                "        import_value_from_host(ret)\n"
            },
        ).concat("    }"),
    }
}

/// The definition of an imported function, which calls the host.
pub open spec fn import_definition(function: functions::FunctionModel) -> Seq<char> {
    let return_type = match function.return_type {
        types::TypeModel::Unit => ""@,
        ty => " -> "@ + formatting::type_text(ty),
    };
    let export_args = text::join(
        function.args.map_values(|arg: functions::ArgModel| export_arg(arg)),
        ""@,
    );
    doc_text(function.doc_lines) + "pub "@ + modifiers(function.is_async) + "fn "@ + function.name
        + "("@ + typed_args(function.args) + ")"@ + return_type + " {\n"@ + export_args + "    "@
        + import_call(function) + "\n}"@
}

/// Defines an imported function.
fn format_import_definition(function: &Function) -> (formatted: String)
    ensures
        formatted@ == import_definition(function@),
{
    let return_type = match &function.return_type {
        Type::Unit => "".to_owned(),
        ty => " -> ".to_owned().concat(format_type(ty).as_str()),
    };
    format_doc(&function.doc_lines).concat("pub ").concat(
        format_modifiers(function.is_async),
    ).concat("fn ").concat(function.name.as_str()).concat("(").concat(
        format_typed_args(&function.args).as_str(),
    ).concat(")").concat(return_type.as_str()).concat(" {\n").concat(
        format_export_args(&function.args).as_str(),
    ).concat("    ").concat(format_import_call(function).as_str()).concat("\n}")
}

/// Whether an argument arrives behind a pointer.
pub open spec fn is_behind_pointer(arg: functions::ArgModel) -> bool {
    !(arg.ty is Primitive)
}

/// The line that takes an argument of an exported function from behind its pointer.
pub open spec fn import_arg(arg: functions::ArgModel) -> Seq<char> {
    "let "@ + arg.name + " = unsafe { _fp_import_value_from_host::<"@ + formatting::type_text(
        arg.ty,
    ) + ">("@ + arg.name + ") };"@
}

/// The lines that take the arguments of an exported function from behind their pointers.
pub open spec fn import_args(args: Seq<functions::ArgModel>) -> Seq<Seq<char>> {
    args.filter(|arg: functions::ArgModel| is_behind_pointer(arg)).map_values(
        |arg: functions::ArgModel| import_arg(arg),
    )
}

/// Writes the lines that take the arguments from behind their pointers.
fn format_import_args(args: &Vec<FunctionArg>) -> (lines: Vec<String>)
    ensures
        text::texts(lines@) == import_args(args@.map_values(|arg: FunctionArg| arg@)),
{
    let ghost list = args@.map_values(|arg: FunctionArg| arg@);
    let mut lines: Vec<String> = Vec::new();
    proof {
        reveal(Seq::filter);
    }
    assert(text::texts(lines@) =~= import_args(list.take(0)));
    for i in 0..args.len()
        invariant
            list == args@.map_values(|arg: FunctionArg| arg@),
            text::texts(lines@) == import_args(list.take(i as int)),
    {
        let arg = &args[i];
        let ghost before = text::texts(lines@);
        let ghost done = list.take(i as int);
        proof {
            reveal(Seq::filter);
            assert(list[i as int] == arg@);
            assert(list.take(i + 1).drop_last() =~= done);
            assert(list.take(i + 1).last() == arg@);
        }
        match &arg.ty {
            Type::Primitive(_) => {},
            ty => {
                let line = "let ".to_owned().concat(arg.name.as_str()).concat(
                    " = unsafe { _fp_import_value_from_host::<",
                ).concat(format_type(ty).as_str()).concat(">(").concat(arg.name.as_str()).concat(
                    ") };",
                );
                let ghost written = line@;
                assert(written == import_arg(arg@));
                lines.push(line);
                assert(text::texts(lines@) =~= before.push(written));
                assert(import_args(list.take(i + 1)) =~= import_args(done).push(written));
            },
        }
    }
    assert(list.take(args.len() as int) =~= list);
    lines
}

/// A line set further to the right. An empty line stays empty.
pub open spec fn indented(indentation: Seq<char>, line: Seq<char>) -> Seq<char> {
    if line.len() == 0 {
        ""@
    } else {
        indentation + line
    }
}

/// The body of the guest's side of an asynchronous exported function: it sets up the value that
/// is returned at once, and spawns a task that calls the function and then tells the host.
pub open spec fn async_body(function: functions::FunctionModel) -> Seq<Seq<char>> {
    let args = arg_names(function.args);
    let call = match function.return_type {
        types::TypeModel::Unit => "    "@ + function.name + "("@ + args + ").await;"@,
        _ => "    let ret = "@ + function.name + "("@ + args + ").await;"@,
    };
    let store_result = match function.return_type {
        types::TypeModel::Unit => Seq::<Seq<char>>::empty(),
        ty => seq![
            "        let (result_ptr, result_len) ="@,
            "            _fp_from_fat_ptr(_fp_export_value_to_host::<"@ + formatting::type_text(ty)
                + ">(&ret));"@,
            "        (*ptr).ptr = result_ptr as u32;"@,
            "        (*ptr).len = result_len;"@,
        ],
    };
    seq![
        "let len = std::mem::size_of::<_FP_AsyncValue>() as u32;"@,
        "let ptr = _fp_malloc(len);"@,
        "let fat_ptr = _fp_to_fat_ptr(ptr, len);"@,
        "let ptr = ptr as *mut _FP_AsyncValue;"@,
        ""@,
        "_FP_Task::spawn(Box::pin(async move {"@,
    ] + import_args(function.args).map_values(|line: Seq<char>| "    "@ + line) + seq![
        call,
        "    unsafe {"@,
    ] + store_result + seq![
        "        (*ptr).status = 1;"@,
        "        _fp_host_resolve_async_value(fat_ptr);"@,
        "    }"@,
        "}));"@,
        ""@,
        "fat_ptr"@,
    ]
}

/// The body of the guest's side of a synchronous exported function.
pub open spec fn sync_body(function: functions::FunctionModel) -> Seq<Seq<char>> {
    let call = function.name + "("@ + arg_names(function.args);
    import_args(function.args) + match function.return_type {
        types::TypeModel::Unit => seq![call + ");"@],
        types::TypeModel::Primitive(_) => seq![call + ")"@],
        ty => seq![
            "let ret = "@ + (call + ");"@),
            "_fp_export_value_to_host::<"@ + formatting::type_text(ty) + ">(&ret)"@,
        ],
    }
}

/// The body of the guest's side of an exported function.
pub open spec fn export_body(function: functions::FunctionModel) -> Seq<Seq<char>> {
    if function.is_async {
        async_body(function)
    } else {
        sync_body(function)
    }
}

/// Appends a line.
fn push_line(lines: &mut Vec<String>, line: &str)
    ensures
        text::texts(final(lines)@) == text::texts(old(lines)@).push(line@),
{
    let ghost before = text::texts(lines@);
    lines.push(line.to_owned());
    assert(text::texts(lines@) =~= before.push(line@));
}

/// Writes the body of an asynchronous exported function.
fn format_async_body(function: &Function) -> (lines: Vec<String>)
    ensures
        text::texts(lines@) == async_body(function@),
{
    // Set up the `AsyncValue` to be synchronously returned and spawn a task to execute the async
    // function:
    let mut lines: Vec<String> = Vec::new();
    assert(text::texts(lines@) =~= Seq::<Seq<char>>::empty());
    push_line(&mut lines, "let len = std::mem::size_of::<_FP_AsyncValue>() as u32;");
    push_line(&mut lines, "let ptr = _fp_malloc(len);");
    push_line(&mut lines, "let fat_ptr = _fp_to_fat_ptr(ptr, len);");
    push_line(&mut lines, "let ptr = ptr as *mut _FP_AsyncValue;");
    push_line(&mut lines, "");
    push_line(&mut lines, "_FP_Task::spawn(Box::pin(async move {");
    let ghost head = text::texts(lines@);

    let import_args = format_import_args(&function.args);
    let ghost imports = text::texts(import_args@);
    let ghost shifted = imports.map_values(|line: Seq<char>| "    "@ + line);
    assert(text::texts(lines@) =~= head + shifted.take(0));
    for i in 0..import_args.len()
        invariant
            imports == text::texts(import_args@),
            shifted == imports.map_values(|line: Seq<char>| "    "@ + line),
            text::texts(lines@) == head + shifted.take(i as int),
    {
        push_line(&mut lines, "    ".to_owned().concat(import_args[i].as_str()).as_str());
        assert(text::texts(lines@) =~= head + shifted.take(i + 1));
    }
    assert(shifted.take(import_args.len() as int) =~= shifted);
    let args = format_arg_names(&function.args);

    // Call the actual async function:
    let call = match &function.return_type {
        Type::Unit => "    ".to_owned().concat(function.name.as_str()).concat("(").concat(
            args.as_str(),
        ).concat(").await;"),
        _ => "    let ret = ".to_owned().concat(function.name.as_str()).concat("(").concat(
            args.as_str(),
        ).concat(").await;"),
    };
    push_line(&mut lines, call.as_str());
    push_line(&mut lines, "    unsafe {");

    // If there is a return type, put the result in the `AsyncValue` referenced by `ptr`:
    match &function.return_type {
        Type::Unit => {},
        ty => {
            push_line(&mut lines, "        let (result_ptr, result_len) =");
            push_line(
                &mut lines,
                "            _fp_from_fat_ptr(_fp_export_value_to_host::<".to_owned().concat(
                    format_type(ty).as_str(),
                ).concat(">(&ret));").as_str(),
            );
            push_line(&mut lines, "        (*ptr).ptr = result_ptr as u32;");
            push_line(&mut lines, "        (*ptr).len = result_len;");
        },
    }

    // We're done, notify the host:
    push_line(&mut lines, "        (*ptr).status = 1;");  // 1 = STATUS_READY
    push_line(&mut lines, "        _fp_host_resolve_async_value(fat_ptr);");
    push_line(&mut lines, "    }");
    push_line(&mut lines, "}));");
    push_line(&mut lines, "");
    // The `fat_ptr` is returned synchronously:
    push_line(&mut lines, "fat_ptr");
    assert(text::texts(lines@) =~= async_body(function@));
    lines
}

/// Writes the body of a synchronous exported function.
fn format_sync_body(function: &Function) -> (lines: Vec<String>)
    ensures
        text::texts(lines@) == sync_body(function@),
{
    let mut lines = format_import_args(&function.args);
    let call = function.name.clone().concat("(").concat(format_arg_names(&function.args).as_str());
    match &function.return_type {
        Type::Unit => {
            push_line(&mut lines, call.concat(");").as_str());
        },
        Type::Primitive(_) => {
            push_line(&mut lines, call.concat(")").as_str());
        },
        ty => {
            push_line(&mut lines, "let ret = ".to_owned().concat(call.concat(");").as_str()).as_str());
            push_line(
                &mut lines,
                "_fp_export_value_to_host::<".to_owned().concat(format_type(ty).as_str()).concat(
                    ">(&ret)",
                ).as_str(),
            );
        },
    }
    assert(text::texts(lines@) =~= sync_body(function@));
    lines
}

/// Writes the body of an exported function, set to the right.
fn format_export_body(function: &Function) -> (formatted: String)
    ensures
        formatted@ == text::join(
            export_body(function@).map_values(
                |line: Seq<char>| indented("            "@, line),
            ),
            "\n"@,
        ),
{
    let body = if function.is_async {
        format_async_body(function)
    } else {
        format_sync_body(function)
    };
    let mut lines: Vec<String> = Vec::new();
    for i in 0..body.len()
        invariant
            lines.len() == i,
            forall|j: int|
                0 <= j < i ==> #[trigger] lines[j]@ == indented("            "@, body[j]@),
    {
        let line = body[i].as_str();
        lines.push(
            if line.is_empty() {
                "".to_owned()
            } else {
                "            ".to_owned().concat(line)
            },
        );
    }
    assert(text::texts(lines@) =~= text::texts(body@).map_values(
        |line: Seq<char>| indented("            "@, line),
    ));
    join_strings(&lines, "\n")
}

/// The rule of the export macro for one function: what stands for the function where the plugin
/// defines it is the function itself and the guest's side, which the host calls.
pub open spec fn export_rule(function: functions::FunctionModel) -> Seq<char> {
    let name = function.name;
    let returns_value = !(function.return_type is Unit);
    let boundary_return = if function.is_async {
        " -> _FP_FatPtr"@
    } else {
        match function.return_type {
            types::TypeModel::Unit => ""@,
            types::TypeModel::Primitive(_) => " -> $ret"@,
            _ => " -> _FP_FatPtr"@,
        }
    };
    let body = text::join(
        export_body(function).map_values(|line: Seq<char>| indented("            "@, line)),
        "\n"@,
    );
    "    ("@ + modifiers(function.is_async) + "fn "@ + name + "($($param:ident: $ty:ty),*)"@ + (
    if returns_value {
        " -> $ret:ty"@
    } else {
        ""@
    }) + " $body:block) => {\n        #[no_mangle]\n        pub fn __fp_gen_"@ + name + "("@
        + boundary_args(function.args, "_FP_FatPtr"@) + ")"@ + boundary_return + " {\n"@ + body
        + "\n        }\n\n        "@ + modifiers(function.is_async) + "fn "@ + name
        + "($($param: $ty),*)"@ + (if returns_value {
        " -> $ret"@
    } else {
        ""@
    }) + " $body\n    };"@
}

/// Writes the rule of the export macro for one function.
fn format_export_rule(function: &Function) -> (formatted: String)
    ensures
        formatted@ == export_rule(function@),
{
    let name = function.name.as_str();
    let modifiers = format_modifiers(function.is_async);
    let has_return_value = match &function.return_type {
        Type::Unit => false,
        _ => true,
    };
    let boundary_return = if function.is_async {
        " -> _FP_FatPtr"
    } else {
        match &function.return_type {
            Type::Unit => "",
            Type::Primitive(_) => " -> $ret",
            _ => " -> _FP_FatPtr",
        }
    };
    "    (".to_owned().concat(modifiers).concat("fn ").concat(name).concat(
        "($($param:ident: $ty:ty),*)",
    ).concat(
        if has_return_value {
            " -> $ret:ty"
        } else {
            ""
        },
    ).concat(" $body:block) => {\n        #[no_mangle]\n        pub fn __fp_gen_").concat(name).concat(
        "(",
    ).concat(format_boundary_args(&function.args, "_FP_FatPtr").as_str()).concat(")").concat(
        boundary_return,
    ).concat(" {\n").concat(format_export_body(function).as_str()).concat(
        "\n        }\n\n        ",
    ).concat(modifiers).concat("fn ").concat(name).concat("($($param: $ty),*)").concat(
        if has_return_value {
            " -> $ret"
        } else {
            ""
        },
    ).concat(" $body\n    };")
}

/// The file that binds the imported and the exported functions.
pub open spec fn functions_text(
    import_functions: Seq<functions::FunctionModel>,
    export_functions: Seq<functions::FunctionModel>,
    requires_async: bool,
) -> Seq<char> {
    let declarations = text::join(
        import_functions.map_values(
            |function: functions::FunctionModel| import_declaration(function),
        ),
        "\n\n"@,
    );
    let definitions = text::join(
        import_functions.map_values(
            |function: functions::FunctionModel| import_definition(function),
        ),
        "\n\n"@,
    );
    let rules = text::join(
        export_functions.map_values(|function: functions::FunctionModel| export_rule(function)),
        "\n\n"@,
    );
    let async_import = if requires_async {
        "use super::r#async::*;\n"@
    } else {
        ""@
    };
    let resolve_declaration = if requires_async {
        "\n    fn __fp_host_resolve_async_value(async_value_ptr: FatPtr);\n"@
    } else {
        ""@
    };
    let resolve_definition = if requires_async {
        "#[doc(hidden)]\npub unsafe fn _fp_host_resolve_async_value(async_value_ptr: FatPtr) {\n    __fp_host_resolve_async_value(async_value_ptr)\n}\n\n"@
    } else {
        ""@
    };
    async_import
        + "use super::support::*;\nuse super::types::*;\n\n#[link(wasm_import_module = \"fp\")]\nextern \"C\" {\n"@
        + declarations + "\n"@ + resolve_declaration + "}\n\n"@ + definitions + "\n\n"@
        + resolve_definition + "#[macro_export]\nmacro_rules! fp_export {\n"@ + rules + "\n}\n"@
}

/// The file of `functions_text`, at its path.
pub open spec fn functions_file(
    import_functions: Seq<functions::FunctionModel>,
    export_functions: Seq<functions::FunctionModel>,
    path: Seq<char>,
    requires_async: bool,
) -> files::FileModel {
    files::FileModel {
        path: path + "/functions.rs"@,
        contents: files::ContentsModel::Text(
            functions_text(import_functions, export_functions, requires_async),
        ),
    }
}

/// Generates the file that binds the imported and the exported functions.
pub fn generate_function_bindings(
    import_functions: FunctionList,
    export_functions: FunctionList,
    path: &str,
    requires_async: bool,
) -> (file: BindingsFile)
    ensures
        file@ == functions_file(import_functions@, export_functions@, path@, requires_async),
{
    let imports = &import_functions.functions;
    let mut declarations: Vec<String> = Vec::new();
    let mut definitions: Vec<String> = Vec::new();
    for i in 0..imports.len()
        invariant
            declarations.len() == i,
            definitions.len() == i,
            forall|j: int|
                0 <= j < i ==> #[trigger] declarations[j]@ == import_declaration(imports[j]@),
            forall|j: int|
                0 <= j < i ==> #[trigger] definitions[j]@ == import_definition(imports[j]@),
    {
        declarations.push(format_import_declaration(&imports[i]));
        definitions.push(format_import_definition(&imports[i]));
    }
    assert(text::texts(declarations@) =~= import_functions@.map_values(
        |function: functions::FunctionModel| import_declaration(function),
    ));
    assert(text::texts(definitions@) =~= import_functions@.map_values(
        |function: functions::FunctionModel| import_definition(function),
    ));

    let exports = &export_functions.functions;
    let mut rules: Vec<String> = Vec::new();
    for i in 0..exports.len()
        invariant
            rules.len() == i,
            forall|j: int| 0 <= j < i ==> #[trigger] rules[j]@ == export_rule(exports[j]@),
    {
        rules.push(format_export_rule(&exports[i]));
    }
    assert(text::texts(rules@) =~= export_functions@.map_values(
        |function: functions::FunctionModel| export_rule(function),
    ));

    let async_import = if requires_async {
        "use super::r#async::*;\n"
    } else {
        ""
    };
    let resolve_declaration = if requires_async {
        "\n    fn __fp_host_resolve_async_value(async_value_ptr: FatPtr);\n"
    } else {
        ""
    };
    let resolve_definition = if requires_async {
        "#[doc(hidden)]\npub unsafe fn _fp_host_resolve_async_value(async_value_ptr: FatPtr) {\n    __fp_host_resolve_async_value(async_value_ptr)\n}\n\n"
    } else {
        ""
    };
    BindingsFile {
        path: path.to_owned().concat("/functions.rs"),
        contents: Contents::Text(
            async_import.to_owned().concat(
                "use super::support::*;\nuse super::types::*;\n\n#[link(wasm_import_module = \"fp\")]\nextern \"C\" {\n",
            ).concat(join_strings(&declarations, "\n\n").as_str()).concat("\n").concat(
                resolve_declaration,
            ).concat("}\n\n").concat(join_strings(&definitions, "\n\n").as_str()).concat(
                "\n\n",
            ).concat(resolve_definition).concat(
                "#[macro_export]\nmacro_rules! fp_export {\n",
            ).concat(join_strings(&rules, "\n\n").as_str()).concat("\n}\n"),
        ),
    }
}

} // verus!
