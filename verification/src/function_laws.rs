//! What holds of the functions on both sides of the boundary.

use crate::files;
use crate::files::BindingsFile;
use crate::formatting;
use crate::function_bindings;
use crate::function_bindings::generate_function_bindings;
use crate::functions;
use crate::functions::{Function, FunctionList};
use crate::text;
use crate::text_laws;
use crate::types;
use crate::types::Primitive;
use vstd::prelude::*;

verus! {

/// The content of a function has all of its parts, and a list shows its functions in order.
pub proof fn functions_are_seen_whole(function: Function, list: FunctionList, i: int)
    ensures
        function@.name == function.name@,
        function@.is_async == function.is_async,
        function@.return_type == function.return_type@,
        function@.args.len() == function.args.len(),
        0 <= i < function.args.len() ==> function@.args[i].name == function.args[i].name@,
        0 <= i < function.args.len() ==> function@.args[i].ty == function.args[i].ty@,
        function@.doc_lines.len() == function.doc_lines.len(),
        0 <= i < function.doc_lines.len() ==> function@.doc_lines[i] == function.doc_lines[i]@,
        list@.len() == list.functions.len(),
        0 <= i < list.functions.len() ==> list@[i] == list.functions[i]@,
{
}

/// Whether `names` holds the names of the arguments, in order.
pub open spec fn are_names(args: Seq<functions::ArgModel>, names: Seq<Seq<char>>) -> bool {
    &&& names.len() == args.len()
    &&& forall|i: int| 0 <= i < args.len() ==> #[trigger] names[i] == args[i].name
}

/// Whether `declared` holds each argument with its type, in order.
pub open spec fn are_declared(args: Seq<functions::ArgModel>, declared: Seq<Seq<char>>) -> bool {
    &&& declared.len() == args.len()
    &&& forall|i: int|
        0 <= i < args.len() ==> #[trigger] declared[i] == args[i].name + ": "@
            + formatting::type_text(args[i].ty)
}

/// Whether `declared` holds each argument as it crosses the boundary, in order: a primitive with
/// its own type, any other with that of a pointer.
pub open spec fn are_declared_at_boundary(
    args: Seq<functions::ArgModel>,
    pointer: Seq<char>,
    declared: Seq<Seq<char>>,
) -> bool {
    &&& declared.len() == args.len()
    &&& forall|i: int|
        0 <= i < args.len() ==> #[trigger] declared[i] == args[i].name + ": "@ + (
        if args[i].ty is Primitive {
            formatting::type_text(args[i].ty)
        } else {
            pointer
        })
}

/// The call of a function with these arguments.
pub open spec fn call(name: Seq<char>, names: Seq<Seq<char>>) -> Seq<char> {
    name + "("@ + text::join(names, ", "@) + ")"@
}

proof fn lemma_arg_names(args: Seq<functions::ArgModel>, names: Seq<Seq<char>>)
    requires
        are_names(args, names),
    ensures
        function_bindings::arg_names(args) == text::join(names, ", "@),
{
    assert(args.map_values(|arg: functions::ArgModel| arg.name) =~= names);
}

/// Calls list the names of all arguments in order. Declarations list the same arguments in the
/// same order with their types, and at the boundary with the types in which they cross it.
pub proof fn arguments_are_listed_in_order(
    args: Seq<functions::ArgModel>,
    pointer: Seq<char>,
    names: Seq<Seq<char>>,
    declared: Seq<Seq<char>>,
    at_boundary: Seq<Seq<char>>,
)
    requires
        are_names(args, names),
        are_declared(args, declared),
        are_declared_at_boundary(args, pointer, at_boundary),
    ensures
        function_bindings::arg_names(args) == text::join(names, ", "@),
        function_bindings::typed_args(args) == text::join(declared, ", "@),
        function_bindings::boundary_args(args, pointer) == text::join(at_boundary, ", "@),
{
    lemma_arg_names(args, names);
    assert(args.map_values(
        |arg: functions::ArgModel| arg.name + ": "@ + formatting::type_text(arg.ty),
    ) =~= declared);
    let crossing = args.map_values(
        |arg: functions::ArgModel|
            arg.name + ": "@ + function_bindings::boundary_type(arg.ty, pointer),
    );
    assert forall|i: int| 0 <= i < args.len() implies crossing[i] == at_boundary[i] by {
        assert(crossing[i] == args[i].name + ": "@ + function_bindings::boundary_type(
            args[i].ty,
            pointer,
        ));
    }
    assert(crossing =~= at_boundary);
}

/// Two values of any types but primitive ones cross the boundary alike, and primitives as what
/// they are.
pub proof fn only_primitives_cross_by_value(
    a: types::TypeModel,
    b: types::TypeModel,
    pointer: Seq<char>,
)
    ensures
        a is Primitive ==> function_bindings::boundary_type(a, pointer) == formatting::type_text(a),
        !(a is Primitive) ==> function_bindings::boundary_type(a, pointer) == pointer,
        !(a is Primitive) && !(b is Primitive) ==> function_bindings::boundary_type(a, pointer)
            == function_bindings::boundary_type(b, pointer),
{
}

proof fn lemma_no_primitive_is_a_pointer(primitive: Primitive)
    ensures
        types::primitive_name(primitive) != "FatPtr"@,
{
    reveal_strlit("FatPtr");
    reveal_strlit("bool");
    reveal_strlit("f32");
    reveal_strlit("f64");
    reveal_strlit("i8");
    reveal_strlit("i16");
    reveal_strlit("i32");
    reveal_strlit("i64");
    reveal_strlit("i128");
    reveal_strlit("u8");
    reveal_strlit("u16");
    reveal_strlit("u32");
    reveal_strlit("u64");
    reveal_strlit("u128");
    assert("FatPtr"@.len() == 6);
    assert(types::primitive_name(primitive).len() < 6);
}

/// An argument of an imported function is converted before the call if and only if it is declared
/// as a pointer to the host. Whatever its type, the conversion is the same line with its name.
pub proof fn arguments_are_converted_as_declared(arg: functions::ArgModel)
    ensures
        ({
            let line = "    let "@ + arg.name + " = export_value_to_host(&"@ + arg.name + ");\n"@;
            let declared_as_pointer = function_bindings::boundary_type(arg.ty, "FatPtr"@)
                == "FatPtr"@;
            &&& declared_as_pointer <==> !(arg.ty is Primitive)
            &&& declared_as_pointer ==> function_bindings::export_arg(arg) == line
            &&& !declared_as_pointer ==> function_bindings::export_arg(arg).len() == 0
        }),
{
    reveal_strlit("");
    match arg.ty {
        types::TypeModel::Primitive(primitive) => lemma_no_primitive_is_a_pointer(primitive),
        _ => {},
    }
}

/// The host's side of an imported function is declared under the function's name, with all
/// arguments as they cross the boundary, and returns what crosses back.
pub proof fn imports_are_declared(
    function: functions::FunctionModel,
    declared: Seq<Seq<char>>,
)
    requires
        are_declared_at_boundary(function.args, "FatPtr"@, declared),
    ensures
        ({
            let head = "    fn __fp_gen_"@ + function.name + "("@ + text::join(declared, ", "@);
            &&& function.return_type is Unit ==> function_bindings::import_declaration(function)
                == head + ")"@ + ";"@
            &&& function.return_type is Primitive ==> function_bindings::import_declaration(
                function,
            ) == head + ")"@ + (" -> "@ + formatting::type_text(function.return_type)) + ";"@
            &&& !(function.return_type is Unit) && !(function.return_type is Primitive)
                ==> function_bindings::import_declaration(function) == head + ")"@ + (" -> "@
                + "FatPtr"@) + ";"@
        }),
{
    let crossing = function.args.map_values(
        |arg: functions::ArgModel|
            arg.name + ": "@ + function_bindings::boundary_type(arg.ty, "FatPtr"@),
    );
    assert forall|i: int| 0 <= i < function.args.len() implies crossing[i] == declared[i] by {
        assert(crossing[i] == function.args[i].name + ": "@ + function_bindings::boundary_type(
            function.args[i].ty,
            "FatPtr"@,
        ));
    }
    assert(crossing =~= declared);
    let head = "    fn __fp_gen_"@ + function.name + "("@ + text::join(declared, ", "@);
    reveal_strlit("");
    assert(head + ")"@ + ""@ =~= head + ")"@);
}

/// An imported function calls the host with all of its arguments. A result that is no value of its
/// own is left alone or handed through; any other is taken from the host, and is awaited first by
/// an asynchronous function.
pub proof fn imports_call_the_host(function: functions::FunctionModel, names: Seq<Seq<char>>)
    requires
        are_names(function.args, names),
    ensures
        ({
            let called = call("__fp_gen_"@ + function.name, names);
            let written = function_bindings::import_call(function);
            &&& text_laws::holds(written, called)
            &&& function.return_type is Unit ==> written == "unsafe { "@ + called + "; }"@
            &&& function.return_type is Primitive ==> written == "unsafe { "@ + called + " }"@
            &&& !(function.return_type is Unit) && !(function.return_type is Primitive)
                && !function.is_async ==> written == "unsafe {\n        let ret = "@ + called
                + ";\n        import_value_from_host(ret)\n    }"@
            &&& !(function.return_type is Unit) && !(function.return_type is Primitive)
                && function.is_async ==> written == "unsafe {\n        let ret = "@ + called
                + ";\n        let result_ptr = HostFuture::new(ret).await;\n        import_value_from_host(result_ptr)\n    }"@
        }),
{
    lemma_arg_names(function.args, names);
    let called = call("__fp_gen_"@ + function.name, names);
    let written = function_bindings::import_call(function);
    let open = "__fp_gen_"@ + function.name + "("@ + text::join(names, ", "@);
    reveal_strlit(")");
    reveal_strlit(");");
    reveal_strlit(" }");
    reveal_strlit("; }");
    reveal_strlit("\n");
    reveal_strlit("    }");
    reveal_strlit("        import_value_from_host(ret)\n");
    reveal_strlit(";\n        import_value_from_host(ret)\n    }");
    reveal_strlit("        let result_ptr = HostFuture::new(ret).await;\n        import_value_from_host(result_ptr)\n");
    reveal_strlit(";\n        let result_ptr = HostFuture::new(ret).await;\n        import_value_from_host(result_ptr)\n    }");
    match function.return_type {
        types::TypeModel::Unit => {
            assert(");"@ + " }"@ =~= ")"@ + "; }"@);
            assert(written =~= ("unsafe { "@ + open) + (");"@ + " }"@));
            assert(written =~= "unsafe { "@ + called + "; }"@);
        },
        types::TypeModel::Primitive(_) => {
            assert(written =~= "unsafe { "@ + called + " }"@);
        },
        _ => {
            let lead = "unsafe {\n        let ret = "@;
            if function.is_async {
                let middle = "        let result_ptr = HostFuture::new(ret).await;\n        import_value_from_host(result_ptr)\n"@;
                let rest = ";\n        let result_ptr = HostFuture::new(ret).await;\n        import_value_from_host(result_ptr)\n    }"@;
                assert(");"@ + "\n"@ + middle + "    }"@ =~= ")"@ + rest);
                assert(written =~= (lead + open) + (");"@ + "\n"@ + middle + "    }"@));
                assert(written =~= lead + called + rest);
            } else {
                let middle = "        import_value_from_host(ret)\n"@;
                let rest = ";\n        import_value_from_host(ret)\n    }"@;
                assert(");"@ + "\n"@ + middle + "    }"@ =~= ")"@ + rest);
                assert(written =~= (lead + open) + (");"@ + "\n"@ + middle + "    }"@));
                assert(written =~= lead + called + rest);
            }
        },
    }
}

/// Each line of documentation is written behind a comment sign, in order.
pub proof fn documentation_is_kept(doc_lines: Seq<Seq<char>>, comments: Seq<Seq<char>>)
    requires
        comments.len() == doc_lines.len(),
        forall|i: int|
            0 <= i < doc_lines.len() ==> #[trigger] comments[i] == "///"@ + doc_lines[i] + "\n"@,
    ensures
        function_bindings::doc_text(doc_lines) == text::join(comments, ""@),
{
    assert(doc_lines.map_values(|line: Seq<char>| "///"@ + line + "\n"@) =~= comments);
}

/// An imported function is defined with its documentation, its name, all arguments with their own
/// types and its own return type. Its body converts every argument that crosses behind a pointer,
/// in order, and then calls the host.
pub proof fn imports_are_defined(
    function: functions::FunctionModel,
    declared: Seq<Seq<char>>,
    conversions: Seq<Seq<char>>,
)
    requires
        are_declared(function.args, declared),
        conversions.len() == function.args.len(),
        forall|i: int|
            0 <= i < function.args.len() ==> #[trigger] conversions[i] == (
            if function.args[i].ty is Primitive {
                ""@
            } else {
                "    let "@ + function.args[i].name + " = export_value_to_host(&"@
                    + function.args[i].name + ");\n"@
            }),
    ensures
        function_bindings::import_definition(function) == function_bindings::doc_text(
            function.doc_lines,
        ) + "pub "@ + (if function.is_async {
            "async "@
        } else {
            ""@
        }) + "fn "@ + function.name + "("@ + text::join(declared, ", "@) + ")"@ + (
        if function.return_type is Unit {
            ""@
        } else {
            " -> "@ + formatting::type_text(function.return_type)
        }) + " {\n"@ + text::join(conversions, ""@) + "    "@ + function_bindings::import_call(
            function,
        ) + "\n}"@,
{
    assert(function.args.map_values(
        |arg: functions::ArgModel| arg.name + ": "@ + formatting::type_text(arg.ty),
    ) =~= declared);
    let written = function.args.map_values(
        |arg: functions::ArgModel| function_bindings::export_arg(arg),
    );
    assert forall|i: int| 0 <= i < function.args.len() implies written[i] == conversions[i] by {
        assert(written[i] == function_bindings::export_arg(function.args[i]));
    }
    assert(written =~= conversions);
}

/// The lines that decode the arguments of an exported function are those of its arguments one by
/// one: an argument that arrives behind a pointer has one with its name and type, whatever that
/// type is, and a primitive has none.
pub proof fn arguments_are_decoded_one_by_one(
    a: Seq<functions::ArgModel>,
    b: Seq<functions::ArgModel>,
    arg: functions::ArgModel,
)
    ensures
        function_bindings::import_args(Seq::empty()).len() == 0,
        function_bindings::import_args(a + b) == function_bindings::import_args(a)
            + function_bindings::import_args(b),
        arg.ty is Primitive ==> function_bindings::import_args(seq![arg]).len() == 0,
        !(arg.ty is Primitive) ==> function_bindings::import_args(seq![arg]) == seq![
            "let "@ + arg.name + " = unsafe { _fp_import_value_from_host::<"@
                + formatting::type_text(arg.ty) + ">("@ + arg.name + ") };"@,
        ],
    decreases b.len(),
{
    reveal(Seq::filter);
    assert(seq![arg].drop_last() =~= Seq::empty());
    let behind = |arg: functions::ArgModel| function_bindings::is_behind_pointer(arg);
    let line = "let "@ + arg.name + " = unsafe { _fp_import_value_from_host::<"@
        + formatting::type_text(arg.ty) + ">("@ + arg.name + ") };"@;
    if !(arg.ty is Primitive) {
        assert(seq![arg].filter(behind) =~= seq![arg]);
        assert(function_bindings::import_args(seq![arg]) =~= seq![line]);
    }
    if b.len() == 0 {
        assert(a + b =~= a);
        assert(function_bindings::import_args(a + b) =~= function_bindings::import_args(a)
            + function_bindings::import_args(b));
    } else {
        let fewer = b.drop_last();
        assert((a + b).drop_last() =~= a + fewer);
        arguments_are_decoded_one_by_one(a, fewer, arg);
        let last = b.last();
        assert((a + b).last() == last);
        assert((a + b).filter(behind) == if behind(last) {
            (a + fewer).filter(behind).push(last)
        } else {
            (a + fewer).filter(behind)
        });
        assert(b.filter(behind) == if behind(last) {
            fewer.filter(behind).push(last)
        } else {
            fewer.filter(behind)
        });
        if behind(last) {
            assert(function_bindings::import_args(a + b) =~= function_bindings::import_args(
                a + fewer,
            ).push(function_bindings::import_arg(last)));
            assert(function_bindings::import_args(b) =~= function_bindings::import_args(
                fewer,
            ).push(function_bindings::import_arg(last)));
        }
        assert(function_bindings::import_args(a + b) =~= function_bindings::import_args(a)
            + function_bindings::import_args(b));
    }
}

/// A synchronous exported function decodes its arguments and then calls the plugin's function with
/// all of them. What is returned is handed back: a primitive as the value of the call, any other
/// value encoded with its type.
pub proof fn sync_exports_pass_arguments_and_results(
    function: functions::FunctionModel,
    names: Seq<Seq<char>>,
)
    requires
        !function.is_async,
        are_names(function.args, names),
    ensures
        ({
            let decoded = function_bindings::import_args(function.args);
            let body = function_bindings::export_body(function);
            let called = call(function.name, names);
            &&& body.take(decoded.len() as int) == decoded
            &&& text_laws::holds(body[decoded.len() as int], called)
            &&& function.return_type is Unit ==> body.skip(decoded.len() as int) == seq![
                called + ";"@,
            ]
            &&& function.return_type is Primitive ==> body.skip(decoded.len() as int) == seq![
                called,
            ]
            &&& !(function.return_type is Unit) && !(function.return_type is Primitive)
                ==> body.skip(decoded.len() as int) == seq![
                "let ret = "@ + called + ";"@,
                "_fp_export_value_to_host::<"@ + formatting::type_text(function.return_type)
                    + ">(&ret)"@,
            ]
        }),
{
    lemma_arg_names(function.args, names);
    let decoded = function_bindings::import_args(function.args);
    let body = function_bindings::export_body(function);
    let called = call(function.name, names);
    let open = function.name + "("@ + text::join(names, ", "@);
    let at = decoded.len() as int;
    reveal_strlit(")");
    reveal_strlit(");");
    reveal_strlit(";");
    assert(open + ");"@ =~= called + ";"@);
    assert(open + ")"@ == called);
    assert(body.take(at) =~= decoded);
    match function.return_type {
        types::TypeModel::Unit => {
            assert(body.skip(at) =~= seq![called + ";"@]);
            assert(body[at] =~= Seq::empty() + called + ";"@);
        },
        types::TypeModel::Primitive(_) => {
            assert(body.skip(at) =~= seq![called]);
            assert(body[at] =~= Seq::empty() + called + Seq::empty());
        },
        ty => {
            assert("let ret = "@ + (open + ");"@) =~= "let ret = "@ + called + ";"@);
            assert(body.skip(at) =~= seq![
                "let ret = "@ + called + ";"@,
                "_fp_export_value_to_host::<"@ + formatting::type_text(ty) + ">(&ret)"@,
            ]);
            assert(body[at] =~= "let ret = "@ + called + ";"@);
        },
    }
}

/// An asynchronous exported function returns a pointer to a pending value at once. The task that
/// it spawns decodes the arguments, awaits the plugin's function called with all of them, stores
/// what that returns if it returns anything, and tells the host.
pub proof fn async_exports_pass_arguments_and_results(
    function: functions::FunctionModel,
    names: Seq<Seq<char>>,
)
    requires
        function.is_async,
        are_names(function.args, names),
    ensures
        ({
            let decoded = function_bindings::import_args(function.args);
            let body = function_bindings::export_body(function);
            let called = call(function.name, names);
            let at = 6 + decoded.len() as int;
            &&& body.take(6) == seq![
                "let len = std::mem::size_of::<_FP_AsyncValue>() as u32;"@,
                "let ptr = _fp_malloc(len);"@,
                "let fat_ptr = _fp_to_fat_ptr(ptr, len);"@,
                "let ptr = ptr as *mut _FP_AsyncValue;"@,
                ""@,
                "_FP_Task::spawn(Box::pin(async move {"@,
            ]
            &&& forall|i: int|
                0 <= i < decoded.len() ==> #[trigger] body[6 + i] == "    "@ + decoded[i]
            &&& text_laws::holds(body[at], called)
            &&& body[at + 1] == "    unsafe {"@
            &&& function.return_type is Unit ==> body[at] == "    "@ + called + ".await;"@
                && body.len() == at + 8
            &&& !(function.return_type is Unit) ==> body[at] == "    let ret = "@ + called
                + ".await;"@ && body.len() == at + 12 && body.subrange(at + 2, at + 6) == seq![
                "        let (result_ptr, result_len) ="@,
                "            _fp_from_fat_ptr(_fp_export_value_to_host::<"@ + formatting::type_text(
                    function.return_type,
                ) + ">(&ret));"@,
                "        (*ptr).ptr = result_ptr as u32;"@,
                "        (*ptr).len = result_len;"@,
            ]
            &&& body.skip(body.len() - 6) == seq![
                "        (*ptr).status = 1;"@,
                "        _fp_host_resolve_async_value(fat_ptr);"@,
                "    }"@,
                "}));"@,
                ""@,
                "fat_ptr"@,
            ]
        }),
{
    lemma_arg_names(function.args, names);
    let decoded = function_bindings::import_args(function.args);
    let body = function_bindings::export_body(function);
    let called = call(function.name, names);
    let open = function.name + "("@ + text::join(names, ", "@);
    let at = 6 + decoded.len() as int;
    reveal_strlit(")");
    reveal_strlit(".await;");
    reveal_strlit(").await;");
    assert(").await;"@ =~= ")"@ + ".await;"@);
    assert(body.take(6) =~= seq![
        "let len = std::mem::size_of::<_FP_AsyncValue>() as u32;"@,
        "let ptr = _fp_malloc(len);"@,
        "let fat_ptr = _fp_to_fat_ptr(ptr, len);"@,
        "let ptr = ptr as *mut _FP_AsyncValue;"@,
        ""@,
        "_FP_Task::spawn(Box::pin(async move {"@,
    ]);
    assert(body.skip(body.len() - 6) =~= seq![
        "        (*ptr).status = 1;"@,
        "        _fp_host_resolve_async_value(fat_ptr);"@,
        "    }"@,
        "}));"@,
        ""@,
        "fat_ptr"@,
    ]);
    assert forall|i: int| 0 <= i < decoded.len() implies #[trigger] body[6 + i] == "    "@
        + decoded[i] by {
        assert(decoded.map_values(|line: Seq<char>| "    "@ + line)[i] == "    "@ + decoded[i]);
    }
    match function.return_type {
        types::TypeModel::Unit => {
            assert("    "@ + function.name + "("@ + text::join(names, ", "@) + ").await;"@ =~= "    "@
                + called + ".await;"@);
            assert(body[at] == "    "@ + called + ".await;"@);
        },
        ty => {
            assert("    let ret = "@ + function.name + "("@ + text::join(names, ", "@) + ").await;"@
                =~= "    let ret = "@ + called + ".await;"@);
            assert(body[at] == "    let ret = "@ + called + ".await;"@);
            assert(body.subrange(at + 2, at + 6) =~= seq![
                "        let (result_ptr, result_len) ="@,
                "            _fp_from_fat_ptr(_fp_export_value_to_host::<"@ + formatting::type_text(
                    ty,
                ) + ">(&ret));"@,
                "        (*ptr).ptr = result_ptr as u32;"@,
                "        (*ptr).len = result_len;"@,
            ]);
        },
    }
}

/// A line keeps its text when it is set to the right, and an empty line stays empty.
pub proof fn indentation_keeps_lines(indentation: Seq<char>, line: Seq<char>)
    ensures
        line.len() == 0 ==> function_bindings::indented(indentation, line).len() == 0,
        line.len() > 0 ==> function_bindings::indented(indentation, line) == indentation + line,
{
    reveal_strlit("");
}

/// The type that the guest's side of an exported function returns, as its rule writes it: nothing
/// where nothing is returned, the function's own type for a primitive, and a pointer otherwise. An
/// asynchronous function always returns a pointer.
pub open spec fn returned_at_boundary(function: functions::FunctionModel) -> Seq<char> {
    if function.is_async || !(function.return_type is Unit || function.return_type is Primitive) {
        " -> _FP_FatPtr"@
    } else if function.return_type is Primitive {
        " -> $ret"@
    } else {
        ""@
    }
}

proof fn lemma_crossing_args(
    args: Seq<functions::ArgModel>,
    pointer: Seq<char>,
    declared: Seq<Seq<char>>,
)
    requires
        are_declared_at_boundary(args, pointer, declared),
    ensures
        function_bindings::boundary_args(args, pointer) == text::join(declared, ", "@),
{
    let crossing = args.map_values(
        |arg: functions::ArgModel|
            arg.name + ": "@ + function_bindings::boundary_type(arg.ty, pointer),
    );
    assert forall|i: int| 0 <= i < args.len() implies crossing[i] == declared[i] by {
        assert(crossing[i] == args[i].name + ": "@ + function_bindings::boundary_type(
            args[i].ty,
            pointer,
        ));
    }
    assert(crossing =~= declared);
}

/// The rule of an exported function matches its definition by its name, and whether it is
/// asynchronous and returns something. It puts in its place the guest's side, under the function's
/// name with all arguments as they cross the boundary, and the function itself.
pub proof fn rules_export_functions(
    function: functions::FunctionModel,
    declared: Seq<Seq<char>>,
    lines: Seq<Seq<char>>,
)
    requires
        are_declared_at_boundary(function.args, "_FP_FatPtr"@, declared),
        lines.len() == function_bindings::export_body(function).len(),
        forall|i: int|
            0 <= i < lines.len() ==> #[trigger] lines[i] == (
            if function_bindings::export_body(function)[i].len() == 0 {
                ""@
            } else {
                "            "@ + function_bindings::export_body(function)[i]
            }),
    ensures
        ({
            let modifier = if function.is_async {
                "async "@
            } else {
                ""@
            };
            let matched = if function.return_type is Unit {
                ""@
            } else {
                " -> $ret:ty"@
            };
            let returned = if function.return_type is Unit {
                ""@
            } else {
                " -> $ret"@
            };
            function_bindings::export_rule(function) == "    ("@ + modifier + "fn "@ + function.name
                + "($($param:ident: $ty:ty),*)"@ + matched
                + " $body:block) => {\n        #[no_mangle]\n        pub fn __fp_gen_"@
                + function.name + "("@ + text::join(declared, ", "@) + ")"@ + returned_at_boundary(
                function,
            ) + " {\n"@ + text::join(lines, "\n"@) + "\n        }\n\n        "@ + modifier + "fn "@
                + function.name + "($($param: $ty),*)"@ + returned + " $body\n    };"@
        }),
{
    lemma_crossing_args(function.args, "_FP_FatPtr"@, declared);
    let body = function_bindings::export_body(function);
    let written = body.map_values(
        |line: Seq<char>| function_bindings::indented("            "@, line),
    );
    assert forall|i: int| 0 <= i < lines.len() implies written[i] == lines[i] by {
        assert(written[i] == function_bindings::indented("            "@, body[i]));
    }
    assert(written =~= lines);
}

proof fn lemma_holds_in_front(whole: Seq<char>, after: Seq<char>, part: Seq<char>)
    requires
        text_laws::holds(whole, part),
    ensures
        text_laws::holds(whole + after, part),
{
    text_laws::lemma_holds_within(Seq::empty(), whole, after, part);
    assert(Seq::empty() + whole + after =~= whole + after);
}

proof fn lemma_regroup(
    start: Seq<char>,
    lead: Seq<char>,
    a: Seq<char>,
    b: Seq<char>,
    c: Seq<char>,
    d: Seq<char>,
    e: Seq<char>,
)
    ensures
        start + (lead + a) + b + c + d + e == (start + lead) + (a + b + c + d + e),
{
    assert(start + (lead + a) + b + c + d + e =~= (start + lead) + (a + b + c + d + e));
}

proof fn lemma_shim_in_rule(function: functions::FunctionModel, declared: Seq<Seq<char>>)
    requires
        are_declared_at_boundary(function.args, "_FP_FatPtr"@, declared),
    ensures
        text_laws::holds(
            function_bindings::export_rule(function),
            "pub fn __fp_gen_"@ + function.name + "("@ + text::join(declared, ", "@) + ")"@,
        ),
{
    let body = function_bindings::export_body(function);
    let lines = body.map_values(
        |line: Seq<char>|
            if line.len() == 0 {
                ""@
            } else {
                "            "@ + line
            },
    );
    rules_export_functions(function, declared, lines);
    let modifier = if function.is_async {
        "async "@
    } else {
        ""@
    };
    let matched = if function.return_type is Unit {
        ""@
    } else {
        " -> $ret:ty"@
    };
    let returned = if function.return_type is Unit {
        ""@
    } else {
        " -> $ret"@
    };
    let args = text::join(declared, ", "@);
    let shim = "pub fn __fp_gen_"@ + function.name + "("@ + args + ")"@;
    let lead = " $body:block) => {\n        #[no_mangle]\n        "@;
    reveal_strlit(" $body:block) => {\n        #[no_mangle]\n        pub fn __fp_gen_");
    reveal_strlit(" $body:block) => {\n        #[no_mangle]\n        ");
    reveal_strlit("pub fn __fp_gen_");
    assert(" $body:block) => {\n        #[no_mangle]\n        pub fn __fp_gen_"@ =~= lead
        + "pub fn __fp_gen_"@);
    let start = "    ("@ + modifier + "fn "@ + function.name + "($($param:ident: $ty:ty),*)"@
        + matched;
    lemma_regroup(start, lead, "pub fn __fp_gen_"@, function.name, "("@, args, ")"@);
    let w0 = start + (lead + "pub fn __fp_gen_"@) + function.name + "("@ + args + ")"@;
    assert(w0 =~= (start + lead) + shim + Seq::empty());
    assert(text_laws::holds(w0, shim));
    let w1 = w0 + returned_at_boundary(function);
    lemma_holds_in_front(w0, returned_at_boundary(function), shim);
    let w2 = w1 + " {\n"@;
    lemma_holds_in_front(w1, " {\n"@, shim);
    let w3 = w2 + text::join(lines, "\n"@);
    lemma_holds_in_front(w2, text::join(lines, "\n"@), shim);
    let w4 = w3 + "\n        }\n\n        "@;
    lemma_holds_in_front(w3, "\n        }\n\n        "@, shim);
    let w5 = w4 + modifier;
    lemma_holds_in_front(w4, modifier, shim);
    let w6 = w5 + "fn "@;
    lemma_holds_in_front(w5, "fn "@, shim);
    let w7 = w6 + function.name;
    lemma_holds_in_front(w6, function.name, shim);
    let w8 = w7 + "($($param: $ty),*)"@;
    lemma_holds_in_front(w7, "($($param: $ty),*)"@, shim);
    let w9 = w8 + returned;
    lemma_holds_in_front(w8, returned, shim);
    lemma_holds_in_front(w9, " $body\n    };"@, shim);
}

/// Whether it is asynchronous or not and whatever it returns, the guest's side of an exported
/// function calls the plugin's function with the names of all its parameters, in their order.
pub proof fn exports_call_with_their_parameters(
    function: functions::FunctionModel,
    names: Seq<Seq<char>>,
    declared: Seq<Seq<char>>,
)
    requires
        are_names(function.args, names),
        are_declared_at_boundary(function.args, "_FP_FatPtr"@, declared),
    ensures
        exists|k: int|
            0 <= k < function_bindings::export_body(function).len() && text_laws::holds(
                #[trigger] function_bindings::export_body(function)[k],
                call(function.name, names),
            ),
        text_laws::holds(
            function_bindings::export_rule(function),
            "pub fn __fp_gen_"@ + function.name + "("@ + text::join(declared, ", "@) + ")"@,
        ),
        forall|i: int|
            0 <= i < names.len() ==> text_laws::starts_with(
                #[trigger] declared[i],
                names[i] + ": "@,
            ),
{
    let decoded = function_bindings::import_args(function.args);
    if function.is_async {
        async_exports_pass_arguments_and_results(function, names);
        assert(text_laws::holds(
            function_bindings::export_body(function)[6 + decoded.len() as int],
            call(function.name, names),
        ));
    } else {
        sync_exports_pass_arguments_and_results(function, names);
        let body = function_bindings::export_body(function);
        assert(body.skip(decoded.len() as int).len() > 0);
        assert(text_laws::holds(body[decoded.len() as int], call(function.name, names)));
    }
    assert forall|i: int| 0 <= i < names.len() implies text_laws::starts_with(
        #[trigger] declared[i],
        names[i] + ": "@,
    ) by {
        assert(names[i] == function.args[i].name);
        assert(declared[i].take((names[i] + ": "@).len() as int) =~= names[i] + ": "@);
    }
    lemma_shim_in_rule(function, declared);
}

/// The generated file of functions stands below the path. It declares and defines each imported
/// function and has a rule for each exported one, all in the order of their lists. What it has
/// beyond that depends only on whether the asynchronous runtime is there.
pub proof fn all_functions_are_bound(
    import_functions: FunctionList,
    export_functions: FunctionList,
    path: &str,
    requires_async: bool,
    file: BindingsFile,
    declarations: Seq<Seq<char>>,
    definitions: Seq<Seq<char>>,
    rules: Seq<Seq<char>>,
)
    requires
        call_ensures(
            generate_function_bindings,
            (import_functions, export_functions, path, requires_async),
            file,
        ),
        declarations.len() == import_functions.functions.len(),
        definitions.len() == import_functions.functions.len(),
        rules.len() == export_functions.functions.len(),
        forall|i: int|
            0 <= i < declarations.len() ==> #[trigger] declarations[i]
                == function_bindings::import_declaration(import_functions.functions[i]@),
        forall|i: int|
            0 <= i < definitions.len() ==> #[trigger] definitions[i]
                == function_bindings::import_definition(import_functions.functions[i]@),
        forall|i: int|
            0 <= i < rules.len() ==> #[trigger] rules[i] == function_bindings::export_rule(
                export_functions.functions[i]@,
            ),
    ensures
        file@.path == path@ + "/functions.rs"@,
        file@.contents == files::ContentsModel::Text(
            (if requires_async {
                "use super::r#async::*;\n"@
            } else {
                ""@
            })
                + "use super::support::*;\nuse super::types::*;\n\n#[link(wasm_import_module = \"fp\")]\nextern \"C\" {\n"@
                + text::join(declarations, "\n\n"@) + "\n"@ + (if requires_async {
                "\n    fn __fp_host_resolve_async_value(async_value_ptr: FatPtr);\n"@
            } else {
                ""@
            }) + "}\n\n"@ + text::join(definitions, "\n\n"@) + "\n\n"@ + (if requires_async {
                "#[doc(hidden)]\npub unsafe fn _fp_host_resolve_async_value(async_value_ptr: FatPtr) {\n    __fp_host_resolve_async_value(async_value_ptr)\n}\n\n"@
            } else {
                ""@
            }) + "#[macro_export]\nmacro_rules! fp_export {\n"@ + text::join(rules, "\n\n"@)
                + "\n}\n"@,
        ),
{
    assert(import_functions@.map_values(
        |function: functions::FunctionModel| function_bindings::import_declaration(function),
    ) =~= declarations);
    assert(import_functions@.map_values(
        |function: functions::FunctionModel| function_bindings::import_definition(function),
    ) =~= definitions);
    assert(export_functions@.map_values(
        |function: functions::FunctionModel| function_bindings::export_rule(function),
    ) =~= rules);
}

} // verus!
