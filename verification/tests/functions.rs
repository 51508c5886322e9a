//! Functions and complete bindings.

use fp_bindgen::bindings::generate_bindings;
use fp_bindgen::files::{Asset, BindingsFile, Contents};
use fp_bindgen::function_bindings::generate_function_bindings;
use fp_bindgen::functions::{Function, FunctionArg, FunctionList};
use fp_bindgen::order::OrderedSet;
use fp_bindgen::types::{Primitive, Type};

fn arg(name: &str, ty: Type) -> FunctionArg {
    FunctionArg { name: name.to_owned(), ty }
}

fn function(name: &str, args: Vec<FunctionArg>, return_type: Type, is_async: bool) -> Function {
    Function { name: name.to_owned(), doc_lines: vec![], args, return_type, is_async }
}

fn functions(functions: Vec<Function>) -> FunctionList {
    FunctionList { functions }
}

fn structure(name: &str) -> Type {
    Type::Struct(name.to_owned(), vec![], vec![])
}

fn bytes() -> Type {
    Type::List("Vec".to_owned(), Box::new(Type::Primitive(Primitive::U8)))
}

fn text(file: &BindingsFile) -> &str {
    match &file.contents {
        Contents::Text(text) => text,
        Contents::Asset(asset) => panic!("expected text, found {:?}", asset),
    }
}

#[test]
fn no_functions_give_an_empty_frame() {
    let file = generate_function_bindings(functions(vec![]), functions(vec![]), "out", false);
    assert_eq!(file.path, "out/functions.rs");
    assert_eq!(
        text(&file),
        "use super::support::*;\n\
         use super::types::*;\n\
         \n\
         #[link(wasm_import_module = \"fp\")]\n\
         extern \"C\" {\n\n}\n\
         \n\
         \n\
         \n\
         #[macro_export]\nmacro_rules! fp_export {\n\n}\n"
    );
}

#[test]
fn imports_call_the_host() {
    let mut log = function("log", vec![arg("message", Type::String)], Type::Unit, false);
    log.doc_lines = vec![" Logs a message.".to_owned(), "".to_owned()];
    let imports = functions(vec![
        log,
        function(
            "plus",
            vec![
                arg("a", Type::Primitive(Primitive::U32)),
                arg("b", Type::Primitive(Primitive::I64)),
            ],
            Type::Primitive(Primitive::F32),
            false,
        ),
        function("render", vec![arg("page", structure("Page"))], bytes(), false),
        function(
            "fetch",
            vec![arg("url", Type::String), arg("retries", Type::Primitive(Primitive::U8))],
            structure("Response"),
            true,
        ),
    ]);
    let file = generate_function_bindings(imports, functions(vec![]), "p", true);
    assert_eq!(
        text(&file),
        "use super::r#async::*;\n\
         use super::support::*;\n\
         use super::types::*;\n\
         \n\
         #[link(wasm_import_module = \"fp\")]\n\
         extern \"C\" {\n    \
         fn __fp_gen_log(message: FatPtr);\n\n    \
         fn __fp_gen_plus(a: u32, b: i64) -> f32;\n\n    \
         fn __fp_gen_render(page: FatPtr) -> FatPtr;\n\n    \
         fn __fp_gen_fetch(url: FatPtr, retries: u8) -> FatPtr;\n\
         \n    fn __fp_host_resolve_async_value(async_value_ptr: FatPtr);\n\
         }\n\
         \n\
         /// Logs a message.\n\
         ///\n\
         pub fn log(message: String) {\n    \
         let message = export_value_to_host(&message);\n    \
         unsafe { __fp_gen_log(message); }\n\
         }\n\
         \n\
         pub fn plus(a: u32, b: i64) -> f32 {\n    \
         unsafe { __fp_gen_plus(a, b) }\n\
         }\n\
         \n\
         pub fn render(page: Page) -> Vec<u8> {\n    \
         let page = export_value_to_host(&page);\n    \
         unsafe {\n        \
         let ret = __fp_gen_render(page);\n        \
         import_value_from_host(ret)\n    \
         }\n\
         }\n\
         \n\
         pub async fn fetch(url: String, retries: u8) -> Response {\n    \
         let url = export_value_to_host(&url);\n    \
         unsafe {\n        \
         let ret = __fp_gen_fetch(url, retries);\n        \
         let result_ptr = HostFuture::new(ret).await;\n        \
         import_value_from_host(result_ptr)\n    \
         }\n\
         }\n\
         \n\
         #[doc(hidden)]\n\
         pub unsafe fn _fp_host_resolve_async_value(async_value_ptr: FatPtr) {\n    \
         __fp_host_resolve_async_value(async_value_ptr)\n\
         }\n\
         \n\
         #[macro_export]\nmacro_rules! fp_export {\n\n}\n"
    );
}

#[test]
fn exports_have_a_rule_each() {
    let exports = functions(vec![
        function("tick", vec![], Type::Unit, false),
        function(
            "scale",
            vec![arg("by", Type::Primitive(Primitive::F64)), arg("page", structure("Page"))],
            Type::Primitive(Primitive::Bool),
            false,
        ),
        function("draw", vec![arg("data", bytes())], structure("Image"), false),
    ]);
    let file = generate_function_bindings(functions(vec![]), exports, "p", false);
    let start = text(&file).find("#[macro_export]").unwrap();
    assert_eq!(
        &text(&file)[start..],
        "#[macro_export]
macro_rules! fp_export {
    (fn tick($($param:ident: $ty:ty),*) $body:block) => {
        #[no_mangle]
        pub fn __fp_gen_tick() {
            tick();
        }

        fn tick($($param: $ty),*) $body
    };

    (fn scale($($param:ident: $ty:ty),*) -> $ret:ty $body:block) => {
        #[no_mangle]
        pub fn __fp_gen_scale(by: f64, page: _FP_FatPtr) -> $ret {
            let page = unsafe { _fp_import_value_from_host::<Page>(page) };
            scale(by, page)
        }

        fn scale($($param: $ty),*) -> $ret $body
    };

    (fn draw($($param:ident: $ty:ty),*) -> $ret:ty $body:block) => {
        #[no_mangle]
        pub fn __fp_gen_draw(data: _FP_FatPtr) -> _FP_FatPtr {
            let data = unsafe { _fp_import_value_from_host::<Vec<u8>>(data) };
            let ret = draw(data);
            _fp_export_value_to_host::<Image>(&ret)
        }

        fn draw($($param: $ty),*) -> $ret $body
    };
}
"
    );
}

#[test]
fn async_exports_spawn_a_task() {
    let exports = functions(vec![
        function(
            "load",
            vec![arg("url", Type::String), arg("limit", Type::Primitive(Primitive::U16))],
            bytes(),
            true,
        ),
        function("idle", vec![], Type::Unit, true),
        function("count", vec![], Type::Primitive(Primitive::U64), true),
    ]);
    let file = generate_function_bindings(functions(vec![]), exports, "p", false);
    let start = text(&file).find("#[macro_export]").unwrap();
    assert_eq!(
        &text(&file)[start..],
        "#[macro_export]
macro_rules! fp_export {
    (async fn load($($param:ident: $ty:ty),*) -> $ret:ty $body:block) => {
        #[no_mangle]
        pub fn __fp_gen_load(url: _FP_FatPtr, limit: u16) -> _FP_FatPtr {
            let len = std::mem::size_of::<_FP_AsyncValue>() as u32;
            let ptr = _fp_malloc(len);
            let fat_ptr = _fp_to_fat_ptr(ptr, len);
            let ptr = ptr as *mut _FP_AsyncValue;

            _FP_Task::spawn(Box::pin(async move {
                let url = unsafe { _fp_import_value_from_host::<String>(url) };
                let ret = load(url, limit).await;
                unsafe {
                    let (result_ptr, result_len) =
                        _fp_from_fat_ptr(_fp_export_value_to_host::<Vec<u8>>(&ret));
                    (*ptr).ptr = result_ptr as u32;
                    (*ptr).len = result_len;
                    (*ptr).status = 1;
                    _fp_host_resolve_async_value(fat_ptr);
                }
            }));

            fat_ptr
        }

        async fn load($($param: $ty),*) -> $ret $body
    };

    (async fn idle($($param:ident: $ty:ty),*) $body:block) => {
        #[no_mangle]
        pub fn __fp_gen_idle() -> _FP_FatPtr {
            let len = std::mem::size_of::<_FP_AsyncValue>() as u32;
            let ptr = _fp_malloc(len);
            let fat_ptr = _fp_to_fat_ptr(ptr, len);
            let ptr = ptr as *mut _FP_AsyncValue;

            _FP_Task::spawn(Box::pin(async move {
                idle().await;
                unsafe {
                    (*ptr).status = 1;
                    _fp_host_resolve_async_value(fat_ptr);
                }
            }));

            fat_ptr
        }

        async fn idle($($param: $ty),*) $body
    };

    (async fn count($($param:ident: $ty:ty),*) -> $ret:ty $body:block) => {
        #[no_mangle]
        pub fn __fp_gen_count() -> _FP_FatPtr {
            let len = std::mem::size_of::<_FP_AsyncValue>() as u32;
            let ptr = _fp_malloc(len);
            let fat_ptr = _fp_to_fat_ptr(ptr, len);
            let ptr = ptr as *mut _FP_AsyncValue;

            _FP_Task::spawn(Box::pin(async move {
                let ret = count().await;
                unsafe {
                    let (result_ptr, result_len) =
                        _fp_from_fat_ptr(_fp_export_value_to_host::<u64>(&ret));
                    (*ptr).ptr = result_ptr as u32;
                    (*ptr).len = result_len;
                    (*ptr).status = 1;
                    _fp_host_resolve_async_value(fat_ptr);
                }
            }));

            fat_ptr
        }

        async fn count($($param: $ty),*) -> $ret $body
    };
}
"
    );
}

fn paths(files: &Vec<BindingsFile>) -> Vec<&str> {
    files.iter().map(|file| file.path.as_str()).collect()
}

fn asset(file: &BindingsFile) -> Asset {
    match &file.contents {
        Contents::Asset(asset) => *asset,
        Contents::Text(text) => panic!("expected a part of the runtime, found {}", text),
    }
}

#[test]
fn bindings_without_async_imports() {
    // An asynchronous export alone does not bring the asynchronous runtime.
    let files = generate_bindings(
        functions(vec![function("log", vec![], Type::Unit, false)]),
        functions(vec![function("run", vec![], Type::Unit, true)]),
        OrderedSet::new(),
        OrderedSet::new(),
        "out",
    );
    assert_eq!(
        paths(&files),
        vec!["out/types.rs", "out/functions.rs", "out/support.rs", "out/mod.rs"]
    );
    assert_eq!(asset(&files[2]), Asset::Support);
    assert!(text(&files[1]).starts_with("use super::support::*;\n"));
    assert_eq!(
        text(&files[3]),
        "mod functions;
mod support;
mod types;

pub use functions::*;
pub use support::{
    FatPtr as _FP_FatPtr, __fp_free, __fp_malloc, export_value_to_host as _fp_export_value_to_host,
    from_fat_ptr as _fp_from_fat_ptr, import_value_from_host as _fp_import_value_from_host,
    malloc as _fp_malloc, to_fat_ptr as _fp_to_fat_ptr,
};
pub use types::*;
"
    );
}

#[test]
fn bindings_with_async_imports() {
    let mut serializable = OrderedSet::new();
    serializable.insert(structure("Request"));
    let files = generate_bindings(
        functions(vec![
            function("log", vec![], Type::Unit, false),
            function("fetch", vec![], Type::String, true),
        ]),
        functions(vec![]),
        serializable,
        OrderedSet::new(),
        "gen/out",
    );
    assert_eq!(
        paths(&files),
        vec![
            "gen/out/types.rs",
            "gen/out/functions.rs",
            "gen/out/support.rs",
            "gen/out/async.rs",
            "gen/out/queue.rs",
            "gen/out/task.rs",
            "gen/out/mod.rs",
        ]
    );
    assert!(text(&files[0]).contains("pub struct Request {"));
    assert!(text(&files[1]).starts_with("use super::r#async::*;\n"));
    assert_eq!(asset(&files[2]), Asset::Support);
    assert_eq!(asset(&files[3]), Asset::Async);
    assert_eq!(asset(&files[4]), Asset::Queue);
    assert_eq!(asset(&files[5]), Asset::Task);
    assert_eq!(
        text(&files[6]),
        "mod r#async;
mod functions;
mod queue;
mod support;
mod task;
mod types;

pub use functions::*;
pub use r#async::{AsyncValue as _FP_AsyncValue, __fp_guest_resolve_async_value};
pub use support::{
    FatPtr as _FP_FatPtr, __fp_free, __fp_malloc, export_value_to_host as _fp_export_value_to_host,
    from_fat_ptr as _fp_from_fat_ptr, import_value_from_host as _fp_import_value_from_host,
    malloc as _fp_malloc, to_fat_ptr as _fp_to_fat_ptr,
};
pub use task::Task as _FP_Task;
pub use types::*;
"
    );
}
