//! The functions that cross the boundary.

use crate::text;
use crate::types;
use crate::types::Type;
use vstd::prelude::*;

verus! {

/// An argument of a function.
#[derive(Debug)]
pub struct FunctionArg {
    pub name: String,
    pub ty: Type,
}

/// A function of the protocol.
#[derive(Debug)]
pub struct Function {
    pub name: String,
    /// The lines of its documentation, as they follow the comment sign.
    pub doc_lines: Vec<String>,
    pub args: Vec<FunctionArg>,
    pub return_type: Type,
    pub is_async: bool,
}

/// Functions, in the order in which bindings list them.
#[derive(Debug)]
pub struct FunctionList {
    pub functions: Vec<Function>,
}

/// The content of a `FunctionArg`.
pub ghost struct ArgModel {
    pub name: Seq<char>,
    pub ty: types::TypeModel,
}

/// The content of a `Function`.
pub ghost struct FunctionModel {
    pub name: Seq<char>,
    pub doc_lines: Seq<Seq<char>>,
    pub args: Seq<ArgModel>,
    pub return_type: types::TypeModel,
    pub is_async: bool,
}

impl View for FunctionArg {
    type V = ArgModel;

    open spec fn view(&self) -> ArgModel {
        ArgModel { name: self.name@, ty: self.ty@ }
    }
}

impl View for Function {
    type V = FunctionModel;

    open spec fn view(&self) -> FunctionModel {
        FunctionModel {
            name: self.name@,
            doc_lines: text::texts(self.doc_lines@),
            args: self.args@.map_values(|arg: FunctionArg| arg@),
            return_type: self.return_type@,
            is_async: self.is_async,
        }
    }
}

impl View for FunctionList {
    type V = Seq<FunctionModel>;

    open spec fn view(&self) -> Seq<FunctionModel> {
        self.functions@.map_values(|function: Function| function@)
    }
}

} // verus!
