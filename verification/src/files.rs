//! The files that bindings consist of.

use vstd::prelude::*;

verus! {

/// A source file of the plugin's runtime, which is written out as it stands.
#[derive(Clone, Copy, Debug, PartialEq, Eq, Structural)]
pub enum Asset {
    Async,
    Queue,
    Support,
    Task,
}

/// What a file holds.
#[derive(Debug)]
pub enum Contents {
    /// Generated source code.
    Text(String),
    /// A part of the runtime.
    Asset(Asset),
}

/// A file to be written.
#[derive(Debug)]
pub struct BindingsFile {
    pub path: String,
    pub contents: Contents,
}

/// What a file holds, as a value.
pub ghost enum ContentsModel {
    Text(Seq<char>),
    Asset(Asset),
}

/// A file to be written, as a value.
pub ghost struct FileModel {
    pub path: Seq<char>,
    pub contents: ContentsModel,
}

impl View for Contents {
    type V = ContentsModel;

    open spec fn view(&self) -> ContentsModel {
        match self {
            Contents::Text(text) => ContentsModel::Text(text@),
            Contents::Asset(asset) => ContentsModel::Asset(*asset),
        }
    }
}

impl View for BindingsFile {
    type V = FileModel;

    open spec fn view(&self) -> FileModel {
        FileModel { path: self.path@, contents: self.contents@ }
    }
}

} // verus!
