//! The conditions that end a merge.

use crate::text::chain;
use vstd::prelude::*;

verus! {

/// What is wrong with a manifest.
#[derive(Debug, Clone, Copy, PartialEq, Eq, Structural)]
pub enum ManifestFault {
    /// The text is not a TOML document.
    Syntax,
    /// There is no `package.name`, or it is not a string.
    PackageName,
    /// `dependencies` is not a table.
    Dependencies,
    /// The `path` of a dependency is not a string.
    DependencyPath,
}

/// Why a merge gave no output.
#[derive(Debug, Clone, PartialEq, Eq)]
pub enum MergeError {
    /// No directory on the way up to the file system's root holds a manifest.
    RootNotFound,
    /// The manifest cannot be used.
    Manifest(ManifestFault),
    /// The module at this path, a path without extension, is declared but
    /// has no source file.
    ModuleResolution(String),
    /// This line pattern is not a regular expression.
    Pattern(String),
}

/// A `MergeError` with its texts as sequences of characters.
pub enum MergeErrorView {
    RootNotFound,
    Manifest(ManifestFault),
    ModuleResolution(Seq<char>),
    Pattern(Seq<char>),
}

impl View for MergeError {
    type V = MergeErrorView;

    open spec fn view(&self) -> MergeErrorView {
        match self {
            MergeError::RootNotFound => MergeErrorView::RootNotFound,
            MergeError::Manifest(fault) => MergeErrorView::Manifest(*fault),
            MergeError::ModuleResolution(path) => MergeErrorView::ModuleResolution(path@),
            MergeError::Pattern(pattern) => MergeErrorView::Pattern(pattern@),
        }
    }
}

impl ManifestFault {
    /// The fault in words.
    pub open spec fn text(self) -> Seq<char> {
        match self {
            ManifestFault::Syntax => "Could not parse Cargo.toml content"@,
            ManifestFault::PackageName => "Cargo.toml names no package"@,
            ManifestFault::Dependencies => "The dependencies of Cargo.toml are not a table"@,
            ManifestFault::DependencyPath => "The path of a dependency is not a string"@,
        }
    }

    /// The fault in words.
    pub fn message(self) -> (r: String)
        ensures
            r@ == self.text(),
    {
        match self {
            ManifestFault::Syntax => "Could not parse Cargo.toml content".to_owned(),
            ManifestFault::PackageName => "Cargo.toml names no package".to_owned(),
            ManifestFault::Dependencies => "The dependencies of Cargo.toml are not a table".to_owned(),
            ManifestFault::DependencyPath => "The path of a dependency is not a string".to_owned(),
        }
    }
}

impl MergeErrorView {
    /// The message that tells the operator of this error.
    pub open spec fn text(self) -> Seq<char> {
        match self {
            MergeErrorView::RootNotFound => "Rust package root not found."@,
            MergeErrorView::Manifest(fault) => fault.text(),
            MergeErrorView::ModuleResolution(path) => "File not found for module: "@ + path,
            MergeErrorView::Pattern(pattern) => "Unable to compile the pattern: "@ + pattern,
        }
    }
}

impl MergeError {
    /// The message that tells the operator of this error.
    pub fn message(&self) -> (r: String)
        ensures
            r@ == self@.text(),
    {
        match self {
            MergeError::RootNotFound => "Rust package root not found.".to_owned(),
            MergeError::Manifest(fault) => fault.message(),
            MergeError::ModuleResolution(path) => chain(
                "File not found for module: ",
                path.as_str(),
            ),
            MergeError::Pattern(pattern) => chain(
                "Unable to compile the pattern: ",
                pattern.as_str(),
            ),
        }
    }
}

/// `before`, then what `rest` holds; the error of `rest` where it is one.
pub open spec fn prepended<T>(before: Seq<T>, rest: Result<Seq<T>, MergeErrorView>) -> Result<
    Seq<T>,
    MergeErrorView,
> {
    match rest {
        Ok(items) => Ok(before + items),
        Err(e) => Err(e),
    }
}

/// Nothing before a result leaves the result as it is.
pub proof fn lemma_prepended_nothing<T>(rest: Result<Seq<T>, MergeErrorView>)
    ensures
        prepended(Seq::empty(), rest) == rest,
{
    match rest {
        Ok(items) => {
            assert(Seq::<T>::empty() + items =~= items);
        },
        Err(_) => {},
    }
}

/// What stands before a result can be put there in two steps.
pub proof fn lemma_prepended_twice<T>(
    before: Seq<T>,
    middle: Seq<T>,
    rest: Result<Seq<T>, MergeErrorView>,
)
    ensures
        prepended(before + middle, rest) == prepended(before, prepended(middle, rest)),
{
    match rest {
        Ok(items) => {
            assert((before + middle) + items =~= before + (middle + items));
        },
        Err(_) => {},
    }
}

} // verus!
