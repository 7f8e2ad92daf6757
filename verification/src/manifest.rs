//! The manifest reader: the name of a package and the dependencies that it
//! has by path.

use crate::error::{prepended, ManifestFault, MergeError, MergeErrorView};
use crate::text::{chain, chain3, replace_all, replaced, same};
use vstd::prelude::*;

verus! {

/// The file, without its extension, at which the library of a package
/// begins, from the directory of the package.
pub const LIBRARY_ENTRY: &'static str = "src/lib";

/// `toml::Value`, a parsed value, is handed on as it is.
#[verifier::external_type_specification]
#[verifier::external_body]
pub struct ExTomlValue(toml::Value);

/// `toml::de::Error`, the error of a text that is no document, is handed on
/// as it is.
#[verifier::external_type_specification]
#[verifier::external_body]
pub struct ExTomlError(toml::de::Error);

/// A value of a TOML document.
#[derive(Debug)]
pub enum TomlValue {
    /// A string.
    Text(String),
    /// An integer.
    Integer(i64),
    /// A floating point number, by its bits.
    Float(u64),
    /// A boolean.
    Boolean(bool),
    /// A date or a time, as the document writes it.
    Datetime(String),
    /// An array, with its items in their order.
    Array(Vec<TomlValue>),
    /// A table, with its entries in their order. Of two entries with one key
    /// the first counts.
    Table(Vec<(String, TomlValue)>),
}

/// A `TomlValue` as a value of mathematics.
pub enum TomlView {
    Text(Seq<char>),
    Integer(i64),
    Float(u64),
    Boolean(bool),
    Datetime(Seq<char>),
    Array(Seq<TomlView>),
    Table(Seq<(Seq<char>, TomlView)>),
}

/// The view of a value of a TOML document.
pub open spec fn toml_view(value: TomlValue) -> TomlView
    decreases value,
{
    match value {
        TomlValue::Text(text) => TomlView::Text(text@),
        TomlValue::Integer(number) => TomlView::Integer(number),
        TomlValue::Float(bits) => TomlView::Float(bits),
        TomlValue::Boolean(truth) => TomlView::Boolean(truth),
        TomlValue::Datetime(text) => TomlView::Datetime(text@),
        TomlValue::Array(items) => TomlView::Array(
            Seq::new(
                items.len() as nat,
                |i: int|
                    if 0 <= i < items.len() {
                        toml_view(items[i])
                    } else {
                        arbitrary()
                    },
            ),
        ),
        TomlValue::Table(entries) => TomlView::Table(
            Seq::new(
                entries.len() as nat,
                |i: int|
                    if 0 <= i < entries.len() {
                        (entries[i].0@, toml_view(entries[i].1))
                    } else {
                        arbitrary()
                    },
            ),
        ),
    }
}

impl View for TomlValue {
    type V = TomlView;

    open spec fn view(&self) -> TomlView {
        toml_view(*self)
    }
}

/// The view of a table has an entry for each entry of the table: the view
/// of the key and the view of the value.
pub proof fn lemma_table_view(value: TomlValue)
    requires
        value is Table,
    ensures
        value@ is Table,
        value@->Table_0.len() == value->Table_0@.len(),
        forall|k: int|
            0 <= k < value->Table_0@.len() ==> #[trigger] value@->Table_0[k] == (
                value->Table_0@[k].0@,
                value->Table_0@[k].1@,
            ),
{
}

/// The value that `text` holds as a TOML document; nothing where it is no
/// such document.
pub uninterp spec fn toml_document(text: Seq<char>) -> Option<TomlView>;

/// What a parsed value holds.
pub uninterp spec fn toml_content(value: toml::Value) -> TomlView;

/// `str::parse::<toml::Value>`, which is `toml::from_str`, reads a text as a
/// TOML document. Whether it succeeds, and the value that it gives, depend on
/// the text alone.
#[verifier::external_body]
fn toml_parse(text: &str) -> (r: Result<toml::Value, toml::de::Error>)
    ensures
        r is Ok <==> toml_document(text@) is Some,
        r matches Ok(value) ==> toml_document(text@) == Some(toml_content(value)),
{
    text.parse::<toml::Value>()
}

/// Hands out what a `toml::Value` holds, variant for variant: a float by
/// `f64::to_bits`, a date by its `Display`, the entries of a table in the
/// order of `Map::iter`, which is the ascending order of the keys.
#[verifier::external_body]
fn toml_plain(value: &toml::Value) -> (r: TomlValue)
    ensures
        r@ == toml_content(*value),
{
    match value {
        toml::Value::String(text) => TomlValue::Text(text.clone()),
        toml::Value::Integer(number) => TomlValue::Integer(*number),
        toml::Value::Float(number) => TomlValue::Float(number.to_bits()),
        toml::Value::Boolean(truth) => TomlValue::Boolean(*truth),
        toml::Value::Datetime(date) => TomlValue::Datetime(date.to_string()),
        toml::Value::Array(items) => TomlValue::Array(items.iter().map(toml_plain).collect()),
        toml::Value::Table(table) => TomlValue::Table(
            table.iter().map(|(key, item)| (key.clone(), toml_plain(item))).collect(),
        ),
    }
}

/// Reads `text` as a TOML document. The tables of the document come with
/// their keys in ascending order.
pub fn parse_document(text: &str) -> (r: Option<TomlValue>)
    ensures
        match r {
            Some(document) => toml_document(text@) == Some(document@),
            None => toml_document(text@) is None,
        },
{
    match toml_parse(text) {
        Ok(value) => Some(toml_plain(&value)),
        Err(_) => None,
    }
}

/// A dependency that the manifest declares by a path.
#[derive(Debug, Clone, PartialEq, Eq)]
pub struct Dependency {
    /// The name of the dependency, as the manifest writes it.
    pub name: String,
    /// The file, without its extension, at which the library of the
    /// dependency begins.
    pub root: String,
}

/// A `Dependency` as a value of mathematics.
pub struct DependencyView {
    pub name: Seq<char>,
    pub root: Seq<char>,
}

impl View for Dependency {
    type V = DependencyView;

    open spec fn view(&self) -> DependencyView {
        DependencyView { name: self.name@, root: self.root@ }
    }
}

/// What a merge takes from the manifest of a package.
#[derive(Debug, Clone, PartialEq, Eq)]
pub struct PackageInfo {
    /// The name of the package, as a module can be named.
    pub name: String,
    /// The dependencies that the package has by path, in the order in which
    /// they are merged.
    pub external_dependencies: Vec<Dependency>,
}

/// `PackageInfo` as a value of mathematics.
pub struct PackageView {
    pub name: Seq<char>,
    pub external_dependencies: Seq<DependencyView>,
}

impl View for PackageInfo {
    type V = PackageView;

    open spec fn view(&self) -> PackageView {
        PackageView {
            name: self.name@,
            external_dependencies: self.external_dependencies@.map_values(
                |dependency: Dependency| dependency@,
            ),
        }
    }
}

/// `name` as a module can be named: with `_` for each `-`.
pub open spec fn normalized(name: Seq<char>) -> Seq<char> {
    replaced(name, "-"@, "_"@)
}

/// The name of a package as a module can be named: without quotes, and
/// with `_` for each `-`.
pub open spec fn curated(name: Seq<char>) -> Seq<char> {
    normalized(replaced(name, "\""@, ""@))
}

/// The entry of the library of the package in the directory `directory`.
pub open spec fn library_entry(directory: Seq<char>) -> Seq<char> {
    if directory.len() == 0 {
        LIBRARY_ENTRY@
    } else if directory.last() == '/' {
        directory + LIBRARY_ENTRY@
    } else {
        directory + "/"@ + LIBRARY_ENTRY@
    }
}

/// The value of the first entry of a table that has the key `key`.
pub open spec fn entry_from(entries: Seq<(Seq<char>, TomlView)>, key: Seq<char>, from: int)
    -> Option<TomlView>
    decreases entries.len() - from,
{
    if from < 0 || from >= entries.len() {
        None
    } else if entries[from].0 == key {
        Some(entries[from].1)
    } else {
        entry_from(entries, key, from + 1)
    }
}

/// What the table `value` holds under `key`; nothing where `value` is no
/// table or has no such key.
pub open spec fn field(value: TomlView, key: Seq<char>) -> Option<TomlView> {
    match value {
        TomlView::Table(entries) => entry_from(entries, key, 0),
        _ => None,
    }
}

/// The name of the package of a manifest: the string `package.name`,
/// curated.
pub open spec fn package_name_of(document: TomlView) -> Result<Seq<char>, MergeErrorView> {
    match field(document, "package"@) {
        Some(package) => match field(package, "name"@) {
            Some(TomlView::Text(name)) => Ok(curated(name)),
            _ => Err(MergeErrorView::Manifest(ManifestFault::PackageName)),
        },
        None => Err(MergeErrorView::Manifest(ManifestFault::PackageName)),
    }
}

/// The dependencies by path among the entries of a table of dependencies,
/// from the entry `from` on: an entry that is a table with a `path`. A
/// `path` that is no string is a fault.
pub open spec fn path_dependencies(entries: Seq<(Seq<char>, TomlView)>, from: int) -> Result<
    Seq<DependencyView>,
    MergeErrorView,
>
    decreases entries.len() - from,
{
    if from < 0 || from >= entries.len() {
        Ok(Seq::empty())
    } else {
        match field(entries[from].1, "path"@) {
            None => path_dependencies(entries, from + 1),
            Some(TomlView::Text(path)) => match path_dependencies(entries, from + 1) {
                Ok(rest) => Ok(
                    seq![DependencyView { name: entries[from].0, root: library_entry(path) }]
                        + rest,
                ),
                Err(e) => Err(e),
            },
            Some(_) => Err(MergeErrorView::Manifest(ManifestFault::DependencyPath)),
        }
    }
}

/// The dependencies by path of a manifest. A manifest without
/// `dependencies` has none.
pub open spec fn dependencies_of(document: TomlView) -> Result<
    Seq<DependencyView>,
    MergeErrorView,
> {
    match field(document, "dependencies"@) {
        None => Ok(Seq::empty()),
        Some(TomlView::Table(entries)) => path_dependencies(entries, 0),
        Some(_) => Err(MergeErrorView::Manifest(ManifestFault::Dependencies)),
    }
}

/// What a merge takes from a manifest.
pub open spec fn package_of(document: TomlView) -> Result<PackageView, MergeErrorView> {
    match package_name_of(document) {
        Err(e) => Err(e),
        Ok(name) => match dependencies_of(document) {
            Err(e) => Err(e),
            Ok(external_dependencies) => Ok(PackageView { name, external_dependencies }),
        },
    }
}

/// What a merge takes from the text of a manifest.
pub open spec fn package_of_text(text: Seq<char>) -> Result<PackageView, MergeErrorView> {
    match toml_document(text) {
        None => Err(MergeErrorView::Manifest(ManifestFault::Syntax)),
        Some(document) => package_of(document),
    }
}

/// The name of the package of the text of a manifest.
pub open spec fn package_name_of_text(text: Seq<char>) -> Result<Seq<char>, MergeErrorView> {
    match toml_document(text) {
        None => Err(MergeErrorView::Manifest(ManifestFault::Syntax)),
        Some(document) => package_name_of(document),
    }
}

/// The view of a package or of the error in its place.
pub open spec fn package_view(r: Result<PackageInfo, MergeError>) -> Result<
    PackageView,
    MergeErrorView,
> {
    match r {
        Ok(info) => Ok(info@),
        Err(e) => Err(e@),
    }
}

/// The view of a text or of the error in its place.
pub open spec fn text_view(r: Result<String, MergeError>) -> Result<Seq<char>, MergeErrorView> {
    match r {
        Ok(text) => Ok(text@),
        Err(e) => Err(e@),
    }
}

/// What the table `value` holds under `key`.
pub fn get<'a>(value: &'a TomlValue, key: &str) -> (r: Option<&'a TomlValue>)
    ensures
        match r {
            Some(found) => field(value@, key@) == Some(found@),
            None => field(value@, key@) is None,
        },
{
    match value {
        TomlValue::Table(entries) => {
            let mut i: usize = 0;
            let ghost views = value@->Table_0;
            proof {
                lemma_table_view(*value);
            }
            while i < entries.len()
                invariant
                    i <= entries.len(),
                    views.len() == entries@.len(),
                    forall|k: int|
                        0 <= k < views.len() ==> #[trigger] views[k] == (
                            entries@[k].0@,
                            entries@[k].1@,
                        ),
                    field(value@, key@) == entry_from(views, key@, i as int),
                decreases entries.len() - i,
            {
                if same(entries[i].0.as_str(), key) {
                    return Some(&entries[i].1);
                }
                i = i + 1;
            }
            None
        },
        _ => None,
    }
}

/// Makes of a package's name the name of a module.
pub fn curate(name: &str) -> (r: String)
    ensures
        r@ == curated(name@),
{
    let bare = replace_all(name, "\"", "");
    replace_all(bare.as_str(), "-", "_")
}

/// Makes of a dependency's name the name of a module.
pub fn normalize(name: &str) -> (r: String)
    ensures
        r@ == normalized(name@),
{
    replace_all(name, "-", "_")
}

/// The entry of the library of the package in `directory`.
pub fn library_entry_of(directory: &str) -> (r: String)
    ensures
        r@ == library_entry(directory@),
{
    let chars = crate::text::chars_of(directory);
    if chars.len() == 0 {
        LIBRARY_ENTRY.to_owned()
    } else if chars[chars.len() - 1] == '/' {
        chain(directory, LIBRARY_ENTRY)
    } else {
        chain3(directory, "/", LIBRARY_ENTRY)
    }
}

/// The name of the package of a manifest.
pub fn package_name(document: &TomlValue) -> (r: Result<String, MergeError>)
    ensures
        text_view(r) == package_name_of(document@),
{
    match get(document, "package") {
        Some(package) => match get(package, "name") {
            Some(TomlValue::Text(name)) => Ok(curate(name.as_str())),
            _ => Err(MergeError::Manifest(ManifestFault::PackageName)),
        },
        None => Err(MergeError::Manifest(ManifestFault::PackageName)),
    }
}

/// The dependencies by path of a manifest.
pub fn dependencies(document: &TomlValue) -> (r: Result<Vec<Dependency>, MergeError>)
    ensures
        match r {
            Ok(found) => dependencies_of(document@) == Ok::<Seq<DependencyView>, MergeErrorView>(
                found@.map_values(|dependency: Dependency| dependency@),
            ),
            Err(e) => dependencies_of(document@) == Err::<Seq<DependencyView>, MergeErrorView>(e@),
        },
{
    let entries = match get(document, "dependencies") {
        None => {
            let none: Vec<Dependency> = Vec::new();
            assert(none@.map_values(|dependency: Dependency| dependency@) =~= Seq::<
                DependencyView,
            >::empty());
            return Ok(none);
        },
        Some(TomlValue::Table(entries)) => entries,
        Some(_) => {
            return Err(MergeError::Manifest(ManifestFault::Dependencies));
        },
    };
    let mut out: Vec<Dependency> = Vec::new();
    let mut i: usize = 0;
    let ghost views = field(document@, "dependencies"@)->Some_0->Table_0;
    proof {
        lemma_table_view(TomlValue::Table(*entries));
    }
    let ghost whole = path_dependencies(views, 0);
    assert(out@.map_values(|dependency: Dependency| dependency@) =~= Seq::<DependencyView>::empty());
    assert(whole == prepended(
        out@.map_values(|dependency: Dependency| dependency@),
        path_dependencies(views, 0),
    )) by {
        match whole {
            Ok(all) => {
                assert(Seq::<DependencyView>::empty() + all =~= all);
            },
            Err(_) => {},
        }
    }
    while i < entries.len()
        invariant
            i <= entries.len(),
            views.len() == entries@.len(),
            forall|k: int|
                0 <= k < views.len() ==> #[trigger] views[k] == (entries@[k].0@, entries@[k].1@),
            whole == dependencies_of(document@),
            whole == prepended(
                out@.map_values(|dependency: Dependency| dependency@),
                path_dependencies(views, i as int),
            ),
        decreases entries.len() - i,
    {
        let ghost before = out@.map_values(|dependency: Dependency| dependency@);
        let ghost tail = path_dependencies(views, i + 1);
        match get(&entries[i].1, "path") {
            None => {},
            Some(TomlValue::Text(path)) => {
                let dependency = Dependency {
                    name: entries[i].0.clone(),
                    root: library_entry_of(path.as_str()),
                };
                out.push(dependency);
                assert(out@.map_values(|dependency: Dependency| dependency@) =~= before.push(
                    dependency@,
                ));
                proof {
                    match tail {
                        Ok(rest) => {
                            assert(before.push(dependency@) + rest =~= before + (seq![
                                dependency@,
                            ] + rest));
                        },
                        Err(_) => {},
                    }
                }
            },
            Some(_) => {
                return Err(MergeError::Manifest(ManifestFault::DependencyPath));
            },
        }
        i = i + 1;
    }
    assert(out@.map_values(|dependency: Dependency| dependency@) + Seq::<DependencyView>::empty()
        =~= out@.map_values(|dependency: Dependency| dependency@));
    Ok(out)
}

/// What a merge takes from a manifest: the curated name of the package, and
/// each dependency that is a table with a `path`, with the entry of its
/// library.
pub fn package_info(document: &TomlValue) -> (r: Result<PackageInfo, MergeError>)
    ensures
        package_view(r) == package_of(document@),
{
    let name = match package_name(document) {
        Ok(name) => name,
        Err(e) => {
            return Err(e);
        },
    };
    match dependencies(document) {
        Ok(external_dependencies) => Ok(PackageInfo { name, external_dependencies }),
        Err(e) => Err(e),
    }
}

/// Reads the text of a manifest.
pub fn load_cargo_toml(text: &str) -> (r: Result<PackageInfo, MergeError>)
    ensures
        package_view(r) == package_of_text(text@),
{
    match parse_document(text) {
        None => Err(MergeError::Manifest(ManifestFault::Syntax)),
        Some(document) => package_info(&document),
    }
}

/// Reads the name of the package from the text of a manifest.
pub fn get_package_name(text: &str) -> (r: Result<String, MergeError>)
    ensures
        text_view(r) == package_name_of_text(text@),
{
    match parse_document(text) {
        None => Err(MergeError::Manifest(ManifestFault::Syntax)),
        Some(document) => package_name(&document),
    }
}

} // verus!
