use cargo_merge::error::{ManifestFault, MergeError};
use cargo_merge::manifest::{
    curate, dependencies, get, get_package_name, library_entry_of, load_cargo_toml, normalize,
    package_info, package_name, parse_document, Dependency, PackageInfo, TomlValue,
};

fn text(value: &str) -> TomlValue {
    TomlValue::Text(value.to_string())
}

fn table(entries: Vec<(&str, TomlValue)>) -> TomlValue {
    TomlValue::Table(entries.into_iter().map(|(key, value)| (key.to_string(), value)).collect())
}

fn dependency(name: &str, root: &str) -> Dependency {
    Dependency { name: name.to_string(), root: root.to_string() }
}

#[test]
fn a_document_is_read_variant_for_variant() {
    let document = parse_document(
        "title = \"x\"\ncount = 3\nratio = 0.5\nflag = true\nwhen = 1979-05-27T07:32:00Z\nlist = [1, 2]\n\n[inner]\nkey = \"v\"\n",
    )
    .unwrap();
    let entries = match document {
        TomlValue::Table(entries) => entries,
        other => panic!("the document is no table: {:?}", other),
    };
    let keys: Vec<&str> = entries.iter().map(|(key, _)| key.as_str()).collect();
    assert_eq!(keys, vec!["count", "flag", "inner", "list", "ratio", "title", "when"]);
    assert!(matches!(entries[0].1, TomlValue::Integer(3)));
    assert!(matches!(entries[1].1, TomlValue::Boolean(true)));
    match &entries[2].1 {
        TomlValue::Table(inner) => {
            assert_eq!(inner.len(), 1);
            assert_eq!(inner[0].0, "key");
            assert!(matches!(&inner[0].1, TomlValue::Text(v) if v == "v"));
        },
        other => panic!("inner is no table: {:?}", other),
    }
    match &entries[3].1 {
        TomlValue::Array(items) => {
            assert_eq!(items.len(), 2);
            assert!(matches!(items[0], TomlValue::Integer(1)));
            assert!(matches!(items[1], TomlValue::Integer(2)));
        },
        other => panic!("list is no array: {:?}", other),
    }
    assert!(matches!(entries[4].1, TomlValue::Float(bits) if bits == 0.5f64.to_bits()));
    assert!(matches!(&entries[5].1, TomlValue::Text(v) if v == "x"));
    assert!(matches!(&entries[6].1, TomlValue::Datetime(v) if v == "1979-05-27T07:32:00Z"));
}

#[test]
fn a_text_that_is_no_document_gives_nothing() {
    assert!(parse_document("[package").is_none());
    assert!(parse_document("name = ").is_none());
    assert!(parse_document("").is_some());
}

#[test]
fn get_finds_the_entry_of_a_table() {
    let value = table(vec![("a", text("1")), ("b", text("2"))]);
    assert!(matches!(get(&value, "b"), Some(TomlValue::Text(v)) if v == "2"));
    assert!(get(&value, "c").is_none());
    assert!(get(&text("a"), "a").is_none());
    assert!(get(&TomlValue::Array(vec![text("a")]), "a").is_none());
}

#[test]
fn a_name_is_curated() {
    assert_eq!(curate("my-pkg"), "my_pkg");
    assert_eq!(curate("\"my-pkg\""), "my_pkg");
    assert_eq!(curate("plain"), "plain");
    assert_eq!(normalize("helper-lib-2"), "helper_lib_2");
    assert_eq!(normalize("\"q\""), "\"q\"");
}

#[test]
fn the_library_entry_stands_below_the_directory() {
    assert_eq!(library_entry_of("../helper-lib"), "../helper-lib/src/lib");
    assert_eq!(library_entry_of("../helper-lib/"), "../helper-lib/src/lib");
    assert_eq!(library_entry_of(""), "src/lib");
    assert_eq!(library_entry_of("/"), "/src/lib");
}

#[test]
fn the_package_name_is_the_curated_string() {
    let document = table(vec![("package", table(vec![("name", text("cargo-merge"))]))]);
    assert_eq!(package_name(&document), Ok("cargo_merge".to_string()));
}

#[test]
fn a_manifest_without_a_name_has_the_package_name_fault() {
    let fault = Err(MergeError::Manifest(ManifestFault::PackageName));
    assert_eq!(package_name(&table(vec![])), fault);
    assert_eq!(package_name(&table(vec![("package", table(vec![]))])), fault);
    assert_eq!(package_name(&table(vec![("package", text("x"))])), fault);
    assert_eq!(
        package_name(&table(vec![("package", table(vec![("name", TomlValue::Integer(5))]))])),
        fault
    );
    assert_eq!(get_package_name("[package]\nversion = \"1\"\n"), fault);
    assert_eq!(
        load_cargo_toml("[dependencies]\na = { path = \"a\" }\n").map(|info| info.name),
        Err(MergeError::Manifest(ManifestFault::PackageName))
    );
}

#[test]
fn only_tables_with_a_path_are_dependencies() {
    let document = table(vec![(
        "dependencies",
        table(vec![
            ("a-b", table(vec![("path", text("../a-b"))])),
            ("git", table(vec![("git", text("https://x"))])),
            ("plain", text("1.0")),
            ("z", table(vec![("path", text("z/")), ("version", text("1"))])),
        ]),
    )]);
    assert_eq!(
        dependencies(&document),
        Ok(vec![dependency("a-b", "../a-b/src/lib"), dependency("z", "z/src/lib")])
    );
}

#[test]
fn a_manifest_without_dependencies_has_none() {
    assert_eq!(dependencies(&table(vec![])), Ok(vec![]));
    assert_eq!(dependencies(&table(vec![("dependencies", table(vec![]))])), Ok(vec![]));
    assert_eq!(
        load_cargo_toml("[package]\nname = \"p\"\n"),
        Ok(PackageInfo { name: "p".to_string(), external_dependencies: vec![] })
    );
}

#[test]
fn dependencies_that_are_no_table_are_a_fault() {
    assert_eq!(
        dependencies(&table(vec![("dependencies", text("x"))])),
        Err(MergeError::Manifest(ManifestFault::Dependencies))
    );
    assert_eq!(
        load_cargo_toml("dependencies = 3\n[package]\nname = \"p\"\n"),
        Err(MergeError::Manifest(ManifestFault::Dependencies))
    );
}

#[test]
fn a_path_that_is_no_string_is_a_fault() {
    let document = table(vec![(
        "dependencies",
        table(vec![
            ("a", table(vec![("path", text("a"))])),
            ("b", table(vec![("path", TomlValue::Integer(1))])),
        ]),
    )]);
    assert_eq!(dependencies(&document), Err(MergeError::Manifest(ManifestFault::DependencyPath)));
    assert_eq!(
        load_cargo_toml("[package]\nname = \"p\"\n[dependencies]\nb = { path = true }\n"),
        Err(MergeError::Manifest(ManifestFault::DependencyPath))
    );
}

#[test]
fn the_name_is_read_before_the_dependencies() {
    let document = table(vec![("dependencies", text("x"))]);
    assert_eq!(package_info(&document), Err(MergeError::Manifest(ManifestFault::PackageName)));
}

#[test]
fn a_manifest_is_read_whole() {
    let manifest = "[package]\nname = \"my-app\"\nversion = \"0.1.0\"\nedition = \"2018\"\n\n[dependencies]\nserde = \"1.0\"\nregex = { version = \"1\" }\nhelper-lib = { path = \"../helper-lib\" }\nbase = { path = \"base\", version = \"0.1\" }\n";
    assert_eq!(
        load_cargo_toml(manifest),
        Ok(PackageInfo {
            name: "my_app".to_string(),
            external_dependencies: vec![
                dependency("base", "base/src/lib"),
                dependency("helper-lib", "../helper-lib/src/lib"),
            ],
        })
    );
    assert_eq!(get_package_name(manifest), Ok("my_app".to_string()));
}

#[test]
fn a_manifest_that_is_no_document_has_the_syntax_fault() {
    assert_eq!(load_cargo_toml("[package"), Err(MergeError::Manifest(ManifestFault::Syntax)));
    assert_eq!(get_package_name("name = = 1"), Err(MergeError::Manifest(ManifestFault::Syntax)));
}

#[test]
fn documents_of_tables_and_arrays_are_read_or_refused() {
    let kinds = [
        "[a]", "[[a]]", "[a.b]", "[[a.b]]", "a = 1", "a.b = 1", "a = {b = 1}", "b = 2", "[a.b.c]",
        "a = [{b = 1}]", "[b]", "c = \"x\"", "[[a.b.c]]", "a.b.c = 1",
    ];
    let mut read = 0;
    let mut refused = 0;
    for first in kinds {
        for second in kinds {
            for third in kinds {
                let text = format!("{}\n{}\n{}\n", first, second, third);
                match parse_document(&text) {
                    Some(TomlValue::Table(_)) => read += 1,
                    Some(other) => panic!("a document that is no table: {:?}", other),
                    None => refused += 1,
                }
            }
        }
    }
    assert!(read > 0 && refused > 0);
    assert_eq!(read + refused, 14 * 14 * 14);
}
