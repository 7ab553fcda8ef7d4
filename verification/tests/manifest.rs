use generator::cargo::{fill_manifest, manifest_of, CARGO_TOML};
use generator::{cargo_toml, ManifestError};

fn template() -> toml_edit::Document {
    CARGO_TOML.parse().unwrap()
}

fn check_substitution(name: &str) {
    let doc = cargo_toml(name).unwrap();
    assert_eq!(doc["package"]["name"].as_str(), Some(name));
    assert_eq!(doc["package"]["version"].as_str(), Some("0.1.0"));
    let template = template();
    let mut seen = 0;
    for (table_name, item) in template.iter() {
        let before = item.as_table().unwrap();
        let after = doc[table_name].as_table().unwrap();
        assert_eq!(before.len(), after.len());
        for (key, value) in before.iter() {
            seen += 1;
            if table_name == "package" && (key == "name" || key == "version") {
                continue;
            }
            assert_eq!(after[key].to_string(), value.to_string(), "{}.{}", table_name, key);
        }
    }
    assert_eq!(seen, 11);
    assert_eq!(doc.iter().count(), template.iter().count());
}

#[test]
fn manifest_names_the_package() {
    check_substitution("google-drive3");
}

#[test]
fn manifest_takes_names_with_hyphens_underscores_and_digits() {
    check_substitution("a-b");
    check_substitution("a_b");
    check_substitution("crate123");
    check_substitution("x-1_y-2");
}

#[test]
fn manifest_takes_any_string_for_a_name() {
    check_substitution("");
    check_substitution("CRATE NAME GOES HERE");
    check_substitution("with \"quotes\" and \\ and\nnewline");
}

#[test]
fn manifest_text() {
    let doc = cargo_toml("drive").unwrap();
    let expected = CARGO_TOML
        .replace("CRATE NAME GOES HERE", "drive")
        .replace("VERSION GOES HERE", "0.1.0");
    assert_eq!(doc.to_string().trim_end(), expected);
}

#[test]
fn manifest_keeps_the_other_fields_of_the_template() {
    let doc = cargo_toml("drive").unwrap();
    assert_eq!(doc["package"]["edition"].as_str(), Some("2018"));
    assert_eq!(doc["dependencies"]["serde_json"].as_str(), Some("1"));
    assert_eq!(doc["dependencies"]["reqwest"].as_str(), Some("0.9"));
    assert_eq!(doc["dependencies"]["serde"]["version"].as_str(), Some("1"));
    assert_eq!(doc["package"]["authors"].as_array().unwrap().len(), 1);
}

#[test]
fn manifests_are_repeatable() {
    assert_eq!(cargo_toml("drive").unwrap().to_string(), cargo_toml("drive").unwrap().to_string());
}

#[test]
fn template_that_is_no_document_is_a_defect() {
    assert_eq!(manifest_of("[package", "drive").err(), Some(ManifestError::TemplateSyntax));
    assert_eq!(manifest_of("name = ", "drive").err(), Some(ManifestError::TemplateSyntax));
}

#[test]
fn template_without_the_two_fields_is_a_defect() {
    assert_eq!(manifest_of("", "drive").err(), Some(ManifestError::TemplateField));
    assert_eq!(
        manifest_of("[package]\nname = \"x\"", "drive").err(),
        Some(ManifestError::TemplateField)
    );
    assert_eq!(
        manifest_of("[package]\nversion = \"x\"", "drive").err(),
        Some(ManifestError::TemplateField)
    );
    assert_eq!(
        manifest_of("package = 3\n", "drive").err(),
        Some(ManifestError::TemplateField)
    );
    assert_eq!(
        manifest_of("[other]\nname = \"x\"\nversion = \"y\"", "drive").err(),
        Some(ManifestError::TemplateField)
    );
}

#[test]
fn document_whose_root_is_no_table_has_no_fields() {
    let mut doc = template();
    *doc.as_item_mut() = toml_edit::value(3);
    assert_eq!(fill_manifest(doc, "drive").err(), Some(ManifestError::TemplateField));
    let mut doc = template();
    *doc.as_item_mut() = toml_edit::Item::None;
    assert_eq!(fill_manifest(doc, "drive").err(), Some(ManifestError::TemplateField));
    let mut doc = template();
    *doc.as_item_mut() = toml_edit::Item::ArrayOfTables(toml_edit::ArrayOfTables::new());
    assert_eq!(fill_manifest(doc, "drive").err(), Some(ManifestError::TemplateField));
}

#[test]
fn document_whose_root_is_an_inline_table_is_filled() {
    let mut package = toml_edit::InlineTable::new();
    package.insert("name", "a".into());
    package.insert("version", "b".into());
    let mut root = toml_edit::InlineTable::new();
    root.insert("package", toml_edit::Value::InlineTable(package));
    let mut doc = toml_edit::Document::new();
    *doc.as_item_mut() = toml_edit::value(root);
    let full = fill_manifest(doc, "drive").unwrap();
    let package = full.as_item().get("package").unwrap();
    assert_eq!(package.get("name").and_then(|name| name.as_str()), Some("drive"));
    assert_eq!(package.get("version").and_then(|version| version.as_str()), Some("0.1.0"));
}

#[test]
fn other_templates_are_filled_too() {
    let doc = manifest_of("[package]\nname = 1\nversion = [2]\nkeep = true\n", "drive").unwrap();
    assert_eq!(doc["package"]["name"].as_str(), Some("drive"));
    assert_eq!(doc["package"]["version"].as_str(), Some("0.1.0"));
    assert_eq!(doc["package"]["keep"].as_bool(), Some(true));
    let doc = manifest_of("package = { name = \"a\", version = \"b\" }\n", "drive").unwrap();
    assert_eq!(doc["package"]["name"].as_str(), Some("drive"));
    assert_eq!(doc["package"]["version"].as_str(), Some("0.1.0"));
}

#[test]
fn fill_manifest_works_on_a_parsed_document() {
    let full = fill_manifest(template(), "drive").unwrap();
    assert_eq!(full["package"]["name"].as_str(), Some("drive"));
    assert_eq!(full["package"]["version"].as_str(), Some("0.1.0"));
    let empty: toml_edit::Document = "".parse().unwrap();
    assert_eq!(fill_manifest(empty, "drive").err(), Some(ManifestError::TemplateField));
}
