//! The manifest of the emitted package: a fixed template in which the name
//! and the version of the package are overwritten. The document is read and
//! changed by `toml_edit`.

use crate::error::ManifestError;
use vstd::prelude::*;

verus! {

/// The template of the manifest.
pub const CARGO_TOML: &'static str = "[package]
name = \"CRATE NAME GOES HERE\"
version = \"VERSION GOES HERE\"
authors = [\"Glenn Griffin <ggriffiniii@gmail.com\"]
edition = \"2018\"

[dependencies]
serde = { version = \"1\", features = [\"derive\"] }
serde_json = \"1\"
chrono = { version = \"0.4\", features = [\"serde\"] }
reqwest = \"0.9\"
field_selector = { git = \"https://github.com/ggriffiniii/google-apis\" }
mime = \"0.3\"
textnonce = \"0.6\"";

#[verifier::external_type_specification]
#[verifier::external_body]
pub struct ExDocument(toml_edit::Document);

#[verifier::external_type_specification]
#[verifier::external_body]
pub struct ExTomlError(toml_edit::TomlError);

/// The fields of a document's tables, each under the name of its table and
/// its own key.
///
/// `(table, key)` is in the map where the `get(table)` of the document's
/// root item is an item and that item's `get(key)` is an item too, so where
/// the root is a table or an inline table that holds, under `table`, a table
/// or an inline table that holds something under `key`. A document whose
/// root is neither has no fields. A field that holds a string has the value
/// `(true, s)` with the string `s`. Any other field has the value
/// `(false, t)` with the text `t` that the `Display` of its item writes.
pub uninterp spec fn document_fields(doc: toml_edit::Document) -> Map<
    (Seq<char>, Seq<char>),
    (bool, Seq<char>),
>;

/// What the parser makes of a text: the fields of the document it gives, or
/// nothing where it rejects the text.
pub uninterp spec fn toml_parse(text: Seq<char>) -> Option<
    Map<(Seq<char>, Seq<char>), (bool, Seq<char>)>,
>;

/// Parses `text` as a document.
///
/// Trusted: the body calls `str::parse`, that is the `FromStr` of
/// `toml_edit::Document`, which gives a document or a `TomlError` and depends
/// on `text` alone. The contract names the fields of the document.
#[verifier::external_body]
pub(crate) fn parse_document(text: &str) -> (made: Result<toml_edit::Document, toml_edit::TomlError>)
    ensures
        match made {
            Ok(doc) => toml_parse(text@) == Some(document_fields(doc)),
            Err(_) => toml_parse(text@) is None,
        },
{
    text.parse::<toml_edit::Document>()
}

/// Whether `doc` has the field `key` in its table `table`.
///
/// Trusted: the body takes the root item by `Document::as_item` and calls
/// `Item::get` on it and on what that finds. `Item::get` gives nothing for a
/// missing key and nothing on an item that is neither a table nor an inline
/// table, so it panics on no document, whatever its root.
#[verifier::external_body]
pub(crate) fn has_field(doc: &toml_edit::Document, table: &str, key: &str) -> (has: bool)
    ensures
        has == document_fields(*doc).contains_key((table@, key@)),
{
    doc.as_item().get(table).and_then(|found| found.get(key)).is_some()
}

/// Overwrites the field `key` of the table `table` with the string `value`.
///
/// Trusted: the body indexes the document by `table` and the item found by
/// `key`, both through `IndexMut`, and assigns what `toml_edit::value` makes
/// of `value`. Where the field exists both indexings find it, so neither
/// panics, and the assignment replaces that item and no other.
#[verifier::external_body]
pub(crate) fn set_field(doc: &mut toml_edit::Document, table: &str, key: &str, value: &str)
    requires
        document_fields(*old(doc)).contains_key((table@, key@)),
    ensures
        document_fields(*final(doc)) == document_fields(*old(doc)).insert(
            (table@, key@),
            (true, value@),
        ),
{
    doc[table][key] = toml_edit::value(value);
}

/// Where a manifest holds the name of its package.
pub open spec fn name_key() -> (Seq<char>, Seq<char>) {
    ("package"@, "name"@)
}

/// Where a manifest holds the version of its package.
pub open spec fn version_key() -> (Seq<char>, Seq<char>) {
    ("package"@, "version"@)
}

/// The version that every emitted package starts with.
pub open spec fn initial_version() -> Seq<char> {
    "0.1.0"@
}

/// A template can be filled if it has the two fields that are overwritten.
pub open spec fn fillable(fields: Map<(Seq<char>, Seq<char>), (bool, Seq<char>)>) -> bool {
    fields.contains_key(name_key()) && fields.contains_key(version_key())
}

/// The fields of a template once filled for the package `crate_name`.
pub open spec fn filled(
    fields: Map<(Seq<char>, Seq<char>), (bool, Seq<char>)>,
    crate_name: Seq<char>,
) -> Map<(Seq<char>, Seq<char>), (bool, Seq<char>)> {
    fields.insert(name_key(), (true, crate_name)).insert(version_key(), (true, initial_version()))
}

/// The fields of the manifest made of `template` for the package
/// `crate_name`, or why there is none.
pub open spec fn manifest(template: Seq<char>, crate_name: Seq<char>) -> Result<
    Map<(Seq<char>, Seq<char>), (bool, Seq<char>)>,
    ManifestError,
> {
    match toml_parse(template) {
        None => Err(ManifestError::TemplateSyntax),
        Some(fields) => if fillable(fields) {
            Ok(filled(fields, crate_name))
        } else {
            Err(ManifestError::TemplateField)
        },
    }
}

/// Filling a template sets the name of the package to `crate_name` and its
/// version to the initial one. It adds no field, removes none, and changes
/// no other.
pub proof fn lemma_manifest_substitution(
    fields: Map<(Seq<char>, Seq<char>), (bool, Seq<char>)>,
    crate_name: Seq<char>,
)
    requires
        fillable(fields),
    ensures
        filled(fields, crate_name)[name_key()] == (true, crate_name),
        filled(fields, crate_name)[version_key()] == (true, initial_version()),
        filled(fields, crate_name).dom() == fields.dom(),
        forall|key: (Seq<char>, Seq<char>)|
            fields.contains_key(key) && key != name_key() && key != version_key() ==> filled(
                fields,
                crate_name,
            )[key] == fields[key],
{
    reveal_strlit("name");
    reveal_strlit("version");
    assert("name"@.len() != "version"@.len());
    assert(name_key() != version_key());
    assert(filled(fields, crate_name).dom() =~= fields.dom());
}

/// Fills the parsed template `doc` for the package `crate_name`.
pub fn fill_manifest(doc: toml_edit::Document, crate_name: &str) -> (made: Result<
    toml_edit::Document,
    ManifestError,
>)
    ensures
        match made {
            Ok(full) => fillable(document_fields(doc)) && document_fields(full) == filled(
                document_fields(doc),
                crate_name@,
            ),
            Err(e) => e == ManifestError::TemplateField && !fillable(document_fields(doc)),
        },
{
    if !has_field(&doc, "package", "name") || !has_field(&doc, "package", "version") {
        return Err(ManifestError::TemplateField);
    }
    let mut full = doc;
    set_field(&mut full, "package", "name", crate_name);
    set_field(&mut full, "package", "version", "0.1.0");
    Ok(full)
}

/// Whether `made` is the manifest that `template` gives for `crate_name`.
pub open spec fn is_manifest(
    made: Result<toml_edit::Document, ManifestError>,
    template: Seq<char>,
    crate_name: Seq<char>,
) -> bool {
    match made {
        Ok(doc) => manifest(template, crate_name) == Ok::<_, ManifestError>(document_fields(doc)),
        Err(e) => manifest(template, crate_name) == Err::<
            Map<(Seq<char>, Seq<char>), (bool, Seq<char>)>,
            _,
        >(e),
    }
}

/// The manifest that `template` gives for the package `crate_name`.
pub fn manifest_of(template: &str, crate_name: &str) -> (made: Result<
    toml_edit::Document,
    ManifestError,
>)
    ensures
        is_manifest(made, template@, crate_name@),
{
    match parse_document(template) {
        Ok(doc) => fill_manifest(doc, crate_name),
        Err(_) => Err(ManifestError::TemplateSyntax),
    }
}

/// The manifest of the package `crate_name`: the template with the name set
/// to `crate_name` and the version to the initial one.
pub fn cargo_toml(crate_name: &str) -> (made: Result<toml_edit::Document, ManifestError>)
    ensures
        is_manifest(made, CARGO_TOML@, crate_name@),
{
    manifest_of(CARGO_TOML, crate_name)
}

} // verus!
