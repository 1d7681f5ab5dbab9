//! The root configuration and the plugin manifest: their record types, the
//! schema each must satisfy, and validators that check a JSON document
//! against the schema and extract the record.
//!
//! The root configuration requires three string fields: `name`, `version`,
//! `description`. The plugin manifest requires `name` (matching the name
//! pattern), `version` (matching the version pattern), non-empty
//! `description` and `author` strings, and `permissions`, an array of
//! distinct strings. Validation collects one line per offending field, each
//! with its JSON pointer, joined by newlines.

use vstd::prelude::*;

use crate::errors::ConfigError;
use crate::json::{json_view, Json, JsonV, spec_obj_lookup};
use crate::pattern::{is_name, is_semver, is_valid_name, is_valid_semver};
use crate::strutil::str_eq;

verus! {

/// The root configuration record: identifies the hosting application.
/// Immutable after load.
#[derive(Debug)]
pub struct ConfigData {
    pub name: String,
    pub version: String,
    pub description: String,
}

/// The mathematical view of a root configuration.
#[verifier::ext_equal]
pub struct ConfigV {
    pub name: Seq<char>,
    pub version: Seq<char>,
    pub description: Seq<char>,
}

impl View for ConfigData {
    type V = ConfigV;

    open spec fn view(&self) -> ConfigV {
        ConfigV { name: self.name@, version: self.version@, description: self.description@ }
    }
}

impl Clone for ConfigData {
    fn clone(&self) -> (res: Self)
        ensures
            res@ == self@,
    {
        ConfigData {
            name: self.name.clone(),
            version: self.version.clone(),
            description: self.description.clone(),
        }
    }
}

/// A plugin manifest record.
#[derive(Debug)]
pub struct PluginConfigData {
    pub name: String,
    pub version: String,
    pub description: String,
    pub author: String,
    pub permissions: Vec<String>,
}

/// The mathematical view of a plugin manifest.
#[verifier::ext_equal]
pub struct ManifestV {
    pub name: Seq<char>,
    pub version: Seq<char>,
    pub description: Seq<char>,
    pub author: Seq<char>,
    pub permissions: Seq<Seq<char>>,
}

impl View for PluginConfigData {
    type V = ManifestV;

    open spec fn view(&self) -> ManifestV {
        ManifestV {
            name: self.name@,
            version: self.version@,
            description: self.description@,
            author: self.author@,
            permissions: self.permissions.deep_view(),
        }
    }
}

impl Clone for PluginConfigData {
    fn clone(&self) -> (res: Self)
        ensures
            res@ == self@,
    {
        let permissions = self.permissions.clone();
        proof {
            assert(permissions.deep_view() =~= self.permissions.deep_view());
        }
        PluginConfigData {
            name: self.name.clone(),
            version: self.version.clone(),
            description: self.description.clone(),
            author: self.author.clone(),
            permissions,
        }
    }
}

/// The fields a well-formed manifest has: the schema, stated of the record
/// rather than of a document.
pub open spec fn wf_manifest(m: ManifestV) -> bool {
    &&& is_name(m.name)
    &&& is_semver(m.version)
    &&& m.description.len() >= 1
    &&& m.author.len() >= 1
    &&& forall|i: int, j: int|
        0 <= i < j < m.permissions.len() ==> m.permissions[i] != m.permissions[j]
}

/// The string held by an object's entry at `key`, if the entry exists and
/// holds a string.
pub open spec fn field_str(e: Seq<(Seq<char>, JsonV)>, key: Seq<char>) -> Option<Seq<char>> {
    match spec_obj_lookup(e, key) {
        Some(JsonV::Str(s)) => Some(s),
        _ => None,
    }
}

/// Whether every element of a JSON array is a string.
pub open spec fn all_strings(items: Seq<JsonV>) -> bool {
    forall|i: int| 0 <= i < items.len() ==> items[i] is Str
}

/// Whether the strings of a JSON array are pairwise distinct.
pub open spec fn unique_strings(items: Seq<JsonV>) -> bool {
    forall|i: int, j: int| 0 <= i < j < items.len() ==> items[i]->Str_0 != items[j]->Str_0
}

/// Whether an object's entries satisfy the manifest schema.
pub open spec fn valid_manifest_obj(e: Seq<(Seq<char>, JsonV)>) -> bool {
    &&& field_str(e, "name"@) matches Some(n) && is_name(n)
    &&& field_str(e, "version"@) matches Some(v) && is_semver(v)
    &&& field_str(e, "description"@) matches Some(d) && d.len() >= 1
    &&& field_str(e, "author"@) matches Some(a) && a.len() >= 1
    &&& spec_obj_lookup(e, "permissions"@) matches Some(JsonV::Arr(items)) && all_strings(items)
        && unique_strings(items)
}

/// The manifest record an object's entries describe.
pub open spec fn manifest_of_obj(e: Seq<(Seq<char>, JsonV)>) -> ManifestV {
    let items = spec_obj_lookup(e, "permissions"@)->Some_0->Arr_0;
    ManifestV {
        name: field_str(e, "name"@)->Some_0,
        version: field_str(e, "version"@)->Some_0,
        description: field_str(e, "description"@)->Some_0,
        author: field_str(e, "author"@)->Some_0,
        permissions: Seq::new(items.len(), |i: int| items[i]->Str_0),
    }
}

/// What validating a document against the manifest schema yields.
pub open spec fn spec_validate_manifest(j: JsonV) -> Option<ManifestV> {
    if j matches JsonV::Obj(e) && valid_manifest_obj(e) {
        Some(manifest_of_obj(j->Obj_0))
    } else {
        None
    }
}

/// Whether an object's entries satisfy the root-configuration schema.
pub open spec fn valid_config_obj(e: Seq<(Seq<char>, JsonV)>) -> bool {
    &&& field_str(e, "name"@) is Some
    &&& field_str(e, "version"@) is Some
    &&& field_str(e, "description"@) is Some
}

/// The configuration record an object's entries describe.
pub open spec fn config_of_obj(e: Seq<(Seq<char>, JsonV)>) -> ConfigV {
    ConfigV {
        name: field_str(e, "name"@)->Some_0,
        version: field_str(e, "version"@)->Some_0,
        description: field_str(e, "description"@)->Some_0,
    }
}

/// What validating a document against the root-configuration schema yields.
pub open spec fn spec_validate_config(j: JsonV) -> Option<ConfigV> {
    if j matches JsonV::Obj(e) && valid_config_obj(e) {
        Some(config_of_obj(j->Obj_0))
    } else {
        None
    }
}

/// The diagnostic lines the name field contributes.
pub open spec fn name_lines(e: Seq<(Seq<char>, JsonV)>) -> Seq<Seq<char>> {
    match spec_obj_lookup(e, "name"@) {
        None => seq!["Path '/name': required property is missing"@],
        Some(JsonV::Str(s)) => if is_name(s) {
            Seq::empty()
        } else {
            seq!["Path '/name': does not match the name pattern"@]
        },
        Some(_) => seq!["Path '/name': expected a string"@],
    }
}

/// The diagnostic lines the version field contributes.
pub open spec fn version_lines(e: Seq<(Seq<char>, JsonV)>) -> Seq<Seq<char>> {
    match spec_obj_lookup(e, "version"@) {
        None => seq!["Path '/version': required property is missing"@],
        Some(JsonV::Str(s)) => if is_semver(s) {
            Seq::empty()
        } else {
            seq!["Path '/version': does not match the version pattern"@]
        },
        Some(_) => seq!["Path '/version': expected a string"@],
    }
}

/// The diagnostic lines the description field contributes.
pub open spec fn description_lines(e: Seq<(Seq<char>, JsonV)>) -> Seq<Seq<char>> {
    match spec_obj_lookup(e, "description"@) {
        None => seq!["Path '/description': required property is missing"@],
        Some(JsonV::Str(s)) => if s.len() >= 1 {
            Seq::empty()
        } else {
            seq!["Path '/description': must not be empty"@]
        },
        Some(_) => seq!["Path '/description': expected a string"@],
    }
}

/// The diagnostic lines the author field contributes.
pub open spec fn author_lines(e: Seq<(Seq<char>, JsonV)>) -> Seq<Seq<char>> {
    match spec_obj_lookup(e, "author"@) {
        None => seq!["Path '/author': required property is missing"@],
        Some(JsonV::Str(s)) => if s.len() >= 1 {
            Seq::empty()
        } else {
            seq!["Path '/author': must not be empty"@]
        },
        Some(_) => seq!["Path '/author': expected a string"@],
    }
}

/// The diagnostic lines the permissions field contributes.
pub open spec fn permissions_lines(e: Seq<(Seq<char>, JsonV)>) -> Seq<Seq<char>> {
    match spec_obj_lookup(e, "permissions"@) {
        None => seq!["Path '/permissions': required property is missing"@],
        Some(JsonV::Arr(items)) => if !all_strings(items) {
            seq!["Path '/permissions': expected an array of strings"@]
        } else if !unique_strings(items) {
            seq!["Path '/permissions': items are not unique"@]
        } else {
            Seq::empty()
        },
        Some(_) => seq!["Path '/permissions': expected an array"@],
    }
}

/// The line reported when the document is not an object at all.
pub open spec fn not_object_line() -> Seq<char> {
    "Path '': expected an object"@
}

/// Every diagnostic line manifest validation collects, in field order.
pub open spec fn manifest_error_lines(j: JsonV) -> Seq<Seq<char>> {
    match j {
        JsonV::Obj(e) => name_lines(e) + version_lines(e) + description_lines(e) + author_lines(e)
            + permissions_lines(e),
        _ => seq![not_object_line()],
    }
}

/// The diagnostic lines a required plain-string field contributes to
/// root-configuration validation.
pub open spec fn config_field_lines(
    e: Seq<(Seq<char>, JsonV)>,
    key: Seq<char>,
    missing: Seq<char>,
    wrong_type: Seq<char>,
) -> Seq<Seq<char>> {
    match spec_obj_lookup(e, key) {
        None => seq![missing],
        Some(JsonV::Str(_)) => Seq::empty(),
        Some(_) => seq![wrong_type],
    }
}

/// Every diagnostic line root-configuration validation collects.
pub open spec fn config_error_lines(j: JsonV) -> Seq<Seq<char>> {
    match j {
        JsonV::Obj(e) => config_field_lines(
            e,
            "name"@,
            "Path '/name': required property is missing"@,
            "Path '/name': expected a string"@,
        ) + config_field_lines(
            e,
            "version"@,
            "Path '/version': required property is missing"@,
            "Path '/version': expected a string"@,
        ) + config_field_lines(
            e,
            "description"@,
            "Path '/description': required property is missing"@,
            "Path '/description': expected a string"@,
        ),
        _ => seq![not_object_line()],
    }
}

/// Lines joined by newlines, without a trailing newline.
pub open spec fn join_lines(ls: Seq<Seq<char>>) -> Seq<char>
    decreases ls.len(),
{
    if ls.len() == 0 {
        Seq::empty()
    } else if ls.len() == 1 {
        ls[0]
    } else {
        ls[0] + seq!['\n'] + join_lines(ls.drop_first())
    }
}

/// Appending a line extends the joined text by a newline and the line.
proof fn lemma_join_snoc(ls: Seq<Seq<char>>, x: Seq<char>)
    requires
        ls.len() >= 1,
    ensures
        join_lines(ls.push(x)) == join_lines(ls) + seq!['\n'] + x,
    decreases ls.len(),
{
    if ls.len() == 1 {
        assert(ls.push(x).drop_first() =~= seq![x]);
        assert(join_lines(seq![x]) == x);
        assert(join_lines(ls.push(x)) =~= ls[0] + seq!['\n'] + x);
    } else {
        lemma_join_snoc(ls.drop_first(), x);
        assert(ls.push(x).drop_first() =~= ls.drop_first().push(x));
        assert(join_lines(ls.push(x)) =~= join_lines(ls) + seq!['\n'] + x);
    }
}

/// Join collected diagnostic lines into the newline-separated message.
pub fn join_error_lines(lines: &Vec<String>) -> (r: String)
    ensures
        r@ == join_lines(lines.deep_view()),
{
    let mut m = String::new();
    if lines.len() == 0 {
        return m;
    }
    m.append(lines[0].as_str());
    proof {
        assert(lines.deep_view().take(1) =~= seq![lines@[0]@]);
    }
    let mut i: usize = 1;
    while i < lines.len()
        invariant
            1 <= i <= lines@.len(),
            lines.deep_view().len() == lines@.len(),
            forall|k: int| 0 <= k < lines@.len() ==> lines.deep_view()[k] == lines@[k]@,
            m@ == join_lines(lines.deep_view().take(i as int)),
        decreases lines@.len() - i,
    {
        m.append("\n");
        m.append(lines[i].as_str());
        proof {
            reveal_strlit("\n");
            assert("\n"@ =~= seq!['\n']);
            let prefix = lines.deep_view().take(i as int);
            lemma_join_snoc(prefix, lines@[i as int]@);
            assert(prefix.push(lines@[i as int]@) =~= lines.deep_view().take(i as int + 1));
        }
        i = i + 1;
    }
    proof {
        assert(lines.deep_view().take(lines@.len() as int) =~= lines.deep_view());
    }
    m
}

/// The view of a vector of documents.
pub open spec fn jsons_view(items: Seq<Json>) -> Seq<JsonV> {
    Seq::new(items.len(), |i: int| crate::json::json_view(items[i]))
}

/// Extract the strings of a JSON array, or report that some element is not
/// a string.
fn collect_strings(items: &Vec<Json>) -> (r: Option<Vec<String>>)
    ensures
        r is Some <==> all_strings(jsons_view(items@)),
        r matches Some(v) ==> {
            &&& v.deep_view().len() == items@.len()
            &&& forall|i: int|
                0 <= i < items@.len() ==> v.deep_view()[i] == jsons_view(items@)[i]->Str_0
        },
{
    let mut vals: Vec<String> = Vec::new();
    let mut i: usize = 0;
    while i < items.len()
        invariant
            i <= items@.len(),
            vals.deep_view().len() == i,
            forall|j: int| 0 <= j < i ==> jsons_view(items@)[j] is Str,
            forall|j: int| 0 <= j < i ==> vals.deep_view()[j] == jsons_view(items@)[j]->Str_0,
        decreases items@.len() - i,
    {
        match &items[i] {
            Json::Str(s) => {
                let ghost old_dv = vals.deep_view();
                let ghost sv = s@;
                vals.push(s.clone());
                proof {
                    assert(vals.deep_view() =~= old_dv.push(sv));
                    assert(jsons_view(items@)[i as int] == JsonV::Str(sv));
                }
            },
            _ => {
                proof {
                    assert(!(jsons_view(items@)[i as int] is Str));
                }
                return None;
            },
        }
        i = i + 1;
    }
    Some(vals)
}

/// Validate a document against the plugin-manifest schema and extract the
/// manifest record.
///
/// Succeeds exactly on documents the schema admits; on failure the error
/// holds one line per offending field, each with its JSON pointer, joined
/// by newlines.
#[verifier::rlimit(60)]
pub fn validate_plugin_manifest(j: &Json) -> (r: Result<PluginConfigData, ConfigError>)
    ensures
        r is Ok <==> spec_validate_manifest(j@) is Some,
        r matches Ok(m) ==> spec_validate_manifest(j@) == Some(m@),
        r matches Err(err) ==> (err matches ConfigError::ValidationError(msg) && msg@ == join_lines(
            manifest_error_lines(j@),
        )),
{
    match j {
        Json::Obj(_) => {},
        _ => {
            proof {
                crate::json::lemma_view_variants(*j);
                assert(manifest_error_lines(j@) =~= seq![not_object_line()]);
            }
            return Err(
                ConfigError::ValidationError(String::from_str("Path '': expected an object")),
            );
        },
    }
    let ghost e = j@->Obj_0;
    let mut lines: Vec<String> = Vec::new();

    let mut name_val: Option<String> = None;
    match j.get("name") {
        None => {
            lines.push(String::from_str("Path '/name': required property is missing"));
        },
        Some(doc) => {
            proof {
                crate::json::lemma_view_variants(*doc);
            }
            match doc {
                Json::Str(s) => {
                    if is_valid_name(s.as_str()) {
                        name_val = Some(s.clone());
                    } else {
                        lines.push(
                            String::from_str("Path '/name': does not match the name pattern"),
                        );
                    }
                },
                _ => {
                    lines.push(String::from_str("Path '/name': expected a string"));
                },
            }
        },
    }
    proof {
        assert(lines.deep_view() =~= name_lines(e));
        assert(name_val is Some <==> name_lines(e).len() == 0);
    }
    assert(name_val is Some ==> field_str(e, "name"@) == Some(name_val->Some_0@) && is_name(
        name_val->Some_0@,
    ));

    let mut version_val: Option<String> = None;
    match j.get("version") {
        None => {
            lines.push(String::from_str("Path '/version': required property is missing"));
        },
        Some(doc) => {
            proof {
                crate::json::lemma_view_variants(*doc);
            }
            match doc {
                Json::Str(s) => {
                    if is_valid_semver(s.as_str()) {
                        version_val = Some(s.clone());
                    } else {
                        lines.push(
                            String::from_str("Path '/version': does not match the version pattern"),
                        );
                    }
                },
                _ => {
                    lines.push(String::from_str("Path '/version': expected a string"));
                },
            }
        },
    }
    proof {
        assert(lines.deep_view() =~= name_lines(e) + version_lines(e));
        assert(version_val is Some <==> version_lines(e).len() == 0);
    }
    assert(version_val is Some ==> field_str(e, "version"@) == Some(version_val->Some_0@)
        && is_semver(version_val->Some_0@));

    let mut description_val: Option<String> = None;
    match j.get("description") {
        None => {
            lines.push(String::from_str("Path '/description': required property is missing"));
        },
        Some(doc) => {
            proof {
                crate::json::lemma_view_variants(*doc);
            }
            match doc {
                Json::Str(s) => {
                    if !s.as_str().is_empty() {
                        description_val = Some(s.clone());
                    } else {
                        lines.push(String::from_str("Path '/description': must not be empty"));
                    }
                },
                _ => {
                    lines.push(String::from_str("Path '/description': expected a string"));
                },
            }
        },
    }
    proof {
        assert(lines.deep_view() =~= name_lines(e) + version_lines(e) + description_lines(e));
        assert(description_val is Some <==> description_lines(e).len() == 0);
    }
    assert(description_val is Some ==> field_str(e, "description"@) == Some(
        description_val->Some_0@,
    ) && description_val->Some_0@.len() >= 1);

    let mut author_val: Option<String> = None;
    match j.get("author") {
        None => {
            lines.push(String::from_str("Path '/author': required property is missing"));
        },
        Some(doc) => {
            proof {
                crate::json::lemma_view_variants(*doc);
            }
            match doc {
                Json::Str(s) => {
                    if !s.as_str().is_empty() {
                        author_val = Some(s.clone());
                    } else {
                        lines.push(String::from_str("Path '/author': must not be empty"));
                    }
                },
                _ => {
                    lines.push(String::from_str("Path '/author': expected a string"));
                },
            }
        },
    }
    proof {
        assert(lines.deep_view() =~= name_lines(e) + version_lines(e) + description_lines(e)
            + author_lines(e));
        assert(author_val is Some <==> author_lines(e).len() == 0);
    }
    assert(author_val is Some ==> field_str(e, "author"@) == Some(author_val->Some_0@)
        && author_val->Some_0@.len() >= 1);

    let ghost lines4 = lines.deep_view();
    let mut perms_val: Option<Vec<String>> = None;
    match j.get("permissions") {
        None => {
            lines.push(String::from_str("Path '/permissions': required property is missing"));
            proof {
                assert(lines.deep_view() =~= lines4 + permissions_lines(e));
            }
        },
        Some(doc) => {
            proof {
                crate::json::lemma_view_variants(*doc);
            }
            match doc {
                Json::Arr(items) => {
                    proof {
                        assert(doc@->Arr_0 =~= jsons_view(items@));
                    }
                    match collect_strings(items) {
                        None => {
                            lines.push(
                                String::from_str(
                                    "Path '/permissions': expected an array of strings",
                                ),
                            );
                            proof {
                                assert(!all_strings(doc@->Arr_0));
                                assert(lines.deep_view() =~= lines4 + permissions_lines(e));
                            }
                        },
                        Some(vals) => {
                            if all_distinct(&vals) {
                                proof {
                                    assert(all_strings(doc@->Arr_0));
                                    assert(vals.deep_view().len() == doc@->Arr_0.len());
                                    assert forall|a: int, b: int|
                                        0 <= a < b < doc@->Arr_0.len() implies doc@->Arr_0[a]->Str_0
                                        != doc@->Arr_0[b]->Str_0 by {
                                        assert(vals.deep_view()[a] == jsons_view(
                                            items@,
                                        )[a]->Str_0);
                                        assert(vals.deep_view()[b] == jsons_view(
                                            items@,
                                        )[b]->Str_0);
                                        assert(vals.deep_view()[a] != vals.deep_view()[b]);
                                    }
                                    assert(unique_strings(doc@->Arr_0));
                                }
                                perms_val = Some(vals);
                                proof {
                                    assert(lines.deep_view() =~= lines4 + permissions_lines(e));
                                }
                            } else {
                                proof {
                                    assert(!unique_strings(doc@->Arr_0)) by {
                                        let (a, b): (int, int) = choose|a: int, b: int|
                                            0 <= a < b < vals.deep_view().len()
                                                && vals.deep_view()[a] == vals.deep_view()[b];
                                        assert(doc@->Arr_0[a]->Str_0 == doc@->Arr_0[b]->Str_0);
                                    }
                                }
                                lines.push(
                                    String::from_str("Path '/permissions': items are not unique"),
                                );
                                proof {
                                    assert(lines.deep_view() =~= lines4 + permissions_lines(e));
                                }
                            }
                        },
                    }
                },
                _ => {
                    lines.push(String::from_str("Path '/permissions': expected an array"));
                    proof {
                        assert(lines.deep_view() =~= lines4 + permissions_lines(e));
                    }
                },
            }
        },
    }
    proof {
        assert(lines.deep_view() =~= manifest_error_lines(j@));
        assert(perms_val is Some <==> permissions_lines(e).len() == 0);
    }
    assert(perms_val is Some ==> {
        &&& spec_obj_lookup(e, "permissions"@) matches Some(JsonV::Arr(items))
        &&& all_strings(items)
        &&& unique_strings(items)
        &&& perms_val->Some_0.deep_view() =~= Seq::new(items.len(), |i: int| items[i]->Str_0)
    });

    if lines.len() == 0 {
        let m = PluginConfigData {
            name: name_val.unwrap(),
            version: version_val.unwrap(),
            description: description_val.unwrap(),
            author: author_val.unwrap(),
            permissions: perms_val.unwrap(),
        };
        proof {
            assert(valid_manifest_obj(e));
            assert(m@ =~= manifest_of_obj(e));
        }
        Ok(m)
    } else {
        proof {
            assert(!valid_manifest_obj(e));
        }
        Err(ConfigError::ValidationError(join_error_lines(&lines)))
    }
}

/// Validate a document against the root-configuration schema and extract
/// the configuration record.
pub fn validate_root_config(j: &Json) -> (r: Result<ConfigData, ConfigError>)
    ensures
        r is Ok <==> spec_validate_config(j@) is Some,
        r matches Ok(c) ==> spec_validate_config(j@) == Some(c@),
        r matches Err(err) ==> (err matches ConfigError::ValidationError(msg) && msg@ == join_lines(
            config_error_lines(j@),
        )),
{
    match j {
        Json::Obj(_) => {},
        _ => {
            proof {
                crate::json::lemma_view_variants(*j);
                assert(config_error_lines(j@) =~= seq![not_object_line()]);
            }
            return Err(
                ConfigError::ValidationError(String::from_str("Path '': expected an object")),
            );
        },
    }
    let ghost e = j@->Obj_0;
    let mut lines: Vec<String> = Vec::new();

    let mut name_val: Option<String> = None;
    match j.get("name") {
        None => {
            lines.push(String::from_str("Path '/name': required property is missing"));
        },
        Some(doc) => {
            proof {
                crate::json::lemma_view_variants(*doc);
            }
            match doc {
                Json::Str(s) => {
                    name_val = Some(s.clone());
                },
                _ => {
                    lines.push(String::from_str("Path '/name': expected a string"));
                },
            }
        },
    }
    let mut version_val: Option<String> = None;
    match j.get("version") {
        None => {
            lines.push(String::from_str("Path '/version': required property is missing"));
        },
        Some(doc) => {
            proof {
                crate::json::lemma_view_variants(*doc);
            }
            match doc {
                Json::Str(s) => {
                    version_val = Some(s.clone());
                },
                _ => {
                    lines.push(String::from_str("Path '/version': expected a string"));
                },
            }
        },
    }
    let mut description_val: Option<String> = None;
    match j.get("description") {
        None => {
            lines.push(String::from_str("Path '/description': required property is missing"));
        },
        Some(doc) => {
            proof {
                crate::json::lemma_view_variants(*doc);
            }
            match doc {
                Json::Str(s) => {
                    description_val = Some(s.clone());
                },
                _ => {
                    lines.push(String::from_str("Path '/description': expected a string"));
                },
            }
        },
    }
    proof {
        assert(lines.deep_view() =~= config_error_lines(j@));
    }
    if lines.len() == 0 {
        let c = ConfigData {
            name: name_val.unwrap(),
            version: version_val.unwrap(),
            description: description_val.unwrap(),
        };
        proof {
            assert(valid_config_obj(e));
            assert(c@ =~= config_of_obj(e));
        }
        Ok(c)
    } else {
        proof {
            assert(!valid_config_obj(e));
        }
        Err(ConfigError::ValidationError(join_error_lines(&lines)))
    }
}

/// Whether the strings of a vector are pairwise distinct.
fn all_distinct(v: &Vec<String>) -> (r: bool)
    ensures
        r == (forall|i: int, j: int|
            0 <= i < j < v.deep_view().len() ==> v.deep_view()[i] != v.deep_view()[j]),
{
    let n = v.len();
    let mut i: usize = 0;
    while i < n
        invariant
            n == v@.len(),
            v.deep_view().len() == v@.len(),
            forall|k: int| 0 <= k < v@.len() ==> v.deep_view()[k] == v@[k]@,
            i <= n,
            forall|a: int, b: int| 0 <= a < b < v@.len() && a < i ==> v.deep_view()[a] != v.deep_view()[b],
        decreases n - i,
    {
        let mut j: usize = i + 1;
        while j < n
            invariant
                n == v@.len(),
                v.deep_view().len() == v@.len(),
                forall|k: int| 0 <= k < v@.len() ==> v.deep_view()[k] == v@[k]@,
                i < j <= n,
                i < n,
                forall|b: int| i < b < j ==> v.deep_view()[i as int] != v.deep_view()[b],
            decreases n - j,
        {
            if str_eq(v[i].as_str(), v[j].as_str()) {
                proof {
                    assert(v.deep_view()[i as int] == v.deep_view()[j as int]);
                }
                return false;
            }
            j = j + 1;
        }
        i = i + 1;
    }
    true
}

/// The JSON document that renders a manifest record: one entry per field,
/// in schema order, with the permissions as an array of strings.
pub open spec fn spec_manifest_json(m: ManifestV) -> JsonV {
    JsonV::Obj(
        seq![
            ("name"@, JsonV::Str(m.name)),
            ("version"@, JsonV::Str(m.version)),
            ("description"@, JsonV::Str(m.description)),
            ("author"@, JsonV::Str(m.author)),
            (
                "permissions"@,
                JsonV::Arr(Seq::new(m.permissions.len(), |i: int| JsonV::Str(m.permissions[i]))),
            ),
        ],
    )
}

/// Render a manifest record as a JSON document.
pub fn manifest_to_json(m: &PluginConfigData) -> (r: Json)
    ensures
        r@ == spec_manifest_json(m@),
{
    let mut perm_items: Vec<Json> = Vec::new();
    let mut i: usize = 0;
    while i < m.permissions.len()
        invariant
            i <= m.permissions@.len(),
            perm_items@.len() == i,
            forall|k: int|
                0 <= k < i ==> perm_items@[k] == Json::Str(m.permissions@[k]) && perm_items@[k]@
                    == JsonV::Str(m.permissions@[k]@),
        decreases m.permissions@.len() - i,
    {
        let s = m.permissions[i].clone();
        perm_items.push(Json::Str(s));
        i = i + 1;
    }
    let mut entries: Vec<(String, Json)> = Vec::new();
    entries.push((String::from_str("name"), Json::Str(m.name.clone())));
    entries.push((String::from_str("version"), Json::Str(m.version.clone())));
    entries.push((String::from_str("description"), Json::Str(m.description.clone())));
    entries.push((String::from_str("author"), Json::Str(m.author.clone())));
    entries.push((String::from_str("permissions"), Json::Arr(perm_items)));
    let r = Json::Obj(entries);
    proof {
        assert(r@ is Obj);
        let re = r@->Obj_0;
        let se = spec_manifest_json(m@)->Obj_0;
        assert(re.len() == 5);
        assert(re[0] == (entries@[0].0@, json_view(entries@[0].1)));
        assert(re[1] == (entries@[1].0@, json_view(entries@[1].1)));
        assert(re[2] == (entries@[2].0@, json_view(entries@[2].1)));
        assert(re[3] == (entries@[3].0@, json_view(entries@[3].1)));
        assert(re[4] == (entries@[4].0@, json_view(entries@[4].1)));
        assert(json_view(entries@[0].1) == JsonV::Str(m@.name));
        assert(json_view(entries@[1].1) == JsonV::Str(m@.version));
        assert(json_view(entries@[2].1) == JsonV::Str(m@.description));
        assert(json_view(entries@[3].1) == JsonV::Str(m@.author));
        assert(json_view(entries@[4].1) is Arr);
        let av = json_view(entries@[4].1)->Arr_0;
        assert(av.len() == perm_items@.len());
        assert forall|k: int| 0 <= k < av.len() implies av[k] == JsonV::Str(
            m@.permissions[k],
        ) by {
            assert(av[k] == json_view(perm_items@[k]));
            assert(perm_items@[k]@ == JsonV::Str(m.permissions@[k]@));
            assert(m@.permissions[k] == m.permissions@[k]@);
        }
        assert(av =~= se[4].1->Arr_0);
        assert(re[4].1 == se[4].1);
        assert(re =~= se);
        assert(r@ =~= spec_manifest_json(m@));
    }
    r
}

/// Manifest round trip: rendering a well-formed manifest record and
/// validating the rendered document yields the record back, so parsing and
/// re-serialising a document that satisfies the schema preserves what the
/// schema reads from it.
pub proof fn lemma_manifest_round_trip(m: ManifestV)
    requires
        wf_manifest(m),
    ensures
        spec_validate_manifest(spec_manifest_json(m)) == Some(m),
{
    reveal_with_fuel(spec_obj_lookup, 6);
    reveal_strlit("name");
    reveal_strlit("version");
    reveal_strlit("description");
    reveal_strlit("author");
    reveal_strlit("permissions");
    assert("name"@.len() == 4);
    assert("version"@.len() == 7);
    assert("description"@.len() == 11);
    assert("author"@.len() == 6);
    assert("permissions"@.len() == 11);
    assert("description"@[0] == 'd' && "permissions"@[0] == 'p');
    let e = spec_manifest_json(m)->Obj_0;
    assert(spec_obj_lookup(e, "name"@) == Some(JsonV::Str(m.name)));
    assert("version"@ != "name"@);
    assert(spec_obj_lookup(e.drop_first(), "version"@) == Some(JsonV::Str(m.version)));
    assert(spec_obj_lookup(e, "version"@) == Some(JsonV::Str(m.version)));
    assert("description"@ != "name"@ && "description"@ != "version"@);
    assert(spec_obj_lookup(e, "description"@) == Some(JsonV::Str(m.description)));
    assert("author"@ != "name"@ && "author"@ != "version"@ && "author"@ != "description"@);
    assert(spec_obj_lookup(e, "author"@) == Some(JsonV::Str(m.author)));
    assert("permissions"@ != "name"@ && "permissions"@ != "version"@ && "permissions"@
        != "description"@ && "permissions"@ != "author"@);
    let items = Seq::new(m.permissions.len(), |i: int| JsonV::Str(m.permissions[i]));
    assert(spec_obj_lookup(e, "permissions"@) == Some(JsonV::Arr(items)));
    assert(all_strings(items));
    assert(unique_strings(items)) by {
        assert(forall|i: int| 0 <= i < items.len() ==> items[i]->Str_0 == m.permissions[i]);
    }
    assert(valid_manifest_obj(e));
    assert(manifest_of_obj(e).permissions =~= m.permissions);
    assert(manifest_of_obj(e) =~= m);
}

} // verus!
