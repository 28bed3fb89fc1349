//! Populating the settings from a parsed JSON configuration value. Every
//! field is optional and defaults to empty; the one load-bearing key is the
//! `folders` array, whose absence is the single fatal configuration error.
//!
//! The JSON value itself is opaque, so what the outside calls return is given
//! names: `parsed_json_of` for the parse outcome (parsing is a function of the
//! text alone), `json_field_of` for a key lookup, `json_str_content` and
//! `json_array_content` for the content of string and array values. The
//! extraction contracts are exact over these names.

use crate::settings::FolderSettings;
use crate::settings::FolderView;
use crate::settings::WorkspaceSettings;
use crate::settings::WorkspaceView;
use vstd::prelude::*;

verus! {

#[verifier::external_type_specification]
#[verifier::external_body]
pub struct ExValue(serde_json::Value);

#[verifier::external_type_specification]
#[verifier::external_body]
pub struct ExJsonError(serde_json::Error);

// What serde_json::from_str returns for a given text: parsing is a function
// of the text alone. `None` stands for the texts that do not parse.
pub uninterp spec fn parsed_json_of(text: Seq<char>) -> Option<serde_json::Value>;

// What serde_json::Value::get returns for a given value and key: `None` when
// the value is no object or has no such key.
pub uninterp spec fn json_field_of(v: serde_json::Value, key: Seq<char>) -> Option<
    serde_json::Value,
>;

// What serde_json::Value::as_str returns: the characters of a JSON string
// value, `None` for a value of any other kind.
pub uninterp spec fn json_str_content(v: serde_json::Value) -> Option<Seq<char>>;

// What serde_json::Value::as_array returns: the elements of a JSON array
// value, `None` for a value of any other kind.
pub uninterp spec fn json_array_content(v: serde_json::Value) -> Option<Seq<serde_json::Value>>;

/// Why a configuration could not be loaded.
#[derive(Debug, PartialEq, Eq, Structural)]
pub enum ConfigError {
    /// The configuration text does not parse as a JSON value.
    NotJson,
    /// The parsed configuration holds no `folders` array.
    MissingFolders,
}

/// A loaded configuration: the workspace settings and the declared folders,
/// in declaration order.
pub struct Config {
    pub workspace: WorkspaceSettings,
    pub folders: Vec<FolderSettings>,
}

/// Relies on `serde_json::from_str`: parses the configuration text as one
/// JSON value, or reports why it is not JSON. The outcome depends on the text
/// alone, which `parsed_json_of` names.
#[verifier::external_body]
fn parse_json_value(text: &str) -> (r: Result<serde_json::Value, serde_json::Error>)
    ensures
        r is Ok <==> parsed_json_of(text@) is Some,
        r matches Ok(v) ==> parsed_json_of(text@) == Some(v),
{
    serde_json::from_str(text)
}

/// Relies on `serde_json::Value::get`: looks a key up in a JSON object;
/// `None` when the value is no object or has no such key. The outcome depends
/// on the value and the key alone, which `json_field_of` names.
#[verifier::external_body]
fn json_get<'a>(v: &'a serde_json::Value, key: &str) -> (r: Option<&'a serde_json::Value>)
    ensures
        r is Some <==> json_field_of(*v, key@) is Some,
        r matches Some(f) ==> json_field_of(*v, key@) == Some(*f),
{
    v.get(key)
}

/// Relies on `serde_json::Value::as_str`: the content of a JSON string value,
/// `None` when the value is no string. The outcome depends on the value
/// alone, which `json_str_content` names.
#[verifier::external_body]
fn json_as_str(v: &serde_json::Value) -> (r: Option<String>)
    ensures
        r is Some <==> json_str_content(*v) is Some,
        r matches Some(s) ==> json_str_content(*v) == Some(s@),
{
    v.as_str().map(|s| s.to_owned())
}

/// Relies on `serde_json::Value::as_array`: the elements of a JSON array
/// value, `None` when the value is no array. The outcome depends on the value
/// alone, which `json_array_content` names.
#[verifier::external_body]
fn json_as_array<'a>(v: &'a serde_json::Value) -> (r: Option<&'a Vec<serde_json::Value>>)
    ensures
        r is Some <==> json_array_content(*v) is Some,
        r matches Some(items) ==> json_array_content(*v) == Some(items@),
{
    v.as_array()
}

/// The string under `key` of `v`: empty when the key is absent or its value
/// is no string.
pub open spec fn string_field_of(v: serde_json::Value, key: Seq<char>) -> Seq<char> {
    match json_field_of(v, key) {
        Some(f) => match json_str_content(f) {
            Some(s) => s,
            None => Seq::<char>::empty(),
        },
        None => Seq::<char>::empty(),
    }
}

/// The strings among the elements of `items`, in order; an element that is no
/// string contributes nothing.
pub open spec fn strings_of(items: Seq<serde_json::Value>) -> Seq<Seq<char>>
    decreases items.len(),
{
    if items.len() == 0 {
        Seq::<Seq<char>>::empty()
    } else {
        match json_str_content(items[0]) {
            Some(s) => seq![s] + strings_of(items.drop_first()),
            None => strings_of(items.drop_first()),
        }
    }
}

/// The string list under `key` of `v`: empty when the key is absent or its
/// value is no array; elements that are no strings contribute nothing.
pub open spec fn string_list_of(v: serde_json::Value, key: Seq<char>) -> Seq<Seq<char>> {
    match json_field_of(v, key) {
        Some(f) => match json_array_content(f) {
            Some(items) => strings_of(items),
            None => Seq::<Seq<char>>::empty(),
        },
        None => Seq::<Seq<char>>::empty(),
    }
}

/// The workspace settings that `v` describes: every field read by
/// `string_field_of` / `string_list_of`, so every absent or wrongly typed
/// field is empty.
pub open spec fn workspace_of(v: serde_json::Value) -> WorkspaceView {
    WorkspaceView {
        c_compiler_path: string_field_of(v, "c_compiler_path"@),
        cpp_compiler_path: string_field_of(v, "cpp_compiler_path"@),
        root_folder_path: string_field_of(v, "workspace_root_folder"@),
        src_pattern: string_list_of(v, "workspace_src_pattern"@),
        exclude_pattern: string_list_of(v, "workspace_exclude_pattern"@),
        include_folders: string_list_of(v, "workspace_include_folders"@),
        compile_flags: string_list_of(v, "workspace_compile_flags"@),
    }
}

/// The folder settings that one element of the `folders` array describes.
pub open spec fn folder_of(v: serde_json::Value) -> FolderView {
    FolderView {
        folder_path: string_field_of(v, "folder"@),
        src_pattern: string_list_of(v, "src_pattern"@),
        exclude_pattern: string_list_of(v, "exclude_pattern"@),
        include_folders: string_list_of(v, "include_folders"@),
        compile_flags: string_list_of(v, "compile_flags"@),
    }
}

/// The folder list that the elements of the `folders` array describe, in
/// declaration order.
pub open spec fn folders_of(items: Seq<serde_json::Value>) -> Seq<FolderView> {
    items.map_values(|x: serde_json::Value| folder_of(x))
}

/// `v` holds a `folders` key whose value is an array.
pub open spec fn has_folders_array(v: serde_json::Value) -> bool {
    match json_field_of(v, "folders"@) {
        Some(f) => json_array_content(f) is Some,
        None => false,
    }
}

/// The elements of the `folders` array of `v`; empty when there is none.
pub open spec fn folder_items_of(v: serde_json::Value) -> Seq<serde_json::Value> {
    match json_field_of(v, "folders"@) {
        Some(f) => match json_array_content(f) {
            Some(items) => items,
            None => Seq::<serde_json::Value>::empty(),
        },
        None => Seq::<serde_json::Value>::empty(),
    }
}

/// What loading a configuration text yields: `NotJson` for a text that does
/// not parse, `MissingFolders` for a parsed value without a `folders` array,
/// the described settings otherwise.
pub open spec fn config_of_text(text: Seq<char>) -> Result<
    (WorkspaceView, Seq<FolderView>),
    ConfigError,
> {
    match parsed_json_of(text) {
        Some(v) => if has_folders_array(v) {
            Ok((workspace_of(v), folders_of(folder_items_of(v))))
        } else {
            Err(ConfigError::MissingFolders)
        },
        None => Err(ConfigError::NotJson),
    }
}

proof fn lemma_strings_of_snoc(items: Seq<serde_json::Value>, x: serde_json::Value)
    ensures
        strings_of(items.push(x)) == (match json_str_content(x) {
            Some(s) => strings_of(items).push(s),
            None => strings_of(items),
        }),
    decreases items.len(),
{
    let whole = items.push(x);
    if items.len() == 0 {
        assert(whole[0] == x);
        assert(whole.drop_first() =~= Seq::<serde_json::Value>::empty());
        assert(strings_of(whole.drop_first()) == Seq::<Seq<char>>::empty());
        match json_str_content(x) {
            Some(s) => {
                assert(seq![s] + Seq::<Seq<char>>::empty() =~= Seq::<Seq<char>>::empty().push(s));
            },
            None => {},
        }
    } else {
        assert(whole[0] == items[0]);
        assert(whole.drop_first() =~= items.drop_first().push(x));
        lemma_strings_of_snoc(items.drop_first(), x);
        match json_str_content(items[0]) {
            Some(s0) => {
                match json_str_content(x) {
                    Some(s) => {
                        assert(seq![s0] + strings_of(items.drop_first()).push(s) =~= (seq![s0]
                            + strings_of(items.drop_first())).push(s));
                    },
                    None => {},
                }
            },
            None => {},
        }
    }
}

/// The string under `key`; an absent key or a non-string value defaults to
/// the empty string.
fn get_string_field(v: &serde_json::Value, key: &str) -> (r: String)
    ensures
        r@ == string_field_of(*v, key@),
{
    match json_get(v, key) {
        Some(field) => match json_as_str(field) {
            Some(s) => s,
            None => String::new(),
        },
        None => String::new(),
    }
}

/// The strings under `key`, in order; an absent key or a non-array value
/// defaults to the empty list, and an element that is no string contributes
/// nothing rather than failing.
fn get_string_list(v: &serde_json::Value, key: &str) -> (r: Vec<String>)
    ensures
        r.deep_view() == string_list_of(*v, key@),
{
    let mut r: Vec<String> = Vec::new();
    proof {
        assert(r.deep_view() =~= Seq::<Seq<char>>::empty());
    }
    match json_get(v, key) {
        Some(field) => match json_as_array(field) {
            Some(items) => {
                proof {
                    assert(items@.take(0) =~= Seq::<serde_json::Value>::empty());
                }
                let mut i: usize = 0;
                while i < items.len()
                    invariant
                        i <= items.len(),
                        r.deep_view() == strings_of(items@.take(i as int)),
                    decreases items.len() - i,
                {
                    let ghost before = r.deep_view();
                    proof {
                        lemma_strings_of_snoc(items@.take(i as int), items@[i as int]);
                        assert(items@.take(i as int).push(items@[i as int]) =~= items@.take(
                            i + 1 as int,
                        ));
                    }
                    match json_as_str(&items[i]) {
                        Some(s) => {
                            r.push(s);
                            proof {
                                assert(r.deep_view() =~= before.push(
                                    json_str_content(items@[i as int]).unwrap(),
                                ));
                            }
                        },
                        None => {},
                    }
                    i += 1;
                }
                proof {
                    assert(items@.take(items.len() as int) =~= items@);
                }
            },
            None => {},
        },
        None => {},
    }
    r
}

/// Populates the workspace settings from the top-level configuration value;
/// every absent field defaults to empty, never to an error.
pub fn extract_workspace(v: &serde_json::Value) -> (r: WorkspaceSettings)
    ensures
        r@ == workspace_of(*v),
{
    WorkspaceSettings {
        c_compiler_path: get_string_field(v, "c_compiler_path"),
        cpp_compiler_path: get_string_field(v, "cpp_compiler_path"),
        root_folder_path: get_string_field(v, "workspace_root_folder"),
        src_pattern: get_string_list(v, "workspace_src_pattern"),
        exclude_pattern: get_string_list(v, "workspace_exclude_pattern"),
        include_folders: get_string_list(v, "workspace_include_folders"),
        compile_flags: get_string_list(v, "workspace_compile_flags"),
    }
}

/// Populates one folder's settings from its configuration value; every absent
/// field defaults to empty, never to an error.
pub fn extract_folder(v: &serde_json::Value) -> (r: FolderSettings)
    ensures
        r@ == folder_of(*v),
{
    FolderSettings {
        folder_path: get_string_field(v, "folder"),
        src_pattern: get_string_list(v, "src_pattern"),
        exclude_pattern: get_string_list(v, "exclude_pattern"),
        include_folders: get_string_list(v, "include_folders"),
        compile_flags: get_string_list(v, "compile_flags"),
    }
}

/// Populates the whole configuration from a parsed JSON value. Fails exactly
/// when the value holds no `folders` array: an empty array is a valid
/// workspace, an absent key is not.
pub fn extract_config(v: &serde_json::Value) -> (r: Result<Config, ConfigError>)
    ensures
        r is Ok <==> has_folders_array(*v),
        r matches Err(e) ==> e == ConfigError::MissingFolders,
        r matches Ok(c) ==> c.workspace@ == workspace_of(*v) && c.folders.deep_view() == folders_of(
            folder_items_of(*v),
        ),
{
    let workspace = extract_workspace(v);
    let folders_field = match json_get(v, "folders") {
        Some(field) => field,
        None => {
            return Err(ConfigError::MissingFolders);
        },
    };
    let folder_values = match json_as_array(folders_field) {
        Some(items) => items,
        None => {
            return Err(ConfigError::MissingFolders);
        },
    };
    let mut folders: Vec<FolderSettings> = Vec::new();
    proof {
        assert(folder_values@.take(0) =~= Seq::<serde_json::Value>::empty());
        assert(folders.deep_view() =~= folders_of(folder_values@.take(0)));
    }
    let mut i: usize = 0;
    while i < folder_values.len()
        invariant
            i <= folder_values.len(),
            folders.deep_view() == folders_of(folder_values@.take(i as int)),
        decreases folder_values.len() - i,
    {
        let ghost before = folders.deep_view();
        folders.push(extract_folder(&folder_values[i]));
        proof {
            assert(folders.deep_view() =~= before.push(folder_of(folder_values@[i as int])));
            assert(folders_of(folder_values@.take(i + 1 as int)) =~= folders_of(
                folder_values@.take(i as int),
            ).push(folder_of(folder_values@[i as int])));
        }
        i += 1;
    }
    proof {
        assert(folder_values@.take(folder_values.len() as int) =~= folder_values@);
    }
    Ok(Config { workspace, folders })
}

/// Loads a configuration from its JSON text: `NotJson` when the text does not
/// parse, `MissingFolders` when the parsed value holds no `folders` array,
/// the described settings otherwise — exactly as `config_of_text` says.
pub fn parse_config(text: &str) -> (r: Result<Config, ConfigError>)
    ensures
        r is Ok <==> config_of_text(text@) is Ok,
        r matches Ok(c) ==> config_of_text(text@) == Ok::<_, ConfigError>(
            (c.workspace@, c.folders.deep_view()),
        ),
        r matches Err(e) ==> config_of_text(text@) == Err::<(WorkspaceView, Seq<FolderView>), _>(
            e,
        ),
{
    let parsed = match parse_json_value(text) {
        Ok(v) => v,
        Err(_) => {
            return Err(ConfigError::NotJson);
        },
    };
    extract_config(&parsed)
}

} // verus!
