//! The descriptor body format. Descriptor files are property lists; the
//! `plist` crate does the decoding, behind trusted declarations, and the
//! contracts speak of the decoded entries through uninterpreted names.

use vstd::prelude::*;

verus! {

/// The decoded form of a descriptor file: the `plist` crate's dictionary.
#[verifier::external_type_specification]
#[verifier::external_body]
pub struct ExDictionary(plist::Dictionary);

/// Whether the bytes parse as a property list whose root is a dictionary.
/// Stands for the outcome of `plist::from_bytes` on the buffer.
pub uninterp spec fn plist_is_dict(bytes: Seq<u8>) -> bool;

/// The string-valued entries of the dictionary parsed from the bytes.
pub uninterp spec fn plist_strings(bytes: Seq<u8>) -> Map<Seq<char>, Seq<char>>;

/// The boolean-valued entries of the dictionary parsed from the bytes.
pub uninterp spec fn plist_bools(bytes: Seq<u8>) -> Map<Seq<char>, bool>;

/// The array-valued entries of the dictionary parsed from the bytes,
/// each array reduced to its string items, in order.
pub uninterp spec fn plist_string_lists(bytes: Seq<u8>) -> Map<Seq<char>, Seq<Seq<char>>>;

/// The string-valued entries of a decoded dictionary.
pub uninterp spec fn dict_strings(d: plist::Dictionary) -> Map<Seq<char>, Seq<char>>;

/// The boolean-valued entries of a decoded dictionary.
pub uninterp spec fn dict_bools(d: plist::Dictionary) -> Map<Seq<char>, bool>;

/// The array-valued entries of a decoded dictionary, each array reduced
/// to its string items, in order.
pub uninterp spec fn dict_string_lists(d: plist::Dictionary) -> Map<Seq<char>, Seq<Seq<char>>>;

/// Relies on plist::from_bytes: decoding is a pure function of the byte
/// buffer, and a `plist::Value` is a dictionary or it is not. `Err(None)`
/// reports a document whose root is not a dictionary; `Err(Some(m))`
/// carries the decoder's own message for an unreadable document.
#[verifier::external_body]
fn parse_plist_dictionary(bytes: &[u8]) -> (r: Result<plist::Dictionary, Option<String>>)
    ensures
        r is Ok <==> plist_is_dict(bytes@),
        r matches Ok(d) ==> dict_strings(d) == plist_strings(bytes@) && dict_bools(d)
            == plist_bools(bytes@) && dict_string_lists(d) == plist_string_lists(bytes@),
{
    match plist::from_bytes::<plist::Value>(bytes) {
        Ok(plist::Value::Dictionary(d)) => Ok(d),
        Ok(_) => Err(None),
        Err(e) => Err(Some(e.to_string())),
    }
}

/// Relies on plist::Dictionary::get: the value stored under `key`, here
/// handed out only when it is a string.
#[verifier::external_body]
fn dict_get_string(d: &plist::Dictionary, key: &str) -> (r: Option<String>)
    ensures
        r.deep_view() == str_entry(dict_strings(*d), key@),
{
    match d.get(key) {
        Some(plist::Value::String(s)) => Some(s.clone()),
        _ => None,
    }
}

/// Relies on plist::Dictionary::get: the value stored under `key`, here
/// handed out only when it is a boolean.
#[verifier::external_body]
fn dict_get_bool(d: &plist::Dictionary, key: &str) -> (r: Option<bool>)
    ensures
        r == bool_entry(dict_bools(*d), key@),
{
    match d.get(key) {
        Some(plist::Value::Boolean(b)) => Some(*b),
        _ => None,
    }
}

/// Relies on plist::Dictionary::get: the value stored under `key`, here
/// handed out only when it is an array, reduced to its string items.
#[verifier::external_body]
fn dict_get_string_list(d: &plist::Dictionary, key: &str) -> (r: Option<Vec<String>>)
    ensures
        r.deep_view() == list_entry(dict_string_lists(*d), key@),
{
    match d.get(key) {
        Some(plist::Value::Array(items)) => Some(
            items.iter().filter_map(
                |v| match v {
                    plist::Value::String(s) => Some(s.clone()),
                    _ => None,
                },
            ).collect(),
        ),
        _ => None,
    }
}

/// The entry under `k`, if the map has one.
pub open spec fn str_entry(m: Map<Seq<char>, Seq<char>>, k: Seq<char>) -> Option<Seq<char>> {
    if m.contains_key(k) {
        Some(m[k])
    } else {
        None
    }
}

/// The entry under `k`, if the map has one.
pub open spec fn bool_entry(m: Map<Seq<char>, bool>, k: Seq<char>) -> Option<bool> {
    if m.contains_key(k) {
        Some(m[k])
    } else {
        None
    }
}

/// The entry under `k`, if the map has one.
pub open spec fn list_entry(m: Map<Seq<char>, Seq<Seq<char>>>, k: Seq<char>) -> Option<
    Seq<Seq<char>>,
> {
    if m.contains_key(k) {
        Some(m[k])
    } else {
        None
    }
}

/// The identity label a descriptor file declares: the string entry under
/// `Label` of its dictionary, or nothing when the file is not a
/// dictionary-rooted property list or lacks such an entry.
pub open spec fn spec_label_of(bytes: Seq<u8>) -> Option<Seq<char>> {
    if plist_is_dict(bytes) {
        str_entry(plist_strings(bytes), "Label"@)
    } else {
        None
    }
}

/// Extract the identity label from a descriptor file's bytes; any parse
/// failure or missing entry yields nothing.
pub fn get_label_from_plist(bytes: &[u8]) -> (r: Option<String>)
    ensures
        r.deep_view() == spec_label_of(bytes@),
{
    match parse_plist_dictionary(bytes) {
        Ok(d) => dict_get_string(&d, "Label"),
        Err(_) => None,
    }
}

/// Every recognized field of a descriptor body except the label.
pub struct DescriptorBody {
    pub program: Option<String>,
    pub program_arguments: Option<Vec<String>>,
    pub run_at_load: Option<bool>,
    pub keep_alive: Option<bool>,
    pub working_directory: Option<String>,
    pub standard_out_path: Option<String>,
    pub standard_error_path: Option<String>,
}

/// How a descriptor file fails to yield a labelled body.
pub enum BodyError {
    /// The bytes do not decode as a property list; the message is the
    /// decoder's own.
    Unreadable(String),
    /// The document decodes, but its root is not a dictionary.
    NotDictionary,
    /// The dictionary has no string entry under `Label`.
    MissingLabel,
}

/// Read the label and the full body out of a descriptor file's bytes.
pub fn parse_descriptor_body(bytes: &[u8]) -> (r: Result<(String, DescriptorBody), BodyError>)
    ensures
        r matches Ok(p) ==> spec_label_of(bytes@) == Some(p.0@) && plist_is_dict(bytes@)
            && p.1.program.deep_view() == str_entry(plist_strings(bytes@), "Program"@)
            && p.1.program_arguments.deep_view() == list_entry(
            plist_string_lists(bytes@),
            "ProgramArguments"@,
        ) && p.1.run_at_load == bool_entry(plist_bools(bytes@), "RunAtLoad"@)
            && p.1.keep_alive == bool_entry(plist_bools(bytes@), "KeepAlive"@)
            && p.1.working_directory.deep_view() == str_entry(
            plist_strings(bytes@),
            "WorkingDirectory"@,
        ) && p.1.standard_out_path.deep_view() == str_entry(
            plist_strings(bytes@),
            "StandardOutPath"@,
        ) && p.1.standard_error_path.deep_view() == str_entry(
            plist_strings(bytes@),
            "StandardErrorPath"@,
        ),
        r is Ok <==> spec_label_of(bytes@) is Some,
        r matches Err(e) ==> match e {
            BodyError::Unreadable(_) => !plist_is_dict(bytes@),
            BodyError::NotDictionary => !plist_is_dict(bytes@),
            BodyError::MissingLabel => plist_is_dict(bytes@) && !plist_strings(
                bytes@,
            ).contains_key("Label"@),
        },
{
    let d = match parse_plist_dictionary(bytes) {
        Ok(d) => d,
        Err(Some(m)) => {
            return Err(BodyError::Unreadable(m));
        },
        Err(None) => {
            return Err(BodyError::NotDictionary);
        },
    };
    let label = match dict_get_string(&d, "Label") {
        Some(l) => l,
        None => {
            return Err(BodyError::MissingLabel);
        },
    };
    let body = DescriptorBody {
        program: dict_get_string(&d, "Program"),
        program_arguments: dict_get_string_list(&d, "ProgramArguments"),
        run_at_load: dict_get_bool(&d, "RunAtLoad"),
        keep_alive: dict_get_bool(&d, "KeepAlive"),
        working_directory: dict_get_string(&d, "WorkingDirectory"),
        standard_out_path: dict_get_string(&d, "StandardOutPath"),
        standard_error_path: dict_get_string(&d, "StandardErrorPath"),
    };
    Ok((label, body))
}

} // verus!
