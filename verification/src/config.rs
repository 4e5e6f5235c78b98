//! Configuration loading: the document model, the trusted boundary to the
//! YAML parser, and the verified reading of one template entry.
//!
//! A configuration is an ordered list of entries; each entry is a mapping
//! with the recognized keys `filename`, `font`, `font_size`, `left`, `top`,
//! `right`, `bottom`, `text_prefix`, `text_suffix`, `command` and
//! `is_default`. A wrong-shaped value or an unknown key is warned about and
//! skipped; when a key repeats, the last well-shaped occurrence wins. The
//! bounding integers and the font size are accepted only when positive.

use vstd::prelude::*;

use crate::text::str_eq;

verus! {

/// One value of a configuration mapping, as far as the loader reads it.
/// Shapes the loader never accepts (lists, nested mappings, floats, nulls)
/// are all `Other`.
pub enum ConfigValue {
    Str(String),
    Int(i64),
    Bool(bool),
    Other,
}

/// One key/value pair of an entry. A key that is not itself a string is
/// kept as `None`; the loader warns about it and reads no value from it.
pub struct ConfigPair {
    pub key: Option<String>,
    pub value: ConfigValue,
}

/// One entry of the document: a mapping, or some other shape, which the
/// loader warns about and skips.
pub enum ConfigEntry {
    Mapping(Vec<ConfigPair>),
    NotAMapping,
}

/// Why a configuration document is rejected outright. Any of these is fatal
/// at startup: loading does not begin.
#[derive(Debug)]
pub enum ConfigError {
    /// The text does not parse as a document; carries the parser's message.
    Unreadable(String),
    /// The text parses to no document at all.
    Empty,
    /// The first document is not a list of entries.
    NotAList,
}

#[verifier::external_type_specification]
#[verifier::external_body]
pub struct ExYaml(yaml_rust::Yaml);

/// Whether the text scans as YAML at all: a function of the text alone.
pub uninterp spec fn config_scan_ok(s: Seq<char>) -> bool;

/// Whether the text scans to at least one document: a function of the text
/// alone.
pub uninterp spec fn config_has_document(s: Seq<char>) -> bool;

/// Whether the first document of the text is a list: a function of the text
/// alone.
pub uninterp spec fn config_first_is_list(s: Seq<char>) -> bool;

/// How many entries the first document's list holds: a function of the text
/// alone.
pub uninterp spec fn config_entry_count(s: Seq<char>) -> nat;

/// Relies on `yaml_rust::YamlLoader::load_from_str`: the items of the first
/// document's list, exactly when the text scans, scans to a document, and
/// that document is a list — the three fatal gates, told apart in the error.
/// A scan error carries the scanner's message.
#[verifier::external_body]
fn yaml_config_items(s: &str) -> (r: Result<Vec<yaml_rust::Yaml>, ConfigError>)
    ensures
        r is Ok <==> (config_scan_ok(s@) && config_has_document(s@) && config_first_is_list(s@)),
        r matches Ok(items) ==> items@.len() == config_entry_count(s@),
        r matches Err(e) ==> (e is Unreadable <==> !config_scan_ok(s@)),
        r matches Err(e) ==> (e is Empty <==> (config_scan_ok(s@) && !config_has_document(s@))),
        r matches Err(e) ==> (e is NotAList <==> (config_scan_ok(s@) && config_has_document(s@)
            && !config_first_is_list(s@))),
{
    match yaml_rust::YamlLoader::load_from_str(s) {
        Err(e) => Err(ConfigError::Unreadable(format!("{}", e))),
        Ok(docs) => match docs.into_iter().next() {
            None => Err(ConfigError::Empty),
            Some(yaml_rust::Yaml::Array(items)) => Ok(items),
            Some(_) => Err(ConfigError::NotAList),
        },
    }
}

/// Relies on `yaml_rust::Yaml` and on `LinkedHashMap` iteration, which the
/// crate documents as insertion order: the pairs of a `Hash` variant, in
/// document order.
#[verifier::external_body]
fn yaml_as_mapping(y: &yaml_rust::Yaml) -> Option<Vec<(yaml_rust::Yaml, yaml_rust::Yaml)>> {
    match y {
        yaml_rust::Yaml::Hash(h) => Some(h.iter().map(|(k, v)| (k.clone(), v.clone())).collect()),
        _ => None,
    }
}

/// Relies on `yaml_rust::Yaml`: reads one scalar, one arm per variant the
/// loader recognizes.
#[verifier::external_body]
fn yaml_scalar(y: &yaml_rust::Yaml) -> ConfigValue {
    match y {
        yaml_rust::Yaml::String(s) => ConfigValue::Str(s.clone()),
        yaml_rust::Yaml::Integer(i) => ConfigValue::Int(*i),
        yaml_rust::Yaml::Boolean(b) => ConfigValue::Bool(*b),
        _ => ConfigValue::Other,
    }
}

/// Reads a configuration text into the document model: the first YAML
/// document as a list of entries, each entry a mapping read pair by pair in
/// document order. It fails exactly when the text does not scan, scans to
/// no document, or its first document is not a list — each gate with its
/// own error — and loading does not start then.
///
/// What each entry's pairs hold comes from the YAML parser's opaque values,
/// so only the entry count is pinned to the source here; everything the
/// loader then does with the model is specified on `parse_entry` and on the
/// catalog operations.
pub fn parse_config(source: &str) -> (r: Result<Vec<ConfigEntry>, ConfigError>)
    ensures
        r is Ok <==> (config_scan_ok(source@) && config_has_document(source@)
            && config_first_is_list(source@)),
        r matches Ok(es) ==> es@.len() == config_entry_count(source@),
        r matches Err(e) ==> (e is Unreadable <==> !config_scan_ok(source@)),
        r matches Err(e) ==> (e is Empty <==> config_scan_ok(source@) && !config_has_document(
            source@,
        )),
        r matches Err(e) ==> (e is NotAList <==> config_scan_ok(source@) && config_has_document(
            source@,
        ) && !config_first_is_list(source@)),
{
    let items = match yaml_config_items(source) {
        Ok(items) => items,
        Err(e) => {
            return Err(e);
        },
    };
    let mut entries: Vec<ConfigEntry> = Vec::new();
    let mut i: usize = 0;
    while i < items.len()
        invariant
            entries@.len() == i,
            0 <= i <= items@.len(),
        decreases items.len() - i,
    {
        match yaml_as_mapping(&items[i]) {
            None => {
                entries.push(ConfigEntry::NotAMapping);
            },
            Some(raw_pairs) => {
                let mut pairs: Vec<ConfigPair> = Vec::new();
                let mut k: usize = 0;
                while k < raw_pairs.len()
                    decreases raw_pairs.len() - k,
                {
                    let key = match yaml_scalar(&raw_pairs[k].0) {
                        ConfigValue::Str(s) => Some(s),
                        _ => None,
                    };
                    let value = yaml_scalar(&raw_pairs[k].1);
                    pairs.push(ConfigPair { key, value });
                    k = k + 1;
                }
                entries.push(ConfigEntry::Mapping(pairs));
            },
        }
        i = i + 1;
    }
    Ok(entries)
}

/// The fields of one entry after key reading: each is the last well-shaped
/// occurrence of its key, or absent.
pub struct RawEntry {
    pub filename: Option<String>,
    pub font: Option<String>,
    pub font_size: Option<u32>,
    pub left: Option<u32>,
    pub top: Option<u32>,
    pub right: Option<u32>,
    pub bottom: Option<u32>,
    pub text_prefix: Option<String>,
    pub text_suffix: Option<String>,
    pub command: Option<String>,
    pub is_default: Option<bool>,
}

/// A defect the loader logs and reads past.
pub enum LoadWarning {
    /// An entry key that is not a string; its value is not read.
    NonStringKey,
    /// A recognized key whose value has the wrong shape (or a bounding
    /// integer or font size that is not positive); carries the key.
    BadValue(String),
    /// A key the loader does not recognize; carries the key.
    UnknownKey(String),
}

/// The view of an optional owned string.
pub open spec fn opt_str_view(o: Option<String>) -> Option<Seq<char>> {
    match o {
        None => None,
        Some(s) => Some(s@),
    }
}

/// The last pair of `pairs` whose key is `key` and whose value is a string.
pub open spec fn last_str_field(pairs: Seq<ConfigPair>, key: Seq<char>) -> Option<Seq<char>>
    decreases pairs.len(),
{
    if pairs.len() == 0 {
        None
    } else {
        let p = pairs.last();
        if p.key is Some && p.key->0@ == key && p.value is Str {
            match p.value {
                ConfigValue::Str(s) => Some(s@),
                _ => None,
            }
        } else {
            last_str_field(pairs.drop_last(), key)
        }
    }
}

/// The last pair of `pairs` whose key is `key` and whose value is a
/// positive integer, taken to `u32` the way a cast truncates.
pub open spec fn last_posint_field(pairs: Seq<ConfigPair>, key: Seq<char>) -> Option<u32>
    decreases pairs.len(),
{
    if pairs.len() == 0 {
        None
    } else {
        let p = pairs.last();
        if p.key is Some && p.key->0@ == key && posint_of(p.value) is Some {
            posint_of(p.value)
        } else {
            last_posint_field(pairs.drop_last(), key)
        }
    }
}

/// A positive integer value, truncated to `u32`; anything else is `None`.
pub open spec fn posint_of(v: ConfigValue) -> Option<u32> {
    match v {
        ConfigValue::Int(i) => if i > 0 {
            Some(i as u32)
        } else {
            None
        },
        _ => None,
    }
}

/// The last pair of `pairs` whose key is `key` and whose value is a bool.
pub open spec fn last_bool_field(pairs: Seq<ConfigPair>, key: Seq<char>) -> Option<bool>
    decreases pairs.len(),
{
    if pairs.len() == 0 {
        None
    } else {
        let p = pairs.last();
        if p.key is Some && p.key->0@ == key && p.value is Bool {
            match p.value {
                ConfigValue::Bool(b) => Some(b),
                _ => None,
            }
        } else {
            last_bool_field(pairs.drop_last(), key)
        }
    }
}

/// The keys whose value must be a string.
pub open spec fn is_string_key(k: Seq<char>) -> bool {
    k == "filename"@ || k == "font"@ || k == "text_prefix"@ || k == "text_suffix"@ || k
        == "command"@
}

/// The keys whose value must be a positive integer.
pub open spec fn is_posint_key(k: Seq<char>) -> bool {
    k == "font_size"@ || k == "left"@ || k == "top"@ || k == "right"@ || k == "bottom"@
}

/// The warnings one pair produces: a non-string key, a wrong-shaped value
/// under a recognized key, or an unknown key.
pub open spec fn pair_warnings(p: ConfigPair) -> Seq<LoadWarning> {
    match p.key {
        None => seq![LoadWarning::NonStringKey],
        Some(k) => {
            if is_string_key(k@) {
                if p.value is Str {
                    Seq::empty()
                } else {
                    seq![LoadWarning::BadValue(k)]
                }
            } else if is_posint_key(k@) {
                if posint_of(p.value) is Some {
                    Seq::empty()
                } else {
                    seq![LoadWarning::BadValue(k)]
                }
            } else if k@ == "is_default"@ {
                if p.value is Bool {
                    Seq::empty()
                } else {
                    seq![LoadWarning::BadValue(k)]
                }
            } else {
                seq![LoadWarning::UnknownKey(k)]
            }
        },
    }
}

/// All warnings of an entry, in pair order.
pub open spec fn warnings_spec(pairs: Seq<ConfigPair>) -> Seq<LoadWarning>
    decreases pairs.len(),
{
    if pairs.len() == 0 {
        Seq::empty()
    } else {
        warnings_spec(pairs.drop_last()) + pair_warnings(pairs.last())
    }
}

/// Reads the recognized keys of one entry. Every field of the result is the
/// last well-shaped occurrence of its key; every ill-shaped or unknown pair
/// is warned about, in order, and skipped.
#[verifier::loop_isolation(false)]
#[verifier::rlimit(60)]
pub fn parse_entry(pairs: &Vec<ConfigPair>) -> (r: (RawEntry, Vec<LoadWarning>))
    ensures
        opt_str_view(r.0.filename) == last_str_field(pairs@, "filename"@),
        opt_str_view(r.0.font) == last_str_field(pairs@, "font"@),
        opt_str_view(r.0.text_prefix) == last_str_field(pairs@, "text_prefix"@),
        opt_str_view(r.0.text_suffix) == last_str_field(pairs@, "text_suffix"@),
        opt_str_view(r.0.command) == last_str_field(pairs@, "command"@),
        r.0.font_size == last_posint_field(pairs@, "font_size"@),
        r.0.left == last_posint_field(pairs@, "left"@),
        r.0.top == last_posint_field(pairs@, "top"@),
        r.0.right == last_posint_field(pairs@, "right"@),
        r.0.bottom == last_posint_field(pairs@, "bottom"@),
        r.0.is_default == last_bool_field(pairs@, "is_default"@),
        r.1@ == warnings_spec(pairs@),
{
    let mut out = RawEntry {
        filename: None,
        font: None,
        font_size: None,
        left: None,
        top: None,
        right: None,
        bottom: None,
        text_prefix: None,
        text_suffix: None,
        command: None,
        is_default: None,
    };
    let mut warns: Vec<LoadWarning> = Vec::new();
    proof {
        reveal_strlit("filename");
        reveal_strlit("font");
        reveal_strlit("font_size");
        reveal_strlit("left");
        reveal_strlit("top");
        reveal_strlit("right");
        reveal_strlit("bottom");
        reveal_strlit("text_prefix");
        reveal_strlit("text_suffix");
        reveal_strlit("command");
        reveal_strlit("is_default");
        assert(pairs@.subrange(0, 0) =~= Seq::<ConfigPair>::empty());
    }
    let mut i: usize = 0;
    while i < pairs.len()
        invariant
            0 <= i <= pairs@.len(),
            opt_str_view(out.filename) == last_str_field(
                pairs@.subrange(0, i as int),
                "filename"@,
            ),
            opt_str_view(out.font) == last_str_field(pairs@.subrange(0, i as int), "font"@),
            opt_str_view(out.text_prefix) == last_str_field(
                pairs@.subrange(0, i as int),
                "text_prefix"@,
            ),
            opt_str_view(out.text_suffix) == last_str_field(
                pairs@.subrange(0, i as int),
                "text_suffix"@,
            ),
            opt_str_view(out.command) == last_str_field(pairs@.subrange(0, i as int), "command"@),
            out.font_size == last_posint_field(pairs@.subrange(0, i as int), "font_size"@),
            out.left == last_posint_field(pairs@.subrange(0, i as int), "left"@),
            out.top == last_posint_field(pairs@.subrange(0, i as int), "top"@),
            out.right == last_posint_field(pairs@.subrange(0, i as int), "right"@),
            out.bottom == last_posint_field(pairs@.subrange(0, i as int), "bottom"@),
            out.is_default == last_bool_field(pairs@.subrange(0, i as int), "is_default"@),
            warns@ == warnings_spec(pairs@.subrange(0, i as int)),
        decreases pairs@.len() - i,
    {
        proof {
            reveal_strlit("filename");
            reveal_strlit("font");
            reveal_strlit("font_size");
            reveal_strlit("left");
            reveal_strlit("top");
            reveal_strlit("right");
            reveal_strlit("bottom");
            reveal_strlit("text_prefix");
            reveal_strlit("text_suffix");
            reveal_strlit("command");
            reveal_strlit("is_default");
            assert("filename"@.len() == 8);
            assert("font"@.len() == 4);
            assert("font_size"@.len() == 9);
            assert("left"@.len() == 4);
            assert("top"@.len() == 3);
            assert("right"@.len() == 5);
            assert("bottom"@.len() == 6);
            assert("text_prefix"@.len() == 11);
            assert("text_suffix"@.len() == 11);
            assert("command"@.len() == 7);
            assert("is_default"@.len() == 10);
            assert("font"@[0] == 'f' && "left"@[0] == 'l');
            assert("font"@ != "left"@);
            assert("text_prefix"@[5] == 'p' && "text_suffix"@[5] == 's');
            assert("text_prefix"@ != "text_suffix"@);
            assert(pairs@.subrange(0, (i + 1) as int).drop_last() =~= pairs@.subrange(0, i as int));
            assert(pairs@.subrange(0, (i + 1) as int).last() == pairs@[i as int]);
        }
        match &pairs[i].key {
            None => {
                warns.push(LoadWarning::NonStringKey);
            },
            Some(k) => {
                if str_eq(k.as_str(), "filename") {
                    match &pairs[i].value {
                        ConfigValue::Str(s) => {
                            out.filename = Some(s.clone());
                        },
                        _ => {
                            warns.push(LoadWarning::BadValue(k.clone()));
                        },
                    }
                } else if str_eq(k.as_str(), "font") {
                    match &pairs[i].value {
                        ConfigValue::Str(s) => {
                            out.font = Some(s.clone());
                        },
                        _ => {
                            warns.push(LoadWarning::BadValue(k.clone()));
                        },
                    }
                } else if str_eq(k.as_str(), "text_prefix") {
                    match &pairs[i].value {
                        ConfigValue::Str(s) => {
                            out.text_prefix = Some(s.clone());
                        },
                        _ => {
                            warns.push(LoadWarning::BadValue(k.clone()));
                        },
                    }
                } else if str_eq(k.as_str(), "text_suffix") {
                    match &pairs[i].value {
                        ConfigValue::Str(s) => {
                            out.text_suffix = Some(s.clone());
                        },
                        _ => {
                            warns.push(LoadWarning::BadValue(k.clone()));
                        },
                    }
                } else if str_eq(k.as_str(), "command") {
                    match &pairs[i].value {
                        ConfigValue::Str(s) => {
                            out.command = Some(s.clone());
                        },
                        _ => {
                            warns.push(LoadWarning::BadValue(k.clone()));
                        },
                    }
                } else if str_eq(k.as_str(), "font_size") {
                    match read_posint(&pairs[i].value) {
                        Some(v) => {
                            out.font_size = Some(v);
                        },
                        None => {
                            warns.push(LoadWarning::BadValue(k.clone()));
                        },
                    }
                } else if str_eq(k.as_str(), "left") {
                    match read_posint(&pairs[i].value) {
                        Some(v) => {
                            out.left = Some(v);
                        },
                        None => {
                            warns.push(LoadWarning::BadValue(k.clone()));
                        },
                    }
                } else if str_eq(k.as_str(), "top") {
                    match read_posint(&pairs[i].value) {
                        Some(v) => {
                            out.top = Some(v);
                        },
                        None => {
                            warns.push(LoadWarning::BadValue(k.clone()));
                        },
                    }
                } else if str_eq(k.as_str(), "right") {
                    match read_posint(&pairs[i].value) {
                        Some(v) => {
                            out.right = Some(v);
                        },
                        None => {
                            warns.push(LoadWarning::BadValue(k.clone()));
                        },
                    }
                } else if str_eq(k.as_str(), "bottom") {
                    match read_posint(&pairs[i].value) {
                        Some(v) => {
                            out.bottom = Some(v);
                        },
                        None => {
                            warns.push(LoadWarning::BadValue(k.clone()));
                        },
                    }
                } else if str_eq(k.as_str(), "is_default") {
                    match &pairs[i].value {
                        ConfigValue::Bool(b) => {
                            out.is_default = Some(*b);
                        },
                        _ => {
                            warns.push(LoadWarning::BadValue(k.clone()));
                        },
                    }
                } else {
                    warns.push(LoadWarning::UnknownKey(k.clone()));
                }
            },
        }
        i = i + 1;
    }
    proof {
        assert(pairs@.subrange(0, pairs@.len() as int) =~= pairs@);
    }
    (out, warns)
}

/// A positive integer value, truncated to `u32`.
fn read_posint(v: &ConfigValue) -> (r: Option<u32>)
    ensures
        r == posint_of(*v),
{
    match v {
        ConfigValue::Int(i) => {
            if *i > 0 {
                Some(#[verifier::truncate] (*i as u32))
            } else {
                None
            }
        },
        _ => None,
    }
}

} // verus!
