use vstd::prelude::*;

use crate::container::{entry_views, read_container, zip_entries_of, ContainerError};
use crate::datetime::{parse_day_month_time, spec_day_month_time, PassDateTime};
use crate::json::{
    json_obj_get, json_obj_get_arr, json_obj_get_obj, json_obj_get_str, json_obj_get_u64,
    parse_json, parsed_json, spec_obj_get, spec_obj_get_arr, spec_obj_get_obj, spec_obj_get_str,
    spec_obj_get_u64, JsonValue,
};
use crate::lookup::{assoc_first, lemma_assoc_first_found, lemma_assoc_first_none, str_eq};

verus! {

/// Why an extraction was refused. Every variant but the date
/// reconstruction (which degrades to an absent value instead) aborts
/// the whole extraction.
#[derive(Debug)]
pub enum PassError {
    /// The bytes are not a readable archive.
    ContainerUnreadable,
    /// The archive entry at this index cannot be read.
    EntryUnreadable(usize),
    /// The archive holds no manifest entry.
    MissingManifest,
    /// The manifest entry is not a valid JSON document.
    InvalidJson,
    /// A value that the schema requires to be an object is not one.
    NotAnObject { owner: String },
    /// A required key is absent or holds the wrong JSON type.
    MissingKey { owner: String, key: String },
    /// The barcode message is empty, so nothing could be re-encoded
    /// into a barcode symbology.
    EmptyBarcodeMessage,
    /// The transit-type string is outside the closed lookup table.
    UnknownTransitType { value: String },
    /// No recognized subtype signature matches the manifest.
    NoSubtypeDetected,
    /// More than one subtype signature matches the manifest.
    AmbiguousSubtype,
}

/// A schema failure, at specification level.
pub enum SchemaErr {
    NotObj(Seq<char>),
    Missing(Seq<char>, Seq<char>),
    EmptyMessage,
    BadTransit(Seq<char>),
}

/// An extraction failure of the subtype stage, at specification level.
pub enum ExtractErr {
    Schema(SchemaErr),
    NoSubtype,
    Ambiguous,
}

pub open spec fn schema_err_matches(e: PassError, s: SchemaErr) -> bool {
    match s {
        SchemaErr::NotObj(o) => e matches PassError::NotAnObject { owner } && owner@ == o,
        SchemaErr::Missing(o, k) => e matches PassError::MissingKey { owner, key } && owner@ == o
            && key@ == k,
        SchemaErr::EmptyMessage => e matches PassError::EmptyBarcodeMessage,
        SchemaErr::BadTransit(v) => e matches PassError::UnknownTransitType { value } && value@
            == v,
    }
}

pub open spec fn extract_err_matches(e: PassError, s: ExtractErr) -> bool {
    match s {
        ExtractErr::Schema(se) => schema_err_matches(e, se),
        ExtractErr::NoSubtype => e matches PassError::NoSubtypeDetected,
        ExtractErr::Ambiguous => e matches PassError::AmbiguousSubtype,
    }
}

fn missing_key(owner: &str, key: &str) -> (e: PassError)
    ensures
        e matches PassError::MissingKey { owner: o, key: k } && o@ == owner@ && k@ == key@,
{
    PassError::MissingKey { owner: owner.to_owned(), key: key.to_owned() }
}

fn not_an_object(owner: &str) -> (e: PassError)
    ensures
        e matches PassError::NotAnObject { owner: o } && o@ == owner@,
{
    PassError::NotAnObject { owner: owner.to_owned() }
}

/// One key/label/value triple of a field group.
#[derive(Debug)]
pub struct PkPassValue {
    pub key: String,
    pub label: String,
    pub value: String,
}

/// The triple a field-group element must carry; the first absent or
/// mistyped key, in the order key, label, value, is the failure.
pub open spec fn spec_value(v: JsonValue) -> Result<(Seq<char>, Seq<char>, Seq<char>), SchemaErr> {
    match v {
        JsonValue::Obj(es) => if spec_obj_get_str(es@, "key"@) is None {
            Err(SchemaErr::Missing("PkPassValue"@, "key"@))
        } else if spec_obj_get_str(es@, "label"@) is None {
            Err(SchemaErr::Missing("PkPassValue"@, "label"@))
        } else if spec_obj_get_str(es@, "value"@) is None {
            Err(SchemaErr::Missing("PkPassValue"@, "value"@))
        } else {
            Ok(
                (
                    spec_obj_get_str(es@, "key"@).unwrap(),
                    spec_obj_get_str(es@, "label"@).unwrap(),
                    spec_obj_get_str(es@, "value"@).unwrap(),
                ),
            )
        },
        _ => Err(SchemaErr::NotObj("PkPassValue"@)),
    }
}

/// Element-wise schema check of a field-group array: the first failing
/// element's failure is the array's failure.
pub open spec fn spec_values(vals: Seq<JsonValue>) -> Result<
    Seq<(Seq<char>, Seq<char>, Seq<char>)>,
    SchemaErr,
>
    decreases vals.len(),
{
    if vals.len() == 0 {
        Ok(Seq::empty())
    } else {
        match spec_value(vals[0]) {
            Err(e) => Err(e),
            Ok(t) => match spec_values(vals.skip(1)) {
                Err(e) => Err(e),
                Ok(rest) => Ok(seq![t] + rest),
            },
        }
    }
}

/// The triples of an extracted field group.
pub open spec fn values_view(entries: Seq<PkPassValue>) -> Seq<(Seq<char>, Seq<char>, Seq<char>)> {
    Seq::new(entries.len(), |i: int| (entries[i].key@, entries[i].label@, entries[i].value@))
}

/// The key/value pairs of an extracted field group, for lookups.
pub open spec fn field_pairs(entries: Seq<PkPassValue>) -> Seq<(Seq<char>, Seq<char>)> {
    Seq::new(entries.len(), |i: int| (entries[i].key@, entries[i].value@))
}

proof fn lemma_spec_values_prefix(vals: Seq<JsonValue>, i: int)
    requires
        0 <= i <= vals.len(),
        forall|j: int| 0 <= j < i ==> spec_value(#[trigger] vals[j]) is Ok,
    ensures
        spec_values(vals) == match spec_values(vals.skip(i)) {
            Ok(rest) => Ok(Seq::new(i as nat, |j: int| spec_value(vals[j])->Ok_0) + rest),
            Err(e) => Err::<Seq<(Seq<char>, Seq<char>, Seq<char>)>, SchemaErr>(e),
        },
    decreases i,
{
    let pre = Seq::new(i as nat, |j: int| spec_value(vals[j])->Ok_0);
    if i > 0 {
        lemma_spec_values_prefix(vals, i - 1);
        assert(vals.skip(i - 1)[0] == vals[i - 1]);
        assert(vals.skip(i - 1).skip(1) =~= vals.skip(i));
        let pre1 = Seq::new((i - 1) as nat, |j: int| spec_value(vals[j])->Ok_0);
        match spec_values(vals.skip(i)) {
            Ok(rest) => {
                assert(pre1 + (seq![spec_value(vals[i - 1])->Ok_0] + rest) =~= pre + rest);
            },
            Err(e) => {},
        }
    } else {
        assert(vals.skip(0) =~= vals);
        match spec_values(vals) {
            Ok(rest) => {
                assert(pre + rest =~= rest);
            },
            Err(e) => {},
        }
    }
}

impl PkPassValue {
    /// Pulls one key/label/value triple out of a field-group element.
    pub fn extract(v: &JsonValue) -> (r: Result<PkPassValue, PassError>)
        ensures
            match r {
                Ok(pv) => spec_value(*v) == Ok::<_, SchemaErr>((pv.key@, pv.label@, pv.value@)),
                Err(e) => spec_value(*v) matches Err(se) && schema_err_matches(e, se),
            },
    {
        let es = match v {
            JsonValue::Obj(es) => es,
            _ => {
                return Err(not_an_object("PkPassValue"));
            },
        };
        let key = match json_obj_get_str(es, "key") {
            Some(s) => s,
            None => {
                return Err(missing_key("PkPassValue", "key"));
            },
        };
        let label = match json_obj_get_str(es, "label") {
            Some(s) => s,
            None => {
                return Err(missing_key("PkPassValue", "label"));
            },
        };
        let value = match json_obj_get_str(es, "value") {
            Some(s) => s,
            None => {
                return Err(missing_key("PkPassValue", "value"));
            },
        };
        Ok(PkPassValue { key, label, value })
    }

    /// Extracts a whole field group, element by element; any element
    /// failing its own schema check fails the whole group.
    pub fn extract_array(vals: &Vec<JsonValue>) -> (r: Result<Vec<PkPassValue>, PassError>)
        ensures
            match r {
                Ok(out) => spec_values(vals@) == Ok::<_, SchemaErr>(values_view(out@)),
                Err(e) => spec_values(vals@) matches Err(se) && schema_err_matches(e, se),
            },
    {
        let n = vals.len();
        let mut out: Vec<PkPassValue> = Vec::new();
        let mut i: usize = 0;
        while i < n
            invariant
                n == vals.len(),
                i <= n,
                out@.len() == i,
                forall|j: int| 0 <= j < i ==> spec_value(#[trigger] vals@[j]) is Ok,
                values_view(out@) == Seq::new(i as nat, |j: int| spec_value(vals@[j])->Ok_0),
            decreases n - i,
        {
            match PkPassValue::extract(&vals[i]) {
                Ok(pv) => {
                    proof {
                        let next = out@.push(pv);
                        assert(spec_value(vals@[i as int]) == Ok::<_, SchemaErr>(
                            (pv.key@, pv.label@, pv.value@),
                        ));
                        assert forall|j: int| 0 <= j < i + 1 implies values_view(next)[j]
                            == spec_value(vals@[j])->Ok_0 by {
                            if j < i {
                                assert(next[j] == out@[j]);
                                assert(values_view(out@)[j] == spec_value(vals@[j])->Ok_0);
                            } else {
                                assert(next[j] == pv);
                            }
                        }
                        assert(values_view(next) =~= Seq::new(
                            (i + 1) as nat,
                            |j: int| spec_value(vals@[j])->Ok_0,
                        ));
                    }
                    out.push(pv);
                },
                Err(e) => {
                    proof {
                        lemma_spec_values_prefix(vals@, i as int);
                        assert(vals@.skip(i as int)[0] == vals@[i as int]);
                    }
                    return Err(e);
                },
            }
            i += 1;
        }
        proof {
            lemma_spec_values_prefix(vals@, n as int);
            assert(vals@.skip(n as int).len() == 0);
            let pre = Seq::new(n as nat, |j: int| spec_value(vals@[j])->Ok_0);
            assert(pre + Seq::empty() =~= pre);
        }
        Ok(out)
    }

    /// Ordered scan of a field group for the first entry stored under
    /// `key`; the first occurrence wins on duplicate keys.
    pub fn scan_for_value_for_key(key: &str, entries: &Vec<PkPassValue>) -> (r: Option<String>)
        ensures
            match r {
                Some(s) => assoc_first(field_pairs(entries@), key@) == Some(s@),
                None => assoc_first(field_pairs(entries@), key@) is None,
            },
    {
        let n = entries.len();
        let mut i: usize = 0;
        while i < n
            invariant
                n == entries.len(),
                i <= n,
                forall|j: int| 0 <= j < i ==> entries@[j].key@ != key@,
            decreases n - i,
        {
            if str_eq(entries[i].key.as_str(), key) {
                proof {
                    lemma_assoc_first_found(field_pairs(entries@), key@, i as int);
                }
                return Some(entries[i].value.clone());
            }
            i += 1;
        }
        proof {
            lemma_assoc_first_none(field_pairs(entries@), key@);
        }
        None
    }
}

/// The base metadata of a pass. Every field is mandatory.
#[derive(Debug)]
pub struct PkPassBase {
    pub serial_number: String,
    pub format_version: u64,
    pub pass_type_identifier: String,
    pub organization_name: String,
    pub team_identifier: String,
    pub description: String,
    pub background_color: String,
    pub foreground_color: String,
}

/// The base metadata, at specification level.
pub struct BaseModel {
    pub serial_number: Seq<char>,
    pub format_version: u64,
    pub pass_type_identifier: Seq<char>,
    pub organization_name: Seq<char>,
    pub team_identifier: Seq<char>,
    pub description: Seq<char>,
    pub background_color: Seq<char>,
    pub foreground_color: Seq<char>,
}

pub open spec fn base_model(b: PkPassBase) -> BaseModel {
    BaseModel {
        serial_number: b.serial_number@,
        format_version: b.format_version,
        pass_type_identifier: b.pass_type_identifier@,
        organization_name: b.organization_name@,
        team_identifier: b.team_identifier@,
        description: b.description@,
        background_color: b.background_color@,
        foreground_color: b.foreground_color@,
    }
}

/// The base-metadata schema: every key mandatory, checked in a fixed
/// order; a key of the wrong JSON type counts as absent.
pub open spec fn spec_base(m: Seq<(String, JsonValue)>) -> Result<BaseModel, SchemaErr> {
    if spec_obj_get_str(m, "serialNumber"@) is None {
        Err(SchemaErr::Missing("PkPassBase"@, "serialNumber"@))
    } else if spec_obj_get_u64(m, "formatVersion"@) is None {
        Err(SchemaErr::Missing("PkPassBase"@, "formatVersion"@))
    } else if spec_obj_get_str(m, "passTypeIdentifier"@) is None {
        Err(SchemaErr::Missing("PkPassBase"@, "passTypeIdentifier"@))
    } else if spec_obj_get_str(m, "organizationName"@) is None {
        Err(SchemaErr::Missing("PkPassBase"@, "organizationName"@))
    } else if spec_obj_get_str(m, "teamIdentifier"@) is None {
        Err(SchemaErr::Missing("PkPassBase"@, "teamIdentifier"@))
    } else if spec_obj_get_str(m, "description"@) is None {
        Err(SchemaErr::Missing("PkPassBase"@, "description"@))
    } else if spec_obj_get_str(m, "backgroundColor"@) is None {
        Err(SchemaErr::Missing("PkPassBase"@, "backgroundColor"@))
    } else if spec_obj_get_str(m, "foregroundColor"@) is None {
        Err(SchemaErr::Missing("PkPassBase"@, "foregroundColor"@))
    } else {
        Ok(
            BaseModel {
                serial_number: spec_obj_get_str(m, "serialNumber"@).unwrap(),
                format_version: spec_obj_get_u64(m, "formatVersion"@).unwrap(),
                pass_type_identifier: spec_obj_get_str(m, "passTypeIdentifier"@).unwrap(),
                organization_name: spec_obj_get_str(m, "organizationName"@).unwrap(),
                team_identifier: spec_obj_get_str(m, "teamIdentifier"@).unwrap(),
                description: spec_obj_get_str(m, "description"@).unwrap(),
                background_color: spec_obj_get_str(m, "backgroundColor"@).unwrap(),
                foreground_color: spec_obj_get_str(m, "foregroundColor"@).unwrap(),
            },
        )
    }
}

impl PkPassBase {
    /// Pulls the mandatory base metadata out of the manifest object.
    pub fn extract(m: &Vec<(String, JsonValue)>) -> (r: Result<PkPassBase, PassError>)
        ensures
            match r {
                Ok(b) => spec_base(m@) == Ok::<_, SchemaErr>(base_model(b)),
                Err(e) => spec_base(m@) matches Err(se) && schema_err_matches(e, se),
            },
    {
        let serial_number = match json_obj_get_str(m, "serialNumber") {
            Some(s) => s,
            None => {
                return Err(missing_key("PkPassBase", "serialNumber"));
            },
        };
        let format_version = match json_obj_get_u64(m, "formatVersion") {
            Some(n) => n,
            None => {
                return Err(missing_key("PkPassBase", "formatVersion"));
            },
        };
        let pass_type_identifier = match json_obj_get_str(m, "passTypeIdentifier") {
            Some(s) => s,
            None => {
                return Err(missing_key("PkPassBase", "passTypeIdentifier"));
            },
        };
        let organization_name = match json_obj_get_str(m, "organizationName") {
            Some(s) => s,
            None => {
                return Err(missing_key("PkPassBase", "organizationName"));
            },
        };
        let team_identifier = match json_obj_get_str(m, "teamIdentifier") {
            Some(s) => s,
            None => {
                return Err(missing_key("PkPassBase", "teamIdentifier"));
            },
        };
        let description = match json_obj_get_str(m, "description") {
            Some(s) => s,
            None => {
                return Err(missing_key("PkPassBase", "description"));
            },
        };
        let background_color = match json_obj_get_str(m, "backgroundColor") {
            Some(s) => s,
            None => {
                return Err(missing_key("PkPassBase", "backgroundColor"));
            },
        };
        let foreground_color = match json_obj_get_str(m, "foregroundColor") {
            Some(s) => s,
            None => {
                return Err(missing_key("PkPassBase", "foregroundColor"));
            },
        };
        Ok(
            PkPassBase {
                serial_number,
                format_version,
                pass_type_identifier,
                organization_name,
                team_identifier,
                description,
                background_color,
                foreground_color,
            },
        )
    }
}

/// The barcode of a pass. Every field is mandatory.
#[derive(Debug)]
pub struct PkPassBarcode {
    pub format: String,
    pub message: String,
    pub encoding: String,
}

/// The barcode schema: a mandatory `barcode` object with mandatory
/// string fields, checked in a fixed order. The message must be
/// non-empty text, suitable for direct re-encoding into a barcode
/// symbology.
pub open spec fn spec_barcode(m: Seq<(String, JsonValue)>) -> Result<
    (Seq<char>, Seq<char>, Seq<char>),
    SchemaErr,
> {
    match spec_obj_get(m, "barcode"@) {
        None => Err(SchemaErr::Missing("PkPassBarcode"@, "barcode"@)),
        Some(JsonValue::Obj(bo)) => if spec_obj_get_str(bo@, "format"@) is None {
            Err(SchemaErr::Missing("PkPassBarcode"@, "format"@))
        } else if spec_obj_get_str(bo@, "message"@) is None {
            Err(SchemaErr::Missing("PkPassBarcode"@, "message"@))
        } else if spec_obj_get_str(bo@, "messageEncoding"@) is None {
            Err(SchemaErr::Missing("PkPassBarcode"@, "messageEncoding"@))
        } else if spec_obj_get_str(bo@, "message"@).unwrap().len() == 0 {
            Err(SchemaErr::EmptyMessage)
        } else {
            Ok(
                (
                    spec_obj_get_str(bo@, "format"@).unwrap(),
                    spec_obj_get_str(bo@, "message"@).unwrap(),
                    spec_obj_get_str(bo@, "messageEncoding"@).unwrap(),
                ),
            )
        },
        Some(_) => Err(SchemaErr::NotObj("PkPassBarcode"@)),
    }
}

impl PkPassBarcode {
    /// Pulls the mandatory barcode out of the manifest object.
    pub fn extract(m: &Vec<(String, JsonValue)>) -> (r: Result<PkPassBarcode, PassError>)
        ensures
            match r {
                Ok(b) => spec_barcode(m@) == Ok::<_, SchemaErr>(
                    (b.format@, b.message@, b.encoding@),
                ) && b.message@.len() > 0,
                Err(e) => spec_barcode(m@) matches Err(se) && schema_err_matches(e, se),
            },
    {
        let bo = match json_obj_get(m, "barcode") {
            Some(JsonValue::Obj(bo)) => bo,
            Some(_) => {
                return Err(not_an_object("PkPassBarcode"));
            },
            None => {
                return Err(missing_key("PkPassBarcode", "barcode"));
            },
        };
        let format = match json_obj_get_str(bo, "format") {
            Some(s) => s,
            None => {
                return Err(missing_key("PkPassBarcode", "format"));
            },
        };
        let message = match json_obj_get_str(bo, "message") {
            Some(s) => s,
            None => {
                return Err(missing_key("PkPassBarcode", "message"));
            },
        };
        let encoding = match json_obj_get_str(bo, "messageEncoding") {
            Some(s) => s,
            None => {
                return Err(missing_key("PkPassBarcode", "messageEncoding"));
            },
        };
        if message.as_str().is_empty() {
            return Err(PassError::EmptyBarcodeMessage);
        }
        Ok(PkPassBarcode { format, message, encoding })
    }
}

/// The closed set of pass subtypes the detector probes for.
#[derive(Debug, Clone, Copy, PartialEq, Eq, Hash, Structural)]
pub enum SubtypeKey {
    Flight,
}

/// The fixed, deterministic order in which subtype signatures are
/// probed.
pub open spec fn all_subtype_keys() -> Seq<SubtypeKey> {
    seq![SubtypeKey::Flight]
}

fn all_keys() -> (r: Vec<SubtypeKey>)
    ensures
        r@ == all_subtype_keys(),
{
    let mut v: Vec<SubtypeKey> = Vec::new();
    v.push(SubtypeKey::Flight);
    proof {
        assert(v@ =~= all_subtype_keys());
    }
    v
}

/// The top-level manifest key a subtype's data lives under.
pub open spec fn spec_subtype_primary_key(key: SubtypeKey) -> Seq<char> {
    match key {
        SubtypeKey::Flight => "boardingPass"@,
    }
}

/// A subtype's signature: its top-level key holds an object whose
/// discriminator key equals the subtype's expected string.
pub open spec fn spec_signature(key: SubtypeKey, m: Seq<(String, JsonValue)>) -> bool {
    match key {
        SubtypeKey::Flight => spec_obj_get_obj(m, "boardingPass"@) matches Some(bo)
            && spec_obj_get_str(bo, "transitType"@) == Some("PKTransitTypeAir"@),
    }
}

/// How many of the probed signatures the manifest exhibits.
pub open spec fn spec_match_count(keys: Seq<SubtypeKey>, m: Seq<(String, JsonValue)>) -> int
    decreases keys.len(),
{
    if keys.len() == 0 {
        0
    } else {
        spec_match_count(keys.drop_last(), m) + if spec_signature(keys.last(), m) {
            1int
        } else {
            0int
        }
    }
}

proof fn lemma_signature_key_present(key: SubtypeKey, m: Seq<(String, JsonValue)>)
    requires
        spec_signature(key, m),
    ensures
        spec_obj_get(m, spec_subtype_primary_key(key)) is Some,
{
}

/// Tests one subtype signature against the manifest object, handing
/// back the subtype's top-level key on a match.
pub fn check_for_key(key: SubtypeKey, m: &Vec<(String, JsonValue)>) -> (r: Option<&'static str>)
    ensures
        r is Some <==> spec_signature(key, m@),
        r matches Some(s) ==> s@ == spec_subtype_primary_key(key),
{
    match key {
        SubtypeKey::Flight => {
            let bo = match json_obj_get_obj(m, "boardingPass") {
                Some(bo) => bo,
                None => {
                    return None;
                },
            };
            let tt = match json_obj_get_str(bo, "transitType") {
                Some(t) => t,
                None => {
                    return None;
                },
            };
            if str_eq(tt.as_str(), "PKTransitTypeAir") {
                Some("boardingPass")
            } else {
                None
            }
        },
    }
}

/// Probes every registered subtype signature, in a fixed order:
/// exactly one may match; its key and matched sub-object come back.
pub fn extract_subtype<'a>(m: &'a Vec<(String, JsonValue)>) -> (r: Result<
    (SubtypeKey, &'a JsonValue),
    PassError,
>)
    ensures
        r is Ok <==> spec_match_count(all_subtype_keys(), m@) == 1,
        r matches Ok(p) ==> spec_signature(p.0, m@) && spec_obj_get(
            m@,
            spec_subtype_primary_key(p.0),
        ) == Some(*p.1),
        r matches Err(e) ==> (e matches PassError::NoSubtypeDetected && spec_match_count(
            all_subtype_keys(),
            m@,
        ) == 0) || (e matches PassError::AmbiguousSubtype && spec_match_count(
            all_subtype_keys(),
            m@,
        ) >= 2),
        spec_match_count(all_subtype_keys(), m@) == 0 ==> (r matches Err(e) && e matches
            PassError::NoSubtypeDetected),
        spec_match_count(all_subtype_keys(), m@) >= 2 ==> (r matches Err(e) && e matches
            PassError::AmbiguousSubtype),
{
    let keys = all_keys();
    let n = keys.len();
    let mut found: Vec<(SubtypeKey, &'a JsonValue)> = Vec::new();
    let mut i: usize = 0;
    while i < n
        invariant
            keys@ == all_subtype_keys(),
            n == keys.len(),
            i <= n,
            found@.len() == spec_match_count(keys@.take(i as int), m@),
            forall|j: int|
                0 <= j < found@.len() ==> spec_signature((#[trigger] found@[j]).0, m@)
                    && spec_obj_get(m@, spec_subtype_primary_key(found@[j].0)) == Some(
                    *found@[j].1,
                ),
        decreases n - i,
    {
        proof {
            assert(keys@.take(i + 1).drop_last() =~= keys@.take(i as int));
            assert(keys@.take(i + 1).last() == keys@[i as int]);
        }
        match check_for_key(keys[i], m) {
            Some(kname) => {
                proof {
                    lemma_signature_key_present(keys@[i as int], m@);
                }
                let v = match json_obj_get(m, kname) {
                    Some(v) => v,
                    None => {
                        proof {
                            assert(false);
                        }
                        return Err(PassError::NoSubtypeDetected);
                    },
                };
                found.push((keys[i], v));
            },
            None => {},
        }
        i += 1;
    }
    proof {
        assert(keys@.take(n as int) =~= keys@);
    }
    if found.len() == 0 {
        Err(PassError::NoSubtypeDetected)
    } else if found.len() == 1 {
        let p = found[0];
        Ok(p)
    } else {
        Err(PassError::AmbiguousSubtype)
    }
}

/// The transit modes the flight subtype recognizes; a closed table.
#[derive(Debug, Clone, Copy, PartialEq, Eq, Structural)]
pub enum PkTransitType {
    Air,
}

impl PkTransitType {
    /// Maps a transit-type string through the closed lookup table.
    pub fn from_str(s: &str) -> (r: Result<PkTransitType, PassError>)
        ensures
            s@ == "PKTransitTypeAir"@ ==> (r matches Ok(t) && t == PkTransitType::Air),
            s@ != "PKTransitTypeAir"@ ==> (r matches Err(e) && e matches
                PassError::UnknownTransitType { value } && value@ == s@),
    {
        if str_eq(s, "PKTransitTypeAir") {
            Ok(PkTransitType::Air)
        } else {
            Err(PassError::UnknownTransitType { value: s.to_owned() })
        }
    }
}

/// The flight view: five mandatory field groups, the transit mode, and
/// the reference year used to resolve partial dates.
#[derive(Debug)]
pub struct PkPassFlight {
    pub auxiliary_fields: Vec<PkPassValue>,
    pub back_fields: Vec<PkPassValue>,
    pub header_fields: Vec<PkPassValue>,
    pub primary_fields: Vec<PkPassValue>,
    pub secondary_fields: Vec<PkPassValue>,
    pub transit_type: PkTransitType,
    pub year: i32,
}

/// The flight view, at specification level.
pub struct FlightModel {
    pub auxiliary: Seq<(Seq<char>, Seq<char>, Seq<char>)>,
    pub back: Seq<(Seq<char>, Seq<char>, Seq<char>)>,
    pub header: Seq<(Seq<char>, Seq<char>, Seq<char>)>,
    pub primary: Seq<(Seq<char>, Seq<char>, Seq<char>)>,
    pub secondary: Seq<(Seq<char>, Seq<char>, Seq<char>)>,
    pub transit: PkTransitType,
    pub year: int,
}

pub open spec fn flight_model(f: PkPassFlight) -> FlightModel {
    FlightModel {
        auxiliary: values_view(f.auxiliary_fields@),
        back: values_view(f.back_fields@),
        header: values_view(f.header_fields@),
        primary: values_view(f.primary_fields@),
        secondary: values_view(f.secondary_fields@),
        transit: f.transit_type,
        year: f.year as int,
    }
}

/// The flight schema over the matched sub-object: five mandatory
/// field-group arrays and the transit type, with group presence
/// checked first, then element schemas, then the transit table.
pub open spec fn spec_flight(sub: JsonValue, year: int) -> Result<FlightModel, SchemaErr> {
    match sub {
        JsonValue::Obj(bo) => if spec_obj_get_arr(bo@, "auxiliaryFields"@) is None {
            Err(SchemaErr::Missing("PkPassFlight"@, "auxiliaryFields"@))
        } else if spec_obj_get_arr(bo@, "backFields"@) is None {
            Err(SchemaErr::Missing("PkPassFlight"@, "backFields"@))
        } else if spec_obj_get_arr(bo@, "headerFields"@) is None {
            Err(SchemaErr::Missing("PkPassFlight"@, "headerFields"@))
        } else if spec_obj_get_arr(bo@, "primaryFields"@) is None {
            Err(SchemaErr::Missing("PkPassFlight"@, "primaryFields"@))
        } else if spec_obj_get_arr(bo@, "secondaryFields"@) is None {
            Err(SchemaErr::Missing("PkPassFlight"@, "secondaryFields"@))
        } else if spec_obj_get_str(bo@, "transitType"@) is None {
            Err(SchemaErr::Missing("PkPassFlight"@, "transitType"@))
        } else {
            match spec_values(spec_obj_get_arr(bo@, "auxiliaryFields"@).unwrap()) {
                Err(e) => Err(e),
                Ok(aux) => match spec_values(spec_obj_get_arr(bo@, "backFields"@).unwrap()) {
                    Err(e) => Err(e),
                    Ok(back) => match spec_values(spec_obj_get_arr(bo@, "headerFields"@).unwrap()) {
                        Err(e) => Err(e),
                        Ok(header) => match spec_values(
                            spec_obj_get_arr(bo@, "primaryFields"@).unwrap(),
                        ) {
                            Err(e) => Err(e),
                            Ok(primary) => match spec_values(
                                spec_obj_get_arr(bo@, "secondaryFields"@).unwrap(),
                            ) {
                                Err(e) => Err(e),
                                Ok(secondary) => {
                                    let tt = spec_obj_get_str(bo@, "transitType"@).unwrap();
                                    if tt == "PKTransitTypeAir"@ {
                                        Ok(
                                            FlightModel {
                                                auxiliary: aux,
                                                back,
                                                header,
                                                primary,
                                                secondary,
                                                transit: PkTransitType::Air,
                                                year,
                                            },
                                        )
                                    } else {
                                        Err(SchemaErr::BadTransit(tt))
                                    }
                                },
                            },
                        },
                    },
                },
            }
        },
        _ => Err(SchemaErr::NotObj("PkPassFlight"@)),
    }
}

impl PkPassFlight {
    /// Extracts the flight view from the matched sub-object. The full
    /// manifest object comes along for cross-cutting lookups.
    pub fn extract(
        _manifest: &Vec<(String, JsonValue)>,
        internal: &JsonValue,
        year: i32,
    ) -> (r: Result<PkPassFlight, PassError>)
        ensures
            match r {
                Ok(f) => spec_flight(*internal, year as int) == Ok::<_, SchemaErr>(
                    flight_model(f),
                ) && f.year == year,
                Err(e) => spec_flight(*internal, year as int) matches Err(se)
                    && schema_err_matches(e, se),
            },
    {
        let bo = match internal {
            JsonValue::Obj(bo) => bo,
            _ => {
                return Err(not_an_object("PkPassFlight"));
            },
        };
        let aux_arr = match json_obj_get_arr(bo, "auxiliaryFields") {
            Some(a) => a,
            None => {
                return Err(missing_key("PkPassFlight", "auxiliaryFields"));
            },
        };
        let back_arr = match json_obj_get_arr(bo, "backFields") {
            Some(a) => a,
            None => {
                return Err(missing_key("PkPassFlight", "backFields"));
            },
        };
        let header_arr = match json_obj_get_arr(bo, "headerFields") {
            Some(a) => a,
            None => {
                return Err(missing_key("PkPassFlight", "headerFields"));
            },
        };
        let primary_arr = match json_obj_get_arr(bo, "primaryFields") {
            Some(a) => a,
            None => {
                return Err(missing_key("PkPassFlight", "primaryFields"));
            },
        };
        let secondary_arr = match json_obj_get_arr(bo, "secondaryFields") {
            Some(a) => a,
            None => {
                return Err(missing_key("PkPassFlight", "secondaryFields"));
            },
        };
        let tt = match json_obj_get_str(bo, "transitType") {
            Some(t) => t,
            None => {
                return Err(missing_key("PkPassFlight", "transitType"));
            },
        };
        let auxiliary_fields = match PkPassValue::extract_array(aux_arr) {
            Ok(v) => v,
            Err(e) => {
                return Err(e);
            },
        };
        let back_fields = match PkPassValue::extract_array(back_arr) {
            Ok(v) => v,
            Err(e) => {
                return Err(e);
            },
        };
        let header_fields = match PkPassValue::extract_array(header_arr) {
            Ok(v) => v,
            Err(e) => {
                return Err(e);
            },
        };
        let primary_fields = match PkPassValue::extract_array(primary_arr) {
            Ok(v) => v,
            Err(e) => {
                return Err(e);
            },
        };
        let secondary_fields = match PkPassValue::extract_array(secondary_arr) {
            Ok(v) => v,
            Err(e) => {
                return Err(e);
            },
        };
        let transit_type = match PkTransitType::from_str(tt.as_str()) {
            Ok(t) => t,
            Err(e) => {
                return Err(e);
            },
        };
        Ok(
            PkPassFlight {
                auxiliary_fields,
                back_fields,
                header_fields,
                primary_fields,
                secondary_fields,
                transit_type,
                year,
            },
        )
    }
}

/// The fixed offset, in seconds east of UTC, that reconstructed
/// date/times are read at. A placeholder for the airport's true local
/// offset, kept injectable so callers and tests can override it.
pub const RECONSTRUCTION_OFFSET_SECONDS: i32 = -25200;

/// The result an accessor hands back matches the specified lookup.
pub open spec fn opt_str_is(r: Option<String>, s: Option<Seq<char>>) -> bool {
    match r {
        Some(x) => s == Some(x@),
        None => s is None,
    }
}

impl PkPassFlight {
    pub open spec fn spec_auxiliary_field(self, key: Seq<char>) -> Option<Seq<char>> {
        assoc_first(field_pairs(self.auxiliary_fields@), key)
    }

    pub open spec fn spec_back_field(self, key: Seq<char>) -> Option<Seq<char>> {
        assoc_first(field_pairs(self.back_fields@), key)
    }

    pub open spec fn spec_header_field(self, key: Seq<char>) -> Option<Seq<char>> {
        assoc_first(field_pairs(self.header_fields@), key)
    }

    pub open spec fn spec_primary_field(self, key: Seq<char>) -> Option<Seq<char>> {
        assoc_first(field_pairs(self.primary_fields@), key)
    }

    pub open spec fn spec_secondary_field(self, key: Seq<char>) -> Option<Seq<char>> {
        assoc_first(field_pairs(self.secondary_fields@), key)
    }

    pub fn auxiliary_field(&self, key: &str) -> (r: Option<String>)
        ensures
            opt_str_is(r, self.spec_auxiliary_field(key@)),
    {
        PkPassValue::scan_for_value_for_key(key, &self.auxiliary_fields)
    }

    pub fn back_field(&self, key: &str) -> (r: Option<String>)
        ensures
            opt_str_is(r, self.spec_back_field(key@)),
    {
        PkPassValue::scan_for_value_for_key(key, &self.back_fields)
    }

    pub fn header_field(&self, key: &str) -> (r: Option<String>)
        ensures
            opt_str_is(r, self.spec_header_field(key@)),
    {
        PkPassValue::scan_for_value_for_key(key, &self.header_fields)
    }

    pub fn primary_field(&self, key: &str) -> (r: Option<String>)
        ensures
            opt_str_is(r, self.spec_primary_field(key@)),
    {
        PkPassValue::scan_for_value_for_key(key, &self.primary_fields)
    }

    pub fn secondary_field(&self, key: &str) -> (r: Option<String>)
        ensures
            opt_str_is(r, self.spec_secondary_field(key@)),
    {
        PkPassValue::scan_for_value_for_key(key, &self.secondary_fields)
    }

    pub fn date(&self) -> (r: Option<String>)
        ensures
            opt_str_is(r, self.spec_auxiliary_field("Date"@)),
    {
        self.auxiliary_field("Date")
    }

    pub fn boarding_time(&self) -> (r: Option<String>)
        ensures
            opt_str_is(r, self.spec_auxiliary_field("boardingTime"@)),
    {
        self.auxiliary_field("boardingTime")
    }

    pub fn details(&self) -> (r: Option<String>)
        ensures
            opt_str_is(r, self.spec_auxiliary_field("Details"@)),
    {
        self.auxiliary_field("Details")
    }

    pub fn subsidiary_carrier(&self) -> (r: Option<String>)
        ensures
            opt_str_is(r, self.spec_auxiliary_field("subsidiaryCarrier"@)),
    {
        self.auxiliary_field("subsidiaryCarrier")
    }

    pub fn ticket(&self) -> (r: Option<String>)
        ensures
            opt_str_is(r, self.spec_back_field("ticket"@)),
    {
        self.back_field("ticket")
    }

    pub fn recloc(&self) -> (r: Option<String>)
        ensures
            opt_str_is(r, self.spec_back_field("recloc"@)),
    {
        self.back_field("recloc")
    }

    pub fn frequent_flyer(&self) -> (r: Option<String>)
        ensures
            opt_str_is(r, self.spec_back_field("fqtv"@)),
    {
        self.back_field("fqtv")
    }

    pub fn sequence(&self) -> (r: Option<String>)
        ensures
            opt_str_is(r, self.spec_back_field("seq"@)),
    {
        self.back_field("seq")
    }

    pub fn departure_time(&self) -> (r: Option<String>)
        ensures
            opt_str_is(r, self.spec_back_field("departureTime"@)),
    {
        self.back_field("departureTime")
    }

    pub fn seat(&self) -> (r: Option<String>)
        ensures
            opt_str_is(r, self.spec_header_field("seat"@)),
    {
        self.header_field("seat")
    }

    pub fn flight_number(&self) -> (r: Option<String>)
        ensures
            opt_str_is(r, self.spec_header_field("flightNb"@)),
    {
        self.header_field("flightNb")
    }

    pub fn board_point(&self) -> (r: Option<String>)
        ensures
            opt_str_is(r, self.spec_primary_field("boardPoint"@)),
    {
        self.primary_field("boardPoint")
    }

    pub fn off_point(&self) -> (r: Option<String>)
        ensures
            opt_str_is(r, self.spec_primary_field("offPoint"@)),
    {
        self.primary_field("offPoint")
    }

    pub fn passenger(&self) -> (r: Option<String>)
        ensures
            opt_str_is(r, self.spec_secondary_field("passenger"@)),
    {
        self.secondary_field("passenger")
    }

    pub fn booking_class(&self) -> (r: Option<String>)
        ensures
            opt_str_is(r, self.spec_secondary_field("bookingClass"@)),
    {
        self.secondary_field("bookingClass")
    }

    pub fn status(&self) -> (r: Option<String>)
        ensures
            opt_str_is(r, self.spec_secondary_field("status"@)),
    {
        self.secondary_field("status")
    }

    pub fn group(&self) -> (r: Option<String>)
        ensures
            opt_str_is(r, self.spec_secondary_field("group"@)),
    {
        self.secondary_field("group")
    }

    /// The boarding date/time reconstructed from the auxiliary `Date`
    /// and `boardingTime` fields and the reference year, read at the
    /// given offset; absent when either field is missing or the
    /// composite does not name a valid date.
    pub open spec fn spec_boarding_datetime_at(self, offset_seconds: i32) -> Option<PassDateTime> {
        match (self.spec_auxiliary_field("Date"@), self.spec_auxiliary_field("boardingTime"@)) {
            (Some(d), Some(t)) => match spec_day_month_time(self.year as int, d, t) {
                Some(parts) => Some(PassDateTime { parts, offset_seconds }),
                None => None,
            },
            _ => None,
        }
    }

    /// The departure date/time reconstructed from the auxiliary `Date`
    /// and the back `departureTime` fields.
    pub open spec fn spec_departure_datetime_at(self, offset_seconds: i32) -> Option<PassDateTime> {
        match (self.spec_auxiliary_field("Date"@), self.spec_back_field("departureTime"@)) {
            (Some(d), Some(t)) => match spec_day_month_time(self.year as int, d, t) {
                Some(parts) => Some(PassDateTime { parts, offset_seconds }),
                None => None,
            },
            _ => None,
        }
    }

    pub fn boarding_datetime_with_offset(&self, offset_seconds: i32) -> (r: Option<PassDateTime>)
        ensures
            r == self.spec_boarding_datetime_at(offset_seconds),
    {
        let d = match self.date() {
            Some(d) => d,
            None => {
                return None;
            },
        };
        let t = match self.boarding_time() {
            Some(t) => t,
            None => {
                return None;
            },
        };
        let parts = match parse_day_month_time(self.year, d.as_str(), t.as_str()) {
            Some(p) => p,
            None => {
                return None;
            },
        };
        Some(PassDateTime { parts, offset_seconds })
    }

    pub fn departure_datetime_with_offset(&self, offset_seconds: i32) -> (r: Option<PassDateTime>)
        ensures
            r == self.spec_departure_datetime_at(offset_seconds),
    {
        let d = match self.date() {
            Some(d) => d,
            None => {
                return None;
            },
        };
        let t = match self.departure_time() {
            Some(t) => t,
            None => {
                return None;
            },
        };
        let parts = match parse_day_month_time(self.year, d.as_str(), t.as_str()) {
            Some(p) => p,
            None => {
                return None;
            },
        };
        Some(PassDateTime { parts, offset_seconds })
    }

    /// The boarding date/time at the fixed placeholder offset.
    pub fn parsed_boarding_datetime(&self) -> (r: Option<PassDateTime>)
        ensures
            r == self.spec_boarding_datetime_at(RECONSTRUCTION_OFFSET_SECONDS),
    {
        self.boarding_datetime_with_offset(RECONSTRUCTION_OFFSET_SECONDS)
    }

    /// The departure date/time at the fixed placeholder offset.
    pub fn parsed_departure_datetime(&self) -> (r: Option<PassDateTime>)
        ensures
            r == self.spec_departure_datetime_at(RECONSTRUCTION_OFFSET_SECONDS),
    {
        self.departure_datetime_with_offset(RECONSTRUCTION_OFFSET_SECONDS)
    }
}

/// The detected pass subtype; a closed, tagged variant.
#[derive(Debug)]
pub enum PkPassSubtype {
    Flight(PkPassFlight),
}

/// The subtype stage: exactly one signature must match, and the
/// matched subtype's own schema must accept its sub-object.
pub open spec fn spec_subtype(m: Seq<(String, JsonValue)>, year: int) -> Result<
    FlightModel,
    ExtractErr,
> {
    let cnt = spec_match_count(all_subtype_keys(), m);
    if cnt == 0 {
        Err(ExtractErr::NoSubtype)
    } else if cnt >= 2 {
        Err(ExtractErr::Ambiguous)
    } else {
        match spec_flight(spec_obj_get(m, "boardingPass"@).unwrap(), year) {
            Ok(fm) => Ok(fm),
            Err(se) => Err(ExtractErr::Schema(se)),
        }
    }
}

impl PkPassSubtype {
    /// Detects and extracts the manifest's unique subtype.
    pub fn extract(m: &Vec<(String, JsonValue)>, year: i32) -> (r: Result<PkPassSubtype, PassError>)
        ensures
            match r {
                Ok(st) => st matches PkPassSubtype::Flight(f) && spec_subtype(m@, year as int)
                    == Ok::<_, ExtractErr>(flight_model(f)),
                Err(e) => spec_subtype(m@, year as int) matches Err(ee) && extract_err_matches(
                    e,
                    ee,
                ),
            },
    {
        let (key, v) = match extract_subtype(m) {
            Ok(p) => p,
            Err(e) => {
                return Err(e);
            },
        };
        match key {
            SubtypeKey::Flight => {
                proof {
                    assert(spec_subtype_primary_key(SubtypeKey::Flight) == "boardingPass"@);
                    assert(spec_obj_get(m@, "boardingPass"@) == Some(*v));
                }
                match PkPassFlight::extract(m, v, year) {
                    Ok(f) => Ok(PkPassSubtype::Flight(f)),
                    Err(e) => Err(e),
                }
            },
        }
    }
}

/// The unified, format-agnostic pass representation both source and
/// target wallet formats convert through. Its field mapping is not yet
/// designed; the type stands as the conversion target.
#[derive(Debug, Clone)]
pub struct Pass {
}

/// A pass of the other wallet format; its reading is not yet designed.
#[derive(Debug, Clone)]
pub struct GoogleWalletPass {
}

/// The wallet formats a pass can be written to.
#[derive(Debug, Clone, Copy)]
pub enum PassFormat {
    GPass,
    PkPass,
}

/// A fully validated pass: base metadata, barcode, and the detected
/// subtype.
#[derive(Debug)]
pub struct PkPass {
    pub base: PkPassBase,
    pub barcode: PkPassBarcode,
    pub subtype: PkPassSubtype,
}

/// The whole extracted pass, at specification level.
pub struct PassModel {
    pub base: BaseModel,
    pub barcode: (Seq<char>, Seq<char>, Seq<char>),
    pub flight: FlightModel,
}

pub open spec fn pass_model(p: PkPass) -> PassModel {
    PassModel {
        base: base_model(p.base),
        barcode: (p.barcode.format@, p.barcode.message@, p.barcode.encoding@),
        flight: match p.subtype {
            PkPassSubtype::Flight(f) => flight_model(f),
        },
    }
}

/// The archive bytes hold a readable archive whose every entry can be
/// read in full.
pub open spec fn spec_container_ok(bytes: Seq<u8>) -> bool {
    zip_entries_of(bytes) matches Some(es) && forall|i: int|
        0 <= i < es.len() ==> (#[trigger] es[i]).1 is Some
}

/// The flat entry list of a readable archive: names and contents.
pub open spec fn spec_flat_entries(bytes: Seq<u8>) -> Seq<(Seq<char>, Seq<u8>)> {
    let es = zip_entries_of(bytes).unwrap();
    Seq::new(es.len(), |i: int| (es[i].0, es[i].1.unwrap()))
}

/// The manifest entry's bytes, under the archive's fixed manifest name.
pub open spec fn spec_manifest_bytes(bytes: Seq<u8>) -> Option<Seq<u8>> {
    assoc_first(spec_flat_entries(bytes), "pass.json"@)
}

/// The manifest, decoded from its entry.
pub open spec fn spec_manifest_json(bytes: Seq<u8>) -> Option<JsonValue> {
    match spec_manifest_bytes(bytes) {
        Some(mb) => parsed_json(mb),
        None => None,
    }
}

/// The manifest's top-level object entries.
pub open spec fn spec_manifest_obj(bytes: Seq<u8>) -> Seq<(String, JsonValue)> {
    spec_manifest_json(bytes).unwrap()->Obj_0@
}

/// Every stage of the extraction pipeline accepts these bytes.
pub open spec fn spec_read_ok(bytes: Seq<u8>, year: int) -> bool {
    &&& spec_container_ok(bytes)
    &&& spec_manifest_bytes(bytes) is Some
    &&& spec_manifest_json(bytes) is Some
    &&& spec_manifest_json(bytes).unwrap() matches JsonValue::Obj(_)
    &&& spec_base(spec_manifest_obj(bytes)) is Ok
    &&& spec_subtype(spec_manifest_obj(bytes), year) is Ok
    &&& spec_barcode(spec_manifest_obj(bytes)) is Ok
}

/// What a successful extraction holds, as a function of the bytes and
/// the reference year alone.
pub open spec fn spec_extracted(bytes: Seq<u8>, year: int) -> PassModel {
    let m = spec_manifest_obj(bytes);
    PassModel {
        base: spec_base(m)->Ok_0,
        barcode: spec_barcode(m)->Ok_0,
        flight: spec_subtype(m, year)->Ok_0,
    }
}

/// Which error a refused extraction surfaces, stage by stage in
/// pipeline order.
pub open spec fn spec_read_err(bytes: Seq<u8>, year: int, e: PassError) -> bool {
    if zip_entries_of(bytes) is None {
        e matches PassError::ContainerUnreadable
    } else if !spec_container_ok(bytes) {
        let es = zip_entries_of(bytes).unwrap();
        e matches PassError::EntryUnreadable(k) && k < es.len() && es[k as int].1 is None
            && (forall|j: int| 0 <= j < k ==> (#[trigger] es[j]).1 is Some)
    } else if spec_manifest_bytes(bytes) is None {
        e matches PassError::MissingManifest
    } else if spec_manifest_json(bytes) is None {
        e matches PassError::InvalidJson
    } else if !(spec_manifest_json(bytes).unwrap() matches JsonValue::Obj(_)) {
        e matches PassError::NotAnObject { owner } && owner@ == "PkPass"@
    } else {
        let m = spec_manifest_obj(bytes);
        if spec_base(m) is Err {
            schema_err_matches(e, spec_base(m)->Err_0)
        } else if spec_subtype(m, year) is Err {
            extract_err_matches(e, spec_subtype(m, year)->Err_0)
        } else if spec_barcode(m) is Err {
            schema_err_matches(e, spec_barcode(m)->Err_0)
        } else {
            false
        }
    }
}

impl PkPass {
    /// Opens a pass container and extracts its validated model: the
    /// archive is read in full, the manifest located and decoded, the
    /// base metadata validated, the subtype detected and extracted,
    /// and the barcode validated, in that order; the first refusing
    /// stage's error is surfaced.
    pub fn read(bytes: &Vec<u8>, year: i32) -> (r: Result<PkPass, PassError>)
        ensures
            r is Ok <==> spec_read_ok(bytes@, year as int),
            r matches Ok(p) ==> pass_model(p) == spec_extracted(bytes@, year as int),
            r matches Ok(p) ==> p.barcode.message@.len() > 0,
            r matches Err(e) ==> spec_read_err(bytes@, year as int, e),
    {
        let container = match read_container(bytes) {
            Ok(c) => c,
            Err(ContainerError::Unreadable) => {
                return Err(PassError::ContainerUnreadable);
            },
            Err(ContainerError::EntryUnreadable(k)) => {
                return Err(PassError::EntryUnreadable(k));
            },
        };
        proof {
            assert(spec_flat_entries(bytes@) =~= entry_views(container.entries@));
        }
        let mdata = match container.entry_data("pass.json") {
            Some(d) => d,
            None => {
                return Err(PassError::MissingManifest);
            },
        };
        let mjson = match parse_json(mdata) {
            Some(j) => j,
            None => {
                return Err(PassError::InvalidJson);
            },
        };
        let mobj = match &mjson {
            JsonValue::Obj(es) => es,
            _ => {
                return Err(not_an_object("PkPass"));
            },
        };
        proof {
            assert(spec_manifest_obj(bytes@) == mobj@);
        }
        let base = match PkPassBase::extract(mobj) {
            Ok(b) => b,
            Err(e) => {
                return Err(e);
            },
        };
        let subtype = match PkPassSubtype::extract(mobj, year) {
            Ok(s) => s,
            Err(e) => {
                return Err(e);
            },
        };
        let barcode = match PkPassBarcode::extract(mobj) {
            Ok(b) => b,
            Err(e) => {
                return Err(e);
            },
        };
        Ok(PkPass { base, barcode, subtype })
    }
}

/// Extraction is deterministic: two successful extractions from
/// identical container bytes and the same reference year agree on the
/// whole model — base metadata, barcode, and field-group content.
pub proof fn lemma_extraction_deterministic(bytes: Seq<u8>, year: int, p1: PkPass, p2: PkPass)
    requires
        pass_model(p1) == spec_extracted(bytes, year),
        pass_model(p2) == spec_extracted(bytes, year),
    ensures
        pass_model(p1) == pass_model(p2),
{
}

/// The mandatory base keys are pairwise distinguishable from the one
/// integer-typed key.
proof fn lemma_base_keys_distinct()
    ensures
        "serialNumber"@ != "formatVersion"@,
        "passTypeIdentifier"@ != "formatVersion"@,
        "organizationName"@ != "formatVersion"@,
        "teamIdentifier"@ != "formatVersion"@,
        "description"@ != "formatVersion"@,
        "backgroundColor"@ != "formatVersion"@,
        "foregroundColor"@ != "formatVersion"@,
{
    reveal_strlit("serialNumber");
    reveal_strlit("formatVersion");
    reveal_strlit("passTypeIdentifier");
    reveal_strlit("organizationName");
    reveal_strlit("teamIdentifier");
    reveal_strlit("description");
    reveal_strlit("backgroundColor");
    reveal_strlit("foregroundColor");
    assert("serialNumber"@.len() == 12);
    assert("formatVersion"@.len() == 13);
    assert("passTypeIdentifier"@.len() == 18);
    assert("organizationName"@.len() == 16);
    assert("teamIdentifier"@.len() == 14);
    assert("description"@.len() == 11);
    assert("backgroundColor"@.len() == 15);
    assert("foregroundColor"@.len() == 15);
}

/// The key is one of the mandatory base-metadata keys.
pub open spec fn mandatory_base_key(k: Seq<char>) -> bool {
    ||| k == "serialNumber"@
    ||| k == "formatVersion"@
    ||| k == "passTypeIdentifier"@
    ||| k == "organizationName"@
    ||| k == "teamIdentifier"@
    ||| k == "description"@
    ||| k == "backgroundColor"@
    ||| k == "foregroundColor"@
}

/// The manifest holds this base key with the JSON type the schema
/// asks of it.
pub open spec fn base_key_ok(m: Seq<(String, JsonValue)>, k: Seq<char>) -> bool {
    if k == "formatVersion"@ {
        spec_obj_get_u64(m, k) is Some
    } else {
        spec_obj_get_str(m, k) is Some
    }
}

/// Base-metadata extraction succeeds exactly when every mandatory key
/// is present with the right JSON type: supplying the missing key (and
/// no other change) turns a refusal into a success.
pub proof fn lemma_base_ok_iff(m: Seq<(String, JsonValue)>)
    ensures
        spec_base(m) is Ok <==> forall|k: Seq<char>|
            mandatory_base_key(k) ==> #[trigger] base_key_ok(m, k),
{
    lemma_base_keys_distinct();
    if spec_base(m) is Ok {
        assert forall|k: Seq<char>| mandatory_base_key(k) implies #[trigger] base_key_ok(
            m,
            k,
        ) by {}
    } else {
        assert(base_key_ok(m, "serialNumber"@) && base_key_ok(m, "formatVersion"@) && base_key_ok(
            m,
            "passTypeIdentifier"@,
        ) && base_key_ok(m, "organizationName"@) && base_key_ok(m, "teamIdentifier"@)
            && base_key_ok(m, "description"@) && base_key_ok(m, "backgroundColor"@) && base_key_ok(
            m,
            "foregroundColor"@,
        ) ==> spec_base(m) is Ok);
    }
}

/// A manifest missing any one mandatory base key (or holding it with
/// the wrong JSON type) is refused with a schema error that names the
/// base metadata and a key that is indeed missing or mistyped.
pub proof fn lemma_base_missing_key_fails(m: Seq<(String, JsonValue)>, k: Seq<char>)
    requires
        mandatory_base_key(k),
        !base_key_ok(m, k),
    ensures
        spec_base(m) matches Err(SchemaErr::Missing(o, k2)) && o == "PkPassBase"@
            && mandatory_base_key(k2) && !base_key_ok(m, k2),
{
    lemma_base_keys_distinct();
    lemma_base_ok_iff(m);
}

/// Subtype detection is exclusive: a manifest exhibiting none of the
/// probed signatures is refused as carrying no subtype, and one
/// exhibiting more than one is refused as ambiguous.
pub proof fn lemma_subtype_exclusive(m: Seq<(String, JsonValue)>, year: int)
    ensures
        spec_match_count(all_subtype_keys(), m) == 0 ==> spec_subtype(m, year) == Err::<
            FlightModel,
            ExtractErr,
        >(ExtractErr::NoSubtype),
        spec_match_count(all_subtype_keys(), m) >= 2 ==> spec_subtype(m, year) == Err::<
            FlightModel,
            ExtractErr,
        >(ExtractErr::Ambiguous),
{
}

/// A named lookup reads one field group alone: two flight views whose
/// owning group holds the same keyed values agree on the lookup,
/// whatever their other groups hold — so reordering the groups
/// relative to each other changes no accessor's result.
pub proof fn lemma_lookup_reads_one_group(f1: PkPassFlight, f2: PkPassFlight, key: Seq<char>)
    ensures
        field_pairs(f1.auxiliary_fields@) == field_pairs(f2.auxiliary_fields@)
            ==> f1.spec_auxiliary_field(key) == f2.spec_auxiliary_field(key),
        field_pairs(f1.back_fields@) == field_pairs(f2.back_fields@) ==> f1.spec_back_field(key)
            == f2.spec_back_field(key),
        field_pairs(f1.header_fields@) == field_pairs(f2.header_fields@) ==> f1.spec_header_field(
            key,
        ) == f2.spec_header_field(key),
        field_pairs(f1.primary_fields@) == field_pairs(f2.primary_fields@)
            ==> f1.spec_primary_field(key) == f2.spec_primary_field(key),
        field_pairs(f1.secondary_fields@) == field_pairs(f2.secondary_fields@)
            ==> f1.spec_secondary_field(key) == f2.spec_secondary_field(key),
{
}

/// The documented duplicate-key tie-break of field groups: when the
/// entry at `i` carries the key and no earlier entry does, the lookup
/// yields exactly that entry's value — the first occurrence wins.
pub proof fn lemma_first_occurrence_wins(entries: Seq<PkPassValue>, key: Seq<char>, i: int)
    requires
        0 <= i < entries.len(),
        entries[i].key@ == key,
        forall|j: int| 0 <= j < i ==> entries[j].key@ != key,
    ensures
        assoc_first(field_pairs(entries), key) == Some(entries[i].value@),
{
    lemma_assoc_first_found(field_pairs(entries), key, i);
}

} // verus!
