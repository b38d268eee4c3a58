//! The form definition and its construction, which rejects empty or repeated field names.
use vstd::prelude::*;

use crate::field::FieldDef;
use crate::text::{trim_str, trimmed};

verus! {

/// The whole form: metadata and the fields in display order.
#[derive(Clone, Debug)]
pub struct AppConfig {
    /// Where submissions are stored, when the configuration names a place.
    pub json_output: Option<String>,
    pub form_title: String,
    pub submit_button: String,
    pub fields: Vec<FieldDef>,
}

/// Why a list of fields cannot make a form. Each carries the index of the offending field.
#[derive(PartialEq, Eq, Structural, Clone, Copy, Debug)]
pub enum ConfigError {
    /// The field's name is empty once trimmed.
    EmptyName(usize),
    /// The field's trimmed name equals that of an earlier field.
    DuplicateName(usize),
}

/// The trimmed name of field `i`.
pub open spec fn key_at(fields: Seq<FieldDef>, i: int) -> Seq<char> {
    trimmed(fields[i].name@)
}

/// Field `k` has a non-empty trimmed name that no earlier field shares.
pub open spec fn field_ok_at(fields: Seq<FieldDef>, k: int) -> bool {
    &&& key_at(fields, k).len() > 0
    &&& forall|j: int| 0 <= j < k ==> key_at(fields, j) != key_at(fields, k)
}

/// The first `n` fields are all acceptable.
pub open spec fn prefix_ok(fields: Seq<FieldDef>, n: int) -> bool {
    forall|k: int| 0 <= k < n ==> field_ok_at(fields, k)
}

/// Every trimmed name is non-empty and no two are equal.
pub open spec fn names_valid(fields: Seq<FieldDef>) -> bool {
    prefix_ok(fields, fields.len() as int)
}

/// The error that checking in order stops at, given that fields before `k` passed.
pub open spec fn error_at(fields: Seq<FieldDef>, e: ConfigError) -> bool {
    match e {
        ConfigError::EmptyName(k) => {
            &&& k < fields.len()
            &&& prefix_ok(fields, k as int)
            &&& key_at(fields, k as int).len() == 0
        },
        ConfigError::DuplicateName(k) => {
            &&& k < fields.len()
            &&& prefix_ok(fields, k as int)
            &&& key_at(fields, k as int).len() > 0
            &&& exists|j: int| 0 <= j < k && key_at(fields, j) == key_at(fields, k as int)
        },
    }
}

/// Checks the field names in order and stops at the first that is empty or repeated
/// (both after trimming).
pub fn validate_fields(fields: &Vec<FieldDef>) -> (r: Result<(), ConfigError>)
    ensures
        r is Ok <==> names_valid(fields@),
        r matches Err(e) ==> error_at(fields@, e),
{
    let mut seen: Vec<String> = Vec::new();
    let mut i: usize = 0;
    while i < fields.len()
        invariant
            i <= fields.len(),
            seen.len() == i,
            prefix_ok(fields@, i as int),
            forall|j: int| 0 <= j < i ==> seen@[j]@ == key_at(fields@, j),
        decreases fields.len() - i,
    {
        let key = trim_str(fields[i].name.as_str());
        if key.is_empty() {
            assert(!field_ok_at(fields@, i as int));
            return Err(ConfigError::EmptyName(i));
        }
        let key = key.to_owned();
        let mut j: usize = 0;
        while j < seen.len()
            invariant
                j <= seen.len(),
                seen.len() == i,
                i < fields.len(),
                key@ == key_at(fields@, i as int),
                key@.len() > 0,
                prefix_ok(fields@, i as int),
                forall|m: int| 0 <= m < i ==> seen@[m]@ == key_at(fields@, m),
                forall|m: int| 0 <= m < j ==> key_at(fields@, m) != key_at(fields@, i as int),
            decreases seen.len() - j,
        {
            if seen[j] == key {
                assert(key_at(fields@, j as int) == key_at(fields@, i as int));
                assert(!field_ok_at(fields@, i as int));
                return Err(ConfigError::DuplicateName(i));
            }
            j += 1;
        }
        seen.push(key);
        i += 1;
    }
    Ok(())
}

/// Builds a form from its parts. Fails, handing back nothing of the form, exactly when
/// some field name is empty or repeated after trimming; otherwise the fields keep their order.
pub fn build_form(
    json_output: Option<String>,
    form_title: String,
    submit_button: String,
    fields: Vec<FieldDef>,
) -> (r: Result<AppConfig, ConfigError>)
    ensures
        r is Ok <==> names_valid(fields@),
        r matches Err(e) ==> error_at(fields@, e),
        r matches Ok(c) ==> {
            &&& c.fields@ == fields@
            &&& c.form_title == form_title
            &&& c.submit_button == submit_button
            &&& c.json_output == json_output
        },
{
    match validate_fields(&fields) {
        Ok(()) => Ok(AppConfig { json_output, form_title, submit_button, fields }),
        Err(e) => Err(e),
    }
}

/// Two fields whose names agree after trimming can never stand in one form.
pub proof fn lemma_duplicate_names_rejected(fields: Seq<FieldDef>, i: int, j: int)
    requires
        0 <= i < j < fields.len(),
        trimmed(fields[i].name@) == trimmed(fields[j].name@),
    ensures
        !names_valid(fields),
{
    assert(key_at(fields, i) == key_at(fields, j));
    assert(!field_ok_at(fields, j));
}

/// In a valid form no two fields carry the same name, so each answer key is owned by one field.
pub proof fn lemma_valid_names_distinct(fields: Seq<FieldDef>, i: int, j: int)
    requires
        names_valid(fields),
        0 <= i < fields.len(),
        0 <= j < fields.len(),
        i != j,
    ensures
        fields[i].name@ != fields[j].name@,
{
    if fields[i].name@ == fields[j].name@ {
        assert(key_at(fields, i) == key_at(fields, j));
        if i < j {
            assert(field_ok_at(fields, j));
        } else {
            assert(field_ok_at(fields, i));
        }
    }
}

} // verus!
