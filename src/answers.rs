//! Normalisation of posted key/value pairs into the answer record of one submission.
use vstd::prelude::*;

use crate::config::AppConfig;
use crate::field::FieldDef;
use crate::record::{now_utc, ResponseEntry};
use crate::text::{trim_str, trimmed};

verus! {

/// An answer as recorded: the trimmed value, or nothing when the trimmed value is empty.
pub open spec fn clean(v: Seq<char>) -> Option<Seq<char>> {
    if trimmed(v).len() == 0 {
        None
    } else {
        Some(trimmed(v))
    }
}

/// The view of an optional string.
pub open spec fn opt_view(o: Option<String>) -> Option<Seq<char>> {
    match o {
        Some(s) => Some(s@),
        None => None,
    }
}

/// The recorded answer under `key`: the cleaned value of the last pair posted under it,
/// or nothing when no pair carries it.
pub open spec fn answer_for(raw: Seq<(String, String)>, key: Seq<char>) -> Option<Seq<char>>
    decreases raw.len(),
{
    if raw.len() == 0 {
        None
    } else if raw.last().0@ == key {
        clean(raw.last().1@)
    } else {
        answer_for(raw.drop_last(), key)
    }
}

/// Some field of the form is named `key`.
pub open spec fn is_declared(fields: Seq<FieldDef>, key: Seq<char>) -> bool {
    exists|i: int| 0 <= i < fields.len() && fields[i].name@ == key
}

/// One entry per declared field, in declaration order.
pub open spec fn declared_answers(fields: Seq<FieldDef>, raw: Seq<(String, String)>) -> Seq<
    (Seq<char>, Option<Seq<char>>),
> {
    Seq::new(fields.len(), |i: int| (fields[i].name@, answer_for(raw, fields[i].name@)))
}

/// One entry per posted pair whose key no field declares, in posted order.
pub open spec fn extra_answers(fields: Seq<FieldDef>, raw: Seq<(String, String)>) -> Seq<
    (Seq<char>, Option<Seq<char>>),
>
    decreases raw.len(),
{
    if raw.len() == 0 {
        Seq::empty()
    } else {
        let rest = extra_answers(fields, raw.drop_last());
        if is_declared(fields, raw.last().0@) {
            rest
        } else {
            rest.push((raw.last().0@, clean(raw.last().1@)))
        }
    }
}

/// The answer record of a submission: declared fields first, then undeclared keys.
pub open spec fn normalized(fields: Seq<FieldDef>, raw: Seq<(String, String)>) -> Seq<
    (Seq<char>, Option<Seq<char>>),
> {
    declared_answers(fields, raw) + extra_answers(fields, raw)
}

/// The view of an answer record.
pub open spec fn answers_view(a: Seq<(String, Option<String>)>) -> Seq<
    (Seq<char>, Option<Seq<char>>),
> {
    a.map_values(|p: (String, Option<String>)| (p.0@, opt_view(p.1)))
}

/// No two posted pairs share a key, as in a mapping.
pub open spec fn keys_distinct(raw: Seq<(String, String)>) -> bool {
    forall|a: int, b: int| 0 <= a < raw.len() && 0 <= b < raw.len() && a != b ==> raw[a].0@ != raw[b].0@
}

/// Trims a posted value and turns an empty result into no answer.
pub fn clean_value(v: &str) -> (r: Option<String>)
    ensures
        opt_view(r) == clean(v@),
{
    let t = trim_str(v);
    if t.is_empty() {
        None
    } else {
        Some(t.to_owned())
    }
}

/// The recorded answer under `key` in the posted pairs.
pub fn lookup_answer(raw: &Vec<(String, String)>, key: &String) -> (r: Option<String>)
    ensures
        opt_view(r) == answer_for(raw@, key@),
{
    let mut j: usize = raw.len();
    assert(raw@.subrange(0, j as int) =~= raw@);
    while j > 0
        invariant
            j <= raw.len(),
            answer_for(raw@.subrange(0, j as int), key@) == answer_for(raw@, key@),
        decreases j,
    {
        let ghost sub = raw@.subrange(0, j as int);
        assert(sub.drop_last() =~= raw@.subrange(0, j - 1));
        if raw[j - 1].0 == *key {
            return clean_value(raw[j - 1].1.as_str());
        }
        j -= 1;
    }
    None
}

/// Whether some field is named `key`.
pub fn declares(fields: &Vec<FieldDef>, key: &String) -> (r: bool)
    ensures
        r == is_declared(fields@, key@),
{
    let mut i: usize = 0;
    while i < fields.len()
        invariant
            i <= fields.len(),
            forall|m: int| 0 <= m < i ==> fields@[m].name@ != key@,
        decreases fields.len() - i,
    {
        if fields[i].name == *key {
            return true;
        }
        i += 1;
    }
    false
}

/// Maps posted pairs onto the form: every declared field gets an entry in declaration order,
/// then every undeclared key in posted order. Values are trimmed; empty ones become no answer.
pub fn normalize_answers(fields: &Vec<FieldDef>, raw: &Vec<(String, String)>) -> (r: Vec<
    (String, Option<String>),
>)
    ensures
        answers_view(r@) == normalized(fields@, raw@),
{
    let mut out: Vec<(String, Option<String>)> = Vec::new();
    let mut i: usize = 0;
    while i < fields.len()
        invariant
            i <= fields.len(),
            answers_view(out@) =~= declared_answers(fields@, raw@).take(i as int),
        decreases fields.len() - i,
    {
        let a = lookup_answer(raw, &fields[i].name);
        let ghost prev = out@;
        let ghost entry = (fields@[i as int].name@, opt_view(a));
        out.push((fields[i].name.clone(), a));
        assert(answers_view(out@) =~= answers_view(prev).push(entry));
        assert(answers_view(out@) =~= declared_answers(fields@, raw@).take(i + 1));
        i += 1;
    }
    assert(declared_answers(fields@, raw@).take(i as int) =~= declared_answers(fields@, raw@));
    assert(raw@.subrange(0, 0) =~= Seq::<(String, String)>::empty());
    let mut j: usize = 0;
    while j < raw.len()
        invariant
            j <= raw.len(),
            answers_view(out@) =~= declared_answers(fields@, raw@) + extra_answers(
                fields@,
                raw@.subrange(0, j as int),
            ),
        decreases raw.len() - j,
    {
        assert(raw@.subrange(0, j + 1).drop_last() =~= raw@.subrange(0, j as int));
        let ghost prev = out@;
        if !declares(fields, &raw[j].0) {
            let v = clean_value(raw[j].1.as_str());
            out.push((raw[j].0.clone(), v));
            assert(answers_view(out@) =~= answers_view(prev).push((raw@[j as int].0@, clean(raw@[j as int].1@))));
        }
        assert(answers_view(out@) =~= declared_answers(fields@, raw@) + extra_answers(
            fields@,
            raw@.subrange(0, j + 1),
        ));
        j += 1;
    }
    assert(raw@.subrange(0, j as int) =~= raw@);
    out
}

/// Builds the record of one submission against the form, stamped with the current time.
pub fn normalize(cfg: &AppConfig, raw: &Vec<(String, String)>) -> (r: ResponseEntry)
    ensures
        answers_view(r.answers@) == normalized(cfg.fields@, raw@),
{
    let answers = normalize_answers(&cfg.fields, raw);
    ResponseEntry { timestamp: now_utc(), answers }
}

/// An undeclared posted key has an entry among the extra answers.
proof fn lemma_extra_keeps_key(fields: Seq<FieldDef>, raw: Seq<(String, String)>, j: int)
    requires
        0 <= j < raw.len(),
        !is_declared(fields, raw[j].0@),
    ensures
        exists|k: int|
            0 <= k < extra_answers(fields, raw).len() && #[trigger] extra_answers(fields, raw)[k].0
                == raw[j].0@,
    decreases raw.len(),
{
    let rest = extra_answers(fields, raw.drop_last());
    if j == raw.len() - 1 {
        assert(extra_answers(fields, raw)[rest.len() as int].0 == raw[j].0@);
    } else {
        assert(raw.drop_last()[j] == raw[j]);
        lemma_extra_keeps_key(fields, raw.drop_last(), j);
        let k = choose|k: int| 0 <= k < rest.len() && #[trigger] rest[k].0 == raw[j].0@;
        assert(extra_answers(fields, raw)[k] == rest[k]);
    }
}

/// Every entry among the extra answers comes from one posted pair.
proof fn lemma_extra_source(fields: Seq<FieldDef>, raw: Seq<(String, String)>, k: int)
    requires
        0 <= k < extra_answers(fields, raw).len(),
    ensures
        exists|j: int|
            0 <= j < raw.len() && extra_answers(fields, raw)[k] == (
            #[trigger] raw[j].0@,
            clean(raw[j].1@),
        ),
    decreases raw.len(),
{
    let rest = extra_answers(fields, raw.drop_last());
    if k < rest.len() {
        lemma_extra_source(fields, raw.drop_last(), k);
        let j = choose|j: int|
            0 <= j < raw.drop_last().len() && rest[k] == (
            #[trigger] raw.drop_last()[j].0@,
            clean(raw.drop_last()[j].1@),
        );
        assert(raw.drop_last()[j] == raw[j]);
        assert(extra_answers(fields, raw)[k] == rest[k]);
    } else {
        assert(raw[raw.len() - 1] == raw.last());
    }
}

proof fn lemma_answer_for_nonblank(raw: Seq<(String, String)>, key: Seq<char>)
    ensures
        answer_for(raw, key) matches Some(t) ==> t.len() > 0,
    decreases raw.len(),
{
    if raw.len() > 0 {
        lemma_answer_for_nonblank(raw.drop_last(), key);
    }
}

proof fn lemma_answer_for_unique(raw: Seq<(String, String)>, j: int)
    requires
        keys_distinct(raw),
        0 <= j < raw.len(),
    ensures
        answer_for(raw, raw[j].0@) == clean(raw[j].1@),
    decreases raw.len(),
{
    if j < raw.len() - 1 {
        assert(raw.last() == raw[raw.len() - 1]);
        assert(raw.drop_last()[j] == raw[j]);
        assert(keys_distinct(raw.drop_last())) by {
            assert forall|a: int, b: int|
                0 <= a < raw.drop_last().len() && 0 <= b < raw.drop_last().len() && a != b implies raw.drop_last()[a].0@
                != raw.drop_last()[b].0@ by {
                assert(raw.drop_last()[a] == raw[a]);
                assert(raw.drop_last()[b] == raw[b]);
            }
        }
        lemma_answer_for_unique(raw.drop_last(), j);
    }
}

/// Nothing posted is lost: every posted key has an entry in the answer record, under the
/// field of that name when one is declared, else under the key itself.
pub proof fn lemma_no_key_dropped(fields: Seq<FieldDef>, raw: Seq<(String, String)>, j: int)
    requires
        0 <= j < raw.len(),
    ensures
        exists|i: int|
            0 <= i < normalized(fields, raw).len() && #[trigger] normalized(fields, raw)[i].0
                == raw[j].0@,
{
    let n = normalized(fields, raw);
    if is_declared(fields, raw[j].0@) {
        let f = choose|f: int| 0 <= f < fields.len() && fields[f].name@ == raw[j].0@;
        assert(n[f].0 == raw[j].0@);
    } else {
        lemma_extra_keeps_key(fields, raw, j);
        let k = choose|k: int|
            0 <= k < extra_answers(fields, raw).len() && #[trigger] extra_answers(fields, raw)[k].0
                == raw[j].0@;
        assert(n[fields.len() + k] == extra_answers(fields, raw)[k]);
    }
}

/// No recorded answer is an empty string: a blank value is recorded as no answer.
pub proof fn lemma_no_empty_answer(fields: Seq<FieldDef>, raw: Seq<(String, String)>, i: int)
    requires
        0 <= i < normalized(fields, raw).len(),
    ensures
        normalized(fields, raw)[i].1 matches Some(t) ==> t.len() > 0,
{
    let n = normalized(fields, raw);
    if i < fields.len() {
        lemma_answer_for_nonblank(raw, fields[i].name@);
    } else {
        let k = i - fields.len();
        assert(n[i] == extra_answers(fields, raw)[k]);
        lemma_extra_source(fields, raw, k);
    }
}

/// A value that is empty or all whitespace is recorded as no answer under its key,
/// whether or not a field declares that key.
pub proof fn lemma_blank_value_absent(
    fields: Seq<FieldDef>,
    raw: Seq<(String, String)>,
    j: int,
    i: int,
)
    requires
        keys_distinct(raw),
        0 <= j < raw.len(),
        trimmed(raw[j].1@).len() == 0,
        0 <= i < normalized(fields, raw).len(),
        normalized(fields, raw)[i].0 == raw[j].0@,
    ensures
        normalized(fields, raw)[i].1 is None,
{
    let n = normalized(fields, raw);
    lemma_answer_for_unique(raw, j);
    if i >= fields.len() {
        let k = i - fields.len();
        assert(n[i] == extra_answers(fields, raw)[k]);
        lemma_extra_source(fields, raw, k);
        let jj = choose|jj: int|
            0 <= jj < raw.len() && extra_answers(fields, raw)[k] == (
            #[trigger] raw[jj].0@,
            clean(raw[jj].1@),
        );
        assert(jj == j);
    }
}

} // verus!
