use form_generator::answers::{clean_value, declares, lookup_answer, normalize, normalize_answers};
use form_generator::config::{build_form, AppConfig};
use form_generator::field::FieldDef;
use form_generator::record::{ResponseEntry, Timestamp};
use form_generator::store::{append_submission, prior_entries, StoreContent, StoreError};

fn field(name: &str) -> FieldDef {
    FieldDef {
        name: name.to_string(),
        title: name.to_string(),
        description: String::new(),
        answer_type: "text".to_string(),
        html_before: None,
        html_after: None,
        options: None,
    }
}

fn form(names: &[&str]) -> AppConfig {
    build_form(None, "Form".to_string(), "Send".to_string(), names.iter().map(|n| field(n)).collect())
        .expect("valid form")
}

fn pairs(p: &[(&str, &str)]) -> Vec<(String, String)> {
    p.iter().map(|(k, v)| (k.to_string(), v.to_string())).collect()
}

fn answer(k: &str, v: Option<&str>) -> (String, Option<String>) {
    (k.to_string(), v.map(|s| s.to_string()))
}

fn entry(secs: i64, answers: Vec<(String, Option<String>)>) -> ResponseEntry {
    ResponseEntry { timestamp: Timestamp { secs, nanos: 0 }, answers }
}

#[test]
fn clean_value_trims() {
    assert_eq!(clean_value("  yes \n"), Some("yes".to_string()));
    assert_eq!(clean_value("a b"), Some("a b".to_string()));
}

#[test]
fn clean_value_blank_is_absent() {
    assert_eq!(clean_value(""), None);
    assert_eq!(clean_value(" \t\n "), None);
}

#[test]
fn lookup_finds_key() {
    let raw = pairs(&[("a", " 1 "), ("b", "2")]);
    assert_eq!(lookup_answer(&raw, &"a".to_string()), Some("1".to_string()));
    assert_eq!(lookup_answer(&raw, &"c".to_string()), None);
}

#[test]
fn declares_matches_exact_name() {
    let fields = vec![field("q1"), field("q2")];
    assert!(declares(&fields, &"q2".to_string()));
    assert!(!declares(&fields, &"q3".to_string()));
}

#[test]
fn normalize_blank_declared_and_extra_key() {
    let cfg = form(&["q1"]);
    let r = normalize_answers(&cfg.fields, &pairs(&[("q1", "  "), ("extra", "hi")]));
    assert_eq!(r, vec![answer("q1", None), answer("extra", Some("hi"))]);
}

#[test]
fn normalize_declared_first_in_declaration_order() {
    let cfg = form(&["b", "a", "c"]);
    let r = normalize_answers(&cfg.fields, &pairs(&[("x", "1"), ("a", " A "), ("b", "B"), ("y", "")]));
    assert_eq!(
        r,
        vec![
            answer("b", Some("B")),
            answer("a", Some("A")),
            answer("c", None),
            answer("x", Some("1")),
            answer("y", None),
        ]
    );
}

#[test]
fn normalize_keeps_every_key() {
    let cfg = form(&["q1", "q2"]);
    let raw = pairs(&[("q2", "x"), ("z", "  "), ("w", "v")]);
    let r = normalize_answers(&cfg.fields, &raw);
    for (k, _) in &raw {
        assert!(r.iter().any(|(rk, _)| rk == k), "key {k} dropped");
    }
    assert!(r.iter().all(|(_, v)| v.as_deref() != Some("")));
}

#[test]
fn normalize_empty_submission() {
    let cfg = form(&["q1"]);
    assert_eq!(normalize_answers(&cfg.fields, &vec![]), vec![answer("q1", None)]);
    let empty = form(&[]);
    assert_eq!(normalize_answers(&empty.fields, &vec![]), vec![]);
}

#[test]
fn normalize_stamps_current_time() {
    let cfg = form(&["q1"]);
    let e = normalize(&cfg, &pairs(&[("q1", "yes")]));
    assert_eq!(e.answers, vec![answer("q1", Some("yes"))]);
    assert!(e.timestamp.secs > 1_600_000_000);
}

#[test]
fn store_absent_then_one_submission() {
    let cfg = form(&["q1"]);
    let e = normalize(&cfg, &pairs(&[("q1", "yes")]));
    let written = append_submission(StoreContent::Missing, e).expect("append");
    assert_eq!(written.len(), 1);
    assert_eq!(written[0].answers, vec![answer("q1", Some("yes"))]);
}

#[test]
fn store_appends_in_order() {
    let a = entry(1, vec![answer("q", Some("a"))]);
    let b = entry(2, vec![answer("q", Some("b"))]);
    let old = entry(0, vec![answer("q", None)]);
    let first = append_submission(StoreContent::Entries(vec![old.clone()]), a.clone()).unwrap();
    let second = append_submission(StoreContent::Entries(first), b.clone()).unwrap();
    assert_eq!(second, vec![old, a, b]);
}

#[test]
fn store_many_appends_none_lost() {
    let mut stored = StoreContent::Missing;
    for i in 0..10 {
        let written = append_submission(stored, entry(i, vec![])).unwrap();
        stored = StoreContent::Entries(written);
    }
    match stored {
        StoreContent::Entries(v) => {
            let secs: Vec<i64> = v.iter().map(|e| e.timestamp.secs).collect();
            assert_eq!(secs, (0..10).collect::<Vec<i64>>());
        }
        other => panic!("unexpected {other:?}"),
    }
}

#[test]
fn store_corrupt_counts_as_empty() {
    let e = entry(5, vec![answer("q", Some("x"))]);
    assert_eq!(append_submission(StoreContent::Corrupt, e.clone()), Ok(vec![e]));
    assert_eq!(prior_entries(StoreContent::Corrupt), Ok(vec![]));
}

#[test]
fn store_unreadable_fails() {
    let e = entry(5, vec![]);
    assert_eq!(append_submission(StoreContent::Unreadable, e), Err(StoreError::Read));
    assert_eq!(prior_entries(StoreContent::Unreadable), Err(StoreError::Read));
}

#[test]
fn store_missing_is_empty() {
    assert_eq!(prior_entries(StoreContent::Missing), Ok(vec![]));
}
