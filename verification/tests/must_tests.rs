use must::json::{Json, JsonObject};
use must::must::{eq_must, Must};

#[allow(non_snake_case)]
#[test]
fn test_Ord_Eq() {
    // Make a new Must for adding a new document
    let must1 = Must::new_must();
    // Make a new Must for a new version of an existing document
    let must2 = Must::stamped_must(must1.key.clone());
    // The newest documents should be less than the older one
    assert!(must2 < must1 && must2 <= must1 && must1 > must2 && must1 >= must2);
    // Make a new Must from existing information
    let must3 = Must::copied_must(must2.key.clone(), must2.sec, must2.nsec);
    // Make sure that a copied Must is equal to the Must that is copied.
    assert!(must3 == must2 && must3 != must1);
}

#[test]
fn test_to_str() {
    let must = Must::new_must();
    // Make sure the key, sec and nsec values are always contained in to_str()
    let text = must.to_str();
    assert!(text.contains(&must.key) && text.contains(&must.sec.to_string()) && text.contains(&must.nsec.to_string()));
}

#[test]
fn test_from_json_and_to_json() {
    let m = Must::new_must();
    let j = m.to_json();
    match Must::from_json(j) {
        Ok(val) => assert!(m == val),
        Err(_) => panic!("a Must reads back from its JSON"),
    }
}

#[test]
fn new_must_key_is_sixteen_alphanumerics() {
    let m = Must::new_must();
    assert_eq!(m.key.chars().count(), 16);
    assert!(m.key.chars().all(|c| c.is_ascii_alphanumeric()));
    assert!(m.sec > 0 && m.nsec >= 0 && m.nsec < 1_000_000_000);
    // two new Musts get different keys
    assert!(Must::new_must().key != m.key);
}

#[test]
fn must_order_is_by_key_then_newest_first() {
    let a = Must::copied_must("a".to_string(), 5, 0);
    let b = Must::copied_must("b".to_string(), 1, 0);
    assert!(a < b);
    let newer = Must::copied_must("k".to_string(), 10, 1);
    let older = Must::copied_must("k".to_string(), 10, 0);
    assert!(newer < older);
    let oldest = Must::copied_must("k".to_string(), 9, 999);
    assert!(older < oldest);
    assert!(eq_must(&older, &Must::copied_must("k".to_string(), 10, 0)));
    assert!(!eq_must(&older, &newer));
}

#[test]
fn must_to_str_text() {
    let m = Must::copied_must("abc".to_string(), 12, 34);
    assert_eq!(m.to_str(), "abc-12-34");
}

#[test]
fn must_from_obj_errors() {
    let mut o = JsonObject::new();
    o.insert("sec".to_string(), Json::Number(1));
    let errs = match Must::from_obj(o) {
        Err(e) => e,
        Ok(_) => panic!("a Must needs a key"),
    };
    assert_eq!(errs.len(), 1);
    assert!(matches!(errs[0].get(&"line_key".to_string()), Some(Json::String(s)) if s == "ziVrdrQE6xeIjDLj"));
    let mut o = JsonObject::new();
    o.insert("key".to_string(), Json::String("k".to_string()));
    o.insert("sec".to_string(), Json::Boolean(true));
    let errs = match Must::from_obj(o) {
        Err(e) => e,
        Ok(_) => panic!("sec must be a number"),
    };
    assert!(matches!(errs[0].get(&"line_key".to_string()), Some(Json::String(s)) if s == "WDmdBc78ERtcJaZC"));
    let errs = match Must::from_json(Json::Boolean(false)) {
        Err(e) => e,
        Ok(_) => panic!("a Must is an object"),
    };
    assert!(matches!(errs[0].get(&"line_key".to_string()), Some(Json::String(s)) if s == "Q7wOoPiMNJ6xgqL1"));
}

#[test]
fn must_from_obj_saturates_nsec() {
    let mut o = JsonObject::new();
    o.insert("key".to_string(), Json::String("k".to_string()));
    o.insert("sec".to_string(), Json::Number(1));
    o.insert("nsec".to_string(), Json::Number(5_000_000_000));
    let m = Must::from_obj(o).ok().unwrap();
    assert_eq!(m.nsec, i32::MAX);
}

#[test]
fn must_from_reading_after_the_epoch() {
    let m = Must::must_from_reading("k".to_string(), Ok((5, 7)));
    assert_eq!((m.key.as_str(), m.sec, m.nsec), ("k", 5, 7));
    let m = Must::must_from_reading("k".to_string(), Ok((u64::MAX, 0)));
    assert_eq!((m.sec, m.nsec), (i64::MAX, 0));
}

#[test]
fn must_from_reading_before_the_epoch() {
    // a quarter second more than one second before the epoch
    let m = Must::must_from_reading("k".to_string(), Err((1, 250_000_000)));
    assert_eq!((m.sec, m.nsec), (-2, 750_000_000));
    let m = Must::must_from_reading("k".to_string(), Err((3, 0)));
    assert_eq!((m.sec, m.nsec), (-3, 0));
    let m = Must::must_from_reading("k".to_string(), Err((u64::MAX, 1)));
    assert_eq!((m.sec, m.nsec), (-i64::MAX, 999_999_999));
    assert_eq!(Must::must_from_reading("k".to_string(), Err((1, 250_000_000))).to_str(), "k--2-750000000");
}

#[test]
fn new_musts_are_stamped_now() {
    let m = Must::new_must();
    assert_eq!(m.key.len(), 16);
    assert!(m.key.chars().all(|c| c.is_ascii_alphanumeric()));
    assert!(m.sec > 1_600_000_000);
    assert!(0 <= m.nsec && m.nsec < 1_000_000_000);
    let s = Must::stamped_must(m.key.clone());
    assert_eq!(s.key, m.key);
    assert!(s.sec >= m.sec);
}
