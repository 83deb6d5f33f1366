use must::jah_mut::{JahMut, JahMutAdmin, JahMutToDo};
use must::json::{Json, JsonObject};

fn s(v: &str) -> String {
    v.to_string()
}

#[test]
fn test_insert_or_update() {
    let mut jm = JahMut::connect_new();
    jm.admin(JahMutAdmin::InsertOrUpdate(s("is"), Json::String(s("ought"))));
    match jm.get_json(s("is")) {
        Some(val) => match val {
            Json::String(val) => assert!(val == "ought"),
            _ => panic!("a string was stored"),
        },
        _ => panic!("a value was stored"),
    }
    jm.admin(JahMutAdmin::InsertOrUpdate(s("is"), Json::String(s("not"))));
    match jm.get_json(s("is")) {
        Some(val) => match val {
            Json::String(val) => assert!(val == "not"),
            _ => panic!("a string was stored"),
        },
        _ => panic!("a value was stored"),
    }
    assert!(jm.admin(JahMutAdmin::Release));
}

#[test]
fn test_data_conversions() {
    let mut jm = JahMut::connect_new();
    jm.admin(JahMutAdmin::InsertOrUpdate(s("is"), Json::String(s("ought"))));
    match jm.get_str(s("is")) {
        Some(val) => assert!(val == "ought"),
        _ => panic!("a string was stored"),
    }
    match jm.get_float(s("is")) {
        Some(_) => panic!("a string is not a number"),
        _ => {},
    }
    jm.admin(JahMutAdmin::InsertOrUpdate(s("answer"), Json::Number(42)));
    match jm.get_float(s("answer")) {
        Some(answer) => assert!(answer == 42),
        _ => panic!("a number was stored"),
    }
    jm.admin(JahMutAdmin::InsertOrUpdate(s("desert"), Json::Boolean(true)));
    match jm.get_bool(s("desert")) {
        Some(desert) => assert!(desert),
        _ => panic!("a bool was stored"),
    }
    jm.admin(JahMutAdmin::InsertOrUpdate(s("desert"), Json::Boolean(false)));
    match jm.get_bool(s("desert")) {
        Some(desert) => assert!(!desert),
        _ => panic!("a bool was stored"),
    }
    assert!(jm.admin(JahMutAdmin::Release));
}

#[test]
fn test_remove() {
    let mut jm = JahMut::connect_new();
    jm.admin(JahMutAdmin::InsertOrUpdate(s("is"), Json::String(s("ought"))));
    match jm.get_json(s("is")) {
        Some(val) => match val {
            Json::String(val) => assert!(val == "ought"),
            _ => panic!("a string was stored"),
        },
        _ => panic!("a value was stored"),
    }
    jm.admin(JahMutAdmin::Remove(s("is")));
    match jm.get_json(s("is")) {
        None => assert!(true),
        _ => panic!("the value was removed"),
    }
    assert!(jm.admin(JahMutAdmin::Release));
}

#[test]
fn test_get_map() {
    let mut jm = JahMut::connect_new();
    jm.admin(JahMutAdmin::InsertOrUpdate(s("is"), Json::String(s("ought"))));
    match jm.get_json(s("is")) {
        Some(val) => match val {
            Json::String(val) => assert!(val == "ought"),
            _ => panic!("a string was stored"),
        },
        _ => panic!("a value was stored"),
    }
    match jm.get_map_copy() {
        Some(map) => match map.get(&s("is")) {
            Some(val) => match val {
                Json::String(st) => assert!(st == "ought"),
                _ => panic!("a string was stored"),
            },
            None => panic!("the copy holds the value"),
        },
        _ => panic!("the map is served"),
    }
    assert!(jm.admin(JahMutAdmin::Release));
}

#[test]
fn jah_mut_load_map_replaces_everything() {
    let mut jm = JahMut::connect_new();
    jm.admin(JahMutAdmin::InsertOrUpdate(s("old"), Json::Boolean(true)));
    let mut fresh = JsonObject::new();
    fresh.insert(s("new"), Json::Number(7));
    assert!(!jm.admin(JahMutAdmin::LoadMap(fresh)));
    assert!(jm.get_json(s("old")).is_none());
    assert_eq!(jm.get_float(s("new")), Some(7));
}

#[test]
fn jah_mut_serves_admin_orders_first() {
    assert_eq!(JahMut::to_do(true, true), vec![JahMutToDo::RecvAdminPort, JahMutToDo::RecvUserPort]);
    assert_eq!(JahMut::to_do(false, true), vec![JahMutToDo::RecvUserPort]);
    assert_eq!(JahMut::to_do(true, false), vec![JahMutToDo::RecvAdminPort]);
    assert_eq!(JahMut::to_do(false, false), vec![JahMutToDo::JahMutYield]);
}

#[test]
fn jah_mut_reads_give_the_last_write() {
    let mut jm = JahMut::connect_new();
    assert!(!jm.admin(JahMutAdmin::InsertOrUpdate(s("a"), Json::Number(1))));
    assert!(!jm.admin(JahMutAdmin::InsertOrUpdate(s("b"), Json::Number(2))));
    assert!(!jm.admin(JahMutAdmin::Remove(s("a"))));
    assert!(!jm.admin(JahMutAdmin::InsertOrUpdate(s("b"), Json::Number(3))));
    assert!(!jm.admin(JahMutAdmin::Remove(s("zzz"))));
    assert!(jm.get_json(s("a")).is_none());
    assert_eq!(jm.get_float(s("b")), Some(3));
    // a release changes nothing in the map
    assert!(jm.admin(JahMutAdmin::Release));
    assert_eq!(jm.get_float(s("b")), Some(3));
}
