use must::jah_args::{GetArgErrorType, JahArgs};
use must::json::{Json, JsonObject};

fn num(n: i64) -> Json {
    Json::Number(n)
}

#[test]
fn test_has_arg() {
    let mut map = JsonObject::new();
    map.insert("test_arg".to_string(), num(1));
    let args = JahArgs::new(map);
    assert!(args.has_arg(&"test_arg".to_string()) && !args.has_arg(&"missing_arg".to_string()));
}

#[test]
fn test_arg_count() {
    let mut map = JsonObject::new();
    map.insert("test_arg".to_string(), num(1));
    let args = JahArgs::new(map);
    assert!(args.arg_count() == 1);
}

#[test]
fn test_json_arg() {
    let mut map = JsonObject::new();
    map.insert("test_arg".to_string(), num(1));
    let args = JahArgs::new(map);
    match args.get_json_val("test_arg".to_string()) {
        Some(_) => assert!(true),
        None => panic!("test_arg is there"),
    }
    match args.get_json_val("test_missing_arg".to_string()) {
        Some(_) => panic!("test_missing_arg is not there"),
        None => assert!(true),
    }
}

#[test]
fn test_arg_keys() {
    let mut map = JsonObject::new();
    map.insert("test_arg_1".to_string(), num(1));
    map.insert("test_arg_2".to_string(), num(2));
    let args = JahArgs::new(map);
    let arg_keys = args.arg_keys();
    assert!(arg_keys.len() == 2);
    for key in arg_keys.iter() {
        assert!(key == "test_arg_1" || key == "test_arg_2");
    }
}

#[test]
fn test_string_arg() {
    let mut map = JsonObject::new();
    map.insert("test_str".to_string(), Json::String("hello world".to_string()));
    map.insert("test_not_str".to_string(), num(100));
    let args = JahArgs::new(map);
    match args.get_str("test_str".to_string()) {
        Ok(val) => assert!("hello world" == val),
        Err(_) => panic!("test_str is a string"),
    }
    match args.get_str("test_not_str".to_string()) {
        Ok(_) => panic!("test_not_str is not a string"),
        Err(err) => match err {
            GetArgErrorType::WrongDataType => assert!(true),
            GetArgErrorType::MissingKey => panic!("test_not_str is there"),
        },
    }
    match args.get_str("test_not_there".to_string()) {
        Ok(_) => panic!("test_not_there is not there"),
        Err(err) => match err {
            GetArgErrorType::WrongDataType => panic!("test_not_there is not there"),
            GetArgErrorType::MissingKey => assert!(true),
        },
    }
}

#[test]
fn test_number_arg() {
    let mut map = JsonObject::new();
    map.insert("test_float".to_string(), num(100));
    map.insert("test_not_float".to_string(), Json::Boolean(true));
    let args = JahArgs::new(map);
    match args.get_float("test_float".to_string()) {
        Ok(val) => assert!(100 == val),
        Err(_) => panic!("test_float is a number"),
    }
    match args.get_float("test_not_float".to_string()) {
        Ok(_) => panic!("test_not_float is not a number"),
        Err(err) => match err {
            GetArgErrorType::WrongDataType => assert!(true),
            GetArgErrorType::MissingKey => panic!("test_not_float is there"),
        },
    }
    match args.get_float("test_not_there".to_string()) {
        Ok(_) => panic!("test_not_there is not there"),
        Err(err) => match err {
            GetArgErrorType::WrongDataType => panic!("test_not_there is not there"),
            GetArgErrorType::MissingKey => assert!(true),
        },
    }
}

#[test]
fn test_object_arg() {
    let mut map = JsonObject::new();
    let mut obj = JsonObject::new();
    obj.insert("test_key".to_string(), Json::Boolean(true));
    map.insert("test_object".to_string(), Json::Object(obj));
    map.insert("test_not_object".to_string(), Json::Boolean(true));
    let args = JahArgs::new(map);
    match args.get_map("test_object".to_string()) {
        Ok(val) => match JahArgs::new(val).get_bool("test_key".to_string()) {
            Ok(bval) => assert!(bval),
            Err(_) => panic!("test_key is a bool"),
        },
        Err(_) => panic!("test_object is an object"),
    }
    match args.get_map("test_not_object".to_string()) {
        Ok(_) => panic!("test_not_object is not an object"),
        Err(err) => match err {
            GetArgErrorType::WrongDataType => assert!(true),
            GetArgErrorType::MissingKey => panic!("test_not_object is there"),
        },
    }
    match args.get_map("test_not_there".to_string()) {
        Ok(_) => panic!("test_not_there is not there"),
        Err(err) => match err {
            GetArgErrorType::WrongDataType => panic!("test_not_there is not there"),
            GetArgErrorType::MissingKey => assert!(true),
        },
    }
}

#[test]
fn test_boolean_arg() {
    let mut map = JsonObject::new();
    map.insert("test_true".to_string(), Json::Boolean(true));
    map.insert("test_false".to_string(), Json::Boolean(false));
    map.insert("test_not_bool".to_string(), num(0));
    let args = JahArgs::new(map);
    match args.get_bool("test_true".to_string()) {
        Ok(val) => assert!(val),
        Err(_) => panic!("test_true is a bool"),
    }
    match args.get_bool("test_false".to_string()) {
        Ok(val) => assert!(!val),
        Err(_) => panic!("test_false is a bool"),
    }
    match args.get_bool("test_not_bool".to_string()) {
        Ok(_) => panic!("test_not_bool is not a bool"),
        Err(err) => match err {
            GetArgErrorType::WrongDataType => assert!(true),
            GetArgErrorType::MissingKey => panic!("test_not_bool is there"),
        },
    }
    match args.get_bool("test_not_there".to_string()) {
        Ok(_) => panic!("test_not_there is not there"),
        Err(err) => match err {
            GetArgErrorType::WrongDataType => panic!("test_not_there is not there"),
            GetArgErrorType::MissingKey => assert!(true),
        },
    }
}

#[test]
fn test_list_arg() {
    let mut map = JsonObject::new();
    let list = vec![num(1), Json::Boolean(false)];
    map.insert("test_list".to_string(), Json::List(list));
    map.insert("test_not_list".to_string(), Json::Boolean(true));
    let args = JahArgs::new(map);
    match args.get_list("test_list".to_string()) {
        Ok(val) => match val[0] {
            Json::Number(f) => assert!(f == 1),
            _ => panic!("the first member is a number"),
        },
        Err(_) => panic!("test_list is a list"),
    }
    match args.get_list("test_not_list".to_string()) {
        Ok(_) => panic!("test_not_list is not a list"),
        Err(err) => match err {
            GetArgErrorType::WrongDataType => assert!(true),
            GetArgErrorType::MissingKey => panic!("test_not_list is there"),
        },
    }
    match args.get_list("test_not_there".to_string()) {
        Ok(_) => panic!("test_not_there is not there"),
        Err(err) => match err {
            GetArgErrorType::WrongDataType => panic!("test_not_there is not there"),
            GetArgErrorType::MissingKey => assert!(true),
        },
    }
}

#[test]
fn jah_args_to_str_is_pretty_json() {
    let mut map = JsonObject::new();
    map.insert("a".to_string(), num(1));
    let args = JahArgs::new(map);
    assert_eq!(args.to_str(), "{\n  \"a\": 1\n}");
}
