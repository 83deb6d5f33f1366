use must::bootstrap::Bootstrap;
use must::jah_args::JahArgs;
use must::jah_spec::{ArgRules, JahSpec};
use must::json::{Json, JsonObject};

fn s(v: &str) -> String {
    v.to_string()
}

fn first_rule_key(spec: &JahSpec, args: &JsonObject) -> String {
    match spec.check_args(&JahArgs::new(args.deep_copy())) {
        Ok(_) => panic!("the args break the spec"),
        Err(errs) => match ArgRules::get_rule_key(errs[0].deep_copy()) {
            Ok(key) => key,
            Err(_) => panic!("the error names its rule"),
        },
    }
}

fn passes(spec: &JahSpec, args: &JsonObject) -> bool {
    spec.check_args(&JahArgs::new(args.deep_copy())).is_ok()
}

fn must_args() -> JsonObject {
    let mut must_args = JsonObject::new();
    must_args.insert(s("key"), Json::String(s("bxHy5TuY3TsJzMdC")));
    must_args.insert(s("sec"), Json::Number(1_400_000_000));
    must_args.insert(s("nsec"), Json::Number(123));
    must_args
}

#[test]
fn test_must_spec() {
    assert!(passes(&JahSpec::new(Bootstrap::spec_must()), &must_args()));
}

#[test]
fn test_missing_arg() {
    let mut args = must_args();
    args.remove(&s("nsec"));
    assert!(first_rule_key(&JahSpec::new(Bootstrap::spec_must()), &args) == Bootstrap::arg_rule_key_arg_must_exist());
}

#[test]
fn test_extra_arg() {
    let mut args = must_args();
    args.insert(s("extra_arg"), Json::Number(123));
    match JahSpec::new(Bootstrap::spec_must()).check_args(&JahArgs::new(args)) {
        Ok(_) => panic!("the extra arg is not allowed"),
        Err(errs) => assert!(JahArgs::new(errs[0].deep_copy()).get_str(s("rule_key")).is_ok()),
    }
}

/// A spec with one required and one optional arg, both under the rule `rule`.
fn typed_spec(required: &str, optional: &str, rule: JsonObject) -> JahSpec {
    let mut allowed = JsonObject::new();
    allowed.insert(s(required), Json::List(vec![Json::Object(Bootstrap::arg_rule_arg_must_exist()), Json::Object(rule.deep_copy())]));
    allowed.insert(s(optional), Json::List(vec![Json::Object(rule)]));
    let mut spec_map = JsonObject::new();
    spec_map.insert(s("spec_key"), Json::String(s("Y79369vsP8sFfLss")));
    spec_map.insert(s("allowed"), Json::Object(allowed));
    JahSpec::new(spec_map)
}

fn typed_rules(required: &str, optional: &str, rule: JsonObject, good: fn() -> Json, bad: Json, rule_key: String) {
    let spec = typed_spec(required, optional, rule);
    // supply the minimum info to pass
    let mut arg_map = JsonObject::new();
    arg_map.insert(s(required), good());
    assert!(passes(&spec, &arg_map));
    // make sure non-required args are still allowed
    arg_map.insert(s(optional), good());
    assert!(passes(&spec, &arg_map));
    // make sure the required arg is required and returns the right error
    arg_map.remove(&s(required));
    assert!(first_rule_key(&spec, &arg_map) == Bootstrap::arg_rule_key_arg_must_exist());
    // check for wrong type and correct error
    arg_map.remove(&s(optional));
    arg_map.insert(s(optional), bad);
    assert!(first_rule_key(&spec, &arg_map) == rule_key);
}

#[test]
fn test_number_rules() {
    typed_rules(
        "num_required_key",
        "str_not_required_key",
        Bootstrap::arg_rule_num_must_be_number(),
        || Json::Number(1),
        Json::Boolean(true),
        Bootstrap::arg_rule_arg_key_arg_must_be_number(),
    );
}

#[test]
fn test_string_rules() {
    typed_rules(
        "str_required_key",
        "str_not_required_key",
        Bootstrap::arg_rule_arg_must_be_string(),
        || Json::String(s("test")),
        Json::Boolean(true),
        Bootstrap::arg_rule_key_arg_key_must_be_string(),
    );
}

#[test]
fn test_list_rules() {
    typed_rules(
        "list_required_key",
        "list_not_required_key",
        Bootstrap::arg_rule_arg_must_be_a_list(),
        || Json::List(Vec::new()),
        Json::Boolean(true),
        Bootstrap::arg_rule_key_arg_must_be_list(),
    );
}

#[test]
fn test_object_rules() {
    typed_rules(
        "obj_required_key",
        "obj_not_required_key",
        Bootstrap::arg_rule_obj_must_be_object(),
        || Json::Object(JsonObject::new()),
        Json::Boolean(true),
        Bootstrap::arg_rule_key_arg_must_be_object(),
    );
}

#[test]
fn test_bool_rules() {
    typed_rules(
        "bool_required_key",
        "bool_not_required_key",
        Bootstrap::arg_rule_arg_must_be_a_bool(),
        || Json::Boolean(true),
        Json::Number(1),
        Bootstrap::arg_rule_key_arg_must_be_bool(),
    );
}

#[test]
fn zero_condition_spec() {
    let zero_spec = JahSpec::new(JsonObject::new());
    assert!(first_rule_key(&zero_spec, &JsonObject::new()) == Bootstrap::arg_rule_key_arg_must_exist());
}

#[test]
fn zero_length_list_allowed_args() {
    // the allowed list is empty, and the arg list is empty
    let mut map = JsonObject::new();
    map.insert(s("allowed"), Json::Object(JsonObject::new()));
    map.insert(s("spec_key"), Json::String(s("KNexOJI1uttMf7qe")));
    let spec = JahSpec::new(map);
    assert!(passes(&spec, &JsonObject::new()));
    // the allowed list is empty and an arg is supplied
    let mut map2 = JsonObject::new();
    map2.insert(s("little_ol_me"), Json::Number(1));
    assert!(first_rule_key(&spec, &map2) == Bootstrap::arg_rule_key_arg_is_not_allowed());
}

#[test]
fn spec_missing_must_key() {
    let mut map = JsonObject::new();
    map.insert(s("allowed"), Json::List(Vec::new()));
    let spec = JahSpec::new(map);
    assert!(first_rule_key(&spec, &JsonObject::new()) == Bootstrap::arg_rule_key_arg_must_exist());
}
