//! JahSpec: a JSON document that says which named arguments are allowed for
//! a task, which of them are required, and which static rules (type checks)
//! apply to each.  `check_args` enforces a spec on a set of arguments and
//! reports every violation as an error document.
use vstd::prelude::*;
use crate::json::{
    Json, JsonObject, JsonV, lookup, has_key, keys_unique, obj_keys, list_view, lemma_key_index,
};
use crate::jah_args::{JahArgs, GetArgErrorType, Args, str_arg, map_arg, list_arg};
use crate::bootstrap::{
    Bootstrap, objs_view, spec_rule_error_v, reply_error_trace_info_v, jah_spec_spec_key_v,
    jah_corrupted_spec_key_v, spec_rule_spec_key_v, arg_rule_key_arg_must_exist_v,
    arg_rule_key_arg_key_must_be_string_v, arg_rule_key_arg_must_be_object_v,
    arg_rule_arg_key_arg_must_be_number_v, arg_rule_key_arg_must_be_list_v,
    arg_rule_key_arg_must_be_bool_v, arg_rule_key_arg_is_not_allowed_v,
    arg_rule_key_rule_must_be_implemented_v, rules2_v, rule_v,
};

verus! {

pub type Errs = Seq<Seq<(Seq<char>, JsonV)>>;

/// The trace info that this module adds when it passes errors on.
pub open spec fn trace_v(line: &str) -> Args {
    reply_error_trace_info_v("jah_spec.rs"@, line@)
}

/// A one-error list reporting that `arg` broke rule `rk`.
pub open spec fn rerr(rk: Seq<char>, arg: Seq<char>, sk: Seq<char>, line: &str) -> Errs {
    seq![spec_rule_error_v(rk, arg, sk, line@, "jah_spec.rs"@)]
}

/// The key of a spec, or the corrupted-spec key where it has none.
pub open spec fn spec_key_of(spec: Args) -> Seq<char> {
    match str_arg(spec, "spec_key"@) {
        Ok(k) => k,
        Err(_) => jah_corrupted_spec_key_v(),
    }
}

/// The first member of `spec`, from `i` on, that a spec may not have.
pub open spec fn extra_member_from(spec: Args, i: int) -> Result<(), Errs>
    decreases spec.len() - i,
{
    if i < 0 || i >= spec.len() {
        Ok(())
    } else if !(spec[i].0 == "spec_key"@ || spec[i].0 == "allowed"@) {
        Err(rerr(arg_rule_key_arg_is_not_allowed_v(), spec[i].0, jah_spec_spec_key_v(), "yTI6O36SdlSKrlVV"))
    } else {
        extra_member_from(spec, i + 1)
    }
}

/// A spec has a string `spec_key` and no members but `spec_key` and `allowed`.
pub open spec fn check_spec_v(spec: Args) -> Result<(), Errs> {
    match str_arg(spec, "spec_key"@) {
        Err(GetArgErrorType::MissingKey) => Err(
            rerr(arg_rule_key_arg_must_exist_v(), "spec_key"@, jah_spec_spec_key_v(), "a5q3rNiRtXeoO9Wj"),
        ),
        Err(GetArgErrorType::WrongDataType) => Err(
            rerr(arg_rule_key_arg_key_must_be_string_v(), "spec_key"@, jah_spec_spec_key_v(), "EkhF0tz8VkQdmZL9"),
        ),
        Ok(_) => if spec.len() != 2 {
            extra_member_from(spec, 0)
        } else {
            Ok(())
        },
    }
}

/// The `allowed` object of a spec.
pub open spec fn get_allowed_v(spec: Args) -> Result<Args, Errs> {
    match map_arg(spec, "allowed"@) {
        Ok(a) => Ok(a),
        Err(GetArgErrorType::MissingKey) => Err(
            rerr(arg_rule_key_arg_must_exist_v(), "allowed"@, spec_key_of(spec), "4QRHmXsoKu1sWGVl"),
        ),
        Err(GetArgErrorType::WrongDataType) => Err(
            rerr(arg_rule_key_arg_must_be_list_v(), "allowed"@, spec_key_of(spec), "GfJyy8rO1hTvM0gs"),
        ),
    }
}

/// The key that names a rule.
pub open spec fn rule_key_v(rule: Args) -> Result<Seq<char>, Errs> {
    match str_arg(rule, "rule_key"@) {
        Ok(k) => Ok(k),
        Err(GetArgErrorType::MissingKey) => Err(
            rerr(arg_rule_key_arg_must_exist_v(), "rule_key"@, spec_rule_spec_key_v(), "spDzbsBn37HorqMZ"),
        ),
        Err(GetArgErrorType::WrongDataType) => Err(
            rerr(arg_rule_key_arg_key_must_be_string_v(), "rule_key"@, spec_rule_spec_key_v(), "pxLJQ3RhHm5ls4YF"),
        ),
    }
}

/// The outcome of one rule on the value of the arg `arg_key`.
pub open spec fn do_rule_v(arg_key: Seq<char>, rule: Args, val: JsonV, sk: Seq<char>) -> Result<(), Errs> {
    match rule_key_v(rule) {
        Ok(rk) => if rk == arg_rule_key_arg_must_exist_v() {
            Ok(())
        } else if rk == arg_rule_key_arg_key_must_be_string_v() {
            if val is Str { Ok(()) } else { Err(rerr(arg_rule_key_arg_key_must_be_string_v(), arg_key, sk, "bRRoirXHglnOzRza")) }
        } else if rk == arg_rule_key_arg_must_be_object_v() {
            if val is Object { Ok(()) } else { Err(rerr(arg_rule_key_arg_must_be_object_v(), arg_key, sk, "Qh6CpHMpGthIFStr")) }
        } else if rk == arg_rule_arg_key_arg_must_be_number_v() {
            if val is Number { Ok(()) } else { Err(rerr(arg_rule_arg_key_arg_must_be_number_v(), arg_key, sk, "ENt7F21pgLrisdgX")) }
        } else if rk == arg_rule_key_arg_must_be_list_v() {
            if val is List { Ok(()) } else { Err(rerr(arg_rule_key_arg_must_be_list_v(), arg_key, sk, "3quUP5sSihzrSikm")) }
        } else if rk == arg_rule_key_arg_must_be_bool_v() {
            if val is Boolean { Ok(()) } else { Err(rerr(arg_rule_key_arg_must_be_bool_v(), arg_key, sk, "uBORM4dQ7ovO5own")) }
        } else {
            Err(rerr(arg_rule_key_rule_must_be_implemented_v(), rk, sk, "OIbvlKzkmbwyYgBj"))
        },
        Err(e) => Err(e + seq![trace_v("jFlfv8NZAe1UzYF4")]),
    }
}

/// The errors of one rule on the value of the arg `arg_key`.
pub open spec fn check_rule_v(arg_key: Seq<char>, rule: JsonV, val: JsonV, sk: Seq<char>) -> Errs {
    match rule {
        JsonV::Object(ro) => match do_rule_v(arg_key, ro, val, sk) {
            Ok(_) => Seq::empty(),
            Err(e) => e + seq![trace_v("Kerw1ihlUtNhYS5w")],
        },
        _ => rerr(arg_rule_key_arg_must_be_object_v(), arg_key, jah_spec_spec_key_v(), "PhcnkCq9SzjjK3dc"),
    }
}

/// The errors of the first `n` rules of a list.
pub open spec fn check_rules_v(arg_key: Seq<char>, rules: Seq<JsonV>, val: JsonV, sk: Seq<char>, n: int) -> Errs
    decreases n,
{
    if n <= 0 {
        Seq::empty()
    } else {
        check_rules_v(arg_key, rules, val, sk, n - 1) + check_rule_v(arg_key, rules[n - 1], val, sk)
    }
}

/// The errors of one arg.
pub open spec fn arg_errors_v(key: Seq<char>, val: JsonV, allowed: Args, sk: Seq<char>) -> Errs {
    match list_arg(allowed, key) {
        Ok(l) => check_rules_v(key, l, val, sk, l.len() as int),
        Err(GetArgErrorType::MissingKey) => rerr(arg_rule_key_arg_is_not_allowed_v(), key, sk, "5uAMEPFBPxQVMTPB"),
        Err(GetArgErrorType::WrongDataType) => rerr(arg_rule_key_arg_must_be_list_v(), key, sk, "XmPUcGmkS5wqXknu"),
    }
}

/// The errors of the first `n` args.
pub open spec fn rule_list_errors_v(args: Args, allowed: Args, sk: Seq<char>, n: int) -> Errs
    decreases n,
{
    if n <= 0 {
        Seq::empty()
    } else {
        rule_list_errors_v(args, allowed, sk, n - 1) + arg_errors_v(args[n - 1].0, args[n - 1].1, allowed, sk)
    }
}

/// Whether a rule list, from position `i` on, holds the rule named `rk`.
pub open spec fn list_has_rule_v(list: Seq<JsonV>, rk: Seq<char>, i: int) -> Result<bool, Errs>
    decreases list.len() - i,
{
    if i < 0 || i >= list.len() {
        Ok(false)
    } else {
        match list[i] {
            JsonV::Object(ro) => match rule_key_v(ro) {
                Ok(k) => if k == rk {
                    Ok(true)
                } else {
                    list_has_rule_v(list, rk, i + 1)
                },
                Err(e) => Err(e + seq![trace_v("CvSaRhKZYrgqIl2q")]),
            },
            _ => Err(rerr(arg_rule_key_arg_must_be_object_v(), rk, jah_spec_spec_key_v(), "ALsKq4AAUB7E4hjR")),
        }
    }
}

/// The names, from member `i` of `allowed` on, that the spec requires.
pub open spec fn required_from_v(allowed: Args, i: int) -> Result<Seq<Seq<char>>, Errs>
    decreases allowed.len() - i,
{
    if i < 0 || i >= allowed.len() {
        Ok(Seq::empty())
    } else {
        match allowed[i].1 {
            JsonV::List(l) => match list_has_rule_v(l, arg_rule_key_arg_must_exist_v(), 0) {
                Ok(true) => match required_from_v(allowed, i + 1) {
                    Ok(rest) => Ok(seq![allowed[i].0] + rest),
                    Err(e) => Err(e),
                },
                Ok(false) => required_from_v(allowed, i + 1),
                Err(e) => Err(e + seq![trace_v("EsCOB18feSOPdIC0")]),
            },
            _ => Err(rerr(arg_rule_key_arg_must_be_list_v(), allowed[i].0, jah_spec_spec_key_v(), "BWVlZZ1zI9hRBCaJ")),
        }
    }
}

/// The names that the spec requires.
pub open spec fn required_keys_v(spec: Args) -> Result<Seq<Seq<char>>, Errs> {
    match get_allowed_v(spec) {
        Ok(a) => required_from_v(a, 0),
        Err(e) => Err(e + seq![trace_v("mwnGVUqBZIcqo0XX")]),
    }
}

/// The errors for the first `n` required names that `args` lacks.
pub open spec fn missing_errors_v(args: Args, req: Seq<Seq<char>>, sk: Seq<char>, n: int) -> Errs
    decreases n,
{
    if n <= 0 {
        Seq::empty()
    } else {
        missing_errors_v(args, req, sk, n - 1) + if has_key(args, req[n - 1]) {
            Seq::empty()
        } else {
            rerr(arg_rule_key_arg_must_exist_v(), req[n - 1], sk, "InLa9WXyftFGkD0J")
        }
    }
}

/// Every required arg is present.
pub open spec fn check_required_v(spec: Args, args: Args) -> Result<(), Errs> {
    match required_keys_v(spec) {
        Ok(req) => {
            let e = missing_errors_v(args, req, spec_key_of(spec), req.len() as int);
            if e.len() == 0 {
                Ok(())
            } else {
                Err(e)
            }
        },
        Err(e) => Err(e),
    }
}

/// The verdict of `spec` on `args`: accepted, or the errors found.
pub open spec fn check_args_v(spec: Args, args: Args) -> Result<(), Errs> {
    match check_spec_v(spec) {
        Err(e) => Err(e + seq![trace_v("s0lFEONAYynSawUd")]),
        Ok(_) => match get_allowed_v(spec) {
            Err(e) => Err(e + seq![trace_v("kmM0kE9Isb61If3j")]),
            Ok(a) => {
                let re = rule_list_errors_v(args, a, spec_key_of(spec), args.len() as int);
                if re.len() > 0 {
                    Err(re + seq![trace_v("CvSaRhKZYrgqIl2q")])
                } else {
                    match check_required_v(spec, args) {
                        Ok(_) => Ok(()),
                        Err(e) => Err(e + seq![trace_v("E4S4zOP8QKA6bm62")]),
                    }
                }
            },
        },
    }
}

// ---------------------------------------------------------------------------
// What an accepted set of args is
// ---------------------------------------------------------------------------

/// The type that the rule named `rk` demands of a value; `must_exist`
/// demands none.
pub open spec fn value_meets(rk: Seq<char>, val: JsonV) -> bool {
    ||| rk == arg_rule_key_arg_must_exist_v()
    ||| rk == arg_rule_key_arg_key_must_be_string_v() && val is Str
    ||| rk == arg_rule_key_arg_must_be_object_v() && val is Object
    ||| rk == arg_rule_arg_key_arg_must_be_number_v() && val is Number
    ||| rk == arg_rule_key_arg_must_be_list_v() && val is List
    ||| rk == arg_rule_key_arg_must_be_bool_v() && val is Boolean
}

/// A rule is an object that names an implemented rule by a string
/// `rule_key`, and the value has the type that the rule demands.
pub open spec fn rule_passes(rule: JsonV, val: JsonV) -> bool {
    match rule {
        JsonV::Object(ro) => match str_arg(ro, "rule_key"@) {
            Ok(rk) => value_meets(rk, val),
            Err(_) => false,
        },
        _ => false,
    }
}

/// The arg `key` is allowed, with a list of rules, and passes every one.
pub open spec fn arg_accepted(key: Seq<char>, val: JsonV, allowed: Args) -> bool {
    match list_arg(allowed, key) {
        Ok(l) => forall|j: int| 0 <= j < l.len() ==> #[trigger] rule_passes(l[j], val),
        Err(_) => false,
    }
}

/// A well formed spec: its key is a string, it has no members but
/// `spec_key` and `allowed`, and `allowed` is an object.
pub open spec fn spec_well_formed(spec: Args) -> bool {
    &&& str_arg(spec, "spec_key"@) is Ok
    &&& (spec.len() == 2 || forall|i: int| 0 <= i < spec.len() ==> (#[trigger] spec[i].0 == "spec_key"@ || spec[i].0 == "allowed"@))
    &&& map_arg(spec, "allowed"@) is Ok
}

proof fn lemma_extra_member(spec: Args, i: int)
    requires
        0 <= i <= spec.len(),
    ensures
        extra_member_from(spec, i) is Ok <==> forall|j: int| i <= j < spec.len() ==> (#[trigger] spec[j].0 == "spec_key"@ || spec[j].0 == "allowed"@),
        extra_member_from(spec, i) is Err ==> extra_member_from(spec, i)->Err_0.len() > 0,
    decreases spec.len() - i,
{
    if i < spec.len() {
        lemma_extra_member(spec, i + 1);
    }
}

/// The rule keys are told apart by their first character.
pub proof fn lemma_distinct_rule_keys()
    ensures
        arg_rule_key_arg_must_exist_v() != arg_rule_key_arg_key_must_be_string_v(),
        arg_rule_key_arg_must_exist_v() != arg_rule_key_arg_must_be_object_v(),
        arg_rule_key_arg_must_exist_v() != arg_rule_arg_key_arg_must_be_number_v(),
        arg_rule_key_arg_must_exist_v() != arg_rule_key_arg_must_be_list_v(),
        arg_rule_key_arg_must_exist_v() != arg_rule_key_arg_must_be_bool_v(),
        arg_rule_key_arg_key_must_be_string_v() != arg_rule_key_arg_must_be_object_v(),
        arg_rule_key_arg_key_must_be_string_v() != arg_rule_arg_key_arg_must_be_number_v(),
        arg_rule_key_arg_key_must_be_string_v() != arg_rule_key_arg_must_be_list_v(),
        arg_rule_key_arg_key_must_be_string_v() != arg_rule_key_arg_must_be_bool_v(),
        arg_rule_key_arg_must_be_object_v() != arg_rule_arg_key_arg_must_be_number_v(),
        arg_rule_key_arg_must_be_object_v() != arg_rule_key_arg_must_be_list_v(),
        arg_rule_key_arg_must_be_object_v() != arg_rule_key_arg_must_be_bool_v(),
        arg_rule_arg_key_arg_must_be_number_v() != arg_rule_key_arg_must_be_list_v(),
        arg_rule_arg_key_arg_must_be_number_v() != arg_rule_key_arg_must_be_bool_v(),
        arg_rule_key_arg_must_be_list_v() != arg_rule_key_arg_must_be_bool_v(),
{
    reveal_strlit("j60qzWM5fDYugKuh");
    reveal_strlit("rWa4heRrNWkwabbB");
    reveal_strlit("VbXnEPrAXR7EFuqV");
    reveal_strlit("SedD0iw7wRAqFNoT");
    reveal_strlit("UbtWf9jG6pOCty32");
    reveal_strlit("QjupoyKaP6yp35um");
    assert("j60qzWM5fDYugKuh"@[0] != "rWa4heRrNWkwabbB"@[0]);
    assert("j60qzWM5fDYugKuh"@[0] != "VbXnEPrAXR7EFuqV"@[0]);
    assert("j60qzWM5fDYugKuh"@[0] != "SedD0iw7wRAqFNoT"@[0]);
    assert("j60qzWM5fDYugKuh"@[0] != "UbtWf9jG6pOCty32"@[0]);
    assert("j60qzWM5fDYugKuh"@[0] != "QjupoyKaP6yp35um"@[0]);
    assert("rWa4heRrNWkwabbB"@[0] != "VbXnEPrAXR7EFuqV"@[0]);
    assert("rWa4heRrNWkwabbB"@[0] != "SedD0iw7wRAqFNoT"@[0]);
    assert("rWa4heRrNWkwabbB"@[0] != "UbtWf9jG6pOCty32"@[0]);
    assert("rWa4heRrNWkwabbB"@[0] != "QjupoyKaP6yp35um"@[0]);
    assert("VbXnEPrAXR7EFuqV"@[0] != "SedD0iw7wRAqFNoT"@[0]);
    assert("VbXnEPrAXR7EFuqV"@[0] != "UbtWf9jG6pOCty32"@[0]);
    assert("VbXnEPrAXR7EFuqV"@[0] != "QjupoyKaP6yp35um"@[0]);
    assert("SedD0iw7wRAqFNoT"@[0] != "UbtWf9jG6pOCty32"@[0]);
    assert("SedD0iw7wRAqFNoT"@[0] != "QjupoyKaP6yp35um"@[0]);
    assert("UbtWf9jG6pOCty32"@[0] != "QjupoyKaP6yp35um"@[0]);
}

proof fn lemma_check_rule(arg_key: Seq<char>, rule: JsonV, val: JsonV, sk: Seq<char>)
    ensures
        check_rule_v(arg_key, rule, val, sk).len() == 0 <==> rule_passes(rule, val),
{
    lemma_distinct_rule_keys();
}

proof fn lemma_check_rules(arg_key: Seq<char>, rules: Seq<JsonV>, val: JsonV, sk: Seq<char>, n: int)
    requires
        0 <= n <= rules.len(),
    ensures
        check_rules_v(arg_key, rules, val, sk, n).len() == 0 <==> forall|j: int| 0 <= j < n ==> #[trigger] rule_passes(rules[j], val),
    decreases n,
{
    if n > 0 {
        lemma_check_rules(arg_key, rules, val, sk, n - 1);
        lemma_check_rule(arg_key, rules[n - 1], val, sk);
        if check_rules_v(arg_key, rules, val, sk, n).len() == 0 {
            assert forall|j: int| 0 <= j < n implies #[trigger] rule_passes(rules[j], val) by {
                if j < n - 1 {
                    assert(rule_passes(rules[j], val));
                }
            }
        }
    }
}

proof fn lemma_arg_errors(key: Seq<char>, val: JsonV, allowed: Args, sk: Seq<char>)
    ensures
        arg_errors_v(key, val, allowed, sk).len() == 0 <==> arg_accepted(key, val, allowed),
{
    match list_arg(allowed, key) {
        Ok(l) => {
            lemma_check_rules(key, l, val, sk, l.len() as int);
        },
        Err(_) => {},
    }
}

proof fn lemma_rule_list_errors(args: Args, allowed: Args, sk: Seq<char>, n: int)
    requires
        0 <= n <= args.len(),
    ensures
        rule_list_errors_v(args, allowed, sk, n).len() == 0 <==> forall|i: int| 0 <= i < n ==> #[trigger] arg_accepted(args[i].0, args[i].1, allowed),
    decreases n,
{
    if n > 0 {
        lemma_rule_list_errors(args, allowed, sk, n - 1);
        lemma_arg_errors(args[n - 1].0, args[n - 1].1, allowed, sk);
        if rule_list_errors_v(args, allowed, sk, n).len() == 0 {
            assert forall|i: int| 0 <= i < n implies #[trigger] arg_accepted(args[i].0, args[i].1, allowed) by {
                if i < n - 1 {
                    assert(arg_accepted(args[i].0, args[i].1, allowed));
                }
            }
        }
    }
}

proof fn lemma_missing_errors(args: Args, req: Seq<Seq<char>>, sk: Seq<char>, n: int)
    requires
        0 <= n <= req.len(),
    ensures
        missing_errors_v(args, req, sk, n).len() == 0 <==> forall|j: int| 0 <= j < n ==> has_key(args, #[trigger] req[j]),
    decreases n,
{
    if n > 0 {
        lemma_missing_errors(args, req, sk, n - 1);
        if missing_errors_v(args, req, sk, n).len() == 0 {
            assert forall|j: int| 0 <= j < n implies has_key(args, #[trigger] req[j]) by {
                if j < n - 1 {
                    assert(has_key(args, req[j]));
                }
            }
        }
    }
}

proof fn lemma_required_from(allowed: Args, i: int)
    requires
        0 <= i <= allowed.len(),
    ensures
        required_from_v(allowed, i) is Ok ==> forall|k: Seq<char>| #[trigger] required_from_v(allowed, i)->Ok_0.contains(k) <==> exists|m: int| i <= m < allowed.len() && #[trigger] allowed[m].0 == k && required_here(allowed[m].1),
        required_from_v(allowed, i) is Err ==> required_from_v(allowed, i)->Err_0.len() > 0,
    decreases allowed.len() - i,
{
    if i < allowed.len() {
        lemma_required_from(allowed, i + 1);
        lemma_list_has_rule_err(allowed[i].1, arg_rule_key_arg_must_exist_v());
        if required_from_v(allowed, i) is Ok {
            let r = required_from_v(allowed, i)->Ok_0;
            let rest = required_from_v(allowed, i + 1)->Ok_0;
            assert forall|k: Seq<char>| #[trigger] r.contains(k) <==> exists|m: int| i <= m < allowed.len() && #[trigger] allowed[m].0 == k && required_here(allowed[m].1) by {
                if r.contains(k) {
                    if required_here(allowed[i].1) && k == allowed[i].0 {
                        assert(allowed[i].0 == k);
                    } else {
                        if required_here(allowed[i].1) {
                            assert(r == seq![allowed[i].0] + rest);
                            let p = choose|p: int| 0 <= p < r.len() && r[p] == k;
                            assert(rest[p - 1] == k);
                            assert(rest.contains(k));
                        } else {
                            assert(rest.contains(k));
                        }
                        let m = choose|m: int| i + 1 <= m < allowed.len() && #[trigger] allowed[m].0 == k && required_here(allowed[m].1);
                        assert(allowed[m].0 == k);
                    }
                }
                if exists|m: int| i <= m < allowed.len() && #[trigger] allowed[m].0 == k && required_here(allowed[m].1) {
                    let m = choose|m: int| i <= m < allowed.len() && #[trigger] allowed[m].0 == k && required_here(allowed[m].1);
                    if m == i {
                        assert(r[0] == k);
                    } else {
                        assert(allowed[m].0 == k);
                        assert(rest.contains(k));
                        let p = choose|p: int| 0 <= p < rest.len() && rest[p] == k;
                        if required_here(allowed[i].1) {
                            assert(r[p + 1] == k);
                        } else {
                            assert(r[p] == k);
                        }
                    }
                }
            }
        }
    }
}

/// The rules of an allowed arg include the `must_exist` rule.
pub open spec fn required_here(rules: JsonV) -> bool {
    match rules {
        JsonV::List(l) => list_has_rule_v(l, arg_rule_key_arg_must_exist_v(), 0) == Ok::<bool, Errs>(true),
        _ => false,
    }
}

proof fn lemma_list_has_rule_from(l: Seq<JsonV>, rk: Seq<char>, i: int)
    requires
        0 <= i <= l.len(),
    ensures
        list_has_rule_v(l, rk, i) is Err ==> list_has_rule_v(l, rk, i)->Err_0.len() > 0,
    decreases l.len() - i,
{
    if i < l.len() {
        lemma_list_has_rule_from(l, rk, i + 1);
    }
}

proof fn lemma_list_has_rule_err(rules: JsonV, rk: Seq<char>)
    ensures
        rules matches JsonV::List(l) ==> (list_has_rule_v(l, rk, 0) is Err ==> list_has_rule_v(l, rk, 0)->Err_0.len() > 0),
{
    if let JsonV::List(l) = rules {
        lemma_list_has_rule_from(l, rk, 0);
    }
}

/// A spec accepts a set of args exactly when the spec is well formed,
/// every arg is allowed and passes each of its rules, the scan for required
/// args succeeds, and every arg whose rules include `must_exist` is there.
/// A spec that refuses args always says why: the error list is not empty.
pub proof fn lemma_check_args_accepts(spec: Args, args: Args)
    ensures
        check_args_v(spec, args) is Ok <==> {
            &&& spec_well_formed(spec)
            &&& forall|i: int| 0 <= i < args.len() ==> #[trigger] arg_accepted(args[i].0, args[i].1, map_arg(spec, "allowed"@)->Ok_0)
            &&& required_keys_v(spec) is Ok
            &&& forall|k: Seq<char>| #[trigger] required_keys_v(spec)->Ok_0.contains(k) ==> has_key(args, k)
        },
        required_keys_v(spec) is Ok ==> forall|k: Seq<char>| #[trigger] required_keys_v(spec)->Ok_0.contains(k) <==> exists|m: int| 0 <= m < get_allowed_v(spec)->Ok_0.len() && #[trigger] get_allowed_v(spec)->Ok_0[m].0 == k && required_here(get_allowed_v(spec)->Ok_0[m].1),
        check_args_v(spec, args) is Err ==> check_args_v(spec, args)->Err_0.len() > 0,
{
    lemma_extra_member(spec, 0);
    if let Ok(a) = get_allowed_v(spec) {
        lemma_rule_list_errors(args, a, spec_key_of(spec), args.len() as int);
        lemma_required_from(a, 0);
        if let Ok(req) = required_keys_v(spec) {
            lemma_missing_errors(args, req, spec_key_of(spec), req.len() as int);
            if forall|k: Seq<char>| #[trigger] req.contains(k) ==> has_key(args, k) {
                assert forall|j: int| 0 <= j < req.len() implies has_key(args, #[trigger] req[j]) by {
                    assert(req.contains(req[j]));
                }
            }
            if forall|j: int| 0 <= j < req.len() ==> has_key(args, #[trigger] req[j]) {
                assert forall|k: Seq<char>| #[trigger] req.contains(k) implies has_key(args, k) by {
                    let j = choose|j: int| 0 <= j < req.len() && req[j] == k;
                    assert(has_key(args, req[j]));
                }
            }
        }
    }
}

/// An arg that a spec both types (by the rule `rk`) and requires is, in any
/// set of args the spec accepts, present and of that type.
pub proof fn lemma_accepted_arg_typed(spec: Args, args: Args, k: Seq<char>, rk: Seq<char>)
    requires
        check_args_v(spec, args) is Ok,
        get_allowed_v(spec) is Ok,
        lookup(get_allowed_v(spec)->Ok_0, k) == Some(rules2_v(rk, arg_rule_key_arg_must_exist_v()))
            || lookup(get_allowed_v(spec)->Ok_0, k) == Some(rules2_v(arg_rule_key_arg_must_exist_v(), rk)),
    ensures
        lookup(args, k) is Some,
        value_meets(rk, lookup(args, k)->Some_0),
{
    lemma_check_args_accepts(spec, args);
    let a = get_allowed_v(spec)->Ok_0;
    let m = crate::json::key_index(a, k);
    let first = lookup(a, k) == Some(rules2_v(rk, arg_rule_key_arg_must_exist_v()));
    let l = if first {
        seq![JsonV::Object(rule_v(rk)), JsonV::Object(rule_v(arg_rule_key_arg_must_exist_v()))]
    } else {
        seq![JsonV::Object(rule_v(arg_rule_key_arg_must_exist_v())), JsonV::Object(rule_v(rk))]
    };
    assert(lookup(rule_v(rk), "rule_key"@) == Some(JsonV::Str(rk))) by {
        lemma_key_index(rule_v(rk), "rule_key"@, 0);
    }
    assert(lookup(rule_v(arg_rule_key_arg_must_exist_v()), "rule_key"@) == Some(JsonV::Str(arg_rule_key_arg_must_exist_v()))) by {
        lemma_key_index(rule_v(arg_rule_key_arg_must_exist_v()), "rule_key"@, 0);
    }
    assert(rule_key_v(rule_v(rk)) == Ok::<Seq<char>, Errs>(rk));
    assert(rule_key_v(rule_v(arg_rule_key_arg_must_exist_v())) == Ok::<Seq<char>, Errs>(arg_rule_key_arg_must_exist_v()));
    if first {
        assert(list_has_rule_v(l, arg_rule_key_arg_must_exist_v(), 1) == Ok::<bool, Errs>(true));
        if rk == arg_rule_key_arg_must_exist_v() {
            assert(list_has_rule_v(l, arg_rule_key_arg_must_exist_v(), 0) == Ok::<bool, Errs>(true));
        } else {
            assert(list_has_rule_v(l, arg_rule_key_arg_must_exist_v(), 0) == list_has_rule_v(l, arg_rule_key_arg_must_exist_v(), 1));
        }
    } else {
        assert(list_has_rule_v(l, arg_rule_key_arg_must_exist_v(), 0) == Ok::<bool, Errs>(true));
    }
    assert(a[m].0 == k && a[m].1 == JsonV::List(l));
    assert(required_here(a[m].1));
    assert(required_keys_v(spec)->Ok_0.contains(k));
    assert(has_key(args, k));
    let i = crate::json::key_index(args, k);
    assert(0 <= i < args.len() && args[i].0 == k);
    assert(map_arg(spec, "allowed"@)->Ok_0 == a);
    assert(arg_accepted(args[i].0, args[i].1, a));
    assert(arg_accepted(k, args[i].1, a));
    assert(list_arg(a, k) == Ok::<Seq<JsonV>, GetArgErrorType>(l));
    let v = args[i].1;
    let l2 = list_arg(a, k)->Ok_0;
    assert(l2 == l);
    if first {
        assert(rule_passes(l2[0], v));
        assert(rule_passes(l[0], v));
    } else {
        assert(rule_passes(l2[1], v));
        assert(rule_passes(l[1], v));
    }
    assert(str_arg(rule_v(rk), "rule_key"@) == Ok::<Seq<char>, GetArgErrorType>(rk));
}

/// A value that meets the rule `rk` passes both rules of the list
/// `rk`, `must_exist`.
pub proof fn lemma_rules2_pass(rk: Seq<char>, v: JsonV)
    requires
        value_meets(rk, v),
    ensures
        rules2_v(rk, arg_rule_key_arg_must_exist_v()) matches JsonV::List(l)
            && forall|j: int| 0 <= j < l.len() ==> #[trigger] rule_passes(l[j], v),
{
    lemma_key_index(rule_v(rk), "rule_key"@, 0);
    lemma_key_index(rule_v(arg_rule_key_arg_must_exist_v()), "rule_key"@, 0);
}

/// A value that meets the rule `rk` passes both rules of the list
/// `must_exist`, `rk`.
pub proof fn lemma_rules2_pass_exist_first(rk: Seq<char>, v: JsonV)
    requires
        value_meets(rk, v),
    ensures
        rules2_v(arg_rule_key_arg_must_exist_v(), rk) matches JsonV::List(l)
            && forall|j: int| 0 <= j < l.len() ==> #[trigger] rule_passes(l[j], v),
{
    lemma_key_index(rule_v(rk), "rule_key"@, 0);
    lemma_key_index(rule_v(arg_rule_key_arg_must_exist_v()), "rule_key"@, 0);
}

/// The rules of an arg in a flat spec: none at all, a required string, or a
/// required number.
pub open spec fn flat_rule(v: JsonV) -> bool {
    ||| v == JsonV::List(Seq::empty())
    ||| v == rules2_v(arg_rule_key_arg_must_exist_v(), arg_rule_key_arg_key_must_be_string_v())
    ||| v == rules2_v(arg_rule_key_arg_must_exist_v(), arg_rule_arg_key_arg_must_be_number_v())
}

proof fn lemma_flat_required_from(a: Args, i: int)
    requires
        0 <= i <= a.len(),
        forall|m: int| i <= m < a.len() ==> #[trigger] flat_rule(a[m].1),
    ensures
        required_from_v(a, i) is Ok,
    decreases a.len() - i,
{
    if i < a.len() {
        lemma_flat_required_from(a, i + 1);
        assert(flat_rule(a[i].1));
        lemma_key_index(rule_v(arg_rule_key_arg_must_exist_v()), "rule_key"@, 0);
        assert(rule_key_v(rule_v(arg_rule_key_arg_must_exist_v())) == Ok::<Seq<char>, Errs>(arg_rule_key_arg_must_exist_v()));
    }
}

/// A flat spec (each allowed arg has no rules, or is a required string or
/// number) accepts args that it allows, that are all there where required
/// and of the required type.
pub proof fn lemma_flat_doc_accepted(spec: Args, args: Args)
    requires
        spec_well_formed(spec),
        keys_unique(get_allowed_v(spec)->Ok_0),
        keys_unique(args),
        forall|k: Seq<char>| #[trigger] has_key(get_allowed_v(spec)->Ok_0, k)
            ==> flat_rule(lookup(get_allowed_v(spec)->Ok_0, k)->Some_0),
        forall|k: Seq<char>| #[trigger] has_key(args, k) ==> has_key(get_allowed_v(spec)->Ok_0, k),
        forall|k: Seq<char>| lookup(get_allowed_v(spec)->Ok_0, k)
            == Some(rules2_v(arg_rule_key_arg_must_exist_v(), arg_rule_key_arg_key_must_be_string_v()))
            ==> #[trigger] lookup(args, k) matches Some(JsonV::Str(_)),
        forall|k: Seq<char>| lookup(get_allowed_v(spec)->Ok_0, k)
            == Some(rules2_v(arg_rule_key_arg_must_exist_v(), arg_rule_arg_key_arg_must_be_number_v()))
            ==> #[trigger] lookup(args, k) matches Some(JsonV::Number(_)),
    ensures
        check_args_v(spec, args) is Ok,
{
    let a = get_allowed_v(spec)->Ok_0;
    lemma_check_args_accepts(spec, args);
    lemma_distinct_rule_keys();
    let rs = rules2_v(arg_rule_key_arg_must_exist_v(), arg_rule_key_arg_key_must_be_string_v());
    let rn = rules2_v(arg_rule_key_arg_must_exist_v(), arg_rule_arg_key_arg_must_be_number_v());
    assert forall|m: int| 0 <= m < a.len() implies #[trigger] flat_rule(a[m].1) by {
        lemma_key_index(a, a[m].0, m);
        assert(has_key(a, a[m].0));
    }
    lemma_flat_required_from(a, 0);
    assert forall|i: int| 0 <= i < args.len() implies #[trigger] arg_accepted(args[i].0, args[i].1, a) by {
        let k = args[i].0;
        lemma_key_index(args, k, i);
        assert(has_key(args, k));
        assert(has_key(a, k));
        let v = lookup(a, k)->Some_0;
        assert(flat_rule(v));
        if v == rs {
            assert(lookup(args, k) matches Some(JsonV::Str(_)));
            lemma_rules2_pass_exist_first(arg_rule_key_arg_key_must_be_string_v(), args[i].1);
        } else if v == rn {
            assert(lookup(args, k) matches Some(JsonV::Number(_)));
            lemma_rules2_pass_exist_first(arg_rule_arg_key_arg_must_be_number_v(), args[i].1);
        }
    }
    assert forall|k: Seq<char>| #[trigger] required_keys_v(spec)->Ok_0.contains(k) implies has_key(args, k) by {
        let m = choose|m: int| 0 <= m < a.len() && #[trigger] a[m].0 == k && required_here(a[m].1);
        lemma_key_index(a, k, m);
        assert(flat_rule(a[m].1));
        if a[m].1 == rs {
            assert(lookup(args, k) matches Some(JsonV::Str(_)));
        } else if a[m].1 == rn {
            assert(lookup(args, k) matches Some(JsonV::Number(_)));
        }
    }
}



/// Holds a JSON object that specifies what arguments are allowed for a task,
/// and what static rules apply to them.
pub struct JahSpec {
    spec_args: JahArgs,
}

/// The static rules that a spec can apply to an arg.
pub struct ArgRules;

impl View for JahSpec {
    type V = Args;

    closed spec fn view(&self) -> Args {
        self.spec_args@
    }
}

fn trace(line: &str) -> (r: JsonObject)
    ensures
        r@ == trace_v(line),
{
    Bootstrap::reply_error_trace_info("jah_spec.rs".to_owned(), line.to_owned())
}

fn one_err(rk: String, arg: String, sk: String, line: &str) -> (r: Vec<JsonObject>)
    ensures
        objs_view(r@) == rerr(rk@, arg@, sk@, line),
{
    let mut v: Vec<JsonObject> = Vec::new();
    v.push(Bootstrap::spec_rule_error(rk, arg, sk, line.to_owned(), "jah_spec.rs".to_owned()));
    assert(objs_view(v@) =~= rerr(rk@, arg@, sk@, line));
    v
}

/// `errs` followed by `more`.
fn append_errs(errs: &mut Vec<JsonObject>, more: Vec<JsonObject>)
    ensures
        objs_view(final(errs)@) == objs_view(old(errs)@) + objs_view(more@),
{
    let ghost m = more@;
    let mut more = more;
    errs.append(&mut more);
    assert(objs_view(errs@) =~= objs_view(old(errs)@) + objs_view(m));
}

/// `errs` followed by one more error.
fn push_err(errs: &mut Vec<JsonObject>, e: JsonObject)
    ensures
        objs_view(final(errs)@) == objs_view(old(errs)@) + seq![e@],
{
    errs.push(e);
    assert(objs_view(errs@) =~= objs_view(old(errs)@) + seq![e@]);
}

impl JahSpec {
    /// Creates a new spec.
    pub fn new(spec_args: JsonObject) -> (r: JahSpec)
        ensures
            r@ == spec_args@,
    {
        JahSpec { spec_args: JahArgs::new(spec_args) }
    }

    /// The key of this spec, or the corrupted-spec key where it has none.
    pub fn spec_key(&self) -> (r: String)
        ensures
            r@ == spec_key_of(self@),
    {
        match self.spec_args.get_str("spec_key".to_owned()) {
            Ok(key_val) => key_val,
            Err(_) => Bootstrap::jah_corrupted_spec_key(),
        }
    }

    /// Checks that the supplied arguments are allowed, that they conform to
    /// their rules, and that every required arg is present.
    pub fn check_args(&self, args: &JahArgs) -> (r: Result<bool, Vec<JsonObject>>)
        ensures
            match r {
                Ok(b) => b && check_args_v(self@, args@) is Ok,
                Err(es) => check_args_v(self@, args@) == Err::<(), Errs>(objs_view(es@)),
            },
    {
        match self.check_spec() {
            Ok(_) => {},
            Err(errs) => {
                let mut errs = errs;
                push_err(&mut errs, trace("s0lFEONAYynSawUd"));
                return Err(errs);
            },
        }
        match self.get_allowed() {
            Ok(alwd) => {
                let allowed = JahArgs::new(alwd);
                match self.check_rule_list(args, &allowed) {
                    Ok(_) => match self.check_required(args) {
                        Ok(_) => Ok(true),
                        Err(errs) => {
                            let mut errs = errs;
                            push_err(&mut errs, trace("E4S4zOP8QKA6bm62"));
                            Err(errs)
                        },
                    },
                    Err(errs) => {
                        let mut errs = errs;
                        push_err(&mut errs, trace("CvSaRhKZYrgqIl2q"));
                        Err(errs)
                    },
                }
            },
            Err(errs) => {
                let mut errs = errs;
                push_err(&mut errs, trace("kmM0kE9Isb61If3j"));
                Err(errs)
            },
        }
    }

    fn check_spec(&self) -> (r: Result<bool, Vec<JsonObject>>)
        ensures
            match r {
                Ok(b) => b && check_spec_v(self@) is Ok,
                Err(es) => check_spec_v(self@) == Err::<(), Errs>(objs_view(es@)),
            },
    {
        match self.spec_args.get_str("spec_key".to_owned()) {
            Ok(_) => {},
            Err(err) => match err {
                GetArgErrorType::MissingKey => {
                    return Err(
                        one_err(
                            Bootstrap::arg_rule_key_arg_must_exist(),
                            "spec_key".to_owned(),
                            Bootstrap::jah_spec_spec_key(),
                            "a5q3rNiRtXeoO9Wj",
                        ),
                    );
                },
                GetArgErrorType::WrongDataType => {
                    return Err(
                        one_err(
                            Bootstrap::arg_rule_key_arg_key_must_be_string(),
                            "spec_key".to_owned(),
                            Bootstrap::jah_spec_spec_key(),
                            "EkhF0tz8VkQdmZL9",
                        ),
                    );
                },
            },
        }
        if self.spec_args.arg_count() != 2 {
            let keys = self.spec_args.arg_keys();
            let ghost s = self@;
            let mut i: usize = 0;
            while i < keys.len()
                invariant
                    i <= keys@.len(),
                    keys@.len() == s.len(),
                    s == self@,
                    s.len() != 2,
                    str_arg(s, "spec_key"@) is Ok,
                    forall|j: int| 0 <= j < keys@.len() ==> #[trigger] keys@[j]@ == obj_keys(s)[j],
                    extra_member_from(s, 0) == extra_member_from(s, i as int),
                decreases keys@.len() - i,
            {
                let key = &keys[i];
                assert(key@ == s[i as int].0);
                let sk = "spec_key".to_owned();
                let al = "allowed".to_owned();
                if !(*key == sk || *key == al) {
                    return Err(
                        one_err(
                            Bootstrap::arg_rule_key_arg_is_not_allowed(),
                            key.clone(),
                            Bootstrap::jah_spec_spec_key(),
                            "yTI6O36SdlSKrlVV",
                        ),
                    );
                }
                i = i + 1;
            }
        }
        Ok(true)
    }

    /// The `allowed` object of this spec.
    fn get_allowed(&self) -> (r: Result<JsonObject, Vec<JsonObject>>)
        ensures
            match r {
                Ok(o) => get_allowed_v(self@) == Ok::<Args, Errs>(o@),
                Err(es) => get_allowed_v(self@) == Err::<Args, Errs>(objs_view(es@)),
            },
    {
        match self.spec_args.get_map("allowed".to_owned()) {
            Ok(obj) => Ok(obj),
            Err(err) => match err {
                GetArgErrorType::MissingKey => Err(
                    one_err(
                        Bootstrap::arg_rule_key_arg_must_exist(),
                        "allowed".to_owned(),
                        self.spec_key(),
                        "4QRHmXsoKu1sWGVl",
                    ),
                ),
                GetArgErrorType::WrongDataType => Err(
                    one_err(
                        Bootstrap::arg_rule_key_arg_must_be_list(),
                        "allowed".to_owned(),
                        self.spec_key(),
                        "GfJyy8rO1hTvM0gs",
                    ),
                ),
            },
        }
    }

    /// The names of the allowed args.
    pub fn allowed_keys(&self) -> (r: Result<Vec<String>, Vec<JsonObject>>)
        ensures
            match r {
                Ok(ks) => get_allowed_v(self@) is Ok && ks@.len() == get_allowed_v(self@)->Ok_0.len()
                    && forall|i: int| 0 <= i < ks@.len() ==> #[trigger] ks@[i]@ == obj_keys(get_allowed_v(self@)->Ok_0)[i],
                Err(es) => get_allowed_v(self@) == Err::<Args, Errs>(objs_view(es@)),
            },
    {
        match self.get_allowed() {
            Ok(a) => Ok(a.keys()),
            Err(es) => Err(es),
        }
    }

    /// Checks every arg against the rules that `allowed` gives it.
    fn check_rule_list(&self, args: &JahArgs, allowed: &JahArgs) -> (r: Result<bool, Vec<JsonObject>>)
        ensures
            match r {
                Ok(b) => b && rule_list_errors_v(args@, allowed@, spec_key_of(self@), args@.len() as int).len() == 0,
                Err(es) => objs_view(es@) == rule_list_errors_v(args@, allowed@, spec_key_of(self@), args@.len() as int)
                    && es@.len() > 0,
            },
    {
        let sk = self.spec_key();
        let keys = args.arg_keys();
        let ghost a = args@;
        let mut errors: Vec<JsonObject> = Vec::new();
        let mut i: usize = 0;
        while i < keys.len()
            invariant
                i <= keys@.len(),
                keys@.len() == a.len(),
                a == args@,
                keys_unique(a),
                sk@ == spec_key_of(self@),
                forall|j: int| 0 <= j < keys@.len() ==> #[trigger] keys@[j]@ == obj_keys(a)[j],
                objs_view(errors@) == rule_list_errors_v(a, allowed@, sk@, i as int),
            decreases keys@.len() - i,
        {
            let key = &keys[i];
            assert(key@ == a[i as int].0);
            proof {
                lemma_key_index(a, key@, i as int);
            }
            let more = match allowed.get_list(key.clone()) {
                Ok(list) => match args.get_json_val(key.clone()) {
                    Some(val) => Self::check_rules(key, &list, &val, &sk),
                    None => Vec::new(),
                },
                Err(err) => match err {
                    GetArgErrorType::MissingKey => one_err(
                        Bootstrap::arg_rule_key_arg_is_not_allowed(),
                        key.clone(),
                        sk.clone(),
                        "5uAMEPFBPxQVMTPB",
                    ),
                    GetArgErrorType::WrongDataType => one_err(
                        Bootstrap::arg_rule_key_arg_must_be_list(),
                        key.clone(),
                        sk.clone(),
                        "XmPUcGmkS5wqXknu",
                    ),
                },
            };
            append_errs(&mut errors, more);
            i = i + 1;
        }
        if errors.len() > 0 {
            Err(errors)
        } else {
            Ok(true)
        }
    }

    /// The errors of every rule of a list on one value.
    fn check_rules(arg_key: &String, rules: &Vec<Json>, value: &Json, spec_key: &String) -> (r: Vec<JsonObject>)
        ensures
            objs_view(r@) == check_rules_v(arg_key@, list_view(rules@), value@, spec_key@, rules@.len() as int),
    {
        let ghost l = list_view(rules@);
        let mut errors: Vec<JsonObject> = Vec::new();
        let mut i: usize = 0;
        while i < rules.len()
            invariant
                i <= rules@.len(),
                l == list_view(rules@),
                objs_view(errors@) == check_rules_v(arg_key@, l, value@, spec_key@, i as int),
            decreases rules@.len() - i,
        {
            let more = Self::check_rule(arg_key, &rules[i], value, spec_key);
            append_errs(&mut errors, more);
            i = i + 1;
        }
        errors
    }

    /// The errors of one rule on one value.
    fn check_rule(arg_key: &String, rule: &Json, value: &Json, spec_key: &String) -> (r: Vec<JsonObject>)
        ensures
            objs_view(r@) == check_rule_v(arg_key@, rule@, value@, spec_key@),
    {
        match rule {
            Json::Object(ro) => match ArgRules::do_rule(arg_key.clone(), ro.deep_copy(), value.deep_copy(), spec_key.clone()) {
                Ok(_) => {
                    let v: Vec<JsonObject> = Vec::new();
                    assert(objs_view(v@) =~= Seq::empty());
                    v
                },
                Err(err) => {
                    let mut err = err;
                    push_err(&mut err, trace("Kerw1ihlUtNhYS5w"));
                    err
                },
            },
            _ => one_err(
                Bootstrap::arg_rule_key_arg_must_be_object(),
                arg_key.clone(),
                Bootstrap::jah_spec_spec_key(),
                "PhcnkCq9SzjjK3dc",
            ),
        }
    }

    /// Whether a rule list holds the rule named `rule_key`.
    fn list_has_rule(rule_list: &Vec<Json>, rule_key: &String) -> (r: Result<bool, Vec<JsonObject>>)
        ensures
            match r {
                Ok(b) => list_has_rule_v(list_view(rule_list@), rule_key@, 0) == Ok::<bool, Errs>(b),
                Err(es) => list_has_rule_v(list_view(rule_list@), rule_key@, 0) == Err::<bool, Errs>(objs_view(es@)),
            },
    {
        let ghost l = list_view(rule_list@);
        let mut i: usize = 0;
        while i < rule_list.len()
            invariant
                i <= rule_list@.len(),
                l == list_view(rule_list@),
                list_has_rule_v(l, rule_key@, 0) == list_has_rule_v(l, rule_key@, i as int),
            decreases rule_list@.len() - i,
        {
            match &rule_list[i] {
                Json::Object(rule_obj) => match ArgRules::get_rule_key(rule_obj.deep_copy()) {
                    Ok(this_rule_key) => {
                        if *rule_key == this_rule_key {
                            return Ok(true);
                        }
                    },
                    Err(errs) => {
                        let mut errs = errs;
                        push_err(&mut errs, trace("CvSaRhKZYrgqIl2q"));
                        return Err(errs);
                    },
                },
                _ => {
                    return Err(
                        one_err(
                            Bootstrap::arg_rule_key_arg_must_be_object(),
                            rule_key.clone(),
                            Bootstrap::jah_spec_spec_key(),
                            "ALsKq4AAUB7E4hjR",
                        ),
                    );
                },
            }
            i = i + 1;
        }
        Ok(false)
    }

    /// Lists the names of the allowed args that are also required.
    fn get_required_keys(&self) -> (r: Result<Vec<String>, Vec<JsonObject>>)
        ensures
            match r {
                Ok(ks) => required_keys_v(self@) == Ok::<Seq<Seq<char>>, Errs>(Seq::new(ks@.len(), |i: int| ks@[i]@)),
                Err(es) => required_keys_v(self@) == Err::<Seq<Seq<char>>, Errs>(objs_view(es@)),
            },
    {
        match self.get_allowed() {
            Ok(alwd) => {
                let ja = JahArgs::new(alwd);
                let ghost a = ja@;
                let ja_keys = ja.arg_keys();
                let mut keys: Vec<String> = Vec::new();
                let mut i: usize = 0;
                while i < ja_keys.len()
                    invariant
                        i <= ja_keys@.len(),
                        ja_keys@.len() == a.len(),
                        a == ja@,
                        a == get_allowed_v(self@)->Ok_0,
                        get_allowed_v(self@) is Ok,
                        keys_unique(a),
                        forall|j: int| 0 <= j < ja_keys@.len() ==> #[trigger] ja_keys@[j]@ == obj_keys(a)[j],
                        required_from_v(a, 0) == match required_from_v(a, i as int) {
                            Ok(rest) => Ok(Seq::new(keys@.len(), |j: int| keys@[j]@) + rest),
                            Err(e) => Err::<Seq<Seq<char>>, Errs>(e),
                        },
                    decreases ja_keys@.len() - i,
                {
                    let key = &ja_keys[i];
                    assert(key@ == a[i as int].0);
                    proof {
                        lemma_key_index(a, key@, i as int);
                    }
                    match ja.get_list(key.clone()) {
                        Ok(rule_list) => match Self::list_has_rule(&rule_list, &Bootstrap::arg_rule_key_arg_must_exist()) {
                            Ok(must_exist) => {
                                if must_exist {
                                    let ghost before = Seq::new(keys@.len(), |j: int| keys@[j]@);
                                    keys.push(key.clone());
                                    assert(Seq::new(keys@.len(), |j: int| keys@[j]@) =~= before + seq![a[i as int].0]);
                                    proof {
                                        match required_from_v(a, i + 1) {
                                            Ok(rest) => {
                                                assert(before + (seq![a[i as int].0] + rest) =~= (before + seq![a[i as int].0]) + rest);
                                            },
                                            Err(_) => {},
                                        }
                                    }
                                }
                            },
                            Err(errs) => {
                                let mut errs = errs;
                                push_err(&mut errs, trace("EsCOB18feSOPdIC0"));
                                return Err(errs);
                            },
                        },
                        Err(err) => match err {
                            GetArgErrorType::MissingKey => {
                                proof {
                                    assert(false);
                                }
                            },
                            GetArgErrorType::WrongDataType => {
                                return Err(
                                    one_err(
                                        Bootstrap::arg_rule_key_arg_must_be_list(),
                                        key.clone(),
                                        Bootstrap::jah_spec_spec_key(),
                                        "BWVlZZ1zI9hRBCaJ",
                                    ),
                                );
                            },
                        },
                    }
                    i = i + 1;
                }
                assert(Seq::new(keys@.len(), |j: int| keys@[j]@) + Seq::<Seq<char>>::empty() =~= Seq::new(keys@.len(), |j: int| keys@[j]@));
                Ok(keys)
            },
            Err(errs) => {
                let mut errs = errs;
                push_err(&mut errs, trace("mwnGVUqBZIcqo0XX"));
                Err(errs)
            },
        }
    }

    /// Finds all the allowed args that are also required and makes sure
    /// they are in `args`.
    fn check_required(&self, args: &JahArgs) -> (r: Result<bool, Vec<JsonObject>>)
        ensures
            match r {
                Ok(b) => b && check_required_v(self@, args@) is Ok,
                Err(es) => check_required_v(self@, args@) == Err::<(), Errs>(objs_view(es@)),
            },
    {
        match self.get_required_keys() {
            Ok(req_args) => {
                let ghost req = Seq::new(req_args@.len(), |j: int| req_args@[j]@);
                let sk = self.spec_key();
                let mut errors: Vec<JsonObject> = Vec::new();
                let mut i: usize = 0;
                while i < req_args.len()
                    invariant
                        i <= req_args@.len(),
                        req == Seq::new(req_args@.len(), |j: int| req_args@[j]@),
                        sk@ == spec_key_of(self@),
                        objs_view(errors@) == missing_errors_v(args@, req, sk@, i as int),
                    decreases req_args@.len() - i,
                {
                    let req_key = &req_args[i];
                    if !args.has_arg(req_key) {
                        let more = one_err(
                            Bootstrap::arg_rule_key_arg_must_exist(),
                            req_key.clone(),
                            sk.clone(),
                            "InLa9WXyftFGkD0J",
                        );
                        append_errs(&mut errors, more);
                    } else {
                        assert(objs_view(errors@) + Seq::empty() =~= objs_view(errors@));
                    }
                    i = i + 1;
                }
                if errors.len() == 0 {
                    Ok(true)
                } else {
                    Err(errors)
                }
            },
            Err(errs) => Err(errs),
        }
    }
}

impl ArgRules {
    /// Checks a single rule against a single arg value: `Ok` where the value
    /// passes, otherwise the errors.
    pub fn do_rule(arg_key: String, rule: JsonObject, val: Json, spec_key: String) -> (r: Result<bool, Vec<JsonObject>>)
        ensures
            match r {
                Ok(b) => b && do_rule_v(arg_key@, rule@, val@, spec_key@) is Ok,
                Err(es) => do_rule_v(arg_key@, rule@, val@, spec_key@) == Err::<(), Errs>(objs_view(es@)),
            },
    {
        match ArgRules::get_rule_key(rule) {
            Ok(rule_key) => {
                if rule_key == Bootstrap::arg_rule_key_arg_must_exist() {
                    Ok(true)
                } else if rule_key == Bootstrap::arg_rule_key_arg_key_must_be_string() {
                    ArgRules::arg_rule_must_be_string(arg_key, spec_key, val)
                } else if rule_key == Bootstrap::arg_rule_key_arg_must_be_object() {
                    ArgRules::arg_rule_must_be_object(arg_key, spec_key, val)
                } else if rule_key == Bootstrap::arg_rule_arg_key_arg_must_be_number() {
                    ArgRules::arg_rule_must_be_number(arg_key, spec_key, val)
                } else if rule_key == Bootstrap::arg_rule_key_arg_must_be_list() {
                    ArgRules::arg_rule_must_be_list(arg_key, spec_key, val)
                } else if rule_key == Bootstrap::arg_rule_key_arg_must_be_bool() {
                    ArgRules::arg_rule_must_be_bool(arg_key, spec_key, val)
                } else {
                    Err(
                        one_err(
                            Bootstrap::arg_rule_key_rule_must_be_implemented(),
                            rule_key,
                            spec_key,
                            "OIbvlKzkmbwyYgBj",
                        ),
                    )
                }
            },
            Err(errs) => {
                let mut errs = errs;
                push_err(&mut errs, trace("jFlfv8NZAe1UzYF4"));
                Err(errs)
            },
        }
    }

    /// Extracts the key that identifies a rule.
    pub fn get_rule_key(rule: JsonObject) -> (r: Result<String, Vec<JsonObject>>)
        ensures
            match r {
                Ok(k) => rule_key_v(rule@) == Ok::<Seq<char>, Errs>(k@),
                Err(es) => rule_key_v(rule@) == Err::<Seq<char>, Errs>(objs_view(es@)),
            },
    {
        match JahArgs::new(rule).get_str("rule_key".to_owned()) {
            Ok(rule_key) => Ok(rule_key),
            Err(err) => match err {
                GetArgErrorType::MissingKey => Err(
                    one_err(
                        Bootstrap::arg_rule_key_arg_must_exist(),
                        "rule_key".to_owned(),
                        Bootstrap::spec_rule_spec_key(),
                        "spDzbsBn37HorqMZ",
                    ),
                ),
                GetArgErrorType::WrongDataType => Err(
                    one_err(
                        Bootstrap::arg_rule_key_arg_key_must_be_string(),
                        "rule_key".to_owned(),
                        Bootstrap::spec_rule_spec_key(),
                        "pxLJQ3RhHm5ls4YF",
                    ),
                ),
            },
        }
    }

    /// The rule that the argument must be an object.
    fn arg_rule_must_be_object(arg_key: String, spec_key: String, val: Json) -> (r: Result<bool, Vec<JsonObject>>)
        ensures
            match r {
                Ok(b) => b && val@ is Object,
                Err(es) => !(val@ is Object) && objs_view(es@) == rerr(arg_rule_key_arg_must_be_object_v(), arg_key@, spec_key@, "Qh6CpHMpGthIFStr"),
            },
    {
        match val {
            Json::Object(_) => Ok(true),
            _ => Err(one_err(Bootstrap::arg_rule_key_arg_must_be_object(), arg_key, spec_key, "Qh6CpHMpGthIFStr")),
        }
    }

    /// The rule that the argument must be a number.
    fn arg_rule_must_be_number(arg_key: String, spec_key: String, val: Json) -> (r: Result<bool, Vec<JsonObject>>)
        ensures
            match r {
                Ok(b) => b && val@ is Number,
                Err(es) => !(val@ is Number) && objs_view(es@) == rerr(arg_rule_arg_key_arg_must_be_number_v(), arg_key@, spec_key@, "ENt7F21pgLrisdgX"),
            },
    {
        match val {
            Json::Number(_) => Ok(true),
            _ => Err(one_err(Bootstrap::arg_rule_arg_key_arg_must_be_number(), arg_key, spec_key, "ENt7F21pgLrisdgX")),
        }
    }

    /// The rule that the argument must be a string.
    fn arg_rule_must_be_string(arg_key: String, spec_key: String, val: Json) -> (r: Result<bool, Vec<JsonObject>>)
        ensures
            match r {
                Ok(b) => b && val@ is Str,
                Err(es) => !(val@ is Str) && objs_view(es@) == rerr(arg_rule_key_arg_key_must_be_string_v(), arg_key@, spec_key@, "bRRoirXHglnOzRza"),
            },
    {
        match val {
            Json::String(_) => Ok(true),
            _ => Err(one_err(Bootstrap::arg_rule_key_arg_key_must_be_string(), arg_key, spec_key, "bRRoirXHglnOzRza")),
        }
    }

    /// The rule that the argument must be a list.
    fn arg_rule_must_be_list(arg_key: String, spec_key: String, val: Json) -> (r: Result<bool, Vec<JsonObject>>)
        ensures
            match r {
                Ok(b) => b && val@ is List,
                Err(es) => !(val@ is List) && objs_view(es@) == rerr(arg_rule_key_arg_must_be_list_v(), arg_key@, spec_key@, "3quUP5sSihzrSikm"),
            },
    {
        match val {
            Json::List(_) => Ok(true),
            _ => Err(one_err(Bootstrap::arg_rule_key_arg_must_be_list(), arg_key, spec_key, "3quUP5sSihzrSikm")),
        }
    }

    /// The rule that the argument must be a boolean.
    fn arg_rule_must_be_bool(arg_key: String, spec_key: String, val: Json) -> (r: Result<bool, Vec<JsonObject>>)
        ensures
            match r {
                Ok(b) => b && val@ is Boolean,
                Err(es) => !(val@ is Boolean) && objs_view(es@) == rerr(arg_rule_key_arg_must_be_bool_v(), arg_key@, spec_key@, "uBORM4dQ7ovO5own"),
            },
    {
        match val {
            Json::Boolean(_) => Ok(true),
            _ => Err(one_err(Bootstrap::arg_rule_key_arg_must_be_bool(), arg_key, spec_key, "uBORM4dQ7ovO5own")),
        }
    }
}

} // verus!
