//! The Fits (functionally isolated tasks) that the Must document system
//! runs behind its Pars, and what the file Fits share: the startup args that
//! name their file.
use vstd::prelude::*;
use crate::json::{Json, JsonObject, JsonV, lookup, lemma_insert_unique};
use crate::jah_args::{JahArgs, Args, str_arg, num_arg};
use crate::jah_spec::{JahSpec, Errs, check_args_v, get_allowed_v, lemma_accepted_arg_typed};
use crate::bootstrap::{Bootstrap, objs_view, put, empty_v, str_v, rules2_v, arg_rule_key_arg_must_exist_v,
    arg_rule_key_arg_key_must_be_string_v, arg_rule_arg_key_arg_must_be_number_v};

pub mod doc_slice_prep;
pub mod file_append_json;
pub mod file_append_slice;
pub mod file_get_slice;
pub mod stately_tester;

verus! {

/// The rules of an arg that must be there and be a string.
pub open spec fn required_str_v() -> JsonV {
    rules2_v(arg_rule_key_arg_key_must_be_string_v(), arg_rule_key_arg_must_exist_v())
}

/// The rules of an arg that must be there and be a number.
pub open spec fn required_num_v() -> JsonV {
    rules2_v(arg_rule_arg_key_arg_must_be_number_v(), arg_rule_key_arg_must_exist_v())
}

/// The allowed args of a file Fit's startup args: the file's path and number.
pub open spec fn file_args_allowed_v() -> Args {
    put(put(put(empty_v(), "path", required_str_v()), "num", required_num_v()), "spec_key", required_str_v())
}

/// The spec (`5W6emlWjT77xoGOH`) of a file Fit's startup args.
pub open spec fn file_args_spec_v() -> Args {
    put(put(empty_v(), "allowed", JsonV::Object(file_args_allowed_v())), "spec_key", str_v("5W6emlWjT77xoGOH"@))
}

/// A file number as the unsigned number it is used as: negative numbers
/// count as zero.
pub open spec fn file_num_v(n: int) -> int {
    if n < 0 {
        0
    } else {
        n
    }
}

/// The path and number of the file that startup args name, or why they
/// break their spec.
pub open spec fn startup_v(args: Args) -> Result<(Seq<char>, int), Errs> {
    match check_args_v(file_args_spec_v(), args) {
        Err(e) => Err(e),
        Ok(_) => Ok((str_arg(args, "path"@)->Ok_0, file_num_v(num_arg(args, "num"@)->Ok_0))),
    }
}

proof fn lemma_file_args_spec()
    ensures
        get_allowed_v(file_args_spec_v()) == Ok::<Args, Errs>(file_args_allowed_v()),
        lookup(file_args_allowed_v(), "path"@) == Some(required_str_v()),
        lookup(file_args_allowed_v(), "num"@) == Some(required_num_v()),
{
    reveal_strlit("path");
    reveal_strlit("num");
    reveal_strlit("spec_key");
    reveal_strlit("allowed");
    assert("path"@[0] != "num"@[0]);
    assert("path"@[0] != "spec_key"@[0]);
    assert("num"@[0] != "spec_key"@[0]);
    assert("allowed"@[0] != "spec_key"@[0]);
    let e = empty_v();
    let a1 = put(e, "path", required_str_v());
    let a2 = put(a1, "num", required_num_v());
    lemma_insert_unique(e, "path"@, required_str_v());
    lemma_insert_unique(a1, "num"@, required_num_v());
    lemma_insert_unique(a2, "spec_key"@, required_str_v());
    let s1 = put(e, "allowed", JsonV::Object(file_args_allowed_v()));
    lemma_insert_unique(e, "allowed"@, JsonV::Object(file_args_allowed_v()));
    lemma_insert_unique(s1, "spec_key"@, str_v("5W6emlWjT77xoGOH"@));
}

/// The spec of a file Fit's startup args.
pub fn file_args_spec() -> (r: JsonObject)
    ensures
        r@ == file_args_spec_v(),
{
    let mut allowed = JsonObject::new();
    allowed.insert(
        "path".to_owned(),
        Bootstrap::rules2(Bootstrap::arg_rule_arg_must_be_string(), Bootstrap::arg_rule_arg_must_exist()),
    );
    allowed.insert(
        "num".to_owned(),
        Bootstrap::rules2(Bootstrap::arg_rule_num_must_be_number(), Bootstrap::arg_rule_arg_must_exist()),
    );
    allowed.insert(
        "spec_key".to_owned(),
        Bootstrap::rules2(Bootstrap::arg_rule_arg_must_be_string(), Bootstrap::arg_rule_arg_must_exist()),
    );
    let mut spec = JsonObject::new();
    spec.insert("allowed".to_owned(), Json::Object(allowed));
    spec.insert("spec_key".to_owned(), Json::String("5W6emlWjT77xoGOH".to_owned()));
    spec
}

/// The path and number of the file that startup args name.
pub fn startup_args(file_args: &JsonObject) -> (r: Result<(String, u64), Vec<JsonObject>>)
    ensures
        match r {
            Ok((p, n)) => startup_v(file_args@) == Ok::<(Seq<char>, int), Errs>((p@, n as int)),
            Err(e) => startup_v(file_args@) == Err::<(Seq<char>, int), Errs>(objs_view(e@)),
        },
{
    let spec = JahSpec::new(file_args_spec());
    let args = JahArgs::new(file_args.deep_copy());
    match spec.check_args(&args) {
        Ok(_) => {},
        Err(errs) => {
            return Err(errs);
        },
    }
    proof {
        lemma_file_args_spec();
        lemma_accepted_arg_typed(file_args_spec_v(), file_args@, "path"@, arg_rule_key_arg_key_must_be_string_v());
        lemma_accepted_arg_typed(file_args_spec_v(), file_args@, "num"@, arg_rule_arg_key_arg_must_be_number_v());
        crate::jah_spec::lemma_distinct_rule_keys();
    }
    // The spec check above makes `path` a string and `num` a number, so the
    // fallbacks below are never taken.
    let path = match args.get_str("path".to_owned()) {
        Ok(p) => p,
        Err(_) => String::new(),
    };
    let num = match args.get_float("num".to_owned()) {
        Ok(n) => if n < 0 {
            0u64
        } else {
            n as u64
        },
        Err(_) => 0u64,
    };
    Ok((path, num))
}

/// A count as a JSON number: counts past the largest number saturate (no
/// buffer that a machine holds comes near).
pub open spec fn count_v(n: int) -> int {
    if n <= i64::MAX {
        n
    } else {
        i64::MAX as int
    }
}

/// A count as a JSON number.
pub fn count_number(n: usize) -> (r: i64)
    ensures
        r == count_v(n as int),
{
    if n as u64 > 9223372036854775807u64 {
        9223372036854775807i64
    } else {
        n as i64
    }
}

/// Where a slice of a file lies: its position, its length and the number
/// of the file.
pub open spec fn slice_info_v(pos: int, len: int, num: int) -> Args {
    put(put(put(empty_v(), "pos", JsonV::Number(pos)), "len", JsonV::Number(len)), "fn", JsonV::Number(num))
}

/// The slice info document.
pub fn slice_info(pos: i64, len: i64, num: i64) -> (r: JsonObject)
    ensures
        r@ == slice_info_v(pos as int, len as int, num as int),
{
    let mut slice = JsonObject::new();
    slice.insert("pos".to_owned(), Json::Number(pos));
    slice.insert("len".to_owned(), Json::Number(len));
    slice.insert("fn".to_owned(), Json::Number(num));
    slice
}

/// The error a file Fit reports when its file cannot be used: the system's
/// words, with the args it was working on.
pub fn file_sys_err(args: JsonObject, sys_text: String, fit_key: String, file_name: &str, line_key: &str) -> (r: crate::fit::FitErrs)
    ensures
        objs_view(r.errs@) == seq![crate::bootstrap::fit_sys_err_v(args@, sys_text@, fit_key@, file_name@, line_key@)],
{
    crate::fit::FitErrs::from_object(
        Bootstrap::fit_sys_err(args, sys_text, fit_key, file_name.to_owned(), line_key.to_owned()),
    )
}

} // verus!
