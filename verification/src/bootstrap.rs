//! Low level JSON specifications for JahSpecs, rules and errors that are
//! needed before the document system is up and running.
//!
//! Errors are not reported in a human language: each names, by key, the
//! document that describes it.
use vstd::prelude::*;
use crate::json::{Json, JsonObject, JsonV, obj_insert, list_view, lookup, has_key, keys_unique, lemma_insert_unique};
use crate::jah_spec::{check_args_v, get_allowed_v, spec_well_formed, flat_rule, lemma_flat_doc_accepted,
    lemma_distinct_rule_keys};

verus! {

/// The namespace of the bootstrap documents.
pub struct Bootstrap;

/// `l79xpsPDlugK29zC`: Marks a trace-info error document.
pub open spec fn reply_error_trace_info_key_v() -> Seq<char> {
    "l79xpsPDlugK29zC"@
}

/// `VWnPY4CStrXkk4SU`: Marks a package of one or more errors.
pub open spec fn err_pack_key_v() -> Seq<char> {
    "VWnPY4CStrXkk4SU"@
}

/// `3S5UX55Q84zKqx5o`: Rule key: no ParT is registered under the requested key.
pub open spec fn part_does_not_exist_v() -> Seq<char> {
    "3S5UX55Q84zKqx5o"@
}

/// `j60qzWM5fDYugKuh`: Rule key: the arg must exist, not only be allowed.
pub open spec fn arg_rule_key_arg_must_exist_v() -> Seq<char> {
    "j60qzWM5fDYugKuh"@
}

/// `DZNl64Jyib2sQgde`: Rule key: the Par does not know the spec.
pub open spec fn arg_spec_key_not_known_to_par_v() -> Seq<char> {
    "DZNl64Jyib2sQgde"@
}

/// `DZNl64Jyib2sQgde`: Rule key: the Fit does not know the spec.
pub open spec fn arg_spec_key_not_known_to_fit_v() -> Seq<char> {
    "DZNl64Jyib2sQgde"@
}

/// `vTH21fYQkg6N6PBB`: Rule key: the spec requires the arg.
pub open spec fn arg_spec_key_arg_must_exist_v() -> Seq<char> {
    "vTH21fYQkg6N6PBB"@
}

/// `OmQSjHS5lXaNO3fT`: Rule key: the arg must be a string equal to the rule's value.
pub open spec fn arg_rule_key_str_arg_must_equal_v() -> Seq<char> {
    "OmQSjHS5lXaNO3fT"@
}

/// `rWa4heRrNWkwabbB`: Rule key: the arg must be a string.
pub open spec fn arg_rule_key_arg_key_must_be_string_v() -> Seq<char> {
    "rWa4heRrNWkwabbB"@
}

/// `VbXnEPrAXR7EFuqV`: Rule key: the arg must be an object.
pub open spec fn arg_rule_key_arg_must_be_object_v() -> Seq<char> {
    "VbXnEPrAXR7EFuqV"@
}

/// `SedD0iw7wRAqFNoT`: Rule key: the arg must be a number.
pub open spec fn arg_rule_arg_key_arg_must_be_number_v() -> Seq<char> {
    "SedD0iw7wRAqFNoT"@
}

/// `mHFrQhffSePzxCX8`: Rule key: the arg is not allowed.
pub open spec fn arg_rule_key_arg_is_not_allowed_v() -> Seq<char> {
    "mHFrQhffSePzxCX8"@
}

/// `jTA8LG31iLGuAo3e`: Rule key: the rule is not implemented.
pub open spec fn arg_rule_key_rule_must_be_implemented_v() -> Seq<char> {
    "jTA8LG31iLGuAo3e"@
}

/// `UbtWf9jG6pOCty32`: Rule key: the arg must be a list.
pub open spec fn arg_rule_key_arg_must_be_list_v() -> Seq<char> {
    "UbtWf9jG6pOCty32"@
}

/// `QjupoyKaP6yp35um`: Rule key: the arg must be a boolean.
pub open spec fn arg_rule_key_arg_must_be_bool_v() -> Seq<char> {
    "QjupoyKaP6yp35um"@
}

/// `uJmQQbpKD9GrIAYl`: The spec of a Fit system error.
pub open spec fn spec_fit_sys_err_key_v() -> Seq<char> {
    "uJmQQbpKD9GrIAYl"@
}

/// `f0ALGyiyVzMmy3z8`: The spec of a lurker hole.
pub open spec fn spec_hole_key_v() -> Seq<char> {
    "f0ALGyiyVzMmy3z8"@
}

/// `YvS6YKAm697XtRmG`: The spec of the location of the next lurker hole.
pub open spec fn spec_next_hole_location_key_v() -> Seq<char> {
    "YvS6YKAm697XtRmG"@
}

/// `rcq0cffIOqyhQrcl`: The spec of the location of a document.
pub open spec fn spec_doc_location_key_v() -> Seq<char> {
    "rcq0cffIOqyhQrcl"@
}

/// `YvS6YKAm697XtRmG`: The key of the spec of a hole location.
pub open spec fn spec_hole_location_v() -> Seq<char> {
    "YvS6YKAm697XtRmG"@
}

/// `gSNKN6Ey2JmDx70W`: The spec of the errors that enforcing specs generates.
pub open spec fn spec_rule_error_spec_key_v() -> Seq<char> {
    "gSNKN6Ey2JmDx70W"@
}

/// `MSzKdSSWEIP6WC5S`: The spec returned where the spec key cannot be determined.
pub open spec fn jah_corrupted_spec_key_v() -> Seq<char> {
    "MSzKdSSWEIP6WC5S"@
}

/// `VMldwIx01Q0ogNQb`: The spec that every JahSpec conforms to.
pub open spec fn jah_spec_spec_key_v() -> Seq<char> {
    "VMldwIx01Q0ogNQb"@
}

/// `k0fA2inA45gmmZHV`: The spec of a Must key.
pub open spec fn spec_must_must_key_v() -> Seq<char> {
    "k0fA2inA45gmmZHV"@
}

/// `g63UcB7rekfP4TlI`: The spec that spec rules conform to.
pub open spec fn spec_rule_spec_key_v() -> Seq<char> {
    "g63UcB7rekfP4TlI"@
}

/// `uHSQ7daYUXqUUPSo`: The spec of a document to add.
pub open spec fn spec_doc_key_v() -> Seq<char> {
    "uHSQ7daYUXqUUPSo"@
}

/// `whORgvuF4eBf8vog`: The spec of a slice of a file.
pub open spec fn spec_file_slice_key_v() -> Seq<char> {
    "whORgvuF4eBf8vog"@
}

/// `d6nLKNjnN05tJ2fl`: The spec of the result of reading a slice.
pub open spec fn spec_find_slice_result_key_v() -> Seq<char> {
    "d6nLKNjnN05tJ2fl"@
}

/// `mXnXQkmmB0GgltVM`: A request that the channel end communication.
pub open spec fn end_connection_key_v() -> Seq<char> {
    "mXnXQkmmB0GgltVM"@
}

/// `uHSQ7daYUXqUUPSo`: The spec of a request to add a document.
pub open spec fn spec_add_doc_key_v() -> Seq<char> {
    "uHSQ7daYUXqUUPSo"@
}

/// `CJeCZR6b9t6jj46S`: The key that marks a request to edit a document; no
/// spec is registered under it.
pub open spec fn spec_edit_doc_key_v() -> Seq<char> {
    "CJeCZR6b9t6jj46S"@
}

/// `u8jzPde0IgxLd6Gn`: The spec of a document as it is stored.
pub open spec fn spec_stored_doc_key_v() -> Seq<char> {
    "u8jzPde0IgxLd6Gn"@
}

/// `cfBAepfJBd0Kh8oO`: The key that marks a request to append an attached
/// slice to a file; no spec is registered under it.
pub open spec fn spec_append_slice_key_v() -> Seq<char> {
    "cfBAepfJBd0Kh8oO"@
}

/// `ma2snwuG8VPGxY8z`: The spec of the reply to a successful append.
pub open spec fn spec_append_doc_success_key_v() -> Seq<char> {
    "ma2snwuG8VPGxY8z"@
}

/// `bEEA7c4Yp9Xl3pX1`: The spec of a logic error.
pub open spec fn logic_error_key_v() -> Seq<char> {
    "bEEA7c4Yp9Xl3pX1"@
}

/// `CDzmiOuZ8Vq7Ahuz`: The error key carried by trace info.
pub open spec fn trace_info_err_key_v() -> Seq<char> {
    "CDzmiOuZ8Vq7Ahuz"@
}

/// `VWnPY4CStrXkk4SU`: The spec of a list of Fit errors.
pub open spec fn fit_errs_key_v() -> Seq<char> {
    "VWnPY4CStrXkk4SU"@
}

/// `OL8dKLzdocJ2isAj`: Rule key: a ParT was registered twice under one key.
pub open spec fn part_key_added_twice_key_v() -> Seq<char> {
    "OL8dKLzdocJ2isAj"@
}

/// `IhKtJ0RlgLKOmxgJ`: Rule key: the attachment that the args name is missing.
pub open spec fn named_attachment_is_missing_v() -> Seq<char> {
    "IhKtJ0RlgLKOmxgJ"@
}

/// `TeKdNnFRIBXuDL7D`: Rule key: an appended slice cannot be empty.
pub open spec fn slice_len_cannot_be_zero_v() -> Seq<char> {
    "TeKdNnFRIBXuDL7D"@
}

/// `OKfLlCA6dQbw9tD8`: The registration key of the DocSlicePrep Fit.
pub open spec fn doc_slice_prep_key_v() -> Seq<char> {
    "OKfLlCA6dQbw9tD8"@
}

/// `S68yWotrIh06IdE8`: The registration key of the FileAppendSlice Fit.
pub open spec fn file_append_slice_key_v() -> Seq<char> {
    "S68yWotrIh06IdE8"@
}

/// `tGMl7e89oQlKKQVu`: The registration key of the FileGetSlice Fit.
pub open spec fn file_get_slice_key_v() -> Seq<char> {
    "tGMl7e89oQlKKQVu"@
}

/// `EHR6DFySwtSHzlb2`: The registration key of the ErrFit Fit.
pub open spec fn err_fit_key_v() -> Seq<char> {
    "EHR6DFySwtSHzlb2"@
}

/// `AL9SJolxGQyklS4A`: The registration key of the StatelyTester Fit.
pub open spec fn stately_tester_key_v() -> Seq<char> {
    "AL9SJolxGQyklS4A"@
}

/// `UWmoVWUMfKsL8oyr`: The strand that every new request starts on.
pub open spec fn must_start_strand_v() -> Seq<char> {
    "UWmoVWUMfKsL8oyr"@
}

/// `tuUZAYq5uby19tYG`: The strand that runs the StatelyTester Fit.
pub open spec fn stately_tester_strand_v() -> Seq<char> {
    "tuUZAYq5uby19tYG"@
}

/// A rule: an object whose `rule_key` names it.
pub open spec fn rule_v(k: Seq<char>) -> Seq<(Seq<char>, JsonV)> {
    obj_insert(Seq::empty(), "rule_key"@, JsonV::Str(k))
}

/// A list of two rules.
pub open spec fn rules2_v(a: Seq<char>, b: Seq<char>) -> JsonV {
    JsonV::List(seq![JsonV::Object(rule_v(a)), JsonV::Object(rule_v(b))])
}

/// A member: `k` holds `v`.
pub open spec fn put(o: Seq<(Seq<char>, JsonV)>, k: &str, v: JsonV) -> Seq<(Seq<char>, JsonV)> {
    obj_insert(o, k@, v)
}

pub open spec fn empty_v() -> Seq<(Seq<char>, JsonV)> {
    Seq::empty()
}

pub open spec fn str_v(s: Seq<char>) -> JsonV {
    JsonV::Str(s)
}

/// The spec that Fit system errors conform to.
pub open spec fn spec_fit_sys_err_v() -> Seq<(Seq<char>, JsonV)> {
    put(put(empty_v(), "spec_key", str_v(spec_fit_sys_err_key_v())), "allowed", JsonV::Object(put(put(put(put(put(put(empty_v(), "sys_text", rules2_v(arg_rule_key_arg_must_exist_v(), arg_rule_key_arg_key_must_be_string_v())), "spec_key", rules2_v(arg_rule_key_arg_must_exist_v(), arg_rule_key_arg_key_must_be_string_v())), "fit_key", rules2_v(arg_rule_key_arg_must_exist_v(), arg_rule_key_arg_key_must_be_string_v())), "line_key", rules2_v(arg_rule_key_arg_must_exist_v(), arg_rule_key_arg_key_must_be_string_v())), "file_name", rules2_v(arg_rule_key_arg_must_exist_v(), arg_rule_key_arg_key_must_be_string_v())), "args", JsonV::List(Seq::empty()))))
}

/// The spec of the location of the next lurker hole.
pub open spec fn spec_next_hole_location_v() -> Seq<(Seq<char>, JsonV)> {
    put(put(empty_v(), "spec_key", str_v(spec_next_hole_location_key_v())), "allowed", JsonV::Object(put(put(empty_v(), "next_hole", rules2_v(arg_rule_key_arg_must_exist_v(), arg_rule_key_arg_must_be_object_v())), "spec_key", rules2_v(arg_rule_key_arg_must_exist_v(), arg_rule_key_arg_key_must_be_string_v()))))
}

/// The spec of the location of a document.
pub open spec fn spec_doc_location_v() -> Seq<(Seq<char>, JsonV)> {
    put(put(empty_v(), "spec_key", str_v(spec_doc_location_key_v())), "allowed", JsonV::Object(put(put(empty_v(), "next_hole", rules2_v(arg_rule_key_arg_must_exist_v(), arg_rule_key_arg_must_be_object_v())), "spec_key", rules2_v(arg_rule_key_arg_must_exist_v(), arg_rule_key_arg_key_must_be_string_v()))))
}

/// The spec of the errors generated through enforcing specs.
pub open spec fn spec_rule_error_spec_v() -> Seq<(Seq<char>, JsonV)> {
    put(put(empty_v(), "spec_key", str_v(spec_rule_error_spec_key_v())), "allowed", JsonV::Object(put(put(put(put(put(put(empty_v(), "rule_key", rules2_v(arg_rule_key_arg_must_exist_v(), arg_rule_key_arg_key_must_be_string_v())), "spec_key", rules2_v(arg_rule_key_arg_must_exist_v(), arg_rule_key_arg_key_must_be_string_v())), "arg_name", rules2_v(arg_rule_key_arg_must_exist_v(), arg_rule_key_arg_key_must_be_string_v())), "rule_key", rules2_v(arg_rule_key_arg_must_exist_v(), arg_rule_key_arg_key_must_be_string_v())), "line_key", rules2_v(arg_rule_key_arg_must_exist_v(), arg_rule_key_arg_key_must_be_string_v())), "file_name", rules2_v(arg_rule_key_arg_must_exist_v(), arg_rule_key_arg_key_must_be_string_v()))))
}

/// The spec of a Must key.
pub open spec fn spec_must_v() -> Seq<(Seq<char>, JsonV)> {
    put(put(empty_v(), "spec_key", str_v(spec_must_must_key_v())), "allowed", JsonV::Object(put(put(put(empty_v(), "key", rules2_v(arg_rule_key_arg_must_exist_v(), arg_rule_key_arg_key_must_be_string_v())), "sec", rules2_v(arg_rule_key_arg_must_exist_v(), arg_rule_arg_key_arg_must_be_number_v())), "nsec", rules2_v(arg_rule_key_arg_must_exist_v(), arg_rule_arg_key_arg_must_be_number_v()))))
}

/// The spec that spec rules conform to.
pub open spec fn spec_rule_spec_v() -> Seq<(Seq<char>, JsonV)> {
    put(put(empty_v(), "spec_key", str_v(spec_rule_spec_key_v())), "allowed", JsonV::Object(put(empty_v(), "rule_key", rules2_v(arg_rule_key_arg_must_exist_v(), arg_rule_key_arg_key_must_be_string_v()))))
}

/// The spec of a document to add.
pub open spec fn spec_doc_v() -> Seq<(Seq<char>, JsonV)> {
    put(put(empty_v(), "allowed", JsonV::Object(put(put(put(put(put(empty_v(), "user", rules2_v(arg_rule_key_arg_key_must_be_string_v(), arg_rule_key_arg_must_exist_v())), "acct", rules2_v(arg_rule_key_arg_key_must_be_string_v(), arg_rule_key_arg_must_exist_v())), "must", rules2_v(arg_rule_key_arg_must_be_object_v(), arg_rule_key_arg_must_exist_v())), "doc", rules2_v(arg_rule_key_arg_must_be_object_v(), arg_rule_key_arg_must_exist_v())), "spec_key", rules2_v(arg_rule_key_arg_key_must_be_string_v(), arg_rule_key_arg_must_exist_v())))), "spec_key", str_v(spec_doc_key_v()))
}

/// The spec of a document as it is stored.
pub open spec fn spec_stored_doc_v() -> Seq<(Seq<char>, JsonV)> {
    put(put(empty_v(), "allowed", JsonV::Object(put(put(put(put(put(empty_v(), "user", rules2_v(arg_rule_key_arg_key_must_be_string_v(), arg_rule_key_arg_must_exist_v())), "acct", rules2_v(arg_rule_key_arg_key_must_be_string_v(), arg_rule_key_arg_must_exist_v())), "must", rules2_v(arg_rule_key_arg_must_be_object_v(), arg_rule_key_arg_must_exist_v())), "doc", rules2_v(arg_rule_key_arg_must_be_object_v(), arg_rule_key_arg_must_exist_v())), "spec_key", rules2_v(arg_rule_key_arg_key_must_be_string_v(), arg_rule_key_arg_must_exist_v())))), "spec_key", str_v(spec_stored_doc_key_v()))
}

/// The spec of a slice of a file.
pub open spec fn spec_file_slice_v() -> Seq<(Seq<char>, JsonV)> {
    put(put(empty_v(), "allowed", JsonV::Object(put(put(put(put(empty_v(), "pos", rules2_v(arg_rule_arg_key_arg_must_be_number_v(), arg_rule_key_arg_must_exist_v())), "len", rules2_v(arg_rule_arg_key_arg_must_be_number_v(), arg_rule_key_arg_must_exist_v())), "fn", rules2_v(arg_rule_arg_key_arg_must_be_number_v(), arg_rule_key_arg_must_exist_v())), "spec_key", rules2_v(arg_rule_key_arg_key_must_be_string_v(), arg_rule_key_arg_must_exist_v())))), "spec_key", str_v(spec_file_slice_key_v()))
}

/// The spec of the result of reading a slice.
pub open spec fn spec_find_slice_result_v() -> Seq<(Seq<char>, JsonV)> {
    put(put(empty_v(), "allowed", JsonV::Object(put(put(empty_v(), "attach", rules2_v(arg_rule_key_arg_key_must_be_string_v(), arg_rule_key_arg_must_exist_v())), "spec_key", rules2_v(arg_rule_key_arg_key_must_be_string_v(), arg_rule_key_arg_must_exist_v())))), "spec_key", str_v(spec_find_slice_result_key_v()))
}

/// The spec of the reply to a successful append.
pub open spec fn spec_append_doc_success_v() -> Seq<(Seq<char>, JsonV)> {
    put(put(empty_v(), "allowed", JsonV::Object(put(put(empty_v(), "slice", rules2_v(arg_rule_key_arg_must_be_object_v(), arg_rule_key_arg_must_exist_v())), "spec_key", rules2_v(arg_rule_key_arg_key_must_be_string_v(), arg_rule_key_arg_must_exist_v())))), "spec_key", str_v(spec_append_doc_success_key_v()))
}

/// The jah_spec that every JahSpec conforms to.
pub open spec fn jah_spec_spec_v() -> Seq<(Seq<char>, JsonV)> {
    put(put(empty_v(), "spec_key", str_v(jah_spec_spec_key_v())), "allowed", JsonV::Object(put(empty_v(), "allowed", rules2_v(arg_rule_key_arg_must_exist_v(), arg_rule_key_arg_must_be_object_v()))))
}

/// The spec returned where the spec key cannot be determined: it allows nothing.
pub open spec fn jah_corrupted_spec_v() -> Seq<(Seq<char>, JsonV)> {
    put(put(empty_v(), "spec_key", str_v(jah_corrupted_spec_key_v())), "allowed", JsonV::Object(put(empty_v(), "allowed", JsonV::List(Seq::empty()))))
}

/// A request that the channel end communication.
pub open spec fn end_connection_v() -> Seq<(Seq<char>, JsonV)> {
    put(empty_v(), "spec_key", str_v(end_connection_key_v()))
}

/// The error document for a system error inside a Fit.
pub open spec fn fit_sys_err_v(args: Seq<(Seq<char>, JsonV)>, sys_text: Seq<char>, fit_key: Seq<char>, file_name: Seq<char>, line_key: Seq<char>) -> Seq<(Seq<char>, JsonV)> {
    put(put(put(put(put(put(empty_v(), "sys_text", str_v(sys_text)), "spec_key", str_v(spec_fit_sys_err_key_v())), "fit_key", str_v(fit_key)), "line_key", str_v(line_key)), "file_name", str_v(file_name)), "args", JsonV::Object(args))
}

/// The error document for a violated spec rule.
pub open spec fn spec_rule_error_v(rule_key: Seq<char>, arg_name: Seq<char>, spec_key: Seq<char>, line_key: Seq<char>, file_name: Seq<char>) -> Seq<(Seq<char>, JsonV)> {
    put(put(put(put(put(empty_v(), "rule_key", str_v(rule_key)), "spec_key", str_v(spec_key)), "arg_name", str_v(arg_name)), "line_key", str_v(line_key)), "file_name", str_v(file_name))
}

/// The error document for a logic error.
pub open spec fn logic_error_v(rule_key: Seq<char>, arg_name: Seq<char>, line_key: Seq<char>, file_name: Seq<char>) -> Seq<(Seq<char>, JsonV)> {
    put(put(put(put(put(empty_v(), "rule_key", str_v(rule_key)), "spec_key", str_v(logic_error_key_v())), "arg_name", str_v(arg_name)), "line_key", str_v(line_key)), "file_name", str_v(file_name))
}

/// The trace info that code adds when it passes an error on.
pub open spec fn reply_error_trace_info_v(file_name: Seq<char>, line_key: Seq<char>) -> Seq<(Seq<char>, JsonV)> {
    put(put(put(put(empty_v(), "err_key", str_v(trace_info_err_key_v())), "file_name", str_v(file_name)), "spec_key", str_v(reply_error_trace_info_key_v())), "line_key", str_v(line_key))
}

/// The objects of a list of error documents.
pub open spec fn objects_v(errs: Seq<Seq<(Seq<char>, JsonV)>>) -> Seq<JsonV> {
    Seq::new(errs.len(), |i: int| JsonV::Object(errs[i]))
}

/// One or more errors, packaged.
pub open spec fn err_pack_v(errs: Seq<Seq<(Seq<char>, JsonV)>>) -> Seq<(Seq<char>, JsonV)> {
    put(put(empty_v(), "errs", JsonV::List(objects_v(errs))), "spec_key", str_v(err_pack_key_v()))
}

/// The rule that the arg must be a string equal to `value`.
pub open spec fn arg_rule_str_arg_must_equal_v(value: Seq<char>) -> Seq<(Seq<char>, JsonV)> {
    put(rule_v(arg_rule_key_str_arg_must_equal_v()), "value", str_v(value))
}

/// The view of a sequence of objects.
pub open spec fn objs_view(v: Seq<JsonObject>) -> Seq<Seq<(Seq<char>, JsonV)>> {
    Seq::new(v.len(), |i: int| v[i]@)
}

/// The bootstrap spec registered under `key`; the corrupted spec for any other key.
pub open spec fn find_spec_v(key: Seq<char>) -> Seq<(Seq<char>, JsonV)> {
    if key == jah_spec_spec_key_v() { jah_spec_spec_v() } else { if key == jah_corrupted_spec_key_v() { jah_corrupted_spec_v() } else { if key == spec_must_must_key_v() { spec_must_v() } else { if key == spec_rule_spec_key_v() { spec_rule_spec_v() } else { if key == end_connection_key_v() { end_connection_v() } else { if key == spec_rule_error_spec_key_v() { spec_rule_error_spec_v() } else { if key == spec_fit_sys_err_key_v() { spec_fit_sys_err_v() } else { if key == spec_doc_key_v() { spec_doc_v() } else { if key == spec_file_slice_key_v() { spec_file_slice_v() } else { if key == spec_find_slice_result_key_v() { spec_find_slice_result_v() } else { if key == spec_stored_doc_key_v() { spec_stored_doc_v() } else { if key == spec_append_doc_success_key_v() { spec_append_doc_success_v() } else { jah_corrupted_spec_v() } } } } } } } } } } } }
}

/// Each registered spec key finds its own spec: the keys differ in one of
/// their first two characters.
pub proof fn lemma_find_spec_registered()
    ensures
        find_spec_v(jah_spec_spec_key_v()) == jah_spec_spec_v(),
        find_spec_v(jah_corrupted_spec_key_v()) == jah_corrupted_spec_v(),
        find_spec_v(spec_must_must_key_v()) == spec_must_v(),
        find_spec_v(spec_rule_spec_key_v()) == spec_rule_spec_v(),
        find_spec_v(end_connection_key_v()) == end_connection_v(),
        find_spec_v(spec_rule_error_spec_key_v()) == spec_rule_error_spec_v(),
        find_spec_v(spec_fit_sys_err_key_v()) == spec_fit_sys_err_v(),
        find_spec_v(spec_doc_key_v()) == spec_doc_v(),
        find_spec_v(spec_file_slice_key_v()) == spec_file_slice_v(),
        find_spec_v(spec_find_slice_result_key_v()) == spec_find_slice_result_v(),
        find_spec_v(spec_stored_doc_key_v()) == spec_stored_doc_v(),
        find_spec_v(spec_append_doc_success_key_v()) == spec_append_doc_success_v(),
{
    reveal_strlit("VMldwIx01Q0ogNQb");
    reveal_strlit("MSzKdSSWEIP6WC5S");
    reveal_strlit("k0fA2inA45gmmZHV");
    reveal_strlit("g63UcB7rekfP4TlI");
    reveal_strlit("mXnXQkmmB0GgltVM");
    reveal_strlit("gSNKN6Ey2JmDx70W");
    reveal_strlit("uJmQQbpKD9GrIAYl");
    reveal_strlit("uHSQ7daYUXqUUPSo");
    reveal_strlit("whORgvuF4eBf8vog");
    reveal_strlit("d6nLKNjnN05tJ2fl");
    reveal_strlit("u8jzPde0IgxLd6Gn");
    reveal_strlit("ma2snwuG8VPGxY8z");
    assert("MSzKdSSWEIP6WC5S"@[0] != "VMldwIx01Q0ogNQb"@[0]);
    assert("k0fA2inA45gmmZHV"@[0] != "VMldwIx01Q0ogNQb"@[0]);
    assert("k0fA2inA45gmmZHV"@[0] != "MSzKdSSWEIP6WC5S"@[0]);
    assert("g63UcB7rekfP4TlI"@[0] != "VMldwIx01Q0ogNQb"@[0]);
    assert("g63UcB7rekfP4TlI"@[0] != "MSzKdSSWEIP6WC5S"@[0]);
    assert("g63UcB7rekfP4TlI"@[0] != "k0fA2inA45gmmZHV"@[0]);
    assert("mXnXQkmmB0GgltVM"@[0] != "VMldwIx01Q0ogNQb"@[0]);
    assert("mXnXQkmmB0GgltVM"@[0] != "MSzKdSSWEIP6WC5S"@[0]);
    assert("mXnXQkmmB0GgltVM"@[0] != "k0fA2inA45gmmZHV"@[0]);
    assert("mXnXQkmmB0GgltVM"@[0] != "g63UcB7rekfP4TlI"@[0]);
    assert("gSNKN6Ey2JmDx70W"@[0] != "VMldwIx01Q0ogNQb"@[0]);
    assert("gSNKN6Ey2JmDx70W"@[0] != "MSzKdSSWEIP6WC5S"@[0]);
    assert("gSNKN6Ey2JmDx70W"@[0] != "k0fA2inA45gmmZHV"@[0]);
    assert("gSNKN6Ey2JmDx70W"@[1] != "g63UcB7rekfP4TlI"@[1]);
    assert("gSNKN6Ey2JmDx70W"@[0] != "mXnXQkmmB0GgltVM"@[0]);
    assert("uJmQQbpKD9GrIAYl"@[0] != "VMldwIx01Q0ogNQb"@[0]);
    assert("uJmQQbpKD9GrIAYl"@[0] != "MSzKdSSWEIP6WC5S"@[0]);
    assert("uJmQQbpKD9GrIAYl"@[0] != "k0fA2inA45gmmZHV"@[0]);
    assert("uJmQQbpKD9GrIAYl"@[0] != "g63UcB7rekfP4TlI"@[0]);
    assert("uJmQQbpKD9GrIAYl"@[0] != "mXnXQkmmB0GgltVM"@[0]);
    assert("uJmQQbpKD9GrIAYl"@[0] != "gSNKN6Ey2JmDx70W"@[0]);
    assert("uHSQ7daYUXqUUPSo"@[0] != "VMldwIx01Q0ogNQb"@[0]);
    assert("uHSQ7daYUXqUUPSo"@[0] != "MSzKdSSWEIP6WC5S"@[0]);
    assert("uHSQ7daYUXqUUPSo"@[0] != "k0fA2inA45gmmZHV"@[0]);
    assert("uHSQ7daYUXqUUPSo"@[0] != "g63UcB7rekfP4TlI"@[0]);
    assert("uHSQ7daYUXqUUPSo"@[0] != "mXnXQkmmB0GgltVM"@[0]);
    assert("uHSQ7daYUXqUUPSo"@[0] != "gSNKN6Ey2JmDx70W"@[0]);
    assert("uHSQ7daYUXqUUPSo"@[1] != "uJmQQbpKD9GrIAYl"@[1]);
    assert("whORgvuF4eBf8vog"@[0] != "VMldwIx01Q0ogNQb"@[0]);
    assert("whORgvuF4eBf8vog"@[0] != "MSzKdSSWEIP6WC5S"@[0]);
    assert("whORgvuF4eBf8vog"@[0] != "k0fA2inA45gmmZHV"@[0]);
    assert("whORgvuF4eBf8vog"@[0] != "g63UcB7rekfP4TlI"@[0]);
    assert("whORgvuF4eBf8vog"@[0] != "mXnXQkmmB0GgltVM"@[0]);
    assert("whORgvuF4eBf8vog"@[0] != "gSNKN6Ey2JmDx70W"@[0]);
    assert("whORgvuF4eBf8vog"@[0] != "uJmQQbpKD9GrIAYl"@[0]);
    assert("whORgvuF4eBf8vog"@[0] != "uHSQ7daYUXqUUPSo"@[0]);
    assert("d6nLKNjnN05tJ2fl"@[0] != "VMldwIx01Q0ogNQb"@[0]);
    assert("d6nLKNjnN05tJ2fl"@[0] != "MSzKdSSWEIP6WC5S"@[0]);
    assert("d6nLKNjnN05tJ2fl"@[0] != "k0fA2inA45gmmZHV"@[0]);
    assert("d6nLKNjnN05tJ2fl"@[0] != "g63UcB7rekfP4TlI"@[0]);
    assert("d6nLKNjnN05tJ2fl"@[0] != "mXnXQkmmB0GgltVM"@[0]);
    assert("d6nLKNjnN05tJ2fl"@[0] != "gSNKN6Ey2JmDx70W"@[0]);
    assert("d6nLKNjnN05tJ2fl"@[0] != "uJmQQbpKD9GrIAYl"@[0]);
    assert("d6nLKNjnN05tJ2fl"@[0] != "uHSQ7daYUXqUUPSo"@[0]);
    assert("d6nLKNjnN05tJ2fl"@[0] != "whORgvuF4eBf8vog"@[0]);
    assert("u8jzPde0IgxLd6Gn"@[0] != "VMldwIx01Q0ogNQb"@[0]);
    assert("u8jzPde0IgxLd6Gn"@[0] != "MSzKdSSWEIP6WC5S"@[0]);
    assert("u8jzPde0IgxLd6Gn"@[0] != "k0fA2inA45gmmZHV"@[0]);
    assert("u8jzPde0IgxLd6Gn"@[0] != "g63UcB7rekfP4TlI"@[0]);
    assert("u8jzPde0IgxLd6Gn"@[0] != "mXnXQkmmB0GgltVM"@[0]);
    assert("u8jzPde0IgxLd6Gn"@[0] != "gSNKN6Ey2JmDx70W"@[0]);
    assert("u8jzPde0IgxLd6Gn"@[1] != "uJmQQbpKD9GrIAYl"@[1]);
    assert("u8jzPde0IgxLd6Gn"@[1] != "uHSQ7daYUXqUUPSo"@[1]);
    assert("u8jzPde0IgxLd6Gn"@[0] != "whORgvuF4eBf8vog"@[0]);
    assert("u8jzPde0IgxLd6Gn"@[0] != "d6nLKNjnN05tJ2fl"@[0]);
    assert("ma2snwuG8VPGxY8z"@[0] != "VMldwIx01Q0ogNQb"@[0]);
    assert("ma2snwuG8VPGxY8z"@[0] != "MSzKdSSWEIP6WC5S"@[0]);
    assert("ma2snwuG8VPGxY8z"@[0] != "k0fA2inA45gmmZHV"@[0]);
    assert("ma2snwuG8VPGxY8z"@[0] != "g63UcB7rekfP4TlI"@[0]);
    assert("ma2snwuG8VPGxY8z"@[1] != "mXnXQkmmB0GgltVM"@[1]);
    assert("ma2snwuG8VPGxY8z"@[0] != "gSNKN6Ey2JmDx70W"@[0]);
    assert("ma2snwuG8VPGxY8z"@[0] != "uJmQQbpKD9GrIAYl"@[0]);
    assert("ma2snwuG8VPGxY8z"@[0] != "uHSQ7daYUXqUUPSo"@[0]);
    assert("ma2snwuG8VPGxY8z"@[0] != "whORgvuF4eBf8vog"@[0]);
    assert("ma2snwuG8VPGxY8z"@[0] != "d6nLKNjnN05tJ2fl"@[0]);
    assert("ma2snwuG8VPGxY8z"@[0] != "u8jzPde0IgxLd6Gn"@[0]);
}

/// The rules of a required string, and of a required number.
pub proof fn lemma_required_rules_differ()
    ensures
        rules2_v(arg_rule_key_arg_must_exist_v(), arg_rule_key_arg_key_must_be_string_v())
            != rules2_v(arg_rule_key_arg_must_exist_v(), arg_rule_arg_key_arg_must_be_number_v()),
        rules2_v(arg_rule_key_arg_must_exist_v(), arg_rule_key_arg_key_must_be_string_v()) != JsonV::List(Seq::empty()),
{
    lemma_distinct_rule_keys();
    let s = rule_v(arg_rule_key_arg_key_must_be_string_v());
    let n = rule_v(arg_rule_arg_key_arg_must_be_number_v());
    assert(s[0].1 != n[0].1);
    if rules2_v(arg_rule_key_arg_must_exist_v(), arg_rule_key_arg_key_must_be_string_v())
        == rules2_v(arg_rule_key_arg_must_exist_v(), arg_rule_arg_key_arg_must_be_number_v()) {
        assert(JsonV::Object(s) == JsonV::Object(n));
    }
    if rules2_v(arg_rule_key_arg_must_exist_v(), arg_rule_key_arg_key_must_be_string_v()) == JsonV::List(Seq::empty()) {
        assert(seq![JsonV::Object(rule_v(arg_rule_key_arg_must_exist_v())), JsonV::Object(s)].len() == 0);
    }
}

/// A spec made of `spec_key` and `allowed`, in either order, is well formed.
pub proof fn lemma_spec_shape(key: Seq<char>, allowed: Seq<(Seq<char>, JsonV)>)
    ensures
        spec_well_formed(put(put(empty_v(), "spec_key", str_v(key)), "allowed", JsonV::Object(allowed))),
        get_allowed_v(put(put(empty_v(), "spec_key", str_v(key)), "allowed", JsonV::Object(allowed)))
            == Ok::<Seq<(Seq<char>, JsonV)>, crate::jah_spec::Errs>(allowed),
{
    reveal_strlit("spec_key");
    reveal_strlit("allowed");
    assert("allowed"@[0] != "spec_key"@[0]);
    let s1 = put(empty_v(), "spec_key", str_v(key));
    lemma_insert_unique(empty_v(), "spec_key"@, str_v(key));
    lemma_insert_unique(s1, "allowed"@, JsonV::Object(allowed));
    assert(put(s1, "allowed", JsonV::Object(allowed)).len() == 2);
}

/// Errors for violated spec rules conform to the rule-error spec.
pub proof fn lemma_spec_rule_error_conforms(rule_key: Seq<char>, arg_name: Seq<char>, spec_key: Seq<char>, line_key: Seq<char>, file_name: Seq<char>)
    ensures
        check_args_v(spec_rule_error_spec_v(), spec_rule_error_v(rule_key, arg_name, spec_key, line_key, file_name)) is Ok,
{
    reveal_strlit("rule_key");
    reveal_strlit("spec_key");
    reveal_strlit("arg_name");
    reveal_strlit("line_key");
    reveal_strlit("file_name");
    assert("rule_key"@[0] != "spec_key"@[0]);
    assert("rule_key"@[0] != "arg_name"@[0]);
    assert("rule_key"@[0] != "line_key"@[0]);
    assert("rule_key"@[0] != "file_name"@[0]);
    assert("spec_key"@[0] != "arg_name"@[0]);
    assert("spec_key"@[0] != "line_key"@[0]);
    assert("spec_key"@[0] != "file_name"@[0]);
    assert("arg_name"@[0] != "line_key"@[0]);
    assert("arg_name"@[0] != "file_name"@[0]);
    assert("line_key"@[0] != "file_name"@[0]);
    lemma_required_rules_differ();
    let rs = rules2_v(arg_rule_key_arg_must_exist_v(), arg_rule_key_arg_key_must_be_string_v());
    let e = empty_v();
    let a1 = put(e, "rule_key", rs);
    let a2 = put(a1, "spec_key", rs);
    let a3 = put(a2, "arg_name", rs);
    let a4 = put(a3, "rule_key", rs);
    let a5 = put(a4, "line_key", rs);
    let a = put(a5, "file_name", rs);
    lemma_insert_unique(e, "rule_key"@, rs);
    lemma_insert_unique(a1, "spec_key"@, rs);
    lemma_insert_unique(a2, "arg_name"@, rs);
    lemma_insert_unique(a3, "rule_key"@, rs);
    lemma_insert_unique(a4, "line_key"@, rs);
    lemma_insert_unique(a5, "file_name"@, rs);
    let r1 = put(e, "rule_key", str_v(rule_key));
    let r2 = put(r1, "spec_key", str_v(spec_key));
    let r3 = put(r2, "arg_name", str_v(arg_name));
    let r4 = put(r3, "line_key", str_v(line_key));
    let r = put(r4, "file_name", str_v(file_name));
    lemma_insert_unique(e, "rule_key"@, str_v(rule_key));
    lemma_insert_unique(r1, "spec_key"@, str_v(spec_key));
    lemma_insert_unique(r2, "arg_name"@, str_v(arg_name));
    lemma_insert_unique(r3, "line_key"@, str_v(line_key));
    lemma_insert_unique(r4, "file_name"@, str_v(file_name));
    lemma_spec_shape(spec_rule_error_spec_key_v(), a);
    assert forall|k: Seq<char>| #[trigger] has_key(a, k) implies flat_rule(lookup(a, k)->Some_0) by {
        assert(lookup(a, k) == Some(rs));
    }
    assert forall|k: Seq<char>| #[trigger] has_key(r, k) implies has_key(a, k) by {
        assert(lookup(r, k) is Some);
        assert(lookup(a, k) is Some);
    }
    assert forall|k: Seq<char>| lookup(a, k) == Some(rs) implies #[trigger] lookup(r, k) matches Some(JsonV::Str(_)) by {
        assert(lookup(a, k) is Some);
    }
    lemma_flat_doc_accepted(spec_rule_error_spec_v(), r);
}

/// The error documents for Fit system errors conform to their spec.
pub proof fn lemma_fit_sys_err_conforms(args: Seq<(Seq<char>, JsonV)>, sys_text: Seq<char>, fit_key: Seq<char>, file_name: Seq<char>, line_key: Seq<char>)
    ensures
        check_args_v(spec_fit_sys_err_v(), fit_sys_err_v(args, sys_text, fit_key, file_name, line_key)) is Ok,
{
    reveal_strlit("sys_text");
    reveal_strlit("spec_key");
    reveal_strlit("fit_key");
    reveal_strlit("line_key");
    reveal_strlit("file_name");
    reveal_strlit("args");
    assert("spec_key"@[1] != "sys_text"@[1]);
    assert("fit_key"@[0] != "sys_text"@[0]);
    assert("fit_key"@[0] != "spec_key"@[0]);
    assert("line_key"@[0] != "sys_text"@[0]);
    assert("line_key"@[0] != "spec_key"@[0]);
    assert("line_key"@[0] != "fit_key"@[0]);
    assert("file_name"@[0] != "sys_text"@[0]);
    assert("file_name"@[0] != "spec_key"@[0]);
    assert("file_name"@[2] != "fit_key"@[2]);
    assert("file_name"@[0] != "line_key"@[0]);
    assert("args"@[0] != "sys_text"@[0]);
    assert("args"@[0] != "spec_key"@[0]);
    assert("args"@[0] != "fit_key"@[0]);
    assert("args"@[0] != "line_key"@[0]);
    assert("args"@[0] != "file_name"@[0]);
    lemma_required_rules_differ();
    let rs = rules2_v(arg_rule_key_arg_must_exist_v(), arg_rule_key_arg_key_must_be_string_v());
    let rn = rules2_v(arg_rule_key_arg_must_exist_v(), arg_rule_arg_key_arg_must_be_number_v());
    let el = JsonV::List(Seq::empty());
    let e = empty_v();
    let a1 = put(e, "sys_text", rs);
    let a2 = put(a1, "spec_key", rs);
    let a3 = put(a2, "fit_key", rs);
    let a4 = put(a3, "line_key", rs);
    let a5 = put(a4, "file_name", rs);
    let a = put(a5, "args", el);
    lemma_insert_unique(e, "sys_text"@, rs);
    lemma_insert_unique(a1, "spec_key"@, rs);
    lemma_insert_unique(a2, "fit_key"@, rs);
    lemma_insert_unique(a3, "line_key"@, rs);
    lemma_insert_unique(a4, "file_name"@, rs);
    lemma_insert_unique(a5, "args"@, el);
    let r1 = put(e, "sys_text", str_v(sys_text));
    let r2 = put(r1, "spec_key", str_v(spec_fit_sys_err_key_v()));
    let r3 = put(r2, "fit_key", str_v(fit_key));
    let r4 = put(r3, "line_key", str_v(line_key));
    let r5 = put(r4, "file_name", str_v(file_name));
    let r = put(r5, "args", JsonV::Object(args));
    lemma_insert_unique(e, "sys_text"@, str_v(sys_text));
    lemma_insert_unique(r1, "spec_key"@, str_v(spec_fit_sys_err_key_v()));
    lemma_insert_unique(r2, "fit_key"@, str_v(fit_key));
    lemma_insert_unique(r3, "line_key"@, str_v(line_key));
    lemma_insert_unique(r4, "file_name"@, str_v(file_name));
    lemma_insert_unique(r5, "args"@, JsonV::Object(args));
    lemma_spec_shape(spec_fit_sys_err_key_v(), a);
    assert forall|k: Seq<char>| #[trigger] has_key(a, k) implies flat_rule(lookup(a, k)->Some_0) by {
        assert(lookup(a, k) == Some(rs) || lookup(a, k) == Some(el));
    }
    assert forall|k: Seq<char>| #[trigger] has_key(r, k) implies has_key(a, k) by {
        assert(lookup(r, k) is Some);
        assert(lookup(a, k) is Some);
    }
    assert forall|k: Seq<char>| lookup(a, k) == Some(rs) implies #[trigger] lookup(r, k) matches Some(JsonV::Str(_)) by {
        assert(lookup(a, k) is Some);
    }
    assert forall|k: Seq<char>| lookup(a, k) == Some(rn) implies #[trigger] lookup(r, k) matches Some(JsonV::Number(_)) by {
        assert(lookup(a, k) == Some(rs) || lookup(a, k) == Some(el));
    }
    lemma_flat_doc_accepted(spec_fit_sys_err_v(), r);
}

impl Bootstrap {
    /// Marks a trace-info error document.
    pub fn reply_error_trace_info_key() -> (r: String)
        ensures
            r@ == reply_error_trace_info_key_v(),
    {
        "l79xpsPDlugK29zC".to_owned()
    }

    /// Marks a package of one or more errors.
    pub fn err_pack_key() -> (r: String)
        ensures
            r@ == err_pack_key_v(),
    {
        "VWnPY4CStrXkk4SU".to_owned()
    }

    /// Rule key: no ParT is registered under the requested key.
    pub fn part_does_not_exist() -> (r: String)
        ensures
            r@ == part_does_not_exist_v(),
    {
        "3S5UX55Q84zKqx5o".to_owned()
    }

    /// Rule key: the arg must exist, not only be allowed.
    pub fn arg_rule_key_arg_must_exist() -> (r: String)
        ensures
            r@ == arg_rule_key_arg_must_exist_v(),
    {
        "j60qzWM5fDYugKuh".to_owned()
    }

    /// Rule key: the Par does not know the spec.
    pub fn arg_spec_key_not_known_to_par() -> (r: String)
        ensures
            r@ == arg_spec_key_not_known_to_par_v(),
    {
        "DZNl64Jyib2sQgde".to_owned()
    }

    /// Rule key: the Fit does not know the spec.
    pub fn arg_spec_key_not_known_to_fit() -> (r: String)
        ensures
            r@ == arg_spec_key_not_known_to_fit_v(),
    {
        "DZNl64Jyib2sQgde".to_owned()
    }

    /// Rule key: the spec requires the arg.
    pub fn arg_spec_key_arg_must_exist() -> (r: String)
        ensures
            r@ == arg_spec_key_arg_must_exist_v(),
    {
        "vTH21fYQkg6N6PBB".to_owned()
    }

    /// Rule key: the arg must be a string equal to the rule's value.
    pub fn arg_rule_key_str_arg_must_equal() -> (r: String)
        ensures
            r@ == arg_rule_key_str_arg_must_equal_v(),
    {
        "OmQSjHS5lXaNO3fT".to_owned()
    }

    /// Rule key: the arg must be a string.
    pub fn arg_rule_key_arg_key_must_be_string() -> (r: String)
        ensures
            r@ == arg_rule_key_arg_key_must_be_string_v(),
    {
        "rWa4heRrNWkwabbB".to_owned()
    }

    /// Rule key: the arg must be an object.
    pub fn arg_rule_key_arg_must_be_object() -> (r: String)
        ensures
            r@ == arg_rule_key_arg_must_be_object_v(),
    {
        "VbXnEPrAXR7EFuqV".to_owned()
    }

    /// Rule key: the arg must be a number.
    pub fn arg_rule_arg_key_arg_must_be_number() -> (r: String)
        ensures
            r@ == arg_rule_arg_key_arg_must_be_number_v(),
    {
        "SedD0iw7wRAqFNoT".to_owned()
    }

    /// Rule key: the arg is not allowed.
    pub fn arg_rule_key_arg_is_not_allowed() -> (r: String)
        ensures
            r@ == arg_rule_key_arg_is_not_allowed_v(),
    {
        "mHFrQhffSePzxCX8".to_owned()
    }

    /// Rule key: the rule is not implemented.
    pub fn arg_rule_key_rule_must_be_implemented() -> (r: String)
        ensures
            r@ == arg_rule_key_rule_must_be_implemented_v(),
    {
        "jTA8LG31iLGuAo3e".to_owned()
    }

    /// Rule key: the arg must be a list.
    pub fn arg_rule_key_arg_must_be_list() -> (r: String)
        ensures
            r@ == arg_rule_key_arg_must_be_list_v(),
    {
        "UbtWf9jG6pOCty32".to_owned()
    }

    /// Rule key: the arg must be a boolean.
    pub fn arg_rule_key_arg_must_be_bool() -> (r: String)
        ensures
            r@ == arg_rule_key_arg_must_be_bool_v(),
    {
        "QjupoyKaP6yp35um".to_owned()
    }

    /// The spec of a Fit system error.
    pub fn spec_fit_sys_err_key() -> (r: String)
        ensures
            r@ == spec_fit_sys_err_key_v(),
    {
        "uJmQQbpKD9GrIAYl".to_owned()
    }

    /// The spec of a lurker hole.
    pub(crate) fn spec_hole_key() -> (r: String)
        ensures
            r@ == spec_hole_key_v(),
    {
        "f0ALGyiyVzMmy3z8".to_owned()
    }

    /// The spec of the location of the next lurker hole.
    pub(crate) fn spec_next_hole_location_key() -> (r: String)
        ensures
            r@ == spec_next_hole_location_key_v(),
    {
        "YvS6YKAm697XtRmG".to_owned()
    }

    /// The spec of the location of a document.
    pub(crate) fn spec_doc_location_key() -> (r: String)
        ensures
            r@ == spec_doc_location_key_v(),
    {
        "rcq0cffIOqyhQrcl".to_owned()
    }

    /// The key of the spec of a hole location.
    pub(crate) fn spec_hole_location() -> (r: String)
        ensures
            r@ == spec_hole_location_v(),
    {
        "YvS6YKAm697XtRmG".to_owned()
    }

    /// The spec of the errors that enforcing specs generates.
    pub(crate) fn spec_rule_error_spec_key() -> (r: String)
        ensures
            r@ == spec_rule_error_spec_key_v(),
    {
        "gSNKN6Ey2JmDx70W".to_owned()
    }

    /// The spec returned where the spec key cannot be determined.
    pub fn jah_corrupted_spec_key() -> (r: String)
        ensures
            r@ == jah_corrupted_spec_key_v(),
    {
        "MSzKdSSWEIP6WC5S".to_owned()
    }

    /// The spec that every JahSpec conforms to.
    pub fn jah_spec_spec_key() -> (r: String)
        ensures
            r@ == jah_spec_spec_key_v(),
    {
        "VMldwIx01Q0ogNQb".to_owned()
    }

    /// The spec of a Must key.
    pub fn spec_must_must_key() -> (r: String)
        ensures
            r@ == spec_must_must_key_v(),
    {
        "k0fA2inA45gmmZHV".to_owned()
    }

    /// The spec that spec rules conform to.
    pub fn spec_rule_spec_key() -> (r: String)
        ensures
            r@ == spec_rule_spec_key_v(),
    {
        "g63UcB7rekfP4TlI".to_owned()
    }

    /// The spec of a document to add.
    pub fn spec_doc_key() -> (r: String)
        ensures
            r@ == spec_doc_key_v(),
    {
        "uHSQ7daYUXqUUPSo".to_owned()
    }

    /// The spec of a slice of a file.
    pub fn spec_file_slice_key() -> (r: String)
        ensures
            r@ == spec_file_slice_key_v(),
    {
        "whORgvuF4eBf8vog".to_owned()
    }

    /// The spec of the result of reading a slice.
    pub fn spec_find_slice_result_key() -> (r: String)
        ensures
            r@ == spec_find_slice_result_key_v(),
    {
        "d6nLKNjnN05tJ2fl".to_owned()
    }

    /// A request that the channel end communication.
    pub fn end_connection_key() -> (r: String)
        ensures
            r@ == end_connection_key_v(),
    {
        "mXnXQkmmB0GgltVM".to_owned()
    }

    /// The spec of a request to add a document.
    pub fn spec_add_doc_key() -> (r: String)
        ensures
            r@ == spec_add_doc_key_v(),
    {
        "uHSQ7daYUXqUUPSo".to_owned()
    }

    /// The key that marks a request to edit a document (no spec is
    /// registered under it).
    pub fn spec_edit_doc_key() -> (r: String)
        ensures
            r@ == spec_edit_doc_key_v(),
    {
        "CJeCZR6b9t6jj46S".to_owned()
    }

    /// The spec of a document as it is stored.
    pub fn spec_stored_doc_key() -> (r: String)
        ensures
            r@ == spec_stored_doc_key_v(),
    {
        "u8jzPde0IgxLd6Gn".to_owned()
    }

    /// The key that marks a request to append an attached slice to a file
    /// (no spec is registered under it).
    pub fn spec_append_slice_key() -> (r: String)
        ensures
            r@ == spec_append_slice_key_v(),
    {
        "cfBAepfJBd0Kh8oO".to_owned()
    }

    /// The spec of the reply to a successful append.
    pub fn spec_append_doc_success_key() -> (r: String)
        ensures
            r@ == spec_append_doc_success_key_v(),
    {
        "ma2snwuG8VPGxY8z".to_owned()
    }

    /// The spec of a logic error.
    pub fn logic_error_key() -> (r: String)
        ensures
            r@ == logic_error_key_v(),
    {
        "bEEA7c4Yp9Xl3pX1".to_owned()
    }

    /// The error key carried by trace info.
    pub fn trace_info_err_key() -> (r: String)
        ensures
            r@ == trace_info_err_key_v(),
    {
        "CDzmiOuZ8Vq7Ahuz".to_owned()
    }

    /// The spec of a list of Fit errors.
    pub fn fit_errs_key() -> (r: String)
        ensures
            r@ == fit_errs_key_v(),
    {
        "VWnPY4CStrXkk4SU".to_owned()
    }

    /// Rule key: a ParT was registered twice under one key.
    pub fn part_key_added_twice_key() -> (r: String)
        ensures
            r@ == part_key_added_twice_key_v(),
    {
        "OL8dKLzdocJ2isAj".to_owned()
    }

    /// Rule key: the attachment that the args name is missing.
    pub fn named_attachment_is_missing() -> (r: String)
        ensures
            r@ == named_attachment_is_missing_v(),
    {
        "IhKtJ0RlgLKOmxgJ".to_owned()
    }

    /// Rule key: an appended slice cannot be empty.
    pub fn slice_len_cannot_be_zero() -> (r: String)
        ensures
            r@ == slice_len_cannot_be_zero_v(),
    {
        "TeKdNnFRIBXuDL7D".to_owned()
    }

    /// The registration key of the DocSlicePrep Fit.
    pub fn doc_slice_prep_key() -> (r: String)
        ensures
            r@ == doc_slice_prep_key_v(),
    {
        "OKfLlCA6dQbw9tD8".to_owned()
    }

    /// The registration key of the FileAppendSlice Fit.
    pub fn file_append_slice_key() -> (r: String)
        ensures
            r@ == file_append_slice_key_v(),
    {
        "S68yWotrIh06IdE8".to_owned()
    }

    /// The registration key of the FileGetSlice Fit.
    pub fn file_get_slice_key() -> (r: String)
        ensures
            r@ == file_get_slice_key_v(),
    {
        "tGMl7e89oQlKKQVu".to_owned()
    }

    /// The registration key of the ErrFit Fit.
    pub fn err_fit_key() -> (r: String)
        ensures
            r@ == err_fit_key_v(),
    {
        "EHR6DFySwtSHzlb2".to_owned()
    }

    /// The registration key of the StatelyTester Fit.
    pub fn stately_tester_key() -> (r: String)
        ensures
            r@ == stately_tester_key_v(),
    {
        "AL9SJolxGQyklS4A".to_owned()
    }

    /// The strand that every new request starts on.
    pub fn must_start_strand() -> (r: String)
        ensures
            r@ == must_start_strand_v(),
    {
        "UWmoVWUMfKsL8oyr".to_owned()
    }

    /// The strand that runs the StatelyTester Fit.
    pub fn stately_tester_strand() -> (r: String)
        ensures
            r@ == stately_tester_strand_v(),
    {
        "tuUZAYq5uby19tYG".to_owned()
    }

    fn rule(k: String) -> (r: JsonObject)
        ensures
            r@ == rule_v(k@),
    {
        let mut o = JsonObject::new();
        o.insert("rule_key".to_owned(), Json::String(k));
        o
    }

    fn empty_list() -> (r: Json)
        ensures
            r@ == JsonV::List(Seq::empty()),
    {
        let v: Vec<Json> = Vec::new();
        assert(list_view(v@) =~= Seq::<JsonV>::empty());
        Json::List(v)
    }

    pub(crate) fn rules2(a: JsonObject, b: JsonObject) -> (r: Json)
        ensures
            r@ == JsonV::List(seq![JsonV::Object(a@), JsonV::Object(b@)]),
    {
        let mut v: Vec<Json> = Vec::new();
        v.push(Json::Object(a));
        v.push(Json::Object(b));
        let r = Json::List(v);
        assert(list_view(v@) =~= seq![JsonV::Object(a@), JsonV::Object(b@)]);
        r
    }

    /// This rule requires the arg to exist, as opposed to only being allowed.
    pub fn arg_rule_arg_must_exist() -> (r: JsonObject)
        ensures
            r@ == rule_v(arg_rule_key_arg_must_exist_v()),
    {
        Self::rule(Self::arg_rule_key_arg_must_exist())
    }

    /// Reported when the Par does not understand the arguments.
    pub fn arg_spec_not_known_to_par() -> (r: JsonObject)
        ensures
            r@ == rule_v(arg_spec_key_not_known_to_par_v()),
    {
        Self::rule(Self::arg_spec_key_not_known_to_par())
    }

    /// Reported when the Fit does not understand the arguments.
    pub fn arg_spec_not_known_to_fit() -> (r: JsonObject)
        ensures
            r@ == rule_v(arg_spec_key_not_known_to_fit_v()),
    {
        Self::rule(Self::arg_spec_key_not_known_to_fit())
    }

    /// This rule requires the spec to name the arg.
    pub fn arg_spec_arg_must_exist() -> (r: JsonObject)
        ensures
            r@ == rule_v(arg_spec_key_arg_must_exist_v()),
    {
        Self::rule(Self::arg_spec_key_arg_must_exist())
    }

    /// This rule requires the arg to be a string.
    pub fn arg_rule_arg_must_be_string() -> (r: JsonObject)
        ensures
            r@ == rule_v(arg_rule_key_arg_key_must_be_string_v()),
    {
        Self::rule(Self::arg_rule_key_arg_key_must_be_string())
    }

    /// This rule requires the arg to be an object.
    pub fn arg_rule_obj_must_be_object() -> (r: JsonObject)
        ensures
            r@ == rule_v(arg_rule_key_arg_must_be_object_v()),
    {
        Self::rule(Self::arg_rule_key_arg_must_be_object())
    }

    /// This rule requires the arg to be a number.
    pub fn arg_rule_num_must_be_number() -> (r: JsonObject)
        ensures
            r@ == rule_v(arg_rule_arg_key_arg_must_be_number_v()),
    {
        Self::rule(Self::arg_rule_arg_key_arg_must_be_number())
    }

    /// The rule an arg breaks when the spec does not allow it.
    pub fn arg_rule_arg_key_is_not_allowed() -> (r: JsonObject)
        ensures
            r@ == rule_v(arg_rule_key_arg_is_not_allowed_v()),
    {
        Self::rule(Self::arg_rule_key_arg_is_not_allowed())
    }

    /// The rule a spec breaks when it names an unknown rule.
    pub fn arg_rule_rule_must_be_implemented() -> (r: JsonObject)
        ensures
            r@ == rule_v(arg_rule_key_rule_must_be_implemented_v()),
    {
        Self::rule(Self::arg_rule_key_rule_must_be_implemented())
    }

    /// This rule requires the arg to be a list.
    pub fn arg_rule_arg_must_be_a_list() -> (r: JsonObject)
        ensures
            r@ == rule_v(arg_rule_key_arg_must_be_list_v()),
    {
        Self::rule(Self::arg_rule_key_arg_must_be_list())
    }

    /// This rule requires the arg to be a boolean.
    pub fn arg_rule_arg_must_be_a_bool() -> (r: JsonObject)
        ensures
            r@ == rule_v(arg_rule_key_arg_must_be_bool_v()),
    {
        Self::rule(Self::arg_rule_key_arg_must_be_bool())
    }

    /// This rule requires the arg to be a string equal to `value`.
    pub fn arg_rule_str_arg_must_equal(value: String) -> (r: JsonObject)
        ensures
            r@ == arg_rule_str_arg_must_equal_v(value@),
    {
        let mut o = Self::rule(Self::arg_rule_key_str_arg_must_equal());
        o.insert("value".to_owned(), Json::String(value));
        o
    }

    /// The spec that Fit system errors conform to.
    pub fn spec_fit_sys_err() -> (r: JsonObject)
        ensures
            r@ == spec_fit_sys_err_v(),
    {
        let mut allowed = JsonObject::new();
        allowed.insert("sys_text".to_owned(), Self::rules2(Self::arg_rule_arg_must_exist(), Self::arg_rule_arg_must_be_string()));
        allowed.insert("spec_key".to_owned(), Self::rules2(Self::arg_rule_arg_must_exist(), Self::arg_rule_arg_must_be_string()));
        allowed.insert("fit_key".to_owned(), Self::rules2(Self::arg_rule_arg_must_exist(), Self::arg_rule_arg_must_be_string()));
        allowed.insert("line_key".to_owned(), Self::rules2(Self::arg_rule_arg_must_exist(), Self::arg_rule_arg_must_be_string()));
        allowed.insert("file_name".to_owned(), Self::rules2(Self::arg_rule_arg_must_exist(), Self::arg_rule_arg_must_be_string()));
        allowed.insert("args".to_owned(), Self::empty_list());
        let mut spec = JsonObject::new();
        spec.insert("spec_key".to_owned(), Json::String(Self::spec_fit_sys_err_key()));
        spec.insert("allowed".to_owned(), Json::Object(allowed));
        spec
    }

    /// The spec of the location of the next lurker hole.
    pub(crate) fn spec_next_hole_location() -> (r: JsonObject)
        ensures
            r@ == spec_next_hole_location_v(),
    {
        let mut allowed = JsonObject::new();
        allowed.insert("next_hole".to_owned(), Self::rules2(Self::arg_rule_arg_must_exist(), Self::arg_rule_obj_must_be_object()));
        allowed.insert("spec_key".to_owned(), Self::rules2(Self::arg_rule_arg_must_exist(), Self::arg_rule_arg_must_be_string()));
        let mut spec = JsonObject::new();
        spec.insert("spec_key".to_owned(), Json::String(Self::spec_next_hole_location_key()));
        spec.insert("allowed".to_owned(), Json::Object(allowed));
        spec
    }

    /// The spec of the location of a document.
    pub(crate) fn spec_doc_location() -> (r: JsonObject)
        ensures
            r@ == spec_doc_location_v(),
    {
        let mut allowed = JsonObject::new();
        allowed.insert("next_hole".to_owned(), Self::rules2(Self::arg_rule_arg_must_exist(), Self::arg_rule_obj_must_be_object()));
        allowed.insert("spec_key".to_owned(), Self::rules2(Self::arg_rule_arg_must_exist(), Self::arg_rule_arg_must_be_string()));
        let mut spec = JsonObject::new();
        spec.insert("spec_key".to_owned(), Json::String(Self::spec_doc_location_key()));
        spec.insert("allowed".to_owned(), Json::Object(allowed));
        spec
    }

    /// The spec of the errors generated through enforcing specs.
    pub(crate) fn spec_rule_error_spec() -> (r: JsonObject)
        ensures
            r@ == spec_rule_error_spec_v(),
    {
        let mut allowed = JsonObject::new();
        allowed.insert("rule_key".to_owned(), Self::rules2(Self::arg_rule_arg_must_exist(), Self::arg_rule_arg_must_be_string()));
        allowed.insert("spec_key".to_owned(), Self::rules2(Self::arg_rule_arg_must_exist(), Self::arg_rule_arg_must_be_string()));
        allowed.insert("arg_name".to_owned(), Self::rules2(Self::arg_rule_arg_must_exist(), Self::arg_rule_arg_must_be_string()));
        allowed.insert("rule_key".to_owned(), Self::rules2(Self::arg_rule_arg_must_exist(), Self::arg_rule_arg_must_be_string()));
        allowed.insert("line_key".to_owned(), Self::rules2(Self::arg_rule_arg_must_exist(), Self::arg_rule_arg_must_be_string()));
        allowed.insert("file_name".to_owned(), Self::rules2(Self::arg_rule_arg_must_exist(), Self::arg_rule_arg_must_be_string()));
        let mut spec = JsonObject::new();
        spec.insert("spec_key".to_owned(), Json::String(Self::spec_rule_error_spec_key()));
        spec.insert("allowed".to_owned(), Json::Object(allowed));
        spec
    }

    /// The spec of a Must key.
    pub fn spec_must() -> (r: JsonObject)
        ensures
            r@ == spec_must_v(),
    {
        let mut allowed = JsonObject::new();
        allowed.insert("key".to_owned(), Self::rules2(Self::arg_rule_arg_must_exist(), Self::arg_rule_arg_must_be_string()));
        allowed.insert("sec".to_owned(), Self::rules2(Self::arg_rule_arg_must_exist(), Self::arg_rule_num_must_be_number()));
        allowed.insert("nsec".to_owned(), Self::rules2(Self::arg_rule_arg_must_exist(), Self::arg_rule_num_must_be_number()));
        let mut spec = JsonObject::new();
        spec.insert("spec_key".to_owned(), Json::String(Self::spec_must_must_key()));
        spec.insert("allowed".to_owned(), Json::Object(allowed));
        spec
    }

    /// The spec that spec rules conform to.
    pub fn spec_rule_spec() -> (r: JsonObject)
        ensures
            r@ == spec_rule_spec_v(),
    {
        let mut allowed = JsonObject::new();
        allowed.insert("rule_key".to_owned(), Self::rules2(Self::arg_rule_arg_must_exist(), Self::arg_rule_arg_must_be_string()));
        let mut spec = JsonObject::new();
        spec.insert("spec_key".to_owned(), Json::String(Self::spec_rule_spec_key()));
        spec.insert("allowed".to_owned(), Json::Object(allowed));
        spec
    }

    /// The spec of a document to add.
    pub fn spec_doc() -> (r: JsonObject)
        ensures
            r@ == spec_doc_v(),
    {
        let mut allowed = JsonObject::new();
        allowed.insert("user".to_owned(), Self::rules2(Self::arg_rule_arg_must_be_string(), Self::arg_rule_arg_must_exist()));
        allowed.insert("acct".to_owned(), Self::rules2(Self::arg_rule_arg_must_be_string(), Self::arg_rule_arg_must_exist()));
        allowed.insert("must".to_owned(), Self::rules2(Self::arg_rule_obj_must_be_object(), Self::arg_rule_arg_must_exist()));
        allowed.insert("doc".to_owned(), Self::rules2(Self::arg_rule_obj_must_be_object(), Self::arg_rule_arg_must_exist()));
        allowed.insert("spec_key".to_owned(), Self::rules2(Self::arg_rule_arg_must_be_string(), Self::arg_rule_arg_must_exist()));
        let mut spec = JsonObject::new();
        spec.insert("allowed".to_owned(), Json::Object(allowed));
        spec.insert("spec_key".to_owned(), Json::String(Self::spec_doc_key()));
        spec
    }

    /// The spec of a document as it is stored.
    pub fn spec_stored_doc() -> (r: JsonObject)
        ensures
            r@ == spec_stored_doc_v(),
    {
        let mut allowed = JsonObject::new();
        allowed.insert("user".to_owned(), Self::rules2(Self::arg_rule_arg_must_be_string(), Self::arg_rule_arg_must_exist()));
        allowed.insert("acct".to_owned(), Self::rules2(Self::arg_rule_arg_must_be_string(), Self::arg_rule_arg_must_exist()));
        allowed.insert("must".to_owned(), Self::rules2(Self::arg_rule_obj_must_be_object(), Self::arg_rule_arg_must_exist()));
        allowed.insert("doc".to_owned(), Self::rules2(Self::arg_rule_obj_must_be_object(), Self::arg_rule_arg_must_exist()));
        allowed.insert("spec_key".to_owned(), Self::rules2(Self::arg_rule_arg_must_be_string(), Self::arg_rule_arg_must_exist()));
        let mut spec = JsonObject::new();
        spec.insert("allowed".to_owned(), Json::Object(allowed));
        spec.insert("spec_key".to_owned(), Json::String(Self::spec_stored_doc_key()));
        spec
    }

    /// The spec of a slice of a file.
    pub fn spec_file_slice() -> (r: JsonObject)
        ensures
            r@ == spec_file_slice_v(),
    {
        let mut allowed = JsonObject::new();
        allowed.insert("pos".to_owned(), Self::rules2(Self::arg_rule_num_must_be_number(), Self::arg_rule_arg_must_exist()));
        allowed.insert("len".to_owned(), Self::rules2(Self::arg_rule_num_must_be_number(), Self::arg_rule_arg_must_exist()));
        allowed.insert("fn".to_owned(), Self::rules2(Self::arg_rule_num_must_be_number(), Self::arg_rule_arg_must_exist()));
        allowed.insert("spec_key".to_owned(), Self::rules2(Self::arg_rule_arg_must_be_string(), Self::arg_rule_arg_must_exist()));
        let mut spec = JsonObject::new();
        spec.insert("allowed".to_owned(), Json::Object(allowed));
        spec.insert("spec_key".to_owned(), Json::String(Self::spec_file_slice_key()));
        spec
    }

    /// The spec of the result of reading a slice.
    pub fn spec_find_slice_result() -> (r: JsonObject)
        ensures
            r@ == spec_find_slice_result_v(),
    {
        let mut allowed = JsonObject::new();
        allowed.insert("attach".to_owned(), Self::rules2(Self::arg_rule_arg_must_be_string(), Self::arg_rule_arg_must_exist()));
        allowed.insert("spec_key".to_owned(), Self::rules2(Self::arg_rule_arg_must_be_string(), Self::arg_rule_arg_must_exist()));
        let mut spec = JsonObject::new();
        spec.insert("allowed".to_owned(), Json::Object(allowed));
        spec.insert("spec_key".to_owned(), Json::String(Self::spec_find_slice_result_key()));
        spec
    }

    /// The spec of the reply to a successful append.
    pub fn spec_append_doc_success() -> (r: JsonObject)
        ensures
            r@ == spec_append_doc_success_v(),
    {
        let mut allowed = JsonObject::new();
        allowed.insert("slice".to_owned(), Self::rules2(Self::arg_rule_obj_must_be_object(), Self::arg_rule_arg_must_exist()));
        allowed.insert("spec_key".to_owned(), Self::rules2(Self::arg_rule_arg_must_be_string(), Self::arg_rule_arg_must_exist()));
        let mut spec = JsonObject::new();
        spec.insert("allowed".to_owned(), Json::Object(allowed));
        spec.insert("spec_key".to_owned(), Json::String(Self::spec_append_doc_success_key()));
        spec
    }

    /// The jah_spec that every JahSpec conforms to: every JahSpec has an arg
    /// called `allowed`, an object that holds the rules of each allowed arg.
    pub fn jah_spec_spec() -> (r: JsonObject)
        ensures
            r@ == jah_spec_spec_v(),
    {
        let mut spec = JsonObject::new();
        spec.insert("spec_key".to_owned(), Json::String(Self::jah_spec_spec_key()));
        let mut allowed = JsonObject::new();
        allowed.insert("allowed".to_owned(), Self::rules2(Self::arg_rule_arg_must_exist(), Self::arg_rule_obj_must_be_object()));
        spec.insert("allowed".to_owned(), Json::Object(allowed));
        spec
    }

    /// The spec returned where the spec key cannot be determined.
    pub fn jah_corrupted_spec() -> (r: JsonObject)
        ensures
            r@ == jah_corrupted_spec_v(),
    {
        let mut spec = JsonObject::new();
        spec.insert("spec_key".to_owned(), Json::String(Self::jah_corrupted_spec_key()));
        let mut allowed = JsonObject::new();
        allowed.insert("allowed".to_owned(), Self::empty_list());
        spec.insert("allowed".to_owned(), Json::Object(allowed));
        spec
    }

    /// A request that the channel end communication.
    pub fn end_connection() -> (r: JsonObject)
        ensures
            r@ == end_connection_v(),
    {
        let mut order = JsonObject::new();
        order.insert("spec_key".to_owned(), Json::String(Self::end_connection_key()));
        order
    }

    /// The error reported when a Fit meets a system error (I/O and the like).
    pub fn fit_sys_err(args: JsonObject, sys_text: String, fit_key: String, file_name: String, line_key: String) -> (r: JsonObject)
        ensures
            r@ == fit_sys_err_v(args@, sys_text@, fit_key@, file_name@, line_key@),
            check_args_v(spec_fit_sys_err_v(), r@) is Ok,
    {
        proof {
            lemma_fit_sys_err_conforms(args@, sys_text@, fit_key@, file_name@, line_key@);
        }
        let mut err = JsonObject::new();
        err.insert("sys_text".to_owned(), Json::String(sys_text));
        err.insert("spec_key".to_owned(), Json::String(Self::spec_fit_sys_err_key()));
        err.insert("fit_key".to_owned(), Json::String(fit_key));
        err.insert("line_key".to_owned(), Json::String(line_key));
        err.insert("file_name".to_owned(), Json::String(file_name));
        err.insert("args".to_owned(), Json::Object(args));
        err
    }

    /// Reports a violation of a spec rule.
    pub fn spec_rule_error(rule_key: String, arg_name: String, spec_key: String, line_key: String, file_name: String) -> (r: JsonObject)
        ensures
            r@ == spec_rule_error_v(rule_key@, arg_name@, spec_key@, line_key@, file_name@),
            check_args_v(spec_rule_error_spec_v(), r@) is Ok,
    {
        proof {
            lemma_spec_rule_error_conforms(rule_key@, arg_name@, spec_key@, line_key@, file_name@);
        }
        let mut err = JsonObject::new();
        err.insert("rule_key".to_owned(), Json::String(rule_key));
        err.insert("spec_key".to_owned(), Json::String(spec_key));
        err.insert("arg_name".to_owned(), Json::String(arg_name));
        err.insert("line_key".to_owned(), Json::String(line_key));
        err.insert("file_name".to_owned(), Json::String(file_name));
        err
    }

    /// Reports a logic error found by the code in `file_name`; it has the
    /// shape of a rule error, under the logic-error key.
    pub fn logic_error(rule_key: String, arg_name: String, line_key: String, file_name: String) -> (r: JsonObject)
        ensures
            r@ == logic_error_v(rule_key@, arg_name@, line_key@, file_name@),
            check_args_v(spec_rule_error_spec_v(), r@) is Ok,
    {
        proof {
            lemma_spec_rule_error_conforms(rule_key@, arg_name@, logic_error_key_v(), line_key@, file_name@);
        }
        let mut err = JsonObject::new();
        err.insert("rule_key".to_owned(), Json::String(rule_key));
        err.insert("spec_key".to_owned(), Json::String(Self::logic_error_key()));
        err.insert("arg_name".to_owned(), Json::String(arg_name));
        err.insert("line_key".to_owned(), Json::String(line_key));
        err.insert("file_name".to_owned(), Json::String(file_name));
        err
    }

    /// The trace info that code adds when it passes an error on.
    pub fn reply_error_trace_info(file_name: String, line_key: String) -> (r: JsonObject)
        ensures
            r@ == reply_error_trace_info_v(file_name@, line_key@),
    {
        let mut err = JsonObject::new();
        err.insert("err_key".to_owned(), Json::String(Self::trace_info_err_key()));
        err.insert("file_name".to_owned(), Json::String(file_name));
        err.insert("spec_key".to_owned(), Json::String(Self::reply_error_trace_info_key()));
        err.insert("line_key".to_owned(), Json::String(line_key));
        err
    }

    /// Packages one or more errors.
    pub fn err_pack(errs: Vec<JsonObject>) -> (r: JsonObject)
        ensures
            r@ == err_pack_v(objs_view(errs@)),
    {
        let mut lst: Vec<Json> = Vec::new();
        let mut errs = errs;
        let ghost orig = errs@;
        while errs.len() > 0
            invariant
                lst@.len() + errs@.len() == orig.len(),
                errs@ == orig.skip(lst@.len() as int),
                forall|i: int| 0 <= i < lst@.len() ==> #[trigger] lst@[i]@ == JsonV::Object(orig[i]@),
            decreases errs@.len(),
        {
            let ghost n = lst@.len();
            let e = errs.remove(0);
            assert(errs@ =~= orig.skip(n as int + 1));
            lst.push(Json::Object(e));
        }
        assert forall|i: int| 0 <= i < lst@.len() implies #[trigger] list_view(lst@)[i]
            == objects_v(objs_view(orig))[i] by {
            assert(lst@[i]@ == JsonV::Object(orig[i]@));
        }
        assert(list_view(lst@) =~= objects_v(objs_view(orig)));
        let mut err = JsonObject::new();
        err.insert("errs".to_owned(), Json::List(lst));
        err.insert("spec_key".to_owned(), Json::String(Self::err_pack_key()));
        err
    }

    /// Looks up a bootstrap spec by its key; the corrupted spec answers any
    /// key that names none.
    pub fn find_spec(spec_key: String) -> (r: JsonObject)
        ensures
            r@ == find_spec_v(spec_key@),
    {
        if spec_key == Self::jah_spec_spec_key() {
            Self::jah_spec_spec()
        } else if spec_key == Self::jah_corrupted_spec_key() {
            Self::jah_corrupted_spec()
        } else if spec_key == Self::spec_must_must_key() {
            Self::spec_must()
        } else if spec_key == Self::spec_rule_spec_key() {
            Self::spec_rule_spec()
        } else if spec_key == Self::end_connection_key() {
            Self::end_connection()
        } else if spec_key == Self::spec_rule_error_spec_key() {
            Self::spec_rule_error_spec()
        } else if spec_key == Self::spec_fit_sys_err_key() {
            Self::spec_fit_sys_err()
        } else if spec_key == Self::spec_doc_key() {
            Self::spec_doc()
        } else if spec_key == Self::spec_file_slice_key() {
            Self::spec_file_slice()
        } else if spec_key == Self::spec_find_slice_result_key() {
            Self::spec_find_slice_result()
        } else if spec_key == Self::spec_stored_doc_key() {
            Self::spec_stored_doc()
        } else if spec_key == Self::spec_append_doc_success_key() {
            Self::spec_append_doc_success()
        } else {
            Self::jah_corrupted_spec()
        }
    }
}

} // verus!
