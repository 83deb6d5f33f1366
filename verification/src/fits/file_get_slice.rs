//! FileGetSlice receives a doc that says where a slice of its file lies and
//! answers with the slice as a binary attachment.  The reading is done
//! around this module, which says what to read and what to answer.
use vstd::prelude::*;
use crate::json::{Json, JsonObject, JsonV, obj_insert};
use crate::jah_args::{JahArgs, Args, num_arg};
use crate::bootstrap::{Bootstrap, objs_view, reply_error_trace_info_v, fit_sys_err_v, spec_file_slice_key_v,
    spec_find_slice_result_key_v, file_get_slice_key_v, spec_file_slice_v, put, empty_v, str_v};
use crate::jah_spec::{check_args_v, lemma_accepted_arg_typed, lemma_distinct_rule_keys};
use crate::fits::required_num_v;
use crate::fit::{FitArgs, FitErrs};
use crate::fits::{file_args_spec, file_args_spec_v, startup_args, startup_v, file_num_v, file_sys_err, count_v};
use crate::fits::file_append_slice::append_slice_v;

verus! {

/// Reads slices of a file.
pub struct FileGetSlice {
    file_args: JsonObject,
}

/// The trace info of this module.
pub open spec fn fgs_trace(line: &str) -> Args {
    reply_error_trace_info_v("file_get_slice.rs"@, line@)
}

/// The doc of the answer: the slice is the attachment named `file_slice`.
pub open spec fn slice_result_v() -> Args {
    obj_insert(obj_insert(Seq::empty(), "attach"@, JsonV::Str("file_slice"@)), "spec_key"@, JsonV::Str(spec_find_slice_result_key_v()))
}

/// A slice of `len` bytes of which `read` came from the file: what the file
/// did not hold is zero.
pub open spec fn padded_v(read: Seq<u8>, len: nat) -> Seq<u8> {
    Seq::new(len, |i: int| if i < read.len() { read[i] } else { 0u8 })
}

fn fgs_trace_obj(line: &str) -> (r: JsonObject)
    ensures
        r@ == fgs_trace(line),
{
    Bootstrap::reply_error_trace_info("file_get_slice.rs".to_owned(), line.to_owned())
}

impl FileGetSlice {
    pub fn new(settings: JsonObject) -> (r: FileGetSlice)
        ensures
            r.file_args() == settings@,
    {
        FileGetSlice { file_args: settings }
    }

    /// The startup args it was made with.
    pub closed spec fn file_args(&self) -> Args {
        self.file_args@
    }

    /// The key of the code that implements this Fit.
    pub fn fit_key(&self) -> (r: String)
        ensures
            r@ == file_get_slice_key_v(),
    {
        Bootstrap::file_get_slice_key()
    }

    /// The spec of what it takes: a file slice.
    pub fn spec_keys_in(&self) -> (r: Vec<String>)
        ensures
            r@.len() == 1,
            r@[0]@ == spec_file_slice_key_v(),
    {
        let mut v: Vec<String> = Vec::new();
        v.push(Bootstrap::spec_file_slice_key());
        v
    }

    /// The spec of its answers: the result of a slice read.
    pub fn spec_keys_out(&self) -> (r: Vec<String>)
        ensures
            r@.len() == 1,
            r@[0]@ == spec_find_slice_result_key_v(),
    {
        let mut v: Vec<String> = Vec::new();
        v.push(Bootstrap::spec_find_slice_result_key());
        v
    }

    /// The spec of its startup args.
    pub fn arg_out(&self) -> (r: JsonObject)
        ensures
            r@ == file_args_spec_v(),
    {
        file_args_spec()
    }

    /// The path and number of its file, or why its startup args break their spec.
    pub fn get_startup_args(&self) -> (r: Result<(String, u64), FitErrs>)
        ensures
            match startup_v(self.file_args()) {
                Ok(x) => r matches Ok((p, n)) && p@ == x.0 && n == x.1,
                Err(e) => r matches Err(fe) && objs_view(fe.errs@) == seq![fgs_trace("rx9vMuM19wlGvMm2")] + e,
            },
    {
        match startup_args(&self.file_args) {
            Ok(x) => Ok(x),
            Err(errs) => Err(FitErrs::from_objects(errs).prepend_err(fgs_trace_obj("rx9vMuM19wlGvMm2"))),
        }
    }

    /// What it needs before it takes requests: the path of its file.
    pub fn start(&self) -> (r: Result<String, FitErrs>)
        ensures
            match startup_v(self.file_args()) {
                Ok(x) => r matches Ok(p) && p@ == x.0,
                Err(e) => r matches Err(fe) && objs_view(fe.errs@) == seq![
                    fgs_trace("Pj3l7Xw3UHVRjiqv"),
                    fgs_trace("rx9vMuM19wlGvMm2"),
                ] + e,
            },
    {
        match self.get_startup_args() {
            Ok((file_path, _)) => Ok(file_path),
            Err(errs) => {
                let r = errs.prepend_err(fgs_trace_obj("Pj3l7Xw3UHVRjiqv"));
                assert(objs_view(r.errs@) =~= seq![fgs_trace("Pj3l7Xw3UHVRjiqv"), fgs_trace("rx9vMuM19wlGvMm2")]
                    + startup_v(self.file_args())->Err_0);
                Err(r)
            },
        }
    }

    /// The system error it reports, with its startup args, when its file
    /// cannot be opened at startup.
    pub fn startup_sys_err(&self, sys_text: String, line_key: &str) -> (r: FitErrs)
        ensures
            objs_view(r.errs@) == seq![fit_sys_err_v(self.file_args(), sys_text@, file_get_slice_key_v(), "file_get_slice.rs"@, line_key@)],
    {
        file_sys_err(self.file_args.deep_copy(), sys_text, self.fit_key(), "file_get_slice.rs", line_key)
    }

    /// The system error it answers with when its file cannot be read.
    pub fn sys_err(&self, doc: JsonObject, sys_text: String, line_key: &str) -> (r: FitErrs)
        ensures
            objs_view(r.errs@) == seq![fit_sys_err_v(doc@, sys_text@, file_get_slice_key_v(), "file_get_slice.rs"@, line_key@)],
    {
        file_sys_err(doc, sys_text, self.fit_key(), "file_get_slice.rs", line_key)
    }

    /// Where the slice that `doc` asks for lies: its position and length.
    /// The caller has checked the doc against the file-slice spec, so both
    /// are numbers; a negative length counts as zero.
    pub fn slice_wanted(doc: &JsonObject) -> (r: (i64, u64))
        requires
            num_arg(doc@, "pos"@) is Ok,
            num_arg(doc@, "len"@) is Ok,
        ensures
            r.0 == num_arg(doc@, "pos"@)->Ok_0,
            r.1 == file_num_v(num_arg(doc@, "len"@)->Ok_0),
    {
        let args = JahArgs::new(doc.deep_copy());
        let pos = match args.get_float("pos".to_owned()) {
            Ok(p) => p,
            Err(_) => 0,
        };
        let len = match args.get_float("len".to_owned()) {
            Ok(l) => if l < 0 {
                0u64
            } else {
                l as u64
            },
            Err(_) => 0u64,
        };
        (pos, len)
    }

    /// The answer to a read of `len` bytes of which `read` came from the
    /// file: the slice, padded with zeros where the file ended first.
    pub fn slice_reply(read: Vec<u8>, len: usize) -> (r: FitArgs)
        ensures
            r.doc@ == slice_result_v(),
            r.attach@ == padded_v(read@, len as nat),
            r.state@.len() == 0,
    {
        let mut file_slice: Vec<u8> = Vec::new();
        let mut i: usize = 0;
        while i < len
            invariant
                i <= len,
                file_slice@.len() == i,
                forall|j: int| 0 <= j < i ==> #[trigger] file_slice@[j] == padded_v(read@, len as nat)[j],
            decreases len - i,
        {
            if i < read.len() {
                file_slice.push(read[i]);
            } else {
                file_slice.push(0u8);
            }
            i = i + 1;
        }
        assert(file_slice@ =~= padded_v(read@, len as nat));
        let mut args = JsonObject::new();
        args.insert("attach".to_owned(), Json::String("file_slice".to_owned()));
        args.insert("spec_key".to_owned(), Json::String(Bootstrap::spec_find_slice_result_key()));
        FitArgs::from_doc_with_attach(args, file_slice)
    }
}

/// A slice appended by FileAppendSlice reads back whole through
/// FileGetSlice: the position and length that the append answers with,
/// read from the file as it stands after the append, give back exactly the
/// bytes that were appended.
pub proof fn lemma_append_then_get(file: Seq<u8>, attach: Seq<u8>, num: int)
    requires
        attach.len() > 0,
        file.len() + attach.len() <= i64::MAX,
    ensures
        append_slice_v(attach, file.len() as int, num) is Ok,
        ({
            let doc = append_slice_v(attach, file.len() as int, num)->Ok_0.0;
            let pos = num_arg(doc, "pos"@)->Ok_0;
            let len = file_num_v(num_arg(doc, "len"@)->Ok_0);
            &&& num_arg(doc, "pos"@) is Ok
            &&& num_arg(doc, "len"@) is Ok
            &&& pos == file.len()
            &&& len == attach.len()
            &&& padded_v((file + attach).subrange(pos, pos + len), len as nat) == attach
        }),
{
    reveal_strlit("pos");
    reveal_strlit("len");
    reveal_strlit("fn");
    reveal_strlit("spec_key");
    assert("pos"@[0] != "len"@[0]);
    assert("pos"@[0] != "fn"@[0]);
    assert("pos"@[0] != "spec_key"@[0]);
    assert("len"@[0] != "fn"@[0]);
    assert("len"@[0] != "spec_key"@[0]);
    let pos = file.len() as int;
    let len = count_v(attach.len() as int);
    assert(len == attach.len());
    let e: Args = Seq::empty();
    let s1 = obj_insert(e, "pos"@, JsonV::Number(pos));
    let s2 = obj_insert(s1, "len"@, JsonV::Number(len));
    let s3 = obj_insert(s2, "fn"@, JsonV::Number(num));
    crate::json::lemma_insert_unique(e, "pos"@, JsonV::Number(pos));
    crate::json::lemma_insert_unique(s1, "len"@, JsonV::Number(len));
    crate::json::lemma_insert_unique(s2, "fn"@, JsonV::Number(num));
    crate::json::lemma_insert_unique(s3, "spec_key"@, JsonV::Str(spec_file_slice_key_v()));
    let whole = file + attach;
    assert(whole.subrange(pos, pos + len) =~= attach);
    assert(padded_v(whole.subrange(pos, pos + len), len as nat) =~= attach);
}

/// A file slice that its spec accepts names its position and length by
/// numbers: what `slice_wanted` asks of its doc.
pub proof fn lemma_slice_args_numbered(doc: Args)
    requires
        check_args_v(spec_file_slice_v(), doc) is Ok,
    ensures
        num_arg(doc, "pos"@) is Ok,
        num_arg(doc, "len"@) is Ok,
{
    reveal_strlit("pos");
    reveal_strlit("len");
    reveal_strlit("fn");
    reveal_strlit("spec_key");
    reveal_strlit("allowed");
    assert("pos"@[0] != "len"@[0]);
    assert("pos"@[0] != "fn"@[0]);
    assert("pos"@[0] != "spec_key"@[0]);
    assert("len"@[0] != "fn"@[0]);
    assert("len"@[0] != "spec_key"@[0]);
    assert("fn"@[0] != "spec_key"@[0]);
    assert("allowed"@[0] != "spec_key"@[0]);
    let rn = required_num_v();
    let rs = crate::fits::required_str_v();
    let e = empty_v();
    let a1 = put(e, "pos", rn);
    let a2 = put(a1, "len", rn);
    let a3 = put(a2, "fn", rn);
    crate::json::lemma_insert_unique(e, "pos"@, rn);
    crate::json::lemma_insert_unique(a1, "len"@, rn);
    crate::json::lemma_insert_unique(a2, "fn"@, rn);
    crate::json::lemma_insert_unique(a3, "spec_key"@, rs);
    let al = JsonV::Object(put(a3, "spec_key", rs));
    crate::json::lemma_insert_unique(e, "allowed"@, al);
    crate::json::lemma_insert_unique(put(e, "allowed", al), "spec_key"@, str_v(spec_file_slice_key_v()));
    lemma_distinct_rule_keys();
    lemma_accepted_arg_typed(spec_file_slice_v(), doc, "pos"@, crate::bootstrap::arg_rule_arg_key_arg_must_be_number_v());
    lemma_accepted_arg_typed(spec_file_slice_v(), doc, "len"@, crate::bootstrap::arg_rule_arg_key_arg_must_be_number_v());
}

} // verus!
