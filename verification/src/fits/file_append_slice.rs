//! FileAppendSlice appends the binary slices it receives, one after the
//! other, to the end of the file that its startup args name, and answers
//! with the slice info under which each slice can be read back.  It is the
//! only writer of its file; the writing is done around this module, which
//! says what to answer.
use vstd::prelude::*;
use crate::json::{Json, JsonObject, JsonV, obj_insert};
use crate::jah_args::Args;
use crate::jah_spec::Errs;
use crate::bootstrap::{Bootstrap, objs_view, put, empty_v, str_v, reply_error_trace_info_v, fit_sys_err_v,
    logic_error_v, slice_len_cannot_be_zero_v, spec_file_slice_key_v, spec_append_slice_key_v, spec_doc_v,
    spec_doc_key_v, lemma_find_spec_registered, file_append_slice_key_v};
use crate::fit::{FitArgs, FitErrs, FitComm, fit_comm_is};
use crate::fits::{file_args_spec, file_args_spec_v, startup_args, startup_v, count_v, count_number, slice_info,
    slice_info_v, file_sys_err};

verus! {

/// Appends binary slices to a file.
pub struct FileAppendSlice {
    file_args: JsonObject,
}

/// The trace info of this module.
pub open spec fn fas_trace(line: &str) -> Args {
    reply_error_trace_info_v("file_append_slice.rs"@, line@)
}

/// The answer to an append: where the slice now lies, as a file slice.
pub open spec fn file_slice_reply_v(pos: int, len: int, num: int) -> Args {
    obj_insert(slice_info_v(pos, len, num), "spec_key"@, JsonV::Str(spec_file_slice_key_v()))
}

/// The answer to one append of `attach` at `start_pos`: an empty slice is
/// refused.
pub open spec fn append_slice_v(attach: Seq<u8>, start_pos: int, file_num: int) -> Result<(Args, Seq<u8>), Errs> {
    if attach.len() == 0 {
        Err(seq![logic_error_v(slice_len_cannot_be_zero_v(), "attach"@, "e42iDEm1ulsqawrf"@, "file_append_slice.rs"@)])
    } else {
        Ok((file_slice_reply_v(start_pos, count_v(attach.len() as int), file_num), Seq::empty()))
    }
}

fn fas_trace_obj(line: &str) -> (r: JsonObject)
    ensures
        r@ == fas_trace(line),
{
    Bootstrap::reply_error_trace_info("file_append_slice.rs".to_owned(), line.to_owned())
}

impl FileAppendSlice {
    pub fn new(settings: JsonObject) -> (r: FileAppendSlice)
        ensures
            r.file_args() == settings@,
    {
        FileAppendSlice { file_args: settings }
    }

    /// The startup args it was made with.
    pub closed spec fn file_args(&self) -> Args {
        self.file_args@
    }

    /// The key of the code that implements this Fit.
    pub fn fit_key(&self) -> (r: String)
        ensures
            r@ == file_append_slice_key_v(),
    {
        Bootstrap::file_append_slice_key()
    }

    /// The spec of what it takes: a request to append the attached slice.
    pub fn spec_keys_in(&self) -> (r: Vec<String>)
        ensures
            r@.len() == 1,
            r@[0]@ == spec_append_slice_key_v(),
    {
        let mut v: Vec<String> = Vec::new();
        v.push(Bootstrap::spec_append_slice_key());
        v
    }

    /// The spec of its answers: a file slice.
    pub fn spec_keys_out(&self) -> (r: Vec<String>)
        ensures
            r@.len() == 1,
            r@[0]@ == spec_file_slice_key_v(),
    {
        let mut v: Vec<String> = Vec::new();
        v.push(Bootstrap::spec_file_slice_key());
        v
    }

    /// The spec of its startup args.
    pub fn arg_out(&self) -> (r: JsonObject)
        ensures
            r@ == file_args_spec_v(),
    {
        file_args_spec()
    }

    /// The path and number of its file, or why its startup args break their spec.
    pub fn get_startup_args(&self) -> (r: Result<(String, u64), Vec<JsonObject>>)
        ensures
            match startup_v(self.file_args()) {
                Ok(x) => r matches Ok((p, n)) && p@ == x.0 && n == x.1,
                Err(e) => r matches Err(es) && objs_view(es@) == seq![fas_trace("rx9vMuM19wlGvMm2")] + e,
            },
    {
        match startup_args(&self.file_args) {
            Ok(x) => Ok(x),
            Err(errs) => {
                let mut all: Vec<JsonObject> = Vec::new();
                all.push(fas_trace_obj("rx9vMuM19wlGvMm2"));
                let mut errs = errs;
                let ghost back = errs@;
                all.append(&mut errs);
                assert(objs_view(all@) =~= seq![fas_trace("rx9vMuM19wlGvMm2")] + objs_view(back));
                Err(all)
            },
        }
    }

    /// What it needs before it takes slices: the path and number of its file.
    pub fn start(&self) -> (r: Result<(String, u64), FitErrs>)
        ensures
            match startup_v(self.file_args()) {
                Ok(x) => r matches Ok((p, n)) && p@ == x.0 && n == x.1,
                Err(e) => r matches Err(fe) && objs_view(fe.errs@) == seq![
                    fas_trace("eUZCAcGIlfzXEsJi"),
                    fas_trace("rx9vMuM19wlGvMm2"),
                ] + e,
            },
    {
        let (file_path, file_num) = match self.get_startup_args() {
            Ok(x) => x,
            Err(errs) => {
                let r = FitErrs::from_objects(errs).prepend_err(fas_trace_obj("eUZCAcGIlfzXEsJi"));
                assert(objs_view(r.errs@) =~= seq![fas_trace("eUZCAcGIlfzXEsJi"), fas_trace("rx9vMuM19wlGvMm2")]
                    + startup_v(self.file_args())->Err_0);
                return Err(r);
            },
        };
        proof {
            lemma_find_spec_registered();
            let allowed = spec_doc_v()[0].1;
            crate::json::lemma_insert_unique(empty_v(), "allowed"@, allowed);
            crate::json::lemma_insert_unique(put(empty_v(), "allowed", allowed), "spec_key"@, str_v(spec_doc_key_v()));
        }
        let spec = crate::jah_spec::JahSpec::new(Bootstrap::find_spec(Bootstrap::spec_add_doc_key()));
        if spec.spec_key() != Bootstrap::spec_add_doc_key() {
            return Err(
                file_sys_err(
                    self.file_args.deep_copy(),
                    "Missing expected key uHSQ7daYUXqUUPSo".to_owned(),
                    self.fit_key(),
                    "file_append_slice.rs",
                    "cSCDVSNDFpLOSwDz",
                ),
            );
        }
        Ok((file_path, file_num))
    }

    /// The system error it reports, with its startup args, when its file
    /// cannot be opened at startup.
    pub fn startup_sys_err(&self, sys_text: String, line_key: &str) -> (r: FitErrs)
        ensures
            objs_view(r.errs@) == seq![fit_sys_err_v(self.file_args(), sys_text@, file_append_slice_key_v(), "file_append_slice.rs"@, line_key@)],
    {
        file_sys_err(self.file_args.deep_copy(), sys_text, self.fit_key(), "file_append_slice.rs", line_key)
    }

    /// The system error it answers with when its file cannot be used.
    pub fn sys_err(&self, doc: JsonObject, sys_text: String, line_key: &str) -> (r: FitErrs)
        ensures
            objs_view(r.errs@) == seq![fit_sys_err_v(doc@, sys_text@, file_append_slice_key_v(), "file_append_slice.rs"@, line_key@)],
    {
        file_sys_err(doc, sys_text, self.fit_key(), "file_append_slice.rs", line_key)
    }

    /// The answer to one append of the attachment of `args` at `start_pos`,
    /// the end of the file: where the slice lies.  An empty slice is refused,
    /// and nothing is written.
    pub fn append(args: &FitArgs, start_pos: u64, file_num: u64) -> (r: FitComm)
        requires
            start_pos <= i64::MAX,
            file_num <= i64::MAX,
        ensures
            fit_comm_is(r, append_slice_v(args.attach@, start_pos as int, file_num as int)),
    {
        if args.attach.len() == 0 {
            FitComm::FitErr(
                FitErrs::from_object(
                    Bootstrap::logic_error(
                        Bootstrap::slice_len_cannot_be_zero(),
                        "attach".to_owned(),
                        "e42iDEm1ulsqawrf".to_owned(),
                        "file_append_slice.rs".to_owned(),
                    ),
                ),
            )
        } else {
            let mut slice = slice_info(start_pos as i64, count_number(args.attach.len()), file_num as i64);
            slice.insert("spec_key".to_owned(), Json::String(Bootstrap::spec_file_slice_key()));
            let reply = FitArgs::from_doc(slice);
            assert(reply.attach@ =~= Seq::<u8>::empty());
            FitComm::FitOk(reply)
        }
    }
}

} // verus!
