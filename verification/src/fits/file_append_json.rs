//! FileAppendJSON appends the documents it receives, one after the other,
//! to the end of the file that its startup args name, and answers with the
//! slice info (position, length, file number) under which each document
//! can be read back.  It is the only writer of its file; the reading and
//! writing are done around this module, which says what to write and what
//! to answer.
use vstd::prelude::*;
use vstd::utf8::encode_utf8;
use crate::json::{Json, JsonObject, JsonV};
use crate::json_text::doc_text;
use crate::jah_args::{JahArgs, Args};
use crate::jah_spec::{JahSpec, check_args_v};
use crate::bootstrap::{Bootstrap, objs_view, put, empty_v, str_v, reply_error_trace_info_v, fit_sys_err_v,
    spec_doc_v, spec_doc_key_v, spec_append_doc_success_key_v, lemma_find_spec_registered};
use crate::fit::{FitArgs, FitErrs};
use crate::fits::{file_args_spec, file_args_spec_v, startup_args, startup_v, count_v, count_number, slice_info,
    slice_info_v, file_sys_err};

verus! {

/// Appends documents to a file.
pub struct FileAppendJSON {
    file_args: JsonObject,
}

/// What one append writes, in order, and answers.
pub struct AppendJob {
    /// The pretty text of the document.
    pub doc_bytes: Vec<u8>,
    /// The pretty text of the slice info, written after the document.
    pub slice_bytes: Vec<u8>,
    /// The answer: the slice info.
    pub reply: FitArgs,
}

/// The trace info of this module.
pub open spec fn faj_trace(line: &str) -> Args {
    reply_error_trace_info_v("file_append_json.rs"@, line@)
}

/// The key of the code that implements this Fit.
pub open spec fn file_append_json_key_v() -> Seq<char> {
    "S68yWotrIh06IdE8"@
}

/// The answer to an append: where the document now lies.
pub open spec fn append_reply_v(slice: Args) -> Args {
    put(put(empty_v(), "slice", JsonV::Object(slice)), "spec_key", str_v("WZody857ygg3YF1x"@))
}

fn faj_trace_obj(line: &str) -> (r: JsonObject)
    ensures
        r@ == faj_trace(line),
{
    Bootstrap::reply_error_trace_info("file_append_json.rs".to_owned(), line.to_owned())
}

impl FileAppendJSON {
    pub fn new(settings: JsonObject) -> (r: FileAppendJSON)
        ensures
            r.file_args() == settings@,
    {
        FileAppendJSON { file_args: settings }
    }

    /// The startup args it was made with.
    pub closed spec fn file_args(&self) -> Args {
        self.file_args@
    }

    /// The key of the code that implements this Fit.
    pub fn fit_key(&self) -> (r: String)
        ensures
            r@ == file_append_json_key_v(),
    {
        "S68yWotrIh06IdE8".to_owned()
    }

    /// The spec of the documents it takes: documents to add.
    pub fn spec_keys_in(&self) -> (r: Vec<String>)
        ensures
            r@.len() == 1,
            r@[0]@ == spec_doc_key_v(),
    {
        let mut v: Vec<String> = Vec::new();
        v.push(Bootstrap::spec_doc_key());
        v
    }

    /// The spec of its answers: a successful append.
    pub fn spec_keys_out(&self) -> (r: Vec<String>)
        ensures
            r@.len() == 1,
            r@[0]@ == spec_append_doc_success_key_v(),
    {
        let mut v: Vec<String> = Vec::new();
        v.push(Bootstrap::spec_append_doc_success_key());
        v
    }

    /// The spec of its startup args.
    pub fn arg_out(&self) -> (r: JsonObject)
        ensures
            r@ == file_args_spec_v(),
    {
        file_args_spec()
    }

    /// The path and number of its file, or why its startup args break their spec.
    pub fn get_startup_args(&self) -> (r: Result<(String, u64), Vec<JsonObject>>)
        ensures
            match startup_v(self.file_args()) {
                Ok(x) => r matches Ok((p, n)) && p@ == x.0 && n == x.1,
                Err(e) => r matches Err(es) && objs_view(es@) == seq![faj_trace("rx9vMuM19wlGvMm2")] + e,
            },
    {
        match startup_args(&self.file_args) {
            Ok(x) => Ok(x),
            Err(errs) => {
                let mut all: Vec<JsonObject> = Vec::new();
                all.push(faj_trace_obj("rx9vMuM19wlGvMm2"));
                let ghost front = all@;
                let mut errs = errs;
                let ghost back = errs@;
                all.append(&mut errs);
                assert(objs_view(all@) =~= seq![faj_trace("rx9vMuM19wlGvMm2")] + objs_view(back));
                Err(all)
            },
        }
    }

    /// What it needs before it takes documents: the path and number of its
    /// file, and the spec that the documents must pass.
    pub fn start(&self) -> (r: Result<(String, u64, JahSpec), FitErrs>)
        ensures
            match startup_v(self.file_args()) {
                Ok(x) => r matches Ok((p, n, spec)) && p@ == x.0 && n == x.1 && spec@ == spec_doc_v(),
                Err(e) => r matches Err(fe) && objs_view(fe.errs@) == seq![
                    faj_trace("eUZCAcGIlfzXEsJi"),
                    faj_trace("rx9vMuM19wlGvMm2"),
                ] + e,
            },
    {
        let (file_path, file_num) = match self.get_startup_args() {
            Ok(x) => x,
            Err(errs) => {
                let r = FitErrs::from_objects(errs).prepend_err(faj_trace_obj("eUZCAcGIlfzXEsJi"));
                assert(objs_view(r.errs@) =~= seq![faj_trace("eUZCAcGIlfzXEsJi"), faj_trace("rx9vMuM19wlGvMm2")]
                    + startup_v(self.file_args())->Err_0);
                return Err(r);
            },
        };
        proof {
            lemma_find_spec_registered();
            let allowed = spec_doc_v()[0].1;
            crate::json::lemma_insert_unique(empty_v(), "allowed"@, allowed);
            crate::json::lemma_insert_unique(put(empty_v(), "allowed", allowed), "spec_key"@, str_v(spec_doc_key_v()));
        }
        let spec = JahSpec::new(Bootstrap::find_spec("uHSQ7daYUXqUUPSo".to_owned()));
        if spec.spec_key() != Bootstrap::spec_doc_key() {
            return Err(
                file_sys_err(
                    self.file_args.deep_copy(),
                    "Missing expected key uHSQ7daYUXqUUPSo".to_owned(),
                    self.fit_key(),
                    "file_append_json.rs",
                    "wi8D6MEqdXkORYtX",
                ),
            );
        }
        Ok((file_path, file_num, spec))
    }

    /// The system error it answers with when its file cannot be opened.
    pub fn sys_err(&self, doc: JsonObject, sys_text: String, line_key: &str) -> (r: FitErrs)
        ensures
            objs_view(r.errs@) == seq![fit_sys_err_v(doc@, sys_text@, file_append_json_key_v(), "file_append_json.rs"@, line_key@)],
    {
        file_sys_err(doc, sys_text, self.fit_key(), "file_append_json.rs", line_key)
    }

    /// One append: a document that passes `spec` is written at `start_pos`,
    /// the end of the file, followed by its slice info; the answer says where
    /// the document lies.  A document that breaks the spec is answered with
    /// the errors, and nothing is written.
    pub fn append(spec: &JahSpec, doc: &JsonObject, start_pos: u64, file_num: u64) -> (r: Result<AppendJob, FitErrs>)
        requires
            start_pos <= i64::MAX,
            file_num <= i64::MAX,
        ensures
            match check_args_v(spec@, doc@) {
                Ok(_) => r matches Ok(job) && {
                    let slice = slice_info_v(start_pos as int, count_v(job.doc_bytes@.len() as int), file_num as int);
                    &&& job.doc_bytes@ == encode_utf8(doc_text(JsonV::Object(doc@)))
                    &&& job.slice_bytes@ == encode_utf8(doc_text(JsonV::Object(slice)))
                    &&& job.reply.doc@ == append_reply_v(slice)
                    &&& job.reply.attach@.len() == 0
                },
                Err(e) => r matches Err(fe) && objs_view(fe.errs@) == seq![faj_trace("hiLXpCZ3nbya2Oea")] + e,
            },
    {
        match spec.check_args(&JahArgs::new(doc.deep_copy())) {
            Ok(_) => {
                let doc_bytes = Json::Object(doc.deep_copy()).to_bytes();
                let len = count_number(doc_bytes.len());
                let slice = slice_info(start_pos as i64, len, file_num as i64);
                let slice_bytes = Json::Object(slice.deep_copy()).to_bytes();
                let mut r_args = JsonObject::new();
                r_args.insert("slice".to_owned(), Json::Object(slice));
                r_args.insert("spec_key".to_owned(), Json::String("WZody857ygg3YF1x".to_owned()));
                Ok(AppendJob { doc_bytes, slice_bytes, reply: FitArgs::from_doc(r_args) })
            },
            Err(errs) => Err(FitErrs::from_objects(errs).prepend_err(faj_trace_obj("hiLXpCZ3nbya2Oea"))),
        }
    }
}

} // verus!
