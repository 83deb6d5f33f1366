//! What gets passed around from Fit to Fit (a Fit is a functionally isolated
//! task): a document with at most one attachment, and the errors a Fit can
//! answer with.
use vstd::prelude::*;
use crate::json::{Json, JsonObject, JsonV, list_view};
use crate::json_text::doc_text;
use crate::bootstrap::{Bootstrap, objs_view, objects_v, put, empty_v, str_v, fit_errs_key_v};
use crate::jah_args::Args;
use crate::jah_spec::Errs;

verus! {

/// The args of a Fit: a document, an optional attachment (a call carries
/// at most one) and a state document through which a Fit can hand state
/// back with its result.
pub struct FitArgs {
    pub doc: JsonObject,
    pub attach: Vec<u8>,
    pub state: JsonObject,
}

/// The errors that a Fit reports.
pub struct FitErrs {
    pub errs: Vec<JsonObject>,
}

/// What a Fit answers: success with its args, an error it handled, or a
/// system error (a resource failure that breaks the Fit).
pub enum FitComm {
    FitOk(FitArgs),
    FitErr(FitErrs),
    FitSysErr(FitErrs),
}

/// Whether a Fit's answer is the outcome `v`: success with that doc and
/// attachment, or an error the Fit handled with those errors.
pub open spec fn fit_comm_is(r: FitComm, v: Result<(Args, Seq<u8>), Errs>) -> bool {
    match r {
        FitComm::FitOk(fa) => v is Ok && fa.doc@ == v->Ok_0.0 && fa.attach@ == v->Ok_0.1 && fa.state@.len() == 0,
        FitComm::FitErr(fe) => v is Err && objs_view(fe.errs@) == v->Err_0,
        FitComm::FitSysErr(_) => false,
    }
}

/// The document form of a list of errors.
pub open spec fn fit_errs_args_v(errs: Errs) -> Args {
    put(put(empty_v(), "spec_key", str_v(fit_errs_key_v())), "errs", JsonV::List(objects_v(errs)))
}

/// The texts of a list of error documents, one after the other.
pub open spec fn errs_text(errs: Errs) -> Seq<char>
    decreases errs.len(),
{
    if errs.len() == 0 {
        Seq::empty()
    } else {
        errs_text(errs.drop_last()) + doc_text(JsonV::Object(errs.last()))
    }
}

/// A copy of a list of documents.
pub fn copy_objects(v: &Vec<JsonObject>) -> (r: Vec<JsonObject>)
    ensures
        objs_view(r@) == objs_view(v@),
{
    let mut r: Vec<JsonObject> = Vec::new();
    let mut i: usize = 0;
    while i < v.len()
        invariant
            i <= v@.len(),
            r@.len() == i,
            forall|j: int| 0 <= j < i ==> #[trigger] r@[j]@ == v@[j]@,
        decreases v@.len() - i,
    {
        r.push(v[i].deep_copy());
        i = i + 1;
    }
    assert(objs_view(r@) =~= objs_view(v@));
    r
}

impl FitArgs {
    /// Args made of a document alone.
    pub fn from_doc(doc: JsonObject) -> (r: FitArgs)
        ensures
            r.doc@ == doc@,
            r.attach@.len() == 0,
            r.state@.len() == 0,
    {
        FitArgs { doc, attach: Vec::new(), state: JsonObject::new() }
    }

    /// Args made of a document and an attachment.
    pub fn from_doc_with_attach(doc: JsonObject, attach: Vec<u8>) -> (r: FitArgs)
        ensures
            r.doc@ == doc@,
            r.attach@ == attach@,
            r.state@.len() == 0,
    {
        FitArgs { doc, attach, state: JsonObject::new() }
    }

    /// A copy of these args.
    pub fn copy(&self) -> (r: FitArgs)
        ensures
            r.doc@ == self.doc@,
            r.attach@ == self.attach@,
            r.state@ == self.state@,
    {
        FitArgs { doc: self.doc.deep_copy(), attach: self.attach.clone(), state: self.state.deep_copy() }
    }
}

impl FitErrs {
    /// Errors made of one error document.
    pub fn from_object(err: JsonObject) -> (r: FitErrs)
        ensures
            objs_view(r.errs@) == seq![err@],
    {
        let mut errs: Vec<JsonObject> = Vec::new();
        errs.push(err);
        assert(objs_view(errs@) =~= seq![errs@[0]@]);
        FitErrs { errs }
    }

    /// Errors made of a list of error documents.
    pub fn from_objects(errs: Vec<JsonObject>) -> (r: FitErrs)
        ensures
            objs_view(r.errs@) == objs_view(errs@),
    {
        FitErrs { errs }
    }

    /// These errors with `errs` in front.
    pub fn prepend_errs(&self, errs: Vec<JsonObject>) -> (r: FitErrs)
        ensures
            objs_view(r.errs@) == objs_view(errs@) + objs_view(self.errs@),
    {
        let ghost front = errs@;
        let mut all = errs;
        let mut rest = copy_objects(&self.errs);
        let ghost back = rest@;
        all.append(&mut rest);
        assert(objs_view(all@) =~= objs_view(front) + objs_view(back));
        FitErrs { errs: all }
    }

    /// These errors with `err` in front.
    pub fn prepend_err(&self, err: JsonObject) -> (r: FitErrs)
        ensures
            objs_view(r.errs@) == seq![err@] + objs_view(self.errs@),
    {
        let mut front: Vec<JsonObject> = Vec::new();
        front.push(err);
        assert(objs_view(front@) =~= seq![err@]);
        self.prepend_errs(front)
    }

    /// These errors as a document.
    pub fn to_args(&self) -> (r: JsonObject)
        ensures
            r@ == fit_errs_args_v(objs_view(self.errs@)),
    {
        let mut err = JsonObject::new();
        err.insert("spec_key".to_owned(), Json::String(Bootstrap::fit_errs_key()));
        let mut errs: Vec<Json> = Vec::new();
        let mut i: usize = 0;
        while i < self.errs.len()
            invariant
                i <= self.errs@.len(),
                errs@.len() == i,
                forall|j: int| 0 <= j < i ==> #[trigger] errs@[j]@ == JsonV::Object(self.errs@[j]@),
            decreases self.errs@.len() - i,
        {
            errs.push(Json::Object(self.errs[i].deep_copy()));
            i = i + 1;
        }
        assert forall|j: int| 0 <= j < errs@.len() implies #[trigger] list_view(errs@)[j]
            == objects_v(objs_view(self.errs@))[j] by {
            assert(errs@[j]@ == JsonV::Object(self.errs@[j]@));
        }
        assert(list_view(errs@) =~= objects_v(objs_view(self.errs@)));
        err.insert("errs".to_owned(), Json::List(errs));
        err
    }

    /// The pretty texts of the errors, one after the other.
    pub fn to_str(&self) -> (r: String)
        ensures
            r@ == errs_text(objs_view(self.errs@)),
    {
        let mut pretty = String::new();
        let mut i: usize = 0;
        while i < self.errs.len()
            invariant
                i <= self.errs@.len(),
                pretty@ == errs_text(objs_view(self.errs@).take(i as int)),
            decreases self.errs@.len() - i,
        {
            let t = Json::Object(self.errs[i].deep_copy()).to_text();
            let ghost before = pretty@;
            pretty.append(t.as_str());
            i = i + 1;
            assert(objs_view(self.errs@).take(i as int).drop_last() =~= objs_view(self.errs@).take(i - 1));
        }
        assert(objs_view(self.errs@).take(self.errs@.len() as int) =~= objs_view(self.errs@));
        pretty
    }
}

} // verus!
