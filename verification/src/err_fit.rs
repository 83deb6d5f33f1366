//! ErrFit is the Fit at the end of the error strand: it shows the args it
//! gets and answers with its own spec key.
use vstd::prelude::*;
use crate::json::{Json, JsonObject, JsonV, obj_insert};
use crate::json_text::doc_text;
use crate::jah_args::{JahArgs, Args};
use crate::bootstrap::{Bootstrap, err_fit_key_v};
use crate::fit::FitArgs;

verus! {

/// Shows the errors that reach the end of the error strand.
pub struct ErrFit {
    settings: JsonObject,
}

/// The answer of the error Fit.
pub open spec fn err_fit_reply_v() -> Args {
    obj_insert(Seq::empty(), "spec_key"@, JsonV::Str("er5OWig71VG9oNjK"@))
}

impl ErrFit {
    pub fn new(settings: JsonObject) -> (r: ErrFit)
        ensures
            r.settings() == settings@,
    {
        ErrFit { settings }
    }

    /// The settings it was made with.
    pub closed spec fn settings(&self) -> Args {
        self.settings@
    }

    /// The key of the code that implements this Fit.
    pub fn fit_key(&self) -> (r: String)
        ensures
            r@ == err_fit_key_v(),
    {
        Bootstrap::err_fit_key()
    }

    /// The spec of what it takes.
    pub fn spec_keys_in(&self) -> (r: Vec<String>)
        ensures
            r@.len() == 1,
            r@[0]@ == "qJzMxt6eQV2CgKbr"@,
    {
        let mut v: Vec<String> = Vec::new();
        v.push("qJzMxt6eQV2CgKbr".to_owned());
        v
    }

    /// The spec of its answers.
    pub fn spec_keys_out(&self) -> (r: Vec<String>)
        ensures
            r@.len() == 1,
            r@[0]@ == "er5OWig71VG9oNjK"@,
    {
        let mut v: Vec<String> = Vec::new();
        v.push("er5OWig71VG9oNjK".to_owned());
        v
    }

    /// What it does with one call: the text of the args to show, and the answer.
    pub fn answer(args: &FitArgs) -> (r: (String, FitArgs))
        ensures
            r.0@ == doc_text(JsonV::Object(args.doc@)),
            r.1.doc@ == err_fit_reply_v(),
            r.1.attach@.len() == 0,
    {
        let shown = JahArgs::new(args.doc.deep_copy()).to_str();
        let mut r_args = JsonObject::new();
        r_args.insert("spec_key".to_owned(), Json::String("er5OWig71VG9oNjK".to_owned()));
        (shown, FitArgs::from_doc(r_args))
    }
}

} // verus!
