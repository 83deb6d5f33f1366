//! DocSlicePrep receives a document to add or to edit and preps it for
//! storage: the document gets its Must (a new one to add, a new stamp of
//! its key to edit) and the stored-document spec key, and its pretty text
//! becomes the attachment of a request to append a slice.
use vstd::prelude::*;
use vstd::utf8::encode_utf8;
use crate::json::{Json, JsonObject, JsonV, obj_insert, obj_remove, lookup, has_key, keys_unique, key_index,
    lemma_insert_unique, lemma_remove_unique, lemma_key_index};
use crate::json_text::doc_text;
use crate::jah_args::{JahArgs, Args, str_arg};
use crate::jah_spec::{JahSpec, Errs, check_args_v, lemma_accepted_arg_typed, lemma_distinct_rule_keys, get_allowed_v,
    arg_accepted, spec_well_formed, required_keys_v, lemma_check_args_accepts, lemma_rules2_pass};
use crate::bootstrap::{Bootstrap, objs_view, logic_error_v, spec_must_v, spec_add_doc_key_v, spec_edit_doc_key_v,
    spec_stored_doc_key_v, spec_append_slice_key_v, arg_spec_key_not_known_to_fit_v, doc_slice_prep_key_v,
    arg_rule_key_arg_key_must_be_string_v, spec_doc_v, spec_stored_doc_v,
    spec_doc_key_v, put, empty_v, str_v, rules2_v, arg_rule_key_arg_must_exist_v, arg_rule_key_arg_must_be_object_v};
use crate::fit::{FitArgs, FitErrs, FitComm, fit_comm_is};
use crate::must::{Must, MustV, must_obj_v, is_alphanumeric};

verus! {

/// Preps documents for storage.
pub struct DocSlicePrep {
    settings: JsonObject,
}

/// A document as it is stored: with its Must, under the stored-document
/// spec key.
pub open spec fn stored_doc_v(doc: Args, m: MustV) -> Args {
    obj_insert(
        obj_remove(obj_insert(doc, "must"@, JsonV::Object(must_obj_v(m))), "spec_key"@),
        "spec_key"@,
        JsonV::Str(spec_stored_doc_key_v()),
    )
}

/// The request that goes with the stored text: append the attachment
/// named `doc`.
pub open spec fn slice_request_v() -> Args {
    obj_insert(obj_insert(Seq::empty(), "attach"@, JsonV::Str("doc"@)), "spec_key"@, JsonV::Str(spec_append_slice_key_v()))
}

/// The answer once the Must is known: the slice request with the stored
/// document's pretty text attached, or the errors.
pub open spec fn prepped_v(doc: Args, must: Result<MustV, Errs>) -> Result<(Args, Seq<u8>), Errs> {
    match must {
        Ok(m) => Ok((slice_request_v(), encode_utf8(doc_text(JsonV::Object(stored_doc_v(doc, m)))))),
        Err(e) => Err(e),
    }
}

/// The spec key of a document.
pub open spec fn doc_key_v(doc: Args) -> Seq<char> {
    str_arg(doc, "spec_key"@)->Ok_0
}

/// The document that gets the Must: an edited document drops the Must it
/// came with.
pub open spec fn doc_for_must_v(doc: Args) -> Args {
    if doc_key_v(doc) == spec_edit_doc_key_v() {
        obj_remove(doc, "must"@)
    } else {
        doc
    }
}

/// A Must stamped now: a time stamp made from a reading of the clock.
pub open spec fn stamp_ok(m: MustV) -> bool {
    crate::must::is_stamped(m)
}

/// What the Must of a document can be: a new sixteen-character key to add,
/// a new stamp of the document's key to edit (once the document passes the
/// Must spec), an error for any other spec key.
pub open spec fn must_outcome_ok(doc: Args, r: Result<MustV, Errs>) -> bool {
    let key = doc_key_v(doc);
    if key == spec_add_doc_key_v() {
        r matches Ok(m) && m.key.len() == 16 && (forall|i: int| 0 <= i < 16 ==> is_alphanumeric(#[trigger] m.key[i]))
            && stamp_ok(m)
    } else if key == spec_edit_doc_key_v() {
        match check_args_v(spec_must_v(), doc) {
            Err(e) => r == Err::<MustV, Errs>(e),
            Ok(_) => r matches Ok(m) && m.key == str_arg(doc, "key"@)->Ok_0 && stamp_ok(m),
        }
    } else {
        r == Err::<MustV, Errs>(seq![logic_error_v(arg_spec_key_not_known_to_fit_v(), key, "aZWkaywgi34NMiDk"@, "doc_slice_prep.rs"@)])
    }
}

/// The view of a Must or the errors.
pub open spec fn must_res_v(r: Result<Must, FitErrs>) -> Result<MustV, Errs> {
    match r {
        Ok(m) => Ok(m@),
        Err(e) => Err(objs_view(e.errs@)),
    }
}

impl DocSlicePrep {
    pub fn new(settings: JsonObject) -> (r: DocSlicePrep)
        ensures
            r.settings() == settings@,
    {
        DocSlicePrep { settings }
    }

    /// The settings it was made with.
    pub closed spec fn settings(&self) -> Args {
        self.settings@
    }

    /// The key of the code that implements this Fit.
    pub fn fit_key(&self) -> (r: String)
        ensures
            r@ == doc_slice_prep_key_v(),
    {
        Bootstrap::doc_slice_prep_key()
    }

    /// The specs of the documents it takes: to add and to edit.
    pub fn spec_keys_in(&self) -> (r: Vec<String>)
        ensures
            r@.len() == 2,
            r@[0]@ == spec_add_doc_key_v(),
            r@[1]@ == spec_edit_doc_key_v(),
    {
        let mut v: Vec<String> = Vec::new();
        v.push(Bootstrap::spec_add_doc_key());
        v.push(Bootstrap::spec_edit_doc_key());
        v
    }

    /// The spec of what it hands on: a file slice.
    pub fn spec_keys_out(&self) -> (r: Vec<String>)
        ensures
            r@.len() == 1,
            r@[0]@ == crate::bootstrap::spec_file_slice_key_v(),
    {
        let mut v: Vec<String> = Vec::new();
        v.push(Bootstrap::spec_file_slice_key());
        v
    }

    /// The Must of a document to prep: a new one to add, a new stamp of the
    /// document's key to edit.  The key and the time come from the outside;
    /// what the contract states holds whatever they are.
    pub fn must_for(doc: &JsonObject) -> (r: Result<Must, FitErrs>)
        requires
            str_arg(doc@, "spec_key"@) is Ok,
        ensures
            must_outcome_ok(doc@, must_res_v(r)),
    {
        let args = JahArgs::new(doc.deep_copy());
        let key = match args.get_str("spec_key".to_owned()) {
            Ok(k) => k,
            Err(_) => String::new(),
        };
        if key == Bootstrap::spec_add_doc_key() {
            Ok(Must::new_must())
        } else if key == Bootstrap::spec_edit_doc_key() {
            let spec = JahSpec::new(Bootstrap::find_spec(Bootstrap::spec_must_must_key()));
            proof {
                crate::must::lemma_must_spec_key();
            }
            match spec.check_args(&args) {
                Err(errs) => Err(FitErrs::from_objects(errs)),
                Ok(_) => {
                    proof {
                        lemma_accepted_arg_typed(spec_must_v(), doc@, "key"@, arg_rule_key_arg_key_must_be_string_v());
                        lemma_distinct_rule_keys();
                    }
                    // The Must spec makes `key` a string: the fallback is never taken.
                    let must_key = match args.get_str("key".to_owned()) {
                        Ok(k) => k,
                        Err(_) => String::new(),
                    };
                    Ok(Must::stamped_must(must_key))
                },
            }
        } else {
            Err(
                FitErrs::from_object(
                    Bootstrap::logic_error(
                        Bootstrap::arg_spec_key_not_known_to_fit(),
                        key,
                        "aZWkaywgi34NMiDk".to_owned(),
                        "doc_slice_prep.rs".to_owned(),
                    ),
                ),
            )
        }
    }

    /// The document as it is stored, with the Must `must`.
    pub fn stored_doc(doc: JsonObject, must: &Must) -> (r: JsonObject)
        ensures
            r@ == stored_doc_v(doc@, must@),
    {
        let mut doc = doc;
        doc.insert("must".to_owned(), must.to_json());
        let sk = "spec_key".to_owned();
        doc.remove(&sk);
        doc.insert(sk, Json::String(Bootstrap::spec_stored_doc_key()));
        doc
    }

    /// The answer once the Must of `doc` is known.
    pub fn finish_prep(doc: JsonObject, must: Result<Must, FitErrs>) -> (r: FitComm)
        ensures
            fit_comm_is(r, prepped_v(doc@, must_res_v(must))),
    {
        match must {
            Ok(m) => {
                let stored = DocSlicePrep::stored_doc(doc, &m);
                let bytes = Json::Object(stored).to_bytes();
                let mut r_doc = JsonObject::new();
                r_doc.insert("attach".to_owned(), Json::String("doc".to_owned()));
                r_doc.insert("spec_key".to_owned(), Json::String(Bootstrap::spec_append_slice_key()));
                FitComm::FitOk(FitArgs::from_doc_with_attach(r_doc, bytes))
            },
            Err(errs) => FitComm::FitErr(errs),
        }
    }

    /// Preps the document of `fit_args`.  The caller has checked its spec,
    /// so it has a string `spec_key`.
    pub fn prep(fit_args: FitArgs) -> (r: FitComm)
        requires
            str_arg(fit_args.doc@, "spec_key"@) is Ok,
        ensures
            exists|m: Result<MustV, Errs>| #[trigger] must_outcome_ok(fit_args.doc@, m)
                && fit_comm_is(r, prepped_v(doc_for_must_v(fit_args.doc@), m)),
    {
        let must = DocSlicePrep::must_for(&fit_args.doc);
        let mut doc = fit_args.doc;
        let args = JahArgs::new(doc.deep_copy());
        let is_edit = match args.get_str("spec_key".to_owned()) {
            Ok(k) => k == Bootstrap::spec_edit_doc_key(),
            Err(_) => false,
        };
        if is_edit {
            doc.remove(&"must".to_owned());
        }
        let r = DocSlicePrep::finish_prep(doc, must);
        assert(must_outcome_ok(fit_args.doc@, must_res_v(must)));
        r
    }
}

/// The args that the document specs allow: the same for a document to
/// add and a document as stored.
pub open spec fn doc_allowed_v() -> Args {
    put(put(put(put(put(empty_v(),
        "user", rules2_v(arg_rule_key_arg_key_must_be_string_v(), arg_rule_key_arg_must_exist_v())),
        "acct", rules2_v(arg_rule_key_arg_key_must_be_string_v(), arg_rule_key_arg_must_exist_v())),
        "must", rules2_v(arg_rule_key_arg_must_be_object_v(), arg_rule_key_arg_must_exist_v())),
        "doc", rules2_v(arg_rule_key_arg_must_be_object_v(), arg_rule_key_arg_must_exist_v())),
        "spec_key", rules2_v(arg_rule_key_arg_key_must_be_string_v(), arg_rule_key_arg_must_exist_v()))
}

proof fn lemma_doc_specs()
    ensures
        get_allowed_v(spec_doc_v()) == Ok::<Args, Errs>(doc_allowed_v()),
        get_allowed_v(spec_stored_doc_v()) == Ok::<Args, Errs>(doc_allowed_v()),
        spec_well_formed(spec_stored_doc_v()),
        lookup(doc_allowed_v(), "must"@) == Some(rules2_v(arg_rule_key_arg_must_be_object_v(), arg_rule_key_arg_must_exist_v())),
        lookup(doc_allowed_v(), "spec_key"@) == Some(rules2_v(arg_rule_key_arg_key_must_be_string_v(), arg_rule_key_arg_must_exist_v())),
{
    reveal_strlit("user");
    reveal_strlit("acct");
    reveal_strlit("must");
    reveal_strlit("doc");
    reveal_strlit("spec_key");
    reveal_strlit("allowed");
    assert("user"@[0] != "acct"@[0]);
    assert("user"@[0] != "must"@[0]);
    assert("user"@[0] != "doc"@[0]);
    assert("user"@[0] != "spec_key"@[0]);
    assert("acct"@[0] != "must"@[0]);
    assert("acct"@[0] != "doc"@[0]);
    assert("acct"@[0] != "spec_key"@[0]);
    assert("must"@[0] != "doc"@[0]);
    assert("must"@[0] != "spec_key"@[0]);
    assert("doc"@[0] != "spec_key"@[0]);
    assert("allowed"@[0] != "spec_key"@[0]);
    let rs = rules2_v(arg_rule_key_arg_key_must_be_string_v(), arg_rule_key_arg_must_exist_v());
    let ro = rules2_v(arg_rule_key_arg_must_be_object_v(), arg_rule_key_arg_must_exist_v());
    let e = empty_v();
    let a1 = put(e, "user", rs);
    let a2 = put(a1, "acct", rs);
    let a3 = put(a2, "must", ro);
    let a4 = put(a3, "doc", ro);
    lemma_insert_unique(e, "user"@, rs);
    lemma_insert_unique(a1, "acct"@, rs);
    lemma_insert_unique(a2, "must"@, ro);
    lemma_insert_unique(a3, "doc"@, ro);
    lemma_insert_unique(a4, "spec_key"@, rs);
    let al = JsonV::Object(doc_allowed_v());
    let s1 = put(e, "allowed", al);
    lemma_insert_unique(e, "allowed"@, al);
    lemma_insert_unique(s1, "spec_key"@, str_v(spec_doc_key_v()));
    lemma_insert_unique(s1, "spec_key"@, str_v(spec_stored_doc_key_v()));
    let st = put(s1, "spec_key", str_v(spec_stored_doc_key_v()));
    assert(st.len() == 2);
}

/// A document that the spec of documents to add accepts is stored in a
/// form that the spec of stored documents accepts, whatever its Must.
pub proof fn lemma_stored_doc_accepted(doc: Args, m: MustV)
    requires
        keys_unique(doc),
        check_args_v(spec_doc_v(), doc) is Ok,
    ensures
        check_args_v(spec_stored_doc_v(), stored_doc_v(doc, m)) is Ok,
{
    lemma_doc_specs();
    reveal_strlit("must");
    reveal_strlit("spec_key");
    assert("must"@[0] != "spec_key"@[0]);
    let a = doc_allowed_v();
    let mo = JsonV::Object(must_obj_v(m));
    let sk = JsonV::Str(spec_stored_doc_key_v());
    let d1 = obj_insert(doc, "must"@, mo);
    lemma_insert_unique(doc, "must"@, mo);
    let d2 = obj_remove(d1, "spec_key"@);
    lemma_remove_unique(d1, "spec_key"@);
    let st = obj_insert(d2, "spec_key"@, sk);
    lemma_insert_unique(d2, "spec_key"@, sk);
    assert(st == stored_doc_v(doc, m));
    lemma_check_args_accepts(spec_doc_v(), doc);
    lemma_check_args_accepts(spec_stored_doc_v(), st);
    lemma_distinct_rule_keys();
    lemma_rules2_pass(arg_rule_key_arg_must_be_object_v(), mo);
    lemma_rules2_pass(arg_rule_key_arg_key_must_be_string_v(), sk);
    assert forall|i: int| 0 <= i < st.len() implies #[trigger] arg_accepted(st[i].0, st[i].1, a) by {
        let k = st[i].0;
        lemma_key_index(st, k, i);
        if k == "spec_key"@ {
            assert(st[i].1 == sk);
        } else if k == "must"@ {
            assert(lookup(st, k) == lookup(d1, k));
            assert(st[i].1 == mo);
        } else {
            assert(lookup(st, k) == lookup(doc, k));
            assert(has_key(doc, k));
            let j = key_index(doc, k);
            lemma_key_index(doc, k, j);
            assert(arg_accepted(doc[j].0, doc[j].1, a));
        }
    }
    assert forall|k: Seq<char>| #[trigger] required_keys_v(spec_stored_doc_v())->Ok_0.contains(k) implies has_key(st, k) by {
        assert(required_keys_v(spec_doc_v())->Ok_0.contains(k));
        if k != "must"@ && k != "spec_key"@ {
            assert(has_key(doc, k));
            let j = key_index(doc, k);
            lemma_key_index(doc, k, j);
            assert(lookup(st, k) == lookup(doc, k));
        }
    }
}

/// A document that the spec of documents to add accepts has a string
/// `spec_key`: what `prep` asks of its args.
pub proof fn lemma_doc_args_have_spec_key(doc: Args)
    requires
        check_args_v(spec_doc_v(), doc) is Ok,
    ensures
        str_arg(doc, "spec_key"@) is Ok,
{
    lemma_doc_specs();
    lemma_accepted_arg_typed(spec_doc_v(), doc, "spec_key"@, arg_rule_key_arg_key_must_be_string_v());
    lemma_distinct_rule_keys();
}

} // verus!
