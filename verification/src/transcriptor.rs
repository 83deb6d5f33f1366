//! The Transcriptor walks one strand for one request.  It keeps an arg bank
//! (every arg that a Fit has answered so far, the latest value of each name
//! winning) and the attachments named by those args.  Before each Fit it cuts
//! out of the bank the args that the spec of the current `spec_key` allows;
//! after each Fit it merges the answer back.  Talking to the Fits and to the
//! Ribosome is done around this module: here are the decisions.
use vstd::prelude::*;
use crate::json::{Json, JsonObject, JsonV, has_key, keys_unique, lookup, obj_insert, obj_remove, obj_keys,
    lemma_key_index, lemma_replace_reads_back};
use crate::jah_args::{JahArgs, GetArgErrorType, Args, str_arg};
use crate::jah_spec::{JahSpec, Errs, check_args_v, get_allowed_v};
use crate::bootstrap::{Bootstrap, objs_view, find_spec_v, logic_error_v, spec_rule_error_v,
    reply_error_trace_info_v, named_attachment_is_missing_v, arg_spec_key_arg_must_exist_v,
    arg_rule_key_arg_key_must_be_string_v, jah_corrupted_spec_key_v};
use crate::fit::{FitArgs, FitErrs, FitComm, fit_errs_args_v};
use crate::must::{Must, must_obj_v};
use crate::strand::{Ribosome, LogicInComm, LogicOutComm, ActionV};

verus! {

/// Named attachments: each name at most once.
pub struct AttachBank {
    items: Vec<(String, Vec<u8>)>,
    contents: Ghost<Map<Seq<char>, Seq<u8>>>,
}

/// The items hold each name once, and the map holds exactly the items.
spec fn bank_wf(items: Seq<(String, Vec<u8>)>, contents: Map<Seq<char>, Seq<u8>>) -> bool {
    &&& forall|i: int, j: int|
        0 <= i < items.len() && 0 <= j < items.len() && i != j
            ==> #[trigger] items[i].0@ != #[trigger] items[j].0@
    &&& forall|i: int| 0 <= i < items.len()
            ==> #[trigger] contents.contains_key(items[i].0@)
                && contents[items[i].0@] == items[i].1@
    &&& forall|k: Seq<char>| #[trigger] contents.contains_key(k)
            ==> exists|i: int| 0 <= i < items.len() && #[trigger] items[i].0@ == k
}

impl AttachBank {
    #[verifier::type_invariant]
    spec fn names_match(self) -> bool {
        bank_wf(self.items@, self.contents@)
    }
}

impl View for AttachBank {
    type V = Map<Seq<char>, Seq<u8>>;

    closed spec fn view(&self) -> Map<Seq<char>, Seq<u8>> {
        self.contents@
    }
}

impl AttachBank {
    /// No attachments.
    pub fn new() -> (r: AttachBank)
        ensures
            r@ == Map::<Seq<char>, Seq<u8>>::empty(),
    {
        AttachBank { items: Vec::new(), contents: Ghost(Map::empty()) }
    }

    fn index_of(&self, name: &String) -> (r: Option<usize>)
        ensures
            match r {
                Some(i) => i < self.items@.len() && self.items@[i as int].0@ == name@,
                None => !self@.contains_key(name@),
            },
    {
        proof {
            use_type_invariant(self);
        }
        let mut i: usize = 0;
        while i < self.items.len()
            invariant
                i <= self.items@.len(),
                forall|j: int| 0 <= j < i ==> #[trigger] self.items@[j].0@ != name@,
            decreases self.items@.len() - i,
        {
            if self.items[i].0 == *name {
                return Some(i);
            }
            i = i + 1;
        }
        None
    }

    /// The attachment named `name`, if there is one.
    pub fn find(&self, name: &String) -> (r: Option<Vec<u8>>)
        ensures
            r is Some <==> self@.contains_key(name@),
            r matches Some(b) ==> b@ == self@[name@],
    {
        proof {
            use_type_invariant(self);
        }
        match self.index_of(name) {
            Some(i) => Some(self.items[i].1.clone()),
            None => None,
        }
    }

    /// Stores `bytes` under `name`, replacing what was there.
    pub fn put(&mut self, name: String, bytes: Vec<u8>)
        ensures
            final(self)@ == old(self)@.insert(name@, bytes@),
    {
        proof {
            use_type_invariant(&*self);
        }
        let found = self.index_of(&name);
        let ghost n = name@;
        let ghost b = bytes@;
        let ghost old_items = self.items@;
        let ghost new_contents = self.contents@.insert(n, b);
        let mut whole = AttachBank::new();
        std::mem::swap(&mut whole, self);
        let AttachBank { items, contents: _ } = whole;
        let mut items = items;
        match found {
            Some(i) => {
                items.set(i, (name, bytes));
            },
            None => {
                items.push((name, bytes));
            },
        }
        assert forall|k: Seq<char>| #[trigger] new_contents.contains_key(k) implies exists|i: int|
            0 <= i < items@.len() && #[trigger] items@[i].0@ == k by {
            if k == n {
                match found {
                    Some(i) => assert(items@[i as int].0@ == k),
                    None => assert(items@[items@.len() - 1].0@ == k),
                }
            } else {
                let j = choose|j: int| 0 <= j < old_items.len() && #[trigger] old_items[j].0@ == k;
                assert(items@[j].0@ == k);
            }
        }
        let ghost old_contents = old(self).contents@;
        assert forall|i: int| 0 <= i < items@.len() implies #[trigger] new_contents.contains_key(items@[i].0@)
            && new_contents[items@[i].0@] == items@[i].1@ by {
            if items@[i].0@ != n {
                assert(i < old_items.len() && items@[i] == old_items[i]);
            }
        }
        assert forall|i: int, j: int|
            0 <= i < items@.len() && 0 <= j < items@.len() && i != j
                implies #[trigger] items@[i].0@ != #[trigger] items@[j].0@ by {
            match found {
                Some(f) => {
                    if i != f && j != f {
                        assert(items@[i] == old_items[i] && items@[j] == old_items[j]);
                    } else if i == f {
                        assert(items@[j] == old_items[j]);
                        assert(old_items[f as int].0@ == n);
                    } else {
                        assert(items@[i] == old_items[i]);
                        assert(old_items[f as int].0@ == n);
                    }
                },
                None => {
                    if i < old_items.len() && j < old_items.len() {
                        assert(items@[i] == old_items[i] && items@[j] == old_items[j]);
                    } else if i < old_items.len() {
                        assert(items@[i] == old_items[i]);
                        assert(old_contents.contains_key(old_items[i].0@));
                    } else {
                        assert(items@[j] == old_items[j]);
                        assert(old_contents.contains_key(old_items[j].0@));
                    }
                },
            }
        }
        assert(bank_wf(items@, new_contents));
        *self = AttachBank { items, contents: Ghost(new_contents) };
    }
}

// ---------------------------------------------------------------------------
// Specifications
// ---------------------------------------------------------------------------

/// The trace info that this module adds when it passes errors on.
pub open spec fn t_trace(line: &str) -> Args {
    reply_error_trace_info_v("transcriptor.rs"@, line@)
}

/// The bank after the first `n` members of `doc` replaced their namesakes.
pub open spec fn merged_v(bank: Args, doc: Args, n: int) -> Args
    decreases n,
{
    if n <= 0 {
        bank
    } else {
        let b = merged_v(bank, doc, n - 1);
        obj_insert(obj_remove(b, doc[n - 1].0), doc[n - 1].0, doc[n - 1].1)
    }
}

/// The bank after every member of `doc` replaced its namesake.
pub open spec fn merge_v(bank: Args, doc: Args) -> Args {
    merged_v(bank, doc, doc.len() as int)
}

/// The attachments after a merge: where `doc` names an attachment, the
/// attached bytes are stored under that name.
pub open spec fn attach_merge_v(att: Map<Seq<char>, Seq<u8>>, doc: Args, bytes: Seq<u8>) -> Map<Seq<char>, Seq<u8>> {
    match str_arg(doc, "attach"@) {
        Ok(name) => att.insert(name, bytes),
        Err(_) => att,
    }
}

/// The members of `bank` named by the first `n` of `keys`, in that order.
pub open spec fn excerpt_v(keys: Seq<Seq<char>>, bank: Args, n: int) -> Args
    decreases n,
{
    if n <= 0 {
        Seq::empty()
    } else {
        let r = excerpt_v(keys, bank, n - 1);
        match lookup(bank, keys[n - 1]) {
            Some(v) => obj_insert(r, keys[n - 1], v),
            None => r,
        }
    }
}

/// What a spec cuts out of the bank: the allowed args, checked against the
/// spec, with the attachment that they name.
pub open spec fn excerpt_result_v(spec: Args, bank: Args, att: Map<Seq<char>, Seq<u8>>) -> Result<(Args, Seq<u8>), Errs> {
    match get_allowed_v(spec) {
        Err(e) => Err(seq![t_trace("RqTr8enRtmwjwWrf")] + e),
        Ok(a) => {
            let doc = excerpt_v(obj_keys(a), bank, a.len() as int);
            match check_args_v(spec, doc) {
                Err(e) => Err(seq![t_trace("FHLGfPficrDnNzao")] + e),
                Ok(_) => match str_arg(doc, "attach"@) {
                    Ok(name) => if att.contains_key(name) {
                        Ok((doc, att[name]))
                    } else {
                        Err(seq![logic_error_v(named_attachment_is_missing_v(), name, "Kyzltdf11TRcTIiI"@, "transcriptor.rs"@)])
                    },
                    Err(_) => Ok((doc, Seq::empty())),
                },
            }
        },
    }
}

/// The args of the next Fit: what the spec of the bank's latest `spec_key`
/// cuts out of the bank.
pub open spec fn extract_v(bank: Args, att: Map<Seq<char>, Seq<u8>>) -> Result<(Args, Seq<u8>), Errs> {
    match str_arg(bank, "spec_key"@) {
        Err(GetArgErrorType::MissingKey) => Err(
            seq![logic_error_v(arg_spec_key_arg_must_exist_v(), "spec_key"@, "0vKBkZjRUMVei1QX"@, "transcriptor.rs"@)],
        ),
        Err(GetArgErrorType::WrongDataType) => Err(
            seq![logic_error_v(arg_rule_key_arg_key_must_be_string_v(), "spec_key"@, "QyKtHrBE8GXB0WEf"@, "transcriptor.rs"@)],
        ),
        Ok(k) => match excerpt_result_v(find_spec_v(k), bank, att) {
            Ok(r) => Ok(r),
            Err(e) => Err(seq![t_trace("P590aja1zCctfAVJ")] + e),
        },
    }
}

/// Whether a Fit result is the outcome `v`: the doc and attachment, or the errors.
pub open spec fn fit_result_is(r: Result<FitArgs, FitErrs>, v: Result<(Args, Seq<u8>), Errs>) -> bool {
    match r {
        Ok(fa) => v is Ok && fa.doc@ == v->Ok_0.0 && fa.attach@ == v->Ok_0.1 && fa.state@.len() == 0,
        Err(fe) => v is Err && objs_view(fe.errs@) == v->Err_0,
    }
}

/// The verdict on the args that start a transcription.
pub open spec fn incoming_v(args: Args) -> Result<(), Errs> {
    match str_arg(args, "spec_key"@) {
        Ok(k) => match check_args_v(find_spec_v(k), args) {
            Ok(_) => Ok(()),
            Err(e) => Err(seq![t_trace("OAGw7LnsZ0j03d4W")] + e),
        },
        Err(GetArgErrorType::MissingKey) => Err(
            seq![spec_rule_error_v(arg_spec_key_arg_must_exist_v(), "spec_key"@, jah_corrupted_spec_key_v(), "JRkY9TDbehfPPA2F"@, "transcriptor.rs"@)],
        ),
        Err(GetArgErrorType::WrongDataType) => Err(
            seq![spec_rule_error_v(arg_rule_key_arg_key_must_be_string_v(), "spec_key"@, jah_corrupted_spec_key_v(), "rkO0NumJeuQy7Fnu"@, "transcriptor.rs"@)],
        ),
    }
}

/// What the bank holds of `k` after the first `n` members of `doc` were merged in.
pub open spec fn merged_lookup_v(bank: Args, doc: Args, n: int, k: Seq<char>) -> Option<JsonV> {
    if exists|j: int| 0 <= j < n && #[trigger] doc[j].0 == k {
        Some(doc[choose|j: int| 0 <= j < n && #[trigger] doc[j].0 == k].1)
    } else {
        lookup(bank, k)
    }
}

proof fn lemma_merged_prefix(bank: Args, doc: Args, n: int, k: Seq<char>)
    requires
        keys_unique(bank),
        keys_unique(doc),
        0 <= n <= doc.len(),
    ensures
        keys_unique(merged_v(bank, doc, n)),
        lookup(merged_v(bank, doc, n), k) == merged_lookup_v(bank, doc, n, k),
    decreases n,
{
    if n > 0 {
        lemma_merged_prefix(bank, doc, n - 1, k);
        let b = merged_v(bank, doc, n - 1);
        let kn = doc[n - 1].0;
        lemma_replace_reads_back(b, kn, doc[n - 1].1, k);
        if k == kn {
            assert(doc[n - 1].0 == k);
            let j = choose|j: int| 0 <= j < n && #[trigger] doc[j].0 == k;
            assert(j == n - 1);
        } else {
            if exists|j: int| 0 <= j < n && #[trigger] doc[j].0 == k {
                let j = choose|j: int| 0 <= j < n && #[trigger] doc[j].0 == k;
                assert(j != n - 1);
                assert(exists|i: int| 0 <= i < n - 1 && #[trigger] doc[i].0 == k);
                let j2 = choose|j: int| 0 <= j < n - 1 && #[trigger] doc[j].0 == k;
                assert(j2 == j);
            } else {
                assert(!exists|j: int| 0 <= j < n - 1 && #[trigger] doc[j].0 == k);
            }
        }
    }
}

/// A merge leaves the bank with unique names; each name of the answer reads
/// back the value the answer gave it, and every other name reads back what
/// the bank held before.
pub proof fn lemma_merge_reads_back(bank: Args, doc: Args, k: Seq<char>)
    requires
        keys_unique(bank),
        keys_unique(doc),
    ensures
        keys_unique(merge_v(bank, doc)),
        has_key(doc, k) ==> lookup(merge_v(bank, doc), k) == lookup(doc, k),
        !has_key(doc, k) ==> lookup(merge_v(bank, doc), k) == lookup(bank, k),
{
    lemma_merged_prefix(bank, doc, doc.len() as int, k);
    if has_key(doc, k) {
        let i = choose|i: int| 0 <= i < doc.len() && #[trigger] doc[i].0 == k;
        lemma_key_index(doc, k, i);
        let j = choose|j: int| 0 <= j < doc.len() && #[trigger] doc[j].0 == k;
        assert(j == i);
    } else {
        assert(!exists|j: int| 0 <= j < doc.len() && #[trigger] doc[j].0 == k);
    }
}

// ---------------------------------------------------------------------------
// The Transcriptor
// ---------------------------------------------------------------------------

fn t_trace_obj(line: &str) -> (r: JsonObject)
    ensures
        r@ == t_trace(line),
{
    Bootstrap::reply_error_trace_info("transcriptor.rs".to_owned(), line.to_owned())
}

/// Merges the args of an answer into the bank: each of its members replaces
/// its namesake, and the attachment it names (if any) is stored.
pub fn merge_args(args: &FitArgs, arg_bank: &mut JsonObject, attached: &mut AttachBank)
    ensures
        final(arg_bank)@ == merge_v(old(arg_bank)@, args.doc@),
        final(attached)@ == attach_merge_v(old(attached)@, args.doc@, args.attach@),
{
    let keys = args.doc.keys();
    let ghost doc = args.doc@;
    let ghost bank0 = arg_bank@;
    let mut i: usize = 0;
    while i < keys.len()
        invariant
            i <= keys@.len(),
            keys@.len() == doc.len(),
            doc == args.doc@,
            keys_unique(doc),
            forall|j: int| 0 <= j < keys@.len() ==> #[trigger] keys@[j]@ == obj_keys(doc)[j],
            arg_bank@ == merged_v(bank0, doc, i as int),
        decreases keys@.len() - i,
    {
        let key = keys[i].clone();
        assert(key@ == doc[i as int].0);
        proof {
            lemma_key_index(doc, key@, i as int);
        }
        arg_bank.remove(&key);
        match args.doc.get(&key) {
            Some(v) => {
                arg_bank.insert(key, v.deep_copy());
            },
            None => {},
        }
        i = i + 1;
    }
    let jargs = JahArgs::new(args.doc.deep_copy());
    match jargs.get_str("attach".to_owned()) {
        Ok(name) => {
            attached.put(name, args.attach.clone());
        },
        Err(_) => {},
    }
}

/// Cuts out of the bank the args that `spec` allows, checks them against the
/// spec, and adds the attachment that they name.
pub fn speced_arg_excerpt(spec: &JsonObject, arg_bank: &JsonObject, attached: &AttachBank) -> (r: Result<FitArgs, FitErrs>)
    ensures
        fit_result_is(r, excerpt_result_v(spec@, arg_bank@, attached@)),
{
    let jspec = JahSpec::new(spec.deep_copy());
    let keys = match jspec.allowed_keys() {
        Ok(keys) => keys,
        Err(err) => {
            return Err(FitErrs::from_objects(err).prepend_err(t_trace_obj("RqTr8enRtmwjwWrf")));
        },
    };
    let ghost a = get_allowed_v(spec@)->Ok_0;
    let ghost ks = obj_keys(a);
    let ghost bank = arg_bank@;
    let mut rval = JsonObject::new();
    let mut i: usize = 0;
    while i < keys.len()
        invariant
            i <= keys@.len(),
            keys@.len() == a.len(),
            ks == obj_keys(a),
            bank == arg_bank@,
            forall|j: int| 0 <= j < keys@.len() ==> #[trigger] keys@[j]@ == ks[j],
            rval@ == excerpt_v(ks, bank, i as int),
        decreases keys@.len() - i,
    {
        let key = &keys[i];
        assert(key@ == ks[i as int]);
        match arg_bank.get(key) {
            Some(arg_val) => {
                rval.insert(key.clone(), arg_val.deep_copy());
            },
            None => {},
        }
        i = i + 1;
    }
    let doc = JahArgs::new(rval);
    let attch = match jspec.check_args(&doc) {
        Ok(_) => match doc.get_str("attach".to_owned()) {
            Ok(attached_name) => match attached.find(&attached_name) {
                Some(attached_bytes) => attached_bytes,
                None => {
                    return Err(
                        FitErrs::from_object(
                            Bootstrap::logic_error(
                                Bootstrap::named_attachment_is_missing(),
                                attached_name,
                                "Kyzltdf11TRcTIiI".to_owned(),
                                "transcriptor.rs".to_owned(),
                            ),
                        ),
                    );
                },
            },
            Err(_) => Vec::new(),
        },
        Err(errs) => {
            return Err(FitErrs::from_objects(errs).prepend_err(t_trace_obj("FHLGfPficrDnNzao")));
        },
    };
    Ok(FitArgs::from_doc_with_attach(doc.as_object().deep_copy(), attch))
}

/// The args of the next Fit: what the spec of the bank's latest `spec_key`
/// cuts out of the bank.
pub fn extract_args(arg_bank: &JsonObject, attached: &AttachBank) -> (r: Result<FitArgs, FitErrs>)
    ensures
        fit_result_is(r, extract_v(arg_bank@, attached@)),
{
    let bank = JahArgs::new(arg_bank.deep_copy());
    let spec_key = match bank.get_str("spec_key".to_owned()) {
        Ok(spec_key) => spec_key,
        Err(err) => match err {
            GetArgErrorType::MissingKey => {
                return Err(
                    FitErrs::from_object(
                        Bootstrap::logic_error(
                            Bootstrap::arg_spec_key_arg_must_exist(),
                            "spec_key".to_owned(),
                            "0vKBkZjRUMVei1QX".to_owned(),
                            "transcriptor.rs".to_owned(),
                        ),
                    ),
                );
            },
            GetArgErrorType::WrongDataType => {
                return Err(
                    FitErrs::from_object(
                        Bootstrap::logic_error(
                            Bootstrap::arg_rule_key_arg_key_must_be_string(),
                            "spec_key".to_owned(),
                            "QyKtHrBE8GXB0WEf".to_owned(),
                            "transcriptor.rs".to_owned(),
                        ),
                    ),
                );
            },
        },
    };
    match speced_arg_excerpt(&Bootstrap::find_spec(spec_key), arg_bank, attached) {
        Ok(args) => Ok(args),
        Err(errs) => Err(errs.prepend_err(t_trace_obj("P590aja1zCctfAVJ"))),
    }
}

/// Checks the args that start a transcription against the spec that their
/// `spec_key` names.
pub fn incoming_spec_ok(args: &JsonObject) -> (r: Result<bool, FitErrs>)
    ensures
        match r {
            Ok(b) => b && incoming_v(args@) is Ok,
            Err(e) => incoming_v(args@) == Err::<(), Errs>(objs_view(e.errs@)),
        },
{
    let jargs = JahArgs::new(args.deep_copy());
    match jargs.get_str("spec_key".to_owned()) {
        Ok(spec_key) => {
            let spec = JahSpec::new(Bootstrap::find_spec(spec_key));
            match spec.check_args(&jargs) {
                Ok(_) => Ok(true),
                Err(errs) => Err(FitErrs::from_objects(errs).prepend_err(t_trace_obj("OAGw7LnsZ0j03d4W"))),
            }
        },
        Err(reason) => match reason {
            GetArgErrorType::MissingKey => Err(
                FitErrs::from_object(
                    Bootstrap::spec_rule_error(
                        Bootstrap::arg_spec_key_arg_must_exist(),
                        "spec_key".to_owned(),
                        Bootstrap::jah_corrupted_spec_key(),
                        "JRkY9TDbehfPPA2F".to_owned(),
                        "transcriptor.rs".to_owned(),
                    ),
                ),
            ),
            GetArgErrorType::WrongDataType => Err(
                FitErrs::from_object(
                    Bootstrap::spec_rule_error(
                        Bootstrap::arg_rule_key_arg_key_must_be_string(),
                        "spec_key".to_owned(),
                        Bootstrap::jah_corrupted_spec_key(),
                        "rkO0NumJeuQy7Fnu".to_owned(),
                        "transcriptor.rs".to_owned(),
                    ),
                ),
            ),
        },
    }
}

/// The document that names a transcription: its Must and the spec key
/// `CelvpCNzHNiPPUKL`.
pub fn make_t_key(t_key: &Must) -> (r: JsonObject)
    ensures
        r@ == obj_insert(obj_insert(Seq::empty(), "t_key"@, JsonV::Object(must_obj_v(t_key@))), "spec_key"@,
            JsonV::Str("CelvpCNzHNiPPUKL"@)),
{
    let mut rval = JsonObject::new();
    rval.insert("t_key".to_owned(), t_key.to_json());
    rval.insert("spec_key".to_owned(), Json::String("CelvpCNzHNiPPUKL".to_owned()));
    rval
}

/// What the bank takes in from a Fit's answer, and how the walk goes on:
/// a valid answer is merged and the walk goes on; an answer that breaks its
/// spec is replaced by its errors and the walk still goes on; an answer
/// without a string `spec_key`, or an error the Fit handled, is merged as
/// errors and the walk turns to its error strand.  A system error ends the
/// transcription.
pub open spec fn absorbed_v(outcome: FitComm) -> Result<(LogicInComm, Args, Seq<u8>), Errs> {
    match outcome {
        FitComm::FitOk(rval) => match str_arg(rval.doc@, "spec_key"@) {
            Ok(key) => match check_args_v(find_spec_v(key), rval.doc@) {
                Ok(_) => Ok((LogicInComm::NextOk, rval.doc@, rval.attach@)),
                Err(e) => Ok((LogicInComm::NextOk, fit_errs_args_v(e), Seq::empty())),
            },
            Err(GetArgErrorType::MissingKey) => Ok((LogicInComm::NextErr, fit_errs_args_v(
                seq![logic_error_v(arg_spec_key_arg_must_exist_v(), "spec_key"@, "TWRUF69B4hv4v5Iz"@, "transcriptor.rs"@)],
            ), Seq::empty())),
            Err(GetArgErrorType::WrongDataType) => Ok((LogicInComm::NextErr, fit_errs_args_v(
                seq![logic_error_v(arg_rule_key_arg_key_must_be_string_v(), "spec_key"@, "iwpCbbmXqKyvc9VL"@, "transcriptor.rs"@)],
            ), Seq::empty())),
        },
        FitComm::FitErr(e) => Ok((LogicInComm::NextErr, fit_errs_args_v(objs_view(e.errs@)), Seq::empty())),
        FitComm::FitSysErr(e) => Err(objs_view(e.errs@)),
    }
}

/// Merging the document of a list of errors: the bank's `spec_key` becomes
/// the fit-errors key, `errs` holds the errors, every other member stays.
proof fn lemma_merge_errors(bank: Args, e: Errs, k: Seq<char>)
    requires
        keys_unique(bank),
    ensures
        lookup(merge_v(bank, fit_errs_args_v(e)), "spec_key"@) == Some(JsonV::Str(crate::bootstrap::fit_errs_key_v())),
        lookup(merge_v(bank, fit_errs_args_v(e)), "errs"@) == Some(JsonV::List(crate::bootstrap::objects_v(e))),
        k != "spec_key"@ && k != "errs"@ ==> lookup(merge_v(bank, fit_errs_args_v(e)), k) == lookup(bank, k),
        str_arg(fit_errs_args_v(e), "attach"@) is Err,
{
    let sv = JsonV::Str(crate::bootstrap::fit_errs_key_v());
    let lv = JsonV::List(crate::bootstrap::objects_v(e));
    let d = fit_errs_args_v(e);
    reveal_strlit("spec_key");
    reveal_strlit("errs");
    reveal_strlit("attach");
    assert("spec_key"@[0] != "errs"@[0]);
    let e0: Args = Seq::empty();
    let d1 = obj_insert(e0, "spec_key"@, sv);
    crate::json::lemma_insert_unique(e0, "spec_key"@, sv);
    crate::json::lemma_insert_unique(d1, "errs"@, lv);
    assert(d1 =~= seq![("spec_key"@, sv)]);
    assert(!has_key(d1, "errs"@));
    assert(d =~= seq![("spec_key"@, sv), ("errs"@, lv)]);
    lemma_merged_prefix(bank, d, 2, k);
    lemma_merged_prefix(bank, d, 2, "spec_key"@);
    lemma_merged_prefix(bank, d, 2, "errs"@);
    assert(d[0].0 == "spec_key"@);
    assert(d[1].0 == "errs"@);
    if k != "spec_key"@ && k != "errs"@ {
        assert(!exists|j: int| 0 <= j < 2 && #[trigger] d[j].0 == k);
    }
    assert("attach"@[0] != "spec_key"@[0]);
    assert("attach"@[0] != "errs"@[0]);
    crate::json::lemma_key_index(d, "spec_key"@, 0);
    crate::json::lemma_key_index(d, "errs"@, 1);
    assert(!has_key(d, "attach"@));
}

/// An answer that breaks the spec its `spec_key` names is not taken into
/// the bank: in its place the bank gets the errors that the check reported
/// (under `errs`) and the fit-errors key as its `spec_key`; every other
/// member of the bank stays as it was, no attachment is stored, and the walk
/// goes on.
pub proof fn lemma_spec_breaking_answer_is_replaced_by_its_errors(
    bank: Args,
    att: Map<Seq<char>, Seq<u8>>,
    rval: FitArgs,
    k: Seq<char>,
)
    requires
        keys_unique(bank),
        str_arg(rval.doc@, "spec_key"@) is Ok,
        check_args_v(find_spec_v(str_arg(rval.doc@, "spec_key"@)->Ok_0), rval.doc@) is Err,
    ensures
        absorbed_v(FitComm::FitOk(rval)) is Ok,
        absorbed_v(FitComm::FitOk(rval))->Ok_0.0 == LogicInComm::NextOk,
        lookup(merge_v(bank, absorbed_v(FitComm::FitOk(rval))->Ok_0.1), "spec_key"@)
            == Some(JsonV::Str(crate::bootstrap::fit_errs_key_v())),
        lookup(merge_v(bank, absorbed_v(FitComm::FitOk(rval))->Ok_0.1), "errs"@) == Some(JsonV::List(
            crate::bootstrap::objects_v(check_args_v(find_spec_v(str_arg(rval.doc@, "spec_key"@)->Ok_0), rval.doc@)->Err_0),
        )),
        k != "spec_key"@ && k != "errs"@ ==> lookup(merge_v(bank, absorbed_v(FitComm::FitOk(rval))->Ok_0.1), k)
            == lookup(bank, k),
        attach_merge_v(att, absorbed_v(FitComm::FitOk(rval))->Ok_0.1, absorbed_v(FitComm::FitOk(rval))->Ok_0.2)
            == att,
{
    let key = str_arg(rval.doc@, "spec_key"@)->Ok_0;
    lemma_merge_errors(bank, check_args_v(find_spec_v(key), rval.doc@)->Err_0, k);
}

/// An answer that passes the spec its `spec_key` names is taken into the
/// bank: each of its members replaces its namesake, every other member of
/// the bank stays, the attachment it names is stored under that name, and
/// the walk goes on.
pub proof fn lemma_valid_answer_is_merged(bank: Args, att: Map<Seq<char>, Seq<u8>>, rval: FitArgs, k: Seq<char>)
    requires
        keys_unique(bank),
        keys_unique(rval.doc@),
        str_arg(rval.doc@, "spec_key"@) is Ok,
        check_args_v(find_spec_v(str_arg(rval.doc@, "spec_key"@)->Ok_0), rval.doc@) is Ok,
    ensures
        absorbed_v(FitComm::FitOk(rval)) is Ok,
        absorbed_v(FitComm::FitOk(rval))->Ok_0.0 == LogicInComm::NextOk,
        has_key(rval.doc@, k) ==> lookup(merge_v(bank, absorbed_v(FitComm::FitOk(rval))->Ok_0.1), k)
            == lookup(rval.doc@, k),
        !has_key(rval.doc@, k) ==> lookup(merge_v(bank, absorbed_v(FitComm::FitOk(rval))->Ok_0.1), k)
            == lookup(bank, k),
        str_arg(rval.doc@, "attach"@) matches Ok(name) ==> attach_merge_v(
            att,
            absorbed_v(FitComm::FitOk(rval))->Ok_0.1,
            absorbed_v(FitComm::FitOk(rval))->Ok_0.2,
        ) == att.insert(name, rval.attach@),
        str_arg(rval.doc@, "attach"@) is Err ==> attach_merge_v(
            att,
            absorbed_v(FitComm::FitOk(rval))->Ok_0.1,
            absorbed_v(FitComm::FitOk(rval))->Ok_0.2,
        ) == att,
{
    let d = rval.doc@;
    lemma_merged_prefix(bank, d, d.len() as int, k);
    if has_key(d, k) {
        let i = choose|i: int| 0 <= i < d.len() && #[trigger] d[i].0 == k;
        crate::json::lemma_key_index(d, k, i);
        let j = choose|j: int| 0 <= j < d.len() && #[trigger] d[j].0 == k;
        assert(j == i);
    } else {
        assert(!exists|j: int| 0 <= j < d.len() && #[trigger] d[j].0 == k);
    }
}

/// An error that the Fit handled turns the walk to its error strand: the
/// bank's `spec_key` becomes the fit-errors key, `errs` holds the Fit's
/// errors, every other member stays, and no attachment is stored.
pub proof fn lemma_handled_error_turns_the_walk(bank: Args, att: Map<Seq<char>, Seq<u8>>, errs: FitErrs, k: Seq<char>)
    requires
        keys_unique(bank),
    ensures
        absorbed_v(FitComm::FitErr(errs)) is Ok,
        absorbed_v(FitComm::FitErr(errs))->Ok_0.0 == LogicInComm::NextErr,
        lookup(merge_v(bank, absorbed_v(FitComm::FitErr(errs))->Ok_0.1), "spec_key"@)
            == Some(JsonV::Str(crate::bootstrap::fit_errs_key_v())),
        lookup(merge_v(bank, absorbed_v(FitComm::FitErr(errs))->Ok_0.1), "errs"@) == Some(JsonV::List(
            crate::bootstrap::objects_v(objs_view(errs.errs@)),
        )),
        k != "spec_key"@ && k != "errs"@ ==> lookup(merge_v(bank, absorbed_v(FitComm::FitErr(errs))->Ok_0.1), k)
            == lookup(bank, k),
        attach_merge_v(att, absorbed_v(FitComm::FitErr(errs))->Ok_0.1, absorbed_v(FitComm::FitErr(errs))->Ok_0.2)
            == att,
{
    lemma_merge_errors(bank, objs_view(errs.errs@), k);
}

/// What the transcription does next.
pub enum TranscriptStep {
    /// Hand the Ribosome the value of the arg it asked for (or none).
    SendArg(Option<String>),
    /// Call the Fit registered under this key with these args.
    CallFit(String, FitArgs),
    /// The transcription is over: this goes to whoever asked for it.
    GoodBy(Result<FitArgs, FitErrs>),
}

/// One transcription: the arg bank, the attachments and the key that names
/// the transcription.
pub struct Transcriptor {
    arg_bank: JsonObject,
    attached: AttachBank,
    t_key: Must,
}

impl Transcriptor {
    /// The args gathered so far.
    pub closed spec fn bank(&self) -> Args {
        self.arg_bank@
    }

    /// The attachments gathered so far.
    pub closed spec fn attachments(&self) -> Map<Seq<char>, Seq<u8>> {
        self.attached@
    }

    /// The key of this transcription.
    pub closed spec fn key(&self) -> crate::must::MustV {
        self.t_key@
    }

    /// Starts a transcription of `fit_args` along the strand `kickoff_strand_key`:
    /// the args must pass the spec their `spec_key` names; they become the
    /// first content of the bank, and the walk says what it asks first.
    pub fn connect(kickoff_strand_key: String, t_key: Must, fit_args: FitArgs) -> (r: Result<
        (Transcriptor, Ribosome, LogicOutComm),
        FitErrs,
    >)
        ensures
            match r {
                Ok((tr, rib, action)) => {
                    &&& incoming_v(fit_args.doc@) is Ok
                    &&& tr.bank() == merge_v(Seq::empty(), fit_args.doc@)
                    &&& tr.attachments() == attach_merge_v(Map::empty(), fit_args.doc@, fit_args.attach@)
                    &&& tr.key() == t_key@
                    &&& (rib@, action@) == crate::strand::advance_v(crate::strand::get_strand_v(kickoff_strand_key@), 0)
                    &&& crate::strand::rib_wf(rib@)
                },
                Err(e) => incoming_v(fit_args.doc@) == Err::<(), Errs>(objs_view(e.errs@)),
            },
    {
        match incoming_spec_ok(&fit_args.doc) {
            Ok(_) => {},
            Err(errs) => {
                return Err(errs);
            },
        }
        let mut arg_bank = JsonObject::new();
        let mut attached = AttachBank::new();
        let (rib, action) = Ribosome::connect(kickoff_strand_key);
        merge_args(&fit_args, &mut arg_bank, &mut attached);
        Ok((Transcriptor { arg_bank, attached, t_key }, rib, action))
    }

    /// The key that names this transcription.
    pub fn t_key(&self) -> (r: Must)
        ensures
            r@ == self.key(),
    {
        self.t_key.copy()
    }

    /// The string value of the arg `key` in the bank, if it holds one.
    pub fn arg_str(&self, key: String) -> (r: Option<String>)
        ensures
            match str_arg(self.bank(), key@) {
                Ok(v) => r matches Some(s) && s@ == v,
                Err(_) => r is None,
            },
    {
        let bank = JahArgs::new(self.arg_bank.deep_copy());
        match bank.get_str(key) {
            Ok(val) => Some(val),
            Err(_) => None,
        }
    }

    /// The args of the Fit that the walk asks for next; the errors where they
    /// cannot be cut out of the bank.
    pub fn prepare_fit(&self) -> (r: Result<FitArgs, FitErrs>)
        ensures
            fit_result_is(r, match extract_v(self.bank(), self.attachments()) {
                Ok(x) => Ok(x),
                Err(e) => Err(seq![t_trace("xyWRC6uUDdAOK0TN")] + e),
            }),
    {
        match extract_args(&self.arg_bank, &self.attached) {
            Ok(args) => Ok(args),
            Err(errs) => Err(errs.prepend_err(t_trace_obj("xyWRC6uUDdAOK0TN"))),
        }
    }

    /// Takes in the answer of a Fit: the bank and attachments grow as
    /// `absorbed_v` says, and the walk is told how to go on.  A system error
    /// leaves the bank as it was and is handed back.
    pub fn absorb_fit_outcome(&mut self, outcome: FitComm) -> (r: Result<LogicInComm, FitErrs>)
        ensures
            match r {
                Ok(sig) => {
                    &&& absorbed_v(outcome) is Ok
                    &&& sig == absorbed_v(outcome)->Ok_0.0
                    &&& final(self).bank() == merge_v(old(self).bank(), absorbed_v(outcome)->Ok_0.1)
                    &&& final(self).attachments() == attach_merge_v(old(self).attachments(),
                        absorbed_v(outcome)->Ok_0.1, absorbed_v(outcome)->Ok_0.2)
                },
                Err(e) => {
                    &&& absorbed_v(outcome) == Err::<(LogicInComm, Args, Seq<u8>), Errs>(objs_view(e.errs@))
                    &&& final(self).bank() == old(self).bank()
                    &&& final(self).attachments() == old(self).attachments()
                },
            },
            final(self).key() == old(self).key(),
    {
        match outcome {
            FitComm::FitOk(rval) => {
                let doc = JahArgs::new(rval.doc.deep_copy());
                match doc.get_str("spec_key".to_owned()) {
                    Ok(key) => {
                        let spec = JahSpec::new(Bootstrap::find_spec(key));
                        match spec.check_args(&doc) {
                            Ok(_) => {
                                merge_args(&rval, &mut self.arg_bank, &mut self.attached);
                                Ok(LogicInComm::NextOk)
                            },
                            Err(errs) => {
                                let fit_errs = FitErrs::from_objects(errs);
                                let fa = FitArgs::from_doc(fit_errs.to_args());
                assert(fa.attach@ =~= Seq::<u8>::empty());
                merge_args(&fa, &mut self.arg_bank, &mut self.attached);
                                Ok(LogicInComm::NextOk)
                            },
                        }
                    },
                    Err(err_type) => {
                        let errs = match err_type {
                            GetArgErrorType::MissingKey => FitErrs::from_object(
                                Bootstrap::logic_error(
                                    Bootstrap::arg_spec_key_arg_must_exist(),
                                    "spec_key".to_owned(),
                                    "TWRUF69B4hv4v5Iz".to_owned(),
                                    "transcriptor.rs".to_owned(),
                                ),
                            ),
                            GetArgErrorType::WrongDataType => FitErrs::from_object(
                                Bootstrap::logic_error(
                                    Bootstrap::arg_rule_key_arg_key_must_be_string(),
                                    "spec_key".to_owned(),
                                    "iwpCbbmXqKyvc9VL".to_owned(),
                                    "transcriptor.rs".to_owned(),
                                ),
                            ),
                        };
                        let fa = FitArgs::from_doc(errs.to_args());
                assert(fa.attach@ =~= Seq::<u8>::empty());
                merge_args(&fa, &mut self.arg_bank, &mut self.attached);
                        Ok(LogicInComm::NextErr)
                    },
                }
            },
            FitComm::FitErr(rval) => {
                let fa = FitArgs::from_doc(rval.to_args());
                assert(fa.attach@ =~= Seq::<u8>::empty());
                merge_args(&fa, &mut self.arg_bank, &mut self.attached);
                Ok(LogicInComm::NextErr)
            },
            FitComm::FitSysErr(err) => Err(err),
        }
    }

    /// Answers what the walk asks: the value of an arg, the args of the next
    /// Fit, or the end of the transcription (its result, or its errors).
    pub fn on_action(&self, action: LogicOutComm) -> (r: TranscriptStep)
        ensures
            match action@ {
                ActionV::GetArgStr(k) => r matches TranscriptStep::SendArg(v) && match str_arg(self.bank(), k) {
                    Ok(s) => v matches Some(x) && x@ == s,
                    Err(_) => v is None,
                },
                ActionV::LogicErr(e) => r matches TranscriptStep::GoodBy(Err(fe)) && objs_view(fe.errs@) == seq![
                    t_trace("OYKXYUpuTz14Ew0m"),
                    e,
                ],
                ActionV::EndOfStrand => r matches TranscriptStep::GoodBy(res) && fit_result_is(
                    res,
                    match extract_v(self.bank(), self.attachments()) {
                        Ok(x) => Ok(x),
                        Err(e) => Err(seq![t_trace("Xl5waGnIWTWPsw2G")] + e),
                    },
                ),
                ActionV::DoFit(reg) => match extract_v(self.bank(), self.attachments()) {
                    Ok(x) => r matches TranscriptStep::CallFit(k, fa) && k@ == reg && fa.doc@ == x.0 && fa.attach@
                        == x.1 && fa.state@.len() == 0,
                    Err(e) => r matches TranscriptStep::GoodBy(Err(fe)) && objs_view(fe.errs@) == seq![
                        t_trace("zJ3goGbt6DOJWEEB"),
                        t_trace("xyWRC6uUDdAOK0TN"),
                    ] + e,
                },
            },
    {
        match action {
            LogicOutComm::GetArgStr(key) => TranscriptStep::SendArg(self.arg_str(key)),
            LogicOutComm::LogicErr(errs) => {
                let mut v: Vec<JsonObject> = Vec::new();
                v.push(t_trace_obj("OYKXYUpuTz14Ew0m"));
                v.push(errs);
                assert(objs_view(v@) =~= seq![v@[0]@, v@[1]@]);
                TranscriptStep::GoodBy(Err(FitErrs::from_objects(v)))
            },
            LogicOutComm::EndOfStrand => match extract_args(&self.arg_bank, &self.attached) {
                Ok(args) => TranscriptStep::GoodBy(Ok(args)),
                Err(errs) => TranscriptStep::GoodBy(Err(errs.prepend_err(t_trace_obj("Xl5waGnIWTWPsw2G")))),
            },
            LogicOutComm::DoFit(reg_key) => match self.prepare_fit() {
                Ok(args) => TranscriptStep::CallFit(reg_key, args),
                Err(errs) => {
                    let r = errs.prepend_err(t_trace_obj("zJ3goGbt6DOJWEEB"));
                    assert(objs_view(r.errs@) =~= seq![t_trace("zJ3goGbt6DOJWEEB"), t_trace("xyWRC6uUDdAOK0TN")]
                        + extract_v(self.bank(), self.attachments())->Err_0);
                    TranscriptStep::GoodBy(Err(r))
                },
            },
        }
    }

    /// Takes in what came of a Fit call: the Fit's answer, or the error that
    /// no Fit is registered under the key asked for.  Errors that end the
    /// transcription come back with this module's trace in front.
    pub fn on_fit_result(&mut self, result: Result<FitComm, FitErrs>) -> (r: Result<LogicInComm, FitErrs>)
        ensures
            match result {
                Ok(outcome) => match absorbed_v(outcome) {
                    Ok(x) => {
                        &&& r == Ok::<LogicInComm, FitErrs>(x.0)
                        &&& final(self).bank() == merge_v(old(self).bank(), x.1)
                        &&& final(self).attachments() == attach_merge_v(old(self).attachments(), x.1, x.2)
                    },
                    Err(e) => {
                        &&& r matches Err(fe) && objs_view(fe.errs@) == seq![t_trace("zJ3goGbt6DOJWEEB")] + e
                        &&& final(self).bank() == old(self).bank()
                        &&& final(self).attachments() == old(self).attachments()
                    },
                },
                Err(pe) => {
                    &&& r matches Err(fe) && objs_view(fe.errs@) == seq![
                        t_trace("zJ3goGbt6DOJWEEB"),
                        t_trace("P590aja1zCctfAVJ"),
                    ] + objs_view(pe.errs@)
                    &&& final(self).bank() == old(self).bank()
                    &&& final(self).attachments() == old(self).attachments()
                },
            },
            final(self).key() == old(self).key(),
    {
        match result {
            Ok(outcome) => match self.absorb_fit_outcome(outcome) {
                Ok(signal) => Ok(signal),
                Err(errs) => Err(errs.prepend_err(t_trace_obj("zJ3goGbt6DOJWEEB"))),
            },
            Err(part_err) => {
                let r = part_err.prepend_err(t_trace_obj("P590aja1zCctfAVJ")).prepend_err(t_trace_obj("zJ3goGbt6DOJWEEB"));
                assert(objs_view(r.errs@) =~= seq![t_trace("zJ3goGbt6DOJWEEB"), t_trace("P590aja1zCctfAVJ")]
                    + objs_view(part_err.errs@));
                Err(r)
            },
        }
    }
}

/// The args that a transcription hands a Fit pass the spec that the bank's
/// latest `spec_key` names: Fits can trust the static checks of their specs.
pub proof fn lemma_fit_args_pass_their_spec(bank: Args, att: Map<Seq<char>, Seq<u8>>)
    requires
        extract_v(bank, att) is Ok,
    ensures
        str_arg(bank, "spec_key"@) is Ok,
        check_args_v(find_spec_v(str_arg(bank, "spec_key"@)->Ok_0), extract_v(bank, att)->Ok_0.0) is Ok,
{
}

} // verus!
