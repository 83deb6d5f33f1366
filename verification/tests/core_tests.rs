use must::bootstrap::Bootstrap;
use must::err_fit::ErrFit;
use must::fit::{FitArgs, FitComm, FitErrs};
use must::fits::doc_slice_prep::DocSlicePrep;
use must::fits::file_append_json::FileAppendJSON;
use must::fits::file_append_slice::FileAppendSlice;
use must::fits::file_get_slice::FileGetSlice;
use must::fits::{count_number, startup_args};
use must::jah_args::JahArgs;
use must::jah_spec::{ArgRules, JahSpec};
use must::json::{Json, JsonObject};
use must::lurker::find_hole;
use must::must::Must;
use must::must_bank::{MustBank, ReleaseStep};
use must::par::{Par, ToDo};
use must::parts::ParTs;
use must::stately::{LoopInComm, LoopOutComm, StateServ};
use must::transcriptor::{extract_args, incoming_spec_ok, make_t_key, merge_args, speced_arg_excerpt, AttachBank, Transcriptor};

fn s(v: &str) -> String {
    v.to_string()
}

fn str_of(doc: &JsonObject, k: &str) -> String {
    match JahArgs::new(doc.deep_copy()).get_str(s(k)) {
        Ok(v) => v,
        Err(_) => panic!("{} is a string", k),
    }
}

fn num_of(doc: &JsonObject, k: &str) -> i64 {
    match JahArgs::new(doc.deep_copy()).get_float(s(k)) {
        Ok(v) => v,
        Err(_) => panic!("{} is a number", k),
    }
}

fn line_keys(errs: &[JsonObject]) -> Vec<String> {
    errs.iter()
        .map(|e| match e.get(&s("line_key")) {
            Some(Json::String(l)) => l.clone(),
            _ => String::new(),
        })
        .collect()
}

fn check(spec: JsonObject, args: &JsonObject) -> Result<bool, Vec<JsonObject>> {
    JahSpec::new(spec).check_args(&JahArgs::new(args.deep_copy()))
}

fn must_doc(with_must: bool) -> JsonObject {
    let mut doc = JsonObject::new();
    doc.insert(s("message"), Json::String(s("hi")));
    let mut args = JsonObject::new();
    args.insert(s("user"), Json::String(s("va4wUFbMV78R1AfB")));
    args.insert(s("acct"), Json::String(s("ofWU4ApC809sgbHJ")));
    if with_must {
        args.insert(s("must"), Must::new_must().to_json());
    }
    args.insert(s("doc"), Json::Object(doc));
    args.insert(s("spec_key"), Json::String(Bootstrap::spec_add_doc_key()));
    args
}

// --- JSON objects ------------------------------------------------------------

#[test]
fn json_object_insert_replaces_in_place() {
    let mut o = JsonObject::new();
    o.insert(s("a"), Json::Number(1));
    o.insert(s("b"), Json::Number(2));
    o.insert(s("a"), Json::Number(3));
    assert_eq!(o.keys(), vec![s("a"), s("b")]);
    assert!(matches!(o.get(&s("a")), Some(Json::Number(3))));
    assert!(matches!(o.remove(&s("a")), Some(Json::Number(3))));
    assert!(o.remove(&s("a")).is_none());
    assert_eq!(o.len(), 1);
}

// --- Bootstrap ----------------------------------------------------------------

#[test]
fn find_spec_finds_registered_specs() {
    for key in [
        Bootstrap::jah_spec_spec_key(),
        Bootstrap::spec_must_must_key(),
        Bootstrap::spec_doc_key(),
        Bootstrap::spec_file_slice_key(),
        Bootstrap::spec_stored_doc_key(),
        Bootstrap::spec_find_slice_result_key(),
        Bootstrap::spec_append_doc_success_key(),
    ] {
        let spec = JahSpec::new(Bootstrap::find_spec(key.clone()));
        assert_eq!(spec.spec_key(), key);
    }
    for key in [s("no such spec"), Bootstrap::spec_edit_doc_key(), Bootstrap::spec_append_slice_key()] {
        let spec = JahSpec::new(Bootstrap::find_spec(key));
        assert_eq!(spec.spec_key(), Bootstrap::jah_corrupted_spec_key());
    }
}

#[test]
fn error_documents_have_their_fields() {
    let e = Bootstrap::logic_error(s("rk"), s("arg"), s("line"), s("file.rs"));
    assert_eq!(str_of(&e, "spec_key"), Bootstrap::logic_error_key());
    assert_eq!(str_of(&e, "file_name"), "file.rs");
    let t = Bootstrap::reply_error_trace_info(s("f.rs"), s("L"));
    assert_eq!(t.keys(), vec![s("err_key"), s("file_name"), s("spec_key"), s("line_key")]);
    let p = Bootstrap::err_pack(vec![t.deep_copy(), e]);
    match p.get(&s("errs")) {
        Some(Json::List(l)) => assert_eq!(l.len(), 2),
        _ => panic!("a pack lists its errors"),
    }
    let sys = Bootstrap::fit_sys_err(JsonObject::new(), s("disk full"), s("fit"), s("f.rs"), s("L2"));
    assert_eq!(str_of(&sys, "sys_text"), "disk full");
    assert_eq!(str_of(&sys, "spec_key"), Bootstrap::spec_fit_sys_err_key());
}

// --- JahSpec --------------------------------------------------------------------

#[test]
fn jah_spec_accepts_a_good_document() {
    assert!(check(Bootstrap::spec_doc(), &must_doc(true)).is_ok());
}

#[test]
fn jah_spec_reports_each_kind_of_error() {
    // a missing required arg
    let errs = check(Bootstrap::spec_doc(), &must_doc(false)).err().unwrap();
    assert_eq!(line_keys(&errs), vec![s("InLa9WXyftFGkD0J"), s("E4S4zOP8QKA6bm62")]);
    // an arg that is not allowed
    let mut args = must_doc(true);
    args.insert(s("dude"), Json::String(s("dude")));
    let errs = check(Bootstrap::spec_doc(), &args).err().unwrap();
    assert_eq!(line_keys(&errs), vec![s("5uAMEPFBPxQVMTPB"), s("CvSaRhKZYrgqIl2q")]);
    assert_eq!(str_of(&errs[0], "arg_name"), "dude");
    // an arg of the wrong type
    let mut args = must_doc(true);
    args.insert(s("user"), Json::Number(7));
    let errs = check(Bootstrap::spec_doc(), &args).err().unwrap();
    assert_eq!(line_keys(&errs)[0], "bRRoirXHglnOzRza");
    // a spec without a key
    let mut bad_spec = Bootstrap::spec_doc();
    bad_spec.remove(&s("spec_key"));
    let errs = check(bad_spec, &must_doc(true)).err().unwrap();
    assert_eq!(line_keys(&errs), vec![s("a5q3rNiRtXeoO9Wj"), s("s0lFEONAYynSawUd")]);
    // a spec with an extra member
    let mut bad_spec = Bootstrap::spec_doc();
    bad_spec.insert(s("extra"), Json::Null);
    let errs = check(bad_spec, &must_doc(true)).err().unwrap();
    assert_eq!(line_keys(&errs), vec![s("yTI6O36SdlSKrlVV"), s("s0lFEONAYynSawUd")]);
    // a spec whose allowed is missing
    let mut bad_spec = JsonObject::new();
    bad_spec.insert(s("spec_key"), Json::String(s("k")));
    let errs = check(bad_spec, &must_doc(true)).err().unwrap();
    assert_eq!(line_keys(&errs), vec![s("4QRHmXsoKu1sWGVl"), s("kmM0kE9Isb61If3j")]);
}

#[test]
fn jah_spec_rules_one_by_one() {
    let string_rule = Bootstrap::arg_rule_arg_must_be_string();
    assert!(ArgRules::do_rule(s("a"), string_rule.deep_copy(), Json::String(s("x")), s("sk")).is_ok());
    let errs = ArgRules::do_rule(s("a"), string_rule, Json::Number(1), s("sk")).err().unwrap();
    assert_eq!(line_keys(&errs), vec![s("bRRoirXHglnOzRza")]);
    let unknown = Bootstrap::arg_rule_str_arg_must_equal(s("v"));
    let errs = ArgRules::do_rule(s("a"), unknown, Json::String(s("v")), s("sk")).err().unwrap();
    assert_eq!(line_keys(&errs), vec![s("OIbvlKzkmbwyYgBj")]);
    assert_eq!(ArgRules::get_rule_key(Bootstrap::arg_rule_arg_must_exist()).ok().unwrap(), Bootstrap::arg_rule_key_arg_must_exist());
    assert!(ArgRules::get_rule_key(JsonObject::new()).is_err());
}

#[test]
fn allowed_keys_of_a_spec() {
    let keys = JahSpec::new(Bootstrap::spec_file_slice()).allowed_keys().ok().unwrap();
    assert_eq!(keys, vec![s("pos"), s("len"), s("fn"), s("spec_key")]);
}

// --- FitErrs --------------------------------------------------------------------

#[test]
fn fit_errs_prepend_and_document() {
    let a = Bootstrap::reply_error_trace_info(s("a.rs"), s("A"));
    let b = Bootstrap::reply_error_trace_info(s("b.rs"), s("B"));
    let c = Bootstrap::reply_error_trace_info(s("c.rs"), s("C"));
    let errs = FitErrs::from_object(c.deep_copy()).prepend_err(b.deep_copy()).prepend_errs(vec![a.deep_copy()]);
    assert_eq!(line_keys(&errs.errs), vec![s("A"), s("B"), s("C")]);
    let doc = errs.to_args();
    assert_eq!(str_of(&doc, "spec_key"), Bootstrap::fit_errs_key());
    match doc.get(&s("errs")) {
        Some(Json::List(l)) => assert_eq!(l.len(), 3),
        _ => panic!("the errors are listed"),
    }
    let text = FitErrs::from_objects(vec![a.deep_copy(), b]).to_str();
    assert!(text.starts_with(&Json::Object(a).to_text()));
}

// --- ParTs and Par ---------------------------------------------------------------

#[test]
fn parts_register_once_and_find() {
    let mut parts: ParTs<u32> = ParTs::connect();
    assert!(parts.add_part(s("k"), Ok(7)).is_ok());
    assert_eq!(*parts.get_part(&s("k")).ok().unwrap(), 7);
    let twice = parts.add_part(s("k"), Ok(8)).err().unwrap();
    assert_eq!(line_keys(&twice.errs), vec![s("b2eXWGdcdmEgc5Tu")]);
    assert_eq!(*parts.get_part(&s("k")).ok().unwrap(), 7);
    let missing = parts.get_part(&s("nope")).err().unwrap();
    assert_eq!(line_keys(&missing.errs), vec![s("Q5jmEpjJ4yNzywjv")]);
    let failed = parts.add_part(s("j"), Err(FitErrs::from_object(JsonObject::new()))).err().unwrap();
    assert_eq!(line_keys(&failed.errs)[0], "seGs8AWBelJ7C4cD");
    let released = parts.release();
    assert_eq!(released.len(), 1);
    assert!(parts.get_part(&s("k")).is_err());
}

#[test]
fn par_to_do_list_respects_the_cap() {
    assert_eq!(Par::to_do_list(true, true, 20, 20), vec![ToDo::RecvGoodByPort]);
    assert_eq!(Par::to_do_list(true, true, 0, 20), vec![ToDo::RecvInPort]);
    assert_eq!(Par::to_do_list(true, true, 3, 20), vec![ToDo::RecvGoodByPort, ToDo::RecvInPort]);
    assert_eq!(Par::to_do_list(false, false, 3, 20), vec![ToDo::Yield]);
    let mut par = Par::new(0);
    assert_eq!(par.cap(), 20);
    assert_eq!(par.took_request(), 1);
    assert_eq!(par.next(false, true), vec![ToDo::RecvGoodByPort]);
    par.took_good_by();
    assert_eq!(par.next(false, false), vec![ToDo::RecvInPort]);
}

#[test]
fn par_span_borrows_nanoseconds() {
    assert_eq!(Par::span(10, 900_000_000, 12, 100_000_000), (1, 200_000_000));
    assert_eq!(Par::span(10, 100, 10, 300), (0, 200));
    assert_eq!(Par::span(0, 0, 5_000_000_000, 0), (i32::MAX, 0));
}

// --- Transcriptor -----------------------------------------------------------------

#[test]
fn merge_args_overrides_and_stores_attachments() {
    let mut bank = JsonObject::new();
    bank.insert(s("a"), Json::Number(1));
    bank.insert(s("b"), Json::Number(2));
    let mut attached = AttachBank::new();
    let mut doc = JsonObject::new();
    doc.insert(s("b"), Json::Number(20));
    doc.insert(s("attach"), Json::String(s("blob")));
    let fa = FitArgs::from_doc_with_attach(doc, vec![1, 2, 3]);
    merge_args(&fa, &mut bank, &mut attached);
    assert_eq!(num_of(&bank, "a"), 1);
    assert_eq!(num_of(&bank, "b"), 20);
    assert_eq!(bank.keys(), vec![s("a"), s("b"), s("attach")]);
    assert_eq!(attached.find(&s("blob")), Some(vec![1, 2, 3]));
    attached.put(s("blob"), vec![9]);
    assert_eq!(attached.find(&s("blob")), Some(vec![9]));
    assert_eq!(attached.find(&s("other")), None);
}

#[test]
fn excerpt_takes_what_the_spec_allows() {
    let mut bank = JsonObject::new();
    bank.insert(s("attach"), Json::String(s("doc")));
    bank.insert(s("spec_key"), Json::String(Bootstrap::spec_find_slice_result_key()));
    bank.insert(s("unrelated"), Json::Boolean(true));
    let mut attached = AttachBank::new();
    attached.put(s("doc"), vec![7, 7]);
    let fa = speced_arg_excerpt(&Bootstrap::spec_find_slice_result(), &bank, &attached).ok().unwrap();
    assert_eq!(fa.doc.keys(), vec![s("attach"), s("spec_key")]);
    assert_eq!(fa.attach, vec![7, 7]);
    // the named attachment is missing
    let errs = speced_arg_excerpt(&Bootstrap::spec_find_slice_result(), &bank, &AttachBank::new()).err().unwrap();
    assert_eq!(line_keys(&errs.errs), vec![s("Kyzltdf11TRcTIiI")]);
    // the bank lacks a required arg
    let errs = speced_arg_excerpt(&Bootstrap::spec_file_slice(), &bank, &attached).err().unwrap();
    assert_eq!(line_keys(&errs.errs)[0], "FHLGfPficrDnNzao");
    // extraction goes by the bank's spec key
    let fa = extract_args(&bank, &attached).ok().unwrap();
    assert_eq!(fa.attach, vec![7, 7]);
    let mut no_key = JsonObject::new();
    no_key.insert(s("a"), Json::Null);
    let errs = extract_args(&no_key, &attached).err().unwrap();
    assert_eq!(line_keys(&errs.errs), vec![s("0vKBkZjRUMVei1QX")]);
    no_key.insert(s("spec_key"), Json::Null);
    let errs = extract_args(&no_key, &attached).err().unwrap();
    assert_eq!(line_keys(&errs.errs), vec![s("QyKtHrBE8GXB0WEf")]);
}

#[test]
fn incoming_args_are_checked() {
    assert!(incoming_spec_ok(&must_doc(true)).is_ok());
    let errs = incoming_spec_ok(&must_doc(false)).err().unwrap();
    assert_eq!(line_keys(&errs.errs)[0], "OAGw7LnsZ0j03d4W");
    let errs = incoming_spec_ok(&JsonObject::new()).err().unwrap();
    assert_eq!(line_keys(&errs.errs), vec![s("JRkY9TDbehfPPA2F")]);
    let mut wrong = JsonObject::new();
    wrong.insert(s("spec_key"), Json::Number(1));
    let errs = incoming_spec_ok(&wrong).err().unwrap();
    assert_eq!(line_keys(&errs.errs), vec![s("rkO0NumJeuQy7Fnu")]);
}

#[test]
fn t_key_document() {
    let m = Must::copied_must(s("k"), 1, 2);
    let doc = make_t_key(&m);
    assert_eq!(str_of(&doc, "spec_key"), "CelvpCNzHNiPPUKL");
    assert!(matches!(doc.get(&s("t_key")), Some(Json::Object(_))));
}

#[test]
fn fit_outcomes_steer_the_walk() {
    let (mut tr, _rib, _action) = Transcriptor::connect(s("fUhzdaBaEYITxXET"), Must::new_must(), FitArgs::from_doc(must_doc(true))).ok().unwrap();
    // an answer that passes its spec
    let mut slice = JsonObject::new();
    slice.insert(s("attach"), Json::String(s("doc")));
    slice.insert(s("spec_key"), Json::String(Bootstrap::spec_find_slice_result_key()));
    let r = tr.on_fit_result(Ok(FitComm::FitOk(FitArgs::from_doc_with_attach(slice, vec![5])))).ok().unwrap();
    assert!(r == must::strand::LogicInComm::NextOk);
    assert_eq!(tr.arg_str(s("attach")), Some(s("doc")));
    // an answer without a spec key
    let r = tr.on_fit_result(Ok(FitComm::FitOk(FitArgs::from_doc(JsonObject::new())))).ok().unwrap();
    assert!(r == must::strand::LogicInComm::NextErr);
    assert_eq!(tr.arg_str(s("spec_key")), Some(Bootstrap::fit_errs_key()));
    // an error the Fit handled
    let r = tr.on_fit_result(Ok(FitComm::FitErr(FitErrs::from_object(JsonObject::new())))).ok().unwrap();
    assert!(r == must::strand::LogicInComm::NextErr);
    // a system error ends the transcription
    let errs = tr.on_fit_result(Ok(FitComm::FitSysErr(FitErrs::from_object(JsonObject::new())))).err().unwrap();
    assert_eq!(line_keys(&errs.errs)[0], "zJ3goGbt6DOJWEEB");
}

// --- Fits -----------------------------------------------------------------------

#[test]
fn startup_args_must_pass_their_spec() {
    let mut args = JsonObject::new();
    args.insert(s("path"), Json::String(s("f.json")));
    args.insert(s("num"), Json::Number(-3));
    args.insert(s("spec_key"), Json::String(s("5W6emlWjT77xoGOH")));
    assert_eq!(startup_args(&args).ok().unwrap(), (s("f.json"), 0));
    args.remove(&s("path"));
    let fit = FileAppendJSON::new(args.deep_copy());
    let errs = fit.start().err().unwrap();
    assert_eq!(line_keys(&errs.errs)[0..2].to_vec(), vec![s("eUZCAcGIlfzXEsJi"), s("rx9vMuM19wlGvMm2")]);
    let errs = FileGetSlice::new(args).start().err().unwrap();
    assert_eq!(line_keys(&errs.errs)[0..2].to_vec(), vec![s("Pj3l7Xw3UHVRjiqv"), s("rx9vMuM19wlGvMm2")]);
}

#[test]
fn empty_slices_are_refused() {
    match FileAppendSlice::append(&FitArgs::from_doc(JsonObject::new()), 0, 1) {
        FitComm::FitErr(e) => assert_eq!(line_keys(&e.errs), vec![s("e42iDEm1ulsqawrf")]),
        _ => panic!("an empty slice is refused"),
    }
    match FileAppendSlice::append(&FitArgs::from_doc_with_attach(JsonObject::new(), vec![1, 2, 3]), 10, 4) {
        FitComm::FitOk(fa) => {
            assert_eq!((num_of(&fa.doc, "pos"), num_of(&fa.doc, "len"), num_of(&fa.doc, "fn")), (10, 3, 4));
            assert_eq!(str_of(&fa.doc, "spec_key"), Bootstrap::spec_file_slice_key());
        },
        _ => panic!("a slice is appended"),
    }
}

#[test]
fn append_then_get_reads_back() {
    let file: Vec<u8> = b"earlier".to_vec();
    let attach: Vec<u8> = vec![1, 2, 3, 4];
    let reply = match FileAppendSlice::append(&FitArgs::from_doc_with_attach(JsonObject::new(), attach.clone()), file.len() as u64, 1) {
        FitComm::FitOk(fa) => fa,
        _ => panic!("the slice is appended"),
    };
    let mut whole = file.clone();
    whole.extend_from_slice(&attach);
    let (pos, len) = FileGetSlice::slice_wanted(&reply.doc);
    let got = FileGetSlice::slice_reply(whole[pos as usize..pos as usize + len as usize].to_vec(), len as usize);
    assert_eq!(got.attach, attach);
    // reading past the end pads with zeros
    let got = FileGetSlice::slice_reply(vec![9], 3);
    assert_eq!(got.attach, vec![9, 0, 0]);
}

#[test]
fn count_number_saturates() {
    assert_eq!(count_number(5), 5);
    assert_eq!(count_number(usize::MAX), if usize::MAX as u64 > i64::MAX as u64 { i64::MAX } else { usize::MAX as i64 });
}

#[test]
fn doc_slice_prep_edit_and_unknown() {
    // an edit request must pass the Must spec, which a full document does not
    let mut args = must_doc(true);
    args.insert(s("spec_key"), Json::String(Bootstrap::spec_edit_doc_key()));
    match DocSlicePrep::prep(FitArgs::from_doc(args)) {
        FitComm::FitErr(e) => assert!(!e.errs.is_empty()),
        _ => panic!("the edit request breaks the Must spec"),
    }
    // an edit of a bare Must gets a new stamp of the same key
    let mut bare = JsonObject::new();
    bare.insert(s("key"), Json::String(s("abcdefgh12345678")));
    bare.insert(s("sec"), Json::Number(1));
    bare.insert(s("nsec"), Json::Number(2));
    bare.insert(s("spec_key"), Json::String(Bootstrap::spec_edit_doc_key()));
    let m = DocSlicePrep::must_for(&bare);
    assert!(m.is_err());
    let mut unknown = must_doc(true);
    unknown.insert(s("spec_key"), Json::String(s("zzz")));
    match DocSlicePrep::must_for(&unknown) {
        Err(e) => assert_eq!(line_keys(&e.errs), vec![s("aZWkaywgi34NMiDk")]),
        Ok(_) => panic!("an unknown key gets no Must"),
    }
    let stored = DocSlicePrep::stored_doc(must_doc(false), &Must::copied_must(s("k"), 1, 1));
    assert_eq!(str_of(&stored, "spec_key"), Bootstrap::spec_stored_doc_key());
    assert!(check(Bootstrap::spec_stored_doc(), &stored).is_ok());
}

#[test]
fn err_fit_shows_and_answers() {
    let fit = ErrFit::new(JsonObject::new());
    assert_eq!(fit.fit_key(), Bootstrap::err_fit_key());
    let mut doc = JsonObject::new();
    doc.insert(s("x"), Json::Boolean(true));
    let (shown, reply) = ErrFit::answer(&FitArgs::from_doc(doc));
    assert_eq!(shown, "{\n  \"x\": true\n}");
    assert_eq!(str_of(&reply.doc, "spec_key"), "er5OWig71VG9oNjK");
}

#[test]
fn lurker_finds_holes() {
    let mut hole = JsonObject::new();
    hole.insert(s("k"), Json::Null);
    let mut gallery = JsonObject::new();
    gallery.insert(s("a"), Json::Object(hole));
    gallery.insert(s("b"), Json::Number(1));
    assert_eq!(find_hole(&gallery, 'a').unwrap().keys(), vec![s("k")]);
    assert!(find_hole(&gallery, 'b').is_none());
    assert!(find_hole(&gallery, 'c').is_none());
}

// --- State server and bank ------------------------------------------------------------

#[test]
fn state_server_comes_back_with_the_state() {
    let mut serv = StateServ::connect();
    let job = serv
        .go(LoopOutComm::DoAndComeback(FitArgs::from_doc(JsonObject::new()), s("strand"), Must::new_must(), None))
        .unwrap();
    assert_eq!(job.strand_key, "strand");
    let state = FitArgs::from_doc(Must::copied_must(s("k"), 1, 1).to_obj());
    match StateServ::do_comeback(Err(FitErrs::from_object(JsonObject::new())), Some(state)) {
        (LoopInComm::LostToErr(Some(st)), Some(text)) => {
            assert_eq!(str_of(&st.doc, "key"), "k");
            assert_eq!(text, "{}");
        },
        _ => panic!("the state comes back with the loss"),
    }
    match StateServ::do_comeback(Ok(FitArgs::from_doc(JsonObject::new())), None) {
        (LoopInComm::ComebackOk(_, None), None) => {},
        _ => panic!("the result comes back"),
    }
    assert!(serv.go(LoopOutComm::StatelyRelease).is_none());
}

#[test]
fn must_bank_counts_transcriptions() {
    let mut bank = MustBank::connect();
    assert_eq!(bank.to_do(false, true), (true, false));
    let k = Must::new_must();
    let doc = bank.on_transcript(&k);
    assert!(Must::from_obj(doc).ok().unwrap() == k);
    bank.on_transcript(&Must::new_must());
    assert_eq!(bank.to_do(false, true), (false, true));
    assert!(bank.on_goodby(&Ok(FitArgs::from_doc(JsonObject::new()))).is_none());
    assert_eq!(bank.on_goodby(&Err(FitErrs::from_object(JsonObject::new()))), Some(s("{}")));
    assert_eq!(bank.to_do(true, true), (true, false));
    bank.on_transcript(&Must::new_must());
    assert_eq!(bank.on_release(), vec![ReleaseStep::TakeGoodby, ReleaseStep::ReleaseStately, ReleaseStep::ReleaseParts, ReleaseStep::Ack]);
    assert_eq!(bank.t_count(), 0);
    let plan = MustBank::load_parts();
    assert_eq!(plan.len(), 5);
    assert_eq!(plan[0], (Bootstrap::err_fit_key(), 20));
    assert_eq!(plan[4], (Bootstrap::stately_tester_key(), 20));
}
