use must::bootstrap::Bootstrap;
use must::err_fit::ErrFit;
use must::fit::{FitArgs, FitComm, FitErrs};
use must::fits::doc_slice_prep::DocSlicePrep;
use must::fits::file_append_json::FileAppendJSON;
use must::fits::file_append_slice::FileAppendSlice;
use must::fits::file_get_slice::FileGetSlice;
use must::fits::stately_tester::{StatelyTester, TesterStep};
use must::jah_args::JahArgs;
use must::jah_spec::JahSpec;
use must::json::{Json, JsonObject};
use must::must::Must;
use must::must_bank::{MustBank, ReleaseStep};
use must::par::{Par, ToDo};
use must::parts::ParTs;
use must::stately::StateServ;
use must::strand::LogicOutComm;
use must::transcriptor::{TranscriptStep, Transcriptor};
use std::collections::VecDeque;

// ---------------------------------------------------------------------------
// A small JSON reader, to look into the documents that the Fits store.
// ---------------------------------------------------------------------------

struct Reader<'a> {
    text: &'a [char],
    pos: usize,
}

impl<'a> Reader<'a> {
    fn skip_ws(&mut self) {
        while self.pos < self.text.len() && self.text[self.pos].is_whitespace() {
            self.pos += 1;
        }
    }

    fn expect(&mut self, c: char) {
        self.skip_ws();
        assert_eq!(self.text[self.pos], c);
        self.pos += 1;
    }

    fn string(&mut self) -> String {
        self.expect('"');
        let mut s = String::new();
        loop {
            let c = self.text[self.pos];
            self.pos += 1;
            match c {
                '"' => return s,
                '\\' => {
                    let e = self.text[self.pos];
                    self.pos += 1;
                    match e {
                        'n' => s.push('\n'),
                        't' => s.push('\t'),
                        'r' => s.push('\r'),
                        'b' => s.push('\u{8}'),
                        'f' => s.push('\u{c}'),
                        'u' => {
                            let hex: String = self.text[self.pos..self.pos + 4].iter().collect();
                            self.pos += 4;
                            s.push(char::from_u32(u32::from_str_radix(&hex, 16).unwrap()).unwrap());
                        },
                        other => s.push(other),
                    }
                },
                other => s.push(other),
            }
        }
    }

    fn value(&mut self) -> Json {
        self.skip_ws();
        match self.text[self.pos] {
            '{' => {
                self.pos += 1;
                let mut o = JsonObject::new();
                self.skip_ws();
                if self.text[self.pos] == '}' {
                    self.pos += 1;
                    return Json::Object(o);
                }
                loop {
                    let k = self.string();
                    self.expect(':');
                    let v = self.value();
                    o.insert(k, v);
                    self.skip_ws();
                    let c = self.text[self.pos];
                    self.pos += 1;
                    if c == '}' {
                        return Json::Object(o);
                    }
                    assert_eq!(c, ',');
                }
            },
            '[' => {
                self.pos += 1;
                let mut l = Vec::new();
                self.skip_ws();
                if self.text[self.pos] == ']' {
                    self.pos += 1;
                    return Json::List(l);
                }
                loop {
                    l.push(self.value());
                    self.skip_ws();
                    let c = self.text[self.pos];
                    self.pos += 1;
                    if c == ']' {
                        return Json::List(l);
                    }
                    assert_eq!(c, ',');
                }
            },
            '"' => Json::String(self.string()),
            't' => {
                self.pos += 4;
                Json::Boolean(true)
            },
            'f' => {
                self.pos += 5;
                Json::Boolean(false)
            },
            'n' => {
                self.pos += 4;
                Json::Null
            },
            _ => {
                let start = self.pos;
                while self.pos < self.text.len() && (self.text[self.pos] == '-' || self.text[self.pos].is_ascii_digit()) {
                    self.pos += 1;
                }
                let n: String = self.text[start..self.pos].iter().collect();
                Json::Number(n.parse().unwrap())
            },
        }
    }
}

fn read_json(bytes: &[u8]) -> Json {
    let text: Vec<char> = String::from_utf8(bytes.to_vec()).unwrap().chars().collect();
    let mut r = Reader { text: &text, pos: 0 };
    let v = r.value();
    r.skip_ws();
    assert_eq!(r.pos, text.len());
    v
}

fn read_object(bytes: &[u8]) -> JsonObject {
    match read_json(bytes) {
        Json::Object(o) => o,
        _ => panic!("the text is an object"),
    }
}

fn spec_accepts(spec_key: String, doc: &JsonObject) -> bool {
    JahSpec::new(Bootstrap::find_spec(spec_key)).check_args(&JahArgs::new(doc.deep_copy())).is_ok()
}

fn s(v: &str) -> String {
    v.to_string()
}

fn str_of(doc: &JsonObject, k: &str) -> String {
    match JahArgs::new(doc.deep_copy()).get_str(s(k)) {
        Ok(v) => v,
        Err(_) => panic!("{} is a string", k),
    }
}

fn num_of(doc: &JsonObject, k: &str) -> i64 {
    match JahArgs::new(doc.deep_copy()).get_float(s(k)) {
        Ok(v) => v,
        Err(_) => panic!("{} is a number", k),
    }
}

fn startup_args() -> JsonObject {
    let mut startup_args = JsonObject::new();
    startup_args.insert(s("path"), Json::String(s("test.json")));
    startup_args.insert(s("num"), Json::Number(1));
    startup_args.insert(s("spec_key"), Json::String(s("5W6emlWjT77xoGOH")));
    startup_args
}

fn doc_args(message: &str, with_must: bool) -> JsonObject {
    let mut doc = JsonObject::new();
    doc.insert(s("message"), Json::String(s(message)));
    let mut args = JsonObject::new();
    args.insert(s("user"), Json::String(s("va4wUFbMV78R1AfB")));
    args.insert(s("acct"), Json::String(s("ofWU4ApC809sgbHJ")));
    if with_must {
        args.insert(s("must"), Must::new_must().to_json());
    }
    args.insert(s("doc"), Json::Object(doc));
    args.insert(s("spec_key"), Json::String(Bootstrap::spec_add_doc_key()));
    args
}

fn fit_ok(outcome: FitComm) -> FitArgs {
    match outcome {
        FitComm::FitOk(fa) => fa,
        FitComm::FitErr(fe) => panic!("the Fit answered with errors: {}", fe.to_str()),
        FitComm::FitSysErr(fe) => panic!("the Fit broke: {}", fe.to_str()),
    }
}

// ---------------------------------------------------------------------------
// The system, run in one thread: every Fit call is answered at once.
// ---------------------------------------------------------------------------

#[derive(Clone, Copy)]
enum Kind {
    ErrFit,
    Prep,
    Append,
    Get,
    Stately,
}

struct World {
    parts: ParTs<Kind>,
    file: Vec<u8>,
    num: u64,
    state_serv: StateServ,
    shown: Vec<String>,
    failures: Vec<String>,
}

impl World {
    fn new() -> World {
        let mut parts = ParTs::connect();
        for (key, cap) in MustBank::load_parts() {
            assert_eq!(cap, 20);
            let kind = if key == Bootstrap::err_fit_key() {
                Kind::ErrFit
            } else if key == Bootstrap::doc_slice_prep_key() {
                Kind::Prep
            } else if key == Bootstrap::file_append_slice_key() {
                Kind::Append
            } else if key == Bootstrap::file_get_slice_key() {
                Kind::Get
            } else {
                Kind::Stately
            };
            assert!(parts.add_part(key, Ok(kind)).is_ok());
        }
        let (_, num) = match FileAppendSlice::new(startup_args()).start() {
            Ok(x) => x,
            Err(fe) => panic!("{}", fe.to_str()),
        };
        World { parts, file: Vec::new(), num, state_serv: StateServ::connect(), shown: Vec::new(), failures: Vec::new() }
    }

    fn call(&mut self, kind: Kind, args: FitArgs, t_key: &Must) -> FitComm {
        match kind {
            Kind::ErrFit => {
                let (shown, reply) = ErrFit::answer(&args);
                self.shown.push(shown);
                FitComm::FitOk(reply)
            },
            Kind::Prep => {
                assert!(JahArgs::new(args.doc.deep_copy()).get_str(s("spec_key")).is_ok());
                DocSlicePrep::prep(args)
            },
            Kind::Append => {
                let reply = FileAppendSlice::append(&args, self.file.len() as u64, self.num);
                if let FitComm::FitOk(_) = &reply {
                    self.file.extend_from_slice(&args.attach);
                }
                reply
            },
            Kind::Get => {
                let (pos, len) = FileGetSlice::slice_wanted(&args.doc);
                let start = (pos.max(0) as usize).min(self.file.len());
                let end = (start + len as usize).min(self.file.len());
                FitComm::FitOk(FileGetSlice::slice_reply(self.file[start..end].to_vec(), len as usize))
            },
            Kind::Stately => {
                let (mut tester, mut req) = StatelyTester::start(t_key.copy());
                loop {
                    let job = self.state_serv.go(req).expect("a round trip, not a release");
                    let outcome = run_transcript(self, job.strand_key, job.args, job.t_key);
                    let (reply, text) = StateServ::do_comeback(outcome, job.state);
                    if let Some(t) = text {
                        self.shown.push(t);
                    }
                    match tester.on_comeback(reply) {
                        TesterStep::Next(t, r) => {
                            tester = t;
                            req = r;
                        },
                        TesterStep::Done(fa) => return FitComm::FitOk(fa),
                        TesterStep::Failed(msg) => {
                            self.failures.push(msg.clone());
                            let mut e = JsonObject::new();
                            e.insert(s("failed"), Json::String(msg));
                            return FitComm::FitErr(FitErrs::from_object(e));
                        },
                    }
                }
            },
        }
    }
}

fn run_transcript(world: &mut World, strand_key: String, args: FitArgs, t_key: Must) -> Result<FitArgs, FitErrs> {
    let (mut tr, mut rib, mut action) = match Transcriptor::connect(strand_key, t_key, args) {
        Ok(x) => x,
        Err(errs) => return Err(errs),
    };
    loop {
        match tr.on_action(action) {
            TranscriptStep::SendArg(v) => {
                let (r, a) = rib.on_arg(v);
                rib = r;
                action = a;
            },
            TranscriptStep::GoodBy(result) => return result,
            TranscriptStep::CallFit(reg_key, fit_args) => {
                let part = world.parts.get_part(&reg_key).map(|k| *k);
                let outcome = match part {
                    Ok(kind) => Ok(world.call(kind, fit_args, &tr.t_key())),
                    Err(e) => Err(e),
                };
                match tr.on_fit_result(outcome) {
                    Ok(signal) => {
                        let (r, a) = rib.on_fit_reply(signal);
                        rib = r;
                        action = a.expect("the walk goes on");
                    },
                    Err(errs) => return Err(errs),
                }
            },
        }
    }
}

// ---------------------------------------------------------------------------
// Tests
// ---------------------------------------------------------------------------

#[test]
fn append_doc() {
    let mut par = Par::new(20);
    let doc_slice_prep = DocSlicePrep::new(JsonObject::new());
    assert_eq!(doc_slice_prep.fit_key(), "OKfLlCA6dQbw9tD8");
    {
        // Wrong spec key
        let mut doc = JsonObject::new();
        doc.insert(s("message"), Json::String(s("hello from DocSlicePrep")));
        let mut args = JsonObject::new();
        args.insert(s("user"), Json::String(s("va4wUFbMV78R1AfB")));
        args.insert(s("acct"), Json::String(s("ofWU4ApC809sgbHJ")));
        args.insert(s("must"), Must::new_must().to_json());
        args.insert(s("doc"), Json::Object(doc));
        args.insert(s("spec_key"), Json::String(Bootstrap::jah_corrupted_spec_key()));
        assert_eq!(par.next(true, false), vec![ToDo::RecvInPort]);
        par.took_request();
        let outcome = DocSlicePrep::prep(FitArgs::from_doc(args));
        par.took_good_by();
        match outcome {
            FitComm::FitOk(_) => panic!("the spec key is not known"),
            FitComm::FitErr(_) => {},
            FitComm::FitSysErr(_) => panic!("no system error"),
        }
    }
    {
        // Add doc
        let mut doc = JsonObject::new();
        doc.insert(s("message"), Json::String(s("hello from DocSlicePrep")));
        let mut args = JsonObject::new();
        args.insert(s("user"), Json::String(s("va4wUFbMV78R1AfB")));
        args.insert(s("acct"), Json::String(s("ofWU4ApC809sgbHJ")));
        args.insert(s("doc"), Json::Object(doc));
        args.insert(s("spec_key"), Json::String(Bootstrap::spec_add_doc_key()));
        par.took_request();
        let outcome = DocSlicePrep::prep(FitArgs::from_doc(args));
        par.took_good_by();
        match outcome {
            FitComm::FitOk(fit_args) => {
                let stored = read_object(&fit_args.attach);
                assert!(spec_accepts(Bootstrap::spec_stored_doc_key(), &stored));
            },
            FitComm::FitErr(_) => panic!("the document is added"),
            FitComm::FitSysErr(_) => panic!("no system error"),
        }
    }
}

#[test]
fn file_append_json_test_write_and_read() {
    let fit = FileAppendJSON::new(startup_args());
    let (_path, file_num, spec) = match fit.start() {
        Ok(x) => x,
        Err(fit_errs) => panic!("{}", fit_errs.to_str()),
    };
    let mut file: Vec<u8> = Vec::new();
    let mut doc = JsonObject::new();
    doc.insert(s("message"), Json::String(s("하세요!")));
    let mut args = JsonObject::new();
    args.insert(s("user"), Json::String(s("va4wUFbMV78R1AfB")));
    args.insert(s("acct"), Json::String(s("ofWU4ApC809sgbHJ")));
    args.insert(s("must"), Must::new_must().to_json());
    args.insert(s("doc"), Json::Object(doc));
    args.insert(s("spec_key"), Json::String(s("uHSQ7daYUXqUUPSo")));
    let rval = match FileAppendJSON::append(&spec, &args, file.len() as u64, file_num) {
        Ok(job) => {
            file.extend_from_slice(&job.doc_bytes);
            file.extend_from_slice(&job.slice_bytes);
            job.reply
        },
        Err(fit_errs) => panic!("{}", fit_errs.to_str()),
    };
    let jah = JahArgs::new(rval.doc);
    assert!(JahSpec::new(Bootstrap::find_spec(s("ma2snwuG8VPGxY8z"))).check_args(&jah).is_ok());
    let slice = match jah.get_map(s("slice")) {
        Ok(m) => JahArgs::new(m),
        Err(_) => panic!("the answer has a slice"),
    };
    let len = match slice.get_float(s("len")) {
        Ok(n) => n as usize,
        Err(_) => panic!("the slice has a length"),
    };
    assert!(len == JahArgs::new(args).to_str().len());
}

#[test]
fn file_append_slice_test_write_and_read() {
    let fit = FileAppendSlice::new(startup_args());
    let (_path, file_num) = match fit.start() {
        Ok(x) => x,
        Err(fit_errs) => panic!("{}", fit_errs.to_str()),
    };
    let mut file: Vec<u8> = Vec::new();
    let mut doc = JsonObject::new();
    doc.insert(s("message"), Json::String(s("하세요!")));
    let mut args = JsonObject::new();
    args.insert(s("user"), Json::String(s("va4wUFbMV78R1AfB")));
    args.insert(s("acct"), Json::String(s("ofWU4ApC809sgbHJ")));
    args.insert(s("must"), Must::new_must().to_json());
    args.insert(s("doc"), Json::Object(doc.deep_copy()));
    args.insert(s("spec_key"), Json::String(Bootstrap::spec_stored_doc_key()));
    let bytes = Json::Object(args.deep_copy()).to_bytes();
    let fa = FitArgs::from_doc_with_attach(doc, bytes.clone());
    let rval = match FileAppendSlice::append(&fa, file.len() as u64, file_num) {
        FitComm::FitOk(rval) => {
            file.extend_from_slice(&fa.attach);
            rval
        },
        FitComm::FitSysErr(fit_errs) => panic!("{}", fit_errs.to_str()),
        FitComm::FitErr(fit_errs) => panic!("{}", fit_errs.to_str()),
    };
    assert!(JahSpec::new(Bootstrap::find_spec(Bootstrap::spec_file_slice_key())).check_args(&JahArgs::new(rval.doc.deep_copy())).is_ok());
    let len = num_of(&rval.doc, "len") as usize;
    assert!(len == bytes.len());
    assert_eq!(file, bytes);
}

#[test]
fn file_get_slice_test_write_and_read() {
    let mut file: Vec<u8> = Vec::new();
    let (slice_args, args) = {
        let fit = FileAppendSlice::new(startup_args());
        let (_path, file_num) = match fit.start() {
            Ok(x) => x,
            Err(fit_errs) => panic!("{}", fit_errs.to_str()),
        };
        let mut doc = JsonObject::new();
        doc.insert(s("message"), Json::String(s("하세요!")));
        let mut args = JsonObject::new();
        args.insert(s("user"), Json::String(s("va4wUFbMV78R1AfB")));
        args.insert(s("acct"), Json::String(s("ofWU4ApC809sgbHJ")));
        args.insert(s("must"), Must::new_must().to_json());
        args.insert(s("doc"), Json::Object(doc));
        args.insert(s("spec_key"), Json::String(Bootstrap::spec_stored_doc_key()));
        let mut r_doc = JsonObject::new();
        r_doc.insert(s("attach"), Json::String(s("doc")));
        r_doc.insert(s("spec_key"), Json::String(Bootstrap::spec_append_slice_key()));
        let bytes = Json::Object(args.deep_copy()).to_bytes();
        let fa = FitArgs::from_doc_with_attach(r_doc, bytes);
        let rval = fit_ok(FileAppendSlice::append(&fa, file.len() as u64, file_num));
        file.extend_from_slice(&fa.attach);
        assert!(spec_accepts(Bootstrap::spec_file_slice_key(), &rval.doc));
        let len = num_of(&rval.doc, "len") as usize;
        assert!(len == JahArgs::new(args.deep_copy()).to_str().len());
        (rval, args)
    };
    let fit = FileGetSlice::new(startup_args());
    let _path = match fit.start() {
        Ok(p) => p,
        Err(fit_errs) => panic!("{}", fit_errs.to_str()),
    };
    let (pos, len) = FileGetSlice::slice_wanted(&slice_args.doc);
    let start = pos as usize;
    let end = (start + len as usize).min(file.len());
    let rval = FileGetSlice::slice_reply(file[start..end].to_vec(), len as usize);
    assert!(spec_accepts(Bootstrap::spec_find_slice_result_key(), &rval.doc));
    assert!(str_of(&rval.doc, "attach") == "file_slice");
    assert!(rval.attach.len() == num_of(&slice_args.doc, "len") as usize);
    let val = read_object(&rval.attach);
    assert!(spec_accepts(Bootstrap::spec_stored_doc_key(), &val));
    assert_eq!(rval.attach, Json::Object(args).to_bytes());
}

fn submit(bank: &mut MustBank, world: &mut World, goodbys: &mut VecDeque<Result<FitArgs, FitErrs>>, strand: String, args: JsonObject) {
    // a request is taken only when the bank says so
    let (recv_trans, _) = bank.to_do(true, !goodbys.is_empty());
    assert!(recv_trans);
    let t_key = Must::new_must();
    let reply = bank.on_transcript(&t_key);
    // the requester gets its transcription's key at once
    match Must::from_obj(reply) {
        Ok(k) => assert!(k == t_key),
        Err(_) => panic!("must_bank.rs MMzO6ygIScG1IhxX"),
    }
    goodbys.push_back(run_transcript(world, strand, FitArgs::from_doc(args), t_key));
    let (_, recv_goodby) = bank.to_do(false, !goodbys.is_empty());
    if recv_goodby && goodbys.len() > 3 {
        let g = goodbys.pop_front().unwrap();
        if let Some(text) = bank.on_goodby(&g) {
            assert!(!text.is_empty());
        }
    }
}

#[test]
fn add_document_strand() {
    let mut world = World::new();
    let mut bank = MustBank::connect();
    let mut goodbys: VecDeque<Result<FitArgs, FitErrs>> = VecDeque::new();
    let max = 1000;
    println!("Inserting {} documents.", max);
    for i in 1..=max {
        let args = doc_args(&format!("must_bank {} reporting for duty.", i), false);
        submit(&mut bank, &mut world, &mut goodbys, Bootstrap::must_start_strand(), args);
    }
    println!("documents submitted");
    let args = doc_args("must_bank error reporting for duty.", false);
    submit(&mut bank, &mut world, &mut goodbys, Bootstrap::must_start_strand(), args.deep_copy());
    submit(&mut bank, &mut world, &mut goodbys, Bootstrap::stately_tester_strand(), args);
    println!("waiting for ack");
    let plan = bank.on_release();
    let waiting = plan.iter().filter(|step| **step == ReleaseStep::TakeGoodby).count();
    assert_eq!(waiting, goodbys.len());
    assert_eq!(plan[waiting..].to_vec(), vec![ReleaseStep::ReleaseStately, ReleaseStep::ReleaseParts, ReleaseStep::Ack]);
    for _ in 0..waiting {
        goodbys.pop_front().unwrap();
    }
    println!("reminder: check and delete test.json");
}

#[test]
fn added_document_stops_at_the_append_request() {
    let mut world = World::new();
    let outcome = run_transcript(&mut world, Bootstrap::must_start_strand(), FitArgs::from_doc(doc_args("stored for good", true)), Must::new_must());
    // DocSlicePrep answers with a request to append the slice, under a key
    // that no spec is registered for: the answer breaks the corrupted spec,
    // so the walk takes the error strand and no slice is appended
    assert_eq!(world.shown.len(), 1);
    assert!(world.file.is_empty());
    let result = outcome.ok().unwrap();
    assert_eq!(result.doc.len(), 0);
}

#[test]
fn document_without_must_is_refused_at_the_door() {
    let mut world = World::new();
    let errs = match run_transcript(&mut world, Bootstrap::must_start_strand(), FitArgs::from_doc(doc_args("no must", false)), Must::new_must()) {
        Ok(_) => panic!("the spec of documents to add requires a Must"),
        Err(e) => e,
    };
    assert_eq!(str_of(&errs.errs[0], "line_key"), "OAGw7LnsZ0j03d4W");
    assert!(world.file.is_empty());
}

#[test]
fn unknown_spec_key_is_refused_at_the_door() {
    let mut world = World::new();
    let mut args = doc_args("x", true);
    args.insert(s("spec_key"), Json::String(Bootstrap::spec_edit_doc_key()));
    // no spec is registered under the edit key: the corrupted spec answers
    // for it and allows none of the args
    let errs = match run_transcript(&mut world, Bootstrap::must_start_strand(), FitArgs::from_doc(args), Must::new_must()) {
        Ok(_) => panic!("the edit key names no spec"),
        Err(e) => e,
    };
    assert_eq!(str_of(&errs.errs[0], "line_key"), "OAGw7LnsZ0j03d4W");
    assert!(world.shown.is_empty());
    assert!(world.file.is_empty());
}

#[test]
fn stately_tester_round_trips() {
    let mut world = World::new();
    let args = doc_args("stately", true);
    let outcome = run_transcript(&mut world, Bootstrap::stately_tester_strand(), FitArgs::from_doc(args), Must::new_must());
    // the first round trip walks the error strand with trace info, which no
    // registered spec knows, so it is lost to errors and the tester fails
    assert_eq!(world.failures.len(), 1);
    assert!(world.failures[0].contains("first round trip"));
    let result = outcome.ok().unwrap();
    assert_eq!(result.doc.len(), 0);
}

#[test]
fn missing_fit_ends_the_transcription() {
    let mut world = World::new();
    world.parts = ParTs::connect();
    let errs = match run_transcript(&mut world, Bootstrap::must_start_strand(), FitArgs::from_doc(doc_args("x", true)), Must::new_must()) {
        Ok(_) => panic!("no Fit is registered"),
        Err(e) => e,
    };
    assert_eq!(str_of(&errs.errs[0], "line_key"), "zJ3goGbt6DOJWEEB");
    assert_eq!(str_of(&errs.errs[1], "line_key"), "P590aja1zCctfAVJ");
}

#[test]
fn logic_error_of_the_walk_is_passed_on() {
    // ask a transcription directly for args, and end it with a logic error
    let (tr, _rib, _action) = match Transcriptor::connect(s("o88KanesoJ6J19uN"), Must::new_must(), FitArgs::from_doc(doc_args("x", true))) {
        Ok(x) => x,
        Err(_) => panic!("the args are fine"),
    };
    match tr.on_action(LogicOutComm::GetArgStr(s("nope"))) {
        TranscriptStep::SendArg(v) => assert!(v.is_none()),
        _ => panic!("an arg request is answered"),
    }
    match tr.on_action(LogicOutComm::GetArgStr(s("user"))) {
        TranscriptStep::SendArg(v) => assert_eq!(v, Some(s("va4wUFbMV78R1AfB"))),
        _ => panic!("an arg request is answered"),
    }
    match tr.on_action(LogicOutComm::LogicErr(JsonObject::new())) {
        TranscriptStep::GoodBy(Err(e)) => {
            assert_eq!(e.errs.len(), 2);
            assert_eq!(str_of(&e.errs[0], "line_key"), "OYKXYUpuTz14Ew0m");
        },
        _ => panic!("a logic error ends the transcription"),
    }
}
