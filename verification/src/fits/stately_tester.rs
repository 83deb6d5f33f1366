//! StatelyTester is a Fit that tests the state server.  Whatever args it
//! gets, it makes three round trips through the server, each with a fresh
//! Must as its state: args that the error strand answers, args that the
//! error strand refuses, and a document to add along the start strand.  It
//! checks that each comes back as it should, with its state untouched, and
//! then answers as the error Fit does.  The round trips run around this
//! module; here is the test, as a state machine.
use vstd::prelude::*;
use crate::json::{Json, JsonObject, JsonV, obj_insert};
use crate::jah_args::{JahArgs, Args, str_arg};
use crate::jah_spec::Errs;
use crate::bootstrap::{Bootstrap, reply_error_trace_info_v, spec_add_doc_key_v, spec_file_slice_key_v,
    stately_tester_key_v, must_start_strand_v};
use crate::fit::FitArgs;
use crate::must::{Must, MustV, must_obj_v, from_obj_v};
use crate::stately::{LoopOutComm, LoopInComm};

verus! {

/// Which round trip the tester waits for.
pub enum TesterPhase {
    /// Args that the error strand answers.
    AwaitFirst,
    /// Args that the error strand refuses.
    AwaitSecond,
    /// A document to add.
    AwaitThird,
}

/// The test in progress: the Must sent as state on the round trip it
/// waits for, and the transcription that it works for.
pub struct StatelyTester {
    phase: TesterPhase,
    expected: Must,
    t_key: Must,
}

/// What the tester does next.
pub enum TesterStep {
    /// Send this request to the state server and wait.
    Next(StatelyTester, LoopOutComm),
    /// The test passed: this is the answer of the Fit.
    Done(FitArgs),
    /// A round trip did not come back as it should.
    Failed(String),
}

/// The key of the error Fit's answers.
pub open spec fn err_fit_reply_key_v() -> Seq<char> {
    "er5OWig71VG9oNjK"@
}

/// The error strand.
pub open spec fn err_out_strand_key_v() -> Seq<char> {
    "DROOg7Vt2GXiVl00"@
}

/// The args of the first round trip.
pub open spec fn first_args_v() -> Args {
    reply_error_trace_info_v("stately_tester.rs"@, "ChhEUlXgiJKHDzI0"@)
}

/// The args of the second round trip: an arg that no spec allows.
pub open spec fn second_args_v() -> Args {
    obj_insert(reply_error_trace_info_v("stately_tester.rs"@, "LABaRJT4NwQka5BN"@), "dude"@, JsonV::Str("dude"@))
}

/// The args of the third round trip: a document to add.
pub open spec fn third_args_v() -> Args {
    obj_insert(
        obj_insert(
            obj_insert(
                obj_insert(Seq::empty(), "user"@, JsonV::Str("va4wUFbMV78R1AfB"@)),
                "acct"@,
                JsonV::Str("ofWU4ApC809sgbHJ"@),
            ),
            "doc"@,
            JsonV::Object(obj_insert(Seq::empty(), "message"@, JsonV::Str("testing add document using stately."@))),
        ),
        "spec_key"@,
        JsonV::Str(spec_add_doc_key_v()),
    )
}

/// The answer of the Fit once the test passed.
pub open spec fn tester_reply_v() -> Args {
    obj_insert(Seq::empty(), "spec_key"@, JsonV::Str(err_fit_reply_key_v()))
}

/// `req` asks the server to walk `strand` with `args` as transcription
/// `t_key`, with the Must `state` as its state.
pub open spec fn request_is(req: LoopOutComm, args: Args, strand: Seq<char>, t_key: MustV, state: MustV) -> bool {
    req matches LoopOutComm::DoAndComeback(a, s, t, st) && a.doc@ == args && a.attach@.len() == 0 && s@ == strand
        && t@ == t_key && (st matches Some(sa) && sa.doc@ == must_obj_v(state))
}

/// The state came back as the Must `m`.
pub open spec fn state_is(state: Option<FitArgs>, m: MustV) -> bool {
    state matches Some(s) && from_obj_v(s.doc@) == Ok::<MustV, Errs>(m)
}

/// The result carries the spec key `k`.
pub open spec fn spec_key_is(args: FitArgs, k: Seq<char>) -> bool {
    str_arg(args.doc@, "spec_key"@) == Ok::<Seq<char>, crate::jah_args::GetArgErrorType>(k)
}

/// The round trip came back as it should.
pub open spec fn comeback_passes(phase: TesterPhase, expected: MustV, reply: LoopInComm) -> bool {
    match phase {
        TesterPhase::AwaitFirst => reply matches LoopInComm::ComebackOk(a, st) && state_is(st, expected)
            && spec_key_is(a, err_fit_reply_key_v()),
        TesterPhase::AwaitSecond => reply matches LoopInComm::LostToErr(st) && state_is(st, expected),
        TesterPhase::AwaitThird => reply matches LoopInComm::ComebackOk(a, st) && state_is(st, expected)
            && spec_key_is(a, spec_file_slice_key_v()),
    }
}

fn request(args: JsonObject, strand: String, t_key: &Must, state: &Must) -> (r: LoopOutComm)
    ensures
        request_is(r, args@, strand@, t_key@, state@),
{
    let a = FitArgs::from_doc(args);
    LoopOutComm::DoAndComeback(a, strand, t_key.copy(), Some(FitArgs::from_doc(state.to_obj())))
}

fn state_matches(state: &Option<FitArgs>, m: &Must) -> (b: bool)
    ensures
        b == state_is(*state, m@),
{
    match state {
        Some(s) => match Must::from_obj(s.doc.deep_copy()) {
            Ok(st) => crate::must::eq_must(&st, m),
            Err(_) => false,
        },
        None => false,
    }
}

fn key_matches(args: &FitArgs, k: String) -> (b: bool)
    ensures
        b == spec_key_is(*args, k@),
{
    match JahArgs::new(args.doc.deep_copy()).get_str("spec_key".to_owned()) {
        Ok(key) => key == k,
        Err(_) => false,
    }
}

impl StatelyTester {
    /// The round trip the tester waits for.
    pub closed spec fn phase(&self) -> TesterPhase {
        self.phase
    }

    /// The Must sent as state on that round trip.
    pub closed spec fn expected(&self) -> MustV {
        self.expected@
    }

    /// The transcription that the tester works for.
    pub closed spec fn key(&self) -> MustV {
        self.t_key@
    }

    /// The key of the code that implements this Fit.
    pub fn fit_key() -> (r: String)
        ensures
            r@ == stately_tester_key_v(),
    {
        Bootstrap::stately_tester_key()
    }

    /// The spec of what it takes.
    pub fn spec_keys_in() -> (r: Vec<String>)
        ensures
            r@.len() == 1,
            r@[0]@ == "qJzMxt6eQV2CgKbr"@,
    {
        let mut v: Vec<String> = Vec::new();
        v.push("qJzMxt6eQV2CgKbr".to_owned());
        v
    }

    /// The spec of its answers: those of the error Fit.
    pub fn spec_keys_out() -> (r: Vec<String>)
        ensures
            r@.len() == 1,
            r@[0]@ == err_fit_reply_key_v(),
    {
        let mut v: Vec<String> = Vec::new();
        v.push("er5OWig71VG9oNjK".to_owned());
        v
    }

    /// Starts the test for transcription `t_key`: the first round trip.
    pub fn start(t_key: Must) -> (r: (StatelyTester, LoopOutComm))
        ensures
            r.0.phase() == TesterPhase::AwaitFirst,
            r.0.key() == t_key@,
            request_is(r.1, first_args_v(), err_out_strand_key_v(), t_key@, r.0.expected()),
    {
        let state_ok = Must::new_must();
        let args = Bootstrap::reply_error_trace_info("stately_tester.rs".to_owned(), "ChhEUlXgiJKHDzI0".to_owned());
        let req = request(args, "DROOg7Vt2GXiVl00".to_owned(), &t_key, &state_ok);
        (StatelyTester { phase: TesterPhase::AwaitFirst, expected: state_ok, t_key }, req)
    }

    /// Takes the outcome of the round trip: the next round trip, the answer
    /// once all three passed, or the failure.
    pub fn on_comeback(self, reply: LoopInComm) -> (r: TesterStep)
        ensures
            !comeback_passes(self.phase(), self.expected(), reply) ==> r is Failed,
            comeback_passes(self.phase(), self.expected(), reply) ==> match self.phase() {
                TesterPhase::AwaitFirst => r matches TesterStep::Next(t, req) && t.phase() == TesterPhase::AwaitSecond
                    && t.key() == self.key() && request_is(req, second_args_v(), err_out_strand_key_v(), self.key(), t.expected()),
                TesterPhase::AwaitSecond => r matches TesterStep::Next(t, req) && t.phase() == TesterPhase::AwaitThird
                    && t.key() == self.key() && request_is(req, third_args_v(), must_start_strand_v(), self.key(), t.expected()),
                TesterPhase::AwaitThird => r matches TesterStep::Done(fa) && fa.doc@ == tester_reply_v() && fa.attach@.len() == 0,
            },
    {
        let StatelyTester { phase, expected, t_key } = self;
        match phase {
            TesterPhase::AwaitFirst => {
                let ok = match &reply {
                    LoopInComm::ComebackOk(a, st) => state_matches(st, &expected) && key_matches(a, "er5OWig71VG9oNjK".to_owned()),
                    LoopInComm::LostToErr(_) => false,
                };
                if !ok {
                    return TesterStep::Failed("stately_tester.rs: the first round trip did not come back as it should".to_owned());
                }
                let state_err = Must::new_must();
                let mut args = Bootstrap::reply_error_trace_info("stately_tester.rs".to_owned(), "LABaRJT4NwQka5BN".to_owned());
                args.insert("dude".to_owned(), Json::String("dude".to_owned()));
                let req = request(args, "DROOg7Vt2GXiVl00".to_owned(), &t_key, &state_err);
                TesterStep::Next(StatelyTester { phase: TesterPhase::AwaitSecond, expected: state_err, t_key }, req)
            },
            TesterPhase::AwaitSecond => {
                let ok = match &reply {
                    LoopInComm::LostToErr(st) => state_matches(st, &expected),
                    LoopInComm::ComebackOk(_, _) => false,
                };
                if !ok {
                    return TesterStep::Failed("stately_tester.rs: the second round trip was not lost to errors".to_owned());
                }
                let state_add_ok = Must::new_must();
                let mut doc = JsonObject::new();
                doc.insert("message".to_owned(), Json::String("testing add document using stately.".to_owned()));
                let mut args = JsonObject::new();
                args.insert("user".to_owned(), Json::String("va4wUFbMV78R1AfB".to_owned()));
                args.insert("acct".to_owned(), Json::String("ofWU4ApC809sgbHJ".to_owned()));
                args.insert("doc".to_owned(), Json::Object(doc));
                args.insert("spec_key".to_owned(), Json::String(Bootstrap::spec_add_doc_key()));
                let req = request(args, Bootstrap::must_start_strand(), &t_key, &state_add_ok);
                TesterStep::Next(StatelyTester { phase: TesterPhase::AwaitThird, expected: state_add_ok, t_key }, req)
            },
            TesterPhase::AwaitThird => {
                let ok = match &reply {
                    LoopInComm::ComebackOk(a, st) => state_matches(st, &expected) && key_matches(a, Bootstrap::spec_file_slice_key()),
                    LoopInComm::LostToErr(_) => false,
                };
                if !ok {
                    return TesterStep::Failed("stately_tester.rs: the document was not added".to_owned());
                }
                let mut r_args = JsonObject::new();
                r_args.insert("spec_key".to_owned(), Json::String("er5OWig71VG9oNjK".to_owned()));
                TesterStep::Done(FitArgs::from_doc(r_args))
            },
        }
    }
}

} // verus!
