//! Strands of logic and the Ribosome that walks them.
//!
//! A strand is a list of Logic.  `OkErr(reg_key, err_strand)` asks for the
//! Fit registered under `reg_key`: if it answers Ok the walk moves on, if it
//! answers with an error the walk continues on `err_strand`.
//! `KeyMatch(arg_key, strand_map)` calls no Fit: it asks for the string arg
//! `arg_key`, and the walk continues on the strand that the map gives for
//! that value.  The Ribosome is a state machine: each event (a Fit's answer,
//! an arg's value) gives the next action.
use vstd::prelude::*;
use crate::json::JsonObject;
use crate::jah_args::Args;
use crate::bootstrap::{Bootstrap, spec_rule_error_v, arg_rule_key_arg_must_exist_v, spec_add_doc_key_v,
    doc_slice_prep_key_v, file_append_slice_key_v, err_fit_key_v, stately_tester_key_v};

verus! {

/// Maps the values of an arg to the keys of strands.
pub struct StrandKeyMap {
    pub mapped_strands: Vec<(String, String)>,
    pub no_match_strand_key: String,
}

/// One step of a strand.
pub enum Logic {
    /// ( reg_key, error_strand )
    OkErr(String, String),
    /// ( arg_key, strand_map )
    KeyMatch(String, StrandKeyMap),
}

/// The answer to a `DoFit`.
#[derive(PartialEq, Eq, Structural, Debug, Clone, Copy)]
pub enum LogicInComm {
    NextOk,
    NextErr,
    NextEnd,
}

/// What the Ribosome asks for next.
pub enum LogicOutComm {
    /// Run the Fit registered under this key.
    DoFit(String),
    /// The walk failed; the strand ends.
    LogicErr(JsonObject),
    /// Send the string arg of this name (or none).
    GetArgStr(String),
    /// The strand is done.
    EndOfStrand,
}

pub struct StrandKeyMapV {
    pub mapped: Seq<(Seq<char>, Seq<char>)>,
    pub no_match: Seq<char>,
}

pub enum LogicV {
    OkErr(Seq<char>, Seq<char>),
    KeyMatch(Seq<char>, StrandKeyMapV),
}

pub enum ActionV {
    DoFit(Seq<char>),
    LogicErr(Args),
    GetArgStr(Seq<char>),
    EndOfStrand,
}

/// Where a walk stands.
pub enum Phase {
    /// Waiting for the answer of the Fit at `pos`.
    AwaitFit,
    /// Waiting for the value of the arg that the KeyMatch at `pos` names.
    AwaitArg,
    /// The walk is over.
    Done,
}

impl View for StrandKeyMap {
    type V = StrandKeyMapV;

    open spec fn view(&self) -> StrandKeyMapV {
        StrandKeyMapV {
            mapped: Seq::new(self.mapped_strands@.len(), |i: int| (self.mapped_strands@[i].0@, self.mapped_strands@[i].1@)),
            no_match: self.no_match_strand_key@,
        }
    }
}

impl View for Logic {
    type V = LogicV;

    open spec fn view(&self) -> LogicV {
        match self {
            Logic::OkErr(a, b) => LogicV::OkErr(a@, b@),
            Logic::KeyMatch(a, m) => LogicV::KeyMatch(a@, m@),
        }
    }
}

impl View for LogicOutComm {
    type V = ActionV;

    open spec fn view(&self) -> ActionV {
        match self {
            LogicOutComm::DoFit(k) => ActionV::DoFit(k@),
            LogicOutComm::LogicErr(e) => ActionV::LogicErr(e@),
            LogicOutComm::GetArgStr(k) => ActionV::GetArgStr(k@),
            LogicOutComm::EndOfStrand => ActionV::EndOfStrand,
        }
    }
}

pub open spec fn strand_view(s: Seq<Logic>) -> Seq<LogicV> {
    Seq::new(s.len(), |i: int| s[i]@)
}

/// The first mapping of `key`, from position `i` on; the no-match strand where
/// there is none.
pub open spec fn map_from(m: StrandKeyMapV, key: Seq<char>, i: int) -> Seq<char>
    decreases m.mapped.len() - i,
{
    if i < 0 || i >= m.mapped.len() {
        m.no_match
    } else if m.mapped[i].0 == key {
        m.mapped[i].1
    } else {
        map_from(m, key, i + 1)
    }
}

/// The strand that the map gives for `key`.
pub open spec fn strand_key_for(m: StrandKeyMapV, key: Seq<char>) -> Seq<char> {
    map_from(m, key, 0)
}

pub open spec fn start_strand_v() -> Seq<char> { "UWmoVWUMfKsL8oyr"@ }
pub open spec fn add_doc_strand_v() -> Seq<char> { "0loMIC2O3UW1yuTW"@ }
pub open spec fn err_out_strand_v() -> Seq<char> { "DROOg7Vt2GXiVl00"@ }
pub open spec fn empty_strand_v() -> Seq<char> { "fUhzdaBaEYITxXET"@ }
pub open spec fn test_strand_v() -> Seq<char> { "o88KanesoJ6J19uN"@ }
pub open spec fn stately_strand_v() -> Seq<char> { "tuUZAYq5uby19tYG"@ }

/// The strands, by key.  Any other key names the empty strand.
pub open spec fn get_strand_v(k: Seq<char>) -> Seq<LogicV> {
    if k == start_strand_v() {
        seq![LogicV::KeyMatch("spec_key"@, StrandKeyMapV {
            mapped: seq![(spec_add_doc_key_v(), add_doc_strand_v())],
            no_match: err_out_strand_v(),
        })]
    } else if k == add_doc_strand_v() {
        seq![
            LogicV::OkErr(doc_slice_prep_key_v(), err_out_strand_v()),
            LogicV::OkErr(file_append_slice_key_v(), err_out_strand_v()),
        ]
    } else if k == err_out_strand_v() {
        seq![LogicV::OkErr(err_fit_key_v(), empty_strand_v())]
    } else if k == empty_strand_v() {
        Seq::empty()
    } else if k == test_strand_v() {
        seq![
            LogicV::OkErr("Fit 1"@, err_out_strand_v()),
            LogicV::OkErr("Fit 2"@, err_out_strand_v()),
            LogicV::KeyMatch("some_arg_key"@, StrandKeyMapV {
                mapped: seq![("ants_are"@, add_doc_strand_v()), ("my_friends"@, err_out_strand_v())],
                no_match: empty_strand_v(),
            }),
            LogicV::OkErr("Fit 3"@, err_out_strand_v()),
        ]
    } else if k == stately_strand_v() {
        seq![LogicV::OkErr(stately_tester_key_v(), empty_strand_v())]
    } else {
        Seq::empty()
    }
}

/// The state of a walk.
pub struct RibV {
    pub strand: Seq<LogicV>,
    pub pos: int,
    pub phase: Phase,
}

/// A walk is well formed: the position lies inside the strand, and a walk
/// that waits does so on the step at its position, of the matching kind.
pub open spec fn rib_wf(s: RibV) -> bool {
    &&& 0 <= s.pos <= s.strand.len()
    &&& s.phase is AwaitFit ==> s.pos < s.strand.len() && s.strand[s.pos] is OkErr
    &&& s.phase is AwaitArg ==> s.pos < s.strand.len() && s.strand[s.pos] is KeyMatch
}

/// The action at position `pos` of `strand`, and where the walk then stands.
pub open spec fn advance_v(strand: Seq<LogicV>, pos: int) -> (RibV, ActionV) {
    if pos >= strand.len() {
        (RibV { strand, pos, phase: Phase::Done }, ActionV::EndOfStrand)
    } else {
        match strand[pos] {
            LogicV::OkErr(fit, _) => (RibV { strand, pos, phase: Phase::AwaitFit }, ActionV::DoFit(fit)),
            LogicV::KeyMatch(arg, _) => (RibV { strand, pos, phase: Phase::AwaitArg }, ActionV::GetArgStr(arg)),
        }
    }
}

/// Where a walk stands after its Fit answered, and what it asks next.
pub open spec fn on_fit_reply_v(s: RibV, reply: LogicInComm) -> (RibV, Option<ActionV>) {
    match reply {
        LogicInComm::NextOk => {
            let (t, a) = advance_v(s.strand, s.pos + 1);
            (t, Some(a))
        },
        LogicInComm::NextErr => {
            let (t, a) = advance_v(get_strand_v(s.strand[s.pos]->OkErr_1), 0);
            (t, Some(a))
        },
        LogicInComm::NextEnd => (RibV { phase: Phase::Done, ..s }, None),
    }
}

/// Where a walk stands after the arg's value came, and what it asks next.
pub open spec fn on_arg_v(s: RibV, val: Option<Seq<char>>) -> (RibV, ActionV) {
    match val {
        Some(k) => advance_v(get_strand_v(strand_key_for(s.strand[s.pos]->KeyMatch_1, k)), 0),
        None => (
            RibV { phase: Phase::Done, ..s },
            ActionV::LogicErr(spec_rule_error_v(
                arg_rule_key_arg_must_exist_v(),
                s.strand[s.pos]->KeyMatch_0,
                "euG3S9MfQQmlRe6B"@,
                "strand.rs"@,
                "strand.rs"@,
            )),
        ),
    }
}

/// Every step of a walk keeps it well formed.
pub proof fn lemma_walk_stays_well_formed(s: RibV, reply: LogicInComm, val: Option<Seq<char>>)
    requires
        rib_wf(s),
    ensures
        s.phase is AwaitFit ==> rib_wf(on_fit_reply_v(s, reply).0),
        s.phase is AwaitArg ==> rib_wf(on_arg_v(s, val).0),
        forall|strand: Seq<LogicV>| rib_wf(#[trigger] advance_v(strand, 0).0),
        (on_fit_reply_v(s, reply).1 == Some(ActionV::EndOfStrand)) ==> on_fit_reply_v(s, reply).0.phase is Done,
{
}

/// The actions a walk at `s` asks for over `n` Fit answers, every one of
/// them `NextOk`.
pub open spec fn ok_walk_v(s: RibV, n: nat) -> Seq<Option<ActionV>>
    decreases n,
{
    if n == 0 {
        Seq::empty()
    } else {
        seq![on_fit_reply_v(s, LogicInComm::NextOk).1] + ok_walk_v(on_fit_reply_v(s, LogicInComm::NextOk).0, (n - 1) as nat)
    }
}

/// A strand made only of Fit calls.
pub open spec fn only_fits(strand: Seq<LogicV>) -> bool {
    forall|i: int| 0 <= i < strand.len() ==> #[trigger] strand[i] is OkErr
}

/// What a walk of such a strand asks for after the Fit at `p` answered,
/// while every Fit answers `NextOk`: each following Fit in order, then the
/// end of the strand.
pub open spec fn fits_after_v(strand: Seq<LogicV>, p: int) -> Seq<Option<ActionV>> {
    Seq::new((strand.len() - p) as nat, |i: int| if p + i + 1 < strand.len() {
        Some(ActionV::DoFit(strand[p + i + 1]->OkErr_0))
    } else {
        Some(ActionV::EndOfStrand)
    })
}

/// A walk of a strand of Fit calls, where every Fit answers `NextOk`, asks
/// for each Fit in the order of the strand and then says that the strand
/// is done.
pub proof fn lemma_ok_walk(strand: Seq<LogicV>, p: int)
    requires
        only_fits(strand),
        0 <= p < strand.len(),
    ensures
        advance_v(strand, p).1 == ActionV::DoFit(strand[p]->OkErr_0),
        ok_walk_v(advance_v(strand, p).0, (strand.len() - p) as nat) == fits_after_v(strand, p),
    decreases strand.len() - p,
{
    let n = (strand.len() - p) as nat;
    let s = advance_v(strand, p).0;
    assert(strand[p] is OkErr);
    let t = on_fit_reply_v(s, LogicInComm::NextOk).0;
    assert(t == advance_v(strand, p + 1).0);
    if p + 1 < strand.len() {
        lemma_ok_walk(strand, p + 1);
        assert(strand[p + 1] is OkErr);
        assert(ok_walk_v(s, n) =~= fits_after_v(strand, p)) by {
            assert(ok_walk_v(s, n) == seq![Some(ActionV::DoFit(strand[p + 1]->OkErr_0))] + ok_walk_v(t, (n - 1) as nat));
        }
    } else {
        assert(ok_walk_v(t, 0) =~= Seq::<Option<ActionV>>::empty());
        assert(ok_walk_v(s, n) =~= fits_after_v(strand, p));
    }
}

impl StrandKeyMap {
    /// The strand that this map gives for `key`.
    pub fn get_strand_key(&self, key: String) -> (r: String)
        ensures
            r@ == strand_key_for(self@, key@),
    {
        let ghost m = self@;
        let mut i: usize = 0;
        while i < self.mapped_strands.len()
            invariant
                i <= self.mapped_strands@.len(),
                m == self@,
                map_from(m, key@, 0) == map_from(m, key@, i as int),
            decreases self.mapped_strands@.len() - i,
        {
            if self.mapped_strands[i].0 == key {
                return self.mapped_strands[i].1.clone();
            }
            i = i + 1;
        }
        self.no_match_strand_key.clone()
    }
}

/// Walks strands of logic, one event at a time.
pub struct Ribosome {
    strand: Vec<Logic>,
    pos: usize,
    phase: Phase,
}

impl View for Ribosome {
    type V = RibV;

    closed spec fn view(&self) -> RibV {
        RibV { strand: strand_view(self.strand@), pos: self.pos as int, phase: self.phase }
    }
}

fn ok_err(a: String, b: String) -> (r: Logic)
    ensures
        r@ == LogicV::OkErr(a@, b@),
{
    Logic::OkErr(a, b)
}

fn key_map(pairs: Vec<(String, String)>, no_match: String) -> (r: StrandKeyMap)
    ensures
        r.mapped_strands@ == pairs@,
        r.no_match_strand_key@ == no_match@,
{
    StrandKeyMap { mapped_strands: pairs, no_match_strand_key: no_match }
}

impl Ribosome {
    /// The strand registered under `strand_key` (the empty strand for an
    /// unknown key).
    pub fn get_strand(strand_key: String) -> (r: Vec<Logic>)
        ensures
            strand_view(r@) == get_strand_v(strand_key@),
    {
        let mut s: Vec<Logic> = Vec::new();
        if strand_key == "UWmoVWUMfKsL8oyr".to_owned() {
            let mut mapped: Vec<(String, String)> = Vec::new();
            mapped.push((Bootstrap::spec_add_doc_key(), "0loMIC2O3UW1yuTW".to_owned()));
            let m = key_map(mapped, "DROOg7Vt2GXiVl00".to_owned());
            assert(m@.mapped =~= seq![(spec_add_doc_key_v(), add_doc_strand_v())]);
            s.push(Logic::KeyMatch("spec_key".to_owned(), m));
        } else if strand_key == "0loMIC2O3UW1yuTW".to_owned() {
            s.push(ok_err(Bootstrap::doc_slice_prep_key(), "DROOg7Vt2GXiVl00".to_owned()));
            s.push(ok_err(Bootstrap::file_append_slice_key(), "DROOg7Vt2GXiVl00".to_owned()));
        } else if strand_key == "DROOg7Vt2GXiVl00".to_owned() {
            s.push(ok_err(Bootstrap::err_fit_key(), "fUhzdaBaEYITxXET".to_owned()));
        } else if strand_key == "fUhzdaBaEYITxXET".to_owned() {
        } else if strand_key == "o88KanesoJ6J19uN".to_owned() {
            let mut mapped: Vec<(String, String)> = Vec::new();
            mapped.push(("ants_are".to_owned(), "0loMIC2O3UW1yuTW".to_owned()));
            mapped.push(("my_friends".to_owned(), "DROOg7Vt2GXiVl00".to_owned()));
            let m = key_map(mapped, "fUhzdaBaEYITxXET".to_owned());
            assert(m@.mapped =~= seq![("ants_are"@, add_doc_strand_v()), ("my_friends"@, err_out_strand_v())]);
            s.push(ok_err("Fit 1".to_owned(), "DROOg7Vt2GXiVl00".to_owned()));
            s.push(ok_err("Fit 2".to_owned(), "DROOg7Vt2GXiVl00".to_owned()));
            s.push(Logic::KeyMatch("some_arg_key".to_owned(), m));
            s.push(ok_err("Fit 3".to_owned(), "DROOg7Vt2GXiVl00".to_owned()));
        } else if strand_key == "tuUZAYq5uby19tYG".to_owned() {
            s.push(ok_err(Bootstrap::stately_tester_key(), "fUhzdaBaEYITxXET".to_owned()));
        }
        assert(strand_view(s@) =~= get_strand_v(strand_key@));
        s
    }

    /// Moves to position `pos` of `strand` and says what is asked there.
    fn advance(strand: Vec<Logic>, pos: usize) -> (r: (Ribosome, LogicOutComm))
        requires
            pos <= strand@.len(),
        ensures
            (r.0@, r.1@) == advance_v(strand_view(strand@), pos as int),
    {
        if pos >= strand.len() {
            (Ribosome { strand, pos, phase: Phase::Done }, LogicOutComm::EndOfStrand)
        } else {
            let action = match &strand[pos] {
                Logic::OkErr(fit, _) => LogicOutComm::DoFit(fit.clone()),
                Logic::KeyMatch(arg, _) => LogicOutComm::GetArgStr(arg.clone()),
            };
            let phase = match &strand[pos] {
                Logic::OkErr(_, _) => Phase::AwaitFit,
                Logic::KeyMatch(_, _) => Phase::AwaitArg,
            };
            (Ribosome { strand, pos, phase }, action)
        }
    }

    /// Starts a walk on the strand registered under `strand_key` and says
    /// what it asks first.
    pub fn connect(strand_key: String) -> (r: (Ribosome, LogicOutComm))
        ensures
            (r.0@, r.1@) == advance_v(get_strand_v(strand_key@), 0),
            rib_wf(r.0@),
    {
        Self::advance(Self::get_strand(strand_key), 0)
    }

    /// Whether the walk is waiting for a Fit's answer.
    pub fn awaits_fit(&self) -> (b: bool)
        ensures
            b == (self@.phase is AwaitFit),
    {
        match self.phase {
            Phase::AwaitFit => true,
            _ => false,
        }
    }

    /// Whether the walk is waiting for an arg's value.
    pub fn awaits_arg(&self) -> (b: bool)
        ensures
            b == (self@.phase is AwaitArg),
    {
        match self.phase {
            Phase::AwaitArg => true,
            _ => false,
        }
    }

    /// The Fit asked for last answered `reply`: the walk moves on, turns to
    /// the error strand, or ends without a word.
    pub fn on_fit_reply(self, reply: LogicInComm) -> (r: (Ribosome, Option<LogicOutComm>))
        requires
            rib_wf(self@),
            self@.phase is AwaitFit,
        ensures
            r.0@ == on_fit_reply_v(self@, reply).0,
            match r.1 {
                Some(a) => on_fit_reply_v(self@, reply).1 == Some(a@),
                None => on_fit_reply_v(self@, reply).1 is None,
            },
            rib_wf(r.0@),
    {
        let ghost s = self@;
        match reply {
            LogicInComm::NextOk => {
                assert(s.strand.len() == self.strand@.len());
                let n = self.strand.len();
                assert(self.pos < n);
                let (t, a) = Self::advance(self.strand, self.pos + 1);
                (t, Some(a))
            },
            LogicInComm::NextErr => {
                let err_strand = match &self.strand[self.pos] {
                    Logic::OkErr(_, e) => e.clone(),
                    Logic::KeyMatch(_, _) => {
                        proof {
                            assert(s.strand[s.pos] is KeyMatch);
                        }
                        String::new()
                    },
                };
                let (t, a) = Self::advance(Self::get_strand(err_strand), 0);
                (t, Some(a))
            },
            LogicInComm::NextEnd => (Ribosome { strand: self.strand, pos: self.pos, phase: Phase::Done }, None),
        }
    }

    /// The arg asked for last has value `val` (or none): the walk goes on
    /// the strand mapped to the value, or fails.
    pub fn on_arg(self, val: Option<String>) -> (r: (Ribosome, LogicOutComm))
        requires
            rib_wf(self@),
            self@.phase is AwaitArg,
        ensures
            (r.0@, r.1@) == on_arg_v(self@, match val {
                Some(v) => Some(v@),
                None => None,
            }),
            rib_wf(r.0@),
    {
        let ghost s = self@;
        match val {
            Some(key) => {
                let next = match &self.strand[self.pos] {
                    Logic::KeyMatch(_, m) => m.get_strand_key(key),
                    Logic::OkErr(_, _) => {
                        proof {
                            assert(s.strand[s.pos] is OkErr);
                        }
                        String::new()
                    },
                };
                Self::advance(Self::get_strand(next), 0)
            },
            None => {
                let arg = match &self.strand[self.pos] {
                    Logic::KeyMatch(a, _) => a.clone(),
                    Logic::OkErr(a, _) => a.clone(),
                };
                let err = Bootstrap::spec_rule_error(
                    Bootstrap::arg_rule_key_arg_must_exist(),
                    arg,
                    "euG3S9MfQQmlRe6B".to_owned(),
                    "strand.rs".to_owned(),
                    "strand.rs".to_owned(),
                );
                (Ribosome { strand: self.strand, pos: self.pos, phase: Phase::Done }, LogicOutComm::LogicErr(err))
            },
        }
    }
}

} // verus!
