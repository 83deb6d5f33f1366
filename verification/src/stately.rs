//! The state server: a Fit that needs another strand walked before it can
//! go on hands the server its args, a strand and some state; the server
//! runs a transcription along that strand and comes back with the result
//! (or with the news that it was lost to an error) and the state, untouched.
//! The transcriptions run around this module; here are the server's
//! decisions.
use vstd::prelude::*;
use crate::fit::{FitArgs, FitErrs, errs_text};
use crate::bootstrap::objs_view;
use crate::must::Must;

verus! {

/// A request to the state server.
pub enum LoopOutComm {
    /// Walk the strand `strand_key` with `args` as transcription `t_key`,
    /// then come back with the outcome and `state`.
    DoAndComeback(FitArgs, String, Must, Option<FitArgs>),
    /// Stop serving.
    StatelyRelease,
}

/// What the server comes back with.
pub enum LoopInComm {
    /// The strand was walked: its result, and the state.
    ComebackOk(FitArgs, Option<FitArgs>),
    /// The strand ended in errors: the state.
    LostToErr(Option<FitArgs>),
}

/// One transcription to run and come back from.
pub struct ComebackJob {
    pub args: FitArgs,
    pub strand_key: String,
    pub t_key: Must,
    pub state: Option<FitArgs>,
}

/// The state server.
pub struct StateServ {
    released: bool,
}

impl StateServ {
    /// A server ready for requests.
    pub fn connect() -> (r: StateServ)
        ensures
            !r.is_released(),
    {
        StateServ { released: false }
    }

    /// Whether the server has stopped.
    pub closed spec fn is_released(&self) -> bool {
        self.released
    }

    /// Takes one request: a transcription to run, or the order to stop.
    pub fn go(&mut self, msg: LoopOutComm) -> (r: Option<ComebackJob>)
        requires
            !old(self).is_released(),
        ensures
            match msg {
                LoopOutComm::DoAndComeback(args, strand_key, t_key, state) => {
                    &&& r matches Some(job) && job.args == args && job.strand_key == strand_key && job.t_key == t_key
                        && job.state == state
                    &&& !final(self).is_released()
                },
                LoopOutComm::StatelyRelease => r is None && final(self).is_released(),
            },
    {
        match msg {
            LoopOutComm::DoAndComeback(args, strand_key, t_key, state) => Some(ComebackJob { args, strand_key, t_key, state }),
            LoopOutComm::StatelyRelease => {
                self.released = true;
                None
            },
        }
    }

    /// The comeback for a transcription that ended with `outcome`: its
    /// result and the state, or only the state where it was lost to errors,
    /// with the text of those errors to show.
    pub fn do_comeback(outcome: Result<FitArgs, FitErrs>, state: Option<FitArgs>) -> (r: (LoopInComm, Option<String>))
        ensures
            match outcome {
                Ok(fa) => r.0 == LoopInComm::ComebackOk(fa, state) && r.1 is None,
                Err(fe) => r.0 == LoopInComm::LostToErr(state) && (r.1 matches Some(t) && t@ == errs_text(objs_view(fe.errs@))),
            },
    {
        match outcome {
            Ok(fit_args) => (LoopInComm::ComebackOk(fit_args, state), None),
            Err(fit_errs) => {
                let text = fit_errs.to_str();
                (LoopInComm::LostToErr(state), Some(text))
            },
        }
    }
}

} // verus!
