//! The MustBank takes requests to transcribe args along a strand.  Each
//! request gets a new Must that names its transcription, and is answered
//! with that Must at once; the transcription runs on and says good-by when
//! it is done.  On release the bank waits for every transcription still
//! running, then releases the state server and the Pars, and then
//! acknowledges.  The channels are run around this module; here are the
//! bank's decisions and its count of running transcriptions.
use vstd::prelude::*;
use crate::json::JsonObject;
use crate::bootstrap::{Bootstrap, objs_view, err_fit_key_v, doc_slice_prep_key_v, file_append_slice_key_v,
    file_get_slice_key_v, stately_tester_key_v};
use crate::fit::{FitArgs, FitErrs, errs_text};
use crate::must::{Must, must_obj_v};

verus! {

/// The bank and the number of transcriptions that have not said good-by.
pub struct MustBank {
    t_count: usize,
    released: bool,
}

/// The Pars that the bank loads, in order: each Fit's key, with a cap of
/// twenty concurrent calls.
pub open spec fn parts_plan_v() -> Seq<(Seq<char>, nat)> {
    seq![
        (err_fit_key_v(), 20nat),
        (doc_slice_prep_key_v(), 20nat),
        (file_append_slice_key_v(), 20nat),
        (file_get_slice_key_v(), 20nat),
        (stately_tester_key_v(), 20nat),
    ]
}

impl MustBank {
    /// A bank with no transcription running.
    pub fn connect() -> (r: MustBank)
        ensures
            r.count() == 0,
            !r.is_released(),
    {
        MustBank { t_count: 0, released: false }
    }

    /// The number of transcriptions that have not said good-by.
    pub closed spec fn count(&self) -> nat {
        self.t_count as nat
    }

    /// The number of transcriptions that have not said good-by.
    pub fn t_count(&self) -> (r: usize)
        ensures
            r == self.count(),
    {
        self.t_count
    }

    /// Whether the bank was released.
    pub closed spec fn is_released(&self) -> bool {
        self.released
    }

    /// The Pars to load at startup, in order.
    pub fn load_parts() -> (r: Vec<(String, usize)>)
        ensures
            r@.len() == parts_plan_v().len(),
            forall|i: int| 0 <= i < r@.len() ==> #[trigger] r@[i].0@ == parts_plan_v()[i].0 && r@[i].1 == parts_plan_v()[i].1,
    {
        let mut v: Vec<(String, usize)> = Vec::new();
        v.push((Bootstrap::err_fit_key(), 20));
        v.push((Bootstrap::doc_slice_prep_key(), 20));
        v.push((Bootstrap::file_append_slice_key(), 20));
        v.push((Bootstrap::file_get_slice_key(), 20));
        v.push((Bootstrap::stately_tester_key(), 20));
        v
    }

    /// What to take next, given whether a request and a good-by are waiting:
    /// with no transcription running the bank waits for a request; else it
    /// takes whatever is waiting.  It never waits for a good-by that no
    /// transcription owes.
    pub fn to_do(&self, trans_ready: bool, goodby_ready: bool) -> (r: (bool, bool))
        ensures
            self.count() == 0 ==> r == (true, false),
            self.count() > 0 ==> r == (trans_ready, goodby_ready),
            r.1 ==> self.count() > 0,
    {
        if self.t_count == 0 {
            (true, false)
        } else {
            (trans_ready, goodby_ready)
        }
    }

    /// A request was taken and its transcription started as `t_key`: one
    /// more runs, and the requester gets the Must's document.
    pub fn on_transcript(&mut self, t_key: &Must) -> (r: JsonObject)
        requires
            old(self).count() < usize::MAX,
            !old(self).is_released(),
        ensures
            final(self).count() == old(self).count() + 1,
            !final(self).is_released(),
            r@ == must_obj_v(t_key@),
    {
        self.t_count = self.t_count + 1;
        t_key.to_obj()
    }

    /// A transcription said good-by with `outcome`: one fewer runs, and the
    /// errors it ended in (if any) are given as text to show.
    pub fn on_goodby(&mut self, outcome: &Result<FitArgs, FitErrs>) -> (r: Option<String>)
        requires
            old(self).count() > 0,
        ensures
            final(self).count() == old(self).count() - 1,
            final(self).is_released() == old(self).is_released(),
            match outcome {
                Ok(_) => r is None,
                Err(fe) => r matches Some(t) && t@ == errs_text(objs_view(fe.errs@)),
            },
    {
        self.t_count = self.t_count - 1;
        match outcome {
            Ok(_) => None,
            Err(fit_errs) => Some(fit_errs.to_str()),
        }
    }

    /// The bank is released: the steps that follow, in order.  It takes the
    /// good-by of every transcription still running, then releases the
    /// state server, then the Pars, and only then acknowledges the release.
    pub fn on_release(&mut self) -> (r: Vec<ReleaseStep>)
        ensures
            r@ == release_plan_v(old(self).count()),
            final(self).count() == 0,
            final(self).is_released(),
    {
        let n = self.t_count;
        let mut plan: Vec<ReleaseStep> = Vec::new();
        let mut i: usize = 0;
        while i < n
            invariant
                i <= n,
                plan@ == Seq::new(i as nat, |j: int| ReleaseStep::TakeGoodby),
            decreases n - i,
        {
            plan.push(ReleaseStep::TakeGoodby);
            i = i + 1;
            assert(plan@ =~= Seq::new(i as nat, |j: int| ReleaseStep::TakeGoodby));
        }
        plan.push(ReleaseStep::ReleaseStately);
        plan.push(ReleaseStep::ReleaseParts);
        plan.push(ReleaseStep::Ack);
        assert(plan@ =~= release_plan_v(n as nat));
        self.t_count = 0;
        self.released = true;
        plan
    }
}

/// One step of releasing the bank.
#[derive(PartialEq, Eq, Structural, Debug, Clone, Copy)]
pub enum ReleaseStep {
    /// Take the good-by of one transcription still running.
    TakeGoodby,
    /// Release the state server.
    ReleaseStately,
    /// Release the Pars, and wait until they are released.
    ReleaseParts,
    /// Acknowledge the release to whoever asked for it.
    Ack,
}

/// The steps of a release with `n` transcriptions still running.
pub open spec fn release_plan_v(n: nat) -> Seq<ReleaseStep> {
    Seq::new(n, |i: int| ReleaseStep::TakeGoodby) + seq![
        ReleaseStep::ReleaseStately,
        ReleaseStep::ReleaseParts,
        ReleaseStep::Ack,
    ]
}

/// A release takes every good-by still owed before anything is released;
/// the state server goes before the Pars, and the acknowledgement comes
/// last, once, after all of them.
pub proof fn lemma_release_order(n: nat)
    ensures
        release_plan_v(n).len() == n + 3,
        forall|i: int| 0 <= i < n ==> #[trigger] release_plan_v(n)[i] == ReleaseStep::TakeGoodby,
        release_plan_v(n)[n as int] == ReleaseStep::ReleaseStately,
        release_plan_v(n)[n + 1int] == ReleaseStep::ReleaseParts,
        release_plan_v(n)[n + 2int] == ReleaseStep::Ack,
        forall|i: int| 0 <= i < n + 2 ==> #[trigger] release_plan_v(n)[i] != ReleaseStep::Ack,
{
}

} // verus!
