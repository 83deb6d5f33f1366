//! ParTs: where live Pars (reached through a handle, such as a channel) are
//! registered under their keys and looked up.  T is for terminal; say it
//! "part".  The task that serves the registry runs around this module; here
//! are its decisions.
use vstd::prelude::*;
use crate::fit::FitErrs;
use crate::bootstrap::{Bootstrap, objs_view, logic_error_v, reply_error_trace_info_v,
    part_key_added_twice_key_v, part_does_not_exist_v};
use crate::jah_spec::Errs;

verus! {

/// The registered Pars, by key.
pub struct ParTs<C> {
    parts: Vec<(String, C)>,
}

pub open spec fn names_of<C>(s: Seq<(Seq<char>, C)>) -> Seq<Seq<char>> {
    Seq::new(s.len(), |i: int| s[i].0)
}

pub open spec fn registered<C>(s: Seq<(Seq<char>, C)>, k: Seq<char>) -> bool {
    exists|i: int| 0 <= i < s.len() && #[trigger] s[i].0 == k
}

/// The error for a key that is registered already.
pub open spec fn added_twice_v() -> Errs {
    seq![logic_error_v(part_key_added_twice_key_v(), "reg_key"@, "b2eXWGdcdmEgc5Tu"@, "parts.rs"@)]
}

/// The error for a key that names no Par.
pub open spec fn missing_part_v(k: Seq<char>) -> Errs {
    seq![logic_error_v(part_does_not_exist_v(), k, "Q5jmEpjJ4yNzywjv"@, "parts.rs"@)]
}

impl<C> ParTs<C> {
    /// The registrations, in order.
    pub closed spec fn entries(&self) -> Seq<(Seq<char>, C)> {
        Seq::new(self.parts@.len(), |i: int| (self.parts@[i].0@, self.parts@[i].1))
    }

    #[verifier::type_invariant]
    spec fn keys_distinct(self) -> bool {
        forall|i: int, j: int|
            0 <= i < self.parts@.len() && 0 <= j < self.parts@.len() && i != j
                ==> #[trigger] self.parts@[i].0@ != #[trigger] self.parts@[j].0@
    }

    /// An empty registry.
    pub fn connect() -> (r: ParTs<C>)
        ensures
            r.entries().len() == 0,
    {
        ParTs { parts: Vec::new() }
    }

    fn find(&self, reg_key: &String) -> (r: Option<usize>)
        ensures
            r is None <==> !registered(self.entries(), reg_key@),
            r matches Some(i) ==> i < self.entries().len() && self.entries()[i as int].0 == reg_key@,
    {
        let mut i: usize = 0;
        while i < self.parts.len()
            invariant
                i <= self.parts@.len(),
                forall|j: int| 0 <= j < i ==> #[trigger] self.parts@[j].0@ != reg_key@,
            decreases self.parts@.len() - i,
        {
            if self.parts[i].0 == *reg_key {
                assert(self.entries()[i as int].0 == reg_key@);
                return Some(i);
            }
            i = i + 1;
        }
        proof {
            if registered(self.entries(), reg_key@) {
                let j = choose|j: int| 0 <= j < self.entries().len() && #[trigger] self.entries()[j].0 == reg_key@;
                assert(self.parts@[j].0@ == reg_key@);
            }
        }
        None
    }

    /// Registers the Par that `par` connected, under `reg_key`.  A failed
    /// connection passes its errors on with trace info; a key registered
    /// already is refused and the registry does not change.
    pub fn add_part(&mut self, reg_key: String, par: Result<C, FitErrs>) -> (r: Result<bool, FitErrs>)
        ensures
            match par {
                Err(e) => r matches Err(es) && objs_view(es.errs@) == seq![reply_error_trace_info_v("parts.rs"@, "seGs8AWBelJ7C4cD"@)] + objs_view(e.errs@)
                    && final(self).entries() == old(self).entries(),
                Ok(c) => if registered(old(self).entries(), reg_key@) {
                    r matches Err(es) && objs_view(es.errs@) == added_twice_v() && final(self).entries() == old(self).entries()
                } else {
                    r == Ok::<bool, FitErrs>(true) && final(self).entries() == old(self).entries().push((reg_key@, c))
                },
            },
    {
        proof {
            use_type_invariant(&*self);
        }
        match par {
            Ok(chan) => {
                if self.find(&reg_key).is_none() {
                    let ghost old_e = self.entries();
                    let ghost k = reg_key@;
                    let mut p: Vec<(String, C)> = Vec::new();
                    std::mem::swap(&mut p, &mut self.parts);
                    p.push((reg_key, chan));
                    proof {
                        assert forall|i: int, j: int|
                            0 <= i < p@.len() && 0 <= j < p@.len() && i != j implies #[trigger] p@[i].0@ != #[trigger] p@[j].0@ by {
                            if i == p@.len() - 1 {
                                assert(old_e[j].0 == p@[j].0@);
                            } else if j == p@.len() - 1 {
                                assert(old_e[i].0 == p@[i].0@);
                            }
                        }
                    }
                    self.parts = p;
                    assert(self.entries() =~= old_e.push((k, chan)));
                    Ok(true)
                } else {
                    let e = Bootstrap::logic_error(
                        Bootstrap::part_key_added_twice_key(),
                        "reg_key".to_owned(),
                        "b2eXWGdcdmEgc5Tu".to_owned(),
                        "parts.rs".to_owned(),
                    );
                    Err(FitErrs::from_object(e))
                }
            },
            Err(error) => Err(error.prepend_err(Bootstrap::reply_error_trace_info("parts.rs".to_owned(), "seGs8AWBelJ7C4cD".to_owned()))),
        }
    }

    /// The Par registered under `reg_key`, or the error for a missing one.
    pub fn get_part(&self, reg_key: &String) -> (r: Result<&C, FitErrs>)
        ensures
            match r {
                Ok(c) => exists|i: int| 0 <= i < self.entries().len() && #[trigger] self.entries()[i] == (reg_key@, *c),
                Err(es) => !registered(self.entries(), reg_key@) && objs_view(es.errs@) == missing_part_v(reg_key@),
            },
    {
        match self.find(reg_key) {
            Some(i) => {
                assert(self.entries()[i as int] == (reg_key@, self.parts@[i as int].1));
                Ok(&self.parts[i].1)
            },
            None => Err(FitErrs::from_object(Bootstrap::logic_error(
                Bootstrap::part_does_not_exist(),
                reg_key.clone(),
                "Q5jmEpjJ4yNzywjv".to_owned(),
                "parts.rs".to_owned(),
            ))),
        }
    }

    /// Takes all the registrations out, leaving the registry empty; the
    /// caller releases each Par.
    pub fn release(&mut self) -> (r: Vec<(String, C)>)
        ensures
            final(self).entries().len() == 0,
            Seq::new(r@.len(), |i: int| (r@[i].0@, r@[i].1)) == old(self).entries(),
    {
        let mut p: Vec<(String, C)> = Vec::new();
        std::mem::swap(&mut p, &mut self.parts);
        assert(Seq::new(p@.len(), |i: int| (p@[i].0@, p@[i].1)) =~= old(self).entries());
        p
    }
}

/// What registering and looking up promise together: once a Par is
/// registered under a key, looking the key up finds that Par, and a second
/// registration under the key is refused.
pub proof fn lemma_registered_is_found<C>(s: Seq<(Seq<char>, C)>, k: Seq<char>, c: C)
    requires
        !registered(s, k),
    ensures
        registered(s.push((k, c)), k),
        forall|i: int| 0 <= i < s.push((k, c)).len() && #[trigger] s.push((k, c))[i].0 == k ==> s.push((k, c))[i].1 == c,
{
    assert(s.push((k, c))[s.len() as int].0 == k);
    assert forall|i: int| 0 <= i < s.push((k, c)).len() && #[trigger] s.push((k, c))[i].0 == k implies s.push((k, c))[i].1 == c by {
        if i < s.len() {
            assert(s[i].0 == k);
        }
    }
}

} // verus!
