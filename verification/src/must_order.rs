//! `==` and `<` on Musts.
use vstd::prelude::*;
use vstd::std_specs::cmp::{PartialEqSpecImpl, PartialOrdSpecImpl};
use crate::must::{Must, MustV, must_eq, must_lt, text_lt, dictionary_before, lemma_keys_ascending_newest_first};
use crate::json_text::string_chars;
use std::cmp::Ordering;

verus! {

/// Whether `a` sorts before `b`, character by character.
fn text_less(a: &String, b: &String) -> (r: bool)
    ensures
        r == text_lt(a@, b@),
{
    let x = string_chars(a);
    let y = string_chars(b);
    let mut i: usize = 0;
    assert(x@.skip(0) =~= x@);
    assert(y@.skip(0) =~= y@);
    while i < x.len() && i < y.len() && x[i] == y[i]
        invariant
            x@ == a@,
            y@ == b@,
            i <= x@.len(),
            i <= y@.len(),
            text_lt(a@, b@) == text_lt(x@.skip(i as int), y@.skip(i as int)),
        decreases x@.len() - i,
    {
        assert(x@.skip(i as int).drop_first() =~= x@.skip(i + 1));
        assert(y@.skip(i as int).drop_first() =~= y@.skip(i + 1));
        i = i + 1;
    }
    let ghost xs = x@.skip(i as int);
    let ghost ys = y@.skip(i as int);
    if i == x.len() {
        assert(xs.len() == 0);
        i < y.len()
    } else if i == y.len() {
        false
    } else {
        assert(xs[0] == x@[i as int] && ys[0] == y@[i as int]);
        x[i] < y[i]
    }
}

/// The order of two Musts, as an `Ordering`.
pub open spec fn must_ordering(a: MustV, b: MustV) -> Ordering {
    if must_lt(a, b) {
        Ordering::Less
    } else if must_eq(a, b) {
        Ordering::Equal
    } else {
        Ordering::Greater
    }
}

/// How `<`, `==` and `>` compare two Musts: keys ascending in dictionary
/// order of character codes; under one key the newest version first; equal
/// exactly when key and time stamp are.
pub proof fn lemma_must_comparison(a: MustV, b: MustV)
    ensures
        (must_ordering(a, b) == Ordering::Less) <==> (
            (a.key != b.key && dictionary_before(a.key, b.key))
            || (a.key == b.key && (a.sec > b.sec || (a.sec == b.sec && a.nsec > b.nsec)))),
        (must_ordering(a, b) == Ordering::Equal) <==> (a.key == b.key && a.sec == b.sec && a.nsec == b.nsec),
        (must_ordering(a, b) == Ordering::Greater) <==> (must_ordering(b, a) == Ordering::Less),
{
    lemma_keys_ascending_newest_first(a, b);
    lemma_keys_ascending_newest_first(b, a);
    crate::must::lemma_must_order(a, b, a);
    crate::must::lemma_must_order(b, a, b);
}

impl PartialEq for Must {
    fn eq(&self, other: &Must) -> (r: bool) {
        self.key == other.key && self.sec == other.sec && self.nsec == other.nsec
    }
}

impl PartialEqSpecImpl for Must {
    open spec fn obeys_eq_spec() -> bool {
        true
    }

    open spec fn eq_spec(&self, other: &Must) -> bool {
        must_eq(self@, other@)
    }
}

impl PartialOrd for Must {
    fn partial_cmp(&self, other: &Must) -> (r: Option<Ordering>) {
        let lt = if self.key != other.key {
            text_less(&self.key, &other.key)
        } else if self.sec != other.sec {
            self.sec > other.sec
        } else {
            self.nsec > other.nsec
        };
        if lt {
            Some(Ordering::Less)
        } else if self.key == other.key && self.sec == other.sec && self.nsec == other.nsec {
            Some(Ordering::Equal)
        } else {
            Some(Ordering::Greater)
        }
    }
}

impl PartialOrdSpecImpl for Must {
    open spec fn obeys_partial_cmp_spec() -> bool {
        true
    }

    open spec fn partial_cmp_spec(&self, other: &Must) -> Option<Ordering> {
        Some(must_ordering(self@, other@))
    }
}

} // verus!
