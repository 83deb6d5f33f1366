use vstd::prelude::*;

pub mod json;
pub mod json_text;
pub mod jah_args;
pub mod bootstrap;
pub mod jah_spec;
pub mod must;
pub mod must_order;
pub mod fit;
pub mod strand;
pub mod par;
pub mod parts;
pub mod jah_mut;
pub mod transcriptor;
pub mod fits;
pub mod stately;
pub mod err_fit;
pub mod lurker;
pub mod must_bank;

verus! {
}
