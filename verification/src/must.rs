//! Must keys: a random, server assigned, case sensitive alphanumeric key
//! plus the UTC time stamp that tells apart the versions of a document saved
//! under that key.
use vstd::prelude::*;
use crate::json::{Json, JsonObject, JsonV, obj_insert};
use crate::jah_args::{JahArgs, GetArgErrorType, Args, str_arg, num_arg};
use crate::bootstrap::{
    Bootstrap, objs_view, spec_rule_error_v, spec_must_must_key_v, arg_rule_key_arg_must_exist_v,
    arg_rule_key_arg_key_must_be_string_v, arg_rule_arg_key_arg_must_be_number_v,
    arg_rule_key_arg_must_be_object_v,
};
use crate::jah_spec::Errs;
use crate::json_text::int_text;
use rand::distributions::{Alphanumeric, DistString};
use std::time::{Duration, SystemTime, SystemTimeError};

verus! {

/// A document key and the time stamp of one version of the document.
pub struct Must {
    /// The random alphanumeric key.
    pub key: String,
    /// Seconds since the epoch, UTC, when the version was stamped.
    pub sec: i64,
    /// Nanoseconds past `sec`.
    pub nsec: i32,
}

/// The mathematical value of a Must.
pub struct MustV {
    pub key: Seq<char>,
    pub sec: int,
    pub nsec: int,
}

impl View for Must {
    type V = MustV;

    open spec fn view(&self) -> MustV {
        MustV { key: self.key@, sec: self.sec as int, nsec: self.nsec as int }
    }
}

pub open spec fn is_alphanumeric(c: char) -> bool {
    ('0' <= c && c <= '9') || ('A' <= c && c <= 'Z') || ('a' <= c && c <= 'z')
}

/// The JSON form of a Must: an object with `key`, `sec` and `nsec`.
pub open spec fn must_obj_v(m: MustV) -> Args {
    obj_insert(
        obj_insert(obj_insert(Seq::empty(), "key"@, JsonV::Str(m.key)), "sec"@, JsonV::Number(m.sec)),
        "nsec"@,
        JsonV::Number(m.nsec),
    )
}

/// A number as the `i32` it is stored in: out of range values saturate.
pub open spec fn saturate_i32(n: int) -> int {
    if n > i32::MAX {
        i32::MAX as int
    } else if n < i32::MIN {
        i32::MIN as int
    } else {
        n
    }
}

pub open spec fn must_err(rk: Seq<char>, arg: &str, line: &str) -> Errs {
    seq![spec_rule_error_v(rk, arg@, spec_must_must_key_v(), line@, "must.rs"@)]
}

/// The Must that a JSON object describes, or why it describes none.
pub open spec fn from_obj_v(o: Args) -> Result<MustV, Errs> {
    match str_arg(o, "key"@) {
        Err(GetArgErrorType::MissingKey) => Err(must_err(arg_rule_key_arg_must_exist_v(), "key", "ziVrdrQE6xeIjDLj")),
        Err(GetArgErrorType::WrongDataType) => Err(must_err(arg_rule_key_arg_key_must_be_string_v(), "key", "dtmIT0qQ2170Eohm")),
        Ok(key) => match num_arg(o, "sec"@) {
            Err(GetArgErrorType::MissingKey) => Err(must_err(arg_rule_key_arg_must_exist_v(), "sec", "xSHex3PgO1VFrm5d")),
            Err(GetArgErrorType::WrongDataType) => Err(must_err(arg_rule_arg_key_arg_must_be_number_v(), "sec", "WDmdBc78ERtcJaZC")),
            Ok(sec) => match num_arg(o, "nsec"@) {
                Err(GetArgErrorType::MissingKey) => Err(must_err(arg_rule_key_arg_must_exist_v(), "nsec", "2k5bXat4lBIhehIt")),
                Err(GetArgErrorType::WrongDataType) => Err(must_err(arg_rule_arg_key_arg_must_be_number_v(), "nsec", "nbON1bWP9U4NWFf7")),
                Ok(nsec) => Ok(MustV { key, sec, nsec: saturate_i32(nsec) }),
            },
        },
    }
}

/// The Must that a JSON value describes, or why it describes none.
pub open spec fn from_json_v(j: JsonV) -> Result<MustV, Errs> {
    match j {
        JsonV::Object(o) => from_obj_v(o),
        _ => Err(must_err(arg_rule_key_arg_must_be_object_v(), "must", "Q7wOoPiMNJ6xgqL1")),
    }
}

/// The text form of a Must: its key, seconds and nanoseconds in decimal,
/// joined by hyphens.
pub open spec fn must_text(m: MustV) -> Seq<char> {
    m.key + seq!['-'] + int_text(m.sec) + seq!['-'] + int_text(m.nsec)
}

/// Two Musts are equal when their keys and time stamps are.
pub open spec fn must_eq(a: MustV, b: MustV) -> bool {
    a.key == b.key && a.sec == b.sec && a.nsec == b.nsec
}

/// Lexicographic order of strings, by code point.
pub open spec fn text_lt(a: Seq<char>, b: Seq<char>) -> bool
    decreases a.len(),
{
    if a.len() == 0 {
        b.len() > 0
    } else if b.len() == 0 {
        false
    } else if a[0] != b[0] {
        a[0] < b[0]
    } else {
        text_lt(a.drop_first(), b.drop_first())
    }
}

/// The order of Musts: keys sort ascending; under one key the most recent
/// version comes first.
pub open spec fn must_lt(a: MustV, b: MustV) -> bool {
    if a.key != b.key {
        text_lt(a.key, b.key)
    } else if a.sec != b.sec {
        a.sec > b.sec
    } else {
        a.nsec > b.nsec
    }
}

// ---------------------------------------------------------------------------
// Laws of the order
// ---------------------------------------------------------------------------

proof fn lemma_text_lt_irreflexive(a: Seq<char>)
    ensures
        !text_lt(a, a),
    decreases a.len(),
{
    if a.len() > 0 {
        lemma_text_lt_irreflexive(a.drop_first());
    }
}

proof fn lemma_text_lt_transitive(a: Seq<char>, b: Seq<char>, c: Seq<char>)
    requires
        text_lt(a, b),
        text_lt(b, c),
    ensures
        text_lt(a, c),
    decreases a.len(),
{
    if a.len() > 0 && b.len() > 0 && c.len() > 0 {
        if a[0] == b[0] && b[0] == c[0] {
            lemma_text_lt_transitive(a.drop_first(), b.drop_first(), c.drop_first());
        }
    }
}

proof fn lemma_text_lt_total(a: Seq<char>, b: Seq<char>)
    requires
        a != b,
    ensures
        text_lt(a, b) || text_lt(b, a),
    decreases a.len(),
{
    if a.len() > 0 && b.len() > 0 && a[0] == b[0] {
        if a.drop_first() == b.drop_first() {
            assert(a =~= seq![a[0]] + a.drop_first());
            assert(b =~= seq![b[0]] + b.drop_first());
        }
        lemma_text_lt_total(a.drop_first(), b.drop_first());
    } else if a.len() > 0 && b.len() > 0 {
    } else if a.len() == 0 && b.len() == 0 {
        assert(a =~= b);
    }
}

proof fn lemma_text_lt_asymmetric(a: Seq<char>, b: Seq<char>)
    requires
        text_lt(a, b),
    ensures
        !text_lt(b, a),
    decreases a.len(),
{
    if a.len() > 0 && b.len() > 0 && a[0] == b[0] {
        lemma_text_lt_asymmetric(a.drop_first(), b.drop_first());
    }
}

/// Musts are strictly and totally ordered: no Must comes before itself,
/// the order is transitive, and of two Musts exactly one comes first,
/// unless they are equal.
pub proof fn lemma_must_order(a: MustV, b: MustV, c: MustV)
    ensures
        !must_lt(a, a),
        must_lt(a, b) && must_lt(b, c) ==> must_lt(a, c),
        must_lt(a, b) ==> !must_lt(b, a),
        must_eq(a, b) || must_lt(a, b) || must_lt(b, a),
{
    lemma_text_lt_irreflexive(a.key);
    if must_lt(a, b) && must_lt(b, c) {
        if a.key != b.key && b.key != c.key {
            lemma_text_lt_transitive(a.key, b.key, c.key);
            if a.key == c.key {
                lemma_text_lt_asymmetric(a.key, b.key);
            }
        } else if a.key != b.key {
            if a.key == c.key {
                lemma_text_lt_asymmetric(a.key, b.key);
            }
        } else if b.key != c.key {
        }
    }
    if must_lt(a, b) && a.key != b.key {
        lemma_text_lt_asymmetric(a.key, b.key);
    }
    if a.key != b.key {
        lemma_text_lt_total(a.key, b.key);
    }
}

/// Of two versions stamped under one key, the later one comes first.
pub proof fn lemma_newer_first(a: MustV, b: MustV)
    requires
        a.key == b.key,
        a.sec > b.sec || (a.sec == b.sec && a.nsec > b.nsec),
    ensures
        must_lt(a, b),
        !must_lt(b, a),
{
}

/// `a` comes before `b` in dictionary order by character code: at the
/// first place where they differ `a` has the smaller character, or `a` is
/// a proper prefix of `b`.
pub open spec fn dictionary_before(a: Seq<char>, b: Seq<char>) -> bool {
    ||| exists|i: int| 0 <= i < a.len() && i < b.len() && a.take(i) == b.take(i) && #[trigger] a[i] < #[trigger] b[i]
    ||| (a.len() < b.len() && a == b.take(a.len() as int))
}

proof fn lemma_text_lt_is_dictionary_order(a: Seq<char>, b: Seq<char>)
    ensures
        text_lt(a, b) <==> dictionary_before(a, b),
    decreases a.len(),
{
    if a.len() == 0 {
        assert(a =~= b.take(0));
    } else if b.len() == 0 {
    } else if a[0] != b[0] {
        if a[0] < b[0] {
            assert(a.take(0) =~= b.take(0));
            assert(a[0] < b[0]);
        }
        if exists|i: int| 0 <= i < a.len() && i < b.len() && a.take(i) == b.take(i) && #[trigger] a[i] < #[trigger] b[i] {
            let i = choose|i: int| 0 <= i < a.len() && i < b.len() && a.take(i) == b.take(i) && #[trigger] a[i] < #[trigger] b[i];
            if i > 0 {
                assert(a.take(i)[0] == b.take(i)[0]);
            }
        }
        if a.len() < b.len() && a == b.take(a.len() as int) {
            assert(a[0] == b.take(a.len() as int)[0]);
        }
    } else {
        let a1 = a.drop_first();
        let b1 = b.drop_first();
        lemma_text_lt_is_dictionary_order(a1, b1);
        if dictionary_before(a1, b1) {
            if exists|i: int| 0 <= i < a1.len() && i < b1.len() && a1.take(i) == b1.take(i) && #[trigger] a1[i] < #[trigger] b1[i] {
                let i = choose|i: int| 0 <= i < a1.len() && i < b1.len() && a1.take(i) == b1.take(i) && #[trigger] a1[i] < #[trigger] b1[i];
                assert(a.take(i + 1) =~= seq![a[0]] + a1.take(i));
                assert(b.take(i + 1) =~= seq![b[0]] + b1.take(i));
                assert(a[i + 1] == a1[i] && b[i + 1] == b1[i]);
            } else {
                assert(a =~= seq![a[0]] + a1);
                assert(b.take(a.len() as int) =~= seq![b[0]] + b1.take(a1.len() as int));
            }
        }
        if dictionary_before(a, b) {
            if exists|i: int| 0 <= i < a.len() && i < b.len() && a.take(i) == b.take(i) && #[trigger] a[i] < #[trigger] b[i] {
                let i = choose|i: int| 0 <= i < a.len() && i < b.len() && a.take(i) == b.take(i) && #[trigger] a[i] < #[trigger] b[i];
                assert(i > 0);
                assert(a1.take(i - 1) =~= a.take(i).drop_first());
                assert(b1.take(i - 1) =~= b.take(i).drop_first());
                assert(a1[i - 1] == a[i] && b1[i - 1] == b[i]);
            } else {
                assert(a1 =~= b.take(a.len() as int).drop_first());
                assert(b1.take(a1.len() as int) =~= b.take(a.len() as int).drop_first());
            }
        }
    }
}

/// The order of Musts, over all Musts: Musts with different keys sort by
/// key in dictionary order of character codes (`"a1…"` before `"aB…"`, a
/// key before its extensions); under one key the most recent version comes
/// first; a Must is never before itself.
pub proof fn lemma_keys_ascending_newest_first(a: MustV, b: MustV)
    ensures
        a.key != b.key ==> (must_lt(a, b) <==> dictionary_before(a.key, b.key)),
        a.key == b.key ==> (must_lt(a, b) <==> (a.sec > b.sec || (a.sec == b.sec && a.nsec > b.nsec))),
        !must_lt(a, a),
{
    lemma_text_lt_is_dictionary_order(a.key, b.key);
    lemma_text_lt_irreflexive(a.key);
}

/// Reading back the JSON form of a Must gives the same Must.
pub proof fn lemma_json_round_trip(m: Must)
    ensures
        from_json_v(JsonV::Object(must_obj_v(m@))) == Ok::<MustV, Errs>(m@),
{
    reveal_strlit("key");
    reveal_strlit("sec");
    reveal_strlit("nsec");
    let o = must_obj_v(m@);
    let o1 = obj_insert(Seq::empty(), "key"@, JsonV::Str(m@.key));
    let o2 = obj_insert(o1, "sec"@, JsonV::Number(m@.sec));
    assert(o1 =~= seq![("key"@, JsonV::Str(m@.key))]);
    assert("key"@[0] != "sec"@[0]);
    assert("key"@ != "sec"@);
    assert("key"@[0] != "nsec"@[0]);
    assert("key"@ != "nsec"@);
    assert("sec"@ != "nsec"@);
    assert(!crate::json::has_key(o1, "sec"@));
    assert(o2 =~= seq![("key"@, JsonV::Str(m@.key)), ("sec"@, JsonV::Number(m@.sec))]);
    assert(!crate::json::has_key(o2, "nsec"@));
    assert(o =~= seq![("key"@, JsonV::Str(m@.key)), ("sec"@, JsonV::Number(m@.sec)), ("nsec"@, JsonV::Number(m@.nsec))]);
    crate::json::lemma_key_index(o, "key"@, 0);
    crate::json::lemma_key_index(o, "sec"@, 1);
    crate::json::lemma_key_index(o, "nsec"@, 2);
}

// ---------------------------------------------------------------------------
// Outside work: randomness and the clock
// ---------------------------------------------------------------------------

/// Declares `std::time::SystemTime`.
#[verifier::external_type_specification]
#[verifier::external_body]
pub struct ExSystemTime(SystemTime);

/// Declares `std::time::SystemTimeError`.
#[verifier::external_type_specification]
#[verifier::external_body]
pub struct ExSystemTimeError(SystemTimeError);

/// `rand`'s `Alphanumeric.sample_string` on the thread-local generator: a
/// string of `len` characters, each drawn from `A-Z`, `a-z` and `0-9`.
/// Which characters come is chance and is not stated.
#[verifier::external_body]
fn random_alphanumeric(len: usize) -> (r: String)
    ensures
        r@.len() == len,
        forall|i: int| 0 <= i < r@.len() ==> is_alphanumeric(#[trigger] r@[i]),
{
    Alphanumeric.sample_string(&mut rand::thread_rng(), len)
}

/// `SystemTime::now`: the current time of the system clock, of which
/// nothing is stated.
#[verifier::external_body]
fn system_now() -> SystemTime {
    SystemTime::now()
}

/// `SystemTime::duration_since(UNIX_EPOCH)`: how long after the epoch `t`
/// is, or an error where it is before; nothing more is stated.
#[verifier::external_body]
fn since_epoch(t: &SystemTime) -> Result<Duration, SystemTimeError> {
    t.duration_since(std::time::UNIX_EPOCH)
}

/// `SystemTimeError::duration`: how far before the epoch the clock stood,
/// of which nothing is stated here.
#[verifier::external_body]
fn error_duration(e: &SystemTimeError) -> Duration {
    e.duration()
}

/// `Duration::as_secs`: the whole seconds of `d`, of which nothing is stated
/// here.
#[verifier::external_body]
fn duration_secs(d: &Duration) -> u64 {
    d.as_secs()
}

/// `Duration::subsec_nanos`: the nanoseconds past the whole seconds, which
/// its documentation says are always less than one billion.
#[verifier::external_body]
fn duration_subsec_nanos(d: &Duration) -> (r: u32)
    ensures
        r < 1_000_000_000,
{
    d.subsec_nanos()
}

/// A reading of the clock: `Ok` with the whole seconds and nanoseconds since
/// the epoch, `Err` with how far before the epoch the clock stands.  The
/// nanoseconds are less than one billion.
pub open spec fn reading_ok(rd: Result<(u64, u32), (u64, u32)>) -> bool {
    match rd {
        Ok((_, n)) => n < 1_000_000_000,
        Err((_, n)) => n < 1_000_000_000,
    }
}

/// `n`, or `max` where `n` is larger.
pub open spec fn at_most(n: int, max: int) -> int {
    if n > max {
        max
    } else {
        n
    }
}

/// The stamp of a clock reading as seconds and nanoseconds, the nanoseconds
/// always in `0..1_000_000_000`: a time before the epoch has negative
/// seconds and counts its nanoseconds forward from them.  Seconds beyond the
/// range of `i64` saturate.
pub open spec fn stamp_of(rd: Result<(u64, u32), (u64, u32)>) -> (int, int) {
    match rd {
        Ok((s, n)) => (at_most(s as int, i64::MAX as int), n as int),
        Err((s, n)) => if n == 0 {
            (-at_most(s as int, i64::MAX as int), 0)
        } else {
            (-at_most(s as int, i64::MAX - 1) - 1, 1_000_000_000 - n)
        },
    }
}

/// The Must of a key stamped with a clock reading.
pub open spec fn stamped_v(key: Seq<char>, rd: Result<(u64, u32), (u64, u32)>) -> MustV {
    MustV { key, sec: stamp_of(rd).0, nsec: stamp_of(rd).1 }
}

/// A Must stamped with some reading of the clock.
pub open spec fn is_stamped(m: MustV) -> bool {
    exists|rd: Result<(u64, u32), (u64, u32)>| reading_ok(rd) && m == #[trigger] stamped_v(m.key, rd)
}

impl Must {
    /// A new Must with a randomly generated, case sensitive alphanumeric key
    /// of sixteen characters, stamped with the current UTC time.
    pub fn new_must() -> (r: Must)
        ensures
            r.key@.len() == 16,
            forall|i: int| 0 <= i < 16 ==> is_alphanumeric(#[trigger] r.key@[i]),
            is_stamped(r@),
    {
        Must::stamped_must(random_alphanumeric(16))
    }

    /// A new Must with the given key, stamped with the current UTC time (a
    /// new version of an existing document keeps its key).  What the clock
    /// reads is not known here; the stamp is the one `must_from_reading`
    /// makes of it.
    pub fn stamped_must(must_key: String) -> (r: Must)
        ensures
            r.key@ == must_key@,
            is_stamped(r@),
            0 <= r.nsec < 1_000_000_000,
    {
        let now = system_now();
        let reading = match since_epoch(&now) {
            Ok(d) => Ok((duration_secs(&d), duration_subsec_nanos(&d))),
            Err(e) => {
                let d = error_duration(&e);
                Err((duration_secs(&d), duration_subsec_nanos(&d)))
            },
        };
        let r = Must::must_from_reading(must_key, reading);
        proof {
            assert(r@ == stamped_v(r@.key, reading));
        }
        r
    }

    /// The Must of a key stamped with a clock reading: seconds and
    /// nanoseconds since the epoch, or, before the epoch, negative seconds
    /// with the nanoseconds counted forward from them.
    pub fn must_from_reading(must_key: String, reading: Result<(u64, u32), (u64, u32)>) -> (r: Must)
        requires
            reading_ok(reading),
        ensures
            r@ == stamped_v(must_key@, reading),
    {
        match reading {
            Ok((s, n)) => {
                let sec: i64 = if s > 9223372036854775807 {
                    9223372036854775807
                } else {
                    s as i64
                };
                Must::copied_must(must_key, sec, n as i32)
            },
            Err((s, n)) => {
                if n == 0 {
                    let sec: i64 = if s > 9223372036854775807 {
                        -9223372036854775807
                    } else {
                        -(s as i64)
                    };
                    Must::copied_must(must_key, sec, 0)
                } else {
                    let sec: i64 = if s > 9223372036854775806 {
                        -9223372036854775807
                    } else {
                        -(s as i64) - 1
                    };
                    Must::copied_must(must_key, sec, (1_000_000_000 - n) as i32)
                }
            },
        }
    }

    /// A Must made of the given values.
    pub fn copied_must(must_key: String, sec: i64, nsec: i32) -> (r: Must)
        ensures
            r@ == (MustV { key: must_key@, sec: sec as int, nsec: nsec as int }),
    {
        Must { key: must_key, sec, nsec }
    }

    /// The Must that a JSON value describes.
    pub fn from_json(must: Json) -> (r: Result<Must, Vec<JsonObject>>)
        ensures
            match r {
                Ok(m) => from_json_v(must@) == Ok::<MustV, Errs>(m@),
                Err(es) => from_json_v(must@) == Err::<MustV, Errs>(objs_view(es@)),
            },
    {
        match must {
            Json::Object(obj) => Must::from_obj(obj),
            _ => Err(Self::err(Bootstrap::arg_rule_key_arg_must_be_object(), "must", "Q7wOoPiMNJ6xgqL1")),
        }
    }

    fn err(rk: String, arg: &str, line: &str) -> (r: Vec<JsonObject>)
        ensures
            objs_view(r@) == must_err(rk@, arg, line),
    {
        let mut v: Vec<JsonObject> = Vec::new();
        v.push(Bootstrap::spec_rule_error(rk, arg.to_owned(), Bootstrap::spec_must_must_key(), line.to_owned(), "must.rs".to_owned()));
        assert(objs_view(v@) =~= must_err(rk@, arg, line));
        v
    }

    /// The Must that a JSON object describes.
    pub fn from_obj(obj: JsonObject) -> (r: Result<Must, Vec<JsonObject>>)
        ensures
            match r {
                Ok(m) => from_obj_v(obj@) == Ok::<MustV, Errs>(m@),
                Err(es) => from_obj_v(obj@) == Err::<MustV, Errs>(objs_view(es@)),
            },
    {
        let must_args = JahArgs::new(obj);
        let key = match must_args.get_str("key".to_owned()) {
            Ok(key_val) => key_val,
            Err(err) => match err {
                GetArgErrorType::MissingKey => {
                    return Err(Self::err(Bootstrap::arg_rule_key_arg_must_exist(), "key", "ziVrdrQE6xeIjDLj"));
                },
                GetArgErrorType::WrongDataType => {
                    return Err(Self::err(Bootstrap::arg_rule_key_arg_key_must_be_string(), "key", "dtmIT0qQ2170Eohm"));
                },
            },
        };
        let sec = match must_args.get_float("sec".to_owned()) {
            Ok(sec_val) => sec_val,
            Err(err) => match err {
                GetArgErrorType::MissingKey => {
                    return Err(Self::err(Bootstrap::arg_rule_key_arg_must_exist(), "sec", "xSHex3PgO1VFrm5d"));
                },
                GetArgErrorType::WrongDataType => {
                    return Err(Self::err(Bootstrap::arg_rule_arg_key_arg_must_be_number(), "sec", "WDmdBc78ERtcJaZC"));
                },
            },
        };
        let nsec = match must_args.get_float("nsec".to_owned()) {
            Ok(nsec_val) => nsec_val,
            Err(err) => match err {
                GetArgErrorType::MissingKey => {
                    return Err(Self::err(Bootstrap::arg_rule_key_arg_must_exist(), "nsec", "2k5bXat4lBIhehIt"));
                },
                GetArgErrorType::WrongDataType => {
                    return Err(Self::err(Bootstrap::arg_rule_arg_key_arg_must_be_number(), "nsec", "nbON1bWP9U4NWFf7"));
                },
            },
        };
        let nsec32: i32 = if nsec > 2147483647 {
            2147483647
        } else if nsec < -2147483648 {
            -2147483648
        } else {
            nsec as i32
        };
        Ok(Must::copied_must(key, sec, nsec32))
    }

    /// The JSON object form of this Must.
    pub fn to_obj(&self) -> (r: JsonObject)
        ensures
            r@ == must_obj_v(self@),
            crate::jah_spec::check_args_v(crate::bootstrap::spec_must_v(), r@) is Ok,
    {
        proof {
            lemma_must_json_conforms(self@);
        }
        let mut o = JsonObject::new();
        o.insert("key".to_owned(), Json::String(self.key.clone()));
        o.insert("sec".to_owned(), Json::Number(self.sec));
        o.insert("nsec".to_owned(), Json::Number(self.nsec as i64));
        o
    }

    /// The JSON form of this Must.
    pub fn to_json(&self) -> (r: Json)
        ensures
            r@ == JsonV::Object(must_obj_v(self@)),
    {
        Json::Object(self.to_obj())
    }

    /// The hyphen delimited text of this Must: `key-sec-nsec`.
    pub fn to_str(&self) -> (r: String)
        ensures
            r@ == must_text(self@),
    {
        let mut out = crate::json_text::string_chars(&self.key);
        out.push('-');
        crate::json_text::write_int(self.sec, &mut out);
        out.push('-');
        crate::json_text::write_int(self.nsec as i64, &mut out);
        crate::json_text::chars_to_string(&out)
    }

    /// A copy of this Must.
    pub fn copy(&self) -> (r: Must)
        ensures
            r@ == self@,
    {
        Must { key: self.key.clone(), sec: self.sec, nsec: self.nsec }
    }
}

/// Returns true if the key and time stamp are equal in `a` and `b`.
pub fn eq_must(a: &Must, b: &Must) -> (r: bool)
    ensures
        r == must_eq(a@, b@),
{
    a.key == b.key && a.sec == b.sec && a.nsec == b.nsec
}

/// The Must spec is found under its key, and requires a string `key`.
pub proof fn lemma_must_spec_key()
    ensures
        crate::bootstrap::find_spec_v(spec_must_must_key_v()) == crate::bootstrap::spec_must_v(),
        crate::jah_spec::get_allowed_v(crate::bootstrap::spec_must_v()) is Ok,
        crate::json::lookup(crate::jah_spec::get_allowed_v(crate::bootstrap::spec_must_v())->Ok_0, "key"@)
            == Some(crate::bootstrap::rules2_v(arg_rule_key_arg_must_exist_v(), arg_rule_key_arg_key_must_be_string_v())),
{
    crate::bootstrap::lemma_find_spec_registered();
    reveal_strlit("key");
    reveal_strlit("sec");
    reveal_strlit("nsec");
    reveal_strlit("spec_key");
    reveal_strlit("allowed");
    assert("key"@[0] != "sec"@[0]);
    assert("key"@[0] != "nsec"@[0]);
    assert("allowed"@[0] != "spec_key"@[0]);
    let rs = crate::bootstrap::rules2_v(arg_rule_key_arg_must_exist_v(), arg_rule_key_arg_key_must_be_string_v());
    let rn = crate::bootstrap::rules2_v(arg_rule_key_arg_must_exist_v(), arg_rule_arg_key_arg_must_be_number_v());
    let e: Args = Seq::empty();
    let a1 = obj_insert(e, "key"@, rs);
    let a2 = obj_insert(a1, "sec"@, rn);
    crate::json::lemma_insert_unique(e, "key"@, rs);
    crate::json::lemma_insert_unique(a1, "sec"@, rn);
    crate::json::lemma_insert_unique(a2, "nsec"@, rn);
    let a3 = obj_insert(a2, "nsec"@, rn);
    let s1 = obj_insert(e, "spec_key"@, JsonV::Str(spec_must_must_key_v()));
    crate::json::lemma_insert_unique(e, "spec_key"@, JsonV::Str(spec_must_must_key_v()));
    crate::json::lemma_insert_unique(s1, "allowed"@, JsonV::Object(a3));
}

/// The JSON form of every Must passes the Must spec.
pub proof fn lemma_must_json_conforms(m: MustV)
    ensures
        crate::jah_spec::check_args_v(crate::bootstrap::spec_must_v(), must_obj_v(m)) is Ok,
{
    reveal_strlit("key");
    reveal_strlit("sec");
    reveal_strlit("nsec");
    assert("key"@[0] != "sec"@[0]);
    assert("key"@[0] != "nsec"@[0]);
    assert("sec"@[0] != "nsec"@[0]);
    crate::bootstrap::lemma_required_rules_differ();
    let rs = crate::bootstrap::rules2_v(arg_rule_key_arg_must_exist_v(), arg_rule_key_arg_key_must_be_string_v());
    let rn = crate::bootstrap::rules2_v(arg_rule_key_arg_must_exist_v(), arg_rule_arg_key_arg_must_be_number_v());
    let e: Args = Seq::empty();
    let a1 = obj_insert(e, "key"@, rs);
    let a2 = obj_insert(a1, "sec"@, rn);
    let a = obj_insert(a2, "nsec"@, rn);
    crate::json::lemma_insert_unique(e, "key"@, rs);
    crate::json::lemma_insert_unique(a1, "sec"@, rn);
    crate::json::lemma_insert_unique(a2, "nsec"@, rn);
    let o1 = obj_insert(e, "key"@, JsonV::Str(m.key));
    let o2 = obj_insert(o1, "sec"@, JsonV::Number(m.sec));
    let o = obj_insert(o2, "nsec"@, JsonV::Number(m.nsec));
    crate::json::lemma_insert_unique(e, "key"@, JsonV::Str(m.key));
    crate::json::lemma_insert_unique(o1, "sec"@, JsonV::Number(m.sec));
    crate::json::lemma_insert_unique(o2, "nsec"@, JsonV::Number(m.nsec));
    crate::bootstrap::lemma_spec_shape(spec_must_must_key_v(), a);
    assert forall|k: Seq<char>| #[trigger] crate::json::has_key(a, k) implies crate::jah_spec::flat_rule(
        crate::json::lookup(a, k)->Some_0) by {
        assert(crate::json::lookup(a, k) == Some(rs) || crate::json::lookup(a, k) == Some(rn));
    }
    assert forall|k: Seq<char>| #[trigger] crate::json::has_key(o, k) implies crate::json::has_key(a, k) by {
        assert(crate::json::lookup(o, k) is Some);
        assert(crate::json::lookup(a, k) is Some);
    }
    assert forall|k: Seq<char>| crate::json::lookup(a, k) == Some(rs)
        implies #[trigger] crate::json::lookup(o, k) matches Some(JsonV::Str(_)) by {
        assert(crate::json::lookup(a, k) is Some);
    }
    assert forall|k: Seq<char>| crate::json::lookup(a, k) == Some(rn)
        implies #[trigger] crate::json::lookup(o, k) matches Some(JsonV::Number(_)) by {
        assert(crate::json::lookup(a, k) is Some);
    }
    crate::jah_spec::lemma_flat_doc_accepted(crate::bootstrap::spec_must_v(), o);
}

} // verus!
