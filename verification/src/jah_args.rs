//! JahArgs: typed access to the named arguments of a JSON object ("jah" is
//! short for JSON argument helper).
use vstd::prelude::*;
use crate::json::{
    Json, JsonObject, JsonV, lookup, has_key, keys_unique, obj_keys, list_view,
};
use crate::json_text::doc_text;

verus! {

/// Why a typed argument could not be read.
#[derive(PartialEq, Eq, Structural, Debug, Clone, Copy)]
pub enum GetArgErrorType {
    MissingKey,
    WrongDataType,
}

pub type Args = Seq<(Seq<char>, JsonV)>;

/// The string argument named `k`.
pub open spec fn str_arg(a: Args, k: Seq<char>) -> Result<Seq<char>, GetArgErrorType> {
    match lookup(a, k) {
        None => Err(GetArgErrorType::MissingKey),
        Some(JsonV::Str(s)) => Ok(s),
        Some(_) => Err(GetArgErrorType::WrongDataType),
    }
}

/// The object argument named `k`.
pub open spec fn map_arg(a: Args, k: Seq<char>) -> Result<Args, GetArgErrorType> {
    match lookup(a, k) {
        None => Err(GetArgErrorType::MissingKey),
        Some(JsonV::Object(o)) => Ok(o),
        Some(_) => Err(GetArgErrorType::WrongDataType),
    }
}

/// The list argument named `k`.
pub open spec fn list_arg(a: Args, k: Seq<char>) -> Result<Seq<JsonV>, GetArgErrorType> {
    match lookup(a, k) {
        None => Err(GetArgErrorType::MissingKey),
        Some(JsonV::List(l)) => Ok(l),
        Some(_) => Err(GetArgErrorType::WrongDataType),
    }
}

/// The number argument named `k`.
pub open spec fn num_arg(a: Args, k: Seq<char>) -> Result<int, GetArgErrorType> {
    match lookup(a, k) {
        None => Err(GetArgErrorType::MissingKey),
        Some(JsonV::Number(n)) => Ok(n),
        Some(_) => Err(GetArgErrorType::WrongDataType),
    }
}

/// The boolean argument named `k`.
pub open spec fn bool_arg(a: Args, k: Seq<char>) -> Result<bool, GetArgErrorType> {
    match lookup(a, k) {
        None => Err(GetArgErrorType::MissingKey),
        Some(JsonV::Boolean(b)) => Ok(b),
        Some(_) => Err(GetArgErrorType::WrongDataType),
    }
}

/// A set of named JSON arguments.
pub struct JahArgs {
    args: JsonObject,
}

impl View for JahArgs {
    type V = Args;

    closed spec fn view(&self) -> Args {
        self.args@
    }
}

impl JahArgs {
    pub fn new(args: JsonObject) -> (r: JahArgs)
        ensures
            r@ == args@,
    {
        JahArgs { args }
    }

    /// The arguments as an object.
    pub fn as_object(&self) -> (r: &JsonObject)
        ensures
            r@ == self@,
    {
        &self.args
    }

    /// Gets the arg as a string.
    pub fn get_str(&self, arg_name: String) -> (r: Result<String, GetArgErrorType>)
        ensures
            match r {
                Ok(s) => str_arg(self@, arg_name@) == Ok::<Seq<char>, GetArgErrorType>(s@),
                Err(e) => str_arg(self@, arg_name@) == Err::<Seq<char>, GetArgErrorType>(e),
            },
    {
        match self.args.get(&arg_name) {
            Some(v) => match v {
                Json::String(s) => Ok(s.clone()),
                _ => Err(GetArgErrorType::WrongDataType),
            },
            None => Err(GetArgErrorType::MissingKey),
        }
    }

    /// Gets the arg as a map.
    pub fn get_map(&self, arg_name: String) -> (r: Result<JsonObject, GetArgErrorType>)
        ensures
            match r {
                Ok(o) => map_arg(self@, arg_name@) == Ok::<Args, GetArgErrorType>(o@),
                Err(e) => map_arg(self@, arg_name@) == Err::<Args, GetArgErrorType>(e),
            },
    {
        match self.args.get(&arg_name) {
            Some(v) => match v {
                Json::Object(o) => Ok(o.deep_copy()),
                _ => Err(GetArgErrorType::WrongDataType),
            },
            None => Err(GetArgErrorType::MissingKey),
        }
    }

    /// Gets the arg as a list.
    pub fn get_list(&self, arg_name: String) -> (r: Result<Vec<Json>, GetArgErrorType>)
        ensures
            match r {
                Ok(l) => list_arg(self@, arg_name@) == Ok::<Seq<JsonV>, GetArgErrorType>(
                    list_view(l@),
                ),
                Err(e) => list_arg(self@, arg_name@) == Err::<Seq<JsonV>, GetArgErrorType>(e),
            },
    {
        match self.args.get(&arg_name) {
            Some(v) => match v {
                Json::List(_) => {
                    let c = v.deep_copy();
                    match c {
                        Json::List(l) => Ok(l),
                        _ => Err(GetArgErrorType::WrongDataType),
                    }
                },
                _ => Err(GetArgErrorType::WrongDataType),
            },
            None => Err(GetArgErrorType::MissingKey),
        }
    }

    /// Gets the arg as a number.
    pub fn get_float(&self, arg_name: String) -> (r: Result<i64, GetArgErrorType>)
        ensures
            match r {
                Ok(n) => num_arg(self@, arg_name@) == Ok::<int, GetArgErrorType>(n as int),
                Err(e) => num_arg(self@, arg_name@) == Err::<int, GetArgErrorType>(e),
            },
    {
        match self.args.get(&arg_name) {
            Some(v) => match v {
                Json::Number(n) => Ok(*n),
                _ => Err(GetArgErrorType::WrongDataType),
            },
            None => Err(GetArgErrorType::MissingKey),
        }
    }

    /// Gets the arg as a bool.
    pub fn get_bool(&self, arg_name: String) -> (r: Result<bool, GetArgErrorType>)
        ensures
            match r {
                Ok(b) => bool_arg(self@, arg_name@) == Ok::<bool, GetArgErrorType>(b),
                Err(e) => bool_arg(self@, arg_name@) == Err::<bool, GetArgErrorType>(e),
            },
    {
        match self.args.get(&arg_name) {
            Some(v) => match v {
                Json::Boolean(b) => Ok(*b),
                _ => Err(GetArgErrorType::WrongDataType),
            },
            None => Err(GetArgErrorType::MissingKey),
        }
    }

    /// Whether an arg named `key` is present.
    pub fn has_arg(&self, key: &String) -> (b: bool)
        ensures
            b == has_key(self@, key@),
    {
        self.args.contains_key(key)
    }

    /// The number of args.
    pub fn arg_count(&self) -> (n: usize)
        ensures
            n == self@.len(),
            keys_unique(self@),
    {
        self.args.len()
    }

    /// Gets the arg as a JSON value.
    pub fn get_json_val(&self, arg_name: String) -> (r: Option<Json>)
        ensures
            match r {
                Some(v) => lookup(self@, arg_name@) == Some(v@),
                None => lookup(self@, arg_name@) == None::<JsonV>,
            },
    {
        match self.args.get(&arg_name) {
            Some(v) => Some(v.deep_copy()),
            None => None,
        }
    }

    /// The names of all the args.
    pub fn arg_keys(&self) -> (r: Vec<String>)
        ensures
            r@.len() == self@.len(),
            forall|i: int| 0 <= i < r@.len() ==> #[trigger] r@[i]@ == obj_keys(self@)[i],
            keys_unique(self@),
    {
        self.args.keys()
    }

    /// The args as pretty JSON text.
    pub fn to_str(&self) -> (r: String)
        ensures
            r@ == doc_text(JsonV::Object(self@)),
    {
        let j = Json::Object(self.args.deep_copy());
        j.to_text()
    }
}

} // verus!
