//! JahMut: a long lived mutable map of JSON values, served by a task that
//! takes admin orders (insert or update, load, remove, release) and answers
//! typed reads.  The task and its channels run around this module; here is
//! the map and the answer to each message.
use vstd::prelude::*;
use crate::json::{Json, JsonObject, JsonV, lookup, obj_insert, obj_remove, keys_unique, lemma_replace_reads_back};
use crate::jah_args::Args;

verus! {

/// An order on the admin channel.
pub enum JahMutAdmin {
    InsertOrUpdate(String, Json),
    LoadMap(JsonObject),
    Remove(String),
    Release,
}

/// What the serving task does next.
#[derive(PartialEq, Eq, Structural, Debug, Clone, Copy)]
pub enum JahMutToDo {
    RecvUserPort,
    RecvAdminPort,
    JahMutYield,
}

/// The served map.
pub struct JahMut {
    map: JsonObject,
}

/// The map after an admin order.
pub open spec fn admin_v(m: Args, op: JahMutAdmin) -> Args {
    match op {
        JahMutAdmin::InsertOrUpdate(k, v) => obj_insert(obj_remove(m, k@), k@, v@),
        JahMutAdmin::LoadMap(o) => o@,
        JahMutAdmin::Remove(k) => obj_remove(m, k@),
        JahMutAdmin::Release => m,
    }
}

/// The order in which the task serves what is waiting: admin orders first.
pub open spec fn to_do_v(admin_ready: bool, user_ready: bool) -> Seq<JahMutToDo> {
    if !admin_ready && !user_ready {
        seq![JahMutToDo::JahMutYield]
    } else if admin_ready && user_ready {
        seq![JahMutToDo::RecvAdminPort, JahMutToDo::RecvUserPort]
    } else if admin_ready {
        seq![JahMutToDo::RecvAdminPort]
    } else {
        seq![JahMutToDo::RecvUserPort]
    }
}

impl View for JahMut {
    type V = Args;

    closed spec fn view(&self) -> Args {
        self.map@
    }
}

/// A read gives back what the last write wrote: after `InsertOrUpdate(k, v)`
/// the value under `k` is `v`, and after `Remove(k)` there is none; the
/// other keys keep their values, and names stay unique.
pub proof fn lemma_read_after_write(m: Args, k: String, v: Json, k2: Seq<char>)
    requires
        keys_unique(m),
    ensures
        lookup(admin_v(m, JahMutAdmin::InsertOrUpdate(k, v)), k@) == Some(v@),
        k2 != k@ ==> lookup(admin_v(m, JahMutAdmin::InsertOrUpdate(k, v)), k2) == lookup(m, k2),
        lookup(admin_v(m, JahMutAdmin::Remove(k)), k@) is None,
        k2 != k@ ==> lookup(admin_v(m, JahMutAdmin::Remove(k)), k2) == lookup(m, k2),
        keys_unique(admin_v(m, JahMutAdmin::InsertOrUpdate(k, v))),
{
    lemma_replace_reads_back(m, k@, v@, k2);
}

/// An admin order as the task can receive it: a map to load keeps its
/// member names unique, as every `JsonObject` does.
pub open spec fn admin_ok(op: JahMutAdmin) -> bool {
    match op {
        JahMutAdmin::LoadMap(o) => keys_unique(o@),
        _ => true,
    }
}

/// The map after a run of admin orders, carried out in order from `m`.
pub open spec fn run_v(m: Args, ops: Seq<JahMutAdmin>) -> Args
    decreases ops.len(),
{
    if ops.len() == 0 {
        m
    } else {
        admin_v(run_v(m, ops.drop_last()), ops.last())
    }
}

/// What the last order of a run that touched `k` left under it: the value
/// it wrote, nothing where it removed `k`, what a loaded map holds under
/// `k`; where no order touched `k`, what `m` holds.
pub open spec fn last_write_v(m: Args, ops: Seq<JahMutAdmin>, k: Seq<char>) -> Option<JsonV>
    decreases ops.len(),
{
    if ops.len() == 0 {
        lookup(m, k)
    } else {
        match ops.last() {
            JahMutAdmin::InsertOrUpdate(k2, v) => if k2@ == k {
                Some(v@)
            } else {
                last_write_v(m, ops.drop_last(), k)
            },
            JahMutAdmin::Remove(k2) => if k2@ == k {
                None
            } else {
                last_write_v(m, ops.drop_last(), k)
            },
            JahMutAdmin::LoadMap(o) => lookup(o@, k),
            JahMutAdmin::Release => last_write_v(m, ops.drop_last(), k),
        }
    }
}

/// Over a whole run of admin orders, every read is answered from the last
/// write: after the run, the value under each key is what the last order
/// that touched it left there, and member names stay unique.
pub proof fn lemma_run_reads_last_write(m: Args, ops: Seq<JahMutAdmin>, k: Seq<char>)
    requires
        keys_unique(m),
        forall|i: int| 0 <= i < ops.len() ==> #[trigger] admin_ok(ops[i]),
    ensures
        lookup(run_v(m, ops), k) == last_write_v(m, ops, k),
        keys_unique(run_v(m, ops)),
    decreases ops.len(),
{
    if ops.len() > 0 {
        let pre = ops.drop_last();
        assert forall|i: int| 0 <= i < pre.len() implies #[trigger] admin_ok(pre[i]) by {
            assert(pre[i] == ops[i]);
            assert(admin_ok(ops[i]));
        }
        lemma_run_reads_last_write(m, pre, k);
        let r = run_v(m, pre);
        assert(admin_ok(ops[ops.len() - 1]));
        match ops.last() {
            JahMutAdmin::InsertOrUpdate(k2, v) => {
                lemma_replace_reads_back(r, k2@, v@, k);
            },
            JahMutAdmin::Remove(k2) => {
                crate::json::lemma_remove_unique(r, k2@);
                lemma_replace_reads_back(r, k2@, JsonV::Null, k);
            },
            JahMutAdmin::LoadMap(o) => {},
            JahMutAdmin::Release => {},
        }
    }
}

/// A `Release` order leaves the map as it was: the map at the release is
/// the run of the orders before it.
pub proof fn lemma_release_keeps_the_map(m: Args, ops: Seq<JahMutAdmin>)
    ensures
        run_v(m, ops.push(JahMutAdmin::Release)) == run_v(m, ops),
{
    assert(ops.push(JahMutAdmin::Release).drop_last() =~= ops);
}

impl JahMut {
    /// A new, empty map to serve.
    pub fn connect_new() -> (r: JahMut)
        ensures
            r@.len() == 0,
    {
        JahMut { map: JsonObject::new() }
    }

    /// What the task does next, given which ports have a message.
    pub fn to_do(admin_ready: bool, user_ready: bool) -> (r: Vec<JahMutToDo>)
        ensures
            r@ == to_do_v(admin_ready, user_ready),
    {
        let mut tds: Vec<JahMutToDo> = Vec::new();
        if admin_ready {
            tds.push(JahMutToDo::RecvAdminPort);
        }
        if user_ready {
            tds.push(JahMutToDo::RecvUserPort);
        }
        if tds.len() == 0 {
            tds.push(JahMutToDo::JahMutYield);
        }
        assert(tds@ =~= to_do_v(admin_ready, user_ready));
        tds
    }

    /// Carries out an admin order; returns whether the task is released.
    pub fn admin(&mut self, op: JahMutAdmin) -> (release: bool)
        ensures
            final(self)@ == admin_v(old(self)@, op),
            keys_unique(final(self)@),
            release == (op is Release),
    {
        match op {
            JahMutAdmin::Remove(key) => {
                self.map.remove(&key);
                false
            },
            JahMutAdmin::InsertOrUpdate(key, val) => {
                self.map.remove(&key);
                self.map.insert(key, val);
                false
            },
            JahMutAdmin::LoadMap(new_map) => {
                // the map's member count is taken for its guarantee that names are unique
                let _count = new_map.len();
                self.map = new_map;
                false
            },
            JahMutAdmin::Release => {
                let _count = self.map.len();
                true
            },
        }
    }

    /// The value under `key`.
    pub fn get_json(&self, key: String) -> (r: Option<Json>)
        ensures
            match r {
                Some(v) => lookup(self@, key@) == Some(v@),
                None => lookup(self@, key@) is None,
            },
    {
        match self.map.get(&key) {
            Some(v) => Some(v.deep_copy()),
            None => None,
        }
    }

    /// The string under `key`; none where there is no string there.
    pub fn get_str(&self, key: String) -> (r: Option<String>)
        ensures
            match r {
                Some(s) => lookup(self@, key@) == Some(JsonV::Str(s@)),
                None => !(lookup(self@, key@) matches Some(JsonV::Str(_))),
            },
    {
        match self.map.get(&key) {
            Some(v) => match v {
                Json::String(s) => Some(s.clone()),
                _ => None,
            },
            None => None,
        }
    }

    /// The number under `key`; none where there is no number there.
    pub fn get_float(&self, key: String) -> (r: Option<i64>)
        ensures
            match r {
                Some(n) => lookup(self@, key@) == Some(JsonV::Number(n as int)),
                None => !(lookup(self@, key@) matches Some(JsonV::Number(_))),
            },
    {
        match self.map.get(&key) {
            Some(v) => match v {
                Json::Number(n) => Some(*n),
                _ => None,
            },
            None => None,
        }
    }

    /// The boolean under `key`; none where there is no boolean there.
    pub fn get_bool(&self, key: String) -> (r: Option<bool>)
        ensures
            match r {
                Some(b) => lookup(self@, key@) == Some(JsonV::Boolean(b)),
                None => !(lookup(self@, key@) matches Some(JsonV::Boolean(_))),
            },
    {
        match self.map.get(&key) {
            Some(v) => match v {
                Json::Boolean(b) => Some(*b),
                _ => None,
            },
            None => None,
        }
    }

    /// A copy of the whole map.
    pub fn get_map_copy(&self) -> (r: Option<JsonObject>)
        ensures
            r matches Some(o) && o@ == self@,
    {
        Some(self.map.deep_copy())
    }
}

} // verus!
