//! The service supervisor: the table of live handles for long-running
//! tool services, keyed by service id.
//!
//! Spawning a service's child process, its protocol handshake and every
//! round-trip over its channel are the caller's work; the supervisor owns the
//! handle table and every decision about it. Each service id is either absent
//! or running exactly one handle: registering a handle for a running id hands
//! the losing handle back, so a raced start never leaks a process.

use vstd::prelude::*;

use crate::errors::PluginError;
use crate::json::{rep_of, value_is_object, JsonRep};

verus! {

/// One live service: its id, and the caller's handle to the running child.
pub struct ServiceEntry<H> {
    pub service_id: String,
    pub handle: H,
}

/// The table a handle sequence denotes.
pub open spec fn table_of<H>(s: Seq<ServiceEntry<H>>) -> Map<Seq<char>, H>
    decreases s.len(),
{
    if s.len() == 0 {
        Map::<Seq<char>, H>::empty()
    } else {
        table_of(s.drop_last()).insert(s.last().service_id@, s.last().handle)
    }
}

/// No service id occurs twice in `s`.
pub open spec fn unique_service_ids<H>(s: Seq<ServiceEntry<H>>) -> bool {
    forall|i: int, j: int|
        0 <= i < j < s.len() ==> s[i].service_id@ != s[j].service_id@
}

pub proof fn lemma_table_contains<H>(s: Seq<ServiceEntry<H>>, k: Seq<char>)
    ensures
        table_of(s).contains_key(k) <==> exists|i: int|
            0 <= i < s.len() && s[i].service_id@ == k,
    decreases s.len(),
{
    if s.len() > 0 {
        lemma_table_contains(s.drop_last(), k);
        if table_of(s).contains_key(k) {
            if s.last().service_id@ == k {
                assert(s[s.len() - 1].service_id@ == k);
            } else {
                let i = choose|i: int|
                    0 <= i < s.drop_last().len() && s.drop_last()[i].service_id@ == k;
                assert(s[i].service_id@ == k);
            }
        }
        if exists|i: int| 0 <= i < s.len() && s[i].service_id@ == k {
            let i = choose|i: int| 0 <= i < s.len() && s[i].service_id@ == k;
            if i < s.len() - 1 {
                assert(s.drop_last()[i].service_id@ == k);
            }
        }
    }
}

pub proof fn lemma_table_index<H>(s: Seq<ServiceEntry<H>>, i: int)
    requires
        unique_service_ids(s),
        0 <= i < s.len(),
    ensures
        table_of(s).contains_key(s[i].service_id@),
        table_of(s)[s[i].service_id@] == s[i].handle,
    decreases s.len(),
{
    if i == s.len() - 1 {
        assert(s.last() == s[i]);
    } else {
        assert(unique_service_ids(s.drop_last()));
        assert(s.drop_last()[i] == s[i]);
        lemma_table_index(s.drop_last(), i);
        assert(s[i].service_id@ != s.last().service_id@);
    }
}

proof fn lemma_table_remove<H>(s: Seq<ServiceEntry<H>>, idx: int)
    requires
        unique_service_ids(s),
        0 <= idx < s.len(),
    ensures
        table_of(s.remove(idx)) == table_of(s).remove(s[idx].service_id@),
    decreases s.len(),
{
    let id = s[idx].service_id@;
    if idx == s.len() - 1 {
        assert(s.remove(idx) =~= s.drop_last());
        assert(!table_of(s.drop_last()).contains_key(id)) by {
            lemma_table_contains(s.drop_last(), id);
            if table_of(s.drop_last()).contains_key(id) {
                let i = choose|i: int|
                    0 <= i < s.drop_last().len() && s.drop_last()[i].service_id@ == id;
                assert(s[i].service_id@ == id);
            }
        }
        assert(table_of(s).remove(id) =~= table_of(s.drop_last()));
    } else {
        assert(unique_service_ids(s.drop_last()));
        assert(s.remove(idx).drop_last() =~= s.drop_last().remove(idx));
        assert(s.remove(idx).last() == s.last());
        assert(s.drop_last()[idx] == s[idx]);
        lemma_table_remove(s.drop_last(), idx);
        assert(id != s.last().service_id@);
        assert(table_of(s.drop_last()).remove(id).insert(s.last().service_id@, s.last().handle)
            =~= table_of(s.drop_last()).insert(s.last().service_id@, s.last().handle).remove(id));
    }
}

/// After a `stop_service(id)`, the id is absent: a `get_service_info(id)` or
/// `call_tool(id)` then fails with `NotFound`.
pub proof fn lemma_stop_then_absent<H>(m: Map<Seq<char>, H>, id: Seq<char>)
    ensures
        !m.remove(id).contains_key(id),
{
}

/// Starting a service twice in a row leaves exactly one live handle: the
/// first registration stores its handle, and a registration for a running id
/// changes nothing and hands the second handle back to be discarded.
pub proof fn lemma_start_twice<H>(m: Map<Seq<char>, H>, id: Seq<char>, h: H)
    requires
        !m.contains_key(id),
    ensures
        m.insert(id, h).contains_key(id),
        m.insert(id, h)[id] == h,
        m.insert(id, h).dom() == m.dom().insert(id),
{
    assert(m.insert(id, h).dom() =~= m.dom().insert(id));
}

/// The supervisor of long-running tool services, generic over the caller's
/// handle type for one running child.
pub struct MCPManager<H> {
    services: Vec<ServiceEntry<H>>,
}

impl<H> View for MCPManager<H> {
    type V = Map<Seq<char>, H>;

    closed spec fn view(&self) -> Map<Seq<char>, H> {
        table_of(self.services@)
    }
}

impl<H> MCPManager<H> {
    /// The live entries in start order; `view` is the table they denote.
    pub closed spec fn order(&self) -> Seq<ServiceEntry<H>> {
        self.services@
    }

    /// No service id occurs twice; every operation preserves this.
    pub closed spec fn wf(&self) -> bool {
        unique_service_ids(self.services@)
    }

    /// An empty supervisor: no service is running.
    pub fn new() -> (r: Self)
        ensures
            r.wf(),
            r@ == Map::<Seq<char>, H>::empty(),
    {
        let r = MCPManager { services: Vec::new() };
        proof {
            assert(r.services@ =~= Seq::<ServiceEntry<H>>::empty());
        }
        r
    }

    /// The index holding `id`, if any.
    fn find_index(&self, id: &str) -> (r: Option<usize>)
        ensures
            match r {
                Some(i) => i < self.order().len() && self.order()[i as int].service_id@ == id@,
                None => forall|i: int|
                    0 <= i < self.order().len() ==> (#[trigger] self.order()[i]).service_id@
                        != id@,
            },
    {
        let n: usize = self.services.len();
        let mut i: usize = 0;
        while i < n
            invariant
                n == self.services@.len(),
                i <= n,
                forall|j: int|
                    0 <= j < i ==> (#[trigger] self.services@[j]).service_id@ != id@,
            decreases n - i,
        {
            if crate::text::str_eq(self.services[i].service_id.as_str(), id) {
                return Some(i);
            }
            i = i + 1;
        }
        None
    }

    /// Whether a handle is live for `id`.
    pub fn is_running(&self, id: &str) -> (r: bool)
        ensures
            r == self@.contains_key(id@),
    {
        proof {
            lemma_table_contains(self.order(), id@);
        }
        match self.find_index(id) {
            Some(_) => true,
            None => false,
        }
    }

    /// Registers a freshly spawned handle for `id`. Starting an id that is
    /// already running is a no-op: the table keeps its one live handle and
    /// the newcomer is handed back, to be discarded rather than leaked.
    pub fn start_service(&mut self, id: &str, handle: H) -> (r: Option<H>)
        requires
            old(self).wf(),
        ensures
            final(self).wf(),
            old(self)@.contains_key(id@) ==> final(self)@ == old(self)@ && r is Some,
            !old(self)@.contains_key(id@) ==> final(self)@ == old(self)@.insert(id@, handle)
                && r is None,
    {
        proof {
            lemma_table_contains(self.order(), id@);
        }
        match self.find_index(id) {
            Some(_) => Some(handle),
            None => {
                let ghost olds = self.services@;
                let entry = ServiceEntry { service_id: id.to_owned(), handle };
                let ghost e = entry.service_id@;
                self.services.push(entry);
                proof {
                    assert(self.services@.drop_last() =~= olds);
                    assert(unique_service_ids(self.services@)) by {
                        assert(forall|i: int, j: int|
                            0 <= i < j < self.services@.len() ==> self.services@[i].service_id@
                                != self.services@[j].service_id@);
                    }
                }
                None
            },
        }
    }

    /// The live handle to query for a service's description and tool
    /// catalog; an id with no live handle fails with `NotFound`.
    pub fn get_service_info(&self, id: &str) -> (r: Result<&H, PluginError>)
        requires
            self.wf(),
        ensures
            self@.contains_key(id@) <==> r is Ok,
            r matches Ok(h) ==> self@.contains_key(id@) && *h == self@[id@],
            r matches Err(e) ==> e matches PluginError::NotFound(m) && m@ == id@,
    {
        proof {
            lemma_table_contains(self.order(), id@);
        }
        match self.find_index(id) {
            Some(i) => {
                proof {
                    lemma_table_index(self.order(), i as int);
                }
                Ok(&self.services[i].handle)
            },
            None => Err(PluginError::NotFound(id.to_owned())),
        }
    }

    /// The live handle to forward one tool call to. An id with no live
    /// handle fails with `NotFound`; arguments that are not a JSON object
    /// are refused before anything crosses the process boundary.
    pub fn call_tool(&self, id: &str, args: &serde_json::Value) -> (r: Result<&H, PluginError>)
        requires
            self.wf(),
        ensures
            !self@.contains_key(id@) ==> (r matches Err(PluginError::NotFound(m)) && m@ == id@),
            self@.contains_key(id@) && !(rep_of(*args) is Obj) ==> r matches Err(
                PluginError::Json(m),
            ),
            self@.contains_key(id@) && rep_of(*args) is Obj ==> (r matches Ok(h) && *h
                == self@[id@]),
    {
        proof {
            lemma_table_contains(self.order(), id@);
        }
        match self.find_index(id) {
            Some(i) => {
                if !value_is_object(args) {
                    return Err(PluginError::Json(String::from_str(
                        "tool arguments must be a JSON object",
                    )));
                }
                proof {
                    lemma_table_index(self.order(), i as int);
                }
                Ok(&self.services[i].handle)
            },
            None => Err(PluginError::NotFound(id.to_owned())),
        }
    }

    /// Stops `id`: removes its entry and returns the live handle for the
    /// caller to cancel; an id with no live handle fails with `NotFound`.
    pub fn stop_service(&mut self, id: &str) -> (r: Result<H, PluginError>)
        requires
            old(self).wf(),
        ensures
            final(self).wf(),
            old(self)@.contains_key(id@) <==> r is Ok,
            r matches Ok(h) ==> old(self)@.contains_key(id@) && h == old(self)@[id@]
                && final(self)@ == old(self)@.remove(id@),
            r is Err ==> final(self)@ == old(self)@,
            r matches Err(e) ==> e matches PluginError::NotFound(m) && m@ == id@,
    {
        proof {
            lemma_table_contains(self.order(), id@);
        }
        match self.find_index(id) {
            Some(i) => {
                let ghost olds = self.services@;
                proof {
                    lemma_table_index(self.order(), i as int);
                    lemma_table_remove(olds, i as int);
                }
                let entry = self.services.remove(i);
                proof {
                    assert(unique_service_ids(self.services@)) by {
                        assert(forall|a: int, b: int|
                            0 <= a < b < self.services@.len() ==> self.services@[a].service_id@
                                != self.services@[b].service_id@);
                    }
                }
                Ok(entry.handle)
            },
            None => Err(PluginError::NotFound(id.to_owned())),
        }
    }

    /// Stops everything, for host shutdown: empties the table and returns
    /// every live handle so the caller can cancel each, best-effort — one
    /// stuck service must not keep another's handle in the table.
    pub fn stop_all_services(&mut self) -> (r: Vec<H>)
        requires
            old(self).wf(),
        ensures
            final(self).wf(),
            final(self)@ == Map::<Seq<char>, H>::empty(),
            r@.len() == old(self).order().len(),
    {
        let mut handles: Vec<H> = Vec::new();
        let ghost olds = self.services@;
        while self.services.len() > 0
            invariant
                unique_service_ids(self.services@),
                handles@.len() + self.services@.len() == olds.len(),
            decreases self.services@.len(),
        {
            let n = self.services.len();
            let ghost before = self.services@;
            let entry = self.services.remove(n - 1);
            handles.push(entry.handle);
            proof {
                assert(self.services@ =~= before.drop_last());
            }
        }
        proof {
            assert(self.services@ =~= Seq::<ServiceEntry<H>>::empty());
            assert(table_of(self.services@) =~= Map::<Seq<char>, H>::empty());
        }
        handles
    }

    /// The ids of the running services, in start order.
    pub fn list_services(&self) -> (r: Vec<String>)
        ensures
            r@.len() == self.order().len(),
            forall|i: int|
                0 <= i < r@.len() ==> (#[trigger] r@[i])@ == self.order()[i].service_id@,
    {
        let n: usize = self.services.len();
        let mut out: Vec<String> = Vec::new();
        let mut i: usize = 0;
        while i < n
            invariant
                n == self.services@.len(),
                i <= n,
                out@.len() == i,
                forall|j: int|
                    0 <= j < i ==> (#[trigger] out@[j])@ == self.services@[j].service_id@,
            decreases n - i,
        {
            out.push(self.services[i].service_id.clone());
            i = i + 1;
        }
        out
    }
}

} // verus!
