//! The plugin registry: the durable catalog of plugin records and their
//! script content, with the import/update pipeline that extracts metadata
//! from the introspection script's output.
//!
//! The registry couples each plugin's metadata with its content under one id,
//! so a reader never observes a plugin present in one but not the other; a
//! mutation either fully succeeds or leaves the catalog untouched. The caller
//! persists the same map to disk after each successful mutation.

use vstd::prelude::*;

use crate::codec::{
    build_invocation_script, decode_output, decode_spec, escape_spec, invocation_script_spec,
    DecodedOutcome,
};
use crate::env_store::EnvVar;
use crate::errors::PluginError;
use crate::json::{
    array_len, clone_value, get_field, get_index, rep_of, text_of_rep, to_json_text, value_as_str,
    JsonRep,
};
use crate::runtime::{interpret_outcome, DenoRuntime, ExecutionPlan, PlanModel, ProcessOutcome};
use crate::text::trim_spec;

verus! {

/// One callable unit a plugin exports: a name, a description, and optionally
/// a JSON-schema-like description of its parameters.
pub struct Tool {
    pub name: String,
    pub description: String,
    pub parameters: Option<serde_json::Value>,
}

/// Specification-level shape of a tool.
pub struct ToolModel {
    pub name: Seq<char>,
    pub description: Seq<char>,
    pub parameters: Option<JsonRep>,
}

impl View for Tool {
    type V = ToolModel;

    open spec fn view(&self) -> ToolModel {
        ToolModel {
            name: self.name@,
            description: self.description@,
            parameters: match self.parameters {
                Some(v) => Some(rep_of(v)),
                None => None,
            },
        }
    }
}

impl DeepView for Tool {
    type V = ToolModel;

    open spec fn deep_view(&self) -> ToolModel {
        self@
    }
}

/// One plugin record of the catalog: its opaque immutable id, its metadata,
/// and its declared tools.
pub struct Plugin {
    pub id: String,
    pub name: String,
    pub description: Option<String>,
    pub tools: Vec<Tool>,
}

/// Specification-level shape of a plugin record.
pub struct PluginModel {
    pub id: Seq<char>,
    pub name: Seq<char>,
    pub description: Option<Seq<char>>,
    pub tools: Seq<ToolModel>,
}

impl View for Plugin {
    type V = PluginModel;

    open spec fn view(&self) -> PluginModel {
        PluginModel {
            id: self.id@,
            name: self.name@,
            description: match self.description {
                Some(ref d) => Some(d@),
                None => None,
            },
            tools: self.tools.deep_view(),
        }
    }
}

/// A plugin record together with its raw script content.
pub struct PluginWithContent {
    pub info: Plugin,
    pub content: String,
}

/// Specification-level shape of a catalog entry.
pub struct EntryModel {
    pub info: PluginModel,
    pub content: Seq<char>,
}

impl View for PluginWithContent {
    type V = EntryModel;

    open spec fn view(&self) -> EntryModel {
        EntryModel { info: self.info@, content: self.content@ }
    }
}

impl DeepView for PluginWithContent {
    type V = EntryModel;

    open spec fn deep_view(&self) -> EntryModel {
        self@
    }
}

/// The catalog map an entry sequence denotes: later entries win, though a
/// well-formed registry never holds an id twice.
pub open spec fn catalog_of(s: Seq<EntryModel>) -> Map<Seq<char>, EntryModel>
    decreases s.len(),
{
    if s.len() == 0 {
        Map::<Seq<char>, EntryModel>::empty()
    } else {
        catalog_of(s.drop_last()).insert(s.last().info.id, s.last())
    }
}

/// No id occurs twice in `s`.
pub open spec fn unique_ids(s: Seq<EntryModel>) -> bool {
    forall|i: int, j: int|
        0 <= i < j < s.len() ==> s[i].info.id != s[j].info.id
}

pub proof fn lemma_catalog_contains(s: Seq<EntryModel>, k: Seq<char>)
    ensures
        catalog_of(s).contains_key(k) <==> exists|i: int| 0 <= i < s.len() && s[i].info.id == k,
    decreases s.len(),
{
    if s.len() > 0 {
        lemma_catalog_contains(s.drop_last(), k);
        if catalog_of(s).contains_key(k) {
            if s.last().info.id == k {
                assert(s[s.len() - 1].info.id == k);
            } else {
                let i = choose|i: int| 0 <= i < s.drop_last().len() && s.drop_last()[i].info.id
                    == k;
                assert(s[i].info.id == k);
            }
        }
        if exists|i: int| 0 <= i < s.len() && s[i].info.id == k {
            let i = choose|i: int| 0 <= i < s.len() && s[i].info.id == k;
            if i < s.len() - 1 {
                assert(s.drop_last()[i].info.id == k);
            }
        }
    }
}

pub proof fn lemma_catalog_index(s: Seq<EntryModel>, i: int)
    requires
        unique_ids(s),
        0 <= i < s.len(),
    ensures
        catalog_of(s).contains_key(s[i].info.id),
        catalog_of(s)[s[i].info.id] == s[i],
    decreases s.len(),
{
    if i == s.len() - 1 {
        assert(s.last() == s[i]);
    } else {
        assert(unique_ids(s.drop_last()));
        assert(s.drop_last()[i] == s[i]);
        lemma_catalog_index(s.drop_last(), i);
        assert(s[i].info.id != s.last().info.id);
    }
}

proof fn lemma_catalog_remove(s: Seq<EntryModel>, idx: int)
    requires
        unique_ids(s),
        0 <= idx < s.len(),
    ensures
        catalog_of(s.remove(idx)) == catalog_of(s).remove(s[idx].info.id),
    decreases s.len(),
{
    let id = s[idx].info.id;
    if idx == s.len() - 1 {
        assert(s.remove(idx) =~= s.drop_last());
        lemma_catalog_contains(s.drop_last(), id);
        assert(!catalog_of(s.drop_last()).contains_key(id)) by {
            if catalog_of(s.drop_last()).contains_key(id) {
                let i = choose|i: int| 0 <= i < s.drop_last().len() && s.drop_last()[i].info.id
                    == id;
                assert(s[i].info.id == id);
            }
        }
        assert(catalog_of(s).remove(id) =~= catalog_of(s.drop_last()));
    } else {
        assert(unique_ids(s.drop_last()));
        assert(s.remove(idx).drop_last() =~= s.drop_last().remove(idx));
        assert(s.remove(idx).last() == s.last());
        assert(s.drop_last()[idx] == s[idx]);
        lemma_catalog_remove(s.drop_last(), idx);
        assert(id != s.last().info.id);
        assert(catalog_of(s.drop_last()).remove(id).insert(s.last().info.id, s.last())
            =~= catalog_of(s.drop_last()).insert(s.last().info.id, s.last()).remove(id));
    }
}

/// After an import or update stores entry `e` under `id`, the catalog holds
/// exactly `e` there: a `get(id)` returns the supplied content and metadata,
/// and `list` includes `id` — cache and stored catalog are the same map.
pub proof fn lemma_catalog_after_upsert(
    m: Map<Seq<char>, EntryModel>,
    id: Seq<char>,
    e: EntryModel,
)
    ensures
        m.insert(id, e).contains_key(id),
        m.insert(id, e)[id] == e,
{
}

/// Every catalogued id appears in the listing: some position of the order
/// that `list` returns holds exactly the entry the catalog maps `id` to.
pub proof fn lemma_catalog_listed(r: &PluginRegistry, id: Seq<char>)
    requires
        r.wf(),
        r@.contains_key(id),
    ensures
        exists|i: int| 0 <= i < r.order().len() && (#[trigger] r.order()[i]) == r@[id],
{
    lemma_catalog_contains(r.order(), id);
    let i = choose|i: int| 0 <= i < r.order().len() && r.order()[i].info.id == id;
    lemma_catalog_index(r.order(), i);
    assert(r.order()[i] == r@[id]);
}

/// `remove` is idempotent and total: after `remove(id)` a `get(id)` finds
/// nothing, and removing an unknown id leaves the catalog exactly as it was.
pub proof fn lemma_catalog_after_remove(m: Map<Seq<char>, EntryModel>, id: Seq<char>)
    ensures
        !m.remove(id).contains_key(id),
        !m.contains_key(id) ==> m.remove(id) == m,
{
    if !m.contains_key(id) {
        assert(m.remove(id) =~= m);
    }
}

/// How one element of the introspection output's `tools` array parses: an
/// object with a string `name`, a string `description`, and an optional
/// `parameters` field taken as-is.
pub open spec fn tool_of_rep(j: JsonRep) -> Option<ToolModel> {
    match j {
        JsonRep::Obj(m) => {
            if m.contains_key("name"@) && m["name"@] is Str && m.contains_key("description"@)
                && m["description"@] is Str {
                Some(
                    ToolModel {
                        name: m["name"@]->Str_0,
                        description: m["description"@]->Str_0,
                        parameters: if m.contains_key("parameters"@) {
                            Some(m["parameters"@])
                        } else {
                            None
                        },
                    },
                )
            } else {
                None
            }
        },
        _ => None,
    }
}

/// How the whole `tools` array parses: every element must parse.
pub open spec fn tools_of_rep(s: Seq<JsonRep>) -> Option<Seq<ToolModel>>
    decreases s.len(),
{
    if s.len() == 0 {
        Some(Seq::<ToolModel>::empty())
    } else {
        match tool_of_rep(s[0]) {
            Some(t) => match tools_of_rep(s.skip(1)) {
                Some(r) => Some(seq![t] + r),
                None => None,
            },
            None => None,
        }
    }
}

pub proof fn lemma_tools_of_rep(s: Seq<JsonRep>)
    ensures
        tools_of_rep(s) is Some <==> (forall|i: int|
            0 <= i < s.len() ==> tool_of_rep(#[trigger] s[i]) is Some),
        tools_of_rep(s) matches Some(r) ==> r.len() == s.len() && (forall|i: int|
            0 <= i < s.len() ==> r[i] == tool_of_rep(#[trigger] s[i])->Some_0),
    decreases s.len(),
{
    if s.len() > 0 {
        lemma_tools_of_rep(s.skip(1));
        assert(forall|i: int| 0 <= i < s.skip(1).len() ==> s.skip(1)[i] == s[i + 1]);
        if tools_of_rep(s) is Some {
            assert forall|i: int| 0 <= i < s.len() implies tool_of_rep(#[trigger] s[i]) is Some by {
                if i > 0 {
                    assert(s.skip(1)[i - 1] == s[i]);
                }
            }
        }
        if forall|i: int| 0 <= i < s.len() ==> tool_of_rep(#[trigger] s[i]) is Some {
            assert(tool_of_rep(s[0]) is Some);
            assert(forall|i: int|
                0 <= i < s.skip(1).len() ==> tool_of_rep(#[trigger] s.skip(1)[i]) is Some);
        }
        if tools_of_rep(s) is Some {
            let r = tools_of_rep(s)->Some_0;
            let t = tool_of_rep(s[0])->Some_0;
            let rr = tools_of_rep(s.skip(1))->Some_0;
            assert(r == seq![t] + rr);
            assert forall|i: int| 0 <= i < s.len() implies r[i] == tool_of_rep(
                #[trigger] s[i],
            )->Some_0 by {
                if i == 0 {
                    assert(r[0] == t);
                } else {
                    assert(r[i] == rr[i - 1]);
                    assert(s.skip(1)[i - 1] == s[i]);
                }
            }
        }
    }
}

/// How the introspection output parses into a plugin record for `id`: the
/// document must be an object with a string `name` and a well-formed `tools`
/// array; a string `description` is kept, any other description is absent.
pub open spec fn metadata_of_rep(id: Seq<char>, j: JsonRep) -> Option<PluginModel> {
    match j {
        JsonRep::Obj(m) => {
            if m.contains_key("name"@) && m["name"@] is Str && m.contains_key("tools"@)
                && m["tools"@] is Arr && tools_of_rep(m["tools"@]->Arr_0) is Some {
                Some(
                    PluginModel {
                        id: id,
                        name: m["name"@]->Str_0,
                        description: if m.contains_key("description"@) && m["description"@]
                            is Str {
                            Some(m["description"@]->Str_0)
                        } else {
                            None
                        },
                        tools: tools_of_rep(m["tools"@]->Arr_0)->Some_0,
                    },
                )
            } else {
                None
            }
        },
        _ => None,
    }
}

/// Parses one element of the `tools` array.
fn parse_tool(v: &serde_json::Value) -> (r: Option<Tool>)
    ensures
        match tool_of_rep(rep_of(*v)) {
            Some(t) => r matches Some(pt) && pt@ == t,
            None => r is None,
        },
{
    let name = match get_field(v, "name") {
        Some(nv) => match value_as_str(nv) {
            Some(s) => s.to_owned(),
            None => {
                return None;
            },
        },
        None => {
            return None;
        },
    };
    let description = match get_field(v, "description") {
        Some(dv) => match value_as_str(dv) {
            Some(s) => s.to_owned(),
            None => {
                return None;
            },
        },
        None => {
            return None;
        },
    };
    let parameters = match get_field(v, "parameters") {
        Some(pv) => Some(clone_value(pv)),
        None => None,
    };
    Some(Tool { name, description, parameters })
}

/// Parses the whole `tools` array.
fn parse_tools(v: &serde_json::Value) -> (r: Option<Vec<Tool>>)
    ensures
        match rep_of(*v) {
            JsonRep::Arr(s) => match tools_of_rep(s) {
                Some(ts) => r matches Some(pts) && pts.deep_view() == ts,
                None => r is None,
            },
            _ => r is None,
        },
{
    let n = match array_len(v) {
        Some(n) => n,
        None => {
            return None;
        },
    };
    let ghost arr = rep_of(*v)->Arr_0;
    let mut out: Vec<Tool> = Vec::new();
    let mut i: usize = 0;
    proof {
        lemma_tools_of_rep(arr);
    }
    while i < n
        invariant
            rep_of(*v) is Arr,
            arr == rep_of(*v)->Arr_0,
            n == arr.len(),
            i <= n,
            out@.len() == i,
            forall|j: int|
                0 <= j < i ==> tool_of_rep(#[trigger] arr[j]) is Some && out.deep_view()[j]
                    == tool_of_rep(arr[j])->Some_0,
        decreases n - i,
    {
        let ev = match get_index(v, i) {
            Some(ev) => ev,
            None => {
                proof {
                    assert(false);
                }
                return None;
            },
        };
        let t = match parse_tool(ev) {
            Some(t) => t,
            None => {
                proof {
                    lemma_tools_of_rep(arr);
                    assert(tool_of_rep(arr[i as int]) is None);
                }
                return None;
            },
        };
        let ghost oldout = out.deep_view();
        out.push(t);
        proof {
            assert(out.deep_view() =~= oldout.push(t@));
        }
        i = i + 1;
    }
    proof {
        lemma_tools_of_rep(arr);
        assert(tools_of_rep(arr) is Some);
        assert forall|j: int|
            0 <= j < n implies out.deep_view()[j] == tools_of_rep(arr)->Some_0[j] by {
            assert(tool_of_rep(arr[j]) is Some);
        }
        assert(out.deep_view() =~= tools_of_rep(arr)->Some_0);
    }
    Some(out)
}

/// Parses the introspection script's decoded output into the plugin record
/// it describes for `id`.
fn parse_metadata(id: String, v: &serde_json::Value) -> (r: Option<Plugin>)
    ensures
        match metadata_of_rep(id@, rep_of(*v)) {
            Some(pm) => r matches Some(p) && p@ == pm,
            None => r is None,
        },
{
    let name = match get_field(v, "name") {
        Some(nv) => match value_as_str(nv) {
            Some(s) => s.to_owned(),
            None => {
                return None;
            },
        },
        None => {
            return None;
        },
    };
    let description = match get_field(v, "description") {
        Some(dv) => match value_as_str(dv) {
            Some(s) => Some(s.to_owned()),
            None => None,
        },
        None => None,
    };
    let tools = match get_field(v, "tools") {
        Some(tv) => match parse_tools(tv) {
            Some(ts) => ts,
            None => {
                return None;
            },
        },
        None => {
            return None;
        },
    };
    Some(Plugin { id, name, description, tools })
}

/// Clones a tool; the copy holds the same document in `parameters`.
pub fn clone_tool(t: &Tool) -> (r: Tool)
    ensures
        r@ == t@,
{
    Tool {
        name: t.name.clone(),
        description: t.description.clone(),
        parameters: match &t.parameters {
            Some(v) => Some(clone_value(v)),
            None => None,
        },
    }
}

/// Clones a plugin record.
pub fn clone_plugin(p: &Plugin) -> (r: Plugin)
    ensures
        r@ == p@,
{
    let n: usize = p.tools.len();
    let mut tools: Vec<Tool> = Vec::new();
    let mut i: usize = 0;
    proof {
        assert(tools.deep_view() =~= p.tools.deep_view().take(0));
    }
    while i < n
        invariant
            n == p.tools@.len(),
            i <= n,
            tools.deep_view() == p.tools.deep_view().take(i as int),
        decreases n - i,
    {
        let ghost oldts = tools.deep_view();
        tools.push(clone_tool(&p.tools[i]));
        i = i + 1;
        proof {
            assert(tools.deep_view() =~= oldts.push(p.tools.deep_view()[i - 1]));
            assert(oldts.push(p.tools.deep_view()[i - 1]) =~= p.tools.deep_view().take(i as int));
        }
    }
    proof {
        assert(p.tools.deep_view().take(n as int) =~= p.tools.deep_view());
    }
    Plugin {
        id: p.id.clone(),
        name: p.name.clone(),
        description: match &p.description {
            Some(d) => Some(d.clone()),
            None => None,
        },
        tools,
    }
}

/// The durable catalog of plugins: metadata and script content, coupled
/// under each id.
pub struct PluginRegistry {
    entries: Vec<PluginWithContent>,
}

impl View for PluginRegistry {
    type V = Map<Seq<char>, EntryModel>;

    closed spec fn view(&self) -> Map<Seq<char>, EntryModel> {
        catalog_of(self.entries.deep_view())
    }
}

impl PluginRegistry {
    /// The catalog's entries in insertion order; `view` is the map they
    /// denote.
    pub closed spec fn order(&self) -> Seq<EntryModel> {
        self.entries.deep_view()
    }

    /// No id occurs twice; every operation preserves this.
    pub closed spec fn wf(&self) -> bool {
        unique_ids(self.entries.deep_view())
    }

    /// An empty catalog.
    pub fn new() -> (r: Self)
        ensures
            r.wf(),
            r@ == Map::<Seq<char>, EntryModel>::empty(),
            r.order() == Seq::<EntryModel>::empty(),
    {
        let r = PluginRegistry { entries: Vec::new() };
        proof {
            assert(r.entries.deep_view() =~= Seq::<EntryModel>::empty());
        }
        r
    }

    /// How many plugins are registered.
    pub fn len(&self) -> (r: usize)
        ensures
            r == self.order().len(),
    {
        self.entries.len()
    }

    /// The index holding `id`, if any.
    fn find_index(&self, id: &str) -> (r: Option<usize>)
        ensures
            match r {
                Some(i) => i < self.order().len() && self.order()[i as int].info.id == id@,
                None => forall|i: int|
                    0 <= i < self.order().len() ==> (#[trigger] self.order()[i]).info.id != id@,
            },
    {
        let n: usize = self.entries.len();
        let mut i: usize = 0;
        while i < n
            invariant
                n == self.entries@.len(),
                i <= n,
                forall|j: int|
                    0 <= j < i ==> (#[trigger] self.entries.deep_view()[j]).info.id != id@,
            decreases n - i,
        {
            let eq = crate::text::str_eq(self.entries[i].info.id.as_str(), id);
            if eq {
                return Some(i);
            }
            i = i + 1;
        }
        None
    }

    /// Whether a plugin with `id` is registered.
    pub fn contains(&self, id: &str) -> (r: bool)
        ensures
            r == self@.contains_key(id@),
    {
        proof {
            lemma_catalog_contains(self.order(), id@);
        }
        match self.find_index(id) {
            Some(_) => true,
            None => false,
        }
    }

    /// Looks a plugin up: its metadata and its content, exactly what the
    /// catalog holds under `id`, or nothing when `id` is unknown.
    pub fn get(&self, id: &str) -> (r: Option<&PluginWithContent>)
        requires
            self.wf(),
        ensures
            r is Some <==> self@.contains_key(id@),
            r matches Some(p) ==> self@.contains_key(id@) && p@ == self@[id@],
    {
        proof {
            lemma_catalog_contains(self.order(), id@);
        }
        match self.find_index(id) {
            Some(i) => {
                proof {
                    lemma_catalog_index(self.order(), i as int);
                    assert(self.entries@[i as int].deep_view() == self.order()[i as int]);
                }
                Some(&self.entries[i])
            },
            None => None,
        }
    }

    /// Lists the catalog's plugin records, in insertion order.
    pub fn list(&self) -> (r: Vec<&Plugin>)
        ensures
            r@.len() == self.order().len(),
            forall|i: int| 0 <= i < r@.len() ==> (#[trigger] r@[i])@ == self.order()[i].info,
    {
        let n: usize = self.entries.len();
        let mut out: Vec<&Plugin> = Vec::new();
        let mut i: usize = 0;
        while i < n
            invariant
                n == self.entries@.len(),
                i <= n,
                out@.len() == i,
                forall|j: int|
                    0 <= j < i ==> (#[trigger] out@[j])@ == self.entries.deep_view()[j].info,
            decreases n - i,
        {
            out.push(&self.entries[i].info);
            i = i + 1;
        }
        out
    }

    /// Removes `id` and its content from the catalog; removing an unknown id
    /// is not an error and changes nothing.
    pub fn remove(&mut self, id: &str)
        requires
            old(self).wf(),
        ensures
            final(self).wf(),
            final(self)@ == old(self)@.remove(id@),
    {
        proof {
            lemma_catalog_contains(self.order(), id@);
        }
        match self.find_index(id) {
            Some(i) => {
                let ghost olds = self.entries.deep_view();
                self.entries.remove(i);
                proof {
                    assert(self.entries.deep_view() =~~= olds.remove(i as int));
                    lemma_catalog_remove(olds, i as int);
                    assert(unique_ids(olds.remove(i as int))) by {
                        assert(forall|a: int, b: int|
                            0 <= a < b < olds.remove(i as int).len() ==> olds.remove(
                                i as int,
                            )[a].info.id != olds.remove(i as int)[b].info.id);
                    }
                }
            },
            None => {
                proof {
                    lemma_catalog_after_remove(self@, id@);
                }
            },
        }
    }

    /// Stores `entry` under its id, replacing any previous entry.
    fn upsert(&mut self, entry: PluginWithContent)
        requires
            old(self).wf(),
        ensures
            final(self).wf(),
            final(self)@ == old(self)@.insert(entry.info.id@, entry@),
    {
        let ghost oldmap = self@;
        let ghost id = entry.info.id@;
        self.remove(entry.info.id.as_str());
        let ghost mids = self.entries.deep_view();
        let ghost e = entry@;
        proof {
            lemma_catalog_contains(mids, id);
            assert(!self@.contains_key(id));
        }
        self.entries.push(entry);
        proof {
            assert(self.entries.deep_view() =~~= mids.push(e));
            assert(self.entries.deep_view().drop_last() =~= mids);
            assert(self@ == catalog_of(mids).insert(id, e));
            assert(self@ =~= oldmap.insert(id, e));
            assert(unique_ids(self.entries.deep_view())) by {
                assert(forall|i: int|
                    0 <= i < mids.len() ==> (#[trigger] mids[i]).info.id != id) by {
                    lemma_catalog_contains(mids, id);
                    assert forall|i: int|
                        0 <= i < mids.len() implies (#[trigger] mids[i]).info.id != id by {
                        if mids[i].info.id == id {
                            assert(catalog_of(mids).contains_key(id));
                        }
                    }
                }
                assert(forall|i: int, j: int|
                    0 <= i < j < self.entries.deep_view().len() ==> self.entries.deep_view()[
                        i
                    ].info.id != self.entries.deep_view()[j].info.id);
            }
        }
    }

    /// Loads one persisted entry into the catalog on cold start, replacing
    /// any previous entry of the same id.
    pub fn load_entry(&mut self, entry: PluginWithContent)
        requires
            old(self).wf(),
        ensures
            final(self).wf(),
            final(self)@ == old(self)@.insert(entry.info.id@, entry@),
    {
        self.upsert(entry);
    }

    /// Finishes an import: decodes the introspection script's output, parses
    /// the plugin record for the fresh `id`, and stores record and content
    /// together — or fails with the decode's error and leaves the catalog
    /// untouched.
    pub fn import_plugin(&mut self, id: String, content: String, introspection_output: &str) -> (r:
        Result<Plugin, PluginError>)
        requires
            old(self).wf(),
        ensures
            final(self).wf(),
            match decode_spec(introspection_output@) {
                DecodedOutcome::Success(j) => match metadata_of_rep(id@, j) {
                    Some(pm) => r matches Ok(p) && p@ == pm && final(self)@ == old(self)@.insert(
                        id@,
                        (EntryModel { info: pm, content: content@ }),
                    ),
                    None => r matches Err(PluginError::Json(m)) && m@ == introspection_output@
                        && final(self)@ == old(self)@,
                },
                DecodedOutcome::Failure(msg) => r matches Err(
                    PluginError::PluginRuntimeError(e),
                ) && e@ == msg && final(self)@ == old(self)@,
                DecodedOutcome::NoJson => r matches Err(PluginError::Json(m)) && m@
                    == introspection_output@ && final(self)@ == old(self)@,
            },
    {
        let doc = match decode_output(introspection_output) {
            Ok(v) => v,
            Err(e) => {
                return Err(e);
            },
        };
        let plugin = match parse_metadata(id, &doc) {
            Some(p) => p,
            None => {
                return Err(PluginError::Json(introspection_output.to_owned()));
            },
        };
        let stored = clone_plugin(&plugin);
        self.upsert(PluginWithContent { info: stored, content });
        Ok(plugin)
    }

    /// Finishes an update: like an import reusing the existing `id`, but an
    /// unknown id fails with `NotFound` and changes nothing.
    pub fn update_plugin(&mut self, id: String, content: String, introspection_output: &str) -> (r:
        Result<Plugin, PluginError>)
        requires
            old(self).wf(),
        ensures
            final(self).wf(),
            !old(self)@.contains_key(id@) ==> (r matches Err(PluginError::NotFound(m)) && m@ == id@
                && final(self)@ == old(self)@),
            old(self)@.contains_key(id@) ==> match decode_spec(introspection_output@) {
                DecodedOutcome::Success(j) => match metadata_of_rep(id@, j) {
                    Some(pm) => r matches Ok(p) && p@ == pm && final(self)@ == old(self)@.insert(
                        id@,
                        (EntryModel { info: pm, content: content@ }),
                    ),
                    None => r matches Err(PluginError::Json(m)) && m@ == introspection_output@
                        && final(self)@ == old(self)@,
                },
                DecodedOutcome::Failure(msg) => r matches Err(
                    PluginError::PluginRuntimeError(e),
                ) && e@ == msg && final(self)@ == old(self)@,
                DecodedOutcome::NoJson => r matches Err(PluginError::Json(m)) && m@
                    == introspection_output@ && final(self)@ == old(self)@,
            },
    {
        if !self.contains(id.as_str()) {
            return Err(PluginError::NotFound(id));
        }
        self.import_plugin(id, content, introspection_output)
    }

    /// Builds everything one tool execution needs: the registered content to
    /// place at `plugin_path`, and the plan that runs the invocation wrapper
    /// for `tool` with `args` under `runtime`, injecting `env`.
    ///
    /// An unknown id fails with `NotFound` — never a filesystem error — and a
    /// missing interpreter fails with `RuntimeNotInstalled`.
    pub fn prepare_execute(
        &self,
        runtime: &DenoRuntime,
        id: &str,
        tool: &str,
        args: &serde_json::Value,
        plugin_path: &str,
        temp_path: String,
        env: Vec<EnvVar>,
    ) -> (r: Result<(String, ExecutionPlan), PluginError>)
        requires
            self.wf(),
        ensures
            !self@.contains_key(id@) ==> (r matches Err(PluginError::NotFound(m)) && m@ == id@),
            self@.contains_key(id@) && !runtime@.installed ==> r matches Err(
                PluginError::RuntimeNotInstalled,
            ),
            self@.contains_key(id@) && runtime@.installed ==> (r matches Ok(req)
                && req.0@ == self@[id@].content && req.1@ == (PlanModel {
                program: runtime@.path,
                args: runtime@.base_args.push(temp_path@),
                env: env.deep_view(),
                script: invocation_script_spec(
                    plugin_path@,
                    tool@,
                    escape_spec(text_of_rep(rep_of(*args))),
                ),
                temp_path: temp_path@,
                timeout_ms: runtime@.timeout_ms,
            })),
    {
        let entry = match self.get(id) {
            Some(e) => e,
            None => {
                return Err(PluginError::NotFound(id.to_owned()));
            },
        };
        if !runtime.check_installed() {
            return Err(PluginError::RuntimeNotInstalled);
        }
        let args_json = to_json_text(args);
        let script = build_invocation_script(plugin_path, tool, args_json.as_str());
        match runtime.plan_execution(script, env, temp_path) {
            Ok(plan) => Ok((entry.content.clone(), plan)),
            Err(_) => {
                proof {
                    assert(false);
                }
                Err(PluginError::RuntimeNotInstalled)
            },
        }
    }
}

/// Finishes one execution: classifies how the child process ended, and
/// decodes the wrapper's stdout into the tool's value or its typed error.
///
/// A lost race against the timeout is `Timeout`; a non-zero exit is the
/// plugin's own failure with the stderr text; on success the last JSON line
/// of stdout decides, exactly as `decode_output` states.
pub fn finish_execute(outcome: &ProcessOutcome) -> (r: Result<serde_json::Value, PluginError>)
    ensures
        match outcome {
            ProcessOutcome::TimedOut => r matches Err(PluginError::Timeout),
            ProcessOutcome::Completed { success, stdout, stderr } => {
                if *success {
                    match decode_spec(trim_spec(stdout@)) {
                        DecodedOutcome::NoJson => r matches Err(PluginError::Json(m)) && m@
                            == trim_spec(stdout@),
                        DecodedOutcome::Failure(msg) => r matches Err(
                            PluginError::PluginRuntimeError(e),
                        ) && e@ == msg,
                        DecodedOutcome::Success(j) => r matches Ok(v) && rep_of(v) == j,
                    }
                } else {
                    r matches Err(PluginError::PluginRuntimeError(m)) && m@ == stderr@
                }
            },
        },
{
    let stdout = match interpret_outcome(outcome) {
        Ok(s) => s,
        Err(e) => {
            return Err(e);
        },
    };
    decode_output(stdout.as_str())
}

} // verus!
