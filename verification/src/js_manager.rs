//! The JavaScript plugin manager: an in-memory catalog of script plugins
//! keyed by name. The caller loads each plugin's file into the catalog and
//! persists changes back; the catalog's rules — unique names, rename
//! collisions, idempotent removal — are verified here.

use vstd::prelude::*;

use crate::string_map::StringMap;

verus! {

/// One JavaScript plugin: its name, what it does, and its script source.
pub struct JsPlugin {
    pub name: String,
    pub description: String,
    pub script_content: String,
}

/// Specification-level shape of a JavaScript plugin.
pub struct JsPluginModel {
    pub name: Seq<char>,
    pub description: Seq<char>,
    pub script_content: Seq<char>,
}

impl View for JsPlugin {
    type V = JsPluginModel;

    open spec fn view(&self) -> JsPluginModel {
        JsPluginModel {
            name: self.name@,
            description: self.description@,
            script_content: self.script_content@,
        }
    }
}

/// What a plugin-catalog operation can report.
#[derive(Debug)]
pub enum JsPluginError {
    /// No plugin of that name exists.
    NotFound(String),
    /// A plugin of that name already exists.
    AlreadyExists(String),
}

impl JsPluginError {
    /// A stable, distinct message for each error kind.
    pub fn message(&self) -> (r: String)
        ensures
            match self {
                JsPluginError::NotFound(n) => r@ == "plugin not found: "@ + n@,
                JsPluginError::AlreadyExists(n) => r@ == "plugin already exists: "@ + n@,
            },
    {
        match self {
            JsPluginError::NotFound(n) => {
                let mut s = String::new();
                s.append("plugin not found: ");
                s.append(n.as_str());
                s
            },
            JsPluginError::AlreadyExists(n) => {
                let mut s = String::new();
                s.append("plugin already exists: ");
                s.append(n.as_str());
                s
            },
        }
    }
}

/// The catalog of loaded JavaScript plugins, keyed by name.
pub struct JsPluginManager {
    plugins: StringMap<JsPlugin>,
}

impl View for JsPluginManager {
    type V = Map<Seq<char>, JsPlugin>;

    closed spec fn view(&self) -> Map<Seq<char>, JsPlugin> {
        self.plugins@
    }
}

impl JsPluginManager {
    /// Plugin names are unique.
    pub closed spec fn wf(&self) -> bool {
        self.plugins.wf()
    }

    /// The plugins in load order; `view` is the map they denote.
    pub closed spec fn order(&self) -> Seq<crate::string_map::StringMapEntry<JsPlugin>> {
        self.plugins.order()
    }

    /// An empty catalog; the caller loads each stored plugin into it.
    pub fn new() -> (r: Self)
        ensures
            r.wf(),
            r@ == Map::<Seq<char>, JsPlugin>::empty(),
    {
        JsPluginManager { plugins: StringMap::new() }
    }

    /// Loads one plugin into the catalog under its own name, replacing any
    /// plugin of that name.
    pub fn load_plugin(&mut self, plugin: JsPlugin)
        requires
            old(self).wf(),
        ensures
            final(self).wf(),
            final(self)@ == old(self)@.insert(plugin.name@, plugin),
    {
        let key = plugin.name.clone();
        self.plugins.insert(key, plugin);
    }

    /// The plugin of that name, if any.
    pub fn get_plugin(&self, name: &str) -> (r: Option<&JsPlugin>)
        requires
            self.wf(),
        ensures
            r is Some <==> self@.contains_key(name@),
            r matches Some(p) ==> self@.contains_key(name@) && *p == self@[name@],
    {
        self.plugins.get(name)
    }

    /// The loaded plugins, in load order.
    pub fn list_plugins(&self) -> (r: Vec<&JsPlugin>)
        ensures
            r@.len() == self.order().len(),
            forall|i: int| 0 <= i < r@.len() ==> *(#[trigger] r@[i]) == self.order()[i].value,
    {
        let n: usize = self.plugins.len();
        let mut out: Vec<&JsPlugin> = Vec::new();
        let mut i: usize = 0;
        while i < n
            invariant
                n == self.plugins.order().len(),
                i <= n,
                out@.len() == i,
                forall|j: int|
                    0 <= j < i ==> *(#[trigger] out@[j]) == self.plugins.order()[j].value,
            decreases n - i,
        {
            let (_, v) = self.plugins.entry_at(i);
            out.push(v);
            i = i + 1;
        }
        out
    }

    /// Removes the plugin of that name; removing an unknown name is not an
    /// error. Returns whether a plugin was removed.
    pub fn remove_plugin(&mut self, name: &str) -> (r: bool)
        requires
            old(self).wf(),
        ensures
            final(self).wf(),
            r == old(self)@.contains_key(name@),
            final(self)@ == old(self)@.remove(name@),
    {
        let present = self.plugins.contains(name);
        self.plugins.remove(name);
        present
    }

    /// Replaces the plugin stored under `old_name` with `plugin`, following a
    /// rename: `old_name` must exist, and a rename may not collide with
    /// another existing plugin.
    pub fn update_plugin(&mut self, old_name: &str, plugin: JsPlugin) -> (r: Result<
        (),
        JsPluginError,
    >)
        requires
            old(self).wf(),
        ensures
            final(self).wf(),
            !old(self)@.contains_key(old_name@) ==> (r matches Err(JsPluginError::NotFound(m))
                && m@ == old_name@ && final(self)@ == old(self)@),
            old(self)@.contains_key(old_name@) && old_name@ != plugin.name@ && old(
                self,
            )@.contains_key(plugin.name@) ==> (r matches Err(JsPluginError::AlreadyExists(m))
                && m@ == plugin.name@ && final(self)@ == old(self)@),
            old(self)@.contains_key(old_name@) && (old_name@ == plugin.name@ || !old(
                self,
            )@.contains_key(plugin.name@)) ==> r is Ok && final(self)@ == old(self)@.remove(
                old_name@,
            ).insert(plugin.name@, plugin),
    {
        if !self.plugins.contains(old_name) {
            return Err(JsPluginError::NotFound(old_name.to_owned()));
        }
        let renamed = !crate::text::str_eq(old_name, plugin.name.as_str());
        if renamed && self.plugins.contains(plugin.name.as_str()) {
            return Err(JsPluginError::AlreadyExists(plugin.name));
        }
        self.plugins.remove(old_name);
        let key = plugin.name.clone();
        self.plugins.insert(key, plugin);
        Ok(())
    }
}

} // verus!
