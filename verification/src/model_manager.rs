//! The model catalog: named chat-model configurations with one current
//! selection, the in-memory form of the host's `config.toml`. The caller
//! loads and persists the file; every rule about the catalog itself is
//! verified here.

use vstd::prelude::*;

use crate::string_map::StringMap;

verus! {

/// One chat-model configuration.
pub struct ModelConfig {
    pub api_key: String,
    pub api_url: String,
    pub model: String,
}

/// Specification-level shape of a model configuration.
pub struct ModelConfigModel {
    pub api_key: Seq<char>,
    pub api_url: Seq<char>,
    pub model: Seq<char>,
}

impl View for ModelConfig {
    type V = ModelConfigModel;

    open spec fn view(&self) -> ModelConfigModel {
        ModelConfigModel { api_key: self.api_key@, api_url: self.api_url@, model: self.model@ }
    }
}

/// Clones a model configuration.
pub fn clone_model_config(c: &ModelConfig) -> (r: ModelConfig)
    ensures
        r == *c,
{
    ModelConfig { api_key: c.api_key.clone(), api_url: c.api_url.clone(), model: c.model.clone() }
}

/// What a model-catalog operation can report.
#[derive(Debug)]
pub enum ModelError {
    /// No model of that name exists.
    NotFound(String),
    /// A model of that name already exists.
    AlreadyExists(String),
}

impl ModelError {
    /// A stable, distinct message for each error kind.
    pub fn message(&self) -> (r: String)
        ensures
            match self {
                ModelError::NotFound(n) => r@ == "model not found: "@ + n@,
                ModelError::AlreadyExists(n) => r@ == "model already exists: "@ + n@,
            },
    {
        match self {
            ModelError::NotFound(n) => {
                let mut s = String::new();
                s.append("model not found: ");
                s.append(n.as_str());
                s
            },
            ModelError::AlreadyExists(n) => {
                let mut s = String::new();
                s.append("model already exists: ");
                s.append(n.as_str());
                s
            },
        }
    }
}

/// The path of the model catalog's file under `config_dir`.
pub open spec fn config_path_spec(config_dir: Seq<char>) -> Seq<char> {
    config_dir + "/config.toml"@
}

/// The catalog of named model configurations and the current selection.
pub struct ModelManager {
    pub models: StringMap<ModelConfig>,
    pub current: Option<String>,
}

impl ModelManager {
    /// The catalog is consistent: names are unique and the current selection,
    /// if any, names a registered model.
    pub open spec fn wf(&self) -> bool {
        &&& self.models.wf()
        &&& match self.current {
            Some(c) => self.models@.contains_key(c@),
            None => true,
        }
    }

    /// An empty catalog with nothing selected.
    pub fn new() -> (r: Self)
        ensures
            r.wf(),
            r.models@ == Map::<Seq<char>, ModelConfig>::empty(),
            r.current is None,
    {
        ModelManager { models: StringMap::new(), current: None }
    }

    /// Where the catalog's file lives under `config_dir`.
    pub fn get_path(config_dir: &str) -> (r: String)
        ensures
            r@ == config_path_spec(config_dir@),
    {
        let mut p = String::new();
        p.append(config_dir);
        p.append("/config.toml");
        p
    }

    /// Adds (or replaces) a named model; the first model added becomes the
    /// current selection.
    pub fn add(&mut self, name: String, model: ModelConfig)
        requires
            old(self).wf(),
        ensures
            final(self).wf(),
            final(self).models@ == old(self).models@.insert(name@, model),
            old(self).current is Some ==> final(self).current == old(self).current,
            old(self).current is None ==> (final(self).current matches Some(c) && c@ == name@),
    {
        let ghost n = name@;
        if self.current.is_none() {
            self.current = Some(name.clone());
        }
        self.models.insert(name, model);
        proof {
            if old(self).current is Some {
                let c = old(self).current->0;
                assert(self.models@.contains_key(c@));
            }
        }
    }

    /// Removes a named model; when the removed model was current, the first
    /// remaining model (in catalog order) becomes current, or nothing is
    /// selected. An unknown name fails with `NotFound` and changes nothing.
    pub fn remove(&mut self, name: &str) -> (r: Result<(), ModelError>)
        requires
            old(self).wf(),
        ensures
            final(self).wf(),
            old(self).models@.contains_key(name@) <==> r is Ok,
            r matches Err(e) ==> e matches ModelError::NotFound(m) && m@ == name@ && *final(self)
                == *old(self),
            r is Ok ==> final(self).models@ == old(self).models@.remove(name@),
            old(self).current matches Some(c) && r is Ok && c@ != name@ ==> final(self).current
                == old(self).current,
            old(self).current matches Some(c) && r is Ok && c@ == name@ ==> match final(self).current {
                None => final(self).models.order().len() == 0,
                Some(k) => final(self).models.order().len() > 0 && k@ == final(self).models.order()[0].key@,
            },
    {
        if !self.models.contains(name) {
            return Err(ModelError::NotFound(name.to_owned()));
        }
        self.models.remove(name);
        let current_was_removed = match &self.current {
            Some(c) => crate::text::str_eq(c.as_str(), name),
            None => false,
        };
        if current_was_removed {
            self.current = match self.models.first_key() {
                Some(k) => Some(k.clone()),
                None => None,
            };
            proof {
                if self.current is Some {
                    let c = self.current->0;
                    assert(self.models@.contains_key(c@));
                }
            }
        } else {
            proof {
                if self.current is Some {
                    let c = self.current->0;
                    assert(c@ != name@);
                    assert(old(self).models@.contains_key(c@));
                    assert(self.models@.contains_key(c@));
                }
            }
        }
        Ok(())
    }

    /// Selects a named model; an unknown name fails with `NotFound` and
    /// changes nothing.
    pub fn set_current(&mut self, name: &str) -> (r: Result<(), ModelError>)
        requires
            old(self).wf(),
        ensures
            final(self).wf(),
            old(self).models@.contains_key(name@) <==> r is Ok,
            r is Ok ==> final(self).models@ == old(self).models@,
            r is Ok ==> (final(self).current matches Some(c) && c@ == name@),
            r matches Err(e) ==> e matches ModelError::NotFound(m) && m@ == name@ && *final(self)
                == *old(self),
    {
        if self.models.contains(name) {
            self.current = Some(name.to_owned());
            Ok(())
        } else {
            Err(ModelError::NotFound(name.to_owned()))
        }
    }

    /// The currently selected model's configuration, if any is selected.
    pub fn get_current(&self) -> (r: Option<ModelConfig>)
        requires
            self.wf(),
        ensures
            self.current is None ==> r is None,
            self.current matches Some(c) ==> r matches Some(m) && m == self.models@[c@],
    {
        match &self.current {
            Some(c) => {
                match self.models.get(c.as_str()) {
                    Some(m) => Some(clone_model_config(m)),
                    None => {
                        proof {
                            assert(false);
                        }
                        None
                    },
                }
            },
            None => None,
        }
    }

    /// Renames and reconfigures a model: `name` must exist, and a rename may
    /// not collide with another existing model. When the renamed model was
    /// current, the selection follows the new name.
    pub fn update_model(&mut self, name: &str, new_name: String, model: ModelConfig) -> (r: Result<
        (),
        ModelError,
    >)
        requires
            old(self).wf(),
        ensures
            final(self).wf(),
            !old(self).models@.contains_key(name@) ==> (r matches Err(ModelError::NotFound(m))
                && m@ == name@ && *final(self) == *old(self)),
            old(self).models@.contains_key(name@) && name@ != new_name@ && old(self).models@.contains_key(new_name@) ==> (r matches Err(ModelError::AlreadyExists(m))
                && m@ == new_name@ && *final(self) == *old(self)),
            old(self).models@.contains_key(name@) && (name@ == new_name@ || !old(self).models@.contains_key(new_name@)) ==> r is Ok && final(self).models@ == old(self).models@.remove(name@).insert(new_name@, model),
            old(self).current matches Some(c) && r is Ok && c@ == name@ ==> (final(self).current
                matches Some(k) && k@ == new_name@),
            old(self).current matches Some(c) && r is Ok && c@ != name@ ==> final(self).current
                == old(self).current,
            old(self).current is None ==> final(self).current is None,
    {
        if !self.models.contains(name) {
            return Err(ModelError::NotFound(name.to_owned()));
        }
        let renamed = !crate::text::str_eq(name, new_name.as_str());
        if renamed && self.models.contains(new_name.as_str()) {
            return Err(ModelError::AlreadyExists(new_name));
        }
        self.models.remove(name);
        let current_follows = match &self.current {
            Some(c) => crate::text::str_eq(c.as_str(), name),
            None => false,
        };
        if current_follows {
            self.current = Some(new_name.clone());
        }
        self.models.insert(new_name, model);
        proof {
            if self.current is Some {
                let c = self.current->0;
                if old(self).current is Some && old(self).current->0@ != name@ {
                    assert(self.models@.contains_key(c@));
                }
            }
        }
        Ok(())
    }

    /// The registered model names, in catalog order.
    pub fn list_models(&self) -> (r: Vec<String>)
        ensures
            r@.len() == self.models.order().len(),
            forall|i: int|
                0 <= i < r@.len() ==> (#[trigger] r@[i])@ == self.models.order()[i].key@,
    {
        self.models.keys()
    }
}

} // verus!
