//! The chat configuration: named model endpoints with one current selection
//! and the autostart preference — the richer twin of the model catalog, kept
//! by the chat side of the host. The caller loads and persists the file.

use vstd::prelude::*;

use crate::model_manager::{clone_model_config, config_path_spec, ModelConfig, ModelError};
use crate::string_map::StringMap;

verus! {

/// The chat configuration: models, the current selection, and whether the
/// host starts with the session.
pub struct Config {
    pub models: StringMap<ModelConfig>,
    pub current_model: Option<String>,
    pub auto_start: Option<bool>,
}

impl Config {
    /// Names are unique and the current selection, if any, names a
    /// registered model.
    pub open spec fn wf(&self) -> bool {
        &&& self.models.wf()
        &&& match self.current_model {
            Some(c) => self.models@.contains_key(c@),
            None => true,
        }
    }

    /// An empty configuration with nothing selected.
    pub fn new() -> (r: Self)
        ensures
            r.wf(),
            r.models@ == Map::<Seq<char>, ModelConfig>::empty(),
            r.current_model is None,
            r.auto_start is None,
    {
        Config { models: StringMap::new(), current_model: None, auto_start: None }
    }

    /// Where the configuration's file lives under `config_dir`.
    pub fn get_path(config_dir: &str) -> (r: String)
        ensures
            r@ == config_path_spec(config_dir@),
    {
        let mut p = String::new();
        p.append(config_dir);
        p.append("/config.toml");
        p
    }

    /// Adds (or replaces) a named model endpoint; the first model added
    /// becomes the current selection.
    pub fn add_model(&mut self, name: String, api_key: String, api_url: String, model: String)
        requires
            old(self).wf(),
        ensures
            final(self).wf(),
            final(self).models@ == old(self).models@.insert(
                name@,
                (ModelConfig { api_key, api_url, model }),
            ),
            old(self).current_model is Some ==> final(self).current_model == old(self).current_model,
            old(self).current_model is None ==> (final(self).current_model matches Some(c) && c@
                == name@),
            final(self).auto_start == old(self).auto_start,
    {
        let config = ModelConfig { api_key, api_url, model };
        if self.current_model.is_none() {
            self.current_model = Some(name.clone());
        }
        self.models.insert(name, config);
        proof {
            if old(self).current_model is Some {
                let c = old(self).current_model->0;
                assert(self.models@.contains_key(c@));
            }
        }
    }

    /// Removes a named model; when the removed model was current, the first
    /// remaining model (in catalog order) becomes current, or nothing is
    /// selected. An unknown name fails with `NotFound` and changes nothing.
    pub fn remove_model(&mut self, name: &str) -> (r: Result<(), ModelError>)
        requires
            old(self).wf(),
        ensures
            final(self).wf(),
            old(self).models@.contains_key(name@) <==> r is Ok,
            r matches Err(e) ==> e matches ModelError::NotFound(m) && m@ == name@ && *final(self)
                == *old(self),
            r is Ok ==> final(self).models@ == old(self).models@.remove(name@),
            old(self).current_model matches Some(c) && r is Ok && c@ != name@ ==> final(self).current_model == old(self).current_model,
            old(self).current_model matches Some(c) && r is Ok && c@ == name@ ==> match final(self).current_model {
                None => final(self).models.order().len() == 0,
                Some(k) => final(self).models.order().len() > 0 && k@ == final(self).models.order()[0].key@,
            },
            final(self).auto_start == old(self).auto_start,
    {
        if !self.models.contains(name) {
            return Err(ModelError::NotFound(name.to_owned()));
        }
        self.models.remove(name);
        let current_was_removed = match &self.current_model {
            Some(c) => crate::text::str_eq(c.as_str(), name),
            None => false,
        };
        if current_was_removed {
            self.current_model = match self.models.first_key() {
                Some(k) => Some(k.clone()),
                None => None,
            };
        } else {
            proof {
                if self.current_model is Some {
                    let c = self.current_model->0;
                    assert(c@ != name@);
                    assert(old(self).models@.contains_key(c@));
                    assert(self.models@.contains_key(c@));
                }
            }
        }
        Ok(())
    }

    /// Selects a named model; an unknown name fails with `NotFound` and
    /// changes nothing.
    pub fn set_current_model(&mut self, name: &str) -> (r: Result<(), ModelError>)
        requires
            old(self).wf(),
        ensures
            final(self).wf(),
            old(self).models@.contains_key(name@) <==> r is Ok,
            r is Ok ==> final(self).models@ == old(self).models@,
            r is Ok ==> (final(self).current_model matches Some(c) && c@ == name@),
            r matches Err(e) ==> e matches ModelError::NotFound(m) && m@ == name@ && *final(self)
                == *old(self),
    {
        if self.models.contains(name) {
            self.current_model = Some(name.to_owned());
            Ok(())
        } else {
            Err(ModelError::NotFound(name.to_owned()))
        }
    }

    /// The current selection's name and configuration, if any is selected.
    pub fn get_current_model(&self) -> (r: Option<(&String, &ModelConfig)>)
        requires
            self.wf(),
        ensures
            self.current_model is None ==> r is None,
            self.current_model matches Some(c) ==> (r matches Some(p) && p.0@ == c@ && *p.1
                == self.models@[c@]),
    {
        match &self.current_model {
            Some(c) => {
                match self.models.get(c.as_str()) {
                    Some(m) => Some((c, m)),
                    None => {
                        proof {
                            assert(false);
                        }
                        None
                    },
                }
            },
            None => None,
        }
    }

    /// Renames and reconfigures a model endpoint: `old_name` must exist, a
    /// rename may not collide with another existing model, and a missing
    /// `api_key` keeps the old one. When the renamed model was current, the
    /// selection follows the new name.
    pub fn update_model(
        &mut self,
        old_name: &str,
        new_name: String,
        api_key: Option<String>,
        api_url: String,
        model: String,
    ) -> (r: Result<(), ModelError>)
        requires
            old(self).wf(),
        ensures
            final(self).wf(),
            !old(self).models@.contains_key(old_name@) ==> (r matches Err(ModelError::NotFound(m))
                && m@ == old_name@ && *final(self) == *old(self)),
            old(self).models@.contains_key(old_name@) && old_name@ != new_name@ && old(self).models@.contains_key(new_name@) ==> (r matches Err(ModelError::AlreadyExists(m))
                && m@ == new_name@ && *final(self) == *old(self)),
            old(self).models@.contains_key(old_name@) && (old_name@ == new_name@ || !old(self).models@.contains_key(new_name@)) ==> r is Ok && final(self).models@ == old(self).models@.remove(old_name@).insert(
                new_name@,
                (ModelConfig {
                    api_key: match api_key {
                        Some(k) => k,
                        None => old(self).models@[old_name@].api_key,
                    },
                    api_url: api_url,
                    model: model,
                }),
            ),
            old(self).current_model matches Some(c) && r is Ok && c@ == old_name@ ==> (final(self).current_model matches Some(k) && k@ == new_name@),
            old(self).current_model matches Some(c) && r is Ok && c@ != old_name@ ==> final(self).current_model == old(self).current_model,
            old(self).current_model is None ==> final(self).current_model is None,
    {
        let old_config = match self.models.get(old_name) {
            Some(c) => clone_model_config(c),
            None => {
                return Err(ModelError::NotFound(old_name.to_owned()));
            },
        };
        let renamed = !crate::text::str_eq(old_name, new_name.as_str());
        if renamed && self.models.contains(new_name.as_str()) {
            return Err(ModelError::AlreadyExists(new_name));
        }
        let config = ModelConfig {
            api_key: match api_key {
                Some(k) => k,
                None => old_config.api_key,
            },
            api_url,
            model,
        };
        self.models.remove(old_name);
        let current_follows = match &self.current_model {
            Some(c) => crate::text::str_eq(c.as_str(), old_name),
            None => false,
        };
        if current_follows {
            self.current_model = Some(new_name.clone());
        }
        self.models.insert(new_name, config);
        proof {
            if self.current_model is Some {
                let c = self.current_model->0;
                if old(self).current_model is Some && old(self).current_model->0@ != old_name@ {
                    assert(self.models@.contains_key(c@));
                }
            }
        }
        Ok(())
    }
}

} // verus!
