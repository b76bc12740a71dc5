//! Where the plugin subsystem's files live under the configuration
//! directory. The caller resolves the configuration directory itself (it
//! comes from the process environment) and does all reading and writing.

use vstd::prelude::*;

verus! {

/// The plugins directory under `config_dir`.
pub open spec fn plugin_dir_spec(config_dir: Seq<char>) -> Seq<char> {
    config_dir + "/plugins"@
}

/// The content file of plugin `id` under `config_dir`.
pub open spec fn plugin_file_spec(config_dir: Seq<char>, id: Seq<char>) -> Seq<char> {
    plugin_dir_spec(config_dir) + "/"@ + id + ".ts"@
}

/// Where the plugin content files live under `config_dir`.
pub fn get_plugin_dir(config_dir: &str) -> (r: String)
    ensures
        r@ == plugin_dir_spec(config_dir@),
{
    let mut p = String::new();
    p.append(config_dir);
    p.append("/plugins");
    p
}

/// The content file's path for plugin `id` under `config_dir`.
pub fn get_plugin_file_path(config_dir: &str, id: &str) -> (r: String)
    ensures
        r@ == plugin_file_spec(config_dir@, id@),
{
    let mut p = get_plugin_dir(config_dir);
    p.append("/");
    p.append(id);
    p.append(".ts");
    p
}

/// The catalog file's path under `config_dir`.
pub fn get_plugin_list_path(config_dir: &str) -> (r: String)
    ensures
        r@ == plugin_dir_spec(config_dir@) + "/list.toml"@,
{
    let mut p = get_plugin_dir(config_dir);
    p.append("/list.toml");
    p
}

} // verus!
