//! Where the configuration of a plugin is looked for.

use vstd::prelude::*;
use vstd::string::*;

verus! {

/// The configuration file of the plugin `plugin_name` below the data directory
/// `dir`.
pub open spec fn config_file(dir: Seq<char>, plugin_name: Seq<char>) -> Seq<char> {
    dir + "/plugins/"@ + plugin_name + "/config.ron"@
}

/// The places where the configuration of `plugin_name` may lie: one below each
/// of the data directories, in their order, and last the one below the user's
/// own data directory.
pub open spec fn config_files(dirs: Seq<Seq<char>>, home: Seq<char>, plugin_name: Seq<char>) -> Seq<
    Seq<char>,
> {
    dirs.map_values(|dir: Seq<char>| config_file(dir, plugin_name)).push(
        config_file(home, plugin_name),
    )
}

/// The configuration file of a plugin below one data directory.
fn candidate(dir: &str, plugin_name: &str) -> (file: String)
    ensures
        file@ == config_file(dir@, plugin_name@),
{
    let mut file = String::from_str(dir);
    file.append("/plugins/");
    file.append(plugin_name);
    file.append("/config.ron");
    file
}

/// Lists the places where the configuration of `plugin_name` may lie, given
/// the data directories and the user's own data directory. Which of them exist
/// is for the caller to find out.
pub fn get_config_files(dirs: &Vec<String>, home: &str, plugin_name: &str) -> (files: Vec<String>)
    ensures
        files@.map_values(|f: String| f@) == config_files(
            dirs@.map_values(|d: String| d@),
            home@,
            plugin_name@,
        ),
{
    let mut files: Vec<String> = Vec::new();
    let mut i: usize = 0;
    while i < dirs.len()
        invariant
            i <= dirs.len(),
            files.len() == i,
            forall|k: int|
                0 <= k < i ==> (#[trigger] files[k])@ == config_file(dirs[k]@, plugin_name@),
        decreases dirs.len() - i,
    {
        files.push(candidate(dirs[i].as_str(), plugin_name));
        i += 1;
    }
    files.push(candidate(home, plugin_name));
    assert(files@.map_values(|f: String| f@) =~= config_files(
        dirs@.map_values(|d: String| d@),
        home@,
        plugin_name@,
    ));
    files
}

} // verus!
