use pop_launcher_plugins::kicad::{
    get_config, get_project_name, get_projects, project_root, Config, KicadPlugin, KicadProject,
};
use pop_launcher_plugins::plugin::PopLauncherPlugin;
use pop_launcher_plugins::protocol::{Icon, Request, Response};

fn config(path: Option<&str>) -> Option<Config> {
    Some(Config { path: path.map(|p| p.to_string()) })
}

fn projects() -> Vec<KicadProject> {
    get_projects("/home/u/amp/amp.kicad_pro\n/home/u/led driver/driver.kicad_pro\n").unwrap()
}

#[test]
fn project_name_is_the_file_stem() {
    assert_eq!(get_project_name("/home/u/amp/amp.kicad_pro"), Some(String::from("amp")));
    assert_eq!(get_project_name("board.v2.kicad_pro"), Some(String::from("board.v2")));
    assert_eq!(get_project_name("/home/u/noext"), Some(String::from("noext")));
    assert_eq!(get_project_name("/home/u/.hidden"), Some(String::from(".hidden")));
    assert_eq!(get_project_name("dir/"), Some(String::from("dir")));
}

#[test]
fn project_name_of_no_file_is_none() {
    assert_eq!(get_project_name(""), None);
    assert_eq!(get_project_name("/"), None);
    assert_eq!(get_project_name("a/.."), None);
}

#[test]
fn get_projects_reads_one_path_per_line() {
    let list = projects();
    assert_eq!(list.len(), 2);
    assert_eq!(list[0].path, "/home/u/amp/amp.kicad_pro");
    assert_eq!(list[0].name, "amp");
    assert_eq!(list[1].path, "/home/u/led driver/driver.kicad_pro");
    assert_eq!(list[1].name, "driver");
}

#[test]
fn get_projects_without_final_line_feed() {
    let list = get_projects("a.kicad_pro\nb.kicad_pro").unwrap();
    assert_eq!(list.len(), 2);
    assert_eq!(list[1].name, "b");
}

#[test]
fn get_projects_of_empty_output_is_empty() {
    assert_eq!(get_projects("").unwrap().len(), 0);
}

#[test]
fn get_projects_fails_on_a_line_that_names_no_file() {
    assert!(get_projects("a.kicad_pro\n\nb.kicad_pro\n").is_none());
    assert!(get_projects("\n").is_none());
    assert!(get_projects("/\n").is_none());
}

#[test]
fn get_config_takes_the_first_path() {
    let merged = get_config(vec![config(None), None, config(Some("/a")), config(Some("/b"))]);
    assert_eq!(merged.path.as_deref(), Some("/a"));
    let merged = get_config(vec![None, config(None)]);
    assert!(merged.path.is_none());
    let merged = get_config(Vec::new());
    assert!(merged.path.is_none());
}

#[test]
fn config_merge_keeps_what_is_set() {
    let mut left = Config { path: Some(String::from("/a")) };
    left.merge(Config { path: Some(String::from("/b")) });
    assert_eq!(left.path.as_deref(), Some("/a"));
    let mut left = Config::new();
    left.merge(Config { path: Some(String::from("/b")) });
    assert_eq!(left.path.as_deref(), Some("/b"));
    let mut left = Config { path: Some(String::from("/a")) };
    left.merge(Config::new());
    assert_eq!(left.path.as_deref(), Some("/a"));
}

#[test]
fn project_root_falls_back_to_home() {
    let home = Some(String::from("/home/u"));
    assert_eq!(
        project_root(Some(String::from("/p")), true, home.clone()),
        Some(String::from("/p"))
    );
    assert_eq!(project_root(Some(String::from("/p")), false, home.clone()), home);
    assert_eq!(project_root(None, true, home.clone()), home);
    assert_eq!(project_root(None, false, None), None);
    assert_eq!(project_root(Some(String::from("/p")), false, None), None);
}

#[test]
fn kicad_search_without_prefix_is_clear_then_finished() {
    let mut plugin = KicadPlugin::new(projects());
    plugin.search("kicad amp");
    assert_eq!(plugin.len(), 1);
    let responses = plugin.search("amp");
    assert_eq!(responses.len(), 2);
    assert!(matches!(responses[0], Response::Clear));
    assert!(matches!(responses[1], Response::Finished));
    assert_eq!(plugin.len(), 0);
    let responses = plugin.search("kicad");
    assert_eq!(responses.len(), 2);
}

#[test]
fn kicad_search_finds_projects_by_name() {
    let mut plugin = KicadPlugin::new(projects());
    let responses = plugin.search("kicad drv");
    assert_eq!(responses.len(), 3);
    match &responses[1] {
        Response::Append(result) => {
            assert_eq!(result.id, 0);
            assert_eq!(result.name, "driver");
            assert_eq!(result.description, "");
            assert!(matches!(&result.icon, Some(Icon::Name(n)) if n == "kicad"));
        }
        other => panic!("{:?}", other),
    }
    let responses = plugin.search("kicad ");
    assert_eq!(responses.len(), 4);
    assert_eq!(plugin.len(), 2);
}

#[test]
fn kicad_activation_opens_the_project_and_closes() {
    let mut plugin = KicadPlugin::new(projects());
    plugin.search("kicad drv");
    let launch = plugin.activate(0);
    assert_eq!(launch.responses.len(), 1);
    assert!(matches!(launch.responses[0], Response::Close));
    let spawn = launch.spawn.unwrap();
    assert_eq!(spawn.program, "kicad");
    assert_eq!(spawn.args, vec![String::from("/home/u/led driver/driver.kicad_pro")]);
}

#[test]
fn kicad_activation_of_a_stale_id_is_ignored() {
    let mut plugin = KicadPlugin::new(projects());
    let launch = plugin.activate(0);
    assert!(launch.responses.is_empty());
    assert!(launch.spawn.is_none());
    plugin.search("kicad drv");
    let launch = plugin.activate(1);
    assert!(launch.responses.is_empty());
    assert!(launch.spawn.is_none());
}

#[test]
fn kicad_request_dispatches_each_verb() {
    let mut plugin = KicadPlugin::new(projects());
    let launch = plugin.request(Request::Search(String::from("kicad amp")), &());
    assert_eq!(launch.responses.len(), 3);
    let launch = plugin.request(Request::Activate(0), &());
    assert_eq!(launch.spawn.unwrap().program, "kicad");
    for request in [Request::Complete(0), Request::Context(0), Request::Exit, Request::Quit(0)] {
        let launch = plugin.request(request, &());
        assert!(launch.responses.is_empty());
        assert!(launch.spawn.is_none());
    }
}
