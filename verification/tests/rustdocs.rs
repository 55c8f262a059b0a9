use pop_launcher_plugins::plugin::PopLauncherPlugin;
use pop_launcher_plugins::protocol::{Request, Response};
use pop_launcher_plugins::rustdocs::{
    get_index_path, lookup, parse_listed, parse_listing, Listed, RustDocsPlugin, Type,
};

fn file(name: &str) -> Listed {
    Listed { file_name: name.to_string(), is_dir: false, path: format!("/doc/std/vec/{}", name) }
}

fn dir(name: &str) -> Listed {
    Listed { file_name: name.to_string(), is_dir: true, path: format!("/doc/std/vec/{}", name) }
}

fn listing() -> Vec<Listed> {
    vec![
        file("struct.Vec.html"),
        file("struct.IntoIter.html"),
        file("index.html"),
        dir("vec_deque"),
        file("fn.from_elem.html"),
        file("sidebar-items.js"),
        file("macro.vec.html"),
        file("README"),
    ]
}

#[test]
fn type_try_from_knows_each_tag() {
    assert_eq!(Type::try_from("fn"), Ok(Type::Function));
    assert_eq!(Type::try_from("struct"), Ok(Type::Struct));
    assert_eq!(Type::try_from("constant"), Ok(Type::Constant));
    assert_eq!(Type::try_from("trait"), Ok(Type::Trait));
    assert_eq!(Type::try_from("macro"), Ok(Type::Macro));
    assert_eq!(Type::try_from("type"), Ok(Type::Type));
    assert_eq!(Type::try_from("enum"), Ok(Type::Enum));
    assert_eq!(Type::try_from("primitive"), Ok(Type::Primitive));
    assert_eq!(Type::try_from("keyword"), Ok(Type::Keyword));
}

#[test]
fn type_try_from_names_an_unknown_tag() {
    assert_eq!(Type::try_from("index"), Err(String::from("Could not find type index")));
    assert_eq!(Type::try_from("module"), Err(String::from("Could not find type module")));
    assert_eq!(Type::try_from(""), Err(String::from("Could not find type ")));
    assert_eq!(Type::try_from("Fn"), Err(String::from("Could not find type Fn")));
}

#[test]
fn type_description_of_each_kind() {
    assert_eq!(Type::Function.description(), "function");
    assert_eq!(Type::Struct.description(), "struct");
    assert_eq!(Type::Keyword.description(), "keyword");
    assert_eq!(Type::Macro.description(), "macro");
    assert_eq!(Type::Trait.description(), "trait");
    assert_eq!(Type::Module.description(), "module");
    assert_eq!(Type::Primitive.description(), "primitive");
    assert_eq!(Type::Constant.description(), "contant");
    assert_eq!(Type::Enum.description(), "enum");
    assert_eq!(Type::Type.description(), "type");
}

#[test]
fn index_path_needs_a_final_line_feed() {
    assert_eq!(
        get_index_path("/home/u/.rustup/doc/index.html\n"),
        Some(String::from("/home/u/.rustup/doc/index.html"))
    );
    assert_eq!(get_index_path("/doc/index.html"), None);
    assert_eq!(get_index_path(""), None);
    assert_eq!(get_index_path("\n"), Some(String::new()));
    assert_eq!(get_index_path("/doc\n\n"), Some(String::from("/doc\n")));
}

#[test]
fn lookup_cuts_the_module_path_from_the_term() {
    let asked = lookup("rust std::vec::Ve").unwrap();
    assert_eq!(asked.module, "std/vec");
    assert_eq!(asked.term, "Ve");
    let asked = lookup("rust Vec").unwrap();
    assert_eq!(asked.module, "");
    assert_eq!(asked.term, "Vec");
    let asked = lookup("rust std::").unwrap();
    assert_eq!(asked.module, "std");
    assert_eq!(asked.term, "");
    let asked = lookup("rust ").unwrap();
    assert_eq!(asked.module, "");
    assert_eq!(asked.term, "");
}

#[test]
fn lookup_of_an_unclaimed_query_is_none() {
    assert!(lookup("rust").is_none());
    assert!(lookup("rusty std").is_none());
    assert!(lookup("std::vec").is_none());
}

#[test]
fn parse_listed_reads_files_and_directories() {
    let entry = parse_listed(&file("struct.Vec.html")).unwrap();
    assert_eq!(entry.name, "Vec");
    assert_eq!(entry.kind, Type::Struct);
    assert_eq!(entry.file_path, "/doc/std/vec/struct.Vec.html");
    let entry = parse_listed(&dir("vec_deque")).unwrap();
    assert_eq!(entry.name, "vec_deque");
    assert_eq!(entry.kind, Type::Module);
    assert_eq!(entry.file_path, "/doc/std/vec/vec_deque/index.html");
    let entry = parse_listed(&file("fn.x")).unwrap();
    assert_eq!(entry.name, "x");
    assert_eq!(entry.kind, Type::Function);
}

#[test]
fn parse_listed_skips_what_documents_nothing() {
    assert!(parse_listed(&file("README")).is_none());
    assert!(parse_listed(&file("index.html")).is_none());
    assert!(parse_listed(&file("sidebar-items.js")).is_none());
    assert!(parse_listed(&file("")).is_none());
}

#[test]
fn parse_listing_keeps_the_order() {
    let entries = parse_listing(&listing());
    let names: Vec<&str> = entries.iter().map(|e| e.name.as_str()).collect();
    assert_eq!(names, vec!["Vec", "IntoIter", "vec_deque", "from_elem", "vec"]);
}

#[test]
fn docs_search_without_prefix_is_clear_then_finished() {
    let mut plugin = RustDocsPlugin::new();
    plugin.search("rust std::vec::Vec", &listing());
    assert!(plugin.len() > 0);
    let responses = plugin.search("std::vec::Vec", &listing());
    assert_eq!(responses.len(), 2);
    assert!(matches!(responses[0], Response::Clear));
    assert!(matches!(responses[1], Response::Finished));
    assert_eq!(plugin.len(), 0);
}

#[test]
fn docs_search_ranks_the_best_match_first() {
    let mut plugin = RustDocsPlugin::new();
    let responses = plugin.search("rust std::vec::Vec", &listing());
    let mut shown = Vec::new();
    for response in &responses {
        if let Response::Append(result) = response {
            shown.push((result.id, result.name.clone(), result.description.clone()));
        }
    }
    assert_eq!(shown[0], (0, String::from("Vec"), String::from("struct")));
    assert_eq!(shown.len(), plugin.len());
    for (n, entry) in shown.iter().enumerate() {
        assert_eq!(entry.0, n as u32);
    }
    assert!(shown.iter().all(|entry| entry.1 != "IntoIter"));
    assert!(shown.iter().all(|entry| entry.1 != "from_elem"));
}

#[test]
fn docs_search_with_an_empty_term_shows_the_listing_in_order() {
    let mut plugin = RustDocsPlugin::new();
    let responses = plugin.search("rust std::vec::", &listing());
    let mut names = Vec::new();
    for response in &responses {
        if let Response::Append(result) = response {
            names.push(result.name.clone());
        }
    }
    assert_eq!(names, vec!["Vec", "IntoIter", "vec_deque", "from_elem", "vec"]);
}

#[test]
fn docs_search_shows_at_most_ten() {
    let many: Vec<Listed> = (0..15).map(|i| file(&format!("fn.item{}.html", i))).collect();
    let mut plugin = RustDocsPlugin::new();
    let responses = plugin.search("rust item", &many);
    assert_eq!(responses.len(), 12);
    assert_eq!(plugin.len(), 10);
    assert!(plugin.get(9).is_some());
    assert!(plugin.get(10).is_none());
}

#[test]
fn docs_search_with_an_empty_listing_finds_nothing() {
    let mut plugin = RustDocsPlugin::new();
    let responses = plugin.search("rust std::nope::x", &Vec::new());
    assert_eq!(responses.len(), 2);
}

#[test]
fn docs_activation_opens_the_page_and_closes() {
    let mut plugin = RustDocsPlugin::new();
    plugin.search("rust std::vec::Vec", &listing());
    let launch = plugin.activate(0);
    assert_eq!(launch.responses.len(), 1);
    assert!(matches!(launch.responses[0], Response::Close));
    let spawn = launch.spawn.unwrap();
    assert_eq!(spawn.program, "xdg-open");
    assert_eq!(spawn.args, vec![String::from("/doc/std/vec/struct.Vec.html")]);
}

#[test]
fn docs_activation_of_a_stale_id_is_ignored() {
    let mut plugin = RustDocsPlugin::new();
    let launch = plugin.activate(0);
    assert!(launch.responses.is_empty());
    assert!(launch.spawn.is_none());
    plugin.search("rust std::vec::Vec", &listing());
    let launch = plugin.activate(plugin.len() as u32);
    assert!(launch.responses.is_empty());
    assert!(launch.spawn.is_none());
}

#[test]
fn docs_request_dispatches_each_verb() {
    let mut plugin = RustDocsPlugin::new();
    let launch = plugin.request(Request::Search(String::from("rust vec_d")), &listing());
    assert_eq!(launch.responses.len(), 3);
    let launch = plugin.request(Request::Activate(0), &Vec::new());
    assert_eq!(launch.spawn.unwrap().args[0], "/doc/std/vec/vec_deque/index.html");
    for request in [Request::Complete(0), Request::Context(0), Request::Quit(0)] {
        let launch = plugin.request(request, &Vec::new());
        assert!(launch.responses.is_empty());
        assert!(launch.spawn.is_none());
    }
}
