use pop_launcher_plugins::protocol::{frame_line, Icon, Launch, Response, SearchResult, Spawn};
use pop_launcher_plugins::results::ResultList;

#[test]
fn frame_line_appends_one_line_feed() {
    assert_eq!(frame_line(String::from("\"Clear\"")), "\"Clear\"\n");
    assert_eq!(frame_line(String::new()), "\n");
    assert_eq!(frame_line(String::from("{\"Fill\":\"media \"}")), "{\"Fill\":\"media \"}\n");
}

#[test]
fn plain_result_leaves_the_other_fields_empty() {
    let result = SearchResult::plain(
        3,
        String::from("Spotify"),
        String::from("Description"),
        Some(Icon::Name(String::from("spotify"))),
    );
    assert_eq!(result.id, 3);
    assert_eq!(result.name, "Spotify");
    assert_eq!(result.description, "Description");
    assert!(result.keywords.is_none());
    assert!(matches!(result.icon, Some(Icon::Name(ref n)) if n == "spotify"));
    assert!(result.exec_command.is_none());
    assert!(result.window.is_none());
}

#[test]
fn launch_none_asks_for_nothing() {
    let launch = Launch::none();
    assert!(launch.responses.is_empty());
    assert!(launch.spawn.is_none());
}

#[test]
fn launch_closing_sends_close() {
    let spawn = Spawn { program: String::from("kicad"), args: vec![String::from("a")] };
    let launch = Launch::closing(Some(spawn));
    assert_eq!(launch.responses.len(), 1);
    assert!(matches!(launch.responses[0], Response::Close));
    assert_eq!(launch.spawn.unwrap().program, "kicad");
    let launch = Launch::closing(None);
    assert_eq!(launch.responses.len(), 1);
    assert!(launch.spawn.is_none());
}

#[test]
fn result_list_hands_out_positions() {
    let mut list: ResultList<String> = ResultList::new();
    assert_eq!(list.len(), 0);
    assert_eq!(list.get(0), None);
    assert_eq!(list.push(String::from("a")), 0);
    assert_eq!(list.push(String::from("b")), 1);
    assert_eq!(list.len(), 2);
    assert_eq!(list.get(0), Some(&String::from("a")));
    assert_eq!(list.get(1), Some(&String::from("b")));
    assert_eq!(list.get(2), None);
    assert_eq!(list.get(u32::MAX), None);
}

#[test]
fn result_list_clear_invalidates_identifiers() {
    let mut list: ResultList<u8> = ResultList::new();
    list.push(7);
    list.clear();
    assert_eq!(list.len(), 0);
    assert_eq!(list.get(0), None);
    assert_eq!(list.push(9), 0);
    assert_eq!(list.get(0), Some(&9));
}
