use pop_launcher_plugins::commando::{
    get_commands, plan_spawn, Command, CommandFile, CommandoPlugin,
};
use pop_launcher_plugins::plugin::PopLauncherPlugin;
use pop_launcher_plugins::protocol::{Icon, Request, Response};

fn command(name: &str, line: &str, icon: Option<&str>) -> Command {
    Command {
        name: name.to_string(),
        command: line.to_string(),
        icon: icon.map(|i| i.to_string()),
    }
}

fn lock_screen() -> Vec<Command> {
    vec![command("Lock Screen", "loginctl lock-session", None)]
}

#[test]
fn get_commands_flattens_the_files_in_order() {
    let files = vec![
        CommandFile { commands: vec![command("a", "1", None), command("b", "2", Some("x"))] },
        CommandFile { commands: vec![] },
        CommandFile { commands: vec![command("c", "3", None)] },
    ];
    let commands = get_commands(&files);
    let names: Vec<&str> = commands.iter().map(|c| c.name.as_str()).collect();
    assert_eq!(names, vec!["a", "b", "c"]);
    assert_eq!(commands[1].command, "2");
    assert_eq!(commands[1].icon.as_deref(), Some("x"));
    assert!(get_commands(&Vec::new()).is_empty());
}

#[test]
fn command_search_returns_the_match_with_id_zero() {
    let mut plugin = CommandoPlugin::new(lock_screen());
    let responses = plugin.search("Lo");
    assert_eq!(responses.len(), 3);
    assert!(matches!(responses[0], Response::Clear));
    match &responses[1] {
        Response::Append(result) => {
            assert_eq!(result.id, 0);
            assert_eq!(result.name, "Lock Screen");
            assert_eq!(result.description, "");
            assert!(result.icon.is_none());
        }
        other => panic!("{:?}", other),
    }
    assert!(matches!(responses[2], Response::Finished));
    assert_eq!(plugin.len(), 1);
}

#[test]
fn command_activation_spawns_and_closes() {
    let mut plugin = CommandoPlugin::new(lock_screen());
    plugin.search("Lo");
    let launch = plugin.activate(0);
    assert_eq!(launch.responses.len(), 1);
    assert!(matches!(launch.responses[0], Response::Close));
    let spawn = launch.spawn.unwrap();
    assert_eq!(spawn.program, "loginctl");
    assert_eq!(spawn.args, vec![String::from("lock-session")]);
}

#[test]
fn command_activation_splits_quoted_words() {
    let mut plugin =
        CommandoPlugin::new(vec![command("Say", "notify-send 'hello world' \"a b\" c", None)]);
    plugin.search("Say");
    let spawn = plugin.activate(0).spawn.unwrap();
    assert_eq!(spawn.program, "notify-send");
    assert_eq!(
        spawn.args,
        vec![String::from("hello world"), String::from("a b"), String::from("c")]
    );
}

#[test]
fn command_activation_closes_when_the_line_cannot_be_split() {
    let mut plugin = CommandoPlugin::new(vec![command("Bad", "echo 'unterminated", None)]);
    plugin.search("Bad");
    let launch = plugin.activate(0);
    assert_eq!(launch.responses.len(), 1);
    assert!(matches!(launch.responses[0], Response::Close));
    assert!(launch.spawn.is_none());
}

#[test]
fn command_activation_closes_when_the_line_is_empty() {
    let mut plugin = CommandoPlugin::new(vec![command("Empty", "   ", None)]);
    plugin.search("Empty");
    let launch = plugin.activate(0);
    assert_eq!(launch.responses.len(), 1);
    assert!(matches!(launch.responses[0], Response::Close));
    assert!(launch.spawn.is_none());
}

#[test]
fn command_activation_of_a_stale_id_is_ignored() {
    let mut plugin = CommandoPlugin::new(lock_screen());
    let launch = plugin.activate(0);
    assert!(launch.responses.is_empty());
    assert!(launch.spawn.is_none());
    plugin.search("Lo");
    let launch = plugin.activate(1);
    assert!(launch.responses.is_empty());
    assert!(launch.spawn.is_none());
    plugin.search("zzz");
    assert_eq!(plugin.len(), 0);
    let launch = plugin.activate(0);
    assert!(launch.responses.is_empty());
    assert!(launch.spawn.is_none());
}

#[test]
fn command_ids_are_positions_in_the_pass() {
    let mut plugin = CommandoPlugin::new(vec![
        command("Reboot", "systemctl reboot", None),
        command("Lock Screen", "loginctl lock-session", Some("lock")),
        command("Log out", "loginctl terminate-session", None),
    ]);
    let responses = plugin.search("Lo");
    let mut ids = Vec::new();
    let mut names = Vec::new();
    for response in &responses {
        if let Response::Append(result) = response {
            ids.push(result.id);
            names.push(result.name.clone());
        }
    }
    assert_eq!(ids, vec![0, 1]);
    assert_eq!(plugin.len(), 2);
    assert!(names.contains(&String::from("Lock Screen")));
    assert!(names.contains(&String::from("Log out")));
    let first = plugin.activate(0).spawn.unwrap();
    let second = plugin.activate(1).spawn.unwrap();
    assert_eq!(first.program, "loginctl");
    assert_eq!(second.program, "loginctl");
    let lock_at = names.iter().position(|n| n == "Lock Screen").unwrap();
    let launched = plugin.activate(lock_at as u32).spawn.unwrap();
    assert_eq!(launched.args, vec![String::from("lock-session")]);
}

#[test]
fn command_icon_is_sent_by_name() {
    let mut plugin = CommandoPlugin::new(vec![command("Lock", "true", Some("system-lock"))]);
    let responses = plugin.search("Lock");
    match &responses[1] {
        Response::Append(result) => {
            assert!(matches!(&result.icon, Some(Icon::Name(n)) if n == "system-lock"));
        }
        other => panic!("{:?}", other),
    }
}

#[test]
fn plan_spawn_takes_the_first_word_as_program() {
    let spawn = plan_spawn(Some(vec![String::from("a"), String::from("b"), String::from("c")]))
        .unwrap();
    assert_eq!(spawn.program, "a");
    assert_eq!(spawn.args, vec![String::from("b"), String::from("c")]);
    let spawn = plan_spawn(Some(vec![String::from("a")])).unwrap();
    assert_eq!(spawn.program, "a");
    assert!(spawn.args.is_empty());
    assert!(plan_spawn(Some(Vec::new())).is_none());
    assert!(plan_spawn(None).is_none());
}

#[test]
fn command_request_dispatches_each_verb() {
    let mut plugin = CommandoPlugin::new(lock_screen());
    let launch = plugin.request(Request::Search(String::from("Lock")), &());
    assert_eq!(launch.responses.len(), 3);
    assert!(launch.spawn.is_none());
    let launch = plugin.request(Request::Activate(0), &());
    assert_eq!(launch.spawn.unwrap().program, "loginctl");
    for request in [
        Request::ActivateContext { id: 0, context: 0 },
        Request::Complete(0),
        Request::Context(0),
        Request::Exit,
        Request::Interrupt,
        Request::Quit(0),
    ] {
        let launch = plugin.request(request, &());
        assert!(launch.responses.is_empty());
        assert!(launch.spawn.is_none());
    }
    assert_eq!(plugin.len(), 1);
}
