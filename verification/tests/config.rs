use pop_launcher_plugins::config::get_config_files;

#[test]
fn config_files_lie_below_each_data_directory_and_last_below_home() {
    let dirs = vec![String::from("/usr/local/share/pop-launcher"), String::from("/usr/share/pop-launcher")];
    let files = get_config_files(&dirs, "/home/u/.local/share/pop-launcher", "kicad");
    assert_eq!(
        files,
        vec![
            String::from("/usr/local/share/pop-launcher/plugins/kicad/config.ron"),
            String::from("/usr/share/pop-launcher/plugins/kicad/config.ron"),
            String::from("/home/u/.local/share/pop-launcher/plugins/kicad/config.ron"),
        ]
    );
}

#[test]
fn config_files_without_data_directories() {
    let files = get_config_files(&Vec::new(), "/h", "rust");
    assert_eq!(files, vec![String::from("/h/plugins/rust/config.ron")]);
}
