use kaneru::app_resolver::AppInfo;
use kaneru::app_resolver::AppResolver;
use kaneru::config::BarConfig;
use kaneru::config::DockPosition;
use kaneru::config::ModuleType;
use kaneru::config::NotificationPosition;

fn app(desktop_id: &str, name: &str, exec_cmd: &str) -> AppInfo {
    AppInfo {
        desktop_id: String::from(desktop_id),
        name: String::from(name),
        icon: String::from("icon"),
        exec_cmd: String::from(exec_cmd),
        generic_name: None,
        keywords: Vec::new(),
    }
}

#[test]
fn clean_exec_drops_field_codes() {
    let words = AppResolver::clean_exec("/usr/bin/firefox %u --new-window %F");
    assert_eq!(words, vec!["/usr/bin/firefox", "--new-window"]);
}

#[test]
fn clean_exec_of_empty_line_is_empty() {
    assert_eq!(AppResolver::clean_exec("   "), Vec::<String>::new());
}

#[test]
fn extract_command_name_takes_the_last_path_segment() {
    let r = AppResolver::new();
    assert_eq!(r.extract_command_name("/usr/bin/firefox %u"), "firefox");
    assert_eq!(r.extract_command_name("google-chrome --incognito %U"), "google-chrome");
    assert_eq!(r.extract_command_name("env FOO=1 app"), "env");
    assert_eq!(r.extract_command_name(""), "");
}

#[test]
fn resolve_finds_by_name_case_insensitively() {
    let mut r = AppResolver::new();
    r.register_app(app("org.mozilla.firefox", "Firefox", "/usr/bin/firefox %u"));
    let found = r.resolve("FIREFOX").expect("name lookup");
    assert_eq!(found.desktop_id, "org.mozilla.firefox");
}

#[test]
fn resolve_finds_by_command_and_desktop_id() {
    let mut r = AppResolver::new();
    r.register_app(app("org.gnome.Nautilus", "Files", "/usr/bin/nautilus %U"));
    assert_eq!(r.resolve("nautilus").expect("command lookup").name, "Files");
    assert_eq!(r.resolve("org.gnome.nautilus").expect("desktop lookup").name, "Files");
    assert!(r.resolve_by_desktop_id("ORG.GNOME.NAUTILUS").is_some());
    assert!(r.resolve_by_desktop_id("unknown").is_none());
}

#[test]
fn generic_name_and_keywords_yield_lookups_without_stealing_names() {
    let mut r = AppResolver::new();
    r.register_app(AppInfo {
        desktop_id: String::from("org.example.browser"),
        name: String::from("Surf"),
        icon: String::from("icon"),
        exec_cmd: String::from("surf"),
        generic_name: Some(String::from("Web Browser")),
        keywords: vec![String::from("internet")],
    });
    r.register_app(AppInfo {
        desktop_id: String::from("org.example.mail"),
        name: String::from("Web Browser"),
        icon: String::from("icon"),
        exec_cmd: String::from("mailer"),
        generic_name: None,
        keywords: Vec::new(),
    });
    // The generic name was registered first, so the second application's real
    // name takes the key over.
    assert_eq!(r.resolve("web browser").expect("name lookup").desktop_id, "org.example.mail");
    assert_eq!(r.resolve("internet").expect("keyword lookup").desktop_id, "org.example.browser");
}

#[test]
fn fuzzy_search_scores_prefixes() {
    let mut r = AppResolver::new();
    r.register_app(app("org.mozilla.firefox", "Firefox", "/usr/bin/firefox %u"));
    r.register_app(app("org.gnome.Nautilus", "Files", "/usr/bin/nautilus %U"));
    let found = r.resolve("firef").expect("prefix match");
    assert_eq!(found.desktop_id, "org.mozilla.firefox");
    assert!(r.resolve("zzzz").is_none());
}

#[test]
fn match_scores_follow_the_tiers() {
    let r = AppResolver::new();
    assert_eq!(r.calculate_match_score("firefox", "firefox", "Firefox"), 100);
    assert_eq!(r.calculate_match_score("fire", "firefox", "Firefox"), 90);
    assert_eq!(r.calculate_match_score("refo", "firefox", "Firefox"), 70);
    assert_eq!(r.calculate_match_score("files", "nautilus", "GNOME Files"), 60);
    assert_eq!(r.calculate_match_score("webbrowser", "web-browser", "Web-Browser"), 65);
    assert_eq!(r.calculate_match_score("xyz", "abc", "Abc"), 0);
}

#[test]
fn word_prefixes_share_the_fifty_points() {
    let r = AppResolver::new();
    // Both query words match a key word by prefix: the full 50.
    assert_eq!(r.calculate_match_score("vis stu", "code-editor", "Visual Studio"), 50);
    // One of the two query words matches: half of 50.
    assert_eq!(r.calculate_match_score("vis zz", "code-editor", "Visual Studio"), 25);
}

#[test]
fn bar_config_defaults_match_the_built_ins() {
    let c = BarConfig::default();
    assert_eq!(c.font.as_deref(), Some("Sans 10"));
    assert_eq!(c.modules_left, vec![ModuleType::AppMenu, ModuleType::ActiveClient]);
    assert!(c.modules_center.is_empty());
    assert_eq!(c.modules_right, vec![ModuleType::Battery, ModuleType::Clock]);
    assert_eq!(c.clock_format.as_deref(), Some("%A %e, %H:%M"));
    assert_eq!(c.notification_position, NotificationPosition::TopRight);
    assert_eq!(c.active_client_max_length, 20);
    assert!(c.battery.show_details);
    assert_eq!(c.dock.position, DockPosition::Bottom);
    assert_eq!(c.dock.icon_size, 48);
    assert_eq!(c.dock.favorites, vec!["zen", "firefox", "nautilus", "terminal"]);
}

#[test]
fn desktop_file_parses_into_an_application() {
    let content = "\
[Desktop Entry]
Type=Application
Name=Firefox
GenericName=Web Browser
Keywords=Internet;Browser; ;
Exec=/usr/bin/firefox %u
Icon=firefox

[Desktop Action new-window]
Name=New Window
";
    let info = AppResolver::parse_desktop_file(content, String::from("org.mozilla.firefox"))
        .expect("a launchable application");
    assert_eq!(info.desktop_id, "org.mozilla.firefox");
    assert_eq!(info.name, "Firefox");
    assert_eq!(info.icon, "firefox");
    assert_eq!(info.exec_cmd, "/usr/bin/firefox");
    assert_eq!(info.generic_name.as_deref(), Some("Web Browser"));
    assert_eq!(info.keywords, vec!["internet", "browser"]);
}

#[test]
fn desktop_file_ignores_other_groups_and_hidden_entries() {
    let outside = "Type=Application\nName=Ghost\nExec=ghost\n";
    assert!(AppResolver::parse_desktop_file(outside, String::from("ghost")).is_none());
    let hidden = "[Desktop Entry]\nType=Application\nName=H\nExec=h\nNoDisplay=true\n";
    assert!(AppResolver::parse_desktop_file(hidden, String::from("h")).is_none());
    let not_app = "[Desktop Entry]\nType=Link\nName=L\nExec=l\n";
    assert!(AppResolver::parse_desktop_file(not_app, String::from("l")).is_none());
    let missing_icon = "[Desktop Entry]\nType=Application\nName=Plain\nExec=plain\n";
    let info = AppResolver::parse_desktop_file(missing_icon, String::from("plain")).unwrap();
    assert_eq!(info.icon, "application-x-executable");
}
