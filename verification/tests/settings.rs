use snippet_store::settings::{
    default_db, level_of, log_level, plan_download, AppConfig, Args, Download, LogLevel,
};

fn args(name: Option<&str>, download: Option<&str>) -> Args {
    Args {
        conf: String::from("config.toml"),
        name: name.map(String::from),
        download: download.map(String::from),
    }
}

#[test]
fn the_default_database_is_local() {
    let database = default_db();
    assert_eq!(database.url, "localhost");
    assert_eq!(database.port, 5432);
    let config = AppConfig::default();
    assert!(!config.debug);
    assert_eq!(config.database.url, "localhost");
    assert_eq!(config.database.port, 5432);
}

#[test]
fn log_levels_by_name() {
    assert_eq!(log_level(None), LogLevel::Info);
    assert_eq!(log_level(Some("debug")), LogLevel::Debug);
    assert_eq!(log_level(Some("DEBUG")), LogLevel::Debug);
    assert_eq!(log_level(Some("Error")), LogLevel::Error);
    assert_eq!(log_level(Some("info")), LogLevel::Info);
    assert_eq!(log_level(Some("warn")), LogLevel::Info);
    assert_eq!(log_level(Some("")), LogLevel::Info);
    assert_eq!(log_level(Some(" debug")), LogLevel::Info);
    assert_eq!(level_of("debug"), LogLevel::Debug);
    assert_eq!(level_of("DEBUG"), LogLevel::Info);
    assert_eq!(level_of("error"), LogLevel::Error);
    assert_eq!(level_of("errors"), LogLevel::Info);
}

#[test]
fn a_download_takes_a_name_and_a_valid_address() {
    assert!(matches!(plan_download(&args(None, None)), Download::NotAsked));
    assert!(matches!(plan_download(&args(Some("n"), None)), Download::NotAsked));
    assert!(matches!(plan_download(&args(None, Some("https://x.y"))), Download::NotAsked));
    assert!(matches!(plan_download(&args(None, Some("nonsense"))), Download::NotAsked));
    assert!(matches!(plan_download(&args(Some("n"), Some("ftp://x.y"))), Download::InvalidUrl));
    match plan_download(&args(Some("notes"), Some("https://example.com/a"))) {
        Download::Fetch { url, filename } => {
            assert_eq!(url, "https://example.com/a");
            assert_eq!(filename, "notes.txt");
        }
        other => panic!("{:?}", other),
    }
    match plan_download(&args(Some("notes.txt"), Some("http://example.com"))) {
        Download::Fetch { url, filename } => {
            assert_eq!(url, "http://example.com");
            assert_eq!(filename, "notes.txt");
        }
        other => panic!("{:?}", other),
    }
}
