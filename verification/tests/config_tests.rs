use dirsync::config::Config;
use dirsync::config::ReadSessionConfigError;
use dirsync::config::ReceivePathRec;
use dirsync::config::RemoteConfigRecord;
use dirsync::config::SessionConfig;
use dirsync::config::default_as_true;
use dirsync::events::FileEvent;
use dirsync::init::InitError;
use dirsync::init::action_dirs;
use dirsync::init::config_file_path;
use dirsync::init::ignore_file_path;
use dirsync::init::init_config_text;
use dirsync::json::encode_config;
use dirsync::json::encode_file_event;
use dirsync::json::parse_config;

fn remote_record(receive_paths: Option<Vec<&str>>) -> RemoteConfigRecord {
    RemoteConfigRecord {
        root: String::from("/srv/project"),
        host: String::from("example.com"),
        user: String::from("me"),
        receive_paths: receive_paths.map(|ps| {
            ps.into_iter().map(|p| ReceivePathRec { path: String::from(p) }).collect()
        }),
    }
}

fn assert_remote_eq(a: &RemoteConfigRecord, b: &RemoteConfigRecord) {
    assert_eq!(a.root, b.root);
    assert_eq!(a.host, b.host);
    assert_eq!(a.user, b.user);
    match (&a.receive_paths, &b.receive_paths) {
        (None, None) => {}
        (Some(xs), Some(ys)) => {
            assert_eq!(xs.len(), ys.len());
            for (x, y) in xs.iter().zip(ys.iter()) {
                assert_eq!(x.path, y.path);
            }
        }
        _ => panic!("receive paths differ"),
    }
}

#[test]
fn a_fresh_config_enables_gitignore_exclusion() {
    let config = Config::new(remote_record(None));
    assert!(config.ignore_gitignore);
    assert!(default_as_true());
}

#[test]
fn session_strings_follow_the_remote_coordinates() {
    let config = SessionConfig {
        local_root: String::from("/home/me/project"),
        remote: remote_record(None),
        ignore_gitignore: true,
    };
    assert_eq!(config.host_port_string(), "example.com:22");
    assert_eq!(config.destination(), "me@example.com:/srv/project");
    assert_eq!(config.exclude_path(), "/home/me/project/.dirsync/ignore");
    assert_eq!(
        SessionConfig::config_path("/home/me/project"),
        "/home/me/project/.dirsync/config.json"
    );
    assert_eq!(config.remote.host_string(), "me@example.com");
}

#[test]
fn a_config_round_trips_through_its_persisted_form() {
    let config = Config::new(remote_record(Some(vec!["logs", "cache"])));
    let text = encode_config(&config);
    let back = parse_config(&text).expect("the encoder's output parses");
    assert_eq!(back.ignore_gitignore, config.ignore_gitignore);
    assert_remote_eq(&back.remote, &config.remote);
}

#[test]
fn a_config_without_receive_paths_round_trips() {
    let config = Config { ignore_gitignore: false, remote: remote_record(None) };
    let text = encode_config(&config);
    assert_eq!(
        text,
        "{\"ignore_gitignore\":false,\"remote\":{\"root\":\"/srv/project\",\"host\":\"example.com\",\"user\":\"me\",\"receive_paths\":null}}"
    );
    let back = parse_config(&text).expect("the encoder's output parses");
    assert!(!back.ignore_gitignore);
    assert_remote_eq(&back.remote, &config.remote);
}

#[test]
fn quotes_and_backslashes_in_values_round_trip() {
    let mut remote = remote_record(None);
    remote.root = String::from("/srv/\"odd\" \\path");
    let config = Config::new(remote);
    let text = encode_config(&config);
    let back = parse_config(&text).expect("escaped values parse");
    assert_eq!(back.remote.root, "/srv/\"odd\" \\path");
}

#[test]
fn an_absent_flag_defaults_to_true() {
    let text = "{\"remote\":{\"root\":\"/srv\",\"host\":\"h\",\"user\":\"u\",\"receive_paths\":null}}";
    let config = parse_config(text).expect("record without the flag parses");
    assert!(config.ignore_gitignore, "the default is true");
}

#[test]
fn an_absent_receive_paths_member_means_none() {
    let text = "{\"ignore_gitignore\":true,\"remote\":{\"root\":\"/srv\",\"host\":\"h\",\"user\":\"u\"}}";
    let config = parse_config(text).expect("record without receive paths parses");
    assert!(config.remote.receive_paths.is_none());
}

#[test]
fn the_flag_alias_is_accepted() {
    let text = "{\"ignoreGitignore\":false,\"remote\":{\"root\":\"/srv\",\"host\":\"h\",\"user\":\"u\",\"receive_paths\":null}}";
    let config = parse_config(text).expect("aliased flag parses");
    assert!(!config.ignore_gitignore);
}

#[test]
fn whitespace_and_member_order_are_accepted() {
    let text = " {\n  \"remote\" : { \"user\" : \"u\" , \"host\" : \"h\" , \"root\" : \"/srv\" } ,\n  \"ignore_gitignore\" : false\n}\n";
    let config = parse_config(text).expect("pretty text parses");
    assert!(!config.ignore_gitignore);
    assert_eq!(config.remote.root, "/srv");
    assert_eq!(config.remote.host, "h");
    assert_eq!(config.remote.user, "u");
}

#[test]
fn an_empty_receive_path_list_parses() {
    let text = "{\"remote\":{\"root\":\"/srv\",\"host\":\"h\",\"user\":\"u\",\"receive_paths\":[]}}";
    let config = parse_config(text).expect("empty list parses");
    assert_eq!(config.remote.receive_paths.expect("present").len(), 0);
}

#[test]
fn malformed_records_are_rejected() {
    assert!(parse_config("").is_none());
    assert!(parse_config("{}").is_none(), "the remote member is required");
    assert!(parse_config("{\"remote\":{\"root\":\"/srv\",\"host\":\"h\"}}").is_none());
    assert!(parse_config("not json").is_none());
    assert!(
        parse_config(
            "{\"remote\":{\"root\":\"/srv\",\"host\":\"h\",\"user\":\"u\"}} trailing"
        )
        .is_none(),
        "trailing text is rejected"
    );
    assert!(
        parse_config(
            "{\"remote\":{\"root\":\"/srv\",\"host\":\"h\",\"user\":\"u\",\"root\":\"/again\"}}"
        )
        .is_none(),
        "a repeated member is rejected"
    );
}

#[test]
fn a_session_resolves_from_the_record_text() {
    let text = "{\"remote\":{\"root\":\"/srv\",\"host\":\"h\",\"user\":\"u\"}}";
    let session =
        SessionConfig::from_config_text("/home/me/project", text).expect("record resolves");
    assert_eq!(session.local_root, "/home/me/project");
    assert_eq!(session.remote.root, "/srv");
    assert!(session.ignore_gitignore);

    let err = SessionConfig::from_config_text(".", "{broken").unwrap_err();
    match err {
        ReadSessionConfigError::FailedToDeserialize(m) => {
            assert_eq!(m, "unrecognized configuration record")
        }
        _ => panic!("malformed text is a deserialize failure"),
    }
}

#[test]
fn read_errors_carry_their_diagnostics() {
    assert_eq!(ReadSessionConfigError::DoesNotExist.message(), "Does not exist");
    assert_eq!(
        ReadSessionConfigError::FailedToRead(String::from("denied")).message(),
        "Failed to read config file: denied"
    );
    assert_eq!(
        ReadSessionConfigError::FailedToDeserialize(String::from("bad")).message(),
        "Failed to deserialize config file: bad"
    );
    assert_eq!(
        InitError::Io(String::from("full")).message(),
        "Config file error: full"
    );
    assert_eq!(InitError::Serde(String::from("bad")).message(), "JSON error: bad");
}

#[test]
fn init_lays_out_the_control_directory() {
    let dirs = action_dirs();
    assert_eq!(
        dirs,
        vec!["./.dirsync/actions/onSyncDidFinish", "./.dirsync/actions/onSessionDidStart"]
    );
    assert_eq!(ignore_file_path(), "./.dirsync/ignore");
    assert_eq!(config_file_path(), "./.dirsync/config.json");
    let text = init_config_text(remote_record(None));
    let back = parse_config(&text).expect("the initial record parses");
    assert!(back.ignore_gitignore);
    assert_eq!(back.remote.root, "/srv/project");
}

#[test]
fn watch_records_tag_the_variant_and_paths() {
    assert_eq!(
        encode_file_event(&FileEvent::Create(String::from("a.txt"))),
        "{\"Create\":\"a.txt\"}"
    );
    assert_eq!(
        encode_file_event(&FileEvent::Write(String::from("b b.txt"))),
        "{\"Write\":\"b b.txt\"}"
    );
    assert_eq!(
        encode_file_event(&FileEvent::Chmod(String::from("c"))),
        "{\"Chmod\":\"c\"}"
    );
    assert_eq!(
        encode_file_event(&FileEvent::Remove(String::from("d"))),
        "{\"Remove\":\"d\"}"
    );
    assert_eq!(
        encode_file_event(&FileEvent::Rename(String::from("from"), String::from("to"))),
        "{\"Rename\":[\"from\",\"to\"]}"
    );
    assert_eq!(
        encode_file_event(&FileEvent::Create(String::from("a\"b\\c"))),
        "{\"Create\":\"a\\\"b\\\\c\"}"
    );
}

#[test]
fn escape_sequences_in_values_decode() {
    let text = "{\"remote\":{\"root\":\"a\\nb\\tc\\/d\\re\",\"host\":\"h\",\"user\":\"u\"}}";
    let config = parse_config(text).expect("escapes decode");
    assert_eq!(config.remote.root, "a\nb\tc/d\re");
}

#[test]
fn unknown_members_and_repeated_flags_are_rejected() {
    assert!(
        parse_config(
            "{\"extra\":true,\"remote\":{\"root\":\"/srv\",\"host\":\"h\",\"user\":\"u\"}}"
        )
        .is_none(),
        "an unknown member is rejected"
    );
    assert!(
        parse_config(
            "{\"ignore_gitignore\":true,\"ignoreGitignore\":false,\"remote\":{\"root\":\"/srv\",\"host\":\"h\",\"user\":\"u\"}}"
        )
        .is_none(),
        "the flag and its alias together are rejected"
    );
    assert!(
        parse_config(
            "{\"remote\":{\"root\":\"/srv\",\"host\":\"h\",\"user\":\"u\",\"receive_paths\":[{\"path\":\"logs\"},]}}"
        )
        .is_none(),
        "a trailing comma is rejected"
    );
}

#[test]
fn receive_paths_parse_in_order() {
    let text = "{\"remote\":{\"root\":\"/srv\",\"host\":\"h\",\"user\":\"u\",\"receive_paths\":[{\"path\":\"logs\"},{\"path\":\"cache\"}]}}";
    let config = parse_config(text).expect("list parses");
    let paths = config.remote.receive_paths.expect("present");
    assert_eq!(paths.len(), 2);
    assert_eq!(paths[0].path, "logs");
    assert_eq!(paths[1].path, "cache");
}
