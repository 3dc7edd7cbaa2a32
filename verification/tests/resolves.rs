use pftp::job::HostTarget;
use pftp::resolve::{decimal_text, Config, ConfigResolutionError, HostRecord, ServerGroup, ServerInfo, ServerRecord};

fn server(id: &str, name: &str, host: &str) -> ServerRecord {
    ServerRecord {
        id: id.to_string(),
        info: ServerInfo {
            name: name.to_string(),
            host: host.to_string(),
            username: format!("user-{}", name),
            output_dir: None,
        },
    }
}

fn sample() -> Config {
    let mut third = server("3", "gamma", "rack-b");
    third.info.output_dir = Some("/srv/gamma".to_string());
    Config {
        server_groups: vec![
            ServerGroup { name: "prod".to_string(), servers: vec![1, 3] },
            ServerGroup { name: "empty".to_string(), servers: Vec::new() },
            ServerGroup { name: "stale".to_string(), servers: vec![1, 9, 4] },
            ServerGroup { name: "lost".to_string(), servers: vec![4, 1] },
            ServerGroup { name: "both".to_string(), servers: vec![4, 9] },
            ServerGroup { name: "padded".to_string(), servers: vec![7] },
            ServerGroup { name: "below".to_string(), servers: vec![-5] },
        ],
        servers: vec![
            server("1", "alpha", "rack-a"),
            third,
            server("4", "delta", "rack-z"),
            server("07", "eta", "rack-a"),
            server("-5", "minus", "rack-a"),
        ],
        hosts: vec![
            HostRecord { name: "rack-a".to_string(), address: "sftp://10.0.0.1:22".to_string() },
            HostRecord { name: "rack-b".to_string(), address: "10.0.0.2:2222".to_string() },
        ],
        input_dir: "/in".to_string(),
        default_output_dir: "/out".to_string(),
    }
}

fn resolve(group: Option<&str>) -> Result<Vec<HostTarget>, ConfigResolutionError> {
    sample().resolve(&group.map(|g: &str| g.to_string()), &"secret".to_string())
}

#[test]
fn decimal_text_writes_numbers_as_to_string_does() {
    let numbers: Vec<i32> = vec![
        0, 1, 9, 10, 11, 99, 100, 101, 12345, 1000000, 2147483647, -1, -9, -10, -2147483647,
        -2147483648,
    ];
    for n in numbers {
        assert_eq!(decimal_text(n), n.to_string());
    }
    assert_eq!(decimal_text(0), "0");
    assert_eq!(decimal_text(-2147483648), "-2147483648");
    assert_eq!(decimal_text(4096), "4096");
}

#[test]
fn resolves_a_group_to_its_hosts_in_order() {
    assert_eq!(
        resolve(Some("prod")),
        Ok(vec![
            HostTarget {
                name: "alpha".to_string(),
                address: "sftp://10.0.0.1:22".to_string(),
                username: "user-alpha".to_string(),
                credential: "secret".to_string(),
                output_dir: None,
            },
            HostTarget {
                name: "gamma".to_string(),
                address: "10.0.0.2:2222".to_string(),
                username: "user-gamma".to_string(),
                credential: "secret".to_string(),
                output_dir: Some("/srv/gamma".to_string()),
            },
        ])
    );
}

#[test]
fn resolving_without_a_group_name_fails() {
    assert_eq!(resolve(None), Err(ConfigResolutionError::NoGroupSpecified));
}

#[test]
fn resolving_an_unknown_group_fails() {
    assert_eq!(resolve(Some("staging")), Err(ConfigResolutionError::GroupNotFound));
    assert_eq!(resolve(Some("")), Err(ConfigResolutionError::GroupNotFound));
    assert_eq!(resolve(Some("Prod")), Err(ConfigResolutionError::GroupNotFound));
}

#[test]
fn resolving_an_empty_group_fails() {
    assert_eq!(resolve(Some("empty")), Err(ConfigResolutionError::GroupEmpty));
}

#[test]
fn first_missing_server_is_reported() {
    assert_eq!(resolve(Some("stale")), Err(ConfigResolutionError::ServerNotFound { id: 9 }));
}

#[test]
fn first_missing_host_is_reported() {
    assert_eq!(
        resolve(Some("lost")),
        Err(ConfigResolutionError::HostNotFound {
            host: "rack-z".to_string(),
            server: "delta".to_string()
        })
    );
}

#[test]
fn missing_server_is_reported_before_any_missing_host() {
    assert_eq!(resolve(Some("both")), Err(ConfigResolutionError::ServerNotFound { id: 9 }));
}

#[test]
fn server_is_found_under_the_exact_text_of_its_number() {
    assert_eq!(resolve(Some("padded")), Err(ConfigResolutionError::ServerNotFound { id: 7 }));
    let below = resolve(Some("below")).unwrap();
    assert_eq!(below.len(), 1);
    assert_eq!(below[0].name, "minus");
}

#[test]
fn first_record_of_a_name_wins() {
    let mut config = sample();
    config.hosts.push(HostRecord { name: "rack-a".to_string(), address: "other:1".to_string() });
    config.servers.push(server("1", "shadow", "rack-b"));
    config.server_groups.push(ServerGroup { name: "prod".to_string(), servers: vec![4] });
    let targets = config.resolve(&Some("prod".to_string()), &"secret".to_string()).unwrap();
    assert_eq!(targets.len(), 2);
    assert_eq!(targets[0].name, "alpha");
    assert_eq!(targets[0].address, "sftp://10.0.0.1:22");
}

#[test]
fn lookups_find_records_or_nothing() {
    let config = sample();
    assert_eq!(config.group(&"prod".to_string()), Some(&vec![1, 3]));
    assert_eq!(config.group(&"none".to_string()), None);
    assert_eq!(config.server(4).map(|s: &ServerInfo| s.name.as_str()), Some("delta"));
    assert_eq!(config.server(2), None);
    assert_eq!(config.host(&"rack-b".to_string()), Some(&"10.0.0.2:2222".to_string()));
    assert_eq!(config.host(&"rack-z".to_string()), None);
}

#[test]
fn errors_tell_the_user_what_is_missing() {
    assert_eq!(ConfigResolutionError::NoGroupSpecified.message(), "No server group specified.");
    assert_eq!(ConfigResolutionError::GroupNotFound.message(), "Server group not found.");
    assert_eq!(ConfigResolutionError::GroupEmpty.message(), "Server group is empty.");
    assert_eq!(
        ConfigResolutionError::ServerNotFound { id: 9 }.message(),
        "Server not found. ID: 9"
    );
    assert_eq!(
        ConfigResolutionError::ServerNotFound { id: -120 }.message(),
        "Server not found. ID: -120"
    );
    assert_eq!(
        ConfigResolutionError::HostNotFound {
            host: "rack-z".to_string(),
            server: "delta".to_string()
        }
        .message(),
        "Host not found. Host: rack-z ID: delta"
    );
}

#[test]
fn only_a_missing_host_ends_the_program_with_a_failure() {
    assert_eq!(ConfigResolutionError::NoGroupSpecified.exit_code(), 0);
    assert_eq!(ConfigResolutionError::GroupNotFound.exit_code(), 0);
    assert_eq!(ConfigResolutionError::GroupEmpty.exit_code(), 0);
    assert_eq!(ConfigResolutionError::ServerNotFound { id: 1 }.exit_code(), 0);
    assert_eq!(
        ConfigResolutionError::HostNotFound { host: String::new(), server: String::new() }
            .exit_code(),
        1
    );
}
