use sahai::compose::{
    build_service_names, build_specs, diff_container_names, service_names, str_lt, BuildSpec,
    BuildValue, ComposeService,
};
use sahai::docker_args::{
    build_args, compose_down_args, compose_pull_args, compose_up_args, default_network_name,
    docker_login_args,
};
use sahai::naming::{
    compose_project_name, container_docker_name, normalize_container_path, registry_tag_name,
    subdomain_for, volume_host_path,
};
use sahai::validation::{
    validate_compose_service_name, validate_host_port, validate_registry_tag_length,
    validate_service_name, RESERVED_HTTPS_PORT, RESERVED_HTTP_PORT, RESERVED_SERVICE_NAME,
};
use std::path::Path;

// --- naming ---

#[test]
fn container_and_project_names_use_numeric_id_only() {
    assert_eq!(container_docker_name(42), "svc-42");
    assert_eq!(compose_project_name(7), "svc-7");
}

#[test]
fn subdomain_for_joins_name_and_domain() {
    assert_eq!(subdomain_for("myapp", "example.com"), "myapp.example.com");
    assert_eq!(subdomain_for("myapp", "example.com"), "myapp.example.com");
}

#[test]
fn registry_tag_name_variants() {
    assert_eq!(registry_tag_name("myapp", None), "myapp");
    assert_eq!(registry_tag_name("myapp", Some("mysql")), "myapp-mysql");
}

#[test]
fn normalize_container_path_strips_slashes() {
    assert_eq!(normalize_container_path("/var/lib/mysql"), "var-lib-mysql");
    assert_eq!(normalize_container_path("/data/"), "data");
    assert_eq!(normalize_container_path("data"), "data");
}

#[test]
fn volume_host_path_ignores_container_id() {
    let root = "/var/sahai";
    let path = volume_host_path(root, 3, "/var/lib/mysql");
    assert_eq!(path, "/var/sahai/services/3/var-lib-mysql");
}

#[test]
fn volume_host_path_drops_trailing_slash_of_root() {
    assert_eq!(
        volume_host_path("/var/sahai/", 12, "data/"),
        "/var/sahai/services/12/data"
    );
}

#[test]
fn negative_ids_are_written_with_a_sign() {
    assert_eq!(container_docker_name(-3), "svc--3");
}

// --- validation ---

#[test]
fn service_name_accepts_minimal_valid_names() {
    assert!(validate_service_name("ab").is_ok());
    assert!(validate_service_name("a1").is_ok());
    assert!(validate_service_name("my-app-2").is_ok());
}

#[test]
fn service_name_rejects_too_short_or_too_long() {
    assert!(validate_service_name("a").is_err());
    let too_long = "a".repeat(64);
    assert!(validate_service_name(&too_long).is_err());
    let max_len = format!("a{}a", "b".repeat(61));
    assert_eq!(max_len.len(), 63);
    assert!(validate_service_name(&max_len).is_ok());
}

#[test]
fn service_name_rejects_bad_first_or_last_char() {
    assert!(validate_service_name("1abc").is_err());
    assert!(validate_service_name("abc-").is_err());
    assert!(validate_service_name("-abc").is_err());
    assert!(validate_service_name("ABC").is_err());
}

#[test]
fn service_name_rejects_reserved_names() {
    assert!(validate_service_name("sahai").is_err());
    assert!(validate_service_name(RESERVED_SERVICE_NAME).is_err());
}

#[test]
fn service_name_allows_registry() {
    assert!(validate_service_name("registry").is_ok());
}

#[test]
fn service_name_allows_names_only_containing_a_reserved_word() {
    assert!(validate_service_name("sahai-app").is_ok());
    assert!(validate_service_name("my-registry").is_ok());
}

#[test]
fn compose_service_name_allows_dot_underscore_hyphen() {
    assert!(validate_compose_service_name("my.app_1-x").is_ok());
    assert!(validate_compose_service_name("").is_err());
    assert!(validate_compose_service_name("My-App").is_err());
    assert!(validate_compose_service_name("app/name").is_err());
}

#[test]
fn registry_tag_length_boundary() {
    let ok = "a".repeat(128);
    assert!(validate_registry_tag_length(&ok).is_ok());
    let too_long = "a".repeat(129);
    assert!(validate_registry_tag_length(&too_long).is_err());
}

#[test]
fn host_port_boundary() {
    assert!(validate_host_port(1).is_ok());
    assert!(validate_host_port(65535).is_ok());
    assert!(validate_host_port(0).is_err());
    assert!(validate_host_port(65536).is_err());
    assert!(validate_host_port(-1).is_err());
}

#[test]
fn host_port_rejects_ports_used_by_sahai_itself() {
    for port in [RESERVED_HTTP_PORT, RESERVED_HTTPS_PORT] {
        let err = validate_host_port(i64::from(port)).unwrap_err().message();
        assert!(err.contains("差配自身"), "{port}: {err}");
    }
}

#[test]
fn host_port_is_not_limited_to_a_particular_band() {
    for port in [22, 3000, 8080, 19999, 30000, 50000] {
        assert!(validate_host_port(port).is_ok(), "{port}");
    }
}

#[test]
fn host_port_error_names_the_value() {
    let err = validate_host_port(0).unwrap_err().message();
    assert_eq!(err, "ホストポートは1〜65535で指定してください(現在0)");
}

#[test]
fn registry_tag_length_error_counts_characters() {
    let err = validate_registry_tag_length(&"x".repeat(130)).unwrap_err().message();
    assert!(err.ends_with("が128文字を超えています(130文字)"), "{err}");
}

// --- compose ---

fn svc(name: &str, build: Option<BuildValue>) -> ComposeService {
    ComposeService {
        name: name.to_string(),
        build,
    }
}

#[test]
fn parses_all_service_names() {
    let services = vec![
        svc("app", Some(BuildValue::Shorthand(".".to_string()))),
        svc("mysql", None),
    ];
    let mut names = service_names(&services);
    names.sort();
    assert_eq!(names, vec!["app".to_string(), "mysql".to_string()]);
}

#[test]
fn parses_only_build_services() {
    let services = vec![
        svc("app", Some(BuildValue::Shorthand(".".to_string()))),
        svc("mysql", None),
    ];
    assert_eq!(build_service_names(&services), vec!["app".to_string()]);
}

#[test]
fn parse_build_specs_resolves_shorthand_context() {
    let services = vec![
        svc("app", Some(BuildValue::Shorthand(".".to_string()))),
        svc("mysql", None),
    ];
    let specs = build_specs(&services);
    assert_eq!(
        specs,
        vec![(
            "app".to_string(),
            BuildSpec {
                context: ".".to_string(),
                dockerfile: None
            }
        )]
    );
}

#[test]
fn parse_build_specs_resolves_detailed_context_and_dockerfile() {
    let services = vec![
        svc(
            "backend",
            Some(BuildValue::Detailed {
                context: Some("./backend".to_string()),
                dockerfile: None,
            }),
        ),
        svc(
            "frontend",
            Some(BuildValue::Detailed {
                context: Some("./frontend".to_string()),
                dockerfile: Some("Dockerfile".to_string()),
            }),
        ),
    ];
    let specs = build_specs(&services);
    assert_eq!(specs[0].1.context, "./backend");
    assert_eq!(specs[0].1.dockerfile, None);
    assert_eq!(specs[1].1.context, "./frontend");
    assert_eq!(specs[1].1.dockerfile, Some("Dockerfile".to_string()));
}

#[test]
fn parse_build_specs_defaults_context_when_mapping_omits_it() {
    let services = vec![svc(
        "app",
        Some(BuildValue::Detailed {
            context: None,
            dockerfile: Some("Dockerfile.prod".to_string()),
        }),
    )];
    let specs = build_specs(&services);
    assert_eq!(
        specs[0].1,
        BuildSpec {
            context: ".".to_string(),
            dockerfile: Some("Dockerfile.prod".to_string()),
        }
    );
}

#[test]
fn diff_detects_added_removed_kept() {
    let existing = vec!["app".to_string(), "mysql".to_string()];
    let desired = vec!["app".to_string(), "redis".to_string()];
    let diff = diff_container_names(&existing, &desired);
    assert_eq!(diff.added, vec!["redis".to_string()]);
    assert_eq!(diff.removed, vec!["mysql".to_string()]);
    assert_eq!(diff.kept, vec!["app".to_string()]);
}

#[test]
fn diff_of_identical_sets_is_all_kept() {
    let names = vec!["app".to_string(), "mysql".to_string()];
    let diff = diff_container_names(&names, &names);
    assert!(diff.added.is_empty());
    assert!(diff.removed.is_empty());
    assert_eq!(diff.kept.len(), 2);
}

#[test]
fn diff_rename_is_delete_plus_add() {
    let existing = vec!["web".to_string()];
    let desired = vec!["app".to_string()];
    let diff = diff_container_names(&existing, &desired);
    assert_eq!(diff.added, vec!["app".to_string()]);
    assert_eq!(diff.removed, vec!["web".to_string()]);
    assert!(diff.kept.is_empty());
}

#[test]
fn diff_lists_are_sorted_and_free_of_duplicates() {
    let existing = vec!["zeta".to_string(), "alpha".to_string(), "zeta".to_string()];
    let desired = vec![
        "mid".to_string(),
        "beta".to_string(),
        "mid".to_string(),
        "alpha".to_string(),
    ];
    let diff = diff_container_names(&existing, &desired);
    assert_eq!(diff.added, vec!["beta".to_string(), "mid".to_string()]);
    assert_eq!(diff.removed, vec!["zeta".to_string()]);
    assert_eq!(diff.kept, vec!["alpha".to_string()]);
}

#[test]
fn diff_partition_covers_both_sides_without_overlap() {
    let existing = vec!["a".to_string(), "b".to_string(), "c".to_string()];
    let desired = vec!["b".to_string(), "c".to_string(), "d".to_string()];
    let diff = diff_container_names(&existing, &desired);
    let mut old_side: Vec<String> = diff.kept.iter().chain(diff.removed.iter()).cloned().collect();
    old_side.sort();
    assert_eq!(old_side, existing);
    let mut new_side: Vec<String> = diff.kept.iter().chain(diff.added.iter()).cloned().collect();
    new_side.sort();
    assert_eq!(new_side, desired);
}

#[test]
fn string_order_matches_std() {
    let pairs = [("a", "b"), ("ab", "a"), ("", "a"), ("same", "same"), ("Z", "a")];
    for (a, b) in pairs {
        assert_eq!(str_lt(a, b), a < b, "{a} < {b}");
    }
}

// --- docker arguments ---

#[test]
fn build_args_and_platform_are_listed_in_order() {
    let args = build_args(
        "./ctx",
        "registry.sahai.example.com/myapp:latest",
        None,
        Some("linux/amd64"),
        &[("FOO".to_string(), "bar".to_string())],
    );
    assert_eq!(
        args,
        vec![
            "build".to_string(),
            "-t".to_string(),
            "registry.sahai.example.com/myapp:latest".to_string(),
            "--build-arg".to_string(),
            "FOO=bar".to_string(),
            "--platform".to_string(),
            "linux/amd64".to_string(),
            "./ctx".to_string(),
        ]
    );
}

#[test]
fn dockerfile_is_resolved_against_the_context() {
    let args = build_args(
        "./frontend",
        "registry.sahai.example.com/myapp-frontend:latest",
        Some("Dockerfile.prod"),
        None,
        &[],
    );
    assert_eq!(
        args,
        vec![
            "build".to_string(),
            "-t".to_string(),
            "registry.sahai.example.com/myapp-frontend:latest".to_string(),
            "-f".to_string(),
            Path::new("./frontend")
                .join("Dockerfile.prod")
                .display()
                .to_string(),
            "./frontend".to_string(),
        ]
    );
}

#[test]
fn absent_platform_and_dockerfile_are_left_out() {
    let args = build_args(".", "x:latest", None, None, &[]);
    assert_eq!(args, vec!["build", "-t", "x:latest", "."]);
}

#[test]
fn compose_commands_share_files_and_project() {
    assert_eq!(
        compose_up_args("b.yml", "o.yml", "svc-3"),
        vec!["-f", "b.yml", "-f", "o.yml", "-p", "svc-3", "up", "-d", "--no-build", "--remove-orphans"]
    );
    assert_eq!(
        compose_pull_args("b.yml", "o.yml", "svc-3"),
        vec!["-f", "b.yml", "-f", "o.yml", "-p", "svc-3", "pull"]
    );
    assert_eq!(
        compose_down_args("b.yml", "o.yml", "svc-3"),
        vec!["-f", "b.yml", "-f", "o.yml", "-p", "svc-3", "down"]
    );
    assert_eq!(default_network_name("svc-3"), "svc-3_default");
}

#[test]
fn login_passes_the_password_on_standard_input() {
    let args = docker_login_args("registry.sahai.example.com", "me");
    assert_eq!(
        args,
        vec!["login", "registry.sahai.example.com", "-u", "me", "--password-stdin"]
    );
}

#[test]
fn service_subdomains_never_take_the_hosts_of_sahai_itself() {
    let domain = "example.com";
    for name in ["myapp", "sahai-app", "registry", "db", "a1"] {
        assert!(validate_service_name(name).is_ok(), "{name}");
        let sub = subdomain_for(name, domain);
        assert_ne!(sub, "sahai.example.com");
        assert_ne!(sub, "registry.sahai.example.com");
    }
    // The only names that would give those hosts are refused.
    assert!(validate_service_name("sahai").is_err());
    assert!(validate_service_name("registry.sahai").is_err());
}

#[test]
fn only_ports_and_env_file_are_managed_keys() {
    assert!(sahai::compose::is_managed_service_key("ports"));
    assert!(sahai::compose::is_managed_service_key("env_file"));
    for key in ["image", "build", "environment", "volumes", "port", ""] {
        assert!(!sahai::compose::is_managed_service_key(key), "{key}");
    }
}

#[test]
fn dockerfile_path_is_the_context_a_slash_and_the_file() {
    let args = build_args("ctx", "app:1", Some("Dockerfile.dev"), None, &[]);
    assert_eq!(args[3], "-f");
    assert_eq!(args[4], "ctx/Dockerfile.dev");
    assert_eq!(args[5], "ctx");
}

#[test]
fn find_compose_file_returns_none_when_no_compose_file_exists() {
    assert_eq!(sahai::compose::find_compose_file("proj", &[false, false, false, false]), None);
    assert_eq!(sahai::compose::find_compose_file("proj", &[]), None);
}

#[test]
fn find_compose_file_finds_docker_compose_yml() {
    assert_eq!(
        sahai::compose::find_compose_file("proj", &[true, false, true, false]),
        Some("proj/docker-compose.yml".to_string())
    );
}

#[test]
fn find_compose_file_finds_compose_yaml_variant() {
    assert_eq!(
        sahai::compose::find_compose_file("proj", &[false, false, false, true]),
        Some("proj/compose.yaml".to_string())
    );
}

#[test]
fn compose_file_names_are_looked_for_in_order() {
    assert_eq!(
        sahai::compose::compose_file_names(),
        vec!["docker-compose.yml", "docker-compose.yaml", "compose.yml", "compose.yaml"]
    );
}

#[test]
fn find_compose_file_in_a_directory_ending_in_a_slash_or_empty() {
    assert_eq!(
        sahai::compose::find_compose_file("proj/", &[false, true, false, false]),
        Some("proj/docker-compose.yaml".to_string())
    );
    assert_eq!(
        sahai::compose::find_compose_file("", &[false, false, true, false]),
        Some("compose.yml".to_string())
    );
}
