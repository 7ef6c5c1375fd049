use sahai::access::{needs_not_service_redirect, setup_token_matches, token_matches};
use sahai::config::Config;
use sahai::domain::{HealthStatus, Protocol, ServicePort, ServiceStatus, SourceType};
use sahai::dto::{ContainerInput, CreateServiceRequest, PortInput};
use sahai::env_file::{parse_content, upsert_content};
use sahai::error::{AppError, CoreError};
use sahai::health::{
    aggregate_by_service, apply_threshold, observation_from_status, observed_healthy, worst_case,
    ContainerRuntimeState, HealthObservation,
};
use sahai::naming::volume_host_path;
use sahai::not_service::{found_response, not_found_response, NotServicePortDto};
use sahai::port_check::collect_request_errors;
use sahai::registration::{check_source_type, implicit_container_names, validate};
use sahai::settings::{Settings, SettingsRow};
use sahai::settings_service::{
    apply_registry_url_default, dns_env_updates, prepare_registry_config, validate as validate_settings,
    validate_dns_config, validate_registry_config, DnsConfig, RegistryConfig,
};
use sahai::traefik_container::{merge_env, override_acme_cmd_flags, recreated_name, wait_step, WaitStep};
use std::collections::HashMap;
use std::path::PathBuf;

// --- domain ---

#[test]
fn source_type_round_trips_through_as_str() {
    for variant in [SourceType::Image, SourceType::Compose] {
        assert_eq!(SourceType::try_from(variant.as_str()).unwrap(), variant);
    }
}

#[test]
fn source_type_rejects_unknown_value() {
    assert!(SourceType::try_from("bogus").is_err());
}

#[test]
fn service_status_round_trips_through_as_str() {
    for variant in [
        ServiceStatus::Stopped,
        ServiceStatus::Running,
        ServiceStatus::Error,
    ] {
        assert_eq!(ServiceStatus::try_from(variant.as_str()).unwrap(), variant);
    }
}

#[test]
fn service_status_rejects_unknown_value() {
    assert!(ServiceStatus::try_from("bogus").is_err());
}

#[test]
fn health_status_round_trips_through_as_str() {
    for variant in [
        HealthStatus::Unknown,
        HealthStatus::Healthy,
        HealthStatus::Unhealthy,
    ] {
        assert_eq!(HealthStatus::try_from(variant.as_str()).unwrap(), variant);
    }
}

#[test]
fn health_status_rejects_unknown_value() {
    assert!(HealthStatus::try_from("bogus").is_err());
}

#[test]
fn protocol_round_trips_through_as_str() {
    for variant in [Protocol::Tcp, Protocol::Udp] {
        assert_eq!(Protocol::try_from(variant.as_str()).unwrap(), variant);
    }
}

#[test]
fn protocol_rejects_unknown_value() {
    assert!(Protocol::try_from("bogus").is_err());
}

#[test]
fn as_str_values_match_db_check_constraint_literals() {
    assert_eq!(SourceType::Image.as_str(), "image");
    assert_eq!(SourceType::Compose.as_str(), "compose");
    assert_eq!(ServiceStatus::Stopped.as_str(), "stopped");
    assert_eq!(ServiceStatus::Running.as_str(), "running");
    assert_eq!(ServiceStatus::Error.as_str(), "error");
    assert_eq!(HealthStatus::Unknown.as_str(), "unknown");
    assert_eq!(HealthStatus::Healthy.as_str(), "healthy");
    assert_eq!(HealthStatus::Unhealthy.as_str(), "unhealthy");
    assert_eq!(Protocol::Tcp.as_str(), "tcp");
    assert_eq!(Protocol::Udp.as_str(), "udp");
}

#[test]
fn unknown_enum_text_is_named_in_the_error() {
    assert_eq!(SourceType::try_from("bogus").unwrap_err(), "不明なsource_type: bogus");
    assert_eq!(Protocol::try_from("sctp").unwrap_err(), "不明なprotocol: sctp");
}

// --- errors ---

#[test]
fn core_validation_error_becomes_validation() {
    let core_err = CoreError::Validation("bad".to_string());
    let err: AppError = AppError::from_core(core_err);
    assert!(matches!(err, AppError::Validation(_)));
}

#[test]
fn app_errors_carry_code_status_and_message() {
    let e = AppError::NotFound("myapp".to_string());
    assert_eq!(e.code(), "NOT_FOUND");
    assert_eq!(e.status(), 404);
    assert_eq!(e.message(), "サービス 'myapp' が見つかりません");
    let b = AppError::BuildFailed("exit 1".to_string());
    assert_eq!(b.status(), 422);
    assert_eq!(b.message(), "ビルドまたはpushに失敗しました: exit 1");
    assert_eq!(AppError::Unauthorized.status(), 401);
}

// --- host ports ---

fn container(name: &str, host_ports: &[i64]) -> ContainerInput {
    ContainerInput {
        name: name.to_string(),
        ports: host_ports
            .iter()
            .map(|&host_port| PortInput {
                container_port: 8080,
                host_port: Some(host_port),
                protocol: "tcp".to_string(),
                is_http: false,
            })
            .collect(),
        volumes: vec![],
    }
}

#[test]
fn ports_of_any_band_pass() {
    let errors = collect_request_errors(&[container("app", &[22, 8080, 50000])]);
    assert!(errors.is_empty(), "{errors:?}");
}

#[test]
fn invalid_value_is_reported_at_its_port_field() {
    let errors = collect_request_errors(&[container("app", &[8080, 0])]);
    assert_eq!(errors.len(), 1);
    assert_eq!(errors[0].field, "containers[0].ports[1].host_port");
}

#[test]
fn reserved_ports_are_rejected() {
    let errors = collect_request_errors(&[container("app", &[443])]);
    assert_eq!(errors.len(), 1);
    assert!(errors[0].message.contains("差配自身"), "{errors:?}");
}

#[test]
fn duplicate_in_request_is_reported_at_second_position() {
    let errors = collect_request_errors(&[container("app", &[8080, 8080])]);
    assert_eq!(errors.len(), 1);
    assert_eq!(errors[0].field, "containers[0].ports[1].host_port");
    assert!(errors[0].message.contains("重複"), "{errors:?}");
}

#[test]
fn duplicates_across_containers_are_found() {
    let errors = collect_request_errors(&[container("web", &[8080]), container("api", &[8080])]);
    assert_eq!(errors.len(), 1);
    assert_eq!(errors[0].field, "containers[1].ports[0].host_port");
}

#[test]
fn duplicate_message_names_the_first_claim() {
    let errors = collect_request_errors(&[container("web", &[9000]), container("api", &[9000])]);
    assert_eq!(
        errors[0].message,
        "ポート9000はこのリクエスト内のcontainers[0].ports[0].host_portと重複しています"
    );
}

#[test]
fn http_ports_are_not_checked_for_host_ports() {
    let mut c = container("app", &[443]);
    c.ports[0].is_http = true;
    assert!(collect_request_errors(&[c]).is_empty());
}

// --- registration ---

fn compose_names(content: &str) -> Result<Vec<String>, CoreError> {
    match serde_yaml::from_str::<serde_yaml::Value>(content) {
        Err(e) => Err(CoreError::ComposeParse(e.to_string())),
        Ok(v) => {
            let mut names: Vec<String> = v
                .get("services")
                .and_then(|s| s.as_mapping())
                .map(|m| m.keys().filter_map(|k| k.as_str().map(String::from)).collect())
                .unwrap_or_default();
            names.sort();
            Ok(names)
        }
    }
}

fn run_validate(req: &CreateServiceRequest) -> Result<(), AppError> {
    let parse = match &req.compose_content {
        Some(c) => compose_names(c),
        None => Ok(vec![]),
    };
    validate(req, &parse)
}

fn fields_of(result: &Result<(), AppError>) -> Vec<&str> {
    match result {
        Err(AppError::Validation(fields)) => fields.iter().map(|f| f.field.as_str()).collect(),
        _ => vec![],
    }
}

fn image_ok() -> CreateServiceRequest {
    CreateServiceRequest {
        name: "myapp".to_string(),
        source_type: "image".to_string(),
        image: Some("x:latest".to_string()),
        compose_content: None,
        env_vars: None,
        containers: vec![ContainerInput {
            name: "myapp".to_string(),
            ports: vec![PortInput {
                container_port: 80,
                host_port: Some(20001),
                protocol: "tcp".to_string(),
                is_http: true,
            }],
            volumes: vec![],
        }],
    }
}

fn compose_ok() -> CreateServiceRequest {
    CreateServiceRequest {
        name: "webstack".to_string(),
        source_type: "compose".to_string(),
        image: None,
        compose_content: Some(
            "services:\n  app:\n    build: .\n  mysql:\n    image: mysql:8\n".to_string(),
        ),
        env_vars: None,
        containers: vec![ContainerInput {
            name: "app".to_string(),
            ports: vec![PortInput {
                container_port: 80,
                host_port: None,
                protocol: "tcp".to_string(),
                is_http: true,
            }],
            volumes: vec![],
        }],
    }
}

fn with_non_http_port(req: &mut CreateServiceRequest, host_port: i64) {
    req.containers[0].ports.push(PortInput {
        container_port: 3306,
        host_port: Some(host_port),
        protocol: "tcp".to_string(),
        is_http: false,
    });
}

#[test]
fn accepts_valid_image_request() {
    assert!(run_validate(&image_ok()).is_ok());
}

#[test]
fn accepts_valid_compose_request_with_partial_containers() {
    assert!(run_validate(&compose_ok()).is_ok());
}

#[test]
fn rejects_invalid_service_name() {
    let mut req = image_ok();
    req.name = "BadName".to_string();
    req.containers[0].name = "BadName".to_string();
    let result = run_validate(&req);
    assert_eq!(fields_of(&result), vec!["name"]);
}

#[test]
fn rejects_reserved_service_names() {
    for reserved in [sahai::validation::RESERVED_SERVICE_NAME] {
        let mut req = image_ok();
        req.name = reserved.to_string();
        req.containers[0].name = reserved.to_string();
        let result = run_validate(&req);
        assert_eq!(fields_of(&result), vec!["name"], "'{reserved}'は拒否されるべき");
    }
}

#[test]
fn image_type_requires_exactly_one_container() {
    let mut req = image_ok();
    req.containers.push(ContainerInput {
        name: "extra".to_string(),
        ports: vec![],
        volumes: vec![],
    });
    assert_eq!(fields_of(&run_validate(&req)), vec!["containers"]);
}

#[test]
fn image_type_container_name_must_match_service_name() {
    let mut req = image_ok();
    req.containers[0].name = "othername".to_string();
    assert_eq!(fields_of(&run_validate(&req)), vec!["containers[0].name"]);
}

#[test]
fn compose_type_rejects_container_name_not_in_compose_content() {
    let mut req = compose_ok();
    req.containers[0].name = "notindockercompose".to_string();
    assert_eq!(fields_of(&run_validate(&req)), vec!["containers[0].name"]);
}

#[test]
fn accepts_host_port_from_any_band() {
    let mut req = image_ok();
    with_non_http_port(&mut req, 8080);
    assert!(run_validate(&req).is_ok());
}

#[test]
fn ignores_host_port_on_http_ports() {
    let mut req = image_ok();
    req.containers[0].ports[0].host_port = Some(443);
    assert!(run_validate(&req).is_ok());
}

#[test]
fn rejects_port_used_by_sahai_itself() {
    let mut req = image_ok();
    with_non_http_port(&mut req, 443);
    assert_eq!(
        fields_of(&run_validate(&req)),
        vec!["containers[0].ports[1].host_port"]
    );
}

#[test]
fn rejects_duplicate_host_port_within_one_request() {
    let mut req = image_ok();
    with_non_http_port(&mut req, 20005);
    with_non_http_port(&mut req, 20005);
    assert_eq!(
        fields_of(&run_validate(&req)),
        vec!["containers[0].ports[2].host_port"]
    );
}

#[test]
fn rejects_more_than_one_http_port() {
    let mut req = compose_ok();
    req.containers.push(ContainerInput {
        name: "mysql".to_string(),
        ports: vec![PortInput {
            container_port: 3306,
            host_port: Some(20002),
            protocol: "tcp".to_string(),
            is_http: true,
        }],
        volumes: vec![],
    });
    assert_eq!(
        fields_of(&run_validate(&req)),
        vec!["containers[].ports[].is_http"]
    );
}

#[test]
fn rejects_invalid_compose_yaml() {
    let mut req = compose_ok();
    req.compose_content = Some("not: [valid".to_string());
    assert_eq!(fields_of(&run_validate(&req)), vec!["compose_content"]);
}

#[test]
fn accumulates_multiple_errors_at_once() {
    let mut req = image_ok();
    req.name = "BadName".to_string();
    with_non_http_port(&mut req, 80);
    let result = run_validate(&req);
    let fields = fields_of(&result);
    assert!(fields.contains(&"name"));
    assert!(fields.contains(&"containers[0].ports[1].host_port"));
}

#[test]
fn field_paths_include_indices_for_multiple_containers_and_ports() {
    let mut req = compose_ok();
    req.containers.push(ContainerInput {
        name: "mysql".to_string(),
        ports: vec![
            PortInput {
                container_port: 3306,
                host_port: Some(20002),
                protocol: "tcp".to_string(),
                is_http: false,
            },
            PortInput {
                container_port: 3307,
                host_port: Some(443),
                protocol: "tcp".to_string(),
                is_http: false,
            },
        ],
        volumes: vec![],
    });
    assert_eq!(
        fields_of(&run_validate(&req)),
        vec!["containers[1].ports[1].host_port"]
    );
}

#[test]
fn compose_parse_error_message_is_reported() {
    let mut req = compose_ok();
    req.compose_content = Some("x".to_string());
    let result = validate(&req, &Err(CoreError::ComposeParse("boom".to_string())));
    match result {
        Err(AppError::Validation(f)) => {
            assert_eq!(f[0].field, "compose_content");
            assert_eq!(f[0].message, "compose_contentの解析に失敗しました: boom");
        }
        _ => panic!("validation error expected"),
    }
}

#[test]
fn source_type_must_fit_the_given_fields() {
    let mut req = image_ok();
    req.compose_content = Some("services: {}".to_string());
    assert!(matches!(check_source_type(&req), Err(AppError::Unprocessable(_))));
    let mut req = compose_ok();
    req.image = Some("x".to_string());
    assert!(matches!(check_source_type(&req), Err(AppError::Unprocessable(_))));
    let mut req = image_ok();
    req.source_type = "vm".to_string();
    assert!(matches!(check_source_type(&req), Err(AppError::Validation(_))));
    assert_eq!(check_source_type(&image_ok()).unwrap(), SourceType::Image);
}

#[test]
fn unlisted_compose_services_get_containers() {
    let all = vec!["db".to_string(), "web".to_string()];
    let listed = vec![ContainerInput {
        name: "web".to_string(),
        ports: vec![],
        volumes: vec![],
    }];
    assert_eq!(implicit_container_names(&all, &listed), vec!["db".to_string()]);
}

// --- health ---

#[test]
fn first_and_second_consecutive_failures_are_unknown_not_unhealthy() {
    let mut failures = HashMap::new();
    assert_eq!(apply_threshold(&mut failures, 1, false), HealthStatus::Unknown);
    assert_eq!(apply_threshold(&mut failures, 1, false), HealthStatus::Unknown);
}

#[test]
fn third_consecutive_failure_becomes_unhealthy() {
    let mut failures = HashMap::new();
    apply_threshold(&mut failures, 1, false);
    apply_threshold(&mut failures, 1, false);
    assert_eq!(apply_threshold(&mut failures, 1, false), HealthStatus::Unhealthy);
}

#[test]
fn stays_unhealthy_on_further_consecutive_failures() {
    let mut failures = HashMap::new();
    for _ in 0..5 {
        apply_threshold(&mut failures, 1, false);
    }
    assert_eq!(apply_threshold(&mut failures, 1, false), HealthStatus::Unhealthy);
}

#[test]
fn single_success_recovers_from_unhealthy_to_healthy() {
    let mut failures = HashMap::new();
    for _ in 0..3 {
        apply_threshold(&mut failures, 1, false);
    }
    assert_eq!(apply_threshold(&mut failures, 1, true), HealthStatus::Healthy);
}

#[test]
fn success_resets_the_failure_counter_not_just_the_status() {
    let mut failures = HashMap::new();
    apply_threshold(&mut failures, 1, false);
    apply_threshold(&mut failures, 1, true);
    apply_threshold(&mut failures, 1, false);
    assert_eq!(apply_threshold(&mut failures, 1, false), HealthStatus::Unknown);
}

#[test]
fn each_container_has_an_independent_counter() {
    let mut failures = HashMap::new();
    apply_threshold(&mut failures, 1, false);
    apply_threshold(&mut failures, 1, false);
    apply_threshold(&mut failures, 1, false);
    assert_eq!(apply_threshold(&mut failures, 2, false), HealthStatus::Unknown);
}

#[test]
fn worst_case_prioritizes_unhealthy_over_everything() {
    assert_eq!(
        worst_case(&[
            HealthStatus::Healthy,
            HealthStatus::Unhealthy,
            HealthStatus::Unknown
        ]),
        HealthStatus::Unhealthy
    );
}

#[test]
fn worst_case_is_healthy_only_if_all_are_healthy() {
    assert_eq!(
        worst_case(&[HealthStatus::Healthy, HealthStatus::Healthy]),
        HealthStatus::Healthy
    );
}

#[test]
fn worst_case_is_unknown_when_mixed_without_unhealthy() {
    assert_eq!(
        worst_case(&[HealthStatus::Healthy, HealthStatus::Unknown]),
        HealthStatus::Unknown
    );
}

#[test]
fn worst_case_of_empty_list_is_vacuously_healthy() {
    assert_eq!(worst_case(&[]), HealthStatus::Healthy);
}

#[test]
fn aggregate_takes_the_worst_case_per_service() {
    let entries = vec![
        (1, HealthStatus::Healthy),
        (2, HealthStatus::Unknown),
        (1, HealthStatus::Unhealthy),
        (2, HealthStatus::Healthy),
        (3, HealthStatus::Healthy),
    ];
    let m = aggregate_by_service(&entries);
    assert_eq!(m.len(), 3);
    assert_eq!(m[&1], HealthStatus::Unhealthy);
    assert_eq!(m[&2], HealthStatus::Unknown);
    assert_eq!(m[&3], HealthStatus::Healthy);
}

#[test]
fn a_check_succeeds_for_docker_healthy_or_running_without_healthcheck() {
    assert!(observed_healthy(ContainerRuntimeState::DockerHealth(HealthObservation::Healthy)));
    assert!(observed_healthy(ContainerRuntimeState::Running(true)));
    assert!(!observed_healthy(ContainerRuntimeState::Running(false)));
    assert!(!observed_healthy(ContainerRuntimeState::DockerHealth(HealthObservation::Starting)));
    assert!(!observed_healthy(ContainerRuntimeState::NotFound));
    assert_eq!(observation_from_status(Some("unhealthy")), HealthObservation::Unhealthy);
    assert_eq!(observation_from_status(Some("starting")), HealthObservation::Starting);
    assert_eq!(observation_from_status(None), HealthObservation::Starting);
}

// --- settings ---

#[test]
fn settings_row_round_trips_through_settings() {
    let row = SettingsRow {
        domain: "example.com".to_string(),
        https_redirect: false,
        registry_url: "registry.sahai.example.com".to_string(),
        api_token: "tok".to_string(),
        dns_provider: "route53".to_string(),
        acme_email: "admin@example.com".to_string(),
        registry_username: Some("reguser".to_string()),
        registry_password: Some("regpass".to_string()),
    };
    let settings: Settings = row.clone().into();
    let round_tripped: SettingsRow = (&settings).into();

    assert_eq!(round_tripped.domain, row.domain);
    assert_eq!(round_tripped.https_redirect, row.https_redirect);
    assert_eq!(round_tripped.registry_url, row.registry_url);
    assert_eq!(round_tripped.api_token, row.api_token);
    assert_eq!(round_tripped.dns_provider, row.dns_provider);
    assert_eq!(round_tripped.acme_email, row.acme_email);
    assert_eq!(round_tripped.registry_username, row.registry_username);
    assert_eq!(round_tripped.registry_password, row.registry_password);
}

#[test]
fn seed_requires_an_api_token_and_fills_defaults() {
    let err = Settings::seed(None, None, None, None, None, None, None, None).unwrap_err();
    assert_eq!(err, "環境変数 SAHAI_API_TOKEN が設定されていません");
    let s = Settings::seed(
        Some("tok".to_string()),
        Some("example.com".to_string()),
        Some("false".to_string()),
        None,
        None,
        None,
        Some(String::new()),
        Some("pw".to_string()),
    )
    .unwrap();
    assert_eq!(s.registry_url, "registry.sahai.example.com");
    assert!(!s.https_redirect);
    assert_eq!(s.registry_username, None);
    assert_eq!(s.registry_password, Some("pw".to_string()));
    assert!(Settings::unconfigured().api_token.is_empty());
}

fn valid_settings() -> Settings {
    Settings {
        domain: "example.com".to_string(),
        https_redirect: true,
        registry_url: "registry.sahai.example.com".to_string(),
        api_token: "tok".to_string(),
        dns_provider: "cloudflare".to_string(),
        acme_email: "admin@example.com".to_string(),
        registry_username: None,
        registry_password: None,
    }
}

#[test]
fn validate_accepts_fully_populated_settings() {
    assert!(validate_settings(&valid_settings()).is_ok());
}

#[test]
fn validate_rejects_empty_domain() {
    let mut s = valid_settings();
    s.domain = "".to_string();
    let err = validate_settings(&s).unwrap_err();
    match err {
        AppError::Validation(fields) => {
            assert!(fields.iter().any(|f| f.field == "domain"));
        }
        _ => panic!("Validationエラーを期待"),
    }
}

#[test]
fn validate_accumulates_multiple_missing_fields() {
    let s = Settings {
        domain: "".to_string(),
        https_redirect: true,
        registry_url: "".to_string(),
        api_token: "".to_string(),
        dns_provider: "cloudflare".to_string(),
        acme_email: "".to_string(),
        registry_username: None,
        registry_password: None,
    };
    let err = validate_settings(&s).unwrap_err();
    match err {
        AppError::Validation(fields) => {
            assert_eq!(fields.len(), 2, "domain・api_tokenの2件のはず: {fields:?}");
        }
        _ => panic!("Validationエラーを期待"),
    }
}

#[test]
fn apply_registry_url_default_fills_from_domain_when_empty() {
    let mut s = valid_settings();
    s.registry_url = "".to_string();
    apply_registry_url_default(&mut s);
    assert_eq!(s.registry_url, "registry.sahai.example.com");
}

#[test]
fn apply_registry_url_default_preserves_explicit_value() {
    let mut s = valid_settings();
    s.registry_url = "custom-registry.sahai.example.com".to_string();
    apply_registry_url_default(&mut s);
    assert_eq!(s.registry_url, "custom-registry.sahai.example.com");
}

#[test]
fn apply_registry_url_default_leaves_empty_when_domain_also_empty() {
    let mut s = valid_settings();
    s.domain = "".to_string();
    s.registry_url = "".to_string();
    apply_registry_url_default(&mut s);
    assert_eq!(s.registry_url, "");
}

fn valid_dns_config() -> DnsConfig {
    DnsConfig {
        dns_provider: "cloudflare".to_string(),
        acme_email: "admin@example.com".to_string(),
        credentials: vec![("CF_DNS_API_TOKEN".to_string(), "secret".to_string())],
    }
}

#[test]
fn validate_dns_config_accepts_fully_populated() {
    assert!(validate_dns_config(&valid_dns_config()).is_ok());
}

#[test]
fn validate_dns_config_rejects_empty_provider() {
    let mut c = valid_dns_config();
    c.dns_provider = "".to_string();
    let err = validate_dns_config(&c).unwrap_err();
    match err {
        AppError::Validation(fields) => {
            assert!(fields.iter().any(|f| f.field == "dns_provider"))
        }
        _ => panic!("Validationエラーを期待"),
    }
}

#[test]
fn validate_dns_config_rejects_empty_credential_key() {
    let mut c = valid_dns_config();
    c.credentials.push(("".to_string(), "value".to_string()));
    let err = validate_dns_config(&c).unwrap_err();
    match err {
        AppError::Validation(fields) => {
            assert!(fields.iter().any(|f| f.field == "credentials[1].key"));
        }
        _ => panic!("Validationエラーを期待"),
    }
}

fn valid_registry_config() -> RegistryConfig {
    RegistryConfig {
        registry_url: "registry.sahai.example.com".to_string(),
        registry_username: Some("reguser".to_string()),
        registry_password: Some("regpass".to_string()),
        login_warning: None,
    }
}

#[test]
fn validate_registry_config_rejects_username_without_password() {
    let mut c = valid_registry_config();
    c.registry_password = None;
    let err = validate_registry_config(&c).unwrap_err();
    match err {
        AppError::Validation(fields) => {
            assert!(fields.iter().any(|f| f.field == "registry_password"));
        }
        _ => panic!("Validationエラーを期待"),
    }
}

#[test]
fn validate_registry_config_rejects_password_without_username() {
    let mut c = valid_registry_config();
    c.registry_username = None;
    let err = validate_registry_config(&c).unwrap_err();
    match err {
        AppError::Validation(fields) => {
            assert!(fields.iter().any(|f| f.field == "registry_username"));
        }
        _ => panic!("Validationエラーを期待"),
    }
}

#[test]
fn validate_registry_config_accepts_both_empty() {
    let mut c = valid_registry_config();
    c.registry_username = None;
    c.registry_password = None;
    assert!(validate_registry_config(&c).is_ok());
}

#[test]
fn validate_registry_config_accepts_both_present() {
    assert!(validate_registry_config(&valid_registry_config()).is_ok());
}

#[test]
fn registry_config_blank_credentials_count_as_none_and_url_defaults() {
    let c = RegistryConfig {
        registry_url: " ".to_string(),
        registry_username: Some("  ".to_string()),
        registry_password: Some(String::new()),
        login_warning: Some("old".to_string()),
    };
    let saved = prepare_registry_config(c, "example.com").unwrap();
    assert_eq!(saved.registry_username, None);
    assert_eq!(saved.registry_password, None);
    assert_eq!(saved.registry_url, "registry.sahai.example.com");
    assert_eq!(saved.login_warning, None);
}

#[test]
fn dns_settings_go_to_the_environment_file_in_order() {
    let updates = dns_env_updates(&valid_dns_config());
    assert_eq!(
        updates,
        vec![
            ("SAHAI_DNS_PROVIDER".to_string(), "cloudflare".to_string()),
            ("SAHAI_ACME_EMAIL".to_string(), "admin@example.com".to_string()),
            ("CF_DNS_API_TOKEN".to_string(), "secret".to_string()),
        ]
    );
}

// --- environment file ---

#[test]
fn replaces_existing_key_in_place() {
    let content = "SAHAI_DNS_PROVIDER=cloudflare\nSAHAI_ACME_EMAIL=old@example.com\n";
    let result = upsert_content(content, &[("SAHAI_ACME_EMAIL", "new@example.com")]);
    assert_eq!(
        result,
        "SAHAI_DNS_PROVIDER=cloudflare\nSAHAI_ACME_EMAIL=new@example.com\n"
    );
}

#[test]
fn appends_missing_key_at_end() {
    let content = "SAHAI_DNS_PROVIDER=cloudflare\n";
    let result = upsert_content(content, &[("CF_DNS_API_TOKEN", "secret123")]);
    assert_eq!(
        result,
        "SAHAI_DNS_PROVIDER=cloudflare\nCF_DNS_API_TOKEN=secret123\n"
    );
}

#[test]
fn preserves_unrelated_lines_and_comments() {
    let content = "# コメント\nSAHAI_API_TOKEN=keep-me\n\nSAHAI_DNS_PROVIDER=cloudflare\n";
    let result = upsert_content(content, &[("SAHAI_DNS_PROVIDER", "route53")]);
    assert_eq!(
        result,
        "# コメント\nSAHAI_API_TOKEN=keep-me\n\nSAHAI_DNS_PROVIDER=route53\n"
    );
}

#[test]
fn handles_empty_input_by_appending_all_keys() {
    let result = upsert_content(
        "",
        &[
            ("SAHAI_DNS_PROVIDER", "cloudflare"),
            ("SAHAI_ACME_EMAIL", "a@b.com"),
        ],
    );
    assert_eq!(
        result,
        "SAHAI_DNS_PROVIDER=cloudflare\nSAHAI_ACME_EMAIL=a@b.com\n"
    );
}

#[test]
fn replaces_multiple_keys_in_one_call() {
    let content = "SAHAI_DNS_PROVIDER=cloudflare\nSAHAI_ACME_EMAIL=old@example.com\nCF_DNS_API_TOKEN=old-token\n";
    let result = upsert_content(
        content,
        &[
            ("SAHAI_DNS_PROVIDER", "route53"),
            ("SAHAI_ACME_EMAIL", "new@example.com"),
            ("AWS_ACCESS_KEY_ID", "AKIA..."),
        ],
    );
    assert_eq!(
        result,
        "SAHAI_DNS_PROVIDER=route53\nSAHAI_ACME_EMAIL=new@example.com\nCF_DNS_API_TOKEN=old-token\nAWS_ACCESS_KEY_ID=AKIA...\n"
    );
}

#[test]
fn parse_content_ignores_comments_and_blank_lines() {
    let entries = parse_content("# comment\n\nA=1\n  # indented comment\nB=2\n");
    assert_eq!(
        entries,
        vec![
            ("A".to_string(), "1".to_string()),
            ("B".to_string(), "2".to_string())
        ]
    );
}

#[test]
fn parse_content_trims_whitespace_around_key_and_value() {
    let entries = parse_content("  KEY  =  value with spaces  \r\nOTHER=x=y\nNOEQUALS\n");
    assert_eq!(
        entries,
        vec![
            ("KEY".to_string(), "value with spaces".to_string()),
            ("OTHER".to_string(), "x=y".to_string())
        ]
    );
}

#[test]
fn written_keys_are_read_back_with_their_new_values() {
    let written = upsert_content("# keep\nA=old\nB=2\n", &[("A", "new"), ("C", "3")]);
    assert_eq!(
        parse_content(&written),
        vec![
            ("A".to_string(), "new".to_string()),
            ("B".to_string(), "2".to_string()),
            ("C".to_string(), "3".to_string())
        ]
    );
}

// --- access ---

#[test]
fn matches_identical_token() {
    assert!(token_matches("secret-token", "secret-token"));
}

#[test]
fn rejects_different_token() {
    assert!(!token_matches("wrong", "secret-token"));
}

#[test]
fn rejects_empty_token_against_unconfigured_server() {
    assert!(!token_matches("", ""));
}

#[test]
fn rejects_any_token_when_server_is_unconfigured() {
    assert!(!token_matches("anything", ""));
}

#[test]
fn rejects_empty_token_against_configured_server() {
    assert!(!token_matches("", "secret-token"));
}

#[test]
fn rejects_prefix_of_expected_token() {
    assert!(!token_matches("secret", "secret-token"));
}

#[test]
fn setup_token_is_compared_with_the_trimmed_file() {
    assert!(setup_token_matches("abc123", Some("abc123\n")));
    assert!(!setup_token_matches("abc12", Some("abc123")));
    assert!(!setup_token_matches("", Some("")));
    assert!(!setup_token_matches("x", Some("  \n")));
    assert!(!setup_token_matches("anything", None));
}

const DOMAIN: &str = "example.com";

fn redirects(host: &str) -> bool {
    needs_not_service_redirect(Some(host), DOMAIN, "/")
}

#[test]
fn unregistered_subdomain_is_redirected() {
    assert!(redirects("nosuch.example.com"));
}

#[test]
fn non_http_service_subdomain_is_redirected() {
    assert!(redirects("mysql.example.com"));
}

#[test]
fn admin_host_is_not_redirected() {
    assert!(!redirects("sahai.example.com"));
}

#[test]
fn hosts_outside_the_base_domain_are_not_redirected() {
    assert!(!redirects("localhost"));
    assert!(!redirects("127.0.0.1"));
    assert!(!redirects("sahai.other.test"));
    assert!(!redirects("example.com"));
    assert!(!redirects("notexample.com"));
}

#[test]
fn host_header_port_is_ignored() {
    assert!(redirects("nosuch.example.com:8443"));
    assert!(!redirects("sahai.example.com:8443"));
}

#[test]
fn host_header_case_is_ignored() {
    assert!(!redirects("Sahai.Example.COM"));
    assert!(redirects("NoSuch.Example.COM"));
}

#[test]
fn not_service_path_itself_is_not_redirected() {
    assert!(!needs_not_service_redirect(
        Some("nosuch.example.com"),
        DOMAIN,
        "/not-service"
    ));
}

#[test]
fn empty_domain_never_redirects() {
    assert!(!needs_not_service_redirect(
        Some("nosuch.example.com"),
        "",
        "/"
    ));
}

#[test]
fn missing_host_header_never_redirects() {
    assert!(!needs_not_service_redirect(None, DOMAIN, "/"));
}

// --- Not Service page ---

fn port(host_port: i64, container_port: i64, protocol: Protocol) -> ServicePort {
    ServicePort {
        id: 1,
        container_id: 1,
        container_port,
        host_port,
        protocol,
        is_http: false,
    }
}

#[test]
fn found_response_includes_name_and_ports() {
    let dto = found_response("mysql", &[port(20001, 3306, Protocol::Tcp)]);
    assert!(dto.found);
    assert_eq!(dto.name, Some("mysql".to_string()));
    assert_eq!(
        dto.ports,
        Some(vec![NotServicePortDto {
            host_port: 20001,
            container_port: 3306,
            protocol: "tcp".to_string(),
        }])
    );
}

#[test]
fn found_response_with_no_ports_is_empty_vec_not_none() {
    let dto = found_response("mysql", &[]);
    assert_eq!(dto.ports, Some(vec![]));
}

#[test]
fn not_found_response_has_found_false_and_no_details() {
    let dto = not_found_response();
    assert!(!dto.found);
    assert!(dto.name.is_none());
    assert!(dto.ports.is_none());
}

// --- Traefik container ---

#[test]
fn override_acme_cmd_flags_fills_in_empty_email_and_provider() {
    let cmd: Vec<String> = vec![
        "--entrypoints.web.address=:80".to_string(),
        "--certificatesresolvers.letsencrypt.acme.email=".to_string(),
        "--certificatesresolvers.letsencrypt.acme.dnschallenge=true".to_string(),
        "--certificatesresolvers.letsencrypt.acme.dnschallenge.provider=".to_string(),
    ];

    let result = override_acme_cmd_flags(&cmd, "route53", "admin@example.com");

    assert_eq!(
        result,
        vec![
            "--entrypoints.web.address=:80".to_string(),
            "--certificatesresolvers.letsencrypt.acme.email=admin@example.com".to_string(),
            "--certificatesresolvers.letsencrypt.acme.dnschallenge=true".to_string(),
            "--certificatesresolvers.letsencrypt.acme.dnschallenge.provider=route53".to_string(),
        ]
    );
}

#[test]
fn override_acme_cmd_flags_replaces_stale_non_empty_values() {
    let cmd: Vec<String> = vec![
        "--certificatesresolvers.letsencrypt.acme.email=old@example.com".to_string(),
        "--certificatesresolvers.letsencrypt.acme.dnschallenge.provider=cloudflare".to_string(),
    ];

    let result = override_acme_cmd_flags(&cmd, "route53", "new@example.com");

    assert_eq!(
        result,
        vec![
            "--certificatesresolvers.letsencrypt.acme.email=new@example.com".to_string(),
            "--certificatesresolvers.letsencrypt.acme.dnschallenge.provider=route53".to_string(),
        ]
    );
}

#[test]
fn override_acme_cmd_flags_leaves_all_other_arguments_untouched() {
    let cmd: Vec<String> = vec![
        "--entrypoints.websecure.address=:443".to_string(),
        "--providers.file.directory=/var/sahai/traefik/dynamic".to_string(),
        "--certificatesresolvers.letsencrypt.acme.dnschallenge=true".to_string(),
        "--certificatesresolvers.letsencrypt.acme.storage=/acme/acme.json".to_string(),
        "--certificatesresolvers.letsencrypt.acme.dnschallenge.resolvers=1.1.1.1:53".to_string(),
    ];

    let result = override_acme_cmd_flags(&cmd, "cloudflare", "admin@example.com");

    assert_eq!(result, cmd, "該当フラグが無い引数は素通しされるべき");
}

#[test]
fn override_acme_cmd_flags_does_not_append_missing_flags() {
    let cmd: Vec<String> = vec!["--entrypoints.web.address=:80".to_string()];

    let result = override_acme_cmd_flags(&cmd, "cloudflare", "admin@example.com");

    assert_eq!(result.len(), 1);
    assert_eq!(result, cmd);
}

#[test]
fn environment_file_values_win_over_image_defaults() {
    let image = vec!["PATH=/usr/bin".to_string(), "NOEQ".to_string(), "MODE=a".to_string()];
    let file = vec![("MODE".to_string(), "b".to_string())];
    let mut merged = merge_env(&image, &file);
    merged.sort();
    assert_eq!(
        merged,
        vec![
            ("MODE".to_string(), "b".to_string()),
            ("PATH".to_string(), "/usr/bin".to_string())
        ]
    );
    assert_eq!(recreated_name(Some("/traefik"), "abc"), "traefik");
    assert_eq!(recreated_name(None, "abc"), "abc");
    assert_eq!(wait_step(1, false), WaitStep::Retry);
    assert_eq!(wait_step(8, false), WaitStep::GiveUp);
    assert_eq!(wait_step(8, true), WaitStep::Done);
}

// --- configuration ---

#[test]
fn host_data_root_defaults_to_data_root() {
    let config = Config::from_values(Some("/var/sahai".to_string()), None, None, None, None);
    assert_eq!(config.host_data_root, config.sahai_data_root);
    assert_eq!(PathBuf::from(&config.host_data_root), PathBuf::from("/var/sahai"));
}

#[test]
fn volume_bind_source_is_built_from_host_data_root() {
    let config = Config {
        bind_addr: "127.0.0.1:0".to_string(),
        database_path: "/var/sahai/db/sahai.sqlite3".to_string(),
        sahai_data_root: "/var/sahai".to_string(),
        host_data_root: "E:/repos/sahai/data".to_string(),
        web_dist_dir: "/app/web/dist".to_string(),
        env_file_path: "/var/sahai/.sahai.env".to_string(),
    };

    assert_eq!(
        volume_host_path(&config.host_data_root, 1, "/var/lib/mysql"),
        "E:/repos/sahai/data/services/1/var-lib-mysql"
    );
    assert_eq!(
        PathBuf::from(config.services_volume_root()).join("1"),
        PathBuf::from("/var/sahai/services/1")
    );
}

#[test]
fn configuration_defaults() {
    let config = Config::from_values(None, None, None, None, None);
    assert_eq!(config.sahai_data_root, "/var/sahai");
    assert_eq!(config.database_path, "/var/sahai/db/sahai.sqlite3");
    assert_eq!(config.env_file_path, "/var/sahai/.sahai.env");
    assert_eq!(config.bind_addr, "0.0.0.0:8080");
    assert_eq!(config.web_dist_dir, "/app/web/dist");
    assert_eq!(config.traefik_dynamic_dir(), "/var/sahai/traefik/dynamic");
}

#[test]
fn server_paths_come_from_the_data_root_not_the_host_root() {
    let config = Config::from_values(
        Some("/var/sahai".to_string()),
        None,
        None,
        Some("E:/repos/sahai/data".to_string()),
        None,
    );
    assert_eq!(config.host_data_root, "E:/repos/sahai/data");
    assert_eq!(config.traefik_dynamic_dir(), "/var/sahai/traefik/dynamic");
    assert_eq!(config.services_volume_root(), "/var/sahai/services");
    assert_eq!(config.database_path, "/var/sahai/db/sahai.sqlite3");
    assert_eq!(config.env_file_path, "/var/sahai/.sahai.env");
}

#[test]
fn a_data_root_with_a_trailing_slash_gets_no_second_separator() {
    let config = Config::from_values(Some("/srv/data/".to_string()), None, None, None, None);
    assert_eq!(config.traefik_dynamic_dir(), "/srv/data/traefik/dynamic");
    assert_eq!(config.services_volume_root(), "/srv/data/services");
    assert_eq!(config.env_file_path, "/srv/data/.sahai.env");
}

#[test]
fn only_a_usable_earlier_port_makes_a_later_one_a_duplicate() {
    let errors = collect_request_errors(&[container("app", &[0, 8080, 8080]), container("db", &[0, 8080])]);
    let fields: Vec<&str> = errors.iter().map(|e| e.field.as_str()).collect();
    assert_eq!(
        fields,
        vec![
            "containers[0].ports[0].host_port",
            "containers[0].ports[2].host_port",
            "containers[1].ports[0].host_port",
            "containers[1].ports[1].host_port",
        ]
    );
    assert!(!errors[2].message.contains("重複"), "{errors:?}");
    assert_eq!(
        errors[3].message,
        "ポート8080はこのリクエスト内のcontainers[0].ports[1].host_portと重複しています"
    );
}

#[test]
fn upserting_the_same_keys_twice_changes_nothing() {
    let content = "# dns\nA=1\r\n\nB = 2\nOTHER=x";
    let updates = [("B", "3"), ("C", "new")];
    let once = upsert_content(content, &updates);
    assert_eq!(once, "# dns\nA=1\n\nB=3\nOTHER=x\nC=new\n");
    assert_eq!(upsert_content(&once, &updates), once);
}

#[test]
fn dns_errors_name_every_blank_field_in_order() {
    let c = DnsConfig {
        dns_provider: "  ".to_string(),
        acme_email: "admin@example.com".to_string(),
        credentials: vec![
            (" ".to_string(), "a".to_string()),
            ("KEY".to_string(), "b".to_string()),
            ("".to_string(), "c".to_string()),
        ],
    };
    match validate_dns_config(&c).unwrap_err() {
        AppError::Validation(fields) => {
            let names: Vec<&str> = fields.iter().map(|f| f.field.as_str()).collect();
            assert_eq!(names, vec!["dns_provider", "credentials[0].key", "credentials[2].key"]);
        }
        _ => panic!("validation error expected"),
    }
}
