use sahai::container_plan::{
    build_container_config, env_file_content, generate_env_file_content, plan_override,
    registry_credentials_for,
};
use sahai::domain::{
    ContainerWithChildren, HealthStatus, Protocol, Service, ServiceContainer, ServiceDetail,
    ServicePort, ServiceStatus, ServiceVolume, SourceType,
};
use sahai::dto::{ContainerInput, PortInput};
use sahai::error::AppError;
use sahai::log_stream::{build_line, split_at_timestamp, LineBuffers, LogFrameKind, LogLine, LogStreamKind};
use sahai::rows::{ServicePortRow, ServiceRow};
use sahai::service_ops::{
    check_build_targets, check_container_updates, check_registry_credentials, check_upload_layout,
    compose_create_request, expected_image_tag, image_create_request, plan_compose_sync, port_protocols, start_step,
    status_after_start, stop_step, LifecycleStep,
};
use sahai::traefik::{
    plan_bootstrap_routes, plan_service_routes, plan_static_admin_routes, resolve_target_url,
    route_file_name, tls_twin_router_name, StaticDynamicConfig, StaticRouter,
};
use sahai::validation::validate_service_name;
use sahai::upload_rules::{
    count_read, describe_extract_error, find_str, human_size, size_limit_message,
    MAX_EXTRACTED_BYTES,
};

fn empty_object() -> serde_json::Value {
    serde_json::Value::Object(serde_json::Map::new())
}

fn object(pairs: &[(&str, serde_json::Value)]) -> serde_json::Value {
    let mut m = serde_json::Map::new();
    for (k, v) in pairs {
        m.insert(k.to_string(), v.clone());
    }
    serde_json::Value::Object(m)
}

fn service_detail(
    image: Option<&str>,
    env_vars: serde_json::Value,
    ports: Vec<ServicePort>,
    volumes: Vec<ServiceVolume>,
) -> ServiceDetail {
    ServiceDetail {
        service: Service {
            id: 5,
            name: "myapp".to_string(),
            subdomain: "myapp.example.com".to_string(),
            source_type: SourceType::Image,
            image: image.map(str::to_string),
            compose_content: None,
            env_vars,
            status: ServiceStatus::Stopped,
            health_status: HealthStatus::Unknown,
            last_health_check_at: None,
            created_at: "2026-01-01T00:00:00.000Z".to_string(),
            updated_at: "2026-01-01T00:00:00.000Z".to_string(),
        },
        containers: vec![ContainerWithChildren {
            container: ServiceContainer {
                id: 42,
                service_id: 5,
                name: "myapp".to_string(),
                health_status: HealthStatus::Unknown,
                last_health_check_at: None,
            },
            ports,
            volumes,
        }],
        route_warning: None,
    }
}

fn image_service(image: Option<&str>, ports: Vec<ServicePort>, volumes: Vec<ServiceVolume>) -> ServiceDetail {
    service_detail(
        image,
        object(&[("FOO", serde_json::Value::String("bar".to_string()))]),
        ports,
        volumes,
    )
}

// --- image service container ---

#[test]
fn container_name_uses_container_id_not_service_name() {
    let service = image_service(Some("x:latest"), vec![], vec![]);
    let plan = build_container_config(&service, "/var/sahai").unwrap();
    assert_eq!(plan.name, "svc-42");
}

#[test]
fn missing_image_is_an_error() {
    let service = image_service(None, vec![], vec![]);
    let result = build_container_config(&service, "/var/sahai");
    assert!(result.is_err());
}

#[test]
fn no_containers_is_an_error() {
    let mut service = image_service(Some("x:latest"), vec![], vec![]);
    service.containers.clear();
    let result = build_container_config(&service, "/var/sahai");
    assert_eq!(result.unwrap_err(), "image型サービスにコンテナが存在しません");
}

#[test]
fn port_bindings_and_exposed_ports_are_keyed_by_port_and_protocol() {
    let ports = vec![ServicePort {
        id: 1,
        container_id: 42,
        container_port: 8080,
        host_port: 20001,
        protocol: Protocol::Tcp,
        is_http: true,
    }];
    let service = image_service(Some("x:latest"), ports, vec![]);
    let plan = build_container_config(&service, "/var/sahai").unwrap();
    assert!(plan.exposed_ports.iter().any(|(k, _)| k == "8080/tcp"));
    let binding = plan.port_bindings.iter().find(|(k, _)| k == "8080/tcp").unwrap();
    assert_eq!(binding.1, "20001");
}

#[test]
fn volume_binds_use_service_id_based_host_path() {
    let volumes = vec![ServiceVolume {
        id: 1,
        container_id: 42,
        container_path: "/data".to_string(),
    }];
    let service = image_service(Some("x:latest"), vec![], volumes);
    let plan = build_container_config(&service, "/var/sahai").unwrap();
    assert_eq!(plan.binds, vec!["/var/sahai/services/5/data:/data".to_string()]);
}

#[test]
fn env_vars_are_formatted_as_key_equals_value() {
    let service = image_service(Some("x:latest"), vec![], vec![]);
    let plan = build_container_config(&service, "/var/sahai").unwrap();
    assert_eq!(plan.env, vec!["FOO=bar".to_string()]);
    assert_eq!(plan.network, "sahai");
}

#[test]
fn env_file_lists_string_values_and_empties_others() {
    let env = object(&[
        ("A", serde_json::Value::String("1".to_string())),
        ("B", serde_json::Value::Bool(true)),
    ]);
    assert_eq!(generate_env_file_content(&env), "A=1\nB=");
    assert_eq!(generate_env_file_content(&serde_json::Value::Null), "");
    assert_eq!(env_file_content(&None), "");
}

#[test]
fn override_file_gives_built_services_the_pushed_image() {
    let mut service = service_detail(Some("x"), empty_object(), vec![], vec![]);
    service.containers[0].container.name = "web".to_string();
    service.containers[0].ports.push(ServicePort {
        id: 1,
        container_id: 42,
        container_port: 80,
        host_port: 20001,
        protocol: Protocol::Udp,
        is_http: false,
    });
    service.containers[0].volumes.push(ServiceVolume {
        id: 1,
        container_id: 42,
        container_path: "/data/".to_string(),
    });
    let plan = plan_override(
        &service,
        "registry.example.com",
        &vec!["web".to_string()],
        "/var/sahai",
        "/var/sahai/compose-projects/5/.env",
    );
    assert_eq!(plan.len(), 1);
    assert_eq!(plan[0].0, "web");
    let o = &plan[0].1;
    assert_eq!(o.container_name, "svc-42");
    assert_eq!(o.image, Some("registry.example.com/myapp-web:latest".to_string()));
    assert_eq!(o.ports, vec!["20001:80/udp".to_string()]);
    assert_eq!(o.volumes, vec!["/var/sahai/services/5/data:/data/".to_string()]);
    assert_eq!(o.env_file, vec!["/var/sahai/compose-projects/5/.env".to_string()]);
    let plan = plan_override(&service, "r", &vec![], "/d", "/e");
    assert_eq!(plan[0].1.image, None);
}

// --- routes ---

fn http_port() -> ServicePort {
    ServicePort {
        id: 100,
        container_id: 10,
        container_port: 80,
        host_port: 0,
        protocol: Protocol::Tcp,
        is_http: true,
    }
}

fn non_http_port(host_port: i64) -> ServicePort {
    ServicePort {
        id: 101,
        container_id: 10,
        container_port: 3306,
        host_port,
        protocol: Protocol::Tcp,
        is_http: false,
    }
}

fn service_with_ports(ports: Vec<ServicePort>) -> ServiceDetail {
    let mut s = service_detail(Some("x:latest"), empty_object(), ports, vec![]);
    s.service.id = 1;
    s.containers[0].container.id = 10;
    s
}

#[test]
fn resolves_to_container_name_when_http_port_present() {
    let service = service_with_ports(vec![non_http_port(3306), http_port()]);
    assert_eq!(resolve_target_url(&service, "http://sahai-server:8080"), "http://svc-10:80");
}

#[test]
fn resolves_to_own_app_when_no_http_port() {
    let service = service_with_ports(vec![non_http_port(3306)]);
    assert_eq!(
        resolve_target_url(&service, "http://sahai-server:8080"),
        "http://sahai-server:8080"
    );
}

#[test]
fn resolves_to_own_app_when_no_ports_at_all() {
    let service = service_with_ports(vec![]);
    assert_eq!(
        resolve_target_url(&service, "http://sahai-server:8080"),
        "http://sahai-server:8080"
    );
}

#[test]
fn service_routes_follow_the_redirect_setting() {
    let service = service_with_ports(vec![http_port()]);
    let https = plan_service_routes(&service, true, "cloudflare", "http://app");
    assert_eq!(https.routers.len(), 1);
    assert_eq!(https.routers[0].1.rule, "Host(`myapp.example.com`)");
    let plain = plan_service_routes(&service, false, "cloudflare", "http://app");
    assert_eq!(plain.routers.len(), 2);
    assert!(plain.routers.iter().any(|(n, _)| n == "myapp_tls"));
    assert_eq!(route_file_name("myapp.example.com"), "myapp.example.com.yml");
}

// --- log lines ---

const TS: &str = "2026-08-11T07:05:25.472263000Z";

fn push_stdout(b: &mut LineBuffers, s: &str) -> Vec<LogLine> {
    b.push(LogFrameKind::StdOut, s.as_bytes())
}

fn push_stderr(b: &mut LineBuffers, s: &str) -> Vec<LogLine> {
    b.push(LogFrameKind::StdErr, s.as_bytes())
}

#[test]
fn timestamp_is_split_off_leaving_the_message() {
    let mut buffers = LineBuffers::new();
    let lines = push_stdout(&mut buffers, &format!("{TS} Listening on :3000\n"));
    assert_eq!(
        lines,
        vec![LogLine {
            stream: LogStreamKind::Stdout,
            timestamp: Some(TS.to_string()),
            message: "Listening on :3000".to_string(),
        }]
    );
}

#[test]
fn a_first_word_that_is_no_time_is_kept() {
    let mut buffers = LineBuffers::new();
    let lines = push_stdout(&mut buffers, "ERROR connection refused\n");
    assert_eq!(lines[0].timestamp, None);
    assert_eq!(lines[0].message, "ERROR connection refused");
}

#[test]
fn a_frame_with_several_lines_is_split() {
    let mut buffers = LineBuffers::new();
    let lines = push_stdout(&mut buffers, &format!("{TS} one\n{TS} two\n"));
    let messages: Vec<_> = lines.iter().map(|l| l.message.as_str()).collect();
    assert_eq!(messages, vec!["one", "two"]);
}

#[test]
fn a_frame_cut_mid_line_joins_the_next() {
    let mut buffers = LineBuffers::new();
    assert!(push_stdout(&mut buffers, &format!("{TS} first half")).is_empty());
    let lines = push_stdout(&mut buffers, " second half\n");
    assert_eq!(lines.len(), 1);
    assert_eq!(lines[0].message, "first half second half");
}

#[test]
fn flush_takes_out_a_last_line_without_newline() {
    let mut buffers = LineBuffers::new();
    assert!(push_stdout(&mut buffers, &format!("{TS} panicked")).is_empty());
    let lines = buffers.flush();
    assert_eq!(lines.len(), 1);
    assert_eq!(lines[0].message, "panicked");
    assert!(buffers.flush().is_empty());
}

#[test]
fn stdout_and_stderr_buffers_do_not_mix() {
    let mut buffers = LineBuffers::new();
    assert!(push_stdout(&mut buffers, "out-").is_empty());
    assert!(push_stderr(&mut buffers, "err-").is_empty());
    let out = push_stdout(&mut buffers, "done\n");
    let err = push_stderr(&mut buffers, "done\n");
    assert_eq!(out[0].message, "out-done");
    assert_eq!(out[0].stream, LogStreamKind::Stdout);
    assert_eq!(err[0].message, "err-done");
    assert_eq!(err[0].stream, LogStreamKind::Stderr);
}

#[test]
fn crlf_line_ends_are_dropped() {
    let mut buffers = LineBuffers::new();
    let lines = push_stdout(&mut buffers, &format!("{TS} windows\r\n"));
    assert_eq!(lines[0].message, "windows");
}

#[test]
fn invalid_utf8_still_makes_a_line() {
    let mut buffers = LineBuffers::new();
    let lines = buffers.push(LogFrameKind::StdOut, &[0xff, 0xfe, b'\n']);
    assert_eq!(lines.len(), 1);
    assert_eq!(lines[0].stream, LogStreamKind::Stdout);
}

#[test]
fn console_frames_count_as_standard_output() {
    let mut buffers = LineBuffers::new();
    let lines = buffers.push(LogFrameKind::Console, b"tty\n");
    assert_eq!(lines[0].stream, LogStreamKind::Stdout);
    assert_eq!(LogStreamKind::Stderr.as_str(), "stderr");
}

#[test]
fn split_keeps_the_line_when_the_first_word_is_no_time() {
    assert_eq!(split_at_timestamp("a b", false), (None, "a b".to_string()));
    assert_eq!(split_at_timestamp("a b", true), (Some("a".to_string()), "b".to_string()));
    assert_eq!(split_at_timestamp("ab", true), (None, "ab".to_string()));
    let line = build_line("nospace\n\n", LogStreamKind::Stderr);
    assert_eq!(line.message, "nospace");
}

// --- rows ---

#[test]
fn service_rows_become_services() {
    let row = ServiceRow {
        id: 1,
        name: "myapp".to_string(),
        subdomain: "myapp.example.com".to_string(),
        source_type: "image".to_string(),
        image: Some("x".to_string()),
        compose_content: None,
        env_vars: "{\"A\":\"1\"}".to_string(),
        status: "running".to_string(),
        health_status: "healthy".to_string(),
        last_health_check_at: None,
        created_at: "c".to_string(),
        updated_at: "u".to_string(),
    };
    let s = Service::try_from(row.clone()).unwrap();
    assert_eq!(s.status, ServiceStatus::Running);
    assert_eq!(s.env_vars["A"], "1");
    let mut bad = row.clone();
    bad.env_vars = "{".to_string();
    assert!(Service::try_from(bad).unwrap_err().starts_with("env_varsのJSON解析に失敗: "));
    let mut bad = row;
    bad.status = "paused".to_string();
    assert_eq!(Service::try_from(bad).unwrap_err(), "不明なstatus: paused");
}

#[test]
fn port_rows_read_the_stored_boolean() {
    let row = ServicePortRow {
        id: 1,
        container_id: 2,
        container_port: 80,
        host_port: 20001,
        protocol: "udp".to_string(),
        is_http: 1,
    };
    let p = ServicePort::try_from(row).unwrap();
    assert!(p.is_http);
    assert_eq!(p.protocol, Protocol::Udp);
}

// --- service operations ---

fn input(name: &str, protocol: &str, host_port: i64) -> ContainerInput {
    ContainerInput {
        name: name.to_string(),
        ports: vec![PortInput {
            container_port: 80,
            host_port: Some(host_port),
            protocol: protocol.to_string(),
            is_http: false,
        }],
        volumes: vec![],
    }
}

#[test]
fn updates_name_only_existing_containers() {
    let existing = vec!["app".to_string()];
    assert!(check_container_updates(&vec![input("app", "tcp", 20001)], &existing).is_ok());
    match check_container_updates(&vec![input("ghost", "tcp", 443)], &existing) {
        Err(AppError::Validation(f)) => {
            assert_eq!(f.len(), 2);
            assert_eq!(f[0].field, "containers[0].name");
            assert_eq!(f[1].field, "containers[0].ports[0].host_port");
        }
        _ => panic!("validation error expected"),
    }
}

#[test]
fn unknown_protocol_is_reported_at_its_port() {
    let inputs = vec![input("a", "tcp", 1000), input("b", "sctp", 1001)];
    match port_protocols(&inputs) {
        Err(AppError::Validation(f)) => {
            assert_eq!(f[0].field, "containers[1].ports[0].protocol");
            assert_eq!(f[0].message, "不明なprotocol: sctp");
        }
        _ => panic!("validation error expected"),
    }
    let ok = port_protocols(&vec![input("a", "udp", 1000)]).unwrap();
    assert_eq!(ok, vec![vec![Protocol::Udp]]);
}

#[test]
fn compose_sync_keeps_ids_of_unchanged_services() {
    let existing = vec![(1, "app".to_string()), (2, "admin".to_string())];
    let plan = plan_compose_sync(&existing, &vec!["app".to_string(), "db".to_string()]).unwrap();
    assert_eq!(plan.added, vec!["db".to_string()]);
    assert_eq!(plan.removed, vec!["admin".to_string()]);
    assert_eq!(plan.removed_ids, vec![2]);
    assert!(plan_compose_sync(&existing, &vec!["Bad_Name!".to_string()]).is_err());
}

#[test]
fn lifecycle_operations_are_idempotent() {
    assert_eq!(start_step(ServiceStatus::Running), LifecycleStep::NoOp);
    assert_eq!(start_step(ServiceStatus::Stopped), LifecycleStep::Run);
    assert_eq!(start_step(ServiceStatus::Error), LifecycleStep::Run);
    assert_eq!(stop_step(ServiceStatus::Stopped), LifecycleStep::NoOp);
    assert_eq!(stop_step(ServiceStatus::Error), LifecycleStep::Run);
    assert_eq!(status_after_start(false), ServiceStatus::Error);
}

#[test]
fn uploads_need_credentials_and_a_matching_layout() {
    assert!(check_registry_credentials(&Some("u".to_string()), &Some("p".to_string())).is_ok());
    assert!(matches!(
        check_registry_credentials(&Some("u".to_string()), &None),
        Err(AppError::Unprocessable(_))
    ));
    assert!(check_upload_layout(true, SourceType::Compose).is_ok());
    match check_upload_layout(false, SourceType::Compose) {
        Err(AppError::Unprocessable(m)) => {
            assert_eq!(m, "登録内容(source_type=compose)とアップロードされたプロジェクト構成が一致しません")
        }
        _ => panic!("unprocessable expected"),
    }
    assert!(check_build_targets("myapp", &vec!["web".to_string()]).is_ok());
    match check_build_targets("myapp", &vec!["web".to_string(), "Bad".to_string()]) {
        Err(AppError::Validation(f)) => assert_eq!(f[0].field, "compose_content[Bad]"),
        _ => panic!("validation error expected"),
    }
    let req = image_create_request("myapp", "r/myapp:latest".to_string());
    assert_eq!(req.containers.len(), 1);
    assert_eq!(req.containers[0].name, "myapp");
    let req = compose_create_request("stack", "services: {}".to_string());
    assert!(req.containers.is_empty());
    assert_eq!(req.source_type, "compose");
}

// --- upload limits ---

#[test]
fn sizes_are_shown_in_whole_units() {
    assert_eq!(human_size(MAX_EXTRACTED_BYTES), "1GB");
    assert_eq!(human_size(5 * 1024 * 1024 + 1), "5MB");
    assert_eq!(human_size(2047), "1KB");
    assert_eq!(
        size_limit_message(MAX_EXTRACTED_BYTES),
        "アーカイブの展開サイズが上限(1GB)を超えました。不要なファイルを.dockerignoreで除外してください"
    );
}

#[test]
fn extract_errors_are_cut_to_the_size_limit_message() {
    let chain = vec![
        "failed to unpack `x`".to_string(),
        size_limit_message(1024),
    ];
    assert_eq!(describe_extract_error(&chain), size_limit_message(1024));
    let other = vec!["a".to_string(), "b".to_string()];
    assert_eq!(describe_extract_error(&other), "a: b");
    assert_eq!(find_str("abcabc", "ca"), Some(2));
    assert_eq!(find_str("abc", "abcd"), None);
    assert_eq!(count_read(10, 5, 12), (15, true));
    assert_eq!(count_read(u64::MAX, 1, 12), (u64::MAX, true));
}

#[test]
fn expected_image_tag_uses_stored_image_field_for_image_type() {
    let detail = service_detail(
        Some("registry.sahai.example.com/myapp:latest"),
        empty_object(),
        vec![],
        vec![],
    );
    assert_eq!(
        expected_image_tag(&detail.service, "myapp", "registry.sahai.example.com"),
        "registry.sahai.example.com/myapp:latest"
    );
}

#[test]
fn expected_image_tag_derives_from_registry_url_for_compose_type() {
    let mut detail = service_detail(None, empty_object(), vec![], vec![]);
    detail.service.source_type = SourceType::Compose;
    assert_eq!(
        expected_image_tag(&detail.service, "frontend", "registry.sahai.example.com"),
        "registry.sahai.example.com/myapp-frontend:latest"
    );
}

#[test]
fn expected_image_tag_is_empty_for_image_service_without_image() {
    let detail = service_detail(None, empty_object(), vec![], vec![]);
    assert_eq!(expected_image_tag(&detail.service, "myapp", "reg.example.com"), "");
}

fn some(s: &str) -> Option<String> {
    Some(s.to_string())
}

#[test]
fn adds_credentials_for_own_registry() {
    let creds = registry_credentials_for(
        "registry.sahai.example.com/myapp:latest",
        "registry.sahai.example.com",
        &some("u"),
        &some("p"),
    )
    .expect("credentials for the own registry");
    assert_eq!(creds.username, "u");
    assert_eq!(creds.password, "p");
    assert_eq!(creds.server_address, "registry.sahai.example.com");
}

#[test]
fn omits_credentials_for_external_registries() {
    for image in [
        "nginx:alpine",
        "docker.io/library/postgres:16",
        "ghcr.io/someone/app:latest",
        "registry.sahai.example.com.evil.test/app:latest",
    ] {
        assert!(
            registry_credentials_for(image, "registry.sahai.example.com", &some("u"), &some("p"))
                .is_none(),
            "no credentials for {image}"
        );
    }
}

#[test]
fn omits_credentials_when_not_configured() {
    assert!(registry_credentials_for(
        "registry.sahai.example.com/myapp:latest",
        "registry.sahai.example.com",
        &None,
        &None
    )
    .is_none());
}

#[test]
fn credentials_use_the_trimmed_registry_address() {
    let creds = registry_credentials_for("reg.example.com/app:latest", "  reg.example.com ", &some("u"), &some("p"))
        .expect("trimmed registry matches");
    assert_eq!(creds.server_address, "reg.example.com");
    assert!(registry_credentials_for("/app:latest", "  ", &some("u"), &some("p")).is_none());
}

// --- sahai's own routes ---

fn static_router<'a>(c: &'a StaticDynamicConfig, name: &str) -> Option<&'a StaticRouter> {
    c.routers.iter().find(|(n, _)| n == name).map(|(_, r)| r)
}

fn static_service_url(c: &StaticDynamicConfig, name: &str) -> Option<String> {
    c.services
        .iter()
        .find(|(n, _)| n == name)
        .map(|(_, s)| s.server_urls[0].clone())
}

fn admin_routes(https_redirect: bool) -> StaticDynamicConfig {
    plan_static_admin_routes(
        "example.com",
        https_redirect,
        "cloudflare",
        "http://sahai-server:8080",
        "http://registry:5000",
    )
}

#[test]
fn static_route_names_cannot_collide_with_any_service_name() {
    let configs = vec![
        admin_routes(true),
        admin_routes(false),
        plan_bootstrap_routes("cloudflare", "http://sahai-server:8080"),
    ];
    for config in &configs {
        let names = config
            .routers
            .iter()
            .map(|(n, _)| n)
            .chain(config.services.iter().map(|(n, _)| n));
        for name in names {
            assert!(name.contains('_'), "{name}");
            assert!(validate_service_name(name).is_err(), "{name}");
        }
    }
}

#[test]
fn tls_twin_router_name_cannot_collide_with_any_service_name() {
    let name = tls_twin_router_name("myapp");
    assert_eq!(name, "myapp_tls");
    assert!(validate_service_name(&name).is_err());
}

#[test]
fn static_admin_routes_have_expected_content() {
    let c = admin_routes(true);
    let app = static_router(&c, "sahai_app").unwrap();
    assert_eq!(app.rule, "Host(`sahai.example.com`)");
    assert_eq!(app.priority, 100);
    assert_eq!(static_service_url(&c, "sahai_app").as_deref(), Some("http://sahai-server:8080"));

    let registry = static_router(&c, "sahai_registry").unwrap();
    assert_eq!(registry.rule, "Host(`registry.sahai.example.com`)");
    assert_eq!(registry.priority, 100);
    assert_eq!(static_service_url(&c, "sahai_registry").as_deref(), Some("http://registry:5000"));

    let catchall = static_router(&c, "sahai_catchall").unwrap();
    assert_eq!(catchall.rule, "HostRegexp(`^.+\\.example\\.com$`)");
    assert_eq!(catchall.priority, 1);
    assert_eq!(catchall.service, "sahai_app");
    let domains = catchall.tls.as_ref().unwrap().domains.as_ref().unwrap();
    assert_eq!(domains[0].main, "example.com");
    assert_eq!(domains[0].sans[0], "*.example.com");
}

#[test]
fn static_admin_routes_add_https_redirect_router_when_enabled() {
    let c = admin_routes(true);
    let app = static_router(&c, "sahai_app").unwrap();
    assert_eq!(app.entry_points.as_ref().unwrap()[0], "websecure");
    let redirect = static_router(&c, "sahai_https_redirect").unwrap();
    assert_eq!(redirect.rule, "PathPrefix(`/`)");
    assert_eq!(redirect.entry_points.as_ref().unwrap()[0], "web");
    assert_eq!(redirect.middlewares.as_ref().unwrap()[0], "sahai_https_redirect");
    assert!(redirect.tls.is_none());
    let middlewares = c.middlewares.as_ref().unwrap();
    let (name, mw) = &middlewares[0];
    assert_eq!(name, "sahai_https_redirect");
    assert_eq!(mw.redirect_scheme.scheme, "https");
    assert!(mw.redirect_scheme.permanent);
}

#[test]
fn static_admin_routes_omit_redirect_when_https_redirect_disabled() {
    let c = admin_routes(false);
    assert!(static_router(&c, "sahai_https_redirect").is_none());
    assert!(c.middlewares.is_none());
    for name in ["sahai_app", "sahai_catchall"] {
        let plain = static_router(&c, name).unwrap();
        assert_eq!(plain.entry_points.as_ref().unwrap()[0], "web");
        assert!(plain.tls.is_none());
        let twin = static_router(&c, &format!("{name}_tls")).unwrap();
        assert_eq!(twin.entry_points.as_ref().unwrap()[0], "websecure");
        assert!(twin.tls.as_ref().unwrap().cert_resolver.is_none());
        assert_eq!(twin.rule, plain.rule);
        assert_eq!(twin.priority, plain.priority);
    }
    let registry = static_router(&c, "sahai_registry").unwrap();
    assert_eq!(registry.rule, "Host(`registry.sahai.example.com`)");
    assert!(registry.tls.as_ref().unwrap().cert_resolver.is_none());
    assert_eq!(registry.entry_points.as_ref().unwrap()[0], "websecure");
}

#[test]
fn bootstrap_routes_are_host_agnostic() {
    let c = plan_bootstrap_routes("cloudflare", "http://sahai-server:8080");
    let app = static_router(&c, "sahai_app").unwrap();
    assert_eq!(app.rule, "PathPrefix(`/`)");
    assert_eq!(app.priority, 1);
    assert!(app.tls.is_none());
    let twin = static_router(&c, "sahai_app_tls").unwrap();
    assert_eq!(twin.rule, "PathPrefix(`/`)");
    assert!(twin.tls.is_some());
    assert_eq!(static_service_url(&c, "sahai_app").as_deref(), Some("http://sahai-server:8080"));
}

// --- the override file of a compose project ---

fn compose_container(
    id: i64,
    name: &str,
    ports: Vec<ServicePort>,
    volumes: Vec<ServiceVolume>,
) -> ContainerWithChildren {
    ContainerWithChildren {
        container: ServiceContainer {
            id,
            service_id: 1,
            name: name.to_string(),
            health_status: HealthStatus::Unknown,
            last_health_check_at: None,
        },
        ports,
        volumes,
    }
}

fn compose_service_detail() -> ServiceDetail {
    ServiceDetail {
        service: Service {
            id: 1,
            name: "webstack".to_string(),
            subdomain: "webstack.example.com".to_string(),
            source_type: SourceType::Compose,
            image: None,
            compose_content: Some(
                "services:\n  app:\n    build: .\n  db:\n    image: mysql:8\n".to_string(),
            ),
            env_vars: empty_object(),
            status: ServiceStatus::Stopped,
            health_status: HealthStatus::Unknown,
            last_health_check_at: None,
            created_at: "2026-01-01T00:00:00.000Z".to_string(),
            updated_at: "2026-01-01T00:00:00.000Z".to_string(),
        },
        containers: vec![
            compose_container(
                10,
                "app",
                vec![ServicePort {
                    id: 100,
                    container_id: 10,
                    container_port: 80,
                    host_port: 20010,
                    protocol: Protocol::Tcp,
                    is_http: true,
                }],
                vec![],
            ),
            compose_container(
                11,
                "db",
                vec![],
                vec![ServiceVolume {
                    id: 200,
                    container_id: 11,
                    container_path: "/var/lib/mysql".to_string(),
                }],
            ),
        ],
        route_warning: None,
    }
}

fn compose_override() -> Vec<(String, sahai::container_plan::OverrideService)> {
    plan_override(
        &compose_service_detail(),
        "registry.sahai.example.com",
        &vec!["app".to_string()],
        "/var/sahai",
        "/var/sahai/compose-projects/1/.env",
    )
}

fn override_of<'a>(
    plan: &'a [(String, sahai::container_plan::OverrideService)],
    name: &str,
) -> &'a sahai::container_plan::OverrideService {
    &plan.iter().find(|(n, _)| n == name).unwrap().1
}

#[test]
fn injects_image_only_for_build_services() {
    let plan = compose_override();
    assert_eq!(
        override_of(&plan, "app").image.as_deref(),
        Some("registry.sahai.example.com/webstack-app:latest")
    );
    assert!(override_of(&plan, "db").image.is_none());
}

#[test]
fn injects_container_name_for_all_containers_regardless_of_build() {
    let plan = compose_override();
    assert_eq!(override_of(&plan, "app").container_name, "svc-10");
    assert_eq!(override_of(&plan, "db").container_name, "svc-11");
}

#[test]
fn formats_ports_and_volumes_and_env_file() {
    let plan = compose_override();
    assert_eq!(override_of(&plan, "app").ports[0], "20010:80/tcp");
    assert_eq!(
        override_of(&plan, "db").volumes[0],
        "/var/sahai/services/1/var-lib-mysql:/var/lib/mysql"
    );
    assert_eq!(override_of(&plan, "app").env_file[0], "/var/sahai/compose-projects/1/.env");
    assert_eq!(override_of(&plan, "db").env_file[0], "/var/sahai/compose-projects/1/.env");
}

#[test]
fn omits_empty_ports_and_volumes_keys() {
    let plan = compose_override();
    assert!(override_of(&plan, "db").ports.is_empty());
    assert!(override_of(&plan, "app").volumes.is_empty());
}

#[test]
fn env_file_content_formats_key_value_pairs() {
    let content = generate_env_file_content(&object(&[
        ("FOO", serde_json::Value::String("bar".to_string())),
        ("BAZ", serde_json::Value::String("qux".to_string())),
    ]));
    let mut lines: Vec<&str> = content.lines().collect();
    lines.sort();
    assert_eq!(lines, vec!["BAZ=qux", "FOO=bar"]);
}

#[test]
fn env_file_content_empty_for_empty_object() {
    assert_eq!(generate_env_file_content(&empty_object()), "");
}

#[test]
fn restart_policy_is_unless_stopped() {
    let service = image_service(Some("x:latest"), vec![], vec![]);
    let plan = build_container_config(&service, "/var/sahai").unwrap();
    assert_eq!(plan.restart_policy, "unless-stopped");
}

#[test]
fn a_port_without_a_host_port_is_exposed_but_not_published() {
    let ports = vec![
        ServicePort {
            id: 1,
            container_id: 42,
            container_port: 80,
            host_port: 0,
            protocol: Protocol::Tcp,
            is_http: true,
        },
        ServicePort {
            id: 2,
            container_id: 42,
            container_port: 3306,
            host_port: 23306,
            protocol: Protocol::Tcp,
            is_http: false,
        },
    ];
    let service = image_service(Some("x:latest"), ports.clone(), vec![]);
    let plan = build_container_config(&service, "/var/sahai").unwrap();
    assert!(plan.exposed_ports.iter().any(|(k, _)| k == "80/tcp"));
    assert!(!plan.port_bindings.iter().any(|(k, _)| k == "80/tcp"));
    assert_eq!(plan.port_bindings, vec![("3306/tcp".to_string(), "23306".to_string())]);

    let compose = service_detail(Some("x"), empty_object(), ports, vec![]);
    let over = plan_override(&compose, "r", &vec![], "/d", "/e");
    assert_eq!(over[0].1.ports, vec!["23306:3306/tcp".to_string()]);
}

#[test]
fn the_first_target_that_cannot_be_built_is_reported() {
    match check_build_targets("myapp", &vec!["api".to_string(), "Bad".to_string(), "Worse!".to_string()]) {
        Err(AppError::Validation(f)) => {
            assert_eq!(f.len(), 1);
            assert_eq!(f[0].field, "compose_content[Bad]");
        }
        _ => panic!("validation error expected"),
    }
    assert!(check_build_targets("myapp", &vec![]).is_ok());
}
