use sahai::cli::{
    api_url, check_push_layout, check_push_target, describe_error_chain, describe_lookup_error,
    display_or_unset, docker_push_args, image_tag, mask_token, parse_key_val,
    validate_compose_build_targets,
};
use sahai::cli_format::{
    format_bytes, format_lifecycle_result, format_ports, format_status, format_table,
    format_volumes, render_table, render_table_row, ContainerDto, ContainerStatsDto, PortDto,
    ServiceDetailDto, ServiceListRow, VolumeDto,
};

// --- error chains ---

#[derive(Debug)]
struct RootCause;
impl std::fmt::Display for RootCause {
    fn fmt(&self, f: &mut std::fmt::Formatter<'_>) -> std::fmt::Result {
        f.write_str("invalid peer certificate")
    }
}
impl std::error::Error for RootCause {}

#[derive(Debug)]
struct MidLayer(RootCause);
impl std::fmt::Display for MidLayer {
    fn fmt(&self, f: &mut std::fmt::Formatter<'_>) -> std::fmt::Result {
        f.write_str("error trying to connect")
    }
}
impl std::error::Error for MidLayer {
    fn source(&self) -> Option<&(dyn std::error::Error + 'static)> {
        Some(&self.0)
    }
}

#[derive(Debug)]
struct TopLayer(MidLayer);
impl std::fmt::Display for TopLayer {
    fn fmt(&self, f: &mut std::fmt::Formatter<'_>) -> std::fmt::Result {
        f.write_str("error sending request for url (https://example.test/)")
    }
}
impl std::error::Error for TopLayer {
    fn source(&self) -> Option<&(dyn std::error::Error + 'static)> {
        Some(&self.0)
    }
}

fn chain_messages(err: &(dyn std::error::Error + 'static)) -> Vec<String> {
    let mut parts = vec![err.to_string()];
    let mut source = err.source();
    while let Some(e) = source {
        parts.push(e.to_string());
        source = e.source();
    }
    parts
}

#[test]
fn describe_error_chain_joins_all_source_messages() {
    let err = TopLayer(MidLayer(RootCause));
    assert_eq!(
        describe_error_chain(&chain_messages(&err)),
        "error sending request for url (https://example.test/): error trying to connect: invalid peer certificate"
    );
}

#[test]
fn describe_error_chain_returns_single_message_when_no_source() {
    let err = RootCause;
    assert_eq!(describe_error_chain(&chain_messages(&err)), "invalid peer certificate");
}

#[test]
fn url_joins_base_without_trailing_slash() {
    assert_eq!(
        api_url("https://admin.example.com", "/api/services"),
        "https://admin.example.com/api/services"
    );
}

#[test]
fn url_joins_base_with_trailing_slash_without_doubling() {
    assert_eq!(
        api_url("https://admin.example.com/", "/api/services"),
        "https://admin.example.com/api/services"
    );
}

// --- config display ---

#[test]
fn unset_values_are_shown_as_placeholder() {
    assert_eq!(display_or_unset(""), "(未設定)");
    assert_eq!(
        display_or_unset("https://sahai.example.com"),
        "https://sahai.example.com"
    );
}

#[test]
fn token_value_is_never_printed() {
    let masked = mask_token("super-secret-token");
    assert!(!masked.contains("super-secret-token"));
    assert!(masked.contains("18文字"));
}

#[test]
fn empty_token_is_reported_as_unset() {
    assert_eq!(mask_token(""), "(未設定)");
}

// --- container push ---

#[test]
fn describe_lookup_error_gives_registration_hint_for_http_404() {
    assert_eq!(
        describe_lookup_error(
            "myapp",
            "HTTP 404 Not Found: {\"error\":{\"message\":\"not found\"}}"
        ),
        "サービス 'myapp' が見つかりません。先にWeb UIで登録してください"
    );
}

#[test]
fn describe_lookup_error_passes_through_non_404_errors() {
    let msg = describe_lookup_error(
        "myapp",
        "error sending request for url (https://sahai.localhost/api/services/myapp): error trying to connect: invalid peer certificate",
    );
    assert!(msg.contains("invalid peer certificate"), "実際のエラー内容が含まれるべき: {msg}");
    assert!(!msg.contains("先にWeb UIで登録してください"), "未登録だと誤断定してはいけない: {msg}");
}

#[test]
fn docker_push_args_is_push_and_tag() {
    assert_eq!(
        docker_push_args("registry.sahai.example.com/myapp:latest"),
        vec!["push", "registry.sahai.example.com/myapp:latest"]
    );
}

#[test]
fn push_layout_must_match_registration() {
    assert!(check_push_layout("compose", true).is_ok());
    assert!(check_push_layout("image", false).is_ok());
    assert_eq!(
        check_push_layout("image", true).unwrap_err(),
        "登録内容(source_type=image)とディレクトリ構成が一致しません"
    );
    assert_eq!(image_tag("reg.example.com", "myapp"), "reg.example.com/myapp:latest");
}

#[test]
fn push_targets_are_checked_before_building() {
    assert_eq!(check_push_target("myapp", "web").unwrap(), "myapp-web");
    let err = check_push_target("myapp", "Web_App").unwrap_err();
    assert!(err.starts_with("'Web_App': "), "{err}");
    let long = "a".repeat(200);
    let err = check_push_target(&long, "web").unwrap_err();
    assert!(err.starts_with("'web': "), "{err}");
    assert!(validate_compose_build_targets("myapp", &vec!["web".to_string()]).is_ok());
    assert!(validate_compose_build_targets("myapp", &vec!["web".to_string(), "Bad".to_string()]).is_err());
}

// --- build-arg parsing ---

#[test]
fn parse_key_val_splits_on_first_equals() {
    assert_eq!(
        parse_key_val("KEY=VALUE").unwrap(),
        ("KEY".to_string(), "VALUE".to_string())
    );
}

#[test]
fn parse_key_val_allows_equals_signs_in_value() {
    assert_eq!(
        parse_key_val("KEY=a=b=c").unwrap(),
        ("KEY".to_string(), "a=b=c".to_string())
    );
}

#[test]
fn parse_key_val_rejects_missing_equals() {
    assert!(parse_key_val("NOEQUALSIGN").is_err());
    assert_eq!(
        parse_key_val("NOEQUALSIGN").unwrap_err(),
        "KEY=VALUE形式で指定してください: NOEQUALSIGN"
    );
}

// --- formatting ---

fn row(name: &str, status: &str, health: &str, source_type: &str, subdomain: &str) -> ServiceListRow {
    ServiceListRow {
        name: name.to_string(),
        status: status.to_string(),
        health_status: health.to_string(),
        source_type: source_type.to_string(),
        subdomain: subdomain.to_string(),
    }
}

#[test]
fn format_table_shows_placeholder_when_empty() {
    assert_eq!(format_table(&vec![]), "登録されているサービスはありません。\n");
}

#[test]
fn format_table_includes_header_and_row_values() {
    let services = vec![row("myapp", "running", "healthy", "image", "myapp.example.com")];
    let table = format_table(&services);
    let lines: Vec<&str> = table.lines().collect();
    assert_eq!(lines.len(), 2);
    assert!(lines[0].starts_with("NAME"));
    assert!(lines[1].starts_with("myapp"));
    assert!(lines[1].contains("running"));
    assert!(lines[1].contains("healthy"));
    assert!(lines[1].contains("image"));
    assert!(lines[1].contains("myapp.example.com"));
}

#[test]
fn format_table_aligns_columns_by_widest_value() {
    let services = vec![
        row("a", "running", "healthy", "image", "a.example.com"),
        row(
            "very-long-name",
            "stopped",
            "unknown",
            "compose",
            "very-long-name.example.com",
        ),
    ];
    let table = format_table(&services);
    let lines: Vec<&str> = table.lines().collect();
    let header_status_pos = lines[0].find("STATUS").unwrap();
    let row1_status_pos = lines[1].find("running").unwrap();
    let row2_status_pos = lines[2].find("stopped").unwrap();
    assert_eq!(header_status_pos, row1_status_pos);
    assert_eq!(header_status_pos, row2_status_pos);
}

#[test]
fn format_bytes_below_1024_uses_plain_bytes() {
    assert_eq!(format_bytes(0), "0 B");
    assert_eq!(format_bytes(1023), "1023 B");
}

#[test]
fn format_bytes_exactly_1024_becomes_one_kb() {
    assert_eq!(format_bytes(1024), "1.0 KB");
}

#[test]
fn format_bytes_scales_up_through_units() {
    assert_eq!(format_bytes(1536), "1.5 KB");
    assert_eq!(format_bytes(1024 * 1024), "1.0 MB");
    assert_eq!(format_bytes(1024 * 1024 * 1024), "1.0 GB");
}

#[test]
fn format_bytes_caps_at_tb_unit() {
    let huge = 1024u64 * 1024 * 1024 * 1024 * 5;
    assert_eq!(format_bytes(huge), "5.0 TB");
}

#[test]
fn format_bytes_agrees_with_float_formatting() {
    for b in [1025u64, 1075, 1126, 2047, 10_000, 123_456_789, 999_999_999_999, 1 << 50] {
        let mut value = b as f64;
        let mut unit = 0;
        let units = ["B", "KB", "MB", "GB", "TB"];
        while value >= 1024.0 && unit < 4 {
            value /= 1024.0;
            unit += 1;
        }
        assert_eq!(format_bytes(b), format!("{value:.1} {}", units[unit]), "{b}");
    }
}

fn detail_fixture(containers: Vec<ContainerDto>, route_warning: Option<&str>) -> ServiceDetailDto {
    ServiceDetailDto {
        name: "myapp".to_string(),
        subdomain: "myapp.example.com".to_string(),
        source_type: "image".to_string(),
        status: "running".to_string(),
        health_status: "healthy".to_string(),
        last_health_check_at: Some("2026-07-31T12:00:00.000Z".to_string()),
        route_warning: route_warning.map(str::to_string),
        containers,
    }
}

fn container_fixture(name: &str, ports: Vec<PortDto>, volumes: Vec<VolumeDto>) -> ContainerDto {
    ContainerDto {
        name: name.to_string(),
        health_status: "healthy".to_string(),
        ports,
        volumes,
    }
}

#[test]
fn format_status_includes_header_fields() {
    let detail = detail_fixture(vec![], None);
    let out = format_status(&detail, &vec![]);
    assert!(out.contains("myapp"));
    assert!(out.contains("myapp.example.com"));
    assert!(out.contains("image"));
    assert!(out.contains("running"));
    assert!(out.contains("healthy"));
    assert!(out.contains("2026-07-31T12:00:00.000Z"));
}

#[test]
fn format_status_omits_warning_line_when_none() {
    let detail = detail_fixture(vec![], None);
    let out = format_status(&detail, &vec![]);
    assert!(!out.contains("警告:"));
}

#[test]
fn format_status_includes_warning_line_when_present() {
    let detail = detail_fixture(vec![], Some("Traefikルート書き出し失敗"));
    let out = format_status(&detail, &vec![]);
    assert!(out.contains("警告: Traefikルート書き出し失敗"));
}

#[test]
fn format_status_shows_dash_for_missing_stats_and_empty_ports_volumes() {
    let detail = detail_fixture(vec![container_fixture("myapp", vec![], vec![])], None);
    let out = format_status(&detail, &vec![]);
    let container_line = out.lines().find(|l| l.starts_with("myapp")).unwrap();
    let dash_count = container_line.matches('-').count();
    assert!(dash_count >= 4, "{container_line}");
}

#[test]
fn format_status_fills_stats_ports_and_volumes_when_present() {
    let detail = detail_fixture(
        vec![container_fixture(
            "myapp",
            vec![PortDto {
                container_port: 80,
                host_port: 20001,
                protocol: "tcp".to_string(),
                is_http: true,
            }],
            vec![VolumeDto {
                container_path: "/var/lib/mysql".to_string(),
            }],
        )],
        None,
    );
    let stats = vec![ContainerStatsDto {
        name: "myapp".to_string(),
        cpu: format!("{:.1}%", 1.25f64),
        memory_usage_bytes: 1024 * 1024 * 128,
        memory_limit_bytes: 1024 * 1024 * 512,
    }];
    let out = format_status(&detail, &stats);
    assert!(out.contains("1.2%"), "{out}");
    assert!(out.contains("128.0 MB/512.0 MB"), "{out}");
    assert!(out.contains("20001->80/tcp(http)"), "{out}");
    assert!(out.contains("/var/lib/mysql"), "{out}");
}

#[test]
fn format_status_joins_multiple_ports_and_volumes_with_comma() {
    let detail = detail_fixture(
        vec![container_fixture(
            "app",
            vec![
                PortDto {
                    container_port: 80,
                    host_port: 20001,
                    protocol: "tcp".to_string(),
                    is_http: true,
                },
                PortDto {
                    container_port: 81,
                    host_port: 20002,
                    protocol: "udp".to_string(),
                    is_http: false,
                },
            ],
            vec![
                VolumeDto {
                    container_path: "/data/a".to_string(),
                },
                VolumeDto {
                    container_path: "/data/b".to_string(),
                },
            ],
        )],
        None,
    );
    let out = format_status(&detail, &vec![]);
    assert!(out.contains("20001->80/tcp(http), 20002->81/udp"), "{out}");
    assert!(out.contains("/data/a, /data/b"), "{out}");
}

#[test]
fn format_lifecycle_result_summarizes_name_status_and_health() {
    let detail = detail_fixture(vec![], None);
    let out = format_lifecycle_result("起動", &detail);
    assert_eq!(
        out,
        "サービス 'myapp' を起動しました(status: running, health: healthy)。\n"
    );
}

#[test]
fn format_lifecycle_result_appends_warning_line_when_present() {
    let detail = detail_fixture(vec![], Some("Traefikルート書き出し失敗"));
    let out = format_lifecycle_result("起動", &detail);
    assert!(out.contains("警告: Traefikルート書き出し失敗"));
}

#[test]
fn render_table_aligns_arbitrary_column_count() {
    let headers = ["A", "BB"];
    let rows = vec![vec!["x".to_string(), "yy".to_string()]];
    let out = render_table(&headers, &rows);
    let lines: Vec<&str> = out.lines().collect();
    assert_eq!(lines.len(), 2);
    assert_eq!(lines[0].find("BB"), lines[1].find("yy"));
}

#[test]
fn render_table_pads_by_characters_and_leaves_extra_cells() {
    let out = render_table(&["名前"], &[vec!["あいう".to_string(), "extra".to_string()]]);
    assert_eq!(out, "名前 \nあいう  extra\n");
    let line = render_table_row(&vec!["a".to_string(), "b".to_string()], &vec![3, 2]);
    assert_eq!(line, "a    b \n");
}

#[test]
fn empty_ports_and_volumes_show_a_dash() {
    assert_eq!(format_ports(&vec![]), "-");
    assert_eq!(format_volumes(&vec![]), "-");
}

#[test]
fn format_table_handles_missing_fields_gracefully() {
    // A listed service that carries only its name: the other cells are empty.
    let services = vec![row("partial", "", "", "", "")];
    let table = format_table(&services);
    assert!(table.contains("partial"));
    assert_eq!(table.lines().count(), 2);
}
