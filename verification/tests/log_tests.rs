use parkour_api::log::{error, info, journal_line, log_line, reason_part, route_change_line, warn};

#[test]
fn log_line_layout() {
    assert_eq!(
        log_line("[2024-01-02 03:04:05]", "info", "Saved routes to local file."),
        "[2024-01-02 03:04:05][info] Saved routes to local file."
    );
}

#[test]
fn route_change_line_without_reason() {
    assert_eq!(
        route_change_line("[2024-01-02 03:04:05]", "create", "mp_thaw", "My Route", "my-route", None),
        "[2024-01-02 03:04:05] [create] map=\"mp_thaw\" route=\"My Route\" slug=\"my-route\"\n"
    );
}

#[test]
fn route_change_line_blank_reason_is_left_out() {
    assert_eq!(
        route_change_line("[t]", "delete", "m", "r", "r", Some("  \t ")),
        "[t] [delete] map=\"m\" route=\"r\" slug=\"r\"\n"
    );
}

#[test]
fn route_change_line_with_reason_is_quoted() {
    assert_eq!(
        route_change_line("[t]", "delete", "m", "Say \"hi\"", "say-hi", Some(" broken ")),
        "[t] [delete] map=\"m\" route=\"Say \\\"hi\\\"\" slug=\"say-hi\" reason=\" broken \"\n"
    );
}

#[test]
fn journal_line_layout() {
    assert_eq!(
        journal_line("[t]", "create", "\"m\"", "\"r\"", "\"s\"", " reason=\"x\""),
        "[t] [create] map=\"m\" route=\"r\" slug=\"s\" reason=\"x\"\n"
    );
}

#[test]
fn reason_part_cases() {
    assert_eq!(reason_part(None), "");
    assert_eq!(reason_part(Some(" \u{3000}\n")), "");
    assert_eq!(reason_part(Some("a\\b")), " reason=\"a\\\\b\"");
}

#[test]
fn console_lines_by_level() {
    assert_eq!(info("[2024-01-02 03:04:05]", "informational"), "[2024-01-02 03:04:05][info] informational");
    assert_eq!(warn("[t]", "warning"), "[t][warn] warning");
    assert_eq!(error("[t]", "failure"), "[t][error] failure");
}
