use aurora_wall::failure::{Failure, FailureKind};
use aurora_wall::monitors::{
    command_failure, no_discovery_failure, outputs_from_monitors, parse_awww_outputs,
    parse_monitors, HyprlandMonitor,
};

#[test]
fn monitors_are_read_with_descriptions() {
    let report = "Monitor eDP-1 (ID 0):\n\t1920x1080@60 at 0x0\n\tdescription: Sharp Panel \n\nMonitor HDMI-A-1 (ID 1):\n\tmake: X\nMonitor   DP-2\r\n\tdescription:\n";
    let ms = parse_monitors(report);
    assert_eq!(
        ms,
        vec![
            HyprlandMonitor { name: "eDP-1".to_string(), description: "Sharp Panel".to_string() },
            HyprlandMonitor { name: "HDMI-A-1".to_string(), description: String::new() },
            HyprlandMonitor { name: "DP-2".to_string(), description: String::new() },
        ]
    );
    assert!(parse_monitors("").is_empty());
    assert!(parse_monitors("description: orphan\n").is_empty());
    assert!(parse_monitors("Monitor \n").is_empty());
}

#[test]
fn awww_outputs_are_read() {
    let out = parse_awww_outputs("eDP-1: 1920x1080, scale: 1\n : empty\nno colon\n HDMI-A-1 :x\n");
    assert_eq!(out, vec!["eDP-1".to_string(), "HDMI-A-1".to_string()]);
}

#[test]
fn monitor_listing_decides_fallback() {
    let ok = Ok(vec![HyprlandMonitor { name: "A".to_string(), description: "d".to_string() }]);
    assert_eq!(outputs_from_monitors(&ok), Some(vec!["A".to_string()]));
    let empty: Result<Vec<HyprlandMonitor>, Failure> = Ok(vec![]);
    assert_eq!(outputs_from_monitors(&empty), None);
    let err: Result<Vec<HyprlandMonitor>, Failure> = Err(no_discovery_failure());
    assert_eq!(outputs_from_monitors(&err), None);
}

#[test]
fn command_failures() {
    assert_eq!(
        command_failure("  boom \n"),
        Failure { kind: FailureKind::Other, message: "boom".to_string() }
    );
    assert_eq!(no_discovery_failure().message, "no output discovery backend available");
}
