use sentinel::heuristic::local_route;
use sentinel::schema::ArgValue;

fn text_arg(args: &ArgValue, key: &str) -> String {
    args.get(key)
        .and_then(|v| v.as_text())
        .map(|s| s.clone())
        .expect("expected a text argument")
}

#[test]
fn test_route_cpu() {
    let (name, _args, conf) = local_route("my cpu is on fire");
    assert_eq!(name, "monitor_cpu");
    assert!(conf > 80);
}

#[test]
fn test_route_memory() {
    let (name, _, conf) = local_route("how much ram is in use?");
    assert_eq!(name, "monitor_memory");
    assert!(conf > 80);
}

#[test]
fn test_route_disk() {
    let (name, _, conf) = local_route("check disk space");
    assert_eq!(name, "monitor_disk");
    assert!(conf > 80);
}

#[test]
fn test_route_network_monitor() {
    let (name, _, _) = local_route("show me network connections");
    assert_eq!(name, "monitor_network");
}

#[test]
fn test_route_network_diagnose() {
    let (name, _, _) = local_route("my wifi connection is broken");
    assert_eq!(name, "diagnose_network");
}

#[test]
fn test_route_battery() {
    let (name, _, _) = local_route("check battery status");
    assert_eq!(name, "diagnose_battery");
}

#[test]
fn test_route_kill() {
    let (name, args, _) = local_route("kill Safari");
    assert_eq!(name, "kill_process");
    assert_eq!(text_arg(&args, "process_name"), "safari");
}

#[test]
fn test_route_clear_caches() {
    let (name, args, _) = local_route("clear disk cache");
    assert_eq!(name, "clear_caches");
    assert_eq!(text_arg(&args, "target"), "disk");
}

#[test]
fn test_route_startup() {
    let (name, _, _) = local_route("what are my startup items");
    assert_eq!(name, "check_startup_items");
}

#[test]
fn test_route_security() {
    let (name, _, _) = local_route("is my firewall enabled?");
    assert_eq!(name, "check_security");
}

#[test]
fn test_route_full_checkup() {
    let (name, _, conf) = local_route("run a full health checkup");
    assert_eq!(name, "run_full_checkup");
    assert!(conf >= 90);
}

#[test]
fn test_route_fallback() {
    let (name, args, conf) = local_route("why is my screen purple?");
    assert_eq!(name, "troubleshoot");
    assert!(conf < 50);
    assert_eq!(text_arg(&args, "problem"), "why is my screen purple?");
}

#[test]
fn test_route_kill_trigger_word_is_not_a_target() {
    let (name, args, conf) = local_route("please force quit");
    assert_eq!(name, "kill_process");
    assert_eq!(conf, 85);
    assert_eq!(text_arg(&args, "process_name"), "unknown");
}

#[test]
fn test_route_clear_memory_cache() {
    let (name, args, _) = local_route("free up some RAM memory");
    assert_eq!(name, "clear_caches");
    assert_eq!(text_arg(&args, "target"), "memory");
}

#[test]
fn test_route_vehicle_tools() {
    assert_eq!(local_route("run a car diagnostic scan").0, "run_vehicle_checkup");
    assert_eq!(local_route("what do the obd codes say").0, "check_engine");
    assert_eq!(local_route("is the tread depth ok").0, "check_tires");
    assert_eq!(local_route("measure the alternator output").0, "check_battery_vehicle");
    assert_eq!(local_route("is the coolant topped up").0, "check_fluids");
}
