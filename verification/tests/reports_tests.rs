use sentinel::reports::check_security_report;
use sentinel::reports::check_startup_report;
use sentinel::reports::clear_caches_report;
use sentinel::reports::diagnose_battery_report;
use sentinel::reports::diagnose_network_report;
use sentinel::reports::kill_process_report;
use sentinel::reports::kill_process_request;
use sentinel::reports::monitor_cpu_report;
use sentinel::reports::monitor_disk_report;
use sentinel::reports::monitor_memory_report;
use sentinel::reports::monitor_network_report;
use sentinel::reports::parse_df;
use sentinel::reports::parse_du;
use sentinel::reports::parse_process_list;
use sentinel::reports::parse_vm_stat;
use sentinel::reports::run_full_checkup_report;
use sentinel::schema::ArgPair;
use sentinel::schema::ArgValue;
use sentinel::schema::DataValue;

fn get<'a>(v: &'a DataValue, key: &str) -> &'a DataValue {
    v.get(key).unwrap_or_else(|| panic!("missing key {}", key))
}

fn text(v: &DataValue) -> &str {
    match v {
        DataValue::Text(s) => s,
        _ => panic!("expected text"),
    }
}

fn whole(v: &DataValue) -> i64 {
    match v {
        DataValue::Int(n) => *n,
        _ => panic!("expected an integer"),
    }
}

#[test]
fn test_parse_vm_stat_counts_and_text() {
    let raw = "Mach Virtual Memory Statistics:\nPages free:    386989.\nPages active: 1485742.\nSwapins: not known.\n";
    let parsed = parse_vm_stat(raw);
    assert_eq!(whole(get(&parsed, "pages_free")), 386989);
    assert_eq!(whole(get(&parsed, "pages_active")), 1485742);
    assert_eq!(text(get(&parsed, "swapins")), "not known");
    // the header line has a colon too: its empty value stays text
    assert_eq!(text(get(&parsed, "mach_virtual_memory_statistics")), "");
}

#[test]
fn test_parse_df_full_and_short_rows() {
    let raw = "Filesystem  Size Used Avail Capacity iused ifree %iused Mounted\n/dev/disk3  465G 12G  398G  3%      500    100   1%     /\n";
    let parsed = parse_df(raw);
    assert_eq!(text(get(&parsed, "filesystem")), "/dev/disk3");
    assert_eq!(text(get(&parsed, "capacity")), "3%");
    assert_eq!(text(get(&parsed, "mounted_on")), "/");

    let short = "Filesystem Size Used Avail Capacity\n/dev/disk3 465G 12G 398G 3%\n";
    let parsed = parse_df(short);
    assert_eq!(text(get(&parsed, "available")), "398G");
    assert!(parsed.get("mounted_on").is_none());

    let broken = "nothing here";
    let parsed = parse_df(broken);
    assert_eq!(text(get(&parsed, "raw")), "nothing here");
}

#[test]
fn test_parse_du_maps_paths_to_sizes() {
    let raw = "1.2G\t/Users/me/Desktop\n 12M  /Users/me/Downloads\nbroken\n";
    let parsed = parse_du(raw);
    assert_eq!(text(get(&parsed, "/Users/me/Desktop")), "1.2G");
    assert_eq!(text(get(&parsed, "/Users/me/Downloads")), "12M");
    assert!(parsed.get("broken").is_none());
}

#[test]
fn test_parse_process_list_skips_header_and_short_rows() {
    let raw = "PID COMMAND CPU\n501 WindowServer 12.5\n502 Safari 3.0\nshort row\n";
    let parsed = parse_process_list(raw);
    match parsed {
        DataValue::List(rows) => {
            assert_eq!(rows.len(), 2);
            assert_eq!(text(get(&rows[0], "pid")), "501");
            assert_eq!(text(get(&rows[0], "command")), "WindowServer");
            assert_eq!(text(get(&rows[0], "cpu_pct")), "12.5");
            assert_eq!(text(get(&rows[1], "command")), "Safari");
        }
        _ => panic!("expected a list of rows"),
    }
}

#[test]
fn test_monitor_cpu_report_core_count() {
    let r = monitor_cpu_report("PID COMMAND CPU\n1 kernel 0.1\n", "10", "Apple M2 Pro");
    assert!(r.success);
    assert_eq!(text(get(&r.data, "cpu_brand")), "Apple M2 Pro");
    assert_eq!(whole(get(&r.data, "core_count")), 10);

    let bad = monitor_cpu_report("", "not a number", "x");
    assert_eq!(whole(get(&bad.data, "core_count")), 0);
}

#[test]
fn test_monitor_memory_report_rounds_to_hundredths() {
    // 17179869184 bytes is exactly 16 GB
    let r = monitor_memory_report(
        "Pages free: 10.\n",
        "17179869184",
        "USER PID CPU MEM VSZ RSS TT STAT START TIME COMMAND\nme 1 0 0 0 0 tt S 0:00 0:01 loginwindow extra words\n",
    );
    match get(&r.data, "total_memory_gb") {
        DataValue::Centi(n) => assert_eq!(*n, 1600),
        _ => panic!("expected a fixed-point reading"),
    }
    let consumers = get(&r.data, "top_memory_consumers");
    match consumers {
        DataValue::List(rows) => {
            assert_eq!(rows.len(), 1);
            assert_eq!(text(get(&rows[0], "command")), "loginwindow extra words");
            assert_eq!(text(get(&rows[0], "user")), "me");
        }
        _ => panic!("expected a list of consumers"),
    }
}

#[test]
fn test_monitor_network_report_rows() {
    let conns = "Safari 501 me 4u IPv4 0x1 0t0 TCP 10.0.0.2:443\nshort line\n";
    let r = monitor_network_report(conns, " 10.0.0.1 at aa:bb \n");
    let list = get(&r.data, "established_connections");
    match list {
        DataValue::List(rows) => {
            assert_eq!(rows.len(), 2);
            assert_eq!(text(get(&rows[0], "command")), "Safari");
            assert_eq!(text(get(&rows[0], "name")), "10.0.0.2:443");
            assert_eq!(text(get(&rows[1], "raw")), "short line");
        }
        _ => panic!("expected a list"),
    }
    let arp = get(&r.data, "arp_table");
    match arp {
        DataValue::List(rows) => {
            assert_eq!(rows.len(), 1);
            assert_eq!(text(&rows[0]), "10.0.0.1 at aa:bb");
        }
        _ => panic!("expected a list"),
    }
}

#[test]
fn test_diagnose_network_report() {
    let wifi = "IP address: 10.0.0.2\nSubnet mask: 255.255.255.0\n";
    let ping = "64 bytes from 8.8.8.8\n3 packets transmitted, 3 received, 0.0% packet loss\nround-trip min/avg/max = 10/11/12 ms\n";
    let dns = "Server: 8.8.8.8\nAddress: 142.250.2.1\n";
    let r = diagnose_network_report(wifi, ping, dns);
    assert_eq!(text(get(get(&r.data, "wifi"), "ip_address")), "10.0.0.2");
    match get(get(&r.data, "ping"), "reachable") {
        DataValue::Bool(b) => assert!(*b),
        _ => panic!("expected a flag"),
    }
    assert_eq!(
        text(get(get(&r.data, "ping"), "summary")),
        "round-trip min/avg/max = 10/11/12 ms"
    );
    match get(get(&r.data, "dns"), "resolves") {
        DataValue::Bool(b) => assert!(*b),
        _ => panic!("expected a flag"),
    }
}

#[test]
fn test_diagnose_battery_report() {
    let batt = "Now drawing from 'Battery Power'\n-InternalBattery-0 (id=123)\t87%; discharging; 4:32 remaining\n";
    let r = diagnose_battery_report(batt, "profile text");
    assert_eq!(whole(get(&r.data, "percentage")), 87);
    // "discharging" contains "charging", and the first matching keyword wins
    assert_eq!(text(get(&r.data, "status")), "charging");
    assert_eq!(text(get(&r.data, "power_profile")), "profile text");

    let none = diagnose_battery_report("no gauge here", "p");
    match get(&none.data, "percentage") {
        DataValue::Null => {}
        _ => panic!("no gauge line should leave the percentage null"),
    }
    assert_eq!(text(get(&none.data, "status")), "unknown");
}

#[test]
fn test_check_security_report() {
    let r = check_security_report(
        "FileVault is On.",
        "System Integrity Protection status: enabled.",
        "Firewall is disabled. (State = 0)",
    );
    match get(get(&r.data, "filevault"), "enabled") {
        DataValue::Bool(b) => assert!(*b),
        _ => panic!("expected a flag"),
    }
    match get(get(&r.data, "sip"), "enabled") {
        DataValue::Bool(b) => assert!(*b),
        _ => panic!("expected a flag"),
    }
    match get(get(&r.data, "firewall"), "enabled") {
        DataValue::Bool(b) => assert!(!*b),
        _ => panic!("expected a flag"),
    }
}

#[test]
fn test_check_startup_report() {
    let r = check_startup_report("Dropbox, Spotify , Docker", "com.example.agent.plist\n");
    match get(&r.data, "login_items") {
        DataValue::List(items) => {
            assert_eq!(items.len(), 3);
            assert_eq!(text(&items[0]), "Dropbox");
            assert_eq!(text(&items[1]), "Spotify");
            assert_eq!(text(&items[2]), "Docker");
        }
        _ => panic!("expected a list"),
    }
    match get(&r.data, "launch_agents") {
        DataValue::List(items) => {
            assert_eq!(items.len(), 1);
            assert_eq!(text(&items[0]), "com.example.agent.plist");
        }
        _ => panic!("expected a list"),
    }
    let empty = check_startup_report("", "");
    match get(&empty.data, "login_items") {
        DataValue::List(items) => assert!(items.is_empty()),
        _ => panic!("expected a list"),
    }
}

#[test]
fn test_kill_process_request_guards() {
    let missing = ArgValue::Obj(Vec::new());
    let err = kill_process_request(&missing).unwrap_err();
    assert!(!err.success);
    assert_eq!(err.error.unwrap(), "Missing required parameter: process_name");

    let critical = ArgValue::Obj(vec![ArgPair {
        key: "process_name".to_string(),
        value: ArgValue::Text("WindowServer".to_string()),
    }]);
    let err = kill_process_request(&critical).unwrap_err();
    assert!(!err.success);
    assert!(err.error.unwrap().contains("Refusing to kill system-critical process"));

    let fine = ArgValue::Obj(vec![ArgPair {
        key: "process_name".to_string(),
        value: ArgValue::Text("Safari".to_string()),
    }]);
    assert_eq!(kill_process_request(&fine).unwrap(), "Safari");
}

#[test]
fn test_kill_process_report() {
    let ok = kill_process_report("Safari", true, "  ");
    assert!(ok.success);
    assert!(ok.error.is_none());
    assert_eq!(text(get(&ok.data, "stderr")), "");

    let failed = kill_process_report("Safari", false, "no match\n");
    assert!(!failed.success);
    assert_eq!(failed.error.unwrap(), "Process not found or could not be killed");
    assert_eq!(text(get(&failed.data, "stderr")), "no match");
}

#[test]
fn test_clear_caches_report() {
    let target = "both".to_string();
    let disk_out = "".to_string();
    let mem_out = "purge requires root".to_string();
    let r = clear_caches_report(&target, Some(&disk_out), Some(&mem_out));
    assert!(r.success);
    match get(&r.data, "disk_caches_cleared") {
        DataValue::Bool(b) => assert!(*b),
        _ => panic!("expected a flag"),
    }
    // empty command output is left out
    assert!(r.data.get("disk_output").is_none());
    match get(&r.data, "memory_purged") {
        DataValue::Bool(b) => assert!(!*b),
        _ => panic!("expected a flag"),
    }
    assert_eq!(text(get(&r.data, "memory_output")), "purge requires root");
    assert_eq!(text(get(&r.data, "target")), "both");

    let target = "disk".to_string();
    let out = "cleaned".to_string();
    let r = clear_caches_report(&target, Some(&out), None);
    assert!(r.data.get("memory_purged").is_none());
    assert_eq!(text(get(&r.data, "disk_output")), "cleaned");
}

#[test]
fn test_run_full_checkup_composes() {
    let cpu = monitor_cpu_report("", "4", "brand");
    let mem = monitor_memory_report("", "0", "");
    let disk = monitor_disk_report("", "");
    let net = monitor_network_report("", "");
    let sec = check_security_report("", "", "");
    let r = run_full_checkup_report(&cpu, &mem, &disk, &net, &sec);
    assert!(r.success);
    for key in ["cpu", "memory", "disk", "network", "security"] {
        assert!(r.data.get(key).is_some(), "missing section {}", key);
    }
    assert_eq!(whole(get(get(&r.data, "cpu"), "core_count")), 4);
}
