use sentinel::auto_mechanic::AutoMechanicModule;
use sentinel::mac_troubleshoot::MacTroubleshootModule;
use sentinel::registry::CannedModule;
use sentinel::registry::CannedResult;
use sentinel::registry::ModuleRegistry;
use sentinel::registry::RegisteredModule;
use sentinel::schema::ArgValue;
use sentinel::schema::DataPair;
use sentinel::schema::DataValue;
use sentinel::schema::ToolDefinition;
use sentinel::schema::ToolResult;

fn empty_args() -> ArgValue {
    ArgValue::Obj(Vec::new())
}

fn canned(name: &str, tools: &[&str]) -> RegisteredModule {
    RegisteredModule::Canned(CannedModule {
        name: name.to_string(),
        description: format!("canned module {}", name),
        tools: tools
            .iter()
            .map(|t| ToolDefinition::plain(t, "a canned tool"))
            .collect(),
        results: tools
            .iter()
            .map(|t| CannedResult {
                tool: t.to_string(),
                result: ToolResult {
                    success: true,
                    data: DataValue::Obj(vec![DataPair {
                        key: "ran".to_string(),
                        value: DataValue::Text(t.to_string()),
                    }]),
                    error: None,
                },
            })
            .collect(),
    })
}

#[test]
fn test_name_collision_rejected() {
    let mut registry = ModuleRegistry::new();
    registry
        .register(RegisteredModule::Mac(MacTroubleshootModule::new()))
        .unwrap();

    // Registering the same module again should fail on name collision
    let err = registry
        .register(RegisteredModule::Mac(MacTroubleshootModule::new()))
        .unwrap_err();
    assert!(err.contains("collides with"));
}

#[test]
fn test_unknown_tool_error() {
    let registry = ModuleRegistry::new();
    let result = registry.execute("nonexistent_tool", &empty_args()).unwrap();
    assert!(!result.success);
    assert!(result.error.unwrap().contains("Unknown tool"));
}

#[test]
fn test_all_tools_and_module_names() {
    let mut registry = ModuleRegistry::new();
    registry
        .register(RegisteredModule::Mac(MacTroubleshootModule::new()))
        .unwrap();

    let tools = registry.all_tools();
    assert!(!tools.is_empty());

    let names = registry.module_names();
    assert_eq!(names, vec!["mac_troubleshoot"]);
}

#[test]
fn test_register_and_dispatch() {
    let mut registry = ModuleRegistry::new();
    registry
        .register(RegisteredModule::Mac(MacTroubleshootModule::new()))
        .unwrap();

    assert!(registry.has_tool("monitor_cpu"));
    assert!(registry.has_tool("monitor_memory"));

    // the gathering tools run host commands; even with nothing gathered
    // the assembled report succeeds
    let result = match registry.execute("monitor_cpu", &empty_args()) {
        Some(r) => r,
        None => sentinel::reports::monitor_cpu_report("", "", ""),
    };
    assert!(result.success);
}

#[test]
fn test_auto_dispatch_runs_in_the_library() {
    let mut registry = ModuleRegistry::new();
    registry
        .register(RegisteredModule::Auto(AutoMechanicModule::new()))
        .unwrap();

    assert!(registry.has_tool("check_engine"));
    assert!(registry.has_tool("run_vehicle_checkup"));

    let result = registry.execute("check_engine", &empty_args()).unwrap();
    assert!(result.success);
    match result.data.get("rpm").unwrap() {
        DataValue::Int(n) => assert_eq!(*n, 850),
        _ => panic!("rpm should be an integer"),
    }
}

#[test]
fn test_collision_rejection_is_atomic() {
    let mut registry = ModuleRegistry::new();
    registry.register(canned("first", &["x"])).unwrap();

    let err = registry.register(canned("second", &["y", "x"])).unwrap_err();
    assert!(err.contains("Tool 'x'"));
    assert!(err.contains("collides with module 'first'"));

    // the lookup state reflects only the first registration
    assert!(registry.has_tool("x"));
    assert!(registry.tool_belongs_to_module("x", "first"));
    assert!(!registry.tool_belongs_to_module("x", "second"));
    assert!(!registry.has_tool("y"));
    assert_eq!(registry.module_names(), vec!["first"]);
}

#[test]
fn test_mac_host_tools_are_left_to_the_host() {
    let mut registry = ModuleRegistry::new();
    registry
        .register(RegisteredModule::Mac(MacTroubleshootModule::new()))
        .unwrap();

    // gathering tools run host commands, so the library hands them back
    assert!(registry.execute("monitor_cpu", &empty_args()).is_none());
    assert!(registry.execute("kill_process", &empty_args()).is_none());
}

#[test]
fn test_troubleshoot_carries_the_escalation_signal() {
    let mut registry = ModuleRegistry::new();
    registry
        .register(RegisteredModule::Mac(MacTroubleshootModule::new()))
        .unwrap();

    let args = ArgValue::Obj(vec![sentinel::schema::ArgPair {
        key: "problem".to_string(),
        value: ArgValue::Text("screen flickers".to_string()),
    }]);
    let result = registry.execute("troubleshoot", &args).unwrap();
    assert!(result.success);
    match result.data.get("requires_cloud").unwrap() {
        DataValue::Bool(b) => assert!(*b),
        _ => panic!("requires_cloud should be a boolean"),
    }
    match result.data.get("problem").unwrap() {
        DataValue::Text(s) => assert_eq!(s, "screen flickers"),
        _ => panic!("problem should be text"),
    }
}

#[test]
fn test_modules_info() {
    let mut registry = ModuleRegistry::new();
    registry
        .register(RegisteredModule::Mac(MacTroubleshootModule::new()))
        .unwrap();
    registry
        .register(RegisteredModule::Auto(AutoMechanicModule::new()))
        .unwrap();

    let info = registry.modules_info();
    assert_eq!(info.len(), 2);
    assert_eq!(info[0].name, "mac_troubleshoot");
    assert_eq!(info[0].tool_count, 12);
    assert!(info[0].tool_names.contains(&"monitor_cpu".to_string()));
    assert_eq!(info[1].name, "auto_mechanic");
    assert_eq!(info[1].tool_count, 5);
}

#[test]
fn test_module_tools_scopes_the_universe() {
    let mut registry = ModuleRegistry::new();
    registry
        .register(RegisteredModule::Mac(MacTroubleshootModule::new()))
        .unwrap();
    registry
        .register(RegisteredModule::Auto(AutoMechanicModule::new()))
        .unwrap();

    let auto_tools = registry.module_tools("auto_mechanic");
    assert_eq!(auto_tools.len(), 5);
    assert!(auto_tools.iter().all(|t| t.name.starts_with("check") || t.name == "run_vehicle_checkup"));
    assert_eq!(registry.module_tools("no_such_module").len(), 0);
    assert_eq!(registry.all_tools().len(), 17);

    assert!(registry.tool_belongs_to_module("check_engine", "auto_mechanic"));
    assert!(!registry.tool_belongs_to_module("check_engine", "mac_troubleshoot"));
    assert!(registry.tool_belongs_to_module("monitor_cpu", "mac_troubleshoot"));
}

#[test]
fn test_vehicle_checkup_composes_the_reports() {
    let registry = {
        let mut r = ModuleRegistry::new();
        r.register(RegisteredModule::Auto(AutoMechanicModule::new())).unwrap();
        r
    };
    let result = registry.execute("run_vehicle_checkup", &empty_args()).unwrap();
    assert!(result.success);
    for key in ["engine", "tires", "battery", "fluids"] {
        assert!(result.data.get(key).is_some(), "missing section {}", key);
    }
    // a gauge reading survives as a fixed-point value
    let battery = result.data.get("battery").unwrap();
    match battery.get("voltage").unwrap() {
        DataValue::Centi(n) => assert_eq!(*n, 1240),
        _ => panic!("voltage should be a fixed-point reading"),
    }
}
