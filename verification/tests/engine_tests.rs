use sentinel::auto_mechanic::AutoMechanicModule;
use sentinel::engine::CloudOutcome;
use sentinel::engine::HybridEngine;
use sentinel::engine::OnDeviceReply;
use sentinel::engine::RouteAction;
use sentinel::engine::RouteEvent;
use sentinel::engine::RouteResult;
use sentinel::mac_troubleshoot::MacTroubleshootModule;
use sentinel::registry::CannedModule;
use sentinel::registry::CannedResult;
use sentinel::registry::ModuleRegistry;
use sentinel::registry::RegisteredModule;
use sentinel::schema::ArgPair;
use sentinel::schema::ArgValue;
use sentinel::schema::DataPair;
use sentinel::schema::DataValue;
use sentinel::schema::FunctionCall;
use sentinel::schema::ToolDefinition;
use sentinel::schema::ToolResult;

fn engine() -> HybridEngine {
    let mut registry = ModuleRegistry::new();
    registry
        .register(RegisteredModule::Mac(MacTroubleshootModule::new()))
        .unwrap();
    registry
        .register(RegisteredModule::Auto(AutoMechanicModule::new()))
        .unwrap();
    HybridEngine::new(registry)
}

fn host_result() -> ToolResult {
    // stands in for the host running a gathering tool's commands
    ToolResult {
        success: true,
        data: DataValue::Obj(vec![DataPair {
            key: "gathered".to_string(),
            value: DataValue::Bool(true),
        }]),
        error: None,
    }
}

/// Drive a session that has no on-device and no cloud capability: inference
/// attempts yield nothing, and the cloud reports no credential.
fn drive_without_capabilities(engine: &HybridEngine, text: &str) -> RouteResult {
    let (mut session, mut action) = engine.route(text.to_string(), None);
    loop {
        action = match action {
            RouteAction::Infer(_) => session.step(&engine.registry, RouteEvent::InferReply(None)),
            RouteAction::ExecuteTool { name, arguments } => {
                let result = engine
                    .registry
                    .execute(&name, &arguments)
                    .unwrap_or_else(host_result);
                session.step(&engine.registry, RouteEvent::ToolDone(result))
            }
            RouteAction::CallCloud { .. } => {
                session.step(&engine.registry, RouteEvent::CloudReply(CloudOutcome::Unavailable))
            }
            RouteAction::Done(result) => return result,
        };
    }
}

#[test]
fn test_route_async_cpu() {
    let e = engine();
    let result = drive_without_capabilities(&e, "show cpu usage");
    assert_eq!(result.tool_name, "monitor_cpu");
    assert_eq!(result.source, "on-device");
    assert!(result.tool_result.is_some());
}

#[test]
fn test_route_async_fallback() {
    let e = engine();
    let result = drive_without_capabilities(&e, "why is my screen purple?");
    assert_eq!(result.tool_name, "troubleshoot");
    assert_eq!(result.source, "cloud (fallback)");
    assert!(result.tool_result.is_none());
    // the caller can tell that no cloud credential was configured
    match result.arguments.get("no_api_key").unwrap() {
        ArgValue::Bool(b) => assert!(*b),
        _ => panic!("no_api_key should be a boolean mark"),
    }
}

fn canned_cpu_registry() -> ModuleRegistry {
    let mut registry = ModuleRegistry::new();
    registry
        .register(RegisteredModule::Canned(CannedModule {
            name: "cpu_only".to_string(),
            description: "one monitoring tool".to_string(),
            tools: vec![ToolDefinition::plain("monitor_cpu", "watch the processor")],
            results: vec![CannedResult {
                tool: "monitor_cpu".to_string(),
                result: ToolResult {
                    success: true,
                    data: DataValue::Obj(vec![DataPair {
                        key: "cpu_pct".to_string(),
                        value: DataValue::Int(12),
                    }]),
                    error: None,
                },
            }],
        }))
        .unwrap();
    registry
}

#[test]
fn test_end_to_end_heuristic_only() {
    // a registry with a single high-confidence-heuristic tool and no
    // capabilities still routes and executes on-device
    let e = HybridEngine::new(canned_cpu_registry());
    let result = drive_without_capabilities(&e, "show cpu usage");
    assert_eq!(result.tool_name, "monitor_cpu");
    assert_eq!(result.source, "on-device");
    let tool_result = result.tool_result.unwrap();
    assert!(tool_result.success);
    match tool_result.data.get("cpu_pct").unwrap() {
        DataValue::Int(n) => assert_eq!(*n, 12),
        _ => panic!("cpu_pct should be an integer"),
    }
}

#[test]
fn test_on_device_acceptance_short_circuits_the_cloud() {
    // a stub on-device capability that always returns an accepted result:
    // the cloud must never be asked
    let e = HybridEngine::new(canned_cpu_registry());
    let (mut session, action) = e.route("watch my cpu now".to_string(), None);
    assert!(matches!(action, RouteAction::Infer(_)));

    let reply = OnDeviceReply {
        confidence: 95,
        calls: vec![FunctionCall {
            name: "monitor_cpu".to_string(),
            arguments: ArgValue::Obj(Vec::new()),
        }],
    };
    let action = session.step(&e.registry, RouteEvent::InferReply(Some(reply)));
    let (name, arguments) = match action {
        RouteAction::ExecuteTool { name, arguments } => (name, arguments),
        _ => panic!("an accepted on-device result must execute, not fall through"),
    };
    assert_eq!(name, "monitor_cpu");
    let result = e.registry.execute(&name, &arguments).unwrap();
    let action = session.step(&e.registry, RouteEvent::ToolDone(result));
    match action {
        RouteAction::Done(rr) => {
            assert_eq!(rr.tool_name, "monitor_cpu");
            assert_eq!(rr.source, "on-device");
            assert_eq!(rr.confidence, 95);
            assert!(rr.tool_result.unwrap().success);
        }
        _ => panic!("the chain must terminate after the on-device execution"),
    }
}

#[test]
fn test_rejected_replies_walk_the_temperature_ladder() {
    let e = HybridEngine::new(canned_cpu_registry());
    let (mut session, action) = e.route("watch my cpu now".to_string(), None);
    let first = match action {
        RouteAction::Infer(req) => req,
        _ => panic!("routing must begin with an inference attempt"),
    };
    assert_eq!(first.options.temperature, 0);

    // an unusable reply moves one rung up the ladder
    let action = session.step(&e.registry, RouteEvent::InferReply(None));
    let second = match action {
        RouteAction::Infer(req) => req,
        _ => panic!("a failed attempt must retry at the next temperature"),
    };
    assert_eq!(second.options.temperature, 30);

    // a reply naming an unknown tool is rejected by the Validator
    let bad = OnDeviceReply {
        confidence: 99,
        calls: vec![FunctionCall {
            name: "no_such_tool".to_string(),
            arguments: ArgValue::Obj(Vec::new()),
        }],
    };
    let action = session.step(&e.registry, RouteEvent::InferReply(Some(bad)));
    let third = match action {
        RouteAction::Infer(req) => req,
        _ => panic!("a rejected attempt must retry at the next temperature"),
    };
    assert_eq!(third.options.temperature, 70);

    // exhausting the ladder falls through to the heuristic, which matches
    let action = session.step(&e.registry, RouteEvent::InferReply(None));
    assert!(matches!(action, RouteAction::ExecuteTool { .. }));
}

#[test]
fn test_escalation_falls_through_to_later_stages() {
    let e = engine();
    let text = "troubleshoot my busted screen".to_string();
    let (mut session, _action) = e.route(text, None);

    // the on-device stage proposes the escalating tool, grounded in the text
    let reply = OnDeviceReply {
        confidence: 95,
        calls: vec![FunctionCall {
            name: "troubleshoot".to_string(),
            arguments: ArgValue::Obj(vec![ArgPair {
                key: "problem".to_string(),
                value: ArgValue::Text("busted screen".to_string()),
            }]),
        }],
    };
    let action = session.step(&e.registry, RouteEvent::InferReply(Some(reply)));
    let (name, arguments) = match action {
        RouteAction::ExecuteTool { name, arguments } => (name, arguments),
        _ => panic!("the accepted call must execute first"),
    };
    assert_eq!(name, "troubleshoot");
    let result = e.registry.execute(&name, &arguments).unwrap();

    // its payload asks for the cloud, and the heuristic has no strong
    // match, so the chain moves on to the cloud stage
    let action = session.step(&e.registry, RouteEvent::ToolDone(result));
    assert!(matches!(action, RouteAction::CallCloud { delay_ms: 0 }));
}

#[test]
fn test_cloud_backoff_and_exhaustion() {
    let e = engine();
    let (mut session, _action) = e.route("zlorp the frobnicator".to_string(), None);
    for _ in 0..3 {
        session.step(&e.registry, RouteEvent::InferReply(None));
    }
    // the heuristic has no match, so the chain is at the cloud stage;
    // transport failures back off linearly, then the chain gives up
    let action = session.step(
        &e.registry,
        RouteEvent::CloudReply(CloudOutcome::TransportFailed),
    );
    assert!(matches!(action, RouteAction::CallCloud { delay_ms: 1000 }));
    let action = session.step(
        &e.registry,
        RouteEvent::CloudReply(CloudOutcome::TransportFailed),
    );
    assert!(matches!(action, RouteAction::CallCloud { delay_ms: 2000 }));
    let action = session.step(
        &e.registry,
        RouteEvent::CloudReply(CloudOutcome::TransportFailed),
    );
    match action {
        RouteAction::Done(rr) => {
            assert_eq!(rr.tool_name, "troubleshoot");
            assert_eq!(rr.source, "cloud (fallback)");
            assert!(rr.tool_result.is_none());
            // the credential was configured, so no mark is added
            assert!(rr.arguments.get("no_api_key").is_none());
        }
        _ => panic!("three failed attempts must end the chain"),
    }
}

#[test]
fn test_cloud_answer_is_executed_as_fallback() {
    let e = engine();
    let (mut session, _action) = e.route("zlorp the frobnicator".to_string(), None);
    for _ in 0..3 {
        session.step(&e.registry, RouteEvent::InferReply(None));
    }
    let answer = CloudOutcome::Answered(vec![FunctionCall {
        name: "check_engine".to_string(),
        arguments: ArgValue::Obj(Vec::new()),
    }]);
    let action = session.step(&e.registry, RouteEvent::CloudReply(answer));
    let (name, arguments) = match action {
        RouteAction::ExecuteTool { name, arguments } => (name, arguments),
        _ => panic!("an allowed cloud call must execute"),
    };
    let result = e.registry.execute(&name, &arguments).unwrap();
    let action = session.step(&e.registry, RouteEvent::ToolDone(result));
    match action {
        RouteAction::Done(rr) => {
            assert_eq!(rr.tool_name, "check_engine");
            assert_eq!(rr.source, "cloud (fallback)");
            assert_eq!(rr.confidence, 100);
            assert!(rr.tool_result.unwrap().success);
        }
        _ => panic!("the chain must terminate after the cloud execution"),
    }
}

#[test]
fn test_module_scope_restricts_the_heuristic() {
    let e = engine();
    // "kill safari" matches the heuristic with high confidence, but the
    // tool belongs to the desktop module, not the scoped vehicle module
    let (mut session, _action) = e.route(
        "kill safari".to_string(),
        Some("auto_mechanic".to_string()),
    );
    for _ in 0..2 {
        session.step(&e.registry, RouteEvent::InferReply(None));
    }
    let action = session.step(&e.registry, RouteEvent::InferReply(None));
    assert!(matches!(action, RouteAction::CallCloud { .. }));
    let action = session.step(&e.registry, RouteEvent::CloudReply(CloudOutcome::Unavailable));
    match action {
        RouteAction::Done(rr) => {
            assert_eq!(rr.tool_name, "kill_process");
            assert_eq!(rr.source, "cloud (fallback)");
            assert!(rr.tool_result.is_none());
        }
        _ => panic!("an out-of-scope guess must not execute"),
    }
}

#[test]
fn test_request_carries_the_scoped_universe() {
    let e = engine();
    let (_session, action) = e.route(
        "check the tires".to_string(),
        Some("auto_mechanic".to_string()),
    );
    let req = match action {
        RouteAction::Infer(req) => req,
        _ => panic!("routing must begin with an inference attempt"),
    };
    assert_eq!(req.tools.len(), 5);
    assert_eq!(req.messages.len(), 2);
    assert_eq!(req.messages[0].role, "system");
    assert_eq!(req.messages[1].role, "user");
    assert_eq!(req.messages[1].content, "check the tires");
    assert!(req.options.force_tools);
    assert_eq!(req.options.max_tokens, 256);
    assert_eq!(req.options.tool_rag_top_k, 2);
}
