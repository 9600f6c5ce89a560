//! The desktop troubleshooting module: system diagnostics and maintenance
//! tools.  Most of its tools gather their data by running host commands, so
//! the host performs those; the module owns their definitions, the guard
//! against killing critical processes, and the one tool that is pure
//! computation (`troubleshoot`, which asks for cloud escalation).

use vstd::prelude::*;
use vstd::string::StringExecFns;
use crate::schema::ArgVal;
use crate::schema::ArgValue;
use crate::schema::DataPair;
use crate::schema::DataVal;
use crate::schema::DataValue;
use crate::schema::ResultModel;
use crate::schema::ToolDefinition;
use crate::schema::ToolModel;
use crate::schema::ToolResult;
use crate::schema::data_model;
use crate::schema::one_string_tool_model;
use crate::schema::plain_tool_model;
use crate::schema::arg_model;
use crate::schema::result_model;
use crate::schema::tools_model;
use crate::schema::unknown_tool_model;
use crate::schema::unknown_tool_result;
use crate::schema::val_get;
use crate::text::chars_vec;
use crate::text::contains_lit;
use crate::text::has_substring;
use crate::text::str_eq;

verus! {

/// A module providing desktop diagnostic and troubleshooting tools.
pub struct MacTroubleshootModule;

/// The tool definitions of this module.
pub open spec fn mac_tools_model() -> Seq<ToolModel> {
    seq![
        plain_tool_model(
            "monitor_cpu"@,
            "Monitor CPU usage, top processes, core count, and CPU model"@,
        ),
        plain_tool_model("monitor_memory"@, "Monitor memory usage via vm_stat and top memory consumers"@),
        plain_tool_model(
            "monitor_disk"@,
            "Check disk usage for root volume and common user directories"@,
        ),
        plain_tool_model("monitor_network"@, "List established network connections and ARP table"@),
        plain_tool_model("diagnose_network"@, "Diagnose network: Wi-Fi info, ping, DNS lookup"@),
        plain_tool_model("diagnose_battery"@, "Check battery status and power information"@),
        one_string_tool_model(
            "kill_process"@,
            "Force-kill a process by name"@,
            "process_name"@,
            "Name (or pattern) of the process to kill"@,
        ),
        one_string_tool_model(
            "clear_caches"@,
            "Clear disk caches, memory caches, or both"@,
            "target"@,
            "What to clear: memory, disk, or both"@,
        ),
        plain_tool_model("check_startup_items"@, "List login items and LaunchAgents"@),
        plain_tool_model("check_security"@, "Check FileVault, SIP, and firewall status"@),
        plain_tool_model(
            "run_full_checkup"@,
            "Run a comprehensive system health check (CPU + memory + disk + network + security)"@,
        ),
        one_string_tool_model(
            "troubleshoot"@,
            "Cloud-assisted troubleshooting for complex problems"@,
            "problem"@,
            "Description of the problem to troubleshoot"@,
        ),
    ]
}

/// The problem text taken from a troubleshooting call's arguments.
pub open spec fn problem_of(args: ArgVal) -> Seq<char> {
    match args {
        ArgVal::Obj(entries) => match val_get(entries, "problem"@) {
            Some(v) => match v {
                ArgVal::Text(s) => s,
                _ => "unspecified"@,
            },
            None => "unspecified"@,
        },
        _ => "unspecified"@,
    }
}

/// The troubleshooting payload: it asks for cloud escalation and carries
/// the problem text.
pub open spec fn troubleshoot_data(problem: Seq<char>) -> DataVal {
    DataVal::Obj(
        seq![("requires_cloud"@, DataVal::Bool(true)), ("problem"@, DataVal::Text(problem))],
    )
}

/// Whether one of this module's tool names runs on the host (commands and
/// file system work) rather than inside the library.
pub open spec fn mac_host_tool(name: Seq<char>) -> bool {
    ||| name == "monitor_cpu"@
    ||| name == "monitor_memory"@
    ||| name == "monitor_disk"@
    ||| name == "monitor_network"@
    ||| name == "diagnose_network"@
    ||| name == "diagnose_battery"@
    ||| name == "kill_process"@
    ||| name == "clear_caches"@
    ||| name == "check_startup_items"@
    ||| name == "check_security"@
    ||| name == "run_full_checkup"@
}

/// What executing a named tool of this module yields: `None` when the host
/// must run it, otherwise the result.
pub open spec fn mac_exec_model(name: Seq<char>, args: ArgVal) -> Option<ResultModel> {
    if name == "troubleshoot"@ {
        Some(ResultModel { success: true, data: troubleshoot_data(problem_of(args)), error: None })
    } else if mac_host_tool(name) {
        None
    } else {
        Some(unknown_tool_model(name))
    }
}

/// A process name that must never be killed: it names a critical system
/// process.
pub open spec fn forbidden_process_spec(name: Seq<char>) -> bool {
    ||| has_substring(name, "kernel_task"@)
    ||| has_substring(name, "launchd"@)
    ||| has_substring(name, "WindowServer"@)
    ||| has_substring(name, "loginwindow"@)
}

/// Refuse to kill critical system processes.
pub fn forbidden_process(process_name: &str) -> (r: bool)
    ensures
        r == forbidden_process_spec(process_name@),
{
    let cs = chars_vec(process_name);
    contains_lit(&cs, "kernel_task") || contains_lit(&cs, "launchd") || contains_lit(
        &cs,
        "WindowServer",
    ) || contains_lit(&cs, "loginwindow")
}

fn troubleshoot(args: &ArgValue) -> (r: ToolResult)
    ensures
        result_model(r) == (ResultModel {
            success: true,
            data: troubleshoot_data(problem_of(arg_model(*args))),
            error: None,
        }),
{
    let problem: String = match args.get("problem") {
        Some(v) => match v.as_text() {
            Some(s) => s.clone(),
            None => String::from_str("unspecified"),
        },
        None => String::from_str("unspecified"),
    };
    proof {
        assert(problem@ == problem_of(arg_model(*args)));
    }
    let mut ps: Vec<DataPair> = Vec::new();
    ps.push(DataPair { key: "requires_cloud".to_owned(), value: DataValue::Bool(true) });
    ps.push(DataPair { key: "problem".to_owned(), value: DataValue::Text(problem) });
    let data = DataValue::Obj(ps);
    proof {
        reveal_with_fuel(data_model, 3);
        let e = data_model(data)->Obj_0;
        let g = troubleshoot_data(problem_of(arg_model(*args)))->Obj_0;
        assert(e[0] == g[0]);
        assert(e[1] == g[1]);
        assert(e =~~= g);
        assert(data_model(data) =~~= troubleshoot_data(problem_of(arg_model(*args))));
    }
    ToolResult { success: true, data, error: None }
}

impl MacTroubleshootModule {
    /// Create the module.
    pub fn new() -> (r: Self)
        ensures
            r == MacTroubleshootModule,
    {
        Self
    }

    /// The module's name.
    pub fn name(&self) -> (r: String)
        ensures
            r@ == "mac_troubleshoot"@,
    {
        String::from_str("mac_troubleshoot")
    }

    /// One-line description of the module.
    pub fn description(&self) -> (r: String)
        ensures
            r@ == "macOS system diagnostics, monitoring, and troubleshooting tools"@,
    {
        String::from_str("macOS system diagnostics, monitoring, and troubleshooting tools")
    }

    /// The tools this module provides.
    pub fn tools(&self) -> (r: Vec<ToolDefinition>)
        ensures
            tools_model(r@) == mac_tools_model(),
            forall|i: int| 0 <= i < r@.len() ==> (#[trigger] r@[i]).parameters.wf(),
    {
        let mut r: Vec<ToolDefinition> = Vec::new();
        r.push(
            ToolDefinition::plain(
                "monitor_cpu",
                "Monitor CPU usage, top processes, core count, and CPU model",
            ),
        );
        r.push(
            ToolDefinition::plain(
                "monitor_memory",
                "Monitor memory usage via vm_stat and top memory consumers",
            ),
        );
        r.push(
            ToolDefinition::plain(
                "monitor_disk",
                "Check disk usage for root volume and common user directories",
            ),
        );
        r.push(
            ToolDefinition::plain(
                "monitor_network",
                "List established network connections and ARP table",
            ),
        );
        r.push(
            ToolDefinition::plain(
                "diagnose_network",
                "Diagnose network: Wi-Fi info, ping, DNS lookup",
            ),
        );
        r.push(
            ToolDefinition::plain("diagnose_battery", "Check battery status and power information"),
        );
        r.push(
            ToolDefinition::with_string_param(
                "kill_process",
                "Force-kill a process by name",
                "process_name",
                "Name (or pattern) of the process to kill",
            ),
        );
        r.push(
            ToolDefinition::with_string_param(
                "clear_caches",
                "Clear disk caches, memory caches, or both",
                "target",
                "What to clear: memory, disk, or both",
            ),
        );
        r.push(ToolDefinition::plain("check_startup_items", "List login items and LaunchAgents"));
        r.push(ToolDefinition::plain("check_security", "Check FileVault, SIP, and firewall status"));
        r.push(
            ToolDefinition::plain(
                "run_full_checkup",
                "Run a comprehensive system health check (CPU + memory + disk + network + security)",
            ),
        );
        r.push(
            ToolDefinition::with_string_param(
                "troubleshoot",
                "Cloud-assisted troubleshooting for complex problems",
                "problem",
                "Description of the problem to troubleshoot",
            ),
        );
        proof {
            assert(tools_model(r@) =~~= mac_tools_model());
        }
        r
    }

    /// Execute a named tool so far as it is pure computation: `None` means
    /// the host must run the tool's commands; an unknown name yields a
    /// structured failure.
    pub fn execute(&self, tool_name: &str, args: &ArgValue) -> (r: Option<ToolResult>)
        ensures
            match mac_exec_model(tool_name@, arg_model(*args)) {
                Some(m) => r matches Some(t) && result_model(t) == m,
                None => r is None,
            },
    {
        if str_eq(tool_name, "troubleshoot") {
            Some(troubleshoot(args))
        } else if str_eq(tool_name, "monitor_cpu") || str_eq(tool_name, "monitor_memory") || str_eq(
            tool_name,
            "monitor_disk",
        ) || str_eq(tool_name, "monitor_network") || str_eq(tool_name, "diagnose_network")
            || str_eq(tool_name, "diagnose_battery") || str_eq(tool_name, "kill_process") || str_eq(
            tool_name,
            "clear_caches",
        ) || str_eq(tool_name, "check_startup_items") || str_eq(tool_name, "check_security")
            || str_eq(tool_name, "run_full_checkup") {
            None
        } else {
            Some(unknown_tool_result(tool_name))
        }
    }
}

} // verus!
