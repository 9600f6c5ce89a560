//! The auto-mechanic module: vehicle diagnostics over fixed report data.

use vstd::prelude::*;
use vstd::string::StringExecFns;
use crate::schema::ArgValue;
use crate::schema::DataPair;
use crate::schema::DataVal;
use crate::schema::DataValue;
use crate::schema::ResultModel;
use crate::schema::ToolDefinition;
use crate::schema::ToolModel;
use crate::schema::ToolResult;
use crate::schema::data_model;
use crate::schema::plain_tool_model;
use crate::schema::result_model;
use crate::schema::tools_model;
use crate::schema::unknown_tool_model;
use crate::schema::unknown_tool_result;
use crate::text::str_eq;

verus! {

/// A module bundling vehicle diagnostic tools.
pub struct AutoMechanicModule;

/// A successful result carrying the given payload.
pub open spec fn ok_result(data: DataVal) -> ResultModel {
    ResultModel { success: true, data, error: None }
}

/// One OBD-II diagnostic code entry.
pub open spec fn engine_code_data(code: Seq<char>, description: Seq<char>, severity: Seq<char>) -> DataVal {
    DataVal::Obj(
        seq![
            ("code"@, DataVal::Text(code)),
            ("description"@, DataVal::Text(description)),
            ("severity"@, DataVal::Text(severity)),
        ],
    )
}

/// The engine health report.
pub open spec fn check_engine_data() -> DataVal {
    DataVal::Obj(
        seq![
            ("rpm"@, DataVal::Int(850)),
            ("temp_f"@, DataVal::Int(195)),
            ("oil_pressure_psi"@, DataVal::Int(42)),
            ("status"@, DataVal::Text("running"@)),
            (
                "codes"@,
                DataVal::List(
                    seq![
                        engine_code_data("P0171"@, "System Too Lean (Bank 1)"@, "moderate"@),
                        engine_code_data(
                            "P0420"@,
                            "Catalyst Efficiency Below Threshold"@,
                            "low"@,
                        ),
                    ],
                ),
            ),
        ],
    )
}

/// One tire entry; pressures in psi, tread in hundredths of a millimetre.
pub open spec fn tire_data(position: Seq<char>, pressure: int, recommended: int, tread: int) -> DataVal {
    DataVal::Obj(
        seq![
            ("position"@, DataVal::Text(position)),
            ("pressure_psi"@, DataVal::Int(pressure)),
            ("recommended_psi"@, DataVal::Int(recommended)),
            ("tread_mm"@, DataVal::Centi(tread)),
        ],
    )
}

/// The tire report.
pub open spec fn check_tires_data() -> DataVal {
    DataVal::Obj(
        seq![
            (
                "tires"@,
                DataVal::List(
                    seq![
                        tire_data("Front Left"@, 28, 35, 520),
                        tire_data("Front Right"@, 34, 35, 500),
                        tire_data("Rear Left"@, 33, 35, 480),
                        tire_data("Rear Right"@, 34, 35, 460),
                    ],
                ),
            ),
        ],
    )
}

/// The battery report; voltage in hundredths of a volt.
pub open spec fn check_battery_vehicle_data() -> DataVal {
    DataVal::Obj(
        seq![
            ("voltage"@, DataVal::Centi(1240)),
            ("cca"@, DataVal::Int(650)),
            ("health_pct"@, DataVal::Int(87)),
            ("age_months"@, DataVal::Int(18)),
            ("status"@, DataVal::Text("good"@)),
        ],
    )
}

/// The fluid level report.
pub open spec fn check_fluids_data() -> DataVal {
    DataVal::Obj(
        seq![
            ("oil"@, DataVal::Text("ok"@)),
            ("coolant"@, DataVal::Text("low"@)),
            ("brake_fluid"@, DataVal::Text("ok"@)),
            ("transmission"@, DataVal::Text("ok"@)),
            ("washer"@, DataVal::Text("low"@)),
        ],
    )
}

/// The full vehicle checkup: the four reports side by side.
pub open spec fn run_vehicle_checkup_data() -> DataVal {
    DataVal::Obj(
        seq![
            ("engine"@, check_engine_data()),
            ("tires"@, check_tires_data()),
            ("battery"@, check_battery_vehicle_data()),
            ("fluids"@, check_fluids_data()),
        ],
    )
}

/// What executing each named tool of this module returns.
pub open spec fn auto_exec_model(name: Seq<char>) -> ResultModel {
    if name == "check_engine"@ {
        ok_result(check_engine_data())
    } else if name == "check_tires"@ {
        ok_result(check_tires_data())
    } else if name == "check_battery_vehicle"@ {
        ok_result(check_battery_vehicle_data())
    } else if name == "check_fluids"@ {
        ok_result(check_fluids_data())
    } else if name == "run_vehicle_checkup"@ {
        ok_result(run_vehicle_checkup_data())
    } else {
        unknown_tool_model(name)
    }
}

/// The tool definitions of this module.
pub open spec fn auto_tools_model() -> Seq<ToolModel> {
    seq![
        plain_tool_model(
            "check_engine"@,
            "Check engine health, RPM, temperature, and OBD-II diagnostic codes"@,
        ),
        plain_tool_model("check_tires"@, "Check tire pressure and tread depth for all four tires"@),
        plain_tool_model(
            "check_battery_vehicle"@,
            "Check vehicle battery voltage, CCA, and overall health"@,
        ),
        plain_tool_model(
            "check_fluids"@,
            "Check all vehicle fluid levels (oil, coolant, brake, transmission, washer)"@,
        ),
        plain_tool_model(
            "run_vehicle_checkup"@,
            "Run a full vehicle diagnostic scan covering engine, tires, battery, and fluids"@,
        ),
    ]
}

fn engine_code(code: &str, description: &str, severity: &str) -> (r: DataValue)
    ensures
        data_model(r) == engine_code_data(code@, description@, severity@),
{
    let mut ps: Vec<DataPair> = Vec::new();
    ps.push(DataPair { key: "code".to_owned(), value: DataValue::Text(code.to_owned()) });
    ps.push(
        DataPair { key: "description".to_owned(), value: DataValue::Text(description.to_owned()) },
    );
    ps.push(DataPair { key: "severity".to_owned(), value: DataValue::Text(severity.to_owned()) });
    let r = DataValue::Obj(ps);
    proof {
        reveal_with_fuel(data_model, 3);
        let e = data_model(r)->Obj_0;
        let g = engine_code_data(code@, description@, severity@)->Obj_0;
        assert(e[0] == g[0]);
        assert(e[1] == g[1]);
        assert(e[2] == g[2]);
        assert(e =~~= g);
        assert(data_model(r) =~~= engine_code_data(code@, description@, severity@));
    }
    r
}

fn check_engine() -> (r: ToolResult)
    ensures
        result_model(r) == ok_result(check_engine_data()),
{
    let code1 = engine_code("P0171", "System Too Lean (Bank 1)", "moderate");
    let code2 = engine_code("P0420", "Catalyst Efficiency Below Threshold", "low");
    let ghost m1 = data_model(code1);
    let ghost m2 = data_model(code2);
    let mut codes: Vec<DataValue> = Vec::new();
    codes.push(code1);
    codes.push(code2);
    let codes_value = DataValue::List(codes);
    proof {
        reveal_with_fuel(data_model, 2);
        assert(data_model(codes_value)->List_0 =~~= seq![m1, m2]);
    }
    let mut ps: Vec<DataPair> = Vec::new();
    ps.push(DataPair { key: "rpm".to_owned(), value: DataValue::Int(850) });
    ps.push(DataPair { key: "temp_f".to_owned(), value: DataValue::Int(195) });
    ps.push(DataPair { key: "oil_pressure_psi".to_owned(), value: DataValue::Int(42) });
    ps.push(DataPair { key: "status".to_owned(), value: DataValue::Text("running".to_owned()) });
    ps.push(DataPair { key: "codes".to_owned(), value: codes_value });
    let data = DataValue::Obj(ps);
    proof {
        reveal_with_fuel(data_model, 3);
        let e = data_model(data)->Obj_0;
        let g = check_engine_data()->Obj_0;
        assert(e[0] == g[0]);
        assert(e[1] == g[1]);
        assert(e[2] == g[2]);
        assert(e[3] == g[3]);
        assert(e[4].0 == g[4].0);
        assert(e[4].1 =~~= g[4].1);
        assert(e =~~= g);
        assert(data_model(data) =~~= check_engine_data());
    }
    ToolResult { success: true, data, error: None }
}

fn tire(position: &str, pressure: i64, recommended: i64, tread: i64) -> (r: DataValue)
    ensures
        data_model(r) == tire_data(position@, pressure as int, recommended as int, tread as int),
{
    let mut ps: Vec<DataPair> = Vec::new();
    ps.push(DataPair { key: "position".to_owned(), value: DataValue::Text(position.to_owned()) });
    ps.push(DataPair { key: "pressure_psi".to_owned(), value: DataValue::Int(pressure) });
    ps.push(DataPair { key: "recommended_psi".to_owned(), value: DataValue::Int(recommended) });
    ps.push(DataPair { key: "tread_mm".to_owned(), value: DataValue::Centi(tread) });
    let r = DataValue::Obj(ps);
    proof {
        reveal_with_fuel(data_model, 3);
        let e = data_model(r)->Obj_0;
        let g = tire_data(position@, pressure as int, recommended as int, tread as int)->Obj_0;
        assert(e[0] == g[0]);
        assert(e[1] == g[1]);
        assert(e[2] == g[2]);
        assert(e[3] == g[3]);
        assert(e =~~= g);
        assert(data_model(r) =~~= tire_data(
            position@,
            pressure as int,
            recommended as int,
            tread as int,
        ));
    }
    r
}

fn check_tires() -> (r: ToolResult)
    ensures
        result_model(r) == ok_result(check_tires_data()),
{
    let t1 = tire("Front Left", 28, 35, 520);
    let t2 = tire("Front Right", 34, 35, 500);
    let t3 = tire("Rear Left", 33, 35, 480);
    let t4 = tire("Rear Right", 34, 35, 460);
    let ghost g1 = data_model(t1);
    let ghost g2 = data_model(t2);
    let ghost g3 = data_model(t3);
    let ghost g4 = data_model(t4);
    let mut tires: Vec<DataValue> = Vec::new();
    tires.push(t1);
    tires.push(t2);
    tires.push(t3);
    tires.push(t4);
    let tires_value = DataValue::List(tires);
    proof {
        reveal_with_fuel(data_model, 2);
        assert(data_model(tires_value)->List_0 =~~= seq![g1, g2, g3, g4]);
    }
    let mut ps: Vec<DataPair> = Vec::new();
    ps.push(DataPair { key: "tires".to_owned(), value: tires_value });
    let data = DataValue::Obj(ps);
    proof {
        reveal_with_fuel(data_model, 3);
        let e = data_model(data)->Obj_0;
        let g = check_tires_data()->Obj_0;
        assert(e[0].0 == g[0].0);
        assert(e[0].1 =~~= g[0].1);
        assert(e =~~= g);
        assert(data_model(data) =~~= check_tires_data());
    }
    ToolResult { success: true, data, error: None }
}

fn check_battery_vehicle() -> (r: ToolResult)
    ensures
        result_model(r) == ok_result(check_battery_vehicle_data()),
{
    let mut ps: Vec<DataPair> = Vec::new();
    ps.push(DataPair { key: "voltage".to_owned(), value: DataValue::Centi(1240) });
    ps.push(DataPair { key: "cca".to_owned(), value: DataValue::Int(650) });
    ps.push(DataPair { key: "health_pct".to_owned(), value: DataValue::Int(87) });
    ps.push(DataPair { key: "age_months".to_owned(), value: DataValue::Int(18) });
    ps.push(DataPair { key: "status".to_owned(), value: DataValue::Text("good".to_owned()) });
    let data = DataValue::Obj(ps);
    proof {
        reveal_with_fuel(data_model, 3);
        let e = data_model(data)->Obj_0;
        let g = check_battery_vehicle_data()->Obj_0;
        assert(e[0] == g[0]);
        assert(e[1] == g[1]);
        assert(e[2] == g[2]);
        assert(e[3] == g[3]);
        assert(e[4] == g[4]);
        assert(e =~~= g);
        assert(data_model(data) =~~= check_battery_vehicle_data());
    }
    ToolResult { success: true, data, error: None }
}

fn check_fluids() -> (r: ToolResult)
    ensures
        result_model(r) == ok_result(check_fluids_data()),
{
    let mut ps: Vec<DataPair> = Vec::new();
    ps.push(DataPair { key: "oil".to_owned(), value: DataValue::Text("ok".to_owned()) });
    ps.push(DataPair { key: "coolant".to_owned(), value: DataValue::Text("low".to_owned()) });
    ps.push(DataPair { key: "brake_fluid".to_owned(), value: DataValue::Text("ok".to_owned()) });
    ps.push(DataPair { key: "transmission".to_owned(), value: DataValue::Text("ok".to_owned()) });
    ps.push(DataPair { key: "washer".to_owned(), value: DataValue::Text("low".to_owned()) });
    let data = DataValue::Obj(ps);
    proof {
        reveal_with_fuel(data_model, 3);
        let e = data_model(data)->Obj_0;
        let g = check_fluids_data()->Obj_0;
        assert(e[0] == g[0]);
        assert(e[1] == g[1]);
        assert(e[2] == g[2]);
        assert(e[3] == g[3]);
        assert(e[4] == g[4]);
        assert(e =~~= g);
        assert(data_model(data) =~~= check_fluids_data());
    }
    ToolResult { success: true, data, error: None }
}

fn run_vehicle_checkup() -> (r: ToolResult)
    ensures
        result_model(r) == ok_result(run_vehicle_checkup_data()),
{
    let engine = check_engine();
    let tires = check_tires();
    let battery = check_battery_vehicle();
    let fluids = check_fluids();
    let mut ps: Vec<DataPair> = Vec::new();
    ps.push(DataPair { key: "engine".to_owned(), value: engine.data });
    ps.push(DataPair { key: "tires".to_owned(), value: tires.data });
    ps.push(DataPair { key: "battery".to_owned(), value: battery.data });
    ps.push(DataPair { key: "fluids".to_owned(), value: fluids.data });
    let data = DataValue::Obj(ps);
    proof {
        reveal_with_fuel(data_model, 3);
        let e = data_model(data)->Obj_0;
        let g = run_vehicle_checkup_data()->Obj_0;
        assert(e[0].0 == g[0].0 && e[0].1 == g[0].1);
        assert(e[1].0 == g[1].0 && e[1].1 == g[1].1);
        assert(e[2].0 == g[2].0 && e[2].1 == g[2].1);
        assert(e[3].0 == g[3].0 && e[3].1 == g[3].1);
        assert(e =~~= g);
        assert(data_model(data) =~~= run_vehicle_checkup_data());
    }
    ToolResult { success: true, data, error: None }
}

impl AutoMechanicModule {
    /// Create the module.
    pub fn new() -> (r: Self)
        ensures
            r == AutoMechanicModule,
    {
        Self
    }

    /// The module's name.
    pub fn name(&self) -> (r: String)
        ensures
            r@ == "auto_mechanic"@,
    {
        String::from_str("auto_mechanic")
    }

    /// One-line description of the module.
    pub fn description(&self) -> (r: String)
        ensures
            r@ == "Vehicle diagnostics, engine health, and maintenance tools"@,
    {
        String::from_str("Vehicle diagnostics, engine health, and maintenance tools")
    }

    /// The tools this module provides.
    pub fn tools(&self) -> (r: Vec<ToolDefinition>)
        ensures
            tools_model(r@) == auto_tools_model(),
            forall|i: int| 0 <= i < r@.len() ==> (#[trigger] r@[i]).parameters.wf(),
    {
        let mut r: Vec<ToolDefinition> = Vec::new();
        r.push(
            ToolDefinition::plain(
                "check_engine",
                "Check engine health, RPM, temperature, and OBD-II diagnostic codes",
            ),
        );
        r.push(
            ToolDefinition::plain(
                "check_tires",
                "Check tire pressure and tread depth for all four tires",
            ),
        );
        r.push(
            ToolDefinition::plain(
                "check_battery_vehicle",
                "Check vehicle battery voltage, CCA, and overall health",
            ),
        );
        r.push(
            ToolDefinition::plain(
                "check_fluids",
                "Check all vehicle fluid levels (oil, coolant, brake, transmission, washer)",
            ),
        );
        r.push(
            ToolDefinition::plain(
                "run_vehicle_checkup",
                "Run a full vehicle diagnostic scan covering engine, tires, battery, and fluids",
            ),
        );
        proof {
            assert(tools_model(r@) =~~= auto_tools_model());
        }
        r
    }

    /// Execute a named tool; an unknown name yields a structured failure.
    pub fn execute(&self, tool_name: &str, _args: &ArgValue) -> (r: ToolResult)
        ensures
            result_model(r) == auto_exec_model(tool_name@),
    {
        if str_eq(tool_name, "check_engine") {
            check_engine()
        } else if str_eq(tool_name, "check_tires") {
            check_tires()
        } else if str_eq(tool_name, "check_battery_vehicle") {
            check_battery_vehicle()
        } else if str_eq(tool_name, "check_fluids") {
            check_fluids()
        } else if str_eq(tool_name, "run_vehicle_checkup") {
            run_vehicle_checkup()
        } else {
            unknown_tool_result(tool_name)
        }
    }
}

} // verus!
