//! The local heuristic router: an ordered, most-specific-first cascade of
//! substring tests over the lower-cased input, producing a (tool, arguments,
//! confidence) guess with no external calls.

use vstd::prelude::*;
use vstd::string::StringExecFns;
use crate::schema::ArgPair;
use crate::schema::ArgVal;
use crate::schema::ArgValue;
use crate::schema::arg_model;
use crate::text::chars_vec;
use crate::text::contains_lit;
use crate::text::has_substring;
use crate::text::lower;
use crate::text::lower_of;
use crate::text::space_split;
use crate::text::split_runs;
use crate::text::str_eq;
use crate::text::views_of;

verus! {

/// The heuristic's guess: a tool name, string-valued arguments, and a
/// confidence in hundredths.
#[verifier::ext_equal]
pub ghost struct GuessModel {
    pub name: Seq<char>,
    pub args: Seq<(Seq<char>, Seq<char>)>,
    pub confidence: int,
}

pub open spec fn kw_kill(low: Seq<char>) -> bool {
    ||| has_substring(low, "kill"@)
    ||| has_substring(low, "quit"@)
    ||| has_substring(low, "force"@)
}

pub open spec fn kw_cache(low: Seq<char>) -> bool {
    ||| has_substring(low, "cache"@)
    ||| has_substring(low, "clear"@)
    ||| has_substring(low, "free"@)
}

pub open spec fn kw_memory(low: Seq<char>) -> bool {
    ||| has_substring(low, "memory"@)
    ||| has_substring(low, "ram"@)
}

pub open spec fn kw_disk(low: Seq<char>) -> bool {
    ||| has_substring(low, "disk"@)
    ||| has_substring(low, "storage"@)
}

pub open spec fn kw_checkup(low: Seq<char>) -> bool {
    ||| has_substring(low, "checkup"@)
    ||| has_substring(low, "health"@)
    ||| has_substring(low, "everything"@)
    ||| has_substring(low, "full"@)
}

pub open spec fn kw_battery(low: Seq<char>) -> bool {
    ||| has_substring(low, "battery"@)
    ||| has_substring(low, "power"@)
    ||| has_substring(low, "charging"@)
}

pub open spec fn kw_network(low: Seq<char>) -> bool {
    ||| has_substring(low, "network"@)
    ||| has_substring(low, "connection"@)
    ||| has_substring(low, "wifi"@)
    ||| has_substring(low, "internet"@)
}

pub open spec fn kw_net_problem(low: Seq<char>) -> bool {
    ||| has_substring(low, "broken"@)
    ||| has_substring(low, "fix"@)
    ||| has_substring(low, "diagnose"@)
    ||| has_substring(low, "slow"@)
    ||| has_substring(low, "issue"@)
    ||| has_substring(low, "problem"@)
}

pub open spec fn kw_startup(low: Seq<char>) -> bool {
    ||| has_substring(low, "startup"@)
    ||| has_substring(low, "boot"@)
    ||| has_substring(low, "login"@)
}

pub open spec fn kw_security(low: Seq<char>) -> bool {
    ||| has_substring(low, "security"@)
    ||| has_substring(low, "secure"@)
    ||| has_substring(low, "firewall"@)
    ||| has_substring(low, "update"@)
}

pub open spec fn kw_cpu(low: Seq<char>) -> bool {
    ||| has_substring(low, "cpu"@)
    ||| has_substring(low, "processor"@)
}

pub open spec fn kw_disk_space(low: Seq<char>) -> bool {
    ||| has_substring(low, "disk"@)
    ||| has_substring(low, "storage"@)
    ||| has_substring(low, "space"@)
}

pub open spec fn kw_vehicle(low: Seq<char>) -> bool {
    ||| has_substring(low, "vehicle checkup"@)
    ||| has_substring(low, "car diagnostic"@)
    ||| has_substring(low, "car checkup"@)
}

pub open spec fn kw_engine(low: Seq<char>) -> bool {
    ||| has_substring(low, "engine"@)
    ||| has_substring(low, "obd"@)
    ||| has_substring(low, "dtc"@)
    ||| has_substring(low, "rpm"@)
}

pub open spec fn kw_tires(low: Seq<char>) -> bool {
    ||| has_substring(low, "tire"@)
    ||| has_substring(low, "tyre"@)
    ||| has_substring(low, "tread"@)
    ||| has_substring(low, "psi"@)
}

pub open spec fn kw_car_battery(low: Seq<char>) -> bool {
    ||| has_substring(low, "voltage"@)
    ||| has_substring(low, "cca"@)
    ||| has_substring(low, "alternator"@)
    ||| has_substring(low, "car battery"@)
}

pub open spec fn kw_fluids(low: Seq<char>) -> bool {
    ||| has_substring(low, "fluid"@)
    ||| has_substring(low, "oil level"@)
    ||| has_substring(low, "coolant"@)
    ||| has_substring(low, "brake fluid"@)
    ||| has_substring(low, "transmission fluid"@)
}

/// A trigger keyword must not itself be taken for a process name.
pub open spec fn stop_word(w: Seq<char>) -> bool {
    ||| w == "kill"@
    ||| w == "quit"@
    ||| w == "force"@
    ||| w == "process"@
    ||| w == "the"@
    ||| w == "app"@
    ||| w == "please"@
}

/// The last whitespace-separated word of the lowered input, if any.
pub open spec fn last_word(low: Seq<char>) -> Option<Seq<char>> {
    let ws = space_split(low);
    if ws.len() == 0 {
        None
    } else {
        Some(ws.last())
    }
}

/// The process name guessed for a kill request: the last word of the input,
/// unless there is none or it is itself a trigger keyword.
pub open spec fn kill_target(low: Seq<char>) -> Seq<char> {
    match last_word(low) {
        None => "unknown"@,
        Some(w) => if stop_word(w) {
            "unknown"@
        } else {
            w
        },
    }
}

/// The cache-clearing target guessed from the input.
pub open spec fn clear_target(low: Seq<char>) -> Seq<char> {
    if kw_memory(low) {
        "memory"@
    } else if kw_disk(low) {
        "disk"@
    } else {
        "both"@
    }
}

/// The heuristic routing decision, as a function of the lowered input and
/// of the original text (carried into the catch-all's argument).
pub open spec fn local_route_model(low: Seq<char>, orig: Seq<char>) -> GuessModel {
    if kw_kill(low) {
        GuessModel {
            name: "kill_process"@,
            args: seq![("process_name"@, kill_target(low))],
            confidence: 85,
        }
    } else if kw_cache(low) {
        GuessModel { name: "clear_caches"@, args: seq![("target"@, clear_target(low))], confidence: 85 }
    } else if kw_checkup(low) {
        GuessModel { name: "run_full_checkup"@, args: Seq::empty(), confidence: 90 }
    } else if kw_battery(low) {
        GuessModel { name: "diagnose_battery"@, args: Seq::empty(), confidence: 90 }
    } else if kw_network(low) {
        if kw_net_problem(low) {
            GuessModel { name: "diagnose_network"@, args: Seq::empty(), confidence: 90 }
        } else {
            GuessModel { name: "monitor_network"@, args: Seq::empty(), confidence: 85 }
        }
    } else if kw_startup(low) {
        GuessModel { name: "check_startup_items"@, args: Seq::empty(), confidence: 85 }
    } else if kw_security(low) {
        GuessModel { name: "check_security"@, args: Seq::empty(), confidence: 85 }
    } else if kw_cpu(low) {
        GuessModel { name: "monitor_cpu"@, args: Seq::empty(), confidence: 90 }
    } else if has_substring(low, "slow"@) {
        GuessModel { name: "monitor_cpu"@, args: Seq::empty(), confidence: 80 }
    } else if kw_memory(low) {
        GuessModel { name: "monitor_memory"@, args: Seq::empty(), confidence: 90 }
    } else if kw_disk_space(low) {
        GuessModel { name: "monitor_disk"@, args: Seq::empty(), confidence: 90 }
    } else if kw_vehicle(low) {
        GuessModel { name: "run_vehicle_checkup"@, args: Seq::empty(), confidence: 90 }
    } else if kw_engine(low) {
        GuessModel { name: "check_engine"@, args: Seq::empty(), confidence: 85 }
    } else if kw_tires(low) {
        GuessModel { name: "check_tires"@, args: Seq::empty(), confidence: 85 }
    } else if kw_car_battery(low) {
        GuessModel { name: "check_battery_vehicle"@, args: Seq::empty(), confidence: 85 }
    } else if kw_fluids(low) {
        GuessModel { name: "check_fluids"@, args: Seq::empty(), confidence: 85 }
    } else {
        GuessModel { name: "troubleshoot"@, args: seq![("problem"@, orig)], confidence: 30 }
    }
}

/// The guess of the heuristic for `input`.
pub open spec fn heuristic_model(input: Seq<char>) -> GuessModel {
    local_route_model(lower_of(input), input)
}

/// An argument value realises a modelled list of string bindings.
pub open spec fn args_match(args: ArgVal, m: Seq<(Seq<char>, Seq<char>)>) -> bool {
    args matches ArgVal::Obj(entries) && entries.len() == m.len() && forall|i: int|
        0 <= i < m.len() ==> (#[trigger] entries[i]).0 == m[i].0 && entries[i].1 == ArgVal::Text(
            m[i].1,
        )
}

/// A guess realises its model.
pub open spec fn guess_matches(r: (String, ArgValue, u32), g: GuessModel) -> bool {
    &&& r.0@ == g.name
    &&& args_match(arg_model(r.1), g.args)
    &&& r.2 as int == g.confidence
}

/// An argument object with no bindings.
fn empty_args() -> (r: ArgValue)
    ensures
        args_match(arg_model(r), Seq::empty()),
{
    let pairs: Vec<ArgPair> = Vec::new();
    let r = ArgValue::Obj(pairs);
    proof {
        assert(arg_model(r)->Obj_0 =~= Seq::<(Seq<char>, ArgVal)>::empty());
    }
    r
}

/// An argument object with one string binding.
fn string_args(key: &str, value: String) -> (r: ArgValue)
    ensures
        args_match(arg_model(r), seq![(key@, value@)]),
{
    let ghost v = value@;
    let mut pairs: Vec<ArgPair> = Vec::new();
    pairs.push(ArgPair { key: String::from_str(key), value: ArgValue::Text(value) });
    let r = ArgValue::Obj(pairs);
    proof {
        assert(pairs@.len() == 1);
        assert(pairs@[0].key@ == key@);
        assert(arg_model(pairs@[0].value) == ArgVal::Text(v));
        let entries = arg_model(r)->Obj_0;
        assert(entries.len() == 1);
        assert(entries[0] == (pairs@[0].key@, arg_model(pairs@[0].value)));
        assert(entries[0].0 == key@ && entries[0].1 == ArgVal::Text(v));
        assert(args_match(arg_model(r), seq![(key@, v)]));
    }
    r
}

/// The keyword-based router.  Returns `(tool_name, arguments, confidence)`,
/// the confidence in hundredths; deterministic, synchronous, no I/O.
pub fn local_route(input: &str) -> (r: (String, ArgValue, u32))
    ensures
        guess_matches(r, heuristic_model(input@)),
{
    let low = lower(input);
    let cs = chars_vec(low.as_str());
    let ghost lw = lower_of(input@);
    if contains_lit(&cs, "kill") || contains_lit(&cs, "quit") || contains_lit(&cs, "force") {
        let words = split_runs(&cs, false);
        let pname: String = if words.len() == 0 {
            proof {
                assert(space_split(lw).len() == 0);
            }
            String::from_str("unknown")
        } else {
            let w = &words[words.len() - 1];
            proof {
                assert(space_split(lw).last() == views_of(words@).last());
                assert(views_of(words@).last() == w@);
            }
            if str_eq(w.as_str(), "kill") || str_eq(w.as_str(), "quit") || str_eq(
                w.as_str(),
                "force",
            ) || str_eq(w.as_str(), "process") || str_eq(w.as_str(), "the") || str_eq(
                w.as_str(),
                "app",
            ) || str_eq(w.as_str(), "please") {
                String::from_str("unknown")
            } else {
                w.clone()
            }
        };
        proof {
            assert(pname@ == kill_target(lw));
        }
        return (String::from_str("kill_process"), string_args("process_name", pname), 85);
    }
    if contains_lit(&cs, "cache") || contains_lit(&cs, "clear") || contains_lit(&cs, "free") {
        let target: String = if contains_lit(&cs, "memory") || contains_lit(&cs, "ram") {
            String::from_str("memory")
        } else if contains_lit(&cs, "disk") || contains_lit(&cs, "storage") {
            String::from_str("disk")
        } else {
            String::from_str("both")
        };
        proof {
            assert(target@ == clear_target(lw));
        }
        return (String::from_str("clear_caches"), string_args("target", target), 85);
    }
    if contains_lit(&cs, "checkup") || contains_lit(&cs, "health") || contains_lit(
        &cs,
        "everything",
    ) || contains_lit(&cs, "full") {
        return (String::from_str("run_full_checkup"), empty_args(), 90);
    }
    if contains_lit(&cs, "battery") || contains_lit(&cs, "power") || contains_lit(&cs, "charging") {
        return (String::from_str("diagnose_battery"), empty_args(), 90);
    }
    if contains_lit(&cs, "network") || contains_lit(&cs, "connection") || contains_lit(&cs, "wifi")
        || contains_lit(&cs, "internet") {
        if contains_lit(&cs, "broken") || contains_lit(&cs, "fix") || contains_lit(&cs, "diagnose")
            || contains_lit(&cs, "slow") || contains_lit(&cs, "issue") || contains_lit(
            &cs,
            "problem",
        ) {
            return (String::from_str("diagnose_network"), empty_args(), 90);
        }
        return (String::from_str("monitor_network"), empty_args(), 85);
    }
    if contains_lit(&cs, "startup") || contains_lit(&cs, "boot") || contains_lit(&cs, "login") {
        return (String::from_str("check_startup_items"), empty_args(), 85);
    }
    if contains_lit(&cs, "security") || contains_lit(&cs, "secure") || contains_lit(
        &cs,
        "firewall",
    ) || contains_lit(&cs, "update") {
        return (String::from_str("check_security"), empty_args(), 85);
    }
    if contains_lit(&cs, "cpu") || contains_lit(&cs, "processor") {
        return (String::from_str("monitor_cpu"), empty_args(), 90);
    }
    if contains_lit(&cs, "slow") {
        return (String::from_str("monitor_cpu"), empty_args(), 80);
    }
    if contains_lit(&cs, "memory") || contains_lit(&cs, "ram") {
        return (String::from_str("monitor_memory"), empty_args(), 90);
    }
    if contains_lit(&cs, "disk") || contains_lit(&cs, "storage") || contains_lit(&cs, "space") {
        return (String::from_str("monitor_disk"), empty_args(), 90);
    }
    if contains_lit(&cs, "vehicle checkup") || contains_lit(&cs, "car diagnostic") || contains_lit(
        &cs,
        "car checkup",
    ) {
        return (String::from_str("run_vehicle_checkup"), empty_args(), 90);
    }
    if contains_lit(&cs, "engine") || contains_lit(&cs, "obd") || contains_lit(&cs, "dtc")
        || contains_lit(&cs, "rpm") {
        return (String::from_str("check_engine"), empty_args(), 85);
    }
    if contains_lit(&cs, "tire") || contains_lit(&cs, "tyre") || contains_lit(&cs, "tread")
        || contains_lit(&cs, "psi") {
        return (String::from_str("check_tires"), empty_args(), 85);
    }
    if contains_lit(&cs, "voltage") || contains_lit(&cs, "cca") || contains_lit(&cs, "alternator")
        || contains_lit(&cs, "car battery") {
        return (String::from_str("check_battery_vehicle"), empty_args(), 85);
    }
    if contains_lit(&cs, "fluid") || contains_lit(&cs, "oil level") || contains_lit(&cs, "coolant")
        || contains_lit(&cs, "brake fluid") || contains_lit(&cs, "transmission fluid") {
        return (String::from_str("check_fluids"), empty_args(), 85);
    }
    (String::from_str("troubleshoot"), string_args("problem", String::from_str(input)), 30)
}

} // verus!
