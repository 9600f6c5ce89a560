//! The tool registry: an ordered collection of modules and a tool-name
//! index that maps every registered tool to exactly one owning module.
//! Registration that would break that invariant is rejected atomically.

use vstd::prelude::*;
use vstd::string::StringExecFns;
use crate::auto_mechanic::AutoMechanicModule;
use crate::auto_mechanic::auto_exec_model;
use crate::auto_mechanic::auto_tools_model;
use crate::mac_troubleshoot::MacTroubleshootModule;
use crate::mac_troubleshoot::mac_exec_model;
use crate::mac_troubleshoot::mac_tools_model;
use crate::schema::ArgVal;
use crate::schema::ArgValue;
use crate::schema::ResultModel;
use crate::schema::ToolDefinition;
use crate::schema::ToolModel;
use crate::schema::ToolResult;
use crate::schema::arg_model;
use crate::schema::model_names;
use crate::schema::result_model;
use crate::schema::tool_model;
use crate::schema::tools_model;
use crate::schema::unknown_tool_model;
use crate::schema::unknown_tool_result;
use crate::text::str_eq;
use crate::text::views_of;

verus! {

/// A module given by fixed data: its tool definitions and one canned
/// result per tool.  It is the simplest way to add a domain of
/// pre-computed tools, and serves as a test double.
pub struct CannedModule {
    pub name: String,
    pub description: String,
    pub tools: Vec<ToolDefinition>,
    pub results: Vec<CannedResult>,
}

/// One canned result: what executing `tool` returns.
pub struct CannedResult {
    pub tool: String,
    pub result: ToolResult,
}

/// The result a canned module yields for `name`: the first canned entry
/// with that tool name, else the structured unknown-tool failure.
pub open spec fn canned_exec_model(results: Seq<CannedResult>, name: Seq<char>) -> ResultModel
    decreases results.len(),
{
    if results.len() == 0 {
        unknown_tool_model(name)
    } else if results[0].tool@ == name {
        result_model(results[0].result)
    } else {
        canned_exec_model(results.drop_first(), name)
    }
}

/// One registered module: a fixed interface implemented by an open set of
/// variants held in the registry's ownership list.
pub enum RegisteredModule {
    Mac(MacTroubleshootModule),
    Auto(AutoMechanicModule),
    Canned(CannedModule),
}

/// The module's name.
pub open spec fn module_name_model(m: RegisteredModule) -> Seq<char> {
    match m {
        RegisteredModule::Mac(_) => "mac_troubleshoot"@,
        RegisteredModule::Auto(_) => "auto_mechanic"@,
        RegisteredModule::Canned(c) => c.name@,
    }
}

/// The module's description.
pub open spec fn module_description_model(m: RegisteredModule) -> Seq<char> {
    match m {
        RegisteredModule::Mac(_) => "macOS system diagnostics, monitoring, and troubleshooting tools"@,
        RegisteredModule::Auto(_) => "Vehicle diagnostics, engine health, and maintenance tools"@,
        RegisteredModule::Canned(c) => c.description@,
    }
}

/// The models of the module's tool definitions.
pub open spec fn module_tools_model(m: RegisteredModule) -> Seq<ToolModel> {
    match m {
        RegisteredModule::Mac(_) => mac_tools_model(),
        RegisteredModule::Auto(_) => auto_tools_model(),
        RegisteredModule::Canned(c) => tools_model(c.tools@),
    }
}

/// The names of the module's tools, in order.
pub open spec fn module_tool_names(m: RegisteredModule) -> Seq<Seq<char>> {
    model_names(module_tools_model(m))
}

/// What executing a tool on a module yields: `None` when the host must run
/// it, otherwise the result.
pub open spec fn module_exec_model(m: RegisteredModule, name: Seq<char>, args: ArgVal) -> Option<
    ResultModel,
> {
    match m {
        RegisteredModule::Mac(_) => mac_exec_model(name, args),
        RegisteredModule::Auto(_) => Some(auto_exec_model(name)),
        RegisteredModule::Canned(c) => Some(canned_exec_model(c.results@, name)),
    }
}

impl RegisteredModule {
    /// The module's name.
    pub fn name(&self) -> (r: String)
        ensures
            r@ == module_name_model(*self),
    {
        match self {
            RegisteredModule::Mac(m) => m.name(),
            RegisteredModule::Auto(m) => m.name(),
            RegisteredModule::Canned(c) => c.name.clone(),
        }
    }

    /// The module's description.
    pub fn description(&self) -> (r: String)
        ensures
            r@ == module_description_model(*self),
    {
        match self {
            RegisteredModule::Mac(m) => m.description(),
            RegisteredModule::Auto(m) => m.description(),
            RegisteredModule::Canned(c) => c.description.clone(),
        }
    }

    /// The module's tool definitions.
    pub fn tools(&self) -> (r: Vec<ToolDefinition>)
        ensures
            tools_model(r@) == module_tools_model(*self),
    {
        match self {
            RegisteredModule::Mac(m) => m.tools(),
            RegisteredModule::Auto(m) => m.tools(),
            RegisteredModule::Canned(c) => {
                let mut out: Vec<ToolDefinition> = Vec::new();
                let mut i: usize = 0;
                while i < c.tools.len()
                    invariant
                        i <= c.tools@.len(),
                        out@.len() == i,
                        *self matches RegisteredModule::Canned(cc) && cc == c,
                        forall|j: int|
                            0 <= j < i ==> tool_model(#[trigger] out@[j]) == tool_model(
                                c.tools@[j],
                            ),
                    decreases c.tools@.len() - i,
                {
                    out.push(c.tools[i].duplicate());
                    i = i + 1;
                }
                proof {
                    assert(tools_model(out@) =~~= tools_model(c.tools@));
                }
                out
            },
        }
    }

    /// Execute a named tool so far as it is pure computation; `None` means
    /// the host must run it.
    pub fn execute(&self, tool_name: &str, args: &ArgValue) -> (r: Option<ToolResult>)
        ensures
            match module_exec_model(*self, tool_name@, arg_model(*args)) {
                Some(m) => r matches Some(t) && result_model(t) == m,
                None => r is None,
            },
    {
        match self {
            RegisteredModule::Mac(m) => m.execute(tool_name, args),
            RegisteredModule::Auto(m) => Some(m.execute(tool_name, args)),
            RegisteredModule::Canned(c) => {
                let ghost all = c.results@;
                let mut i: usize = 0;
                proof {
                    assert(all.skip(0) =~= all);
                }
                while i < c.results.len()
                    invariant
                        i <= all.len(),
                        *self matches RegisteredModule::Canned(cc) && cc == c,
                        all == c.results@,
                        canned_exec_model(all, tool_name@) == canned_exec_model(
                            all.skip(i as int),
                            tool_name@,
                        ),
                    decreases all.len() - i,
                {
                    proof {
                        assert(all.skip(i as int).len() > 0);
                        assert(all.skip(i as int)[0] == all[i as int]);
                        assert(all.skip(i as int).drop_first() =~= all.skip(i as int + 1));
                    }
                    if str_eq(c.results[i].tool.as_str(), tool_name) {
                        return Some(c.results[i].result.duplicate());
                    }
                    i = i + 1;
                }
                proof {
                    assert(all.skip(i as int) =~= Seq::<CannedResult>::empty());
                }
                Some(unknown_tool_result(tool_name))
            },
        }
    }
}

/// The owner recorded for a tool name: the first matching index entry.
pub open spec fn entry_lookup(idx: Seq<(Seq<char>, int)>, name: Seq<char>) -> Option<int>
    decreases idx.len(),
{
    if idx.len() == 0 {
        None
    } else if idx[0].0 == name {
        Some(idx[0].1)
    } else {
        entry_lookup(idx.drop_first(), name)
    }
}

pub proof fn lemma_entry_lookup_present(idx: Seq<(Seq<char>, int)>, name: Seq<char>)
    ensures
        (entry_lookup(idx, name) is Some) == (exists|k: int|
            0 <= k < idx.len() && (#[trigger] idx[k]).0 == name),
    decreases idx.len(),
{
    if idx.len() > 0 {
        if idx[0].0 == name {
        } else {
            lemma_entry_lookup_present(idx.drop_first(), name);
            if exists|k: int| 0 <= k < idx.drop_first().len() && (#[trigger] idx.drop_first()[k]).0
                == name {
                let k = choose|k: int|
                    0 <= k < idx.drop_first().len() && (#[trigger] idx.drop_first()[k]).0 == name;
                assert(idx[k + 1].0 == name);
            } else if exists|k: int| 0 <= k < idx.len() && (#[trigger] idx[k]).0 == name {
                let k = choose|k: int| 0 <= k < idx.len() && (#[trigger] idx[k]).0 == name;
                assert(idx.drop_first()[k - 1].0 == name);
            }
        }
    }
}

pub proof fn lemma_entry_lookup_append(a: Seq<(Seq<char>, int)>, b: Seq<(Seq<char>, int)>, name: Seq<char>)
    ensures
        entry_lookup(a + b, name) == (if entry_lookup(a, name) is Some {
            entry_lookup(a, name)
        } else {
            entry_lookup(b, name)
        }),
    decreases a.len(),
{
    if a.len() == 0 {
        assert(a + b =~= b);
    } else {
        assert((a + b)[0] == a[0]);
        assert((a + b).drop_first() =~= a.drop_first() + b);
        lemma_entry_lookup_append(a.drop_first(), b, name);
    }
}

/// One entry of the tool-name index.
struct ToolEntry {
    tool: String,
    owner: usize,
}

/// Registry that holds the modules and dispatches by tool name.
pub struct ModuleRegistry {
    modules: Vec<RegisteredModule>,
    tool_index: Vec<ToolEntry>,
}

impl ModuleRegistry {
    /// The registered modules, in registration order.
    pub closed spec fn modules_view(&self) -> Seq<RegisteredModule> {
        self.modules@
    }

    /// The tool-name index: name to position of the owning module.
    pub closed spec fn index_view(&self) -> Seq<(Seq<char>, int)> {
        self.tool_index@.map_values(|e: ToolEntry| (e.tool@, e.owner as int))
    }

    /// The owner of a tool name, if registered.
    pub open spec fn owner_of(&self, name: Seq<char>) -> Option<int> {
        entry_lookup(self.index_view(), name)
    }

    /// Whether a tool name is registered.
    pub open spec fn has_tool_spec(&self, name: Seq<char>) -> bool {
        self.owner_of(name) is Some
    }

    /// The registry's invariant: every index entry points at a registered
    /// module that declares the tool; no tool name is indexed twice; and
    /// every tool of every registered module is indexed.
    pub closed spec fn wf(&self) -> bool {
        &&& forall|k: int|
            0 <= k < self.index_view().len() ==> 0 <= (#[trigger] self.index_view()[k]).1
                < self.modules_view().len()
        &&& forall|k1: int, k2: int|
            0 <= k1 < k2 < self.index_view().len() ==> (#[trigger] self.index_view()[k1]).0 != (
            #[trigger] self.index_view()[k2]).0
        &&& forall|k: int|
            0 <= k < self.index_view().len() ==> module_tool_names(
                self.modules_view()[self.index_view()[k].1],
            ).contains((#[trigger] self.index_view()[k]).0)
        &&& forall|mi: int, ti: int|
            0 <= mi < self.modules_view().len() && 0 <= ti < module_tool_names(
                self.modules_view()[mi],
            ).len() ==> entry_lookup(
                self.index_view(),
                #[trigger] module_tool_names(self.modules_view()[mi])[ti],
            ) is Some
    }

    /// Create an empty registry.
    pub fn new() -> (r: Self)
        ensures
            r.wf(),
            r.modules_view() == Seq::<RegisteredModule>::empty(),
            r.index_view() == Seq::<(Seq<char>, int)>::empty(),
    {
        let r = ModuleRegistry { modules: Vec::new(), tool_index: Vec::new() };
        proof {
            assert(r.index_view() =~= Seq::<(Seq<char>, int)>::empty());
        }
        r
    }

    /// Register a module.  Any tool-name collision — with a tool already
    /// registered, or between two tools of the module itself — aborts the
    /// whole registration: the registry is unchanged and the error names
    /// both owners.  On success the module is appended and each of its
    /// tools is indexed to it.
    pub fn register(&mut self, m: RegisteredModule) -> (r: Result<(), String>)
        requires
            old(self).wf(),
        ensures
            final(self).wf(),
            (r is Ok) == can_register(*old(self), m),
            r is Ok ==> final(self).modules_view() == old(self).modules_view().push(m),
            r is Ok ==> final(self).index_view() == old(self).index_view() + new_entries(
                m,
                old(self).modules_view().len() as int,
            ),
            r is Err ==> *final(self) == *old(self),
            r matches Err(e) ==> e@ == collision_message(*old(self), m),
    {
        let defs = m.tools();
        let mname = m.name();
        let owner = self.modules.len();
        let ghost names = module_tool_names(m);
        proof {
            assert(defs@.len() == names.len());
            assert(forall|k: int|
                0 <= k < defs@.len() ==> (#[trigger] defs@[k]).name@ == names[k]);
        }
        let mut i: usize = 0;
        while i < defs.len()
            invariant
                old(self).wf(),
                *self == *old(self),
                names == module_tool_names(m),
                tools_model(defs@) == module_tools_model(m),
                defs@.len() == names.len(),
                forall|k: int| 0 <= k < defs@.len() ==> (#[trigger] defs@[k]).name@ == names[k],
                i <= defs@.len(),
                mname@ == module_name_model(m),
                forall|k: int| 0 <= k < i ==> !collision_at(*old(self), m, k),
            decreases defs@.len() - i,
        {
            let dup = name_among(&defs, i, defs[i].name.as_str());
            let prior = self.lookup_owner(defs[i].name.as_str());
            if dup || prior.is_some() {
                proof {
                    assert(collision_at(*old(self), m, i as int));
                    lemma_first_collision_is(*old(self), m, i as int);
                }
                let owner_name: String = match prior {
                    Some(o) => {
                        proof {
                            lemma_lookup_in_bounds(self, defs@[i as int].name@);
                        }
                        let on = self.modules[o].name();
                        proof {
                            assert(self.modules@[o as int] == self.modules_view()[o as int]);
                            assert(on@ == module_name_model(old(self).modules_view()[o as int]));
                        }
                        on
                    },
                    None => mname,
                };
                let mut msg = String::from_str("Tool '");
                msg.append(defs[i].name.as_str());
                msg.append("' from module '");
                msg.append(m.name().as_str());
                msg.append("' collides with module '");
                msg.append(owner_name.as_str());
                msg.append("'");
                proof {
                    assert(first_collision(*old(self), m) == Some(i as int));
                    let t = module_tool_names(m)[i as int];
                    assert(defs@[i as int].name@ == t);
                    assert(self.index_view() == old(self).index_view());
                    match prior {
                        Some(o) => {
                            assert(entry_lookup(old(self).index_view(), t) == Some(o as int));
                            assert(owner_name@ == module_name_model(
                                old(self).modules_view()[o as int],
                            ));
                        },
                        None => {
                            assert(entry_lookup(old(self).index_view(), t) is None);
                            assert(owner_name@ == module_name_model(m));
                        },
                    }
                    assert(msg@ == collision_message(*old(self), m));
                    assert(!can_register(*old(self), m));
                }
                return Err(msg);
            }
            i = i + 1;
        }
        proof {
            assert forall|k: int| 0 <= k < names.len() implies entry_lookup(
                old(self).index_view(),
                #[trigger] names[k],
            ) is None && !(exists|j: int| 0 <= j < k && names[j] == names[k]) by {
                assert(!collision_at(*old(self), m, k));
            }
            assert(can_register(*old(self), m));
        }
        let ghost old_iv = self.index_view();
        let ghost old_ms = self.modules_view();
        let ghost added = new_entries(m, owner as int);
        let mut i: usize = 0;
        proof {
            assert(self.index_view() =~= old_iv + added.take(0));
        }
        while i < defs.len()
            invariant
                names == module_tool_names(m),
                defs@.len() == names.len(),
                forall|k: int| 0 <= k < defs@.len() ==> (#[trigger] defs@[k]).name@ == names[k],
                i <= defs@.len(),
                owner == old_ms.len(),
                added == new_entries(m, owner as int),
                self.modules_view() == old_ms,
                self.index_view() == old_iv + added.take(i as int),
            decreases defs@.len() - i,
        {
            let entry = ToolEntry { tool: defs[i].name.clone(), owner };
            let ghost before = self.index_view();
            proof {
                assert(entry.tool@ == names[i as int]);
            }
            self.tool_index.push(entry);
            proof {
                let now = self.index_view();
                assert(self.tool_index@.last() == entry);
                assert(now.len() == before.len() + 1);
                assert(forall|k: int| 0 <= k < before.len() ==> now[k] == before[k]);
                assert(now.last() == (entry.tool@, entry.owner as int));
                assert(added.take(i as int + 1) =~= added.take(i as int).push(added[i as int]));
                assert(now =~~= old_iv + added.take(i as int + 1));
            }
            i = i + 1;
        }
        self.modules.push(m);
        proof {
            assert(added.take(names.len() as int) =~= added);
            assert(self.index_view() == old_iv + added);
            assert(self.modules_view() == old_ms.push(m));
            lemma_register_preserves_wf(*old(self), m, *self);
        }
        Ok(())
    }

    /// Find a tool name in the index.
    fn lookup_owner(&self, name: &str) -> (r: Option<usize>)
        ensures
            match r {
                Some(o) => self.owner_of(name@) == Some(o as int),
                None => self.owner_of(name@) is None,
            },
    {
        let ghost iv = self.index_view();
        let mut i: usize = 0;
        proof {
            assert(iv.skip(0) =~= iv);
        }
        while i < self.tool_index.len()
            invariant
                i <= iv.len(),
                iv == self.index_view(),
                iv.len() == self.tool_index@.len(),
                entry_lookup(iv, name@) == entry_lookup(iv.skip(i as int), name@),
            decreases iv.len() - i,
        {
            proof {
                assert(iv.skip(i as int).len() > 0);
                assert(iv.skip(i as int)[0] == iv[i as int]);
                assert(iv.skip(i as int).drop_first() =~= iv.skip(i as int + 1));
                assert(iv[i as int] == (self.tool_index@[i as int].tool@, self.tool_index@[
                    i as int].owner as int));
            }
            if str_eq(self.tool_index[i].tool.as_str(), name) {
                return Some(self.tool_index[i].owner);
            }
            i = i + 1;
        }
        proof {
            assert(iv.skip(i as int) =~= Seq::<(Seq<char>, int)>::empty());
        }
        None
    }

    /// Check if a tool name is registered.
    pub fn has_tool(&self, tool_name: &str) -> (r: bool)
        ensures
            r == self.has_tool_spec(tool_name@),
    {
        self.lookup_owner(tool_name).is_some()
    }

    /// Check if a tool belongs to the module with the given name.
    pub fn tool_belongs_to_module(&self, tool_name: &str, module_name: &str) -> (r: bool)
        requires
            self.wf(),
        ensures
            r == match self.owner_of(tool_name@) {
                Some(o) => module_name_model(self.modules_view()[o]) == module_name@,
                None => false,
            },
    {
        match self.lookup_owner(tool_name) {
            Some(o) => {
                proof {
                    lemma_lookup_in_bounds(self, tool_name@);
                }
                let owner_name = self.modules[o].name();
                str_eq(owner_name.as_str(), module_name)
            },
            None => false,
        }
    }

    /// Execute a tool by name.  An unknown name yields a structured
    /// failure; `None` means the owning module needs the host to run it.
    pub fn execute(&self, tool_name: &str, args: &ArgValue) -> (r: Option<ToolResult>)
        requires
            self.wf(),
        ensures
            match self.exec_model(tool_name@, arg_model(*args)) {
                Some(m) => r matches Some(t) && result_model(t) == m,
                None => r is None,
            },
    {
        match self.lookup_owner(tool_name) {
            Some(o) => {
                proof {
                    lemma_lookup_in_bounds(self, tool_name@);
                }
                self.modules[o].execute(tool_name, args)
            },
            None => Some(unknown_tool_result(tool_name)),
        }
    }

    /// What executing a tool yields: the owning module's result, or the
    /// unknown-tool failure; `None` when the host must run the tool.
    pub open spec fn exec_model(&self, name: Seq<char>, args: ArgVal) -> Option<ResultModel> {
        match self.owner_of(name) {
            None => Some(unknown_tool_model(name)),
            Some(o) => module_exec_model(self.modules_view()[o], name, args),
        }
    }

    /// All tool definitions across all registered modules, in order.
    pub fn all_tools(&self) -> (r: Vec<ToolDefinition>)
        ensures
            tools_model(r@) == modules_tools_model(self.modules_view()),
    {
        let ghost ms = self.modules_view();
        let mut out: Vec<ToolDefinition> = Vec::new();
        let mut i: usize = 0;
        proof {
            assert(ms.skip(0) =~= ms);
            assert(tools_model(out@) =~= Seq::<ToolModel>::empty());
        }
        while i < self.modules.len()
            invariant
                i <= ms.len(),
                ms == self.modules_view(),
                modules_tools_model(ms) == tools_model(out@) + modules_tools_model(
                    ms.skip(i as int),
                ),
            decreases ms.len() - i,
        {
            proof {
                assert(ms.skip(i as int).len() > 0);
                assert(ms.skip(i as int)[0] == ms[i as int]);
                assert(ms.skip(i as int).drop_first() =~= ms.skip(i as int + 1));
            }
            let ghost before = out@;
            let mut ts = self.modules[i].tools();
            let ghost tsm = tools_model(ts@);
            out.append(&mut ts);
            proof {
                assert(tools_model(out@) =~= tools_model(before) + tsm);
                assert((tools_model(before) + tsm) + modules_tools_model(ms.skip(i as int + 1))
                    =~= tools_model(before) + (tsm + modules_tools_model(ms.skip(i as int + 1))));
            }
            i = i + 1;
        }
        proof {
            assert(ms.skip(i as int) =~= Seq::<RegisteredModule>::empty());
            assert(tools_model(out@) + Seq::<ToolModel>::empty() =~= tools_model(out@));
        }
        out
    }

    /// The tool definitions of the modules with the given name only.
    pub fn module_tools(&self, module_name: &str) -> (r: Vec<ToolDefinition>)
        ensures
            tools_model(r@) == scoped_tools_model(self.modules_view(), module_name@),
    {
        let ghost ms = self.modules_view();
        let mut out: Vec<ToolDefinition> = Vec::new();
        let mut i: usize = 0;
        proof {
            assert(ms.skip(0) =~= ms);
            assert(tools_model(out@) =~= Seq::<ToolModel>::empty());
        }
        while i < self.modules.len()
            invariant
                i <= ms.len(),
                ms == self.modules_view(),
                scoped_tools_model(ms, module_name@) == tools_model(out@) + scoped_tools_model(
                    ms.skip(i as int),
                    module_name@,
                ),
            decreases ms.len() - i,
        {
            proof {
                assert(ms.skip(i as int).len() > 0);
                assert(ms.skip(i as int)[0] == ms[i as int]);
                assert(ms.skip(i as int).drop_first() =~= ms.skip(i as int + 1));
            }
            let ghost before = out@;
            let name = self.modules[i].name();
            if str_eq(name.as_str(), module_name) {
                let mut ts = self.modules[i].tools();
                let ghost tsm = tools_model(ts@);
                out.append(&mut ts);
                proof {
                    assert(tools_model(out@) =~= tools_model(before) + tsm);
                    assert((tools_model(before) + tsm) + scoped_tools_model(
                        ms.skip(i as int + 1),
                        module_name@,
                    ) =~= tools_model(before) + (tsm + scoped_tools_model(
                        ms.skip(i as int + 1),
                        module_name@,
                    )));
                }
            } else {
                proof {
                    assert(Seq::<ToolModel>::empty() + scoped_tools_model(
                        ms.skip(i as int + 1),
                        module_name@,
                    ) =~= scoped_tools_model(ms.skip(i as int + 1), module_name@));
                }
            }
            i = i + 1;
        }
        proof {
            assert(ms.skip(i as int) =~= Seq::<RegisteredModule>::empty());
            assert(tools_model(out@) + Seq::<ToolModel>::empty() =~= tools_model(out@));
        }
        out
    }

    /// The names of all registered modules, in order.
    pub fn module_names(&self) -> (r: Vec<String>)
        ensures
            views_of(r@) == self.modules_view().map_values(
                |mm: RegisteredModule| module_name_model(mm),
            ),
    {
        let mut out: Vec<String> = Vec::new();
        let mut i: usize = 0;
        while i < self.modules.len()
            invariant
                i <= self.modules_view().len(),
                out@.len() == i,
                forall|j: int|
                    0 <= j < i ==> (#[trigger] out@[j])@ == module_name_model(
                        self.modules_view()[j],
                    ),
            decreases self.modules_view().len() - i,
        {
            out.push(self.modules[i].name());
            i = i + 1;
        }
        proof {
            assert(views_of(out@) =~= self.modules_view().map_values(
                |mm: RegisteredModule| module_name_model(mm),
            ));
        }
        out
    }

    /// Structured information about each registered module.
    pub fn modules_info(&self) -> (r: Vec<ModuleInfo>)
        ensures
            r@.len() == self.modules_view().len(),
            forall|j: int|
                0 <= j < r@.len() ==> {
                    let m = self.modules_view()[j];
                    &&& (#[trigger] r@[j]).name@ == module_name_model(m)
                    &&& r@[j].description@ == module_description_model(m)
                    &&& r@[j].tool_count == module_tools_model(m).len()
                    &&& views_of(r@[j].tool_names@) == module_tool_names(m)
                },
    {
        let mut out: Vec<ModuleInfo> = Vec::new();
        let mut i: usize = 0;
        while i < self.modules.len()
            invariant
                i <= self.modules_view().len(),
                out@.len() == i,
                forall|j: int|
                    0 <= j < i ==> {
                        let m = self.modules_view()[j];
                        &&& (#[trigger] out@[j]).name@ == module_name_model(m)
                        &&& out@[j].description@ == module_description_model(m)
                        &&& out@[j].tool_count == module_tools_model(m).len()
                        &&& views_of(out@[j].tool_names@) == module_tool_names(m)
                    },
            decreases self.modules_view().len() - i,
        {
            let m = &self.modules[i];
            let defs = m.tools();
            let mut tool_names: Vec<String> = Vec::new();
            let mut k: usize = 0;
            while k < defs.len()
                invariant
                    k <= defs@.len(),
                    tool_names@.len() == k,
                    tools_model(defs@) == module_tools_model(self.modules_view()[i as int]),
                    i < self.modules_view().len(),
                    forall|q: int|
                        0 <= q < k ==> (#[trigger] tool_names@[q])@ == defs@[q].name@,
                decreases defs@.len() - k,
            {
                tool_names.push(defs[k].name.clone());
                k = k + 1;
            }
            proof {
                assert(views_of(tool_names@) =~= module_tool_names(
                    self.modules_view()[i as int],
                ));
            }
            out.push(
                ModuleInfo {
                    name: m.name(),
                    description: m.description(),
                    tool_count: defs.len(),
                    tool_names,
                },
            );
            i = i + 1;
        }
        out
    }
}

/// Summary information about a registered module.
pub struct ModuleInfo {
    pub name: String,
    pub description: String,
    pub tool_count: usize,
    pub tool_names: Vec<String>,
}

/// All tool models of a module sequence, in order.
pub open spec fn modules_tools_model(ms: Seq<RegisteredModule>) -> Seq<ToolModel>
    decreases ms.len(),
{
    if ms.len() == 0 {
        Seq::empty()
    } else {
        module_tools_model(ms[0]) + modules_tools_model(ms.drop_first())
    }
}

/// The tool models of the modules bearing the given name, in order.
pub open spec fn scoped_tools_model(ms: Seq<RegisteredModule>, mname: Seq<char>) -> Seq<ToolModel>
    decreases ms.len(),
{
    if ms.len() == 0 {
        Seq::empty()
    } else {
        (if module_name_model(ms[0]) == mname {
            module_tools_model(ms[0])
        } else {
            Seq::empty()
        }) + scoped_tools_model(ms.drop_first(), mname)
    }
}

/// Two modules cannot both own one tool name: registering a module one of
/// whose tool names is already registered is refused, and — with the
/// registration's contract — the registry, its modules and its tool-name
/// index are left exactly as they were.
pub proof fn lemma_duplicate_tool_rejected(
    reg: ModuleRegistry,
    m: RegisteredModule,
    ti: int,
)
    requires
        0 <= ti < module_tool_names(m).len(),
        reg.has_tool_spec(module_tool_names(m)[ti]),
    ensures
        !can_register(reg, m),
{
}

/// The index entries that registering `m` as module number `owner` adds:
/// one per tool, in the module's order.
pub open spec fn new_entries(m: RegisteredModule, owner: int) -> Seq<(Seq<char>, int)> {
    Seq::new(module_tool_names(m).len(), |i: int| (module_tool_names(m)[i], owner))
}

/// Registration succeeds exactly when none of the module's tool names is
/// already registered, and the module does not declare one name twice.
pub open spec fn can_register(reg: ModuleRegistry, m: RegisteredModule) -> bool {
    &&& forall|i: int|
        0 <= i < module_tool_names(m).len() ==> entry_lookup(
            reg.index_view(),
            #[trigger] module_tool_names(m)[i],
        ) is None
    &&& forall|i: int, j: int|
        0 <= i < j < module_tool_names(m).len() ==> (#[trigger] module_tool_names(m)[i]) != (
        #[trigger] module_tool_names(m)[j])
}

/// The module's tool number `i` collides: its name is already registered,
/// or an earlier tool of the same module has the same name.
pub open spec fn collision_at(reg: ModuleRegistry, m: RegisteredModule, i: int) -> bool {
    ||| entry_lookup(reg.index_view(), module_tool_names(m)[i]) is Some
    ||| exists|j: int| 0 <= j < i && module_tool_names(m)[j] == module_tool_names(m)[i]
}

pub open spec fn first_collision_from(reg: ModuleRegistry, m: RegisteredModule, i: int) -> Option<
    int,
>
    decreases module_tool_names(m).len() - i,
{
    if i < 0 || i >= module_tool_names(m).len() {
        None
    } else if collision_at(reg, m, i) {
        Some(i)
    } else {
        first_collision_from(reg, m, i + 1)
    }
}

/// The first colliding tool of the module, if any.
pub open spec fn first_collision(reg: ModuleRegistry, m: RegisteredModule) -> Option<int> {
    first_collision_from(reg, m, 0)
}

/// The error reported for a rejected registration: it names the colliding
/// tool and both owning modules.
pub open spec fn collision_message(reg: ModuleRegistry, m: RegisteredModule) -> Seq<char> {
    match first_collision(reg, m) {
        None => Seq::empty(),
        Some(i) => {
            let t = module_tool_names(m)[i];
            let owner = match entry_lookup(reg.index_view(), t) {
                Some(o) => module_name_model(reg.modules_view()[o]),
                None => module_name_model(m),
            };
            "Tool '"@ + t + "' from module '"@ + module_name_model(m)
                + "' collides with module '"@ + owner + "'"@
        },
    }
}

proof fn lemma_fc_from(reg: ModuleRegistry, m: RegisteredModule, k: int, i: int)
    requires
        0 <= k <= i < module_tool_names(m).len(),
        collision_at(reg, m, i),
        forall|j: int| k <= j < i ==> !collision_at(reg, m, j),
    ensures
        first_collision_from(reg, m, k) == Some(i),
    decreases i - k,
{
    if k < i {
        lemma_fc_from(reg, m, k + 1, i);
    }
}

pub proof fn lemma_first_collision_is(reg: ModuleRegistry, m: RegisteredModule, i: int)
    requires
        0 <= i < module_tool_names(m).len(),
        collision_at(reg, m, i),
        forall|j: int| 0 <= j < i ==> !collision_at(reg, m, j),
    ensures
        first_collision(reg, m) == Some(i),
{
    lemma_fc_from(reg, m, 0, i);
}

/// Is one of the first `upto` definitions named `name`?
fn name_among(defs: &Vec<ToolDefinition>, upto: usize, name: &str) -> (r: bool)
    requires
        upto <= defs@.len(),
    ensures
        r == exists|j: int| 0 <= j < upto && (#[trigger] defs@[j]).name@ == name@,
{
    let mut j: usize = 0;
    while j < upto
        invariant
            upto <= defs@.len(),
            j <= upto,
            forall|k: int| 0 <= k < j ==> (#[trigger] defs@[k]).name@ != name@,
        decreases upto - j,
    {
        if str_eq(defs[j].name.as_str(), name) {
            return true;
        }
        j = j + 1;
    }
    false
}

proof fn lemma_register_preserves_wf(
    pre: ModuleRegistry,
    m: RegisteredModule,
    post: ModuleRegistry,
)
    requires
        pre.wf(),
        can_register(pre, m),
        post.modules_view() == pre.modules_view().push(m),
        post.index_view() == pre.index_view() + new_entries(
            m,
            pre.modules_view().len() as int,
        ),
    ensures
        post.wf(),
{
    let old_iv = pre.index_view();
    let old_len = pre.modules_view().len() as int;
    let added = new_entries(m, old_len);
    let iv = post.index_view();
    let names = module_tool_names(m);
    assert(iv.len() == old_iv.len() + names.len());
    assert(forall|k: int| 0 <= k < old_iv.len() ==> iv[k] == old_iv[k]);
    assert(forall|k: int|
        old_iv.len() <= k < iv.len() ==> iv[k] == (names[k - old_iv.len()], old_len));
    // every entry's owner is a registered module
    assert forall|k: int| 0 <= k < iv.len() implies 0 <= (#[trigger] iv[k]).1
        < post.modules_view().len() by {
        if k < old_iv.len() {
            assert(0 <= old_iv[k].1 < pre.modules_view().len());
        }
    }
    // no tool name twice
    assert forall|k1: int, k2: int| 0 <= k1 < k2 < iv.len() implies (#[trigger] iv[k1]).0 != (
    #[trigger] iv[k2]).0 by {
        if k2 < old_iv.len() {
        } else if k1 < old_iv.len() {
            // an old entry against a new one: the new name was not registered
            let n = names[k2 - old_iv.len()];
            lemma_entry_lookup_present(old_iv, n);
            assert(entry_lookup(old_iv, n) is None);
            if old_iv[k1].0 == n {
                assert(exists|q: int| 0 <= q < old_iv.len() && (#[trigger] old_iv[q]).0 == n);
            }
        } else {
            // two new entries: the module's names are distinct
            assert(names[k1 - old_iv.len()] != names[k2 - old_iv.len()]);
        }
    }
    // every entry names a tool of its owner
    assert forall|k: int| 0 <= k < iv.len() implies module_tool_names(
        post.modules_view()[iv[k].1],
    ).contains((#[trigger] iv[k]).0) by {
        if k < old_iv.len() {
            assert(post.modules_view()[old_iv[k].1] == pre.modules_view()[old_iv[k].1]);
            assert(module_tool_names(pre.modules_view()[old_iv[k].1]).contains(old_iv[k].0));
        } else {
            assert(post.modules_view()[old_len] == m);
            let ti = k - old_iv.len();
            assert(names[ti] == iv[k].0);
            assert(module_tool_names(m).contains(iv[k].0));
        }
    }
    // every declared tool of every module is indexed
    assert forall|mi: int, ti: int|
        0 <= mi < post.modules_view().len() && 0 <= ti < module_tool_names(
            post.modules_view()[mi],
        ).len() implies entry_lookup(
        iv,
        #[trigger] module_tool_names(post.modules_view()[mi])[ti],
    ) is Some by {
        lemma_entry_lookup_append(old_iv, added, module_tool_names(post.modules_view()[mi])[ti]);
        if mi < old_len {
            assert(post.modules_view()[mi] == pre.modules_view()[mi]);
            assert(entry_lookup(
                old_iv,
                module_tool_names(pre.modules_view()[mi])[ti],
            ) is Some);
        } else {
            assert(post.modules_view()[mi] == m);
            let n = names[ti];
            assert(added[ti].0 == n);
            lemma_entry_lookup_present(added, n);
            assert(entry_lookup(added, n) is Some);
        }
    }
}

/// A registered owner index is in bounds.
pub open spec fn entry_lookup_bounds_helper(reg: &ModuleRegistry, name: Seq<char>) -> bool {
    match reg.owner_of(name) {
        Some(o) => 0 <= o < reg.modules_view().len(),
        None => true,
    }
}

pub proof fn lemma_lookup_in_bounds(reg: &ModuleRegistry, name: Seq<char>)
    requires
        reg.wf(),
    ensures
        entry_lookup_bounds_helper(reg, name),
{
    lemma_entry_lookup_result_is_entry(reg.index_view(), name);
}

/// A successful lookup returns the owner field of some entry with that name.
pub proof fn lemma_entry_lookup_result_is_entry(idx: Seq<(Seq<char>, int)>, name: Seq<char>)
    ensures
        match entry_lookup(idx, name) {
            Some(o) => exists|k: int|
                0 <= k < idx.len() && (#[trigger] idx[k]).0 == name && idx[k].1 == o,
            None => true,
        },
    decreases idx.len(),
{
    if idx.len() > 0 {
        if idx[0].0 == name {
            assert(idx[0].0 == name && idx[0].1 == entry_lookup(idx, name)->0);
        } else {
            lemma_entry_lookup_result_is_entry(idx.drop_first(), name);
            match entry_lookup(idx.drop_first(), name) {
                Some(o) => {
                    let k = choose|k: int|
                        0 <= k < idx.drop_first().len() && (#[trigger] idx.drop_first()[k]).0
                            == name && idx.drop_first()[k].1 == o;
                    assert(idx[k + 1].0 == name && idx[k + 1].1 == o);
                },
                None => {},
            }
        }
    }
}

} // verus!
