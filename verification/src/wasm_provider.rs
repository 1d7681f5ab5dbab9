//! The WebAssembly provider: compiles modules, keeps one isolated store per
//! plugin, and invokes exported functions with type-checked marshalling.
//!
//! Every call into the engine goes through a small trusted wrapper whose
//! contract states what the engine's documentation promises; the
//! decisions around those calls — registration and replacement of plugin
//! instances, the signature pre-check, the result buffer of the declared
//! arity, marshalling both ways — are verified.
//!
//! Isolation: each plugin's linear memory, tables and globals live inside
//! its own store, and no operation ever hands one plugin's store to
//! another. The contracts below say so: an invocation of one plugin leaves
//! every other plugin's instance — store included — unchanged.

use vstd::prelude::*;

use crate::errors::ProviderError;
use crate::strutil::str_eq;
use crate::value::{
    is_invoke_result, is_numeric, is_unmarshalled, provider_value_to_val, spec_zero_val,
    unmarshal_results, ProviderValue, WasmVal, WasmValKind,
};

use wasmtime_wasi::p1::WasiP1Ctx;

verus! {

#[verifier::external_type_specification]
#[verifier::external_body]
pub struct ExEngine(wasmtime::Engine);

#[verifier::external_type_specification]
#[verifier::external_body]
#[verifier::reject_recursive_types(T)]
pub struct ExLinker<T>(wasmtime::Linker<T>);

#[verifier::external_type_specification]
#[verifier::external_body]
#[verifier::reject_recursive_types(T)]
pub struct ExStore<T: 'static>(wasmtime::Store<T>);

#[verifier::external_type_specification]
#[verifier::external_body]
pub struct ExModule(wasmtime::Module);

#[verifier::external_type_specification]
#[verifier::external_body]
pub struct ExInstance(wasmtime::Instance);

#[verifier::external_type_specification]
#[verifier::external_body]
pub struct ExFunc(wasmtime::Func);

#[verifier::external_type_specification]
#[verifier::external_body]
pub struct ExVal(wasmtime::Val);

#[verifier::external_type_specification]
#[verifier::external_body]
pub struct ExWasiP1Ctx(WasiP1Ctx);

/// The per-plugin state a store holds: the plugin's sandboxed
/// system-interface context.
pub struct PluginState {
    /// The WASI context granting stdio, arguments and environment.
    pub wasi: WasiP1Ctx,
}

/// Relies on wasmtime::Engine::new with the default configuration: yields
/// an engine, or fails.
#[verifier::external_body]
fn new_engine() -> (r: Option<wasmtime::Engine>)
{
    wasmtime::Engine::new(&wasmtime::Config::default()).ok()
}

/// Relies on wasmtime::Linker::new: a fresh linker over the engine.
#[verifier::external_body]
fn new_linker(engine: &wasmtime::Engine) -> (r: wasmtime::Linker<PluginState>)
{
    wasmtime::Linker::new(engine)
}

/// Relies on wasmtime_wasi::p1::add_to_linker_sync: registers the
/// synchronous system-interface stubs in the linker, reading each plugin's
/// context out of its own state. Reports whether registration succeeded.
#[verifier::external_body]
fn add_wasi_to_linker(linker: &mut wasmtime::Linker<PluginState>) -> (r: bool)
{
    wasmtime_wasi::p1::add_to_linker_sync(linker, |state: &mut PluginState| &mut state.wasi).is_ok()
}

/// Relies on wasmtime_wasi::WasiCtxBuilder: a fresh per-plugin context with
/// stdio, command-line arguments and environment inherited from the host,
/// no filesystem pre-opened, and no network sockets.
#[verifier::external_body]
fn fresh_plugin_state() -> (r: PluginState)
{
    let wasi = wasmtime_wasi::WasiCtxBuilder::new()
        .inherit_stdio()
        .inherit_args()
        .inherit_env()
        .build_p1();
    PluginState { wasi }
}

/// Relies on wasmtime::Store::new: a fresh store owning the given state;
/// nothing of it is shared with any other store.
#[verifier::external_body]
fn new_store(engine: &wasmtime::Engine, state: PluginState) -> (r: wasmtime::Store<PluginState>)
{
    wasmtime::Store::new(engine, state)
}

/// Relies on wasmtime::Module::new: compiles a module from bytes (or
/// WebAssembly text), or reports the compiler diagnostic.
#[verifier::external_body]
fn compile_module(engine: &wasmtime::Engine, bytes: &[u8]) -> (r: Result<wasmtime::Module, String>)
{
    wasmtime::Module::new(engine, bytes).map_err(|e| e.to_string())
}

/// Relies on wasmtime::Linker::instantiate: instantiates the module in the
/// given store through the linker's registered imports, or reports the
/// diagnostic.
#[verifier::external_body]
fn instantiate_module(
    linker: &wasmtime::Linker<PluginState>,
    store: &mut wasmtime::Store<PluginState>,
    module: &wasmtime::Module,
) -> (r: Result<wasmtime::Instance, String>)
{
    linker.instantiate(&mut *store, module).map_err(|e| e.to_string())
}

/// Relies on wasmtime::Instance::get_func: resolves an export of the given
/// name to a function, if the instance has one.
#[verifier::external_body]
fn get_func(
    instance: &wasmtime::Instance,
    store: &mut wasmtime::Store<PluginState>,
    name: &str,
) -> (r: Option<wasmtime::Func>)
{
    instance.get_func(&mut *store, name)
}

/// Relies on wasmtime::Func::ty: the declared result kinds of the
/// function's signature, in declaration order; every non-numeric kind
/// reads as `Other`.
#[verifier::external_body]
fn func_result_kinds(func: &wasmtime::Func, store: &wasmtime::Store<PluginState>) -> (r: Vec<
    WasmValKind,
>)
{
    func.ty(store)
        .results()
        .map(|t| match t {
            wasmtime::ValType::I32 => WasmValKind::I32,
            wasmtime::ValType::I64 => WasmValKind::I64,
            wasmtime::ValType::F32 => WasmValKind::F32,
            wasmtime::ValType::F64 => WasmValKind::F64,
            _ => WasmValKind::Other,
        })
        .collect()
}

/// Convert numeric values to engine-native values, one for one.
#[verifier::external_body]
fn raw_vals(vs: &Vec<WasmVal>) -> (r: Vec<wasmtime::Val>)
    ensures
        r@.len() == vs@.len(),
{
    vs.iter()
        .map(|v| match *v {
            WasmVal::I32(x) => wasmtime::Val::I32(x),
            WasmVal::I64(x) => wasmtime::Val::I64(x),
            WasmVal::F32(x) => wasmtime::Val::F32(x),
            WasmVal::F64(x) => wasmtime::Val::F64(x),
        })
        .collect()
}

/// Convert engine-native values back, one for one; a non-numeric value is
/// reported instead of converted.
#[verifier::external_body]
fn from_raw_vals(vs: &Vec<wasmtime::Val>) -> (r: Result<Vec<WasmVal>, String>)
    ensures
        r matches Ok(ws) ==> ws@.len() == vs@.len(),
{
    vs.iter()
        .map(|v| match *v {
            wasmtime::Val::I32(x) => Ok(WasmVal::I32(x)),
            wasmtime::Val::I64(x) => Ok(WasmVal::I64(x)),
            wasmtime::Val::F32(x) => Ok(WasmVal::F32(x)),
            wasmtime::Val::F64(x) => Ok(WasmVal::F64(x)),
            ref other => Err(format!("Unsupported WASM value type: {:?}", other)),
        })
        .collect()
}

/// Relies on wasmtime::Func::call: runs the function in the given store —
/// which must be the store its instance lives in — writing the results
/// into the buffer, whose length a slice cannot change; a trap or a
/// signature mismatch is reported as text.
#[verifier::external_body]
fn call_func(
    func: &wasmtime::Func,
    store: &mut wasmtime::Store<PluginState>,
    args: &Vec<wasmtime::Val>,
    results: &mut Vec<wasmtime::Val>,
) -> (r: Result<(), String>)
    ensures
        final(results)@.len() == old(results)@.len(),
{
    func.call(&mut *store, args.as_slice(), results.as_mut_slice()).map_err(|e| e.to_string())
}

/// A plugin instance: its isolated store, its instantiated module, and its
/// name. Two plugin instances never share a store.
pub struct PluginInstance {
    /// The isolated store holding the plugin's state and sandbox context.
    pub store: wasmtime::Store<PluginState>,
    /// The instantiated module.
    pub instance: wasmtime::Instance,
    /// The plugin's name.
    pub module_name: String,
}

/// The provider's engine state: a shared engine and a linker with the
/// system-interface stubs pre-registered. Plugins may only be instantiated
/// through this linker on this engine, which travel together here so the
/// two cannot be mismatched.
pub struct WasmInstance {
    /// The shared engine.
    pub engine: wasmtime::Engine,
    /// The shared linker.
    pub linker: wasmtime::Linker<PluginState>,
}

/// Look a plugin up by name: the first instance registered under it.
pub open spec fn spec_plugins_lookup(
    ps: Seq<(String, PluginInstance)>,
    name: Seq<char>,
) -> Option<PluginInstance>
    decreases ps.len(),
{
    if ps.len() == 0 {
        None
    } else if ps[0].0@ == name {
        Some(ps[0].1)
    } else {
        spec_plugins_lookup(ps.drop_first(), name)
    }
}

/// A lookup skips any prefix of instances whose names all differ.
proof fn lemma_plugins_lookup_skip(ps: Seq<(String, PluginInstance)>, name: Seq<char>, i: int)
    requires
        0 <= i <= ps.len(),
        forall|j: int| 0 <= j < i ==> ps[j].0@ != name,
    ensures
        spec_plugins_lookup(ps, name) == spec_plugins_lookup(ps.skip(i), name),
    decreases i,
{
    if i > 0 {
        lemma_plugins_lookup_skip(ps.drop_first(), name, i - 1);
        assert(ps.drop_first().skip(i - 1) =~= ps.skip(i));
    } else {
        assert(ps.skip(0) =~= ps);
    }
}

/// Updating the instance registered at `i` leaves every other name's
/// lookup unchanged.
proof fn lemma_plugins_lookup_update(
    ps: Seq<(String, PluginInstance)>,
    i: int,
    v: (String, PluginInstance),
)
    requires
        0 <= i < ps.len(),
        v.0@ == ps[i].0@,
    ensures
        forall|k: Seq<char>|
            k != ps[i].0@ ==> spec_plugins_lookup(ps.update(i, v), k) == spec_plugins_lookup(
                ps,
                k,
            ),
    decreases i,
{
    let r = ps.update(i, v);
    if i == 0 {
        assert(r.drop_first() =~= ps.drop_first());
        assert forall|k: Seq<char>|
            k != ps[0].0@ implies spec_plugins_lookup(r, k) == spec_plugins_lookup(ps, k) by {
            assert(spec_plugins_lookup(r, k) == spec_plugins_lookup(r.drop_first(), k));
            assert(spec_plugins_lookup(ps, k) == spec_plugins_lookup(ps.drop_first(), k));
        }
    } else {
        lemma_plugins_lookup_update(ps.drop_first(), i - 1, v);
        assert(r.drop_first() =~= ps.drop_first().update(i - 1, v));
        assert forall|k: Seq<char>|
            k != ps[i].0@ implies spec_plugins_lookup(r, k) == spec_plugins_lookup(ps, k) by {
            if ps[0].0@ == k {
            } else {
                assert(spec_plugins_lookup(r, k) == spec_plugins_lookup(r.drop_first(), k));
                assert(spec_plugins_lookup(ps, k) == spec_plugins_lookup(ps.drop_first(), k));
            }
        }
    }
}

/// Appending an instance under a fresh name leaves every other name's
/// lookup unchanged and registers the new one.
proof fn lemma_plugins_lookup_push(ps: Seq<(String, PluginInstance)>, v: (String, PluginInstance))
    requires
        forall|j: int| 0 <= j < ps.len() ==> ps[j].0@ != v.0@,
    ensures
        spec_plugins_lookup(ps.push(v), v.0@) == Some(v.1),
        forall|k: Seq<char>|
            k != v.0@ ==> spec_plugins_lookup(ps.push(v), k) == spec_plugins_lookup(ps, k),
    decreases ps.len(),
{
    if ps.len() == 0 {
        assert(ps.push(v)[0] == v);
        assert forall|k: Seq<char>|
            k != v.0@ implies spec_plugins_lookup(ps.push(v), k) == spec_plugins_lookup(
            ps,
            k,
        ) by {
            assert(ps.push(v).drop_first() =~= Seq::<(String, PluginInstance)>::empty());
            assert(spec_plugins_lookup(ps.push(v), k) == spec_plugins_lookup(
                ps.push(v).drop_first(),
                k,
            ));
        }
    } else {
        lemma_plugins_lookup_push(ps.drop_first(), v);
        assert(ps.push(v).drop_first() =~= ps.drop_first().push(v));
        assert(ps.push(v)[0] == ps[0]);
        assert(spec_plugins_lookup(ps.push(v), v.0@) == spec_plugins_lookup(
            ps.drop_first().push(v),
            v.0@,
        ));
        assert forall|k: Seq<char>|
            k != v.0@ implies spec_plugins_lookup(ps.push(v), k) == spec_plugins_lookup(
            ps,
            k,
        ) by {
            if ps[0].0@ != k {
                assert(spec_plugins_lookup(ps.push(v), k) == spec_plugins_lookup(
                    ps.drop_first().push(v),
                    k,
                ));
                assert(spec_plugins_lookup(ps, k) == spec_plugins_lookup(ps.drop_first(), k));
            }
        }
    }
}

/// The WebAssembly provider: engine state shared across plugins, and the
/// registry of loaded plugin instances.
pub struct WasmProvider {
    instance: Option<WasmInstance>,
    plugins: Vec<(String, PluginInstance)>,
}

impl WasmProvider {
    /// Whether `init` has built the engine state.
    pub closed spec fn initialized(self) -> bool {
        self.instance is Some
    }

    /// The instance registered under a name, if any.
    pub closed spec fn plugin_lookup(self, name: Seq<char>) -> Option<PluginInstance> {
        spec_plugins_lookup(self.plugins@, name)
    }

    /// Whether a plugin of the given name is loaded.
    pub open spec fn is_loaded(self, name: Seq<char>) -> bool {
        self.plugin_lookup(name) is Some
    }

    /// How many plugins are loaded.
    pub closed spec fn loaded_count(self) -> nat {
        self.plugins@.len()
    }

    /// Well-formedness: no two loaded plugins share a name.
    pub closed spec fn wf(self) -> bool {
        forall|i: int, j: int|
            0 <= i < j < self.plugins@.len() ==> self.plugins@[i].0@ != self.plugins@[j].0@
    }

    /// A fresh provider: not initialized, nothing loaded.
    pub fn new() -> (r: WasmProvider)
        ensures
            !r.initialized(),
            r.loaded_count() == 0,
            forall|k: Seq<char>| !r.is_loaded(k),
            r.wf(),
    {
        WasmProvider { instance: None, plugins: Vec::new() }
    }

    /// Construct the engine state: an engine, and a linker with the
    /// system-interface stubs registered. A second call builds fresh,
    /// equivalent state; loaded plugins are unaffected either way.
    pub fn init(&mut self) -> (r: Result<(), ProviderError>)
        ensures
            final(self).wf() == old(self).wf(),
            final(self).loaded_count() == old(self).loaded_count(),
            forall|k: Seq<char>| final(self).plugin_lookup(k) == old(self).plugin_lookup(k),
            r is Ok ==> final(self).initialized(),
            r is Err ==> r->Err_0 is InitFailed && *final(self) == *old(self),
    {
        let engine = match new_engine() {
            Some(e) => e,
            None => {
                return Err(ProviderError::InitFailed);
            },
        };
        let mut linker = new_linker(&engine);
        if !add_wasi_to_linker(&mut linker) {
            return Err(ProviderError::InitFailed);
        }
        self.instance = Some(WasmInstance { engine, linker });
        Ok(())
    }

    /// Whether a plugin of the given name is currently loaded.
    pub fn has_plugin(&self, name: &str) -> (r: bool)
        ensures
            r == self.is_loaded(name@),
    {
        match self.find_plugin(name) {
            Some(_) => true,
            None => false,
        }
    }

    /// The index of the plugin registered under the name.
    fn find_plugin(&self, name: &str) -> (r: Option<usize>)
        ensures
            match r {
                Some(i) => {
                    &&& i < self.plugins@.len()
                    &&& self.plugins@[i as int].0@ == name@
                    &&& forall|j: int| 0 <= j < i ==> self.plugins@[j].0@ != name@
                    &&& self.plugin_lookup(name@) == Some(self.plugins@[i as int].1)
                },
                None => {
                    &&& self.plugin_lookup(name@) is None
                    &&& forall|j: int| 0 <= j < self.plugins@.len() ==> self.plugins@[j].0@ != name@
                },
            },
    {
        let mut i: usize = 0;
        while i < self.plugins.len()
            invariant
                i <= self.plugins@.len(),
                forall|j: int| 0 <= j < i ==> self.plugins@[j].0@ != name@,
            decreases self.plugins@.len() - i,
        {
            if str_eq(self.plugins[i].0.as_str(), name) {
                proof {
                    lemma_plugins_lookup_skip(self.plugins@, name@, i as int);
                    assert(self.plugins@.skip(i as int)[0] == self.plugins@[i as int]);
                }
                return Some(i);
            }
            i = i + 1;
        }
        proof {
            lemma_plugins_lookup_skip(self.plugins@, name@, self.plugins@.len() as int);
            assert(self.plugins@.skip(self.plugins@.len() as int) =~= Seq::<(
                String,
                PluginInstance,
            )>::empty());
        }
        None
    }

    /// Compile a plugin's module and register a fresh, isolated instance of
    /// it under the plugin's name; a prior instance of that name is dropped
    /// and replaced. The module bytes are the content of the plugin's entry
    /// file.
    ///
    /// Compilation and instantiation are decided by the engine; whatever
    /// the outcome, no other plugin's instance changes.
    pub fn load(&mut self, plugin_name: &str, module_bytes: &[u8]) -> (r: Result<
        (),
        ProviderError,
    >)
        requires
            old(self).wf(),
        ensures
            final(self).wf(),
            final(self).initialized() == old(self).initialized(),
            !old(self).initialized() ==> (r matches Err(ProviderError::LoadFailed(m)) && m@
                == not_init_msg() && *final(self) == *old(self)),
            r is Err ==> r->Err_0 is LoadFailed && *final(self) == *old(self),
            r is Ok ==> {
                &&& old(self).initialized()
                &&& final(self).is_loaded(plugin_name@)
                &&& forall|k: Seq<char>|
                    k != plugin_name@ ==> final(self).plugin_lookup(k) == old(self).plugin_lookup(
                        k,
                    )
                &&& forall|k: Seq<char>|
                    final(self).is_loaded(k) == (old(self).is_loaded(k) || k == plugin_name@)
            },
    {
        let inst = match &self.instance {
            Some(i) => i,
            None => {
                return Err(
                    ProviderError::LoadFailed(
                        String::from_str("Provider not initialized. Call init() first."),
                    ),
                );
            },
        };
        let module = match compile_module(&inst.engine, module_bytes) {
            Ok(m) => m,
            Err(e) => {
                let mut msg = String::from_str("Failed to compile plugin '");
                msg.append(plugin_name);
                msg.append("': ");
                msg.append(e.as_str());
                return Err(ProviderError::LoadFailed(msg));
            },
        };
        let state = fresh_plugin_state();
        let mut store = new_store(&inst.engine, state);
        let wasm_instance = match instantiate_module(&inst.linker, &mut store, &module) {
            Ok(i) => i,
            Err(e) => {
                let mut msg = String::from_str("Failed to instantiate plugin '");
                msg.append(plugin_name);
                msg.append("': ");
                msg.append(e.as_str());
                return Err(ProviderError::LoadFailed(msg));
            },
        };
        let pi = PluginInstance {
            store,
            instance: wasm_instance,
            module_name: String::from_str(plugin_name),
        };
        let nm = String::from_str(plugin_name);
        match self.find_plugin(plugin_name) {
            Some(idx) => {
                let ghost old_ps = self.plugins@;
                let pair = (nm, pi);
                let ghost pair_g = pair;
                proof {
                    lemma_plugins_lookup_update(old_ps, idx as int, pair_g);
                }
                self.plugins.remove(idx);
                self.plugins.insert(idx, pair);
                proof {
                    assert(self.plugins@ =~= old_ps.update(idx as int, pair_g));
                    lemma_plugins_lookup_skip(self.plugins@, plugin_name@, idx as int);
                    assert(self.plugins@.skip(idx as int)[0] == pair_g);
                    assert(self.plugin_lookup(plugin_name@) == Some(pair_g.1));
                    assert forall|i: int, j: int|
                        0 <= i < j < self.plugins@.len() implies self.plugins@[i].0@
                        != self.plugins@[j].0@ by {
                        assert(old_ps[i].0@ != old_ps[j].0@);
                    }
                }
            },
            None => {
                let ghost old_ps = self.plugins@;
                let pair = (nm, pi);
                let ghost pair_g = pair;
                proof {
                    lemma_plugins_lookup_push(old_ps, pair_g);
                }
                self.plugins.push(pair);
                proof {
                    assert(self.plugins@ =~= old_ps.push(pair_g));
                    assert forall|i: int, j: int|
                        0 <= i < j < self.plugins@.len() implies self.plugins@[i].0@
                        != self.plugins@[j].0@ by {
                        if j < old_ps.len() {
                            assert(old_ps[i].0@ != old_ps[j].0@);
                        }
                    }
                }
            },
        }
        Ok(())
    }

    /// Resolve a loaded plugin's exported function, marshal the arguments,
    /// execute, and marshal the results back.
    ///
    /// Only numeric arguments cross the boundary, and the declared result
    /// kinds are checked before the call is made. Whatever the guest does,
    /// the set of loaded plugins is unchanged and every other plugin's
    /// instance — its store, memory, and globals — is left untouched.
    pub fn invoke(&mut self, plugin_name: &str, function: &str, args: Vec<ProviderValue>) -> (r:
        Result<ProviderValue, ProviderError>)
        requires
            old(self).wf(),
        ensures
            final(self).wf(),
            final(self).initialized() == old(self).initialized(),
            forall|k: Seq<char>| final(self).is_loaded(k) == old(self).is_loaded(k),
            forall|k: Seq<char>|
                k != plugin_name@ ==> final(self).plugin_lookup(k) == old(self).plugin_lookup(k),
            !old(self).is_loaded(plugin_name@) ==> (r matches Err(ProviderError::LoadFailed(m))
                && m@ == plugin_not_found_msg(plugin_name@) && *final(self) == *old(self)),
            old(self).is_loaded(plugin_name@) && r is Err ==> r->Err_0 is InvocationFailed,
            old(self).is_loaded(plugin_name@) && (exists|i: int|
                0 <= i < args@.len() && !is_numeric(#[trigger] args@[i])) ==> r is Err,
            r matches Ok(v) ==> is_invoke_result(v) && (exists|rs: Seq<WasmVal>| is_unmarshalled(
                rs,
                v,
            )),
    {
        let idx = match self.find_plugin(plugin_name) {
            Some(i) => i,
            None => {
                let mut msg = String::from_str("Plugin '");
                msg.append(plugin_name);
                msg.append("' not found");
                return Err(ProviderError::LoadFailed(msg));
            },
        };
        let ghost old_ps = self.plugins@;
        let (nm, mut pi) = self.plugins.remove(idx);
        let out = invoke_loaded(&mut pi, plugin_name, function, &args);
        let pair = (nm, pi);
        let ghost pair_g = pair;
        proof {
            lemma_plugins_lookup_update(old_ps, idx as int, pair_g);
        }
        self.plugins.insert(idx, pair);
        proof {
            assert(self.plugins@ =~= old_ps.update(idx as int, pair_g));
            lemma_plugins_lookup_skip(self.plugins@, plugin_name@, idx as int);
            assert(self.plugins@.skip(idx as int)[0] == pair_g);
            assert(self.plugin_lookup(plugin_name@) == Some(pair_g.1));
            assert forall|i: int, j: int|
                0 <= i < j < self.plugins@.len() implies self.plugins@[i].0@
                != self.plugins@[j].0@ by {
                assert(old_ps[i].0@ != old_ps[j].0@);
            }
        }
        out
    }

    /// Host-function injection is reserved by the provider contract; this
    /// engine does not implement it, and reports so.
    pub fn inject(&mut self) -> (r: Result<(), ProviderError>)
        ensures
            *final(self) == *old(self),
            r matches Err(e) && e matches ProviderError::InjectionFailed(m) && m@
                == "not implemented"@,
    {
        Err(ProviderError::InjectionFailed(String::from_str("not implemented")))
    }

    /// Instance teardown is reserved by the provider contract; this engine
    /// does not implement it, and reports so.
    pub fn unload(&mut self) -> (r: Result<(), ProviderError>)
        ensures
            *final(self) == *old(self),
            r matches Err(e) && e matches ProviderError::UnloadFailed(m) && m@
                == "not implemented"@,
    {
        Err(ProviderError::UnloadFailed(String::from_str("not implemented")))
    }
}

/// The message reported when a plugin is loaded before `init`.
pub open spec fn not_init_msg() -> Seq<char> {
    "Provider not initialized. Call init() first."@
}

/// The message reported when the named plugin is not loaded.
pub open spec fn plugin_not_found_msg(p: Seq<char>) -> Seq<char> {
    "Plugin '"@ + p + "' not found"@
}

/// Execute an exported function of one plugin instance.
///
/// The signature pre-check runs before the call: a non-numeric argument or
/// a non-numeric declared result kind is rejected and the guest is never
/// entered.
fn invoke_loaded(
    pi: &mut PluginInstance,
    plugin_name: &str,
    function: &str,
    args: &Vec<ProviderValue>,
) -> (r: Result<ProviderValue, ProviderError>)
    ensures
        r is Err ==> r->Err_0 is InvocationFailed,
        (exists|i: int| 0 <= i < args@.len() && !is_numeric(#[trigger] args@[i])) ==> r is Err,
        r matches Ok(v) ==> is_invoke_result(v) && (exists|rs: Seq<WasmVal>| is_unmarshalled(
            rs,
            v,
        )),
{
    let func = match get_func(&pi.instance, &mut pi.store, function) {
        Some(f) => f,
        None => {
            let mut msg = String::from_str("Function '");
            msg.append(function);
            msg.append("' not found in plugin '");
            msg.append(plugin_name);
            msg.append("'");
            return Err(ProviderError::InvocationFailed(msg));
        },
    };
    let mut wasm_args: Vec<WasmVal> = Vec::new();
    let mut i: usize = 0;
    while i < args.len()
        invariant
            i <= args@.len(),
            wasm_args@.len() == i,
            forall|j: int| 0 <= j < i ==> is_numeric(#[trigger] args@[j]),
        decreases args@.len() - i,
    {
        match provider_value_to_val(&args[i]) {
            Ok(w) => {
                wasm_args.push(w);
            },
            Err(e) => {
                return Err(e);
            },
        }
        i = i + 1;
    }
    let kinds = func_result_kinds(&func, &pi.store);
    let mut buf: Vec<WasmVal> = Vec::new();
    let mut j: usize = 0;
    while j < kinds.len()
        invariant
            j <= kinds@.len(),
            buf@.len() == j,
            forall|k: int| 0 <= k < j ==> buf@[k] == spec_zero_val(#[trigger] kinds@[k]),
        decreases kinds@.len() - j,
    {
        let zero = match kinds[j] {
            WasmValKind::I32 => WasmVal::I32(0),
            WasmValKind::I64 => WasmVal::I64(0),
            WasmValKind::F32 => WasmVal::F32(0),
            WasmValKind::F64 => WasmVal::F64(0),
            WasmValKind::Other => {
                let mut msg = String::from_str("WASM function '");
                msg.append(function);
                msg.append("' in plugin '");
                msg.append(plugin_name);
                msg.append(
                    "' returns an unsupported type. Only I32, I64, F32, F64 are supported.",
                );
                return Err(ProviderError::InvocationFailed(msg));
            },
        };
        buf.push(zero);
        j = j + 1;
    }
    let raw_args = raw_vals(&wasm_args);
    let mut raw_buf = raw_vals(&buf);
    match call_func(&func, &mut pi.store, &raw_args, &mut raw_buf) {
        Ok(()) => {},
        Err(e) => {
            let mut msg = String::from_str("Failed to call function '");
            msg.append(function);
            msg.append("' in plugin '");
            msg.append(plugin_name);
            msg.append("': ");
            msg.append(e.as_str());
            return Err(ProviderError::InvocationFailed(msg));
        },
    }
    let results = match from_raw_vals(&raw_buf) {
        Ok(vs) => vs,
        Err(m) => {
            return Err(ProviderError::InvocationFailed(m));
        },
    };
    let v = unmarshal_results(&results);
    proof {
        assert(is_unmarshalled(results@, v));
    }
    Ok(v)
}

} // verus!
