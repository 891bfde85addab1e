//! The dynamic-module lifecycle manager.
//!
//! Mapping a module into the process, probing its optional entry points and
//! calling them are platform work that the embedding program performs; it
//! reports what it saw as a [`ModuleObservation`]. Everything the loader
//! decides from those observations — which modules are accepted, with what
//! version verdict, what the active set becomes, and when an unload must be
//! refused — is here, and is what the contracts pin down.

use vstd::prelude::*;

use crate::error::{Error, WindowsError};
use crate::version::{LoaderVersion, REQUIRED_MAJOR};

verus! {

/// One active module: its name, its opaque module handle, and whether it
/// went through initialization (an initialized module may only be unloaded
/// through its uninitialize entry point).
#[derive(Debug)]
pub struct Plugin {
    pub name: String,
    pub handle: u64,
    pub initialized: bool,
}

impl Clone for Plugin {
    fn clone(&self) -> (r: Self)
        ensures
            r == *self,
    {
        Plugin { name: self.name.clone(), handle: self.handle, initialized: self.initialized }
    }
}

/// A module as the loader's contracts see it.
pub ghost struct PluginModel {
    pub name: Seq<char>,
    pub handle: u64,
    pub initialized: bool,
}

/// The model of one module value.
pub open spec fn plugin_model(p: Plugin) -> PluginModel {
    PluginModel { name: p.name@, handle: p.handle, initialized: p.initialized }
}

/// What the embedding program observed while loading one module file.
#[derive(Debug, Clone)]
pub enum ModuleObservation {
    /// No module file of that name exists.
    Missing,
    /// The platform failed to map the module.
    LoadFailed(WindowsError),
    /// The module was mapped. `init` is the initialization entry point's
    /// return code, or `None` when the module offers none; `version` is
    /// what the version-query entry point reported, or `None` when the
    /// module offers none (the embedding program probes the version only
    /// for a module whose initialization did not fail).
    Loaded { handle: u64, init: Option<i32>, version: Option<LoaderVersion> },
}

/// The loader's verdict over one observation.
pub ghost enum LoadVerdict {
    /// The module joins the active set.
    Accepted,
    /// No module file of that name exists.
    NoFile,
    /// The platform failed to map the module.
    FailedToMap(WindowsError),
    /// The initialization entry point returned this nonzero code.
    InitRejected(i32),
    /// The module wants another major version.
    VersionRejected(LoaderVersion),
}

/// The lifecycle rule: a mapped module is rejected when its initialization
/// entry point fails, or when it reports a version whose major part is
/// nonzero and differs from the one this runtime offers. A module that
/// reports no version, or major version zero, is exempt from the version
/// check.
pub open spec fn load_verdict(obs: ModuleObservation) -> LoadVerdict {
    match obs {
        ModuleObservation::Missing => LoadVerdict::NoFile,
        ModuleObservation::LoadFailed(w) => LoadVerdict::FailedToMap(w),
        ModuleObservation::Loaded { handle, init, version } => {
            let init_code = match init {
                Option::Some(c) => c,
                Option::None => 0,
            };
            if init_code != 0 {
                LoadVerdict::InitRejected(init_code)
            } else {
                match version {
                    Option::Some(v) => {
                        if v.major != 0 && v.major != REQUIRED_MAJOR {
                            LoadVerdict::VersionRejected(v)
                        } else {
                            LoadVerdict::Accepted
                        }
                    },
                    Option::None => LoadVerdict::Accepted,
                }
            }
        },
    }
}

/// Whether an accepted module earns the "no version reported" warning: it
/// offers no version-query entry point, or reports major version zero.
pub open spec fn version_unreported(obs: ModuleObservation) -> bool {
    match obs {
        ModuleObservation::Loaded { handle, init, version } => match version {
            Option::Some(v) => v.major == 0,
            Option::None => true,
        },
        _ => false,
    }
}

/// The handle of a mapped module's observation.
pub open spec fn observed_handle(obs: ModuleObservation) -> u64 {
    match obs {
        ModuleObservation::Loaded { handle, init, version } => handle,
        _ => 0,
    }
}

/// The model of the module that an accepted observation activates.
pub open spec fn accepted_model(name: Seq<char>, obs: ModuleObservation) -> PluginModel {
    PluginModel { name: name, handle: observed_handle(obs), initialized: true }
}

/// The models of a list of modules.
pub open spec fn models_of(s: Seq<Plugin>) -> Seq<PluginModel> {
    s.map(|i: int, p: Plugin| plugin_model(p))
}

/// Decide whether an accepted module should be reported as versionless.
pub fn version_warning(obs: &ModuleObservation) -> (r: bool)
    ensures
        r == version_unreported(*obs),
{
    match obs {
        ModuleObservation::Loaded { handle, init, version } => match version {
            Option::Some(v) => v.major == 0,
            Option::None => true,
        },
        _ => false,
    }
}

/// Apply the lifecycle rule to one observation and build the module that
/// would join the active set.
pub fn init_plugin(name: &str, obs: &ModuleObservation) -> (r: Result<Plugin, Error>)
    ensures
        match load_verdict(*obs) {
            LoadVerdict::Accepted => r is Ok && plugin_model(r->Ok_0) == accepted_model(
                name@,
                *obs,
            ),
            LoadVerdict::NoFile => r is Err && r->Err_0 is PluginNotFound
                && r->Err_0->PluginNotFound_0@ == name@,
            LoadVerdict::FailedToMap(w) => r == Result::<Plugin, Error>::Err(Error::Windows(w)),
            LoadVerdict::InitRejected(c) => r == Result::<Plugin, Error>::Err(Error::InitPlugin(c)),
            LoadVerdict::VersionRejected(v) => r == Result::<Plugin, Error>::Err(
                Error::IncompatiblePluginRequiredVersion(v),
            ),
        },
{
    match obs {
        ModuleObservation::Missing => Err(Error::PluginNotFound(name.to_owned())),
        ModuleObservation::LoadFailed(w) => Err(Error::Windows(w.clone())),
        ModuleObservation::Loaded { handle, init, version } => {
            let init_code: i32 = match init {
                Option::Some(c) => *c,
                Option::None => 0,
            };
            if init_code != 0 {
                return Err(Error::InitPlugin(init_code));
            }
            if let Option::Some(v) = version {
                if v.major != 0 && v.major != REQUIRED_MAJOR {
                    return Err(Error::IncompatiblePluginRequiredVersion(*v));
                }
            }
            Ok(Plugin { name: name.to_owned(), handle: *handle, initialized: true })
        },
    }
}

/// The models of the modules that a list of observations activates, in
/// order, skipping every rejected one.
pub open spec fn accepted_models(obs: Seq<(String, ModuleObservation)>) -> Seq<PluginModel>
    decreases obs.len(),
{
    if obs.len() == 0 {
        Seq::empty()
    } else {
        accepted_models(obs.drop_last()) + (if load_verdict(obs.last().1) is Accepted {
            seq![accepted_model(obs.last().0@, obs.last().1)]
        } else {
            Seq::empty()
        })
    }
}

/// The active set with every module of one name removed.
pub open spec fn remove_named(s: Seq<PluginModel>, name: Seq<char>) -> Seq<PluginModel>
    decreases s.len(),
{
    if s.len() == 0 {
        Seq::empty()
    } else {
        remove_named(s.drop_last(), name) + (if s.last().name == name {
            Seq::empty()
        } else {
            seq![s.last()]
        })
    }
}

/// The first index holding a module of one name.
pub open spec fn find_named(s: Seq<PluginModel>, name: Seq<char>) -> Option<int> {
    if exists|i: int| 0 <= i < s.len() && s[i].name == name {
        Some(choose|i: int| 0 <= i < s.len() && s[i].name == name && forall|j: int|
            0 <= j < i ==> s[j].name != name)
    } else {
        None
    }
}

/// The modules of one name removed, at the level of module values.
pub open spec fn remove_named_plugins(s: Seq<Plugin>, name: Seq<char>) -> Seq<Plugin>
    decreases s.len(),
{
    if s.len() == 0 {
        Seq::empty()
    } else {
        remove_named_plugins(s.drop_last(), name) + (if s.last().name@ == name {
            Seq::empty()
        } else {
            seq![s.last()]
        })
    }
}

/// Removing by name commutes with taking models.
proof fn lemma_remove_named_models(s: Seq<Plugin>, name: Seq<char>)
    ensures
        models_of(remove_named_plugins(s, name)) == remove_named(models_of(s), name),
    decreases s.len(),
{
    if s.len() > 0 {
        lemma_remove_named_models(s.drop_last(), name);
        assert(models_of(s).drop_last() =~= models_of(s.drop_last()));
        assert(models_of(s).last() == plugin_model(s.last()));
        if s.last().name@ == name {
            assert(remove_named_plugins(s, name) =~= remove_named_plugins(s.drop_last(), name));
            assert(remove_named(models_of(s), name) =~= remove_named(
                models_of(s.drop_last()),
                name,
            ));
        } else {
            assert(models_of(remove_named_plugins(s, name)) =~= models_of(
                remove_named_plugins(s.drop_last(), name),
            ).push(plugin_model(s.last())));
            assert(remove_named(models_of(s), name) =~= remove_named(
                models_of(s.drop_last()),
                name,
            ).push(plugin_model(s.last())));
        }
    }
}

/// The active list with every module of one name left out, the others kept
/// in order.
fn retain_others(plugins: &Vec<Plugin>, name: &str) -> (r: Vec<Plugin>)
    ensures
        models_of(r@) == remove_named(models_of(plugins@), name@),
{
    let key: String = name.to_owned();
    let n = plugins.len();
    let mut kept: Vec<Plugin> = Vec::new();
    let mut i: usize = 0;
    while i < n
        invariant
            n == plugins@.len(),
            i <= n,
            key@ == name@,
            kept@ == remove_named_plugins(plugins@.take(i as int), name@),
        decreases n - i,
    {
        proof {
            let pre = plugins@.take(i as int);
            let ext = plugins@.take(i + 1);
            assert(ext.drop_last() =~= pre);
            assert(ext.last() == plugins@[i as int]);
        }
        if !(plugins[i].name == key) {
            let p = plugins[i].clone();
            kept.push(p);
            proof {
                assert(kept@ =~= remove_named_plugins(plugins@.take(i + 1), name@));
            }
        } else {
            proof {
                assert(kept@ =~= remove_named_plugins(plugins@.take(i + 1), name@));
            }
        }
        i += 1;
    }
    proof {
        assert(plugins@.take(n as int) =~= plugins@);
        lemma_remove_named_models(plugins@, name@);
    }
    kept
}

/// What the embedding program observed while unloading one module.
#[derive(Debug, Clone)]
pub enum UnloadOutcome {
    /// The module offers no uninitialize entry point.
    UninitMissing,
    /// The uninitialize entry point returned this nonzero code.
    UninitFailed(i32),
    /// The platform failed to unmap the module.
    UnmapFailed,
    /// Uninitialization (where needed) and unmapping both succeeded.
    Unloaded,
}

/// The dynamic-module lifecycle manager: the active set, in load order.
pub struct PluginLoader {
    plugins: Vec<Plugin>,
}

impl View for PluginLoader {
    type V = Seq<PluginModel>;

    closed spec fn view(&self) -> Seq<PluginModel> {
        models_of(self.plugins@)
    }
}

impl PluginLoader {
    /// An empty active set.
    pub fn new() -> (r: PluginLoader)
        ensures
            r@ == Seq::<PluginModel>::empty(),
    {
        let r = PluginLoader { plugins: Vec::new() };
        proof {
            assert(r@ =~= Seq::<PluginModel>::empty());
        }
        r
    }

    /// How many modules are active.
    pub fn active_count(&self) -> (n: usize)
        ensures
            n == self@.len(),
    {
        self.plugins.len()
    }

    /// Whether a module of this name is active.
    pub fn is_active(&self, name: &str) -> (r: bool)
        ensures
            r == (find_named(self@, name@) is Some),
    {
        let key: String = name.to_owned();
        let n = self.plugins.len();
        let mut i: usize = 0;
        while i < n
            invariant
                n == self.plugins@.len(),
                i <= n,
                key@ == name@,
                forall|j: int| 0 <= j < i ==> self@[j].name != name@,
            decreases n - i,
        {
            if self.plugins[i].name == key {
                assert(self@[i as int].name == name@);
                return true;
            }
            i += 1;
        }
        return false;
    }

    /// Load one module from its observation: apply the lifecycle rule and,
    /// on acceptance, append it to the active set.
    pub fn load(&mut self, name: &str, obs: &ModuleObservation) -> (r: Result<(), Error>)
        ensures
            match load_verdict(*obs) {
                LoadVerdict::Accepted => r is Ok && final(self)@ == old(self)@.push(
                    accepted_model(name@, *obs),
                ),
                LoadVerdict::NoFile => r is Err && r->Err_0 is PluginNotFound
                    && r->Err_0->PluginNotFound_0@ == name@ && final(self)@ == old(self)@,
                LoadVerdict::FailedToMap(w) => r == Result::<(), Error>::Err(Error::Windows(w))
                    && final(self)@ == old(self)@,
                LoadVerdict::InitRejected(c) => r == Result::<(), Error>::Err(Error::InitPlugin(c))
                    && final(self)@ == old(self)@,
                LoadVerdict::VersionRejected(v) => r == Result::<(), Error>::Err(
                    Error::IncompatiblePluginRequiredVersion(v),
                ) && final(self)@ == old(self)@,
            },
    {
        match init_plugin(name, obs) {
            Result::Ok(plugin) => {
                let ghost before = self.plugins@;
                self.plugins.push(plugin);
                proof {
                    assert(self@ =~= models_of(before).push(accepted_model(name@, *obs)));
                }
                Ok(())
            },
            Result::Err(e) => Err(e),
        }
    }

    /// Try every observed module file in order, never letting one failure
    /// stop the batch, and report `(attempted, succeeded)`. The active set
    /// grows by exactly the accepted modules, in order.
    pub fn auto_load_plugins(&mut self, observations: &Vec<(String, ModuleObservation)>) -> (r: (
        usize,
        usize,
    ))
        ensures
            r.0 == observations@.len(),
            r.1 == accepted_models(observations@).len(),
            final(self)@ == old(self)@ + accepted_models(observations@),
    {
        let ghost initial = self@;
        let n = observations.len();
        let mut succeeded: usize = 0;
        let mut k: usize = 0;
        while k < n
            invariant
                n == observations@.len(),
                k <= n,
                succeeded == accepted_models(observations@.take(k as int)).len(),
                succeeded <= k,
                self@ == initial + accepted_models(observations@.take(k as int)),
            decreases n - k,
        {
            proof {
                let pre = observations@.take(k as int);
                let ext = observations@.take(k + 1);
                assert(ext.drop_last() =~= pre);
                assert(ext.last() == observations@[k as int]);
            }
            let name = &observations[k].0;
            let obs = &observations[k].1;
            match self.load(name.as_str(), obs) {
                Result::Ok(_) => {
                    succeeded += 1;
                    proof {
                        assert(self@ =~= initial + accepted_models(observations@.take(k + 1)));
                    }
                },
                Result::Err(_) => {
                    proof {
                        assert(self@ =~= initial + accepted_models(observations@.take(k + 1)));
                    }
                },
            }
            k += 1;
        }
        proof {
            assert(observations@.take(n as int) =~= observations@);
        }
        (n, succeeded)
    }

    /// Unload one module by name from what the embedding program observed.
    ///
    /// An unknown name fails with `PluginNotFound`. An initialized module
    /// without an uninitialize entry point, a failing uninitialize call and
    /// a failed unmap all fail with `UnloadPlugin` and leave the active set
    /// exactly as it was — the module stays active and callable. Only a
    /// fully successful unload removes the module (every entry of that
    /// name) from the active set.
    pub fn unload(&mut self, name: &str, outcome: &UnloadOutcome) -> (r: Result<(), Error>)
        ensures
            match find_named(old(self)@, name@) {
                Option::None => r is Err && r->Err_0 is PluginNotFound
                    && r->Err_0->PluginNotFound_0@ == name@ && final(self)@ == old(self)@,
                Option::Some(_) => match *outcome {
                    UnloadOutcome::Unloaded => r is Ok && final(self)@ == remove_named(
                        old(self)@,
                        name@,
                    ),
                    _ => r is Err && r->Err_0 is UnloadPlugin && final(self)@ == old(self)@,
                },
            },
    {
        if !self.is_active(name) {
            return Err(Error::PluginNotFound(name.to_owned()));
        }
        match outcome {
            UnloadOutcome::Unloaded => {
                let kept = retain_others(&self.plugins, name);
                self.plugins = kept;
                Ok(())
            },
            _ => Err(Error::UnloadPlugin),
        }
    }
}

} // verus!
