//! The capability registry and the resident extension modules.
//!
//! Extension modules are loaded once, early, and never unloaded: other
//! modules may hold their exported functions indefinitely. At
//! initialization each may publish named functions into a process-wide
//! registry and look up what others published. The registry is untyped by
//! design — both sides must agree on a signature out of band — so an entry
//! is just a name and a raw function address.

use vstd::prelude::*;

use crate::error::Error;
use crate::plugin::{
    accepted_model, accepted_models, init_plugin, load_verdict, LoadVerdict, ModuleObservation,
    Plugin, PluginModel, models_of, plugin_model,
};
use crate::table::{distinct_names, table_insert, table_lookup, table_map};

verus! {

/// Apply the lifecycle rule to one observed extension module. The rule is
/// the one every module passes through; only the initialization failure is
/// reported under the extension's own error.
pub fn init_core_extension(name: &str, obs: &ModuleObservation) -> (r: Result<Plugin, Error>)
    ensures
        match load_verdict(*obs) {
            LoadVerdict::Accepted => r is Ok && plugin_model(r->Ok_0) == accepted_model(
                name@,
                *obs,
            ),
            LoadVerdict::NoFile => r is Err && r->Err_0 is PluginNotFound
                && r->Err_0->PluginNotFound_0@ == name@,
            LoadVerdict::FailedToMap(w) => r == Result::<Plugin, Error>::Err(Error::Windows(w)),
            LoadVerdict::InitRejected(c) => r == Result::<Plugin, Error>::Err(
                Error::InitCoreExtension(c),
            ),
            LoadVerdict::VersionRejected(v) => r == Result::<Plugin, Error>::Err(
                Error::IncompatiblePluginRequiredVersion(v),
            ),
        },
{
    match init_plugin(name, obs) {
        Result::Ok(plugin) => Ok(plugin),
        Result::Err(e) => match e {
            Error::InitPlugin(c) => Err(Error::InitCoreExtension(c)),
            other => Err(other),
        },
    }
}

/// The registry and extension set as contracts see them.
#[verifier::ext_equal]
pub ghost struct CoreApiModel {
    pub extensions: Seq<PluginModel>,
    pub functions: Map<Seq<char>, u64>,
}

/// The capability registry together with the resident extension modules
/// that feed it.
pub struct CoreAPI {
    extensions: Vec<Plugin>,
    functions: Vec<(String, u64)>,
}

impl View for CoreAPI {
    type V = CoreApiModel;

    closed spec fn view(&self) -> CoreApiModel {
        CoreApiModel {
            extensions: models_of(self.extensions@),
            functions: table_map(self.functions@),
        }
    }
}

impl CoreAPI {
    /// Well-formedness: registered names are distinct.
    pub closed spec fn wf(&self) -> bool {
        distinct_names(self.functions@)
    }

    /// An empty registry with no extensions.
    pub fn new() -> (r: CoreAPI)
        ensures
            r.wf(),
            r@.extensions == Seq::<PluginModel>::empty(),
            r@.functions == Map::<Seq<char>, u64>::empty(),
    {
        let r = CoreAPI { extensions: Vec::new(), functions: Vec::new() };
        proof {
            assert(r@.extensions =~= Seq::<PluginModel>::empty());
            assert(r@.functions =~= Map::<Seq<char>, u64>::empty());
        }
        r
    }

    /// Publish a function under a name. Reusing a name rebinds it: the last
    /// writer wins. Nothing is ever removed.
    pub fn register_function(&mut self, name: &str, function: u64)
        requires
            old(self).wf(),
        ensures
            final(self).wf(),
            final(self)@.functions == old(self)@.functions.insert(name@, function),
            final(self)@.extensions == old(self)@.extensions,
    {
        table_insert(&mut self.functions, name, function);
    }

    /// Look a published function up by name.
    pub fn get_function(&self, name: &str) -> (r: Option<u64>)
        requires
            self.wf(),
        ensures
            match r {
                Option::Some(f) => self@.functions.contains_key(name@) && self@.functions[name@]
                    == f,
                Option::None => !self@.functions.contains_key(name@),
            },
    {
        table_lookup(&self.functions, name)
    }

    /// Accept every observed extension module that passes the lifecycle
    /// rule, never letting one failure stop the batch, and report
    /// `(attempted, succeeded)`. Accepted extensions are resident for the
    /// life of the process: there is no unload.
    pub fn load_core_exts(&mut self, observations: &Vec<(String, ModuleObservation)>) -> (r: (
        usize,
        usize,
    ))
        requires
            old(self).wf(),
        ensures
            final(self).wf(),
            r.0 == observations@.len(),
            r.1 == accepted_models(observations@).len(),
            final(self)@.extensions == old(self)@.extensions + accepted_models(observations@),
            final(self)@.functions == old(self)@.functions,
    {
        let ghost initial = self@.extensions;
        let n = observations.len();
        let mut succeeded: usize = 0;
        let mut k: usize = 0;
        while k < n
            invariant
                self.wf(),
                n == observations@.len(),
                k <= n,
                succeeded == accepted_models(observations@.take(k as int)).len(),
                succeeded <= k,
                self@.extensions == initial + accepted_models(observations@.take(k as int)),
                self@.functions == old(self)@.functions,
            decreases n - k,
        {
            proof {
                let pre = observations@.take(k as int);
                let ext = observations@.take(k + 1);
                assert(ext.drop_last() =~= pre);
                assert(ext.last() == observations@[k as int]);
            }
            let name = &observations[k].0;
            let obs = &observations[k].1;
            match init_core_extension(name.as_str(), obs) {
                Result::Ok(plugin) => {
                    let ghost before = self.extensions@;
                    self.extensions.push(plugin);
                    succeeded += 1;
                    proof {
                        assert(models_of(self.extensions@) =~= models_of(before).push(
                            models_of(self.extensions@).last(),
                        ));
                        assert(self@.extensions =~= initial + accepted_models(
                            observations@.take(k + 1),
                        ));
                    }
                },
                Result::Err(_) => {
                    proof {
                        assert(self@.extensions =~= initial + accepted_models(
                            observations@.take(k + 1),
                        ));
                    }
                },
            }
            k += 1;
        }
        proof {
            assert(observations@.take(n as int) =~= observations@);
        }
        (n, succeeded)
    }
}

} // verus!
