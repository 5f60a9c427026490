//! Closed capability namespace for sandboxed scripts.
//!
//! A scene script reaches native functionality only through names registered
//! here: a base set of default bindings is installed first, then the caller
//! may replace a same-named default exactly once. Registering a name twice,
//! or replacing the same name twice, is a registration-time error, never a
//! silent override; resolving an unregistered name fails closed — no
//! filesystem or network lookup stands behind it.

use vstd::prelude::*;

use crate::keyed::{
    assoc_map, lemma_assoc_map_dom, lemma_assoc_map_index, lemma_assoc_map_push,
    lemma_assoc_map_update, unique_keys,
};
use vstd::string::StringExecFns;

verus! {

/// Registration or resolution failure of the capability namespace.
#[derive(Clone, Copy, PartialEq, Eq, Debug, Structural)]
pub enum CapabilityError {
    /// The name is already registered, or was already replaced once.
    Conflict,
    /// `resolve` found no binding under the name.
    UnknownCapability,
    /// An import named something outside the registered set.
    InvalidModule,
}

/// Registry from capability names to native bindings; `B` is the host's
/// binding handle, held opaquely.
pub struct CapabilityBridge<B> {
    entries: Vec<(String, B)>,
    replaced: Vec<String>,
}

impl<B> CapabilityBridge<B> {
    /// The entry list with names read as character sequences.
    pub closed spec fn name_entries(self) -> Seq<(Seq<char>, B)> {
        self.entries@.map_values(|p: (String, B)| (p.0@, p.1))
    }

    /// The registered namespace.
    pub closed spec fn bindings(self) -> Map<Seq<char>, B> {
        assoc_map(self.name_entries())
    }

    /// Names already replaced once.
    pub closed spec fn replaced_set(self) -> Set<Seq<char>> {
        self.replaced@.map_values(|s: String| s@).to_set()
    }

    /// One binding per name.
    pub closed spec fn inv(self) -> bool {
        unique_keys(self.name_entries())
    }

    pub fn new() -> (r: CapabilityBridge<B>)
        ensures
            r.inv(),
            r.bindings() == Map::<Seq<char>, B>::empty(),
            r.replaced_set() == Set::<Seq<char>>::empty(),
    {
        let r = CapabilityBridge { entries: Vec::new(), replaced: Vec::new() };
        proof {
            assert(r.name_entries() =~= Seq::<(Seq<char>, B)>::empty());
            assert(r.replaced_set() =~= Set::<Seq<char>>::empty());
        }
        r
    }

    /// Index of the binding registered under `name`, if any.
    fn find_index(&self, name: &String) -> (r: Option<usize>)
        requires
            self.inv(),
        ensures
            match r {
                Some(i) => {
                    &&& i < self.name_entries().len()
                    &&& self.name_entries()[i as int].0 == name@
                    &&& self.bindings().contains_key(name@)
                    &&& self.bindings()[name@] == self.name_entries()[i as int].1
                },
                None => !self.bindings().contains_key(name@),
            },
    {
        let n = self.entries.len();
        let mut i: usize = 0;
        while i < n
            invariant
                self.inv(),
                n == self.entries@.len(),
                i <= n,
                forall|j: int| 0 <= j < i ==> (#[trigger] self.name_entries()[j]).0 != name@,
            decreases n - i,
        {
            if self.entries[i].0 == *name {
                proof {
                    lemma_assoc_map_index(self.name_entries(), i as int);
                }
                return Some(i);
            }
            i += 1;
        }
        proof {
            lemma_assoc_map_dom(self.name_entries());
        }
        None
    }

    /// Whether `name` was already replaced once.
    fn was_replaced(&self, name: &String) -> (r: bool)
        ensures
            r == self.replaced_set().contains(name@),
    {
        let n = self.replaced.len();
        let mut i: usize = 0;
        while i < n
            invariant
                n == self.replaced@.len(),
                i <= n,
                forall|j: int| 0 <= j < i ==> (#[trigger] self.replaced@[j])@ != name@,
            decreases n - i,
        {
            if self.replaced[i] == *name {
                proof {
                    assert(self.replaced@.map_values(|s: String| s@)[i as int] == name@);
                }
                return true;
            }
            i += 1;
        }
        proof {
            if self.replaced_set().contains(name@) {
                let ms = self.replaced@.map_values(|s: String| s@);
                assert(ms.contains(name@));
                let j = choose|j: int| 0 <= j < ms.len() && #[trigger] ms[j] == name@;
                assert(self.replaced@[j]@ == name@);
            }
        }
        false
    }

    /// Registers a binding under a fresh name; a name already present is a
    /// conflict, never a silent override.
    pub fn register(&mut self, name: String, binding: B) -> (r: Result<(), CapabilityError>)
        requires
            old(self).inv(),
        ensures
            final(self).inv(),
            final(self).replaced_set() == old(self).replaced_set(),
            match r {
                Ok(()) => {
                    &&& !old(self).bindings().contains_key(name@)
                    &&& final(self).bindings() == old(self).bindings().insert(name@, binding)
                },
                Err(e) => {
                    &&& e == CapabilityError::Conflict
                    &&& old(self).bindings().contains_key(name@)
                    &&& *final(self) == *old(self)
                },
            },
    {
        match self.find_index(&name) {
            Some(_) => Err(CapabilityError::Conflict),
            None => {
                let ghost s = self.name_entries();
                proof {
                    lemma_assoc_map_push(s, name@, binding);
                    lemma_assoc_map_dom(s);
                }
                self.entries.push((name, binding));
                proof {
                    assert(self.name_entries() =~= s.push((name@, binding)));
                    assert forall|p: int, q: int|
                        0 <= p < q < self.name_entries().len() implies (
                        #[trigger] self.name_entries()[p]).0 != (
                        #[trigger] self.name_entries()[q]).0 by {
                        if q == s.len() as int {
                            assert(s[p].0 != name@);
                        }
                    }
                }
                Ok(())
            },
        }
    }

    /// Replaces a default binding — or installs a new one — under a name the
    /// caller has not replaced before; a second replacement of the same name
    /// is rejected.
    pub fn replace_default(&mut self, name: String, binding: B) -> (r: Result<
        (),
        CapabilityError,
    >)
        requires
            old(self).inv(),
        ensures
            final(self).inv(),
            match r {
                Ok(()) => {
                    &&& !old(self).replaced_set().contains(name@)
                    &&& final(self).bindings() == old(self).bindings().insert(name@, binding)
                    &&& final(self).replaced_set() == old(self).replaced_set().insert(name@)
                },
                Err(e) => {
                    &&& e == CapabilityError::Conflict
                    &&& old(self).replaced_set().contains(name@)
                    &&& *final(self) == *old(self)
                },
            },
    {
        if self.was_replaced(&name) {
            return Err(CapabilityError::Conflict);
        }
        let marker = name.clone();
        match self.find_index(&name) {
            Some(i) => {
                let ghost s = self.name_entries();
                proof {
                    lemma_assoc_map_update(s, i as int, binding);
                }
                self.entries[i] = (name, binding);
                proof {
                    assert(self.name_entries() =~= s.update(i as int, (s[i as int].0, binding)));
                    assert forall|p: int, q: int|
                        0 <= p < q < self.name_entries().len() implies (
                        #[trigger] self.name_entries()[p]).0 != (
                        #[trigger] self.name_entries()[q]).0 by {
                        assert(s[p].0 == self.name_entries()[p].0 || p == i as int);
                        assert(s[q].0 == self.name_entries()[q].0 || q == i as int);
                    }
                }
            },
            None => {
                let ghost s = self.name_entries();
                proof {
                    lemma_assoc_map_push(s, name@, binding);
                    lemma_assoc_map_dom(s);
                }
                self.entries.push((name, binding));
                proof {
                    assert(self.name_entries() =~= s.push((name@, binding)));
                    assert forall|p: int, q: int|
                        0 <= p < q < self.name_entries().len() implies (
                        #[trigger] self.name_entries()[p]).0 != (
                        #[trigger] self.name_entries()[q]).0 by {
                        if q == s.len() as int {
                            assert(s[p].0 != name@);
                        }
                    }
                }
            },
        }
        let ghost rs = self.replaced@;
        self.replaced.push(marker);
        proof {
            assert(self.replaced@ =~= rs.push(marker));
            let f = |s: String| s@;
            assert forall|k: Seq<char>| #[trigger]
                self.replaced_set().contains(k) <==> (rs.map_values(f).to_set().contains(k) || k
                == marker@) by {
                if self.replaced@.map_values(f).contains(k) {
                    let j = choose|j: int|
                        0 <= j < self.replaced@.len() && self.replaced@.map_values(f)[j] == k;
                    if j < rs.len() {
                        assert(rs.map_values(f)[j] == k);
                    }
                }
                if rs.map_values(f).contains(k) {
                    let j = choose|j: int| 0 <= j < rs.len() && rs.map_values(f)[j] == k;
                    assert(self.replaced@.map_values(f)[j] == k);
                }
                if k == marker@ {
                    assert(self.replaced@.map_values(f)[rs.len() as int] == k);
                }
            }
            assert(self.replaced_set() =~= rs.map_values(f).to_set().insert(marker@));
        }
        Ok(())
    }

    /// The binding registered under `name`; an unregistered name fails with
    /// "unknown capability".
    pub fn resolve(&self, name: &String) -> (r: Result<&B, CapabilityError>)
        requires
            self.inv(),
        ensures
            match r {
                Ok(b) => self.bindings().contains_key(name@) && *b == self.bindings()[name@],
                Err(e) => e == CapabilityError::UnknownCapability && !self.bindings().contains_key(
                    name@,
                ),
            },
    {
        match self.find_index(name) {
            Some(i) => Ok(&self.entries[i].1),
            None => Err(CapabilityError::UnknownCapability),
        }
    }

    /// The module/import surface visible to scripts is the same closed
    /// namespace: an import name outside the registered set fails closed
    /// with "invalid module" instead of falling through to a filesystem or
    /// network lookup.
    pub fn resolve_module(&self, name: &String) -> (r: Result<&B, CapabilityError>)
        requires
            self.inv(),
        ensures
            match r {
                Ok(b) => self.bindings().contains_key(name@) && *b == self.bindings()[name@],
                Err(e) => e == CapabilityError::InvalidModule && !self.bindings().contains_key(
                    name@,
                ),
            },
    {
        match self.find_index(name) {
            Some(i) => Ok(&self.entries[i].1),
            None => Err(CapabilityError::InvalidModule),
        }
    }
}

/// The closed set of importable module names: the scene's own script, the
/// utility module, the capability bundles, and the reserved `env` module.
/// Anything else fails closed.
pub open spec fn default_module_names_spec() -> Seq<Seq<char>> {
    seq![
        "~scene.js"@,
        "~utils.js"@,
        "~system/CommunicationsController"@,
        "~system/EngineApi"@,
        "~system/EnvironmentApi"@,
        "~system/EthereumController"@,
        "~system/Players"@,
        "~system/PortableExperiences"@,
        "~system/RestrictedActions"@,
        "fetch"@,
        "ws"@,
        "~system/Runtime"@,
        "~system/Scene"@,
        "~system/SignedFetch"@,
        "~system/Testing"@,
        "~system/UserActionModule"@,
        "~system/UserIdentity"@,
        "~system/CommsApi"@,
        "env"@,
    ]
}

/// The names of the default module bindings, in registration order.
pub fn default_module_names() -> (r: Vec<String>)
    ensures
        r.deep_view() == default_module_names_spec(),
{
    let mut r: Vec<String> = Vec::new();
    r.push(String::from_str("~scene.js"));
    r.push(String::from_str("~utils.js"));
    r.push(String::from_str("~system/CommunicationsController"));
    r.push(String::from_str("~system/EngineApi"));
    r.push(String::from_str("~system/EnvironmentApi"));
    r.push(String::from_str("~system/EthereumController"));
    r.push(String::from_str("~system/Players"));
    r.push(String::from_str("~system/PortableExperiences"));
    r.push(String::from_str("~system/RestrictedActions"));
    r.push(String::from_str("fetch"));
    r.push(String::from_str("ws"));
    r.push(String::from_str("~system/Runtime"));
    r.push(String::from_str("~system/Scene"));
    r.push(String::from_str("~system/SignedFetch"));
    r.push(String::from_str("~system/Testing"));
    r.push(String::from_str("~system/UserActionModule"));
    r.push(String::from_str("~system/UserIdentity"));
    r.push(String::from_str("~system/CommsApi"));
    r.push(String::from_str("env"));
    proof {
        assert(r.deep_view() =~= default_module_names_spec());
    }
    r
}

/// What the reserved `env` module exports to a scene: its environment
/// switches when the scene may know them, nothing otherwise.
#[derive(Clone, Copy, PartialEq, Eq, Debug, Structural)]
pub struct SceneEnv {
    pub enable_know_env: bool,
    pub testing_enable: bool,
}

/// Source text of the `env` module for a scene.
pub fn env_module_source(env: &SceneEnv) -> (r: String)
    ensures
        r@ == (if !env.enable_know_env {
            "module.exports = {}"@
        } else if env.testing_enable {
            "module.exports = {\"enable_know_env\":true,\"testing_enable\":true}"@
        } else {
            "module.exports = {\"enable_know_env\":true,\"testing_enable\":false}"@
        }),
{
    if !env.enable_know_env {
        String::from_str("module.exports = {}")
    } else if env.testing_enable {
        String::from_str("module.exports = {\"enable_know_env\":true,\"testing_enable\":true}")
    } else {
        String::from_str("module.exports = {\"enable_know_env\":true,\"testing_enable\":false}")
    }
}

} // verus!
