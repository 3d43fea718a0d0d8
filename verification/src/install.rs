//! Turning a configuration on: for the whole process or for one thread.
//!
//! The library decides what is installed and whether it may be; the caller
//! that owns the subscriber registry carries the decision out.
use crate::config::Traceon;
use vstd::prelude::*;

verus! {

/// Where a configuration is active.
#[derive(Clone, Copy, Debug, PartialEq, Eq)]
pub enum Scope {
    /// In every thread of the process, unless a thread has its own.
    Global,
    /// In the calling thread, until the guard of the installation is dropped.
    Thread,
}

/// A configuration and the scope in which it is to be active.
#[derive(Clone, Copy, Debug)]
pub struct Install {
    /// What is installed.
    pub config: Traceon,
    /// Where it is installed.
    pub scope: Scope,
}

/// A global default is set already: a process has one, set once.
#[derive(Clone, Copy, Debug, PartialEq, Eq)]
pub struct SetGlobalDefaultError;

impl SetGlobalDefaultError {
    /// What went wrong, in words.
    pub fn describe(&self) -> (r: &'static str)
        ensures
            r@ == "more than one global default subscriber set"@,
    {
        "more than one global default subscriber set"
    }
}

impl Traceon {
    /// Turn on the storage, formatting and filter layers as a global default, which means all
    /// threads will inherit it but it can be overwritten for a single thread with `on_thread`.
    ///
    /// The caller installs what this returns and fails if a global default is set already; use
    /// `try_on` to have that case decided here.
    pub fn on(&self) -> (r: Install)
        ensures
            r.config == *self,
            r.scope is Global,
    {
        Install { config: *self, scope: Scope::Global }
    }

    /// Turn on the storage, formatting and filter layers as a global default.
    ///
    /// Returns an error if the global default subscriber is already set, and what is to be
    /// installed if it is not.
    pub fn try_on(&self, global_default_set: bool) -> (r: Result<Install, SetGlobalDefaultError>)
        ensures
            global_default_set <==> r is Err,
            r matches Ok(install) ==> install.config == *self && install.scope is Global,
    {
        if global_default_set {
            Err(SetGlobalDefaultError)
        } else {
            Ok(self.on())
        }
    }

    /// Turn on the storage, formatting and filter layers on the local thread. The caller holds
    /// the guard of the installation; when the guard is dropped the layers are unsubscribed and
    /// what was active before is active again.
    pub fn on_thread(&self) -> (r: Install)
        ensures
            r.config == *self,
            r.scope is Thread,
    {
        Install { config: *self, scope: Scope::Thread }
    }
}

} // verus!
