//! A verified model of a C-callable bridge over an asynchronous columnar
//! storage engine.
//!
//! The bridge exposes engine objects (datasets, file readers, file writers,
//! scanners, batch streams) to a foreign caller as opaque handles with an
//! explicit create / use / free protocol, reports failures through error
//! records rather than unwinding, and moves columnar data across the
//! boundary as ordered batch streams.
//!
//! The engine itself performs storage I/O and runs on its own asynchronous
//! substrate; the embedding layer drives it and hands each operation's
//! outcome to this library as a plain value (`EngineOutcome`). Everything
//! the bridge decides — input validation, handle bookkeeping, error
//! classification, fault containment, schema checks, batch ordering — is
//! implemented and verified here.

use vstd::prelude::*;

pub mod dataset;
pub mod error;
pub mod file;
pub mod registry;
pub mod scanner;
pub mod stream;
pub mod types;

use crate::registry::Registry;

verus! {

/// The process-wide bridge state: the lazily started substrate flag and the
/// registry of live handles.
pub struct Bridge {
    /// Whether the background task-execution substrate has been started.
    /// It is started on first use and never torn down; every operation
    /// that reaches the engine leaves it started.
    pub started: bool,
    /// The registry of live handles.
    pub reg: Registry,
}

impl View for Bridge {
    type V = Map<u64, crate::registry::Obj>;

    /// The bridge's view: the map from live handle to the object it
    /// stands for.
    open spec fn view(&self) -> Map<u64, crate::registry::Obj> {
        self.reg@
    }
}

impl Bridge {
    /// A well-formed bridge: a well-formed registry, every registered
    /// object well formed.
    pub open spec fn wf(&self) -> bool {
        &&& self.reg.wf()
        &&& self.reg.objs_wf()
    }

    /// Whether a handle is live: issued by a creating operation and not
    /// yet freed or consumed.
    pub open spec fn live(&self, h: u64) -> bool {
        self@.dom().contains(h)
    }

    /// Whether more handles can be issued; a machine limit no real
    /// process exhausts.
    pub open spec fn not_exhausted(&self) -> bool {
        self.reg.not_exhausted()
    }

    /// A fresh bridge: substrate not yet started, no live handles.
    pub fn new() -> (b: Bridge)
        ensures
            b.wf(),
            !b.started,
            b@ == Map::<u64, crate::registry::Obj>::empty(),
            b.not_exhausted(),
    {
        Bridge { started: false, reg: Registry::new() }
    }
}

/// Starts the process-wide substrate. Safe to call repeatedly and from
/// several threads: initialization is once-only, and an already started
/// substrate is simply reused. Always reports success.
pub fn lance_init(bridge: &mut Bridge) -> (r: bool)
    ensures
        r,
        final(bridge).started,
        final(bridge).reg == old(bridge).reg,
        old(bridge).wf() ==> final(bridge).wf(),
{
    bridge.started = true;
    true
}

/// Tears the bridge down. Currently a no-op reserved for future cleanup:
/// the substrate outlives it and every handle stays valid.
pub fn lance_cleanup(bridge: &mut Bridge)
    ensures
        *final(bridge) == *old(bridge),
{
}

} // verus!
