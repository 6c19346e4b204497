//! What an adapter for a command line can do.

use vstd::prelude::*;

verus! {

/// The features that an adapter supports.
#[derive(Clone, Copy, Debug, PartialEq, Eq, Structural)]
pub struct AdapterCapabilities {
    pub import_known: bool,
    pub read_current_identity: bool,
    pub switch_account: bool,
    pub login: bool,
    pub launch: bool,
    pub resume: bool,
    pub live_usage: bool,
}

/// An adapter for one command line.
pub trait CliAdapter {
    /// The id of the adapter.
    fn id(&self) -> &'static str;

    /// The features that the adapter supports.
    fn capabilities(&self) -> AdapterCapabilities;
}

/// The adapter for Codex.
#[derive(Debug)]
pub struct CodexAdapter;

impl Default for CodexAdapter {
    fn default() -> (r: CodexAdapter)
        ensures
            r == CodexAdapter,
    {
        CodexAdapter
    }
}

impl CliAdapter for CodexAdapter {
    fn id(&self) -> (r: &'static str)
        ensures
            r@ == "codex"@,
    {
        "codex"
    }

    fn capabilities(&self) -> (r: AdapterCapabilities)
        ensures
            r.import_known && r.read_current_identity && r.switch_account && r.login && r.launch
                && r.resume && r.live_usage,
    {
        AdapterCapabilities {
            import_known: true,
            read_current_identity: true,
            switch_account: true,
            login: true,
            launch: true,
            resume: true,
            live_usage: true,
        }
    }
}

} // verus!
