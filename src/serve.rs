use vstd::prelude::*;

use crate::config::{entries_map, entries_view, Config, Timing};
use crate::errors::OpaqueError;

verus! {

/// A debounced notification of the file watcher.
pub enum WatchEvent {
    /// The watcher failed: watching stops.
    Error(String),
    /// The watcher lost track and asks for a rescan.
    Rescan,
    /// Only permission bits changed.
    Chmod,
    /// A file was created, written, removed or renamed.
    Changed,
}

/// What the watch loop does next.
#[derive(Debug)]
pub enum WatchAction {
    /// Stop watching and report the error.
    Terminate(OpaqueError),
    /// Wait for the next event.
    Ignore,
    /// Scan the sources again and run a build cycle.
    Rebuild,
}

/// The watch loop's state as the contracts see it.
pub struct ServeView {
    pub manifest: Map<Seq<char>, Timing>,
    pub running: bool,
}

/// The state of the watch loop: the manifest it holds in memory, and whether
/// it still runs.
pub struct ServeState {
    config: Config,
    running: bool,
}

impl View for ServeState {
    type V = ServeView;

    closed spec fn view(&self) -> ServeView {
        ServeView { manifest: self.config@, running: self.running }
    }
}

impl ServeState {
    pub closed spec fn wf(&self) -> bool {
        self.config.wf()
    }

    /// The state after the first full cycle, whose registry gave `timings`.
    pub fn start(timings: Vec<(String, Timing)>) -> (r: ServeState)
        ensures
            r.wf(),
            r@.running,
            r@.manifest == entries_map(entries_view(timings@)),
    {
        ServeState { config: Config::new(timings), running: true }
    }

    /// The manifest held in memory.
    pub fn config(&self) -> (r: &Config)
        requires
            self.wf(),
        ensures
            r.wf(),
            r@ == self@.manifest,
    {
        &self.config
    }

    pub fn is_running(&self) -> (r: bool)
        ensures
            r == self@.running,
    {
        self.running
    }

    /// Reacts to one event: a watcher error ends the loop, a rescan or a
    /// permission change is ignored, anything else asks for a rebuild. The
    /// manifest is left as it is.
    pub fn on_event(&mut self, event: &WatchEvent) -> (r: WatchAction)
        requires
            old(self).wf(),
            old(self)@.running,
        ensures
            final(self).wf(),
            final(self)@.manifest == old(self)@.manifest,
            match event {
                WatchEvent::Error(msg) => !final(self)@.running && (r matches WatchAction::Terminate(e) && e@ == msg@),
                WatchEvent::Rescan | WatchEvent::Chmod => final(self)@.running && r is Ignore,
                WatchEvent::Changed => final(self)@.running && r is Rebuild,
            },
    {
        match event {
            WatchEvent::Error(msg) => {
                self.running = false;
                WatchAction::Terminate(OpaqueError::new(msg.clone()))
            },
            WatchEvent::Rescan | WatchEvent::Chmod => WatchAction::Ignore,
            WatchEvent::Changed => WatchAction::Rebuild,
        }
    }

    /// Takes in the outcome of a rebuild: on success, the timings of the new
    /// registry. Returns whether the manifest must be written: only when the
    /// build succeeded and its timings differ from those held, which then
    /// replace them. A failed build leaves the manifest as it is.
    pub fn on_build(&mut self, outcome: Result<Vec<(String, Timing)>, OpaqueError>) -> (persist: bool)
        requires
            old(self).wf(),
        ensures
            final(self).wf(),
            final(self)@.running == old(self)@.running,
            match outcome {
                Err(_) => !persist && final(self)@.manifest == old(self)@.manifest,
                Ok(t) => persist == (entries_map(entries_view(t@)) != old(self)@.manifest)
                    && final(self)@.manifest == entries_map(entries_view(t@)),
            },
    {
        match outcome {
            Err(_) => false,
            Ok(timings) => {
                let updated = Config::new(timings);
                if updated.same_timings(&self.config) {
                    false
                } else {
                    self.config = updated;
                    true
                }
            },
        }
    }
}

} // verus!
