use vstd::prelude::*;

use crate::descriptor::{build_descriptor, descriptor_text};
use crate::error::ExportError;
use crate::events::{scan_build_output, stream_scan};
use crate::image::base64_text;
use crate::symbols::resolve_listing;

verus! {

/// A command of the command line.
#[derive(Debug, Clone, Copy, PartialEq, Eq, Structural)]
pub enum Command {
    /// Build the flash algorithm and export its descriptor.
    Export,
}

/// The outside work that the export asks for next.
#[derive(Debug, Clone, PartialEq, Eq)]
pub enum Action {
    /// Run the release build with structured output.
    RunBuild,
    /// List the artifact's symbols.
    ListSymbols { artifact: String },
    /// Extract the artifact's flat binary image.
    ExtractImage { artifact: String },
    /// Write the descriptor file, replacing any earlier one.
    WriteDescriptor { text: String },
    /// Write the disassembly, object dump and sorted symbol listing of the artifact.
    WriteDebugInfo { artifact: String },
    /// The export is complete.
    Finish,
    /// The export has failed.
    Fail { error: ExportError },
}

/// The outcome of the last action.
#[derive(Debug, Clone, PartialEq, Eq)]
pub enum Event {
    /// The build ran; this is its structured standard output.
    BuildOutput { stdout: Vec<u8> },
    /// The symbol listing of the artifact.
    SymbolListing { listing: Vec<u8> },
    /// The flat binary image of the artifact.
    Image { bytes: Vec<u8> },
    /// The requested files were written.
    Written,
    /// A tool could not be run.
    ToolFailed,
    /// A file could not be written.
    WriteFailed,
}

/// Where the export stands.
#[derive(Debug, Clone, PartialEq, Eq)]
pub enum Stage {
    Invoking,
    Resolving { artifact: String },
    Extracting { artifact: String, listing: Vec<u8> },
    Emitting { artifact: String },
    Documenting,
    Done,
    Failed { error: ExportError },
}

/// One export of a flash algorithm named `name`.
pub struct ExportPipeline {
    pub name: String,
    pub stage: Stage,
}

pub open spec fn fails_with(err: ExportError, st2: Stage, a: Action, relay: Seq<String>) -> bool {
    st2 == (Stage::Failed { error: err }) && a == (Action::Fail { error: err }) && relay.len() == 0
}

/// The steps of a running export, for the event that its stage waits for.
pub open spec fn live_transition(
    name: Seq<char>,
    st: Stage,
    e: Event,
    st2: Stage,
    a: Action,
    relay: Seq<String>,
) -> bool {
    match (st, e) {
        (Stage::Invoking, Event::BuildOutput { stdout }) => relay == stream_scan(stdout@).1
            && match stream_scan(stdout@).0 {
            Ok(p) => st2 == (Stage::Resolving { artifact: p }) && a == (Action::ListSymbols {
                artifact: p,
            }),
            Err(err) => st2 == (Stage::Failed { error: err }) && a == (Action::Fail { error: err }),
        },
        (Stage::Resolving { artifact }, Event::SymbolListing { listing }) => st2 == (
        Stage::Extracting { artifact, listing }) && a == (Action::ExtractImage { artifact })
            && relay.len() == 0,
        (Stage::Extracting { artifact, listing }, Event::Image { bytes }) => match resolve_listing(
            listing@,
        ) {
            Ok(addrs) => st2 == (Stage::Emitting { artifact }) && relay.len() == 0 && match a {
                Action::WriteDescriptor { text } => text@ == descriptor_text(
                    name,
                    base64_text(bytes@),
                    addrs,
                ),
                _ => false,
            },
            Err(err) => fails_with(err, st2, a, relay),
        },
        (Stage::Emitting { artifact }, Event::Written) => st2 == Stage::Documenting && a == (
        Action::WriteDebugInfo { artifact }) && relay.len() == 0,
        (Stage::Documenting, Event::Written) => st2 == Stage::Done && a == Action::Finish
            && relay.len() == 0,
        _ => fails_with(ExportError::ExternalTool, st2, a, relay),
    }
}

/// One step of the export: from stage `st` and event `e` to stage `st2`, with
/// action `a` to perform after relaying the diagnostic texts `relay`. A tool
/// failure or a failed write ends the export; an ended export stays as it is.
pub open spec fn transition(
    name: Seq<char>,
    st: Stage,
    e: Event,
    st2: Stage,
    a: Action,
    relay: Seq<String>,
) -> bool {
    match st {
        Stage::Done => st2 == st && a == Action::Finish && relay.len() == 0,
        Stage::Failed { error } => st2 == st && a == (Action::Fail { error }) && relay.len() == 0,
        _ => match e {
            Event::ToolFailed => fails_with(ExportError::ExternalTool, st2, a, relay),
            Event::WriteFailed => fails_with(ExportError::Io, st2, a, relay),
            _ => live_transition(name, st, e, st2, a, relay),
        },
    }
}

/// Dispatches a command: an export of the algorithm `name` starts by running
/// the build.
pub fn try_main(command: Command, name: String) -> (r: (ExportPipeline, Action))
    ensures
        r.0.name == name,
        r.0.stage == Stage::Invoking,
        r.1 == Action::RunBuild,
{
    match command {
        Command::Export => (ExportPipeline { name, stage: Stage::Invoking }, Action::RunBuild),
    }
}

impl ExportPipeline {
    /// Takes the outcome of the last action and decides the next one; the
    /// diagnostic texts returned beside it are to be relayed first, in order.
    pub fn step(self, e: Event) -> (r: (ExportPipeline, Action, Vec<String>))
        ensures
            r.0.name == self.name,
            transition(self.name@, self.stage, e, r.0.stage, r.1, r.2@),
    {
        let name = self.name;
        let (stage, action, relay) = match self.stage {
            Stage::Done => (Stage::Done, Action::Finish, Vec::new()),
            Stage::Failed { error } => (Stage::Failed { error }, Action::Fail { error }, Vec::new()),
            live => match e {
                Event::ToolFailed => (
                    Stage::Failed { error: ExportError::ExternalTool },
                    Action::Fail { error: ExportError::ExternalTool },
                    Vec::new(),
                ),
                Event::WriteFailed => (
                    Stage::Failed { error: ExportError::Io },
                    Action::Fail { error: ExportError::Io },
                    Vec::new(),
                ),
                e => match (live, e) {
                    (Stage::Invoking, Event::BuildOutput { stdout }) => {
                        let (outcome, relay) = scan_build_output(stdout.as_slice());
                        match outcome {
                            Ok(p) => (
                                Stage::Resolving { artifact: p.clone() },
                                Action::ListSymbols { artifact: p },
                                relay,
                            ),
                            Err(err) => (
                                Stage::Failed { error: err },
                                Action::Fail { error: err },
                                relay,
                            ),
                        }
                    },
                    (Stage::Resolving { artifact }, Event::SymbolListing { listing }) => (
                        Stage::Extracting { artifact: artifact.clone(), listing },
                        Action::ExtractImage { artifact },
                        Vec::new(),
                    ),
                    (Stage::Extracting { artifact, listing }, Event::Image { bytes }) => {
                        match build_descriptor(name.as_str(), listing.as_slice(), bytes.as_slice()) {
                            Ok(text) => (
                                Stage::Emitting { artifact },
                                Action::WriteDescriptor { text },
                                Vec::new(),
                            ),
                            Err(err) => (
                                Stage::Failed { error: err },
                                Action::Fail { error: err },
                                Vec::new(),
                            ),
                        }
                    },
                    (Stage::Emitting { artifact }, Event::Written) => (
                        Stage::Documenting,
                        Action::WriteDebugInfo { artifact },
                        Vec::new(),
                    ),
                    (Stage::Documenting, Event::Written) => (Stage::Done, Action::Finish, Vec::new()),
                    _ => (
                        Stage::Failed { error: ExportError::ExternalTool },
                        Action::Fail { error: ExportError::ExternalTool },
                        Vec::new(),
                    ),
                },
            },
        };
        (ExportPipeline { name, stage }, action, relay)
    }
}

/// An ended export stays ended: after a failure no event leads to any further
/// stage, so in particular no descriptor is written.
pub proof fn law_failure_is_terminal(
    name: Seq<char>,
    error: ExportError,
    e: Event,
    st2: Stage,
    a: Action,
    relay: Seq<String>,
)
    requires
        transition(name, Stage::Failed { error }, e, st2, a, relay),
    ensures
        st2 == (Stage::Failed { error }),
        a == (Action::Fail { error }),
        !(a is WriteDescriptor),
{
}

/// The descriptor is written only from a stage that holds a selected artifact
/// and its symbol listing, and only when that listing resolves.
pub proof fn law_descriptor_needs_resolved_listing(
    name: Seq<char>,
    st: Stage,
    e: Event,
    st2: Stage,
    a: Action,
    relay: Seq<String>,
)
    requires
        transition(name, st, e, st2, a, relay),
        a is WriteDescriptor,
    ensures
        st is Extracting,
        resolve_listing(st->Extracting_listing@) is Ok,
{
}

} // verus!
