use vstd::prelude::*;

use crate::error::ExportError;
use crate::symbols::lemma_line_end_bounds;

verus! {

/// One event of the compiler's structured build output.
#[derive(Debug, Clone, PartialEq, Eq)]
pub enum BuildEvent {
    /// An artifact was produced; `executable` is its path when it is a runnable binary.
    ArtifactProduced { executable: Option<String> },
    /// The compiler reported a diagnostic; `rendered` is its human-readable text.
    CompilerDiagnostic { rendered: Option<String> },
    /// Any other event.
    Other,
}

/// The state of a scan over build events: the artifact found so far, whether a
/// second one has been seen, and the diagnostic texts relayed so far.
pub type ScanModel = (Option<String>, bool, Seq<String>);

/// The state before any event has been seen.
pub open spec fn scan_start() -> ScanModel {
    (None, false, Seq::empty())
}

/// The state after one more event. Once a second artifact has been seen the
/// scan has failed and takes no further event into account.
pub open spec fn scan_step(st: ScanModel, e: BuildEvent) -> ScanModel {
    if st.1 {
        st
    } else {
        match e {
            BuildEvent::ArtifactProduced { executable: Some(p) } => if st.0 is Some {
                (st.0, true, st.2)
            } else {
                (Some(p), false, st.2)
            },
            BuildEvent::CompilerDiagnostic { rendered: Some(t) } => (st.0, false, st.2.push(t)),
            _ => st,
        }
    }
}

/// The state after the events, in order.
pub open spec fn scan_events(evs: Seq<BuildEvent>) -> ScanModel
    decreases evs.len(),
{
    if evs.len() == 0 {
        scan_start()
    } else {
        scan_step(scan_events(evs.drop_last()), evs.last())
    }
}

/// What a scan state yields: its one artifact, or why there is none.
pub open spec fn scan_outcome(st: ScanModel) -> Result<String, ExportError> {
    if st.1 {
        Err(ExportError::MultipleArtifacts)
    } else {
        match st.0 {
            Some(p) => Ok(p),
            None => Err(ExportError::NoArtifact),
        }
    }
}

/// A scan over build events that looks for the single executable artifact and
/// collects the diagnostics to relay.
pub struct ArtifactScan {
    artifact: Option<String>,
    conflict: bool,
    relayed: Vec<String>,
}

impl View for ArtifactScan {
    type V = ScanModel;

    closed spec fn view(&self) -> ScanModel {
        (self.artifact, self.conflict, self.relayed@)
    }
}

impl ArtifactScan {
    pub fn new() -> (r: ArtifactScan)
        ensures
            r@ == scan_start(),
    {
        ArtifactScan { artifact: None, conflict: false, relayed: Vec::new() }
    }

    /// Takes one event into account.
    pub fn observe(&mut self, e: &BuildEvent)
        ensures
            final(self)@ == scan_step(old(self)@, *e),
    {
        if self.conflict {
            return;
        }
        match e {
            BuildEvent::ArtifactProduced { executable: Some(p) } => {
                if self.artifact.is_some() {
                    self.conflict = true;
                } else {
                    self.artifact = Some(p.clone());
                }
            },
            BuildEvent::CompilerDiagnostic { rendered: Some(t) } => {
                self.relayed.push(t.clone());
            },
            _ => {},
        }
    }

    /// A second artifact has been seen: the scan has failed.
    pub fn has_failed(&self) -> (r: bool)
        ensures
            r == self@.1,
    {
        self.conflict
    }

    /// The artifact, or why there is none, and the diagnostics to relay, in order.
    pub fn finish(self) -> (r: (Result<String, ExportError>, Vec<String>))
        ensures
            r.0 == scan_outcome(self@),
            r.1@ == self@.2,
    {
        let outcome = if self.conflict {
            Err(ExportError::MultipleArtifacts)
        } else {
            match self.artifact {
                Some(p) => Ok(p),
                None => Err(ExportError::NoArtifact),
            }
        };
        (outcome, self.relayed)
    }
}

/// Selects the single executable artifact of a build from its events.
///
/// The result is the path of the one artifact that names an executable;
/// `MultipleArtifacts` as soon as a second one appears, `NoArtifact` when none
/// does. Beside it come the rendered diagnostics that arrived before the scan
/// ended, in arrival order.
pub fn select_artifact(events: &[BuildEvent]) -> (r: (Result<String, ExportError>, Vec<String>))
    ensures
        r.0 == scan_outcome(scan_events(events@)),
        r.1@ == scan_events(events@).2,
{
    let mut scan = ArtifactScan::new();
    let mut i: usize = 0;
    while i < events.len()
        invariant
            i <= events@.len(),
            scan@ == scan_events(events@.subrange(0, i as int)),
        decreases events@.len() - i,
    {
        scan.observe(&events[i]);
        assert(events@.subrange(0, i + 1).drop_last() =~= events@.subrange(0, i as int));
        i = i + 1;
    }
    assert(events@.subrange(0, i as int) =~= events@);
    scan.finish()
}

/// The deepest bracket nesting that a line of the build stream may have before
/// it is handed to the JSON decoder.
pub const MAX_NESTING: u64 = 128;

/// The JSON lexer state after one more byte: bracket depth, inside a string,
/// after a backslash inside a string. Brackets inside strings do not count, and
/// a closing bracket at depth zero leaves the depth at zero.
pub open spec fn lex_step(st: (nat, bool, bool), b: u8) -> (nat, bool, bool) {
    if st.1 {
        if st.2 {
            (st.0, true, false)
        } else if b == 92 {
            (st.0, true, true)
        } else if b == 34 {
            (st.0, false, false)
        } else {
            st
        }
    } else if b == 34 {
        (st.0, true, false)
    } else if b == 91 || b == 123 {
        (st.0 + 1, false, false)
    } else if (b == 93 || b == 125) && st.0 > 0 {
        ((st.0 - 1) as nat, false, false)
    } else {
        st
    }
}

/// The lexer state after the bytes of `s`.
pub open spec fn lex_state(s: Seq<u8>) -> (nat, bool, bool)
    decreases s.len(),
{
    if s.len() == 0 {
        (0, false, false)
    } else {
        lex_step(lex_state(s.drop_last()), s.last())
    }
}

/// At no point of `s` are brackets nested deeper than `limit`.
pub open spec fn nesting_within(s: Seq<u8>, limit: nat) -> bool {
    forall|k: int| 0 <= k <= s.len() ==> #[trigger] lex_state(s.subrange(0, k)).0 <= limit
}

/// Whether the brackets of `s[start..end]` nest at most `MAX_NESTING` deep.
fn nesting_ok(s: &[u8], start: usize, end: usize) -> (r: bool)
    requires
        start <= end <= s@.len(),
    ensures
        r == nesting_within(s@.subrange(start as int, end as int), MAX_NESTING as nat),
{
    let ghost line = s@.subrange(start as int, end as int);
    let mut depth: u64 = 0;
    let mut in_string = false;
    let mut escaped = false;
    let mut i: usize = start;
    assert(line.subrange(0, 0) =~= Seq::<u8>::empty());
    while i < end
        invariant
            start <= i <= end <= s@.len(),
            line == s@.subrange(start as int, end as int),
            depth <= MAX_NESTING,
            !in_string ==> !escaped,
            (depth as nat, in_string, escaped) == lex_state(line.subrange(0, i - start)),
            forall|k: int|
                0 <= k <= i - start ==> #[trigger] lex_state(line.subrange(0, k)).0 <= MAX_NESTING,
        decreases end - i,
    {
        let b = s[i];
        if in_string {
            if escaped {
                escaped = false;
            } else if b == 92 {
                escaped = true;
            } else if b == 34 {
                in_string = false;
            }
        } else if b == 34 {
            in_string = true;
        } else if b == 91 || b == 123 {
            depth = depth + 1;
        } else if (b == 93 || b == 125) && depth > 0 {
            depth = depth - 1;
        }
        let ghost prefix = line.subrange(0, i + 1 - start);
        assert(prefix.drop_last() =~= line.subrange(0, i - start));
        assert(prefix.last() == b);
        assert(lex_state(prefix) == (depth as nat, in_string, escaped));
        i = i + 1;
        if depth > MAX_NESTING {
            assert(lex_state(line.subrange(0, i - start)).0 > MAX_NESTING);
            return false;
        }
    }
    assert(line.subrange(0, line.len() as int) =~= line);
    true
}

/// The event that cargo_metadata decodes from one line of a build stream
/// (the line with its newline, if it has one); `None` when the line cannot be
/// read, being no UTF-8 text.
pub uninterp spec fn decoded_line(line: Seq<u8>) -> Option<BuildEvent>;

/// Relies on `cargo_metadata::Message::parse_stream` and its iterator's `next`
/// to decode the non-empty line `stdout[start..end]`: the result depends on the
/// bytes of the line alone. The iterator reads with `read_line`, so a non-empty
/// line always yields an item; an I/O error (text that is not UTF-8) becomes
/// `None`. Its decoder runs without a recursion limit, hence the nesting bound.
#[verifier::external_body]
fn parse_event_line(stdout: &[u8], start: usize, end: usize) -> (r: Option<BuildEvent>)
    requires
        start < end <= stdout@.len(),
        nesting_within(stdout@.subrange(start as int, end as int), MAX_NESTING as nat),
    ensures
        r == decoded_line(stdout@.subrange(start as int, end as int)),
{
    match cargo_metadata::Message::parse_stream(&stdout[start..end]).next() {
        None | Some(Err(_)) => None,
        Some(Ok(cargo_metadata::Message::CompilerArtifact(a))) => Some(BuildEvent::ArtifactProduced { executable: a.executable.map(String::from) }),
        Some(Ok(cargo_metadata::Message::CompilerMessage(m))) => Some(BuildEvent::CompilerDiagnostic { rendered: m.message.rendered }),
        Some(Ok(_)) => Some(BuildEvent::Other),
    }
}

/// The end of the line that starts at `pos`, its newline included.
pub open spec fn segment_end(s: Seq<u8>, pos: int) -> int {
    if crate::symbols::line_end(s, pos) < s.len() {
        crate::symbols::line_end(s, pos) + 1
    } else {
        s.len() as int
    }
}

/// The events decoded from the lines of `s` from `pos` on, up to the first line
/// that cannot be read or nests too deep; the flag says whether there is one.
pub open spec fn stream_events_from(s: Seq<u8>, pos: int) -> (Seq<BuildEvent>, bool)
    decreases s.len() + 1 - pos,
    via stream_events_from_decreases
{
    if pos < 0 || pos >= s.len() {
        (Seq::empty(), false)
    } else {
        let seg = s.subrange(pos, segment_end(s, pos));
        if !nesting_within(seg, MAX_NESTING as nat) {
            (Seq::empty(), true)
        } else {
            match decoded_line(seg) {
                None => (Seq::empty(), true),
                Some(ev) => {
                    let rest = stream_events_from(s, segment_end(s, pos));
                    (seq![ev] + rest.0, rest.1)
                },
            }
        }
    }
}

#[via_fn]
proof fn stream_events_from_decreases(s: Seq<u8>, pos: int) {
    if 0 <= pos < s.len() {
        lemma_line_end_bounds(s, pos);
    }
}

/// The events of a whole build stream, and whether an unreadable line ended it.
pub open spec fn stream_events(s: Seq<u8>) -> (Seq<BuildEvent>, bool) {
    stream_events_from(s, 0)
}

/// What scanning a build stream gives: the selection over its events, except
/// that an unreadable line met before a second artifact is an `ExternalTool`
/// error; beside it the diagnostics relayed, in order.
pub open spec fn stream_scan(s: Seq<u8>) -> (Result<String, ExportError>, Seq<String>) {
    let evs = stream_events(s);
    let st = scan_events(evs.0);
    (
        if evs.1 && !st.1 {
            Err(ExportError::ExternalTool)
        } else {
            scan_outcome(st)
        },
        st.2,
    )
}

proof fn lemma_scan_append(a: Seq<BuildEvent>, b: Seq<BuildEvent>)
    requires
        scan_events(a).1,
    ensures
        scan_events(a + b) == scan_events(a),
    decreases b.len(),
{
    if b.len() == 0 {
        assert(a + b =~= a);
    } else {
        lemma_scan_append(a, b.drop_last());
        assert((a + b).drop_last() =~= a + b.drop_last());
    }
}

/// Reads the build's structured output (one JSON message per line), selects the
/// single executable artifact and collects the diagnostics to relay, as
/// `select_artifact` does over the decoded events; a line that cannot be read,
/// or nests deeper than `MAX_NESTING`, ends the scan with `ExternalTool` unless
/// a second artifact came before it.
pub fn scan_build_output(stdout: &[u8]) -> (r: (Result<String, ExportError>, Vec<String>))
    ensures
        r.0 == stream_scan(stdout@).0,
        r.1@ == stream_scan(stdout@).1,
{
    let mut scan = ArtifactScan::new();
    let ghost mut seen: Seq<BuildEvent> = Seq::empty();
    let mut pos: usize = 0;
    let mut unreadable = false;
    while pos < stdout.len() && !unreadable && !scan.has_failed()
        invariant
            pos <= stdout@.len(),
            scan@ == scan_events(seen),
            unreadable ==> !scan@.1 && stream_events(stdout@) == (seen, true),
            !unreadable ==> stream_events(stdout@) == (
            seen + stream_events_from(stdout@, pos as int).0,
            stream_events_from(stdout@, pos as int).1,
            ),
        decreases stdout@.len() - pos,
    {
        let e = crate::symbols::find_line_end(stdout, pos);
        proof {
            lemma_line_end_bounds(stdout@, pos as int);
        }
        let end = if e < stdout.len() {
            e + 1
        } else {
            e
        };
        let ghost rest = stream_events_from(stdout@, end as int);
        if !nesting_ok(stdout, pos, end) {
            unreadable = true;
            assert(seen + Seq::<BuildEvent>::empty() =~= seen);
        } else {
            match parse_event_line(stdout, pos, end) {
                Some(ev) => {
                    scan.observe(&ev);
                    proof {
                        assert(seen.push(ev).drop_last() =~= seen);
                        assert(seen + (seq![ev] + rest.0) =~= seen.push(ev) + rest.0);
                        seen = seen.push(ev);
                    }
                },
                None => {
                    unreadable = true;
                    assert(seen + Seq::<BuildEvent>::empty() =~= seen);
                },
            }
        }
        pos = end;
    }
    proof {
        if !unreadable {
            if scan@.1 {
                lemma_scan_append(seen, stream_events_from(stdout@, pos as int).0);
            } else {
                assert(seen + Seq::<BuildEvent>::empty() =~= seen);
            }
        }
    }
    let (outcome, relayed) = scan.finish();
    if unreadable {
        (Err(ExportError::ExternalTool), relayed)
    } else {
        (outcome, relayed)
    }
}

/// The executable paths that the events name, in order.
pub open spec fn artifact_paths(evs: Seq<BuildEvent>) -> Seq<String>
    decreases evs.len(),
{
    if evs.len() == 0 {
        Seq::empty()
    } else {
        match evs.last() {
            BuildEvent::ArtifactProduced { executable: Some(p) } => artifact_paths(
                evs.drop_last(),
            ).push(p),
            _ => artifact_paths(evs.drop_last()),
        }
    }
}

/// The rendered diagnostic texts of the events, in order.
pub open spec fn diagnostics(evs: Seq<BuildEvent>) -> Seq<String>
    decreases evs.len(),
{
    if evs.len() == 0 {
        Seq::empty()
    } else {
        match evs.last() {
            BuildEvent::CompilerDiagnostic { rendered: Some(t) } => diagnostics(
                evs.drop_last(),
            ).push(t),
            _ => diagnostics(evs.drop_last()),
        }
    }
}

proof fn lemma_scan_by_artifact_count(evs: Seq<BuildEvent>)
    ensures
        artifact_paths(evs).len() == 0 ==> scan_events(evs) == (
        None::<String>,
        false,
        diagnostics(evs),
        ),
        artifact_paths(evs).len() == 1 ==> scan_events(evs) == (
        Some(artifact_paths(evs)[0]),
        false,
        diagnostics(evs),
        ),
        artifact_paths(evs).len() >= 2 ==> scan_events(evs).1,
    decreases evs.len(),
{
    if evs.len() > 0 {
        lemma_scan_by_artifact_count(evs.drop_last());
        let ps = artifact_paths(evs.drop_last());
        if ps.len() == 0 {
            match evs.last() {
                BuildEvent::ArtifactProduced { executable: Some(p) } => {
                    assert(artifact_paths(evs) == ps.push(p));
                    assert(ps.push(p)[0] == p);
                },
                _ => {},
            }
        } else if ps.len() == 1 {
            match evs.last() {
                BuildEvent::ArtifactProduced { executable: Some(p) } => {
                    assert(artifact_paths(evs) == ps.push(p));
                },
                _ => {},
            }
        }
    }
}

/// A stream with exactly one executable artifact selects its path, and relays
/// every diagnostic, in arrival order.
pub proof fn law_single_artifact_selected(evs: Seq<BuildEvent>)
    requires
        artifact_paths(evs).len() == 1,
    ensures
        scan_outcome(scan_events(evs)) == Ok::<String, ExportError>(artifact_paths(evs)[0]),
        scan_events(evs).2 == diagnostics(evs),
{
    lemma_scan_by_artifact_count(evs);
}

/// A stream with two or more executable artifacts fails with `MultipleArtifacts`.
pub proof fn law_multiple_artifacts_fail(evs: Seq<BuildEvent>)
    requires
        artifact_paths(evs).len() >= 2,
    ensures
        scan_outcome(scan_events(evs)) == Err::<String, ExportError>(
            ExportError::MultipleArtifacts,
        ),
{
    lemma_scan_by_artifact_count(evs);
}

/// A stream with no executable artifact fails with `NoArtifact`, after relaying
/// every diagnostic.
pub proof fn law_no_artifact_fails(evs: Seq<BuildEvent>)
    requires
        artifact_paths(evs).len() == 0,
    ensures
        scan_outcome(scan_events(evs)) == Err::<String, ExportError>(ExportError::NoArtifact),
        scan_events(evs).2 == diagnostics(evs),
{
    lemma_scan_by_artifact_count(evs);
}

/// A build stream whose lines all read and whose events hold exactly one
/// executable artifact selects its path and relays every diagnostic in order.
pub proof fn law_stream_single_artifact(s: Seq<u8>)
    requires
        !stream_events(s).1,
        artifact_paths(stream_events(s).0).len() == 1,
    ensures
        stream_scan(s).0 == Ok::<String, ExportError>(artifact_paths(stream_events(s).0)[0]),
        stream_scan(s).1 == diagnostics(stream_events(s).0),
{
    lemma_scan_by_artifact_count(stream_events(s).0);
}

/// A build stream whose events hold two or more executable artifacts fails
/// with `MultipleArtifacts`, whatever follows them.
pub proof fn law_stream_multiple_artifacts(s: Seq<u8>)
    requires
        artifact_paths(stream_events(s).0).len() >= 2,
    ensures
        stream_scan(s).0 == Err::<String, ExportError>(ExportError::MultipleArtifacts),
{
    lemma_scan_by_artifact_count(stream_events(s).0);
}

/// A build stream whose lines all read and whose events hold no executable
/// artifact fails with `NoArtifact`, after relaying every diagnostic.
pub proof fn law_stream_no_artifact(s: Seq<u8>)
    requires
        !stream_events(s).1,
        artifact_paths(stream_events(s).0).len() == 0,
    ensures
        stream_scan(s).0 == Err::<String, ExportError>(ExportError::NoArtifact),
        stream_scan(s).1 == diagnostics(stream_events(s).0),
{
    lemma_scan_by_artifact_count(stream_events(s).0);
}

} // verus!
