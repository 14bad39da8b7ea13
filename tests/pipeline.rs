use flash_export::error::ExportError;
use flash_export::pipeline::{try_main, Action, Command, Event, ExportPipeline, Stage};

const TARGET_JSON: &str = r#"{"name":"algo","kind":["bin"],"crate_types":["bin"],"src_path":"/w/src/main.rs","edition":"2021"}"#;

fn artifact_line(executable: &str) -> String {
    format!(
        r#"{{"reason":"compiler-artifact","package_id":"algo 0.1.0","manifest_path":"/w/Cargo.toml","target":{},"profile":{{"opt_level":"3","debuginfo":0,"debug_assertions":false,"overflow_checks":false,"test":false}},"features":[],"filenames":["{}"],"executable":"{}","fresh":false}}"#,
        TARGET_JSON, executable, executable
    )
}

fn message_line(rendered: &str) -> String {
    format!(
        r#"{{"reason":"compiler-message","package_id":"algo 0.1.0","target":{},"message":{{"message":"m","code":null,"level":"warning","spans":[],"children":[],"rendered":"{}"}}}}"#,
        TARGET_JSON, rendered
    )
}

fn started() -> ExportPipeline {
    let (p, a) = try_main(Command::Export, "algo".to_string());
    assert_eq!(a, Action::RunBuild);
    assert_eq!(p.stage, Stage::Invoking);
    p
}

#[test]
fn export_runs_all_stages() {
    let p = started();
    let stdout = format!("{}\n{}\n", message_line("warning: w"), artifact_line("/w/algo")).into_bytes();
    let (p, a, relay) = p.step(Event::BuildOutput { stdout });
    assert_eq!(relay, vec!["warning: w".to_string()]);
    assert_eq!(a, Action::ListSymbols { artifact: "/w/algo".to_string() });
    let listing = b"00000101 T Init\n00000201 T UnInit\n00000301 T ProgramPage\n00000401 T EraseSector\n00000501 T EraseChip\n".to_vec();
    let (p, a, _) = p.step(Event::SymbolListing { listing });
    assert_eq!(a, Action::ExtractImage { artifact: "/w/algo".to_string() });
    let (p, a, _) = p.step(Event::Image { bytes: vec![] });
    let expected = "flash_algorithm:\n  - name: algo\n    instructions: \"\"\n    pc_init: 0x102\n    pc_uninit: 0x202\n    pc_program_page: 0x302\n    pc_erase_sector: 0x402\n    pc_erase_all: 0x502\n";
    assert_eq!(a, Action::WriteDescriptor { text: expected.to_string() });
    let (p, a, _) = p.step(Event::Written);
    assert_eq!(a, Action::WriteDebugInfo { artifact: "/w/algo".to_string() });
    let (p, a, _) = p.step(Event::Written);
    assert_eq!(a, Action::Finish);
    assert_eq!(p.stage, Stage::Done);
    let (p, a, _) = p.step(Event::Written);
    assert_eq!((p.stage, a), (Stage::Done, Action::Finish));
}

#[test]
fn multiple_artifacts_stop_the_export() {
    let stdout = format!("{}\n{}\n", artifact_line("/w/a"), artifact_line("/w/b")).into_bytes();
    let (p, a, _) = started().step(Event::BuildOutput { stdout });
    let fail = Action::Fail { error: ExportError::MultipleArtifacts };
    assert_eq!(a, fail);
    let (p, a, _) = p.step(Event::Image { bytes: vec![1] });
    assert_eq!(a, fail);
    assert_eq!(p.stage, Stage::Failed { error: ExportError::MultipleArtifacts });
}

#[test]
fn missing_artifact_stops_the_export() {
    let (p, a, _) = started().step(Event::BuildOutput { stdout: b"not json\n".to_vec() });
    assert_eq!(a, Action::Fail { error: ExportError::NoArtifact });
    assert_eq!(p.stage, Stage::Failed { error: ExportError::NoArtifact });
}

#[test]
fn bad_listing_stops_before_the_descriptor() {
    let p = ExportPipeline { name: "algo".to_string(), stage: Stage::Resolving { artifact: "/w/a".to_string() } };
    let (p, _, _) = p.step(Event::SymbolListing { listing: b"0x1 T Init\n".to_vec() });
    let (p, a, _) = p.step(Event::Image { bytes: vec![] });
    assert_eq!(a, Action::Fail { error: ExportError::SymbolParse });
    assert_eq!(p.name, "algo");
}

#[test]
fn tool_and_write_failures_end_the_export() {
    let (_, a, _) = started().step(Event::ToolFailed);
    assert_eq!(a, Action::Fail { error: ExportError::ExternalTool });
    let p = ExportPipeline { name: "n".to_string(), stage: Stage::Emitting { artifact: "/a".to_string() } };
    let (_, a, _) = p.step(Event::WriteFailed);
    assert_eq!(a, Action::Fail { error: ExportError::Io });
}

#[test]
fn unexpected_event_is_a_tool_failure() {
    let (_, a, _) = started().step(Event::Written);
    assert_eq!(a, Action::Fail { error: ExportError::ExternalTool });
}
