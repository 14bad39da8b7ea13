use flash_export::descriptor::{build_descriptor, push_hex, render_descriptor};
use flash_export::error::ExportError;
use flash_export::events::{scan_build_output, select_artifact, ArtifactScan, BuildEvent};
use flash_export::image::encode_image;
use flash_export::symbols::{parse_hex, resolve_addresses, Addresses};

use base64::Engine;

const FULL_LISTING: &str =
    "00000101 T Init\n00000201 T UnInit\n00000301 T ProgramPage\n00000401 T EraseSector\n00000501 T EraseChip\n";

fn addresses(init: u64, uninit: u64, program_page: u64, erase_sector: u64, erase_chip: u64) -> Addresses {
    Addresses { init, uninit, program_page, erase_sector, erase_chip }
}

fn artifact(path: &str) -> BuildEvent {
    BuildEvent::ArtifactProduced { executable: Some(path.to_string()) }
}

fn diagnostic(text: &str) -> BuildEvent {
    BuildEvent::CompilerDiagnostic { rendered: Some(text.to_string()) }
}

#[test]
fn end_to_end_descriptor() {
    let d = build_descriptor("algo", FULL_LISTING.as_bytes(), &[]).unwrap();
    assert!(d.contains("pc_init: 0x102\n"));
    assert!(d.contains("pc_uninit: 0x202\n"));
    assert!(d.contains("pc_program_page: 0x302\n"));
    assert!(d.contains("pc_erase_sector: 0x402\n"));
    assert!(d.contains("pc_erase_all: 0x502\n"));
    assert!(d.contains("instructions: \"\"\n"));
    assert_eq!(
        d,
        "flash_algorithm:\n  - name: algo\n    instructions: \"\"\n    pc_init: 0x102\n    pc_uninit: 0x202\n    pc_program_page: 0x302\n    pc_erase_sector: 0x402\n    pc_erase_all: 0x502\n"
    );
}

#[test]
fn descriptor_fails_on_bad_listing() {
    assert_eq!(build_descriptor("algo", b"xyz T Init\n", &[1, 2, 3]), Err(ExportError::SymbolParse));
}

#[test]
fn descriptor_holds_encoded_image() {
    let d = build_descriptor("algo", b"", &[0, 1, 2, 3]).unwrap();
    assert!(d.contains("instructions: \"AAECAw==\"\n"));
    assert!(d.contains("pc_init: 0x0\n"));
}

#[test]
fn resolves_all_entry_points() {
    assert_eq!(resolve_addresses(FULL_LISTING.as_bytes()), Ok(addresses(0x102, 0x202, 0x302, 0x402, 0x502)));
}

#[test]
fn init_line_sets_init_address() {
    let r = resolve_addresses(b"0800abcd T Init\n").unwrap();
    assert_eq!(r.init, 0x0800abce);
    assert_eq!(r, addresses(0x0800abce, 0, 0, 0, 0));
}

#[test]
fn missing_entry_points_are_zero() {
    let r = resolve_addresses(b"00000101 T Init\n00000501 T EraseChip\n").unwrap();
    assert_eq!(r, addresses(0x102, 0, 0, 0, 0x502));
}

#[test]
fn empty_listing_is_all_zero() {
    assert_eq!(resolve_addresses(b""), Ok(addresses(0, 0, 0, 0, 0)));
}

#[test]
fn other_symbols_are_ignored() {
    let listing = b"00000010 T main\n00000020 t Init\n00000030 D Init\nzzzz T Helper\n00000040 T Init\n";
    assert_eq!(resolve_addresses(listing), Ok(addresses(0x41, 0, 0, 0, 0)));
}

#[test]
fn last_duplicate_wins() {
    let r = resolve_addresses(b"00000100 T Init\n00000200 T Init\n").unwrap();
    assert_eq!(r.init, 0x201);
}

#[test]
fn crlf_lines_and_missing_final_newline() {
    let r = resolve_addresses(b"00000100 T UnInit\r\n00000300 T EraseSector").unwrap();
    assert_eq!(r, addresses(0, 0x101, 0, 0x301, 0));
}

#[test]
fn upper_case_hex_is_read() {
    let r = resolve_addresses(b"0000ABCD T ProgramPage\n").unwrap();
    assert_eq!(r.program_page, 0xabce);
}

#[test]
fn two_separators_make_no_entry() {
    assert_eq!(resolve_addresses(b"00000100 T Init T x\n"), Ok(addresses(0, 0, 0, 0, 0)));
}

#[test]
fn malformed_entry_address_is_an_error() {
    assert_eq!(resolve_addresses(b"00000101 T Init\n0x100 T UnInit\n"), Err(ExportError::SymbolParse));
    assert_eq!(resolve_addresses(b" T Init\n"), Err(ExportError::SymbolParse));
}

#[test]
fn address_out_of_range_is_an_error() {
    assert_eq!(resolve_addresses(b"10000000000000000 T Init\n"), Err(ExportError::SymbolParse));
    assert_eq!(resolve_addresses(b"ffffffffffffffff T Init\n"), Err(ExportError::SymbolParse));
    let r = resolve_addresses(b"fffffffffffffffe T EraseChip\n").unwrap();
    assert_eq!(r.erase_chip, u64::MAX);
}

#[test]
fn parse_hex_reads_ranges() {
    let text = b"x1fY";
    assert_eq!(parse_hex(text, 1, 3), Some(0x1f));
    assert_eq!(parse_hex(text, 1, 4), None);
    assert_eq!(parse_hex(text, 2, 2), None);
    assert_eq!(parse_hex(b"ffffffffffffffff", 0, 16), Some(u64::MAX));
}

#[test]
fn single_artifact_is_selected_with_diagnostics() {
    let events = vec![
        diagnostic("warning: one\n"),
        BuildEvent::Other,
        artifact("/w/target/algo"),
        BuildEvent::ArtifactProduced { executable: None },
        diagnostic("warning: two\n"),
        BuildEvent::CompilerDiagnostic { rendered: None },
    ];
    let (outcome, relayed) = select_artifact(&events);
    assert_eq!(outcome, Ok("/w/target/algo".to_string()));
    assert_eq!(relayed, vec!["warning: one\n".to_string(), "warning: two\n".to_string()]);
}

#[test]
fn two_artifacts_fail() {
    let events = vec![artifact("/a"), diagnostic("before\n"), artifact("/b"), diagnostic("after\n")];
    let (outcome, relayed) = select_artifact(&events);
    assert_eq!(outcome, Err(ExportError::MultipleArtifacts));
    assert_eq!(relayed, vec!["before\n".to_string()]);
}

#[test]
fn no_artifact_fails() {
    let events = vec![diagnostic("error: failed\n"), BuildEvent::ArtifactProduced { executable: None }];
    let (outcome, relayed) = select_artifact(&events);
    assert_eq!(outcome, Err(ExportError::NoArtifact));
    assert_eq!(relayed, vec!["error: failed\n".to_string()]);
    assert_eq!(select_artifact(&[]).0, Err(ExportError::NoArtifact));
}

#[test]
fn scan_stops_at_second_artifact() {
    let mut scan = ArtifactScan::new();
    scan.observe(&artifact("/a"));
    assert!(!scan.has_failed());
    scan.observe(&artifact("/b"));
    assert!(scan.has_failed());
    scan.observe(&diagnostic("late\n"));
    let (outcome, relayed) = scan.finish();
    assert_eq!(outcome, Err(ExportError::MultipleArtifacts));
    assert!(relayed.is_empty());
}

const TARGET_JSON: &str = r#"{"name":"algo","kind":["bin"],"crate_types":["bin"],"src_path":"/w/src/main.rs","edition":"2021"}"#;

fn artifact_line(executable: &str) -> String {
    format!(
        r#"{{"reason":"compiler-artifact","package_id":"algo 0.1.0","manifest_path":"/w/Cargo.toml","target":{},"profile":{{"opt_level":"3","debuginfo":0,"debug_assertions":false,"overflow_checks":false,"test":false}},"features":[],"filenames":["{}"],"executable":{},"fresh":false}}"#,
        TARGET_JSON,
        executable,
        if executable.is_empty() { "null".to_string() } else { format!("\"{}\"", executable) }
    )
}

fn message_line(rendered: &str) -> String {
    format!(
        r#"{{"reason":"compiler-message","package_id":"algo 0.1.0","target":{},"message":{{"message":"m","code":null,"level":"warning","spans":[],"children":[],"rendered":"{}"}}}}"#,
        TARGET_JSON, rendered
    )
}

#[test]
fn build_stream_selects_artifact() {
    let stream = format!(
        "{}\n{}\n{}\nplain text\n{{\"reason\":\"build-finished\",\"success\":true}}\n",
        message_line("warning: a\\n"),
        artifact_line(""),
        artifact_line("/w/target/algo")
    );
    let (outcome, relayed) = scan_build_output(stream.as_bytes());
    assert_eq!(outcome, Ok("/w/target/algo".to_string()));
    assert_eq!(relayed, vec!["warning: a\n".to_string()]);
}

#[test]
fn build_stream_with_two_artifacts_fails() {
    let stream = format!("{}\n{}\n", artifact_line("/w/a"), artifact_line("/w/b"));
    assert_eq!(scan_build_output(stream.as_bytes()).0, Err(ExportError::MultipleArtifacts));
}

#[test]
fn build_stream_without_artifact_fails() {
    let stream = format!("{}\n", message_line("error: x"));
    let (outcome, relayed) = scan_build_output(stream.as_bytes());
    assert_eq!(outcome, Err(ExportError::NoArtifact));
    assert_eq!(relayed, vec!["error: x".to_string()]);
    assert_eq!(scan_build_output(b"").0, Err(ExportError::NoArtifact));
}

#[test]
fn unreadable_build_stream_is_a_tool_failure() {
    let mut stream = artifact_line("/w/a").into_bytes();
    stream.extend_from_slice(b"\n\xff\xfe\n");
    assert_eq!(scan_build_output(&stream).0, Err(ExportError::ExternalTool));
}

#[test]
fn deeply_nested_line_is_refused() {
    let mut stream = artifact_line("/w/a").into_bytes();
    stream.push(b'\n');
    stream.extend(std::iter::repeat(b'[').take(5000));
    stream.push(b'\n');
    stream.extend(artifact_line("/w/b").into_bytes());
    assert_eq!(scan_build_output(&stream).0, Err(ExportError::ExternalTool));
}

#[test]
fn nesting_limit_is_inclusive() {
    let mut line = "[".repeat(128);
    line.push_str(&"]".repeat(128));
    let stream = format!("{}\n{}\n", line, artifact_line("/w/a"));
    assert_eq!(scan_build_output(stream.as_bytes()).0, Ok("/w/a".to_string()));
    let mut line = "[".repeat(129);
    line.push_str(&"]".repeat(129));
    let stream = format!("{}\n{}\n", line, artifact_line("/w/a"));
    assert_eq!(scan_build_output(stream.as_bytes()).0, Err(ExportError::ExternalTool));
}

#[test]
fn brackets_inside_strings_do_not_nest() {
    let text = format!("{}\\\"{}", "[".repeat(300), "{".repeat(300));
    let stream = format!("{}\n{}\n", message_line(&text), artifact_line("/w/a"));
    let (outcome, relayed) = scan_build_output(stream.as_bytes());
    assert_eq!(outcome, Ok("/w/a".to_string()));
    assert_eq!(relayed, vec![format!("{}\"{}", "[".repeat(300), "{".repeat(300))]);
}

#[test]
fn second_artifact_before_unreadable_line_wins() {
    let mut stream = format!("{}\n{}\n", artifact_line("/w/a"), artifact_line("/w/b")).into_bytes();
    stream.extend_from_slice(b"\xff\n");
    assert_eq!(scan_build_output(&stream).0, Err(ExportError::MultipleArtifacts));
}

#[test]
fn image_encoding_is_standard_base64() {
    assert_eq!(encode_image(&[]), "");
    assert_eq!(encode_image(b"f"), "Zg==");
    assert_eq!(encode_image(b"fo"), "Zm8=");
    assert_eq!(encode_image(b"foo"), "Zm9v");
    assert_eq!(encode_image(&[0xfb, 0xff]), "+/8=");
}

#[test]
fn image_encoding_round_trips() {
    let image: Vec<u8> = (0..=255u8).chain(0..7).collect();
    let text = encode_image(&image);
    let back = base64::engine::general_purpose::STANDARD.decode(text).unwrap();
    assert_eq!(back, image);
}

#[test]
fn hex_is_lower_case_without_leading_zeros() {
    let mut s = String::from("0x");
    push_hex(&mut s, 0);
    assert_eq!(s, "0x0");
    let mut s = String::new();
    push_hex(&mut s, 0xdead_beef);
    assert_eq!(s, "deadbeef");
    let mut s = String::new();
    push_hex(&mut s, u64::MAX);
    assert_eq!(s, "ffffffffffffffff");
}

#[test]
fn render_descriptor_layout() {
    let d = render_descriptor("probe", "QUJD", &addresses(1, 0x10, 0xff, 0x100, 0xabc));
    assert_eq!(
        d,
        "flash_algorithm:\n  - name: probe\n    instructions: \"QUJD\"\n    pc_init: 0x1\n    pc_uninit: 0x10\n    pc_program_page: 0xff\n    pc_erase_sector: 0x100\n    pc_erase_all: 0xabc\n"
    );
}

#[test]
fn error_messages_are_distinct() {
    let all = [
        ExportError::MultipleArtifacts,
        ExportError::NoArtifact,
        ExportError::SymbolParse,
        ExportError::ExternalTool,
        ExportError::Io,
    ];
    for (i, a) in all.iter().enumerate() {
        for b in all.iter().skip(i + 1) {
            assert_ne!(a.message(), b.message());
        }
    }
}
