use provenclaw::cli::{
    added_tool_line, parse_export_format, parse_mode, receipt_row, receipt_verdict_line, tool_row,
    ExportFormat,
};
use provenclaw::listing::ReceiptListItem;
use provenclaw::model::{EnforcementMode, RiskLevel, Timestamp, ToolRegistration, VerificationStatus};
use provenclaw::tui::{
    deep_verify_status, handle, header_text, map_key, palette_items, refresh_status,
    remediation_hint, risk_label, run_view_text, selected_index, settings_text, snapshot_text,
    verification_label, AppState, FocusPane, HeaderFacts, Key, KeyPress, Modifiers, TuiError,
    TuiOptions, UiAction, UiEffect, View,
};

fn press(key: Key) -> KeyPress {
    KeyPress { key, modifiers: Modifiers::Plain }
}

#[test]
fn views_and_titles() {
    let all = View::all();
    assert_eq!(all.len(), 9);
    assert_eq!(all[5], View::AuditStream);
    assert_eq!(View::AuditStream.title(), "Audit Stream");
    let items = palette_items();
    assert_eq!(items.len(), 9);
    assert_eq!(items[8], ("Settings", View::Settings));
}

#[test]
fn focus_cycles_both_ways() {
    for f in [FocusPane::Nav, FocusPane::Center, FocusPane::Inspector] {
        assert_eq!(f.next().prev(), f);
        assert_eq!(f.prev().next(), f);
        assert_eq!(f.next().next().next(), f);
    }
    assert_eq!(FocusPane::Nav.next(), FocusPane::Center);
}

#[test]
fn default_state() {
    let s = AppState::default();
    assert_eq!(s.view, View::Dashboard);
    assert_eq!(s.status, "Ctrl+K: palette | ?: help | q: quit");
    let o = TuiOptions::default();
    assert!(!o.read_only && o.snapshot.is_none());
}

#[test]
fn navigation_moves_and_clamps() {
    let mut s = AppState::default();
    for _ in 0..20 {
        assert_eq!(handle(&mut s, UiAction::MoveDown, false), UiEffect::Nothing);
    }
    assert_eq!(s.nav_index, 8);
    assert_eq!(s.view, View::Settings);
    handle(&mut s, UiAction::MoveUp, false);
    assert_eq!(s.nav_index, 7);
    assert_eq!(s.view, View::Settings);
    handle(&mut s, UiAction::Tab, false);
    assert_eq!(s.focus, FocusPane::Center);
    handle(&mut s, UiAction::MoveUp, false);
    assert_eq!(s.center_index, 0);
    handle(&mut s, UiAction::MoveDown, false);
    assert_eq!(s.center_index, 1);
}

#[test]
fn palette_selects_views() {
    let mut s = AppState::default();
    handle(&mut s, UiAction::TogglePalette, false);
    assert!(s.show_palette);
    handle(&mut s, UiAction::MoveDown, false);
    handle(&mut s, UiAction::MoveDown, false);
    handle(&mut s, UiAction::MoveUp, false);
    assert_eq!(s.palette_index, 1);
    assert_eq!(handle(&mut s, UiAction::Refresh, false), UiEffect::Refresh);
    handle(&mut s, UiAction::Enter, false);
    assert!(!s.show_palette);
    assert_eq!(s.view, View::Run);
    assert_eq!(s.nav_index, 1);
    assert_eq!(s.status, "switched to Run");
}

#[test]
fn search_edits_the_query() {
    let mut s = AppState::default();
    handle(&mut s, UiAction::StartSearch, false);
    assert_eq!(s.status, "search mode: type to filter receipts by digest");
    handle(&mut s, UiAction::SearchInput('a'), false);
    handle(&mut s, UiAction::SearchInput('b'), false);
    handle(&mut s, UiAction::SearchBackspace, false);
    assert_eq!(s.search_query, "a");
    assert_eq!(s.status, "search query=a");
    assert_eq!(handle(&mut s, UiAction::Quit, false), UiEffect::Nothing);
    assert!(!s.search_mode);
    handle(&mut s, UiAction::StartSearch, false);
    assert_eq!(handle(&mut s, UiAction::SearchSubmit, false), UiEffect::Reload);
    assert!(!s.search_mode);
    handle(&mut s, UiAction::StartSearch, false);
    handle(&mut s, UiAction::SearchCancel, false);
    assert!(!s.search_mode);
}

#[test]
fn quit_closes_help_first() {
    let mut s = AppState::default();
    handle(&mut s, UiAction::ToggleHelp, false);
    assert_eq!(handle(&mut s, UiAction::Quit, false), UiEffect::Nothing);
    assert!(!s.show_help);
    assert_eq!(handle(&mut s, UiAction::Quit, false), UiEffect::Quit);
}

#[test]
fn actions_ask_the_host() {
    let mut s = AppState::default();
    handle(&mut s, UiAction::QuickGoto(View::Run), false);
    assert_eq!(handle(&mut s, UiAction::Enter, false), UiEffect::RunFirstTool);
    assert_eq!(handle(&mut s, UiAction::Enter, true), UiEffect::Nothing);
    assert_eq!(s.status, "read-only mode: run execution is disabled in forensics mode");
    assert_eq!(handle(&mut s, UiAction::DeepVerify, false), UiEffect::Nothing);
    assert_eq!(s.status, "deep verify applies to receipts view");
    handle(&mut s, UiAction::QuickGoto(View::Receipts), false);
    assert_eq!(s.nav_index, 4);
    assert_eq!(handle(&mut s, UiAction::DeepVerify, false), UiEffect::DeepVerify);
    handle(&mut s, UiAction::QuickGoto(View::Policy), false);
    assert_eq!(handle(&mut s, UiAction::Enter, false), UiEffect::ExplainPolicy);
    assert_eq!(handle(&mut s, UiAction::Export, false), UiEffect::Export);
    assert_eq!(handle(&mut s, UiAction::Idle, false), UiEffect::Nothing);
}

#[test]
fn keys_map_to_actions() {
    let mut s = AppState::default();
    let ctrl_k = KeyPress { key: Key::Char('k'), modifiers: Modifiers::ControlOnly };
    assert!(matches!(map_key(ctrl_k, &mut s), UiAction::TogglePalette));
    assert!(matches!(map_key(press(Key::Char('k')), &mut s), UiAction::MoveUp));
    assert!(matches!(map_key(press(Key::Down), &mut s), UiAction::MoveDown));
    let shift_tab = KeyPress { key: Key::BackTab, modifiers: Modifiers::ShiftOnly };
    assert!(matches!(map_key(shift_tab, &mut s), UiAction::ShiftTab));
    assert!(matches!(map_key(press(Key::BackTab), &mut s), UiAction::Idle));
    assert!(matches!(map_key(press(Key::Char('g')), &mut s), UiAction::Idle));
    assert!(s.pending_g);
    assert!(matches!(map_key(press(Key::Char('r')), &mut s), UiAction::QuickGoto(View::Receipts)));
    assert!(!s.pending_g);
    assert!(matches!(map_key(press(Key::Char('r')), &mut s), UiAction::Refresh));
    s.search_mode = true;
    assert!(matches!(map_key(press(Key::Char('q')), &mut s), UiAction::SearchInput('q')));
    assert!(matches!(map_key(press(Key::Esc), &mut s), UiAction::SearchCancel));
}

#[test]
fn labels_and_texts() {
    assert_eq!(
        remediation_hint("provenance-required-check-failed:provenact.cli=fail"),
        "Missing required provenance checks. Fix signer trust, signature, attestation, or verifier setup."
    );
    assert_eq!(
        remediation_hint("network-disabled-in-config"),
        "Network is disabled. Enable network or remove network capability requests."
    );
    assert_eq!(
        remediation_hint("policy-match"),
        "Inspect policy explain and verification report for exact failing checks."
    );
    assert_eq!(verification_label(&VerificationStatus::Warn), "warn");
    assert_eq!(risk_label(&RiskLevel::Degraded), "degraded");
    assert_eq!(header_text(None), "provenance=unknown enforcement=unknown risk=unknown");
    let facts = HeaderFacts {
        latest_provenance: Some(VerificationStatus::Pass),
        enforcement_mode: EnforcementMode::Enforce,
        risk_level: RiskLevel::Low,
    };
    assert_eq!(header_text(Some(facts)), "provenance=pass enforcement=enforce risk=low");
    assert_eq!(
        refresh_status(View::Tools, 2, 0, 31, true),
        "view=Tools tools=2 receipts=0 audit=31 read_only=true"
    );
    assert_eq!(
        snapshot_text("h", View::Trust, 1, 2, 3, "ok"),
        "header=\"h\" view=Trust tools=1 receipts=2 audit=3 status=ok"
    );
    assert_eq!(deep_verify_status("r-1", true, false, true), "receipt=r-1 hash=true sig=false chain=true");
    assert_eq!(selected_index(7, 3), Some(1));
    assert_eq!(selected_index(7, 0), None);
    assert_eq!(settings_text(false, "abc"), "read_only=false\nsearch_query=abc");
    assert_eq!(
        run_view_text("deny", "runtime-execution-failed:timeout", 1, "{}"),
        "Press Enter to run first tool with safe default input.\n\nLast run decision=deny reason=runtime-execution-failed:timeout warnings=1\nRemediation hint: Runtime failed. Verify bundle path, provenact path, and runtime limits.\n\n{}"
    );
    assert_eq!(TuiError::Io("gone".to_string()).message(), "io error: gone");
}

#[test]
fn modes_and_formats_parse() {
    assert_eq!(parse_mode("WARN"), Ok(EnforcementMode::Warn));
    assert_eq!(parse_mode("Enforce"), Ok(EnforcementMode::Enforce));
    assert_eq!(parse_mode("strict"), Err("invalid mode; expected warn|enforce".to_string()));
    assert_eq!(parse_export_format("ndjson"), Ok(ExportFormat::Ndjson));
    assert_eq!(parse_export_format("JSON"), Err("unsupported format, expected json|ndjson".to_string()));
}

#[test]
fn listing_rows() {
    let tool = ToolRegistration {
        name: "fetch_invoice".to_string(),
        digest: "sha256:1234abcd".to_string(),
        publisher: "acme.sec".to_string(),
        policy: "policy.default.json".to_string(),
        bundle_path: Some("/b.wasm".to_string()),
        signature_path: None,
        attestations_path: None,
        signing_identity: None,
        verification_profile: None,
    };
    assert_eq!(
        tool_row(&tool),
        "fetch_invoice\tsha256:1234abcd\tacme.sec\tpolicy.default.json\t/b.wasm\t-\t-"
    );
    assert_eq!(
        added_tool_line(&tool),
        "added tool name=fetch_invoice digest=sha256:1234abcd publisher=acme.sec policy=policy.default.json"
    );
    let item = ReceiptListItem {
        id: "r-1".to_string(),
        timestamp: Timestamp { secs: 0, nanos: 0 },
        decision: "allow".to_string(),
        tool_digest: "sha256:t".to_string(),
    };
    assert_eq!(receipt_row(&item, "1970-01-01 00:00:00 UTC"), "r-1\t1970-01-01 00:00:00 UTC\tallow\tsha256:t");
    assert_eq!(receipt_verdict_line("r-1", false), "receipt r-1 invalid");
}
