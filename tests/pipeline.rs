use codegen_fetch::pipeline::{error_line, is_final, next_stage, success_line, Stage};

#[test]
fn five_successes_reach_done() {
    let mut s = Stage::Idle;
    let expected = [
        Stage::ConfigLoaded,
        Stage::SpecFetched,
        Stage::ArchiveFetched,
        Stage::Extracted,
        Stage::Done,
    ];
    for e in expected {
        assert!(!is_final(s));
        s = next_stage(s, true);
        assert_eq!(s, e);
    }
    assert!(is_final(s));
    assert_eq!(next_stage(s, false), Stage::Done);
}

#[test]
fn failure_is_final() {
    let s = next_stage(next_stage(Stage::Idle, true), false);
    assert_eq!(s, Stage::Failed);
    assert!(is_final(s));
    assert_eq!(next_stage(s, true), Stage::Failed);
}

#[test]
fn report_lines() {
    assert_eq!(error_line("boom"), "\x1b[0;31mError:\x1b[0m boom");
    assert_eq!(success_line(), "\x1b[0;32mSuccess\x1b[0m");
}
