use antibot::setup::{gitignore_update, run, GitInit, SetupAction, SetupEvent, SetupPhase};

const CONTENT: &str = "/target\nantibot.toml\n*.env\n*.pem\n*.key\nid_rsa*\n";

#[test]
fn missing_gitignore_gets_the_needed_lines() {
    assert_eq!(gitignore_update(None), Some(CONTENT.to_string()));
}

#[test]
fn gitignore_is_completed_not_replaced() {
    assert_eq!(gitignore_update(Some("node_modules\n")), Some(format!("node_modules\n{}", CONTENT)));
    assert_eq!(gitignore_update(Some("node_modules")), Some(format!("node_modules\n{}", CONTENT)));
    assert_eq!(gitignore_update(Some("")), Some(CONTENT.to_string()));
    // a line that merely contains the name does not protect the file
    assert_eq!(
        gitignore_update(Some("antibot.toml.bak\n")),
        Some(format!("antibot.toml.bak\n{}", CONTENT))
    );
}

#[test]
fn protected_gitignore_is_kept() {
    assert_eq!(gitignore_update(Some("target\n  antibot.toml \r\nx\n")), None);
    assert_eq!(gitignore_update(Some("antibot.toml")), None);
    assert_eq!(gitignore_update(Some(CONTENT)), None);
}

#[test]
fn second_setup_writes_nothing() {
    for start in [None, Some(""), Some("a"), Some("a\n"), Some("x\r\n")] {
        let first = gitignore_update(start).unwrap();
        assert_eq!(gitignore_update(Some(&first)), None);
        if let Some(s) = start {
            assert!(first.starts_with(s));
        }
    }
}

#[test]
fn fresh_project_is_set_up() {
    let (p, a) = run(SetupPhase::Start, SetupEvent::Begin);
    assert!(matches!(a, SetupAction::CheckConfig));
    let (p, a) = run(p, SetupEvent::ConfigChecked { config_exists: false, example_exists: true });
    assert!(matches!(a, SetupAction::CopyExampleConfig));
    let (p, a) = run(p, SetupEvent::ConfigCopied);
    assert!(matches!(a, SetupAction::ReadGitignore));
    let (p, a) = run(p, SetupEvent::GitignoreRead(None));
    match a {
        SetupAction::WriteGitignore(t) => assert_eq!(t, CONTENT),
        _ => panic!("expected a write"),
    }
    let (p, a) = run(p, SetupEvent::GitignoreWritten);
    assert!(matches!(a, SetupAction::CheckGitRepo));
    let (p, a) = run(p, SetupEvent::GitChecked { is_repo: false });
    assert!(matches!(a, SetupAction::RunGitInit));
    let (p, a) = run(p, SetupEvent::GitInitDone(GitInit::NotFound));
    assert!(matches!(a, SetupAction::Finish));
    assert_eq!(p, SetupPhase::Done);
}

#[test]
fn set_up_project_is_left_alone() {
    let (p, _) = run(SetupPhase::Start, SetupEvent::Begin);
    let (p, a) = run(p, SetupEvent::ConfigChecked { config_exists: true, example_exists: false });
    assert!(matches!(a, SetupAction::ReadGitignore));
    let (p, a) = run(p, SetupEvent::GitignoreRead(Some(CONTENT.to_string())));
    assert!(matches!(a, SetupAction::CheckGitRepo));
    let (p, a) = run(p, SetupEvent::GitChecked { is_repo: true });
    assert!(matches!(a, SetupAction::Finish));
    assert_eq!(p, SetupPhase::Done);
}

#[test]
fn missing_template_fails() {
    let (p, a) = run(SetupPhase::CheckingConfig, SetupEvent::ConfigChecked { config_exists: false, example_exists: false });
    assert!(matches!(a, SetupAction::FailMissingExample));
    assert_eq!(p, SetupPhase::Failed);
}
