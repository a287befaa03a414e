//! Bootstrapping a project: `antibot.toml` from its template, a
//! `.gitignore` that keeps the configuration and the secrets out of git,
//! and a git repository. Running it again changes nothing that exists; it
//! only completes what is missing.
use vstd::prelude::*;

use crate::text::{
    find_from, lemma_find_from, lemma_scan, lemma_split_nonempty, lemma_rscan_ws, lines, lines_of,
    push_char, push_str, rscan_ws, split_char, split_from, strip_cr, trim, trim_str, views,
    same_text, chars_of, CharClass, in_class, is_ws,
};

verus! {

/// What a `.gitignore` needs: the build output, the configuration and the
/// usual secret files, one per line.
pub open spec fn gitignore_content() -> Seq<char> {
    "/target\nantibot.toml\n*.env\n*.pem\n*.key\nid_rsa*\n"@
}

/// The line that shows a `.gitignore` already protects the configuration.
pub open spec fn gitignore_marker() -> Seq<char> {
    "antibot.toml"@
}

/// Some line of `text`, trimmed, is the marker.
pub open spec fn covers(text: Seq<char>) -> bool {
    exists|i: int| 0 <= i < lines(text).len() && trim(#[trigger] lines(text)[i]) == gitignore_marker()
}

/// What to write to `.gitignore`, given what it holds (`None` when it does
/// not exist): nothing when it already protects the configuration; the
/// needed lines when it does not exist; else the needed lines appended to
/// what it holds, after a line break if its last line lacks one.
pub open spec fn gitignore_plan(existing: Option<Seq<char>>) -> Option<Seq<char>> {
    match existing {
        None => Some(gitignore_content()),
        Some(t) => if covers(t) {
            None
        } else if t.len() > 0 && t.last() != '\n' {
            Some(t + seq!['\n'] + gitignore_content())
        } else {
            Some(t + gitignore_content())
        },
    }
}

pub open spec fn opt_str_view(o: Option<&str>) -> Option<Seq<char>> {
    match o {
        Some(t) => Some(t@),
        None => None,
    }
}

pub fn gitignore_update(existing: Option<&str>) -> (r: Option<String>)
    ensures
        r matches Some(x) ==> gitignore_plan(opt_str_view(existing)) == Some(x@),
        r is None ==> gitignore_plan(opt_str_view(existing)) is None,
{
    match existing {
        None => Some(String::from_str("/target\nantibot.toml\n*.env\n*.pem\n*.key\nid_rsa*\n")),
        Some(t) => {
            let ls = lines_of(t);
            let mut i: usize = 0;
            while i < ls.len()
                invariant
                    i <= ls.len(),
                    opt_str_view(existing) == Some(t@),
                    views(ls@) == lines(t@),
                    forall|k: int| 0 <= k < i ==> trim(#[trigger] lines(t@)[k]) != gitignore_marker(),
                decreases ls.len() - i,
            {
                let tr = trim_str(ls[i].as_str());
                assert(views(ls@)[i as int] == ls@[i as int]@);
                if same_text(tr.as_str(), "antibot.toml") {
                    assert(trim(lines(t@)[i as int]) == gitignore_marker());
                    assert(covers(t@));
                    return None;
                }
                i = i + 1;
            }
            let v = chars_of(t);
            let mut out = String::from_str(t);
            if v.len() > 0 && v[v.len() - 1] != '\n' {
                push_char(&mut out, '\n');
            }
            push_str(&mut out, "/target\nantibot.toml\n*.env\n*.pem\n*.key\nid_rsa*\n");
            Some(out)
        },
    }
}

/// The pieces that `split_from(s, a0, '\n')` yields include, before its
/// last one, the line of `s` that starts at `a` and ends at the `\n` at `b`,
/// when `a0` and `a` both start lines and `a0 <= a`.
proof fn lemma_split_has_line(s: Seq<char>, a0: int, a: int, b: int)
    requires
        0 <= a0 <= a <= b < s.len(),
        a == 0 || s[a - 1] == '\n',
        find_from(s, a, '\n') == b,
    ensures
        exists|k: int|
            0 <= k < split_from(s, a0, '\n').len() - 1 && #[trigger] split_from(s, a0, '\n')[k]
                == s.subrange(a, b),
    decreases a - a0,
{
    let i = find_from(s, a0, '\n');
    lemma_find_from(s, a0, '\n');
    lemma_find_from(s, a, '\n');
    if a0 == a {
        lemma_split_nonempty(s, i + 1, '\n');
        let p = split_from(s, a0, '\n');
        assert(p[0] == s.subrange(a, b));
    } else {
        assert(s[a - 1] == '\n');
        assert(i <= a - 1);
        lemma_split_has_line(s, i + 1, a, b);
        let q = split_from(s, i + 1, '\n');
        let k = choose|k: int| 0 <= k < q.len() - 1 && #[trigger] q[k] == s.subrange(a, b);
        let p = split_from(s, a0, '\n');
        assert(p == seq![s.subrange(a0, i)] + q);
        assert(p[k + 1] == s.subrange(a, b));
    }
}

/// After a prefix that is empty or ends a line, the needed lines make a
/// text that protects the configuration.
proof fn lemma_content_covers(t: Seq<char>)
    requires
        t.len() == 0 || t.last() == '\n',
    ensures
        covers(t + gitignore_content()),
{
    reveal_strlit("/target\nantibot.toml\n*.env\n*.pem\n*.key\nid_rsa*\n");
    reveal_strlit("antibot.toml");
    let y = t + gitignore_content();
    let k = t.len() as int;
    let a = k + 8;
    let b = k + 20;
    assert(y[a - 1] == '\n');
    assert(y[b] == '\n');
    assert forall|x: int| a <= x < b implies #[trigger] y[x] != '\n' by {
        assert(y[x] == gitignore_content()[x - k]);
    }
    assert(find_from(y, a, '\n') == b) by {
        lemma_find_from(y, a, '\n');
        let f = find_from(y, a, '\n');
        if f < b {
            assert(y[f] == '\n');
        }
    }
    lemma_split_has_line(y, 0, a, b);
    let p = split_char(y, '\n');
    let idx = choose|idx: int| 0 <= idx < p.len() - 1 && #[trigger] p[idx] == y.subrange(a, b);
    let line = y.subrange(a, b);
    assert(line =~= gitignore_marker());
    assert(y.len() > 0 && y.last() == '\n');
    assert(lines(y).len() == p.len() - 1);
    assert(lines(y)[idx] == strip_cr(line));
    assert(strip_cr(line) == line);
    assert(trim(line) == line) by {
        lemma_scan(line, 0, CharClass::Ws);
        assert(!in_class(CharClass::Ws, line[0]));
        lemma_rscan_ws(line, line.len() as int);
        assert(!is_ws(line[line.len() - 1]));
        assert(rscan_ws(line, line.len() as int) == line.len());
        assert(line.subrange(0, line.len() as int) =~= line);
    }
    assert(trim(lines(y)[idx]) == gitignore_marker());
}

/// Setting up twice writes `.gitignore` at most once: what the first run
/// writes already protects the configuration, and it keeps all that the
/// file held before, at its start.
pub proof fn gitignore_update_idempotent(existing: Option<Seq<char>>)
    ensures
        gitignore_plan(existing) matches Some(y) ==> gitignore_plan(Some(y)) is None,
        existing matches Some(t) ==> (gitignore_plan(existing) matches Some(y) ==> y.subrange(
            0,
            t.len() as int,
        ) == t),
{
    match existing {
        None => {
            lemma_content_covers(Seq::empty());
            assert(Seq::<char>::empty() + gitignore_content() =~= gitignore_content());
        },
        Some(t) => {
            if !covers(t) {
                if t.len() > 0 && t.last() != '\n' {
                    let u = t + seq!['\n'];
                    lemma_content_covers(u);
                    assert(t + seq!['\n'] + gitignore_content() =~= u + gitignore_content());
                    assert((u + gitignore_content()).subrange(0, t.len() as int) =~= t);
                } else {
                    lemma_content_covers(t);
                    assert((t + gitignore_content()).subrange(0, t.len() as int) =~= t);
                }
            }
        },
    }
}

/// Where the setup stands.
#[derive(Debug, Clone, Copy, PartialEq, Eq, Structural)]
pub enum SetupPhase {
    Start,
    CheckingConfig,
    CopyingConfig,
    CheckingGitignore,
    WritingGitignore,
    CheckingGit,
    InitializingGit,
    Done,
    Failed,
}

/// How `git init` went.
#[derive(Debug, Clone, Copy, PartialEq, Eq, Structural)]
pub enum GitInit {
    Succeeded,
    Failed,
    NotFound,
}

/// What the filesystem answered.
#[derive(Debug, Clone)]
pub enum SetupEvent {
    Begin,
    /// Whether `antibot.toml` and its template `antibot.example.toml` exist.
    ConfigChecked { config_exists: bool, example_exists: bool },
    /// The template was copied to `antibot.toml`.
    ConfigCopied,
    /// What `.gitignore` holds; `None` when it does not exist.
    GitignoreRead(Option<String>),
    /// `.gitignore` was written.
    GitignoreWritten,
    /// Whether `.git` is a directory.
    GitChecked { is_repo: bool },
    /// How `git init` went.
    GitInitDone(GitInit),
}

/// What to do next.
#[derive(Debug, Clone)]
pub enum SetupAction {
    /// See whether `antibot.toml` and its template exist.
    CheckConfig,
    /// Copy the template to `antibot.toml`.
    CopyExampleConfig,
    /// Stop with an error: the template is missing.
    FailMissingExample,
    /// Read `.gitignore`.
    ReadGitignore,
    /// Write this text to `.gitignore`.
    WriteGitignore(String),
    /// See whether `.git` is a directory.
    CheckGitRepo,
    /// Run `git init`.
    RunGitInit,
    /// The setup is complete.
    Finish,
}

/// One step of the setup. An existing `antibot.toml` is kept as it is;
/// without one, the template is copied, or the setup fails when there is no
/// template. `.gitignore` is written only as `gitignore_plan` says. `git
/// init` runs only where `.git` is not a directory, and its outcome does
/// not fail the setup. An event that does not fit the phase ends the setup.
pub fn run(phase: SetupPhase, ev: SetupEvent) -> (r: (SetupPhase, SetupAction))
    ensures
        match (phase, ev) {
            (SetupPhase::Start, SetupEvent::Begin) => r.0 == SetupPhase::CheckingConfig && r.1 is CheckConfig,
            (SetupPhase::CheckingConfig, SetupEvent::ConfigChecked { config_exists, example_exists }) =>
                if config_exists {
                r.0 == SetupPhase::CheckingGitignore && r.1 is ReadGitignore
            } else if example_exists {
                r.0 == SetupPhase::CopyingConfig && r.1 is CopyExampleConfig
            } else {
                r.0 == SetupPhase::Failed && r.1 is FailMissingExample
            },
            (SetupPhase::CopyingConfig, SetupEvent::ConfigCopied) => r.0 == SetupPhase::CheckingGitignore
                && r.1 is ReadGitignore,
            (SetupPhase::CheckingGitignore, SetupEvent::GitignoreRead(existing)) => {
                let plan = gitignore_plan(
                    match existing {
                        Some(t) => Some(t@),
                        None => None,
                    },
                );
                match plan {
                    Some(text) => r.0 == SetupPhase::WritingGitignore && (r.1 matches SetupAction::WriteGitignore(w)
                        && w@ == text),
                    None => r.0 == SetupPhase::CheckingGit && r.1 is CheckGitRepo,
                }
            },
            (SetupPhase::WritingGitignore, SetupEvent::GitignoreWritten) => r.0 == SetupPhase::CheckingGit
                && r.1 is CheckGitRepo,
            (SetupPhase::CheckingGit, SetupEvent::GitChecked { is_repo }) => if is_repo {
                r.0 == SetupPhase::Done && r.1 is Finish
            } else {
                r.0 == SetupPhase::InitializingGit && r.1 is RunGitInit
            },
            (SetupPhase::InitializingGit, SetupEvent::GitInitDone(_)) => r.0 == SetupPhase::Done
                && r.1 is Finish,
            _ => r.0 == SetupPhase::Done && r.1 is Finish,
        },
{
    match (phase, ev) {
        (SetupPhase::Start, SetupEvent::Begin) => (SetupPhase::CheckingConfig, SetupAction::CheckConfig),
        (SetupPhase::CheckingConfig, SetupEvent::ConfigChecked { config_exists, example_exists }) => {
            if config_exists {
                (SetupPhase::CheckingGitignore, SetupAction::ReadGitignore)
            } else if example_exists {
                (SetupPhase::CopyingConfig, SetupAction::CopyExampleConfig)
            } else {
                (SetupPhase::Failed, SetupAction::FailMissingExample)
            }
        },
        (SetupPhase::CopyingConfig, SetupEvent::ConfigCopied) => (
            SetupPhase::CheckingGitignore,
            SetupAction::ReadGitignore,
        ),
        (SetupPhase::CheckingGitignore, SetupEvent::GitignoreRead(existing)) => {
            let update = match &existing {
                Some(t) => gitignore_update(Some(t.as_str())),
                None => gitignore_update(None),
            };
            match update {
                Some(text) => (SetupPhase::WritingGitignore, SetupAction::WriteGitignore(text)),
                None => (SetupPhase::CheckingGit, SetupAction::CheckGitRepo),
            }
        },
        (SetupPhase::WritingGitignore, SetupEvent::GitignoreWritten) => (
            SetupPhase::CheckingGit,
            SetupAction::CheckGitRepo,
        ),
        (SetupPhase::CheckingGit, SetupEvent::GitChecked { is_repo }) => if is_repo {
            (SetupPhase::Done, SetupAction::Finish)
        } else {
            (SetupPhase::InitializingGit, SetupAction::RunGitInit)
        },
        (SetupPhase::InitializingGit, SetupEvent::GitInitDone(_)) => (
            SetupPhase::Done,
            SetupAction::Finish,
        ),
        _ => (SetupPhase::Done, SetupAction::Finish),
    }
}

} // verus!
