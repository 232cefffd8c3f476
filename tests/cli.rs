use araki::cli::checkout::{lookup_for, Lookup};
use araki::cli::common::{credential_step, gitignore_addition, join_path, Credential, LockSpec, MetadataError};
use araki::cli::init::initial_message;
use araki::cli::list::{history_entry, mode, Args as ListArgs, ListMode};
use araki::cli::pull::classify;
use araki::cli::push::push_plan;
use araki::cli::shell::Shell;
use araki::cli::shim::strip_araki_shim_path;
use araki::cli::tag::tag_message_text;
use araki::order::sorted_names;
use araki::history::MergeAnalysis;
use araki::text::{first_nonblank_line, format_tag_line, join_with};

#[test]
fn strip_shim_dir_at_front() {
    let p = strip_araki_shim_path("/home/u/.araki/bin:/usr/bin:/bin", "/home/u/.araki/bin");
    assert_eq!(p, "/usr/bin:/bin");
}

#[test]
fn strip_shim_dir_everywhere() {
    let p = strip_araki_shim_path("/d:/d:/usr/bin:/d", "/d");
    assert_eq!(p, "/usr/bin");
    assert_eq!(strip_araki_shim_path("a:b", "b"), "a");
    assert_eq!(strip_araki_shim_path("/x:/d:/y", "/d"), "/x:/y");
    assert_eq!(strip_araki_shim_path("/usr/bin", "/d"), "/usr/bin");
    assert_eq!(strip_araki_shim_path("/d", "/d"), "");
    assert_eq!(strip_araki_shim_path("", "/d"), "");
}

#[test]
fn shell_parsing() {
    assert_eq!(Shell::from_str("BASH"), Shell::Bash);
    assert_eq!(Shell::from_str("zsh"), Shell::Zsh);
    assert_eq!(Shell::from_str("Fish"), Shell::Unknown("fish".to_string()));
    assert_eq!(Shell::from_str("Fish").name(), "fish");
    assert_eq!(Shell::supported_shells(), vec!["bash", "zsh"]);
}

#[test]
fn shell_config_plan() {
    let setup = Shell::Zsh.update_shell_config("/home/u").ok().unwrap();
    assert_eq!(setup.config_file, "/home/u/.zshrc");
    assert_eq!(setup.snippet, "# Araki configuration\neval $(araki shell generate zsh)\n");
    assert_eq!(setup.shims.len(), 4);
    assert_eq!(setup.shims[2].tool, "pixi");
    assert_eq!(setup.shims[2].script, "#!/bin/zsh\naraki shim pixi $@\n");
    let err = Shell::Unknown("fish".to_string()).update_shell_config("/home/u").err().unwrap();
    assert_eq!(err, "Cannot get shell configuration for unknown shell: fish");
}

#[test]
fn shell_config_addition_once() {
    let snippet = Shell::Bash.posix_config();
    assert_eq!(Shell::Bash.config_addition("alias ll='ls -l'\n"), Some(snippet.clone()));
    let with = format!("x\n{}y\n", snippet);
    assert_eq!(Shell::Bash.config_addition(&with), None);
}

#[test]
fn shell_env_line() {
    assert_eq!(Shell::Bash.print_env("/h/.araki/bin").unwrap(), "PATH=/h/.araki/bin:$PATH");
    assert_eq!(
        Shell::Unknown("csh".to_string()).print_env("/x").unwrap_err(),
        "Cannot generate environment updates for csh"
    );
}

#[test]
fn push_plan_named_tag() {
    let plan = push_plan(Some("v1"), &vec!["a".to_string()]);
    assert_eq!(plan.branch, "refs/heads/main");
    assert_eq!(plan.tags, vec!["refs/tags/v1".to_string()]);
}

#[test]
fn push_plan_all_tags() {
    let plan = push_plan(None, &vec!["a".to_string(), "b".to_string()]);
    assert_eq!(plan.branch, "refs/heads/main");
    assert_eq!(plan.tags, vec!["refs/tags/a".to_string(), "refs/tags/b".to_string()]);
    assert!(push_plan(None, &vec![]).tags.is_empty());
}

#[test]
fn lockspec_paths_and_presence() {
    let ls = LockSpec { path: "/p/env".to_string() };
    assert_eq!(ls.specfile(), "/p/env/pixi.toml");
    assert_eq!(ls.lockfile(), "/p/env/pixi.lock");
    let both = vec!["/p/env/pixi.lock".to_string(), "/p/env/pixi.toml".to_string()];
    assert!(ls.files_exist(&both));
    assert!(!ls.files_exist(&vec!["/p/env/pixi.toml".to_string()]));
    assert!(LockSpec::from_path("/p/env", &both).is_ok());
    assert_eq!(
        LockSpec::from_path("/q", &both).err().unwrap(),
        "No lockspec files found in \"/q\""
    );
    assert_eq!(join_path("/a/", "b"), "/a/b");
    assert_eq!(join_path("", "b"), "b");
}

#[test]
fn metadata_inserted_once() {
    let ls = LockSpec { path: ".".to_string() };
    let text = ls.ensure_araki_metadata("[project]\nname = \"x\"\n", "my-env").unwrap().unwrap();
    let table: toml::Table = text.parse().unwrap();
    assert_eq!(table["araki"]["lockspec_name"].as_str(), Some("my-env"));
    assert_eq!(table["project"]["name"].as_str(), Some("x"));
    assert_eq!(ls.ensure_araki_metadata(&text, "my-env").unwrap(), None);
    assert_eq!(ls.ensure_araki_metadata(&text, "other").unwrap(), None);
}

#[test]
fn metadata_rejects_invalid_toml() {
    let ls = LockSpec { path: ".".to_string() };
    assert_eq!(ls.ensure_araki_metadata("= broken", "n"), Err(MetadataError::Unparsable));
    let err = LockSpec::from_path("/a \"b\"", &vec![]).err().unwrap();
    assert_eq!(err, "No lockspec files found in \"/a \\\"b\\\"\"");
}

#[test]
fn gitignore_entry_added_when_missing() {
    assert_eq!(gitignore_addition(None), Some(".araki-git/\n".to_string()));
    assert_eq!(gitignore_addition(Some("target/\n")), Some(".araki-git/\n".to_string()));
    assert_eq!(gitignore_addition(Some("target/\n.araki-git/\n")), None);
}

#[test]
fn credential_agent_tried_once() {
    let (c, tried) = credential_step(false, Some("git"), true);
    assert!(matches!(c, Credential::SshAgent(ref u) if u == "git"));
    assert!(tried);
    let (c, tried) = credential_step(tried, Some("git"), true);
    assert!(matches!(c, Credential::Refuse(_)));
    assert!(tried);
    let (c, tried) = credential_step(false, Some("git"), false);
    assert!(matches!(c, Credential::Refuse(ref m) if m.contains("only supports ssh")));
    assert!(!tried);
    let (c, _) = credential_step(false, None, true);
    assert!(matches!(c, Credential::Refuse(ref m) if m == "Unable to get the ssh username from the URL."));
}

#[test]
fn tag_messages() {
    assert_eq!(tag_message_text("release-1", None), "araki environment tag: release-1");
    assert_eq!(tag_message_text("release-1", Some("stable")), "stable");
}

#[test]
fn lookup_order() {
    assert!(matches!(lookup_for("latest"), Lookup::MainBranch));
    assert!(matches!(lookup_for("v1"), Lookup::TagThenId(ref t) if t == "refs/tags/v1"));
}

#[test]
fn list_modes_and_entries() {
    assert_eq!(mode(&ListArgs { tree: true, tags: true }), ListMode::Tree);
    assert_eq!(mode(&ListArgs { tree: false, tags: true }), ListMode::Tags);
    assert_eq!(mode(&ListArgs { tree: false, tags: false }), ListMode::History);
    assert_eq!(
        history_entry("abc", "araki", "a@b", "msg"),
        "Commit: abc\nAuthor: araki <a@b>\nSummary: msg\n"
    );
}

#[test]
fn classify_cases() {
    assert_eq!(classify(true, true, true), MergeAnalysis::UpToDate);
    assert_eq!(classify(false, true, false), MergeAnalysis::FastForward);
    assert_eq!(classify(false, false, true), MergeAnalysis::LocalAhead);
    assert_eq!(classify(false, false, false), MergeAnalysis::ThreeWay);
}

#[test]
fn first_line_and_tag_line() {
    assert_eq!(first_nonblank_line("\n \t\r\nhello\r\nworld"), Some("hello".to_string()));
    assert_eq!(first_nonblank_line("  \n\n"), None);
    assert_eq!(first_nonblank_line(" \nlast\r"), Some("last\r".to_string()));
    assert_eq!(first_nonblank_line("a\r\nb"), Some("a".to_string()));
    assert_eq!(first_nonblank_line("\u{3000}\u{a0}\n x "), Some(" x ".to_string()));
    assert_eq!(format_tag_line("v1", None), "v1");
    assert_eq!(format_tag_line("v1", Some("note\nmore")), "* v1              note");
    assert_eq!(format_tag_line("a-very-long-tag-name", Some("")), "* a-very-long-tag-name");
}

#[test]
fn join_pieces() {
    let v = vec!["a".to_string(), "".to_string(), "c".to_string()];
    assert_eq!(join_with(&v, 0, ":"), "a::c");
    assert_eq!(join_with(&v, 2, ":"), "c");
    assert_eq!(join_with(&v, 3, ":"), "");
}

#[test]
fn initial_checkpoint_message() {
    assert_eq!(initial_message(None), "Initial commit");
    assert_eq!(initial_message(Some("start")), "start");
}

#[test]
fn names_sorted_lexically_once() {
    let names = vec!["zeta".to_string(), "alpha".to_string(), "mid".to_string(), "alpha".to_string(), "Beta".to_string()];
    assert_eq!(
        sorted_names(&names),
        vec!["Beta".to_string(), "alpha".to_string(), "mid".to_string(), "zeta".to_string()]
    );
    assert!(sorted_names(&vec![]).is_empty());
}
