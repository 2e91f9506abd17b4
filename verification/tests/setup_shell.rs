use astrofetch::setup_shell::{
    infer_unix_shell, insert_or_update_managed_block, remove_startup_blocks, shell_block,
    shell_of_file_name,
    ManagedBlockAction, SetupShell, UninstallShellAction,
};

#[test]
fn test_generated_bash_block() {
    assert_eq!(
        shell_block(SetupShell::Bash, false),
        "# >>> astrofetch >>>\nif [[ $- == *i* ]] && command -v astrofetch >/dev/null 2>&1; then\n    astrofetch\nfi\n# <<< astrofetch <<<\n"
    );
}

#[test]
fn test_generated_bash_compact_block() {
    assert_eq!(
        shell_block(SetupShell::Bash, true),
        "# >>> astrofetch >>>\nif [[ $- == *i* ]] && command -v astrofetch >/dev/null 2>&1; then\n    astrofetch --compact\nfi\n# <<< astrofetch <<<\n"
    );
}

#[test]
fn test_generated_zsh_block() {
    assert_eq!(
        shell_block(SetupShell::Zsh, false),
        "# >>> astrofetch >>>\nif [[ -o interactive ]] && command -v astrofetch >/dev/null 2>&1; then\n    astrofetch\nfi\n# <<< astrofetch <<<\n"
    );
}

#[test]
fn test_generated_fish_block() {
    assert_eq!(
        shell_block(SetupShell::Fish, false),
        "# >>> astrofetch >>>\nif status is-interactive; and command -q astrofetch\n    astrofetch\nend\n# <<< astrofetch <<<\n"
    );
}

#[test]
fn test_generated_powershell_block() {
    assert_eq!(
        shell_block(SetupShell::Powershell, false),
        "# >>> astrofetch >>>\nif ($Host.Name -eq \"ConsoleHost\" -and (Get-Command astrofetch -ErrorAction SilentlyContinue)) {\n    astrofetch\n}\n# <<< astrofetch <<<\n"
    );
}

#[test]
fn test_shell_inference_from_paths() {
    assert_eq!(infer_unix_shell("/bin/bash"), Some(SetupShell::Bash));
    assert_eq!(infer_unix_shell("/usr/bin/zsh"), Some(SetupShell::Zsh));
    assert_eq!(
        infer_unix_shell("/opt/homebrew/bin/fish"),
        Some(SetupShell::Fish)
    );
    assert_eq!(infer_unix_shell("/usr/bin/unknown"), None);
}

#[test]
fn test_insert_block_into_empty_content() {
    let result = insert_or_update_managed_block("", "BLOCK\n", false).unwrap();

    assert_eq!(result.content, "BLOCK\n");
    assert_eq!(result.action, ManagedBlockAction::Inserted);
}

#[test]
fn test_append_block_to_existing_content_with_correct_newlines() {
    let result =
        insert_or_update_managed_block("set -g fish_greeting ''\n", "BLOCK\n", false).unwrap();

    assert_eq!(result.content, "set -g fish_greeting ''\n\nBLOCK\n");
    assert_eq!(result.action, ManagedBlockAction::Inserted);
}

#[test]
fn test_replace_legacy_bash_block_with_managed_block() {
    let existing = "before\nif [[ $- == *i* ]] && command -v astrofetch >/dev/null 2>&1; then\n    astrofetch\nfi\nafter\n";
    let result = insert_or_update_managed_block(existing, "BLOCK\n", false).unwrap();

    assert_eq!(result.content, "before\nafter\n\nBLOCK\n");
    assert_eq!(result.action, ManagedBlockAction::Inserted);
}

#[test]
fn test_replace_managed_block_when_removing_legacy_startup_block() {
    let existing = "before\nif [[ $- == *i* ]] && command -v astrofetch >/dev/null 2>&1; then\n    astrofetch\nfi\n# >>> astrofetch >>>\nmanaged\n# <<< astrofetch <<<\nafter\n";
    let result = insert_or_update_managed_block(existing, "new\n", false).unwrap();

    assert_eq!(result.content, "before\nnew\nafter\n");
    assert_eq!(result.action, ManagedBlockAction::Replaced);
}

#[test]
fn test_replace_legacy_compact_zsh_block_with_managed_block() {
    let existing = "if [[ -o interactive ]] && command -v astrofetch >/dev/null 2>&1; then\n    astrofetch --compact\nfi\n";
    let result = insert_or_update_managed_block(existing, "BLOCK\n", false).unwrap();

    assert_eq!(result.content, "BLOCK\n");
    assert_eq!(result.action, ManagedBlockAction::Inserted);
}

#[test]
fn test_remove_managed_startup_block() {
    let existing = "before\n# >>> astrofetch >>>\nmanaged\n# <<< astrofetch <<<\nafter\n";
    let result = remove_startup_blocks(existing).unwrap();

    assert_eq!(result.content, "before\nafter\n");
    assert_eq!(result.action, UninstallShellAction::Removed);
}

#[test]
fn test_remove_multiple_managed_startup_blocks() {
    let existing =
        "# >>> astrofetch >>>\none\n# <<< astrofetch <<<\nkeep\n# >>> astrofetch >>>\ntwo\n# <<< astrofetch <<<\n";
    let result = remove_startup_blocks(existing).unwrap();

    assert_eq!(result.content, "keep\n");
    assert_eq!(result.action, UninstallShellAction::Removed);
}

#[test]
fn test_remove_legacy_bash_startup_block() {
    let existing = "before\nif [[ $- == *i* ]] && command -v astrofetch >/dev/null 2>&1; then\n    astrofetch\nfi\nafter\n";
    let result = remove_startup_blocks(existing).unwrap();

    assert_eq!(result.content, "before\nafter\n");
    assert_eq!(result.action, UninstallShellAction::Removed);
}

#[test]
fn test_remove_startup_blocks_reports_not_installed() {
    let existing = "alias ll='ls -la'\n";
    let result = remove_startup_blocks(existing).unwrap();

    assert_eq!(result.content, existing);
    assert_eq!(result.action, UninstallShellAction::NotInstalled);
}

#[test]
fn test_do_not_duplicate_existing_managed_block_without_force() {
    let existing = "before\n# >>> astrofetch >>>\nold\n# <<< astrofetch <<<\nafter\n";
    let result = insert_or_update_managed_block(existing, "new\n", false).unwrap();

    assert_eq!(result.content, existing);
    assert_eq!(result.action, ManagedBlockAction::AlreadyInstalled);
}

#[test]
fn test_replace_empty_managed_block_without_force() {
    let existing = "before\n# >>> astrofetch >>>\n# <<< astrofetch <<<\nafter\n";
    let result = insert_or_update_managed_block(existing, "new\n", false).unwrap();

    assert_eq!(result.content, "before\nnew\nafter\n");
    assert_eq!(result.action, ManagedBlockAction::Replaced);
}

#[test]
fn test_replace_existing_managed_block_with_force() {
    let existing = "before\n# >>> astrofetch >>>\nold\n# <<< astrofetch <<<\nafter\n";
    let result = insert_or_update_managed_block(existing, "new\n", true).unwrap();

    assert_eq!(result.content, "before\nnew\nafter\n");
    assert_eq!(result.action, ManagedBlockAction::Replaced);
}

#[test]
fn test_preserve_content_before_and_after_existing_managed_block() {
    let existing =
        "alpha\nbeta\n# >>> astrofetch >>>\nold\n# <<< astrofetch <<<\ngamma\ndelta\n";
    let result = insert_or_update_managed_block(existing, "new\n", true).unwrap();

    assert!(result.content.starts_with("alpha\nbeta\n"));
    assert!(result.content.ends_with("gamma\ndelta\n"));
    assert_eq!(result.content, "alpha\nbeta\nnew\ngamma\ndelta\n");
}

#[test]
fn test_uninstall_after_fresh_install_restores_file() {
    for shell in [SetupShell::Bash, SetupShell::Zsh, SetupShell::Fish, SetupShell::Powershell] {
        for compact in [false, true] {
            let block = shell_block(shell, compact);
            let installed = insert_or_update_managed_block("alias ll='ls -la'", &block, false).unwrap();
            assert_eq!(installed.action, ManagedBlockAction::Inserted);
            let removed = remove_startup_blocks(&installed.content).unwrap();
            assert_eq!(removed.action, UninstallShellAction::Removed);
            assert_eq!(removed.content, "alias ll='ls -la'\n\n");
        }
    }
}

#[test]
fn test_uninstall_of_a_file_holding_only_the_block_empties_it() {
    let block = shell_block(SetupShell::Bash, false);
    let removed = remove_startup_blocks(&block).unwrap();
    assert_eq!(removed.content, "");
    assert_eq!(removed.action, UninstallShellAction::Removed);
}

#[test]
fn test_second_install_leaves_file_unchanged() {
    for shell in [SetupShell::Bash, SetupShell::Zsh, SetupShell::Fish, SetupShell::Powershell] {
        for compact in [false, true] {
            let block = shell_block(shell, compact);
            let first = insert_or_update_managed_block("export EDITOR=vi\n", &block, false).unwrap();
            assert_eq!(first.action, ManagedBlockAction::Inserted);
            for force in [false, true] {
                let second = insert_or_update_managed_block(&first.content, &block, force).unwrap();
                let expected = if force {
                    ManagedBlockAction::Replaced
                } else {
                    ManagedBlockAction::AlreadyInstalled
                };
                assert_eq!(second.action, expected);
                assert_eq!(second.content, first.content);
                assert_eq!(second.content.matches("# >>> astrofetch >>>").count(), 1);
            }
        }
    }
}

#[test]
fn file_names_select_shells_by_suffix() {
    assert_eq!(shell_of_file_name("bash"), Some(SetupShell::Bash));
    assert_eq!(shell_of_file_name("rbash"), Some(SetupShell::Bash));
    assert_eq!(shell_of_file_name("zsh"), Some(SetupShell::Zsh));
    assert_eq!(shell_of_file_name("fish"), Some(SetupShell::Fish));
    assert_eq!(shell_of_file_name("sh"), None);
    assert_eq!(shell_of_file_name("bash-5"), None);
    assert_eq!(shell_of_file_name(""), None);
}

#[test]
fn installed_block_is_left_untouched_without_force() {
    let b = shell_block(SetupShell::Bash, false);
    let result = insert_or_update_managed_block(&b, &b, false).unwrap();
    assert_eq!(result.content, b);
    assert_eq!(result.action, ManagedBlockAction::AlreadyInstalled);
}

#[test]
fn legacy_snippets_around_an_installed_block_still_trigger_replacement() {
    let b = shell_block(SetupShell::Zsh, false);
    let legacy = "if [[ $- == *i* ]] && command -v astrofetch >/dev/null 2>&1; then\n    astrofetch\nfi\n";
    let existing = format!("before\n{legacy}{b}after\n");
    let result = insert_or_update_managed_block(&existing, &b, false).unwrap();
    assert_eq!(result.action, ManagedBlockAction::Replaced);
    assert_eq!(result.content, format!("before\n{b}after\n"));
}

#[test]
fn uninstall_never_lengthens_the_file() {
    for existing in [
        "alias ll='ls -la'\n".to_string(),
        format!("x\n{}y\n", shell_block(SetupShell::Fish, true)),
        String::new(),
    ] {
        let r = remove_startup_blocks(&existing).unwrap();
        assert!(r.content.len() <= existing.len());
        if r.action == UninstallShellAction::Removed {
            assert!(r.content.len() < existing.len());
        } else {
            assert_eq!(r.content, existing);
        }
    }
}

#[test]
fn shell_block_holds_each_marker_once() {
    for shell in [SetupShell::Bash, SetupShell::Zsh, SetupShell::Fish, SetupShell::Powershell] {
        for compact in [false, true] {
            let b = shell_block(shell, compact);
            assert_eq!(b.matches("# >>> astrofetch >>>").count(), 1);
            assert_eq!(b.matches("# <<< astrofetch <<<").count(), 1);
            assert!(b.starts_with("# >>> astrofetch >>>"));
            assert!(b.ends_with("# <<< astrofetch <<<\n"));
        }
    }
}

#[test]
fn shell_paths_are_read_by_their_last_component() {
    assert_eq!(infer_unix_shell("/bin/bash/"), Some(SetupShell::Bash));
    assert_eq!(infer_unix_shell("/usr/bin/./zsh"), Some(SetupShell::Zsh));
    assert_eq!(infer_unix_shell("/usr/local/bin/fish/."), Some(SetupShell::Fish));
    assert_eq!(infer_unix_shell("/usr/bin/.."), None);
    assert_eq!(infer_unix_shell("/"), None);
    assert_eq!(infer_unix_shell(""), None);
    assert_eq!(infer_unix_shell("."), None);
    assert_eq!(infer_unix_shell("bash"), Some(SetupShell::Bash));
}

#[test]
fn unmatched_start_marker_is_refused() {
    let existing = "alias ll='ls -la'\n# >>> astrofetch >>>\nastrofetch\n";
    let block = shell_block(SetupShell::Bash, false);
    for force in [false, true] {
        match insert_or_update_managed_block(existing, &block, force) {
            Err(astrofetch::error::AppError::Cli(msg)) => {
                assert!(msg.contains("without a matching end marker"));
                assert!(msg.contains("fix the file manually"));
            }
            other => panic!("expected a refusal, got {other:?}"),
        }
    }
    assert!(remove_startup_blocks(existing).is_err());
}
