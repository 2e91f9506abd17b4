//! Managed shell startup blocks: building, inserting, replacing and
//! removing the AstroFetch block (and the known legacy unmarked blocks) in
//! the text of a shell startup file.

use vstd::prelude::*;
use crate::error::AppError;
use crate::text::{
    all_white, all_white_exec, chars_eq, chars_of, ends_with, ends_with_exec, extend_chars,
    find_chars, find_from, lemma_find_from, matches_at, replace_all, replace_chars, slice_chars,
    starts_with, starts_with_exec, string_of,
};

verus! {

pub const START_MARKER: &'static str = "# >>> astrofetch >>>";

pub const END_MARKER: &'static str = "# <<< astrofetch <<<";

pub const COMMAND_FULL: &'static str = "astrofetch";

pub const COMMAND_COMPACT: &'static str = "astrofetch --compact";

pub const BASH_HEAD: &'static str =
    "if [[ $- == *i* ]] && command -v astrofetch >/dev/null 2>&1; then\n    ";

pub const ZSH_HEAD: &'static str =
    "if [[ -o interactive ]] && command -v astrofetch >/dev/null 2>&1; then\n    ";

pub const FISH_HEAD: &'static str = "if status is-interactive; and command -q astrofetch\n    ";

pub const POWERSHELL_HEAD: &'static str =
    "if ($Host.Name -eq \"ConsoleHost\" -and (Get-Command astrofetch -ErrorAction SilentlyContinue)) {\n    ";

pub const FI_TAIL: &'static str = "\nfi\n";

pub const END_TAIL: &'static str = "\nend\n";

pub const BRACE_TAIL: &'static str = "\n}\n";

pub const UNMATCHED_MARKER_MESSAGE: &'static str =
    "Found an AstroFetch start marker without a matching end marker. Please fix the file manually before running setup-shell.";

/// Shells supported by the explicit startup integration command.
#[derive(Debug, Clone, Copy, PartialEq, Eq)]
pub enum SetupShell {
    /// Bash startup file (`~/.bashrc`).
    Bash,
    /// Zsh startup file (`~/.zshrc`).
    Zsh,
    /// Fish startup file (`~/.config/fish/config.fish`).
    Fish,
    /// PowerShell profile.
    Powershell,
}

/// Result of applying the managed block to existing file content.
#[derive(Debug, Clone, Copy, PartialEq, Eq)]
pub enum ManagedBlockAction {
    /// A new managed block was inserted.
    Inserted,
    /// An existing managed block was left untouched.
    AlreadyInstalled,
    /// An existing managed block was replaced.
    Replaced,
}

/// Updated content plus the action used to produce it.
#[derive(Debug, Clone, PartialEq, Eq)]
pub struct ManagedBlockResult {
    /// File content after applying the requested operation.
    pub content: String,
    /// Whether the block was inserted, skipped, or replaced.
    pub action: ManagedBlockAction,
}

/// Result of removing startup integration from an existing file.
#[derive(Debug, Clone, Copy, PartialEq, Eq)]
pub enum UninstallShellAction {
    /// At least one AstroFetch startup block was removed.
    Removed,
    /// No AstroFetch startup integration was found.
    NotInstalled,
}

/// Updated content plus the action used to produce it.
#[derive(Debug, Clone, PartialEq, Eq)]
pub struct UninstallShellResult {
    /// File content after removing startup integration.
    pub content: String,
    /// Whether anything was removed.
    pub action: UninstallShellAction,
}

pub open spec fn shell_name(shell: SetupShell) -> Seq<char> {
    match shell {
        SetupShell::Bash => "bash"@,
        SetupShell::Zsh => "zsh"@,
        SetupShell::Fish => "fish"@,
        SetupShell::Powershell => "powershell"@,
    }
}

impl SetupShell {
    /// Human-readable shell name.
    pub fn display_name(self) -> (name: &'static str)
        ensures
            name@ == shell_name(self),
    {
        match self {
            SetupShell::Bash => "bash",
            SetupShell::Zsh => "zsh",
            SetupShell::Fish => "fish",
            SetupShell::Powershell => "powershell",
        }
    }
}

/// The guarded startup snippet of `shell` that runs `command` (the body of
/// the managed block; unmarked, it is also a legacy startup block).
pub open spec fn startup_body(shell: SetupShell, command: Seq<char>) -> Seq<char> {
    match shell {
        SetupShell::Bash => BASH_HEAD@ + command + FI_TAIL@,
        SetupShell::Zsh => ZSH_HEAD@ + command + FI_TAIL@,
        SetupShell::Fish => FISH_HEAD@ + command + END_TAIL@,
        SetupShell::Powershell => POWERSHELL_HEAD@ + command + BRACE_TAIL@,
    }
}

pub open spec fn startup_command(compact: bool) -> Seq<char> {
    if compact {
        COMMAND_COMPACT@
    } else {
        COMMAND_FULL@
    }
}

/// The managed startup block: start marker, snippet, end marker.
pub open spec fn shell_block_spec(shell: SetupShell, compact: bool) -> Seq<char> {
    START_MARKER@ + "\n"@ + startup_body(shell, startup_command(compact)) + END_MARKER@ + "\n"@
}

fn startup_body_chars(shell: SetupShell, command: &[char]) -> (v: Vec<char>)
    ensures
        v@ == startup_body(shell, command@),
{
    let (head, tail) = match shell {
        SetupShell::Bash => (BASH_HEAD, FI_TAIL),
        SetupShell::Zsh => (ZSH_HEAD, FI_TAIL),
        SetupShell::Fish => (FISH_HEAD, END_TAIL),
        SetupShell::Powershell => (POWERSHELL_HEAD, BRACE_TAIL),
    };
    let mut v = chars_of(head);
    extend_chars(&mut v, command);
    let t = chars_of(tail);
    extend_chars(&mut v, &t);
    v
}

/// Builds the managed startup block for a shell.
pub fn shell_block(shell: SetupShell, compact: bool) -> (block: String)
    ensures
        block@ == shell_block_spec(shell, compact),
{
    let command = if compact { chars_of(COMMAND_COMPACT) } else { chars_of(COMMAND_FULL) };
    let mut v = chars_of(START_MARKER);
    let nl = chars_of("\n");
    extend_chars(&mut v, &nl);
    let body = startup_body_chars(shell, &command);
    extend_chars(&mut v, &body);
    let end = chars_of(END_MARKER);
    extend_chars(&mut v, &end);
    extend_chars(&mut v, &nl);
    string_of(&v)
}

/// The file name of a Unix path whose last segment is collected in `seg`:
/// separators and `.` segments at the end are skipped; the last remaining
/// segment is the name, except `..`, and there is none when nothing is left.
pub open spec fn file_name_from(p: Seq<char>, seg: Seq<char>) -> Option<Seq<char>>
    decreases p.len(),
{
    if p.len() == 0 || p.last() == '/' {
        if seg.len() == 0 || seg == seq!['.'] {
            if p.len() == 0 {
                None
            } else {
                file_name_from(p.drop_last(), Seq::empty())
            }
        } else if seg == seq!['.', '.'] {
            None
        } else {
            Some(seg)
        }
    } else {
        file_name_from(p.drop_last(), seq![p.last()] + seg)
    }
}

/// `Path::file_name` of a path on Unix, as text: the last component after
/// trailing separators and `.` segments are dropped; `None` for `""`,
/// `"/"`, `"."` and a path ending in `..`.
pub open spec fn path_file_name(path: Seq<char>) -> Option<Seq<char>> {
    file_name_from(path, Seq::empty())
}

/// The file name of a `SHELL` value, as `path_file_name` states it: its
/// last component after trailing separators and `.` segments are dropped,
/// `None` when there is none or it is `..`. The value is read as a Unix path
/// (`/` is the only separator): shells are inferred from `SHELL` on Unix
/// runs only, and Windows runs configure PowerShell.
fn file_name_of(path: &str) -> (name: Option<String>)
    ensures
        match name {
            Some(n) => path_file_name(path@) == Some(n@),
            None => path_file_name(path@) is None,
        },
{
    let p = chars_of(path);
    let mut i: usize = p.len();
    let mut j: usize = p.len();
    proof {
        assert(p@.take(i as int) =~= p@);
        assert(p@.subrange(i as int, j as int) =~= Seq::<char>::empty());
    }
    loop
        invariant
            i <= j <= p@.len(),
            file_name_from(p@.take(i as int), p@.subrange(i as int, j as int)) == path_file_name(path@),
            p@ == path@,
        decreases i,
    {
        let ghost q = p@.take(i as int);
        if i == 0 || p[i - 1] == '/' {
            let seg = slice_chars(&p, i, j);
            let len = seg.len();
            let is_dot = len == 1 && seg[0] == '.';
            let is_dotdot = len == 2 && seg[0] == '.' && seg[1] == '.';
            proof {
                if is_dot {
                    assert(seg@ =~= seq!['.']);
                }
                if seg@ == seq!['.'] {
                    assert(seg@[0] == '.');
                }
                if is_dotdot {
                    assert(seg@ =~= seq!['.', '.']);
                }
                if seg@ == seq!['.', '.'] {
                    assert(seg@[0] == '.' && seg@[1] == '.');
                }
                if i > 0 {
                    assert(q.last() == p@[i - 1]);
                    assert(q.drop_last() =~= p@.take(i - 1));
                }
            }
            if len == 0 || is_dot {
                if i == 0 {
                    return None;
                }
                i = i - 1;
                j = i;
                proof {
                    assert(p@.subrange(i as int, j as int) =~= Seq::<char>::empty());
                }
            } else if is_dotdot {
                return None;
            } else {
                return Some(string_of(&seg));
            }
        } else {
            proof {
                assert(q.last() == p@[i - 1]);
                assert(q.drop_last() =~= p@.take(i - 1));
                assert(seq![p@[i - 1]] + p@.subrange(i as int, j as int) =~= p@.subrange(i - 1, j as int));
            }
            i = i - 1;
        }
    }
}

/// The shell that a `SHELL` value names, by the suffix of its file name.
pub open spec fn infer_shell_spec(path: Seq<char>) -> Option<SetupShell> {
    match path_file_name(path) {
        None => None,
        Some(name) => shell_of_file_name_spec(name),
    }
}

/// The shell that a file name names: `bash`, `zsh` or `fish` by its
/// suffix, checked in that order.
pub open spec fn shell_of_file_name_spec(name: Seq<char>) -> Option<SetupShell> {
    if ends_with(name, "bash"@) {
        Some(SetupShell::Bash)
    } else if ends_with(name, "zsh"@) {
        Some(SetupShell::Zsh)
    } else if ends_with(name, "fish"@) {
        Some(SetupShell::Fish)
    } else {
        None
    }
}

/// The shell that the file name of a `SHELL` value names.
pub fn shell_of_file_name(name: &str) -> (shell: Option<SetupShell>)
    ensures
        shell == shell_of_file_name_spec(name@),
{
    let name = chars_of(name);
    let bash = chars_of("bash");
    let zsh = chars_of("zsh");
    let fish = chars_of("fish");
    if ends_with_exec(&name, &bash) {
        Some(SetupShell::Bash)
    } else if ends_with_exec(&name, &zsh) {
        Some(SetupShell::Zsh)
    } else if ends_with_exec(&name, &fish) {
        Some(SetupShell::Fish)
    } else {
        None
    }
}

/// Infers a Unix shell from a `SHELL` environment value.
pub fn infer_unix_shell(shell_path: &str) -> (shell: Option<SetupShell>)
    ensures
        shell == infer_shell_spec(shell_path@),
{
    match file_name_of(shell_path) {
        Some(n) => shell_of_file_name(n.as_str()),
        None => None,
    }
}

/// The span `[start, end)` of the first managed block of `content` (end
/// marker included, and one following newline if present); `Ok(None)` when
/// there is no start marker; `Err(())` when a start marker has no end
/// marker after it.
pub open spec fn find_managed_spec(content: Seq<char>) -> Result<Option<(int, int)>, ()> {
    match find_from(content, START_MARKER@, 0) {
        None => Ok(None),
        Some(start) => match find_from(content, END_MARKER@, start + START_MARKER@.len()) {
            None => Err(()),
            Some(e) => {
                let marker_end = e + END_MARKER@.len();
                let end = if marker_end < content.len() && content[marker_end] == '\n' {
                    marker_end + 1
                } else {
                    marker_end
                };
                Ok(Some((start, end)))
            },
        },
    }
}

pub proof fn lemma_markers()
    ensures
        START_MARKER@.len() == 20,
        END_MARKER@.len() == 20,
{
    reveal_strlit("# >>> astrofetch >>>");
    reveal_strlit("# <<< astrofetch <<<");
}

/// A found managed block is a non-empty span inside the content that starts
/// with the start marker.
pub proof fn lemma_find_managed_span(content: Seq<char>)
    ensures
        find_managed_spec(content) matches Ok(Some((s, e))) ==> 0 <= s && s + START_MARKER@.len() < e
            <= content.len() && matches_at(content, START_MARKER@, s),
{
    lemma_markers();
    lemma_find_from(content, START_MARKER@, 0);
    if let Some(start) = find_from(content, START_MARKER@, 0) {
        lemma_find_from(content, END_MARKER@, start + START_MARKER@.len());
    }
}

fn unmatched_marker_error() -> (e: AppError)
    ensures
        e matches AppError::Cli(m) && m@ == UNMATCHED_MARKER_MESSAGE@,
{
    let v = chars_of(UNMATCHED_MARKER_MESSAGE);
    AppError::Cli(string_of(&v))
}

fn find_managed_block(content: &[char]) -> (r: Result<Option<(usize, usize)>, AppError>)
    ensures
        match r {
            Ok(Some((s, e))) => find_managed_spec(content@) == Ok::<Option<(int, int)>, ()>(
                Some((s as int, e as int)),
            ),
            Ok(None) => find_managed_spec(content@) == Ok::<Option<(int, int)>, ()>(None),
            Err(err) => find_managed_spec(content@) is Err && (err matches AppError::Cli(m)
                && m@ == UNMATCHED_MARKER_MESSAGE@),
        },
{
    let n = content.len();
    let start_marker = chars_of(START_MARKER);
    let end_marker = chars_of(END_MARKER);
    proof {
        lemma_markers();
    }
    let start = match find_chars(content, &start_marker, 0) {
        Some(s) => s,
        None => {
            return Ok(None);
        },
    };
    proof {
        lemma_find_from(content@, START_MARKER@, 0);
    }
    let after = start + start_marker.len();
    let e = match find_chars(content, &end_marker, after) {
        Some(e) => e,
        None => {
            return Err(unmatched_marker_error());
        },
    };
    proof {
        lemma_find_from(content@, END_MARKER@, after as int);
    }
    let marker_end = e + end_marker.len();
    let end = if marker_end < content.len() && content[marker_end] == '\n' {
        marker_end + 1
    } else {
        marker_end
    };
    Ok(Some((start, end)))
}

/// The managed block at `[start, end)` has a body that is empty or only
/// whitespace.
pub open spec fn body_is_empty_spec(content: Seq<char>, start: int, end: int) -> bool {
    let block = content.subrange(start, end);
    if !starts_with(block, START_MARKER@) {
        false
    } else {
        let after = block.skip(START_MARKER@.len() as int);
        let after2 = if after.len() > 0 && after[0] == '\n' {
            after.skip(1)
        } else {
            after
        };
        let body = match find_from(after2, END_MARKER@, 0) {
            Some(p) => after2.take(p),
            None => after2,
        };
        all_white(body)
    }
}

fn managed_block_body_is_empty(content: &[char], start: usize, end: usize) -> (b: bool)
    requires
        start <= end <= content@.len(),
    ensures
        b == body_is_empty_spec(content@, start as int, end as int),
{
    let block = slice_chars(content, start, end);
    let start_marker = chars_of(START_MARKER);
    let end_marker = chars_of(END_MARKER);
    if !starts_with_exec(&block, &start_marker) {
        return false;
    }
    let after = slice_chars(&block, start_marker.len(), block.len());
    assert(after@ =~= block@.skip(START_MARKER@.len() as int));
    let after2 = if after.len() > 0 && after[0] == '\n' {
        let a = slice_chars(&after, 1, after.len());
        assert(a@ =~= after@.skip(1));
        a
    } else {
        after
    };
    let body = match find_chars(&after2, &end_marker, 0) {
        Some(p) => {
            proof {
                lemma_find_from(after2@, END_MARKER@, 0);
            }
            let b = slice_chars(&after2, 0, p);
            assert(b@ =~= after2@.take(p as int));
            b
        },
        None => after2,
    };
    all_white_exec(&body)
}

/// The known unmarked startup blocks of earlier AstroFetch versions, in the
/// order they are removed.
pub open spec fn legacy_block(k: int) -> Seq<char> {
    let command = if k < 4 {
        COMMAND_FULL@
    } else {
        COMMAND_COMPACT@
    };
    let shell = if k % 4 == 0 {
        SetupShell::Bash
    } else if k % 4 == 1 {
        SetupShell::Zsh
    } else if k % 4 == 2 {
        SetupShell::Fish
    } else {
        SetupShell::Powershell
    };
    startup_body(shell, command)
}

/// `content` after removing every occurrence of legacy blocks `k..8`, in
/// order.
pub open spec fn remove_legacy_from(content: Seq<char>, k: int) -> Seq<char>
    decreases 8 - k,
{
    if k >= 8 || k < 0 {
        content
    } else {
        remove_legacy_from(replace_all(content, legacy_block(k), Seq::empty()), k + 1)
    }
}

pub open spec fn remove_legacy_spec(content: Seq<char>) -> Seq<char> {
    remove_legacy_from(content, 0)
}

fn legacy_block_chars(k: usize) -> (v: Vec<char>)
    requires
        k < 8,
    ensures
        v@ == legacy_block(k as int),
        v@.len() > 0,
{
    let command = if k < 4 { chars_of(COMMAND_FULL) } else { chars_of(COMMAND_COMPACT) };
    let shell = if k % 4 == 0 {
        SetupShell::Bash
    } else if k % 4 == 1 {
        SetupShell::Zsh
    } else if k % 4 == 2 {
        SetupShell::Fish
    } else {
        SetupShell::Powershell
    };
    let v = startup_body_chars(shell, &command);
    proof {
        reveal_strlit("\nfi\n");
        reveal_strlit("\nend\n");
        reveal_strlit("\n}\n");
    }
    v
}

fn remove_legacy_startup_blocks(content: &[char]) -> (r: Vec<char>)
    ensures
        r@ == remove_legacy_spec(content@),
{
    let mut c = slice_chars(content, 0, content.len());
    assert(c@ =~= content@);
    let empty: Vec<char> = Vec::new();
    let mut k: usize = 0;
    while k < 8
        invariant
            k <= 8,
            empty@ == Seq::<char>::empty(),
            remove_legacy_from(c@, k as int) == remove_legacy_spec(content@),
        decreases 8 - k,
    {
        let block = legacy_block_chars(k);
        c = replace_chars(&c, &block, &empty);
        k = k + 1;
    }
    c
}

/// What inserting `block` into `existing` produces: the new content and the
/// action, or `None` when a start marker has no matching end marker.
///
/// When `existing` holds a managed block, that block is left as it is and
/// the known legacy snippets are removed only from the text around it; the
/// block is replaced with `force`, when legacy snippets were removed, or
/// when its body is empty, and otherwise the file is left untouched.
/// Without a managed block, legacy snippets are removed first and the
/// cleaned text is handled as `insert_into_cleaned` says.
pub open spec fn insert_spec(existing: Seq<char>, block: Seq<char>, force: bool) -> Option<
    (Seq<char>, ManagedBlockAction),
> {
    match find_managed_spec(existing) {
        Ok(Some((s, e))) => {
            let before = remove_legacy_spec(existing.subrange(0, s));
            let after = remove_legacy_spec(existing.subrange(e, existing.len() as int));
            let cleaned = before + existing.subrange(s, e) + after;
            if force || cleaned != existing || body_is_empty_spec(existing, s, e) {
                Some((before + block + after, ManagedBlockAction::Replaced))
            } else {
                Some((existing, ManagedBlockAction::AlreadyInstalled))
            }
        },
        _ => insert_into_cleaned(remove_legacy_spec(existing), existing, block, force),
    }
}

/// Inserting `block` into `w`, the text of `existing` without its legacy
/// snippets.
pub open spec fn insert_into_cleaned(
    w: Seq<char>,
    existing: Seq<char>,
    block: Seq<char>,
    force: bool,
) -> Option<(Seq<char>, ManagedBlockAction)> {
    let removed_legacy = w != existing;
    match find_managed_spec(w) {
        Err(_) => None,
        Ok(Some((s, e))) => if force || removed_legacy || body_is_empty_spec(w, s, e) {
            Some((w.subrange(0, s) + block + w.subrange(e, w.len() as int), ManagedBlockAction::Replaced))
        } else {
            Some((w, ManagedBlockAction::AlreadyInstalled))
        },
        Ok(None) => {
            let c1 = if w.len() > 0 && w.last() != '\n' {
                w.push('\n')
            } else {
                w
            };
            let c2 = if c1.len() > 0 {
                c1.push('\n')
            } else {
                c1
            };
            Some((c2 + block, ManagedBlockAction::Inserted))
        },
    }
}

/// Inserts or replaces the AstroFetch managed block in existing content.
pub fn insert_or_update_managed_block(existing_content: &str, block: &str, force: bool) -> (r:
    Result<ManagedBlockResult, AppError>)
    ensures
        match r {
            Ok(res) => insert_spec(existing_content@, block@, force) == Some(
                (res.content@, res.action),
            ),
            Err(err) => insert_spec(existing_content@, block@, force) is None && (
            err matches AppError::Cli(m) && m@ == UNMATCHED_MARKER_MESSAGE@),
        },
{
    let existing = chars_of(existing_content);
    let blk = chars_of(block);
    if let Ok(Some((start, end))) = find_managed_block(&existing) {
        proof {
            lemma_find_managed_span(existing@);
        }
        let before = remove_legacy_startup_blocks(&slice_chars(&existing, 0, start));
        let after = remove_legacy_startup_blocks(&slice_chars(&existing, end, existing.len()));
        let mut cleaned = slice_chars(&before, 0, before.len());
        let span = slice_chars(&existing, start, end);
        extend_chars(&mut cleaned, &span);
        extend_chars(&mut cleaned, &after);
        proof {
            assert(before@.subrange(0, before@.len() as int) =~= before@);
        }
        let changed = !chars_eq(&cleaned, &existing);
        if force || changed || managed_block_body_is_empty(&existing, start, end) {
            let mut content = before;
            extend_chars(&mut content, &blk);
            extend_chars(&mut content, &after);
            return Ok(ManagedBlockResult {
                content: string_of(&content),
                action: ManagedBlockAction::Replaced,
            });
        } else {
            return Ok(ManagedBlockResult {
                content: string_of(&existing),
                action: ManagedBlockAction::AlreadyInstalled,
            });
        }
    }
    let w = remove_legacy_startup_blocks(&existing);
    let removed_legacy = !chars_eq(&w, &existing);
    match find_managed_block(&w) {
        Err(e) => Err(e),
        Ok(Some((start, end))) => {
            proof {
                lemma_find_managed_span(w@);
            }
            if force || removed_legacy || managed_block_body_is_empty(&w, start, end) {
                let mut content = slice_chars(&w, 0, start);
                extend_chars(&mut content, &blk);
                let tail = slice_chars(&w, end, w.len());
                extend_chars(&mut content, &tail);
                Ok(ManagedBlockResult {
                    content: string_of(&content),
                    action: ManagedBlockAction::Replaced,
                })
            } else {
                Ok(ManagedBlockResult {
                    content: string_of(&w),
                    action: ManagedBlockAction::AlreadyInstalled,
                })
            }
        },
        Ok(None) => {
            let mut content = w;
            if content.len() > 0 && content[content.len() - 1] != '\n' {
                content.push('\n');
            }
            if content.len() > 0 {
                content.push('\n');
            }
            extend_chars(&mut content, &blk);
            Ok(ManagedBlockResult {
                content: string_of(&content),
                action: ManagedBlockAction::Inserted,
            })
        },
    }
}

/// `content` with every managed block removed, first to last, or `None`
/// when a start marker has no matching end marker.
pub open spec fn remove_managed_all(content: Seq<char>) -> Option<Seq<char>>
    decreases content.len(),
{
    match find_managed_spec(content) {
        Err(_) => None,
        Ok(None) => Some(content),
        Ok(Some((s, e))) => if 0 <= s < e <= content.len() {
            remove_managed_all(content.subrange(0, s) + content.subrange(e, content.len() as int))
        } else {
            None
        },
    }
}

/// What removing the startup integration from `existing` produces, or
/// `None` when a start marker has no matching end marker.
pub open spec fn remove_spec(existing: Seq<char>) -> Option<(Seq<char>, UninstallShellAction)> {
    match remove_managed_all(existing) {
        None => None,
        Some(c) => {
            let c2 = remove_legacy_spec(c);
            Some(
                (
                    c2,
                    if c2 == existing {
                        UninstallShellAction::NotInstalled
                    } else {
                        UninstallShellAction::Removed
                    },
                ),
            )
        },
    }
}

/// Removes managed and known legacy AstroFetch startup blocks from existing
/// content.
pub fn remove_startup_blocks(existing_content: &str) -> (r: Result<UninstallShellResult, AppError>)
    ensures
        match r {
            Ok(res) => remove_spec(existing_content@) == Some((res.content@, res.action)),
            Err(err) => remove_spec(existing_content@) is None && (err matches AppError::Cli(m)
                && m@ == UNMATCHED_MARKER_MESSAGE@),
        },
{
    let existing = chars_of(existing_content);
    let mut content = slice_chars(&existing, 0, existing.len());
    assert(content@ =~= existing@);
    loop
        invariant
            existing@ == existing_content@,
            remove_managed_all(content@) == remove_managed_all(existing@),
        ensures
            remove_managed_all(content@) == Some(content@),
        decreases content@.len(),
    {
        match find_managed_block(&content) {
            Err(e) => {
                assert(remove_managed_all(content@) is None);
                assert(remove_spec(existing_content@) is None);
                return Err(e);
            },
            Ok(None) => {
                assert(remove_managed_all(content@) == Some(content@));
                break ;
            },
            Ok(Some((start, end))) => {
                proof {
                    lemma_find_managed_span(content@);
                }
                let mut next = slice_chars(&content, 0, start);
                let tail = slice_chars(&content, end, content.len());
                extend_chars(&mut next, &tail);
                content = next;
            },
        }
    }
    let cleaned = remove_legacy_startup_blocks(&content);
    let action = if chars_eq(&cleaned, &existing) {
        UninstallShellAction::NotInstalled
    } else {
        UninstallShellAction::Removed
    };
    Ok(UninstallShellResult { content: string_of(&cleaned), action })
}

/// An installation that reports the block as already installed leaves the
/// content exactly as it was.
pub proof fn lemma_already_installed_leaves_content(
    existing: Seq<char>,
    block: Seq<char>,
    force: bool,
    content: Seq<char>,
)
    requires
        insert_spec(existing, block, force) == Some((content, ManagedBlockAction::AlreadyInstalled)),
    ensures
        content == existing,
{
}

/// With `force`, an existing managed block is always replaced, never kept.
pub proof fn lemma_force_never_keeps_block(existing: Seq<char>, block: Seq<char>, content: Seq<char>)
    ensures
        insert_spec(existing, block, true) != Some((content, ManagedBlockAction::AlreadyInstalled)),
{
}

/// After an insertion or a replacement the content holds the new block.
pub proof fn lemma_installed_content_holds_block(
    existing: Seq<char>,
    block: Seq<char>,
    force: bool,
    content: Seq<char>,
    action: ManagedBlockAction,
)
    requires
        insert_spec(existing, block, force) == Some((content, action)),
        action != ManagedBlockAction::AlreadyInstalled,
    ensures
        exists|i: int|
            0 <= i && i + block.len() <= content.len() && #[trigger] content.subrange(i, i + block.len())
                == block,
{
    lemma_find_managed_span(existing);
    if let Ok(Some((s0, e0))) = find_managed_spec(existing) {
        let before = remove_legacy_spec(existing.subrange(0, s0));
        let k = before.len() as int;
        assert(content.subrange(k, k + block.len()) =~= block);
    } else {
        let w = remove_legacy_spec(existing);
        lemma_find_managed_span(w);
        match find_managed_spec(w) {
            Ok(Some((s, e))) => {
                assert(content.subrange(s, s + block.len()) =~= block);
            },
            Ok(None) => {
                let k = content.len() - block.len();
                assert(content.subrange(k, k + block.len()) =~= block);
            },
            Err(_) => {},
        }
    }
}

/// Removal reports `NotInstalled` exactly when it leaves the content as it
/// was.
pub proof fn lemma_not_installed_iff_unchanged(
    existing: Seq<char>,
    content: Seq<char>,
    action: UninstallShellAction,
)
    requires
        remove_spec(existing) == Some((content, action)),
    ensures
        action == UninstallShellAction::NotInstalled <==> content == existing,
{
}

/// Message of a Unix run whose shell cannot be inferred.
pub const SHELL_NOT_INFERRED_MESSAGE: &'static str =
    "Could not infer your shell from SHELL. Please pass --shell bash, --shell zsh, or --shell fish.";

/// The shell a Unix run configures: the explicit choice, else the shell
/// that the `SHELL` value names, else an error asking for `--shell`.
pub fn resolve_unix_shell(explicit_shell: Option<SetupShell>, shell_env: Option<&str>) -> (r: Result<
    SetupShell,
    AppError,
>)
    ensures
        explicit_shell matches Some(s) ==> r == Ok::<SetupShell, AppError>(s),
        explicit_shell is None && shell_env is Some && infer_shell_spec(shell_env.unwrap()@) is Some ==> r
            == Ok::<SetupShell, AppError>(infer_shell_spec(shell_env.unwrap()@).unwrap()),
        explicit_shell is None && (shell_env is None || infer_shell_spec(shell_env.unwrap()@) is None) ==> (r matches Err(
            AppError::Cli(m),
        ) && m@ == SHELL_NOT_INFERRED_MESSAGE@),
{
    if let Some(shell) = explicit_shell {
        return Ok(shell);
    }
    if let Some(path) = shell_env {
        if let Some(shell) = infer_unix_shell(path) {
            return Ok(shell);
        }
    }
    Err(AppError::Cli(SHELL_NOT_INFERRED_MESSAGE.to_owned()))
}

/// Startup file of a shell, relative to the home directory (outside
/// Windows).
pub open spec fn startup_file_spec(shell: SetupShell) -> Seq<char> {
    match shell {
        SetupShell::Bash => ".bashrc"@,
        SetupShell::Zsh => ".zshrc"@,
        SetupShell::Fish => ".config/fish/config.fish"@,
        SetupShell::Powershell => ".config/powershell/Microsoft.PowerShell_profile.ps1"@,
    }
}

/// The startup file a shell reads, relative to the home directory.
pub fn startup_file_relative_path(shell: SetupShell) -> (path: &'static str)
    ensures
        path@ == startup_file_spec(shell),
{
    match shell {
        SetupShell::Bash => ".bashrc",
        SetupShell::Zsh => ".zshrc",
        SetupShell::Fish => ".config/fish/config.fish",
        SetupShell::Powershell => ".config/powershell/Microsoft.PowerShell_profile.ps1",
    }
}


/// `c` does not occur in `s`.
pub open spec fn lacks_char(s: Seq<char>, c: char) -> bool {
    forall|k: int| 0 <= k < s.len() ==> s[k] != c
}

proof fn lemma_snippet_parts_lack_hash()
    ensures
        lacks_char(BASH_HEAD@, '#'),
        lacks_char(ZSH_HEAD@, '#'),
        lacks_char(FISH_HEAD@, '#'),
        lacks_char(POWERSHELL_HEAD@, '#'),
        lacks_char(FI_TAIL@, '#'),
        lacks_char(END_TAIL@, '#'),
        lacks_char(BRACE_TAIL@, '#'),
        lacks_char(COMMAND_FULL@, '#'),
        lacks_char(COMMAND_COMPACT@, '#'),
        lacks_char(START_MARKER@, '\n'),
        END_MARKER@[0] == '#',
{
    reveal_strlit("if [[ $- == *i* ]] && command -v astrofetch >/dev/null 2>&1; then\n    ");
    reveal_strlit("if [[ -o interactive ]] && command -v astrofetch >/dev/null 2>&1; then\n    ");
    reveal_strlit("if status is-interactive; and command -q astrofetch\n    ");
    reveal_strlit(
        "if ($Host.Name -eq \"ConsoleHost\" -and (Get-Command astrofetch -ErrorAction SilentlyContinue)) {\n    ",
    );
    reveal_strlit("\nfi\n");
    reveal_strlit("\nend\n");
    reveal_strlit("\n}\n");
    reveal_strlit("astrofetch");
    reveal_strlit("astrofetch --compact");
    reveal_strlit("# >>> astrofetch >>>");
    reveal_strlit("# <<< astrofetch <<<");
}

proof fn lemma_lacks_char_add(a: Seq<char>, b: Seq<char>, c: char)
    requires
        lacks_char(a, c),
        lacks_char(b, c),
    ensures
        lacks_char(a + b, c),
{
    assert forall|k: int| 0 <= k < (a + b).len() implies (a + b)[k] != c by {
        if k < a.len() {
            assert((a + b)[k] == a[k]);
        } else {
            assert((a + b)[k] == b[k - a.len()]);
        }
    }
}

proof fn lemma_body_lacks_hash(shell: SetupShell, compact: bool)
    ensures
        lacks_char(startup_body(shell, startup_command(compact)), '#'),
{
    lemma_snippet_parts_lack_hash();
    let command = startup_command(compact);
    match shell {
        SetupShell::Bash => {
            lemma_lacks_char_add(BASH_HEAD@, command, '#');
            lemma_lacks_char_add(BASH_HEAD@ + command, FI_TAIL@, '#');
        },
        SetupShell::Zsh => {
            lemma_lacks_char_add(ZSH_HEAD@, command, '#');
            lemma_lacks_char_add(ZSH_HEAD@ + command, FI_TAIL@, '#');
        },
        SetupShell::Fish => {
            lemma_lacks_char_add(FISH_HEAD@, command, '#');
            lemma_lacks_char_add(FISH_HEAD@ + command, END_TAIL@, '#');
        },
        SetupShell::Powershell => {
            lemma_lacks_char_add(POWERSHELL_HEAD@, command, '#');
            lemma_lacks_char_add(POWERSHELL_HEAD@ + command, BRACE_TAIL@, '#');
        },
    }
}

/// A match with no earlier match at or after `from` is what `find_from`
/// returns.
proof fn lemma_find_from_first(hay: Seq<char>, needle: Seq<char>, from: int, i: int)
    requires
        0 <= from <= i,
        matches_at(hay, needle, i),
        forall|j: int| from <= j < i ==> !matches_at(hay, needle, j),
    ensures
        find_from(hay, needle, from) == Some(i),
    decreases i - from,
{
    if from < i {
        lemma_find_from_first(hay, needle, from + 1, i);
    }
}

/// With no match at or after `from`, `find_from` returns `None`.
proof fn lemma_find_from_absent(hay: Seq<char>, needle: Seq<char>, from: int)
    requires
        0 <= from,
        forall|j: int| from <= j ==> !matches_at(hay, needle, j),
    ensures
        find_from(hay, needle, from) is None,
    decreases hay.len() + 1 - from,
{
    if from + needle.len() <= hay.len() {
        lemma_find_from_absent(hay, needle, from + 1);
    }
}

/// No start marker begins inside `c2` when `c2` is `w` (which has none)
/// followed by newlines only, and either grows `w` or is empty.
proof fn lemma_no_start_in_padded(w: Seq<char>, c2: Seq<char>, tail: Seq<char>, j: int)
    requires
        find_from(w, START_MARKER@, 0) is None,
        w.len() <= c2.len(),
        c2.subrange(0, w.len() as int) == w,
        forall|k: int| w.len() <= k < c2.len() ==> c2[k] == '\n',
        w.len() < c2.len() || c2.len() == 0,
        0 <= j < c2.len(),
    ensures
        !matches_at(c2 + tail, START_MARKER@, j),
{
    lemma_snippet_parts_lack_hash();
    lemma_markers();
    lemma_find_from(w, START_MARKER@, 0);
    let hay = c2 + tail;
    if matches_at(hay, START_MARKER@, j) {
        if j + START_MARKER@.len() <= w.len() {
            assert(w.subrange(j, j + START_MARKER@.len()) =~= hay.subrange(
                j,
                j + START_MARKER@.len(),
            ));
            assert(matches_at(w, START_MARKER@, j));
        } else {
            let p = if j >= w.len() {
                j
            } else {
                w.len() as int
            };
            assert(hay[p] == c2[p]);
            assert(hay.subrange(j, j + START_MARKER@.len())[p - j] == hay[p]);
            assert(START_MARKER@[p - j] != '\n');
        }
    }
}

proof fn lemma_replace_with_empty_shrinks(s: Seq<char>, pat: Seq<char>)
    ensures
        replace_all(s, pat, Seq::empty()).len() <= s.len(),
    decreases s.len(),
{
    if pat.len() > 0 {
        if let Some(i) = find_from(s, pat, 0) {
            if 0 <= i && i + pat.len() <= s.len() {
                lemma_replace_with_empty_shrinks(s.subrange(i + pat.len(), s.len() as int), pat);
            }
        }
    }
}

proof fn lemma_remove_legacy_shrinks(content: Seq<char>, k: int)
    ensures
        remove_legacy_from(content, k).len() <= content.len(),
    decreases 8 - k,
{
    if 0 <= k < 8 {
        let next = replace_all(content, legacy_block(k), Seq::empty());
        lemma_replace_with_empty_shrinks(content, legacy_block(k));
        lemma_remove_legacy_shrinks(next, k + 1);
    }
}

/// In `c2 + block`, with `c2` free of start markers as above, the first
/// managed block is exactly `block`.
proof fn lemma_appended_block_found(
    w: Seq<char>,
    c2: Seq<char>,
    shell: SetupShell,
    compact: bool,
)
    requires
        find_from(w, START_MARKER@, 0) is None,
        w.len() <= c2.len(),
        c2.subrange(0, w.len() as int) == w,
        forall|k: int| w.len() <= k < c2.len() ==> c2[k] == '\n',
        w.len() < c2.len() || c2.len() == 0,
    ensures
        find_managed_spec(c2 + shell_block_spec(shell, compact)) == Ok::<
            Option<(int, int)>,
            (),
        >(Some((c2.len() as int, (c2 + shell_block_spec(shell, compact)).len() as int))),
        find_managed_spec(c2) == Ok::<Option<(int, int)>, ()>(None),
{
    lemma_markers();
    lemma_snippet_parts_lack_hash();
    lemma_body_lacks_hash(shell, compact);
    let body = startup_body(shell, startup_command(compact));
    let block = shell_block_spec(shell, compact);
    let content = c2 + block;
    let l = c2.len() as int;
    let sm = START_MARKER@.len() as int;
    let em = END_MARKER@.len() as int;
    assert(block =~= START_MARKER@ + ("\n"@ + (body + (END_MARKER@ + "\n"@))));
    reveal_strlit("\n");
    assert forall|j: int| 0 <= j < l implies !matches_at(content, START_MARKER@, j) by {
        lemma_no_start_in_padded(w, c2, block, j);
    }
    assert(content.subrange(l, l + sm) =~= START_MARKER@);
    lemma_find_from_first(content, START_MARKER@, 0, l);
    let e = l + sm + 1 + body.len();
    assert forall|j: int| l + sm <= j < e implies !matches_at(content, END_MARKER@, j) by {
        if matches_at(content, END_MARKER@, j) {
            assert(content.subrange(j, j + em)[0] == content[j]);
            if j == l + sm {
                assert(content[j] == '\n');
            } else {
                assert(content[j] == body[j - l - sm - 1]);
            }
        }
    }
    assert(content.subrange(e, e + em) =~= END_MARKER@);
    lemma_find_from_first(content, END_MARKER@, l + sm, e);
    assert(content[e + em] == '\n');
    assert(content.len() == e + em + 1);
    assert forall|j: int| 0 <= j implies !matches_at(c2, START_MARKER@, j) by {
        if j < l {
            lemma_no_start_in_padded(w, c2, Seq::empty(), j);
            assert(c2 + Seq::<char>::empty() =~= c2);
        }
    }
    lemma_find_from_absent(c2, START_MARKER@, 0);
}

/// Uninstalling right after a fresh installation of a startup block reports
/// the integration as removed, and takes away exactly the appended block
/// (what precedes it is then cleaned of legacy blocks as usual).
pub proof fn lemma_uninstall_undoes_fresh_install(
    existing: Seq<char>,
    shell: SetupShell,
    compact: bool,
    force: bool,
    content: Seq<char>,
)
    requires
        insert_spec(existing, shell_block_spec(shell, compact), force) == Some(
            (content, ManagedBlockAction::Inserted),
        ),
    ensures
        remove_spec(content) == Some(
            (
                remove_legacy_spec(
                    content.subrange(0, content.len() - shell_block_spec(shell, compact).len()),
                ),
                UninstallShellAction::Removed,
            ),
        ),
{
    let block = shell_block_spec(shell, compact);
    assert(!(find_managed_spec(existing) is Ok && find_managed_spec(existing)->Ok_0 is Some));
    let w = remove_legacy_spec(existing);
    lemma_find_from(w, START_MARKER@, 0);
    assert(find_managed_spec(w) == Ok::<Option<(int, int)>, ()>(None));
    let c1 = if w.len() > 0 && w.last() != '\n' {
        w.push('\n')
    } else {
        w
    };
    let c2 = if c1.len() > 0 {
        c1.push('\n')
    } else {
        c1
    };
    assert(content == c2 + block);
    assert(c2.subrange(0, w.len() as int) =~= w);
    lemma_appended_block_found(w, c2, shell, compact);
    let l = c2.len() as int;
    assert(content.subrange(0, l) + content.subrange(content.len() as int, content.len() as int)
        =~= c2);
    assert(remove_managed_all(c2) == Some(c2));
    assert(remove_managed_all(content) == Some(c2));
    assert(content.subrange(0, content.len() - block.len()) =~= c2);
    lemma_remove_legacy_shrinks(c2, 0);
    lemma_markers();
    assert(remove_legacy_spec(c2).len() < content.len());
}

proof fn lemma_remove_legacy_identity(content: Seq<char>, k: int)
    requires
        forall|k2: int|
            k <= k2 < 8 ==> replace_all(content, #[trigger] legacy_block(k2), Seq::empty()) == content,
    ensures
        remove_legacy_from(content, k) == content,
    decreases 8 - k,
{
    if 0 <= k < 8 {
        lemma_remove_legacy_identity(content, k + 1);
    }
}

/// Every snippet starts with `i`.
proof fn lemma_body_starts_with_i(shell: SetupShell, compact: bool)
    ensures
        startup_body(shell, startup_command(compact)).len() > 0,
        startup_body(shell, startup_command(compact))[0] == 'i',
{
    reveal_strlit("if [[ $- == *i* ]] && command -v astrofetch >/dev/null 2>&1; then\n    ");
    reveal_strlit("if [[ -o interactive ]] && command -v astrofetch >/dev/null 2>&1; then\n    ");
    reveal_strlit("if status is-interactive; and command -q astrofetch\n    ");
    reveal_strlit(
        "if ($Host.Name -eq \"ConsoleHost\" -and (Get-Command astrofetch -ErrorAction SilentlyContinue)) {\n    ",
    );
}

/// The markers' characters: each holds `#` only at its start, they differ
/// at their third character, and the line break is one character.
proof fn lemma_marker_chars()
    ensures
        START_MARKER@[0] == '#',
        END_MARKER@[0] == '#',
        forall|i: int| 1 <= i < START_MARKER@.len() ==> START_MARKER@[i] != '#',
        forall|i: int| 1 <= i < END_MARKER@.len() ==> END_MARKER@[i] != '#',
        START_MARKER@[2] != END_MARKER@[2],
        "\n"@ == seq!['\n'],
{
    reveal_strlit("# >>> astrofetch >>>");
    reveal_strlit("# <<< astrofetch <<<");
    reveal_strlit("\n");
}

/// A managed block holds each marker exactly once (the start marker at its
/// start, the end marker before its final line break), and the managed-block
/// search finds the whole block.
pub proof fn lemma_shell_block_markers(shell: SetupShell, compact: bool)
    ensures
        forall|j: int|
            matches_at(shell_block_spec(shell, compact), START_MARKER@, j) <==> j == 0,
        forall|j: int|
            matches_at(shell_block_spec(shell, compact), END_MARKER@, j) <==> j
                == shell_block_spec(shell, compact).len() - END_MARKER@.len() - 1,
        find_managed_spec(shell_block_spec(shell, compact)) == Ok::<Option<(int, int)>, ()>(
            Some((0, shell_block_spec(shell, compact).len() as int)),
        ),
{
    let b = shell_block_spec(shell, compact);
    let body = startup_body(shell, startup_command(compact));
    let empty = Seq::<char>::empty();
    lemma_markers();
    lemma_marker_chars();
    lemma_body_lacks_hash(shell, compact);
    lemma_find_from_absent(empty, START_MARKER@, 0);
    assert(empty.subrange(0, 0) =~= empty);
    lemma_appended_block_found(empty, empty, shell, compact);
    assert(empty + b =~= b);
    let e: int = START_MARKER@.len() + 1int + body.len();
    assert(b =~= START_MARKER@ + "\n"@ + body + END_MARKER@ + "\n"@);
    assert forall|j: int| 0 <= j < b.len() && b[j] == '#' implies j == 0 || j == e by {
        if 0 < j < START_MARKER@.len() {
            assert(b[j] == START_MARKER@[j]);
        } else if j == START_MARKER@.len() {
            assert(b[j] == '\n');
        } else if START_MARKER@.len() < j < e {
            assert(b[j] == body[j - START_MARKER@.len() - 1]);
        } else if e < j < e + END_MARKER@.len() {
            assert(b[j] == END_MARKER@[j - e]);
        } else if j == e + END_MARKER@.len() {
            assert(b[j] == '\n');
        }
    }
    assert(b.subrange(0, START_MARKER@.len() as int) =~= START_MARKER@);
    assert(b.subrange(e, e + END_MARKER@.len()) =~= END_MARKER@);
    assert forall|j: int| matches_at(b, START_MARKER@, j) <==> j == 0 by {
        if matches_at(b, START_MARKER@, j) {
            assert(b.subrange(j, j + START_MARKER@.len())[0] == b[j]);
            if j == e {
                assert(b.subrange(e, e + END_MARKER@.len())[2] == END_MARKER@[2]);
            }
        }
    }
    assert forall|j: int| matches_at(b, END_MARKER@, j) <==> j == b.len() - END_MARKER@.len() - 1 by {
        if matches_at(b, END_MARKER@, j) {
            assert(b.subrange(j, j + END_MARKER@.len())[0] == b[j]);
            if j == 0 {
                assert(b.subrange(0, START_MARKER@.len() as int)[2] == START_MARKER@[2]);
            }
        }
    }
}

/// Installing a block again into a file that holds it, after text free of
/// start markers and legacy snippets that ends with a line break (or is
/// empty), leaves the file exactly as it is: without `force` the block is
/// reported as already installed, with `force` it is replaced by itself.
pub proof fn lemma_reinstall_keeps_file(
    prefix: Seq<char>,
    shell: SetupShell,
    compact: bool,
    force: bool,
)
    requires
        find_from(prefix, START_MARKER@, 0) is None,
        forall|k: int| 0 <= k < 8 ==> find_from(prefix, #[trigger] legacy_block(k), 0) is None,
        prefix.len() == 0 || prefix.last() == '\n',
    ensures
        insert_spec(
            prefix + shell_block_spec(shell, compact),
            shell_block_spec(shell, compact),
            force,
        ) == Some(
            (
                prefix + shell_block_spec(shell, compact),
                if force {
                    ManagedBlockAction::Replaced
                } else {
                    ManagedBlockAction::AlreadyInstalled
                },
            ),
        ),
{
    let block = shell_block_spec(shell, compact);
    let existing = prefix + block;
    let empty = Seq::<char>::empty();
    let l = prefix.len() as int;
    lemma_block_after_plain_prefix(prefix, shell, compact);
    assert(find_managed_spec(existing) == Ok::<Option<(int, int)>, ()>(
        Some((l, existing.len() as int)),
    ));
    assert(existing.subrange(0, l) =~= prefix);
    assert(existing.subrange(l, existing.len() as int) =~= block);
    assert(existing.subrange(existing.len() as int, existing.len() as int) =~= empty);
    assert forall|k2: int| 0 <= k2 < 8 implies replace_all(prefix, #[trigger] legacy_block(k2), empty)
        == prefix by {
        assert(find_from(prefix, legacy_block(k2), 0) is None);
    }
    lemma_remove_legacy_identity(prefix, 0);
    assert forall|k2: int| 0 <= k2 < 8 implies replace_all(empty, #[trigger] legacy_block(k2), empty)
        == empty by {}
    lemma_remove_legacy_identity(empty, 0);
    assert(prefix + block + empty =~= existing);
    lemma_block_body_not_blank(existing, l, existing.len() as int, shell, compact);
}

/// After text without start markers that ends with a line break (or is
/// empty), an appended block is the first managed block.
proof fn lemma_block_after_plain_prefix(prefix: Seq<char>, shell: SetupShell, compact: bool)
    requires
        find_from(prefix, START_MARKER@, 0) is None,
        prefix.len() == 0 || prefix.last() == '\n',
    ensures
        find_managed_spec(prefix + shell_block_spec(shell, compact)) == Ok::<Option<(int, int)>, ()>(
            Some((prefix.len() as int, (prefix + shell_block_spec(shell, compact)).len() as int)),
        ),
{
    lemma_markers();
    let w0 = if prefix.len() == 0 {
        prefix
    } else {
        prefix.drop_last()
    };
    lemma_find_from(prefix, START_MARKER@, 0);
    assert forall|j: int| 0 <= j implies !matches_at(w0, START_MARKER@, j) by {
        if matches_at(w0, START_MARKER@, j) {
            assert(prefix.subrange(j, j + START_MARKER@.len()) =~= w0.subrange(
                j,
                j + START_MARKER@.len(),
            ));
            assert(matches_at(prefix, START_MARKER@, j));
        }
    }
    lemma_find_from_absent(w0, START_MARKER@, 0);
    assert(prefix.subrange(0, w0.len() as int) =~= w0);
    lemma_appended_block_found(w0, prefix, shell, compact);
}

/// The body of an installed block is not blank: it starts with `i`.
proof fn lemma_block_body_not_blank(c: Seq<char>, s: int, e: int, shell: SetupShell, compact: bool)
    requires
        0 <= s <= e <= c.len(),
        c.subrange(s, e) == shell_block_spec(shell, compact),
    ensures
        !body_is_empty_spec(c, s, e),
{
    let body = startup_body(shell, startup_command(compact));
    lemma_markers();
    lemma_marker_chars();
    lemma_body_lacks_hash(shell, compact);
    lemma_body_starts_with_i(shell, compact);
    let bl = c.subrange(s, e);
    assert(bl =~= START_MARKER@ + "\n"@ + body + END_MARKER@ + "\n"@);
    assert(bl.subrange(0, START_MARKER@.len() as int) =~= START_MARKER@);
    let after = bl.skip(START_MARKER@.len() as int);
    assert(after[0] == '\n');
    let after2 = after.skip(1);
    assert(after2 =~= body + (END_MARKER@ + "\n"@));
    assert forall|j: int| 0 <= j < body.len() implies !matches_at(after2, END_MARKER@, j) by {
        if matches_at(after2, END_MARKER@, j) {
            assert(after2.subrange(j, j + END_MARKER@.len())[0] == after2[j]);
            assert(after2[j] == body[j]);
        }
    }
    assert(after2.subrange(body.len() as int, body.len() + END_MARKER@.len() as int) =~= END_MARKER@);
    lemma_find_from_first(after2, END_MARKER@, 0, body.len() as int);
    assert(after2.take(body.len() as int) =~= body);
    assert(!crate::text::is_white(body[0]));
}

proof fn lemma_remove_managed_all_shrinks(content: Seq<char>)
    ensures
        remove_managed_all(content) matches Some(r) ==> r.len() <= content.len() && (r.len()
            == content.len() ==> r == content),
    decreases content.len(),
{
    if let Ok(Some((s, e))) = find_managed_spec(content) {
        if 0 <= s < e <= content.len() {
            lemma_remove_managed_all_shrinks(
                content.subrange(0, s) + content.subrange(e, content.len() as int),
            );
        }
    }
}

proof fn lemma_replace_with_empty_same_len(s: Seq<char>, pat: Seq<char>)
    ensures
        replace_all(s, pat, Seq::empty()).len() == s.len() ==> replace_all(s, pat, Seq::empty()) == s,
{
    if pat.len() > 0 {
        if let Some(i) = find_from(s, pat, 0) {
            if 0 <= i && i + pat.len() <= s.len() {
                lemma_replace_with_empty_shrinks(s.subrange(i + pat.len(), s.len() as int), pat);
            }
        }
    }
}

proof fn lemma_remove_legacy_same_len(content: Seq<char>, k: int)
    ensures
        remove_legacy_from(content, k).len() == content.len() ==> remove_legacy_from(content, k)
            == content,
    decreases 8 - k,
{
    if 0 <= k < 8 {
        let next = replace_all(content, legacy_block(k), Seq::empty());
        lemma_replace_with_empty_shrinks(content, legacy_block(k));
        lemma_replace_with_empty_same_len(content, legacy_block(k));
        lemma_remove_legacy_shrinks(next, k + 1);
        lemma_remove_legacy_same_len(next, k + 1);
    }
}

/// Removing the startup integration never makes a file longer, and when it
/// reports something removed the file is strictly shorter.
pub proof fn lemma_uninstall_never_grows(
    existing: Seq<char>,
    content: Seq<char>,
    action: UninstallShellAction,
)
    requires
        remove_spec(existing) == Some((content, action)),
    ensures
        content.len() <= existing.len(),
        action == UninstallShellAction::Removed ==> content.len() < existing.len(),
{
    lemma_remove_managed_all_shrinks(existing);
    let c = remove_managed_all(existing)->Some_0;
    lemma_remove_legacy_shrinks(c, 0);
    lemma_remove_legacy_same_len(c, 0);
}

/// Installing into text whose first start marker has no end marker after
/// it (and that holds no legacy snippet) is refused: no content is
/// produced, and the user is asked to fix the file.
pub proof fn lemma_unmatched_marker_refused(existing: Seq<char>, block: Seq<char>, force: bool)
    requires
        find_managed_spec(existing) is Err,
        forall|k: int| 0 <= k < 8 ==> find_from(existing, #[trigger] legacy_block(k), 0) is None,
    ensures
        insert_spec(existing, block, force) is None,
{
    assert forall|k2: int| 0 <= k2 < 8 implies replace_all(
        existing,
        #[trigger] legacy_block(k2),
        Seq::empty(),
    ) == existing by {
        assert(find_from(existing, legacy_block(k2), 0) is None);
    }
    lemma_remove_legacy_identity(existing, 0);
}

/// No `i` at or after `from` in `s` is directly followed by `f`.
spec fn if_free_from(s: Seq<char>, from: int) -> bool {
    forall|k: int| from <= k && k + 1 < s.len() ==> !(s[k] == 'i' && #[trigger] s[k + 1] == 'f')
}

proof fn lemma_snippet_parts_if_free()
    ensures
        if_free_from(BASH_HEAD@, 1),
        if_free_from(ZSH_HEAD@, 1),
        if_free_from(FISH_HEAD@, 1),
        if_free_from(POWERSHELL_HEAD@, 1),
        BASH_HEAD@.last() == ' ',
        ZSH_HEAD@.last() == ' ',
        FISH_HEAD@.last() == ' ',
        POWERSHELL_HEAD@.last() == ' ',
        if_free_from(COMMAND_FULL@, 0),
        if_free_from(COMMAND_COMPACT@, 0),
        COMMAND_FULL@.len() > 0,
        COMMAND_COMPACT@.len() > 0,
        BASH_HEAD@.len() > 0,
        ZSH_HEAD@.len() > 0,
        FISH_HEAD@.len() > 0,
        POWERSHELL_HEAD@.len() > 0,
        COMMAND_FULL@.last() == 'h',
        COMMAND_COMPACT@.last() == 't',
        if_free_from(FI_TAIL@, 0),
        if_free_from(END_TAIL@, 0),
        if_free_from(BRACE_TAIL@, 0),
{
    reveal_strlit("if [[ $- == *i* ]] && command -v astrofetch >/dev/null 2>&1; then\n    ");
    reveal_strlit("if [[ -o interactive ]] && command -v astrofetch >/dev/null 2>&1; then\n    ");
    reveal_strlit("if status is-interactive; and command -q astrofetch\n    ");
    reveal_strlit(
        "if ($Host.Name -eq \"ConsoleHost\" -and (Get-Command astrofetch -ErrorAction SilentlyContinue)) {\n    ",
    );
    reveal_strlit("\nfi\n");
    reveal_strlit("\nend\n");
    reveal_strlit("\n}\n");
    reveal_strlit("astrofetch");
    reveal_strlit("astrofetch --compact");
}

proof fn lemma_if_free_add(a: Seq<char>, b: Seq<char>, from: int)
    requires
        if_free_from(a, from),
        if_free_from(b, 0),
        a.len() > 0,
        a.last() != 'i',
        0 <= from,
    ensures
        if_free_from(a + b, from),
{
    assert forall|k: int| from <= k && k + 1 < (a + b).len() implies !((a + b)[k] == 'i' && #[trigger] (a
        + b)[k + 1] == 'f') by {
        if k + 1 < a.len() {
            assert((a + b)[k] == a[k] && (a + b)[k + 1] == a[k + 1]);
        } else if k + 1 == a.len() {
            assert((a + b)[k] == a[k]);
            assert(a[k] == a.last());
        } else {
            let kk = k - a.len();
            assert(0 <= kk && kk + 1 < b.len());
            assert((a + b)[k] == b[kk] && (a + b)[k + 1] == b[kk + 1]);
        }
    }
}

/// Every snippet starts with `if` and holds no other `if`.
proof fn lemma_snippet_if_only_at_start(k: int)
    requires
        0 <= k < 8,
    ensures
        if_free_from(legacy_block(k), 1),
        legacy_block(k).len() > 2,
        legacy_block(k)[0] == 'i',
        legacy_block(k)[1] == 'f',
{
    lemma_snippet_parts_if_free();
    reveal_strlit("if [[ $- == *i* ]] && command -v astrofetch >/dev/null 2>&1; then\n    ");
    reveal_strlit("if [[ -o interactive ]] && command -v astrofetch >/dev/null 2>&1; then\n    ");
    reveal_strlit("if status is-interactive; and command -q astrofetch\n    ");
    reveal_strlit(
        "if ($Host.Name -eq \"ConsoleHost\" -and (Get-Command astrofetch -ErrorAction SilentlyContinue)) {\n    ",
    );
    let command = if k < 4 {
        COMMAND_FULL@
    } else {
        COMMAND_COMPACT@
    };
    let (head, tail) = if k % 4 == 0 {
        (BASH_HEAD@, FI_TAIL@)
    } else if k % 4 == 1 {
        (ZSH_HEAD@, FI_TAIL@)
    } else if k % 4 == 2 {
        (FISH_HEAD@, END_TAIL@)
    } else {
        (POWERSHELL_HEAD@, BRACE_TAIL@)
    };
    assert(legacy_block(k) == head + command + tail);
    lemma_if_free_add(head, command, 1);
    lemma_if_free_add(head + command, tail, 1);
    assert((head + command).last() == command.last());
}

/// A shorter-or-equal snippet is never a prefix of a different one: they
/// differ within the shorter one.
proof fn lemma_snippets_differ_in_prefix(k: int, t: int)
    requires
        0 <= k < 8,
        0 <= t < 8,
        k != t,
        legacy_block(k).len() <= legacy_block(t).len(),
    ensures
        legacy_block(k) != legacy_block(t).subrange(0, legacy_block(k).len() as int),
{
    reveal_strlit("if [[ $- == *i* ]] && command -v astrofetch >/dev/null 2>&1; then\n    ");
    reveal_strlit("if [[ -o interactive ]] && command -v astrofetch >/dev/null 2>&1; then\n    ");
    reveal_strlit("if status is-interactive; and command -q astrofetch\n    ");
    reveal_strlit(
        "if ($Host.Name -eq \"ConsoleHost\" -and (Get-Command astrofetch -ErrorAction SilentlyContinue)) {\n    ",
    );
    reveal_strlit("\nfi\n");
    reveal_strlit("\nend\n");
    reveal_strlit("\n}\n");
    reveal_strlit("astrofetch");
    reveal_strlit("astrofetch --compact");
    let lk = legacy_block(k);
    let lt = legacy_block(t);
    let d: int = if k % 4 != t % 4 {
        if (k % 4 == 0 && t % 4 == 1) || (k % 4 == 1 && t % 4 == 0) {
            6
        } else {
            3
        }
    } else if k % 4 == 0 {
        BASH_HEAD@.len() + 10int
    } else if k % 4 == 1 {
        ZSH_HEAD@.len() + 10int
    } else if k % 4 == 2 {
        FISH_HEAD@.len() + 10int
    } else {
        POWERSHELL_HEAD@.len() + 10int
    };
    assert(d < lk.len());
    assert(lt.subrange(0, lk.len() as int)[d] == lt[d]);
    assert(lk[d] != lt[d]);
}

/// A snippet never occurs inside a different snippet.
proof fn lemma_snippet_absent_from_other(k: int, t: int)
    requires
        0 <= k < 8,
        0 <= t < 8,
        k != t,
    ensures
        find_from(legacy_block(t), legacy_block(k), 0) is None,
        replace_all(legacy_block(t), legacy_block(k), Seq::empty()) == legacy_block(t),
{
    let lk = legacy_block(k);
    let lt = legacy_block(t);
    lemma_snippet_if_only_at_start(k);
    lemma_snippet_if_only_at_start(t);
    assert forall|j: int| 0 <= j implies !matches_at(lt, lk, j) by {
        if matches_at(lt, lk, j) {
            assert(lt.subrange(j, j + lk.len())[0] == lt[j]);
            assert(lt.subrange(j, j + lk.len())[1] == lt[j + 1]);
            if j == 0 {
                lemma_snippets_differ_in_prefix(k, t);
            } else {
                assert(lt[j] == 'i' && lt[j + 1] == 'f');
            }
        }
    }
    lemma_find_from_absent(lt, lk, 0);
}

/// Legacy removal from `k` gives what it gives from `t` when none of the
/// legacy blocks `k..t` occurs.
proof fn lemma_remove_legacy_skips(content: Seq<char>, k: int, t: int)
    requires
        0 <= k <= t <= 8,
        forall|k2: int|
            k <= k2 < t ==> replace_all(content, #[trigger] legacy_block(k2), Seq::empty()) == content,
    ensures
        remove_legacy_from(content, k) == remove_legacy_from(content, t),
    decreases t - k,
{
    if k < t {
        lemma_remove_legacy_skips(content, k + 1, t);
    }
}

/// A text that is one startup snippet holds no managed block, and legacy
/// removal takes all of it away.
proof fn lemma_snippet_cleaned_away(shell: SetupShell, compact: bool)
    ensures
        find_managed_spec(startup_body(shell, startup_command(compact))) == Ok::<
            Option<(int, int)>,
            (),
        >(None),
        remove_legacy_spec(startup_body(shell, startup_command(compact))) == Seq::<char>::empty(),
        startup_body(shell, startup_command(compact)).len() > 0,
{
    let b = startup_body(shell, startup_command(compact));
    let empty = Seq::<char>::empty();
    let t: int = (if compact {
        4int
    } else {
        0int
    }) + match shell {
        SetupShell::Bash => 0int,
        SetupShell::Zsh => 1int,
        SetupShell::Fish => 2int,
        SetupShell::Powershell => 3int,
    };
    assert(legacy_block(t) == b);
    lemma_body_lacks_hash(shell, compact);
    lemma_marker_chars();
    lemma_markers();
    assert forall|j: int| 0 <= j implies !matches_at(b, START_MARKER@, j) by {
        if matches_at(b, START_MARKER@, j) {
            assert(b.subrange(j, j + START_MARKER@.len())[0] == b[j]);
        }
    }
    lemma_find_from_absent(b, START_MARKER@, 0);
    assert(find_managed_spec(b) == Ok::<Option<(int, int)>, ()>(None));
    assert(remove_managed_all(b) == Some(b));
    assert forall|k2: int| 0 <= k2 < t implies replace_all(b, #[trigger] legacy_block(k2), empty) == b by {
        lemma_snippet_absent_from_other(k2, t);
    }
    lemma_remove_legacy_skips(b, 0, t);
    lemma_snippet_if_only_at_start(t);
    assert(b.subrange(0, b.len() as int) =~= b);
    lemma_find_from_first(b, b, 0, 0);
    assert(b.subrange(b.len() as int, b.len() as int) =~= empty);
    assert(find_from(empty, b, 0) is None);
    assert(replace_all(empty, b, empty) == empty);
    assert(b.subrange(0, 0) + empty + empty =~= empty);
    assert(replace_all(b, legacy_block(t), empty) == empty);
    assert forall|k2: int| t + 1 <= k2 < 8 implies replace_all(empty, #[trigger] legacy_block(k2), empty)
        == empty by {}
    lemma_remove_legacy_identity(empty, t + 1);
    assert(remove_legacy_from(b, t) == remove_legacy_from(empty, t + 1));
    assert(b.len() > 0);
}

/// Uninstalling a file that holds nothing but the unmarked startup snippet
/// of any shell, with either command, removes the snippet and empties the
/// file: every shell's snippet is a recognized legacy block.
pub proof fn lemma_legacy_snippets_uninstalled(shell: SetupShell, compact: bool)
    ensures
        remove_spec(startup_body(shell, startup_command(compact))) == Some(
            (Seq::<char>::empty(), UninstallShellAction::Removed),
        ),
{
    let b = startup_body(shell, startup_command(compact));
    lemma_snippet_cleaned_away(shell, compact);
    assert(remove_managed_all(b) == Some(b));
    assert(Seq::<char>::empty() != b);
}

/// Installing any block into a file that holds nothing but the unmarked
/// startup snippet of any shell, with either command, replaces the snippet
/// by the block: the file then holds exactly the block, reported as
/// inserted, so the snippet is never left beside the block.
pub proof fn lemma_legacy_snippet_replaced_on_install(
    shell: SetupShell,
    compact: bool,
    block: Seq<char>,
    force: bool,
)
    ensures
        insert_spec(startup_body(shell, startup_command(compact)), block, force) == Some(
            (block, ManagedBlockAction::Inserted),
        ),
{
    let b = startup_body(shell, startup_command(compact));
    let empty = Seq::<char>::empty();
    lemma_snippet_cleaned_away(shell, compact);
    lemma_markers();
    lemma_find_from_absent(empty, START_MARKER@, 0);
    assert(find_managed_spec(empty) == Ok::<Option<(int, int)>, ()>(None));
    assert(empty + block =~= block);
}

/// Each shell's startup file is the file that shell reads at start-up,
/// relative to the home directory: `.bashrc` for Bash, `.zshrc` for Zsh,
/// `.config/fish/config.fish` for Fish and the PowerShell profile under
/// `.config/powershell`; no two shells share a file.
pub proof fn lemma_startup_files_per_shell(a: SetupShell, b: SetupShell)
    ensures
        startup_file_spec(SetupShell::Bash) == ".bashrc"@,
        startup_file_spec(SetupShell::Zsh) == ".zshrc"@,
        startup_file_spec(SetupShell::Fish) == ".config/fish/config.fish"@,
        startup_file_spec(SetupShell::Powershell)
            == ".config/powershell/Microsoft.PowerShell_profile.ps1"@,
        a != b ==> startup_file_spec(a) != startup_file_spec(b),
{
    reveal_strlit(".bashrc");
    reveal_strlit(".zshrc");
    reveal_strlit(".config/fish/config.fish");
    reveal_strlit(".config/powershell/Microsoft.PowerShell_profile.ps1");
    let fa = startup_file_spec(a);
    let fb = startup_file_spec(b);
    if a != b {
        if fa.len() == fb.len() {
            assert(fa[1] != fb[1]);
        }
    }
}

} // verus!
