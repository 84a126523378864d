//! Shell integration: the per-shell wrapper scripts and where they live.

use vstd::prelude::*;

use crate::paths::join_path;
use crate::paths::joined;
use crate::paths::path_exists;

verus! {

/// The shells an integration script exists for.
#[derive(Clone, Copy, Debug)]
pub enum Shell {
    Fish,
    Zsh,
    Bash,
    PowerShell,
    NuShell,
}

pub const FISH_SCRIPT: &'static str = r#"function try-rs
    # Pass flags/options directly to stdout without capturing
    for arg in $argv
        if string match -q -- '-*' $arg
            command try-rs $argv
            return
        end
    end

    # Captures the output of the binary (stdout) which is the "cd" command
    # The TUI is rendered on stderr, so it doesn't interfere.
    set command (command try-rs $argv | string collect)

    if test -n "$command"
        eval $command
    end
end
"#;

pub const ZSH_SCRIPT: &'static str = r#"try-rs() {
    # Pass flags/options directly to stdout without capturing
    for arg in "$@"; do
        case "$arg" in
            -*) command try-rs "$@"; return ;;
        esac
    done

    # Captures the output of the binary (stdout) which is the "cd" command
    # The TUI is rendered on stderr, so it doesn't interfere.
    local output
    output=$(command try-rs "$@")

    if [ -n "$output" ]; then
        eval "$output"
    fi
}
"#;

pub const BASH_SCRIPT: &'static str = r#"try-rs() {
    # Pass flags/options directly to stdout without capturing
    for arg in "$@"; do
        case "$arg" in
            -*) command try-rs "$@"; return ;;
        esac
    done

    # Captures the output of the binary (stdout) which is the "cd" command
    # The TUI is rendered on stderr, so it doesn't interfere.
    local output
    output=$(command try-rs "$@")

    if [ -n "$output" ]; then
        eval "$output"
    fi
}
"#;

pub const POWERSHELL_SCRIPT: &'static str = r#"# try-rs integration for PowerShell
function try-rs {
    # Pass flags/options directly to stdout without capturing
    foreach ($a in $args) {
        if ($a -like '-*') {
            & try-rs.exe @args
            return
        }
    }

    # Captures the output of the binary (stdout) which is the "cd" or editor command
    # The TUI is rendered on stderr, so it doesn't interfere.
    $command = (try-rs.exe @args)

    if ($command) {
        Invoke-Expression $command
    }
}
"#;

pub const NUSHELL_SCRIPT: &'static str = r#"def --wrapped try-rs [...args] {
    # Pass flags/options directly to stdout without capturing
    for arg in $args {
        if ($arg | str starts-with '-') {
            ^try-rs.exe ...$args
            return
        }
    }

    # Capture output. Stderr (TUI) goes directly to terminal.
    let output = (try-rs.exe ...$args)

    if ($output | is-not-empty) {

        # Grabs the path out of stdout returned by the binary and removes the single quotes
        let $path = ($output | split row ' ').1 | str replace --all "'" ''
        cd $path
    }
}
"#;

/// The integration script text for each shell.
pub open spec fn shell_script(shell: Shell) -> Seq<char> {
    match shell {
        Shell::Fish => FISH_SCRIPT@,
        Shell::Zsh => ZSH_SCRIPT@,
        Shell::Bash => BASH_SCRIPT@,
        Shell::PowerShell => POWERSHELL_SCRIPT@,
        Shell::NuShell => NUSHELL_SCRIPT@,
    }
}

/// The shell integration script content for the given shell type.
pub fn get_shell_content(shell: &Shell) -> (r: &'static str)
    ensures
        r@ == shell_script(*shell),
{
    match shell {
        Shell::Fish => FISH_SCRIPT,
        Shell::Zsh => ZSH_SCRIPT,
        Shell::Bash => BASH_SCRIPT,
        Shell::PowerShell => POWERSHELL_SCRIPT,
        Shell::NuShell => NUSHELL_SCRIPT,
    }
}

/// Where each shell's integration script is written: fish keeps its
/// functions under the base configuration directory, every other shell
/// uses this tool's own configuration directory.
pub open spec fn integration_path(
    shell: Shell,
    base_config_dir: Seq<char>,
    config_dir: Seq<char>,
) -> Seq<char> {
    match shell {
        Shell::Fish => joined(
            joined(joined(base_config_dir, "fish"@), "functions"@),
            "try-rs.fish"@,
        ),
        Shell::Zsh => joined(config_dir, "try-rs.zsh"@),
        Shell::Bash => joined(config_dir, "try-rs.bash"@),
        Shell::PowerShell => joined(config_dir, "try-rs.ps1"@),
        Shell::NuShell => joined(config_dir, "try-rs.nu"@),
    }
}

/// The path of the integration script for `shell`, under the given
/// configuration directories.
pub fn get_shell_integration_path(
    shell: &Shell,
    base_config_dir: &str,
    config_dir: &str,
) -> (r: String)
    ensures
        r@ == integration_path(*shell, base_config_dir@, config_dir@),
{
    match shell {
        Shell::Fish => {
            let a = join_path(base_config_dir, "fish");
            let b = join_path(a.as_str(), "functions");
            join_path(b.as_str(), "try-rs.fish")
        },
        Shell::Zsh => join_path(config_dir, "try-rs.zsh"),
        Shell::Bash => join_path(config_dir, "try-rs.bash"),
        Shell::PowerShell => join_path(config_dir, "try-rs.ps1"),
        Shell::NuShell => join_path(config_dir, "try-rs.nu"),
    }
}

/// Whether the integration script for `shell` already exists on disk,
/// under the given configuration directories.
pub fn is_shell_integration_configured(
    shell: &Shell,
    base_config_dir: &str,
    config_dir: &str,
) -> bool {
    let path = get_shell_integration_path(shell, base_config_dir, config_dir);
    path_exists(path.as_str())
}

} // verus!
