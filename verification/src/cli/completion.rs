//! Shell completion: the shells it serves, the file each reads, and where
//! the file is installed.
use vstd::prelude::*;
use crate::error::{MosaicError, fails_with};
use crate::paths::{join, join_path};

verus! {

/// A shell that completion scripts are written for.
#[derive(Debug, Clone, Copy, PartialEq, Eq, Structural)]
pub enum CompletionShellArg {
    Bash,
    Zsh,
    Fish,
    PowerShell,
    Elvish,
}

/// The name of a shell.
pub open spec fn shell_name(shell: CompletionShellArg) -> Seq<char> {
    match shell {
        CompletionShellArg::Bash => "bash"@,
        CompletionShellArg::Zsh => "zsh"@,
        CompletionShellArg::Fish => "fish"@,
        CompletionShellArg::PowerShell => "powershell"@,
        CompletionShellArg::Elvish => "elvish"@,
    }
}

/// The name of a shell.
pub fn completion_shell_name(shell: CompletionShellArg) -> (name: &'static str)
    ensures
        name@ == shell_name(shell),
{
    match shell {
        CompletionShellArg::Bash => "bash",
        CompletionShellArg::Zsh => "zsh",
        CompletionShellArg::Fish => "fish",
        CompletionShellArg::PowerShell => "powershell",
        CompletionShellArg::Elvish => "elvish",
    }
}

/// The file name a shell loads completions from.
pub open spec fn shell_file_name(shell: CompletionShellArg) -> Seq<char> {
    match shell {
        CompletionShellArg::Bash => "mosaic"@,
        CompletionShellArg::Zsh => "_mosaic"@,
        CompletionShellArg::Fish => "mosaic.fish"@,
        CompletionShellArg::PowerShell => "mosaic.ps1"@,
        CompletionShellArg::Elvish => "mosaic.elv"@,
    }
}

/// The file name a shell loads completions from.
pub fn completion_file_name(shell: CompletionShellArg) -> (name: &'static str)
    ensures
        name@ == shell_file_name(shell),
{
    match shell {
        CompletionShellArg::Bash => "mosaic",
        CompletionShellArg::Zsh => "_mosaic",
        CompletionShellArg::Fish => "mosaic.fish",
        CompletionShellArg::PowerShell => "mosaic.ps1",
        CompletionShellArg::Elvish => "mosaic.elv",
    }
}

/// The directory under the home directory where a shell finds completions.
pub open spec fn shell_dir(shell: CompletionShellArg) -> Seq<char> {
    match shell {
        CompletionShellArg::Bash => ".local/share/bash-completion/completions"@,
        CompletionShellArg::Zsh => ".zfunc"@,
        CompletionShellArg::Fish => ".config/fish/completions"@,
        CompletionShellArg::PowerShell => "Documents/PowerShell/Completions"@,
        CompletionShellArg::Elvish => ".config/elvish/lib"@,
    }
}

/// Where completions are installed without `--dir`: the shell's directory
/// under the home directory `home` (the value of `HOME`), which must be set.
pub fn default_install_dir(shell: CompletionShellArg, home: Option<&str>) -> (out: Result<
    String,
    MosaicError,
>)
    ensures
        match home {
            Some(h) => out matches Ok(p) && p@ == join_path(h@, shell_dir(shell)),
            None => out matches Err(MosaicError::Config(m)) && m@
                == "HOME is not set; pass --dir for completion install"@,
        },
{
    let home = match home {
        Some(h) => h,
        None => {
            return Err(MosaicError::Config(crate::text::owned(
                "HOME is not set; pass --dir for completion install",
            )));
        },
    };
    let sub = match shell {
        CompletionShellArg::Bash => ".local/share/bash-completion/completions",
        CompletionShellArg::Zsh => ".zfunc",
        CompletionShellArg::Fish => ".config/fish/completions",
        CompletionShellArg::PowerShell => "Documents/PowerShell/Completions",
        CompletionShellArg::Elvish => ".config/elvish/lib",
    };
    Ok(join(home, sub))
}

/// The file a completion install writes: `dir` (or the default directory)
/// joined with the shell's file name.  The default directory is worked out
/// first in every case, so an unset `HOME` is refused even with `--dir`.
pub fn completion_install_path(shell: CompletionShellArg, dir: Option<&str>, home: Option<&str>) -> (out:
    Result<String, MosaicError>)
    ensures
        match home {
            None => out matches Err(MosaicError::Config(m)) && m@
                == "HOME is not set; pass --dir for completion install"@,
            Some(h) => out matches Ok(p) && p@ == join_path(
                match dir {
                    Some(d) => d@,
                    None => join_path(h@, shell_dir(shell)),
                },
                shell_file_name(shell),
            ),
        },
{
    let fallback = default_install_dir(shell, home)?;
    let target = match dir {
        Some(d) => crate::text::owned(d),
        None => fallback,
    };
    Ok(join(target.as_str(), completion_file_name(shell)))
}

} // verus!
