//! What a shell runs to follow the accounts that are chosen for it and for its projects.
use vstd::prelude::*;

use super::accounts::CommandError;
use super::session::{quoted, shell_quote};
use crate::text::{join3, same, split, split_of};

verus! {

/// Which shell to write for.
pub struct InitArgs {
    pub shell: Option<String>,
}

/// What any shell runs, behind the place of the program.
pub const COMMON_SCRIPT: &'static str = r#"

_aswitch_bin() {
  "$ASWITCH_BIN" "$@"
}

_aswitch_has_flag() {
  local needle="$1"
  shift
  for arg in "$@"; do
    if [ "$arg" = "$needle" ]; then
      return 0
    fi
  done
  return 1
}

_aswitch_flag_value() {
  local needle="$1"
  shift
  local take_next=0
  for arg in "$@"; do
    if [ "$take_next" -eq 1 ]; then
      printf '%s\n' "$arg"
      return 0
    fi
    case "$arg" in
      "$needle")
        take_next=1
        ;;
      "$needle"=*)
        printf '%s\n' "${arg#*=}"
        return 0
        ;;
    esac
  done
  return 1
}

_aswitch_scope() {
  local scope
  scope="$(_aswitch_flag_value --scope "$@")" || true
  if [ -n "$scope" ]; then
    printf '%s\n' "$scope"
  else
    printf 'shell\n'
  fi
}

_aswitch_sync_project() {
  local output
  output="$("$ASWITCH_BIN" __shell sync-project)" || return $?
  if [ -n "$output" ]; then
    eval "$output"
  fi
}

aswitch() {
  if [ "$#" -eq 0 ]; then
    "$ASWITCH_BIN"
    return $?
  fi

    case "$1" in
    use)
      shift
      local scope
      scope="$(_aswitch_scope "$@")"
      case "$scope" in
      global)
        "$ASWITCH_BIN" use "$@"
        return $?
        ;;
      project)
        "$ASWITCH_BIN" use "$@"
        local status=$?
        if [ $status -eq 0 ]; then
          _aswitch_sync_project || return $?
        fi
        return $status
        ;;
      shell|"")
        local output
        output="$("$ASWITCH_BIN" __shell use "$@")" || return $?
        if [ -n "$output" ]; then
          eval "$output"
        fi
        if _aswitch_has_flag --off "$@"; then
          _aswitch_sync_project || return $?
        fi
        return 0
        ;;
      *)
        "$ASWITCH_BIN" use "$@"
        return $?
        ;;
      esac
      ;;
    *)
      "$ASWITCH_BIN" "$@"
      return $?
      ;;
  esac
}

"#;

pub const ZSH_HOOK: &'static str = r#"typeset -ga chpwd_functions
if [[ -z "${chpwd_functions[(r)_aswitch_sync_project]}" ]]; then
  chpwd_functions+=(_aswitch_sync_project)
fi
_aswitch_sync_project
"#;

pub const BASH_HOOK: &'static str = r#"case ";${PROMPT_COMMAND:-};" in
  *";_aswitch_sync_project;"*) ;;
  *) PROMPT_COMMAND="_aswitch_sync_project${PROMPT_COMMAND:+;$PROMPT_COMMAND}" ;;
esac
_aswitch_sync_project
"#;

pub open spec fn no_shell_text() -> Seq<char> {
    "failed to detect shell; pass `aswitch init zsh` or `aswitch init bash`"@
}

/// The name of a shell: the one that is asked for, or else the last part of the path of the one in
/// use.
pub open spec fn shell_name(explicit: Option<Seq<char>>, in_use: Option<Seq<char>>) -> Option<
    Seq<char>,
> {
    match explicit {
        Some(shell) => Some(shell),
        None => match in_use {
            Some(path) => {
                let name = split_of(path, '/').last();
                if name.len() == 0 {
                    None
                } else {
                    Some(name)
                }
            },
            None => None,
        },
    }
}

/// The name of a shell: the one that is asked for, or else the one in use.
pub fn detect_shell(explicit: &Option<String>, in_use: &Option<String>) -> (r: Result<
    String,
    CommandError,
>)
    ensures
        match shell_name(explicit.deep_view(), in_use.deep_view()) {
            Some(name) => r matches Ok(shell) && shell@ == name,
            None => r matches Err(e) && e.message@ == no_shell_text(),
        },
{
    match explicit {
        Some(shell) => Ok(shell.clone()),
        None => {
            match in_use {
                Some(path) => {
                    let parts = split(path.as_str(), '/');
                    if parts.len() > 0 {
                        let last = parts.len() - 1;
                        assert(parts.deep_view().last() == parts@[last as int]@);
                        if !parts[last].as_str().is_empty() {
                            return Ok(parts[last].clone());
                        }
                    }
                },
                None => {},
            }
            Err(
                CommandError {
                    message:
                        "failed to detect shell; pass `aswitch init zsh` or `aswitch init bash`".to_owned(),
                },
            )
        },
    }
}

/// What any shell runs.
pub open spec fn common_script(binary: Seq<char>) -> Seq<char> {
    "export ASWITCH_BIN="@ + quoted(binary) + COMMON_SCRIPT@
}

/// What a shell runs, or why nothing is written for it. `binary` is the place of the program.
pub open spec fn script_for(
    explicit: Option<Seq<char>>,
    in_use: Option<Seq<char>>,
    binary: Seq<char>,
) -> Result<Seq<char>, Seq<char>> {
    match shell_name(explicit, in_use) {
        None => Err(no_shell_text()),
        Some(shell) => if shell == "zsh"@ {
            Ok(common_script(binary) + "\n"@ + ZSH_HOOK@)
        } else if shell == "bash"@ {
            Ok(common_script(binary) + "\n"@ + BASH_HOOK@)
        } else {
            Err("unsupported shell: "@ + shell + "; expected zsh or bash"@)
        },
    }
}

/// What a shell runs to follow the accounts.
pub fn run(args: &InitArgs, in_use: &Option<String>, binary: &str) -> (r: Result<
    String,
    CommandError,
>)
    ensures
        match r {
            Ok(script) => script_for(args.shell.deep_view(), in_use.deep_view(), binary@) == Ok::<
                Seq<char>,
                Seq<char>,
            >(script@),
            Err(e) => script_for(args.shell.deep_view(), in_use.deep_view(), binary@) == Err::<
                Seq<char>,
                Seq<char>,
            >(e.message@),
        },
{
    let shell = match detect_shell(&args.shell, in_use) {
        Ok(shell) => shell,
        Err(e) => {
            return Err(e);
        },
    };
    let hook: &str = if same(shell.as_str(), "zsh") {
        ZSH_HOOK
    } else if same(shell.as_str(), "bash") {
        BASH_HOOK
    } else {
        return Err(
            CommandError {
                message: join3("unsupported shell: ", shell.as_str(), "; expected zsh or bash"),
            },
        );
    };
    let common = join3("export ASWITCH_BIN=", shell_quote(binary).as_str(), COMMON_SCRIPT);
    Ok(join3(common.as_str(), "\n", hook))
}

} // verus!
