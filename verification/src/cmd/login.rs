//! Logging in with the program of a plugin, and saving the account.
use vstd::prelude::*;

use super::accounts::CommandError;
use crate::path::{expand_user_path_from, user_path};
use crate::plugin::{LoginConfig, Manifest, ReadyMarkerKind};
use crate::store::{
    ResolvedCredentialStore, StoreResolveError, outcome, resolve_active_store, store_for,
};
use crate::text::{decimal, decimal_of, join2, join3, same, split_once, split_once_of};

verus! {

/// What to log in to, and what to save the account as.
pub struct LoginArgs {
    pub target: Option<String>,
    pub alias: Option<String>,
    pub force: bool,
    pub json: bool,
}

fn refuse(message: &str) -> (r: CommandError)
    ensures
        r.message@ == message@,
{
    CommandError { message: message.to_owned() }
}

/// The plugin that a target names, and the alias where it names one; or why it names none.
pub open spec fn login_target(value: Option<Seq<char>>) -> Result<
    Option<(Seq<char>, Option<Seq<char>>)>,
    Seq<char>,
> {
    match value {
        None => Ok(None),
        Some(v) => match split_once_of(v, "/"@) {
            Some((plugin_id, alias)) => if plugin_id.len() == 0 || alias.len() == 0 {
                Err("TARGET must be <plugin> or <plugin>/<alias>"@)
            } else {
                Ok(Some((plugin_id, Some(alias))))
            },
            None => if v.len() == 0 {
                Err("TARGET must not be empty"@)
            } else {
                Ok(Some((v, None)))
            },
        },
    }
}

pub open spec fn target_view(r: Result<Option<(String, Option<String>)>, CommandError>) -> Result<
    Option<(Seq<char>, Option<Seq<char>>)>,
    Seq<char>,
> {
    match r {
        Ok(None) => Ok(None),
        Ok(Some((plugin_id, alias))) => Ok(Some((plugin_id@, alias.deep_view()))),
        Err(e) => Err(e.message@),
    }
}

/// The plugin that a target names, and the alias where it names one.
pub fn parse_login_target(value: Option<&str>) -> (r: Result<
    Option<(String, Option<String>)>,
    CommandError,
>)
    ensures
        target_view(r) == login_target(value.deep_view()),
{
    match value {
        None => Ok(None),
        Some(v) => match split_once(v, "/") {
            Some((plugin_id, alias)) => if plugin_id.as_str().is_empty()
                || alias.as_str().is_empty() {
                Err(refuse("TARGET must be <plugin> or <plugin>/<alias>"))
            } else {
                Ok(Some((plugin_id, Some(alias))))
            },
            None => if v.is_empty() {
                Err(refuse("TARGET must not be empty"))
            } else {
                Ok(Some((v.to_owned(), None)))
            },
        },
    }
}

/// The alias: that of the target, or else that of the flag; they must not differ.
pub open spec fn merged_alias(target: Option<Seq<char>>, flag: Option<Seq<char>>) -> Result<
    Option<Seq<char>>,
    Seq<char>,
> {
    match (target, flag) {
        (Some(t), Some(f)) => if t != f {
            Err("Conflicting aliases: TARGET and --as do not match"@)
        } else {
            Ok(target)
        },
        (Some(_), None) => Ok(target),
        (None, _) => Ok(flag),
    }
}

/// The alias: that of the target, or else that of the flag.
pub fn merge_login_alias(alias_from_target: Option<String>, alias_flag: Option<&str>) -> (r: Result<
    Option<String>,
    CommandError,
>)
    ensures
        match r {
            Ok(alias) => merged_alias(alias_from_target.deep_view(), alias_flag.deep_view()) == Ok::<
                Option<Seq<char>>,
                Seq<char>,
            >(alias.deep_view()),
            Err(e) => merged_alias(alias_from_target.deep_view(), alias_flag.deep_view()) == Err::<
                Option<Seq<char>>,
                Seq<char>,
            >(e.message@),
        },
{
    match alias_from_target {
        Some(target) => match alias_flag {
            Some(flag) => if !same(target.as_str(), flag) {
                Err(refuse("Conflicting aliases: TARGET and --as do not match"))
            } else {
                Ok(Some(target))
            },
            None => Ok(Some(target)),
        },
        None => match alias_flag {
            Some(flag) => Ok(Some(flag.to_owned())),
            None => Ok(None),
        },
    }
}

/// What to log in to and what to save the account as, as far as it is known; what is not is asked for.
pub struct LoginPlan {
    pub plugin_id: Option<String>,
    pub alias: Option<String>,
}

pub struct LoginPlanView {
    pub plugin_id: Option<Seq<char>>,
    pub alias: Option<Seq<char>>,
}

impl DeepView for LoginPlan {
    type V = LoginPlanView;

    open spec fn deep_view(&self) -> LoginPlanView {
        LoginPlanView { plugin_id: self.plugin_id.deep_view(), alias: self.alias.deep_view() }
    }
}

/// What to log in to and what to save the account as, or why that cannot be done.
pub open spec fn login_plan(target: Option<Seq<char>>, flag: Option<Seq<char>>, json: bool) -> Result<
    LoginPlanView,
    Seq<char>,
> {
    match login_target(target) {
        Err(e) => Err(e),
        Ok(named) => {
            let plugin_id = match named {
                Some((p, _)) => Some(p),
                None => None,
            };
            let from_target = match named {
                Some((_, a)) => a,
                None => None,
            };
            if plugin_id is None && json {
                Err(
                    "Interactive login does not support --json; pass <plugin> or <plugin>/<alias>"@,
                )
            } else {
                match merged_alias(from_target, flag) {
                    Err(e) => Err(e),
                    Ok(alias) => if json && alias is None {
                        Err(
                            "--json requires an explicit alias; use <plugin>/<alias> or --as <alias>"@,
                        )
                    } else {
                        Ok(LoginPlanView { plugin_id, alias })
                    },
                }
            }
        },
    }
}

/// What to log in to and what to save the account as.
pub fn resolve_login_target(args: &LoginArgs) -> (r: Result<LoginPlan, CommandError>)
    ensures
        match r {
            Ok(plan) => login_plan(args.target.deep_view(), args.alias.deep_view(), args.json)
                == Ok::<LoginPlanView, Seq<char>>(plan.deep_view()),
            Err(e) => login_plan(args.target.deep_view(), args.alias.deep_view(), args.json)
                == Err::<LoginPlanView, Seq<char>>(e.message@),
        },
{
    let target: Option<&str> = match &args.target {
        Some(t) => Some(t.as_str()),
        None => None,
    };
    let (plugin_id, from_target): (Option<String>, Option<String>) = match parse_login_target(
        target,
    ) {
        Ok(Some((plugin_id, alias))) => (Some(plugin_id), alias),
        Ok(None) => (None, None),
        Err(e) => {
            return Err(e);
        },
    };
    if plugin_id.is_none() && args.json {
        return Err(
            refuse("Interactive login does not support --json; pass <plugin> or <plugin>/<alias>"),
        );
    }
    let flag: Option<&str> = match &args.alias {
        Some(a) => Some(a.as_str()),
        None => None,
    };
    let alias = match merge_login_alias(from_target, flag) {
        Ok(alias) => alias,
        Err(e) => {
            return Err(e);
        },
    };
    if args.json && alias.is_none() {
        return Err(
            refuse("--json requires an explicit alias; use <plugin>/<alias> or --as <alias>"),
        );
    }
    Ok(LoginPlan { plugin_id, alias })
}

// ---------------------------------------------------------------------------------------------
// The login itself
// ---------------------------------------------------------------------------------------------
/// The program that logs in, and its arguments.
pub fn login_command(login: &LoginConfig) -> (r: Result<(String, Vec<String>), CommandError>)
    ensures
        match r {
            Ok((program, args)) => login.cmd@.len() > 0 && program@ == login.cmd@[0]@
                && args.deep_view() == login.cmd.deep_view().drop_first(),
            Err(e) => login.cmd@.len() == 0 && e.message@ == "login.cmd must not be empty"@,
        },
{
    if login.cmd.len() == 0 {
        return Err(refuse("login.cmd must not be empty"));
    }
    let ghost all = login.cmd.deep_view();
    let mut args: Vec<String> = Vec::new();
    let mut i: usize = 1;
    assert(args.deep_view() == all.subrange(1, 1));
    while i < login.cmd.len()
        invariant
            1 <= i <= login.cmd@.len(),
            all == login.cmd.deep_view(),
            args.deep_view() == all.subrange(1, i as int),
        decreases login.cmd@.len() - i,
    {
        let ghost before = args.deep_view();
        args.push(login.cmd[i].clone());
        assert(args.deep_view() == before.push(all[i as int]));
        assert(all.subrange(1, i + 1) == all.subrange(1, i as int).push(all[i as int]));
        i = i + 1;
    }
    assert(all.drop_first() == all.subrange(1, all.len() as int));
    Ok((login.cmd[0].clone(), args))
}

/// What shows that a login is done: a file, or something in a store.
pub enum ReadyMarker {
    File(String),
    Store(ResolvedCredentialStore),
}

/// Why what shows that a login is done cannot be looked for.
pub enum ReadyMarkerError {
    NoPath,
    NoHome,
    Store(StoreResolveError),
}

/// What shows that a login is done.
pub fn ready_marker(manifest: &Manifest, os: &str, home_dir: Option<String>) -> (r: Result<
    ReadyMarker,
    ReadyMarkerError,
>)
    ensures
        match manifest.login.ready_marker_kind {
            ReadyMarkerKind::File => match (manifest.login.ready_marker_path, home_dir) {
                (None, _) => r matches Err(ReadyMarkerError::NoPath),
                (Some(_), None) => r matches Err(ReadyMarkerError::NoHome),
                (Some(path), Some(home)) => r matches Ok(ReadyMarker::File(p)) && p@ == user_path(
                    path@,
                    home@,
                ),
            },
            ReadyMarkerKind::Keychain => match r {
                Ok(ReadyMarker::Store(s)) => outcome(
                    Ok::<ResolvedCredentialStore, StoreResolveError>(s),
                ) == store_for(manifest.credential_store, os@, home_dir.deep_view()),
                Err(ReadyMarkerError::Store(e)) => outcome(
                    Err::<ResolvedCredentialStore, StoreResolveError>(e),
                ) == store_for(manifest.credential_store, os@, home_dir.deep_view()),
                _ => false,
            },
        },
{
    match manifest.login.ready_marker_kind {
        ReadyMarkerKind::File => match &manifest.login.ready_marker_path {
            None => Err(ReadyMarkerError::NoPath),
            Some(path) => match home_dir {
                None => Err(ReadyMarkerError::NoHome),
                Some(home) => Ok(
                    ReadyMarker::File(expand_user_path_from(path.as_str(), home.as_str())),
                ),
            },
        },
        ReadyMarkerKind::Keychain => match resolve_active_store(
            &manifest.credential_store,
            os,
            home_dir,
        ) {
            Ok(store) => Ok(ReadyMarker::Store(store)),
            Err(e) => Err(ReadyMarkerError::Store(e)),
        },
    }
}

/// Whether what shows that a login is done is there: the file is, or the store has something or may be
/// empty.
pub fn ready_marker_is_present(marker: &ReadyMarker, found: bool) -> (r: bool)
    ensures
        r == (found || (marker matches ReadyMarker::Store(s) && s.may_be_empty())),
{
    match marker {
        ReadyMarker::File(_) => found,
        ReadyMarker::Store(store) => found || store.allows_missing_active(),
    }
}

/// What to do while a login runs.
#[derive(Clone, Copy, Debug, PartialEq, Eq, Structural)]
pub enum LoginStep {
    AwaitExit,
    Failed,
    NoMarker,
    TimedOut,
    Sleep,
}

/// What to do while a login runs.
pub open spec fn step_for(ready: bool, exited: Option<bool>, past_deadline: bool) -> LoginStep {
    if ready {
        LoginStep::AwaitExit
    } else if exited == Some(false) {
        LoginStep::Failed
    } else if exited == Some(true) && past_deadline {
        LoginStep::NoMarker
    } else if past_deadline {
        LoginStep::TimedOut
    } else {
        LoginStep::Sleep
    }
}

/// What to do while a login runs. `exited` is whether the program succeeded, once it has come to an
/// end.
pub fn login_step(ready: bool, exited: Option<bool>, past_deadline: bool) -> (r: LoginStep)
    ensures
        r == step_for(ready, exited, past_deadline),
{
    if ready {
        return LoginStep::AwaitExit;
    }
    match exited {
        Some(success) => if !success {
            return LoginStep::Failed;
        } else if past_deadline {
            return LoginStep::NoMarker;
        },
        None => {},
    }
    if past_deadline {
        LoginStep::TimedOut
    } else {
        LoginStep::Sleep
    }
}

/// Why a login did not come to a good end. `status` is how its program ended, in words.
pub open spec fn login_problem(
    step: LoginStep,
    plugin_id: Seq<char>,
    timeout_s: nat,
    status: Seq<char>,
) -> Option<Seq<char>> {
    match step {
        LoginStep::Failed => Some(
            "login command for "@ + plugin_id + " exited with status "@ + status,
        ),
        LoginStep::NoMarker => Some(
            "login completed but ready marker did not appear before timeout"@,
        ),
        LoginStep::TimedOut => Some(
            "timed out after "@ + decimal_of(timeout_s) + "s waiting for login marker for "@
                + plugin_id,
        ),
        _ => None,
    }
}

/// Why a login did not come to a good end.
pub fn login_failure(step: LoginStep, plugin_id: &str, timeout_s: u64, status: &str) -> (r: Option<
    String,
>)
    ensures
        r.deep_view() == login_problem(step, plugin_id@, timeout_s as nat, status@),
{
    match step {
        LoginStep::Failed => Some(
            join3(join2("login command for ", plugin_id).as_str(), " exited with status ", status),
        ),
        LoginStep::NoMarker => Some(
            "login completed but ready marker did not appear before timeout".to_owned(),
        ),
        LoginStep::TimedOut => Some(
            join3(
                join2("timed out after ", decimal(timeout_s).as_str()).as_str(),
                "s waiting for login marker for ",
                plugin_id,
            ),
        ),
        _ => None,
    }
}

/// A login ends at the deadline at the latest, well or badly.
pub proof fn a_login_ends_at_the_deadline(ready: bool, exited: Option<bool>)
    ensures
        step_for(ready, exited, true) != LoginStep::Sleep,
{
}

} // verus!
