//! The accounts that a project binds, in a file in its directory.
use vstd::prelude::*;

use super::accounts::CommandError;
use crate::path::{a_parent_is_a_shorter_beginning, above, join_path, joined, parent};
use crate::text::{copy_opt, is_in, join, join2, join3, same};
use crate::text_map::{TextMap, sorted_items};

verus! {

pub const PROJECT_FILE_NAME: &'static str = ".aswitch.toml";

/// The version of the file.
pub const PROJECT_VERSION: u32 = 1;

/// What is done with the accounts that a project binds.
pub enum ProjectCommand {
    Use(ProjectUseArgs),
    Clear(ProjectClearArgs),
    Show(ProjectShowArgs),
}

pub struct ProjectUseArgs {
    pub selector: Option<String>,
    pub plugin: Option<String>,
    pub json: bool,
}

pub struct ProjectClearArgs {
    pub plugin: Option<String>,
    pub json: bool,
}

pub struct ProjectShowArgs {
    pub json: bool,
}

/// What the file of a project holds: its version, and the alias of each plugin.
pub struct ProjectConfig {
    pub version: u32,
    pub accounts: TextMap<String>,
}

pub struct ConfigView {
    pub version: u32,
    pub accounts: Map<Seq<char>, Seq<char>>,
}

impl DeepView for ProjectConfig {
    type V = ConfigView;

    open spec fn deep_view(&self) -> ConfigView {
        ConfigView { version: self.version, accounts: self.accounts.deep_view() }
    }
}

/// The accounts that a project binds, and the file that says so.
pub struct ProjectBinding {
    pub path: String,
    pub accounts: TextMap<String>,
}

pub struct BindingView {
    pub path: Seq<char>,
    pub accounts: Map<Seq<char>, Seq<char>>,
}

impl DeepView for ProjectBinding {
    type V = BindingView;

    open spec fn deep_view(&self) -> BindingView {
        BindingView { path: self.path@, accounts: self.accounts.deep_view() }
    }
}

// ---------------------------------------------------------------------------------------------
// The file
// ---------------------------------------------------------------------------------------------
/// The files that may bind the accounts of a directory, the nearest first.
pub open spec fn candidates(start_dir: Seq<char>) -> Seq<Seq<char>> {
    (seq![start_dir] + above(start_dir)).map_values(
        |dir: Seq<char>| joined(dir, PROJECT_FILE_NAME@),
    )
}

/// The files that may bind the accounts of a directory, the nearest first.
pub fn project_candidates(start_dir: &str) -> (r: Vec<String>)
    ensures
        r.deep_view() == candidates(start_dir@),
{
    let mut files: Vec<String> = Vec::new();
    files.push(join_path(start_dir, PROJECT_FILE_NAME));
    let mut dir: String = start_dir.to_owned();
    let ghost to_file = |dir: Seq<char>| joined(dir, PROJECT_FILE_NAME@);
    let ghost whole = candidates(start_dir@);
    assert(files.deep_view() == seq![joined(start_dir@, PROJECT_FILE_NAME@)]);
    assert(whole == files.deep_view() + above(dir@).map_values(to_file));
    loop
        invariant_except_break
            to_file == (|dir: Seq<char>| joined(dir, PROJECT_FILE_NAME@)),
            whole == files.deep_view() + above(dir@).map_values(to_file),
        ensures
            whole == files.deep_view(),
        decreases dir@.len(),
    {
        match parent(dir.as_str()) {
            None => {
                assert(above(dir@).map_values(to_file) == Seq::<Seq<char>>::empty());
                break;
            },
            Some(next) => {
                let ghost before = dir@;
                let ghost files_before = files.deep_view();
                proof {
                    a_parent_is_a_shorter_beginning(before);
                }
                files.push(join_path(next.as_str(), PROJECT_FILE_NAME));
                let ghost file = joined(next@, PROJECT_FILE_NAME@);
                assert(files.deep_view() == files_before.push(file));
                assert(above(before).map_values(to_file) == seq![file] + above(next@).map_values(
                    to_file,
                ));
                dir = next;
            },
        }
    }
    files
}

/// The first of some files that is there.
pub open spec fn first_present(files: Seq<Seq<char>>, present: Seq<Seq<char>>) -> Option<Seq<char>>
    decreases files.len(),
{
    if files.len() == 0 {
        None
    } else if present.contains(files[0]) {
        Some(files[0])
    } else {
        first_present(files.drop_first(), present)
    }
}

/// The file that binds the accounts of a directory: the nearest of those that are there.
pub fn find_project_file(start_dir: &str, present: &Vec<String>) -> (r: Option<String>)
    ensures
        r.deep_view() == first_present(candidates(start_dir@), present.deep_view()),
{
    let files = project_candidates(start_dir);
    let ghost all = files.deep_view();
    let mut i: usize = 0;
    assert(all.subrange(0, all.len() as int) == all);
    while i < files.len()
        invariant
            i <= files@.len(),
            all == files.deep_view(),
            all == candidates(start_dir@),
            first_present(all, present.deep_view()) == first_present(
                all.subrange(i as int, all.len() as int),
                present.deep_view(),
            ),
        decreases files@.len() - i,
    {
        let ghost rest = all.subrange(i as int, all.len() as int);
        assert(rest[0] == files@[i as int]@);
        assert(rest.drop_first() == all.subrange(i + 1, all.len() as int));
        if is_in(present, files[i].as_str()) {
            return Some(files[i].clone());
        }
        i = i + 1;
    }
    None
}

/// The file that is written: the one that binds the accounts of the directory, or else a new one in
/// the directory itself.
pub fn project_file_for_write(cwd: &str, found: &Option<String>) -> (r: String)
    ensures
        r@ == match found.deep_view() {
            Some(path) => path,
            None => joined(cwd@, PROJECT_FILE_NAME@),
        },
{
    match found {
        Some(path) => path.clone(),
        None => join_path(cwd, PROJECT_FILE_NAME),
    }
}

/// What a file holds, where it names no version.
pub fn with_version(config: ProjectConfig) -> (r: ProjectConfig)
    ensures
        r.deep_view() == (ConfigView {
            version: if config.version == 0 {
                PROJECT_VERSION
            } else {
                config.version
            },
            accounts: config.accounts.deep_view(),
        }),
{
    ProjectConfig {
        version: if config.version == 0 {
            PROJECT_VERSION
        } else {
            config.version
        },
        accounts: config.accounts,
    }
}

// ---------------------------------------------------------------------------------------------
// Binding an account
// ---------------------------------------------------------------------------------------------
/// What the file holds once an account is bound.
pub open spec fn bound(config: Option<ConfigView>, plugin_id: Seq<char>, alias: Seq<char>) -> ConfigView {
    let before = match config {
        Some(c) => c.accounts,
        None => Map::empty(),
    };
    ConfigView { version: PROJECT_VERSION, accounts: before.insert(plugin_id, alias) }
}

/// What the file holds once an account is bound; `config` is what it held, if there was one.
pub fn bind_account(config: Option<ProjectConfig>, plugin_id: &str, alias: &str) -> (r: ProjectConfig)
    ensures
        r.deep_view() == bound(config.deep_view(), plugin_id@, alias@),
{
    let mut accounts: TextMap<String> = match config {
        Some(c) => c.accounts,
        None => TextMap::new(),
    };
    accounts.insert(plugin_id.to_owned(), alias.to_owned());
    ProjectConfig { version: PROJECT_VERSION, accounts }
}

/// What is done with the file when accounts are no longer bound: it goes, or it holds the rest.
pub enum ClearStep {
    RemoveFile,
    Write(ProjectConfig),
}

pub enum ClearView {
    RemoveFile,
    Write(ConfigView),
}

impl DeepView for ClearStep {
    type V = ClearView;

    open spec fn deep_view(&self) -> ClearView {
        match *self {
            ClearStep::RemoveFile => ClearView::RemoveFile,
            ClearStep::Write(config) => ClearView::Write(config.deep_view()),
        }
    }
}

/// The file that accounts are no longer bound in, and what is done with it.
pub struct ClearPlan {
    pub path: String,
    pub step: ClearStep,
}

pub struct ClearPlanView {
    pub path: Seq<char>,
    pub step: ClearView,
}

impl DeepView for ClearPlan {
    type V = ClearPlanView;

    open spec fn deep_view(&self) -> ClearPlanView {
        ClearPlanView { path: self.path@, step: self.step.deep_view() }
    }
}

/// What is done with the file when the account of a plugin, or all, are no longer bound; or why that
/// cannot be done.
pub open spec fn cleared(path: Seq<char>, config: ConfigView, plugin: Option<Seq<char>>) -> Result<
    ClearView,
    Seq<char>,
> {
    match plugin {
        None => Ok(ClearView::RemoveFile),
        Some(p) => if !config.accounts.contains_key(p) {
            Err("Plugin "@ + p + " is not bound in "@ + path)
        } else if config.accounts.remove(p) == Map::<Seq<char>, Seq<char>>::empty() {
            Ok(ClearView::RemoveFile)
        } else {
            Ok(
                ClearView::Write(
                    ConfigView { version: config.version, accounts: config.accounts.remove(p) },
                ),
            )
        },
    }
}

pub open spec fn clear_view(r: Result<ClearStep, CommandError>) -> Result<ClearView, Seq<char>> {
    match r {
        Ok(step) => Ok(step.deep_view()),
        Err(e) => Err(e.message@),
    }
}

fn clear_file(path: &str, config: ProjectConfig, plugin: &Option<String>) -> (r: Result<
    ClearStep,
    CommandError,
>)
    ensures
        clear_view(r) == cleared(path@, config.deep_view(), plugin.deep_view()),
{
    let ghost view = config.deep_view();
    match plugin {
        None => Ok(ClearStep::RemoveFile),
        Some(p) => {
            let version: u32 = config.version;
            let mut accounts = config.accounts;
            match accounts.remove(p.as_str()) {
                None => Err(
                    CommandError {
                        message: join3(
                            join2("Plugin ", p.as_str()).as_str(),
                            " is not bound in ",
                            path,
                        ),
                    },
                ),
                Some(_) => if accounts.is_empty() {
                    Ok(ClearStep::RemoveFile)
                } else {
                    Ok(ClearStep::Write(ProjectConfig { version, accounts }))
                },
            }
        },
    }
}

/// What is done when the account of a plugin, or all, are no longer bound; `found` is the file that
/// binds them and what it holds. There has to be one.
pub open spec fn clear_outcome(
    found: Option<(Seq<char>, ConfigView)>,
    plugin: Option<Seq<char>>,
) -> Result<ClearPlanView, Seq<char>> {
    match found {
        None => Err("No project binding was found in the current directory tree"@),
        Some((path, config)) => match cleared(path, config, plugin) {
            Ok(step) => Ok(ClearPlanView { path, step }),
            Err(message) => Err(message),
        },
    }
}

/// What is done when the account of a plugin, or all, are no longer bound; `found` is the file that
/// binds them and what it holds.
pub fn clear_project(found: Option<(String, ProjectConfig)>, plugin: &Option<String>) -> (r: Result<
    ClearPlan,
    CommandError,
>)
    ensures
        ({
            let outcome = clear_outcome(
                match found {
                    Some((path, config)) => Some((path@, config.deep_view())),
                    None => None,
                },
                plugin.deep_view(),
            );
            match r {
                Ok(plan) => outcome == Ok::<ClearPlanView, Seq<char>>(plan.deep_view()),
                Err(e) => outcome == Err::<ClearPlanView, Seq<char>>(e.message@),
            }
        }),
{
    match found {
        None => Err(
            CommandError {
                message: "No project binding was found in the current directory tree".to_owned(),
            },
        ),
        Some((path, config)) => match clear_file(path.as_str(), config, plugin) {
            Ok(step) => Ok(ClearPlan { path, step }),
            Err(e) => Err(e),
        },
    }
}

/// The files of projects, and what they hold, after an attempt to let go of accounts.
pub open spec fn after_clearing(
    files: Map<Seq<char>, ConfigView>,
    outcome: Result<ClearPlanView, Seq<char>>,
) -> Map<Seq<char>, ConfigView> {
    match outcome {
        Ok(plan) => match plan.step {
            ClearView::RemoveFile => files.remove(plan.path),
            ClearView::Write(config) => files.insert(plan.path, config),
        },
        Err(_) => files,
    }
}

proof fn lemma_first_present(list: Seq<Seq<char>>, present: Seq<Seq<char>>)
    ensures
        match first_present(list, present) {
            Some(p) => exists|i: int|
                0 <= i < list.len() && #[trigger] list[i] == p && present.contains(p) && forall|
                    j: int,
                |
                    0 <= j < i ==> !present.contains(#[trigger] list[j]),
            None => forall|j: int| 0 <= j < list.len() ==> !present.contains(#[trigger] list[j]),
        },
    decreases list.len(),
{
    if list.len() > 0 && !present.contains(list[0]) {
        let rest = list.drop_first();
        lemma_first_present(rest, present);
        match first_present(rest, present) {
            Some(p) => {
                let i = choose|i: int|
                    0 <= i < rest.len() && #[trigger] rest[i] == p && present.contains(p) && forall|
                        j: int,
                    |
                        0 <= j < i ==> !present.contains(#[trigger] rest[j]);
                assert(list[i + 1] == p);
                assert forall|j: int| 0 <= j < i + 1 implies !present.contains(
                    #[trigger] list[j],
                ) by {
                    if j > 0 {
                        assert(rest[j - 1] == list[j]);
                    }
                }
            },
            None => {
                assert forall|j: int| 0 <= j < list.len() implies !present.contains(
                    #[trigger] list[j],
                ) by {
                    if j > 0 {
                        assert(rest[j - 1] == list[j]);
                    }
                }
            },
        }
    }
}

/// Letting go of accounts in a directory fails where no file up the tree binds any, and where the
/// named plugin is not bound in the nearest one; then no file changes. Otherwise the nearest one holds
/// the other bindings, or goes where there are none or where no plugin is named. No other file
/// changes.
pub proof fn clearing_changes_the_nearest_file_alone(
    start_dir: Seq<char>,
    present: Seq<Seq<char>>,
    files: Map<Seq<char>, ConfigView>,
    plugin: Option<Seq<char>>,
)
    requires
        forall|p: Seq<char>| #[trigger]
            candidates(start_dir).contains(p) ==> (present.contains(p) <==> files.contains_key(p)),
    ensures
        ({
            let found = first_present(candidates(start_dir), present);
            let outcome = clear_outcome(
                match found {
                    Some(path) => Some((path, files[path])),
                    None => None,
                },
                plugin,
            );
            let after = after_clearing(files, outcome);
            match found {
                None => {
                    &&& outcome is Err
                    &&& after == files
                    &&& forall|i: int|
                        0 <= i < candidates(start_dir).len() ==> !files.contains_key(
                            #[trigger] candidates(start_dir)[i],
                        )
                },
                Some(path) => {
                    &&& files.contains_key(path)
                    &&& exists|i: int|
                        0 <= i < candidates(start_dir).len() && #[trigger] candidates(start_dir)[i]
                            == path && forall|j: int|
                            0 <= j < i ==> !files.contains_key(#[trigger] candidates(start_dir)[j])
                    &&& match plugin {
                        None => outcome is Ok && after == files.remove(path),
                        Some(p) => {
                            let rest = files[path].accounts.remove(p);
                            if !files[path].accounts.contains_key(p) {
                                outcome is Err && after == files
                            } else if rest == Map::<Seq<char>, Seq<char>>::empty() {
                                outcome is Ok && after == files.remove(path)
                            } else {
                                outcome is Ok && after == files.insert(
                                    path,
                                    ConfigView { version: files[path].version, accounts: rest },
                                )
                            }
                        },
                    }
                },
            }
        }),
{
    let list = candidates(start_dir);
    lemma_first_present(list, present);
    assert forall|i: int| 0 <= i < list.len() implies present.contains(#[trigger] list[i])
        == files.contains_key(list[i]) by {
        assert(list.contains(list[i]));
    }
}

/// An account that was bound is the one that is read; the other bindings stay.
pub proof fn a_bound_account_is_read(
    config: Option<ConfigView>,
    plugin_id: Seq<char>,
    alias: Seq<char>,
    other: Seq<char>,
)
    ensures
        bound(config, plugin_id, alias).accounts.contains_key(plugin_id),
        bound(config, plugin_id, alias).accounts[plugin_id] == alias,
        config matches Some(c) ==> (other != plugin_id && c.accounts.contains_key(other) ==> bound(
            config,
            plugin_id,
            alias,
        ).accounts.contains_key(other) && bound(config, plugin_id, alias).accounts[other]
            == c.accounts[other]),
{
}

/// Binding an account and letting go of it leaves the other bindings as they were; where there are
/// none, the file goes.
pub proof fn clearing_undoes_binding(
    path: Seq<char>,
    config: ConfigView,
    plugin_id: Seq<char>,
    alias: Seq<char>,
)
    requires
        !config.accounts.contains_key(plugin_id),
        config.version == PROJECT_VERSION,
    ensures
        cleared(path, bound(Some(config), plugin_id, alias), Some(plugin_id)) == if config.accounts
            == Map::<Seq<char>, Seq<char>>::empty() {
            Ok::<ClearView, Seq<char>>(ClearView::RemoveFile)
        } else {
            Ok::<ClearView, Seq<char>>(ClearView::Write(config))
        },
{
    assert(config.accounts.insert(plugin_id, alias).remove(plugin_id) =~= config.accounts);
}

// ---------------------------------------------------------------------------------------------
// What is printed
// ---------------------------------------------------------------------------------------------
/// A line for each account that is bound.
pub open spec fn account_lines(items: Seq<(Seq<char>, Seq<char>)>) -> Seq<Seq<char>> {
    items.map_values(|e: (Seq<char>, Seq<char>)| "- "@ + e.0 + "/"@ + e.1)
}

fn push_account_lines(lines: &mut Vec<String>, accounts: &TextMap<String>)
    ensures
        final(lines).deep_view() == old(lines).deep_view() + account_lines(
            sorted_items(accounts.deep_view()),
        ),
{
    let ghost before = lines.deep_view();
    let n = accounts.len();
    let ghost items = accounts.items();
    let ghost all = account_lines(items);
    let mut i: usize = 0;
    assert(before + all.take(0) == before);
    while i < n
        invariant
            i <= n,
            n == items.len(),
            items == accounts.items(),
            all == account_lines(items),
            lines.deep_view() == before + all.take(i as int),
        decreases n - i,
    {
        let ghost prev = lines.deep_view();
        lines.push(
            join3(
                join2("- ", accounts.key_at(i).as_str()).as_str(),
                "/",
                accounts.value_at(i).as_str(),
            ),
        );
        assert(lines.deep_view() == prev.push(all[i as int]));
        assert(all.take(i + 1) == all.take(i as int).push(all[i as int]));
        i = i + 1;
    }
    assert(all.take(n as int) == all);
}

/// What is printed of the accounts that a project binds, with the words in front of its parts.
pub open spec fn binding_lines(
    binding: Option<BindingView>,
    path_word: Seq<char>,
    none_word: Seq<char>,
    some_word: Seq<char>,
) -> Seq<Seq<char>> {
    match binding {
        None => seq!["No project binding found."@],
        Some(b) => if b.accounts == Map::<Seq<char>, Seq<char>>::empty() {
            seq![path_word + b.path, none_word]
        } else {
            seq![path_word + b.path, some_word] + account_lines(sorted_items(b.accounts))
        },
    }
}

fn print_binding(
    binding: &Option<ProjectBinding>,
    path_word: &str,
    none_word: &str,
    some_word: &str,
) -> (r: Vec<String>)
    ensures
        r.deep_view() == binding_lines(binding.deep_view(), path_word@, none_word@, some_word@),
{
    let mut lines: Vec<String> = Vec::new();
    match binding {
        None => {
            lines.push("No project binding found.".to_owned());
            assert(lines.deep_view() == seq!["No project binding found."@]);
        },
        Some(b) => {
            lines.push(join2(path_word, b.path.as_str()));
            if b.accounts.is_empty() {
                lines.push(none_word.to_owned());
                assert(lines.deep_view() == seq![path_word@ + b.path@, none_word@]);
            } else {
                lines.push(some_word.to_owned());
                assert(lines.deep_view() == seq![path_word@ + b.path@, some_word@]);
                push_account_lines(&mut lines, &b.accounts);
            }
        },
    }
    lines
}

/// What the command for the accounts that a project binds prints of them.
pub fn show_project(binding: &Option<ProjectBinding>) -> (r: Vec<String>)
    ensures
        r.deep_view() == binding_lines(
            binding.deep_view(),
            "path: "@,
            "accounts: -"@,
            "accounts:"@,
        ),
{
    print_binding(binding, "path: ", "accounts: -", "accounts:")
}

/// What a list prints of the accounts that a project binds.
pub fn print_project_binding(binding: &Option<ProjectBinding>) -> (r: Vec<String>)
    ensures
        r.deep_view() == binding_lines(
            binding.deep_view(),
            "Project binding: "@,
            "Accounts: -"@,
            "Accounts:"@,
        ),
{
    print_binding(binding, "Project binding: ", "Accounts: -", "Accounts:")
}

/// What a command did to the file, in words.
pub fn use_report(path: &str, plugin_id: &str, alias: &str) -> (r: String)
    ensures
        r@ == "Project binding saved: "@ + path@ + " -> "@ + plugin_id@ + "/"@ + alias@,
{
    join3(
        join3(join2("Project binding saved: ", path).as_str(), " -> ", plugin_id).as_str(),
        "/",
        alias,
    )
}

/// What a command did to the file, in words.
pub fn clear_report(path: &str, plugin: &Option<String>) -> (r: String)
    ensures
        r@ == match plugin.deep_view() {
            Some(p) => "Removed project binding for "@ + p + " from "@ + path@,
            None => "Removed project binding file "@ + path@,
        },
{
    match plugin {
        Some(p) => join3(
            join2("Removed project binding for ", p.as_str()).as_str(),
            " from ",
            path,
        ),
        None => join2("Removed project binding file ", path),
    }
}

/// The accounts of one plugin, or all.
pub open spec fn bound_of(accounts: Map<Seq<char>, Seq<char>>, plugin: Option<Seq<char>>) -> Map<
    Seq<char>,
    Seq<char>,
> {
    match plugin {
        None => accounts,
        Some(p) => accounts.restrict(set![p]),
    }
}

/// The binding with the account of one plugin alone, where one is asked for.
pub fn filter_project_binding(binding: Option<ProjectBinding>, plugin_filter: Option<&str>) -> (r:
    Option<ProjectBinding>)
    ensures
        r.deep_view() == match binding.deep_view() {
            None => None,
            Some(b) => Some(
                BindingView {
                    path: b.path,
                    accounts: bound_of(b.accounts, plugin_filter.deep_view()),
                },
            ),
        },
{
    match binding {
        None => None,
        Some(b) => match plugin_filter {
            None => Some(b),
            Some(plugin) => {
                let ghost all = b.accounts.deep_view();
                let mut accounts: TextMap<String> = TextMap::new();
                match b.accounts.get(plugin) {
                    Some(alias) => {
                        accounts.insert(plugin.to_owned(), alias.clone());
                        assert(accounts.deep_view() =~= all.restrict(set![plugin@]));
                    },
                    None => {
                        assert(accounts.deep_view() =~= all.restrict(set![plugin@]));
                    },
                }
                Some(ProjectBinding { path: b.path, accounts })
            },
        },
    }
}

/// What the use of a project needs: an account that a selector names, or one that is asked for.
pub fn run(command: &ProjectCommand) -> (r: Result<Option<String>, CommandError>)
    ensures
        match *command {
            ProjectCommand::Use(args) => if args.selector is None && args.json {
                r matches Err(e) && e.message@
                    == "Interactive project binding does not support --json; pass <plugin>/<alias>"@
            } else {
                r matches Ok(selector) && selector.deep_view() == args.selector.deep_view()
            },
            _ => r matches Ok(None),
        },
{
    match command {
        ProjectCommand::Use(args) => if args.selector.is_none() && args.json {
            Err(
                CommandError {
                    message:
                        "Interactive project binding does not support --json; pass <plugin>/<alias>".to_owned(),
                },
            )
        } else {
            Ok(copy_opt(&args.selector))
        },
        _ => Ok(None),
    }
}

} // verus!
