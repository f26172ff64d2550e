//! Picking a plugin by hand, and what the program reads of its own arguments before anything else.
use vstd::prelude::*;

use super::accounts::{CommandError, ListedAccount, ListedView};
use super::print::{AccountCells, print_account_row, saved_lines};
use super::prompt::{Question, QuestionView, option_question, prompt_option};
use crate::plugin::catalog::LoadedManifest;
use crate::text::{
    append_all, decimal, decimal_of, join2, join3, push_line, same, strip_prefix,
    strip_prefix_of,
};

verus! {

/// What comes next in picking a plugin: it is the only one, and a line says so; or it is asked for, and
/// each plugin answers to its keys.
pub enum PluginPick {
    Only { plugin_id: String, line: String },
    Ask { question: Question, keys: Vec<Vec<String>> },
}

pub enum PluginPickView {
    Only { plugin_id: Seq<char>, line: Seq<char> },
    Ask { question: QuestionView, keys: Seq<Seq<Seq<char>>> },
}

impl DeepView for PluginPick {
    type V = PluginPickView;

    open spec fn deep_view(&self) -> PluginPickView {
        match self {
            PluginPick::Only { plugin_id, line } => PluginPickView::Only {
                plugin_id: plugin_id@,
                line: line@,
            },
            PluginPick::Ask { question, keys } => PluginPickView::Ask {
                question: question.deep_view(),
                keys: keys.deep_view(),
            },
        }
    }
}

/// The ids and the names of some plugins.
pub open spec fn plugin_names(plugins: Seq<LoadedManifest>) -> Seq<(Seq<char>, Seq<char>)> {
    plugins.map_values(|p: LoadedManifest| (p.manifest.id@, p.manifest.display_name@))
}

/// What the plugins are listed as.
pub open spec fn pick_labels(names: Seq<(Seq<char>, Seq<char>)>) -> Seq<Seq<char>> {
    names.map_values(|n: (Seq<char>, Seq<char>)| n.0 + " ("@ + n.1 + ")"@)
}

/// What the plugins answer to.
pub open spec fn pick_keys(names: Seq<(Seq<char>, Seq<char>)>) -> Seq<Seq<Seq<char>>> {
    names.map_values(|n: (Seq<char>, Seq<char>)| seq![n.0, n.1])
}

pub open spec fn no_plugins_text() -> Seq<char> {
    "No plugins are loaded; install one or check ~/.aswitch/plugins"@
}

/// How a plugin is picked among some, or why it cannot be.
pub open spec fn pick_of(names: Seq<(Seq<char>, Seq<char>)>) -> Result<PluginPickView, Seq<char>> {
    if names.len() == 0 {
        Err(no_plugins_text())
    } else if names.len() == 1 {
        Ok(PluginPickView::Only { plugin_id: names[0].0, line: "plugin: "@ + names[0].0 })
    } else {
        Ok(
            PluginPickView::Ask {
                question: option_question(
                    "Available plugins:"@,
                    "Select a plugin"@,
                    pick_labels(names),
                ),
                keys: pick_keys(names),
            },
        )
    }
}

/// How a plugin is picked among those that are loaded.
pub fn prompt_for_plugin_from_catalog(plugins: &Vec<LoadedManifest>) -> (r: Result<
    PluginPick,
    CommandError,
>)
    ensures
        match r {
            Ok(pick) => pick_of(plugin_names(plugins@)) == Ok::<PluginPickView, Seq<char>>(
                pick.deep_view(),
            ),
            Err(e) => pick_of(plugin_names(plugins@)) == Err::<PluginPickView, Seq<char>>(
                e.message@,
            ),
        },
{
    let ghost names = plugin_names(plugins@);
    if plugins.len() == 0 {
        return Err(
            CommandError {
                message: "No plugins are loaded; install one or check ~/.aswitch/plugins".to_owned(),
            },
        );
    }
    if plugins.len() == 1 {
        let id = plugins[0].manifest.id.clone();
        assert(names[0].0 == id@);
        let line = join2("plugin: ", id.as_str());
        return Ok(PluginPick::Only { plugin_id: id, line });
    }
    let ghost all_labels = pick_labels(names);
    let ghost all_keys = pick_keys(names);
    let mut labels: Vec<String> = Vec::new();
    let mut keys: Vec<Vec<String>> = Vec::new();
    let mut i: usize = 0;
    assert(labels.deep_view() == all_labels.take(0));
    assert(keys.deep_view() == all_keys.take(0));
    while i < plugins.len()
        invariant
            i <= plugins@.len(),
            names == plugin_names(plugins@),
            all_labels == pick_labels(names),
            all_keys == pick_keys(names),
            labels.deep_view() == all_labels.take(i as int),
            keys.deep_view() == all_keys.take(i as int),
        decreases plugins@.len() - i,
    {
        let manifest = &plugins[i].manifest;
        push_line(
            &mut labels,
            join2(
                join3(manifest.id.as_str(), " (", manifest.display_name.as_str()).as_str(),
                ")",
            ),
        );
        let mut own: Vec<String> = Vec::new();
        push_line(&mut own, manifest.id.clone());
        push_line(&mut own, manifest.display_name.clone());
        assert(own.deep_view() == all_keys[i as int]);
        let ghost before = keys.deep_view();
        keys.push(own);
        assert(keys.deep_view() == before.push(all_keys[i as int]));
        assert(all_labels.take(i + 1) == all_labels.take(i as int).push(all_labels[i as int]));
        assert(all_keys.take(i + 1) == all_keys.take(i as int).push(all_keys[i as int]));
        i = i + 1;
    }
    assert(all_labels.take(all_labels.len() as int) == all_labels);
    assert(all_keys.take(all_keys.len() as int) == all_keys);
    Ok(
        PluginPick::Ask {
            question: prompt_option("Available plugins:", "Select a plugin", &labels),
            keys,
        },
    )
}

/// Whether there is an account to pick; otherwise, why not.
pub fn require_accounts(rows: &Vec<ListedAccount>) -> (r: Result<(), CommandError>)
    ensures
        match r {
            Ok(()) => rows@.len() != 0,
            Err(e) => rows@.len() == 0 && e.message@
                == "No saved accounts found; run aswitch save or aswitch login first"@,
        },
{
    if rows.len() == 0 {
        Err(
            CommandError {
                message: "No saved accounts found; run aswitch save or aswitch login first".to_owned(),
            },
        )
    } else {
        Ok(())
    }
}

// ---------------------------------------------------------------------------------------------
// The list of saved accounts
// ---------------------------------------------------------------------------------------------
/// What is shown of a saved account beside what is saved of it.
pub struct CellsView {
    pub quota: Seq<char>,
    pub usage: Seq<char>,
    pub weekly_usage: Seq<char>,
    pub next_refresh: Seq<char>,
}

impl DeepView for AccountCells {
    type V = CellsView;

    open spec fn deep_view(&self) -> CellsView {
        CellsView {
            quota: self.quota@,
            usage: self.usage@,
            weekly_usage: self.weekly_usage@,
            next_refresh: self.next_refresh@,
        }
    }
}

/// The lines for the saved accounts, with an empty line between two of them.
pub open spec fn saved_blocks(rows: Seq<ListedView>, cells: Seq<CellsView>) -> Seq<Seq<char>>
    decreases rows.len(),
{
    if rows.len() == 0 {
        seq![]
    } else {
        let c = cells[rows.len() - 1];
        let gap = if rows.len() > 1 {
            seq![""@]
        } else {
            seq![]
        };
        saved_blocks(rows.drop_last(), cells) + gap + saved_lines(
            rows.last(),
            c.quota,
            c.usage,
            c.weekly_usage,
            c.next_refresh,
        )
    }
}

/// The list of the saved accounts.
pub open spec fn saved_list(rows: Seq<ListedView>, cells: Seq<CellsView>) -> Seq<Seq<char>> {
    if rows.len() == 0 {
        seq!["No saved accounts."@]
    } else {
        seq!["Saved accounts: "@ + decimal_of(rows.len())] + saved_blocks(rows, cells)
    }
}

/// The list of the saved accounts; `cells` are what is shown of each beside what is saved of it.
pub fn print_account_rows(rows: &Vec<ListedAccount>, cells: &Vec<AccountCells>) -> (r: Vec<String>)
    requires
        rows@.len() == cells@.len(),
    ensures
        r.deep_view() == saved_list(rows.deep_view(), cells.deep_view()),
{
    let ghost all = rows.deep_view();
    let ghost shown = cells.deep_view();
    let mut lines: Vec<String> = Vec::new();
    if rows.len() == 0 {
        push_line(&mut lines, "No saved accounts.".to_owned());
        assert(lines.deep_view() == seq!["No saved accounts."@]);
        return lines;
    }
    push_line(&mut lines, join2("Saved accounts: ", decimal(rows.len() as u64).as_str()));
    let ghost head = seq!["Saved accounts: "@ + decimal_of(all.len())];
    let mut i: usize = 0;
    assert(lines.deep_view() == head + saved_blocks(all.take(0), shown));
    while i < rows.len()
        invariant
            i <= rows@.len(),
            rows@.len() == cells@.len(),
            all == rows.deep_view(),
            shown == cells.deep_view(),
            lines.deep_view() == head + saved_blocks(all.take(i as int), shown),
        decreases rows@.len() - i,
    {
        assert(all.take(i + 1).drop_last() == all.take(i as int));
        assert(all[i as int] == rows@[i as int].deep_view());
        assert(shown[i as int] == cells@[i as int].deep_view());
        let ghost before = lines.deep_view();
        if i > 0 {
            push_line(&mut lines, "".to_owned());
        }
        let own = print_account_row(&rows[i], &cells[i]);
        append_all(&mut lines, &own);
        assert(lines.deep_view() == head + saved_blocks(all.take(i + 1), shown));
        i = i + 1;
    }
    assert(all.take(all.len() as int) == all);
    lines
}

// ---------------------------------------------------------------------------------------------
// The configuration directory
// ---------------------------------------------------------------------------------------------
/// The configuration directory that the arguments name from place `i` on: what follows the option, or
/// what stands behind its equals sign.
pub open spec fn config_dir_in(args: Seq<Seq<char>>, i: int) -> Option<Seq<char>>
    decreases args.len() - i,
{
    if i < 0 || i >= args.len() {
        None
    } else if args[i] == "--config-dir"@ {
        if i + 1 < args.len() {
            Some(args[i + 1])
        } else {
            None
        }
    } else {
        match strip_prefix_of(args[i], "--config-dir="@) {
            Some(value) => Some(value),
            None => config_dir_in(args, i + 1),
        }
    }
}

/// The configuration directory that the arguments name. The first argument is the program itself.
pub fn discover_config_dir(args: &Vec<String>) -> (r: Option<String>)
    ensures
        r.deep_view() == config_dir_in(args.deep_view(), 1),
{
    let ghost all = args.deep_view();
    let mut i: usize = 1;
    while i < args.len()
        invariant
            1 <= i,
            all == args.deep_view(),
            config_dir_in(all, 1) == config_dir_in(all, i as int),
        decreases args@.len() - i,
    {
        assert(all[i as int] == args@[i as int]@);
        if same(args[i].as_str(), "--config-dir") {
            if i + 1 < args.len() {
                assert(all[i + 1] == args@[i + 1]@);
                return Some(args[i + 1].clone());
            }
            return None;
        }
        match strip_prefix(args[i].as_str(), "--config-dir=") {
            Some(value) => {
                return Some(value);
            },
            None => {},
        }
        i = i + 1;
    }
    None
}

} // verus!
