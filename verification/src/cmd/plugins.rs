//! Listing, checking and installing plugins.
use vstd::prelude::*;

use super::accounts::CommandError;
use crate::path::{join_path, joined};
use crate::paths::AswitchPaths;
use crate::plugin::Manifest;
use crate::plugin::catalog::{LoadedManifest, PluginCatalog, PluginLoadFailure};
use crate::text::{join2, join3, pad_right, padded, push_line};

verus! {

/// What is done with plugins.
pub enum PluginCommand {
    List(ListArgs),
    Path,
    Validate(ValidateArgs),
    Install(InstallArgs),
}

pub struct ListArgs {
    pub json: bool,
}

pub struct ValidateArgs {
    pub path: String,
    pub json: bool,
}

pub struct InstallArgs {
    pub path: String,
    pub force: bool,
}

/// A plugin in a line: a word, its id, its version, and a place.
pub open spec fn plugin_line(word: Seq<char>, manifest: Manifest, path: Seq<char>) -> Seq<char> {
    word + "\t"@ + manifest.id@ + "\t"@ + manifest.version@ + "\t"@ + path
}

fn write_plugin_line(word: &str, manifest: &Manifest, path: &str) -> (r: String)
    ensures
        r@ == plugin_line(word@, *manifest, path@),
{
    join3(
        join3(
            join3(word, "\t", manifest.id.as_str()).as_str(),
            "\t",
            manifest.version.as_str(),
        ).as_str(),
        "\t",
        path,
    )
}

/// What is printed of a manifest that is valid.
pub fn validate(manifest: &LoadedManifest) -> (r: String)
    ensures
        r@ == plugin_line("valid"@, manifest.manifest, manifest.path@),
{
    write_plugin_line("valid", &manifest.manifest, manifest.path.as_str())
}

/// Where a plugin is installed, and what is printed of it.
pub struct InstallPlan {
    pub plugin_dir: String,
    pub destination: String,
    pub line: String,
}

/// The directory of a plugin.
pub open spec fn plugin_dir_of(plugins_dir: Seq<char>, id: Seq<char>) -> Seq<char> {
    joined(plugins_dir, id)
}

/// The manifest of a plugin.
pub open spec fn plugin_file_of(plugins_dir: Seq<char>, id: Seq<char>) -> Seq<char> {
    joined(joined(plugins_dir, id), "plugin.toml"@)
}

/// The manifest of a plugin.
pub fn plugin_file(paths: &AswitchPaths, id: &str) -> (r: String)
    ensures
        r@ == plugin_file_of(paths.plugins_dir@, id@),
{
    join_path(join_path(paths.plugins_dir.as_str(), id).as_str(), "plugin.toml")
}

/// Where a plugin is installed; one that is there is replaced only by force.
pub fn install(paths: &AswitchPaths, manifest: &LoadedManifest, exists_already: bool, force: bool) -> (r:
    Result<InstallPlan, CommandError>)
    ensures
        ({
            let destination = plugin_file_of(paths.plugins_dir@, manifest.manifest.id@);
            match r {
                Ok(plan) => (!exists_already || force) && plan.destination@ == destination
                    && plan.plugin_dir@ == plugin_dir_of(
                    paths.plugins_dir@,
                    manifest.manifest.id@,
                ) && plan.line@ == plugin_line("installed"@, manifest.manifest, destination),
                Err(e) => exists_already && !force && e.message@ == "plugin "@
                    + manifest.manifest.id@ + " already exists at "@ + destination
                    + "; rerun with --force to overwrite"@,
            }
        }),
{
    let plugin_dir = join_path(paths.plugins_dir.as_str(), manifest.manifest.id.as_str());
    let destination = join_path(plugin_dir.as_str(), "plugin.toml");
    if exists_already && !force {
        return Err(
            CommandError {
                message: join2(
                    join3(
                        join2("plugin ", manifest.manifest.id.as_str()).as_str(),
                        " already exists at ",
                        destination.as_str(),
                    ).as_str(),
                    "; rerun with --force to overwrite",
                ),
            },
        );
    }
    let line = write_plugin_line("installed", &manifest.manifest, destination.as_str());
    Ok(InstallPlan { plugin_dir, destination, line })
}

/// The columns of a line in the list of plugins.
pub open spec fn catalog_line(
    id: Seq<char>,
    version: Seq<char>,
    source: Seq<char>,
    status: Seq<char>,
) -> Seq<char> {
    padded(id, 16) + " "@ + padded(version, 10) + " "@ + padded(source, 8) + " "@ + status
}

fn write_catalog_line(id: &str, version: &str, source: &str, status: &str) -> (r: String)
    ensures
        r@ == catalog_line(id@, version@, source@, status@),
{
    join3(
        join3(
            join3(
                pad_right(id, 16).as_str(),
                " ",
                pad_right(version, 10).as_str(),
            ).as_str(),
            " ",
            pad_right(source, 8).as_str(),
        ).as_str(),
        " ",
        status,
    )
}

pub open spec fn good_lines(plugins: Seq<LoadedManifest>) -> Seq<Seq<char>> {
    plugins.map_values(
        |p: LoadedManifest| catalog_line(p.manifest.id@, p.manifest.version@, "user"@, "ok"@),
    )
}

pub open spec fn bad_lines(errors: Seq<PluginLoadFailure>) -> Seq<Seq<char>> {
    errors.map_values(
        |e: PluginLoadFailure| catalog_line("-"@, "-"@, "user"@, "error: "@ + e.error@),
    )
}

/// What is printed of the plugins: a line of headings, those that could be loaded, and those that
/// could not.
pub fn print_catalog(catalog: &PluginCatalog) -> (r: Vec<String>)
    ensures
        r.deep_view() == seq![catalog_line("ID"@, "VERSION"@, "SOURCE"@, "STATUS"@)] + good_lines(
            catalog.plugins@,
        ) + bad_lines(catalog.errors@),
{
    let mut lines: Vec<String> = Vec::new();
    push_line(&mut lines, write_catalog_line("ID", "VERSION", "SOURCE", "STATUS"));
    let ghost head = seq![catalog_line("ID"@, "VERSION"@, "SOURCE"@, "STATUS"@)];
    let ghost good = good_lines(catalog.plugins@);
    let ghost bad = bad_lines(catalog.errors@);
    let mut i: usize = 0;
    assert(lines.deep_view() == head + good.take(0));
    while i < catalog.plugins.len()
        invariant
            i <= catalog.plugins@.len(),
            good == good_lines(catalog.plugins@),
            lines.deep_view() == head + good.take(i as int),
        decreases catalog.plugins@.len() - i,
    {
        let m = &catalog.plugins[i].manifest;
        push_line(
            &mut lines,
            write_catalog_line(m.id.as_str(), m.version.as_str(), "user", "ok"),
        );
        assert(good.take(i + 1) == good.take(i as int).push(good[i as int]));
        assert(head + good.take(i + 1) == (head + good.take(i as int)).push(good[i as int]));
        i = i + 1;
    }
    assert(good.take(good.len() as int) == good);
    let mut k: usize = 0;
    assert(head + good + bad.take(0) == head + good);
    while k < catalog.errors.len()
        invariant
            k <= catalog.errors@.len(),
            bad == bad_lines(catalog.errors@),
            lines.deep_view() == head + good + bad.take(k as int),
        decreases catalog.errors@.len() - k,
    {
        push_line(
            &mut lines,
            write_catalog_line(
                "-",
                "-",
                "user",
                join2("error: ", catalog.errors[k].error.as_str()).as_str(),
            ),
        );
        assert(bad.take(k + 1) == bad.take(k as int).push(bad[k as int]));
        assert(head + good + bad.take(k + 1) == (head + good + bad.take(k as int)).push(
            bad[k as int],
        ));
        k = k + 1;
    }
    assert(bad.take(bad.len() as int) == bad);
    lines
}

} // verus!
