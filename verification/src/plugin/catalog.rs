//! From parsed manifests to the catalog of plugins.
use vstd::prelude::*;

use super::expand::{
    manifest_expands, manifest_warned, aux_expands, identity_expands, usage_expands,
};
use super::{
    Manifest, ManifestValidationError, manifest_problem, supports, store_problem, login_problem,
    aux_files_problem, identities_problem, usages_problem, AuxFile, IdentityExtract, UsageSource,
};
use crate::text::{Order, append_all, join2, join3, lemma_text_lt_irreflexive, lemma_text_lt_total, lemma_text_lt_transitive, order, text_lt};
use crate::text_map::TextMap;

verus! {

/// A valid manifest, and where it was found.
pub struct LoadedManifest {
    pub path: String,
    pub source: PluginSource,
    pub warnings: Vec<String>,
    pub manifest: Manifest,
}

#[derive(Clone, Copy, Debug, PartialEq, Eq, Structural)]
pub enum PluginSource {
    User,
}

/// The plugins of a directory, in the order of their ids, and what went wrong in reading them.
pub struct PluginCatalog {
    pub plugins: Vec<LoadedManifest>,
    pub errors: Vec<PluginLoadFailure>,
    pub warnings: Vec<String>,
}

pub struct PluginLoadFailure {
    pub path: String,
    pub error: String,
}

/// Why a manifest could not be loaded.
pub enum ManifestLoadError {
    Read { path: String },
    Parse { path: String },
    Validation { path: String, source: ManifestValidationError },
}

/// Why a directory of plugins could not be scanned.
pub enum PluginScanError {
    ReadDirectory { path: String },
}

/// What reading one subdirectory of the plugin directory gave.
pub struct PluginEntry {
    pub name: String,
    pub path: String,
    pub outcome: Result<LoadedManifest, String>,
}

impl ManifestLoadError {
    pub open spec fn text(&self) -> Seq<char> {
        match *self {
            ManifestLoadError::Read { path } => "failed to read plugin manifest "@ + path@,
            ManifestLoadError::Parse { path } => "failed to parse plugin manifest "@ + path@,
            ManifestLoadError::Validation { path, source } => "invalid plugin manifest "@ + path@
                + ": "@ + source.0@,
        }
    }

    /// The error in words.
    pub fn message(&self) -> (r: String)
        ensures
            r@ == self.text(),
    {
        match self {
            ManifestLoadError::Read { path } => join2(
                "failed to read plugin manifest ",
                path.as_str(),
            ),
            ManifestLoadError::Parse { path } => join2(
                "failed to parse plugin manifest ",
                path.as_str(),
            ),
            ManifestLoadError::Validation { path, source } => {
                let mut out = join3("invalid plugin manifest ", path.as_str(), ": ");
                out.append(source.0.as_str());
                out
            },
        }
    }
}

impl PluginScanError {
    pub open spec fn text(&self) -> Seq<char> {
        match *self {
            PluginScanError::ReadDirectory { path } => "failed to read plugin directory "@ + path@,
        }
    }

    /// The error in words.
    pub fn message(&self) -> (r: String)
        ensures
            r@ == self.text(),
    {
        match self {
            PluginScanError::ReadDirectory { path } => join2(
                "failed to read plugin directory ",
                path.as_str(),
            ),
        }
    }
}

/// Takes a parsed manifest in: its placeholders are replaced from `env`, and the outcome is
/// checked. Which problem is found does not depend on more than the manifest and the environment:
/// see `problem_after_expansion`.
pub fn parse_manifest(manifest: Manifest, path: &str, env: &TextMap<String>) -> (r: Result<
    LoadedManifest,
    ManifestLoadError,
>)
    ensures
        match r {
            Ok(loaded) => {
                &&& manifest_expands(manifest, loaded.manifest, env.deep_view())
                &&& manifest_problem(loaded.manifest) is None
                &&& loaded.path@ == path@
                &&& loaded.source == PluginSource::User
                &&& loaded.warnings.deep_view() == manifest_warned(manifest, env.deep_view())
            },
            Err(ManifestLoadError::Validation { path: at, source }) => {
                &&& at@ == path@
                &&& exists|m: Manifest| #[trigger]
                    manifest_expands(manifest, m, env.deep_view()) && manifest_problem(m) == Some(
                        source.0@,
                    )
            },
            Err(_) => false,
        },
{
    let mut m = manifest;
    let warnings = m.expand_env_placeholders_with(env);
    match m.validate() {
        Ok(_) => Ok(
            LoadedManifest {
                path: path.to_owned(),
                source: PluginSource::User,
                warnings,
                manifest: m,
            },
        ),
        Err(source) => {
            assert(manifest_expands(manifest, m, env.deep_view()));
            Err(ManifestLoadError::Validation { path: path.to_owned(), source })
        },
    }
}

proof fn lemma_aux_problems(a: Seq<AuxFile>, b: Seq<AuxFile>, c: Seq<AuxFile>, env: Map<Seq<char>, Seq<char>>, i: int)
    requires
        a.len() == b.len() == c.len(),
        forall|k: int| 0 <= k < a.len() ==> aux_expands(#[trigger] a[k], b[k], env),
        forall|k: int| 0 <= k < a.len() ==> aux_expands(#[trigger] a[k], c[k], env),
        0 <= i,
    ensures
        aux_files_problem(b, i) == aux_files_problem(c, i),
    decreases a.len() - i,
{
    if i < a.len() {
        assert(aux_expands(a[i], b[i], env) && aux_expands(a[i], c[i], env));
        lemma_aux_problems(a, b, c, env, i + 1);
    }
}

proof fn lemma_identity_problems(a: Seq<IdentityExtract>, b: Seq<IdentityExtract>, c: Seq<IdentityExtract>, env: Map<Seq<char>, Seq<char>>, i: int)
    requires
        a.len() == b.len() == c.len(),
        forall|k: int| 0 <= k < a.len() ==> identity_expands(#[trigger] a[k], b[k], env),
        forall|k: int| 0 <= k < a.len() ==> identity_expands(#[trigger] a[k], c[k], env),
        0 <= i,
    ensures
        identities_problem(b, i) == identities_problem(c, i),
    decreases a.len() - i,
{
    if i < a.len() {
        assert(identity_expands(a[i], b[i], env) && identity_expands(a[i], c[i], env));
        lemma_identity_problems(a, b, c, env, i + 1);
    }
}

proof fn lemma_usage_problems(a: Seq<UsageSource>, b: Seq<UsageSource>, c: Seq<UsageSource>, env: Map<Seq<char>, Seq<char>>, i: int)
    requires
        a.len() == b.len() == c.len(),
        forall|k: int| 0 <= k < a.len() ==> usage_expands(#[trigger] a[k], b[k], env),
        forall|k: int| 0 <= k < a.len() ==> usage_expands(#[trigger] a[k], c[k], env),
        0 <= i,
    ensures
        usages_problem(b, i) == usages_problem(c, i),
    decreases a.len() - i,
{
    if i < a.len() {
        assert(usage_expands(a[i], b[i], env) && usage_expands(a[i], c[i], env));
        lemma_usage_problems(a, b, c, env, i + 1);
    }
}

/// Two manifests that both are `a` with its placeholders replaced have the same first problem, or
/// none.
pub proof fn problem_after_expansion(
    a: Manifest,
    b: Manifest,
    c: Manifest,
    env: Map<Seq<char>, Seq<char>>,
)
    requires
        manifest_expands(a, b, env),
        manifest_expands(a, c, env),
    ensures
        manifest_problem(b) == manifest_problem(c),
{
    lemma_aux_problems(a.aux_files@, b.aux_files@, c.aux_files@, env, 0);
    lemma_identity_problems(
        a.identity_extract@,
        b.identity_extract@,
        c.identity_extract@,
        env,
        0,
    );
    lemma_usage_problems(a.usage_source@, b.usage_source@, c.usage_source@, env, 0);
    assert(store_problem(b.credential_store, b.platforms@) == store_problem(
        c.credential_store,
        c.platforms@,
    ));
    assert(login_problem(b.login) == login_problem(c.login)) by {
        assert(b.login.cmd.deep_view().len() == c.login.cmd.deep_view().len());
    }
}

// ---------------------------------------------------------------------------------------------
// The catalog
// ---------------------------------------------------------------------------------------------
/// `list`, which is sorted by name, with `e` behind the entries that do not follow it.
pub open spec fn entry_placed(list: Seq<PluginEntry>, e: PluginEntry) -> Seq<PluginEntry>
    decreases list.len(),
{
    if list.len() > 0 && text_lt(e.name@, list.last().name@) {
        entry_placed(list.drop_last(), e).push(list.last())
    } else {
        list.push(e)
    }
}

/// The entries sorted by name.
pub open spec fn entries_sorted(entries: Seq<PluginEntry>) -> Seq<PluginEntry>
    decreases entries.len(),
{
    if entries.len() == 0 {
        seq![]
    } else {
        entry_placed(entries_sorted(entries.drop_last()), entries.last())
    }
}

/// `list`, which is sorted by id, with `l` in its place, instead of the plugin of the same id where
/// there is one.
pub open spec fn plugin_placed(list: Seq<LoadedManifest>, l: LoadedManifest) -> Seq<LoadedManifest>
    decreases list.len(),
{
    if list.len() == 0 {
        seq![l]
    } else if text_lt(l.manifest.id@, list.last().manifest.id@) {
        plugin_placed(list.drop_last(), l).push(list.last())
    } else if l.manifest.id@ == list.last().manifest.id@ {
        list.drop_last().push(l)
    } else {
        list.push(l)
    }
}

/// The last plugin of `list` with the id `id`.
pub open spec fn plugin_with_id(list: Seq<LoadedManifest>, id: Seq<char>) -> Option<LoadedManifest>
    decreases list.len(),
{
    if list.len() == 0 {
        None
    } else if list.last().manifest.id@ == id {
        Some(list.last())
    } else {
        plugin_with_id(list.drop_last(), id)
    }
}

/// The plugins that the entries give, read one after the other.
pub open spec fn plugins_of(entries: Seq<PluginEntry>, os: Seq<char>) -> Seq<LoadedManifest>
    decreases entries.len(),
{
    if entries.len() == 0 {
        seq![]
    } else {
        let before = plugins_of(entries.drop_last(), os);
        match entries.last().outcome {
            Ok(l) => if supports(l.manifest, os) {
                plugin_placed(before, l)
            } else {
                before
            },
            Err(_) => before,
        }
    }
}

/// The failures among the entries.
pub open spec fn failures_of(entries: Seq<PluginEntry>) -> Seq<(Seq<char>, Seq<char>)>
    decreases entries.len(),
{
    if entries.len() == 0 {
        seq![]
    } else {
        match entries.last().outcome {
            Ok(_) => failures_of(entries.drop_last()),
            Err(error) => failures_of(entries.drop_last()).push((entries.last().path@, error@)),
        }
    }
}

/// The warnings that the entries give: of each supported plugin that it overrides another one, and
/// those of its manifest.
pub open spec fn warnings_of(entries: Seq<PluginEntry>, os: Seq<char>) -> Seq<Seq<char>>
    decreases entries.len(),
{
    if entries.len() == 0 {
        seq![]
    } else {
        let front = entries.drop_last();
        let before = warnings_of(front, os);
        match entries.last().outcome {
            Ok(l) => if supports(l.manifest, os) {
                let doubled = match plugin_with_id(plugins_of(front, os), l.manifest.id@) {
                    Some(previous) => seq![
                        "duplicate plugin id '"@ + l.manifest.id@ + "' in "@ + l.path@
                            + " overrides "@ + previous.path@,
                    ],
                    None => seq![],
                };
                before + doubled + l.warnings.deep_view()
            } else {
                before
            },
            Err(_) => before,
        }
    }
}

pub open spec fn failure_views(errors: Seq<PluginLoadFailure>) -> Seq<(Seq<char>, Seq<char>)> {
    errors.map_values(|f: PluginLoadFailure| (f.path@, f.error@))
}

fn sort_entries(entries: Vec<PluginEntry>) -> (r: Vec<PluginEntry>)
    ensures
        r@ == entries_sorted(entries@),
{
    let ghost all = entries@;
    let mut rest = entries;
    let mut out: Vec<PluginEntry> = Vec::new();
    let ghost mut done: int = 0;
    assert(all.subrange(0, all.len() as int) == all);
    assert(all.take(0) == Seq::<PluginEntry>::empty());
    while rest.len() > 0
        invariant
            0 <= done <= all.len(),
            rest@ == all.subrange(done, all.len() as int),
            out@ == entries_sorted(all.take(done)),
        decreases rest.len(),
    {
        let e = rest.remove(0);
        let ghost before = out@;
        let mut at: usize = out.len();
        assert(before.take(at as int) == before);
        assert(before.subrange(at as int, before.len() as int) == Seq::<PluginEntry>::empty());
        assert(entry_placed(before.take(at as int), e) + before.subrange(
            at as int,
            before.len() as int,
        ) == entry_placed(before, e));
        while at > 0 && order(e.name.as_str(), out[at - 1].name.as_str()) == Order::Before
            invariant
                at <= out.len(),
                out@ == before,
                entry_placed(before, e) == entry_placed(before.take(at as int), e)
                    + before.subrange(at as int, before.len() as int),
            decreases at,
        {
            at = at - 1;
            proof {
                let shorter = before.take(at as int);
                assert(before.take(at + 1).drop_last() == shorter);
                assert(entry_placed(shorter, e).push(before[at as int]) + before.subrange(
                    at + 1,
                    before.len() as int,
                ) == entry_placed(shorter, e) + before.subrange(at as int, before.len() as int));
            }
        }
        out.insert(at, e);
        proof {
            assert(out@ == before.take(at as int).push(e) + before.subrange(
                at as int,
                before.len() as int,
            ));
            assert(e == all[done]);
            assert(all.take(done + 1).drop_last() == all.take(done));
            assert(all.take(done + 1).last() == e);
            done = done + 1;
            assert(rest@ == all.subrange(done, all.len() as int));
        }
    }
    assert(all.take(done) == all);
    out
}

/// The path of the plugin with the id `id`.
fn path_with_id(plugins: &Vec<LoadedManifest>, id: &str) -> (r: Option<String>)
    ensures
        match r {
            Some(path) => plugin_with_id(plugins@, id@) is Some && path@ == plugin_with_id(
                plugins@,
                id@,
            )->0.path@,
            None => plugin_with_id(plugins@, id@) is None,
        },
{
    let mut i: usize = plugins.len();
    assert(plugins@.take(i as int) == plugins@);
    while i > 0
        invariant
            i <= plugins.len(),
            plugin_with_id(plugins@, id@) == plugin_with_id(plugins@.take(i as int), id@),
        decreases i,
    {
        assert(plugins@.take(i as int).drop_last() == plugins@.take(i - 1));
        i = i - 1;
        if crate::text::same(plugins[i].manifest.id.as_str(), id) {
            return Some(plugins[i].path.clone());
        }
    }
    None
}

fn place_plugin(plugins: &mut Vec<LoadedManifest>, loaded: LoadedManifest)
    ensures
        final(plugins)@ == plugin_placed(old(plugins)@, loaded),
{
    let ghost before = plugins@;
    let mut at: usize = plugins.len();
    assert(before.take(at as int) == before);
    assert(plugin_placed(before.take(at as int), loaded) + before.subrange(
        at as int,
        before.len() as int,
    ) == plugin_placed(before, loaded));
    while at > 0 && order(
        loaded.manifest.id.as_str(),
        plugins[at - 1].manifest.id.as_str(),
    ) == Order::Before
        invariant
            at <= plugins.len(),
            plugins@ == before,
            plugin_placed(before, loaded) == plugin_placed(before.take(at as int), loaded)
                + before.subrange(at as int, before.len() as int),
        decreases at,
    {
        at = at - 1;
        proof {
            let shorter = before.take(at as int);
            assert(before.take(at + 1).drop_last() == shorter);
            assert(plugin_placed(shorter, loaded).push(before[at as int]) + before.subrange(
                at + 1,
                before.len() as int,
            ) == plugin_placed(shorter, loaded) + before.subrange(at as int, before.len() as int));
        }
    }
    if at > 0 && order(
        loaded.manifest.id.as_str(),
        plugins[at - 1].manifest.id.as_str(),
    ) == Order::Same {
        proof {
            lemma_text_lt_irreflexive(loaded.manifest.id@);
            assert(before.take(at as int).last() == before[at - 1]);
        }
        plugins.set(at - 1, loaded);
        assert(plugins@ == before.take(at as int).drop_last().push(loaded) + before.subrange(
            at as int,
            before.len() as int,
        ));
    } else {
        plugins.insert(at, loaded);
        assert(plugins@ == before.take(at as int).push(loaded) + before.subrange(
            at as int,
            before.len() as int,
        ));
        if at == 0 {
            assert(before.take(0).push(loaded) == seq![loaded]);
        } else {
            assert(before.take(at as int).last() == before[at - 1]);
        }
    }
}

/// The catalog of a directory of plugins: the entries are read in the order of their names, those
/// for another platform are passed over, and of two with the same id the later one stays.
pub fn load_all(entries: Vec<PluginEntry>, os: &str) -> (r: PluginCatalog)
    ensures
        r.plugins@ == plugins_of(entries_sorted(entries@), os@),
        failure_views(r.errors@) == failures_of(entries_sorted(entries@)),
        r.warnings.deep_view() == warnings_of(entries_sorted(entries@), os@),
{
    let mut rest = sort_entries(entries);
    let ghost all = rest@;
    let ghost mut done: int = 0;
    let mut plugins: Vec<LoadedManifest> = Vec::new();
    let mut errors: Vec<PluginLoadFailure> = Vec::new();
    let mut warnings: Vec<String> = Vec::new();
    assert(all.subrange(0, all.len() as int) == all);
    assert(all.take(0) == Seq::<PluginEntry>::empty());
    while rest.len() > 0
        invariant
            0 <= done <= all.len(),
            rest@ == all.subrange(done, all.len() as int),
            plugins@ == plugins_of(all.take(done), os@),
            failure_views(errors@) == failures_of(all.take(done)),
            warnings.deep_view() == warnings_of(all.take(done), os@),
        decreases rest.len(),
    {
        let entry = rest.remove(0);
        proof {
            assert(entry == all[done]);
            assert(all.take(done + 1).drop_last() == all.take(done));
            assert(all.take(done + 1).last() == entry);
        }
        match entry.outcome {
            Ok(loaded) => {
                if loaded.manifest.supports_current_platform(os) {
                    let ghost before = warnings.deep_view();
                    let previous = path_with_id(&plugins, loaded.manifest.id.as_str());
                    match previous {
                        Some(path) => {
                            let mut message = join3(
                                "duplicate plugin id '",
                                loaded.manifest.id.as_str(),
                                "' in ",
                            );
                            message.append(loaded.path.as_str());
                            message.append(" overrides ");
                            message.append(path.as_str());
                            warnings.push(message);
                            assert(warnings.deep_view() == before + seq![message@]);
                        },
                        None => {
                            assert(before + Seq::<Seq<char>>::empty() == before);
                        },
                    }
                    append_all(&mut warnings, &loaded.warnings);
                    place_plugin(&mut plugins, loaded);
                }
            },
            Err(error) => {
                let ghost before = failure_views(errors@);
                errors.push(PluginLoadFailure { path: entry.path, error });
                assert(failure_views(errors@) == before.push((entry.path@, error@)));
            },
        }
        proof {
            done = done + 1;
            assert(rest@ == all.subrange(done, all.len() as int));
        }
    }
    assert(all.take(done) == all);
    PluginCatalog { plugins, errors, warnings }
}

/// Whether the ids of the plugins rise strictly.
pub open spec fn ids_sorted(list: Seq<LoadedManifest>) -> bool {
    forall|i: int, j: int|
        0 <= i < j < list.len() ==> text_lt(
            #[trigger] list[i].manifest.id@,
            #[trigger] list[j].manifest.id@,
        )
}

proof fn lemma_placed_sorted(list: Seq<LoadedManifest>, l: LoadedManifest)
    requires
        ids_sorted(list),
    ensures
        ids_sorted(plugin_placed(list, l)),
        forall|i: int|
            0 <= i < plugin_placed(list, l).len() ==> (#[trigger] plugin_placed(list, l)[i] == l
                || list.contains(plugin_placed(list, l)[i])),
    decreases list.len(),
{
    if list.len() > 0 {
        let front = list.drop_last();
        let last = list.last();
        assert(ids_sorted(front)) by {
            assert forall|i: int, j: int| 0 <= i < j < front.len() implies text_lt(
                #[trigger] front[i].manifest.id@,
                #[trigger] front[j].manifest.id@,
            ) by {
                assert(text_lt(list[i].manifest.id@, list[j].manifest.id@));
            }
        }
        lemma_placed_sorted(front, l);
        lemma_text_lt_total(l.manifest.id@, last.manifest.id@);
        let r = plugin_placed(list, l);
        if text_lt(l.manifest.id@, last.manifest.id@) {
            let inner = plugin_placed(front, l);
            assert forall|i: int| 0 <= i < inner.len() implies text_lt(
                #[trigger] inner[i].manifest.id@,
                last.manifest.id@,
            ) by {
                if inner[i] != l {
                    let k = choose|k: int| 0 <= k < front.len() && front[k] == inner[i];
                    assert(list[k] == inner[i]);
                    assert(text_lt(list[k].manifest.id@, list[list.len() - 1].manifest.id@));
                }
            }
            assert forall|i: int| 0 <= i < r.len() implies (#[trigger] r[i] == l || list.contains(
                r[i],
            )) by {
                if i < inner.len() {
                    if inner[i] != l {
                        let k = choose|k: int| 0 <= k < front.len() && front[k] == inner[i];
                        assert(list[k] == inner[i]);
                    }
                } else {
                    assert(list[list.len() - 1] == r[i]);
                }
            }
            assert forall|i: int, j: int| 0 <= i < j < r.len() implies text_lt(
                #[trigger] r[i].manifest.id@,
                #[trigger] r[j].manifest.id@,
            ) by {
                if j < inner.len() {
                    assert(text_lt(inner[i].manifest.id@, inner[j].manifest.id@));
                } else {
                    assert(text_lt(inner[i].manifest.id@, last.manifest.id@));
                }
            }
        } else {
            assert forall|i: int, j: int| 0 <= i < j < r.len() implies text_lt(
                #[trigger] r[i].manifest.id@,
                #[trigger] r[j].manifest.id@,
            ) by {
                assert(i < list.len());
                if j < list.len() {
                    assert(text_lt(list[i].manifest.id@, list[j].manifest.id@));
                } else if i < list.len() - 1 {
                    assert(text_lt(list[i].manifest.id@, last.manifest.id@));
                    lemma_text_lt_transitive(
                        list[i].manifest.id@,
                        last.manifest.id@,
                        l.manifest.id@,
                    );
                }
            }
            assert forall|i: int| 0 <= i < r.len() implies (#[trigger] r[i] == l || list.contains(
                r[i],
            )) by {
                if r[i] != l {
                    assert(list[i] == r[i]);
                }
            }
        }
    }
}

/// The plugins of a catalog stand in the order of their ids, and no id stands twice.
pub proof fn catalog_is_sorted_by_id(entries: Seq<PluginEntry>, os: Seq<char>)
    ensures
        ids_sorted(plugins_of(entries, os)),
    decreases entries.len(),
{
    if entries.len() > 0 {
        catalog_is_sorted_by_id(entries.drop_last(), os);
        match entries.last().outcome {
            Ok(l) => {
                lemma_placed_sorted(plugins_of(entries.drop_last(), os), l);
            },
            Err(_) => {},
        }
    }
}

} // verus!
