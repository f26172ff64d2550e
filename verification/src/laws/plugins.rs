//! Plugins: which manifests are taken, what the environment puts into them, and which of them count.
use vstd::prelude::*;

use crate::laws::texts::{the_first_place_is_found, trimming_takes_the_space_off_both_ends};
use crate::plugin::catalog::{
    LoadedManifest, PluginEntry, entries_sorted, entry_placed, failures_of, plugin_placed,
    plugin_with_id, plugins_of, warnings_of,
};
use crate::plugin::expand::{
    aux_files_warned, env_value, env_warning, expanded, expanded_all, expanded_map, expanded_opt,
    identities_warned, identity_warned, login_warned, manifest_expands, manifest_warned, opening,
    session_warned, store_warned, usage_warned, usages_warned, warned, warned_all, warned_items,
    warned_opt,
};
use crate::plugin::{
    AuxFile, CredentialStore, CredentialStoreKind, IdentityExtract, IdentitySource, LoginConfig,
    Manifest, Platform, ReadyMarkerKind, SessionActivationConfig, UsageSource, UsageSourceKind,
    aux_files_problem, aux_problem, fallback_source_problem, identities_problem, identity_problem,
    identity_source_problem, login_problem, manifest_problem, platform_named, session_problem,
    shared_paths_problem, store_problem, supports, usage_problem, usages_problem,
};
use crate::text::{
    decimal_of, find_from, is_space, lemma_find_from, occurs_at, split_once_of, text_lt, trim_of,
};

verus! {

// ---------------------------------------------------------------------------------------------
// What a manifest needs
// ---------------------------------------------------------------------------------------------
/// Whether a text has a character that is not white space.
pub open spec fn says_something(s: Seq<char>) -> bool {
    exists|k: int| 0 <= k < s.len() && !is_space(#[trigger] s[k])
}

proof fn lemma_says_something(s: Seq<char>)
    ensures
        trim_of(s).len() > 0 <==> says_something(s),
{
    let (i, j) = trimming_takes_the_space_off_both_ends(s);
    if i < j {
        assert(trim_of(s)[0] == s[i]);
        assert(!is_space(s[i]));
    }
    if says_something(s) {
        let k = choose|k: int| 0 <= k < s.len() && !is_space(#[trigger] s[k]);
        assert(i <= k < j);
    }
}

/// Whether the place of the credential is fully described for each platform.
pub open spec fn place_is_described(s: CredentialStore, platforms: Seq<Platform>) -> bool {
    match s.kind {
        CredentialStoreKind::File => s.path is Some && s.permissions is Some,
        CredentialStoreKind::Keychain => {
            &&& platforms.contains(Platform::Macos) ==> s.macos_service is Some && s.macos_account
                is Some
            &&& platforms.contains(Platform::Linux) ==> (s.linux_schema is Some
                && s.linux_attributes.deep_view() != Map::<Seq<char>, Seq<char>>::empty()) || (
            s.linux_fallback_kind == Some(CredentialStoreKind::File) && s.linux_fallback_path
                is Some && s.linux_fallback_permissions is Some)
            &&& s.linux_fallback_kind != Some(CredentialStoreKind::Keychain)
        },
    }
}

/// Whether a rule for an identity says where to look, in both of its parts.
pub open spec fn rule_is_described(r: IdentityExtract) -> bool {
    &&& says_something(r.field@)
    &&& match r.source {
        IdentitySource::JsonFile => r.json_file_path is Some && r.json_pointer is Some,
        IdentitySource::JsonValue => r.json_pointer is Some,
        IdentitySource::JwtClaim => r.jwt_from is Some && r.jwt_json_pointer is Some
            && r.claim_pointer is Some,
        IdentitySource::JsonTopKeys => r.json_top_keys_from is Some,
        IdentitySource::Literal => r.literal is Some,
    }
    &&& match r.fallback_source {
        None => true,
        Some(IdentitySource::JsonFile) => r.fallback_json_file_path is Some
            && r.fallback_json_pointer is Some,
        Some(IdentitySource::JsonValue) => r.fallback_json_pointer is Some,
        Some(IdentitySource::JwtClaim) => r.fallback_jwt_from is Some
            && r.fallback_jwt_json_pointer is Some && r.fallback_claim_pointer is Some,
        Some(IdentitySource::JsonTopKeys) => r.fallback_json_top_keys_from is Some,
        Some(IdentitySource::Literal) => r.fallback_literal is Some,
    }
}

/// Whether a source of usage is fully described.
pub open spec fn source_is_described(u: UsageSource) -> bool {
    let none = Map::<Seq<char>, Seq<char>>::empty();
    match u.kind {
        UsageSourceKind::LocalLog => u.path is Some && u.format is Some && u.timestamp_pointer
            is Some && u.metric_map.deep_view() != none,
        UsageSourceKind::ProviderApi => u.method is Some && u.url is Some && (
        u.response_metric_pointer.deep_view() != none || u.response_quota_pointer.deep_view()
            != none),
    }
}

/// Whether a login says what to run and how long to wait for what.
pub open spec fn login_is_described(l: LoginConfig) -> bool {
    &&& l.cmd@.len() > 0
    &&& l.ready_marker_timeout_s > 0
    &&& l.ready_marker_kind == ReadyMarkerKind::File ==> l.ready_marker_path is Some
}

/// Whether the way in which a shell takes an account is described.
pub open spec fn activation_is_described(c: SessionActivationConfig) -> bool {
    &&& says_something(c.env_var@)
    &&& says_something(c.default_home@)
    &&& forall|i: int|
        0 <= i < c.shared_paths@.len() ==> says_something(#[trigger] c.shared_paths@[i]@)
}

proof fn lemma_shared_paths(paths: Seq<Seq<char>>, from: int)
    requires
        0 <= from,
    ensures
        shared_paths_problem(paths, from) is None <==> forall|i: int|
            from <= i < paths.len() ==> says_something(#[trigger] paths[i]),
    decreases paths.len() - from,
{
    if from < paths.len() {
        lemma_says_something(paths[from]);
        lemma_shared_paths(paths, from + 1);
    }
}

proof fn lemma_session(c: SessionActivationConfig)
    ensures
        session_problem(c) is None <==> activation_is_described(c),
{
    let paths = c.shared_paths.deep_view();
    lemma_says_something(c.env_var@);
    lemma_says_something(c.default_home@);
    lemma_shared_paths(paths, 0);
    assert(paths.len() == c.shared_paths@.len());
    assert forall|i: int| 0 <= i < paths.len() implies #[trigger] paths[i]
        == c.shared_paths@[i]@ by {
    }
    if activation_is_described(c) {
        assert forall|i: int| 0 <= i < paths.len() implies says_something(#[trigger] paths[i]) by {
            assert(says_something(c.shared_paths@[i]@));
        }
    }
    if session_problem(c) is None {
        assert forall|i: int| 0 <= i < c.shared_paths@.len() implies says_something(
            #[trigger] c.shared_paths@[i]@,
        ) by {
            assert(says_something(paths[i]));
        }
    }
}

proof fn lemma_aux_files(m: Manifest, from: int)
    requires
        0 <= from,
    ensures
        aux_files_problem(m.aux_files@, from) is None <==> forall|i: int|
            from <= i < m.aux_files@.len() ==> says_something((#[trigger] m.aux_files@[i]).path@),
    decreases m.aux_files@.len() - from,
{
    if from < m.aux_files@.len() {
        lemma_says_something(m.aux_files@[from].path@);
        lemma_aux_files(m, from + 1);
    }
}

proof fn lemma_identities(rules: Seq<IdentityExtract>, from: int)
    requires
        0 <= from,
    ensures
        identities_problem(rules, from) is None <==> forall|i: int|
            from <= i < rules.len() ==> rule_is_described(#[trigger] rules[i]),
    decreases rules.len() - from,
{
    if from < rules.len() {
        lemma_says_something(rules[from].field@);
        lemma_identities(rules, from + 1);
    }
}

proof fn lemma_usages(sources: Seq<UsageSource>, from: int)
    requires
        0 <= from,
    ensures
        usages_problem(sources, from) is None <==> forall|i: int|
            from <= i < sources.len() ==> source_is_described(#[trigger] sources[i]),
    decreases sources.len() - from,
{
    if from < sources.len() {
        lemma_usages(sources, from + 1);
    }
}

proof fn lemma_store(s: CredentialStore, platforms: Seq<Platform>)
    ensures
        store_problem(s, platforms) is None <==> place_is_described(s, platforms),
{
    match s.linux_fallback_kind {
        None => {},
        Some(CredentialStoreKind::File) => {},
        Some(CredentialStoreKind::Keychain) => {},
    }
}

proof fn lemma_login(l: LoginConfig)
    ensures
        login_problem(l) is None <==> login_is_described(l),
{
}

/// A manifest is taken exactly where nothing that it needs is missing.
pub proof fn a_manifest_is_taken_where_nothing_is_missing(m: Manifest)
    ensures
        manifest_problem(m) is None <==> {
            &&& says_something(m.id@)
            &&& says_something(m.display_name@)
            &&& says_something(m.version@)
            &&& says_something(m.author@)
            &&& says_something(m.description@)
            &&& m.platforms@.len() > 0
            &&& place_is_described(m.credential_store, m.platforms@)
            &&& m.session_activation matches Some(c) ==> activation_is_described(c)
            &&& login_is_described(m.login)
            &&& forall|i: int|
                0 <= i < m.aux_files@.len() ==> says_something((#[trigger] m.aux_files@[i]).path@)
            &&& forall|i: int|
                0 <= i < m.identity_extract@.len() ==> rule_is_described(
                    #[trigger] m.identity_extract@[i],
                )
            &&& forall|i: int|
                0 <= i < m.usage_source@.len() ==> source_is_described(
                    #[trigger] m.usage_source@[i],
                )
        },
{
    lemma_says_something(m.id@);
    lemma_says_something(m.display_name@);
    lemma_says_something(m.version@);
    lemma_says_something(m.author@);
    lemma_says_something(m.description@);
    lemma_store(m.credential_store, m.platforms@);
    lemma_login(m.login);
    if let Some(c) = m.session_activation {
        lemma_session(c);
    }
    lemma_aux_files(m, 0);
    lemma_identities(m.identity_extract@, 0);
    lemma_usages(m.usage_source@, 0);
}

/// A manifest that lacks one thing alone is refused by naming that thing.
pub proof fn a_refused_manifest_is_told_what_is_missing(m: Manifest)
    ensures
        !says_something(m.id@) ==> manifest_problem(m) == Some("id"@ + " must not be empty"@),
        says_something(m.id@) && !says_something(m.display_name@) ==> manifest_problem(m) == Some(
            "display_name"@ + " must not be empty"@,
        ),
        says_something(m.id@) && says_something(m.display_name@) && !says_something(m.version@)
            ==> manifest_problem(m) == Some("version"@ + " must not be empty"@),
        says_something(m.id@) && says_something(m.display_name@) && says_something(m.version@)
            && !says_something(m.author@) ==> manifest_problem(m) == Some(
            "author"@ + " must not be empty"@,
        ),
        says_something(m.id@) && says_something(m.display_name@) && says_something(m.version@)
            && says_something(m.author@) && !says_something(m.description@) ==> manifest_problem(m)
            == Some("description"@ + " must not be empty"@),
{
    lemma_says_something(m.id@);
    lemma_says_something(m.display_name@);
    lemma_says_something(m.version@);
    lemma_says_something(m.author@);
    lemma_says_something(m.description@);
}

/// A place for the credential that lacks something is refused by naming it: the first of what a file
/// needs, or of what the keychain of a platform needs, where the plugin is for that platform.
pub proof fn a_refused_place_is_told_what_is_missing(s: CredentialStore, platforms: Seq<Platform>)
    ensures
        s.kind == CredentialStoreKind::File && s.path is None ==> store_problem(s, platforms)
            == Some("credential_store.path"@ + " is required"@),
        s.kind == CredentialStoreKind::File && s.path is Some && s.permissions is None
            ==> store_problem(s, platforms) == Some(
            "credential_store.permissions"@ + " is required"@,
        ),
        s.kind == CredentialStoreKind::Keychain && platforms.contains(Platform::Macos)
            && s.macos_service is None ==> store_problem(s, platforms) == Some(
            "credential_store.macos_service"@ + " is required"@,
        ),
        s.kind == CredentialStoreKind::Keychain && platforms.contains(Platform::Macos)
            && s.macos_service is Some && s.macos_account is None ==> store_problem(s, platforms)
            == Some("credential_store.macos_account"@ + " is required"@),
        s.kind == CredentialStoreKind::Keychain && !platforms.contains(Platform::Macos)
            && platforms.contains(Platform::Linux) && s.linux_schema is None
            && s.linux_fallback_kind is None ==> store_problem(s, platforms) == Some(
            "credential_store on linux requires secret-service fields or a file fallback"@,
        ),
        s.kind == CredentialStoreKind::Keychain && !platforms.contains(Platform::Macos)
            && !platforms.contains(Platform::Linux) && s.linux_fallback_kind == Some(
            CredentialStoreKind::Keychain,
        ) ==> store_problem(s, platforms) == Some(
            "credential_store.linux_fallback_kind currently only supports \"file\""@,
        ),
{
}

/// A login that lacks something is refused by naming it.
pub proof fn a_refused_login_is_told_what_is_missing(l: LoginConfig)
    ensures
        l.cmd@.len() == 0 ==> login_problem(l) == Some("login.cmd must not be empty"@),
        l.cmd@.len() > 0 && l.ready_marker_timeout_s == 0 ==> login_problem(l) == Some(
            "login.ready_marker_timeout_s must be greater than 0"@,
        ),
        l.cmd@.len() > 0 && l.ready_marker_timeout_s > 0 && l.ready_marker_kind
            == ReadyMarkerKind::File && l.ready_marker_path is None ==> login_problem(l) == Some(
            "login.ready_marker_path"@ + " is required"@,
        ),
{
}

/// A source of usage or a rule for an identity that lacks something is refused by naming it, with its
/// number in the list.
pub proof fn a_refused_entry_is_told_by_its_number(u: UsageSource, r: IdentityExtract, i: nat)
    ensures
        u.kind == UsageSourceKind::LocalLog && u.path is None ==> usage_problem(u, i as int)
            == Some("usage_source"@ + "["@ + decimal_of(i) + "]"@ + ".path"@ + " is required"@),
        u.kind == UsageSourceKind::LocalLog && u.path is Some && u.format is None ==> usage_problem(
            u,
            i as int,
        ) == Some("usage_source"@ + "["@ + decimal_of(i) + "]"@ + ".format"@ + " is required"@),
        u.kind == UsageSourceKind::LocalLog && u.path is Some && u.format is Some
            && u.timestamp_pointer is None ==> usage_problem(u, i as int) == Some(
            "usage_source"@ + "["@ + decimal_of(i) + "]"@ + ".timestamp_pointer"@ + " is required"@,
        ),
        u.kind == UsageSourceKind::ProviderApi && u.method is None ==> usage_problem(u, i as int)
            == Some("usage_source"@ + "["@ + decimal_of(i) + "]"@ + ".method"@ + " is required"@),
        u.kind == UsageSourceKind::ProviderApi && u.method is Some && u.url is None
            ==> usage_problem(u, i as int) == Some(
            "usage_source"@ + "["@ + decimal_of(i) + "]"@ + ".url"@ + " is required"@,
        ),
        !says_something(r.field@) ==> identity_problem(r, i as int) == Some(
            "identity_extract"@ + "["@ + decimal_of(i) + "]"@ + ".field"@ + " must not be empty"@,
        ),
        says_something(r.field@) && r.source == IdentitySource::JsonFile && r.json_file_path is None
            ==> identity_problem(r, i as int) == Some(
            "identity_extract"@ + "["@ + decimal_of(i) + "]"@ + ""@ + ".json_file_path"@
                + " is required"@,
        ),
        says_something(r.field@) && r.source == IdentitySource::JsonValue && r.json_pointer is None
            ==> identity_problem(r, i as int) == Some(
            "identity_extract"@ + "["@ + decimal_of(i) + "]"@ + ""@ + ".json_pointer"@
                + " is required"@,
        ),
        says_something(r.field@) && r.source == IdentitySource::Literal && r.literal is None
            ==> identity_problem(r, i as int) == Some(
            "identity_extract"@ + "["@ + decimal_of(i) + "]"@ + ""@ + ".literal"@ + " is required"@,
        ),
{
    lemma_says_something(r.field@);
}

/// A plugin is for this machine exactly where it names the platform of the machine, which is one of
/// three.
pub proof fn plugins_are_for_the_platforms_that_they_name(m: Manifest, os: Seq<char>)
    ensures
        supports(m, os) <==> (os == "macos"@ && m.platforms@.contains(Platform::Macos)) || (os
            == "linux"@ && m.platforms@.contains(Platform::Linux)) || (os == "windows"@
            && m.platforms@.contains(Platform::Windows)),
        platform_named(os) is None <==> os != "macos"@ && os != "linux"@ && os != "windows"@,
{
    reveal_strlit("macos");
    reveal_strlit("linux");
    reveal_strlit("windows");
    assert("macos"@[0] == 'm' && "linux"@[0] == 'l' && "windows"@[0] == 'w');
}

// ---------------------------------------------------------------------------------------------
// What the environment puts into a manifest
// ---------------------------------------------------------------------------------------------
/// A placeholder is replaced by the value of what it names, what stands before it stays, and what
/// follows it is treated in the same way.
pub proof fn a_placeholder_is_replaced(
    before: Seq<char>,
    inner: Seq<char>,
    after: Seq<char>,
    env: Map<Seq<char>, Seq<char>>,
)
    requires
        !before.contains('$'),
        !inner.contains('}'),
    ensures
        ({
            let s = before + seq!['$', '{', 'e', 'n', 'v', ':'] + inner + seq!['}'] + after;
            &&& expanded(s, env) == before + env_value(inner, env) + expanded(after, env)
            &&& warned(s, env) == env_warning(inner, env) + warned(after, env)
        }),
{
    let s = before + seq!['$', '{', 'e', 'n', 'v', ':'] + inner + seq!['}'] + after;
    let n = before.len() as int;
    lemma_find_from(s, opening(), 0);
    assert(s.subrange(n, n + 6) == opening());
    assert(occurs_at(s, opening(), n));
    let i = find_from(s, opening(), 0)->0;
    if i < n {
        assert(s.subrange(i, i + 6)[0] == '$');
        assert(before[i] == '$');
    }
    assert(i == n);
    let rest = s.subrange(i + 6, s.len() as int);
    assert(rest == inner + seq!['}'] + after);
    let m = inner.len() as int;
    lemma_find_from(rest, seq!['}'], 0);
    assert(rest.subrange(m, m + 1) == seq!['}']);
    assert(occurs_at(rest, seq!['}'], m));
    let j = find_from(rest, seq!['}'], 0)->0;
    if j < m {
        assert(rest.subrange(j, j + 1)[0] == '}');
        assert(inner[j] == '}');
    }
    assert(j == m);
    assert(s.subrange(0, i) == before);
    assert(rest.subrange(0, j) == inner);
    assert(rest.subrange(j + 1, rest.len() as int) == after);
}

/// A placeholder without a default stands for the variable, or for nothing, which is warned about,
/// where the variable is not set. One with a default stands for it where the variable is not set or
/// empty, and is never warned about.
pub proof fn a_default_is_for_what_is_not_set(
    name: Seq<char>,
    default: Seq<char>,
    env: Map<Seq<char>, Seq<char>>,
)
    requires
        !name.contains(':'),
    ensures
        env_value(name, env) == if env.contains_key(name) {
            env[name]
        } else {
            ""@
        },
        env.contains_key(name) ==> env_warning(name, env).len() == 0,
        !env.contains_key(name) ==> env_warning(name, env) == seq![
            "environment variable '"@ + name + "' is not set; substituting empty string"@,
        ],
        ({
            let both = name + seq![':', '-'] + default;
            &&& env.contains_key(name) && env[name].len() > 0 ==> env_value(both, env) == env[name]
            &&& !(env.contains_key(name) && env[name].len() > 0) ==> env_value(both, env) == default
            &&& env_warning(both, env).len() == 0
        }),
{
    lemma_without_default(name);
    lemma_with_default(name, default);
}

proof fn lemma_without_default(name: Seq<char>)
    requires
        !name.contains(':'),
    ensures
        split_once_of(name, ":-"@) is None,
{
    reveal_strlit(":-");
    let sep = ":-"@;
    assert(sep[0] == ':' && sep.len() == 2);
    lemma_find_from(name, sep, 0);
    if let Some(k) = find_from(name, sep, 0) {
        assert(name.subrange(k, k + 2)[0] == ':');
        assert(name[k] == ':');
    }
}

proof fn lemma_with_default(name: Seq<char>, default: Seq<char>)
    requires
        !name.contains(':'),
    ensures
        split_once_of(name + seq![':', '-'] + default, ":-"@) == Some((name, default)),
{
    reveal_strlit(":-");
    assert(":-"@ == seq![':', '-']);
    lemma_cut_at(name, ":-"@, default);
}

proof fn lemma_cut_at(name: Seq<char>, sep: Seq<char>, default: Seq<char>)
    requires
        sep.len() == 2,
        !name.contains(sep[0]),
    ensures
        split_once_of(name + sep + default, sep) == Some((name, default)),
{
    let both = name + sep + default;
    let n = name.len() as int;
    the_first_place_is_found(both, sep);
    assert(both.subrange(n, n + sep.len()) == sep);
    let k = find_from(both, sep, 0)->0;
    if k < n {
        assert(both.subrange(k, k + sep.len())[0] == both[k]);
        assert(name[k] == sep[0]);
    }
    assert(both.subrange(0, n) == name);
    assert(both.subrange(n + 2, both.len() as int) == default);
}

/// The environment is put into the texts of a manifest; who it is from, which kinds it names, which
/// numbers it gives and what it asks for stay as they are.
pub proof fn only_texts_take_from_the_environment(
    a: Manifest,
    b: Manifest,
    env: Map<Seq<char>, Seq<char>>,
)
    requires
        manifest_expands(a, b, env),
    ensures
        b.id == a.id && b.display_name == a.display_name && b.version == a.version && b.author
            == a.author && b.description == a.description && b.platforms == a.platforms,
        ({
            let (x, y) = (a.credential_store, b.credential_store);
            &&& y.kind == x.kind && y.permissions == x.permissions && y.linux_fallback_kind
                == x.linux_fallback_kind && y.linux_fallback_permissions
                == x.linux_fallback_permissions && y.allow_empty_active == x.allow_empty_active
            &&& y.path.deep_view() == expanded_opt(x.path, env)
            &&& y.macos_service.deep_view() == expanded_opt(x.macos_service, env)
            &&& y.macos_account.deep_view() == expanded_opt(x.macos_account, env)
            &&& y.linux_schema.deep_view() == expanded_opt(x.linux_schema, env)
            &&& y.linux_fallback_path.deep_view() == expanded_opt(x.linux_fallback_path, env)
            &&& y.linux_attributes.deep_view() == expanded_map(x.linux_attributes.deep_view(), env)
        }),
        a.session_activation is Some <==> b.session_activation is Some,
        a.session_activation is Some ==> b.session_activation->0.env_var@ == expanded(
            a.session_activation->0.env_var@,
            env,
        ) && b.session_activation->0.default_home@ == expanded(
            a.session_activation->0.default_home@,
            env,
        ),
        b.login.ready_marker_kind == a.login.ready_marker_kind,
        b.login.ready_marker_timeout_s == a.login.ready_marker_timeout_s,
        b.login.ready_marker_path.deep_view() == expanded_opt(a.login.ready_marker_path, env),
        b.aux_files@.len() == a.aux_files@.len(),
        forall|i: int|
            0 <= i < a.aux_files@.len() ==> (#[trigger] b.aux_files@[i]).required
                == a.aux_files@[i].required && b.aux_files@[i].kind == a.aux_files@[i].kind
                && b.aux_files@[i].path@ == expanded(a.aux_files@[i].path@, env),
{
    assert forall|i: int| 0 <= i < a.aux_files@.len() implies (
    #[trigger] b.aux_files@[i]).required == a.aux_files@[i].required && b.aux_files@[i].kind
        == a.aux_files@[i].kind && b.aux_files@[i].path@ == expanded(a.aux_files@[i].path@, env) by {
        assert(crate::plugin::expand::aux_expands(a.aux_files@[i], b.aux_files@[i], env));
    }
}

/// Each rule of a manifest keeps its field and its kinds, and its texts take from the environment, each
/// in its own place.
pub proof fn rules_take_from_the_environment_in_place(
    a: Manifest,
    b: Manifest,
    env: Map<Seq<char>, Seq<char>>,
    i: int,
)
    requires
        manifest_expands(a, b, env),
        0 <= i < a.identity_extract@.len(),
    ensures
        b.identity_extract@.len() == a.identity_extract@.len(),
        ({
            let (x, y) = (a.identity_extract@[i], b.identity_extract@[i]);
            &&& y.field == x.field && y.source == x.source && y.fallback_source == x.fallback_source
                && y.jwt_from == x.jwt_from && y.fallback_jwt_from == x.fallback_jwt_from
                && y.json_top_keys_from == x.json_top_keys_from && y.fallback_json_top_keys_from
                == x.fallback_json_top_keys_from
            &&& y.json_file_path.deep_view() == expanded_opt(x.json_file_path, env)
            &&& y.json_pointer.deep_view() == expanded_opt(x.json_pointer, env)
            &&& y.fallback_json_file_path.deep_view() == expanded_opt(x.fallback_json_file_path, env)
            &&& y.fallback_json_pointer.deep_view() == expanded_opt(x.fallback_json_pointer, env)
            &&& y.jwt_json_pointer.deep_view() == expanded_opt(x.jwt_json_pointer, env)
            &&& y.claim_pointer.deep_view() == expanded_opt(x.claim_pointer, env)
            &&& y.fallback_jwt_json_pointer.deep_view() == expanded_opt(
                x.fallback_jwt_json_pointer,
                env,
            )
            &&& y.fallback_claim_pointer.deep_view() == expanded_opt(x.fallback_claim_pointer, env)
            &&& y.literal.deep_view() == expanded_opt(x.literal, env)
            &&& y.fallback_literal.deep_view() == expanded_opt(x.fallback_literal, env)
        }),
{
    assert(crate::plugin::expand::identity_expands(
        a.identity_extract@[i],
        b.identity_extract@[i],
        env,
    ));
}

/// Each source of usage keeps its kind, its format and its lifetime, and its texts take from the
/// environment, each in its own place.
pub proof fn sources_take_from_the_environment_in_place(
    a: Manifest,
    b: Manifest,
    env: Map<Seq<char>, Seq<char>>,
    i: int,
)
    requires
        manifest_expands(a, b, env),
        0 <= i < a.usage_source@.len(),
    ensures
        b.usage_source@.len() == a.usage_source@.len(),
        ({
            let (x, y) = (a.usage_source@[i], b.usage_source@[i]);
            &&& y.kind == x.kind && y.cache_ttl_s == x.cache_ttl_s && y.format == x.format
            &&& y.method.deep_view() == expanded_opt(x.method, env)
            &&& y.url.deep_view() == expanded_opt(x.url, env)
            &&& y.path.deep_view() == expanded_opt(x.path, env)
            &&& y.timestamp_pointer.deep_view() == expanded_opt(x.timestamp_pointer, env)
            &&& y.record_filter.deep_view() == expanded_opt(x.record_filter, env)
            &&& y.default_window.deep_view() == expanded_opt(x.default_window, env)
            &&& y.headers.deep_view() == expanded_map(x.headers.deep_view(), env)
            &&& y.response_metric_pointer.deep_view() == expanded_map(
                x.response_metric_pointer.deep_view(),
                env,
            )
            &&& y.response_quota_pointer.deep_view() == expanded_map(
                x.response_quota_pointer.deep_view(),
                env,
            )
            &&& y.metric_map.deep_view() == expanded_map(x.metric_map.deep_view(), env)
        }),
{
    assert(crate::plugin::expand::usage_expands(a.usage_source@[i], b.usage_source@[i], env));
}

/// Values of a map take from the environment, keys do not.
pub proof fn keys_do_not_take_from_the_environment(
    m: Map<Seq<char>, Seq<char>>,
    env: Map<Seq<char>, Seq<char>>,
    key: Seq<char>,
    text: String,
)
    ensures
        expanded_map(m, env).contains_key(key) <==> m.contains_key(key),
        m.contains_key(key) ==> expanded_map(m, env)[key] == expanded(m[key], env),
        expanded_opt(Some(text), env) == Some(expanded(text@, env)),
        expanded_opt(None, env) is None,
{
}

proof fn lemma_in_either(x: Seq<Seq<char>>, y: Seq<Seq<char>>, w: Seq<char>)
    ensures
        (x + y).contains(w) <==> x.contains(w) || y.contains(w),
{
    let all = x + y;
    if all.contains(w) {
        let k = choose|k: int| 0 <= k < all.len() && all[k] == w;
        if k < x.len() {
            assert(x[k] == w);
        } else {
            assert(y[k - x.len()] == w);
        }
    }
    if x.contains(w) {
        let k = choose|k: int| 0 <= k < x.len() && x[k] == w;
        assert(all[k] == w);
    }
    if y.contains(w) {
        let k = choose|k: int| 0 <= k < y.len() && y[k] == w;
        assert(all[k + x.len()] == w);
    }
}

/// Whether a text is warned about.
pub open spec fn warns(s: Option<String>, env: Map<Seq<char>, Seq<char>>, w: Seq<char>) -> bool {
    s is Some && warned(s->0@, env).contains(w)
}

/// The place of the credential is warned about for each of its texts, and for nothing else.
pub proof fn each_text_of_a_place_is_warned_about(
    a: CredentialStore,
    env: Map<Seq<char>, Seq<char>>,
    w: Seq<char>,
)
    ensures
        store_warned(a, env).contains(w) <==> warns(a.path, env, w) || warns(a.macos_service, env, w)
            || warns(a.macos_account, env, w) || warns(a.linux_schema, env, w) || warns(
            a.linux_fallback_path,
            env,
            w,
        ) || warned_items(a.linux_attributes.items(), env).contains(w),
{
    let p1 = warned_opt(a.path, env);
    let p2 = p1 + warned_opt(a.macos_service, env);
    let p3 = p2 + warned_opt(a.macos_account, env);
    let p4 = p3 + warned_opt(a.linux_schema, env);
    let p5 = p4 + warned_opt(a.linux_fallback_path, env);
    lemma_in_either(p1, warned_opt(a.macos_service, env), w);
    lemma_in_either(p2, warned_opt(a.macos_account, env), w);
    lemma_in_either(p3, warned_opt(a.linux_schema, env), w);
    lemma_in_either(p4, warned_opt(a.linux_fallback_path, env), w);
    lemma_in_either(p5, warned_items(a.linux_attributes.items(), env), w);
}

/// A rule for an identity is warned about for each of its texts but the field, and for nothing else.
pub proof fn each_text_of_a_rule_is_warned_about(
    a: IdentityExtract,
    env: Map<Seq<char>, Seq<char>>,
    w: Seq<char>,
)
    ensures
        identity_warned(a, env).contains(w) <==> warns(a.json_file_path, env, w) || warns(
            a.fallback_json_file_path,
            env,
            w,
        ) || warns(a.json_pointer, env, w) || warns(a.fallback_json_pointer, env, w) || warns(
            a.jwt_json_pointer,
            env,
            w,
        ) || warns(a.fallback_jwt_json_pointer, env, w) || warns(a.claim_pointer, env, w) || warns(
            a.fallback_claim_pointer,
            env,
            w,
        ) || warns(a.literal, env, w) || warns(a.fallback_literal, env, w),
{
    let p1 = warned_opt(a.json_file_path, env);
    let p2 = p1 + warned_opt(a.fallback_json_file_path, env);
    let p3 = p2 + warned_opt(a.json_pointer, env);
    let p4 = p3 + warned_opt(a.fallback_json_pointer, env);
    let p5 = p4 + warned_opt(a.jwt_json_pointer, env);
    let p6 = p5 + warned_opt(a.fallback_jwt_json_pointer, env);
    let p7 = p6 + warned_opt(a.claim_pointer, env);
    let p8 = p7 + warned_opt(a.fallback_claim_pointer, env);
    let p9 = p8 + warned_opt(a.literal, env);
    lemma_in_either(p1, warned_opt(a.fallback_json_file_path, env), w);
    lemma_in_either(p2, warned_opt(a.json_pointer, env), w);
    lemma_in_either(p3, warned_opt(a.fallback_json_pointer, env), w);
    lemma_in_either(p4, warned_opt(a.jwt_json_pointer, env), w);
    lemma_in_either(p5, warned_opt(a.fallback_jwt_json_pointer, env), w);
    lemma_in_either(p6, warned_opt(a.claim_pointer, env), w);
    lemma_in_either(p7, warned_opt(a.fallback_claim_pointer, env), w);
    lemma_in_either(p8, warned_opt(a.literal, env), w);
    lemma_in_either(p9, warned_opt(a.fallback_literal, env), w);
}

/// A source of usage is warned about for each of its texts and for the values of its tables, and for
/// nothing else.
pub proof fn each_text_of_a_source_is_warned_about(
    a: UsageSource,
    env: Map<Seq<char>, Seq<char>>,
    w: Seq<char>,
)
    ensures
        usage_warned(a, env).contains(w) <==> warns(a.method, env, w) || warns(a.url, env, w)
            || warns(a.path, env, w) || warns(a.timestamp_pointer, env, w) || warns(
            a.record_filter,
            env,
            w,
        ) || warns(a.default_window, env, w) || warned_items(a.headers.items(), env).contains(w)
            || warned_items(a.response_metric_pointer.items(), env).contains(w) || warned_items(
            a.response_quota_pointer.items(),
            env,
        ).contains(w) || warned_items(a.metric_map.items(), env).contains(w),
{
    let p1 = warned_opt(a.method, env);
    let p2 = p1 + warned_opt(a.url, env);
    let p3 = p2 + warned_opt(a.path, env);
    let p4 = p3 + warned_opt(a.timestamp_pointer, env);
    let p5 = p4 + warned_opt(a.record_filter, env);
    let p6 = p5 + warned_opt(a.default_window, env);
    let p7 = p6 + warned_items(a.headers.items(), env);
    let p8 = p7 + warned_items(a.response_metric_pointer.items(), env);
    let p9 = p8 + warned_items(a.response_quota_pointer.items(), env);
    lemma_in_either(p1, warned_opt(a.url, env), w);
    lemma_in_either(p2, warned_opt(a.path, env), w);
    lemma_in_either(p3, warned_opt(a.timestamp_pointer, env), w);
    lemma_in_either(p4, warned_opt(a.record_filter, env), w);
    lemma_in_either(p5, warned_opt(a.default_window, env), w);
    lemma_in_either(p6, warned_items(a.headers.items(), env), w);
    lemma_in_either(p7, warned_items(a.response_metric_pointer.items(), env), w);
    lemma_in_either(p8, warned_items(a.response_quota_pointer.items(), env), w);
    lemma_in_either(p9, warned_items(a.metric_map.items(), env), w);
}

/// A table is warned about for each of its values.
pub proof fn each_value_of_a_table_is_warned_about(
    items: Seq<(Seq<char>, Seq<char>)>,
    env: Map<Seq<char>, Seq<char>>,
    w: Seq<char>,
)
    ensures
        warned_items(items, env).contains(w) <==> exists|i: int|
            0 <= i < items.len() && warned((#[trigger] items[i]).1, env).contains(w),
    decreases items.len(),
{
    if items.len() > 0 {
        let front = items.drop_last();
        each_value_of_a_table_is_warned_about(front, env, w);
        lemma_in_either(warned_items(front, env), warned(items.last().1, env), w);
        assert(items[items.len() - 1] == items.last());
        if exists|i: int| 0 <= i < front.len() && warned((#[trigger] front[i]).1, env).contains(w) {
            let i = choose|i: int|
                0 <= i < front.len() && warned((#[trigger] front[i]).1, env).contains(w);
            assert(items[i] == front[i]);
        }
        if exists|i: int| 0 <= i < items.len() && warned((#[trigger] items[i]).1, env).contains(w) {
            let i = choose|i: int|
                0 <= i < items.len() && warned((#[trigger] items[i]).1, env).contains(w);
            if i < front.len() {
                assert(front[i] == items[i]);
            }
        }
    }
}

/// A list of texts is warned about for each of them.
pub proof fn each_text_of_a_list_is_warned_about(
    list: Seq<Seq<char>>,
    env: Map<Seq<char>, Seq<char>>,
    w: Seq<char>,
)
    ensures
        warned_all(list, env).contains(w) <==> exists|i: int|
            0 <= i < list.len() && warned(#[trigger] list[i], env).contains(w),
        expanded_all(list, env).len() == list.len(),
        forall|i: int|
            0 <= i < list.len() ==> #[trigger] expanded_all(list, env)[i] == expanded(list[i], env),
    decreases list.len(),
{
    if list.len() > 0 {
        let front = list.drop_last();
        each_text_of_a_list_is_warned_about(front, env, w);
        lemma_in_either(warned_all(front, env), warned(list.last(), env), w);
        assert(list[list.len() - 1] == list.last());
        if exists|i: int| 0 <= i < front.len() && warned(#[trigger] front[i], env).contains(w) {
            let i = choose|i: int|
                0 <= i < front.len() && warned(#[trigger] front[i], env).contains(w);
            assert(list[i] == front[i]);
        }
        if exists|i: int| 0 <= i < list.len() && warned(#[trigger] list[i], env).contains(w) {
            let i = choose|i: int|
                0 <= i < list.len() && warned(#[trigger] list[i], env).contains(w);
            if i < front.len() {
                assert(front[i] == list[i]);
            }
        }
    }
}

proof fn lemma_aux_warned(m: Manifest, n: int, env: Map<Seq<char>, Seq<char>>, w: Seq<char>)
    requires
        0 <= n <= m.aux_files@.len(),
    ensures
        aux_files_warned(m.aux_files@.take(n), env).contains(w) <==> exists|i: int|
            0 <= i < n && warned((#[trigger] m.aux_files@[i]).path@, env).contains(w),
    decreases n,
{
    let part = m.aux_files@.take(n);
    if n > 0 {
        lemma_aux_warned(m, n - 1, env, w);
        assert(part.drop_last() == m.aux_files@.take(n - 1));
        assert(part.last() == m.aux_files@[n - 1]);
        lemma_in_either(
            aux_files_warned(part.drop_last(), env),
            warned(part.last().path@, env),
            w,
        );
    }
}

proof fn lemma_rules_warned(m: Manifest, n: int, env: Map<Seq<char>, Seq<char>>, w: Seq<char>)
    requires
        0 <= n <= m.identity_extract@.len(),
    ensures
        identities_warned(m.identity_extract@.take(n), env).contains(w) <==> exists|i: int|
            0 <= i < n && identity_warned(#[trigger] m.identity_extract@[i], env).contains(w),
    decreases n,
{
    let part = m.identity_extract@.take(n);
    if n > 0 {
        lemma_rules_warned(m, n - 1, env, w);
        assert(part.drop_last() == m.identity_extract@.take(n - 1));
        assert(part.last() == m.identity_extract@[n - 1]);
        lemma_in_either(
            identities_warned(part.drop_last(), env),
            identity_warned(part.last(), env),
            w,
        );
    }
}

proof fn lemma_sources_warned(m: Manifest, n: int, env: Map<Seq<char>, Seq<char>>, w: Seq<char>)
    requires
        0 <= n <= m.usage_source@.len(),
    ensures
        usages_warned(m.usage_source@.take(n), env).contains(w) <==> exists|i: int|
            0 <= i < n && usage_warned(#[trigger] m.usage_source@[i], env).contains(w),
    decreases n,
{
    let part = m.usage_source@.take(n);
    if n > 0 {
        lemma_sources_warned(m, n - 1, env, w);
        assert(part.drop_last() == m.usage_source@.take(n - 1));
        assert(part.last() == m.usage_source@[n - 1]);
        lemma_in_either(usages_warned(part.drop_last(), env), usage_warned(part.last(), env), w);
    }
}

/// A manifest is warned about for its place of the credential, for the home of its shell, for its login,
/// for each of its files, of its rules and of its sources, and for nothing else.
pub proof fn each_part_of_a_manifest_is_warned_about(
    m: Manifest,
    env: Map<Seq<char>, Seq<char>>,
    w: Seq<char>,
)
    ensures
        manifest_warned(m, env).contains(w) <==> {
            ||| store_warned(m.credential_store, env).contains(w)
            ||| (m.session_activation matches Some(c) && (warned(c.env_var@, env).contains(w)
                || warned(c.default_home@, env).contains(w) || warned_all(
                c.shared_paths.deep_view(),
                env,
            ).contains(w)))
            ||| warned_all(m.login.cmd.deep_view(), env).contains(w)
            ||| warns(m.login.ready_marker_path, env, w)
            ||| (exists|i: int|
                0 <= i < m.aux_files@.len() && warned(
                    (#[trigger] m.aux_files@[i]).path@,
                    env,
                ).contains(w))
            ||| (exists|i: int|
                0 <= i < m.identity_extract@.len() && identity_warned(
                    #[trigger] m.identity_extract@[i],
                    env,
                ).contains(w))
            ||| (exists|i: int|
                0 <= i < m.usage_source@.len() && usage_warned(
                    #[trigger] m.usage_source@[i],
                    env,
                ).contains(w))
        },
{
    let session = match m.session_activation {
        Some(c) => session_warned(c, env),
        None => seq![],
    };
    let p1 = store_warned(m.credential_store, env);
    let p2 = p1 + session;
    let p3 = p2 + login_warned(m.login, env);
    let p4 = p3 + aux_files_warned(m.aux_files@, env);
    let p5 = p4 + identities_warned(m.identity_extract@, env);
    lemma_in_either(p1, session, w);
    lemma_in_either(p2, login_warned(m.login, env), w);
    lemma_in_either(p3, aux_files_warned(m.aux_files@, env), w);
    lemma_in_either(p4, identities_warned(m.identity_extract@, env), w);
    lemma_in_either(p5, usages_warned(m.usage_source@, env), w);
    lemma_in_either(
        warned_all(m.login.cmd.deep_view(), env),
        warned_opt(m.login.ready_marker_path, env),
        w,
    );
    if let Some(c) = m.session_activation {
        lemma_in_either(warned(c.env_var@, env), warned(c.default_home@, env), w);
        lemma_in_either(
            warned(c.env_var@, env) + warned(c.default_home@, env),
            warned_all(c.shared_paths.deep_view(), env),
            w,
        );
    }
    lemma_aux_warned(m, m.aux_files@.len() as int, env, w);
    lemma_rules_warned(m, m.identity_extract@.len() as int, env, w);
    lemma_sources_warned(m, m.usage_source@.len() as int, env, w);
    assert(m.aux_files@.take(m.aux_files@.len() as int) == m.aux_files@);
    assert(m.identity_extract@.take(m.identity_extract@.len() as int) == m.identity_extract@);
    assert(m.usage_source@.take(m.usage_source@.len() as int) == m.usage_source@);
}

// ---------------------------------------------------------------------------------------------
// Which plugins count
// ---------------------------------------------------------------------------------------------
proof fn lemma_entry_placed(list: Seq<PluginEntry>, e: PluginEntry)
    requires
        forall|i: int, j: int|
            0 <= i < j < list.len() ==> !text_lt(
                #[trigger] list[j].name@,
                #[trigger] list[i].name@,
            ),
    ensures
        entry_placed(list, e).to_multiset() =~= list.to_multiset().insert(e),
        forall|i: int, j: int|
            0 <= i < j < entry_placed(list, e).len() ==> !text_lt(
                #[trigger] entry_placed(list, e)[j].name@,
                #[trigger] entry_placed(list, e)[i].name@,
            ),
        entry_placed(list, e).len() == list.len() + 1,
    decreases list.len(),
{
    broadcast use vstd::seq_lib::group_to_multiset_ensures;

    let all = entry_placed(list, e);
    if list.len() > 0 && text_lt(e.name@, list.last().name@) {
        let front = list.drop_last();
        assert forall|i: int, j: int| 0 <= i < j < front.len() implies !text_lt(
            #[trigger] front[j].name@,
            #[trigger] front[i].name@,
        ) by {
            assert(!text_lt(list[j].name@, list[i].name@));
        }
        lemma_entry_placed(front, e);
        let placed = entry_placed(front, e);
        assert(front.push(list.last()) == list);
        assert(list.to_multiset() =~= front.to_multiset().insert(list.last()));
        assert(all.to_multiset() =~= placed.to_multiset().insert(list.last()));
        assert forall|i: int, j: int| 0 <= i < j < all.len() implies !text_lt(
            #[trigger] all[j].name@,
            #[trigger] all[i].name@,
        ) by {
            if j < placed.len() {
                assert(!text_lt(placed[j].name@, placed[i].name@));
            } else {
                assert(placed.to_multiset().contains(placed[i])) by {
                    assert(placed.contains(placed[i]));
                }
                if placed[i] == e {
                    if text_lt(list.last().name@, e.name@) {
                        crate::text::lemma_text_lt_transitive(
                            e.name@,
                            list.last().name@,
                            e.name@,
                        );
                        crate::text::lemma_text_lt_irreflexive(e.name@);
                    }
                } else {
                    assert(front.to_multiset().contains(placed[i]));
                    assert(front.contains(placed[i]));
                    let m = choose|m: int| 0 <= m < front.len() && front[m] == placed[i];
                    assert(!text_lt(list[list.len() - 1].name@, list[m].name@));
                }
            }
        }
    } else {
        assert forall|i: int, j: int| 0 <= i < j < all.len() implies !text_lt(
            #[trigger] all[j].name@,
            #[trigger] all[i].name@,
        ) by {
            if j < list.len() {
                assert(!text_lt(list[j].name@, list[i].name@));
            } else if text_lt(e.name@, list[i].name@) {
                if i < list.len() - 1 {
                    assert(!text_lt(list[list.len() - 1].name@, list[i].name@));
                    crate::text::lemma_text_lt_total(list[i].name@, list.last().name@);
                    if list[i].name@ != list.last().name@ {
                        crate::text::lemma_text_lt_transitive(
                            e.name@,
                            list[i].name@,
                            list.last().name@,
                        );
                    }
                }
            }
        }
    }
}

/// Files are looked at in the order of their names, each of them once.
pub proof fn files_are_looked_at_by_name(entries: Seq<PluginEntry>)
    ensures
        entries_sorted(entries).to_multiset() =~= entries.to_multiset(),
        forall|i: int, j: int|
            0 <= i < j < entries_sorted(entries).len() ==> !text_lt(
                #[trigger] entries_sorted(entries)[j].name@,
                #[trigger] entries_sorted(entries)[i].name@,
            ),
    decreases entries.len(),
{
    broadcast use vstd::seq_lib::group_to_multiset_ensures;

    if entries.len() > 0 {
        let front = entries.drop_last();
        files_are_looked_at_by_name(front);
        lemma_entry_placed(entries_sorted(front), entries.last());
        assert(front.push(entries.last()) == entries);
    }
}

/// Whether a file holds a plugin for the machine.
pub open spec fn holds_plugin(e: PluginEntry, os: Seq<char>) -> bool {
    e.outcome matches Ok(l) && supports(l.manifest, os)
}

proof fn lemma_plugin_placed(list: Seq<LoadedManifest>, l: LoadedManifest)
    requires
        crate::plugin::catalog::ids_sorted(list),
    ensures
        forall|x: LoadedManifest| #[trigger]
            plugin_placed(list, l).contains(x) <==> (x == l || (list.contains(x) && x.manifest.id@
                != l.manifest.id@)),
        crate::plugin::catalog::ids_sorted(plugin_placed(list, l)),
    decreases list.len(),
{
    let all = plugin_placed(list, l);
    let id = l.manifest.id@;
    if list.len() == 0 {
        assert(all[0] == l);
    } else {
        let front = list.drop_last();
        let last = list.last();
        assert forall|i: int, j: int| 0 <= i < j < front.len() implies text_lt(
            #[trigger] front[i].manifest.id@,
            #[trigger] front[j].manifest.id@,
        ) by {
            assert(text_lt(list[i].manifest.id@, list[j].manifest.id@));
        }
        assert forall|x: LoadedManifest| list.contains(x) <==> (#[trigger] front.contains(x) || x
            == last) by {
            if list.contains(x) {
                let k = choose|k: int| 0 <= k < list.len() && list[k] == x;
                if k < front.len() {
                    assert(front[k] == x);
                }
            }
            if front.contains(x) {
                let k = choose|k: int| 0 <= k < front.len() && front[k] == x;
                assert(list[k] == x);
            }
            assert(list[list.len() - 1] == last);
        }
        assert forall|x: LoadedManifest| #[trigger] front.contains(x) implies text_lt(
            x.manifest.id@,
            last.manifest.id@,
        ) by {
            let k = choose|k: int| 0 <= k < front.len() && front[k] == x;
            assert(text_lt(list[k].manifest.id@, list[list.len() - 1].manifest.id@));
        }
        crate::text::lemma_text_lt_irreflexive(id);
        crate::text::lemma_text_lt_irreflexive(last.manifest.id@);
        crate::text::lemma_text_lt_total(id, last.manifest.id@);
        if text_lt(id, last.manifest.id@) {
            lemma_plugin_placed(front, l);
            let placed = plugin_placed(front, l);
            assert forall|x: LoadedManifest| #[trigger] all.contains(x) <==> (placed.contains(x)
                || x == last) by {
                if all.contains(x) {
                    let k = choose|k: int| 0 <= k < all.len() && all[k] == x;
                    if k < placed.len() {
                        assert(placed[k] == x);
                    }
                }
                if placed.contains(x) {
                    let k = choose|k: int| 0 <= k < placed.len() && placed[k] == x;
                    assert(all[k] == x);
                }
                assert(all[all.len() - 1] == last);
            }
            assert forall|i: int, j: int| 0 <= i < j < all.len() implies text_lt(
                #[trigger] all[i].manifest.id@,
                #[trigger] all[j].manifest.id@,
            ) by {
                if j < placed.len() {
                    assert(text_lt(placed[i].manifest.id@, placed[j].manifest.id@));
                } else {
                    assert(placed.contains(placed[i]));
                    assert(placed[i] == l || front.contains(placed[i]));
                }
            }
            assert forall|x: LoadedManifest| #[trigger] all.contains(x) <==> (x == l || (
            list.contains(x) && x.manifest.id@ != id)) by {
                assert(front.contains(x) || !front.contains(x));
                assert(placed.contains(x) || !placed.contains(x));
            }
        } else if id == last.manifest.id@ {
            assert forall|x: LoadedManifest| #[trigger] all.contains(x) <==> (front.contains(x)
                || x == l) by {
                if all.contains(x) {
                    let k = choose|k: int| 0 <= k < all.len() && all[k] == x;
                    if k < front.len() {
                        assert(front[k] == x);
                    }
                }
                if front.contains(x) {
                    let k = choose|k: int| 0 <= k < front.len() && front[k] == x;
                    assert(all[k] == x);
                }
                assert(all[all.len() - 1] == l);
            }
            assert forall|x: LoadedManifest| #[trigger] all.contains(x) <==> (x == l || (
            list.contains(x) && x.manifest.id@ != id)) by {
                assert(front.contains(x) || !front.contains(x));
            }
            assert forall|i: int, j: int| 0 <= i < j < all.len() implies text_lt(
                #[trigger] all[i].manifest.id@,
                #[trigger] all[j].manifest.id@,
            ) by {
                assert(text_lt(list[i].manifest.id@, list[j].manifest.id@));
            }
        } else {
            assert forall|x: LoadedManifest| #[trigger] all.contains(x) <==> (list.contains(x) || x
                == l) by {
                if all.contains(x) {
                    let k = choose|k: int| 0 <= k < all.len() && all[k] == x;
                    if k < list.len() {
                        assert(list[k] == x);
                    }
                }
                if list.contains(x) {
                    let k = choose|k: int| 0 <= k < list.len() && list[k] == x;
                    assert(all[k] == x);
                }
                assert(all[all.len() - 1] == l);
            }
            assert forall|x: LoadedManifest| #[trigger] all.contains(x) <==> (x == l || (
            list.contains(x) && x.manifest.id@ != id)) by {
                if list.contains(x) {
                    assert(front.contains(x) || x == last);
                    if front.contains(x) && x.manifest.id@ == id {
                        crate::text::lemma_text_lt_transitive(id, last.manifest.id@, id);
                    }
                }
            }
            assert forall|i: int, j: int| 0 <= i < j < all.len() implies text_lt(
                #[trigger] all[i].manifest.id@,
                #[trigger] all[j].manifest.id@,
            ) by {
                if j < list.len() {
                    assert(text_lt(list[i].manifest.id@, list[j].manifest.id@));
                } else if i < list.len() - 1 {
                    assert(text_lt(list[i].manifest.id@, list[list.len() - 1].manifest.id@));
                    crate::text::lemma_text_lt_transitive(
                        list[i].manifest.id@,
                        last.manifest.id@,
                        id,
                    );
                }
            }
        }
    }
}

/// Whether a file holds a plugin, and no later file holds one of the same id for the machine.
pub open spec fn counts(entries: Seq<PluginEntry>, os: Seq<char>, i: int, l: LoadedManifest) -> bool {
    &&& 0 <= i < entries.len()
    &&& entries[i].outcome == Ok::<LoadedManifest, String>(l)
    &&& supports(l.manifest, os)
    &&& forall|j: int|
        i < j < entries.len() && holds_plugin(#[trigger] entries[j], os)
            ==> entries[j].outcome->Ok_0.manifest.id@ != l.manifest.id@
}

/// The catalog holds exactly the plugins for the machine that were read, and of those with one id the
/// last alone.
pub proof fn the_last_of_doubled_plugins_counts(
    entries: Seq<PluginEntry>,
    os: Seq<char>,
    l: LoadedManifest,
)
    ensures
        plugins_of(entries, os).contains(l) <==> exists|i: int| counts(entries, os, i, l),
        crate::plugin::catalog::ids_sorted(plugins_of(entries, os)),
    decreases entries.len(),
{
    if entries.len() > 0 {
        let front = entries.drop_last();
        let n = front.len() as int;
        the_last_of_doubled_plugins_counts(front, os, l);
        assert(entries[n] == entries.last());
        if holds_plugin(entries.last(), os) {
            let m = entries.last().outcome->Ok_0;
            lemma_plugin_placed(plugins_of(front, os), m);
            assert(plugins_of(entries, os).contains(l) <==> (l == m || (plugins_of(
                front,
                os,
            ).contains(l) && l.manifest.id@ != m.manifest.id@)));
            if l == m {
                assert(counts(entries, os, n, l));
            }
            if plugins_of(front, os).contains(l) && l.manifest.id@ != m.manifest.id@ {
                let i = choose|i: int| counts(front, os, i, l);
                assert(counts(entries, os, i, l)) by {
                    assert forall|j: int| i < j < entries.len() && holds_plugin(
                        #[trigger] entries[j],
                        os,
                    ) implies entries[j].outcome->Ok_0.manifest.id@ != l.manifest.id@ by {
                        if j < n {
                            assert(front[j] == entries[j]);
                        }
                    }
                }
            }
            if exists|i: int| counts(entries, os, i, l) {
                let i = choose|i: int| counts(entries, os, i, l);
                if i < n {
                    assert(holds_plugin(entries[n], os));
                    assert(counts(front, os, i, l)) by {
                        assert(front[i] == entries[i]);
                        assert forall|j: int| i < j < front.len() && holds_plugin(
                            #[trigger] front[j],
                            os,
                        ) implies front[j].outcome->Ok_0.manifest.id@ != l.manifest.id@ by {
                            assert(front[j] == entries[j]);
                        }
                    }
                }
            }
        } else {
            assert(plugins_of(entries, os) == plugins_of(front, os));
            if plugins_of(front, os).contains(l) {
                let i = choose|i: int| counts(front, os, i, l);
                assert(counts(entries, os, i, l)) by {
                    assert forall|j: int| i < j < entries.len() && holds_plugin(
                        #[trigger] entries[j],
                        os,
                    ) implies entries[j].outcome->Ok_0.manifest.id@ != l.manifest.id@ by {
                        if j < n {
                            assert(front[j] == entries[j]);
                        }
                    }
                }
            }
            if exists|i: int| counts(entries, os, i, l) {
                let i = choose|i: int| counts(entries, os, i, l);
                assert(i < n);
                assert(counts(front, os, i, l)) by {
                    assert(front[i] == entries[i]);
                    assert forall|j: int| i < j < front.len() && holds_plugin(
                        #[trigger] front[j],
                        os,
                    ) implies front[j].outcome->Ok_0.manifest.id@ != l.manifest.id@ by {
                        assert(front[j] == entries[j]);
                    }
                }
            }
        }
    }
}

/// A file that cannot be read as a plugin is reported with what was wrong, and no other is.
pub proof fn each_unreadable_file_is_reported(
    entries: Seq<PluginEntry>,
    path: Seq<char>,
    error: Seq<char>,
)
    ensures
        failures_of(entries).contains((path, error)) <==> exists|i: int|
            0 <= i < entries.len() && failed_with(#[trigger] entries[i], path, error),
    decreases entries.len(),
{
    if entries.len() > 0 {
        let front = entries.drop_last();
        each_unreadable_file_is_reported(front, path, error);
        let before = failures_of(front);
        let all = failures_of(entries);
        let x = (path, error);
        assert(entries[entries.len() - 1] == entries.last());
        if before.contains(x) {
            let k = choose|k: int| 0 <= k < before.len() && before[k] == x;
            assert(all[k] == x);
            let i = choose|i: int|
                0 <= i < front.len() && failed_with(#[trigger] front[i], path, error);
            assert(entries[i] == front[i]);
        }
        if all.contains(x) {
            let k = choose|k: int| 0 <= k < all.len() && all[k] == x;
            if k < before.len() {
                assert(before[k] == x);
            } else {
                assert(failed_with(entries.last(), path, error));
            }
        }
        if exists|i: int| 0 <= i < entries.len() && failed_with(#[trigger] entries[i], path, error) {
            let i = choose|i: int|
                0 <= i < entries.len() && failed_with(#[trigger] entries[i], path, error);
            if i < front.len() {
                assert(front[i] == entries[i]);
            } else {
                assert(all[all.len() - 1] == x);
            }
        }
    }
}

/// Whether a file could not be read as a plugin, and what was wrong with it.
pub open spec fn failed_with(e: PluginEntry, path: Seq<char>, error: Seq<char>) -> bool {
    e.path@ == path && (e.outcome matches Err(what) && what@ == error)
}

/// A plugin that takes the place of an earlier one is warned about, with both of the files, before what
/// it warns of itself. One for another machine is passed over.
pub proof fn taking_a_place_is_warned_about(
    entries: Seq<PluginEntry>,
    e: PluginEntry,
    os: Seq<char>,
    l: LoadedManifest,
)
    ensures
        ({
            let before = warnings_of(entries, os);
            let after = warnings_of(entries.push(e), os);
            let had = plugin_with_id(plugins_of(entries, os), l.manifest.id@);
            &&& !holds_plugin(e, os) ==> after == before
            &&& e.outcome == Ok::<LoadedManifest, String>(l) && supports(l.manifest, os) && had
                is None ==> after == before + l.warnings.deep_view()
            &&& e.outcome == Ok::<LoadedManifest, String>(l) && supports(l.manifest, os) && had
                is Some ==> after == before.push(
                "duplicate plugin id '"@ + l.manifest.id@ + "' in "@ + l.path@ + " overrides "@
                    + had->0.path@,
            ) + l.warnings.deep_view()
        }),
{
    assert(entries.push(e).drop_last() == entries);
    assert(entries.push(e).last() == e);
}

/// What is found under an id is a plugin of the list that has the id; where nothing is found, none has.
pub proof fn a_plugin_is_found_by_its_id(list: Seq<LoadedManifest>, id: Seq<char>)
    ensures
        plugin_with_id(list, id) matches Some(l) ==> list.contains(l) && l.manifest.id@ == id,
        plugin_with_id(list, id) is None ==> forall|i: int|
            0 <= i < list.len() ==> (#[trigger] list[i]).manifest.id@ != id,
    decreases list.len(),
{
    if list.len() > 0 {
        assert(list[list.len() - 1] == list.last());
        let front = list.drop_last();
        a_plugin_is_found_by_its_id(front, id);
        if let Some(l) = plugin_with_id(front, id) {
            let k = choose|k: int| 0 <= k < front.len() && front[k] == l;
            assert(list[k] == l);
        }
        assert forall|i: int|
            0 <= i < list.len() && plugin_with_id(list, id) is None implies (
        #[trigger] list[i]).manifest.id@ != id by {
            if i < front.len() {
                assert(front[i] == list[i]);
            }
        }
    }
}

/// A path of a plugin that says nothing is refused with its number in its list.
pub proof fn an_empty_path_is_told_by_its_number(a: AuxFile, paths: Seq<Seq<char>>, i: nat)
    ensures
        !says_something(a.path@) ==> aux_problem(a, i as int) == Some(
            "aux_files"@ + "["@ + decimal_of(i) + "]"@ + ".path"@ + " must not be empty"@,
        ),
        says_something(a.path@) ==> aux_problem(a, i as int) is None,
        i < paths.len() && !says_something(paths[i as int]) ==> shared_paths_problem(paths, i as int)
            == Some(
            "session_activation.shared_paths"@ + "["@ + decimal_of(i) + "]"@ + ""@
                + " must not be empty"@,
        ),
        i < paths.len() && says_something(paths[i as int]) ==> shared_paths_problem(paths, i as int)
            == shared_paths_problem(paths, i as int + 1),
{
    lemma_says_something(a.path@);
    if i < paths.len() {
        lemma_says_something(paths[i as int]);
    }
}

/// The home of a shell that is not described is refused by naming what is missing.
pub proof fn a_refused_home_is_told_what_is_missing(c: SessionActivationConfig)
    ensures
        !says_something(c.env_var@) ==> session_problem(c) == Some(
            "session_activation.env_var"@ + " must not be empty"@,
        ),
        says_something(c.env_var@) && !says_something(c.default_home@) ==> session_problem(c) == Some(
            "session_activation.default_home"@ + " must not be empty"@,
        ),
{
    lemma_says_something(c.env_var@);
    lemma_says_something(c.default_home@);
}

/// A rule for an identity that does not say where to look is refused by naming what is missing, in its
/// main part and in its fallback.
pub proof fn a_refused_rule_is_told_what_is_missing(r: IdentityExtract, at: Seq<char>)
    ensures
        r.jwt_from is None ==> identity_source_problem(at, IdentitySource::JwtClaim, r) == Some(
            at + ".jwt_from"@ + " is required"@,
        ),
        r.jwt_from is Some && r.jwt_json_pointer is None ==> identity_source_problem(
            at,
            IdentitySource::JwtClaim,
            r,
        ) == Some(at + ".jwt_json_pointer"@ + " is required"@),
        r.jwt_from is Some && r.jwt_json_pointer is Some && r.claim_pointer is None
            ==> identity_source_problem(at, IdentitySource::JwtClaim, r) == Some(
            at + ".claim_pointer"@ + " is required"@,
        ),
        r.json_top_keys_from is None ==> identity_source_problem(
            at,
            IdentitySource::JsonTopKeys,
            r,
        ) == Some(at + ".json_top_keys_from"@ + " is required"@),
        r.json_file_path is Some && r.json_pointer is None ==> identity_source_problem(
            at,
            IdentitySource::JsonFile,
            r,
        ) == Some(at + ".json_pointer"@ + " is required"@),
        r.fallback_jwt_from is None ==> fallback_source_problem(at, IdentitySource::JwtClaim, r)
            == Some(at + ".fallback_jwt_from"@ + " is required"@),
        r.fallback_jwt_from is Some && r.fallback_jwt_json_pointer is None
            ==> fallback_source_problem(at, IdentitySource::JwtClaim, r) == Some(
            at + ".fallback_jwt_json_pointer"@ + " is required"@,
        ),
        r.fallback_jwt_from is Some && r.fallback_jwt_json_pointer is Some
            && r.fallback_claim_pointer is None ==> fallback_source_problem(
            at,
            IdentitySource::JwtClaim,
            r,
        ) == Some(at + ".fallback_claim_pointer"@ + " is required"@),
        r.fallback_json_top_keys_from is None ==> fallback_source_problem(
            at,
            IdentitySource::JsonTopKeys,
            r,
        ) == Some(at + ".fallback_json_top_keys_from"@ + " is required"@),
        r.fallback_json_file_path is None ==> fallback_source_problem(
            at,
            IdentitySource::JsonFile,
            r,
        ) == Some(at + ".fallback_json_file_path"@ + " is required"@),
        r.fallback_json_file_path is Some && r.fallback_json_pointer is None
            ==> fallback_source_problem(at, IdentitySource::JsonFile, r) == Some(
            at + ".fallback_json_pointer"@ + " is required"@,
        ),
        r.fallback_json_pointer is None ==> fallback_source_problem(
            at,
            IdentitySource::JsonValue,
            r,
        ) == Some(at + ".fallback_json_pointer"@ + " is required"@),
        r.fallback_literal is None ==> fallback_source_problem(at, IdentitySource::Literal, r)
            == Some(at + ".fallback_literal"@ + " is required"@),
{
}

} // verus!
