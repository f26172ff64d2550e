//! `${env:NAME}` and `${env:NAME:-default}` in the texts of a manifest.
use vstd::prelude::*;

use super::{
    AuxFile, CredentialStore, IdentityExtract, LoginConfig, Manifest, SessionActivationConfig,
    UsageSource,
};
use crate::text::{
    chars_of, find_from, join3, lemma_find_from, piece, position, position_char, split_once,
    split_once_of,
};
use crate::text_map::{TextMap, map_of};

verus! {

/// The text that opens a placeholder.
pub open spec fn opening() -> Seq<char> {
    seq!['$', '{', 'e', 'n', 'v', ':']
}

/// What stands for a placeholder: the value of the variable, or the default where one is given and
/// the variable is not set or empty.
pub open spec fn env_value(expression: Seq<char>, env: Map<Seq<char>, Seq<char>>) -> Seq<char> {
    match split_once_of(expression, ":-"@) {
        Some((name, default)) => if env.contains_key(name) && env[name].len() > 0 {
            env[name]
        } else {
            default
        },
        None => if env.contains_key(expression) {
            env[expression]
        } else {
            ""@
        },
    }
}

/// A variable that is not set, and for which no default is given, is warned about.
pub open spec fn env_warning(expression: Seq<char>, env: Map<Seq<char>, Seq<char>>) -> Seq<
    Seq<char>,
> {
    if split_once_of(expression, ":-"@) is None && !env.contains_key(expression) {
        seq![
            "environment variable '"@ + expression + "' is not set; substituting empty string"@,
        ]
    } else {
        seq![]
    }
}

/// `s` with every placeholder replaced; an opening without a closing brace stays as it is.
pub open spec fn expanded(s: Seq<char>, env: Map<Seq<char>, Seq<char>>) -> Seq<char>
    decreases s.len(),
{
    proof {
        lemma_find_from(s, opening(), 0);
    }
    match find_from(s, opening(), 0) {
        None => s,
        Some(i) => {
            let rest = s.subrange(i + 6, s.len() as int);
            proof {
                lemma_find_from(rest, seq!['}'], 0);
            }
            match find_from(rest, seq!['}'], 0) {
                None => s,
                Some(j) => s.subrange(0, i) + env_value(rest.subrange(0, j), env) + expanded(
                    rest.subrange(j + 1, rest.len() as int),
                    env,
                ),
            }
        },
    }
}

/// The warnings of `expanded`, in the order of the placeholders.
pub open spec fn warned(s: Seq<char>, env: Map<Seq<char>, Seq<char>>) -> Seq<Seq<char>>
    decreases s.len(),
{
    proof {
        lemma_find_from(s, opening(), 0);
    }
    match find_from(s, opening(), 0) {
        None => seq![],
        Some(i) => {
            let rest = s.subrange(i + 6, s.len() as int);
            proof {
                lemma_find_from(rest, seq!['}'], 0);
            }
            match find_from(rest, seq!['}'], 0) {
                None => seq![],
                Some(j) => env_warning(rest.subrange(0, j), env) + warned(
                    rest.subrange(j + 1, rest.len() as int),
                    env,
                ),
            }
        },
    }
}

/// A text without an opening is left as it is, and nothing is warned about.
pub proof fn plain_text_is_unchanged(s: Seq<char>, env: Map<Seq<char>, Seq<char>>)
    requires
        find_from(s, opening(), 0) is None,
    ensures
        expanded(s, env) == s,
        warned(s, env) == Seq::<Seq<char>>::empty(),
{
}

/// Where every variable is set, nothing is warned about.
pub proof fn set_variables_are_not_warned_about(s: Seq<char>, env: Map<Seq<char>, Seq<char>>)
    requires
        forall|name: Seq<char>| #[trigger] env.contains_key(name),
    ensures
        warned(s, env) == Seq::<Seq<char>>::empty(),
    decreases s.len(),
{
    lemma_find_from(s, opening(), 0);
    match find_from(s, opening(), 0) {
        None => {},
        Some(i) => {
            let rest = s.subrange(i + 6, s.len() as int);
            lemma_find_from(rest, seq!['}'], 0);
            match find_from(rest, seq!['}'], 0) {
                None => {},
                Some(j) => {
                    set_variables_are_not_warned_about(
                        rest.subrange(j + 1, rest.len() as int),
                        env,
                    );
                },
            }
        },
    }
}

fn resolve_env_expression(
    expression: &str,
    env: &TextMap<String>,
    warnings: &mut Vec<String>,
) -> (r: String)
    ensures
        r@ == env_value(expression@, env.deep_view()),
        final(warnings).deep_view() == old(warnings).deep_view() + env_warning(
            expression@,
            env.deep_view(),
        ),
{
    let ghost before = warnings.deep_view();
    match split_once(expression, ":-") {
        Some((name, default)) => {
            assert(before + Seq::<Seq<char>>::empty() == before);
            match env.get(name.as_str()) {
                Some(value) => if value.as_str().is_empty() {
                    default
                } else {
                    value.clone()
                },
                None => default,
            }
        },
        None => match env.get(expression) {
            Some(value) => {
                assert(before + Seq::<Seq<char>>::empty() == before);
                value.clone()
            },
            None => {
                let message = join3(
                    "environment variable '",
                    expression,
                    "' is not set; substituting empty string",
                );
                warnings.push(message);
                assert(warnings.deep_view() == before + seq![message@]);
                "".to_owned()
            },
        },
    }
}

/// `input` with its placeholders replaced from `env`; the warnings are added to `warnings`.
pub fn expand_env_placeholders(
    input: &str,
    env: &TextMap<String>,
    warnings: &mut Vec<String>,
) -> (r: String)
    ensures
        r@ == expanded(input@, env.deep_view()),
        final(warnings).deep_view() == old(warnings).deep_view() + warned(
            input@,
            env.deep_view(),
        ),
{
    let open = chars_of("${env:");
    proof {
        reveal_strlit("${env:");
        assert(open@ == opening());
    }
    let mut rest = chars_of(input);
    let mut out = String::new();
    let ghost before = warnings.deep_view();
    assert(out@ + expanded(rest@, env.deep_view()) == expanded(input@, env.deep_view()));
    assert(before + warned(input@, env.deep_view()) == warnings.deep_view() + warned(
        rest@,
        env.deep_view(),
    ));
    loop
        invariant
            open@ == opening(),
            expanded(input@, env.deep_view()) == out@ + expanded(rest@, env.deep_view()),
            before + warned(input@, env.deep_view()) == warnings.deep_view() + warned(
                rest@,
                env.deep_view(),
            ),
            before == old(warnings).deep_view(),
        decreases rest.len(),
    {
        match position(&rest, &open, 0) {
            None => {
                out.append(crate::text::string_of(&rest).as_str());
                assert(warnings.deep_view() + Seq::<Seq<char>>::empty() == warnings.deep_view());
                return out;
            },
            Some(start) => {
                match position_char(&rest, '}', start + 6) {
                    None => {
                        proof {
                            crate::json::lemma_find_suffix(rest@, '}', start + 6, 0);
                        }
                        out.append(crate::text::string_of(&rest).as_str());
                        assert(warnings.deep_view() + Seq::<Seq<char>>::empty()
                            == warnings.deep_view());
                        return out;
                    },
                    Some(end) => {
                        let ghost tail = rest@.subrange(start + 6, rest@.len() as int);
                        let ghost done = out@;
                        let ghost told = warnings.deep_view();
                        let expression = piece(&rest, start + 6, end);
                        proof {
                            crate::json::lemma_find_suffix(rest@, '}', start + 6, 0);
                            assert(tail.subrange(0, end - start - 6) == expression@);
                        }
                        let head = piece(&rest, 0, start);
                        let value = resolve_env_expression(expression.as_str(), env, warnings);
                        out.append(head.as_str());
                        out.append(value.as_str());
                        let next = chars_of(piece(&rest, end + 1, rest.len()).as_str());
                        proof {
                            assert(tail.subrange(end - start - 6 + 1, tail.len() as int) == next@);
                            let more = expanded(next@, env.deep_view());
                            assert(done + (head@ + value@ + more) == out@ + more);
                            let w = env_warning(expression@, env.deep_view());
                            let ws = warned(next@, env.deep_view());
                            assert(told + (w + ws) == (told + w) + ws);
                        }
                        rest = next;
                    },
                }
            },
        }
    }
}

fn expand_string_in_place(value: &mut String, env: &TextMap<String>, warnings: &mut Vec<String>)
    ensures
        final(value)@ == expanded(old(value)@, env.deep_view()),
        final(warnings).deep_view() == old(warnings).deep_view() + warned(
            old(value)@,
            env.deep_view(),
        ),
{
    let text = expand_env_placeholders(value.as_str(), env, warnings);
    *value = text;
}

/// An optional text with its placeholders replaced.
pub open spec fn expanded_opt(s: Option<String>, env: Map<Seq<char>, Seq<char>>) -> Option<
    Seq<char>,
> {
    match s {
        Some(t) => Some(expanded(t@, env)),
        None => None,
    }
}

pub open spec fn warned_opt(s: Option<String>, env: Map<Seq<char>, Seq<char>>) -> Seq<Seq<char>> {
    match s {
        Some(t) => warned(t@, env),
        None => seq![],
    }
}

fn expand_option_string(
    value: &mut Option<String>,
    env: &TextMap<String>,
    warnings: &mut Vec<String>,
)
    ensures
        final(value).deep_view() == expanded_opt(*old(value), env.deep_view()),
        final(warnings).deep_view() == old(warnings).deep_view() + warned_opt(
            *old(value),
            env.deep_view(),
        ),
{
    let ghost before = warnings.deep_view();
    let next = match &*value {
        Some(text) => Some(expand_env_placeholders(text.as_str(), env, warnings)),
        None => {
            assert(before + Seq::<Seq<char>>::empty() == before);
            None
        },
    };
    *value = next;
}

/// A map with the placeholders in its values replaced.
pub open spec fn expanded_map(m: Map<Seq<char>, Seq<char>>, env: Map<Seq<char>, Seq<char>>) -> Map<
    Seq<char>,
    Seq<char>,
> {
    m.map_values(|v: Seq<char>| expanded(v, env))
}

/// The warnings of a map, in the order of its keys.
pub open spec fn warned_items(
    items: Seq<(Seq<char>, Seq<char>)>,
    env: Map<Seq<char>, Seq<char>>,
) -> Seq<Seq<char>>
    decreases items.len(),
{
    if items.len() == 0 {
        seq![]
    } else {
        warned_items(items.drop_last(), env) + warned(items.last().1, env)
    }
}

fn expand_string_map(
    values: &mut TextMap<String>,
    env: &TextMap<String>,
    warnings: &mut Vec<String>,
)
    ensures
        final(values).deep_view() == expanded_map(old(values).deep_view(), env.deep_view()),
        final(warnings).deep_view() == old(warnings).deep_view() + warned_items(
            old(values).items(),
            env.deep_view(),
        ),
{
    let ghost before = warnings.deep_view();
    let ghost items = values.items();
    let ghost e = env.deep_view();
    let mut out: TextMap<String> = TextMap::new();
    let n = values.len();
    let mut i: usize = 0;
    assert(out.deep_view() == expanded_map(map_of(items.take(0)), e));
    assert(before + warned_items(items.take(0), e) == before);
    while i < n
        invariant
            i <= n,
            n == items.len(),
            items == values.items(),
            e == env.deep_view(),
            out.deep_view() == expanded_map(map_of(items.take(i as int)), e),
            warnings.deep_view() == before + warned_items(items.take(i as int), e),
        decreases n - i,
    {
        let text = expand_env_placeholders(values.value_at(i).as_str(), env, warnings);
        let key = values.key_at(i).clone();
        out.insert(key, text);
        i = i + 1;
        proof {
            let front = items.take(i - 1);
            assert(items.take(i as int).drop_last() == front);
            assert(expanded_map(map_of(front).insert(items[i - 1].0, items[i - 1].1), e)
                == expanded_map(map_of(front), e).insert(items[i - 1].0, expanded(
                items[i - 1].1,
                e,
            )));
            assert(before + warned_items(front, e) + warned(items[i - 1].1, e) == before
                + warned_items(items.take(i as int), e));
        }
    }
    assert(items.take(i as int) == items);
    *values = out;
}

/// A list of texts with their placeholders replaced.
pub open spec fn expanded_all(list: Seq<Seq<char>>, env: Map<Seq<char>, Seq<char>>) -> Seq<
    Seq<char>,
> {
    list.map_values(|s: Seq<char>| expanded(s, env))
}

pub open spec fn warned_all(list: Seq<Seq<char>>, env: Map<Seq<char>, Seq<char>>) -> Seq<Seq<char>>
    decreases list.len(),
{
    if list.len() == 0 {
        seq![]
    } else {
        warned_all(list.drop_last(), env) + warned(list.last(), env)
    }
}

fn expand_all(list: &mut Vec<String>, env: &TextMap<String>, warnings: &mut Vec<String>)
    ensures
        final(list).deep_view() == expanded_all(old(list).deep_view(), env.deep_view()),
        final(warnings).deep_view() == old(warnings).deep_view() + warned_all(
            old(list).deep_view(),
            env.deep_view(),
        ),
{
    let ghost before = warnings.deep_view();
    let ghost all = list.deep_view();
    let ghost e = env.deep_view();
    let mut out: Vec<String> = Vec::new();
    let mut i: usize = 0;
    assert(before + warned_all(all.take(0), e) == before);
    while i < list.len()
        invariant
            i <= list.len(),
            all == list.deep_view(),
            e == env.deep_view(),
            out.deep_view() == expanded_all(all.take(i as int), e),
            warnings.deep_view() == before + warned_all(all.take(i as int), e),
        decreases list.len() - i,
    {
        let ghost prev = out.deep_view();
        let text = expand_env_placeholders(list[i].as_str(), env, warnings);
        out.push(text);
        i = i + 1;
        proof {
            assert(out.deep_view() == prev.push(expanded(all[i - 1], e)));
            assert(expanded_all(all.take(i as int), e) == expanded_all(all.take(i - 1), e).push(
                expanded(all[i - 1], e),
            ));
            assert(all.take(i as int).drop_last() == all.take(i - 1));
            assert(before + warned_all(all.take(i - 1), e) + warned(all[i - 1], e) == before
                + warned_all(all.take(i as int), e));
        }
    }
    assert(all.take(i as int) == all);
    *list = out;
}

// ---------------------------------------------------------------------------------------------
// The parts of a manifest
// ---------------------------------------------------------------------------------------------
/// Whether `b` is `a` with its placeholders replaced and nothing else changed.
pub open spec fn store_expands(
    a: CredentialStore,
    b: CredentialStore,
    env: Map<Seq<char>, Seq<char>>,
) -> bool {
    &&& b.kind == a.kind
    &&& b.path.deep_view() == expanded_opt(a.path, env)
    &&& b.permissions == a.permissions
    &&& b.macos_service.deep_view() == expanded_opt(a.macos_service, env)
    &&& b.macos_account.deep_view() == expanded_opt(a.macos_account, env)
    &&& b.linux_schema.deep_view() == expanded_opt(a.linux_schema, env)
    &&& b.linux_attributes.deep_view() == expanded_map(a.linux_attributes.deep_view(), env)
    &&& b.linux_fallback_kind == a.linux_fallback_kind
    &&& b.linux_fallback_path.deep_view() == expanded_opt(a.linux_fallback_path, env)
    &&& b.linux_fallback_permissions == a.linux_fallback_permissions
    &&& b.allow_empty_active == a.allow_empty_active
}

pub open spec fn store_warned(a: CredentialStore, env: Map<Seq<char>, Seq<char>>) -> Seq<
    Seq<char>,
> {
    warned_opt(a.path, env) + warned_opt(a.macos_service, env) + warned_opt(a.macos_account, env)
        + warned_opt(a.linux_schema, env) + warned_opt(a.linux_fallback_path, env) + warned_items(
        a.linux_attributes.items(),
        env,
    )
}

pub open spec fn session_expands(
    a: SessionActivationConfig,
    b: SessionActivationConfig,
    env: Map<Seq<char>, Seq<char>>,
) -> bool {
    &&& b.env_var@ == expanded(a.env_var@, env)
    &&& b.default_home@ == expanded(a.default_home@, env)
    &&& b.shared_paths.deep_view() == expanded_all(a.shared_paths.deep_view(), env)
}

pub open spec fn session_warned(a: SessionActivationConfig, env: Map<Seq<char>, Seq<char>>) -> Seq<
    Seq<char>,
> {
    warned(a.env_var@, env) + warned(a.default_home@, env) + warned_all(
        a.shared_paths.deep_view(),
        env,
    )
}

pub open spec fn aux_expands(a: AuxFile, b: AuxFile, env: Map<Seq<char>, Seq<char>>) -> bool {
    &&& b.path@ == expanded(a.path@, env)
    &&& b.required == a.required
    &&& b.kind == a.kind
}

pub open spec fn identity_expands(
    a: IdentityExtract,
    b: IdentityExtract,
    env: Map<Seq<char>, Seq<char>>,
) -> bool {
    &&& b.field == a.field
    &&& b.source == a.source
    &&& b.json_file_path.deep_view() == expanded_opt(a.json_file_path, env)
    &&& b.json_pointer.deep_view() == expanded_opt(a.json_pointer, env)
    &&& b.fallback_source == a.fallback_source
    &&& b.fallback_json_file_path.deep_view() == expanded_opt(a.fallback_json_file_path, env)
    &&& b.fallback_json_pointer.deep_view() == expanded_opt(a.fallback_json_pointer, env)
    &&& b.jwt_from == a.jwt_from
    &&& b.jwt_json_pointer.deep_view() == expanded_opt(a.jwt_json_pointer, env)
    &&& b.claim_pointer.deep_view() == expanded_opt(a.claim_pointer, env)
    &&& b.fallback_jwt_from == a.fallback_jwt_from
    &&& b.fallback_jwt_json_pointer.deep_view() == expanded_opt(a.fallback_jwt_json_pointer, env)
    &&& b.fallback_claim_pointer.deep_view() == expanded_opt(a.fallback_claim_pointer, env)
    &&& b.json_top_keys_from == a.json_top_keys_from
    &&& b.fallback_json_top_keys_from == a.fallback_json_top_keys_from
    &&& b.literal.deep_view() == expanded_opt(a.literal, env)
    &&& b.fallback_literal.deep_view() == expanded_opt(a.fallback_literal, env)
}

pub open spec fn identity_warned(a: IdentityExtract, env: Map<Seq<char>, Seq<char>>) -> Seq<
    Seq<char>,
> {
    warned_opt(a.json_file_path, env) + warned_opt(a.fallback_json_file_path, env) + warned_opt(
        a.json_pointer,
        env,
    ) + warned_opt(a.fallback_json_pointer, env) + warned_opt(a.jwt_json_pointer, env)
        + warned_opt(a.fallback_jwt_json_pointer, env) + warned_opt(a.claim_pointer, env)
        + warned_opt(a.fallback_claim_pointer, env) + warned_opt(a.literal, env) + warned_opt(
        a.fallback_literal,
        env,
    )
}

pub open spec fn login_expands(
    a: LoginConfig,
    b: LoginConfig,
    env: Map<Seq<char>, Seq<char>>,
) -> bool {
    &&& b.cmd.deep_view() == expanded_all(a.cmd.deep_view(), env)
    &&& b.ready_marker_kind == a.ready_marker_kind
    &&& b.ready_marker_timeout_s == a.ready_marker_timeout_s
    &&& b.ready_marker_path.deep_view() == expanded_opt(a.ready_marker_path, env)
}

pub open spec fn login_warned(a: LoginConfig, env: Map<Seq<char>, Seq<char>>) -> Seq<Seq<char>> {
    warned_all(a.cmd.deep_view(), env) + warned_opt(a.ready_marker_path, env)
}

pub open spec fn usage_expands(
    a: UsageSource,
    b: UsageSource,
    env: Map<Seq<char>, Seq<char>>,
) -> bool {
    &&& b.kind == a.kind
    &&& b.method.deep_view() == expanded_opt(a.method, env)
    &&& b.url.deep_view() == expanded_opt(a.url, env)
    &&& b.headers.deep_view() == expanded_map(a.headers.deep_view(), env)
    &&& b.response_metric_pointer.deep_view() == expanded_map(
        a.response_metric_pointer.deep_view(),
        env,
    )
    &&& b.response_quota_pointer.deep_view() == expanded_map(
        a.response_quota_pointer.deep_view(),
        env,
    )
    &&& b.cache_ttl_s == a.cache_ttl_s
    &&& b.path.deep_view() == expanded_opt(a.path, env)
    &&& b.format == a.format
    &&& b.timestamp_pointer.deep_view() == expanded_opt(a.timestamp_pointer, env)
    &&& b.record_filter.deep_view() == expanded_opt(a.record_filter, env)
    &&& b.metric_map.deep_view() == expanded_map(a.metric_map.deep_view(), env)
    &&& b.default_window.deep_view() == expanded_opt(a.default_window, env)
}

pub open spec fn usage_warned(a: UsageSource, env: Map<Seq<char>, Seq<char>>) -> Seq<Seq<char>> {
    warned_opt(a.method, env) + warned_opt(a.url, env) + warned_opt(a.path, env) + warned_opt(
        a.timestamp_pointer,
        env,
    ) + warned_opt(a.record_filter, env) + warned_opt(a.default_window, env) + warned_items(
        a.headers.items(),
        env,
    ) + warned_items(a.response_metric_pointer.items(), env) + warned_items(
        a.response_quota_pointer.items(),
        env,
    ) + warned_items(a.metric_map.items(), env)
}

pub open spec fn aux_files_warned(files: Seq<AuxFile>, env: Map<Seq<char>, Seq<char>>) -> Seq<
    Seq<char>,
>
    decreases files.len(),
{
    if files.len() == 0 {
        seq![]
    } else {
        aux_files_warned(files.drop_last(), env) + warned(files.last().path@, env)
    }
}

pub open spec fn identities_warned(
    rules: Seq<IdentityExtract>,
    env: Map<Seq<char>, Seq<char>>,
) -> Seq<Seq<char>>
    decreases rules.len(),
{
    if rules.len() == 0 {
        seq![]
    } else {
        identities_warned(rules.drop_last(), env) + identity_warned(rules.last(), env)
    }
}

pub open spec fn usages_warned(sources: Seq<UsageSource>, env: Map<Seq<char>, Seq<char>>) -> Seq<
    Seq<char>,
>
    decreases sources.len(),
{
    if sources.len() == 0 {
        seq![]
    } else {
        usages_warned(sources.drop_last(), env) + usage_warned(sources.last(), env)
    }
}

/// Whether `b` is `a` with the placeholders of its credential store, session, auxiliary files,
/// identity rules, login and usage sources replaced, and nothing else changed.
pub open spec fn manifest_expands(a: Manifest, b: Manifest, env: Map<Seq<char>, Seq<char>>) -> bool {
    &&& b.id == a.id
    &&& b.display_name == a.display_name
    &&& b.version == a.version
    &&& b.author == a.author
    &&& b.description == a.description
    &&& b.platforms == a.platforms
    &&& store_expands(a.credential_store, b.credential_store, env)
    &&& match (a.session_activation, b.session_activation) {
        (Some(x), Some(y)) => session_expands(x, y, env),
        (None, None) => true,
        _ => false,
    }
    &&& b.aux_files.len() == a.aux_files.len()
    &&& forall|i: int|
        0 <= i < a.aux_files.len() ==> aux_expands(
            #[trigger] a.aux_files@[i],
            b.aux_files@[i],
            env,
        )
    &&& b.identity_extract.len() == a.identity_extract.len()
    &&& forall|i: int|
        0 <= i < a.identity_extract.len() ==> identity_expands(
            #[trigger] a.identity_extract@[i],
            b.identity_extract@[i],
            env,
        )
    &&& login_expands(a.login, b.login, env)
    &&& b.usage_source.len() == a.usage_source.len()
    &&& forall|i: int|
        0 <= i < a.usage_source.len() ==> usage_expands(
            #[trigger] a.usage_source@[i],
            b.usage_source@[i],
            env,
        )
}

pub open spec fn manifest_warned(a: Manifest, env: Map<Seq<char>, Seq<char>>) -> Seq<Seq<char>> {
    store_warned(a.credential_store, env) + (match a.session_activation {
        Some(c) => session_warned(c, env),
        None => seq![],
    }) + login_warned(a.login, env) + aux_files_warned(a.aux_files@, env) + identities_warned(
        a.identity_extract@,
        env,
    ) + usages_warned(a.usage_source@, env)
}

impl CredentialStore {
    fn expand_env_placeholders(&mut self, env: &TextMap<String>, warnings: &mut Vec<String>)
        ensures
            store_expands(*old(self), *final(self), env.deep_view()),
            final(warnings).deep_view() == old(warnings).deep_view() + store_warned(
                *old(self),
                env.deep_view(),
            ),
    {
        let ghost before = warnings.deep_view();
        let ghost a = *self;
        expand_option_string(&mut self.path, env, warnings);
        expand_option_string(&mut self.macos_service, env, warnings);
        expand_option_string(&mut self.macos_account, env, warnings);
        expand_option_string(&mut self.linux_schema, env, warnings);
        expand_option_string(&mut self.linux_fallback_path, env, warnings);
        expand_string_map(&mut self.linux_attributes, env, warnings);
        assert(warnings.deep_view() == before + store_warned(a, env.deep_view()));
    }
}

impl SessionActivationConfig {
    fn expand_env_placeholders(&mut self, env: &TextMap<String>, warnings: &mut Vec<String>)
        ensures
            session_expands(*old(self), *final(self), env.deep_view()),
            final(warnings).deep_view() == old(warnings).deep_view() + session_warned(
                *old(self),
                env.deep_view(),
            ),
    {
        let ghost before = warnings.deep_view();
        let ghost a = *self;
        expand_string_in_place(&mut self.env_var, env, warnings);
        expand_string_in_place(&mut self.default_home, env, warnings);
        expand_all(&mut self.shared_paths, env, warnings);
        assert(warnings.deep_view() == before + session_warned(a, env.deep_view()));
    }
}

impl AuxFile {
    fn expand_env_placeholders(&mut self, env: &TextMap<String>, warnings: &mut Vec<String>)
        ensures
            aux_expands(*old(self), *final(self), env.deep_view()),
            final(warnings).deep_view() == old(warnings).deep_view() + warned(
                old(self).path@,
                env.deep_view(),
            ),
    {
        expand_string_in_place(&mut self.path, env, warnings);
    }
}

impl IdentityExtract {
    fn expand_env_placeholders(&mut self, env: &TextMap<String>, warnings: &mut Vec<String>)
        ensures
            identity_expands(*old(self), *final(self), env.deep_view()),
            final(warnings).deep_view() == old(warnings).deep_view() + identity_warned(
                *old(self),
                env.deep_view(),
            ),
    {
        let ghost before = warnings.deep_view();
        let ghost a = *self;
        expand_option_string(&mut self.json_file_path, env, warnings);
        expand_option_string(&mut self.fallback_json_file_path, env, warnings);
        expand_option_string(&mut self.json_pointer, env, warnings);
        expand_option_string(&mut self.fallback_json_pointer, env, warnings);
        expand_option_string(&mut self.jwt_json_pointer, env, warnings);
        expand_option_string(&mut self.fallback_jwt_json_pointer, env, warnings);
        expand_option_string(&mut self.claim_pointer, env, warnings);
        expand_option_string(&mut self.fallback_claim_pointer, env, warnings);
        expand_option_string(&mut self.literal, env, warnings);
        expand_option_string(&mut self.fallback_literal, env, warnings);
        assert(warnings.deep_view() == before + identity_warned(a, env.deep_view()));
    }
}

impl LoginConfig {
    fn expand_env_placeholders(&mut self, env: &TextMap<String>, warnings: &mut Vec<String>)
        ensures
            login_expands(*old(self), *final(self), env.deep_view()),
            final(warnings).deep_view() == old(warnings).deep_view() + login_warned(
                *old(self),
                env.deep_view(),
            ),
    {
        let ghost before = warnings.deep_view();
        let ghost a = *self;
        expand_all(&mut self.cmd, env, warnings);
        expand_option_string(&mut self.ready_marker_path, env, warnings);
        assert(warnings.deep_view() == before + login_warned(a, env.deep_view()));
    }
}

impl UsageSource {
    fn expand_env_placeholders(&mut self, env: &TextMap<String>, warnings: &mut Vec<String>)
        ensures
            usage_expands(*old(self), *final(self), env.deep_view()),
            final(warnings).deep_view() == old(warnings).deep_view() + usage_warned(
                *old(self),
                env.deep_view(),
            ),
    {
        let ghost before = warnings.deep_view();
        let ghost a = *self;
        expand_option_string(&mut self.method, env, warnings);
        expand_option_string(&mut self.url, env, warnings);
        expand_option_string(&mut self.path, env, warnings);
        expand_option_string(&mut self.timestamp_pointer, env, warnings);
        expand_option_string(&mut self.record_filter, env, warnings);
        expand_option_string(&mut self.default_window, env, warnings);
        expand_string_map(&mut self.headers, env, warnings);
        expand_string_map(&mut self.response_metric_pointer, env, warnings);
        expand_string_map(&mut self.response_quota_pointer, env, warnings);
        expand_string_map(&mut self.metric_map, env, warnings);
        assert(warnings.deep_view() == before + usage_warned(a, env.deep_view()));
    }
}

fn expand_aux_files(files: &mut Vec<AuxFile>, env: &TextMap<String>, warnings: &mut Vec<String>)
    ensures
        final(files).len() == old(files).len(),
        forall|i: int|
            0 <= i < old(files).len() ==> aux_expands(
                #[trigger] old(files)@[i],
                final(files)@[i],
                env.deep_view(),
            ),
        final(warnings).deep_view() == old(warnings).deep_view() + aux_files_warned(
            old(files)@,
            env.deep_view(),
        ),
{
    let ghost all = files@;
    let ghost before = warnings.deep_view();
    let ghost e = env.deep_view();
    let mut i: usize = 0;
    assert(before + aux_files_warned(all.take(0), e) == before);
    while i < files.len()
        invariant
            i <= files.len(),
            files.len() == all.len(),
            e == env.deep_view(),
            forall|j: int| 0 <= j < i ==> aux_expands(#[trigger] all[j], files@[j], e),
            forall|j: int| i <= j < all.len() ==> files@[j] == #[trigger] all[j],
            warnings.deep_view() == before + aux_files_warned(all.take(i as int), e),
        decreases files.len() - i,
    {
        assert(files@[i as int] == all[i as int]);
        files[i].expand_env_placeholders(env, warnings);
        i = i + 1;
        proof {
            assert(all.take(i as int).drop_last() == all.take(i - 1));
            assert(before + aux_files_warned(all.take(i - 1), e) + warned(all[i - 1].path@, e)
                == before + aux_files_warned(all.take(i as int), e));
        }
    }
    assert(all.take(i as int) == all);
}

fn expand_identities(
    rules: &mut Vec<IdentityExtract>,
    env: &TextMap<String>,
    warnings: &mut Vec<String>,
)
    ensures
        final(rules).len() == old(rules).len(),
        forall|i: int|
            0 <= i < old(rules).len() ==> identity_expands(
                #[trigger] old(rules)@[i],
                final(rules)@[i],
                env.deep_view(),
            ),
        final(warnings).deep_view() == old(warnings).deep_view() + identities_warned(
            old(rules)@,
            env.deep_view(),
        ),
{
    let ghost all = rules@;
    let ghost before = warnings.deep_view();
    let ghost e = env.deep_view();
    let mut i: usize = 0;
    assert(before + identities_warned(all.take(0), e) == before);
    while i < rules.len()
        invariant
            i <= rules.len(),
            rules.len() == all.len(),
            e == env.deep_view(),
            forall|j: int| 0 <= j < i ==> identity_expands(#[trigger] all[j], rules@[j], e),
            forall|j: int| i <= j < all.len() ==> rules@[j] == #[trigger] all[j],
            warnings.deep_view() == before + identities_warned(all.take(i as int), e),
        decreases rules.len() - i,
    {
        assert(rules@[i as int] == all[i as int]);
        rules[i].expand_env_placeholders(env, warnings);
        i = i + 1;
        proof {
            assert(all.take(i as int).drop_last() == all.take(i - 1));
            assert(before + identities_warned(all.take(i - 1), e) + identity_warned(all[i - 1], e)
                == before + identities_warned(all.take(i as int), e));
        }
    }
    assert(all.take(i as int) == all);
}

fn expand_usages(
    sources: &mut Vec<UsageSource>,
    env: &TextMap<String>,
    warnings: &mut Vec<String>,
)
    ensures
        final(sources).len() == old(sources).len(),
        forall|i: int|
            0 <= i < old(sources).len() ==> usage_expands(
                #[trigger] old(sources)@[i],
                final(sources)@[i],
                env.deep_view(),
            ),
        final(warnings).deep_view() == old(warnings).deep_view() + usages_warned(
            old(sources)@,
            env.deep_view(),
        ),
{
    let ghost all = sources@;
    let ghost before = warnings.deep_view();
    let ghost e = env.deep_view();
    let mut i: usize = 0;
    assert(before + usages_warned(all.take(0), e) == before);
    while i < sources.len()
        invariant
            i <= sources.len(),
            sources.len() == all.len(),
            e == env.deep_view(),
            forall|j: int| 0 <= j < i ==> usage_expands(#[trigger] all[j], sources@[j], e),
            forall|j: int| i <= j < all.len() ==> sources@[j] == #[trigger] all[j],
            warnings.deep_view() == before + usages_warned(all.take(i as int), e),
        decreases sources.len() - i,
    {
        assert(sources@[i as int] == all[i as int]);
        sources[i].expand_env_placeholders(env, warnings);
        i = i + 1;
        proof {
            assert(all.take(i as int).drop_last() == all.take(i - 1));
            assert(before + usages_warned(all.take(i - 1), e) + usage_warned(all[i - 1], e)
                == before + usages_warned(all.take(i as int), e));
        }
    }
    assert(all.take(i as int) == all);
}

impl Manifest {
    /// Replaces the placeholders of the manifest from `env`, and returns the warnings.
    pub fn expand_env_placeholders_with(&mut self, env: &TextMap<String>) -> (r: Vec<String>)
        ensures
            manifest_expands(*old(self), *final(self), env.deep_view()),
            r.deep_view() == manifest_warned(*old(self), env.deep_view()),
    {
        let ghost a = *self;
        let mut warnings: Vec<String> = Vec::new();
        self.credential_store.expand_env_placeholders(env, &mut warnings);
        match &mut self.session_activation {
            Some(config) => {
                config.expand_env_placeholders(env, &mut warnings);
            },
            None => {},
        }
        self.login.expand_env_placeholders(env, &mut warnings);
        expand_aux_files(&mut self.aux_files, env, &mut warnings);
        expand_identities(&mut self.identity_extract, env, &mut warnings);
        expand_usages(&mut self.usage_source, env, &mut warnings);
        assert(warnings.deep_view() == manifest_warned(a, env.deep_view()));
        warnings
    }
}

} // verus!
