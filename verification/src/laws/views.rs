//! What is seen of values: each part of a value stands in the place of its name.
use vstd::prelude::*;

use crate::account::{
    AccountRecord, CurrentAccountRecord, PluginStatusError, PluginStatusRow, status_error_views,
};
use crate::claude::{ClaudeError, ClaudeErrorView, PrintedPercent, PrintedQuota, QuotaHint};
use crate::cmd::accounts::{
    AddPlan, CommandError, ListedAccount, ResolvedAccount, ResolvedView, UsePlan, UsePlanView,
    selection_view,
};
use crate::cmd::choice::{Choice, ChoiceView};
use crate::cmd::live::ClaudeCodeInfo;
use crate::cmd::login::{LoginPlan, target_view};
use crate::cmd::pick::{PluginPick, PluginPickView, plugin_names};
use crate::cmd::print::{AccountCells, error_views};
use crate::cmd::project::{
    ClearPlan, ClearStep, ClearView, ProjectBinding, ProjectConfig, clear_view,
};
use crate::cmd::prompt::Question;
use crate::cmd::scope::{EffectiveAccountRecord, pairs_of};
use crate::cmd::shell::{GlobalClearReport, ShellPlan, ShellPlanView};
use crate::codex::{CodexError, CodexErrorView, LimitLine};
use crate::gemini::{BodyField, GeminiCodeAssistInfo};
use crate::identity::{FileText, FileTextView, Identity};
use crate::json::{Json, JsonView, Number, Segment, SegmentView};
use crate::paths::PathsError;
use crate::plugin::catalog::{LoadedManifest, PluginLoadFailure, failure_views};
use crate::plugin::{ManifestValidationError, SessionActivationConfig, problem};
use crate::quota::{
    CredentialEdit, EditValue, EditValueView, WindowQuota, WindowReading, header_pairs,
};
use crate::registry::{AccountMetadata, LoadedRegistry, ReadView, Registry, RegistryRead};
use crate::session::{AuxStep, AuxStepView, SharedLink};
use crate::store::{ResolveProblem, ResolvedCredentialStore, StoreResolveError, StoreView, outcome};
use crate::switch::{AuxTarget, ContentView, DirectoryFile, SnapshotContent, StoredAuxState};
use crate::tui::details::{UsageTexts, pairs};
use crate::tui::news::{EventView, IdentityRow, QuotaEvent};
use crate::tui::piece::Piece;
use crate::tui::screen::{AccountQuotaSummary, ActionView, KeyAction, Loader, Percent, Screen};
use crate::tui::tables::{Listing, ListingView, TableRow};
use crate::usage::filter::{Literal, LiteralView};
use crate::usage::records::{Amount, AmountView, MetricUpdate, header_views};
use crate::usage::snapshot::{Collected, UsageMetrics, UsageSnapshot, UsageSourceSummary};

verus! {

/// An account, the state of a plugin and what is in use are seen as they are, field by field.
pub proof fn accounts_are_seen_field_by_field(
    v: AccountRecord,
    w: CurrentAccountRecord,
    x: PluginStatusRow,
    y: EffectiveAccountRecord,
)
    ensures
        v.deep_view().plugin_id == v.plugin_id@,
        v.deep_view().alias == v.alias@,
        v.deep_view().email == v.email.deep_view(),
        v.deep_view().org_name == v.org_name.deep_view(),
        v.deep_view().plan == v.plan.deep_view(),
        v.deep_view().added_at == v.added_at,
        v.deep_view().last_used_at == v.last_used_at,
        v.deep_view().active == v.active,
        w.deep_view().plugin_id == w.plugin_id@,
        w.deep_view().alias == w.alias.deep_view(),
        w.deep_view().email == w.email.deep_view(),
        w.deep_view().org_name == w.org_name.deep_view(),
        w.deep_view().plan == w.plan.deep_view(),
        w.deep_view().last_used_at == w.last_used_at,
        w.deep_view().managed == w.managed,
        x.deep_view().plugin_id == x.plugin_id@,
        x.deep_view().display_name == x.display_name.deep_view(),
        x.deep_view().version == x.version.deep_view(),
        x.deep_view().source == x.source.deep_view(),
        x.deep_view().loaded == x.loaded,
        x.deep_view().active_alias == x.active_alias.deep_view(),
        x.deep_view().account_count == x.account_count as nat,
        x.deep_view().last_used_at == x.last_used_at,
        x.deep_view().warnings == x.warnings.deep_view(),
        y.deep_view().plugin_id == y.plugin_id@,
        y.deep_view().alias == y.alias.deep_view(),
        y.deep_view().email == y.email.deep_view(),
        y.deep_view().org_name == y.org_name.deep_view(),
        y.deep_view().plan == y.plan.deep_view(),
        y.deep_view().scope == y.scope,
        y.deep_view().detail == y.detail.deep_view(),
{
}

/// A registry and its accounts are seen as they are, field by field.
pub proof fn a_registry_is_seen_field_by_field(
    v: AccountMetadata,
    w: Registry,
    x: LoadedRegistry,
)
    ensures
        v.deep_view().alias == v.alias@,
        v.deep_view().email == v.email.deep_view(),
        v.deep_view().org_name == v.org_name.deep_view(),
        v.deep_view().plan == v.plan.deep_view(),
        v.deep_view().added_at == v.added_at,
        v.deep_view().last_used_at == v.last_used_at,
        w.deep_view().version == w.version,
        w.deep_view().active == w.active.deep_view(),
        w.deep_view().accounts == w.accounts.deep_view(),
        x.deep_view().registry == x.registry.deep_view(),
        x.deep_view().reset == x.reset,
{
}

/// What came of reading a registry is seen as it is.
pub proof fn what_is_read_of_a_registry_is_seen(v: RegistryRead)
    ensures
        v is Missing ==> v.deep_view() == ReadView::Missing,
        v matches RegistryRead::Parsed(registry) ==> v.deep_view()
            == (ReadView::Parsed(registry.deep_view())),
        v is Corrupt ==> v.deep_view() == ReadView::Corrupt,
{
}

/// What a command means is seen as it is, field by field.
pub proof fn plans_are_seen_field_by_field(
    v: ListedAccount,
    w: ResolvedAccount,
    x: AddPlan,
    y: LoginPlan,
    z: GlobalClearReport,
)
    ensures
        v.deep_view().row == v.row as nat,
        v.deep_view().account == v.account.deep_view(),
        w.deep_view().plugin_id == w.plugin_id@,
        w.deep_view().alias == w.alias@,
        x.deep_view().plugin_id == x.plugin_id.deep_view(),
        x.deep_view().alias == x.alias.deep_view(),
        y.deep_view().plugin_id == y.plugin_id.deep_view(),
        y.deep_view().alias == y.alias.deep_view(),
        z.deep_view().plugin_id == z.plugin_id@,
        z.deep_view().previous_alias == z.previous_alias.deep_view(),
{
}

/// What a command is to do is seen as it is.
pub proof fn choices_of_commands_are_seen(v: UsePlan, w: ShellPlan, x: Choice, y: PluginPick)
    ensures
        v matches UsePlan::ClearProject { plugin } ==> v.deep_view() == (UsePlanView::ClearProject
            { plugin: plugin.deep_view() }),
        v matches UsePlan::ClearGlobal { plugin } ==> v.deep_view() == (UsePlanView::ClearGlobal
            { plugin: plugin.deep_view() }),
        v matches UsePlan::Find { selector } ==> v.deep_view() == (UsePlanView::Find
            { selector: selector.deep_view() }),
        w matches ShellPlan::Off { plugin } ==> w.deep_view() == (ShellPlanView::Off
            { plugin: plugin.deep_view() }),
        w matches ShellPlan::Find { selector } ==> w.deep_view() == (ShellPlanView::Find
            { selector: selector.deep_view() }),
        w is SyncProject ==> w.deep_view() == ShellPlanView::SyncProject,
        x is Plugin ==> x.deep_view() == ChoiceView::Plugin,
        x matches Choice::Account { plugin_id } ==> x.deep_view() == (ChoiceView::Account
            { plugin_id: plugin_id@ }),
        x matches Choice::Confirm { account } ==> x.deep_view() == (ChoiceView::Confirm
            { account: account.deep_view() }),
        x matches Choice::Done(account) ==> x.deep_view()
            == (ChoiceView::Done(account.deep_view())),
        y matches PluginPick::Only { plugin_id, line } ==> y.deep_view() == (PluginPickView::Only
            { plugin_id: plugin_id@, line: line@ }),
        y matches PluginPick::Ask { question, keys } ==> y.deep_view() == (PluginPickView::Ask
            { question: question.deep_view(), keys: keys.deep_view() }),
{
}

/// What a project binds is seen as it is, field by field.
pub proof fn projects_are_seen_field_by_field(
    v: ProjectConfig,
    w: ProjectBinding,
    x: ClearPlan,
)
    ensures
        v.deep_view().version == v.version,
        v.deep_view().accounts == v.accounts.deep_view(),
        w.deep_view().path == w.path@,
        w.deep_view().accounts == w.accounts.deep_view(),
        x.deep_view().path == x.path@,
        x.deep_view().step == x.step.deep_view(),
{
}

/// What happens to the file of a project is seen as it is.
pub proof fn a_change_of_a_project_is_seen(v: ClearStep)
    ensures
        v is RemoveFile ==> v.deep_view() == ClearView::RemoveFile,
        v matches ClearStep::Write(config) ==> v.deep_view()
            == (ClearView::Write(config.deep_view())),
{
}

/// Who an account belongs to is seen as it is, field by field.
pub proof fn identities_are_seen_field_by_field(
    v: Identity,
    w: ClaudeCodeInfo,
    x: GeminiCodeAssistInfo,
    y: IdentityRow,
)
    ensures
        v.deep_view().email == v.email.deep_view(),
        v.deep_view().org_name == v.org_name.deep_view(),
        v.deep_view().plan == v.plan.deep_view(),
        v.deep_view().extra == v.extra.deep_view(),
        w.deep_view().email == w.email.deep_view(),
        w.deep_view().org_name == w.org_name.deep_view(),
        x.deep_view().project_id == x.project_id.deep_view(),
        x.deep_view().tier_name == x.tier_name.deep_view(),
        y.deep_view().plugin_id == y.plugin_id@,
        y.deep_view().alias == y.alias@,
        y.deep_view().email == y.email.deep_view(),
        y.deep_view().org_name == y.org_name.deep_view(),
        y.deep_view().plan == y.plan.deep_view(),
{
}

/// What is read of an allowance is seen as it is, field by field.
pub proof fn readings_are_seen_field_by_field(
    v: WindowQuota,
    w: WindowReading,
    x: LimitLine,
    y: QuotaHint,
    z: PrintedPercent,
    t: PrintedQuota,
    u: BodyField,
)
    ensures
        v.deep_view().remaining == v.remaining.deep_view(),
        v.deep_view().used == v.used.deep_view(),
        v.deep_view().reset_time == v.reset_time.deep_view(),
        w.deep_view().used_bits == w.used_bits,
        w.deep_view().reset_time == w.reset_time.deep_view(),
        x.deep_view().timestamp == x.timestamp@,
        x.deep_view().plan == x.plan.deep_view(),
        x.deep_view().session == x.session.deep_view(),
        x.deep_view().weekly == x.weekly.deep_view(),
        y.deep_view().timestamp == y.timestamp@,
        y.deep_view().reset == y.reset,
        z.deep_view().value == z.value.deep_view(),
        z.deep_view().word == z.word@,
        t.deep_view().percent == t.percent.deep_view(),
        t.deep_view().reset == t.reset,
        u.deep_view().outer == u.outer.deep_view(),
        u.deep_view().field == u.field@,
        u.deep_view().value == u.value@,
{
}

/// A number is seen in each of its forms.
pub proof fn numbers_are_seen_field_by_field(v: Number)
    ensures
        v.deep_view().signed == v.signed,
        v.deep_view().unsigned == v.unsigned,
        v.deep_view().bits == v.bits,
        v.deep_view().whole == v.whole,
        v.deep_view().text == v.text@,
{
}

/// Usage and its sources are seen as they are, field by field.
pub proof fn usage_is_seen_field_by_field(
    v: UsageMetrics,
    w: UsageSourceSummary,
    x: UsageSnapshot,
    y: Collected,
    z: MetricUpdate,
)
    ensures
        v.deep_view().requests == v.requests,
        v.deep_view().tokens_in == v.tokens_in,
        v.deep_view().tokens_out == v.tokens_out,
        v.deep_view().cost_usd == v.cost_usd,
        v.deep_view().extra == v.extra.deep_view(),
        w.deep_view().kind == w.kind@,
        w.deep_view().path_or_url == w.path_or_url.deep_view(),
        w.deep_view().metrics == w.metrics.deep_view(),
        w.deep_view().quota == w.quota.deep_view(),
        w.deep_view().warnings == w.warnings.deep_view(),
        x.deep_view().plugin_id == x.plugin_id@,
        x.deep_view().alias == x.alias@,
        x.deep_view().window == x.window,
        x.deep_view().source == x.source,
        x.deep_view().metrics == x.metrics.deep_view(),
        x.deep_view().local_metrics == x.local_metrics.deep_view(),
        x.deep_view().api_metrics == x.api_metrics.deep_view(),
        x.deep_view().quota == x.quota.deep_view(),
        x.deep_view().warnings == x.warnings.deep_view(),
        x.deep_view().sources == x.sources.deep_view(),
        x.deep_view().cached == x.cached,
        y.deep_view().local == y.local,
        y.deep_view().summary == y.summary.deep_view(),
        z.deep_view().name == z.name@,
        z.deep_view().amount == z.amount.deep_view(),
{
}

/// Amounts, literals and the steps of a pointer are seen as they are.
pub proof fn amounts_and_steps_are_seen(v: Amount, w: Literal, x: Segment, y: FileText)
    ensures
        v is One ==> v.deep_view() == AmountView::One,
        v matches Amount::Bits(b) ==> v.deep_view() == (AmountView::Bits(b)),
        v matches Amount::Text(s) ==> v.deep_view() == (AmountView::Text(s@)),
        w matches Literal::Text(s) ==> w.deep_view() == (LiteralView::Text(s@)),
        w matches Literal::Bool(b) ==> w.deep_view() == (LiteralView::Bool(b)),
        w is Null ==> w.deep_view() == LiteralView::Null,
        w matches Literal::Number(n) ==> w.deep_view() == (LiteralView::Number(n.deep_view())),
        x matches Segment::Field(s) ==> x.deep_view() == (SegmentView::Field(s@)),
        x matches Segment::Index(i) ==> x.deep_view() == (SegmentView::Index(i as nat)),
        y matches FileText::Contents(s) ==> y.deep_view() == (FileTextView::Contents(s@)),
        y is NotFound ==> y.deep_view() == FileTextView::NotFound,
        y matches FileText::Failed(s) ==> y.deep_view() == (FileTextView::Failed(s@)),
{
}

/// What a shell needs of its home is seen as it is, field by field.
pub proof fn homes_are_seen_field_by_field(v: SessionActivationConfig, w: SharedLink)
    ensures
        v.deep_view().env_var == v.env_var@,
        v.deep_view().default_home == v.default_home@,
        v.deep_view().shared_paths == v.shared_paths.deep_view(),
        w.deep_view().source == w.source@,
        w.deep_view().destination == w.destination@,
        w.deep_view().parent == w.parent.deep_view(),
{
}

/// What is copied into the home of a shell is seen as it is.
pub proof fn copies_are_seen(v: AuxStep)
    ensures
        v matches AuxStep::Copy { backup_path, destination, kind, required } ==> v.deep_view()
            == (AuxStepView::Copy { backup_path: backup_path@, destination: destination@, kind,
            required }),
        v matches AuxStep::Outside { aux_path } ==> v.deep_view() == (AuxStepView::Outside
            { aux_path: aux_path@ }),
{
}

/// What is kept of an account is seen as it is, field by field.
pub proof fn states_are_seen_field_by_field(v: StoredAuxState, w: AuxTarget)
    ensures
        v.deep_view().active_path == v.active_path@,
        v.deep_view().backup_relative_path == v.backup_relative_path@,
        v.deep_view().content == v.content.deep_view(),
        w.deep_view().active_path == w.active_path@,
        w.deep_view().backup_relative_path == w.backup_relative_path@,
        w.deep_view().kind == w.kind,
        w.deep_view().required == w.required,
{
}

/// What was found at a path is seen as it is.
pub proof fn contents_are_seen(v: SnapshotContent)
    ensures
        v is Missing ==> v.deep_view() == ContentView::Missing,
        v matches SnapshotContent::File(bytes) ==> v.deep_view() == (ContentView::File(bytes@)),
        v matches SnapshotContent::Dir(snapshot) ==> v.deep_view()
            == (ContentView::Dir(snapshot.files@.map_values(|f: DirectoryFile| (f.relative_path@,
            f.bytes@)))),
{
}

/// The screen and what it waits for are seen as they are, field by field.
pub proof fn the_screen_is_seen_field_by_field(
    v: Screen,
    w: Loader,
    x: AccountQuotaSummary,
    y: Percent,
)
    ensures
        v.deep_view().panel == v.panel,
        v.deep_view().accounts == v.accounts.deep_view(),
        v.deep_view().account_quota == v.account_quota.deep_view(),
        v.deep_view().selected == v.selected,
        v.deep_view().usage_window == v.usage_window,
        v.deep_view().usage_source == v.usage_source,
        v.deep_view().usage == v.usage.deep_view(),
        v.deep_view().plugins == v.plugins.deep_view(),
        v.deep_view().status == v.status@,
        v.deep_view().help_open == v.help_open,
        v.deep_view().should_quit == v.should_quit,
        v.deep_view().loader == v.loader.deep_view(),
        v.deep_view().spinner_tick == v.spinner_tick,
        w.deep_view().pending == w.pending@,
        w.deep_view().selected_index == w.selected_index,
        w.deep_view().selected_pending == w.selected_pending,
        w.deep_view().finished == w.finished,
        x.deep_view().remaining == x.remaining.deep_view(),
        x.deep_view().used == x.used,
        x.deep_view().reset_time == x.reset_time.deep_view(),
        x.deep_view().session_remaining == x.session_remaining.deep_view(),
        x.deep_view().weekly_remaining == x.weekly_remaining.deep_view(),
        y.deep_view().text == y.text@,
        y.deep_view().compact == y.compact@,
        y.deep_view().rest == y.rest,
{
}

/// What is shown is seen as it is, field by field.
pub proof fn what_is_shown_is_seen_field_by_field(
    v: Piece,
    w: TableRow,
    x: UsageTexts,
    y: AccountCells,
    z: Question,
)
    ensures
        v.deep_view().text == v.text@,
        v.deep_view().style == v.style,
        w.deep_view().cells == w.cells.deep_view(),
        w.deep_view().style == w.style,
        x.deep_view().requests == x.requests@,
        x.deep_view().tokens_in == x.tokens_in@,
        x.deep_view().tokens_out == x.tokens_out@,
        x.deep_view().cost == x.cost@,
        x.deep_view().quota == x.quota@,
        x.deep_view().left == x.left.deep_view(),
        x.deep_view().extra == pairs(x.extra@),
        y.deep_view().quota == y.quota@,
        y.deep_view().usage == y.usage@,
        y.deep_view().weekly_usage == y.weekly_usage@,
        y.deep_view().next_refresh == y.next_refresh@,
        z.deep_view().lines == z.lines.deep_view(),
        z.deep_view().prompt == z.prompt@,
{
}

/// Events, actions and listings are seen as they are.
pub proof fn events_and_actions_are_seen(v: QuotaEvent, w: KeyAction, x: Listing)
    ensures
        v matches QuotaEvent::Identities(rows) ==> v.deep_view()
            == (EventView::Identities(rows.deep_view())),
        v matches QuotaEvent::Quota { index, summary } ==> v.deep_view() == (EventView::Quota
            { index, summary: summary.deep_view() }),
        v matches QuotaEvent::SelectedUsage { index, snapshot } ==> v.deep_view()
            == (EventView::SelectedUsage { index, snapshot: snapshot.deep_view() }),
        v is Done ==> v.deep_view() == EventView::Done,
        v is Disconnected ==> v.deep_view() == EventView::Disconnected,
        w is Nothing ==> w.deep_view() == ActionView::Nothing,
        w matches KeyAction::Load { refresh } ==> w.deep_view() == (ActionView::Load { refresh }),
        w is Select ==> w.deep_view() == ActionView::Select,
        w matches KeyAction::Switch { plugin_id, alias } ==> w.deep_view() == (ActionView::Switch
            { plugin_id: plugin_id@, alias: alias@ }),
        x matches Listing::Note { title, text } ==> x.deep_view() == (ListingView::Note
            { title: title@, text: text@ }),
        x matches Listing::Table { title, header, header_style, widths, rows } ==> x.deep_view()
            == (ListingView::Table { title: title@, header: header.deep_view(), header_style,
            widths: widths@, rows: rows.deep_view() }),
{
}

/// What went wrong with a provider is seen as it is.
pub proof fn failures_of_providers_are_seen(v: ClaudeError, w: CodexError)
    ensures
        v is ParseCredentials ==> v.deep_view() == ClaudeErrorView::ParseCredentials,
        v is MissingAccessToken ==> v.deep_view() == ClaudeErrorView::MissingAccessToken,
        v is MissingRefreshToken ==> v.deep_view() == ClaudeErrorView::MissingRefreshToken,
        v matches ClaudeError::RateLimited { retry_after } ==> v.deep_view()
            == (ClaudeErrorView::RateLimited { retry_after: retry_after@ }),
        v is AuthenticationRequired ==> v.deep_view() == ClaudeErrorView::AuthenticationRequired,
        v matches ClaudeError::ApiRequest { url, message } ==> v.deep_view()
            == (ClaudeErrorView::ApiRequest { url: url@, message: message@ }),
        w is ParseCredentials ==> w.deep_view() == CodexErrorView::ParseCredentials,
        w is MissingAccessToken ==> w.deep_view() == CodexErrorView::MissingAccessToken,
        w is MissingRefreshToken ==> w.deep_view() == CodexErrorView::MissingRefreshToken,
        w matches CodexError::ApiRequest { url, message } ==> w.deep_view()
            == (CodexErrorView::ApiRequest { url: url@, message: message@ }),
        w is AuthenticationRequired ==> w.deep_view() == CodexErrorView::AuthenticationRequired,
{
}

/// What came of a command is seen as it is: the answer, or the message of the error.
pub proof fn results_are_seen(
    account: ResolvedAccount,
    step: ClearStep,
    e: CommandError,
    plugin: String,
    alias: Option<String>,
)
    ensures
        selection_view(Ok(account)) == Ok::<ResolvedView, Seq<char>>(account.deep_view()),
        selection_view(Err(e)) == Err::<ResolvedView, Seq<char>>(e.message@),
        clear_view(Ok(step)) == Ok::<ClearView, Seq<char>>(step.deep_view()),
        clear_view(Err(e)) == Err::<ClearView, Seq<char>>(e.message@),
        target_view(Ok(Some((plugin, alias)))) == Ok::<Option<(Seq<char>, Option<Seq<char>>)>, Seq<char>>(
            Some((plugin@, alias.deep_view())),
        ),
        target_view(Ok(None)) == Ok::<Option<(Seq<char>, Option<Seq<char>>)>, Seq<char>>(None),
        target_view(Err(e)) == Err::<Option<(Seq<char>, Option<Seq<char>>)>, Seq<char>>(e.message@),
{
}

/// What came of asking a provider is seen as it is: the answer, or what went wrong.
pub proof fn answers_of_providers_are_seen(value: Json, v: ClaudeError, w: CodexError)
    ensures
        crate::claude::outcome_view(Ok(value)) == Ok::<JsonView, ClaudeErrorView>(value.deep_view()),
        crate::claude::outcome_view(Err(v)) == Err::<JsonView, ClaudeErrorView>(v.deep_view()),
        crate::codex::outcome_view(Ok(value)) == Ok::<JsonView, CodexErrorView>(value.deep_view()),
        crate::codex::outcome_view(Err(w)) == Err::<JsonView, CodexErrorView>(w.deep_view()),
{
}

/// A place for credentials is seen as it is, or why there is none.
pub proof fn places_of_credentials_are_seen(
    store: ResolvedCredentialStore,
    cause: PathsError,
    field: String,
)
    ensures
        outcome(Ok(store)) == Ok::<StoreView, ResolveProblem>(store.deep_view()),
        outcome(Err(StoreResolveError::Paths(cause))) == Err::<StoreView, ResolveProblem>(
            ResolveProblem::NoHome,
        ),
        outcome(Err(StoreResolveError::MissingField(field))) == Err::<StoreView, ResolveProblem>(
            ResolveProblem::MissingField(field@),
        ),
        outcome(Err(StoreResolveError::UnsupportedPlatform)) == Err::<StoreView, ResolveProblem>(
            ResolveProblem::UnsupportedPlatform,
        ),
        store matches ResolvedCredentialStore::File(f) ==> store.deep_view() == (StoreView::File {
            path: f.location(),
            permissions: f.mode(),
        }) && !store.may_be_empty(),
        store matches ResolvedCredentialStore::Keychain(k) ==> store.deep_view()
            == (StoreView::Keychain {
            backend: k.kept_in(),
            allow_empty_active: k.may_be_empty(),
        }) && store.may_be_empty() == k.may_be_empty(),
{
}

/// What is checked of a manifest is seen as it is: nothing, or what is missing.
pub proof fn what_is_missing_is_seen(e: ManifestValidationError)
    ensures
        problem(Ok(())) is None,
        problem(Err(e)) == Some(e.0@),
{
}

/// Lists of pairs are seen pair by pair, each with its two parts in their places.
pub proof fn pairs_are_seen(
    list: Seq<(String, String)>,
    failures: Seq<PluginLoadFailure>,
    errors: Seq<PluginStatusError>,
    manifests: Seq<LoadedManifest>,
    i: int,
)
    ensures
        pairs_of(list).len() == list.len() && header_pairs(list).len() == list.len() && pairs(
            list,
        ).len() == list.len() && header_views(list).len() == list.len(),
        0 <= i < list.len() ==> pairs_of(list)[i] == (list[i].0@, list[i].1@) && header_pairs(list)[i]
            == (list[i].0@, list[i].1@) && pairs(list)[i] == (list[i].0@, list[i].1@)
            && header_views(list)[i] == (list[i].0@, list[i].1@),
        failure_views(failures).len() == failures.len(),
        0 <= i < failures.len() ==> failure_views(failures)[i] == (
            failures[i].path@,
            failures[i].error@,
        ),
        status_error_views(errors).len() == errors.len() && error_views(errors).len()
            == errors.len(),
        0 <= i < errors.len() ==> status_error_views(errors)[i] == (errors[i].path@, errors[i].error@)
            && error_views(errors)[i] == (errors[i].path@, errors[i].error@),
        plugin_names(manifests).len() == manifests.len(),
        0 <= i < manifests.len() ==> plugin_names(manifests)[i] == (
            manifests[i].manifest.id@,
            manifests[i].manifest.display_name@,
        ),
{
}

/// A change of a credential is seen with where it is made and what is written there.
pub proof fn changes_of_credentials_are_seen(v: CredentialEdit)
    ensures
        v.deep_view().outer == v.outer.deep_view(),
        v.deep_view().field == v.field@,
        v.value matches EditValue::Text(s) ==> v.deep_view().value == EditValueView::Text(s@),
        v.value matches EditValue::Integer(n) ==> v.deep_view().value == EditValueView::Integer(n),
{
}

} // verus!
