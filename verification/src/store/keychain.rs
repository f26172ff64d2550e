//! A credential that is kept in the keychain of macOS or in the secret service of Linux.
use vstd::prelude::*;

use crate::store::StoreError;
use crate::text::{
    join, join3, join_of, signed_decimal, signed_decimal_of, text_of_utf8, trim, trim_of, utf8_text,
};
use crate::text_map::{TextMap, sorted_items};

verus! {

/// A keychain entry that holds the credential of the active account.
pub struct KeychainStore {
    backend: KeychainBackend,
    allow_empty_active: bool,
}

enum KeychainBackend {
    Macos { service: String, account: String },
    Linux { schema: String, attributes: TextMap<String> },
}

pub enum BackendView {
    Macos { service: Seq<char>, account: Seq<char> },
    Linux { schema: Seq<char>, attributes: Map<Seq<char>, Seq<char>> },
}

impl KeychainStore {
    /// The entry that holds the credential.
    pub closed spec fn kept_in(&self) -> BackendView {
        match self.backend {
            KeychainBackend::Macos { service, account } => BackendView::Macos {
                service: service@,
                account: account@,
            },
            KeychainBackend::Linux { schema, attributes } => BackendView::Linux {
                schema: schema@,
                attributes: attributes.deep_view(),
            },
        }
    }

    /// Whether there may be no such entry.
    pub closed spec fn may_be_empty(&self) -> bool {
        self.allow_empty_active
    }

    pub fn macos(service: String, account: String, allow_empty_active: bool) -> (r: KeychainStore)
        ensures
            r.kept_in() == (BackendView::Macos { service: service@, account: account@ }),
            r.may_be_empty() == allow_empty_active,
    {
        KeychainStore { backend: KeychainBackend::Macos { service, account }, allow_empty_active }
    }

    pub fn linux(schema: String, attributes: TextMap<String>, allow_empty_active: bool) -> (r:
        KeychainStore)
        ensures
            r.kept_in() == (BackendView::Linux {
                schema: schema@,
                attributes: attributes.deep_view(),
            }),
            r.may_be_empty() == allow_empty_active,
    {
        KeychainStore { backend: KeychainBackend::Linux { schema, attributes }, allow_empty_active }
    }

    pub fn allow_empty_active(&self) -> (r: bool)
        ensures
            r == self.may_be_empty(),
    {
        self.allow_empty_active
    }

    pub fn macos_service(&self) -> (r: Option<&str>)
        ensures
            r.deep_view() == (match self.kept_in() {
                BackendView::Macos { service, .. } => Some(service),
                BackendView::Linux { .. } => None,
            }),
    {
        match &self.backend {
            KeychainBackend::Macos { service, .. } => Some(service.as_str()),
            KeychainBackend::Linux { .. } => None,
        }
    }

    pub fn macos_account(&self) -> (r: Option<&str>)
        ensures
            r.deep_view() == (match self.kept_in() {
                BackendView::Macos { account, .. } => Some(account),
                BackendView::Linux { .. } => None,
            }),
    {
        match &self.backend {
            KeychainBackend::Macos { account, .. } => Some(account.as_str()),
            KeychainBackend::Linux { .. } => None,
        }
    }

    pub fn linux_schema(&self) -> (r: Option<&str>)
        ensures
            r.deep_view() == (match self.kept_in() {
                BackendView::Macos { .. } => None,
                BackendView::Linux { schema, .. } => Some(schema),
            }),
    {
        match &self.backend {
            KeychainBackend::Macos { .. } => None,
            KeychainBackend::Linux { schema, .. } => Some(schema.as_str()),
        }
    }

    pub fn linux_attributes(&self) -> (r: Option<&TextMap<String>>)
        ensures
            r.deep_view() == (match self.kept_in() {
                BackendView::Macos { .. } => None,
                BackendView::Linux { attributes, .. } => Some(attributes),
            }),
    {
        match &self.backend {
            KeychainBackend::Macos { .. } => None,
            KeychainBackend::Linux { attributes, .. } => Some(attributes),
        }
    }
}

// ---------------------------------------------------------------------------------------------
// The `security` command of macOS
// ---------------------------------------------------------------------------------------------
/// The exit status by which the command says that there is no such entry.
pub const NOT_FOUND_STATUS: i32 = 44;

/// The command that reaches the keychain.
pub fn security_bin() -> (r: String)
    ensures
        r@ == "/usr/bin/security"@,
{
    "/usr/bin/security".to_owned()
}

/// What the keychain is asked to do.
#[derive(Clone, Copy, Debug, PartialEq, Eq, Structural)]
pub enum KeychainRequest {
    Read,
    Exists,
    Delete,
}

/// The action of the command that serves a request.
pub open spec fn action_of(request: KeychainRequest) -> Seq<char> {
    match request {
        KeychainRequest::Read => "find-generic-password"@,
        KeychainRequest::Exists => "find-generic-password"@,
        KeychainRequest::Delete => "delete-generic-password"@,
    }
}

fn action(request: KeychainRequest) -> (r: &'static str)
    ensures
        r@ == action_of(request),
{
    match request {
        KeychainRequest::Read => "find-generic-password",
        KeychainRequest::Exists => "find-generic-password",
        KeychainRequest::Delete => "delete-generic-password",
    }
}

pub open spec fn request_words(request: KeychainRequest, service: Seq<char>, account: Seq<char>) -> Seq<
    Seq<char>,
> {
    let entry = seq!["-s"@, service, "-a"@, account];
    match request {
        KeychainRequest::Read => seq![action_of(request), "-w"@] + entry,
        _ => seq![action_of(request)] + entry,
    }
}

/// The arguments of the command for a request.
pub fn request_args(request: KeychainRequest, service: &str, account: &str) -> (r: Vec<String>)
    ensures
        r.deep_view() == request_words(request, service@, account@),
{
    let mut out: Vec<String> = Vec::new();
    out.push(action(request).to_owned());
    if request == KeychainRequest::Read {
        out.push("-w".to_owned());
    }
    out.push("-s".to_owned());
    out.push(service.to_owned());
    out.push("-a".to_owned());
    out.push(account.to_owned());
    assert(out.deep_view() == request_words(request, service@, account@));
    out
}

/// The arguments of the command that saves a password, in place of the one there was.
pub fn write_args(service: &str, account: &str, password: &str) -> (r: Vec<String>)
    ensures
        r.deep_view() == seq![
            "add-generic-password"@,
            "-U"@,
            "-s"@,
            service@,
            "-a"@,
            account@,
            "-w"@,
            password@,
        ],
{
    let mut out: Vec<String> = Vec::new();
    out.push("add-generic-password".to_owned());
    out.push("-U".to_owned());
    out.push("-s".to_owned());
    out.push(service.to_owned());
    out.push("-a".to_owned());
    out.push(account.to_owned());
    out.push("-w".to_owned());
    out.push(password.to_owned());
    assert(out.deep_view() == seq![
        "add-generic-password"@,
        "-U"@,
        "-s"@,
        service@,
        "-a"@,
        account@,
        "-w"@,
        password@,
    ]);
    out
}

/// Whether `e` says that the command failed in `action` with `status`.
pub open spec fn is_command_failure(
    e: StoreError,
    action: Seq<char>,
    service: Seq<char>,
    account: Seq<char>,
    status: Option<i32>,
    stderr: Seq<char>,
) -> bool {
    match e {
        StoreError::CommandFailure {
            program: p,
            action: a,
            service: s,
            account: c,
            status: t,
            stderr: m,
        } => {
            &&& p@ == "/usr/bin/security"@
            &&& a@ == action
            &&& s@ == service
            &&& c@ == account
            &&& t@ == (match status {
                Some(code) => signed_decimal_of(code as int),
                None => "terminated by signal"@,
            })
            &&& m@ == trim_of(stderr)
        },
        _ => false,
    }
}

fn command_failure(
    action: &str,
    service: &str,
    account: &str,
    status: Option<i32>,
    stderr: &str,
) -> (r: StoreError)
    ensures
        is_command_failure(r, action@, service@, account@, status, stderr@),
{
    StoreError::CommandFailure {
        program: security_bin(),
        action: action.to_owned(),
        service: service.to_owned(),
        account: account.to_owned(),
        status: match status {
            Some(code) => signed_decimal(code as i64),
            None => "terminated by signal".to_owned(),
        },
        stderr: trim(stderr),
    }
}

/// The bytes without one line end at their end.
pub open spec fn without_newline(bytes: Seq<u8>) -> Seq<u8> {
    if bytes.len() > 0 && bytes.last() == 10 {
        let cut = bytes.drop_last();
        if cut.len() > 0 && cut.last() == 13 {
            cut.drop_last()
        } else {
            cut
        }
    } else {
        bytes
    }
}

/// The bytes without one line end at their end.
pub fn trim_trailing_newline(bytes: Vec<u8>) -> (r: Vec<u8>)
    ensures
        r@ == without_newline(bytes@),
{
    let mut out = bytes;
    if out.len() > 0 && out[out.len() - 1] == 10 {
        let _ = out.pop();
        if out.len() > 0 && out[out.len() - 1] == 13 {
            let _ = out.pop();
        }
    }
    out
}

/// What came of reading a password.
pub fn read_outcome(
    service: &str,
    account: &str,
    allow_empty_active: bool,
    status: Option<i32>,
    stdout: Vec<u8>,
    stderr: &str,
) -> (r: Result<Vec<u8>, StoreError>)
    ensures
        match status {
            Some(0) => r is Ok && r->Ok_0@ == without_newline(stdout@),
            Some(NOT_FOUND_STATUS) => if allow_empty_active {
                r is Ok && r->Ok_0@ == Seq::<u8>::empty()
            } else {
                r matches Err(StoreError::KeychainItemNotFound { service: s, account: a }) && s@
                    == service@ && a@ == account@
            },
            _ => r is Err && is_command_failure(
                r->Err_0,
                "find-generic-password"@,
                service@,
                account@,
                status,
                stderr@,
            ),
        },
{
    match status {
        Some(0) => Ok(trim_trailing_newline(stdout)),
        Some(NOT_FOUND_STATUS) => if allow_empty_active {
            Ok(Vec::new())
        } else {
            Err(
                StoreError::KeychainItemNotFound {
                    service: service.to_owned(),
                    account: account.to_owned(),
                },
            )
        },
        _ => Err(command_failure("find-generic-password", service, account, status, stderr)),
    }
}

/// What came of asking whether a password is there.
pub fn exists_outcome(service: &str, account: &str, status: Option<i32>, stderr: &str) -> (r: Result<
    bool,
    StoreError,
>)
    ensures
        match status {
            Some(0) => r == Ok::<bool, StoreError>(true),
            Some(NOT_FOUND_STATUS) => r == Ok::<bool, StoreError>(false),
            _ => r is Err && is_command_failure(
                r->Err_0,
                "find-generic-password"@,
                service@,
                account@,
                status,
                stderr@,
            ),
        },
{
    match status {
        Some(0) => Ok(true),
        Some(NOT_FOUND_STATUS) => Ok(false),
        _ => Err(command_failure("find-generic-password", service, account, status, stderr)),
    }
}

/// What came of saving a password.
pub fn write_outcome(service: &str, account: &str, status: Option<i32>, stderr: &str) -> (r: Result<
    (),
    StoreError,
>)
    ensures
        match status {
            Some(0) => r is Ok,
            _ => r is Err && is_command_failure(
                r->Err_0,
                "add-generic-password"@,
                service@,
                account@,
                status,
                stderr@,
            ),
        },
{
    match status {
        Some(0) => Ok(()),
        _ => Err(command_failure("add-generic-password", service, account, status, stderr)),
    }
}

/// What came of removing a password; one that is not there counts as removed.
pub fn delete_outcome(service: &str, account: &str, status: Option<i32>, stderr: &str) -> (r: Result<
    (),
    StoreError,
>)
    ensures
        match status {
            Some(0) => r is Ok,
            Some(NOT_FOUND_STATUS) => r is Ok,
            _ => r is Err && is_command_failure(
                r->Err_0,
                "delete-generic-password"@,
                service@,
                account@,
                status,
                stderr@,
            ),
        },
{
    match status {
        Some(0) => Ok(()),
        Some(NOT_FOUND_STATUS) => Ok(()),
        _ => Err(command_failure("delete-generic-password", service, account, status, stderr)),
    }
}

/// The password that holds a credential, which has to be text.
pub fn password_of(bytes: Vec<u8>) -> (r: Result<String, StoreError>)
    ensures
        match r {
            Ok(text) => utf8_text(bytes@) == Some(text@),
            Err(e) => e == StoreError::InvalidKeychainEncoding && utf8_text(bytes@) is None,
        },
{
    match text_of_utf8(bytes) {
        Some(text) => Ok(text),
        None => Err(StoreError::InvalidKeychainEncoding),
    }
}

// ---------------------------------------------------------------------------------------------
// The secret service of Linux
// ---------------------------------------------------------------------------------------------
/// The attributes as `key=value`, in the order of their keys.
pub open spec fn attributes_text(attributes: Map<Seq<char>, Seq<char>>) -> Seq<char> {
    join_of(
        sorted_items(attributes).map_values(|e: (Seq<char>, Seq<char>)| e.0 + "="@ + e.1),
        ", "@,
    )
}

pub fn format_attributes(attributes: &TextMap<String>) -> (r: String)
    ensures
        r@ == attributes_text(attributes.deep_view()),
{
    let n = attributes.len();
    let ghost all = attributes.items().map_values(|e: (Seq<char>, Seq<char>)| e.0 + "="@ + e.1);
    let mut parts: Vec<String> = Vec::new();
    let mut i: usize = 0;
    while i < n
        invariant
            i <= n,
            n == attributes.items().len(),
            all == attributes.items().map_values(|e: (Seq<char>, Seq<char>)| e.0 + "="@ + e.1),
            parts.deep_view() == all.take(i as int),
        decreases n - i,
    {
        let ghost before = parts.deep_view();
        parts.push(join3(attributes.key_at(i).as_str(), "=", attributes.value_at(i).as_str()));
        i = i + 1;
        assert(parts.deep_view() == before.push(all[i - 1]));
        assert(all.take(i as int) == all.take(i - 1).push(all[i - 1]));
    }
    assert(all.take(i as int) == all);
    join(&parts, ", ")
}

/// The failure of an operation of the secret service on an entry.
pub fn linux_failure(action: &str, schema: &str, attributes: &TextMap<String>, message: &str) -> (r:
    StoreError)
    ensures
        r matches StoreError::SecretServiceFailure { action: a, locator, message: m } && a@
            == action@ && locator@ == schema@ + " ["@ + attributes_text(attributes.deep_view())
            + "]"@ && m@ == message@,
{
    let mut locator = join3(schema, " [", format_attributes(attributes).as_str());
    locator.append("]");
    StoreError::SecretServiceFailure {
        action: action.to_owned(),
        locator,
        message: message.to_owned(),
    }
}

/// The failure of a search of the secret service.
pub fn search_failure(action: &str, attributes: &TextMap<String>, message: &str) -> (r: StoreError)
    ensures
        r matches StoreError::SecretServiceFailure { action: a, locator, message: m } && a@
            == action@ && locator@ == attributes_text(attributes.deep_view()) && m@ == message@,
{
    StoreError::SecretServiceFailure {
        action: action.to_owned(),
        locator: format_attributes(attributes),
        message: message.to_owned(),
    }
}

/// What came of looking for a secret that is not there.
pub fn secret_missing(attributes: &TextMap<String>, allow_empty_active: bool) -> (r: Result<
    Vec<u8>,
    StoreError,
>)
    ensures
        match r {
            Ok(bytes) => allow_empty_active && bytes@ == Seq::<u8>::empty(),
            Err(StoreError::SecretServiceItemNotFound { attributes: a }) => !allow_empty_active
                && a@ == attributes_text(attributes.deep_view()),
            Err(_) => false,
        },
{
    if allow_empty_active {
        Ok(Vec::new())
    } else {
        Err(StoreError::SecretServiceItemNotFound { attributes: format_attributes(attributes) })
    }
}

} // verus!
