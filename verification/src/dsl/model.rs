//! The declarative auth contract: what identity and authority an application
//! needs, never how authentication is implemented. Semantically identical
//! declarations converge on one canonical form and one fingerprint.
use vstd::prelude::*;
use vstd::relations::sorted_by;
use crate::text::{
    blank_seq, cat, cat3, contains_char, contains_str, contains_seq, hex16, hex_n, is_blank,
    join, join_with, owned, push_utf8, utf8, lemma_utf8_concat, views, signed_decimal, decimal,
    u64_decimal, str_eq, seq_le, str_le, lemma_map_push, lemma_map_take_step, has_char,
    bool_text, bool_str, list_text, append_list,
};
use crate::sorting::{
    Ordered, insertion_sort, isort_by, views_of, le_of, lemma_isort_by_map, lemma_isort_by_unique_keys,
    lemma_string_order_total, lemma_isort_by_permutation, lemma_isort_by_sorted, lemma_isort_by_twice,
    lemma_isort_by,
};

verus! {

// ---------------------------------------------------------------------------
// Types and their views.
// ---------------------------------------------------------------------------

/// The declarative auth contract for an application: what `use auth { ... }`
/// produces.
#[derive(Debug, Clone, PartialEq, Eq)]
pub struct AuthConfig {
    pub multi_tenant: bool,
    pub providers: Vec<String>,
    pub claims: Vec<ClaimDef>,
    pub isolation: IsolationMode,
    pub agents: bool,
    pub policies: Vec<PolicyDef>,
    pub ui: AuthUiConfig,
    pub password_policy: PasswordPolicy,
    pub storage: StorageConfig,
}

#[derive(Debug, Clone, PartialEq, Eq)]
pub struct StorageConfig {
    pub authority: String,
    pub audit: String,
    pub reporting: String,
}

#[derive(Debug, Clone, PartialEq, Eq)]
pub struct AuthConfigError {
    pub message: String,
}

#[derive(Debug, Clone, PartialEq, Eq, PartialOrd, Ord)]
pub struct ClaimDef {
    pub name: String,
    pub kind: ClaimKind,
}

#[derive(Debug, Clone, PartialEq, Eq, PartialOrd, Ord)]
pub enum ClaimKind {
    Enum(Vec<String>),
    String,
    Integer,
    Boolean,
}

#[derive(Debug, Clone, PartialEq, Eq, PartialOrd, Ord)]
pub struct PolicyDef {
    pub capability: String,
    pub tenant_current: bool,
    pub resource: Option<String>,
    pub action: Option<String>,
    pub claims: Vec<PolicyClaimCondition>,
}

#[derive(Debug, Clone, PartialEq, Eq, PartialOrd, Ord)]
pub struct PolicyClaimCondition {
    pub claim: String,
    pub values: Vec<String>,
}

#[derive(Debug, Clone, Copy, PartialEq, Eq, Structural)]
pub struct PasswordPolicy {
    pub min_length: usize,
    pub max_length: usize,
    pub require_uppercase: bool,
    pub require_lowercase: bool,
    pub require_number: bool,
    pub require_special_character: bool,
    pub password_expiration_days: Option<u32>,
    pub password_history_count: usize,
    pub allow_password_change: bool,
    pub allow_password_reset: bool,
}

#[derive(Debug, Clone, Copy, PartialEq, Eq, Structural)]
pub enum IsolationMode {
    Strict,
    SharedStorageWithPolicy,
}

/// UI is an output of the auth contract: the default needs no
/// configuration, and customization narrows individual screens.
#[derive(Debug, Clone, PartialEq, Eq)]
pub struct AuthUiConfig {
    pub mode: AuthUiMode,
    pub theme: UiTheme,
    pub screens: Vec<UiScreenOverride>,
}

#[derive(Debug, Clone, Copy, PartialEq, Eq, PartialOrd, Ord, Structural)]
pub enum AuthUiMode {
    Default,
    Custom,
}

#[derive(Debug, Clone, PartialEq, Eq, PartialOrd, Ord)]
pub struct UiTheme {
    pub name: String,
}

#[derive(Debug, Clone, Copy, PartialEq, Eq, PartialOrd, Ord, Structural)]
pub struct UiScreenOverride {
    pub screen: UiScreen,
    pub mode: AuthUiMode,
}

#[derive(Debug, Clone, Copy, PartialEq, Eq, Hash, PartialOrd, Ord, Structural)]
pub enum UiScreen {
    Login,
    Signup,
    Account,
    Tenant,
    Agents,
    PasswordForgot,
    PasswordReset,
    PasswordChange,
    EmailVerification,
    AccountLinks,
    Profile,
    Devices,
    Sessions,
    Mfa,
    Passkeys,
    Recovery,
}

pub enum ClaimKindView {
    Enum(Seq<Seq<char>>),
    String,
    Integer,
    Boolean,
}

pub struct ClaimDefView {
    pub name: Seq<char>,
    pub kind: ClaimKindView,
}

pub struct PolicyDefView {
    pub capability: Seq<char>,
    pub tenant_current: bool,
    pub resource: Option<Seq<char>>,
    pub action: Option<Seq<char>>,
    pub claims: Seq<(Seq<char>, Seq<Seq<char>>)>,
}

pub struct AuthUiConfigView {
    pub mode: AuthUiMode,
    pub theme: Seq<char>,
    pub screens: Seq<UiScreenOverride>,
}

pub struct StorageConfigView {
    pub authority: Seq<char>,
    pub audit: Seq<char>,
    pub reporting: Seq<char>,
}

pub struct AuthConfigView {
    pub multi_tenant: bool,
    pub providers: Seq<Seq<char>>,
    pub claims: Seq<ClaimDefView>,
    pub isolation: IsolationMode,
    pub agents: bool,
    pub policies: Seq<PolicyDefView>,
    pub ui: AuthUiConfigView,
    pub password_policy: PasswordPolicy,
    pub storage: StorageConfigView,
}

pub open spec fn opt_view(o: Option<String>) -> Option<Seq<char>> {
    match o {
        Some(s) => Some(s@),
        None => None,
    }
}

impl View for ClaimKind {
    type V = ClaimKindView;

    open spec fn view(&self) -> ClaimKindView {
        match self {
            ClaimKind::Enum(values) => ClaimKindView::Enum(views(values@)),
            ClaimKind::String => ClaimKindView::String,
            ClaimKind::Integer => ClaimKindView::Integer,
            ClaimKind::Boolean => ClaimKindView::Boolean,
        }
    }
}

impl View for ClaimDef {
    type V = ClaimDefView;

    open spec fn view(&self) -> ClaimDefView {
        ClaimDefView { name: self.name@, kind: self.kind@ }
    }
}

impl View for PolicyClaimCondition {
    type V = (Seq<char>, Seq<Seq<char>>);

    open spec fn view(&self) -> (Seq<char>, Seq<Seq<char>>) {
        (self.claim@, views(self.values@))
    }
}

impl View for PolicyDef {
    type V = PolicyDefView;

    open spec fn view(&self) -> PolicyDefView {
        PolicyDefView {
            capability: self.capability@,
            tenant_current: self.tenant_current,
            resource: opt_view(self.resource),
            action: opt_view(self.action),
            claims: views_of(self.claims@),
        }
    }
}

impl View for AuthUiConfig {
    type V = AuthUiConfigView;

    open spec fn view(&self) -> AuthUiConfigView {
        AuthUiConfigView { mode: self.mode, theme: self.theme.name@, screens: self.screens@ }
    }
}

impl View for StorageConfig {
    type V = StorageConfigView;

    open spec fn view(&self) -> StorageConfigView {
        StorageConfigView {
            authority: self.authority@,
            audit: self.audit@,
            reporting: self.reporting@,
        }
    }
}

impl View for AuthConfig {
    type V = AuthConfigView;

    open spec fn view(&self) -> AuthConfigView {
        AuthConfigView {
            multi_tenant: self.multi_tenant,
            providers: views(self.providers@),
            claims: views_of(self.claims@),
            isolation: self.isolation,
            agents: self.agents,
            policies: views_of(self.policies@),
            ui: self.ui@,
            password_policy: self.password_policy,
            storage: self.storage@,
        }
    }
}

// ---------------------------------------------------------------------------
// Defaults.
// ---------------------------------------------------------------------------

/// The password policy that applies when none is declared.
pub open spec fn default_password_policy() -> PasswordPolicy {
    PasswordPolicy {
        min_length: 12,
        max_length: 128,
        require_uppercase: false,
        require_lowercase: false,
        require_number: false,
        require_special_character: false,
        password_expiration_days: None,
        password_history_count: 5,
        allow_password_change: true,
        allow_password_reset: true,
    }
}

impl Default for PasswordPolicy {
    fn default() -> (r: Self)
        ensures
            r == default_password_policy(),
    {
        PasswordPolicy {
            min_length: 12,
            max_length: 128,
            require_uppercase: false,
            require_lowercase: false,
            require_number: false,
            require_special_character: false,
            password_expiration_days: None,
            password_history_count: 5,
            allow_password_change: true,
            allow_password_reset: true,
        }
    }
}

impl Default for StorageConfig {
    fn default() -> (r: Self)
        ensures
            r@ == (StorageConfigView {
                authority: "feltdb"@,
                audit: "feltdb"@,
                reporting: "authport_projection"@,
            }),
    {
        StorageConfig {
            authority: owned("feltdb"),
            audit: owned("feltdb"),
            reporting: owned("authport_projection"),
        }
    }
}

impl Default for UiTheme {
    fn default() -> (r: Self)
        ensures
            r.name@ == "authport-default"@,
    {
        UiTheme { name: owned("authport-default") }
    }
}

impl Default for AuthUiConfig {
    fn default() -> (r: Self)
        ensures
            r@ == (AuthUiConfigView {
                mode: AuthUiMode::Default,
                theme: "authport-default"@,
                screens: Seq::empty(),
            }),
    {
        let r = AuthUiConfig { mode: AuthUiMode::Default, theme: UiTheme::default(), screens: Vec::new() };
        assert(r.screens@ =~= Seq::<UiScreenOverride>::empty());
        r
    }
}

/// The contract an empty declaration gives.
pub open spec fn default_config_view() -> AuthConfigView {
    AuthConfigView {
        multi_tenant: false,
        providers: Seq::empty(),
        claims: Seq::empty(),
        isolation: IsolationMode::Strict,
        agents: false,
        policies: Seq::empty(),
        ui: AuthUiConfigView {
            mode: AuthUiMode::Default,
            theme: "authport-default"@,
            screens: Seq::empty(),
        },
        password_policy: default_password_policy(),
        storage: StorageConfigView {
            authority: "feltdb"@,
            audit: "feltdb"@,
            reporting: "authport_projection"@,
        },
    }
}

impl Default for AuthConfig {
    fn default() -> (r: Self)
        ensures
            r@ == default_config_view(),
    {
        let r = AuthConfig {
            multi_tenant: false,
            providers: Vec::new(),
            claims: Vec::new(),
            isolation: IsolationMode::Strict,
            agents: false,
            policies: Vec::new(),
            ui: AuthUiConfig::default(),
            password_policy: PasswordPolicy::default(),
            storage: StorageConfig::default(),
        };
        assert(views(r.providers@) =~= Seq::<Seq<char>>::empty());
        assert(views_of(r.claims@) =~= Seq::<ClaimDefView>::empty());
        assert(views_of(r.policies@) =~= Seq::<PolicyDefView>::empty());
        r
    }
}

// ---------------------------------------------------------------------------
// Names.
// ---------------------------------------------------------------------------

pub open spec fn isolation_name(m: IsolationMode) -> Seq<char> {
    match m {
        IsolationMode::Strict => "strict"@,
        IsolationMode::SharedStorageWithPolicy => "shared_storage_with_policy"@,
    }
}

/// The `Debug` spelling of an isolation mode, which the canonical form uses.
pub open spec fn isolation_debug(m: IsolationMode) -> Seq<char> {
    match m {
        IsolationMode::Strict => "Strict"@,
        IsolationMode::SharedStorageWithPolicy => "SharedStorageWithPolicy"@,
    }
}

impl IsolationMode {
    pub fn as_str(&self) -> (r: &'static str)
        ensures
            r@ == isolation_name(*self),
    {
        match self {
            IsolationMode::Strict => "strict",
            IsolationMode::SharedStorageWithPolicy => "shared_storage_with_policy",
        }
    }
}

fn isolation_debug_exec(m: IsolationMode) -> (r: &'static str)
    ensures
        r@ == isolation_debug(m),
{
    match m {
        IsolationMode::Strict => "Strict",
        IsolationMode::SharedStorageWithPolicy => "SharedStorageWithPolicy",
    }
}

pub open spec fn ui_mode_name(m: AuthUiMode) -> Seq<char> {
    match m {
        AuthUiMode::Default => "default"@,
        AuthUiMode::Custom => "custom"@,
    }
}

impl AuthUiMode {
    pub fn as_str(&self) -> (r: &'static str)
        ensures
            r@ == ui_mode_name(*self),
    {
        match self {
            AuthUiMode::Default => "default",
            AuthUiMode::Custom => "custom",
        }
    }
}

pub open spec fn ui_screen_name(s: UiScreen) -> Seq<char> {
    match s {
        UiScreen::Login => "login"@,
        UiScreen::Signup => "signup"@,
        UiScreen::Account => "account"@,
        UiScreen::Tenant => "tenant"@,
        UiScreen::Agents => "agents"@,
        UiScreen::PasswordForgot => "password_forgot"@,
        UiScreen::PasswordReset => "password_reset"@,
        UiScreen::PasswordChange => "password_change"@,
        UiScreen::EmailVerification => "email_verification"@,
        UiScreen::AccountLinks => "account_links"@,
        UiScreen::Profile => "profile"@,
        UiScreen::Devices => "devices"@,
        UiScreen::Sessions => "sessions"@,
        UiScreen::Mfa => "mfa"@,
        UiScreen::Passkeys => "passkeys"@,
        UiScreen::Recovery => "recovery"@,
    }
}

/// The screen a name denotes.
pub open spec fn ui_screen_named(s: Seq<char>) -> Option<UiScreen> {
    if s == "login"@ {
        Some(UiScreen::Login)
    } else if s == "signup"@ {
        Some(UiScreen::Signup)
    } else if s == "account"@ {
        Some(UiScreen::Account)
    } else if s == "tenant"@ {
        Some(UiScreen::Tenant)
    } else if s == "agents"@ {
        Some(UiScreen::Agents)
    } else if s == "password_forgot"@ {
        Some(UiScreen::PasswordForgot)
    } else if s == "password_reset"@ {
        Some(UiScreen::PasswordReset)
    } else if s == "password_change"@ {
        Some(UiScreen::PasswordChange)
    } else if s == "email_verification"@ {
        Some(UiScreen::EmailVerification)
    } else if s == "account_links"@ {
        Some(UiScreen::AccountLinks)
    } else if s == "profile"@ {
        Some(UiScreen::Profile)
    } else if s == "devices"@ {
        Some(UiScreen::Devices)
    } else if s == "sessions"@ {
        Some(UiScreen::Sessions)
    } else if s == "mfa"@ {
        Some(UiScreen::Mfa)
    } else if s == "passkeys"@ {
        Some(UiScreen::Passkeys)
    } else if s == "recovery"@ {
        Some(UiScreen::Recovery)
    } else {
        None
    }
}

impl UiScreen {
    pub fn as_str(&self) -> (r: &'static str)
        ensures
            r@ == ui_screen_name(*self),
    {
        match self {
            UiScreen::Login => "login",
            UiScreen::Signup => "signup",
            UiScreen::Account => "account",
            UiScreen::Tenant => "tenant",
            UiScreen::Agents => "agents",
            UiScreen::PasswordForgot => "password_forgot",
            UiScreen::PasswordReset => "password_reset",
            UiScreen::PasswordChange => "password_change",
            UiScreen::EmailVerification => "email_verification",
            UiScreen::AccountLinks => "account_links",
            UiScreen::Profile => "profile",
            UiScreen::Devices => "devices",
            UiScreen::Sessions => "sessions",
            UiScreen::Mfa => "mfa",
            UiScreen::Passkeys => "passkeys",
            UiScreen::Recovery => "recovery",
        }
    }

    pub fn parse(value: &str) -> (r: Option<Self>)
        ensures
            r == ui_screen_named(value@),
    {
        if str_eq(value, "login") {
            Some(UiScreen::Login)
        } else if str_eq(value, "signup") {
            Some(UiScreen::Signup)
        } else if str_eq(value, "account") {
            Some(UiScreen::Account)
        } else if str_eq(value, "tenant") {
            Some(UiScreen::Tenant)
        } else if str_eq(value, "agents") {
            Some(UiScreen::Agents)
        } else if str_eq(value, "password_forgot") {
            Some(UiScreen::PasswordForgot)
        } else if str_eq(value, "password_reset") {
            Some(UiScreen::PasswordReset)
        } else if str_eq(value, "password_change") {
            Some(UiScreen::PasswordChange)
        } else if str_eq(value, "email_verification") {
            Some(UiScreen::EmailVerification)
        } else if str_eq(value, "account_links") {
            Some(UiScreen::AccountLinks)
        } else if str_eq(value, "profile") {
            Some(UiScreen::Profile)
        } else if str_eq(value, "devices") {
            Some(UiScreen::Devices)
        } else if str_eq(value, "sessions") {
            Some(UiScreen::Sessions)
        } else if str_eq(value, "mfa") {
            Some(UiScreen::Mfa)
        } else if str_eq(value, "passkeys") {
            Some(UiScreen::Passkeys)
        } else if str_eq(value, "recovery") {
            Some(UiScreen::Recovery)
        } else {
            None
        }
    }
}

/// Parsing a screen's name gives the screen back.
pub proof fn lemma_ui_screen_name_round_trip(s: UiScreen)
    ensures
        ui_screen_named(ui_screen_name(s)) == Some(s),
{
    reveal_strlit("login");
    reveal_strlit("signup");
    reveal_strlit("account");
    reveal_strlit("tenant");
    reveal_strlit("agents");
    reveal_strlit("password_forgot");
    reveal_strlit("password_reset");
    reveal_strlit("password_change");
    reveal_strlit("email_verification");
    reveal_strlit("account_links");
    reveal_strlit("profile");
    reveal_strlit("devices");
    reveal_strlit("sessions");
    reveal_strlit("mfa");
    reveal_strlit("passkeys");
    reveal_strlit("recovery");
    match s {
        UiScreen::Login => {
        },
        UiScreen::Signup => {
            assert("signup"@.len() != "login"@.len());
        },
        UiScreen::Account => {
            assert("account"@.len() != "login"@.len());
            assert("account"@.len() != "signup"@.len());
        },
        UiScreen::Tenant => {
            assert("tenant"@.len() != "login"@.len());
            assert("tenant"@[0] != "signup"@[0]);
            assert("tenant"@.len() != "account"@.len());
        },
        UiScreen::Agents => {
            assert("agents"@.len() != "login"@.len());
            assert("agents"@[0] != "signup"@[0]);
            assert("agents"@.len() != "account"@.len());
            assert("agents"@[0] != "tenant"@[0]);
        },
        UiScreen::PasswordForgot => {
            assert("password_forgot"@.len() != "login"@.len());
            assert("password_forgot"@.len() != "signup"@.len());
            assert("password_forgot"@.len() != "account"@.len());
            assert("password_forgot"@.len() != "tenant"@.len());
            assert("password_forgot"@.len() != "agents"@.len());
        },
        UiScreen::PasswordReset => {
            assert("password_reset"@.len() != "login"@.len());
            assert("password_reset"@.len() != "signup"@.len());
            assert("password_reset"@.len() != "account"@.len());
            assert("password_reset"@.len() != "tenant"@.len());
            assert("password_reset"@.len() != "agents"@.len());
            assert("password_reset"@.len() != "password_forgot"@.len());
        },
        UiScreen::PasswordChange => {
            assert("password_change"@.len() != "login"@.len());
            assert("password_change"@.len() != "signup"@.len());
            assert("password_change"@.len() != "account"@.len());
            assert("password_change"@.len() != "tenant"@.len());
            assert("password_change"@.len() != "agents"@.len());
            assert("password_change"@[9] != "password_forgot"@[9]);
            assert("password_change"@.len() != "password_reset"@.len());
        },
        UiScreen::EmailVerification => {
            assert("email_verification"@.len() != "login"@.len());
            assert("email_verification"@.len() != "signup"@.len());
            assert("email_verification"@.len() != "account"@.len());
            assert("email_verification"@.len() != "tenant"@.len());
            assert("email_verification"@.len() != "agents"@.len());
            assert("email_verification"@.len() != "password_forgot"@.len());
            assert("email_verification"@.len() != "password_reset"@.len());
            assert("email_verification"@.len() != "password_change"@.len());
        },
        UiScreen::AccountLinks => {
            assert("account_links"@.len() != "login"@.len());
            assert("account_links"@.len() != "signup"@.len());
            assert("account_links"@.len() != "account"@.len());
            assert("account_links"@.len() != "tenant"@.len());
            assert("account_links"@.len() != "agents"@.len());
            assert("account_links"@.len() != "password_forgot"@.len());
            assert("account_links"@.len() != "password_reset"@.len());
            assert("account_links"@.len() != "password_change"@.len());
            assert("account_links"@.len() != "email_verification"@.len());
        },
        UiScreen::Profile => {
            assert("profile"@.len() != "login"@.len());
            assert("profile"@.len() != "signup"@.len());
            assert("profile"@[0] != "account"@[0]);
            assert("profile"@.len() != "tenant"@.len());
            assert("profile"@.len() != "agents"@.len());
            assert("profile"@.len() != "password_forgot"@.len());
            assert("profile"@.len() != "password_reset"@.len());
            assert("profile"@.len() != "password_change"@.len());
            assert("profile"@.len() != "email_verification"@.len());
            assert("profile"@.len() != "account_links"@.len());
        },
        UiScreen::Devices => {
            assert("devices"@.len() != "login"@.len());
            assert("devices"@.len() != "signup"@.len());
            assert("devices"@[0] != "account"@[0]);
            assert("devices"@.len() != "tenant"@.len());
            assert("devices"@.len() != "agents"@.len());
            assert("devices"@.len() != "password_forgot"@.len());
            assert("devices"@.len() != "password_reset"@.len());
            assert("devices"@.len() != "password_change"@.len());
            assert("devices"@.len() != "email_verification"@.len());
            assert("devices"@.len() != "account_links"@.len());
            assert("devices"@[0] != "profile"@[0]);
        },
        UiScreen::Sessions => {
            assert("sessions"@.len() != "login"@.len());
            assert("sessions"@.len() != "signup"@.len());
            assert("sessions"@.len() != "account"@.len());
            assert("sessions"@.len() != "tenant"@.len());
            assert("sessions"@.len() != "agents"@.len());
            assert("sessions"@.len() != "password_forgot"@.len());
            assert("sessions"@.len() != "password_reset"@.len());
            assert("sessions"@.len() != "password_change"@.len());
            assert("sessions"@.len() != "email_verification"@.len());
            assert("sessions"@.len() != "account_links"@.len());
            assert("sessions"@.len() != "profile"@.len());
            assert("sessions"@.len() != "devices"@.len());
        },
        UiScreen::Mfa => {
            assert("mfa"@.len() != "login"@.len());
            assert("mfa"@.len() != "signup"@.len());
            assert("mfa"@.len() != "account"@.len());
            assert("mfa"@.len() != "tenant"@.len());
            assert("mfa"@.len() != "agents"@.len());
            assert("mfa"@.len() != "password_forgot"@.len());
            assert("mfa"@.len() != "password_reset"@.len());
            assert("mfa"@.len() != "password_change"@.len());
            assert("mfa"@.len() != "email_verification"@.len());
            assert("mfa"@.len() != "account_links"@.len());
            assert("mfa"@.len() != "profile"@.len());
            assert("mfa"@.len() != "devices"@.len());
            assert("mfa"@.len() != "sessions"@.len());
        },
        UiScreen::Passkeys => {
            assert("passkeys"@.len() != "login"@.len());
            assert("passkeys"@.len() != "signup"@.len());
            assert("passkeys"@.len() != "account"@.len());
            assert("passkeys"@.len() != "tenant"@.len());
            assert("passkeys"@.len() != "agents"@.len());
            assert("passkeys"@.len() != "password_forgot"@.len());
            assert("passkeys"@.len() != "password_reset"@.len());
            assert("passkeys"@.len() != "password_change"@.len());
            assert("passkeys"@.len() != "email_verification"@.len());
            assert("passkeys"@.len() != "account_links"@.len());
            assert("passkeys"@.len() != "profile"@.len());
            assert("passkeys"@.len() != "devices"@.len());
            assert("passkeys"@[0] != "sessions"@[0]);
            assert("passkeys"@.len() != "mfa"@.len());
        },
        UiScreen::Recovery => {
            assert("recovery"@.len() != "login"@.len());
            assert("recovery"@.len() != "signup"@.len());
            assert("recovery"@.len() != "account"@.len());
            assert("recovery"@.len() != "tenant"@.len());
            assert("recovery"@.len() != "agents"@.len());
            assert("recovery"@.len() != "password_forgot"@.len());
            assert("recovery"@.len() != "password_reset"@.len());
            assert("recovery"@.len() != "password_change"@.len());
            assert("recovery"@.len() != "email_verification"@.len());
            assert("recovery"@.len() != "account_links"@.len());
            assert("recovery"@.len() != "profile"@.len());
            assert("recovery"@.len() != "devices"@.len());
            assert("recovery"@[0] != "sessions"@[0]);
            assert("recovery"@.len() != "mfa"@.len());
            assert("recovery"@[0] != "passkeys"@[0]);
        },
    }
}

pub open spec fn claim_kind_description(k: ClaimKindView) -> Seq<char> {
    match k {
        ClaimKindView::Enum(values) => join_with(values, " | "@),
        ClaimKindView::String => "string"@,
        ClaimKindView::Integer => "integer"@,
        ClaimKindView::Boolean => "boolean"@,
    }
}

impl ClaimKind {
    pub fn describe(&self) -> (r: String)
        ensures
            r@ == claim_kind_description(self@),
    {
        match self {
            ClaimKind::Enum(values) => join(values, " | "),
            ClaimKind::String => owned("string"),
            ClaimKind::Integer => owned("integer"),
            ClaimKind::Boolean => owned("boolean"),
        }
    }
}

// ---------------------------------------------------------------------------
// Lookups.
// ---------------------------------------------------------------------------

/// Index of the first claim named `name`.
pub open spec fn first_claim_named(claims: Seq<ClaimDefView>, name: Seq<char>) -> Option<int>
    decreases claims.len(),
{
    if claims.len() == 0 {
        None
    } else {
        match first_claim_named(claims.drop_last(), name) {
            Some(i) => Some(i),
            None => if claims.last().name == name {
                Some(claims.len() - 1)
            } else {
                None
            },
        }
    }
}

proof fn lemma_first_claim_named_step(claims: Seq<ClaimDefView>, name: Seq<char>, i: int)
    requires
        0 <= i < claims.len(),
        first_claim_named(claims.take(i), name) is None,
    ensures
        first_claim_named(claims.take(i + 1), name) == if claims[i].name == name {
            Some(i)
        } else {
            None::<int>
        },
{
    assert(claims.take(i + 1).drop_last() =~= claims.take(i));
}

/// Index of the first override for `screen`.
pub open spec fn first_override(screens: Seq<UiScreenOverride>, screen: UiScreen) -> Option<int>
    decreases screens.len(),
{
    if screens.len() == 0 {
        None
    } else {
        match first_override(screens.drop_last(), screen) {
            Some(i) => Some(i),
            None => if screens.last().screen == screen {
                Some(screens.len() - 1)
            } else {
                None
            },
        }
    }
}

/// The mode a UI configuration gives `screen`: its first override, else the
/// default.
pub open spec fn ui_mode_for(ui: AuthUiConfigView, screen: UiScreen) -> AuthUiMode {
    match first_override(ui.screens, screen) {
        Some(i) => ui.screens[i].mode,
        None => AuthUiMode::Default,
    }
}

impl AuthConfig {
    pub fn claim(&self, name: &str) -> (r: Option<&ClaimDef>)
        ensures
            match first_claim_named(self@.claims, name@) {
                Some(i) => r == Some(&self.claims@[i]),
                None => r is None,
            },
    {
        let mut i: usize = 0;
        while i < self.claims.len()
            invariant
                i <= self.claims@.len(),
                first_claim_named(self@.claims.take(i as int), name@) is None,
            decreases self.claims@.len() - i,
        {
            proof {
                lemma_first_claim_named_step(self@.claims, name@, i as int);
            }
            if str_eq(self.claims[i].name.as_str(), name) {
                proof {
                    lemma_first_claim_named_prefix(self@.claims, name@, i + 1);
                }
                return Some(&self.claims[i]);
            }
            i = i + 1;
        }
        assert(self@.claims.take(i as int) =~= self@.claims);
        None
    }

    pub fn declares_provider(&self, name: &str) -> (r: bool)
        ensures
            r == self@.providers.contains(name@),
    {
        let mut i: usize = 0;
        while i < self.providers.len()
            invariant
                i <= self.providers@.len(),
                forall|j: int| 0 <= j < i ==> self@.providers[j] != name@,
            decreases self.providers@.len() - i,
        {
            if str_eq(self.providers[i].as_str(), name) {
                assert(self@.providers[i as int] == name@);
                return true;
            }
            i = i + 1;
        }
        false
    }
}

proof fn lemma_first_claim_named_prefix(claims: Seq<ClaimDefView>, name: Seq<char>, n: int)
    requires
        0 < n <= claims.len(),
        first_claim_named(claims.take(n), name) == Some(n - 1),
    ensures
        first_claim_named(claims, name) == Some(n - 1),
    decreases claims.len(),
{
    if claims.len() == n {
        assert(claims.take(n) =~= claims);
    } else {
        assert(claims.drop_last().take(n) =~= claims.take(n));
        lemma_first_claim_named_prefix(claims.drop_last(), name, n);
    }
}

impl AuthUiConfig {
    pub fn mode_for(&self, screen: UiScreen) -> (r: AuthUiMode)
        ensures
            r == ui_mode_for(self@, screen),
    {
        let mut i: usize = 0;
        while i < self.screens.len()
            invariant
                i <= self.screens@.len(),
                first_override(self.screens@.take(i as int), screen) is None,
            decreases self.screens@.len() - i,
        {
            proof {
                assert(self.screens@.take(i + 1).drop_last() =~= self.screens@.take(i as int));
            }
            if self.screens[i].screen == screen {
                proof {
                    lemma_first_override_prefix(self.screens@, screen, i + 1);
                }
                return self.screens[i].mode;
            }
            i = i + 1;
        }
        assert(self.screens@.take(i as int) =~= self.screens@);
        AuthUiMode::Default
    }
}

proof fn lemma_first_override_prefix(screens: Seq<UiScreenOverride>, screen: UiScreen, n: int)
    requires
        0 < n <= screens.len(),
        first_override(screens.take(n), screen) == Some(n - 1),
    ensures
        first_override(screens, screen) == Some(n - 1),
    decreases screens.len(),
{
    if screens.len() == n {
        assert(screens.take(n) =~= screens);
    } else {
        assert(screens.drop_last().take(n) =~= screens.take(n));
        lemma_first_override_prefix(screens.drop_last(), screen, n);
    }
}

// ---------------------------------------------------------------------------
// Fingerprint hash.
// ---------------------------------------------------------------------------

/// One FNV-1a step: xor in the byte, multiply by the prime modulo 2^64.
pub open spec fn fnv_step(h: u64, b: u8) -> u64 {
    (((h ^ (b as u64)) as nat * 0x100000001b3nat) % 0x1_0000_0000_0000_0000nat) as u64
}

/// FNV-1a over `bytes`.
pub open spec fn fnv1a(bytes: Seq<u8>) -> u64
    decreases bytes.len(),
{
    if bytes.len() == 0 {
        0xcbf29ce484222325u64
    } else {
        fnv_step(fnv1a(bytes.drop_last()), bytes.last())
    }
}

/// FNV-1a: stable across processes and platforms, as contract fingerprints
/// require; not a security primitive.
pub fn stable_hash(bytes: &[u8]) -> (r: u64)
    ensures
        r == fnv1a(bytes@),
{
    let mut hash: u64 = 0xcbf29ce484222325u64;
    let mut i: usize = 0;
    while i < bytes.len()
        invariant
            i <= bytes@.len(),
            hash == fnv1a(bytes@.take(i as int)),
        decreases bytes@.len() - i,
    {
        hash = hash ^ (bytes[i] as u64);
        hash = hash.wrapping_mul(0x100000001b3u64);
        proof {
            assert(bytes@.take(i + 1).drop_last() =~= bytes@.take(i as int));
        }
        i = i + 1;
    }
    assert(bytes@.take(i as int) =~= bytes@);
    hash
}

// ---------------------------------------------------------------------------
// Validation.
// ---------------------------------------------------------------------------

/// The first index from `j` on whose value already occurred before it.
pub open spec fn first_dup(s: Seq<Seq<char>>, j: int) -> Option<int>
    decreases s.len() - j,
{
    if j < 0 || j >= s.len() {
        None
    } else if s.take(j).contains(s[j]) {
        Some(j)
    } else {
        first_dup(s, j + 1)
    }
}

/// `message` and the first repeated value, where one repeats.
pub open spec fn dup_error(values: Seq<Seq<char>>, message: Seq<char>) -> Option<Seq<char>> {
    match first_dup(values, 0) {
        Some(j) => Some(message + " `"@ + values[j] + "`"@),
        None => None,
    }
}

fn contains_view(v: &Vec<String>, upto: usize, x: &String) -> (r: bool)
    requires
        upto <= v@.len(),
    ensures
        r == views(v@).take(upto as int).contains(x@),
{
    let mut i: usize = 0;
    while i < upto
        invariant
            i <= upto <= v@.len(),
            forall|k: int| 0 <= k < i ==> v@[k]@ != x@,
        decreases upto - i,
    {
        if v[i] == *x {
            assert(views(v@).take(upto as int)[i as int] == x@);
            return true;
        }
        i = i + 1;
    }
    assert forall|k: int| 0 <= k < views(v@).take(upto as int).len() implies views(v@).take(
        upto as int,
    )[k] != x@ by {}
    false
}

pub(crate) fn reject_duplicates(values: &Vec<String>, message: &str) -> (r: Result<(), AuthConfigError>)
    ensures
        match dup_error(views(values@), message@) {
            Some(m) => r matches Err(e) && e.message@ == m,
            None => r is Ok,
        },
{
    let mut j: usize = 0;
    while j < values.len()
        invariant
            j <= values@.len(),
            first_dup(views(values@), 0) == first_dup(views(values@), j as int),
        decreases values@.len() - j,
    {
        if contains_view(values, j, &values[j]) {
            let head = cat(message, " `");
            let msg = cat3(head.as_str(), values[j].as_str(), "`");
            return Err(AuthConfigError { message: msg });
        }
        j = j + 1;
    }
    Ok(())
}

pub open spec fn storage_field_error(name: Seq<char>, value: Seq<char>) -> Option<Seq<char>> {
    if blank_seq(value) {
        Some("storage "@ + name + " provider cannot be empty"@)
    } else if contains_seq(value, "://"@) || contains_char(value, '@') {
        Some("storage "@ + name + " declares provider capability only, not credentials"@)
    } else {
        None
    }
}

/// Storage declares providers by capability name only: none blank, none
/// holding a URL or credentials.
pub open spec fn storage_error(s: StorageConfigView) -> Option<Seq<char>> {
    if storage_field_error("authority"@, s.authority) is Some {
        storage_field_error("authority"@, s.authority)
    } else if storage_field_error("audit"@, s.audit) is Some {
        storage_field_error("audit"@, s.audit)
    } else {
        storage_field_error("reporting"@, s.reporting)
    }
}

fn storage_field_check(name: &str, value: &String) -> (r: Option<String>)
    ensures
        match storage_field_error(name@, value@) {
            Some(m) => r matches Some(x) && x@ == m,
            None => r is None,
        },
{
    if is_blank(value.as_str()) {
        return Some(cat3("storage ", name, " provider cannot be empty"));
    }
    let chars = crate::text::chars_of(value.as_str());
    if contains_str(value.as_str(), "://") || has_char(chars.as_slice(), '@') {
        return Some(cat3("storage ", name, " declares provider capability only, not credentials"));
    }
    None
}

impl StorageConfig {
    pub fn validate(&self) -> (r: Result<(), AuthConfigError>)
        ensures
            match storage_error(self@) {
                Some(m) => r matches Err(e) && e.message@ == m,
                None => r is Ok,
            },
    {
        match storage_field_check("authority", &self.authority) {
            Some(m) => return Err(AuthConfigError { message: m }),
            None => {},
        }
        match storage_field_check("audit", &self.audit) {
            Some(m) => return Err(AuthConfigError { message: m }),
            None => {},
        }
        match storage_field_check("reporting", &self.reporting) {
            Some(m) => return Err(AuthConfigError { message: m }),
            None => {},
        }
        Ok(())
    }
}

pub open spec fn password_error(p: PasswordPolicy) -> Option<Seq<char>> {
    if p.min_length == 0 {
        Some("password min_length must be at least 1"@)
    } else if p.max_length < p.min_length {
        Some("password max_length must be greater than or equal to min_length"@)
    } else {
        None
    }
}

impl PasswordPolicy {
    pub fn validate(&self) -> (r: Result<(), AuthConfigError>)
        ensures
            match password_error(*self) {
                Some(m) => r matches Err(e) && e.message@ == m,
                None => r is Ok,
            },
    {
        if self.min_length == 0 {
            return Err(AuthConfigError { message: owned("password min_length must be at least 1") });
        }
        if self.max_length < self.min_length {
            return Err(AuthConfigError {
                message: owned("password max_length must be greater than or equal to min_length"),
            });
        }
        Ok(())
    }
}

/// The first override index from `j` on whose screen an earlier override
/// already named.
pub open spec fn first_dup_screen(s: Seq<UiScreenOverride>, j: int) -> Option<int>
    decreases s.len() - j,
{
    if j < 0 || j >= s.len() {
        None
    } else if exists|k: int| 0 <= k < j && #[trigger] s[k].screen == s[j].screen {
        Some(j)
    } else {
        first_dup_screen(s, j + 1)
    }
}

pub open spec fn ui_error(ui: AuthUiConfigView) -> Option<Seq<char>> {
    match first_dup_screen(ui.screens, 0) {
        Some(j) => Some("duplicate ui screen `"@ + ui_screen_name(ui.screens[j].screen) + "`"@),
        None => if blank_seq(ui.theme) {
            Some("ui theme cannot be empty"@)
        } else {
            None
        },
    }
}

impl AuthUiConfig {
    pub fn validate(&self) -> (r: Result<(), AuthConfigError>)
        ensures
            match ui_error(self@) {
                Some(m) => r matches Err(e) && e.message@ == m,
                None => r is Ok,
            },
    {
        let mut j: usize = 0;
        while j < self.screens.len()
            invariant
                j <= self.screens@.len(),
                first_dup_screen(self.screens@, 0) == first_dup_screen(self.screens@, j as int),
            decreases self.screens@.len() - j,
        {
            let mut k: usize = 0;
            let mut seen = false;
            while k < j
                invariant
                    k <= j < self.screens@.len(),
                    seen == exists|m: int| 0 <= m < k && #[trigger] self.screens@[m].screen == self.screens@[j as int].screen,
                decreases j - k,
            {
                if self.screens[k].screen == self.screens[j].screen {
                    seen = true;
                }
                k = k + 1;
            }
            if seen {
                let msg = cat3("duplicate ui screen `", self.screens[j].screen.as_str(), "`");
                return Err(AuthConfigError { message: msg });
            }
            j = j + 1;
        }
        if is_blank(self.theme.name.as_str()) {
            return Err(AuthConfigError { message: owned("ui theme cannot be empty") });
        }
        Ok(())
    }
}

/// The first claim from `j` on that is unnamed, named twice, or an enum
/// without values or with a repeated value, as its message.
pub open spec fn claims_error(claims: Seq<ClaimDefView>, j: int) -> Option<Seq<char>>
    decreases claims.len() - j,
{
    if j < 0 || j >= claims.len() {
        None
    } else {
        let c = claims[j];
        if blank_seq(c.name) {
            Some("claim name cannot be empty"@)
        } else if exists|k: int| 0 <= k < j && #[trigger] claims[k].name == c.name {
            Some("duplicate claim `"@ + c.name + "`"@)
        } else {
            match c.kind {
                ClaimKindView::Enum(values) => if values.len() == 0 {
                    Some("enum claim `"@ + c.name + "` must have values"@)
                } else if dup_error(values, "duplicate enum value"@) is Some {
                    dup_error(values, "duplicate enum value"@)
                } else {
                    claims_error(claims, j + 1)
                },
                _ => claims_error(claims, j + 1),
            }
        }
    }
}

/// The first policy from `j` on whose capability is blank or repeated.
pub open spec fn policies_error(policies: Seq<PolicyDefView>, j: int) -> Option<Seq<char>>
    decreases policies.len() - j,
{
    if j < 0 || j >= policies.len() {
        None
    } else {
        let p = policies[j];
        if blank_seq(p.capability) {
            Some("policy capability cannot be empty"@)
        } else if exists|k: int| 0 <= k < j && #[trigger] policies[k].capability == p.capability {
            Some("duplicate policy `"@ + p.capability + "`"@)
        } else {
            policies_error(policies, j + 1)
        }
    }
}

/// Why a contract is not valid, in the order the checks run; `None` for a
/// valid one.
pub open spec fn config_error(c: AuthConfigView) -> Option<Seq<char>> {
    if c.providers.len() == 0 {
        Some("missing providers"@)
    } else if dup_error(c.providers, "duplicate provider"@) is Some {
        dup_error(c.providers, "duplicate provider"@)
    } else if exists|i: int| 0 <= i < c.providers.len() && blank_seq(#[trigger] c.providers[i]) {
        Some("provider name cannot be empty"@)
    } else if claims_error(c.claims, 0) is Some {
        claims_error(c.claims, 0)
    } else if policies_error(c.policies, 0) is Some {
        policies_error(c.policies, 0)
    } else if ui_error(c.ui) is Some {
        ui_error(c.ui)
    } else if password_error(c.password_policy) is Some {
        password_error(c.password_policy)
    } else {
        storage_error(c.storage)
    }
}

fn claim_name_seen(claims: &Vec<ClaimDef>, j: usize) -> (r: bool)
    requires
        j < claims@.len(),
    ensures
        r == exists|m: int| 0 <= m < j && #[trigger] views_of(claims@)[m].name == views_of(claims@)[j as int].name,
{
    let mut k: usize = 0;
    while k < j
        invariant
            k <= j < claims@.len(),
            forall|m: int| 0 <= m < k ==> #[trigger] views_of(claims@)[m].name != views_of(claims@)[j as int].name,
        decreases j - k,
    {
        if claims[k].name == claims[j].name {
            assert(views_of(claims@)[k as int].name == views_of(claims@)[j as int].name);
            return true;
        }
        k = k + 1;
    }
    false
}

fn capability_seen(policies: &Vec<PolicyDef>, j: usize) -> (r: bool)
    requires
        j < policies@.len(),
    ensures
        r == exists|m: int| 0 <= m < j && #[trigger] views_of(policies@)[m].capability == views_of(policies@)[j as int].capability,
{
    let mut k: usize = 0;
    while k < j
        invariant
            k <= j < policies@.len(),
            forall|m: int| 0 <= m < k ==> #[trigger] views_of(policies@)[m].capability != views_of(policies@)[j as int].capability,
        decreases j - k,
    {
        if policies[k].capability == policies[j].capability {
            assert(views_of(policies@)[k as int].capability == views_of(policies@)[j as int].capability);
            return true;
        }
        k = k + 1;
    }
    false
}

impl AuthConfig {
    #[verifier::loop_isolation(false)]
    pub fn validate(&self) -> (r: Result<(), AuthConfigError>)
        ensures
            match config_error(self@) {
                Some(m) => r matches Err(e) && e.message@ == m,
                None => r is Ok,
            },
    {
        if self.providers.len() == 0 {
            return Err(AuthConfigError { message: owned("missing providers") });
        }
        match reject_duplicates(&self.providers, "duplicate provider") {
            Err(e) => return Err(e),
            Ok(()) => {},
        }
        let mut i: usize = 0;
        while i < self.providers.len()
            invariant
                i <= self.providers@.len(),
                forall|k: int| 0 <= k < i ==> !blank_seq(#[trigger] self@.providers[k]),
            decreases self.providers@.len() - i,
        {
            if is_blank(self.providers[i].as_str()) {
                assert(blank_seq(self@.providers[i as int]));
                return Err(AuthConfigError { message: owned("provider name cannot be empty") });
            }
            i = i + 1;
        }
        let ghost cv = self@.claims;
        let mut j: usize = 0;
        while j < self.claims.len()
            invariant
                j <= cv.len(),
                cv == self@.claims,
                claims_error(cv, 0) == claims_error(cv, j as int),
            decreases cv.len() - j,
        {
            let c = &self.claims[j];
            assert(cv[j as int] == c@);
            if is_blank(c.name.as_str()) {
                return Err(AuthConfigError { message: owned("claim name cannot be empty") });
            }
            let seen = claim_name_seen(&self.claims, j);
            if seen {
                let msg = cat3("duplicate claim `", c.name.as_str(), "`");
                return Err(AuthConfigError { message: msg });
            }
            match &c.kind {
                ClaimKind::Enum(values) => {
                    if values.len() == 0 {
                        let msg = cat3("enum claim `", c.name.as_str(), "` must have values");
                        return Err(AuthConfigError { message: msg });
                    }
                    match reject_duplicates(values, "duplicate enum value") {
                        Err(e) => return Err(e),
                        Ok(()) => {},
                    }
                },
                _ => {},
            }
            j = j + 1;
        }
        let ghost pv = self@.policies;
        let mut j: usize = 0;
        while j < self.policies.len()
            invariant
                j <= pv.len(),
                pv == self@.policies,
                claims_error(cv, 0) is None,
                policies_error(pv, 0) == policies_error(pv, j as int),
            decreases pv.len() - j,
        {
            let p = &self.policies[j];
            assert(pv[j as int] == p@);
            if is_blank(p.capability.as_str()) {
                return Err(AuthConfigError { message: owned("policy capability cannot be empty") });
            }
            let seen = capability_seen(&self.policies, j);
            if seen {
                let msg = cat3("duplicate policy `", p.capability.as_str(), "`");
                return Err(AuthConfigError { message: msg });
            }
            j = j + 1;
        }
        match self.ui.validate() {
            Err(e) => return Err(e),
            Ok(()) => {},
        }
        match self.password_policy.validate() {
            Err(e) => return Err(e),
            Ok(()) => {},
        }
        self.storage.validate()
    }
}

// ---------------------------------------------------------------------------
// Canonical form.
// ---------------------------------------------------------------------------

impl Ordered for ClaimDef {
    open spec fn spec_le(a: ClaimDefView, b: ClaimDefView) -> bool {
        seq_le(a.name, b.name)
    }

    fn le(&self, other: &Self) -> (r: bool) {
        str_le(self.name.as_str(), other.name.as_str())
    }
}

impl Ordered for PolicyDef {
    open spec fn spec_le(a: PolicyDefView, b: PolicyDefView) -> bool {
        seq_le(a.capability, b.capability)
    }

    fn le(&self, other: &Self) -> (r: bool) {
        str_le(self.capability.as_str(), other.capability.as_str())
    }
}

/// Lexicographic order on lists of strings.
pub open spec fn seqs_le(a: Seq<Seq<char>>, b: Seq<Seq<char>>) -> bool
    decreases a.len(),
{
    if a.len() == 0 {
        true
    } else if b.len() == 0 {
        false
    } else if a[0] != b[0] {
        seq_le(a[0], b[0])
    } else {
        seqs_le(a.drop_first(), b.drop_first())
    }
}

fn strings_le(a: &Vec<String>, b: &Vec<String>) -> (r: bool)
    ensures
        r == seqs_le(views(a@), views(b@)),
{
    let mut i: usize = 0;
    assert(views(a@).skip(0) =~= views(a@));
    assert(views(b@).skip(0) =~= views(b@));
    while i < a.len() && i < b.len()
        invariant
            i <= a@.len(),
            i <= b@.len(),
            seqs_le(views(a@), views(b@)) == seqs_le(views(a@).skip(i as int), views(b@).skip(i as int)),
        decreases a@.len() - i,
    {
        if a[i] != b[i] {
            return str_le(a[i].as_str(), b[i].as_str());
        }
        proof {
            assert(views(a@).skip(i as int).drop_first() =~= views(a@).skip(i + 1));
            assert(views(b@).skip(i as int).drop_first() =~= views(b@).skip(i + 1));
        }
        i = i + 1;
    }
    i == a.len()
}

impl Ordered for PolicyClaimCondition {
    /// The derived order: by claim, then by values.
    open spec fn spec_le(a: (Seq<char>, Seq<Seq<char>>), b: (Seq<char>, Seq<Seq<char>>)) -> bool {
        if a.0 != b.0 {
            seq_le(a.0, b.0)
        } else {
            seqs_le(a.1, b.1)
        }
    }

    fn le(&self, other: &Self) -> (r: bool) {
        if self.claim != other.claim {
            str_le(self.claim.as_str(), other.claim.as_str())
        } else {
            strings_le(&self.values, &other.values)
        }
    }
}

impl View for UiScreenOverride {
    type V = UiScreenOverride;

    open spec fn view(&self) -> UiScreenOverride {
        *self
    }
}

pub open spec fn screen_rank(s: UiScreen) -> int {
    match s {
        UiScreen::Login => 0,
        UiScreen::Signup => 1,
        UiScreen::Account => 2,
        UiScreen::Tenant => 3,
        UiScreen::Agents => 4,
        UiScreen::PasswordForgot => 5,
        UiScreen::PasswordReset => 6,
        UiScreen::PasswordChange => 7,
        UiScreen::EmailVerification => 8,
        UiScreen::AccountLinks => 9,
        UiScreen::Profile => 10,
        UiScreen::Devices => 11,
        UiScreen::Sessions => 12,
        UiScreen::Mfa => 13,
        UiScreen::Passkeys => 14,
        UiScreen::Recovery => 15,
    }
}

pub open spec fn mode_rank(m: AuthUiMode) -> int {
    match m {
        AuthUiMode::Default => 0,
        AuthUiMode::Custom => 1,
    }
}

fn screen_rank_exec(s: UiScreen) -> (r: u8)
    ensures
        r as int == screen_rank(s),
{
    match s {
        UiScreen::Login => 0,
        UiScreen::Signup => 1,
        UiScreen::Account => 2,
        UiScreen::Tenant => 3,
        UiScreen::Agents => 4,
        UiScreen::PasswordForgot => 5,
        UiScreen::PasswordReset => 6,
        UiScreen::PasswordChange => 7,
        UiScreen::EmailVerification => 8,
        UiScreen::AccountLinks => 9,
        UiScreen::Profile => 10,
        UiScreen::Devices => 11,
        UiScreen::Sessions => 12,
        UiScreen::Mfa => 13,
        UiScreen::Passkeys => 14,
        UiScreen::Recovery => 15,
    }
}

fn mode_rank_exec(m: AuthUiMode) -> (r: u8)
    ensures
        r as int == mode_rank(m),
{
    match m {
        AuthUiMode::Default => 0,
        AuthUiMode::Custom => 1,
    }
}

impl Ordered for UiScreenOverride {
    /// The derived order: by screen, then by mode, in declaration order.
    open spec fn spec_le(a: UiScreenOverride, b: UiScreenOverride) -> bool {
        screen_rank(a.screen) < screen_rank(b.screen) || (screen_rank(a.screen) == screen_rank(
            b.screen,
        ) && mode_rank(a.mode) <= mode_rank(b.mode))
    }

    fn le(&self, other: &Self) -> (r: bool) {
        let a = screen_rank_exec(self.screen);
        let b = screen_rank_exec(other.screen);
        a < b || (a == b && mode_rank_exec(self.mode) <= mode_rank_exec(other.mode))
    }
}

/// Consecutive repeats collapsed to one (`Vec::dedup`).
pub open spec fn dedup<T>(s: Seq<T>) -> Seq<T>
    decreases s.len(),
{
    if s.len() == 0 {
        s
    } else {
        let d = dedup(s.drop_last());
        if d.len() > 0 && d.last() == s.last() {
            d
        } else {
            d.push(s.last())
        }
    }
}

/// A claim kind with its enum values sorted.
pub open spec fn canonical_kind(k: ClaimKindView) -> ClaimKindView {
    match k {
        ClaimKindView::Enum(values) => ClaimKindView::Enum(isort_by(values, le_of::<String>())),
        other => other,
    }
}

pub open spec fn canonical_claim(cl: ClaimDefView) -> ClaimDefView {
    ClaimDefView { name: cl.name, kind: canonical_kind(cl.kind) }
}

pub open spec fn canonical_ui(ui: AuthUiConfigView) -> AuthUiConfigView {
    let screens = dedup(isort_by(ui.screens, le_of::<UiScreenOverride>()));
    AuthUiConfigView {
        mode: if exists|i: int| 0 <= i < screens.len() && #[trigger] screens[i].mode == AuthUiMode::Custom {
            AuthUiMode::Custom
        } else {
            AuthUiMode::Default
        },
        theme: ui.theme,
        screens,
    }
}

/// The canonical form: providers, claims (and each enum's values), policies
/// and UI overrides sorted; where declarations differ only in order, their
/// canonical forms agree.
pub open spec fn canonical_view(c: AuthConfigView) -> AuthConfigView {
    AuthConfigView {
        multi_tenant: c.multi_tenant,
        providers: isort_by(c.providers, le_of::<String>()),
        claims: isort_by(c.claims, le_of::<ClaimDef>()).map_values(|cl: ClaimDefView| canonical_claim(cl)),
        isolation: c.isolation,
        agents: c.agents,
        policies: isort_by(c.policies, le_of::<PolicyDef>()),
        ui: canonical_ui(c.ui),
        password_policy: c.password_policy,
        storage: c.storage,
    }
}

fn copy_strings(v: &Vec<String>) -> (r: Vec<String>)
    ensures
        r@ == v@,
{
    let mut out: Vec<String> = Vec::new();
    let mut i: usize = 0;
    while i < v.len()
        invariant
            i <= v@.len(),
            out@ == v@.take(i as int),
        decreases v@.len() - i,
    {
        out.push(v[i].clone());
        assert(out@ =~= v@.take(i + 1));
        i = i + 1;
    }
    assert(v@.take(i as int) =~= v@);
    out
}

fn copy_claim(c: &ClaimDef) -> (r: ClaimDef)
    ensures
        r@ == c@,
{
    ClaimDef {
        name: c.name.clone(),
        kind: match &c.kind {
            ClaimKind::Enum(values) => ClaimKind::Enum(copy_strings(values)),
            ClaimKind::String => ClaimKind::String,
            ClaimKind::Integer => ClaimKind::Integer,
            ClaimKind::Boolean => ClaimKind::Boolean,
        },
    }
}

fn copy_condition(c: &PolicyClaimCondition) -> (r: PolicyClaimCondition)
    ensures
        r@ == c@,
{
    PolicyClaimCondition { claim: c.claim.clone(), values: copy_strings(&c.values) }
}

fn copy_opt_string(o: &Option<String>) -> (r: Option<String>)
    ensures
        r == *o,
{
    match o {
        Some(s) => Some(s.clone()),
        None => None,
    }
}

fn copy_policy(p: &PolicyDef) -> (r: PolicyDef)
    ensures
        r@ == p@,
{
    let mut claims: Vec<PolicyClaimCondition> = Vec::new();
    let mut i: usize = 0;
    while i < p.claims.len()
        invariant
            i <= p.claims@.len(),
            views_of(claims@) == views_of(p.claims@).take(i as int),
        decreases p.claims@.len() - i,
    {
        let c = copy_condition(&p.claims[i]);
        let ghost before = claims@;
        claims.push(c);
        proof {
            lemma_map_push(before, c, |x: PolicyClaimCondition| x@);
            assert(views_of(claims@) =~= views_of(p.claims@).take(i + 1));
        }
        i = i + 1;
    }
    assert(views_of(p.claims@).take(i as int) =~= views_of(p.claims@));
    PolicyDef {
        capability: p.capability.clone(),
        tenant_current: p.tenant_current,
        resource: copy_opt_string(&p.resource),
        action: copy_opt_string(&p.action),
        claims,
    }
}

fn copy_claims(v: &Vec<ClaimDef>) -> (r: Vec<ClaimDef>)
    ensures
        views_of(r@) == views_of(v@),
{
    let mut out: Vec<ClaimDef> = Vec::new();
    let mut i: usize = 0;
    while i < v.len()
        invariant
            i <= v@.len(),
            views_of(out@) == views_of(v@).take(i as int),
        decreases v@.len() - i,
    {
        let c = copy_claim(&v[i]);
        let ghost before = out@;
        out.push(c);
        proof {
            lemma_map_push(before, c, |x: ClaimDef| x@);
            assert(views_of(out@) =~= views_of(v@).take(i + 1));
        }
        i = i + 1;
    }
    assert(views_of(v@).take(i as int) =~= views_of(v@));
    out
}

fn copy_policies(v: &Vec<PolicyDef>) -> (r: Vec<PolicyDef>)
    ensures
        views_of(r@) == views_of(v@),
{
    let mut out: Vec<PolicyDef> = Vec::new();
    let mut i: usize = 0;
    while i < v.len()
        invariant
            i <= v@.len(),
            views_of(out@) == views_of(v@).take(i as int),
        decreases v@.len() - i,
    {
        let c = copy_policy(&v[i]);
        let ghost before = out@;
        out.push(c);
        proof {
            lemma_map_push(before, c, |x: PolicyDef| x@);
            assert(views_of(out@) =~= views_of(v@).take(i + 1));
        }
        i = i + 1;
    }
    assert(views_of(v@).take(i as int) =~= views_of(v@));
    out
}

fn sorted_strings(v: &Vec<String>) -> (r: Vec<String>)
    ensures
        views(r@) == isort_by(views(v@), le_of::<String>()),
{
    let c = copy_strings(v);
    let r = insertion_sort(c);
    assert(views_of(r@) =~= views(r@));
    assert(views_of(c@) =~= views(v@));
    r
}

fn dedup_overrides(v: &Vec<UiScreenOverride>) -> (r: Vec<UiScreenOverride>)
    ensures
        r@ == dedup(v@),
{
    let mut out: Vec<UiScreenOverride> = Vec::new();
    let mut i: usize = 0;
    while i < v.len()
        invariant
            i <= v@.len(),
            out@ == dedup(v@.take(i as int)),
        decreases v@.len() - i,
    {
        proof {
            assert(v@.take(i + 1).drop_last() =~= v@.take(i as int));
        }
        let n = out.len();
        if n == 0 || out[n - 1] != v[i] {
            out.push(v[i]);
        }
        i = i + 1;
    }
    assert(v@.take(i as int) =~= v@);
    out
}

impl AuthUiConfig {
    pub fn canonical(&self) -> (r: Self)
        ensures
            r@ == canonical_ui(self@),
    {
        let mut copy: Vec<UiScreenOverride> = Vec::new();
        let mut i: usize = 0;
        while i < self.screens.len()
            invariant
                i <= self.screens@.len(),
                copy@ == self.screens@.take(i as int),
            decreases self.screens@.len() - i,
        {
            copy.push(self.screens[i]);
            assert(copy@ =~= self.screens@.take(i + 1));
            i = i + 1;
        }
        assert(self.screens@.take(i as int) =~= self.screens@);
        let sorted = insertion_sort(copy);
        assert(views_of(sorted@) =~= sorted@);
        assert(views_of(copy@) =~= copy@);
        let screens = dedup_overrides(&sorted);
        let mut custom = false;
        let mut k: usize = 0;
        while k < screens.len()
            invariant
                k <= screens@.len(),
                custom == exists|m: int| 0 <= m < k && #[trigger] screens@[m].mode == AuthUiMode::Custom,
            decreases screens@.len() - k,
        {
            if screens[k].mode == AuthUiMode::Custom {
                custom = true;
            }
            k = k + 1;
        }
        AuthUiConfig {
            mode: if custom {
                AuthUiMode::Custom
            } else {
                AuthUiMode::Default
            },
            theme: UiTheme { name: self.theme.name.clone() },
            screens,
        }
    }
}

fn canonical_claims(v: &Vec<ClaimDef>) -> (r: Vec<ClaimDef>)
    ensures
        views_of(r@) == isort_by(views_of(v@), le_of::<ClaimDef>()).map_values(|cl: ClaimDefView| canonical_claim(cl)),
{
    let c = copy_claims(v);
    let sorted = insertion_sort(c);
    let mut out: Vec<ClaimDef> = Vec::new();
    let mut i: usize = 0;
    while i < sorted.len()
        invariant
            i <= sorted@.len(),
            views_of(out@) == views_of(sorted@).take(i as int).map_values(|cl: ClaimDefView| canonical_claim(cl)),
        decreases sorted@.len() - i,
    {
        let cl = &sorted[i];
        let kind = match &cl.kind {
            ClaimKind::Enum(values) => {
                let sv = sorted_strings(values);
                assert(cl.kind@ == ClaimKindView::Enum(views(values@)));
                let k = ClaimKind::Enum(sv);
                assert(k@ == canonical_kind(cl.kind@));
                k
            },
            ClaimKind::String => ClaimKind::String,
            ClaimKind::Integer => ClaimKind::Integer,
            ClaimKind::Boolean => ClaimKind::Boolean,
        };
        assert(kind@ == canonical_kind(cl.kind@));
        assert(views_of(sorted@)[i as int] == cl@);
        let item = ClaimDef { name: cl.name.clone(), kind };
        let ghost before = out@;
        out.push(item);
        proof {
            lemma_map_push(before, item, |x: ClaimDef| x@);
            lemma_map_take_step(views_of(sorted@), i as int, |cl: ClaimDefView| canonical_claim(cl));
            assert(item@ == canonical_claim(views_of(sorted@)[i as int]));
        }
        i = i + 1;
    }
    assert(views_of(sorted@).take(i as int) =~= views_of(sorted@));
    out
}

impl AuthConfig {
    /// The canonical form: semantically identical declarations converge here.
    pub fn canonical(&self) -> (r: Self)
        ensures
            r@ == canonical_view(self@),
    {
        let providers = sorted_strings(&self.providers);
        let claims = canonical_claims(&self.claims);
        let policies = insertion_sort(copy_policies(&self.policies));
        AuthConfig {
            multi_tenant: self.multi_tenant,
            providers,
            claims,
            isolation: self.isolation,
            agents: self.agents,
            policies,
            ui: self.ui.canonical(),
            password_policy: self.password_policy,
            storage: StorageConfig {
                authority: self.storage.authority.clone(),
                audit: self.storage.audit.clone(),
                reporting: self.storage.reporting.clone(),
            },
        }
    }
}

// ---------------------------------------------------------------------------
// Canonical text and fingerprints.
// ---------------------------------------------------------------------------

pub open spec fn claim_kind_text(k: ClaimKindView) -> Seq<char> {
    match k {
        ClaimKindView::Enum(values) => "enum["@ + list_text(values) + "]"@,
        ClaimKindView::String => "string"@,
        ClaimKindView::Integer => "integer"@,
        ClaimKindView::Boolean => "boolean"@,
    }
}

pub open spec fn claims_text(cs: Seq<ClaimDefView>) -> Seq<char>
    decreases cs.len(),
{
    if cs.len() == 0 {
        Seq::empty()
    } else {
        claims_text(cs.drop_last()) + cs.last().name + ":"@ + claim_kind_text(cs.last().kind) + ";"@
    }
}

pub open spec fn conditions_text(cs: Seq<(Seq<char>, Seq<Seq<char>>)>) -> Seq<char>
    decreases cs.len(),
{
    if cs.len() == 0 {
        Seq::empty()
    } else {
        conditions_text(cs.drop_last()) + cs.last().0 + "="@ + list_text(cs.last().1) + ";"@
    }
}

pub open spec fn policy_text(p: PolicyDefView) -> Seq<char> {
    p.capability + ":"@ + (if p.tenant_current {
        "tenant=current;"@
    } else {
        Seq::empty()
    }) + match p.resource {
        Some(r) => "resource="@ + r + ";"@,
        None => Seq::empty(),
    } + match p.action {
        Some(a) => "action="@ + a + ";"@,
        None => Seq::empty(),
    } + conditions_text(p.claims)
}

pub open spec fn policies_text(ps: Seq<PolicyDefView>) -> Seq<char>
    decreases ps.len(),
{
    if ps.len() == 0 {
        Seq::empty()
    } else {
        policies_text(ps.drop_last()) + policy_text(ps.last())
    }
}

pub open spec fn screens_text(s: Seq<UiScreenOverride>) -> Seq<char>
    decreases s.len(),
{
    if s.len() == 0 {
        Seq::empty()
    } else {
        screens_text(s.drop_last()) + ui_screen_name(s.last().screen) + "="@ + ui_mode_name(s.last().mode)
            + ","@
    }
}

pub open spec fn ui_text(ui: AuthUiConfigView) -> Seq<char> {
    "ui=mode:"@ + ui_mode_name(ui.mode) + ";theme:"@ + ui.theme + ";screens:"@ + screens_text(ui.screens)
        + ";"@
}

pub open spec fn opt_days_text(d: Option<u32>) -> Seq<char> {
    match d {
        Some(days) => decimal(days as nat),
        None => "null"@,
    }
}

pub open spec fn password_text(p: PasswordPolicy) -> Seq<char> {
    "pwd_policy=min:"@ + decimal(p.min_length as nat) + ";max:"@ + decimal(p.max_length as nat)
        + ";upper:"@ + bool_text(p.require_uppercase) + ";lower:"@ + bool_text(p.require_lowercase)
        + ";number:"@ + bool_text(p.require_number) + ";special:"@ + bool_text(
        p.require_special_character,
    ) + ";expiration:"@ + opt_days_text(p.password_expiration_days) + ";history:"@ + decimal(
        p.password_history_count as nat,
    ) + ";change:"@ + bool_text(p.allow_password_change) + ";reset:"@ + bool_text(
        p.allow_password_reset,
    ) + ";"@
}

pub open spec fn storage_text(s: StorageConfigView) -> Seq<char> {
    "storage=authority:"@ + s.authority + ",audit:"@ + s.audit + ",reporting:"@ + s.reporting + ";"@
}

/// The text a contract's fingerprint is computed over.
pub open spec fn canonical_text(c: AuthConfigView) -> Seq<char> {
    "multi_tenant="@ + bool_text(c.multi_tenant) + ";"@ + "providers="@ + list_text(c.providers)
        + ";isolation="@ + isolation_debug(c.isolation) + ";claims="@ + claims_text(c.claims)
        + "agents="@ + bool_text(c.agents) + ";"@ + "policies="@ + policies_text(c.policies) + ui_text(
        c.ui,
    ) + password_text(c.password_policy) + storage_text(c.storage)
}

/// A contract's fingerprint: FNV-1a of the UTF-8 bytes of the canonical
/// form's text, as sixteen hex digits.
pub open spec fn config_fingerprint(c: AuthConfigView) -> Seq<char> {
    hex_n(fnv1a(utf8(canonical_text(canonical_view(c)))) as nat, 16)
}

fn append_claims(out: &mut String, cs: &Vec<ClaimDef>)
    ensures
        final(out)@ == old(out)@ + claims_text(views_of(cs@)),
{
    let ghost start = out@;
    let mut i: usize = 0;
    while i < cs.len()
        invariant
            i <= cs@.len(),
            out@ == start + claims_text(views_of(cs@).take(i as int)),
        decreases cs@.len() - i,
    {
        let c = &cs[i];
        out.append(c.name.as_str());
        out.append(":");
        match &c.kind {
            ClaimKind::Enum(values) => {
                out.append("enum[");
                append_list(out, values);
                out.append("]");
            },
            ClaimKind::String => out.append("string"),
            ClaimKind::Integer => out.append("integer"),
            ClaimKind::Boolean => out.append("boolean"),
        }
        out.append(";");
        proof {
            let t = views_of(cs@).take(i + 1);
            assert(t.drop_last() =~= views_of(cs@).take(i as int));
            assert(t.last() == c@);
        }
        i = i + 1;
    }
    assert(views_of(cs@).take(i as int) =~= views_of(cs@));
}

fn append_conditions(out: &mut String, cs: &Vec<PolicyClaimCondition>)
    ensures
        final(out)@ == old(out)@ + conditions_text(views_of(cs@)),
{
    let ghost start = out@;
    let mut i: usize = 0;
    while i < cs.len()
        invariant
            i <= cs@.len(),
            out@ == start + conditions_text(views_of(cs@).take(i as int)),
        decreases cs@.len() - i,
    {
        let c = &cs[i];
        out.append(c.claim.as_str());
        out.append("=");
        append_list(out, &c.values);
        out.append(";");
        proof {
            let t = views_of(cs@).take(i + 1);
            assert(t.drop_last() =~= views_of(cs@).take(i as int));
            assert(t.last() == c@);
        }
        i = i + 1;
    }
    assert(views_of(cs@).take(i as int) =~= views_of(cs@));
}

#[verifier::spinoff_prover]
#[verifier::rlimit(40)]
fn append_policy(out: &mut String, p: &PolicyDef)
    ensures
        final(out)@ == old(out)@ + policy_text(p@),
{
    let ghost before = out@;
    out.append(p.capability.as_str());
    out.append(":");
    let ghost a = out@;
    if p.tenant_current {
        out.append("tenant=current;");
    }
    let ghost b = out@;
    match &p.resource {
        Some(r) => {
            out.append("resource=");
            out.append(r.as_str());
            out.append(";");
        },
        None => {},
    }
    let ghost c = out@;
    match &p.action {
        Some(x) => {
            out.append("action=");
            out.append(x.as_str());
            out.append(";");
        },
        None => {},
    }
    let ghost d = out@;
    append_conditions(out, &p.claims);
    proof {
        let tc: Seq<char> = if p.tenant_current { "tenant=current;"@ } else { Seq::empty() };
        assert(b =~= a + tc);
        let rs: Seq<char> = match p@.resource { Some(r) => "resource="@ + r + ";"@, None => Seq::empty() };
        assert(c =~= b + rs);
        let xs: Seq<char> = match p@.action { Some(x) => "action="@ + x + ";"@, None => Seq::empty() };
        assert(d =~= c + xs);
        assert(out@ =~= before + policy_text(p@));
    }
}

fn append_policies(out: &mut String, ps: &Vec<PolicyDef>)
    ensures
        final(out)@ == old(out)@ + policies_text(views_of(ps@)),
{
    let ghost start = out@;
    let mut i: usize = 0;
    while i < ps.len()
        invariant
            i <= ps@.len(),
            out@ == start + policies_text(views_of(ps@).take(i as int)),
        decreases ps@.len() - i,
    {
        append_policy(out, &ps[i]);
        proof {
            let t = views_of(ps@).take(i + 1);
            assert(t.drop_last() =~= views_of(ps@).take(i as int));
            assert(t.last() == ps@[i as int]@);
        }
        i = i + 1;
    }
    assert(views_of(ps@).take(i as int) =~= views_of(ps@));
}

fn append_ui(out: &mut String, ui: &AuthUiConfig)
    ensures
        final(out)@ == old(out)@ + ui_text(ui@),
{
    let ghost start = out@;
    out.append("ui=mode:");
    out.append(ui.mode.as_str());
    out.append(";theme:");
    out.append(ui.theme.name.as_str());
    out.append(";screens:");
    let ghost mid = out@;
    let mut i: usize = 0;
    while i < ui.screens.len()
        invariant
            i <= ui.screens@.len(),
            out@ == mid + screens_text(ui.screens@.take(i as int)),
        decreases ui.screens@.len() - i,
    {
        out.append(ui.screens[i].screen.as_str());
        out.append("=");
        out.append(ui.screens[i].mode.as_str());
        out.append(",");
        proof {
            assert(ui.screens@.take(i + 1).drop_last() =~= ui.screens@.take(i as int));
        }
        i = i + 1;
    }
    assert(ui.screens@.take(i as int) =~= ui.screens@);
    out.append(";");
    assert(out@ =~= start + ui_text(ui@));
}

fn password_text_exec(p: &PasswordPolicy) -> (r: String)
    ensures
        r@ == password_text(*p),
{
    let mut out = String::new();
    out.append("pwd_policy=min:");
    out.append(u64_decimal(p.min_length as u64).as_str());
    out.append(";max:");
    out.append(u64_decimal(p.max_length as u64).as_str());
    out.append(";upper:");
    out.append(bool_str(p.require_uppercase));
    out.append(";lower:");
    out.append(bool_str(p.require_lowercase));
    out.append(";number:");
    out.append(bool_str(p.require_number));
    out.append(";special:");
    out.append(bool_str(p.require_special_character));
    out.append(";expiration:");
    match p.password_expiration_days {
        Some(days) => out.append(u64_decimal(days as u64).as_str()),
        None => out.append("null"),
    }
    out.append(";history:");
    out.append(u64_decimal(p.password_history_count as u64).as_str());
    out.append(";change:");
    out.append(bool_str(p.allow_password_change));
    out.append(";reset:");
    out.append(bool_str(p.allow_password_reset));
    out.append(";");
    assert(out@ =~= password_text(*p));
    out
}

impl PasswordPolicy {
    /// Appends the policy's canonical bytes.
    pub fn write_canonical(&self, out: &mut Vec<u8>)
        ensures
            final(out)@ == old(out)@ + utf8(password_text(*self)),
    {
        let text = password_text_exec(self);
        push_utf8(out, text.as_str());
    }

    /// A fingerprint of the policy alone, for password revisions.
    pub fn revision_fingerprint(&self) -> (r: String)
        ensures
            r@ == hex_n(fnv1a(utf8(password_text(*self))) as nat, 16),
    {
        let mut bytes: Vec<u8> = Vec::new();
        self.write_canonical(&mut bytes);
        assert(bytes@ =~= utf8(password_text(*self)));
        hex16(stable_hash(bytes.as_slice()))
    }
}

impl AuthConfig {
    #[verifier::spinoff_prover]
    #[verifier::rlimit(50)]
    fn canonical_text_exec(&self) -> (r: String)
        ensures
            r@ == canonical_text(self@),
    {
        let mut out = String::new();
        out.append("multi_tenant=");
        out.append(bool_str(self.multi_tenant));
        out.append(";");
        out.append("providers=");
        append_list(&mut out, &self.providers);
        out.append(";isolation=");
        out.append(isolation_debug_exec(self.isolation));
        out.append(";claims=");
        append_claims(&mut out, &self.claims);
        out.append("agents=");
        out.append(bool_str(self.agents));
        out.append(";");
        out.append("policies=");
        append_policies(&mut out, &self.policies);
        append_ui(&mut out, &self.ui);
        let pw = password_text_exec(&self.password_policy);
        out.append(pw.as_str());
        out.append("storage=authority:");
        out.append(self.storage.authority.as_str());
        out.append(",audit:");
        out.append(self.storage.audit.as_str());
        out.append(",reporting:");
        out.append(self.storage.reporting.as_str());
        out.append(";");
        assert(out@ =~= canonical_text(self@));
        out
    }

    /// The contract's fingerprint: equal for declarations that differ only
    /// in order.
    pub fn fingerprint(&self) -> (r: String)
        ensures
            r@ == config_fingerprint(self@),
    {
        let canonical = self.canonical();
        let text = canonical.canonical_text_exec();
        let mut bytes: Vec<u8> = Vec::new();
        push_utf8(&mut bytes, text.as_str());
        assert(bytes@ =~= utf8(text@));
        hex16(stable_hash(bytes.as_slice()))
    }
}

// ---------------------------------------------------------------------------
// Canonical convergence.
// ---------------------------------------------------------------------------

pub open spec fn claim_names_unique(cs: Seq<ClaimDefView>) -> bool {
    forall|i: int, j: int| 0 <= i < cs.len() && 0 <= j < cs.len() && i != j ==> cs[i].name != cs[j].name
}

pub open spec fn capabilities_unique(ps: Seq<PolicyDefView>) -> bool {
    forall|i: int, j: int| 0 <= i < ps.len() && 0 <= j < ps.len() && i != j ==> ps[i].capability
        != ps[j].capability
}

/// Declarations that differ only in the order of their providers, of their
/// claims (each named once), of each enum claim's values, and of their
/// policies (each capability declared once) converge on one canonical form,
/// and so on one fingerprint.
pub proof fn lemma_canonical_ignores_order(a: AuthConfigView, b: AuthConfigView)
    requires
        a.providers.to_multiset() == b.providers.to_multiset(),
        a.claims.map_values(|c: ClaimDefView| canonical_claim(c)).to_multiset()
            == b.claims.map_values(|c: ClaimDefView| canonical_claim(c)).to_multiset(),
        claim_names_unique(a.claims),
        a.policies.to_multiset() == b.policies.to_multiset(),
        capabilities_unique(a.policies),
        a.multi_tenant == b.multi_tenant,
        a.isolation == b.isolation,
        a.agents == b.agents,
        a.ui == b.ui,
        a.password_policy == b.password_policy,
        a.storage == b.storage,
    ensures
        canonical_view(a) == canonical_view(b),
        config_fingerprint(a) == config_fingerprint(b),
{
    broadcast use vstd::seq_lib::group_to_multiset_ensures;
    lemma_string_order_total();
    lemma_isort_by_permutation(a.providers, b.providers, le_of::<String>());
    let lc = le_of::<ClaimDef>();
    let f = |c: ClaimDefView| canonical_claim(c);
    assert forall|x: ClaimDefView, y: ClaimDefView| #[trigger] lc(x, y) || lc(y, x) by {
        crate::text::lemma_seq_le_total(x.name, y.name);
    }
    assert forall|x: ClaimDefView, y: ClaimDefView, z: ClaimDefView| #[trigger] lc(x, y) && #[trigger] lc(y, z) implies lc(x, z) by {
        crate::text::lemma_seq_le_transitive(x.name, y.name, z.name);
    }
    assert forall|x: ClaimDefView, y: ClaimDefView| #[trigger] lc(x, y) == lc(f(x), f(y)) by {}
    lemma_isort_by_map(a.claims, f, lc, lc);
    lemma_isort_by_map(b.claims, f, lc, lc);
    let ma = a.claims.map_values(f);
    assert forall|x: ClaimDefView, y: ClaimDefView| ma.contains(x) && ma.contains(y) && #[trigger] lc(x, y) && #[trigger] lc(y, x) implies x == y by {
        crate::text::lemma_seq_le_total(x.name, y.name);
        let i = choose|i: int| 0 <= i < ma.len() && ma[i] == x;
        let j = choose|j: int| 0 <= j < ma.len() && ma[j] == y;
        assert(a.claims[i].name == x.name && a.claims[j].name == y.name);
    }
    lemma_isort_by_unique_keys(ma, b.claims.map_values(f), lc);
    let lp = le_of::<PolicyDef>();
    assert forall|x: PolicyDefView, y: PolicyDefView| #[trigger] lp(x, y) || lp(y, x) by {
        crate::text::lemma_seq_le_total(x.capability, y.capability);
    }
    assert forall|x: PolicyDefView, y: PolicyDefView, z: PolicyDefView| #[trigger] lp(x, y) && #[trigger] lp(y, z) implies lp(x, z) by {
        crate::text::lemma_seq_le_transitive(x.capability, y.capability, z.capability);
    }
    assert forall|x: PolicyDefView, y: PolicyDefView| a.policies.contains(x) && a.policies.contains(y) && #[trigger] lp(x, y) && #[trigger] lp(y, x) implies x == y by {
        crate::text::lemma_seq_le_total(x.capability, y.capability);
        let i = choose|i: int| 0 <= i < a.policies.len() && a.policies[i] == x;
        let j = choose|j: int| 0 <= j < a.policies.len() && a.policies[j] == y;
    }
    lemma_isort_by_unique_keys(a.policies, b.policies, lp);
    assert(canonical_view(a) == canonical_view(b));
}

/// Each element of a deduplicated sequence is one of the original's.
proof fn lemma_dedup_from<T>(s: Seq<T>)
    ensures
        forall|i: int| 0 <= i < dedup(s).len() ==> exists|k: int| 0 <= k < s.len() && #[trigger] dedup(s)[i] == s[k],
        forall|i: int| 0 <= i < dedup(s).len() - 1 ==> #[trigger] dedup(s)[i] != dedup(s)[i + 1],
    decreases s.len(),
{
    if s.len() > 0 {
        let d = dedup(s.drop_last());
        lemma_dedup_from(s.drop_last());
        assert forall|i: int| 0 <= i < dedup(s).len() implies exists|k: int| 0 <= k < s.len() && #[trigger] dedup(s)[i] == s[k] by {
            if i < d.len() {
                let k = choose|k: int| 0 <= k < s.drop_last().len() && d[i] == s.drop_last()[k];
                assert(dedup(s)[i] == s[k]);
            } else {
                assert(dedup(s)[i] == s[s.len() - 1]);
            }
        }
        assert forall|i: int| 0 <= i < dedup(s).len() - 1 implies #[trigger] dedup(s)[i] != dedup(s)[i + 1] by {
            if i + 1 < d.len() {
                assert(dedup(s)[i] == d[i] && dedup(s)[i + 1] == d[i + 1]);
            }
        }
    }
}

/// A sequence without adjacent repeats is its own deduplication.
proof fn lemma_dedup_plain<T>(s: Seq<T>)
    requires
        forall|i: int| 0 <= i < s.len() - 1 ==> #[trigger] s[i] != s[i + 1],
    ensures
        dedup(s) == s,
    decreases s.len(),
{
    if s.len() > 0 {
        let d = s.drop_last();
        assert forall|i: int| 0 <= i < d.len() - 1 implies #[trigger] d[i] != d[i + 1] by {
            assert(d[i] == s[i] && d[i + 1] == s[i + 1]);
        }
        lemma_dedup_plain(d);
        if d.len() > 0 {
            assert(s[d.len() - 1] != s[d.len() as int]);
        }
        assert(d.push(s.last()) =~= s);
    }
}

/// Deduplicating a sorted sequence keeps it sorted.
proof fn lemma_dedup_sorted<T>(s: Seq<T>, le: spec_fn(T, T) -> bool)
    requires
        sorted_by(s, le),
    ensures
        sorted_by(dedup(s), le),
    decreases s.len(),
{
    if s.len() > 0 {
        let t = s.drop_last();
        assert forall|i: int, j: int| 0 <= i < j < t.len() implies le(t[i], t[j]) by {
            assert(t[i] == s[i] && t[j] == s[j]);
        }
        lemma_dedup_sorted(t, le);
        lemma_dedup_from(t);
        let d = dedup(t);
        assert forall|i: int, j: int| 0 <= i < j < dedup(s).len() implies le(dedup(s)[i], dedup(s)[j]) by {
            if j < d.len() {
                assert(dedup(s)[i] == d[i] && dedup(s)[j] == d[j]);
            } else {
                assert(dedup(s)[j] == s.last());
                assert(dedup(s)[i] == d[i]);
                let k = choose|k: int| 0 <= k < t.len() && d[i] == t[k];
                assert(t[k] == s[k]);
                assert(le(s[k], s[s.len() - 1]));
            }
        }
    }
}

/// Canonicalising a canonical contract changes nothing: its providers,
/// claims (and each enum's values), policies and UI overrides are already
/// in order, and its overrides already without repeats.
pub proof fn lemma_canonical_idempotent(c: AuthConfigView)
    ensures
        canonical_view(canonical_view(c)) == canonical_view(c),
{
    let k = canonical_view(c);
    // providers
    lemma_string_order_total();
    let ls = le_of::<String>();
    assert forall|a: Seq<char>, b: Seq<char>| #[trigger] ls(a, b) || ls(b, a) by {
        crate::text::lemma_seq_le_total(a, b);
    }
    assert forall|a: Seq<char>, b: Seq<char>, d: Seq<char>| #[trigger] ls(a, b) && #[trigger] ls(b, d) implies ls(a, d) by {
        crate::text::lemma_seq_le_transitive(a, b, d);
    }
    lemma_isort_by_twice(c.providers, ls);
    // claims
    let lc = le_of::<ClaimDef>();
    let f = |x: ClaimDefView| canonical_claim(x);
    assert forall|x: ClaimDefView, y: ClaimDefView| #[trigger] lc(x, y) || lc(y, x) by {
        crate::text::lemma_seq_le_total(x.name, y.name);
    }
    assert forall|x: ClaimDefView, y: ClaimDefView, z: ClaimDefView| #[trigger] lc(x, y) && #[trigger] lc(y, z) implies lc(x, z) by {
        crate::text::lemma_seq_le_transitive(x.name, y.name, z.name);
    }
    let sc = isort_by(c.claims, lc);
    lemma_isort_by(c.claims, lc);
    let m = sc.map_values(f);
    assert(sorted_by(m, lc)) by {
        assert forall|i: int, j: int| 0 <= i < j < m.len() implies lc(m[i], m[j]) by {
            assert(m[i].name == sc[i].name && m[j].name == sc[j].name);
            assert(lc(sc[i], sc[j]));
        }
    }
    lemma_isort_by_sorted(m, lc);
    assert forall|i: int| 0 <= i < m.len() implies #[trigger] f(m[i]) == m[i] by {
        match sc[i].kind {
            ClaimKindView::Enum(values) => {
                lemma_isort_by_twice(values, ls);
            },
            _ => {},
        }
    }
    assert(m.map_values(f) =~= m);
    // policies
    let lp = le_of::<PolicyDef>();
    assert forall|x: PolicyDefView, y: PolicyDefView| #[trigger] lp(x, y) || lp(y, x) by {
        crate::text::lemma_seq_le_total(x.capability, y.capability);
    }
    assert forall|x: PolicyDefView, y: PolicyDefView, z: PolicyDefView| #[trigger] lp(x, y) && #[trigger] lp(y, z) implies lp(x, z) by {
        crate::text::lemma_seq_le_transitive(x.capability, y.capability, z.capability);
    }
    lemma_isort_by_twice(c.policies, lp);
    // ui
    let lu = le_of::<UiScreenOverride>();
    assert forall|x: UiScreenOverride, y: UiScreenOverride| #[trigger] lu(x, y) || lu(y, x) by {}
    assert forall|x: UiScreenOverride, y: UiScreenOverride, z: UiScreenOverride| #[trigger] lu(x, y) && #[trigger] lu(y, z) implies lu(x, z) by {}
    let su = isort_by(c.ui.screens, lu);
    lemma_isort_by(c.ui.screens, lu);
    let du = dedup(su);
    lemma_dedup_sorted(su, lu);
    lemma_isort_by_sorted(du, lu);
    lemma_dedup_from(su);
    lemma_dedup_plain(du);
    assert(canonical_ui(k.ui).screens == k.ui.screens);
    assert(canonical_ui(k.ui) == k.ui);
    assert(canonical_view(k) == k);
}

} // verus!
