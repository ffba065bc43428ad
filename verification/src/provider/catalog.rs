//! The provider catalog and the resolution of a model level (lite, normal,
//! pro) to a configured provider, a model and credentials.
use vstd::prelude::*;

use crate::text::{owned, push_str, str_eq};

verus! {

/// Capability tier requested by a feature.
#[derive(Debug, Clone, Copy, PartialEq, Eq, PartialOrd, Ord, Structural)]
pub enum ModelLevel {
    Lite,
    Normal,
    Pro,
}

/// A feature's request for a model level, optionally naming a provider.
#[derive(Debug, Clone, PartialEq, Eq)]
pub struct ModelLevelIntent {
    pub level: ModelLevel,
    pub feature_tag: String,
    pub provider_hint: Option<String>,
}

pub open spec fn ov(o: Option<String>) -> Option<Seq<char>> {
    match o {
        Some(s) => Some(s@),
        None => None,
    }
}

impl ModelLevelIntent {
    /// An intent with no provider hint.
    pub fn new(level: ModelLevel, feature_tag: &str) -> (r: Self)
        ensures
            r.level == level,
            r.feature_tag@ == feature_tag@,
            r.provider_hint is None,
    {
        ModelLevelIntent { level, feature_tag: owned(feature_tag), provider_hint: None }
    }

    /// Names the provider to use.
    pub fn with_provider_hint(self, provider_hint: &str) -> (r: Self)
        ensures
            r.level == self.level,
            r.feature_tag == self.feature_tag,
            ov(r.provider_hint) == Some(provider_hint@),
    {
        let mut s = self;
        s.provider_hint = Some(owned(provider_hint));
        s
    }
}

/// The API surface a provider speaks.
#[derive(Debug, Clone, Copy, PartialEq, Eq, Structural)]
pub enum ProviderSurfaceKind {
    OpenAiCompatible,
    OpenRouter,
}

/// The model a provider serves for one level, with optional overrides.
#[derive(Debug, Clone, PartialEq, Eq)]
pub struct ProviderLevelTarget {
    pub model: String,
    pub base_url_override: Option<String>,
    pub api_key_env_override: Option<String>,
}

impl ProviderLevelTarget {
    /// A target with no overrides.
    pub fn new(model: &str) -> (r: Self)
        ensures
            r.model@ == model@,
            r.base_url_override is None,
            r.api_key_env_override is None,
    {
        ProviderLevelTarget { model: owned(model), base_url_override: None, api_key_env_override: None }
    }

    /// Overrides the base URL.
    pub fn with_base_url_override(self, base_url: &str) -> (r: Self)
        ensures
            r.model == self.model,
            ov(r.base_url_override) == Some(base_url@),
            r.api_key_env_override == self.api_key_env_override,
    {
        let mut s = self;
        s.base_url_override = Some(owned(base_url));
        s
    }

    /// Overrides the environment variable holding the API key.
    pub fn with_api_key_env_override(self, env_var: &str) -> (r: Self)
        ensures
            r.model == self.model,
            r.base_url_override == self.base_url_override,
            ov(r.api_key_env_override) == Some(env_var@),
    {
        let mut s = self;
        s.api_key_env_override = Some(owned(env_var));
        s
    }
}

pub fn clone_target(t: &ProviderLevelTarget) -> (r: ProviderLevelTarget)
    ensures
        r == *t,
{
    ProviderLevelTarget {
        model: t.model.clone(),
        base_url_override: match &t.base_url_override {
            Some(s) => Some(s.clone()),
            None => None,
        },
        api_key_env_override: match &t.api_key_env_override {
            Some(s) => Some(s.clone()),
            None => None,
        },
    }
}

/// One provider of the catalog and the model it serves at each level.
#[derive(Debug, PartialEq, Eq)]
pub struct ProviderCatalogEntry {
    pub provider_id: String,
    pub surface: ProviderSurfaceKind,
    pub credentials_required: bool,
    pub default_base_url: Option<String>,
    pub default_api_key_env: Option<String>,
    /// At most one target per level.
    pub levels: Vec<(ModelLevel, ProviderLevelTarget)>,
}

/// The target of `level` in a level list, if any.
pub open spec fn level_target(levels: Seq<(ModelLevel, ProviderLevelTarget)>, level: ModelLevel) -> Option<ProviderLevelTarget>
    decreases levels.len(),
{
    if levels.len() == 0 {
        None
    } else if levels.last().0 == level {
        Some(levels.last().1)
    } else {
        level_target(levels.drop_last(), level)
    }
}

impl ProviderCatalogEntry {
    /// An entry with no credentials requirement, no defaults and no levels.
    pub fn new(provider_id: &str, surface: ProviderSurfaceKind) -> (r: Self)
        ensures
            r.provider_id@ == provider_id@,
            r.surface == surface,
            !r.credentials_required,
            r.default_base_url is None,
            r.default_api_key_env is None,
            r.levels@.len() == 0,
    {
        ProviderCatalogEntry {
            provider_id: owned(provider_id),
            surface,
            credentials_required: false,
            default_base_url: None,
            default_api_key_env: None,
            levels: Vec::new(),
        }
    }

    /// Sets whether credentials are required.
    pub fn with_credentials_required(self, required: bool) -> (r: Self)
        ensures
            r == (ProviderCatalogEntry { credentials_required: required, ..self }),
    {
        let mut s = self;
        s.credentials_required = required;
        s
    }

    /// Sets the default base URL.
    pub fn with_default_base_url(self, base_url: &str) -> (r: Self)
        ensures
            ov(r.default_base_url) == Some(base_url@),
            r.provider_id == self.provider_id,
            r.surface == self.surface,
            r.credentials_required == self.credentials_required,
            r.default_api_key_env == self.default_api_key_env,
            r.levels == self.levels,
    {
        let mut s = self;
        s.default_base_url = Some(owned(base_url));
        s
    }

    /// Sets the default environment variable of the API key.
    pub fn with_default_api_key_env(self, env_var: &str) -> (r: Self)
        ensures
            ov(r.default_api_key_env) == Some(env_var@),
            r.provider_id == self.provider_id,
            r.surface == self.surface,
            r.credentials_required == self.credentials_required,
            r.default_base_url == self.default_base_url,
            r.levels == self.levels,
    {
        let mut s = self;
        s.default_api_key_env = Some(owned(env_var));
        s
    }

    /// Sets the target of `level`, replacing an earlier one.
    pub fn with_level(self, level: ModelLevel, target: ProviderLevelTarget) -> (r: Self)
        ensures
            r.provider_id == self.provider_id,
            r.surface == self.surface,
            r.credentials_required == self.credentials_required,
            r.default_base_url == self.default_base_url,
            r.default_api_key_env == self.default_api_key_env,
            level_target(r.levels@, level) == Some(target),
            forall|l: ModelLevel| l != level ==> level_target(r.levels@, l) == level_target(self.levels@, l),
    {
        let ghost old_levels = self.levels@;
        let mut s = self;
        let mut kept: Vec<(ModelLevel, ProviderLevelTarget)> = Vec::new();
        let mut i: usize = 0;
        while i < s.levels.len()
            invariant
                i <= s.levels.len(),
                old_levels == s.levels@,
                forall|l: ModelLevel| l != level ==> level_target(kept@, l) == level_target(old_levels.take(i as int), l),
                level_target(kept@, level) is None,
            decreases s.levels.len() - i,
        {
            proof {
                assert(old_levels.take(i + 1).drop_last() =~= old_levels.take(i as int));
            }
            let ghost before = kept@;
            let ghost cur = old_levels[i as int];
            assert(old_levels.take(i + 1).last() == cur);
            if s.levels[i].0 != level {
                let t = clone_target(&s.levels[i].1);
                kept.push((s.levels[i].0, t));
                assert(kept@.drop_last() =~= before);
                assert forall|l: ModelLevel| l != level implies level_target(kept@, l) == level_target(old_levels.take(i + 1), l) by {
                    if l == cur.0 {
                    } else {
                        assert(level_target(kept@, l) == level_target(before, l));
                    }
                }
            } else {
                assert forall|l: ModelLevel| l != level implies level_target(kept@, l) == level_target(old_levels.take(i + 1), l) by {
                    assert(level_target(old_levels.take(i + 1), l) == level_target(old_levels.take(i as int), l));
                }
            }
            i = i + 1;
        }
        assert(old_levels.take(i as int) =~= old_levels);
        let ghost before = kept@;
        kept.push((level, target));
        assert(kept@.drop_last() =~= before);
        assert forall|l: ModelLevel| l != level implies level_target(kept@, l) == level_target(old_levels, l) by {
            assert(kept@.last().0 == level);
            assert(level_target(kept@, l) == level_target(before, l));
            assert(level_target(before, l) == level_target(old_levels.take(i as int), l));
        }
        s.levels = kept;
        s
    }
}

/// Operator configuration of one provider.
#[derive(Debug, PartialEq, Eq)]
pub struct ProviderBasicConfig {
    pub provider_id: String,
    pub enabled: bool,
    pub base_url: Option<String>,
    pub api_key: Option<String>,
    pub api_key_env: Option<String>,
}

impl ProviderBasicConfig {
    /// An enabled provider with no overrides.
    pub fn new(provider_id: &str) -> (r: Self)
        ensures
            r.provider_id@ == provider_id@,
            r.enabled,
            r.base_url is None,
            r.api_key is None,
            r.api_key_env is None,
    {
        ProviderBasicConfig {
            provider_id: owned(provider_id),
            enabled: true,
            base_url: None,
            api_key: None,
            api_key_env: None,
        }
    }

    /// Enables or disables the provider.
    pub fn with_enabled(self, enabled: bool) -> (r: Self)
        ensures
            r == (ProviderBasicConfig { enabled, ..self }),
    {
        let mut s = self;
        s.enabled = enabled;
        s
    }

    /// Sets the base URL.
    pub fn with_base_url(self, base_url: &str) -> (r: Self)
        ensures
            ov(r.base_url) == Some(base_url@),
            r.provider_id == self.provider_id,
            r.enabled == self.enabled,
            r.api_key == self.api_key,
            r.api_key_env == self.api_key_env,
    {
        let mut s = self;
        s.base_url = Some(owned(base_url));
        s
    }

    /// Sets the API key itself.
    pub fn with_api_key(self, api_key: &str) -> (r: Self)
        ensures
            ov(r.api_key) == Some(api_key@),
            r.provider_id == self.provider_id,
            r.enabled == self.enabled,
            r.base_url == self.base_url,
            r.api_key_env == self.api_key_env,
    {
        let mut s = self;
        s.api_key = Some(owned(api_key));
        s
    }

    /// Sets the environment variable of the API key.
    pub fn with_api_key_env(self, env_var: &str) -> (r: Self)
        ensures
            ov(r.api_key_env) == Some(env_var@),
            r.provider_id == self.provider_id,
            r.enabled == self.enabled,
            r.base_url == self.base_url,
            r.api_key == self.api_key,
    {
        let mut s = self;
        s.api_key_env = Some(owned(env_var));
        s
    }
}


/// Default base URL of an OpenAI-compatible provider.
pub open spec fn openai_default_base_url() -> Seq<char> {
    "https://api.openai.com/v1"@
}

/// Default base URL of OpenRouter.
pub open spec fn openrouter_default_base_url() -> Seq<char> {
    "https://openrouter.ai/api/v1"@
}

/// Which message roles may carry image content.
#[derive(Debug, Clone, Copy, PartialEq, Eq, Structural)]
pub struct MultimodalInputRoles {
    pub user: bool,
    pub assistant: bool,
    pub system: bool,
    pub tool: bool,
}

impl MultimodalInputRoles {
    /// Images only in user messages.
    pub fn user_only() -> (r: Self)
        ensures
            r.user && !r.assistant && !r.system && !r.tool,
    {
        MultimodalInputRoles { user: true, assistant: false, system: false, tool: false }
    }
}

/// Connection settings of an OpenAI-compatible chat API.
#[derive(Debug, Clone)]
pub struct OpenAiCompatibleConfig {
    pub model: String,
    pub base_url: String,
    pub api_key: Option<String>,
    pub multimodal_input_roles: MultimodalInputRoles,
}

impl OpenAiCompatibleConfig {
    /// The model on the OpenAI endpoint, without a key, images from users only.
    pub fn new(model: &str) -> (r: Self)
        ensures
            r.model@ == model@,
            r.base_url@ == openai_default_base_url(),
            r.api_key is None,
            r.multimodal_input_roles == (MultimodalInputRoles { user: true, assistant: false, system: false, tool: false }),
    {
        OpenAiCompatibleConfig {
            model: owned(model),
            base_url: owned("https://api.openai.com/v1"),
            api_key: None,
            multimodal_input_roles: MultimodalInputRoles::user_only(),
        }
    }

    /// Sets the base URL.
    pub fn with_base_url(self, base_url: &str) -> (r: Self)
        ensures
            r.base_url@ == base_url@,
            r.model == self.model,
            r.api_key == self.api_key,
            r.multimodal_input_roles == self.multimodal_input_roles,
    {
        let mut s = self;
        s.base_url = owned(base_url);
        s
    }

    /// Sets the API key.
    pub fn with_api_key(self, api_key: &str) -> (r: Self)
        ensures
            ov(r.api_key) == Some(api_key@),
            r.model == self.model,
            r.base_url == self.base_url,
            r.multimodal_input_roles == self.multimodal_input_roles,
    {
        let mut s = self;
        s.api_key = Some(owned(api_key));
        s
    }

    /// Sets the roles that may carry images.
    pub fn with_multimodal_input_roles(self, roles: MultimodalInputRoles) -> (r: Self)
        ensures
            r.multimodal_input_roles == roles,
            r.model == self.model,
            r.base_url == self.base_url,
            r.api_key == self.api_key,
    {
        let mut s = self;
        s.multimodal_input_roles = roles;
        s
    }
}

/// Connection settings of OpenRouter.
#[derive(Debug, Clone)]
pub struct OpenRouterConfig {
    pub model: String,
    pub base_url: String,
    pub api_key: Option<String>,
}

impl OpenRouterConfig {
    /// The model on the OpenRouter endpoint, without a key.
    pub fn new(model: &str) -> (r: Self)
        ensures
            r.model@ == model@,
            r.base_url@ == openrouter_default_base_url(),
            r.api_key is None,
    {
        OpenRouterConfig { model: owned(model), base_url: owned("https://openrouter.ai/api/v1"), api_key: None }
    }

    /// Sets the base URL.
    pub fn with_base_url(self, base_url: &str) -> (r: Self)
        ensures
            r.base_url@ == base_url@,
            r.model == self.model,
            r.api_key == self.api_key,
    {
        let mut s = self;
        s.base_url = owned(base_url);
        s
    }

    /// Sets the API key.
    pub fn with_api_key(self, api_key: &str) -> (r: Self)
        ensures
            ov(r.api_key) == Some(api_key@),
            r.model == self.model,
            r.base_url == self.base_url,
    {
        let mut s = self;
        s.api_key = Some(owned(api_key));
        s
    }
}

/// How to construct the provider that a selection resolved to.
#[derive(Debug, Clone)]
pub enum ProviderInitSpec {
    OpenAiCompatible { config: OpenAiCompatibleConfig },
    OpenRouter { config: OpenRouterConfig },
}

/// What a resolution reports about its choice.
#[derive(Debug, Clone, PartialEq, Eq)]
pub struct ModelLevelResolutionDiagnostics {
    pub feature_tag: String,
    pub requested_level: ModelLevel,
    pub provider_hint: Option<String>,
    pub candidate_providers: Vec<String>,
    pub chosen_provider: String,
    pub chosen_model: String,
}

/// A successful resolution.
#[derive(Debug, Clone)]
pub struct ResolvedProviderSelection {
    pub provider_id: String,
    pub requested_level: ModelLevel,
    pub init_spec: ProviderInitSpec,
    pub diagnostics: ModelLevelResolutionDiagnostics,
}

/// Why a resolution failed.
#[derive(Debug, Clone, PartialEq, Eq)]
pub enum ModelLevelResolutionError {
    ProviderNotConfigured { provider_id: String },
    ProviderDisabled { provider_id: String },
    ProviderUnknown { provider_id: String },
    UnsupportedLevel { provider_id: String, level: ModelLevel },
    CredentialsMissing { provider_id: String, env_var: Option<String> },
    NoProviderAvailable { level: ModelLevel },
}

pub open spec fn error_code(e: ModelLevelResolutionError) -> Seq<char> {
    match e {
        ModelLevelResolutionError::ProviderNotConfigured { .. } => "model_level_provider_not_configured"@,
        ModelLevelResolutionError::ProviderDisabled { .. } => "model_level_provider_disabled"@,
        ModelLevelResolutionError::ProviderUnknown { .. } => "model_level_provider_unknown"@,
        ModelLevelResolutionError::UnsupportedLevel { .. } => "model_level_unsupported_level"@,
        ModelLevelResolutionError::CredentialsMissing { .. } => "model_level_credentials_missing"@,
        ModelLevelResolutionError::NoProviderAvailable { .. } => "model_level_no_provider_available"@,
    }
}

impl ModelLevelResolutionError {
    /// The stable code of the error.
    pub fn code(&self) -> (r: &'static str)
        ensures
            r@ == error_code(*self),
    {
        match self {
            ModelLevelResolutionError::ProviderNotConfigured { .. } => "model_level_provider_not_configured",
            ModelLevelResolutionError::ProviderDisabled { .. } => "model_level_provider_disabled",
            ModelLevelResolutionError::ProviderUnknown { .. } => "model_level_provider_unknown",
            ModelLevelResolutionError::UnsupportedLevel { .. } => "model_level_unsupported_level",
            ModelLevelResolutionError::CredentialsMissing { .. } => "model_level_credentials_missing",
            ModelLevelResolutionError::NoProviderAvailable { .. } => "model_level_no_provider_available",
        }
    }

    /// The error as text: its code, a colon and space, then the provider
    /// (and the level, by its name) or the level the error names.
    pub fn to_text(&self) -> (r: String)
        ensures
            r@ == error_code(*self) + ": "@ + error_detail(*self),
    {
        let mut r = owned(self.code());
        push_str(&mut r, ": ");
        match self {
            ModelLevelResolutionError::ProviderNotConfigured { provider_id }
            | ModelLevelResolutionError::ProviderDisabled { provider_id }
            | ModelLevelResolutionError::ProviderUnknown { provider_id }
            | ModelLevelResolutionError::CredentialsMissing { provider_id, .. } => {
                push_str(&mut r, provider_id.as_str());
            },
            ModelLevelResolutionError::UnsupportedLevel { provider_id, level } => {
                push_str(&mut r, provider_id.as_str());
                push_str(&mut r, " ");
                push_str(&mut r, level_name(*level));
            },
            ModelLevelResolutionError::NoProviderAvailable { level } => {
                push_str(&mut r, level_name(*level));
            },
        }
        r
    }
}

/// The name of a level as `Debug` writes it.
pub open spec fn level_name_text(l: ModelLevel) -> Seq<char> {
    match l {
        ModelLevel::Lite => "Lite"@,
        ModelLevel::Normal => "Normal"@,
        ModelLevel::Pro => "Pro"@,
    }
}

/// The name of a level.
pub fn level_name(l: ModelLevel) -> (r: &'static str)
    ensures
        r@ == level_name_text(l),
{
    match l {
        ModelLevel::Lite => "Lite",
        ModelLevel::Normal => "Normal",
        ModelLevel::Pro => "Pro",
    }
}

/// What the text of an error says after its code.
pub open spec fn error_detail(e: ModelLevelResolutionError) -> Seq<char> {
    match e {
        ModelLevelResolutionError::ProviderNotConfigured { provider_id } => provider_id@,
        ModelLevelResolutionError::ProviderDisabled { provider_id } => provider_id@,
        ModelLevelResolutionError::ProviderUnknown { provider_id } => provider_id@,
        ModelLevelResolutionError::UnsupportedLevel { provider_id, level } => provider_id@ + " "@ + level_name_text(level),
        ModelLevelResolutionError::CredentialsMissing { provider_id, .. } => provider_id@,
        ModelLevelResolutionError::NoProviderAvailable { level } => level_name_text(level),
    }
}

/// `c` is the built-in catalog: an OpenAI-compatible provider and
/// OpenRouter, both requiring credentials, with their default base URLs and
/// key variables, each serving a model at every level without overrides.
pub open spec fn is_default_catalog(c: Seq<ProviderCatalogEntry>) -> bool {
    &&& c.len() == 2
    &&& c[0].provider_id@ == "openai-compatible"@
    &&& c[0].surface == ProviderSurfaceKind::OpenAiCompatible
    &&& c[0].credentials_required
    &&& ov(c[0].default_base_url) == Some("https://api.openai.com/v1"@)
    &&& ov(c[0].default_api_key_env) == Some("OPENAI_API_KEY"@)
    &&& level_target(c[0].levels@, ModelLevel::Lite).unwrap().model@ == "gpt-4o-mini"@
    &&& level_target(c[0].levels@, ModelLevel::Normal).unwrap().model@ == "gpt-4o"@
    &&& level_target(c[0].levels@, ModelLevel::Pro).unwrap().model@ == "o3"@
    &&& c[1].provider_id@ == "openrouter"@
    &&& c[1].surface == ProviderSurfaceKind::OpenRouter
    &&& c[1].credentials_required
    &&& ov(c[1].default_base_url) == Some("https://openrouter.ai/api/v1"@)
    &&& ov(c[1].default_api_key_env) == Some("OPENROUTER_API_KEY"@)
    &&& level_target(c[1].levels@, ModelLevel::Lite).unwrap().model@ == "openai/gpt-4o-mini"@
    &&& level_target(c[1].levels@, ModelLevel::Normal).unwrap().model@ == "openai/gpt-4o"@
    &&& level_target(c[1].levels@, ModelLevel::Pro).unwrap().model@ == "openai/o3"@
    &&& forall|i: int, l: ModelLevel| 0 <= i < 2 ==> (#[trigger] level_target(c[i].levels@, l)) is Some
    &&& forall|i: int, l: ModelLevel| 0 <= i < 2 ==> (#[trigger] level_target(c[i].levels@, l)).unwrap().base_url_override is None && level_target(c[i].levels@, l).unwrap().api_key_env_override is None
}

/// The built-in catalog (see [`is_default_catalog`]).
pub fn default_model_level_catalog() -> (r: Vec<ProviderCatalogEntry>)
    ensures
        is_default_catalog(r@),
{
    let a = ProviderCatalogEntry::new("openai-compatible", ProviderSurfaceKind::OpenAiCompatible)
        .with_credentials_required(true)
        .with_default_base_url("https://api.openai.com/v1")
        .with_default_api_key_env("OPENAI_API_KEY")
        .with_level(ModelLevel::Lite, ProviderLevelTarget::new("gpt-4o-mini"))
        .with_level(ModelLevel::Normal, ProviderLevelTarget::new("gpt-4o"))
        .with_level(ModelLevel::Pro, ProviderLevelTarget::new("o3"));
    let b = ProviderCatalogEntry::new("openrouter", ProviderSurfaceKind::OpenRouter)
        .with_credentials_required(true)
        .with_default_base_url("https://openrouter.ai/api/v1")
        .with_default_api_key_env("OPENROUTER_API_KEY")
        .with_level(ModelLevel::Lite, ProviderLevelTarget::new("openai/gpt-4o-mini"))
        .with_level(ModelLevel::Normal, ProviderLevelTarget::new("openai/gpt-4o"))
        .with_level(ModelLevel::Pro, ProviderLevelTarget::new("openai/o3"));
    let mut out = Vec::new();
    out.push(a);
    out.push(b);
    assert forall|i: int, l: ModelLevel| 0 <= i < 2 implies (#[trigger] level_target(out@[i].levels@, l)) is Some by {
        match l {
            ModelLevel::Lite => {},
            ModelLevel::Normal => {},
            ModelLevel::Pro => {},
        }
    }
    out
}


// ----- resolution -----

/// The last configuration of a provider id (later ones replace earlier).
pub open spec fn config_for(configs: Seq<ProviderBasicConfig>, id: Seq<char>) -> Option<ProviderBasicConfig>
    decreases configs.len(),
{
    if configs.len() == 0 {
        None
    } else if configs.last().provider_id@ == id {
        Some(configs.last())
    } else {
        config_for(configs.drop_last(), id)
    }
}

/// The last catalog entry of a provider id.
pub open spec fn entry_for(catalog: Seq<ProviderCatalogEntry>, id: Seq<char>) -> Option<ProviderCatalogEntry>
    decreases catalog.len(),
{
    if catalog.len() == 0 {
        None
    } else if catalog.last().provider_id@ == id {
        Some(catalog.last())
    } else {
        entry_for(catalog.drop_last(), id)
    }
}

/// The value of an environment variable in a snapshot of the environment.
pub open spec fn env_value(env: Seq<(String, String)>, name: Seq<char>) -> Option<Seq<char>>
    decreases env.len(),
{
    if env.len() == 0 {
        None
    } else if env.last().0@ == name {
        Some(env.last().1@)
    } else {
        env_value(env.drop_last(), name)
    }
}

pub open spec fn first_some(a: Option<Seq<char>>, b: Option<Seq<char>>, c: Option<Seq<char>>) -> Option<Seq<char>> {
    if a is Some {
        a
    } else if b is Some {
        b
    } else {
        c
    }
}

/// The API key of a provider: the configured key; else the value of the
/// first named variable (configuration, level override, catalog default).
/// When credentials are required and no key is found, the error names the
/// variable that was consulted.
pub open spec fn api_key_for(
    config: ProviderBasicConfig,
    entry: ProviderCatalogEntry,
    target: ProviderLevelTarget,
    env: Seq<(String, String)>,
) -> Result<Option<Seq<char>>, Option<Seq<char>>> {
    if config.api_key is Some {
        Ok(ov(config.api_key))
    } else {
        let var = first_some(ov(config.api_key_env), ov(target.api_key_env_override), ov(entry.default_api_key_env));
        let key = match var {
            Some(n) => env_value(env, n),
            None => None,
        };
        if entry.credentials_required && key is None {
            Err(var)
        } else {
            Ok(key)
        }
    }
}

/// The providers tried, in order: the hinted one, else every configured id.
pub open spec fn candidates(intent: ModelLevelIntent, configs: Seq<ProviderBasicConfig>) -> Seq<Seq<char>> {
    match intent.provider_hint {
        Some(h) => seq![h@],
        None => configs.map_values(|c: ProviderBasicConfig| c.provider_id@),
    }
}

/// Mathematical value of a resolution outcome.
pub enum ResolutionView {
    Selected { provider_id: Seq<char>, surface: ProviderSurfaceKind, model: Seq<char>, base_url: Seq<char>, api_key: Option<Seq<char>> },
    NotConfigured { provider_id: Seq<char> },
    Disabled { provider_id: Seq<char> },
    Unknown { provider_id: Seq<char> },
    UnsupportedLevel { provider_id: Seq<char>, level: ModelLevel },
    CredentialsMissing { provider_id: Seq<char>, env_var: Option<Seq<char>> },
    NoProviderAvailable { level: ModelLevel },
}

/// Resolution from the `i`-th candidate on. A candidate that is not
/// configured, disabled, unknown to the catalog or without the level is
/// skipped, unless a provider was hinted, in which case that is the error.
/// Missing required credentials are always an error.
pub open spec fn resolve_from(
    intent: ModelLevelIntent,
    configs: Seq<ProviderBasicConfig>,
    catalog: Seq<ProviderCatalogEntry>,
    env: Seq<(String, String)>,
    cands: Seq<Seq<char>>,
    i: int,
) -> ResolutionView
    decreases cands.len() - i,
{
    if i < 0 || i >= cands.len() {
        ResolutionView::NoProviderAvailable { level: intent.level }
    } else {
        let id = cands[i];
        let hinted = intent.provider_hint is Some;
        match config_for(configs, id) {
            None => if hinted {
                ResolutionView::NotConfigured { provider_id: id }
            } else {
                resolve_from(intent, configs, catalog, env, cands, i + 1)
            },
            Some(config) => if !config.enabled {
                if hinted {
                    ResolutionView::Disabled { provider_id: id }
                } else {
                    resolve_from(intent, configs, catalog, env, cands, i + 1)
                }
            } else {
                match entry_for(catalog, id) {
                    None => if hinted {
                        ResolutionView::Unknown { provider_id: id }
                    } else {
                        resolve_from(intent, configs, catalog, env, cands, i + 1)
                    },
                    Some(entry) => match level_target(entry.levels@, intent.level) {
                        None => if hinted {
                            ResolutionView::UnsupportedLevel { provider_id: id, level: intent.level }
                        } else {
                            resolve_from(intent, configs, catalog, env, cands, i + 1)
                        },
                        Some(target) => match api_key_for(config, entry, target, env) {
                            Err(var) => ResolutionView::CredentialsMissing { provider_id: id, env_var: var },
                            Ok(key) => ResolutionView::Selected {
                                provider_id: id,
                                surface: entry.surface,
                                model: target.model@,
                                base_url: match first_some(ov(config.base_url), ov(target.base_url_override), ov(entry.default_base_url)) {
                                    Some(u) => u,
                                    None => match entry.surface {
                                        ProviderSurfaceKind::OpenAiCompatible => openai_default_base_url(),
                                        ProviderSurfaceKind::OpenRouter => openrouter_default_base_url(),
                                    },
                                },
                                api_key: key,
                            },
                        },
                    },
                }
            }
        }
    }
}

/// The outcome of resolving `intent` against the configurations, the
/// catalog and the environment.
pub open spec fn resolution(
    intent: ModelLevelIntent,
    configs: Seq<ProviderBasicConfig>,
    catalog: Seq<ProviderCatalogEntry>,
    env: Seq<(String, String)>,
) -> ResolutionView {
    resolve_from(intent, configs, catalog, env, candidates(intent, configs), 0)
}

pub open spec fn init_view(spec: ProviderInitSpec) -> (ProviderSurfaceKind, Seq<char>, Seq<char>, Option<Seq<char>>) {
    match spec {
        ProviderInitSpec::OpenAiCompatible { config } => (ProviderSurfaceKind::OpenAiCompatible, config.model@, config.base_url@, ov(config.api_key)),
        ProviderInitSpec::OpenRouter { config } => (ProviderSurfaceKind::OpenRouter, config.model@, config.base_url@, ov(config.api_key)),
    }
}

/// The value of an exec outcome.
pub open spec fn outcome_view(r: Result<ResolvedProviderSelection, ModelLevelResolutionError>) -> ResolutionView {
    match r {
        Ok(sel) => {
            let v = init_view(sel.init_spec);
            ResolutionView::Selected { provider_id: sel.provider_id@, surface: v.0, model: v.1, base_url: v.2, api_key: v.3 }
        },
        Err(ModelLevelResolutionError::ProviderNotConfigured { provider_id }) => ResolutionView::NotConfigured { provider_id: provider_id@ },
        Err(ModelLevelResolutionError::ProviderDisabled { provider_id }) => ResolutionView::Disabled { provider_id: provider_id@ },
        Err(ModelLevelResolutionError::ProviderUnknown { provider_id }) => ResolutionView::Unknown { provider_id: provider_id@ },
        Err(ModelLevelResolutionError::UnsupportedLevel { provider_id, level }) => ResolutionView::UnsupportedLevel { provider_id: provider_id@, level },
        Err(ModelLevelResolutionError::CredentialsMissing { provider_id, env_var }) => ResolutionView::CredentialsMissing { provider_id: provider_id@, env_var: ov(env_var) },
        Err(ModelLevelResolutionError::NoProviderAvailable { level }) => ResolutionView::NoProviderAvailable { level },
    }
}

fn find_config(configs: &[ProviderBasicConfig], id: &str) -> (r: Option<usize>)
    ensures
        match r {
            Some(i) => i < configs@.len() && config_for(configs@, id@) == Some(configs@[i as int]),
            None => config_for(configs@, id@) is None,
        },
{
    let mut i = configs.len();
    assert(configs@.take(i as int) =~= configs@);
    while i > 0
        invariant
            i <= configs.len(),
            config_for(configs@, id@) == config_for(configs@.take(i as int), id@),
        decreases i,
    {
        assert(configs@.take(i as int).drop_last() =~= configs@.take(i - 1));
        assert(configs@.take(i as int).last() == configs@[i - 1]);
        if str_eq(configs[i - 1].provider_id.as_str(), id) {
            return Some(i - 1);
        }
        i = i - 1;
    }
    None
}

fn find_entry(catalog: &[ProviderCatalogEntry], id: &str) -> (r: Option<usize>)
    ensures
        match r {
            Some(i) => i < catalog@.len() && entry_for(catalog@, id@) == Some(catalog@[i as int]),
            None => entry_for(catalog@, id@) is None,
        },
{
    let mut i = catalog.len();
    assert(catalog@.take(i as int) =~= catalog@);
    while i > 0
        invariant
            i <= catalog.len(),
            entry_for(catalog@, id@) == entry_for(catalog@.take(i as int), id@),
        decreases i,
    {
        assert(catalog@.take(i as int).drop_last() =~= catalog@.take(i - 1));
        assert(catalog@.take(i as int).last() == catalog@[i - 1]);
        if str_eq(catalog[i - 1].provider_id.as_str(), id) {
            return Some(i - 1);
        }
        i = i - 1;
    }
    None
}

fn find_level(levels: &Vec<(ModelLevel, ProviderLevelTarget)>, level: ModelLevel) -> (r: Option<usize>)
    ensures
        match r {
            Some(i) => i < levels@.len() && level_target(levels@, level) == Some(levels@[i as int].1),
            None => level_target(levels@, level) is None,
        },
{
    let mut i = levels.len();
    assert(levels@.take(i as int) =~= levels@);
    while i > 0
        invariant
            i <= levels.len(),
            level_target(levels@, level) == level_target(levels@.take(i as int), level),
        decreases i,
    {
        assert(levels@.take(i as int).drop_last() =~= levels@.take(i - 1));
        assert(levels@.take(i as int).last() == levels@[i - 1]);
        if levels[i - 1].0 == level {
            return Some(i - 1);
        }
        i = i - 1;
    }
    None
}

/// Looks up a variable in an environment snapshot.
pub fn lookup_env(env: &[(String, String)], name: &str) -> (r: Option<String>)
    ensures
        ov(r) == env_value(env@, name@),
{
    let mut i = env.len();
    assert(env@.take(i as int) =~= env@);
    while i > 0
        invariant
            i <= env.len(),
            env_value(env@, name@) == env_value(env@.take(i as int), name@),
        decreases i,
    {
        assert(env@.take(i as int).drop_last() =~= env@.take(i - 1));
        assert(env@.take(i as int).last() == env@[i - 1]);
        if str_eq(env[i - 1].0.as_str(), name) {
            return Some(env[i - 1].1.clone());
        }
        i = i - 1;
    }
    None
}

fn first_set<'a>(a: &'a Option<String>, b: &'a Option<String>, c: &'a Option<String>) -> (r: Option<&'a String>)
    ensures
        match r {
            Some(s) => first_some(ov(*a), ov(*b), ov(*c)) == Some(s@),
            None => first_some(ov(*a), ov(*b), ov(*c)) is None,
        },
{
    if let Some(x) = a {
        Some(x)
    } else if let Some(x) = b {
        Some(x)
    } else if let Some(x) = c {
        Some(x)
    } else {
        None
    }
}

/// The API key of a provider, or the variable that should have held it.
pub fn resolve_api_key(
    config: &ProviderBasicConfig,
    entry: &ProviderCatalogEntry,
    target: &ProviderLevelTarget,
    env: &[(String, String)],
) -> (r: Result<Option<String>, Option<String>>)
    ensures
        match (r, api_key_for(*config, *entry, *target, env@)) {
            (Ok(k), Ok(v)) => ov(k) == v,
            (Err(k), Err(v)) => ov(k) == v,
            _ => false,
        },
{
    if let Some(api_key) = &config.api_key {
        return Ok(Some(api_key.clone()));
    }
    let var = first_set(&config.api_key_env, &target.api_key_env_override, &entry.default_api_key_env);
    let api_key = match var {
        Some(name) => lookup_env(env, name.as_str()),
        None => None,
    };
    if entry.credentials_required && api_key.is_none() {
        return Err(
            match var {
                Some(v) => Some(v.clone()),
                None => None,
            },
        );
    }
    Ok(api_key)
}

fn candidate_list(intent: &ModelLevelIntent, configs: &[ProviderBasicConfig]) -> (r: Vec<String>)
    ensures
        r@.map_values(|s: String| s@) == candidates(*intent, configs@),
{
    let mut out: Vec<String> = Vec::new();
    match &intent.provider_hint {
        Some(h) => {
            out.push(h.clone());
            assert(out@.map_values(|s: String| s@) =~= seq![h@]);
        },
        None => {
            let mut i: usize = 0;
            while i < configs.len()
                invariant
                    i <= configs.len(),
                    out.len() == i,
                    forall|k: int| 0 <= k < i ==> #[trigger] out@[k]@ == configs@[k].provider_id@,
                decreases configs.len() - i,
            {
                out.push(configs[i].provider_id.clone());
                i = i + 1;
            }
            assert(out@.map_values(|s: String| s@) =~= configs@.map_values(|c: ProviderBasicConfig| c.provider_id@));
        },
    }
    out
}

/// Resolves a model level against the provider configurations, a catalog
/// and a snapshot of the environment: see [`resolution`]. On success the
/// diagnostics record the intent, the candidates and the choice.
pub fn resolve_model_level_selection_with_catalog(
    intent: &ModelLevelIntent,
    provider_configs: &[ProviderBasicConfig],
    catalog: &[ProviderCatalogEntry],
    env: &[(String, String)],
) -> (r: Result<ResolvedProviderSelection, ModelLevelResolutionError>)
    ensures
        outcome_view(r) == resolution(*intent, provider_configs@, catalog@, env@),
        r matches Ok(sel) ==> {
            &&& sel.requested_level == intent.level
            &&& sel.diagnostics.feature_tag@ == intent.feature_tag@
            &&& sel.diagnostics.requested_level == intent.level
            &&& ov(sel.diagnostics.provider_hint) == ov(intent.provider_hint)
            &&& sel.diagnostics.candidate_providers@.map_values(|s: String| s@) == candidates(*intent, provider_configs@)
            &&& sel.diagnostics.chosen_provider@ == sel.provider_id@
            &&& sel.diagnostics.chosen_model@ == init_view(sel.init_spec).1
        },
{
    let cands = candidate_list(intent, provider_configs);
    let ghost cv = cands@.map_values(|s: String| s@);
    let hinted = intent.provider_hint.is_some();
    let mut i: usize = 0;
    while i < cands.len()
        invariant
            i <= cands.len(),
            cv == cands@.map_values(|s: String| s@),
            cv == candidates(*intent, provider_configs@),
            hinted == (intent.provider_hint is Some),
            resolution(*intent, provider_configs@, catalog@, env@) == resolve_from(*intent, provider_configs@, catalog@, env@, cv, i as int),
        decreases cands.len() - i,
    {
        let id = cands[i].as_str();
        assert(cv[i as int] == id@);
        let ci = match find_config(provider_configs, id) {
            Some(ci) => ci,
            None => {
                if hinted {
                    return Err(ModelLevelResolutionError::ProviderNotConfigured { provider_id: cands[i].clone() });
                }
                i = i + 1;
                continue;
            },
        };
        let config = &provider_configs[ci];
        if !config.enabled {
            if hinted {
                return Err(ModelLevelResolutionError::ProviderDisabled { provider_id: cands[i].clone() });
            }
            i = i + 1;
            continue;
        }
        let ei = match find_entry(catalog, id) {
            Some(ei) => ei,
            None => {
                if hinted {
                    return Err(ModelLevelResolutionError::ProviderUnknown { provider_id: cands[i].clone() });
                }
                i = i + 1;
                continue;
            },
        };
        let entry = &catalog[ei];
        let li = match find_level(&entry.levels, intent.level) {
            Some(li) => li,
            None => {
                if hinted {
                    return Err(ModelLevelResolutionError::UnsupportedLevel { provider_id: cands[i].clone(), level: intent.level });
                }
                i = i + 1;
                continue;
            },
        };
        let target = &entry.levels[li].1;
        let resolved_api_key = match resolve_api_key(config, entry, target, env) {
            Ok(k) => k,
            Err(env_var) => {
                return Err(ModelLevelResolutionError::CredentialsMissing { provider_id: cands[i].clone(), env_var });
            },
        };
        let base = first_set(&config.base_url, &target.base_url_override, &entry.default_base_url);
        let init_spec = match entry.surface {
            ProviderSurfaceKind::OpenAiCompatible => {
                let mut cfg = OpenAiCompatibleConfig::new(target.model.as_str());
                if let Some(b) = base {
                    cfg = cfg.with_base_url(b.as_str());
                }
                if let Some(k) = &resolved_api_key {
                    cfg = cfg.with_api_key(k.as_str());
                }
                ProviderInitSpec::OpenAiCompatible { config: cfg }
            },
            ProviderSurfaceKind::OpenRouter => {
                let mut cfg = OpenRouterConfig::new(target.model.as_str());
                if let Some(b) = base {
                    cfg = cfg.with_base_url(b.as_str());
                }
                if let Some(k) = &resolved_api_key {
                    cfg = cfg.with_api_key(k.as_str());
                }
                ProviderInitSpec::OpenRouter { config: cfg }
            },
        };
        let mut candidate_providers: Vec<String> = Vec::new();
        let mut j: usize = 0;
        while j < cands.len()
            invariant
                j <= cands.len(),
                candidate_providers.len() == j,
                forall|k: int| 0 <= k < j ==> #[trigger] candidate_providers@[k]@ == cands@[k]@,
            decreases cands.len() - j,
        {
            candidate_providers.push(cands[j].clone());
            j = j + 1;
        }
        assert(candidate_providers@.map_values(|s: String| s@) =~= cands@.map_values(|s: String| s@));
        return Ok(ResolvedProviderSelection {
            provider_id: cands[i].clone(),
            requested_level: intent.level,
            diagnostics: ModelLevelResolutionDiagnostics {
                feature_tag: intent.feature_tag.clone(),
                requested_level: intent.level,
                provider_hint: match &intent.provider_hint {
                    Some(h) => Some(h.clone()),
                    None => None,
                },
                candidate_providers,
                chosen_provider: cands[i].clone(),
                chosen_model: target.model.clone(),
            },
            init_spec,
        });
    }
    Err(ModelLevelResolutionError::NoProviderAvailable { level: intent.level })
}

/// Resolves a model level against the built-in catalog.
pub fn resolve_model_level_selection(
    intent: &ModelLevelIntent,
    provider_configs: &[ProviderBasicConfig],
    env: &[(String, String)],
) -> (r: Result<ResolvedProviderSelection, ModelLevelResolutionError>)
    ensures
        exists|catalog: Seq<ProviderCatalogEntry>|
            is_default_catalog(catalog) && outcome_view(r) == #[trigger] resolution(*intent, provider_configs@, catalog, env@),
{
    let catalog = default_model_level_catalog();
    resolve_model_level_selection_with_catalog(intent, provider_configs, catalog.as_slice(), env)
}


/// `b` is the base URL a selection of a provider carries: the one its
/// configuration sets; else the level's override; else the catalog's
/// default (with none of these, the surface's default).
pub open spec fn base_url_chosen(
    b: Seq<char>,
    config: ProviderBasicConfig,
    target: ProviderLevelTarget,
    entry: ProviderCatalogEntry,
) -> bool {
    match config.base_url {
        Some(u) => b == u@,
        None => match target.base_url_override {
            Some(o) => b == o@,
            None => match entry.default_base_url {
                Some(d) => b == d@,
                None => true,
            },
        },
    }
}

/// A selection names an enabled, configured provider that the catalog
/// knows with a target for the level; it carries that target's model, the
/// catalog's surface, the configured API key when one is configured, and
/// the base URL its configuration sets, else the level's override, else
/// the catalog's default.
pub open spec fn selection_follows_config(
    r: ResolutionView,
    intent: ModelLevelIntent,
    configs: Seq<ProviderBasicConfig>,
    catalog: Seq<ProviderCatalogEntry>,
) -> bool {
    r matches ResolutionView::Selected { provider_id, surface, model, base_url, api_key } ==> {
        &&& config_for(configs, provider_id) matches Some(c)
        &&& c.enabled
        &&& entry_for(catalog, provider_id) matches Some(en)
        &&& level_target(en.levels@, intent.level) matches Some(t)
        &&& base_url_chosen(base_url, c, t, en)
        &&& surface == en.surface
        &&& model == t.model@
        &&& (c.api_key matches Some(k) ==> api_key == Some(k@))
    }
}

proof fn lemma_resolve_from_base_url(
    intent: ModelLevelIntent,
    configs: Seq<ProviderBasicConfig>,
    catalog: Seq<ProviderCatalogEntry>,
    env: Seq<(String, String)>,
    cands: Seq<Seq<char>>,
    i: int,
)
    ensures
        selection_follows_config(resolve_from(intent, configs, catalog, env, cands, i), intent, configs, catalog),
    decreases cands.len() - i,
{
    if 0 <= i < cands.len() {
        lemma_resolve_from_base_url(intent, configs, catalog, env, cands, i + 1);
    }
}

/// The base URL of a selected provider is the one its configuration sets
/// when it sets one; otherwise the level's override, otherwise the
/// catalog's default.
pub proof fn law_configured_base_url_wins(
    intent: ModelLevelIntent,
    configs: Seq<ProviderBasicConfig>,
    catalog: Seq<ProviderCatalogEntry>,
    env: Seq<(String, String)>,
)
    ensures
        selection_follows_config(resolution(intent, configs, catalog, env), intent, configs, catalog),
        resolution(intent, configs, catalog, env) matches ResolutionView::Selected { provider_id, base_url, .. } ==> (
        config_for(configs, provider_id) matches Some(c) && (c.base_url matches Some(u) ==> base_url == u@)),
{
    lemma_resolve_from_base_url(intent, configs, catalog, env, candidates(intent, configs), 0);
}

} // verus!
