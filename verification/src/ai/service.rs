//! The AI service state: which provider is selected, its credentials, and the
//! decisions taken around provider requests.

use vstd::prelude::*;
use crate::text::{
    char_pos, find_char, last_char_pos, rfind_char,
    chars_of, ends_with_chars, has_prefix, has_suffix, push_char, starts_with_chars, str_equal,
    string_from_chars, trim, trim_chars, trim_end_char, trim_end_char_vec, trim_start, is_ws,
};
use crate::deep_video::types::opt_view;
use reqwest::Client;
use crate::ai::json::{json_get, json_str_field, json_text, parse_json, parse_view, parsed_json, JsonValue};

verus! {

/// Errors of provider requests. A network failure carries the text of the
/// transport error.
#[derive(Debug, Clone, PartialEq, Eq)]
pub enum AiError {
    ApiCallFailed(String),
    InvalidApiKey,
    ServiceUnavailable(String),
    ParseError(String),
    NetworkError(String),
}

/// An error with its texts taken as character sequences.
pub enum AiErrorView {
    ApiCallFailed(Seq<char>),
    InvalidApiKey,
    ServiceUnavailable(Seq<char>),
    ParseError(Seq<char>),
    NetworkError(Seq<char>),
}

impl View for AiError {
    type V = AiErrorView;

    open spec fn view(&self) -> AiErrorView {
        match self {
            AiError::ApiCallFailed(s) => AiErrorView::ApiCallFailed(s@),
            AiError::InvalidApiKey => AiErrorView::InvalidApiKey,
            AiError::ServiceUnavailable(s) => AiErrorView::ServiceUnavailable(s@),
            AiError::ParseError(s) => AiErrorView::ParseError(s@),
            AiError::NetworkError(s) => AiErrorView::NetworkError(s@),
        }
    }
}

/// `r` is `spec`, errors compared by their views.
pub open spec fn result_matches<T>(r: Result<T, AiError>, spec: Result<T, AiErrorView>) -> bool {
    match spec {
        Ok(x) => r == Ok::<T, AiError>(x),
        Err(v) => r is Err && r->Err_0@ == v,
    }
}

/// The message of an error.
pub open spec fn ai_error_message(e: AiError) -> Seq<char> {
    match e {
        AiError::ApiCallFailed(s) => "API 调用失败: "@ + s@,
        AiError::InvalidApiKey => "API Key 无效"@,
        AiError::ServiceUnavailable(s) => "服务不可用: "@ + s@,
        AiError::ParseError(s) => "响应解析失败: "@ + s@,
        AiError::NetworkError(s) => "网络错误: "@ + s@,
    }
}

impl AiError {
    /// The message of the error.
    pub fn message(&self) -> (r: String)
        ensures
            r@ == ai_error_message(*self),
    {
        let mut out = String::new();
        match self {
            AiError::ApiCallFailed(s) => {
                out.append("API 调用失败: ");
                out.append(s.as_str());
            },
            AiError::InvalidApiKey => {
                out.append("API Key 无效");
            },
            AiError::ServiceUnavailable(s) => {
                out.append("服务不可用: ");
                out.append(s.as_str());
            },
            AiError::ParseError(s) => {
                out.append("响应解析失败: ");
                out.append(s.as_str());
            },
            AiError::NetworkError(s) => {
                out.append("网络错误: ");
                out.append(s.as_str());
            },
        }
        out
    }
}

#[derive(Debug, Clone, PartialEq)]
pub struct AnalysisResult {
    pub hook: Option<HookAnalysis>,
    pub buildup: Vec<BuildupSection>,
    pub climax: Option<ClimaxAnalysis>,
    pub ending: Option<EndingAnalysis>,
    pub references: Vec<KnowledgeReference>,
}

#[derive(Debug, Clone, PartialEq)]
pub struct HookAnalysis {
    pub text: String,
    pub technique: String,
    pub effectiveness: String,
}

#[derive(Debug, Clone, PartialEq)]
pub struct BuildupSection {
    pub text: String,
    pub purpose: String,
}

#[derive(Debug, Clone, PartialEq)]
pub struct ClimaxAnalysis {
    pub text: String,
    pub technique: String,
}

#[derive(Debug, Clone, PartialEq)]
pub struct EndingAnalysis {
    pub text: String,
    pub call_to_action: String,
}

#[derive(Debug, Clone, PartialEq)]
pub struct KnowledgeReference {
    pub document_id: String,
    pub document_name: String,
    pub snippet: String,
}

/// One chat message.
#[derive(Debug, Clone, PartialEq)]
pub struct ChatMessage {
    pub role: String,
    pub content: String,
}

/// A user-configured OpenAI-compatible endpoint.
#[derive(Debug, Clone, PartialEq, Eq)]
pub struct CustomApiProviderConfig {
    pub id: String,
    pub name: String,
    pub base_url: String,
    pub model: String,
    pub api_key: Option<String>,
}

fn clone_opt(o: &Option<String>) -> (r: Option<String>)
    ensures
        r == *o,
{
    match o {
        Some(s) => Some(s.clone()),
        None => None,
    }
}

impl CustomApiProviderConfig {
    /// A copy of the configuration.
    pub fn duplicate(&self) -> (r: Self)
        ensures
            r == *self,
    {
        CustomApiProviderConfig {
            id: self.id.clone(),
            name: self.name.clone(),
            base_url: self.base_url.clone(),
            model: self.model.clone(),
            api_key: clone_opt(&self.api_key),
        }
    }
}

/// The selectable providers.
#[derive(Debug, Clone, Copy, PartialEq, Eq)]
pub enum AiProviderType {
    Doubao,
    OpenAi,
    DeepSeek,
    LmStudio,
    Custom,
}

/// The selected provider, its credentials and the custom endpoints.
#[derive(Debug, Clone)]
pub struct AiService {
    pub provider_type: AiProviderType,
    pub selected_custom_api_id: Option<String>,
    pub doubao_api_key: Option<String>,
    pub openai_api_key: Option<String>,
    pub deepseek_api_key: Option<String>,
    pub lm_studio_url: String,
    pub custom_api_providers: Vec<CustomApiProviderConfig>,
}

/// The default state: LM Studio at `http://localhost:1234`, nothing else configured.
pub open spec fn is_default_service(s: AiService) -> bool {
    &&& s.provider_type == AiProviderType::LmStudio
    &&& s.selected_custom_api_id is None
    &&& s.doubao_api_key is None
    &&& s.openai_api_key is None
    &&& s.deepseek_api_key is None
    &&& s.lm_studio_url@ == "http://localhost:1234"@
    &&& s.custom_api_providers@.len() == 0
}

impl Default for AiService {
    fn default() -> (r: Self)
        ensures
            is_default_service(r),
    {
        let mut url = String::new();
        url.append("http://localhost:1234");
        AiService {
            provider_type: AiProviderType::LmStudio,
            selected_custom_api_id: None,
            doubao_api_key: None,
            openai_api_key: None,
            deepseek_api_key: None,
            lm_studio_url: url,
            custom_api_providers: Vec::new(),
        }
    }
}

/// The provider and selected custom endpoint after selecting by the key `k`:
/// `custom:<id>` selects the custom endpoint `<id>`; the keys `doubao`,
/// `openai`, `deepseek` and `custom` select that provider (keeping the selected
/// endpoint); any other key selects LM Studio.
pub open spec fn select_by_key(
    provider: AiProviderType,
    selected: Option<Seq<char>>,
    k: Seq<char>,
) -> (AiProviderType, Option<Seq<char>>) {
    if has_prefix(k, "custom:"@) {
        (AiProviderType::Custom, Some(k.skip(7)))
    } else if k == "doubao"@ {
        (AiProviderType::Doubao, selected)
    } else if k == "openai"@ {
        (AiProviderType::OpenAi, selected)
    } else if k == "deepseek"@ {
        (AiProviderType::DeepSeek, selected)
    } else if k == "custom"@ {
        (AiProviderType::Custom, selected)
    } else {
        (AiProviderType::LmStudio, selected)
    }
}

/// The key of the selected provider: `custom:<id>` for a selected custom endpoint.
pub open spec fn provider_key_spec(provider: AiProviderType, selected: Option<Seq<char>>) -> Seq<char> {
    match provider {
        AiProviderType::Doubao => "doubao"@,
        AiProviderType::OpenAi => "openai"@,
        AiProviderType::DeepSeek => "deepseek"@,
        AiProviderType::LmStudio => "lmstudio"@,
        AiProviderType::Custom => match selected {
            Some(id) => "custom:"@ + id,
            None => "custom"@,
        },
    }
}

/// The index of the first endpoint with the given id, or -1.
pub open spec fn config_index(configs: Seq<CustomApiProviderConfig>, id: Seq<char>) -> int
    decreases configs.len(),
{
    if configs.len() == 0 {
        -1
    } else {
        let i = config_index(configs.drop_last(), id);
        if i >= 0 {
            i
        } else if configs.last().id@ == id {
            configs.len() - 1
        } else {
            -1
        }
    }
}

/// The custom endpoint in use: the selected one, or the first one when none is
/// selected; unavailable when it is not configured.
pub open spec fn selected_config_spec(s: AiService) -> Result<CustomApiProviderConfig, AiErrorView> {
    match s.selected_custom_api_id {
        Some(id) => {
            let i = config_index(s.custom_api_providers@, id@);
            if i >= 0 {
                Ok(s.custom_api_providers@[i])
            } else {
                Err(AiErrorView::ServiceUnavailable(missing_selected_message()))
            }
        },
        None => if s.custom_api_providers@.len() > 0 {
            Ok(s.custom_api_providers@[0])
        } else {
            Err(AiErrorView::ServiceUnavailable(no_custom_message()))
        },
    }
}

/// The message when the selected custom endpoint is missing.
pub open spec fn missing_selected_message() -> Seq<char> {
    "自定义 API 未配置或已删除"@
}

/// The message when no custom endpoint is configured.
pub open spec fn no_custom_message() -> Seq<char> {
    "自定义 API 未配置"@
}

/// Where a request goes, with the credentials it needs.
#[derive(Debug, Clone, PartialEq)]
pub enum ProviderRoute {
    Doubao { api_key: String },
    OpenAi { api_key: String },
    DeepSeek { api_key: String },
    LmStudio { base_url: String },
    Custom { config: CustomApiProviderConfig },
}

/// Where requests of the service go: the selected provider with its key, or
/// `InvalidApiKey` when that key is missing; LM Studio at its URL; the custom
/// endpoint in use.
pub open spec fn route_spec(s: AiService) -> Result<ProviderRoute, AiErrorView> {
    match s.provider_type {
        AiProviderType::Doubao => match s.doubao_api_key {
            Some(k) => Ok(ProviderRoute::Doubao { api_key: k }),
            None => Err(AiErrorView::InvalidApiKey),
        },
        AiProviderType::OpenAi => match s.openai_api_key {
            Some(k) => Ok(ProviderRoute::OpenAi { api_key: k }),
            None => Err(AiErrorView::InvalidApiKey),
        },
        AiProviderType::DeepSeek => match s.deepseek_api_key {
            Some(k) => Ok(ProviderRoute::DeepSeek { api_key: k }),
            None => Err(AiErrorView::InvalidApiKey),
        },
        AiProviderType::LmStudio => Ok(ProviderRoute::LmStudio { base_url: s.lm_studio_url }),
        AiProviderType::Custom => match selected_config_spec(s) {
            Ok(c) => Ok(ProviderRoute::Custom { config: c }),
            Err(e) => Err(e),
        },
    }
}

/// The other settings are untouched.
pub open spec fn same_except_selection(a: AiService, b: AiService) -> bool {
    &&& a.doubao_api_key == b.doubao_api_key
    &&& a.openai_api_key == b.openai_api_key
    &&& a.deepseek_api_key == b.deepseek_api_key
    &&& a.lm_studio_url == b.lm_studio_url
    &&& a.custom_api_providers == b.custom_api_providers
}

impl AiService {
    /// The default service (see `is_default_service`).
    pub fn new() -> (r: Self)
        ensures
            is_default_service(r),
    {
        Self::default()
    }

    /// Selects a provider.
    pub fn set_provider(&mut self, provider_type: AiProviderType)
        ensures
            final(self).provider_type == provider_type,
            final(self).selected_custom_api_id == old(self).selected_custom_api_id,
            same_except_selection(*final(self), *old(self)),
    {
        self.provider_type = provider_type;
    }

    /// Selects a provider by its key (see `select_by_key`).
    pub fn set_provider_from_key(&mut self, provider_key: String)
        ensures
            (final(self).provider_type, opt_view(final(self).selected_custom_api_id)) == select_by_key(
                old(self).provider_type,
                opt_view(old(self).selected_custom_api_id),
                provider_key@,
            ),
            same_except_selection(*final(self), *old(self)),
    {
        let k = chars_of(provider_key.as_str());
        let prefix = chars_of("custom:");
        proof {
            reveal_strlit("custom:");
        }
        if starts_with_chars(&k, &prefix) {
            let mut id: Vec<char> = Vec::new();
            let mut i: usize = 7;
            while i < k.len()
                invariant
                    7 <= i <= k.len(),
                    id@ == k@.subrange(7, i as int),
                decreases k.len() - i,
            {
                id.push(k[i]);
                i = i + 1;
                assert(id@ =~= k@.subrange(7, i as int));
            }
            assert(id@ =~= k@.skip(7));
            self.provider_type = AiProviderType::Custom;
            self.selected_custom_api_id = Some(string_from_chars(&id));
            return;
        }
        let key = provider_key.as_str();
        self.provider_type = if str_equal(key, "doubao") {
            AiProviderType::Doubao
        } else if str_equal(key, "openai") {
            AiProviderType::OpenAi
        } else if str_equal(key, "deepseek") {
            AiProviderType::DeepSeek
        } else if str_equal(key, "custom") {
            AiProviderType::Custom
        } else {
            AiProviderType::LmStudio
        };
    }

    /// The key of the selected provider (see `provider_key_spec`).
    pub fn provider_key(&self) -> (r: String)
        ensures
            r@ == provider_key_spec(self.provider_type, opt_view(self.selected_custom_api_id)),
    {
        let mut out = String::new();
        match self.provider_type {
            AiProviderType::Doubao => out.append("doubao"),
            AiProviderType::OpenAi => out.append("openai"),
            AiProviderType::DeepSeek => out.append("deepseek"),
            AiProviderType::LmStudio => out.append("lmstudio"),
            AiProviderType::Custom => match &self.selected_custom_api_id {
                Some(id) => {
                    out.append("custom:");
                    out.append(id.as_str());
                },
                None => out.append("custom"),
            },
        }
        out
    }

    /// Replaces the custom endpoints.
    pub fn set_custom_api_providers(&mut self, providers: Vec<CustomApiProviderConfig>)
        ensures
            final(self).custom_api_providers == providers,
            final(self).provider_type == old(self).provider_type,
            final(self).selected_custom_api_id == old(self).selected_custom_api_id,
            final(self).doubao_api_key == old(self).doubao_api_key,
            final(self).openai_api_key == old(self).openai_api_key,
            final(self).deepseek_api_key == old(self).deepseek_api_key,
            final(self).lm_studio_url == old(self).lm_studio_url,
    {
        self.custom_api_providers = providers;
    }

    /// The custom endpoint in use: the selected one (an error when it is not
    /// configured), or the first one when none is selected (an error when there
    /// is none).
    pub fn selected_custom_api_provider(&self) -> (r: Result<CustomApiProviderConfig, AiError>)
        ensures
            result_matches(r, selected_config_spec(*self)),
    {
        let providers = &self.custom_api_providers;
        match &self.selected_custom_api_id {
            Some(selected_id) => {
                let ghost id = selected_id@;
                let mut i: usize = 0;
                while i < providers.len()
                    invariant
                        i <= providers.len(),
                        id == selected_id@,
                        self.selected_custom_api_id == Some(*selected_id),
                        providers@ == self.custom_api_providers@,
                        config_index(providers@.take(i as int), id) == -1,
                    decreases providers.len() - i,
                {
                    proof {
                        let t = providers@.take(i + 1);
                        assert(t.drop_last() =~= providers@.take(i as int));
                    }
                    if str_equal(providers[i].id.as_str(), selected_id.as_str()) {
                        proof {
                            lemma_config_index_prefix(providers@, id, i + 1);
                        }
                        return Ok(providers[i].duplicate());
                    }
                    i = i + 1;
                }
                assert(providers@.take(i as int) =~= providers@);
                let mut msg = String::new();
                msg.append("自定义 API 未配置或已删除");
                Err(AiError::ServiceUnavailable(msg))
            },
            None => {
                if providers.len() > 0 {
                    Ok(providers[0].duplicate())
                } else {
                    let mut msg = String::new();
                    msg.append("自定义 API 未配置");
                    Err(AiError::ServiceUnavailable(msg))
                }
            },
        }
    }

    /// Sets the Doubao key.
    pub fn set_doubao_key(&mut self, api_key: String)
        ensures
            final(self).doubao_api_key == Some(api_key),
            final(self).provider_type == old(self).provider_type,
            final(self).selected_custom_api_id == old(self).selected_custom_api_id,
            final(self).openai_api_key == old(self).openai_api_key,
            final(self).deepseek_api_key == old(self).deepseek_api_key,
            final(self).lm_studio_url == old(self).lm_studio_url,
            final(self).custom_api_providers == old(self).custom_api_providers,
    {
        self.doubao_api_key = Some(api_key);
    }

    /// Sets the OpenAI key.
    pub fn set_openai_key(&mut self, api_key: String)
        ensures
            final(self).openai_api_key == Some(api_key),
            final(self).provider_type == old(self).provider_type,
            final(self).selected_custom_api_id == old(self).selected_custom_api_id,
            final(self).doubao_api_key == old(self).doubao_api_key,
            final(self).deepseek_api_key == old(self).deepseek_api_key,
            final(self).lm_studio_url == old(self).lm_studio_url,
            final(self).custom_api_providers == old(self).custom_api_providers,
    {
        self.openai_api_key = Some(api_key);
    }

    /// Sets the DeepSeek key.
    pub fn set_deepseek_key(&mut self, api_key: String)
        ensures
            final(self).deepseek_api_key == Some(api_key),
            final(self).provider_type == old(self).provider_type,
            final(self).selected_custom_api_id == old(self).selected_custom_api_id,
            final(self).doubao_api_key == old(self).doubao_api_key,
            final(self).openai_api_key == old(self).openai_api_key,
            final(self).lm_studio_url == old(self).lm_studio_url,
            final(self).custom_api_providers == old(self).custom_api_providers,
    {
        self.deepseek_api_key = Some(api_key);
    }

    /// Sets the LM Studio URL.
    pub fn set_lm_studio_url(&mut self, url: String)
        ensures
            final(self).lm_studio_url == url,
            final(self).provider_type == old(self).provider_type,
            final(self).selected_custom_api_id == old(self).selected_custom_api_id,
            final(self).doubao_api_key == old(self).doubao_api_key,
            final(self).openai_api_key == old(self).openai_api_key,
            final(self).deepseek_api_key == old(self).deepseek_api_key,
            final(self).custom_api_providers == old(self).custom_api_providers,
    {
        self.lm_studio_url = url;
    }

    /// Where requests go (see `route_spec`).
    pub fn provider_route(&self) -> (r: Result<ProviderRoute, AiError>)
        ensures
            result_matches(r, route_spec(*self)),
    {
        match self.provider_type {
            AiProviderType::Doubao => match &self.doubao_api_key {
                Some(k) => Ok(ProviderRoute::Doubao { api_key: k.clone() }),
                None => Err(AiError::InvalidApiKey),
            },
            AiProviderType::OpenAi => match &self.openai_api_key {
                Some(k) => Ok(ProviderRoute::OpenAi { api_key: k.clone() }),
                None => Err(AiError::InvalidApiKey),
            },
            AiProviderType::DeepSeek => match &self.deepseek_api_key {
                Some(k) => Ok(ProviderRoute::DeepSeek { api_key: k.clone() }),
                None => Err(AiError::InvalidApiKey),
            },
            AiProviderType::LmStudio => Ok(
                ProviderRoute::LmStudio { base_url: self.lm_studio_url.clone() },
            ),
            AiProviderType::Custom => match self.selected_custom_api_provider() {
                Ok(c) => Ok(ProviderRoute::Custom { config: c }),
                Err(e) => Err(e),
            },
        }
    }

}

/// `config_index` finds the first endpoint with the id, or reports that none has it.
proof fn lemma_config_index(configs: Seq<CustomApiProviderConfig>, id: Seq<char>)
    ensures
        -1 <= config_index(configs, id) < configs.len(),
        config_index(configs, id) >= 0 ==> configs[config_index(configs, id)].id@ == id,
        forall|j: int|
            0 <= j < configs.len() && (config_index(configs, id) < 0 || j < config_index(configs, id))
                ==> #[trigger] configs[j].id@ != id,
    decreases configs.len(),
{
    if configs.len() > 0 {
        let d = configs.drop_last();
        lemma_config_index(d, id);
        assert forall|j: int|
            0 <= j < configs.len() && (config_index(configs, id) < 0 || j < config_index(configs, id))
                implies #[trigger] configs[j].id@ != id by {
            if j < configs.len() - 1 {
                assert(configs[j] == d[j]);
            }
        }
        if config_index(d, id) >= 0 {
            assert(configs[config_index(d, id)] == d[config_index(d, id)]);
        }
    }
}

/// With a custom endpoint id selected, the endpoint in use is the first
/// configured endpoint with exactly that id; when no configured endpoint has
/// the id, no endpoint is used and the service reports it as unavailable.
pub proof fn law_selected_endpoint_has_selected_id(s: AiService)
    requires
        s.selected_custom_api_id is Some,
    ensures
        ({
            let id = s.selected_custom_api_id->0@;
            let configs = s.custom_api_providers@;
            &&& (exists|k: int| 0 <= k < configs.len() && #[trigger] configs[k].id@ == id) ==> {
                &&& selected_config_spec(s) is Ok
                &&& selected_config_spec(s)->Ok_0.id@ == id
                &&& exists|m: int|
                    0 <= m < configs.len() && configs[m] == selected_config_spec(s)->Ok_0 && forall|j: int|
                        0 <= j < m ==> #[trigger] configs[j].id@ != id
            }
            &&& (forall|k: int| 0 <= k < configs.len() ==> #[trigger] configs[k].id@ != id)
                ==> selected_config_spec(s) is Err
        }),
{
    let id = s.selected_custom_api_id->0@;
    let configs = s.custom_api_providers@;
    lemma_config_index(configs, id);
    let i = config_index(configs, id);
    if exists|k: int| 0 <= k < configs.len() && #[trigger] configs[k].id@ == id {
        let k = choose|k: int| 0 <= k < configs.len() && #[trigger] configs[k].id@ == id;
        assert(i >= 0) by {
            if i < 0 {
                assert(configs[k].id@ != id);
            }
        }
        assert(0 <= i < configs.len() && configs[i] == selected_config_spec(s)->Ok_0);
    }
    if forall|k: int| 0 <= k < configs.len() ==> #[trigger] configs[k].id@ != id {
        if i >= 0 {
            assert(configs[i].id@ != id);
        }
    }
}

/// With the custom provider chosen and a configured endpoint id selected,
/// requests go to an endpoint with that id.
pub proof fn law_custom_route_uses_selected_id(s: AiService, k: int)
    requires
        s.provider_type == AiProviderType::Custom,
        s.selected_custom_api_id is Some,
        0 <= k < s.custom_api_providers@.len(),
        s.custom_api_providers@[k].id@ == s.selected_custom_api_id->0@,
    ensures
        route_spec(s) is Ok,
        route_spec(s)->Ok_0 matches ProviderRoute::Custom { config } && config.id@ == s.selected_custom_api_id->0@,
{
    law_selected_endpoint_has_selected_id(s);
    assert(s.custom_api_providers@[k].id@ == s.selected_custom_api_id->0@);
}

proof fn lemma_config_index_prefix(configs: Seq<CustomApiProviderConfig>, id: Seq<char>, n: int)
    requires
        1 <= n <= configs.len(),
        config_index(configs.take(n - 1), id) == -1,
        configs[n - 1].id@ == id,
    ensures
        config_index(configs, id) == n - 1,
    decreases configs.len() - n,
{
    let t = configs.take(n);
    assert(t.drop_last() =~= configs.take(n - 1));
    assert(t.last() == configs[n - 1]);
    if n < configs.len() {
        lemma_config_index_grow(configs, id, n);
    } else {
        assert(t =~= configs);
    }
}

proof fn lemma_config_index_grow(configs: Seq<CustomApiProviderConfig>, id: Seq<char>, n: int)
    requires
        1 <= n <= configs.len(),
        config_index(configs.take(n), id) >= 0,
    ensures
        config_index(configs, id) == config_index(configs.take(n), id),
    decreases configs.len() - n,
{
    if n < configs.len() {
        let t = configs.take(n + 1);
        assert(t.drop_last() =~= configs.take(n));
        lemma_config_index_grow(configs, id, n + 1);
    } else {
        assert(configs.take(n) =~= configs);
    }
}

/// The instruction placed before the text to analyse.
pub const ANALYSIS_PROMPT: &'static str = r#"你是一个专业的短视频内容分析师。请分析以下视频文案，识别其结构和技巧。

请按以下 JSON 格式返回分析结果：
{
  "hook": {
    "text": "开头钩子的原文",
    "technique": "使用的技巧（如：悬念、痛点、好奇心等）",
    "effectiveness": "效果评价"
  },
  "buildup": [
    {
      "text": "铺垫内容",
      "purpose": "铺垫目的"
    }
  ],
  "climax": {
    "text": "高潮/包袱内容",
    "technique": "使用的技巧"
  },
  "ending": {
    "text": "结尾内容",
    "call_to_action": "引导行为（如：关注、点赞等）"
  }
}

如果某个部分不存在，可以设为 null。

视频文案：
"#;

/// The analysis prompt: the instruction, the text, and the reference knowledge.
pub open spec fn analysis_prompt_spec(content: Seq<char>, context: Seq<char>) -> Seq<char> {
    ANALYSIS_PROMPT@ + content + "\n\n参考知识：\n"@ + context
}

/// The analysis prompt for a text and its reference knowledge.
pub fn analysis_prompt(content: &str, context: &str) -> (r: String)
    ensures
        r@ == analysis_prompt_spec(content@, context@),
{
    let mut out = String::new();
    out.append(ANALYSIS_PROMPT);
    out.append(content);
    out.append("\n\n参考知识：\n");
    out.append(context);
    out
}

/// The text from the first `{` to the last `}` when both occur, else the whole text.
pub open spec fn extract_json_spec(s: Seq<char>) -> Seq<char> {
    let a = char_pos(s, '{');
    let b = last_char_pos(s, '}');
    if a >= 0 && b >= 0 {
        s.subrange(a, b + 1)
    } else {
        s
    }
}

/// The last `}` does not stand before the first `{` by more than one place:
/// otherwise the byte range from one to the other is reversed and slicing it panics.
/// (With the `}` right before the `{` the range is empty.)
pub open spec fn braces_in_order(s: Seq<char>) -> bool {
    char_pos(s, '{') >= 0 && last_char_pos(s, '}') >= 0 ==> char_pos(s, '{') <= last_char_pos(s, '}') + 1
}

/// The JSON object inside a model reply (see `extract_json_spec`).
pub fn extract_json(content: &str) -> (r: String)
    requires
        braces_in_order(content@),
    ensures
        r@ == extract_json_spec(content@),
{
    let cs = chars_of(content);
    if let Some(start) = find_char(&cs, '{') {
        if let Some(end) = rfind_char(&cs, '}') {
            proof {
                crate::text::lemma_last_char_pos(cs@, '}');
            }
            let mut out = String::new();
            let mut i = start;
            while i <= end
                invariant
                    start <= i <= end + 1,
                    end < cs.len(),
                    out@ == cs@.subrange(start as int, i as int),
                decreases end + 1 - i,
            {
                push_char(&mut out, cs[i]);
                i = i + 1;
                assert(out@ =~= cs@.subrange(start as int, i as int));
            }
            return out;
        }
    }
    let mut out = String::new();
    out.append(content);
    out
}

/// A provider whose requests go to a custom OpenAI-compatible endpoint.
/// A member of an object that is present and not `null`.
pub open spec fn present(v: Option<JsonValue>) -> Option<JsonValue> {
    match v {
        Some(JsonValue::Null) => None,
        other => other,
    }
}

/// The hook of a parsed reply: its text, technique and effectiveness.
pub open spec fn hook_spec(p: JsonValue) -> Option<(Seq<char>, Seq<char>, Seq<char>)> {
    match present(json_get(p, "hook"@)) {
        Some(h) => Some((json_text(h, "text"@), json_text(h, "technique"@), json_text(h, "effectiveness"@))),
        None => None,
    }
}

/// The climax of a parsed reply: its text and technique.
pub open spec fn climax_spec(p: JsonValue) -> Option<(Seq<char>, Seq<char>)> {
    match present(json_get(p, "climax"@)) {
        Some(c) => Some((json_text(c, "text"@), json_text(c, "technique"@))),
        None => None,
    }
}

/// The ending of a parsed reply: its text and call to action.
pub open spec fn ending_spec(p: JsonValue) -> Option<(Seq<char>, Seq<char>)> {
    match present(json_get(p, "ending"@)) {
        Some(e) => Some((json_text(e, "text"@), json_text(e, "call_to_action"@))),
        None => None,
    }
}

/// The sections of the buildup items that have a text, in order, each with
/// its purpose (empty when missing).
pub open spec fn sections_of(items: Seq<JsonValue>) -> Seq<(Seq<char>, Seq<char>)>
    decreases items.len(),
{
    if items.len() == 0 {
        seq![]
    } else {
        let rest = sections_of(items.drop_last());
        match json_str_field(items.last(), "text"@) {
            Some(t) => rest.push((t, json_text(items.last(), "purpose"@))),
            None => rest,
        }
    }
}

/// The buildup of a parsed reply: the sections of its `buildup` array.
pub open spec fn buildup_spec(p: JsonValue) -> Seq<(Seq<char>, Seq<char>)> {
    match json_get(p, "buildup"@) {
        Some(JsonValue::Array(items)) => sections_of(items@),
        _ => seq![],
    }
}

/// The hook of a result, taken as texts.
pub open spec fn hook_view(h: Option<HookAnalysis>) -> Option<(Seq<char>, Seq<char>, Seq<char>)> {
    match h {
        Some(h) => Some((h.text@, h.technique@, h.effectiveness@)),
        None => None,
    }
}

/// The climax of a result, taken as texts.
pub open spec fn climax_view(c: Option<ClimaxAnalysis>) -> Option<(Seq<char>, Seq<char>)> {
    match c {
        Some(c) => Some((c.text@, c.technique@)),
        None => None,
    }
}

/// The ending of a result, taken as texts.
pub open spec fn ending_view(e: Option<EndingAnalysis>) -> Option<(Seq<char>, Seq<char>)> {
    match e {
        Some(e) => Some((e.text@, e.call_to_action@)),
        None => None,
    }
}

/// The buildup of a result, taken as texts.
pub open spec fn buildup_view(b: Seq<BuildupSection>) -> Seq<(Seq<char>, Seq<char>)> {
    b.map_values(|s: BuildupSection| (s.text@, s.purpose@))
}

/// `r` is the analysis read from the parsed reply `p`.
pub open spec fn analysis_of(r: AnalysisResult, p: JsonValue) -> bool {
    &&& hook_view(r.hook) == hook_spec(p)
    &&& buildup_view(r.buildup@) == buildup_spec(p)
    &&& climax_view(r.climax) == climax_spec(p)
    &&& ending_view(r.ending) == ending_spec(p)
    &&& r.references@.len() == 0
}

fn present_member<'a>(v: &'a JsonValue, key: &str) -> (r: Option<&'a JsonValue>)
    ensures
        match r {
            Some(x) => present(json_get(*v, key@)) == Some(*x),
            None => present(json_get(*v, key@)) is None,
        },
{
    match v.get(key) {
        Some(JsonValue::Null) => None,
        other => other,
    }
}

/// The analysis read from a parsed reply: the hook, climax and ending when
/// present and not null, with their string members (empty when missing), and
/// the buildup items that have a text.
pub fn analysis_from_json(parsed: &JsonValue) -> (r: AnalysisResult)
    ensures
        analysis_of(r, *parsed),
{
    let hook = match present_member(parsed, "hook") {
        Some(h) => Some(HookAnalysis {
            text: h.text_field("text"),
            technique: h.text_field("technique"),
            effectiveness: h.text_field("effectiveness"),
        }),
        None => None,
    };
    let mut buildup: Vec<BuildupSection> = Vec::new();
    if let Some(JsonValue::Array(items)) = parsed.get("buildup") {
        let mut i: usize = 0;
        while i < items.len()
            invariant
                i <= items@.len(),
                buildup_view(buildup@) == sections_of(items@.take(i as int)),
            decreases items.len() - i,
        {
            let item = &items[i];
            proof {
                let t = items@.take(i + 1);
                assert(t.drop_last() =~= items@.take(i as int));
                assert(t.last() == *item);
            }
            match item.get("text") {
                Some(JsonValue::Str(t)) => {
                    buildup.push(BuildupSection { text: t.clone(), purpose: item.text_field("purpose") });
                    assert(buildup_view(buildup@) =~= sections_of(items@.take(i + 1)));
                },
                _ => {},
            }
            i = i + 1;
        }
        assert(items@.take(i as int) =~= items@);
    }
    let climax = match present_member(parsed, "climax") {
        Some(c) => Some(ClimaxAnalysis { text: c.text_field("text"), technique: c.text_field("technique") }),
        None => None,
    };
    let ending = match present_member(parsed, "ending") {
        Some(e) => Some(EndingAnalysis {
            text: e.text_field("text"),
            call_to_action: e.text_field("call_to_action"),
        }),
        None => None,
    };
    let r = AnalysisResult { hook, buildup, climax, ending, references: Vec::new() };
    assert(hook_view(r.hook) == hook_spec(*parsed));
    assert(buildup_view(r.buildup@) == buildup_spec(*parsed));
    assert(climax_view(r.climax) == climax_spec(*parsed));
    assert(ending_view(r.ending) == ending_spec(*parsed));
    r
}

/// Reads the analysis out of a model reply: the JSON between the first `{`
/// and the last `}` is parsed, and a parse failure is a `ParseError`.
pub fn parse_analysis_result(content: &str) -> (r: Result<AnalysisResult, AiError>)
    requires
        braces_in_order(content@),
    ensures
        match parsed_json(extract_json_spec(content@)) {
            Ok(p) => r is Ok && analysis_of(r->Ok_0, p),
            Err(e) => r is Err && r->Err_0@ == AiErrorView::ParseError("JSON 解析失败: "@ + e),
        },
{
    let json_str = extract_json(content);
    match parse_json(json_str.as_str()) {
        Ok(parsed) => Ok(analysis_from_json(&parsed)),
        Err(e) => {
            let mut msg = String::new();
            msg.append("JSON 解析失败: ");
            msg.append(e.as_str());
            Err(AiError::ParseError(msg))
        },
    }
}

/// A user-configured OpenAI-compatible endpoint, with the HTTP client that calls it.
pub struct CustomApiProvider {
    pub client: Client,
    pub config: CustomApiProviderConfig,
}

/// The chat completions URL of a base URL: trimmed, without trailing `/`, and
/// with `/chat/completions` appended unless it already ends with it.
pub open spec fn chat_url_spec(base_url: Seq<char>) -> Seq<char> {
    let b = trim_end_char(trim(base_url), '/');
    if has_suffix(b, "/chat/completions"@) {
        b
    } else {
        b + "/chat/completions"@
    }
}

/// The models URL: the chat completions URL with `/chat/completions` (and any
/// `/` before it) replaced by `/models`.
pub open spec fn models_url_spec(base_url: Seq<char>) -> Seq<char> {
    let c = chat_url_spec(base_url);
    if has_suffix(c, "/chat/completions"@) {
        trim_end_char(c.take(c.len() - "/chat/completions"@.len()), '/') + "/models"@
    } else {
        trim_end_char(c, '/') + "/models"@
    }
}

/// The `Authorization` header value: `Bearer <key>` for a key that is not blank once trimmed.
pub open spec fn authorization_spec(api_key: Option<Seq<char>>) -> Option<Seq<char>> {
    match api_key {
        Some(k) => if trim(k).len() > 0 {
            Some("Bearer "@ + trim(k))
        } else {
            None
        },
        None => None,
    }
}

impl CustomApiProvider {
    pub fn new(config: CustomApiProviderConfig) -> (r: Self)
        ensures
            r.config == config,
    {
        CustomApiProvider { client: client_with_timeout(120), config }
    }

    /// The chat completions URL (see `chat_url_spec`); it always ends with `/chat/completions`.
    pub fn chat_completions_url(&self) -> (r: String)
        ensures
            r@ == chat_url_spec(self.config.base_url@),
            has_suffix(r@, "/chat/completions"@),
    {
        let cs = chars_of(self.config.base_url.as_str());
        let t = trim_chars(&cs);
        let b = trim_end_char_vec(&t, '/');
        let suffix = chars_of("/chat/completions");
        let mut out = string_from_chars(&b);
        if !ends_with_chars(&b, &suffix) {
            out.append("/chat/completions");
            proof {
                let r = b@ + "/chat/completions"@;
                assert(r.skip(r.len() - "/chat/completions"@.len()) =~= "/chat/completions"@);
            }
        }
        out
    }

    /// The models URL (see `models_url_spec`).
    pub fn models_url(&self) -> (r: String)
        ensures
            r@ == models_url_spec(self.config.base_url@),
    {
        let chat_url = self.chat_completions_url();
        let c = chars_of(chat_url.as_str());
        let suffix = chars_of("/chat/completions");
        let root = if ends_with_chars(&c, &suffix) {
            let keep = c.len() - suffix.len();
            let mut head: Vec<char> = Vec::new();
            let mut i: usize = 0;
            while i < keep
                invariant
                    keep <= c.len(),
                    i <= keep,
                    head@ == c@.take(i as int),
                decreases keep - i,
            {
                head.push(c[i]);
                i = i + 1;
                assert(head@ =~= c@.take(i as int));
            }
            trim_end_char_vec(&head, '/')
        } else {
            trim_end_char_vec(&c, '/')
        };
        let mut out = string_from_chars(&root);
        out.append("/models");
        out
    }

    /// The `Authorization` header value, if any (see `authorization_spec`).
    pub fn authorization(&self) -> (r: Option<String>)
        ensures
            opt_view(r) == authorization_spec(opt_view(self.config.api_key)),
    {
        match &self.config.api_key {
            Some(k) => {
                let cs = chars_of(k.as_str());
                let t = trim_chars(&cs);
                if t.len() > 0 {
                    let mut out = String::new();
                    out.append("Bearer ");
                    let tk = string_from_chars(&t);
                    out.append(tk.as_str());
                    Some(out)
                } else {
                    None
                }
            },
            None => None,
        }
    }
}

/// An HTTP status code of the success class.
pub open spec fn is_success_spec(status: u16) -> bool {
    200 <= status <= 299
}

/// What a health check does after the models listing answered.
#[derive(Debug, Clone, Copy, PartialEq, Eq)]
pub enum ModelsProbe {
    /// The endpoint is available.
    Available,
    /// The key was refused; no fallback is tried.
    Unauthorized,
    /// Fall back to a one-message chat request.
    TryChat,
}

/// The next step of a health check after the models listing answered with `status`.
pub fn models_probe(status: u16) -> (r: ModelsProbe)
    ensures
        is_success_spec(status) ==> r == ModelsProbe::Available,
        status == 401 ==> r == ModelsProbe::Unauthorized,
        !is_success_spec(status) && status != 401 ==> r == ModelsProbe::TryChat,
{
    if 200 <= status && status <= 299 {
        ModelsProbe::Available
    } else if status == 401 {
        ModelsProbe::Unauthorized
    } else {
        ModelsProbe::TryChat
    }
}

/// Normalising a chat completions URL a second time changes nothing: a URL
/// the provider built is kept as it is when configured again.
pub proof fn lemma_chat_url_idempotent(base_url: Seq<char>)
    ensures
        chat_url_spec(chat_url_spec(base_url)) == chat_url_spec(base_url),
        has_suffix(chat_url_spec(base_url), "/chat/completions"@),
{
    reveal_strlit("/chat/completions");
    let suffix = "/chat/completions"@;
    let t = trim(base_url);
    let b = trim_end_char(t, '/');
    let u = chat_url_spec(base_url);
    crate::text::lemma_trim_start_first(base_url);
    crate::text::lemma_trim_end_prefix(trim_start(base_url));
    crate::text::lemma_trim_end_char_prefix(t, '/');
    if !has_suffix(b, suffix) {
        assert((b + suffix).skip((b + suffix).len() - suffix.len()) =~= suffix);
    }
    assert(has_suffix(u, suffix));
    assert(u.last() == 's') by {
        assert(u.skip(u.len() - suffix.len()) =~= suffix);
        assert(u.last() == u.skip(u.len() - suffix.len())[suffix.len() - 1]);
    }
    if b.len() > 0 {
        assert(t.len() > 0);
        assert(t[0] == trim_start(base_url)[0]);
        assert(u[0] == b[0]);
        assert(b[0] == t[0]);
    } else {
        assert(u =~= suffix);
    }
    assert(!is_ws(u[0]));
    assert(!is_ws(u.last()));
    crate::text::lemma_trim_unchanged(u);
    assert(trim_end_char(u, '/') == u);
}

/// The outcome of the fallback chat request: unavailable on a failed status,
/// otherwise available when the reply has at least one choice.
pub fn chat_ping_available(status: u16, choice_count: usize) -> (r: bool)
    ensures
        r == (is_success_spec(status) && choice_count > 0),
{
    200 <= status && status <= 299 && choice_count > 0
}

/// The error for a failed request: `InvalidApiKey` for 401 when the provider
/// treats it so, otherwise the status and body.
pub fn http_status_error(status: u16, status_text: &str, body: &str, unauthorized_is_invalid_key: bool) -> (r: AiError)
    ensures
        unauthorized_is_invalid_key && status == 401 ==> r == AiError::InvalidApiKey,
        !(unauthorized_is_invalid_key && status == 401) ==> r@ == AiErrorView::ApiCallFailed(
            "状态码: "@ + status_text@ + ", 响应: "@ + body@,
        ),
{
    if unauthorized_is_invalid_key && status == 401 {
        return AiError::InvalidApiKey;
    }
    let mut msg = String::new();
    msg.append("状态码: ");
    msg.append(status_text);
    msg.append(", 响应: ");
    msg.append(body);
    AiError::ApiCallFailed(msg)
}

/// The content of the first choice of a reply, or a parse error with the given message.
pub fn first_choice_content(contents: Vec<String>, empty_message: &str) -> (r: Result<String, AiError>)
    ensures
        contents.len() > 0 ==> r == Ok::<String, AiError>(contents@[0]),
        contents.len() == 0 ==> r is Err && r->Err_0@ == AiErrorView::ParseError(empty_message@),
{
    if contents.len() > 0 {
        Ok(contents[0].clone())
    } else {
        let mut msg = String::new();
        msg.append(empty_message);
        Err(AiError::ParseError(msg))
    }
}

proof fn lemma_key_literals()
    ensures
        !has_prefix("doubao"@, "custom:"@),
        !has_prefix("openai"@, "custom:"@),
        !has_prefix("deepseek"@, "custom:"@),
        !has_prefix("lmstudio"@, "custom:"@),
        !has_prefix("custom"@, "custom:"@),
        "lmstudio"@ != "doubao"@,
        "lmstudio"@ != "openai"@,
        "lmstudio"@ != "deepseek"@,
        "lmstudio"@ != "custom"@,
        "custom:"@.len() == 7,
        "openai"@ != "doubao"@,
        "deepseek"@ != "doubao"@,
        "deepseek"@ != "openai"@,
        "custom"@ != "doubao"@,
        "custom"@ != "openai"@,
        "custom"@ != "deepseek"@,
{
    reveal_strlit("doubao");
    reveal_strlit("openai");
    reveal_strlit("deepseek");
    reveal_strlit("lmstudio");
    reveal_strlit("custom");
    reveal_strlit("custom:");
    assert("doubao"@.take(7) != "custom:"@ || "doubao"@.len() < 7);
    assert("openai"@[0] != "custom:"@[0]);
    assert("deepseek"@.take(7)[0] != "custom:"@[0]);
    assert("lmstudio"@.take(7)[0] != "custom:"@[0]);
    assert("lmstudio"@[0] != "doubao"@[0]);
    assert("lmstudio"@[0] != "openai"@[0]);
    assert("lmstudio"@[0] != "deepseek"@[0]);
    assert("lmstudio"@[0] != "custom"@[0]);
    assert("openai"@[0] != "doubao"@[0]);
    assert("deepseek"@[1] != "doubao"@[1]);
    assert("deepseek"@[0] != "openai"@[0]);
    assert("custom"@[0] != "doubao"@[0]);
    assert("custom"@[0] != "openai"@[0]);
    assert("custom"@[0] != "deepseek"@[0]);
}

/// Selecting a provider by the key of the current selection leaves the
/// selection as it was.
pub proof fn lemma_select_own_key(provider: AiProviderType, selected: Option<Seq<char>>)
    ensures
        select_by_key(provider, selected, provider_key_spec(provider, selected)) == (
            provider,
            selected,
        ),
{
    lemma_key_literals();
    if let (AiProviderType::Custom, Some(id)) = (provider, selected) {
        let k = "custom:"@ + id;
        assert(k.take(7) =~= "custom:"@);
        assert(k.skip(7) =~= id);
    }
}

/// The key of a selection made by a provider key is that key again: for
/// `doubao`, `openai`, `deepseek`, `lmstudio` and every `custom:<id>`, and for
/// `custom` when no custom endpoint was selected; any other key reads back as
/// `lmstudio`.
pub proof fn lemma_key_round_trip(provider: AiProviderType, selected: Option<Seq<char>>, k: Seq<char>)
    ensures
        ({
            let (p, s) = select_by_key(provider, selected, k);
            let back = provider_key_spec(p, s);
            &&& (k == "doubao"@ || k == "openai"@ || k == "deepseek"@ || k == "lmstudio"@
                || has_prefix(k, "custom:"@) || (k == "custom"@ && selected is None)) ==> back == k
            &&& !(k == "doubao"@ || k == "openai"@ || k == "deepseek"@ || k == "custom"@
                || has_prefix(k, "custom:"@)) ==> back == "lmstudio"@
        }),
{
    lemma_key_literals();
    if has_prefix(k, "custom:"@) {
        assert("custom:"@ + k.skip(7) =~= k);
    }
}

} // verus!

verus! {

#[verifier::external_type_specification]
#[verifier::external_body]
pub struct ExReqwestClient(Client);

/// Builds a client with `Client::builder().timeout(..).build()` of reqwest,
/// falling back to `Client::new()` when the builder fails. Nothing is stated
/// of the client. As reqwest documents, `Client::new` panics when no TLS
/// backend can be set up; that depends on the machine, not on the argument.
#[verifier::external_body]
fn client_with_timeout(secs: u64) -> Client {
    Client::builder().timeout(std::time::Duration::from_secs(secs)).build().unwrap_or_else(|_| Client::new())
}

/// Builds a client with reqwest's `Client::new()`, which has no timeout.
/// Nothing is stated of the client; reqwest documents that it panics when no
/// TLS backend can be set up, which depends on the machine.
#[verifier::external_body]
fn plain_client() -> Client {
    Client::new()
}

/// A chat completions request as a provider sends it, with how its reply is read.
#[derive(Debug, Clone, PartialEq)]
pub struct ChatCall {
    pub url: String,
    /// The `Authorization` header, when the request carries one.
    pub authorization: Option<String>,
    pub model: String,
    pub messages: Vec<ChatMessage>,
    /// The sampling temperature in tenths.
    pub temperature_tenths: u32,
    /// The timeout of this request, when it sets one of its own.
    pub timeout_secs: Option<u64>,
    /// Whether a 401 reply means an invalid key.
    pub unauthorized_is_invalid_key: bool,
    /// The parse error text for a reply without choices.
    pub empty_message: String,
}

/// The single user message that asks for an analysis.
pub open spec fn analysis_messages_spec(content: Seq<char>, context: Seq<char>) -> Seq<(Seq<char>, Seq<char>)> {
    seq![("user"@, analysis_prompt_spec(content, context))]
}

/// Messages taken as (role, content) texts.
pub open spec fn messages_view(m: Seq<ChatMessage>) -> Seq<(Seq<char>, Seq<char>)> {
    m.map_values(|x: ChatMessage| (x.role@, x.content@))
}

/// The analysis request: one user message with the analysis prompt.
pub fn analysis_messages(content: &str, context: &str) -> (r: Vec<ChatMessage>)
    ensures
        messages_view(r@) == analysis_messages_spec(content@, context@),
{
    let mut out: Vec<ChatMessage> = Vec::new();
    out.push(ChatMessage { role: string_of("user"), content: analysis_prompt(content, context) });
    assert(messages_view(out@) =~= analysis_messages_spec(content@, context@));
    out
}

fn string_of(s: &str) -> (r: String)
    ensures
        r@ == s@,
{
    let mut out = String::new();
    out.append(s);
    out
}

/// `base` followed by `suffix`.
fn concat(base: &str, suffix: &str) -> (r: String)
    ensures
        r@ == base@ + suffix@,
{
    let mut out = String::new();
    out.append(base);
    out.append(suffix);
    out
}

/// The Doubao (Volcano Engine Ark) provider.
pub struct DoubaoProvider {
    pub client: Client,
    pub api_key: String,
    pub model: String,
    pub base_url: String,
}

/// The OpenAI provider.
pub struct OpenAiProvider {
    pub client: Client,
    pub api_key: String,
    pub model: String,
    pub base_url: String,
}

/// A local LM Studio server.
pub struct LmStudioProvider {
    pub client: Client,
    pub base_url: String,
}

/// The DeepSeek provider.
pub struct DeepSeekProvider {
    pub client: Client,
    pub api_key: String,
    pub model: String,
    pub base_url: String,
}

/// The request of a hosted provider: its chat completions URL, the key as a
/// bearer token, a temperature of 0.7.
pub open spec fn hosted_call(
    base_url: Seq<char>,
    api_key: Seq<char>,
    model: Seq<char>,
    timeout: Option<u64>,
    unauthorized_is_invalid_key: bool,
    c: ChatCall,
) -> bool {
    &&& c.url@ == base_url + "/chat/completions"@
    &&& opt_view(c.authorization) == Some("Bearer "@ + api_key)
    &&& c.model@ == model
    &&& c.temperature_tenths == 7
    &&& c.timeout_secs == timeout
    &&& c.unauthorized_is_invalid_key == unauthorized_is_invalid_key
    &&& c.empty_message@ == "空响应"@
}

fn hosted_chat_call(
    base_url: &str,
    api_key: &str,
    model: &str,
    messages: Vec<ChatMessage>,
    timeout: Option<u64>,
    unauthorized_is_invalid_key: bool,
) -> (r: ChatCall)
    ensures
        hosted_call(base_url@, api_key@, model@, timeout, unauthorized_is_invalid_key, r),
        r.messages == messages,
{
    ChatCall {
        url: concat(base_url, "/chat/completions"),
        authorization: Some(concat("Bearer ", api_key)),
        model: string_of(model),
        messages,
        temperature_tenths: 7,
        timeout_secs: timeout,
        unauthorized_is_invalid_key,
        empty_message: string_of("空响应"),
    }
}

impl DoubaoProvider {
    /// The provider with its default model.
    pub fn new(api_key: String) -> (r: Self)
        ensures
            r.api_key == api_key,
            r.model@ == "doubao-seed-1-8-251228"@,
            r.base_url@ == "https://ark.cn-beijing.volces.com/api/v3"@,
    {
        Self::with_model(api_key, string_of("doubao-seed-1-8-251228"))
    }

    /// The provider with the given model.
    pub fn with_model(api_key: String, model: String) -> (r: Self)
        ensures
            r.api_key == api_key,
            r.model == model,
            r.base_url@ == "https://ark.cn-beijing.volces.com/api/v3"@,
    {
        DoubaoProvider {
            client: client_with_timeout(120),
            api_key,
            model,
            base_url: string_of("https://ark.cn-beijing.volces.com/api/v3"),
        }
    }

    /// The display name.
    pub fn name(&self) -> (r: &'static str)
        ensures
            r@ == "豆包"@,
    {
        "豆包"
    }

    /// A chat request: 60 seconds at most; a 401 is reported like any failure.
    pub fn chat_call(&self, messages: Vec<ChatMessage>) -> (r: ChatCall)
        ensures
            hosted_call(self.base_url@, self.api_key@, self.model@, Some(60u64), false, r),
            r.messages == messages,
    {
        hosted_chat_call(self.base_url.as_str(), self.api_key.as_str(), self.model.as_str(), messages, Some(60), false)
    }

    /// An analysis request: the analysis prompt, with the client's own timeout.
    pub fn analyze_call(&self, content: &str, context: &str) -> (r: ChatCall)
        ensures
            hosted_call(self.base_url@, self.api_key@, self.model@, None, false, r),
            messages_view(r.messages@) == analysis_messages_spec(content@, context@),
    {
        let messages = analysis_messages(content, context);
        hosted_chat_call(self.base_url.as_str(), self.api_key.as_str(), self.model.as_str(), messages, None, false)
    }
}

impl OpenAiProvider {
    /// The provider with its default model.
    pub fn new(api_key: String) -> (r: Self)
        ensures
            r.api_key == api_key,
            r.model@ == "gpt-4"@,
            r.base_url@ == "https://api.openai.com/v1"@,
    {
        Self::with_model(api_key, string_of("gpt-4"))
    }

    /// The provider with the given model.
    pub fn with_model(api_key: String, model: String) -> (r: Self)
        ensures
            r.api_key == api_key,
            r.model == model,
            r.base_url@ == "https://api.openai.com/v1"@,
    {
        OpenAiProvider { client: plain_client(), api_key, model, base_url: string_of("https://api.openai.com/v1") }
    }

    /// The display name.
    pub fn name(&self) -> (r: &'static str)
        ensures
            r@ == "ChatGPT"@,
    {
        "ChatGPT"
    }

    /// A chat request; a 401 means an invalid key.
    pub fn chat_call(&self, messages: Vec<ChatMessage>) -> (r: ChatCall)
        ensures
            hosted_call(self.base_url@, self.api_key@, self.model@, None, true, r),
            r.messages == messages,
    {
        hosted_chat_call(self.base_url.as_str(), self.api_key.as_str(), self.model.as_str(), messages, None, true)
    }

    /// An analysis request: the analysis prompt; a 401 means an invalid key.
    pub fn analyze_call(&self, content: &str, context: &str) -> (r: ChatCall)
        ensures
            hosted_call(self.base_url@, self.api_key@, self.model@, None, true, r),
            messages_view(r.messages@) == analysis_messages_spec(content@, context@),
    {
        let messages = analysis_messages(content, context);
        hosted_chat_call(self.base_url.as_str(), self.api_key.as_str(), self.model.as_str(), messages, None, true)
    }
}

impl DeepSeekProvider {
    /// The provider with its default model.
    pub fn new(api_key: String) -> (r: Self)
        ensures
            r.api_key == api_key,
            r.model@ == "deepseek-chat"@,
            r.base_url@ == "https://api.deepseek.com/v1"@,
    {
        DeepSeekProvider {
            client: plain_client(),
            api_key,
            model: string_of("deepseek-chat"),
            base_url: string_of("https://api.deepseek.com/v1"),
        }
    }

    /// The display name.
    pub fn name(&self) -> (r: &'static str)
        ensures
            r@ == "DeepSeek"@,
    {
        "DeepSeek"
    }

    /// A chat request; a 401 means an invalid key.
    pub fn chat_call(&self, messages: Vec<ChatMessage>) -> (r: ChatCall)
        ensures
            hosted_call(self.base_url@, self.api_key@, self.model@, None, true, r),
            r.messages == messages,
    {
        hosted_chat_call(self.base_url.as_str(), self.api_key.as_str(), self.model.as_str(), messages, None, true)
    }

    /// An analysis request: the analysis prompt; a 401 means an invalid key.
    pub fn analyze_call(&self, content: &str, context: &str) -> (r: ChatCall)
        ensures
            hosted_call(self.base_url@, self.api_key@, self.model@, None, true, r),
            messages_view(r.messages@) == analysis_messages_spec(content@, context@),
    {
        let messages = analysis_messages(content, context);
        hosted_chat_call(self.base_url.as_str(), self.api_key.as_str(), self.model.as_str(), messages, None, true)
    }
}

/// The request to a local LM Studio server: no key, the model it has loaded
/// (`default`), a temperature of 0.7.
pub open spec fn local_call(base_url: Seq<char>, c: ChatCall) -> bool {
    &&& c.url@ == base_url + "/v1/chat/completions"@
    &&& c.authorization is None
    &&& c.model@ == "default"@
    &&& c.temperature_tenths == 7
    &&& c.timeout_secs is None
    &&& !c.unauthorized_is_invalid_key
    &&& c.empty_message@ == "空响应"@
}

impl LmStudioProvider {
    /// A server at the given URL, called with a two minute timeout.
    pub fn new(base_url: String) -> (r: Self)
        ensures
            r.base_url == base_url,
    {
        LmStudioProvider { client: client_with_timeout(120), base_url }
    }

    /// A server at `http://localhost:1234`.
    pub fn default_url() -> (r: Self)
        ensures
            r.base_url@ == "http://localhost:1234"@,
    {
        Self::new(string_of("http://localhost:1234"))
    }

    /// The display name.
    pub fn name(&self) -> (r: &'static str)
        ensures
            r@ == "LM Studio"@,
    {
        "LM Studio"
    }

    /// The URL probed to tell whether the server runs.
    pub fn models_url(&self) -> (r: String)
        ensures
            r@ == self.base_url@ + "/v1/models"@,
    {
        concat(self.base_url.as_str(), "/v1/models")
    }

    /// The error of a request made while the server does not run.
    pub fn not_running_error(&self) -> (r: AiError)
        ensures
            r@ == AiErrorView::ServiceUnavailable("LM Studio 未运行"@),
    {
        AiError::ServiceUnavailable(string_of("LM Studio 未运行"))
    }

    /// A chat request.
    pub fn chat_call(&self, messages: Vec<ChatMessage>) -> (r: ChatCall)
        ensures
            local_call(self.base_url@, r),
            r.messages == messages,
    {
        ChatCall {
            url: concat(self.base_url.as_str(), "/v1/chat/completions"),
            authorization: None,
            model: string_of("default"),
            messages,
            temperature_tenths: 7,
            timeout_secs: None,
            unauthorized_is_invalid_key: false,
            empty_message: string_of("空响应"),
        }
    }

    /// An analysis request: the analysis prompt.
    pub fn analyze_call(&self, content: &str, context: &str) -> (r: ChatCall)
        ensures
            local_call(self.base_url@, r),
            messages_view(r.messages@) == analysis_messages_spec(content@, context@),
    {
        self.chat_call(analysis_messages(content, context))
    }
}

/// The request to a custom endpoint: its chat completions URL, the trimmed
/// key as a bearer token when it is not blank, its model.
pub open spec fn custom_call(config: CustomApiProviderConfig, temperature_tenths: u32, timeout: u64, c: ChatCall) -> bool {
    &&& c.url@ == chat_url_spec(config.base_url@)
    &&& opt_view(c.authorization) == authorization_spec(opt_view(config.api_key))
    &&& c.model == config.model
    &&& c.temperature_tenths == temperature_tenths
    &&& c.timeout_secs == Some(timeout)
    &&& c.unauthorized_is_invalid_key
    &&& c.empty_message@ == "empty response"@
}

impl CustomApiProvider {
    /// A chat request: two minutes at most; a 401 means an invalid key.
    pub fn chat_call(&self, messages: Vec<ChatMessage>) -> (r: ChatCall)
        ensures
            custom_call(self.config, 7, 120, r),
            r.messages == messages,
    {
        ChatCall {
            url: self.chat_completions_url(),
            authorization: self.authorization(),
            model: self.config.model.clone(),
            messages,
            temperature_tenths: 7,
            timeout_secs: Some(120),
            unauthorized_is_invalid_key: true,
            empty_message: string_of("empty response"),
        }
    }

    /// The request that checks a chat reply comes back: `ping`, at
    /// temperature 0, ten seconds at most.
    pub fn ping_call(&self) -> (r: ChatCall)
        ensures
            custom_call(self.config, 0, 10, r),
            messages_view(r.messages@) == seq![("user"@, "ping"@)],
    {
        let mut messages: Vec<ChatMessage> = Vec::new();
        messages.push(ChatMessage { role: string_of("user"), content: string_of("ping") });
        assert(messages_view(messages@) =~= seq![("user"@, "ping"@)]);
        ChatCall {
            url: self.chat_completions_url(),
            authorization: self.authorization(),
            model: self.config.model.clone(),
            messages,
            temperature_tenths: 0,
            timeout_secs: Some(10),
            unauthorized_is_invalid_key: true,
            empty_message: string_of("empty response"),
        }
    }

    /// An analysis request: a chat request with the analysis prompt.
    pub fn analyze_call(&self, content: &str, context: &str) -> (r: ChatCall)
        ensures
            custom_call(self.config, 7, 120, r),
            messages_view(r.messages@) == analysis_messages_spec(content@, context@),
    {
        self.chat_call(analysis_messages(content, context))
    }
}

} // verus!

verus! {

/// What came back for a chat request.
#[derive(Debug, Clone, PartialEq)]
pub enum ChatReply {
    /// The request failed with this status; `status_text` is the status as
    /// reqwest writes it (`401 Unauthorized`) and `body` the body of the reply.
    Failed { status: u16, status_text: String, body: String },
    /// The reply decoded; these are the contents of its choices, in order.
    Decoded { contents: Vec<String> },
    /// The reply of a successful request did not decode; the decoding error's text.
    Undecodable { error: String },
}

/// The outcome of a chat request: the failure as `http_status_error` words it,
/// a decoding failure as a parse error, else the content of the first choice
/// (a parse error with the request's message when there is none).
pub fn chat_outcome(call: &ChatCall, reply: ChatReply) -> (r: Result<String, AiError>)
    ensures
        match reply {
            ChatReply::Failed { status, status_text, body } => r is Err && (if call.unauthorized_is_invalid_key
                && status == 401 {
                r->Err_0 == AiError::InvalidApiKey
            } else {
                r->Err_0@ == AiErrorView::ApiCallFailed("状态码: "@ + status_text@ + ", 响应: "@ + body@)
            }),
            ChatReply::Decoded { contents } => if contents@.len() > 0 {
                r == Ok::<String, AiError>(contents@[0])
            } else {
                r is Err && r->Err_0@ == AiErrorView::ParseError(call.empty_message@)
            },
            ChatReply::Undecodable { error } => r is Err && r->Err_0@ == AiErrorView::ParseError(error@),
        },
{
    match reply {
        ChatReply::Failed { status, status_text, body } => Err(
            http_status_error(status, status_text.as_str(), body.as_str(), call.unauthorized_is_invalid_key),
        ),
        ChatReply::Decoded { contents } => first_choice_content(contents, call.empty_message.as_str()),
        ChatReply::Undecodable { error } => Err(AiError::ParseError(error)),
    }
}

} // verus!
