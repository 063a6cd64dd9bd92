use vstd::prelude::*;

verus! {

/// The identifier of a model.
#[derive(Debug)]
pub struct LLMId(pub String);

/// How requests to a model are counted.
#[derive(Debug)]
pub struct LLMUsageMetadata {
    pub request_multiplier: u32,
    /// Credits charged per request, in hundredths, where they differ from
    /// the request count.
    pub credit_multiplier: Option<u32>,
}

/// How a model rates, each figure in hundredths (0..=100 for 0.0..=1.0).
#[derive(Debug, PartialEq, Eq, Structural)]
pub struct LLMSpec {
    pub cost: u32,
    pub quality: u32,
    pub speed: u32,
}

/// Who serves a model.
#[derive(Debug, Clone, Copy, PartialEq, Eq, Structural)]
pub enum LLMProvider {
    MiniMax,
}

/// The context window of a model, in tokens.
#[derive(Debug, PartialEq, Eq, Structural)]
pub struct LLMContextWindow {
    pub is_configurable: bool,
    pub min: u32,
    pub max: u32,
    pub default_max: u32,
}

/// What the client shows of a model.
#[derive(Debug)]
pub struct LLMInfo {
    pub display_name: String,
    pub base_model_name: String,
    pub id: LLMId,
    pub reasoning_level: Option<String>,
    pub usage_metadata: LLMUsageMetadata,
    pub description: Option<String>,
    pub disable_reason: Option<String>,
    pub vision_supported: bool,
    pub spec: Option<LLMSpec>,
    pub provider: LLMProvider,
    /// Per-host settings, as name and value; none for MiniMax models.
    pub host_configs: Vec<(String, String)>,
    /// A discount in percent, if any.
    pub discount_percentage: Option<u32>,
    pub context_window: LLMContextWindow,
}

/// The models offered for one feature, and the one chosen by default.
#[derive(Debug)]
pub struct AvailableLLMs {
    pub default_id: LLMId,
    pub choices: Vec<LLMInfo>,
    pub preferred_codex_model_id: Option<LLMId>,
}

/// The models offered for each feature.
#[derive(Debug)]
pub struct ModelsByFeature {
    pub agent_mode: AvailableLLMs,
    pub coding: AvailableLLMs,
    pub cli_agent: Option<AvailableLLMs>,
    pub computer_use: Option<AvailableLLMs>,
}

/// The description shown for every MiniMax model.
pub open spec fn minimax_description() -> Seq<char> {
    "MiniMax M2.7 - 196K context window, reasoning, tool calls"@
}

/// The general MiniMax model: its identifier and its name.
pub open spec fn m27_id() -> Seq<char> {
    "MiniMax-M2.7"@
}

pub open spec fn m27_name() -> Seq<char> {
    "MiniMax M2.7"@
}

/// The coding-plan model: its identifier and its name.
pub open spec fn coding_id() -> Seq<char> {
    "minimax-coding-plan/MiniMax-M2.7"@
}

pub open spec fn coding_name() -> Seq<char> {
    "MiniMax Coding Plan"@
}

/// `info` describes the MiniMax model `id` under the name `name`: reasoning
/// level high, one request per call, vision, rated cost 0, quality 0.9 and
/// speed 0.8, and a fixed context window of 196608 tokens (at least 4096).
pub open spec fn is_minimax_info(info: LLMInfo, id: Seq<char>, name: Seq<char>) -> bool {
    &&& info.display_name@ == name
    &&& info.base_model_name@ == id
    &&& info.id.0@ == id
    &&& info.reasoning_level matches Some(level) && level@ == "high"@
    &&& info.usage_metadata.request_multiplier == 1
    &&& info.usage_metadata.credit_multiplier is None
    &&& info.description matches Some(d) && d@ == minimax_description()
    &&& info.disable_reason is None
    &&& info.vision_supported
    &&& info.spec == Some(LLMSpec { cost: 0, quality: 90, speed: 80 })
    &&& info.provider == LLMProvider::MiniMax
    &&& info.host_configs.len() == 0
    &&& info.discount_percentage is None
    &&& info.context_window == LLMContextWindow { is_configurable: false, min: 4096, max: 196608, default_max: 196608 }
}

/// `a` offers exactly the models `ms` (identifier and name), in this order,
/// with the first as its default and no preferred Codex model.
pub open spec fn offers(a: AvailableLLMs, ms: Seq<(Seq<char>, Seq<char>)>) -> bool {
    &&& a.default_id.0@ == ms[0].0
    &&& a.choices.len() == ms.len()
    &&& forall|i: int| 0 <= i < ms.len() ==> #[trigger] is_minimax_info(a.choices@[i], ms[i].0, ms[i].1)
    &&& a.preferred_codex_model_id is None
}

/// The default of `a` is one of its choices.
pub open spec fn default_is_offered(a: AvailableLLMs) -> bool {
    exists|i: int| 0 <= i < a.choices.len() && (#[trigger] a.choices@[i]).id.0@ == a.default_id.0@
}

/// The model choices of the MiniMax client: the general model for every
/// feature, and besides it the coding-plan model for coding.
pub open spec fn is_minimax_choice(m: ModelsByFeature) -> bool {
    &&& offers(m.agent_mode, seq![(m27_id(), m27_name())])
    &&& offers(m.coding, seq![(m27_id(), m27_name()), (coding_id(), coding_name())])
    &&& m.cli_agent matches Some(a) && offers(a, seq![(m27_id(), m27_name())])
    &&& m.computer_use matches Some(a) && offers(a, seq![(m27_id(), m27_name())])
}

/// Every feature's default model is one of the models it offers.
pub proof fn law_defaults_are_offered(m: ModelsByFeature)
    requires
        is_minimax_choice(m),
    ensures
        default_is_offered(m.agent_mode),
        default_is_offered(m.coding),
        m.cli_agent matches Some(a) && default_is_offered(a),
        m.computer_use matches Some(a) && default_is_offered(a),
{
    let one = seq![(m27_id(), m27_name())];
    let two = seq![(m27_id(), m27_name()), (coding_id(), coding_name())];
    assert(one[0] == (m27_id(), m27_name()));
    assert(two[0] == (m27_id(), m27_name()));
    assert(is_minimax_info(m.agent_mode.choices@[0], one[0].0, one[0].1));
    assert(m.agent_mode.choices@[0].id.0@ == m.agent_mode.default_id.0@);
    assert(is_minimax_info(m.coding.choices@[0], two[0].0, two[0].1));
    assert(m.coding.choices@[0].id.0@ == m.coding.default_id.0@);
    let a = m.cli_agent->0;
    assert(is_minimax_info(a.choices@[0], one[0].0, one[0].1));
    assert(a.choices@[0].id.0@ == a.default_id.0@);
    let b = m.computer_use->0;
    assert(is_minimax_info(b.choices@[0], one[0].0, one[0].1));
    assert(b.choices@[0].id.0@ == b.default_id.0@);
}

/// The description of the MiniMax model `model_id`, shown as `display_name`.
pub fn minimax_llm_info(model_id: &str, display_name: &str) -> (info: LLMInfo)
    ensures
        is_minimax_info(info, model_id@, display_name@),
{
    LLMInfo {
        display_name: String::from_str(display_name),
        base_model_name: String::from_str(model_id),
        id: LLMId(String::from_str(model_id)),
        reasoning_level: Some(String::from_str("high")),
        usage_metadata: LLMUsageMetadata { request_multiplier: 1, credit_multiplier: None },
        description: Some(String::from_str("MiniMax M2.7 - 196K context window, reasoning, tool calls")),
        disable_reason: None,
        vision_supported: true,
        spec: Some(LLMSpec { cost: 0, quality: 90, speed: 80 }),
        provider: LLMProvider::MiniMax,
        host_configs: Vec::new(),
        discount_percentage: None,
        context_window: LLMContextWindow { is_configurable: false, min: 4096, max: 196608, default_max: 196608 },
    }
}

/// The choice of the general model alone.
fn general_model_only() -> (a: AvailableLLMs)
    ensures
        offers(a, seq![(m27_id(), m27_name())]),
        a.choices.len() == 1,
        is_minimax_info(a.choices@[0], m27_id(), m27_name()),
        default_is_offered(a),
{
    let mut choices: Vec<LLMInfo> = Vec::new();
    choices.push(minimax_llm_info("MiniMax-M2.7", "MiniMax M2.7"));
    let a = AvailableLLMs { default_id: LLMId(String::from_str("MiniMax-M2.7")), choices, preferred_codex_model_id: None };
    proof {
        let ms = seq![(m27_id(), m27_name())];
        assert(ms[0] == (m27_id(), m27_name()));
        assert(a.choices@[0].id.0@ == a.default_id.0@);
    }
    a
}

/// The models that the MiniMax client offers for each feature.
pub fn feature_model_choices() -> (m: ModelsByFeature)
    ensures
        is_minimax_choice(m),
        default_is_offered(m.agent_mode),
        default_is_offered(m.coding),
        m.cli_agent matches Some(a) && default_is_offered(a),
        m.computer_use matches Some(a) && default_is_offered(a),
{
    let agent_mode = general_model_only();
    let mut coding_choices: Vec<LLMInfo> = Vec::new();
    coding_choices.push(minimax_llm_info("MiniMax-M2.7", "MiniMax M2.7"));
    coding_choices.push(minimax_llm_info("minimax-coding-plan/MiniMax-M2.7", "MiniMax Coding Plan"));
    let coding = AvailableLLMs {
        default_id: LLMId(String::from_str("MiniMax-M2.7")),
        choices: coding_choices,
        preferred_codex_model_id: None,
    };
    let cli_agent = general_model_only();
    let computer_use = general_model_only();
    let m = ModelsByFeature { agent_mode, coding, cli_agent: Some(cli_agent), computer_use: Some(computer_use) };
    proof {
        let ms = seq![(m27_id(), m27_name()), (coding_id(), coding_name())];
        assert(ms[0] == (m27_id(), m27_name()));
        assert(ms[1] == (coding_id(), coding_name()));
        assert(m.coding.choices@[0].id.0@ == m.coding.default_id.0@);
    }
    m
}

} // verus!
