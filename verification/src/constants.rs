//! Voice presets, the model registry and service defaults.

use vstd::prelude::*;
use crate::text::str_equals;

verus! {

/// The default MIMO TTS model identifier.
pub const DEFAULT_MODEL: &'static str = "mimo-v2.5-tts";

/// The default voice identifier (the voice's Chinese name).
pub const DEFAULT_VOICE: &'static str = "冰糖";

/// Default MIMO API base URL.
pub const MIMO_BASE_URL_DEFAULT: &'static str = "https://api.xiaomimimo.com";

/// Requests per minute the API allows per voice.
pub const MIMO_RPM_PER_VOICE: u32 = 20;

/// Requests per minute the API allows per application.
pub const MIMO_RPM_PER_APP: u32 = 120;

/// Default request rate (requests per minute).
pub const MIMO_RPM_DEFAULT: u64 = 100;

/// Default token budget (tokens per minute).
pub const MIMO_TOKEN_BUDGET_RPM_DEFAULT: u64 = 10_000_000;

/// Request rate of each provider.
pub const MIMO_RPM_PER_PROVIDER: u64 = 100;

/// Token budget of each provider.
pub const MIMO_TPM_PER_PROVIDER: u64 = 10_000_000;

/// Burst capacity of each provider.
pub const MIMO_BURST_PER_PROVIDER: u64 = 10;

/// A pre-configured MIMO provider: an API endpoint by name and base URL
/// (its key is set separately).
#[derive(Debug, Clone)]
pub struct ProviderPreset {
    pub id: String,
    pub name: String,
    pub base_url: String,
}

/// A built-in voice.
#[derive(Debug, Clone, Copy)]
pub struct VoicePreset {
    /// The identifier sent to the API.
    pub id: &'static str,
    pub name: &'static str,
    pub language: &'static str,
    pub gender: &'static str,
    pub style: &'static str,
    /// Where a preview of the voice can be heard.
    pub preview_url: &'static str,
}

/// A supported model.
#[derive(Debug, Clone, Copy)]
pub struct ModelPreset {
    /// The identifier sent to the API.
    pub id: &'static str,
    pub name: &'static str,
    pub description: &'static str,
}

/// The built-in voices, in display order.
pub open spec fn voice_table() -> Seq<VoicePreset> {
    seq![
        VoicePreset {
            id: "冰糖",
            name: "冰糖",
            language: "中文",
            gender: "女性",
            style: "活泼少女",
            preview_url: "https://aistudio-cdn.xiaomimimo.com/xiaomimimo-static/tts/audio/bingtang.wav",
        },
        VoicePreset {
            id: "茉莉",
            name: "茉莉",
            language: "中文",
            gender: "女性",
            style: "知性女声",
            preview_url: "https://aistudio-cdn.xiaomimimo.com/xiaomimimo-static/tts/audio/moli.wav",
        },
        VoicePreset {
            id: "苏打",
            name: "苏打",
            language: "中文",
            gender: "男性",
            style: "阳光少年",
            preview_url: "https://aistudio-cdn.xiaomimimo.com/xiaomimimo-static/tts/audio/suda.wav",
        },
        VoicePreset {
            id: "白桦",
            name: "白桦",
            language: "中文",
            gender: "男性",
            style: "成熟男声",
            preview_url: "https://aistudio-cdn.xiaomimimo.com/xiaomimimo-static/tts/audio/baihua.wav",
        },
        VoicePreset {
            id: "Mia",
            name: "Mia",
            language: "English",
            gender: "Female",
            style: "Lively girl",
            preview_url: "https://aistudio-cdn.xiaomimimo.com/xiaomimimo-static/tts/audio/mia.wav",
        },
        VoicePreset {
            id: "Chloe",
            name: "Chloe",
            language: "English",
            gender: "Female",
            style: "Sweet Dreamy",
            preview_url: "https://aistudio-cdn.xiaomimimo.com/xiaomimimo-static/tts/audio/chloe.wav",
        },
        VoicePreset {
            id: "Milo",
            name: "Milo",
            language: "English",
            gender: "Male",
            style: "Sunny boy",
            preview_url: "https://aistudio-cdn.xiaomimimo.com/xiaomimimo-static/tts/audio/milo.wav",
        },
        VoicePreset {
            id: "Dean",
            name: "Dean",
            language: "English",
            gender: "Male",
            style: "Steady Gentle",
            preview_url: "https://aistudio-cdn.xiaomimimo.com/xiaomimimo-static/tts/audio/dean.wav",
        },
    ]
}

/// The supported models.
pub open spec fn model_table() -> Seq<ModelPreset> {
    seq![
        ModelPreset {
            id: "mimo-v2.5-tts",
            name: "MiMo TTS v2.5",
            description: "Xiaomi MiMo text-to-speech model v2.5",
        },
    ]
}

/// The identifiers of the built-in voices, in display order.
pub open spec fn voice_ids() -> Seq<Seq<char>> {
    seq![
        "冰糖"@,
        "茉莉"@,
        "苏打"@,
        "白桦"@,
        "Mia"@,
        "Chloe"@,
        "Milo"@,
        "Dean"@,
    ]
}

/// The identifiers of the supported models.
pub open spec fn model_ids() -> Seq<Seq<char>> {
    seq!["mimo-v2.5-tts"@]
}

fn voice(
    id: &'static str,
    language: &'static str,
    gender: &'static str,
    style: &'static str,
    preview_url: &'static str,
) -> (r: VoicePreset)
    ensures
        r.id == id && r.name == id && r.language == language && r.gender == gender && r.style == style
            && r.preview_url == preview_url,
{
    VoicePreset { id, name: id, language, gender, style, preview_url }
}

/// All built-in voices, in display order.
pub fn voice_presets() -> (r: Vec<VoicePreset>)
    ensures
        r@ == voice_table(),
        r@.len() == voice_ids().len(),
        forall|i: int| 0 <= i < r@.len() ==> (#[trigger] r@[i]).id@ == voice_ids()[i] && r@[i].name@
            == voice_ids()[i],
{
    let mut v: Vec<VoicePreset> = Vec::new();
    v.push(voice("冰糖", "中文", "女性", "活泼少女",
        "https://aistudio-cdn.xiaomimimo.com/xiaomimimo-static/tts/audio/bingtang.wav"));
    v.push(voice("茉莉", "中文", "女性", "知性女声",
        "https://aistudio-cdn.xiaomimimo.com/xiaomimimo-static/tts/audio/moli.wav"));
    v.push(voice("苏打", "中文", "男性", "阳光少年",
        "https://aistudio-cdn.xiaomimimo.com/xiaomimimo-static/tts/audio/suda.wav"));
    v.push(voice("白桦", "中文", "男性", "成熟男声",
        "https://aistudio-cdn.xiaomimimo.com/xiaomimimo-static/tts/audio/baihua.wav"));
    v.push(voice("Mia", "English", "Female", "Lively girl",
        "https://aistudio-cdn.xiaomimimo.com/xiaomimimo-static/tts/audio/mia.wav"));
    v.push(voice("Chloe", "English", "Female", "Sweet Dreamy",
        "https://aistudio-cdn.xiaomimimo.com/xiaomimimo-static/tts/audio/chloe.wav"));
    v.push(voice("Milo", "English", "Male", "Sunny boy",
        "https://aistudio-cdn.xiaomimimo.com/xiaomimimo-static/tts/audio/milo.wav"));
    v.push(voice("Dean", "English", "Male", "Steady Gentle",
        "https://aistudio-cdn.xiaomimimo.com/xiaomimimo-static/tts/audio/dean.wav"));
    v
}

/// All supported models.
pub fn model_presets() -> (r: Vec<ModelPreset>)
    ensures
        r@ == model_table(),
        r@.len() == model_ids().len(),
        forall|i: int| 0 <= i < r@.len() ==> (#[trigger] r@[i]).id@ == model_ids()[i],
{
    let mut v: Vec<ModelPreset> = Vec::new();
    v.push(
        ModelPreset {
            id: "mimo-v2.5-tts",
            name: "MiMo TTS v2.5",
            description: "Xiaomi MiMo text-to-speech model v2.5",
        },
    );
    v
}

/// Whether `voice` names a built-in voice.
pub fn is_valid_voice(voice: &str) -> (r: bool)
    ensures
        r == voice_ids().contains(voice@),
{
    get_voice_preset(voice).is_some()
}

/// Whether `model` names a supported model.
pub fn is_valid_model(model: &str) -> (r: bool)
    ensures
        r == model_ids().contains(model@),
{
    get_model_preset(model).is_some()
}

/// The built-in voice with identifier `id`, if any.
pub fn get_voice_preset(id: &str) -> (r: Option<VoicePreset>)
    ensures
        r is None <==> !voice_ids().contains(id@),
        r matches Some(p) ==> p.id@ == id@ && voice_table().contains(p),
{
    let presets = voice_presets();
    let mut i: usize = 0;
    while i < presets.len()
        invariant
            i <= presets@.len(),
            presets@.len() == voice_ids().len(),
            presets@ == voice_table(),
            forall|k: int| 0 <= k < presets@.len() ==> (#[trigger] presets@[k]).id@ == voice_ids()[k],
            forall|k: int| 0 <= k < i ==> voice_ids()[k] != id@,
        decreases presets@.len() - i,
    {
        if str_equals(presets[i].id, id) {
            assert(voice_ids()[i as int] == id@);
            assert(voice_table()[i as int] == presets@[i as int]);
            return Some(presets[i]);
        }
        i = i + 1;
    }
    proof {
        if voice_ids().contains(id@) {
            let k = choose|k: int| 0 <= k < voice_ids().len() && voice_ids()[k] == id@;
            assert(voice_ids()[k] != id@);
        }
    }
    None
}

/// The supported model with identifier `id`, if any.
pub fn get_model_preset(id: &str) -> (r: Option<ModelPreset>)
    ensures
        r is None <==> !model_ids().contains(id@),
        r matches Some(p) ==> p.id@ == id@ && model_table().contains(p),
{
    let presets = model_presets();
    let mut i: usize = 0;
    while i < presets.len()
        invariant
            i <= presets@.len(),
            presets@.len() == model_ids().len(),
            presets@ == model_table(),
            forall|k: int| 0 <= k < presets@.len() ==> (#[trigger] presets@[k]).id@ == model_ids()[k],
            forall|k: int| 0 <= k < i ==> model_ids()[k] != id@,
        decreases presets@.len() - i,
    {
        if str_equals(presets[i].id, id) {
            assert(model_ids()[i as int] == id@);
            assert(model_table()[i as int] == presets@[i as int]);
            return Some(presets[i]);
        }
        i = i + 1;
    }
    proof {
        if model_ids().contains(id@) {
            let k = choose|k: int| 0 <= k < model_ids().len() && model_ids()[k] == id@;
            assert(model_ids()[k] != id@);
        }
    }
    None
}

} // verus!
