//! Application configuration: the defaults and the shape of the settings
//! file.  Reading and writing the file, and its JSON form, stay outside the
//! library.

use vstd::prelude::*;
use vstd::string::StringExecFns;

verus! {

pub fn default_audio_format() -> (r: String)
    ensures
        r@ == "pcm_s16le"@,
{
    String::from_str("pcm_s16le")
}

pub fn default_translation() -> (r: String)
    ensures
        r@ == "none"@,
{
    String::from_str("none")
}

pub fn default_model() -> (r: String)
    ensures
        r@ == "gpt-4.1"@,
{
    String::from_str("gpt-4.1")
}

pub fn default_gate_model() -> (r: String)
    ensures
        r@ == "gpt-4.1-nano"@,
{
    String::from_str("gpt-4.1-nano")
}

pub fn default_openrouter_model() -> (r: String)
    ensures
        r@ == "deepseek/deepseek-chat-v3-0324:free"@,
{
    String::from_str("deepseek/deepseek-chat-v3-0324:free")
}

pub fn default_openrouter_gate_model() -> (r: String)
    ensures
        r@ == "deepseek/deepseek-chat-v3-0324:free"@,
{
    String::from_str("deepseek/deepseek-chat-v3-0324:free")
}

pub fn default_format() -> (r: String)
    ensures
        r@ == "mp3"@,
{
    String::from_str("mp3")
}

pub fn default_quality() -> (r: String)
    ensures
        r@ == "verylow"@,
{
    String::from_str("verylow")
}

pub fn default_auto_detect() -> (r: bool)
    ensures
        r,
{
    true
}

pub fn default_assistant() -> (r: String)
    ensures
        r@ == "general"@,
{
    String::from_str("general")
}

/// Settings of the streaming transcription service.
#[derive(Debug, Clone)]
pub struct SonioxConfig {
    pub api_key: String,
    pub audio_format: String,
    pub translation: String,
}

impl Default for SonioxConfig {
    fn default() -> (r: Self)
        ensures
            r.api_key@ == Seq::<char>::empty(),
            r.audio_format@ == "pcm_s16le"@,
            r.translation@ == "none"@,
    {
        SonioxConfig {
            api_key: String::new(),
            audio_format: default_audio_format(),
            translation: default_translation(),
        }
    }
}

/// Settings of the primary chat provider.
#[derive(Debug, Clone)]
pub struct OpenAIConfig {
    pub api_key: String,
    pub model: String,
    pub gate_model: String,
}

impl Default for OpenAIConfig {
    fn default() -> (r: Self)
        ensures
            r.api_key@ == Seq::<char>::empty(),
            r.model@ == "gpt-4.1"@,
            r.gate_model@ == "gpt-4.1-nano"@,
    {
        OpenAIConfig {
            api_key: String::new(),
            model: default_model(),
            gate_model: default_gate_model(),
        }
    }
}

/// Which chat provider answers analysis requests.
#[derive(Clone, Copy, Debug, PartialEq, Eq, Structural)]
pub enum AiProvider {
    Openai,
    Openrouter,
}

impl Default for AiProvider {
    fn default() -> (r: Self)
        ensures
            r == AiProvider::Openai,
    {
        AiProvider::Openai
    }
}

/// Settings of the alternative chat provider.
#[derive(Debug, Clone)]
pub struct OpenRouterConfig {
    pub api_key: String,
    pub model: String,
    pub gate_model: String,
}

impl Default for OpenRouterConfig {
    fn default() -> (r: Self)
        ensures
            r.api_key@ == Seq::<char>::empty(),
            r.model@ == "deepseek/deepseek-chat-v3-0324:free"@,
            r.gate_model@ == "deepseek/deepseek-chat-v3-0324:free"@,
    {
        OpenRouterConfig {
            api_key: String::new(),
            model: default_openrouter_model(),
            gate_model: default_openrouter_gate_model(),
        }
    }
}

/// Recording defaults offered to the command surface.
#[derive(Debug, Clone)]
pub struct RecordingConfig {
    pub default_format: String,
    pub default_quality: String,
    pub auto_detect_enabled: bool,
}

impl Default for RecordingConfig {
    fn default() -> (r: Self)
        ensures
            r.default_format@ == "mp3"@,
            r.default_quality@ == "verylow"@,
            r.auto_detect_enabled,
    {
        RecordingConfig {
            default_format: default_format(),
            default_quality: default_quality(),
            auto_detect_enabled: default_auto_detect(),
        }
    }
}

/// Which panels the command surface enables.
#[derive(Debug, Clone)]
pub struct UIConfig {
    pub enable_soniox: bool,
    pub enable_ai: bool,
    pub default_assistant: String,
    pub ai_provider: AiProvider,
}

impl Default for UIConfig {
    fn default() -> (r: Self)
        ensures
            !r.enable_soniox,
            !r.enable_ai,
            r.default_assistant@ == "general"@,
            r.ai_provider == AiProvider::Openai,
    {
        UIConfig {
            enable_soniox: false,
            enable_ai: false,
            default_assistant: default_assistant(),
            ai_provider: AiProvider::Openai,
        }
    }
}

/// The whole application configuration.
#[derive(Debug, Clone)]
pub struct AppConfig {
    pub soniox: SonioxConfig,
    pub openai: OpenAIConfig,
    pub openrouter: OpenRouterConfig,
    pub recording: RecordingConfig,
    pub ui: UIConfig,
}

impl Default for AppConfig {
    fn default() -> (r: Self)
        ensures
            r.soniox.api_key@ == Seq::<char>::empty(),
            r.soniox.audio_format@ == "pcm_s16le"@,
            r.soniox.translation@ == "none"@,
            r.openai.api_key@ == Seq::<char>::empty(),
            r.openai.model@ == "gpt-4.1"@,
            r.openai.gate_model@ == "gpt-4.1-nano"@,
            r.openrouter.api_key@ == Seq::<char>::empty(),
            r.openrouter.model@ == "deepseek/deepseek-chat-v3-0324:free"@,
            r.recording.default_format@ == "mp3"@,
            r.recording.default_quality@ == "verylow"@,
            r.recording.auto_detect_enabled,
            !r.ui.enable_soniox,
            !r.ui.enable_ai,
            r.ui.default_assistant@ == "general"@,
            r.ui.ai_provider == AiProvider::Openai,
    {
        AppConfig {
            soniox: SonioxConfig::default(),
            openai: OpenAIConfig::default(),
            openrouter: OpenRouterConfig::default(),
            recording: RecordingConfig::default(),
            ui: UIConfig::default(),
        }
    }
}

/// Owner of the settings file; the file operations themselves live outside
/// the library.
pub struct ConfigManager;

impl ConfigManager {
    /// The configuration a fresh settings file is given.
    pub fn create_default_config() -> (r: AppConfig)
        ensures
            r.soniox.audio_format@ == "pcm_s16le"@,
            r.soniox.translation@ == "none"@,
            r.openai.model@ == "gpt-4.1"@,
            r.openai.gate_model@ == "gpt-4.1-nano"@,
            r.recording.default_format@ == "mp3"@,
            r.recording.default_quality@ == "verylow"@,
            r.recording.auto_detect_enabled,
            r.ui.default_assistant@ == "general"@,
            r.ui.ai_provider == AiProvider::Openai,
    {
        AppConfig::default()
    }
}

} // verus!
