//! The settings of a run, the messages of a conversation, and coloring.

use crate::json::opt_text;
use crate::text::{lemma_without_prefixes, starts_with, trim_start_matches, without_prefixes};
use vstd::prelude::*;

verus! {

/// The model that is asked when no other is chosen.
pub const DEFAULT_MODEL: &'static str = "gemma-4-26b-a4b-it";

/// The bridge script that is run when no other is chosen.
pub const DEFAULT_BRIDGE: &'static str = "scripts/gemma_stream.py";

/// The settings of a run.
pub struct Config {
    /// The name of the model.
    pub model: String,
    /// The backend: `google` or `ollama`, or whatever the command line says.
    pub provider: String,
    /// Where the Ollama service answers.
    pub ollama_url: String,
    /// The Python interpreter that runs the bridge.
    pub python: String,
    /// The path of the bridge script.
    pub bridge: String,
    /// The sampling temperature, as the decimal number that is sent.
    pub temperature: String,
    /// Whether thought summaries are asked for.
    pub thinking: bool,
    /// Whether colors are off.
    pub plain: bool,
    /// Whether only the renderer is shown.
    pub demo: bool,
    /// The one prompt to run, if any.
    pub prompt: Option<String>,
}

/// What a [`Config`] holds.
#[verifier::ext_equal]
pub struct ConfigView {
    pub model: Seq<char>,
    pub provider: Seq<char>,
    pub ollama_url: Seq<char>,
    pub python: Seq<char>,
    pub bridge: Seq<char>,
    pub temperature: Seq<char>,
    pub thinking: bool,
    pub plain: bool,
    pub demo: bool,
    pub prompt: Option<Seq<char>>,
}

impl View for Config {
    type V = ConfigView;

    open spec fn view(&self) -> ConfigView {
        ConfigView {
            model: self.model@,
            provider: self.provider@,
            ollama_url: self.ollama_url@,
            python: self.python@,
            bridge: self.bridge@,
            temperature: self.temperature@,
            thinking: self.thinking,
            plain: self.plain,
            demo: self.demo,
            prompt: opt_text(self.prompt),
        }
    }
}

/// One message of a conversation.
pub struct Message {
    /// Who wrote it: `user` or `model`.
    pub role: String,
    /// What it says.
    pub content: String,
}

/// What a [`Message`] holds.
#[verifier::ext_equal]
pub struct MessageView {
    pub role: Seq<char>,
    pub content: Seq<char>,
}

impl View for Message {
    type V = MessageView;

    open spec fn view(&self) -> MessageView {
        MessageView { role: self.role@, content: self.content@ }
    }
}

/// What the messages of a conversation hold.
pub open spec fn messages(history: Seq<Message>) -> Seq<MessageView> {
    history.map_values(|m: Message| m@)
}

/// `text` in a color, or `text` alone where colors are off.
pub open spec fn painted(plain: bool, text: Seq<char>, color: Seq<char>) -> Seq<char> {
    if plain {
        text
    } else {
        color + text + "\x1b[0m"@
    }
}

/// `text` between the code `color` and the code that ends all colors, or
/// `text` alone where colors are off.
pub fn paint(config: &Config, text: &str, color: &str) -> (r: String)
    ensures
        r@ == painted(config@.plain, text@, color@),
{
    if config.plain {
        text.to_owned()
    } else {
        let mut r = color.to_owned();
        r.append(text);
        r.append("\x1b[0m");
        r
    }
}

/// Another model chosen by name. A name that begins with `ollama:` chooses the
/// provider too, and is the model's name without that prefix.
pub open spec fn with_model(config: ConfigView, name: Seq<char>) -> ConfigView {
    ConfigView {
        model: without_prefixes(name, "ollama:"@),
        provider: if "ollama:"@.is_prefix_of(name) {
            "ollama"@
        } else {
            config.provider
        },
        ..config
    }
}

impl Config {
    /// Chooses another model, and says whether the name chose a provider too.
    pub fn choose_model(&mut self, name: &str) -> (prefixed: bool)
        ensures
            final(self)@ == with_model(old(self)@, name@),
            prefixed == "ollama:"@.is_prefix_of(name@),
    {
        let prefixed = starts_with(name, "ollama:");
        if prefixed {
            self.provider = "ollama".to_owned();
            self.model = trim_start_matches(name, "ollama:");
        } else {
            self.model = name.to_owned();
        }
        prefixed
    }
}

/// Choosing a model by a name without a provider in front changes the model to
/// that name and nothing else. With `ollama:` in front, whatever the name, the
/// provider is Ollama, and all else is as if the name stood alone.
pub proof fn law_choosing_a_model(config: ConfigView, name: Seq<char>)
    ensures
        !"ollama:"@.is_prefix_of(name) ==> with_model(config, name) == (ConfigView {
            model: name,
            ..config
        }),
        with_model(config, "ollama:"@ + name) == (ConfigView {
            provider: "ollama"@,
            ..with_model(config, name)
        }),
{
    reveal_strlit("ollama:");
    let p = "ollama:"@;
    assert(p.is_prefix_of(p + name));
    assert((p + name).skip(p.len() as int) == name);
}

/// Where colors are on, a painted text stands between its color and the code
/// that ends it, and where they are off, the text stands alone.
pub proof fn law_painting(text: Seq<char>, color: Seq<char>)
    ensures
        painted(true, text, color) == text,
        painted(false, text, color) == color + text + "\x1b[0m"@,
{
}

/// A model that was chosen by name has no provider in front of its name, and
/// choosing it changes nothing but the model and the provider.
pub proof fn law_chosen_model_has_no_prefix(config: ConfigView, name: Seq<char>)
    ensures
        !"ollama:"@.is_prefix_of(with_model(config, name).model),
        with_model(config, name) == (ConfigView {
            model: with_model(config, name).model,
            provider: with_model(config, name).provider,
            ..config
        }),
{
    reveal_strlit("ollama:");
    lemma_without_prefixes(name, "ollama:"@);
}

} // verus!
