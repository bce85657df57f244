//! The remote time-tracking endpoint: its configuration and the requests
//! that carry completed intervals to it.
use vstd::prelude::*;
use vstd::string::*;

verus! {

/// The mathematical value of a [`TimetaggerConfig`].
pub struct TimetaggerConfigView {
    pub timetagger_url: Seq<char>,
    pub api_key: Seq<char>,
}

/// Where records are sent and with which token; an empty string means unset.
#[derive(Debug)]
pub struct TimetaggerConfig {
    pub timetagger_url: String,
    pub api_key: String,
}

impl View for TimetaggerConfig {
    type V = TimetaggerConfigView;

    open spec fn view(&self) -> TimetaggerConfigView {
        TimetaggerConfigView { timetagger_url: self.timetagger_url@, api_key: self.api_key@ }
    }
}

impl Default for TimetaggerConfig {
    /// Neither the address nor the token is set.
    fn default() -> (r: TimetaggerConfig)
        ensures
            r@.timetagger_url == Seq::<char>::empty(),
            r@.api_key == Seq::<char>::empty(),
    {
        TimetaggerConfig { timetagger_url: String::new(), api_key: String::new() }
    }
}

impl TimetaggerConfig {
    /// A copy with the same address and token.
    pub fn duplicate(&self) -> (r: TimetaggerConfig)
        ensures
            r@ == self@,
    {
        TimetaggerConfig { timetagger_url: self.timetagger_url.clone(), api_key: self.api_key.clone() }
    }

    /// Both the address and the token are set.
    pub fn is_configured(&self) -> (r: bool)
        ensures
            r == (self@.timetagger_url.len() > 0 && self@.api_key.len() > 0),
    {
        !self.timetagger_url.as_str().is_empty() && !self.api_key.as_str().is_empty()
    }
}

/// One of the two settings of the endpoint configuration.
#[derive(Debug, Clone, Copy, PartialEq, Eq, Structural)]
pub enum Setting {
    ApiKey,
    Url,
}

/// The value of `setting` in `config`.
pub open spec fn setting_of(config: TimetaggerConfigView, setting: Setting) -> Seq<char> {
    match setting {
        Setting::ApiKey => config.api_key,
        Setting::Url => config.timetagger_url,
    }
}

/// `s` without leading and trailing whitespace, as `str::trim` gives it.
pub uninterp spec fn trimmed_of(s: Seq<char>) -> Seq<char>;

/// Relies on `str::trim`: the text with leading and trailing whitespace removed.
#[verifier::external_body]
fn trim_whitespace(s: &str) -> (r: String)
    ensures
        r@ == trimmed_of(s@),
{
    s.trim().to_string()
}

/// The question asked for `setting`.
pub open spec fn prompt_text(setting: Setting, unset: bool) -> Seq<char> {
    let base = match setting {
        Setting::ApiKey => "Provide your Timetagger api_key"@,
        Setting::Url => "Provide your Timetagger URL"@,
    };
    if unset {
        base + "\n leave blank to skip"@
    } else {
        base
    }
}

impl TimetaggerConfig {
    /// Whether setup asks for `setting`: always in setup mode, otherwise
    /// only while it is unset.
    pub fn should_prompt(&self, setting: Setting, setup: bool) -> (r: bool)
        ensures
            r == (setup || setting_of(self@, setting).len() == 0),
    {
        let value = match setting {
            Setting::ApiKey => &self.api_key,
            Setting::Url => &self.timetagger_url,
        };
        setup || value.as_str().is_empty()
    }

    /// The question asked for `setting`; while it is unset the question
    /// says that a blank answer skips it.
    pub fn prompt_message(&self, setting: Setting) -> (r: String)
        ensures
            r@ == prompt_text(setting, setting_of(self@, setting).len() == 0),
    {
        let mut message = match setting {
            Setting::ApiKey => String::from_str("Provide your Timetagger api_key"),
            Setting::Url => String::from_str("Provide your Timetagger URL"),
        };
        let unset = match setting {
            Setting::ApiKey => self.api_key.as_str().is_empty(),
            Setting::Url => self.timetagger_url.as_str().is_empty(),
        };
        if unset {
            message.append("\n leave blank to skip");
        }
        message
    }

    /// Takes an answer for `setting`: with surrounding whitespace removed, a
    /// non-empty answer replaces the setting, a blank one is skipped. Returns
    /// whether the configuration changed and is to be saved.
    pub fn apply_answer(&mut self, setting: Setting, answer: &str) -> (changed: bool)
        ensures
            changed == (trimmed_of(answer@).len() > 0),
            changed ==> setting_of(final(self)@, setting) == trimmed_of(answer@),
            !changed ==> final(self)@ == old(self)@,
            setting == Setting::ApiKey ==> final(self)@.timetagger_url == old(self)@.timetagger_url,
            setting == Setting::Url ==> final(self)@.api_key == old(self)@.api_key,
    {
        self.apply_trimmed(setting, trim_whitespace(answer))
    }

    /// Takes an answer for `setting` whose surrounding whitespace is already
    /// removed: a non-empty one replaces the setting, an empty one is
    /// skipped. Returns whether the configuration changed.
    pub fn apply_trimmed(&mut self, setting: Setting, value: String) -> (changed: bool)
        ensures
            changed == (value@.len() > 0),
            changed ==> setting_of(final(self)@, setting) == value@,
            !changed ==> final(self)@ == old(self)@,
            setting == Setting::ApiKey ==> final(self)@.timetagger_url == old(self)@.timetagger_url,
            setting == Setting::Url ==> final(self)@.api_key == old(self)@.api_key,
    {
        if value.as_str().is_empty() {
            return false;
        }
        match setting {
            Setting::ApiKey => self.api_key = value,
            Setting::Url => self.timetagger_url = value,
        }
        true
    }
}

} // verus!
