//! The user's settings: ad blocking and the search engine.
use vstd::prelude::*;
use crate::text::str_eq;

verus! {

/// The search engines one can choose: DuckDuckGo, Google and Bing.
pub open spec fn is_known_engine(engine: Seq<char>) -> bool {
    engine == "ddg"@ || engine == "google"@ || engine == "bing"@
}

/// Whether `engine` names one of the offered search engines.
pub fn is_valid_engine(engine: &str) -> (r: bool)
    ensures
        r == is_known_engine(engine@),
{
    str_eq(engine, "ddg") || str_eq(engine, "google") || str_eq(engine, "bing")
}

/// Why a setting was refused.
#[derive(Clone, Copy, Debug, PartialEq, Eq, Structural)]
pub enum SettingsError {
    /// The engine is not one of those offered.
    UnknownEngine,
}

impl SettingsError {
    /// The message shown to the user.
    pub fn message(&self) -> (r: String)
        ensures
            r@ == "Motor de búsqueda no válido"@,
    {
        match self {
            SettingsError::UnknownEngine => String::from_str("Motor de búsqueda no válido"),
        }
    }
}

/// The settings kept between sessions.
pub struct Settings {
    pub adblock: bool,
    pub engine: String,
}

impl Settings {
    /// The settings of a first start: ad blocking on, Google.
    pub fn defaults() -> (r: Settings)
        ensures
            r.adblock,
            r.engine@ == "google"@,
    {
        Settings { adblock: true, engine: String::from_str("google") }
    }

    /// The settings to start with: those read from disk, or the defaults when
    /// they could not be read or parsed.
    pub fn loaded(from_disk: Option<Settings>) -> (r: Settings)
        ensures
            match from_disk {
                Some(s) => r == s,
                None => r.adblock && r.engine@ == "google"@,
            },
    {
        match from_disk {
            Some(s) => s,
            None => Settings::defaults(),
        }
    }

    /// Chooses the search engine. An unknown engine is refused and nothing
    /// changes; otherwise the previous engine is returned, so that a failed
    /// save can put it back.
    pub fn set_engine(&mut self, engine: String) -> (r: Result<String, SettingsError>)
        ensures
            !is_known_engine(engine@) ==> r == Err::<String, SettingsError>(
                SettingsError::UnknownEngine,
            ) && *final(self) == *old(self),
            is_known_engine(engine@) ==> (r matches Ok(previous) && previous == old(self).engine
                && final(self).engine == engine && final(self).adblock == old(self).adblock),
    {
        if !is_valid_engine(engine.as_str()) {
            return Err(SettingsError::UnknownEngine);
        }
        let mut previous = engine;
        std::mem::swap(&mut previous, &mut self.engine);
        Ok(previous)
    }

    /// Turns ad blocking on or off; returns the previous value, so that a
    /// failed save can put it back.
    pub fn set_adblock(&mut self, enabled: bool) -> (r: bool)
        ensures
            r == old(self).adblock,
            final(self).adblock == enabled,
            final(self).engine == old(self).engine,
    {
        let previous = self.adblock;
        self.adblock = enabled;
        previous
    }
}

} // verus!
