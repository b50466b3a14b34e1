//! The state behind the console client's screens.

use vstd::prelude::*;
use vstd::string::*;

verus! {

/// The dialogue screen. It keeps no state of its own.
#[derive(Debug)]
pub struct DialogueUI {}

impl DialogueUI {
    /// A dialogue screen.
    pub fn new() -> DialogueUI {
        DialogueUI {}
    }
}

/// The settings screen: a volume and a language.
#[derive(Debug)]
pub struct SettingsUI {
    volume: u8,
    language: String,
}

impl SettingsUI {
    /// The volume that is set.
    pub closed spec fn volume(&self) -> u8 {
        self.volume
    }

    /// The language that is set.
    pub closed spec fn language(&self) -> Seq<char> {
        self.language@
    }

    /// The settings a client starts with: volume 50, English.
    pub fn new() -> (ui: SettingsUI)
        ensures
            ui.volume() == 50,
            ui.language() == "English"@,
    {
        SettingsUI { volume: 50, language: "English".to_owned() }
    }

    /// Sets the volume and leaves the language.
    pub fn set_volume(&mut self, volume: u8)
        ensures
            final(self).volume() == volume,
            final(self).language() == old(self).language(),
    {
        self.volume = volume;
    }

    /// Sets the language and leaves the volume.
    pub fn set_language(&mut self, language: String)
        ensures
            final(self).language() == language@,
            final(self).volume() == old(self).volume(),
    {
        self.language = language;
    }

    /// The volume that is set.
    pub fn current_volume(&self) -> (volume: u8)
        ensures
            volume == self.volume(),
    {
        self.volume
    }

    /// The language that is set.
    pub fn current_language(&self) -> (language: &String)
        ensures
            language@ == self.language(),
    {
        &self.language
    }
}

} // verus!
