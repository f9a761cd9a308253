use vstd::prelude::*;

verus! {

/// The options the machine is started with.
pub struct Config {
    rom_path: String,
    wrapping_enabled: bool,
    font_path: String,
}

/// The mathematical content of a [`Config`].
pub struct ConfigView {
    pub rom_path: Seq<char>,
    pub wrapping_enabled: bool,
    pub font_path: Seq<char>,
}

impl View for Config {
    type V = ConfigView;

    closed spec fn view(&self) -> ConfigView {
        ConfigView {
            rom_path: self.rom_path@,
            wrapping_enabled: self.wrapping_enabled,
            font_path: self.font_path@,
        }
    }
}

impl Config {
    /// Builds a configuration from its three options.
    pub fn new(rom_path: String, wrapping_enabled: bool, font_path: String) -> (config: Config)
        ensures
            config@.rom_path == rom_path@,
            config@.wrapping_enabled == wrapping_enabled,
            config@.font_path == font_path@,
    {
        Config { rom_path, wrapping_enabled, font_path }
    }

    /// Path of the ROM image to run.
    pub fn rom_path(&self) -> (path: &str)
        ensures
            path@ == self@.rom_path,
    {
        self.rom_path.as_str()
    }

    /// Whether sprites wrap around the borders of the screen.
    pub fn wrapping_enabled(&self) -> (enabled: bool)
        ensures
            enabled == self@.wrapping_enabled,
    {
        self.wrapping_enabled
    }

    /// Path of the font used to display diagnostic text.
    pub fn font_path(&self) -> (path: &str)
        ensures
            path@ == self@.font_path,
    {
        self.font_path.as_str()
    }
}

} // verus!
