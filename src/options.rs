//! The bot's options.
use vstd::prelude::*;

verus! {

#[derive(Clone, Copy)]
pub struct Options {
    pub features: Features,
    pub exec_options: Exec,
    pub bot: Bot,
}

/// Which parts of the bot run.
#[derive(Clone, Copy)]
pub struct Features {
    pub eye: bool,
    pub custom_commands: bool,
    pub counters: bool,
    pub listeners: bool,
}

#[derive(Clone, Copy)]
pub struct Exec {
    pub debug: bool,
}

#[derive(Clone, Copy)]
pub struct Bot {
    /// How many recent messages the bot will not repeat; 0 for none.
    pub duplicate_message_depth: usize,
}

impl Default for Features {
    /// Every part on.
    fn default() -> (r: Features)
        ensures
            r.eye && r.custom_commands && r.counters && r.listeners,
    {
        Features { eye: true, custom_commands: true, counters: true, listeners: true }
    }
}

impl Default for Exec {
    /// No debug output.
    fn default() -> (r: Exec)
        ensures
            !r.debug,
    {
        Exec { debug: false }
    }
}

impl Default for Bot {
    /// No repeat check.
    fn default() -> (r: Bot)
        ensures
            r.duplicate_message_depth == 0,
    {
        Bot { duplicate_message_depth: 0 }
    }
}

impl Default for Options {
    fn default() -> (r: Options)
        ensures
            r.features.eye && r.features.custom_commands && r.features.counters && r.features.listeners,
            !r.exec_options.debug,
            r.bot.duplicate_message_depth == 0,
    {
        Options { features: Features::default(), exec_options: Exec::default(), bot: Bot::default() }
    }
}

} // verus!
