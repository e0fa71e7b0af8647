//! The keyboard controls of the terminal console: what each command does
//! to the run state, the speed and the help overlay.

use vstd::prelude::*;

verus! {

/// A command of the console's keyboard controls.
#[derive(Debug, Clone, Copy, PartialEq, Eq, Hash, Structural)]
pub enum Command {
    /// Stop and leave the console.
    Quit,
    /// Step one tick.
    Step,
    /// Start or pause the automatic run.
    ToggleRun,
    /// Shorten the delay between automatic ticks.
    Faster,
    /// Lengthen the delay between automatic ticks.
    Slower,
    /// Show or hide the help overlay.
    ToggleHelp,
    /// A key without a command.
    Ignore,
}

/// A key press as the console reads it.
#[derive(Debug, Clone, Copy, PartialEq, Eq, Hash, Structural)]
pub enum Key {
    /// A key that types a character.
    Char(char),
    /// The escape key.
    Esc,
    /// Any other key.
    Other,
}

/// The command a key stands for: `q` or Esc quit, space or `n` steps, `r`
/// starts or pauses the run, `+` or `=` speeds up, `-` slows down, `?` or
/// `h` shows or hides the help; every other key has no command.
pub open spec fn key_command(key: Key) -> Command {
    match key {
        Key::Esc => Command::Quit,
        Key::Char(c) => if c == 'q' {
            Command::Quit
        } else if c == ' ' || c == 'n' {
            Command::Step
        } else if c == 'r' {
            Command::ToggleRun
        } else if c == '+' || c == '=' {
            Command::Faster
        } else if c == '-' {
            Command::Slower
        } else if c == '?' || c == 'h' {
            Command::ToggleHelp
        } else {
            Command::Ignore
        },
        Key::Other => Command::Ignore,
    }
}

/// The command a key stands for.
pub fn command_for(key: Key) -> (cmd: Command)
    ensures
        cmd == key_command(key),
{
    match key {
        Key::Esc => Command::Quit,
        Key::Char(c) => {
            if c == 'q' {
                Command::Quit
            } else if c == ' ' || c == 'n' {
                Command::Step
            } else if c == 'r' {
                Command::ToggleRun
            } else if c == '+' || c == '=' {
                Command::Faster
            } else if c == '-' {
                Command::Slower
            } else if c == '?' || c == 'h' {
                Command::ToggleHelp
            } else {
                Command::Ignore
            }
        },
        Key::Other => Command::Ignore,
    }
}

/// The state of the console's controls.
#[derive(Debug, Clone, Copy, PartialEq, Eq, Structural)]
pub struct Controls {
    /// Whether ticks run on their own.
    pub running: bool,
    /// Milliseconds between automatic ticks.
    pub tick_delay: u64,
    /// Whether the help overlay is shown.
    pub show_help: bool,
}

/// The shortest delay between automatic ticks, in milliseconds.
pub const MIN_TICK_DELAY: u64 = 20;

/// The longest delay between automatic ticks, in milliseconds.
pub const MAX_TICK_DELAY: u64 = 500;

/// How much one speed command changes the delay, in milliseconds.
pub const TICK_DELAY_STEP: u64 = 20;

/// The delay after a `Faster` command: 20 ms shorter, but not below 20 ms.
pub open spec fn faster_delay(d: u64) -> u64 {
    let shorter: int = if d >= TICK_DELAY_STEP { d - TICK_DELAY_STEP } else { 0 };
    if shorter < MIN_TICK_DELAY {
        MIN_TICK_DELAY
    } else {
        shorter as u64
    }
}

/// The delay after a `Slower` command: 20 ms longer, but not above 500 ms.
pub open spec fn slower_delay(d: u64) -> u64 {
    let longer: int = if d + TICK_DELAY_STEP <= u64::MAX { d + TICK_DELAY_STEP } else { u64::MAX as int };
    if longer > MAX_TICK_DELAY {
        MAX_TICK_DELAY
    } else {
        longer as u64
    }
}

/// The controls after `cmd`, leaving the help overlay aside.
pub open spec fn after_command_itself(c: Controls, cmd: Command) -> Controls {
    match cmd {
        Command::Quit => Controls { running: false, ..c },
        Command::ToggleRun => Controls { running: !c.running, ..c },
        Command::Faster => Controls { tick_delay: faster_delay(c.tick_delay), ..c },
        Command::Slower => Controls { tick_delay: slower_delay(c.tick_delay), ..c },
        Command::ToggleHelp => Controls { show_help: !c.show_help, ..c },
        Command::Step | Command::Ignore => c,
    }
}

/// The controls after `cmd`: while the help overlay is shown, any key
/// closes it, whatever else its command does.
pub open spec fn after_command(c: Controls, cmd: Command) -> Controls {
    let next = after_command_itself(c, cmd);
    if c.show_help && cmd != Command::ToggleHelp {
        Controls { show_help: false, ..next }
    } else {
        next
    }
}

impl Controls {
    /// The controls when the console starts: paused, 100 ms between
    /// automatic ticks, help hidden.
    pub open spec fn spec_initial() -> Controls {
        Controls { running: false, tick_delay: 100, show_help: false }
    }

    /// Paused, 100 ms between automatic ticks, help hidden.
    pub fn new() -> (c: Self)
        ensures
            c == Controls::spec_initial(),
    {
        Controls { running: false, tick_delay: 100, show_help: false }
    }

    /// Carries out `cmd`, closing the help overlay if it is shown and `cmd`
    /// does not toggle it; returns whether the caller is to step one tick.
    pub fn apply(&mut self, cmd: Command) -> (step: bool)
        ensures
            *final(self) == after_command(*old(self), cmd),
            step == (cmd == Command::Step),
    {
        let closes_help = self.show_help && cmd != Command::ToggleHelp;
        let step = match cmd {
            Command::Quit => {
                self.running = false;
                false
            },
            Command::Step => true,
            Command::ToggleRun => {
                self.running = !self.running;
                false
            },
            Command::Faster => {
                let shorter = self.tick_delay.saturating_sub(TICK_DELAY_STEP);
                self.tick_delay = if shorter < MIN_TICK_DELAY {
                    MIN_TICK_DELAY
                } else {
                    shorter
                };
                false
            },
            Command::Slower => {
                let longer = self.tick_delay.saturating_add(TICK_DELAY_STEP);
                self.tick_delay = if longer > MAX_TICK_DELAY {
                    MAX_TICK_DELAY
                } else {
                    longer
                };
                false
            },
            Command::ToggleHelp => {
                self.show_help = !self.show_help;
                false
            },
            Command::Ignore => false,
        };
        if closes_help {
            self.show_help = false;
        }
        step
    }
}

/// The delay between automatic ticks never leaves the range from 20 to
/// 500 ms once it is in it, whatever the command; the console starts in
/// that range.
pub proof fn lemma_delay_stays_in_range(c: Controls, cmd: Command)
    requires
        MIN_TICK_DELAY <= c.tick_delay <= MAX_TICK_DELAY,
    ensures
        MIN_TICK_DELAY <= after_command(c, cmd).tick_delay <= MAX_TICK_DELAY,
        MIN_TICK_DELAY <= Controls::spec_initial().tick_delay <= MAX_TICK_DELAY,
{
}

/// Speeding up and slowing down undo each other away from the ends of the
/// range.
pub proof fn lemma_speed_commands_undo(d: u64)
    requires
        MIN_TICK_DELAY + TICK_DELAY_STEP <= d <= MAX_TICK_DELAY,
    ensures
        slower_delay(faster_delay(d)) == d,
{
}

} // verus!
