//! The device emulators: a socket that answers the line protocol, and the
//! configuration and random sequence of a thermometer that sends readings.
use vstd::prelude::*;
use vstd::string::*;
use crate::device::SocketView;
use crate::text::{parse_u64, parsed_u64, text_equal, trim_text, trimmed, uppercase_text, uppercased};

verus! {

/// The state after a command and the reply to it. The command is the line
/// received, trimmed and in upper case.
pub open spec fn emulator_step(s: SocketView, command: Seq<char>) -> (SocketView, Seq<char>) {
    if command == "ON"@ {
        (SocketView { enabled: true, power_when_on: s.power_when_on }, "OK"@)
    } else if command == "OFF"@ {
        (SocketView { enabled: false, power_when_on: s.power_when_on }, "OK"@)
    } else if command == "STATE"@ {
        (s, if s.enabled { "ON"@ } else { "OFF"@ })
    } else if command == "POWER"@ {
        (s, if s.enabled { s.power_when_on } else { "0"@ })
    } else {
        (s, "ERROR"@)
    }
}

/// The command a received line stands for.
pub open spec fn command_of(line: Seq<char>) -> Seq<char> {
    uppercased(trimmed(line))
}

/// An emulated socket: off until told otherwise.
pub struct EmulatedSocket {
    on: bool,
    power: String,
}

impl View for EmulatedSocket {
    type V = SocketView;

    closed spec fn view(&self) -> SocketView {
        SocketView { enabled: self.on, power_when_on: self.power@ }
    }
}

impl EmulatedSocket {
    /// A socket that is off and reports `power` when on.
    pub fn new(power: String) -> (r: Self)
        ensures
            r@ == (SocketView { enabled: false, power_when_on: power@ }),
    {
        EmulatedSocket { on: false, power }
    }

    /// Handles one received line and gives the reply to send back.
    pub fn respond(&mut self, line: &str) -> (r: String)
        ensures
            (final(self)@, r@) == emulator_step(old(self)@, command_of(line@)),
    {
        let trimmed_line = trim_text(line);
        let command = uppercase_text(trimmed_line.as_str());
        self.execute(command.as_str())
    }

    /// Carries out `command` (a received line, already trimmed and in
    /// upper case) and gives the reply.
    pub fn execute(&mut self, command: &str) -> (r: String)
        ensures
            (final(self)@, r@) == emulator_step(old(self)@, command@),
    {
        if text_equal(command, "ON") {
            self.on = true;
            String::from_str("OK")
        } else if text_equal(command, "OFF") {
            self.on = false;
            String::from_str("OK")
        } else if text_equal(command, "STATE") {
            if self.on {
                String::from_str("ON")
            } else {
                String::from_str("OFF")
            }
        } else if text_equal(command, "POWER") {
            if self.on {
                self.power.clone()
            } else {
                String::from_str("0")
            }
        } else {
            String::from_str("ERROR")
        }
    }
}

/// Where a thermometer emulator sends its readings, and how often.
#[derive(Debug, Clone, PartialEq)]
pub struct ThermometerConfig {
    pub target_addr: String,
    pub period_ms: u64,
}

/// Why a thermometer configuration was refused.
#[derive(Debug, Clone, Copy, PartialEq, Eq)]
pub enum ConfigError {
    /// Fewer than two lines.
    MissingLines,
    /// The second line is not a number of milliseconds.
    InvalidPeriod,
}

/// Reads a configuration: the first line is the target address, the second
/// the period in milliseconds; further lines are ignored.
pub fn parse_config(lines: &Vec<String>) -> (r: Result<ThermometerConfig, ConfigError>)
    ensures
        lines@.len() < 2 ==> r == Err::<ThermometerConfig, ConfigError>(ConfigError::MissingLines),
        lines@.len() >= 2 ==> match r {
            Ok(c) => {
                &&& c.target_addr@ == lines@[0]@
                &&& parsed_u64(lines@[1]@) == Some(c.period_ms)
            },
            Err(e) => e == ConfigError::InvalidPeriod && parsed_u64(lines@[1]@) is None,
        },
{
    if lines.len() < 2 {
        return Err(ConfigError::MissingLines);
    }
    match parse_u64(lines[1].as_str()) {
        Some(period_ms) => Ok(ThermometerConfig { target_addr: lines[0].clone(), period_ms }),
        None => Err(ConfigError::InvalidPeriod),
    }
}

/// The next state of the emulator's linear congruential generator:
/// `seed * 6364136223846793005 + 1`, modulo 2^64.
pub open spec fn lcg_next(seed: u64) -> u64 {
    ((seed * 6364136223846793005int + 1) % 0x1_0000_0000_0000_0000int) as u64
}

/// Advances the emulator's random sequence by one step.
pub fn next_seed(seed: u64) -> (r: u64)
    ensures
        r == lcg_next(seed),
{
    let product = seed.wrapping_mul(6364136223846793005);
    let r = product.wrapping_add(1);
    proof {
        let m: int = 0x1_0000_0000_0000_0000;
        let x: int = seed * 6364136223846793005int;
        vstd::arithmetic::div_mod::lemma_add_mod_noop(x, 1, m);
        assert(product as int == x % m);
        assert(1int % m == 1);
        assert((product as int + 1) % m == (x + 1) % m);
    }
    r
}

} // verus!
