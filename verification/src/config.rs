//! Process configuration: four optional settings, each with a default.

use vstd::prelude::*;
use vstd::string::*;

verus! {

pub const DEFAULT_SAMPLE_RATE: &'static str = "48000";

pub const DEFAULT_CHANNELS: &'static str = "1";

pub const DEFAULT_HOST: &'static str = "127.0.0.1";

pub const DEFAULT_PORT: &'static str = "3000";

#[derive(Clone, Debug)]
pub struct Config {
    pub audio: AudioConfig,
    pub server: ServerConfig,
}

#[derive(Clone, Debug)]
pub struct AudioConfig {
    pub sample_rate: u32,
    pub channels: u16,
}

#[derive(Clone, Debug)]
pub struct ServerConfig {
    pub host: String,
    pub port: u16,
}

/// The setting that could not be read as a number of its range.
#[derive(Debug, Clone, Copy, PartialEq, Eq, Structural)]
pub enum ConfigError {
    SampleRate,
    Channels,
    Port,
}

pub open spec fn is_digit(c: char) -> bool {
    '0' <= c <= '9'
}

/// The number that a string of decimal digits writes.
pub open spec fn decimal_value(digits: Seq<char>) -> nat
    decreases digits.len(),
{
    if digits.len() == 0 {
        0
    } else {
        decimal_value(digits.drop_last()) * 10 + (digits.last() as nat - '0' as nat) as nat
    }
}

/// What follows an optional leading plus sign.
pub open spec fn unsigned_digits(text: Seq<char>) -> Seq<char> {
    if text.len() > 0 && text[0] == '+' {
        text.skip(1)
    } else {
        text
    }
}

/// The number that `text` writes, if it is one up to `max`: an optional plus
/// sign, then one or more decimal digits and nothing else.
pub open spec fn parse_unsigned(text: Seq<char>, max: nat) -> Option<nat> {
    let digits = unsigned_digits(text);
    if digits.len() > 0 && (forall|i: int| 0 <= i < digits.len() ==> is_digit(#[trigger] digits[i]))
        && decimal_value(digits) <= max {
        Some(decimal_value(digits))
    } else {
        None
    }
}

proof fn lemma_decimal_value_grows(digits: Seq<char>, i: int)
    requires
        0 <= i <= digits.len(),
        forall|j: int| 0 <= j < digits.len() ==> is_digit(#[trigger] digits[j]),
    ensures
        decimal_value(digits.take(i)) <= decimal_value(digits),
    decreases digits.len() - i,
{
    if i < digits.len() {
        lemma_decimal_value_grows(digits, i + 1);
        assert(digits.take(i + 1).drop_last() == digits.take(i));
        assert(is_digit(digits[i]));
    } else {
        assert(digits.take(i) == digits);
    }
}

/// Reads an unsigned decimal number of at most `max`.
pub fn parse_number(text: &str, max: u32) -> (r: Option<u32>)
    ensures
        match parse_unsigned(text@, max as nat) {
            Some(value) => r == Some(value as u32),
            None => r is None,
        },
{
    let len = text.unicode_len();
    let start: usize = if len > 0 && text.get_char(0) == '+' {
        1
    } else {
        0
    };
    if start == len {
        return None;
    }
    let ghost digits = unsigned_digits(text@);
    assert(digits =~= text@.skip(start as int));
    let mut value: u64 = 0;
    let mut i: usize = start;
    while i < len
        invariant
            start <= i <= len,
            len == text@.len(),
            digits == text@.skip(start as int),
            digits == unsigned_digits(text@),
            forall|j: int| 0 <= j < i - start ==> is_digit(#[trigger] digits[j]),
            value == decimal_value(digits.take(i - start)),
            value <= max,
        decreases len - i,
    {
        let c = text.get_char(i);
        assert(c == digits[i - start]);
        if !('0' <= c && c <= '9') {
            assert(!is_digit(digits[i - start]));
            return None;
        }
        let digit: u64 = (c as u32 - '0' as u32) as u64;
        proof {
            let longer = digits.take(i + 1 - start);
            assert(longer.drop_last() == digits.take(i - start));
            assert(longer.last() == c);
            assert(decimal_value(longer) == decimal_value(longer.drop_last()) * 10 + digit);
        }
        value = value * 10 + digit;
        if value > max as u64 {
            proof {
                if forall|j: int| 0 <= j < digits.len() ==> is_digit(#[trigger] digits[j]) {
                    lemma_decimal_value_grows(digits, i + 1 - start);
                }
            }
            return None;
        }
        i += 1;
    }
    proof {
        assert(digits.take(len - start) == digits);
    }
    Some(value as u32)
}

impl Config {
    /// What `from_values` gives for the four settings.
    pub open spec fn resolve(
        sample_rate: Option<Seq<char>>,
        channels: Option<Seq<char>>,
        host: Option<Seq<char>>,
        port: Option<Seq<char>>,
    ) -> Result<(u32, u16, Seq<char>, u16), ConfigError> {
        let rate = parse_unsigned(
            match sample_rate {
                Some(text) => text,
                None => DEFAULT_SAMPLE_RATE@,
            },
            u32::MAX as nat,
        );
        let count = parse_unsigned(
            match channels {
                Some(text) => text,
                None => DEFAULT_CHANNELS@,
            },
            u16::MAX as nat,
        );
        let number = parse_unsigned(
            match port {
                Some(text) => text,
                None => DEFAULT_PORT@,
            },
            u16::MAX as nat,
        );
        if rate is None {
            Err(ConfigError::SampleRate)
        } else if count is None {
            Err(ConfigError::Channels)
        } else if number is None {
            Err(ConfigError::Port)
        } else {
            Ok(
                (
                    rate->0 as u32,
                    count->0 as u16,
                    match host {
                        Some(text) => text,
                        None => DEFAULT_HOST@,
                    },
                    number->0 as u16,
                ),
            )
        }
    }

    /// Builds the configuration from the settings that the environment holds.
    /// A setting that is absent takes its default; the first number that cannot
    /// be read, in the order sample rate, channels, port, is the error.
    pub fn from_values(
        sample_rate: Option<&str>,
        channels: Option<&str>,
        host: Option<&str>,
        port: Option<&str>,
    ) -> (r: Result<Config, ConfigError>)
        ensures
            match Config::resolve(
                match sample_rate {
                    Some(text) => Some(text@),
                    None => None,
                },
                match channels {
                    Some(text) => Some(text@),
                    None => None,
                },
                match host {
                    Some(text) => Some(text@),
                    None => None,
                },
                match port {
                    Some(text) => Some(text@),
                    None => None,
                },
            ) {
                Ok(values) => r matches Ok(config) && config.audio.sample_rate == values.0
                    && config.audio.channels == values.1 && config.server.host@ == values.2
                    && config.server.port == values.3,
                Err(e) => r matches Err(found) && found == e,
            },
    {
        let rate = match parse_number(
            match sample_rate {
                Some(text) => text,
                None => DEFAULT_SAMPLE_RATE,
            },
            u32::MAX,
        ) {
            Some(n) => n,
            None => {
                return Err(ConfigError::SampleRate);
            },
        };
        let count = match parse_number(
            match channels {
                Some(text) => text,
                None => DEFAULT_CHANNELS,
            },
            0xffff,
        ) {
            Some(n) => n as u16,
            None => {
                return Err(ConfigError::Channels);
            },
        };
        let number = match parse_number(
            match port {
                Some(text) => text,
                None => DEFAULT_PORT,
            },
            0xffff,
        ) {
            Some(n) => n as u16,
            None => {
                return Err(ConfigError::Port);
            },
        };
        let host = String::from_str(
            match host {
                Some(text) => text,
                None => DEFAULT_HOST,
            },
        );
        Ok(
            Config {
                audio: AudioConfig { sample_rate: rate, channels: count },
                server: ServerConfig { host, port: number },
            },
        )
    }
}

} // verus!
