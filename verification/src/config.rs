//! Startup configuration: the five required settings, validated fail-fast.
//! Reading the environment is left to the surrounding program; this module
//! decides whether the values it found make a configuration, and which
//! descriptive error to abort with when they do not.

use vstd::prelude::*;
use vstd::string::StringExecFns;

verus! {

/// The byte '+', the one sign a port text may start with.
pub const PLUS: u8 = 43;

/// The byte '0'.
pub const DIGIT_ZERO: u8 = 48;

/// The byte '9'.
pub const DIGIT_NINE: u8 = 57;

/// The largest port number: the largest 16-bit value.
pub const PORT_MAX: u32 = 65535;

/// A digit string: nonempty, decimal digits only.
pub open spec fn is_digits(s: Seq<u8>) -> bool {
    s.len() > 0 && forall|j: int|
        0 <= j < s.len() ==> (DIGIT_ZERO <= #[trigger] s[j] && s[j] <= DIGIT_NINE)
}

/// The number that a digit string denotes in decimal.
pub open spec fn dec_value(s: Seq<u8>) -> nat
    decreases s.len(),
{
    if s.len() == 0 {
        0
    } else {
        dec_value(s.drop_last()) * 10 + (if DIGIT_ZERO <= s.last() <= DIGIT_NINE {
            (s.last() - DIGIT_ZERO) as nat
        } else {
            0
        })
    }
}

/// The digits of a port text: what follows the optional leading '+'.
pub open spec fn port_digits(s: Seq<u8>) -> Seq<u8> {
    if s.len() > 0 && s[0] == PLUS {
        s.subrange(1, s.len() as int)
    } else {
        s
    }
}

/// A valid port text: an optional '+', then decimal digits whose value fits
/// in 16 bits.
pub open spec fn is_port_text(s: Seq<u8>) -> bool {
    is_digits(port_digits(s)) && dec_value(port_digits(s)) <= PORT_MAX
}

/// Parses a port number from its text, exactly when the text is a valid
/// port text.
pub fn parse_port(text: &[u8]) -> (r: Option<u16>)
    ensures
        match r {
            Some(v) => is_port_text(text@) && v as nat == dec_value(port_digits(text@)),
            None => !is_port_text(text@),
        },
{
    let n = text.len();
    let start: usize = if n > 0 && text[0] == PLUS {
        1
    } else {
        0
    };
    proof {
        if text@.len() > 0 && text@[0] == PLUS {
            assert(port_digits(text@) == text@.subrange(1, n as int));
        } else {
            assert(port_digits(text@) =~= text@.subrange(0, n as int));
        }
    }
    if start >= n {
        return None;
    }
    let mut acc: u32 = 0;
    let mut i = start;
    while i < n
        invariant
            start <= i <= n,
            n == text@.len(),
            start < n,
            port_digits(text@) == text@.subrange(start as int, n as int),
            forall|j: int|
                start <= j < i ==> (DIGIT_ZERO <= #[trigger] text@[j] && text@[j] <= DIGIT_NINE),
            ({
                let sofar = dec_value(text@.subrange(start as int, i as int));
                (sofar <= PORT_MAX && acc == sofar) || (sofar > PORT_MAX && acc > PORT_MAX)
            }),
        decreases n - i,
    {
        let b = text[i];
        if b < DIGIT_ZERO || b > DIGIT_NINE {
            proof {
                assert(port_digits(text@)[i - start as int] == text@[i as int]);
            }
            return None;
        }
        let d = (b - DIGIT_ZERO) as u32;
        proof {
            assert(text@.subrange(start as int, i as int + 1).drop_last() =~= text@.subrange(
                start as int,
                i as int,
            ));
            assert(text@.subrange(start as int, i as int + 1).last() == text@[i as int]);
        }
        if acc > PORT_MAX {
            acc = PORT_MAX + 1;
        } else {
            acc = acc * 10 + d;
        }
        i = i + 1;
    }
    if acc <= PORT_MAX {
        Some(acc as u16)
    } else {
        None
    }
}

/// What the bridge needs to start: the store's connection string, and the
/// broker's host, port and credentials.
#[derive(Debug)]
pub struct Config {
    pub database_url: String,
    pub mqtt_host: String,
    pub mqtt_port: u16,
    pub mqtt_user: String,
    pub mqtt_pass: String,
}

/// The configuration errors, each one a missing or malformed setting; any
/// of them is fatal at startup.
#[derive(Debug, PartialEq, Eq, Structural)]
pub enum ConfigError {
    MissingDatabaseUrl,
    MissingMqttHost,
    MissingMqttPort,
    InvalidMqttPort,
    MissingMqttUser,
    MissingMqttPass,
}

impl ConfigError {
    /// The spec of the descriptive message of each error.
    pub open spec fn message_spec(&self) -> Seq<char> {
        match self {
            ConfigError::MissingDatabaseUrl => "DATABASE_URL must be set"@,
            ConfigError::MissingMqttHost => "MQTT_HOST must be set"@,
            ConfigError::MissingMqttPort => "MQTT_PORT must be set"@,
            ConfigError::InvalidMqttPort => "MQTT_PORT must be a valid port number"@,
            ConfigError::MissingMqttUser => "MQTT_USER must be set"@,
            ConfigError::MissingMqttPass => "MQTT_PASS must be set"@,
        }
    }

    /// The descriptive message to abort with.
    pub fn message(&self) -> (r: String)
        ensures
            r@ == self.message_spec(),
    {
        match self {
            ConfigError::MissingDatabaseUrl => String::from_str("DATABASE_URL must be set"),
            ConfigError::MissingMqttHost => String::from_str("MQTT_HOST must be set"),
            ConfigError::MissingMqttPort => String::from_str("MQTT_PORT must be set"),
            ConfigError::InvalidMqttPort => String::from_str(
                "MQTT_PORT must be a valid port number",
            ),
            ConfigError::MissingMqttUser => String::from_str("MQTT_USER must be set"),
            ConfigError::MissingMqttPass => String::from_str("MQTT_PASS must be set"),
        }
    }
}

/// Builds the configuration from the values the environment held, in the
/// order the settings are read: the first missing or malformed one names
/// the error.
pub fn build_config(
    database_url: Option<String>,
    mqtt_host: Option<String>,
    mqtt_port: Option<Vec<u8>>,
    mqtt_user: Option<String>,
    mqtt_pass: Option<String>,
) -> (r: Result<Config, ConfigError>)
    ensures
        match r {
            Ok(c) => {
                &&& database_url matches Some(u) && c.database_url == u
                &&& mqtt_host matches Some(h) && c.mqtt_host == h
                &&& mqtt_port matches Some(p) && is_port_text(p@) && c.mqtt_port as nat
                    == dec_value(port_digits(p@))
                &&& mqtt_user matches Some(us) && c.mqtt_user == us
                &&& mqtt_pass matches Some(pw) && c.mqtt_pass == pw
            },
            Err(e) => {
                &&& (e == ConfigError::MissingDatabaseUrl <==> database_url is None)
                &&& (e == ConfigError::MissingMqttHost <==> database_url is Some
                    && mqtt_host is None)
                &&& (e == ConfigError::MissingMqttPort <==> database_url is Some
                    && mqtt_host is Some && mqtt_port is None)
                &&& (e == ConfigError::InvalidMqttPort <==> database_url is Some
                    && mqtt_host is Some && (mqtt_port matches Some(p) && !is_port_text(p@)))
                &&& (e == ConfigError::MissingMqttUser <==> database_url is Some
                    && mqtt_host is Some && (mqtt_port matches Some(p) && is_port_text(p@))
                    && mqtt_user is None)
                &&& (e == ConfigError::MissingMqttPass <==> database_url is Some
                    && mqtt_host is Some && (mqtt_port matches Some(p) && is_port_text(p@))
                    && mqtt_user is Some && mqtt_pass is None)
            },
        },
{
    let database_url = match database_url {
        Some(u) => u,
        None => {
            return Err(ConfigError::MissingDatabaseUrl);
        },
    };
    let mqtt_host = match mqtt_host {
        Some(h) => h,
        None => {
            return Err(ConfigError::MissingMqttHost);
        },
    };
    let port_text = match mqtt_port {
        Some(p) => p,
        None => {
            return Err(ConfigError::MissingMqttPort);
        },
    };
    let mqtt_port = match parse_port(port_text.as_slice()) {
        Some(v) => v,
        None => {
            return Err(ConfigError::InvalidMqttPort);
        },
    };
    let mqtt_user = match mqtt_user {
        Some(us) => us,
        None => {
            return Err(ConfigError::MissingMqttUser);
        },
    };
    let mqtt_pass = match mqtt_pass {
        Some(pw) => pw,
        None => {
            return Err(ConfigError::MissingMqttPass);
        },
    };
    Ok(Config { database_url, mqtt_host, mqtt_port, mqtt_user, mqtt_pass })
}

} // verus!
