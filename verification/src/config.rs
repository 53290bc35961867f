//! The controller's settings, read from environment variables.
use vstd::prelude::*;

use crate::clock::Duration;
use crate::device::LifxId;
use crate::schedule::{TimeOfDay, Timezone};
use crate::text::{split_commas, strip_hex_prefix, trim, u64_from_str_radix};
#[allow(unused_imports)]
use crate::schedule::{clock_reading, zone_exists};
#[allow(unused_imports)]
use crate::text::{
    comma_pieces, parsed_u64, texts, trimmed, u64_error_text, without_hex_prefix,
};

verus! {

pub const DEFAULT_DISCOVERY_INTERVAL_SECS: u64 = 60;

pub const DEFAULT_STATE_POLL_INTERVAL_SECS: u64 = 10;

pub const DEFAULT_COLOR_INTERVAL_SECS: u64 = 600;

pub const DEFAULT_TRANSITION_SECS: u64 = 5;

pub open spec fn default_timezone() -> Seq<char> {
    "America/New_York"@
}

pub open spec fn default_off_time() -> Seq<char> {
    "02:00"@
}

pub open spec fn default_on_time() -> Seq<char> {
    "10:00"@
}

/// An environment variable as the process found it.
#[derive(Debug)]
pub enum EnvVar {
    Value(String),
    NotPresent,
    /// The variable is set to something that is no text; the complaint that was made of it.
    NotUnicode(String),
}

/// An environment variable that is to hold a socket address.
#[derive(Debug)]
pub enum AddrVar {
    Address(String),
    /// The value is no socket address; the complaint that was made of it.
    Refused { value: String, error: String },
    NotSet,
}

/// The environment variables that the controller reads.
#[derive(Debug)]
pub struct Environment {
    /// `SHOCS_LC_BIND`
    pub bind: AddrVar,
    /// `SHOCS_LC_LIFX_BROADCAST`
    pub lifx_broadcast: AddrVar,
    /// `SHOCS_LC_HTTP_BIND`
    pub http_bind: AddrVar,
    /// `DATABASE_URL`
    pub database_url: EnvVar,
    /// `SHOCS_LC_CONTROLLED_IDS`: the lights that start in Test Mode.
    pub controlled_ids: EnvVar,
    /// `SHOCS_LC_DISCOVERY_INTERVAL_SECS`
    pub discovery_interval_secs: EnvVar,
    /// `SHOCS_LC_STATE_POLL_INTERVAL_SECS`
    pub state_poll_interval_secs: EnvVar,
    /// `SHOCS_LC_COLOR_INTERVAL_SECS`
    pub color_interval_secs: EnvVar,
    /// `SHOCS_LC_TRANSITION_SECS`
    pub transition_secs: EnvVar,
    /// `SHOCS_LC_TIMEZONE`
    pub timezone: EnvVar,
    /// `SHOCS_LC_OFF_TIME`
    pub off_time: EnvVar,
    /// `SHOCS_LC_ON_TIME`
    pub on_time: EnvVar,
}

/// The controller's settings.
pub struct Config {
    pub bind_addr: String,
    pub lifx_broadcast_addr: String,
    pub http_bind_addr: String,
    pub database_url: String,
    pub initial_test_ids: Vec<LifxId>,
    pub discovery_interval: Duration,
    pub state_poll_interval: Duration,
    pub color_interval: Duration,
    pub transition: Duration,
    pub timezone: Timezone,
    pub off_time: TimeOfDay,
    pub on_time: TimeOfDay,
}

impl Clone for Config {
    fn clone(&self) -> (r: Config)
        ensures
            r.initial_test_ids@ == self.initial_test_ids@,
            r == (Config { initial_test_ids: r.initial_test_ids, ..*self }),
    {
        let initial_test_ids = self.initial_test_ids.clone();
        assert(initial_test_ids@ =~= self.initial_test_ids@);
        Config {
            bind_addr: self.bind_addr.clone(),
            lifx_broadcast_addr: self.lifx_broadcast_addr.clone(),
            http_bind_addr: self.http_bind_addr.clone(),
            database_url: self.database_url.clone(),
            initial_test_ids,
            discovery_interval: self.discovery_interval,
            state_poll_interval: self.state_poll_interval,
            color_interval: self.color_interval,
            transition: self.transition,
            timezone: self.timezone.clone(),
            off_time: self.off_time,
            on_time: self.on_time,
        }
    }
}

/// Why a configuration was refused.
#[derive(Debug)]
pub struct ConfigError(String);

impl ConfigError {
    pub closed spec fn text(self) -> Seq<char> {
        self.0@
    }

    pub fn message(&self) -> (r: &str)
        ensures
            r@ == self.text(),
    {
        self.0.as_str()
    }
}

pub open spec fn unset_text(name: Seq<char>) -> Seq<char> {
    "required environment variable "@ + name + " is not set"@
}

pub open spec fn invalid_text(name: Seq<char>, value: Seq<char>, error: Seq<char>) -> Seq<char> {
    "invalid "@ + name + " '"@ + value + "': "@ + error
}

/// The value of a variable, unless it is absent or no text.
pub open spec fn value_of(var: EnvVar) -> Option<Seq<char>> {
    match var {
        EnvVar::Value(value) => Some(value@),
        _ => None,
    }
}

pub open spec fn value_or(var: EnvVar, default: Seq<char>) -> Seq<char> {
    match var {
        EnvVar::Value(value) => value@,
        _ => default,
    }
}

/// An address as it was given.
pub open spec fn address_in(name: Seq<char>, var: AddrVar) -> Result<Seq<char>, Seq<char>> {
    match var {
        AddrVar::Address(value) => Ok(value@),
        AddrVar::Refused { value, error } => Err(invalid_text(name, value@, error@)),
        AddrVar::NotSet => Err(unset_text(name)),
    }
}

/// A value that holds more than white space.
pub open spec fn text_in(name: Seq<char>, var: EnvVar) -> Result<Seq<char>, Seq<char>> {
    match value_of(var) {
        None => Err(unset_text(name)),
        Some(value) => if trimmed(value).len() == 0 {
            Err(name + " must not be empty"@)
        } else {
            Ok(value)
        },
    }
}

/// A decimal number, or the default where the variable is absent.
pub open spec fn number_in(name: Seq<char>, var: EnvVar, default: u64) -> Result<u64, Seq<char>> {
    match var {
        EnvVar::Value(value) => match parsed_u64(value@, 10) {
            Some(number) => Ok(number),
            None => Err(invalid_text(name, value@, u64_error_text(value@, 10))),
        },
        EnvVar::NotPresent => Ok(default),
        EnvVar::NotUnicode(error) => Err("could not read "@ + name + ": "@ + error@),
    }
}

/// The second of the day, or the default where the variable cannot be read.
pub open spec fn time_in(name: Seq<char>, var: EnvVar, default: Seq<char>) -> Result<
    u32,
    Seq<char>,
> {
    let value = value_or(var, default);
    match clock_reading(value) {
        Ok(secs) => Ok(secs),
        Err(error) => Err(invalid_text(name, value, error)),
    }
}

/// The name of a zone, or the default where the variable cannot be read.
pub open spec fn zone_in(var: EnvVar) -> Result<Seq<char>, Seq<char>> {
    let value = value_or(var, default_timezone());
    if zone_exists(value) {
        Ok(value)
    } else {
        Err("invalid SHOCS_LC_TIMEZONE '"@ + value + "'"@)
    }
}

/// An identifier in hexadecimal digits, with or without `0x`.
pub open spec fn id_in(text: Seq<char>) -> Result<LifxId, Seq<char>> {
    match parsed_u64(without_hex_prefix(text), 16) {
        Some(id) => Ok(id),
        None => Err(
            "invalid LIFX ID '"@ + text + "': "@ + u64_error_text(without_hex_prefix(text), 16),
        ),
    }
}

/// The identifiers in the pieces of a list, without the blank pieces; the first bad piece decides
/// the error.
pub open spec fn ids_in_pieces(pieces: Seq<Seq<char>>) -> Result<Seq<LifxId>, Seq<char>>
    decreases pieces.len(),
{
    if pieces.len() == 0 {
        Ok(Seq::empty())
    } else {
        match ids_in_pieces(pieces.drop_last()) {
            Err(error) => Err(error),
            Ok(ids) => {
                let piece = trimmed(pieces.last());
                if piece.len() == 0 {
                    Ok(ids)
                } else {
                    match id_in(piece) {
                        Ok(id) => Ok(ids.push(id)),
                        Err(error) => Err(error),
                    }
                }
            },
        }
    }
}

/// A list of identifiers between commas, at least one.
pub open spec fn ids_in(name: Seq<char>, var: EnvVar) -> Result<Seq<LifxId>, Seq<char>> {
    match value_of(var) {
        None => Err(unset_text(name)),
        Some(value) => match ids_in_pieces(comma_pieces(value)) {
            Err(error) => Err(error),
            Ok(ids) => if ids.len() == 0 {
                Err(name + " must contain at least one LIFX ID"@)
            } else {
                Ok(ids)
            },
        },
    }
}

pub open spec fn nonzero(name: Seq<char>, number: Result<u64, Seq<char>>) -> Result<
    u64,
    Seq<char>,
> {
    if number == Ok::<u64, Seq<char>>(0) {
        Err(name + " must be greater than zero"@)
    } else {
        number
    }
}

/// The error of `a`, else `b`.
pub open spec fn error_or<T>(a: Result<T, Seq<char>>, b: Option<Seq<char>>) -> Option<Seq<char>> {
    match a {
        Err(error) => Some(error),
        Ok(_) => b,
    }
}

impl Environment {
    pub open spec fn discovery_secs(self) -> Result<u64, Seq<char>> {
        number_in(
            "SHOCS_LC_DISCOVERY_INTERVAL_SECS"@,
            self.discovery_interval_secs,
            DEFAULT_DISCOVERY_INTERVAL_SECS,
        )
    }

    pub open spec fn poll_secs(self) -> Result<u64, Seq<char>> {
        number_in(
            "SHOCS_LC_STATE_POLL_INTERVAL_SECS"@,
            self.state_poll_interval_secs,
            DEFAULT_STATE_POLL_INTERVAL_SECS,
        )
    }

    pub open spec fn color_secs(self) -> Result<u64, Seq<char>> {
        number_in(
            "SHOCS_LC_COLOR_INTERVAL_SECS"@,
            self.color_interval_secs,
            DEFAULT_COLOR_INTERVAL_SECS,
        )
    }

    pub open spec fn fade_secs(self) -> Result<u64, Seq<char>> {
        number_in("SHOCS_LC_TRANSITION_SECS"@, self.transition_secs, DEFAULT_TRANSITION_SECS)
    }

    /// The first complaint about the variables, in the order in which they are read. Intervals are
    /// held to be positive only when everything could be read.
    pub open spec fn complaint(self) -> Option<Seq<char>> {
        error_or(
            address_in("SHOCS_LC_BIND"@, self.bind),
            error_or(
                address_in("SHOCS_LC_LIFX_BROADCAST"@, self.lifx_broadcast),
                error_or(
                    address_in("SHOCS_LC_HTTP_BIND"@, self.http_bind),
                    error_or(
                        text_in("DATABASE_URL"@, self.database_url),
                        error_or(
                            ids_in("SHOCS_LC_CONTROLLED_IDS"@, self.controlled_ids),
                            self.complaint_about_times(),
                        ),
                    ),
                ),
            ),
        )
    }

    pub open spec fn complaint_about_times(self) -> Option<Seq<char>> {
        error_or(
            self.discovery_secs(),
            error_or(
                self.poll_secs(),
                error_or(
                    self.color_secs(),
                    error_or(
                        self.fade_secs(),
                        error_or(
                            zone_in(self.timezone),
                            error_or(
                                time_in("SHOCS_LC_OFF_TIME"@, self.off_time, default_off_time()),
                                error_or(
                                    time_in("SHOCS_LC_ON_TIME"@, self.on_time, default_on_time()),
                                    self.complaint_about_zeros(),
                                ),
                            ),
                        ),
                    ),
                ),
            ),
        )
    }

    pub open spec fn complaint_about_zeros(self) -> Option<Seq<char>> {
        error_or(
            nonzero("SHOCS_LC_DISCOVERY_INTERVAL_SECS"@, self.discovery_secs()),
            error_or(
                nonzero("SHOCS_LC_STATE_POLL_INTERVAL_SECS"@, self.poll_secs()),
                error_or(nonzero("SHOCS_LC_COLOR_INTERVAL_SECS"@, self.color_secs()), None),
            ),
        )
    }
}

impl Config {
    /// The settings are the ones that the variables give.
    pub open spec fn holds(self, env: Environment) -> bool {
        &&& Ok::<Seq<char>, Seq<char>>(self.bind_addr@) == address_in("SHOCS_LC_BIND"@, env.bind)
        &&& Ok::<Seq<char>, Seq<char>>(self.lifx_broadcast_addr@) == address_in(
            "SHOCS_LC_LIFX_BROADCAST"@,
            env.lifx_broadcast,
        )
        &&& Ok::<Seq<char>, Seq<char>>(self.http_bind_addr@) == address_in(
            "SHOCS_LC_HTTP_BIND"@,
            env.http_bind,
        )
        &&& Ok::<Seq<char>, Seq<char>>(self.database_url@) == text_in(
            "DATABASE_URL"@,
            env.database_url,
        )
        &&& Ok::<Seq<LifxId>, Seq<char>>(self.initial_test_ids@) == ids_in(
            "SHOCS_LC_CONTROLLED_IDS"@,
            env.controlled_ids,
        )
        &&& env.discovery_secs() matches Ok(secs) && self.discovery_interval@ == secs
            * 1_000_000_000
        &&& env.poll_secs() matches Ok(secs) && self.state_poll_interval@ == secs * 1_000_000_000
        &&& env.color_secs() matches Ok(secs) && self.color_interval@ == secs * 1_000_000_000
        &&& env.fade_secs() matches Ok(secs) && self.transition@ == secs * 1_000_000_000
        &&& Ok::<Seq<char>, Seq<char>>(self.timezone.text()) == zone_in(env.timezone)
        &&& time_in("SHOCS_LC_OFF_TIME"@, env.off_time, default_off_time()) matches Ok(secs)
            && self.off_time.secs() == secs && self.off_time.nanos() == 0
        &&& time_in("SHOCS_LC_ON_TIME"@, env.on_time, default_on_time()) matches Ok(secs)
            && self.on_time.secs() == secs && self.on_time.nanos() == 0
    }

    /// Reads the settings; the first complaint about a variable is the error.
    pub fn from_env(env: &Environment) -> (r: Result<Config, ConfigError>)
        ensures
            match (r, env.complaint()) {
                (Ok(config), None) => {
                    &&& config.holds(*env)
                    &&& config.initial_test_ids@.len() > 0
                    &&& config.discovery_interval@ > 0
                    &&& config.state_poll_interval@ > 0
                    &&& config.color_interval@ > 0
                },
                (Err(err), Some(text)) => err.text() == text,
                _ => false,
            },
    {
        let bind_addr = match required_socket_addr("SHOCS_LC_BIND", &env.bind) {
            Ok(value) => value,
            Err(err) => return Err(err),
        };
        let lifx_broadcast_addr = match required_socket_addr(
            "SHOCS_LC_LIFX_BROADCAST",
            &env.lifx_broadcast,
        ) {
            Ok(value) => value,
            Err(err) => return Err(err),
        };
        let http_bind_addr = match required_socket_addr("SHOCS_LC_HTTP_BIND", &env.http_bind) {
            Ok(value) => value,
            Err(err) => return Err(err),
        };
        let database_url = match required_string("DATABASE_URL", &env.database_url) {
            Ok(value) => value,
            Err(err) => return Err(err),
        };
        let initial_test_ids = match required_lifx_ids(
            "SHOCS_LC_CONTROLLED_IDS",
            &env.controlled_ids,
        ) {
            Ok(value) => value,
            Err(err) => return Err(err),
        };
        let discovery_secs: u64 = match optional_u64(
            "SHOCS_LC_DISCOVERY_INTERVAL_SECS",
            &env.discovery_interval_secs,
            DEFAULT_DISCOVERY_INTERVAL_SECS,
        ) {
            Ok(value) => value,
            Err(err) => return Err(err),
        };
        let poll_secs: u64 = match optional_u64(
            "SHOCS_LC_STATE_POLL_INTERVAL_SECS",
            &env.state_poll_interval_secs,
            DEFAULT_STATE_POLL_INTERVAL_SECS,
        ) {
            Ok(value) => value,
            Err(err) => return Err(err),
        };
        let color_secs: u64 = match optional_u64(
            "SHOCS_LC_COLOR_INTERVAL_SECS",
            &env.color_interval_secs,
            DEFAULT_COLOR_INTERVAL_SECS,
        ) {
            Ok(value) => value,
            Err(err) => return Err(err),
        };
        let transition_secs: u64 = match optional_u64(
            "SHOCS_LC_TRANSITION_SECS",
            &env.transition_secs,
            DEFAULT_TRANSITION_SECS,
        ) {
            Ok(value) => value,
            Err(err) => return Err(err),
        };
        let timezone = match optional_timezone(&env.timezone) {
            Ok(value) => value,
            Err(err) => return Err(err),
        };
        let off_time = match optional_time("SHOCS_LC_OFF_TIME", &env.off_time, "02:00") {
            Ok(value) => value,
            Err(err) => return Err(err),
        };
        let on_time = match optional_time("SHOCS_LC_ON_TIME", &env.on_time, "10:00") {
            Ok(value) => value,
            Err(err) => return Err(err),
        };
        let discovery_interval = Duration::from_secs(discovery_secs);
        let state_poll_interval = Duration::from_secs(poll_secs);
        let color_interval = Duration::from_secs(color_secs);
        let transition = Duration::from_secs(transition_secs);
        if discovery_interval.is_zero() {
            return Err(zero("SHOCS_LC_DISCOVERY_INTERVAL_SECS"));
        }
        if state_poll_interval.is_zero() {
            return Err(zero("SHOCS_LC_STATE_POLL_INTERVAL_SECS"));
        }
        if color_interval.is_zero() {
            return Err(zero("SHOCS_LC_COLOR_INTERVAL_SECS"));
        }
        Ok(
            Config {
                bind_addr,
                lifx_broadcast_addr,
                http_bind_addr,
                database_url,
                initial_test_ids,
                discovery_interval,
                state_poll_interval,
                color_interval,
                transition,
                timezone,
                off_time,
                on_time,
            },
        )
    }
}

fn unset(name: &str) -> (r: ConfigError)
    ensures
        r.text() == unset_text(name@),
{
    ConfigError("required environment variable ".to_string().concat(name).concat(" is not set"))
}

fn zero(name: &str) -> (r: ConfigError)
    ensures
        r.text() == name@ + " must be greater than zero"@,
{
    ConfigError(name.to_string().concat(" must be greater than zero"))
}

fn invalid(name: &str, value: &str, error: &str) -> (r: ConfigError)
    ensures
        r.text() == invalid_text(name@, value@, error@),
{
    ConfigError(
        "invalid ".to_string().concat(name).concat(" '").concat(value).concat("': ").concat(error),
    )
}

/// A value that must be there and hold more than white space.
pub fn required_string(name: &str, var: &EnvVar) -> (r: Result<String, ConfigError>)
    ensures
        match (r, text_in(name@, *var)) {
            (Ok(value), Ok(text)) => value@ == text,
            (Err(err), Err(text)) => err.text() == text,
            _ => false,
        },
{
    match var {
        EnvVar::Value(value) => if trim(value.as_str()).unicode_len() == 0 {
            Err(ConfigError(name.to_string().concat(" must not be empty")))
        } else {
            Ok(value.clone())
        },
        _ => Err(unset(name)),
    }
}

/// A socket address that must be there.
pub fn required_socket_addr(name: &str, var: &AddrVar) -> (r: Result<String, ConfigError>)
    ensures
        match (r, address_in(name@, *var)) {
            (Ok(value), Ok(text)) => value@ == text,
            (Err(err), Err(text)) => err.text() == text,
            _ => false,
        },
{
    match var {
        AddrVar::Address(value) => Ok(value.clone()),
        AddrVar::Refused { value, error } => Err(invalid(name, value.as_str(), error.as_str())),
        AddrVar::NotSet => Err(unset(name)),
    }
}

/// A decimal number, with a default for an absent variable.
pub fn optional_u64(name: &str, var: &EnvVar, default: u64) -> (r: Result<u64, ConfigError>)
    ensures
        match (r, number_in(name@, *var, default)) {
            (Ok(value), Ok(number)) => value == number,
            (Err(err), Err(text)) => err.text() == text,
            _ => false,
        },
{
    match var {
        EnvVar::Value(value) => match u64_from_str_radix(value.as_str(), 10) {
            Ok(number) => Ok(number),
            Err(error) => Err(invalid(name, value.as_str(), error.as_str())),
        },
        EnvVar::NotPresent => Ok(default),
        EnvVar::NotUnicode(error) => Err(
            ConfigError(
                "could not read ".to_string().concat(name).concat(": ").concat(error.as_str()),
            ),
        ),
    }
}

/// A time of day as hours and minutes, with a default for a variable that cannot be read.
pub fn optional_time(name: &str, var: &EnvVar, default: &str) -> (r: Result<TimeOfDay, ConfigError>)
    ensures
        match (r, time_in(name@, *var, default@)) {
            (Ok(time), Ok(secs)) => time.secs() == secs && time.nanos() == 0,
            (Err(err), Err(text)) => err.text() == text,
            _ => false,
        },
{
    let value = match var {
        EnvVar::Value(value) => value.as_str(),
        _ => default,
    };
    match TimeOfDay::parse(value) {
        Ok(time) => Ok(time),
        Err(error) => Err(invalid(name, value, error.as_str())),
    }
}

fn optional_timezone(var: &EnvVar) -> (r: Result<Timezone, ConfigError>)
    ensures
        match (r, zone_in(*var)) {
            (Ok(zone), Ok(name)) => zone.text() == name,
            (Err(err), Err(text)) => err.text() == text,
            _ => false,
        },
{
    let value = match var {
        EnvVar::Value(value) => value.as_str(),
        _ => "America/New_York",
    };
    match Timezone::parse(value) {
        Some(zone) => Ok(zone),
        None => Err(
            ConfigError("invalid SHOCS_LC_TIMEZONE '".to_string().concat(value).concat("'")),
        ),
    }
}

/// A list of identifiers between commas; blank pieces are passed over.
pub fn required_lifx_ids(name: &str, var: &EnvVar) -> (r: Result<Vec<LifxId>, ConfigError>)
    ensures
        match (r, ids_in(name@, *var)) {
            (Ok(ids), Ok(listed)) => ids@ == listed,
            (Err(err), Err(text)) => err.text() == text,
            _ => false,
        },
{
    let value = match var {
        EnvVar::Value(value) => value.as_str(),
        _ => return Err(unset(name)),
    };
    let pieces = split_commas(value);
    let ghost all = comma_pieces(value@);
    let mut ids: Vec<LifxId> = Vec::new();
    assert(all.take(0) =~= Seq::empty());
    for i in 0..pieces.len()
        invariant
            value_of(*var) == Some(value@),
            all == comma_pieces(value@),
            texts(pieces@) == all,
            ids_in_pieces(all.take(i as int)) == Ok::<Seq<LifxId>, Seq<char>>(ids@),
    {
        assert(all.take(i + 1).drop_last() =~= all.take(i as int));
        assert(all[i as int] == pieces@[i as int]@);
        let piece = trim(pieces[i].as_str());
        if piece.unicode_len() > 0 {
            match parse_lifx_id(piece) {
                Ok(id) => ids.push(id),
                Err(err) => {
                    proof {
                        assert(all.take(i + 1).last() == all[i as int]);
                        assert(ids_in_pieces(all.take(i + 1)) == Err::<Seq<LifxId>, Seq<char>>(
                            err.text(),
                        ));
                        bad_piece_decides(all, i + 1);
                    }
                    return Err(err);
                },
            }
        }
    }
    assert(all.take(all.len() as int) =~= all);
    if ids.len() == 0 {
        return Err(ConfigError(name.to_string().concat(" must contain at least one LIFX ID")));
    }
    Ok(ids)
}

proof fn bad_piece_decides(pieces: Seq<Seq<char>>, i: int)
    requires
        0 <= i <= pieces.len(),
        ids_in_pieces(pieces.take(i)) is Err,
    ensures
        ids_in_pieces(pieces) == ids_in_pieces(pieces.take(i)),
    decreases pieces.len(),
{
    if i == pieces.len() {
        assert(pieces.take(i) =~= pieces);
    } else {
        assert(pieces.drop_last().take(i) =~= pieces.take(i));
        bad_piece_decides(pieces.drop_last(), i);
    }
}

/// An identifier in hexadecimal digits, with or without `0x`.
pub fn parse_lifx_id(value: &str) -> (r: Result<LifxId, ConfigError>)
    ensures
        match (r, id_in(value@)) {
            (Ok(id), Ok(read)) => id == read,
            (Err(err), Err(text)) => err.text() == text,
            _ => false,
        },
{
    let hex = strip_hex_prefix(value);
    match u64_from_str_radix(hex, 16) {
        Ok(id) => Ok(id),
        Err(error) => Err(
            ConfigError(
                "invalid LIFX ID '".to_string().concat(value).concat("': ").concat(error.as_str()),
            ),
        ),
    }
}

} // verus!
