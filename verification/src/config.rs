//! The configuration of an instance.
//!
//! The configuration source is a figment. Ignition reads from it the few
//! settings that the lifecycle depends on, each with a default for the case
//! that the source does not hold it, and freezes them.

use figment::Figment;
use vstd::prelude::*;
use vstd::string::*;
use vstd::utf8::encode_utf8;

verus! {

#[verifier::external_type_specification]
#[verifier::external_body]
pub struct ExFigment(figment::Figment);

#[verifier::external_type_specification]
#[verifier::external_body]
pub struct ExFigmentError(figment::Error);

/// What reading one setting from a figment gave.
pub enum Extracted<T> {
    /// The figment holds the setting, and it has the type asked for.
    Found(T),
    /// The figment holds no value for the setting.
    Missing,
    /// The figment failed, or holds a value of another type.
    Invalid(figment::Error),
}

/// The name of the profile that `figment` has selected.
pub uninterp spec fn selected_profile(figment: Figment) -> Seq<char>;

/// What reading the setting `key` of `figment` as a boolean gives.
pub uninterp spec fn extracted_flag(figment: Figment, key: Seq<char>) -> Extracted<bool>;

/// What reading the setting `key` of `figment` as a number gives.
pub uninterp spec fn extracted_number(figment: Figment, key: Seq<char>) -> Extracted<u32>;

/// What reading the setting `key` of `figment` as a string gives.
pub uninterp spec fn extracted_text(figment: Figment, key: Seq<char>) -> Extracted<Seq<char>>;

/// `Figment::new`: a figment without providers. It has the profile
/// `default` selected and holds none of the settings that a configuration is
/// read from.
#[verifier::external_body]
pub(crate) fn empty_figment() -> (r: Figment)
    ensures
        selected_profile(r) == "default"@,
        extracted_flag(r, "secrets"@) is Missing,
        extracted_text(r, "secret_key"@) is Missing,
        extracted_number(r, "shutdown.grace"@) is Missing,
        extracted_number(r, "shutdown.mercy"@) is Missing,
{
    Figment::new()
}

/// `Figment::profile`, as a string: the name of the selected profile, in
/// the case in which it was given.
#[verifier::external_body]
pub(crate) fn profile_of(figment: &Figment) -> (r: String)
    ensures
        r@ == selected_profile(*figment),
{
    String::from(figment.profile().clone())
}

/// `Figment::extract_inner` for a `bool`; an error is told apart by
/// `Error::missing`.
#[verifier::external_body]
pub(crate) fn extract_flag(figment: &Figment, key: &str) -> (r: Extracted<bool>)
    ensures
        r == extracted_flag(*figment, key@),
{
    match figment.extract_inner::<bool>(key) {
        Ok(v) => Extracted::Found(v),
        Err(e) => if e.missing() {
            Extracted::Missing
        } else {
            Extracted::Invalid(e)
        },
    }
}

/// `Figment::extract_inner` for a `u32`; an error is told apart by
/// `Error::missing`.
#[verifier::external_body]
pub(crate) fn extract_number(figment: &Figment, key: &str) -> (r: Extracted<u32>)
    ensures
        r == extracted_number(*figment, key@),
{
    match figment.extract_inner::<u32>(key) {
        Ok(v) => Extracted::Found(v),
        Err(e) => if e.missing() {
            Extracted::Missing
        } else {
            Extracted::Invalid(e)
        },
    }
}

/// `Figment::extract_inner` for a `String`; an error is told apart by
/// `Error::missing`.
#[verifier::external_body]
pub(crate) fn extract_text(figment: &Figment, key: &str) -> (r: Extracted<String>)
    ensures
        match r {
            Extracted::Found(s) => extracted_text(*figment, key@) == Extracted::<
                Seq<char>,
            >::Found(s@),
            Extracted::Missing => extracted_text(*figment, key@) == Extracted::<Seq<char>>::Missing,
            Extracted::Invalid(e) => extracted_text(*figment, key@) == Extracted::<
                Seq<char>,
            >::Invalid(e),
        },
{
    match figment.extract_inner::<String>(key) {
        Ok(v) => Extracted::Found(v),
        Err(e) => if e.missing() {
            Extracted::Missing
        } else {
            Extracted::Invalid(e)
        },
    }
}

/// The grace period, in seconds, of a configuration that names none.
pub const DEFAULT_GRACE: u32 = 2;

/// The mercy period, in seconds, of a configuration that names none.
pub const DEFAULT_MERCY: u32 = 3;

/// How long a graceful shutdown waits, in seconds: the grace period, in
/// which connections are asked to wind down, and the mercy period, in which
/// they are closed.
#[derive(Clone, Copy, Debug, PartialEq, Eq, Structural)]
pub struct ShutdownConfig {
    pub grace: u32,
    pub mercy: u32,
}

/// What a secret key is: its bytes, and whether the configuration gave it.
pub struct SecretKeyView {
    pub key: Seq<u8>,
    pub provided: bool,
}

impl SecretKeyView {
    /// Every byte is zero: the key is as good as none.
    pub open spec fn is_zero(self) -> bool {
        forall|i: int| 0 <= i < self.key.len() ==> self.key[i] == 0
    }

    /// The configuration gave the key, and it is not zero.
    pub open spec fn is_provided(self) -> bool {
        self.provided && !self.is_zero()
    }
}

/// The key that secrets are made with.
pub struct SecretKey {
    key: Vec<u8>,
    provided: bool,
}

impl View for SecretKey {
    type V = SecretKeyView;

    closed spec fn view(&self) -> SecretKeyView {
        SecretKeyView { key: self.key@, provided: self.provided }
    }
}

impl SecretKey {
    /// The key without bytes that stands for no key.
    pub fn zero() -> (r: SecretKey)
        ensures
            r@ == (SecretKeyView { key: Seq::<u8>::empty(), provided: false }),
    {
        SecretKey { key: Vec::new(), provided: false }
    }

    /// The key that a configuration gave, with the bytes `key`.
    pub fn provided(key: Vec<u8>) -> (r: SecretKey)
        ensures
            r@ == (SecretKeyView { key: key@, provided: true }),
    {
        SecretKey { key, provided: true }
    }

    /// A key made for one run, with the bytes `key`.
    pub fn ephemeral(key: Vec<u8>) -> (r: SecretKey)
        ensures
            r@ == (SecretKeyView { key: key@, provided: false }),
    {
        SecretKey { key, provided: false }
    }

    /// The bytes.
    pub fn bytes(&self) -> (r: &Vec<u8>)
        ensures
            r@ == self@.key,
    {
        &self.key
    }

    /// Whether every byte is zero.
    pub fn is_zero(&self) -> (r: bool)
        ensures
            r == self@.is_zero(),
    {
        let mut i: usize = 0;
        while i < self.key.len()
            invariant
                i <= self.key@.len(),
                forall|k: int| 0 <= k < i ==> self.key@[k] == 0,
            decreases self.key.len() - i,
        {
            if self.key[i] != 0 {
                assert(self@.key[i as int] != 0);
                return false;
            }
            i = i + 1;
        }
        true
    }

    /// Whether the configuration gave the key, and it is not zero.
    pub fn is_provided(&self) -> (r: bool)
        ensures
            r == self@.is_provided(),
    {
        self.provided && !self.is_zero()
    }
}

/// What a configuration is.
pub struct ConfigView {
    pub profile: Seq<char>,
    pub secrets: bool,
    pub secret_key: SecretKeyView,
    pub shutdown: ShutdownConfig,
}

/// `profile` is `debug`, in any case of its letters: the one profile in
/// which secrets may be used without a secret key.
pub open spec fn is_debug(profile: Seq<char>) -> bool {
    &&& profile.len() == 5
    &&& (profile[0] == 'd' || profile[0] == 'D')
    &&& (profile[1] == 'e' || profile[1] == 'E')
    &&& (profile[2] == 'b' || profile[2] == 'B')
    &&& (profile[3] == 'u' || profile[3] == 'U')
    &&& (profile[4] == 'g' || profile[4] == 'G')
}

/// The number that was read, or `default` where there was none.
pub open spec fn number_or(read: Extracted<u32>, default: u32) -> u32 {
    match read {
        Extracted::Found(n) => n,
        _ => default,
    }
}

/// The secret key that was read: the bytes of the string, or no key where
/// there was none.
pub open spec fn key_or_zero(read: Extracted<Seq<char>>) -> SecretKeyView {
    match read {
        Extracted::Found(s) => SecretKeyView { key: encode_utf8(s), provided: true },
        _ => SecretKeyView { key: Seq::<u8>::empty(), provided: false },
    }
}

/// The configuration that the four settings give, as they were read, under
/// the profile `profile`. A setting that is missing takes its default. The
/// first setting that is invalid, in the order of the parameters, fails the
/// whole with its error.
pub open spec fn configured(
    profile: Seq<char>,
    secrets: Extracted<bool>,
    secret_key: Extracted<Seq<char>>,
    grace: Extracted<u32>,
    mercy: Extracted<u32>,
) -> Result<ConfigView, figment::Error> {
    if let Extracted::Invalid(e) = secrets {
        Err(e)
    } else if let Extracted::Invalid(e) = secret_key {
        Err(e)
    } else if let Extracted::Invalid(e) = grace {
        Err(e)
    } else if let Extracted::Invalid(e) = mercy {
        Err(e)
    } else {
        Ok(
            ConfigView {
                profile,
                secrets: secrets == Extracted::Found(true),
                secret_key: key_or_zero(secret_key),
                shutdown: ShutdownConfig {
                    grace: number_or(grace, DEFAULT_GRACE),
                    mercy: number_or(mercy, DEFAULT_MERCY),
                },
            },
        )
    }
}

/// The configuration that ignition reads from `figment`.
pub open spec fn configuration_of(figment: Figment) -> Result<ConfigView, figment::Error> {
    configured(
        selected_profile(figment),
        extracted_flag(figment, "secrets"@),
        extracted_text(figment, "secret_key"@),
        extracted_number(figment, "shutdown.grace"@),
        extracted_number(figment, "shutdown.mercy"@),
    )
}

/// The configuration `config` with a secret key that can be used, or the
/// name of its profile if it has none. Without secrets, and with a key that
/// the configuration gave, nothing changes. Else the profile must be
/// `debug`: there a key of zeros is replaced by one made of `ephemeral`.
pub open spec fn secured(config: ConfigView, ephemeral: Seq<u8>) -> Result<ConfigView, Seq<char>> {
    if !config.secrets || config.secret_key.is_provided() {
        Ok(config)
    } else if !is_debug(config.profile) {
        Err(config.profile)
    } else if config.secret_key.is_zero() {
        Ok(ConfigView { secret_key: SecretKeyView { key: ephemeral, provided: false }, ..config })
    } else {
        Ok(config)
    }
}

/// The settings of an ignited instance.
pub struct Config {
    pub profile: String,
    pub secrets: bool,
    pub secret_key: SecretKey,
    pub shutdown: ShutdownConfig,
}

impl View for Config {
    type V = ConfigView;

    open spec fn view(&self) -> ConfigView {
        ConfigView {
            profile: self.profile@,
            secrets: self.secrets,
            secret_key: self.secret_key@,
            shutdown: self.shutdown,
        }
    }
}

/// The view of a configuration or of the error in its place.
pub open spec fn config_result_view(r: Result<Config, figment::Error>) -> Result<
    ConfigView,
    figment::Error,
> {
    match r {
        Ok(c) => Ok(c@),
        Err(e) => Err(e),
    }
}

/// The view of what was read as a string.
pub open spec fn text_view(read: Extracted<String>) -> Extracted<Seq<char>> {
    match read {
        Extracted::Found(s) => Extracted::Found(s@),
        Extracted::Missing => Extracted::Missing,
        Extracted::Invalid(e) => Extracted::Invalid(e),
    }
}

impl Config {
    /// The name of the profile in which secrets need no secret key.
    pub const DEBUG_PROFILE: &'static str = "debug";

    /// Whether `profile` is `debug`, in any case of its letters.
    pub fn is_debug_profile(profile: &str) -> (r: bool)
        ensures
            r == is_debug(profile@),
    {
        if profile.unicode_len() != 5 {
            return false;
        }
        let d = profile.get_char(0);
        let e = profile.get_char(1);
        let b = profile.get_char(2);
        let u = profile.get_char(3);
        let g = profile.get_char(4);
        (d == 'd' || d == 'D') && (e == 'e' || e == 'E') && (b == 'b' || b == 'B') && (u == 'u'
            || u == 'U') && (g == 'g' || g == 'G')
    }

    /// The configuration that the four settings give, as they were read,
    /// under the profile `profile`.
    pub fn from_parts(
        profile: String,
        secrets: Extracted<bool>,
        secret_key: Extracted<String>,
        grace: Extracted<u32>,
        mercy: Extracted<u32>,
    ) -> (r: Result<Config, figment::Error>)
        ensures
            config_result_view(r) == configured(
                profile@,
                secrets,
                text_view(secret_key),
                grace,
                mercy,
            ),
    {
        let secrets = match secrets {
            Extracted::Found(b) => b,
            Extracted::Missing => false,
            Extracted::Invalid(e) => { return Err(e); },
        };
        let secret_key = match secret_key {
            Extracted::Found(s) => SecretKey::provided(s.as_str().as_bytes_vec()),
            Extracted::Missing => SecretKey::zero(),
            Extracted::Invalid(e) => { return Err(e); },
        };
        let grace = match grace {
            Extracted::Found(n) => n,
            Extracted::Missing => DEFAULT_GRACE,
            Extracted::Invalid(e) => { return Err(e); },
        };
        let mercy = match mercy {
            Extracted::Found(n) => n,
            Extracted::Missing => DEFAULT_MERCY,
            Extracted::Invalid(e) => { return Err(e); },
        };
        Ok(Config { profile, secrets, secret_key, shutdown: ShutdownConfig { grace, mercy } })
    }

    /// Reads the configuration from `figment`.
    pub fn try_from(figment: &Figment) -> (r: Result<Config, figment::Error>)
        ensures
            config_result_view(r) == configuration_of(*figment),
    {
        let profile = profile_of(figment);
        let secrets = extract_flag(figment, "secrets");
        let secret_key = extract_text(figment, "secret_key");
        let grace = extract_number(figment, "shutdown.grace");
        let mercy = extract_number(figment, "shutdown.mercy");
        Config::from_parts(profile, secrets, secret_key, grace, mercy)
    }

    /// Makes sure of a secret key that can be used; see `secured`.
    pub fn secure(self, ephemeral: Vec<u8>) -> (r: Result<Config, String>)
        ensures
            match r {
                Ok(c) => secured(self@, ephemeral@) == Ok::<ConfigView, Seq<char>>(c@),
                Err(p) => secured(self@, ephemeral@) == Err::<ConfigView, Seq<char>>(p@),
            },
    {
        if !self.secrets || self.secret_key.is_provided() {
            return Ok(self);
        }
        if !Config::is_debug_profile(self.profile.as_str()) {
            return Err(self.profile);
        }
        if self.secret_key.is_zero() {
            return Ok(Config { secret_key: SecretKey::ephemeral(ephemeral), ..self });
        }
        Ok(self)
    }
}

/// The configuration of an empty figment: the profile `default`, no secrets,
/// no secret key, and the default periods.
pub open spec fn default_config() -> ConfigView {
    ConfigView {
        profile: "default"@,
        secrets: false,
        secret_key: SecretKeyView { key: Seq::<u8>::empty(), provided: false },
        shutdown: ShutdownConfig { grace: DEFAULT_GRACE, mercy: DEFAULT_MERCY },
    }
}

} // verus!
