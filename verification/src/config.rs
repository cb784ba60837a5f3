//! The server's configuration and how it is read from environment variables.

use vstd::prelude::*;
use vstd::utf8::is_ascii_chars;

use crate::number::{decimal, parse_u16, parse_u64, unsigned_value, write_u64};
use crate::text::{
    ascii_lowercase, ascii_uppercase, blank, contains_text, law_case_does_not_matter,
    law_nothing_listed_in_nothing, law_outer_blanks_do_not_matter, listed, split_list, starts_with,
    strip_suffix, texts, trim, trim_end_matches, trimmed, uppercase, without_trailing, Separator,
};

verus! {

/// The server's configuration.
pub struct Config {
    pub database_url: String,
    pub storage_path: String,
    pub host: String,
    pub port: u16,
    pub base_url: String,
    /// The Matrix homeserver that is trusted, e.g. "example.com". Only OpenID tokens that it
    /// issued are accepted, and only users who live on it can authenticate.
    pub matrix_server_name: String,
    /// Where the homeserver's federation API is reachable, without a trailing slash.
    pub matrix_federation_url: String,
    /// The Matrix users with admin rights.
    pub admin_mxids: Vec<String>,
    /// The secret that session tokens are signed with.
    pub session_secret: String,
    /// How many bytes all stored renditions may occupy.
    pub storage_max_bytes: u64,
    /// How many bytes the renditions of one uploader may occupy.
    pub per_user_storage_bytes: u64,
    /// The origins that browsers may call from. None at all means any origin.
    pub cors_allowed_origins: Vec<String>,
}

/// The environment variables that configure the server, where they are set.
pub struct EnvVars {
    pub port: Option<String>,
    pub base_url: Option<String>,
    pub matrix_admin_mxids: Option<String>,
    pub storage_max_bytes: Option<String>,
    pub per_user_storage_bytes: Option<String>,
    pub session_secret: Option<String>,
    pub database_url: Option<String>,
    pub storage_path: Option<String>,
    pub host: Option<String>,
    pub matrix_server_name: Option<String>,
    pub matrix_federation_url: Option<String>,
    pub cors_allowed_origins: Option<String>,
}

/// What is wrong with the environment variables.
#[derive(Clone, Copy, PartialEq, Eq, Debug, Structural)]
pub enum ConfigError {
    PortNotANumber,
    BadStorageMaxBytes,
    BadPerUserStorageBytes,
    NoSessionSecret,
    ShortSessionSecret,
    NoDatabaseUrl,
    NoMatrixServerName,
    NoMatrixFederationUrl,
}

/// The shortest session secret, in characters.
pub const MIN_SESSION_SECRET_LEN: usize = 32;

/// The units that a byte count can be given in.
pub const KB: u64 = 1024;

pub const MB: u64 = 1_048_576;

pub const GB: u64 = 1_073_741_824;

pub const TB: u64 = 1_099_511_627_776;

/// A number of bytes and the unit behind it, in a text of capital letters.
pub open spec fn number_and_unit(upper: Seq<char>) -> (Seq<char>, nat) {
    let number = upper.take(upper.len() - 2);
    if "TB"@.is_suffix_of(upper) {
        (number, TB as nat)
    } else if "GB"@.is_suffix_of(upper) {
        (number, GB as nat)
    } else if "MB"@.is_suffix_of(upper) {
        (number, MB as nat)
    } else if "KB"@.is_suffix_of(upper) {
        (number, KB as nat)
    } else {
        (upper, 1)
    }
}

/// The byte count that a text of capital letters stands for. Zero stands for no limit.
pub open spec fn size_of_upper(upper: Seq<char>) -> Option<u64> {
    let (number, unit) = number_and_unit(upper);
    match unsigned_value(trimmed(number)) {
        Some(n) => if n > u64::MAX {
            None
        } else if n == 0 {
            Some(u64::MAX)
        } else if n * unit > u64::MAX {
            None
        } else {
            Some((n * unit) as u64)
        },
        None => None,
    }
}

/// The byte count that a text stands for, whatever the case of its letters.
pub open spec fn size_value(s: Seq<char>) -> Option<u64> {
    size_of_upper(uppercase(trimmed(s)))
}

/// Reads a byte count in capital letters.
pub fn parse_upper_size(upper: &str) -> (r: Option<u64>)
    ensures
        r == size_of_upper(upper@),
{
    proof {
        reveal_strlit("TB");
        reveal_strlit("GB");
        reveal_strlit("MB");
        reveal_strlit("KB");
    }
    let (number, unit): (String, u64) = if let Some(n) = strip_suffix(upper, "TB") {
        (n, TB)
    } else if let Some(n) = strip_suffix(upper, "GB") {
        (n, GB)
    } else if let Some(n) = strip_suffix(upper, "MB") {
        (n, MB)
    } else if let Some(n) = strip_suffix(upper, "KB") {
        (n, KB)
    } else {
        (upper.to_owned(), 1)
    };
    proof {
        if unit > 1 {
            assert(number@ == upper@.take(upper@.len() - 2));
        }
    }
    let value: u64 = match parse_u64(trim(number.as_str()).as_str()) {
        Some(value) => value,
        None => return None,
    };
    if value == 0 {
        return Some(u64::MAX);
    }
    value.checked_mul(unit)
}

/// Reads a byte count: a plain number, or a number with a KB, MB, GB or TB suffix in any case
/// (units of 1024). "0" means no limit and gives `u64::MAX`.
pub fn parse_size(s: &str) -> (r: Option<u64>)
    ensures
        r == size_value(s@),
{
    parse_upper_size(trim(s).as_str().to_uppercase().as_str())
}

/// The value of a variable, or its default.
pub open spec fn value_or(v: Option<String>, default: Seq<char>) -> Seq<char> {
    match v {
        Some(s) => s@,
        None => default,
    }
}

fn get_or(v: &Option<String>, default: &str) -> (r: String)
    ensures
        r@ == value_or(*v, default@),
{
    match v {
        Some(s) => s.clone(),
        None => default.to_owned(),
    }
}

/// The port that the variables ask for.
pub open spec fn port_of(v: EnvVars) -> Option<nat> {
    unsigned_value(value_or(v.port, "8847"@))
}

/// The first thing that is wrong with the variables.
pub open spec fn first_fault(v: EnvVars) -> Option<ConfigError> {
    if !(port_of(v) matches Some(p) && p <= u16::MAX) {
        Some(ConfigError::PortNotANumber)
    } else if size_value(value_or(v.storage_max_bytes, "10GB"@)) is None {
        Some(ConfigError::BadStorageMaxBytes)
    } else if size_value(value_or(v.per_user_storage_bytes, "1GB"@)) is None {
        Some(ConfigError::BadPerUserStorageBytes)
    } else if v.session_secret is None {
        Some(ConfigError::NoSessionSecret)
    } else if v.session_secret->0@.len() < MIN_SESSION_SECRET_LEN {
        Some(ConfigError::ShortSessionSecret)
    } else if v.database_url is None {
        Some(ConfigError::NoDatabaseUrl)
    } else if v.matrix_server_name is None {
        Some(ConfigError::NoMatrixServerName)
    } else if v.matrix_federation_url is None {
        Some(ConfigError::NoMatrixFederationUrl)
    } else {
        None
    }
}

/// `c` is what the variables ask for.
pub open spec fn configured(v: EnvVars, c: Config) -> bool {
    &&& c.database_url@ == v.database_url->0@
    &&& c.storage_path@ == value_or(v.storage_path, "storage"@)
    &&& c.host@ == value_or(v.host, "0.0.0.0"@)
    &&& c.port == port_of(v)->0
    &&& c.base_url@ == value_or(v.base_url, "http://localhost:8847"@)
    &&& c.matrix_server_name@ == v.matrix_server_name->0@
    &&& c.matrix_federation_url@ == without_trailing(v.matrix_federation_url->0@, '/')
    &&& texts(c.admin_mxids@) == listed(
        value_or(v.matrix_admin_mxids, Seq::empty()),
        Separator::Char(','),
    )
    &&& c.session_secret@ == v.session_secret->0@
    &&& c.storage_max_bytes == size_value(value_or(v.storage_max_bytes, "10GB"@))->0
    &&& c.per_user_storage_bytes == size_value(value_or(v.per_user_storage_bytes, "1GB"@))->0
    &&& texts(c.cors_allowed_origins@) == listed(
        value_or(v.cors_allowed_origins, Seq::empty()),
        Separator::Char(','),
    )
}

impl ConfigError {
    /// What the operator is told.
    pub open spec fn spec_message(self) -> Seq<char> {
        match self {
            ConfigError::PortNotANumber => "PORT must be a number"@,
            ConfigError::BadStorageMaxBytes =>
                "STORAGE_MAX_BYTES must be a byte count, optionally suffixed with KB/MB/GB/TB"@,
            ConfigError::BadPerUserStorageBytes =>
                "PER_USER_STORAGE_BYTES must be a byte count, optionally suffixed with KB/MB/GB/TB"@,
            ConfigError::NoSessionSecret => "SESSION_SECRET must be set"@,
            ConfigError::ShortSessionSecret =>
                "SESSION_SECRET must be at least 32 characters; use a long random value"@,
            ConfigError::NoDatabaseUrl => "DATABASE_URL must be set"@,
            ConfigError::NoMatrixServerName =>
                "MATRIX_SERVER_NAME must be set (your homeserver name, e.g. example.com)"@,
            ConfigError::NoMatrixFederationUrl =>
                "MATRIX_FEDERATION_URL must be set (where the federation API is reachable)"@,
        }
    }

    /// What the operator is told.
    pub fn message(&self) -> (r: String)
        ensures
            r@ == self.spec_message(),
    {
        match self {
            ConfigError::PortNotANumber => "PORT must be a number".to_owned(),
            ConfigError::BadStorageMaxBytes =>
                "STORAGE_MAX_BYTES must be a byte count, optionally suffixed with KB/MB/GB/TB".to_owned(),
            ConfigError::BadPerUserStorageBytes =>
                "PER_USER_STORAGE_BYTES must be a byte count, optionally suffixed with KB/MB/GB/TB".to_owned(),
            ConfigError::NoSessionSecret => "SESSION_SECRET must be set".to_owned(),
            ConfigError::ShortSessionSecret =>
                "SESSION_SECRET must be at least 32 characters; use a long random value".to_owned(),
            ConfigError::NoDatabaseUrl => "DATABASE_URL must be set".to_owned(),
            ConfigError::NoMatrixServerName =>
                "MATRIX_SERVER_NAME must be set (your homeserver name, e.g. example.com)".to_owned(),
            ConfigError::NoMatrixFederationUrl =>
                "MATRIX_FEDERATION_URL must be set (where the federation API is reachable)".to_owned(),
        }
    }
}

impl Config {
    /// The users listed as admins.
    pub open spec fn admins(&self) -> Seq<Seq<char>> {
        texts(self.admin_mxids@)
    }

    /// The configuration that the environment variables ask for, or the first thing that is wrong
    /// with them.
    pub fn from_env(vars: &EnvVars) -> (r: Result<Config, ConfigError>)
        ensures
            match first_fault(*vars) {
                Some(fault) => r == Err::<Config, ConfigError>(fault),
                None => r matches Ok(c) && configured(*vars, c),
            },
    {
        let port: u16 = match parse_u16(get_or(&vars.port, "8847").as_str()) {
            Some(port) => port,
            None => return Err(ConfigError::PortNotANumber),
        };
        let base_url = get_or(&vars.base_url, "http://localhost:8847");
        let nothing = String::new();
        let admin_mxids = split_list(
            get_or(&vars.matrix_admin_mxids, nothing.as_str()).as_str(),
            Separator::Char(','),
        );
        let storage_max_bytes: u64 = match parse_size(
            get_or(&vars.storage_max_bytes, "10GB").as_str(),
        ) {
            Some(n) => n,
            None => return Err(ConfigError::BadStorageMaxBytes),
        };
        let per_user_storage_bytes: u64 = match parse_size(
            get_or(&vars.per_user_storage_bytes, "1GB").as_str(),
        ) {
            Some(n) => n,
            None => return Err(ConfigError::BadPerUserStorageBytes),
        };
        let session_secret = match &vars.session_secret {
            Some(s) => s.clone(),
            None => return Err(ConfigError::NoSessionSecret),
        };
        if session_secret.as_str().unicode_len() < MIN_SESSION_SECRET_LEN {
            return Err(ConfigError::ShortSessionSecret);
        }
        let database_url = match &vars.database_url {
            Some(s) => s.clone(),
            None => return Err(ConfigError::NoDatabaseUrl),
        };
        let matrix_server_name = match &vars.matrix_server_name {
            Some(s) => s.clone(),
            None => return Err(ConfigError::NoMatrixServerName),
        };
        let matrix_federation_url = match &vars.matrix_federation_url {
            Some(s) => trim_end_matches(s.as_str(), '/'),
            None => return Err(ConfigError::NoMatrixFederationUrl),
        };
        Ok(
            Config {
                database_url,
                storage_path: get_or(&vars.storage_path, "storage"),
                host: get_or(&vars.host, "0.0.0.0"),
                port,
                base_url,
                matrix_server_name,
                matrix_federation_url,
                admin_mxids,
                session_secret,
                storage_max_bytes,
                per_user_storage_bytes,
                cors_allowed_origins: split_list(
                    get_or(&vars.cors_allowed_origins, nothing.as_str()).as_str(),
                    Separator::Char(','),
                ),
            },
        )
    }

    /// Whether the user is listed as an admin.
    pub fn is_admin(&self, mxid: &str) -> (r: bool)
        ensures
            r == self.admins().contains(mxid@),
    {
        contains_text(&self.admin_mxids, mxid)
    }

    /// Whether session tokens travel unencrypted: the public URL is neither HTTPS nor local.
    pub fn tokens_in_plaintext(&self) -> (r: bool)
        ensures
            r == (!"https://"@.is_prefix_of(self.base_url@) && !"http://localhost"@.is_prefix_of(
                self.base_url@,
            )),
    {
        !starts_with(self.base_url.as_str(), "https://") && !starts_with(
            self.base_url.as_str(),
            "http://localhost",
        )
    }

    /// Where the server listens.
    pub fn listen_address(&self) -> (r: String)
        ensures
            r@ == self.host@ + ":"@ + decimal(self.port as nat),
    {
        let mut r = self.host.clone();
        r.append(":");
        r.append(write_u64(self.port as u64).as_str());
        r
    }

    /// Whether browsers may call from any origin: none is listed.
    pub fn allows_any_origin(&self) -> (r: bool)
        ensures
            r == (self.cors_allowed_origins@.len() == 0),
    {
        self.cors_allowed_origins.len() == 0
    }
}

/// Where no admins are listed, nobody is an admin.
pub proof fn law_no_list_no_admins(v: EnvVars, c: Config, mxid: Seq<char>)
    requires
        configured(v, c),
        v.matrix_admin_mxids is None,
    ensures
        !c.admins().contains(mxid),
{
    law_nothing_listed_in_nothing(Separator::Char(','));
}

/// A session secret that is accepted has at least the characters asked for.
pub proof fn law_secrets_are_long(v: EnvVars, c: Config)
    requires
        first_fault(v) is None,
        configured(v, c),
    ensures
        c.session_secret@.len() >= MIN_SESSION_SECRET_LEN,
{
}

/// Zero means no cap, in every unit. Any other number is multiplied by its unit, and refused where
/// the product is too large.
pub proof fn law_zero_means_no_cap(upper: Seq<char>, n: nat)
    requires
        unsigned_value(trimmed(number_and_unit(upper).0)) == Some(n),
    ensures
        n == 0 ==> size_of_upper(upper) == Some(u64::MAX),
        ({
            let bytes = n * number_and_unit(upper).1;
            n > 0 ==> size_of_upper(upper) == (if bytes <= u64::MAX {
                Some(bytes as u64)
            } else {
                None
            })
        }),
{
    let unit = number_and_unit(upper).1;
    assert(n <= n * unit) by (nonlinear_arith)
        requires
            unit >= 1,
    ;
}

/// No byte count is zero: zero stands for no cap.
pub proof fn law_sizes_are_never_zero(s: Seq<char>)
    ensures
        size_value(s) != Some(0u64),
{
    let upper = uppercase(trimmed(s));
    let (number, unit) = number_and_unit(upper);
    if unsigned_value(trimmed(number)) is Some {
        law_zero_means_no_cap(upper, unsigned_value(trimmed(number))->0);
        let n = unsigned_value(trimmed(number))->0;
        assert(n > 0 ==> n * unit > 0) by (nonlinear_arith)
            requires
                unit >= 1,
        ;
    }
}

/// Neither the case of a byte count's letters nor white space around it matters.
pub proof fn law_sizes_ignore_case_and_blanks(s: Seq<char>, before: Seq<char>, behind: Seq<char>)
    requires
        is_ascii_chars(s),
        blank(before),
        blank(behind),
    ensures
        size_value(before + s + behind) == size_value(s),
        size_value(before + ascii_lowercase(s) + behind) == size_value(s),
        size_value(before + ascii_uppercase(s) + behind) == size_value(s),
{
    law_outer_blanks_do_not_matter(before, s, behind);
    law_outer_blanks_do_not_matter(before, ascii_lowercase(s), behind);
    law_outer_blanks_do_not_matter(before, ascii_uppercase(s), behind);
    law_case_does_not_matter(s);
}

/// The variables are accepted exactly where the port and both byte counts can be read, the secret is
/// long enough, and what has no default is there.
pub proof fn law_variables_are_accepted(v: EnvVars)
    ensures
        first_fault(v) is None <==> {
            &&& match v.port {
                Some(p) => unsigned_value(p@) matches Some(n) && n <= 65535,
                None => unsigned_value("8847"@) matches Some(n) && n <= 65535,
            }
            &&& v.storage_max_bytes matches Some(s) ==> size_value(s@) is Some
            &&& v.storage_max_bytes is None ==> size_value("10GB"@) is Some
            &&& v.per_user_storage_bytes matches Some(s) ==> size_value(s@) is Some
            &&& v.per_user_storage_bytes is None ==> size_value("1GB"@) is Some
            &&& v.session_secret matches Some(s) && s@.len() >= 32
            &&& v.database_url is Some
            &&& v.matrix_server_name is Some
            &&& v.matrix_federation_url is Some
        },
{
}

/// The fault that is named is there, and none that is looked for before it.
pub proof fn law_named_fault_is_there(v: EnvVars)
    ensures
        first_fault(v) matches Some(fault) ==> match fault {
            ConfigError::PortNotANumber => !(port_of(v) matches Some(p) && p <= 65535),
            ConfigError::BadStorageMaxBytes => size_value(
                value_or(v.storage_max_bytes, "10GB"@),
            ) is None,
            ConfigError::BadPerUserStorageBytes => size_value(
                value_or(v.per_user_storage_bytes, "1GB"@),
            ) is None,
            ConfigError::NoSessionSecret => v.session_secret is None,
            ConfigError::ShortSessionSecret => v.session_secret matches Some(s) && s@.len() < 32,
            ConfigError::NoDatabaseUrl => v.database_url is None,
            ConfigError::NoMatrixServerName => v.matrix_server_name is None,
            ConfigError::NoMatrixFederationUrl => v.matrix_federation_url is None,
        },
{
}

/// What a variable gives is what the server is configured with; what is not given has its default.
pub proof fn law_given_values_are_taken(v: EnvVars, c: Config)
    requires
        first_fault(v) is None,
        configured(v, c),
    ensures
        v.database_url matches Some(s) && c.database_url@ == s@,
        v.session_secret matches Some(s) && c.session_secret@ == s@,
        v.matrix_server_name matches Some(s) && c.matrix_server_name@ == s@,
        v.matrix_federation_url matches Some(s) && c.matrix_federation_url@ == without_trailing(
            s@,
            '/',
        ),
        v.storage_path matches Some(s) ==> c.storage_path@ == s@,
        v.storage_path is None ==> c.storage_path@ == "storage"@,
        v.host matches Some(s) ==> c.host@ == s@,
        v.host is None ==> c.host@ == "0.0.0.0"@,
        v.base_url matches Some(s) ==> c.base_url@ == s@,
        v.base_url is None ==> c.base_url@ == "http://localhost:8847"@,
        v.port matches Some(s) ==> unsigned_value(s@) == Some(c.port as nat),
        v.port is None ==> unsigned_value("8847"@) == Some(c.port as nat),
        v.storage_max_bytes matches Some(s) ==> size_value(s@) == Some(c.storage_max_bytes),
        v.storage_max_bytes is None ==> size_value("10GB"@) == Some(c.storage_max_bytes),
        v.per_user_storage_bytes matches Some(s) ==> size_value(s@) == Some(
            c.per_user_storage_bytes,
        ),
        v.per_user_storage_bytes is None ==> size_value("1GB"@) == Some(c.per_user_storage_bytes),
        v.matrix_admin_mxids matches Some(s) ==> c.admins() == listed(s@, Separator::Char(',')),
        v.cors_allowed_origins matches Some(s) ==> texts(c.cors_allowed_origins@) == listed(
            s@,
            Separator::Char(','),
        ),
        v.cors_allowed_origins is None ==> c.cors_allowed_origins@.len() == 0,
{
    law_nothing_listed_in_nothing(Separator::Char(','));
    if v.cors_allowed_origins is None {
        assert(texts(c.cors_allowed_origins@).len() == 0);
    }
}

/// A number of bytes with its unit: 1024 for each step from bytes to KB, MB, GB and TB. A text
/// without a unit counts bytes.
pub proof fn law_units_go_by_1024(number: Seq<char>, n: nat)
    requires
        unsigned_value(trimmed(number)) == Some(n),
        0 < n,
    ensures
        n * 1024 <= u64::MAX ==> size_of_upper(number + "KB"@) == Some((n * 1024) as u64),
        n * (1024 * 1024) <= u64::MAX ==> size_of_upper(number + "MB"@) == Some(
            (n * (1024 * 1024)) as u64,
        ),
        n * (1024 * 1024 * 1024) <= u64::MAX ==> size_of_upper(number + "GB"@) == Some(
            (n * (1024 * 1024 * 1024)) as u64,
        ),
        n * (1024 * 1024 * 1024 * 1024) <= u64::MAX ==> size_of_upper(number + "TB"@) == Some(
            (n * (1024 * 1024 * 1024 * 1024)) as u64,
        ),
        n * 1024 > u64::MAX ==> size_of_upper(number + "KB"@) is None,
        n * (1024 * 1024) > u64::MAX ==> size_of_upper(number + "MB"@) is None,
        n * (1024 * 1024 * 1024) > u64::MAX ==> size_of_upper(number + "GB"@) is None,
        n * (1024 * 1024 * 1024 * 1024) > u64::MAX ==> size_of_upper(number + "TB"@) is None,
        number.len() < 2 || number.last() != 'B' ==> size_of_upper(number) == if n <= u64::MAX {
            Some(n as u64)
        } else {
            None
        },
{
    reveal_strlit("TB");
    reveal_strlit("GB");
    reveal_strlit("MB");
    reveal_strlit("KB");
    assert("TB"@[1] == 'B' && "GB"@[1] == 'B' && "MB"@[1] == 'B' && "KB"@[1] == 'B');
    assert("TB"@[0] == 'T' && "GB"@[0] == 'G' && "MB"@[0] == 'M' && "KB"@[0] == 'K');
    assert(number_and_unit(number + "KB"@) == (number, 1024nat)) by {
        lemma_unit(number, "KB"@);
    }
    assert(number_and_unit(number + "MB"@) == (number, 1_048_576nat)) by {
        lemma_unit(number, "MB"@);
    }
    assert(number_and_unit(number + "GB"@) == (number, 1_073_741_824nat)) by {
        lemma_unit(number, "GB"@);
    }
    assert(number_and_unit(number + "TB"@) == (number, 1_099_511_627_776nat)) by {
        lemma_unit(number, "TB"@);
    }
    law_zero_means_no_cap(number + "KB"@, n);
    law_zero_means_no_cap(number + "MB"@, n);
    law_zero_means_no_cap(number + "GB"@, n);
    law_zero_means_no_cap(number + "TB"@, n);
    if number.len() < 2 || number.last() != 'B' {
        assert(number_and_unit(number) == (number, 1nat)) by {
            lemma_unit(number, "KB"@);
        }
        let unit = number_and_unit(number).1;
        assert(n * unit == n) by (nonlinear_arith)
            requires
                unit == 1,
        ;
        law_zero_means_no_cap(number, n);
    }
}

proof fn lemma_unit(number: Seq<char>, unit: Seq<char>)
    requires
        unit.len() == 2,
    ensures
        unit.is_suffix_of(number + unit),
        (number + unit).take((number + unit).len() - 2) == number,
        (number + unit)[number.len() as int] == unit[0],
        forall|other: Seq<char>|
            other.len() == 2 && #[trigger] other.is_suffix_of(number + unit) ==> other == unit,
        forall|other: Seq<char>|
            other.len() == 2 && other[1] == 'B' && #[trigger] other.is_suffix_of(number)
                ==> number.len() >= 2 && number.last() == 'B',
{
    let all = number + unit;
    let n = all.len() as int;
    assert(unit =~= all.subrange(n - 2, n));
    assert(all.take(n - 2) =~= number);
    assert forall|other: Seq<char>| other.len() == 2 && #[trigger] other.is_suffix_of(all) implies other
        == unit by {
        assert(other == all.subrange(n - 2, n));
    }
    assert forall|other: Seq<char>|
        other.len() == 2 && other[1] == 'B' && #[trigger] other.is_suffix_of(number) implies number.len()
        >= 2 && number.last() == 'B' by {
        let m = number.len() as int;
        assert(other == number.subrange(m - 2, m));
        assert(other[1] == number[m - 1]);
    }
}

/// What the operator is told begins with the name of the variable at fault.
pub proof fn law_faults_name_their_variable(fault: ConfigError)
    ensures
        (match fault {
            ConfigError::PortNotANumber => "PORT must"@,
            ConfigError::BadStorageMaxBytes => "STORAGE_MAX_BYTES must"@,
            ConfigError::BadPerUserStorageBytes => "PER_USER_STORAGE_BYTES must"@,
            ConfigError::NoSessionSecret => "SESSION_SECRET must be set"@,
            ConfigError::ShortSessionSecret => "SESSION_SECRET must be at least 32 characters"@,
            ConfigError::NoDatabaseUrl => "DATABASE_URL must be set"@,
            ConfigError::NoMatrixServerName => "MATRIX_SERVER_NAME must be set"@,
            ConfigError::NoMatrixFederationUrl => "MATRIX_FEDERATION_URL must be set"@,
        }).is_prefix_of(fault.spec_message()),
{
    reveal_strlit("PORT must");
    reveal_strlit("PORT must be a number");
    reveal_strlit("STORAGE_MAX_BYTES must");
    reveal_strlit("STORAGE_MAX_BYTES must be a byte count, optionally suffixed with KB/MB/GB/TB");
    reveal_strlit("PER_USER_STORAGE_BYTES must");
    reveal_strlit(
        "PER_USER_STORAGE_BYTES must be a byte count, optionally suffixed with KB/MB/GB/TB",
    );
    reveal_strlit("SESSION_SECRET must be set");
    reveal_strlit("SESSION_SECRET must be at least 32 characters");
    reveal_strlit("SESSION_SECRET must be at least 32 characters; use a long random value");
    reveal_strlit("DATABASE_URL must be set");
    reveal_strlit("MATRIX_SERVER_NAME must be set");
    reveal_strlit("MATRIX_SERVER_NAME must be set (your homeserver name, e.g. example.com)");
    reveal_strlit("MATRIX_FEDERATION_URL must be set");
    reveal_strlit("MATRIX_FEDERATION_URL must be set (where the federation API is reachable)");
    let said = fault.spec_message();
    match fault {
        ConfigError::PortNotANumber => assert("PORT must"@ =~= said.subrange(0, 9)),
        ConfigError::BadStorageMaxBytes => assert("STORAGE_MAX_BYTES must"@ =~= said.subrange(
            0,
            22,
        )),
        ConfigError::BadPerUserStorageBytes => assert("PER_USER_STORAGE_BYTES must"@
            =~= said.subrange(0, 27)),
        ConfigError::NoSessionSecret => assert(said =~= said.subrange(0, 26)),
        ConfigError::ShortSessionSecret => assert("SESSION_SECRET must be at least 32 characters"@
            =~= said.subrange(0, 45)),
        ConfigError::NoDatabaseUrl => assert(said =~= said.subrange(0, 24)),
        ConfigError::NoMatrixServerName => assert("MATRIX_SERVER_NAME must be set"@
            =~= said.subrange(0, 30)),
        ConfigError::NoMatrixFederationUrl => assert("MATRIX_FEDERATION_URL must be set"@
            =~= said.subrange(0, 33)),
    }
}

} // verus!
