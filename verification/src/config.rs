//! Where the helper finds its Infrahub server and credentials, and how it
//! talks to it: the configuration's precedence rules, the choice of
//! authentication, the URLs and the request headers.
use vstd::prelude::*;
use crate::text::str_equals;

verus! {

/// The configuration file read when neither the command line nor
/// `INFRAHUB_CONFIG` names one.
pub const DEFAULT_CONFIG_FILE: &'static str = "infrahub.toml";

/// Refusal when no server address is configured anywhere.
pub const NO_ADDRESS: &'static str = "No Infrahub server address configured. Set INFRAHUB_INTERNAL_ADDRESS or configure [main].internal_address in config file.";

/// How long any request may take, in seconds, unless `INFRAHUB_TIMEOUT` says otherwise.
pub const DEFAULT_TIMEOUT_SECS: u64 = 10;

/// The header that carries an API token.
pub const API_KEY_HEADER: &'static str = "X-INFRAHUB-KEY";

/// The header that carries a bearer token obtained by logging in.
pub const AUTHORIZATION_HEADER: &'static str = "Authorization";

/// The header that marks every request as the credential helper's.
pub const TRACKER_HEADER: &'static str = "X-Infrahub-Tracker";

/// The tracker header's value.
pub const TRACKER_VALUE: &'static str = "infrahub-git-credential-helper";

/// Refusal of a login reply without a token.
pub const MISSING_ACCESS_TOKEN: &'static str = "Authentication response missing access_token";

/// The helper's settings.
pub struct InfrahubConfig {
    pub address: String,
    pub api_token: Option<String>,
    pub username: Option<String>,
    pub password: Option<String>,
    pub proxy: Option<String>,
    pub tls_insecure: bool,
    pub tls_ca_file: Option<String>,
    /// How long any request may take, in seconds.
    pub timeout_secs: u64,
}

/// The `INFRAHUB_*` environment variables that the configuration reads,
/// each as it is set, `None` where it is unset.
pub struct Environment {
    /// `INFRAHUB_INTERNAL_ADDRESS`
    pub internal_address: Option<String>,
    /// `INFRAHUB_ADDRESS`, the address that the Python SDK reads
    pub address: Option<String>,
    /// `INFRAHUB_API_TOKEN`
    pub api_token: Option<String>,
    /// `INFRAHUB_USERNAME`
    pub username: Option<String>,
    /// `INFRAHUB_PASSWORD`
    pub password: Option<String>,
    /// `INFRAHUB_PROXY`
    pub proxy: Option<String>,
    /// `INFRAHUB_TLS_INSECURE`
    pub tls_insecure: Option<String>,
    /// `INFRAHUB_TLS_CA_FILE`
    pub tls_ca_file: Option<String>,
    /// `INFRAHUB_CONFIG`
    pub config_file: Option<String>,
    /// `INFRAHUB_TIMEOUT`
    pub timeout: Option<String>,
}

/// What reading the TOML configuration file gave.
pub enum ConfigFile {
    /// The file could not be read, or was not read.
    Unreadable,
    /// The file is not valid TOML for the configuration; the parser's complaint.
    Malformed(String),
    /// The file's `[main].internal_address`, if it has one.
    Parsed(Option<String>),
}

/// The stages whose failure the helper reports with the outside complaint appended.
#[derive(Clone, Copy, Debug, PartialEq, Eq, Structural)]
pub enum Failure {
    ConfigParse,
    CaFileRead,
    CaCertificateParse,
    ProxyUrl,
    Authentication,
    AuthResponseParse,
}

/// The words that open the report of a failure.
pub open spec fn failure_prefix(f: Failure) -> Seq<char> {
    match f {
        Failure::ConfigParse => "Failed to parse config file: "@,
        Failure::CaFileRead => "Failed to read CA file: "@,
        Failure::CaCertificateParse => "Failed to parse CA certificate: "@,
        Failure::ProxyUrl => "Invalid proxy URL: "@,
        Failure::Authentication => "Authentication failed: "@,
        Failure::AuthResponseParse => "Failed to parse auth response: "@,
    }
}

impl Failure {
    /// The report of this failure, with the outside complaint `detail`.
    pub fn message(self, detail: &str) -> (r: String)
        ensures
            r@ == failure_prefix(self) + detail@,
    {
        let prefix = match self {
            Failure::ConfigParse => "Failed to parse config file: ",
            Failure::CaFileRead => "Failed to read CA file: ",
            Failure::CaCertificateParse => "Failed to parse CA certificate: ",
            Failure::ProxyUrl => "Invalid proxy URL: ",
            Failure::Authentication => "Authentication failed: ",
            Failure::AuthResponseParse => "Failed to parse auth response: ",
        };
        String::from_str(prefix).concat(detail)
    }
}

/// The view of an optional string.
pub open spec fn opt_view(o: Option<String>) -> Option<Seq<char>> {
    match o {
        Some(s) => Some(s@),
        None => None,
    }
}

/// The configuration file to read: the one named on the command line, else
/// the one `INFRAHUB_CONFIG` names, else `infrahub.toml`.
pub open spec fn config_path(
    command_line: Option<Seq<char>>,
    environment: Option<Seq<char>>,
) -> Seq<char> {
    match command_line {
        Some(p) => p,
        None => match environment {
            Some(p) => p,
            None => DEFAULT_CONFIG_FILE@,
        },
    }
}

/// The server address, or the refusal: `INFRAHUB_INTERNAL_ADDRESS` first,
/// then the file's `[main].internal_address` (a malformed file is refused),
/// then `INFRAHUB_ADDRESS`.
pub open spec fn resolved_address(env: Environment, file: ConfigFile) -> Result<
    Seq<char>,
    Seq<char>,
> {
    match env.internal_address {
        Some(a) => Ok(a@),
        None => match file {
            ConfigFile::Malformed(e) => Err(failure_prefix(Failure::ConfigParse) + e@),
            ConfigFile::Parsed(Some(a)) => Ok(a@),
            _ => match env.address {
                Some(a) => Ok(a@),
                None => Err(NO_ADDRESS@),
            },
        },
    }
}

/// Lower case as `str::to_lowercase` makes it (Unicode's `Lowercase` mapping).
pub uninterp spec fn lowercase(s: Seq<char>) -> Seq<char>;

/// Whether `s` holds ASCII characters only.
pub open spec fn ascii_only(s: Seq<char>) -> bool {
    forall|i: int| 0 <= i < s.len() ==> (#[trigger] s[i] as u32) < 0x80
}

/// `c` with an ASCII capital letter turned into its small letter.
pub open spec fn ascii_lower_char(c: char) -> char {
    if 0x41 <= (c as u32) <= 0x5a {
        ((c as u32) + 0x20) as char
    } else {
        c
    }
}

/// `s` with its ASCII capital letters turned into small letters.
pub open spec fn ascii_lowercase(s: Seq<char>) -> Seq<char> {
    s.map_values(|c: char| ascii_lower_char(c))
}

/// Calls `str::to_lowercase`. Its result is named; of an ASCII string the
/// contract states what Unicode's lowercase mapping, which the documentation
/// cites, gives there: `A` to `Z` become `a` to `z`, all else stays. Of other
/// characters it says nothing.
#[verifier::external_body]
fn to_lowercase(s: &str) -> (r: String)
    ensures
        r@ == lowercase(s@),
        ascii_only(s@) ==> r@ == ascii_lowercase(s@),
{
    s.to_lowercase()
}

/// Whether an already lower-cased setting switches a flag on.
pub open spec fn is_truthy(lowered: Seq<char>) -> bool {
    lowered == "true"@ || lowered == "1"@ || lowered == "yes"@
}

/// Whether the `INFRAHUB_TLS_INSECURE` setting switches certificate checks off:
/// `true`, `1` or `yes`, in any case (`tls_insecure_setting` states this for
/// ASCII settings).
pub open spec fn tls_insecure_flag(setting: Option<String>) -> bool {
    match setting {
        Some(s) => is_truthy(lowercase(s@)),
        None => false,
    }
}

/// Whether the lower-cased `lowered` is `true`, `1` or `yes`.
pub fn is_truthy_flag(lowered: &str) -> (r: bool)
    ensures
        r == is_truthy(lowered@),
        r <==> (lowered@ == "true"@ || lowered@ == "1"@ || lowered@ == "yes"@),
{
    proof {
        law_only_true_one_yes_switch_on(lowered@);
    }
    str_equals(lowered, "true") || str_equals(lowered, "1") || str_equals(lowered, "yes")
}

/// Whether the setting `setting` switches certificate checks off.
pub fn tls_insecure_setting(setting: &Option<String>) -> (r: bool)
    ensures
        r == tls_insecure_flag(*setting),
        match setting {
            Some(s) => ascii_only(s@) ==> r == is_truthy(ascii_lowercase(s@)),
            None => !r,
        },
        r <==> (setting matches Some(s) && (lowercase(s@) == "true"@ || lowercase(s@) == "1"@
            || lowercase(s@) == "yes"@)),
{
    proof {
        if let Some(s) = setting {
            law_only_true_one_yes_switch_on(lowercase(s@));
        }
    }
    match setting {
        Some(s) => {
            let lowered = to_lowercase(s.as_str());
            is_truthy_flag(lowered.as_str())
        },
        None => false,
    }
}

/// Whether `c` is one of the digits `0` to `9`.
pub open spec fn is_digit(c: char) -> bool {
    0x30 <= (c as u32) <= 0x39
}

/// Whether `s` is made of digits only.
pub open spec fn all_digits(s: Seq<char>) -> bool {
    forall|i: int| 0 <= i < s.len() ==> is_digit(#[trigger] s[i])
}

/// The number that the digits `s` write in decimal.
pub open spec fn decimal_value(s: Seq<char>) -> nat
    decreases s.len(),
{
    if s.len() == 0 {
        0
    } else {
        decimal_value(s.drop_last()) * 10 + ((s.last() as u32) - 0x30) as nat
    }
}

/// The number of seconds that a setting writes: one or more decimal digits,
/// of a value that fits in a `u64`.
pub open spec fn seconds_of(s: Seq<char>) -> Option<u64> {
    if s.len() > 0 && all_digits(s) && decimal_value(s) <= u64::MAX {
        Some(decimal_value(s) as u64)
    } else {
        None
    }
}

/// The request timeout that the `INFRAHUB_TIMEOUT` setting gives: the number
/// of seconds it writes, else the default.
pub open spec fn timeout_secs_of(setting: Option<String>) -> u64 {
    match setting {
        Some(s) => match seconds_of(s@) {
            Some(n) => n,
            None => DEFAULT_TIMEOUT_SECS,
        },
        None => DEFAULT_TIMEOUT_SECS,
    }
}

/// A longer prefix of digits writes no smaller a number.
proof fn lemma_decimal_prefix_grows(s: Seq<char>, i: int, j: int)
    requires
        0 <= i <= j <= s.len(),
        all_digits(s),
    ensures
        decimal_value(s.take(i)) <= decimal_value(s.take(j)),
    decreases j - i,
{
    if i < j {
        lemma_decimal_prefix_grows(s, i, j - 1);
        assert(s.take(j).drop_last() =~= s.take(j - 1));
        assert(is_digit(s[j - 1]));
    }
}

/// The number of seconds that `s` writes, if it is one or more digits of a
/// value that fits in a `u64`.
pub fn parse_seconds(s: &str) -> (r: Option<u64>)
    ensures
        r == seconds_of(s@),
{
    let cs = crate::text::chars_of(s);
    let n = cs.len();
    if n == 0 {
        return None;
    }
    let mut k: usize = 0;
    while k < n
        invariant
            cs@ == s@,
            n == cs@.len(),
            k <= n,
            forall|i: int| 0 <= i < k ==> is_digit(#[trigger] cs@[i]),
        decreases n - k,
    {
        let u = cs[k] as u32;
        if u < 0x30 || u > 0x39 {
            assert(!is_digit(cs@[k as int]));
            return None;
        }
        k = k + 1;
    }
    assert(all_digits(s@));
    let mut acc: u64 = 0;
    let mut i: usize = 0;
    assert(s@.take(0) =~= Seq::<char>::empty());
    while i < n
        invariant
            cs@ == s@,
            n == cs@.len(),
            i <= n,
            all_digits(s@),
            acc == decimal_value(s@.take(i as int)),
        decreases n - i,
    {
        assert(s@.take(i + 1).drop_last() =~= s@.take(i as int));
        assert(is_digit(s@[i as int]));
        let d = (cs[i] as u32 - 0x30) as u64;
        let next = match acc.checked_mul(10) {
            Some(m) => m.checked_add(d),
            None => None,
        };
        match next {
            Some(v) => {
                acc = v;
            },
            None => {
                proof {
                    lemma_decimal_prefix_grows(s@, i + 1, n as int);
                    assert(s@.take(n as int) =~= s@);
                }
                return None;
            },
        }
        i = i + 1;
    }
    assert(s@.take(n as int) =~= s@);
    Some(acc)
}

/// The request timeout that the `INFRAHUB_TIMEOUT` setting `setting` gives.
pub fn timeout_setting(setting: &Option<String>) -> (r: u64)
    ensures
        r == timeout_secs_of(*setting),
{
    match setting {
        Some(s) => match parse_seconds(s.as_str()) {
            Some(n) => n,
            None => DEFAULT_TIMEOUT_SECS,
        },
        None => DEFAULT_TIMEOUT_SECS,
    }
}

/// Copies an optional string.
fn copy_opt(o: &Option<String>) -> (r: Option<String>)
    ensures
        r == *o,
{
    match o {
        Some(s) => Some(s.clone()),
        None => None,
    }
}

impl InfrahubConfig {
    /// The configuration file to read, if one is needed: none when
    /// `INFRAHUB_INTERNAL_ADDRESS` gives the address.
    pub fn config_file_to_read(env: &Environment, command_line: Option<&str>) -> (r: Option<
        String,
    >)
        ensures
            env.internal_address is Some ==> r is None,
            env.internal_address is None ==> r is Some && r->0@ == config_path(
                match command_line {
                    Some(p) => Some(p@),
                    None => None,
                },
                opt_view(env.config_file),
            ),
    {
        if env.internal_address.is_some() {
            return None;
        }
        match command_line {
            Some(p) => Some(String::from_str(p)),
            None => match &env.config_file {
                Some(p) => Some(p.clone()),
                None => Some(String::from_str(DEFAULT_CONFIG_FILE)),
            },
        }
    }

    /// The configuration from the environment and the configuration file:
    /// the address as `resolved_address` picks it, the other settings from the
    /// environment.
    pub fn from_sources(env: Environment, file: ConfigFile) -> (r: Result<Self, String>)
        ensures
            match r {
                Ok(c) => {
                    &&& resolved_address(env, file) == Ok::<Seq<char>, Seq<char>>(c.address@)
                    &&& c.api_token == env.api_token
                    &&& c.username == env.username
                    &&& c.password == env.password
                    &&& c.proxy == env.proxy
                    &&& c.tls_insecure == tls_insecure_flag(env.tls_insecure)
                    &&& (env.tls_insecure matches Some(s) ==> (ascii_only(s@) ==> c.tls_insecure
                        == is_truthy(ascii_lowercase(s@))))
                    &&& c.tls_ca_file == env.tls_ca_file
                    &&& c.timeout_secs == timeout_secs_of(env.timeout)
                },
                Err(e) => resolved_address(env, file) == Err::<Seq<char>, Seq<char>>(e@),
            },
    {
        let tls_insecure = tls_insecure_setting(&env.tls_insecure);
        let timeout_secs = timeout_setting(&env.timeout);
        let address = match &env.internal_address {
            Some(a) => a.clone(),
            None => match &file {
                ConfigFile::Malformed(e) => {
                    return Err(Failure::ConfigParse.message(e.as_str()));
                },
                ConfigFile::Parsed(Some(a)) => a.clone(),
                _ => match &env.address {
                    Some(a) => a.clone(),
                    None => {
                        return Err(String::from_str(NO_ADDRESS));
                    },
                },
            },
        };
        Ok(
            InfrahubConfig {
                address,
                api_token: copy_opt(&env.api_token),
                username: copy_opt(&env.username),
                password: copy_opt(&env.password),
                proxy: copy_opt(&env.proxy),
                tls_insecure,
                tls_ca_file: copy_opt(&env.tls_ca_file),
                timeout_secs,
            },
        )
    }
}

/// Law: `INFRAHUB_INTERNAL_ADDRESS` beats the configuration file: when it is
/// set, whatever the file holds, the address is the variable's.
pub proof fn law_internal_address_overrides_file(
    env: Environment,
    file: ConfigFile,
    other: ConfigFile,
)
    requires
        env.internal_address is Some,
    ensures
        resolved_address(env, file) == resolved_address(env, other),
        resolved_address(env, file) == Ok::<Seq<char>, Seq<char>>(env.internal_address->0@),
{
}

/// Law: the configuration file's address beats `INFRAHUB_ADDRESS`.
pub proof fn law_file_address_overrides_sdk_address(env: Environment, file_address: String)
    requires
        env.internal_address is None,
    ensures
        resolved_address(env, ConfigFile::Parsed(Some(file_address))) == Ok::<
            Seq<char>,
            Seq<char>,
        >(file_address@),
{
}

/// Law: exactly three lower-cased values switch a flag on, `true`, `1` and
/// `yes`; every other value leaves it off, among them `0`, `false`, `no`,
/// the empty value and every number but `1`.
pub proof fn law_only_true_one_yes_switch_on(lowered: Seq<char>)
    ensures
        is_truthy(lowered) <==> (lowered == "true"@ || lowered == "1"@ || lowered == "yes"@),
        lowered == "0"@ || lowered == "false"@ || lowered == "no"@ || lowered.len() == 0
            ==> !is_truthy(lowered),
        all_digits(lowered) && lowered != "1"@ ==> !is_truthy(lowered),
{
    reveal_strlit("true");
    reveal_strlit("1");
    reveal_strlit("yes");
    reveal_strlit("0");
    reveal_strlit("false");
    reveal_strlit("no");
    if all_digits(lowered) {
        if lowered == "true"@ {
            assert(is_digit(lowered[0]));
        }
        if lowered == "yes"@ {
            assert(is_digit(lowered[0]));
        }
    }
    if lowered == "0"@ {
        assert(lowered[0] != "1"@[0]);
    }
}

} // verus!
