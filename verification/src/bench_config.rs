use vstd::prelude::*;
use vstd::string::StringExecFns;

use crate::text::{
    digits_value, is_digit, unsigned_digits, parse_bool, parse_boolean, parse_u64, parse_unsigned, parse_usize, split_commas, split_on,
    trim, trim_text,
};

verus! {

/// The raw values of the benchmark's environment variables; `None` where a
/// variable is unset.
pub struct EnvValues {
    pub concurrency: Option<String>,
    pub requests: Option<String>,
    pub duration: Option<String>,
    pub no_warmup: Option<String>,
    pub no_keepalive: Option<String>,
    pub force_all: Option<String>,
    pub base_url: Option<String>,
    pub endpoints: Option<String>,
    pub results_dir: Option<String>,
    pub default_req_per_batch: Option<String>,
}

/// The settings of a benchmark run.
pub struct BenchConfig {
    pub concurrency: usize,
    pub requests: usize,
    pub duration: u64,
    pub no_warmup: bool,
    pub no_keepalive: bool,
    pub force_all: bool,
    pub base_url: String,
    pub endpoints: Vec<String>,
    pub results_dir: String,
    pub default_req_per_batch: usize,
}

/// The variable whose value could not be read.
#[derive(PartialEq, Eq, Structural, Debug, Clone, Copy)]
pub enum ConfigError {
    Concurrency,
    Requests,
    Duration,
    NoWarmup,
    NoKeepalive,
    ForceAll,
    DefaultReqPerBatch,
}

/// The text of a setting: the variable's value, or `default` when unset.
pub open spec fn setting(value: Option<String>, default: Seq<char>) -> Seq<char> {
    match value {
        Some(s) => s@,
        None => default,
    }
}

pub open spec fn concurrency_text(v: EnvValues) -> Seq<char> {
    setting(v.concurrency, "100"@)
}

pub open spec fn requests_text(v: EnvValues) -> Seq<char> {
    setting(v.requests, "10000000"@)
}

pub open spec fn duration_text(v: EnvValues) -> Seq<char> {
    setting(v.duration, "15"@)
}

pub open spec fn no_warmup_text(v: EnvValues) -> Seq<char> {
    setting(v.no_warmup, "false"@)
}

pub open spec fn no_keepalive_text(v: EnvValues) -> Seq<char> {
    setting(v.no_keepalive, "false"@)
}

pub open spec fn force_all_text(v: EnvValues) -> Seq<char> {
    setting(v.force_all, "false"@)
}

pub open spec fn base_url_text(v: EnvValues) -> Seq<char> {
    setting(v.base_url, "http://localhost:8080"@)
}

pub open spec fn endpoints_text(v: EnvValues) -> Seq<char> {
    setting(v.endpoints, "/users-df"@)
}

pub open spec fn results_dir_text(v: EnvValues) -> Seq<char> {
    setting(v.results_dir, "results"@)
}

pub open spec fn default_req_per_batch_text(v: EnvValues) -> Seq<char> {
    setting(v.default_req_per_batch, "500"@)
}

/// The first variable, in the order in which they are read, whose text does
/// not parse; `None` when all of them do.
pub open spec fn first_config_error(v: EnvValues) -> Option<ConfigError> {
    if parse_unsigned(concurrency_text(v), usize::MAX as nat) is None {
        Some(ConfigError::Concurrency)
    } else if parse_unsigned(requests_text(v), usize::MAX as nat) is None {
        Some(ConfigError::Requests)
    } else if parse_unsigned(duration_text(v), u64::MAX as nat) is None {
        Some(ConfigError::Duration)
    } else if parse_boolean(no_warmup_text(v)) is None {
        Some(ConfigError::NoWarmup)
    } else if parse_boolean(no_keepalive_text(v)) is None {
        Some(ConfigError::NoKeepalive)
    } else if parse_boolean(force_all_text(v)) is None {
        Some(ConfigError::ForceAll)
    } else if parse_unsigned(default_req_per_batch_text(v), usize::MAX as nat) is None {
        Some(ConfigError::DefaultReqPerBatch)
    } else {
        None
    }
}

/// `endpoints` is the comma-separated list `text`, each piece trimmed of
/// surrounding white space.
pub open spec fn endpoint_list(endpoints: Seq<String>, text: Seq<char>) -> bool {
    &&& endpoints.len() == split_on(text, ',').len()
    &&& forall|i: int|
        0 <= i < endpoints.len() ==> (#[trigger] endpoints[i])@ == trim(split_on(text, ',')[i])
}

/// `c` holds the settings that the variables `v` describe.
pub open spec fn config_of(c: BenchConfig, v: EnvValues) -> bool {
    &&& parse_unsigned(concurrency_text(v), usize::MAX as nat) == Some(c.concurrency as nat)
    &&& parse_unsigned(requests_text(v), usize::MAX as nat) == Some(c.requests as nat)
    &&& parse_unsigned(duration_text(v), u64::MAX as nat) == Some(c.duration as nat)
    &&& parse_boolean(no_warmup_text(v)) == Some(c.no_warmup)
    &&& parse_boolean(no_keepalive_text(v)) == Some(c.no_keepalive)
    &&& parse_boolean(force_all_text(v)) == Some(c.force_all)
    &&& c.base_url@ == base_url_text(v)
    &&& endpoint_list(c.endpoints@, endpoints_text(v))
    &&& c.results_dir@ == results_dir_text(v)
    &&& parse_unsigned(default_req_per_batch_text(v), usize::MAX as nat) == Some(
        c.default_req_per_batch as nat,
    )
}

/// A variable that is set is used as it stands, and a default only stands in
/// for an unset one: text settings take the variable's text, numbers and
/// flags are what its text parses to, and the endpoint list is its text split
/// at commas and trimmed.
pub proof fn lemma_set_variables_are_used(c: BenchConfig, v: EnvValues)
    requires
        config_of(c, v),
    ensures
        v.base_url matches Some(s) ==> c.base_url@ == s@,
        v.base_url is None ==> c.base_url@ == "http://localhost:8080"@,
        v.results_dir matches Some(s) ==> c.results_dir@ == s@,
        v.results_dir is None ==> c.results_dir@ == "results"@,
        v.endpoints matches Some(s) ==> endpoint_list(c.endpoints@, s@),
        v.concurrency matches Some(s) ==> parse_unsigned(s@, usize::MAX as nat) == Some(
            c.concurrency as nat,
        ),
        v.concurrency is None ==> c.concurrency == 100,
        v.requests matches Some(s) ==> parse_unsigned(s@, usize::MAX as nat) == Some(
            c.requests as nat,
        ),
        v.duration matches Some(s) ==> parse_unsigned(s@, u64::MAX as nat) == Some(
            c.duration as nat,
        ),
        v.no_warmup matches Some(s) ==> parse_boolean(s@) == Some(c.no_warmup),
        v.no_warmup is None ==> !c.no_warmup,
        v.no_keepalive matches Some(s) ==> parse_boolean(s@) == Some(c.no_keepalive),
        v.no_keepalive is None ==> !c.no_keepalive,
        v.force_all matches Some(s) ==> parse_boolean(s@) == Some(c.force_all),
        v.force_all is None ==> !c.force_all,
        v.default_req_per_batch matches Some(s) ==> parse_unsigned(s@, usize::MAX as nat) == Some(
            c.default_req_per_batch as nat,
        ),
{
    reveal_strlit("false");
    reveal_strlit("true");
    assert("false"@ != "true"@) by {
        assert("false"@.len() != "true"@.len());
    }
    if v.concurrency is None {
        reveal_strlit("100");
        let d = "100"@;
        assert(d.len() == 3 && d[0] == '1' && d[1] == '0' && d[2] == '0');
        assert(unsigned_digits(d) == d);
        assert(forall|i: int| 0 <= i < d.len() ==> is_digit(#[trigger] d[i]));
        assert(d.drop_last().drop_last().drop_last().len() == 0);
        let d1 = d.drop_last().drop_last();
        assert(d1.len() == 1 && d1.last() == '1');
        assert(digits_value(d1.drop_last()) == 0);
        assert(digits_value(d1) == 1);
        assert(digits_value(d.drop_last()) == 10);
        assert(digits_value(d) == 100);
    }
}

fn setting_or(value: &Option<String>, default: &str) -> (r: String)
    ensures
        r@ == setting(*value, default@),
{
    match value {
        Some(s) => s.clone(),
        None => String::from_str(default),
    }
}

/// Splits a comma-separated list and trims each piece.
pub fn parse_endpoint_list(text: &str) -> (r: Vec<String>)
    ensures
        endpoint_list(r@, text@),
{
    let pieces = split_commas(text);
    let mut endpoints: Vec<String> = Vec::new();
    for i in 0..pieces.len()
        invariant
            pieces@.len() == split_on(text@, ',').len(),
            forall|k: int| 0 <= k < pieces@.len() ==> (#[trigger] pieces@[k])@ == split_on(text@, ',')[k],
            endpoints@.len() == i,
            forall|k: int| 0 <= k < i ==> (#[trigger] endpoints@[k])@ == trim(split_on(text@, ',')[k]),
    {
        let piece = trim_text(pieces[i].as_str());
        endpoints.push(piece);
    }
    endpoints
}

impl BenchConfig {
    /// Reads the settings from the variables' values, using the default of
    /// each unset variable.  Fails with the first variable, in reading order,
    /// whose text is not a number (or not `true`/`false`).
    pub fn from_env_values(v: &EnvValues) -> (r: Result<BenchConfig, ConfigError>)
        ensures
            r is Ok == (first_config_error(*v) is None),
            r matches Ok(c) ==> config_of(c, *v),
            r matches Err(e) ==> first_config_error(*v) == Some(e),
    {
        let concurrency = match parse_usize(setting_or(&v.concurrency, "100").as_str()) {
            Some(x) => x,
            None => return Err(ConfigError::Concurrency),
        };
        let requests = match parse_usize(setting_or(&v.requests, "10000000").as_str()) {
            Some(x) => x,
            None => return Err(ConfigError::Requests),
        };
        let duration = match parse_u64(setting_or(&v.duration, "15").as_str()) {
            Some(x) => x,
            None => return Err(ConfigError::Duration),
        };
        let no_warmup = match parse_bool(setting_or(&v.no_warmup, "false").as_str()) {
            Some(x) => x,
            None => return Err(ConfigError::NoWarmup),
        };
        let no_keepalive = match parse_bool(setting_or(&v.no_keepalive, "false").as_str()) {
            Some(x) => x,
            None => return Err(ConfigError::NoKeepalive),
        };
        let force_all = match parse_bool(setting_or(&v.force_all, "false").as_str()) {
            Some(x) => x,
            None => return Err(ConfigError::ForceAll),
        };
        let base_url = setting_or(&v.base_url, "http://localhost:8080");
        let endpoints = parse_endpoint_list(setting_or(&v.endpoints, "/users-df").as_str());
        let results_dir = setting_or(&v.results_dir, "results");
        let default_req_per_batch = match parse_usize(
            setting_or(&v.default_req_per_batch, "500").as_str(),
        ) {
            Some(x) => x,
            None => return Err(ConfigError::DefaultReqPerBatch),
        };
        Ok(
            BenchConfig {
                concurrency,
                requests,
                duration,
                no_warmup,
                no_keepalive,
                force_all,
                base_url,
                endpoints,
                results_dir,
                default_req_per_batch,
            },
        )
    }
}

impl ConfigError {
    /// The message the benchmark stops with when this variable is malformed.
    pub fn message(&self) -> (r: &'static str)
        ensures
            r@ == config_error_message(*self),
    {
        match self {
            ConfigError::Concurrency => "CONCURRENCY deve ser um número",
            ConfigError::Requests => "REQUESTS deve ser um número",
            ConfigError::Duration => "DURATION deve ser um número",
            ConfigError::NoWarmup => "NO_WARMUP deve ser true ou false",
            ConfigError::NoKeepalive => "NO_KEEPALIVE deve ser true ou false",
            ConfigError::ForceAll => "FORCE_ALL deve ser true ou false",
            ConfigError::DefaultReqPerBatch => "DEFAULT_REQ_PER_BATCH deve ser um número",
        }
    }
}

/// The message for a malformed variable.
pub open spec fn config_error_message(e: ConfigError) -> Seq<char> {
    match e {
        ConfigError::Concurrency => "CONCURRENCY deve ser um número"@,
        ConfigError::Requests => "REQUESTS deve ser um número"@,
        ConfigError::Duration => "DURATION deve ser um número"@,
        ConfigError::NoWarmup => "NO_WARMUP deve ser true ou false"@,
        ConfigError::NoKeepalive => "NO_KEEPALIVE deve ser true ou false"@,
        ConfigError::ForceAll => "FORCE_ALL deve ser true ou false"@,
        ConfigError::DefaultReqPerBatch => "DEFAULT_REQ_PER_BATCH deve ser um número"@,
    }
}

} // verus!
