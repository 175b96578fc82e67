//! Runtime configuration: reading the settings from the environment's
//! values, with their defaults, and refusing values that cannot work.

use vstd::prelude::*;
use crate::domain::{CoreError, Fault};
use crate::storage::QdrantRepositoryConfig;
use crate::text::{chars_of, concat, owned, same_chars};

verus! {

/// Why a text is not a decimal number of the wanted size.
#[derive(Debug, Clone, Copy, PartialEq, Eq, Structural)]
pub enum NumberError {
    Empty,
    InvalidDigit,
    TooLarge,
}

/// The outcome of reading a decimal number.
pub enum NumberRead {
    Value(nat),
    Failed(NumberError),
}

pub open spec fn digit_value(c: char) -> Option<nat> {
    if '0' <= c <= '9' { Some((c as u32 - '0' as u32) as nat) } else { None }
}

/// Reads digits left to right onto `acc`: the first character that is not a
/// digit, or the first digit that takes the number above `max`, decides the
/// failure.
pub open spec fn scan_digits(s: Seq<char>, acc: nat, max: nat) -> NumberRead
    decreases s.len(),
{
    if s.len() == 0 {
        NumberRead::Value(acc)
    } else {
        match digit_value(s[0]) {
            None => NumberRead::Failed(NumberError::InvalidDigit),
            Some(d) => if acc * 10 + d > max {
                NumberRead::Failed(NumberError::TooLarge)
            } else {
                scan_digits(s.drop_first(), acc * 10 + d, max)
            },
        }
    }
}

/// A decimal number of at most `max`, as an unsigned integer's `from_str`
/// reads it: not empty, one optional leading `+`, then digits only.
pub open spec fn read_unsigned(s: Seq<char>, max: nat) -> NumberRead {
    if s.len() == 0 {
        NumberRead::Failed(NumberError::Empty)
    } else if s.len() == 1 && (s[0] == '+' || s[0] == '-') {
        NumberRead::Failed(NumberError::InvalidDigit)
    } else if s[0] == '+' {
        scan_digits(s.drop_first(), 0, max)
    } else {
        scan_digits(s, 0, max)
    }
}

fn digit_of(c: char) -> (r: Option<u64>)
    ensures
        match digit_value(c) {
            Some(d) => r == Some(d as u64),
            None => r is None,
        },
{
    if '0' <= c && c <= '9' {
        Some((c as u32 - '0' as u32) as u64)
    } else {
        None
    }
}

/// Reads a decimal number of at most `max`.
pub fn parse_unsigned(s: &str, max: u64) -> (r: Result<u64, NumberError>)
    ensures
        match read_unsigned(s@, max as nat) {
            NumberRead::Value(v) => r == Ok::<u64, NumberError>(v as u64) && v <= max,
            NumberRead::Failed(e) => r == Err::<u64, NumberError>(e),
        },
{
    let v = chars_of(s);
    if v.len() == 0 {
        return Err(NumberError::Empty);
    }
    if v.len() == 1 && (v[0] == '+' || v[0] == '-') {
        return Err(NumberError::InvalidDigit);
    }
    let start: usize = if v[0] == '+' { 1 } else { 0 };
    let ghost digits = s@.skip(start as int);
    assert(start == 1 ==> digits =~= s@.drop_first());
    assert(start == 0 ==> digits =~= s@);
    assert(read_unsigned(s@, max as nat) == scan_digits(digits, 0, max as nat));
    let mut acc: u64 = 0;
    let mut i: usize = start;
    while i < v.len()
        invariant
            v@ == s@,
            start <= i <= v.len(),
            digits == s@.skip(start as int),
            read_unsigned(s@, max as nat) == scan_digits(digits, 0, max as nat),
            acc <= max,
            scan_digits(digits, 0, max as nat) == scan_digits(s@.skip(i as int), acc as nat, max as nat),
        decreases v.len() - i,
    {
        let ghost rest = s@.skip(i as int);
        assert(rest[0] == v@[i as int]);
        match digit_of(v[i]) {
            None => {
                assert(digit_value(rest[0]) is None);
                assert(scan_digits(rest, acc as nat, max as nat) == NumberRead::Failed(
                    NumberError::InvalidDigit,
                ));
                return Err(NumberError::InvalidDigit);
            },
            Some(d) => {
                let next: u128 = (acc as u128) * 10 + (d as u128);
                if next > max as u128 {
                    assert(scan_digits(rest, acc as nat, max as nat) == NumberRead::Failed(
                        NumberError::TooLarge,
                    ));
                    return Err(NumberError::TooLarge);
                }
                assert(rest.drop_first() =~= s@.skip(i + 1));
                acc = next as u64;
            },
        }
        i += 1;
    }
    assert(s@.skip(v.len() as int) =~= Seq::<char>::empty());
    Ok(acc)
}

/// What the standard library says of each reading failure.
pub open spec fn number_error_text(e: NumberError) -> Seq<char> {
    match e {
        NumberError::Empty => "cannot parse integer from empty string"@,
        NumberError::InvalidDigit => "invalid digit found in string"@,
        NumberError::TooLarge => "number too large to fit in target type"@,
    }
}

fn number_error_message(e: NumberError) -> (r: &'static str)
    ensures
        r@ == number_error_text(e),
{
    match e {
        NumberError::Empty => "cannot parse integer from empty string",
        NumberError::InvalidDigit => "invalid digit found in string",
        NumberError::TooLarge => "number too large to fit in target type",
    }
}

/// The environment's values, as (name, value) pairs; the first pair with a
/// name gives its value.
#[derive(Debug, Clone, PartialEq, Eq)]
pub struct EnvSnapshot {
    pub vars: Vec<(String, String)>,
}

pub open spec fn env_value(vars: Seq<(String, String)>, name: Seq<char>) -> Option<Seq<char>>
    decreases vars.len(),
{
    if vars.len() == 0 {
        None
    } else if vars[0].0@ == name {
        Some(vars[0].1@)
    } else {
        env_value(vars.drop_first(), name)
    }
}

impl EnvSnapshot {
    pub fn lookup(&self, name: &str) -> (r: Option<String>)
        ensures
            match env_value(self.vars@, name@) {
                Some(v) => r matches Some(s) && s@ == v,
                None => r is None,
            },
    {
        let mut i: usize = 0;
        assert(self.vars@.skip(0) =~= self.vars@);
        while i < self.vars.len()
            invariant
                i <= self.vars@.len(),
                env_value(self.vars@, name@) == env_value(self.vars@.skip(i as int), name@),
            decreases self.vars.len() - i,
        {
            let ghost rest = self.vars@.skip(i as int);
            assert(rest[0] == self.vars@[i as int]);
            assert(rest.drop_first() =~= self.vars@.skip(i + 1));
            if same_chars(self.vars[i].0.as_str(), name) {
                return Some(self.vars[i].1.clone());
            }
            i += 1;
        }
        None
    }
}

/// The setting `name` read as a number of at most `max`, `default` when unset.
pub open spec fn setting_number(env: Seq<(String, String)>, name: Seq<char>, default: nat, max: nat) -> NumberRead {
    match env_value(env, name) {
        Some(raw) => read_unsigned(raw, max),
        None => NumberRead::Value(default),
    }
}

pub open spec fn setting_fault(name: Seq<char>, kind: Seq<char>, e: NumberError) -> Fault {
    Fault::Validation(name + " must be a valid "@ + kind + ": "@ + number_error_text(e))
}

/// Reads a numeric setting; an unset one takes its default, an unreadable one
/// is refused naming the setting and the reason.
fn number_setting(env: &EnvSnapshot, name: &str, kind: &str, default: u64, max: u64) -> (r: Result<u64, CoreError>)
    requires
        default <= max,
    ensures
        match setting_number(env.vars@, name@, default as nat, max as nat) {
            NumberRead::Value(v) => r == Ok::<u64, CoreError>(v as u64) && v <= max,
            NumberRead::Failed(e) => r matches Err(x) && x@ == setting_fault(name@, kind@, e),
        },
{
    match env.lookup(name) {
        Some(raw) => match parse_unsigned(raw.as_str(), max) {
            Ok(v) => Ok(v),
            Err(e) => {
                let a = concat(name, " must be a valid ");
                let b = concat(a.as_str(), kind);
                let c = concat(b.as_str(), ": ");
                Err(CoreError::Validation(concat(c.as_str(), number_error_message(e))))
            },
        },
        None => Ok(default),
    }
}

fn text_setting(env: &EnvSnapshot, name: &str, default: &str) -> (r: String)
    ensures
        r@ == match env_value(env.vars@, name@) {
            Some(v) => v,
            None => default@,
        },
{
    match env.lookup(name) {
        Some(v) => v,
        None => owned(default),
    }
}

/// Where the OpenAI-compatible embedding provider is and how it is called.
#[derive(Debug, Clone, PartialEq, Eq)]
pub struct OpenAiCompatConfig {
    pub base_url: String,
    pub api_key: Option<String>,
    pub timeout_ms: u64,
    pub max_retries: u32,
}

/// Everything the services are built from.
#[derive(Debug, Clone, PartialEq, Eq)]
pub struct RuntimeConfig {
    pub qdrant: QdrantRepositoryConfig,
    pub openai: OpenAiCompatConfig,
    pub embedding_model: String,
    pub query_top_k_default: usize,
    pub query_top_k_max: usize,
    pub embed_concurrency: usize,
    pub embed_batch_size: usize,
    pub upsert_concurrency: usize,
    pub upsert_batch_size: usize,
}

pub open spec fn usize_max() -> nat {
    usize::MAX as nat
}

/// The value of a numeric setting that reads as a number.
pub open spec fn number_value(r: NumberRead) -> nat {
    match r {
        NumberRead::Value(v) => v,
        NumberRead::Failed(_) => 0,
    }
}

pub open spec fn number_failure(r: NumberRead, name: Seq<char>, kind: Seq<char>) -> Option<Fault> {
    match r {
        NumberRead::Value(_) => None,
        NumberRead::Failed(e) => Some(setting_fault(name, kind, e)),
    }
}

/// Why the settings in `env` are refused, if they are, checked in this order:
/// the vector size (read, then positive); the default and largest `k` (read,
/// then the default between one and the largest); the provider timeout (read,
/// then positive); the four ingest settings (read, then each positive); the
/// provider's retry count (read).
pub open spec fn config_fault(env: Seq<(String, String)>) -> Option<Fault> {
    let vector = setting_number(env, "QDRANT_VECTOR_SIZE"@, 1536, u64::MAX as nat);
    let dk = setting_number(env, "QUERY_TOP_K_DEFAULT"@, 4, usize_max());
    let mk = setting_number(env, "QUERY_TOP_K_MAX"@, 20, usize_max());
    let timeout = setting_number(env, "OPENAI_TIMEOUT_MS"@, 30000, u64::MAX as nat);
    let ec = setting_number(env, "INGEST_EMBED_CONCURRENCY"@, 4, usize_max());
    let eb = setting_number(env, "INGEST_EMBED_BATCH_SIZE"@, 50, usize_max());
    let uc = setting_number(env, "INGEST_UPSERT_CONCURRENCY"@, 4, usize_max());
    let ub = setting_number(env, "INGEST_UPSERT_BATCH_SIZE"@, 100, usize_max());
    let retries = setting_number(env, "OPENAI_MAX_RETRIES"@, 2, u32::MAX as nat);
    if number_failure(vector, "QDRANT_VECTOR_SIZE"@, "u64"@) is Some {
        number_failure(vector, "QDRANT_VECTOR_SIZE"@, "u64"@)
    } else if number_value(vector) == 0 {
        Some(Fault::Validation("QDRANT_VECTOR_SIZE must be greater than 0"@))
    } else if number_failure(dk, "QUERY_TOP_K_DEFAULT"@, "usize"@) is Some {
        number_failure(dk, "QUERY_TOP_K_DEFAULT"@, "usize"@)
    } else if number_failure(mk, "QUERY_TOP_K_MAX"@, "usize"@) is Some {
        number_failure(mk, "QUERY_TOP_K_MAX"@, "usize"@)
    } else if number_value(dk) == 0 || number_value(dk) > number_value(mk) {
        Some(Fault::Validation("QUERY_TOP_K_DEFAULT must be between 1 and QUERY_TOP_K_MAX"@))
    } else if number_failure(timeout, "OPENAI_TIMEOUT_MS"@, "u64"@) is Some {
        number_failure(timeout, "OPENAI_TIMEOUT_MS"@, "u64"@)
    } else if number_value(timeout) == 0 {
        Some(Fault::Validation("OPENAI_TIMEOUT_MS must be greater than 0"@))
    } else if number_failure(ec, "INGEST_EMBED_CONCURRENCY"@, "usize"@) is Some {
        number_failure(ec, "INGEST_EMBED_CONCURRENCY"@, "usize"@)
    } else if number_failure(eb, "INGEST_EMBED_BATCH_SIZE"@, "usize"@) is Some {
        number_failure(eb, "INGEST_EMBED_BATCH_SIZE"@, "usize"@)
    } else if number_failure(uc, "INGEST_UPSERT_CONCURRENCY"@, "usize"@) is Some {
        number_failure(uc, "INGEST_UPSERT_CONCURRENCY"@, "usize"@)
    } else if number_failure(ub, "INGEST_UPSERT_BATCH_SIZE"@, "usize"@) is Some {
        number_failure(ub, "INGEST_UPSERT_BATCH_SIZE"@, "usize"@)
    } else if number_value(ec) == 0 {
        Some(Fault::Validation("INGEST_EMBED_CONCURRENCY must be greater than 0"@))
    } else if number_value(eb) == 0 {
        Some(Fault::Validation("INGEST_EMBED_BATCH_SIZE must be greater than 0"@))
    } else if number_value(uc) == 0 {
        Some(Fault::Validation("INGEST_UPSERT_CONCURRENCY must be greater than 0"@))
    } else if number_value(ub) == 0 {
        Some(Fault::Validation("INGEST_UPSERT_BATCH_SIZE must be greater than 0"@))
    } else {
        number_failure(retries, "OPENAI_MAX_RETRIES"@, "u32"@)
    }
}

/// The text setting `name`, `default` when unset.
pub open spec fn text_value(env: Seq<(String, String)>, name: Seq<char>, default: Seq<char>) -> Seq<char> {
    match env_value(env, name) {
        Some(v) => v,
        None => default,
    }
}

/// The optional setting `name`.
pub open spec fn optional_value(env: Seq<(String, String)>, name: Seq<char>, r: Option<String>) -> bool {
    match env_value(env, name) {
        Some(v) => r matches Some(s) && s@ == v,
        None => r is None,
    }
}

/// The configuration that accepted settings describe.
pub open spec fn configured(env: Seq<(String, String)>, c: RuntimeConfig) -> bool {
    &&& c.qdrant.url@ == text_value(env, "QDRANT_URL"@, "http://localhost:6334"@)
    &&& optional_value(env, "QDRANT_API_KEY"@, c.qdrant.api_key)
    &&& c.qdrant.collection_name@ == text_value(env, "QDRANT_COLLECTION"@, "chunks_te3_small"@)
    &&& c.qdrant.vector_size == number_value(
        setting_number(env, "QDRANT_VECTOR_SIZE"@, 1536, u64::MAX as nat),
    )
    &&& c.openai.base_url@ == text_value(env, "OPENAI_BASE_URL"@, "https://api.openai.com"@)
    &&& optional_value(env, "OPENAI_API_KEY"@, c.openai.api_key)
    &&& c.openai.timeout_ms == number_value(
        setting_number(env, "OPENAI_TIMEOUT_MS"@, 30000, u64::MAX as nat),
    )
    &&& c.openai.max_retries == number_value(
        setting_number(env, "OPENAI_MAX_RETRIES"@, 2, u32::MAX as nat),
    )
    &&& c.embedding_model@ == text_value(env, "OPENAI_EMBED_MODEL"@, "text-embedding-3-small"@)
    &&& c.query_top_k_default == number_value(
        setting_number(env, "QUERY_TOP_K_DEFAULT"@, 4, usize_max()),
    )
    &&& c.query_top_k_max == number_value(setting_number(env, "QUERY_TOP_K_MAX"@, 20, usize_max()))
    &&& c.embed_concurrency == number_value(
        setting_number(env, "INGEST_EMBED_CONCURRENCY"@, 4, usize_max()),
    )
    &&& c.embed_batch_size == number_value(
        setting_number(env, "INGEST_EMBED_BATCH_SIZE"@, 50, usize_max()),
    )
    &&& c.upsert_concurrency == number_value(
        setting_number(env, "INGEST_UPSERT_CONCURRENCY"@, 4, usize_max()),
    )
    &&& c.upsert_batch_size == number_value(
        setting_number(env, "INGEST_UPSERT_BATCH_SIZE"@, 100, usize_max()),
    )
}

fn optional_setting(env: &EnvSnapshot, name: &str) -> (r: Option<String>)
    ensures
        optional_value(env.vars@, name@, r),
{
    env.lookup(name)
}

impl RuntimeConfig {
    /// The configuration the environment's values describe, or the first
    /// reason they are refused.
    pub fn from_env_values(env: &EnvSnapshot) -> (r: Result<RuntimeConfig, CoreError>)
        ensures
            match config_fault(env.vars@) {
                Some(f) => r matches Err(e) && e@ == f,
                None => r matches Ok(c) && configured(env.vars@, c),
            },
    {
        let vector_size = number_setting(env, "QDRANT_VECTOR_SIZE", "u64", 1536, u64::MAX)?;
        if vector_size == 0 {
            return Err(
                CoreError::Validation("QDRANT_VECTOR_SIZE must be greater than 0".to_owned()),
            );
        }
        let umax = usize::MAX as u64;
        let default_k = number_setting(env, "QUERY_TOP_K_DEFAULT", "usize", 4, umax)?;
        let max_k = number_setting(env, "QUERY_TOP_K_MAX", "usize", 20, umax)?;
        if default_k == 0 || default_k > max_k {
            return Err(
                CoreError::Validation(
                    "QUERY_TOP_K_DEFAULT must be between 1 and QUERY_TOP_K_MAX".to_owned(),
                ),
            );
        }
        let timeout_ms = number_setting(env, "OPENAI_TIMEOUT_MS", "u64", 30000, u64::MAX)?;
        if timeout_ms == 0 {
            return Err(
                CoreError::Validation("OPENAI_TIMEOUT_MS must be greater than 0".to_owned()),
            );
        }
        let embed_concurrency = number_setting(env, "INGEST_EMBED_CONCURRENCY", "usize", 4, umax)?;
        let embed_batch_size = number_setting(env, "INGEST_EMBED_BATCH_SIZE", "usize", 50, umax)?;
        let upsert_concurrency = number_setting(env, "INGEST_UPSERT_CONCURRENCY", "usize", 4, umax)?;
        let upsert_batch_size = number_setting(env, "INGEST_UPSERT_BATCH_SIZE", "usize", 100, umax)?;
        if embed_concurrency == 0 {
            return Err(
                CoreError::Validation("INGEST_EMBED_CONCURRENCY must be greater than 0".to_owned()),
            );
        }
        if embed_batch_size == 0 {
            return Err(
                CoreError::Validation("INGEST_EMBED_BATCH_SIZE must be greater than 0".to_owned()),
            );
        }
        if upsert_concurrency == 0 {
            return Err(
                CoreError::Validation("INGEST_UPSERT_CONCURRENCY must be greater than 0".to_owned()),
            );
        }
        if upsert_batch_size == 0 {
            return Err(
                CoreError::Validation("INGEST_UPSERT_BATCH_SIZE must be greater than 0".to_owned()),
            );
        }
        let qdrant = QdrantRepositoryConfig {
            url: text_setting(env, "QDRANT_URL", "http://localhost:6334"),
            api_key: optional_setting(env, "QDRANT_API_KEY"),
            collection_name: text_setting(env, "QDRANT_COLLECTION", "chunks_te3_small"),
            vector_size,
        };
        let base_url = text_setting(env, "OPENAI_BASE_URL", "https://api.openai.com");
        let api_key = optional_setting(env, "OPENAI_API_KEY");
        let max_retries = number_setting(env, "OPENAI_MAX_RETRIES", "u32", 2, u32::MAX as u64)?;
        let openai = OpenAiCompatConfig { base_url, api_key, timeout_ms, max_retries: max_retries as u32 };
        Ok(RuntimeConfig {
            qdrant,
            openai,
            embedding_model: text_setting(env, "OPENAI_EMBED_MODEL", "text-embedding-3-small"),
            query_top_k_default: default_k as usize,
            query_top_k_max: max_k as usize,
            embed_concurrency: embed_concurrency as usize,
            embed_batch_size: embed_batch_size as usize,
            upsert_concurrency: upsert_concurrency as usize,
            upsert_batch_size: upsert_batch_size as usize,
        })
    }
}

/// Reading the numeral of a number gives the number back, whenever the number
/// fits the limit.
pub proof fn law_decimal_reads_back(n: nat, max: nat)
    requires
        n <= max,
    ensures
        read_unsigned(crate::text::decimal(n), max) == NumberRead::Value(n),
{
    lemma_decimal_scan(n, max);
    lemma_decimal_shape(n);
}

proof fn lemma_decimal_shape(n: nat)
    ensures
        crate::text::decimal(n).len() >= 1,
        '0' <= crate::text::decimal(n)[0] <= '9',
    decreases n,
{
    if n >= 10 {
        lemma_decimal_shape(n / 10);
    }
}

proof fn lemma_digit_char(d: nat)
    requires
        d < 10,
    ensures
        digit_value(crate::text::digit_char(d)) == Some(d),
{
}

proof fn lemma_scan_append(s: Seq<char>, t: Seq<char>, acc: nat, max: nat)
    requires
        scan_digits(s, acc, max) matches NumberRead::Value(_),
    ensures
        scan_digits(s + t, acc, max) == match scan_digits(s, acc, max) {
            NumberRead::Value(v) => scan_digits(t, v, max),
            NumberRead::Failed(e) => NumberRead::Failed(e),
        },
    decreases s.len(),
{
    if s.len() > 0 {
        let d = digit_value(s[0])->0;
        assert((s + t).drop_first() =~= s.drop_first() + t);
        lemma_scan_append(s.drop_first(), t, acc * 10 + d, max);
    } else {
        assert(s + t =~= t);
    }
}

/// Scanning the numeral of `n` onto an accumulator of zero gives `n`.
proof fn lemma_decimal_scan(n: nat, max: nat)
    requires
        n <= max,
    ensures
        scan_digits(crate::text::decimal(n), 0, max) == NumberRead::Value(n),
    decreases n,
{
    let s = crate::text::decimal(n);
    if n < 10 {
        lemma_digit_char(n);
        assert(s == seq![crate::text::digit_char(n)]);
        assert(s[0] == crate::text::digit_char(n));
        assert(s.drop_first() =~= Seq::<char>::empty());
        assert(scan_digits(s.drop_first(), n, max) == NumberRead::Value(n));
    } else {
        lemma_decimal_scan(n / 10, max);
        let p = crate::text::decimal(n / 10);
        let last = crate::text::digit_char(n % 10);
        assert(s == p.push(last));
        assert(p.push(last) =~= p + seq![last]);
        lemma_scan_append(p, seq![last], 0, max);
        lemma_digit_char(n % 10);
        assert((n / 10) * 10 + n % 10 == n);
        assert(seq![last].drop_first() =~= Seq::<char>::empty());
        assert(seq![last][0] == last);
        assert(scan_digits(seq![last].drop_first(), n, max) == NumberRead::Value(n));
        assert(scan_digits(seq![last], n / 10, max) == NumberRead::Value(n));
    }
}

} // verus!
