//! Input validation and key normalization: the raw query is trimmed, and the
//! cache key is the lower-cased trimmed query under the data-source
//! namespace, so that two spellings of the same query share one entry.

use vstd::prelude::*;
use vstd::string::StringExecFns;
use crate::errors::OracleError;

verus! {

/// What str::trim returns: the characters with leading and trailing
/// whitespace removed. The result depends on the characters alone.
pub uninterp spec fn trim_of(s: Seq<char>) -> Seq<char>;

/// What str::to_lowercase returns. The result depends on the characters
/// alone.
pub uninterp spec fn lower_of(s: Seq<char>) -> Seq<char>;

/// The upstream search URL built from a base URL and a query, with the fixed
/// result limit and field list attached; `None` exactly when the base does
/// not parse as a URL. The result depends on the two arguments alone.
pub uninterp spec fn search_url_of(base: Seq<char>, q: Seq<char>) -> Option<Seq<char>>;

/// Relies on str::trim: removes leading and trailing whitespace and returns
/// a part of the input, so the result is never longer than the input and the
/// trim of an empty string is empty.
#[verifier::external_body]
fn trim_str(s: &String) -> (r: String)
    ensures
        r@ == trim_of(s@),
        r@.len() <= s@.len(),
{
    s.trim().to_string()
}

/// Relies on str::to_lowercase: the lower-cased form of an empty string is
/// empty.
#[verifier::external_body]
fn lower_str(s: &String) -> (r: String)
    ensures
        r@ == lower_of(s@),
        s@.len() == 0 ==> r@.len() == 0,
{
    s.to_lowercase()
}

/// Relies on reqwest::Url::parse and UrlQuery::append_pair: parses the base
/// followed by the fixed search path, appends the fixed query pairs (the
/// query itself, the result limit of one, and the field list), and renders
/// the result; fails exactly when the base does not parse. The path and the
/// pairs are fixed by the upstream interface and live in this trusted body;
/// the runtime tests pin them.
#[verifier::external_body]
fn build_url(base: &String, q: &String) -> (r: Option<String>)
    ensures
        r is Some <==> search_url_of(base@, q@) is Some,
        r matches Some(u) ==> search_url_of(base@, q@) == Some(u@),
{
    let mut url = match reqwest::Url::parse(&format!("{}/anime", base)) {
        Ok(u) => u,
        Err(_) => {
            return None;
        },
    };
    url.query_pairs_mut()
        .append_pair("q", q)
        .append_pair("limit", "1")
        .append_pair("fields", "mean,popularity,num_list_users");
    Some(url.as_str().to_string())
}

/// The namespaced cache key of a raw query: the data-source prefix followed
/// by the lower-cased trimmed query.
pub open spec fn norm_key_of(raw: Seq<char>) -> Seq<char> {
    "mal:"@ + lower_of(trim_of(raw))
}

/// Two raw queries with the same trimmed, case-folded form always share one
/// cache key.
pub proof fn lemma_key_normalization(a: Seq<char>, b: Seq<char>)
    requires
        lower_of(trim_of(a)) == lower_of(trim_of(b)),
    ensures
        norm_key_of(a) == norm_key_of(b),
{
}

/// A validated query: the trimmed name (sent upstream as-is) and the
/// normalized cache key.
pub struct PreparedQuery {
    pub name: String,
    pub key: String,
}

impl PreparedQuery {
    /// The pair belongs to this raw query.
    pub open spec fn is_for(&self, raw: Seq<char>) -> bool {
        &&& self.name@ == trim_of(raw)
        &&& self.name@.len() > 0
        &&& self.key@ == norm_key_of(raw)
    }
}

/// Validates a raw query and derives its upstream name and cache key. An
/// input that is empty after trimming is rejected with `InvalidInput`; every
/// other input is accepted.
pub fn prepare_query(raw: &String) -> (r: Result<PreparedQuery, OracleError>)
    ensures
        match r {
            Ok(p) => trim_of(raw@).len() > 0 && p.is_for(raw@),
            Err(e) => trim_of(raw@).len() == 0 && e == OracleError::InvalidInput,
        },
{
    let name = trim_str(raw);
    if name.as_str().is_empty() {
        return Err(OracleError::InvalidInput);
    }
    let lowered = lower_str(&name);
    let key = String::from_str("mal:").concat(lowered.as_str());
    Ok(PreparedQuery { name, key })
}

/// The credential attached to an upstream request, by fixed precedence: the
/// primary client id wins; the bearer token is used only when the primary is
/// absent.
pub enum Credential {
    ClientId(String),
    Bearer(String),
    Anonymous,
}

/// Chooses the credential from the configured values.
pub fn choose_credential(client_id: Option<String>, bearer: Option<String>) -> (r: Credential)
    ensures
        match r {
            Credential::ClientId(c) => client_id matches Some(x) && c == x,
            Credential::Bearer(t) => client_id is None && (bearer matches Some(x) && t == x),
            Credential::Anonymous => client_id is None && bearer is None,
        },
{
    match client_id {
        Some(c) => Credential::ClientId(c),
        None => match bearer {
            Some(t) => Credential::Bearer(t),
            None => Credential::Anonymous,
        },
    }
}

/// Builds the upstream search URL for a validated query; `ConfigError`
/// exactly when the configured base URL is malformed.
pub fn build_search_url(base: &String, name: &String) -> (r: Result<String, OracleError>)
    ensures
        match r {
            Ok(u) => search_url_of(base@, name@) == Some(u@),
            Err(e) => search_url_of(base@, name@) is None && e == OracleError::ConfigError,
        },
{
    match build_url(base, name) {
        Some(u) => Ok(u),
        None => Err(OracleError::ConfigError),
    }
}

} // verus!
