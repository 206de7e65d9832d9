//! Configuration of the backend: inference provider, upstream URLs, limits,
//! the bind address, allowed front-end origins and list pagination.

use vstd::prelude::*;
use crate::text::{
    all_ws, ascii_lower, ascii_lowercase, concat2, i64_to_string, int_decimal, is_ws, law_decimal_round_trip, lemma_trim_fixed, lemma_trim_padded, lemma_trim_shape, concat3, i64_of_decimal, parse_i64, to_ascii_lowercase, trim,
    trim_end_char, trim_end_matches_char, trim_str,
};

verus! {

/// The front-end origin allowed when none is configured.
pub const DEFAULT_FRONTEND_ORIGIN: &'static str = "http://localhost:3900";

/// The LM Studio server used when none is configured.
pub const DEFAULT_LM_STUDIO_URL: &'static str = "http://127.0.0.1:1234";

/// The JKCA application used when none is configured.
pub const DEFAULT_JKCA_APP_BASE_URL: &'static str = "http://127.0.0.1:8100";

/// The inference provider used when none is configured.
pub const DEFAULT_INFERENCE_PROVIDER: &'static str = "lmstudio";

/// The address the server listens on when none (or an invalid one) is configured.
pub const DEFAULT_BIND_ADDR: &'static str = "0.0.0.0:3901";

/// The completion length asked for when none (or an invalid one) is configured.
pub const DEFAULT_CHAT_MAX_TOKENS: i64 = 150;

/// The page size of list endpoints when the query names none.
pub const DEFAULT_PAGE_SIZE: i64 = 100;

/// The largest page size that list endpoints serve.
pub const MAX_PAGE_SIZE: i64 = 200;

/// The inference backend that serves chat completions.
#[derive(Clone, Copy, Debug, PartialEq, Eq, Structural)]
pub enum InferenceProvider {
    Jkca,
    LmStudio,
}

/// The provider that a configured name stands for, once trimmed and
/// lower-cased.
pub open spec fn provider_named(name: Seq<char>) -> Option<InferenceProvider> {
    if name == "jkca"@ || name == "jkca-agent"@ {
        Some(InferenceProvider::Jkca)
    } else if name == "lmstudio"@ || name == "lm_studio"@ || name == "lm-studio"@ {
        Some(InferenceProvider::LmStudio)
    } else {
        None
    }
}

/// The message for a provider name that names no provider.
pub open spec fn unsupported_provider_message(name: Seq<char>) -> Seq<char> {
    "unsupported EMAILBRAIN_INFERENCE_PROVIDER '"@ + name + "' (expected 'jkca' or 'lmstudio')"@
}

impl InferenceProvider {
    /// The canonical name of the provider.
    pub open spec fn name(self) -> Seq<char> {
        match self {
            InferenceProvider::Jkca => "jkca"@,
            InferenceProvider::LmStudio => "lmstudio"@,
        }
    }

    /// Reads a provider from its configured name: surrounding white space and
    /// ASCII case do not matter.
    pub fn parse(raw: &str) -> (r: Result<Self, String>)
        ensures
            ({
                let name = ascii_lowercase(trim(raw@));
                match r {
                    Ok(p) => provider_named(name) == Some(p),
                    Err(m) => provider_named(name) is None && m@ == unsupported_provider_message(
                        name,
                    ),
                }
            }),
    {
        let trimmed = trim_str(raw);
        let name = to_ascii_lowercase(trimmed.as_str());
        if name == "jkca".to_string() || name == "jkca-agent".to_string() {
            Ok(InferenceProvider::Jkca)
        } else if name == "lmstudio".to_string() || name == "lm_studio".to_string() || name
            == "lm-studio".to_string() {
            Ok(InferenceProvider::LmStudio)
        } else {
            Err(
                concat3(
                    "unsupported EMAILBRAIN_INFERENCE_PROVIDER '",
                    name.as_str(),
                    "' (expected 'jkca' or 'lmstudio')",
                ),
            )
        }
    }

    /// The canonical name of the provider.
    pub fn as_str(self) -> (s: &'static str)
        ensures
            s@ == self.name(),
    {
        match self {
            InferenceProvider::Jkca => "jkca",
            InferenceProvider::LmStudio => "lmstudio",
        }
    }
}

/// The provider named by the configured text `raw`, or LM Studio when it
/// names none; in that case also the warning to log.
pub fn provider_or_default(raw: &str) -> (r: (InferenceProvider, Option<String>))
    ensures
        ({
            let name = ascii_lowercase(trim(raw@));
            match provider_named(name) {
                Some(p) => r.0 == p && r.1 is None,
                None => r.0 == InferenceProvider::LmStudio && (r.1 matches Some(w) && w@
                    == unsupported_provider_message(name) + "; falling back to "@
                    + DEFAULT_INFERENCE_PROVIDER@),
            }
        }),
{
    match InferenceProvider::parse(raw) {
        Ok(p) => (p, None),
        Err(mut message) => {
            message.append("; falling back to ");
            message.append(DEFAULT_INFERENCE_PROVIDER);
            (InferenceProvider::LmStudio, Some(message))
        },
    }
}

/// The provider that serves a chat: LM Studio whenever an adapter is
/// selected, the configured default otherwise.
pub fn preferred_inference_provider(default_provider: InferenceProvider, has_adapter: bool) -> (p:
    InferenceProvider)
    ensures
        p == (if has_adapter {
            InferenceProvider::LmStudio
        } else {
            default_provider
        }),
{
    if has_adapter {
        InferenceProvider::LmStudio
    } else {
        default_provider
    }
}

/// The LM Studio chat-completions endpoint under `base`.
pub open spec fn lm_chat_url_of(base: Seq<char>) -> Seq<char> {
    trim_end_char(base, '/') + "/v1/chat/completions"@
}

/// The JKCA generation endpoint under `base`.
pub open spec fn jkca_url_of(base: Seq<char>) -> Seq<char> {
    trim_end_char(base, '/') + "/api/runtime/generate"@
}

/// The LM Studio chat-completions endpoint under `base_url`.
pub fn lm_chat_url(base_url: &str) -> (r: String)
    ensures
        r@ == lm_chat_url_of(base_url@),
{
    let base = trim_end_matches_char(base_url, '/');
    concat2(base.as_str(), "/v1/chat/completions")
}

/// The JKCA generation endpoint under `base_url`.
pub fn jkca_runtime_generate_url(base_url: &str) -> (r: String)
    ensures
        r@ == jkca_url_of(base_url@),
{
    let base = trim_end_matches_char(base_url, '/');
    concat2(base.as_str(), "/api/runtime/generate")
}

/// The configured completion length: the trimmed text as an `i64` when it
/// is positive, else the default.
pub open spec fn chat_max_tokens_of(raw: Seq<char>) -> i64 {
    match i64_of_decimal(trim(raw)) {
        Some(v) => if v > 0 {
            v
        } else {
            DEFAULT_CHAT_MAX_TOKENS
        },
        None => DEFAULT_CHAT_MAX_TOKENS,
    }
}

/// Reads the configured completion length.
pub fn parse_chat_max_tokens(raw: &str) -> (n: i64)
    ensures
        n == chat_max_tokens_of(raw@),
        n > 0,
{
    let trimmed = trim_str(raw);
    match parse_i64(trimmed.as_str()) {
        Some(v) => if v > 0 {
            v
        } else {
            DEFAULT_CHAT_MAX_TOKENS
        },
        None => DEFAULT_CHAT_MAX_TOKENS,
    }
}

/// Whether the trimmed text `raw` is a positive `i64` in decimal.
pub open spec fn chat_max_tokens_valid(raw: Seq<char>) -> bool {
    i64_of_decimal(trim(raw)) matches Some(v) && v > 0
}

/// Reads the configured completion length, with the warning to log when the
/// setting is not a positive integer and the default is used.
pub fn chat_max_tokens_setting(raw: &str) -> (r: (i64, Option<String>))
    ensures
        r.0 == chat_max_tokens_of(raw@),
        (r.1 is None) == chat_max_tokens_valid(raw@),
        r.1 matches Some(w) ==> w@ == "invalid EMAILBRAIN_CHAT_MAX_TOKENS '"@ + raw@
            + "'; falling back to "@ + int_decimal(DEFAULT_CHAT_MAX_TOKENS as int),
{
    let n = parse_chat_max_tokens(raw);
    let valid = match parse_i64(trim_str(raw).as_str()) {
        Some(v) => v > 0,
        None => false,
    };
    if valid {
        (n, None)
    } else {
        let mut w = concat3("invalid EMAILBRAIN_CHAT_MAX_TOKENS '", raw, "'; falling back to ");
        let d = i64_to_string(DEFAULT_CHAT_MAX_TOKENS);
        w.append(d.as_str());
        (n, Some(w))
    }
}

/// Reads the configured listening address: the trimmed text when it is a
/// socket address (`trimmed_is_socket_addr` says whether it is), else the
/// default.
pub fn parse_bind_addr(raw: &str, trimmed_is_socket_addr: bool) -> (r: String)
    ensures
        r@ == (if trimmed_is_socket_addr {
            trim(raw@)
        } else {
            DEFAULT_BIND_ADDR@
        }),
{
    if trimmed_is_socket_addr {
        trim_str(raw)
    } else {
        DEFAULT_BIND_ADDR.to_string()
    }
}

/// Paging parameters of a list request.
pub struct ListQuery {
    pub limit: Option<i64>,
    pub offset: Option<i64>,
}

/// The page size served for a requested one: the default when none is
/// given, clamped to `1..=MAX_PAGE_SIZE`.
pub open spec fn page_limit(limit: Option<i64>) -> i64 {
    let l = match limit {
        Some(l) => l,
        None => DEFAULT_PAGE_SIZE,
    };
    if l < 1 {
        1
    } else if l > MAX_PAGE_SIZE {
        MAX_PAGE_SIZE
    } else {
        l
    }
}

/// The offset served for a requested one: zero when none is given or it is
/// negative.
pub open spec fn page_offset(offset: Option<i64>) -> i64 {
    match offset {
        Some(o) => if o < 0 {
            0
        } else {
            o
        },
        None => 0,
    }
}

/// The `(limit, offset)` pair that a list request is served with.
pub fn pagination(query: ListQuery) -> (r: (i64, i64))
    ensures
        r.0 == page_limit(query.limit),
        r.1 == page_offset(query.offset),
        1 <= r.0 <= MAX_PAGE_SIZE,
        r.1 >= 0,
{
    let requested = match query.limit {
        Some(l) => l,
        None => DEFAULT_PAGE_SIZE,
    };
    let limit = if requested < 1 {
        1
    } else if requested > MAX_PAGE_SIZE {
        MAX_PAGE_SIZE
    } else {
        requested
    };
    let offset = match query.offset {
        Some(o) => if o < 0 {
            0
        } else {
            o
        },
        None => 0,
    };
    (limit, offset)
}


/// A provider's canonical name reads back as that provider.
pub proof fn law_provider_name_round_trip(p: InferenceProvider)
    ensures
        provider_named(ascii_lowercase(trim(p.name()))) == Some(p),
{
    reveal_strlit("jkca");
    reveal_strlit("jkca-agent");
    reveal_strlit("lmstudio");
    reveal_strlit("lm_studio");
    reveal_strlit("lm-studio");
    let n = p.name();
    assert(!is_ws(n[0]) && !is_ws(n.last()));
    lemma_trim_fixed(n);
    assert(ascii_lowercase(n) =~= n);
}

/// Trailing slashes of a configured base URL do not change the endpoints
/// built on it.
pub proof fn law_endpoints_ignore_trailing_slash(base: Seq<char>)
    ensures
        lm_chat_url_of(base.push('/')) == lm_chat_url_of(base),
        jkca_url_of(base.push('/')) == jkca_url_of(base),
{
    assert(base.push('/').drop_last() =~= base);
}


/// A positive completion length written in decimal (as the default is when
/// no setting is given) is read back unchanged.
pub proof fn law_max_tokens_text_reads_back(n: i64)
    requires
        n > 0,
    ensures
        chat_max_tokens_of(int_decimal(n as int)) == n,
{
    law_decimal_round_trip(n);
}


/// A provider's name reads back as that provider in any ASCII case and with
/// any white space around it.
pub proof fn law_provider_name_any_case_and_padding(
    p: InferenceProvider,
    left: Seq<char>,
    spelling: Seq<char>,
    right: Seq<char>,
)
    requires
        all_ws(left),
        all_ws(right),
        ascii_lowercase(spelling) == p.name(),
    ensures
        provider_named(ascii_lowercase(trim(left + spelling + right))) == Some(p),
{
    reveal_strlit("jkca");
    reveal_strlit("jkca-agent");
    reveal_strlit("lmstudio");
    reveal_strlit("lm_studio");
    reveal_strlit("lm-studio");
    let n = p.name();
    assert(spelling.len() == n.len());
    assert(ascii_lower(spelling[0]) == n[0]);
    assert(ascii_lower(spelling.last()) == n.last());
    lemma_trim_padded(left, spelling, right);
}

/// A requested page size within `1..=MAX_PAGE_SIZE` is served unchanged;
/// smaller ones become 1, larger ones `MAX_PAGE_SIZE`, none the default. A
/// non-negative offset is kept; a negative or missing one becomes 0.
pub proof fn law_pagination(limit: i64, offset: i64)
    ensures
        1 <= limit <= 200 ==> page_limit(Some(limit)) == limit,
        limit < 1 ==> page_limit(Some(limit)) == 1,
        limit > 200 ==> page_limit(Some(limit)) == 200,
        page_limit(None) == 100,
        offset >= 0 ==> page_offset(Some(offset)) == offset,
        offset < 0 ==> page_offset(Some(offset)) == 0,
        page_offset(None) == 0,
{
}

/// A positive length written in decimal, with any white space around it, is
/// the configured length; zero or a negative one gives the default of 150.
pub proof fn law_chat_max_tokens(left: Seq<char>, n: i64, right: Seq<char>)
    requires
        all_ws(left),
        all_ws(right),
    ensures
        n > 0 ==> chat_max_tokens_of(left + int_decimal(n as int) + right) == n,
        n <= 0 ==> chat_max_tokens_of(left + int_decimal(n as int) + right) == 150,
{
    law_decimal_round_trip(n);
    let d = int_decimal(n as int);
    lemma_trim_shape(d);
    lemma_trim_padded(left, d, right);
}

/// Without trailing slashes, a base URL is followed directly by the
/// endpoint's path.
pub proof fn law_endpoint_paths(base: Seq<char>)
    requires
        base.len() == 0 || base.last() != '/',
    ensures
        lm_chat_url_of(base) == base + "/v1/chat/completions"@,
        jkca_url_of(base) == base + "/api/runtime/generate"@,
{
}


/// The provider names: `jkca` and `jkca-agent` name JKCA; `lmstudio`,
/// `lm_studio` and `lm-studio` name LM Studio; nothing else names a
/// provider.
pub proof fn law_provider_names(name: Seq<char>)
    ensures
        provider_named("jkca"@) == Some(InferenceProvider::Jkca),
        provider_named("jkca-agent"@) == Some(InferenceProvider::Jkca),
        provider_named("lmstudio"@) == Some(InferenceProvider::LmStudio),
        provider_named("lm_studio"@) == Some(InferenceProvider::LmStudio),
        provider_named("lm-studio"@) == Some(InferenceProvider::LmStudio),
        provider_named(name) is Some ==> name == "jkca"@ || name == "jkca-agent"@ || name
            == "lmstudio"@ || name == "lm_studio"@ || name == "lm-studio"@,
        provider_named(name) is None ==> unsupported_provider_message(name)
            == "unsupported EMAILBRAIN_INFERENCE_PROVIDER '"@ + name
            + "' (expected 'jkca' or 'lmstudio')"@,
        InferenceProvider::Jkca.name() == "jkca"@,
        InferenceProvider::LmStudio.name() == "lmstudio"@,
{
    reveal_strlit("jkca");
    reveal_strlit("jkca-agent");
    reveal_strlit("lmstudio");
    reveal_strlit("lm_studio");
    reveal_strlit("lm-studio");
    assert("jkca"@.len() == 4 && "jkca-agent"@.len() == 10 && "lmstudio"@.len() == 8);
    assert("lm_studio"@.len() == 9 && "lm-studio"@.len() == 9);
}

} // verus!
