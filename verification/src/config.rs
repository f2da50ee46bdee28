//! Settings, where they are kept, and what of them may be logged.
//!
//! The file lies at
//! `~/Library/Application Support/NotificationForwarder/config.json`, with
//! `~/.config/notification-forwarder/config.json` to fall back to. The URL of
//! the webhook may hold credentials; [`sanitize_url_for_logging`] gives its form
//! with the secrets in its query redacted.

use crate::tables::{HeaderTable, NameSet};
use crate::text;
use crate::text::{chars_of, contains, join, split, split_once};
use vstd::prelude::*;
use vstd::string::*;

verus! {

/// How application filtering behaves.
#[derive(Debug, Clone, Copy, PartialEq, Eq, Structural)]
pub enum FilterMode {
    /// Forward from every application.
    All,
    /// Forward only from the allowed applications.
    Selected,
}

impl Default for FilterMode {
    fn default() -> (r: FilterMode)
        ensures
            r == FilterMode::All,
    {
        FilterMode::All
    }
}

/// Full application configuration.
#[derive(Debug)]
pub struct AppConfig {
    /// Destination webhook URL.
    pub webhook_url: String,
    /// Additional HTTP headers sent with every webhook request. The values may
    /// contain credentials.
    pub webhook_headers: HeaderTable,
    /// Master switch for forwarding.
    pub forwarding_enabled: bool,
    /// Verbose logging.
    pub diagnostic_logging: bool,
    /// Launch at login.
    pub start_at_login: bool,
    /// Application filter mode.
    pub filter_mode: FilterMode,
    /// Applications to forward from in `Selected` mode.
    pub allowed_apps: NameSet,
    /// How long a fingerprint counts as seen, in seconds.
    pub dedup_ttl_secs: u64,
    /// How many fingerprints are kept.
    pub dedup_capacity: usize,
    /// How long to wait between an accessibility event and the scan, in
    /// milliseconds.
    pub debounce_ms: u64,
    /// How often a webhook request is tried, the first try included.
    pub max_attempts: u32,
}

/// Forwarding is on unless it was switched off.
pub fn default_true() -> (r: bool)
    ensures
        r,
{
    true
}

/// Fifteen minutes.
pub fn default_dedup_ttl_secs() -> (r: u64)
    ensures
        r == 900,
{
    900
}

/// Room for two thousand fingerprints.
pub fn default_dedup_capacity() -> (r: usize)
    ensures
        r == 2000,
{
    2000
}

/// A quarter of a second.
pub fn default_debounce_ms() -> (r: u64)
    ensures
        r == 250,
{
    250
}

/// Three tries.
pub fn default_max_attempts() -> (r: u32)
    ensures
        r == 3,
{
    3
}

/// Whether a configuration is the one that holds where nothing was set.
pub open spec fn is_default_config(c: AppConfig) -> bool {
    &&& c.webhook_url@ == Seq::<char>::empty()
    &&& c.webhook_headers@ == Seq::<(Seq<char>, Seq<char>)>::empty()
    &&& c.forwarding_enabled
    &&& !c.diagnostic_logging
    &&& !c.start_at_login
    &&& c.filter_mode == FilterMode::All
    &&& c.allowed_apps@ == Set::<Seq<char>>::empty()
    &&& c.dedup_ttl_secs == 900
    &&& c.dedup_capacity == 2000
    &&& c.debounce_ms == 250
    &&& c.max_attempts == 3
}

impl Default for AppConfig {
    fn default() -> (r: AppConfig)
        ensures
            is_default_config(r),
    {
        AppConfig {
            webhook_url: String::new(),
            webhook_headers: HeaderTable::new(),
            forwarding_enabled: default_true(),
            diagnostic_logging: false,
            start_at_login: false,
            filter_mode: FilterMode::All,
            allowed_apps: NameSet::new(),
            dedup_ttl_secs: default_dedup_ttl_secs(),
            dedup_capacity: default_dedup_capacity(),
            debounce_ms: default_debounce_ms(),
            max_attempts: default_max_attempts(),
        }
    }
}

/// Whether two configurations hold the same settings.
pub open spec fn same_config(a: AppConfig, b: AppConfig) -> bool {
    &&& a.webhook_url@ == b.webhook_url@
    &&& a.webhook_headers@ == b.webhook_headers@
    &&& a.forwarding_enabled == b.forwarding_enabled
    &&& a.diagnostic_logging == b.diagnostic_logging
    &&& a.start_at_login == b.start_at_login
    &&& a.filter_mode == b.filter_mode
    &&& a.allowed_apps@ == b.allowed_apps@
    &&& a.dedup_ttl_secs == b.dedup_ttl_secs
    &&& a.dedup_capacity == b.dedup_capacity
    &&& a.debounce_ms == b.debounce_ms
    &&& a.max_attempts == b.max_attempts
}

impl Clone for AppConfig {
    fn clone(&self) -> (r: AppConfig)
        ensures
            same_config(r, *self),
    {
        AppConfig {
            webhook_url: self.webhook_url.clone(),
            webhook_headers: self.webhook_headers.clone(),
            forwarding_enabled: self.forwarding_enabled,
            diagnostic_logging: self.diagnostic_logging,
            start_at_login: self.start_at_login,
            filter_mode: self.filter_mode,
            allowed_apps: self.allowed_apps.clone(),
            dedup_ttl_secs: self.dedup_ttl_secs,
            dedup_capacity: self.dedup_capacity,
            debounce_ms: self.debounce_ms,
            max_attempts: self.max_attempts,
        }
    }
}

/// A relative path below a directory.
pub open spec fn path_below(dir: Seq<char>, rel: Seq<char>) -> Seq<char> {
    if dir.len() == 0 || dir.last() == '/' {
        dir + rel
    } else {
        dir + seq!['/'] + rel
    }
}

/// The directory of the configuration file below a home directory.
pub open spec fn library_dir(home: Seq<char>) -> Seq<char> {
    path_below(home, "Library/Application Support/NotificationForwarder"@)
}

/// The directory to fall back to.
pub open spec fn fallback_dir(home: Seq<char>) -> Seq<char> {
    path_below(home, ".config/notification-forwarder"@)
}

/// Where the configuration file lies: at the path of the override, else below
/// the home directory, else in the directory for temporary files. The directory
/// to fall back to counts where it is there and the preferred one is not.
pub open spec fn config_location(
    override_path: Option<Seq<char>>,
    home: Option<Seq<char>>,
    library_exists: bool,
    fallback_exists: bool,
) -> Seq<char> {
    match (override_path, home) {
        (Some(path), _) => path,
        (None, Some(home)) => if !library_exists && fallback_exists {
            fallback_dir(home) + "/config.json"@
        } else {
            library_dir(home) + "/config.json"@
        },
        (None, None) => "/tmp/notification-forwarder-config.json"@,
    }
}

fn join_path(dir: &str, rel: &str) -> (r: String)
    ensures
        r@ == path_below(dir@, rel@),
{
    let chars = chars_of(dir);
    let n: usize = chars.len();
    let mut out = dir.to_string();
    if n > 0 && chars[n - 1] != '/' {
        out.push('/');
        assert(out@ =~= dir@ + seq!['/']);
    }
    out.append(rel);
    out
}

impl AppConfig {
    /// The directory of the configuration file below a home directory.
    pub fn library_directory(home: &str) -> (r: String)
        ensures
            r@ == library_dir(home@),
    {
        join_path(home, "Library/Application Support/NotificationForwarder")
    }

    /// The directory to fall back to.
    pub fn fallback_directory(home: &str) -> (r: String)
        ensures
            r@ == fallback_dir(home@),
    {
        join_path(home, ".config/notification-forwarder")
    }

    /// Resolves the path of the configuration file from the value of
    /// `$NOTIFORWARDER_CONFIG` and of `$HOME`, and from whether the two
    /// directories below the home directory exist.
    pub fn config_path(
        override_path: Option<String>,
        home: Option<String>,
        library_exists: bool,
        fallback_exists: bool,
    ) -> (r: String)
        ensures
            r@ == config_location(
                text::opt_text(override_path),
                text::opt_text(home),
                library_exists,
                fallback_exists,
            ),
    {
        if let Some(path) = override_path {
            return path;
        }
        match home {
            Some(home) => {
                let mut out = if !library_exists && fallback_exists {
                    AppConfig::fallback_directory(home.as_str())
                } else {
                    AppConfig::library_directory(home.as_str())
                };
                out.append("/config.json");
                out
            },
            None => "/tmp/notification-forwarder-config.json".to_string(),
        }
    }

    /// The configuration to run with: the one that was read, or the default
    /// one where there was none to read or it could not be understood.
    pub fn or_default(parsed: Option<AppConfig>) -> (r: AppConfig)
        ensures
            parsed matches Some(c) ==> r == c,
            parsed is None ==> is_default_config(r),
    {
        match parsed {
            Some(c) => c,
            None => AppConfig::default(),
        }
    }
}

// ---------------------------------------------------------------------------
// URLs in logs
// ---------------------------------------------------------------------------

/// Whether a key, in lower case, speaks of a secret.
pub open spec fn secret_word(key: Seq<char>) -> bool {
    ||| text::occurs_in("token"@, key)
    ||| text::occurs_in("secret"@, key)
    ||| text::occurs_in("key"@, key)
    ||| text::occurs_in("auth"@, key)
    ||| text::occurs_in("password"@, key)
    ||| text::occurs_in("signature"@, key)
}

/// Whether the value beside this key is a secret.
pub open spec fn is_secret_key(key: Seq<char>) -> bool {
    secret_word(text::lowered(key))
}

/// The key of a query parameter.
pub open spec fn parameter_key(pair: Seq<char>) -> Seq<char> {
    match text::cut_once(pair, '=') {
        Some((key, _)) => key,
        None => pair,
    }
}

/// A query parameter, without its value where that is a secret.
pub open spec fn redacted(pair: Seq<char>) -> Seq<char> {
    if is_secret_key(parameter_key(pair)) {
        parameter_key(pair) + "=********"@
    } else {
        pair
    }
}

/// A URL with the secrets in its query redacted.
pub open spec fn sanitized(url: Seq<char>) -> Seq<char> {
    match text::cut_once(url, '?') {
        Some((base, query)) => base + "?"@ + text::joined(
            text::pieces(query, '&').map_values(|pair: Seq<char>| redacted(pair)),
            "&"@,
        ),
        None => url,
    }
}

/// Whether a key, in lower case, speaks of a secret.
pub fn is_secret_word(key: &str) -> (r: bool)
    ensures
        r == secret_word(key@),
{
    contains(key, "token") || contains(key, "secret") || contains(key, "key") || contains(
        key,
        "auth",
    ) || contains(key, "password") || contains(key, "signature")
}

fn secret_key(key: &str) -> (r: bool)
    ensures
        r == is_secret_key(key@),
{
    let lowered = key.to_lowercase();
    is_secret_word(lowered.as_str())
}

fn redact(pair: &str) -> (r: String)
    ensures
        r@ == redacted(pair@),
{
    let key = match split_once(pair, '=') {
        Some((key, _)) => key,
        None => pair.to_string(),
    };
    if secret_key(key.as_str()) {
        let mut out = key;
        out.append("=********");
        out
    } else {
        pair.to_string()
    }
}

/// Redacts the secrets in the query of a URL, such as
/// `https://api.example.com/webhook?token=********`.
pub fn sanitize_url_for_logging(url: &str) -> (r: String)
    ensures
        r@ == sanitized(url@),
{
    match split_once(url, '?') {
        None => url.to_string(),
        Some((base, query)) => {
            let pairs = split(query.as_str(), '&');
            let ghost parts = text::pieces(query@, '&');
            let ghost want = parts.map_values(|pair: Seq<char>| redacted(pair));
            let mut shown: Vec<String> = Vec::new();
            for i in 0..pairs.len()
                invariant
                    text::texts(pairs@) == parts,
                    want == parts.map_values(|pair: Seq<char>| redacted(pair)),
                    text::texts(shown@) == want.take(i as int),
            {
                let ghost before = text::texts(shown@);
                let one = redact(pairs[i].as_str());
                shown.push(one);
                assert(parts[i as int] == pairs@[i as int]@);
                assert(text::texts(shown@) =~= before.push(one@));
                assert(want.take(i + 1) =~= want.take(i as int).push(want[i as int]));
            }
            assert(want.take(pairs@.len() as int) =~= want);
            let mut out = base;
            out.append("?");
            let tail = join(&shown, "&");
            out.append(tail.as_str());
            out
        },
    }
}

/// What is logged of a secret parameter depends on its key alone.
proof fn lemma_redacted_once(pair: Seq<char>)
    ensures
        redacted(redacted(pair)) == redacted(pair),
        !pair.contains('&') ==> !redacted(pair).contains('&'),
{
    reveal_strlit("=********");
    let key = parameter_key(pair);
    text::lemma_cut_once_parts(pair, '=');
    if is_secret_key(key) {
        let stars = seq!['*', '*', '*', '*', '*', '*', '*', '*'];
        assert("=********"@ =~= seq!['='] + stars);
        assert(redacted(pair) =~= key + seq!['='] + stars);
        text::lemma_cut_once(key, '=', stars);
        if redacted(pair).contains('&') {
            let i = choose|i: int| 0 <= i < redacted(pair).len() && redacted(pair)[i] == '&';
            assert(i < key.len());
            assert(pair[i] == key[i]);
        }
    }
}

/// Sanitizing a URL that was sanitized changes nothing.
pub proof fn law_sanitizing_twice_changes_nothing(url: Seq<char>)
    ensures
        sanitized(sanitized(url)) == sanitized(url),
{
    reveal_strlit("?");
    reveal_strlit("&");
    assert("?"@ =~= seq!['?']);
    assert("&"@ =~= seq!['&']);
    text::lemma_cut_once_parts(url, '?');
    if let Some((base, query)) = text::cut_once(url, '?') {
        let parts = text::pieces(query, '&');
        let want = parts.map_values(|pair: Seq<char>| redacted(pair));
        text::lemma_pieces(query, '&');
        assert forall|i: int| 0 <= i < want.len() implies !(#[trigger] want[i]).contains('&')
            && redacted(want[i]) == want[i] by {
            assert(!parts[i].contains('&'));
            lemma_redacted_once(parts[i]);
        }
        text::lemma_split_undoes_join(want, '&');
        text::lemma_cut_once(base, '?', text::joined(want, seq!['&']));
        assert(want.map_values(|pair: Seq<char>| redacted(pair)) =~= want);
    }
}

/// No secret shows: two URLs that differ only in the values of secret
/// parameters are logged alike.
pub proof fn law_secret_values_do_not_show(
    base: Seq<char>,
    query1: Seq<char>,
    query2: Seq<char>,
)
    requires
        !base.contains('?'),
        text::pieces(query1, '&').len() == text::pieces(query2, '&').len(),
        forall|i: int|
            #![trigger text::pieces(query1, '&')[i]]
            0 <= i < text::pieces(query1, '&').len() ==> {
                let p = text::pieces(query1, '&')[i];
                let q = text::pieces(query2, '&')[i];
                p == q || parameter_key(p) == parameter_key(q) && is_secret_key(parameter_key(p))
            },
    ensures
        sanitized(base + seq!['?'] + query1) == sanitized(base + seq!['?'] + query2),
{
    text::lemma_cut_once(base, '?', query1);
    text::lemma_cut_once(base, '?', query2);
    let a = text::pieces(query1, '&').map_values(|pair: Seq<char>| redacted(pair));
    let b = text::pieces(query2, '&').map_values(|pair: Seq<char>| redacted(pair));
    assert(a =~= b) by {
        assert forall|i: int| 0 <= i < a.len() implies a[i] == b[i] by {
            let p = text::pieces(query1, '&')[i];
        }
    }
}

/// A URL without a query is logged as it is, and one whose parameters hold no
/// secret too.
pub proof fn law_public_urls_are_logged_whole(url: Seq<char>)
    requires
        text::cut_once(url, '?') matches Some((_, query)) ==> forall|i: int|
            #![trigger text::pieces(query, '&')[i]]
            0 <= i < text::pieces(query, '&').len() ==> !is_secret_key(
                parameter_key(text::pieces(query, '&')[i]),
            ),
    ensures
        sanitized(url) == url,
{
    reveal_strlit("?");
    reveal_strlit("&");
    assert("?"@ =~= seq!['?']);
    assert("&"@ =~= seq!['&']);
    text::lemma_cut_once_parts(url, '?');
    if let Some((base, query)) = text::cut_once(url, '?') {
        let parts = text::pieces(query, '&');
        assert(parts.map_values(|pair: Seq<char>| redacted(pair)) =~= parts) by {
            assert forall|i: int| 0 <= i < parts.len() implies redacted(#[trigger] parts[i])
                == parts[i] by {}
        }
        text::lemma_join_undoes_split(query, '&');
    }
}

/// Where nothing was set, forwarding is on for every application, nothing is
/// logged beyond the usual, content counts as seen for fifteen minutes, and a
/// request is tried three times.
pub proof fn law_defaults(c: AppConfig)
    requires
        is_default_config(c),
    ensures
        c.webhook_url@.len() == 0,
        c.webhook_headers@.len() == 0,
        c.forwarding_enabled,
        !c.diagnostic_logging,
        !c.start_at_login,
        c.filter_mode == FilterMode::All,
        forall|name: Seq<char>| !c.allowed_apps@.contains(name),
        c.dedup_ttl_secs == 15 * 60,
        c.dedup_capacity == 2000,
        c.debounce_ms == 250,
        c.max_attempts == 3,
{
}

/// Two configurations with the same settings differ in none of them.
pub proof fn law_same_settings(a: AppConfig, b: AppConfig)
    ensures
        same_config(a, a),
        same_config(a, b) ==> same_config(b, a),
        same_config(a, b) <==> {
            &&& a.webhook_url@ == b.webhook_url@
            &&& a.webhook_headers@ == b.webhook_headers@
            &&& a.allowed_apps@ == b.allowed_apps@
            &&& a.filter_mode == b.filter_mode
            &&& (a.forwarding_enabled, a.diagnostic_logging, a.start_at_login) == (
                b.forwarding_enabled,
                b.diagnostic_logging,
                b.start_at_login,
            )
            &&& (a.dedup_ttl_secs, a.dedup_capacity) == (b.dedup_ttl_secs, b.dedup_capacity)
            &&& (a.debounce_ms, a.max_attempts) == (b.debounce_ms, b.max_attempts)
        },
{
}

/// A path that was set wins over everything else. Without one the file lies
/// below the home directory, in the preferred directory unless only the other
/// one is there; without a home directory it lies among the temporary files.
pub proof fn law_configuration_file_has_one_place(
    path: Seq<char>,
    home: Seq<char>,
    any: Option<Seq<char>>,
    library: bool,
    fallback: bool,
)
    ensures
        config_location(Some(path), any, library, fallback) == path,
        config_location(None, Some(home), true, fallback) == config_location(
            None,
            Some(home),
            false,
            false,
        ),
        config_location(None, Some(home), true, fallback) == path_below(
            home,
            "Library/Application Support/NotificationForwarder/config.json"@,
        ),
        config_location(None, Some(home), false, true) == path_below(
            home,
            ".config/notification-forwarder/config.json"@,
        ),
        config_location(None, None, library, fallback)
            == "/tmp/notification-forwarder-config.json"@,
{
    reveal_strlit("Library/Application Support/NotificationForwarder/config.json");
    reveal_strlit("Library/Application Support/NotificationForwarder");
    reveal_strlit(".config/notification-forwarder/config.json");
    reveal_strlit(".config/notification-forwarder");
    reveal_strlit("/config.json");
    assert("Library/Application Support/NotificationForwarder"@ + "/config.json"@
        =~= "Library/Application Support/NotificationForwarder/config.json"@);
    assert(".config/notification-forwarder"@ + "/config.json"@
        =~= ".config/notification-forwarder/config.json"@);
    assert(config_location(None, Some(home), true, fallback) =~= path_below(
        home,
        "Library/Application Support/NotificationForwarder/config.json"@,
    ));
    assert(config_location(None, Some(home), false, true) =~= path_below(
        home,
        ".config/notification-forwarder/config.json"@,
    ));
}

/// A directory and what is below it are parted by one slash, whether the
/// directory is written with a slash at its end or without one.
pub proof fn law_paths_are_parted_by_one_slash(dir: Seq<char>, rel: Seq<char>)
    requires
        dir.len() > 0,
        dir.last() != '/',
    ensures
        path_below(dir, rel) == dir + seq!['/'] + rel,
        path_below(dir + seq!['/'], rel) == path_below(dir, rel),
{
}

/// A key speaks of a secret where one of six words is in it, whatever the case
/// of its letters, and nowhere else.
pub proof fn law_secret_keys(key: Seq<char>)
    ensures
        is_secret_key(key) <==> {
            ||| text::occurs_in("token"@, text::lowered(key))
            ||| text::occurs_in("secret"@, text::lowered(key))
            ||| text::occurs_in("key"@, text::lowered(key))
            ||| text::occurs_in("auth"@, text::lowered(key))
            ||| text::occurs_in("password"@, text::lowered(key))
            ||| text::occurs_in("signature"@, text::lowered(key))
        },
{
}

/// The value of a secret parameter is replaced by eight stars, whatever it is;
/// its key stays, and so does every other parameter.
pub proof fn law_secret_values_become_stars(key: Seq<char>, value: Seq<char>)
    requires
        !key.contains('='),
    ensures
        is_secret_key(key) ==> redacted(key + seq!['='] + value) == key + "=********"@,
        is_secret_key(key) ==> redacted(key) == key + "=********"@,
        !is_secret_key(key) ==> redacted(key + seq!['='] + value) == key + seq!['='] + value,
        !is_secret_key(key) ==> redacted(key) == key,
{
    text::lemma_cut_once(key, '=', value);
    text::lemma_cut_once_parts(key, '=');
}

/// What stands before the query of a URL is logged as it is, and each parameter
/// of the query by itself, in its place.
pub proof fn law_parameters_are_logged_one_by_one(
    base: Seq<char>,
    parameters: Seq<Seq<char>>,
)
    requires
        !base.contains('?'),
        parameters.len() > 0,
        forall|i: int| 0 <= i < parameters.len() ==> !(#[trigger] parameters[i]).contains('&'),
    ensures
        sanitized(base) == base,
        sanitized(base + seq!['?'] + text::joined(parameters, seq!['&'])) == base + seq!['?']
            + text::joined(parameters.map_values(|p: Seq<char>| redacted(p)), seq!['&']),
{
    reveal_strlit("?");
    reveal_strlit("&");
    assert("?"@ =~= seq!['?']);
    assert("&"@ =~= seq!['&']);
    text::lemma_cut_once_parts(base, '?');
    text::lemma_cut_once(base, '?', text::joined(parameters, seq!['&']));
    text::lemma_split_undoes_join(parameters, '&');
}

} // verus!
