use vstd::prelude::*;
use vstd::string::StringExecFns;

verus! {

/// File name of the default configuration.
pub const DEFAULT_CONFIG_FILE: &'static str = "xbp.yaml";

/// Deprecated file name of the configuration.
pub const LEGACY_CONFIG_FILE: &'static str = "xbp.yml";

/// Environment variable that selects a remote configuration.
pub const REMOTE_CONFIG_URL_ENV: &'static str = "XBP_REMOTE_CONFIG_URL";

/// Scheme of `url` as the URL parser reads it, or the parser's message.
pub uninterp spec fn parsed_scheme(url: Seq<char>) -> Result<Seq<char>, Seq<char>>;

/// Relies on reqwest::Url::parse (the url crate's parser) and Url::scheme:
/// the scheme of a URL that parses, or the text of the parse error.
#[verifier::external_body]
fn parse_scheme(url: &str) -> (r: Result<String, String>)
    ensures
        match r {
            Ok(s) => parsed_scheme(url@) == Ok::<Seq<char>, Seq<char>>(s@),
            Err(e) => parsed_scheme(url@) == Err::<Seq<char>, Seq<char>>(e@),
        },
{
    match reqwest::Url::parse(url) {
        Ok(u) => Ok(u.scheme().to_string()),
        Err(e) => Err(e.to_string()),
    }
}

/// Message of a remote configuration URL that is not https.
pub open spec fn not_https_message(url: Seq<char>) -> Seq<char> {
    "XBP_REMOTE_CONFIG_URL must be an https URL, got: "@ + url
}

/// Accepts a remote configuration URL only where it parsed (`parsed` is
/// its scheme, or the parser's message) and its scheme is https.
pub fn check_remote_scheme(url: &str, parsed: Result<String, String>) -> (r: Result<(), String>)
    ensures
        match parsed {
            Err(e) => r == Err::<(), String>(e),
            Ok(s) => match r {
                Ok(_) => s@ == "https"@,
                Err(m) => s@ != "https"@ && m@ == not_https_message(url@),
            },
        },
{
    match parsed {
        Err(e) => Err(e),
        Ok(s) => {
            let https = "https".to_owned();
            if s.eq(&https) {
                Ok(())
            } else {
                let mut m = "XBP_REMOTE_CONFIG_URL must be an https URL, got: ".to_owned();
                m.append(url);
                Err(m)
            }
        },
    }
}

/// Accepts a remote configuration URL only where it parses and its scheme
/// is https; otherwise says why.
pub fn check_remote_config_url(url: &str) -> (r: Result<(), String>)
    ensures
        match parsed_scheme(url@) {
            Err(e) => match r {
                Err(m) => m@ == e,
                Ok(_) => false,
            },
            Ok(s) => match r {
                Ok(_) => s == "https"@,
                Err(m) => s != "https"@ && m@ == not_https_message(url@),
            },
        },
{
    let parsed = parse_scheme(url);
    check_remote_scheme(url, parsed)
}

/// `s` without leading and trailing whitespace.
pub uninterp spec fn trimmed(s: Seq<char>) -> Seq<char>;

/// Relies on str::trim: the text without leading and trailing whitespace,
/// which depends on the text alone.
#[verifier::external_body]
fn trim(s: &str) -> (r: String)
    ensures
        r@ == trimmed(s@),
{
    s.trim().to_owned()
}

/// The remote configuration URL given the already trimmed value of the
/// selecting variable: none where it is empty.
pub fn remote_url_from_trimmed(value: String) -> (r: Option<String>)
    ensures
        value@.len() == 0 ==> r is None,
        value@.len() != 0 ==> r == Some(value),
{
    let empty = String::new();
    assert(value@.len() == 0 ==> value@ =~= empty@);
    if value.eq(&empty) {
        None
    } else {
        Some(value)
    }
}

/// The remote configuration URL to load from, given the value of
/// `XBP_REMOTE_CONFIG_URL` (absent when unset): its trimmed value where that
/// is not empty, otherwise none and the local file is used.
pub fn remote_config_url(value: &Option<String>) -> (r: Option<String>)
    ensures
        match value {
            None => r is None,
            Some(v) => match r {
                None => trimmed(v@).len() == 0,
                Some(u) => trimmed(v@).len() != 0 && u@ == trimmed(v@),
            },
        },
{
    match value {
        None => None,
        Some(v) => remote_url_from_trimmed(trim(v.as_str())),
    }
}

/// Decimal digit of `d`, for `d` below ten.
pub open spec fn digit_char(d: nat) -> char {
    if d == 0 {
        '0'
    } else if d == 1 {
        '1'
    } else if d == 2 {
        '2'
    } else if d == 3 {
        '3'
    } else if d == 4 {
        '4'
    } else if d == 5 {
        '5'
    } else if d == 6 {
        '6'
    } else if d == 7 {
        '7'
    } else if d == 8 {
        '8'
    } else {
        '9'
    }
}

/// Decimal text of `n`, without sign or leading zeros.
pub open spec fn decimal(n: nat) -> Seq<char>
    decreases n,
{
    if n < 10 {
        seq![digit_char(n)]
    } else {
        decimal(n / 10).push(digit_char(n % 10))
    }
}

/// Relies on the `Display` impl of `u16` (through `to_string`): the value
/// in decimal, without sign or padding.
#[verifier::external_body]
fn decimal_text(n: u16) -> (r: String)
    ensures
        r@ == decimal(n as nat),
{
    n.to_string()
}

/// Message of a remote configuration fetch answered with `status`.
pub open spec fn fetch_failed_message(status: u16, url: Seq<char>) -> Seq<char> {
    "Remote config fetch failed ("@ + decimal(status as nat) + "): "@ + url
}

/// Accepts the answer to a remote configuration fetch only where its HTTP
/// status is a success (200 to 299); otherwise says which status came back.
pub fn check_fetch_status(status: u16, url: &str) -> (r: Result<(), String>)
    ensures
        200 <= status <= 299 ==> r is Ok,
        !(200 <= status <= 299) ==> match r {
            Err(m) => m@ == fetch_failed_message(status, url@),
            Ok(_) => false,
        },
{
    if 200 <= status && status <= 299 {
        Ok(())
    } else {
        let code = decimal_text(status);
        let mut m = "Remote config fetch failed (".to_owned();
        m.append(code.as_str());
        m.append("): ");
        m.append(url);
        Err(m)
    }
}

/// Which files to try for a configuration path, decided by its file name.
#[derive(Debug, Clone, Copy, PartialEq, Eq, Structural)]
pub struct ConfigFilePlan {
    /// The name is the deprecated one: warn, and try the default name in
    /// the same directory when the file is missing.
    pub legacy: bool,
    /// When no candidate exists, write the default template beside it and
    /// load that; otherwise a missing file is an error.
    pub create_default: bool,
}

/// The plan for a configuration path whose file name is `file_name`
/// (absent for a path without one).
pub fn config_file_plan(file_name: &Option<String>) -> (r: ConfigFilePlan)
    ensures
        r.legacy == (file_name is Some && file_name->0@ == LEGACY_CONFIG_FILE@),
        r.create_default == (file_name is Some && (file_name->0@ == LEGACY_CONFIG_FILE@
            || file_name->0@ == DEFAULT_CONFIG_FILE@)),
{
    match file_name {
        None => ConfigFilePlan { legacy: false, create_default: false },
        Some(n) => {
            let legacy = n.eq(&LEGACY_CONFIG_FILE.to_owned());
            let default = n.eq(&DEFAULT_CONFIG_FILE.to_owned());
            ConfigFilePlan { legacy, create_default: legacy || default }
        },
    }
}

/// An environment as name and value pairs, as plain sequences.
pub open spec fn env_views(env: Seq<(String, String)>) -> Seq<(Seq<char>, Seq<char>)> {
    env.map_values(|p: (String, String)| (p.0@, p.1@))
}

/// Value of the first variable named `name` in `env`; empty where none is.
pub open spec fn env_lookup(env: Seq<(Seq<char>, Seq<char>)>, name: Seq<char>) -> Seq<char>
    decreases env.len(),
{
    if env.len() == 0 {
        Seq::empty()
    } else if env[0].0 == name {
        env[0].1
    } else {
        env_lookup(env.skip(1), name)
    }
}

/// Value of variable `name` in `env`, empty where it is not set.
pub fn env_value(env: &Vec<(String, String)>, name: &str) -> (r: String)
    ensures
        r@ == env_lookup(env_views(env@), name@),
{
    let ghost ev = env_views(env@);
    let key = name.to_owned();
    let mut i: usize = 0;
    assert(ev.skip(0) =~= ev);
    while i < env.len()
        invariant
            ev == env_views(env@),
            key@ == name@,
            i <= env@.len(),
            env_lookup(ev, name@) == env_lookup(ev.skip(i as int), name@),
        decreases env@.len() - i,
    {
        assert(ev.skip(i as int)[0] == ev[i as int]);
        if env[i].0.eq(&key) {
            return env[i].1.clone();
        }
        assert(ev.skip(i as int).skip(1) =~= ev.skip(i as int + 1));
        i = i + 1;
    }
    String::new()
}

/// Whether `s` holds `pat` somewhere.
pub open spec fn contains_infix(s: Seq<char>, pat: Seq<char>) -> bool {
    exists|i: int| 0 <= i && i + pat.len() <= s.len() && #[trigger] s.subrange(i, i + pat.len()) == pat
}

/// `content` with each `${{ env.NAME }}` placeholder replaced by the value
/// of `NAME` in `env`.
pub uninterp spec fn env_expanded(content: Seq<char>, env: Seq<(Seq<char>, Seq<char>)>) -> Seq<
    char,
>;

/// Relies on regex::Regex::replace_all with the pattern
/// `\$\{\{\s*env\.(.*?)\s*\}\}`: the result depends on the content and the
/// environment alone, and text without a match is returned unchanged.
#[verifier::external_body]
fn expand_placeholders(content: &str, env: &Vec<(String, String)>) -> (r: String)
    ensures
        r@ == env_expanded(content@, env_views(env@)),
        !contains_infix(content@, "${{"@) ==> r@ == content@,
{
    let re = regex::Regex::new(r"\$\{\{\s*env\.(.*?)\s*\}\}").unwrap();
    re.replace_all(content, |caps: &regex::Captures| env_value(env, &caps[1])).to_string()
}

/// Replaces every `${{ env.NAME }}` placeholder of `content` by the value
/// of `NAME` in `env`, or by nothing where it is not set.
pub fn replace_env_vars(content: &str, env: &Vec<(String, String)>) -> (r: String)
    ensures
        r@ == env_expanded(content@, env_views(env@)),
        !contains_infix(content@, "${{"@) ==> r@ == content@,
{
    expand_placeholders(content, env)
}

} // verus!
