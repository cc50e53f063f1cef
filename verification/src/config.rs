//! Settings of the connector, read from the values of its environment
//! variables.
use vstd::prelude::*;
use crate::text::{
    append_str, chars_of, eq_ignore_ascii_case, equals_ignoring_ascii_case, owned, parse_u64,
    parse_unsigned, split_on, split_range, string_of_range, trim, trim_bounds,
};

verus! {

/// Which containers share Gluetun's network namespace and must follow it
/// through restarts.
#[derive(Debug)]
pub enum DependentContainers {
    /// Found by inspecting the containers' network mode.
    Auto,
    /// The names given in the settings.
    Explicit(Vec<String>),
}

/// The mathematical value of a [`DependentContainers`].
pub enum DependentsView {
    Auto,
    Explicit(Seq<Seq<char>>),
}

impl View for DependentContainers {
    type V = DependentsView;

    open spec fn view(&self) -> DependentsView {
        match self {
            DependentContainers::Auto => DependentsView::Auto,
            DependentContainers::Explicit(v) => DependentsView::Explicit(v.deep_view()),
        }
    }
}

/// The names of a comma-separated list, each trimmed, empty ones left out.
pub open spec fn listed_names(pieces: Seq<Seq<char>>) -> Seq<Seq<char>>
    decreases pieces.len(),
{
    if pieces.len() == 0 {
        Seq::empty()
    } else {
        let r = listed_names(pieces.drop_last());
        let t = trim(pieces.last());
        if t.len() > 0 {
            r.push(t)
        } else {
            r
        }
    }
}

/// How the setting `text` selects the dependent containers: `auto` in any
/// ASCII case, or a comma-separated list of names.
pub open spec fn dependents_from(text: Seq<char>) -> DependentsView {
    if eq_ignore_ascii_case(text, "auto"@) {
        DependentsView::Auto
    } else {
        DependentsView::Explicit(listed_names(split_on(text, ',')))
    }
}

/// Reads the dependent-containers setting.
pub fn parse_dependents(text: &str) -> (d: DependentContainers)
    ensures
        d@ == dependents_from(text@),
{
    if equals_ignoring_ascii_case(text, "auto") {
        return DependentContainers::Auto;
    }
    let v = chars_of(text);
    let pieces = split_range(&v, 0, v.len(), ',');
    assert(v@.subrange(0, v@.len() as int) == text@);
    let ghost all = split_on(text@, ',');
    let mut names: Vec<String> = Vec::new();
    let mut k: usize = 0;
    while k < pieces.len()
        invariant
            pieces.deep_view() == all,
            all == split_on(text@, ','),
            k <= pieces@.len(),
            names.deep_view() == listed_names(all.take(k as int)),
        decreases pieces.len() - k,
    {
        let w = chars_of(pieces[k].as_str());
        assert(w@ == all[k as int]);
        let (a, b) = trim_bounds(&w, 0, w.len());
        assert(w@.subrange(0, w@.len() as int) == w@);
        assert(all.take(k + 1).drop_last() == all.take(k as int));
        if a < b {
            let name = string_of_range(&w, a, b);
            names.push(name);
            proof {
                assert(names.deep_view() == listed_names(all.take(k as int)).push(name@));
            }
        }
        k = k + 1;
    }
    assert(all.take(k as int) == all);
    DependentContainers::Explicit(names)
}


/// The names joined by `sep`.
pub open spec fn joined(names: Seq<Seq<char>>, sep: Seq<char>) -> Seq<char>
    decreases names.len(),
{
    if names.len() == 0 {
        Seq::empty()
    } else if names.len() == 1 {
        names[0]
    } else {
        joined(names.drop_last(), sep) + sep + names.last()
    }
}

/// How the monitor reports its dependent-containers setting: `auto`, or the
/// names joined by `", "`.
pub open spec fn dependents_text(d: DependentsView) -> Seq<char> {
    match d {
        DependentsView::Auto => "auto"@,
        DependentsView::Explicit(names) => joined(names, ", "@),
    }
}

/// The text that describes a dependent-containers setting.
pub fn describe_dependents(d: &DependentContainers) -> (s: String)
    ensures
        s@ == dependents_text(d@),
{
    match d {
        DependentContainers::Auto => owned("auto"),
        DependentContainers::Explicit(names) => {
            let mut s = String::new();
            let mut i: usize = 0;
            while i < names.len()
                invariant
                    i <= names@.len(),
                    s@ == joined(names.deep_view().take(i as int), ", "@),
                decreases names.len() - i,
            {
                let ghost before = s@;
                if i > 0 {
                    append_str(&mut s, ", ");
                }
                append_str(&mut s, names[i].as_str());
                assert(names.deep_view().take(i + 1).drop_last() == names.deep_view().take(i as int));
                i = i + 1;
            }
            assert(names.deep_view().take(i as int) == names.deep_view());
            s
        },
    }
}


/// The serialization of the URL that `url::Url::parse` reads from `raw`, or
/// `None` where it refuses `raw`.
pub uninterp spec fn url_parse(raw: Seq<char>) -> Option<Seq<char>>;

/// Calls `url::Url::parse`. Claims that the call succeeds exactly when
/// `url_parse` gives a URL, and that the URL's serialization (`as_str`) is
/// that value; on failure it hands back the parser's message, of which
/// nothing is claimed.
#[verifier::external_body]
pub fn parse_url(raw: &str) -> (r: Result<String, String>)
    ensures
        r is Ok <==> url_parse(raw@) is Some,
        r matches Ok(u) ==> u@ == url_parse(raw@)->0,
{
    match url::Url::parse(raw) {
        Ok(u) => Ok(u.as_str().to_string()),
        Err(e) => Err(e.to_string()),
    }
}

/// The environment the connector starts in: variable names and values, the
/// values that are valid Unicode only.
#[derive(Debug)]
pub struct Environment {
    pub vars: Vec<(String, String)>,
}

/// The value of variable `name`: that of the first entry with that name.
pub open spec fn env_lookup(vars: Seq<(Seq<char>, Seq<char>)>, name: Seq<char>) -> Option<Seq<char>>
    decreases vars.len(),
{
    if vars.len() == 0 {
        None
    } else if vars[0].0 == name {
        Some(vars[0].1)
    } else {
        env_lookup(vars.drop_first(), name)
    }
}

impl Environment {
    pub open spec fn entries(&self) -> Seq<(Seq<char>, Seq<char>)> {
        self.vars.deep_view()
    }

    /// The value of the variable `name`, if it is set.
    pub fn get(&self, name: &str) -> (r: Option<String>)
        ensures
            match env_lookup(self.entries(), name@) {
                Some(v) => r matches Some(s) && s@ == v,
                None => r is None,
            },
    {
        let key = owned(name);
        let mut i: usize = 0;
        assert(self.entries().skip(0) == self.entries());
        while i < self.vars.len()
            invariant
                i <= self.vars@.len(),
                key@ == name@,
                env_lookup(self.entries(), name@) == env_lookup(self.entries().skip(i as int), name@),
            decreases self.vars.len() - i,
        {
            assert(self.entries().skip(i as int).drop_first() == self.entries().skip(i + 1));
            assert(self.entries().skip(i as int)[0] == self.entries()[i as int]);
            if self.vars[i].0 == key {
                return Some(self.vars[i].1.clone());
            }
            i = i + 1;
        }
        None
    }
}

/// A text setting: the variable's value, or `default` where it is unset.
pub open spec fn text_setting(env: Seq<(Seq<char>, Seq<char>)>, name: Seq<char>, default: Seq<char>) -> Seq<char> {
    match env_lookup(env, name) {
        Some(v) => v,
        None => default,
    }
}

/// A number setting: the variable's value read as an unsigned integer no
/// larger than `max`, or `default` where it is unset or does not read so.
pub open spec fn number_setting(
    env: Seq<(Seq<char>, Seq<char>)>,
    name: Seq<char>,
    default: nat,
    max: nat,
) -> nat {
    match env_lookup(env, name) {
        Some(v) => match parse_unsigned(v, max) {
            Some(n) => n,
            None => default,
        },
        None => default,
    }
}

/// A secret: the variable's value where it is set and not empty.
pub open spec fn secret_setting(env: Seq<(Seq<char>, Seq<char>)>, name: Seq<char>) -> Option<Seq<char>> {
    match env_lookup(env, name) {
        Some(v) => if v.len() > 0 {
            Some(v)
        } else {
            None
        },
        None => None,
    }
}

fn text_or(env: &Environment, name: &str, default: &str) -> (s: String)
    ensures
        s@ == text_setting(env.entries(), name@, default@),
{
    match env.get(name) {
        Some(v) => v,
        None => owned(default),
    }
}

fn number_or(env: &Environment, name: &str, default: u64, max: u64) -> (n: u64)
    requires
        default <= max,
    ensures
        n as nat == number_setting(env.entries(), name@, default as nat, max as nat),
        n <= max,
{
    match env.get(name) {
        Some(v) => match parse_u64(v.as_str()) {
            Some(n) => if n <= max {
                n
            } else {
                default
            },
            None => default,
        },
        None => default,
    }
}

fn secret(env: &Environment, name: &str) -> (r: Option<String>)
    ensures
        match secret_setting(env.entries(), name@) {
            Some(v) => r matches Some(s) && s@ == v,
            None => r is None,
        },
{
    match env.get(name) {
        Some(v) => {
            let c = chars_of(v.as_str());
            if c.len() > 0 {
                Some(v)
            } else {
                None
            }
        },
        None => None,
    }
}

/// The connector's settings. Durations are whole seconds.
#[derive(Debug)]
pub struct Config {
    pub port: u16,
    /// The serialization of Gluetun's control URL.
    pub gluetun_url: String,
    pub gluetun_api_key: Option<String>,
    pub gluetun_user: Option<String>,
    pub gluetun_password: Option<String>,
    pub check_interval: u64,
    pub request_timeout: u64,
    pub fail_threshold: u32,
    pub gluetun_container: String,
    pub dependent_containers: DependentContainers,
    pub healthy_wait_timeout: u64,
    pub config_file: String,
}

/// Why the settings cannot be used.
#[derive(Debug)]
pub enum ConfigError {
    /// `GLUETUN_CONTROL_URL` is not a URL; the parser's message.
    InvalidUrl(String),
}

pub open spec fn opt_view(o: Option<String>) -> Option<Seq<char>> {
    match o {
        Some(s) => Some(s@),
        None => None,
    }
}

/// The control URL's text: `GLUETUN_CONTROL_URL`, or Gluetun's default
/// address.
pub open spec fn control_url_text(env: Seq<(Seq<char>, Seq<char>)>) -> Seq<char> {
    text_setting(env, "GLUETUN_CONTROL_URL"@, "http://gluetun:8000"@)
}

/// The port to listen on: `PORT`, or 3000.
pub fn listen_port(env: &Environment) -> (port: u16)
    ensures
        port == number_setting(env.entries(), "PORT"@, 3000, 65535),
{
    number_or(env, "PORT", 3000, 65535) as u16
}

impl Config {
    /// The settings that `env` gives, each with its default where the variable
    /// is unset (or, for a number, does not read as one). Fails exactly when
    /// the control URL is not a URL.
    pub fn load(env: &Environment) -> (r: Result<Config, ConfigError>)
        ensures
            r is Err <==> url_parse(control_url_text(env.entries())) is None,
            r matches Ok(c) ==> {
                let e = env.entries();
                &&& c.gluetun_url@ == url_parse(control_url_text(e))->0
                &&& c.port == number_setting(e, "PORT"@, 3000, 65535)
                &&& opt_view(c.gluetun_api_key) == secret_setting(e, "GLUETUN_API_KEY"@)
                &&& opt_view(c.gluetun_user) == secret_setting(e, "GLUETUN_USER"@)
                &&& opt_view(c.gluetun_password) == secret_setting(e, "GLUETUN_PASSWORD"@)
                &&& c.check_interval == number_setting(e, "CHECK_INTERVAL"@, 30, u64::MAX as nat)
                &&& c.request_timeout == number_setting(e, "TIMEOUT"@, 10, u64::MAX as nat)
                &&& c.fail_threshold == number_setting(e, "FAIL_THRESHOLD"@, 2, u32::MAX as nat)
                &&& c.gluetun_container@ == text_setting(e, "GLUETUN_CONTAINER"@, "gluetun"@)
                &&& c.dependent_containers@ == dependents_from(
                    text_setting(e, "DEPENDENT_CONTAINERS"@, "auto"@),
                )
                &&& c.healthy_wait_timeout == number_setting(
                    e,
                    "HEALTHY_WAIT_TIMEOUT"@,
                    120,
                    u64::MAX as nat,
                )
                &&& c.config_file@ == text_setting(e, "CONFIG_FILE"@, "/config/sites.conf"@)
            },
    {
        let raw_url = text_or(env, "GLUETUN_CONTROL_URL", "http://gluetun:8000");
        let gluetun_url = match parse_url(raw_url.as_str()) {
            Ok(u) => u,
            Err(msg) => return Err(ConfigError::InvalidUrl(msg)),
        };
        let port = listen_port(env);
        let gluetun_api_key = secret(env, "GLUETUN_API_KEY");
        let gluetun_user = secret(env, "GLUETUN_USER");
        let gluetun_password = secret(env, "GLUETUN_PASSWORD");
        let check_interval = number_or(env, "CHECK_INTERVAL", 30, u64::MAX);
        let request_timeout = number_or(env, "TIMEOUT", 10, u64::MAX);
        let fail_threshold = number_or(env, "FAIL_THRESHOLD", 2, 4294967295) as u32;
        let gluetun_container = text_or(env, "GLUETUN_CONTAINER", "gluetun");
        let dependent_text = text_or(env, "DEPENDENT_CONTAINERS", "auto");
        let dependent_containers = parse_dependents(dependent_text.as_str());
        let healthy_wait_timeout = number_or(env, "HEALTHY_WAIT_TIMEOUT", 120, u64::MAX);
        let config_file = text_or(env, "CONFIG_FILE", "/config/sites.conf");
        Ok(
            Config {
                port,
                gluetun_url,
                gluetun_api_key,
                gluetun_user,
                gluetun_password,
                check_interval,
                request_timeout,
                fail_threshold,
                gluetun_container,
                dependent_containers,
                healthy_wait_timeout,
                config_file,
            },
        )
    }
}

} // verus!
