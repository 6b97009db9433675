use vstd::prelude::*;
use vstd::string::StringExecFns;

use crate::global_config::GlobalConfig;
use crate::global_config::default_time_format;
use crate::ssl_certs::SSLCerts;
use crate::ssl_certs::SortMethod;
use crate::toml_tree::TomlItem;
use crate::toml_tree::parse_document;
use crate::toml_tree::toml_document;

verus! {

/// Configuration of the filesystems panel: (label, mount point) rows in the
/// order the configuration document lists them.
pub struct FilesystemsConfig {
    pub mounts: Vec<(String, String)>,
}

/// One enabled panel's configuration.  Panels whose rendering this crate
/// does not model carry their configuration table as a plain value tree for
/// the data-gathering side to read.
pub enum ComponentConfig {
    Banner(TomlItem),
    Docker(TomlItem),
    Fail2Ban(TomlItem),
    Filesystems(FilesystemsConfig),
    LastLogin(TomlItem),
    LastRun(TomlItem),
    Memory(TomlItem),
    ServiceStatus(TomlItem),
    UserServiceStatus(TomlItem),
    SSLCerts(SSLCerts),
    Uptime(TomlItem),
    Weather(TomlItem),
}

/// The whole configuration: the enabled panels in document order, and the
/// process-wide settings.
pub struct Config {
    pub components: Vec<ComponentConfig>,
    pub global: GlobalConfig,
}

/// A fatal, pre-report error: the run aborts before any panel is prepared.
#[derive(Debug)]
pub enum ConfigError {
    /// No configuration file was given and none was found at the default
    /// location.
    ConfigNotFound,
    /// Neither a configuration home nor a home directory could be resolved.
    ConfigHome(String),
    /// The configuration file could not be read.
    IO(String),
    /// The configuration text could not be parsed against the schema.
    ConfigParse(String),
}

impl ConfigError {
    /// The diagnostic this error produces.
    pub open spec fn msg_spec(self) -> Seq<char> {
        match self {
            ConfigError::ConfigNotFound => (
            "Configuration file not found.\nMake a copy of default config and either specify it as an arg or \nplace it in a default location.  See ReadMe for details."@
            ),
            ConfigError::ConfigHome(s) => s@,
            ConfigError::IO(s) => s@,
            ConfigError::ConfigParse(s) => s@,
        }
    }

    pub fn message(&self) -> (r: String)
        ensures
            r@ == self.msg_spec(),
    {
        match self {
            ConfigError::ConfigNotFound => (
            "Configuration file not found.\nMake a copy of default config and either specify it as an arg or \nplace it in a default location.  See ReadMe for details."
            ).to_owned(),
            ConfigError::ConfigHome(s) => s.clone(),
            ConfigError::IO(s) => s.clone(),
            ConfigError::ConfigParse(s) => s.clone(),
        }
    }
}

/// The recognized top-level keys: `global` plus one key per panel kind,
/// written as the original's field names in snake case.
#[derive(Clone, Copy, Debug, PartialEq, Eq, Structural)]
pub enum FieldKey {
    Global,
    Banner,
    Docker,
    Fail2Ban,
    Filesystems,
    LastLogin,
    LastRun,
    Memory,
    ServiceStatus,
    UserServiceStatus,
    SSLCerts,
    Uptime,
    Weather,
}

pub open spec fn key_of(k: Seq<char>) -> Option<FieldKey> {
    if k == "global"@ {
        Some(FieldKey::Global)
    } else if k == "banner"@ {
        Some(FieldKey::Banner)
    } else if k == "docker"@ {
        Some(FieldKey::Docker)
    } else if k == "fail2_ban"@ {
        Some(FieldKey::Fail2Ban)
    } else if k == "filesystems"@ {
        Some(FieldKey::Filesystems)
    } else if k == "last_login"@ {
        Some(FieldKey::LastLogin)
    } else if k == "last_run"@ {
        Some(FieldKey::LastRun)
    } else if k == "memory"@ {
        Some(FieldKey::Memory)
    } else if k == "service_status"@ {
        Some(FieldKey::ServiceStatus)
    } else if k == "user_service_status"@ {
        Some(FieldKey::UserServiceStatus)
    } else if k == "s_s_l_certs"@ {
        Some(FieldKey::SSLCerts)
    } else if k == "uptime"@ {
        Some(FieldKey::Uptime)
    } else if k == "weather"@ {
        Some(FieldKey::Weather)
    } else {
        None
    }
}

fn str_eq(k: &String, lit: &str) -> (r: bool)
    ensures
        r == (k@ == lit@),
{
    let l = lit.to_owned();
    *k == l
}

fn key_of_exec(k: &String) -> (r: Option<FieldKey>)
    ensures
        r == key_of(k@),
{
    if str_eq(k, "global") {
        Some(FieldKey::Global)
    } else if str_eq(k, "banner") {
        Some(FieldKey::Banner)
    } else if str_eq(k, "docker") {
        Some(FieldKey::Docker)
    } else if str_eq(k, "fail2_ban") {
        Some(FieldKey::Fail2Ban)
    } else if str_eq(k, "filesystems") {
        Some(FieldKey::Filesystems)
    } else if str_eq(k, "last_login") {
        Some(FieldKey::LastLogin)
    } else if str_eq(k, "last_run") {
        Some(FieldKey::LastRun)
    } else if str_eq(k, "memory") {
        Some(FieldKey::Memory)
    } else if str_eq(k, "service_status") {
        Some(FieldKey::ServiceStatus)
    } else if str_eq(k, "user_service_status") {
        Some(FieldKey::UserServiceStatus)
    } else if str_eq(k, "s_s_l_certs") {
        Some(FieldKey::SSLCerts)
    } else if str_eq(k, "uptime") {
        Some(FieldKey::Uptime)
    } else if str_eq(k, "weather") {
        Some(FieldKey::Weather)
    } else {
        None
    }
}

/// The message for a key whose value has the wrong shape.
pub open spec fn bad_value_msg(k: Seq<char>) -> Seq<char> {
    "invalid value for configuration key: "@ + k
}

/// The message for an unrecognized top-level key.
pub open spec fn unknown_key_msg(k: Seq<char>) -> Seq<char> {
    "unknown configuration key: "@ + k
}

fn bad_value_msg_exec(k: &String) -> (r: String)
    ensures
        r@ == bad_value_msg(k@),
{
    "invalid value for configuration key: ".to_owned().concat(k.as_str())
}

fn unknown_key_msg_exec(k: &String) -> (r: String)
    ensures
        r@ == unknown_key_msg(k@),
{
    "unknown configuration key: ".to_owned().concat(k.as_str())
}

/// Spec-level image of a (String, String) row list.
pub open spec fn pairs_view(s: Seq<(String, String)>) -> Seq<(Seq<char>, Seq<char>)> {
    s.map_values(|p: (String, String)| (p.0@, p.1@))
}

/// A table whose every value must be a string, read as (key, value) rows in
/// document order; any other value shape is a failure.
pub open spec fn string_pairs(es: Seq<(String, TomlItem)>) -> Result<Seq<(Seq<char>, Seq<char>)>, ()>
    decreases es.len(),
{
    if es.len() == 0 {
        Ok(Seq::empty())
    } else {
        match string_pairs(es.drop_last()) {
            Err(u) => Err(u),
            Ok(ps) => match es.last().1 {
                TomlItem::Str(s) => Ok(ps.push((es.last().0@, s@))),
                _ => Err(()),
            },
        }
    }
}

fn string_pairs_exec(mut es: Vec<(String, TomlItem)>) -> (r: Option<Vec<(String, String)>>)
    ensures
        (match r {
            Some(v) => string_pairs(es@) == Ok::<Seq<(Seq<char>, Seq<char>)>, ()>(pairs_view(v@)),
            None => string_pairs(es@) is Err,
        }),
    decreases es@.len(),
{
    if es.len() == 0 {
        proof {
            assert(pairs_view(Seq::<(String, String)>::empty()) =~= Seq::<(
                Seq<char>,
                Seq<char>,
            )>::empty());
        }
        Some(Vec::new())
    } else {
        let last = es.pop().unwrap();
        let ghost full = es@.push(last);
        proof {
            assert(full.drop_last() =~= es@);
            assert(full.last() == last);
        }
        match string_pairs_exec(es) {
            None => None,
            Some(mut v) => {
                match last.1 {
                    TomlItem::Str(s) => {
                        let ghost pv = pairs_view(v@);
                        v.push((last.0, s));
                        proof {
                            assert(pairs_view(v@) =~= pv.push((full.last().0@, full.last().1->Str_0@)));
                        }
                        Some(v)
                    },
                    _ => None,
                }
            },
        }
    }
}

pub open spec fn sort_of(s: Seq<char>) -> Option<SortMethod> {
    if s == "Alphabetical"@ || s == "alphabetical"@ {
        Some(SortMethod::Alphabetical)
    } else if s == "Expiration"@ || s == "expiration"@ {
        Some(SortMethod::Expiration)
    } else if s == "Manual"@ || s == "manual"@ {
        Some(SortMethod::Manual)
    } else {
        None
    }
}

fn sort_of_exec(s: &String) -> (r: Option<SortMethod>)
    ensures
        r == sort_of(s@),
{
    if str_eq(s, "Alphabetical") || str_eq(s, "alphabetical") {
        Some(SortMethod::Alphabetical)
    } else if str_eq(s, "Expiration") || str_eq(s, "expiration") {
        Some(SortMethod::Expiration)
    } else if str_eq(s, "Manual") || str_eq(s, "manual") {
        Some(SortMethod::Manual)
    } else {
        None
    }
}

/// The fields of the certificate panel's table, folded in document order:
/// `sort_method` must name a sort method, `certs` must be a table of
/// strings; unrecognized fields are ignored.
pub open spec fn ssl_fields(es: Seq<(String, TomlItem)>) -> Result<
    (Option<SortMethod>, Option<Seq<(Seq<char>, Seq<char>)>>),
    Seq<char>,
>
    decreases es.len(),
{
    if es.len() == 0 {
        Ok((None, None))
    } else {
        match ssl_fields(es.drop_last()) {
            Err(m) => Err(m),
            Ok((sm, certs)) => {
                let k = es.last().0@;
                if k == "sort_method"@ {
                    match es.last().1 {
                        TomlItem::Str(s) => match sort_of(s@) {
                            Some(method) => Ok((Some(method), certs)),
                            None => Err(bad_value_msg(k)),
                        },
                        _ => Err(bad_value_msg(k)),
                    }
                } else if k == "certs"@ {
                    match es.last().1 {
                        TomlItem::Table(t) => match string_pairs(t@) {
                            Ok(ps) => Ok((sm, Some(ps))),
                            Err(_) => Err(bad_value_msg(k)),
                        },
                        _ => Err(bad_value_msg(k)),
                    }
                } else {
                    Ok((sm, certs))
                }
            },
        }
    }
}

/// The certificate panel's configuration from its table: `certs` is
/// required; a missing `sort_method` falls back to `Manual`.
pub open spec fn ssl_config_of(es: Seq<(String, TomlItem)>) -> Result<
    (SortMethod, Seq<(Seq<char>, Seq<char>)>),
    Seq<char>,
> {
    match ssl_fields(es) {
        Err(m) => Err(m),
        Ok((sm, certs)) => match certs {
            None => Err("missing field certs"@),
            Some(ps) => Ok(
                (
                    match sm {
                        Some(method) => method,
                        None => SortMethod::Manual,
                    },
                    ps,
                ),
            ),
        },
    }
}

fn ssl_config_exec(mut es: Vec<(String, TomlItem)>) -> (r: Result<SSLCerts, String>)
    ensures
        (match r {
            Ok(c) => ssl_fields(es@) is Ok && ssl_config_of(es@) == Ok::<
                (SortMethod, Seq<(Seq<char>, Seq<char>)>),
                Seq<char>,
            >((c.sort_method, pairs_view(c.certs@))),
            Err(m) => ssl_config_of(es@) == Err::<
                (SortMethod, Seq<(Seq<char>, Seq<char>)>),
                Seq<char>,
            >(m@),
        }),
{
    match ssl_fields_exec(es) {
        Err(m) => Err(m),
        Ok((sm, certs)) => match certs {
            None => Err("missing field certs".to_owned()),
            Some(ps) => Ok(
                SSLCerts {
                    sort_method: match sm {
                        Some(method) => method,
                        None => SortMethod::default(),
                    },
                    certs: ps,
                },
            ),
        },
    }
}

fn ssl_fields_exec(mut es: Vec<(String, TomlItem)>) -> (r: Result<
    (Option<SortMethod>, Option<Vec<(String, String)>>),
    String,
>)
    ensures
        (match r {
            Ok((sm, certs)) => ssl_fields(es@) == Ok::<
                (Option<SortMethod>, Option<Seq<(Seq<char>, Seq<char>)>>),
                Seq<char>,
            >(
                (
                    sm,
                    match certs {
                        Some(v) => Some(pairs_view(v@)),
                        None => None,
                    },
                ),
            ),
            Err(m) => ssl_fields(es@) == Err::<
                (Option<SortMethod>, Option<Seq<(Seq<char>, Seq<char>)>>),
                Seq<char>,
            >(m@),
        }),
    decreases es@.len(),
{
    if es.len() == 0 {
        Ok((None, None))
    } else {
        let last = es.pop().unwrap();
        let ghost full = es@.push(last);
        proof {
            assert(full.drop_last() =~= es@);
            assert(full.last() == last);
        }
        match ssl_fields_exec(es) {
            Err(m) => Err(m),
            Ok((sm, certs)) => {
                let key = last.0;
                if str_eq(&key, "sort_method") {
                    match last.1 {
                        TomlItem::Str(s) => match sort_of_exec(&s) {
                            Some(method) => Ok((Some(method), certs)),
                            None => Err(bad_value_msg_exec(&key)),
                        },
                        _ => Err(bad_value_msg_exec(&key)),
                    }
                } else if str_eq(&key, "certs") {
                    match last.1 {
                        TomlItem::Table(t) => match string_pairs_exec(t) {
                            Some(ps) => Ok((sm, Some(ps))),
                            None => Err(bad_value_msg_exec(&key)),
                        },
                        _ => Err(bad_value_msg_exec(&key)),
                    }
                } else {
                    Ok((sm, certs))
                }
            },
        }
    }
}

/// The `global` table, folded in document order: `time_format` must be a
/// string; unrecognized fields are ignored.  Yields the pattern, if one was
/// given.
pub open spec fn global_fields(es: Seq<(String, TomlItem)>) -> Result<Option<Seq<char>>, Seq<char>>
    decreases es.len(),
{
    if es.len() == 0 {
        Ok(None)
    } else {
        match global_fields(es.drop_last()) {
            Err(m) => Err(m),
            Ok(fmt) => {
                let k = es.last().0@;
                if k == "time_format"@ {
                    match es.last().1 {
                        TomlItem::Str(s) => Ok(Some(s@)),
                        _ => Err(bad_value_msg(k)),
                    }
                } else {
                    Ok(fmt)
                }
            },
        }
    }
}

fn global_fields_exec(mut es: Vec<(String, TomlItem)>) -> (r: Result<Option<String>, String>)
    ensures
        (match r {
            Ok(fmt) => global_fields(es@) == Ok::<Option<Seq<char>>, Seq<char>>(
                match fmt {
                    Some(f) => Some(f@),
                    None => None,
                },
            ),
            Err(m) => global_fields(es@) == Err::<Option<Seq<char>>, Seq<char>>(m@),
        }),
    decreases es@.len(),
{
    if es.len() == 0 {
        Ok(None)
    } else {
        let last = es.pop().unwrap();
        let ghost full = es@.push(last);
        proof {
            assert(full.drop_last() =~= es@);
            assert(full.last() == last);
        }
        match global_fields_exec(es) {
            Err(m) => Err(m),
            Ok(fmt) => {
                let key = last.0;
                if str_eq(&key, "time_format") {
                    match last.1 {
                        TomlItem::Str(s) => Ok(Some(s)),
                        _ => Err(bad_value_msg_exec(&key)),
                    }
                } else {
                    Ok(fmt)
                }
            },
        }
    }
}

/// Spec-level image of one enabled panel's configuration.
pub enum CCView {
    Banner(TomlItem),
    Docker(TomlItem),
    Fail2Ban(TomlItem),
    Filesystems(Seq<(Seq<char>, Seq<char>)>),
    LastLogin(TomlItem),
    LastRun(TomlItem),
    Memory(TomlItem),
    ServiceStatus(TomlItem),
    UserServiceStatus(TomlItem),
    SSLCerts(SortMethod, Seq<(Seq<char>, Seq<char>)>),
    Uptime(TomlItem),
    Weather(TomlItem),
}

pub open spec fn cc_view(c: ComponentConfig) -> CCView {
    match c {
        ComponentConfig::Banner(t) => CCView::Banner(t),
        ComponentConfig::Docker(t) => CCView::Docker(t),
        ComponentConfig::Fail2Ban(t) => CCView::Fail2Ban(t),
        ComponentConfig::Filesystems(f) => CCView::Filesystems(pairs_view(f.mounts@)),
        ComponentConfig::LastLogin(t) => CCView::LastLogin(t),
        ComponentConfig::LastRun(t) => CCView::LastRun(t),
        ComponentConfig::Memory(t) => CCView::Memory(t),
        ComponentConfig::ServiceStatus(t) => CCView::ServiceStatus(t),
        ComponentConfig::UserServiceStatus(t) => CCView::UserServiceStatus(t),
        ComponentConfig::SSLCerts(s) => CCView::SSLCerts(s.sort_method, pairs_view(s.certs@)),
        ComponentConfig::Uptime(t) => CCView::Uptime(t),
        ComponentConfig::Weather(t) => CCView::Weather(t),
    }
}

/// Spec-level image of the enabled panel list.
pub open spec fn ccs_view(s: Seq<ComponentConfig>) -> Seq<CCView> {
    s.map_values(|c: ComponentConfig| cc_view(c))
}

/// One top-level entry folded into the configuration gathered so far:
/// `global` sets the settings, a recognized panel key appends that panel,
/// an unrecognized key is a hard error, as is a value of the wrong shape.
pub open spec fn entry_step(
    cs: Seq<CCView>,
    fmt: Option<Seq<char>>,
    e: (String, TomlItem),
) -> Result<(Seq<CCView>, Option<Seq<char>>), Seq<char>> {
    let k = e.0@;
    match key_of(k) {
        None => Err(unknown_key_msg(k)),
        Some(FieldKey::Global) => match e.1 {
            TomlItem::Table(t) => match global_fields(t@) {
                Err(m) => Err(m),
                Ok(None) => Ok((cs, fmt)),
                Ok(Some(f)) => Ok((cs, Some(f))),
            },
            _ => Err(bad_value_msg(k)),
        },
        Some(FieldKey::SSLCerts) => match e.1 {
            TomlItem::Table(t) => match ssl_config_of(t@) {
                Err(m) => Err(m),
                Ok((sm, ps)) => Ok((cs.push(CCView::SSLCerts(sm, ps)), fmt)),
            },
            _ => Err(bad_value_msg(k)),
        },
        Some(FieldKey::Filesystems) => match e.1 {
            TomlItem::Table(t) => match string_pairs(t@) {
                Err(_) => Err(bad_value_msg(k)),
                Ok(ps) => Ok((cs.push(CCView::Filesystems(ps)), fmt)),
            },
            _ => Err(bad_value_msg(k)),
        },
        Some(pk) => match e.1 {
            TomlItem::Table(_) => Ok((cs.push(raw_view(pk, e.1)), fmt)),
            _ => Err(bad_value_msg(k)),
        },
    }
}

/// The image of a panel that carries its configuration table verbatim.
pub open spec fn raw_view(pk: FieldKey, t: TomlItem) -> CCView {
    match pk {
        FieldKey::Banner => CCView::Banner(t),
        FieldKey::Docker => CCView::Docker(t),
        FieldKey::Fail2Ban => CCView::Fail2Ban(t),
        FieldKey::LastLogin => CCView::LastLogin(t),
        FieldKey::LastRun => CCView::LastRun(t),
        FieldKey::Memory => CCView::Memory(t),
        FieldKey::ServiceStatus => CCView::ServiceStatus(t),
        FieldKey::UserServiceStatus => CCView::UserServiceStatus(t),
        FieldKey::Uptime => CCView::Uptime(t),
        FieldKey::Weather => CCView::Weather(t),
        // never reached: these keys are handled on their own
        FieldKey::Global => CCView::Banner(t),
        FieldKey::Filesystems => CCView::Filesystems(Seq::empty()),
        FieldKey::SSLCerts => CCView::SSLCerts(SortMethod::Manual, Seq::empty()),
    }
}

/// The top-level entries folded in document order; the first failure wins.
pub open spec fn entries_result(es: Seq<(String, TomlItem)>) -> Result<
    (Seq<CCView>, Option<Seq<char>>),
    Seq<char>,
>
    decreases es.len(),
{
    if es.len() == 0 {
        Ok((Seq::empty(), None))
    } else {
        match entries_result(es.drop_last()) {
            Err(m) => Err(m),
            Ok((cs, fmt)) => entry_step(cs, fmt, es.last()),
        }
    }
}

fn entries_exec(mut es: Vec<(String, TomlItem)>) -> (r: Result<
    (Vec<ComponentConfig>, Option<String>),
    String,
>)
    ensures
        (match r {
            Ok((cs, fmt)) => entries_result(es@) == Ok::<
                (Seq<CCView>, Option<Seq<char>>),
                Seq<char>,
            >(
                (
                    ccs_view(cs@),
                    match fmt {
                        Some(f) => Some(f@),
                        None => None,
                    },
                ),
            ),
            Err(m) => entries_result(es@) == Err::<(Seq<CCView>, Option<Seq<char>>), Seq<char>>(
                m@,
            ),
        }),
    decreases es@.len(),
{
    if es.len() == 0 {
        proof {
            assert(ccs_view(Seq::<ComponentConfig>::empty()) =~= Seq::<CCView>::empty());
        }
        Ok((Vec::new(), None))
    } else {
        let last = es.pop().unwrap();
        let ghost full = es@.push(last);
        proof {
            assert(full.drop_last() =~= es@);
            assert(full.last() == last);
        }
        match entries_exec(es) {
            Err(m) => Err(m),
            Ok((mut cs, fmt)) => {
                let (key, item) = last;
                match key_of_exec(&key) {
                    None => Err(unknown_key_msg_exec(&key)),
                    Some(FieldKey::Global) => match item {
                        TomlItem::Table(t) => match global_fields_exec(t) {
                            Err(m) => Err(m),
                            Ok(None) => Ok((cs, fmt)),
                            Ok(Some(f)) => Ok((cs, Some(f))),
                        },
                        _ => Err(bad_value_msg_exec(&key)),
                    },
                    Some(FieldKey::SSLCerts) => match item {
                        TomlItem::Table(t) => match ssl_config_exec(t) {
                            Err(m) => Err(m),
                            Ok(ssl) => {
                                let ghost prev = ccs_view(cs@);
                                let ghost cv = cc_view(ComponentConfig::SSLCerts(ssl));
                                cs.push(ComponentConfig::SSLCerts(ssl));
                                proof {
                                    assert(ccs_view(cs@) =~= prev.push(cv));
                                }
                                Ok((cs, fmt))
                            },
                        },
                        _ => Err(bad_value_msg_exec(&key)),
                    },
                    Some(FieldKey::Filesystems) => match item {
                        TomlItem::Table(t) => match string_pairs_exec(t) {
                            None => Err(bad_value_msg_exec(&key)),
                            Some(ps) => {
                                let cfg = FilesystemsConfig { mounts: ps };
                                let ghost prev = ccs_view(cs@);
                                let ghost cv = cc_view(ComponentConfig::Filesystems(cfg));
                                cs.push(ComponentConfig::Filesystems(cfg));
                                proof {
                                    assert(ccs_view(cs@) =~= prev.push(cv));
                                }
                                Ok((cs, fmt))
                            },
                        },
                        _ => Err(bad_value_msg_exec(&key)),
                    },
                    Some(pk) => {
                        let is_table = match &item {
                            TomlItem::Table(_) => true,
                            _ => false,
                        };
                        if is_table {
                            let cc = raw_component(pk, item);
                            let ghost prev = ccs_view(cs@);
                            let ghost cv = cc_view(cc);
                            proof {
                                assert(cv == raw_view(pk, full.last().1));
                            }
                            cs.push(cc);
                            proof {
                                assert(ccs_view(cs@) =~= prev.push(cv));
                            }
                            Ok((cs, fmt))
                        } else {
                            Err(bad_value_msg_exec(&key))
                        }
                    },
                }
            },
        }
    }
}

/// Wraps a verbatim configuration table in its panel's variant.
fn raw_component(pk: FieldKey, t: TomlItem) -> (r: ComponentConfig)
    requires
        !(pk is Global),
        !(pk is Filesystems),
        !(pk is SSLCerts),
    ensures
        cc_view(r) == raw_view(pk, t),
{
    match pk {
        FieldKey::Banner => ComponentConfig::Banner(t),
        FieldKey::Docker => ComponentConfig::Docker(t),
        FieldKey::Fail2Ban => ComponentConfig::Fail2Ban(t),
        FieldKey::LastLogin => ComponentConfig::LastLogin(t),
        FieldKey::LastRun => ComponentConfig::LastRun(t),
        FieldKey::Memory => ComponentConfig::Memory(t),
        FieldKey::ServiceStatus => ComponentConfig::ServiceStatus(t),
        FieldKey::UserServiceStatus => ComponentConfig::UserServiceStatus(t),
        FieldKey::Uptime => ComponentConfig::Uptime(t),
        FieldKey::Weather => ComponentConfig::Weather(t),
        FieldKey::Global => ComponentConfig::Banner(t),
        FieldKey::Filesystems => ComponentConfig::Banner(t),
        FieldKey::SSLCerts => ComponentConfig::Banner(t),
    }
}

/// What a whole document yields: the panel images in document order and the
/// time format (the default when the document gives none), or the first
/// failure's message.  A document whose top level is not a table fails.
pub open spec fn config_result(t: TomlItem) -> Result<(Seq<CCView>, Seq<char>), Seq<char>> {
    match t {
        TomlItem::Table(es) => match entries_result(es@) {
            Err(m) => Err(m),
            Ok((cs, fmt)) => Ok(
                (
                    cs,
                    match fmt {
                        Some(f) => f,
                        None => default_time_format(),
                    },
                ),
            ),
        },
        _ => Err("expected a table at the top level"@),
    }
}

/// Materializes the configuration from a parsed document tree: the enabled
/// panels in document order, the global settings, or the first schema
/// failure, reported as a parse error.
pub fn config_from_tree(t: TomlItem) -> (r: Result<Config, ConfigError>)
    ensures
        (match config_result(t) {
            Ok((cs, fmt)) => r is Ok && ccs_view(r->Ok_0.components@) == cs
                && r->Ok_0.global.time_format@ == fmt,
            Err(m) => r is Err && r->Err_0 is ConfigParse && r->Err_0->ConfigParse_0@ == m,
        }),
{
    match t {
        TomlItem::Table(es) => match entries_exec(es) {
            Err(m) => Err(ConfigError::ConfigParse(m)),
            Ok((cs, fmt)) => Ok(
                Config {
                    components: cs,
                    global: match fmt {
                        Some(f) => GlobalConfig { time_format: f },
                        None => GlobalConfig::new_default(),
                    },
                },
            ),
        },
        _ => Err(ConfigError::ConfigParse("expected a table at the top level".to_owned())),
    }
}

/// Parses configuration text: TOML parsing through the document tree, then
/// schema validation; any failure is a parse error carrying its message.
pub fn parse_config(text: &str) -> (r: Result<Config, ConfigError>)
    ensures
        (match toml_document(text@) {
            Err(m) => r is Err && r->Err_0 is ConfigParse && r->Err_0->ConfigParse_0@ == m,
            Ok(tree) => (match config_result(tree) {
                Ok((cs, fmt)) => r is Ok && ccs_view(r->Ok_0.components@) == cs
                    && r->Ok_0.global.time_format@ == fmt,
                Err(m) => r is Err && r->Err_0 is ConfigParse && r->Err_0->ConfigParse_0@ == m,
            }),
        }),
{
    match parse_document(text) {
        Err(e) => Err(ConfigError::ConfigParse(e)),
        Ok(tree) => config_from_tree(tree),
    }
}

/// The default configuration file location: the configuration home if one
/// is set, else `.config` under the home directory, with the fixed relative
/// file name under it; with neither directory the error names the missing
/// variable.
pub fn config_base_path(xdg_config_home: Option<String>, home: Option<String>) -> (r: Result<
    String,
    ConfigError,
>)
    ensures
        (match (xdg_config_home, home) {
            (Some(x), _) => r is Ok && r->Ok_0@ == x@ + "/rust-motd/config.toml"@,
            (None, Some(h)) => r is Ok && r->Ok_0@ == h@ + "/.config/rust-motd/config.toml"@,
            (None, None) => r is Err && r->Err_0 is ConfigHome,
        }),
{
    match xdg_config_home {
        Some(x) => Ok(x.concat("/rust-motd/config.toml")),
        None => match home {
            Some(h) => Ok(h.concat("/.config/rust-motd/config.toml")),
            None => Err(ConfigError::ConfigHome("environment variable not found".to_owned())),
        },
    }
}

} // verus!
