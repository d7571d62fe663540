//! The settings with which a service installs its tracer: the service's name,
//! the collector it exports spans to, and the file its log goes to.

use vstd::prelude::*;
use vstd::string::StringExecFns;

verus! {

/// The name a service gets when it gives none.
pub open spec fn default_service_name() -> Seq<char> {
    seq!['d', 'e', 'f', 'a', 'u', 'l', 't', ' ', 's', 'e', 'r', 'v', 'i', 'c', 'e']
}

/// The collector that spans go to when no endpoint is given.
pub open spec fn default_endpoint() -> Seq<char> {
    seq!['h', 't', 't', 'p', ':', '/', '/', '0', '.', '0', '.', '0', '.', '0', ':', '4', '3', '1', '7']
}

/// The log file of a service: `logs/<service name>.log`.
pub open spec fn log_path_of(service_name: Seq<char>) -> Seq<char> {
    seq!['l', 'o', 'g', 's', '/'] + service_name + seq!['.', 'l', 'o', 'g']
}

/// The log path holds the whole service name, between `logs/` and `.log`.
pub proof fn lemma_log_path_holds_name(service_name: Seq<char>)
    ensures
        log_path_of(service_name).len() == service_name.len() + 9,
        log_path_of(service_name).subrange(0, 5) == seq!['l', 'o', 'g', 's', '/'],
        log_path_of(service_name).subrange(5, 5 + service_name.len() as int) == service_name,
        log_path_of(service_name).subrange(5 + service_name.len() as int, 9 + service_name.len() as int)
            == seq!['.', 'l', 'o', 'g'],
{
    let p = log_path_of(service_name);
    assert(p.subrange(0, 5) =~= seq!['l', 'o', 'g', 's', '/']);
    assert(p.subrange(5, 5 + service_name.len() as int) =~= service_name);
    assert(p.subrange(5 + service_name.len() as int, 9 + service_name.len() as int) =~= seq!['.', 'l', 'o', 'g']);
}

/// A given name and endpoint are kept whole; the defaults are the service
/// name `default service` and the collector `http://0.0.0.0:4317`.
pub proof fn lemma_defaults()
    ensures
        default_service_name() =~= seq!['d', 'e', 'f', 'a', 'u', 'l', 't', ' ', 's', 'e', 'r', 'v', 'i', 'c', 'e'],
        default_service_name().len() == 15,
        default_endpoint().len() == 19,
        default_endpoint().subrange(0, 7) =~= seq!['h', 't', 't', 'p', ':', '/', '/'],
        default_endpoint().subrange(14, 19) =~= seq![':', '4', '3', '1', '7'],
{
}

/// Where a tracer sends its spans and writes its log.
pub struct TracerSettings {
    /// The value of the `service.name` resource attribute.
    pub service_name: String,
    /// The OTLP collector that spans are exported to.
    pub endpoint: String,
    /// The file that the service's JSON log is written to.
    pub log_path: String,
}

impl TracerSettings {
    /// The settings for a service: the given name and endpoint, or the
    /// defaults where none is given.
    pub fn resolve(service_name: Option<&str>, endpoint: Option<&str>) -> (r: TracerSettings)
        ensures
            r.service_name@ == match service_name {
                Some(s) => s@,
                None => default_service_name(),
            },
            r.endpoint@ == match endpoint {
                Some(e) => e@,
                None => default_endpoint(),
            },
            r.log_path@ == log_path_of(r.service_name@),
            r.log_path@.len() == r.service_name@.len() + 9,
            r.log_path@.subrange(5, 5 + r.service_name@.len() as int) == r.service_name@,
    {
        let name: &str = match service_name {
            Some(s) => s,
            None => "default service",
        };
        let target: &str = match endpoint {
            Some(e) => e,
            None => "http://0.0.0.0:4317",
        };
        let mut log_path = "logs/".to_owned();
        log_path.append(name);
        log_path.append(".log");
        proof {
            reveal_strlit("default service");
            reveal_strlit("http://0.0.0.0:4317");
            reveal_strlit("logs/");
            reveal_strlit(".log");
        }
        let r = TracerSettings { service_name: name.to_owned(), endpoint: target.to_owned(), log_path };
        proof {
            lemma_log_path_holds_name(r.service_name@);
        }
        r
    }
}

} // verus!
