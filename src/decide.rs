//! The referral decision taken after each server's response.
use vstd::prelude::*;
use crate::errors::Error;
use crate::record::{get_domain, next_whois_server, record_domain, record_server, WhoisKV};
use crate::table::str_views;

verus! {

/// Where a referral leads: the suffix it is known for and its server.
#[derive(Debug, PartialEq)]
pub struct NextWhois {
    pub domain: String,
    pub whois_server: String,
}

#[derive(Debug, PartialEq)]
pub enum Decision {
    /// The response speaks for the queried domain.
    Final,
    /// The query goes on at another server.
    NextWhois(NextWhois),
}

/// The outcome of one decision, over views.
pub enum Verdict {
    Final,
    Redirect { domain: Seq<char>, server: Seq<char> },
    NoInfo,
    Loop(Seq<char>),
}

/// The decision for queried domain `d`, response records `m` and the servers
/// `visited` so far: final when the records name `d` itself; else a referral
/// to the "whois" server, for the named domain or else `d`, unless that
/// server was visited already or there is none.
pub open spec fn verdict(d: Seq<char>, m: Map<Seq<char>, Seq<char>>, visited: Seq<Seq<char>>) -> Verdict {
    if record_domain(m) == Some(d) {
        Verdict::Final
    } else {
        match record_server(m) {
            None => Verdict::NoInfo,
            Some(s) => if visited.contains(s) {
                Verdict::Loop(s)
            } else {
                Verdict::Redirect {
                    domain: match record_domain(m) {
                        Some(a) => a,
                        None => d,
                    },
                    server: s,
                }
            },
        }
    }
}

/// `r` is the executable form of verdict `v`.
pub open spec fn decision_matches(r: Result<Decision, Error>, v: Verdict) -> bool {
    match v {
        Verdict::Final => r matches Ok(Decision::Final),
        Verdict::Redirect { domain, server } => r matches Ok(Decision::NextWhois(n))
            && n.domain@ == domain && n.whois_server@ == server,
        Verdict::NoInfo => r matches Err(Error::BadWhoisForDomain),
        Verdict::Loop(s) => r matches Err(Error::WhoisServerLoop(x)) && x@ == s,
    }
}

/// Whether `need` is one of the strings of `v`.
pub fn contains_str(v: &Vec<String>, need: &str) -> (r: bool)
    ensures
        r == str_views(v@).contains(need@),
{
    let k = need.to_owned();
    let n = v.len();
    let mut i: usize = 0;
    while i < n
        invariant
            n == v.len(),
            i <= n,
            k@ == need@,
            forall|j: int| 0 <= j < i ==> v@[j]@ != k@,
        decreases n - i,
    {
        if v[i] == k {
            assert(str_views(v@)[i as int] == need@);
            return true;
        }
        i = i + 1;
    }
    assert(!str_views(v@).contains(need@)) by {
        if str_views(v@).contains(need@) {
            let j = choose|j: int| 0 <= j < str_views(v@).len() && str_views(v@)[j] == need@;
            assert(v@[j]@ == need@);
        }
    }
    false
}

/// Decides, after a response to a query for `domain`, whether it is final or
/// where to go next, given the servers `prev` already asked.
pub fn decide(domain: &str, whois: &WhoisKV, prev: &Vec<String>) -> (r: Result<Decision, Error>)
    requires
        whois.wf(),
    ensures
        decision_matches(r, verdict(domain@, whois@, str_views(prev@))),
{
    let d = domain.to_owned();
    let whois_domain = get_domain(whois);
    if let Some(wd) = &whois_domain {
        if *wd == d {
            return Ok(Decision::Final);
        }
    }
    match next_whois_server(whois) {
        None => Err(Error::BadWhoisForDomain),
        Some(server) => {
            if contains_str(prev, server.as_str()) {
                Err(Error::WhoisServerLoop(server))
            } else {
                let next_domain = match whois_domain {
                    Some(wd) => wd,
                    None => d,
                };
                Ok(Decision::NextWhois(NextWhois { domain: next_domain, whois_server: server }))
            }
        },
    }
}

} // verus!
