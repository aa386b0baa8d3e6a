//! The authority cache and the resolution driven through it.
use vstd::prelude::*;
use crate::decide::{decide, contains_str, verdict, Decision, Verdict};
use crate::domain::{decompose, lemma_decompose_ends, split_domain, trim_dots};
use crate::errors::Error;
use crate::normalize::{ascii_form, domain_to_ascii, lower_of, to_lowercase};
use crate::record::{parse, whois_key_value};
use crate::table::{str_views, KeyValues};

verus! {

/// The server that answers for the root, where every resolution may start.
pub const ROOT_WHOIS_SERVER: &'static str = "whois.iana.org";

/// Walking suffixes `sfx` from index `i`: the server of the first suffix that
/// has one, unless a rejected suffix comes first.
pub open spec fn lookup_from(
    good: Map<Seq<char>, Seq<char>>,
    bad: Set<Seq<char>>,
    sfx: Seq<Seq<char>>,
    i: int,
) -> Option<Seq<char>>
    decreases sfx.len() - i,
{
    if 0 <= i < sfx.len() {
        if good.contains_key(sfx[i]) {
            Some(good[sfx[i]])
        } else if bad.contains(sfx[i]) {
            None
        } else {
            lookup_from(good, bad, sfx, i + 1)
        }
    } else {
        None
    }
}

/// The server to start from for domain `d`, walking its suffixes from the
/// most specific one.
pub open spec fn lookup_server(
    good: Map<Seq<char>, Seq<char>>,
    bad: Set<Seq<char>>,
    d: Seq<char>,
) -> Option<Seq<char>> {
    lookup_from(good, bad, decompose(d), 0)
}

proof fn lemma_lookup_reaches_root(root: Seq<char>, sfx: Seq<Seq<char>>, i: int)
    requires
        0 <= i < sfx.len(),
        sfx.last() == Seq::<char>::empty(),
    ensures
        lookup_from(map![Seq::<char>::empty() => root], Set::empty(), sfx, i) == Some(root),
    decreases sfx.len() - i,
{
    if sfx[i] != Seq::<char>::empty() {
        lemma_lookup_reaches_root(root, sfx, i + 1);
    }
}

/// A cache that knows only the root server, and no rejected suffix, starts
/// every domain at the root server.
pub proof fn lemma_fresh_cache_uses_root(root: Seq<char>, d: Seq<char>)
    ensures
        lookup_server(map![Seq::<char>::empty() => root], Set::empty(), d) == Some(root),
{
    lemma_decompose_ends(d);
    lemma_lookup_reaches_root(root, decompose(d), 0);
}

/// Once a referral records `server` for a domain written without outer dots,
/// that domain starts at `server`, whatever else the cache holds.
pub proof fn lemma_recorded_referral_is_used(
    good: Map<Seq<char>, Seq<char>>,
    bad: Set<Seq<char>>,
    d: Seq<char>,
    server: Seq<char>,
)
    requires
        trim_dots(d) == d,
    ensures
        lookup_server(good.insert(d, server), bad, d) == Some(server),
{
    lemma_decompose_ends(d);
}

/// A resolution under way: the normalized domain queried, the server to ask
/// next, and the servers asked so far, that one included.
pub struct Resolution {
    domain: String,
    server: String,
    visited: Vec<String>,
}

impl Resolution {
    pub closed spec fn query(&self) -> Seq<char> {
        self.domain@
    }

    pub closed spec fn current(&self) -> Seq<char> {
        self.server@
    }

    pub closed spec fn asked(&self) -> Seq<Seq<char>> {
        str_views(self.visited@)
    }

    /// The text sent to every server.
    pub fn domain(&self) -> (r: &str)
        ensures
            r@ == self.query(),
    {
        self.domain.as_str()
    }

    /// The server to ask next.
    pub fn server(&self) -> (r: &str)
        ensures
            r@ == self.current(),
    {
        self.server.as_str()
    }
}

/// What follows a response.
pub enum Step {
    /// The resolution is over, with this response text.
    Done(String),
    /// The resolution goes on: ask its current server.
    Ask(Resolution),
}

/// A WHOIS client: the servers known to answer for domain suffixes, and the
/// suffixes known to have none.
pub struct Client {
    good_servers: KeyValues,
    bad_servers: Vec<String>,
}

impl Client {
    pub closed spec fn servers(&self) -> Map<Seq<char>, Seq<char>> {
        self.good_servers@
    }

    pub closed spec fn rejected(&self) -> Set<Seq<char>> {
        str_views(self.bad_servers@).to_set()
    }

    /// The root suffix has a server.
    pub closed spec fn wf(&self) -> bool {
        self.good_servers.wf() && self.servers().contains_key(Seq::<char>::empty())
    }

    /// A client whose root server is `root`.
    pub fn with_root(root: &str) -> (r: Client)
        ensures
            r.wf(),
            r.servers() == map![Seq::<char>::empty() => root@],
            r.rejected() == Set::<Seq<char>>::empty(),
    {
        let mut good_servers = KeyValues::new();
        good_servers.insert(String::new(), root.to_owned());
        let r = Client { good_servers, bad_servers: Vec::new() };
        assert(r.servers() =~= map![Seq::<char>::empty() => root@]);
        assert(r.rejected() =~= Set::<Seq<char>>::empty());
        r
    }

    /// A client whose root server is `ROOT_WHOIS_SERVER`.
    pub fn new() -> (r: Client)
        ensures
            r.wf(),
            r.servers() == map![Seq::<char>::empty() => ROOT_WHOIS_SERVER@],
            r.rejected() == Set::<Seq<char>>::empty(),
    {
        Client::with_root(ROOT_WHOIS_SERVER)
    }

    /// Records that `server` answers for the suffix `domain`.
    pub fn add_good_server(&mut self, domain: &str, server: &str)
        requires
            old(self).wf(),
        ensures
            final(self).wf(),
            final(self).servers() == old(self).servers().insert(domain@, server@),
            final(self).rejected() == old(self).rejected(),
    {
        self.good_servers.insert(domain.to_owned(), server.to_owned());
    }

    /// Records that the suffix `domain` has no server.
    pub fn add_bad_server(&mut self, domain: &str)
        requires
            old(self).wf(),
        ensures
            final(self).wf(),
            final(self).servers() == old(self).servers(),
            final(self).rejected() == old(self).rejected().insert(domain@),
    {
        let ghost before = str_views(self.bad_servers@);
        let d = domain.to_owned();
        self.bad_servers.push(d);
        let ghost after = before.push(d@);
        assert(str_views(self.bad_servers@) =~= after);
        assert forall|x: Seq<char>| after.contains(x) <==> before.contains(x) || x == domain@ by {
            if before.contains(x) {
                let j = choose|j: int| 0 <= j < before.len() && before[j] == x;
                assert(after[j] == x);
            }
            if x == domain@ {
                assert(after[before.len() as int] == x);
            }
            if after.contains(x) {
                let j = choose|j: int| 0 <= j < after.len() && after[j] == x;
                if j < before.len() {
                    assert(before[j] == x);
                }
            }
        }
        assert(self.rejected() =~= old(self).rejected().insert(domain@));
    }

    /// The server to start from for `domain`.
    pub fn get_whois_server(&self, domain: &str) -> (r: Result<String, Error>)
        requires
            self.wf(),
        ensures
            match lookup_server(self.servers(), self.rejected(), domain@) {
                Some(s) => r matches Ok(x) && x@ == s,
                None => r matches Err(Error::CantFindWhoisServer),
            },
    {
        let sfx = split_domain(domain);
        let n = sfx.len();
        let mut i: usize = 0;
        while i < n
            invariant
                self.wf(),
                n == sfx.len(),
                i <= n,
                str_views(sfx@) == decompose(domain@),
                lookup_from(self.servers(), self.rejected(), decompose(domain@), i as int)
                    == lookup_server(self.servers(), self.rejected(), domain@),
            decreases n - i,
        {
            assert(str_views(sfx@)[i as int] == sfx@[i as int]@);
            if let Some(server) = self.good_servers.get(sfx[i].as_str()) {
                return Ok(server);
            }
            if contains_str(&self.bad_servers, sfx[i].as_str()) {
                return Err(Error::CantFindWhoisServer);
            }
            i = i + 1;
        }
        Err(Error::CantFindWhoisServer)
    }

    /// Starts resolving `domain`: converts it to its lowercase ASCII form and
    /// picks the server to ask first.
    pub fn start_resolution(&self, domain: &str) -> (r: Result<Resolution, Error>)
        requires
            self.wf(),
        ensures
            match ascii_form(domain@) {
                None => r matches Err(Error::ConvertToPunycode(_)),
                Some(a) => match lookup_server(self.servers(), self.rejected(), lower_of(a)) {
                    None => r matches Err(Error::CantFindWhoisServer),
                    Some(s) => r matches Ok(q) && q.query() == lower_of(a) && q.current() == s
                        && q.asked() == seq![s],
                },
            },
    {
        let ascii = match domain_to_ascii(domain) {
            Ok(a) => a,
            Err(e) => {
                return Err(Error::ConvertToPunycode(e));
            },
        };
        let d = to_lowercase(ascii.as_str());
        let server = match self.get_whois_server(d.as_str()) {
            Ok(s) => s,
            Err(e) => {
                return Err(e);
            },
        };
        let mut visited: Vec<String> = Vec::new();
        visited.push(server.clone());
        assert(str_views(visited@) =~= seq![server@]);
        Ok(Resolution { domain: d, server, visited })
    }

    /// Takes the response of the current server of `q`: the resolution ends
    /// with that text, fails, or goes on at the server a referral names,
    /// which is then recorded for the referral's domain.
    pub fn advance(&mut self, q: Resolution, response: &str) -> (r: Result<Step, Error>)
        requires
            old(self).wf(),
        ensures
            final(self).wf(),
            final(self).rejected() == old(self).rejected(),
            match verdict(q.query(), parse(lower_of(response@)), q.asked()) {
                Verdict::Final => r matches Ok(Step::Done(t)) && t@ == response@
                    && final(self).servers() == old(self).servers(),
                Verdict::Redirect { domain, server } => r matches Ok(Step::Ask(n))
                    && n.query() == q.query() && n.current() == server
                    && n.asked() == q.asked().push(server)
                    && final(self).servers() == old(self).servers().insert(domain, server),
                Verdict::NoInfo => r matches Err(Error::BadWhoisForDomain)
                    && final(self).servers() == old(self).servers(),
                Verdict::Loop(s) => r matches Err(Error::WhoisServerLoop(x)) && x@ == s
                    && final(self).servers() == old(self).servers(),
            },
    {
        let lowered = to_lowercase(response);
        let kv = whois_key_value(lowered.as_str());
        match decide(q.domain.as_str(), &kv, &q.visited) {
            Ok(Decision::Final) => Ok(Step::Done(response.to_owned())),
            Ok(Decision::NextWhois(next)) => {
                let server = next.whois_server;
                self.good_servers.insert(next.domain, server.clone());
                let mut visited = q.visited;
                let ghost before = str_views(visited@);
                visited.push(server.clone());
                assert(str_views(visited@) =~= before.push(server@));
                Ok(Step::Ask(Resolution { domain: q.domain, server, visited }))
            },
            Err(e) => Err(e),
        }
    }
}

} // verus!
