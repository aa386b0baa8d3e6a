//! Parsing of a WHOIS response into `key: value` records.
use vstd::prelude::*;
use crate::table::KeyValues;
use crate::text::{find_char, find_from, lemma_find_char, trim_class, trim_str, Class};

verus! {

/// The records of one WHOIS response.
pub type WhoisKV = KeyValues;

/// `s` without whitespace at either end.
pub open spec fn trim_spaces(s: Seq<char>) -> Seq<char> {
    trim_class(s, Class::Space)
}

/// `m` after one line: the trimmed line is split at its first colon, both
/// sides are trimmed, and the pair is recorded when neither side is empty.
pub open spec fn line_record(m: Map<Seq<char>, Seq<char>>, line: Seq<char>) -> Map<
    Seq<char>,
    Seq<char>,
> {
    let t = trim_spaces(line);
    let c = find_char(t, 0, ':');
    if 0 <= c < t.len() {
        let key = trim_spaces(t.subrange(0, c));
        let value = trim_spaces(t.subrange(c + 1, t.len() as int));
        if key.len() > 0 && value.len() > 0 {
            m.insert(key, value)
        } else {
            m
        }
    } else {
        m
    }
}

/// `m` after each line of `s` that starts at or after index `i`, in order.
pub open spec fn records_from(s: Seq<char>, i: int, m: Map<Seq<char>, Seq<char>>) -> Map<
    Seq<char>,
    Seq<char>,
>
    decreases s.len() - i,
{
    let j = find_char(s, i, '\n');
    if 0 <= i < s.len() {
        if i <= j < s.len() {
            records_from(s, j + 1, line_record(m, s.subrange(i, j)))
        } else {
            line_record(m, s.subrange(i, s.len() as int))
        }
    } else {
        m
    }
}

/// The records of a response text.
pub open spec fn parse(s: Seq<char>) -> Map<Seq<char>, Seq<char>> {
    records_from(s, 0, Map::empty())
}

/// Parsing is a function of the text: two parses of one text give equal records.
pub proof fn lemma_parse_repeatable(s: Seq<char>, a: WhoisKV, b: WhoisKV)
    requires
        a@ == parse(s),
        b@ == parse(s),
    ensures
        a@ == b@,
{
}

/// A line without a colon, or with nothing but whitespace before its first
/// colon, records nothing.
pub proof fn lemma_line_without_key(m: Map<Seq<char>, Seq<char>>, line: Seq<char>)
    requires
        ({
            let t = trim_spaces(line);
            let c = find_char(t, 0, ':');
            c >= t.len() || trim_spaces(t.subrange(0, c)).len() == 0
        }),
    ensures
        line_record(m, line) == m,
{
    lemma_find_char(trim_spaces(line), 0, ':');
}

fn add_line(res: &mut WhoisKV, line: &str)
    requires
        old(res).wf(),
    ensures
        final(res).wf(),
        final(res)@ == line_record(old(res)@, line@),
{
    let t = trim_str(line, Class::Space);
    let n = t.unicode_len();
    let c = find_from(t, n, 0, ':');
    if c < n {
        let key = trim_str(t.substring_char(0, c), Class::Space);
        let value = trim_str(t.substring_char(c + 1, n), Class::Space);
        if key.unicode_len() > 0 && value.unicode_len() > 0 {
            res.insert(key.to_owned(), value.to_owned());
        }
    }
}

/// The records of a WHOIS response: each line is trimmed and split at its
/// first colon into a trimmed key and value; a later line overrides an
/// earlier one with the same key.
pub fn whois_key_value(text: &str) -> (r: WhoisKV)
    ensures
        r.wf(),
        r@ == parse(text@),
{
    let n = text.unicode_len();
    let mut res = KeyValues::new();
    let mut i: usize = 0;
    while i < n
        invariant
            n == text@.len(),
            i <= n,
            res.wf(),
            records_from(text@, i as int, res@) == parse(text@),
        decreases n - i,
    {
        let j = find_from(text, n, i, '\n');
        proof {
            lemma_find_char(text@, i as int, '\n');
        }
        let line = text.substring_char(i, j);
        add_line(&mut res, line);
        if j < n {
            i = j + 1;
        } else {
            assert(records_from(text@, n as int, res@) == res@);
            i = n;
        }
    }
    res
}

/// The domain a response speaks for: the value of "domain", else of
/// "domain name".
pub open spec fn record_domain(m: Map<Seq<char>, Seq<char>>) -> Option<Seq<char>> {
    if m.contains_key("domain"@) {
        Some(m["domain"@])
    } else if m.contains_key("domain name"@) {
        Some(m["domain name"@])
    } else {
        None
    }
}

/// The server a response refers to: the value of "whois".
pub open spec fn record_server(m: Map<Seq<char>, Seq<char>>) -> Option<Seq<char>> {
    if m.contains_key("whois"@) {
        Some(m["whois"@])
    } else {
        None
    }
}

pub open spec fn opt_view(o: Option<String>) -> Option<Seq<char>> {
    match o {
        Some(s) => Some(s@),
        None => None,
    }
}

pub fn get_domain(whois: &WhoisKV) -> (r: Option<String>)
    requires
        whois.wf(),
    ensures
        opt_view(r) == record_domain(whois@),
{
    match whois.get("domain") {
        Some(d) => Some(d),
        None => whois.get("domain name"),
    }
}

pub fn next_whois_server(whois: &WhoisKV) -> (r: Option<String>)
    requires
        whois.wf(),
    ensures
        opt_view(r) == record_server(whois@),
{
    whois.get("whois")
}

} // verus!
