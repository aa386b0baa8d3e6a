//! Decomposition of a domain name into the suffixes that may have an
//! authoritative server, most specific first.
use vstd::prelude::*;
use crate::table::str_views;
use crate::text::{find_char, find_from, lemma_find_char, trim_class, trim_str, Class};

verus! {

/// `d` without leading and trailing dots.
pub open spec fn trim_dots(d: Seq<char>) -> Seq<char> {
    trim_class(d, Class::Dot)
}

/// The suffixes of `t` that follow each dot at or after index `i`, in order.
pub open spec fn suffixes_after(t: Seq<char>, i: int) -> Seq<Seq<char>>
    decreases t.len() - i,
{
    let j = find_char(t, i, '.');
    if 0 <= i <= j < t.len() {
        seq![t.subrange(j + 1, t.len() as int)] + suffixes_after(t, j + 1)
    } else {
        Seq::empty()
    }
}

/// The dot-trimmed domain, each suffix left after dropping its leading labels
/// one at a time, and the empty root suffix last.
pub open spec fn decompose(d: Seq<char>) -> Seq<Seq<char>> {
    let t = trim_dots(d);
    if t.len() == 0 {
        seq![Seq::empty()]
    } else {
        seq![t] + suffixes_after(t, 0) + seq![Seq::empty()]
    }
}

/// A decomposition starts with the dot-trimmed domain and ends with the empty
/// suffix; the empty domain and a lone dot decompose to the empty suffix alone.
pub proof fn lemma_decompose_ends(d: Seq<char>)
    ensures
        decompose(d).len() >= 1,
        decompose(d)[0] == trim_dots(d),
        decompose(d).last() == Seq::<char>::empty(),
        decompose(Seq::<char>::empty()) == seq![Seq::<char>::empty()],
        decompose(seq!['.']) == seq![Seq::<char>::empty()],
{
    let dot = seq!['.'];
    assert(crate::text::in_class(Class::Dot, dot[0]));
    assert(crate::text::skip_fwd(dot, 1, Class::Dot) == 1);
    assert(crate::text::skip_fwd(dot, 0, Class::Dot) == 1);
    assert(crate::text::skip_back(dot, 1, 1, Class::Dot) == 1);
    assert(trim_dots(dot) =~= Seq::<char>::empty());
    assert(trim_dots(Seq::<char>::empty()) =~= Seq::<char>::empty());
}

/// The suffixes of `domain` from the most specific to the root, as `decompose`
/// describes them.
pub fn split_domain(domain: &str) -> (r: Vec<String>)
    ensures
        str_views(r@) == decompose(domain@),
{
    let t = trim_str(domain, Class::Dot);
    let n = t.unicode_len();
    let mut res: Vec<String> = Vec::new();
    res.push(t.to_owned());
    if n == 0 {
        assert(t@ =~= Seq::<char>::empty());
        assert(str_views(res@) =~= decompose(domain@));
        return res;
    }
    let mut i: usize = 0;
    assert(str_views(res@) =~= seq![t@]);
    while i < n
        invariant
            n == t@.len(),
            i <= n,
            str_views(res@) + suffixes_after(t@, i as int) == seq![t@] + suffixes_after(t@, 0),
        decreases n - i,
    {
        let j = find_from(t, n, i, '.');
        proof {
            lemma_find_char(t@, i as int, '.');
        }
        if j < n {
            let ghost before = str_views(res@);
            let s = t.substring_char(j + 1, n).to_owned();
            res.push(s);
            assert(str_views(res@) =~= before.push(s@));
            assert(suffixes_after(t@, i as int) == seq![s@] + suffixes_after(t@, j + 1));
            assert(str_views(res@) + suffixes_after(t@, j + 1) =~= before + suffixes_after(
                t@,
                i as int,
            ));
            i = j + 1;
        } else {
            assert(suffixes_after(t@, i as int) =~= Seq::empty());
            assert(suffixes_after(t@, n as int) =~= Seq::empty());
            i = n;
        }
    }
    assert(suffixes_after(t@, n as int) =~= Seq::empty());
    let ghost before = str_views(res@);
    let e = String::new();
    res.push(e);
    assert(str_views(res@) =~= before.push(e@));
    assert(before =~= seq![t@] + suffixes_after(t@, 0));
    assert(str_views(res@) =~= decompose(domain@));
    res
}

} // verus!
