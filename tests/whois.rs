use whois_client::{
    contains_str, decide, get_domain, next_whois_server, split_domain, whois_key_value, Client,
    Decision, Error, NextWhois, Step, WhoisKV, ROOT_WHOIS_SERVER,
};

fn record(pairs: &[(&str, &str)]) -> WhoisKV {
    let mut kv = WhoisKV::new();
    for (k, v) in pairs {
        kv.insert(k.to_string(), v.to_string());
    }
    kv
}

#[test]
fn decide_test() {
    let domain = "test.ru";
    let whois = record(&[("whois", "whois.root"), ("domain", "ru")]);

    assert_eq!(
        decide(domain, &whois, &vec![]).unwrap(),
        Decision::NextWhois(NextWhois {
            domain: "ru".to_string(),
            whois_server: "whois.root".to_string()
        })
    );
    assert!(decide(domain, &whois, &vec!["whois.root".to_owned()]).is_err());
    assert_eq!(decide("ru", &whois, &vec![]).unwrap(), Decision::Final)
}

#[test]
fn get_whois_server_test() {
    let c = Client::new();
    assert_eq!(c.get_whois_server("").unwrap(), ROOT_WHOIS_SERVER.to_owned());
    assert_eq!(c.get_whois_server("ru").unwrap(), ROOT_WHOIS_SERVER.to_owned());
    assert_eq!(c.get_whois_server("test.ru").unwrap(), ROOT_WHOIS_SERVER.to_owned());

    let mut c = Client::new();
    c.add_good_server("ru", "whois.ru");
    c.add_good_server("edu.ru", "whois-test.edu.ru");
    c.add_good_server("com", "whois-test.com");
    c.add_bad_server("bad");
    assert_eq!(c.get_whois_server("").unwrap(), ROOT_WHOIS_SERVER.to_owned());
    assert_eq!(c.get_whois_server("ru").unwrap(), "whois.ru".to_owned());
    assert_eq!(c.get_whois_server("test.ru").unwrap(), "whois.ru".to_owned());
    assert!(c.get_whois_server("test.bad").is_err());
}

#[test]
fn split_domain_test() {
    assert_eq!(split_domain(""), vec![""]);
    assert_eq!(split_domain("."), vec![""]);
    assert_eq!(split_domain("ru"), vec!["ru", ""]);
    assert_eq!(split_domain("test.ru"), vec!["test.ru", "ru", ""]);
    assert_eq!(split_domain(".test.ru."), vec!["test.ru", "ru", ""]);
    assert_eq!(split_domain("www.test.ru."), vec!["www.test.ru", "test.ru", "ru", ""]);
}

#[test]
fn whois_key_value_test() {
    let text = "Domain Name: asd.com
testVal : aAa,
";
    let parsed = whois_key_value(text);
    assert_eq!(parsed.get("Domain Name"), Some("asd.com".to_string()));
    assert_eq!(parsed.get("testVal"), Some("aAa,".to_string()));
    assert_eq!(parsed.get("asd"), None);
}

#[test]
fn split_domain_keeps_empty_labels() {
    assert_eq!(split_domain("..a..b.."), vec!["a..b", ".b", "b", ""]);
    assert_eq!(split_domain("..."), vec![""]);
}

#[test]
fn split_domain_first_and_last() {
    for d in ["", ".", "a", "www.example.co.uk", ".x.y."] {
        let parts = split_domain(d);
        assert_eq!(parts[0], d.trim_matches('.'));
        assert_eq!(parts[parts.len() - 1], "");
    }
}

#[test]
fn parse_twice_gives_equal_records() {
    let text = "domain: a.ru\r\nwhois: w.ru\nnothing here\n: no key\nvalue:\n";
    let a = whois_key_value(text);
    let b = whois_key_value(text);
    assert_eq!(a.entries(), b.entries());
    assert_eq!(a.entries().len(), 2);
}

#[test]
fn parse_skips_lines_without_key_or_colon() {
    let parsed = whois_key_value("no colon\n   : value\nkey:   \n\n");
    assert!(parsed.entries().is_empty());
    assert_eq!(parsed.get(""), None);
}

#[test]
fn parse_later_line_wins_and_splits_at_first_colon() {
    let parsed = whois_key_value("  a : 1 \nurl: http://x:80\na: 2");
    assert_eq!(parsed.get("a"), Some("2".to_string()));
    assert_eq!(parsed.get("url"), Some("http://x:80".to_string()));
    assert_eq!(parsed.entries().len(), 2);
}

#[test]
fn parse_trims_unicode_whitespace() {
    let parsed = whois_key_value("\u{3000}key\u{a0}:\tvalue\u{2003}");
    assert_eq!(parsed.get("key"), Some("value".to_string()));
}

#[test]
fn record_fields() {
    let r = record(&[("domain name", "x.ru"), ("whois", "w")]);
    assert_eq!(get_domain(&r), Some("x.ru".to_string()));
    assert_eq!(next_whois_server(&r), Some("w".to_string()));
    let r = record(&[("domain", "a"), ("domain name", "b")]);
    assert_eq!(get_domain(&r), Some("a".to_string()));
    assert_eq!(next_whois_server(&r), None);
}

#[test]
fn decide_without_referral_fails() {
    let whois = record(&[("domain", "ru")]);
    assert!(matches!(decide("test.ru", &whois, &vec![]), Err(Error::BadWhoisForDomain)));
}

#[test]
fn decide_loop_names_server() {
    let whois = record(&[("whois", "whois.root"), ("domain", "ru")]);
    match decide("test.ru", &whois, &vec!["a".to_string(), "whois.root".to_string()]) {
        Err(Error::WhoisServerLoop(s)) => assert_eq!(s, "whois.root"),
        other => panic!("unexpected {:?}", other),
    }
}

#[test]
fn decide_redirect_keeps_query_without_domain_field() {
    let whois = record(&[("whois", "whois.ru")]);
    assert_eq!(
        decide("test.ru", &whois, &vec!["whois.iana.org".to_string()]).unwrap(),
        Decision::NextWhois(NextWhois {
            domain: "test.ru".to_string(),
            whois_server: "whois.ru".to_string()
        })
    );
}

#[test]
fn contains_str_finds_members() {
    let v = vec!["a".to_string(), "bc".to_string()];
    assert!(contains_str(&v, "bc"));
    assert!(!contains_str(&v, "b"));
    assert!(!contains_str(&vec![], ""));
}

#[test]
fn fresh_client_starts_at_root() {
    let c = Client::new();
    for d in ["ru", "a.b.c", "", "..."] {
        assert_eq!(c.get_whois_server(d).unwrap(), ROOT_WHOIS_SERVER);
    }
    let c = Client::with_root("whois.test");
    assert_eq!(c.get_whois_server("x.org").unwrap(), "whois.test");
}

#[test]
fn cache_good_server_before_bad() {
    let mut c = Client::new();
    c.add_good_server("ru", "whois.ru");
    c.add_bad_server("test.ru");
    assert!(matches!(c.get_whois_server("a.test.ru"), Err(Error::CantFindWhoisServer)));
    c.add_good_server("ru", "whois2.ru");
    assert_eq!(c.get_whois_server("x.ru").unwrap(), "whois2.ru");
}

#[test]
fn resolution_follows_referral_and_caches_it() {
    let mut c = Client::new();
    let q = c.start_resolution("Test.RU").unwrap();
    assert_eq!(q.domain(), "test.ru");
    assert_eq!(q.server(), ROOT_WHOIS_SERVER);
    let q = match c.advance(q, "refer: ru\nWHOIS: whois.ru\n").unwrap() {
        Step::Ask(q) => q,
        Step::Done(_) => panic!("root answer is a referral"),
    };
    assert_eq!(q.server(), "whois.ru");
    assert_eq!(q.domain(), "test.ru");
    let answer = "Domain: TEST.RU\nstate: REGISTERED\n";
    match c.advance(q, answer).unwrap() {
        Step::Done(text) => assert_eq!(text, answer),
        Step::Ask(_) => panic!("second answer is final"),
    }
    assert_eq!(c.get_whois_server("test.ru").unwrap(), "whois.ru");
    let again = c.start_resolution("test.ru").unwrap();
    assert_eq!(again.server(), "whois.ru");
}

#[test]
fn resolution_detects_loop() {
    let mut c = Client::new();
    let q = c.start_resolution("a.com").unwrap();
    let q = match c.advance(q, "whois: whois.x\n").unwrap() {
        Step::Ask(q) => q,
        Step::Done(_) => panic!("expected a referral"),
    };
    assert!(matches!(c.advance(q, "whois: whois.iana.org\n"), Err(Error::WhoisServerLoop(_))));
}

#[test]
fn resolution_without_authority_fails() {
    let mut c = Client::new();
    let q = c.start_resolution("a.com").unwrap();
    assert!(matches!(c.advance(q, "nothing useful\n"), Err(Error::BadWhoisForDomain)));
}

#[test]
fn resolution_rejects_invalid_domain() {
    let c = Client::new();
    assert!(matches!(c.start_resolution("xn--a.com"), Err(Error::ConvertToPunycode(_))));
}

#[test]
fn resolution_converts_unicode_domain() {
    let c = Client::new();
    let q = c.start_resolution("пример.рф").unwrap();
    assert_eq!(q.domain(), "xn--e1afmkfd.xn--p1ai");
}

#[test]
fn resolution_with_rejected_suffix_fails() {
    let mut c = Client::new();
    c.add_bad_server("bad");
    assert!(matches!(c.start_resolution("x.bad"), Err(Error::CantFindWhoisServer)));
}
