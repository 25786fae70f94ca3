use complicense::coords::{get_coordinates, get_raw_coordinates, CoordinateError};
use complicense::decode::{decode_blob, decode_text, strip_whitespace, DecodeError};
use complicense::expr::{evaluate, Policy, Rejection};
use complicense::license::{
    get_license_table, Configuration, Copyright, CustomLicense, LicenseData, MIT_TEXT,
};
use complicense::pipeline::{
    plan, remote_license, resolved_record, Failure, LookupError, Planned, Source,
};
use complicense::record::Entry;

fn strings(v: &[&str]) -> Vec<String> {
    v.iter().map(|s| s.to_string()).collect()
}

fn entry(name: &str, license: Option<&str>, repository: Option<&str>) -> Entry {
    Entry {
        name: name.to_string(),
        version: None,
        authors: None,
        license: license.map(|s| s.to_string()),
        repository: repository.map(|s| s.to_string()),
        description: None,
    }
}

fn custom(name: &str, content: &str) -> LicenseData {
    LicenseData::Custom(CustomLicense { name: name.to_string(), content: content.to_string() })
}

fn config(ignore: &[&str], allowed: &[&str], crates: Vec<(String, LicenseData)>) -> Configuration {
    Configuration {
        ignore: strings(ignore),
        allowed_licenses: strings(allowed),
        crates,
        policy: Policy::Strict,
    }
}

fn summary(p: &[Planned]) -> Vec<(usize, String)> {
    p.iter()
        .map(|x| match &x.source {
            Source::Override { license_name, license_text } => {
                (x.index, format!("override {} {}", license_name, license_text))
            }
            Source::Remote(c) => (x.index, format!("remote {}/{}", c.user, c.project)),
        })
        .collect()
}

#[test]
fn and_is_rejected_for_any_allow_list() {
    for allowed in [vec![], strings(&["MIT"]), strings(&["MIT", "Apache-2.0"])] {
        let r = evaluate(Policy::Strict, "MIT AND Apache-2.0", &allowed);
        assert!(matches!(r, Err(Rejection::ConjunctionNotAllowed)));
    }
}

#[test]
fn or_offers_either_branch() {
    assert!(evaluate(Policy::Strict, "GPL-3.0 OR MIT", &strings(&["MIT"])).is_ok());
    assert!(evaluate(Policy::Strict, "MIT OR Apache-2.0", &strings(&["Apache-2.0"])).is_ok());
}

#[test]
fn no_allowed_license_found() {
    let r = evaluate(Policy::Strict, "BSD-3-Clause", &strings(&["MIT", "Apache-2.0"]));
    match r {
        Err(Rejection::NoAllowedLicenseFound(e)) => assert_eq!(e, "BSD-3-Clause"),
        _ => panic!("expected NoAllowedLicenseFound"),
    }
}

#[test]
fn empty_allow_list_rejects_everything() {
    let r = evaluate(Policy::Strict, "MIT", &vec![]);
    assert!(matches!(r, Err(Rejection::NoAllowedLicenseFound(_))));
}

#[test]
fn license_ref_is_unrecognized() {
    let r = evaluate(Policy::Strict, "LicenseRef-acme OR MIT", &strings(&["MIT"]));
    assert!(matches!(r, Err(Rejection::UnrecognizedLicenseType)));
}

#[test]
fn malformed_expression_is_a_parse_error() {
    let r = evaluate(Policy::Strict, "MIT OR", &strings(&["MIT"]));
    match r {
        Err(Rejection::ExpressionParseError(m)) => assert!(!m.is_empty()),
        _ => panic!("expected a parse error"),
    }
}

#[test]
fn verbatim_policy_compares_whole_text() {
    let allowed = strings(&["MIT OR Apache-2.0"]);
    assert!(evaluate(Policy::Verbatim, "MIT OR Apache-2.0", &allowed).is_ok());
    let r = evaluate(Policy::Verbatim, "MIT", &allowed);
    assert!(matches!(r, Err(Rejection::NoAllowedLicenseFound(ref e)) if e == "MIT"));
    // The verbatim policy does not parse: an AND is no reason to reject.
    let allowed = strings(&["MIT AND Apache-2.0"]);
    assert!(evaluate(Policy::Verbatim, "MIT AND Apache-2.0", &allowed).is_ok());
}

#[test]
fn coordinates_of_hosted_repository() {
    let c = get_coordinates(&entry("w", None, Some("https://github.com/acme/widget"))).ok().unwrap();
    assert_eq!(c.user, "acme");
    assert_eq!(c.project, "widget");
    assert_eq!(c.license_url(), "https://api.github.com/repos/acme/widget/license");
}

#[test]
fn coordinates_errors() {
    let r = get_coordinates(&entry("w", None, Some("https://gitlab.com/acme/widget")));
    assert!(matches!(r, Err(CoordinateError::NotAHostedRepository)));
    let r = get_coordinates(&entry("w", None, None));
    assert!(matches!(r, Err(CoordinateError::MissingRepository)));
    let r = get_coordinates(&entry("w", None, Some("https://github.com/acme")));
    assert!(matches!(r, Err(CoordinateError::InsufficientPathSegments)));
}

#[test]
fn raw_coordinates_take_first_two_segments() {
    let c = get_raw_coordinates("acme/widget/tree/main").ok().unwrap();
    assert_eq!((c.user.as_str(), c.project.as_str()), ("acme", "widget"));
    let c = get_raw_coordinates("acme/").ok().unwrap();
    assert_eq!((c.user.as_str(), c.project.as_str()), ("acme", ""));
    assert!(matches!(get_raw_coordinates(""), Err(CoordinateError::InsufficientPathSegments)));
}

#[test]
fn stock_template_rendering() {
    let data = LicenseData::Mit(vec![
        Copyright { year: 2020, holder: "Acme".to_string() },
        Copyright { year: 2021, holder: "Acme".to_string() },
    ]);
    let text = data.content().ok().unwrap();
    let head = "copyright 2020 Acme\ncopyright 2021 Acme\n\n";
    assert!(text.starts_with(head));
    assert_eq!(&text[head.len()..], MIT_TEXT);
    assert_eq!(data.name(), "MIT");
}

#[test]
fn stock_template_years() {
    let data = LicenseData::Mit(vec![
        Copyright { year: 0, holder: "A".to_string() },
        Copyright { year: 7, holder: "B C".to_string() },
        Copyright { year: 65535, holder: "D".to_string() },
    ]);
    let text = data.content().ok().unwrap();
    assert!(text.starts_with("copyright 0 A\ncopyright 7 B C\ncopyright 65535 D\n\n"));
    let empty = LicenseData::Mit(vec![]).content().ok().unwrap();
    assert_eq!(empty, format!("\n{}", MIT_TEXT));
}

#[test]
fn custom_license_decodes() {
    let data = custom("Acme-1.0", "SGVsbG8sIHdvcmxkIQ==");
    assert_eq!(data.name(), "Acme-1.0");
    assert_eq!(data.content().ok().unwrap(), "Hello, world!");
}

#[test]
fn custom_license_decode_errors() {
    assert!(matches!(custom("X", "not base64!").content(), Err(DecodeError::MalformedEncoding)));
    // 0xff 0xfe is not UTF-8.
    assert!(matches!(custom("X", "//4=").content(), Err(DecodeError::InvalidUtf8)));
    assert!(matches!(decode_text("SGk="), Ok(ref t) if t == "Hi"));
}

#[test]
fn whitespace_tolerant_decode() {
    let wrapped = "SGVsbG8s\nIHdvcmxk\nIQ==\n";
    let flat = "SGVsbG8sIHdvcmxkIQ==";
    assert_eq!(strip_whitespace(wrapped), flat);
    let a = decode_blob(wrapped).ok().unwrap();
    let b = decode_blob(flat).ok().unwrap();
    assert_eq!(a, b);
    assert_eq!(a, "Hello, world!");
    assert!(matches!(decode_blob("SGk=\n!!"), Err(DecodeError::MalformedEncoding)));
    assert_eq!(strip_whitespace(" a\tb\r\nc\u{a0}d "), "abcd");
}

#[test]
fn remote_license_decodes_blob() {
    let (n, t) = remote_license("MIT License".to_string(), "SGVs\nbG8=").ok().unwrap();
    assert_eq!(n, "MIT License");
    assert_eq!(t, "Hello");
    let r = remote_license("MIT License".to_string(), "@@@");
    assert!(matches!(r, Err(LookupError::Decode(DecodeError::MalformedEncoding))));
}

#[test]
fn record_placeholders() {
    let mut e = entry("w", None, None);
    let r = resolved_record(&e, "MIT".to_string(), "text".to_string());
    assert_eq!(r.name, "w");
    assert_eq!(r.repository, "none specified");
    assert_eq!(r.authors, "not specified");
    assert_eq!(r.description, "none specified");
    assert_eq!((r.license_name.as_str(), r.license_text.as_str()), ("MIT", "text"));
    e.authors = Some("Jo".to_string());
    e.repository = Some("https://github.com/a/b".to_string());
    e.description = Some("d".to_string());
    let r = resolved_record(&e, "MIT".to_string(), "text".to_string());
    assert_eq!((r.repository.as_str(), r.authors.as_str()), ("https://github.com/a/b", "Jo"));
    assert_eq!(r.description, "d");
}

#[test]
fn pipeline_dedups_first_occurrence() {
    let c = config(&[], &["MIT"], vec![]);
    let es = vec![
        entry("a", Some("MIT"), Some("https://github.com/x/a")),
        entry("b", Some("MIT"), Some("https://github.com/x/b")),
        entry("a", Some("BSD-3-Clause"), Some("https://github.com/y/a2")),
    ];
    let (p, e) = plan(&c, &es);
    assert!(e.is_none());
    assert_eq!(
        summary(&p),
        vec![(0, "remote x/a".to_string()), (1, "remote x/b".to_string())]
    );
}

#[test]
fn pipeline_ignores_before_anything_else() {
    // "bad" would be rejected, and its override would not decode: ignored, neither is consulted.
    let c = config(&["bad"], &["MIT"], vec![("bad".to_string(), custom("X", "!!"))]);
    let es = vec![
        entry("bad", Some("GPL-3.0 AND MIT"), None),
        entry("ok", Some("MIT"), Some("https://github.com/x/ok")),
        entry("bad", None, None),
    ];
    let (p, e) = plan(&c, &es);
    assert!(e.is_none());
    assert_eq!(summary(&p), vec![(1, "remote x/ok".to_string())]);
}

#[test]
fn pipeline_override_precedence() {
    let c = config(&[], &["MIT"], vec![("o".to_string(), custom("Own-1.0", "SGk="))]);
    let es = vec![entry("o", Some("MIT AND Apache-2.0"), None)];
    let (p, e) = plan(&c, &es);
    assert!(e.is_none());
    assert_eq!(summary(&p), vec![(0, "override Own-1.0 Hi".to_string())]);
}

#[test]
fn pipeline_aborts_on_rejection() {
    let c = config(&[], &["MIT"], vec![]);
    let es = vec![
        entry("a", Some("MIT"), Some("https://github.com/x/a")),
        entry("b", Some("Apache-2.0"), Some("https://github.com/x/b")),
        entry("c", Some("MIT"), Some("https://github.com/x/c")),
    ];
    let (p, e) = plan(&c, &es);
    assert_eq!(summary(&p), vec![(0, "remote x/a".to_string())]);
    let e = e.unwrap();
    assert_eq!((e.index, e.name.as_str()), (1, "b"));
    assert!(matches!(e.cause, Failure::Rejected(Rejection::NoAllowedLicenseFound(_))));
}

#[test]
fn pipeline_missing_license_is_unknown() {
    let c = config(&[], &["MIT"], vec![]);
    let (p, e) = plan(&c, &vec![entry("a", None, Some("https://github.com/x/a"))]);
    assert!(p.is_empty());
    let e = e.unwrap();
    assert!(matches!(e.cause, Failure::Rejected(Rejection::ExpressionParseError(_))));
}

#[test]
fn pipeline_lookup_and_override_errors() {
    let c = config(&[], &["MIT"], vec![("m".to_string(), custom("X", "!!"))]);
    let (_, e) = plan(&c, &vec![entry("a", Some("MIT"), Some("https://gitlab.com/x/a"))]);
    assert!(matches!(
        e.unwrap().cause,
        Failure::Lookup(LookupError::Coordinates(CoordinateError::NotAHostedRepository))
    ));
    let (_, e) = plan(&c, &vec![entry("m", Some("MIT"), None)]);
    assert!(matches!(e.unwrap().cause, Failure::MalformedOverride(DecodeError::MalformedEncoding)));
}

#[test]
fn pipeline_is_repeatable() {
    let c = config(&["i"], &["MIT"], vec![("o".to_string(), custom("Own", "SGk="))]);
    let es = vec![
        entry("o", None, None),
        entry("i", None, None),
        entry("a", Some("MIT OR Apache-2.0"), Some("https://github.com/x/a")),
        entry("o", None, None),
    ];
    let first = plan(&c, &es);
    let second = plan(&c, &es);
    assert_eq!(summary(&first.0), summary(&second.0));
    assert_eq!(summary(&first.0).len(), 2);
    assert!(first.1.is_none() && second.1.is_none());
}

#[test]
fn configuration_lookups() {
    let c = config(
        &["skip"],
        &["MIT"],
        vec![("a".to_string(), custom("First", "")), ("a".to_string(), custom("Second", ""))],
    );
    assert!(c.ignore("skip"));
    assert!(!c.ignore("a"));
    assert_eq!(c.get_license_data("a").unwrap().name(), "First");
    assert!(c.get_license_data("b").is_none());
    assert!(c.verify_allowed("MIT").is_ok());
    let t = get_license_table(vec![("z".to_string(), LicenseData::Mit(vec![]))]);
    assert_eq!(t.get("z").unwrap().name(), "MIT");
    assert!(t.get("y").is_none());
}
