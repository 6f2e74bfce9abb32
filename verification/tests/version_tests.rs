use mod_planner::manifest::Category;
use mod_planner::mod_view::{filter_entry, ModEntry, ModView};
use mod_planner::requirement::{Comparator, VersionOp, VersionReq};
use mod_planner::version::{Version, VersionError};

fn v(s: &str) -> Version {
    Version::parse(s).unwrap()
}

fn comp(s: &str) -> Comparator {
    Comparator::parse(s).unwrap()
}

#[test]
fn parse_format_roundtrip_each_specificity() {
    for s in ["0", "1", "1.2", "1.2.3", "1.2.3.4", "65535.0.0.0", "1.2.3.4-beta", "2.0rc1"] {
        let first = v(s);
        let text = first.to_version_string();
        assert_eq!(text, s);
        let second = v(&text);
        assert!(first == second);
    }
}

#[test]
fn versions_of_different_specificity_are_equal() {
    assert!(v("1") == v("1.0.0.0"));
    assert!(v("1") == v("1.0"));
    assert_ne!(v("1").to_version_string(), v("1.0.0.0").to_version_string());
    assert!(v("1.2") == v("1.2.0"));
    assert!(!(v("1") == v("1.0.0.1")));
    assert!(!(v("1") == v("1a")));
}

#[test]
fn parse_reads_fields_and_suffix() {
    let w = v("1.2.3.4rc1");
    assert_eq!(w.major, 1);
    assert_eq!(w.minor, Some(2));
    assert_eq!(w.patch, Some(3));
    assert_eq!(w.revision, Some(4));
    assert_eq!(w.suffix.as_deref(), Some("rc1"));

    let bare = v("7");
    assert_eq!(bare.major, 7);
    assert_eq!(bare.minor, None);
    assert_eq!(bare.suffix, None);

    // A starred piece is not a number; the field stays missing.
    let starred = v("1.*");
    assert_eq!(starred.major, 1);
    assert_eq!(starred.minor, None);
}

#[test]
fn parse_rejects_bad_major() {
    assert!(matches!(Version::parse(""), Err(VersionError::ParseIntError(p)) if p == ""));
    assert!(matches!(Version::parse("abc"), Err(VersionError::ParseIntError(p)) if p == ""));
    assert!(matches!(Version::parse("65536"), Err(VersionError::ParseIntError(p)) if p == "65536"));
    assert!(matches!(Version::parse("*"), Err(VersionError::ParseIntError(p)) if p == "*"));
    assert!(Version::parse("65535").is_ok());
}

#[test]
fn version_ordering() {
    assert!(v("1.2") < v("1.10"));
    assert!(v("1.2.3") < v("1.2.4"));
    assert!(v("2") > v("1.9.9.9"));
    assert!(v("1") < v("1a"));
    assert!(v("1.0.0.0a") < v("1.0.0.0b"));
    assert!(v("1.0") <= v("1"));
    assert!(v("1.0") >= v("1"));
}

#[test]
fn wildcard_any_matches_everything() {
    let c = comp("*");
    assert!(matches!(c.op, VersionOp::WildcardAny));
    for s in ["0", "0.0.0.0", "1.2.3.4", "65535.65535.65535.65535", "3.1rc2"] {
        assert!(c.matches(&v(s)));
    }
}

#[test]
fn bare_major_matches_only_that_major() {
    let c = comp("3");
    assert!(matches!(c.op, VersionOp::Exact));
    assert!(c.matches(&v("3")));
    assert!(c.matches(&v("3.9.2")));
    assert!(c.matches(&v("3.0.0.1")));
    assert!(c.matches(&v("3.5beta")));
    assert!(!c.matches(&v("4")));
    assert!(!c.matches(&v("2.9")));
}

#[test]
fn caret_allows_right_of_first_nonzero() {
    let c = comp("^1.2.3");
    assert!(c.matches(&v("1.9.0")));
    assert!(c.matches(&v("1.2.3")));
    assert!(!c.matches(&v("2.0.0")));
    assert!(!c.matches(&v("1.2.2")));

    let z = comp("^0.1.2");
    assert!(z.matches(&v("0.1.9")));
    assert!(!z.matches(&v("0.2.0")));

    let p = comp("^0.0.3");
    assert!(p.matches(&v("0.0.3.9")));
    assert!(!p.matches(&v("0.0.4")));
}

#[test]
fn tilde_allows_patch_but_not_minor() {
    let c = comp("~1.2.3");
    assert!(c.matches(&v("1.2.9")));
    assert!(c.matches(&v("1.2.3")));
    assert!(!c.matches(&v("1.3.0")));
    assert!(!c.matches(&v("1.2.2")));

    // With only major and minor given, tilde behaves like an exact range.
    let m = comp("~1.2");
    assert!(m.matches(&v("1.2.9")));
    assert!(!m.matches(&v("1.3.0")));
}

#[test]
fn range_operators() {
    assert!(comp(">1.2").matches(&v("1.3.0")));
    assert!(!comp(">1.2").matches(&v("1.2.9")));
    assert!(comp(">1.2.3.4").matches(&v("1.2.3.5")));
    assert!(!comp(">1.2.3.4").matches(&v("1.2.3.4")));

    assert!(comp(">=1.2").matches(&v("1.2")));
    assert!(!comp(">=1.2").matches(&v("1.1.9")));

    assert!(comp("<1.2").matches(&v("1.1.9")));
    assert!(!comp("<1.2").matches(&v("1.2")));

    assert!(comp("<=1.2").matches(&v("1.2.9")));
    assert!(!comp("<=1.2").matches(&v("1.3.0")));
    assert!(comp("<=1.2.3.4").matches(&v("1.2.3.4")));
    assert!(comp("<=1.2.3.4").matches(&v("1.2.3.3")));
    assert!(!comp("<=1.2.3.4").matches(&v("1.2.3.5")));

    assert!(comp("=1.2").matches(&v("1.2.5")));
    assert!(!comp("=1.2").matches(&v("1.3.0")));
}

#[test]
fn starred_numerals_are_wildcards() {
    let c = comp("1.2.*");
    assert!(matches!(c.op, VersionOp::Wildcard));
    assert!(c.matches(&v("1.2.0")));
    assert!(c.matches(&v("1.2.5")));
    assert!(!c.matches(&v("1.3.0")));

    let m = comp("1.*");
    assert!(m.matches(&v("1.9.9")));
    assert!(!m.matches(&v("2")));
}

#[test]
fn requirement_is_a_conjunction() {
    let req = VersionReq::parse(">=1.2, <2").unwrap();
    assert_eq!(req.comparators.len(), 2);
    assert!(req.matches(&v("1.5")));
    assert!(req.matches(&v("1.2")));
    assert!(!req.matches(&v("2.1")));
    assert!(!req.matches(&v("1.1")));

    let spaced = VersionReq::parse(" 1 , 2 ").unwrap();
    assert_eq!(spaced.comparators.len(), 2);

    assert!(matches!(VersionReq::parse("1,x"), Err(VersionError::ParseIntError(_))));
}

#[test]
fn requirement_equality_is_by_comparators() {
    assert!(VersionReq::parse("1").unwrap() == VersionReq::parse("1").unwrap());
    assert!(VersionReq::parse("1.0").unwrap() == VersionReq::parse("1").unwrap());
    assert!(!(VersionReq::parse("1").unwrap() == VersionReq::parse("2").unwrap()));
    assert!(!(VersionReq::parse("1").unwrap() == VersionReq::parse(">=1").unwrap()));
}

#[test]
fn requirement_text_round_trips() {
    for s in ["=1.2.3", ">1.2", ">=1.2", "<1.2", "<=1.2", "~1.2.3", "^0.1.2", "1.2.*", "*"] {
        let c = comp(s);
        assert_eq!(c.to_comparator_string(), s);
    }
    // A comparator without an operator renders with the explicit one.
    assert_eq!(comp("1.2").to_comparator_string(), "=1.2");

    let req = VersionReq::parse(">=1.2, <2").unwrap();
    assert_eq!(req.to_requirement_string(), ">=1.2, <2");
    let reparsed = VersionReq::parse(&req.to_requirement_string()).unwrap();
    assert!(req == reparsed);
}

#[test]
fn comparator_anchor_with_suffix() {
    // The anchor's suffix participates in anchored comparisons.
    assert!(comp(">=1.2.3.4b").matches(&v("1.2.3.4c")));
    assert!(!comp(">=1.2.3.4b").matches(&v("1.2.3.4a")));
    assert!(comp("<1.2.3.4b").matches(&v("1.2.3.4a")));
}

#[test]
fn mod_view_variants() {
    let uninit = ModView::default();
    assert!(!uninit.is_category());
    assert!(!uninit.is_all());
    assert_eq!(uninit.variant(), "Alphabetic");

    let by_category = ModView::Category(Vec::new());
    assert!(by_category.is_category());
    assert!(!by_category.is_all());
    assert_eq!(by_category.variant(), "Category");

    let all = ModView::All(Vec::new());
    assert!(all.is_all());
    assert_eq!(all.variant(), "Alphabetic");
}

#[test]
fn filter_matches_case_insensitively() {
    let entry = ModEntry {
        category: Category::Misc,
        name: "CoolMod".to_string(),
        id: Some("org.example.coolmod".to_string()),
        version: Some(Version::from_major(1)),
        latest_version: None,
        description: Some("Makes Things Nicer".to_string()),
        enabled: true,
    };
    assert!(filter_entry("cool", &entry));
    assert!(filter_entry("COOL", &entry));
    assert!(filter_entry("Example", &entry));
    assert!(filter_entry("nicer", &entry));
    assert!(filter_entry("", &entry));
    assert!(!filter_entry("unrelated", &entry));
}

#[test]
fn validation_probe_paths_shape() {
    let probes = mod_planner::paths::validation_probe_paths("/game/Neos.exe");
    assert_eq!(
        probes,
        vec!["/game/Neos.exe", "/game/Libraries", "/game/Neos_Data/Managed/FrooxEngine.dll"]
    );
    let rootless = mod_planner::paths::validation_probe_paths("Neos.exe");
    assert_eq!(rootless[1], "Libraries");
}
