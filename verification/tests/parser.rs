use trek::handler::{Debian, RepositoryHandler};
use trek::package::DebianArchitecture;
use trek::parse::parse_packages;

#[test]
fn two_records_end_to_end() {
    let text = "Package: curl\nVersion: 8.1.0\nArchitecture: amd64\nDescription: transfer tool\nPackage: bash\nVersion: 5.2\nArchitecture: amd64\n";
    let records = parse_packages(text);
    assert_eq!(records.len(), 2);
    assert_eq!(records[0].package, "curl");
    assert_eq!(records[0].version, "8.1.0");
    assert!(matches!(records[0].architecture, DebianArchitecture::Amd64));
    assert_eq!(records[0].description.as_deref(), Some("transfer tool"));
    assert_eq!(records[1].package, "bash");
    assert_eq!(records[1].version, "5.2");
    assert!(matches!(records[1].architecture, DebianArchitecture::Amd64));
    assert!(records[1].description.is_none());
}

#[test]
fn one_record_per_marker_line() {
    let text = "Package: a\nPackage: b\nJunk line\nPackage: c\nVersion: 1\n";
    let records = parse_packages(text);
    assert_eq!(records.len(), 3);
    assert_eq!(records[0].package, "a");
    assert_eq!(records[1].package, "b");
    assert_eq!(records[2].package, "c");
    assert_eq!(records[2].version, "1");
}

#[test]
fn zero_markers_zero_records() {
    let records = parse_packages("Version: 1.0\nDescription: stray\nnothing here\n");
    assert!(records.is_empty());
    assert!(parse_packages("").is_empty());
}

#[test]
fn unknown_architecture_falls_back_and_suppresses_nothing() {
    let text = "Package: weird\nArchitecture: quantum\nPackage: next\nArchitecture: arm64\n";
    let records = parse_packages(text);
    assert_eq!(records.len(), 2);
    assert!(matches!(records[0].architecture, DebianArchitecture::All));
    assert_eq!(records[0].package, "weird");
    assert!(matches!(records[1].architecture, DebianArchitecture::Arm64));
}

#[test]
fn fields_before_first_marker_are_ignored() {
    let text = "Version: 9.9\nArchitecture: amd64\nDescription: orphan\nPackage: real\n";
    let records = parse_packages(text);
    assert_eq!(records.len(), 1);
    assert_eq!(records[0].package, "real");
    assert_eq!(records[0].version, "");
    assert!(matches!(records[0].architecture, DebianArchitecture::All));
    assert!(records[0].description.is_none());
}

#[test]
fn values_are_trimmed_and_tag_needs_no_space() {
    let records = parse_packages("Package:curl\t \nVersion:  1.2 \r\n");
    assert_eq!(records.len(), 1);
    assert_eq!(records[0].package, "curl");
    assert_eq!(records[0].version, "1.2");
}

#[test]
fn incomplete_record_is_still_emitted() {
    let records = parse_packages("Package: lonely");
    assert_eq!(records.len(), 1);
    assert_eq!(records[0].package, "lonely");
    assert_eq!(records[0].version, "");
    assert!(records[0].description.is_none());
}

#[test]
fn unknown_field_lines_are_ignored() {
    let text = "Package: x\nMaintainer: someone\nVersion: 2\n";
    let records = parse_packages(text);
    assert_eq!(records.len(), 1);
    assert_eq!(records[0].version, "2");
}

#[test]
fn handler_parses_like_the_free_function() {
    let debian = Debian::default();
    let records = debian.parse_packages("Package: tar\nVersion: 1.35\n");
    assert_eq!(records.len(), 1);
    assert_eq!(records[0].package, "tar");
    assert_eq!(records[0].version, "1.35");
}

#[test]
fn default_configuration_has_one_source() {
    let debian = Debian::default();
    assert_eq!(debian.repositories.len(), 1);
    assert_eq!(
        debian.repositories[0],
        "http://deb.debian.org/debian/dists/stable/main/binary-amd64/Packages.gz"
    );
}

#[test]
fn architecture_tokens_round_trip() {
    let tokens = [
        "all", "amd64", "arm64", "armel", "armhf", "i386", "mips64el", "mipsel", "ppc64el",
        "s390x", "source",
    ];
    for token in tokens {
        let arch = DebianArchitecture::from_str(token).expect("token is in the closed set");
        assert_eq!(arch.to_string(), token);
    }
    assert!(DebianArchitecture::from_str("riscv64").is_none());
    assert!(DebianArchitecture::from_str("").is_none());
    assert!(DebianArchitecture::from_str("AMD64").is_none());
}

#[test]
fn package_row_maps_fields_for_the_store() {
    let text = "Package: curl\nVersion: 8.1.0\nArchitecture: i386\nDescription: transfer tool\n";
    let records = parse_packages(text);
    let row = records[0].to_row();
    assert_eq!(row.0, "curl");
    assert_eq!(row.1, "8.1.0");
    assert_eq!(row.2, "i386");
    assert_eq!(row.3.as_deref(), Some("transfer tool"));
}
