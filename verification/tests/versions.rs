use bol_scraper_empire::versioning::order::{try_update, UpdateDecision};
use bol_scraper_empire::versioning::{
    download_file_name, latest_bin_url, latest_release, releases_url, Release, UnsupportedOs,
    Version, VersionError,
};
use std::cmp::Ordering;

fn version(major: usize, minor: usize, patch: usize) -> Version {
    Version { major, minor, patch }
}

#[test]
fn versions_are_read_with_and_without_prefix() {
    assert_eq!(Version::parse("v1.2.3"), Ok(version(1, 2, 3)));
    assert_eq!(Version::parse("1.2.3"), Ok(version(1, 2, 3)));
    assert_eq!(Version::parse("v0.0.0"), Ok(version(0, 0, 0)));
    assert_eq!(Version::parse("10.020.+3"), Ok(version(10, 20, 3)));
}

#[test]
fn other_texts_are_no_versions() {
    assert_eq!(Version::parse(""), Err(VersionError::Format));
    assert_eq!(Version::parse("1.2"), Err(VersionError::Format));
    assert_eq!(Version::parse("1.2.3.4"), Err(VersionError::Format));
    assert_eq!(Version::parse("1.2."), Err(VersionError::Number));
    assert_eq!(Version::parse("a.b.c"), Err(VersionError::Number));
    assert_eq!(Version::parse("vv1.2.3"), Err(VersionError::Number));
    assert_eq!(Version::parse("V1.2.3"), Err(VersionError::Number));
    assert_eq!(Version::parse("1.2.-3"), Err(VersionError::Number));
    assert_eq!(Version::parse("1.2.3 "), Err(VersionError::Number));
    assert_eq!(Version::parse("1.2.99999999999999999999999"), Err(VersionError::Number));
}

#[test]
fn versions_are_written_with_prefix() {
    assert_eq!(version(1, 2, 3).to_string(), "v1.2.3");
    assert_eq!(version(0, 10, 200).to_string(), "v0.10.200");
    assert_eq!(Version::parse(&version(7, 0, 19).to_string()), Ok(version(7, 0, 19)));
}

#[test]
fn the_first_difference_decides_the_order() {
    assert_eq!(version(1, 2, 3).cmp(&version(1, 2, 3)), Ordering::Equal);
    assert_eq!(version(1, 2, 3).cmp(&version(1, 2, 4)), Ordering::Less);
    assert_eq!(version(1, 3, 0).cmp(&version(1, 2, 9)), Ordering::Greater);
    assert_eq!(version(2, 0, 0).cmp(&version(1, 9, 9)), Ordering::Greater);
    assert_eq!(version(0, 9, 9).cmp(&version(1, 0, 0)), Ordering::Less);
    assert_eq!(version(1, 2, 3).partial_cmp(&version(1, 2, 2)), Some(Ordering::Greater));
}

#[test]
fn update_only_when_behind() {
    assert_eq!(try_update("v1.2.3", "1.2.3"), Ok(UpdateDecision::UpToDate));
    assert_eq!(try_update("v1.2.3", "1.3.0"), Ok(UpdateDecision::Ahead));
    assert_eq!(try_update("v1.10.0", "1.9.9"), Ok(UpdateDecision::Update));
    assert_eq!(try_update("latest", "1.9.9"), Err(VersionError::Format));
    assert_eq!(try_update("v1.0.0", "1.x.0"), Err(VersionError::Number));
}

#[test]
fn release_addresses() {
    assert_eq!(
        releases_url(),
        "https://api.github.com/repos/juliamertz/bol-scraping-empire/releases"
    );
    assert_eq!(
        latest_bin_url("scraper", "x86_64", "linux"),
        Ok("https://github.com/juliamertz/bol-scraping-empire/releases/latest/download/scraper-x86_64-unknown-linux-gnu.tar.gz".to_string())
    );
    assert_eq!(
        latest_bin_url("scraper", "aarch64", "macos"),
        Ok("https://github.com/juliamertz/bol-scraping-empire/releases/latest/download/scraper-aarch64-apple-darwin.tar.gz".to_string())
    );
    assert_eq!(latest_bin_url("scraper", "x86_64", "windows"), Err(UnsupportedOs));
    assert_eq!(download_file_name("scraper"), "scraper.latest.tar.gz");
}

#[test]
fn latest_release_is_the_first() {
    let releases = vec![
        Release { tag_name: "v2.0.0".into(), url: "u2".into() },
        Release { tag_name: "v1.0.0".into(), url: "u1".into() },
    ];
    let latest = latest_release(releases).unwrap();
    assert_eq!((latest.tag_name.as_str(), latest.url.as_str()), ("v2.0.0", "u2"));
    assert!(latest_release(Vec::new()).is_none());
}
