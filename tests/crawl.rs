use rumorph::crawl::{VersionKey, latest_versions, rank_by_downloads};

fn v(major: u64, minor: u64, patch: u64, pre: &str) -> VersionKey {
    VersionKey { major, minor, patch, pre: String::from(pre), build: String::new() }
}

#[test]
fn ranking_puts_the_most_downloaded_first() {
    let downloads = vec![5, 90, 12, 90, 0, 33];
    assert_eq!(rank_by_downloads(&downloads, 3), vec![1, 3, 5]);
    assert_eq!(rank_by_downloads(&downloads, 10), vec![1, 3, 5, 2, 0, 4]);
    assert!(rank_by_downloads(&downloads, 0).is_empty());
    assert!(rank_by_downloads(&vec![], 4).is_empty());
}

#[test]
fn ranking_handles_the_largest_counts() {
    let downloads = vec![0, u64::MAX, 1];
    assert_eq!(rank_by_downloads(&downloads, 2), vec![1, 2]);
}

#[test]
fn latest_version_follows_semver_order() {
    let versions = vec![
        (7, v(1, 9, 0, "")),
        (8, v(0, 1, 0, "")),
        (7, v(1, 10, 0, "")),
        (7, v(1, 10, 0, "alpha.1")),
        (8, v(0, 2, 0, "rc.1")),
        (8, v(0, 1, 5, "")),
    ];
    let latest = latest_versions(&vec![7, 8, 9, 7], &versions);
    assert_eq!(latest, vec![Some(2), Some(4), None, None]);
}

#[test]
fn release_comes_after_its_pre_release() {
    let versions = vec![(1, v(2, 0, 0, "beta")), (1, v(2, 0, 0, "")), (1, v(2, 0, 0, "alpha"))];
    assert_eq!(latest_versions(&vec![1], &versions), vec![Some(1)]);
    let versions = vec![(1, v(2, 0, 0, "beta.2")), (1, v(2, 0, 0, "beta.11"))];
    assert_eq!(latest_versions(&vec![1], &versions), vec![Some(1)]);
}
