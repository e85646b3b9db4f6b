use weave::updates::{
    extract_version_from_cask, extract_version_from_latest_tag, get_upgrade_version_for_popup,
    is_newer, parse_version, should_check_for_update, Identifier, Moment, Version, VersionInfo,
};

#[test]
fn parses_version_from_cask_contents() {
    let cask = r#"
            cask "codex" do
              version "0.55.0"
            end
        "#;
    assert_eq!(
        extract_version_from_cask(cask).expect("failed to parse version"),
        "0.55.0"
    );
}

#[test]
fn extracts_version_from_latest_tag() {
    assert_eq!(
        extract_version_from_latest_tag("0.91.0-co-dex.1").expect("failed to parse version"),
        "0.91.0-co-dex.1"
    );
    assert_eq!(
        extract_version_from_latest_tag("v1.5.0").expect("failed to parse version"),
        "1.5.0"
    );
}

#[test]
fn latest_tag_without_prefix_is_invalid() {
    assert!(extract_version_from_latest_tag("release-1.5.0").is_err());
}

#[test]
fn prerelease_version_is_not_considered_newer() {
    assert_eq!(is_newer("0.11.0-beta.1", "0.11.0"), Some(false));
    assert_eq!(is_newer("1.0.0-rc.1", "1.0.0"), Some(false));
}

#[test]
fn plain_semver_comparisons_work() {
    assert_eq!(is_newer("0.11.1", "0.11.0"), Some(true));
    assert_eq!(is_newer("0.11.0", "0.11.1"), Some(false));
    assert_eq!(is_newer("1.0.0", "0.9.9"), Some(true));
    assert_eq!(is_newer("0.9.9", "1.0.0"), Some(false));
}

#[test]
fn co_dex_version_comparisons_work() {
    assert_eq!(is_newer("0.91.0-co-dex.2", "0.91.0-co-dex.1"), Some(true));
    assert_eq!(is_newer("0.91.0-co-dex.1", "0.91.0"), Some(false));
}

#[test]
fn whitespace_is_ignored() {
    assert_eq!(
        parse_version(" 1.2.3 \n"),
        Some(Version {
            major: 1,
            minor: 2,
            patch: 3,
            pre: Vec::new(),
        })
    );
    assert_eq!(is_newer(" 1.2.3 ", "1.2.2"), Some(true));
}

#[test]
fn a_release_is_newer_than_its_pre_release() {
    assert_eq!(is_newer("1.0.0", "1.0.0-rc.1"), Some(true));
    assert_eq!(is_newer("1.0.0-rc.1", "1.0.0-rc.1"), Some(false));
}

#[test]
fn numbers_in_a_pre_release_stand_before_words() {
    assert_eq!(is_newer("1.0.0-alpha", "1.0.0-7"), Some(true));
    assert_eq!(is_newer("1.0.0-10", "1.0.0-9"), Some(true));
    assert_eq!(is_newer("1.0.0-a.b", "1.0.0-a"), Some(true));
}

#[test]
fn what_is_no_version_is_not_compared() {
    assert_eq!(is_newer("next", "1.0.0"), None);
    assert_eq!(is_newer("1.0", "1.0.0"), None);
    assert_eq!(parse_version("1.2.x"), None);
}

#[test]
fn a_pre_release_is_parsed_into_its_parts() {
    let version = parse_version("0.91.0-co-dex.1").expect("version");
    assert_eq!(version.minor, 91);
    assert_eq!(
        version.pre,
        vec![
            Identifier::Alpha("co-dex".to_string()),
            Identifier::Numeric(1)
        ]
    );
}

#[test]
fn a_cask_without_a_version_is_an_error() {
    assert!(extract_version_from_cask("cask \"codex\" do\nend").is_err());
}

fn info(latest: &str, dismissed: Option<&str>) -> Option<VersionInfo> {
    Some(VersionInfo {
        latest_version: latest.to_string(),
        last_checked_at: Moment {
            seconds: 1_000_000,
            nanoseconds: 0,
        },
        dismissed_version: dismissed.map(str::to_string),
    })
}

#[test]
fn a_dismissed_version_does_not_pop_up() {
    let shown = get_upgrade_version_for_popup(true, &info("1.1.0", None), "1.0.0");
    assert_eq!(shown, Some("1.1.0".to_string()));
    let hidden = get_upgrade_version_for_popup(true, &info("1.1.0", Some("1.1.0")), "1.0.0");
    assert_eq!(hidden, None);
    let later = get_upgrade_version_for_popup(true, &info("1.2.0", Some("1.1.0")), "1.0.0");
    assert_eq!(later, Some("1.2.0".to_string()));
}

#[test]
fn versions_are_looked_for_every_twenty_hours() {
    let soon = Moment {
        seconds: 1_000_000 + 20 * 3600,
        nanoseconds: 0,
    };
    let late = Moment {
        seconds: 1_000_000 + 20 * 3600,
        nanoseconds: 1,
    };
    assert!(!should_check_for_update(true, &info("1.0.0", None), soon));
    assert!(should_check_for_update(true, &info("1.0.0", None), late));
    assert!(should_check_for_update(true, &None, soon));
    assert!(!should_check_for_update(false, &None, late));
}

#[test]
fn the_order_of_versions_carries_on() {
    let rising = ["1.0.0-1", "1.0.0-a", "1.0.0-a.1", "1.0.0-b", "1.0.0", "1.0.1", "1.2.0"];
    for (i, older) in rising.iter().enumerate() {
        for (j, newer) in rising.iter().enumerate() {
            assert_eq!(is_newer(newer, older), Some(i < j));
        }
    }
}

#[test]
fn what_stands_behind_a_plus_does_not_count() {
    assert_eq!(parse_version("1.2.3-rc.1+build.5 "), parse_version("1.2.3-rc.1"));
    assert_eq!(parse_version("1.2.3+a+b"), parse_version("1.2.3"));
}

#[test]
fn a_version_is_a_tag_of_its_own() {
    for tag in ["rust-v1.2.3", " v1.2.3-a ", "1.2.3"] {
        let version = extract_version_from_latest_tag(tag).expect("version");
        assert_eq!(extract_version_from_latest_tag(&version), Ok(version.clone()));
    }
}
