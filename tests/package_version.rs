use std::cmp::Ordering;
use std::fmt::Debug;

use pyver::{
    compare, parse_version, DevHead, PackageVersion, ParseError, PostHead, PostHeader, PreHeader,
    ReleaseHeader, Segment,
};

fn check_a_greater<T>(a: T, b: T) -> Result<(), String>
where
    T: PartialEq + PartialOrd + Debug,
{
    if a <= b {
        return Err(format!(
            "Failed Less Than or Equal Check for A: {:?} \n<=\n B: {:?}",
            a, b
        ));
    }
    Ok(())
}

fn v(s: &str) -> PackageVersion {
    match PackageVersion::new(s) {
        Ok(v) => v,
        Err(e) => panic!("{:?} does not parse: {:?}", s, e),
    }
}

#[test]
fn check_pep440_ordering() -> Result<(), String> {
    check_a_greater(
        v("v1!1.0-preview-921.post-516.dev-241+yeah.this.is.the.problem.with.local.versions"),
        v("1.0"),
    )?;
    Ok(())
}

#[test]
fn check_release_ordering() -> Result<(), String> {
    check_a_greater(
        ReleaseHeader { major: 1, minor: 0 },
        ReleaseHeader { major: 0, minor: 0 },
    )?;
    check_a_greater(
        ReleaseHeader { major: 1, minor: 1 },
        ReleaseHeader { major: 1, minor: 0 },
    )?;
    check_a_greater(
        ReleaseHeader { major: 2, minor: 1 },
        ReleaseHeader {
            major: 1,
            minor: 52,
        },
    )?;
    Ok(())
}

#[test]
fn check_pre_ordering() -> Result<(), String> {
    // Release candidate and preview share a rank; alpha comes before beta.
    assert_eq!(
        PreHeader::ReleaseCanidate(None).partial_cmp(&PreHeader::Preview(None)),
        Some(Ordering::Equal)
    );
    check_a_greater(PreHeader::Preview(None), PreHeader::Alpha(None))?;
    check_a_greater(PreHeader::Beta(None), PreHeader::Alpha(None))?;

    check_a_greater(
        PreHeader::ReleaseCanidate(Some(2)),
        PreHeader::ReleaseCanidate(Some(1)),
    )?;
    check_a_greater(PreHeader::Preview(Some(50)), PreHeader::Preview(Some(3)))?;
    check_a_greater(PreHeader::Alpha(Some(504)), PreHeader::Alpha(Some(0)))?;
    check_a_greater(PreHeader::Beta(Some(1234)), PreHeader::Beta(Some(1)))?;

    check_a_greater(
        PreHeader::ReleaseCanidate(Some(1)),
        PreHeader::Beta(Some(45067885)),
    )?;
    Ok(())
}

#[test]
fn check_post_ordering() -> Result<(), String> {
    check_a_greater(
        PostHeader {
            post_head: Some(PostHead::Post),
            post_num: Some(0),
        },
        PostHeader {
            post_head: Some(PostHead::Post),
            post_num: None,
        },
    )?;
    check_a_greater(
        PostHeader {
            post_head: Some(PostHead::Post),
            post_num: Some(1),
        },
        PostHeader {
            post_head: Some(PostHead::Post),
            post_num: Some(0),
        },
    )?;
    Ok(())
}

#[test]
fn check_dev_ordering() -> Result<(), String> {
    check_a_greater(DevHead { dev_num: Some(0) }, DevHead { dev_num: None })?;
    check_a_greater(DevHead { dev_num: Some(1) }, DevHead { dev_num: Some(0) })?;
    Ok(())
}

#[test]
fn check_pep440_equality() {
    assert_eq!(v("1.0a1"), v("1.0alpha1"));
    assert_eq!(v("1.0b"), v("1.0beta"));
    assert_eq!(v("1.0r"), v("1.0rev"));
    assert_eq!(v("1.0c"), v("1.0rc"));
    assert_eq!(v("v1.0"), v("1.0"));
}

#[test]
fn check_pep440() {
    let versions = vec![
        "1.0",
        "v1.1",
        "2.0",
        "2013.10",
        "2014.04",
        "1!1.0",
        "1!1.1",
        "1!2.0",
        "2!1.0.pre0",
        "1.0.dev456",
        "1.0a1",
        "1.0a2.dev456",
        "1.0a12.dev456",
        "1.0a12",
        "1.0b1.dev456",
        "1.0b2",
        "1.0b2.post345.dev456",
        "1.0b2.post345",
        "1.0rc1.dev456",
        "1.0rc1",
        "1.0",
        "1.0+abc.5",
        "1.0+abc.7",
        "1.0+5",
        "1.0.post456.dev34",
        "1.0.post456",
        "1.0.15",
        "1.1.dev1",
    ];

    for version in versions {
        match PackageVersion::new(version) {
            Ok(_v) => continue,
            Err(e) => panic!("Oh no {:?}", e),
        }
    }
}

#[test]
fn check_pep440_negative() {
    let versions = vec!["not a version"];

    for version in versions {
        match PackageVersion::new(version) {
            Ok(v) => panic!("Oh no {}", v.to_string()),
            Err(_e) => continue,
        }
    }
}

#[test]
fn corpus_parses_and_displays_as_written() {
    for s in ["1.0", "1.0a1", "1.0.post456.dev34", "1!1.0", "1.0+abc.5", "2!1.0.pre0"] {
        assert_eq!(parse_version(s).unwrap().to_string(), s);
    }
}

#[test]
fn spellings_of_one_version_are_equal() {
    assert!(v("1.0a1") == v("1.0alpha1"));
    assert!(v("1.0b") == v("1.0beta"));
    assert!(v("1.0rc") == v("1.0c"));
    assert!(v("v1.0") == v("1.0"));
    assert!(v("1.0pre2") == v("1.0rc2"));
    assert!(v("1.0.post1") == v("1.0rev1"));
    assert!(v("0!1.0") == v("1.0"));
    assert!(v("1.0") == v("1"));
    assert!(v("1.0") != v("1.0+local"));
}

#[test]
fn phases_order_dev_pre_final_post() {
    let dev = v("1.0.dev1");
    let alpha = v("1.0a1");
    let fin = v("1.0");
    let post = v("1.0.post1");
    assert!(dev < alpha);
    assert!(alpha < fin);
    assert!(fin < post);
    assert_eq!(compare(&dev, &post), Ordering::Less);
    assert_eq!(compare(&post, &dev), Ordering::Greater);
    assert_eq!(compare(&fin, &v("1.0")), Ordering::Equal);
}

#[test]
fn examples_order_as_listed() {
    let listed = [
        "1.0.dev456",
        "1.0a1",
        "1.0a2.dev456",
        "1.0a12.dev456",
        "1.0a12",
        "1.0b1.dev456",
        "1.0b2",
        "1.0b2.post345.dev456",
        "1.0b2.post345",
        "1.0rc1.dev456",
        "1.0rc1",
        "1.0",
        "1.0+abc.5",
        "1.0+abc.7",
        "1.0.post456.dev34",
        "1.0.post456",
        "1.1.dev1",
        "1!1.0",
    ];
    for pair in listed.windows(2) {
        assert!(v(pair[0]) < v(pair[1]), "{} < {}", pair[0], pair[1]);
    }
}

#[test]
fn numbers_and_absence_rank() {
    assert!(v("1.0a") < v("1.0a0"));
    assert!(v("1.0.post") < v("1.0.post0"));
    assert!(v("1.0.dev") < v("1.0.dev0"));
    assert!(v("1.0b2") < v("1.0b2.post"));
    assert!(v("1.0a1.dev1") < v("1.0a1"));
    assert!(v("2.0") > v("1.52"));
    assert!(v("1!0.1") > v("9.9"));
    assert!(v("1.0+abc") < v("1.0+abd"));
    assert!(v("1.0") < v("1.0+0"));
}

#[test]
fn order_is_total_and_consistent() {
    let all: Vec<PackageVersion> = ["1.0", "1.0a1", "1.0.dev1", "1.0.post1", "1!0.5", "1.0+x", "v1.0"]
        .iter()
        .map(|s| v(s))
        .collect();
    for a in &all {
        for b in &all {
            let ab = compare(a, b);
            assert_eq!(ab.reverse(), compare(b, a));
            let n = (ab == Ordering::Less) as u8 + (a == b) as u8 + (ab == Ordering::Greater) as u8;
            assert_eq!(n, 1);
            for c in &all {
                if compare(a, b) != Ordering::Greater && compare(b, c) != Ordering::Greater {
                    assert_ne!(compare(a, c), Ordering::Greater);
                }
            }
        }
    }
}

#[test]
fn parts_are_read_into_fields() {
    let x = v("v1!2.3-preview-921.post-516.dev-241+yeah.this");
    assert_eq!(x.epoch, Some(1));
    assert_eq!(x.release, ReleaseHeader { major: 2, minor: 3 });
    assert!(matches!(x.pre, Some(PreHeader::Preview(Some(921)))));
    let post = x.post.unwrap();
    assert_eq!(post.post_head, Some(PostHead::Post));
    assert_eq!(post.post_num, Some(516));
    assert_eq!(x.dev, Some(DevHead { dev_num: Some(241) }));
    assert_eq!(x.local.as_deref(), Some("yeah.this"));

    let y = v("1.0-9");
    let post = y.post.unwrap();
    assert_eq!(post.post_head, None);
    assert_eq!(post.post_num, Some(9));
    assert_eq!(v("1.0r").post.unwrap().post_head, Some(PostHead::Rev));
    assert_eq!(v("2014.04").release, ReleaseHeader { major: 2014, minor: 4 });
    assert_eq!(v("7").release, ReleaseHeader { major: 7, minor: 0 });
    assert!(matches!(v("1.0a-1").pre, Some(PreHeader::Alpha(Some(1)))));
    assert!(v("1.0a-1").post.is_none());

    let z = v("1.0.15.99999999999rc1");
    assert_eq!(z.release, ReleaseHeader { major: 1, minor: 0 });
    assert!(matches!(z.pre, Some(PreHeader::ReleaseCanidate(Some(1)))));
    assert!(v("2.11.2") == v("2.11"));
}

#[test]
fn malformed_texts_are_refused() {
    for s in [
        "not a version",
        "",
        "v",
        "1.0+",
        "1.0+a..b",
        "1.0+a.",
        "1.0 ",
        "x1.0",
        "1..0",
        "1.0.",
        "1.0é",
        "1!",
    ] {
        match parse_version(s) {
            Err(ParseError::Malformed(t)) => assert_eq!(t, s),
            other => panic!("{:?} gave {:?}", s, other),
        }
    }
}

#[test]
fn numbers_past_u32_name_their_part() {
    let cases = [
        ("4294967296!1.0", Segment::Epoch),
        ("4294967296.0", Segment::Release),
        ("1.4294967296", Segment::Release),
        ("1.0a4294967296", Segment::Pre),
        ("1.0.post4294967296", Segment::Post),
        ("1.0-4294967296", Segment::Post),
        ("1.0.dev4294967296", Segment::Dev),
        ("99999999999!99999999999", Segment::Epoch),
    ];
    for (s, seg) in cases {
        match parse_version(s) {
            Err(ParseError::InvalidNumber(g)) => assert_eq!(g, seg, "{}", s),
            other => panic!("{:?} gave {:?}", s, other),
        }
    }
    assert_eq!(v("4294967295.4294967295").release.major, u32::MAX);
}
