//! Version identifiers in the style of PEP 440: epoch, release, pre-, post- and
//! development parts, and a local label.
use vstd::prelude::*;
use crate::grammar::{
    digit_range, lemma_number_at, range_view, scan, scan_chars, Captures, PreLabel, Scan,
};
use crate::text::{chars_of, digits_value, parse_u32};

verus! {

/// Development release part (`.dev3`), with its number if one was written.
#[derive(Clone, Copy, Debug, PartialEq, Eq, Structural)]
pub struct DevHead {
    pub dev_num: Option<u32>,
}

/// The word that introduced a post-release part.
#[derive(Clone, Copy, Debug, PartialEq, Eq, Structural)]
pub enum PostHead {
    /// `post`
    Post,
    /// `rev` or `r`
    Rev,
}

/// Post-release part (`.post2`, `-2`, `rev2`), with its number if one was written.
///
/// The short form `-2` has no head word.
#[derive(Clone, Copy, Debug)]
pub struct PostHeader {
    pub post_head: Option<PostHead>,
    pub post_num: Option<u32>,
}

/// Pre-release part, by kind, with its number if one was written.
#[derive(Clone, Copy, Debug)]
pub enum PreHeader {
    /// `b` or `beta`
    Beta(Option<u32>),
    /// `a` or `alpha`
    Alpha(Option<u32>),
    /// `pre` or `preview`
    Preview(Option<u32>),
    /// `rc` or `c`
    ReleaseCanidate(Option<u32>),
}

/// Release numbers: major and minor.
#[derive(Clone, Copy, Debug, PartialEq, Eq, Structural)]
pub struct ReleaseHeader {
    pub major: u32,
    pub minor: u32,
}

/// A version, with each part as the parser read it from the text.
#[derive(Debug)]
pub struct PackageVersion {
    /// The text the version was parsed from; shown, never compared.
    pub original: String,
    /// Local label, the text after `+`.
    pub local: Option<String>,
    pub dev: Option<DevHead>,
    pub post: Option<PostHeader>,
    pub pre: Option<PreHeader>,
    pub release: ReleaseHeader,
    pub epoch: Option<u32>,
}

/// The mathematical value of a [`PackageVersion`].
pub struct VersionView {
    pub original: Seq<char>,
    pub local: Option<Seq<char>>,
    pub dev: Option<DevHead>,
    pub post: Option<PostHeader>,
    pub pre: Option<PreHeader>,
    pub release: ReleaseHeader,
    pub epoch: Option<u32>,
}

impl View for PackageVersion {
    type V = VersionView;

    open spec fn view(&self) -> VersionView {
        VersionView {
            original: self.original@,
            local: match self.local {
                Some(l) => Some(l@),
                None => None,
            },
            dev: self.dev,
            post: self.post,
            pre: self.pre,
            release: self.release,
            epoch: self.epoch,
        }
    }
}

/// The part of a version whose number did not fit.
#[derive(Clone, Copy, Debug, PartialEq, Eq, Structural)]
pub enum Segment {
    Epoch,
    Release,
    Pre,
    Post,
    Dev,
}

/// Why a text is not a version.
#[derive(Debug)]
pub enum ParseError {
    /// The text does not follow the version grammar; it is carried along.
    Malformed(String),
    /// A number in the named part exceeds `u32::MAX`.
    InvalidNumber(Segment),
}

/// The mathematical value of a [`ParseError`].
pub enum ParseErrorView {
    Malformed(Seq<char>),
    InvalidNumber(Segment),
}

impl View for ParseError {
    type V = ParseErrorView;

    open spec fn view(&self) -> ParseErrorView {
        match self {
            ParseError::Malformed(s) => ParseErrorView::Malformed(s@),
            ParseError::InvalidNumber(g) => ParseErrorView::InvalidNumber(*g),
        }
    }
}

/// The value of the number whose digits lie at `r`.
pub open spec fn number_value(t: Seq<char>, r: (int, int)) -> int {
    digits_value(t.subrange(r.0, r.1))
}

/// The number at `r`, where there is one, fits in a `u32`.
pub open spec fn fits(t: Seq<char>, r: Option<(int, int)>) -> bool {
    match r {
        Some(x) => number_value(t, x) <= u32::MAX,
        None => true,
    }
}

/// The number at `r`, where there is one.
pub open spec fn number(t: Seq<char>, r: Option<(int, int)>) -> Option<u32> {
    match r {
        Some(x) => Some(number_value(t, x) as u32),
        None => None,
    }
}

/// The pre-release part of a given kind and number.
pub open spec fn pre_header(label: PreLabel, n: Option<u32>) -> PreHeader {
    match label {
        PreLabel::Alpha => PreHeader::Alpha(n),
        PreLabel::Beta => PreHeader::Beta(n),
        PreLabel::ReleaseCandidate => PreHeader::ReleaseCanidate(n),
        PreLabel::Preview => PreHeader::Preview(n),
    }
}

/// Where the number of the pre-release part lies.
pub open spec fn pre_range(c: Scan) -> Option<(int, int)> {
    match c.pre {
        Some((_, r)) => r,
        None => None,
    }
}

/// Where the number of the post-release part lies.
pub open spec fn post_range(c: Scan) -> Option<(int, int)> {
    match c.post {
        Some((_, r)) => r,
        None => None,
    }
}

/// Where the number of the development part lies.
pub open spec fn dev_range(c: Scan) -> Option<(int, int)> {
    match c.dev {
        Some(r) => r,
        None => None,
    }
}

/// The version that the parts `c` of the text `t` make, or the first part, in
/// the order epoch, release, pre, post, dev, whose number does not fit in a `u32`.
pub open spec fn build(t: Seq<char>, c: Scan) -> Result<VersionView, ParseErrorView> {
    if !fits(t, c.epoch) {
        Err(ParseErrorView::InvalidNumber(Segment::Epoch))
    } else if !fits(t, Some(c.major)) || !fits(t, c.minor) {
        Err(ParseErrorView::InvalidNumber(Segment::Release))
    } else if !fits(t, pre_range(c)) {
        Err(ParseErrorView::InvalidNumber(Segment::Pre))
    } else if !fits(t, post_range(c)) {
        Err(ParseErrorView::InvalidNumber(Segment::Post))
    } else if !fits(t, dev_range(c)) {
        Err(ParseErrorView::InvalidNumber(Segment::Dev))
    } else {
        Ok(
            VersionView {
                original: t,
                local: match c.local {
                    Some(r) => Some(t.subrange(r.0, r.1)),
                    None => None,
                },
                dev: match c.dev {
                    Some(r) => Some(DevHead { dev_num: number(t, r) }),
                    None => None,
                },
                post: match c.post {
                    Some((head, r)) => Some(PostHeader { post_head: head, post_num: number(t, r) }),
                    None => None,
                },
                pre: match c.pre {
                    Some((label, r)) => Some(pre_header(label, number(t, r))),
                    None => None,
                },
                release: ReleaseHeader {
                    major: number_value(t, c.major) as u32,
                    minor: match number(t, c.minor) {
                        Some(n) => n,
                        None => 0,
                    },
                },
                epoch: number(t, c.epoch),
            },
        )
    }
}

/// What parsing the text `t` gives: the version it writes, `Malformed(t)` where it
/// does not follow the grammar, or the part whose number is too large.
pub open spec fn version_of(t: Seq<char>) -> Result<VersionView, ParseErrorView> {
    match scan(t) {
        None => Err(ParseErrorView::Malformed(t)),
        Some(c) => build(t, c),
    }
}

/// A version shows as the very text it was parsed from.
pub proof fn lemma_shown_as_parsed(t: Seq<char>)
    ensures
        version_of(t) matches Ok(v) ==> v.original == t,
{
}

/// The value of a parse result.
pub open spec fn parsed_view(r: Result<PackageVersion, ParseError>) -> Result<VersionView, ParseErrorView> {
    match r {
        Ok(v) => Ok(v@),
        Err(e) => Err(e@),
    }
}

/// Every number that a scan finds is a run of digits inside the text.
pub open spec fn numbers_in(t: Seq<char>, c: Scan) -> bool {
    &&& (c.epoch matches Some(r) ==> digit_range(t, r))
    &&& digit_range(t, c.major)
    &&& (c.minor matches Some(r) ==> digit_range(t, r))
    &&& (pre_range(c) matches Some(r) ==> digit_range(t, r))
    &&& (post_range(c) matches Some(r) ==> digit_range(t, r))
    &&& (dev_range(c) matches Some(r) ==> digit_range(t, r))
    &&& (c.local matches Some(r) ==> 0 <= r.0 <= r.1 <= t.len())
}

proof fn lemma_scan_numbers(t: Seq<char>)
    requires
        scan(t) is Some,
    ensures
        numbers_in(t, scan(t)->0),
{
    broadcast use lemma_number_at;

    let c = scan(t)->0;
    let start: int = if t.len() > 0 && t[0] == 'v' {
        1
    } else {
        0
    };
    let i1 = crate::grammar::epoch_part(t, start).1;
    assert(crate::grammar::number_at(t, i1) == Some(c.major));
    if let Some(r) = c.epoch {
        assert(crate::grammar::number_at(t, start) == Some(r));
    }
}

/// Reads the number at `r` for the part `seg`.
fn read_part_number(t: &[char], r: Option<(usize, usize)>, seg: Segment) -> (res: Result<Option<u32>, ParseError>)
    requires
        range_view(r) matches Some(x) ==> digit_range(t@, x),
    ensures
        match res {
            Ok(n) => fits(t@, range_view(r)) && n == number(t@, range_view(r)),
            Err(e) => !fits(t@, range_view(r)) && e@ == ParseErrorView::InvalidNumber(seg),
        },
{
    match r {
        None => Ok(None),
        Some((a, b)) => match parse_u32(t, a, b) {
            Some(n) => Ok(Some(n)),
            None => Err(ParseError::InvalidNumber(seg)),
        },
    }
}

/// The version made of the parts `c` of `text`, whose characters are `t`.
fn build_version(text: &str, t: &[char], c: &Captures) -> (r: Result<PackageVersion, ParseError>)
    requires
        t@ == text@,
        numbers_in(t@, c@),
    ensures
        parsed_view(r) == build(t@, c@),
{
    let epoch = match read_part_number(t, c.epoch, Segment::Epoch) {
        Ok(n) => n,
        Err(e) => return Err(e),
    };
    let major = match read_part_number(t, Some(c.major), Segment::Release) {
        Ok(n) => n,
        Err(e) => return Err(e),
    };
    let minor = match read_part_number(t, c.minor, Segment::Release) {
        Ok(n) => n,
        Err(e) => return Err(e),
    };
    let pre_number = match c.pre {
        Some((_, r)) => r,
        None => None,
    };
    let pre_num = match read_part_number(t, pre_number, Segment::Pre) {
        Ok(n) => n,
        Err(e) => return Err(e),
    };
    let post_number = match c.post {
        Some((_, r)) => r,
        None => None,
    };
    let post_num = match read_part_number(t, post_number, Segment::Post) {
        Ok(n) => n,
        Err(e) => return Err(e),
    };
    let dev_number = match c.dev {
        Some(r) => r,
        None => None,
    };
    let dev_num = match read_part_number(t, dev_number, Segment::Dev) {
        Ok(n) => n,
        Err(e) => return Err(e),
    };
    let release = ReleaseHeader {
        major: match major {
            Some(n) => n,
            None => 0,
        },
        minor: match minor {
            Some(n) => n,
            None => 0,
        },
    };
    let pre = match c.pre {
        Some((PreLabel::Alpha, _)) => Some(PreHeader::Alpha(pre_num)),
        Some((PreLabel::Beta, _)) => Some(PreHeader::Beta(pre_num)),
        Some((PreLabel::ReleaseCandidate, _)) => Some(PreHeader::ReleaseCanidate(pre_num)),
        Some((PreLabel::Preview, _)) => Some(PreHeader::Preview(pre_num)),
        None => None,
    };
    let post = match c.post {
        Some((head, _)) => Some(PostHeader { post_head: head, post_num }),
        None => None,
    };
    let dev = match c.dev {
        Some(_) => Some(DevHead { dev_num }),
        None => None,
    };
    let local = match c.local {
        Some((a, b)) => Some(text.substring_char(a, b).to_string()),
        None => None,
    };
    let v = PackageVersion { original: text.to_string(), local, dev, post, pre, release, epoch };
    Ok(v)
}

impl PackageVersion {
    /// Parses `version`. Fails with `Malformed` carrying the text where it does not
    /// follow the grammar, and with `InvalidNumber` where a number does not fit in
    /// a `u32`.
    pub fn new(version: &str) -> (r: Result<Self, ParseError>)
        ensures
            parsed_view(r) == version_of(version@),
    {
        let t = chars_of(version);
        match scan_chars(t.as_slice()) {
            None => Err(ParseError::Malformed(version.to_string())),
            Some(c) => {
                proof {
                    lemma_scan_numbers(t@);
                }
                build_version(version, t.as_slice(), &c)
            },
        }
    }

    /// The text the version was parsed from.
    pub fn to_string(&self) -> (r: String)
        ensures
            r@ == self.original@,
    {
        self.original.clone()
    }
}

/// Parses a version; see [`PackageVersion::new`].
pub fn parse_version(text: &str) -> (r: Result<PackageVersion, ParseError>)
    ensures
        parsed_view(r) == version_of(text@),
{
    PackageVersion::new(text)
}

} // verus!
