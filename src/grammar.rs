//! The version grammar: where each part of a version text starts and ends.
//!
//! A version is, in this order: an optional `v`; an optional epoch `<digits>!`;
//! a release `<digits>(.<digits>)*`, of which only the first two numbers are
//! kept; an optional pre-release part; an
//! optional post-release part; an optional development part; an optional local
//! label after `+`. The whole text must be used. Each optional part is taken
//! where it can start, and each run of digits is read to its end.
use vstd::prelude::*;
use crate::package_version::PostHead;
use crate::text::{
    alphanumeric_at, digit_at, is_alphanumeric, is_digit, is_separator, separator_at,
};

verus! {

/// The kind of a pre-release part, as the words of the grammar name it.
#[derive(Clone, Copy, Debug, PartialEq, Eq, Structural)]
pub enum PreLabel {
    Alpha,
    Beta,
    ReleaseCandidate,
    Preview,
}

/// Where the parts of a version text lie: half-open ranges of character indices.
/// A range of a number holds its digits.
pub struct Scan {
    pub epoch: Option<(int, int)>,
    pub major: (int, int),
    pub minor: Option<(int, int)>,
    pub pre: Option<(PreLabel, Option<(int, int)>)>,
    pub post: Option<(Option<PostHead>, Option<(int, int)>)>,
    pub dev: Option<Option<(int, int)>>,
    pub local: Option<(int, int)>,
}

/// The end of the run of digits that starts at `i` (`i` itself where there is none).
pub open spec fn digits_end(t: Seq<char>, i: int) -> int
    decreases t.len() - i,
{
    if 0 <= i < t.len() && is_digit(t[i]) {
        digits_end(t, i + 1)
    } else {
        i
    }
}

/// The run of digits at `i`, if it is not empty.
pub open spec fn number_at(t: Seq<char>, i: int) -> Option<(int, int)> {
    if digits_end(t, i) > i {
        Some((i, digits_end(t, i)))
    } else {
        None
    }
}

/// Where the text goes on after an optional separator at `i`.
pub open spec fn skip_separator(t: Seq<char>, i: int) -> int {
    if 0 <= i < t.len() && is_separator(t[i]) {
        i + 1
    } else {
        i
    }
}

/// Whether the word `w` stands in `t` at `i`.
pub open spec fn word_at(t: Seq<char>, i: int, w: Seq<char>) -> bool {
    0 <= i && i + w.len() <= t.len() && t.subrange(i, i + w.len()) == w
}

/// The pre-release word at `i`, and where it ends. Longer words are tried first.
pub open spec fn pre_label_at(t: Seq<char>, i: int) -> Option<(PreLabel, int)> {
    if word_at(t, i, "preview"@) {
        Some((PreLabel::Preview, i + "preview"@.len()))
    } else if word_at(t, i, "alpha"@) {
        Some((PreLabel::Alpha, i + "alpha"@.len()))
    } else if word_at(t, i, "beta"@) {
        Some((PreLabel::Beta, i + "beta"@.len()))
    } else if word_at(t, i, "pre"@) {
        Some((PreLabel::Preview, i + "pre"@.len()))
    } else if word_at(t, i, "rc"@) {
        Some((PreLabel::ReleaseCandidate, i + "rc"@.len()))
    } else if word_at(t, i, "a"@) {
        Some((PreLabel::Alpha, i + "a"@.len()))
    } else if word_at(t, i, "b"@) {
        Some((PreLabel::Beta, i + "b"@.len()))
    } else if word_at(t, i, "c"@) {
        Some((PreLabel::ReleaseCandidate, i + "c"@.len()))
    } else {
        None
    }
}

/// The post-release word at `i`, and where it ends.
pub open spec fn post_label_at(t: Seq<char>, i: int) -> Option<(PostHead, int)> {
    if word_at(t, i, "post"@) {
        Some((PostHead::Post, i + "post"@.len()))
    } else if word_at(t, i, "rev"@) {
        Some((PostHead::Rev, i + "rev"@.len()))
    } else if word_at(t, i, "r"@) {
        Some((PostHead::Rev, i + "r"@.len()))
    } else {
        None
    }
}

/// An epoch `<digits>!` at `i`, and where the text goes on.
pub open spec fn epoch_part(t: Seq<char>, i: int) -> (Option<(int, int)>, int) {
    let e = digits_end(t, i);
    if e > i && e < t.len() && t[e] == '!' {
        (Some((i, e)), e + 1)
    } else {
        (None, i)
    }
}

/// A minor number `.<digits>` at `i`, and where the text goes on.
pub open spec fn minor_part(t: Seq<char>, i: int) -> (Option<(int, int)>, int) {
    if 0 <= i < t.len() && t[i] == '.' && number_at(t, i + 1) is Some {
        (number_at(t, i + 1), digits_end(t, i + 1))
    } else {
        (None, i)
    }
}

/// Where further release numbers `.<digits>` that start at `i` end.
pub open spec fn release_end(t: Seq<char>, i: int) -> int
    decreases t.len() - i via release_end_decreases
{
    if 0 <= i < t.len() && t[i] == '.' && digits_end(t, i + 1) > i + 1 {
        release_end(t, digits_end(t, i + 1))
    } else {
        i
    }
}

#[via_fn]
proof fn release_end_decreases(t: Seq<char>, i: int) {
    lemma_digits_end(t, i + 1);
}

/// A pre-release part at `i`: separator, word, separator, number, each but the
/// word optional; and where the text goes on.
pub open spec fn pre_part(t: Seq<char>, i: int) -> (Option<(PreLabel, Option<(int, int)>)>, int) {
    match pre_label_at(t, skip_separator(t, i)) {
        Some((label, e)) => {
            let n = skip_separator(t, e);
            (Some((label, number_at(t, n))), digits_end(t, n))
        },
        None => (None, i),
    }
}

/// A post-release part at `i`: `-<digits>`, or separator, word, separator,
/// number with all but the word optional; and where the text goes on.
pub open spec fn post_part(t: Seq<char>, i: int) -> (Option<(Option<PostHead>, Option<(int, int)>)>, int) {
    if 0 <= i < t.len() && t[i] == '-' && number_at(t, i + 1) is Some {
        (Some((None, number_at(t, i + 1))), digits_end(t, i + 1))
    } else {
        match post_label_at(t, skip_separator(t, i)) {
            Some((head, e)) => {
                let n = skip_separator(t, e);
                (Some((Some(head), number_at(t, n))), digits_end(t, n))
            },
            None => (None, i),
        }
    }
}

/// A development part at `i`: separator, `dev`, separator, number, all but the
/// word optional; and where the text goes on.
pub open spec fn dev_part(t: Seq<char>, i: int) -> (Option<Option<(int, int)>>, int) {
    let j = skip_separator(t, i);
    if word_at(t, j, "dev"@) {
        let n = skip_separator(t, j + "dev"@.len());
        (Some(number_at(t, n)), digits_end(t, n))
    } else {
        (None, i)
    }
}

/// A local label: groups of letters and digits joined by single separators.
pub open spec fn is_local_label(l: Seq<char>) -> bool {
    &&& l.len() > 0
    &&& is_alphanumeric(l[0])
    &&& is_alphanumeric(l.last())
    &&& forall|k: int| 0 <= k < l.len() ==> is_alphanumeric(#[trigger] l[k]) || is_separator(l[k])
    &&& forall|k: int|
        0 <= k < l.len() - 1 && is_separator(#[trigger] l[k]) ==> !is_separator(l[k + 1])
}

/// A local label `+<label>` at `i` that runs to the end of the text; and where
/// the text goes on.
pub open spec fn local_part(t: Seq<char>, i: int) -> (Option<(int, int)>, int) {
    if 0 <= i < t.len() && t[i] == '+' && is_local_label(t.subrange(i + 1, t.len() as int)) {
        (Some((i + 1, t.len() as int)), t.len() as int)
    } else {
        (None, i)
    }
}

/// The parts of a version text, or `None` where the text is not a version.
pub open spec fn scan(t: Seq<char>) -> Option<Scan> {
    let start: int = if t.len() > 0 && t[0] == 'v' {
        1
    } else {
        0
    };
    let (epoch, i1) = epoch_part(t, start);
    let major_end = digits_end(t, i1);
    let (minor, i2) = minor_part(t, major_end);
    let (pre, i3) = pre_part(t, release_end(t, i2));
    let (post, i4) = post_part(t, i3);
    let (dev, i5) = dev_part(t, i4);
    let (local, i6) = local_part(t, i5);
    if major_end > i1 && i6 == t.len() {
        Some(Scan { epoch, major: (i1, major_end), minor, pre, post, dev, local })
    } else {
        None
    }
}

} // verus!

verus! {

/// A half-open range of positions, as integers.
pub open spec fn range_view(r: Option<(usize, usize)>) -> Option<(int, int)> {
    match r {
        Some((a, b)) => Some((a as int, b as int)),
        None => None,
    }
}

/// `t[r.0..r.1]` is a non-empty run of digits.
pub open spec fn digit_range(t: Seq<char>, r: (int, int)) -> bool {
    &&& 0 <= r.0 < r.1 <= t.len()
    &&& forall|k: int| r.0 <= k < r.1 ==> is_digit(#[trigger] t[k])
}

/// The run of digits from `i` lies in the text and holds digits only.
pub proof fn lemma_digits_end(t: Seq<char>, i: int)
    ensures
        digits_end(t, i) >= i,
        digits_end(t, i) > i ==> 0 <= i && digits_end(t, i) <= t.len(),
        forall|k: int| i <= k < digits_end(t, i) ==> is_digit(#[trigger] t[k]),
    decreases t.len() - i,
{
    if 0 <= i < t.len() && is_digit(t[i]) {
        lemma_digits_end(t, i + 1);
    }
}

/// What `number_at` finds is a run of digits.
pub broadcast proof fn lemma_number_at(t: Seq<char>, i: int)
    ensures
        #[trigger] number_at(t, i) matches Some(r) ==> digit_range(t, r) && r.0 == i,
{
    lemma_digits_end(t, i);
}

/// Where the parts of a version text lie, as character indices.
pub struct Captures {
    pub epoch: Option<(usize, usize)>,
    pub major: (usize, usize),
    pub minor: Option<(usize, usize)>,
    pub pre: Option<(PreLabel, Option<(usize, usize)>)>,
    pub post: Option<(Option<PostHead>, Option<(usize, usize)>)>,
    pub dev: Option<Option<(usize, usize)>>,
    pub local: Option<(usize, usize)>,
}

impl View for Captures {
    type V = Scan;

    open spec fn view(&self) -> Scan {
        Scan {
            epoch: range_view(self.epoch),
            major: (self.major.0 as int, self.major.1 as int),
            minor: range_view(self.minor),
            pre: match self.pre {
                Some((label, n)) => Some((label, range_view(n))),
                None => None,
            },
            post: match self.post {
                Some((head, n)) => Some((head, range_view(n))),
                None => None,
            },
            dev: match self.dev {
                Some(n) => Some(range_view(n)),
                None => None,
            },
            local: range_view(self.local),
        }
    }
}

fn read_digits(t: &[char], i: usize) -> (r: usize)
    requires
        i <= t@.len(),
    ensures
        r as int == digits_end(t@, i as int),
        i <= r <= t@.len(),
{
    let len = t.len();
    let mut j = i;
    while digit_at(t, j)
        invariant
            len == t@.len(),
            i <= j <= t@.len(),
            digits_end(t@, j as int) == digits_end(t@, i as int),
        decreases t@.len() - j,
    {
        j = j + 1;
    }
    j
}

fn read_number(t: &[char], i: usize) -> (r: Option<(usize, usize)>)
    requires
        i <= t@.len(),
    ensures
        range_view(r) == number_at(t@, i as int),
        r matches Some(x) ==> x.1 <= t@.len(),
{
    let e = read_digits(t, i);
    if e > i {
        Some((i, e))
    } else {
        None
    }
}

fn read_separator(t: &[char], i: usize) -> (r: usize)
    requires
        i <= t@.len(),
    ensures
        r as int == skip_separator(t@, i as int),
        r <= t@.len(),
{
    let len = t.len();
    if separator_at(t, i) {
        i + 1
    } else {
        i
    }
}

/// Where the word `w` ends if it stands in `t` at `i`.
fn read_word(t: &[char], i: usize, w: &str) -> (r: Option<usize>)
    requires
        i <= t@.len(),
    ensures
        match r {
            Some(e) => word_at(t@, i as int, w@) && e == i + w@.len(),
            None => !word_at(t@, i as int, w@),
        },
{
    let mut j = i;
    for c in it: w.chars()
        invariant
            it.seq() == w@,
            i <= j <= t@.len(),
            j == i + it.index(),
            t@.subrange(i as int, j as int) == w@.take(it.index() as int),
    {
        if j >= t.len() || t[j] != c {
            proof {
                if word_at(t@, i as int, w@) {
                    assert(t@.subrange(i as int, i + w@.len())[j - i] == t@[j as int]);
                }
            }
            return None;
        }
        proof {
            assert(t@.subrange(i as int, j + 1) =~= w@.take(it.index() + 1));
        }
        j = j + 1;
    }
    assert(w@.take(w@.len() as int) =~= w@);
    Some(j)
}

fn read_pre_label(t: &[char], i: usize) -> (r: Option<(PreLabel, usize)>)
    requires
        i <= t@.len(),
    ensures
        match r {
            Some((label, e)) => pre_label_at(t@, i as int) == Some((label, e as int)),
            None => pre_label_at(t@, i as int) is None,
        },
{
    if let Some(e) = read_word(t, i, "preview") {
        Some((PreLabel::Preview, e))
    } else if let Some(e) = read_word(t, i, "alpha") {
        Some((PreLabel::Alpha, e))
    } else if let Some(e) = read_word(t, i, "beta") {
        Some((PreLabel::Beta, e))
    } else if let Some(e) = read_word(t, i, "pre") {
        Some((PreLabel::Preview, e))
    } else if let Some(e) = read_word(t, i, "rc") {
        Some((PreLabel::ReleaseCandidate, e))
    } else if let Some(e) = read_word(t, i, "a") {
        Some((PreLabel::Alpha, e))
    } else if let Some(e) = read_word(t, i, "b") {
        Some((PreLabel::Beta, e))
    } else if let Some(e) = read_word(t, i, "c") {
        Some((PreLabel::ReleaseCandidate, e))
    } else {
        None
    }
}

fn read_post_label(t: &[char], i: usize) -> (r: Option<(PostHead, usize)>)
    requires
        i <= t@.len(),
    ensures
        match r {
            Some((head, e)) => post_label_at(t@, i as int) == Some((head, e as int)),
            None => post_label_at(t@, i as int) is None,
        },
{
    if let Some(e) = read_word(t, i, "post") {
        Some((PostHead::Post, e))
    } else if let Some(e) = read_word(t, i, "rev") {
        Some((PostHead::Rev, e))
    } else if let Some(e) = read_word(t, i, "r") {
        Some((PostHead::Rev, e))
    } else {
        None
    }
}

fn read_epoch(t: &[char], i: usize) -> (r: (Option<(usize, usize)>, usize))
    requires
        i <= t@.len(),
    ensures
        range_view(r.0) == epoch_part(t@, i as int).0,
        r.1 as int == epoch_part(t@, i as int).1,
        r.1 <= t@.len(),
{
    let e = read_digits(t, i);
    if e > i && e < t.len() && t[e] == '!' {
        (Some((i, e)), e + 1)
    } else {
        (None, i)
    }
}

fn read_minor(t: &[char], i: usize) -> (r: (Option<(usize, usize)>, usize))
    requires
        i <= t@.len(),
    ensures
        range_view(r.0) == minor_part(t@, i as int).0,
        r.1 as int == minor_part(t@, i as int).1,
        r.1 <= t@.len(),
{
    if i < t.len() && t[i] == '.' {
        let n = read_number(t, i + 1);
        if let Some((_, e)) = n {
            return (n, e);
        }
    }
    (None, i)
}

fn skip_release(t: &[char], i: usize) -> (r: usize)
    requires
        i <= t@.len(),
    ensures
        r as int == release_end(t@, i as int),
        r <= t@.len(),
{
    let mut j = i;
    while j < t.len() && t[j] == '.'
        invariant
            i <= j <= t@.len(),
            release_end(t@, j as int) == release_end(t@, i as int),
        decreases t@.len() - j,
    {
        match read_number(t, j + 1) {
            Some((_, e)) => j = e,
            None => return j,
        }
    }
    j
}

fn read_pre(t: &[char], i: usize) -> (r: (Option<(PreLabel, Option<(usize, usize)>)>, usize))
    requires
        i <= t@.len(),
    ensures
        match (r.0, pre_part(t@, i as int).0) {
            (Some((l, n)), Some((l2, n2))) => l == l2 && range_view(n) == n2,
            (None, None) => true,
            _ => false,
        },
        r.1 as int == pre_part(t@, i as int).1,
        r.1 <= t@.len(),
{
    let j = read_separator(t, i);
    match read_pre_label(t, j) {
        Some((label, e)) => {
            let n = read_separator(t, e);
            (Some((label, read_number(t, n))), read_digits(t, n))
        },
        None => (None, i),
    }
}

fn read_post(t: &[char], i: usize) -> (r: (Option<(Option<PostHead>, Option<(usize, usize)>)>, usize))
    requires
        i <= t@.len(),
    ensures
        match (r.0, post_part(t@, i as int).0) {
            (Some((h, n)), Some((h2, n2))) => h == h2 && range_view(n) == n2,
            (None, None) => true,
            _ => false,
        },
        r.1 as int == post_part(t@, i as int).1,
        r.1 <= t@.len(),
{
    if i < t.len() && t[i] == '-' {
        let n = read_number(t, i + 1);
        if let Some((_, e)) = n {
            return (Some((None, n)), e);
        }
    }
    let j = read_separator(t, i);
    match read_post_label(t, j) {
        Some((head, e)) => {
            let n = read_separator(t, e);
            (Some((Some(head), read_number(t, n))), read_digits(t, n))
        },
        None => (None, i),
    }
}

fn read_dev(t: &[char], i: usize) -> (r: (Option<Option<(usize, usize)>>, usize))
    requires
        i <= t@.len(),
    ensures
        match (r.0, dev_part(t@, i as int).0) {
            (Some(n), Some(n2)) => range_view(n) == n2,
            (None, None) => true,
            _ => false,
        },
        r.1 as int == dev_part(t@, i as int).1,
        r.1 <= t@.len(),
{
    let j = read_separator(t, i);
    match read_word(t, j, "dev") {
        Some(e) => {
            let n = read_separator(t, e);
            (Some(read_number(t, n)), read_digits(t, n))
        },
        None => (None, i),
    }
}

/// Whether `t[from..]` is a local label.
fn read_local_label(t: &[char], from: usize) -> (r: bool)
    requires
        from <= t@.len(),
    ensures
        r == is_local_label(t@.subrange(from as int, t@.len() as int)),
{
    let ghost l = t@.subrange(from as int, t@.len() as int);
    if from >= t.len() {
        return false;
    }
    if !alphanumeric_at(t, from) || !alphanumeric_at(t, t.len() - 1) {
        assert(l[0] == t@[from as int]);
        assert(l.last() == t@[t@.len() - 1]);
        return false;
    }
    let mut k = from;
    while k < t.len()
        invariant
            from <= k <= t@.len(),
            l == t@.subrange(from as int, t@.len() as int),
            forall|m: int|
                0 <= m < k - from ==> is_alphanumeric(#[trigger] l[m]) || is_separator(l[m]),
            forall|m: int|
                0 <= m < k - from - 1 && is_separator(#[trigger] l[m]) ==> !is_separator(l[m + 1]),
        decreases t@.len() - k,
    {
        assert(l[k - from] == t@[k as int]);
        if !(alphanumeric_at(t, k) || separator_at(t, k)) {
            return false;
        }
        if k > from && separator_at(t, k - 1) && separator_at(t, k) {
            assert(l[k - 1 - from] == t@[k - 1]);
            return false;
        }
        k = k + 1;
    }
    true
}

fn read_local(t: &[char], i: usize) -> (r: (Option<(usize, usize)>, usize))
    requires
        i <= t@.len(),
    ensures
        range_view(r.0) == local_part(t@, i as int).0,
        r.1 as int == local_part(t@, i as int).1,
{
    if i < t.len() && t[i] == '+' && read_local_label(t, i + 1) {
        (Some((i + 1, t.len())), t.len())
    } else {
        (None, i)
    }
}

/// Finds the parts of the version written in `t`, or `None` where `t` is not a version.
pub fn scan_chars(t: &[char]) -> (r: Option<Captures>)
    ensures
        match r {
            Some(c) => scan(t@) == Some(c@),
            None => scan(t@) is None,
        },
{
    let start: usize = if t.len() > 0 && t[0] == 'v' {
        1
    } else {
        0
    };
    let (epoch, i1) = read_epoch(t, start);
    let major_end = read_digits(t, i1);
    let (minor, i2) = read_minor(t, major_end);
    let (pre, i3) = read_pre(t, skip_release(t, i2));
    let (post, i4) = read_post(t, i3);
    let (dev, i5) = read_dev(t, i4);
    let (local, i6) = read_local(t, i5);
    if major_end > i1 && i6 == t.len() {
        let c = Captures { epoch, major: (i1, major_end), minor, pre, post, dev, local };
        Some(c)
    } else {
        None
    }
}

} // verus!
