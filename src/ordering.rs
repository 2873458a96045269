//! The order of versions. Every part is turned into a sequence of integers, its
//! sort key, and keys are compared lexicographically; how the fields of a type
//! are declared plays no part.
use vstd::prelude::*;
use std::cmp::Ordering;
use crate::package_version::{
    DevHead, PackageVersion, PostHeader, PreHeader, ReleaseHeader, VersionView,
};

verus! {

/// Lexicographic order of integer sequences, a proper prefix first.
pub open spec fn lex_cmp(a: Seq<int>, b: Seq<int>) -> Ordering
    decreases a.len(),
{
    if a.len() == 0 {
        if b.len() == 0 {
            Ordering::Equal
        } else {
            Ordering::Less
        }
    } else if b.len() == 0 {
        Ordering::Greater
    } else if a[0] < b[0] {
        Ordering::Less
    } else if a[0] > b[0] {
        Ordering::Greater
    } else {
        lex_cmp(a.drop_first(), b.drop_first())
    }
}

/// The integers of a key held as `u64`s.
pub open spec fn widen(k: Seq<u64>) -> Seq<int> {
    k.map_values(|x: u64| x as int)
}

/// An optional number as a key: absent below every number written.
pub open spec fn count_key(n: Option<u32>) -> int {
    match n {
        Some(k) => k + 1,
        None => 0,
    }
}

/// Rank of a pre-release kind: alpha, then beta, then release candidate and
/// preview, which tie.
pub open spec fn pre_rank(p: PreHeader) -> int {
    match p {
        PreHeader::Alpha(_) => 0,
        PreHeader::Beta(_) => 1,
        PreHeader::ReleaseCanidate(_) => 2,
        PreHeader::Preview(_) => 2,
    }
}

/// The number of a pre-release part.
pub open spec fn pre_number(p: PreHeader) -> Option<u32> {
    match p {
        PreHeader::Alpha(n) => n,
        PreHeader::Beta(n) => n,
        PreHeader::ReleaseCanidate(n) => n,
        PreHeader::Preview(n) => n,
    }
}

impl ReleaseHeader {
    pub open spec fn key(self) -> Seq<int> {
        seq![self.major as int, self.minor as int]
    }
}

impl PreHeader {
    pub open spec fn key(self) -> Seq<int> {
        seq![pre_rank(self), count_key(pre_number(self))]
    }
}

impl PostHeader {
    /// Only the number counts; `post` and `rev` rank alike.
    pub open spec fn key(self) -> Seq<int> {
        seq![count_key(self.post_num)]
    }
}

impl DevHead {
    pub open spec fn key(self) -> Seq<int> {
        seq![count_key(self.dev_num)]
    }
}

/// Release phase: a development release alone, then pre-release, then final
/// release, then post-release.
pub open spec fn phase(v: VersionView) -> int {
    if v.pre is Some {
        1
    } else if v.post is Some {
        3
    } else if v.dev is Some {
        0
    } else {
        2
    }
}

/// The leading part of the sort key of a version: epoch (absent as 0), major,
/// minor and phase.
pub open spec fn key_head(v: VersionView) -> Seq<int> {
    seq![
        match v.epoch {
            Some(e) => e as int,
            None => 0,
        },
        v.release.major as int,
        v.release.minor as int,
        phase(v),
    ]
}

/// Pre-release rank and number; zeros without a pre-release part.
pub open spec fn pre_key(v: VersionView) -> Seq<int> {
    match v.pre {
        Some(p) => p.key(),
        None => seq![0, 0],
    }
}

/// Post-release presence, then number.
pub open spec fn post_key(v: VersionView) -> Seq<int> {
    match v.post {
        Some(p) => seq![1] + p.key(),
        None => seq![0, 0],
    }
}

/// Development presence, present first, then number.
pub open spec fn dev_key(v: VersionView) -> Seq<int> {
    match v.dev {
        Some(d) => seq![0] + d.key(),
        None => seq![1, 0],
    }
}

/// Local label: absent first, then by the code points of its characters.
pub open spec fn local_key(v: VersionView) -> Seq<int> {
    match v.local {
        Some(l) => seq![1] + l.map_values(|c: char| c as u32 as int),
        None => seq![0],
    }
}

/// The rest of the sort key of a version.
pub open spec fn key_tail(v: VersionView) -> Seq<int> {
    pre_key(v) + post_key(v) + dev_key(v) + local_key(v)
}

/// The sort key of a version, most significant first.
pub open spec fn version_key(v: VersionView) -> Seq<int> {
    key_head(v) + key_tail(v)
}

/// How version `a` orders against version `b`.
pub open spec fn compare_versions(a: VersionView, b: VersionView) -> Ordering {
    lex_cmp(version_key(a), version_key(b))
}

proof fn lemma_lex_step(a: Seq<int>, b: Seq<int>, i: int)
    requires
        0 <= i < a.len(),
        i < b.len(),
        a[i] == b[i],
    ensures
        lex_cmp(a.skip(i), b.skip(i)) == lex_cmp(a.skip(i + 1), b.skip(i + 1)),
{
    assert(a.skip(i).drop_first() =~= a.skip(i + 1));
    assert(b.skip(i).drop_first() =~= b.skip(i + 1));
}

/// Two sequences compare equal exactly when they are the same.
pub proof fn lemma_lex_equal(a: Seq<int>, b: Seq<int>)
    ensures
        (lex_cmp(a, b) == Ordering::Equal) == (a == b),
    decreases a.len(),
{
    if a.len() == 0 || b.len() == 0 {
        if a.len() == 0 && b.len() == 0 {
            assert(a =~= b);
        }
    } else if a[0] == b[0] {
        lemma_lex_equal(a.drop_first(), b.drop_first());
        if a.drop_first() == b.drop_first() {
            assert(a =~= seq![a[0]] + a.drop_first());
            assert(b =~= seq![b[0]] + b.drop_first());
        }
    }
}

/// Sequences that agree before position `k` are ordered by their elements at `k`.
pub proof fn lemma_lex_first_difference(a: Seq<int>, b: Seq<int>, k: int)
    requires
        0 <= k < a.len(),
        k < b.len(),
        forall|j: int| 0 <= j < k ==> a[j] == b[j],
        a[k] < b[k],
    ensures
        lex_cmp(a, b) == Ordering::Less,
    decreases k,
{
    if k > 0 {
        assert(forall|j: int| 0 <= j < k - 1 ==> a.drop_first()[j] == a[j + 1]);
        assert(forall|j: int| 0 <= j < k - 1 ==> b.drop_first()[j] == b[j + 1]);
        lemma_lex_first_difference(a.drop_first(), b.drop_first(), k - 1);
    }
}

/// Swapping the sequences reverses the order.
pub proof fn lemma_lex_antisymmetric(a: Seq<int>, b: Seq<int>)
    ensures
        (lex_cmp(a, b) == Ordering::Less) == (lex_cmp(b, a) == Ordering::Greater),
        (lex_cmp(a, b) == Ordering::Equal) == (lex_cmp(b, a) == Ordering::Equal),
    decreases a.len(),
{
    if a.len() > 0 && b.len() > 0 && a[0] == b[0] {
        lemma_lex_antisymmetric(a.drop_first(), b.drop_first());
    }
}

/// The order of sequences is transitive.
pub proof fn lemma_lex_transitive(a: Seq<int>, b: Seq<int>, c: Seq<int>)
    ensures
        lex_cmp(a, b) != Ordering::Greater && lex_cmp(b, c) != Ordering::Greater
            ==> lex_cmp(a, c) != Ordering::Greater,
        lex_cmp(a, b) == Ordering::Less && lex_cmp(b, c) != Ordering::Greater ==> lex_cmp(a, c)
            == Ordering::Less,
        lex_cmp(a, b) != Ordering::Greater && lex_cmp(b, c) == Ordering::Less ==> lex_cmp(a, c)
            == Ordering::Less,
    decreases a.len(),
{
    if a.len() > 0 && b.len() > 0 && c.len() > 0 && a[0] == b[0] && b[0] == c[0] {
        lemma_lex_transitive(a.drop_first(), b.drop_first(), c.drop_first());
    }
}

/// Compares two keys lexicographically.
pub fn compare_keys(a: &Vec<u64>, b: &Vec<u64>) -> (r: Ordering)
    ensures
        r == lex_cmp(widen(a@), widen(b@)),
{
    let mut i: usize = 0;
    assert(widen(a@).skip(0) =~= widen(a@));
    assert(widen(b@).skip(0) =~= widen(b@));
    while i < a.len() && i < b.len()
        invariant
            i <= a@.len(),
            i <= b@.len(),
            lex_cmp(widen(a@), widen(b@)) == lex_cmp(widen(a@).skip(i as int), widen(b@).skip(
                i as int,
            )),
        decreases a@.len() - i,
    {
        if a[i] < b[i] {
            return Ordering::Less;
        }
        if a[i] > b[i] {
            return Ordering::Greater;
        }
        proof {
            lemma_lex_step(widen(a@), widen(b@), i as int);
        }
        i = i + 1;
    }
    if a.len() == b.len() {
        Ordering::Equal
    } else if a.len() < b.len() {
        Ordering::Less
    } else {
        Ordering::Greater
    }
}

fn count_key_of(n: Option<u32>) -> (r: u64)
    ensures
        r as int == count_key(n),
{
    match n {
        Some(k) => k as u64 + 1,
        None => 0,
    }
}

impl ReleaseHeader {
    fn sort_key(&self) -> (k: Vec<u64>)
        ensures
            widen(k@) == self.key(),
    {
        let k = vec![self.major as u64, self.minor as u64];
        assert(widen(k@) =~= self.key());
        k
    }
}

impl PreHeader {
    fn sort_key(&self) -> (k: Vec<u64>)
        ensures
            widen(k@) == self.key(),
    {
        let (rank, n): (u64, Option<u32>) = match *self {
            PreHeader::Alpha(n) => (0, n),
            PreHeader::Beta(n) => (1, n),
            PreHeader::ReleaseCanidate(n) => (2, n),
            PreHeader::Preview(n) => (2, n),
        };
        let k = vec![rank, count_key_of(n)];
        assert(widen(k@) =~= self.key());
        k
    }
}

impl PostHeader {
    fn sort_key(&self) -> (k: Vec<u64>)
        ensures
            widen(k@) == self.key(),
    {
        let k = vec![count_key_of(self.post_num)];
        assert(widen(k@) =~= self.key());
        k
    }
}

impl DevHead {
    fn sort_key(&self) -> (k: Vec<u64>)
        ensures
            widen(k@) == self.key(),
    {
        let k = vec![count_key_of(self.dev_num)];
        assert(widen(k@) =~= self.key());
        k
    }
}

/// Appends one integer to a key.
fn push_key(dst: &mut Vec<u64>, x: u64)
    ensures
        widen(final(dst)@) == widen(old(dst)@) + seq![x as int],
{
    dst.push(x);
    assert(widen(dst@) =~= widen(old(dst)@) + seq![x as int]);
}

/// Appends the integers of `src` to `dst`.
fn push_all(dst: &mut Vec<u64>, src: &Vec<u64>)
    ensures
        widen(final(dst)@) == widen(old(dst)@) + widen(src@),
{
    let mut i: usize = 0;
    assert(widen(src@.take(0)) =~= Seq::<int>::empty());
    assert(widen(dst@) =~= widen(old(dst)@) + widen(src@.take(0)));
    while i < src.len()
        invariant
            i <= src@.len(),
            widen(dst@) == widen(old(dst)@) + widen(src@.take(i as int)),
        decreases src@.len() - i,
    {
        push_key(dst, src[i]);
        assert(widen(src@.take(i + 1)) =~= widen(src@.take(i as int)) + seq![src@[i as int] as int]);
        i = i + 1;
        assert(widen(dst@) =~= widen(old(dst)@) + widen(src@.take(i as int)));
    }
    assert(src@.take(i as int) =~= src@);
}

impl PackageVersion {
    /// The leading part of the sort key.
    fn head_key(&self) -> (k: Vec<u64>)
        ensures
            widen(k@) == key_head(self@),
    {
        let epoch: u64 = match self.epoch {
            Some(e) => e as u64,
            None => 0,
        };
        let rank: u64 = if self.pre.is_some() {
            1
        } else if self.post.is_some() {
            3
        } else if self.dev.is_some() {
            0
        } else {
            2
        };
        let k = vec![epoch, self.release.major as u64, self.release.minor as u64, rank];
        assert(widen(k@) =~= key_head(self@));
        k
    }

    /// The rest of the sort key.
    fn tail_key(&self) -> (k: Vec<u64>)
        ensures
            widen(k@) == key_tail(self@),
    {
        let ghost v = self@;
        let mut k: Vec<u64> = Vec::new();
        assert(widen(k@) =~= Seq::<int>::empty());
        match &self.pre {
            Some(p) => push_all(&mut k, &p.sort_key()),
            None => push_all(&mut k, &vec![0, 0]),
        }
        assert(widen(k@) =~= pre_key(v));
        match &self.post {
            Some(p) => {
                push_key(&mut k, 1);
                push_all(&mut k, &p.sort_key());
            },
            None => push_all(&mut k, &vec![0, 0]),
        }
        assert(widen(k@) =~= pre_key(v) + post_key(v));
        match &self.dev {
            Some(d) => {
                push_key(&mut k, 0);
                push_all(&mut k, &d.sort_key());
            },
            None => push_all(&mut k, &vec![1, 0]),
        }
        assert(widen(k@) =~= pre_key(v) + post_key(v) + dev_key(v));
        match &self.local {
            Some(l) => {
                push_key(&mut k, 1);
                push_all(&mut k, &char_codes(l.as_str()));
            },
            None => push_key(&mut k, 0),
        }
        assert(widen(k@) =~= key_tail(v));
        k
    }

    /// The sort key of this version.
    pub fn sort_key(&self) -> (k: Vec<u64>)
        ensures
            widen(k@) == version_key(self@),
    {
        let mut k = self.head_key();
        push_all(&mut k, &self.tail_key());
        k
    }
}

/// The code points of the characters of `s`.
fn char_codes(s: &str) -> (r: Vec<u64>)
    ensures
        widen(r@) == s@.map_values(|c: char| c as u32 as int),
{
    let mut v: Vec<u64> = Vec::new();
    for c in it: s.chars()
        invariant
            it.seq() == s@,
            widen(v@) == s@.take(it.index() as int).map_values(|c: char| c as u32 as int),
    {
        let ghost before = v@;
        let code: u32 = c as u32;
        v.push(code as u64);
        assert(s@.take(it.index() + 1) =~= s@.take(it.index() as int).push(c));
        assert(widen(v@) =~= widen(before).push(code as int));
        assert(s@.take(it.index() as int).push(c).map_values(|c: char| c as u32 as int)
            =~= s@.take(it.index() as int).map_values(|c: char| c as u32 as int).push(code as int));
        assert(widen(v@) =~= s@.take(it.index() + 1).map_values(|c: char| c as u32 as int));
    }
    assert(s@.take(s@.len() as int) =~= s@);
    v
}

/// How version `a` orders against version `b`: by epoch, release, phase,
/// pre-release, post-release, development release and local label, in that order.
pub fn compare(a: &PackageVersion, b: &PackageVersion) -> (r: Ordering)
    ensures
        r == compare_versions(a@, b@),
{
    compare_keys(&a.sort_key(), &b.sort_key())
}

impl PartialOrd for ReleaseHeader {
    fn partial_cmp(&self, other: &Self) -> (r: Option<Ordering>) {
        Some(compare_keys(&self.sort_key(), &other.sort_key()))
    }
}

impl vstd::std_specs::cmp::PartialOrdSpecImpl for ReleaseHeader {
    open spec fn obeys_partial_cmp_spec() -> bool {
        true
    }

    open spec fn partial_cmp_spec(&self, other: &Self) -> Option<Ordering> {
        Some(lex_cmp(self.key(), other.key()))
    }
}

impl PartialEq for PreHeader {
    fn eq(&self, other: &Self) -> (r: bool) {
        let r = compare_keys(&self.sort_key(), &other.sort_key());
        proof {
            lemma_lex_equal(self.key(), other.key());
        }
        matches!(r, Ordering::Equal)
    }
}

impl vstd::std_specs::cmp::PartialEqSpecImpl for PreHeader {
    open spec fn obeys_eq_spec() -> bool {
        true
    }

    /// Same rank and number; release candidate and preview count as one kind.
    open spec fn eq_spec(&self, other: &Self) -> bool {
        self.key() == other.key()
    }
}

impl PartialOrd for PreHeader {
    fn partial_cmp(&self, other: &Self) -> (r: Option<Ordering>) {
        Some(compare_keys(&self.sort_key(), &other.sort_key()))
    }
}

impl vstd::std_specs::cmp::PartialOrdSpecImpl for PreHeader {
    open spec fn obeys_partial_cmp_spec() -> bool {
        true
    }

    open spec fn partial_cmp_spec(&self, other: &Self) -> Option<Ordering> {
        Some(lex_cmp(self.key(), other.key()))
    }
}

impl PartialEq for PostHeader {
    fn eq(&self, other: &Self) -> (r: bool) {
        self.post_num == other.post_num
    }
}

impl vstd::std_specs::cmp::PartialEqSpecImpl for PostHeader {
    open spec fn obeys_eq_spec() -> bool {
        true
    }

    /// Same number; the head word does not count.
    open spec fn eq_spec(&self, other: &Self) -> bool {
        self.post_num == other.post_num
    }
}

impl PartialOrd for PostHeader {
    fn partial_cmp(&self, other: &Self) -> (r: Option<Ordering>) {
        Some(compare_keys(&self.sort_key(), &other.sort_key()))
    }
}

impl vstd::std_specs::cmp::PartialOrdSpecImpl for PostHeader {
    open spec fn obeys_partial_cmp_spec() -> bool {
        true
    }

    open spec fn partial_cmp_spec(&self, other: &Self) -> Option<Ordering> {
        Some(lex_cmp(self.key(), other.key()))
    }
}

impl PartialOrd for DevHead {
    fn partial_cmp(&self, other: &Self) -> (r: Option<Ordering>) {
        Some(compare_keys(&self.sort_key(), &other.sort_key()))
    }
}

impl vstd::std_specs::cmp::PartialOrdSpecImpl for DevHead {
    open spec fn obeys_partial_cmp_spec() -> bool {
        true
    }

    open spec fn partial_cmp_spec(&self, other: &Self) -> Option<Ordering> {
        Some(lex_cmp(self.key(), other.key()))
    }
}

/// Two versions are equal when their sort keys are: the text they were parsed from is never
/// consulted, an absent epoch equals epoch 0, and `post` equals `rev`.
pub open spec fn same_version(a: VersionView, b: VersionView) -> bool {
    version_key(a) == version_key(b)
}

impl PartialEq for PackageVersion {
    fn eq(&self, other: &Self) -> (r: bool) {
        let r = compare(self, other);
        proof {
            lemma_lex_equal(version_key(self@), version_key(other@));
        }
        matches!(r, Ordering::Equal)
    }
}

impl vstd::std_specs::cmp::PartialEqSpecImpl for PackageVersion {
    open spec fn obeys_eq_spec() -> bool {
        true
    }

    open spec fn eq_spec(&self, other: &Self) -> bool {
        same_version(self@, other@)
    }
}

impl PartialOrd for PackageVersion {
    fn partial_cmp(&self, other: &Self) -> (r: Option<Ordering>) {
        Some(compare(self, other))
    }
}

impl vstd::std_specs::cmp::PartialOrdSpecImpl for PackageVersion {
    open spec fn obeys_partial_cmp_spec() -> bool {
        true
    }

    open spec fn partial_cmp_spec(&self, other: &Self) -> Option<Ordering> {
        Some(compare_versions(self@, other@))
    }
}

/// For any two versions exactly one of `a < b`, `a == b` and `a > b` holds, and
/// the comparison says `Equal` exactly when the versions are equal.
pub proof fn lemma_compare_trichotomy(a: PackageVersion, b: PackageVersion)
    ensures
        (compare_versions(a@, b@) == Ordering::Equal) == same_version(a@, b@),
        (compare_versions(a@, b@) == Ordering::Less) as int + same_version(a@, b@) as int + (
        compare_versions(a@, b@) == Ordering::Greater) as int == 1,
{
    lemma_lex_equal(version_key(a@), version_key(b@));
}

/// Swapping two versions reverses their order.
pub proof fn lemma_compare_antisymmetric(a: PackageVersion, b: PackageVersion)
    ensures
        (compare_versions(a@, b@) == Ordering::Less) == (compare_versions(b@, a@)
            == Ordering::Greater),
        (compare_versions(a@, b@) == Ordering::Equal) == (compare_versions(b@, a@)
            == Ordering::Equal),
        compare_versions(a@, b@) == Ordering::Less ==> compare_versions(b@, a@)
            != Ordering::Less,
{
    lemma_lex_antisymmetric(version_key(a@), version_key(b@));
}

/// The order of versions is transitive, for `<` and for `<=` alike.
pub proof fn lemma_compare_transitive(a: PackageVersion, b: PackageVersion, c: PackageVersion)
    ensures
        compare_versions(a@, b@) == Ordering::Less && compare_versions(b@, c@) == Ordering::Less
            ==> compare_versions(a@, c@) == Ordering::Less,
        compare_versions(a@, b@) != Ordering::Greater && compare_versions(b@, c@)
            != Ordering::Greater ==> compare_versions(a@, c@) != Ordering::Greater,
        same_version(a@, b@) && same_version(b@, c@) ==> same_version(a@, c@),
{
    lemma_lex_transitive(version_key(a@), version_key(b@), version_key(c@));
}

/// Versions of one epoch and release are ordered by phase: a development
/// release alone, then pre-release, then final release, then post-release.
pub proof fn lemma_phase_order(a: PackageVersion, b: PackageVersion)
    requires
        a.epoch == b.epoch,
        a.release == b.release,
        phase(a@) < phase(b@),
    ensures
        compare_versions(a@, b@) == Ordering::Less,
{
    let ka = version_key(a@);
    let kb = version_key(b@);
    assert(forall|j: int| 0 <= j < 4 ==> ka[j] == key_head(a@)[j] && kb[j] == key_head(b@)[j]);
    lemma_lex_first_difference(ka, kb, 3);
}

} // verus!
