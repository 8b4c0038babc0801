//! Which published release of a package is the newest one, and which newer
//! releases exist in another major line and in the current major line.
//!
//! Versions are parsed and ordered by the `semver` crate.

use vstd::prelude::*;
use vstd::string::*;

use crate::text::{decimal_string, decimal_text};

verus! {

broadcast use vstd::seq_lib::group_to_multiset_ensures;

#[verifier::external_type_specification]
#[verifier::external_body]
pub struct ExSemverVersion(semver::Version);

/// The content of a semantic version: its three numbers, its pre-release
/// identifier and its build metadata (empty where absent).
pub struct SemVer {
    pub major: u64,
    pub minor: u64,
    pub patch: u64,
    pub pre: Seq<char>,
    pub build: Seq<char>,
}

/// A version that `semver` accepted: the parsed version, with its parts.
/// Only `parse_semver` builds one, so the parts are those of the parsed
/// version.
pub struct SemVersion {
    major: u64,
    minor: u64,
    patch: u64,
    pre: String,
    build: String,
    parsed: semver::Version,
}

impl View for SemVersion {
    type V = SemVer;

    closed spec fn view(&self) -> SemVer {
        SemVer {
            major: self.major,
            minor: self.minor,
            patch: self.patch,
            pre: self.pre@,
            build: self.build@,
        }
    }
}

/// What `semver::Version::parse` gives for a text: the parts of the version,
/// or `None` where it returns an error.
pub uninterp spec fn semver_parse(text: Seq<char>) -> Option<SemVer>;

/// Whether `v` is the version of some text that `semver` parses.
pub open spec fn parsable(v: SemVer) -> bool {
    exists|t: Seq<char>| #[trigger] semver_parse(t) == Some(v)
}

/// Whether the order of `v` against each version that parses is
/// antisymmetric, and is zero for that version only where it is `v` itself.
pub open spec fn order_facts(v: SemVer) -> bool {
    forall|c: SemVer|
        parsable(c) ==> #[trigger] semver_order(v, c) == -semver_order(c, v) && (semver_order(v, c)
            == 0) == (v == c)
}

/// Whether `v` parses from some text and its order is antisymmetric.
pub open spec fn well_ordered(v: SemVer) -> bool {
    parsable(v) && order_facts(v)
}

/// Whether every version in `s` is [`well_ordered`].
pub open spec fn all_well_ordered(s: Seq<SemVer>) -> bool {
    forall|i: int| 0 <= i < s.len() ==> well_ordered(#[trigger] s[i])
}

impl SemVersion {
    /// A version of this type is always the parse of some text.
    #[verifier::type_invariant]
    spec fn parsed_from_text(self) -> bool {
        parsable(self@)
    }

    /// Parses a version with `semver::Version::parse`.
    pub fn parse(text: &str) -> (r: Option<SemVersion>)
        ensures
            match r {
                Some(v) => semver_parse(text@) == Some(v@) && order_facts(v@),
                None => semver_parse(text@) is None,
            },
    {
        parse_semver(text)
    }
}

/// Calls `semver::Version::parse` and keeps the parsed version together
/// with its parts.
///
/// Besides naming the result, the contract states what `Ord` of
/// `semver::Version` gives for the parsed version against any version that
/// parses: the order is antisymmetric, and it is equal only for the same
/// version (identifiers compare equal only where their texts are equal).
#[verifier::external_body]
fn parse_semver(text: &str) -> (r: Option<SemVersion>)
    ensures
        match r {
            Some(v) => semver_parse(text@) == Some(v@) && order_facts(v@),
            None => semver_parse(text@) is None,
        },
{
    match semver::Version::parse(text) {
        Ok(v) => Some(SemVersion {
            major: v.major,
            minor: v.minor,
            patch: v.patch,
            pre: v.pre.as_str().to_string(),
            build: v.build.as_str().to_string(),
            parsed: v,
        }),
        Err(_) => None,
    }
}

/// The order of semantic versions that `semver::Version` implements:
/// 1 where `a` is greater than `b`, 0 where they are equal, -1 where `a`
/// is less.
pub uninterp spec fn semver_order(a: SemVer, b: SemVer) -> int;

/// The order of the three numbers of two versions, compared from left to
/// right: 1, 0 or -1.
pub open spec fn numeric_order(a: SemVer, b: SemVer) -> int {
    if a.major != b.major {
        if a.major > b.major { 1 } else { -1 }
    } else if a.minor != b.minor {
        if a.minor > b.minor { 1 } else { -1 }
    } else if a.patch != b.patch {
        if a.patch > b.patch { 1 } else { -1 }
    } else {
        0
    }
}

/// Compares two versions with `Ord::cmp` of `semver::Version`.
///
/// Besides naming the result, the contract states what the crate documents
/// of this order: it is a total order (antisymmetric, transitive, equal only
/// for equal versions); the three numbers are compared first, from left to
/// right; and where they are equal a pre-release is less than the release.
/// The order of pre-release and build identifiers is left to the name.
#[verifier::external_body]
fn compare_versions(a: &SemVersion, b: &SemVersion) -> (r: i8)
    ensures
        r == semver_order(a@, b@),
        r == -semver_order(b@, a@),
        -1 <= r <= 1,
        (r == 0) == (a@ == b@),
        forall|c: SemVer|
            r >= 0 && parsable(c) && #[trigger] semver_order(b@, c) >= 0 ==> semver_order(a@, c) >= 0,
        numeric_order(a@, b@) != 0 ==> r == numeric_order(a@, b@),
        numeric_order(a@, b@) == 0 && a@.pre.len() == 0 && b@.pre.len() > 0 ==> r == 1,
        numeric_order(a@, b@) == 0 && a@.pre.len() > 0 && b@.pre.len() == 0 ==> r == -1,
{
    match a.parsed.cmp(&b.parsed) {
        std::cmp::Ordering::Less => -1,
        std::cmp::Ordering::Equal => 0,
        std::cmp::Ordering::Greater => 1,
    }
}

/// How `semver::Version` displays a version: `major.minor.patch`, then
/// `-pre` and `+build` where they are present.
pub open spec fn version_text(v: SemVer) -> Seq<char> {
    decimal_text(v.major as nat) + "."@ + decimal_text(v.minor as nat) + "."@ + decimal_text(
        v.patch as nat,
    ) + (if v.pre.len() > 0 {
        "-"@ + v.pre
    } else {
        Seq::empty()
    }) + (if v.build.len() > 0 {
        "+"@ + v.build
    } else {
        Seq::empty()
    })
}

impl SemVersion {
    /// The version as `semver::Version` displays it.
    pub fn text(&self) -> (s: String)
        ensures
            s@ == version_text(self@),
    {
        let mut s = decimal_string(self.major);
        s.append(".");
        let minor = decimal_string(self.minor);
        s.append(minor.as_str());
        s.append(".");
        let patch = decimal_string(self.patch);
        s.append(patch.as_str());
        let ghost numbers = s@;
        if self.pre.as_str().unicode_len() > 0 {
            s.append("-");
            s.append(self.pre.as_str());
        }
        let ghost with_pre = s@;
        if self.build.as_str().unicode_len() > 0 {
            s.append("+");
            s.append(self.build.as_str());
        }
        proof {
            if self.pre@.len() > 0 {
                assert(with_pre == numbers + ("-"@ + self.pre@));
            } else {
                assert(with_pre == numbers + Seq::<char>::empty());
            }
            if self.build@.len() > 0 {
                assert(s@ == with_pre + ("+"@ + self.build@));
            } else {
                assert(s@ == with_pre + Seq::<char>::empty());
            }
        }
        s
    }
}

// ---------------------------------------------------------------------------
// Analysis of the releases of a package
// ---------------------------------------------------------------------------

/// One file of a release, as far as the analysis reads it.
#[derive(Debug, Clone)]
pub struct ReleaseInfo {
    /// Whether the file was withdrawn from the index.
    pub yanked: bool,
}

/// The outcome of comparing a package's current version with its releases.
#[derive(Debug, Clone, PartialEq)]
pub struct VersionAnalysis {
    /// The newest release taken into account (the current version where no
    /// release can be).
    pub latest: String,
    /// The newest release, among those taken into account, of another major
    /// line than `latest`.
    pub latest_major: Option<String>,
    /// The newest release, among those taken into account, that is newer
    /// than the current version and in its major line.
    pub latest_minor: Option<String>,
    /// Whether `latest` is newer than the current version.
    pub has_update: bool,
}

/// The content of a [`VersionAnalysis`].
pub struct AnalysisData {
    pub latest: Seq<char>,
    pub latest_major: Option<Seq<char>>,
    pub latest_minor: Option<Seq<char>>,
    pub has_update: bool,
}

/// The text of an optional string.
pub open spec fn optional_text(s: Option<String>) -> Option<Seq<char>> {
    match s {
        Some(t) => Some(t@),
        None => None,
    }
}

impl View for VersionAnalysis {
    type V = AnalysisData;

    open spec fn view(&self) -> AnalysisData {
        AnalysisData {
            latest: self.latest@,
            latest_major: optional_text(self.latest_major),
            latest_minor: optional_text(self.latest_minor),
            has_update: self.has_update,
        }
    }
}

/// Whether any file of a release was yanked.
pub open spec fn any_yanked(files: Seq<ReleaseInfo>) -> bool {
    exists|i: int| 0 <= i < files.len() && #[trigger] files[i].yanked
}

/// The version that a release contributes to the analysis: none if a file
/// of it was yanked, if its version does not parse, or if it is a
/// pre-release.
pub open spec fn release_candidate(text: Seq<char>, files: Seq<ReleaseInfo>) -> Option<SemVer> {
    if any_yanked(files) {
        None
    } else {
        match semver_parse(text) {
            Some(v) => if v.pre.len() == 0 {
                Some(v)
            } else {
                None
            },
            None => None,
        }
    }
}

/// The versions that the releases contribute, in the order of the releases.
pub open spec fn candidates(releases: Seq<(String, Vec<ReleaseInfo>)>) -> Seq<SemVer>
    decreases releases.len(),
{
    if releases.len() == 0 {
        Seq::empty()
    } else {
        let rest = candidates(releases.drop_last());
        match release_candidate(releases.last().0@, releases.last().1@) {
            Some(v) => rest.push(v),
            None => rest,
        }
    }
}

/// Whether versions are ordered from the newest to the oldest.
pub open spec fn newest_first(s: Seq<SemVer>) -> bool {
    forall|i: int, j: int|
        #![trigger s[i], s[j]]
        0 <= i < j < s.len() ==> semver_order(s[i], s[j]) >= 0
}

/// The analysis that stands for a current version that does not parse, or
/// for which no release can be taken into account.
pub open spec fn unchanged_analysis(current: Seq<char>) -> AnalysisData {
    AnalysisData { latest: current, latest_major: None, latest_minor: None, has_update: false }
}

/// `found` is the text of the newest version in `s` that satisfies `p`, or
/// `None` where no version in `s` satisfies it.
pub open spec fn newest_matching(
    found: Option<Seq<char>>,
    s: Seq<SemVer>,
    p: spec_fn(SemVer) -> bool,
) -> bool {
    match found {
        None => forall|j: int| 0 <= j < s.len() ==> !p(#[trigger] s[j]),
        Some(t) => exists|i: int|
            #![trigger s[i]]
            0 <= i < s.len() && p(s[i]) && t == version_text(s[i]) && forall|j: int|
                0 <= j < s.len() && j != i && p(#[trigger] s[j]) ==> semver_order(s[i], s[j]) >= 0,
    }
}

/// The analysis of `kept`, the newest releases ordered newest first,
/// against the current version `cur` (written `current`).
pub open spec fn analysis_of(
    a: AnalysisData,
    current: Seq<char>,
    cur: SemVer,
    kept: Seq<SemVer>,
) -> bool {
    if kept.len() == 0 {
        a == unchanged_analysis(current)
    } else {
        let latest = kept[0];
        &&& a.latest == version_text(latest)
        &&& a.has_update == (semver_order(latest, cur) > 0)
        &&& if a.has_update {
            &&& newest_matching(a.latest_major, kept, |v: SemVer| v.major != latest.major)
            &&& newest_matching(
                a.latest_minor,
                kept,
                |v: SemVer| v.major == cur.major && semver_order(v, cur) > 0,
            )
        } else {
            a.latest_major is None && a.latest_minor is None
        }
    }
}

/// How many versions are kept of `len`, at most `max`.
pub open spec fn kept_count(max: nat, len: nat) -> int {
    if max < len {
        max as int
    } else {
        len as int
    }
}

/// Whether `a` is the analysis of `current` against `releases`, taking
/// into account the `max` newest versions that the releases contribute.
pub open spec fn is_version_analysis(
    a: AnalysisData,
    current: Seq<char>,
    releases: Seq<(String, Vec<ReleaseInfo>)>,
    max: nat,
) -> bool {
    match semver_parse(current) {
        None => a == unchanged_analysis(current),
        Some(cur) => exists|sorted: Seq<SemVer>|
            #![trigger newest_first(sorted)]
            sorted.to_multiset() == candidates(releases).to_multiset() && newest_first(sorted)
                && analysis_of(a, current, cur, sorted.take(kept_count(max, sorted.len()))),
    }
}

/// Whether every version in `s` is the parse of some text.
pub open spec fn all_parsable(s: Seq<SemVer>) -> bool {
    forall|i: int| 0 <= i < s.len() ==> parsable(#[trigger] s[i])
}

/// The contents of a list of versions.
pub open spec fn version_views(s: Seq<SemVersion>) -> Seq<SemVer> {
    s.map_values(|v: SemVersion| v@)
}

fn yanked_any(files: &Vec<ReleaseInfo>) -> (r: bool)
    ensures
        r == any_yanked(files@),
{
    let mut i: usize = 0;
    while i < files.len()
        invariant
            i <= files.len(),
            forall|k: int| 0 <= k < i ==> !(#[trigger] files@[k]).yanked,
        decreases files.len() - i,
    {
        if files[i].yanked {
            return true;
        }
        i = i + 1;
    }
    false
}

/// Inserts `v` into a list that is ordered newest first, after the versions
/// that are not older than it.
fn insert_newest_first(sorted: &mut Vec<SemVersion>, v: SemVersion)
    requires
        newest_first(version_views(old(sorted)@)),
        all_parsable(version_views(old(sorted)@)),
        parsable(v@),
    ensures
        newest_first(version_views(final(sorted)@)),
        all_parsable(version_views(final(sorted)@)),
        version_views(final(sorted)@).to_multiset() == version_views(old(sorted)@).to_multiset().insert(
            v@,
        ),
{
    let ghost s = version_views(sorted@);
    let len = sorted.len();
    let mut p: usize = 0;
    while p < len
        invariant_except_break
            p <= len,
            len == sorted@.len(),
            s == version_views(sorted@),
            forall|i: int| 0 <= i < p ==> semver_order(#[trigger] s[i], v@) >= 0,
        ensures
            p <= len,
            s == version_views(sorted@),
            forall|i: int| 0 <= i < p ==> semver_order(#[trigger] s[i], v@) >= 0,
            p < len ==> semver_order(v@, s[p as int]) > 0,
            p < len ==> forall|c: SemVer|
                parsable(c) && #[trigger] semver_order(s[p as int], c) >= 0 ==> semver_order(v@, c)
                    >= 0,
        decreases len - p,
    {
        let r = compare_versions(&v, &sorted[p]);
        if r > 0 {
            break;
        }
        p = p + 1;
    }
    proof {
        if p < len {
            assert(semver_order(v@, s[p as int]) > 0);
            assert forall|j: int| p <= j < s.len() implies semver_order(v@, #[trigger] s[j]) >= 0 by {
                if j > p {
                    assert(semver_order(s[p as int], s[j]) >= 0);
                }
            }
        }
    }
    let ghost vv = v@;
    sorted.insert(p, v);
    proof {
        let t = version_views(sorted@);
        assert(t =~= s.insert(p as int, vv));
        vstd::seq_lib::to_multiset_insert(s, p as int, vv);
        assert forall|i: int| 0 <= i < t.len() implies parsable(#[trigger] t[i]) by {
            if i < p {
                assert(t[i] == s[i]);
            } else if i > p {
                assert(t[i] == s[i - 1]);
            }
        }
        assert forall|i: int, j: int| 0 <= i < j < t.len() implies semver_order(
            #[trigger] t[i],
            #[trigger] t[j],
        ) >= 0 by {
            if i < p && j < p {
                assert(t[i] == s[i] && t[j] == s[j]);
            } else if i < p && j == p {
                assert(t[i] == s[i] && t[j] == vv);
            } else if i < p {
                assert(t[i] == s[i] && t[j] == s[j - 1]);
            } else if i == p {
                assert(t[i] == vv && t[j] == s[j - 1]);
            } else {
                assert(t[i] == s[i - 1] && t[j] == s[j - 1]);
            }
        }
    }
}

/// The position of the first version, after the first one, whose major
/// number differs from the first one's.
fn first_other_major(sorted: &Vec<SemVersion>) -> (r: Option<usize>)
    requires
        sorted@.len() > 0,
    ensures
        match r {
            Some(j) => 1 <= j < sorted@.len() && version_views(sorted@)[j as int].major
                != version_views(sorted@)[0].major && forall|k: int|
                0 <= k < j ==> (#[trigger] version_views(sorted@)[k]).major == version_views(
                    sorted@,
                )[0].major,
            None => forall|k: int|
                0 <= k < sorted@.len() ==> (#[trigger] version_views(sorted@)[k]).major
                    == version_views(sorted@)[0].major,
        },
{
    let ghost vs = version_views(sorted@);
    let n = sorted.len();
    let mut j: usize = 1;
    while j < n
        invariant
            1 <= j <= n,
            n == sorted@.len(),
            vs == version_views(sorted@),
            forall|k: int| 0 <= k < j ==> (#[trigger] vs[k]).major == vs[0].major,
        decreases n - j,
    {
        if sorted[j].major != sorted[0].major {
            return Some(j);
        }
        j = j + 1;
    }
    None
}

/// The position of the first version in the major line of `current` that is
/// newer than `current`.
fn first_newer_in_line(sorted: &Vec<SemVersion>, current: &SemVersion) -> (r: Option<usize>)
    ensures
        match r {
            Some(j) => j < sorted@.len() && version_views(sorted@)[j as int].major == current@.major
                && semver_order(version_views(sorted@)[j as int], current@) > 0 && forall|k: int|
                0 <= k < j ==> !((#[trigger] version_views(sorted@)[k]).major == current@.major
                    && semver_order(version_views(sorted@)[k], current@) > 0),
            None => forall|k: int|
                0 <= k < sorted@.len() ==> !((#[trigger] version_views(sorted@)[k]).major
                    == current@.major && semver_order(version_views(sorted@)[k], current@) > 0),
        },
{
    let ghost vs = version_views(sorted@);
    let n = sorted.len();
    let mut j: usize = 0;
    while j < n
        invariant
            j <= n,
            n == sorted@.len(),
            vs == version_views(sorted@),
            forall|k: int|
                0 <= k < j ==> !((#[trigger] vs[k]).major == current@.major && semver_order(
                    vs[k],
                    current@,
                ) > 0),
        decreases n - j,
    {
        if sorted[j].major == current.major {
            if compare_versions(&sorted[j], current) > 0 {
                return Some(j);
            }
        }
        j = j + 1;
    }
    None
}

/// A release after parsing: the version its text parses to (`None` where
/// it does not parse, or where it was not parsed because a file of it was
/// yanked), and whether a file of it was yanked.
pub struct ParsedRelease {
    pub version: Option<SemVersion>,
    pub yanked: bool,
}

/// The content of a [`ParsedRelease`].
pub struct ParsedReleaseData {
    pub version: Option<SemVer>,
    pub yanked: bool,
}

/// The content of an optional version.
pub open spec fn optional_version(v: Option<SemVersion>) -> Option<SemVer> {
    match v {
        Some(x) => Some(x@),
        None => None,
    }
}

impl View for ParsedRelease {
    type V = ParsedReleaseData;

    open spec fn view(&self) -> ParsedReleaseData {
        ParsedReleaseData { version: optional_version(self.version), yanked: self.yanked }
    }
}

/// The contents of a list of parsed releases.
pub open spec fn parsed_views(s: Seq<ParsedRelease>) -> Seq<ParsedReleaseData> {
    s.map_values(|p: ParsedRelease| p@)
}

/// The version that a parsed release contributes: none if it was yanked,
/// did not parse, or is a pre-release.
pub open spec fn parsed_candidate(p: ParsedReleaseData) -> Option<SemVer> {
    if p.yanked {
        None
    } else {
        match p.version {
            Some(v) => if v.pre.len() == 0 {
                Some(v)
            } else {
                None
            },
            None => None,
        }
    }
}

/// The versions that parsed releases contribute, in order.
pub open spec fn parsed_candidates(s: Seq<ParsedReleaseData>) -> Seq<SemVer>
    decreases s.len(),
{
    if s.len() == 0 {
        Seq::empty()
    } else {
        let rest = parsed_candidates(s.drop_last());
        match parsed_candidate(s.last()) {
            Some(v) => rest.push(v),
            None => rest,
        }
    }
}

/// Whether `a` is the analysis of the current version (its text `current`,
/// and `cur`, what it parses to) against parsed releases, taking into
/// account the `max` newest versions that they contribute.
pub open spec fn is_parsed_analysis(
    a: AnalysisData,
    current: Seq<char>,
    cur: Option<SemVer>,
    parsed: Seq<ParsedReleaseData>,
    max: nat,
) -> bool {
    match cur {
        None => a == unchanged_analysis(current),
        Some(c) => exists|sorted: Seq<SemVer>|
            #![trigger newest_first(sorted)]
            sorted.to_multiset() == parsed_candidates(parsed).to_multiset() && newest_first(sorted)
                && analysis_of(a, current, c, sorted.take(kept_count(max, sorted.len()))),
    }
}

/// Whether parsed releases are those of `releases`, one for one.
pub open spec fn parses_of(
    parsed: Seq<ParsedReleaseData>,
    releases: Seq<(String, Vec<ReleaseInfo>)>,
) -> bool {
    &&& parsed.len() == releases.len()
    &&& forall|i: int|
        0 <= i < parsed.len() ==> #[trigger] parsed_candidate(parsed[i]) == release_candidate(
            releases[i].0@,
            releases[i].1@,
        )
}

proof fn lemma_parses_give_candidates(
    parsed: Seq<ParsedReleaseData>,
    releases: Seq<(String, Vec<ReleaseInfo>)>,
)
    requires
        parses_of(parsed, releases),
    ensures
        parsed_candidates(parsed) == candidates(releases),
    decreases parsed.len(),
{
    if parsed.len() > 0 {
        let last = parsed.len() - 1;
        assert(parsed_candidate(parsed[last]) == release_candidate(
            releases[last].0@,
            releases[last].1@,
        ));
        lemma_parses_give_candidates(parsed.drop_last(), releases.drop_last());
    }
}

/// Analyses parsed releases against the current version, which parsed to
/// `current` (`None` where it does not parse).
///
/// A release is taken into account where none of its files was yanked and
/// its version parsed and is not a pre-release; of those, the
/// `max_versions` newest are kept. Where the current version does not
/// parse, or no release is kept, the result repeats the current version and
/// reports no update.
pub fn analyze_parsed(
    current_version: &str,
    current: Option<SemVersion>,
    parsed: Vec<ParsedRelease>,
    max_versions: usize,
) -> (r: VersionAnalysis)
    ensures
        is_parsed_analysis(
            r@,
            current_version@,
            optional_version(current),
            parsed_views(parsed@),
            max_versions as nat,
        ),
{
    let current = match current {
        Some(v) => v,
        None => {
            return VersionAnalysis {
                latest: String::from_str(current_version),
                latest_major: None,
                latest_minor: None,
                has_update: false,
            };
        },
    };
    let ghost whole = parsed_views(parsed@);
    let mut rest = parsed;
    let ghost mut done: int = 0;
    let mut sorted: Vec<SemVersion> = Vec::new();
    while rest.len() > 0
        invariant
            0 <= done <= whole.len(),
            parsed_views(rest@) == whole.skip(done),
            newest_first(version_views(sorted@)),
            all_parsable(version_views(sorted@)),
            version_views(sorted@).to_multiset() == parsed_candidates(whole.take(done)).to_multiset(),
        decreases rest.len(),
    {
        let ghost before = parsed_views(rest@);
        let p = rest.remove(0);
        proof {
            assert(parsed_views(rest@) =~= before.drop_first());
            assert(before[0] == p@);
            assert(whole.skip(done)[0] == whole[done]);
            assert(whole.take(done + 1).drop_last() =~= whole.take(done));
            assert(whole.take(done + 1).last() == whole[done]);
            assert(whole.skip(done + 1) =~= whole.skip(done).drop_first());
        }
        if !p.yanked {
            match p.version {
                Some(v) => {
                    proof {
                        use_type_invariant(&v);
                    }
                    if v.pre.as_str().unicode_len() == 0 {
                        insert_newest_first(&mut sorted, v);
                    }
                },
                None => {},
            }
        }
        proof {
            done = done + 1;
        }
    }
    assert(whole.take(done) =~= whole);
    let ghost all = version_views(sorted@);
    let keep = if max_versions < sorted.len() {
        max_versions
    } else {
        sorted.len()
    };
    sorted.truncate(keep);
    let ghost kept = version_views(sorted@);
    assert(kept =~= all.take(kept_count(max_versions as nat, all.len())));
    if sorted.len() == 0 {
        let r = VersionAnalysis {
            latest: String::from_str(current_version),
            latest_major: None,
            latest_minor: None,
            has_update: false,
        };
        assert(analysis_of(r@, current_version@, current@, kept));
        return r;
    }
    let has_update = compare_versions(&sorted[0], &current) > 0;
    let mut latest_major: Option<String> = None;
    let mut latest_minor: Option<String> = None;
    proof {
        assert forall|i: int, j: int| 0 <= i < j < kept.len() implies semver_order(
            #[trigger] kept[i],
            #[trigger] kept[j],
        ) >= 0 by {
            assert(kept[i] == all[i] && kept[j] == all[j]);
        }
    }
    if has_update {
        let ghost top = kept[0];
        let ghost cur = current@;
        match first_other_major(&sorted) {
            Some(j) => {
                latest_major = Some(sorted[j].text());
                proof {
                    assert forall|k: int|
                        0 <= k < kept.len() && k != j && (#[trigger] kept[k]).major
                            != top.major implies semver_order(kept[j as int], kept[k]) >= 0 by {
                        if k < j {
                            assert(kept[k].major == top.major);
                        }
                    }
                }
            },
            None => {},
        }
        match first_newer_in_line(&sorted, &current) {
            Some(j) => {
                latest_minor = Some(sorted[j].text());
                proof {
                    assert forall|k: int|
                        0 <= k < kept.len() && k != j && (#[trigger] kept[k]).major == cur.major
                            && semver_order(kept[k], cur) > 0 implies semver_order(
                        kept[j as int],
                        kept[k],
                    ) >= 0 by {
                        if k < j {
                            assert(!(kept[k].major == cur.major && semver_order(kept[k], cur) > 0));
                        }
                    }
                }
            },
            None => {},
        }
    }
    let r = VersionAnalysis { latest: sorted[0].text(), latest_major, latest_minor, has_update };
    assert(analysis_of(r@, current_version@, current@, kept));
    r
}


/// Analyses the releases of a package against its current version: parses
/// the current version and the version of each release whose files were not
/// yanked, and analyses them with [`analyze_parsed`]. The result is the only
/// analysis of the releases: any analysis of the same current version,
/// releases and limit equals it.
pub fn analyze_versions(
    current_version: &str,
    releases: &Vec<(String, Vec<ReleaseInfo>)>,
    max_versions: usize,
) -> (r: VersionAnalysis)
    ensures
        is_version_analysis(r@, current_version@, releases@, max_versions as nat),
        forall|a: AnalysisData|
            #[trigger] is_version_analysis(a, current_version@, releases@, max_versions as nat) ==> a
                == r@,
{
    let current = SemVersion::parse(current_version);
    let mut parsed: Vec<ParsedRelease> = Vec::new();
    let mut i: usize = 0;
    while i < releases.len()
        invariant
            i <= releases.len(),
            parses_of(parsed_views(parsed@), releases@.take(i as int)),
            forall|k: int|
                0 <= k < i ==> (#[trigger] release_candidate(releases@[k].0@, releases@[k].1@) matches Some(
                    x,
                ) ==> well_ordered(x)),
        decreases releases.len() - i,
    {
        let text = &releases[i].0;
        let files = &releases[i].1;
        let yanked = yanked_any(files);
        let version = if yanked {
            None
        } else {
            SemVersion::parse(text.as_str())
        };
        proof {
            if version is Some {
                let v = version->Some_0;
                assert(semver_parse(text@) == Some(v@));
                assert(parsable(v@));
            }
            assert(release_candidate(releases@[i as int].0@, releases@[i as int].1@) matches Some(x)
                ==> well_ordered(x));
        }
        let p = ParsedRelease { version, yanked };
        let ghost before = parsed_views(parsed@);
        parsed.push(p);
        proof {
            let now = parsed_views(parsed@);
            let prefix = releases@.take(i as int + 1);
            assert(now =~= before.push(p@));
            assert forall|k: int| 0 <= k < now.len() implies #[trigger] parsed_candidate(now[k])
                == release_candidate(prefix[k].0@, prefix[k].1@) by {
                if k < i {
                    assert(now[k] == before[k]);
                    assert(prefix[k] == releases@.take(i as int)[k]);
                }
            }
        }
        i = i + 1;
    }
    assert(releases@.take(releases.len() as int) =~= releases@);
    proof {
        lemma_parses_give_candidates(parsed_views(parsed@), releases@);
        lemma_candidates_well_ordered(releases@);
    }
    let r = analyze_parsed(current_version, current, parsed, max_versions);
    proof {
        assert forall|a: AnalysisData|
            #[trigger] is_version_analysis(a, current_version@, releases@, max_versions as nat) implies a
                == r@ by {
            lemma_analysis_unique(r@, a, current_version@, releases@, max_versions as nat);
        }
    }
    r
}

// ---------------------------------------------------------------------------
// Uniqueness of the analysis
// ---------------------------------------------------------------------------

proof fn lemma_candidates_well_ordered(releases: Seq<(String, Vec<ReleaseInfo>)>)
    requires
        forall|k: int|
            0 <= k < releases.len() ==> (#[trigger] release_candidate(releases[k].0@, releases[k].1@) matches Some(
                x,
            ) ==> well_ordered(x)),
    ensures
        all_well_ordered(candidates(releases)),
    decreases releases.len(),
{
    if releases.len() > 0 {
        let rest = releases.drop_last();
        assert forall|k: int|
            0 <= k < rest.len() implies (#[trigger] release_candidate(rest[k].0@, rest[k].1@) matches Some(
                x,
            ) ==> well_ordered(x)) by {
            assert(rest[k] == releases[k]);
        }
        lemma_candidates_well_ordered(rest);
        let last = releases.len() - 1;
        assert(release_candidate(releases[last].0@, releases[last].1@) matches Some(x) ==> well_ordered(
            x,
        ));
    }
}

proof fn lemma_permutation_well_ordered(s: Seq<SemVer>, t: Seq<SemVer>)
    requires
        s.to_multiset() == t.to_multiset(),
        all_well_ordered(t),
    ensures
        all_well_ordered(s),
{
    assert forall|i: int| 0 <= i < s.len() implies well_ordered(#[trigger] s[i]) by {
        assert(s.contains(s[i]));
        assert(s.to_multiset().count(s[i]) > 0);
        assert(t.to_multiset().count(s[i]) > 0);
        assert(t.contains(s[i]));
        let k = choose|k: int| 0 <= k < t.len() && t[k] == s[i];
        assert(well_ordered(t[k]));
    }
}

proof fn lemma_tail_newest_first(s: Seq<SemVer>)
    requires
        newest_first(s),
        s.len() > 0,
    ensures
        newest_first(s.drop_first()),
{
    let t = s.drop_first();
    assert forall|i: int, j: int| 0 <= i < j < t.len() implies semver_order(
        #[trigger] t[i],
        #[trigger] t[j],
    ) >= 0 by {
        assert(t[i] == s[i + 1] && t[j] == s[j + 1]);
    }
}

/// Two orderings, newest first, of the same versions are the same sequence.
proof fn lemma_sorted_unique(s1: Seq<SemVer>, s2: Seq<SemVer>)
    requires
        s1.to_multiset() == s2.to_multiset(),
        newest_first(s1),
        newest_first(s2),
        all_well_ordered(s1),
    ensures
        s1 == s2,
    decreases s1.len(),
{
    assert(s1.len() == s1.to_multiset().len());
    assert(s2.len() == s2.to_multiset().len());
    if s1.len() == 0 {
        assert(s1 =~= s2);
    } else {
        let x = s1[0];
        let y = s2[0];
        assert(s1.contains(x));
        assert(s1.to_multiset().count(x) > 0);
        assert(s2.to_multiset().count(x) > 0);
        assert(s2.contains(x));
        let j = choose|j: int| 0 <= j < s2.len() && s2[j] == x;
        assert(s2.contains(y));
        assert(s2.to_multiset().count(y) > 0);
        assert(s1.to_multiset().count(y) > 0);
        assert(s1.contains(y));
        let i = choose|i: int| 0 <= i < s1.len() && s1[i] == y;
        assert(well_ordered(s1[0]));
        assert(well_ordered(s1[i]));
        if x != y {
            assert(j != 0 && i != 0);
            assert(semver_order(s2[0], s2[j]) >= 0);
            assert(semver_order(s1[0], s1[i]) >= 0);
            assert(semver_order(x, y) == -semver_order(y, x));
            assert((semver_order(x, y) == 0) == (x == y));
            assert(false);
        }
        let t1 = s1.drop_first();
        let t2 = s2.drop_first();
        assert(s1.remove(0) =~= t1);
        assert(s2.remove(0) =~= t2);
        assert(s1.remove(0).to_multiset() == s1.to_multiset().remove(s1[0]));
        assert(s2.remove(0).to_multiset() == s2.to_multiset().remove(s2[0]));
        lemma_tail_newest_first(s1);
        lemma_tail_newest_first(s2);
        assert forall|k: int| 0 <= k < t1.len() implies well_ordered(#[trigger] t1[k]) by {
            assert(t1[k] == s1[k + 1]);
        }
        lemma_sorted_unique(t1, t2);
        assert forall|k: int| 0 <= k < s1.len() implies s1[k] == s2[k] by {
            if k > 0 {
                assert(s1[k] == t1[k - 1] && s2[k] == t2[k - 1]);
            }
        }
        assert(s1 =~= s2);
    }
}

proof fn lemma_newest_matching_unique(
    f1: Option<Seq<char>>,
    f2: Option<Seq<char>>,
    s: Seq<SemVer>,
    p: spec_fn(SemVer) -> bool,
)
    requires
        newest_matching(f1, s, p),
        newest_matching(f2, s, p),
        all_well_ordered(s),
    ensures
        f1 == f2,
{
    match f1 {
        None => {
            if let Some(t2) = f2 {
                let i = choose|i: int|
                    #![trigger s[i]]
                    0 <= i < s.len() && p(s[i]) && t2 == version_text(s[i]) && forall|j: int|
                        0 <= j < s.len() && j != i && p(#[trigger] s[j]) ==> semver_order(s[i], s[j])
                            >= 0;
                assert(!p(s[i]));
            }
        },
        Some(t1) => {
            let i1 = choose|i: int|
                #![trigger s[i]]
                0 <= i < s.len() && p(s[i]) && t1 == version_text(s[i]) && forall|j: int|
                    0 <= j < s.len() && j != i && p(#[trigger] s[j]) ==> semver_order(s[i], s[j]) >= 0;
            match f2 {
                None => {
                    assert(!p(s[i1]));
                },
                Some(t2) => {
                    let i2 = choose|i: int|
                        #![trigger s[i]]
                        0 <= i < s.len() && p(s[i]) && t2 == version_text(s[i]) && forall|j: int|
                            0 <= j < s.len() && j != i && p(#[trigger] s[j]) ==> semver_order(s[i], s[j])
                                >= 0;
                    if i1 != i2 {
                        assert(semver_order(s[i1], s[i2]) >= 0);
                        assert(semver_order(s[i2], s[i1]) >= 0);
                        assert(well_ordered(s[i1]));
                        assert(well_ordered(s[i2]));
                        assert(semver_order(s[i1], s[i2]) == -semver_order(s[i2], s[i1]));
                        assert(s[i1] == s[i2]);
                    }
                },
            }
        },
    }
}

proof fn lemma_kept_analysis_unique(
    a1: AnalysisData,
    a2: AnalysisData,
    current: Seq<char>,
    cur: SemVer,
    kept: Seq<SemVer>,
)
    requires
        analysis_of(a1, current, cur, kept),
        analysis_of(a2, current, cur, kept),
        all_well_ordered(kept),
    ensures
        a1 == a2,
{
    if kept.len() > 0 {
        let latest = kept[0];
        if a1.has_update {
            lemma_newest_matching_unique(
                a1.latest_major,
                a2.latest_major,
                kept,
                |v: SemVer| v.major != latest.major,
            );
            lemma_newest_matching_unique(
                a1.latest_minor,
                a2.latest_minor,
                kept,
                |v: SemVer| v.major == cur.major && semver_order(v, cur) > 0,
            );
        }
    }
}

/// Where every version that the releases contribute is well ordered, the
/// analysis of the releases is unique.
proof fn lemma_analysis_unique(
    a1: AnalysisData,
    a2: AnalysisData,
    current: Seq<char>,
    releases: Seq<(String, Vec<ReleaseInfo>)>,
    max: nat,
)
    requires
        is_version_analysis(a1, current, releases, max),
        is_version_analysis(a2, current, releases, max),
        all_well_ordered(candidates(releases)),
    ensures
        a1 == a2,
{
    if let Some(cur) = semver_parse(current) {
        let s1 = choose|sorted: Seq<SemVer>|
            #![trigger newest_first(sorted)]
            sorted.to_multiset() == candidates(releases).to_multiset() && newest_first(sorted)
                && analysis_of(a1, current, cur, sorted.take(kept_count(max, sorted.len())));
        let s2 = choose|sorted: Seq<SemVer>|
            #![trigger newest_first(sorted)]
            sorted.to_multiset() == candidates(releases).to_multiset() && newest_first(sorted)
                && analysis_of(a2, current, cur, sorted.take(kept_count(max, sorted.len())));
        lemma_permutation_well_ordered(s1, candidates(releases));
        lemma_sorted_unique(s1, s2);
        let kept = s1.take(kept_count(max, s1.len()));
        assert forall|k: int| 0 <= k < kept.len() implies well_ordered(#[trigger] kept[k]) by {
            assert(kept[k] == s1[k]);
        }
        lemma_kept_analysis_unique(a1, a2, current, cur, kept);
    }
}

// ---------------------------------------------------------------------------
// Laws of the analysis
// ---------------------------------------------------------------------------

proof fn lemma_candidates_concat(
    s: Seq<(String, Vec<ReleaseInfo>)>,
    t: Seq<(String, Vec<ReleaseInfo>)>,
)
    ensures
        candidates(s + t) == candidates(s) + candidates(t),
    decreases t.len(),
{
    if t.len() == 0 {
        assert(s + t =~= s);
        assert(candidates(s) + candidates(t) =~= candidates(s));
    } else {
        lemma_candidates_concat(s, t.drop_last());
        assert((s + t).drop_last() =~= s + t.drop_last());
        assert((s + t).last() == t.last());
        match release_candidate(t.last().0@, t.last().1@) {
            Some(v) => {
                assert((candidates(s) + candidates(t.drop_last())).push(v) =~= candidates(s)
                    + candidates(t.drop_last()).push(v));
            },
            None => {},
        }
    }
}

proof fn lemma_candidates_multiset(
    r1: Seq<(String, Vec<ReleaseInfo>)>,
    r2: Seq<(String, Vec<ReleaseInfo>)>,
)
    requires
        r1.to_multiset() == r2.to_multiset(),
    ensures
        candidates(r1).to_multiset() == candidates(r2).to_multiset(),
    decreases r1.len(),
{
    broadcast use vstd::multiset::group_multiset_axioms;

    if r1.len() == 0 {
        assert(r2.to_multiset().len() == 0);
        assert(r2.len() == 0);
        assert(r1 =~= r2);
    } else {
        let x = r1.last();
        let r1p = r1.drop_last();
        assert(r1p.push(x) =~= r1);
        assert(r1.to_multiset().count(x) > 0);
        assert(r2.contains(x));
        let k = choose|k: int| 0 <= k < r2.len() && r2[k] == x;
        let r2p = r2.remove(k);
        assert(r2p.to_multiset() =~= r2.to_multiset().remove(x));
        assert(r1p.to_multiset() =~= r1.to_multiset().remove(x));
        lemma_candidates_multiset(r1p, r2p);
        let a = r2.subrange(0, k);
        let b = r2.subrange(k + 1, r2.len() as int);
        let one = seq![x];
        assert(r2 =~= a + one + b);
        assert(r2p =~= a + b);
        lemma_candidates_concat(a + one, b);
        lemma_candidates_concat(a, one);
        lemma_candidates_concat(a, b);
        lemma_candidates_concat(r1p, one);
        assert(r1p + one =~= r1);
        vstd::seq_lib::lemma_multiset_commutative(candidates(a) + candidates(one), candidates(b));
        vstd::seq_lib::lemma_multiset_commutative(candidates(a), candidates(one));
        vstd::seq_lib::lemma_multiset_commutative(candidates(a), candidates(b));
        vstd::seq_lib::lemma_multiset_commutative(candidates(r1p), candidates(one));
        assert(candidates(r2).to_multiset() =~= candidates(r2p).to_multiset().add(
            candidates(one).to_multiset(),
        ));
    }
}

/// The order of the releases does not matter: releases that hold the same
/// entries, in any order, give the same analyses.
pub proof fn law_release_order_is_irrelevant(
    a: AnalysisData,
    current: Seq<char>,
    r1: Seq<(String, Vec<ReleaseInfo>)>,
    r2: Seq<(String, Vec<ReleaseInfo>)>,
    max: nat,
)
    requires
        r1.to_multiset() == r2.to_multiset(),
    ensures
        is_version_analysis(a, current, r1, max) == is_version_analysis(a, current, r2, max),
{
    lemma_candidates_multiset(r1, r2);
}

/// Without an update, the analysis recommends nothing.
pub proof fn law_no_update_no_recommendation(
    a: AnalysisData,
    current: Seq<char>,
    releases: Seq<(String, Vec<ReleaseInfo>)>,
    max: nat,
)
    requires
        is_version_analysis(a, current, releases, max),
        !a.has_update,
    ensures
        a.latest_major is None,
        a.latest_minor is None,
{
    if let Some(cur) = semver_parse(current) {
        let sorted = choose|sorted: Seq<SemVer>|
            #![trigger newest_first(sorted)]
            sorted.to_multiset() == candidates(releases).to_multiset() && newest_first(sorted)
                && analysis_of(a, current, cur, sorted.take(kept_count(max, sorted.len())));
        let kept = sorted.take(kept_count(max, sorted.len()));
        assert(analysis_of(a, current, cur, kept));
    }
}

/// An unparsable current version is never reported as outdated.
pub proof fn law_update_needs_parsable_current(
    a: AnalysisData,
    current: Seq<char>,
    releases: Seq<(String, Vec<ReleaseInfo>)>,
    max: nat,
)
    requires
        is_version_analysis(a, current, releases, max),
        a.has_update,
    ensures
        semver_parse(current) is Some,
{
}

proof fn lemma_candidate_source(releases: Seq<(String, Vec<ReleaseInfo>)>, v: SemVer)
    requires
        candidates(releases).contains(v),
    ensures
        exists|i: int|
            0 <= i < releases.len() && #[trigger] release_candidate(releases[i].0@, releases[i].1@)
                == Some(v),
    decreases releases.len(),
{
    let rest = releases.drop_last();
    let last = releases.len() - 1;
    if release_candidate(releases[last].0@, releases[last].1@) == Some(v) {
    } else {
        assert(candidates(rest).contains(v)) by {
            let k = choose|k: int| 0 <= k < candidates(releases).len() && candidates(releases)[k] == v;
            match release_candidate(releases.last().0@, releases.last().1@) {
                Some(w) => {
                    assert(k < candidates(rest).len());
                    assert(candidates(rest)[k] == v);
                },
                None => {},
            }
        }
        lemma_candidate_source(rest, v);
        let i = choose|i: int|
            0 <= i < rest.len() && #[trigger] release_candidate(rest[i].0@, rest[i].1@) == Some(v);
        assert(releases[i] == rest[i]);
    }
}

/// Whether a release is taken into account and its version displays as `t`.
pub open spec fn release_shown_as(r: (String, Vec<ReleaseInfo>), t: Seq<char>) -> bool {
    match release_candidate(r.0@, r.1@) {
        Some(v) => version_text(v) == t,
        None => false,
    }
}

/// A version that the analysis reports as newer than the current one is
/// the version of a release whose files are not yanked, whose version
/// parses, and which is not a pre-release.
pub proof fn law_reported_versions_are_releases(
    a: AnalysisData,
    current: Seq<char>,
    releases: Seq<(String, Vec<ReleaseInfo>)>,
    max: nat,
)
    requires
        is_version_analysis(a, current, releases, max),
    ensures
        a.has_update ==> exists|i: int|
            0 <= i < releases.len() && #[trigger] release_shown_as(releases[i], a.latest),
        a.latest_major matches Some(t) ==> exists|i: int|
            0 <= i < releases.len() && #[trigger] release_shown_as(releases[i], t),
        a.latest_minor matches Some(t) ==> exists|i: int|
            0 <= i < releases.len() && #[trigger] release_shown_as(releases[i], t),
{
    if let Some(cur) = semver_parse(current) {
        let sorted = choose|sorted: Seq<SemVer>|
            #![trigger newest_first(sorted)]
            sorted.to_multiset() == candidates(releases).to_multiset() && newest_first(sorted)
                && analysis_of(a, current, cur, sorted.take(kept_count(max, sorted.len())));
        let kept = sorted.take(kept_count(max, sorted.len()));
        assert(analysis_of(a, current, cur, kept));
        assert forall|j: int| 0 <= j < kept.len() implies exists|i: int|
            0 <= i < releases.len() && #[trigger] release_candidate(releases[i].0@, releases[i].1@)
                == Some(#[trigger] kept[j]) by {
            assert(kept[j] == sorted[j]);
            assert(sorted.contains(sorted[j]));
            assert(sorted.to_multiset().count(sorted[j]) > 0);
            assert(candidates(releases).contains(sorted[j]));
            lemma_candidate_source(releases, sorted[j]);
        }
        if a.has_update {
            assert(kept.len() > 0);
            let i = choose|i: int|
                0 <= i < releases.len() && #[trigger] release_candidate(releases[i].0@, releases[i].1@)
                    == Some(kept[0]);
            assert(release_shown_as(releases[i], a.latest));
            if let Some(t) = a.latest_major {
                let latest = kept[0];
                let j = choose|j: int|
                    #![trigger kept[j]]
                    0 <= j < kept.len() && (|v: SemVer| v.major != latest.major)(kept[j]) && t
                        == version_text(kept[j]) && forall|k: int|
                        0 <= k < kept.len() && k != j && (|v: SemVer| v.major != latest.major)(
                            #[trigger] kept[k],
                        ) ==> semver_order(kept[j], kept[k]) >= 0;
                let i = choose|i: int|
                    0 <= i < releases.len() && #[trigger] release_candidate(releases[i].0@, releases[i].1@)
                        == Some(kept[j]);
                assert(release_shown_as(releases[i], t));
            }
            if let Some(t) = a.latest_minor {
                let j = choose|j: int|
                    #![trigger kept[j]]
                    0 <= j < kept.len() && (|v: SemVer| v.major == cur.major && semver_order(v, cur) > 0)(
                        kept[j],
                    ) && t == version_text(kept[j]) && forall|k: int|
                        0 <= k < kept.len() && k != j && (|v: SemVer|
                            v.major == cur.major && semver_order(v, cur) > 0)(#[trigger] kept[k])
                            ==> semver_order(kept[j], kept[k]) >= 0;
                let i = choose|i: int|
                    0 <= i < releases.len() && #[trigger] release_candidate(releases[i].0@, releases[i].1@)
                        == Some(kept[j]);
                assert(release_shown_as(releases[i], t));
            }
        }
    }
}

/// Exactly the `max` newest versions are taken into account, or all of them
/// where there are fewer: the count is the smaller of the limit and the
/// number of versions.
pub proof fn law_kept_is_min_of_limit_and_count(max: nat, len: nat)
    ensures
        0 <= kept_count(max, len) <= len,
        kept_count(max, len) <= max,
        kept_count(max, len) == max || kept_count(max, len) == len,
{
}

} // verus!
