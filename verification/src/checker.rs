//! Checking one package: what a PyPI answer means, how failed requests are
//! retried, what the result of a check is, and which results are reported.

use vstd::prelude::*;
use vstd::string::*;

use crate::config::Config;
use crate::error::{ErrorData, RqCheckError};
use crate::text::{strip_v_prefix, without_v_prefix};
use crate::version::{
    analyze_versions, is_version_analysis, optional_text, AnalysisData, ReleaseInfo,
    VersionAnalysis,
};

verus! {

/// A pinned package: its name and the version it is pinned to.
#[derive(Debug, Clone)]
pub struct PackageRequirement {
    pub name: String,
    pub version: String,
}

impl View for PackageRequirement {
    type V = (Seq<char>, Seq<char>);

    open spec fn view(&self) -> (Seq<char>, Seq<char>) {
        (self.name@, self.version@)
    }
}

/// The result of checking one package.
#[derive(Debug, Clone, PartialEq)]
pub struct PackageCheckResult {
    pub name: String,
    pub current_version: String,
    pub latest_version: String,
    pub latest_major_version: Option<String>,
    pub latest_minor_version: Option<String>,
    pub has_update: bool,
}

/// The content of a [`PackageCheckResult`].
pub struct CheckResultData {
    pub name: Seq<char>,
    pub current_version: Seq<char>,
    pub latest_version: Seq<char>,
    pub latest_major_version: Option<Seq<char>>,
    pub latest_minor_version: Option<Seq<char>>,
    pub has_update: bool,
}

impl View for PackageCheckResult {
    type V = CheckResultData;

    open spec fn view(&self) -> CheckResultData {
        CheckResultData {
            name: self.name@,
            current_version: self.current_version@,
            latest_version: self.latest_version@,
            latest_major_version: optional_text(self.latest_major_version),
            latest_minor_version: optional_text(self.latest_minor_version),
            has_update: self.has_update,
        }
    }
}

/// What PyPI tells of a package: the version it calls current and the
/// files of each release, keyed by the release's version.
pub struct PackageInfo {
    pub version: String,
    pub releases: Vec<(String, Vec<ReleaseInfo>)>,
}

/// Whether an HTTP status reports success (`200..=299`).
pub open spec fn is_success_status(status: u16) -> bool {
    200 <= status <= 299
}

/// The error that an HTTP status gives, if it is not a success.
pub fn status_failure(package: &str, status: u16) -> (r: Option<RqCheckError>)
    ensures
        match r {
            None => is_success_status(status),
            Some(e) => !is_success_status(status) && e@ == ErrorData::Http {
                package: package@,
                status,
            },
        },
{
    if 200 <= status && status <= 299 {
        None
    } else {
        Some(RqCheckError::HttpError { package: String::from_str(package), status })
    }
}

/// The package information of a successful answer whose body was decoded
/// (`Ok`) or could not be (`Err`, with the decoder's message). The version
/// loses one leading `v` or `V`.
pub fn accept_package_info(package: &str, decoded: Result<PackageInfo, String>) -> (r: Result<
    PackageInfo,
    RqCheckError,
>)
    ensures
        match decoded {
            Ok(info) => r matches Ok(out) && out.version@ == without_v_prefix(info.version@)
                && out.releases == info.releases,
            Err(reason) => r matches Err(e) && e@ == ErrorData::Network {
                package: package@,
                reason: reason@,
            },
        },
{
    match decoded {
        Ok(info) => {
            let version = strip_v_prefix(info.version.as_str());
            Ok(PackageInfo { version, releases: info.releases })
        },
        Err(reason) => Err(
            RqCheckError::NetworkError { package: String::from_str(package), reason },
        ),
    }
}

/// The analysis that a check result reports.
pub open spec fn reported_analysis(r: CheckResultData) -> AnalysisData {
    AnalysisData {
        latest: r.latest_version,
        latest_major: r.latest_major_version,
        latest_minor: r.latest_minor_version,
        has_update: r.has_update,
    }
}

/// Checks one package against what PyPI tells of it, taking the
/// `max_versions` newest releases into account.
pub fn check_single_package(req: PackageRequirement, info: &PackageInfo, max_versions: usize) -> (r:
    PackageCheckResult)
    ensures
        r@.name == req.name@,
        r@.current_version == req.version@,
        is_version_analysis(
            reported_analysis(r@),
            req.version@,
            info.releases@,
            max_versions as nat,
        ),
        forall|a: AnalysisData|
            #[trigger] is_version_analysis(a, req.version@, info.releases@, max_versions as nat) ==> a
                == reported_analysis(r@),
{
    let analysis: VersionAnalysis = analyze_versions(req.version.as_str(), &info.releases, max_versions);
    PackageCheckResult {
        name: req.name,
        current_version: req.version,
        latest_version: analysis.latest,
        latest_major_version: analysis.latest_major,
        latest_minor_version: analysis.latest_minor,
        has_update: analysis.has_update,
    }
}

// ---------------------------------------------------------------------------
// Retrying failed requests
// ---------------------------------------------------------------------------

/// `2` to the power `n`.
pub open spec fn pow2(n: nat) -> nat
    decreases n,
{
    if n == 0 {
        1
    } else {
        2 * pow2((n - 1) as nat)
    }
}

/// The delay before repetition `k` (counted from 1): the base delay,
/// doubled for each repetition before it.
pub open spec fn retry_delay(base: u64, k: nat) -> nat {
    (base as nat) * pow2((k - 1) as nat)
}

/// Where the requests for one package stand: `attempt` requests after the
/// first have been made, of at most `max_retries`.
pub struct RetryState {
    pub attempt: u32,
    pub max_retries: u32,
    pub retry_delay_ms: u64,
}

/// The state after a failed request: one repetition more, while
/// repetitions are left.
pub open spec fn state_after_failure(s: RetryState) -> RetryState {
    if s.attempt < s.max_retries {
        RetryState { attempt: (s.attempt + 1) as u32, ..s }
    } else {
        s
    }
}

/// The state after `k` failed requests.
pub open spec fn state_after_failures(s: RetryState, k: nat) -> RetryState
    decreases k,
{
    if k == 0 {
        s
    } else {
        state_after_failure(state_after_failures(s, (k - 1) as nat))
    }
}

/// What to do after a request failed.
pub enum RetryStep {
    /// Wait `delay_ms` milliseconds, then make request number `attempt`
    /// (the first request is number 0).
    Retry { attempt: u32, delay_ms: u64 },
    /// Stop, and report the error of the last request.
    GiveUp(RqCheckError),
}

impl RetryState {
    /// The state before the first request.
    pub fn new(config: &Config) -> (s: RetryState)
        ensures
            s.attempt == 0,
            s.max_retries == config.max_retries,
            s.retry_delay_ms == config.retry_delay_ms,
    {
        RetryState { attempt: 0, max_retries: config.max_retries, retry_delay_ms: config.retry_delay_ms }
    }

    /// Whether the state is one that the requests can reach.
    pub open spec fn inv(self) -> bool {
        self.attempt <= self.max_retries
    }

    /// Whether the delay before the next repetition, if there is one, can
    /// be computed in 64 bits.
    pub open spec fn delay_fits(self) -> bool {
        self.attempt < self.max_retries ==> pow2(self.attempt as nat) <= u64::MAX
            && retry_delay(self.retry_delay_ms, self.attempt as nat + 1) <= u64::MAX
    }

    /// Tells whether the delay before the next repetition can be computed
    /// in 64 bits.
    pub fn next_delay_fits(&self) -> (r: bool)
        ensures
            r == self.delay_fits(),
    {
        if self.attempt >= self.max_retries {
            return true;
        }
        let mut p: u64 = 1;
        let mut k: u32 = 0;
        while k < self.attempt
            invariant
                k <= self.attempt,
                self.attempt < self.max_retries,
                p as nat == pow2(k as nat),
                p >= 1,
            decreases self.attempt - k,
        {
            if p > u64::MAX / 2 {
                proof {
                    assert(pow2(k as nat + 1) == 2 * pow2(k as nat));
                    lemma_pow2_monotone(k as nat + 1, self.attempt as nat);
                }
                return false;
            }
            p = p * 2;
            k = k + 1;
        }
        assert(k == self.attempt);
        let base = self.retry_delay_ms;
        assert((base <= u64::MAX / p) == (base * p <= u64::MAX)) by (nonlinear_arith)
            requires
                p >= 1,
        ;
        base <= u64::MAX / p
    }

    /// Decides what follows a failed request: another request, after a
    /// delay that doubles with each repetition, while repetitions are
    /// left; else giving up with the request's error.
    pub fn after_failure(&mut self, error: RqCheckError) -> (step: RetryStep)
        requires
            old(self).inv(),
            old(self).delay_fits(),
        ensures
            final(self).inv(),
            *final(self) == state_after_failure(*old(self)),
            match step {
                RetryStep::Retry { attempt, delay_ms } => {
                    &&& old(self).attempt < old(self).max_retries
                    &&& attempt == old(self).attempt + 1
                    &&& final(self).attempt == attempt
                    &&& delay_ms == retry_delay(old(self).retry_delay_ms, attempt as nat)
                },
                RetryStep::GiveUp(e) => {
                    &&& old(self).attempt >= old(self).max_retries
                    &&& final(self).attempt == old(self).attempt
                    &&& e@ == error@
                },
            },
    {
        if self.attempt < self.max_retries {
            let mut p: u64 = 1;
            let mut k: u32 = 0;
            while k < self.attempt
                invariant
                    k <= self.attempt,
                    self.attempt < self.max_retries,
                    pow2(self.attempt as nat) <= u64::MAX,
                    p as nat == pow2(k as nat),
                decreases self.attempt - k,
            {
                proof {
                    lemma_pow2_monotone(k as nat + 1, self.attempt as nat);
                }
                p = p * 2;
                k = k + 1;
            }
            let delay = self.retry_delay_ms * p;
            self.attempt = self.attempt + 1;
            RetryStep::Retry { attempt: self.attempt, delay_ms: delay }
        } else {
            RetryStep::GiveUp(error)
        }
    }
}

proof fn lemma_pow2_monotone(a: nat, b: nat)
    requires
        a <= b,
    ensures
        pow2(a) <= pow2(b),
    decreases b - a,
{
    if a < b {
        lemma_pow2_monotone(a, (b - 1) as nat);
    }
}

// ---------------------------------------------------------------------------
// Collecting and reporting results
// ---------------------------------------------------------------------------

/// The address of the JSON document that PyPI serves for a package.
pub fn package_url(base: &str, package: &str) -> (url: String)
    ensures
        url@ == base@ + "/"@ + package@ + "/json"@,
{
    let mut url = String::from_str(base);
    url.append("/");
    url.append(package);
    url.append("/json");
    url
}

/// What one request of a batch gave: the requirement, and what PyPI told
/// of its package or the error of its last request.
pub type PackageOutcome = (PackageRequirement, Result<PackageInfo, RqCheckError>);

/// Whether `r` is the result of checking `req` against `info`: it keeps the
/// requirement's name and version, and reports the one analysis of the
/// releases.
pub open spec fn result_of_check(
    r: CheckResultData,
    req: PackageRequirement,
    info: PackageInfo,
    max: nat,
) -> bool {
    &&& r.name == req.name@
    &&& r.current_version == req.version@
    &&& is_version_analysis(reported_analysis(r), req.version@, info.releases@, max)
    &&& forall|a: AnalysisData|
        #[trigger] is_version_analysis(a, req.version@, info.releases@, max) ==> a == reported_analysis(
            r,
        )
}

/// Whether `results` are the results of the successful outcomes of a batch:
/// result `k` is the check of outcome `idx[k]`, the outcomes keep their
/// order, each is used once, and every successful outcome gives a result.
pub open spec fn results_of_batch(
    results: Seq<PackageCheckResult>,
    outcomes: Seq<PackageOutcome>,
    idx: Seq<int>,
    max: nat,
) -> bool {
    &&& idx.len() == results.len()
    &&& forall|k: int|
        0 <= k < idx.len() ==> {
            &&& 0 <= #[trigger] idx[k] < outcomes.len()
            &&& outcomes[idx[k]].1 is Ok
            &&& result_of_check(results[k]@, outcomes[idx[k]].0, outcomes[idx[k]].1->Ok_0, max)
        }
    &&& forall|k1: int, k2: int| 0 <= k1 < k2 < idx.len() ==> #[trigger] idx[k1] < #[trigger] idx[k2]
    &&& forall|i: int|
        0 <= i < outcomes.len() && (#[trigger] outcomes[i]).1 is Ok ==> exists|k: int|
            0 <= k < idx.len() && #[trigger] idx[k] == i
}

/// Checks each package whose requests succeeded, and leaves out those whose
/// requests failed; the results keep the order of the outcomes.
pub fn collect_results(outcomes: Vec<PackageOutcome>, max_versions: usize) -> (r: Vec<
    PackageCheckResult,
>)
    ensures
        exists|idx: Seq<int>| results_of_batch(r@, outcomes@, idx, max_versions as nat),
{
    let ghost all = outcomes@;
    let mut rest = outcomes;
    let ghost mut done: int = 0;
    let ghost mut idx: Seq<int> = Seq::empty();
    let mut results: Vec<PackageCheckResult> = Vec::new();
    while rest.len() > 0
        invariant
            0 <= done <= all.len(),
            rest@ == all.skip(done),
            results_of_batch(results@, all.take(done), idx, max_versions as nat),
        decreases rest.len(),
    {
        let ghost before = rest@;
        let ghost old_results = results@;
        let ghost old_idx = idx;
        let (req, outcome) = rest.remove(0);
        proof {
            assert(rest@ =~= before.drop_first());
            assert(all.skip(done)[0] == all[done]);
            assert(all.skip(done + 1) =~= all.skip(done).drop_first());
            assert(all[done] == (req, outcome));
        }
        let ghost prev = all.take(done);
        let ghost next = all.take(done + 1);
        match outcome {
            Ok(info) => {
                proof {
                    assert(all[done].1 is Ok);
                }
                let res = check_single_package(req, &info, max_versions);
                results.push(res);
                proof {
                    idx = old_idx.push(done);
                    assert forall|k: int| 0 <= k < idx.len() implies {
                        &&& 0 <= #[trigger] idx[k] < next.len()
                        &&& next[idx[k]].1 is Ok
                        &&& result_of_check(results@[k]@, next[idx[k]].0, next[idx[k]].1->Ok_0, max_versions as nat)
                    } by {
                        if k < old_idx.len() {
                            assert(idx[k] == old_idx[k]);
                            assert(results@[k] == old_results[k]);
                            assert(next[idx[k]] == prev[idx[k]]);
                        } else {
                            assert(idx[k] == done);
                            assert(next[done] == all[done]);
                        }
                    }
                    assert forall|k1: int, k2: int| 0 <= k1 < k2 < idx.len() implies #[trigger] idx[k1]
                        < #[trigger] idx[k2] by {
                        if k2 < old_idx.len() {
                            assert(idx[k1] == old_idx[k1] && idx[k2] == old_idx[k2]);
                        } else {
                            assert(idx[k1] == old_idx[k1]);
                            assert(0 <= old_idx[k1] < prev.len());
                        }
                    }
                    assert forall|i: int| 0 <= i < next.len() && (#[trigger] next[i]).1 is Ok implies exists|k: int|
                        0 <= k < idx.len() && #[trigger] idx[k] == i by {
                        if i < done {
                            assert(next[i] == prev[i]);
                            let k = choose|k: int| 0 <= k < old_idx.len() && #[trigger] old_idx[k] == i;
                            assert(idx[k] == i);
                        } else {
                            assert(idx[old_idx.len() as int] == i);
                        }
                    }
                }
            },
            Err(_) => {
                proof {
                    assert forall|k: int| 0 <= k < idx.len() implies {
                        &&& 0 <= #[trigger] idx[k] < next.len()
                        &&& next[idx[k]].1 is Ok
                        &&& result_of_check(results@[k]@, next[idx[k]].0, next[idx[k]].1->Ok_0, max_versions as nat)
                    } by {
                        assert(next[idx[k]] == prev[idx[k]]);
                    }
                    assert forall|i: int| 0 <= i < next.len() && (#[trigger] next[i]).1 is Ok implies exists|k: int|
                        0 <= k < idx.len() && #[trigger] idx[k] == i by {
                        if i < done {
                            assert(next[i] == prev[i]);
                        } else {
                            assert(next[i] == all[done]);
                        }
                    }
                }
            },
        }
        proof {
            done = done + 1;
        }
    }
    assert(all.take(done) =~= all);
    results
}

/// The line that reports a package with an update: its name, its current
/// version, the newest version, then the newest of another major line and
/// the newest of the current major line where there are such.
pub open spec fn result_line(r: CheckResultData) -> Seq<char> {
    r.name + " "@ + r.current_version + " -> latest: "@ + r.latest_version + (
    match r.latest_major_version {
        Some(m) => ", latest major: "@ + m,
        None => Seq::empty(),
    }) + (match r.latest_minor_version {
        Some(m) => ", latest minor: "@ + m,
        None => Seq::empty(),
    })
}

/// The lines that report the packages with updates, in order.
pub open spec fn update_lines(s: Seq<CheckResultData>) -> Seq<Seq<char>>
    decreases s.len(),
{
    if s.len() == 0 {
        Seq::empty()
    } else {
        let rest = update_lines(s.drop_last());
        if s.last().has_update {
            rest.push(result_line(s.last()))
        } else {
            rest
        }
    }
}

/// The contents of a list of check results.
pub open spec fn result_views(s: Seq<PackageCheckResult>) -> Seq<CheckResultData> {
    s.map_values(|c: PackageCheckResult| c@)
}

/// The line that reports a package with an update.
pub fn format_result_line(r: &PackageCheckResult) -> (line: String)
    ensures
        line@ == result_line(r@),
{
    let mut line = String::from_str(r.name.as_str());
    line.append(" ");
    line.append(r.current_version.as_str());
    line.append(" -> latest: ");
    line.append(r.latest_version.as_str());
    let ghost head = line@;
    if let Some(m) = &r.latest_major_version {
        line.append(", latest major: ");
        line.append(m.as_str());
    }
    let ghost with_major = line@;
    if let Some(m) = &r.latest_minor_version {
        line.append(", latest minor: ");
        line.append(m.as_str());
    }
    proof {
        match &r.latest_major_version {
            Some(m) => assert(with_major == head + (", latest major: "@ + m@)),
            None => assert(with_major == head + Seq::<char>::empty()),
        }
        match &r.latest_minor_version {
            Some(m) => assert(line@ == with_major + (", latest minor: "@ + m@)),
            None => assert(line@ == with_major + Seq::<char>::empty()),
        }
    }
    line
}

/// The lines that report the packages with updates, in order.
pub fn report_lines(results: &Vec<PackageCheckResult>) -> (lines: Vec<String>)
    ensures
        lines@.map_values(|l: String| l@) == update_lines(result_views(results@)),
        lines@.map_values(|l: String| l@) == result_views(results@).filter(
            |r: CheckResultData| r.has_update,
        ).map_values(|r: CheckResultData| result_line(r)),
{
    let mut lines: Vec<String> = Vec::new();
    let mut i: usize = 0;
    while i < results.len()
        invariant
            i <= results.len(),
            lines@.map_values(|l: String| l@) == update_lines(result_views(results@.take(i as int))),
        decreases results.len() - i,
    {
        let ghost prefix = result_views(results@.take(i as int + 1));
        assert(prefix.drop_last() =~= result_views(results@.take(i as int)));
        assert(prefix.last() == results@[i as int]@);
        let ghost before = lines@.map_values(|l: String| l@);
        if results[i].has_update {
            let line = format_result_line(&results[i]);
            lines.push(line);
            assert(lines@.map_values(|l: String| l@) =~= before.push(result_line(results@[i as int]@)));
        }
        i = i + 1;
    }
    assert(results@.take(results.len() as int) =~= results@);
    proof {
        law_report_lines_are_the_updates(result_views(results@));
    }
    lines
}

/// A package is requested at most `max_retries + 1` times: from the first
/// request on, each of the first `max_retries` failures is followed by
/// another request, and the failure after them by giving up.
pub proof fn law_requests_per_package(s: RetryState, k: nat)
    requires
        s.attempt == 0,
    ensures
        k <= s.max_retries ==> state_after_failures(s, k).attempt == k,
        (state_after_failures(s, k).attempt < state_after_failures(s, k).max_retries) == (k
            < s.max_retries),
    decreases k,
{
    if k > 0 {
        law_requests_per_package(s, (k - 1) as nat);
    }
    lemma_failures_keep_limits(s, k);
}

proof fn lemma_failures_keep_limits(s: RetryState, k: nat)
    requires
        s.attempt <= s.max_retries,
    ensures
        state_after_failures(s, k).max_retries == s.max_retries,
        state_after_failures(s, k).attempt <= s.max_retries,
        state_after_failures(s, k).attempt == if s.attempt + k <= s.max_retries {
            s.attempt + k
        } else {
            s.max_retries as int
        },
    decreases k,
{
    if k > 0 {
        lemma_failures_keep_limits(s, (k - 1) as nat);
    }
}

/// Each repetition waits twice as long as the one before it; the first
/// waits the configured delay.
pub proof fn law_retry_delay_doubles(base: u64, k: nat)
    ensures
        retry_delay(base, 1) == base,
        k >= 1 ==> retry_delay(base, k + 1) == 2 * retry_delay(base, k),
{
    assert(pow2(0) == 1);
    assert(((1 - 1) as nat) == 0);
    assert(retry_delay(base, 1) == (base as nat) * pow2(0));
    if k >= 1 {
        assert(pow2(k) == 2 * pow2((k - 1) as nat));
        assert((base as nat) * (2 * pow2((k - 1) as nat)) == 2 * ((base as nat) * pow2(
            (k - 1) as nat,
        ))) by (nonlinear_arith);
    }
}

/// The report has one line for each package with an update, and none for
/// the others.
pub proof fn law_one_line_per_update(s: Seq<CheckResultData>)
    ensures
        update_lines(s).len() == s.filter(|r: CheckResultData| r.has_update).len(),
    decreases s.len(),
{
    reveal_with_fuel(Seq::filter, 1);
    if s.len() > 0 {
        law_one_line_per_update(s.drop_last());
    }
}

/// The report lists exactly the packages with an update, in order: its
/// `k`-th line is the line of the `k`-th result that has an update.
pub proof fn law_report_lines_are_the_updates(s: Seq<CheckResultData>)
    ensures
        update_lines(s) == s.filter(|r: CheckResultData| r.has_update).map_values(
            |r: CheckResultData| result_line(r),
        ),
    decreases s.len(),
{
    reveal_with_fuel(Seq::filter, 1);
    if s.len() > 0 {
        law_report_lines_are_the_updates(s.drop_last());
        let f = s.drop_last().filter(|r: CheckResultData| r.has_update);
        if s.last().has_update {
            assert(f.push(s.last()).map_values(|r: CheckResultData| result_line(r)) =~= f.map_values(
                |r: CheckResultData| result_line(r),
            ).push(result_line(s.last())));
        }
    }
}

/// The line of a result names the package, then its current version, then
/// the newest version, each separated as `name current -> latest: newest`,
/// and ends with the newest minor version where there is one.
pub proof fn law_result_line_starts_with_the_package(r: CheckResultData)
    ensures
        result_line(r).take((r.name.len() + 1) as int) == r.name.push(' '),
        r.latest_minor_version matches Some(m) ==> result_line(r).skip(
            result_line(r).len() - m.len(),
        ) == m,
{
    let l = result_line(r);
    let head = r.name + " "@;
    assert(l.take((r.name.len() + 1) as int) =~= head) by {
        assert(" "@ == seq![' ']) by {
            reveal_strlit(" ");
        }
        assert forall|k: int| 0 <= k < r.name.len() + 1 implies l[k] == head[k] by {}
    }
    assert(head =~= r.name.push(' ')) by {
        reveal_strlit(" ");
    }
    if let Some(m) = r.latest_minor_version {
        let tail = ", latest minor: "@ + m;
        assert(l.skip(l.len() - m.len()) =~= m);
    }
}

} // verus!
