//! Reading a requirements file: the packages it names, and the version
//! that each of them is pinned to.

use vstd::prelude::*;
use vstd::string::*;

use crate::checker::PackageRequirement;
use crate::error::{ErrorData, RqCheckError};
use crate::text::{strip_v_prefix, without_v_prefix};

verus! {

/// A line of a requirements file, as far as the check reads it: the
/// package's name, if the line names one, and the versions of its version
/// specifiers, in order (as in `name>=1.0,<2.0`).
#[derive(Debug)]
pub struct ParsedRequirement {
    pub name: Option<String>,
    pub versions: Vec<String>,
}

/// The content of a [`ParsedRequirement`].
pub struct RequirementData {
    pub name: Option<Seq<char>>,
    pub versions: Seq<Seq<char>>,
}

impl View for ParsedRequirement {
    type V = RequirementData;

    open spec fn view(&self) -> RequirementData {
        RequirementData {
            name: match &self.name {
                Some(n) => Some(n@),
                None => None,
            },
            versions: self.versions@.map_values(|v: String| v@),
        }
    }
}

/// The contents of a list of parsed lines.
pub open spec fn requirement_views(s: Seq<ParsedRequirement>) -> Seq<RequirementData> {
    s.map_values(|r: ParsedRequirement| r@)
}

/// What `requirements::parse_str` gives for the text of a requirements
/// file: an entry for each line that its grammar reads (comment lines and
/// other lines without a package name included, blank lines giving none),
/// or the `Debug` rendering of its error. The grammar reads lines from the
/// start for as long as they match, each ended by a line break; a line that
/// does not match, or a last line without a line break, ends the listing.
pub uninterp spec fn requirements_listing(content: Seq<char>) -> Result<
    Seq<RequirementData>,
    Seq<char>,
>;

/// Calls `requirements::parse_str`, keeping of each line its name and the
/// versions of its specifiers.
#[verifier::external_body]
fn parse_requirement_lines(content: &str) -> (r: Result<Vec<ParsedRequirement>, String>)
    ensures
        match r {
            Ok(lines) => requirements_listing(content@) == Ok::<Seq<RequirementData>, Seq<char>>(
                requirement_views(lines@),
            ),
            Err(m) => requirements_listing(content@) == Err::<Seq<RequirementData>, Seq<char>>(m@),
        },
{
    match requirements::parse_str(content) {
        Ok(reqs) => Ok(reqs.into_iter().map(|req| ParsedRequirement {
            name: req.name,
            versions: req.specs.into_iter().map(|spec| spec.1).collect(),
        }).collect()),
        Err(e) => Err(format!("{:?}", e)),
    }
}

/// The lines that name a package, in order.
pub open spec fn named_lines(s: Seq<RequirementData>) -> Seq<RequirementData>
    decreases s.len(),
{
    if s.len() == 0 {
        Seq::empty()
    } else {
        let rest = named_lines(s.drop_first());
        if s[0].name is Some {
            seq![s[0]] + rest
        } else {
            rest
        }
    }
}

/// What parsing a requirements file gives: the lines that name a package,
/// or the error that the file's syntax causes.
pub open spec fn parsed_requirements(content: Seq<char>) -> Result<Seq<RequirementData>, ErrorData> {
    requirements_of_listing(requirements_listing(content))
}

/// What a listing of the lines of a requirements file gives: the lines
/// that name a package, or the error for a listing that failed.
pub open spec fn requirements_of_listing(listing: Result<Seq<RequirementData>, Seq<char>>) -> Result<
    Seq<RequirementData>,
    ErrorData,
> {
    match listing {
        Ok(lines) => Ok(named_lines(lines)),
        Err(m) => Err(ErrorData::RequirementsParse("Failed to parse requirements: "@ + m)),
    }
}

/// The content of a listing.
pub open spec fn listing_view(listing: Result<Vec<ParsedRequirement>, String>) -> Result<
    Seq<RequirementData>,
    Seq<char>,
> {
    match listing {
        Ok(lines) => Ok(requirement_views(lines@)),
        Err(m) => Err(m@),
    }
}

/// Keeps the lines of a listing that name a package, comments and other
/// lines without a name being left out; a listing that failed becomes a
/// parse error.
pub fn requirements_from_listing(listing: Result<Vec<ParsedRequirement>, String>) -> (r: Result<
    Vec<ParsedRequirement>,
    RqCheckError,
>)
    ensures
        match requirements_of_listing(listing_view(listing)) {
            Ok(lines) => r matches Ok(v) && requirement_views(v@) == lines,
            Err(e) => r matches Err(err) && err@ == e,
        },
        listing matches Ok(all) ==> (r matches Ok(v) && requirement_views(v@) == requirement_views(
            all@,
        ).filter(|l: RequirementData| l.name is Some)),
{
    let lines = match listing {
        Ok(lines) => lines,
        Err(detail) => {
            let mut m = String::from_str("Failed to parse requirements: ");
            m.append(detail.as_str());
            return Err(RqCheckError::RequirementsParseError(m));
        },
    };
    let mut rest = lines;
    let ghost all = requirement_views(rest@);
    let mut named: Vec<ParsedRequirement> = Vec::new();
    while rest.len() > 0
        invariant
            requirement_views(named@) + named_lines(requirement_views(rest@)) == named_lines(all),
        decreases rest.len(),
    {
        let ghost before = requirement_views(rest@);
        let ghost before_named = requirement_views(named@);
        let line = rest.remove(0);
        assert(requirement_views(rest@) =~= before.drop_first());
        assert(before[0] == line@);
        if line.name.is_some() {
            named.push(line);
            assert(requirement_views(named@) =~= before_named.push(before[0]));
            assert(before_named.push(before[0]) + named_lines(requirement_views(rest@))
                =~= before_named + (seq![before[0]] + named_lines(requirement_views(rest@))));
        }
    }
    assert(named_lines(requirement_views(rest@)) =~= Seq::<RequirementData>::empty());
    assert(requirement_views(named@) + Seq::<RequirementData>::empty() =~= requirement_views(
        named@,
    ));
    proof {
        law_every_named_line_is_kept(all);
    }
    Ok(named)
}

/// Parses the text of a requirements file and keeps the lines that name a
/// package; comments and blank lines are left out.
pub fn parse_requirements(content: &str) -> (r: Result<Vec<ParsedRequirement>, RqCheckError>)
    ensures
        match parsed_requirements(content@) {
            Ok(lines) => r matches Ok(v) && requirement_views(v@) == lines,
            Err(e) => r matches Err(err) && err@ == e,
        },
{
    requirements_from_listing(parse_requirement_lines(content))
}

/// What reading the requirements file at `path` gives, where reading it
/// gave `contents` (its text, or the text of the I/O error).
pub open spec fn read_outcome(path: Seq<char>, contents: Result<String, String>) -> Result<
    Seq<RequirementData>,
    ErrorData,
> {
    match contents {
        Ok(text) => parsed_requirements(text@),
        Err(reason) => Err(ErrorData::FileRead { path, reason: reason@ }),
    }
}

/// Reads a requirements file from what reading it from disk gave: a file
/// that could not be read is reported with its path and the reason, and the
/// text of one that could is parsed.
pub fn read_requirements(path: &str, contents: Result<String, String>) -> (r: Result<
    Vec<ParsedRequirement>,
    RqCheckError,
>)
    ensures
        match read_outcome(path@, contents) {
            Ok(lines) => r matches Ok(v) && requirement_views(v@) == lines,
            Err(e) => r matches Err(err) && err@ == e,
        },
{
    match contents {
        Ok(text) => parse_requirements(text.as_str()),
        Err(reason) => Err(RqCheckError::FileReadError { path: String::from_str(path), reason }),
    }
}

/// The package that a line pins, or the error that the line causes: it
/// must name a package and give a version, which loses one leading `v` or
/// `V` and must not then be empty.
pub open spec fn pinned_package(r: RequirementData) -> Result<(Seq<char>, Seq<char>), ErrorData> {
    match r.name {
        None => Err(ErrorData::InvalidRequirement("Missing package name"@)),
        Some(name) => if r.versions.len() == 0 {
            Err(
                ErrorData::VersionParse {
                    package: name,
                    reason: "No version specified in requirements"@,
                },
            )
        } else {
            let version = without_v_prefix(r.versions[0]);
            if version.len() == 0 {
                Err(ErrorData::VersionParse { package: name, reason: "Empty version string"@ })
            } else {
                Ok((name, version))
            }
        },
    }
}

/// The packages that the lines pin, in order, or the error of the first
/// line that causes one.
pub open spec fn pinned_packages(s: Seq<RequirementData>) -> Result<Seq<(Seq<char>, Seq<char>)>, ErrorData>
    decreases s.len(),
{
    if s.len() == 0 {
        Ok(Seq::empty())
    } else {
        match pinned_package(s[0]) {
            Err(e) => Err(e),
            Ok(p) => match pinned_packages(s.drop_first()) {
                Ok(rest) => Ok(seq![p] + rest),
                Err(e) => Err(e),
            },
        }
    }
}

/// The contents of a list of pinned packages.
pub open spec fn package_views(s: Seq<PackageRequirement>) -> Seq<(Seq<char>, Seq<char>)> {
    s.map_values(|p: PackageRequirement| p@)
}

fn pin_package(line: ParsedRequirement) -> (r: Result<PackageRequirement, RqCheckError>)
    ensures
        match pinned_package(line@) {
            Ok(p) => r matches Ok(pkg) && pkg@ == p,
            Err(e) => r matches Err(err) && err@ == e,
        },
{
    let name = match line.name {
        Some(n) => n,
        None => {
            return Err(RqCheckError::InvalidRequirement(String::from_str("Missing package name")));
        },
    };
    if line.versions.len() == 0 {
        return Err(
            RqCheckError::VersionParseError {
                package: name,
                reason: String::from_str("No version specified in requirements"),
            },
        );
    }
    let version = strip_v_prefix(line.versions[0].as_str());
    if version.as_str().unicode_len() == 0 {
        return Err(
            RqCheckError::VersionParseError {
                package: name,
                reason: String::from_str("Empty version string"),
            },
        );
    }
    Ok(PackageRequirement { name, version })
}

/// Turns the lines of a requirements file into pinned packages, stopping at
/// the first line without a name or without a version.
pub fn convert_requirements(requirements: Vec<ParsedRequirement>) -> (r: Result<
    Vec<PackageRequirement>,
    RqCheckError,
>)
    ensures
        match pinned_packages(requirement_views(requirements@)) {
            Ok(pkgs) => r matches Ok(v) && package_views(v@) == pkgs,
            Err(e) => r matches Err(err) && err@ == e,
        },
{
    let mut rest = requirements;
    let ghost all = requirement_views(rest@);
    let mut out: Vec<PackageRequirement> = Vec::new();
    while rest.len() > 0
        invariant
            all == requirement_views(requirements@),
            match pinned_packages(requirement_views(rest@)) {
                Ok(tail) => pinned_packages(all) == Ok::<
                    Seq<(Seq<char>, Seq<char>)>,
                    ErrorData,
                >(package_views(out@) + tail),
                Err(e) => pinned_packages(all) == Err::<Seq<(Seq<char>, Seq<char>)>, ErrorData>(e),
            },
        decreases rest.len(),
    {
        let ghost before = requirement_views(rest@);
        let ghost before_out = package_views(out@);
        let line = rest.remove(0);
        assert(requirement_views(rest@) =~= before.drop_first());
        assert(before[0] == line@);
        match pin_package(line) {
            Ok(pkg) => {
                out.push(pkg);
                proof {
                    assert(package_views(out@) =~= before_out.push(pkg@));
                    match pinned_packages(requirement_views(rest@)) {
                        Ok(tail) => {
                            assert(before_out.push(pkg@) + tail =~= before_out + (seq![pkg@] + tail));
                        },
                        Err(_) => {},
                    }
                }
            },
            Err(e) => {
                assert(pinned_packages(before) == Err::<Seq<(Seq<char>, Seq<char>)>, ErrorData>(
                    e@,
                ));
                return Err(e);
            },
        }
    }
    assert(package_views(out@) + Seq::<(Seq<char>, Seq<char>)>::empty() =~= package_views(out@));
    Ok(out)
}

/// Every line that parsing keeps names a package, and parsing keeps every
/// line of the file that names one, in order.
pub proof fn law_parsed_lines_name_packages(content: Seq<char>)
    ensures
        parsed_requirements(content) matches Ok(lines) ==> forall|i: int|
            0 <= i < lines.len() ==> (#[trigger] lines[i]).name is Some,
{
    if let Ok(all) = requirements_listing(content) {
        lemma_named_lines(all);
    }
}

proof fn lemma_named_lines(s: Seq<RequirementData>)
    ensures
        forall|i: int| 0 <= i < named_lines(s).len() ==> (#[trigger] named_lines(s)[i]).name is Some,
    decreases s.len(),
{
    if s.len() > 0 {
        lemma_named_lines(s.drop_first());
        let rest = named_lines(s.drop_first());
        if s[0].name is Some {
            assert forall|i: int| 0 <= i < named_lines(s).len() implies (#[trigger] named_lines(
                s,
            )[i]).name is Some by {
                if i > 0 {
                    assert(named_lines(s)[i] == rest[i - 1]);
                }
            }
        }
    }
}

/// Conversion pins every line, in order: each package keeps the line's name
/// and gets the line's first version without one leading `v`, which is
/// never empty.
pub proof fn law_every_line_is_pinned(s: Seq<RequirementData>)
    ensures
        pinned_packages(s) matches Ok(p) ==> {
            &&& p.len() == s.len()
            &&& forall|i: int|
                0 <= i < s.len() ==> {
                    &&& (#[trigger] s[i]).name == Some(p[i].0)
                    &&& s[i].versions.len() > 0
                    &&& p[i].1 == without_v_prefix(s[i].versions[0])
                    &&& p[i].1.len() > 0
                }
        },
    decreases s.len(),
{
    if s.len() > 0 {
        law_every_line_is_pinned(s.drop_first());
        if let Ok(p) = pinned_packages(s) {
            let rest = pinned_packages(s.drop_first())->Ok_0;
            assert(p == seq![pinned_package(s[0])->Ok_0] + rest);
            assert forall|i: int| 0 <= i < s.len() implies {
                &&& (#[trigger] s[i]).name == Some(p[i].0)
                &&& s[i].versions.len() > 0
                &&& p[i].1 == without_v_prefix(s[i].versions[0])
                &&& p[i].1.len() > 0
            } by {
                if i > 0 {
                    assert(s[i] == s.drop_first()[i - 1]);
                    assert(p[i] == rest[i - 1]);
                }
            }
        }
    }
}

/// Parsing keeps exactly the lines that name a package, in order: every
/// named line is kept, and no other.
pub proof fn law_every_named_line_is_kept(s: Seq<RequirementData>)
    ensures
        named_lines(s) == s.filter(|r: RequirementData| r.name is Some),
    decreases s.len(),
{
    broadcast use vstd::seq_lib::group_filter_ensures;

    if s.len() > 0 {
        law_every_named_line_is_kept(s.drop_first());
        let p = |r: RequirementData| r.name is Some;
        s.drop_first().lemma_filter_prepend(s[0], p);
        assert(seq![s[0]] + s.drop_first() =~= s);
    }
}

} // verus!
