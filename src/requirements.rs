//! Requirement lines (`<package><operator><version>`) and files made of them.
use vstd::prelude::*;
use crate::package_version::{
    version_of, PackageVersion, ParseError, ParseErrorView, VersionView,
};
use crate::text::{chars_of, is_space, space};

verus! {

/// The comparison that a requirement line makes.
#[derive(Clone, Copy, Debug, PartialEq, Eq, Structural)]
pub enum PyRequirementsOperator {
    /// `==`
    EqualTo,
    /// `>=`
    GreaterThan,
    /// `<=`
    LesserThan,
}

/// Why a requirement line was not understood.
#[derive(Debug)]
pub enum RequirementError {
    /// The line holds none of `==`, `>=`, `<=`.
    UnknownOperator,
    /// Nothing but white space stands before the operator.
    EmptyPackageName,
    /// The text after the operator is not a version.
    InvalidVersion(ParseError),
}

/// The mathematical value of a [`RequirementError`].
pub enum RequirementErrorView {
    UnknownOperator,
    EmptyPackageName,
    InvalidVersion(ParseErrorView),
}

impl View for RequirementError {
    type V = RequirementErrorView;

    open spec fn view(&self) -> RequirementErrorView {
        match self {
            RequirementError::UnknownOperator => RequirementErrorView::UnknownOperator,
            RequirementError::EmptyPackageName => RequirementErrorView::EmptyPackageName,
            RequirementError::InvalidVersion(e) => RequirementErrorView::InvalidVersion(e@),
        }
    }
}

/// The operator that the token `t` writes.
pub open spec fn operator_of(t: Seq<char>) -> Option<PyRequirementsOperator> {
    if t == "=="@ {
        Some(PyRequirementsOperator::EqualTo)
    } else if t == ">="@ {
        Some(PyRequirementsOperator::GreaterThan)
    } else if t == "<="@ {
        Some(PyRequirementsOperator::LesserThan)
    } else {
        None
    }
}

/// The token of an operator.
pub open spec fn operator_token(o: PyRequirementsOperator) -> Seq<char> {
    match o {
        PyRequirementsOperator::EqualTo => "=="@,
        PyRequirementsOperator::GreaterThan => ">="@,
        PyRequirementsOperator::LesserThan => "<="@,
    }
}

/// The operator whose token starts at `i`, if one does.
pub open spec fn operator_at(t: Seq<char>, i: int) -> Option<PyRequirementsOperator> {
    if 0 <= i && i + 2 <= t.len() {
        operator_of(t.subrange(i, i + 2))
    } else {
        None
    }
}

/// The first position at or after `i` where an operator token starts.
pub open spec fn operator_from(t: Seq<char>, i: int) -> Option<int>
    decreases t.len() - i,
{
    if i < 0 || i + 2 > t.len() {
        None
    } else if operator_at(t, i) is Some {
        Some(i)
    } else {
        operator_from(t, i + 1)
    }
}

/// `s` without its leading white space.
pub open spec fn trim_start(s: Seq<char>) -> Seq<char>
    decreases s.len(),
{
    if s.len() > 0 && is_space(s[0]) {
        trim_start(s.drop_first())
    } else {
        s
    }
}

/// `s` without its trailing white space.
pub open spec fn trim_end(s: Seq<char>) -> Seq<char>
    decreases s.len(),
{
    if s.len() > 0 && is_space(s.last()) {
        trim_end(s.drop_last())
    } else {
        s
    }
}

/// `s` without white space at either end.
pub open spec fn trim(s: Seq<char>) -> Seq<char> {
    trim_end(trim_start(s))
}

/// The mathematical value of a [`PyRequirementsModule`].
pub struct ModuleView {
    pub package: Seq<char>,
    pub version: VersionView,
    pub operator: PyRequirementsOperator,
}

/// What the line `t` requires: the package before the first operator token,
/// trimmed, the operator, and the version that the rest of the line writes.
pub open spec fn requirement_of(t: Seq<char>) -> Result<ModuleView, RequirementErrorView> {
    match operator_from(t, 0) {
        None => Err(RequirementErrorView::UnknownOperator),
        Some(i) => {
            let package = trim(t.subrange(0, i));
            if package.len() == 0 {
                Err(RequirementErrorView::EmptyPackageName)
            } else {
                match version_of(t.subrange(i + 2, t.len() as int)) {
                    Err(e) => Err(RequirementErrorView::InvalidVersion(e)),
                    Ok(v) => Ok(
                        ModuleView { package, version: v, operator: operator_at(t, i)->0 },
                    ),
                }
            }
        },
    }
}

/// The operator whose token starts at `t[i]`, if one does.
fn read_operator(t: &[char], i: usize) -> (r: Option<PyRequirementsOperator>)
    ensures
        r == operator_at(t@, i as int),
        r is Some ==> i + 2 <= t@.len(),
{
    proof {
        reveal_strlit("==");
        reveal_strlit(">=");
        reveal_strlit("<=");
    }
    if i >= t.len() || t.len() - i < 2 || t[i + 1] != '=' {
        proof {
            if i + 2 <= t@.len() {
                assert(t@.subrange(i as int, i + 2)[1] == t@[i + 1]);
            }
        }
        return None;
    }
    let ghost tok = t@.subrange(i as int, i + 2);
    assert(tok[0] == t@[i as int] && tok[1] == t@[i + 1]);
    if t[i] == '=' {
        assert(tok =~= "=="@);
        Some(PyRequirementsOperator::EqualTo)
    } else if t[i] == '>' {
        assert(tok =~= ">="@);
        Some(PyRequirementsOperator::GreaterThan)
    } else if t[i] == '<' {
        assert(tok =~= "<="@);
        Some(PyRequirementsOperator::LesserThan)
    } else {
        assert(tok != "=="@ && tok != ">="@ && tok != "<="@);
        None
    }
}

impl PyRequirementsOperator {
    /// Reads an operator token: `==`, `>=` or `<=`; any other text is an
    /// unknown operator.
    pub fn new(op: &str) -> (r: Result<Self, RequirementError>)
        ensures
            match r {
                Ok(o) => operator_of(op@) == Some(o),
                Err(e) => operator_of(op@) is None && e@ == RequirementErrorView::UnknownOperator,
            },
    {
        let t = chars_of(op);
        if t.len() == 2 {
            if let Some(o) = read_operator(t.as_slice(), 0) {
                assert(t@.subrange(0, 2) =~= t@);
                return Ok(o);
            }
            assert(t@.subrange(0, 2) =~= t@);
        } else {
            proof {
                reveal_strlit("==");
                reveal_strlit(">=");
                reveal_strlit("<=");
            }
        }
        Err(RequirementError::UnknownOperator)
    }

    /// The token of this operator.
    pub fn to_string(&self) -> (r: String)
        ensures
            r@ == operator_token(*self),
    {
        match self {
            PyRequirementsOperator::EqualTo => "==".to_string(),
            PyRequirementsOperator::GreaterThan => ">=".to_string(),
            PyRequirementsOperator::LesserThan => "<=".to_string(),
        }
    }
}

impl Default for PyRequirementsOperator {
    fn default() -> (r: Self)
        ensures
            r == PyRequirementsOperator::EqualTo,
    {
        PyRequirementsOperator::EqualTo
    }
}

/// One requirement: a package, an operator and a version.
#[derive(Debug)]
pub struct PyRequirementsModule {
    pub package: String,
    pub version: PackageVersion,
    pub operator: PyRequirementsOperator,
}

impl View for PyRequirementsModule {
    type V = ModuleView;

    open spec fn view(&self) -> ModuleView {
        ModuleView { package: self.package@, version: self.version@, operator: self.operator }
    }
}

/// The value of the result of parsing a requirement line.
pub open spec fn requirement_view(r: Result<PyRequirementsModule, RequirementError>) -> Result<
    ModuleView,
    RequirementErrorView,
> {
    match r {
        Ok(m) => Ok(m@),
        Err(e) => Err(e@),
    }
}

/// Where `operator_from` stops, an operator token starts.
proof fn lemma_operator_from(t: Seq<char>, j: int)
    ensures
        operator_from(t, j) matches Some(i) ==> j <= i && operator_at(t, i) is Some,
    decreases t.len() - j,
{
    if 0 <= j && j + 2 <= t.len() && operator_at(t, j) is None {
        lemma_operator_from(t, j + 1);
    }
}

/// The first position where an operator token starts.
fn find_operator(t: &[char]) -> (r: Option<usize>)
    ensures
        match r {
            Some(i) => operator_from(t@, 0) == Some(i as int),
            None => operator_from(t@, 0) is None,
        },
{
    let mut i: usize = 0;
    while i < t.len()
        invariant
            i <= t@.len(),
            operator_from(t@, 0) == operator_from(t@, i as int),
        decreases t@.len() - i,
    {
        if t.len() - i < 2 {
            return None;
        }
        if read_operator(t, i).is_some() {
            return Some(i);
        }
        i = i + 1;
    }
    None
}

/// The bounds of `t[0..end]` without white space at either end.
fn trimmed_bounds(t: &[char], end: usize) -> (r: (usize, usize))
    requires
        end <= t@.len(),
    ensures
        r.0 <= r.1 <= end,
        t@.subrange(r.0 as int, r.1 as int) == trim(t@.subrange(0, end as int)),
{
    let mut a: usize = 0;
    while a < end && space(t[a])
        invariant
            a <= end <= t@.len(),
            trim_start(t@.subrange(0, end as int)) == trim_start(t@.subrange(a as int, end as int)),
        decreases end - a,
    {
        assert(t@.subrange(a as int, end as int).drop_first() =~= t@.subrange(a + 1, end as int));
        a = a + 1;
    }
    let ghost front = t@.subrange(a as int, end as int);
    assert(trim_start(front) == front);
    let mut b: usize = end;
    while b > a && space(t[b - 1])
        invariant
            a <= b <= end <= t@.len(),
            trim_end(front) == trim_end(t@.subrange(a as int, b as int)),
        decreases b - a,
    {
        assert(t@.subrange(a as int, b as int).drop_last() =~= t@.subrange(a as int, b - 1));
        b = b - 1;
    }
    (a, b)
}

impl PyRequirementsModule {
    /// Parses one requirement line: the package is the text before the first
    /// `==`, `>=` or `<=`, trimmed; the version is all the text after it.
    pub fn new(raw: &str) -> (r: Result<Self, RequirementError>)
        ensures
            requirement_view(r) == requirement_of(raw@),
    {
        let t = chars_of(raw);
        let i = match find_operator(t.as_slice()) {
            Some(i) => i,
            None => return Err(RequirementError::UnknownOperator),
        };
        proof {
            lemma_operator_from(t@, 0);
        }
        let operator = match read_operator(t.as_slice(), i) {
            Some(o) => o,
            None => return Err(RequirementError::UnknownOperator),
        };
        let (a, b) = trimmed_bounds(t.as_slice(), i);
        if a == b {
            return Err(RequirementError::EmptyPackageName);
        }
        let package = raw.substring_char(a, b).to_string();
        match PackageVersion::new(raw.substring_char(i + 2, t.len())) {
            Ok(version) => {
                let m = PyRequirementsModule { package, version, operator };
                assert(m@ == requirement_of(raw@)->Ok_0);
                Ok(m)
            },
            Err(e) => Err(RequirementError::InvalidVersion(e)),
        }
    }

    /// The line that this requirement reads back as: package, operator and
    /// version text, separated by spaces.
    pub fn to_string(&self) -> (r: String)
        ensures
            r@ == self.package@ + " "@ + operator_token(self.operator) + " "@
                + self.version.original@,
    {
        let op = self.operator.to_string();
        let version = self.version.to_string();
        self.package.clone().concat(" ").concat(op.as_str()).concat(" ").concat(version.as_str())
    }
}

/// Parses one requirement line; see [`PyRequirementsModule::new`].
pub fn parse_requirement(line: &str) -> (r: Result<PyRequirementsModule, RequirementError>)
    ensures
        requirement_view(r) == requirement_of(line@),
{
    PyRequirementsModule::new(line)
}

/// The lines of `t`: the text between line feeds.
pub open spec fn split_lines(t: Seq<char>) -> Seq<Seq<char>>
    decreases t.len(),
{
    if t.len() == 0 {
        seq![Seq::empty()]
    } else {
        let lines = split_lines(t.drop_last());
        if t.last() == '\n' {
            lines.push(Seq::empty())
        } else {
            lines.update(lines.len() - 1, lines.last().push(t.last()))
        }
    }
}

/// A line without the carriage return that ends it, if one does.
pub open spec fn strip_cr(l: Seq<char>) -> Seq<char> {
    if l.len() > 0 && l.last() == '\r' {
        l.drop_last()
    } else {
        l
    }
}

/// A line of white space only.
pub open spec fn is_blank(l: Seq<char>) -> bool {
    forall|k: int| 0 <= k < l.len() ==> is_space(#[trigger] l[k])
}

/// What a line of a requirements file gives: nothing for a blank line, else the
/// requirement it states or why it does not.
pub open spec fn line_outcome(l: Seq<char>) -> Option<Result<ModuleView, RequirementErrorView>> {
    if is_blank(strip_cr(l)) {
        None
    } else {
        Some(requirement_of(strip_cr(l)))
    }
}

/// The requirement that a line states, if it states one.
pub open spec fn line_requirement(l: Seq<char>) -> Option<ModuleView> {
    match line_outcome(l) {
        Some(Ok(m)) => Some(m),
        _ => None,
    }
}

/// The diagnostic for the line numbered `p.0`, if it is not blank and states no requirement.
pub open spec fn line_diagnostic(p: (int, Seq<char>)) -> Option<(int, RequirementErrorView)> {
    match line_outcome(p.1) {
        Some(Err(e)) => Some((p.0, e)),
        _ => None,
    }
}

/// Lines with their numbers, counted from zero.
pub open spec fn numbered(lines: Seq<Seq<char>>) -> Seq<(int, Seq<char>)> {
    lines.map(|i: int, l: Seq<char>| (i, l))
}

/// The requirements that `lines` state, in order.
pub open spec fn stated(lines: Seq<Seq<char>>) -> Seq<ModuleView> {
    lines.filter_map(|l: Seq<char>| line_requirement(l))
}

/// The diagnostics for `lines`, in order.
pub open spec fn reported(lines: Seq<Seq<char>>) -> Seq<(int, RequirementErrorView)> {
    numbered(lines).filter_map(|p: (int, Seq<char>)| line_diagnostic(p))
}

/// The requirements that the text of a file states, in the order of its lines.
pub open spec fn requirements_in(text: Seq<char>) -> Seq<ModuleView> {
    stated(split_lines(text))
}

/// The number of each line that is neither blank nor a requirement, with the
/// reason, in the order of the lines.
pub open spec fn diagnostics_in(text: Seq<char>) -> Seq<(int, RequirementErrorView)> {
    reported(split_lines(text))
}

/// The element of an option, as a sequence of none or one.
pub open spec fn option_seq<A>(o: Option<A>) -> Seq<A> {
    match o {
        Some(x) => seq![x],
        None => Seq::empty(),
    }
}

proof fn lemma_filter_map_push<A, B>(s: Seq<A>, x: A, f: spec_fn(A) -> Option<B>)
    ensures
        s.push(x).filter_map(f) == s.filter_map(f) + option_seq(f(x)),
{
    assert(s.push(x).drop_last() =~= s);
    assert(s.push(x).last() == x);
    if f(x) is None {
        assert(s.filter_map(f) + option_seq(f(x)) =~= s.filter_map(f));
    }
}

proof fn lemma_next_line(lines: Seq<Seq<char>>, l: Seq<char>)
    ensures
        stated(lines.push(l)) == stated(lines) + option_seq(line_requirement(l)),
        reported(lines.push(l)) == reported(lines) + option_seq(
            line_diagnostic((lines.len() as int, l)),
        ),
{
    lemma_filter_map_push(lines, l, |l: Seq<char>| line_requirement(l));
    assert(numbered(lines.push(l)) =~= numbered(lines).push((lines.len() as int, l)));
    lemma_filter_map_push(
        numbered(lines),
        (lines.len() as int, l),
        |p: (int, Seq<char>)| line_diagnostic(p),
    );
}

/// How `split_lines` grows by one character.
proof fn lemma_split_step(t: Seq<char>, i: int)
    requires
        0 <= i < t.len(),
    ensures
        t[i] == '\n' ==> split_lines(t.take(i + 1)) == split_lines(t.take(i)).push(Seq::empty()),
        t[i] != '\n' ==> split_lines(t.take(i + 1)) == split_lines(t.take(i)).update(
            split_lines(t.take(i)).len() - 1,
            split_lines(t.take(i)).last().push(t[i]),
        ),
{
    assert(t.take(i + 1).drop_last() =~= t.take(i));
}

/// A line of a requirements file that states no requirement.
#[derive(Debug)]
pub struct Diagnostic {
    /// The number of the line, counted from zero.
    pub line: usize,
    pub error: RequirementError,
}

impl View for Diagnostic {
    type V = (int, RequirementErrorView);

    open spec fn view(&self) -> (int, RequirementErrorView) {
        (self.line as int, self.error@)
    }
}

/// Why a requirements file could not be read.
#[derive(Clone, Copy, Debug, PartialEq, Eq, Structural)]
pub enum IoError {
    NotFound,
    NotAFile,
    ReadFailure,
}

/// A requirements file: where it was read from, the requirements its lines
/// state, and the lines that state none.
#[derive(Debug)]
pub struct PyRequirements {
    pub file: String,
    pub requirements: Vec<PyRequirementsModule>,
    pub diagnostics: Vec<Diagnostic>,
}

/// The values of requirements.
pub open spec fn module_views(v: Seq<PyRequirementsModule>) -> Seq<ModuleView> {
    v.map_values(|m: PyRequirementsModule| m@)
}

/// The values of diagnostics.
pub open spec fn diagnostic_views(v: Seq<Diagnostic>) -> Seq<(int, RequirementErrorView)> {
    v.map_values(|d: Diagnostic| d@)
}

impl PyRequirements {
    /// The requirements, as values.
    pub open spec fn requirements_view(&self) -> Seq<ModuleView> {
        module_views(self.requirements@)
    }

    /// The diagnostics, as values.
    pub open spec fn diagnostics_view(&self) -> Seq<(int, RequirementErrorView)> {
        diagnostic_views(self.diagnostics@)
    }
}

/// Whether `t[start..end]` is white space only.
fn blank_range(t: &[char], start: usize, end: usize) -> (r: bool)
    requires
        start <= end <= t@.len(),
    ensures
        r == is_blank(t@.subrange(start as int, end as int)),
{
    let mut k = start;
    while k < end
        invariant
            start <= k <= end <= t@.len(),
            forall|j: int| start <= j < k ==> is_space(#[trigger] t@[j]),
        decreases end - k,
    {
        if !space(t[k]) {
            assert(t@.subrange(start as int, end as int)[k - start] == t@[k as int]);
            return false;
        }
        k = k + 1;
    }
    assert forall|j: int| 0 <= j < end - start implies is_space(
        #[trigger] t@.subrange(start as int, end as int)[j],
    ) by {
        assert(t@.subrange(start as int, end as int)[j] == t@[start + j]);
    }
    true
}

/// Parses the line `t[start..end]`, a carriage return at its end left out, and
/// files what it gives.
#[verifier::rlimit(40)]
fn read_line(
    text: &str,
    t: &[char],
    start: usize,
    end: usize,
    line_no: usize,
    requirements: &mut Vec<PyRequirementsModule>,
    diagnostics: &mut Vec<Diagnostic>,
)
    requires
        t@ == text@,
        start <= end <= t@.len(),
    ensures
        module_views(final(requirements)@) == module_views(old(requirements)@) + option_seq(
            line_requirement(t@.subrange(start as int, end as int)),
        ),
        diagnostic_views(final(diagnostics)@) == diagnostic_views(old(diagnostics)@) + option_seq(
            line_diagnostic((line_no as int, t@.subrange(start as int, end as int))),
        ),
{
    let ghost line = t@.subrange(start as int, end as int);
    let mut stop = end;
    if stop > start && t[stop - 1] == '\r' {
        stop = stop - 1;
    }
    assert(t@.subrange(start as int, stop as int) =~= strip_cr(line));
    if blank_range(t, start, stop) {
        assert(module_views(requirements@) + option_seq(line_requirement(line)) =~= module_views(
            requirements@,
        ));
        assert(diagnostic_views(diagnostics@) + option_seq(line_diagnostic((line_no as int, line)))
            =~= diagnostic_views(diagnostics@));
        return ;
    }
    match PyRequirementsModule::new(text.substring_char(start, stop)) {
        Ok(m) => {
            requirements.push(m);
            assert(module_views(requirements@) =~= module_views(old(requirements)@) + option_seq(
                line_requirement(line),
            ));
            assert(diagnostic_views(diagnostics@) + option_seq(
                line_diagnostic((line_no as int, line)),
            ) =~= diagnostic_views(diagnostics@));
        },
        Err(e) => {
            diagnostics.push(Diagnostic { line: line_no, error: e });
            assert(diagnostic_views(diagnostics@) =~= diagnostic_views(old(diagnostics)@)
                + option_seq(line_diagnostic((line_no as int, line))));
            assert(module_views(requirements@) + option_seq(line_requirement(line)) =~= module_views(
                requirements@,
            ));
        },
    }
}

impl PyRequirements {
    /// Reads the requirements from the text of a file, line by line. Blank lines
    /// are skipped; a line that states no requirement becomes a diagnostic and
    /// the reading goes on.
    pub fn from_text(file: &str, text: &str) -> (r: Self)
        ensures
            r.file@ == file@,
            r.requirements_view() == requirements_in(text@),
            r.diagnostics_view() == diagnostics_in(text@),
            r.requirements@.len() == valid_lines(split_lines(text@)).len(),
            r.diagnostics@.len() == malformed_lines(split_lines(text@)).len(),
            r.requirements_view() == requirements_of_lines(valid_lines(split_lines(text@))),
    {
        let t = chars_of(text);
        let mut requirements: Vec<PyRequirementsModule> = Vec::new();
        let mut diagnostics: Vec<Diagnostic> = Vec::new();
        let ghost mut lines: Seq<Seq<char>> = Seq::empty();
        let mut start: usize = 0;
        let mut i: usize = 0;
        let mut line_no: usize = 0;
        assert(t@.take(0) =~= Seq::<char>::empty());
        assert(split_lines(t@.take(0)) =~= lines.push(t@.subrange(0, 0)));
        assert(module_views(requirements@) =~= stated(lines));
        assert(diagnostic_views(diagnostics@) =~= reported(lines));
        while i < t.len()
            invariant
                start <= i <= t@.len(),
                t@ == text@,
                line_no == lines.len(),
                lines.len() <= start,
                split_lines(t@.take(i as int)) == lines.push(t@.subrange(start as int, i as int)),
                module_views(requirements@) == stated(lines),
                diagnostic_views(diagnostics@) == reported(lines),
            decreases t@.len() - i,
        {
            proof {
                lemma_split_step(t@, i as int);
            }
            if t[i] == '\n' {
                let ghost line = t@.subrange(start as int, i as int);
                read_line(text, t.as_slice(), start, i, line_no, &mut requirements, &mut diagnostics);
                proof {
                    lemma_next_line(lines, line);
                    lines = lines.push(line);
                    assert(t@.subrange(i + 1, i + 1) =~= Seq::<char>::empty());
                }
                start = i + 1;
                line_no = line_no + 1;
            } else {
                proof {
                    assert(t@.subrange(start as int, i + 1) =~= t@.subrange(start as int, i as int).push(t@[i as int]));
                    assert(lines.push(t@.subrange(start as int, i as int)).update(
                        lines.len() as int,
                        t@.subrange(start as int, i + 1),
                    ) =~= lines.push(t@.subrange(start as int, i + 1)));
                }
            }
            i = i + 1;
        }
        let ghost line = t@.subrange(start as int, i as int);
        read_line(text, t.as_slice(), start, i, line_no, &mut requirements, &mut diagnostics);
        proof {
            lemma_next_line(lines, line);
            assert(t@.take(i as int) =~= t@);
            lemma_load_counts(text@);
        }
        PyRequirements { file: file.to_string(), requirements, diagnostics }
    }
}

/// A line that states a requirement.
pub open spec fn is_valid_line(l: Seq<char>) -> bool {
    line_requirement(l) is Some
}

/// A line that is not blank and states no requirement.
pub open spec fn is_malformed_line(l: Seq<char>) -> bool {
    line_outcome(l) matches Some(Err(_))
}

/// The lines that state a requirement, in order.
pub open spec fn valid_lines(lines: Seq<Seq<char>>) -> Seq<Seq<char>> {
    lines.filter(|l: Seq<char>| is_valid_line(l))
}

/// The lines that are neither blank nor a requirement, in order.
pub open spec fn malformed_lines(lines: Seq<Seq<char>>) -> Seq<Seq<char>> {
    lines.filter(|l: Seq<char>| is_malformed_line(l))
}

/// `d` gives the number of a line of `lines` that is not blank and states no
/// requirement, with the reason.
pub open spec fn names_malformed_line(lines: Seq<Seq<char>>, d: (int, RequirementErrorView)) -> bool {
    0 <= d.0 < lines.len() && line_outcome(lines[d.0]) == Some(
        Err::<ModuleView, RequirementErrorView>(d.1),
    )
}

/// The requirement of each valid line.
pub open spec fn requirements_of_lines(lines: Seq<Seq<char>>) -> Seq<ModuleView> {
    lines.map_values(|l: Seq<char>| line_requirement(l)->0)
}

proof fn lemma_stated_lines(lines: Seq<Seq<char>>)
    ensures
        stated(lines) == requirements_of_lines(valid_lines(lines)),
    decreases lines.len(),
{
    if lines.len() > 0 {
        let front = lines.drop_last();
        let l = lines.last();
        lemma_stated_lines(front);
        reveal(Seq::filter);
        assert(lines =~= front.push(l));
        lemma_next_line(front, l);
        let v = valid_lines(front);
        if is_valid_line(l) {
            assert(valid_lines(lines) == v.push(l));
            assert(requirements_of_lines(v.push(l)) =~= requirements_of_lines(v).push(
                line_requirement(l)->0,
            ));
        } else {
            assert(valid_lines(lines) == v);
            assert(stated(front) + option_seq(line_requirement(l)) =~= stated(front));
        }
    } else {
        reveal(Seq::filter);
        assert(requirements_of_lines(valid_lines(lines)) =~= Seq::<ModuleView>::empty());
    }
}

proof fn lemma_reported_lines(lines: Seq<Seq<char>>)
    ensures
        reported(lines).len() == malformed_lines(lines).len(),
        forall|j: int|
            0 <= j < reported(lines).len() ==> names_malformed_line(
                lines,
                #[trigger] reported(lines)[j],
            ),
    decreases lines.len(),
{
    if lines.len() > 0 {
        let front = lines.drop_last();
        let l = lines.last();
        lemma_reported_lines(front);
        reveal(Seq::filter);
        assert(lines =~= front.push(l));
        lemma_next_line(front, l);
        assert forall|j: int| 0 <= j < reported(lines).len() implies names_malformed_line(
            lines,
            #[trigger] reported(lines)[j],
        ) by {
            if j < reported(front).len() {
                assert(names_malformed_line(front, reported(front)[j]));
                assert(lines[reported(front)[j].0] == front[reported(front)[j].0]);
            }
        }
        if is_malformed_line(l) {
            assert(malformed_lines(lines) == malformed_lines(front).push(l));
        } else {
            assert(malformed_lines(lines) == malformed_lines(front));
        }
    } else {
        reveal(Seq::filter);
    }
}

/// Loading a file never fails as a whole. With `N` lines that state a
/// requirement and `M` lines that are neither blank nor a requirement, in any
/// interleaving, it gives exactly `N` requirements, those of the valid lines in
/// the order of the lines, and exactly `M` diagnostics, each naming one of
/// those lines and what is wrong with it.
pub proof fn lemma_load_counts(text: Seq<char>)
    ensures
        requirements_in(text).len() == valid_lines(split_lines(text)).len(),
        diagnostics_in(text).len() == malformed_lines(split_lines(text)).len(),
        requirements_in(text) == requirements_of_lines(valid_lines(split_lines(text))),
        forall|j: int|
            0 <= j < diagnostics_in(text).len() ==> names_malformed_line(
                split_lines(text),
                #[trigger] diagnostics_in(text)[j],
            ),
{
    lemma_stated_lines(split_lines(text));
    lemma_reported_lines(split_lines(text));
}

} // verus!
