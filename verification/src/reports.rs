//! The report page: which builds to show, which repository the selector
//! highlights, and how many reports a page holds.

use vstd::prelude::*;
use crate::config::{Repositories, lookup, EntryText};
use crate::text::{int_to_text, int_text, parse_i32, parse_i32_spec, law_parse_reads_back_text};

verus! {

broadcast use vstd::string::group_string_axioms;

/// What the archive keeps of one merged pull request and its build.
#[derive(Debug, PartialEq, Eq, PartialOrd, Ord)]
pub struct Report {
    pub repo_name: String,
    pub repo_url: String,
    pub pr_url: String,
    pub diff_url: String,
    pub user: String,
    pub user_url: String,
    pub title: String,
    pub time: i64,
    pub cargo_msg: String,
}

impl Clone for Report {
    fn clone(&self) -> (r: Self)
        ensures
            r == *self,
    {
        Report {
            repo_name: self.repo_name.clone(),
            repo_url: self.repo_url.clone(),
            pr_url: self.pr_url.clone(),
            diff_url: self.diff_url.clone(),
            user: self.user.clone(),
            user_url: self.user_url.clone(),
            title: self.title.clone(),
            time: self.time,
            cargo_msg: self.cargo_msg.clone(),
        }
    }
}

/// A list of reports.
pub struct Reports {
    pub reports: Vec<Report>,
}

/// Which reports a page shows: those of one repository, or all.
#[derive(Debug, Clone, PartialEq, Eq, Hash)]
pub enum Select {
    Repo(String),
    Any,
}

/// One choice of the repository selector, and whether it is the selected one.
pub struct RepoSelOpts {
    pub name: String,
    pub selected: bool,
}

/// The count of reports a page shows when the query names none, or names
/// no number.
pub open spec fn default_count() -> i32 {
    3
}

/// The last of the values a query gives for a key, if any.
pub open spec fn last_value(values: Option<Seq<String>>) -> Option<Seq<char>> {
    match values {
        Some(v) => if v.len() > 0 {
            Some(v.last()@)
        } else {
            None
        },
        None => None,
    }
}

/// The repository a page is about: the last `repo` value, unless it is
/// `Any`; `None` for all repositories.
pub open spec fn select_spec(repo_values: Option<Seq<String>>) -> Option<Seq<char>> {
    match last_value(repo_values) {
        Some(v) => if v == "Any"@ {
            None
        } else {
            Some(v)
        },
        None => None,
    }
}

/// The repository a selection is about; `None` for all repositories.
pub open spec fn selected_repo(s: Select) -> Option<Seq<char>> {
    match s {
        Select::Repo(n) => Some(n@),
        Select::Any => None,
    }
}

/// The number of reports a page asks for: the last `num` value read as an
/// `i32`, or 3 when there is none or it does not read as one.
pub open spec fn count_spec(num_values: Option<Seq<String>>) -> i32 {
    match last_value(num_values) {
        Some(v) => match parse_i32_spec(v) {
            Some(n) => n,
            None => default_count(),
        },
        None => default_count(),
    }
}

/// The selection a query asks for.
pub fn select_from_query(repo_values: Option<&Vec<String>>) -> (r: Select)
    ensures
        selected_repo(r) == select_spec(match repo_values {
            Some(v) => Some(v@),
            None => None,
        }),
{
    match repo_values {
        Some(v) => {
            if v.len() == 0 {
                Select::Any
            } else {
                let last = v[v.len() - 1].clone();
                if last == "Any".to_string() {
                    Select::Any
                } else {
                    Select::Repo(last)
                }
            }
        },
        None => Select::Any,
    }
}

/// The number of reports a query asks for.
pub fn count_from_query(num_values: Option<&Vec<String>>) -> (r: i32)
    ensures
        r == count_spec(match num_values {
            Some(v) => Some(v@),
            None => None,
        }),
{
    match num_values {
        Some(v) => {
            if v.len() == 0 {
                3
            } else {
                match parse_i32(v[v.len() - 1].as_str()) {
                    Some(n) => n,
                    None => 3,
                }
            }
        },
        None => 3,
    }
}

/// The name the selector highlights: the selected repository, or, for all
/// repositories, the path listed under the name `repositories` (empty if
/// there is none).
pub open spec fn highlighted_spec(s: Option<Seq<char>>, repos: Seq<EntryText>) -> Seq<char> {
    match s {
        Some(n) => n,
        None => match lookup(repos, "repositories"@) {
            Some(p) => p,
            None => Seq::empty(),
        },
    }
}

/// The name the selector highlights.
pub fn highlighted_name(select: &Select, repos: &Repositories) -> (r: String)
    ensures
        r@ == highlighted_spec(selected_repo(*select), repos@),
{
    match select {
        Select::Repo(n) => n.clone(),
        Select::Any => match repos.get(&"repositories".to_string()) {
            Some(p) => p,
            None => String::new(),
        },
    }
}

/// Whether the selector's last choice, `Any`, is the selected one.
pub open spec fn any_selected(s: Select) -> bool {
    match s {
        Select::Repo(n) => n@ == "Any"@,
        Select::Any => true,
    }
}

/// The choices of the repository selector: one per repository, in the
/// table's order, selected where its name is the highlighted one; then `Any`.
pub fn repo_options(repos: &Repositories, select: &Select) -> (r: Vec<RepoSelOpts>)
    ensures
        r@.len() == repos@.len() + 1,
        forall|i: int| 0 <= i < repos@.len() ==> (#[trigger] r@[i]).name@ == repos@[i].0
            && r@[i].selected == (repos@[i].0 == highlighted_spec(selected_repo(*select), repos@)),
        r@.last().name@ == "Any"@,
        r@.last().selected == any_selected(*select),
{
    let highlighted = highlighted_name(select, repos);
    let entries = repos.entries();
    let mut r: Vec<RepoSelOpts> = Vec::new();
    let mut i: usize = 0;
    while i < entries.len()
        invariant
            i <= entries@.len(),
            entries@.map_values(|p: (String, String)| (p.0@, p.1@)) == repos@,
            highlighted@ == highlighted_spec(selected_repo(*select), repos@),
            r@.len() == i,
            forall|j: int| 0 <= j < i ==> (#[trigger] r@[j]).name@ == repos@[j].0
                && r@[j].selected == (repos@[j].0 == highlighted@),
        decreases entries@.len() - i,
    {
        let name = entries[i].0.clone();
        let selected = highlighted == name;
        proof {
            assert(repos@[i as int] == (entries@[i as int].0@, entries@[i as int].1@));
        }
        r.push(RepoSelOpts { name, selected });
        i = i + 1;
    }
    let any = match select {
        Select::Repo(n) => *n == "Any".to_string(),
        Select::Any => true,
    };
    r.push(RepoSelOpts { name: "Any".to_string(), selected: any });
    r
}

/// Whether a report belongs on a page with the selection `s`.
pub open spec fn report_matches(report: Report, s: Option<Seq<char>>) -> bool {
    match s {
        Some(n) => report.repo_name@ == n,
        None => true,
    }
}

/// The reports of `logs` that belong on the page, in archive order.
pub open spec fn matching(logs: Seq<Report>, s: Option<Seq<char>>) -> Seq<Report>
    decreases logs.len(),
{
    if logs.len() == 0 {
        Seq::empty()
    } else if report_matches(logs.last(), s) {
        matching(logs.drop_last(), s).push(logs.last())
    } else {
        matching(logs.drop_last(), s)
    }
}

/// The reports a page shows: the first `count` matching ones, or all of them
/// when `count` is negative (a negative count, taken as a `usize`, exceeds
/// every possible length).
pub open spec fn shown_spec(logs: Seq<Report>, s: Option<Seq<char>>, count: i32) -> Seq<Report> {
    let m = matching(logs, s);
    if count < 0 || count >= m.len() {
        m
    } else {
        m.take(count as int)
    }
}

/// Every report of `matching` is one of `logs` and belongs on the page.
pub proof fn lemma_matching(logs: Seq<Report>, s: Option<Seq<char>>)
    ensures
        matching(logs, s).len() <= logs.len(),
        forall|i: int| 0 <= i < matching(logs, s).len() ==> report_matches(#[trigger] matching(logs, s)[i], s)
            && logs.contains(matching(logs, s)[i]),
    decreases logs.len(),
{
    if logs.len() > 0 {
        let rest = logs.drop_last();
        lemma_matching(rest, s);
        let m = matching(logs, s);
        assert forall|i: int| 0 <= i < m.len() implies report_matches(#[trigger] m[i], s)
            && logs.contains(m[i]) by {
            if i < matching(rest, s).len() {
                assert(m[i] == matching(rest, s)[i]);
                let j: int = choose|j: int| 0 <= j < rest.len() && rest[j] == m[i];
                assert(logs[j] == m[i]);
            } else {
                assert(m[i] == logs.last());
                assert(logs[logs.len() - 1] == m[i]);
            }
        }
    }
}

/// With `Any` selected, every report of the archive matches, in order.
pub proof fn law_any_matches_everything(logs: Seq<Report>)
    ensures
        matching(logs, None) == logs,
    decreases logs.len(),
{
    if logs.len() > 0 {
        law_any_matches_everything(logs.drop_last());
        assert(logs.drop_last().push(logs.last()) =~= logs);
    }
}

/// A page shows only reports of the archive that match its selection, no
/// more than the count asked for when that count is not negative, and all
/// matching ones when it is negative or at least their number.
pub proof fn law_shown_reports(logs: Seq<Report>, s: Option<Seq<char>>, count: i32)
    ensures
        ({
            let shown = shown_spec(logs, s, count);
            &&& forall|i: int| 0 <= i < shown.len() ==> report_matches(#[trigger] shown[i], s) && logs.contains(shown[i])
            &&& count >= 0 ==> shown.len() <= count
            &&& (count < 0 || count >= matching(logs, s).len()) ==> shown == matching(logs, s)
            &&& shown.len() <= logs.len()
        }),
{
    lemma_matching(logs, s);
    let m = matching(logs, s);
    let shown = shown_spec(logs, s, count);
    assert forall|i: int| 0 <= i < shown.len() implies report_matches(#[trigger] shown[i], s) && logs.contains(shown[i]) by {
        assert(shown[i] == m[i]);
    }
}

/// With a repository `n` selected, the matching reports are exactly the
/// reports of the archive whose `repo_name` is `n`, in archive order, and the
/// page shows a leading part of them: every shown report has the name `n`.
pub proof fn law_selected_repository_only(logs: Seq<Report>, n: Seq<char>, count: i32)
    ensures
        matching(logs, Some(n)) == logs.filter(|r: Report| r.repo_name@ == n),
        forall|i: int| 0 <= i < shown_spec(logs, Some(n), count).len()
            ==> (#[trigger] shown_spec(logs, Some(n), count)[i]).repo_name@ == n
            && shown_spec(logs, Some(n), count)[i] == logs.filter(|r: Report| r.repo_name@ == n)[i],
    decreases logs.len(),
{
    let pred = |r: Report| r.repo_name@ == n;
    reveal_with_fuel(Seq::filter, 1);
    if logs.len() > 0 {
        law_selected_repository_only(logs.drop_last(), n, count);
        assert(matching(logs, Some(n)) == logs.filter(pred));
    } else {
        assert(matching(logs, Some(n)) =~= logs.filter(pred));
    }
    let f = logs.filter(pred);
    assert forall|i: int| 0 <= i < f.len() implies (#[trigger] f[i]).repo_name@ == n by {
        logs.filter_lemma(pred);
        assert(pred(f[i]));
    }
}

/// The count a query asks for: the last `num` value when it reads as an
/// `i32` (whatever its size), 3 when it does not or when there is none.
pub proof fn law_count_is_the_parsed_number(v: Seq<String>, n: i32)
    ensures
        v.len() > 0 && parse_i32_spec(v.last()@) == Some(n) ==> count_spec(Some(v)) == n,
        v.len() > 0 && parse_i32_spec(v.last()@) is None ==> count_spec(Some(v)) == 3,
        v.len() == 0 ==> count_spec(Some(v)) == 3,
        count_spec(None) == 3,
{
}

/// Whatever `i32` a query writes as its last `num` value, in decimal, is the
/// count the page takes.
pub proof fn law_count_reads_back_decimal(v: Seq<String>, n: i32)
    requires
        v.len() > 0,
        v.last()@ == int_text(n as int),
    ensures
        count_spec(Some(v)) == n,
{
    law_parse_reads_back_text(n);
}

/// The reports a page shows, in archive order: those of the selected
/// repository (or all), at most `count` of them unless `count` is negative.
pub fn reports_to_show(logs: &Vec<Report>, select: &Select, count: i32) -> (r: Vec<Report>)
    ensures
        r@ == shown_spec(logs@, selected_repo(*select), count),
{
    let mut m: Vec<Report> = Vec::new();
    let mut i: usize = 0;
    while i < logs.len()
        invariant
            i <= logs@.len(),
            m@ == matching(logs@.take(i as int), selected_repo(*select)),
        decreases logs@.len() - i,
    {
        let report = &logs[i];
        let keep = match select {
            Select::Repo(n) => report.repo_name == *n,
            Select::Any => true,
        };
        proof {
            assert(logs@.take(i + 1).drop_last() =~= logs@.take(i as int));
            assert(logs@.take(i + 1).last() == logs@[i as int]);
        }
        if keep {
            m.push(report.clone());
        }
        i = i + 1;
    }
    assert(logs@.take(i as int) =~= logs@);
    if count < 0 || count as usize >= m.len() {
        m
    } else {
        let mut r: Vec<Report> = Vec::new();
        let mut j: usize = 0;
        let limit: usize = count as usize;
        while j < limit
            invariant
                j <= limit,
                limit < m@.len(),
                limit == count,
                r@ == m@.take(j as int),
            decreases limit - j,
        {
            r.push(m[j].clone());
            assert(r@ =~= m@.take(j + 1));
            j = j + 1;
        }
        r
    }
}

/// What the report page shows: the reports, the selector's choices and the
/// count asked for, as text.
pub struct ReportPage {
    pub reports: Vec<Report>,
    pub repo_sel: Vec<RepoSelOpts>,
    pub num_sel: String,
}

/// The report page for a query whose `repo` values are `repo_values` and
/// whose `num` values are `num_values`.
pub fn report_page(
    logs: &Vec<Report>,
    repos: &Repositories,
    repo_values: Option<&Vec<String>>,
    num_values: Option<&Vec<String>>,
) -> (r: ReportPage)
    ensures
        ({
            let count = count_spec(match num_values {
                Some(v) => Some(v@),
                None => None,
            });
            let sel = select_spec(match repo_values {
                Some(v) => Some(v@),
                None => None,
            });
            &&& r.num_sel@ == int_text(count as int)
            &&& r.repo_sel@.len() == repos@.len() + 1
            &&& r.repo_sel@.last().name@ == "Any"@
            &&& r.repo_sel@.last().selected == (sel is None)
            &&& forall|i: int| 0 <= i < repos@.len() ==> (#[trigger] r.repo_sel@[i]).name@ == repos@[i].0
                && r.repo_sel@[i].selected == (repos@[i].0 == highlighted_spec(sel, repos@))
            &&& r.reports@ == shown_spec(logs@, sel, count)
        }),
{
    let select = select_from_query(repo_values);
    let count = count_from_query(num_values);
    let reports = reports_to_show(logs, &select, count);
    let repo_sel = repo_options(repos, &select);
    let num_sel = int_to_text(count as i64);
    ReportPage { reports, repo_sel, num_sel }
}

} // verus!
