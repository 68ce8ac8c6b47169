use rs_build::cargo_build::{Build, BuildOutcome};
use rs_build::config::Repositories;
use rs_build::hooks::{finish_hook, plan_hook, HookPlan, MergedAt, PullRequestEvent, PullRequestObject, RepositoryObject, UserObject};
use rs_build::reports::{count_from_query, highlighted_name, report_page, repo_options, reports_to_show, select_from_query, Report, Select};

fn s(x: &str) -> String {
    x.to_string()
}

fn report(name: &str, time: i64) -> Report {
    Report {
        repo_name: s(name),
        repo_url: s("u"),
        pr_url: s("p"),
        diff_url: s("d"),
        user: s("me"),
        user_url: s("mu"),
        title: s("t"),
        time,
        cargo_msg: s("ok"),
    }
}

fn repos() -> Repositories {
    let mut r = Repositories::new();
    r.insert(s("web"), s("/w"));
    r.insert(s("api"), s("/a"));
    r
}

#[test]
fn selection_from_query() {
    assert_eq!(select_from_query(None), Select::Any);
    assert_eq!(select_from_query(Some(&vec![])), Select::Any);
    assert_eq!(select_from_query(Some(&vec![s("web")])), Select::Repo(s("web")));
    assert_eq!(select_from_query(Some(&vec![s("web"), s("Any")])), Select::Any);
    assert_eq!(select_from_query(Some(&vec![s("Any"), s("api")])), Select::Repo(s("api")));
}

#[test]
fn count_from_query_defaults_to_three() {
    assert_eq!(count_from_query(None), 3);
    assert_eq!(count_from_query(Some(&vec![])), 3);
    assert_eq!(count_from_query(Some(&vec![s("many")])), 3);
    assert_eq!(count_from_query(Some(&vec![s("1"), s("5")])), 5);
    assert_eq!(count_from_query(Some(&vec![s("-2")])), -2);
}

#[test]
fn highlighted_name_for_any_uses_repositories_entry() {
    let mut r = repos();
    assert_eq!(highlighted_name(&Select::Any, &r), "");
    r.insert(s("repositories"), s("web"));
    assert_eq!(highlighted_name(&Select::Any, &r), "web");
    assert_eq!(highlighted_name(&Select::Repo(s("api")), &r), "api");
}

#[test]
fn selector_marks_the_selected_repository() {
    let opts = repo_options(&repos(), &Select::Repo(s("web")));
    let got: Vec<(String, bool)> = opts.iter().map(|o| (o.name.clone(), o.selected)).collect();
    assert_eq!(got, vec![(s("api"), false), (s("web"), true), (s("Any"), false)]);
    let opts = repo_options(&repos(), &Select::Any);
    let got: Vec<(String, bool)> = opts.iter().map(|o| (o.name.clone(), o.selected)).collect();
    assert_eq!(got, vec![(s("api"), false), (s("web"), false), (s("Any"), true)]);
}

#[test]
fn shown_reports_filter_then_take() {
    let logs = vec![report("web", 1), report("api", 2), report("web", 3), report("web", 4)];
    assert_eq!(reports_to_show(&logs, &Select::Repo(s("web")), 2), vec![report("web", 1), report("web", 3)]);
    assert_eq!(reports_to_show(&logs, &Select::Any, 3), logs[..3].to_vec());
    assert_eq!(reports_to_show(&logs, &Select::Any, 10), logs);
    assert_eq!(reports_to_show(&logs, &Select::Any, 0), vec![]);
    assert_eq!(reports_to_show(&logs, &Select::Any, -1), logs);
    assert_eq!(reports_to_show(&logs, &Select::Repo(s("none")), 3), vec![]);
}

#[test]
fn report_page_from_query() {
    let logs = vec![report("web", 1), report("api", 2), report("web", 3)];
    let page = report_page(&logs, &repos(), Some(&vec![s("web")]), Some(&vec![s("1")]));
    assert_eq!(page.reports, vec![report("web", 1)]);
    assert_eq!(page.num_sel, "1");
    assert!(page.repo_sel[1].selected);
    let page = report_page(&logs, &repos(), None, None);
    assert_eq!(page.reports.len(), 3);
    assert_eq!(page.num_sel, "3");
    assert!(page.repo_sel[2].selected);
}

fn event(name: &str, merged: bool) -> PullRequestEvent {
    PullRequestEvent {
        pull_request: PullRequestObject {
            merged_at: if merged {
                MergedAt { as_str: Some(s("2017-01-01T00:00:00Z")), json: s("\"2017-01-01T00:00:00Z\"") }
            } else {
                MergedAt { as_str: None, json: s("null") }
            },
            url: s("https://api/pr/1"),
            diff_url: s("https://pr/1.diff"),
            title: s("Fix"),
            user: UserObject { login: s("dev"), html_url: s("https://dev") },
        },
        repository: RepositoryObject { id: 42, name: s(name), html_url: s("https://repo") },
    }
}

#[test]
fn hook_refuses_unmerged_pull_requests() {
    match plan_hook(&event("web", false), &repos()) {
        HookPlan::NotMerged(m) => assert_eq!(m, "\n'merged_at': null, 'repo': web, 'url': https://repo"),
        _ => panic!("expected a refusal"),
    }
}

#[test]
fn hook_answers_unknown_repositories_without_building() {
    match plan_hook(&event("other", true), &repos()) {
        HookPlan::Answer(a) => assert_eq!(
            a,
            "\n'repo': other, 'ID': 42, 'url': https://repo, 'merged_at': \"2017-01-01T00:00:00Z\", 'cargo_msg':nothing here yet"
        ),
        _ => panic!("expected an answer"),
    }
}

#[test]
fn hook_builds_listed_repositories_and_archives_a_report() {
    let e = event("web", true);
    let (answer, path) = match plan_hook(&e, &repos()) {
        HookPlan::Build { answer, path } => (answer, path),
        _ => panic!("expected a build"),
    };
    assert_eq!(path, "/w");
    let b = Build::from_outcome(&BuildOutcome::Ran(b"Finished\n".to_vec()));
    let (r, text) = finish_hook(&e, answer.clone(), &path, &b, 99);
    assert_eq!(r.repo_name, "web");
    assert_eq!(r.repo_url, "https://repo");
    assert_eq!(r.pr_url, "https://api/pr/1");
    assert_eq!(r.diff_url, "https://pr/1.diff");
    assert_eq!(r.user, "dev");
    assert_eq!(r.user_url, "https://dev");
    assert_eq!(r.title, "Fix");
    assert_eq!(r.time, 99);
    assert_eq!(r.cargo_msg, "Finished");
    assert_eq!(
        text,
        answer + "\n'repo_name': web, 'repo_id': 42, 'html_url': https://repo, 'merged_at': \"2017-01-01T00:00:00Z\", 'loc_path': /w, 'cargo_msg':Finished"
    );
}
