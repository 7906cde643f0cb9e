use taskstore::date::{date_le, Date};
use taskstore::project::{sort_projects, Project};
use taskstore::state::App;

fn d(year: i32, month: u32, day: u32) -> Date {
    Date { year, month, day }
}

fn titled(t: &str) -> Project {
    Project { title: t.to_string(), tasks: vec![] }
}

fn titles(ps: &[Project]) -> Vec<String> {
    ps.iter().map(|p| p.title.clone()).collect()
}

#[test]
fn day_titles_are_zero_padded() {
    let out = Project::backfill_from(vec![], d(987, 12, 30), d(988, 1, 1));
    assert_eq!(titles(&out), vec!["30.12.0987", "31.12.0987", "01.01.0988"]);
}

#[test]
fn days_follow_the_calendar() {
    let leap = Project::backfill_from(vec![], d(2024, 2, 28), d(2024, 3, 1));
    assert_eq!(titles(&leap), vec!["28.02.2024", "29.02.2024", "01.03.2024"]);
    let plain = Project::backfill_from(vec![], d(2023, 2, 28), d(2023, 3, 1));
    assert_eq!(titles(&plain), vec!["28.02.2023", "01.03.2023"]);
    let century = Project::backfill_from(vec![], d(1900, 2, 28), d(1900, 3, 1));
    assert_eq!(titles(&century), vec!["28.02.1900", "01.03.1900"]);
    let month = Project::backfill_from(vec![], d(2024, 4, 30), d(2024, 5, 1));
    assert_eq!(titles(&month), vec!["30.04.2024", "01.05.2024"]);
}

#[test]
fn titles_that_are_no_date_do_not_start_the_backfill() {
    let out = Project::backfill(vec![titled("30.02.2024")], d(2024, 3, 2));
    assert!(out.is_err());
    let out = Project::backfill(vec![titled("30.02.2024"), titled("01.03.2024")], d(2024, 3, 2)).unwrap();
    assert_eq!(titles(&out), vec!["30.02.2024", "01.03.2024", "02.03.2024"]);
    let out = Project::backfill(vec![titled("3.1.2024")], d(2024, 1, 4)).unwrap();
    assert_eq!(titles(&out), vec!["3.1.2024", "03.01.2024", "04.01.2024"]);
}

#[test]
fn todays_project_has_a_day_title() {
    let app = App::setup(vec![]);
    let next = Project::create(&app, String::new()).unwrap();
    let title = next[0].title.clone();
    assert_eq!(title.len(), 10);
    assert_eq!(&title[2..3], ".");
    assert_eq!(&title[5..6], ".");
    let again = App::setup(sort_projects(next));
    assert!(Project::create(&again, String::new()).is_none());
    let mixed = sort_projects(vec![titled(&title), titled("inbox")]);
    assert_eq!(titles(&mixed), vec!["inbox".to_string(), title]);
}

#[test]
fn dates_compare_chronologically() {
    assert!(date_le(d(2023, 12, 31), d(2024, 1, 1)));
    assert!(date_le(d(2024, 1, 1), d(2024, 1, 1)));
    assert!(!date_le(d(2024, 2, 1), d(2024, 1, 31)));
}

#[test]
fn undated_projects_come_first_in_their_order() {
    let ps = vec![
        titled("02.01.2024"),
        titled("work"),
        titled("01.01.2024"),
        titled("home"),
        titled("15.12.2023"),
        titled("30.02.2024"),
    ];
    let sorted = sort_projects(ps);
    assert_eq!(
        titles(&sorted),
        vec!["work", "home", "30.02.2024", "15.12.2023", "01.01.2024", "02.01.2024"]
    );
}

#[test]
fn equal_dates_keep_their_order() {
    let ps = vec![titled("1.1.2024"), titled("01.01.2024"), titled("31.12.2023")];
    let sorted = sort_projects(ps);
    assert_eq!(titles(&sorted), vec!["31.12.2023", "1.1.2024", "01.01.2024"]);
}

#[test]
fn sorting_nothing_gives_nothing() {
    assert!(sort_projects(vec![]).is_empty());
}
