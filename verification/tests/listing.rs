use website::date::Date;
use website::error::AppError;
use website::listing::{get_projects, insert_listed, sort_projects, ContentFile};
use website::project::Project;

fn content(title: &str, date: &str, tech: &str, body: &str) -> String {
    format!(
        "---\ntitle: {}\ndate: {}\ndescription: About {}\ntech: {}\n---\n{}",
        title, date, title, tech, body
    )
}

fn file(name: &str, text: String) -> ContentFile {
    ContentFile { file_name: name.to_string(), text: Some(text) }
}

fn alpha() -> ContentFile {
    file("a.mdx", content("Alpha", "2024-01-01", "[\"Go\"]", "# Alpha"))
}

fn beta() -> ContentFile {
    file("b.mdx", content("Beta", "2024-06-01", "[\"Rust\", \"CLI\"]", "# Beta"))
}

fn project(identifier: &str, date: &str) -> Project {
    Project {
        identifier: identifier.to_string(),
        title: identifier.to_uppercase(),
        published_date: Date::parse(date).unwrap(),
        summary: String::new(),
        tags: vec![],
        body_html: None,
    }
}

fn identifiers(projects: &[Project]) -> Vec<String> {
    projects.iter().map(|p| p.identifier.clone()).collect()
}

#[test]
fn listing_puts_the_newer_project_first() {
    let listing = get_projects(Some(vec![alpha(), beta()])).unwrap();
    assert_eq!(listing.len(), 2);
    assert_eq!(listing[0].title, "Beta");
    assert_eq!(listing[1].title, "Alpha");
    assert_eq!(listing[0].identifier, "b");
    assert_eq!(listing[1].identifier, "a");
}

#[test]
fn listing_holds_every_entry_of_the_metadata() {
    let listing = get_projects(Some(vec![alpha(), beta()])).unwrap();
    let beta = &listing[0];
    assert_eq!(beta.identifier, "b");
    assert_eq!(beta.title, "Beta");
    assert_eq!(beta.published_date, Date::new(2024, 6, 1).unwrap());
    assert_eq!(beta.summary, "About Beta");
    assert_eq!(beta.tags, vec!["Rust".to_string(), "CLI".to_string()]);
    assert_eq!(beta.body_html, None);
    let alpha = &listing[1];
    assert_eq!(alpha.published_date, Date::new(2024, 1, 1).unwrap());
    assert_eq!(alpha.tags, vec!["Go".to_string()]);
    assert_eq!(alpha.body_html, None);
}

#[test]
fn listing_is_the_same_whichever_file_comes_first() {
    let one = get_projects(Some(vec![alpha(), beta()])).unwrap();
    let other = get_projects(Some(vec![beta(), alpha()])).unwrap();
    assert_eq!(one, other);
}

#[test]
fn listing_twice_gives_the_same() {
    let files = vec![alpha(), beta(), file("c.mdx", content("Gamma", "2023-03-09", "[]", ""))];
    let first = get_projects(Some(files.clone()));
    let second = get_projects(Some(files));
    assert_eq!(first, second);
    assert_eq!(identifiers(&first.unwrap()), vec!["b", "a", "c"]);
}

#[test]
fn listing_dates_never_rise() {
    let files = vec![
        file("one.mdx", content("One", "2021-05-05", "[]", "")),
        file("two.mdx", content("Two", "2025-01-31", "[]", "")),
        file("three.mdx", content("Three", "2021-05-06", "[]", "")),
        file("four.mdx", content("Four", "2020-12-31", "[]", "")),
        file("five.mdx", content("Five", "2025-01-31", "[]", "")),
    ];
    let listing = get_projects(Some(files)).unwrap();
    assert_eq!(listing.len(), 5);
    for pair in listing.windows(2) {
        assert!(!pair[0].published_date.is_before(&pair[1].published_date));
    }
    assert_eq!(identifiers(&listing), vec!["five", "two", "three", "one", "four"]);
}

#[test]
fn listing_orders_one_day_by_identifier() {
    let files = vec![
        file("pear.mdx", content("Pear", "2024-02-02", "[]", "")),
        file("apple.mdx", content("Apple", "2024-02-02", "[]", "")),
        file("fig.mdx", content("Fig", "2024-02-02", "[]", "")),
    ];
    let listing = get_projects(Some(files)).unwrap();
    assert_eq!(identifiers(&listing), vec!["apple", "fig", "pear"]);
}

#[test]
fn listing_of_an_empty_directory_is_empty() {
    assert_eq!(get_projects(Some(vec![])), Ok(vec![]));
}

#[test]
fn listing_without_a_directory_is_unavailable() {
    assert_eq!(get_projects(None), Err(AppError::ContentUnavailable));
}

#[test]
fn listing_fails_when_the_date_is_missing() {
    let broken = file(
        "broken.mdx",
        "---\ntitle: Broken\ndescription: No date\ntech: []\n---\nbody".to_string(),
    );
    let listing = get_projects(Some(vec![alpha(), broken, beta()]));
    assert_eq!(listing, Err(AppError::MalformedContent("broken".to_string())));
}

#[test]
fn listing_fails_as_a_whole_on_one_malformed_file() {
    let no_title = file("x.mdx", "---\ndate: 2024-01-01\ndescription: d\ntech: []\n---\n".to_string());
    assert_eq!(
        get_projects(Some(vec![alpha(), beta(), no_title])),
        Err(AppError::MalformedContent("x".to_string()))
    );
    let no_description = file("y.mdx", "---\ntitle: t\ndate: 2024-01-01\ntech: []\n---\n".to_string());
    assert_eq!(
        get_projects(Some(vec![no_description, alpha()])),
        Err(AppError::MalformedContent("y".to_string()))
    );
    let no_tech = file("z.mdx", "---\ntitle: t\ndate: 2024-01-01\ndescription: d\n---\n".to_string());
    assert_eq!(
        get_projects(Some(vec![alpha(), no_tech])),
        Err(AppError::MalformedContent("z".to_string()))
    );
}

#[test]
fn listing_fails_on_a_date_that_is_no_date() {
    let bad = file("bad.mdx", content("Bad", "yesterday", "[]", ""));
    assert_eq!(get_projects(Some(vec![bad])), Err(AppError::MalformedContent("bad".to_string())));
    let thirteenth = file("m.mdx", content("M", "2024-13-01", "[]", ""));
    assert_eq!(
        get_projects(Some(vec![thirteenth])),
        Err(AppError::MalformedContent("m".to_string()))
    );
    let no_leap = file("f.mdx", content("F", "2023-02-29", "[]", ""));
    assert_eq!(get_projects(Some(vec![no_leap])), Err(AppError::MalformedContent("f".to_string())));
}

#[test]
fn listing_fails_on_a_block_that_is_not_yaml() {
    let bad = file("bad.mdx", "---\ntitle: [unclosed\n---\nbody".to_string());
    assert_eq!(get_projects(Some(vec![bad])), Err(AppError::MalformedContent("bad".to_string())));
}

#[test]
fn listing_fails_on_a_file_without_a_block() {
    let plain = file("plain.mdx", "just some text\n".to_string());
    assert_eq!(
        get_projects(Some(vec![plain])),
        Err(AppError::MalformedContent("plain".to_string()))
    );
}

#[test]
fn listing_fails_on_entries_of_the_wrong_shape() {
    let number = file("n.mdx", "---\ntitle: 7\ndate: 2024-01-01\ndescription: d\ntech: []\n---\n".to_string());
    assert_eq!(get_projects(Some(vec![number])), Err(AppError::MalformedContent("n".to_string())));
    let text_tech =
        file("t.mdx", "---\ntitle: t\ndate: 2024-01-01\ndescription: d\ntech: Rust\n---\n".to_string());
    assert_eq!(
        get_projects(Some(vec![text_tech])),
        Err(AppError::MalformedContent("t".to_string()))
    );
    let mixed =
        file("u.mdx", "---\ntitle: t\ndate: 2024-01-01\ndescription: d\ntech: [Rust, 3]\n---\n".to_string());
    assert_eq!(get_projects(Some(vec![mixed])), Err(AppError::MalformedContent("u".to_string())));
}

#[test]
fn listing_reports_the_first_file_that_fails() {
    let first = file("first.mdx", "no block".to_string());
    let second = file("second.mdx", "no block either".to_string());
    assert_eq!(
        get_projects(Some(vec![alpha(), first, second])),
        Err(AppError::MalformedContent("first".to_string()))
    );
}

#[test]
fn listing_fails_on_a_name_without_the_ending() {
    let stray = file("notes.txt", content("Notes", "2024-01-01", "[]", ""));
    assert_eq!(
        get_projects(Some(vec![alpha(), stray])),
        Err(AppError::MalformedContent("notes.txt".to_string()))
    );
}

#[test]
fn listing_fails_on_a_file_that_could_not_be_read() {
    let unread = ContentFile { file_name: "gone.mdx".to_string(), text: None };
    assert_eq!(get_projects(Some(vec![alpha(), unread])), Err(AppError::ContentUnavailable));
}

#[test]
fn loading_one_file_gives_its_project() {
    let project = beta().load().unwrap();
    assert_eq!(project.identifier, "b");
    assert_eq!(project.title, "Beta");
    assert_eq!(project.url(), "/projects/b");
}

#[test]
fn sorting_keeps_every_project() {
    let given = vec![
        project("c", "2022-01-01"),
        project("a", "2024-01-01"),
        project("b", "2022-01-01"),
        project("a", "2024-01-01"),
    ];
    let sorted = sort_projects(given.clone());
    assert_eq!(identifiers(&sorted), vec!["a", "a", "b", "c"]);
    for project in &given {
        let before = given.iter().filter(|p| *p == project).count();
        let after = sorted.iter().filter(|p| *p == project).count();
        assert_eq!(before, after);
    }
}

#[test]
fn sorting_a_sorted_listing_changes_nothing() {
    let sorted = sort_projects(vec![
        project("x", "2020-02-02"),
        project("y", "2024-04-04"),
        project("z", "2022-03-03"),
    ]);
    assert_eq!(identifiers(&sorted), vec!["y", "z", "x"]);
    assert_eq!(sort_projects(sorted.clone()), sorted);
}

#[test]
fn inserting_goes_behind_the_projects_of_the_same_key() {
    let mut listed = vec![project("a", "2024-01-01"), project("b", "2023-01-01")];
    let mut twin = project("a", "2024-01-01");
    twin.title = "second".to_string();
    insert_listed(&mut listed, twin);
    assert_eq!(identifiers(&listed), vec!["a", "a", "b"]);
    assert_eq!(listed[1].title, "second");
    insert_listed(&mut listed, project("0", "2023-01-01"));
    assert_eq!(identifiers(&listed), vec!["a", "a", "0", "b"]);
    insert_listed(&mut listed, project("new", "2025-01-01"));
    assert_eq!(listed[0].identifier, "new");
    insert_listed(&mut listed, project("old", "1999-12-31"));
    assert_eq!(listed[5].identifier, "old");
}
