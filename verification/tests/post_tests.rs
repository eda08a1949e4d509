use prototool::datetime::{Date, DateTime, Time};
use prototool::error::{Error, FsError};
use prototool::generate::template::length;
use prototool::post::{
    PostTemplate, create_post_plan, find_content_dir, post_target_path, render_post_template,
};

#[test]
fn post_template() {
    let template = PostTemplate { date_machine: "2022-05-27T07:30:15".to_string() };

    assert_eq!(
        template.render(),
        "---\ndate: \"2022-05-27T07:30:15\"\ndraft: true\n---\n"
    );
}

#[test]
fn render_post_template_formats_the_date() {
    let datetime = DateTime {
        date: Date { year: 2022, month: 5, day: 27 },
        time: Time { hour: 7, minute: 30, second: 15 },
    };

    let result = render_post_template(&datetime);

    assert_eq!(result, "---\ndate: \"2022-05-27T07:30:15\"\ndraft: true\n---\n");
}

#[test]
fn content_dir_paths() {
    assert_eq!(find_content_dir("/tmp/site", "de"), "/tmp/site/content/de");
    assert_eq!(
        post_target_path("/tmp/site", "de", "news/test.md"),
        "/tmp/site/content/de/news/test.md"
    );
}

#[test]
fn content_dir_doesnt_exist() {
    let result = create_post_plan(false, false, false);

    assert!(result.is_err());
    assert_eq!(result, Err(Error::Filesystem(FsError::MissingContentDir)));
}

#[test]
fn existing_target_needs_force() {
    assert_eq!(
        create_post_plan(true, true, false),
        Err(Error::Filesystem(FsError::TargetExists))
    );
    assert_eq!(create_post_plan(true, true, true), Ok(()));
    assert_eq!(create_post_plan(true, false, false), Ok(()));
}

#[test]
fn length_counts_entries() {
    let v: Vec<u8> = vec![1, 2, 3];
    assert_eq!(length(&v), 3);
    let empty: Vec<String> = vec![];
    assert_eq!(length(&empty), 0);
}
