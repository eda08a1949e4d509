use prototool::cli::{Command, GenerateCommand, GenerateMode, NewCommand, RunPlan, run};
use prototool::datetime::Date;
use prototool::error::Error;
use prototool::protokoll::sitzung::SitzungKind;
use prototool::sync::{pad_download_endpoint, pad_url, protokoll_path};

fn generate_command() -> GenerateCommand {
    GenerateCommand {
        endpoint_url: "https://fscs.hhu.de/".to_string(),
        lang: "de".to_string(),
        edit: false,
        force: false,
        to_clipboard: false,
        from_clipboard: false,
        to_pad: false,
        from_pad: None,
        no_ask_presence: true,
    }
}

#[test]
fn path_for_general_assembly_has_vv_prefix() {
    let date = Date { year: 2022, month: 5, day: 27 };
    assert_eq!(
        protokoll_path(&date, &SitzungKind::VV),
        "protokolle/2022/05-27-vv-protokoll.md"
    );
}

#[test]
fn path_for_default_kind_has_no_prefix() {
    let date = Date { year: 2022, month: 5, day: 27 };
    assert_eq!(
        protokoll_path(&date, &SitzungKind::Normal),
        "protokolle/2022/05-27-protokoll.md"
    );
    assert_eq!(
        protokoll_path(&date, &SitzungKind::Konsti),
        "protokolle/2022/05-27-konsti-protokoll.md"
    );
}

#[test]
fn pad_urls_are_date_based() {
    let date = Date { year: 2022, month: 5, day: 27 };
    assert_eq!(pad_url(&date), "https://pad.hhu.de/2022-05-27-FSR-Informatik");
    assert_eq!(
        pad_download_endpoint("https://pad.hhu.de", "/2022-05-27-FSR-Informatik"),
        "https://pad.hhu.de/2022-05-27-FSR-Informatik/download"
    );
}

#[test]
fn run_defaults_to_local_export() {
    let command = Command::GenerateCommand(generate_command());
    assert_eq!(run(&command), Ok(RunPlan::Generate(GenerateMode::Local)));
}

#[test]
fn run_selects_the_requested_sink() {
    let mut c = generate_command();
    c.to_clipboard = true;
    assert_eq!(
        run(&Command::GenerateCommand(c)),
        Ok(RunPlan::Generate(GenerateMode::ToClipboard))
    );

    let mut c = generate_command();
    c.from_pad = Some("https://pad.hhu.de/x".to_string());
    assert_eq!(
        run(&Command::GenerateCommand(c)),
        Ok(RunPlan::Generate(GenerateMode::FromPad))
    );

    let mut c = generate_command();
    c.to_pad = true;
    assert_eq!(
        run(&Command::GenerateCommand(c)),
        Ok(RunPlan::Generate(GenerateMode::ToPad))
    );

    let mut c = generate_command();
    c.from_clipboard = true;
    assert_eq!(
        run(&Command::GenerateCommand(c)),
        Ok(RunPlan::Generate(GenerateMode::FromClipboard))
    );
}

#[test]
fn run_refuses_conflicting_sinks() {
    let mut c = generate_command();
    c.to_clipboard = true;
    c.from_clipboard = true;
    assert_eq!(run(&Command::GenerateCommand(c)), Err(Error::ConfigurationConflict));

    let mut c = generate_command();
    c.to_pad = true;
    c.from_pad = Some("https://pad.hhu.de/x".to_string());
    assert_eq!(run(&Command::GenerateCommand(c)), Err(Error::ConfigurationConflict));
}

#[test]
fn run_new_command() {
    let command = Command::NewCommand(NewCommand {
        path: "news/test.md".to_string(),
        lang: "de".to_string(),
        edit: false,
        force: false,
    });
    assert_eq!(run(&command), Ok(RunPlan::New));
}
