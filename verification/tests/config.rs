use formatter::{Config, Task};

fn args(items: &[&str]) -> std::vec::IntoIter<String> {
    items.iter().map(|s| String::from(*s)).collect::<Vec<String>>().into_iter()
}

#[test]
fn build_reads_the_format_task() {
    let config = Config::build(args(&["formatter", "format", "dump.txt"])).unwrap();
    assert_eq!(config, Config { task: Task::Format(String::from("dump.txt")) });
}

#[test]
fn build_reads_the_assign_task() {
    let config = Config::build(args(&["formatter", "assign", "works.tsv"])).unwrap();
    assert_eq!(config, Config { task: Task::Assign(String::from("works.tsv")) });
}

#[test]
fn build_ignores_further_arguments() {
    let config = Config::build(args(&["formatter", "assign", "a", "b", "c"])).unwrap();
    assert_eq!(config.task, Task::Assign(String::from("a")));
}

#[test]
fn build_needs_a_command() {
    assert_eq!(Config::build(args(&["formatter"])).err(), Some("no operator specified"));
    assert_eq!(Config::build(args(&[])).err(), Some("no operator specified"));
}

#[test]
fn build_needs_a_filename() {
    assert_eq!(Config::build(args(&["formatter", "format"])).err(), Some("no filename supplied"));
    assert_eq!(Config::build(args(&["formatter", "assign"])).err(), Some("no filename supplied"));
}

#[test]
fn build_refuses_an_unknown_command() {
    assert_eq!(
        Config::build(args(&["formatter", "merge", "dump.txt"])).err(),
        Some("unrecognized operation")
    );
    assert_eq!(Config::build(args(&["formatter", "Format"])).err(), Some("unrecognized operation"));
    assert_eq!(Config::build(args(&["formatter", ""])).err(), Some("unrecognized operation"));
}

#[test]
fn build_takes_the_command_from_the_second_argument() {
    assert_eq!(
        Config::build(args(&["format", "dump.txt"])).err(),
        Some("unrecognized operation")
    );
}

#[test]
fn from_arguments_selects_the_task() {
    assert_eq!(
        Config::from_arguments(Some(String::from("format")), Some(String::from("f"))),
        Ok(Config { task: Task::Format(String::from("f")) })
    );
    assert_eq!(
        Config::from_arguments(Some(String::from("assign")), Some(String::from("g"))),
        Ok(Config { task: Task::Assign(String::from("g")) })
    );
}

#[test]
fn from_arguments_refuses_in_order() {
    assert_eq!(Config::from_arguments(None, None).err(), Some("no operator specified"));
    assert_eq!(
        Config::from_arguments(None, Some(String::from("f"))).err(),
        Some("no operator specified")
    );
    assert_eq!(
        Config::from_arguments(Some(String::from("merge")), None).err(),
        Some("unrecognized operation")
    );
    assert_eq!(
        Config::from_arguments(Some(String::from("merge")), Some(String::from("f"))).err(),
        Some("unrecognized operation")
    );
    assert_eq!(
        Config::from_arguments(Some(String::from("format")), None).err(),
        Some("no filename supplied")
    );
    assert_eq!(
        Config::from_arguments(Some(String::from("assign")), None).err(),
        Some("no filename supplied")
    );
}

#[test]
fn task_knows_its_file_and_its_mode() {
    let format = Task::Format(String::from("a.tsv"));
    assert_eq!(format.filename(), "a.tsv");
    assert_eq!(format.mode(), formatter::Mode::Format);
    let assign = Task::Assign(String::from("b.tsv"));
    assert_eq!(assign.filename(), "b.tsv");
    assert_eq!(assign.mode(), formatter::Mode::Assign);
}
