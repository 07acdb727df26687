use caligula::compression::CompressionFormat;
use caligula::device::{Removable, Type, WriteTarget};
use caligula::gui::{
    worker_step, App, FileHashOptions, HashSection, Options, WorkerAction, WorkerEvent,
    WorkerInput, WorkerPhase,
};
use caligula::hash::HashAlg;
use std::path::PathBuf;

fn target(name: &str, removable: Removable) -> WriteTarget {
    WriteTarget {
        devnode: PathBuf::from(format!("/dev/{name}")),
        name: name.to_string(),
        model: "Model".to_string(),
        removable,
        size: 8 << 30,
        target_type: Type::Disk,
    }
}

#[test]
fn parsed_single_algorithm_is_selected() {
    let mut o = FileHashOptions::default();
    o.apply_parsed_input(Ok(vec![HashAlg::Sha256]));
    assert_eq!(o.possible_algorithms, vec![HashAlg::Sha256]);
    assert_eq!(o.selected_algorithm, Some(HashAlg::Sha256));
    assert!(o.last_error.is_empty());
    assert_eq!(o.section(), HashSection::ChooseAlgorithm);
}

#[test]
fn parsed_several_algorithms_keep_selection() {
    let mut o = FileHashOptions::default();
    o.apply_parsed_input(Ok(vec![HashAlg::Sha256, HashAlg::Sha512]));
    assert_eq!(o.selected_algorithm, None);
    o.select_algorithm(1);
    assert!(o.is_selected(HashAlg::Sha512));
    assert!(!o.is_selected(HashAlg::Sha256));
    o.apply_parsed_input(Ok(vec![HashAlg::Md5, HashAlg::Sha1]));
    assert_eq!(o.selected_algorithm, Some(HashAlg::Sha512));
}

#[test]
fn parse_error_clears_choices_and_shows_error() {
    let mut o = FileHashOptions::default();
    o.apply_parsed_input(Ok(vec![HashAlg::Md5]));
    o.apply_parsed_input(Err("not a hash".to_string()));
    assert!(o.possible_algorithms.is_empty());
    assert_eq!(o.selected_algorithm, None);
    assert_eq!(o.last_error, "not a hash");
    assert_eq!(o.section(), HashSection::ShowError);
    o.skip = true;
    assert_eq!(o.section(), HashSection::Blank);
}

#[test]
fn steps_open_one_after_another() {
    let mut app = App { options: Options::default() };
    let access = app.section_access();
    assert!(!access.file_hash && !access.target_disk && !access.begin_writing);
    assert!(!app.is_ready_for_writing());

    app.options.pick_image(PathBuf::from("image.iso.xz"), Some(CompressionFormat::Xz));
    assert!(app.section_access().file_hash);
    assert!(!app.file_hash_is_verified_or_skipped());

    app.options.file_hash.mark_verified();
    assert!(app.file_hash_is_verified_or_skipped());
    assert!(app.section_access().target_disk);
    assert!(!app.is_ready_for_writing());

    app.options.select_write_target(target("sdb", Removable::Yes));
    let access = app.section_access();
    assert!(access.begin_writing && access.write_button);
    assert!(app.is_ready_for_writing());

    let (image, compression, dest) = app.options.begin_writing_params();
    assert_eq!(image, PathBuf::from("image.iso.xz"));
    assert_eq!(compression, CompressionFormat::Xz);
    assert_eq!(dest.name, "sdb");

    app.options.pick_image(PathBuf::from("image.iso"), None);
    let (_, compression, _) = app.options.begin_writing_params();
    assert_eq!(compression, CompressionFormat::Identity);
}

#[test]
fn skipping_the_hash_also_opens_the_target_step() {
    let mut app = App { options: Options::default() };
    app.options.file_hash.skip = true;
    assert!(app.file_hash_is_verified_or_skipped());
}

#[test]
fn refresh_offers_removable_devices_unless_all_are_shown() {
    let mut app = App { options: Options::default() };
    let devices = vec![
        target("sdc", Removable::Yes),
        target("nvme0n1", Removable::No),
        target("sdb", Removable::Yes),
        target("sdd", Removable::Unknown),
    ];
    app.refresh_devices(devices.clone());
    let names: Vec<&str> =
        app.options.possible_write_targets.iter().map(|t| t.name.as_str()).collect();
    assert_eq!(names, vec!["sdb", "sdc"]);

    app.options.show_all_disks = true;
    app.refresh_devices(devices);
    assert_eq!(app.options.possible_write_targets.len(), 4);
}

#[test]
fn worker_starts_watches_and_is_dismissed() {
    let (p, a) = worker_step(WorkerPhase::Idle, WorkerInput::<u8>::Message(None));
    assert_eq!(p, WorkerPhase::Idle);
    assert!(matches!(a, WorkerAction::Sleep { millis: 250 }));

    let (p, a) = worker_step(WorkerPhase::Idle, WorkerInput::Message(Some(WorkerEvent::StartWrite(5u8))));
    assert_eq!(p, WorkerPhase::Starting);
    assert!(matches!(a, WorkerAction::Start(5)));

    let (p, a) = worker_step(p, WorkerInput::<u8>::Started(true));
    assert_eq!(p, WorkerPhase::Watching);
    assert!(matches!(a, WorkerAction::PublishState));

    let (p, a) = worker_step(p, WorkerInput::<u8>::Progress(false));
    assert_eq!(p, WorkerPhase::Polling);
    assert!(matches!(a, WorkerAction::RepaintAndSleep { millis: 250 }));

    // a second start while a write runs is dropped
    let (p, a) = worker_step(p, WorkerInput::Message(Some(WorkerEvent::StartWrite(6u8))));
    assert_eq!(p, WorkerPhase::Watching);
    assert!(matches!(a, WorkerAction::Proceed));

    let (p, _) = worker_step(p, WorkerInput::<u8>::Progress(true));
    assert_eq!(p, WorkerPhase::Finished);

    let (p, a) = worker_step(p, WorkerInput::<u8>::Message(None));
    assert_eq!(p, WorkerPhase::Finished);
    assert!(matches!(a, WorkerAction::Sleep { millis: 250 }));

    let (p, a) = worker_step(p, WorkerInput::<u8>::Message(Some(WorkerEvent::Abort)));
    assert_eq!(p, WorkerPhase::Idle);
    assert!(matches!(a, WorkerAction::ClearStateAndRepaint));
}

#[test]
fn worker_abort_while_writing_and_failed_start() {
    let (p, a) = worker_step(WorkerPhase::Polling, WorkerInput::<u8>::Message(Some(WorkerEvent::Abort)));
    assert_eq!(p, WorkerPhase::Idle);
    assert!(matches!(a, WorkerAction::ClearStateAndRepaint));
    let (p, a) = worker_step(WorkerPhase::Starting, WorkerInput::<u8>::Started(false));
    assert_eq!(p, WorkerPhase::Idle);
    assert!(matches!(a, WorkerAction::ReportStartFailure));
}
