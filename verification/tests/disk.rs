use webpage_scraper::disk::first_error;
use webpage_scraper::disk::step;
use webpage_scraper::disk::WriterAction;
use webpage_scraper::disk::WriterEvent;
use webpage_scraper::disk::WriterState;
use webpage_scraper::images::Image;
use webpage_scraper::images::Images;
use webpage_scraper::images::ImagesError;
use webpage_scraper::webpage::TabSnapshot;
use webpage_scraper::webpage::WebPage;
use webpage_scraper::webpage::WebPageError;

fn io(message: &str) -> WebPageError {
    WebPageError::IO(message.to_string())
}

fn all_events() -> Vec<WriterEvent> {
    vec![
        WriterEvent::Probed(true),
        WriterEvent::Probed(false),
        WriterEvent::DirectoryCreated(Ok(())),
        WriterEvent::DirectoryCreated(Err(io("denied"))),
        WriterEvent::WritesSettled(Vec::new()),
        WriterEvent::WritesSettled(vec![Ok(()), Err(io("full"))]),
    ]
}

#[test]
fn a_taken_target_fails_before_anything_is_written() {
    assert_eq!(
        step(WriterState::AwaitingProbe, WriterEvent::Probed(true)),
        (WriterState::Finished, WriterAction::Report(Err(WebPageError::PathExistsError)))
    );
    for event in all_events() {
        assert_eq!(step(WriterState::Finished, event), (WriterState::Finished, WriterAction::Ignore));
    }
}

#[test]
fn a_free_target_gets_its_directory() {
    assert_eq!(
        step(WriterState::AwaitingProbe, WriterEvent::Probed(false)),
        (WriterState::AwaitingDirectory, WriterAction::CreateDirectory)
    );
}

#[test]
fn a_directory_that_was_made_gets_its_files() {
    assert_eq!(
        step(WriterState::AwaitingDirectory, WriterEvent::DirectoryCreated(Ok(()))),
        (WriterState::AwaitingWrites, WriterAction::WriteArtifacts)
    );
}

#[test]
fn a_directory_that_cannot_be_made_ends_the_write() {
    assert_eq!(
        step(WriterState::AwaitingDirectory, WriterEvent::DirectoryCreated(Err(io("denied")))),
        (WriterState::Finished, WriterAction::Report(Err(io("denied"))))
    );
}

#[test]
fn settled_writes_report_their_first_failure() {
    let outcomes = vec![
        Ok(()),
        Err(WebPageError::AnyhowError("no pdf".to_string())),
        Ok(()),
        Err(WebPageError::ImagesError(ImagesError::IOError("full".to_string()))),
        Err(WebPageError::JsonConversionError("bad".to_string())),
    ];
    assert_eq!(
        step(WriterState::AwaitingWrites, WriterEvent::WritesSettled(outcomes)),
        (
            WriterState::Finished,
            WriterAction::Report(Err(WebPageError::AnyhowError("no pdf".to_string())))
        )
    );
    let outcomes = vec![Ok(()), Ok(()), Ok(()), Ok(()), Ok(())];
    assert_eq!(
        step(WriterState::AwaitingWrites, WriterEvent::WritesSettled(outcomes)),
        (WriterState::Finished, WriterAction::Report(Ok(())))
    );
}

#[test]
fn events_out_of_turn_are_ignored() {
    let expected = |state: WriterState, event: &WriterEvent| {
        matches!(
            (state, event),
            (WriterState::AwaitingProbe, WriterEvent::Probed(_))
                | (WriterState::AwaitingDirectory, WriterEvent::DirectoryCreated(_))
                | (WriterState::AwaitingWrites, WriterEvent::WritesSettled(_))
        )
    };
    let states = [
        WriterState::AwaitingProbe,
        WriterState::AwaitingDirectory,
        WriterState::AwaitingWrites,
        WriterState::Finished,
    ];
    for state in states {
        for event in all_events() {
            let in_turn = expected(state, &event);
            let (next, action) = step(state, event);
            if in_turn {
                assert_ne!(action, WriterAction::Ignore);
                assert_ne!(next, state);
            } else {
                assert_eq!((next, action), (state, WriterAction::Ignore));
            }
        }
    }
}

#[test]
fn first_error_is_the_first_in_order() {
    assert_eq!(first_error(Vec::new()), Ok(()));
    assert_eq!(first_error(vec![Ok(()), Ok(())]), Ok(()));
    assert_eq!(first_error(vec![Err(io("a"))]), Err(io("a")));
    assert_eq!(first_error(vec![Ok(()), Err(io("b")), Err(io("c"))]), Err(io("b")));
    assert_eq!(first_error(vec![Err(io("a")), Ok(()), Err(io("c"))]), Err(io("a")));
    assert_eq!(first_error(vec![Ok(()), Ok(()), Err(io("c"))]), Err(io("c")));
}

#[test]
fn a_bundle_write_begins_with_the_probe() {
    let tab = TabSnapshot { url: "u".to_string(), title: "t".to_string(), html: "h".to_string() };
    let page =
        WebPage::from_tab(tab, "d".to_string(), Ok("m".to_string()), Ok(Images(Vec::new()))).unwrap();
    assert_eq!(page.write_to_disk(), (WriterState::AwaitingProbe, WriterAction::ProbeTarget));
}

#[test]
fn images_are_written_only_if_there_are_any() {
    assert_eq!(
        Images(Vec::new()).write_images_to_disk(),
        (WriterState::Finished, WriterAction::Report(Ok(())))
    );
    let one = Images(vec![Image { image_bytes: vec![1], filename: "a.png".to_string() }]);
    assert_eq!(
        one.write_images_to_disk(),
        (WriterState::AwaitingDirectory, WriterAction::CreateDirectory)
    );
}

#[test]
fn a_whole_run_on_a_free_target() {
    let (state, action) = step(WriterState::AwaitingProbe, WriterEvent::Probed(false));
    assert_eq!(action, WriterAction::CreateDirectory);
    let (state, action) = step(state, WriterEvent::DirectoryCreated(Ok(())));
    assert_eq!(action, WriterAction::WriteArtifacts);
    let (state, action) = step(state, WriterEvent::WritesSettled(vec![Ok(()), Err(io("x"))]));
    assert_eq!(action, WriterAction::Report(Err(io("x"))));
    assert_eq!(state, WriterState::Finished);
}
