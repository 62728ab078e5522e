use thumbnail_proof::config::Config;
use thumbnail_proof::config::Geometry;
use thumbnail_proof::driver::Action;
use thumbnail_proof::driver::Event;
use thumbnail_proof::driver::Stage;
use thumbnail_proof::encoder::encode_pixel;
use thumbnail_proof::error::Error;
use thumbnail_proof::field::FieldElement;
use thumbnail_proof::pixels::Pixel;
use thumbnail_proof::pixels::PixelGrid;

fn colour(x: u32, y: u32) -> Pixel {
    Pixel { r: x as u8, g: y as u8, b: (x * y) as u8, a: 255 }
}

fn source(width: u32, height: u32) -> PixelGrid {
    let mut grid = PixelGrid::new(width, height).unwrap();
    for y in 0..height {
        for x in 0..width {
            assert!(grid.put_pixel(x, y, colour(x, y)));
        }
    }
    grid
}

fn copy(grid: &PixelGrid) -> PixelGrid {
    let (width, height) = grid.dimensions();
    let mut out = PixelGrid::new(width, height).unwrap();
    for y in 0..height {
        for x in 0..width {
            out.put_pixel(x, y, grid.get_pixel(x, y).unwrap());
        }
    }
    out
}

fn start() -> Stage {
    Stage::start(Config::new(10, 5).unwrap())
}

fn loaded() -> Stage {
    start().step(Event::ImageLoaded(source(20, 20))).0
}

fn setup_done() -> Stage {
    loaded().step(Event::SetupCompleted).0
}

fn prover_built() -> Stage {
    setup_done().step(Event::Resume).0
}

fn proved() -> Stage {
    prover_built().step(Event::ProofCreated).0
}

fn verifier_built() -> Stage {
    match proved() {
        Stage::Proved { config, thumbnail } => {
            let stored = copy(&thumbnail);
            Stage::Proved { config, thumbnail }.step(Event::ThumbnailStored(stored)).0
        }
        _ => panic!("the run is not at the stage of the proof"),
    }
}

fn every_event() -> Vec<Event> {
    vec![
        Event::ImageLoaded(source(20, 20)),
        Event::ImageUnreadable,
        Event::SetupCompleted,
        Event::SetupFailed,
        Event::Resume,
        Event::ProofCreated,
        Event::ProofFailed,
        Event::ThumbnailStored(source(2, 2)),
        Event::ThumbnailLost,
        Event::VerificationAnswered(true),
        Event::VerificationFailed,
    ]
}

#[test]
fn run_begins_idle() {
    assert!(matches!(start(), Stage::Idle { config: Config { n: 10, p: 5 } }));
}

#[test]
fn loading_asks_for_the_setup() {
    let (stage, action) = start().step(Event::ImageLoaded(source(20, 20)));
    assert_eq!(action, Action::RunSetup { degree: 4 });
    match stage {
        Stage::Loaded { config, image, geometry } => {
            assert_eq!(config, Config { n: 10, p: 5 });
            assert_eq!(image.dimensions(), (20, 20));
            assert_eq!(image.get_pixel(3, 4), Some(colour(3, 4)));
            assert_eq!(geometry, Geometry { new_x: 2, new_y: 2, block_count: 4, degree: 4 });
        }
        _ => panic!("the image was not taken"),
    }
    let (_, action) = start().step(Event::ImageLoaded(source(30, 25)));
    assert_eq!(action, Action::RunSetup { degree: 8 });
}

#[test]
fn unreadable_image_ends_the_run() {
    let (stage, action) = start().step(Event::ImageUnreadable);
    assert_eq!(action, Action::Abort { error: Error::ImageDecodeError });
    assert!(matches!(stage, Stage::Failed { error: Error::ImageDecodeError }));
}

#[test]
fn setup_is_followed_by_the_prover_statement() {
    let (stage, action) = loaded().step(Event::SetupCompleted);
    assert_eq!(action, Action::Continue);
    assert!(matches!(stage, Stage::SetupDone { .. }));
    let (stage, action) = stage.step(Event::Resume);
    assert_eq!(action, Action::CreateProof);
    match stage {
        Stage::ProverStatementBuilt { config, statement, thumbnail } => {
            assert_eq!(config, Config { n: 10, p: 5 });
            assert_eq!(statement.instances.len(), 4);
            assert_eq!(statement.constraints.len(), 1);
            assert_eq!(thumbnail.dimensions(), (2, 2));
            assert_eq!(thumbnail.get_pixel(0, 0), Some(colour(0, 5)));
            assert_eq!(thumbnail.get_pixel(1, 1), Some(colour(10, 15)));
            assert_eq!(
                statement.instances[3].public[1],
                Some(encode_pixel(&colour(10, 15)).unwrap())
            );
        }
        _ => panic!("the prover's statement was not built"),
    }
}

#[test]
fn failed_setup_ends_the_run() {
    let (stage, action) = loaded().step(Event::SetupFailed);
    assert_eq!(action, Action::Abort { error: Error::SetupError });
    assert!(matches!(stage, Stage::Failed { error: Error::SetupError }));
}

#[test]
fn proof_is_followed_by_storing_the_thumbnail() {
    let (stage, action) = prover_built().step(Event::ProofCreated);
    assert_eq!(action, Action::StoreThumbnail);
    match stage {
        Stage::Proved { config, thumbnail } => {
            assert_eq!(config, Config { n: 10, p: 5 });
            assert_eq!(thumbnail.dimensions(), (2, 2));
            assert_eq!(thumbnail.get_pixel(1, 0), Some(colour(10, 5)));
        }
        _ => panic!("the proof was not taken"),
    }
}

#[test]
fn failed_proof_ends_the_run() {
    let (stage, action) = prover_built().step(Event::ProofFailed);
    assert_eq!(action, Action::Abort { error: Error::ProofGenerationError });
    assert!(matches!(stage, Stage::Failed { error: Error::ProofGenerationError }));
}

#[test]
fn public_inputs_come_from_the_stored_thumbnail() {
    let mut stored = PixelGrid::new(2, 2).unwrap();
    let marks = [
        Pixel { r: 1, g: 0, b: 0, a: 0 },
        Pixel { r: 2, g: 0, b: 0, a: 0 },
        Pixel { r: 3, g: 0, b: 0, a: 0 },
        Pixel { r: 4, g: 0, b: 0, a: 0 },
    ];
    stored.put_pixel(0, 0, marks[0]);
    stored.put_pixel(0, 1, marks[1]);
    stored.put_pixel(1, 0, marks[2]);
    stored.put_pixel(1, 1, marks[3]);
    let (stage, action) = proved().step(Event::ThumbnailStored(stored));
    assert_eq!(action, Action::VerifyProof);
    match stage {
        Stage::VerifierStatementBuilt { statement, public_inputs } => {
            assert_eq!(statement.instances.len(), 1);
            assert_eq!(statement.instances[0].witness, vec![None; 100]);
            assert_eq!(statement.instances[0].public, vec![None, None]);
            assert_eq!(statement.constraints.len(), 1);
            assert_eq!(public_inputs.len(), 2);
            assert_eq!(public_inputs[0], vec![FieldElement::one(); 4]);
            let expected: Vec<FieldElement> =
                marks.iter().map(|p| encode_pixel(p).unwrap()).collect();
            assert_eq!(public_inputs[1], expected);
        }
        _ => panic!("the verifier's statement was not built"),
    }
}

#[test]
fn lost_thumbnail_ends_the_run() {
    let (stage, action) = proved().step(Event::ThumbnailLost);
    assert_eq!(action, Action::Abort { error: Error::IoError });
    assert!(matches!(stage, Stage::Failed { error: Error::IoError }));
}

#[test]
fn answer_of_the_verification_is_reported() {
    let (stage, action) = verifier_built().step(Event::VerificationAnswered(true));
    assert_eq!(action, Action::Report { valid: true });
    assert!(matches!(stage, Stage::Verified { valid: true }));
    let (stage, action) = verifier_built().step(Event::VerificationAnswered(false));
    assert_eq!(action, Action::Report { valid: false });
    assert!(matches!(stage, Stage::Verified { valid: false }));
}

#[test]
fn failed_verification_ends_the_run() {
    let (stage, action) = verifier_built().step(Event::VerificationFailed);
    assert_eq!(action, Action::Abort { error: Error::VerificationError });
    assert!(matches!(stage, Stage::Failed { error: Error::VerificationError }));
}

#[test]
fn event_of_another_stage_changes_nothing() {
    for (index, event) in every_event().into_iter().enumerate() {
        if index >= 2 {
            let (stage, action) = start().step(event);
            assert_eq!(action, Action::Rejected);
            assert!(matches!(stage, Stage::Idle { .. }));
        }
    }
    for (index, event) in every_event().into_iter().enumerate() {
        if index != 2 && index != 3 {
            let (stage, action) = loaded().step(event);
            assert_eq!(action, Action::Rejected);
            assert!(matches!(stage, Stage::Loaded { .. }));
        }
    }
    for (index, event) in every_event().into_iter().enumerate() {
        if index != 4 {
            let (stage, action) = setup_done().step(event);
            assert_eq!(action, Action::Rejected);
            assert!(matches!(stage, Stage::SetupDone { .. }));
        }
    }
    for (index, event) in every_event().into_iter().enumerate() {
        if index != 5 && index != 6 {
            let (stage, action) = prover_built().step(event);
            assert_eq!(action, Action::Rejected);
            assert!(matches!(stage, Stage::ProverStatementBuilt { .. }));
        }
    }
    for (index, event) in every_event().into_iter().enumerate() {
        if index != 7 && index != 8 {
            let (stage, action) = proved().step(event);
            assert_eq!(action, Action::Rejected);
            assert!(matches!(stage, Stage::Proved { .. }));
        }
    }
    for (index, event) in every_event().into_iter().enumerate() {
        if index != 9 && index != 10 {
            let (stage, action) = verifier_built().step(event);
            assert_eq!(action, Action::Rejected);
            assert!(matches!(stage, Stage::VerifierStatementBuilt { .. }));
        }
    }
}

#[test]
fn finished_run_takes_no_event() {
    for event in every_event() {
        let (stage, action) = (Stage::Verified { valid: true }).step(event);
        assert_eq!(action, Action::Rejected);
        assert!(matches!(stage, Stage::Verified { valid: true }));
    }
    for event in every_event() {
        let (stage, action) = (Stage::Failed { error: Error::IoError }).step(event);
        assert_eq!(action, Action::Rejected);
        assert!(matches!(stage, Stage::Failed { error: Error::IoError }));
    }
}

#[test]
fn whole_run_of_a_twenty_by_twenty_image() {
    let mut stage = start();
    let mut event = Event::ImageLoaded(source(20, 20));
    let mut actions = Vec::new();
    loop {
        let (next, action) = stage.step(event);
        actions.push(action);
        event = match (&next, action) {
            (_, Action::RunSetup { .. }) => Event::SetupCompleted,
            (_, Action::Continue) => Event::Resume,
            (_, Action::CreateProof) => Event::ProofCreated,
            (Stage::Proved { thumbnail, .. }, Action::StoreThumbnail) => {
                Event::ThumbnailStored(copy(thumbnail))
            }
            (_, Action::VerifyProof) => Event::VerificationAnswered(true),
            _ => {
                stage = next;
                break;
            }
        };
        stage = next;
    }
    assert_eq!(
        actions,
        vec![
            Action::RunSetup { degree: 4 },
            Action::Continue,
            Action::CreateProof,
            Action::StoreThumbnail,
            Action::VerifyProof,
            Action::Report { valid: true },
        ]
    );
    assert!(matches!(stage, Stage::Verified { valid: true }));
}
