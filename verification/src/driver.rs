//! The course of one run, as a machine that is fed what happened outside
//! and answers with what is to be done next.
//!
//! The machine reads no file and calls no backend. Its caller decodes the
//! image, runs the setup, makes and checks the proof and stores the
//! thumbnail, and reports each outcome as an [`Event`].

use crate::assembler::blocks_x;
use crate::assembler::blocks_y;
use crate::assembler::build_prover_statement;
use crate::assembler::build_verifier_statement;
use crate::assembler::groups_view;
use crate::assembler::proving_statement;
use crate::assembler::public_input_vector;
use crate::assembler::public_inputs;
use crate::assembler::sampled;
use crate::assembler::verifying_statement;
use crate::config::geometry_of;
use crate::config::Config;
use crate::config::Geometry;
use crate::error::Error;
use crate::field::FieldElement;
use crate::pixels::GridView;
use crate::pixels::PixelGrid;
use crate::r1cs::BatchedStatement;
use crate::r1cs::StatementView;
use vstd::prelude::*;

verus! {

/// How far a run has come, with what it holds at that point.
pub enum Stage {
    /// Nothing is read yet.
    Idle { config: Config },
    /// The image is decoded and measured; the setup is awaited.
    Loaded { config: Config, image: PixelGrid, geometry: Geometry },
    /// The keys are there.
    SetupDone { config: Config, image: PixelGrid, geometry: Geometry },
    /// The prover's statement and the thumbnail are built; the proof is
    /// awaited.
    ProverStatementBuilt { config: Config, statement: BatchedStatement, thumbnail: PixelGrid },
    /// The proof is made; the thumbnail is to be stored.
    Proved { config: Config, thumbnail: PixelGrid },
    /// The verifier's statement and the public inputs are built; the answer
    /// of the verification is awaited.
    VerifierStatementBuilt { statement: BatchedStatement, public_inputs: Vec<Vec<FieldElement>> },
    /// The run is over: the proof was found valid or not.
    Verified { valid: bool },
    /// The run was given up.
    Failed { error: Error },
}

/// A stage as the contracts see it.
pub enum StageView {
    Idle { config: Config },
    Loaded { config: Config, image: GridView, geometry: Geometry },
    SetupDone { config: Config, image: GridView, geometry: Geometry },
    ProverStatementBuilt { config: Config, statement: StatementView, thumbnail: GridView },
    Proved { config: Config, thumbnail: GridView },
    VerifierStatementBuilt { statement: StatementView, public_inputs: Seq<Seq<nat>> },
    Verified { valid: bool },
    Failed { error: Error },
}

impl View for Stage {
    type V = StageView;

    open spec fn view(&self) -> StageView {
        match *self {
            Stage::Idle { config } => StageView::Idle { config },
            Stage::Loaded { config, image, geometry } => StageView::Loaded {
                config,
                image: image@,
                geometry,
            },
            Stage::SetupDone { config, image, geometry } => StageView::SetupDone {
                config,
                image: image@,
                geometry,
            },
            Stage::ProverStatementBuilt {
                config,
                statement,
                thumbnail,
            } => StageView::ProverStatementBuilt {
                config,
                statement: statement@,
                thumbnail: thumbnail@,
            },
            Stage::Proved { config, thumbnail } => StageView::Proved {
                config,
                thumbnail: thumbnail@,
            },
            Stage::VerifierStatementBuilt {
                statement,
                public_inputs,
            } => StageView::VerifierStatementBuilt {
                statement: statement@,
                public_inputs: groups_view(public_inputs@),
            },
            Stage::Verified { valid } => StageView::Verified { valid },
            Stage::Failed { error } => StageView::Failed { error },
        }
    }
}

impl StageView {
    /// The configuration that the stage holds, if any, is well formed.
    pub open spec fn wf(self) -> bool {
        match self {
            StageView::Idle { config } => config.wf(),
            StageView::Loaded { config, .. } => config.wf(),
            StageView::SetupDone { config, .. } => config.wf(),
            StageView::ProverStatementBuilt { config, .. } => config.wf(),
            StageView::Proved { config, .. } => config.wf(),
            _ => true,
        }
    }
}

/// What happened outside since the last step.
pub enum Event {
    /// The source image was decoded.
    ImageLoaded(PixelGrid),
    /// The source image could not be decoded.
    ImageUnreadable,
    /// The setup was run and the keys were derived.
    SetupCompleted,
    /// The setup or the derivation of the keys failed.
    SetupFailed,
    /// Nothing: the machine asked to go on.
    Resume,
    /// The backend made the proof.
    ProofCreated,
    /// The backend failed to make the proof.
    ProofFailed,
    /// The thumbnail was stored; this is what was read back.
    ThumbnailStored(PixelGrid),
    /// The thumbnail could not be stored or read back.
    ThumbnailLost,
    /// The backend checked the proof and found it valid or not.
    VerificationAnswered(bool),
    /// The backend failed while it checked the proof.
    VerificationFailed,
}

/// An event as the contracts see it.
pub enum EventView {
    ImageLoaded(GridView),
    ImageUnreadable,
    SetupCompleted,
    SetupFailed,
    Resume,
    ProofCreated,
    ProofFailed,
    ThumbnailStored(GridView),
    ThumbnailLost,
    VerificationAnswered(bool),
    VerificationFailed,
}

impl View for Event {
    type V = EventView;

    open spec fn view(&self) -> EventView {
        match *self {
            Event::ImageLoaded(image) => EventView::ImageLoaded(image@),
            Event::ImageUnreadable => EventView::ImageUnreadable,
            Event::SetupCompleted => EventView::SetupCompleted,
            Event::SetupFailed => EventView::SetupFailed,
            Event::Resume => EventView::Resume,
            Event::ProofCreated => EventView::ProofCreated,
            Event::ProofFailed => EventView::ProofFailed,
            Event::ThumbnailStored(stored) => EventView::ThumbnailStored(stored@),
            Event::ThumbnailLost => EventView::ThumbnailLost,
            Event::VerificationAnswered(valid) => EventView::VerificationAnswered(valid),
            Event::VerificationFailed => EventView::VerificationFailed,
        }
    }
}

/// What the caller is to do next.
#[derive(Clone, Copy, Debug, PartialEq, Eq, Structural)]
pub enum Action {
    /// Run the setup for the given degree and derive the keys.
    RunSetup { degree: usize },
    /// Nothing outside: step again with [`Event::Resume`].
    Continue,
    /// Make the proof of the prover's statement.
    CreateProof,
    /// Store the thumbnail and read it back.
    StoreThumbnail,
    /// Check the proof against the verifier's statement and the public
    /// inputs.
    VerifyProof,
    /// Report whether the proof was found valid. The run is over.
    Report { valid: bool },
    /// Give the run up with this error.
    Abort { error: Error },
    /// The event does not belong to the stage: nothing changed.
    Rejected,
}

/// The stage and the action when a run is given up.
pub open spec fn given_up(error: Error) -> (StageView, Action) {
    (StageView::Failed { error }, Action::Abort { error })
}

/// The stage that follows on an event, and the action that goes with it.
/// An event that does not belong to the stage changes nothing.
pub open spec fn transition(stage: StageView, event: EventView) -> (StageView, Action) {
    match stage {
        StageView::Idle { config } => match event {
            EventView::ImageLoaded(image) => match geometry_of(image.width, image.height, config) {
                Some(geometry) => (
                    StageView::Loaded { config, image, geometry },
                    Action::RunSetup { degree: geometry.degree },
                ),
                None => given_up(Error::SetupError),
            },
            EventView::ImageUnreadable => given_up(Error::ImageDecodeError),
            _ => (stage, Action::Rejected),
        },
        StageView::Loaded { config, image, geometry } => match event {
            EventView::SetupCompleted => (
                StageView::SetupDone { config, image, geometry },
                Action::Continue,
            ),
            EventView::SetupFailed => given_up(Error::SetupError),
            _ => (stage, Action::Rejected),
        },
        StageView::SetupDone { config, image, geometry } => match event {
            EventView::Resume => (
                StageView::ProverStatementBuilt {
                    config,
                    statement: proving_statement(
                        image,
                        config,
                        blocks_x(image, config) * blocks_y(image, config),
                    ),
                    thumbnail: sampled(image, config),
                },
                Action::CreateProof,
            ),
            _ => (stage, Action::Rejected),
        },
        StageView::ProverStatementBuilt { config, statement, thumbnail } => match event {
            EventView::ProofCreated => (
                StageView::Proved { config, thumbnail },
                Action::StoreThumbnail,
            ),
            EventView::ProofFailed => given_up(Error::ProofGenerationError),
            _ => (stage, Action::Rejected),
        },
        StageView::Proved { config, thumbnail } => match event {
            EventView::ThumbnailStored(stored) => (
                StageView::VerifierStatementBuilt {
                    statement: verifying_statement(config),
                    public_inputs: public_input_vector(stored),
                },
                Action::VerifyProof,
            ),
            EventView::ThumbnailLost => given_up(Error::IoError),
            _ => (stage, Action::Rejected),
        },
        StageView::VerifierStatementBuilt { .. } => match event {
            EventView::VerificationAnswered(valid) => (
                StageView::Verified { valid },
                Action::Report { valid },
            ),
            EventView::VerificationFailed => given_up(Error::VerificationError),
            _ => (stage, Action::Rejected),
        },
        StageView::Verified { .. } => (stage, Action::Rejected),
        StageView::Failed { .. } => (stage, Action::Rejected),
    }
}

impl Stage {
    /// The stage at which a run begins.
    pub fn start(config: Config) -> (r: Stage)
        ensures
            r@ == (StageView::Idle { config }),
    {
        Stage::Idle { config }
    }

    /// Takes one event and moves on.
    pub fn step(self, event: Event) -> (r: (Stage, Action))
        requires
            self@.wf(),
        ensures
            (r.0@, r.1) == transition(self@, event@),
            r.0@.wf(),
    {
        match self {
            Stage::Idle { config } => match event {
                Event::ImageLoaded(image) => {
                    let (width, height) = image.dimensions();
                    match Geometry::new(width, height, &config) {
                        Ok(geometry) => (
                            Stage::Loaded { config, image, geometry },
                            Action::RunSetup { degree: geometry.degree },
                        ),
                        Err(_) => give_up(Error::SetupError),
                    }
                },
                Event::ImageUnreadable => give_up(Error::ImageDecodeError),
                _ => (Stage::Idle { config }, Action::Rejected),
            },
            Stage::Loaded { config, image, geometry } => match event {
                Event::SetupCompleted => (
                    Stage::SetupDone { config, image, geometry },
                    Action::Continue,
                ),
                Event::SetupFailed => give_up(Error::SetupError),
                _ => (Stage::Loaded { config, image, geometry }, Action::Rejected),
            },
            Stage::SetupDone { config, image, geometry } => match event {
                Event::Resume => match build_prover_statement(&image, &config) {
                    Ok((statement, thumbnail)) => (
                        Stage::ProverStatementBuilt { config, statement, thumbnail },
                        Action::CreateProof,
                    ),
                    Err(error) => give_up(error),
                },
                _ => (Stage::SetupDone { config, image, geometry }, Action::Rejected),
            },
            Stage::ProverStatementBuilt { config, statement, thumbnail } => match event {
                Event::ProofCreated => (Stage::Proved { config, thumbnail }, Action::StoreThumbnail),
                Event::ProofFailed => give_up(Error::ProofGenerationError),
                _ => (
                    Stage::ProverStatementBuilt { config, statement, thumbnail },
                    Action::Rejected,
                ),
            },
            Stage::Proved { config, thumbnail } => match event {
                Event::ThumbnailStored(stored) => match build_verifier_statement(&config) {
                    Ok(statement) => match public_inputs(&stored) {
                        Ok(io) => (
                            Stage::VerifierStatementBuilt { statement, public_inputs: io },
                            Action::VerifyProof,
                        ),
                        Err(error) => give_up(error),
                    },
                    Err(error) => give_up(error),
                },
                Event::ThumbnailLost => give_up(Error::IoError),
                _ => (Stage::Proved { config, thumbnail }, Action::Rejected),
            },
            Stage::VerifierStatementBuilt { statement, public_inputs } => match event {
                Event::VerificationAnswered(valid) => (
                    Stage::Verified { valid },
                    Action::Report { valid },
                ),
                Event::VerificationFailed => give_up(Error::VerificationError),
                _ => (Stage::VerifierStatementBuilt { statement, public_inputs }, Action::Rejected),
            },
            Stage::Verified { valid } => (Stage::Verified { valid }, Action::Rejected),
            Stage::Failed { error } => (Stage::Failed { error }, Action::Rejected),
        }
    }
}

/// The stage and the action when a run is given up.
fn give_up(error: Error) -> (r: (Stage, Action))
    ensures
        (r.0@, r.1) == given_up(error),
{
    (Stage::Failed { error }, Action::Abort { error })
}

} // verus!
