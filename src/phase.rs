use vstd::prelude::*;

use crate::context::{buffer_len, Error, Stage, WaylandContext};
use crate::points::Point;
use crate::screenshot::ScreenshotApp;
use crate::selection::{SelectionApp, SelectionState};

verus! {

/// Whether a phase still waits for events.
#[derive(Clone, Copy, Debug, PartialEq, Eq, Structural)]
pub enum StatePhase {
    Active,
    Done,
}

/// The phase before anything is captured.
#[derive(Clone, Copy, Debug, PartialEq, Eq, Structural)]
pub struct BaseApp;

impl BaseApp {
    pub fn current_phase(&self) -> (r: StatePhase)
        ensures
            r == StatePhase::Done,
    {
        StatePhase::Done
    }
}

/// The phase that the application is in; it only ever moves forward.
pub enum AppState {
    BaseApp(BaseApp),
    ScreenshotApp(ScreenshotApp),
    SelectionApp(SelectionApp),
}

impl ScreenshotApp {
    /// Starts the capture. The context must have reached the partial stage,
    /// whose pixel pool receives the frame; starting earlier is a
    /// programming error.
    pub fn from_previous<B, P, F>(context: &WaylandContext<B, P, F>, previous: BaseApp) -> (r: ScreenshotApp)
        requires
            context.spec_stage() != Stage::Base,
        ensures
            r.image is None,
            r.frame is None,
    {
        ScreenshotApp::new()
    }
}

impl SelectionApp {
    /// Starts the selection over the captured image. The capture must be
    /// done and the context must have reached the full stage, whose overlay
    /// surface shows the selection; starting earlier is a programming
    /// error. An image smaller than the output is refused.
    pub fn from_previous<B, P, F>(context: &WaylandContext<B, P, F>, previous: ScreenshotApp) -> (r: Result<
        SelectionApp,
        Error,
    >)
        requires
            previous.image is Some,
            context.spec_stage() == Stage::Full,
        ensures
            ({
                let img = previous.image.unwrap();
                let size = context.spec_partial().unwrap().spec_logical_size();
                &&& img@.len() < 4 * size.x * size.y ==> r == Err::<SelectionApp, Error>(Error::ImageTooSmall)
                &&& img@.len() >= 4 * size.x * size.y ==> (r matches Ok(app) && app@.wf() && app@.image == img@
                    && app@.width == size.x && app@.height == size.y && app@.state == SelectionState::Waiting
                    && app@.repaint)
            }),
    {
        let image = match previous.image {
            Some(image) => image,
            None => Vec::new(),
        };
        let size = match context.full() {
            Some(full) => full.partial().logical_size(),
            None => Point::new(1, 1),
        };
        proof {
            assert(context.spec_partial().unwrap().spec_logical_size() == size);
        }
        let len = image.len();
        match buffer_len(size) {
            Some(n) => {
                if len < n {
                    Err(Error::ImageTooSmall)
                } else {
                    Ok(SelectionApp::new(image, size.x, size.y))
                }
            },
            None => Err(Error::ImageTooSmall),
        }
    }
}

impl AppState {
    pub fn current_phase(&self) -> (r: StatePhase)
        ensures
            self is BaseApp ==> r == StatePhase::Done,
            self matches AppState::ScreenshotApp(s) ==> (r == StatePhase::Done <==> s.image is Some),
            self matches AppState::SelectionApp(app) ==> (r == StatePhase::Done <==> (app@.state is Abort
                || app@.state is SelectionCompleted)),
    {
        match self {
            AppState::BaseApp(app) => app.current_phase(),
            AppState::ScreenshotApp(app) => app.current_phase(),
            AppState::SelectionApp(app) => app.current_phase(),
        }
    }

    /// Whether this phase may move on with a context at `stage`: the base
    /// phase once the partial stage is reached, the capture once it holds
    /// the image and the full stage is reached; the selection never.
    pub open spec fn spec_ready_for_next(&self, stage: Stage) -> bool {
        match self {
            AppState::BaseApp(_) => stage != Stage::Base,
            AppState::ScreenshotApp(s) => s.image is Some && stage == Stage::Full,
            AppState::SelectionApp(_) => false,
        }
    }

    pub fn ready_for_next(&self, stage: Stage) -> (r: bool)
        ensures
            r == self.spec_ready_for_next(stage),
    {
        match self {
            AppState::BaseApp(_) => stage != Stage::Base,
            AppState::ScreenshotApp(s) => s.image.is_some() && stage == Stage::Full,
            AppState::SelectionApp(_) => false,
        }
    }

    /// Moves to the next phase, consuming this one: from the base phase to
    /// the capture, from the capture to the selection. Moving on out of
    /// order, or past the selection, is a programming error.
    pub fn next_app<B, P, F>(self, context: &WaylandContext<B, P, F>) -> (r: Result<AppState, Error>)
        requires
            self.spec_ready_for_next(context.spec_stage()),
        ensures
            self is BaseApp ==> (r matches Ok(AppState::ScreenshotApp(s)) && s.image is None && s.frame is None),
            self matches AppState::ScreenshotApp(s) ==> {
                let img = s.image.unwrap();
                let size = context.spec_partial().unwrap().spec_logical_size();
                &&& img@.len() < 4 * size.x * size.y ==> r == Err::<AppState, Error>(Error::ImageTooSmall)
                &&& img@.len() >= 4 * size.x * size.y ==> (r matches Ok(AppState::SelectionApp(app)) && app@.wf()
                    && app@.image == img@ && app@.width == size.x && app@.height == size.y && app@.state
                    == SelectionState::Waiting)
            },
    {
        match self {
            AppState::BaseApp(prev) => Ok(AppState::ScreenshotApp(ScreenshotApp::from_previous(context, prev))),
            AppState::ScreenshotApp(prev) => match SelectionApp::from_previous(context, prev) {
                Ok(next) => Ok(AppState::SelectionApp(next)),
                Err(e) => Err(e),
            },
            AppState::SelectionApp(_) => Ok(self),
        }
    }
}

} // verus!
