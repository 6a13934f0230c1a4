//! Creating a rendering context: what is done in which order, what is tried
//! instead, and what is reported when it fails.
use crate::scalar::{Double, Scalar};
use vstd::prelude::*;
use vstd::string::*;

verus! {

/// The next thing to do for a rendering context.
#[derive(Clone, Copy, Debug, PartialEq, Eq, Structural)]
pub enum SetupStage {
    DisplayHandle,
    WindowHandle,
    Display,
    /// Take the first configuration that the display offers.
    Config,
    /// Create a context for OpenGL ES 2.0.
    EmbeddedContext,
    /// Create a context of the display's own choice.
    DefaultContext,
    Surface,
    MakeCurrent,
    /// Wait for one vertical blank per frame.
    SwapInterval,
    Backend,
    Canvas,
    /// The context is complete.
    Ready,
}

/// What doing it came to.
#[derive(Debug)]
pub enum StageResult {
    Done,
    /// The display offers no configuration.
    NothingFound,
    Failed(String),
}

/// The model of a [`StageResult`].
pub enum StageResultModel {
    Done,
    NothingFound,
    Failed(Seq<char>),
}

impl View for StageResult {
    type V = StageResultModel;

    open spec fn view(&self) -> StageResultModel {
        match *self {
            StageResult::Done => StageResultModel::Done,
            StageResult::NothingFound => StageResultModel::NothingFound,
            StageResult::Failed(text) => StageResultModel::Failed(text@),
        }
    }
}

impl SetupStage {
    /// What an error of a stage is introduced by.
    pub open spec fn complaint(self) -> Seq<char> {
        match self {
            SetupStage::DisplayHandle => "Failed to get display handle: "@,
            SetupStage::WindowHandle => "Failed to get window handle: "@,
            SetupStage::Display => "glutin Display::new failed: "@,
            SetupStage::Config => "glutin find_configs failed: "@,
            SetupStage::EmbeddedContext => "glutin create_context failed: "@,
            SetupStage::DefaultContext => "glutin create_context failed: "@,
            SetupStage::Surface => "glutin create_window_surface failed: "@,
            SetupStage::MakeCurrent => "make_current failed: "@,
            SetupStage::SwapInterval => ""@,
            SetupStage::Backend => "femtovg OpenGL init failed: "@,
            SetupStage::Canvas => "femtovg Canvas::new_with_text_context failed: "@,
            SetupStage::Ready => ""@,
        }
    }

    /// The stage that follows a stage that was done.
    pub open spec fn successor(self) -> SetupStage {
        match self {
            SetupStage::DisplayHandle => SetupStage::WindowHandle,
            SetupStage::WindowHandle => SetupStage::Display,
            SetupStage::Display => SetupStage::Config,
            SetupStage::Config => SetupStage::EmbeddedContext,
            SetupStage::EmbeddedContext => SetupStage::Surface,
            SetupStage::DefaultContext => SetupStage::Surface,
            SetupStage::Surface => SetupStage::MakeCurrent,
            SetupStage::MakeCurrent => SetupStage::SwapInterval,
            SetupStage::SwapInterval => SetupStage::Backend,
            SetupStage::Backend => SetupStage::Canvas,
            SetupStage::Canvas => SetupStage::Ready,
            SetupStage::Ready => SetupStage::Ready,
        }
    }

    /// What follows a stage, or the error that ends the setup.  A context for
    /// OpenGL ES may fail, one of the display's choice is tried instead; a swap
    /// interval is a wish.
    pub open spec fn follows(self, result: StageResultModel) -> Result<SetupStage, Seq<char>> {
        match result {
            StageResultModel::Done => Ok(self.successor()),
            StageResultModel::NothingFound => if self is Config {
                Err("No suitable GL config found"@)
            } else {
                Ok(self.successor())
            },
            StageResultModel::Failed(text) => if self is EmbeddedContext {
                Ok(SetupStage::DefaultContext)
            } else if self is SwapInterval || self is Ready {
                Ok(self.successor())
            } else {
                Err(self.complaint() + text)
            },
        }
    }

    fn introduction(self) -> (r: &'static str)
        ensures
            r@ == self.complaint(),
    {
        match self {
            SetupStage::DisplayHandle => "Failed to get display handle: ",
            SetupStage::WindowHandle => "Failed to get window handle: ",
            SetupStage::Display => "glutin Display::new failed: ",
            SetupStage::Config => "glutin find_configs failed: ",
            SetupStage::EmbeddedContext => "glutin create_context failed: ",
            SetupStage::DefaultContext => "glutin create_context failed: ",
            SetupStage::Surface => "glutin create_window_surface failed: ",
            SetupStage::MakeCurrent => "make_current failed: ",
            SetupStage::SwapInterval => "",
            SetupStage::Backend => "femtovg OpenGL init failed: ",
            SetupStage::Canvas => "femtovg Canvas::new_with_text_context failed: ",
            SetupStage::Ready => "",
        }
    }

    fn next_in_order(self) -> (r: SetupStage)
        ensures
            r == self.successor(),
    {
        match self {
            SetupStage::DisplayHandle => SetupStage::WindowHandle,
            SetupStage::WindowHandle => SetupStage::Display,
            SetupStage::Display => SetupStage::Config,
            SetupStage::Config => SetupStage::EmbeddedContext,
            SetupStage::EmbeddedContext => SetupStage::Surface,
            SetupStage::DefaultContext => SetupStage::Surface,
            SetupStage::Surface => SetupStage::MakeCurrent,
            SetupStage::MakeCurrent => SetupStage::SwapInterval,
            SetupStage::SwapInterval => SetupStage::Backend,
            SetupStage::Backend => SetupStage::Canvas,
            SetupStage::Canvas => SetupStage::Ready,
            SetupStage::Ready => SetupStage::Ready,
        }
    }

    /// What follows a stage, or the error that ends the setup.
    pub fn next(self, result: &StageResult) -> (r: Result<SetupStage, String>)
        ensures
            r is Ok <==> self.follows(result@) is Ok,
            r matches Ok(stage) ==> self.follows(result@) == Ok::<SetupStage, Seq<char>>(stage),
            r matches Err(text) ==> self.follows(result@) == Err::<SetupStage, Seq<char>>(text@),
    {
        match result {
            StageResult::Done => Ok(self.next_in_order()),
            StageResult::NothingFound => {
                match self {
                    SetupStage::Config => Err(String::from_str("No suitable GL config found")),
                    _ => Ok(self.next_in_order()),
                }
            },
            StageResult::Failed(text) => {
                match self {
                    SetupStage::EmbeddedContext => Ok(SetupStage::DefaultContext),
                    SetupStage::SwapInterval => Ok(self.next_in_order()),
                    SetupStage::Ready => Ok(self.next_in_order()),
                    _ => {
                        let mut error: String = String::from_str(self.introduction());
                        error.append(text.as_str());
                        Err(error)
                    },
                }
            },
        }
    }

    /// How many stages are left at most.
    pub open spec fn left(self) -> nat {
        match self {
            SetupStage::DisplayHandle => 11,
            SetupStage::WindowHandle => 10,
            SetupStage::Display => 9,
            SetupStage::Config => 8,
            SetupStage::EmbeddedContext => 7,
            SetupStage::DefaultContext => 6,
            SetupStage::Surface => 5,
            SetupStage::MakeCurrent => 4,
            SetupStage::SwapInterval => 3,
            SetupStage::Backend => 2,
            SetupStage::Canvas => 1,
            SetupStage::Ready => 0,
        }
    }
}

/// The setup ends: whatever a stage came to, fewer stages are left.
pub proof fn law_setup_ends(stage: SetupStage, result: StageResultModel)
    requires
        !(stage is Ready),
    ensures
        stage.follows(result) matches Ok(next) ==> next.left() < stage.left(),
{
}

/// The stages in the order in which they are done while none fails.
pub open spec fn order() -> Seq<SetupStage> {
    seq![
        SetupStage::DisplayHandle,
        SetupStage::WindowHandle,
        SetupStage::Display,
        SetupStage::Config,
        SetupStage::EmbeddedContext,
        SetupStage::Surface,
        SetupStage::MakeCurrent,
        SetupStage::SwapInterval,
        SetupStage::Backend,
        SetupStage::Canvas,
        SetupStage::Ready,
    ]
}

/// Stages that are done follow each other in order, and a context of the display's own
/// choice is followed by what follows one for OpenGL ES.
pub proof fn law_stages_follow_in_order(at: int)
    requires
        0 <= at < 10,
    ensures
        order()[at].follows(StageResultModel::Done) == Ok::<SetupStage, Seq<char>>(order()[at + 1]),
        SetupStage::DefaultContext.follows(StageResultModel::Done)
            == SetupStage::EmbeddedContext.follows(StageResultModel::Done),
{
}

/// A failure ends the setup at every stage but three: a context for OpenGL ES is replaced
/// by one of the display's own choice, a swap interval that is refused is done without,
/// and nothing is left to fail once the context is complete.  The error holds what the
/// stage reported, behind words of its own.  A display without a configuration ends the
/// setup as well, and an empty answer is no failure elsewhere.
pub proof fn law_failure_is_reported(stage: SetupStage, text: Seq<char>)
    ensures
        ({
            let failed = stage.follows(StageResultModel::Failed(text));
            let words = stage.complaint();
            let missing = stage.follows(StageResultModel::NothingFound);
            &&& failed is Ok <==> stage == SetupStage::EmbeddedContext || stage
                == SetupStage::SwapInterval || stage == SetupStage::Ready
            &&& failed matches Err(error) ==> error.len() == words.len() + text.len() && error.take(
                words.len() as int,
            ) == words && error.skip(words.len() as int) == text
            &&& stage == SetupStage::EmbeddedContext ==> failed == Ok::<SetupStage, Seq<char>>(
                SetupStage::DefaultContext,
            )
            &&& stage == SetupStage::SwapInterval ==> failed == Ok::<SetupStage, Seq<char>>(
                SetupStage::Backend,
            )
            &&& missing is Err <==> stage == SetupStage::Config
            &&& stage != SetupStage::Config ==> missing == stage.follows(StageResultModel::Done)
        }),
{
    let failed = stage.follows(StageResultModel::Failed(text));
    let words = stage.complaint();
    if let Err(error) = failed {
        assert(error.take(words.len() as int) =~= words);
        assert(error.skip(words.len() as int) =~= text);
    }
}

/// Each stage that can end the setup says what failed.
pub proof fn law_failure_names_its_stage()
    ensures
        SetupStage::DisplayHandle.complaint() == "Failed to get display handle: "@,
        SetupStage::WindowHandle.complaint() == "Failed to get window handle: "@,
        SetupStage::Display.complaint() == "glutin Display::new failed: "@,
        SetupStage::Config.complaint() == "glutin find_configs failed: "@,
        SetupStage::DefaultContext.complaint() == "glutin create_context failed: "@,
        SetupStage::Surface.complaint() == "glutin create_window_surface failed: "@,
        SetupStage::MakeCurrent.complaint() == "make_current failed: "@,
        SetupStage::Backend.complaint() == "femtovg OpenGL init failed: "@,
        SetupStage::Canvas.complaint() == "femtovg Canvas::new_with_text_context failed: "@,
        SetupStage::Config.follows(StageResultModel::NothingFound) == Err::<SetupStage, Seq<char>>(
            "No suitable GL config found"@,
        ),
{
}

/// A side of the surface: at least one pixel.
pub fn surface_extent(side: u32) -> (r: u32)
    ensures
        r > 0,
        r == if side == 0 {
            1
        } else {
            side
        },
{
    if side == 0 {
        1
    } else {
        side
    }
}

/// The pixel density that a new canvas gets: the scale factor rounded up.
pub fn canvas_density(scale_factor: Double) -> (r: Scalar)
    ensures
        r == scale_factor.rounded_up_narrowed(),
{
    scale_factor.ceil_to_scalar()
}

} // verus!
