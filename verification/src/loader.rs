//! Handlers, loaders, and the steps by which a native plugin is loaded.

use crate::http::{bare, Request, RequestView, Response, ResponseView, OK};
use crate::plugin::{Plugin, PluginView};
use vstd::prelude::*;

verus! {

/// Why a plugin could not be loaded.
#[derive(Clone, Copy, Debug, PartialEq, Eq, Structural)]
pub enum LoadError {
    /// The loader does not handle descriptors of this variant.
    NotSupported,
    /// The plugin's resource is missing or cannot be opened.
    NotFound,
    /// The resource was opened and is not what a plugin has to be.
    BadFormat,
}

/// Answers one request with one response.
pub trait RequestHandler {
    /// Whether `response` is an answer that this handler may give to
    /// `request`. A handler that says nothing of itself may give any.
    open spec fn answers(&self, request: RequestView, response: ResponseView) -> bool {
        true
    }

    /// Answers the request.
    fn handle_request(&self, request: Request) -> (response: Response)
        ensures
            self.answers(request@, response@),
    ;
}

/// The handler that answers every request with a bare 200.
impl RequestHandler for () {
    open spec fn answers(&self, request: RequestView, response: ResponseView) -> bool {
        response == bare(OK)
    }

    fn handle_request(&self, request: Request) -> (response: Response) {
        Response::new(OK)
    }
}

/// What stands behind a registered plugin.
#[derive(Debug)]
pub enum Capability<H> {
    /// The built-in answer to health checks: a bare 200.
    Health,
    /// The built-in endpoint that lists the registry and registers plugins.
    Registry,
    /// A handler of the host's own kind.
    Plugin(H),
}

/// Turns a descriptor into a handler, or says why it cannot.
pub trait Loader {
    /// The handlers that this loader makes.
    type Handler: RequestHandler;

    /// Whether `outcome` is a result that loading `plugin` may have. A
    /// loader that says nothing of itself may give any.
    open spec fn loads(&self, plugin: PluginView, outcome: Result<Self::Handler, LoadError>) -> bool {
        true
    }

    /// Loads the plugin.
    fn load(&self, plugin: &Plugin) -> (outcome: Result<Self::Handler, LoadError>)
        ensures
            self.loads(plugin@, outcome),
    ;
}

/// The loader that gives every plugin the handler `()`.
impl Loader for () {
    type Handler = ();

    open spec fn loads(&self, plugin: PluginView, outcome: Result<(), LoadError>) -> bool {
        outcome == Ok::<(), LoadError>(())
    }

    fn load(&self, plugin: &Plugin) -> (outcome: Result<(), LoadError>) {
        Ok(())
    }
}

/// The name of the function that a native plugin's library exports. It takes
/// no argument and returns the plugin's handler.
pub const ENTRY_POINT: &'static str = "get_request_handler";

/// Where the library of a native plugin is: at its path, or at its name
/// where no path is given. Other plugins have no library.
pub open spec fn library_path(plugin: PluginView) -> Option<Seq<char>> {
    match plugin {
        PluginView::Native { name, path, .. } => match path {
            Some(p) => Some(p),
            None => Some(name),
        },
        _ => None,
    }
}

/// How far the loading of a native plugin has come.
#[derive(Clone, Copy, Debug, PartialEq, Eq, Structural)]
pub enum Progress {
    /// Nothing was done yet.
    Asked,
    /// Opening the library was tried; the flag says whether it opened.
    Opened(bool),
    /// The entry point was looked up in the open library; the flag says
    /// whether it was found.
    Resolved(bool),
}

/// What is to be done next for a native plugin.
#[derive(Debug)]
pub enum Step {
    /// Open the library at this path.
    Open(String),
    /// Look up [`ENTRY_POINT`] in the library.
    Resolve,
    /// Call the entry point, and keep the handler it returns together with
    /// the open library, so that the library lives as long as the handler.
    Invoke,
    /// Give up with this error.
    Fail(LoadError),
}

/// The mathematical value of a [`Step`].
pub enum StepView {
    Open(Seq<char>),
    Resolve,
    Invoke,
    Fail(LoadError),
}

impl View for Step {
    type V = StepView;

    open spec fn view(&self) -> StepView {
        match *self {
            Step::Open(path) => StepView::Open(path@),
            Step::Resolve => StepView::Resolve,
            Step::Invoke => StepView::Invoke,
            Step::Fail(e) => StepView::Fail(e),
        }
    }
}

/// The step that follows `progress` in loading `plugin`. A plugin that is
/// not native is not supported, however far things have come. A library
/// that does not open was not found; one without the entry point has a bad
/// format.
pub open spec fn next_step(plugin: PluginView, progress: Progress) -> StepView {
    match library_path(plugin) {
        None => StepView::Fail(LoadError::NotSupported),
        Some(path) => match progress {
            Progress::Asked => StepView::Open(path),
            Progress::Opened(false) => StepView::Fail(LoadError::NotFound),
            Progress::Opened(true) => StepView::Resolve,
            Progress::Resolved(false) => StepView::Fail(LoadError::BadFormat),
            Progress::Resolved(true) => StepView::Invoke,
        },
    }
}

/// What loading ends with once the steps have been followed from
/// [`Progress::Asked`], given whether the library opens and whether it has
/// the entry point.
pub open spec fn load_outcome(plugin: PluginView, opens: bool, has_entry: bool) -> Result<
    (),
    LoadError,
> {
    if library_path(plugin).is_none() {
        Err(LoadError::NotSupported)
    } else if !opens {
        Err(LoadError::NotFound)
    } else if !has_entry {
        Err(LoadError::BadFormat)
    } else {
        Ok(())
    }
}

/// What became of opening the library of a native plugin.
#[derive(Debug)]
pub enum Opened<H> {
    /// There is no library at the path, or it cannot be opened.
    Missing,
    /// The library is open and does not export [`ENTRY_POINT`].
    NoEntryPoint,
    /// The entry point was called and returned this handler, which keeps
    /// the library open for as long as it lives.
    Ready(H),
}

/// What loading ends with for each thing that opening can come to: a
/// library that does not open was not found, one without the entry point
/// has a bad format, and a handler is the result.
pub open spec fn settled<H>(opened: Opened<H>) -> Result<H, LoadError> {
    match opened {
        Opened::Missing => Err(LoadError::NotFound),
        Opened::NoEntryPoint => Err(LoadError::BadFormat),
        Opened::Ready(handler) => Ok(handler),
    }
}

/// The loader of native plugins: it decides what is opened and what comes
/// of it, and its caller opens the library.
pub struct DynLoader;

impl DynLoader {
    /// The path of the library of a native plugin.
    pub fn library(plugin: &Plugin) -> (r: Result<String, LoadError>)
        ensures
            match r {
                Ok(path) => library_path(plugin@) == Some(path@),
                Err(e) => e == LoadError::NotSupported && library_path(plugin@).is_none(),
            },
    {
        match plugin {
            Plugin::Native { name, path, .. } => match path {
                Some(p) => Ok(p.clone()),
                None => Ok(name.clone()),
            },
            _ => Err(LoadError::NotSupported),
        }
    }

    /// Loads a native plugin. `open` is handed the path of the plugin's
    /// library and says what became of opening it; it is not called for a
    /// plugin that is not native, which is not supported.
    pub fn load<H, F: FnOnce(String) -> Opened<H>>(plugin: &Plugin, open: F) -> (r: Result<
        H,
        LoadError,
    >)
        requires
            forall|path: String| library_path(plugin@) == Some(path@) ==> open.requires((path,)),
        ensures
            match library_path(plugin@) {
                None => r == Err::<H, LoadError>(LoadError::NotSupported),
                Some(path) => exists|given: String, opened: Opened<H>|
                    given@ == path && #[trigger] open.ensures((given,), opened) && r == settled(
                        opened,
                    ),
            },
    {
        match DynLoader::library(plugin) {
            Err(e) => Err(e),
            Ok(path) => {
                let ghost given = path;
                let opened = open(path);
                let ghost seen = opened;
                let r = match opened {
                    Opened::Missing => Err(LoadError::NotFound),
                    Opened::NoEntryPoint => Err(LoadError::BadFormat),
                    Opened::Ready(handler) => Ok(handler),
                };
                assert(open.ensures((given,), seen) && r == settled(seen));
                r
            },
        }
    }

    /// The step that follows `progress` in loading `plugin`, for a host
    /// that opens the library and looks up the entry point in two steps.
    pub fn next(plugin: &Plugin, progress: Progress) -> (step: Step)
        ensures
            step@ == next_step(plugin@, progress),
    {
        match DynLoader::library(plugin) {
            Err(e) => Step::Fail(e),
            Ok(path) => match progress {
                Progress::Asked => Step::Open(path),
                Progress::Opened(opens) => if opens {
                    Step::Resolve
                } else {
                    Step::Fail(LoadError::NotFound)
                },
                Progress::Resolved(found) => if found {
                    Step::Invoke
                } else {
                    Step::Fail(LoadError::BadFormat)
                },
            },
        }
    }
}

/// Following the steps from the start ends in [`load_outcome`]: the first
/// step that fails gives the error, and a library that opens and has the
/// entry point is invoked. For a native plugin [`settled`] ends in the same.
pub proof fn lemma_steps_end(plugin: PluginView, opens: bool, has_entry: bool)
    ensures
        library_path(plugin).is_some() ==> load_outcome(plugin, false, has_entry) == settled(
            Opened::<()>::Missing,
        ) && load_outcome(plugin, true, false) == settled(Opened::<()>::NoEntryPoint)
            && load_outcome(plugin, true, true) == settled(Opened::Ready(())),
        match load_outcome(plugin, opens, has_entry) {
            Err(LoadError::NotSupported) => next_step(plugin, Progress::Asked) == StepView::Fail(
                LoadError::NotSupported,
            ),
            Err(LoadError::NotFound) => next_step(plugin, Progress::Asked) is Open && next_step(
                plugin,
                Progress::Opened(opens),
            ) == StepView::Fail(LoadError::NotFound),
            Err(LoadError::BadFormat) => next_step(plugin, Progress::Asked) is Open && next_step(
                plugin,
                Progress::Opened(opens),
            ) == StepView::Resolve && next_step(plugin, Progress::Resolved(has_entry))
                == StepView::Fail(LoadError::BadFormat),
            Ok(_) => next_step(plugin, Progress::Asked) is Open && next_step(
                plugin,
                Progress::Opened(opens),
            ) == StepView::Resolve && next_step(plugin, Progress::Resolved(has_entry))
                == StepView::Invoke,
        },
{
}

} // verus!
