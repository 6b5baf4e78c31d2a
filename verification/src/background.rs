//! Setting the background: which images to prepare, where to look when none
//! is given, which one to show, and how to show it.
//!
//! The work outside the library comes in four kinds, the variants of
//! [`Request`]. The caller starts with [`Opt::start`], carries out each
//! request, and reports what came of it, failure included.

use vstd::prelude::*;
use vstd::string::StringExecFns;
use crate::error::PipelineError;
use crate::error::PipelineErrorView;
use crate::scanner::MAX_DEPTH;
use crate::selector::select;
use crate::selector::selected;
use crate::text::concat3;
use crate::text::copy_texts;
use crate::text::texts;

verus! {

/// What the command line asks for.
#[derive(Clone, Debug)]
pub struct Opt {
    dir: String,
    path: Vec<String>,
    startup: bool,
}

/// The mathematical value of an [`Opt`].
pub struct OptView {
    /// The directory of the image store, which is also where images are
    /// looked for when none is given.
    pub dir: Seq<char>,
    /// The images to prepare.
    pub path: Seq<Seq<char>>,
    /// Whether the chosen image is printed rather than shown.
    pub startup: bool,
}

/// The next piece of work outside the library.
#[derive(Clone, Debug, PartialEq, Eq)]
pub enum Request {
    /// Prepare each of `sources` in the store at `dir`, and report the
    /// output paths to [`Opt::after_prepare`].
    Prepare { dir: String, sources: Vec<String> },
    /// Scan `dir` down to `max_depth`, and report the images to
    /// [`Opt::after_scan`].
    Scan { dir: String, max_depth: usize },
    /// Print this path to standard output, and nothing more.
    Print(String),
    /// Run `swaymsg` with this argument, and report to [`after_invoke`].
    Invoke(String),
}

/// The mathematical value of a [`Request`].
pub enum RequestView {
    Prepare { dir: Seq<char>, sources: Seq<Seq<char>> },
    Scan { dir: Seq<char>, max_depth: nat },
    Print(Seq<char>),
    Invoke(Seq<char>),
}

impl View for Request {
    type V = RequestView;

    open spec fn view(&self) -> RequestView {
        match self {
            Request::Prepare { dir, sources } => RequestView::Prepare {
                dir: dir@,
                sources: texts(sources@),
            },
            Request::Scan { dir, max_depth } => RequestView::Scan {
                dir: dir@,
                max_depth: *max_depth as nat,
            },
            Request::Print(p) => RequestView::Print(p@),
            Request::Invoke(c) => RequestView::Invoke(c@),
        }
    }
}

/// The `swaymsg` argument that shows `image` on every output, scaled to
/// fill it.
pub open spec fn background_command(image: Seq<char>) -> Seq<char> {
    "output \"*\" background "@ + image + " fill"@
}

/// How the chosen image is put to use.
pub open spec fn applied(image: Seq<char>, startup: bool) -> RequestView {
    if startup {
        RequestView::Print(image)
    } else {
        RequestView::Invoke(background_command(image))
    }
}

/// The first request: to prepare the images that were given, or to scan
/// right away where none was.
pub open spec fn first_request(opt: OptView) -> RequestView {
    if opt.path.len() == 0 {
        RequestView::Scan { dir: opt.dir, max_depth: MAX_DEPTH as nat }
    } else {
        RequestView::Prepare { dir: opt.dir, sources: opt.path }
    }
}

/// What a request for the image that `draw` selects from `pool` looks like.
pub open spec fn request_for(pool: Seq<String>, draw: nat, startup: bool) -> Result<
    RequestView,
    PipelineErrorView,
> {
    match selected(pool, draw) {
        Err(e) => Err(e),
        Ok(image) => Ok(applied(image, startup)),
    }
}

/// The view of a request or a failure.
pub open spec fn outcome_view(r: Result<Request, PipelineError>) -> Result<
    RequestView,
    PipelineErrorView,
> {
    match r {
        Ok(q) => Ok(q@),
        Err(e) => Err(e@),
    }
}

/// What the compositor's answer means: success, or a failure that carries
/// its diagnostic.
pub open spec fn invoked(success: bool, diagnostic: Seq<char>) -> Result<(), PipelineErrorView> {
    if success {
        Ok(())
    } else {
        Err(PipelineErrorView::ExternalChannel(diagnostic))
    }
}

impl View for Opt {
    type V = OptView;

    closed spec fn view(&self) -> OptView {
        OptView { dir: self.dir@, path: texts(self.path@), startup: self.startup }
    }
}

impl Opt {
    /// The options as given.
    pub fn new(dir: String, path: Vec<String>, startup: bool) -> (r: Opt)
        ensures
            r@ == (OptView { dir: dir@, path: texts(path@), startup }),
    {
        Opt { dir, path, startup }
    }

    /// The directory of the image store.
    pub fn dir(&self) -> (r: &str)
        ensures
            r@ == self@.dir,
    {
        self.dir.as_str()
    }

    /// The images to prepare.
    pub fn path(&self) -> (r: &Vec<String>)
        ensures
            texts(r@) == self@.path,
    {
        &self.path
    }

    /// Whether the chosen image is printed rather than shown.
    pub fn startup(&self) -> (r: bool)
        ensures
            r == self@.startup,
    {
        self.startup
    }

    /// The first request.
    pub fn start(&self) -> (r: Request)
        ensures
            r@ == first_request(self@),
    {
        if self.path.len() == 0 {
            Request::Scan { dir: self.dir.clone(), max_depth: MAX_DEPTH }
        } else {
            Request::Prepare { dir: self.dir.clone(), sources: copy_texts(&self.path) }
        }
    }

    /// The request that puts `image` to use.
    pub fn apply(&self, image: &str) -> (r: Request)
        ensures
            r@ == applied(image@, self@.startup),
    {
        if self.startup {
            Request::Print(String::from_str(image))
        } else {
            Request::Invoke(concat3("output \"*\" background ", image, " fill"))
        }
    }

    fn pick(&self, pool: &Vec<String>) -> (r: Result<Request, PipelineError>)
        ensures
            pool@.len() == 0 ==> outcome_view(r) == Err::<RequestView, PipelineErrorView>(
                PipelineErrorView::EmptyPool,
            ),
            pool@.len() == 1 ==> outcome_view(r) == Ok::<RequestView, PipelineErrorView>(
                applied(pool@[0]@, self@.startup),
            ),
            pool@.len() > 1 ==> exists|draw: nat|
                outcome_view(r) == #[trigger] request_for(pool@, draw, self@.startup),
    {
        match select(pool) {
            Err(e) => Err(e),
            Ok(image) => {
                let r = self.apply(image.as_str());
                proof {
                    if pool@.len() > 1 {
                        let draw = choose|draw: nat|
                            selected(pool@, draw) == Ok::<Seq<char>, PipelineErrorView>(image@);
                        assert(outcome_view(Ok(r)) == request_for(pool@, draw, self@.startup));
                    }
                }
                Ok(r)
            },
        }
    }

    /// The request that follows the preparation, which reported the paths
    /// `outputs`. Where there are none, the store's directory is scanned;
    /// otherwise one of them is chosen and put to use, and the scan is never
    /// asked for.
    pub fn after_prepare(&self, outputs: &Vec<String>) -> (r: Result<Request, PipelineError>)
        ensures
            outputs@.len() == 0 ==> outcome_view(r) == Ok::<RequestView, PipelineErrorView>(
                RequestView::Scan { dir: self@.dir, max_depth: MAX_DEPTH as nat },
            ),
            outputs@.len() == 1 ==> outcome_view(r) == Ok::<RequestView, PipelineErrorView>(
                applied(outputs@[0]@, self@.startup),
            ),
            outputs@.len() > 1 ==> exists|draw: nat|
                outcome_view(r) == #[trigger] request_for(outputs@, draw, self@.startup),
    {
        if outputs.len() == 0 {
            Ok(Request::Scan { dir: self.dir.clone(), max_depth: MAX_DEPTH })
        } else {
            self.pick(outputs)
        }
    }

    /// The request that follows the preparation, however it ended. A
    /// preparation that failed ends the run with its error: nothing is
    /// scanned and nothing is shown. One that succeeded goes on as
    /// [`Opt::after_prepare`] says.
    pub fn after_prepare_result(&self, prepared: Result<Vec<String>, PipelineError>) -> (r: Result<
        Request,
        PipelineError,
    >)
        ensures
            match prepared {
                Err(e) => outcome_view(r) == Err::<RequestView, PipelineErrorView>(e@),
                Ok(outputs) => {
                    &&& outputs@.len() == 0 ==> outcome_view(r) == Ok::<
                        RequestView,
                        PipelineErrorView,
                    >(RequestView::Scan { dir: self@.dir, max_depth: MAX_DEPTH as nat })
                    &&& outputs@.len() == 1 ==> outcome_view(r) == Ok::<
                        RequestView,
                        PipelineErrorView,
                    >(applied(outputs@[0]@, self@.startup))
                    &&& outputs@.len() > 1 ==> exists|draw: nat|
                        outcome_view(r) == #[trigger] request_for(outputs@, draw, self@.startup)
                },
            },
    {
        match prepared {
            Err(e) => Err(e),
            Ok(outputs) => self.after_prepare(&outputs),
        }
    }

    /// The request that follows the scan, however it ended. A scan that
    /// failed ends the run with its error. One that succeeded goes on as
    /// [`Opt::after_scan`] says.
    pub fn after_scan_result(&self, scanned: Result<Vec<String>, PipelineError>) -> (r: Result<
        Request,
        PipelineError,
    >)
        ensures
            match scanned {
                Err(e) => outcome_view(r) == Err::<RequestView, PipelineErrorView>(e@),
                Ok(images) => {
                    &&& images@.len() == 0 ==> outcome_view(r) == Err::<
                        RequestView,
                        PipelineErrorView,
                    >(PipelineErrorView::EmptyPool)
                    &&& images@.len() == 1 ==> outcome_view(r) == Ok::<
                        RequestView,
                        PipelineErrorView,
                    >(applied(images@[0]@, self@.startup))
                    &&& images@.len() > 1 ==> exists|draw: nat|
                        outcome_view(r) == #[trigger] request_for(images@, draw, self@.startup)
                },
            },
    {
        match scanned {
            Err(e) => Err(e),
            Ok(images) => self.after_scan(&images),
        }
    }

    /// The request that follows the scan, which found `images`. Where there
    /// are none, there is nothing to choose from; otherwise one of them is
    /// chosen and put to use.
    pub fn after_scan(&self, images: &Vec<String>) -> (r: Result<Request, PipelineError>)
        ensures
            images@.len() == 0 ==> outcome_view(r) == Err::<RequestView, PipelineErrorView>(
                PipelineErrorView::EmptyPool,
            ),
            images@.len() == 1 ==> outcome_view(r) == Ok::<RequestView, PipelineErrorView>(
                applied(images@[0]@, self@.startup),
            ),
            images@.len() > 1 ==> exists|draw: nat|
                outcome_view(r) == #[trigger] request_for(images@, draw, self@.startup),
    {
        self.pick(images)
    }
}

/// What the compositor's answer to an [`Request::Invoke`] means:
/// `diagnostic` is what it wrote to standard error.
pub fn after_invoke(success: bool, diagnostic: &str) -> (r: Result<(), PipelineError>)
    ensures
        match r {
            Ok(_) => invoked(success, diagnostic@) is Ok,
            Err(e) => invoked(success, diagnostic@) == Err::<(), PipelineErrorView>(e@),
        },
{
    if success {
        Ok(())
    } else {
        Err(PipelineError::ExternalChannel(String::from_str(diagnostic)))
    }
}

} // verus!
