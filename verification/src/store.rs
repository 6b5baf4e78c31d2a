//! The image store: a flat directory of prepared images, keyed by the file
//! stem of the image each was made from.
//!
//! Preparing one image is a short conversation with the file system. This
//! module holds every decision of it; the caller does what a [`Step`] asks
//! for (a probe, the read and decoding of the source, a write, a copy) and
//! reports how it went.

use vstd::prelude::*;
use vstd::string::StringExecFns;
use crate::error::PipelineError;
use crate::error::PipelineErrorView;
use crate::path::file_name;
use crate::path::file_name_of;
use crate::path::file_stem;
use crate::path::file_stem_of;
use crate::path::lemma_file_name_is_one_component;
use crate::path::lemma_file_stem_is_one_component;
use crate::path::join;
use crate::path::joined;
use crate::raster::is_io_error;
use crate::raster::is_io_failure;
use crate::raster::scaled_side;
use crate::raster::dimensions;
use crate::raster::image_size;
use crate::raster::resize_to_fill;
use crate::raster::filled;
use crate::raster::encode_jpeg;
use crate::raster::jpeg_of;
use crate::raster::codec_message;
use crate::raster::codec_error_text;

verus! {

/// The width of a prepared image: twice that of a 1080p frame.
pub const CANONICAL_WIDTH: u32 = 3840;

/// The height of a prepared image: twice that of a 1080p frame.
pub const CANONICAL_HEIGHT: u32 = 2160;

/// The longest side that a JPEG picture can have.
pub const MAX_SIDE: u32 = 65535;

/// Prepared images are encoded at the highest JPEG quality.
pub const JPEG_QUALITY: u8 = 100;

/// How the store makes its copy of a source image.
#[derive(Clone, Copy, Debug, PartialEq, Eq, Structural)]
pub enum StoreMode {
    /// Decode, scale and crop to the canonical size, and encode as
    /// `<stem>.jpg`.
    Resize,
    /// Copy the file byte for byte, under its own name.
    Verbatim,
}

/// How preparing one image ended.
#[derive(Clone, Debug, PartialEq, Eq)]
pub enum ImageOutcome {
    /// The output was there already; nothing was read or written.
    Skipped(String),
    /// The output was written.
    Produced(String),
    /// The image could not be prepared.
    Failed(PipelineError),
}

/// The mathematical value of an [`ImageOutcome`].
pub enum ImageOutcomeView {
    Skipped(Seq<char>),
    Produced(Seq<char>),
    Failed(PipelineErrorView),
}

impl View for ImageOutcome {
    type V = ImageOutcomeView;

    open spec fn view(&self) -> ImageOutcomeView {
        match self {
            ImageOutcome::Skipped(p) => ImageOutcomeView::Skipped(p@),
            ImageOutcome::Produced(p) => ImageOutcomeView::Produced(p@),
            ImageOutcome::Failed(e) => ImageOutcomeView::Failed(e@),
        }
    }
}

/// What the caller is to do next for one image.
#[derive(Clone, Debug, PartialEq, Eq)]
pub enum Step {
    /// Find out whether a file exists at `output`, and report it to
    /// [`after_probe`].
    Probe { source: String, output: String },
    /// Read and decode the image at `source`, and report it to
    /// [`after_load`].
    Load { source: String, output: String },
    /// Create `output`, write `bytes` to it, and report to [`after_write`].
    Write { output: String, bytes: Vec<u8> },
    /// Copy `source` to `output` byte for byte, and report to
    /// [`after_write`].
    Copy { source: String, output: String },
    /// Nothing: the image is dealt with.
    Done(ImageOutcome),
}

/// The mathematical value of a [`Step`].
pub enum StepView {
    Probe { source: Seq<char>, output: Seq<char> },
    Load { source: Seq<char>, output: Seq<char> },
    Write { output: Seq<char>, bytes: Seq<u8> },
    Copy { source: Seq<char>, output: Seq<char> },
    Done(ImageOutcomeView),
}

impl View for Step {
    type V = StepView;

    open spec fn view(&self) -> StepView {
        match self {
            Step::Probe { source, output } => StepView::Probe { source: source@, output: output@ },
            Step::Load { source, output } => StepView::Load { source: source@, output: output@ },
            Step::Write { output, bytes } => StepView::Write { output: output@, bytes: bytes@ },
            Step::Copy { source, output } => StepView::Copy { source: source@, output: output@ },
            Step::Done(o) => StepView::Done(o@),
        }
    }
}

/// The name of the store's file for `source`: `<stem>.jpg` when resizing,
/// the source's own file name when copying. A source without a stem has
/// none.
pub open spec fn output_name_of(source: Seq<char>, mode: StoreMode) -> Option<Seq<char>> {
    match file_stem_of(source) {
        None => None,
        Some(stem) => match mode {
            StoreMode::Resize => Some(stem + ".jpg"@),
            StoreMode::Verbatim => file_name_of(source),
        },
    }
}

/// The path of the store's file for `source` in the store at `dir`.
pub open spec fn output_path_of(source: Seq<char>, dir: Seq<char>, mode: StoreMode) -> Result<
    Seq<char>,
    PipelineErrorView,
> {
    match output_name_of(source, mode) {
        None => Err(PipelineErrorView::InputShape),
        Some(name) => Ok(joined(dir, name)),
    }
}

/// The first step for `source`: to probe for its output, or to give up on a
/// source without a stem.
pub open spec fn first_step(source: Seq<char>, dir: Seq<char>, mode: StoreMode) -> StepView {
    match output_path_of(source, dir, mode) {
        Err(e) => StepView::Done(ImageOutcomeView::Failed(e)),
        Ok(output) => StepView::Probe { source, output },
    }
}

/// The step after the probe: an output that exists is a cache hit, whatever
/// the source holds; otherwise the source is loaded, or copied.
pub open spec fn step_after_probe(
    source: Seq<char>,
    output: Seq<char>,
    exists: bool,
    mode: StoreMode,
) -> StepView {
    if exists {
        StepView::Done(ImageOutcomeView::Skipped(output))
    } else {
        match mode {
            StoreMode::Resize => StepView::Load { source, output },
            StoreMode::Verbatim => StepView::Copy { source, output },
        }
    }
}

/// Whether the image, scaled until it covers the frame, still has sides
/// that a `u32` can count. Only an image a million times longer than wide,
/// or the reverse, fails this for the canonical frame.
pub open spec fn frame_fits(size: (u32, u32), width: u32, height: u32) -> bool {
    scaled_side(size, width, height) <= u32::MAX
}

/// The prepared form of an image: scaled and cropped to fill `width` by
/// `height` pixels, and encoded as JPEG at the highest quality. An image or
/// a frame without pixels cannot be prepared, nor can a frame with a side
/// longer than a JPEG picture can have, nor an image too long and thin to
/// be scaled to the frame.
pub open spec fn rendered(img: image::DynamicImage, width: u32, height: u32) -> Result<
    Seq<u8>,
    PipelineErrorView,
> {
    if image_size(img).0 == 0 || image_size(img).1 == 0 || width == 0 || height == 0 {
        Err(PipelineErrorView::Codec("image without pixels"@))
    } else if width > MAX_SIDE || height > MAX_SIDE {
        Err(PipelineErrorView::Codec("frame too large"@))
    } else if !frame_fits(image_size(img), width, height) {
        Err(PipelineErrorView::Codec("image too long and thin"@))
    } else {
        match jpeg_of(filled(img, width, height), JPEG_QUALITY) {
            Err(message) => Err(PipelineErrorView::Codec(message)),
            Ok(jpeg) => Ok(jpeg),
        }
    }
}

/// What a failed load means: a file that could not be read is an I/O
/// failure, a file that could not be understood a codec failure; either
/// carries the diagnostic.
pub open spec fn load_failure(e: image::ImageError) -> PipelineErrorView {
    if is_io_failure(e) {
        PipelineErrorView::Io(codec_error_text(e))
    } else {
        PipelineErrorView::Codec(codec_error_text(e))
    }
}

/// The step after the load: a load that failed ends the task, and so does an
/// image that cannot be rendered; otherwise the rendering is to be written.
pub open spec fn step_after_load(
    output: Seq<char>,
    loaded: Result<image::DynamicImage, image::ImageError>,
) -> StepView {
    match loaded {
        Err(e) => StepView::Done(ImageOutcomeView::Failed(load_failure(e))),
        Ok(img) => match rendered(img, CANONICAL_WIDTH, CANONICAL_HEIGHT) {
            Err(e) => StepView::Done(ImageOutcomeView::Failed(e)),
            Ok(jpeg) => StepView::Write { output, bytes: jpeg },
        },
    }
}

/// The outcome after the write or the copy.
pub open spec fn outcome_after_write(output: Seq<char>, failure: Option<Seq<char>>) -> ImageOutcomeView {
    match failure {
        Some(message) => ImageOutcomeView::Failed(PipelineErrorView::Io(message)),
        None => ImageOutcomeView::Produced(output),
    }
}

/// The path of the store's file for `source`, or an input-shape error for a
/// source without a stem.
pub fn output_path(source: &str, output_dir: &str, mode: StoreMode) -> (r: Result<
    String,
    PipelineError,
>)
    ensures
        match r {
            Ok(p) => output_path_of(source@, output_dir@, mode) == Ok::<
                Seq<char>,
                PipelineErrorView,
            >(p@),
            Err(e) => output_path_of(source@, output_dir@, mode) == Err::<
                Seq<char>,
                PipelineErrorView,
            >(e@),
        },
{
    let stem = match file_stem(source) {
        None => {
            return Err(PipelineError::InputShape);
        },
        Some(stem) => stem,
    };
    let name = match mode {
        StoreMode::Resize => {
            let mut name = stem;
            name.append(".jpg");
            name
        },
        StoreMode::Verbatim => match file_name(source) {
            Some(name) => name,
            None => {
                return Err(PipelineError::InputShape);
            },
        },
    };
    Ok(join(output_dir, name.as_str()))
}

/// One image to prepare.
#[derive(Clone, Debug, PartialEq, Eq)]
pub struct ImageTask {
    pub source_path: String,
}

impl ImageTask {
    /// The task of preparing the image at `source_path`.
    pub fn new(source_path: String) -> (r: ImageTask)
        ensures
            r.source_path@ == source_path@,
    {
        ImageTask { source_path }
    }

    /// The first step of the task, for the store at `output_dir`.
    pub fn begin(&self, output_dir: &str, mode: StoreMode) -> (r: Step)
        ensures
            r@ == first_step(self.source_path@, output_dir@, mode),
    {
        match output_path(self.source_path.as_str(), output_dir, mode) {
            Err(e) => Step::Done(ImageOutcome::Failed(e)),
            Ok(output) => Step::Probe { source: self.source_path.clone(), output },
        }
    }
}

/// The step that follows a probe for `output`.
pub fn after_probe(source: String, output: String, exists: bool, mode: StoreMode) -> (r: Step)
    ensures
        r@ == step_after_probe(source@, output@, exists, mode),
{
    if exists {
        Step::Done(ImageOutcome::Skipped(output))
    } else {
        match mode {
            StoreMode::Resize => Step::Load { source, output },
            StoreMode::Verbatim => Step::Copy { source, output },
        }
    }
}

/// Whether the image, scaled until it covers the frame, still has sides
/// that a `u32` can count.
fn fits_frame(w: u32, h: u32, width: u32, height: u32) -> (r: bool)
    requires
        w > 0,
        h > 0,
    ensures
        r == frame_fits((w, h), width, height),
{
    let (w, h, width, height): (u64, u64, u64, u64) = (w as u64, h as u64, width as u64, height as u64);
    assert(width * h <= 0xFFFF_FFFF * 0xFFFF_FFFF && w * height <= 0xFFFF_FFFF * 0xFFFF_FFFF)
        by (nonlinear_arith)
        requires
            w <= 0xFFFF_FFFF,
            h <= 0xFFFF_FFFF,
            width <= 0xFFFF_FFFF,
            height <= 0xFFFF_FFFF,
    ;
    assert(h * width == width * h && w * height == height * w) by (nonlinear_arith);
    let side: u64 = if width * h > w * height {
        h * width / w
    } else {
        w * height / h
    };
    side <= 0xFFFF_FFFF
}

/// Renders an image for a frame of `width` by `height` pixels. The picture
/// that is encoded has exactly the frame's size.
pub fn render_to(img: &image::DynamicImage, width: u32, height: u32) -> (r: Result<
    Vec<u8>,
    PipelineError,
>)
    ensures
        match r {
            Ok(jpeg) => {
                &&& rendered(*img, width, height) == Ok::<Seq<u8>, PipelineErrorView>(jpeg@)
                &&& jpeg_of(filled(*img, width, height), JPEG_QUALITY) == Ok::<
                    Seq<u8>,
                    Seq<char>,
                >(jpeg@)
                &&& image_size(filled(*img, width, height)) == (width, height)
            },
            Err(e) => rendered(*img, width, height) == Err::<Seq<u8>, PipelineErrorView>(e@),
        },
{
    let (w, h) = dimensions(img);
    if w == 0 || h == 0 || width == 0 || height == 0 {
        return Err(PipelineError::Codec(String::from_str("image without pixels")));
    }
    if width > MAX_SIDE || height > MAX_SIDE {
        return Err(PipelineError::Codec(String::from_str("frame too large")));
    }
    if !fits_frame(w, h, width, height) {
        return Err(PipelineError::Codec(String::from_str("image too long and thin")));
    }
    let scaled = resize_to_fill(img, width, height);
    match encode_jpeg(&scaled, JPEG_QUALITY) {
        Ok(jpeg) => Ok(jpeg),
        Err(e) => Err(PipelineError::Codec(codec_message(&e))),
    }
}

/// Renders an image at the canonical size: the picture that is encoded is
/// 3840 pixels wide and 2160 high.
pub fn render(img: &image::DynamicImage) -> (r: Result<Vec<u8>, PipelineError>)
    ensures
        match r {
            Ok(jpeg) => {
                &&& rendered(*img, CANONICAL_WIDTH, CANONICAL_HEIGHT) == Ok::<
                    Seq<u8>,
                    PipelineErrorView,
                >(jpeg@)
                &&& image_size(filled(*img, CANONICAL_WIDTH, CANONICAL_HEIGHT)) == (
                    CANONICAL_WIDTH,
                    CANONICAL_HEIGHT,
                )
            },
            Err(e) => rendered(*img, CANONICAL_WIDTH, CANONICAL_HEIGHT) == Err::<
                Seq<u8>,
                PipelineErrorView,
            >(e@),
        },
{
    render_to(img, CANONICAL_WIDTH, CANONICAL_HEIGHT)
}

/// The step that follows the load of the source: `loaded` is the decoded
/// image, or what kept the file from being read or understood. The bytes
/// that are handed on to be written encode a picture of the canonical size.
pub fn after_load(output: String, loaded: Result<image::DynamicImage, image::ImageError>) -> (r:
    Step)
    ensures
        r@ == step_after_load(output@, loaded),
        r is Write ==> loaded is Ok && image_size(
            filled(loaded->Ok_0, CANONICAL_WIDTH, CANONICAL_HEIGHT),
        ) == (CANONICAL_WIDTH, CANONICAL_HEIGHT),
{
    match loaded {
        Err(e) => {
            let message = codec_message(&e);
            if is_io_error(&e) {
                Step::Done(ImageOutcome::Failed(PipelineError::Io(message)))
            } else {
                Step::Done(ImageOutcome::Failed(PipelineError::Codec(message)))
            }
        },
        Ok(img) => match render(&img) {
            Err(e) => Step::Done(ImageOutcome::Failed(e)),
            Ok(jpeg) => Step::Write { output, bytes: jpeg },
        },
    }
}

/// The view of what a write reported.
pub open spec fn written_view(written: Result<(), String>) -> Option<Seq<char>> {
    match written {
        Ok(_) => None,
        Err(message) => Some(message@),
    }
}

/// The outcome that follows the write of `output`, or the copy to it:
/// `written` is the system's diagnostic where it failed.
pub fn after_write(output: String, written: Result<(), String>) -> (r: ImageOutcome)
    ensures
        r@ == outcome_after_write(output@, written_view(written)),
{
    match written {
        Err(message) => ImageOutcome::Failed(PipelineError::Io(message)),
        Ok(()) => ImageOutcome::Produced(output),
    }
}

/// How the task for `source` ends in a store that holds the files `files`,
/// when every read, rendering and write succeeds.
pub open spec fn outcome_in(
    files: Set<Seq<char>>,
    source: Seq<char>,
    dir: Seq<char>,
    mode: StoreMode,
) -> ImageOutcomeView {
    match first_step(source, dir, mode) {
        StepView::Probe { source, output } => match step_after_probe(
            source,
            output,
            files.contains(output),
            mode,
        ) {
            StepView::Done(outcome) => outcome,
            _ => outcome_after_write(output, None),
        },
        StepView::Done(outcome) => outcome,
        _ => arbitrary(),
    }
}

/// The files of the store after the tasks for `sources` have ended, one
/// after the other, each as [`outcome_in`] says.
pub open spec fn store_after(
    files: Set<Seq<char>>,
    sources: Seq<Seq<char>>,
    dir: Seq<char>,
    mode: StoreMode,
) -> Set<Seq<char>>
    decreases sources.len(),
{
    if sources.len() == 0 {
        files
    } else {
        let before = store_after(files, sources.drop_last(), dir, mode);
        match outcome_in(before, sources.last(), dir, mode) {
            ImageOutcomeView::Produced(output) => before.insert(output),
            _ => before,
        }
    }
}

/// The outcomes of the tasks for `sources`, in their order.
pub open spec fn outcomes_in(
    files: Set<Seq<char>>,
    sources: Seq<Seq<char>>,
    dir: Seq<char>,
    mode: StoreMode,
) -> Seq<ImageOutcomeView>
    decreases sources.len(),
{
    if sources.len() == 0 {
        Seq::empty()
    } else {
        outcomes_in(files, sources.drop_last(), dir, mode).push(
            outcome_in(
                store_after(files, sources.drop_last(), dir, mode),
                sources.last(),
                dir,
                mode,
            ),
        )
    }
}

/// The path of the store's file for `source`, which has a stem.
pub open spec fn output_of(source: Seq<char>, dir: Seq<char>, mode: StoreMode) -> Seq<char> {
    output_path_of(source, dir, mode)->Ok_0
}

/// The outputs of the first `k` of `sources`.
pub open spec fn outputs_of(sources: Seq<Seq<char>>, k: int, dir: Seq<char>, mode: StoreMode) -> Set<
    Seq<char>,
> {
    Set::new(|p: Seq<char>| exists|i: int| 0 <= i < k && p == output_of(#[trigger] sources[i], dir, mode))
}

proof fn lemma_same_prefix(p: Seq<char>, a: Seq<char>, b: Seq<char>)
    requires
        p + a == p + b,
    ensures
        a == b,
{
    assert(a =~= (p + a).subrange(p.len() as int, (p + a).len() as int));
    assert(b =~= (p + b).subrange(p.len() as int, (p + b).len() as int));
}

proof fn lemma_same_suffix(a: Seq<char>, b: Seq<char>, q: Seq<char>)
    requires
        a + q == b + q,
    ensures
        a == b,
{
    assert((a + q).len() == (b + q).len());
    assert(a =~= (a + q).subrange(0, a.len() as int));
    assert(b =~= (b + q).subrange(0, b.len() as int));
}

/// The store is flat: every output lies directly in the store's directory,
/// under a name of one component.
pub proof fn lemma_outputs_are_flat(source: Seq<char>, dir: Seq<char>, mode: StoreMode)
    ensures
        match output_name_of(source, mode) {
            Some(name) => {
                &&& output_path_of(source, dir, mode) == Ok::<Seq<char>, PipelineErrorView>(
                    joined(dir, name),
                )
                &&& name.len() > 0
                &&& forall|j: int| 0 <= j < name.len() ==> name[j] != '/'
            },
            None => output_path_of(source, dir, mode) == Err::<Seq<char>, PipelineErrorView>(
                PipelineErrorView::InputShape,
            ),
        },
{
    reveal_strlit(".jpg");
    lemma_file_name_is_one_component(source);
    lemma_file_stem_is_one_component(source);
    match output_name_of(source, mode) {
        Some(name) => {
            let stem = file_stem_of(source)->0;
            assert forall|j: int| 0 <= j < name.len() implies name[j] != '/' by {
                match mode {
                    StoreMode::Resize => {
                        if j < stem.len() {
                            assert(name[j] == stem[j]);
                        } else {
                            assert(name[j] == ".jpg"@[j - stem.len()]);
                        }
                    },
                    StoreMode::Verbatim => {},
                }
            }
        },
        None => {},
    }
}

/// When resizing, the output goes by the stem alone: sources that differ
/// only in their directories or their extensions share one output.
pub proof fn lemma_same_stem_same_output(a: Seq<char>, b: Seq<char>, dir: Seq<char>)
    requires
        file_stem_of(a) == file_stem_of(b),
    ensures
        output_path_of(a, dir, StoreMode::Resize) == output_path_of(b, dir, StoreMode::Resize),
{
}

/// Sources with different stems have different outputs.
pub proof fn lemma_distinct_stems_distinct_outputs(
    a: Seq<char>,
    b: Seq<char>,
    dir: Seq<char>,
    mode: StoreMode,
)
    requires
        file_stem_of(a) is Some,
        file_stem_of(b) is Some,
        file_stem_of(a) != file_stem_of(b),
    ensures
        output_path_of(a, dir, mode) is Ok,
        output_path_of(b, dir, mode) is Ok,
        output_of(a, dir, mode) != output_of(b, dir, mode),
{
    let na = output_name_of(a, mode)->0;
    let nb = output_name_of(b, mode)->0;
    if na == nb {
        match mode {
            StoreMode::Resize => {
                lemma_same_suffix(file_stem_of(a)->0, file_stem_of(b)->0, ".jpg"@);
            },
            StoreMode::Verbatim => {},
        }
    }
    if joined(dir, na) == joined(dir, nb) {
        if dir.len() == 0 || dir.last() == '/' {
            lemma_same_prefix(dir, na, nb);
        } else {
            lemma_same_prefix(dir + seq!['/'], na, nb);
        }
    }
}

/// In a store that holds none of their outputs, sources with stems, all
/// different, are all produced, one output each; afterwards the store holds
/// these outputs beside what it held, that many files more.
pub proof fn lemma_fresh_run_produces_all(
    files: Set<Seq<char>>,
    sources: Seq<Seq<char>>,
    dir: Seq<char>,
    mode: StoreMode,
)
    requires
        files.finite(),
        forall|i: int| 0 <= i < sources.len() ==> file_stem_of(#[trigger] sources[i]) is Some,
        forall|i: int, j: int|
            0 <= i < j < sources.len() ==> file_stem_of(#[trigger] sources[i]) != file_stem_of(
                #[trigger] sources[j],
            ),
        forall|i: int|
            0 <= i < sources.len() ==> !files.contains(output_of(#[trigger] sources[i], dir, mode)),
    ensures
        outcomes_in(files, sources, dir, mode).len() == sources.len(),
        forall|i: int|
            0 <= i < sources.len() ==> #[trigger] outcomes_in(files, sources, dir, mode)[i]
                == ImageOutcomeView::Produced(output_of(sources[i], dir, mode)),
        store_after(files, sources, dir, mode) == files.union(
            outputs_of(sources, sources.len() as int, dir, mode),
        ),
        store_after(files, sources, dir, mode).finite(),
        store_after(files, sources, dir, mode).len() == files.len() + sources.len(),
    decreases sources.len(),
{
    if sources.len() == 0 {
        assert(files.union(outputs_of(sources, 0, dir, mode)) =~= files);
    } else {
        let rest = sources.drop_last();
        let last = sources.last();
        let n = sources.len() as int;
        assert forall|i: int| 0 <= i < rest.len() implies rest[i] == sources[i] by {}
        lemma_fresh_run_produces_all(files, rest, dir, mode);
        let before = store_after(files, rest, dir, mode);
        let output = output_of(last, dir, mode);
        assert(outputs_of(rest, n - 1, dir, mode) =~= outputs_of(sources, n - 1, dir, mode));
        assert(!outputs_of(sources, n - 1, dir, mode).contains(output)) by {
            if outputs_of(sources, n - 1, dir, mode).contains(output) {
                let i = choose|i: int|
                    0 <= i < n - 1 && output == output_of(#[trigger] sources[i], dir, mode);
                lemma_distinct_stems_distinct_outputs(sources[i], last, dir, mode);
            }
        }
        assert(!before.contains(output));
        assert(outcome_in(before, last, dir, mode) == ImageOutcomeView::Produced(output));
        assert(store_after(files, sources, dir, mode) == before.insert(output));
        assert(before.insert(output) =~= files.union(outputs_of(sources, n, dir, mode))) by {
            assert forall|p: Seq<char>|
                before.insert(output).contains(p) <==> files.union(
                    outputs_of(sources, n, dir, mode),
                ).contains(p) by {
                if p == output {
                    assert(p == output_of(sources[n - 1], dir, mode));
                }
                if outputs_of(sources, n, dir, mode).contains(p) {
                    let i = choose|i: int|
                        0 <= i < n && p == output_of(#[trigger] sources[i], dir, mode);
                    if i < n - 1 {
                        assert(outputs_of(sources, n - 1, dir, mode).contains(p));
                    }
                }
                if outputs_of(sources, n - 1, dir, mode).contains(p) {
                    let i = choose|i: int|
                        0 <= i < n - 1 && p == output_of(#[trigger] sources[i], dir, mode);
                    assert(0 <= i < n && p == output_of(sources[i], dir, mode));
                }
            }
        }
        let all = outcomes_in(files, sources, dir, mode);
        assert forall|i: int| 0 <= i < sources.len() implies #[trigger] all[i]
            == ImageOutcomeView::Produced(output_of(sources[i], dir, mode)) by {
            if i < n - 1 {
                assert(all[i] == outcomes_in(files, rest, dir, mode)[i]);
            }
        }
    }
}

/// After a run, whatever the store held before it, the store holds the
/// output of every source that has a stem.
pub proof fn lemma_run_leaves_outputs(
    files: Set<Seq<char>>,
    sources: Seq<Seq<char>>,
    dir: Seq<char>,
    mode: StoreMode,
)
    requires
        forall|i: int| 0 <= i < sources.len() ==> file_stem_of(#[trigger] sources[i]) is Some,
    ensures
        forall|p: Seq<char>| files.contains(p) ==> store_after(files, sources, dir, mode).contains(p),
        forall|i: int|
            0 <= i < sources.len() ==> store_after(files, sources, dir, mode).contains(
                output_of(#[trigger] sources[i], dir, mode),
            ),
    decreases sources.len(),
{
    if sources.len() > 0 {
        let rest = sources.drop_last();
        assert forall|i: int| 0 <= i < rest.len() implies rest[i] == sources[i] by {}
        lemma_run_leaves_outputs(files, rest, dir, mode);
        let after = store_after(files, sources, dir, mode);
        assert forall|i: int| 0 <= i < sources.len() implies after.contains(
            output_of(#[trigger] sources[i], dir, mode),
        ) by {
            if i < rest.len() {
                assert(rest[i] == sources[i]);
            }
        }
    }
}

/// In a store that holds the output of every source, every task is a cache
/// hit, one outcome per source, and the store stays as it is.
pub proof fn lemma_rerun_skips_all(
    files: Set<Seq<char>>,
    sources: Seq<Seq<char>>,
    dir: Seq<char>,
    mode: StoreMode,
)
    requires
        forall|i: int| 0 <= i < sources.len() ==> file_stem_of(#[trigger] sources[i]) is Some,
        forall|i: int|
            0 <= i < sources.len() ==> files.contains(output_of(#[trigger] sources[i], dir, mode)),
    ensures
        outcomes_in(files, sources, dir, mode).len() == sources.len(),
        forall|i: int|
            0 <= i < sources.len() ==> #[trigger] outcomes_in(files, sources, dir, mode)[i]
                == ImageOutcomeView::Skipped(output_of(sources[i], dir, mode)),
        store_after(files, sources, dir, mode) == files,
    decreases sources.len(),
{
    if sources.len() > 0 {
        let rest = sources.drop_last();
        let n = sources.len() as int;
        assert forall|i: int| 0 <= i < rest.len() implies rest[i] == sources[i] by {}
        lemma_rerun_skips_all(files, rest, dir, mode);
        let all = outcomes_in(files, sources, dir, mode);
        assert forall|i: int| 0 <= i < sources.len() implies #[trigger] all[i]
            == ImageOutcomeView::Skipped(output_of(sources[i], dir, mode)) by {
            if i < n - 1 {
                assert(all[i] == outcomes_in(files, rest, dir, mode)[i]);
            }
        }
    }
}

/// Running twice: the second run over the same sources, in the store as the
/// first run left it, has as many outcomes as the first, all of them cache
/// hits, and writes nothing.
pub proof fn lemma_second_run_is_idle(
    files: Set<Seq<char>>,
    sources: Seq<Seq<char>>,
    dir: Seq<char>,
    mode: StoreMode,
)
    requires
        forall|i: int| 0 <= i < sources.len() ==> file_stem_of(#[trigger] sources[i]) is Some,
    ensures
        ({
            let first = store_after(files, sources, dir, mode);
            &&& outcomes_in(first, sources, dir, mode).len() == outcomes_in(
                files,
                sources,
                dir,
                mode,
            ).len()
            &&& forall|i: int|
                0 <= i < sources.len() ==> #[trigger] outcomes_in(first, sources, dir, mode)[i]
                    == ImageOutcomeView::Skipped(output_of(sources[i], dir, mode))
            &&& store_after(first, sources, dir, mode) == first
        }),
{
    let first = store_after(files, sources, dir, mode);
    lemma_run_leaves_outputs(files, sources, dir, mode);
    lemma_rerun_skips_all(first, sources, dir, mode);
    lemma_outcomes_len(files, sources, dir, mode);
}

/// A run has one outcome per source.
pub proof fn lemma_outcomes_len(
    files: Set<Seq<char>>,
    sources: Seq<Seq<char>>,
    dir: Seq<char>,
    mode: StoreMode,
)
    ensures
        outcomes_in(files, sources, dir, mode).len() == sources.len(),
    decreases sources.len(),
{
    if sources.len() > 0 {
        lemma_outcomes_len(files, sources.drop_last(), dir, mode);
    }
}

} // verus!
