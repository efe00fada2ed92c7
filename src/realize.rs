//! Turning decoded images into a server cursor.
//!
//! [`plan_cursor_build`] lays out the requests of one cursor build. The
//! caller issues all of them first, collecting the outcome of each checked
//! request, and only then hands the outcomes to [`build_result`], which
//! reports the first failure.

use crate::error::{parsed_error, XcbError, XcbErrorParser, XcbGenericError};
use crate::xcursor::{XcbCursorError, XcbCursorImage};
use vstd::prelude::*;

verus! {

/// What the Render extension offers for image cursors.
#[derive(Clone, Copy, Debug, PartialEq, Eq, Structural)]
pub struct RenderConfig {
    /// The picture format of 32-bit ARGB images.
    pub format: u32,
    /// Animated cursors are supported.
    pub animated: bool,
}

/// Image cursors need Render 0.5 and an ARGB32 picture format; animated
/// ones need Render 0.8.
pub open spec fn render_config_spec(major: u32, minor: u32, argb_format: Option<u32>) -> Option<RenderConfig> {
    if major == 0 && minor < 5 {
        None
    } else {
        match argb_format {
            Some(f) => Some(RenderConfig { format: f, animated: major > 0 || minor >= 8 }),
            None => None,
        }
    }
}

/// Decides the image-cursor capability from the Render version the server
/// reports and the ARGB32 picture format it offers, if any.
pub fn render_config(major: u32, minor: u32, argb_format: Option<u32>) -> (r: Option<RenderConfig>)
    ensures
        r == render_config_spec(major, minor, argb_format),
{
    if major == 0 && minor < 5 {
        return None;
    }
    match argb_format {
        Some(f) => Some(RenderConfig { format: f, animated: major > 0 || minor >= 8 }),
        None => None,
    }
}

/// One step of a cursor build.
#[derive(Clone, Copy, Debug, PartialEq, Eq, Structural)]
pub enum BuildStep {
    /// Create the scratch pixmap and graphics context at this size.
    CreateScratch { width: u16, height: u16 },
    /// Free the scratch pixmap and graphics context.
    FreeScratch,
    /// Upload frame `i` into the scratch pixmap, wrap it in a picture,
    /// create the frame's cursor at its hotspot (a checked request) and free
    /// the picture.
    Frame(usize),
    /// Combine the first `n` frame cursors, each with its delay, into one
    /// animated cursor (a checked request) and free the frame cursors.
    Animate(usize),
}

/// The size of each image.
pub open spec fn image_dims(images: Seq<XcbCursorImage>) -> Seq<(u16, u16)> {
    Seq::new(images.len(), |i: int| (images[i].width, images[i].height))
}

/// The steps for frames `0..k`: a scratch pair is created before the first
/// frame and recreated (after freeing the old one) whenever a frame's size
/// differs from the previous frame's.
pub open spec fn frame_steps(dims: Seq<(u16, u16)>, k: int) -> Seq<BuildStep>
    decreases k,
{
    if k <= 0 {
        Seq::empty()
    } else {
        let before = frame_steps(dims, k - 1);
        let d = dims[k - 1];
        let scratch = if k == 1 {
            seq![BuildStep::CreateScratch { width: d.0, height: d.1 }]
        } else if d != dims[k - 2] {
            seq![BuildStep::FreeScratch, BuildStep::CreateScratch { width: d.0, height: d.1 }]
        } else {
            Seq::empty()
        };
        before + scratch + seq![BuildStep::Frame((k - 1) as usize)]
    }
}

/// The number of frames a build uses: all images where animation is
/// supported, else the first only.
pub open spec fn frame_count(n: int, animated: bool) -> int {
    if animated {
        n
    } else {
        1
    }
}

/// All steps of a build of `n` frames.
pub open spec fn build_steps(dims: Seq<(u16, u16)>, n: int) -> Seq<BuildStep> {
    frame_steps(dims, n) + seq![BuildStep::FreeScratch] + if n > 1 {
        seq![BuildStep::Animate(n as usize)]
    } else {
        Seq::empty()
    }
}

/// The plan of a build: `Err` for an empty image list, or when image
/// cursors are unsupported.
pub open spec fn plan_spec(images: Seq<XcbCursorImage>, render: Option<RenderConfig>) -> Result<Seq<BuildStep>, XcbCursorError> {
    if images.len() == 0 {
        Err(XcbCursorError::EmptyXcursorFile)
    } else {
        match render {
            None => Err(XcbCursorError::ImageCursorNotSupported),
            Some(c) => Ok(build_steps(image_dims(images), frame_count(images.len() as int, c.animated))),
        }
    }
}

/// Lays out the requests that turn `images` into one cursor.
pub fn plan_cursor_build(images: &[XcbCursorImage], render: Option<RenderConfig>) -> (r: Result<Vec<BuildStep>, XcbCursorError>)
    ensures
        match r {
            Ok(v) => plan_spec(images@, render) == Ok::<Seq<BuildStep>, XcbCursorError>(v@),
            Err(e) => plan_spec(images@, render) == Err::<Seq<BuildStep>, XcbCursorError>(e),
        },
{
    if images.len() == 0 {
        return Err(XcbCursorError::EmptyXcursorFile);
    }
    let config = match render {
        Some(c) => c,
        None => {
            return Err(XcbCursorError::ImageCursorNotSupported);
        },
    };
    let n: usize = if config.animated {
        images.len()
    } else {
        1
    };
    let ghost dims = image_dims(images@);
    let mut steps: Vec<BuildStep> = Vec::new();
    let mut k: usize = 0;
    while k < n
        invariant
            1 <= n <= images@.len(),
            dims == image_dims(images@),
            k <= n,
            steps@ == frame_steps(dims, k as int),
        decreases n - k,
    {
        let w = images[k].width;
        let h = images[k].height;
        if k == 0 {
            steps.push(BuildStep::CreateScratch { width: w, height: h });
        } else if w != images[k - 1].width || h != images[k - 1].height {
            steps.push(BuildStep::FreeScratch);
            steps.push(BuildStep::CreateScratch { width: w, height: h });
        }
        steps.push(BuildStep::Frame(k));
        proof {
            let d = dims[k as int];
            assert(d == (w, h));
            if k > 0 {
                assert(dims[k - 1] == (images@[k - 1].width, images@[k - 1].height));
            }
        }
        assert(steps@ =~= frame_steps(dims, k + 1));
        k = k + 1;
    }
    steps.push(BuildStep::FreeScratch);
    if n > 1 {
        steps.push(BuildStep::Animate(n));
    }
    assert(steps@ =~= build_steps(dims, n as int));
    Ok(steps)
}

/// Whether the scratch pair exists after `steps`, or `None` if some step
/// uses it while it does not exist, or creates it while it does.
pub open spec fn scratch_after(steps: Seq<BuildStep>) -> Option<bool>
    decreases steps.len(),
{
    if steps.len() == 0 {
        Some(false)
    } else {
        match scratch_after(steps.drop_last()) {
            None => None,
            Some(live) => match steps.last() {
                BuildStep::CreateScratch { .. } => if live {
                    None
                } else {
                    Some(true)
                },
                BuildStep::FreeScratch => if live {
                    Some(false)
                } else {
                    None
                },
                BuildStep::Frame(_) => if live {
                    Some(true)
                } else {
                    None
                },
                BuildStep::Animate(_) => if live {
                    None
                } else {
                    Some(false)
                },
            },
        }
    }
}

proof fn lemma_frame_steps_scratch(dims: Seq<(u16, u16)>, k: int)
    requires
        1 <= k <= dims.len(),
    ensures
        scratch_after(frame_steps(dims, k)) == Some(true),
    decreases k,
{
    let before = frame_steps(dims, k - 1);
    let d = dims[k - 1];
    let c = BuildStep::CreateScratch { width: d.0, height: d.1 };
    let f = BuildStep::Frame((k - 1) as usize);
    let s = frame_steps(dims, k);
    if k == 1 {
        assert(before =~= Seq::<BuildStep>::empty());
        let s1 = seq![c];
        assert(s =~= s1.push(f));
        assert(s.drop_last() =~= s1);
        assert(s1.drop_last() =~= Seq::<BuildStep>::empty());
        assert(scratch_after(s1) == Some(true));
    } else {
        lemma_frame_steps_scratch(dims, k - 1);
        if d != dims[k - 2] {
            let x = before.push(BuildStep::FreeScratch).push(c);
            assert(s =~= x.push(f));
            assert(s.drop_last() =~= x);
            assert(x.drop_last() =~= before.push(BuildStep::FreeScratch));
            assert(before.push(BuildStep::FreeScratch).drop_last() =~= before);
            assert(scratch_after(before.push(BuildStep::FreeScratch)) == Some(false));
            assert(scratch_after(x) == Some(true));
        } else {
            assert(s =~= before.push(f));
            assert(s.drop_last() =~= before);
        }
    }
}

/// A planned build leaves no scratch pixmap or graphics context behind: it
/// creates the pair only when none exists, uploads frames only while one
/// exists, frees each pair it creates, and ends with none.
pub proof fn lemma_build_frees_scratch(images: Seq<XcbCursorImage>, render: Option<RenderConfig>)
    requires
        plan_spec(images, render) is Ok,
    ensures
        scratch_after(plan_spec(images, render)->Ok_0) == Some(false),
{
    let c = render->Some_0;
    let n = frame_count(images.len() as int, c.animated);
    let dims = image_dims(images);
    lemma_frame_steps_scratch(dims, n);
    let fs = frame_steps(dims, n);
    let freed = fs.push(BuildStep::FreeScratch);
    assert(freed.drop_last() =~= fs);
    assert(scratch_after(freed) == Some(false));
    if n > 1 {
        let all = freed.push(BuildStep::Animate(n as usize));
        assert(all.drop_last() =~= freed);
        assert(build_steps(dims, n) =~= all);
    } else {
        assert(build_steps(dims, n) =~= freed);
    }
}

/// The index of the first failed request at or after `k`, if any.
pub open spec fn first_failure(outcomes: Seq<Option<XcbGenericError>>, k: int) -> Option<int>
    decreases outcomes.len() - k,
{
    if k < 0 || k >= outcomes.len() {
        None
    } else if outcomes[k] is Some {
        Some(k)
    } else {
        first_failure(outcomes, k + 1)
    }
}

/// The result of a build whose checked requests had `outcomes` (the error
/// of each, in the order they were issued): the first failure, if any.
pub fn build_result(parser: &XcbErrorParser, outcomes: &[Option<XcbGenericError>]) -> (r: Result<(), XcbError>)
    requires
        parser.wf(),
    ensures
        match first_failure(outcomes@, 0) {
            Some(i) => r == Err::<(), XcbError>(parsed_error(parser.ranges(), outcomes@[i]->Some_0)),
            None => r is Ok,
        },
{
    let mut k: usize = 0;
    while k < outcomes.len()
        invariant
            parser.wf(),
            k <= outcomes@.len(),
            first_failure(outcomes@, 0) == first_failure(outcomes@, k as int),
        decreases outcomes@.len() - k,
    {
        match outcomes[k] {
            Some(e) => {
                return Err(parser.parse(&e));
            },
            None => {},
        }
        k = k + 1;
    }
    Ok(())
}

} // verus!
