//! Per-image planning and processing: apply every capture to one image,
//! in order, stopping at the first failure.
//!
//! Planning (used by the validation-only mode and by processing) is pure;
//! cropping goes through the image library behind trusted wrappers. Opening
//! and saving files stay with the caller.

use vstd::prelude::*;

verus! {

use crate::capture::{CaptureSpec, CaptureModel, Origin};
use crate::errors::{CutoutError, ErrorModel};
use crate::geometry::{spec_convert, convert_coordinates, lemma_convert_ok_in_bounds};
use crate::paths::{spec_output_path, make_output_path};

/// One planned crop: the capture's name, its absolute rectangle, and the
/// resolved output path.
#[derive(Debug)]
pub struct PlannedCapture {
    pub name: String,
    pub abs_x: u32,
    pub abs_y: u32,
    pub width: u32,
    pub height: u32,
    pub out_path: String,
}

/// Mathematical model of a planned crop.
pub struct PlannedModel {
    pub name: Seq<char>,
    pub abs_x: u32,
    pub abs_y: u32,
    pub width: u32,
    pub height: u32,
    pub out_path: Seq<char>,
}

impl View for PlannedCapture {
    type V = PlannedModel;

    open spec fn view(&self) -> PlannedModel {
        PlannedModel {
            name: self.name@,
            abs_x: self.abs_x,
            abs_y: self.abs_y,
            width: self.width,
            height: self.height,
            out_path: self.out_path@,
        }
    }
}

/// The plan for one capture against one image: its absolute rectangle and
/// output path, or the first failing check (conversion first, then path
/// resolution).
pub open spec fn spec_plan_one(
    c: CaptureModel,
    origin: Origin,
    img_width: u32,
    img_height: u32,
    path: Seq<char>,
) -> Result<PlannedModel, ErrorModel> {
    match spec_convert(c, origin, img_width, img_height) {
        Err(e) => Err(e),
        Ok(a) => match spec_output_path(path, c.name) {
            Err(e) => Err(e),
            Ok(op) => Ok(
                PlannedModel {
                    name: c.name,
                    abs_x: a.0,
                    abs_y: a.1,
                    width: c.width,
                    height: c.height,
                    out_path: op,
                },
            ),
        },
    }
}

/// The models of a list of planned crops.
pub open spec fn planned_views(v: Seq<PlannedCapture>) -> Seq<PlannedModel> {
    v.map_values(|p: PlannedCapture| p@)
}

/// The models of a list of capture specifications.
pub open spec fn capture_views(v: Seq<CaptureSpec>) -> Seq<CaptureModel> {
    v.map_values(|c: CaptureSpec| c@)
}

/// The plan for a list of captures, in the order given: all planned crops,
/// or the error of the first capture that fails (later captures are not
/// considered).
pub open spec fn spec_plan(
    cs: Seq<CaptureModel>,
    origin: Origin,
    img_width: u32,
    img_height: u32,
    path: Seq<char>,
) -> Result<Seq<PlannedModel>, ErrorModel>
    decreases cs.len(),
{
    if cs.len() == 0 {
        Ok(Seq::empty())
    } else {
        match spec_plan(cs.drop_last(), origin, img_width, img_height, path) {
            Err(e) => Err(e),
            Ok(v) => match spec_plan_one(cs.last(), origin, img_width, img_height, path) {
                Err(e) => Err(e),
                Ok(p) => Ok(v.push(p)),
            },
        }
    }
}

/// A failing prefix decides the whole plan: once the plan of a prefix
/// fails, the plan of the full list fails with the same error.
pub proof fn lemma_plan_err_prefix(
    cs: Seq<CaptureModel>,
    k: int,
    origin: Origin,
    img_width: u32,
    img_height: u32,
    path: Seq<char>,
)
    requires
        0 <= k <= cs.len(),
        spec_plan(cs.take(k), origin, img_width, img_height, path) is Err,
    ensures
        spec_plan(cs, origin, img_width, img_height, path) == spec_plan(
            cs.take(k),
            origin,
            img_width,
            img_height,
            path,
        ),
    decreases cs.len() - k,
{
    if k == cs.len() {
        assert(cs.take(k) =~= cs);
    } else {
        assert(cs.take(k + 1).drop_last() =~= cs.take(k));
        lemma_plan_err_prefix(cs, k + 1, origin, img_width, img_height, path);
    }
}

/// A successful plan is pointwise: it has one entry per capture, and each
/// entry is that capture's own successful plan.
pub proof fn lemma_plan_ok_pointwise(
    cs: Seq<CaptureModel>,
    origin: Origin,
    img_width: u32,
    img_height: u32,
    path: Seq<char>,
)
    requires
        spec_plan(cs, origin, img_width, img_height, path) is Ok,
    ensures
        ({
            let v = spec_plan(cs, origin, img_width, img_height, path)->Ok_0;
            &&& v.len() == cs.len()
            &&& forall|i: int|
                0 <= i < cs.len() ==> spec_plan_one(cs[i], origin, img_width, img_height, path)
                    == Ok::<PlannedModel, ErrorModel>(v[i])
        }),
    decreases cs.len(),
{
    if cs.len() > 0 {
        lemma_plan_ok_pointwise(cs.drop_last(), origin, img_width, img_height, path);
        let v = spec_plan(cs, origin, img_width, img_height, path)->Ok_0;
        let vp = spec_plan(cs.drop_last(), origin, img_width, img_height, path)->Ok_0;
        assert forall|i: int|
            0 <= i < cs.len() implies spec_plan_one(cs[i], origin, img_width, img_height, path)
            == Ok::<PlannedModel, ErrorModel>(v[i]) by {
            if i < cs.len() - 1 {
                assert(cs.drop_last()[i] == cs[i]);
                assert(v[i] == vp[i]);
            } else {
                assert(cs[i] == cs.last());
            }
        }
    }
}

/// A successful plan produces exactly one output per capture, in the
/// order given, each at the path resolved from the input path and that
/// capture's own name.
pub proof fn lemma_plan_one_output_per_capture(
    cs: Seq<CaptureModel>,
    origin: Origin,
    img_width: u32,
    img_height: u32,
    path: Seq<char>,
)
    requires
        spec_plan(cs, origin, img_width, img_height, path) is Ok,
    ensures
        ({
            let v = spec_plan(cs, origin, img_width, img_height, path)->Ok_0;
            &&& v.len() == cs.len()
            &&& forall|i: int|
                0 <= i < cs.len() ==> spec_output_path(path, cs[i].name) == Ok::<
                    Seq<char>,
                    ErrorModel,
                >(v[i].out_path)
        }),
{
    lemma_plan_ok_pointwise(cs, origin, img_width, img_height, path);
}

/// Plan every capture against an image of the given dimensions, in order,
/// exactly as `spec_plan` describes it: all planned crops, or the first
/// failure.
pub fn plan_captures(
    img_width: u32,
    img_height: u32,
    origin: Origin,
    specs: &Vec<CaptureSpec>,
    input_path: &str,
) -> (r: Result<Vec<PlannedCapture>, CutoutError>)
    ensures
        (match r {
            Ok(v) => spec_plan(capture_views(specs@), origin, img_width, img_height, input_path@)
                == Ok::<Seq<PlannedModel>, ErrorModel>(planned_views(v@)),
            Err(e) => spec_plan(capture_views(specs@), origin, img_width, img_height, input_path@)
                == Err::<Seq<PlannedModel>, ErrorModel>(e@),
        }),
{
    let ghost models = capture_views(specs@);
    let mut out: Vec<PlannedCapture> = Vec::new();
    let mut i: usize = 0;
    proof {
        assert(models.take(0) =~= Seq::<CaptureModel>::empty());
        assert(planned_views(out@) =~= Seq::<PlannedModel>::empty());
    }
    while i < specs.len()
        invariant
            0 <= i <= specs.len(),
            models == capture_views(specs@),
            models.len() == specs@.len(),
            spec_plan(models.take(i as int), origin, img_width, img_height, input_path@) == Ok::<
                Seq<PlannedModel>,
                ErrorModel,
            >(planned_views(out@)),
        decreases specs.len() - i,
    {
        let c = &specs[i];
        proof {
            assert(models[i as int] == c@);
            assert(models.take(i + 1).drop_last() =~= models.take(i as int));
            assert(models.take(i + 1).last() == models[i as int]);
        }
        let converted = convert_coordinates(c, origin, img_width, img_height);
        let (abs_x, abs_y) = match converted {
            Ok(a) => a,
            Err(e) => {
                proof {
                    assert(spec_plan(models.take(i + 1), origin, img_width, img_height, input_path@)
                        == Err::<Seq<PlannedModel>, ErrorModel>(e@));
                    lemma_plan_err_prefix(
                        models,
                        i + 1,
                        origin,
                        img_width,
                        img_height,
                        input_path@,
                    );
                }
                return Err(e);
            },
        };
        let out_path = match make_output_path(input_path, c.name.as_str()) {
            Ok(p) => p,
            Err(e) => {
                proof {
                    assert(spec_plan(models.take(i + 1), origin, img_width, img_height, input_path@)
                        == Err::<Seq<PlannedModel>, ErrorModel>(e@));
                    lemma_plan_err_prefix(
                        models,
                        i + 1,
                        origin,
                        img_width,
                        img_height,
                        input_path@,
                    );
                }
                return Err(e);
            },
        };
        let planned = PlannedCapture {
            name: c.name.clone(),
            abs_x,
            abs_y,
            width: c.width,
            height: c.height,
            out_path,
        };
        proof {
            assert(spec_plan_one(models[i as int], origin, img_width, img_height, input_path@)
                == Ok::<PlannedModel, ErrorModel>(planned@));
        }
        let ghost pre = out@;
        out.push(planned);
        proof {
            assert(planned_views(out@) =~= planned_views(pre).push(planned@)) by {
                assert forall|j: int| 0 <= j < out@.len() implies planned_views(out@)[j]
                    == planned_views(pre).push(planned@)[j] by {
                    if j < pre.len() {
                        assert(out@[j] == pre[j]);
                    }
                }
            }
        }
        i = i + 1;
    }
    proof {
        assert(models.take(specs@.len() as int) =~= models);
    }
    Ok(out)
}

#[verifier::external_type_specification]
#[verifier::external_body]
pub struct ExDynamicImage(image::DynamicImage);

/// The width and height of an image, a function of the image value alone.
/// What the pair is for a given image only the image library knows; the
/// two trusted wrappers below relate it to their calls.
pub uninterp spec fn spec_dimensions(img: image::DynamicImage) -> (u32, u32);

/// Relies on `image::DynamicImage`'s `GenericImageView::dimensions`: it
/// returns the image's width and height in pixels, a function of the
/// stored buffer alone.
#[verifier::external_body]
fn image_dimensions(img: &image::DynamicImage) -> (r: (u32, u32))
    ensures
        r == spec_dimensions(*img),
{
    image::GenericImageView::dimensions(img)
}

/// How `image::DynamicImage::crop_imm` clamps a requested rectangle to an
/// image of the given dimensions: x and y are capped at the edges, then
/// width and height at what remains. The result is the produced crop's
/// dimensions.
pub open spec fn crop_clamp(dims: (u32, u32), x: u32, y: u32, width: u32, height: u32) -> (
    u32,
    u32,
) {
    let cx = if x <= dims.0 {
        x
    } else {
        dims.0
    };
    let cy = if y <= dims.1 {
        y
    } else {
        dims.1
    };
    let cw = if width <= dims.0 - cx {
        width
    } else {
        (dims.0 - cx) as u32
    };
    let ch = if height <= dims.1 - cy {
        height
    } else {
        (dims.1 - cy) as u32
    };
    (cw, ch)
}

/// Relies on `image::DynamicImage::crop_imm`: it returns the cut-out of
/// the given rectangle, clamped to the image bounds exactly as
/// `crop_clamp` says, and leaves the original untouched. The pixel
/// contents are opaque here; nothing is assumed of them.
#[verifier::external_body]
fn crop_region(img: &image::DynamicImage, x: u32, y: u32, width: u32, height: u32) -> (r:
    image::DynamicImage)
    ensures
        spec_dimensions(r) == crop_clamp(spec_dimensions(*img), x, y, width, height),
{
    img.crop_imm(x, y, width, height)
}

/// One produced crop, ready to be persisted: the cut-out bitmap and the
/// path it belongs at.
#[derive(Debug)]
pub struct CroppedCapture {
    pub image: image::DynamicImage,
    pub out_path: String,
}

/// Process one already-decoded image: for each capture in the order
/// given, convert its coordinates against the image's dimensions, resolve
/// its output path and cut its rectangle out, stopping at the first
/// failure. The crops produced before a failure are handed back with it,
/// so the caller can persist each capture's crop before the next capture
/// is attempted; nothing already produced is discarded.
///
/// The second component is `None` exactly when every capture plans
/// successfully against the image's own dimensions; then there is one
/// crop per capture. On a failure it holds the first failing capture's
/// error, the crops are the plans of the prefix before it, and the
/// capture right after the prefix is the one that failed. Either way each
/// produced crop sits at the path resolved for its capture's name and has
/// exactly its capture's width and height. Opening the image and saving
/// the crops stay with the caller.
pub fn process_image(
    img: &image::DynamicImage,
    input_path: &str,
    origin: Origin,
    specs: &Vec<CaptureSpec>,
) -> (r: (Vec<CroppedCapture>, Option<CutoutError>))
    ensures
        ({
            let cs = capture_views(specs@);
            let w = spec_dimensions(*img).0;
            let h = spec_dimensions(*img).1;
            match r.1 {
                None => {
                    &&& spec_plan(cs, origin, w, h, input_path@) is Ok
                    &&& r.0@.len() == specs@.len()
                },
                Some(e) => {
                    &&& spec_plan(cs, origin, w, h, input_path@) == Err::<
                        Seq<PlannedModel>,
                        ErrorModel,
                    >(e@)
                    &&& r.0@.len() < specs@.len()
                    &&& spec_plan(cs.take(r.0@.len() as int), origin, w, h, input_path@) is Ok
                    &&& spec_plan_one(cs[r.0@.len() as int], origin, w, h, input_path@) == Err::<
                        PlannedModel,
                        ErrorModel,
                    >(e@)
                },
            }
        }),
        forall|k: int|
            0 <= k < r.0@.len() ==> spec_output_path(input_path@, specs@[k]@.name) == Ok::<
                Seq<char>,
                ErrorModel,
            >(r.0@[k].out_path@),
        forall|k: int|
            0 <= k < r.0@.len() ==> spec_dimensions(r.0@[k].image) == (
                specs@[k]@.width,
                specs@[k]@.height,
            ),
{
    let (img_width, img_height) = image_dimensions(img);
    let ghost cs = capture_views(specs@);
    let mut crops: Vec<CroppedCapture> = Vec::new();
    let mut k: usize = 0;
    proof {
        assert(cs.take(0) =~= Seq::<CaptureModel>::empty());
    }
    while k < specs.len()
        invariant
            0 <= k <= specs.len(),
            cs == capture_views(specs@),
            cs.len() == specs@.len(),
            (img_width, img_height) == spec_dimensions(*img),
            crops@.len() == k,
            spec_plan(cs.take(k as int), origin, img_width, img_height, input_path@) is Ok,
            forall|j: int|
                0 <= j < k ==> spec_output_path(input_path@, specs@[j]@.name) == Ok::<
                    Seq<char>,
                    ErrorModel,
                >(crops@[j].out_path@),
            forall|j: int|
                0 <= j < k ==> spec_dimensions(crops@[j].image) == (
                    specs@[j]@.width,
                    specs@[j]@.height,
                ),
        decreases specs.len() - k,
    {
        let c = &specs[k];
        proof {
            assert(cs[k as int] == c@);
            assert(cs.take(k + 1).drop_last() =~= cs.take(k as int));
            assert(cs.take(k + 1).last() == cs[k as int]);
        }
        let (abs_x, abs_y) = match convert_coordinates(c, origin, img_width, img_height) {
            Ok(a) => a,
            Err(e) => {
                proof {
                    assert(spec_plan_one(cs[k as int], origin, img_width, img_height, input_path@)
                        == Err::<PlannedModel, ErrorModel>(e@));
                    assert(spec_plan(cs.take(k + 1), origin, img_width, img_height, input_path@)
                        == Err::<Seq<PlannedModel>, ErrorModel>(e@));
                    lemma_plan_err_prefix(cs, k + 1, origin, img_width, img_height, input_path@);
                }
                return (crops, Some(e));
            },
        };
        let out_path = match make_output_path(input_path, c.name.as_str()) {
            Ok(p) => p,
            Err(e) => {
                proof {
                    assert(spec_plan_one(cs[k as int], origin, img_width, img_height, input_path@)
                        == Err::<PlannedModel, ErrorModel>(e@));
                    assert(spec_plan(cs.take(k + 1), origin, img_width, img_height, input_path@)
                        == Err::<Seq<PlannedModel>, ErrorModel>(e@));
                    lemma_plan_err_prefix(cs, k + 1, origin, img_width, img_height, input_path@);
                }
                return (crops, Some(e));
            },
        };
        let cropped = crop_region(img, abs_x, abs_y, c.width, c.height);
        proof {
            lemma_convert_ok_in_bounds(c@, origin, img_width, img_height);
            assert(spec_dimensions(cropped) == (c@.width, c@.height));
            assert(spec_plan(cs.take(k + 1), origin, img_width, img_height, input_path@) is Ok);
        }
        crops.push(CroppedCapture { image: cropped, out_path });
        k = k + 1;
    }
    proof {
        assert(cs.take(specs@.len() as int) =~= cs);
    }
    (crops, None)
}

} // verus!
