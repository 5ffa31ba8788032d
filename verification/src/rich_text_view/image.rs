//! What the frame of an attachment image shows for each state of the image,
//! and what the frame spends of the rendering budget.
use vstd::prelude::*;
use crate::rich_text_view::budget::{prefix_within, render_element_ordinal, soft_wrapped, RenderBudget};
use crate::rich_text_view::inline::{kept_text, spent_on};
use crate::rich_text_view::names::{bounded_image_name, rich_image_name, spec_rich_image_name};
use crate::rich_text_view::state::RichImageRenderState;
use crate::text::push_str;

verus! {

/// The text shown while an image loads.
pub const LOADING_IMAGE: &'static str = "Loading image…";

/// What the frame shows in place of, or as, the picture.
#[derive(Debug, PartialEq, Eq)]
pub enum ImageBody {
    /// The decoded picture; `fallback` is shown if drawing it fails.
    Picture { fallback: String },
    /// A spinner with `LOADING_IMAGE`.
    Loading,
    /// A notice that the image is unavailable.
    Unavailable(String),
}

/// The frame of one image.
pub struct ImageFrame {
    /// The ordinal of this image among the images of the pass.
    pub image_ordinal: usize,
    /// The element ordinal that makes the frame's identity unique.
    pub element_ordinal: usize,
    /// The frame's accessible label.
    pub accessible_label: String,
    pub body: ImageBody,
    /// The name shown below the image.
    pub caption: String,
    /// Whether the image had no state at all, which is recorded once as a
    /// missing image.
    pub record_missing: bool,
}

/// The body of a frame as text.
pub enum ImageBodyModel {
    Picture { fallback: Seq<char> },
    Loading,
    Unavailable(Seq<char>),
}

/// A frame as text.
pub struct ImageFrameModel {
    pub image_ordinal: usize,
    pub element_ordinal: int,
    pub accessible_label: Seq<char>,
    pub body: ImageBodyModel,
    pub caption: Seq<char>,
    pub record_missing: bool,
}

impl View for ImageBody {
    type V = ImageBodyModel;

    open spec fn view(&self) -> ImageBodyModel {
        match self {
            ImageBody::Picture { fallback } => ImageBodyModel::Picture { fallback: fallback@ },
            ImageBody::Loading => ImageBodyModel::Loading,
            ImageBody::Unavailable(text) => ImageBodyModel::Unavailable(text@),
        }
    }
}

impl View for ImageFrame {
    type V = ImageFrameModel;

    open spec fn view(&self) -> ImageFrameModel {
        ImageFrameModel {
            image_ordinal: self.image_ordinal,
            element_ordinal: self.element_ordinal as int,
            accessible_label: self.accessible_label@,
            body: self.body@,
            caption: self.caption@,
            record_missing: self.record_missing,
        }
    }
}

/// The frame of an image named `name` in state `state`, drawn on the surface
/// `surface_ordinal`, and the budget it leaves.  The frame counts one more
/// image, spends text on its label, takes an element ordinal, spends text on
/// the unavailable notice of a failed or missing image, and last on the
/// caption.
pub open spec fn image_frame_model<T>(
    name: Seq<char>,
    state: Option<RichImageRenderState<T>>,
    surface_ordinal: usize,
    surface_stride: usize,
    b0: RenderBudget,
) -> (ImageFrameModel, RenderBudget) {
    let b1 = RenderBudget {
        image_ordinal: vstd::math::min(b0.image_ordinal + 1, usize::MAX as int) as usize,
        ..b0
    };
    let label = "Image: "@ + name;
    let b2 = spent_on(b1, label);
    let node = vstd::math::min(b2.element_ordinal as int, b2.limits.max_nodes as int);
    let b3 = RenderBudget {
        element_ordinal: vstd::math::min(b2.element_ordinal + 1, usize::MAX as int) as usize,
        ..b2
    };
    let unavailable = "Image unavailable · "@ + name;
    let shows_notice = match state {
        Some(RichImageRenderState::Ready(_)) | Some(RichImageRenderState::Loading) => false,
        _ => true,
    };
    let b4 = if shows_notice {
        spent_on(b3, unavailable)
    } else {
        b3
    };
    (
        ImageFrameModel {
            image_ordinal: b0.image_ordinal,
            element_ordinal: vstd::math::min(
                surface_ordinal * surface_stride + node,
                usize::MAX as int,
            ),
            accessible_label: soft_wrapped(kept_text(b1, label)),
            body: match state {
                Some(RichImageRenderState::Ready(_)) => ImageBodyModel::Picture {
                    fallback: unavailable,
                },
                Some(RichImageRenderState::Loading) => ImageBodyModel::Loading,
                _ => ImageBodyModel::Unavailable(soft_wrapped(kept_text(b3, unavailable))),
            },
            caption: soft_wrapped(kept_text(b4, name)),
            record_missing: state is None,
        },
        spent_on(b4, name),
    )
}

/// `prefix` followed by `name`.
fn labelled(prefix: &str, name: &str) -> (s: String)
    ensures
        s@ == prefix@ + name@,
{
    let mut s = String::new();
    push_str(&mut s, prefix);
    push_str(&mut s, name);
    assert(s@ =~= prefix@ + name@);
    s
}

/// Lays out the frame of an image with alt text `alt_text` and file name
/// `filename` in state `state`; its name is cut to `max_label_bytes` bytes.
pub fn image_frame<T>(
    alt_text: Option<&str>,
    filename: &str,
    state: Option<&RichImageRenderState<T>>,
    surface_ordinal: usize,
    surface_stride: usize,
    max_label_bytes: usize,
    budget: &mut RenderBudget,
) -> (frame: ImageFrame)
    ensures
        ({
            let name = prefix_within(
                spec_rich_image_name(
                    match alt_text {
                        Some(a) => Some(a@),
                        None => None,
                    },
                    filename@,
                ),
                max_label_bytes as nat,
            );
            let model = image_frame_model(
                name,
                match state {
                    Some(s) => Some(*s),
                    None => None,
                },
                surface_ordinal,
                surface_stride,
                *old(budget),
            );
            &&& frame@ == model.0
            &&& *final(budget) == model.1
        }),
{
    let image_ordinal = budget.image_ordinal;
    budget.image_ordinal = budget.image_ordinal.saturating_add(1);
    let name = bounded_image_name(rich_image_name(alt_text, filename), max_label_bytes);
    let accessible_label = budget.text(labelled("Image: ", name.as_str()).as_str());
    let node = budget.next_element_ordinal();
    let element_ordinal = render_element_ordinal(
        surface_ordinal,
        node,
        surface_stride,
        budget.limits.max_nodes,
    );
    let unavailable = labelled("Image unavailable · ", name.as_str());
    let (body, record_missing) = match state {
        Some(RichImageRenderState::Ready(_)) => (ImageBody::Picture { fallback: unavailable }, false),
        Some(RichImageRenderState::Loading) => (ImageBody::Loading, false),
        Some(RichImageRenderState::Failed) => (
            ImageBody::Unavailable(budget.text(unavailable.as_str())),
            false,
        ),
        None => (ImageBody::Unavailable(budget.text(unavailable.as_str())), true),
    };
    let caption = budget.text(name.as_str());
    ImageFrame { image_ordinal, element_ordinal, accessible_label, body, caption, record_missing }
}

} // verus!
