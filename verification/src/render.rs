//! Rendering a view: the place of each item on the canvas, the plan of what is drawn, and
//! the drawing of the plan's steps onto the background and the mask.

use crate::canvas::{
    draw_pixmap, drawn_bytes, is_pixel_buffer, lemma_pixel_count, resize_exact, resized_bytes,
    Canvas, MAX_SIDE,
};
use crate::compose::{background_with, blend_image, mask_with, merge_ids, owners_with};
use crate::fit::{
    clamp_i32, clamp_u32, nearest_quotient, scaled_floor, scaled_round, CanonicalLayout, Scale,
};
use crate::layout::{BlendType, Bounds, NameElement, NameElementChildren, ViewElement};
use crate::manifest::{PresetDefinition, Screen};
use crate::mask::PixelIDMap;
use crate::resolve::{
    all_in_range, declared_bounds, extents_of, filter_items, is_kept, kept_places,
    lemma_kept_places, measure, ref_of, translate, translated, Extents, FilteredItems,
    ResolveError,
};
use vstd::prelude::*;
use vstd::string::StringExecFns;

verus! {

/// Where an item lands on the canvas, in pixels.
#[derive(Clone, Copy, Debug, PartialEq, Eq, Structural)]
pub struct ImageDimensions {
    pub x: i32,
    pub y: i32,
    pub width: u32,
    pub height: u32,
}

/// Scales the size `m` of a number and rounds to the nearest whole number.
fn scale_nearest(m: u128, scale: &Scale) -> (res: u128)
    requires
        m <= 0x1_0000_0000_0000_0000,
        scale.den > 0,
    ensures
        res == nearest_quotient(m * scale.num, scale.den as int),
        res <= 0x2_0000_0000_0000_0000_0000_0000,
{
    let n: u128 = scale.num as u128;
    let d: u128 = scale.den as u128;
    assert(0 <= m * n <= 0x1_0000_0000_0000_0000 * 0xffff_ffff) by (nonlinear_arith)
        requires
            0 <= m <= 0x1_0000_0000_0000_0000,
            0 <= n <= 0xffff_ffff,
    ;
    let q: u128 = (2 * (m * n) + d) / (2 * d);
    assert(q <= 2 * (m * n) + d) by (nonlinear_arith)
        requires
            q == (2 * (m * n) + d) / (2 * d),
            d > 0,
            m * n >= 0,
    ;
    q
}

impl ImageDimensions {
    /// The place of a rectangle on the canvas: its corner relative to the view's, scaled and
    /// rounded, then moved by the centring offset; its size scaled and cut down to whole pixels.
    pub open spec fn placed(
        view_bounds: Bounds,
        bounds: Bounds,
        scale: Scale,
        x_offset: i32,
        y_offset: i32,
    ) -> ImageDimensions {
        ImageDimensions {
            x: clamp_i32(scaled_round(bounds.x - view_bounds.x, scale) + x_offset),
            y: clamp_i32(scaled_round(bounds.y - view_bounds.y, scale) + y_offset),
            width: clamp_u32(scaled_floor(bounds.width as int, scale)),
            height: clamp_u32(scaled_floor(bounds.height as int, scale)),
        }
    }

    /// Places a rectangle on the canvas.
    pub fn new(
        view_bounds: &Bounds,
        bounds: &Bounds,
        scale: &Scale,
        x_offset: i32,
        y_offset: i32,
    ) -> (res: ImageDimensions)
        requires
            scale.den > 0,
        ensures
            res == Self::placed(*view_bounds, *bounds, *scale, x_offset, y_offset),
    {
        let x: i32 = Self::place_corner(bounds.x, view_bounds.x, scale, x_offset);
        let y: i32 = Self::place_corner(bounds.y, view_bounds.y, scale, y_offset);
        let width: u32 = Self::place_size(bounds.width, scale);
        let height: u32 = Self::place_size(bounds.height, scale);
        ImageDimensions { x, y, width, height }
    }

    fn place_corner(at: i64, origin: i64, scale: &Scale, offset: i32) -> (res: i32)
        requires
            scale.den > 0,
        ensures
            res == clamp_i32(scaled_round(at - origin, *scale) + offset),
    {
        let a: i128 = at as i128 - origin as i128;
        let moved: i128 = if a >= 0 {
            let q: u128 = scale_nearest(a as u128, scale);
            q as i128 + offset as i128
        } else {
            let q: u128 = scale_nearest((-a) as u128, scale);
            -(q as i128) + offset as i128
        };
        if moved < i32::MIN as i128 {
            i32::MIN
        } else if moved > i32::MAX as i128 {
            i32::MAX
        } else {
            moved as i32
        }
    }

    fn place_size(size: i64, scale: &Scale) -> (res: u32)
        requires
            scale.den > 0,
        ensures
            res == clamp_u32(scaled_floor(size as int, *scale)),
    {
        if size <= 0 {
            return 0;
        }
        let m: u128 = size as u128;
        let n: u128 = scale.num as u128;
        let d: u128 = scale.den as u128;
        assert(0 <= m * n <= 0x7fff_ffff_ffff_ffff * 0xffff_ffff) by (nonlinear_arith)
            requires
                0 <= m <= 0x7fff_ffff_ffff_ffff,
                0 <= n <= 0xffff_ffff,
        ;
        let q: u128 = (m * n) / d;
        if q > u32::MAX as u128 {
            u32::MAX
        } else {
            q as u32
        }
    }
}

/// Why a view could not be rendered.
#[derive(Clone, Copy, Debug, PartialEq, Eq, Structural)]
pub enum RenderError {
    /// A bounds record holds none of the three complete groups of fields.
    MalformedBounds,
    /// The view has more than one bounds item of its own.
    MultipleViewBounds,
    /// The view has no width or no height, so that no scale fits it into the canvas.
    EmptyView,
    /// The asset for a step of the plan is not there, or is not of the step's kind.
    MissingAsset { step: usize },
    /// The image of a step cannot be brought into a pixel buffer of the size it is to have.
    PixmapConversionFailure { step: usize },
}

/// The error of rendering that an error of resolving becomes.
pub open spec fn render_error_of(e: ResolveError) -> RenderError {
    match e {
        ResolveError::MalformedBounds => RenderError::MalformedBounds,
        ResolveError::MultipleViewBounds => RenderError::MultipleViewBounds,
    }
}

/// The rectangle that an item of a view gives itself.
pub open spec fn item_bounds(item: ViewElement) -> Option<Bounds> {
    match item {
        ViewElement::Bounds(b) => b.resolved(),
        ViewElement::Element(e) => e.bounds.resolved(),
        ViewElement::Overlay(e) => e.bounds.resolved(),
        ViewElement::Screen(s) => s.bounds.resolved(),
    }
}

/// Whether every item at the given places has a well-formed rectangle.
pub open spec fn places_resolve(items: Seq<ViewElement>, places: Seq<usize>) -> bool {
    forall|k: int| 0 <= k < places.len() ==> item_bounds(items[#[trigger] places[k] as int]) is Some
}

/// The rectangles of the elements among the items at the given places, in their order.
pub open spec fn element_bounds(items: Seq<ViewElement>, places: Seq<usize>) -> Seq<Bounds>
    decreases places.len(),
{
    if places.len() == 0 {
        Seq::empty()
    } else if ref_of(items[places.last() as int]) is Some {
        element_bounds(items, places.drop_last()).push(
            item_bounds(items[places.last() as int])->0,
        )
    } else {
        element_bounds(items, places.drop_last())
    }
}

/// Whether the definition holds an image.
pub open spec fn holds_image(definition: NameElement) -> bool {
    exists|j: int| 0 <= j < definition.items@.len() && #[trigger] definition.items@[j] is Image
}

/// Whether an element of this name is defined with an image.
pub open spec fn has_image(defined: Seq<NameElement>, name: Seq<char>) -> bool {
    exists|i: int|
        0 <= i < defined.len() && (#[trigger] defined[i]).name@ == name && holds_image(defined[i])
}

/// Whether an item that is kept is also drawn: a screen always, an element where it is
/// defined with an image.
pub open spec fn is_drawn(defined: Seq<NameElement>, item: ViewElement) -> bool {
    match ref_of(item) {
        Some(name) => has_image(defined, name),
        None => true,
    }
}

/// The blend of an item: an overlay is always multiplied, an element has the blend it names.
pub open spec fn effective_blend(item: ViewElement) -> Option<BlendType> {
    match item {
        ViewElement::Overlay(_) => Some(BlendType::Multiply),
        ViewElement::Element(e) => e.blend,
        _ => None,
    }
}

/// One step of rendering a view.
#[derive(Clone, Copy, Debug, PartialEq, Eq, Structural)]
pub enum RenderStep {
    /// The image of the element at place `item` of the view is scaled to the size of
    /// `dimensions`, laid at their corner and blended in.
    Element { item: usize, dimensions: ImageDimensions, blend: Option<BlendType> },
    /// The artwork of the screen at place `item` of the view is drawn at `dimensions`.
    Screen { item: usize, dimensions: ImageDimensions },
}

/// The step that draws the item at `place`.
pub open spec fn step_for(
    items: Seq<ViewElement>,
    place: usize,
    extents: Extents,
    layout: CanonicalLayout,
) -> RenderStep {
    let item = items[place as int];
    let dimensions = ImageDimensions::placed(
        layout.view_bounds,
        translated(item_bounds(item)->0, extents.common_x as int, extents.common_y as int),
        layout.scale_ratio,
        layout.x_offset,
        layout.y_offset,
    );
    if item is Screen {
        RenderStep::Screen { item: place, dimensions }
    } else {
        RenderStep::Element { item: place, dimensions, blend: effective_blend(item) }
    }
}

/// The steps that draw the items at the given places, in their order.
pub open spec fn steps_for(
    items: Seq<ViewElement>,
    defined: Seq<NameElement>,
    places: Seq<usize>,
    extents: Extents,
    layout: CanonicalLayout,
) -> Seq<RenderStep>
    decreases places.len(),
{
    if places.len() == 0 {
        Seq::empty()
    } else if is_drawn(defined, items[places.last() as int]) {
        steps_for(items, defined, places.drop_last(), extents, layout).push(
            step_for(items, places.last(), extents, layout),
        )
    } else {
        steps_for(items, defined, places.drop_last(), extents, layout)
    }
}

/// How a view is rendered: the fit into the canvas, the offset common to its elements, and
/// the steps in their order.
#[derive(Debug)]
pub struct RenderPlan {
    pub layout: CanonicalLayout,
    pub extents: Extents,
    pub steps: Vec<RenderStep>,
}

/// What a plan holds.
pub struct PlanModel {
    pub layout: CanonicalLayout,
    pub extents: Extents,
    pub steps: Seq<RenderStep>,
}

impl View for RenderPlan {
    type V = PlanModel;

    open spec fn view(&self) -> PlanModel {
        PlanModel { layout: self.layout, extents: self.extents, steps: self.steps@ }
    }
}

/// The plan for a view, or why it has none. The view's own bounds item decides first; then
/// every item that is kept must have a well-formed rectangle; then the view must have a
/// size: that of its own bounds, or else what its elements span.
pub open spec fn planned(
    items: Seq<ViewElement>,
    defined: Seq<NameElement>,
    canvas_width: u32,
    canvas_height: u32,
) -> Result<PlanModel, RenderError> {
    let places = kept_places(items, items.len() as int);
    match declared_bounds(items) {
        Err(e) => Err(render_error_of(e)),
        Ok(declared) => if !places_resolve(items, places) {
            Err(RenderError::MalformedBounds)
        } else {
            let extents = extents_of(element_bounds(items, places));
            let view_bounds = match declared {
                Some(b) => b,
                None => extents.view_bounds,
            };
            if view_bounds.width <= 0 || view_bounds.height <= 0 {
                Err(RenderError::EmptyView)
            } else {
                let layout = CanonicalLayout::fitted(view_bounds, canvas_width, canvas_height);
                Ok(
                    PlanModel {
                        layout,
                        extents,
                        steps: steps_for(items, defined, places, extents, layout),
                    },
                )
            }
        },
    }
}

/// Tells whether an element of this name is defined with an image.
pub fn defines_image(defined: &Vec<NameElement>, name: &String) -> (res: bool)
    ensures
        res == has_image(defined@, name@),
{
    let mut i: usize = 0;
    while i < defined.len()
        invariant
            i <= defined@.len(),
            forall|k: int|
                0 <= k < i ==> !((#[trigger] defined@[k]).name@ == name@ && holds_image(
                    defined@[k],
                )),
        decreases defined@.len() - i,
    {
        if defined[i].name == *name {
            let parts: &Vec<NameElementChildren> = &defined[i].items;
            let mut j: usize = 0;
            while j < parts.len()
                invariant
                    j <= parts@.len(),
                    i < defined@.len(),
                    parts@ == defined@[i as int].items@,
                    defined@[i as int].name@ == name@,
                    forall|m: int| 0 <= m < j ==> !(#[trigger] parts@[m] is Image),
                decreases parts@.len() - j,
            {
                match &parts[j] {
                    NameElementChildren::Image(_) => {
                        assert(holds_image(defined@[i as int]));
                        return true;
                    },
                    _ => {},
                }
                j += 1;
            }
        }
        i += 1;
    }
    false
}

/// The rectangle of an item.
pub fn bounds_of_item(item: &ViewElement) -> (res: Option<Bounds>)
    ensures
        res == item_bounds(*item),
        res matches Some(b) ==> b.in_range(),
{
    let resolved = match item {
        ViewElement::Bounds(b) => b.to_xy(),
        ViewElement::Element(e) => e.bounds.to_xy(),
        ViewElement::Overlay(e) => e.bounds.to_xy(),
        ViewElement::Screen(s) => s.bounds.to_xy(),
    };
    match resolved {
        Ok(b) => Some(b),
        Err(_) => None,
    }
}

/// Plans the rendering of a view onto a canvas of the given size.
pub fn plan_render(
    items: &Vec<ViewElement>,
    defined: &Vec<NameElement>,
    canvas_width: u32,
    canvas_height: u32,
) -> (res: Result<RenderPlan, RenderError>)
    ensures
        match res {
            Ok(plan) => planned(items@, defined@, canvas_width, canvas_height) == Ok::<
                PlanModel,
                RenderError,
            >(plan@),
            Err(e) => planned(items@, defined@, canvas_width, canvas_height) == Err::<
                PlanModel,
                RenderError,
            >(e),
        },
{
    let filtered: FilteredItems = match filter_items(items) {
        Ok(filtered) => filtered,
        Err(ResolveError::MalformedBounds) => {
            return Err(RenderError::MalformedBounds);
        },
        Err(ResolveError::MultipleViewBounds) => {
            return Err(RenderError::MultipleViewBounds);
        },
    };
    let kept: &Vec<usize> = &filtered.kept;
    let total: usize = items.len();
    proof {
        lemma_kept_places(items@, total as int);
    }
    let mut bounds: Vec<Bounds> = Vec::new();
    let mut elements: Vec<Bounds> = Vec::new();
    let mut n: usize = 0;
    while n < kept.len()
        invariant
            n <= kept@.len(),
            kept@ == kept_places(items@, items@.len() as int),
            declared_bounds(items@) == Ok::<Option<Bounds>, ResolveError>(filtered.view_bounds),
            forall|k: int| 0 <= k < kept@.len() ==> 0 <= (#[trigger] kept@[k]) < items@.len(),
            bounds@.len() == n,
            forall|k: int|
                0 <= k < n ==> item_bounds(items@[kept@[k] as int]) == Some(#[trigger] bounds@[k])
                    && bounds@[k].in_range(),
            elements@ == element_bounds(items@, kept@.take(n as int)),
            all_in_range(elements@),
        decreases kept@.len() - n,
    {
        let place: usize = kept[n];
        proof {
            assert(kept@.take(n + 1).drop_last() =~= kept@.take(n as int));
            assert(kept@.take(n + 1).last() == place);
        }
        match bounds_of_item(&items[place]) {
            Some(b) => {
                bounds.push(b);
                let is_element: bool = match &items[place] {
                    ViewElement::Element(_) => true,
                    ViewElement::Overlay(_) => true,
                    _ => false,
                };
                if is_element {
                    elements.push(b);
                }
            },
            None => {
                assert(item_bounds(items@[kept@[n as int] as int]) is None);
                assert(!places_resolve(items@, kept@));
                return Err(RenderError::MalformedBounds);
            },
        }
        n += 1;
    }
    assert(kept@.take(n as int) =~= kept@);
    assert forall|k: int| 0 <= k < kept@.len() implies item_bounds(
        items@[#[trigger] kept@[k] as int],
    ) is Some by {
        assert(bounds@[k].in_range());
    }
    let extents: Extents = measure(&elements);
    let view_bounds: Bounds = match filtered.view_bounds {
        Some(b) => b,
        None => extents.view_bounds,
    };
    let layout: CanonicalLayout = match CanonicalLayout::fit(
        &view_bounds,
        canvas_width,
        canvas_height,
    ) {
        Some(layout) => layout,
        None => {
            return Err(RenderError::EmptyView);
        },
    };
    let mut steps: Vec<RenderStep> = Vec::new();
    let mut n: usize = 0;
    while n < kept.len()
        invariant
            n <= kept@.len(),
            forall|k: int| 0 <= k < kept@.len() ==> 0 <= (#[trigger] kept@[k]) < items@.len(),
            bounds@.len() == kept@.len(),
            forall|k: int|
                0 <= k < kept@.len() ==> item_bounds(items@[kept@[k] as int]) == Some(
                    #[trigger] bounds@[k],
                ) && bounds@[k].in_range(),
            0 <= extents.common_x <= 0xffff_ffff,
            0 <= extents.common_y <= 0xffff_ffff,
            layout.scale_ratio.den > 0,
            forall|k: int| 0 <= k < kept@.len() ==> is_kept(items@, #[trigger] kept@[k] as int),
            steps@ == steps_for(items@, defined@, kept@.take(n as int), extents, layout),
        decreases kept@.len() - n,
    {
        let place: usize = kept[n];
        proof {
            assert(kept@.take(n + 1).drop_last() =~= kept@.take(n as int));
            assert(kept@.take(n + 1).last() == place);
        }
        let moved: Bounds = translate(&bounds[n], extents.common_x, extents.common_y);
        let dimensions: ImageDimensions = ImageDimensions::new(
            &layout.view_bounds,
            &moved,
            &layout.scale_ratio,
            layout.x_offset,
            layout.y_offset,
        );
        match &items[place] {
            ViewElement::Element(e) => {
                if defines_image(defined, &e.ref_name) {
                    steps.push(RenderStep::Element { item: place, dimensions, blend: e.blend });
                }
            },
            ViewElement::Overlay(e) => {
                if defines_image(defined, &e.ref_name) {
                    steps.push(
                        RenderStep::Element {
                            item: place,
                            dimensions,
                            blend: Some(BlendType::Multiply),
                        },
                    );
                }
            },
            ViewElement::Screen(_) => {
                steps.push(RenderStep::Screen { item: place, dimensions });
            },
            ViewElement::Bounds(_) => {
                assert(!is_kept(items@, place as int));
            },
        }
        n += 1;
    }
    assert(kept@.take(n as int) =~= kept@);
    Ok(RenderPlan { layout, extents, steps })
}

/// The artwork of a screen, drawn for the canvas: its pixels, and the segment that owns each.
#[derive(Debug)]
pub struct RenderedSVG {
    pub pixmap: Canvas,
    pub pixel_pos_to_id: PixelIDMap,
}

/// What a step of a plan draws: the image of an element as it was loaded, or the artwork of a
/// screen as it was drawn for the step's place.
#[derive(Debug)]
pub enum Asset {
    Image(Canvas),
    Screen(RenderedSVG),
}

/// A rendered view: the background, the mask laid over the background, and the segment that
/// owns each pixel.
#[derive(Debug)]
pub struct RenderedData {
    pub background_bytes: Canvas,
    pub mask_bytes: Canvas,
    pub pixels_to_mask_id: PixelIDMap,
}

/// What has been drawn so far: the bytes of the background and of the mask, and the owners of
/// the pixels.
pub struct PassModel {
    pub background: Seq<u8>,
    pub mask: Seq<u8>,
    pub owners: Seq<Option<u16>>,
}

/// The bytes of a buffer of the given size in which every pixel is transparent.
pub open spec fn blank_bytes(width: u32, height: u32) -> Seq<u8> {
    Seq::new((4 * (width * height)) as nat, |i: int| 0u8)
}

/// The bytes of a canvas on which only the given image lies, with its corner at the place
/// given. An image whose far edges lie beyond what an `i32` holds is not on the canvas at all.
pub open spec fn aligned_bytes(
    width: u32,
    height: u32,
    dimensions: ImageDimensions,
    image: Seq<u8>,
) -> Seq<u8> {
    if dimensions.x + dimensions.width > i32::MAX || dimensions.y + dimensions.height > i32::MAX {
        blank_bytes(width, height)
    } else {
        drawn_bytes(
            blank_bytes(width, height),
            width,
            height,
            dimensions.x,
            dimensions.y,
            image,
            dimensions.width,
            dimensions.height,
        )
    }
}

/// Whether the artwork of a screen is of the canvas's size.
pub open spec fn fits_canvas(svg: RenderedSVG, width: u32, height: u32) -> bool {
    &&& svg.pixmap.wf()
    &&& svg.pixmap.width == width
    &&& svg.pixmap.height == height
    &&& svg.pixel_pos_to_id@.cells.len() == width * height
}

/// What has been drawn after one more step, or why the step fails. An element's image is
/// scaled to the step's size, laid on a canvas of its own at the step's corner and blended
/// onto background and mask. A screen's artwork is laid over the mask, and the owners it
/// gives its pixels replace those that were there.
pub open spec fn apply_step(
    state: PassModel,
    step: RenderStep,
    asset: Asset,
    index: usize,
    width: u32,
    height: u32,
) -> Result<PassModel, RenderError> {
    match step {
        RenderStep::Element { item, dimensions, blend } => match asset {
            Asset::Image(image) => if image.wf() && 1 <= dimensions.width <= MAX_SIDE && 1
                <= dimensions.height <= MAX_SIDE {
                let aligned = aligned_bytes(
                    width,
                    height,
                    dimensions,
                    resized_bytes(
                        image.data@,
                        image.width,
                        image.height,
                        dimensions.width,
                        dimensions.height,
                    ),
                );
                Ok(
                    PassModel {
                        background: background_with(blend, state.background, aligned),
                        mask: mask_with(blend, state.mask, aligned, state.owners),
                        owners: state.owners,
                    },
                )
            } else {
                Err(RenderError::PixmapConversionFailure { step: index })
            },
            Asset::Screen(_) => Err(RenderError::MissingAsset { step: index }),
        },
        RenderStep::Screen { item, dimensions } => match asset {
            Asset::Screen(svg) => if fits_canvas(svg, width, height) {
                Ok(
                    PassModel {
                        background: state.background,
                        mask: drawn_bytes(
                            state.mask,
                            width,
                            height,
                            0,
                            0,
                            svg.pixmap.data@,
                            width,
                            height,
                        ),
                        owners: owners_with(state.owners, svg.pixel_pos_to_id@.cells),
                    },
                )
            } else {
                Err(RenderError::PixmapConversionFailure { step: index })
            },
            Asset::Image(_) => Err(RenderError::MissingAsset { step: index }),
        },
    }
}

/// What has been drawn after the first `n` steps, or the first failure among them. A step
/// for which no asset is given fails.
pub open spec fn state_after(
    steps: Seq<RenderStep>,
    assets: Seq<Asset>,
    width: u32,
    height: u32,
    n: int,
) -> Result<PassModel, RenderError>
    decreases n,
{
    if n <= 0 {
        Ok(
            PassModel {
                background: blank_bytes(width, height),
                mask: blank_bytes(width, height),
                owners: Seq::new((width * height) as nat, |i: int| None::<u16>),
            },
        )
    } else {
        match state_after(steps, assets, width, height, n - 1) {
            Err(e) => Err(e),
            Ok(state) => if n - 1 < assets.len() {
                apply_step(state, steps[n - 1], assets[n - 1], (n - 1) as usize, width, height)
            } else {
                Err(RenderError::MissingAsset { step: (n - 1) as usize })
            },
        }
    }
}

/// Once a step has failed, the steps after it change nothing: the failure is the result.
pub proof fn lemma_failure_stays(
    steps: Seq<RenderStep>,
    assets: Seq<Asset>,
    width: u32,
    height: u32,
    m: int,
    n: int,
)
    requires
        0 <= m <= n,
        state_after(steps, assets, width, height, m) is Err,
    ensures
        state_after(steps, assets, width, height, n) == state_after(
            steps,
            assets,
            width,
            height,
            m,
        ),
    decreases n - m,
{
    if m < n {
        lemma_failure_stays(steps, assets, width, height, m, n - 1);
    }
}

/// Whether `data` is what rendering the steps gives: the background as drawn, the mask laid
/// over that background, and the owners of the pixels.
pub open spec fn is_rendering(
    data: RenderedData,
    state: PassModel,
    width: u32,
    height: u32,
) -> bool {
    &&& data.background_bytes.wf()
    &&& data.mask_bytes.wf()
    &&& data.background_bytes.width == width
    &&& data.background_bytes.height == height
    &&& data.mask_bytes.width == width
    &&& data.mask_bytes.height == height
    &&& data.background_bytes.data@ == state.background
    &&& data.mask_bytes.data@ == drawn_bytes(
        state.background,
        width,
        height,
        0,
        0,
        state.mask,
        width,
        height,
    )
    &&& data.pixels_to_mask_id@.wf()
    &&& data.pixels_to_mask_id@.width == width
    &&& data.pixels_to_mask_id@.height == height
    &&& data.pixels_to_mask_id@.cells == state.owners
}

/// Whether the three buffers are those of a pass over a canvas of the given size.
pub open spec fn is_pass(
    background: Canvas,
    mask: Canvas,
    ids: PixelIDMap,
    width: u32,
    height: u32,
) -> bool {
    &&& background.wf()
    &&& mask.wf()
    &&& background.width == width
    &&& background.height == height
    &&& mask.width == width
    &&& mask.height == height
    &&& ids@.wf()
    &&& ids@.width == width
    &&& ids@.height == height
}

/// What the three buffers of a pass hold.
pub open spec fn pass_model(background: Canvas, mask: Canvas, ids: PixelIDMap) -> PassModel {
    PassModel { background: background.data@, mask: mask.data@, owners: ids@.cells }
}

/// Draws one step of a plan with its asset, or tells why the step fails.
pub fn draw_step(
    background: &mut Canvas,
    mask: &mut Canvas,
    ids: &mut PixelIDMap,
    step: RenderStep,
    asset: &Asset,
    index: usize,
    width: u32,
    height: u32,
) -> (res: Result<(), RenderError>)
    requires
        1 <= width <= MAX_SIDE,
        1 <= height <= MAX_SIDE,
        is_pass(*old(background), *old(mask), *old(ids), width, height),
    ensures
        match apply_step(
            pass_model(*old(background), *old(mask), *old(ids)),
            step,
            *asset,
            index,
            width,
            height,
        ) {
            Ok(next) => res is Ok && pass_model(*final(background), *final(mask), *final(ids))
                == next,
            Err(e) => res == Err::<(), RenderError>(e),
        },
        is_pass(*final(background), *final(mask), *final(ids), width, height),
{
    proof {
        lemma_pixel_count(width, height);
    }
    match step {
        RenderStep::Element { item, dimensions, blend } => match asset {
            Asset::Image(image) => {
                match align_image(image, dimensions, width, height) {
                    Some(aligned) => {
                        blend_image(background, mask, ids, &aligned, blend);
                        Ok(())
                    },
                    None => Err(RenderError::PixmapConversionFailure { step: index }),
                }
            },
            Asset::Screen(_) => Err(RenderError::MissingAsset { step: index }),
        },
        RenderStep::Screen { item, dimensions } => match asset {
            Asset::Screen(svg) => {
                if !screen_fits(svg, width, height) {
                    return Err(RenderError::PixmapConversionFailure { step: index });
                }
                draw_pixmap(mask, 0, 0, &svg.pixmap);
                merge_ids(ids, &svg.pixel_pos_to_id);
                Ok(())
            },
            Asset::Image(_) => Err(RenderError::MissingAsset { step: index }),
        },
    }
}

/// Renders the steps of a plan, each with its asset, onto a canvas of the given size.
pub fn render(
    steps: &Vec<RenderStep>,
    assets: &Vec<Asset>,
    canvas_width: u32,
    canvas_height: u32,
) -> (res: Result<RenderedData, RenderError>)
    requires
        1 <= canvas_width <= MAX_SIDE,
        1 <= canvas_height <= MAX_SIDE,
    ensures
        match res {
            Ok(data) => state_after(
                steps@,
                assets@,
                canvas_width,
                canvas_height,
                steps@.len() as int,
            ) matches Ok(state) && is_rendering(data, state, canvas_width, canvas_height),
            Err(e) => state_after(steps@, assets@, canvas_width, canvas_height, steps@.len() as int)
                == Err::<PassModel, RenderError>(e),
        },
{
    proof {
        lemma_pixel_count(canvas_width, canvas_height);
    }
    let mut background: Canvas = Canvas::new(canvas_width, canvas_height).unwrap();
    let mut mask: Canvas = Canvas::new(canvas_width, canvas_height).unwrap();
    let mut ids: PixelIDMap = PixelIDMap::new(
        canvas_width as usize,
        canvas_height as usize,
    ).unwrap();
    assert(background.data@ =~= blank_bytes(canvas_width, canvas_height));
    assert(mask.data@ =~= blank_bytes(canvas_width, canvas_height));
    let mut n: usize = 0;
    while n < steps.len()
        invariant
            n <= steps@.len(),
            1 <= canvas_width <= MAX_SIDE,
            1 <= canvas_height <= MAX_SIDE,
            is_pass(background, mask, ids, canvas_width, canvas_height),
            state_after(steps@, assets@, canvas_width, canvas_height, n as int) == Ok::<
                PassModel,
                RenderError,
            >(pass_model(background, mask, ids)),
        decreases steps@.len() - n,
    {
        let outcome: Result<(), RenderError> = if n < assets.len() {
            draw_step(
                &mut background,
                &mut mask,
                &mut ids,
                steps[n],
                &assets[n],
                n,
                canvas_width,
                canvas_height,
            )
        } else {
            Err(RenderError::MissingAsset { step: n })
        };
        match outcome {
            Ok(_) => {},
            Err(e) => {
                proof {
                    lemma_failure_stays(
                        steps@,
                        assets@,
                        canvas_width,
                        canvas_height,
                        n + 1,
                        steps@.len() as int,
                    );
                }
                return Err(e);
            },
        }
        n += 1;
    }
    let mut output_mask: Canvas = Canvas {
        width: canvas_width,
        height: canvas_height,
        data: background.data.clone(),
    };
    draw_pixmap(&mut output_mask, 0, 0, &mask);
    Ok(
        RenderedData {
            background_bytes: background,
            mask_bytes: output_mask,
            pixels_to_mask_id: ids,
        },
    )
}

/// Tells whether the artwork of a screen is of the canvas's size.
pub fn screen_fits(svg: &RenderedSVG, width: u32, height: u32) -> (res: bool)
    requires
        1 <= width <= MAX_SIDE,
        1 <= height <= MAX_SIDE,
    ensures
        res == fits_canvas(*svg, width, height),
{
    proof {
        lemma_pixel_count(width, height);
    }
    let count: usize = (width * height) as usize;
    let pixmap: &Canvas = &svg.pixmap;
    if pixmap.width != width || pixmap.height != height {
        return false;
    }
    pixmap.data.len() == 4 * count && svg.pixel_pos_to_id.len() == count
}

/// Scales the image of an element to the size it is to have and lays it on a canvas of its
/// own at the corner it is to have. There is none where the image is no pixel buffer, or the
/// size it is to have is not that of one.
pub fn align_image(image: &Canvas, dimensions: ImageDimensions, width: u32, height: u32) -> (res:
    Option<Canvas>)
    requires
        1 <= width <= MAX_SIDE,
        1 <= height <= MAX_SIDE,
    ensures
        (image.wf() && 1 <= dimensions.width <= MAX_SIDE && 1 <= dimensions.height <= MAX_SIDE)
            ==> res is Some,
        !(image.wf() && 1 <= dimensions.width <= MAX_SIDE && 1 <= dimensions.height <= MAX_SIDE)
            ==> res is None,
        res matches Some(aligned) ==> aligned.wf() && aligned.width == width && aligned.height
            == height && aligned.data@ == aligned_bytes(
            width,
            height,
            dimensions,
            resized_bytes(
                image.data@,
                image.width,
                image.height,
                dimensions.width,
                dimensions.height,
            ),
        ),
{
    if !is_pixel_buffer(image) {
        return None;
    }
    if dimensions.width < 1 || dimensions.width > MAX_SIDE || dimensions.height < 1
        || dimensions.height > MAX_SIDE {
        return None;
    }
    let resized: Canvas = resize_exact(image, dimensions.width, dimensions.height);
    Some(lay_image(&resized, dimensions, width, height))
}

/// Lays an image that has the size it is to have on a canvas of its own, at the corner it
/// is to have.
pub fn lay_image(image: &Canvas, dimensions: ImageDimensions, width: u32, height: u32) -> (res:
    Canvas)
    requires
        1 <= width <= MAX_SIDE,
        1 <= height <= MAX_SIDE,
        image.wf(),
        image.width == dimensions.width,
        image.height == dimensions.height,
    ensures
        res.wf(),
        res.width == width,
        res.height == height,
        res.data@ == aligned_bytes(width, height, dimensions, image.data@),
{
    let mut aligned: Canvas = Canvas::new(width, height).unwrap();
    assert(aligned.data@ =~= blank_bytes(width, height));
    if dimensions.x <= i32::MAX - (dimensions.width as i32) && dimensions.y <= i32::MAX - (
    dimensions.height as i32) {
        draw_pixmap(&mut aligned, dimensions.x, dimensions.y, image);
    }
    aligned
}

/// What the name of a screen's artwork has between the platform's name and its ending: for
/// a device with one screen nothing; for two screens the side of the screen, the first
/// being the top or the left one.
pub open spec fn screen_suffix(index: usize, screen: Screen) -> Seq<char> {
    match screen {
        Screen::Single { .. } => ""@,
        Screen::DualVertical { .. } => if index == 0 {
            "_top"@
        } else {
            "_bottom"@
        },
        Screen::DualHorizontal { .. } => if index == 0 {
            "_left"@
        } else {
            "_right"@
        },
    }
}

/// The name of the file that holds the artwork of a screen.
pub fn screen_filename(index: usize, platform_name: &str, platform: &PresetDefinition) -> (res:
    String)
    ensures
        res@ == platform_name@ + screen_suffix(index, platform.screen) + ".svg"@,
{
    let suffix: &str = match platform.screen {
        Screen::Single { .. } => "",
        Screen::DualVertical { .. } => if index == 0 {
            "_top"
        } else {
            "_bottom"
        },
        Screen::DualHorizontal { .. } => if index == 0 {
            "_left"
        } else {
            "_right"
        },
    };
    let mut name: String = String::from_str(platform_name);
    name.append(suffix);
    name.append(".svg");
    name
}

} // verus!
