//! Compositing: blending the image of an element onto background and mask, and keeping
//! track of the segment that owns each pixel.

use crate::blend::{alpha_blend_colors, multiply_blend_colors, Rgba};
use crate::canvas::{bytes_of, lemma_bytes_of, pixel_of, transparent, Canvas};
use crate::layout::BlendType;
use crate::mask::PixelIDMap;
use vstd::prelude::*;

verus! {

/// The foreground blended onto the background: multiplied where the blend is `Multiply`,
/// laid over it for every other blend and for none.
pub open spec fn blend_of(blend: Option<BlendType>, background: Rgba, foreground: Rgba) -> Rgba {
    if blend == Some(BlendType::Multiply) {
        Rgba::product(background, foreground)
    } else {
        Rgba::over(background, foreground)
    }
}

/// A pixel of the background after a pixel of an element was blended onto it. A transparent
/// pixel of the element changes nothing. Where the element is multiplied onto a pixel that
/// nothing was drawn on yet, that pixel counts as white.
pub open spec fn background_after(
    blend: Option<BlendType>,
    background: Rgba,
    foreground: Rgba,
) -> Rgba {
    if foreground.alpha == 0 {
        background
    } else if blend == Some(BlendType::Multiply) && background.alpha == 0 {
        blend_of(blend, Rgba::white(), foreground)
    } else {
        blend_of(blend, background, foreground)
    }
}

/// A pixel of the mask after a pixel of an element was blended onto it: changed only where
/// a segment owns the pixel and the element's pixel is not transparent.
pub open spec fn mask_after(
    blend: Option<BlendType>,
    mask: Rgba,
    foreground: Rgba,
    owner: Option<u16>,
) -> Rgba {
    if foreground.alpha == 0 || owner is None {
        mask
    } else {
        blend_of(blend, mask, foreground)
    }
}

/// The bytes of the background after an element was blended onto it.
pub open spec fn background_with(
    blend: Option<BlendType>,
    background: Seq<u8>,
    image: Seq<u8>,
) -> Seq<u8> {
    bytes_of(
        background.len() as int / 4,
        |i: int| background_after(blend, pixel_of(background, i), pixel_of(image, i)),
    )
}

/// The bytes of the mask after an element was blended onto it.
pub open spec fn mask_with(
    blend: Option<BlendType>,
    mask: Seq<u8>,
    image: Seq<u8>,
    owners: Seq<Option<u16>>,
) -> Seq<u8> {
    bytes_of(
        mask.len() as int / 4,
        |i: int| mask_after(blend, pixel_of(mask, i), pixel_of(image, i), owners[i]),
    )
}

/// Blends one colour onto another.
pub fn blend_colors(blend: Option<BlendType>, background: Rgba, foreground: Rgba) -> (res: Rgba)
    ensures
        res == blend_of(blend, background, foreground),
{
    match blend {
        Some(BlendType::Multiply) => multiply_blend_colors(background, foreground),
        _ => alpha_blend_colors(background, foreground),
    }
}

/// Blends an image of the canvas's size onto the background, pixel by pixel, and onto the
/// mask where a segment owns the pixel.
pub fn blend_image(
    background: &mut Canvas,
    mask: &mut Canvas,
    ids: &PixelIDMap,
    image: &Canvas,
    blend: Option<BlendType>,
)
    requires
        old(background).wf(),
        old(mask).wf(),
        image.wf(),
        old(background).same_size(image),
        old(mask).same_size(image),
        ids@.cells.len() == image.count(),
    ensures
        final(background).wf(),
        final(mask).wf(),
        final(background).same_size(old(background)),
        final(mask).same_size(old(mask)),
        final(background).data@ == background_with(blend, old(background).data@, image.data@),
        final(mask).data@ == mask_with(blend, old(mask).data@, image.data@, ids@.cells),
{
    let count: usize = image.pixel_count();
    let ghost before = background.data@;
    let ghost mask_before = mask.data@;
    let multiply: bool = match blend {
        Some(BlendType::Multiply) => true,
        _ => false,
    };
    let mut i: usize = 0;
    while i < count
        invariant
            i <= count,
            count == image.count(),
            image.wf(),
            background.wf(),
            mask.wf(),
            background.same_size(image),
            mask.same_size(image),
            ids@.cells.len() == count,
            before.len() == 4 * count,
            mask_before.len() == 4 * count,
            multiply == (blend == Some(BlendType::Multiply)),
            forall|j: int|
                0 <= j < count ==> #[trigger] background.pixel(j) == if j < i {
                    background_after(blend, pixel_of(before, j), image.pixel(j))
                } else {
                    pixel_of(before, j)
                },
            forall|j: int|
                0 <= j < count ==> #[trigger] mask.pixel(j) == if j < i {
                    mask_after(blend, pixel_of(mask_before, j), image.pixel(j), ids@.cells[j])
                } else {
                    pixel_of(mask_before, j)
                },
        decreases count - i,
    {
        let pixel: Rgba = image.get_pixel(i);
        if pixel.alpha != 0 {
            let under: Rgba = background.get_pixel(i);
            assert(under == pixel_of(before, i as int));
            let background_pixel: Rgba = if multiply && under.alpha == 0 {
                Rgba { red: 255, green: 255, blue: 255, alpha: 255 }
            } else {
                under
            };
            if ids.get(i).is_some() {
                let mask_pixel: Rgba = mask.get_pixel(i);
                assert(mask_pixel == pixel_of(mask_before, i as int));
                mask.put_pixel(i, blend_colors(blend, mask_pixel, pixel));
            }
            background.put_pixel(i, blend_colors(blend, background_pixel, pixel));
        } else {
            assert(background.pixel(i as int) == pixel_of(before, i as int));
            assert(mask.pixel(i as int) == pixel_of(mask_before, i as int));
        }
        i += 1;
    }
    proof {
        let after = |i: int| background_after(blend, pixel_of(before, i), pixel_of(image.data@, i));
        assert forall|i: int| 0 <= i < count implies #[trigger] pixel_of(background.data@, i)
            == after(i) by {
            assert(background.pixel(i) == after(i));
        }
        lemma_bytes_of(background.data@, count as int, after);
        assert(background.data@ =~= background_with(blend, before, image.data@));
        let mask_after_all = |i: int|
            mask_after(blend, pixel_of(mask_before, i), pixel_of(image.data@, i), ids@.cells[i]);
        assert forall|i: int| 0 <= i < count implies #[trigger] pixel_of(mask.data@, i)
            == mask_after_all(i) by {
            assert(mask.pixel(i) == mask_after_all(i));
        }
        lemma_bytes_of(mask.data@, count as int, mask_after_all);
        assert(mask.data@ =~= mask_with(blend, mask_before, image.data@, ids@.cells));
    }
}

/// The owners of the pixels after a screen was drawn: each pixel that the screen gives an
/// owner has that owner, and every other pixel keeps the one it had.
pub open spec fn owners_with(owners: Seq<Option<u16>>, screen: Seq<Option<u16>>) -> Seq<
    Option<u16>,
> {
    Seq::new(
        owners.len(),
        |i: int|
            if screen[i] is Some {
                screen[i]
            } else {
                owners[i]
            },
    )
}

/// Enters the owners that a screen gives its pixels into the map of the whole canvas. Where
/// both have an owner for a pixel, the screen's counts.
pub fn merge_ids(ids: &mut PixelIDMap, screen_ids: &PixelIDMap)
    requires
        old(ids)@.cells.len() == screen_ids@.cells.len(),
    ensures
        final(ids)@.width == old(ids)@.width,
        final(ids)@.height == old(ids)@.height,
        final(ids)@.cells == owners_with(old(ids)@.cells, screen_ids@.cells),
{
    let count: usize = ids.len();
    let ghost before = ids@.cells;
    let mut i: usize = 0;
    while i < count
        invariant
            i <= count,
            count == before.len(),
            count == screen_ids@.cells.len(),
            ids@.cells.len() == count,
            ids@.width == old(ids)@.width,
            ids@.height == old(ids)@.height,
            forall|j: int|
                0 <= j < count ==> #[trigger] ids@.cells[j] == if j < i && screen_ids@.cells[j]
                    is Some {
                    screen_ids@.cells[j]
                } else {
                    before[j]
                },
        decreases count - i,
    {
        let owner: Option<u16> = screen_ids.get(i);
        if owner.is_some() {
            ids.set(i, owner);
        }
        i += 1;
    }
    assert(ids@.cells =~= owners_with(before, screen_ids@.cells));
}

/// The owners of the pixels after one shape was drawn alone: the shape owns each pixel that
/// it left a trace on.
pub open spec fn owners_marked(owners: Seq<Option<u16>>, shape: Seq<u8>, id: u16) -> Seq<
    Option<u16>,
> {
    Seq::new(
        owners.len(),
        |i: int|
            if pixel_of(shape, i).alpha != 0 {
                Some(id)
            } else {
                owners[i]
            },
    )
}

/// The bytes of a buffer with every pixel that is not transparent made so.
pub open spec fn wiped(shape: Seq<u8>) -> Seq<u8> {
    bytes_of(
        shape.len() as int / 4,
        |i: int|
            if pixel_of(shape, i).alpha != 0 {
                transparent()
            } else {
                pixel_of(shape, i)
            },
    )
}

/// Gives the shape that was drawn alone onto `canvas` every pixel that it left a trace on,
/// and wipes those pixels for the next shape.
pub fn record_ids(ids: &mut PixelIDMap, canvas: &mut Canvas, id: u16)
    requires
        old(canvas).wf(),
        old(ids)@.cells.len() == old(canvas).count(),
    ensures
        final(canvas).wf(),
        final(canvas).same_size(old(canvas)),
        final(ids)@.width == old(ids)@.width,
        final(ids)@.height == old(ids)@.height,
        final(ids)@.cells == owners_marked(old(ids)@.cells, old(canvas).data@, id),
        final(canvas).data@ == wiped(old(canvas).data@),
{
    let count: usize = canvas.pixel_count();
    let ghost before = ids@.cells;
    let ghost shape = canvas.data@;
    let mut i: usize = 0;
    while i < count
        invariant
            i <= count,
            canvas.wf(),
            canvas.same_size(old(canvas)),
            count == canvas.count(),
            count == before.len(),
            shape.len() == 4 * count,
            ids@.cells.len() == count,
            ids@.width == old(ids)@.width,
            ids@.height == old(ids)@.height,
            forall|j: int|
                0 <= j < count ==> #[trigger] ids@.cells[j] == if j < i && pixel_of(shape, j).alpha
                    != 0 {
                    Some(id)
                } else {
                    before[j]
                },
            forall|j: int|
                0 <= j < count ==> #[trigger] canvas.pixel(j) == if j < i && pixel_of(
                    shape,
                    j,
                ).alpha != 0 {
                    transparent()
                } else {
                    pixel_of(shape, j)
                },
        decreases count - i,
    {
        let pixel: Rgba = canvas.get_pixel(i);
        assert(pixel == pixel_of(shape, i as int));
        if pixel.alpha != 0 {
            ids.set(i, Some(id));
            canvas.put_pixel(i, Rgba { red: 0, green: 0, blue: 0, alpha: 0 });
        }
        i += 1;
    }
    proof {
        assert(ids@.cells =~= owners_marked(before, shape, id));
        let after = |i: int|
            if pixel_of(shape, i).alpha != 0 {
                transparent()
            } else {
                pixel_of(shape, i)
            };
        assert forall|i: int| 0 <= i < count implies #[trigger] pixel_of(canvas.data@, i) == after(
            i,
        ) by {
            assert(canvas.pixel(i) == after(i));
        }
        lemma_bytes_of(canvas.data@, count as int, after);
        assert(canvas.data@ =~= wiped(shape));
    }
}

} // verus!
