use support::blend::Rgba;
use support::canvas::{load_image, Canvas, ImageError};
use support::layout::{
    BlendType, Bounds, CompleteBounds, Element, Image, NameElement, NameElementChildren, Rect,
    Screen, ViewElement,
};
use support::manifest::{CPUType, PresetDefinition, Size};
use support::mask::PixelIDMap;
use support::compose::{blend_image, merge_ids, record_ids};
use support::fit::{CanonicalLayout, Scale};
use support::render::{
    align_image, defines_image, plan_render, render, screen_filename, Asset, ImageDimensions,
    RenderError, RenderStep, RenderedSVG,
};
use support::resolve::Extents;

fn at(x: i32, y: i32, width: i32, height: i32) -> CompleteBounds {
    CompleteBounds {
        x: Some(x),
        y: Some(y),
        width: Some(width),
        height: Some(height),
        xc: None,
        yc: None,
        left: None,
        right: None,
        top: None,
        bottom: None,
    }
}

fn placed(name: &str, bounds: CompleteBounds, blend: Option<BlendType>) -> Element {
    Element { ref_name: name.to_string(), bounds, blend }
}

fn image_def(name: &str) -> NameElement {
    NameElement { name: name.to_string(), items: vec![NameElementChildren::Image(Image {})] }
}

fn filled(width: u32, height: u32, colour: [u8; 4]) -> Canvas {
    let mut data = Vec::new();
    for _ in 0..width * height {
        data.extend_from_slice(&colour);
    }
    Canvas::from_bytes(width, height, data).unwrap()
}

fn pixel(canvas: &Canvas, x: u32, y: u32) -> [u8; 4] {
    let i = 4 * (y * canvas.width + x) as usize;
    [canvas.data[i], canvas.data[i + 1], canvas.data[i + 2], canvas.data[i + 3]]
}

#[test]
fn letterbox_scaling_limited_by_width() {
    let view = Bounds { x: 0, y: 0, width: 200, height: 100 };
    let layout = CanonicalLayout::fit(&view, 720, 720).unwrap();
    assert_eq!(layout.scale_ratio, Scale { num: 720, den: 200 });
    assert_eq!(layout.scale_ratio.num as f64 / layout.scale_ratio.den as f64, 3.6);
    assert_eq!(layout.x_offset, 0);
    assert_eq!(layout.y_offset, 180);
    assert_eq!(layout.view_bounds, view);
}

#[test]
fn letterbox_scaling_limited_by_height() {
    let view = Bounds { x: 0, y: 0, width: 100, height: 200 };
    let layout = CanonicalLayout::fit(&view, 720, 720).unwrap();
    assert_eq!(layout.scale_ratio, Scale { num: 720, den: 200 });
    assert_eq!(layout.x_offset, 180);
    assert_eq!(layout.y_offset, 0);
}

#[test]
fn square_view_fills_the_canvas() {
    let view = Bounds { x: 0, y: 0, width: 90, height: 90 };
    let layout = CanonicalLayout::fit(&view, 720, 720).unwrap();
    assert_eq!(layout.scale_ratio, Scale { num: 720, den: 90 });
    assert_eq!((layout.x_offset, layout.y_offset), (0, 0));
}

#[test]
fn centring_offset_is_rounded_then_halved() {
    let view = Bounds { x: 0, y: 0, width: 7, height: 3 };
    let layout = CanonicalLayout::fit(&view, 10, 10).unwrap();
    assert_eq!(layout.scale_ratio, Scale { num: 10, den: 7 });
    assert_eq!((layout.x_offset, layout.y_offset), (0, 3));
    let tall = Bounds { x: 0, y: 0, width: 1, height: 4 };
    let narrow = CanonicalLayout::fit(&tall, 10, 10).unwrap();
    assert_eq!((narrow.x_offset, narrow.y_offset), (3, 0));
}

#[test]
fn view_without_size_cannot_be_fitted() {
    assert_eq!(CanonicalLayout::fit(&Bounds { x: 0, y: 0, width: 0, height: 10 }, 720, 720), None);
    assert_eq!(CanonicalLayout::fit(&Bounds { x: 0, y: 0, width: 10, height: 0 }, 720, 720), None);
    assert_eq!(CanonicalLayout::fit(&Bounds { x: 0, y: 0, width: -1, height: 5 }, 720, 720), None);
}

#[test]
fn placement_scales_corner_and_size() {
    let view = Bounds { x: 0, y: 0, width: 200, height: 100 };
    let scale = Scale { num: 720, den: 200 };
    let bounds = Bounds { x: 10, y: 20, width: 50, height: 25 };
    assert_eq!(
        ImageDimensions::new(&view, &bounds, &scale, 0, 180),
        ImageDimensions { x: 36, y: 252, width: 180, height: 90 }
    );
}

#[test]
fn placement_rounds_corners_away_from_zero_and_cuts_sizes() {
    let view = Bounds { x: 0, y: 0, width: 2, height: 2 };
    let half = Scale { num: 1, den: 2 };
    assert_eq!(
        ImageDimensions::new(&view, &Bounds { x: 1, y: -1, width: 3, height: 1 }, &half, 0, 0),
        ImageDimensions { x: 1, y: -1, width: 1, height: 0 }
    );
    let scale = Scale { num: 720, den: 200 };
    assert_eq!(
        ImageDimensions::new(&view, &Bounds { x: 1, y: -1, width: 1, height: -4 }, &scale, 5, 5),
        ImageDimensions { x: 9, y: 1, width: 3, height: 0 }
    );
    let shifted = Bounds { x: 10, y: 20, width: 2, height: 2 };
    assert_eq!(
        ImageDimensions::new(&shifted, &Bounds { x: 12, y: 18, width: 4, height: 4 }, &half, 0, 0),
        ImageDimensions { x: 1, y: -1, width: 2, height: 2 }
    );
}

#[test]
fn placement_stays_within_machine_numbers() {
    let view = Bounds { x: i64::MIN, y: 0, width: 1, height: 1 };
    let scale = Scale { num: u32::MAX, den: 1 };
    let bounds = Bounds { x: i64::MAX, y: i64::MIN, width: i64::MAX, height: 1 };
    assert_eq!(
        ImageDimensions::new(&view, &bounds, &scale, 0, 0),
        ImageDimensions { x: i32::MAX, y: i32::MIN, width: u32::MAX, height: u32::MAX }
    );
}

#[test]
fn image_definitions_are_found_by_name() {
    let defined = vec![
        NameElement { name: "a".to_string(), items: vec![NameElementChildren::Rect(Rect {})] },
        image_def("b"),
        NameElement {
            name: "c".to_string(),
            items: vec![NameElementChildren::Rect(Rect {}), NameElementChildren::Image(Image {})],
        },
        NameElement { name: "a".to_string(), items: vec![] },
    ];
    assert!(!defines_image(&defined, &"a".to_string()));
    assert!(defines_image(&defined, &"b".to_string()));
    assert!(defines_image(&defined, &"c".to_string()));
    assert!(!defines_image(&defined, &"d".to_string()));
    assert!(!defines_image(&defined, &"B".to_string()));
}

#[test]
fn plan_places_each_drawn_item() {
    let items = vec![
        ViewElement::Element(placed("back", at(100, 50, 200, 100), Some(BlendType::Alpha))),
        ViewElement::Element(placed("norect", at(100, 50, 10, 10), None)),
        ViewElement::Screen(Screen { index: 0, bounds: at(150, 75, 100, 50), blend: None }),
        ViewElement::Overlay(placed("glass", at(200, 100, 100, 50), Some(BlendType::Add))),
        ViewElement::Element(placed("back", at(0, 0, 1, 1), None)),
    ];
    let defined = vec![image_def("back"), image_def("glass")];
    let plan = plan_render(&items, &defined, 720, 720).unwrap();
    assert_eq!(
        plan.extents,
        Extents {
            common_x: 100,
            common_y: 50,
            view_bounds: Bounds { x: 0, y: 0, width: 200, height: 100 },
        }
    );
    assert_eq!(plan.layout.scale_ratio, Scale { num: 720, den: 200 });
    assert_eq!((plan.layout.x_offset, plan.layout.y_offset), (0, 180));
    assert_eq!(
        plan.steps,
        vec![
            RenderStep::Element {
                item: 0,
                dimensions: ImageDimensions { x: 0, y: 180, width: 720, height: 360 },
                blend: Some(BlendType::Alpha),
            },
            RenderStep::Screen {
                item: 2,
                dimensions: ImageDimensions { x: 180, y: 270, width: 360, height: 180 },
            },
            RenderStep::Element {
                item: 3,
                dimensions: ImageDimensions { x: 360, y: 360, width: 360, height: 180 },
                blend: Some(BlendType::Multiply),
            },
        ]
    );
}

#[test]
fn plan_uses_the_bounds_that_the_view_gives_itself() {
    let items = vec![
        ViewElement::Bounds(at(0, 0, 100, 100)),
        ViewElement::Element(placed("back", at(10, 20, 50, 50), None)),
    ];
    let plan = plan_render(&items, &vec![image_def("back")], 720, 720).unwrap();
    assert_eq!(plan.layout.view_bounds, Bounds { x: 0, y: 0, width: 100, height: 100 });
    assert_eq!(plan.layout.scale_ratio, Scale { num: 720, den: 100 });
    assert_eq!(
        plan.steps,
        vec![RenderStep::Element {
            item: 1,
            dimensions: ImageDimensions { x: 0, y: 0, width: 360, height: 360 },
            blend: None,
        }]
    );
}

#[test]
fn plan_fails_as_the_view_is_malformed() {
    let broken = CompleteBounds { x: None, ..at(0, 0, 1, 1) };
    let defined = vec![image_def("a")];
    let twice = vec![ViewElement::Bounds(at(0, 0, 1, 1)), ViewElement::Bounds(at(0, 0, 1, 1))];
    assert_eq!(plan_render(&twice, &defined, 720, 720).err(), Some(RenderError::MultipleViewBounds));
    let bad_view = vec![ViewElement::Bounds(broken.clone())];
    assert_eq!(plan_render(&bad_view, &defined, 720, 720).err(), Some(RenderError::MalformedBounds));
    let bad_item = vec![ViewElement::Element(placed("a", broken.clone(), None))];
    assert_eq!(plan_render(&bad_item, &defined, 720, 720).err(), Some(RenderError::MalformedBounds));
    let dropped = vec![
        ViewElement::Element(placed("a", at(0, 0, 5, 5), None)),
        ViewElement::Element(placed("a", broken.clone(), None)),
        ViewElement::Element(placed("dust", broken, None)),
    ];
    assert!(plan_render(&dropped, &defined, 720, 720).is_ok());
    let nothing: Vec<ViewElement> = vec![];
    assert_eq!(plan_render(&nothing, &defined, 720, 720).err(), Some(RenderError::EmptyView));
    let flat = vec![ViewElement::Element(placed("a", at(0, 0, 5, 0), None))];
    assert_eq!(plan_render(&flat, &defined, 720, 720).err(), Some(RenderError::EmptyView));
}

#[test]
fn element_is_drawn_at_its_place() {
    let red = [255u8, 0, 0, 255];
    let steps = vec![RenderStep::Element {
        item: 0,
        dimensions: ImageDimensions { x: 1, y: 2, width: 2, height: 1 },
        blend: None,
    }];
    let assets = vec![Asset::Image(filled(2, 1, red))];
    let data = render(&steps, &assets, 4, 4).unwrap();
    for y in 0..4 {
        for x in 0..4 {
            let expected = if y == 2 && (x == 1 || x == 2) { red } else { [0, 0, 0, 0] };
            assert_eq!(pixel(&data.background_bytes, x, y), expected);
            assert_eq!(pixel(&data.mask_bytes, x, y), expected);
        }
    }
    assert_eq!(data.pixels_to_mask_id.len(), 16);
    assert!((0..16).all(|i| data.pixels_to_mask_id.get(i).is_none()));
}

#[test]
fn element_is_scaled_to_its_size() {
    let green = [0u8, 200, 0, 255];
    let steps = vec![RenderStep::Element {
        item: 0,
        dimensions: ImageDimensions { x: 0, y: 0, width: 3, height: 2 },
        blend: Some(BlendType::Alpha),
    }];
    let assets = vec![Asset::Image(filled(1, 1, green))];
    let data = render(&steps, &assets, 3, 3).unwrap();
    for y in 0..3 {
        for x in 0..3 {
            let expected = if y < 2 { green } else { [0, 0, 0, 0] };
            assert_eq!(pixel(&data.background_bytes, x, y), expected);
        }
    }
}

#[test]
fn element_off_the_canvas_is_cut() {
    let blue = [0u8, 0, 255, 255];
    let steps = vec![RenderStep::Element {
        item: 0,
        dimensions: ImageDimensions { x: 1, y: 1, width: 2, height: 2 },
        blend: None,
    }];
    let assets = vec![Asset::Image(filled(2, 2, blue))];
    let data = render(&steps, &assets, 2, 2).unwrap();
    assert_eq!(pixel(&data.background_bytes, 0, 0), [0, 0, 0, 0]);
    assert_eq!(pixel(&data.background_bytes, 1, 0), [0, 0, 0, 0]);
    assert_eq!(pixel(&data.background_bytes, 0, 1), [0, 0, 0, 0]);
    assert_eq!(pixel(&data.background_bytes, 1, 1), blue);
    let far = vec![RenderStep::Element {
        item: 0,
        dimensions: ImageDimensions { x: i32::MAX, y: 0, width: 2, height: 2 },
        blend: None,
    }];
    let none = render(&far, &assets, 2, 2).unwrap();
    assert!(none.background_bytes.data.iter().all(|b| *b == 0));
    let beyond = vec![RenderStep::Element {
        item: 0,
        dimensions: ImageDimensions { x: 2, y: 0, width: 2, height: 2 },
        blend: None,
    }];
    let still_none = render(&beyond, &assets, 2, 2).unwrap();
    assert!(still_none.background_bytes.data.iter().all(|b| *b == 0));
}

#[test]
fn multiply_on_untouched_canvas_gives_the_overlay() {
    let grey = [100u8, 100, 100, 255];
    let steps = vec![RenderStep::Element {
        item: 0,
        dimensions: ImageDimensions { x: 0, y: 0, width: 1, height: 1 },
        blend: Some(BlendType::Multiply),
    }];
    let data = render(&steps, &vec![Asset::Image(filled(1, 1, grey))], 1, 1).unwrap();
    assert_eq!(pixel(&data.background_bytes, 0, 0), grey);
}

#[test]
fn later_elements_blend_onto_earlier_ones() {
    let steps = vec![
        RenderStep::Element {
            item: 0,
            dimensions: ImageDimensions { x: 0, y: 0, width: 2, height: 1 },
            blend: None,
        },
        RenderStep::Element {
            item: 1,
            dimensions: ImageDimensions { x: 1, y: 0, width: 1, height: 1 },
            blend: Some(BlendType::Multiply),
        },
    ];
    let assets = vec![
        Asset::Image(filled(2, 1, [200, 100, 50, 255])),
        Asset::Image(filled(1, 1, [128, 128, 128, 255])),
    ];
    let data = render(&steps, &assets, 2, 1).unwrap();
    assert_eq!(pixel(&data.background_bytes, 0, 0), [200, 100, 50, 255]);
    assert_eq!(pixel(&data.background_bytes, 1, 0), [100, 50, 25, 255]);
}

#[test]
fn screen_draws_mask_and_owns_pixels() {
    let lit = [0u8, 1, 2, 255];
    let mut artwork = Canvas::new(2, 2).unwrap();
    artwork.put_pixel(1, Rgba { red: lit[0], green: lit[1], blue: lit[2], alpha: lit[3] });
    let ids = PixelIDMap::from_cells(2, 2, vec![None, Some(258), None, None]).unwrap();
    let steps = vec![
        RenderStep::Element {
            item: 0,
            dimensions: ImageDimensions { x: 0, y: 0, width: 2, height: 2 },
            blend: None,
        },
        RenderStep::Screen {
            item: 1,
            dimensions: ImageDimensions { x: 0, y: 0, width: 2, height: 2 },
        },
        RenderStep::Element {
            item: 2,
            dimensions: ImageDimensions { x: 0, y: 0, width: 2, height: 1 },
            blend: Some(BlendType::Multiply),
        },
    ];
    let assets = vec![
        Asset::Image(filled(2, 2, [200, 200, 200, 255])),
        Asset::Screen(RenderedSVG { pixmap: artwork, pixel_pos_to_id: ids }),
        Asset::Image(filled(2, 1, [128, 128, 128, 255])),
    ];
    let data = render(&steps, &assets, 2, 2).unwrap();
    assert_eq!(data.pixels_to_mask_id.get(1), Some(258));
    assert_eq!(data.pixels_to_mask_id.get(0), None);
    assert_eq!(pixel(&data.background_bytes, 0, 0), [100, 100, 100, 255]);
    assert_eq!(pixel(&data.background_bytes, 1, 0), [100, 100, 100, 255]);
    assert_eq!(pixel(&data.background_bytes, 0, 1), [200, 200, 200, 255]);
    assert_eq!(pixel(&data.mask_bytes, 0, 0), [100, 100, 100, 255]);
    assert_eq!(pixel(&data.mask_bytes, 1, 0), [0, 1, 1, 255]);
    assert_eq!(pixel(&data.mask_bytes, 1, 1), [200, 200, 200, 255]);
}

#[test]
fn steps_need_assets_of_their_kind() {
    let element = RenderStep::Element {
        item: 0,
        dimensions: ImageDimensions { x: 0, y: 0, width: 1, height: 1 },
        blend: None,
    };
    let screen =
        RenderStep::Screen { item: 1, dimensions: ImageDimensions { x: 0, y: 0, width: 1, height: 1 } };
    let art = || {
        Asset::Screen(RenderedSVG {
            pixmap: filled(1, 1, [0, 0, 0, 0]),
            pixel_pos_to_id: PixelIDMap::new(1, 1).unwrap(),
        })
    };
    let img = || Asset::Image(filled(1, 1, [1, 1, 1, 255]));
    assert_eq!(
        render(&vec![element, screen], &vec![img()], 1, 1).err(),
        Some(RenderError::MissingAsset { step: 1 })
    );
    assert_eq!(
        render(&vec![element, screen], &vec![art(), art()], 1, 1).err(),
        Some(RenderError::MissingAsset { step: 0 })
    );
    assert_eq!(
        render(&vec![element, screen], &vec![img(), img()], 1, 1).err(),
        Some(RenderError::MissingAsset { step: 1 })
    );
    assert!(render(&vec![element, screen], &vec![img(), art()], 1, 1).is_ok());
    assert!(render(&vec![], &vec![img()], 1, 1).is_ok());
}

#[test]
fn images_that_are_no_pixel_buffers_fail_the_step() {
    let empty = RenderStep::Element {
        item: 0,
        dimensions: ImageDimensions { x: 0, y: 0, width: 0, height: 1 },
        blend: None,
    };
    let img = || Asset::Image(filled(1, 1, [1, 1, 1, 255]));
    assert_eq!(
        render(&vec![empty], &vec![img()], 1, 1).err(),
        Some(RenderError::PixmapConversionFailure { step: 0 })
    );
    let huge = RenderStep::Element {
        item: 0,
        dimensions: ImageDimensions { x: 0, y: 0, width: 1, height: 0x8000 },
        blend: None,
    };
    assert_eq!(
        render(&vec![huge], &vec![img()], 1, 1).err(),
        Some(RenderError::PixmapConversionFailure { step: 0 })
    );
    let fine = RenderStep::Element {
        item: 0,
        dimensions: ImageDimensions { x: 0, y: 0, width: 1, height: 1 },
        blend: None,
    };
    let short = Asset::Image(Canvas { width: 1, height: 1, data: vec![1, 2, 3] });
    assert_eq!(
        render(&vec![fine, fine], &vec![img(), short], 1, 1).err(),
        Some(RenderError::PixmapConversionFailure { step: 1 })
    );
    let screen =
        RenderStep::Screen { item: 1, dimensions: ImageDimensions { x: 0, y: 0, width: 1, height: 1 } };
    let wrong_size = Asset::Screen(RenderedSVG {
        pixmap: filled(2, 1, [0, 0, 0, 0]),
        pixel_pos_to_id: PixelIDMap::new(2, 1).unwrap(),
    });
    assert_eq!(
        render(&vec![screen], &vec![wrong_size], 1, 1).err(),
        Some(RenderError::PixmapConversionFailure { step: 0 })
    );
}

#[test]
fn aligned_image_has_the_size_of_the_canvas() {
    let image = filled(2, 2, [9, 9, 9, 255]);
    let dims = ImageDimensions { x: 1, y: 0, width: 1, height: 1 };
    let aligned = align_image(&image, dims, 3, 2).unwrap();
    assert_eq!((aligned.width, aligned.height, aligned.data.len()), (3, 2, 24));
    assert_eq!(pixel(&aligned, 1, 0), [9, 9, 9, 255]);
    assert_eq!(pixel(&aligned, 0, 0), [0, 0, 0, 0]);
    assert!(align_image(&image, ImageDimensions { x: 0, y: 0, width: 0, height: 0 }, 3, 2).is_none());
}

#[test]
fn mask_is_blended_only_where_a_segment_owns_the_pixel() {
    let mut background = filled(2, 1, [10, 20, 30, 255]);
    let mut mask = filled(2, 1, [0, 0, 0, 0]);
    let ids = PixelIDMap::from_cells(2, 1, vec![Some(5), None]).unwrap();
    let image = filled(2, 1, [50, 60, 70, 255]);
    blend_image(&mut background, &mut mask, &ids, &image, None);
    assert_eq!(background.data, vec![50, 60, 70, 255, 50, 60, 70, 255]);
    assert_eq!(mask.data, vec![50, 60, 70, 255, 0, 0, 0, 0]);
    let clear = filled(2, 1, [0, 0, 0, 0]);
    blend_image(&mut background, &mut mask, &ids, &clear, Some(BlendType::Multiply));
    assert_eq!(background.data, vec![50, 60, 70, 255, 50, 60, 70, 255]);
    assert_eq!(mask.data, vec![50, 60, 70, 255, 0, 0, 0, 0]);
}

#[test]
fn later_screens_win_where_they_own_pixels() {
    let mut ids = PixelIDMap::from_cells(3, 1, vec![Some(1), Some(2), None]).unwrap();
    let screen = PixelIDMap::from_cells(3, 1, vec![None, Some(7), Some(8)]).unwrap();
    merge_ids(&mut ids, &screen);
    assert_eq!((ids.get(0), ids.get(1), ids.get(2)), (Some(1), Some(7), Some(8)));
    assert_eq!((ids.width(), ids.height()), (3, 1));
}

#[test]
fn drawn_shape_owns_its_pixels_and_is_wiped() {
    let mut ids = PixelIDMap::from_cells(3, 1, vec![Some(1), Some(2), None]).unwrap();
    let mut canvas =
        Canvas::from_bytes(3, 1, vec![0, 0, 0, 0, 9, 9, 9, 9, 0, 0, 0, 1]).unwrap();
    record_ids(&mut ids, &mut canvas, 42);
    assert_eq!((ids.get(0), ids.get(1), ids.get(2)), (Some(1), Some(42), Some(42)));
    assert_eq!(canvas.data, vec![0; 12]);
}

#[test]
fn screen_files_are_named_by_side() {
    let single = PresetDefinition {
        cpu: CPUType::SM510,
        screen: support::manifest::Screen::Single { width: 1, height: 1 },
    };
    let size = Size { width: 1, height: 1 };
    let vertical = PresetDefinition {
        cpu: CPUType::SM510,
        screen: support::manifest::Screen::DualVertical { top: size, bottom: size },
    };
    let horizontal = PresetDefinition {
        cpu: CPUType::SM510,
        screen: support::manifest::Screen::DualHorizontal { left: size, right: size },
    };
    assert_eq!(screen_filename(0, "gnw_ball", &single), "gnw_ball.svg");
    assert_eq!(screen_filename(3, "gnw_ball", &single), "gnw_ball.svg");
    assert_eq!(screen_filename(0, "gnw_dkong", &vertical), "gnw_dkong_top.svg");
    assert_eq!(screen_filename(1, "gnw_dkong", &vertical), "gnw_dkong_bottom.svg");
    assert_eq!(screen_filename(0, "gnw_mario", &horizontal), "gnw_mario_left.svg");
    assert_eq!(screen_filename(2, "gnw_mario", &horizontal), "gnw_mario_right.svg");
}

#[test]
fn image_files_are_decoded_into_pixel_buffers() {
    let mut pixmap = resvg::tiny_skia::Pixmap::new(3, 2).unwrap();
    pixmap.fill(resvg::tiny_skia::Color::from_rgba8(10, 20, 30, 255));
    let bytes = pixmap.encode_png().unwrap();
    let image = load_image(&bytes).unwrap();
    assert_eq!((image.width, image.height), (3, 2));
    assert_eq!(image.data, pixmap.data().to_vec());
    assert_eq!(pixel(&image, 2, 1), [10, 20, 30, 255]);
    assert_eq!(load_image(b"not a png").err(), Some(ImageError::Undecodable));
    assert_eq!(load_image(&[]).err(), Some(ImageError::Undecodable));
}

#[test]
fn element_far_from_the_canvas_leaves_it_untouched() {
    let image = || Asset::Image(filled(2, 2, [7, 7, 7, 255]));
    for (x, y) in [(i32::MAX - 2, 0), (0, i32::MAX - 2), (i32::MIN, 0), (0, i32::MIN), (5000, 5000)] {
        let steps = vec![RenderStep::Element {
            item: 0,
            dimensions: ImageDimensions { x, y, width: 2, height: 2 },
            blend: None,
        }];
        let data = render(&steps, &vec![image()], 3, 3).unwrap();
        assert!(data.background_bytes.data.iter().all(|b| *b == 0));
        assert!(data.mask_bytes.data.iter().all(|b| *b == 0));
    }
}

#[test]
fn full_canvas_is_rendered() {
    let steps = vec![RenderStep::Element {
        item: 0,
        dimensions: ImageDimensions { x: 0, y: 180, width: 720, height: 360 },
        blend: None,
    }];
    let assets = vec![Asset::Image(filled(4, 2, [10, 20, 30, 255]))];
    let data = render(&steps, &assets, 720, 720).unwrap();
    assert_eq!(data.background_bytes.data.len(), 4 * 720 * 720);
    assert_eq!(pixel(&data.background_bytes, 0, 179), [0, 0, 0, 0]);
    assert_eq!(pixel(&data.background_bytes, 0, 180), [10, 20, 30, 255]);
    assert_eq!(pixel(&data.background_bytes, 719, 539), [10, 20, 30, 255]);
    assert_eq!(pixel(&data.background_bytes, 719, 540), [0, 0, 0, 0]);
    assert_eq!(data.pixels_to_mask_id.len(), 720 * 720);
}
