use window_capture::handle::WindowId;
use window_capture::surface::create_bitmap;
use window_capture::surface::surface_bytes;
use window_capture::surface::ContextId;
use window_capture::surface::DeviceContext;
use window_capture::surface::Mapping;
use window_capture::surface::ObjectId;
use window_capture::surface::SurfaceLayout;
use window_capture::surface::Teardown;
use window_capture::surface::BITFIELDS;
use window_capture::surface::BITS_PER_PIXEL;
use window_capture::surface::BLUE_MASK;
use window_capture::surface::BYTES_PER_PIXEL;
use window_capture::surface::GREEN_MASK;
use window_capture::surface::PLANES;
use window_capture::surface::RED_MASK;
use window_capture::surface::SOURCE_COPY;

#[test]
fn null_and_all_ones_are_no_context() {
    assert!(ContextId { raw: 0 }.is_invalid());
    assert!(ContextId { raw: -1 }.is_invalid());
    assert!(!ContextId { raw: 1 }.is_invalid());
    assert!(!ContextId { raw: -2 }.is_invalid());
}

#[test]
fn null_and_all_ones_are_no_object() {
    assert!(ObjectId { raw: 0 }.is_invalid());
    assert!(ObjectId { raw: -1 }.is_invalid());
    assert!(!ObjectId { raw: 0x1234 }.is_invalid());
    assert!(!ObjectId { raw: isize::MIN }.is_invalid());
}

#[test]
fn constants_have_the_host_values() {
    assert_eq!(PLANES, 1);
    assert_eq!(BITS_PER_PIXEL, 32);
    assert_eq!(BYTES_PER_PIXEL, 4);
    assert_eq!(BITFIELDS, 3);
    assert_eq!(RED_MASK, 0x00FF0000);
    assert_eq!(GREEN_MASK, 0x0000FF00);
    assert_eq!(BLUE_MASK, 0x000000FF);
    assert_eq!(SOURCE_COPY, 13369376);
}

#[test]
fn borrowed_context_goes_back_to_its_window() {
    let context = DeviceContext::borrowed(ContextId { raw: 7 }, WindowId { raw: 20 });
    assert_eq!(context.inner, ContextId { raw: 7 });
    assert_eq!(context.handle, Some(WindowId { raw: 20 }));
    assert_eq!(
        context.release(),
        Teardown::ReleaseContext { window: WindowId { raw: 20 }, context: ContextId { raw: 7 } }
    );
}

#[test]
fn owned_context_is_deleted() {
    let context = DeviceContext::owned(ContextId { raw: 9 });
    assert_eq!(context.handle, None);
    assert_eq!(context.release(), Teardown::DeleteContext(ContextId { raw: 9 }));
}

#[test]
fn surface_takes_four_bytes_a_pixel() {
    assert_eq!(surface_bytes(800, 600), 1_920_000);
    assert_eq!(surface_bytes(400, 300), 480_000);
    assert_eq!(surface_bytes(1, 1), 4);
    assert_eq!(surface_bytes(1920, 1080), 8_294_400);
}

#[test]
fn surface_bytes_of_the_largest_area_fit() {
    assert_eq!(surface_bytes(i32::MAX, i32::MAX), 18_446_744_056_529_682_436);
    assert_eq!(surface_bytes(i32::MAX, 1), 8_589_934_588);
}

#[test]
fn layout_is_top_down_bgra() {
    let layout = SurfaceLayout::new(800, 600);
    assert_eq!(
        layout,
        SurfaceLayout {
            width: 800,
            height: -600,
            planes: 1,
            bit_count: 32,
            compression: 3,
            red_mask: 0x00FF0000,
            green_mask: 0x0000FF00,
            blue_mask: 0x000000FF,
        }
    );
    assert_eq!(SurfaceLayout::new(1, i32::MAX).height, -i32::MAX);
}

#[test]
fn created_bitmap_owns_object_context_and_bytes() {
    let mapping = Mapping { object: ObjectId { raw: 55 }, buffer: 0x7000 };
    let bitmap = create_bitmap(ContextId { raw: 9 }, 800, 600, mapping);
    assert_eq!(bitmap.inner, ObjectId { raw: 55 });
    assert_eq!(bitmap.device_context.inner, ContextId { raw: 9 });
    assert_eq!(bitmap.device_context.handle, None);
    assert_eq!(bitmap.width, 800);
    assert_eq!(bitmap.height, 600);
    assert_eq!(bitmap.size, 1_920_000);
    assert_eq!(bitmap.buffer, 0x7000);
    assert!(bitmap.has_size(800, 600));
    assert!(!bitmap.has_size(600, 800));
    assert!(!bitmap.has_size(800, 601));
}

#[test]
fn discarded_bitmap_gives_back_object_then_context() {
    let mapping = Mapping { object: ObjectId { raw: 55 }, buffer: 0x7000 };
    let bitmap = create_bitmap(ContextId { raw: 9 }, 4, 2, mapping);
    let (first, second) = bitmap.discard();
    assert_eq!(first, Teardown::DeleteObject(ObjectId { raw: 55 }));
    assert_eq!(second, Teardown::DeleteContext(ContextId { raw: 9 }));
}
