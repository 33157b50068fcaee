use ra_metal_capture::config::{Size, WindowMode};
use ra_metal_capture::display::{fallback, fill_mode, for_retroarch_window, TITLE_BAR_POINTS};

#[test]
fn fill_mode_subtracts_title_bar() {
    assert_eq!(
        fill_mode(Size {
            width: 2488,
            height: 1410
        }),
        WindowMode::Fill {
            max: Size {
                width: 2488,
                height: 1382
            }
        }
    );
    assert_eq!(TITLE_BAR_POINTS, 28);
}

#[test]
fn for_retroarch_window_trims_only_fill() {
    let visible = Size {
        width: 2488,
        height: 1410,
    };
    assert_eq!(
        for_retroarch_window(WindowMode::Fill { max: visible }),
        fill_mode(visible)
    );
    assert_eq!(
        for_retroarch_window(WindowMode::Scale(3)),
        WindowMode::Scale(3)
    );
}

#[test]
fn fill_mode_saturates_on_tiny_heights() {
    assert_eq!(
        fill_mode(Size {
            width: 100,
            height: 10
        }),
        WindowMode::Fill {
            max: Size {
                width: 100,
                height: 0
            }
        }
    );
}

#[test]
fn fallback_screen_is_1080p_at_1x() {
    assert_eq!(
        fallback(),
        Size {
            width: 1920,
            height: 1080
        }
    );
}
