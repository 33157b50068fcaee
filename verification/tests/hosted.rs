use ra_metal_capture::config::Size;
use ra_metal_capture::hosted::libretro::pixels::{to_frame, PixelFormat};
use ra_metal_capture::hosted::render::{
    check_texture_size, fit, image_kind, output_pixel_format, Decoder, FrameFormat, HdrMode, ImageKind,
    ImageSource, OutputFormat,
};
use ra_metal_capture::hosted::state::{decode, take_chunk, unwrap_rastate, StateError};
use ra_metal_capture::hosted::{
    needs_capture_env, request_checked, validate_image, warmup_frames, Hosted,
};
use ra_metal_capture::bundle::OutputPlan;
use std::io::{Cursor, Write};

/// A 160x144 PNG like the project's fixture, as the bytes of its file.
fn sample_png_bytes() -> Vec<u8> {
    let img = image::RgbaImage::from_pixel(160, 144, image::Rgba([10, 20, 30, 255]));
    let mut out = Cursor::new(Vec::new());
    image::DynamicImage::ImageRgba8(img)
        .write_to(&mut out, image::ImageFormat::Png)
        .unwrap();
    out.into_inner()
}

/// A file named `*.png` holding the sample PNG.
fn sample_png() -> (tempfile::NamedTempFile, String) {
    let mut f = tempfile::Builder::new().prefix("sample").suffix(".png").tempfile().unwrap();
    f.write_all(&sample_png_bytes()).unwrap();
    let p = f.path().to_str().unwrap().to_string();
    (f, p)
}

/// Text that is no image, as the project's `Cargo.toml` is.
const NOT_AN_IMAGE: &[u8] = b"[package]\nname = \"ra-metal-capture\"\n";

#[test]
fn validate_image_checks_extension_then_existence() {
    let err = validate_image("Cargo.toml").unwrap_err();
    assert!(err.contains("extension"), "{err}");
    let err = validate_image("/nonexistent/x.png").unwrap_err();
    assert!(err.contains("not found"), "{err}");
    let (_tmp, png) = sample_png();
    validate_image(&png).unwrap();
}

#[test]
fn hosted_image_list_is_the_image_crates_not_retroarchs() {
    assert!(validate_image("Cargo.toml").unwrap_err().contains("this backend"));
    assert!(ImageSource::accepts("x.pam"));
    assert!(!ImageSource::accepts("x.psd"));
    let (_tmp, png) = sample_png();
    validate_image(&png).unwrap();
}

#[test]
fn capture_env_reexec_decision() {
    assert!(needs_capture_env(None));
    assert!(needs_capture_env(Some("0")));
    assert!(needs_capture_env(Some("")));
    assert!(!needs_capture_env(Some("1")));
}

#[test]
fn from_raw_maps_libretros_five_and_refuses_the_rest() {
    assert_eq!(PixelFormat::from_raw(0), Some(PixelFormat::Xrgb1555));
    assert_eq!(PixelFormat::from_raw(1), Some(PixelFormat::Xrgb8888));
    assert_eq!(PixelFormat::from_raw(2), Some(PixelFormat::Rgb565));
    assert_eq!(PixelFormat::from_raw(3), Some(PixelFormat::Xrgb2101010));
    assert_eq!(PixelFormat::from_raw(4), Some(PixelFormat::Hdr10));
    assert_eq!(PixelFormat::from_raw(5), None);
    assert_eq!(PixelFormat::from_raw(2147483647), None);
}

#[test]
fn bytes_per_pixel_and_frame_format_per_format() {
    for (format, bytes, layout) in [
        (PixelFormat::Xrgb1555, 2, FrameFormat::Bgra8),
        (PixelFormat::Rgb565, 2, FrameFormat::Bgra8),
        (PixelFormat::Xrgb8888, 4, FrameFormat::Bgra8),
        (PixelFormat::Xrgb2101010, 4, FrameFormat::Bgr10a2),
        (PixelFormat::Hdr10, 4, FrameFormat::Bgr10a2),
    ] {
        assert_eq!(format.bytes_per_pixel(), bytes, "{format:?}");
        assert_eq!(format.frame_format(), layout, "{format:?}");
    }
}

#[test]
fn xrgb8888_copies_bgr_and_forces_alpha() {
    let data = [1, 2, 3, 0, 9, 9, 9, 9, 4, 5, 6, 0, 9, 9, 9, 9];
    let frame = to_frame(PixelFormat::Xrgb8888, &data, 1, 2, 8);
    assert_eq!(
        frame.size,
        Size {
            width: 1,
            height: 2
        }
    );
    assert_eq!(frame.format, FrameFormat::Bgra8);
    assert_eq!(frame.pixels, [1, 2, 3, 255, 4, 5, 6, 255]);
}

#[test]
fn rgb565_expands_channels() {
    let data = [0x00, 0xF8, 0xE0, 0x07, 0x1F, 0x00];
    assert_eq!(
        to_frame(PixelFormat::Rgb565, &data, 3, 1, 6).pixels,
        [0, 0, 255, 255, 0, 255, 0, 255, 255, 0, 0, 255]
    );
}

#[test]
fn argb1555_expands_channels() {
    let data = [0x00, 0x7C, 0xE0, 0x03, 0x1F, 0x00];
    assert_eq!(
        to_frame(PixelFormat::Xrgb1555, &data, 3, 1, 6).pixels,
        [0, 0, 255, 255, 0, 255, 0, 255, 255, 0, 0, 255]
    );
}

#[test]
fn ten_bit_formats_copy_rows_and_force_the_high_bits() {
    let data = [0x00, 0x00, 0xF0, 0x3F, 0xFF, 0x03, 0x00, 0x00, 9, 9, 9, 9];
    for format in [PixelFormat::Xrgb2101010, PixelFormat::Hdr10] {
        let frame = to_frame(format, &data, 2, 1, 12);
        assert_eq!(frame.format, FrameFormat::Bgr10a2, "{format:?}");
        assert_eq!(
            frame.pixels,
            [0x00, 0x00, 0xF0, 0xFF, 0xFF, 0x03, 0x00, 0xC0],
            "{format:?}"
        );
    }
}

#[test]
fn image_source_is_bgra8_swapped_from_rgba_and_repeats() {
    let src = ImageSource::from_image(2, 1, vec![255, 0, 0, 255, 0, 0, 255, 255]);
    assert_eq!(
        src.size(),
        Size {
            width: 2,
            height: 1
        }
    );
    assert_eq!(src.format(), FrameFormat::Bgra8);
    let a = src.next().pixels.to_vec();
    assert_eq!(a, [0, 0, 255, 255, 255, 0, 0, 255]);
    assert_eq!(src.next().pixels, a);
}

#[test]
fn image_source_open_decodes_the_fixture() {
    let src = ImageSource::open("sample.png", &sample_png_bytes()).unwrap().unwrap();
    assert_eq!(
        src.size(),
        Size {
            width: 160,
            height: 144
        }
    );
    assert!(ImageSource::open("x.png", NOT_AN_IMAGE).is_err());
}

#[test]
fn png_stays_bgra8_whatever_the_hdr_mode() {
    let src = ImageSource::open("sample.png", &sample_png_bytes()).unwrap().unwrap();
    assert_eq!(src.format(), FrameFormat::Bgra8);
    assert_eq!(&src.next().pixels[..4], &[30, 20, 10, 255]);
}

#[test]
fn radiance_content_is_left_to_the_hdr_encoder() {
    let img = image::Rgb32FImage::from_pixel(4, 4, image::Rgb([1.0, 0.5, 0.25]));
    let mut out = Cursor::new(Vec::new());
    image::DynamicImage::ImageRgb32F(img)
        .write_to(&mut out, image::ImageFormat::Hdr)
        .unwrap();
    assert!(ImageSource::open("probe.hdr", &out.into_inner()).unwrap().is_none());
}

#[test]
fn check_texture_size_rejects_zero_and_oversize() {
    assert!(check_texture_size(Size {
        width: 0,
        height: 5
    })
    .is_err());
    let err = check_texture_size(Size {
        width: 40000,
        height: 10,
    })
    .unwrap_err();
    assert!(err.contains("16384"), "{err}");
    assert!(check_texture_size(Size {
        width: 16384,
        height: 16384
    })
    .is_ok());
}

#[test]
fn fill_is_height_limited_for_a_wide_display() {
    let gb = Size {
        width: 160,
        height: 144,
    };
    assert_eq!(
        fit(
            gb,
            Size {
                width: 4976,
                height: 2764
            }
        ),
        Size {
            width: 3071,
            height: 2764
        }
    );
}

#[test]
fn fill_is_width_limited_for_a_wide_image() {
    assert_eq!(
        fit(
            Size {
                width: 400,
                height: 100
            },
            Size {
                width: 1000,
                height: 1000
            }
        ),
        Size {
            width: 1000,
            height: 250
        }
    );
}

#[test]
fn fill_falls_back_to_the_image_when_max_is_degenerate() {
    let gb = Size {
        width: 160,
        height: 144,
    };
    assert_eq!(
        fit(
            gb,
            Size {
                width: 0,
                height: 1000
            }
        ),
        gb
    );
    let empty = Size {
        width: 0,
        height: 144,
    };
    assert_eq!(
        fit(
            empty,
            Size {
                width: 100,
                height: 100
            }
        ),
        empty
    );
}

fn rastate(blocks: &[(&[u8; 4], &[u8])]) -> Vec<u8> {
    let mut out = b"RASTATE\x01".to_vec();
    for (tag, payload) in blocks {
        out.extend_from_slice(*tag);
        out.extend_from_slice(&(payload.len() as u32).to_le_bytes());
        out.extend_from_slice(payload);
        out.resize(out.len() + ((8 - payload.len() % 8) % 8), 0);
    }
    out.extend_from_slice(b"END \0\0\0\0");
    out
}

fn rzip(plain: &[u8], chunk: usize) -> Vec<u8> {
    let mut out = b"#RZIPv\x01#".to_vec();
    out.extend_from_slice(&(chunk as u32).to_le_bytes());
    out.extend_from_slice(&(plain.len() as u64).to_le_bytes());
    for piece in plain.chunks(chunk) {
        let mut enc = flate2::write::ZlibEncoder::new(Vec::new(), flate2::Compression::fast());
        enc.write_all(piece).unwrap();
        let z = enc.finish().unwrap();
        out.extend_from_slice(&(z.len() as u32).to_le_bytes());
        out.extend_from_slice(&z);
    }
    out
}

#[test]
fn decode_passes_raw_core_data_through() {
    assert_eq!(decode(b"not a container").unwrap(), b"not a container");
}

#[test]
fn decode_returns_the_mem_block_at_its_unpadded_size() {
    let s = rastate(&[(b"RPLY", b"abc"), (b"MEM ", b"0123456789")]);
    assert_eq!(decode(&s).unwrap(), b"0123456789");
}

#[test]
fn decode_inflates_rzip_chunks_first() {
    let plain = rastate(&[(b"MEM ", &[7u8; 1000])]);
    let z = rzip(&plain, 300);
    assert_eq!(decode(&z).unwrap(), vec![7u8; 1000]);
}

#[test]
fn decode_rejects_an_rzip_header_claiming_an_absurd_size() {
    let mut absurd = b"#RZIPv\x01#".to_vec();
    absurd.extend_from_slice(&64u32.to_le_bytes());
    absurd.extend_from_slice(&u64::MAX.to_le_bytes());
    let err = decode(&absurd).unwrap_err().message();
    assert!(err.contains("claims"), "{err}");
}

#[test]
fn decode_rejects_end_before_mem_and_truncation() {
    let no_mem = rastate(&[(b"RPLY", b"abc")]);
    assert!(decode(&no_mem).unwrap_err().message().contains("MEM"));
    let mut cut = rastate(&[(b"MEM ", b"0123456789")]);
    cut.truncate(12);
    assert!(decode(&cut).is_err());
    let mut oversize = b"RASTATE\x01MEM ".to_vec();
    oversize.extend_from_slice(&u32::MAX.to_le_bytes());
    assert!(decode(&oversize).is_err());
}

#[test]
fn decode_rejects_an_unknown_rzip_version() {
    let mut v2 = b"#RZIPv\x02#".to_vec();
    v2.extend_from_slice(&64u32.to_le_bytes());
    v2.extend_from_slice(&10u64.to_le_bytes());
    let err = decode(&v2).unwrap_err().message();
    assert!(err.contains("version 2"), "{err}");
}

#[test]
fn decode_rejects_a_chunk_that_inflates_past_the_promised_total() {
    let mut lying = b"#RZIPv\x01#".to_vec();
    lying.extend_from_slice(&4096u32.to_le_bytes());
    lying.extend_from_slice(&100u64.to_le_bytes());
    let mut enc = flate2::write::ZlibEncoder::new(Vec::new(), flate2::Compression::fast());
    enc.write_all(&[0u8; 1000]).unwrap();
    let z = enc.finish().unwrap();
    lying.extend_from_slice(&(z.len() as u32).to_le_bytes());
    lying.extend_from_slice(&z);
    let err = decode(&lying).unwrap_err().message();
    assert!(err.contains("inflates past"), "{err}");
}

#[test]
fn decode_rejects_a_corrupt_chunk_at_its_offset() {
    let mut bad = b"#RZIPv\x01#".to_vec();
    bad.extend_from_slice(&64u32.to_le_bytes());
    bad.extend_from_slice(&10u64.to_le_bytes());
    bad.extend_from_slice(&4u32.to_le_bytes());
    bad.extend_from_slice(&[1, 2, 3, 4]);
    let err = decode(&bad).unwrap_err().message();
    assert_eq!(err, "inflating the rzip chunk at byte 28");
}

#[test]
fn refuses_a_missing_shader_before_touching_metal() {
    let err = Hosted
        .check_request("/nonexistent/p.slangp", "/tmp/x.gputrace")
        .unwrap_err();
    assert!(err.contains("shader preset not found"), "{err}");
}

#[test]
fn a_free_output_path_needs_nothing_removed() {
    let tmp = tempfile::tempdir().unwrap();
    let out = tmp.path().join("new.gputrace");
    let preset = tempfile::Builder::new().suffix(".slangp").tempfile().unwrap();
    assert_eq!(
        Hosted.check_request(preset.path().to_str().unwrap(), out.to_str().unwrap()),
        Ok(OutputPlan::Absent)
    );
}

#[test]
fn warmup_is_all_but_the_recorded_frame_after_a_state() {
    assert_eq!(warmup_frames(true, 1, 300), 0);
    assert_eq!(warmup_frames(true, 5, 300), 4);
    assert_eq!(warmup_frames(true, 0, 300), 0);
    assert_eq!(warmup_frames(false, 5, 300), 300);
}

#[test]
fn the_inflated_bytes_are_unwrapped_once_more() {
    assert_eq!(unwrap_rastate(b"raw".to_vec()).unwrap(), b"raw");
    let s = rastate(&[(b"MEM ", b"xyz")]);
    assert_eq!(unwrap_rastate(s).unwrap(), b"xyz");
    let no_mem = rastate(&[(b"RPLY", b"abc")]);
    assert!(unwrap_rastate(no_mem).is_err());
}

#[test]
fn a_targa_file_is_decoded_by_its_extension() {
    // A 1x1 uncompressed true-colour TGA, top-left origin, one BGR pixel.
    let tga: Vec<u8> = vec![
        0, 0, 2, 0, 0, 0, 0, 0, 0, 0, 0, 0, 1, 0, 1, 0, 24, 0x20, 0x30, 0x20, 0x10,
    ];
    let src = ImageSource::open("tiny.TGA", &tga).unwrap().unwrap();
    assert_eq!(src.size(), Size { width: 1, height: 1 });
    assert_eq!(src.next().pixels, [0x30, 0x20, 0x10, 255]);
    assert_eq!(
        ImageSource::open("tiny.xyz", &tga).err().unwrap(),
        "tiny.xyz does not have an extension naming an image format"
    );
}

#[test]
fn the_extension_picks_the_decoder() {
    assert_eq!(image_kind("a/b.PNG"), Some(ImageKind::Decodable(Decoder::Png)));
    assert_eq!(image_kind("a.jpeg"), Some(ImageKind::Decodable(Decoder::Jpeg)));
    assert_eq!(image_kind("a.JFIF"), Some(ImageKind::Decodable(Decoder::Jpeg)));
    assert_eq!(image_kind("a.ppm"), Some(ImageKind::Decodable(Decoder::Pnm)));
    assert_eq!(image_kind("a.tga"), Some(ImageKind::Decodable(Decoder::Tga)));
    assert_eq!(image_kind("a.hdr"), Some(ImageKind::Decodable(Decoder::Hdr)));
    assert_eq!(image_kind("a.webp"), Some(ImageKind::Other));
    assert_eq!(image_kind("a.TIFF"), Some(ImageKind::Other));
    assert_eq!(image_kind("a.txt"), None);
    assert_eq!(image_kind("noext"), None);
}

#[test]
fn a_format_left_out_of_the_build_is_refused_by_name() {
    assert_eq!(
        ImageSource::open("shot.webp", b"RIFF").err().unwrap(),
        "shot.webp names an image format this build does not decode"
    );
}

#[test]
fn a_block_past_the_end_is_named_as_its_tag_reads() {
    let mut s = b"RASTATE\x01".to_vec();
    s.extend_from_slice(b"A\"\xffB");
    s.extend_from_slice(&100u32.to_le_bytes());
    s.extend_from_slice(b"short");
    let err = decode(&s).unwrap_err().message();
    assert_eq!(err, "block \"A\\\"\u{FFFD}B\" at byte 16 declares 100 bytes past the end");
}

#[test]
fn a_request_is_refused_for_its_preset_before_its_output() {
    assert_eq!(
        request_checked("p.slangp", false, Err("in the way".to_string())),
        Err("shader preset not found at p.slangp".to_string())
    );
    assert_eq!(
        request_checked("p.slangp", true, Err("in the way".to_string())),
        Err("in the way".to_string())
    );
    assert_eq!(
        request_checked("p.slangp", true, Ok(OutputPlan::RemoveStaleBundle)),
        Ok(OutputPlan::RemoveStaleBundle)
    );
}

#[test]
fn only_an_sdr_8_bit_source_renders_to_bgra8() {
    assert_eq!(output_pixel_format(HdrMode::Off, FrameFormat::Bgra8), OutputFormat::Bgra8Unorm);
    assert_eq!(output_pixel_format(HdrMode::Off, FrameFormat::Bgr10a2), OutputFormat::Rgb10a2Unorm);
    assert_eq!(output_pixel_format(HdrMode::Hdr10, FrameFormat::Bgra8), OutputFormat::Rgb10a2Unorm);
    assert_eq!(output_pixel_format(HdrMode::Hdr10, FrameFormat::Bgr10a2), OutputFormat::Rgb10a2Unorm);
}

#[test]
fn an_inflated_chunk_is_appended_unless_corrupt_or_too_long() {
    let mut out = vec![1u8, 2];
    assert_eq!(take_chunk(&mut out, 5, 40, Some(vec![3, 4])), Ok(()));
    assert_eq!(out, vec![1, 2, 3, 4]);
    assert_eq!(take_chunk(&mut out, 5, 60, Some(vec![5, 6])), Err(StateError::InflatesPast(5)));
    assert_eq!(out, vec![1, 2, 3, 4]);
    assert_eq!(take_chunk(&mut out, 5, 70, None), Err(StateError::Inflate(70)));
    assert_eq!(out, vec![1, 2, 3, 4]);
}
