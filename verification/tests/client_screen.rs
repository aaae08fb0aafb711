//! What the client writes to its own terminal.

use herdr::client::encoding::{decode_clipboard_payload, forwarded_clipboard_osc52, osc52_sequence};
use herdr::client::graphics::{contains_kitty_graphics_bytes, encoded_frame_with_graphics};
use herdr::client::graphics::{find_subslice, kitty_graphics_command_image_id};
use herdr::client::graphics::{kitty_graphics_image_ids, ReceivedGraphics};
use herdr::client::image_preview::{clear_inline_preview_bytes, encode_inline_png, inline_layout};
use herdr::client::image_preview::{is_stale, png_dimensions, preview_bounds, safe_stem};
use herdr::client::image_preview::{sanitized_extension, sanitized_stem, stage_for_local_viewer};
use herdr::client::image_preview::staged_file_name;
use herdr::client::image_preview::{InlinePreviewLayout, KITTY_CHUNK_BYTES};
use herdr::client::overlay::{displayed_frame, federation_connecting_frame, max_content_width};
use herdr::client::overlay::CellData;
use herdr::client::overlay::{FrameCursor, FrameData, PanelColors};
use herdr::client::switching::{FederationConnectingUi, FederationConnectionPlan};
use herdr::client::terminal::{equal_ignoring_case, host_color_scheme_report_mode};
use herdr::client::terminal::{restore_terminal_state, setup_terminal_with_capabilities};
use herdr::client::terminal::{should_draw_host_cursor, should_enable_host_color_scheme_reports};
use herdr::client::terminal::{should_query_host_terminal_theme, terminal_geometry};
use herdr::client::terminal::{terminal_guard, terminal_restore_postlude, window_title_osc};
use herdr::client::terminal::{windows_virtual_terminal_input, windows_virtual_terminal_input_mode};
use herdr::client::terminal::{windows_vti_input_backend_enabled, windows_win32_input_mode_enabled};
use herdr::client::terminal::{ColorSchemeSequences, ConsoleAttempt, HostCursorMode, ResizePoll};
use herdr::client::terminal::{RestoreStep, SetupStep, TerminalTraits, WindowSize};
use herdr::client::terminal::WindowsVirtualTerminalInputSetup;

#[test]
fn windows_virtual_terminal_input_mode_sets_only_vti_bit() {
    assert_eq!(windows_virtual_terminal_input_mode(0x01f0), 0x03f0);
    assert_eq!(windows_virtual_terminal_input_mode(0x03f0), 0x03f0);
}

#[test]
fn a_console_mode_that_took_is_put_back_later() {
    let off = WindowsVirtualTerminalInputSetup { active: false, restore_mode: None };
    assert_eq!(windows_virtual_terminal_input(ConsoleAttempt::Unreadable), (off, None));
    assert_eq!(windows_virtual_terminal_input(ConsoleAttempt::Refused), (off, None));
    let on = WindowsVirtualTerminalInputSetup { active: true, restore_mode: None };
    assert_eq!(windows_virtual_terminal_input(ConsoleAttempt::AlreadyOn), (on, None));
    let changed = ConsoleAttempt::Changed { before: 0x01f0, applied: Some(0x03f0) };
    let (setup, undo) = windows_virtual_terminal_input(changed);
    assert_eq!(
        setup,
        WindowsVirtualTerminalInputSetup { active: true, restore_mode: Some(0x01f0) }
    );
    assert_eq!(undo, None);
}

#[test]
fn host_cursor_policy_auto_uses_platform_default() {
    for platform_default in [false, true] {
        assert_eq!(
            should_draw_host_cursor(HostCursorMode::Auto, platform_default),
            platform_default
        );
    }
}

#[test]
fn host_cursor_policy_native_and_drawn_override_auto_detection() {
    for platform_default in [false, true] {
        assert!(!should_draw_host_cursor(HostCursorMode::Native, platform_default));
        assert!(should_draw_host_cursor(HostCursorMode::Drawn, platform_default));
    }
}

#[test]
fn graphics_bytes_are_written_after_blit_with_saved_cursor() {
    let output =
        encoded_frame_with_graphics(b"\x1b[?2026htext\x1b[?2026lcursor", b"graphics");
    assert_eq!(output, b"\x1b[?2026htext\x1b[?2026lcursor\x1b7graphics\x1b8");
}

#[test]
fn empty_graphics_writes_only_blit_frame() {
    assert_eq!(encoded_frame_with_graphics(b"text", b""), b"text");
}

#[test]
fn terminal_frame_kitty_detection_matches_apc_prefix() {
    assert!(contains_kitty_graphics_bytes(b"text\x1b_Ga=p;\x1b\\"));
    assert!(!contains_kitty_graphics_bytes(b"text\x1b[?2026h"));
}

#[test]
fn kitty_graphics_image_id_parser_tracks_herdr_ids_only() {
    let ids = kitty_graphics_image_ids(
        b"text\x1b_Ga=t,t=d,f=32,s=1,v=1,i=10023,q=2;AAAA\x1b\\\x1b_Ga=p,i=10023,p=7;\x1b\\",
    );
    assert_eq!(ids, vec![10023, 10023]);
}

#[test]
fn an_image_id_is_read_from_the_control_part_alone() {
    assert_eq!(kitty_graphics_command_image_id(b"a=t,i=7;i=9"), Some(7));
    assert_eq!(kitty_graphics_command_image_id(b"a=t;i=9"), None);
    assert_eq!(kitty_graphics_command_image_id(b"a=t,i=x"), None);
    assert_eq!(find_subslice(b"abcabc", b"ca"), Some(2));
    assert_eq!(find_subslice(b"abc", b"d"), None);
}

#[test]
fn kitty_graphics_cleanup_deletes_tracked_images_not_all_images() {
    let mut received = ReceivedGraphics::new();
    received.record_received_kitty_graphics(b"\x1b_Ga=t,i=123,q=2;AAAA\x1b\\");
    let text = received.clear_received_kitty_graphics();
    assert!(text.contains("a=d,d=I,i=123"));
    assert!(!text.contains("d=A"));
    assert_eq!(received.clear_received_kitty_graphics(), "");
}

#[test]
fn an_image_given_twice_is_taken_back_once() {
    let mut received = ReceivedGraphics::new();
    received.record_received_kitty_graphics(b"\x1b_Ga=t,i=7;A\x1b\\\x1b_Ga=t,i=9;A\x1b\\");
    received.record_received_kitty_graphics(b"\x1b_Ga=t,i=7;A\x1b\\");
    let seven = "\x1b_Ga=d,d=I,i=7,q=2;\x1b\\";
    let nine = "\x1b_Ga=d,d=I,i=9,q=2;\x1b\\";
    let text = received.clear_received_kitty_graphics();
    assert!(text == format!("{seven}{nine}") || text == format!("{nine}{seven}"));
    assert_eq!(received.clear_received_kitty_graphics(), "");
}

fn sequences() -> ColorSchemeSequences {
    ColorSchemeSequences { enable: "\x1b[?2031h".into(), disable: "\x1b[?2031l".into() }
}

#[test]
fn write_host_color_scheme_report_mode_emits_mode_sequences() {
    assert_eq!(host_color_scheme_report_mode(&sequences(), true), "\x1b[?2031h");
    assert_eq!(host_color_scheme_report_mode(&sequences(), false), "\x1b[?2031l");
}

#[test]
fn host_terminal_theme_query_is_disabled_on_windows() {
    for windows in [false, true] {
        assert_eq!(should_query_host_terminal_theme(windows), !windows);
    }
}

#[test]
fn color_scheme_reports_are_enabled_only_for_full_clients() {
    for windows in [false, true] {
        assert_eq!(should_enable_host_color_scheme_reports(true, windows), !windows);
        assert!(!should_enable_host_color_scheme_reports(false, windows));
    }
}

#[test]
fn terminal_restore_postlude_restores_visible_default_cursor() {
    assert_eq!(terminal_restore_postlude(&sequences(), false), "\x1b[?25h\x1b[0 q");
}

#[test]
fn terminal_restore_postlude_disables_color_scheme_reports_when_enabled() {
    assert_eq!(
        terminal_restore_postlude(&sequences(), true),
        "\x1b[?2031l\x1b[?25h\x1b[0 q"
    );
}

#[test]
fn restoring_takes_back_what_was_set_up() {
    let about = TerminalTraits {
        windows: false,
        vti_backend: false,
        win32_input: false,
        modify_other_keys: true,
    };
    let steps = setup_terminal_with_capabilities(true, true, &about);
    assert!(steps.contains(&SetupStep::KeyboardEnhancement));
    assert!(steps.contains(&SetupStep::ModifyOtherKeys));
    assert!(steps.contains(&SetupStep::ColorSchemeReports(true)));
    let console = WindowsVirtualTerminalInputSetup { active: false, restore_mode: None };
    let guard = terminal_guard(true, &about, console);
    let restored = restore_terminal_state(&guard, &about);
    assert!(restored.contains(&RestoreStep::PopKeyboardEnhancement));
    assert!(restored.contains(&RestoreStep::ResetModifyOtherKeys));
    assert!(restored.contains(&RestoreStep::Postlude(true)));
    assert!(!restored.contains(&RestoreStep::DisableWin32Input));
}

#[test]
fn backends_are_named_in_any_case() {
    assert!(equal_ignoring_case("VTI", "vti"));
    assert!(!equal_ignoring_case("vti", "vt"));
    assert!(!windows_vti_input_backend_enabled(&Some("crossterm".into())));
    assert!(windows_vti_input_backend_enabled(&None));
    assert!(windows_win32_input_mode_enabled(&None));
    assert!(windows_win32_input_mode_enabled(&Some("WIN32".into())));
    assert!(!windows_win32_input_mode_enabled(&Some("vt".into())));
}

#[test]
fn forwarded_clipboard_uses_direct_osc52_sequence() {
    assert_eq!(
        forwarded_clipboard_osc52("dGVzdA==").as_ref().map(|text| text.as_bytes()),
        Some(b"\x1b]52;c;dGVzdA==\x07".as_slice())
    );
    assert_eq!(forwarded_clipboard_osc52("not base64"), None);
}

#[test]
fn decode_clipboard_payload_decodes_base64() {
    assert_eq!(decode_clipboard_payload("dGVzdA=="), Some(b"test".to_vec()));
}

#[test]
fn decode_clipboard_payload_rejects_invalid_base64() {
    assert_eq!(decode_clipboard_payload("not-base64!!!"), None);
}

#[test]
fn clipboard_bytes_are_encoded() {
    assert_eq!(osc52_sequence(&b"test".to_vec()), "\x1b]52;c;dGVzdA==\x07");
}

#[test]
fn window_title_osc_strips_terminators_and_defaults_to_herdr() {
    assert_eq!(
        window_title_osc(&Some("herdr\x1b api\u{7}\u{9c}".into())),
        b"\x1b]0;herdr api\x07"
    );
    assert_eq!(window_title_osc(&None), b"\x1b]0;herdr\x07");
}

#[test]
fn geometry_falls_back_to_eighty_columns() {
    assert_eq!(terminal_geometry(None, false, None), (80, 24, 0, 0));
    let window = WindowSize { columns: 100, rows: 40, width: 800, height: 640 };
    assert_eq!(terminal_geometry(Some((100, 40)), true, Some(window)), (100, 40, 8, 16));
    let window = WindowSize { columns: 100, rows: 40, width: 800, height: 640 };
    assert_eq!(terminal_geometry(Some((100, 40)), false, Some(window)), (100, 40, 0, 0));
}

#[test]
fn only_changes_of_size_are_reported() {
    let mut poll = ResizePoll { last: (80, 24, 0, 0) };
    assert_eq!(poll.poll((80, 24, 0, 0)), None);
    assert_eq!(poll.poll((81, 24, 0, 0)), Some((81, 24, 0, 0)));
    assert_eq!(poll.poll((81, 24, 0, 0)), None);
}

fn png_header(width: u32, height: u32) -> Vec<u8> {
    let mut data = b"\x89PNG\r\n\x1a\n\0\0\0\rIHDR".to_vec();
    data.extend_from_slice(&width.to_be_bytes());
    data.extend_from_slice(&height.to_be_bytes());
    data
}

/// The layout of an image that keeps its aspect and does not grow.
fn laid_out(png: &[u8], cols: u16, rows: u16, cell_w: u32, cell_h: u32) -> Option<InlinePreviewLayout> {
    let bounds = preview_bounds(png, cols, rows, cell_w, cell_h)?;
    let scale = (bounds.max_width_px as f64 / bounds.image_width as f64)
        .min(bounds.max_height_px as f64 / bounds.image_height as f64)
        .min(1.0);
    let width = (bounds.image_width as f64 * scale).ceil().max(1.0) as u64;
    let height = (bounds.image_height as f64 * scale).ceil().max(1.0) as u64;
    Some(inline_layout(&bounds, width, height, cols, rows))
}

#[test]
fn inline_layout_preserves_wide_image_aspect_inside_terminal() {
    let layout = laid_out(&png_header(1600, 800), 100, 40, 8, 16).expect("layout");
    assert!(layout.image_cols <= 94);
    assert!(layout.image_rows <= 34);
    assert_eq!(layout.width, layout.image_cols + 2);
    assert_eq!(layout.height, layout.image_rows + 2);
    assert_eq!(layout.x + layout.width / 2, 50);
}

#[test]
fn inline_encoder_uploads_png_at_reserved_image_id() {
    let png = png_header(10, 10);
    let layout = laid_out(&png, 80, 24, 8, 16).expect("layout");
    let encoded = String::from_utf8(encode_inline_png(&png, layout)).expect("utf8 protocol");
    assert!(encoded.contains("a=T,t=d,f=100,i=2000001,p=1"));
    assert!(encoded.contains("z=100,C=1,q=2"));
    assert!(String::from_utf8(clear_inline_preview_bytes())
        .expect("utf8 delete")
        .contains("a=d,d=I,i=2000001"));
}

#[test]
fn long_images_are_sent_in_chunks() {
    let mut png = png_header(10, 10);
    png.resize(KITTY_CHUNK_BYTES + 1, 0);
    let layout = laid_out(&png, 80, 24, 8, 16).expect("layout");
    let encoded = String::from_utf8(encode_inline_png(&png, layout)).expect("utf8 protocol");
    assert_eq!(encoded.matches("\x1b_G").count(), 3, "one delete and two chunks");
    assert!(encoded.contains("m=1"));
    assert!(encoded.contains("m=0"));
}

#[test]
fn pictures_without_a_header_have_no_place() {
    assert_eq!(png_dimensions(&png_header(3, 4)), Some((3, 4)));
    assert_eq!(png_dimensions(b"\x89PNG"), None);
    assert_eq!(preview_bounds(b"jpeg", 80, 24, 8, 16), None);
    assert_eq!(preview_bounds(&png_header(0, 4), 80, 24, 8, 16), None);
    assert_eq!(preview_bounds(&png_header(3, 4), 4, 24, 8, 16), None);
}

#[test]
fn local_cache_names_are_sanitized_and_content_addressed() {
    let name = stage_for_local_viewer("../../my image.jpg", "jpg", b"jpeg");
    assert!(name.starts_with("my-image-"));
    assert!(name.ends_with(".jpg"));
    assert_ne!(name, stage_for_local_viewer("../../my image.jpg", "jpg", b"other"));
}

#[test]
fn staged_names_carry_a_digest() {
    // The first bytes of the SHA-256 of "abc".
    let name = staged_file_name(&Some("x".into()), "png", b"abc");
    assert!(name.starts_with("x-ba7816bf8f01cfea"), "{name}");
    assert_eq!(safe_stem(&None), "image");
    assert_eq!(safe_stem(&Some("a b/c".into())), "a-b-c");
    assert_eq!(sanitized_extension("webp"), "webp");
    assert_eq!(sanitized_extension("exe"), "img");
    assert_eq!(sanitized_stem("pictures/my cat.tar.gz"), "my-cat-tar");
    assert_eq!(sanitized_stem("pictures/cat.png/"), "cat");
    assert_eq!(sanitized_stem("pictures/cat.png/."), "cat");
    assert_eq!(sanitized_stem("pictures/.."), "image");
    assert!(is_stale(86_400_000_000_001));
    assert!(!is_stale(86_400_000_000_000));
}

#[test]
fn first_federation_dial_shows_connecting_until_activation_finishes() {
    let mut connecting = FederationConnectingUi::for_plan(
        FederationConnectionPlan::New,
        &"STL workbench".to_string(),
    );

    assert_eq!(
        connecting.as_ref().map(FederationConnectingUi::message),
        Some("Connecting to STL workbench\u{2026}".into())
    );
    assert!(FederationConnectingUi::finish(&mut connecting));
    assert!(connecting.is_none(), "ACK or failure must clear the state");
    assert!(!FederationConnectingUi::finish(&mut connecting));
}

#[test]
fn retained_federation_connection_skips_connecting_ui() {
    let label = "STL workbench".to_string();
    assert!(
        FederationConnectingUi::for_plan(FederationConnectionPlan::Suspended(0), &label).is_none()
    );
    assert!(FederationConnectingUi::for_plan(FederationConnectionPlan::Current, &label).is_none());
}

fn cell(symbol: &str) -> CellData {
    CellData { symbol: symbol.into(), fg: 2, bg: 0, modifier: 0, skip: false, hyperlink: None }
}

#[test]
fn connecting_overlay_preserves_the_source_frame_outside_its_panel() {
    let base = FrameData {
        cells: (0..60 * 11).map(|_| cell("s")).collect(),
        width: 60,
        height: 11,
        cursor: Some(FrameCursor { x: 2, y: 3, visible: true, shape: 2 }),
        hyperlinks: Vec::new(),
        graphics: b"source-graphics".to_vec(),
    };
    let connecting = FederationConnectingUi::for_plan(
        FederationConnectionPlan::New,
        &"STL workbench".to_string(),
    )
    .expect("cold connection should have UI");
    let colors = PanelColors { background: 1, border: 3, text: 4, bold: 1 };

    let overlay =
        federation_connecting_frame(&base, &connecting.message(), connecting.tick, colors);

    assert_eq!(base.cells[0].symbol, "s");
    assert_eq!(overlay.cells[0], base.cells[0]);
    assert_eq!(overlay.cells[overlay.cells.len() - 1], base.cells[0]);
    assert_eq!(overlay.cursor.as_ref().map(|cursor| cursor.visible), Some(false));
    assert!(overlay.graphics.is_empty());
    let rendered = overlay.cells.iter().map(|cell| cell.symbol.as_str()).collect::<String>();
    assert!(rendered.contains("Connecting to STL workbench\u{2026}"));
}

#[test]
fn wide_characters_take_two_cells_of_the_panel() {
    let base = FrameData {
        cells: (0..40 * 5).map(|_| cell(".")).collect(),
        width: 40,
        height: 5,
        cursor: None,
        hyperlinks: Vec::new(),
        graphics: Vec::new(),
    };
    let colors = PanelColors { background: 1, border: 3, text: 4, bold: 1 };
    let overlay = federation_connecting_frame(&base, "\u{65e5}x", 0, colors);
    let at = overlay.cells.iter().position(|cell| cell.symbol == "\u{65e5}").unwrap();
    assert_eq!(overlay.cells[at + 2].symbol, "x");
    assert!(max_content_width(40) < 40);
}

#[test]
fn frame_is_covered_only_while_a_member_is_dialled() {
    let base = || FrameData {
        cells: (0..60 * 11).map(|_| cell("s")).collect(),
        width: 60,
        height: 11,
        cursor: None,
        hyperlinks: Vec::new(),
        graphics: b"g".to_vec(),
    };
    let colors = PanelColors { background: 1, border: 3, text: 4, bold: 1 };
    assert_eq!(displayed_frame(base(), &None, colors), base());
    let progress =
        FederationConnectingUi::for_plan(FederationConnectionPlan::New, &"tana".to_string());
    let message = progress.as_ref().unwrap().message();
    let tick = progress.as_ref().unwrap().tick;
    let covered = displayed_frame(base(), &progress, colors);
    assert_eq!(covered, federation_connecting_frame(&base(), &message, tick, colors));
    assert_ne!(covered, base());
}
