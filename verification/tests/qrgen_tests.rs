use qrgen::history::{history_label, HistoryEntry};
use qrgen::qr::{
    export_document, hex_color, module_fill, render_qr_image, render_qr_svg, ExportDocument, ModuleColor,
    QrGenError, QrMatrix, SVG_QUIET_ZONE,
};
use qrgen::state::{AppState, EditorEvent, DEFAULT_EXPORT_SIZE};
use qrgen::theme::{theme_palette, theme_toggle_label};
use qrgen::types::{export_size_choices, EcLevel, ModuleShape, Rgba, SaveFormat};

const FG: Rgba = Rgba { r: 10, g: 20, b: 30, a: 255 };
const BG: Rgba = Rgba { r: 200, g: 210, b: 220, a: 128 };

fn pixel(img: &qrgen::qr::RgbaBuffer, x: u32, y: u32) -> [u8; 4] {
    let i = ((y * img.width + x) * 4) as usize;
    [img.pixels[i], img.pixels[i + 1], img.pixels[i + 2], img.pixels[i + 3]]
}

fn checker() -> QrMatrix {
    QrMatrix::new(
        2,
        vec![ModuleColor::Dark, ModuleColor::Light, ModuleColor::Light, ModuleColor::Dark],
    )
    .unwrap()
}

#[test]
fn level_codes_round_trip() {
    for level in [EcLevel::L, EcLevel::M, EcLevel::Q, EcLevel::H] {
        assert_eq!(EcLevel::from_code(level.code()), level);
    }
    assert_eq!(EcLevel::L.code(), "L");
    assert_eq!(EcLevel::M.code(), "M");
    assert_eq!(EcLevel::Q.code(), "Q");
    assert_eq!(EcLevel::H.code(), "H");
}

#[test]
fn unknown_level_code_reads_as_high() {
    assert_eq!(EcLevel::from_code("X"), EcLevel::H);
    assert_eq!(EcLevel::from_code(""), EcLevel::H);
    assert_eq!(EcLevel::from_code("LL"), EcLevel::H);
    assert_eq!(EcLevel::from_code("l"), EcLevel::H);
    assert_eq!(EcLevel::from_code("Q"), EcLevel::Q);
}

#[test]
fn level_descriptions_and_shape_labels() {
    assert_eq!(EcLevel::L.description(), "L — Low (7%)");
    assert_eq!(EcLevel::M.description(), "M — Medium (15%)");
    assert_eq!(EcLevel::Q.description(), "Q — Quartile (25%)");
    assert_eq!(EcLevel::H.description(), "H — High (30%)");
    assert_eq!(ModuleShape::SQUARE.label(), "Squared");
    assert_eq!(ModuleShape::ROUNDED.label(), "Rounded");
}

#[test]
fn export_sizes_and_file_names() {
    assert_eq!(export_size_choices(), vec![256, 512, 1024, 2048]);
    assert_eq!(SaveFormat::PNG.extension(), "png");
    assert_eq!(SaveFormat::SVG.extension(), "svg");
    assert_eq!(SaveFormat::PNG.default_file_name(), "qrcode.png");
    assert_eq!(SaveFormat::SVG.default_file_name(), "qrcode.svg");
}

#[test]
fn short_label_is_the_text() {
    assert_eq!(history_label("hello"), "hello");
    assert_eq!(history_label(""), "");
    assert_eq!(history_label("0123456789abcdef"), "0123456789abcdef");
}

#[test]
fn long_label_is_cut_after_sixteen_bytes() {
    assert_eq!(history_label("0123456789abcdefg"), "0123456789abcdef…");
    assert_eq!(
        history_label("https://example.com/a/long/path"),
        "https://example.…"
    );
}

#[test]
fn long_label_cuts_on_a_character_boundary() {
    // nine two-byte characters: the cut after byte 16 falls between characters
    assert_eq!(history_label("ééééééééé"), "éééééééé…");
    // six three-byte characters: byte 16 is inside the sixth, so the cut comes after byte 15
    assert_eq!(history_label("€€€€€€"), "€€€€€…");
    // a four-byte character spanning bytes 14 to 17
    assert_eq!(history_label("abcdefghijklmn😀x"), "abcdefghijklmn…");
}

#[test]
fn history_entry_records_text_and_code() {
    let e = HistoryEntry::new("hello", EcLevel::Q);
    assert_eq!(e.text, "hello");
    assert_eq!(e.ec_level, "Q");
    assert_eq!(e.level(), EcLevel::Q);
    assert_eq!(e.label(), "hello");
    let odd = HistoryEntry { text: "x".to_string(), ec_level: "Z".to_string() };
    assert_eq!(odd.level(), EcLevel::H);
}

#[test]
fn matrix_needs_square_shape() {
    assert!(QrMatrix::new(0, vec![]).is_none());
    assert!(QrMatrix::new(2, vec![ModuleColor::Dark; 3]).is_none());
    assert!(QrMatrix::new(178, vec![ModuleColor::Dark; 178 * 178]).is_none());
    let m = QrMatrix::new(177, vec![ModuleColor::Light; 177 * 177]).unwrap();
    assert_eq!(m.width(), 177);
    let c = checker();
    assert_eq!(c.width(), 2);
    assert_eq!(c.module(0, 0), ModuleColor::Dark);
    assert_eq!(c.module(1, 0), ModuleColor::Light);
    assert_eq!(c.module(0, 1), ModuleColor::Light);
    assert_eq!(c.modules().len(), 4);
}

#[test]
fn render_gives_each_module_a_square() {
    let img = render_qr_image(&checker(), 4, FG, BG);
    assert_eq!(img.width, 4);
    assert_eq!(img.height, 4);
    assert_eq!(img.pixels.len(), 4 * 4 * 4);
    let fg = [FG.r, FG.g, FG.b, FG.a];
    let bg = [BG.r, BG.g, BG.b, BG.a];
    for y in 0..4 {
        for x in 0..4 {
            let dark = (x / 2 + y / 2) % 2 == 0;
            assert_eq!(pixel(&img, x, y), if dark { fg } else { bg });
        }
    }
}

#[test]
fn render_fills_the_leftover_pixels_with_background() {
    // 7 pixels for 2 modules: 3 pixels per module, 1 leftover pixel, 0 of it before
    let img = render_qr_image(&checker(), 7, FG, BG);
    assert_eq!(img.width, 7);
    assert_eq!(img.height, 7);
    assert_eq!(img.pixels.len(), 7 * 7 * 4);
    let fg = [FG.r, FG.g, FG.b, FG.a];
    let bg = [BG.r, BG.g, BG.b, BG.a];
    assert_eq!(pixel(&img, 0, 0), fg);
    assert_eq!(pixel(&img, 2, 2), fg);
    assert_eq!(pixel(&img, 3, 0), bg);
    assert_eq!(pixel(&img, 5, 5), fg);
    assert_eq!(pixel(&img, 6, 0), bg);
    assert_eq!(pixel(&img, 6, 6), bg);
    assert_eq!(pixel(&img, 0, 6), bg);
    // a 3-module symbol in 11 pixels: 3 per module and 2 leftover, 1 before and 1 after
    let d = ModuleColor::Dark;
    let l = ModuleColor::Light;
    let m = QrMatrix::new(3, vec![d, l, d, l, d, l, d, l, d]).unwrap();
    let img = render_qr_image(&m, 11, FG, BG);
    assert_eq!(img.width, 11);
    assert_eq!(pixel(&img, 0, 0), bg);
    assert_eq!(pixel(&img, 1, 1), fg);
    assert_eq!(pixel(&img, 3, 3), fg);
    assert_eq!(pixel(&img, 4, 1), bg);
    assert_eq!(pixel(&img, 4, 4), fg);
    assert_eq!(pixel(&img, 9, 9), fg);
    assert_eq!(pixel(&img, 10, 10), bg);
    assert_eq!(pixel(&img, 10, 1), bg);
}

#[test]
fn render_smaller_than_the_symbol_is_all_background() {
    let img = render_qr_image(&checker(), 1, FG, BG);
    assert_eq!(img.width, 1);
    assert_eq!(img.height, 1);
    assert_eq!(pixel(&img, 0, 0), [BG.r, BG.g, BG.b, BG.a]);
    let empty = render_qr_image(&checker(), 0, FG, BG);
    assert_eq!(empty.width, 0);
    assert!(empty.pixels.is_empty());
}

#[test]
fn larger_export_scales_each_pixel_up() {
    let m = QrMatrix::encode("scale", EcLevel::Q).unwrap();
    let w = m.width() as u32;
    let a = render_qr_image(&m, w, FG, BG);
    let b = render_qr_image(&m, 3 * w, FG, BG);
    assert_eq!(b.width, 3 * a.width);
    for y in 0..b.height {
        for x in 0..b.width {
            assert_eq!(pixel(&b, x, y), pixel(&a, x / 3, y / 3));
        }
    }
}

#[test]
fn encode_makes_a_version_one_symbol() {
    let m = QrMatrix::encode("hello", EcLevel::M).unwrap();
    assert_eq!(m.width(), 21);
    assert_eq!(m.modules().len(), 21 * 21);
    // the top-left finder pattern: a dark ring around a light ring around a dark core
    assert_eq!(m.module(0, 0), ModuleColor::Dark);
    assert_eq!(m.module(1, 1), ModuleColor::Light);
    assert_eq!(m.module(3, 3), ModuleColor::Dark);
    let empty = QrMatrix::encode("", EcLevel::M).unwrap();
    assert_eq!(empty.width(), 21);
}

#[test]
fn encode_rejects_too_long_text() {
    let text = "a".repeat(3000);
    assert_eq!(QrMatrix::encode(&text, EcLevel::L).err(), Some(QrGenError::DataTooLong));
}

#[test]
fn export_of_a_real_symbol_has_the_chosen_size() {
    let m = QrMatrix::encode("hello", EcLevel::H).unwrap();
    let img = render_qr_image(&m, 512, FG, BG);
    // 512 / 21 = 24 pixels per module; the 8 leftover pixels make a border of 4 on each side
    assert_eq!(img.width, 512);
    assert_eq!(img.height, 512);
    assert_eq!(img.pixels.len(), 512 * 512 * 4);
    let fg = [FG.r, FG.g, FG.b, FG.a];
    let bg = [BG.r, BG.g, BG.b, BG.a];
    assert_eq!(pixel(&img, 0, 0), bg);
    assert_eq!(pixel(&img, 3, 3), bg);
    assert_eq!(pixel(&img, 4, 4), fg);
    assert_eq!(pixel(&img, 27, 27), fg);
    assert_eq!(pixel(&img, 28, 28), bg);
    assert_eq!(pixel(&img, 511, 511), bg);
    assert_eq!(pixel(&img, 508, 0), bg);
}

#[test]
fn svg_export_is_an_svg_document() {
    let m = QrMatrix::encode("hello", EcLevel::M).unwrap();
    let svg = render_qr_svg(&m, Rgba { r: 0, g: 0, b: 0, a: 255 }, Rgba { r: 255, g: 255, b: 255, a: 255 });
    assert_eq!(SVG_QUIET_ZONE, 4);
    assert!(svg.starts_with("<?xml version=\"1.0\" standalone=\"yes\"?><svg"));
    // (21 + 2 * 4) modules of 8 pixels
    assert!(svg.contains("width=\"232\""));
    assert!(svg.contains("fill=\"#ffffff\""));
    assert!(svg.contains("fill=\"#000000\""));
    assert!(svg.ends_with("\"/></svg>"));
}

#[test]
fn svg_export_uses_the_chosen_colors() {
    let m = QrMatrix::encode("hello", EcLevel::M).unwrap();
    let red = Rgba { r: 255, g: 0, b: 0, a: 255 };
    let blue = Rgba { r: 0, g: 0, b: 255, a: 255 };
    let svg = render_qr_svg(&m, red, blue);
    assert!(svg.contains("<rect x=\"0\" y=\"0\" width=\"232\" height=\"232\" fill=\"#0000ff\"/>"));
    assert!(svg.contains("<path fill=\"#ff0000\" d=\""));
}

#[test]
fn hex_colors() {
    assert_eq!(hex_color(FG), "#0a141e");
    assert_eq!(hex_color(BG), "#c8d2dc80");
    assert_eq!(hex_color(Rgba { r: 255, g: 255, b: 255, a: 255 }), "#ffffff");
    assert_eq!(hex_color(Rgba { r: 0, g: 0, b: 0, a: 0 }), "#00000000");
}

#[test]
fn new_state_defaults() {
    let s = AppState::new(vec![]);
    assert_eq!(s.text, "");
    assert_eq!(s.ec_level, EcLevel::M);
    assert_eq!(s.fmt, SaveFormat::PNG);
    assert_eq!(s.module_shape, ModuleShape::ROUNDED);
    assert!(s.dark_mode);
    assert!(s.select);
    assert_eq!(s.export_size, DEFAULT_EXPORT_SIZE);
    assert_eq!(s.export_size, 512);
    assert_eq!(s.fg_color, Rgba { r: 0, g: 0, b: 0, a: 255 });
    assert_eq!(s.bg_color, Rgba { r: 255, g: 255, b: 255, a: 255 });
    assert!(s.history.is_empty());
    let mut code = QrMatrix::encode("x", EcLevel::H).unwrap();
    assert_eq!(s.refresh_code(&mut code), Ok(()));
    assert_eq!(code.width(), 21);
}

#[test]
fn toggling_theme_twice_restores_it() {
    let mut s = AppState::new(vec![]);
    s.toggle_theme();
    assert!(!s.dark_mode);
    s.toggle_theme();
    assert!(s.dark_mode);
}

#[test]
fn generate_skips_empty_text() {
    let mut s = AppState::new(vec![]);
    assert!(!s.generate());
    assert!(s.history.is_empty());
}

#[test]
fn generate_appends_text_and_level() {
    let mut s = AppState::new(vec![]);
    s.text = "abc".to_string();
    s.ec_level = EcLevel::Q;
    assert!(s.generate());
    assert_eq!(s.history.len(), 1);
    assert_eq!(s.history[0].text, "abc");
    assert_eq!(s.history[0].ec_level, "Q");
}

#[test]
fn restore_then_generate_repeats_the_entry() {
    let mut s = AppState::new(vec![
        HistoryEntry::new("first", EcLevel::L),
        HistoryEntry::new("second", EcLevel::H),
    ]);
    s.restore_entry(1);
    assert_eq!(s.text, "second");
    assert_eq!(s.ec_level, EcLevel::H);
    assert!(s.generate());
    assert_eq!(s.history.len(), 3);
    assert_eq!(s.history[2].text, "second");
    assert_eq!(s.history[2].ec_level, "H");
}

#[test]
fn restore_with_unknown_code_uses_high() {
    let mut s = AppState::new(vec![HistoryEntry {
        text: "t".to_string(),
        ec_level: "?".to_string(),
    }]);
    s.restore_entry(0);
    assert_eq!(s.text, "t");
    assert_eq!(s.ec_level, EcLevel::H);
}

#[test]
fn delete_and_clear_history() {
    let mut s = AppState::new(vec![
        HistoryEntry::new("a", EcLevel::L),
        HistoryEntry::new("b", EcLevel::M),
        HistoryEntry::new("c", EcLevel::Q),
    ]);
    s.delete_entry(1);
    assert_eq!(s.history.len(), 2);
    assert_eq!(s.history[0].text, "a");
    assert_eq!(s.history[1].text, "c");
    s.clear_history();
    assert!(s.history.is_empty());
}

#[test]
fn choosing_a_format_shows_png_sizes_only_for_png() {
    let mut s = AppState::new(vec![]);
    s.choose_format(SaveFormat::SVG);
    assert_eq!(s.fmt, SaveFormat::SVG);
    assert!(!s.select);
    s.choose_format(SaveFormat::PNG);
    assert_eq!(s.fmt, SaveFormat::PNG);
    assert!(s.select);
}

#[test]
fn theme_palettes() {
    let dark = theme_palette(true);
    let light = theme_palette(false);
    assert_eq!(dark.top_bar, Rgba { r: 20, g: 20, b: 35, a: 255 });
    assert_eq!(light.top_bar, Rgba { r: 220, g: 230, b: 255, a: 255 });
    assert_eq!(dark.side_panel, Rgba { r: 25, g: 25, b: 40, a: 255 });
    assert_eq!(light.central_panel, Rgba { r: 245, g: 245, b: 255, a: 255 });
    assert_eq!(dark.title, Rgba { r: 255, g: 255, b: 255, a: 255 });
    assert_eq!(light.title, Rgba { r: 0, g: 0, b: 0, a: 255 });
    assert_eq!(dark.button_text, Rgba { r: 255, g: 255, b: 0, a: 255 });
    assert_eq!(light.button_text, Rgba { r: 0, g: 0, b: 139, a: 255 });
    assert_eq!(theme_toggle_label(true), "☀ Light");
    assert_eq!(theme_toggle_label(false), "🌙 Dark");
}

#[test]
fn module_fill_picks_foreground_for_dark() {
    assert_eq!(module_fill(ModuleColor::Dark, FG, BG), FG);
    assert_eq!(module_fill(ModuleColor::Light, FG, BG), BG);
}

#[test]
fn edits_keep_history_well_formed() {
    let mut s = AppState::new(vec![HistoryEntry::new("a", EcLevel::L)]);
    s.generate();
    s.text = "b".to_string();
    s.ec_level = EcLevel::H;
    s.generate();
    s.restore_entry(0);
    s.generate();
    s.delete_entry(1);
    s.choose_format(SaveFormat::SVG);
    s.toggle_theme();
    for e in &s.history {
        assert!(!e.text.is_empty());
        assert!(["L", "M", "Q", "H"].contains(&e.ec_level.as_str()));
    }
    assert_eq!(s.history.len(), 2);
    assert_eq!(s.history[0].text, "a");
    assert_eq!(s.history[1].text, "a");
}

#[test]
fn reencode_keeps_the_last_symbol_on_failure() {
    let mut m = QrMatrix::encode("hello", EcLevel::M).unwrap();
    let before: Vec<ModuleColor> = m.modules().to_vec();
    let long = "a".repeat(3000);
    assert_eq!(m.reencode(&long, EcLevel::L), Err(QrGenError::DataTooLong));
    assert_eq!(m.modules(), &before[..]);
    assert_eq!(m.reencode("a much longer text than before, to need a bigger symbol", EcLevel::H), Ok(()));
    assert!(m.width() > 21);
}

#[test]
fn refresh_code_follows_the_state() {
    let mut s = AppState::new(vec![]);
    let mut code = QrMatrix::encode("", EcLevel::M).unwrap();
    s.apply(EditorEvent::SetText("hello".to_string()));
    assert_eq!(s.refresh_code(&mut code), Ok(()));
    let expected = QrMatrix::encode("hello", EcLevel::M).unwrap();
    assert_eq!(code.modules(), expected.modules());
    s.apply(EditorEvent::SetText("x".repeat(8000)));
    assert_eq!(s.refresh_code(&mut code), Err(QrGenError::DataTooLong));
    assert_eq!(code.modules(), expected.modules());
}

#[test]
fn events_of_a_frame_keep_the_editor_invariant() {
    let mut s = AppState::new(vec![HistoryEntry::new("a", EcLevel::L)]);
    let events = vec![
        EditorEvent::SetText("hello".to_string()),
        EditorEvent::SetLevel(EcLevel::Q),
        EditorEvent::Generate,
        EditorEvent::ChooseFormat(SaveFormat::SVG),
        EditorEvent::SetExportSize(1024),
        EditorEvent::Restore(0),
        EditorEvent::Delete(1),
        EditorEvent::SetShape(ModuleShape::SQUARE),
        EditorEvent::SetFgColor(FG),
        EditorEvent::SetBgColor(BG),
        EditorEvent::ToggleTheme,
    ];
    for e in events {
        s.apply(e);
        assert_eq!(s.select, s.fmt == SaveFormat::PNG);
        assert!([256, 512, 1024, 2048].contains(&s.export_size));
        for h in &s.history {
            assert!(["L", "M", "Q", "H"].contains(&h.ec_level.as_str()));
        }
    }
    assert_eq!(s.text, "a");
    assert_eq!(s.ec_level, EcLevel::L);
    assert_eq!(s.history.len(), 1);
    assert_eq!(s.module_shape, ModuleShape::SQUARE);
    assert_eq!(s.fg_color, FG);
    assert_eq!(s.bg_color, BG);
    assert!(!s.dark_mode);
    s.apply(EditorEvent::ClearHistory);
    assert!(s.history.is_empty());
}

#[test]
fn empty_history_only_gets_well_formed_entries() {
    let mut s = AppState::new(vec![]);
    s.apply(EditorEvent::Generate);
    assert!(s.history.is_empty());
    s.apply(EditorEvent::SetText("qr".to_string()));
    s.apply(EditorEvent::SetLevel(EcLevel::Q));
    s.apply(EditorEvent::Generate);
    assert_eq!(s.history.len(), 1);
    assert_eq!(s.history[0].text, "qr");
    assert_eq!(s.history[0].ec_level, "Q");
}
