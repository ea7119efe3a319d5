use vstd::prelude::*;
use vstd::arithmetic::div_mod::lemma_fundamental_div_mod_converse;
use vstd::arithmetic::div_mod::lemma_fundamental_div_mod;
use crate::types::{EcLevel, Rgba, SaveFormat};
use qrcode::types::QrError;
use qrcode::{Color as QColor, EcLevel as QLevel, QrCode};
use qrcode::render::Renderer;
use qrcode::render::svg::Color as SvgColor;
use vstd::string::*;

verus! {

/// The largest number of modules per side a QR symbol has (version 40).
pub const MAX_QR_WIDTH: usize = 177;

/// The width, in modules, of the border an SVG export draws around the symbol.
pub const SVG_QUIET_ZONE: u32 = 4;

/// The color of one module of a QR symbol.
#[derive(Clone, Copy, Debug, PartialEq, Eq, Structural)]
pub enum ModuleColor {
    Light,
    Dark,
}

/// Why a text could not be encoded as a QR symbol.
#[derive(Clone, Copy, Debug, PartialEq, Eq, Structural)]
pub enum QrGenError {
    DataTooLong,
    InvalidVersion,
    UnsupportedCharacterSet,
    InvalidEciDesignator,
    InvalidCharacter,
}

/// The mathematical content of a QR symbol: its width in modules and its
/// modules, row by row, each row left to right.
pub struct QrModules {
    pub width: nat,
    pub modules: Seq<ModuleColor>,
}

/// A module matrix is valid when it is square, non-empty and no wider than a QR symbol.
pub open spec fn valid_modules(m: QrModules) -> bool {
    &&& 1 <= m.width <= MAX_QR_WIDTH
    &&& m.modules.len() == m.width * m.width
}

/// The module in column `x` and row `y`.
pub open spec fn module_at(m: QrModules, x: int, y: int) -> ModuleColor {
    m.modules[y * m.width + x]
}

/// The symbol that the QR encoder makes of the UTF-8 bytes of `text` at `level`,
/// choosing the smallest version that holds the data, or the reason it fails.
pub uninterp spec fn qr_encoding(text: Seq<char>, level: EcLevel) -> Result<QrModules, QrGenError>;

/// The SVG document that the QR encoder's SVG renderer draws of a module matrix,
/// with a border of `quiet_zone` light modules, dark modules filled with the SVG
/// color `dark` and the background with `light`.
pub uninterp spec fn qr_svg_document(
    width: nat,
    modules: Seq<ModuleColor>,
    quiet_zone: nat,
    dark: Seq<char>,
    light: Seq<char>,
) -> Seq<char>;

/// Encodes `text` with `qrcode::QrCode::with_error_correction_level` and reads the
/// symbol back with `width` and `to_colors`.
/// Trusted: the result is the encoder's (named `qr_encoding`); a symbol it makes is a
/// normal QR symbol of version 1 to 40, so 21 to 177 modules wide, with one color
/// per module.
#[verifier::external_body]
fn qrcode_encode(text: &str, level: EcLevel) -> (res: Result<(usize, Vec<ModuleColor>), QrGenError>)
    ensures
        match res {
            Ok((w, modules)) => {
                &&& qr_encoding(text@, level) == Ok::<QrModules, QrGenError>(
                    QrModules { width: w as nat, modules: modules@ },
                )
                &&& 21 <= w <= 177
                &&& modules@.len() == w * w
            },
            Err(e) => qr_encoding(text@, level) == Err::<QrModules, QrGenError>(e),
        },
{
    let ec = match level { EcLevel::L => QLevel::L, EcLevel::M => QLevel::M, EcLevel::Q => QLevel::Q, EcLevel::H => QLevel::H };
    match QrCode::with_error_correction_level(text, ec) {
        Ok(c) => Ok((c.width(), c.to_colors().iter().map(|m| match m { QColor::Light => ModuleColor::Light, QColor::Dark => ModuleColor::Dark }).collect())),
        Err(QrError::DataTooLong) => Err(QrGenError::DataTooLong),
        Err(QrError::InvalidVersion) => Err(QrGenError::InvalidVersion),
        Err(QrError::UnsupportedCharacterSet) => Err(QrGenError::UnsupportedCharacterSet),
        Err(QrError::InvalidEciDesignator) => Err(QrGenError::InvalidEciDesignator),
        Err(QrError::InvalidCharacter) => Err(QrGenError::InvalidCharacter),
    }
}

/// Draws a module matrix with `qrcode::render::Renderer::<svg::Color>::new(..)`,
/// `dark_color`, `light_color` and `build`.
/// Trusted: the result is the renderer's document (named `qr_svg_document`). The
/// renderer asserts that there is one color per module, and its pixel arithmetic is
/// in `u32`; the `requires` keeps both within bounds.
#[verifier::external_body]
fn qrcode_svg(width: usize, modules: &Vec<ModuleColor>, quiet_zone: u32, dark: &str, light: &str) -> (svg: String)
    requires
        1 <= width <= 177,
        modules@.len() == width * width,
        quiet_zone <= 4,
    ensures
        svg@ == qr_svg_document(width as nat, modules@, quiet_zone as nat, dark@, light@),
{
    let colors: Vec<QColor> = modules.iter().map(|m| match m { ModuleColor::Light => QColor::Light, ModuleColor::Dark => QColor::Dark }).collect();
    let mut renderer = Renderer::<SvgColor>::new(&colors, width, quiet_zone);
    renderer.dark_color(SvgColor(dark)).light_color(SvgColor(light)).build()
}

/// The sixteen hexadecimal digits, lower case.
pub open spec fn hex_digits() -> Seq<char> {
    seq!['0', '1', '2', '3', '4', '5', '6', '7', '8', '9', 'a', 'b', 'c', 'd', 'e', 'f']
}

/// A byte as two lower-case hexadecimal digits.
pub open spec fn hex_byte(b: u8) -> Seq<char> {
    seq![hex_digits()[(b / 16) as int], hex_digits()[(b % 16) as int]]
}

/// A color as an SVG color: `#rrggbb` when it is opaque, `#rrggbbaa` otherwise.
pub open spec fn hex_color_of(c: Rgba) -> Seq<char> {
    seq!['#'] + hex_byte(c.r) + hex_byte(c.g) + hex_byte(c.b) + if c.a == 255 {
        Seq::empty()
    } else {
        hex_byte(c.a)
    }
}

/// The hexadecimal digit of a value below sixteen: '0'..'9', then 'a'..'f'.
proof fn lemma_hex_digit(n: int)
    requires
        0 <= n < 16,
    ensures
        hex_digits()[n] as int == if n < 10 { 48 + n } else { 87 + n },
{
    assert(hex_digits()[0] == '0' && hex_digits()[1] == '1' && hex_digits()[2] == '2' && hex_digits()[3] == '3');
    assert(hex_digits()[4] == '4' && hex_digits()[5] == '5' && hex_digits()[6] == '6' && hex_digits()[7] == '7');
    assert(hex_digits()[8] == '8' && hex_digits()[9] == '9' && hex_digits()[10] == 'a' && hex_digits()[11] == 'b');
    assert(hex_digits()[12] == 'c' && hex_digits()[13] == 'd' && hex_digits()[14] == 'e' && hex_digits()[15] == 'f');
}

/// An SVG color is '#' followed by two lower-case hexadecimal digits (high nibble
/// first) for red, green and blue, in that order, and two more for alpha unless the
/// color is opaque.
pub proof fn lemma_hex_color_layout(c: Rgba)
    ensures
        ({
            let h = hex_color_of(c);
            let digit = |n: int| if n < 10 { 48 + n } else { 87 + n };
            &&& h.len() == if c.a == 255 { 7int } else { 9int }
            &&& h[0] == '#'
            &&& h[1] as int == digit(c.r as int / 16) && h[2] as int == digit(c.r as int % 16)
            &&& h[3] as int == digit(c.g as int / 16) && h[4] as int == digit(c.g as int % 16)
            &&& h[5] as int == digit(c.b as int / 16) && h[6] as int == digit(c.b as int % 16)
            &&& c.a != 255 ==> h[7] as int == digit(c.a as int / 16) && h[8] as int == digit(c.a as int % 16)
        }),
{
    lemma_hex_digit(c.r as int / 16);
    lemma_hex_digit(c.r as int % 16);
    lemma_hex_digit(c.g as int / 16);
    lemma_hex_digit(c.g as int % 16);
    lemma_hex_digit(c.b as int / 16);
    lemma_hex_digit(c.b as int % 16);
    lemma_hex_digit(c.a as int / 16);
    lemma_hex_digit(c.a as int % 16);
}

/// Appends the two hexadecimal digits of `b`.
fn push_hex_byte(out: &mut String, b: u8)
    ensures
        final(out)@ == old(out)@ + hex_byte(b),
{
    let digits = "0123456789abcdef";
    proof {
        reveal_strlit("0123456789abcdef");
        assert(digits@ =~= hex_digits());
    }
    let hi: usize = (b / 16) as usize;
    let lo: usize = (b % 16) as usize;
    out.append(digits.substring_char(hi, hi + 1));
    out.append(digits.substring_char(lo, lo + 1));
    proof {
        assert(digits@.subrange(hi as int, hi + 1) =~= seq![hex_digits()[hi as int]]);
        assert(digits@.subrange(lo as int, lo + 1) =~= seq![hex_digits()[lo as int]]);
        assert(final(out)@ =~= old(out)@ + hex_byte(b));
    }
}

/// The SVG color of `c`: `#rrggbb` when it is opaque, `#rrggbbaa` otherwise.
pub fn hex_color(c: Rgba) -> (res: String)
    ensures
        res@ == hex_color_of(c),
{
    let mut out = String::from_str("#");
    proof {
        reveal_strlit("#");
        assert("#"@ =~= seq!['#']);
    }
    push_hex_byte(&mut out, c.r);
    push_hex_byte(&mut out, c.g);
    push_hex_byte(&mut out, c.b);
    if c.a != 255 {
        push_hex_byte(&mut out, c.a);
    }
    proof {
        assert(out@ =~= hex_color_of(c));
    }
    out
}

/// A QR symbol as a square matrix of modules.
#[derive(Debug)]
pub struct QrMatrix {
    width: usize,
    modules: Vec<ModuleColor>,
}

impl View for QrMatrix {
    type V = QrModules;

    closed spec fn view(&self) -> QrModules {
        QrModules { width: self.width as nat, modules: self.modules@ }
    }
}

impl QrMatrix {
    #[verifier::type_invariant]
    spec fn inv(&self) -> bool {
        valid_modules(self@)
    }

    /// Builds a matrix from its width and its modules row by row; `None` unless the
    /// width is between 1 and `MAX_QR_WIDTH` and there are exactly `width * width` modules.
    pub fn new(width: usize, modules: Vec<ModuleColor>) -> (res: Option<QrMatrix>)
        ensures
            res is Some <==> valid_modules(QrModules { width: width as nat, modules: modules@ }),
            res matches Some(m) ==> m@ == (QrModules { width: width as nat, modules: modules@ }),
    {
        if width < 1 || width > MAX_QR_WIDTH {
            return None;
        }
        assert(width * width <= 177 * 177) by (nonlinear_arith)
            requires
                width <= 177,
        ;
        if modules.len() != width * width {
            return None;
        }
        Some(QrMatrix { width, modules })
    }

    /// Encodes `text` (its UTF-8 bytes) as the smallest QR symbol at the given
    /// error-correction level.
    pub fn encode(text: &str, level: EcLevel) -> (res: Result<QrMatrix, QrGenError>)
        ensures
            match res {
                Ok(m) => qr_encoding(text@, level) == Ok::<QrModules, QrGenError>(m@),
                Err(e) => qr_encoding(text@, level) == Err::<QrModules, QrGenError>(e),
            },
            res matches Ok(m) ==> 21 <= m@.width,
    {
        match qrcode_encode(text, level) {
            Ok((width, modules)) => match QrMatrix::new(width, modules) {
                Some(m) => Ok(m),
                None => {
                    proof {
                        assert(false);
                    }
                    Err(QrGenError::InvalidVersion)
                },
            },
            Err(e) => Err(e),
        }
    }

    /// Replaces the symbol with that of `text` at `level`; when the text cannot be
    /// encoded, keeps the current symbol and returns the reason.
    pub fn reencode(&mut self, text: &str, level: EcLevel) -> (res: Result<(), QrGenError>)
        ensures
            match res {
                Ok(()) => qr_encoding(text@, level) == Ok::<QrModules, QrGenError>(final(self)@),
                Err(e) => {
                    &&& qr_encoding(text@, level) == Err::<QrModules, QrGenError>(e)
                    &&& final(self)@ == old(self)@
                },
            },
    {
        match QrMatrix::encode(text, level) {
            Ok(m) => {
                *self = m;
                Ok(())
            },
            Err(e) => Err(e),
        }
    }

    /// The number of modules per side.
    pub fn width(&self) -> (res: usize)
        ensures
            res == self@.width,
            valid_modules(self@),
    {
        proof {
            use_type_invariant(self);
        }
        self.width
    }

    /// The modules, row by row.
    pub fn modules(&self) -> (res: &[ModuleColor])
        ensures
            res@ == self@.modules,
            valid_modules(self@),
    {
        proof {
            use_type_invariant(self);
        }
        self.modules.as_slice()
    }

    /// The module in column `x` and row `y`.
    pub fn module(&self, x: usize, y: usize) -> (res: ModuleColor)
        requires
            x < self@.width,
            y < self@.width,
        ensures
            res == module_at(self@, x as int, y as int),
            res == self@.modules[y * self@.width + x],
    {
        proof {
            use_type_invariant(self);
            assert(y * self.width + x < self.width * self.width <= 177 * 177) by (nonlinear_arith)
                requires
                    x < self.width,
                    y < self.width,
                    self.width <= 177,
            ;
        }
        self.modules[y * self.width + x]
    }
}



/// An image held as rows of RGBA pixels, four bytes per pixel, top row first.
#[derive(Clone, Debug)]
pub struct RgbaBuffer {
    pub width: u32,
    pub height: u32,
    pub pixels: Vec<u8>,
}

/// The number of pixels per module side in an export of `export_size` pixels.
pub open spec fn cell_size(export_size: nat, width: nat) -> nat {
    export_size / width
}

/// The side, in pixels, of the symbol inside an export: a whole number of pixels
/// per module, never more than `export_size`.
pub open spec fn symbol_side(export_size: nat, width: nat) -> nat {
    cell_size(export_size, width) * width
}

/// The width of the background border left of and above the symbol: half of the
/// pixels the symbol leaves over, rounded down (the right and bottom borders take
/// the rest).
pub open spec fn symbol_offset(export_size: nat, width: nat) -> nat {
    ((export_size - symbol_side(export_size, width)) / 2) as nat
}

/// Channel `k` of a color: red, green, blue, then alpha.
pub open spec fn channel(c: Rgba, k: int) -> u8 {
    if k == 0 {
        c.r
    } else if k == 1 {
        c.g
    } else if k == 2 {
        c.b
    } else {
        c.a
    }
}

/// The color a module is drawn in: the foreground when it is dark, the background when light.
pub open spec fn fill_of(module: ModuleColor, fg: Rgba, bg: Rgba) -> Rgba {
    if module == ModuleColor::Dark {
        fg
    } else {
        bg
    }
}

/// The color a module is drawn in, in the preview and in exports alike.
pub fn module_fill(module: ModuleColor, fg: Rgba, bg: Rgba) -> (res: Rgba)
    ensures
        res == fill_of(module, fg, bg),
{
    match module {
        ModuleColor::Dark => fg,
        ModuleColor::Light => bg,
    }
}

/// The color of pixel (`x`, `y`) of an export of `export_size` pixels per side: inside
/// the centred symbol, the color of the module covering the pixel; in the border
/// around it, the background.
pub open spec fn pixel_color(m: QrModules, export_size: nat, fg: Rgba, bg: Rgba, x: int, y: int) -> Rgba {
    let cell = cell_size(export_size, m.width) as int;
    let off = symbol_offset(export_size, m.width) as int;
    let span = symbol_side(export_size, m.width) as int;
    if off <= x < off + span && off <= y < off + span {
        fill_of(module_at(m, (x - off) / cell, (y - off) / cell), fg, bg)
    } else {
        bg
    }
}

/// Byte `p` of the export's pixel buffer.
pub open spec fn raster_byte(m: QrModules, export_size: nat, fg: Rgba, bg: Rgba, p: int) -> u8 {
    let side = export_size as int;
    channel(pixel_color(m, export_size, fg, bg, (p / 4) % side, (p / 4) / side), p % 4)
}

/// `img` is the export of `m` at `export_size` pixels in `fg` on `bg`: a square of
/// `export_size` pixels per side, each pixel in the color `pixel_color` gives it.
pub open spec fn is_rendering(m: QrModules, export_size: nat, fg: Rgba, bg: Rgba, img: RgbaBuffer) -> bool {
    let side = export_size;
    &&& img.width == side
    &&& img.height == side
    &&& img.pixels@.len() == side * side * 4
    &&& forall|x: int, y: int, k: int|
        0 <= x < side && 0 <= y < side && 0 <= k < 4 ==> #[trigger] img.pixels@[(y * side + x) * 4 + k]
            == channel(pixel_color(m, export_size, fg, bg, x, y), k)
}

/// The symbol and its top-left border fit inside the export, and every module gets
/// the same whole number of pixels.
pub proof fn lemma_symbol_fits(export_size: nat, width: nat)
    requires
        width > 0,
    ensures
        symbol_side(export_size, width) <= export_size,
        symbol_offset(export_size, width) + symbol_side(export_size, width) <= export_size,
        symbol_side(export_size, width) % width == 0,
        symbol_side(export_size, width) / width == cell_size(export_size, width),
        export_size - symbol_side(export_size, width) < width,
{
    lemma_fundamental_div_mod(export_size as int, width as int);
    let cell = cell_size(export_size, width);
    assert(cell * width <= export_size) by (nonlinear_arith)
        requires
            export_size == width * cell + export_size % width,
    ;
    lemma_fundamental_div_mod_converse((cell * width) as int, width as int, cell as int, 0);
    assert(cell * width == width * cell) by (nonlinear_arith);
    assert(export_size - cell * width == export_size % width);
}

/// The pixels an export gives module (`mx`, `my`) are the square of `cell_size`
/// pixels per side whose top-left corner is (`off + mx * cell`, `off + my * cell`),
/// all in the module's color.
pub proof fn lemma_module_square(
    m: QrModules,
    export_size: nat,
    fg: Rgba,
    bg: Rgba,
    mx: int,
    my: int,
    dx: int,
    dy: int,
)
    requires
        valid_modules(m),
        0 <= mx < m.width,
        0 <= my < m.width,
        0 <= dx < cell_size(export_size, m.width),
        0 <= dy < cell_size(export_size, m.width),
    ensures
        ({
            let cell = cell_size(export_size, m.width) as int;
            let off = symbol_offset(export_size, m.width) as int;
            &&& off + mx * cell + dx < export_size
            &&& off + my * cell + dy < export_size
            &&& pixel_color(m, export_size, fg, bg, off + mx * cell + dx, off + my * cell + dy) == fill_of(
                module_at(m, mx, my),
                fg,
                bg,
            )
        }),
{
    let cell = cell_size(export_size, m.width) as int;
    lemma_symbol_fits(export_size, m.width);
    lemma_fundamental_div_mod_converse(mx * cell + dx, cell, mx, dx);
    lemma_fundamental_div_mod_converse(my * cell + dy, cell, my, dy);
    assert(mx * cell + dx < cell * m.width && my * cell + dy < cell * m.width) by (nonlinear_arith)
        requires
            0 <= mx < m.width,
            0 <= my < m.width,
            0 <= dx < cell,
            0 <= dy < cell,
    ;
}

/// An export shows the symbol as it is, row by row: every pixel of the square of
/// `export_size / width` pixels per side that sits `mx` squares right and `my`
/// squares down from the top-left of the symbol area (which starts after half the
/// leftover pixels) carries the four bytes of the foreground color when the module
/// in column `mx` of row `my` — element `my * width + mx` of the module sequence —
/// is dark, and of the background color when it is light.
pub proof fn lemma_export_shows_each_module(
    m: QrModules,
    export_size: nat,
    fg: Rgba,
    bg: Rgba,
    img: RgbaBuffer,
    mx: int,
    my: int,
    dx: int,
    dy: int,
)
    requires
        1 <= m.width <= 177,
        m.modules.len() == m.width * m.width,
        is_rendering(m, export_size, fg, bg, img),
        0 <= mx < m.width,
        0 <= my < m.width,
        0 <= dx < export_size / m.width,
        0 <= dy < export_size / m.width,
    ensures
        ({
            let cell = (export_size / m.width) as int;
            let off = (export_size - cell * m.width) / 2;
            let x = off + mx * cell + dx;
            let y = off + my * cell + dy;
            let p = (y * export_size + x) * 4;
            let c = if m.modules[my * m.width + mx] == ModuleColor::Dark {
                fg
            } else {
                bg
            };
            &&& 0 <= x < export_size
            &&& 0 <= y < export_size
            &&& img.width == export_size
            &&& img.pixels@[p] == c.r
            &&& img.pixels@[p + 1] == c.g
            &&& img.pixels@[p + 2] == c.b
            &&& img.pixels@[p + 3] == c.a
        }),
{
    let cell = (export_size / m.width) as int;
    let off = (export_size - cell * m.width) / 2;
    let x = off + mx * cell + dx;
    let y = off + my * cell + dy;
    lemma_symbol_fits(export_size, m.width);
    assert(cell == cell_size(export_size, m.width));
    assert(off == symbol_offset(export_size, m.width));
    lemma_module_square(m, export_size, fg, bg, mx, my, dx, dy);
    assert(0 <= x < export_size && 0 <= y < export_size);
    assert(img.pixels@[(y * export_size + x) * 4 + 0] == channel(pixel_color(m, export_size, fg, bg, x, y), 0));
    assert(img.pixels@[(y * export_size + x) * 4 + 1] == channel(pixel_color(m, export_size, fg, bg, x, y), 1));
    assert(img.pixels@[(y * export_size + x) * 4 + 2] == channel(pixel_color(m, export_size, fg, bg, x, y), 2));
    assert(img.pixels@[(y * export_size + x) * 4 + 3] == channel(pixel_color(m, export_size, fg, bg, x, y), 3));
}

/// Outside the symbol area, an export is background: a pixel left of or above the
/// area (the first half of the leftover pixels, rounded down) or right of or below
/// it carries the four bytes of the background color.
pub proof fn lemma_export_border_is_background(
    m: QrModules,
    export_size: nat,
    fg: Rgba,
    bg: Rgba,
    img: RgbaBuffer,
    x: int,
    y: int,
)
    requires
        1 <= m.width <= 177,
        m.modules.len() == m.width * m.width,
        is_rendering(m, export_size, fg, bg, img),
        0 <= x < export_size,
        0 <= y < export_size,
        ({
            let span = (export_size / m.width) * m.width;
            let off = (export_size - span) / 2;
            x < off || x >= off + span || y < off || y >= off + span
        }),
    ensures
        img.pixels@[(y * export_size + x) * 4] == bg.r,
        img.pixels@[(y * export_size + x) * 4 + 1] == bg.g,
        img.pixels@[(y * export_size + x) * 4 + 2] == bg.b,
        img.pixels@[(y * export_size + x) * 4 + 3] == bg.a,
{
    assert(img.pixels@[(y * export_size + x) * 4 + 0] == channel(pixel_color(m, export_size, fg, bg, x, y), 0));
    assert(img.pixels@[(y * export_size + x) * 4 + 1] == channel(pixel_color(m, export_size, fg, bg, x, y), 1));
    assert(img.pixels@[(y * export_size + x) * 4 + 2] == channel(pixel_color(m, export_size, fg, bg, x, y), 2));
    assert(img.pixels@[(y * export_size + x) * 4 + 3] == channel(pixel_color(m, export_size, fg, bg, x, y), 3));
}

/// Exporting at `k` times the symbol's width draws the export at the symbol's width
/// scaled up `k` times: pixel (`x`, `y`) takes the color of pixel (`x / k`, `y / k`).
pub proof fn lemma_export_scales(m: QrModules, fg: Rgba, bg: Rgba, k: nat, x: int, y: int)
    requires
        valid_modules(m),
        k >= 1,
        0 <= x < k * m.width,
        0 <= y < k * m.width,
    ensures
        0 <= x / (k as int) < m.width,
        0 <= y / (k as int) < m.width,
        pixel_color(m, k * m.width, fg, bg, x, y) == pixel_color(m, m.width, fg, bg, x / (k as int), y
            / (k as int)),
{
    let w = m.width;
    let kk = k as int;
    lemma_fundamental_div_mod_converse((k * w) as int, w as int, kk, 0);
    lemma_fundamental_div_mod_converse(w as int, w as int, 1, 0);
    assert(cell_size(k * w, w) == k);
    assert(symbol_side(k * w, w) == k * w);
    assert(symbol_offset(k * w, w) == 0);
    assert(cell_size(w, w) == 1);
    assert(symbol_side(w, w) == w);
    assert(symbol_offset(w, w) == 0);
    assert(kk * w == k * w);
    lemma_cell_in_matrix(x, kk, w as int);
    lemma_cell_in_matrix(y, kk, w as int);
    assert((x / kk) / 1 == x / kk);
    assert((y / kk) / 1 == y / kk);
}

/// Two exports, one at the symbol's width and one at `k` times it: the second is `k`
/// times as wide and shows each pixel of the first as a square of `k` pixels.
pub proof fn lemma_export_buffers_scale(m: QrModules, fg: Rgba, bg: Rgba, k: nat, a: RgbaBuffer, b: RgbaBuffer)
    requires
        valid_modules(m),
        k >= 1,
        is_rendering(m, m.width, fg, bg, a),
        is_rendering(m, k * m.width, fg, bg, b),
    ensures
        b.width == k * a.width,
        b.height == k * a.height,
        forall|x: int, y: int, c: int|
            0 <= x < b.width && 0 <= y < b.height && 0 <= c < 4 ==> #[trigger] b.pixels@[(y * b.width + x) * 4
                + c] == a.pixels@[((y / (k as int)) * a.width + x / (k as int)) * 4 + c],
{
    assert forall|x: int, y: int, c: int|
        0 <= x < b.width && 0 <= y < b.height && 0 <= c < 4 implies #[trigger] b.pixels@[(y * b.width + x) * 4
        + c] == a.pixels@[((y / (k as int)) * a.width + x / (k as int)) * 4 + c] by {
        lemma_export_scales(m, fg, bg, k, x, y);
        let xs = x / (k as int);
        let ys = y / (k as int);
        assert(a.pixels@[(ys * m.width + xs) * 4 + c] == channel(pixel_color(m, m.width, fg, bg, xs, ys), c));
    }
}

/// Where byte `k` of pixel (`x`, `y`) sits in a buffer of rows `side` pixels wide.
proof fn lemma_raster_index(side: int, x: int, y: int, k: int)
    requires
        0 <= x < side,
        0 <= y,
        0 <= k < 4,
    ensures
        ((y * side + x) * 4 + k) / 4 == y * side + x,
        ((y * side + x) * 4 + k) % 4 == k,
        (y * side + x) % side == x,
        (y * side + x) / side == y,
{
    lemma_fundamental_div_mod_converse((y * side + x) * 4 + k, 4, y * side + x, k);
    lemma_fundamental_div_mod_converse(y * side + x, side, y, x);
}

/// A coordinate inside the symbol lies in a module inside the matrix.
proof fn lemma_cell_in_matrix(v: int, cell: int, width: int)
    requires
        0 < cell,
        0 < width,
        0 <= v < cell * width,
    ensures
        0 <= v / cell < width,
{
    lemma_fundamental_div_mod(v, cell);
    assert(0 <= v / cell < width) by (nonlinear_arith)
        requires
            0 < cell,
            0 <= v < cell * width,
            v == cell * (v / cell) + v % cell,
            0 <= v % cell < cell,
    ;
}

/// Draws the symbol as an RGBA image of `export_size` by `export_size` pixels: each
/// module becomes a square of `export_size / width` pixels, in `fg` where the module
/// is dark and in `bg` where it is light; the pixels left over form a background
/// border, half of them (rounded down) on the left and top.
pub fn render_qr_image(code: &QrMatrix, export_size: u32, fg_color: Rgba, bg_color: Rgba) -> (res: RgbaBuffer)
    requires
        export_size * export_size * 4 <= usize::MAX,
    ensures
        is_rendering(code@, export_size as nat, fg_color, bg_color, res),
{
    proof {
        use_type_invariant(code);
    }
    let ghost m = code@;
    let ghost esize = export_size as nat;
    let w = code.width;
    let side: usize = export_size as usize;
    let cell: usize = side / w;
    proof {
        lemma_symbol_fits(esize, w as nat);
    }
    let span: usize = cell * w;
    let off: usize = (side - span) / 2;
    let mut pixels: Vec<u8> = Vec::new();
    let mut y: usize = 0;
    while y < side
        invariant
            m == code@,
            valid_modules(m),
            w == m.width,
            cell == cell_size(esize, m.width),
            span == symbol_side(esize, m.width),
            off == symbol_offset(esize, m.width),
            off + span <= side,
            side == esize,
            side * side * 4 <= usize::MAX,
            y <= side,
            pixels@.len() == (y * side) * 4,
            forall|p: int|
                0 <= p < pixels@.len() ==> #[trigger] pixels@[p] == raster_byte(m, esize, fg_color, bg_color, p),
        decreases side - y,
    {
        let mut x: usize = 0;
        while x < side
            invariant
                m == code@,
                valid_modules(m),
                w == m.width,
                cell == cell_size(esize, m.width),
                span == symbol_side(esize, m.width),
                off == symbol_offset(esize, m.width),
                off + span <= side,
                side == esize,
                side * side * 4 <= usize::MAX,
                y < side,
                x <= side,
                pixels@.len() == (y * side + x) * 4,
                forall|p: int|
                    0 <= p < pixels@.len() ==> #[trigger] pixels@[p] == raster_byte(m, esize, fg_color, bg_color, p),
            decreases side - x,
        {
            proof {
                assert((y * side + x) * 4 + 4 <= side * side * 4) by (nonlinear_arith)
                    requires
                        x < side,
                        y < side,
                ;
            }
            let color = if off <= x && x < off + span && off <= y && y < off + span {
                proof {
                    assert(span == cell * w) by (nonlinear_arith)
                        requires
                            span == cell_size(esize, m.width) * m.width,
                            cell == cell_size(esize, m.width),
                            w == m.width,
                    ;
                    lemma_cell_in_matrix((x - off) as int, cell as int, w as int);
                    lemma_cell_in_matrix((y - off) as int, cell as int, w as int);
                    let xr: int = (x - off) as int / (cell as int);
                    let yr: int = (y - off) as int / (cell as int);
                    assert(yr * w + xr < w * w <= 177 * 177) by (nonlinear_arith)
                        requires
                            0 <= yr < w,
                            0 <= xr < w,
                            w <= 177,
                    ;
                }
                let row: usize = (y - off) / cell;
                let col: usize = (x - off) / cell;
                module_fill(code.modules[row * w + col], fg_color, bg_color)
            } else {
                bg_color
            };
            let ghost p0 = pixels@.len() as int;
            pixels.push(color.r);
            pixels.push(color.g);
            pixels.push(color.b);
            pixels.push(color.a);
            proof {
                assert forall|p: int| 0 <= p < pixels@.len() implies #[trigger] pixels@[p] == raster_byte(
                    m,
                    esize,
                    fg_color,
                    bg_color,
                    p,
                ) by {
                    if p >= p0 {
                        let k = p - p0;
                        lemma_raster_index(side as int, x as int, y as int, k);
                        assert(color == pixel_color(m, esize, fg_color, bg_color, x as int, y as int));
                    }
                }
            }
            x = x + 1;
        }
        assert((y * side + side) * 4 == ((y + 1) * side) * 4) by (nonlinear_arith);
        y = y + 1;
    }
    proof {
        assert forall|x: int, y: int, k: int|
            0 <= x < side && 0 <= y < side && 0 <= k < 4 implies #[trigger] pixels@[(y * side + x) * 4 + k]
            == channel(pixel_color(m, esize, fg_color, bg_color, x, y), k) by {
            lemma_raster_index(side as int, x, y, k);
            assert((y * side + x) * 4 + k < side * side * 4) by (nonlinear_arith)
                requires
                    0 <= x < side,
                    0 <= y < side,
                    0 <= k < 4,
            ;
        }
    }
    RgbaBuffer { width: export_size, height: export_size, pixels }
}

/// The SVG document of a symbol, with the standard border of `SVG_QUIET_ZONE` modules,
/// dark modules in `fg_color` and the rest in `bg_color`, each written as `hex_color` writes it.
pub fn render_qr_svg(code: &QrMatrix, fg_color: Rgba, bg_color: Rgba) -> (res: String)
    ensures
        res@ == qr_svg_document(
            code@.width,
            code@.modules,
            SVG_QUIET_ZONE as nat,
            hex_color_of(fg_color),
            hex_color_of(bg_color),
        ),
{
    proof {
        use_type_invariant(code);
    }
    let dark = hex_color(fg_color);
    let light = hex_color(bg_color);
    qrcode_svg(code.width, &code.modules, SVG_QUIET_ZONE, dark.as_str(), light.as_str())
}

/// What an export writes to its file.
#[derive(Debug)]
pub enum ExportDocument {
    Png(RgbaBuffer),
    Svg(String),
}

/// The document an export in `fmt` writes: the pixel image of `render_qr_image`
/// for PNG, the SVG document of `render_qr_svg` for SVG.
pub fn export_document(code: &QrMatrix, fmt: SaveFormat, export_size: u32, fg_color: Rgba, bg_color: Rgba) -> (res: ExportDocument)
    requires
        fmt == SaveFormat::PNG ==> export_size * export_size * 4 <= usize::MAX,
    ensures
        match fmt {
            SaveFormat::PNG => res matches ExportDocument::Png(img) && is_rendering(
                code@,
                export_size as nat,
                fg_color,
                bg_color,
                img,
            ),
            SaveFormat::SVG => res matches ExportDocument::Svg(svg) && svg@ == qr_svg_document(
                code@.width,
                code@.modules,
                SVG_QUIET_ZONE as nat,
                hex_color_of(fg_color),
                hex_color_of(bg_color),
            ),
        },
{
    match fmt {
        SaveFormat::PNG => ExportDocument::Png(render_qr_image(code, export_size, fg_color, bg_color)),
        SaveFormat::SVG => ExportDocument::Svg(render_qr_svg(code, fg_color, bg_color)),
    }
}

} // verus!
