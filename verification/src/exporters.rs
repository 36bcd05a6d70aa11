//! A symbol written out: as an SVG document, as a block of text for a
//! terminal and as a raster image.

use vstd::prelude::*;
use qrcodegen::QrCode;
use crate::canvas::{canvas_height, canvas_pixels, canvas_width, Canvas};
use crate::decimal::{decimal, push_decimal};
use crate::qr::{qr_side, symbol_of, Symbol};

verus! {

/// What one module adds to the path of the SVG document: nothing where it is
/// light; where it is dark, a square of side 1 at its place behind the border,
/// after a blank unless it is the module in the top left corner.
pub open spec fn svg_cell(sym: Symbol, border: int, x: int, y: int) -> Seq<char> {
    if sym.is_dark(x, y) {
        let gap = if x != 0 || y != 0 {
            " "@
        } else {
            Seq::<char>::empty()
        };
        gap + "M"@ + decimal((x + border) as nat) + ","@ + decimal((y + border) as nat)
            + "h1v1h-1z"@
    } else {
        Seq::empty()
    }
}

/// The path of the first `n` modules of row `y`, from left to right.
pub open spec fn svg_row(sym: Symbol, border: int, y: int, n: int) -> Seq<char>
    decreases n,
{
    if n <= 0 {
        Seq::empty()
    } else {
        svg_row(sym, border, y, n - 1) + svg_cell(sym, border, n - 1, y)
    }
}

/// The path of the first `m` rows, from top to bottom.
pub open spec fn svg_rows(sym: Symbol, border: int, m: int) -> Seq<char>
    decreases m,
{
    if m <= 0 {
        Seq::empty()
    } else {
        svg_rows(sym, border, m - 1) + svg_row(sym, border, m - 1, sym.side)
    }
}

/// The opening of the SVG document, up to the path: the view box spans the
/// symbol and the border on each side.
pub open spec fn svg_head(dimension: int) -> Seq<char> {
    "<?xml version=\"1.0\" encoding=\"UTF-8\"?>\n"@
        + "<!DOCTYPE svg PUBLIC \"-//W3C//DTD SVG 1.1//EN\" \"http://www.w3.org/Graphics/SVG/1.1/DTD/svg11.dtd\">\n"@
        + "<svg xmlns=\"http://www.w3.org/2000/svg\" version=\"1.1\" viewBox=\"0 0 "@
        + decimal(dimension as nat) + " "@ + decimal(dimension as nat) + "\" stroke=\"none\">\n"@
        + "\t<rect width=\"100%\" height=\"100%\" fill=\"#FFFFFF\"/>\n"@ + "\t<path d=\""@
}

/// The SVG document of a symbol with a border of `border` modules: a white
/// rectangle, and on it one black path of a unit square for each dark module.
pub open spec fn svg_text(sym: Symbol, border: int) -> Seq<char> {
    svg_head(sym.side + 2 * border) + svg_rows(sym, border, sym.side)
        + "\" fill=\"#000000\"/>\n"@ + "</svg>\n"@
}

/// Appends the path of one row of a symbol to a text.
fn push_svg_row(out: &mut String, qr: &QrCode, border: i32, y: i32)
    requires
        0 <= border,
        qr_side(*qr) + 2 * border <= i32::MAX,
        0 <= y < qr_side(*qr),
    ensures
        final(out)@ == old(out)@ + svg_row(symbol_of(*qr), border as int, y as int, qr_side(*qr)),
{
    let size = qr.size();
    let ghost sym = symbol_of(*qr);
    let ghost before = out@;
    let mut x: i32 = 0;
    while x < size
        invariant
            0 <= x <= size,
            size == qr_side(*qr),
            sym == symbol_of(*qr),
            0 <= border,
            size + 2 * border <= i32::MAX,
            0 <= y < size,
            out@ == before + svg_row(sym, border as int, y as int, x as int),
        decreases size - x,
    {
        let ghost row = out@;
        if qr.get_module(x, y) {
            if x != 0 || y != 0 {
                out.append(" ");
            }
            out.append("M");
            push_decimal(out, (x + border) as u32);
            out.append(",");
            push_decimal(out, (y + border) as u32);
            out.append("h1v1h-1z");
        }
        proof {
            assert(out@ =~= row + svg_cell(sym, border as int, x as int, y as int));
            assert(out@ =~= before + svg_row(sym, border as int, y as int, x + 1));
        }
        x += 1;
    }
}

/// Writes a symbol as an SVG document, with a border of `border` modules on
/// each side.
pub fn to_svg_string(qr: &QrCode, border: i32) -> (svg: String)
    requires
        0 <= border,
        qr_side(*qr) + 2 * border <= i32::MAX,
    ensures
        svg@ == svg_text(symbol_of(*qr), border as int),
{
    let size = qr.size();
    let ghost sym = symbol_of(*qr);
    let dimension = size + border * 2;
    let mut result = String::new();
    result.append("<?xml version=\"1.0\" encoding=\"UTF-8\"?>\n");
    result.append(
        "<!DOCTYPE svg PUBLIC \"-//W3C//DTD SVG 1.1//EN\" \"http://www.w3.org/Graphics/SVG/1.1/DTD/svg11.dtd\">\n",
    );
    result.append(
        "<svg xmlns=\"http://www.w3.org/2000/svg\" version=\"1.1\" viewBox=\"0 0 ",
    );
    push_decimal(&mut result, dimension as u32);
    result.append(" ");
    push_decimal(&mut result, dimension as u32);
    result.append("\" stroke=\"none\">\n");
    result.append("\t<rect width=\"100%\" height=\"100%\" fill=\"#FFFFFF\"/>\n");
    result.append("\t<path d=\"");
    assert(result@ =~= svg_head(dimension as int));
    let mut y: i32 = 0;
    while y < size
        invariant
            0 <= y <= size,
            size == qr_side(*qr),
            sym == symbol_of(*qr),
            0 <= border,
            size + 2 * border <= i32::MAX,
            dimension == size + 2 * border,
            result@ == svg_head(dimension as int) + svg_rows(sym, border as int, y as int),
        decreases size - y,
    {
        push_svg_row(&mut result, qr, border, y);
        proof {
            assert(result@ =~= svg_head(dimension as int) + svg_rows(sym, border as int, y + 1));
        }
        y += 1;
    }
    result.append("\" fill=\"#000000\"/>\n");
    result.append("</svg>\n");
    result
}

/// A text repeated `n` times; empty where `n` is not positive.
pub open spec fn repeated(piece: Seq<char>, n: int) -> Seq<char>
    decreases n,
{
    if n <= 0 {
        Seq::empty()
    } else {
        repeated(piece, n - 1) + piece
    }
}

/// One module on a terminal: two full blocks where it is dark, two blanks
/// where it is light.
pub open spec fn console_cell(sym: Symbol, x: int, y: int) -> Seq<char> {
    if sym.is_dark(x, y) {
        "\u{2588}\u{2588}"@
    } else {
        "  "@
    }
}

/// The first `n` modules of row `y` on a terminal.
pub open spec fn console_cells(sym: Symbol, y: int, n: int) -> Seq<char>
    decreases n,
{
    if n <= 0 {
        Seq::empty()
    } else {
        console_cells(sym, y, n - 1) + console_cell(sym, n - 1, y)
    }
}

/// Row `y` on a terminal: the quiet zone, the modules, the quiet zone again
/// and the end of the line.
pub open spec fn console_line(sym: Symbol, quiet_zone: int, y: int) -> Seq<char> {
    repeated("  "@, quiet_zone) + console_cells(sym, y, sym.side) + repeated("  "@, quiet_zone)
        + "\n"@
}

/// The first `m` rows on a terminal.
pub open spec fn console_lines(sym: Symbol, quiet_zone: int, m: int) -> Seq<char>
    decreases m,
{
    if m <= 0 {
        Seq::empty()
    } else {
        console_lines(sym, quiet_zone, m - 1) + console_line(sym, quiet_zone, m - 1)
    }
}

/// A symbol as a block of text for a terminal. Above and below the rows stand
/// `quiet_zone` lines of one light module each; a quiet zone that is not
/// positive adds nothing.
pub open spec fn console_text(sym: Symbol, quiet_zone: int) -> Seq<char> {
    repeated("  \n"@, quiet_zone) + console_lines(sym, quiet_zone, sym.side) + repeated(
        "  \n"@,
        quiet_zone,
    )
}

/// Appends a text `n` times.
fn push_repeated(out: &mut String, piece: &str, n: i32)
    ensures
        final(out)@ == old(out)@ + repeated(piece@, n as int),
{
    let ghost before = out@;
    let mut i: i32 = 0;
    while i < n
        invariant
            0 <= i,
            n < 0 ==> i == 0,
            n >= 0 ==> i <= n,
            out@ == before + repeated(piece@, i as int),
        decreases n - i,
    {
        out.append(piece);
        proof {
            assert(out@ =~= before + repeated(piece@, i + 1));
        }
        i += 1;
    }
    proof {
        assert(repeated(piece@, i as int) == repeated(piece@, n as int));
        assert(out@ =~= before + repeated(piece@, n as int));
    }
}

/// Appends one row of a symbol, as it stands on a terminal, to a text.
fn push_console_line(out: &mut String, qr: &QrCode, quiet_zone: i32, y: i32)
    requires
        0 <= y < qr_side(*qr),
    ensures
        final(out)@ == old(out)@ + console_line(symbol_of(*qr), quiet_zone as int, y as int),
{
    let size = qr.size();
    let ghost sym = symbol_of(*qr);
    let ghost before = out@;
    push_repeated(out, "  ", quiet_zone);
    let ghost left = out@;
    let mut x: i32 = 0;
    while x < size
        invariant
            0 <= x <= size,
            size == qr_side(*qr),
            sym == symbol_of(*qr),
            0 <= y < size,
            out@ == left + console_cells(sym, y as int, x as int),
        decreases size - x,
    {
        if qr.get_module(x, y) {
            out.append("\u{2588}\u{2588}");
        } else {
            out.append("  ");
        }
        proof {
            assert(out@ =~= left + console_cells(sym, y as int, x + 1));
        }
        x += 1;
    }
    push_repeated(out, "  ", quiet_zone);
    out.append("\n");
    proof {
        assert(out@ =~= before + console_line(sym, quiet_zone as int, y as int));
    }
}

/// Writes a symbol as a block of text for a terminal, with a quiet zone of
/// `quiet_zone` modules around it.
pub fn to_console_string(qr: &QrCode, quiet_zone: i32) -> (text: String)
    ensures
        text@ == console_text(symbol_of(*qr), quiet_zone as int),
{
    let size = qr.size();
    let ghost sym = symbol_of(*qr);
    let mut text = String::new();
    push_repeated(&mut text, "  \n", quiet_zone);
    let ghost top = text@;
    let mut y: i32 = 0;
    while y < size
        invariant
            0 <= y <= size,
            size == qr_side(*qr),
            sym == symbol_of(*qr),
            text@ == top + console_lines(sym, quiet_zone as int, y as int),
        decreases size - y,
    {
        push_console_line(&mut text, qr, quiet_zone, y);
        proof {
            assert(text@ =~= top + console_lines(sym, quiet_zone as int, y + 1));
        }
        y += 1;
    }
    push_repeated(&mut text, "  \n", quiet_zone);
    proof {
        assert(top =~= repeated("  \n"@, quiet_zone as int));
    }
    text
}

/// The number of pixels along one side of the image of a symbol: `scale`
/// pixels for each module, and the border on both sides.
pub open spec fn image_side(sym: Symbol, scale: int, border: int) -> int {
    sym.side * scale + 2 * border
}

/// The pixel in column `x` of row `y` of the image of a symbol, as luminance
/// and alpha: black where it lies in a dark module, white everywhere else.
/// The module in column `i` of row `j` covers the square of `scale` by
/// `scale` pixels that begins at column `i * scale + border` of row
/// `j * scale + border`.
pub open spec fn image_pixel(sym: Symbol, scale: int, border: int, x: int, y: int) -> (u8, u8) {
    if scale > 0 && x >= border && y >= border && sym.is_dark(
        (x - border) / scale,
        (y - border) / scale,
    ) {
        (0, 255)
    } else {
        (255, 255)
    }
}

/// Whether an image is that of a symbol at this scale with this border: a
/// square of [`image_side`] pixels, each pixel as [`image_pixel`] says.
pub open spec fn is_image_of(image: Canvas, sym: Symbol, scale: int, border: int) -> bool {
    &&& canvas_width(image) == image_side(sym, scale, border)
    &&& canvas_height(image) == image_side(sym, scale, border)
    &&& forall|x: int, y: int|
        #![trigger canvas_pixels(image)[(x, y)]]
        #![trigger canvas_pixels(image).dom().contains((x, y))]
        0 <= x < canvas_width(image) && 0 <= y < canvas_height(image) ==> canvas_pixels(
            image,
        ).dom().contains((x, y)) && canvas_pixels(image)[(x, y)] == image_pixel(
            sym,
            scale,
            border,
            x,
            y,
        )
}

/// The inputs for which the image of a symbol can be drawn: its side is not
/// negative, the image fits in memory, and no coordinate that the drawing
/// computes leaves the range of `i32`.
pub open spec fn can_make_image(sym: Symbol, scale: int, border: int) -> bool {
    let drawn = sym.side * scale;
    &&& i32::MIN <= drawn <= i32::MAX
    &&& i32::MIN <= 2 * border <= i32::MAX
    &&& 0 <= drawn + 2 * border <= i32::MAX
    &&& 2 * (drawn + 2 * border) * (drawn + 2 * border) <= usize::MAX
    &&& drawn > 0 ==> {
        &&& drawn + 2 * border > 0
        &&& (drawn - 1) * scale <= i32::MAX
        &&& drawn * scale + border <= i32::MAX
    }
}

/// The pixel in column `x` of row `y` while the image is drawn: the squares of
/// the rows above `row` and of the columns left of `col` in row `row` are done.
spec fn drawn_pixel(
    sym: Symbol,
    scale: int,
    border: int,
    col: int,
    row: int,
    x: int,
    y: int,
) -> (u8, u8) {
    let i = (x - border) / scale;
    let j = (y - border) / scale;
    if scale > 0 && x >= border && y >= border && (j < row || (j == row && i < col))
        && sym.is_dark(i, j) {
        (0, 255)
    } else {
        (255, 255)
    }
}

/// A point lies in the `q`-th stretch of length `d` exactly if dividing it by
/// `d` gives `q`.
proof fn lemma_stretch(a: int, d: int, q: int)
    requires
        d > 0,
    ensures
        (a >= 0 && a / d == q) <==> (q >= 0 && q * d <= a < q * d + d),
{
    vstd::arithmetic::div_mod::lemma_fundamental_div_mod(a, d);
    vstd::arithmetic::div_mod::lemma_mod_bound(a, d);
    if q >= 0 && q * d <= a < q * d + d {
        assert(q * d >= 0) by (nonlinear_arith)
            requires
                q >= 0,
                d > 0,
        ;
        vstd::arithmetic::div_mod::lemma_fundamental_div_mod_converse(a, d, q, a - q * d);
    }
    if a >= 0 && a / d == q {
        vstd::arithmetic::div_mod::lemma_div_pos_is_pos(a, d);
        assert(q * d == d * q) by (nonlinear_arith);
    }
}

/// Tells whether the image of a symbol can be drawn at this scale with this border.
pub fn image_fits(qrcode: &QrCode, scale: i32, border_size: i32) -> (fits: bool)
    ensures
        fits == can_make_image(symbol_of(*qrcode), scale as int, border_size as int),
{
    let size = qrcode.size() as i64;
    let wide = scale as i64;
    let border = border_size as i64;
    let low = i32::MIN as i64;
    let high = i32::MAX as i64;
    assert(-0x1000_0000_0000 <= size * wide <= 0x1000_0000_0000) by (nonlinear_arith)
        requires
            21 <= size <= 177,
            -0x8000_0000 <= wide <= 0x7fff_ffff,
    ;
    let drawn = size * wide;
    if drawn < low || drawn > high || 2 * border < low || 2 * border > high {
        return false;
    }
    let side = drawn + 2 * border;
    if side < 0 || side > high {
        return false;
    }
    assert(0 <= side * side <= 0x3fff_ffff_0000_0001) by (nonlinear_arith)
        requires
            0 <= side <= 0x7fff_ffff,
    ;
    assert(2 * side * side == 2 * (side * side)) by (nonlinear_arith);
    if (2 * (side * side)) as u64 > usize::MAX as u64 {
        return false;
    }
    if drawn > 0 {
        assert(-0x4000_0000_0000_0000 <= (drawn - 1) * wide <= 0x4000_0000_0000_0000
            && -0x4000_0000_0000_0000 <= drawn * wide <= 0x4000_0000_0000_0000)
            by (nonlinear_arith)
            requires
                0 < drawn <= 0x7fff_ffff,
                -0x8000_0000 <= wide <= 0x7fff_ffff,
        ;
        if side == 0 || (drawn - 1) * wide > high || drawn * wide + border > high {
            return false;
        }
    }
    true
}

/// Draws a symbol as an image: `scale` by `scale` pixels for each module, on
/// white, with a border of `border_size` pixels on each side.
pub fn make_image(qrcode: &QrCode, scale: i32, border_size: i32) -> (image: Canvas)
    requires
        can_make_image(symbol_of(*qrcode), scale as int, border_size as int),
    ensures
        is_image_of(image, symbol_of(*qrcode), scale as int, border_size as int),
{
    let ghost sym = symbol_of(*qrcode);
    let size = qrcode.size();
    let new_qr_size = size * scale;
    let side = (new_qr_size + border_size * 2) as u32;

    // a white canvas with the alpha layer set
    let mut image = Canvas::uniform(side, side, 255, 255);

    proof {
        if new_qr_size > 0 {
            assert(scale > 0 && new_qr_size >= size) by (nonlinear_arith)
                requires
                    new_qr_size == size * scale,
                    new_qr_size > 0,
                    size >= 21,
            ;
        } else {
            assert(scale <= 0) by (nonlinear_arith)
                requires
                    new_qr_size == size * scale,
                    new_qr_size <= 0,
                    size >= 21,
            ;
        }
    }
    let mut y: i32 = 0;
    while y < new_qr_size
        invariant
            0 <= y,
            new_qr_size > 0 ==> y <= new_qr_size,
            sym == symbol_of(*qrcode),
            size == sym.side,
            new_qr_size == size * scale,
            new_qr_size > 0 ==> scale > 0 && new_qr_size >= size,
            can_make_image(sym, scale as int, border_size as int),
            side == new_qr_size + 2 * border_size,
            canvas_width(image) == side,
            canvas_height(image) == side,
            forall|px: int, py: int|
                #![trigger canvas_pixels(image)[(px, py)]]
                #![trigger canvas_pixels(image).dom().contains((px, py))]
                0 <= px < side && 0 <= py < side ==> canvas_pixels(image).dom().contains((px, py))
                    && canvas_pixels(image)[(px, py)] == drawn_pixel(
                    sym,
                    scale as int,
                    border_size as int,
                    0,
                    y as int,
                    px,
                    py,
                ),
        decreases new_qr_size - y,
    {
        let mut x: i32 = 0;
        while x < new_qr_size
            invariant
                0 <= x <= new_qr_size,
                0 <= y < new_qr_size,
                sym == symbol_of(*qrcode),
                size == sym.side,
                new_qr_size == size * scale,
                scale > 0,
                new_qr_size >= size,
                can_make_image(sym, scale as int, border_size as int),
                side == new_qr_size + 2 * border_size,
                canvas_width(image) == side,
                canvas_height(image) == side,
                forall|px: int, py: int|
                    #![trigger canvas_pixels(image)[(px, py)]]
                    #![trigger canvas_pixels(image).dom().contains((px, py))]
                    0 <= px < side && 0 <= py < side ==> canvas_pixels(image).dom().contains(
                        (px, py),
                    ) && canvas_pixels(image)[(px, py)] == drawn_pixel(
                        sym,
                        scale as int,
                        border_size as int,
                        x as int,
                        y as int,
                        px,
                        py,
                    ),
            decreases new_qr_size - x,
        {
            proof {
                assert(0 <= x * scale <= (new_qr_size - 1) * scale && 0 <= y * scale <= (
                new_qr_size - 1) * scale && (new_qr_size - 1) * scale + scale == new_qr_size
                    * scale) by (nonlinear_arith)
                    requires
                        0 <= x < new_qr_size,
                        0 <= y < new_qr_size,
                        scale > 0,
                ;
            }
            let ghost before = image;
            let left = (x * scale) + border_size;
            let top = (y * scale) + border_size;
            if qrcode.get_module(x, y) {
                image.fill_rect(left, top, scale as u32, scale as u32, 0, 255);
            } else {
                image.fill_rect(left, top, scale as u32, scale as u32, 255, 255);
            }
            proof {
                assert forall|px: int, py: int|
                    #![trigger canvas_pixels(image)[(px, py)]]
                    #![trigger canvas_pixels(image).dom().contains((px, py))]
                    0 <= px < side && 0 <= py < side implies canvas_pixels(image).dom().contains(
                    (px, py),
                ) && canvas_pixels(image)[(px, py)] == drawn_pixel(
                    sym,
                    scale as int,
                    border_size as int,
                    x + 1,
                    y as int,
                    px,
                    py,
                ) by {
                    lemma_stretch(px - border_size, scale as int, x as int);
                    lemma_stretch(py - border_size, scale as int, y as int);
                    assert(canvas_pixels(before)[(px, py)] == drawn_pixel(
                        sym,
                        scale as int,
                        border_size as int,
                        x as int,
                        y as int,
                        px,
                        py,
                    ));
                }
            }
            x += 1;
        }
        proof {
            assert forall|px: int, py: int|
                #![trigger canvas_pixels(image)[(px, py)]]
                #![trigger canvas_pixels(image).dom().contains((px, py))]
                0 <= px < side && 0 <= py < side implies canvas_pixels(image).dom().contains(
                (px, py),
            ) && canvas_pixels(image)[(px, py)] == drawn_pixel(
                sym,
                scale as int,
                border_size as int,
                0,
                y + 1,
                px,
                py,
            ) by {
                assert(canvas_pixels(image)[(px, py)] == drawn_pixel(
                    sym,
                    scale as int,
                    border_size as int,
                    x as int,
                    y as int,
                    px,
                    py,
                ));
            }
        }
        y += 1;
    }
    proof {
        assert forall|px: int, py: int|
            #![trigger canvas_pixels(image)[(px, py)]]
            #![trigger canvas_pixels(image).dom().contains((px, py))]
            0 <= px < canvas_width(image) && 0 <= py < canvas_height(image) implies canvas_pixels(
            image,
        ).dom().contains((px, py)) && canvas_pixels(image)[(px, py)] == image_pixel(
            sym,
            scale as int,
            border_size as int,
            px,
            py,
        ) by {
            assert(canvas_pixels(image)[(px, py)] == drawn_pixel(
                sym,
                scale as int,
                border_size as int,
                0,
                y as int,
                px,
                py,
            ));
        }
    }
    image
}

/// [`make_image`] for any scale and border: `None` where the image cannot be drawn.
pub fn try_make_image(qrcode: &QrCode, scale: i32, border_size: i32) -> (res: Option<Canvas>)
    ensures
        res is Some <==> can_make_image(symbol_of(*qrcode), scale as int, border_size as int),
        res is Some ==> is_image_of(
            res->0,
            symbol_of(*qrcode),
            scale as int,
            border_size as int,
        ),
{
    if image_fits(qrcode, scale, border_size) {
        Some(make_image(qrcode, scale, border_size))
    } else {
        None
    }
}

} // verus!
