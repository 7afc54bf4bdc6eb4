//! Texture atlas layout arithmetic: how a source image is cut into texture
//! array layers.
//!
//! Only the layout computation lives here; reading image files and creating
//! GPU textures happens outside the library, driven by the extents and byte
//! offsets computed below.

use vstd::prelude::*;

verus! {

/// Order in which the cells of a texture atlas grid are numbered.
#[derive(Clone, Copy, Debug, PartialEq, Eq, Structural)]
pub enum ArrayOrder {
    _Column,
    Row,
}

/// How a source image maps onto a texture: whole, one cut-out, a grid of
/// cells, or a grid of cells with padding around each cell.
#[derive(Clone, Copy, Debug, PartialEq, Eq, Structural)]
pub enum TextureType {
    _Full,
    _Partial { x: u32, y: u32, width: u32, height: u32 },
    Grid { order: ArrayOrder, x: u32, y: u32 },
    _PaddingGrid { order: ArrayOrder, x: u32, y: u32, left: u32, right: u32, top: u32, bottom: u32 },
}

/// Rejected texture layouts.
#[derive(Clone, Copy, Debug, PartialEq, Eq, Structural)]
pub enum TextureLayoutError {
    InvalidGridLength,
    InvalidPosition,
    InvalidSize,
}

/// Byte offset of grid cell `layer` inside an RGBA source image whose cells
/// are `cell_w` by `cell_h` pixels in `cols` columns.
pub open spec fn grid_layer_offset_spec(
    order: ArrayOrder,
    cell_w: int,
    cell_h: int,
    cols: int,
    layer: int,
) -> int {
    match order {
        ArrayOrder::Row => (cell_w * (layer % cols) + cell_w * cols * cell_h * (layer / cols)) * 4,
        ArrayOrder::_Column => (cell_w * cols * cell_h * (layer % cols) + cell_w * (layer / cols))
            * 4,
    }
}

/// Byte offset where grid cell `layer` starts in the source image.
pub fn grid_layer_offset(order: &ArrayOrder, cell_w: u32, cell_h: u32, cols: u32, layer: u32) -> (r:
    u64)
    requires
        1 <= cols,
        cell_w <= 0xffff,
        cell_h <= 0xffff,
        cols <= 0xffff,
        grid_layer_offset_spec(*order, cell_w as int, cell_h as int, cols as int, layer as int)
            <= u32::MAX,
    ensures
        r as int == grid_layer_offset_spec(
            *order,
            cell_w as int,
            cell_h as int,
            cols as int,
            layer as int,
        ),
{
    let cw = cell_w as u128;
    let ch = cell_h as u128;
    let co = cols as u128;
    let l = layer as u128;
    let col_in_row: u128 = l % co;
    let row: u128 = l / co;
    proof {
        lemma_offset_products(cell_w as int, cell_h as int, cols as int, layer as int);
    }
    let v: u128 = match order {
        ArrayOrder::Row => (cw * col_in_row + cw * co * ch * row) * 4,
        ArrayOrder::_Column => (cw * co * ch * col_in_row + cw * row) * 4,
    };
    v as u64
}

proof fn lemma_offset_products(cell_w: int, cell_h: int, cols: int, layer: int)
    requires
        1 <= cols <= 0xffff,
        0 <= cell_w <= 0xffff,
        0 <= cell_h <= 0xffff,
        0 <= layer <= 0xffffffff,
    ensures
        0 <= cell_w * (layer % cols) <= 0xffff * 0xffff,
        0 <= cell_w * cols * cell_h * (layer / cols) <= 0x1000000000000 * 0x100000000,
        0 <= cell_w * cols * cell_h * (layer % cols) <= 0x1000000000000 * 0x100000000,
        0 <= cell_w * (layer / cols) <= 0xffff * 0x100000000,
        0 <= cell_w * cols && cell_w * cols <= 0xffff * 0xffff,
        0 <= cell_w * cols * cell_h <= 0x1000000000000,
        0 <= layer % cols < cols,
        0 <= layer / cols <= 0x100000000,
{
    vstd::arithmetic::div_mod::lemma_mod_bound(layer, cols);
    vstd::arithmetic::div_mod::lemma_div_pos_is_pos(layer, cols);
    vstd::arithmetic::div_mod::lemma_div_is_ordered(layer, 0xffffffff, cols);
    vstd::arithmetic::div_mod::lemma_div_is_ordered_by_denominator(0xffffffff, 1, cols);
    assert(0xffffffffint / 1int == 0xffffffff);
    assert(0 <= cell_w * (layer % cols) <= 0xffff * 0xffff) by (nonlinear_arith)
        requires
            0 <= cell_w <= 0xffff,
            0 <= layer % cols < cols <= 0xffff,
    ;
    assert(0 <= cell_w * cols && cell_w * cols <= 0xffff * 0xffff) by (nonlinear_arith)
        requires
            0 <= cell_w <= 0xffff,
            1 <= cols <= 0xffff,
    ;
    assert(0 <= cell_w * cols * cell_h <= 0x1000000000000) by (nonlinear_arith)
        requires
            0 <= cell_w * cols <= 0xffff * 0xffff,
            0 <= cell_h <= 0xffff,
    ;
    assert(0 <= cell_w * cols * cell_h * (layer / cols) <= 0x1000000000000 * 0x100000000)
        by (nonlinear_arith)
        requires
            0 <= cell_w * cols * cell_h <= 0x1000000000000,
            0 <= layer / cols <= 0x100000000,
    ;
    assert(0 <= cell_w * cols * cell_h * (layer % cols) <= 0x1000000000000 * 0x100000000)
        by (nonlinear_arith)
        requires
            0 <= cell_w * cols * cell_h <= 0x1000000000000,
            0 <= layer % cols < 0x10000,
    ;
    assert(0 <= cell_w * (layer / cols) <= 0xffff * 0x100000000) by (nonlinear_arith)
        requires
            0 <= cell_w <= 0xffff,
            0 <= layer / cols <= 0x100000000,
    ;
}

/// Pixel extent and layer count of the texture a layout describes, or the
/// reason the layout is rejected.
pub open spec fn texture_extent_spec(img_w: int, img_h: int, t: TextureType) -> Result<
    (int, int, int),
    TextureLayoutError,
> {
    match t {
        TextureType::_Full => Ok((img_w, img_h, 1int)),
        TextureType::_Partial { x, y, width, height } => {
            if x == 0 || y == 0 {
                Err(TextureLayoutError::InvalidPosition)
            } else if x + width >= img_w || y + height >= img_h {
                Err(TextureLayoutError::InvalidSize)
            } else {
                Ok((width as int, height as int, 1int))
            }
        },
        TextureType::Grid { order, x, y } => {
            if x * y == 0 {
                Err(TextureLayoutError::InvalidGridLength)
            } else {
                Ok((img_w / x as int, img_h / y as int, x * y))
            }
        },
        TextureType::_PaddingGrid { order, x, y, left, right, top, bottom } => {
            if x * y == 0 {
                Err(TextureLayoutError::InvalidGridLength)
            } else {
                Ok(
                    (
                        img_w / x as int - (left + right),
                        img_h / y as int - (top + bottom),
                        x * y,
                    ),
                )
            }
        },
    }
}

/// Whether a layout stays within the machine arithmetic the extent
/// computation uses: grid cell counts fit `u32`, and padding never exceeds
/// the cell it is cut from.
pub open spec fn texture_extent_req(img_w: int, img_h: int, t: TextureType) -> bool {
    match t {
        TextureType::Grid { order, x, y } => x * y <= u32::MAX,
        TextureType::_PaddingGrid { order, x, y, left, right, top, bottom } => {
            &&& x * y <= u32::MAX
            &&& (x * y != 0 ==> left + right <= img_w / x as int && top + bottom <= img_h
                / y as int)
        },
        _ => true,
    }
}

/// Width, height and layer count of the texture described by `t` over an
/// image of `img_w` by `img_h` pixels.
pub fn texture_grid_extent(img_w: u32, img_h: u32, t: &TextureType) -> (r: Result<
    (u32, u32, u32),
    TextureLayoutError,
>)
    requires
        texture_extent_req(img_w as int, img_h as int, *t),
    ensures
        match (r, texture_extent_spec(img_w as int, img_h as int, *t)) {
            (Ok(a), Ok(b)) => a.0 == b.0 && a.1 == b.1 && a.2 == b.2,
            (Err(e1), Err(e2)) => e1 == e2,
            _ => false,
        },
{
    match t {
        TextureType::_Full => Ok((img_w, img_h, 1)),
        TextureType::_Partial { x, y, width, height } => {
            if *x == 0 || *y == 0 {
                Err(TextureLayoutError::InvalidPosition)
            } else if *x as u64 + *width as u64 >= img_w as u64 || *y as u64 + *height as u64
                >= img_h as u64 {
                Err(TextureLayoutError::InvalidSize)
            } else {
                Ok((*width, *height, 1))
            }
        },
        TextureType::Grid { order: _, x, y } => {
            let length: u64 = *x as u64 * *y as u64;
            if length == 0 {
                Err(TextureLayoutError::InvalidGridLength)
            } else {
                Ok((img_w / *x, img_h / *y, length as u32))
            }
        },
        TextureType::_PaddingGrid { order: _, x, y, left, right, top, bottom } => {
            let length: u64 = *x as u64 * *y as u64;
            if length == 0 {
                Err(TextureLayoutError::InvalidGridLength)
            } else {
                Ok((img_w / *x - (*left + *right), img_h / *y - (*top + *bottom), length as u32))
            }
        },
    }
}

} // verus!
