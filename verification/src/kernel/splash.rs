use vstd::prelude::*;

verus! {

/// Bytes of the BMP file header.
pub const BMP_FILE_HEADER_SIZE: usize = 14;
/// Bytes of the BMP information header.
pub const BMP_INFO_HEADER_SIZE: usize = 40;

/// The little-endian 32-bit word at `off` of `s`, as a signed value.
pub open spec fn le_i32_at(s: Seq<u8>, off: int) -> i32 {
    ((s[off] as u32) | ((s[off + 1] as u32) << 8u32) | ((s[off + 2] as u32) << 16u32) | ((s[off + 3] as u32) << 24u32)) as i32
}

fn read_i32(b: &[u8], off: usize) -> (r: i32)
    requires
        off + 4 <= b@.len(),
    ensures
        r == le_i32_at(b@, off as int),
{
    ((b[off] as u32) | ((b[off + 1] as u32) << 8u32) | ((b[off + 2] as u32) << 16u32) | ((b[off + 3] as u32) << 24u32)) as i32
}

/// How the rows of a splash image are read: `height` rows of `row_size` bytes from
/// byte `offset` of the file, each of `width` 32-bit pixels.
#[derive(Debug, Clone, Copy, PartialEq, Eq, Structural)]
pub struct BmpLayout {
    pub width: i32,
    pub height: i32,
    pub row_size: usize,
    pub offset: i32,
}

/// The layout of the image whose file header is `file_header` and information header
/// `info_header`: `None` when the magic is not `BM`, a size is not positive, the offset
/// is negative, or one row is larger than the image.
pub open spec fn bmp_layout_spec(file_header: Seq<u8>, info_header: Seq<u8>) -> Option<BmpLayout> {
    let width = le_i32_at(info_header, 4);
    let height = le_i32_at(info_header, 8);
    let image_size = le_i32_at(info_header, 20);
    let offset = le_i32_at(file_header, 10);
    if file_header[0] != 0x42 || file_header[1] != 0x4d {
        None
    } else if width <= 0 || height <= 0 || image_size <= 0 || offset < 0 {
        None
    } else if width * 4 > image_size {
        None
    } else {
        Some(BmpLayout { width, height, row_size: (width * 4) as usize, offset })
    }
}

/// Reads the layout of a splash image from its two headers (see `bmp_layout_spec`);
/// `None` also when a header is short.
pub fn bmp_layout(file_header: &[u8], info_header: &[u8]) -> (r: Option<BmpLayout>)
    ensures
        (file_header@.len() < BMP_FILE_HEADER_SIZE || info_header@.len() < BMP_INFO_HEADER_SIZE) ==> r is None,
        (file_header@.len() >= BMP_FILE_HEADER_SIZE && info_header@.len() >= BMP_INFO_HEADER_SIZE) ==> r == bmp_layout_spec(file_header@, info_header@),
{
    if file_header.len() < BMP_FILE_HEADER_SIZE || info_header.len() < BMP_INFO_HEADER_SIZE {
        return None;
    }
    if file_header[0] != 0x42 || file_header[1] != 0x4d {
        return None;
    }
    let width = read_i32(info_header, 4);
    let height = read_i32(info_header, 8);
    let image_size = read_i32(info_header, 20);
    let offset = read_i32(file_header, 10);
    if width <= 0 || height <= 0 || image_size <= 0 || offset < 0 {
        return None;
    }
    let row_bytes: u64 = (width as u64) * 4;
    if row_bytes > image_size as u64 {
        return None;
    }
    let row_size: usize = row_bytes as usize;
    Some(BmpLayout { width, height, row_size, offset })
}

/// The screen row of image row `row` (rows are stored bottom-up).
pub fn row_y(height: i32, row: i32) -> (r: i32)
    requires
        0 <= row < height,
    ensures
        r == height - row,
{
    height - row
}

/// The `width` pixels of a row of BGRA bytes, as little-endian 32-bit values.
pub fn bgra_row(row: &[u8], width: i32) -> (r: Vec<i32>)
    requires
        0 <= width,
        width * 4 <= row@.len(),
    ensures
        r@.len() == width,
        forall|w: int| 0 <= w < width ==> #[trigger] r@[w] == le_i32_at(row@, 4 * w),
{
    let mut r: Vec<i32> = Vec::new();
    let len: usize = row.len();
    let mut w: i32 = 0;
    while w < width
        invariant
            0 <= w <= width,
            width * 4 <= row@.len(),
            len == row@.len(),
            r@.len() == w,
            forall|k: int| 0 <= k < w ==> #[trigger] r@[k] == le_i32_at(row@, 4 * k),
        decreases width - w,
    {
        let off: usize = (w as usize) * 4;
        r.push(read_i32(row, off));
        w = w + 1;
    }
    r
}

} // verus!
