//! Camera frames: planar YUV 4:2:0 as it leaves the camera, packed RGB as it is published.

use vstd::prelude::*;

verus! {

/// Width of a published frame in pixels.
pub const FRAME_WIDTH: u32 = 1920;

/// Height of a published frame in pixels.
pub const FRAME_HEIGHT: u32 = 1080;

/// Bytes per row of a chroma plane.
pub const CHROMA_STRIDE: u32 = 960;

/// Bytes per row of a published frame.
pub const RGB_STRIDE: u32 = 5760;

/// Bytes in a published frame.
pub const RGB_LEN: usize = 6_220_800;

/// How the samples of an image encode its colours.
#[derive(Clone, Copy, Debug, PartialEq, Eq, Structural)]
pub enum ColorEncoding {
    /// The matrix of BT.601, with luma from 16 for black to 235 for white.
    Bt601Limited,
}

impl ColorEncoding {
    /// The greatest luma sample that is black.
    pub open spec fn black(self) -> int {
        match self {
            ColorEncoding::Bt601Limited => 16,
        }
    }

    /// The least luma sample that is white.
    pub open spec fn white(self) -> int {
        match self {
            ColorEncoding::Bt601Limited => 235,
        }
    }

    /// How the red channel is mixed.
    pub open spec fn red(self) -> Mix {
        match self {
            ColorEncoding::Bt601Limited => Mix { y: 9539, u: 0, v: 13075 },
        }
    }

    /// How the green channel is mixed.
    pub open spec fn green(self) -> Mix {
        match self {
            ColorEncoding::Bt601Limited => Mix { y: 9539, u: -3209, v: -6660 },
        }
    }

    /// How the blue channel is mixed.
    pub open spec fn blue(self) -> Mix {
        match self {
            ColorEncoding::Bt601Limited => Mix { y: 9539, u: 16525, v: 0 },
        }
    }
}

/// A planar YUV 4:2:0 image: one chroma sample of each kind for every block of two by two pixels.
pub struct PlanarImage<'a> {
    pub width: u32,
    pub height: u32,
    pub y_plane: &'a [u8],
    pub u_plane: &'a [u8],
    pub v_plane: &'a [u8],
    pub y_stride: u32,
    pub u_stride: u32,
    pub v_stride: u32,
}

impl<'a> PlanarImage<'a> {
    /// Rows follow each other without padding, and every chroma sample covers four pixels.
    pub open spec fn packed(&self) -> bool {
        &&& 0 < self.width
        &&& 0 < self.height
        &&& self.width % 2 == 0
        &&& self.height % 2 == 0
        &&& self.y_stride == self.width
        &&& self.u_stride == self.width / 2
        &&& self.v_stride == self.width / 2
        &&& 3 * self.width * self.height <= 0x7fff_ffff
    }

    /// Each plane holds a sample for each place of the image.
    pub open spec fn filled(&self) -> bool {
        planes_filled(
            self.width as int,
            self.height as int,
            self.y_plane@,
            self.u_plane@,
            self.v_plane@,
        )
    }
}

/// The planes of an image of the given size hold a sample for each of its places.
pub open spec fn planes_filled(
    width: int,
    height: int,
    y_plane: Seq<u8>,
    u_plane: Seq<u8>,
    v_plane: Seq<u8>,
) -> bool {
    &&& y_plane.len() >= width * height
    &&& u_plane.len() >= (width / 2) * (height / 2)
    &&& v_plane.len() >= (width / 2) * (height / 2)
}

/// How one channel is mixed from the samples of a pixel: the weights of luma and of the two chroma
/// samples, in units of 1/8192.
pub struct Mix {
    pub y: int,
    pub u: int,
    pub v: int,
}

impl Mix {
    /// The channel that `luma` above black and the two chroma samples mix to, in units of 1/8192
    /// and kept between black and full intensity.
    pub open spec fn level(self, luma: int, u: u8, v: u8) -> int {
        let exact = self.y * luma + self.u * (u - 128) + self.v * (v - 128);
        if exact < 0 {
            0
        } else if exact > 2_088_960 {
            2_088_960
        } else {
            exact
        }
    }

    /// The channel `c` is the mix of the samples to within four steps. A sample below black may
    /// count as it stands or as black.
    pub open spec fn admits(self, encoding: ColorEncoding, y: u8, u: u8, v: u8, c: u8) -> bool {
        let luma = y - encoding.black();
        let floor = if luma < 0 {
            0
        } else {
            luma
        };
        self.level(luma, u, v) - 4 * 8192 <= 8192 * c <= self.level(floor, u, v) + 4 * 8192
    }
}

/// What the colour `(r, g, b)` of a pixel owes to its samples: each channel is mixed from them,
/// and where both chroma samples are neutral the pixel is grey, black up to the black level and
/// white from the white level on.
pub open spec fn pixel_agrees(
    encoding: ColorEncoding,
    y: u8,
    u: u8,
    v: u8,
    r: u8,
    g: u8,
    b: u8,
) -> bool {
    &&& encoding.red().admits(encoding, y, u, v, r)
    &&& encoding.green().admits(encoding, y, u, v, g)
    &&& encoding.blue().admits(encoding, y, u, v, b)
    &&& u == 128 && v == 128 ==> r == g && g == b
    &&& u == 128 && v == 128 && y <= encoding.black() ==> r == 0
    &&& u == 128 && v == 128 && y >= encoding.white() ==> r == 255
}

/// Every pixel of the packed RGB image `rgb` agrees with its samples in the packed planes.
pub open spec fn rgb_agrees(
    width: int,
    height: int,
    y_plane: Seq<u8>,
    u_plane: Seq<u8>,
    v_plane: Seq<u8>,
    encoding: ColorEncoding,
    rgb: Seq<u8>,
) -> bool {
    forall|row: int, col: int|
        0 <= row < height && 0 <= col < width ==> #[trigger] pixel_agrees(
            encoding,
            y_plane[row * width + col],
            u_plane[(row / 2) * (width / 2) + col / 2],
            v_plane[(row / 2) * (width / 2) + col / 2],
            rgb[3 * (row * width + col)],
            rgb[3 * (row * width + col) + 1],
            rgb[3 * (row * width + col) + 2],
        )
}

/// The error of the colour conversion.
#[verifier::external_type_specification]
#[verifier::external_body]
pub struct ExYuvError(yuvutils_rs::YuvError);

/// Calls `yuvutils_rs::yuv420_to_rgb`. It succeeds exactly when the planes and the destination
/// are large enough; it refuses before it writes anything, and never changes the length of the
/// destination. On success every pixel agrees with its samples as [`pixel_agrees`] says. The
/// colours are not stated closer than that: how a channel is rounded, and whether luma below black
/// is cut off first, depends on the vector instructions that the processor offers.
#[verifier::external_body]
fn yuv420_to_rgb(
    image: &PlanarImage,
    rgb: &mut Vec<u8>,
    rgb_stride: u32,
    encoding: ColorEncoding,
) -> (result: Result<(), yuvutils_rs::YuvError>)
    requires
        image.packed(),
        rgb_stride == 3 * image.width,
    ensures
        result is Ok <==> image.filled() && old(rgb)@.len() >= 3 * image.width * image.height,
        final(rgb)@.len() == old(rgb)@.len(),
        result is Err ==> final(rgb)@ == old(rgb)@,
        result is Ok ==> rgb_agrees(
            image.width as int,
            image.height as int,
            image.y_plane@,
            image.u_plane@,
            image.v_plane@,
            encoding,
            final(rgb)@,
        ),
{
    let source = yuvutils_rs::YuvPlanarImage {
        width: image.width, height: image.height,
        y_plane: image.y_plane, u_plane: image.u_plane, v_plane: image.v_plane,
        y_stride: image.y_stride, u_stride: image.u_stride, v_stride: image.v_stride,
    };
    let (range, matrix) = match encoding {
        ColorEncoding::Bt601Limited => (
            yuvutils_rs::YuvRange::Limited,
            yuvutils_rs::YuvStandardMatrix::Bt601,
        ),
    };
    yuvutils_rs::yuv420_to_rgb(&source, rgb.as_mut_slice(), rgb_stride, range, matrix)
}

/// The planes of a camera buffer hold a whole frame.
pub open spec fn whole_frame(planes: Seq<&[u8]>) -> bool {
    planes.len() >= 3 && planes_filled(
        FRAME_WIDTH as int,
        FRAME_HEIGHT as int,
        planes[0]@,
        planes[1]@,
        planes[2]@,
    )
}

/// The published frame `rgb` agrees with the planes that it was made of.
pub open spec fn shows(planes: Seq<&[u8]>, rgb: Seq<u8>) -> bool {
    &&& rgb.len() == RGB_LEN
    &&& rgb_agrees(
        FRAME_WIDTH as int,
        FRAME_HEIGHT as int,
        planes[0]@,
        planes[1]@,
        planes[2]@,
        ColorEncoding::Bt601Limited,
        rgb,
    )
}

/// A frame is whole if and only if there is a luma sample for each pixel of 1920 by 1080 and a
/// sample of either chroma for each block of two by two of them. What else a buffer holds does not
/// matter.
pub proof fn law_whole_frame_has_all_samples(planes: Seq<&[u8]>)
    ensures
        whole_frame(planes) <==> planes.len() >= 3 && planes[0]@.len() >= 1920 * 1080
            && planes[1]@.len() >= 960 * 540 && planes[2]@.len() >= 960 * 540,
{
}

/// What a published frame shows at each place: each channel is within four steps of the mix of the
/// luma sample of the place, from the first plane, and of the chroma samples of its block, from the
/// second and the third plane, by the weights of BT.601 in units of 1/8192, cut off at black and at
/// full intensity. Luma below black counts as it stands or as black. Without colour the pixel is grey, black up to luma 16 and white from luma 235 on.
pub proof fn law_pixels_are_mixed_from_their_samples(
    planes: Seq<&[u8]>,
    rgb: Seq<u8>,
    row: int,
    col: int,
)
    requires
        shows(planes, rgb),
        0 <= row < 1080,
        0 <= col < 1920,
    ensures
        rgb.len() == 3 * 1920 * 1080,
        ({
            let at = 1920 * row + col;
            let block = 960 * (row / 2) + col / 2;
            let y = planes[0]@[at] as int;
            let u = planes[1]@[block] as int - 128;
            let v = planes[2]@[block] as int - 128;
            let floor = if y < 16 {
                0
            } else {
                y - 16
            };
            let (r, g, b) = (rgb[3 * at] as int, rgb[3 * at + 1] as int, rgb[3 * at + 2] as int);
            &&& r >= 251 || 9539 * (y - 16) + 13075 * v <= 8192 * (r + 4)
            &&& r <= 4 || 8192 * (r - 4) <= 9539 * floor + 13075 * v
            &&& g >= 251 || 9539 * (y - 16) - 3209 * u - 6660 * v <= 8192 * (g + 4)
            &&& g <= 4 || 8192 * (g - 4) <= 9539 * floor - 3209 * u - 6660 * v
            &&& b >= 251 || 9539 * (y - 16) + 16525 * u <= 8192 * (b + 4)
            &&& b <= 4 || 8192 * (b - 4) <= 9539 * floor + 16525 * u
            &&& u == 0 && v == 0 ==> r == g && g == b
            &&& u == 0 && v == 0 && y <= 16 ==> r == 0
            &&& u == 0 && v == 0 && y >= 235 ==> r == 255
        }),
{
    assert(pixel_agrees(
        ColorEncoding::Bt601Limited,
        planes[0]@[row * 1920 + col],
        planes[1]@[(row / 2) * (1920int / 2) + col / 2],
        planes[2]@[(row / 2) * (1920int / 2) + col / 2],
        rgb[3 * (row * 1920 + col)],
        rgb[3 * (row * 1920 + col) + 1],
        rgb[3 * (row * 1920 + col) + 2],
    ));
}

/// Whether the planes of a camera buffer hold a whole frame.
pub fn is_whole_frame(planes: &Vec<&[u8]>) -> (whole: bool)
    ensures
        whole == whole_frame(planes@),
        whole <==> planes@.len() >= 3 && planes@[0]@.len() >= 1920 * 1080 && planes@[1]@.len() >= 960
            * 540 && planes@[2]@.len() >= 960 * 540,
{
    planes.len() >= 3 && planes[0].len() >= 2_073_600 && planes[1].len() >= 518_400
        && planes[2].len() >= 518_400
}

/// The packed RGB frame of a camera buffer whose planes hold a whole frame.
pub fn frame_to_rgb(planes: &Vec<&[u8]>) -> (rgb: Vec<u8>)
    requires
        whole_frame(planes@),
    ensures
        shows(planes@, rgb@),
        rgb@.len() == 3 * 1920 * 1080,
{
    let image = PlanarImage {
        width: FRAME_WIDTH,
        height: FRAME_HEIGHT,
        y_plane: planes[0],
        u_plane: planes[1],
        v_plane: planes[2],
        y_stride: FRAME_WIDTH,
        u_stride: CHROMA_STRIDE,
        v_stride: CHROMA_STRIDE,
    };
    let mut rgb: Vec<u8> = vec![0u8; RGB_LEN];
    let converted = yuv420_to_rgb(
        &image,
        &mut rgb,
        RGB_STRIDE,
        ColorEncoding::Bt601Limited,
    );
    assert(converted is Ok);
    rgb
}

} // verus!
