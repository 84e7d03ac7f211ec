//! The six background images of a scene, decoded.

use vstd::prelude::*;
use crate::error::{FormatFault, LoadError};
use crate::wire::{CompressedImgData, SkyboxCompressed};

verus! {

/// The number that PNG gives to the colour type of red, green and blue.
pub const PNG_RGB: u8 = 2;

/// The number that PNG gives to the colour type of red, green, blue and alpha.
pub const PNG_RGBA: u8 = 6;

/// The size of a pixel of red, green and blue bytes.
pub const RGB_BYTES: usize = 3;

/// The tallest JPEG image that is handed to the decoder. The decoder counts
/// rows of eight lines in sixteen bits, and a taller image takes the count
/// past what sixteen bits hold.
pub const JPEG_MAX_HEIGHT: u16 = 65528;

/// A PNG image as its decoder hands it out: the pixels, and from the
/// description of the output the size and the numbers that PNG gives to the
/// colour type and to the bit depth.
pub struct PngFrame {
    pub pixels: Vec<u8>,
    pub width: u32,
    pub height: u32,
    pub color_type: u8,
    pub bit_depth: u8,
}

/// A JPEG image as its decoder hands it out: the pixels and, where the
/// decoder has a description, the size and the number of bytes of a pixel.
pub struct JpegFrame {
    pub pixels: Vec<u8>,
    pub info: Option<(u16, u16, usize)>,
}

/// What the PNG decoder makes of `data`: nothing where it refuses them, else
/// pixels, width, height, colour type and bit depth.
pub uninterp spec fn png_decoding(data: Seq<u8>) -> Option<(Seq<u8>, u32, u32, u8, u8)>;

/// What the JPEG decoder makes of `data` where it has the means to work:
/// nothing where it refuses them, else pixels and, where it has a
/// description, width, height and bytes per pixel.
pub uninterp spec fn jpeg_decoding(data: Seq<u8>) -> Option<(Seq<u8>, Option<(u16, u16, usize)>)>;

/// What the JPEG decoder reads from the head of `data` before it decodes
/// anything: nothing where it finds no description of a frame, else width,
/// height and bytes per pixel.
pub uninterp spec fn jpeg_heading(data: Seq<u8>) -> Option<(u16, u16, usize)>;

/// Whether `data` describe a JPEG image taller than is handed to the decoder.
pub open spec fn too_tall(data: Seq<u8>) -> bool {
    jpeg_heading(data) matches Some((_, height, _)) && height > JPEG_MAX_HEIGHT
}

/// The side of the cube on which a background image is shown.
#[derive(Clone, Copy, PartialEq, Eq, Debug, Hash)]
pub enum TextureBindPoint {
    Texture2d,
    TextureCubeMapPositiveX,
    TextureCubeMapNegativeX,
    TextureCubeMapPositiveY,
    TextureCubeMapNegativeY,
    TextureCubeMapPositiveZ,
    TextureCubeMapNegativeZ,
}

/// A decoded image.
#[derive(Clone, PartialEq, Eq, Debug)]
pub struct ImgData {
    data: Vec<u8>,
    width: u32,
    height: u32,
    alpha: bool,
    eight_bit_channels: bool,
}

/// What a decoded image holds.
pub struct ImgView {
    pub data: Seq<u8>,
    pub width: u32,
    pub height: u32,
    pub alpha: bool,
    pub eight_bit_channels: bool,
}

/// The six decoded background images.
#[derive(Clone, PartialEq, Eq, Debug)]
pub struct Skybox {
    images: [ImgData; 6],
}

/// A pass over the images of a skybox, each with the side it belongs to.
pub struct SkyboxImgIter<'a> {
    skybox: &'a Skybox,
    i: usize,
}

/// The side of the cube that slot `i` is shown on.
pub open spec fn bind_point(i: int) -> TextureBindPoint {
    if i == 0 {
        TextureBindPoint::TextureCubeMapPositiveX
    } else if i == 1 {
        TextureBindPoint::TextureCubeMapNegativeX
    } else if i == 2 {
        TextureBindPoint::TextureCubeMapPositiveY
    } else if i == 3 {
        TextureBindPoint::TextureCubeMapNegativeY
    } else if i == 4 {
        TextureBindPoint::TextureCubeMapPositiveZ
    } else {
        TextureBindPoint::TextureCubeMapNegativeZ
    }
}

impl View for ImgData {
    type V = ImgView;

    closed spec fn view(&self) -> ImgView {
        ImgView {
            data: self.data@,
            width: self.width,
            height: self.height,
            alpha: self.alpha,
            eight_bit_channels: self.eight_bit_channels,
        }
    }
}

impl ImgData {
    pub fn new(data: Vec<u8>, width: u32, height: u32, alpha: bool, eight_bit_channels: bool) -> (img: Self)
        ensures
            img@ == (ImgView { data: data@, width, height, alpha, eight_bit_channels }),
    {
        Self { data, width, height, alpha, eight_bit_channels }
    }

    pub fn has_eight_bit_channels(&self) -> (r: bool)
        ensures
            r == self@.eight_bit_channels,
    {
        self.eight_bit_channels
    }

    pub fn has_alpha(&self) -> (r: bool)
        ensures
            r == self@.alpha,
    {
        self.alpha
    }

    pub fn get_width(&self) -> (r: u32)
        ensures
            r == self@.width,
    {
        self.width
    }

    pub fn get_height(&self) -> (r: u32)
        ensures
            r == self@.height,
    {
        self.height
    }

    pub fn get_data(&self) -> (r: &Vec<u8>)
        ensures
            r@ == self@.data,
    {
        &self.data
    }
}

impl Default for ImgData {
    /// The empty image.
    fn default() -> (img: Self)
        ensures
            img@ == (ImgView {
                data: Seq::<u8>::empty(),
                width: 0,
                height: 0,
                alpha: false,
                eight_bit_channels: false,
            }),
    {
        Self { data: Vec::new(), width: 0, height: 0, alpha: false, eight_bit_channels: false }
    }
}

impl PngFrame {
    pub open spec fn outcome(self) -> (Seq<u8>, u32, u32, u8, u8) {
        (self.pixels@, self.width, self.height, self.color_type, self.bit_depth)
    }
}

impl JpegFrame {
    pub open spec fn outcome(self) -> (Seq<u8>, Option<(u16, u16, usize)>) {
        (self.pixels@, self.info)
    }
}

/// `png::Decoder::new` on the bytes, then `read_info` and `next_frame` into a
/// buffer of the size that the description asks for. The result is the
/// decoder's error or what `png_decoding` names: the same bytes decode to the
/// same frame.
#[verifier::external_body]
fn png_decode(data: &Vec<u8>) -> (r: Result<PngFrame, png::DecodingError>)
    ensures
        r.is_ok() == png_decoding(data@).is_some(),
        r.is_ok() ==> r.unwrap().outcome() == png_decoding(data@).unwrap(),
{
    let (info, mut reader) = png::Decoder::new(data.as_slice()).read_info()?;
    let mut pixels = vec![0u8; info.buffer_size()];
    reader.next_frame(&mut pixels)?;
    let (color_type, bit_depth) = (info.color_type as u8, info.bit_depth as u8);
    Ok(PngFrame { pixels, width: info.width, height: info.height, color_type, bit_depth })
}

/// `jpeg_decoder::Decoder::new` on the bytes, then `read_info` and `info`,
/// the pixel format given by `pixel_bytes`: what `jpeg_heading` names. The
/// decoder reads up to the description of the frame and starts no thread
/// before it, so the same bytes give the same heading.
#[verifier::external_body]
fn jpeg_read_info(data: &Vec<u8>) -> (r: Option<(u16, u16, usize)>)
    ensures
        r == jpeg_heading(data@),
{
    let mut decoder = jpeg_decoder::Decoder::new(data.as_slice());
    let _ = decoder.read_info();
    decoder.info().map(|i| (i.width, i.height, i.pixel_format.pixel_bytes()))
}

/// `jpeg_decoder::Decoder::new` on the bytes, then `decode` and `info`, the
/// pixel format given by `pixel_bytes`. An image taller than
/// `JPEG_MAX_HEIGHT` is left out: on one the decoder's count of rows may
/// overflow. A frame that comes back is the one
/// that `jpeg_decoding` names, and bytes for which it names none are refused.
/// The decoder works with threads of its own, so it may also fail on bytes
/// that it can decode: an error is possible on any input. Should one of its
/// threads die, the decoder panics; no input is known that kills one.
#[verifier::external_body]
fn jpeg_decode(data: &Vec<u8>) -> (r: Result<JpegFrame, jpeg_decoder::Error>)
    requires
        !too_tall(data@),
    ensures
        r matches Ok(frame) ==> jpeg_decoding(data@) == Some(frame.outcome()),
        jpeg_decoding(data@).is_none() ==> r.is_err(),
{
    let mut decoder = jpeg_decoder::Decoder::new(data.as_slice());
    let pixels = decoder.decode()?;
    let info = decoder.info().map(|i| (i.width, i.height, i.pixel_format.pixel_bytes()));
    Ok(JpegFrame { pixels, info })
}

/// `jpeg_decoder::Error::Format` with `text` as its description.
#[verifier::external_body]
fn jpeg_format_error(text: &str) -> (e: jpeg_decoder::Error) {
    jpeg_decoder::Error::Format(text.to_owned())
}

/// What a load can fail on, apart from the slot.
pub enum Fault {
    Missing,
    Format(FormatFault),
    PngDecoder,
    JpegDecoder,
}

/// What `e` is a failure on.
pub open spec fn fault_of(e: LoadError) -> Fault {
    match e {
        LoadError::MissingImageData(_) => Fault::Missing,
        LoadError::UnsupportedFormat(_, fault) => Fault::Format(fault),
        LoadError::Png(_, _) => Fault::PngDecoder,
        LoadError::Jpeg(_, _) => Fault::JpegDecoder,
    }
}

/// What a decoded PNG image becomes: it has to be RGB or RGBA, with 8 or 16
/// bits per channel.
pub open spec fn png_image_spec(frame: (Seq<u8>, u32, u32, u8, u8)) -> Result<ImgView, Fault> {
    if frame.3 != PNG_RGB && frame.3 != PNG_RGBA {
        Err(Fault::Format(FormatFault::ColorType))
    } else if frame.4 != 8 && frame.4 != 16 {
        Err(Fault::Format(FormatFault::BitDepth))
    } else {
        Ok(
            ImgView {
                data: frame.0,
                width: frame.1,
                height: frame.2,
                alpha: frame.3 == PNG_RGBA,
                eight_bit_channels: frame.4 == 8,
            },
        )
    }
}

/// What a decoded JPEG image becomes: it has to have a description, else it
/// counts as refused by the decoder, and pixels of three bytes.
pub open spec fn jpeg_image_spec(frame: (Seq<u8>, Option<(u16, u16, usize)>)) -> Result<
    ImgView,
    Fault,
> {
    match frame.1 {
        None => Err(Fault::JpegDecoder),
        Some((width, height, pixel_bytes)) => if pixel_bytes != RGB_BYTES {
            Err(Fault::Format(FormatFault::PixelFormat))
        } else {
            Ok(
                ImgView {
                    data: frame.0,
                    width: width as u32,
                    height: height as u32,
                    alpha: false,
                    eight_bit_channels: true,
                },
            )
        },
    }
}

/// What the content of a slot becomes where its decoder has the means to work.
pub open spec fn slot_outcome(content: CompressedImgData) -> Result<ImgView, Fault> {
    match content {
        CompressedImgData::NoData => Err(Fault::Missing),
        CompressedImgData::Png(data) => match png_decoding(data@) {
            None => Err(Fault::PngDecoder),
            Some(frame) => png_image_spec(frame),
        },
        CompressedImgData::Jpeg(data) => if too_tall(data@) {
            Err(Fault::Format(FormatFault::JpegHeight))
        } else {
            match jpeg_decoding(data@) {
                None => Err(Fault::JpegDecoder),
                Some(frame) => jpeg_image_spec(frame),
            }
        },
    }
}

/// Whether decoding `content` calls a decoder that may fail of itself: the
/// JPEG decoder, on an image that is not too tall for it.
pub open spec fn decoder_may_fail(content: CompressedImgData) -> bool {
    content matches CompressedImgData::Jpeg(data) && !too_tall(data@)
}

/// Whether `r` is the outcome `expected` for slot `slot`: the image, or a
/// failure of that kind on that slot.
pub open spec fn is_outcome(r: Result<ImgData, LoadError>, expected: Result<ImgView, Fault>, slot: int) -> bool {
    match expected {
        Ok(view) => r.is_ok() && r.unwrap()@ == view,
        Err(fault) => r.is_err() && r.unwrap_err().slot() == slot && fault_of(r.unwrap_err())
            == fault,
    }
}

/// Whether `r` is what decoding `content` in slot `slot` may give: what the
/// content becomes, or else, for a JPEG image, a failure of the decoder.
pub open spec fn is_slot_outcome(r: Result<ImgData, LoadError>, content: CompressedImgData, slot: int) -> bool {
    ||| is_outcome(r, slot_outcome(content), slot)
    ||| decoder_may_fail(content) && is_outcome(r, Err(Fault::JpegDecoder), slot)
}

/// The first slot from `from` on whose content does not become an image, or
/// the number of slots where there is none.
pub open spec fn first_failure(images: Seq<CompressedImgData>, from: int) -> int
    decreases images.len() - from,
{
    if from < 0 || from >= images.len() {
        images.len() as int
    } else if slot_outcome(images[from]).is_err() {
        from
    } else {
        first_failure(images, from + 1)
    }
}

/// Whether `r` is what loading `images` may give. The images come back only
/// where every slot becomes an image, and then they are those images. A
/// failure is that of the first slot that does not become an image, or else
/// a failure of the decoder on a JPEG slot before it.
pub open spec fn is_skybox_outcome(r: Result<Skybox, LoadError>, images: Seq<CompressedImgData>) -> bool {
    let bad = first_failure(images, 0);
    match r {
        Ok(skybox) => {
            &&& bad >= images.len()
            &&& skybox.images().len() == images.len()
            &&& forall|i: int|
                0 <= i < images.len() ==> Ok::<ImgView, Fault>((#[trigger] skybox.images()[i])@)
                    == slot_outcome(images[i])
        },
        Err(e) => {
            &&& 0 <= e.slot() < images.len()
            &&& e.slot() <= bad
            &&& {
                ||| Err::<ImgView, Fault>(fault_of(e)) == slot_outcome(images[e.slot()])
                ||| decoder_may_fail(images[e.slot()]) && fault_of(e) == Fault::JpegDecoder
            }
        },
    }
}

/// The image of slot `slot` from a decoded PNG image.
pub fn png_image(frame: PngFrame, slot: usize) -> (r: Result<ImgData, LoadError>)
    ensures
        is_outcome(r, png_image_spec(frame.outcome()), slot as int),
{
    let alpha = if frame.color_type == PNG_RGB {
        false
    } else if frame.color_type == PNG_RGBA {
        true
    } else {
        return Err(LoadError::UnsupportedFormat(slot, FormatFault::ColorType));
    };
    let eight_bit_channels = if frame.bit_depth == 8 {
        true
    } else if frame.bit_depth == 16 {
        false
    } else {
        return Err(LoadError::UnsupportedFormat(slot, FormatFault::BitDepth));
    };
    Ok(ImgData::new(frame.pixels, frame.width, frame.height, alpha, eight_bit_channels))
}

/// The image of slot `slot` from a decoded JPEG image.
pub fn jpeg_image(frame: JpegFrame, slot: usize) -> (r: Result<ImgData, LoadError>)
    ensures
        is_outcome(r, jpeg_image_spec(frame.outcome()), slot as int),
{
    match frame.info {
        None => Err(
            LoadError::Jpeg(slot, jpeg_format_error("Could not read JPEG info of skybox image")),
        ),
        Some((width, height, pixel_bytes)) => {
            if pixel_bytes != RGB_BYTES {
                return Err(LoadError::UnsupportedFormat(slot, FormatFault::PixelFormat));
            }
            Ok(ImgData::new(frame.pixels, width as u32, height as u32, false, true))
        },
    }
}

/// Decodes the content of slot `slot`. An empty slot is a failure; so is an
/// image that its decoder refuses, or one in a form that is not supported.
/// A JPEG image taller than `JPEG_MAX_HEIGHT` is not handed to the decoder;
/// on any other JPEG image the decoder may fail whatever the bytes are.
pub fn decode_slot(content: &CompressedImgData, slot: usize) -> (r: Result<ImgData, LoadError>)
    ensures
        is_slot_outcome(r, *content, slot as int),
        *content is NoData ==> r == Err::<ImgData, LoadError>(LoadError::MissingImageData(slot)),
{
    match content {
        CompressedImgData::NoData => Err(LoadError::MissingImageData(slot)),
        CompressedImgData::Png(data) => {
            match png_decode(data) {
                Err(e) => Err(LoadError::Png(slot, e)),
                Ok(frame) => png_image(frame, slot),
            }
        },
        CompressedImgData::Jpeg(data) => {
            if let Some((_, height, _)) = jpeg_read_info(data) {
                if height > JPEG_MAX_HEIGHT {
                    return Err(LoadError::UnsupportedFormat(slot, FormatFault::JpegHeight));
                }
            }
            match jpeg_decode(data) {
                Err(e) => Err(LoadError::Jpeg(slot, e)),
                Ok(frame) => jpeg_image(frame, slot),
            }
        },
    }
}

/// Where slot `k` is the first that fails from `from` on, it is so from any
/// slot between the two on.
proof fn lemma_first_failure(images: Seq<CompressedImgData>, from: int)
    requires
        0 <= from <= images.len(),
    ensures
        from <= first_failure(images, from) <= images.len(),
        from < images.len() && slot_outcome(images[from]).is_ok() ==> first_failure(images, from)
            == first_failure(images, from + 1),
        from < images.len() && slot_outcome(images[from]).is_err() ==> first_failure(images, from)
            == from,
    decreases images.len() - from,
{
    if from < images.len() && slot_outcome(images[from]).is_ok() {
        lemma_first_failure(images, from + 1);
    }
}

/// Loading fails where a slot is empty, on that slot or on one before it.
/// Where it fails on that slot, the failure is the missing image. Where every
/// slot before it becomes an image and none of them is a JPEG image, it fails
/// on that slot.
pub proof fn lemma_missing_slot_is_named(
    r: Result<Skybox, LoadError>,
    images: Seq<CompressedImgData>,
    slot: int,
)
    requires
        is_skybox_outcome(r, images),
        0 <= slot < images.len(),
        images[slot] is NoData,
    ensures
        r.is_err(),
        r.unwrap_err().slot() <= slot,
        r.unwrap_err().slot() == slot ==> r == Err::<Skybox, LoadError>(
            LoadError::MissingImageData(slot as usize),
        ),
        (forall|i: int|
            0 <= i < slot ==> slot_outcome(#[trigger] images[i]).is_ok() && !(images[i] is Jpeg))
            ==> r == Err::<Skybox, LoadError>(LoadError::MissingImageData(slot as usize)),
{
    lemma_first_before(images, 0, slot);
}

/// Loading succeeds where every slot becomes an image and none of them is a
/// JPEG image, on which alone the decoder may fail of itself.
pub proof fn lemma_success_is_owed(r: Result<Skybox, LoadError>, images: Seq<CompressedImgData>)
    requires
        is_skybox_outcome(r, images),
        forall|i: int|
            0 <= i < images.len() ==> slot_outcome(#[trigger] images[i]).is_ok() && !(
            images[i] is Jpeg),
    ensures
        r.is_ok(),
{
}

/// The first failure from `from` on comes no later than a slot that fails.
proof fn lemma_first_before(images: Seq<CompressedImgData>, from: int, slot: int)
    requires
        0 <= from <= slot < images.len(),
        slot_outcome(images[slot]).is_err(),
    ensures
        from <= first_failure(images, from) <= slot,
    decreases slot - from,
{
    if from < slot && slot_outcome(images[from]).is_ok() {
        lemma_first_before(images, from + 1, slot);
    }
}

impl TextureBindPoint {
    /// The number by which the graphics interface knows the bind point.
    pub fn code(self) -> (code: u32)
        ensures
            code == (match self {
                TextureBindPoint::Texture2d => 0x0DE1u32,
                TextureBindPoint::TextureCubeMapPositiveX => 0x8515u32,
                TextureBindPoint::TextureCubeMapNegativeX => 0x8516u32,
                TextureBindPoint::TextureCubeMapPositiveY => 0x8517u32,
                TextureBindPoint::TextureCubeMapNegativeY => 0x8518u32,
                TextureBindPoint::TextureCubeMapPositiveZ => 0x8519u32,
                TextureBindPoint::TextureCubeMapNegativeZ => 0x851Au32,
            }),
    {
        match self {
            TextureBindPoint::Texture2d => 0x0DE1,
            TextureBindPoint::TextureCubeMapPositiveX => 0x8515,
            TextureBindPoint::TextureCubeMapNegativeX => 0x8516,
            TextureBindPoint::TextureCubeMapPositiveY => 0x8517,
            TextureBindPoint::TextureCubeMapNegativeY => 0x8518,
            TextureBindPoint::TextureCubeMapPositiveZ => 0x8519,
            TextureBindPoint::TextureCubeMapNegativeZ => 0x851A,
        }
    }
}

impl Skybox {
    /// The six images, by slot.
    pub closed spec fn images(&self) -> Seq<ImgData> {
        self.images@
    }

    pub fn get_images(&self) -> (images: &[ImgData; 6])
        ensures
            images@ == self.images(),
    {
        &self.images
    }

    /// A pass over the six images from the first slot on.
    pub fn img_iter(&self) -> (iter: SkyboxImgIter<'_>)
        ensures
            iter.skybox() == *self,
            iter.position() == 0,
    {
        SkyboxImgIter { skybox: self, i: 0 }
    }

    /// Decodes the six images slot by slot and stops at the first failure.
    pub fn from_compressed(sc: &SkyboxCompressed) -> (r: Result<Self, LoadError>)
        ensures
            is_skybox_outcome(r, sc.images@),
            forall|i: int|
                0 <= i < 6 && #[trigger] sc.images@[i] is NoData ==> r.is_err()
                    && r.unwrap_err().slot() <= i,
    {
        let ghost images = sc.images@;
        proof {
            assert forall|i: int| 0 <= i < 6 && #[trigger] images[i] is NoData implies first_failure(
                images,
                0,
            ) <= i by {
                lemma_first_before(images, 0, i);
            }
        }
        let mut skybox = Skybox::default();
        let mut i: usize = 0;
        while i < 6
            invariant
                i <= 6,
                images == sc.images@,
                images.len() == 6,
                skybox.images().len() == 6,
                first_failure(images, i as int) == first_failure(images, 0),
                forall|k: int|
                    0 <= k < 6 && #[trigger] images[k] is NoData ==> first_failure(images, 0) <= k,
                forall|k: int|
                    0 <= k < i ==> Ok::<ImgView, Fault>((#[trigger] skybox.images()[k])@)
                        == slot_outcome(images[k]),
            decreases 6 - i,
        {
            proof {
                lemma_first_failure(images, i as int);
                lemma_first_failure(images, 0);
            }
            match decode_slot(&sc.images[i], i) {
                Ok(img) => {
                    skybox.images[i] = img;
                },
                Err(e) => {
                    return Err(e);
                },
            }
            i += 1;
        }
        Ok(skybox)
    }
}

impl Default for Skybox {
    /// Six empty images.
    fn default() -> (skybox: Self)
        ensures
            skybox.images().len() == 6,
            forall|i: int| 0 <= i < 6 ==> skybox.images()[i]@ == (ImgView {
                data: Seq::<u8>::empty(),
                width: 0,
                height: 0,
                alpha: false,
                eight_bit_channels: false,
            }),
    {
        Self {
            images: [
                ImgData::default(),
                ImgData::default(),
                ImgData::default(),
                ImgData::default(),
                ImgData::default(),
                ImgData::default(),
            ],
        }
    }
}

impl<'a> SkyboxImgIter<'a> {
    pub closed spec fn skybox(&self) -> Skybox {
        *self.skybox
    }

    /// How many images have been handed out.
    pub closed spec fn position(&self) -> int {
        self.i as int
    }

    /// Hands out the image of the next slot with the side of the cube that it
    /// belongs to, until the six are through.
    pub fn next(&mut self) -> (r: Option<(&'a ImgData, TextureBindPoint)>)
        requires
            old(self).position() <= 6,
        ensures
            final(self).skybox() == old(self).skybox(),
            old(self).position() < 6 ==> final(self).position() == old(self).position() + 1
                && r.is_some() && *r.unwrap().0 == old(self).skybox().images()[old(self).position()]
                && r.unwrap().1 == bind_point(old(self).position()),
            old(self).position() >= 6 ==> r.is_none() && final(self).position() == old(
                self).position(),
    {
        let tbp = match self.i {
            0 => TextureBindPoint::TextureCubeMapPositiveX,
            1 => TextureBindPoint::TextureCubeMapNegativeX,
            2 => TextureBindPoint::TextureCubeMapPositiveY,
            3 => TextureBindPoint::TextureCubeMapNegativeY,
            4 => TextureBindPoint::TextureCubeMapPositiveZ,
            5 => TextureBindPoint::TextureCubeMapNegativeZ,
            _ => return None,
        };
        let ret = (&self.skybox.images[self.i], tbp);
        self.i += 1;
        Some(ret)
    }
}

} // verus!
