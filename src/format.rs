use vstd::prelude::*;
use vstd::slice::slice_subrange;
use crate::error::Error;

verus! {

/// The flag of a format description that marks a compressed format.
pub const FMT_FLAG_COMPRESSED: u32 = 1;
/// The flag of a format description that marks an emulated format.
pub const FMT_FLAG_EMULATED: u32 = 2;

/// Storage method of interlaced video.
#[derive(Clone, Copy, Debug, PartialEq, Eq, Structural)]
pub enum Field {
    Progressive,
    Top,
    Bottom,
    Interplaced,
    SeqTB,
    SeqBT,
    Alternate,
    InterplacedTB,
    InterplacedBT,
}

impl Field {
    /// The number that the device protocol uses for this field mode.
    pub open spec fn spec_code(self) -> u32 {
        match self {
            Field::Progressive => 1,
            Field::Top => 2,
            Field::Bottom => 3,
            Field::Interplaced => 4,
            Field::SeqTB => 5,
            Field::SeqBT => 6,
            Field::Alternate => 7,
            Field::InterplacedTB => 8,
            Field::InterplacedBT => 9,
        }
    }

    #[verifier::when_used_as_spec(spec_code)]
    pub fn code(self) -> (r: u32)
        ensures
            r == self.spec_code(),
    {
        match self {
            Field::Progressive => 1,
            Field::Top => 2,
            Field::Bottom => 3,
            Field::Interplaced => 4,
            Field::SeqTB => 5,
            Field::SeqBT => 6,
            Field::Alternate => 7,
            Field::InterplacedTB => 8,
            Field::InterplacedBT => 9,
        }
    }
}

/// What a capture session asks of the device.
pub struct Config<'a> {
    /// The mix of numerator and denominator: a frame interval, not a frame rate.
    /// Default is `(1, 10)`.
    pub interval: (u32, u32),
    /// Width and height of frame.
    /// Default is `(640, 480)`.
    pub resolution: (u32, u32),
    /// FourCC of format (e.g. `b"RGB3"`). Note that case matters.
    /// Default is `b"YUYV"`.
    pub format: &'a [u8],
    /// Storage method of interlaced video.
    /// Default is `Field::Progressive`.
    pub field: Field,
    /// Number of buffers in the queue of camera.
    /// Default is `2`.
    pub nbuffers: u32,
}

/// The bytes of the default pixel format, `YUYV`.
pub const YUYV: [u8; 4] = [89, 85, 89, 86];

impl<'a> Default for Config<'a> {
    fn default() -> (r: Config<'a>)
        ensures
            r.interval == (1u32, 10u32),
            r.resolution == (640u32, 480u32),
            r.format@ == seq![89u8, 85u8, 89u8, 86u8],
            r.field == Field::Progressive,
            r.nbuffers == 2,
    {
        Config {
            interval: (1, 10),
            resolution: (640, 480),
            format: &YUYV,
            field: Field::Progressive,
            nbuffers: 2,
        }
    }
}

/// The number that a four-byte pixel-format code stands for: the first byte
/// is the lowest.
pub open spec fn fourcc_value(b: Seq<u8>) -> int {
    b[0] as int + b[1] as int * 0x100 + b[2] as int * 0x1_0000 + b[3] as int * 0x100_0000
}

/// The four bytes of a pixel-format code, lowest first.
pub open spec fn fourcc_bytes(c: u32) -> Seq<u8> {
    seq![
        (c as int % 0x100) as u8,
        (c as int / 0x100 % 0x100) as u8,
        (c as int / 0x1_0000 % 0x100) as u8,
        (c as int / 0x100_0000 % 0x100) as u8,
    ]
}

/// The bytes of a text field of the device protocol up to its first zero byte.
pub open spec fn c_text(s: Seq<u8>) -> Seq<u8>
    decreases s.len(),
{
    if s.len() == 0 || s[0] == 0 {
        Seq::empty()
    } else {
        seq![s[0]] + c_text(s.drop_first())
    }
}

proof fn lemma_c_text_prefix(s: Seq<u8>, n: int)
    requires
        0 <= n <= s.len(),
        n == s.len() || s[n] == 0,
        forall|j: int| 0 <= j < n ==> s[j] != 0,
    ensures
        c_text(s) == s.subrange(0, n),
    decreases n,
{
    if n == 0 {
        assert(s.subrange(0, 0) =~= Seq::<u8>::empty());
    } else {
        let t = s.drop_first();
        assert forall|j: int| 0 <= j < n - 1 implies t[j] != 0 by {
            assert(s[j + 1] != 0);
        }
        lemma_c_text_prefix(t, n - 1);
        assert(s.subrange(0, n) =~= seq![s[0]] + t.subrange(0, n - 1));
    }
}

/// What `String::from_utf8_lossy` makes of some bytes.
pub uninterp spec fn lossy_text(b: Seq<u8>) -> Seq<char>;

/// Relies on `String::from_utf8_lossy`: the text depends on the bytes alone,
/// and no bytes give no text.
#[verifier::external_body]
pub(crate) fn text_of(b: &[u8]) -> (r: String)
    ensures
        r@ == lossy_text(b@),
        b@.len() == 0 ==> r@.len() == 0,
{
    String::from_utf8_lossy(b).into_owned()
}

/// Description of a pixel format that the device offers.
pub struct FormatInfo {
    /// FourCC of format (e.g. `b"H264"`).
    pub format: [u8; 4],
    /// Information about the format.
    pub description: String,
    /// Raw or compressed.
    pub compressed: bool,
    /// Whether it's transcoded from a different input format.
    pub emulated: bool,
}

impl FormatInfo {
    /// Builds the description from the device's answer: the format code, its
    /// text field and its flags.
    pub fn new(fourcc: u32, desc: &[u8], flags: u32) -> (r: FormatInfo)
        ensures
            r.format@ == fourcc_bytes(fourcc),
            r.description@ == lossy_text(c_text(desc@)),
            r.compressed == (flags as int % 2 == 1),
            r.emulated == (flags as int / 2 % 2 == 1),
    {
        let mut n: usize = 0;
        while n < desc.len() && desc[n] != 0
            invariant
                0 <= n <= desc@.len(),
                forall|j: int| 0 <= j < n ==> desc@[j] != 0,
            decreases desc@.len() - n,
        {
            n = n + 1;
        }
        proof {
            lemma_c_text_prefix(desc@, n as int);
        }
        let text = slice_subrange(desc, 0, n);
        let b0 = (fourcc & 0xff) as u8;
        let b1 = (fourcc >> 8 & 0xff) as u8;
        let b2 = (fourcc >> 16 & 0xff) as u8;
        let b3 = (fourcc >> 24 & 0xff) as u8;
        assert(fourcc & 0xff == fourcc % 0x100) by (bit_vector);
        assert(fourcc >> 8 & 0xff == fourcc / 0x100 % 0x100) by (bit_vector);
        assert(fourcc >> 16 & 0xff == fourcc / 0x1_0000 % 0x100) by (bit_vector);
        assert(fourcc >> 24 & 0xff == fourcc / 0x100_0000 % 0x100) by (bit_vector);
        assert((flags & FMT_FLAG_COMPRESSED != 0) == (flags % 2 == 1)) by (bit_vector);
        assert((flags & FMT_FLAG_EMULATED != 0) == (flags / 2 % 2 == 1)) by (bit_vector);
        let format = [b0, b1, b2, b3];
        assert(format@ =~= fourcc_bytes(fourcc));
        FormatInfo {
            format,
            description: text_of(text),
            compressed: flags & FMT_FLAG_COMPRESSED != 0,
            emulated: flags & FMT_FLAG_EMULATED != 0,
        }
    }

    /// The number that a four-byte pixel-format code stands for.
    pub fn fourcc(fmt: &[u8]) -> (r: u32)
        requires
            fmt@.len() >= 4,
        ensures
            r as int == fourcc_value(fmt@),
    {
        let a = fmt[0] as u32;
        let b = fmt[1] as u32;
        let c = fmt[2] as u32;
        let d = fmt[3] as u32;
        assert(a < 0x100 && b < 0x100 && c < 0x100 && d < 0x100 ==> a | b << 8 | c << 16 | d << 24
            == a + b * 0x100 + c * 0x1_0000 + d * 0x100_0000) by (bit_vector);
        a | b << 8 | c << 16 | d << 24
    }
}

/// Frame sizes that the device offers for a format.
pub enum ResolutionInfo {
    Discretes(Vec<(u32, u32)>),
    Stepwise { min: (u32, u32), max: (u32, u32), step: (u32, u32) },
}

/// Frame intervals that the device offers for a format and a frame size.
pub enum IntervalInfo {
    Discretes(Vec<(u32, u32)>),
    Stepwise { min: (u32, u32), max: (u32, u32), step: (u32, u32) },
}

/// The kind of a frame-size or frame-interval answer that lists discrete values.
pub const KIND_DISCRETE: u32 = 1;

/// The number of a pixel-format code, or `BadFormat` where the code is not
/// four bytes long.
pub fn fourcc_of(format: &[u8]) -> (r: Result<u32, Error>)
    ensures
        format@.len() != 4 ==> r == Err::<u32, Error>(Error::BadFormat),
        format@.len() == 4 ==> r == Ok::<u32, Error>(fourcc_value(format@) as u32),
{
    if format.len() != 4 {
        Err(Error::BadFormat)
    } else {
        Ok(FormatInfo::fourcc(format))
    }
}

/// The device's first answer on the frame sizes of a format. Its six values
/// hold the width and height of a discrete size, or else the minimum, maximum
/// and step of the width, then the same of the height.
#[derive(Clone, Copy, Debug)]
pub struct SizeReply {
    pub pixel_format: u32,
    pub kind: u32,
    pub values: [u32; 6],
}

/// The device's first answer on the frame intervals of a format and a frame
/// size. Its six values hold the numerator and denominator of a discrete
/// interval, or else of the minimum, the maximum and the step.
#[derive(Clone, Copy, Debug)]
pub struct IntervalReply {
    pub pixel_format: u32,
    pub width: u32,
    pub height: u32,
    pub kind: u32,
    pub values: [u32; 6],
}

impl SizeReply {
    /// Whether the sizes come as a list, one answer for each, rather than as
    /// a range.
    pub fn lists(&self) -> (r: bool)
        ensures
            r == (self.kind == KIND_DISCRETE),
    {
        self.kind == KIND_DISCRETE
    }
}

impl IntervalReply {
    /// Whether the intervals come as a list, one answer for each, rather than
    /// as a range.
    pub fn lists(&self) -> (r: bool)
        ensures
            r == (self.kind == KIND_DISCRETE),
    {
        self.kind == KIND_DISCRETE
    }
}

impl ResolutionInfo {
    /// The frame sizes of format `fourcc`, from the device's first answer and,
    /// for a list, the sizes of its later answers in order. An answer for
    /// another format is `BadFormat`.
    pub fn from_replies(fourcc: u32, first: &SizeReply, rest: &Vec<(u32, u32)>) -> (r: Result<
        ResolutionInfo,
        Error,
    >)
        ensures
            first.pixel_format != fourcc ==> r matches Err(Error::BadFormat),
            first.pixel_format == fourcc && first.kind == KIND_DISCRETE ==> (r matches Ok(
                ResolutionInfo::Discretes(d),
            ) && d@ == seq![(first.values@[0], first.values@[1])] + rest@),
            first.pixel_format == fourcc && first.kind != KIND_DISCRETE ==> (r matches Ok(
                ResolutionInfo::Stepwise { min, max, step },
            ) && min == (first.values@[0], first.values@[3]) && max == (
                first.values@[1],
                first.values@[4],
            ) && step == (first.values@[2], first.values@[5])),
    {
        if first.pixel_format != fourcc {
            return Err(Error::BadFormat);
        }
        let v = first.values;
        if first.lists() {
            let mut d: Vec<(u32, u32)> = Vec::new();
            d.push((v[0], v[1]));
            let mut i: usize = 0;
            while i < rest.len()
                invariant
                    0 <= i <= rest@.len(),
                    d@ == seq![(v@[0], v@[1])] + rest@.subrange(0, i as int),
                decreases rest@.len() - i,
            {
                d.push(rest[i]);
                i = i + 1;
                assert(d@ =~= seq![(v@[0], v@[1])] + rest@.subrange(0, i as int));
            }
            assert(rest@.subrange(0, rest@.len() as int) =~= rest@);
            Ok(ResolutionInfo::Discretes(d))
        } else {
            Ok(ResolutionInfo::Stepwise { min: (v[0], v[3]), max: (v[1], v[4]), step: (v[2], v[5]) })
        }
    }
}

impl IntervalInfo {
    /// The frame intervals of format `fourcc` at size `resolution`, from the
    /// device's first answer and, for a list, the intervals of its later
    /// answers in order. An answer for another format is `BadFormat`; one for
    /// another size is `BadResolution`.
    pub fn from_replies(
        fourcc: u32,
        resolution: (u32, u32),
        first: &IntervalReply,
        rest: &Vec<(u32, u32)>,
    ) -> (r: Result<IntervalInfo, Error>)
        ensures
            first.pixel_format != fourcc ==> r matches Err(Error::BadFormat),
            first.pixel_format == fourcc && (first.width, first.height) != resolution ==> r matches Err(
                Error::BadResolution,
            ),
            first.pixel_format == fourcc && (first.width, first.height) == resolution && first.kind
                == KIND_DISCRETE ==> (r matches Ok(IntervalInfo::Discretes(d)) && d@ == seq![
                (first.values@[0], first.values@[1]),
            ] + rest@),
            first.pixel_format == fourcc && (first.width, first.height) == resolution && first.kind
                != KIND_DISCRETE ==> (r matches Ok(IntervalInfo::Stepwise { min, max, step }) && min
                == (first.values@[0], first.values@[1]) && max == (
                first.values@[2],
                first.values@[3],
            ) && step == (first.values@[4], first.values@[5])),
    {
        if first.pixel_format != fourcc {
            return Err(Error::BadFormat);
        }
        if first.width != resolution.0 || first.height != resolution.1 {
            return Err(Error::BadResolution);
        }
        let v = first.values;
        if first.lists() {
            let mut d: Vec<(u32, u32)> = Vec::new();
            d.push((v[0], v[1]));
            let mut i: usize = 0;
            while i < rest.len()
                invariant
                    0 <= i <= rest@.len(),
                    d@ == seq![(v@[0], v@[1])] + rest@.subrange(0, i as int),
                decreases rest@.len() - i,
            {
                d.push(rest[i]);
                i = i + 1;
                assert(d@ =~= seq![(v@[0], v@[1])] + rest@.subrange(0, i as int));
            }
            assert(rest@.subrange(0, rest@.len() as int) =~= rest@);
            Ok(IntervalInfo::Discretes(d))
        } else {
            Ok(IntervalInfo::Stepwise { min: (v[0], v[1]), max: (v[2], v[3]), step: (v[4], v[5]) })
        }
    }
}

} // verus!
