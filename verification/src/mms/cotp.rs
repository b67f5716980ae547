//! COTP (ISO 8073 class 0) over TPKT (RFC 1006): framing and negotiation.
//!
//! Each wire structure has a ghost model (a "view"), a spec function that
//! gives the bytes of a model, and a spec function that says what a byte
//! string parses to. The executable encoders and parsers are proved to
//! compute exactly those functions.

use vstd::prelude::*;

verus! {

/// The version byte of every TPKT header.
pub const TPKT_VERSION: u8 = 0x03;

/// The largest TPDU size that class 0 can negotiate.
pub const COTP_MAX_TPDU_SIZE: u32 = 8192;

/// The number of header bytes in a DT TPDU.
pub const COTP_DT_HEADER_SIZE: usize = 3;

/// The number of bytes in a TPKT header.
pub const TPKT_HEADER_SIZE: usize = 4;

/// The longest selector that a configuration may carry.
pub const MAX_SELECTOR_SIZE: usize = 16;

/// What can be wrong with a COTP or TPKT frame, or with a connection attempt.
#[derive(Debug, Clone, Copy, PartialEq, Eq, Structural)]
#[allow(inconsistent_fields)]
pub enum CotpError {
    /// The length indicator of a DT TPDU is not the fixed one.
    InvalidLiValue { value: u8, expected: u8 },
    /// A TPDU of another type than the connection state allows.
    WrongCotpType,
    /// The peer confirmed a connection that is not ours.
    ConnectionFailed,
    /// The TPKT header is malformed.
    InvalidTpktVersion,
    /// An option with an unknown tag.
    InvalidTpduOption,
    /// A malformed TPDU-size option.
    InvalidTpduSize,
    /// A malformed or oversized destination selector.
    InvalidTselDst,
    /// A malformed or oversized source selector.
    InvalidTselSrc,
    /// The end-of-transmission byte is neither of the two legal ones.
    InvalidEot,
    /// The type byte is not the expected one.
    InvalidTpduType { value: u8, expected: TpduType },
    /// The frame ends before the structure does.
    NotEnoughBytes,
}

/// Lifts a parse result to the level of views.
pub open spec fn parsed<T: View>(res: Result<T, CotpError>) -> Result<T::V, CotpError> {
    match res {
        Ok(t) => Ok(t@),
        Err(e) => Err(e),
    }
}

/// The high byte of a 16-bit number in network order.
pub open spec fn spec_hi(x: u16) -> u8 {
    (x / 256) as u8
}

/// The low byte of a 16-bit number in network order.
pub open spec fn spec_lo(x: u16) -> u8 {
    (x % 256) as u8
}

/// The 16-bit number that two bytes in network order stand for.
pub open spec fn spec_be16(hi: u8, lo: u8) -> u16 {
    (hi as int * 256 + lo as int) as u16
}

/// Splits a 16-bit number into its two bytes in network order.
pub fn be_bytes(x: u16) -> (res: (u8, u8))
    ensures
        res.0 == spec_hi(x),
        res.1 == spec_lo(x),
        spec_be16(res.0, res.1) == x,
{
    ((x / 256) as u8, (x % 256) as u8)
}

/// Joins two bytes in network order into a 16-bit number.
pub fn from_be_bytes(hi: u8, lo: u8) -> (res: u16)
    ensures
        res == spec_be16(hi, lo),
        spec_hi(res) == hi,
        spec_lo(res) == lo,
{
    (hi as u16) * 256 + (lo as u16)
}

/// Appends a slice of bytes to a vector.
pub fn append_bytes(dst: &mut Vec<u8>, src: &[u8])
    ensures
        final(dst)@ == old(dst)@ + src@,
{
    let n: usize = src.len();
    let mut i: usize = 0;
    while i < n
        invariant
            n == src@.len(),
            i <= n,
            dst@ == old(dst)@ + src@.take(i as int),
        decreases n - i,
    {
        dst.push(src[i]);
        i = i + 1;
    }
    assert(src@.take(n as int) == src@);
}

/// Copies the bytes `from..to` of a slice into a new vector.
pub fn copy_range(bytes: &[u8], from: usize, to: usize) -> (res: Vec<u8>)
    requires
        from <= to <= bytes@.len(),
    ensures
        res@ == bytes@.subrange(from as int, to as int),
{
    let mut out: Vec<u8> = Vec::new();
    let mut i: usize = from;
    while i < to
        invariant
            from <= i <= to <= bytes@.len(),
            out@ == bytes@.subrange(from as int, i as int),
        decreases to - i,
    {
        out.push(bytes[i]);
        i = i + 1;
    }
    out
}

/// The type byte of a COTP TPDU.
#[derive(Debug, Clone, Copy, PartialEq, Eq, Structural)]
pub enum TpduType {
    /// Connection request.
    CR,
    /// Connection confirm.
    CC,
    /// Data transfer.
    DT,
    /// Any byte that names no supported TPDU.
    Invalid,
}

impl TpduType {
    /// The type byte that stands for this TPDU type on the wire.
    pub open spec fn spec_code(self) -> u8 {
        match self {
            TpduType::CR => 0xe0,
            TpduType::CC => 0xd0,
            TpduType::DT => 0xf0,
            TpduType::Invalid => 0xff,
        }
    }

    /// The TPDU type that a type byte stands for.
    pub open spec fn spec_from_code(value: u8) -> TpduType {
        if value == 0xe0 {
            TpduType::CR
        } else if value == 0xd0 {
            TpduType::CC
        } else if value == 0xf0 {
            TpduType::DT
        } else {
            TpduType::Invalid
        }
    }

    /// Encodes the type as its wire byte.
    pub fn code(self) -> (res: u8)
        ensures
            res == self.spec_code(),
    {
        match self {
            TpduType::CR => 0xe0,
            TpduType::CC => 0xd0,
            TpduType::DT => 0xf0,
            TpduType::Invalid => 0xff,
        }
    }
}

impl From<u8> for TpduType {
    fn from(value: u8) -> (res: TpduType) {
        if value == 0xe0 {
            TpduType::CR
        } else if value == 0xd0 {
            TpduType::CC
        } else if value == 0xf0 {
            TpduType::DT
        } else {
            TpduType::Invalid
        }
    }
}

impl vstd::std_specs::convert::FromSpecImpl<u8> for TpduType {
    open spec fn obeys_from_spec() -> bool {
        true
    }

    open spec fn from_spec(value: u8) -> TpduType {
        TpduType::spec_from_code(value)
    }
}

/// The end-of-transmission flag of a DT TPDU.
#[derive(Debug, Clone, Copy, PartialEq, Eq, Structural)]
pub enum Eot {
    /// More data follows in a later TPDU.
    NoEot,
    /// This TPDU ends the data unit.
    Eot,
}

impl Eot {
    /// The byte that stands for this flag on the wire.
    pub open spec fn spec_code(self) -> u8 {
        match self {
            Eot::NoEot => 0x00,
            Eot::Eot => 0x80,
        }
    }

    /// The flag that a byte stands for, if it stands for one.
    pub open spec fn spec_from_code(value: u8) -> Result<Eot, CotpError> {
        if value == 0x00 {
            Ok(Eot::NoEot)
        } else if value == 0x80 {
            Ok(Eot::Eot)
        } else {
            Err(CotpError::InvalidEot)
        }
    }

    /// Encodes the flag as its wire byte.
    pub fn code(self) -> (res: u8)
        ensures
            res == self.spec_code(),
            Eot::spec_from_code(res) == Ok::<Eot, CotpError>(self),
    {
        match self {
            Eot::NoEot => 0x00,
            Eot::Eot => 0x80,
        }
    }
}

impl TryFrom<u8> for Eot {
    type Error = CotpError;

    fn try_from(value: u8) -> (res: Result<Eot, CotpError>) {
        if value == 0x00 {
            Ok(Eot::NoEot)
        } else if value == 0x80 {
            Ok(Eot::Eot)
        } else {
            Err(CotpError::InvalidEot)
        }
    }
}

impl vstd::std_specs::convert::TryFromSpecImpl<u8> for Eot {
    open spec fn obeys_try_from_spec() -> bool {
        true
    }

    open spec fn try_from_spec(value: u8) -> Result<Eot, CotpError> {
        Eot::spec_from_code(value)
    }
}

/// The TPDU-size option: the size is two to the power of `value`.
#[derive(Debug, Clone, Copy, PartialEq, Eq, Structural)]
pub struct TpduSize {
    /// The exponent that goes on the wire.
    pub value: u8,
}

impl TpduSize {
    /// The exponents that class 0 allows: sizes from 128 to 8192.
    pub open spec fn spec_legal(value: u8) -> bool {
        7 <= value <= 13
    }

    /// A TPDU-size option is well formed when its exponent is legal.
    pub open spec fn wf(self) -> bool {
        Self::spec_legal(self.value)
    }

    /// The exponent for a requested size: the size is first brought into
    /// 128..=8192, then rounded down to a power of two.
    pub open spec fn spec_calculate_value(value: u32) -> u8 {
        if value >= 8192 {
            13
        } else if value >= 4096 {
            12
        } else if value >= 2048 {
            11
        } else if value >= 1024 {
            10
        } else if value >= 512 {
            9
        } else if value >= 256 {
            8
        } else {
            7
        }
    }

    /// The size that an exponent stands for.
    pub open spec fn spec_size(value: u8) -> nat {
        vstd::arithmetic::power2::pow2(value as nat)
    }

    /// The option as it goes on the wire.
    pub open spec fn spec_bytes(value: u8) -> Seq<u8> {
        seq![0xc0u8, 0x01u8, value]
    }

    /// What three bytes parse to as a TPDU-size option.
    pub open spec fn spec_parse(bytes: Seq<u8>) -> Result<u8, CotpError> {
        if bytes.len() != 3 {
            Err(CotpError::NotEnoughBytes)
        } else if bytes[0] != 0xc0 {
            Err(CotpError::InvalidTpduSize)
        } else if bytes[1] != 0x01 {
            Err(CotpError::InvalidTpduSize)
        } else if !Self::spec_legal(bytes[2]) {
            Err(CotpError::InvalidTpduSize)
        } else {
            Ok(bytes[2])
        }
    }

    /// Creates the option for a requested TPDU size. A size below 128 gives
    /// 128, a size above 8192 gives 8192, any other is rounded down to a
    /// power of two.
    pub fn new(value: u32) -> (res: Self)
        ensures
            res.value == Self::spec_calculate_value(value),
            res.wf(),
            value < 128 ==> Self::spec_size(res.value) == 128,
            value > 8192 ==> Self::spec_size(res.value) == 8192,
            128 <= value <= 8192 ==> Self::spec_size(res.value) <= value < 2 * Self::spec_size(
                res.value,
            ),
    {
        proof {
            vstd::arithmetic::power2::lemma2_to64();
        }
        Self { value: Self::calculate_value(value) }
    }

    /// The TPDU size in bytes.
    pub fn get_value(&self) -> (res: u32)
        requires
            self.value < 32,
        ensures
            res == Self::spec_size(self.value),
            self.wf() ==> 128 <= res <= 8192,
    {
        proof {
            vstd::bits::lemma_u32_pow2_no_overflow(self.value as nat);
            vstd::bits::lemma_u32_shl_is_mul(1u32, self.value as u32);
            vstd::arithmetic::power2::lemma2_to64();
        }
        1u32 << self.value
    }

    /// The exponent for a requested size.
    pub fn calculate_value(value: u32) -> (res: u8)
        ensures
            res == Self::spec_calculate_value(value),
            Self::spec_legal(res),
    {
        if value >= 8192 {
            13
        } else if value >= 4096 {
            12
        } else if value >= 2048 {
            11
        } else if value >= 1024 {
            10
        } else if value >= 512 {
            9
        } else if value >= 256 {
            8
        } else {
            7
        }
    }

    /// Parses the option from its three bytes. An exponent outside 7..=13 is
    /// rejected.
    pub fn from_bytes(bytes: [u8; 3]) -> (res: Result<Self, CotpError>)
        ensures
            match res {
                Ok(t) => Self::spec_parse(bytes@) == Ok::<u8, CotpError>(t.value) && t.wf(),
                Err(e) => Self::spec_parse(bytes@) == Err::<u8, CotpError>(e),
            },
    {
        if bytes[0] != 0xc0 {
            return Err(CotpError::InvalidTpduSize);
        }
        if bytes[1] != 0x01 {
            return Err(CotpError::InvalidTpduSize);
        }
        let value: u8 = bytes[2];
        if value < 7 || value > 13 {
            return Err(CotpError::InvalidTpduSize);
        }
        Ok(Self { value })
    }

    /// Encodes the option.
    pub fn to_bytes(&self) -> (res: [u8; 3])
        ensures
            res@ == Self::spec_bytes(self.value),
    {
        let out: [u8; 3] = [0xc0, 0x01, self.value];
        assert(out@ =~= Self::spec_bytes(self.value));
        out
    }

    /// The number of bytes of the encoded option.
    pub fn len() -> (res: usize)
        ensures
            res == 3,
    {
        3
    }
}

/// The destination transport selector option.
#[derive(Debug, Clone, PartialEq, Eq)]
pub struct TselDst {
    /// The selector, verbatim.
    pub value: Vec<u8>,
}

impl View for TselDst {
    type V = Seq<u8>;

    open spec fn view(&self) -> Seq<u8> {
        self.value@
    }
}

/// The source transport selector option.
#[derive(Debug, Clone, PartialEq, Eq)]
pub struct TselSrc {
    /// The selector, verbatim.
    pub value: Vec<u8>,
}

impl View for TselSrc {
    type V = Seq<u8>;

    open spec fn view(&self) -> Seq<u8> {
        self.value@
    }
}

/// A selector option as it goes on the wire: the tag, one length byte (the
/// length modulo 256) and the selector.
pub open spec fn spec_tsel_bytes(tag: u8, value: Seq<u8>) -> Seq<u8> {
    seq![tag, (value.len() % 256) as u8] + value
}

/// What a byte string parses to as a selector option with the given tag.
/// Bytes after the selector are ignored.
pub open spec fn spec_tsel_parse(tag: u8, wrong_tag: CotpError, bytes: Seq<u8>) -> Result<
    Seq<u8>,
    CotpError,
> {
    if bytes.len() < 1 {
        Err(CotpError::NotEnoughBytes)
    } else if bytes[0] != tag {
        Err(wrong_tag)
    } else if bytes.len() < 2 {
        Err(CotpError::NotEnoughBytes)
    } else if bytes.len() < 2 + bytes[1] {
        Err(CotpError::NotEnoughBytes)
    } else {
        Ok(bytes.subrange(2, 2 + bytes[1] as int))
    }
}

/// Parses a selector option with the given tag.
fn tsel_from_bytes(tag: u8, wrong_tag: CotpError, bytes: &[u8]) -> (res: Result<Vec<u8>, CotpError>)
    ensures
        match res {
            Ok(v) => spec_tsel_parse(tag, wrong_tag, bytes@) == Ok::<Seq<u8>, CotpError>(v@),
            Err(e) => spec_tsel_parse(tag, wrong_tag, bytes@) == Err::<Seq<u8>, CotpError>(e),
        },
{
    if bytes.len() < 1 {
        return Err(CotpError::NotEnoughBytes);
    }
    if bytes[0] != tag {
        return Err(wrong_tag);
    }
    if bytes.len() < 2 {
        return Err(CotpError::NotEnoughBytes);
    }
    let len: usize = bytes[1] as usize;
    if bytes.len() - 2 < len {
        return Err(CotpError::NotEnoughBytes);
    }
    Ok(copy_range(bytes, 2, 2 + len))
}

/// Encodes a selector option with the given tag.
fn tsel_to_bytes(tag: u8, value: &Vec<u8>) -> (res: Vec<u8>)
    ensures
        res@ == spec_tsel_bytes(tag, value@),
{
    let mut bytes: Vec<u8> = Vec::new();
    bytes.push(tag);
    bytes.push((value.len() % 256) as u8);
    append_bytes(&mut bytes, value.as_slice());
    assert(bytes@ =~= spec_tsel_bytes(tag, value@));
    bytes
}

impl TselDst {
    /// The tag of the option.
    pub open spec fn spec_tag() -> u8 {
        0xc2
    }

    /// The option as it goes on the wire.
    pub open spec fn spec_bytes(value: Seq<u8>) -> Seq<u8> {
        spec_tsel_bytes(0xc2, value)
    }

    /// What a byte string parses to as this option.
    pub open spec fn spec_parse(bytes: Seq<u8>) -> Result<Seq<u8>, CotpError> {
        spec_tsel_parse(0xc2, CotpError::InvalidTselDst, bytes)
    }

    /// Parses the option; bytes after the selector are ignored.
    pub fn from_bytes(bytes: &[u8]) -> (res: Result<Self, CotpError>)
        ensures
            parsed(res) == Self::spec_parse(bytes@),
    {
        match tsel_from_bytes(0xc2, CotpError::InvalidTselDst, bytes) {
            Ok(value) => Ok(Self { value }),
            Err(e) => Err(e),
        }
    }

    /// Encodes the option.
    pub fn to_bytes(&self) -> (res: Vec<u8>)
        ensures
            res@ == Self::spec_bytes(self@),
    {
        tsel_to_bytes(0xc2, &self.value)
    }

    /// The number of bytes of the encoded option.
    pub fn len(&self) -> (res: usize)
        requires
            self@.len() + 2 <= usize::MAX,
        ensures
            res == self@.len() + 2,
            res == Self::spec_bytes(self@).len(),
    {
        2 + self.value.len()
    }
}

impl TselSrc {
    /// The tag of the option.
    pub open spec fn spec_tag() -> u8 {
        0xc1
    }

    /// The option as it goes on the wire.
    pub open spec fn spec_bytes(value: Seq<u8>) -> Seq<u8> {
        spec_tsel_bytes(0xc1, value)
    }

    /// What a byte string parses to as this option.
    pub open spec fn spec_parse(bytes: Seq<u8>) -> Result<Seq<u8>, CotpError> {
        spec_tsel_parse(0xc1, CotpError::InvalidTselSrc, bytes)
    }

    /// Parses the option; bytes after the selector are ignored.
    pub fn from_bytes(bytes: &[u8]) -> (res: Result<Self, CotpError>)
        ensures
            parsed(res) == Self::spec_parse(bytes@),
    {
        match tsel_from_bytes(0xc1, CotpError::InvalidTselSrc, bytes) {
            Ok(value) => Ok(Self { value }),
            Err(e) => Err(e),
        }
    }

    /// Encodes the option.
    pub fn to_bytes(&self) -> (res: Vec<u8>)
        ensures
            res@ == Self::spec_bytes(self@),
    {
        tsel_to_bytes(0xc1, &self.value)
    }

    /// The number of bytes of the encoded option.
    pub fn len(&self) -> (res: usize)
        requires
            self@.len() + 2 <= usize::MAX,
        ensures
            res == self@.len() + 2,
            res == Self::spec_bytes(self@).len(),
    {
        2 + self.value.len()
    }
}

/// An option of a CR or CC TPDU.
#[derive(Debug, Clone, PartialEq, Eq)]
pub enum CotpOptions {
    /// The TPDU size.
    TpduSize(TpduSize),
    /// The destination transport selector.
    TSelDst(TselDst),
    /// The source transport selector.
    TSelSrc(TselSrc),
}

/// The ghost model of an option.
pub enum CotpOptionsView {
    /// The exponent of the TPDU size.
    TpduSize(u8),
    /// The destination transport selector.
    TSelDst(Seq<u8>),
    /// The source transport selector.
    TSelSrc(Seq<u8>),
}

impl View for CotpOptions {
    type V = CotpOptionsView;

    open spec fn view(&self) -> CotpOptionsView {
        match self {
            CotpOptions::TpduSize(t) => CotpOptionsView::TpduSize(t.value),
            CotpOptions::TSelDst(t) => CotpOptionsView::TSelDst(t@),
            CotpOptions::TSelSrc(t) => CotpOptionsView::TSelSrc(t@),
        }
    }
}

impl CotpOptionsView {
    /// An option is well formed when the parser gives it back from its own
    /// bytes: a legal exponent, or a selector whose length fits one byte.
    pub open spec fn wf(self) -> bool {
        match self {
            CotpOptionsView::TpduSize(value) => TpduSize::spec_legal(value),
            CotpOptionsView::TSelDst(value) => value.len() <= 255,
            CotpOptionsView::TSelSrc(value) => value.len() <= 255,
        }
    }

    /// The option as it goes on the wire.
    pub open spec fn bytes(self) -> Seq<u8> {
        match self {
            CotpOptionsView::TpduSize(value) => TpduSize::spec_bytes(value),
            CotpOptionsView::TSelDst(value) => TselDst::spec_bytes(value),
            CotpOptionsView::TSelSrc(value) => TselSrc::spec_bytes(value),
        }
    }

    /// The number of bytes of the encoded option.
    pub open spec fn len(self) -> nat {
        match self {
            CotpOptionsView::TpduSize(_) => 3,
            CotpOptionsView::TSelDst(value) => value.len() + 2,
            CotpOptionsView::TSelSrc(value) => value.len() + 2,
        }
    }
}

impl CotpOptions {
    /// Encodes the option.
    pub fn to_bytes(&self) -> (res: Vec<u8>)
        ensures
            res@ == self@.bytes(),
    {
        match self {
            CotpOptions::TpduSize(tpdu_size) => {
                let arr: [u8; 3] = tpdu_size.to_bytes();
                let mut bytes: Vec<u8> = Vec::new();
                bytes.push(arr[0]);
                bytes.push(arr[1]);
                bytes.push(arr[2]);
                assert(bytes@ =~= self@.bytes());
                bytes
            },
            CotpOptions::TSelDst(ts_el_dst) => ts_el_dst.to_bytes(),
            CotpOptions::TSelSrc(ts_el_src) => ts_el_src.to_bytes(),
        }
    }

    /// The number of bytes of the encoded option.
    pub fn len(&self) -> (res: usize)
        requires
            self@.len() <= usize::MAX,
        ensures
            res == self@.len(),
            res == self@.bytes().len(),
    {
        match self {
            CotpOptions::TpduSize(_) => TpduSize::len(),
            CotpOptions::TSelDst(ts_el_dst) => ts_el_dst.len(),
            CotpOptions::TSelSrc(ts_el_src) => ts_el_src.len(),
        }
    }
}

/// The views of a sequence of options.
pub open spec fn option_views(options: Seq<CotpOptions>) -> Seq<CotpOptionsView> {
    options.map_values(|o: CotpOptions| o@)
}

/// Every option of the sequence is well formed.
pub open spec fn options_wf(options: Seq<CotpOptionsView>) -> bool {
    forall|i: int| 0 <= i < options.len() ==> (#[trigger] options[i]).wf()
}

/// The bytes of a sequence of options: the options one after the other.
pub open spec fn spec_options_to_bytes(options: Seq<CotpOptionsView>) -> Seq<u8>
    decreases options.len(),
{
    if options.len() == 0 {
        Seq::empty()
    } else {
        options[0].bytes() + spec_options_to_bytes(options.drop_first())
    }
}

/// The number of bytes of a sequence of encoded options.
pub open spec fn spec_options_len(options: Seq<CotpOptionsView>) -> nat
    decreases options.len(),
{
    if options.len() == 0 {
        0
    } else {
        options[0].len() + spec_options_len(options.drop_first())
    }
}

/// Puts already parsed options in front of what the rest parses to.
pub open spec fn prepend_options(
    head: Seq<CotpOptionsView>,
    rest: Result<Seq<CotpOptionsView>, CotpError>,
) -> Result<Seq<CotpOptionsView>, CotpError> {
    match rest {
        Ok(tail) => Ok(head + tail),
        Err(e) => Err(e),
    }
}

/// What a byte string parses to as a sequence of options. The option with
/// tag 0xC6 and length 1 is skipped; an unknown tag is an error, and so is an
/// option that the byte string cuts short.
pub open spec fn spec_bytes_to_options(bytes: Seq<u8>) -> Result<Seq<CotpOptionsView>, CotpError>
    decreases bytes.len(),
{
    if bytes.len() == 0 {
        Ok(Seq::empty())
    } else if bytes[0] == 0xc0 {
        if bytes.len() < 3 {
            Err(CotpError::NotEnoughBytes)
        } else {
            match TpduSize::spec_parse(bytes.subrange(0, 3)) {
                Ok(value) => prepend_options(
                    seq![CotpOptionsView::TpduSize(value)],
                    spec_bytes_to_options(bytes.skip(3)),
                ),
                Err(e) => Err(e),
            }
        }
    } else if bytes[0] == 0xc2 {
        if bytes.len() < 2 || bytes.len() < 2 + bytes[1] {
            Err(CotpError::NotEnoughBytes)
        } else {
            prepend_options(
                seq![CotpOptionsView::TSelDst(bytes.subrange(2, 2 + bytes[1] as int))],
                spec_bytes_to_options(bytes.skip(2 + bytes[1] as int)),
            )
        }
    } else if bytes[0] == 0xc1 {
        if bytes.len() < 2 || bytes.len() < 2 + bytes[1] {
            Err(CotpError::NotEnoughBytes)
        } else {
            prepend_options(
                seq![CotpOptionsView::TSelSrc(bytes.subrange(2, 2 + bytes[1] as int))],
                spec_bytes_to_options(bytes.skip(2 + bytes[1] as int)),
            )
        }
    } else if bytes[0] == 0xc6 {
        if bytes.len() < 2 {
            Err(CotpError::NotEnoughBytes)
        } else if bytes[1] != 1 {
            Err(CotpError::InvalidTpduOption)
        } else if bytes.len() < 3 {
            Err(CotpError::NotEnoughBytes)
        } else {
            spec_bytes_to_options(bytes.skip(3))
        }
    } else {
        Err(CotpError::InvalidTpduOption)
    }
}

/// Encodes a sequence of options, one after the other.
pub fn options_to_bytes(options: &[CotpOptions]) -> (res: Vec<u8>)
    ensures
        res@ == spec_options_to_bytes(option_views(options@)),
{
    let ghost all = option_views(options@);
    let mut bytes: Vec<u8> = Vec::new();
    let n: usize = options.len();
    let mut i: usize = 0;
    assert(all.skip(0) == all);
    while i < n
        invariant
            n == options@.len(),
            i <= n,
            all == option_views(options@),
            spec_options_to_bytes(all) == bytes@ + spec_options_to_bytes(all.skip(i as int)),
        decreases n - i,
    {
        let encoded: Vec<u8> = options[i].to_bytes();
        proof {
            let rest = all.skip(i as int);
            assert(rest[0] == options@[i as int]@);
            assert(rest.drop_first() == all.skip(i + 1));
            assert(bytes@ + (encoded@ + spec_options_to_bytes(all.skip(i + 1))) == (bytes@
                + encoded@) + spec_options_to_bytes(all.skip(i + 1)));
        }
        append_bytes(&mut bytes, encoded.as_slice());
        i = i + 1;
    }
    assert(bytes@ + Seq::<u8>::empty() == bytes@);
    bytes
}

/// Parses a sequence of options.
pub fn bytes_to_options(bytes: &[u8]) -> (res: Result<Vec<CotpOptions>, CotpError>)
    ensures
        match res {
            Ok(options) => spec_bytes_to_options(bytes@) == Ok::<
                Seq<CotpOptionsView>,
                CotpError,
            >(option_views(options@)) && options_wf(option_views(options@)),
            Err(e) => spec_bytes_to_options(bytes@) == Err::<Seq<CotpOptionsView>, CotpError>(e),
        },
{
    let mut options: Vec<CotpOptions> = Vec::new();
    let n: usize = bytes.len();
    let mut start: usize = 0;
    assert(bytes@.skip(0) == bytes@);
    assert(Seq::<CotpOptionsView>::empty() + Seq::<CotpOptionsView>::empty() == Seq::<
        CotpOptionsView,
    >::empty());
    assert(option_views(options@) == Seq::<CotpOptionsView>::empty());
    while start < n
        invariant
            n == bytes@.len(),
            start <= n,
            options_wf(option_views(options@)),
            spec_bytes_to_options(bytes@) == prepend_options(
                option_views(options@),
                spec_bytes_to_options(bytes@.skip(start as int)),
            ),
        decreases n - start,
    {
        let ghost rest = bytes@.skip(start as int);
        let ghost before = option_views(options@);
        let tag: u8 = bytes[start];
        assert(rest[0] == tag);
        if tag == 0xc0 {
            if n - start < 3 {
                return Err(CotpError::NotEnoughBytes);
            }
            let triple: [u8; 3] = [bytes[start], bytes[start + 1], bytes[start + 2]];
            assert(triple@ =~= rest.subrange(0, 3));
            match TpduSize::from_bytes(triple) {
                Ok(tpdu_size) => {
                    options.push(CotpOptions::TpduSize(tpdu_size));
                    proof {
                        let item = CotpOptionsView::TpduSize(tpdu_size.value);
                        assert(option_views(options@) == before + seq![item]);
                        assert(rest.skip(3) == bytes@.skip(start + 3));
                        lemma_prepend_assoc(before, item, spec_bytes_to_options(rest.skip(3)));
                    }
                    start = start + 3;
                },
                Err(e) => {
                    return Err(e);
                },
            }
        } else if tag == 0xc2 || tag == 0xc1 {
            if n - start < 2 {
                return Err(CotpError::NotEnoughBytes);
            }
            let len: usize = bytes[start + 1] as usize;
            assert(rest[1] == bytes@[start + 1]);
            if n - start - 2 < len {
                return Err(CotpError::NotEnoughBytes);
            }
            let value: Vec<u8> = copy_range(bytes, start + 2, start + 2 + len);
            assert(value@ == rest.subrange(2, 2 + len as int));
            let option: CotpOptions = if tag == 0xc2 {
                CotpOptions::TSelDst(TselDst { value })
            } else {
                CotpOptions::TSelSrc(TselSrc { value })
            };
            options.push(option);
            proof {
                let item = option@;
                assert(option_views(options@) == before + seq![item]);
                assert(rest.skip(2 + len as int) == bytes@.skip(start + 2 + len));
                lemma_prepend_assoc(
                    before,
                    item,
                    spec_bytes_to_options(rest.skip(2 + len as int)),
                );
            }
            start = start + 2 + len;
        } else if tag == 0xc6 {
            if n - start < 2 {
                return Err(CotpError::NotEnoughBytes);
            }
            assert(rest[1] == bytes@[start + 1]);
            if bytes[start + 1] != 1 {
                return Err(CotpError::InvalidTpduOption);
            }
            if n - start < 3 {
                return Err(CotpError::NotEnoughBytes);
            }
            assert(rest.skip(3) == bytes@.skip(start + 3));
            start = start + 3;
        } else {
            return Err(CotpError::InvalidTpduOption);
        }
    }
    proof {
        assert(option_views(options@) + Seq::<CotpOptionsView>::empty() == option_views(
            options@,
        ));
    }
    Ok(options)
}

/// Parsing `head`, then one more option, then the rest is parsing `head`
/// with that option appended, then the rest.
pub proof fn lemma_prepend_assoc(
    head: Seq<CotpOptionsView>,
    item: CotpOptionsView,
    rest: Result<Seq<CotpOptionsView>, CotpError>,
)
    ensures
        prepend_options(head, prepend_options(seq![item], rest)) == prepend_options(
            head + seq![item],
            rest,
        ),
{
    match rest {
        Ok(tail) => {
            assert(head + (seq![item] + tail) == (head + seq![item]) + tail);
        },
        Err(_) => {},
    }
}

/// The encoded options are as long as `spec_options_len` says.
pub proof fn lemma_options_bytes_len(options: Seq<CotpOptionsView>)
    ensures
        spec_options_to_bytes(options).len() == spec_options_len(options),
    decreases options.len(),
{
    if options.len() > 0 {
        lemma_options_bytes_len(options.drop_first());
    }
}

/// Option round trip: well-formed options, encoded and parsed again, come
/// back unchanged and in order.
pub proof fn lemma_options_roundtrip(options: Seq<CotpOptionsView>)
    requires
        options_wf(options),
    ensures
        spec_bytes_to_options(spec_options_to_bytes(options)) == Ok::<
            Seq<CotpOptionsView>,
            CotpError,
        >(options),
    decreases options.len(),
{
    if options.len() == 0 {
        assert(options =~= Seq::<CotpOptionsView>::empty());
    } else {
        let first = options[0];
        let tail = options.drop_first();
        let head_bytes = first.bytes();
        let tail_bytes = spec_options_to_bytes(tail);
        let bytes = spec_options_to_bytes(options);
        assert(first.wf());
        assert forall|i: int| 0 <= i < tail.len() implies (#[trigger] tail[i]).wf() by {
            assert(tail[i] == options[i + 1]);
        }
        lemma_options_roundtrip(tail);
        assert(bytes == head_bytes + tail_bytes);
        assert(bytes.skip(head_bytes.len() as int) == tail_bytes);
        assert(bytes.subrange(0, head_bytes.len() as int) == head_bytes);
        assert(seq![first] + tail == options);
        match first {
            CotpOptionsView::TpduSize(value) => {
                assert(head_bytes.len() == 3);
                assert(bytes[0] == 0xc0);
                assert(bytes.subrange(0, 3) == TpduSize::spec_bytes(value));
                assert(TpduSize::spec_parse(bytes.subrange(0, 3)) == Ok::<u8, CotpError>(value));
                assert(bytes.skip(3) == tail_bytes);
                assert(spec_bytes_to_options(bytes) == prepend_options(
                    seq![first],
                    spec_bytes_to_options(tail_bytes),
                ));
            },
            CotpOptionsView::TSelDst(value) => {
                assert(bytes[0] == 0xc2);
                assert(bytes[1] == value.len());
                assert(bytes.subrange(2, 2 + value.len() as int) == value);
                assert(bytes.skip(2 + value.len() as int) == tail_bytes);
                assert(spec_bytes_to_options(bytes) == prepend_options(
                    seq![first],
                    spec_bytes_to_options(tail_bytes),
                ));
            },
            CotpOptionsView::TSelSrc(value) => {
                assert(bytes[0] == 0xc1);
                assert(bytes[1] == value.len());
                assert(bytes.subrange(2, 2 + value.len() as int) == value);
                assert(bytes.skip(2 + value.len() as int) == tail_bytes);
                assert(spec_bytes_to_options(bytes) == prepend_options(
                    seq![first],
                    spec_bytes_to_options(tail_bytes),
                ));
            },
        }
    }
}

/// The ghost model of a CR or CC TPDU.
pub struct ConnectTpduView {
    /// The length indicator: the number of bytes after it.
    pub li: u8,
    /// The destination reference.
    pub dst_ref: u16,
    /// The source reference.
    pub src_ref: u16,
    /// The options, in wire order.
    pub options: Seq<CotpOptionsView>,
}

impl ConnectTpduView {
    /// The length indicator that fits the options, modulo 256.
    pub open spec fn spec_li(options: Seq<CotpOptionsView>) -> u8 {
        ((6 + spec_options_len(options)) % 256) as u8
    }

    /// A CR or CC TPDU is well formed when its options are, and when its
    /// length indicator counts exactly the fixed part and the options.
    pub open spec fn wf(self) -> bool {
        &&& options_wf(self.options)
        &&& self.li == 6 + spec_options_len(self.options)
    }

    /// The TPDU as it goes on the wire, for the given type byte.
    pub open spec fn bytes(self, code: u8) -> Seq<u8> {
        seq![
            self.li,
            code,
            spec_hi(self.dst_ref),
            spec_lo(self.dst_ref),
            spec_hi(self.src_ref),
            spec_lo(self.src_ref),
            0x00u8,
        ] + spec_options_to_bytes(self.options)
    }

    /// What a byte string parses to as a CR or CC TPDU with the given type
    /// byte. The class byte is not looked at, and bytes after the length
    /// that the indicator gives are ignored.
    pub open spec fn parse(code: u8, bytes: Seq<u8>) -> Result<ConnectTpduView, CotpError> {
        if bytes.len() < 2 {
            Err(CotpError::NotEnoughBytes)
        } else if bytes[1] != code {
            Err(
                CotpError::InvalidTpduType {
                    value: bytes[1],
                    expected: TpduType::spec_from_code(code),
                },
            )
        } else if bytes.len() < 6 {
            Err(CotpError::NotEnoughBytes)
        } else if bytes[0] < 6 || bytes.len() < bytes[0] + 1 {
            Err(CotpError::NotEnoughBytes)
        } else {
            match spec_bytes_to_options(bytes.subrange(7, bytes[0] + 1)) {
                Ok(options) => Ok(
                    ConnectTpduView {
                        li: bytes[0],
                        dst_ref: spec_be16(bytes[2], bytes[3]),
                        src_ref: spec_be16(bytes[4], bytes[5]),
                        options,
                    },
                ),
                Err(e) => Err(e),
            }
        }
    }
}

/// Adding modulo 256 step by step gives the sum modulo 256.
proof fn lemma_mod_step(done: int, step: int, full: int)
    requires
        step % 256 == full % 256,
    ensures
        ((done % 256) + step) % 256 == (done + full) % 256,
{
    vstd::arithmetic::div_mod::lemma_add_mod_noop(done, step, 256);
    vstd::arithmetic::div_mod::lemma_add_mod_noop(done, full, 256);
    vstd::arithmetic::div_mod::lemma_add_mod_noop(done % 256, step, 256);
    vstd::arithmetic::div_mod::lemma_mod_twice(done, 256);
}

/// The length indicator for a list of options: six fixed bytes plus the
/// encoded options, modulo 256.
fn connect_li(options: &Vec<CotpOptions>) -> (res: u8)
    ensures
        res == ConnectTpduView::spec_li(option_views(options@)),
{
    let ghost all = option_views(options@);
    let ghost mut done: int = 6;
    let n: usize = options.len();
    let mut acc: usize = 6;
    let mut i: usize = 0;
    assert(all.skip(0) == all);
    while i < n
        invariant
            n == options@.len(),
            i <= n,
            all == option_views(options@),
            acc < 256,
            acc == done % 256,
            done + spec_options_len(all.skip(i as int)) == 6 + spec_options_len(all),
        decreases n - i,
    {
        let ghost rest = all.skip(i as int);
        proof {
            assert(rest[0] == options@[i as int]@);
            assert(rest.drop_first() == all.skip(i + 1));
        }
        let step: usize = match &options[i] {
            CotpOptions::TpduSize(_) => 3,
            CotpOptions::TSelDst(t) => 2 + t.value.len() % 256,
            CotpOptions::TSelSrc(t) => 2 + t.value.len() % 256,
        };
        proof {
            let full: int = rest[0].len() as int;
            assert(step % 256 == full % 256) by {
                match rest[0] {
                    CotpOptionsView::TpduSize(_) => {},
                    CotpOptionsView::TSelDst(v) => {
                        vstd::arithmetic::div_mod::lemma_add_mod_noop_right(2, v.len() as int, 256);
                    },
                    CotpOptionsView::TSelSrc(v) => {
                        vstd::arithmetic::div_mod::lemma_add_mod_noop_right(2, v.len() as int, 256);
                    },
                }
            }
            lemma_mod_step(done, step as int, full);
            done = done + full;
        }
        acc = (acc + step) % 256;
        i = i + 1;
    }
    acc as u8
}

/// Parses the parts of a CR or CC TPDU.
fn connect_from_bytes(code: u8, bytes: &[u8]) -> (res: Result<
    (u8, u16, u16, Vec<CotpOptions>),
    CotpError,
>)
    ensures
        match res {
            Ok(parts) => ConnectTpduView::parse(code, bytes@) == Ok::<ConnectTpduView, CotpError>(
                ConnectTpduView {
                    li: parts.0,
                    dst_ref: parts.1,
                    src_ref: parts.2,
                    options: option_views(parts.3@),
                },
            ) && options_wf(option_views(parts.3@)),
            Err(e) => ConnectTpduView::parse(code, bytes@) == Err::<ConnectTpduView, CotpError>(e),
        },
{
    if bytes.len() < 2 {
        return Err(CotpError::NotEnoughBytes);
    }
    let li: u8 = bytes[0];
    if bytes[1] != code {
        return Err(CotpError::InvalidTpduType { value: bytes[1], expected: TpduType::from(code) });
    }
    if bytes.len() < 6 {
        return Err(CotpError::NotEnoughBytes);
    }
    let dst_ref: u16 = from_be_bytes(bytes[2], bytes[3]);
    let src_ref: u16 = from_be_bytes(bytes[4], bytes[5]);
    if li < 6 || bytes.len() < li as usize + 1 {
        return Err(CotpError::NotEnoughBytes);
    }
    let body = vstd::slice::slice_subrange(bytes, 7, li as usize + 1);
    match bytes_to_options(body) {
        Ok(options) => Ok((li, dst_ref, src_ref, options)),
        Err(e) => Err(e),
    }
}

/// Encodes a CR or CC TPDU.
fn connect_to_bytes(code: u8, li: u8, dst_ref: u16, src_ref: u16, options: &Vec<CotpOptions>) -> (res:
    Vec<u8>)
    ensures
        res@ == (ConnectTpduView { li, dst_ref, src_ref, options: option_views(options@) }).bytes(
            code,
        ),
{
    let mut bytes: Vec<u8> = Vec::new();
    bytes.push(li);
    bytes.push(code);
    let dst: (u8, u8) = be_bytes(dst_ref);
    bytes.push(dst.0);
    bytes.push(dst.1);
    let src: (u8, u8) = be_bytes(src_ref);
    bytes.push(src.0);
    bytes.push(src.1);
    bytes.push(0x00);
    let encoded: Vec<u8> = options_to_bytes(options.as_slice());
    append_bytes(&mut bytes, encoded.as_slice());
    assert(bytes@ =~= (ConnectTpduView {
        li,
        dst_ref,
        src_ref,
        options: option_views(options@),
    }).bytes(code));
    bytes
}

/// Round trip of CR and CC TPDUs: a well-formed TPDU, encoded and parsed
/// again, comes back unchanged.
pub proof fn lemma_connect_roundtrip(code: u8, tpdu: ConnectTpduView)
    requires
        tpdu.wf(),
    ensures
        ConnectTpduView::parse(code, tpdu.bytes(code)) == Ok::<ConnectTpduView, CotpError>(tpdu),
        tpdu.bytes(code).len() == tpdu.li + 1,
{
    let bytes = tpdu.bytes(code);
    let tail = spec_options_to_bytes(tpdu.options);
    lemma_options_bytes_len(tpdu.options);
    lemma_options_roundtrip(tpdu.options);
    assert(bytes.subrange(7, tpdu.li + 1) == tail);
    assert(bytes[2] == spec_hi(tpdu.dst_ref) && bytes[3] == spec_lo(tpdu.dst_ref));
    assert(bytes[4] == spec_hi(tpdu.src_ref) && bytes[5] == spec_lo(tpdu.src_ref));
    assert(spec_be16(spec_hi(tpdu.dst_ref), spec_lo(tpdu.dst_ref)) == tpdu.dst_ref);
    assert(spec_be16(spec_hi(tpdu.src_ref), spec_lo(tpdu.src_ref)) == tpdu.src_ref);
}

/// The connection request TPDU.
#[derive(Debug, Clone, PartialEq, Eq)]
pub struct CrTpdu {
    /// The length indicator.
    pub li: u8,
    /// The destination reference.
    pub dst_ref: u16,
    /// The source reference.
    pub src_ref: u16,
    /// The options.
    pub options: Vec<CotpOptions>,
}

impl View for CrTpdu {
    type V = ConnectTpduView;

    open spec fn view(&self) -> ConnectTpduView {
        ConnectTpduView {
            li: self.li,
            dst_ref: self.dst_ref,
            src_ref: self.src_ref,
            options: option_views(self.options@),
        }
    }
}

impl CrTpdu {
    /// What a byte string parses to as a CR TPDU.
    pub open spec fn spec_parse(bytes: Seq<u8>) -> Result<ConnectTpduView, CotpError> {
        ConnectTpduView::parse(0xe0, bytes)
    }

    /// Creates a CR TPDU whose length indicator counts the fixed part and
    /// the options (modulo 256).
    pub fn new(dst_ref: u16, src_ref: u16, options: Vec<CotpOptions>) -> (res: Self)
        ensures
            res@.li == ConnectTpduView::spec_li(option_views(options@)),
            res@.dst_ref == dst_ref,
            res@.src_ref == src_ref,
            res@.options == option_views(options@),
            res.options == options,
    {
        Self { li: connect_li(&options), dst_ref, src_ref, options }
    }

    /// Parses a CR TPDU.
    pub fn from_bytes(bytes: &[u8]) -> (res: Result<Self, CotpError>)
        ensures
            parsed(res) == Self::spec_parse(bytes@),
            res matches Ok(t) ==> options_wf(t@.options),
    {
        match connect_from_bytes(0xe0, bytes) {
            Ok((li, dst_ref, src_ref, options)) => Ok(Self { li, dst_ref, src_ref, options }),
            Err(e) => Err(e),
        }
    }

    /// Encodes the CR TPDU.
    pub fn to_bytes(&self) -> (res: Vec<u8>)
        ensures
            res@ == self@.bytes(0xe0),
    {
        connect_to_bytes(0xe0, self.li, self.dst_ref, self.src_ref, &self.options)
    }

    /// The number of bytes that the length indicator announces, itself
    /// included.
    pub fn len(&self) -> (res: usize)
        ensures
            res == self.li + 1,
    {
        self.li as usize + 1
    }
}

/// The connection confirm TPDU.
#[derive(Debug, Clone, PartialEq, Eq)]
pub struct CcTpdu {
    /// The length indicator.
    pub li: u8,
    /// The destination reference.
    pub dst_ref: u16,
    /// The source reference.
    pub src_ref: u16,
    /// The options.
    pub options: Vec<CotpOptions>,
}

impl View for CcTpdu {
    type V = ConnectTpduView;

    open spec fn view(&self) -> ConnectTpduView {
        ConnectTpduView {
            li: self.li,
            dst_ref: self.dst_ref,
            src_ref: self.src_ref,
            options: option_views(self.options@),
        }
    }
}

impl CcTpdu {
    /// What a byte string parses to as a CC TPDU.
    pub open spec fn spec_parse(bytes: Seq<u8>) -> Result<ConnectTpduView, CotpError> {
        ConnectTpduView::parse(0xd0, bytes)
    }

    /// Creates a CC TPDU whose length indicator counts the fixed part and
    /// the options (modulo 256).
    pub fn new(dst_ref: u16, src_ref: u16, options: Vec<CotpOptions>) -> (res: Self)
        ensures
            res@.li == ConnectTpduView::spec_li(option_views(options@)),
            res@.dst_ref == dst_ref,
            res@.src_ref == src_ref,
            res@.options == option_views(options@),
            res.options == options,
    {
        Self { li: connect_li(&options), dst_ref, src_ref, options }
    }

    /// Parses a CC TPDU.
    pub fn from_bytes(bytes: &[u8]) -> (res: Result<Self, CotpError>)
        ensures
            parsed(res) == Self::spec_parse(bytes@),
            res matches Ok(t) ==> options_wf(t@.options),
    {
        match connect_from_bytes(0xd0, bytes) {
            Ok((li, dst_ref, src_ref, options)) => Ok(Self { li, dst_ref, src_ref, options }),
            Err(e) => Err(e),
        }
    }

    /// Encodes the CC TPDU.
    pub fn to_bytes(&self) -> (res: Vec<u8>)
        ensures
            res@ == self@.bytes(0xd0),
    {
        connect_to_bytes(0xd0, self.li, self.dst_ref, self.src_ref, &self.options)
    }

    /// The number of bytes that the length indicator announces, itself
    /// included.
    pub fn len(&self) -> (res: usize)
        ensures
            res == self.li + 1,
    {
        self.li as usize + 1
    }
}

/// The data TPDU.
#[derive(Debug, Clone, PartialEq, Eq)]
pub struct DtTpdu {
    /// Whether this TPDU ends the data unit.
    pub eot: Eot,
    /// The user data.
    pub data: Vec<u8>,
}

/// The ghost model of a DT TPDU.
pub struct DtTpduView {
    /// Whether this TPDU ends the data unit.
    pub eot: Eot,
    /// The user data.
    pub data: Seq<u8>,
}

impl View for DtTpdu {
    type V = DtTpduView;

    open spec fn view(&self) -> DtTpduView {
        DtTpduView { eot: self.eot, data: self.data@ }
    }
}

impl DtTpduView {
    /// The TPDU as it goes on the wire.
    pub open spec fn bytes(self) -> Seq<u8> {
        seq![0x02u8, 0xf0u8, self.eot.spec_code()] + self.data
    }
}

impl DtTpdu {
    /// What a byte string parses to as a DT TPDU.
    pub open spec fn spec_parse(bytes: Seq<u8>) -> Result<DtTpduView, CotpError> {
        if bytes.len() < 1 {
            Err(CotpError::NotEnoughBytes)
        } else if bytes[0] != 0x02 {
            Err(CotpError::InvalidLiValue { value: bytes[0], expected: 0x02 })
        } else if bytes.len() < 2 {
            Err(CotpError::NotEnoughBytes)
        } else if bytes[1] != 0xf0 {
            Err(CotpError::InvalidTpduType { value: bytes[1], expected: TpduType::DT })
        } else if bytes.len() < 3 {
            Err(CotpError::NotEnoughBytes)
        } else {
            match Eot::spec_from_code(bytes[2]) {
                Ok(eot) => Ok(DtTpduView { eot, data: bytes.skip(3) }),
                Err(e) => Err(e),
            }
        }
    }

    /// Creates a DT TPDU.
    pub fn new(eot: Eot, data: Vec<u8>) -> (res: Self)
        ensures
            res.eot == eot,
            res.data == data,
    {
        Self { eot, data }
    }

    /// Parses a DT TPDU: everything after the three header bytes is data.
    pub fn from_bytes(bytes: &[u8]) -> (res: Result<Self, CotpError>)
        ensures
            parsed(res) == Self::spec_parse(bytes@),
    {
        if bytes.len() < 1 {
            return Err(CotpError::NotEnoughBytes);
        }
        if bytes[0] != 0x02 {
            return Err(CotpError::InvalidLiValue { value: bytes[0], expected: 0x02 });
        }
        if bytes.len() < 2 {
            return Err(CotpError::NotEnoughBytes);
        }
        if bytes[1] != 0xf0 {
            return Err(CotpError::InvalidTpduType { value: bytes[1], expected: TpduType::DT });
        }
        if bytes.len() < 3 {
            return Err(CotpError::NotEnoughBytes);
        }
        match Eot::try_from(bytes[2]) {
            Ok(eot) => {
                let data: Vec<u8> = copy_range(bytes, 3, bytes.len());
                assert(data@ == bytes@.skip(3));
                Ok(Self { eot, data })
            },
            Err(e) => Err(e),
        }
    }

    /// Encodes the DT TPDU.
    pub fn to_bytes(&self) -> (res: Vec<u8>)
        ensures
            res@ == self@.bytes(),
    {
        let mut bytes: Vec<u8> = Vec::new();
        bytes.push(0x02);
        bytes.push(0xf0);
        bytes.push(self.eot.code());
        append_bytes(&mut bytes, self.data.as_slice());
        assert(bytes@ =~= self@.bytes());
        bytes
    }

    /// The number of bytes of the encoded TPDU.
    pub fn len(&self) -> (res: usize)
        requires
            self.data@.len() + 3 <= usize::MAX,
        ensures
            res == self.data@.len() + 3,
            res == self@.bytes().len(),
    {
        3 + self.data.len()
    }
}

/// Round trip of DT TPDUs: any DT TPDU, encoded and parsed again, comes back
/// unchanged.
pub proof fn lemma_dt_roundtrip(tpdu: DtTpduView)
    ensures
        DtTpdu::spec_parse(tpdu.bytes()) == Ok::<DtTpduView, CotpError>(tpdu),
{
    assert(tpdu.bytes().skip(3) == tpdu.data);
}

/// A COTP TPDU of one of the three supported types.
#[derive(Debug, Clone, PartialEq, Eq)]
pub enum Cotp {
    /// A connection request.
    Cr(CrTpdu),
    /// A connection confirm.
    Cc(CcTpdu),
    /// A data TPDU.
    Dt(DtTpdu),
}

/// The ghost model of a COTP TPDU.
pub enum CotpView {
    /// A connection request.
    Cr(ConnectTpduView),
    /// A connection confirm.
    Cc(ConnectTpduView),
    /// A data TPDU.
    Dt(DtTpduView),
}

impl View for Cotp {
    type V = CotpView;

    open spec fn view(&self) -> CotpView {
        match self {
            Cotp::Cr(tpdu) => CotpView::Cr(tpdu@),
            Cotp::Cc(tpdu) => CotpView::Cc(tpdu@),
            Cotp::Dt(tpdu) => CotpView::Dt(tpdu@),
        }
    }
}

impl CotpView {
    /// A TPDU is well formed when the parser gives it back from its own
    /// bytes. Every DT TPDU is.
    pub open spec fn wf(self) -> bool {
        match self {
            CotpView::Cr(tpdu) => tpdu.wf(),
            CotpView::Cc(tpdu) => tpdu.wf(),
            CotpView::Dt(_) => true,
        }
    }

    /// The TPDU as it goes on the wire.
    pub open spec fn bytes(self) -> Seq<u8> {
        match self {
            CotpView::Cr(tpdu) => tpdu.bytes(0xe0),
            CotpView::Cc(tpdu) => tpdu.bytes(0xd0),
            CotpView::Dt(tpdu) => tpdu.bytes(),
        }
    }

    /// The length that the TPDU announces: for CR and CC what the length
    /// indicator says, for DT the header and the data.
    pub open spec fn len(self) -> nat {
        match self {
            CotpView::Cr(tpdu) => (tpdu.li + 1) as nat,
            CotpView::Cc(tpdu) => (tpdu.li + 1) as nat,
            CotpView::Dt(tpdu) => tpdu.data.len() + 3,
        }
    }
}

impl Cotp {
    /// What a byte string parses to as a TPDU: the second byte decides the
    /// type.
    pub open spec fn spec_parse(bytes: Seq<u8>) -> Result<CotpView, CotpError> {
        if bytes.len() < 2 {
            Err(CotpError::NotEnoughBytes)
        } else {
            match TpduType::spec_from_code(bytes[1]) {
                TpduType::CR => match CrTpdu::spec_parse(bytes) {
                    Ok(tpdu) => Ok(CotpView::Cr(tpdu)),
                    Err(e) => Err(e),
                },
                TpduType::CC => match CcTpdu::spec_parse(bytes) {
                    Ok(tpdu) => Ok(CotpView::Cc(tpdu)),
                    Err(e) => Err(e),
                },
                TpduType::DT => match DtTpdu::spec_parse(bytes) {
                    Ok(tpdu) => Ok(CotpView::Dt(tpdu)),
                    Err(e) => Err(e),
                },
                TpduType::Invalid => Err(
                    CotpError::InvalidTpduType { value: bytes[1], expected: TpduType::Invalid },
                ),
            }
        }
    }

    /// Parses a TPDU.
    pub fn from_bytes(bytes: &[u8]) -> (res: Result<Self, CotpError>)
        ensures
            parsed(res) == Self::spec_parse(bytes@),
            res matches Ok(Cotp::Cr(t)) ==> options_wf(t@.options),
            res matches Ok(Cotp::Cc(t)) ==> options_wf(t@.options),
            res matches Ok(t) ==> t@.len() <= bytes@.len(),
    {
        if bytes.len() < 2 {
            return Err(CotpError::NotEnoughBytes);
        }
        match TpduType::from(bytes[1]) {
            TpduType::CR => match CrTpdu::from_bytes(bytes) {
                Ok(tpdu) => Ok(Cotp::Cr(tpdu)),
                Err(e) => Err(e),
            },
            TpduType::CC => match CcTpdu::from_bytes(bytes) {
                Ok(tpdu) => Ok(Cotp::Cc(tpdu)),
                Err(e) => Err(e),
            },
            TpduType::DT => match DtTpdu::from_bytes(bytes) {
                Ok(tpdu) => Ok(Cotp::Dt(tpdu)),
                Err(e) => Err(e),
            },
            TpduType::Invalid => Err(
                CotpError::InvalidTpduType { value: bytes[1], expected: TpduType::Invalid },
            ),
        }
    }

    /// Encodes the TPDU.
    pub fn to_bytes(&self) -> (res: Vec<u8>)
        ensures
            res@ == self@.bytes(),
    {
        match self {
            Cotp::Cr(tpdu) => tpdu.to_bytes(),
            Cotp::Cc(tpdu) => tpdu.to_bytes(),
            Cotp::Dt(tpdu) => tpdu.to_bytes(),
        }
    }

    /// The length that the TPDU announces.
    pub fn len(&self) -> (res: usize)
        requires
            self@.len() <= usize::MAX,
        ensures
            res == self@.len(),
    {
        match self {
            Cotp::Cr(tpdu) => tpdu.len(),
            Cotp::Cc(tpdu) => tpdu.len(),
            Cotp::Dt(tpdu) => tpdu.len(),
        }
    }
}

/// Round trip of TPDUs: a well-formed TPDU, encoded and parsed again, comes
/// back unchanged, and its encoding is as long as it announces.
pub proof fn lemma_cotp_roundtrip(tpdu: CotpView)
    requires
        tpdu.wf(),
    ensures
        Cotp::spec_parse(tpdu.bytes()) == Ok::<CotpView, CotpError>(tpdu),
        tpdu.bytes().len() == tpdu.len(),
{
    match tpdu {
        CotpView::Cr(t) => {
            lemma_connect_roundtrip(0xe0, t);
        },
        CotpView::Cc(t) => {
            lemma_connect_roundtrip(0xd0, t);
        },
        CotpView::Dt(t) => {
            lemma_dt_roundtrip(t);
        },
    }
}

/// A TPKT header with the given length field, followed by a body.
pub open spec fn spec_tpkt_bytes(length: u16, body: Seq<u8>) -> Seq<u8> {
    seq![0x03u8, 0x00u8, spec_hi(length), spec_lo(length)] + body
}

/// The TPKT frame around a payload: the length field counts the header and
/// the payload (modulo 65536).
pub open spec fn spec_tpkt_frame(payload: Seq<u8>) -> Seq<u8> {
    spec_tpkt_bytes(((payload.len() + 4) % 65536) as u16, payload)
}

/// The number of payload bytes that a TPKT header announces. The version
/// must be 3, the reserved byte 0, and the length at least that of the
/// header.
pub open spec fn spec_tpkt_body_length(header: Seq<u8>) -> Result<nat, CotpError> {
    if header.len() < 4 {
        Err(CotpError::NotEnoughBytes)
    } else if header[0] != 0x03 {
        Err(CotpError::InvalidTpktVersion)
    } else if header[1] != 0x00 {
        Err(CotpError::InvalidTpktVersion)
    } else if spec_be16(header[2], header[3]) < 4 {
        Err(CotpError::NotEnoughBytes)
    } else {
        Ok((spec_be16(header[2], header[3]) - 4) as nat)
    }
}

/// The payload of the TPKT frame at the start of a byte string. Bytes after
/// the frame are ignored.
pub open spec fn spec_tpkt_payload(bytes: Seq<u8>) -> Result<Seq<u8>, CotpError> {
    match spec_tpkt_body_length(bytes) {
        Ok(n) => if bytes.len() < 4 + n {
            Err(CotpError::NotEnoughBytes)
        } else {
            Ok(bytes.subrange(4, 4 + n as int))
        },
        Err(e) => Err(e),
    }
}

/// Checks a TPKT header and gives the number of payload bytes that follow.
pub fn tpkt_body_length(header: &[u8; 4]) -> (res: Result<usize, CotpError>)
    ensures
        match res {
            Ok(n) => spec_tpkt_body_length(header@) == Ok::<nat, CotpError>(n as nat) && n
                <= 65531,
            Err(e) => spec_tpkt_body_length(header@) == Err::<nat, CotpError>(e),
        },
{
    if header[0] != TPKT_VERSION {
        return Err(CotpError::InvalidTpktVersion);
    }
    if header[1] != 0 {
        return Err(CotpError::InvalidTpktVersion);
    }
    let length: u16 = from_be_bytes(header[2], header[3]);
    if length < 4 {
        return Err(CotpError::NotEnoughBytes);
    }
    Ok((length - 4) as usize)
}

/// TPKT round trip: a payload of at most 65531 bytes comes back from its
/// frame unchanged, and the frame starts with the version, a zero byte and
/// the length of payload plus header in network order.
pub proof fn lemma_tpkt_roundtrip(payload: Seq<u8>)
    requires
        payload.len() <= 65531,
    ensures
        spec_tpkt_payload(spec_tpkt_frame(payload)) == Ok::<Seq<u8>, CotpError>(payload),
        spec_tpkt_frame(payload).len() == payload.len() + 4,
        spec_tpkt_frame(payload).subrange(0, 4) == seq![
            0x03u8,
            0x00u8,
            ((payload.len() + 4) / 256) as u8,
            ((payload.len() + 4) % 256) as u8,
        ],
{
    let frame = spec_tpkt_frame(payload);
    let length = (payload.len() + 4) as u16;
    assert(frame[2] == spec_hi(length) && frame[3] == spec_lo(length));
    assert(spec_be16(spec_hi(length), spec_lo(length)) == length);
    assert(frame.subrange(4, 4 + payload.len() as int) == payload);
    assert(frame.subrange(0, 4) == seq![
        0x03u8,
        0x00u8,
        ((payload.len() + 4) / 256) as u8,
        ((payload.len() + 4) % 256) as u8,
    ]);
}

/// A TPKT packet: the length field and the TPDU it carries.
#[derive(Debug, Clone, PartialEq, Eq)]
pub struct Tpkt {
    /// The length of the packet, header included.
    pub length: u16,
    /// The TPDU.
    pub cotp: Cotp,
}

/// The ghost model of a TPKT packet.
pub struct TpktView {
    /// The length of the packet, header included.
    pub length: u16,
    /// The TPDU.
    pub cotp: CotpView,
}

impl View for Tpkt {
    type V = TpktView;

    open spec fn view(&self) -> TpktView {
        TpktView { length: self.length, cotp: self.cotp@ }
    }
}

impl TpktView {
    /// The length field for a TPDU: header plus TPDU, modulo 65536.
    pub open spec fn spec_length(cotp: CotpView) -> u16 {
        ((cotp.len() + 4) % 65536) as u16
    }

    /// The packet that carries a TPDU.
    pub open spec fn from_cotp(cotp: CotpView) -> TpktView {
        TpktView { length: Self::spec_length(cotp), cotp }
    }

    /// A packet is well formed when its TPDU is and its length field counts
    /// the header and the TPDU.
    pub open spec fn wf(self) -> bool {
        &&& self.cotp.wf()
        &&& self.length == self.cotp.len() + 4
    }

    /// The packet as it goes on the wire.
    pub open spec fn bytes(self) -> Seq<u8> {
        spec_tpkt_bytes(self.length, self.cotp.bytes())
    }
}

impl Tpkt {
    /// What a byte string parses to as a TPKT packet: the payload of the
    /// frame parsed as a TPDU, with the length field that belongs to it.
    pub open spec fn spec_parse(bytes: Seq<u8>) -> Result<TpktView, CotpError> {
        match spec_tpkt_payload(bytes) {
            Ok(body) => match Cotp::spec_parse(body) {
                Ok(cotp) => Ok(TpktView::from_cotp(cotp)),
                Err(e) => Err(e),
            },
            Err(e) => Err(e),
        }
    }

    /// Encodes the packet.
    pub fn to_bytes(&self) -> (res: Vec<u8>)
        ensures
            res@ == self@.bytes(),
    {
        let mut bytes: Vec<u8> = Vec::new();
        bytes.push(TPKT_VERSION);
        bytes.push(0x00);
        let length: (u8, u8) = be_bytes(self.length);
        bytes.push(length.0);
        bytes.push(length.1);
        let body: Vec<u8> = self.cotp.to_bytes();
        append_bytes(&mut bytes, body.as_slice());
        assert(bytes@ =~= self@.bytes());
        bytes
    }

    /// Wraps a TPDU in a packet whose length field counts the header and the
    /// TPDU (modulo 65536).
    pub fn from_cotp(cotp: Cotp) -> (res: Self)
        requires
            cotp@.len() + 4 <= usize::MAX,
        ensures
            res@ == TpktView::from_cotp(cotp@),
            res.cotp == cotp,
    {
        let length: usize = (cotp.len() + TPKT_HEADER_SIZE) % 65536;
        Self { length: length as u16, cotp }
    }

    /// Parses the packet at the start of a byte string.
    pub fn from_bytes(bytes: &[u8]) -> (res: Result<Self, CotpError>)
        ensures
            parsed(res) == Self::spec_parse(bytes@),
    {
        if bytes.len() < 4 {
            return Err(CotpError::NotEnoughBytes);
        }
        let header: [u8; 4] = [bytes[0], bytes[1], bytes[2], bytes[3]];
        assert(spec_tpkt_body_length(header@) == spec_tpkt_body_length(bytes@));
        let n: usize = match tpkt_body_length(&header) {
            Ok(n) => n,
            Err(e) => {
                return Err(e);
            },
        };
        if bytes.len() - 4 < n {
            return Err(CotpError::NotEnoughBytes);
        }
        let body = vstd::slice::slice_subrange(bytes, 4, 4 + n);
        match Cotp::from_bytes(body) {
            Ok(cotp) => Ok(Self::from_cotp(cotp)),
            Err(e) => Err(e),
        }
    }
}

/// Round trip of packets: a well-formed packet, encoded and parsed again,
/// comes back unchanged.
pub proof fn lemma_tpkt_packet_roundtrip(tpkt: TpktView)
    requires
        tpkt.wf(),
    ensures
        Tpkt::spec_parse(tpkt.bytes()) == Ok::<TpktView, CotpError>(tpkt),
        tpkt.bytes() == spec_tpkt_frame(tpkt.cotp.bytes()),
{
    lemma_cotp_roundtrip(tpkt.cotp);
    lemma_tpkt_roundtrip(tpkt.cotp.bytes());
}

/// The DT TPDUs that carry a data unit when each may hold at most `chunk`
/// bytes: the data cut into consecutive pieces, only the last of them marked
/// as the end. A data unit without data is carried by one TPDU without data
/// that is marked as the end. (Without room for data there is no TPDU.)
pub open spec fn spec_segments(data: Seq<u8>, chunk: nat) -> Seq<DtTpduView>
    decreases data.len(),
{
    if chunk == 0 {
        Seq::empty()
    } else if data.len() <= chunk {
        seq![DtTpduView { eot: Eot::Eot, data }]
    } else {
        seq![DtTpduView { eot: Eot::NoEot, data: data.take(chunk as int) }] + spec_segments(
            data.skip(chunk as int),
            chunk,
        )
    }
}

/// The bytes of a run of DT TPDUs, each in a TPKT frame of its own.
pub open spec fn spec_frames(tpdus: Seq<DtTpduView>) -> Seq<u8>
    decreases tpdus.len(),
{
    if tpdus.len() == 0 {
        Seq::empty()
    } else {
        spec_tpkt_frame(tpdus[0].bytes()) + spec_frames(tpdus.drop_first())
    }
}

/// What a run of received TPDUs gives when appended to the data gathered so
/// far: the whole data unit once a DT TPDU marks the end (later TPDUs are
/// not looked at), nothing yet when the run ends before that, and an error
/// when a TPDU is not a DT TPDU.
pub open spec fn spec_reassemble(gathered: Seq<u8>, tpdus: Seq<CotpView>) -> Result<
    Option<Seq<u8>>,
    CotpError,
>
    decreases tpdus.len(),
{
    if tpdus.len() == 0 {
        Ok(None)
    } else {
        match tpdus[0] {
            CotpView::Dt(dt) => if dt.eot == Eot::Eot {
                Ok(Some(gathered + dt.data))
            } else {
                spec_reassemble(gathered + dt.data, tpdus.drop_first())
            },
            _ => Err(CotpError::WrongCotpType),
        }
    }
}

/// The views of a sequence of DT TPDUs.
pub open spec fn dt_views(tpdus: Seq<DtTpdu>) -> Seq<DtTpduView> {
    tpdus.map_values(|t: DtTpdu| t@)
}

/// The views of a sequence of TPDUs.
pub open spec fn cotp_views(tpdus: Seq<Cotp>) -> Seq<CotpView> {
    tpdus.map_values(|t: Cotp| t@)
}

/// A run of DT TPDUs seen as TPDUs.
pub open spec fn as_cotp(tpdus: Seq<DtTpduView>) -> Seq<CotpView> {
    tpdus.map_values(|t: DtTpduView| CotpView::Dt(t))
}

/// Cuts a data unit into DT TPDUs for the given TPDU size: each carries at
/// most `tpdu_size - 3` bytes, and only the last is marked as the end.
/// There is always a last one, also for a data unit without data.
pub fn segment_data(data: &[u8], tpdu_size: u32) -> (res: Vec<DtTpdu>)
    requires
        COTP_DT_HEADER_SIZE < tpdu_size,
    ensures
        dt_views(res@) == spec_segments(data@, (tpdu_size - 3) as nat),
{
    let chunk: usize = tpdu_size as usize - COTP_DT_HEADER_SIZE;
    let n: usize = data.len();
    let mut tpdus: Vec<DtTpdu> = Vec::new();
    let mut start: usize = 0;
    proof {
        assert(data@.skip(0) == data@);
        assert(dt_views(tpdus@) == Seq::<DtTpduView>::empty());
        assert(Seq::<DtTpduView>::empty() + spec_segments(data@, chunk as nat) == spec_segments(
            data@,
            chunk as nat,
        ));
    }
    while n - start > chunk
        invariant
            n == data@.len(),
            start <= n,
            chunk == tpdu_size - 3,
            chunk > 0,
            spec_segments(data@, chunk as nat) == dt_views(tpdus@) + spec_segments(
                data@.skip(start as int),
                chunk as nat,
            ),
        decreases n - start,
    {
        let ghost rest = data@.skip(start as int);
        let ghost before = dt_views(tpdus@);
        let piece: Vec<u8> = copy_range(data, start, start + chunk);
        assert(piece@ == rest.take(chunk as int));
        let tpdu: DtTpdu = DtTpdu::new(Eot::NoEot, piece);
        tpdus.push(tpdu);
        proof {
            let tail = spec_segments(rest.skip(chunk as int), chunk as nat);
            assert(dt_views(tpdus@) == before + seq![tpdu@]);
            assert(rest.skip(chunk as int) == data@.skip(start + chunk));
            assert(before + (seq![tpdu@] + tail) == (before + seq![tpdu@]) + tail);
        }
        start = start + chunk;
    }
    let ghost rest = data@.skip(start as int);
    let ghost before = dt_views(tpdus@);
    let piece: Vec<u8> = copy_range(data, start, n);
    assert(piece@ == rest);
    let last: DtTpdu = DtTpdu::new(Eot::Eot, piece);
    tpdus.push(last);
    proof {
        assert(dt_views(tpdus@) == before + seq![last@]);
    }
    tpdus
}

/// Puts a payload into a TPKT frame: the header with the length of header
/// and payload (modulo 65536), then the payload.
pub fn tpkt_frame(payload: &[u8]) -> (res: Vec<u8>)
    ensures
        res@ == spec_tpkt_frame(payload@),
{
    let short: usize = payload.len() % 65536;
    let length: usize = (short + TPKT_HEADER_SIZE) % 65536;
    proof {
        vstd::arithmetic::div_mod::lemma_add_mod_noop(payload@.len() as int, 4, 65536);
        vstd::arithmetic::div_mod::lemma_add_mod_noop(short as int, 4, 65536);
        vstd::arithmetic::div_mod::lemma_mod_twice(payload@.len() as int, 65536);
        assert(length == (payload@.len() + 4) % 65536);
    }
    let field: (u8, u8) = be_bytes(length as u16);
    let mut frame: Vec<u8> = Vec::new();
    frame.push(TPKT_VERSION);
    frame.push(0x00);
    frame.push(field.0);
    frame.push(field.1);
    append_bytes(&mut frame, payload);
    assert(frame@ =~= spec_tpkt_frame(payload@));
    frame
}

/// The bytes to write for a data unit: its DT TPDUs for the given TPDU size,
/// each in a TPKT frame, back to back.
pub fn frame_data(data: &[u8], tpdu_size: u32) -> (res: Vec<u8>)
    requires
        COTP_DT_HEADER_SIZE < tpdu_size,
    ensures
        res@ == spec_frames(spec_segments(data@, (tpdu_size - 3) as nat)),
{
    let tpdus: Vec<DtTpdu> = segment_data(data, tpdu_size);
    let ghost all = dt_views(tpdus@);
    let mut buffer: Vec<u8> = Vec::new();
    let n: usize = tpdus.len();
    let mut i: usize = 0;
    assert(all.skip(0) == all);
    while i < n
        invariant
            n == tpdus@.len(),
            i <= n,
            all == dt_views(tpdus@),
            spec_frames(all) == buffer@ + spec_frames(all.skip(i as int)),
        decreases n - i,
    {
        let ghost rest = all.skip(i as int);
        let ghost old_buffer = buffer@;
        let body: Vec<u8> = tpdus[i].to_bytes();
        let frame: Vec<u8> = tpkt_frame(body.as_slice());
        append_bytes(&mut buffer, frame.as_slice());
        proof {
            assert(rest[0] == tpdus@[i as int]@);
            assert(rest.drop_first() == all.skip(i + 1));
            assert(old_buffer + (frame@ + spec_frames(all.skip(i + 1))) == (old_buffer + frame@)
                + spec_frames(all.skip(i + 1)));
        }
        i = i + 1;
    }
    assert(buffer@ + Seq::<u8>::empty() == buffer@);
    buffer
}

/// Gathers the data of DT TPDUs until one marks the end of the data unit.
#[derive(Debug, Clone, PartialEq, Eq)]
pub struct Reassembler {
    /// The data gathered so far.
    pub data: Vec<u8>,
}

impl View for Reassembler {
    type V = Seq<u8>;

    open spec fn view(&self) -> Seq<u8> {
        self.data@
    }
}

impl Reassembler {
    /// Starts with no data.
    pub fn new() -> (res: Self)
        ensures
            res@ == Seq::<u8>::empty(),
    {
        Self { data: Vec::new() }
    }

    /// Takes the next received TPDU. A DT TPDU that marks the end gives the
    /// whole data unit and empties the gatherer; another DT TPDU is kept and
    /// gives nothing yet; any other TPDU is an error and changes nothing.
    pub fn push(&mut self, tpdu: &Cotp) -> (res: Result<Option<Vec<u8>>, CotpError>)
        ensures
            match tpdu@ {
                CotpView::Dt(dt) => if dt.eot == Eot::Eot {
                    &&& res matches Ok(Some(unit))
                    &&& unit@ == old(self)@ + dt.data
                    &&& final(self)@ == Seq::<u8>::empty()
                } else {
                    &&& res == Ok::<Option<Vec<u8>>, CotpError>(None)
                    &&& final(self)@ == old(self)@ + dt.data
                },
                _ => {
                    &&& res == Err::<Option<Vec<u8>>, CotpError>(CotpError::WrongCotpType)
                    &&& final(self)@ == old(self)@
                },
            },
    {
        match tpdu {
            Cotp::Dt(dt) => {
                append_bytes(&mut self.data, dt.data.as_slice());
                match dt.eot {
                    Eot::Eot => {
                        let mut unit: Vec<u8> = Vec::new();
                        core::mem::swap(&mut unit, &mut self.data);
                        Ok(Some(unit))
                    },
                    Eot::NoEot => Ok(None),
                }
            },
            _ => Err(CotpError::WrongCotpType),
        }
    }
}

/// Reassembles a data unit from a run of received TPDUs: the data of the DT
/// TPDUs up to the first that marks the end. Gives nothing when the run ends
/// before that.
pub fn reassemble(tpdus: &[Cotp]) -> (res: Result<Option<Vec<u8>>, CotpError>)
    ensures
        match res {
            Ok(Some(unit)) => spec_reassemble(Seq::empty(), cotp_views(tpdus@)) == Ok::<
                Option<Seq<u8>>,
                CotpError,
            >(Some(unit@)),
            Ok(None) => spec_reassemble(Seq::empty(), cotp_views(tpdus@)) == Ok::<
                Option<Seq<u8>>,
                CotpError,
            >(None),
            Err(e) => spec_reassemble(Seq::empty(), cotp_views(tpdus@)) == Err::<
                Option<Seq<u8>>,
                CotpError,
            >(e),
        },
{
    let ghost all = cotp_views(tpdus@);
    let mut gatherer: Reassembler = Reassembler::new();
    let n: usize = tpdus.len();
    let mut i: usize = 0;
    assert(all.skip(0) == all);
    while i < n
        invariant
            n == tpdus@.len(),
            i <= n,
            all == cotp_views(tpdus@),
            spec_reassemble(Seq::empty(), all) == spec_reassemble(gatherer@, all.skip(i as int)),
        decreases n - i,
    {
        proof {
            let rest = all.skip(i as int);
            assert(rest[0] == tpdus@[i as int]@);
            assert(rest.drop_first() == all.skip(i + 1));
        }
        match gatherer.push(&tpdus[i]) {
            Ok(Some(unit)) => {
                return Ok(Some(unit));
            },
            Ok(None) => {},
            Err(e) => {
                return Err(e);
            },
        }
        i = i + 1;
    }
    Ok(None)
}

/// DT segmentation: every data unit, the empty one included, is cut into at
/// least one DT TPDU; exactly one of them marks the end, and it is the last;
/// none carries more than `chunk` bytes, and each but the last carries
/// exactly that many; and reassembling them gives the data unit back.
pub proof fn lemma_segment_reassemble(gathered: Seq<u8>, data: Seq<u8>, chunk: nat)
    requires
        chunk > 0,
    ensures
        spec_segments(data, chunk).len() >= 1,
        forall|i: int|
            0 <= i < spec_segments(data, chunk).len() ==> ((#[trigger] spec_segments(
                data,
                chunk,
            )[i]).eot == Eot::Eot <==> i == spec_segments(data, chunk).len() - 1),
        forall|i: int|
            0 <= i < spec_segments(data, chunk).len() ==> (#[trigger] spec_segments(
                data,
                chunk,
            )[i]).data.len() <= chunk,
        forall|i: int|
            0 <= i < spec_segments(data, chunk).len() - 1 ==> (#[trigger] spec_segments(
                data,
                chunk,
            )[i]).data.len() == chunk,
        spec_reassemble(gathered, as_cotp(spec_segments(data, chunk))) == Ok::<
            Option<Seq<u8>>,
            CotpError,
        >(Some(gathered + data)),
    decreases data.len(),
{
    let segments = spec_segments(data, chunk);
    if data.len() <= chunk {
        assert(as_cotp(segments)[0] == CotpView::Dt(segments[0]));
    } else {
        let head = DtTpduView { eot: Eot::NoEot, data: data.take(chunk as int) };
        let tail = spec_segments(data.skip(chunk as int), chunk);
        lemma_segment_reassemble(gathered + head.data, data.skip(chunk as int), chunk);
        assert(segments == seq![head] + tail);
        assert forall|i: int| 0 <= i < segments.len() implies ((#[trigger] segments[i]).eot
            == Eot::Eot <==> i == segments.len() - 1) by {
            if i > 0 {
                assert(segments[i] == tail[i - 1]);
            }
        }
        assert forall|i: int| 0 <= i < segments.len() implies (#[trigger] segments[i]).data.len()
            <= chunk by {
            if i > 0 {
                assert(segments[i] == tail[i - 1]);
            }
        }
        assert forall|i: int| 0 <= i < segments.len() - 1 implies (#[trigger] segments[i]).data.len()
            == chunk by {
            if i > 0 {
                assert(segments[i] == tail[i - 1]);
            }
        }
        assert(as_cotp(segments)[0] == CotpView::Dt(head));
        assert(as_cotp(segments).drop_first() == as_cotp(tail));
        assert(gathered + head.data + data.skip(chunk as int) == gathered + data);
    }
}

/// The number of DT TPDUs that carry a data unit of `len` bytes when each may
/// hold at most `chunk` bytes: as many as are needed, and at least one.
pub open spec fn spec_segment_count(len: nat, chunk: nat) -> int {
    if len == 0 {
        1
    } else {
        (len + chunk - 1) / (chunk as int)
    }
}

/// The pieces of a data unit: it is carried by as many DT TPDUs as are
/// needed and at least by one, and the TPDU at place `i` carries the bytes
/// from `i * chunk` up to the next multiple of `chunk` or the end of the
/// data.
pub proof fn lemma_segments_are_the_pieces(data: Seq<u8>, chunk: nat)
    requires
        chunk > 0,
    ensures
        spec_segments(data, chunk).len() == spec_segment_count(data.len(), chunk),
        forall|i: int|
            0 <= i < spec_segments(data, chunk).len() ==> (#[trigger] spec_segments(
                data,
                chunk,
            )[i]).data == data.subrange(
                i * chunk,
                if (i + 1) * chunk <= data.len() {
                    (i + 1) * chunk
                } else {
                    data.len() as int
                },
            ),
    decreases data.len(),
{
    let segments = spec_segments(data, chunk);
    let c = chunk as int;
    if data.len() <= chunk {
        if data.len() > 0 {
            assert((data.len() + c - 1) / c == 1) by {
                vstd::arithmetic::div_mod::lemma_div_plus_one(data.len() - 1, c);
                vstd::arithmetic::div_mod::lemma_basic_div(data.len() - 1, c);
            }
        }
        assert(segments.len() == 1);
        assert(0 * c == 0 && 1 * c == c) by (nonlinear_arith);
        assert(segments[0].data =~= data.subrange(
            0,
            if c <= data.len() {
                c
            } else {
                data.len() as int
            },
        ));
    } else {
        let rest = data.skip(c);
        let tail = spec_segments(rest, chunk);
        lemma_segments_are_the_pieces(rest, chunk);
        assert(segments == seq![DtTpduView { eot: Eot::NoEot, data: data.take(c) }] + tail);
        assert((data.len() + c - 1) / c == 1 + (rest.len() + c - 1) / c) by {
            vstd::arithmetic::div_mod::lemma_div_plus_one(rest.len() + c - 1, c);
        }
        assert forall|i: int| 0 <= i < segments.len() implies (#[trigger] segments[i]).data
            == data.subrange(
            i * c,
            if (i + 1) * c <= data.len() {
                (i + 1) * c
            } else {
                data.len() as int
            },
        ) by {
            if i == 0 {
                assert(0 * c == 0 && 1 * c == c) by (nonlinear_arith);
                assert(data.take(c) =~= data.subrange(0, c));
            } else {
                assert(segments[i] == tail[i - 1]);
                assert((i - 1) * c + c == i * c && i * c + c == (i + 1) * c && i * c >= c)
                    by (nonlinear_arith)
                    requires
                        i >= 1,
                        c > 0,
                ;
                let from = (i - 1) * c;
                let to = if i * c <= rest.len() {
                    i * c
                } else {
                    rest.len() as int
                };
                assert(tail[i - 1].data == rest.subrange(from, to));
                assert(0 <= from <= to <= rest.len()) by {
                    lemma_segment_bounds(rest, chunk, i - 1);
                }
                assert(rest.subrange(from, to) =~= data.subrange(from + c, to + c));
            }
        }
    }
}

/// The piece at place `i` starts within the data.
proof fn lemma_segment_bounds(data: Seq<u8>, chunk: nat, i: int)
    requires
        chunk > 0,
        0 <= i < spec_segments(data, chunk).len(),
    ensures
        0 <= i * chunk <= data.len(),
    decreases data.len(),
{
    let c = chunk as int;
    if data.len() <= chunk {
        assert(spec_segments(data, chunk).len() == 1);
        assert(0 * c == 0) by (nonlinear_arith);
    } else if i > 0 {
        lemma_segment_bounds(data.skip(c), chunk, i - 1);
        assert((i - 1) * c + c == i * c) by (nonlinear_arith);
    } else {
        assert(0 * c == 0) by (nonlinear_arith);
    }
}

/// The reference by which this side names a connection.
pub const LOCAL_REFERENCE: u16 = 1;

/// The options of the connection request for a configuration.
pub open spec fn spec_request_options(
    tpdu_size: u32,
    remote_t_sel: Seq<u8>,
    local_t_sel: Seq<u8>,
) -> Seq<CotpOptionsView> {
    seq![
        CotpOptionsView::TpduSize(TpduSize::spec_calculate_value(tpdu_size)),
        CotpOptionsView::TSelDst(remote_t_sel),
        CotpOptionsView::TSelSrc(local_t_sel),
    ]
}

/// The connection request for a configuration: destination reference 0,
/// source reference 1, and the options TPDU size, destination selector and
/// source selector, in this order.
pub open spec fn spec_request(
    tpdu_size: u32,
    remote_t_sel: Seq<u8>,
    local_t_sel: Seq<u8>,
) -> ConnectTpduView {
    ConnectTpduView {
        li: ConnectTpduView::spec_li(spec_request_options(tpdu_size, remote_t_sel, local_t_sel)),
        dst_ref: 0,
        src_ref: LOCAL_REFERENCE,
        options: spec_request_options(tpdu_size, remote_t_sel, local_t_sel),
    }
}

/// Builds the frame that asks for a connection. A selector of more than 16
/// bytes is refused: the destination selector with `InvalidTselDst`, else
/// the source selector with `InvalidTselSrc`.
pub fn request_connection(tpdu_size: u32, remote_t_sel: &[u8], local_t_sel: &[u8]) -> (res: Result<
    Vec<u8>,
    CotpError,
>)
    ensures
        match res {
            Ok(bytes) => {
                &&& remote_t_sel@.len() <= MAX_SELECTOR_SIZE
                &&& local_t_sel@.len() <= MAX_SELECTOR_SIZE
                &&& bytes@ == spec_tpkt_frame(
                    spec_request(tpdu_size, remote_t_sel@, local_t_sel@).bytes(0xe0),
                )
                &&& spec_request(tpdu_size, remote_t_sel@, local_t_sel@).wf()
            },
            Err(e) => if remote_t_sel@.len() > MAX_SELECTOR_SIZE {
                e == CotpError::InvalidTselDst
            } else {
                local_t_sel@.len() > MAX_SELECTOR_SIZE && e == CotpError::InvalidTselSrc
            },
        },
{
    if remote_t_sel.len() > MAX_SELECTOR_SIZE {
        return Err(CotpError::InvalidTselDst);
    }
    if local_t_sel.len() > MAX_SELECTOR_SIZE {
        return Err(CotpError::InvalidTselSrc);
    }
    let mut options: Vec<CotpOptions> = Vec::new();
    options.push(CotpOptions::TpduSize(TpduSize::new(tpdu_size)));
    options.push(
        CotpOptions::TSelDst(TselDst { value: copy_range(remote_t_sel, 0, remote_t_sel.len()) }),
    );
    options.push(
        CotpOptions::TSelSrc(TselSrc { value: copy_range(local_t_sel, 0, local_t_sel.len()) }),
    );
    proof {
        let wanted = spec_request_options(tpdu_size, remote_t_sel@, local_t_sel@);
        assert(remote_t_sel@.subrange(0, remote_t_sel@.len() as int) == remote_t_sel@);
        assert(local_t_sel@.subrange(0, local_t_sel@.len() as int) == local_t_sel@);
        assert(option_views(options@) == wanted);
        lemma_request_wf(tpdu_size, remote_t_sel@, local_t_sel@);
    }
    let request: CrTpdu = CrTpdu::new(0, LOCAL_REFERENCE, options);
    proof {
        assert(request@ == spec_request(tpdu_size, remote_t_sel@, local_t_sel@));
        lemma_connect_roundtrip(0xe0, request@);
    }
    let tpkt: Tpkt = Tpkt::from_cotp(Cotp::Cr(request));
    Ok(tpkt.to_bytes())
}

/// The connection request for selectors of at most 16 bytes is well formed.
pub proof fn lemma_request_wf(tpdu_size: u32, remote_t_sel: Seq<u8>, local_t_sel: Seq<u8>)
    requires
        remote_t_sel.len() <= MAX_SELECTOR_SIZE,
        local_t_sel.len() <= MAX_SELECTOR_SIZE,
    ensures
        spec_request(tpdu_size, remote_t_sel, local_t_sel).wf(),
        spec_request(tpdu_size, remote_t_sel, local_t_sel).li == 13 + remote_t_sel.len()
            + local_t_sel.len(),
{
    let options = spec_request_options(tpdu_size, remote_t_sel, local_t_sel);
    let one = options.drop_first();
    let two = one.drop_first();
    assert(one[0] == options[1]);
    assert(two[0] == options[2]);
    assert(two.len() == 1);
    assert(two.drop_first().len() == 0);
    assert(spec_options_len(two.drop_first()) == 0);
    assert(spec_options_len(two) == local_t_sel.len() + 2);
    assert(spec_options_len(one) == remote_t_sel.len() + 2 + spec_options_len(two));
    assert(spec_options_len(options) == 3 + spec_options_len(one));
}

/// The exponent of the first TPDU-size option, if there is one.
pub open spec fn spec_first_tpdu_size(options: Seq<CotpOptionsView>) -> Option<u8>
    decreases options.len(),
{
    if options.len() == 0 {
        None
    } else {
        match options[0] {
            CotpOptionsView::TpduSize(value) => Some(value),
            _ => spec_first_tpdu_size(options.drop_first()),
        }
    }
}

/// What the answer to a connection request means: the TPDU size for the
/// connection. Only a CC TPDU that names our reference confirms; its first
/// TPDU-size option gives the size, and 8192 holds without one.
pub open spec fn spec_confirm(answer: CotpView, local_ref: u16) -> Result<nat, CotpError> {
    match answer {
        CotpView::Cc(cc) => if cc.dst_ref != local_ref {
            Err(CotpError::ConnectionFailed)
        } else {
            match spec_first_tpdu_size(cc.options) {
                Some(value) => if TpduSize::spec_legal(value) {
                    Ok(TpduSize::spec_size(value))
                } else {
                    Err(CotpError::InvalidTpduSize)
                },
                None => Ok(COTP_MAX_TPDU_SIZE as nat),
            }
        },
        _ => Err(CotpError::WrongCotpType),
    }
}

/// Reads the answer to a connection request and gives the TPDU size of the
/// connection.
#[verifier::loop_isolation(false)]
pub fn confirm_connection(answer: &Cotp, local_ref: u16) -> (res: Result<u32, CotpError>)
    ensures
        match res {
            Ok(size) => spec_confirm(answer@, local_ref) == Ok::<nat, CotpError>(size as nat)
                && 128 <= size <= 8192,
            Err(e) => spec_confirm(answer@, local_ref) == Err::<nat, CotpError>(e),
        },
{
    match answer {
        Cotp::Cc(cc) => {
            if cc.dst_ref != local_ref {
                return Err(CotpError::ConnectionFailed);
            }
            let ghost all = option_views(cc.options@);
            let n: usize = cc.options.len();
            let mut i: usize = 0;
            assert(all.skip(0) == all);
            while i < n
                invariant
                    n == cc.options@.len(),
                    i <= n,
                    all == option_views(cc.options@),
                    spec_first_tpdu_size(all) == spec_first_tpdu_size(all.skip(i as int)),
                decreases n - i,
            {
                proof {
                    let rest = all.skip(i as int);
                    assert(rest[0] == cc.options@[i as int]@);
                    assert(rest.drop_first() == all.skip(i + 1));
                }
                match &cc.options[i] {
                    CotpOptions::TpduSize(tpdu_size) => {
                        if tpdu_size.value < 7 || tpdu_size.value > 13 {
                            return Err(CotpError::InvalidTpduSize);
                        }
                        return Ok(tpdu_size.get_value());
                    },
                    _ => {},
                }
                i = i + 1;
            }
            Ok(COTP_MAX_TPDU_SIZE)
        },
        _ => Err(CotpError::WrongCotpType),
    }
}

} // verus!
