use vstd::prelude::*;
use vstd::utf8::*;
use crate::message::Message;
use crate::{WsGonzaleError, WsGonzaleResult};

verus! {

// ---------------------------------------------------------------------------
// The masking transform
// ---------------------------------------------------------------------------
/// The payload-masking transform of the wire format: byte `i` of the buffer
/// is XORed with byte `i mod 4` of the key.
pub open spec fn mask_spec(data: Seq<u8>, key: Seq<u8>) -> Seq<u8>
    recommends
        key.len() == 4,
{
    Seq::new(data.len(), |i: int| data[i] ^ key[i % 4])
}

/// Masking twice with one key restores the buffer: the transform is an
/// involution.
pub proof fn lemma_mask_involutive(data: Seq<u8>, key: Seq<u8>)
    requires
        key.len() == 4,
    ensures
        mask_spec(mask_spec(data, key), key) == data,
{
    assert forall|i: int| 0 <= i < data.len() implies mask_spec(mask_spec(data, key), key)[i]
        == data[i] by {
        let d = data[i];
        let k = key[i % 4];
        assert((d ^ k) ^ k == d) by (bit_vector);
    }
    assert(mask_spec(mask_spec(data, key), key) =~= data);
}

/// The all-zero key is the identity: masking with it changes nothing.
pub proof fn lemma_mask_zero_key(data: Seq<u8>)
    ensures
        mask_spec(data, seq![0u8, 0u8, 0u8, 0u8]) == data,
{
    assert forall|i: int| 0 <= i < data.len() implies mask_spec(
        data,
        seq![0u8, 0u8, 0u8, 0u8],
    )[i] == data[i] by {
        let d = data[i];
        assert(d ^ 0 == d) by (bit_vector);
    }
    assert(mask_spec(data, seq![0u8, 0u8, 0u8, 0u8]) =~= data);
}

/// Masks the buffer in place; the buffer afterwards holds the transform of
/// what it held before.
pub fn super_mask(data: &mut Vec<u8>, mask: [u8; 4])
    ensures
        final(data)@ == mask_spec(old(data)@, mask@),
{
    mask_payload_mut(data, mask);
}

/// The in-place variant of the masking transform: mutates the buffer it is
/// given.
pub fn mask_payload_mut(data: &mut Vec<u8>, mask: [u8; 4])
    ensures
        final(data)@ == mask_spec(old(data)@, mask@),
{
    let n = data.len();
    let mut i: usize = 0;
    while i < n
        invariant
            n == data@.len() == old(data)@.len(),
            i <= n,
            forall|j: int| 0 <= j < i ==> data@[j] == mask_spec(old(data)@, mask@)[j],
            forall|j: int| i <= j < n ==> data@[j] == old(data)@[j],
        decreases n - i,
    {
        let mask_key = mask[i % 4];
        data[i] = data[i] ^ mask_key;
        i += 1;
    }
    assert(data@ =~= mask_spec(old(data)@, mask@));
}

/// The copying variant of the masking transform: reads the slice and returns
/// a fresh transformed buffer.
pub fn mask_payload(data: &[u8], mask: [u8; 4]) -> (r: Vec<u8>)
    ensures
        r@ == mask_spec(data@, mask@),
{
    let mut out: Vec<u8> = Vec::new();
    let n = data.len();
    let mut i: usize = 0;
    while i < n
        invariant
            n == data@.len(),
            i <= n,
            out@.len() == i,
            forall|j: int| 0 <= j < i ==> out@[j] == mask_spec(data@, mask@)[j],
        decreases n - i,
    {
        let mask_key = mask[i % 4];
        out.push(data[i] ^ mask_key);
        i += 1;
    }
    assert(out@ =~= mask_spec(data@, mask@));
    out
}

/// The owning variant of the masking transform: consumes the buffer and
/// returns it transformed.
pub fn mask_payload_vec(data: Vec<u8>, mask: [u8; 4]) -> (r: Vec<u8>)
    ensures
        r@ == mask_spec(data@, mask@),
{
    let mut data = data;
    mask_payload_mut(&mut data, mask);
    data
}

// ---------------------------------------------------------------------------
// What the wire bytes of a frame mean
// ---------------------------------------------------------------------------
/// The final-fragment bit: bit 7 of byte 0.
pub open spec fn spec_fin(b: Seq<u8>) -> bool {
    b.len() >= 1 && b[0] & 128 == 128
}

/// The first reserved bit: bit 6 of byte 0.
pub open spec fn spec_rsv1(b: Seq<u8>) -> bool {
    b.len() >= 1 && b[0] & 64 == 64
}

/// The second reserved bit: bit 5 of byte 0.
pub open spec fn spec_rsv2(b: Seq<u8>) -> bool {
    b.len() >= 1 && b[0] & 32 == 32
}

/// The third reserved bit: bit 4 of byte 0.
pub open spec fn spec_rsv3(b: Seq<u8>) -> bool {
    b.len() >= 1 && b[0] & 16 == 16
}

/// The opcode: the low four bits of byte 0. A missing byte reads as the
/// close opcode.
pub open spec fn spec_opcode(b: Seq<u8>) -> u8 {
    if b.len() >= 1 {
        b[0] & 0x0f
    } else {
        8
    }
}

/// The mask bit: bit 7 of byte 1.
pub open spec fn spec_masked(b: Seq<u8>) -> bool {
    b.len() >= 2 && b[1] & 128 == 128
}

/// The short payload length: the low seven bits of byte 1.
pub open spec fn spec_short_len(b: Seq<u8>) -> u8 {
    if b.len() >= 2 {
        b[1] & 0x7f
    } else {
        0
    }
}

/// How many extended-length bytes the short length announces: none up to
/// 125, two at 126, eight at 127.
pub open spec fn spec_ext_len_bytes(b: Seq<u8>) -> int {
    if spec_short_len(b) <= 125 {
        0
    } else if spec_short_len(b) == 126 {
        2
    } else {
        8
    }
}

/// Whether the buffer reaches past the length encoding: a short length is
/// complete in itself, the extended encodings need their bytes.
pub open spec fn spec_len_bytes_present(b: Seq<u8>) -> bool {
    spec_short_len(b) <= 125 || b.len() >= 2 + spec_ext_len_bytes(b)
}

/// A big-endian sixteen-bit quantity, widened.
pub open spec fn spec_u16_be(hi: u8, lo: u8) -> u64 {
    ((hi as u64) << 8) | (lo as u64)
}

/// A big-endian sixty-four-bit quantity from eight bytes.
pub open spec fn spec_u64_be(s: Seq<u8>) -> u64
    recommends
        s.len() == 8,
{
    ((s[0] as u64) << 56) | ((s[1] as u64) << 48) | ((s[2] as u64) << 40) | ((s[3] as u64) << 32)
        | ((s[4] as u64) << 24) | ((s[5] as u64) << 16) | ((s[6] as u64) << 8) | (s[7] as u64)
}

/// The payload length after resolving the extended-length encoding.
pub open spec fn spec_payload_len(b: Seq<u8>) -> u64
    recommends
        spec_len_bytes_present(b),
{
    if spec_short_len(b) <= 125 {
        spec_short_len(b) as u64
    } else if spec_short_len(b) == 126 {
        spec_u16_be(b[2], b[3])
    } else {
        spec_u64_be(b.subrange(2, 10))
    }
}

/// Where the four masking-key bytes would begin.
pub open spec fn spec_key_offset(b: Seq<u8>) -> int {
    2 + spec_ext_len_bytes(b)
}

/// The masking key: the four bytes after the length when the mask bit is
/// set and they are present, the all-zero key otherwise.
pub open spec fn spec_key(b: Seq<u8>) -> Seq<u8> {
    if spec_masked(b) && b.len() >= spec_key_offset(b) + 4 {
        b.subrange(spec_key_offset(b), spec_key_offset(b) + 4)
    } else {
        seq![0u8, 0u8, 0u8, 0u8]
    }
}

/// Where the payload begins: after the length, and after the key when the
/// mask bit is set.
pub open spec fn spec_payload_offset(b: Seq<u8>) -> int {
    spec_key_offset(b) + if spec_masked(b) {
        4int
    } else {
        0int
    }
}

/// How many bytes the frame occupies on the wire.
pub open spec fn spec_full_frame_len(b: Seq<u8>) -> int {
    spec_payload_offset(b) + spec_payload_len(b)
}

/// The payload the frame carries, already unmasked.
pub open spec fn spec_payload(b: Seq<u8>) -> Seq<u8>
    recommends
        spec_frame_valid(b),
{
    mask_spec(
        b.subrange(spec_payload_offset(b), spec_payload_offset(b) + spec_payload_len(b)),
        spec_key(b),
    )
}

/// When a buffer holds one complete decodable data frame: two header bytes,
/// an opcode other than close, the announced length bytes, the key bytes
/// when the mask bit is set, and the whole payload.
pub open spec fn spec_frame_valid(b: Seq<u8>) -> bool {
    &&& b.len() >= 2
    &&& spec_opcode(b) != 8
    &&& spec_len_bytes_present(b)
    &&& (spec_masked(b) ==> b.len() >= spec_key_offset(b) + 4)
    &&& b.len() >= spec_full_frame_len(b)
}

/// The error a buffer decodes to when it is not a valid data frame: the
/// close opcode reads as an orderly close, everything else as a malformed
/// payload.
pub open spec fn spec_decode_err(b: Seq<u8>) -> WsGonzaleError {
    if b.len() >= 2 && spec_opcode(b) == 8 {
        WsGonzaleError::ConnectionClosed
    } else {
        WsGonzaleError::InvalidPayload
    }
}

// ---------------------------------------------------------------------------
// The decoded frame
// ---------------------------------------------------------------------------
/// The frame kinds the opcode field distinguishes.
pub enum Opcode {
    Continuation,
    Text,
    Close,
    Ping,
    Pong,
    Unknown,
}

/// A decoded data frame: the header bits, the resolved payload length, the
/// masking key (all zero when the frame was unmasked), the payload already
/// unmasked, and how many wire bytes the frame occupied.
#[derive(Debug)]
pub struct Dataframe {
    fin: bool,
    rsv1: bool,
    rsv2: bool,
    rsv3: bool,
    is_mask: bool,
    opcode: u8,
    payload_length: u64,
    full_frame_length: u64,
    masking_key: [u8; 4],
    payload: Vec<u8>,
}

impl Dataframe {
    pub closed spec fn spec_fin(&self) -> bool {
        self.fin
    }

    pub closed spec fn spec_rsv1(&self) -> bool {
        self.rsv1
    }

    pub closed spec fn spec_rsv2(&self) -> bool {
        self.rsv2
    }

    pub closed spec fn spec_rsv3(&self) -> bool {
        self.rsv3
    }

    pub closed spec fn spec_is_mask(&self) -> bool {
        self.is_mask
    }

    pub closed spec fn spec_opcode(&self) -> u8 {
        self.opcode
    }

    pub closed spec fn spec_payload_length(&self) -> u64 {
        self.payload_length
    }

    pub closed spec fn spec_full_frame_length(&self) -> u64 {
        self.full_frame_length
    }

    pub closed spec fn spec_masking_key(&self) -> Seq<u8> {
        self.masking_key@
    }

    pub closed spec fn spec_payload(&self) -> Seq<u8> {
        self.payload@
    }

    /// What it means for this frame to be the decoding of the wire bytes
    /// `b`: every field agrees with what the bytes say.
    pub open spec fn decodes_from(&self, b: Seq<u8>) -> bool {
        &&& self.spec_fin() == spec_fin(b)
        &&& self.spec_rsv1() == spec_rsv1(b)
        &&& self.spec_rsv2() == spec_rsv2(b)
        &&& self.spec_rsv3() == spec_rsv3(b)
        &&& self.spec_is_mask() == spec_masked(b)
        &&& self.spec_opcode() == spec_opcode(b)
        &&& self.spec_payload_length() == spec_payload_len(b)
        &&& self.spec_full_frame_length() == spec_full_frame_len(b)
        &&& self.spec_masking_key() == spec_key(b)
        &&& self.spec_payload() == spec_payload(b)
    }
}

// ---------------------------------------------------------------------------
// The decoder
// ---------------------------------------------------------------------------
/// Wraps the wire bytes of one frame and reads the header fields out of
/// them; `new` runs the whole decoding.
pub struct DataframeBuilder(Vec<u8>);

impl View for DataframeBuilder {
    type V = Seq<u8>;

    closed spec fn view(&self) -> Seq<u8> {
        self.0@
    }
}

/// How many extended-length bytes follow the short length: none (the short
/// length is the value), two, or eight.
enum ExtraSize {
    Zero(u8),
    Two,
    Eight,
}

impl DataframeBuilder {
    /// Decodes one complete frame out of the buffer. Succeeds exactly on the
    /// buffers that hold a whole non-close data frame; a close frame reads
    /// as `ConnectionClosed`, anything else malformed as `InvalidPayload`.
    /// Trailing bytes beyond the frame are ignored.
    pub fn new(buffer: Vec<u8>) -> (r: WsGonzaleResult<Dataframe>)
        ensures
            r is Ok <==> spec_frame_valid(buffer@),
            r matches Ok(df) ==> df.decodes_from(buffer@),
            r matches Err(e) ==> e == spec_decode_err(buffer@),
    {
        DataframeBuilder(buffer).get_dataframe()
    }

    /// Wraps a buffer without decoding it, so that the header accessors can
    /// be used on a frame prefix.
    pub fn from_bytes(buffer: Vec<u8>) -> (r: DataframeBuilder)
        ensures
            r@ == buffer@,
    {
        DataframeBuilder(buffer)
    }

    fn is_fin(&self) -> (r: bool)
        ensures
            r == spec_fin(self@),
    {
        if self.0.len() >= 1 {
            (self.0[0] & 128) == 128
        } else {
            false
        }
    }

    fn is_rsv1(&self) -> (r: bool)
        ensures
            r == spec_rsv1(self@),
    {
        if self.0.len() >= 1 {
            (self.0[0] & 64) == 64
        } else {
            false
        }
    }

    fn is_rsv2(&self) -> (r: bool)
        ensures
            r == spec_rsv2(self@),
    {
        if self.0.len() >= 1 {
            (self.0[0] & 32) == 32
        } else {
            false
        }
    }

    fn is_rsv3(&self) -> (r: bool)
        ensures
            r == spec_rsv3(self@),
    {
        if self.0.len() >= 1 {
            (self.0[0] & 16) == 16
        } else {
            false
        }
    }

    /// The low four bits of byte 0; a missing byte reads as close.
    fn get_opcode(&self) -> (r: u8)
        ensures
            r == spec_opcode(self@),
    {
        if self.0.len() >= 1 {
            self.0[0] & 0x0f
        } else {
            8
        }
    }

    fn is_mask(&self) -> (r: bool)
        ensures
            r == spec_masked(self@),
    {
        if self.0.len() >= 2 {
            (self.0[1] & 128) == 128
        } else {
            false
        }
    }

    /// The low seven bits of byte 1.
    fn get_short_payload_length(&self) -> (r: u8)
        ensures
            r == spec_short_len(self@),
            r <= 127,
    {
        if self.0.len() >= 2 {
            let b: u8 = self.0[1];
            let r = b & 0x7f;
            assert(b & 0x7f <= 127) by (bit_vector);
            r
        } else {
            0
        }
    }

    fn get_extra_payload_bytes(&self) -> (r: WsGonzaleResult<ExtraSize>)
        ensures
            match r {
                Ok(e) => match e {
                    ExtraSize::Zero(v) => spec_short_len(self@) <= 125 && v == spec_short_len(
                        self@,
                    ),
                    ExtraSize::Two => spec_short_len(self@) == 126,
                    ExtraSize::Eight => spec_short_len(self@) == 127,
                },
                Err(_) => false,
            },
    {
        let short = self.get_short_payload_length();
        let result = if short <= 125 {
            ExtraSize::Zero(short)
        } else if short == 126 {
            ExtraSize::Two
        } else {
            ExtraSize::Eight
        };
        Ok(result)
    }

    fn get_payload_length(&self) -> (r: WsGonzaleResult<u64>)
        ensures
            r is Ok <==> spec_len_bytes_present(self@),
            r matches Ok(v) ==> v == spec_payload_len(self@),
            r matches Err(e) ==> e == WsGonzaleError::InvalidPayload,
    {
        let result = match self.get_extra_payload_bytes() {
            Ok(e) => match e {
                ExtraSize::Zero(size) => size as u64,
                ExtraSize::Two => {
                    if self.0.len() >= 4 {
                        ((self.0[2] as u64) << 8u64) | (self.0[3] as u64)
                    } else {
                        return Err(WsGonzaleError::InvalidPayload);
                    }
                },
                ExtraSize::Eight => {
                    if self.0.len() >= 10 {
                        let v: u64 = ((self.0[2] as u64) << 56u64) | ((self.0[3] as u64) << 48u64)
                            | ((self.0[4] as u64) << 40u64) | ((self.0[5] as u64) << 32u64) | ((
                        self.0[6] as u64) << 24u64) | ((self.0[7] as u64) << 16u64) | ((
                        self.0[8] as u64) << 8u64) | (self.0[9] as u64);
                        assert(self@.subrange(2, 10) =~= seq![
                            self@[2],
                            self@[3],
                            self@[4],
                            self@[5],
                            self@[6],
                            self@[7],
                            self@[8],
                            self@[9],
                        ]);
                        v
                    } else {
                        return Err(WsGonzaleError::InvalidPayload);
                    }
                },
            },
            Err(e) => {
                return Err(e);
            },
        };
        Ok(result)
    }

    /// Where the payload begins: after the length encoding, and after the
    /// key when the mask bit is set.
    fn get_payload_start_pos(&self) -> (r: WsGonzaleResult<u64>)
        ensures
            r matches Ok(v) && v == spec_payload_offset(self@),
    {
        let ext: u64 = match self.get_extra_payload_bytes() {
            Ok(e) => match e {
                ExtraSize::Zero(_) => 0,
                ExtraSize::Two => 2,
                ExtraSize::Eight => 8,
            },
            Err(e) => {
                return Err(e);
            },
        };
        let base: u64 = 2 + ext;
        if self.is_mask() {
            Ok(base + 4)
        } else {
            Ok(base)
        }
    }

    /// The whole frame's wire size. Fails when the length bytes are missing
    /// or the announced size does not fit the wire-size field.
    pub fn get_full_frame_length(&self) -> (r: WsGonzaleResult<u64>)
        ensures
            r is Ok <==> spec_len_bytes_present(self@) && spec_full_frame_len(self@) <= u64::MAX,
            r matches Ok(v) ==> v == spec_full_frame_len(self@),
            r matches Err(e) ==> e == WsGonzaleError::InvalidPayload,
    {
        let start = match self.get_payload_start_pos() {
            Ok(v) => v,
            Err(e) => {
                return Err(e);
            },
        };
        let len = match self.get_payload_length() {
            Ok(v) => v,
            Err(e) => {
                return Err(e);
            },
        };
        match start.checked_add(len) {
            Some(size) => Ok(size),
            None => Err(WsGonzaleError::InvalidPayload),
        }
    }

    /// How many bytes of extended length stand between byte 1 and the key.
    fn get_masking_key_start(&self) -> (r: WsGonzaleResult<u8>)
        ensures
            r matches Ok(v) && v == spec_ext_len_bytes(self@),
    {
        let result = match self.get_extra_payload_bytes() {
            Ok(e) => match e {
                ExtraSize::Zero(_) => 0,
                ExtraSize::Two => 2,
                ExtraSize::Eight => 8,
            },
            Err(e) => {
                return Err(e);
            },
        };
        Ok(result)
    }

    /// The four key bytes when the mask bit is set and they are present;
    /// the all-zero key otherwise (zero is the identity mask).
    fn get_masking_key(&self) -> (r: WsGonzaleResult<[u8; 4]>)
        ensures
            r matches Ok(k) && k@ == spec_key(self@),
    {
        let key_start = match self.get_masking_key_start() {
            Ok(v) => v,
            Err(e) => {
                return Err(e);
            },
        };
        let start: usize = 2 + key_start as usize;
        let end: usize = start + 4;
        if self.is_mask() && self.0.len() >= end {
            let buffer: [u8; 4] = [self.0[start], self.0[start + 1], self.0[start + 2], self.0[start
                + 3]];
            assert(buffer@ =~= spec_key(self@));
            Ok(buffer)
        } else {
            let buffer: [u8; 4] = [0u8, 0u8, 0u8, 0u8];
            assert(buffer@ =~= spec_key(self@));
            Ok(buffer)
        }
    }

    /// Extracts and unmasks the payload, enforcing that every byte the
    /// header announces is present.
    fn get_payload(self) -> (r: WsGonzaleResult<Vec<u8>>)
        ensures
            r is Ok <==> spec_frame_valid(self@),
            r matches Ok(p) ==> p@ == spec_payload(self@),
            r matches Err(e) ==> e == spec_decode_err(self@),
    {
        if self.0.len() < 2 {
            return Err(WsGonzaleError::InvalidPayload);
        }
        if self.get_opcode() == 8 {
            return Err(WsGonzaleError::ConnectionClosed);
        }
        let payload_length = match self.get_payload_length() {
            Ok(v) => v,
            Err(e) => {
                return Err(e);
            },
        };
        let is_mask = self.is_mask();
        let key_start = match self.get_masking_key_start() {
            Ok(v) => v,
            Err(e) => {
                return Err(e);
            },
        };
        let key_offset: usize = 2 + key_start as usize;
        if is_mask && self.0.len() < key_offset + 4 {
            return Err(WsGonzaleError::InvalidPayload);
        }
        let masking_key = match self.get_masking_key() {
            Ok(k) => k,
            Err(e) => {
                return Err(e);
            },
        };
        let start: usize = if is_mask {
            key_offset + 4
        } else {
            key_offset
        };
        let total = match (start as u64).checked_add(payload_length) {
            Some(t) => t,
            None => {
                return Err(WsGonzaleError::InvalidPayload);
            },
        };
        if total > self.0.len() as u64 {
            return Err(WsGonzaleError::InvalidPayload);
        }
        let plen: usize = payload_length as usize;
        let mut data: Vec<u8> = Vec::new();
        let mut i: usize = 0;
        while i < plen
            invariant
                start + plen <= self@.len(),
                start + plen <= usize::MAX,
                i <= plen,
                data@.len() == i,
                forall|j: int| 0 <= j < i ==> data@[j] == self@[start + j],
            decreases plen - i,
        {
            data.push(self.0[start + i]);
            i += 1;
        }
        assert(data@ =~= self@.subrange(start as int, start + plen));
        mask_payload_mut(&mut data, masking_key);
        Ok(data)
    }

    /// Runs the whole decoding and assembles the frame.
    fn get_dataframe(self) -> (r: WsGonzaleResult<Dataframe>)
        ensures
            r is Ok <==> spec_frame_valid(self@),
            r matches Ok(df) ==> df.decodes_from(self@),
            r matches Err(e) ==> e == spec_decode_err(self@),
    {
        if self.0.len() < 2 {
            return Err(WsGonzaleError::InvalidPayload);
        }
        let opcode = self.get_opcode();
        if opcode == 8 {
            return Err(WsGonzaleError::ConnectionClosed);
        }
        let fin = self.is_fin();
        let rsv1 = self.is_rsv1();
        let rsv2 = self.is_rsv2();
        let rsv3 = self.is_rsv3();
        let is_mask = self.is_mask();
        let payload_length = match self.get_payload_length() {
            Ok(v) => v,
            Err(e) => {
                return Err(e);
            },
        };
        let full_frame_length = match self.get_full_frame_length() {
            Ok(v) => v,
            Err(e) => {
                return Err(e);
            },
        };
        let masking_key = match self.get_masking_key() {
            Ok(k) => k,
            Err(e) => {
                return Err(e);
            },
        };
        let key_start = match self.get_masking_key_start() {
            Ok(v) => v,
            Err(e) => {
                return Err(e);
            },
        };
        if is_mask && self.0.len() < 2 + key_start as usize + 4 {
            return Err(WsGonzaleError::InvalidPayload);
        }
        if full_frame_length > self.0.len() as u64 {
            return Err(WsGonzaleError::InvalidPayload);
        }
        let payload = match self.get_payload() {
            Ok(p) => p,
            Err(e) => {
                return Err(e);
            },
        };
        Ok(
            Dataframe {
                fin,
                rsv1,
                rsv2,
                rsv3,
                is_mask,
                opcode,
                payload_length,
                full_frame_length,
                masking_key,
                payload,
            },
        )
    }
}

/// The characters `String::from_utf8_lossy` yields for a byte sequence.
/// They depend on the bytes alone.
pub uninterp spec fn utf8_lossy_of(b: Seq<u8>) -> Seq<char>;

/// Relies on String::from_utf8_lossy: the result is a function of the bytes
/// alone, and valid UTF-8 decodes to exactly the characters whose encoding
/// the bytes are.
#[verifier::external_body]
fn utf8_lossy(b: &[u8]) -> (r: String)
    ensures
        r@ == utf8_lossy_of(b@),
        valid_utf8(b@) ==> encode_utf8(r@) == b@,
{
    String::from_utf8_lossy(b).into_owned()
}

impl Dataframe {
    /// The message this frame carries, named by its opcode: text and binary
    /// payloads come through, close is close, everything else is unknown.
    /// Text is decoded leniently: invalid UTF-8 becomes replacement
    /// characters rather than an error.
    pub fn get_message(self) -> (r: WsGonzaleResult<Message>)
        ensures
            r matches Ok(m) && (if self.spec_opcode() == 1 {
                m matches Message::Text(s) && s@ == utf8_lossy_of(self.spec_payload())
            } else if self.spec_opcode() == 2 {
                m matches Message::Binary(p) && p@ == self.spec_payload()
            } else if self.spec_opcode() == 8 {
                m is Close
            } else {
                m is Unknown
            }),
    {
        let result = if self.opcode == 1 {
            Message::Text(utf8_lossy(self.payload.as_slice()))
        } else if self.opcode == 2 {
            Message::Binary(self.payload)
        } else if self.opcode == 8 {
            Message::Close
        } else {
            Message::Unknown
        };
        Ok(result)
    }

    pub fn is_fin(&self) -> (r: bool)
        ensures
            r == self.spec_fin(),
    {
        self.fin
    }

    pub fn is_rsv1(&self) -> (r: bool)
        ensures
            r == self.spec_rsv1(),
    {
        self.rsv1
    }

    pub fn is_rsv2(&self) -> (r: bool)
        ensures
            r == self.spec_rsv2(),
    {
        self.rsv2
    }

    pub fn is_rsv3(&self) -> (r: bool)
        ensures
            r == self.spec_rsv3(),
    {
        self.rsv3
    }

    pub fn get_opcode(&self) -> (r: u8)
        ensures
            r == self.spec_opcode(),
    {
        self.opcode
    }

    pub fn is_mask(&self) -> (r: bool)
        ensures
            r == self.spec_is_mask(),
    {
        self.is_mask
    }

    pub fn get_payload_length(&self) -> (r: u64)
        ensures
            r == self.spec_payload_length(),
    {
        self.payload_length
    }

    pub fn get_full_frame_length(&self) -> (r: u64)
        ensures
            r == self.spec_full_frame_length(),
    {
        self.full_frame_length
    }

    pub fn get_payload(self) -> (r: Vec<u8>)
        ensures
            r@ == self.spec_payload(),
    {
        self.payload
    }
}

// ---------------------------------------------------------------------------
// The encoder
// ---------------------------------------------------------------------------
/// The two big-endian bytes of the low sixteen bits of `n`.
pub open spec fn spec_be16(n: u64) -> Seq<u8> {
    seq![((n >> 8) & 0xff) as u8, (n & 0xff) as u8]
}

/// The eight big-endian bytes of `n`.
pub open spec fn spec_be64(n: u64) -> Seq<u8> {
    seq![
        ((n >> 56) & 0xff) as u8,
        ((n >> 48) & 0xff) as u8,
        ((n >> 40) & 0xff) as u8,
        ((n >> 32) & 0xff) as u8,
        ((n >> 24) & 0xff) as u8,
        ((n >> 16) & 0xff) as u8,
        ((n >> 8) & 0xff) as u8,
        (n & 0xff) as u8,
    ]
}

/// The bytes the encoder emits for a text payload: fin plus the text
/// opcode, the length, then the raw payload, unmasked. The length encoding
/// keeps a quirk of this library: the two-byte form is chosen for every
/// size up to `u32::MAX`, so sizes above sixteen bits have their high bits
/// dropped there.
pub open spec fn spec_text_frame(s: Seq<u8>) -> Seq<u8>
    recommends
        s.len() <= u64::MAX,
{
    if s.len() <= 125 {
        seq![129u8, s.len() as u8] + s
    } else if s.len() > u32::MAX {
        seq![129u8, 127u8] + spec_be64(s.len() as u64) + s
    } else {
        seq![129u8, 126u8] + spec_be16(s.len() as u64) + s
    }
}

/// The bytes a message contributes to its frame: the UTF-8 encoding of a
/// text message, nothing for any other variant (a quirk kept from this
/// library's wire behaviour: non-text messages encode as an empty text
/// frame).
pub open spec fn spec_message_bytes(m: Message) -> Seq<u8> {
    match m {
        Message::Text(s) => encode_utf8(s@),
        _ => Seq::empty(),
    }
}

/// Encodes a message as one server-to-client frame: fin set, opcode text,
/// mask clear.
pub fn get_buffer(message: Message) -> (r: Vec<u8>)
    ensures
        r@ == spec_text_frame(spec_message_bytes(message)),
{
    let ghost expected = spec_text_frame(spec_message_bytes(message));
    let mut buffer: Vec<u8> = Vec::new();
    buffer.push(129);
    let s: String = match message {
        Message::Text(s) => s,
        _ => String::new(),
    };
    let bytes: &[u8] = s.as_str().as_bytes();
    proof {
        assert(encode_utf8(Seq::<char>::empty()) == Seq::<u8>::empty());
    }
    let size: u64 = bytes.len() as u64;
    if size <= 125 {
        buffer.push(size as u8);
    } else if size > 0xffff_ffff {
        buffer.push(127);
        let b0: u8 = ((size >> 56) & 0xff) as u8;
        let b1: u8 = ((size >> 48) & 0xff) as u8;
        let b2: u8 = ((size >> 40) & 0xff) as u8;
        let b3: u8 = ((size >> 32) & 0xff) as u8;
        let b4: u8 = ((size >> 24) & 0xff) as u8;
        let b5: u8 = ((size >> 16) & 0xff) as u8;
        let b6: u8 = ((size >> 8) & 0xff) as u8;
        let b7: u8 = (size & 0xff) as u8;
        buffer.push(b0);
        buffer.push(b1);
        buffer.push(b2);
        buffer.push(b3);
        buffer.push(b4);
        buffer.push(b5);
        buffer.push(b6);
        buffer.push(b7);
    } else {
        buffer.push(126);
        let b0: u8 = ((size >> 8) & 0xff) as u8;
        let b1: u8 = (size & 0xff) as u8;
        buffer.push(b0);
        buffer.push(b1);
    }
    buffer.extend_from_slice(bytes);
    assert(buffer@ =~= expected);
    buffer
}

// ---------------------------------------------------------------------------
// Laws of the codec
// ---------------------------------------------------------------------------
/// A decoded frame never reaches past its own wire length, and bytes after
/// it change nothing: decoding a valid frame with anything appended yields
/// the same frame.
pub proof fn lemma_decode_ignores_trailing(b: Seq<u8>, trailing: Seq<u8>)
    requires
        spec_frame_valid(b),
    ensures
        spec_full_frame_len(b) <= b.len(),
        spec_frame_valid(b + trailing),
        spec_full_frame_len(b + trailing) == spec_full_frame_len(b),
        spec_opcode(b + trailing) == spec_opcode(b),
        spec_masked(b + trailing) == spec_masked(b),
        spec_payload_len(b + trailing) == spec_payload_len(b),
        spec_key(b + trailing) == spec_key(b),
        spec_payload(b + trailing) == spec_payload(b),
{
    let c = b + trailing;
    assert(c[0] == b[0]);
    assert(c[1] == b[1]);
    assert(spec_short_len(c) == spec_short_len(b));
    assert(spec_ext_len_bytes(c) == spec_ext_len_bytes(b));
    if spec_short_len(b) == 126 {
        assert(c[2] == b[2]);
        assert(c[3] == b[3]);
    }
    if spec_short_len(b) == 127 {
        assert(c.subrange(2, 10) =~= b.subrange(2, 10));
    }
    assert(spec_payload_len(c) == spec_payload_len(b));
    let ko = spec_key_offset(b);
    if spec_masked(b) {
        assert(c.subrange(ko, ko + 4) =~= b.subrange(ko, ko + 4));
    }
    assert(spec_key(c) == spec_key(b));
    let po = spec_payload_offset(b);
    let plen = spec_payload_len(b) as int;
    assert(c.subrange(po, po + plen) =~= b.subrange(po, po + plen));
    assert(spec_payload(c) == spec_payload(b));
}

/// A masked client-to-server text frame built out of a payload and a key:
/// fin plus the text opcode, the mask bit, the tightest of the three length
/// encodings, the key, then the masked payload.
pub open spec fn spec_masked_text_frame(payload: Seq<u8>, key: Seq<u8>) -> Seq<u8>
    recommends
        key.len() == 4,
        payload.len() <= u64::MAX,
{
    let header = if payload.len() <= 125 {
        seq![129u8, (128 + payload.len()) as u8]
    } else if payload.len() <= 0xffff {
        seq![129u8, 254u8] + spec_be16(payload.len() as u64)
    } else {
        seq![129u8, 255u8] + spec_be64(payload.len() as u64)
    };
    header + key + mask_spec(payload, key)
}

/// The codec round trip: any payload framed as a masked text frame with any
/// key decodes back to exactly that payload.
pub proof fn lemma_masked_frame_round_trip(payload: Seq<u8>, key: Seq<u8>)
    requires
        key.len() == 4,
        payload.len() <= u64::MAX,
    ensures
        ({
            let f = spec_masked_text_frame(payload, key);
            &&& spec_frame_valid(f)
            &&& spec_opcode(f) == 1
            &&& spec_fin(f)
            &&& spec_masked(f)
            &&& spec_key(f) == key
            &&& spec_payload_len(f) == payload.len()
            &&& spec_full_frame_len(f) == f.len()
            &&& spec_payload(f) == payload
        }),
{
    let header = if payload.len() <= 125 {
        seq![129u8, (128 + payload.len()) as u8]
    } else if payload.len() <= 0xffff {
        seq![129u8, 254u8] + spec_be16(payload.len() as u64)
    } else {
        seq![129u8, 255u8] + spec_be64(payload.len() as u64)
    };
    let mp = mask_spec(payload, key);
    let f = spec_masked_text_frame(payload, key);
    assert(f == header + key + mp);
    assert(f[0] == 129u8);
    assert(129u8 & 0x0f == 1 && 129u8 & 128 == 128) by (bit_vector);
    if payload.len() <= 125 {
        let l: u8 = payload.len() as u8;
        let v: u8 = (128 + payload.len()) as u8;
        assert(v == 128 + l);
        assert((128 + l) as u8 & 128 == 128 && (128 + l) as u8 & 0x7f == l) by (bit_vector)
            requires
                l <= 125,
        ;
        assert(f[1] == v);
        assert(spec_short_len(f) == l);
        assert(spec_ext_len_bytes(f) == 0);
        assert(spec_payload_len(f) == payload.len());
    } else if payload.len() <= 0xffff {
        assert(f[1] == 254u8);
        assert(254u8 & 128 == 128 && 254u8 & 0x7f == 126) by (bit_vector);
        let n: u64 = payload.len() as u64;
        let hi: u8 = ((n >> 8) & 0xff) as u8;
        let lo: u8 = (n & 0xff) as u8;
        assert(f[2] == hi && f[3] == lo);
        assert((((hi as u64) << 8) | (lo as u64)) == n) by (bit_vector)
            requires
                n <= 0xffff && hi == ((n >> 8) & 0xff) as u8 && lo == (n & 0xff) as u8,
        ;
        assert(spec_payload_len(f) == payload.len());
    } else {
        assert(f[1] == 255u8);
        assert(255u8 & 128 == 128 && 255u8 & 0x7f == 127) by (bit_vector);
        let n: u64 = payload.len() as u64;
        let b0: u8 = ((n >> 56) & 0xff) as u8;
        let b1: u8 = ((n >> 48) & 0xff) as u8;
        let b2: u8 = ((n >> 40) & 0xff) as u8;
        let b3: u8 = ((n >> 32) & 0xff) as u8;
        let b4: u8 = ((n >> 24) & 0xff) as u8;
        let b5: u8 = ((n >> 16) & 0xff) as u8;
        let b6: u8 = ((n >> 8) & 0xff) as u8;
        let b7: u8 = (n & 0xff) as u8;
        assert(f.subrange(2, 10) =~= seq![b0, b1, b2, b3, b4, b5, b6, b7]);
        assert((((b0 as u64) << 56) | ((b1 as u64) << 48) | ((b2 as u64) << 40) | ((b3 as u64)
            << 32) | ((b4 as u64) << 24) | ((b5 as u64) << 16) | ((b6 as u64) << 8) | (
        b7 as u64)) == n) by (bit_vector)
            requires
                b0 == ((n >> 56) & 0xff) as u8 && b1 == ((n >> 48) & 0xff) as u8 && b2 == ((n >> 40)
                    & 0xff) as u8 && b3 == ((n >> 32) & 0xff) as u8 && b4 == ((n >> 24)
                    & 0xff) as u8 && b5 == ((n >> 16) & 0xff) as u8 && b6 == ((n >> 8)
                    & 0xff) as u8 && b7 == (n & 0xff) as u8,
        ;
        assert(spec_payload_len(f) == payload.len());
    }
    let ko = spec_key_offset(f);
    assert(ko == header.len());
    assert(f.subrange(ko, ko + 4) =~= key);
    assert(spec_key(f) == key);
    let po = spec_payload_offset(f);
    assert(po == header.len() + 4);
    assert(f.subrange(po, po + spec_payload_len(f)) =~= mp);
    lemma_mask_involutive(payload, key);
    assert(spec_payload(f) == payload);
}

/// The encoder's own frames decode back to their payload: an unmasked text
/// frame built by [`spec_text_frame`] is valid and carries exactly the
/// bytes it was built from. Stated for payloads up to sixteen bits of
/// length: above that the encoder's kept two-byte quirk writes a truncated
/// length, so the statement would not hold there.
pub proof fn lemma_text_frame_round_trip(s: Seq<u8>)
    requires
        s.len() <= 0xffff,
    ensures
        ({
            let f = spec_text_frame(s);
            &&& spec_frame_valid(f)
            &&& spec_opcode(f) == 1
            &&& spec_fin(f)
            &&& !spec_masked(f)
            &&& spec_payload_len(f) == s.len()
            &&& spec_full_frame_len(f) == f.len()
            &&& spec_payload(f) == s
        }),
{
    let f = spec_text_frame(s);
    assert(f[0] == 129u8);
    assert(129u8 & 0x0f == 1 && 129u8 & 128 == 128) by (bit_vector);
    if s.len() <= 125 {
        let l: u8 = s.len() as u8;
        assert(f[1] == l);
        assert(l & 128 != 128 && l & 0x7f == l) by (bit_vector)
            requires
                l <= 125,
        ;
        assert(spec_short_len(f) == l);
        assert(spec_payload_len(f) == s.len());
        assert(f.subrange(2, 2 + s.len() as int) =~= s);
    } else {
        let n: u64 = s.len() as u64;
        let hi: u8 = ((n >> 8) & 0xff) as u8;
        let lo: u8 = (n & 0xff) as u8;
        assert(f[1] == 126u8);
        assert(126u8 & 128 != 128 && 126u8 & 0x7f == 126) by (bit_vector);
        assert(f[2] == hi && f[3] == lo);
        assert((((hi as u64) << 8) | (lo as u64)) == n) by (bit_vector)
            requires
                n <= 0xffff && hi == ((n >> 8) & 0xff) as u8 && lo == (n & 0xff) as u8,
        ;
        assert(spec_payload_len(f) == s.len());
        assert(f.subrange(4, 4 + s.len() as int) =~= s);
    }
    lemma_mask_zero_key(f.subrange(spec_payload_offset(f), spec_payload_offset(f)
        + spec_payload_len(f)));
}

} // verus!
