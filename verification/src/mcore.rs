//! The machine-level rules of a core: its creation options, the strings it
//! reports, the fixed real-time clock and the host video buffer.
use vstd::prelude::*;
use vstd::string::StringSliceAdditionalSpecFns;
use vstd::utf8::{decode_utf8, valid_utf8};

verus! {

/// Options a GBA core is created with.
pub struct Options {
    pub sample_rate: u32,
    pub video_sync: bool,
    pub audio_sync: bool,
}

impl Default for Options {
    /// 48 kHz audio, with neither video nor audio sync.
    fn default() -> (o: Self)
        ensures
            o.sample_rate == 48000,
            !o.video_sync,
            !o.audio_sync,
    {
        Options { sample_rate: 48000, video_sync: false, audio_sync: false }
    }
}

/// `end` is where the C string held in `buf` ends: no byte before it is
/// NUL, and it is either the first NUL or the end of the buffer.
pub open spec fn is_c_string_end(buf: Seq<u8>, end: int) -> bool {
    &&& 0 <= end <= buf.len()
    &&& forall|i: int| 0 <= i < end ==> buf[i] != 0
    &&& end < buf.len() ==> buf[end] == 0
}

/// The bytes of the C string held in `buf`: everything before the first
/// NUL, or the whole buffer when it holds none.
pub open spec fn c_string_bytes(buf: Seq<u8>) -> Seq<u8> {
    buf.take(choose|end: int| is_c_string_end(buf, end))
}

/// A buffer has exactly one C string end.
pub proof fn lemma_c_string_end_unique(buf: Seq<u8>, end: int)
    requires
        is_c_string_end(buf, end),
    ensures
        c_string_bytes(buf) == buf.take(end),
{
    let e = choose|e: int| is_c_string_end(buf, e);
    assert(is_c_string_end(buf, e));
    if e < end {
        assert(buf[e] != 0);
    }
    if end < e {
        assert(buf[end] != 0);
    }
}

/// Finds the C string end of `buf`.
proof fn c_string_end_of(buf: Seq<u8>) -> (end: int)
    ensures
        is_c_string_end(buf, end),
    decreases buf.len(),
{
    if buf.len() == 0 || buf[0] == 0 {
        0
    } else {
        let rest = buf.drop_first();
        let e = c_string_end_of(rest);
        assert forall|i: int| 0 <= i < e + 1 implies buf[i] != 0 by {
            if i > 0 {
                assert(buf[i] == rest[i - 1]);
            }
        }
        if e + 1 < buf.len() {
            assert(buf[e + 1] == rest[e]);
        }
        e + 1
    }
}

/// The string read from a fixed-size field stops at the field's first NUL:
/// it is a prefix of the field that holds no NUL, it is the whole field
/// when the field holds no NUL, and it is what precedes a NUL at `nul` when
/// no earlier byte is NUL.
pub proof fn lemma_c_string_stops_at_first_nul(buf: Seq<u8>, nul: int)
    ensures
        c_string_bytes(buf).len() <= buf.len(),
        c_string_bytes(buf) == buf.take(c_string_bytes(buf).len() as int),
        forall|i: int| 0 <= i < c_string_bytes(buf).len() ==> c_string_bytes(buf)[i] != 0,
        (forall|i: int| 0 <= i < buf.len() ==> buf[i] != 0) ==> c_string_bytes(buf) == buf,
        (0 <= nul < buf.len() && buf[nul] == 0 && forall|i: int| 0 <= i < nul ==> buf[i] != 0)
            ==> c_string_bytes(buf) == buf.take(nul),
{
    let end = c_string_end_of(buf);
    lemma_c_string_end_unique(buf, end);
    if forall|i: int| 0 <= i < buf.len() ==> buf[i] != 0 {
        if end < buf.len() {
            assert(buf[end] != 0);
        }
        assert(buf.take(end) =~= buf);
    }
    if 0 <= nul < buf.len() && buf[nul] == 0 && forall|i: int| 0 <= i < nul ==> buf[i] != 0 {
        assert(is_c_string_end(buf, nul));
        lemma_c_string_end_unique(buf, nul);
    }
}

/// What `String::from_utf8_lossy` makes of `bytes`: their UTF-8 decoding,
/// with each invalid sequence replaced by U+FFFD.
pub uninterp spec fn utf8_lossy(bytes: Seq<u8>) -> Seq<char>;

/// Calls `String::from_utf8_lossy`. Claimed: the result depends on the
/// bytes alone; valid UTF-8 decodes to exactly its characters; and bytes
/// holding no NUL give text holding no NUL, since U+0000 is encoded only by
/// the byte 0 and each invalid sequence becomes U+FFFD. Which invalid
/// sequences are replaced, and by how many U+FFFD, is left unsaid.
#[verifier::external_body]
fn from_utf8_lossy(bytes: &[u8]) -> (s: String)
    ensures
        s@ == utf8_lossy(bytes@),
        valid_utf8(bytes@) ==> s@ == decode_utf8(bytes@),
        (forall|i: int| 0 <= i < bytes@.len() ==> bytes@[i] != 0) ==> (forall|j: int|
            0 <= j < s@.len() ==> s@[j] != '\0'),
{
    String::from_utf8_lossy(bytes).into_owned()
}

/// The text of the NUL-terminated string stored in the fixed-size field
/// `buf`, read as UTF-8 with invalid sequences replaced.
pub fn cstring_to_string(buf: &[u8]) -> (s: String)
    ensures
        s@ == utf8_lossy(c_string_bytes(buf@)),
        valid_utf8(c_string_bytes(buf@)) ==> s@ == decode_utf8(c_string_bytes(buf@)),
        forall|j: int| 0 <= j < s@.len() ==> s@[j] != '\0',
{
    let mut end: usize = 0;
    while end < buf.len() && buf[end] != 0
        invariant
            end <= buf.len(),
            forall|i: int| 0 <= i < end ==> buf@[i] != 0,
        decreases buf.len() - end,
    {
        end = end + 1;
    }
    let mut bytes: Vec<u8> = Vec::new();
    let mut i: usize = 0;
    while i < end
        invariant
            i <= end <= buf.len(),
            bytes@ == buf@.take(i as int),
        decreases end - i,
    {
        bytes.push(buf[i]);
        i = i + 1;
        assert(bytes@ =~= buf@.take(i as int));
    }
    proof {
        assert(is_c_string_end(buf@, end as int));
        lemma_c_string_end_unique(buf@, end as int);
    }
    from_utf8_lossy(bytes.as_slice())
}

/// The address of byte `index` of a range of core memory starting at
/// `address`; the range may not run past the top of the address space.
pub fn range_byte_address(address: u32, index: usize) -> (a: u32)
    requires
        address + (index as u32) <= u32::MAX,
    ensures
        a == address + (index as u32),
{
    address + index as u32
}

/// Whether `name` can name a core configuration: a C string cannot hold a
/// NUL byte.
pub fn is_valid_config_name(name: &str) -> (ok: bool)
    ensures
        ok == forall|i: int| 0 <= i < name.spec_bytes().len() ==> name.spec_bytes()[i] != 0,
{
    let bytes = name.as_bytes();
    let mut i: usize = 0;
    while i < bytes.len()
        invariant
            bytes@ == name.spec_bytes(),
            i <= bytes@.len(),
            forall|k: int| 0 <= k < i ==> bytes@[k] != 0,
        decreases bytes@.len() - i,
    {
        if bytes[i] == 0 {
            return false;
        }
        i = i + 1;
    }
    true
}

/// The Unix time the cart clock is pinned to, given the whole seconds
/// since the epoch of the requested time (`None` when that time lies
/// before the epoch, which clamps to the epoch). Seconds are kept as a
/// signed 64-bit count, wrapping as a cast does.
pub fn rtc_fixed_seconds(since_epoch: Option<u64>) -> (t: i64)
    ensures
        since_epoch is None ==> t == 0,
        since_epoch matches Some(secs) ==> t == secs as i64,
        since_epoch matches Some(secs) ==> (secs <= i64::MAX ==> t == secs),
{
    match since_epoch {
        Some(secs) => secs as i64,
        None => 0,
    }
}

/// The byte size of a host video buffer of `width` by `height` pixels of
/// `pixel_bytes` bytes each.
pub fn video_buffer_len(width: u32, height: u32, pixel_bytes: usize) -> (n: usize)
    requires
        width * height <= u32::MAX,
        width * height * pixel_bytes <= usize::MAX,
    ensures
        n == width * height * pixel_bytes,
{
    let pixels = width * height;
    (pixels as usize) * pixel_bytes
}

/// A zeroed host video buffer of `width` by `height` pixels of
/// `pixel_bytes` bytes each.
pub fn new_video_buffer(width: u32, height: u32, pixel_bytes: usize) -> (buf: Vec<u8>)
    requires
        width * height <= u32::MAX,
        width * height * pixel_bytes <= usize::MAX,
    ensures
        buf@.len() == width * height * pixel_bytes,
        forall|i: int| 0 <= i < buf@.len() ==> buf@[i] == 0,
{
    let n = video_buffer_len(width, height, pixel_bytes);
    let mut buf: Vec<u8> = Vec::new();
    while buf.len() < n
        invariant
            buf@.len() <= n,
            forall|i: int| 0 <= i < buf@.len() ==> buf@[i] == 0,
        decreases n - buf@.len(),
    {
        buf.push(0);
    }
    buf
}

} // verus!
