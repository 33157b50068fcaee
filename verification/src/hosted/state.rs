//! Decoding a RetroArch save state to the bytes a hosted core's
//! `retro_unserialize` takes: the `#RZIPv` chunked-zlib container and the
//! `RASTATE` block container RetroArch wraps them in.
use crate::text::{decimal, push_decimal, push_str};
use std::io::Read;
use vstd::prelude::*;

verus! {

/// The largest state [`decode`] will inflate or reserve room for. The total
/// size comes straight out of the file's header, so a corrupt or hostile
/// one could otherwise ask for an allocation that aborts the process.
pub const MAX_STATE_BYTES: u64 = 268435456;

/// Why a state could not be decoded.
#[derive(Debug, Clone, Copy, PartialEq, Eq)]
pub enum StateError {
    /// An rzip container of another version than 1.
    UnsupportedVersion(u8),
    /// The rzip header claims more than [`MAX_STATE_BYTES`].
    ClaimsTooMuch(u64),
    /// A four-byte field starting at this offset runs past the end.
    Truncated(u64),
    /// The rzip chunk at this offset runs past the end.
    ChunkPastEnd(u64),
    /// The rzip chunk ending at this offset is not a zlib stream.
    Inflate(u64),
    /// A chunk inflates past the total the header promises.
    InflatesPast(u64),
    /// The block list ends before a `MEM ` block.
    NoMem,
    /// The block with this tag, whose payload starts at this offset,
    /// declares this many bytes, past the end.
    BlockPastEnd { tag: [u8; 4], at: u64, size: u64 },
}

/// What inflating the zlib stream `chunk` gives, read through a reader
/// that stops after `limit` bytes; `None` when the stream is corrupt.
pub uninterp spec fn zlib_inflate(chunk: Seq<u8>, limit: nat) -> Option<Seq<u8>>;

/// `flate2::read::ZlibDecoder` over `chunk`, read to the end through
/// `std::io::Read::take(limit)`. Claimed: the bytes come back as
/// [`zlib_inflate`] names them (a function of the chunk and the limit
/// alone), and there are at most `limit` of them, as `take` documents.
#[verifier::external_body]
fn inflate_at_most(chunk: &[u8], limit: u64) -> (r: Option<Vec<u8>>)
    ensures
        match r {
            Some(v) => zlib_inflate(chunk@, limit as nat) == Some(v@) && v@.len() <= limit,
            None => zlib_inflate(chunk@, limit as nat) is None,
        },
{
    let mut out = Vec::new();
    match flate2::read::ZlibDecoder::new(chunk).take(limit).read_to_end(&mut out) {
        Ok(_) => Some(out),
        Err(_) => None,
    }
}

/// The little-endian `u32` at `at`.
pub open spec fn le32(b: Seq<u8>, at: int) -> nat {
    b[at] as nat + b[at + 1] as nat * 256 + b[at + 2] as nat * 65536 + b[at + 3] as nat
        * 16777216
}

/// The little-endian `u64` at `at`.
pub open spec fn le64(b: Seq<u8>, at: int) -> nat {
    le32(b, at) + le32(b, at + 4) * 4294967296
}

/// Whether `b` holds `tag` at `at`.
pub open spec fn tag_at(b: Seq<u8>, at: int, tag: Seq<u8>) -> bool {
    0 <= at && at + tag.len() <= b.len() && b.subrange(at, at + tag.len()) == tag
}

/// `#RZIPv`.
pub open spec fn rzip_magic() -> Seq<u8> {
    seq![35u8, 82u8, 90u8, 73u8, 80u8, 118u8]
}

/// `RASTATE`.
pub open spec fn rastate_magic() -> Seq<u8> {
    seq![82u8, 65u8, 83u8, 84u8, 65u8, 84u8, 69u8]
}

/// `END `.
pub open spec fn end_tag() -> Seq<u8> {
    seq![69u8, 78u8, 68u8, 32u8]
}

/// `MEM `.
pub open spec fn mem_tag() -> Seq<u8> {
    seq![77u8, 69u8, 77u8, 32u8]
}

/// An rzip container: `#RZIPv`, a version byte, `#`, a chunk size and
/// the total size, 20 bytes in all.
pub open spec fn is_rzip(b: Seq<u8>) -> bool {
    b.len() >= 20 && tag_at(b, 0, rzip_magic()) && b[7] == 35u8
}

/// A `RASTATE` block container.
pub open spec fn is_rastate(b: Seq<u8>) -> bool {
    b.len() >= 8 && tag_at(b, 0, rastate_magic())
}

/// `size` rounded up to a multiple of 8, the block alignment.
pub open spec fn padded(size: nat) -> nat {
    ((size + 7) / 8) * 8
}

/// The `MEM ` payload of the blocks from `pos` on.
pub open spec fn spec_blocks(b: Seq<u8>, pos: nat) -> Result<Seq<u8>, StateError>
    decreases b.len() + 8 - pos,
{
    if pos + 4 > b.len() {
        Err(StateError::Truncated(pos as u64))
    } else if pos + 8 > b.len() {
        Err(StateError::Truncated((pos + 4) as u64))
    } else {
        let size = le32(b, pos + 4int);
        let start = pos + 8;
        if tag_at(b, pos as int, end_tag()) {
            Err(StateError::NoMem)
        } else if start + size > b.len() {
            Err(
                StateError::BlockPastEnd {
                    tag: [b[pos as int], b[pos + 1int], b[pos + 2int], b[pos + 3int]],
                    at: start as u64,
                    size: size as u64,
                },
            )
        } else if tag_at(b, pos as int, mem_tag()) {
            Ok(b.subrange(start as int, (start + size) as int))
        } else {
            spec_blocks(b, start + padded(size))
        }
    }
}

/// The `MEM ` payload of a `RASTATE` container.
pub open spec fn spec_rastate_mem(b: Seq<u8>) -> Result<Seq<u8>, StateError> {
    spec_blocks(b, 8)
}

/// The chunks of an rzip container from `pos` on, appended to `out`,
/// until `total` bytes have come out.
pub open spec fn spec_chunks(b: Seq<u8>, total: nat, pos: nat, out: Seq<u8>) -> Result<
    Seq<u8>,
    StateError,
>
    decreases b.len() - pos,
{
    if out.len() >= total {
        Ok(out)
    } else if pos + 4 > b.len() {
        Err(StateError::Truncated(pos as u64))
    } else {
        let len = le32(b, pos as int);
        let start = pos + 4;
        if start + len > b.len() {
            Err(StateError::ChunkPastEnd(start as u64))
        } else {
            let end = start + len;
            let room = (total - out.len() + 1) as nat;
            match zlib_inflate(b.subrange(start as int, end as int), room) {
                None => Err(StateError::Inflate(end as u64)),
                Some(more) => {
                    let grown = out + more;
                    if grown.len() > total {
                        Err(StateError::InflatesPast(total as u64))
                    } else {
                        spec_chunks(b, total, end, grown)
                    }
                },
            }
        }
    }
}

/// The bytes an rzip container inflates to.
pub open spec fn spec_unrzip(b: Seq<u8>) -> Result<Seq<u8>, StateError> {
    let claimed = le64(b, 12);
    if claimed > MAX_STATE_BYTES {
        Err(StateError::ClaimsTooMuch(claimed as u64))
    } else {
        spec_chunks(b, claimed, 20, Seq::empty())
    }
}

/// What [`decode`] gives for the bytes that come out of the rzip layer.
pub open spec fn spec_unwrap_rastate(plain: Seq<u8>) -> Result<Seq<u8>, StateError> {
    if is_rastate(plain) {
        spec_rastate_mem(plain)
    } else {
        Ok(plain)
    }
}

/// What [`decode`] gives for a state file.
pub open spec fn spec_decode(b: Seq<u8>) -> Result<Seq<u8>, StateError> {
    if is_rzip(b) {
        if b[6] != 1 {
            Err(StateError::UnsupportedVersion(b[6]))
        } else {
            match spec_unrzip(b) {
                Ok(plain) => spec_unwrap_rastate(plain),
                Err(e) => Err(e),
            }
        }
    } else {
        spec_unwrap_rastate(b)
    }
}

/// The same result with the payload taken by its view.
pub open spec fn view_result(r: Result<Vec<u8>, StateError>) -> Result<Seq<u8>, StateError> {
    match r {
        Ok(v) => Ok(v@),
        Err(e) => Err(e),
    }
}

fn u32_at(b: &[u8], at: usize) -> (r: u32)
    requires
        at + 4 <= b@.len(),
    ensures
        r == le32(b@, at as int),
{
    let v = (b[at] as u32) + (b[at + 1] as u32) * 256 + (b[at + 2] as u32) * 65536 + (b[at
        + 3] as u32) * 16777216;
    v
}

fn u64_at(b: &[u8], at: usize) -> (r: u64)
    requires
        at + 8 <= b@.len(),
    ensures
        r == le64(b@, at as int),
{
    let _n = b.len();
    let lo = u32_at(b, at) as u64;
    let hi = u32_at(b, at + 4) as u64;
    lo + hi * 4294967296
}

fn has_tag(b: &[u8], at: usize, tag: &[u8; 4]) -> (r: bool)
    requires
        at + 4 <= b@.len(),
    ensures
        r == tag_at(b@, at as int, tag@),
{
    proof {
        assert(tag@.len() == 4);
    }
    let r = b[at] == tag[0] && b[at + 1] == tag[1] && b[at + 2] == tag[2] && b[at + 3] == tag[3];
    proof {
        if r {
            assert(b@.subrange(at as int, at + 4) =~= tag@);
        } else {
            let s = b@.subrange(at as int, at + 4);
            assert(!(s =~= tag@) ==> s != tag@);
            if s == tag@ {
                assert(s[0] == tag@[0] && s[1] == tag@[1] && s[2] == tag@[2] && s[3] == tag@[3]);
            }
        }
    }
    r
}

fn slice_to_vec(b: &[u8], from: usize, to: usize) -> (v: Vec<u8>)
    requires
        from <= to <= b@.len(),
    ensures
        v@ == b@.subrange(from as int, to as int),
{
    let mut v: Vec<u8> = Vec::new();
    let mut i = from;
    while i < to
        invariant
            from <= i <= to <= b@.len(),
            v@ == b@.subrange(from as int, i as int),
        decreases to - i,
    {
        v.push(b[i]);
        assert(v@ =~= b@.subrange(from as int, i + 1));
        i = i + 1;
    }
    v
}

/// The payload of the first `MEM ` block of a `RASTATE` container: blocks
/// are a four-byte tag, a little-endian `u32` size and the payload, padded
/// to 8 bytes, from byte 8 on; an `END ` block before any `MEM ` is an
/// error, as is a field or payload past the end.
pub fn rastate_mem(bytes: &[u8]) -> (r: Result<Vec<u8>, StateError>)
    ensures
        view_result(r) == spec_rastate_mem(bytes@),
{
    let len = bytes.len();
    let end_bytes: [u8; 4] = [69u8, 78u8, 68u8, 32u8];
    let mem_bytes: [u8; 4] = [77u8, 69u8, 77u8, 32u8];
    assert(end_bytes@ =~= end_tag());
    assert(mem_bytes@ =~= mem_tag());
    let mut pos: u128 = 8;
    loop
        invariant
            len == bytes@.len(),
            end_bytes@ == end_tag(),
            mem_bytes@ == mem_tag(),
            8 <= pos <= len + 8,
            spec_rastate_mem(bytes@) == spec_blocks(bytes@, pos as nat),
        decreases len + 8 - pos,
    {
        if pos + 4 > len as u128 {
            return Err(StateError::Truncated(pos as u64));
        }
        if pos + 8 > len as u128 {
            return Err(StateError::Truncated((pos + 4) as u64));
        }
        let p = pos as usize;
        let size = u32_at(bytes, p + 4) as u64;
        let start = p + 8;
        if has_tag(bytes, p, &end_bytes) {
            return Err(StateError::NoMem);
        }
        if size as u128 > (len - start) as u128 {
            return Err(
                StateError::BlockPastEnd {
                    tag: [bytes[p], bytes[p + 1], bytes[p + 2], bytes[p + 3]],
                    at: start as u64,
                    size,
                },
            );
        }
        if has_tag(bytes, p, &mem_bytes) {
            let payload = slice_to_vec(bytes, start, start + size as usize);
            return Ok(payload);
        }
        pos = start as u128 + ((size as u128 + 7) / 8) * 8;
    }
}

/// What one inflated chunk does to the bytes `out` inflated so far, when
/// the chunk's stream ends at byte `end` of the container and `total`
/// bytes are to come out: a corrupt stream (`None`) is refused at `end`,
/// bytes past `total` are refused, and anything else is appended.
pub fn take_chunk(out: &mut Vec<u8>, total: u64, end: usize, inflated: Option<Vec<u8>>) -> (r: Result<
    (),
    StateError,
>)
    ensures
        match inflated {
            None => r matches Err(StateError::Inflate(at)) && at == end && final(out)@ == old(out)@,
            Some(more) => if old(out)@.len() + more@.len() > total {
                r matches Err(StateError::InflatesPast(t)) && t == total && final(out)@ == old(out)@
            } else {
                r is Ok && final(out)@ == old(out)@ + more@
            },
        },
{
    match inflated {
        None => Err(StateError::Inflate(end as u64)),
        Some(more) => {
            if more.len() as u128 + out.len() as u128 > total as u128 {
                return Err(StateError::InflatesPast(total));
            }
            let mut more = more;
            out.append(&mut more);
            Ok(())
        },
    }
}

/// The bytes an rzip container inflates to: after the 20-byte header, a
/// run of chunks, each a little-endian `u32` length and that many bytes of
/// zlib stream, until the total in the header has come out. A header
/// claiming more than [`MAX_STATE_BYTES`], a chunk past the end, a chunk
/// that is not zlib, and one that inflates past the total are refused.
fn unrzip(bytes: &[u8]) -> (r: Result<Vec<u8>, StateError>)
    requires
        is_rzip(bytes@),
    ensures
        view_result(r) == spec_unrzip(bytes@),
{
    let len = bytes.len();
    let claimed = u64_at(bytes, 12);
    if claimed > MAX_STATE_BYTES {
        return Err(StateError::ClaimsTooMuch(claimed));
    }
    let total = claimed;
    let mut out: Vec<u8> = Vec::new();
    let mut pos: usize = 20;
    assert(out@ =~= Seq::<u8>::empty());
    while (out.len() as u64) < total
        invariant
            len == bytes@.len(),
            total == le64(bytes@, 12),
            total <= MAX_STATE_BYTES,
            out@.len() <= total,
            20 <= pos <= len,
            spec_unrzip(bytes@) == spec_chunks(bytes@, total as nat, pos as nat, out@),
        decreases len - pos,
    {
        if pos > len - 4 {
            return Err(StateError::Truncated(pos as u64));
        }
        let chunk_len = u32_at(bytes, pos) as usize;
        let start = pos + 4;
        if chunk_len > len - start {
            return Err(StateError::ChunkPastEnd(start as u64));
        }
        let end = start + chunk_len;
        let room = total - out.len() as u64 + 1;
        let chunk = slice_to_vec(bytes, start, end);
        let inflated = inflate_at_most(chunk.as_slice(), room);
        match take_chunk(&mut out, total, end, inflated) {
            Ok(()) => {},
            Err(e) => {
                return Err(e);
            },
        }
        pos = end;
    }
    Ok(out)
}

/// Unwrap a RetroArch state file to the bytes `retro_unserialize` takes.
/// Handles the `#RZIPv` + version + `#` chunked-zlib container (version 1
/// only), the `RASTATE` + version block container, both together, or
/// neither (old files are raw core data).
pub fn decode(bytes: &[u8]) -> (r: Result<Vec<u8>, StateError>)
    ensures
        view_result(r) == spec_decode(bytes@),
{
    let magic: [u8; 6] = [35u8, 82u8, 90u8, 73u8, 80u8, 118u8];
    assert(magic@ =~= rzip_magic());
    let rzip = bytes.len() >= 20 && starts_with(bytes, &magic) && bytes[7] == 35u8;
    let plain = if rzip {
        if bytes[6] != 1 {
            return Err(StateError::UnsupportedVersion(bytes[6]));
        }
        match unrzip(bytes) {
            Ok(p) => p,
            Err(e) => {
                return Err(e);
            },
        }
    } else {
        slice_to_vec(bytes, 0, bytes.len())
    };
    assert(!rzip ==> plain@ =~= bytes@);
    unwrap_rastate(plain)
}

/// What a state gives once its rzip layer, if any, is inflated (`plain`):
/// the `MEM ` payload of a `RASTATE` container, or the bytes themselves.
pub fn unwrap_rastate(plain: Vec<u8>) -> (r: Result<Vec<u8>, StateError>)
    ensures
        view_result(r) == spec_unwrap_rastate(plain@),
{
    let rastate: [u8; 7] = [82u8, 65u8, 83u8, 84u8, 65u8, 84u8, 69u8];
    assert(rastate@ =~= rastate_magic());
    if plain.len() >= 8 && starts_with(plain.as_slice(), &rastate) {
        rastate_mem(plain.as_slice())
    } else {
        Ok(plain)
    }
}

fn starts_with(b: &[u8], prefix: &[u8]) -> (r: bool)
    ensures
        r == tag_at(b@, 0, prefix@),
{
    if prefix.len() > b.len() {
        return false;
    }
    let mut i: usize = 0;
    while i < prefix.len()
        invariant
            prefix@.len() <= b@.len(),
            0 <= i <= prefix@.len(),
            forall|j: int| 0 <= j < i ==> b@[j] == prefix@[j],
        decreases prefix@.len() - i,
    {
        if b[i] != prefix[i] {
            assert(b@.subrange(0, prefix@.len() as int)[i as int] != prefix@[i as int]);
            return false;
        }
        i = i + 1;
    }
    assert(b@.subrange(0, prefix@.len() as int) =~= prefix@);
    true
}

/// The one-line message for `e`.
pub open spec fn spec_message(e: StateError) -> Seq<char> {
    match e {
        StateError::UnsupportedVersion(v) => "rzip container version "@ + decimal(v as nat)
            + " is not supported (only 1)"@,
        StateError::ClaimsTooMuch(c) => "the rzip header claims "@ + decimal(c as nat)
            + " bytes, past the 268435456-byte limit"@,
        StateError::Truncated(at) => "state truncated at byte "@ + decimal(at as nat),
        StateError::ChunkPastEnd(at) => "rzip chunk at byte "@ + decimal(at as nat)
            + " runs past the end"@,
        StateError::Inflate(at) => "inflating the rzip chunk at byte "@ + decimal(at as nat),
        StateError::InflatesPast(total) => "an rzip chunk inflates past the "@ + decimal(
            total as nat,
        ) + " bytes the header promises"@,
        StateError::NoMem => "state has no MEM block"@,
        StateError::BlockPastEnd { tag, at, size } => "block "@ + tag_text(tag@) + " at byte "@
            + decimal(at as nat) + " declares "@ + decimal(size as nat)
            + " bytes past the end"@,
    }
}

/// A block tag as the message shows it: its bytes read as UTF-8 (invalid
/// sequences replaced), formatted with `{:?}`.
pub open spec fn tag_text(tag: Seq<u8>) -> Seq<char> {
    crate::text::debug_quoted(crate::text::lossy_text(tag))
}

impl StateError {
    /// The message for this error, as the command line prints it.
    pub fn message(&self) -> (s: String)
        ensures
            s@ == spec_message(*self),
    {
        let mut s = String::new();
        match *self {
            StateError::UnsupportedVersion(v) => {
                push_str(&mut s, "rzip container version ");
                push_decimal(&mut s, v as u64);
                push_str(&mut s, " is not supported (only 1)");
            },
            StateError::ClaimsTooMuch(c) => {
                push_str(&mut s, "the rzip header claims ");
                push_decimal(&mut s, c);
                push_str(&mut s, " bytes, past the 268435456-byte limit");
            },
            StateError::Truncated(at) => {
                push_str(&mut s, "state truncated at byte ");
                push_decimal(&mut s, at);
            },
            StateError::ChunkPastEnd(at) => {
                push_str(&mut s, "rzip chunk at byte ");
                push_decimal(&mut s, at);
                push_str(&mut s, " runs past the end");
            },
            StateError::Inflate(at) => {
                push_str(&mut s, "inflating the rzip chunk at byte ");
                push_decimal(&mut s, at);
            },
            StateError::InflatesPast(total) => {
                push_str(&mut s, "an rzip chunk inflates past the ");
                push_decimal(&mut s, total);
                push_str(&mut s, " bytes the header promises");
            },
            StateError::NoMem => {
                push_str(&mut s, "state has no MEM block");
            },
            StateError::BlockPastEnd { tag, at, size } => {
                push_str(&mut s, "block ");
                let text = crate::text::utf8_lossy(&tag);
                let quoted = crate::text::debug_str(text.as_str());
                push_str(&mut s, quoted.as_str());
                push_str(&mut s, " at byte ");
                push_decimal(&mut s, at);
                push_str(&mut s, " declares ");
                push_decimal(&mut s, size);
                push_str(&mut s, " bytes past the end");
            },
        }
        assert(s@ =~= spec_message(*self));
        s
    }
}

/// A file in neither container is raw core data, handed through as it is.
pub proof fn lemma_raw_data_passes_through(b: Seq<u8>)
    requires
        !is_rzip(b),
        !is_rastate(b),
    ensures
        spec_decode(b) == Ok::<Seq<u8>, StateError>(b),
{
}

/// The four little-endian bytes of `n`.
pub open spec fn le32_bytes(n: nat) -> Seq<u8> {
    seq![(n % 256) as u8, ((n / 256) % 256) as u8, ((n / 65536) % 256) as u8, ((n / 16777216) % 256) as u8]
}

/// One block of a `RASTATE` container: its tag, its size, its payload,
/// zeros up to the next multiple of eight.
pub open spec fn block(tag: Seq<u8>, payload: Seq<u8>) -> Seq<u8> {
    tag + le32_bytes(payload.len()) + payload + Seq::new((padded(payload.len()) - payload.len()) as nat, |i: int| 0u8)
}

/// The blocks `bs`, in order.
pub open spec fn blocks(bs: Seq<(Seq<u8>, Seq<u8>)>) -> Seq<u8>
    decreases bs.len(),
{
    if bs.len() == 0 {
        Seq::empty()
    } else {
        block(bs[0].0, bs[0].1) + blocks(bs.skip(1))
    }
}

proof fn lemma_le32_bytes(n: nat)
    requires
        n < 4294967296,
    ensures
        le32(le32_bytes(n), 0) == n,
        le32_bytes(n).len() == 4,
{
    let b0 = n % 256;
    let q0 = n / 256;
    let b1 = q0 % 256;
    let q1 = q0 / 256;
    let b2 = q1 % 256;
    let b3 = q1 / 256;
    assert(n / 65536 == q1) by (nonlinear_arith)
        requires
            q0 == n / 256,
            q1 == q0 / 256,
    ;
    assert(n / 16777216 == b3) by (nonlinear_arith)
        requires
            q0 == n / 256,
            q1 == q0 / 256,
            b3 == q1 / 256,
    ;
    assert(b3 < 256) by (nonlinear_arith)
        requires
            n < 4294967296,
            b3 == n / 16777216,
    ;
    assert(n == b0 + b1 * 256 + b2 * 65536 + b3 * 16777216) by (nonlinear_arith)
        requires
            b0 == n % 256,
            q0 == n / 256,
            b1 == q0 % 256,
            q1 == q0 / 256,
            b2 == q1 % 256,
            b3 == q1 / 256,
    ;
}

/// The blocks before the memory one: none is tagged `END ` or `MEM `,
/// each tag is four bytes and each payload fits the size field.
pub open spec fn other_blocks(bs: Seq<(Seq<u8>, Seq<u8>)>) -> bool {
    forall|i: int|
        0 <= i < bs.len() ==> #[trigger] bs[i].0.len() == 4 && bs[i].0 != end_tag() && bs[i].0
            != mem_tag() && bs[i].1.len() < 4294967296
}

proof fn lemma_padded(n: nat)
    ensures
        padded(n) % 8 == 0,
        n <= padded(n) < n + 8,
{
    assert(padded(n) % 8 == 0 && n <= padded(n) < n + 8) by (nonlinear_arith)
        requires
            padded(n) == ((n + 7) / 8) * 8,
    ;
}

/// What a block written at `p` of `all` reads back as: its tag, its size
/// field, and its payload.
proof fn lemma_block_fields(all: Seq<u8>, p: int, tag: Seq<u8>, pl: Seq<u8>)
    requires
        0 <= p,
        tag.len() == 4,
        pl.len() < 4294967296,
        p + block(tag, pl).len() <= all.len(),
        all.subrange(p, p + block(tag, pl).len()) == block(tag, pl),
    ensures
        block(tag, pl).len() == 8 + padded(pl.len()),
        all.subrange(p, p + 4) == tag,
        le32(all, p + 4) == pl.len(),
        all.subrange(p + 8, p + 8 + pl.len()) == pl,
{
    let blk = block(tag, pl);
    lemma_le32_bytes(pl.len());
    lemma_padded(pl.len());
    assert(blk.subrange(0, 4) =~= tag);
    assert(blk.subrange(4, 8) =~= le32_bytes(pl.len()));
    assert(blk.subrange(8, 8 + pl.len() as int) =~= pl);
    assert(all.subrange(p, p + 4) =~= blk.subrange(0, 4));
    assert(all.subrange(p + 8, p + 8 + pl.len()) =~= blk.subrange(8, 8 + pl.len() as int));
    assert(all[p + 4] == blk[4]);
    assert(all[p + 5] == blk[5]);
    assert(all[p + 6] == blk[6]);
    assert(all[p + 7] == blk[7]);
    assert(le32(all, p + 4) == le32(le32_bytes(pl.len()), 0));
}

#[verifier::rlimit(40)]
proof fn lemma_blocks_from(bs: Seq<(Seq<u8>, Seq<u8>)>, mem: Seq<u8>, rest: Seq<u8>, head: Seq<u8>)
    requires
        other_blocks(bs),
        mem.len() < 4294967296,
    ensures
        spec_blocks(head + blocks(bs) + block(mem_tag(), mem) + rest, head.len()) == Ok::<Seq<u8>, StateError>(mem),
    decreases bs.len(),
{
    let all = head + blocks(bs) + block(mem_tag(), mem) + rest;
    let p = head.len() as int;
    if bs.len() == 0 {
        let blk = block(mem_tag(), mem);
        assert(blocks(bs) =~= Seq::<u8>::empty());
        assert(all.subrange(p, p + blk.len()) =~= blk);
        lemma_block_fields(all, p, mem_tag(), mem);
        assert(!tag_at(all, p, end_tag())) by {
            assert(all.subrange(p, p + 4)[0] == 77u8);
        }
        assert(tag_at(all, p, mem_tag()));
    } else {
        let t = bs[0].0;
        let pl = bs[0].1;
        assert(other_blocks(bs.skip(1))) by {
            assert forall|i: int| 0 <= i < bs.skip(1).len() implies #[trigger] bs.skip(1)[i].0.len() == 4
                && bs.skip(1)[i].0 != end_tag() && bs.skip(1)[i].0 != mem_tag()
                && bs.skip(1)[i].1.len() < 4294967296 by {
                assert(bs.skip(1)[i] == bs[i + 1]);
            }
        }
        assert(bs[0].0.len() == 4 && bs[0].0 != end_tag() && bs[0].0 != mem_tag() && bs[0].1.len() < 4294967296);
        let blk = block(t, pl);
        let head2 = head + blk;
        lemma_blocks_from(bs.skip(1), mem, rest, head2);
        assert(blocks(bs) =~= blk + blocks(bs.skip(1)));
        assert(all =~= head2 + blocks(bs.skip(1)) + block(mem_tag(), mem) + rest);
        assert(all.subrange(p, p + blk.len()) =~= blk);
        lemma_block_fields(all, p, t, pl);
        assert(!tag_at(all, p, end_tag()));
        assert(!tag_at(all, p, mem_tag()));
        assert(head2.len() == p + 8 + padded(pl.len()));
    }
}

/// Whatever blocks come before it, decoding a `RASTATE` container gives
/// the `MEM ` block's payload at its unpadded size.
pub proof fn lemma_rastate_gives_the_mem_block(version: u8, bs: Seq<(Seq<u8>, Seq<u8>)>, mem: Seq<u8>, rest: Seq<u8>)
    requires
        other_blocks(bs),
        mem.len() < 4294967296,
    ensures
        spec_decode(rastate_magic().push(version) + blocks(bs) + block(mem_tag(), mem) + rest)
            == Ok::<Seq<u8>, StateError>(mem),
{
    let head = rastate_magic().push(version);
    let all = head + blocks(bs) + block(mem_tag(), mem) + rest;
    lemma_blocks_from(bs, mem, rest, head);
    assert(all.subrange(0, 7) =~= rastate_magic());
    assert(!is_rzip(all)) by {
        assert(all[0] == 82u8);
        if all.len() >= 20 {
            assert(all.subrange(0, 6)[0] == 82u8);
        }
    }
    assert(is_rastate(all));
}

} // verus!
