//! The frame around a message before it is encrypted: its length, the message, and padding up to
//! a whole number of blocks, so that the ciphertext shows the length of the message only roughly.
use vstd::prelude::*;

verus! {

/// A framed message is a whole number of blocks of this many bytes.
pub const PADDING_BLOCK: usize = 256;

/// The number of bytes that hold the length of the message.
pub const PREFIX_LEN: usize = 4;

/// The four bytes of a number below 2^32, the highest first.
pub open spec fn be32(n: int) -> Seq<u8> {
    seq![
        (n / 0x1000000 % 0x100) as u8,
        (n / 0x10000 % 0x100) as u8,
        (n / 0x100 % 0x100) as u8,
        (n % 0x100) as u8,
    ]
}

/// The number that the first four bytes stand for, the highest first.
pub open spec fn be32_value(bytes: Seq<u8>) -> int {
    bytes[0] * 0x1000000 + bytes[1] * 0x10000 + bytes[2] * 0x100 + bytes[3]
}

/// The four bytes of `n`, the highest first.
fn to_be32(n: u32) -> (r: [u8; 4])
    ensures
        r@ == be32(n as int),
{
    let r = [
        (n / 0x1000000) as u8,
        (n / 0x10000 % 0x100) as u8,
        (n / 0x100 % 0x100) as u8,
        (n % 0x100) as u8,
    ];
    assert(r@ =~= be32(n as int));
    r
}

/// The number that the first four bytes stand for, the highest first.
fn from_be32(bytes: &[u8]) -> (r: u32)
    requires
        bytes@.len() >= PREFIX_LEN,
    ensures
        r as int == be32_value(bytes@),
{
    bytes[0] as u32 * 0x1000000 + bytes[1] as u32 * 0x10000 + bytes[2] as u32 * 0x100 + bytes[3] as u32
}

/// The number of padding bytes behind a message of `n` bytes: at least one, and as many as fill
/// the last block.
pub open spec fn padding_for(n: int) -> int {
    PADDING_BLOCK - (PREFIX_LEN + n) % PADDING_BLOCK as int
}

/// The length of the frame around a message of `n` bytes.
pub open spec fn framed_len(n: int) -> int {
    PREFIX_LEN + n + padding_for(n)
}

/// The frame around `content` with the padding `pad`. The length is written modulo 2^32.
pub open spec fn framed(content: Seq<u8>, pad: Seq<u8>) -> Seq<u8> {
    be32(content.len() as int % 0x1_0000_0000) + content + pad
}

/// What a frame holds, or the message that says what is wrong with it.
pub open spec fn unframed(plaintext: Seq<u8>) -> Result<Seq<u8>, Seq<char>> {
    if plaintext.len() < PREFIX_LEN {
        Err("Decrypted payload too short"@)
    } else if plaintext.len() - PREFIX_LEN < be32_value(plaintext) {
        Err("Decrypted payload shorter than declared content length"@)
    } else {
        Ok(plaintext.subrange(PREFIX_LEN as int, PREFIX_LEN + be32_value(plaintext)))
    }
}

/// The number of padding bytes that a message of `content_len` bytes needs.
pub fn pad_len(content_len: usize) -> (r: usize)
    ensures
        r == padding_for(content_len as int),
        1 <= r <= PADDING_BLOCK,
{
    PADDING_BLOCK - (PREFIX_LEN + content_len % PADDING_BLOCK) % PADDING_BLOCK
}

/// The frame around `content`, with `pad` behind it.
pub fn frame(content: &[u8], pad: &[u8]) -> (r: Vec<u8>)
    ensures
        r@ == framed(content@, pad@),
{
    let len: usize = content.len();
    let prefix = to_be32(len as u32);
    proof {
        let wide: u64 = len as u64;
        assert(wide as u32 == wide % 0x1_0000_0000) by (bit_vector);
    }
    let mut r: Vec<u8> = Vec::new();
    r.extend_from_slice(&prefix);
    r.extend_from_slice(content);
    r.extend_from_slice(pad);
    assert(r@ =~= framed(content@, pad@));
    r
}

/// Takes a frame apart and gives the message in it.
pub fn unframe(plaintext: &[u8]) -> (r: Result<Vec<u8>, String>)
    ensures
        r matches Ok(content) ==> (unframed(plaintext@) matches Ok(bytes) && bytes == content@),
        r matches Err(e) ==> (unframed(plaintext@) matches Err(words) && words == e@),
{
    if plaintext.len() < PREFIX_LEN {
        return Err("Decrypted payload too short".to_string());
    }
    let declared: u32 = from_be32(plaintext);
    if ((plaintext.len() - PREFIX_LEN) as u64) < declared as u64 {
        return Err("Decrypted payload shorter than declared content length".to_string());
    }
    let content_len: usize = declared as usize;
    Ok(vstd::slice::slice_to_vec(vstd::slice::slice_subrange(plaintext, PREFIX_LEN, PREFIX_LEN + content_len)))
}

/// Four bytes hold every number below 2^32.
pub proof fn law_length_prefix(n: int, rest: Seq<u8>)
    requires
        0 <= n < 0x1_0000_0000,
    ensures
        be32(n).len() == PREFIX_LEN,
        be32_value(be32(n) + rest) == n,
{
    assert(n / 0x1000000 % 0x100 * 0x1000000 + n / 0x10000 % 0x100 * 0x10000 + n / 0x100 % 0x100 * 0x100 + n % 0x100
        == n);
}

/// What is framed comes out of the frame again, whatever the padding. (A message of 2^32 bytes or
/// more has no length of its own in the frame.)
pub proof fn law_unframe_gives_back(content: Seq<u8>, pad: Seq<u8>)
    requires
        content.len() < 0x1_0000_0000,
    ensures
        unframed(framed(content, pad)) matches Ok(bytes) && bytes == content,
{
    let n = content.len() as int;
    law_length_prefix(n, content + pad);
    let whole = framed(content, pad);
    assert(whole =~= be32(n) + (content + pad));
    assert(whole.subrange(PREFIX_LEN as int, PREFIX_LEN + n) =~= content);
}

/// A frame is a whole number of blocks, with at least one byte and at most one block of padding.
pub proof fn law_frame_is_whole_blocks(content: Seq<u8>, pad: Seq<u8>)
    requires
        pad.len() == padding_for(content.len() as int),
    ensures
        framed(content, pad).len() == framed_len(content.len() as int),
        framed_len(content.len() as int) % PADDING_BLOCK as int == 0,
        1 <= pad.len() <= PADDING_BLOCK,
{
}

/// Messages whose length falls into the same block have frames of one length.
pub proof fn law_frame_hides_length(m: int, n: int)
    requires
        0 <= m,
        0 <= n,
        (PREFIX_LEN + m) / PADDING_BLOCK as int == (PREFIX_LEN + n) / PADDING_BLOCK as int,
    ensures
        framed_len(m) == framed_len(n),
{
}

/// How a frame is laid out: four bytes that spell the length of the message, highest first, the message,
/// and the padding.
pub proof fn law_frame_layout(content: Seq<u8>, pad: Seq<u8>)
    requires
        content.len() < 0x1_0000_0000,
    ensures
        framed(content, pad).len() == 4 + content.len() + pad.len(),
        framed(content, pad)[0] * 0x1000000 + framed(content, pad)[1] * 0x10000 + framed(content, pad)[2] * 0x100
            + framed(content, pad)[3] == content.len(),
        framed(content, pad).subrange(4, 4 + content.len() as int) == content,
        framed(content, pad).subrange(4 + content.len() as int, framed(content, pad).len() as int) == pad,
{
    let n = content.len() as int;
    let whole = framed(content, pad);
    law_length_prefix(n, content + pad);
    assert(whole =~= be32(n) + (content + pad));
    assert(whole.subrange(4, 4 + n) =~= content);
    assert(whole.subrange(4 + n, whole.len() as int) =~= pad);
}

/// The padding fills up the last block of 256 bytes, and is never empty.
pub proof fn law_padding_fills_the_block(n: int)
    requires
        0 <= n,
    ensures
        1 <= padding_for(n) <= 256,
        (4 + n + padding_for(n)) % 256 == 0,
        framed_len(n) == 4 + n + padding_for(n),
{
}

/// What is read in a frame is as much of it as the four bytes in front declare, and it is refused exactly
/// where they or the message are not all there.
pub proof fn law_frame_is_read_as_declared(plaintext: Seq<u8>, declared: int)
    requires
        plaintext.len() >= 4 ==> declared == plaintext[0] * 0x1000000 + plaintext[1] * 0x10000 + plaintext[2] * 0x100
            + plaintext[3],
    ensures
        plaintext.len() < 4 ==> unframed(plaintext) == Err::<Seq<u8>, Seq<char>>("Decrypted payload too short"@),
        plaintext.len() >= 4 && plaintext.len() < 4 + declared ==> unframed(plaintext) == Err::<Seq<u8>, Seq<char>>(
            "Decrypted payload shorter than declared content length"@,
        ),
        plaintext.len() >= 4 && plaintext.len() >= 4 + declared ==> unframed(plaintext) == Ok::<Seq<u8>, Seq<char>>(
            plaintext.subrange(4, 4 + declared),
        ),
{
}

/// What is put into a frame comes out of it, and the padding that belongs to it makes it whole blocks.
pub proof fn law_framing_and_unframing(
    content: &[u8],
    padding: usize,
    pad: &[u8],
    whole: Vec<u8>,
    framed_bytes: &[u8],
    r: Result<Vec<u8>, String>,
)
    requires
        call_ensures(pad_len, (content.len(),), padding),
        pad@.len() == padding,
        call_ensures(frame, (content, pad), whole),
        framed_bytes@ == whole@,
        call_ensures(unframe, (framed_bytes,), r),
        content@.len() < 0x1_0000_0000,
    ensures
        whole@.len() % 256 == 0,
        1 <= padding <= 256,
        r matches Ok(found) && found@ == content@,
{
    law_frame_layout(content@, pad@);
    law_unframe_gives_back(content@, pad@);
}

} // verus!
