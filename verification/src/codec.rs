//! The codec pipeline's compute core: zstd compression and decompression of
//! paste payloads, byte-exact chunking for re-streaming, and the lossy UTF-8
//! view used when a paste is rendered as text.

use vstd::prelude::*;

use crate::error::Error;

verus! {

/// What the zstd compressor produces for a byte sequence, at the fixed
/// default level: a function of the input bytes alone.
pub uninterp spec fn compress_of(b: Seq<u8>) -> Seq<u8>;

/// What the zstd decompressor yields for a byte sequence: the decoded
/// payload, or nothing when the input is not a well-formed compressed stream.
pub uninterp spec fn decompressed_of(b: Seq<u8>) -> Option<Seq<u8>>;

/// What the lossy UTF-8 decoder yields for a byte sequence: a function of the
/// bytes alone, with ill-formed sequences replaced, never a failure.
pub uninterp spec fn lossy_of(b: Seq<u8>) -> Seq<char>;

/// Relies on `async_compression::tokio::bufread::ZstdEncoder` driven over an
/// in-memory buffer: at the fixed default level the output is a function of
/// the input bytes alone, decoding that output yields the input again (zstd
/// is lossless), and compressing an in-memory buffer succeeds on every
/// input — the encoder has no input-dependent failure, only environmental
/// ones (out of memory), which abort like any failed allocation.
#[verifier::external_body]
pub(crate) fn zstd_compress(data: &[u8]) -> (r: Vec<u8>)
    ensures
        r@ == compress_of(data@),
        decompressed_of(r@) == Some(data@),
{
    let mut enc = async_compression::tokio::bufread::ZstdEncoder::new(data);
    let mut out: Vec<u8> = Vec::new();
    futures::executor::block_on(tokio::io::AsyncReadExt::read_to_end(&mut enc, &mut out))
        .expect("in-memory zstd compression has no input-dependent failure");
    out
}

/// Relies on `async_compression::tokio::bufread::ZstdDecoder` driven over an
/// in-memory buffer: decoding is a function of the input bytes alone, and a
/// stream it cannot decode is reported as an error.
#[verifier::external_body]
pub(crate) fn zstd_decompress(data: &[u8]) -> (r: Option<Vec<u8>>)
    ensures
        r is Some ==> decompressed_of(data@) == Some(r->0@),
        r is None ==> decompressed_of(data@) is None,
{
    let mut dec = async_compression::tokio::bufread::ZstdDecoder::new(data);
    let mut out: Vec<u8> = Vec::new();
    let res = futures::executor::block_on(tokio::io::AsyncReadExt::read_to_end(&mut dec, &mut out));
    res.ok().map(|_| out)
}

/// Relies on `String::from_utf8_lossy`: the result is a function of the bytes
/// alone; bytes below 128 are valid UTF-8 and decode unchanged.
#[verifier::external_body]
pub(crate) fn utf8_lossy(b: &[u8]) -> (r: String)
    ensures
        r@ == lossy_of(b@),
        (forall|i: int| 0 <= i < b@.len() ==> b@[i] < 128) ==> r@ == b@.map_values(
            |x: u8| x as char,
        ),
{
    String::from_utf8_lossy(b).into_owned()
}

/// Compress a paste payload: exactly the compressor's output for `content`,
/// and decoding it yields `content` back. Compression never rejects an
/// input.
pub fn encode_paste(content: &[u8]) -> (r: Vec<u8>)
    ensures
        r@ == compress_of(content@),
        decompressed_of(r@) == Some(content@),
{
    zstd_compress(content)
}

/// Decompress a stored paste payload: the decoder's result for `data` when
/// `data` is a well-formed stream, and an I/O fault otherwise.
pub fn decode_paste(data: &[u8]) -> (r: Result<Vec<u8>, Error>)
    ensures
        match decompressed_of(data@) {
            Some(b) => r is Ok && r->Ok_0@ == b,
            None => r is Err && r->Err_0 == Error::IoFault,
        },
{
    match zstd_decompress(data) {
        Some(v) => Ok(v),
        None => Err(Error::IoFault),
    }
}

/// The bytes carried by a sequence of chunks, in order.
pub open spec fn concat_vecs(cs: Seq<Vec<u8>>) -> Seq<u8>
    decreases cs.len(),
{
    if cs.len() == 0 {
        Seq::empty()
    } else {
        concat_vecs(cs.drop_last()) + cs.last()@
    }
}

pub proof fn lemma_concat_vecs_push(cs: Seq<Vec<u8>>, c: Vec<u8>)
    ensures
        concat_vecs(cs.push(c)) == concat_vecs(cs) + c@,
{
    assert(cs.push(c).drop_last() =~= cs);
    assert(cs.push(c).last() == c);
}

/// Split `data` into chunks of at most `chunk_size` bytes, in order, for
/// re-streaming a paste to a response sink without a second on-disk copy.
pub fn chunk_bytes(data: &Vec<u8>, chunk_size: usize) -> (r: Vec<Vec<u8>>)
    requires
        chunk_size >= 1,
    ensures
        concat_vecs(r@) == data@,
        forall|i: int| 0 <= i < r@.len() ==> 0 < #[trigger] r@[i]@.len() <= chunk_size,
{
    let n = data.len();
    let mut out: Vec<Vec<u8>> = Vec::new();
    let mut pos: usize = 0;
    proof {
        assert(concat_vecs(out@) =~= data@.take(0));
    }
    while pos < n
        invariant
            chunk_size >= 1,
            n == data@.len(),
            pos <= n,
            concat_vecs(out@) == data@.take(pos as int),
            forall|i: int| 0 <= i < out@.len() ==> 0 < #[trigger] out@[i]@.len() <= chunk_size,
        decreases n - pos,
    {
        let end = if n - pos < chunk_size {
            n
        } else {
            pos + chunk_size
        };
        let mut chunk: Vec<u8> = Vec::new();
        let mut j: usize = pos;
        while j < end
            invariant
                pos <= j <= end <= n,
                n == data@.len(),
                chunk@ == data@.subrange(pos as int, j as int),
            decreases end - j,
        {
            chunk.push(data[j]);
            assert(chunk@ =~= data@.subrange(pos as int, j + 1));
            j += 1;
        }
        proof {
            lemma_concat_vecs_push(out@, chunk);
            assert(data@.take(pos as int) + data@.subrange(pos as int, end as int) =~= data@.take(
                end as int,
            ));
        }
        out.push(chunk);
        pos = end;
    }
    proof {
        assert(data@.take(n as int) =~= data@);
    }
    out
}

} // verus!
