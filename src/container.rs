//! The layout of a whole encoded file, and what decoding it gives:
//! `carrier || magic || chunk* || trailer`.

use vstd::prelude::*;

use crate::chunk::{chunk_made, lemma_chunk_round_trip};
use crate::crypto::{cipher_text, plain_text, sealed_len};
use crate::decoder::{chunk_length, decoded_chunk, has_marker};
use crate::error::HideError;
use crate::format::{
    hex_field, lemma_hex_field_round_trip, magic, CHUNK_LEN_SIZE, CHUNK_SIZE, HASH_TEXT_SIZE,
    MAGIC_LEN,
};
use crate::trailer::{
    field_offset, hide_spec_span, lemma_trailer_round_trip, trailer_made, TRAILER_TAIL_LEN,
};

verus! {

/// The pieces of `s` one after another.
pub open spec fn concat(s: Seq<Seq<u8>>) -> Seq<u8>
    decreases s.len(),
{
    if s.len() == 0 {
        Seq::empty()
    } else {
        s[0] + concat(s.drop_first())
    }
}

/// The file an encode writes: the carrier, the delimiter, the chunks, the trailer.
pub open spec fn encoded_file(carrier: Seq<u8>, chunks: Seq<Seq<u8>>, trailer: Seq<u8>) -> Seq<u8> {
    carrier + magic() + concat(chunks) + trailer
}

/// What the decoder's chunk loop gives on the bytes `s` that follow the
/// delimiter, when the trailer records `remaining` bytes of chunk stream:
/// it decodes one chunk, and goes on while fewer bytes than recorded were
/// consumed. Running out of bytes is a read error, shown as `BufferTooSmall`.
pub open spec fn decoded_stream(password: Seq<char>, s: Seq<u8>, remaining: nat) -> Result<
    Seq<u8>,
    HideError,
>
    decreases s.len(),
{
    if s.len() < CHUNK_LEN_SIZE {
        Err(HideError::BufferTooSmall)
    } else {
        let field = s.subrange(0, CHUNK_LEN_SIZE as int);
        match chunk_length(field) {
            Err(e) => Err(e),
            Ok(len) => if s.len() < CHUNK_LEN_SIZE + len {
                Err(HideError::BufferTooSmall)
            } else {
                let used = CHUNK_LEN_SIZE + len;
                match decoded_chunk(password, field, s.subrange(CHUNK_LEN_SIZE as int, used)) {
                    Err(e) => Err(e),
                    Ok(block) => if used >= remaining {
                        Ok(block)
                    } else {
                        match decoded_stream(
                            password,
                            s.subrange(used, s.len() as int),
                            (remaining - used) as nat,
                        ) {
                            Err(e) => Err(e),
                            Ok(more) => Ok(block + more),
                        }
                    },
                }
            },
        }
    }
}

/// What decoding the file `f` gives once its trailer has recorded the
/// carrier size `src_size` and the chunk stream size `append_size`.
pub open spec fn decoded_file(
    password: Seq<char>,
    f: Seq<u8>,
    src_size: nat,
    append_size: nat,
) -> Result<Seq<u8>, HideError> {
    if f.len() < src_size + MAGIC_LEN {
        Err(HideError::BufferTooSmall)
    } else if f.subrange(src_size as int, src_size + MAGIC_LEN) != magic() {
        Err(HideError::MarkerNotFound)
    } else {
        decoded_stream(password, f.subrange(src_size + MAGIC_LEN, f.len() as int), append_size)
    }
}

proof fn lemma_sealed_len_bound(n: nat)
    requires
        n <= CHUNK_SIZE,
    ensures
        sealed_len(n) <= 5484,
{
    assert((n + 16) / 16 * 16 <= 4112) by (nonlinear_arith)
        requires
            n <= 4096,
    ;
    let m = (n + 16) / 16 * 16;
    assert((m + 2) / 3 <= 1371) by (nonlinear_arith)
        requires
            m <= 4112,
    ;
}

proof fn lemma_stream_round_trip(
    password: Seq<char>,
    blocks: Seq<Seq<u8>>,
    chunks: Seq<Seq<u8>>,
    rest: Seq<u8>,
)
    requires
        blocks.len() > 0,
        chunks.len() == blocks.len(),
        forall|i: int| 0 <= i < blocks.len() ==> 0 < (#[trigger] blocks[i]).len() <= CHUNK_SIZE,
        forall|i: int| 0 <= i < blocks.len() ==> chunk_made(password, blocks[i], #[trigger] chunks[i]),
    ensures
        decoded_stream(password, concat(chunks) + rest, concat(chunks).len())
            == Ok::<Seq<u8>, HideError>(concat(blocks)),
    decreases blocks.len(),
{
    let b0 = blocks[0];
    let c0 = chunks[0];
    let ct = cipher_text(password, b0);
    let s = concat(chunks) + rest;
    assert(chunk_made(password, b0, c0));
    lemma_sealed_len_bound(b0.len());
    lemma_hex_field_round_trip((ct.len() + HASH_TEXT_SIZE) as nat);
    lemma_chunk_round_trip(password, b0, c0);
    let len = ct.len() + HASH_TEXT_SIZE;
    assert(s =~= c0 + (concat(chunks.drop_first()) + rest));
    assert(s.subrange(0, CHUNK_LEN_SIZE as int) =~= hex_field(len as nat));
    assert(c0.len() == CHUNK_LEN_SIZE + len);
    assert(hex_field(len as nat) + s.subrange(CHUNK_LEN_SIZE as int, CHUNK_LEN_SIZE + len) =~= c0);
    if blocks.len() == 1 {
        assert(concat(chunks.drop_first()) =~= Seq::<u8>::empty());
        assert(concat(blocks.drop_first()) =~= Seq::<u8>::empty());
        assert(concat(blocks) =~= b0);
    } else {
        let tb = blocks.drop_first();
        let tc = chunks.drop_first();
        assert forall|i: int| 0 <= i < tb.len() implies 0 < (#[trigger] tb[i]).len()
            <= CHUNK_SIZE by {
            assert(tb[i] == blocks[i + 1]);
        }
        assert forall|i: int| 0 <= i < tb.len() implies chunk_made(
            password,
            tb[i],
            #[trigger] tc[i],
        ) by {
            assert(tb[i] == blocks[i + 1]);
            assert(tc[i] == chunks[i + 1]);
        }
        lemma_stream_round_trip(password, tb, tc, rest);
        assert(chunk_made(password, tb[0], tc[0]));
        assert(concat(tc) =~= tc[0] + concat(tc.drop_first()));
        assert(s.subrange(CHUNK_LEN_SIZE + len, s.len() as int) =~= concat(tc) + rest);
    }
}

/// Decoding a file that encode wrote gives back the append file. The
/// carrier comes first, unchanged; the file ends with the delimiter; the
/// trailer's length field leads to the encrypted hide-spec, which decrypts
/// to the text that was written; and with the sizes that text records the
/// chunk loop returns the encoded blocks one after another. Here `blocks`
/// are the append file's blocks as read (at least one), `chunks` and
/// `trailer` are what `make_chunk` and `make_trailer` returned for them.
pub proof fn lemma_encode_decode(
    password: Seq<char>,
    carrier: Seq<u8>,
    blocks: Seq<Seq<u8>>,
    chunks: Seq<Seq<u8>>,
    text: Seq<u8>,
    trailer: Seq<u8>,
)
    requires
        blocks.len() > 0,
        chunks.len() == blocks.len(),
        forall|i: int| 0 <= i < blocks.len() ==> 0 < (#[trigger] blocks[i]).len() <= CHUNK_SIZE,
        forall|i: int| 0 <= i < blocks.len() ==> chunk_made(password, blocks[i], #[trigger] chunks[i]),
        trailer_made(password, text, trailer),
    ensures
        ({
            let f = encoded_file(carrier, chunks, trailer);
            let ct = cipher_text(password, text);
            let off = (f.len() - TRAILER_TAIL_LEN) as nat;
            let start = carrier.len() + MAGIC_LEN + concat(chunks).len();
            &&& f.subrange(0, carrier.len() as int) == carrier
            &&& has_marker(f)
            &&& field_offset(f.len()) == Ok::<nat, HideError>(off)
            &&& hide_spec_span(f.len(), f.subrange(off as int, off + CHUNK_LEN_SIZE))
                == Ok::<(nat, nat), HideError>((start as nat, ct.len()))
            &&& f.subrange(start as int, start + ct.len()) == ct
            &&& plain_text(password, ct) == Some(text)
            &&& decoded_file(password, f, carrier.len(), concat(chunks).len())
                == Ok::<Seq<u8>, HideError>(concat(blocks))
        }),
{
    let f = encoded_file(carrier, chunks, trailer);
    let stream = concat(chunks);
    lemma_stream_round_trip(password, blocks, chunks, trailer);
    lemma_trailer_round_trip(password, text, carrier + magic() + stream, trailer);
    assert(f =~= (carrier + magic() + stream) + trailer);
    assert(f.subrange(0, carrier.len() as int) =~= carrier);
    assert(f.subrange(carrier.len() as int, carrier.len() + MAGIC_LEN) =~= magic());
    assert(f.subrange(carrier.len() + MAGIC_LEN, f.len() as int) =~= stream + trailer);
    assert(trailer.len() >= TRAILER_TAIL_LEN);
    assert(f.subrange(f.len() - MAGIC_LEN, f.len() as int) =~= magic());
}

} // verus!
