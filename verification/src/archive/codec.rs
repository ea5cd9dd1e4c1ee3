//! Decompression of a member, by the codec that its name announced.

use crate::archive::container::DecoderVariant;
use std::io::Read;
use vstd::prelude::*;

verus! {

/// What the xz stream `packed` decodes to, or why it does not decode.
pub uninterp spec fn xz_decoded(packed: Seq<u8>) -> Result<Seq<u8>, Seq<char>>;

/// What the gzip stream `packed` decodes to, or why it does not decode.
pub uninterp spec fn gz_decoded(packed: Seq<u8>) -> Result<Seq<u8>, Seq<char>>;

/// What `packed` decodes to under the given codec.
pub open spec fn decoded(codec: DecoderVariant, packed: Seq<u8>) -> Result<Seq<u8>, Seq<char>> {
    match codec {
        DecoderVariant::Xz => xz_decoded(packed),
        DecoderVariant::Gz => gz_decoded(packed),
    }
}

/// Reads an `xz2::read::XzDecoder` over `packed` to its end. The contract
/// only gives the outcome its name; the error is the outside error's text.
#[verifier::external_body]
fn decode_xz(packed: &[u8]) -> (plain: Result<Vec<u8>, String>)
    ensures
        match plain {
            Ok(bytes) => xz_decoded(packed@) == Ok::<Seq<u8>, Seq<char>>(bytes@),
            Err(why) => xz_decoded(packed@) == Err::<Seq<u8>, Seq<char>>(why@),
        },
{
    let mut bytes = Vec::new();
    xz2::read::XzDecoder::new(packed).read_to_end(&mut bytes).map_err(|e| e.to_string())?;
    Ok(bytes)
}

/// Makes a `libflate::gzip::Decoder` over `packed` and reads it to its end.
/// The contract only gives the outcome its name; the error is the outside
/// error's text.
#[verifier::external_body]
fn decode_gz(packed: &[u8]) -> (plain: Result<Vec<u8>, String>)
    ensures
        match plain {
            Ok(bytes) => gz_decoded(packed@) == Ok::<Seq<u8>, Seq<char>>(bytes@),
            Err(why) => gz_decoded(packed@) == Err::<Seq<u8>, Seq<char>>(why@),
        },
{
    let mut decoder = libflate::gzip::Decoder::new(packed).map_err(|e| e.to_string())?;
    let mut bytes = Vec::new();
    decoder.read_to_end(&mut bytes).map_err(|e| e.to_string())?;
    Ok(bytes)
}

/// Decodes a member with the codec that was recorded for it.
pub fn decode(codec: DecoderVariant, packed: &[u8]) -> (plain: Result<Vec<u8>, String>)
    ensures
        match plain {
            Ok(bytes) => decoded(codec, packed@) == Ok::<Seq<u8>, Seq<char>>(bytes@),
            Err(why) => decoded(codec, packed@) == Err::<Seq<u8>, Seq<char>>(why@),
        },
{
    match codec {
        DecoderVariant::Xz => decode_xz(packed),
        DecoderVariant::Gz => decode_gz(packed),
    }
}

} // verus!
