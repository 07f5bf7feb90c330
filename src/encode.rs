//! The response body on its way out: adapted to the encoders' error type and
//! wrapped in the streaming encoder a selection names.
use crate::coding::{Coding, Selection};
use vstd::prelude::*;

verus! {

#[verifier::external_type_specification]
#[verifier::external_body]
pub struct ExBody(hyper::Body);

#[verifier::external_type_specification]
#[verifier::external_body]
pub struct ExBytes(bytes::Bytes);

#[verifier::external_type_specification]
#[verifier::external_body]
pub struct ExHyperError(hyper::Error);

#[verifier::external_type_specification]
#[verifier::external_body]
pub struct ExIoError(std::io::Error);

/// A response body on its way to an encoder.
pub struct CompressableBody<S> {
    pub body: S,
}

impl<S> CompressableBody<S> {
    pub fn from(body: S) -> (r: Self)
        ensures
            r.body == body,
    {
        CompressableBody { body }
    }

    pub fn into_inner(self) -> (r: S)
        ensures
            r == self.body,
    {
        self.body
    }
}

/// The error's `kind()` is `ErrorKind::InvalidData`.
pub uninterp spec fn is_invalid_data(e: std::io::Error) -> bool;

/// What a response body is wrapped in on its way out: nothing, or the
/// streaming encoder of a coding.
pub uninterp spec fn body_coding(b: hyper::Body) -> Selection;

/// Relies on `std::io::Error::from(ErrorKind::InvalidData)`: an error of the
/// kind `InvalidData`, with nothing of its cause.
#[verifier::external_body]
fn invalid_data_error() -> (r: std::io::Error)
    ensures
        is_invalid_data(r),
{
    std::io::Error::from(std::io::ErrorKind::InvalidData)
}

/// One item of a response body as the encoders take it: a chunk passes
/// unchanged, an error of the body becomes an `InvalidData` error.
pub fn adapt_item(item: Result<bytes::Bytes, hyper::Error>) -> (r: Result<
    bytes::Bytes,
    std::io::Error,
>)
    ensures
        r is Ok <==> item is Ok,
        item matches Ok(b) ==> r == Ok::<bytes::Bytes, std::io::Error>(b),
        r matches Err(e) ==> is_invalid_data(e),
{
    match item {
        Ok(b) => Ok(b),
        Err(_) => Err(invalid_data_error()),
    }
}

/// Relies on `Body::wrap_stream` over futures' `StreamExt::map`: the body's
/// items pass through `adapt_item`, lazily, in order.
#[verifier::external_body]
fn identity_body(body: hyper::Body) -> (r: hyper::Body)
    ensures
        body_coding(r) == Selection::Identity,
{
    hyper::Body::wrap_stream(futures::StreamExt::map(body, adapt_item))
}

/// Relies on async-compression's stream `GzipEncoder`, wrapped by
/// `Body::wrap_stream`: the adapted body, gzip-encoded as it is pulled.
#[verifier::external_body]
fn gzip_body(body: hyper::Body) -> (r: hyper::Body)
    ensures
        body_coding(r) == Selection::Encode(Coding::Gzip),
{
    let adapted = futures::StreamExt::map(body, adapt_item);
    hyper::Body::wrap_stream(async_compression::stream::GzipEncoder::new(adapted))
}

/// Relies on async-compression's stream `DeflateEncoder`, wrapped by
/// `Body::wrap_stream`: the adapted body, deflate-encoded as it is pulled.
#[verifier::external_body]
fn deflate_body(body: hyper::Body) -> (r: hyper::Body)
    ensures
        body_coding(r) == Selection::Encode(Coding::Deflate),
{
    let adapted = futures::StreamExt::map(body, adapt_item);
    hyper::Body::wrap_stream(async_compression::stream::DeflateEncoder::new(adapted))
}

/// Relies on async-compression's stream `BrotliEncoder`, wrapped by
/// `Body::wrap_stream`: the adapted body, brotli-encoded as it is pulled.
#[verifier::external_body]
fn brotli_body(body: hyper::Body) -> (r: hyper::Body)
    ensures
        body_coding(r) == Selection::Encode(Coding::Brotli),
{
    let adapted = futures::StreamExt::map(body, adapt_item);
    hyper::Body::wrap_stream(async_compression::stream::BrotliEncoder::new(adapted))
}

/// The body a response is sent with under `selection`: the adapted body,
/// encoded where the selection names a coding. No work is done until the
/// body is pulled.
pub fn encode_body(selection: Selection, body: CompressableBody<hyper::Body>) -> (r: hyper::Body)
    ensures
        body_coding(r) == selection,
{
    let body = body.into_inner();
    match selection {
        Selection::Identity => identity_body(body),
        Selection::Encode(Coding::Gzip) => gzip_body(body),
        Selection::Encode(Coding::Deflate) => deflate_body(body),
        Selection::Encode(Coding::Brotli) => brotli_body(body),
    }
}

} // verus!
