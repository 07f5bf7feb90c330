//! The compression middleware: which coding a response gets, what that does
//! to its headers, and the completion step of the wrapped handler.
use crate::accept::{negotiate, negotiated, optional_view, parse_accept};
use crate::coding::{Coding, Selection};
use crate::content_encoding::{
    apply_encoding_headers, lemma_merge_order, content_encoding_name, content_length_name, encoded_fields,
};
use crate::header_map::{can_grow, header_fields, separator};
use vstd::prelude::*;

verus! {

/// How a [`Compression`] picks the coding of a response.
#[derive(Clone, Copy, Debug, PartialEq, Eq, Structural)]
pub enum Mode {
    /// By negotiation over the request's `Accept-Encoding` header.
    Auto,
    /// Always the one coding.
    Fixed(Coding),
}

/// A compression middleware: fixed at construction, with nothing to change
/// at run time.
#[derive(Clone, Copy, Debug, PartialEq, Eq, Structural)]
pub struct Compression {
    pub mode: Mode,
}

/// Compresses with the coding the request's `Accept-Encoding` prefers.
pub fn auto() -> (r: Compression)
    ensures
        r.mode == Mode::Auto,
{
    Compression { mode: Mode::Auto }
}

/// Compresses with gzip.
pub fn gzip() -> (r: Compression)
    ensures
        r.mode == Mode::Fixed(Coding::Gzip),
{
    Compression { mode: Mode::Fixed(Coding::Gzip) }
}

/// Compresses with deflate.
pub fn deflate() -> (r: Compression)
    ensures
        r.mode == Mode::Fixed(Coding::Deflate),
{
    Compression { mode: Mode::Fixed(Coding::Deflate) }
}

/// Compresses with brotli.
pub fn brotli() -> (r: Compression)
    ensures
        r.mode == Mode::Fixed(Coding::Brotli),
{
    Compression { mode: Mode::Fixed(Coding::Brotli) }
}

/// A response on its way into compression: its body, its headers, and the
/// request's `Accept-Encoding` header if it had one.
pub struct CompressionProps<B> {
    pub body: B,
    pub headers: http::HeaderMap<http::HeaderValue>,
    pub accept_enc: Option<Vec<u8>>,
}

/// A response on its way out of compression: its rewritten headers, its body,
/// and what is to be done to the body as it streams.
pub struct Compressed<B> {
    pub headers: http::HeaderMap<http::HeaderValue>,
    pub body: B,
    pub selection: Selection,
}

impl<B> Compressed<B> {
    /// The headers, the body and the selection, for the response writer.
    pub fn into_response(self) -> (r: (http::HeaderMap<http::HeaderValue>, B, Selection))
        ensures
            r.0 == self.headers,
            r.1 == self.body,
            r.2 == self.selection,
    {
        (self.headers, self.body, self.selection)
    }
}

/// The headers a response ends with under a selection.
pub open spec fn selected_fields(
    fields: Map<Seq<char>, Seq<Seq<u8>>>,
    selection: Selection,
) -> Map<Seq<char>, Seq<Seq<u8>>> {
    match selection {
        Selection::Identity => fields,
        Selection::Encode(c) => encoded_fields(fields, c),
    }
}

impl Compression {
    /// The selection for a request whose `Accept-Encoding` header is `accept`.
    pub open spec fn selection_for(self, accept: Option<Seq<u8>>) -> Selection {
        match self.mode {
            Mode::Auto => negotiated(accept),
            Mode::Fixed(c) => Selection::Encode(c),
        }
    }

    /// `out` is what compressing `props` gives: the selection for the
    /// request; no coding at all only where the response's header map has
    /// reached its largest size and cannot take the new `Content-Encoding`.
    pub open spec fn compresses<B>(self, props: CompressionProps<B>, out: Compressed<B>) -> bool {
        let accept = match props.accept_enc {
            Some(v) => Some(v@),
            None => None,
        };
        let chosen = self.selection_for(accept);
        &&& (out.selection == chosen || (chosen is Encode && out.selection == Selection::Identity))
        &&& can_grow(props.headers) ==> out.selection == chosen
        &&& out.body == props.body
        &&& header_fields(out.headers) == selected_fields(
            header_fields(props.headers),
            out.selection,
        )
    }

    /// Selects what is done to the body of a response to a request whose
    /// `Accept-Encoding` header is `accept`.
    pub fn select(&self, accept: Option<&[u8]>) -> (r: Selection)
        ensures
            r == self.selection_for(optional_view(accept)),
    {
        match self.mode {
            Mode::Auto => negotiate(accept),
            Mode::Fixed(c) => Selection::Encode(c),
        }
    }

    /// Compresses a response: selects the coding, rewrites the headers for
    /// it, and hands the body on with the selection.
    pub fn compress<B>(&self, props: CompressionProps<B>) -> (r: Compressed<B>)
        ensures
            self.compresses(props, r),
    {
        let CompressionProps { body, headers, accept_enc } = props;
        let mut headers = headers;
        let mut selection = match &accept_enc {
            Some(v) => self.select(Some(v.as_slice())),
            None => self.select(None),
        };
        if let Selection::Encode(c) = selection {
            if !apply_encoding_headers(&mut headers, c) {
                selection = Selection::Identity;
            }
        }
        Compressed { headers, body, selection }
    }

    /// Wraps an inner filter with this compression.
    pub fn wrap<F>(&self, filter: F) -> (r: WithCompression<F>)
        ensures
            r.compress == *self,
            r.filter == filter,
    {
        WithCompression { compress: *self, filter }
    }
}

/// An inner filter wrapped with compression.
pub struct WithCompression<F> {
    pub compress: Compression,
    pub filter: F,
}

impl<F> WithCompression<F> {
    /// Starts one request: `future` is the inner filter's pending result.
    pub fn filter<T>(&self, future: T) -> (r: WithCompressionFuture<T>)
        ensures
            r.compress == self.compress,
            r.future == future,
            !r.done,
    {
        WithCompressionFuture { compress: self.compress, future, done: false }
    }
}

/// One request through the middleware: pending until the inner handler has
/// finished, then done.
pub struct WithCompressionFuture<T> {
    pub compress: Compression,
    pub future: T,
    pub done: bool,
}

impl<T> WithCompressionFuture<T> {
    pub fn is_done(&self) -> (r: bool)
        ensures
            r == self.done,
    {
        self.done
    }

    /// The inner handler has finished with `outcome`. A reply is compressed;
    /// a failure is handed on as it is, and nothing is compressed.
    pub fn complete<B, E>(&mut self, outcome: Result<CompressionProps<B>, E>) -> (r: Result<
        Compressed<B>,
        E,
    >)
        requires
            !old(self).done,
        ensures
            final(self).done,
            final(self).compress == old(self).compress,
            final(self).future == old(self).future,
            match outcome {
                Ok(p) => r matches Ok(c) && old(self).compress.compresses(p, c),
                Err(e) => r == Err::<Compressed<B>, E>(e),
            },
    {
        self.done = true;
        match outcome {
            Ok(props) => Ok(self.compress.compress(props)),
            Err(e) => Err(e),
        }
    }
}

/// Compressing with a fixed coding applies it on every header map that can
/// still grow; applied, it removes `Content-Length` and leaves
/// `Content-Encoding` with one value that starts with the coding's token.
/// Where it is not applied, the headers are as they were.
pub proof fn lemma_fixed_coding_headers<B>(
    coding: Coding,
    props: CompressionProps<B>,
    out: Compressed<B>,
)
    requires
        (Compression { mode: Mode::Fixed(coding) }).compresses(props, out),
    ensures
        can_grow(props.headers) ==> out.selection == Selection::Encode(coding),
        out.selection == Selection::Encode(coding) || out.selection == Selection::Identity,
        out.selection == Selection::Identity ==> header_fields(out.headers) == header_fields(
            props.headers,
        ),
        out.selection == Selection::Encode(coding) ==> {
            &&& !header_fields(out.headers).contains_key(content_length_name())
            &&& header_fields(out.headers)[content_encoding_name()].len() == 1
            &&& header_fields(out.headers)[content_encoding_name()][0].subrange(
                0,
                coding.token_bytes().len() as int,
            ) == coding.token_bytes()
        },
{
    let fields = header_fields(props.headers);
    let merged = encoded_fields(fields, coding)[content_encoding_name()][0];
    assert(merged.subrange(0, coding.token_bytes().len() as int) =~= coding.token_bytes());
}

/// Under negotiation, a request with no `Accept-Encoding` header, or one that
/// breaks its grammar, gets its response as it was: same body, same headers.
pub proof fn lemma_auto_pass_through<B>(props: CompressionProps<B>, out: Compressed<B>)
    requires
        (Compression { mode: Mode::Auto }).compresses(props, out),
        props.accept_enc matches Some(v) ==> parse_accept(v@) is None,
    ensures
        out.selection == Selection::Identity,
        out.body == props.body,
        header_fields(out.headers) == header_fields(props.headers),
{
}

/// Compressing a response without `Content-Encoding` with coding `a`, and the
/// result again with coding `b`, leaves `Content-Encoding` as `"b, a"`, on
/// every header map with fewer than 6553 names.
pub proof fn lemma_compress_twice<B>(
    a: Coding,
    b: Coding,
    first: CompressionProps<B>,
    once: Compressed<B>,
    second: CompressionProps<B>,
    twice: Compressed<B>,
)
    requires
        !header_fields(first.headers).contains_key(content_encoding_name()),
        header_fields(first.headers).dom().finite(),
        header_fields(first.headers).dom().len() < 6553,
        (Compression { mode: Mode::Fixed(a) }).compresses(first, once),
        second.headers == once.headers,
        (Compression { mode: Mode::Fixed(b) }).compresses(second, twice),
    ensures
        once.selection == Selection::Encode(a),
        twice.selection == Selection::Encode(b),
        header_fields(twice.headers)[content_encoding_name()] == seq![
            b.token_bytes() + separator() + a.token_bytes(),
        ],
{
    let d = header_fields(first.headers).dom();
    let ce = content_encoding_name();
    let cl = content_length_name();
    let d1 = header_fields(once.headers).dom();
    assert(d1 =~= d.insert(ce).remove(cl));
    vstd::set::axiom_set_insert_finite(d, ce);
    vstd::set::axiom_set_insert_len(d, ce);
    vstd::set::axiom_set_remove_finite(d.insert(ce), cl);
    vstd::set::axiom_set_remove_len(d.insert(ce), cl);
    assert(can_grow(second.headers));
    lemma_merge_order(header_fields(first.headers), a, b);
}

/// Where negotiation settles on a supported coding, compressing by
/// negotiation gives the same response as compressing with that coding, on
/// every header map that can still grow.
pub proof fn lemma_auto_matches_fixed<B>(
    coding: Coding,
    props: CompressionProps<B>,
    by_auto: Compressed<B>,
    by_fixed: Compressed<B>,
)
    requires
        can_grow(props.headers),
        negotiated(
            match props.accept_enc {
                Some(v) => Some(v@),
                None => None,
            },
        ) == Selection::Encode(coding),
        (Compression { mode: Mode::Auto }).compresses(props, by_auto),
        (Compression { mode: Mode::Fixed(coding) }).compresses(props, by_fixed),
    ensures
        by_auto.selection == by_fixed.selection,
        by_auto.body == by_fixed.body,
        header_fields(by_auto.headers) == header_fields(by_fixed.headers),
{
}

} // verus!
