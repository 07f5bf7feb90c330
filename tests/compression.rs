use compression_filter::accept::{accept_header, negotiate, parse_accept_encoding, preferred_encoding};
use compression_filter::encode::{adapt_item, encode_body, CompressableBody};
use compression_filter::coding::{Coding, Selection};
use compression_filter::compression;
use compression_filter::compression::{brotli, deflate, gzip, Compression, CompressionProps, Mode};
use compression_filter::content_encoding::{apply_encoding_headers, create_encoding_header};
use http::header::{CONTENT_ENCODING, CONTENT_LENGTH, CONTENT_TYPE};
use http::{HeaderMap, HeaderValue};
use async_compression::stream::{BrotliDecoder, DeflateDecoder, GzipDecoder};
use bytes::Bytes;
use futures::stream::{self, StreamExt, TryStreamExt};

fn response_headers() -> HeaderMap {
    let mut h = HeaderMap::new();
    h.insert(CONTENT_LENGTH, HeaderValue::from_static("42"));
    h.insert(CONTENT_TYPE, HeaderValue::from_static("text/plain"));
    h
}

fn props(headers: HeaderMap, accept: Option<&str>) -> CompressionProps<Vec<u8>> {
    CompressionProps {
        body: b"hello world".to_vec(),
        headers,
        accept_enc: accept.map(|a| a.as_bytes().to_vec()),
    }
}

fn encodings(h: &HeaderMap) -> Vec<String> {
    h.get_all(CONTENT_ENCODING)
        .iter()
        .map(|v| v.to_str().unwrap().to_string())
        .collect()
}

#[test]
fn fixed_codings_rewrite_headers() {
    for (c, token) in [(gzip(), "gzip"), (deflate(), "deflate"), (brotli(), "br")] {
        let out = c.compress(props(response_headers(), None));
        assert!(out.headers.get(CONTENT_LENGTH).is_none());
        assert_eq!(encodings(&out.headers), vec![token.to_string()]);
        assert_eq!(out.headers.get(CONTENT_TYPE).unwrap(), "text/plain");
        assert_eq!(out.body, b"hello world".to_vec());
    }
}

#[test]
fn fixed_coding_goes_in_front_of_existing_encoding() {
    let mut h = response_headers();
    h.insert(CONTENT_ENCODING, HeaderValue::from_static("deflate"));
    let out = gzip().compress(props(h, Some("br")));
    assert_eq!(out.selection, Selection::Encode(Coding::Gzip));
    assert_eq!(encodings(&out.headers), vec!["gzip, deflate".to_string()]);
    assert!(out.headers.get(CONTENT_LENGTH).is_none());
}

#[test]
fn every_existing_encoding_is_kept() {
    let mut h = HeaderMap::new();
    h.append(CONTENT_ENCODING, HeaderValue::from_static("a"));
    h.append(CONTENT_ENCODING, HeaderValue::from_static("b"));
    assert!(apply_encoding_headers(&mut h, Coding::Brotli));
    assert_eq!(encodings(&h), vec!["br, a, b".to_string()]);
}

#[test]
fn accept_lines_are_joined() {
    assert_eq!(accept_header(&vec![]), None);
    let lines = vec![b"gzip;q=0.5".to_vec(), b"br".to_vec()];
    let joined = accept_header(&lines).unwrap();
    assert_eq!(joined, b"gzip;q=0.5, br".to_vec());
    assert_eq!(negotiate(Some(joined.as_slice())), Selection::Encode(Coding::Brotli));
}

#[test]
fn merge_in_application_order() {
    let first = create_encoding_header(&vec![], Coding::Gzip);
    assert_eq!(first, "gzip");
    let second = create_encoding_header(&vec![first], Coding::Deflate);
    assert_eq!(second, "deflate, gzip");
    let mut h = HeaderMap::new();
    assert!(apply_encoding_headers(&mut h, Coding::Gzip));
    assert!(apply_encoding_headers(&mut h, Coding::Brotli));
    assert_eq!(encodings(&h), vec!["br, gzip".to_string()]);
}

#[test]
fn merge_onto_non_text_value_keeps_only_token() {
    let odd = HeaderValue::from_bytes(&[0x80, 0x81]).unwrap();
    let text = HeaderValue::from_static("br");
    assert_eq!(create_encoding_header(&vec![odd.clone()], Coding::Gzip), "gzip");
    assert_eq!(create_encoding_header(&vec![text, odd], Coding::Gzip), "gzip");
}

#[test]
fn auto_selects_brotli_over_gzip() {
    let c = compression::auto();
    assert_eq!(c.mode, Mode::Auto);
    let header = "gzip;q=0.5, br;q=1.0";
    assert_eq!(c.select(Some(header.as_bytes())), Selection::Encode(Coding::Brotli));
    let out = c.compress(props(response_headers(), Some(header)));
    assert_eq!(out.selection, Selection::Encode(Coding::Brotli));
    assert_eq!(encodings(&out.headers), vec!["br".to_string()]);
    assert!(out.headers.get(CONTENT_LENGTH).is_none());
}

#[test]
fn auto_without_header_passes_through() {
    let out = compression::auto().compress(props(response_headers(), None));
    assert_eq!(out.selection, Selection::Identity);
    assert_eq!(out.body, b"hello world".to_vec());
    assert_eq!(out.headers, response_headers());
}

#[test]
fn auto_with_unparseable_header_passes_through() {
    for header in ["gzip;q=2", "gzip;;", "gzip;q=0.1234", "gz ip", "gzip;level=1", "gzip;q=1.5"] {
        assert!(parse_accept_encoding(header.as_bytes()).is_none(), "{}", header);
        let out = compression::auto().compress(props(response_headers(), Some(header)));
        assert_eq!(out.selection, Selection::Identity);
        assert_eq!(out.body, b"hello world".to_vec());
        assert_eq!(out.headers, response_headers());
    }
}

#[test]
fn auto_with_unsupported_preference_passes_through() {
    for header in ["identity", "*", "compress, gzip;q=0.9", "gzip;q=0", ""] {
        assert_eq!(negotiate(Some(header.as_bytes())), Selection::Identity, "{}", header);
    }
    assert_eq!(negotiate(None), Selection::Identity);
}

#[test]
fn parse_reads_qualities_in_thousandths() {
    let parsed = parse_accept_encoding(b" GZip ;Q=0.125 , ,deflate;q=1.000,br ; q=0").unwrap();
    assert_eq!(
        parsed,
        vec![(b"gzip".to_vec(), 125), (b"deflate".to_vec(), 1000), (b"br".to_vec(), 0)]
    );
    assert_eq!(parse_accept_encoding(b"").unwrap(), vec![]);
    assert_eq!(parse_accept_encoding(b"x;q=0.5").unwrap(), vec![(b"x".to_vec(), 500)]);
    assert_eq!(parse_accept_encoding(b"x;q=1").unwrap(), vec![(b"x".to_vec(), 1000)]);
}

#[test]
fn preferred_takes_first_of_equal_qualities() {
    let prefs = parse_accept_encoding(b"deflate;q=0.5, gzip;q=0.5, br;q=0.4").unwrap();
    assert_eq!(preferred_encoding(&prefs), Some(b"deflate".to_vec()));
    assert_eq!(negotiate(Some(b"deflate;q=0.5, gzip;q=0.5")), Selection::Encode(Coding::Deflate));
    let none = parse_accept_encoding(b"gzip;q=0, br;q=0.0").unwrap();
    assert_eq!(preferred_encoding(&none), None);
    assert_eq!(negotiate(Some(b"GZIP")), Selection::Encode(Coding::Gzip));
}

#[test]
fn failed_handler_is_forwarded_without_compression() {
    let wrapped = gzip().wrap("inner filter");
    let mut fut = wrapped.filter(7u32);
    assert!(!fut.is_done());
    let r = fut.complete::<Vec<u8>, &str>(Err("rejected"));
    assert!(fut.is_done());
    assert!(matches!(r, Err("rejected")));
}

#[test]
fn finished_handler_is_compressed() {
    let wrapped = Compression { mode: Mode::Auto }.wrap(());
    let mut fut = wrapped.filter(());
    let r = fut.complete::<Vec<u8>, ()>(Ok(props(response_headers(), Some("deflate"))));
    assert!(fut.is_done());
    let (headers, body, selection) = match r {
        Ok(c) => c.into_response(),
        Err(_) => panic!("handler succeeded"),
    };
    assert_eq!(selection, Selection::Encode(Coding::Deflate));
    assert_eq!(encodings(&headers), vec!["deflate".to_string()]);
    assert_eq!(body, b"hello world".to_vec());
}

fn collect_body(body: hyper::Body) -> Vec<Result<Bytes, hyper::Error>> {
    futures::executor::block_on(body.collect::<Vec<_>>())
}

#[test]
fn adapter_keeps_chunks_and_maps_errors() {
    let chunk = adapt_item(Ok(Bytes::from_static(b"abc")));
    assert_eq!(chunk.unwrap(), Bytes::from_static(b"abc"));
    let failing = hyper::Body::wrap_stream(stream::iter(vec![Err::<Bytes, std::io::Error>(
        std::io::Error::new(std::io::ErrorKind::Other, "disk gone"),
    )]));
    let mut items = collect_body(failing);
    assert_eq!(items.len(), 1);
    let err = adapt_item(items.remove(0)).unwrap_err();
    assert_eq!(err.kind(), std::io::ErrorKind::InvalidData);
}

#[test]
fn identity_body_is_unchanged() {
    let body = encode_body(
        Selection::Identity,
        CompressableBody::from(hyper::Body::from("plain text")),
    );
    let out: Vec<u8> = collect_body(body).into_iter().flat_map(|c| c.unwrap().to_vec()).collect();
    assert_eq!(out, b"plain text".to_vec());
    let b = CompressableBody::from(7u8);
    assert_eq!(b.into_inner(), 7u8);
}

fn decode(coding: Coding, encoded: Vec<u8>) -> Vec<u8> {
    let source = stream::iter(vec![Ok::<Bytes, std::io::Error>(Bytes::from(encoded))]);
    futures::executor::block_on(async move {
        let out: Vec<Bytes> = match coding {
            Coding::Gzip => GzipDecoder::new(source).try_collect().await,
            Coding::Deflate => DeflateDecoder::new(source).try_collect().await,
            Coding::Brotli => BrotliDecoder::new(source).try_collect().await,
        }
        .unwrap();
        out.concat()
    })
}

#[test]
fn selected_coding_round_trips() {
    let input: Vec<u8> = (0..2000u32).map(|i| (i * 31 % 251) as u8).collect();
    for header in ["gzip", "deflate", "br"] {
        let selection = compression::auto().select(Some(header.as_bytes()));
        let coding = match selection {
            Selection::Encode(c) => c,
            Selection::Identity => panic!("{} is supported", header),
        };
        let chunks: Vec<Result<Bytes, std::io::Error>> =
            input.chunks(7).map(|c| Ok(Bytes::copy_from_slice(c))).collect();
        let body = hyper::Body::wrap_stream(stream::iter(chunks));
        let encoded = encode_body(selection, CompressableBody::from(body));
        let bytes: Vec<u8> =
            collect_body(encoded).into_iter().flat_map(|c| c.unwrap().to_vec()).collect();
        assert_ne!(bytes, input);
        assert_eq!(decode(coding, bytes), input);
    }
}
