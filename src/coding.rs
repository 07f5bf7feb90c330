use vstd::prelude::*;

verus! {

/// A compression algorithm this library can apply to a response body.
#[derive(Clone, Copy, Debug, PartialEq, Eq, Structural)]
pub enum Coding {
    Gzip,
    Deflate,
    Brotli,
}

/// What is done to a response body: left as it is, or encoded.
#[derive(Clone, Copy, Debug, PartialEq, Eq, Structural)]
pub enum Selection {
    Identity,
    Encode(Coding),
}

/// The ASCII bytes of a character sequence.
pub open spec fn ascii_bytes(s: Seq<char>) -> Seq<u8> {
    Seq::new(s.len(), |i: int| s[i] as u8)
}

impl Coding {
    /// The `Content-Encoding` token of the coding.
    pub open spec fn token_spec(self) -> Seq<char> {
        match self {
            Coding::Gzip => seq!['g', 'z', 'i', 'p'],
            Coding::Deflate => seq!['d', 'e', 'f', 'l', 'a', 't', 'e'],
            Coding::Brotli => seq!['b', 'r'],
        }
    }

    /// The token as bytes, as it appears in a header value.
    pub open spec fn token_bytes(self) -> Seq<u8> {
        ascii_bytes(self.token_spec())
    }

    /// The `Content-Encoding` token: `gzip`, `deflate` or `br`.
    pub fn token(self) -> (r: &'static str)
        ensures
            r@ == self.token_spec(),
    {
        match self {
            Coding::Gzip => {
                proof { reveal_strlit("gzip"); }
                "gzip"
            },
            Coding::Deflate => {
                proof { reveal_strlit("deflate"); }
                "deflate"
            },
            Coding::Brotli => {
                proof { reveal_strlit("br"); }
                "br"
            },
        }
    }

    /// The token as a byte vector.
    pub fn token_vec(self) -> (r: Vec<u8>)
        ensures
            r@ == self.token_bytes(),
    {
        let r = match self {
            Coding::Gzip => vec![103u8, 122, 105, 112],
            Coding::Deflate => vec![100u8, 101, 102, 108, 97, 116, 101],
            Coding::Brotli => vec![98u8, 114],
        };
        assert(r@ =~= self.token_bytes());
        r
    }
}

} // verus!
