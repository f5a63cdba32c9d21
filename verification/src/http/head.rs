//! A parsed HTTP request head: method, path, version and headers, with the
//! byte-level parsing routines that produce it.

use vstd::prelude::*;

use vstd::string::StrSliceExecFns;
use vstd::string::StringExecFns;

verus! {

/// HTTP protocol version markers.
#[derive(Clone, Copy, PartialEq, Eq, Structural, Debug)]
pub enum Version {
    Http1,
    Http2,
    Unknown,
}

/// Mathematical model of a request head.
#[verifier::ext_equal]
pub struct SpecHead {
    pub method: Seq<char>,
    pub path: Seq<char>,
    pub version: Seq<char>,
    pub headers: Seq<(Seq<char>, Seq<char>)>,
}

/// A parsed request head. Headers keep their arrival order; a lookup takes
/// the latest entry for a name, the way repeated inserts into a map would.
pub struct Head {
    method: String,
    path: String,
    version: String,
    headers: Vec<(String, String)>,
}

impl View for Head {
    type V = SpecHead;

    closed spec fn view(&self) -> SpecHead {
        SpecHead {
            method: self.method@,
            path: self.path@,
            version: self.version@,
            headers: self.headers@.map_values(|p: (String, String)| (p.0@, p.1@)),
        }
    }
}

/// What was taken out of a request head that could not be parsed.
#[derive(Clone, Copy, PartialEq, Eq, Structural, Debug)]
pub enum HeadError {
    /// The request line has no second field.
    MissingPath,
    /// The request line has no third field.
    MissingVersion,
    /// A header line has no `:` separator.
    MissingHeaderValue,
}

/// The text that a sequence of bytes decodes to, under lossy UTF-8
/// decoding.
pub uninterp spec fn lossy_text(bytes: Seq<u8>) -> Seq<char>;

/// Relies on String::from_utf8_lossy from std: the result depends on the
/// bytes alone, and bytes that are all ASCII decode to themselves.
#[verifier::external_body]
fn lossy_string(bytes: &Vec<u8>) -> (r: String)
    ensures
        r@ == lossy_text(bytes@),
        (forall|i: int| 0 <= i < bytes@.len() ==> bytes@[i] < 128) ==> r@ == bytes@.map_values(
            |b: u8| b as char,
        ),
{
    String::from_utf8_lossy(bytes.as_slice()).to_string()
}

/// The pieces of `s` between occurrences of `sep`: always at least one
/// piece, and empty pieces are kept.
pub open spec fn split_on(s: Seq<u8>, sep: u8) -> Seq<Seq<u8>>
    decreases s.len(),
{
    if s.len() == 0 {
        seq![Seq::<u8>::empty()]
    } else if s.last() == sep {
        split_on(s.drop_last(), sep).push(Seq::<u8>::empty())
    } else {
        let r = split_on(s.drop_last(), sep);
        r.update(r.len() - 1, r.last().push(s.last()))
    }
}

fn split_bytes(bytes: &Vec<u8>, sep: u8) -> (r: Vec<Vec<u8>>)
    ensures
        r@.map_values(|p: Vec<u8>| p@) == split_on(bytes@, sep),
        r@.len() >= 1,
{
    let mut r: Vec<Vec<u8>> = Vec::new();
    r.push(Vec::new());
    proof {
        assert(r@.map_values(|p: Vec<u8>| p@) =~= split_on(bytes@.take(0), sep));
    }
    let mut i: usize = 0;
    while i < bytes.len()
        invariant
            i <= bytes.len(),
            r@.len() >= 1,
            r@.map_values(|p: Vec<u8>| p@) == split_on(bytes@.take(i as int), sep),
        decreases bytes.len() - i,
    {
        let b = bytes[i];
        proof {
            assert(bytes@.take(i + 1).drop_last() =~= bytes@.take(i as int));
            assert(bytes@.take(i + 1).last() == bytes@[i as int]);
        }
        if b == sep {
            r.push(Vec::new());
            proof {
                assert(r@.map_values(|p: Vec<u8>| p@) =~= split_on(bytes@.take(i + 1), sep));
            }
        } else {
            let mut piece = r.pop().unwrap();
            piece.push(b);
            r.push(piece);
            proof {
                assert(r@.map_values(|p: Vec<u8>| p@) =~= split_on(bytes@.take(i + 1), sep));
            }
        }
        i = i + 1;
    }
    proof {
        assert(bytes@.take(bytes.len() as int) =~= bytes@);
    }
    r
}

/// Incremental scanner for one CRLF-terminated line, fed one byte at a
/// time as a stream yields them: bytes other than CR and LF accumulate,
/// and the line is complete once both a CR and an LF have been seen.
pub struct LineScanner {
    pub buf: Vec<u8>,
    pub cr: bool,
    pub lf: bool,
}

impl LineScanner {
    /// A scanner with nothing read yet.
    pub fn new() -> (s: Self)
        ensures
            s.buf@ == Seq::<u8>::empty(),
            !s.cr,
            !s.lf,
    {
        LineScanner { buf: Vec::new(), cr: false, lf: false }
    }

    /// Whether the line is complete.
    pub fn done(&self) -> (r: bool)
        ensures
            r == (self.cr && self.lf),
    {
        self.cr && self.lf
    }

    /// Take in one byte; the result tells whether the line is now
    /// complete. CR and LF are consumed as terminators, every other byte
    /// joins the line.
    pub fn push_byte(&mut self, byte: u8) -> (r: bool)
        ensures
            final(self).cr == (old(self).cr || byte == 13),
            final(self).lf == (old(self).lf || byte == 10),
            final(self).buf@ == (if byte == 13 || byte == 10 {
                old(self).buf@
            } else {
                old(self).buf@.push(byte)
            }),
            r == (final(self).cr && final(self).lf),
    {
        if byte == 13 {
            self.cr = true;
        } else if byte == 10 {
            self.lf = true;
        } else {
            self.buf.push(byte);
        }
        self.cr && self.lf
    }

    /// The accumulated line, lossily decoded to text.
    pub fn take_line(self) -> (r: String)
        ensures
            r@ == lossy_text(self.buf@),
            (forall|i: int| 0 <= i < self.buf@.len() ==> self.buf@[i] < 128) ==> r@
                == self.buf@.map_values(|b: u8| b as char),
    {
        lossy_string(&self.buf)
    }
}

/// Whether a byte is ASCII whitespace.
pub open spec fn is_space_byte(b: u8) -> bool {
    b == 32 || b == 9 || b == 10 || b == 13
}

/// `s` with leading and trailing ASCII whitespace removed.
pub open spec fn trimmed(s: Seq<u8>) -> Seq<u8>
    decreases s.len(),
{
    if s.len() == 0 {
        s
    } else if is_space_byte(s[0]) {
        trimmed(s.drop_first())
    } else if is_space_byte(s.last()) {
        trimmed(s.drop_last())
    } else {
        s
    }
}

fn is_space(b: u8) -> (r: bool)
    ensures
        r == is_space_byte(b),
{
    b == 32 || b == 9 || b == 10 || b == 13
}

fn trim_bytes(bytes: &Vec<u8>) -> (r: Vec<u8>)
    ensures
        r@ == trimmed(bytes@),
{
    let mut lo: usize = 0;
    let mut hi: usize = bytes.len();
    proof {
        assert(bytes@.subrange(0, bytes@.len() as int) =~= bytes@);
    }
    while lo < hi && is_space(bytes[lo])
        invariant
            lo <= hi <= bytes@.len(),
            trimmed(bytes@) == trimmed(bytes@.subrange(lo as int, hi as int)),
        decreases hi - lo,
    {
        proof {
            assert(bytes@.subrange(lo as int, hi as int).drop_first() =~= bytes@.subrange(
                lo + 1,
                hi as int,
            ));
        }
        lo = lo + 1;
    }
    while lo < hi && is_space(bytes[hi - 1])
        invariant
            lo <= hi <= bytes@.len(),
            trimmed(bytes@) == trimmed(bytes@.subrange(lo as int, hi as int)),
            lo < hi ==> !is_space_byte(bytes@[lo as int]),
        decreases hi - lo,
    {
        proof {
            assert(bytes@.subrange(lo as int, hi as int).drop_last() =~= bytes@.subrange(
                lo as int,
                hi - 1,
            ));
        }
        hi = hi - 1;
    }
    let mut r: Vec<u8> = Vec::new();
    let mut k: usize = lo;
    while k < hi
        invariant
            lo <= k <= hi <= bytes@.len(),
            r@ == bytes@.subrange(lo as int, k as int),
        decreases hi - k,
    {
        r.push(bytes[k]);
        proof {
            assert(bytes@.subrange(lo as int, k + 1) =~= bytes@.subrange(lo as int, k as int).push(
                bytes@[k as int],
            ));
        }
        k = k + 1;
    }
    proof {
        assert(trimmed(bytes@.subrange(lo as int, hi as int)) == bytes@.subrange(
            lo as int,
            hi as int,
        ));
    }
    r
}

/// A byte with an ASCII uppercase letter folded to lowercase; any other
/// byte unchanged.
pub open spec fn lower_byte(b: u8) -> u8 {
    if 65 <= b <= 90 {
        (b + 32) as u8
    } else {
        b
    }
}

fn lower_bytes(bytes: &Vec<u8>) -> (r: Vec<u8>)
    ensures
        r@ == bytes@.map_values(|b: u8| lower_byte(b)),
{
    let mut r: Vec<u8> = Vec::new();
    let mut i: usize = 0;
    while i < bytes.len()
        invariant
            i <= bytes@.len(),
            r@.len() == i,
            forall|j: int| 0 <= j < i ==> #[trigger] r@[j] == lower_byte(bytes@[j]),
        decreases bytes.len() - i,
    {
        let b = bytes[i];
        if 65 <= b && b <= 90 {
            r.push(b + 32);
        } else {
            r.push(b);
        }
        i = i + 1;
    }
    proof {
        assert(r@ =~= bytes@.map_values(|b: u8| lower_byte(b)));
    }
    r
}

/// The model of the header entry parsed from one header line: the name
/// piece before the first `:`, trimmed and lowercased, and the piece
/// between the first and second `:`, trimmed.
pub open spec fn parsed_header(line: Seq<u8>) -> (Seq<char>, Seq<char>) {
    let pieces = split_on(line, 58);
    (
        lossy_text(trimmed(pieces[0]).map_values(|b: u8| lower_byte(b))),
        lossy_text(trimmed(pieces[1])),
    )
}

/// The model of the head parsed from a request line and header lines: the
/// request line splits on spaces into method, path and version; missing
/// fields are reported, as is a header line without a `:`.
pub open spec fn parsed_head(line: Seq<u8>, headers: Seq<Seq<u8>>) -> Result<SpecHead, HeadError> {
    let pieces = split_on(line, 32);
    if pieces.len() < 2 {
        Err(HeadError::MissingPath)
    } else if pieces.len() < 3 {
        Err(HeadError::MissingVersion)
    } else if exists|i: int| 0 <= i < headers.len() && split_on(#[trigger] headers[i], 58).len()
        < 2 {
        Err(HeadError::MissingHeaderValue)
    } else {
        Ok(
            SpecHead {
                method: lossy_text(pieces[0]),
                path: lossy_text(pieces[1]),
                version: lossy_text(pieces[2]),
                headers: Seq::new(headers.len(), |i: int| parsed_header(headers[i])),
            },
        )
    }
}

/// The header value for `name`: the latest entry with that name, the way
/// repeated inserts into a map would resolve.
pub open spec fn lookup_header(headers: Seq<(Seq<char>, Seq<char>)>, name: Seq<char>) -> Option<
    Seq<char>,
>
    decreases headers.len(),
{
    if headers.len() == 0 {
        None
    } else if headers.last().0 == name {
        Some(headers.last().1)
    } else {
        lookup_header(headers.drop_last(), name)
    }
}

/// Whether a character is a decimal digit.
pub open spec fn is_digit_char(c: char) -> bool {
    '0' <= c && c <= '9'
}

/// The numeric value of a digit string, most significant digit first.
pub open spec fn digits_value(s: Seq<char>) -> int
    decreases s.len(),
{
    if s.len() == 0 {
        0
    } else {
        digits_value(s.drop_last()) * 10 + (s.last() as int - '0' as int)
    }
}

/// Whether every character is a decimal digit.
pub open spec fn all_digits(s: Seq<char>) -> bool {
    forall|i: int| 0 <= i < s.len() ==> is_digit_char(#[trigger] s[i])
}

/// The number a digit string yields: one or more digits, and the value
/// must fit the machine word.
pub open spec fn parsed_digits(digits: Seq<char>) -> Option<int> {
    if digits.len() > 0 && all_digits(digits) && digits_value(digits) <= usize::MAX {
        Some(digits_value(digits))
    } else {
        None
    }
}

/// The number an unsigned decimal parse yields: an optional leading `+`,
/// then one or more digits, and the value must fit the machine word.
pub open spec fn parsed_usize(s: Seq<char>) -> Option<int> {
    if s.len() > 0 && s[0] == '+' {
        parsed_digits(s.drop_first())
    } else {
        parsed_digits(s)
    }
}

proof fn lemma_digits_value_grows(s: Seq<char>, i: int)
    requires
        0 <= i <= s.len(),
        all_digits(s),
        forall|j: int| 0 <= j < i ==> is_digit_char(#[trigger] s.take(i)[j]),
    ensures
        digits_value(s.take(i)) <= digits_value(s),
        digits_value(s) >= 0,
    decreases s.len() - i,
{
    if i < s.len() {
        assert(s.take(i + 1).drop_last() =~= s.take(i));
        assert(digits_value(s.take(i + 1)) == digits_value(s.take(i)) * 10 + (s[i] as int
            - '0' as int));
        lemma_nonneg(s.take(i));
        assert(digits_value(s.take(i)) * 10 >= digits_value(s.take(i))) by (nonlinear_arith)
            requires
                digits_value(s.take(i)) >= 0,
        ;
        lemma_digits_value_grows(s, i + 1);
    } else {
        assert(s.take(i) =~= s);
        lemma_nonneg(s);
    }
}

proof fn lemma_nonneg(s: Seq<char>)
    requires
        all_digits(s),
    ensures
        digits_value(s) >= 0,
    decreases s.len(),
{
    if s.len() > 0 {
        lemma_nonneg(s.drop_last());
        assert(digits_value(s.drop_last()) * 10 >= 0) by (nonlinear_arith)
            requires
                digits_value(s.drop_last()) >= 0,
        ;
    }
}

/// Parse an unsigned decimal number the way the standard string-to-number
/// conversion does: an optional leading `+`, then digits; too large a
/// value, an empty string or any other character fails.
fn parse_usize_text(s: &str) -> (r: Option<usize>)
    ensures
        parsed_usize(s@) is Some ==> (r is Some && r->0 == parsed_usize(s@)->0),
        parsed_usize(s@) is None ==> r is None,
{
    let n = s.unicode_len();
    let start: usize = if n > 0 && s.get_char(0) == '+' {
        1
    } else {
        0
    };
    let ghost digits = if s@.len() > 0 && s@[0] == '+' {
        s@.drop_first()
    } else {
        s@
    };
    proof {
        assert(digits =~= s@.subrange(start as int, n as int));
        assert(parsed_usize(s@) == parsed_digits(digits));
    }
    if n == start {
        return None;
    }
    let mut acc: usize = 0;
    let mut i: usize = start;
    while i < n
        invariant
            start <= i <= n,
            n == s@.len(),
            digits == s@.subrange(start as int, n as int),
            parsed_usize(s@) == parsed_digits(digits),
            forall|j: int| 0 <= j < i - start ==> is_digit_char(#[trigger] digits[j]),
            acc == digits_value(digits.take(i - start)),
        decreases n - i,
    {
        let c = s.get_char(i);
        if !(c >= '0' && c <= '9') {
            proof {
                assert(digits[i - start] == s@[i as int]);
                assert(!is_digit_char(digits[i - start]));
                assert(!all_digits(digits));
                assert(parsed_usize(s@) is None);
            }
            return None;
        }
        let d: usize = ((c as u32) - 48) as usize;
        proof {
            assert(digits[i - start] == s@[i as int]);
            assert(is_digit_char(digits[i - start]));
            assert(d == s@[i as int] as int - '0' as int);
        }
        if acc > (usize::MAX - d) / 10 {
            proof {
                let k = i - start + 1;
                assert(digits.take(k).drop_last() =~= digits.take(k - 1));
                assert(digits_value(digits.take(k)) == acc * 10 + d);
                assert(acc * 10 + d > usize::MAX) by (nonlinear_arith)
                    requires
                        acc > (usize::MAX - d) / 10,
                        0 <= d,
                        d <= usize::MAX,
                ;
                if parsed_usize(s@) is Some {
                    assert(all_digits(digits));
                    assert(forall|j: int| 0 <= j < k ==> is_digit_char(
                        #[trigger] digits.take(k)[j],
                    ));
                    lemma_digits_value_grows(digits, k);
                    assert(false);
                }
            }
            return None;
        }
        proof {
            assert(acc * 10 + d <= usize::MAX) by (nonlinear_arith)
                requires
                    acc <= (usize::MAX - d) / 10,
                    0 <= d,
                    d <= usize::MAX,
            ;
            let k = i - start + 1;
            assert(digits.take(k).drop_last() =~= digits.take(k - 1));
        }
        acc = acc * 10 + d;
        i = i + 1;
    }
    proof {
        assert(digits.take(n - start) =~= digits);
        assert(all_digits(digits));
        assert(parsed_usize(s@) == Some(acc as int));
    }
    Some(acc)
}

impl Head {
    /// Parse a head out of a request line and the header lines that
    /// followed it, all as raw bytes: the request line splits on spaces
    /// into method, path and version; each header line splits on `:` into
    /// a trimmed, lowercased name and a trimmed value.
    pub fn from_lines(request_line: &Vec<u8>, header_lines: &Vec<Vec<u8>>) -> (r: Result<
        Self,
        HeadError,
    >)
        ensures
            parsed_head(request_line@, header_lines@.map_values(|l: Vec<u8>| l@)) matches Ok(h)
                ==> (r matches Ok(head) && head@ == h),
            parsed_head(request_line@, header_lines@.map_values(|l: Vec<u8>| l@)) matches Err(e)
                ==> (r matches Err(got) && got == e),
    {
        let ghost lines = header_lines@.map_values(|l: Vec<u8>| l@);
        let pieces = split_bytes(request_line, 32);
        if pieces.len() < 2 {
            return Err(HeadError::MissingPath);
        }
        if pieces.len() < 3 {
            return Err(HeadError::MissingVersion);
        }
        proof {
            assert(pieces@.map_values(|p: Vec<u8>| p@)[0] == pieces@[0]@);
            assert(pieces@.map_values(|p: Vec<u8>| p@)[1] == pieces@[1]@);
            assert(pieces@.map_values(|p: Vec<u8>| p@)[2] == pieces@[2]@);
        }
        let method = lossy_string(&pieces[0]);
        let path = lossy_string(&pieces[1]);
        let version = lossy_string(&pieces[2]);
        let mut headers: Vec<(String, String)> = Vec::new();
        let mut i: usize = 0;
        while i < header_lines.len()
            invariant
                i <= header_lines.len(),
                lines == header_lines@.map_values(|l: Vec<u8>| l@),
                split_on(request_line@, 32).len() >= 3,
                headers@.len() == i,
                forall|j: int| 0 <= j < i ==> split_on(#[trigger] lines[j], 58).len() >= 2,
                forall|j: int|
                    0 <= j < i ==> (#[trigger] headers@[j].0@, headers@[j].1@) == parsed_header(
                        lines[j],
                    ),
            decreases header_lines.len() - i,
        {
            let hpieces = split_bytes(&header_lines[i], 58);
            if hpieces.len() < 2 {
                proof {
                    assert(lines[i as int] == header_lines@[i as int]@);
                    assert(split_on(lines[i as int], 58).len() < 2);
                    assert(parsed_head(request_line@, lines) is Err);
                }
                return Err(HeadError::MissingHeaderValue);
            }
            proof {
                assert(lines[i as int] == header_lines@[i as int]@);
            }
            proof {
                assert(hpieces@.map_values(|p: Vec<u8>| p@)[0] == hpieces@[0]@);
                assert(hpieces@.map_values(|p: Vec<u8>| p@)[1] == hpieces@[1]@);
            }
            let name_trimmed = trim_bytes(&hpieces[0]);
            let name_bytes = lower_bytes(&name_trimmed);
            let name = lossy_string(&name_bytes);
            let value_bytes = trim_bytes(&hpieces[1]);
            let value = lossy_string(&value_bytes);
            headers.push((name, value));
            i = i + 1;
        }
        let head = Head { method, path, version, headers };
        proof {
            assert(head@.headers =~= Seq::new(lines.len(), |i: int| parsed_header(lines[i])));
            assert(head@ =~= parsed_head(request_line@, lines)->Ok_0);
        }
        Ok(head)
    }

    /// Whether the version field reads `HTTP/2`.
    pub fn http2(&self) -> (r: bool)
        ensures
            r == (self@.version == "HTTP/2"@),
    {
        let expected = String::from_str("HTTP/2");
        self.version == expected
    }

    /// Whether the version field reads `HTTP/1.1`.
    pub fn http1(&self) -> (r: bool)
        ensures
            r == (self@.version == "HTTP/1.1"@),
    {
        let expected = String::from_str("HTTP/1.1");
        self.version == expected
    }

    /// The request path.
    pub fn path(&self) -> (r: &str)
        ensures
            r@ == self@.path,
    {
        self.path.as_str()
    }

    /// The request method.
    pub fn method(&self) -> (r: &str)
        ensures
            r@ == self@.method,
    {
        self.method.as_str()
    }

    /// The value of the `content-length` header, parsed as an unsigned
    /// number; absent or unparsable gives nothing.
    pub fn content_length(&self) -> (r: Option<usize>)
        ensures
            ({
                let looked = lookup_header(self@.headers, "content-length"@);
                match looked {
                    None => r is None,
                    Some(v) => {
                        &&& parsed_usize(v) is Some ==> (r is Some && r->0 == parsed_usize(
                            v,
                        )->0)
                        &&& parsed_usize(v) is None ==> r is None
                    },
                }
            }),
    {
        let wanted = String::from_str("content-length");
        let ghost hs = self@.headers;
        let mut i: usize = self.headers.len();
        proof {
            assert(hs =~= hs.take(i as int));
        }
        while i > 0
            invariant
                i <= self.headers.len(),
                hs == self@.headers,
                wanted@ == "content-length"@,
                lookup_header(hs, "content-length"@) == lookup_header(
                    hs.take(i as int),
                    "content-length"@,
                ),
            decreases i,
        {
            proof {
                assert(hs.take(i as int).last() == (self.headers@[i - 1].0@, self.headers@[
                    i - 1].1@));
                assert(hs.take(i as int).drop_last() =~= hs.take(i - 1));
            }
            if self.headers[i - 1].0 == wanted {
                return parse_usize_text(self.headers[i - 1].1.as_str());
            }
            i = i - 1;
        }
        proof {
            assert(hs.take(0) =~= Seq::<(Seq<char>, Seq<char>)>::empty());
        }
        None
    }
}

} // verus!
