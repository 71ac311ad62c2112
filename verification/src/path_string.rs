//! A reversible codec between platform paths and printable, line-safe tokens.
//!
//! A path is an opaque sequence of platform units: bytes on the Unix family,
//! 16-bit code units on the Windows family.  A path whose units spell valid
//! text that is safe to store (no control characters, and not starting with
//! the sentinel prefix) is emitted verbatim; every other path is emitted as
//! the sentinel prefix followed by a base64 rendering of the path's raw bytes
//! (for 16-bit units: big-endian byte pairs, so tokens are portable across
//! machines).  The sentinel begins with `/dev/null/`, a POSIX device file
//! under which no real file can exist, so no path that a user can create ever
//! collides with an escaped token; the encoder additionally refuses to emit
//! verbatim any text that spells the sentinel, which makes the round trip
//! exact for every unit sequence, even pathological ones.

use vstd::prelude::*;
use vstd::arithmetic::div_mod::lemma_fundamental_div_mod;
use vstd::arithmetic::div_mod::lemma_fundamental_div_mod_converse;
use vstd::string::StrSliceExecFns;
use vstd::string::StringExecFns;
use vstd::utf8::char_is_scalar;
use vstd::utf8::char_u32_cast;
use vstd::utf8::decode_utf8;
use vstd::utf8::decode_utf8_encode_utf8;
use vstd::utf8::encode_utf8;
use vstd::utf8::encode_utf8_decode_utf8;
use vstd::utf8::encode_utf8_valid_utf8;
use vstd::utf8::is_scalar;
use vstd::utf8::valid_utf8;

verus! {

/// The mathematical value of a path: its platform units.
pub enum PathView {
    Unix(Seq<u8>),
    Windows(Seq<u16>),
}

/// A platform path, held as the plain units the codec works on.
#[derive(Debug)]
pub enum PathUnits {
    Unix(Vec<u8>),
    Windows(Vec<u16>),
}

impl View for PathUnits {
    type V = PathView;

    open spec fn view(&self) -> PathView {
        match self {
            PathUnits::Unix(bytes) => PathView::Unix(bytes@),
            PathUnits::Windows(units) => PathView::Windows(units@),
        }
    }
}

impl DeepView for PathUnits {
    type V = PathView;

    open spec fn deep_view(&self) -> PathView {
        self.view()
    }
}

impl PathUnits {
    /// A copy of the path with the same units.
    pub fn duplicate(&self) -> (r: PathUnits)
        ensures
            r@ == self@,
    {
        match self {
            PathUnits::Unix(bytes) => {
                let copy = bytes.clone();
                proof {
                    assert(copy@ =~= bytes@);
                }
                PathUnits::Unix(copy)
            },
            PathUnits::Windows(units) => {
                let copy = units.clone();
                proof {
                    assert(copy@ =~= units@);
                }
                PathUnits::Windows(copy)
            },
        }
    }
}

impl PartialEq for PathUnits {
    /// Two paths are equal when they are of the same family and hold the
    /// same units.
    fn eq(&self, other: &PathUnits) -> (r: bool) {
        match (self, other) {
            (PathUnits::Unix(a), PathUnits::Unix(b)) => {
                let r = a == b;
                proof {
                    if r {
                        assert(a@ =~= b@);
                    }
                }
                r
            },
            (PathUnits::Windows(a), PathUnits::Windows(b)) => {
                let r = a == b;
                proof {
                    if r {
                        assert(a@ =~= b@);
                    }
                }
                r
            },
            _ => false,
        }
    }
}

impl vstd::std_specs::cmp::PartialEqSpecImpl for PathUnits {
    open spec fn obeys_eq_spec() -> bool {
        true
    }

    open spec fn eq_spec(&self, other: &PathUnits) -> bool {
        self@ == other@
    }
}

/// Which platform family a token should be decoded for.
#[derive(Debug, Clone, Copy, PartialEq, Eq, Structural)]
pub enum PathFamily {
    Unix,
    Windows,
}

/// The one way decoding can fail: a token that carries the sentinel prefix
/// but whose remainder is not valid base64 text.
#[derive(Debug, Clone, Copy, PartialEq, Eq, Structural)]
pub enum DecodeError {
    MalformedPayload,
}

/// The sentinel prefix that flags an escaped token.  No real file can live
/// under `/dev/null`, which POSIX defines to be a device file, so no path a
/// user can create renders as text beginning with this string.
pub open spec fn sentinel() -> Seq<char> {
    "/dev/null/b64_"@
}

/// The sentinel prefix as a string, for callers that build or inspect tokens.
pub fn sentinel_prefix() -> (r: &'static str)
    ensures
        r@ == sentinel(),
{
    "/dev/null/b64_"
}

/// A Unicode control character: the `Cc` category, `U+0000`..`U+001F` and
/// `U+007F`..`U+009F`.
pub open spec fn is_control_char(c: char) -> bool {
    (c as u32) < 0x20 || (0x7f <= (c as u32) && (c as u32) <= 0x9f)
}

/// Whether the text contains a control character anywhere.
pub open spec fn has_control(s: Seq<char>) -> bool {
    exists|i: int| 0 <= i < s.len() && is_control_char(#[trigger] s[i])
}

/// Whether the text begins with the sentinel prefix.
pub open spec fn starts_with_sentinel(s: Seq<char>) -> bool {
    sentinel().is_prefix_of(s)
}

/// The characters base64 output is drawn from: the standard alphabet and the
/// padding character.
pub open spec fn is_base64_char(c: char) -> bool {
    let u = c as u32;
    ||| 0x41 <= u && u <= 0x5a  // 'A'..'Z'
    ||| 0x61 <= u && u <= 0x7a  // 'a'..'z'
    ||| 0x30 <= u && u <= 0x39  // '0'..'9'
    ||| u == 0x2b  // '+'
    ||| u == 0x2f  // '/'
    ||| u == 0x3d  // '='
}

/// The sentinel is fourteen printable characters; none is a control
/// character and the first is `/`.
pub proof fn lemma_sentinel_facts()
    ensures
        sentinel().len() == 14,
        forall|i: int| 0 <= i < 14 ==> !is_control_char(#[trigger] sentinel()[i]),
{
    reveal_strlit("/dev/null/b64_");
    assert forall|i: int| 0 <= i < 14 implies !is_control_char(#[trigger] sentinel()[i]) by {
        if i == 0 {
        } else if i == 1 {
        } else if i == 2 {
        } else if i == 3 {
        } else if i == 4 {
        } else if i == 5 {
        } else if i == 6 {
        } else if i == 7 {
        } else if i == 8 {
        } else if i == 9 {
        } else if i == 10 {
        } else if i == 11 {
        } else if i == 12 {
        } else {
            assert(i == 13);
        }
    }
}

// ----------------------------------------------------------------------------
// Big-endian conversion between 16-bit units and bytes.
// ----------------------------------------------------------------------------

/// The two big-endian bytes of a 16-bit unit.
pub open spec fn u16_be_bytes(value: u16) -> Seq<u8> {
    seq![(value / 256) as u8, (value % 256) as u8]
}

/// A 16-bit unit recombined from its two big-endian bytes.
pub open spec fn combine_u16(b1: u8, b2: u8) -> u16 {
    ((b1 as u16) * 256 + (b2 as u16)) as u16
}

/// The canonical byte rendering of a 16-bit unit sequence: each unit as two
/// big-endian bytes.
pub open spec fn wide_to_bytes(units: Seq<u16>) -> Seq<u8>
    decreases units.len(),
{
    if units.len() == 0 {
        Seq::empty()
    } else {
        u16_be_bytes(units[0]) + wide_to_bytes(units.skip(1))
    }
}

/// The 16-bit units read back from big-endian byte pairs.  A trailing odd
/// byte is dropped; the encoder never produces one.
pub open spec fn bytes_to_wide(bytes: Seq<u8>) -> Seq<u16>
    decreases bytes.len(),
{
    if bytes.len() < 2 {
        Seq::empty()
    } else {
        seq![combine_u16(bytes[0], bytes[1])] + bytes_to_wide(bytes.skip(2))
    }
}

/// Reading big-endian byte pairs back undoes writing them: the byte
/// rendering of any unit sequence recombines to that same sequence.
pub proof fn lemma_bytes_to_wide_of_wide_to_bytes(units: Seq<u16>)
    ensures
        bytes_to_wide(wide_to_bytes(units)) == units,
    decreases units.len(),
{
    if units.len() == 0 {
        assert(bytes_to_wide(wide_to_bytes(units)) =~= units);
    } else {
        let bytes = wide_to_bytes(units);
        let rest = wide_to_bytes(units.skip(1));
        assert(bytes == u16_be_bytes(units[0]) + rest);
        assert(bytes.len() >= 2);
        lemma_fundamental_div_mod(units[0] as int, 256);
        assert(combine_u16(bytes[0], bytes[1]) == units[0]);
        assert(bytes.skip(2) =~= rest);
        lemma_bytes_to_wide_of_wide_to_bytes(units.skip(1));
        assert(bytes_to_wide(bytes) =~= units);
    }
}

/// The two big-endian bytes of a 16-bit unit, high byte first.
pub fn u16_to_bytes(value: u16) -> (r: [u8; 2])
    ensures
        r@ == u16_be_bytes(value),
{
    let b1: u8 = (value / 256) as u8;
    let b2: u8 = (value % 256) as u8;
    let r = [b1, b2];
    proof {
        assert(r@ =~= u16_be_bytes(value));
    }
    r
}

/// A 16-bit unit recombined from its two big-endian bytes.
pub fn bytes_to_u16(b1: u8, b2: u8) -> (r: u16)
    ensures
        r == combine_u16(b1, b2),
{
    (b1 as u16) * 256 + (b2 as u16)
}

/// The canonical byte rendering of a whole 16-bit unit sequence.
pub fn u16_slice_to_byte_array(wides: &Vec<u16>) -> (r: Vec<u8>)
    ensures
        r@ == wide_to_bytes(wides@),
{
    let mut bytes: Vec<u8> = Vec::new();
    let mut i: usize = 0;
    proof {
        assert(wides@.skip(0) =~= wides@);
        assert(bytes@ + wide_to_bytes(wides@) =~= wide_to_bytes(wides@));
    }
    while i < wides.len()
        invariant
            0 <= i <= wides@.len(),
            wide_to_bytes(wides@) == bytes@ + wide_to_bytes(wides@.skip(i as int)),
        decreases wides@.len() - i,
    {
        let pair = u16_to_bytes(wides[i]);
        bytes.push(pair[0]);
        bytes.push(pair[1]);
        proof {
            let tail = wides@.skip(i as int);
            assert(tail[0] == wides@[i as int]);
            assert(tail.skip(1) =~= wides@.skip(i as int + 1));
            assert(wide_to_bytes(tail) == u16_be_bytes(wides@[i as int]) + wide_to_bytes(
                wides@.skip(i as int + 1),
            ));
            assert(bytes@ =~= (bytes@.subrange(0, bytes@.len() - 2) + u16_be_bytes(
                wides@[i as int],
            )));
        }
        i = i + 1;
    }
    proof {
        assert(wides@.skip(i as int) =~= Seq::<u16>::empty());
        assert(bytes@ + wide_to_bytes(wides@.skip(i as int)) =~= bytes@);
    }
    bytes
}

/// The 16-bit units read back from big-endian byte pairs, dropping a
/// trailing odd byte.
pub fn bytes_to_u16_vec(bytes: &Vec<u8>) -> (r: Vec<u16>)
    ensures
        r@ == bytes_to_wide(bytes@),
{
    let mut wides: Vec<u16> = Vec::new();
    let mut i: usize = 0;
    proof {
        assert(bytes@.skip(0) =~= bytes@);
        assert(wides@ + bytes_to_wide(bytes@) =~= bytes_to_wide(bytes@));
    }
    while i < bytes.len() && i + 1 < bytes.len()
        invariant
            0 <= i <= bytes@.len(),
            bytes_to_wide(bytes@) == wides@ + bytes_to_wide(bytes@.skip(i as int)),
        decreases bytes@.len() - i,
    {
        let unit = bytes_to_u16(bytes[i], bytes[i + 1]);
        wides.push(unit);
        proof {
            let tail = bytes@.skip(i as int);
            assert(tail.len() >= 2);
            assert(tail[0] == bytes@[i as int]);
            assert(tail[1] == bytes@[i as int + 1]);
            assert(tail.skip(2) =~= bytes@.skip(i as int + 2));
            assert(bytes_to_wide(tail) == seq![combine_u16(bytes@[i as int], bytes@[i as int + 1])]
                + bytes_to_wide(bytes@.skip(i as int + 2)));
            assert(wides@ =~= wides@.subrange(0, wides@.len() - 1) + seq![
                combine_u16(bytes@[i as int], bytes@[i as int + 1]),
            ]);
        }
        i = i + 2;
    }
    proof {
        assert(bytes@.skip(i as int).len() < 2);
        assert(bytes_to_wide(bytes@.skip(i as int)) =~= Seq::<u16>::empty());
        assert(wides@ + bytes_to_wide(bytes@.skip(i as int)) =~= wides@);
    }
    wides
}

// ----------------------------------------------------------------------------
// UTF-16: the Windows family's text interpretation.
// ----------------------------------------------------------------------------

/// The UTF-16 code units of one character: itself for the basic plane, a
/// surrogate pair for the supplementary planes.
pub open spec fn utf16_encode_char(c: char) -> Seq<u16> {
    if (c as u32) < 0x10000 {
        seq![(c as u32) as u16]
    } else {
        seq![
            (0xd800 + ((c as u32) - 0x10000) / 0x400) as u16,
            (0xdc00 + ((c as u32) - 0x10000) % 0x400) as u16,
        ]
    }
}

/// The UTF-16 code units of a text.
pub open spec fn utf16_encode(s: Seq<char>) -> Seq<u16>
    decreases s.len(),
{
    if s.len() == 0 {
        Seq::empty()
    } else {
        utf16_encode_char(s[0]) + utf16_encode(s.skip(1))
    }
}

/// The text spelled by a sequence of 16-bit units, or `None` where the
/// units are not well-formed UTF-16 (an unpaired surrogate).
pub open spec fn utf16_decode(units: Seq<u16>) -> Option<Seq<char>>
    decreases units.len(),
{
    if units.len() == 0 {
        Some(Seq::empty())
    } else if units[0] < 0xd800 || units[0] >= 0xe000 {
        match utf16_decode(units.skip(1)) {
            Some(t) => Some(seq![(units[0] as u32) as char] + t),
            None => None,
        }
    } else if units[0] < 0xdc00 && units.len() >= 2 && 0xdc00 <= units[1] && units[1] < 0xe000 {
        match utf16_decode(units.skip(2)) {
            Some(t) => Some(
                seq![
                    ((0x10000 + ((units[0] as u32) - 0xd800) * 0x400 + ((units[1] as u32)
                        - 0xdc00)) as u32) as char,
                ] + t,
            ),
            None => None,
        }
    } else {
        None
    }
}

// ----------------------------------------------------------------------------
// The token model.
// ----------------------------------------------------------------------------

/// What the base64 library's standard-alphabet, padded encode returns for
/// the given bytes.
pub uninterp spec fn b64_encoding_of(bytes: Seq<u8>) -> Seq<char>;

/// What the base64 library's standard-alphabet, padded decode returns for
/// the given text: the bytes, or `None` where the text is not valid base64.
pub uninterp spec fn b64_decoding_of(text: Seq<char>) -> Option<Seq<u8>>;

/// The text interpretation of a path, or `None` where its units do not
/// spell valid text in the family's encoding.
pub open spec fn text_of(p: PathView) -> Option<Seq<char>> {
    match p {
        PathView::Unix(bytes) => if valid_utf8(bytes) {
            Some(decode_utf8(bytes))
        } else {
            None
        },
        PathView::Windows(units) => utf16_decode(units),
    }
}

/// The canonical byte rendering of a path: the bytes themselves on the Unix
/// family, big-endian byte pairs on the Windows family.
pub open spec fn canonical_bytes(p: PathView) -> Seq<u8> {
    match p {
        PathView::Unix(bytes) => bytes,
        PathView::Windows(units) => wide_to_bytes(units),
    }
}

/// The family a path belongs to.
pub open spec fn family_of(p: PathView) -> PathFamily {
    match p {
        PathView::Unix(_) => PathFamily::Unix,
        PathView::Windows(_) => PathFamily::Windows,
    }
}

/// Text that may be stored verbatim: free of control characters and not
/// spelling the sentinel prefix.
pub open spec fn is_safe_text(t: Seq<char>) -> bool {
    !has_control(t) && !starts_with_sentinel(t)
}

/// Whether a path must be escaped: its units spell no text at all, or they
/// spell text that is not safe to store verbatim.
pub open spec fn needs_escape(p: PathView) -> bool {
    match text_of(p) {
        Some(t) => !is_safe_text(t),
        None => true,
    }
}

/// The escaped token for the given canonical bytes.
pub open spec fn escaped_token(bytes: Seq<u8>) -> Seq<char> {
    sentinel() + b64_encoding_of(bytes)
}

/// The token the encoder returns for a path.
pub open spec fn encode_spec(p: PathView) -> Seq<char> {
    match text_of(p) {
        Some(t) => if is_safe_text(t) {
            t
        } else {
            escaped_token(canonical_bytes(p))
        },
        None => escaped_token(canonical_bytes(p)),
    }
}

/// The path whose text interpretation is the given text, in the given
/// family.
pub open spec fn units_from_text(t: Seq<char>, family: PathFamily) -> PathView {
    match family {
        PathFamily::Unix => PathView::Unix(encode_utf8(t)),
        PathFamily::Windows => PathView::Windows(utf16_encode(t)),
    }
}

/// The path whose canonical bytes are the given bytes, in the given family.
pub open spec fn units_from_bytes(bytes: Seq<u8>, family: PathFamily) -> PathView {
    match family {
        PathFamily::Unix => PathView::Unix(bytes),
        PathFamily::Windows => PathView::Windows(bytes_to_wide(bytes)),
    }
}

/// What the decoder returns for a token: the verbatim reading where the
/// sentinel is absent, otherwise the base64 payload turned back into units,
/// or the one error where that payload is not valid base64.
pub open spec fn decode_spec(s: Seq<char>, family: PathFamily) -> Result<PathView, DecodeError> {
    if !starts_with_sentinel(s) {
        Ok(units_from_text(s, family))
    } else {
        match b64_decoding_of(s.skip(sentinel().len() as int)) {
            Some(bytes) => Ok(units_from_bytes(bytes, family)),
            None => Err(DecodeError::MalformedPayload),
        }
    }
}

// ----------------------------------------------------------------------------
// Trusted wrappers around the platform text conversions and base64.
// ----------------------------------------------------------------------------

/// Relies on `String::from_utf8`: it succeeds exactly on valid UTF-8 and
/// returns the text those bytes spell.
#[verifier::external_body]
fn bytes_to_string(bytes: &Vec<u8>) -> (r: Option<String>)
    ensures
        match r {
            Some(s) => valid_utf8(bytes@) && s@ == decode_utf8(bytes@),
            None => !valid_utf8(bytes@),
        },
{
    match String::from_utf8(bytes.clone()) {
        Ok(s) => Some(s),
        Err(_) => None,
    }
}

/// Relies on `String::from_utf16`: it succeeds exactly on well-formed
/// UTF-16 and returns the text those units spell.
#[verifier::external_body]
fn wide_to_string(units: &Vec<u16>) -> (r: Option<String>)
    ensures
        match r {
            Some(s) => utf16_decode(units@) == Some(s@),
            None => utf16_decode(units@) is None,
        },
{
    match String::from_utf16(units.as_slice()) {
        Ok(s) => Some(s),
        Err(_) => None,
    }
}

/// Relies on `str::encode_utf16`: the UTF-16 code units of the text.
#[verifier::external_body]
pub(crate) fn string_to_wide(s: &str) -> (r: Vec<u16>)
    ensures
        r@ == utf16_encode(s@),
{
    s.encode_utf16().collect()
}

/// Relies on the base64 crate's `STANDARD` engine encode: standard
/// alphabet with padding, its output decodable by the same engine back to
/// the input bytes.
#[verifier::external_body]
fn b64_encode(bytes: &Vec<u8>) -> (r: String)
    ensures
        r@ == b64_encoding_of(bytes@),
        b64_decoding_of(r@) == Some(bytes@),
        forall|i: int| 0 <= i < r@.len() ==> is_base64_char(#[trigger] r@[i]),
{
    base64::Engine::encode(&base64::engine::general_purpose::STANDARD, bytes.as_slice())
}

/// Relies on the base64 crate's `STANDARD` engine decode: the inverse of
/// the encode above, failing exactly where the text is not valid padded
/// base64.
#[verifier::external_body]
fn b64_decode(text: &str) -> (r: Option<Vec<u8>>)
    ensures
        match r {
            Some(bytes) => b64_decoding_of(text@) == Some(bytes@),
            None => b64_decoding_of(text@) is None,
        },
{
    match base64::Engine::decode(&base64::engine::general_purpose::STANDARD, text) {
        Ok(bytes) => Some(bytes),
        Err(_) => None,
    }
}

// ----------------------------------------------------------------------------
// The classifier and the codec.
// ----------------------------------------------------------------------------

/// Whether text that could be stored as-is should be escaped anyway: it
/// contains a control character, which is unsafe in a line-oriented file.
pub fn should_be_encoded(s: &str) -> (r: bool)
    ensures
        r == has_control(s@),
{
    let n = s.unicode_len();
    let mut i: usize = 0;
    while i < n
        invariant
            0 <= i <= n,
            n == s@.len(),
            forall|j: int| 0 <= j < i ==> !is_control_char(#[trigger] s@[j]),
        decreases n - i,
    {
        let c = s.get_char(i);
        let u = c as u32;
        if u < 0x20 || (0x7f <= u && u <= 0x9f) {
            return true;
        }
        i = i + 1;
    }
    false
}

/// Whether `s` starts with the text `p`, character by character.
pub fn str_starts_with(s: &str, p: &str) -> (r: bool)
    ensures
        r == p@.is_prefix_of(s@),
{
    let sn = s.unicode_len();
    let pn = p.unicode_len();
    if sn < pn {
        return false;
    }
    let mut i: usize = 0;
    while i < pn
        invariant
            0 <= i <= pn,
            pn == p@.len(),
            sn == s@.len(),
            pn <= sn,
            forall|j: int| 0 <= j < i ==> s@[j] == p@[j],
        decreases pn - i,
    {
        if s.get_char(i) != p.get_char(i) {
            proof {
                assert(s@.subrange(0, pn as int)[i as int] != p@[i as int]);
            }
            return false;
        }
        i = i + 1;
    }
    proof {
        assert(p@ =~= s@.subrange(0, pn as int));
    }
    true
}

/// The escaped token for the given canonical bytes: the sentinel prefix
/// followed by their base64 rendering.
pub fn encode_bytes(bytes: &Vec<u8>) -> (r: String)
    ensures
        r@ == escaped_token(bytes@),
        b64_decoding_of(r@.skip(sentinel().len() as int)) == Some(bytes@),
        starts_with_sentinel(r@),
        !has_control(r@),
{
    let payload = b64_encode(bytes);
    let mut token = String::from_str(sentinel_prefix());
    token.append(payload.as_str());
    proof {
        lemma_sentinel_facts();
        assert(token@.subrange(0, sentinel().len() as int) =~= sentinel());
        assert(token@.skip(sentinel().len() as int) =~= payload@);
        assert forall|i: int| 0 <= i < token@.len() implies !is_control_char(
            #[trigger] token@[i],
        ) by {
            if i < 14 {
                assert(token@[i] == sentinel()[i]);
            } else {
                assert(token@[i] == payload@[i - 14]);
                assert(is_base64_char(payload@[i - 14]));
            }
        }
    }
    token
}

/// Encode a path as a printable, line-safe token.
///
/// The token is a pure function of the path, it never contains a control
/// character, it starts with the sentinel prefix exactly when the path had
/// to be escaped, and decoding it in the path's own family gives back the
/// path, unit for unit.
pub fn path_to_path_string(p: &PathUnits) -> (r: String)
    ensures
        r@ == encode_spec(p@),
        decode_spec(r@, family_of(p@)) == Ok::<PathView, DecodeError>(p@),
        !has_control(r@),
        starts_with_sentinel(r@) == needs_escape(p@),
{
    match p {
        PathUnits::Unix(bytes) => {
            match bytes_to_string(bytes) {
                Some(s) => {
                    if !should_be_encoded(s.as_str()) && !str_starts_with(
                        s.as_str(),
                        sentinel_prefix(),
                    ) {
                        proof {
                            decode_utf8_encode_utf8(bytes@);
                        }
                        s
                    } else {
                        encode_bytes(bytes)
                    }
                },
                None => encode_bytes(bytes),
            }
        },
        PathUnits::Windows(units) => {
            match wide_to_string(units) {
                Some(s) => {
                    proof {
                        lemma_utf16_encode_of_decode(units@);
                    }
                    if !should_be_encoded(s.as_str()) && !str_starts_with(
                        s.as_str(),
                        sentinel_prefix(),
                    ) {
                        s
                    } else {
                        let bytes = u16_slice_to_byte_array(units);
                        let token = encode_bytes(&bytes);
                        proof {
                            lemma_bytes_to_wide_of_wide_to_bytes(units@);
                        }
                        token
                    }
                },
                None => {
                    let bytes = u16_slice_to_byte_array(units);
                    let token = encode_bytes(&bytes);
                    proof {
                        lemma_bytes_to_wide_of_wide_to_bytes(units@);
                    }
                    token
                },
            }
        },
    }
}

/// Decode a token back into a path of the given family.
///
/// A token without the sentinel prefix is read verbatim as text, which
/// always succeeds; one with the prefix has its base64 payload decoded, and
/// a payload that is not valid base64 is the one reportable error.
pub fn path_string_to_path_buf(s: &str, family: PathFamily) -> (r: Result<PathUnits, DecodeError>)
    ensures
        match r {
            Ok(p) => decode_spec(s@, family) == Ok::<PathView, DecodeError>(p@),
            Err(e) => decode_spec(s@, family) == Err::<PathView, DecodeError>(e),
        },
{
    if !str_starts_with(s, sentinel_prefix()) {
        match family {
            PathFamily::Unix => {
                let bytes = s.as_bytes_vec();
                Ok(PathUnits::Unix(bytes))
            },
            PathFamily::Windows => Ok(PathUnits::Windows(string_to_wide(s))),
        }
    } else {
        let n = s.unicode_len();
        proof {
            lemma_sentinel_facts();
        }
        let payload = s.substring_char(14, n);
        proof {
            assert(payload@ =~= s@.skip(sentinel().len() as int));
        }
        match b64_decode(payload) {
            Some(bytes) => match family {
                PathFamily::Unix => Ok(PathUnits::Unix(bytes)),
                PathFamily::Windows => Ok(PathUnits::Windows(bytes_to_u16_vec(&bytes))),
            },
            None => Err(DecodeError::MalformedPayload),
        }
    }
}

// ----------------------------------------------------------------------------
// The laws the codec obeys, stated over the token model.
// ----------------------------------------------------------------------------

/// Decoding UTF-16 undoes encoding it: the code units of any text spell
/// that same text.
pub proof fn lemma_utf16_decode_of_encode(t: Seq<char>)
    ensures
        utf16_decode(utf16_encode(t)) == Some(t),
    decreases t.len(),
{
    if t.len() == 0 {
        assert(utf16_decode(utf16_encode(t)) == Some(Seq::<char>::empty()));
        assert(Seq::<char>::empty() =~= t);
    } else {
        let c = t[0];
        let u = c as u32;
        char_is_scalar(c);
        char_u32_cast(c, u);
        let head = utf16_encode_char(c);
        let rest = utf16_encode(t.skip(1));
        let units = utf16_encode(t);
        assert(units == head + rest);
        lemma_utf16_decode_of_encode(t.skip(1));
        if u < 0x10000 {
            assert(is_scalar(u));
            assert(u < 0xd800 || u >= 0xe000);
            assert(units[0] == (u as u16));
            assert(((units[0] as u32) as char) == c);
            assert(units.skip(1) =~= rest);
            assert(utf16_decode(units) == Some(seq![c] + t.skip(1)));
            assert(seq![c] + t.skip(1) =~= t);
        } else {
            assert(is_scalar(u));
            assert(u <= 0x10ffff);
            let v = u - 0x10000;
            lemma_fundamental_div_mod(v, 0x400);
            assert(0 <= v / 0x400 < 0x400);
            assert(0 <= v % 0x400 < 0x400);
            let hi = (0xd800 + v / 0x400) as u16;
            let lo = (0xdc00 + v % 0x400) as u16;
            assert(units[0] == hi && units[1] == lo);
            assert(0xd800 <= hi && hi < 0xdc00);
            assert(0xdc00 <= lo && lo < 0xe000);
            assert(units.len() >= 2);
            let back = (0x10000 + ((hi as u32) - 0xd800) * 0x400 + ((lo as u32) - 0xdc00)) as u32;
            assert(back == u);
            assert(((back as u32) as char) == c);
            assert(units.skip(2) =~= rest);
            assert(utf16_decode(units) == Some(seq![c] + t.skip(1)));
            assert(seq![c] + t.skip(1) =~= t);
        }
    }
}

/// Encoding UTF-16 undoes decoding it: units that spell a text are exactly
/// that text's code units.
pub proof fn lemma_utf16_encode_of_decode(units: Seq<u16>)
    requires
        utf16_decode(units) is Some,
    ensures
        utf16_encode(utf16_decode(units).unwrap()) == units,
    decreases units.len(),
{
    let t = utf16_decode(units).unwrap();
    if units.len() == 0 {
        assert(utf16_encode(t) =~= units);
    } else if units[0] < 0xd800 || units[0] >= 0xe000 {
        let u = units[0];
        let c = (u as u32) as char;
        assert((c as u32) == u as u32);
        let rest = utf16_decode(units.skip(1)).unwrap();
        assert(t == seq![c] + rest);
        lemma_utf16_encode_of_decode(units.skip(1));
        assert(t[0] == c);
        assert(t.skip(1) =~= rest);
        assert(utf16_encode_char(c) =~= seq![u]);
        assert(utf16_encode(t) =~= units);
    } else {
        let hi = units[0];
        let lo = units[1];
        let value: int = 0x10000 + ((hi as u32) - 0xd800) * 0x400 + ((lo as u32) - 0xdc00);
        let c = (value as u32) as char;
        assert(0x10000 <= value <= 0x10ffff);
        assert((c as u32) == value);
        let rest = utf16_decode(units.skip(2)).unwrap();
        assert(t == seq![c] + rest);
        lemma_utf16_encode_of_decode(units.skip(2));
        assert(t[0] == c);
        assert(t.skip(1) =~= rest);
        lemma_fundamental_div_mod_converse(
            value - 0x10000,
            0x400,
            (hi as u32) - 0xd800,
            (lo as u32) - 0xdc00,
        );
        assert(utf16_encode_char(c) =~= seq![hi, lo]);
        assert(utf16_encode(t) =~= units);
    }
}

/// Idempotence of safety: text that is free of control characters, and does
/// not spell the sentinel prefix, encodes verbatim — in either family, the
/// path whose text form is `t` is given the token `t`, unchanged.
pub proof fn lemma_safe_text_encodes_verbatim(t: Seq<char>)
    requires
        is_safe_text(t),
    ensures
        encode_spec(PathView::Unix(encode_utf8(t))) == t,
        encode_spec(PathView::Windows(utf16_encode(t))) == t,
{
    encode_utf8_valid_utf8(t);
    encode_utf8_decode_utf8(t);
    lemma_utf16_decode_of_encode(t);
}

/// No false negatives: a path whose text form contains a control character
/// is always escaped, so its token starts with the sentinel prefix.  The
/// same holds of a path with no text form at all.
pub proof fn lemma_control_text_is_escaped(p: PathView)
    requires
        match text_of(p) {
            Some(t) => has_control(t),
            None => true,
        },
    ensures
        starts_with_sentinel(encode_spec(p)),
{
    let token = encode_spec(p);
    assert(token == escaped_token(canonical_bytes(p)));
    assert(token.subrange(0, sentinel().len() as int) =~= sentinel());
}

/// No false negatives, stated over the text itself: a path whose units
/// spell text with a control character in it is escaped in either family.
pub proof fn lemma_control_text_forces_escape(s: Seq<char>)
    requires
        has_control(s),
    ensures
        starts_with_sentinel(encode_spec(PathView::Unix(encode_utf8(s)))),
        starts_with_sentinel(encode_spec(PathView::Windows(utf16_encode(s)))),
{
    encode_utf8_valid_utf8(s);
    encode_utf8_decode_utf8(s);
    lemma_utf16_decode_of_encode(s);
    lemma_control_text_is_escaped(PathView::Unix(encode_utf8(s)));
    lemma_control_text_is_escaped(PathView::Windows(utf16_encode(s)));
}

/// Prefix exclusivity: a token produced verbatim never starts with the
/// sentinel prefix, so the decoder's check is unambiguous.
pub proof fn lemma_verbatim_token_lacks_sentinel(p: PathView)
    requires
        !needs_escape(p),
    ensures
        !starts_with_sentinel(encode_spec(p)),
{
}

/// Determinism: the token is a pure function of the path's units, so
/// encoding equal paths gives byte-identical tokens.
pub proof fn lemma_encode_deterministic(p: PathView, q: PathView)
    requires
        p == q,
    ensures
        encode_spec(p) == encode_spec(q),
{
}

} // verus!
