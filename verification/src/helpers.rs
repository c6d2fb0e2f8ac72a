pub mod bloom_filter;
pub mod byteable;
pub mod codec;
pub mod lifo;
pub mod strings;
pub use byteable::Byteable;
pub use lifo::LiFo;

use vstd::prelude::*;

use crate::crypto::{sha256_digest, sha256_of};
use crate::db::user::I2PAddress;
use crate::encoding::{base32_nopad_encode, base32_nopad_encoded, base64_std_decode, base64_std_decoded};
use crate::errors::{Base64Error, DecodeError, DecodeFault, EncodeError};
use crate::helpers::strings::{decimal, decimal_string};
use crate::helpers::strings::string_from_ascii;
use crate::types::Timestamp;
use crate::types::timestamp::spec_from_unix_reading;

verus! {

/// The text that Unicode lowercasing gives (`str::to_lowercase`).
pub uninterp spec fn lowercase_of(s: Seq<char>) -> Seq<char>;

/// The canonical decomposition (NFD) of a text.
pub uninterp spec fn nfd_of(s: Seq<char>) -> Seq<char>;

/// Whether every character of `s` is ASCII.
pub open spec fn is_ascii_text(s: Seq<char>) -> bool {
    forall|i: int| 0 <= i < s.len() ==> (#[trigger] s[i]) <= '\u{7f}'
}

/// `c` with an ASCII capital letter put in lower case.
pub open spec fn ascii_lower(c: char) -> char {
    if 'A' <= c <= 'Z' {
        ((c as u32) + 32) as char
    } else {
        c
    }
}

/// `s` with its ASCII capital letters put in lower case.
pub open spec fn ascii_lowercase(s: Seq<char>) -> Seq<char> {
    s.map_values(|c: char| ascii_lower(c))
}

/// `str::to_lowercase`: Unicode lowercasing, which does not depend on a
/// locale. On ASCII text the Unicode lowercase mappings are those of
/// `A`-`Z` to `a`-`z`, every other ASCII character mapping to itself.
#[verifier::external_body]
fn unicode_lowercase(s: &str) -> (r: String)
    ensures
        r@ == lowercase_of(s@),
        is_ascii_text(s@) ==> r@ == ascii_lowercase(s@),
{
    s.to_lowercase()
}

/// `unicode_normalization::UnicodeNormalization::nfd`, collected into a
/// string. No ASCII character has a canonical decomposition, so ASCII text is
/// its own NFD.
#[verifier::external_body]
fn nfd_decompose(s: &str) -> (r: String)
    ensures
        r@ == nfd_of(s@),
        is_ascii_text(s@) ==> r@ == s@,
{
    unicode_normalization::UnicodeNormalization::nfd(s).collect()
}

pub open spec fn is_ascii_alnum(c: char) -> bool {
    ('a' <= c <= 'z') || ('A' <= c <= 'Z') || ('0' <= c <= '9')
}

/// What is left of a text once it is lowercased, decomposed, and stripped of
/// all but ASCII letters and digits (accents, once decomposed, fall away).
pub open spec fn sanitized(s: Seq<char>) -> Seq<char> {
    nfd_of(lowercase_of(s)).filter(|c: char| is_ascii_alnum(c))
}

fn ascii_alnum(c: char) -> (r: bool)
    ensures
        r == is_ascii_alnum(c),
{
    ('a' <= c && c <= 'z') || ('A' <= c && c <= 'Z') || ('0' <= c && c <= '9')
}

/// Keeps the ASCII letters and digits of `s`, in their order.
fn keep_ascii_alnum(s: &str) -> (r: String)
    ensures
        r@ == s@.filter(|c: char| is_ascii_alnum(c)),
{
    let n = s.unicode_len();
    let ghost pred = |c: char| is_ascii_alnum(c);
    let mut kept: Vec<char> = Vec::new();
    let mut i: usize = 0;
    assert(s@.take(0) =~= Seq::<char>::empty());
    while i < n
        invariant
            n == s@.len(),
            i <= n,
            pred == (|c: char| is_ascii_alnum(c)),
            kept@ == s@.take(i as int).filter(pred),
            vstd::utf8::is_ascii_chars(kept@),
        decreases n - i,
    {
        let c = s.get_char(i);
        proof {
            assert(s@.take(i + 1) =~= s@.take(i as int).push(s@[i as int]));
            s@.take(i as int).lemma_filter_push(s@[i as int], pred);
        }
        if ascii_alnum(c) {
            kept.push(c);
        }
        i = i + 1;
    }
    assert(s@.take(n as int) =~= s@);
    string_from_ascii(&kept)
}

/// A title reduced to the letters and digits it is known by, so that two
/// spellings of one title name the same index.
#[derive(Debug, Clone)]
pub struct SanitizedString(String);

impl View for SanitizedString {
    type V = Seq<char>;

    closed spec fn view(&self) -> Seq<char> {
        self.0@
    }
}

impl SanitizedString {
    /// On an ASCII title the result is its lowercased letters and digits,
    /// so it holds only `a`-`z` and `0`-`9`.
    pub fn new(s: &String) -> (r: SanitizedString)
        ensures
            r@ == sanitized(s@),
            is_ascii_text(s@) ==> r@ == ascii_lowercase(s@).filter(|c: char| is_ascii_alnum(c)),
            is_ascii_text(s@) ==> forall|i: int|
                0 <= i < r@.len() ==> ('a' <= #[trigger] r@[i] <= 'z' || '0' <= r@[i] <= '9'),
    {
        let lower = unicode_lowercase(s.as_str());
        proof {
            if is_ascii_text(s@) {
                assert forall|i: int| 0 <= i < lower@.len() implies (#[trigger] lower@[i]) <= '\u{7f}' by {
                    assert(lower@[i] == ascii_lower(s@[i]));
                }
            }
        }
        let decomposed = nfd_decompose(lower.as_str());
        proof {
            if is_ascii_text(s@) {
                let pred = |c: char| is_ascii_alnum(c);
                let f = decomposed@.filter(pred);
                assert forall|i: int| 0 <= i < f.len() implies ('a' <= #[trigger] f[i] <= 'z' || '0' <= f[i] <= '9') by {
                    assert(f.contains(f[i]));
                    decomposed@.lemma_filter_contains_rev(pred, f[i]);
                    let k = choose|k: int| 0 <= k < decomposed@.len() && decomposed@[k] == f[i];
                    assert(decomposed@[k] == ascii_lower(s@[k]));
                    decomposed@.lemma_filter_pred(pred, i);
                }
            }
        }
        SanitizedString(keep_ascii_alnum(decomposed.as_str()))
    }

    pub fn as_str(&self) -> (r: &str)
        ensures
            r@ == self@,
    {
        self.0.as_str()
    }

    pub fn as_bytes(&self) -> (r: &[u8])
        ensures
            r@ == vstd::utf8::encode_utf8(self@),
    {
        self.0.as_str().as_bytes()
    }

    pub fn to_inner(self) -> (r: String)
        ensures
            r@ == self@,
    {
        self.0
    }
}

/// The current time as a timestamp.
pub fn now_timestamp() -> (r: Timestamp)
    ensures
        exists|reading: Result<u64, u64>| r == #[trigger] spec_from_unix_reading(reading),
{
    Timestamp::now()
}

/// The characters that `char::is_whitespace` accepts: those with the
/// Unicode `White_Space` property.
pub open spec fn is_whitespace(c: char) -> bool {
    ||| ('\t' <= c <= '\r')
    ||| c == ' '
    ||| c == '\u{85}'
    ||| c == '\u{a0}'
    ||| c == '\u{1680}'
    ||| ('\u{2000}' <= c <= '\u{200a}')
    ||| c == '\u{2028}'
    ||| c == '\u{2029}'
    ||| c == '\u{202f}'
    ||| c == '\u{205f}'
    ||| c == '\u{3000}'
}

fn whitespace(c: char) -> (r: bool)
    ensures
        r == is_whitespace(c),
{
    ('\t' <= c && c <= '\r') || c == ' ' || c == '\u{85}' || c == '\u{a0}' || c == '\u{1680}' || (
    '\u{2000}' <= c && c <= '\u{200a}') || c == '\u{2028}' || c == '\u{2029}' || c == '\u{202f}'
        || c == '\u{205f}' || c == '\u{3000}'
}

/// The number of whitespace characters at the front of `s`.
pub open spec fn leading_ws(s: Seq<char>) -> nat
    decreases s.len(),
{
    if s.len() > 0 && is_whitespace(s[0]) {
        1 + leading_ws(s.drop_first())
    } else {
        0
    }
}

/// The number of whitespace characters at the end of `s`.
pub open spec fn trailing_ws(s: Seq<char>) -> nat
    decreases s.len(),
{
    if s.len() > 0 && is_whitespace(s.last()) {
        1 + trailing_ws(s.drop_last())
    } else {
        0
    }
}

pub proof fn lemma_leading_ws_bound(s: Seq<char>)
    ensures
        leading_ws(s) <= s.len(),
        forall|i: int| 0 <= i < leading_ws(s) ==> is_whitespace(#[trigger] s[i]),
        leading_ws(s) < s.len() ==> !is_whitespace(s[leading_ws(s) as int]),
    decreases s.len(),
{
    if s.len() > 0 && is_whitespace(s[0]) {
        lemma_leading_ws_bound(s.drop_first());
        assert forall|i: int| 0 <= i < leading_ws(s) implies is_whitespace(#[trigger] s[i]) by {
            if i > 0 {
                assert(s[i] == s.drop_first()[i - 1]);
            }
        }
    }
}

pub proof fn lemma_trailing_ws_bound(s: Seq<char>)
    ensures
        trailing_ws(s) <= s.len(),
        forall|i: int| s.len() - trailing_ws(s) <= i < s.len() ==> is_whitespace(#[trigger] s[i]),
        trailing_ws(s) < s.len() ==> !is_whitespace(s[s.len() - 1 - trailing_ws(s)]),
    decreases s.len(),
{
    if s.len() > 0 && is_whitespace(s.last()) {
        lemma_trailing_ws_bound(s.drop_last());
        assert forall|i: int| s.len() - trailing_ws(s) <= i < s.len() implies is_whitespace(
            #[trigger] s[i],
        ) by {
            if i < s.len() - 1 {
                assert(s[i] == s.drop_last()[i]);
            }
        }
    }
}

/// `s` without whitespace at either end (`str::trim`).
pub open spec fn trimmed(s: Seq<char>) -> Seq<char> {
    let front = s.skip(leading_ws(s) as int);
    front.take(front.len() - trailing_ws(front))
}

/// Gives the characters of `s`.
fn chars_of(s: &str) -> (r: Vec<char>)
    ensures
        r@ == s@,
{
    let n = s.unicode_len();
    let mut out: Vec<char> = Vec::new();
    let mut i: usize = 0;
    while i < n
        invariant
            n == s@.len(),
            i <= n,
            out@ == s@.take(i as int),
        decreases n - i,
    {
        let c = s.get_char(i);
        out.push(c);
        i = i + 1;
        assert(out@ =~= s@.take(i as int));
    }
    assert(s@.take(n as int) =~= s@);
    out
}

/// The characters of `s` from `start` up to `end`.
fn chars_between(s: &Vec<char>, start: usize, end: usize) -> (r: Vec<char>)
    requires
        start <= end <= s@.len(),
    ensures
        r@ == s@.subrange(start as int, end as int),
{
    let mut out: Vec<char> = Vec::new();
    let mut i: usize = start;
    while i < end
        invariant
            start <= i <= end <= s@.len(),
            out@ == s@.subrange(start as int, i as int),
        decreases end - i,
    {
        out.push(s[i]);
        i = i + 1;
        assert(out@ =~= s@.subrange(start as int, i as int));
    }
    out
}

/// The bounds of `s` once trimmed.
fn trim_bounds(s: &Vec<char>) -> (r: (usize, usize))
    ensures
        r.0 <= r.1 <= s@.len(),
        s@.subrange(r.0 as int, r.1 as int) == trimmed(s@),
{
    let n = s.len();
    let mut start: usize = 0;
    proof {
        lemma_leading_ws_bound(s@);
    }
    while start < n && whitespace(s[start])
        invariant
            start <= n == s@.len(),
            start <= leading_ws(s@),
            leading_ws(s@) <= n,
            forall|i: int| 0 <= i < leading_ws(s@) ==> is_whitespace(#[trigger] s@[i]),
            leading_ws(s@) < n ==> !is_whitespace(s@[leading_ws(s@) as int]),
        decreases n - start,
    {
        start = start + 1;
    }
    assert(start == leading_ws(s@));
    let ghost front = s@.skip(start as int);
    proof {
        lemma_trailing_ws_bound(front);
    }
    let mut end: usize = n;
    while end > start && whitespace(s[end - 1])
        invariant
            start <= end <= n == s@.len(),
            front == s@.skip(start as int),
            n - end <= trailing_ws(front),
            trailing_ws(front) <= front.len(),
            forall|i: int| front.len() - trailing_ws(front) <= i < front.len() ==> is_whitespace(#[trigger] front[i]),
            trailing_ws(front) < front.len() ==> !is_whitespace(front[front.len() - 1 - trailing_ws(front)]),
        decreases end,
    {
        assert(s@[end - 1] == front[end - 1 - start]);
        end = end - 1;
    }
    proof {
        if end > start {
            assert(s@[end - 1] == front[end - 1 - start]);
        }
        assert(n - end == trailing_ws(front));
        assert(s@.subrange(start as int, end as int) =~= front.take(front.len() - trailing_ws(front)));
    }
    (start, end)
}

/// Replaces `-` by `+` and `~` by `/`: the alphabet of I2P's base64 to the standard one.
pub open spec fn i2p_alphabet_fixed(s: Seq<char>) -> Seq<char> {
    s.map_values(|c: char| if c == '-' { '+' } else if c == '~' { '/' } else { c })
}

/// An I2P base64 text in the standard alphabet, without whitespace at either end.
pub fn i2p_b64_fix(s: &str) -> (r: String)
    ensures
        r@ == i2p_alphabet_fixed(trimmed(s@)),
{
    let chars = chars_of(s);
    let (start, end) = trim_bounds(&chars);
    let mut out = String::new();
    let mut i: usize = start;
    while i < end
        invariant
            start <= i <= end <= chars@.len(),
            out@ == i2p_alphabet_fixed(chars@.subrange(start as int, i as int)),
        decreases end - i,
    {
        let c = chars[i];
        let d = if c == '-' {
            '+'
        } else if c == '~' {
            '/'
        } else {
            c
        };
        push_char(&mut out, d);
        i = i + 1;
        assert(i2p_alphabet_fixed(chars@.subrange(start as int, i as int)) =~= i2p_alphabet_fixed(
            chars@.subrange(start as int, i - 1),
        ).push(d));
    }
    out
}

/// `String::push`.
#[verifier::external_body]
fn push_char(s: &mut String, c: char)
    ensures
        final(s)@ == old(s)@.push(c),
{
    s.push(c);
}


/// `s` with `suffix` taken off its end for as long as it ends with it (`str::trim_end_matches`).
pub open spec fn strip_suffixes(s: Seq<char>, suffix: Seq<char>) -> Seq<char>
    decreases s.len(),
{
    if suffix.len() > 0 && s.len() >= suffix.len() && s.skip(s.len() - suffix.len()) == suffix {
        strip_suffixes(s.take(s.len() - suffix.len()), suffix)
    } else {
        s
    }
}

/// Whether `s[start..end]` ends with `suffix`.
fn ends_with_at(s: &Vec<char>, start: usize, end: usize, suffix: &Vec<char>) -> (r: bool)
    requires
        start <= end <= s@.len(),
    ensures
        r == (s@.subrange(start as int, end as int).len() >= suffix@.len() && s@.subrange(start as int, end as int).skip(
            (end - start) - suffix@.len(),
        ) == suffix@),
{
    let k = suffix.len();
    if end - start < k {
        return false;
    }
    let base = end - k;
    let mut i: usize = 0;
    while i < k
        invariant
            start <= base,
            base + k == end,
            end <= s@.len(),
            k == suffix@.len(),
            i <= k,
            forall|j: int| 0 <= j < i ==> s@[base + j] == suffix@[j],
        decreases k - i,
    {
        if s[base + i] != suffix[i] {
            assert(s@.subrange(start as int, end as int).skip((end - start) - k)[i as int] == s@[base + i]);
            return false;
        }
        i = i + 1;
    }
    assert(s@.subrange(start as int, end as int).skip((end - start) - k) =~= suffix@);
    true
}

/// The end of `s[start..end]` once `suffix` is taken off it as often as it ends it.
fn strip_suffixes_end(s: &Vec<char>, start: usize, end: usize, suffix: &Vec<char>) -> (r: usize)
    requires
        start <= end <= s@.len(),
        suffix@.len() > 0,
    ensures
        start <= r <= end,
        s@.subrange(start as int, r as int) == strip_suffixes(s@.subrange(start as int, end as int), suffix@),
{
    let mut e = end;
    while ends_with_at(s, start, e, suffix)
        invariant
            start <= e <= end <= s@.len(),
            suffix@.len() > 0,
            strip_suffixes(s@.subrange(start as int, e as int), suffix@) == strip_suffixes(
                s@.subrange(start as int, end as int),
                suffix@,
            ),
        decreases e,
    {
        let ghost t = s@.subrange(start as int, e as int);
        e = e - suffix.len();
        assert(t.take(t.len() - suffix@.len()) =~= s@.subrange(start as int, e as int));
    }
    e
}

/// A string of the characters `chars[start..end]`.
fn string_between(chars: &Vec<char>, start: usize, end: usize) -> (r: String)
    requires
        start <= end <= chars@.len(),
    ensures
        r@ == chars@.subrange(start as int, end as int),
{
    let mut out = String::new();
    let mut i = start;
    while i < end
        invariant
            start <= i <= end <= chars@.len(),
            out@ == chars@.subrange(start as int, i as int),
        decreases end - i,
    {
        push_char(&mut out, chars[i]);
        i = i + 1;
        assert(out@ =~= chars@.subrange(start as int, i as int));
    }
    out
}

/// The first `n` characters of `s`, or all of them when it is shorter.
fn take_chars(s: &str, n: usize) -> (r: String)
    ensures
        r@ == (if s@.len() <= n { s@ } else { s@.take(n as int) }),
{
    let len = s.unicode_len();
    let mut out = String::new();
    let mut i: usize = 0;
    while i < len && i < n
        invariant
            len == s@.len(),
            i <= len,
            i <= n,
            out@ == s@.take(i as int),
        decreases len - i,
    {
        push_char(&mut out, s.get_char(i));
        i = i + 1;
        assert(out@ =~= s@.take(i as int));
    }
    if len <= n {
        assert(s@.take(len as int) =~= s@);
    }
    out
}

/// The public base64 destination of `pub_b64`, without whitespace around
/// it and without its `.b64.i2p` or `.i2p` endings, in the standard alphabet.
pub open spec fn destination_b64(pub_b64: Seq<char>) -> Seq<char> {
    i2p_alphabet_fixed(trimmed(strip_suffixes(strip_suffixes(trimmed(pub_b64), ".b64.i2p"@), ".i2p"@)))
}

/// The `.b32.i2p` address of a destination: the lowercased base32 of the
/// SHA-256 of its bytes, cut to 52 characters.
pub open spec fn b32_address_of(destination: Seq<u8>) -> Seq<char> {
    let b32 = lowercase_of(base32_nopad_encoded(sha256_of(destination)));
    (if b32.len() <= 52 { b32 } else { b32.take(52) }) + ".b32.i2p"@
}

/// The `.b32.i2p` address of an I2P destination given in base64; an error
/// when the text is not base64.
pub fn b32_from_pub_b64(pub_b64: &str) -> (r: Result<I2PAddress, Base64Error>)
    ensures
        match base64_std_decoded(destination_b64(pub_b64@)) {
            None => r == Err::<I2PAddress, Base64Error>(Base64Error::InvalidBase64),
            Some(bytes) => r matches Ok(a) && a@ == b32_address_of(bytes),
        },
{
    let chars = chars_of(pub_b64);
    let (start, end) = trim_bounds(&chars);
    let long_suffix = chars_of(".b64.i2p");
    let short_suffix = chars_of(".i2p");
    proof {
        reveal_strlit(".b64.i2p");
        reveal_strlit(".i2p");
    }
    let e1 = strip_suffixes_end(&chars, start, end, &long_suffix);
    let e2 = strip_suffixes_end(&chars, start, e1, &short_suffix);
    let b64 = string_between(&chars, start, e2);
    let fixed = i2p_b64_fix(b64.as_str());
    let decoded = match base64_std_decode(fixed.as_str()) {
        Some(d) => d,
        None => return Err(Base64Error::InvalidBase64),
    };
    let hash = sha256_digest(decoded.as_slice());
    let b32 = base32_nopad_encode(hash.as_slice());
    let lower = unicode_lowercase(b32.as_str());
    let mut address = take_chars(lower.as_str(), 52);
    address.append(".b32.i2p");
    Ok(I2PAddress::new(address))
}


/// The language of a content.
#[derive(Debug, Clone, Copy, PartialEq, Eq, Structural)]
pub enum Language {
    Japanese,
    English,
    French,
    Portuguese,
    Unknown,
}

impl Language {
    pub open spec fn spec_code(self) -> u8 {
        match self {
            Language::Japanese => 0,
            Language::English => 1,
            Language::French => 2,
            Language::Portuguese => 3,
            Language::Unknown => 4,
        }
    }

    /// The language's number.
    pub fn code(&self) -> (r: u8)
        ensures
            r == self.spec_code(),
    {
        match self {
            Language::Japanese => 0,
            Language::English => 1,
            Language::French => 2,
            Language::Portuguese => 3,
            Language::Unknown => 4,
        }
    }

    /// The language with the given number, if any.
    pub fn from_code(code: u8) -> (r: Option<Language>)
        ensures
            code <= 4 ==> (r matches Some(l) && l.spec_code() == code),
            code > 4 ==> r is None,
    {
        match code {
            0 => Some(Language::Japanese),
            1 => Some(Language::English),
            2 => Some(Language::French),
            3 => Some(Language::Portuguese),
            4 => Some(Language::Unknown),
            _ => None,
        }
    }
}

impl Byteable for Language {
    type Model = Language;

    open spec fn model(&self) -> Language {
        *self
    }

    open spec fn wire_valid(m: Language) -> bool {
        true
    }

    /// The language's number as one byte.
    open spec fn spec_encode(m: Language) -> Result<Seq<u8>, EncodeError> {
        Ok(seq![m.spec_code()])
    }

    open spec fn spec_decode(b: Seq<u8>) -> Result<(Language, nat), DecodeFault> {
        if b.len() < 1 {
            Err(DecodeFault::UnexpectedEof)
        } else if b[0] <= 4 {
            Ok((
                if b[0] == 0 {
                    Language::Japanese
                } else if b[0] == 1 {
                    Language::English
                } else if b[0] == 2 {
                    Language::French
                } else if b[0] == 3 {
                    Language::Portuguese
                } else {
                    Language::Unknown
                },
                1,
            ))
        } else {
            Err(DecodeFault::InvalidEnumVariant { variant_value: decimal(b[0] as nat), enum_name: "Language"@ })
        }
    }

    fn encode(&self, out: &mut Vec<u8>) -> (r: Result<(), EncodeError>) {
        out.push(self.code());
        assert(out@ =~= old(out)@ + seq![self.spec_code()]);
        Ok(())
    }

    fn decode(bytes: &[u8], pos: usize) -> (r: Result<(Language, usize), DecodeError>) {
        if bytes.len() - pos < 1 {
            return Err(DecodeError::UnexpectedEof);
        }
        let v = bytes[pos];
        match Language::from_code(v) {
            Some(l) => Ok((l, pos + 1)),
            None => Err(DecodeError::InvalidEnumVariant { variant_value: decimal_string(v as u64), enum_name: "Language" }),
        }
    }

    proof fn lemma_roundtrip(m: Language, rest: Seq<u8>) {
    }

    proof fn lemma_decode_bound(b: Seq<u8>) {
    }
}

} // verus!
