//! Finding a signature in an image, and following the call that stands
//! behind a hit.

use vstd::prelude::*;
use vstd::slice::slice_subrange;
use vstd::string::StringSliceAdditionalSpecFns;

use crate::pattern::{
    compile, is_scan_result, lemma_token_count, matches_at, no_match, parse, Token, MAX_TOKENS,
};

verus! {

/// Length of a near call or jump: one opcode byte and a 32-bit displacement.
pub const CALL_LEN: usize = 5;

/// Why a scan gave no address.
#[derive(Clone, Copy, Debug, PartialEq, Eq, Structural)]
pub enum ScanError {
    /// The text is not a signature.
    InvalidPattern,
    /// The signature has more than `MAX_TOKENS` tokens.
    PatternTooLong,
    /// The signature matches nowhere in the image.
    NotFound,
    /// The image ends before the five bytes behind the hit do.
    TruncatedCall,
    /// The call's target lies before the image's start or behind its end.
    TargetOutOfBounds,
    /// The anchor of an anchored scan lies outside the image.
    AnchorOutOfBounds,
}

/// The error of the outside scanner. Nothing of it is read.
#[verifier::external_type_specification]
#[verifier::external_body]
pub struct ExPatternscanError(patternscan::Error);

/// A hit as the image allows it: kept where the whole signature lies inside
/// the first `image_len` bytes, dropped where it would run past them.
pub open spec fn confined(hit: Option<usize>, image_len: int, width: int) -> Option<usize> {
    match hit {
        Some(at) => if at + width <= image_len {
            Some(at)
        } else {
            None
        },
        None => None,
    }
}

/// Drops a hit that would run past the end of the image.
pub fn confine(hit: Option<usize>, image_len: usize, width: usize) -> (kept: Option<usize>)
    ensures
        kept == confined(hit, image_len as int, width as int),
{
    match hit {
        Some(at) => if at <= image_len && image_len - at >= width {
            Some(at)
        } else {
            None
        },
        None => None,
    }
}

/// What the outside scanner answers for a signature of at most
/// `MAX_TOKENS` tokens: it succeeds, and its hit, once confined to the
/// image, is the lowest offset at which the signature matches, or nothing
/// where it matches nowhere. Of other text nothing is said.
pub open spec fn outside_answer(
    image: Seq<u8>,
    text: Seq<u8>,
    found: Result<Option<usize>, patternscan::Error>,
) -> bool {
    match parse(text) {
        Some(tokens) => tokens.len() <= MAX_TOKENS ==> (found matches Ok(hit) && is_scan_result(
            image,
            tokens,
            confined(hit, image.len() as int, tokens.len() as int),
        )),
        None => true,
    }
}

/// `patternscan::scan_first_match` on an image held in memory.
///
/// Trusted; this is what its contract rests on. For text in the grammar
/// of this crate the scanner reads the same tokens: it splits at ASCII
/// whitespace, takes `?` for a wildcard and every other piece for a byte
/// in hexadecimal. It refuses more than `MAX_TOKENS` tokens and nothing
/// shorter, and reading from memory cannot fail. It then walks the image
/// in rising offsets and compares every offset at which the signature
/// still fits with the image's own bytes. Behind those offsets it goes on
/// comparing with what its buffer holds past the data, so it may report an
/// offset at which the signature runs over the end. Hence the claim, for a
/// signature of at most `MAX_TOKENS` tokens: the call succeeds, and its
/// hit, once one that runs over the end is dropped, is the lowest offset
/// at which the signature matches, or nothing where it matches nowhere.
#[verifier::external_body]
fn scan_first_match(image: &[u8], pattern: &str) -> (found: Result<Option<usize>, patternscan::Error>)
    ensures
        outside_answer(image@, pattern.spec_bytes(), found),
{
    patternscan::scan_first_match(std::io::Cursor::new(image), pattern)
}

/// Whether `at` is the lowest offset not below `from` at which the
/// signature matches.
pub open spec fn is_first_match_after(image: Seq<u8>, from: int, tokens: Seq<Token>, at: int) -> bool {
    &&& from <= at
    &&& matches_at(image, tokens, at)
    &&& forall|k: int| from <= k < at ==> !matches_at(image, tokens, k)
}

/// The lowest offset not below `from` at which the signature matches, or
/// `None` where it matches at no such offset.
pub open spec fn first_match_after(image: Seq<u8>, from: int, tokens: Seq<Token>) -> Option<int> {
    if exists|at: int| is_first_match_after(image, from, tokens, at) {
        Some(choose|at: int| is_first_match_after(image, from, tokens, at))
    } else {
        None
    }
}

/// The lowest offset at which the signature matches, or `None` where it
/// matches nowhere.
pub open spec fn first_match(image: Seq<u8>, tokens: Seq<Token>) -> Option<int> {
    first_match_after(image, 0, tokens)
}

/// `first_match_after` names the first match: what it gives matches, nothing
/// between `from` and it does, and where it gives nothing, nothing matches
/// from `from` on.
pub proof fn lemma_first_match_after(image: Seq<u8>, from: int, tokens: Seq<Token>)
    ensures
        match first_match_after(image, from, tokens) {
            Some(at) => is_first_match_after(image, from, tokens, at),
            None => forall|k: int| from <= k ==> !matches_at(image, tokens, k),
        },
{
    if first_match_after(image, from, tokens) is None {
        assert forall|k: int| from <= k implies !matches_at(image, tokens, k) by {
            if matches_at(image, tokens, k) {
                lemma_lowest(image, from, tokens, k, k);
            }
        }
    }
}

/// A match at `hit` with nothing matching in `from..low` leaves a first
/// match to be found in `low..=hit`.
proof fn lemma_lowest(image: Seq<u8>, from: int, tokens: Seq<Token>, hit: int, low: int)
    requires
        from <= low <= hit,
        matches_at(image, tokens, hit),
        forall|k: int| low <= k < hit ==> !matches_at(image, tokens, k),
    ensures
        exists|at: int| is_first_match_after(image, from, tokens, at),
    decreases low - from,
{
    if low == from {
        assert(is_first_match_after(image, from, tokens, hit));
    } else if matches_at(image, tokens, low - 1) {
        lemma_lowest(image, from, tokens, low - 1, low - 1);
    } else {
        lemma_lowest(image, from, tokens, hit, low - 1);
    }
}

/// There is one first match at most.
pub proof fn lemma_first_match_unique(image: Seq<u8>, from: int, tokens: Seq<Token>, a: int, b: int)
    requires
        is_first_match_after(image, from, tokens, a),
        is_first_match_after(image, from, tokens, b),
    ensures
        a == b,
{
    if a < b {
        assert(!matches_at(image, tokens, a));
    } else if b < a {
        assert(!matches_at(image, tokens, b));
    }
}

/// A wildcard stands for any byte: a signature of wildcards alone matches
/// at the start of every image that has room for it.
pub proof fn lemma_wildcards_match_anything(image: Seq<u8>, tokens: Seq<Token>)
    requires
        tokens.len() <= image.len(),
        forall|j: int| 0 <= j < tokens.len() ==> tokens[j] == Token::Any,
    ensures
        first_match(image, tokens) == Some(0int),
{
    assert(is_first_match_after(image, 0, tokens, 0));
    lemma_first_match_after(image, 0, tokens);
    lemma_first_match_unique(image, 0, tokens, 0, first_match(image, tokens)->0);
}

/// A signature of bytes alone matches exactly where the image holds those
/// bytes.
pub proof fn lemma_bytes_match_themselves(image: Seq<u8>, tokens: Seq<Token>, bytes: Seq<u8>, at: int)
    requires
        bytes.len() == tokens.len(),
        forall|j: int| 0 <= j < tokens.len() ==> tokens[j] == Token::Byte(bytes[j]),
        0 <= at,
        at + tokens.len() <= image.len(),
    ensures
        matches_at(image, tokens, at) <==> image.subrange(at, at + tokens.len()) == bytes,
{
    let part = image.subrange(at, at + tokens.len());
    if matches_at(image, tokens, at) {
        assert forall|j: int| 0 <= j < bytes.len() implies part[j] == bytes[j] by {
            assert(tokens[j].accepts(image[at + j]));
        }
        assert(part =~= bytes);
    }
    if part == bytes {
        assert forall|j: int| 0 <= j < tokens.len() implies (#[trigger] tokens[j]).accepts(
            image[at + j],
        ) by {
            assert(part[j] == image[at + j]);
        }
    }
}

/// An offset found, or its absence, as a machine number.
pub open spec fn as_offset(found: Option<int>) -> Option<usize> {
    match found {
        Some(at) => Some(at as usize),
        None => None,
    }
}

/// What `find_first_after` gives: an anchor behind the image's end is
/// refused, then text that is no signature, then a signature too long to
/// scan for; else the first match at or behind `from`, if there is one.
pub open spec fn spec_find_after(image: Seq<u8>, from: int, text: Seq<u8>) -> Result<
    Option<usize>,
    ScanError,
> {
    if from > image.len() {
        Err(ScanError::AnchorOutOfBounds)
    } else {
        match parse(text) {
            None => Err(ScanError::InvalidPattern),
            Some(tokens) => if tokens.len() > MAX_TOKENS {
                Err(ScanError::PatternTooLong)
            } else {
                Ok(as_offset(first_match_after(image, from, tokens)))
            },
        }
    }
}

/// What `find_first` gives: the first match of the signature, if there is
/// one, and an error for text that is no signature or is too long.
pub open spec fn spec_find(image: Seq<u8>, text: Seq<u8>) -> Result<Option<usize>, ScanError> {
    spec_find_after(image, 0, text)
}

/// A scan's answer where a missing match is an error too.
pub open spec fn found_or_error(found: Result<Option<usize>, ScanError>) -> Result<usize, ScanError> {
    match found {
        Ok(Some(at)) => Ok(at),
        Ok(None) => Err(ScanError::NotFound),
        Err(e) => Err(e),
    }
}

/// What `locate` gives.
pub open spec fn spec_locate(image: Seq<u8>, text: Seq<u8>) -> Result<usize, ScanError> {
    found_or_error(spec_find(image, text))
}

/// What `locate_after` gives.
pub open spec fn spec_locate_after(image: Seq<u8>, from: int, text: Seq<u8>) -> Result<
    usize,
    ScanError,
> {
    found_or_error(spec_find_after(image, from, text))
}

/// Scans `image` for `pattern` and gives the hit with the signature's
/// length in tokens.
fn hit_and_width(image: &[u8], pattern: &str) -> (found: Result<(Option<usize>, usize), ScanError>)
    ensures
        spec_find(image@, pattern.spec_bytes()) == match found {
            Ok((hit, _)) => Ok::<Option<usize>, ScanError>(hit),
            Err(e) => Err(e),
        },
        found matches Ok((hit, width)) ==> width == parse(pattern.spec_bytes())->0.len() && (hit matches Some(
            at,
        ) ==> at + width <= image@.len()),
{
    let tokens: Vec<Token> = match compile(pattern) {
        Some(tokens) => tokens,
        None => {
            return Err(ScanError::InvalidPattern);
        },
    };
    if tokens.len() > MAX_TOKENS {
        return Err(ScanError::PatternTooLong);
    }
    match scan_first_match(image, pattern) {
        Ok(hit) => {
            let kept = confine(hit, image.len(), tokens.len());
            proof {
                lemma_first_match_after(image@, 0, tokens@);
                if let Some(at) = kept {
                    let first = first_match_after(image@, 0, tokens@);
                    assert(is_first_match_after(image@, 0, tokens@, at as int));
                    lemma_first_match_unique(image@, 0, tokens@, at as int, first->0);
                } else {
                    assert(no_match(image@, tokens@));
                    if let Some(at) = first_match_after(image@, 0, tokens@) {
                        assert(!matches_at(image@, tokens@, at));
                    }
                }
            }
            Ok((kept, tokens.len()))
        },
        Err(_) => {
            assert(false);
            Err(ScanError::InvalidPattern)
        },
    }
}

/// Scans `image` for the first match of `pattern`.
///
/// The pattern is checked before anything is scanned. For a signature the
/// result is the lowest offset at which it matches, `None` where it matches
/// nowhere.
pub fn find_first(image: &[u8], pattern: &str) -> (found: Result<Option<usize>, ScanError>)
    ensures
        found == spec_find(image@, pattern.spec_bytes()),
{
    match hit_and_width(image, pattern) {
        Ok((hit, _)) => Ok(hit),
        Err(e) => Err(e),
    }
}

/// Scans `image` from offset `from` on for the first match of `pattern`.
///
/// Matches that start below `from` do not count. The offset returned is
/// counted from the start of the image.
pub fn find_first_after(image: &[u8], from: usize, pattern: &str) -> (found: Result<Option<usize>, ScanError>)
    ensures
        found == spec_find_after(image@, from as int, pattern.spec_bytes()),
{
    if from > image.len() {
        return Err(ScanError::AnchorOutOfBounds);
    }
    let window = slice_subrange(image, from, image.len());
    match hit_and_width(window, pattern) {
        Ok((hit, _)) => {
            proof {
                let tokens = parse(pattern.spec_bytes())->0;
                lemma_window(image@, from as int, tokens);
                lemma_first_match_after(window@, 0, tokens);
                lemma_first_match_after(image@, from as int, tokens);
                let whole = first_match_after(image@, from as int, tokens);
                match hit {
                    Some(at) => {
                        assert(is_first_match_after(image@, from as int, tokens, from + at)) by {
                            assert forall|k: int| from <= k < from + at implies !matches_at(
                                image@,
                                tokens,
                                k,
                            ) by {
                                assert(!matches_at(window@, tokens, k - from));
                            }
                        }
                        lemma_first_match_unique(image@, from as int, tokens, from + at, whole->0);
                    },
                    None => {
                        if let Some(at) = whole {
                            assert(!matches_at(window@, tokens, at - from));
                        }
                    },
                }
            }
            match hit {
                Some(at) => Ok(Some(from + at)),
                None => Ok(None),
            }
        },
        Err(e) => Err(e),
    }
}

/// A signature matches the tail of an image at `k` exactly where it matches
/// the image at `from + k`.
pub proof fn lemma_window(image: Seq<u8>, from: int, tokens: Seq<Token>)
    requires
        0 <= from <= image.len(),
    ensures
        forall|k: int|
            0 <= k ==> (#[trigger] matches_at(image.subrange(from, image.len() as int), tokens, k)
                == matches_at(image, tokens, from + k)),
        forall|k: int|
            from <= k ==> (#[trigger] matches_at(image, tokens, k) == matches_at(
                image.subrange(from, image.len() as int),
                tokens,
                k - from,
            )),
{
    let tail = image.subrange(from, image.len() as int);
    assert forall|k: int| 0 <= k implies (#[trigger] matches_at(tail, tokens, k) == matches_at(
        image,
        tokens,
        from + k,
    )) by {
        if k + tokens.len() <= tail.len() {
            if matches_at(tail, tokens, k) {
                assert forall|j: int| 0 <= j < tokens.len() implies (#[trigger] tokens[j]).accepts(
                    image[from + k + j],
                ) by {
                    assert(tail[k + j] == image[from + k + j]);
                }
            }
            if matches_at(image, tokens, from + k) {
                assert forall|j: int| 0 <= j < tokens.len() implies (#[trigger] tokens[j]).accepts(
                    tail[k + j],
                ) by {
                    assert(tail[k + j] == image[from + k + j]);
                }
            }
        }
    }
    assert forall|k: int| from <= k implies (#[trigger] matches_at(image, tokens, k) == matches_at(
        tail,
        tokens,
        k - from,
    )) by {
        assert(matches_at(tail, tokens, k - from) == matches_at(image, tokens, from + (k - from)));
    }
}

/// The four bytes from `at` on, read as a little-endian two's complement
/// number.
pub open spec fn displacement(image: Seq<u8>, at: int) -> int
    recommends
        0 <= at,
        at + 4 <= image.len(),
{
    let raw = image[at] + 0x100 * image[at + 1] + 0x1_0000 * image[at + 2] + 0x100_0000 * image[at
        + 3];
    if raw < 0x8000_0000 {
        raw
    } else {
        raw - 0x1_0000_0000
    }
}

/// Where the call behind a hit leads, as an offset into the image.
///
/// The five bytes that follow the `width` bytes of the hit are taken for a
/// near call or jump. Its target is the hit's offset plus five plus the
/// displacement. A call that the image cuts short, or a target outside
/// the image, is an error.
pub open spec fn call_target(image: Seq<u8>, hit: int, width: int) -> Result<usize, ScanError> {
    let call = hit + width;
    if call + CALL_LEN > image.len() {
        Err(ScanError::TruncatedCall)
    } else {
        let target = hit + CALL_LEN + displacement(image, call + 1);
        if 0 <= target < image.len() {
            Ok(target as usize)
        } else {
            Err(ScanError::TargetOutOfBounds)
        }
    }
}

/// Reads the displacement of the call that starts at `call`.
fn read_displacement(image: &[u8], call: usize) -> (d: i64)
    requires
        call + CALL_LEN <= image.len(),
    ensures
        d == displacement(image@, call + 1),
        -0x8000_0000 <= d < 0x8000_0000,
{
    let b0: i64 = image[call + 1] as i64;
    let b1: i64 = image[call + 2] as i64;
    let b2: i64 = image[call + 3] as i64;
    let b3: i64 = image[call + 4] as i64;
    let raw: i64 = b0 + 0x100 * b1 + 0x1_0000 * b2 + 0x100_0000 * b3;
    if raw < 0x8000_0000 {
        raw
    } else {
        raw - 0x1_0000_0000
    }
}

/// Follows the call behind a hit of `width` bytes at offset `hit`.
///
/// The opcode byte is not looked at: that a call or jump stands there is
/// for the signature's author to see to.
pub fn resolve_call(image: &[u8], hit: usize, width: usize) -> (target: Result<usize, ScanError>)
    ensures
        target == call_target(image@, hit as int, width as int),
{
    let n: usize = image.len();
    if hit > n || n - hit < width || n - hit - width < CALL_LEN {
        return Err(ScanError::TruncatedCall);
    }
    let d: i64 = read_displacement(image, hit + width);
    let target: i128 = hit as i128 + 5 + d as i128;
    if 0 <= target && target < n as i128 {
        Ok(target as usize)
    } else {
        Err(ScanError::TargetOutOfBounds)
    }
}

/// What `locate_callsite` gives: the target of the call behind the first
/// match, and an error where there is no match, where the image cuts the
/// call short or where the target lies outside the image.
pub open spec fn spec_locate_callsite(image: Seq<u8>, text: Seq<u8>) -> Result<usize, ScanError> {
    match parse(text) {
        None => Err(ScanError::InvalidPattern),
        Some(tokens) => if tokens.len() > MAX_TOKENS {
            Err(ScanError::PatternTooLong)
        } else {
            match first_match(image, tokens) {
                Some(at) => call_target(image, at, tokens.len() as int),
                None => Err(ScanError::NotFound),
            }
        },
    }
}

/// The offset of the first match of `pattern` in `image`.
pub fn locate(image: &[u8], pattern: &str) -> (offset: Result<usize, ScanError>)
    ensures
        offset == spec_locate(image@, pattern.spec_bytes()),
        offset matches Ok(at) ==> at < image@.len(),
{
    match hit_and_width(image, pattern) {
        Ok((Some(at), _)) => Ok(at),
        Ok((None, _)) => Err(ScanError::NotFound),
        Err(e) => Err(e),
    }
}

/// The offset of the first match of `pattern` in `image` at or behind
/// `from`.
pub fn locate_after(image: &[u8], from: usize, pattern: &str) -> (offset: Result<usize, ScanError>)
    ensures
        offset == spec_locate_after(image@, from as int, pattern.spec_bytes()),
        offset matches Ok(at) ==> at < image@.len(),
{
    match find_first_after(image, from, pattern) {
        Ok(Some(at)) => {
            proof {
                let tokens = parse(pattern.spec_bytes())->0;
                lemma_first_match_after(image@, from as int, tokens);
                lemma_token_count(pattern.spec_bytes(), 0);
            }
            Ok(at)
        },
        Ok(None) => Err(ScanError::NotFound),
        Err(e) => Err(e),
    }
}

/// The target of the call that follows the first match of `pattern` in
/// `image`.
pub fn locate_callsite(image: &[u8], pattern: &str) -> (offset: Result<usize, ScanError>)
    ensures
        offset == spec_locate_callsite(image@, pattern.spec_bytes()),
        offset matches Ok(target) ==> target < image@.len(),
{
    match hit_and_width(image, pattern) {
        Ok((Some(at), width)) => {
            let n: usize = image.len();
            proof {
                let tokens = parse(pattern.spec_bytes())->0;
                lemma_first_match_after(image@, 0, tokens);
                assert(first_match(image@, tokens) == Some(at as int));
            }
            resolve_call(image, at, width)
        },
        Ok((None, _)) => Err(ScanError::NotFound),
        Err(e) => Err(e),
    }
}

} // verus!
