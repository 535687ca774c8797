//! The request line of the dry-run IPC endpoint: `{tx_b64};{override_objects_b64}`,
//! with surrounding whitespace ignored.

use vstd::prelude::*;
use vstd::string::{StrSliceExecFns, StringExecFns};

use crate::lookup::{first_match, lemma_first_match_at, lemma_first_match_none};

verus! {

/// The characters of `text`, in order.
pub fn chars_of(text: &str) -> (chars: Vec<char>)
    ensures
        chars@ == text@,
{
    let mut chars: Vec<char> = Vec::new();
    for c in it: text.chars()
        invariant
            chars@ == it.seq().take(it.index() as int),
    {
        chars.push(c);
    }
    chars
}

/// Whether `c` is white space in the Unicode sense (the `White_Space`
/// property), which is what surrounding white space is trimmed by.
pub open spec fn is_white_space(c: char) -> bool {
    let v = c as u32;
    ||| 0x09 <= v <= 0x0d
    ||| v == 0x20
    ||| v == 0x85
    ||| v == 0xa0
    ||| v == 0x1680
    ||| 0x2000 <= v <= 0x200a
    ||| v == 0x2028
    ||| v == 0x2029
    ||| v == 0x202f
    ||| v == 0x205f
    ||| v == 0x3000
}

/// Whether `c` is white space (see [`is_white_space`]).
pub fn is_whitespace(c: char) -> (b: bool)
    ensures
        b == is_white_space(c),
{
    let v = c as u32;
    (0x09 <= v && v <= 0x0d) || v == 0x20 || v == 0x85 || v == 0xa0 || v == 0x1680 || (0x2000 <= v
        && v <= 0x200a) || v == 0x2028 || v == 0x2029 || v == 0x202f || v == 0x205f || v == 0x3000
}

/// `s` without its leading white space.
pub open spec fn trim_start(s: Seq<char>) -> Seq<char>
    decreases s.len(),
{
    if s.len() > 0 && is_white_space(s[0]) {
        trim_start(s.drop_first())
    } else {
        s
    }
}

/// `s` without its trailing white space.
pub open spec fn trim_end(s: Seq<char>) -> Seq<char>
    decreases s.len(),
{
    if s.len() > 0 && is_white_space(s.last()) {
        trim_end(s.drop_last())
    } else {
        s
    }
}

/// `s` without its leading and trailing white space.
pub open spec fn trim(s: Seq<char>) -> Seq<char> {
    trim_end(trim_start(s))
}

/// The separator between the two parts of a request.
pub open spec fn is_separator() -> spec_fn(char) -> bool {
    |c: char| c == ';'
}

/// Whether fastcrypto's `Base64` accepts `text` as a Base64 encoding.
pub uninterp spec fn base64_accepts(text: Seq<char>) -> bool;

/// Why a request line was refused.
#[derive(Clone, Copy, Debug, PartialEq, Eq, Structural)]
pub enum RequestError {
    /// The line has no `;` between its two parts.
    MissingSeparator,
    /// The transaction part is not valid Base64.
    InvalidTransaction,
    /// The override-objects part is not valid Base64.
    InvalidOverrideObjects,
}

/// A dry-run request: a transaction and the objects that override the
/// store's, both Base64-encoded.
#[derive(Clone, Debug, PartialEq, Eq)]
pub struct IpcRequest {
    pub tx: String,
    pub override_objects: String,
}

/// What a request line parses to: the text before the first `;` of the
/// trimmed line and the text after it, each of which must be Base64.
pub open spec fn spec_parse_request(line: Seq<char>) -> Result<(Seq<char>, Seq<char>), RequestError> {
    let t = trim(line);
    match first_match(t, is_separator()) {
        None => Err(RequestError::MissingSeparator),
        Some(i) => {
            let tx = t.take(i);
            let override_objects = t.skip(i + 1);
            if !base64_accepts(tx) {
                Err(RequestError::InvalidTransaction)
            } else if !base64_accepts(override_objects) {
                Err(RequestError::InvalidOverrideObjects)
            } else {
                Ok((tx, override_objects))
            }
        },
    }
}

/// Whether fastcrypto's `Base64::try_from` accepts `text`.
///
/// Trusted: `Base64::try_from(String)` decodes the text with `base64ct`'s
/// standard padded alphabet and succeeds exactly when that decoding does;
/// which texts decode is named by `base64_accepts`, not stated.
#[verifier::external_body]
fn base64_try_from(text: &String) -> (ok: bool)
    ensures
        ok == base64_accepts(text@),
{
    fastcrypto::encoding::Base64::try_from(text.clone()).is_ok()
}

/// The bounds `(start, end)` of `chars` without its leading and trailing
/// white space.
fn trim_bounds(chars: &Vec<char>) -> (r: (usize, usize))
    ensures
        r.0 <= r.1 <= chars@.len(),
        trim(chars@) == chars@.subrange(r.0 as int, r.1 as int),
{
    let n = chars.len();
    let mut start: usize = 0;
    assert(chars@.skip(0) =~= chars@);
    loop
        invariant
            n == chars@.len(),
            start <= n,
            trim_start(chars@) == trim_start(chars@.skip(start as int)),
        ensures
            start <= n,
            trim_start(chars@) == chars@.skip(start as int),
        decreases n - start,
    {
        if start == n || !is_whitespace(chars[start]) {
            break;
        }
        assert(chars@.skip(start as int).drop_first() =~= chars@.skip(start + 1));
        start = start + 1;
    }
    let mut end: usize = n;
    assert(chars@.skip(start as int) =~= chars@.subrange(start as int, n as int));
    loop
        invariant
            n == chars@.len(),
            start <= end <= n,
            trim_end(chars@.subrange(start as int, n as int)) == trim_end(
                chars@.subrange(start as int, end as int),
            ),
        ensures
            start <= end <= n,
            trim_end(chars@.subrange(start as int, n as int)) == chars@.subrange(
                start as int,
                end as int,
            ),
        decreases end - start,
    {
        if end == start || !is_whitespace(chars[end - 1]) {
            break;
        }
        assert(chars@.subrange(start as int, end as int).drop_last() =~= chars@.subrange(
            start as int,
            end - 1,
        ));
        end = end - 1;
    }
    (start, end)
}

/// Parses a request line `{tx_b64};{override_objects_b64}`: the line is
/// trimmed of surrounding white space and split at its first `;`, and both
/// parts must be Base64.
pub fn parse_request(line: &str) -> (r: Result<IpcRequest, RequestError>)
    ensures
        match r {
            Ok(request) => spec_parse_request(line@) == Ok::<(Seq<char>, Seq<char>), RequestError>(
                (request.tx@, request.override_objects@),
            ),
            Err(e) => spec_parse_request(line@) == Err::<(Seq<char>, Seq<char>), RequestError>(e),
        },
{
    let chars = chars_of(line);
    let (start, end) = trim_bounds(&chars);
    let ghost t = chars@.subrange(start as int, end as int);
    let mut k: usize = start;
    loop
        invariant
            start <= k <= end <= chars@.len(),
            t == chars@.subrange(start as int, end as int),
            forall|j: int| 0 <= j < k - start ==> !is_separator()(#[trigger] t[j]),
        ensures
            start <= k <= end,
            forall|j: int| 0 <= j < k - start ==> !is_separator()(#[trigger] t[j]),
            k < end ==> chars@[k as int] == ';',
        decreases end - k,
    {
        if k == end || chars[k] == ';' {
            break;
        }
        k = k + 1;
    }
    if k == end {
        proof {
            lemma_first_match_none(t, is_separator());
        }
        return Err(RequestError::MissingSeparator);
    }
    proof {
        lemma_first_match_at(t, is_separator(), k - start);
        assert(t.take(k - start) =~= chars@.subrange(start as int, k as int));
        assert(t.skip(k - start + 1) =~= chars@.subrange(k + 1, end as int));
    }
    let tx = String::from_str(line.substring_char(start, k));
    let override_objects = String::from_str(line.substring_char(k + 1, end));
    if !base64_try_from(&tx) {
        return Err(RequestError::InvalidTransaction);
    }
    if !base64_try_from(&override_objects) {
        return Err(RequestError::InvalidOverrideObjects);
    }
    Ok(IpcRequest { tx, override_objects })
}

} // verus!

