//! The canonical wire format of an authorized request.
//!
//! The wire form is a JSON object with a `function` field (always present),
//! a `fee` field (present exactly when a fee authorization exists), and a
//! `broadcast` field (always present, a boolean). The two authorization
//! payloads are opaque JSON values: this module frames and recovers them
//! without looking inside. Encoding emits the fields in the order
//! `function`, `fee`, `broadcast`, with no whitespace; decoding accepts any
//! field order, tolerates whitespace, ignores unknown fields, and treats an
//! explicit `null` fee as an absent fee.

use vstd::prelude::*;
use crate::errors::CreditsError;

verus! {

pub const QUOTE: u8 = 34;
pub const BSLASH: u8 = 92;
pub const LBRACE: u8 = 123;
pub const RBRACE: u8 = 125;
pub const LBRACK: u8 = 91;
pub const RBRACK: u8 = 93;
pub const COLON: u8 = 58;
pub const COMMA: u8 = 44;

/// JSON insignificant whitespace.
pub open spec fn is_ws(c: u8) -> bool {
    c == 32 || c == 9 || c == 10 || c == 13
}

/// A byte that ends an unquoted (primitive) JSON token.
pub open spec fn is_prim_delim(c: u8) -> bool {
    is_ws(c) || c == COMMA || c == RBRACE || c == RBRACK
}

/// The first index at or after `i` holding a non-whitespace byte, or the
/// length of `s` if there is none.
pub open spec fn skip_ws(s: Seq<u8>, i: int) -> int
    decreases s.len() - i,
{
    if i >= s.len() {
        s.len() as int
    } else if is_ws(s[i]) {
        skip_ws(s, i + 1)
    } else {
        i
    }
}

/// Scans the remainder of a JSON string whose opening quote sits just
/// before `i`; returns the index just after the closing quote.
pub open spec fn string_end(s: Seq<u8>, i: int) -> Option<int>
    decreases s.len() - i,
{
    if i >= s.len() {
        None
    } else if s[i] == QUOTE {
        Some(i + 1)
    } else if s[i] == BSLASH {
        if i + 2 <= s.len() {
            string_end(s, i + 2)
        } else {
            None
        }
    } else {
        string_end(s, i + 1)
    }
}

/// Scans the remainder of a JSON object or array whose opening bracket sits
/// before `i`, `depth` brackets deep, possibly inside a string; returns the
/// index just after the bracket that closes the outermost level.
pub open spec fn container_end(s: Seq<u8>, i: int, depth: int, in_str: bool, esc: bool) -> Option<
    int,
>
    decreases s.len() - i,
{
    if i >= s.len() {
        None
    } else if esc {
        container_end(s, i + 1, depth, in_str, false)
    } else if in_str {
        if s[i] == BSLASH {
            container_end(s, i + 1, depth, true, true)
        } else if s[i] == QUOTE {
            container_end(s, i + 1, depth, false, false)
        } else {
            container_end(s, i + 1, depth, true, false)
        }
    } else if s[i] == QUOTE {
        container_end(s, i + 1, depth, true, false)
    } else if s[i] == LBRACE || s[i] == LBRACK {
        container_end(s, i + 1, depth + 1, false, false)
    } else if s[i] == RBRACE || s[i] == RBRACK {
        if depth <= 1 {
            Some(i + 1)
        } else {
            container_end(s, i + 1, depth - 1, false, false)
        }
    } else {
        container_end(s, i + 1, depth, false, false)
    }
}

/// The first index at or after `i` holding a byte that ends a primitive
/// token, or the length of `s` if there is none.
pub open spec fn prim_end(s: Seq<u8>, i: int) -> int
    decreases s.len() - i,
{
    if i >= s.len() {
        s.len() as int
    } else if is_prim_delim(s[i]) {
        i
    } else {
        prim_end(s, i + 1)
    }
}

/// The index just after the JSON value that starts at `i`, or `None` if no
/// value starts there.
pub open spec fn value_end(s: Seq<u8>, i: int) -> Option<int> {
    if 0 <= i < s.len() {
        if s[i] == QUOTE {
            string_end(s, i + 1)
        } else if s[i] == LBRACE || s[i] == LBRACK {
            container_end(s, i + 1, 1, false, false)
        } else if prim_end(s, i) > i {
            Some(prim_end(s, i))
        } else {
            None
        }
    } else {
        None
    }
}

/// A byte sequence that is one self-contained JSON string, object or array:
/// scanning a value from its first byte consumes exactly the whole sequence.
/// This is the shape of every payload a JSON serializer emits for a struct,
/// and it is what lets the envelope around it be decoded without parsing
/// the payload itself.
pub open spec fn json_payload(s: Seq<u8>) -> bool {
    &&& s.len() > 0
    &&& (s[0] == QUOTE || s[0] == LBRACE || s[0] == LBRACK)
    &&& value_end(s, 0) == Some(s.len() as int)
}

/// Position and character facts about `skip_ws`.
pub proof fn lemma_skip_ws_bounds(s: Seq<u8>, i: int)
    requires
        0 <= i,
    ensures
        skip_ws(s, i) <= s.len(),
        i <= s.len() ==> i <= skip_ws(s, i),
        skip_ws(s, i) < s.len() ==> !is_ws(s[skip_ws(s, i)]),
    decreases s.len() - i,
{
    if i >= s.len() {
    } else if is_ws(s[i]) {
        lemma_skip_ws_bounds(s, i + 1);
    }
}

/// A successful string scan lands strictly ahead, within the input.
pub proof fn lemma_string_end_bounds(s: Seq<u8>, i: int)
    requires
        0 <= i,
    ensures
        string_end(s, i) matches Some(j) ==> i < j <= s.len(),
    decreases s.len() - i,
{
    if i >= s.len() {
    } else if s[i] == QUOTE {
    } else if s[i] == BSLASH {
        if i + 2 <= s.len() {
            lemma_string_end_bounds(s, i + 2);
        }
    } else {
        lemma_string_end_bounds(s, i + 1);
    }
}

/// A successful container scan lands strictly ahead, within the input.
pub proof fn lemma_container_end_bounds(s: Seq<u8>, i: int, depth: int, in_str: bool, esc: bool)
    requires
        0 <= i,
    ensures
        container_end(s, i, depth, in_str, esc) matches Some(j) ==> i < j <= s.len(),
    decreases s.len() - i,
{
    if i >= s.len() {
    } else if esc {
        lemma_container_end_bounds(s, i + 1, depth, in_str, false);
    } else if in_str {
        if s[i] == BSLASH {
            lemma_container_end_bounds(s, i + 1, depth, true, true);
        } else if s[i] == QUOTE {
            lemma_container_end_bounds(s, i + 1, depth, false, false);
        } else {
            lemma_container_end_bounds(s, i + 1, depth, true, false);
        }
    } else if s[i] == QUOTE {
        lemma_container_end_bounds(s, i + 1, depth, true, false);
    } else if s[i] == LBRACE || s[i] == LBRACK {
        lemma_container_end_bounds(s, i + 1, depth + 1, false, false);
    } else if s[i] == RBRACE || s[i] == RBRACK {
        if depth <= 1 {
        } else {
            lemma_container_end_bounds(s, i + 1, depth - 1, false, false);
        }
    } else {
        lemma_container_end_bounds(s, i + 1, depth, false, false);
    }
}

/// The primitive scan lands at or ahead, within the input, on a delimiter
/// or the end.
pub proof fn lemma_prim_end_bounds(s: Seq<u8>, i: int)
    requires
        0 <= i <= s.len(),
    ensures
        i <= prim_end(s, i) <= s.len(),
        prim_end(s, i) < s.len() ==> is_prim_delim(s[prim_end(s, i)]),
    decreases s.len() - i,
{
    if i >= s.len() {
    } else if is_prim_delim(s[i]) {
    } else {
        lemma_prim_end_bounds(s, i + 1);
    }
}

/// A successful value scan lands strictly ahead, within the input.
pub proof fn lemma_value_end_bounds(s: Seq<u8>, i: int)
    requires
        0 <= i,
    ensures
        value_end(s, i) matches Some(w) ==> i < w <= s.len(),
{
    if 0 <= i < s.len() {
        lemma_string_end_bounds(s, i + 1);
        lemma_container_end_bounds(s, i + 1, 1, false, false);
        lemma_prim_end_bounds(s, i);
    }
}

/// A string scan is framed: it reads only the bytes it consumes, so it
/// behaves the same at an offset inside a larger input.
proof fn lemma_string_end_frame(s: Seq<u8>, env: Seq<u8>, off: int, i: int, j: int)
    requires
        0 <= i,
        0 <= off,
        string_end(s, i) == Some(j),
        off + j <= env.len(),
        forall|k: int| i <= k < j ==> env[off + k] == s[k],
    ensures
        string_end(env, off + i) == Some(off + j),
    decreases s.len() - i,
{
    lemma_string_end_bounds(s, i);
    if s[i] == QUOTE {
        assert(env[off + i] == s[i]);
    } else if s[i] == BSLASH {
        lemma_string_end_bounds(s, i + 2);
        assert(env[off + i] == s[i]);
        lemma_string_end_frame(s, env, off, i + 2, j);
    } else {
        lemma_string_end_bounds(s, i + 1);
        assert(env[off + i] == s[i]);
        lemma_string_end_frame(s, env, off, i + 1, j);
    }
}

/// A container scan is framed in the same way.
proof fn lemma_container_end_frame(
    s: Seq<u8>,
    env: Seq<u8>,
    off: int,
    i: int,
    j: int,
    depth: int,
    in_str: bool,
    esc: bool,
)
    requires
        0 <= i,
        0 <= off,
        container_end(s, i, depth, in_str, esc) == Some(j),
        off + j <= env.len(),
        forall|k: int| i <= k < j ==> env[off + k] == s[k],
    ensures
        container_end(env, off + i, depth, in_str, esc) == Some(off + j),
    decreases s.len() - i,
{
    lemma_container_end_bounds(s, i, depth, in_str, esc);
    assert(env[off + i] == s[i]);
    if esc {
        lemma_container_end_frame(s, env, off, i + 1, j, depth, in_str, false);
    } else if in_str {
        if s[i] == BSLASH {
            lemma_container_end_frame(s, env, off, i + 1, j, depth, true, true);
        } else if s[i] == QUOTE {
            lemma_container_end_frame(s, env, off, i + 1, j, depth, false, false);
        } else {
            lemma_container_end_frame(s, env, off, i + 1, j, depth, true, false);
        }
    } else if s[i] == QUOTE {
        lemma_container_end_frame(s, env, off, i + 1, j, depth, true, false);
    } else if s[i] == LBRACE || s[i] == LBRACK {
        lemma_container_end_frame(s, env, off, i + 1, j, depth + 1, false, false);
    } else if s[i] == RBRACE || s[i] == RBRACK {
        if depth <= 1 {
        } else {
            lemma_container_end_frame(s, env, off, i + 1, j, depth - 1, false, false);
        }
    } else {
        lemma_container_end_frame(s, env, off, i + 1, j, depth, false, false);
    }
}

/// A self-contained payload embedded at `off` inside a larger input scans
/// to exactly its own end.
proof fn lemma_value_end_frame(p: Seq<u8>, env: Seq<u8>, off: int)
    requires
        json_payload(p),
        0 <= off,
        off + p.len() <= env.len(),
        forall|k: int| 0 <= k < p.len() ==> env[off + k] == p[k],
    ensures
        value_end(env, off) == Some(off + p.len()),
{
    assert(env[off + 0] == p[0]);
    if p[0] == QUOTE {
        lemma_string_end_frame(p, env, off, 1, p.len() as int);
    } else {
        lemma_container_end_frame(p, env, off, 1, p.len() as int, 1, false, false);
    }
}

/// A quoted run of plain bytes (no quote, no backslash) ending in a quote
/// scans past that closing quote.
proof fn lemma_string_end_simple(s: Seq<u8>, i: int, j: int)
    requires
        0 <= i <= j < s.len(),
        s[j] == QUOTE,
        forall|k: int| i <= k < j ==> s[k] != QUOTE && s[k] != BSLASH,
    ensures
        string_end(s, i) == Some(j + 1),
    decreases j - i,
{
    if i < j {
        lemma_string_end_simple(s, i + 1, j);
    }
}

/// A run of non-delimiter bytes followed by a delimiter (or the end) is one
/// primitive token.
proof fn lemma_prim_run(s: Seq<u8>, i: int, j: int)
    requires
        0 <= i <= j <= s.len(),
        forall|k: int| i <= k < j ==> !is_prim_delim(s[k]),
        j < s.len() ==> is_prim_delim(s[j]),
    ensures
        prim_end(s, i) == j,
    decreases j - i,
{
    if i < j {
        lemma_prim_run(s, i + 1, j);
    }
}

/// The bytes of the key `function`.
pub open spec fn key_function() -> Seq<u8> {
    Seq::new(8, |k: int|
        if k == 0 { 102u8 }  // f
        else if k == 1 { 117u8 }  // u
        else if k == 2 { 110u8 }  // n
        else if k == 3 { 99u8 }  // c
        else if k == 4 { 116u8 }  // t
        else if k == 5 { 105u8 }  // i
        else if k == 6 { 111u8 }  // o
        else { 110u8 }  // n
    )
}

/// The bytes of the key `fee`.
pub open spec fn key_fee() -> Seq<u8> {
    Seq::new(3, |k: int|
        if k == 0 { 102u8 }  // f
        else { 101u8 }  // e e
    )
}

/// The bytes of the key `broadcast`.
pub open spec fn key_broadcast() -> Seq<u8> {
    Seq::new(9, |k: int|
        if k == 0 { 98u8 }  // b
        else if k == 1 { 114u8 }  // r
        else if k == 2 { 111u8 }  // o
        else if k == 3 { 97u8 }  // a
        else if k == 4 { 100u8 }  // d
        else if k == 5 { 99u8 }  // c
        else if k == 6 { 97u8 }  // a
        else if k == 7 { 115u8 }  // s
        else { 116u8 }  // t
    )
}

/// The bytes of the literal `true`.
pub open spec fn lit_true() -> Seq<u8> {
    Seq::new(4, |k: int|
        if k == 0 { 116u8 }  // t
        else if k == 1 { 114u8 }  // r
        else if k == 2 { 117u8 }  // u
        else { 101u8 }  // e
    )
}

/// The bytes of the literal `false`.
pub open spec fn lit_false() -> Seq<u8> {
    Seq::new(5, |k: int|
        if k == 0 { 102u8 }  // f
        else if k == 1 { 97u8 }  // a
        else if k == 2 { 108u8 }  // l
        else if k == 3 { 115u8 }  // s
        else { 101u8 }  // e
    )
}

/// The bytes of the literal `null`.
pub open spec fn lit_null() -> Seq<u8> {
    Seq::new(4, |k: int|
        if k == 0 { 110u8 }  // n
        else if k == 1 { 117u8 }  // u
        else { 108u8 }  // l l
    )
}

/// The bytes `{"function":` that open the envelope.
pub open spec fn prefix_function() -> Seq<u8> {
    seq![LBRACE, QUOTE] + key_function() + seq![QUOTE, COLON]
}

/// The bytes `,"fee":` that precede a present fee payload.
pub open spec fn prefix_fee() -> Seq<u8> {
    seq![COMMA, QUOTE] + key_fee() + seq![QUOTE, COLON]
}

/// The bytes `,"broadcast":` that precede the broadcast flag.
pub open spec fn prefix_broadcast() -> Seq<u8> {
    seq![COMMA, QUOTE] + key_broadcast() + seq![QUOTE, COLON]
}

/// The canonical encoding of an envelope: the `function` payload always,
/// the `fee` payload exactly when one exists (no `fee` key at all
/// otherwise), the `broadcast` flag always, in that order, unpadded.
pub open spec fn spec_encode_envelope(function: Seq<u8>, fee: Option<Seq<u8>>, broadcast: bool) -> Seq<u8> {
    prefix_function() + function + (match fee {
        Some(p) => prefix_fee() + p,
        None => Seq::<u8>::empty(),
    }) + prefix_broadcast() + (if broadcast { lit_true() } else { lit_false() }) + seq![RBRACE]
}

/// Interprets the raw member payloads collected from an envelope object:
/// `function` and `broadcast` must have been seen, `broadcast` must be a
/// boolean literal, and a `fee` of literal `null` counts as absent.
pub open spec fn finalize_members(f: Option<Seq<u8>>, fee: Option<Seq<u8>>, b: Option<Seq<u8>>) -> Option<(Seq<u8>, Option<Seq<u8>>, bool)> {
    match (f, b) {
        (Some(fp), Some(bp)) => {
            if bp == lit_true() || bp == lit_false() {
                let fee2 = match fee {
                    Some(p) => if p == lit_null() { None } else { Some(p) },
                    None => None,
                };
                Some((fp, fee2, bp == lit_true()))
            } else {
                None
            }
        },
        _ => None,
    }
}

/// Parses the members of the envelope object from position `i` (just after
/// `{` or a `,`), accumulating the last-seen payload of each known key and
/// ignoring unknown keys; succeeds only if the object and the input end
/// together.
pub open spec fn parse_members(
    s: Seq<u8>,
    i: int,
    f: Option<Seq<u8>>,
    fee: Option<Seq<u8>>,
    b: Option<Seq<u8>>,
) -> Option<(Seq<u8>, Option<Seq<u8>>, bool)>
    decreases s.len() - i when i >= 0 via parse_members_decreases
{
    let j = skip_ws(s, i);
    if j >= s.len() {
        None
    } else if s[j] == RBRACE {
        if skip_ws(s, j + 1) == s.len() {
            finalize_members(f, fee, b)
        } else {
            None
        }
    } else if s[j] == QUOTE {
        match string_end(s, j + 1) {
            None => None,
            Some(k) => {
                let key = s.subrange(j + 1, k - 1);
                let m = skip_ws(s, k);
                if m < s.len() && s[m] == COLON {
                    let v = skip_ws(s, m + 1);
                    match value_end(s, v) {
                        None => None,
                        Some(w) => {
                            let payload = s.subrange(v, w);
                            let f2 = if key == key_function() { Some(payload) } else { f };
                            let fee2 = if key == key_fee() { Some(payload) } else { fee };
                            let b2 = if key == key_broadcast() { Some(payload) } else { b };
                            let n = skip_ws(s, w);
                            if n < s.len() && s[n] == COMMA {
                                parse_members(s, n + 1, f2, fee2, b2)
                            } else if n < s.len() && s[n] == RBRACE {
                                if skip_ws(s, n + 1) == s.len() {
                                    finalize_members(f2, fee2, b2)
                                } else {
                                    None
                                }
                            } else {
                                None
                            }
                        },
                    }
                } else {
                    None
                }
            },
        }
    } else {
        None
    }
}

#[via_fn]
proof fn parse_members_decreases(
    s: Seq<u8>,
    i: int,
    f: Option<Seq<u8>>,
    fee: Option<Seq<u8>>,
    b: Option<Seq<u8>>,
) {
    let j = skip_ws(s, i);
    lemma_skip_ws_bounds(s, i);
    if j < s.len() && s[j] == QUOTE {
        lemma_string_end_bounds(s, j + 1);
        if let Some(k) = string_end(s, j + 1) {
            let m = skip_ws(s, k);
            lemma_skip_ws_bounds(s, k);
            if m < s.len() && s[m] == COLON {
                let v = skip_ws(s, m + 1);
                lemma_skip_ws_bounds(s, m + 1);
                lemma_value_end_bounds(s, v);
                if let Some(w) = value_end(s, v) {
                    let n = skip_ws(s, w);
                    lemma_skip_ws_bounds(s, w);
                }
            }
        }
    }
}

/// Decodes an envelope: a JSON object whose `function` member is required,
/// whose `fee` member is optional (`null` counting as absent), and whose
/// `broadcast` member is a required boolean.
pub open spec fn spec_parse_envelope(s: Seq<u8>) -> Option<(Seq<u8>, Option<Seq<u8>>, bool)> {
    let i = skip_ws(s, 0);
    if i < s.len() && s[i] == LBRACE {
        parse_members(s, i + 1, None, None, None)
    } else {
        None
    }
}

/// The round-trip law of the wire format: decoding an encoded envelope
/// recovers the function payload, the fee payload and its presence or
/// absence, and the broadcast flag, exactly. In particular an envelope
/// encoded without a fee decodes to a request without one.
#[verifier::rlimit(100)]
pub proof fn lemma_envelope_round_trip(function: Seq<u8>, fee: Option<Seq<u8>>, broadcast: bool)
    requires
        json_payload(function),
        (fee matches Some(p) ==> json_payload(p)),
    ensures
        spec_parse_envelope(spec_encode_envelope(function, fee, broadcast)) == Some(
            (function, fee, broadcast),
        ),
{
    let env = spec_encode_envelope(function, fee, broadcast);
    let fl = function.len() as int;
    let t = if broadcast {
        lit_true()
    } else {
        lit_false()
    };
    let tl = t.len() as int;
    let w1 = 12 + fl;
    let q: int = match fee {
        Some(p) => w1 + 7 + p.len(),
        None => w1,
    };
    let end = q + 13 + tl;

    // Lengths of the fixed pieces.
    assert(prefix_function().len() == 12);
    assert(prefix_fee().len() == 7);
    assert(prefix_broadcast().len() == 13);
    assert(env.len() == end + 1);

    // Where each piece of the envelope sits.
    assert forall|x: int| 0 <= x < 12 implies env[x] == prefix_function()[x] by {}
    assert forall|k: int| 0 <= k < fl implies env[12 + k] == function[k] by {}
    if let Some(p) = fee {
        assert forall|x: int| 0 <= x < 7 implies env[w1 + x] == prefix_fee()[x] by {}
        assert forall|k: int| 0 <= k < p.len() implies env[w1 + 7 + k] == p[k] by {}
    }
    assert forall|x: int| 0 <= x < 13 implies env[q + x] == prefix_broadcast()[x] by {}
    assert forall|k: int| 0 <= k < tl implies env[q + 13 + k] == t[k] by {}
    assert(env[end] == RBRACE);

    // The bytes of the fixed pieces.
    assert(prefix_function()[0] == LBRACE);
    assert(prefix_function()[1] == QUOTE);
    assert forall|x: int| 2 <= x < 10 implies prefix_function()[x] != QUOTE
        && prefix_function()[x] != BSLASH by {
        assert(prefix_function()[x] == key_function()[x - 2]);
    }
    assert(prefix_function()[10] == QUOTE);
    assert(prefix_function()[11] == COLON);
    assert(prefix_fee()[0] == COMMA);
    assert(prefix_fee()[1] == QUOTE);
    assert forall|x: int| 2 <= x < 5 implies prefix_fee()[x] != QUOTE && prefix_fee()[x]
        != BSLASH by {
        assert(prefix_fee()[x] == key_fee()[x - 2]);
    }
    assert(prefix_fee()[5] == QUOTE);
    assert(prefix_fee()[6] == COLON);
    assert(prefix_broadcast()[0] == COMMA);
    assert(prefix_broadcast()[1] == QUOTE);
    assert forall|x: int| 2 <= x < 11 implies prefix_broadcast()[x] != QUOTE
        && prefix_broadcast()[x] != BSLASH by {
        assert(prefix_broadcast()[x] == key_broadcast()[x - 2]);
    }
    assert(prefix_broadcast()[11] == QUOTE);
    assert(prefix_broadcast()[12] == COLON);

    // The known keys differ pairwise (their lengths differ).
    assert(key_function() != key_fee());
    assert(key_function() != key_broadcast());
    assert(key_fee() != key_broadcast());
    assert(lit_true() != lit_false());

    // The envelope opens the object at position 0.
    assert(skip_ws(env, 0) == 0);
    assert(env[0] == LBRACE);

    // The `function` member: key at 1..11, colon at 11, payload at 12.
    assert(skip_ws(env, 1) == 1);
    assert(env[1] == QUOTE);
    assert(string_end(env, 2) == Some(11int)) by {
        lemma_string_end_simple(env, 2, 10);
    }
    assert(env.subrange(2, 10) =~= key_function());
    assert(skip_ws(env, 11) == 11);
    assert(env[11] == COLON);
    assert(env[12] == function[0]);
    assert(skip_ws(env, 12) == 12);
    assert(value_end(env, 12) == Some(w1)) by {
        lemma_value_end_frame(function, env, 12);
    }
    assert(env.subrange(12, w1) =~= function);
    assert(skip_ws(env, w1) == w1);
    assert(env[w1] == COMMA);
    assert(parse_members(env, 1, None, None, None) == parse_members(
        env,
        w1 + 1,
        Some(function),
        None,
        None,
    ));

    // The `fee` member, when a fee payload is present.
    if let Some(p) = fee {
        let pl = p.len() as int;
        assert(skip_ws(env, w1 + 1) == w1 + 1);
        assert(env[w1 + 1] == QUOTE);
        assert(string_end(env, w1 + 2) == Some(w1 + 6)) by {
            lemma_string_end_simple(env, w1 + 2, w1 + 5);
        }
        assert(env.subrange(w1 + 2, w1 + 5) =~= key_fee());
        assert(skip_ws(env, w1 + 6) == w1 + 6);
        assert(env[w1 + 6] == COLON);
        assert(env[w1 + 7] == p[0]);
        assert(skip_ws(env, w1 + 7) == w1 + 7);
        assert(value_end(env, w1 + 7) == Some(q)) by {
            lemma_value_end_frame(p, env, w1 + 7);
        }
        assert(env.subrange(w1 + 7, q) =~= p);
        assert(skip_ws(env, q) == q);
        assert(env[q] == COMMA);
        assert(parse_members(env, w1 + 1, Some(function), None, None) == parse_members(
            env,
            q + 1,
            Some(function),
            Some(p),
            None,
        ));
    }

    // The `broadcast` member: key at q+1..q+12, colon at q+12, literal at
    // q+13, closing brace at the last byte.
    assert(skip_ws(env, q + 1) == q + 1);
    assert(env[q + 1] == QUOTE);
    assert(string_end(env, q + 2) == Some(q + 12)) by {
        lemma_string_end_simple(env, q + 2, q + 11);
    }
    assert(env.subrange(q + 2, q + 11) =~= key_broadcast());
    assert(skip_ws(env, q + 12) == q + 12);
    assert(env[q + 12] == COLON);
    assert(env[q + 13] == t[0]);
    assert(t[0] != QUOTE && t[0] != LBRACE && t[0] != LBRACK && !is_ws(t[0]));
    assert(skip_ws(env, q + 13) == q + 13);
    assert forall|k: int| q + 13 <= k < end implies !is_prim_delim(env[k]) by {
        assert(env[k] == t[k - (q + 13)]);
    }
    assert(prim_end(env, q + 13) == end) by {
        lemma_prim_run(env, q + 13, end);
    }
    assert(value_end(env, q + 13) == Some(end));
    assert(env.subrange(q + 13, end) =~= t);
    assert(skip_ws(env, end) == end);
    assert(env[end] == RBRACE);
    assert(skip_ws(env, end + 1) == env.len());

    // Closing the object finalizes the collected members.
    let feeacc: Option<Seq<u8>> = match fee {
        Some(p) => Some(p),
        None => None,
    };
    assert(parse_members(env, q + 1, Some(function), feeacc, None) == finalize_members(
        Some(function),
        feeacc,
        Some(t),
    ));
    if let Some(p) = fee {
        assert(p != lit_null()) by {
            assert(lit_null()[0] == 110);
        }
    }
    assert(finalize_members(Some(function), feeacc, Some(t)) == Some(
        (function, fee, broadcast),
    ));
}

/// The view of an optional byte payload.
pub open spec fn opt_bytes(o: Option<Vec<u8>>) -> Option<Seq<u8>> {
    match o {
        Some(p) => Some(p@),
        None => None,
    }
}

fn skip_ws_x(s: &[u8], i: usize) -> (r: usize)
    requires
        i <= s@.len(),
    ensures
        r as int == skip_ws(s@, i as int),
        i <= r <= s@.len(),
{
    let mut cur: usize = i;
    while cur < s.len() && (s[cur] == 32 || s[cur] == 9 || s[cur] == 10 || s[cur] == 13)
        invariant
            i <= cur <= s@.len(),
            skip_ws(s@, i as int) == skip_ws(s@, cur as int),
        decreases s@.len() - cur,
    {
        cur = cur + 1;
    }
    cur
}

fn string_end_x(s: &[u8], i: usize) -> (r: Option<usize>)
    requires
        i <= s@.len(),
    ensures
        (match r {
            Some(j) => string_end(s@, i as int) == Some(j as int) && j <= s@.len(),
            None => string_end(s@, i as int) is None,
        }),
{
    let mut cur: usize = i;
    loop
        invariant
            i <= cur <= s@.len(),
            string_end(s@, i as int) == string_end(s@, cur as int),
        decreases s@.len() - cur,
    {
        if cur >= s.len() {
            return None;
        }
        let c = s[cur];
        if c == QUOTE {
            proof {
                lemma_string_end_bounds(s@, i as int);
            }
            return Some(cur + 1);
        }
        if c == BSLASH {
            if s.len() - cur >= 2 {
                cur = cur + 2;
            } else {
                return None;
            }
        } else {
            cur = cur + 1;
        }
    }
}

fn container_end_x(s: &[u8], i: usize) -> (r: Option<usize>)
    requires
        1 <= i <= s@.len(),
    ensures
        (match r {
            Some(j) => container_end(s@, i as int, 1, false, false) == Some(j as int) && j
                <= s@.len(),
            None => container_end(s@, i as int, 1, false, false) is None,
        }),
{
    let mut cur: usize = i;
    let mut depth: usize = 1;
    let mut in_str = false;
    let mut esc = false;
    loop
        invariant
            1 <= i <= cur <= s@.len(),
            1 <= depth <= cur - i + 1,
            container_end(s@, i as int, 1, false, false) == container_end(
                s@,
                cur as int,
                depth as int,
                in_str,
                esc,
            ),
        decreases s@.len() - cur,
    {
        if cur >= s.len() {
            return None;
        }
        let c = s[cur];
        if esc {
            esc = false;
            cur = cur + 1;
        } else if in_str {
            if c == BSLASH {
                esc = true;
                cur = cur + 1;
            } else if c == QUOTE {
                in_str = false;
                cur = cur + 1;
            } else {
                cur = cur + 1;
            }
        } else if c == QUOTE {
            in_str = true;
            cur = cur + 1;
        } else if c == LBRACE || c == LBRACK {
            depth = depth + 1;
            cur = cur + 1;
        } else if c == RBRACE || c == RBRACK {
            if depth <= 1 {
                return Some(cur + 1);
            } else {
                depth = depth - 1;
                cur = cur + 1;
            }
        } else {
            cur = cur + 1;
        }
    }
}

fn prim_end_x(s: &[u8], i: usize) -> (r: usize)
    requires
        i <= s@.len(),
    ensures
        r as int == prim_end(s@, i as int),
        i <= r <= s@.len(),
{
    let mut cur: usize = i;
    while cur < s.len() && !(s[cur] == 32 || s[cur] == 9 || s[cur] == 10 || s[cur] == 13 || s[cur]
        == COMMA || s[cur] == RBRACE || s[cur] == RBRACK)
        invariant
            i <= cur <= s@.len(),
            prim_end(s@, i as int) == prim_end(s@, cur as int),
        decreases s@.len() - cur,
    {
        cur = cur + 1;
    }
    cur
}

fn value_end_x(s: &[u8], i: usize) -> (r: Option<usize>)
    requires
        i <= s@.len(),
    ensures
        (match r {
            Some(j) => value_end(s@, i as int) == Some(j as int) && i < j <= s@.len(),
            None => value_end(s@, i as int) is None,
        }),
{
    proof {
        lemma_value_end_bounds(s@, i as int);
    }
    if i >= s.len() {
        return None;
    }
    let c = s[i];
    if c == QUOTE {
        string_end_x(s, i + 1)
    } else if c == LBRACE || c == LBRACK {
        container_end_x(s, i + 1)
    } else {
        let j = prim_end_x(s, i);
        if j > i {
            Some(j)
        } else {
            None
        }
    }
}

fn copy_range(s: &[u8], a: usize, b: usize) -> (r: Vec<u8>)
    requires
        a <= b <= s@.len(),
    ensures
        r@ == s@.subrange(a as int, b as int),
{
    let mut out: Vec<u8> = Vec::new();
    let mut k: usize = a;
    while k < b
        invariant
            a <= k <= b <= s@.len(),
            out@ == s@.subrange(a as int, k as int),
        decreases b - k,
    {
        out.push(s[k]);
        proof {
            assert(s@.subrange(a as int, k + 1) =~= s@.subrange(a as int, k as int).push(
                s@[k as int],
            ));
        }
        k = k + 1;
    }
    out
}

fn append_bytes(out: &mut Vec<u8>, src: &[u8])
    ensures
        final(out)@ == old(out)@ + src@,
{
    let mut k: usize = 0;
    while k < src.len()
        invariant
            k <= src@.len(),
            out@ == old(out)@ + src@.subrange(0, k as int),
        decreases src@.len() - k,
    {
        out.push(src[k]);
        proof {
            assert(src@.subrange(0, k + 1) =~= src@.subrange(0, k as int).push(src@[k as int]));
        }
        k = k + 1;
    }
    proof {
        assert(src@.subrange(0, src@.len() as int) =~= src@);
    }
}

fn push_prefix_function(out: &mut Vec<u8>)
    ensures
        final(out)@ == old(out)@ + prefix_function(),
{
    out.push(LBRACE);
    out.push(QUOTE);
    out.push(102);
    out.push(117);
    out.push(110);
    out.push(99);
    out.push(116);
    out.push(105);
    out.push(111);
    out.push(110);
    out.push(QUOTE);
    out.push(COLON);
    proof {
        assert(out@ =~= old(out)@ + prefix_function());
    }
}

fn push_prefix_fee(out: &mut Vec<u8>)
    ensures
        final(out)@ == old(out)@ + prefix_fee(),
{
    out.push(COMMA);
    out.push(QUOTE);
    out.push(102);
    out.push(101);
    out.push(101);
    out.push(QUOTE);
    out.push(COLON);
    proof {
        assert(out@ =~= old(out)@ + prefix_fee());
    }
}

fn push_prefix_broadcast(out: &mut Vec<u8>)
    ensures
        final(out)@ == old(out)@ + prefix_broadcast(),
{
    out.push(COMMA);
    out.push(QUOTE);
    out.push(98);
    out.push(114);
    out.push(111);
    out.push(97);
    out.push(100);
    out.push(99);
    out.push(97);
    out.push(115);
    out.push(116);
    out.push(QUOTE);
    out.push(COLON);
    proof {
        assert(out@ =~= old(out)@ + prefix_broadcast());
    }
}

/// Encodes an envelope in its canonical form: the fields in the order
/// `function`, `fee` (only when present), `broadcast`, with no padding.
pub fn encode_envelope(function: &Vec<u8>, fee: &Option<Vec<u8>>, broadcast: bool) -> (r: Vec<u8>)
    ensures
        r@ == spec_encode_envelope(
            function@,
            (match fee {
                Some(p) => Some(p@),
                None => None,
            }),
            broadcast,
        ),
{
    let mut out: Vec<u8> = Vec::new();
    push_prefix_function(&mut out);
    append_bytes(&mut out, function.as_slice());
    match fee {
        Some(p) => {
            push_prefix_fee(&mut out);
            append_bytes(&mut out, p.as_slice());
        },
        None => {},
    }
    push_prefix_broadcast(&mut out);
    if broadcast {
        out.push(116);
        out.push(114);
        out.push(117);
        out.push(101);
    } else {
        out.push(102);
        out.push(97);
        out.push(108);
        out.push(115);
        out.push(101);
    }
    out.push(RBRACE);
    proof {
        assert(out@ =~= spec_encode_envelope(
            function@,
            (match fee {
                Some(p) => Some(p@),
                None => None,
            }),
            broadcast,
        ));
    }
    out
}

fn range_is_key_function(s: &[u8], a: usize, b: usize) -> (r: bool)
    requires
        a <= b <= s@.len(),
    ensures
        r == (s@.subrange(a as int, b as int) == key_function()),
{
    if b - a != 8 {
        proof {
            if s@.subrange(a as int, b as int) == key_function() {
                assert(s@.subrange(a as int, b as int).len() == 8);
            }
        }
        return false;
    }
    let ok = s[a] == 102 && s[a + 1] == 117 && s[a + 2] == 110 && s[a + 3] == 99 && s[a + 4] == 116
        && s[a + 5] == 105 && s[a + 6] == 111 && s[a + 7] == 110;
    proof {
        if ok {
            assert(s@.subrange(a as int, b as int) =~= key_function());
        } else {
            if s@.subrange(a as int, b as int) == key_function() {
                assert(s@.subrange(a as int, b as int)[0] == 102);
                assert(s@.subrange(a as int, b as int)[1] == 117);
                assert(s@.subrange(a as int, b as int)[2] == 110);
                assert(s@.subrange(a as int, b as int)[3] == 99);
                assert(s@.subrange(a as int, b as int)[4] == 116);
                assert(s@.subrange(a as int, b as int)[5] == 105);
                assert(s@.subrange(a as int, b as int)[6] == 111);
                assert(s@.subrange(a as int, b as int)[7] == 110);
                assert(false);
            }
        }
    }
    ok
}

fn range_is_key_fee(s: &[u8], a: usize, b: usize) -> (r: bool)
    requires
        a <= b <= s@.len(),
    ensures
        r == (s@.subrange(a as int, b as int) == key_fee()),
{
    if b - a != 3 {
        proof {
            if s@.subrange(a as int, b as int) == key_fee() {
                assert(s@.subrange(a as int, b as int).len() == 3);
            }
        }
        return false;
    }
    let ok = s[a] == 102 && s[a + 1] == 101 && s[a + 2] == 101;
    proof {
        if ok {
            assert(s@.subrange(a as int, b as int) =~= key_fee());
        } else {
            if s@.subrange(a as int, b as int) == key_fee() {
                assert(s@.subrange(a as int, b as int)[0] == 102);
                assert(s@.subrange(a as int, b as int)[1] == 101);
                assert(s@.subrange(a as int, b as int)[2] == 101);
                assert(false);
            }
        }
    }
    ok
}

fn range_is_key_broadcast(s: &[u8], a: usize, b: usize) -> (r: bool)
    requires
        a <= b <= s@.len(),
    ensures
        r == (s@.subrange(a as int, b as int) == key_broadcast()),
{
    if b - a != 9 {
        proof {
            if s@.subrange(a as int, b as int) == key_broadcast() {
                assert(s@.subrange(a as int, b as int).len() == 9);
            }
        }
        return false;
    }
    let ok = s[a] == 98 && s[a + 1] == 114 && s[a + 2] == 111 && s[a + 3] == 97 && s[a + 4] == 100
        && s[a + 5] == 99 && s[a + 6] == 97 && s[a + 7] == 115 && s[a + 8] == 116;
    proof {
        if ok {
            assert(s@.subrange(a as int, b as int) =~= key_broadcast());
        } else {
            if s@.subrange(a as int, b as int) == key_broadcast() {
                assert(s@.subrange(a as int, b as int)[0] == 98);
                assert(s@.subrange(a as int, b as int)[1] == 114);
                assert(s@.subrange(a as int, b as int)[2] == 111);
                assert(s@.subrange(a as int, b as int)[3] == 97);
                assert(s@.subrange(a as int, b as int)[4] == 100);
                assert(s@.subrange(a as int, b as int)[5] == 99);
                assert(s@.subrange(a as int, b as int)[6] == 97);
                assert(s@.subrange(a as int, b as int)[7] == 115);
                assert(s@.subrange(a as int, b as int)[8] == 116);
                assert(false);
            }
        }
    }
    ok
}

fn is_lit_true(p: &Vec<u8>) -> (r: bool)
    ensures
        r == (p@ == lit_true()),
{
    if p.len() != 4 {
        proof {
            if p@ == lit_true() {
                assert(p@.len() == 4);
            }
        }
        return false;
    }
    let ok = p[0] == 116 && p[1] == 114 && p[2] == 117 && p[3] == 101;
    proof {
        if ok {
            assert(p@ =~= lit_true());
        } else {
            if p@ == lit_true() {
                assert(forall|k: int| 0 <= k < 4 ==> p@[k] == lit_true()[k]);
            }
        }
    }
    ok
}

fn is_lit_false(p: &Vec<u8>) -> (r: bool)
    ensures
        r == (p@ == lit_false()),
{
    if p.len() != 5 {
        proof {
            if p@ == lit_false() {
                assert(p@.len() == 5);
            }
        }
        return false;
    }
    let ok = p[0] == 102 && p[1] == 97 && p[2] == 108 && p[3] == 115 && p[4] == 101;
    proof {
        if ok {
            assert(p@ =~= lit_false());
        } else {
            if p@ == lit_false() {
                assert(forall|k: int| 0 <= k < 5 ==> p@[k] == lit_false()[k]);
            }
        }
    }
    ok
}

fn is_lit_null(p: &Vec<u8>) -> (r: bool)
    ensures
        r == (p@ == lit_null()),
{
    if p.len() != 4 {
        proof {
            if p@ == lit_null() {
                assert(p@.len() == 4);
            }
        }
        return false;
    }
    let ok = p[0] == 110 && p[1] == 117 && p[2] == 108 && p[3] == 108;
    proof {
        if ok {
            assert(p@ =~= lit_null());
        } else {
            if p@ == lit_null() {
                assert(forall|k: int| 0 <= k < 4 ==> p@[k] == lit_null()[k]);
            }
        }
    }
    ok
}

/// A decoding failure, described for the caller.
fn wire_error(msg: &str) -> (r: CreditsError)
    ensures
        r is SerializationError,
{
    CreditsError::SerializationError(msg.to_owned())
}

/// Interprets the collected member payloads, as `finalize_members` does.
fn finalize_x(f: Option<Vec<u8>>, fee: Option<Vec<u8>>, b: Option<Vec<u8>>) -> (r: Result<
    (Vec<u8>, Option<Vec<u8>>, bool),
    CreditsError,
>)
    ensures
        (match r {
            Ok(parts) => finalize_members(opt_bytes(f), opt_bytes(fee), opt_bytes(b)) == Some(
                (parts.0@, opt_bytes(parts.1), parts.2),
            ),
            Err(e) => finalize_members(opt_bytes(f), opt_bytes(fee), opt_bytes(b)) is None && e
                is SerializationError,
        }),
{
    let fp = match f {
        Some(p) => p,
        None => {
            return Err(wire_error("the wire object holds no function field"));
        },
    };
    let bp = match b {
        Some(p) => p,
        None => {
            return Err(wire_error("the wire object holds no broadcast field"));
        },
    };
    let broadcast = if is_lit_true(&bp) {
        true
    } else if is_lit_false(&bp) {
        false
    } else {
        return Err(wire_error("the broadcast field is not a boolean"));
    };
    let fee2 = match fee {
        Some(p) => if is_lit_null(&p) {
            None
        } else {
            Some(p)
        },
        None => None,
    };
    Ok((fp, fee2, broadcast))
}

/// Decodes a wire envelope into its function payload, optional fee payload,
/// and broadcast flag. Accepts any member order and surrounding whitespace,
/// ignores unknown members, keeps the last of duplicate members, and treats
/// a `null` fee as absent; fails with a `SerializationError` on anything
/// that is not an object carrying a `function` member and a boolean
/// `broadcast` member.
pub fn parse_envelope(s: &[u8]) -> (r: Result<(Vec<u8>, Option<Vec<u8>>, bool), CreditsError>)
    ensures
        (match r {
            Ok(parts) => spec_parse_envelope(s@) == Some((parts.0@, opt_bytes(parts.1), parts.2)),
            Err(e) => spec_parse_envelope(s@) is None && e is SerializationError,
        }),
{
    let i0 = skip_ws_x(s, 0);
    if i0 >= s.len() {
        return Err(wire_error("the wire form is empty"));
    }
    if s[i0] != LBRACE {
        return Err(wire_error("the wire form is not an object"));
    }
    let mut i: usize = i0 + 1;
    let mut facc: Option<Vec<u8>> = None;
    let mut feeacc: Option<Vec<u8>> = None;
    let mut bacc: Option<Vec<u8>> = None;
    loop
        invariant
            i <= s@.len(),
            spec_parse_envelope(s@) == parse_members(
                s@,
                i as int,
                opt_bytes(facc),
                opt_bytes(feeacc),
                opt_bytes(bacc),
            ),
        decreases s@.len() - i,
    {
        let j = skip_ws_x(s, i);
        if j >= s.len() {
            return Err(wire_error("the wire object does not close"));
        }
        let cj = s[j];
        if cj == RBRACE {
            let j2 = skip_ws_x(s, j + 1);
            if j2 != s.len() {
                return Err(wire_error("bytes follow the wire object"));
            }
            return finalize_x(facc, feeacc, bacc);
        }
        if cj != QUOTE {
            return Err(wire_error("a member key is not a string"));
        }
        let k = match string_end_x(s, j + 1) {
            Some(k) => k,
            None => {
                return Err(wire_error("a member key does not close"));
            },
        };
        let m = skip_ws_x(s, k);
        if m >= s.len() {
            return Err(wire_error("a member has no value"));
        }
        if s[m] != COLON {
            return Err(wire_error("a member key is not followed by a colon"));
        }
        let v = skip_ws_x(s, m + 1);
        let w = match value_end_x(s, v) {
            Some(w) => w,
            None => {
                return Err(wire_error("a member value is malformed"));
            },
        };
        let payload = copy_range(s, v, w);
        proof {
            lemma_string_end_bounds(s@, j + 1 as int);
            assert(key_function().len() == 8);
            assert(key_fee().len() == 3);
            assert(key_broadcast().len() == 9);
            assert(key_function() != key_fee());
            assert(key_function() != key_broadcast());
            assert(key_fee() != key_broadcast());
        }
        if range_is_key_function(s, j + 1, k - 1) {
            facc = Some(payload);
        } else if range_is_key_fee(s, j + 1, k - 1) {
            feeacc = Some(payload);
        } else if range_is_key_broadcast(s, j + 1, k - 1) {
            bacc = Some(payload);
        }
        let n = skip_ws_x(s, w);
        if n >= s.len() {
            return Err(wire_error("the wire object does not close"));
        }
        if s[n] == COMMA {
            i = n + 1;
        } else if s[n] == RBRACE {
            let j2 = skip_ws_x(s, n + 1);
            if j2 != s.len() {
                return Err(wire_error("bytes follow the wire object"));
            }
            return finalize_x(facc, feeacc, bacc);
        } else {
            return Err(wire_error("members are not separated by commas"));
        }
    }
}

} // verus!
