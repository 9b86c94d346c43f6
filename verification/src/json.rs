//! The exchange format of the boundary: the byte-level encoding of a
//! `Response` and the byte-level decoding of an `Action`. The boundary
//! owns this format; both directions are stated against spec-level
//! definitions of the grammar.
//!
//! The action grammar is the JSON encoding of an action as the
//! original engine's serde-derived decoder accepted it: whitespace is
//! accepted around every token, fieldless choices decode from their
//! quoted name or from its object form with a `null` payload, and
//! numbers are written without leading zeros. String escapes inside a
//! choice's name are not decoded.

use vstd::prelude::*;
use vstd::string::StringSliceAdditionalSpecFns;
use crate::engine::{Action, ActionView, Response};

verus! {

/// Append every byte of `other` to `out`.
pub fn append_bytes(out: &mut Vec<u8>, other: &[u8])
    ensures
        final(out)@ == old(out)@ + other@,
{
    let mut i: usize = 0;
    while i < other.len()
        invariant
            i <= other@.len(),
            out@ == old(out)@ + other@.subrange(0, i as int),
        decreases other@.len() - i,
    {
        out.push(other[i]);
        proof {
            assert(old(out)@ + other@.subrange(0, i + 1 as int) =~= (old(out)@ + other@.subrange(
                0,
                i as int,
            )).push(other@[i as int]));
        }
        i = i + 1;
    }
    proof {
        assert(other@.subrange(0, other@.len() as int) =~= other@);
    }
}

/// The decimal digits of `n`, most significant first.
pub open spec fn dec_of(n: u8) -> Seq<u8>
    decreases n,
{
    if n < 10 {
        seq![(0x30 + n) as u8]
    } else {
        dec_of(n / 10).push((0x30 + n % 10) as u8)
    }
}

/// Render `n` in decimal.
pub fn u8_dec(n: u8) -> (r: Vec<u8>)
    ensures
        r@ == dec_of(n),
    decreases n,
{
    if n < 10 {
        let mut v: Vec<u8> = Vec::new();
        v.push(0x30 + n);
        proof {
            assert(v@ =~= dec_of(n));
        }
        v
    } else {
        let mut v = u8_dec(n / 10);
        v.push(0x30 + n % 10);
        v
    }
}

/// The separator placed between two messages of one turn.
pub open spec fn br_bytes() -> Seq<u8> {
    "<br/>".spec_bytes()
}

/// The messages of a turn joined into one markup string.
pub open spec fn join_br(ms: Seq<Seq<u8>>) -> Seq<u8>
    decreases ms.len(),
{
    if ms.len() == 0 {
        Seq::empty()
    } else if ms.len() == 1 {
        ms[0]
    } else {
        ms[0] + br_bytes() + join_br(ms.drop_first())
    }
}

/// Joining one more message appends a separator and the message.
pub proof fn lemma_join_push(ms: Seq<Seq<u8>>, x: Seq<u8>)
    ensures
        join_br(ms.push(x)) == if ms.len() == 0 {
            x
        } else {
            join_br(ms) + br_bytes() + x
        },
    decreases ms.len(),
{
    if ms.len() == 0 {
        assert(ms.push(x).len() == 1);
        assert(ms.push(x)[0] == x);
    } else {
        assert(ms.push(x).drop_first() =~= ms.drop_first().push(x));
        lemma_join_push(ms.drop_first(), x);
        if ms.len() == 1 {
            assert(join_br(ms) == ms[0]);
            assert(join_br(ms.push(x)) == ms[0] + br_bytes() + x);
        } else {
            assert(join_br(ms) + br_bytes() + x =~= ms[0] + br_bytes() + (join_br(ms.drop_first())
                + br_bytes() + x));
        }
    }
}

/// Join the turn's messages with the separator.
pub fn join_msgs(ms: &Vec<Vec<u8>>) -> (r: Vec<u8>)
    ensures
        r@ == join_br(ms.deep_view()),
{
    let ghost dv = ms.deep_view();
    let mut out: Vec<u8> = Vec::new();
    let mut i: usize = 0;
    while i < ms.len()
        invariant
            i <= ms@.len(),
            dv == ms.deep_view(),
            dv.len() == ms@.len(),
            out@ == join_br(dv.take(i as int)),
        decreases ms@.len() - i,
    {
        if i > 0 {
            append_bytes(&mut out, "<br/>".as_bytes());
        }
        append_bytes(&mut out, ms[i].as_slice());
        proof {
            lemma_join_push(dv.take(i as int), dv[i as int]);
            assert(dv.take(i + 1 as int) =~= dv.take(i as int).push(dv[i as int]));
            assert(ms@[i as int]@ == dv[i as int]);
        }
        i = i + 1;
    }
    proof {
        assert(dv.take(dv.len() as int) =~= dv);
    }
    out
}

/// The hexadecimal digit for `n`, lower case.
pub open spec fn hex_digit(n: u8) -> u8 {
    if n < 10 {
        (0x30 + n) as u8
    } else {
        (0x57 + n) as u8
    }
}

/// The escape of one byte inside an encoded string: quote and backslash
/// get a backslash, the common control characters their short escapes,
/// the rest of the control characters a hexadecimal escape, and every
/// other byte stands for itself.
pub open spec fn esc_byte(b: u8) -> Seq<u8> {
    if b == 0x22 {
        seq![0x5cu8, 0x22u8]
    } else if b == 0x5c {
        seq![0x5cu8, 0x5cu8]
    } else if b == 0x08 {
        seq![0x5cu8, 0x62u8]
    } else if b == 0x09 {
        seq![0x5cu8, 0x74u8]
    } else if b == 0x0a {
        seq![0x5cu8, 0x6eu8]
    } else if b == 0x0c {
        seq![0x5cu8, 0x66u8]
    } else if b == 0x0d {
        seq![0x5cu8, 0x72u8]
    } else if b < 0x20 {
        seq![0x5cu8, 0x75u8, 0x30u8, 0x30u8, hex_digit(b / 16), hex_digit(b % 16)]
    } else {
        seq![b]
    }
}

/// The escape of a whole string.
pub open spec fn esc(s: Seq<u8>) -> Seq<u8>
    decreases s.len(),
{
    if s.len() == 0 {
        Seq::empty()
    } else {
        esc_byte(s[0]) + esc(s.drop_first())
    }
}

/// Escaping one more byte appends its escape.
pub proof fn lemma_esc_push(s: Seq<u8>, x: u8)
    ensures
        esc(s.push(x)) == esc(s) + esc_byte(x),
    decreases s.len(),
{
    if s.len() == 0 {
        assert(s.push(x).drop_first() =~= Seq::<u8>::empty());
        assert(esc(s.push(x)) == esc_byte(x) + esc(Seq::<u8>::empty()));
        assert(esc_byte(x) + Seq::<u8>::empty() =~= esc_byte(x));
        assert(Seq::<u8>::empty() + esc_byte(x) =~= esc_byte(x));
    } else {
        assert(s.push(x).drop_first() =~= s.drop_first().push(x));
        lemma_esc_push(s.drop_first(), x);
        assert(esc(s) + esc_byte(x) =~= esc_byte(s[0]) + (esc(s.drop_first()) + esc_byte(x)));
    }
}

/// Append the escape of one byte.
fn esc_one(out: &mut Vec<u8>, b: u8)
    ensures
        final(out)@ == old(out)@ + esc_byte(b),
{
    let ghost start = out@;
    if b == 0x22 {
        out.push(0x5c);
        out.push(0x22);
    } else if b == 0x5c {
        out.push(0x5c);
        out.push(0x5c);
    } else if b == 0x08 {
        out.push(0x5c);
        out.push(0x62);
    } else if b == 0x09 {
        out.push(0x5c);
        out.push(0x74);
    } else if b == 0x0a {
        out.push(0x5c);
        out.push(0x6e);
    } else if b == 0x0c {
        out.push(0x5c);
        out.push(0x66);
    } else if b == 0x0d {
        out.push(0x5c);
        out.push(0x72);
    } else if b < 0x20 {
        out.push(0x5c);
        out.push(0x75);
        out.push(0x30);
        out.push(0x30);
        let hi = b / 16;
        let lo = b % 16;
        out.push(if hi < 10 { 0x30 + hi } else { 0x57 + hi });
        out.push(if lo < 10 { 0x30 + lo } else { 0x57 + lo });
    } else {
        out.push(b);
    }
    proof {
        assert(out@ =~= start + esc_byte(b));
    }
}

/// Append the escape of a whole string.
fn escape_into(out: &mut Vec<u8>, s: &[u8])
    ensures
        final(out)@ == old(out)@ + esc(s@),
{
    let mut i: usize = 0;
    while i < s.len()
        invariant
            i <= s@.len(),
            out@ == old(out)@ + esc(s@.take(i as int)),
        decreases s@.len() - i,
    {
        esc_one(out, s[i]);
        proof {
            lemma_esc_push(s@.take(i as int), s@[i as int]);
            assert(s@.take(i + 1 as int) =~= s@.take(i as int).push(s@[i as int]));
        }
        i = i + 1;
    }
    proof {
        assert(s@.take(s@.len() as int) =~= s@);
        assert(esc(Seq::<u8>::empty()) =~= Seq::<u8>::empty());
    }
}

/// The encoding of a boolean.
pub open spec fn bool_bytes(b: bool) -> Seq<u8> {
    if b {
        "true".spec_bytes()
    } else {
        "false".spec_bytes()
    }
}

/// The encoding of a whole response: its shutdown flag, its escaped
/// message string, and its three tunnels.
pub open spec fn json_of_response(r: Response) -> Seq<u8> {
    "{\"shutdown_required\":".spec_bytes() + bool_bytes(r.shutdown_required)
        + ",\"msgs\":\"".spec_bytes() + esc(r.msgs@) + "\",\"tunnels\":[".spec_bytes() + dec_of(
        r.tunnels@[0],
    ) + ",".spec_bytes() + dec_of(r.tunnels@[1]) + ",".spec_bytes() + dec_of(r.tunnels@[2])
        + "]}".spec_bytes()
}

/// Encode a response.
pub fn response_json(r: &Response) -> (out: Vec<u8>)
    requires
        r.wf(),
    ensures
        out@ == json_of_response(*r),
{
    let mut out: Vec<u8> = Vec::new();
    append_bytes(&mut out, "{\"shutdown_required\":".as_bytes());
    if r.shutdown_required {
        append_bytes(&mut out, "true".as_bytes());
    } else {
        append_bytes(&mut out, "false".as_bytes());
    }
    append_bytes(&mut out, ",\"msgs\":\"".as_bytes());
    escape_into(&mut out, r.msgs.as_slice());
    append_bytes(&mut out, "\",\"tunnels\":[".as_bytes());
    let d0 = u8_dec(r.tunnels[0]);
    append_bytes(&mut out, d0.as_slice());
    append_bytes(&mut out, ",".as_bytes());
    let d1 = u8_dec(r.tunnels[1]);
    append_bytes(&mut out, d1.as_slice());
    append_bytes(&mut out, ",".as_bytes());
    let d2 = u8_dec(r.tunnels[2]);
    append_bytes(&mut out, d2.as_slice());
    append_bytes(&mut out, "]}".as_bytes());
    out
}

/// The byte is a decimal digit.
pub open spec fn is_digit(b: u8) -> bool {
    0x30 <= b <= 0x39
}

/// The first index at or after `i` that holds no digit.
pub open spec fn digit_end(s: Seq<u8>, i: int) -> int
    decreases s.len() - i,
{
    if i < s.len() && is_digit(s[i]) {
        digit_end(s, i + 1)
    } else {
        i
    }
}

/// The value of the digit run from `i` to `j`.
pub open spec fn digits_val(s: Seq<u8>, i: int, j: int) -> int
    decreases j - i,
{
    if j <= i {
        0
    } else {
        digits_val(s, i, j - 1) * 10 + (s[j - 1] - 0x30)
    }
}

/// A run of digits ending exactly where the digits end.
proof fn lemma_digit_end(s: Seq<u8>, i: int, j: int)
    requires
        0 <= i <= j <= s.len(),
        forall|x: int| i <= x < j ==> is_digit(#[trigger] s[x]),
        j == s.len() || !is_digit(s[j]),
    ensures
        digit_end(s, i) == j,
    decreases j - i,
{
    if i < j {
        lemma_digit_end(s, i + 1, j);
    }
}

/// The number starting at `i`: a digit run without a leading zero whose
/// value fits a byte, as the canonical encoding writes one.
pub open spec fn spec_num(s: Seq<u8>, i: int) -> Option<(u8, int)> {
    let j = digit_end(s, i);
    if j == i {
        None
    } else if s[i] == 0x30 && j > i + 1 {
        None
    } else if j - i > 3 {
        None
    } else if digits_val(s, i, j) > 255 {
        None
    } else {
        Some((digits_val(s, i, j) as u8, j))
    }
}

/// Decode the number starting at `i`.
fn parse_num(s: &[u8], i: usize) -> (r: Option<(u8, usize)>)
    requires
        i <= s@.len(),
    ensures
        ({
            let sp = spec_num(s@, i as int);
            match r {
                None => sp is None,
                Some(p) => sp == Some((p.0, p.1 as int)) && i < p.1 <= s@.len(),
            }
        }),
{
    let n = s.len();
    let mut j = i;
    while j < n && 0x30 <= s[j] && s[j] <= 0x39
        invariant
            i <= j <= n,
            n == s@.len(),
            forall|x: int| i <= x < j ==> is_digit(#[trigger] s@[x]),
        decreases n - j,
    {
        j = j + 1;
    }
    proof {
        lemma_digit_end(s@, i as int, j as int);
    }
    if j == i {
        return None;
    }
    if s[i] == 0x30 && j > i + 1 {
        return None;
    }
    if j - i > 3 {
        return None;
    }
    let d0 = (s[i] - 0x30) as u32;
    let val: u32 = if j - i == 1 {
        d0
    } else if j - i == 2 {
        d0 * 10 + (s[i + 1] - 0x30) as u32
    } else {
        d0 * 100 + (s[i + 1] - 0x30) as u32 * 10 + (s[i + 2] - 0x30) as u32
    };
    proof {
        assert(digits_val(s@, i as int, i as int) == 0);
        assert(digits_val(s@, i as int, i + 1 as int) == s@[i as int] - 0x30);
        if j - i >= 2 {
            assert(digits_val(s@, i as int, i + 2 as int) == (s@[i as int] - 0x30) * 10 + (s@[i
                + 1 as int] - 0x30));
        }
        if j - i >= 3 {
            assert(digits_val(s@, i as int, i + 3 as int) == digits_val(s@, i as int, i + 2 as int)
                * 10 + (s@[i + 2 as int] - 0x30));
        }
    }
    if val > 255 {
        return None;
    }
    Some((val as u8, j))
}

/// The byte is JSON whitespace: space, tab, line feed or carriage
/// return.
pub open spec fn is_ws(b: u8) -> bool {
    b == 0x20 || b == 0x09 || b == 0x0a || b == 0x0d
}

/// The first index at or after `i` that holds no whitespace.
pub open spec fn ws_end(s: Seq<u8>, i: int) -> int
    decreases s.len() - i,
{
    if i < s.len() && is_ws(s[i]) {
        ws_end(s, i + 1)
    } else {
        i
    }
}

/// Skip whitespace.
fn skip_ws(s: &[u8], i: usize) -> (r: usize)
    requires
        i <= s@.len(),
    ensures
        r as int == ws_end(s@, i as int),
        i <= r <= s@.len(),
{
    let mut j = i;
    while j < s.len() && (s[j] == 0x20 || s[j] == 0x09 || s[j] == 0x0a || s[j] == 0x0d)
        invariant
            i <= j <= s@.len(),
            ws_end(s@, i as int) == ws_end(s@, j as int),
        decreases s@.len() - j,
    {
        j = j + 1;
    }
    j
}

/// The token `t` stands at position `i` of `s`.
pub open spec fn at_token(s: Seq<u8>, i: int, t: Seq<u8>) -> bool {
    0 <= i && i + t.len() <= s.len() && s.subrange(i, i + t.len()) == t
}

/// Whether the token `t` stands at position `i`.
fn token_at(s: &[u8], i: usize, t: &[u8]) -> (r: bool)
    requires
        i <= s@.len(),
    ensures
        r == at_token(s@, i as int, t@),
{
    if t.len() <= s.len() && i <= s.len() - t.len() {
        bytes_eq(vstd::slice::slice_subrange(s, i, i + t.len()), t)
    } else {
        false
    }
}

/// The comma-separated numbers starting at `i`, whitespace around each
/// number and comma accepted; the returned index has the whitespace
/// after the last number already skipped. The fuel bounds the recursion
/// and is in practice never exhausted, as each number is at least one
/// byte long.
pub open spec fn spec_items(s: Seq<u8>, i: int, fuel: nat) -> Option<(Seq<u8>, int)>
    decreases fuel,
{
    match spec_num(s, ws_end(s, i)) {
        None => None,
        Some((v, j)) => {
            let k = ws_end(s, j);
            if k < s.len() && s[k] == 0x2c {
                if fuel == 0 {
                    None
                } else {
                    match spec_items(s, k + 1, (fuel - 1) as nat) {
                        None => None,
                        Some((rest, e)) => Some((seq![v] + rest, e)),
                    }
                }
            } else {
                Some((seq![v], k))
            }
        },
    }
}

/// Decode the comma-separated numbers starting at `i`.
fn parse_items(s: &[u8], i: usize, fuel: usize) -> (r: Option<(Vec<u8>, usize)>)
    requires
        i <= s@.len(),
    ensures
        ({
            let sp = spec_items(s@, i as int, fuel as nat);
            match r {
                None => sp is None,
                Some(p) => sp matches Some(q) && p.0@ == q.0 && p.1 as int == q.1 && p.1
                    <= s@.len(),
            }
        }),
    decreases fuel,
{
    let v0 = skip_ws(s, i);
    match parse_num(s, v0) {
        None => None,
        Some((v, j)) => {
            let k = skip_ws(s, j);
            if k < s.len() && s[k] == 0x2c {
                if fuel == 0 {
                    None
                } else {
                    match parse_items(s, k + 1, fuel - 1) {
                        None => None,
                        Some((rest, e)) => {
                            let mut items: Vec<u8> = Vec::new();
                            items.push(v);
                            append_bytes(&mut items, rest.as_slice());
                            proof {
                                assert(items@ =~= seq![v] + rest@);
                            }
                            Some((items, e))
                        },
                    }
                }
            } else {
                let mut one: Vec<u8> = Vec::new();
                one.push(v);
                proof {
                    assert(one@ =~= seq![v]);
                }
                Some((one, k))
            }
        },
    }
}

/// Two byte strings hold the same bytes.
pub fn bytes_eq(a: &[u8], b: &[u8]) -> (r: bool)
    ensures
        r == (a@ == b@),
{
    if a.len() != b.len() {
        return false;
    }
    let mut i: usize = 0;
    while i < a.len()
        invariant
            a@.len() == b@.len(),
            i <= a@.len(),
            forall|x: int| 0 <= x < i ==> a@[x] == b@[x],
        decreases a@.len() - i,
    {
        if a[i] != b[i] {
            return false;
        }
        i = i + 1;
    }
    proof {
        assert(a@ =~= b@);
    }
    true
}

/// After the quoted name of a fieldless choice used as an object key:
/// a colon, the word `null`, and the closing brace, each with
/// whitespace around it, ending the payload.
pub open spec fn spec_unit_tail(s: Seq<u8>, k: int) -> bool {
    let c = ws_end(s, k);
    &&& c < s.len()
    &&& s[c] == 0x3a
    &&& ({
        let v = ws_end(s, c + 1);
        &&& at_token(s, v, "null".spec_bytes())
        &&& ({
            let q = ws_end(s, v + "null".spec_bytes().len());
            q < s.len() && s[q] == 0x7d && ws_end(s, q + 1) == s.len()
        })
    })
}

/// Whether the object form of a fieldless choice ends correctly after
/// its key.
fn unit_tail(s: &[u8], k: usize) -> (r: bool)
    requires
        k <= s@.len(),
    ensures
        r == spec_unit_tail(s@, k as int),
{
    let null_tok = "null".as_bytes();
    let c = skip_ws(s, k);
    if c < s.len() && s[c] == 0x3a {
        let v = skip_ws(s, c + 1);
        if token_at(s, v, null_tok) {
            let q = skip_ws(s, v + null_tok.len());
            if q < s.len() && s[q] == 0x7d && skip_ws(s, q + 1) == s.len() {
                return true;
            }
        }
    }
    false
}

/// The action a payload encodes, if any: the JSON encoding of an action
/// as the original engine's decoder accepted it — a quoted bare choice
/// (or its object form with a `null` payload), a move to a room, or a
/// shot along a path of rooms, with whitespace accepted around every
/// token. String escapes inside a choice's name are not decoded.
pub open spec fn spec_parse_action(s: Seq<u8>) -> Option<ActionView> {
    let i = ws_end(s, 0);
    if at_token(s, i, "\"ReStart\"".spec_bytes()) && ws_end(
        s,
        i + "\"ReStart\"".spec_bytes().len(),
    ) == s.len() {
        Some(ActionView::ReStart)
    } else if at_token(s, i, "\"Instructions\"".spec_bytes()) && ws_end(
        s,
        i + "\"Instructions\"".spec_bytes().len(),
    ) == s.len() {
        Some(ActionView::Instructions)
    } else if at_token(s, i, "\"Quit\"".spec_bytes()) && ws_end(
        s,
        i + "\"Quit\"".spec_bytes().len(),
    ) == s.len() {
        Some(ActionView::Quit)
    } else if i < s.len() && s[i] == 0x7b {
        let j = ws_end(s, i + 1);
        if at_token(s, j, "\"Move\"".spec_bytes()) {
            let c = ws_end(s, j + "\"Move\"".spec_bytes().len());
            if c < s.len() && s[c] == 0x3a {
                match spec_num(s, ws_end(s, c + 1)) {
                    None => None,
                    Some((n, e)) => {
                        let q = ws_end(s, e);
                        if q < s.len() && s[q] == 0x7d && ws_end(s, q + 1) == s.len() {
                            Some(ActionView::Move(n))
                        } else {
                            None
                        }
                    },
                }
            } else {
                None
            }
        } else if at_token(s, j, "\"Shoot\"".spec_bytes()) {
            let c = ws_end(s, j + "\"Shoot\"".spec_bytes().len());
            if c < s.len() && s[c] == 0x3a {
                let o = ws_end(s, c + 1);
                if o < s.len() && s[o] == 0x5b {
                    let f = ws_end(s, o + 1);
                    if f < s.len() && s[f] == 0x5d {
                        let q = ws_end(s, f + 1);
                        if q < s.len() && s[q] == 0x7d && ws_end(s, q + 1) == s.len() {
                            Some(ActionView::Shoot(Seq::empty()))
                        } else {
                            None
                        }
                    } else {
                        match spec_items(s, o + 1, s.len() as nat) {
                            None => None,
                            Some((items, e)) => {
                                if e < s.len() && s[e] == 0x5d {
                                    let q = ws_end(s, e + 1);
                                    if q < s.len() && s[q] == 0x7d && ws_end(s, q + 1) == s.len() {
                                        Some(ActionView::Shoot(items))
                                    } else {
                                        None
                                    }
                                } else {
                                    None
                                }
                            },
                        }
                    }
                } else {
                    None
                }
            } else {
                None
            }
        } else if at_token(s, j, "\"ReStart\"".spec_bytes()) && spec_unit_tail(
            s,
            j + "\"ReStart\"".spec_bytes().len(),
        ) {
            Some(ActionView::ReStart)
        } else if at_token(s, j, "\"Instructions\"".spec_bytes()) && spec_unit_tail(
            s,
            j + "\"Instructions\"".spec_bytes().len(),
        ) {
            Some(ActionView::Instructions)
        } else if at_token(s, j, "\"Quit\"".spec_bytes()) && spec_unit_tail(
            s,
            j + "\"Quit\"".spec_bytes().len(),
        ) {
            Some(ActionView::Quit)
        } else {
            None
        }
    } else {
        None
    }
}

/// The quit payload belongs to the action grammar: the bytes of the text
/// `"Quit"` decode to the quit action. This pins the decisive step of a
/// host's shutdown sequence at the specification level.
pub proof fn lemma_quit_payload()
    ensures
        spec_parse_action("\"Quit\"".spec_bytes()) == Some(ActionView::Quit),
{
    reveal_strlit("\"Quit\"");
    reveal_strlit("\"ReStart\"");
    reveal_strlit("\"Instructions\"");
    assert(vstd::utf8::is_ascii_chars("\"Quit\""@));
    assert(vstd::utf8::is_ascii_chars("\"ReStart\""@));
    assert(vstd::utf8::is_ascii_chars("\"Instructions\""@));
    vstd::utf8::is_ascii_chars_encode_utf8("\"Quit\""@);
    vstd::utf8::is_ascii_chars_encode_utf8("\"ReStart\""@);
    vstd::utf8::is_ascii_chars_encode_utf8("\"Instructions\""@);
    let s = "\"Quit\"".spec_bytes();
    assert(s.len() == 6);
    assert("\"ReStart\"".spec_bytes().len() == 9);
    assert("\"Instructions\"".spec_bytes().len() == 14);
    assert(s[0] == 0x22);
    assert(ws_end(s, 0) == 0);
    assert(s.subrange(0, 6) =~= s);
    assert(at_token(s, 0, s));
    assert(ws_end(s, 6) == 6);
}

impl Action {
    /// Decode an action from its text encoding.
    pub fn from_json(json_str: &str) -> (r: Option<Action>)
        ensures
            (r is None) == (spec_parse_action(json_str.spec_bytes()) is None),
            r matches Some(a) ==> spec_parse_action(json_str.spec_bytes()) == Some(a@),
    {
        parse_action(json_str.as_bytes())
    }
}

/// Decode an action payload. Exactly the payloads of the grammar above
/// are accepted, and every other payload is refused, the same way every
/// time.
pub fn parse_action(s: &[u8]) -> (r: Option<Action>)
    ensures
        (r is None) == (spec_parse_action(s@) is None),
        r matches Some(a) ==> spec_parse_action(s@) == Some(a@),
{
    let n = s.len();
    let restart = "\"ReStart\"".as_bytes();
    let instructions = "\"Instructions\"".as_bytes();
    let quit = "\"Quit\"".as_bytes();
    let i = skip_ws(s, 0);
    if token_at(s, i, restart) && skip_ws(s, i + restart.len()) == n {
        Some(Action::ReStart)
    } else if token_at(s, i, instructions) && skip_ws(s, i + instructions.len()) == n {
        Some(Action::Instructions)
    } else if token_at(s, i, quit) && skip_ws(s, i + quit.len()) == n {
        Some(Action::Quit)
    } else if i < s.len() && s[i] == 0x7b {
        let j = skip_ws(s, i + 1);
        let move_key = "\"Move\"".as_bytes();
        let shoot_key = "\"Shoot\"".as_bytes();
        if token_at(s, j, move_key) {
            let c = skip_ws(s, j + move_key.len());
            if c < s.len() && s[c] == 0x3a {
                let v = skip_ws(s, c + 1);
                match parse_num(s, v) {
                    None => None,
                    Some((n, e)) => {
                        let q = skip_ws(s, e);
                        if q < s.len() && s[q] == 0x7d && skip_ws(s, q + 1) == s.len() {
                            Some(Action::Move(n))
                        } else {
                            None
                        }
                    },
                }
            } else {
                None
            }
        } else if token_at(s, j, shoot_key) {
            let c = skip_ws(s, j + shoot_key.len());
            if c < s.len() && s[c] == 0x3a {
                let o = skip_ws(s, c + 1);
                if o < s.len() && s[o] == 0x5b {
                    let f = skip_ws(s, o + 1);
                    if f < s.len() && s[f] == 0x5d {
                        let q = skip_ws(s, f + 1);
                        if q < s.len() && s[q] == 0x7d && skip_ws(s, q + 1) == s.len() {
                            Some(Action::Shoot(Vec::new()))
                        } else {
                            None
                        }
                    } else {
                        match parse_items(s, o + 1, s.len()) {
                            None => None,
                            Some((items, e)) => {
                                if e < s.len() && s[e] == 0x5d {
                                    let q = skip_ws(s, e + 1);
                                    if q < s.len() && s[q] == 0x7d && skip_ws(s, q + 1)
                                        == s.len() {
                                        Some(Action::Shoot(items))
                                    } else {
                                        None
                                    }
                                } else {
                                    None
                                }
                            },
                        }
                    }
                } else {
                    None
                }
            } else {
                None
            }
        } else if token_at(s, j, restart) && unit_tail(s, j + restart.len()) {
            Some(Action::ReStart)
        } else if token_at(s, j, instructions) && unit_tail(s, j + instructions.len()) {
            Some(Action::Instructions)
        } else if token_at(s, j, quit) && unit_tail(s, j + quit.len()) {
            Some(Action::Quit)
        } else {
            None
        }
    } else {
        None
    }
}

} // verus!
