//! The gateway frame deserializer: extracts `op`, the optional sequence
//! number `s` (with its exact position, so it can be rewritten in place) and
//! the optional event type `t` from the top level of a JSON text frame,
//! without parsing the event body `d`.

use vstd::prelude::*;

use crate::text::{all_digits, digits_val, is_digit};

verus! {

/// A JSON whitespace character.
pub open spec fn is_ws(c: char) -> bool {
    c == ' ' || c == '\t' || c == '\n' || c == '\r'
}

/// The first position at or after `i` holding a non-whitespace character.
pub open spec fn skip_ws(s: Seq<char>, i: int) -> int
    decreases s.len() - i,
{
    if 0 <= i < s.len() && is_ws(s[i]) {
        skip_ws(s, i + 1)
    } else {
        i
    }
}

pub proof fn lemma_skip_ws(s: Seq<char>, i: int)
    requires
        0 <= i,
    ensures
        i <= skip_ws(s, i),
        i <= s.len() ==> skip_ws(s, i) <= s.len(),
        skip_ws(s, i) < s.len() ==> !is_ws(s[skip_ws(s, i)]),
    decreases s.len() - i,
{
    if i < s.len() && is_ws(s[i]) {
        lemma_skip_ws(s, i + 1);
    }
}

/// The position just after the closing quote of a string whose body starts
/// at `i`, honouring backslash escapes; `None` when the string never closes.
pub open spec fn string_end(s: Seq<char>, i: int) -> Option<int>
    decreases s.len() - i,
{
    if i < 0 || i >= s.len() {
        None
    } else if s[i] == '\\' {
        if i + 1 < s.len() {
            string_end(s, i + 2)
        } else {
            None
        }
    } else if s[i] == '"' {
        Some(i + 1)
    } else {
        string_end(s, i + 1)
    }
}

pub proof fn lemma_string_end(s: Seq<char>, i: int)
    requires
        0 <= i,
    ensures
        match string_end(s, i) {
            Some(j) => i + 1 <= j <= s.len(),
            None => true,
        },
    decreases s.len() - i,
{
    if 0 <= i < s.len() {
        if s[i] == '\\' {
            if i + 1 < s.len() {
                lemma_string_end(s, i + 2);
            }
        } else if s[i] != '"' {
            lemma_string_end(s, i + 1);
        }
    }
}

/// The position just after the bracket that closes `depth` open containers,
/// scanning from `i` (not inside a string); `None` when they never close.
pub open spec fn scan_to_close(s: Seq<char>, i: int, depth: int) -> Option<int>
    decreases s.len() - i,
    via scan_to_close_decreases
{
    if i < 0 || i >= s.len() || depth <= 0 {
        None
    } else if s[i] == '"' {
        match string_end(s, i + 1) {
            None => None,
            Some(j) => scan_to_close(s, j, depth),
        }
    } else if s[i] == '{' || s[i] == '[' {
        scan_to_close(s, i + 1, depth + 1)
    } else if s[i] == '}' || s[i] == ']' {
        if depth == 1 {
            Some(i + 1)
        } else {
            scan_to_close(s, i + 1, depth - 1)
        }
    } else {
        scan_to_close(s, i + 1, depth)
    }
}

#[via_fn]
proof fn scan_to_close_decreases(s: Seq<char>, i: int, depth: int) {
    if 0 <= i < s.len() && depth > 0 && s[i] == '"' {
        lemma_string_end(s, i + 1);
    }
}

pub proof fn lemma_scan_to_close(s: Seq<char>, i: int, depth: int)
    requires
        0 <= i,
    ensures
        match scan_to_close(s, i, depth) {
            Some(j) => i + 1 <= j <= s.len(),
            None => true,
        },
    decreases s.len() - i,
{
    if 0 <= i < s.len() && depth > 0 {
        if s[i] == '"' {
            lemma_string_end(s, i + 1);
            match string_end(s, i + 1) {
                None => {},
                Some(j) => {
                    lemma_scan_to_close(s, j, depth);
                },
            }
        } else if s[i] == '{' || s[i] == '[' {
            lemma_scan_to_close(s, i + 1, depth + 1);
        } else if s[i] == '}' || s[i] == ']' {
            if depth != 1 {
                lemma_scan_to_close(s, i + 1, depth - 1);
            }
        } else {
            lemma_scan_to_close(s, i + 1, depth);
        }
    }
}

/// The position just after a primitive (number, literal) starting at `i`:
/// the first delimiter, closing bracket, comma or whitespace.
pub open spec fn prim_end(s: Seq<char>, i: int) -> int
    decreases s.len() - i,
{
    if i < 0 || i >= s.len() {
        i
    } else if s[i] == ',' || s[i] == '}' || s[i] == ']' || is_ws(s[i]) {
        i
    } else {
        prim_end(s, i + 1)
    }
}

pub proof fn lemma_prim_end(s: Seq<char>, i: int)
    requires
        0 <= i,
    ensures
        i <= prim_end(s, i),
        i <= s.len() ==> prim_end(s, i) <= s.len(),
    decreases s.len() - i,
{
    if 0 <= i < s.len() && !(s[i] == ',' || s[i] == '}' || s[i] == ']' || is_ws(s[i])) {
        lemma_prim_end(s, i + 1);
    }
}

/// The position just after the JSON value starting at `i`; `None` when the
/// value is unterminated.
pub open spec fn value_end(s: Seq<char>, i: int) -> Option<int> {
    if i < 0 || i >= s.len() {
        None
    } else if s[i] == '"' {
        string_end(s, i + 1)
    } else if s[i] == '{' || s[i] == '[' {
        scan_to_close(s, i + 1, 1)
    } else {
        Some(prim_end(s, i))
    }
}

pub proof fn lemma_value_end(s: Seq<char>, i: int)
    requires
        0 <= i,
    ensures
        match value_end(s, i) {
            Some(j) => i <= j <= s.len(),
            None => true,
        },
{
    if 0 <= i < s.len() {
        if s[i] == '"' {
            lemma_string_end(s, i + 1);
        } else if s[i] == '{' || s[i] == '[' {
            lemma_scan_to_close(s, i + 1, 1);
        } else {
            lemma_prim_end(s, i);
        }
    }
}

/// The errors of the deserializer: a frame that is not a JSON object, and an
/// object with no `op` member.
#[derive(Clone, Copy, PartialEq, Eq, Structural, Debug)]
pub enum FrameError {
    MalformedFrame,
    MissingOp,
}

/// A sequence number found in a frame: its value and the exact span
/// `[start, end)` of its digits, for in-place rewriting.
#[derive(Clone, Copy, PartialEq, Eq, Structural, Debug)]
pub struct SequenceInfo {
    pub value: u64,
    pub start: usize,
    pub end: usize,
}

/// An event type found in a frame: its name and the position of its opening
/// quote.
#[derive(Debug)]
pub struct EventTypeInfo {
    pub name: String,
    pub start: usize,
}

pub struct EventTypeModel {
    pub name: Seq<char>,
    pub start: usize,
}

impl View for EventTypeInfo {
    type V = EventTypeModel;

    open spec fn view(&self) -> EventTypeModel {
        EventTypeModel { name: self.name@, start: self.start }
    }
}

pub struct HeaderModel {
    pub op: u64,
    pub sequence: Option<SequenceInfo>,
    pub event_type: Option<EventTypeModel>,
}

/// Whether `key` is the two characters `op`.
pub open spec fn key_is_op(key: Seq<char>) -> bool {
    key.len() == 2 && key[0] == 'o' && key[1] == 'p'
}

pub open spec fn key_is_s(key: Seq<char>) -> bool {
    key.len() == 1 && key[0] == 's'
}

pub open spec fn key_is_t(key: Seq<char>) -> bool {
    key.len() == 1 && key[0] == 't'
}

/// Whether `v` is the JSON literal `null`.
pub open spec fn is_null_lit(v: Seq<char>) -> bool {
    v.len() == 4 && v[0] == 'n' && v[1] == 'u' && v[2] == 'l' && v[3] == 'l'
}

/// Whether `v` is a digit string whose value fits a `u64`.
pub open spec fn is_u64_digits(v: Seq<char>) -> bool {
    v.len() > 0 && all_digits(v) && digits_val(v) <= u64::MAX
}

/// Folds one `key: value` member into the partial header.
pub open spec fn apply_member(
    s: Seq<char>,
    key: Seq<char>,
    vstart: int,
    vend: int,
    op: Option<u64>,
    sq: Option<SequenceInfo>,
    t: Option<EventTypeModel>,
) -> Result<(Option<u64>, Option<SequenceInfo>, Option<EventTypeModel>), FrameError> {
    let v = s.subrange(vstart, vend);
    if key_is_op(key) {
        if is_u64_digits(v) {
            Ok((Some(digits_val(v) as u64), sq, t))
        } else {
            Err(FrameError::MalformedFrame)
        }
    } else if key_is_s(key) {
        if is_null_lit(v) {
            Ok((op, None, t))
        } else if is_u64_digits(v) {
            Ok(
                (
                    op,
                    Some(
                        SequenceInfo {
                            value: digits_val(v) as u64,
                            start: vstart as usize,
                            end: vend as usize,
                        },
                    ),
                    t,
                ),
            )
        } else {
            Err(FrameError::MalformedFrame)
        }
    } else if key_is_t(key) {
        if is_null_lit(v) {
            Ok((op, sq, None))
        } else if v.len() >= 2 && v[0] == '"' {
            Ok(
                (
                    op,
                    sq,
                    Some(
                        EventTypeModel {
                            name: s.subrange(vstart + 1, vend - 1),
                            start: vstart as usize,
                        },
                    ),
                ),
            )
        } else {
            Err(FrameError::MalformedFrame)
        }
    } else {
        Ok((op, sq, t))
    }
}

pub open spec fn finish_scan(
    op: Option<u64>,
    sq: Option<SequenceInfo>,
    t: Option<EventTypeModel>,
) -> Result<HeaderModel, FrameError> {
    match op {
        None => Err(FrameError::MissingOp),
        Some(o) => Ok(HeaderModel { op: o, sequence: sq, event_type: t }),
    }
}

/// Scans the members of the top-level object from position `i` on (just
/// after `{` or after a `,`), folding `op`, `s` and `t` as they appear.
pub open spec fn scan_members(
    s: Seq<char>,
    i: int,
    op: Option<u64>,
    sq: Option<SequenceInfo>,
    t: Option<EventTypeModel>,
) -> Result<HeaderModel, FrameError>
    decreases s.len() - i,
    via scan_members_decreases
{
    if i < 0 {
        Err(FrameError::MalformedFrame)
    } else {
        let i1 = skip_ws(s, i);
        if i1 >= s.len() {
            Err(FrameError::MalformedFrame)
        } else if s[i1] == '}' {
            finish_scan(op, sq, t)
        } else if s[i1] != '"' {
            Err(FrameError::MalformedFrame)
        } else {
            match string_end(s, i1 + 1) {
                None => Err(FrameError::MalformedFrame),
                Some(kend) => {
                    let key = s.subrange(i1 + 1, kend - 1);
                    let i2 = skip_ws(s, kend);
                    if i2 >= s.len() || s[i2] != ':' {
                        Err(FrameError::MalformedFrame)
                    } else {
                        let vstart = skip_ws(s, i2 + 1);
                        match value_end(s, vstart) {
                            None => Err(FrameError::MalformedFrame),
                            Some(vend) => match apply_member(s, key, vstart, vend, op, sq, t) {
                                Err(e) => Err(e),
                                Ok((op2, sq2, t2)) => {
                                    let i3 = skip_ws(s, vend);
                                    if i3 >= s.len() {
                                        Err(FrameError::MalformedFrame)
                                    } else if s[i3] == ',' {
                                        scan_members(s, i3 + 1, op2, sq2, t2)
                                    } else if s[i3] == '}' {
                                        finish_scan(op2, sq2, t2)
                                    } else {
                                        Err(FrameError::MalformedFrame)
                                    }
                                },
                            },
                        }
                    }
                }
            }
        }
    }
}

#[via_fn]
proof fn scan_members_decreases(
    s: Seq<char>,
    i: int,
    op: Option<u64>,
    sq: Option<SequenceInfo>,
    t: Option<EventTypeModel>,
) {
    if i >= 0 {
        lemma_skip_ws(s, i);
        let i1 = skip_ws(s, i);
        if i1 < s.len() && s[i1] != '}' && s[i1] == '"' {
            lemma_string_end(s, i1 + 1);
            match string_end(s, i1 + 1) {
                None => {},
                Some(kend) => {
                    lemma_skip_ws(s, kend);
                    let i2 = skip_ws(s, kend);
                    if i2 < s.len() && s[i2] == ':' {
                        lemma_skip_ws(s, i2 + 1);
                        let vstart = skip_ws(s, i2 + 1);
                        lemma_value_end(s, vstart);
                        match value_end(s, vstart) {
                            None => {},
                            Some(vend) => {
                                lemma_skip_ws(s, vend);
                            },
                        }
                    }
                },
            }
        }
    }
}

/// The whole scan: the frame must be a JSON object (else `MalformedFrame`)
/// holding an integer `op` (else `MissingOp`); `s` and `t` are reported when
/// present and non-null.
pub open spec fn spec_scan(s: Seq<char>) -> Result<HeaderModel, FrameError> {
    let i0 = skip_ws(s, 0);
    if i0 >= s.len() || s[i0] != '{' {
        Err(FrameError::MalformedFrame)
    } else {
        scan_members(s, i0 + 1, None, None, None)
    }
}

// ---------------------------------------------------------------------------
// The executable scanner, step for step the functions above.
// ---------------------------------------------------------------------------

pub fn skip_whitespace(s: &str, i: usize) -> (r: usize)
    requires
        i <= s@.len(),
    ensures
        r == skip_ws(s@, i as int),
        i <= r <= s@.len(),
    decreases s@.len() - i,
{
    if i < s.unicode_len() {
        let c = s.get_char(i);
        if c == ' ' || c == '\t' || c == '\n' || c == '\r' {
            return skip_whitespace(s, i + 1);
        }
    }
    i
}

pub fn string_close(s: &str, i: usize) -> (r: Option<usize>)
    requires
        i <= s@.len(),
    ensures
        match r {
            Some(j) => string_end(s@, i as int) == Some(j as int) && i + 1 <= j <= s@.len(),
            None => string_end(s@, i as int) is None,
        },
    decreases s@.len() - i,
{
    if i >= s.unicode_len() {
        None
    } else {
        let c = s.get_char(i);
        if c == '\\' {
            if i + 1 < s.unicode_len() {
                string_close(s, i + 2)
            } else {
                None
            }
        } else if c == '"' {
            Some(i + 1)
        } else {
            string_close(s, i + 1)
        }
    }
}

fn container_close(s: &str, i: usize, depth: usize) -> (r: Option<usize>)
    requires
        i <= s@.len(),
    ensures
        match r {
            Some(j) => scan_to_close(s@, i as int, depth as int) == Some(j as int) && i + 1 <= j
                <= s@.len(),
            None => scan_to_close(s@, i as int, depth as int) is None,
        },
    decreases s@.len() - i,
{
    if i >= s.unicode_len() || depth == 0 {
        None
    } else {
        let c = s.get_char(i);
        if c == '"' {
            match string_close(s, i + 1) {
                None => None,
                Some(j) => container_close(s, j, depth),
            }
        } else if c == '{' || c == '[' {
            if depth == usize::MAX {
                // Deeper than any real frame can nest within `usize` characters.
                proof {
                    lemma_scan_to_close_depth_overflow(s@, i as int + 1, depth as int + 1);
                }
                None
            } else {
                container_close(s, i + 1, depth + 1)
            }
        } else if c == '}' || c == ']' {
            if depth == 1 {
                Some(i + 1)
            } else {
                container_close(s, i + 1, depth - 1)
            }
        } else {
            container_close(s, i + 1, depth)
        }
    }
}

/// A scan that has already opened `usize::MAX` containers cannot close them
/// within the characters that remain, so it reports an unterminated value.
proof fn lemma_scan_to_close_depth_overflow(s: Seq<char>, i: int, depth: int)
    requires
        0 <= i <= s.len(),
        depth > s.len() - i,
    ensures
        scan_to_close(s, i, depth) is None,
    decreases s.len() - i,
{
    if i < s.len() && depth > 0 {
        if s[i] == '"' {
            lemma_string_end(s, i + 1);
            match string_end(s, i + 1) {
                None => {},
                Some(j) => {
                    lemma_scan_to_close_depth_overflow(s, j, depth);
                },
            }
        } else if s[i] == '{' || s[i] == '[' {
            lemma_scan_to_close_depth_overflow(s, i + 1, depth + 1);
        } else if s[i] == '}' || s[i] == ']' {
            lemma_scan_to_close_depth_overflow(s, i + 1, depth - 1);
        } else {
            lemma_scan_to_close_depth_overflow(s, i + 1, depth);
        }
    }
}

fn primitive_close(s: &str, i: usize) -> (r: usize)
    requires
        i <= s@.len(),
    ensures
        r == prim_end(s@, i as int),
        i <= r <= s@.len(),
    decreases s@.len() - i,
{
    if i >= s.unicode_len() {
        i
    } else {
        let c = s.get_char(i);
        if c == ',' || c == '}' || c == ']' || c == ' ' || c == '\t' || c == '\n' || c == '\r' {
            i
        } else {
            primitive_close(s, i + 1)
        }
    }
}

pub fn value_close(s: &str, i: usize) -> (r: Option<usize>)
    requires
        i <= s@.len(),
    ensures
        match r {
            Some(j) => value_end(s@, i as int) == Some(j as int) && i <= j <= s@.len(),
            None => value_end(s@, i as int) is None,
        },
{
    if i >= s.unicode_len() {
        None
    } else {
        let c = s.get_char(i);
        if c == '"' {
            string_close(s, i + 1)
        } else if c == '{' || c == '[' {
            container_close(s, i + 1, 1)
        } else {
            Some(primitive_close(s, i))
        }
    }
}

pub proof fn lemma_digits_val_bounds(v: Seq<char>)
    requires
        all_digits(v),
    ensures
        digits_val(v) >= 0,
        v.len() > 0 ==> digits_val(v) >= digits_val(v.drop_last()),
    decreases v.len(),
{
    if v.len() > 0 {
        lemma_digits_val_bounds(v.drop_last());
    }
}

/// Extending a digit string never shrinks its value.
pub proof fn lemma_digits_val_prefix(v: Seq<char>, k: int)
    requires
        all_digits(v),
        0 <= k <= v.len(),
    ensures
        digits_val(v.take(k)) <= digits_val(v),
    decreases v.len() - k,
{
    if k < v.len() {
        lemma_digits_val_prefix(v, k + 1);
        let w = v.take(k + 1);
        assert(w.drop_last() =~= v.take(k));
        assert(all_digits(w));
        lemma_digits_val_bounds(w);
    } else {
        assert(v.take(k) =~= v);
    }
}

/// Reads the digit string `s[a..b]` as a `u64`; `None` when the span is
/// empty, holds a non-digit, or overflows.
fn parse_u64_digits(s: &str, a: usize, b: usize) -> (r: Option<u64>)
    requires
        a <= b <= s@.len(),
    ensures
        r == (if is_u64_digits(s@.subrange(a as int, b as int)) {
            Some(digits_val(s@.subrange(a as int, b as int)) as u64)
        } else {
            None::<u64>
        }),
{
    let ghost v = s@.subrange(a as int, b as int);
    if a == b {
        return None;
    }
    let mut acc: u64 = 0;
    let mut i: usize = a;
    while i < b
        invariant
            a <= i <= b <= s@.len(),
            v == s@.subrange(a as int, b as int),
            all_digits(s@.subrange(a as int, i as int)),
            acc == digits_val(s@.subrange(a as int, i as int)),
        decreases b - i,
    {
        let c = s.get_char(i);
        if !('0' <= c && c <= '9') {
            proof {
                assert(v[i - a] == c);
                assert(!is_digit(v[i - a]));
            }
            return None;
        }
        let d: u64 = (c as u32 as u64) - 48;
        proof {
            assert(s@.subrange(a as int, i as int + 1).drop_last() =~= s@.subrange(
                a as int,
                i as int,
            ));
            assert(s@.subrange(a as int, i as int + 1).last() == c);
        }
        if acc > (u64::MAX - d) / 10 {
            proof {
                let w = s@.subrange(a as int, i as int + 1);
                assert(all_digits(w));
                assert(digits_val(w) == acc * 10 + digit_val_of(c));
                assert(acc * 10 + d > u64::MAX) by (nonlinear_arith)
                    requires
                        acc > (u64::MAX - d) / 10,
                        d <= 9,
                ;
                assert(w =~= v.take(i - a + 1));
                lemma_digits_val_prefix_partial(v, i - a + 1);
            }
            return None;
        }
        acc = acc * 10 + d;
        i = i + 1;
    }
    proof {
        assert(s@.subrange(a as int, b as int) =~= v);
    }
    Some(acc)
}

/// `digit_val`, under a name the proofs above can trigger on.
pub open spec fn digit_val_of(c: char) -> int {
    crate::text::digit_val(c)
}

/// If a prefix of `v` already exceeds `u64::MAX`, then `v` is no `u64` digit
/// string even when every character is a digit.
proof fn lemma_digits_val_prefix_partial(v: Seq<char>, k: int)
    requires
        0 <= k <= v.len(),
        all_digits(v.take(k)),
        digits_val(v.take(k)) > u64::MAX,
    ensures
        !is_u64_digits(v),
{
    if all_digits(v) {
        lemma_digits_val_prefix(v, k);
    }
}

/// The deserialized header of one gateway frame.
#[derive(Debug)]
pub struct GatewayEventDeserializer {
    pub op: u64,
    pub sequence: Option<SequenceInfo>,
    pub event_type: Option<EventTypeInfo>,
}

impl View for GatewayEventDeserializer {
    type V = HeaderModel;

    open spec fn view(&self) -> HeaderModel {
        HeaderModel {
            op: self.op,
            sequence: self.sequence,
            event_type: match self.event_type {
                Some(t) => Some(t@),
                None => None,
            },
        }
    }
}

/// The view of a scan result.
pub open spec fn scan_result_view(r: Result<GatewayEventDeserializer, FrameError>) -> Result<
    HeaderModel,
    FrameError,
> {
    match r {
        Ok(h) => Ok(h@),
        Err(e) => Err(e),
    }
}

fn scan_members_x(
    s: &str,
    i: usize,
    op: Option<u64>,
    sq: Option<SequenceInfo>,
    t: Option<EventTypeInfo>,
) -> (r: Result<GatewayEventDeserializer, FrameError>)
    requires
        i <= s@.len(),
    ensures
        scan_result_view(r) == scan_members(
            s@,
            i as int,
            op,
            sq,
            match t {
                Some(ti) => Some(ti@),
                None => None,
            },
        ),
    decreases s@.len() - i,
{
    let ghost t0 = match t {
        Some(ref ti) => Some(ti@),
        None => None,
    };
    let i1 = skip_whitespace(s, i);
    if i1 >= s.unicode_len() {
        return Err(FrameError::MalformedFrame);
    }
    let c1 = s.get_char(i1);
    if c1 == '}' {
        return match op {
            None => Err(FrameError::MissingOp),
            Some(o) => Ok(GatewayEventDeserializer { op: o, sequence: sq, event_type: t }),
        };
    }
    if c1 != '"' {
        return Err(FrameError::MalformedFrame);
    }
    let kend = match string_close(s, i1 + 1) {
        None => {
            return Err(FrameError::MalformedFrame);
        },
        Some(j) => j,
    };
    let ghost key = s@.subrange(i1 + 1, kend - 1);
    let klen: usize = kend - 1 - (i1 + 1);
    let i2 = skip_whitespace(s, kend);
    if i2 >= s.unicode_len() || s.get_char(i2) != ':' {
        return Err(FrameError::MalformedFrame);
    }
    let vstart = skip_whitespace(s, i2 + 1);
    let vend = match value_close(s, vstart) {
        None => {
            return Err(FrameError::MalformedFrame);
        },
        Some(j) => j,
    };
    let ghost v = s@.subrange(vstart as int, vend as int);
    proof {
        assert(forall|k: int|
            0 <= k < v.len() ==> v[k] == s@[vstart + k]);
    }
    let vnull: bool = vend - vstart == 4 && s.get_char(vstart) == 'n' && s.get_char(vstart + 1)
        == 'u' && s.get_char(vstart + 2) == 'l' && s.get_char(vstart + 3) == 'l';
    proof {
        assert(vnull == is_null_lit(v));
    }
    let is_op: bool = klen == 2 && s.get_char(i1 + 1) == 'o' && s.get_char(i1 + 2) == 'p';
    let is_s: bool = klen == 1 && s.get_char(i1 + 1) == 's';
    let is_t: bool = klen == 1 && s.get_char(i1 + 1) == 't';
    proof {
        assert(forall|k: int| 0 <= k < key.len() ==> key[k] == s@[i1 + 1 + k]);
        assert(is_op == key_is_op(key));
        assert(is_s == key_is_s(key));
        assert(is_t == key_is_t(key));
    }
    let mut op2 = op;
    let mut sq2 = sq;
    let mut t2 = t;
    if is_op {
        match parse_u64_digits(s, vstart, vend) {
            None => {
                return Err(FrameError::MalformedFrame);
            },
            Some(val) => {
                op2 = Some(val);
            },
        }
    } else if is_s {
        if vnull {
            sq2 = None;
        } else {
            match parse_u64_digits(s, vstart, vend) {
                None => {
                    return Err(FrameError::MalformedFrame);
                },
                Some(val) => {
                    sq2 = Some(SequenceInfo { value: val, start: vstart, end: vend });
                },
            }
        }
    } else if is_t {
        if vnull {
            t2 = None;
        } else if vend - vstart >= 2 && s.get_char(vstart) == '"' {
            let name = s.substring_char(vstart + 1, vend - 1).to_owned();
            t2 = Some(EventTypeInfo { name, start: vstart });
        } else {
            return Err(FrameError::MalformedFrame);
        }
    }
    let ghost t2v = match t2 {
        Some(ref ti) => Some(ti@),
        None => None,
    };
    proof {
        assert(apply_member(s@, key, vstart as int, vend as int, op, sq, t0) == Ok::<_, FrameError>(
            (op2, sq2, t2v),
        ));
    }
    let i3 = skip_whitespace(s, vend);
    if i3 >= s.unicode_len() {
        return Err(FrameError::MalformedFrame);
    }
    let c3 = s.get_char(i3);
    if c3 == ',' {
        scan_members_x(s, i3 + 1, op2, sq2, t2)
    } else if c3 == '}' {
        match op2 {
            None => Err(FrameError::MissingOp),
            Some(o) => Ok(GatewayEventDeserializer { op: o, sequence: sq2, event_type: t2 }),
        }
    } else {
        Err(FrameError::MalformedFrame)
    }
}

impl GatewayEventDeserializer {
    /// Scans a frame for its `op`, `s` and `t` members, in any order,
    /// without reading the body `d`.
    pub fn from_json(payload: &str) -> (r: Result<GatewayEventDeserializer, FrameError>)
        ensures
            scan_result_view(r) == spec_scan(payload@),
    {
        let i0 = skip_whitespace(payload, 0);
        if i0 >= payload.unicode_len() || payload.get_char(i0) != '{' {
            Err(FrameError::MalformedFrame)
        } else {
            scan_members_x(payload, i0 + 1, None, None, None)
        }
    }

    /// The header, taken apart as the dispatcher consumes it.
    pub fn into_parts(self) -> (r: (u64, Option<SequenceInfo>, Option<EventTypeInfo>))
        ensures
            r.0 == self@.op,
            r.1 == self@.sequence,
            (match r.2 {
                Some(t) => Some(t@),
                None => None,
            }) == self@.event_type,
    {
        (self.op, self.sequence, self.event_type)
    }
}

/// The frame with the digits at `[info.start, info.end)` — the position of
/// its `s` value — replaced by `new_seq` written in decimal, every other
/// character unchanged.
pub fn rewrite_sequence(payload: &str, info: &SequenceInfo, new_seq: u64) -> (r: String)
    requires
        info.start <= info.end <= payload@.len(),
    ensures
        r@ == payload@.subrange(0, info.start as int) + crate::text::spec_digits(new_seq as nat)
            + payload@.subrange(info.end as int, payload@.len() as int),
{
    let mut out = payload.substring_char(0, info.start).to_owned();
    let digits = crate::text::u64_to_string(new_seq);
    out.append(digits.as_str());
    out.append(payload.substring_char(info.end, payload.unicode_len()));
    out
}

} // verus!
