//! Parsing a prompt line as a bounded unsigned integer: the validation step
//! of the interactive length and block-size prompts.

use vstd::prelude::*;
use vstd::string::*;
use crate::{in_bounds, MAX_BOUND, MIN_BOUND};

verus! {

/// ASCII whitespace as it appears around a line read from a terminal.
pub open spec fn is_ws_char(c: char) -> bool {
    c == ' ' || c == '\t' || c == '\r' || c == '\n'
}

/// A decimal digit.
pub open spec fn is_dec_digit(c: char) -> bool {
    '0' <= c && c <= '9'
}

/// The numeric value of a digit character.
pub open spec fn digit_val(c: char) -> int {
    c as int - '0' as int
}

/// `s` with leading and trailing whitespace removed.
pub open spec fn trimmed(s: Seq<char>) -> Seq<char>
    decreases s.len(),
{
    if s.len() > 0 && is_ws_char(s.first()) {
        trimmed(s.drop_first())
    } else if s.len() > 0 && is_ws_char(s.last()) {
        trimmed(s.drop_last())
    } else {
        s
    }
}

/// Every character of `s` is a decimal digit.
pub open spec fn all_digits(s: Seq<char>) -> bool {
    forall|i: int| 0 <= i < s.len() ==> is_dec_digit(#[trigger] s[i])
}

/// The value of a sequence of decimal digits, most significant first.
pub open spec fn dec_val(s: Seq<char>) -> int
    decreases s.len(),
{
    if s.len() == 0 {
        0
    } else {
        dec_val(s.drop_last()) * 10 + digit_val(s.last())
    }
}

/// The digits of a trimmed line, once an optional leading `+` sign is
/// stripped: the part of the line that carries the numeric value.
pub open spec fn numeral_part(s: Seq<char>) -> Seq<char> {
    let t = trimmed(s);
    if t.len() > 0 && t.first() == '+' {
        t.drop_first()
    } else {
        t
    }
}

/// True when the line is a well-formed unsigned 16-bit numeral: optional
/// surrounding whitespace, an optional `+` sign, at least one digit, only
/// digits, and a value that fits in sixteen bits.
pub open spec fn parses_as_u16(s: Seq<char>) -> bool {
    let b = numeral_part(s);
    b.len() > 0 && all_digits(b) && dec_val(b) <= u16::MAX
}

/// The value the line denotes, when `parses_as_u16` holds.
pub open spec fn parsed_u16(s: Seq<char>) -> int {
    dec_val(numeral_part(s))
}

proof fn lemma_dec_val_nonneg(s: Seq<char>)
    requires
        all_digits(s),
    ensures
        dec_val(s) >= 0,
    decreases s.len(),
{
    if s.len() > 0 {
        assert(all_digits(s.drop_last()));
        lemma_dec_val_nonneg(s.drop_last());
    }
}

/// Appending digits to a numeral never lowers its value.
proof fn lemma_dec_val_prefix(s: Seq<char>, k: int)
    requires
        all_digits(s),
        0 <= k <= s.len(),
    ensures
        dec_val(s) >= dec_val(s.subrange(0, k)),
    decreases s.len() - k,
{
    if k == s.len() {
        assert(s.subrange(0, k) =~= s);
    } else {
        lemma_dec_val_prefix(s, k + 1);
        let p = s.subrange(0, k + 1);
        assert(p.drop_last() =~= s.subrange(0, k));
        assert(all_digits(s.subrange(0, k)));
        lemma_dec_val_nonneg(s.subrange(0, k));
        assert(dec_val(p) == dec_val(s.subrange(0, k)) * 10 + digit_val(s[k]));
    }
}

/// Parse a prompt line as a decimal `u16`, accepting surrounding whitespace
/// and an optional `+` sign, exactly when the whole trimmed line is a
/// numeral whose value fits in sixteen bits.
pub fn parse_u16_line(line: &str) -> (r: Option<u16>)
    ensures
        r is Some <==> parses_as_u16(line@),
        r is Some ==> r->0 == parsed_u16(line@),
{
    let n = line.unicode_len();
    let mut start: usize = 0;
    let mut end: usize = n;
    proof {
        assert(line@.subrange(0, n as int) =~= line@);
    }
    while start < end && is_ws(line.get_char(start))
        invariant
            0 <= start <= end <= line@.len(),
            end == line@.len(),
            trimmed(line@) == trimmed(line@.subrange(start as int, end as int)),
        decreases end - start,
    {
        proof {
            let sub = line@.subrange(start as int, end as int);
            assert(sub.drop_first() =~= line@.subrange(start as int + 1, end as int));
        }
        start = start + 1;
    }
    while start < end && is_ws(line.get_char(end - 1))
        invariant
            0 <= start <= end <= line@.len(),
            start < end ==> !is_ws_char(line@.subrange(start as int, end as int).first()),
            trimmed(line@) == trimmed(line@.subrange(start as int, end as int)),
        decreases end,
    {
        proof {
            let sub = line@.subrange(start as int, end as int);
            assert(sub.drop_last() =~= line@.subrange(start as int, end as int - 1));
        }
        end = end - 1;
    }
    proof {
        let sub = line@.subrange(start as int, end as int);
        assert(trimmed(sub) == sub);
        assert(trimmed(line@) =~= sub);
    }
    let mut bstart = start;
    if start < end && line.get_char(start) == '+' {
        bstart = start + 1;
        proof {
            assert(numeral_part(line@) =~= line@.subrange(bstart as int, end as int));
        }
    } else {
        proof {
            assert(numeral_part(line@) =~= line@.subrange(bstart as int, end as int));
        }
    }
    if bstart == end {
        return None;
    }
    let ghost body = line@.subrange(bstart as int, end as int);
    let mut acc: u32 = 0;
    let mut i = bstart;
    while i < end
        invariant
            bstart <= i <= end <= line@.len(),
            bstart < end,
            body == line@.subrange(bstart as int, end as int),
            numeral_part(line@) == body,
            all_digits(body.subrange(0, i - bstart)),
            acc <= u16::MAX,
            acc == dec_val(body.subrange(0, i - bstart)),
        decreases end - i,
    {
        let c = line.get_char(i);
        if !('0' <= c && c <= '9') {
            proof {
                assert(body[i - bstart] == c);
                assert(!is_dec_digit(body[i - bstart]));
                assert(!all_digits(body));
            }
            return None;
        }
        let d: u32 = (c as u32) - 48;
        let next: u32 = acc * 10 + d;
        proof {
            assert(body.subrange(0, i - bstart + 1).drop_last() =~= body.subrange(
                0,
                i - bstart,
            ));
            assert(dec_val(body.subrange(0, i - bstart + 1)) == acc * 10 + digit_val(c));
        }
        if next > u16::MAX as u32 {
            proof {
                if all_digits(body) {
                    lemma_dec_val_prefix(body, i - bstart + 1);
                }
            }
            return None;
        }
        acc = next;
        i = i + 1;
    }
    proof {
        assert(body.subrange(0, end - bstart) =~= body);
    }
    Some(acc as u16)
}

/// Whether `c` is ASCII whitespace.
fn is_ws(c: char) -> (r: bool)
    ensures
        r == is_ws_char(c),
{
    c == ' ' || c == '\t' || c == '\r' || c == '\n'
}

/// Validate one line of prompt input for a length or block size: the line
/// is accepted exactly when it is a `u16` numeral whose value lies within
/// the allowed bounds, so no accepted value ever falls outside them.
pub fn validate_prompt_line(line: &str) -> (r: Option<u16>)
    ensures
        r is Some <==> parses_as_u16(line@) && MIN_BOUND <= parsed_u16(line@) <= MAX_BOUND,
        r is Some ==> r->0 == parsed_u16(line@) && in_bounds(r->0),
{
    match parse_u16_line(line) {
        Some(v) => {
            if crate::check_bounds(v) {
                Some(v)
            } else {
                None
            }
        },
        None => None,
    }
}

} // verus!
