//! The command parser: an inbound text frame is either a control command
//! (slash-prefixed) or a plain chat message.
//!
//! The only recognized command is `/join <conversation-id>` with a base-10
//! integer id; every other slash-prefixed frame is an invalid request. A
//! malformed id is an invalid request too, never an error that tears the
//! connection down.

use vstd::prelude::*;

verus! {

/// What an inbound text frame asks for.
#[derive(Clone, Copy, Debug, PartialEq, Eq, Structural)]
pub enum Command {
    /// `/join <id>`: move this connection into conversation `id`.
    Join(i64),
    /// A slash-prefixed frame that is no well-formed command.
    Invalid,
    /// No slash prefix: a chat message to relay as it stands.
    Chat,
}

/// A decimal digit.
pub open spec fn is_digit_char(c: char) -> bool {
    '0' <= c && c <= '9'
}

/// Its numeric value.
pub open spec fn digit_value(c: char) -> int {
    (c as int) - ('0' as int)
}

/// Every character a digit.
pub open spec fn all_digits(s: Seq<char>) -> bool {
    forall|i: int| 0 <= i < s.len() ==> is_digit_char(s[i])
}

/// The number a digit string denotes, most significant digit first.
pub open spec fn digits_value(s: Seq<char>) -> int
    decreases s.len(),
{
    if s.len() == 0 {
        0
    } else {
        digits_value(s.drop_last()) * 10 + digit_value(s.last())
    }
}

/// The digit part of an integer literal: everything past a leading sign.
pub open spec fn int_literal_digits(s: Seq<char>) -> Seq<char> {
    if s.len() > 0 && (s[0] == '+' || s[0] == '-') {
        s.subrange(1, s.len() as int)
    } else {
        s
    }
}

/// A well-formed base-10 integer literal: an optional sign, then at least
/// one digit and nothing else.
pub open spec fn is_int_literal(s: Seq<char>) -> bool {
    int_literal_digits(s).len() > 0 && all_digits(int_literal_digits(s))
}

/// The integer a literal denotes.
pub open spec fn int_literal_value(s: Seq<char>) -> int {
    if s.len() > 0 && s[0] == '-' {
        -digits_value(int_literal_digits(s))
    } else {
        digits_value(int_literal_digits(s))
    }
}

/// A literal that denotes a value an `i64` can hold.
pub open spec fn parses_to_i64(s: Seq<char>) -> bool {
    is_int_literal(s) && i64::MIN <= int_literal_value(s) <= i64::MAX
}

/// `i` is the position of the first space in `s`.
pub open spec fn is_first_space(s: Seq<char>, i: int) -> bool {
    0 <= i < s.len() && s[i] == ' ' && forall|j: int| 0 <= j < i ==> s[j] != ' '
}

/// A digit string's value never shrinks as digits are appended.
proof fn lemma_digits_prefix_le(t: Seq<char>, k: int)
    requires
        all_digits(t),
        0 <= k <= t.len(),
    ensures
        digits_value(t.subrange(0, k)) <= digits_value(t),
        digits_value(t) >= 0,
    decreases t.len() - k,
{
    if k == t.len() {
        assert(t.subrange(0, k) =~= t);
        lemma_digits_nonneg(t);
    } else {
        lemma_digits_prefix_le(t, k + 1);
        assert(t.subrange(0, k + 1).drop_last() =~= t.subrange(0, k));
        assert(t.subrange(0, k + 1).last() == t[k]);
        lemma_digits_nonneg(t.subrange(0, k));
    }
}

/// A digit string's value is never negative.
proof fn lemma_digits_nonneg(t: Seq<char>)
    requires
        all_digits(t),
    ensures
        digits_value(t) >= 0,
    decreases t.len(),
{
    if t.len() > 0 {
        assert(all_digits(t.drop_last()));
        lemma_digits_nonneg(t.drop_last());
    }
}

/// The magnitude of the smallest `i64`, the largest a literal may denote in
/// magnitude when negative.
const I64_MIN_MAGNITUDE: u128 = 9223372036854775808;

/// Parse a base-10 integer as `str::parse::<i64>` accepts it: an optional
/// `+` or `-`, then one or more digits, the value within `i64`'s range.
/// Returns the value exactly when the input is such a literal.
pub fn parse_i64(s: &str) -> (r: Option<i64>)
    ensures
        r is Some <==> parses_to_i64(s@),
        r matches Some(v) ==> v as int == int_literal_value(s@),
{
    let n = s.unicode_len();
    if n == 0 {
        return None;
    }
    let first = s.get_char(0);
    let start: usize = if first == '-' || first == '+' {
        1
    } else {
        0
    };
    if start == n {
        return None;
    }
    let ghost digits = s@.subrange(start as int, n as int);
    proof {
        assert(digits =~= int_literal_digits(s@));
    }
    let mut i: usize = start;
    let mut mag: u128 = 0;
    while i < n
        invariant
            start <= i <= n,
            n == s@.len(),
            start == 1 ==> (s@[0] == '-' || s@[0] == '+'),
            start == 0 ==> !(s@[0] == '-' || s@[0] == '+'),
            digits == s@.subrange(start as int, n as int),
            digits == int_literal_digits(s@),
            all_digits(s@.subrange(start as int, i as int)),
            mag <= I64_MIN_MAGNITUDE,
            mag as int == digits_value(s@.subrange(start as int, i as int)),
        decreases n - i,
    {
        let c = s.get_char(i);
        if !(c >= '0' && c <= '9') {
            proof {
                let idx = i as int - start as int;
                assert(digits[idx] == s@[i as int]);
                assert(!is_digit_char(digits[idx]));
                assert(!all_digits(digits));
            }
            return None;
        }
        let d = (c as u32 - '0' as u32) as u128;
        proof {
            assert(s@.subrange(start as int, i + 1 as int).drop_last() =~= s@.subrange(
                start as int,
                i as int,
            ));
            assert(s@.subrange(start as int, i + 1 as int).last() == s@[i as int]);
        }
        mag = mag * 10 + d;
        if mag > I64_MIN_MAGNITUDE {
            proof {
                if all_digits(digits) {
                    lemma_digits_prefix_le(digits, i + 1 - start as int);
                    assert(digits.subrange(0, i + 1 - start as int) =~= s@.subrange(
                        start as int,
                        i + 1 as int,
                    ));
                    assert(digits_value(digits) > I64_MIN_MAGNITUDE as int);
                    if s@[0] == '-' {
                        assert(int_literal_value(s@) < i64::MIN);
                    } else {
                        assert(int_literal_value(s@) > i64::MAX);
                    }
                }
            }
            return None;
        }
        i = i + 1;
    }
    proof {
        assert(s@.subrange(start as int, i as int) =~= digits);
    }
    if start == 1 && first == '-' {
        Some((-(mag as i128)) as i64)
    } else {
        if mag > I64_MIN_MAGNITUDE - 1 {
            proof {
                assert(int_literal_value(s@) > i64::MAX);
            }
            None
        } else {
            Some(mag as i64)
        }
    }
}

/// Position of the first space in `s`, if any.
fn find_space(s: &str) -> (r: Option<usize>)
    ensures
        match r {
            Some(i) => is_first_space(s@, i as int),
            None => forall|j: int| 0 <= j < s@.len() ==> s@[j] != ' ',
        },
{
    let n = s.unicode_len();
    let mut i: usize = 0;
    while i < n
        invariant
            i <= n,
            n == s@.len(),
            forall|j: int| 0 <= j < i ==> s@[j] != ' ',
        decreases n - i,
    {
        if s.get_char(i) == ' ' {
            return Some(i);
        }
        i = i + 1;
    }
    None
}

/// Interpret an inbound text frame.
///
/// A frame without the `/` prefix is a chat message. A prefixed frame is
/// split at its first space into a command word and an argument;
/// `/join <id>` with a well-formed `i64` id is a join, everything else —
/// an unknown word, a missing argument, a malformed or out-of-range id —
/// is an invalid request.
pub fn parse_command(s: &str) -> (r: Command)
    ensures
        !(s@.len() > 0 && s@[0] == '/') ==> r == Command::Chat,
        s@.len() > 0 && s@[0] == '/' && (forall|j: int| 0 <= j < s@.len() ==> s@[j] != ' ') ==> r
            == Command::Invalid,
        forall|i: int|
            s@.len() > 0 && s@[0] == '/' && is_first_space(s@, i) ==> {
                let head = s@.subrange(0, i);
                let tail = s@.subrange(i + 1, s@.len() as int);
                if head == "/join"@ && parses_to_i64(tail) {
                    r matches Command::Join(v) && v as int == int_literal_value(tail)
                } else {
                    r == Command::Invalid
                }
            },
{
    let n = s.unicode_len();
    if n == 0 || s.get_char(0) != '/' {
        return Command::Chat;
    }
    let sp = match find_space(s) {
        None => {
            return Command::Invalid;
        },
        Some(sp) => sp,
    };
    proof {
        assert forall|i: int| is_first_space(s@, i) implies i == sp as int by {
            if i < sp as int {
                assert(s@[i] != ' ');
            } else if i > sp as int {
                assert(s@[sp as int] != ' ');
            }
        }
        reveal_strlit("/join");
    }
    let ghost head = s@.subrange(0, sp as int);
    let ghost tail = s@.subrange(sp as int + 1, s@.len() as int);
    if sp == 5 && s.get_char(1) == 'j' && s.get_char(2) == 'o' && s.get_char(3) == 'i'
        && s.get_char(4) == 'n' {
        proof {
            assert(head =~= "/join"@);
        }
        let arg = s.substring_char(6, n);
        proof {
            assert(arg@ =~= tail);
        }
        match parse_i64(arg) {
            Some(v) => Command::Join(v),
            None => Command::Invalid,
        }
    } else {
        proof {
            if head == "/join"@ {
                assert(head.len() == 5);
                assert(sp == 5);
                assert(head[1] == 'j' && head[2] == 'o' && head[3] == 'i' && head[4] == 'n');
                assert(s@[1] == 'j' && s@[2] == 'o' && s@[3] == 'i' && s@[4] == 'n');
            }
        }
        Command::Invalid
    }
}

} // verus!
