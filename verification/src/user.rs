//! Account rules: the constraints a username and a password must meet, and
//! the password encryption applied before anything is stored or compared.

use vstd::prelude::*;
use sha2::Digest;

verus! {

use vstd::string::StringSliceAdditionalSpecFns;
use vstd::string::StrSliceExecFns;
use vstd::string::StringExecFns;

/// A member of the chat service, as the storage layer describes it.
pub struct User {
    pub username: String,
    pub nickname: String,
    pub profile_picture_filename: Option<String>,
}

/// Why a username is rejected.
#[derive(Clone, Copy, Debug, PartialEq, Eq, Structural)]
pub enum UsernameConstraintError {
    /// Not between 6 and 20 bytes long.
    LengthError,
    /// Holds a character that is not a lowercase letter, a digit, a period
    /// or an underscore.
    CharacterError,
}

/// Why a password is rejected.
#[derive(Clone, Copy, Debug, PartialEq, Eq, Structural)]
pub enum PasswordConstraintError {
    /// Shorter than 8 bytes.
    LengthError,
    /// Misses a lowercase letter, an uppercase letter or a digit.
    CombinationError,
}

/// A character a username may consist of: lowercase alphanumeric, period or
/// underscore.
pub open spec fn allowed_username_char(c: char) -> bool {
    ('a' <= c && c <= 'z') || ('0' <= c && c <= '9') || c == '.' || c == '_'
}

/// Some character of `s` lies between `lo` and `hi`.
pub open spec fn has_char_in(s: Seq<char>, lo: char, hi: char) -> bool {
    exists|i: int| 0 <= i < s.len() && lo <= #[trigger] s[i] && s[i] <= hi
}

/// Some character of `s` is an ASCII lowercase letter.
pub open spec fn has_ascii_lowercase(s: Seq<char>) -> bool {
    has_char_in(s, 'a', 'z')
}

/// Some character of `s` is an ASCII uppercase letter.
pub open spec fn has_ascii_uppercase(s: Seq<char>) -> bool {
    has_char_in(s, 'A', 'Z')
}

/// Some character of `s` is an ASCII digit.
pub open spec fn has_ascii_digit(s: Seq<char>) -> bool {
    has_char_in(s, '0', '9')
}

/// Extending a prefix by one character extends what it may contain by
/// exactly that character.
proof fn lemma_has_char_in_extend(s: Seq<char>, k: int, lo: char, hi: char)
    requires
        0 <= k < s.len(),
    ensures
        has_char_in(s.subrange(0, k + 1), lo, hi) <==> (has_char_in(s.subrange(0, k), lo, hi)
            || (lo <= s[k] && s[k] <= hi)),
{
    let pre = s.subrange(0, k);
    let cur = s.subrange(0, k + 1);
    if has_char_in(cur, lo, hi) {
        let j = choose|j: int| 0 <= j < cur.len() && lo <= #[trigger] cur[j] && cur[j] <= hi;
        if j < k {
            assert(pre[j] == cur[j]);
        } else {
            assert(cur[k] == s[k]);
        }
    }
    if has_char_in(pre, lo, hi) {
        let j = choose|j: int| 0 <= j < pre.len() && lo <= #[trigger] pre[j] && pre[j] <= hi;
        assert(cur[j] == pre[j]);
    }
    if lo <= s[k] && s[k] <= hi {
        assert(cur[k] == s[k]);
    }
}

/// The SHA-512 digest of a byte sequence: a function of the bytes alone,
/// computed by the outside hash implementation.
pub uninterp spec fn sha512_of(data: Seq<u8>) -> Seq<u8>;

/// Relies on sha2::Sha512 through the one-shot Digest API: the digest of
/// `data`, always 64 bytes.
#[verifier::external_body]
fn sha512(data: &[u8]) -> (r: Vec<u8>)
    ensures
        r@ == sha512_of(data@),
        r@.len() == 64,
{
    sha2::Sha512::digest(data).to_vec()
}

/// The hex character for a value below 16, lowercase.
pub open spec fn hex_digit(d: int) -> char {
    if d == 0 {
        '0'
    } else if d == 1 {
        '1'
    } else if d == 2 {
        '2'
    } else if d == 3 {
        '3'
    } else if d == 4 {
        '4'
    } else if d == 5 {
        '5'
    } else if d == 6 {
        '6'
    } else if d == 7 {
        '7'
    } else if d == 8 {
        '8'
    } else if d == 9 {
        '9'
    } else if d == 10 {
        'a'
    } else if d == 11 {
        'b'
    } else if d == 12 {
        'c'
    } else if d == 13 {
        'd'
    } else if d == 14 {
        'e'
    } else {
        'f'
    }
}

/// Bytes rendered as lowercase hex, two characters a byte, high nibble
/// first.
pub open spec fn hex_lower(bs: Seq<u8>) -> Seq<char>
    decreases bs.len(),
{
    if bs.len() == 0 {
        Seq::empty()
    } else {
        hex_lower(bs.drop_last()) + seq![
            hex_digit(bs.last() as int / 16),
            hex_digit(bs.last() as int % 16),
        ]
    }
}

/// The one-character string for a value below 16, lowercase hex.
fn hex_digit_str(d: u8) -> (r: &'static str)
    requires
        d < 16,
    ensures
        r@ == seq![hex_digit(d as int)],
{
    proof {
        reveal_strlit("0");
        reveal_strlit("1");
        reveal_strlit("2");
        reveal_strlit("3");
        reveal_strlit("4");
        reveal_strlit("5");
        reveal_strlit("6");
        reveal_strlit("7");
        reveal_strlit("8");
        reveal_strlit("9");
        reveal_strlit("a");
        reveal_strlit("b");
        reveal_strlit("c");
        reveal_strlit("d");
        reveal_strlit("e");
        reveal_strlit("f");
    }
    let r = match d {
        0 => "0",
        1 => "1",
        2 => "2",
        3 => "3",
        4 => "4",
        5 => "5",
        6 => "6",
        7 => "7",
        8 => "8",
        9 => "9",
        10 => "a",
        11 => "b",
        12 => "c",
        13 => "d",
        14 => "e",
        _ => "f",
    };
    proof {
        assert(r@ =~= seq![hex_digit(d as int)]);
    }
    r
}

/// Render bytes as lowercase hex.
fn to_hex(bytes: &Vec<u8>) -> (r: String)
    ensures
        r@ == hex_lower(bytes@),
{
    let mut r = String::new();
    let mut i: usize = 0;
    while i < bytes.len()
        invariant
            i <= bytes@.len(),
            r@ == hex_lower(bytes@.subrange(0, i as int)),
        decreases bytes@.len() - i,
    {
        let b = bytes[i];
        r.append(hex_digit_str(b / 16));
        r.append(hex_digit_str(b % 16));
        proof {
            let cur = bytes@.subrange(0, i + 1 as int);
            assert(cur.drop_last() =~= bytes@.subrange(0, i as int));
            assert(cur.last() == bytes@[i as int]);
        }
        i = i + 1;
    }
    proof {
        assert(bytes@.subrange(0, bytes@.len() as int) =~= bytes@);
    }
    r
}

impl UsernameConstraintError {
    /// The message shown to the client for this rejection.
    pub fn message(&self) -> (m: &'static str)
        ensures
            *self is LengthError ==> m@ == "Username should between 6 to 20 characters long."@,
            *self is CharacterError ==> m@
                == "Username should be consisted with only alphanumeric, period or underscore character."@,
    {
        match self {
            UsernameConstraintError::LengthError => "Username should between 6 to 20 characters long.",
            UsernameConstraintError::CharacterError => "Username should be consisted with only alphanumeric, period or underscore character.",
        }
    }
}

impl PasswordConstraintError {
    /// The message shown to the client for this rejection.
    pub fn message(&self) -> (m: &'static str)
        ensures
            *self is LengthError ==> m@ == "Password should at least 8 characters."@,
            *self is CombinationError ==> m@
                == "Password should be a combination of upper/lowercases and numbers."@,
    {
        match self {
            PasswordConstraintError::LengthError => "Password should at least 8 characters.",
            PasswordConstraintError::CombinationError => "Password should be a combination of upper/lowercases and numbers.",
        }
    }
}

impl User {
    /// A username must be 6 to 20 bytes long — checked first — and consist
    /// only of lowercase alphanumeric characters, periods and underscores.
    pub fn check_username_constraint(username: &str) -> (r: Result<(), UsernameConstraintError>)
        ensures
            r matches Err(e) ==> (e is LengthError <==> !(6 <= username.spec_bytes().len()
                <= 20)),
            r is Ok <==> (6 <= username.spec_bytes().len() <= 20) && (forall|i: int|
                0 <= i < username@.len() ==> allowed_username_char(#[trigger] username@[i])),
            r matches Err(e) && e is CharacterError ==> !(forall|i: int|
                0 <= i < username@.len() ==> allowed_username_char(#[trigger] username@[i])),
    {
        if username.as_bytes().len() < 6 || username.as_bytes().len() > 20 {
            return Err(UsernameConstraintError::LengthError);
        }
        let n = username.unicode_len();
        let mut i: usize = 0;
        while i < n
            invariant
                i <= n,
                n == username@.len(),
                6 <= username.spec_bytes().len() <= 20,
                forall|j: int| 0 <= j < i ==> allowed_username_char(#[trigger] username@[j]),
            decreases n - i,
        {
            let c = username.get_char(i);
            if !((c >= 'a' && c <= 'z') || (c >= '0' && c <= '9') || c == '.' || c == '_') {
                proof {
                    assert(!allowed_username_char(username@[i as int]));
                }
                return Err(UsernameConstraintError::CharacterError);
            }
            i = i + 1;
        }
        Ok(())
    }

    /// A password must be at least 8 bytes long — checked first — and hold
    /// at least one lowercase letter, one uppercase letter and one digit.
    pub fn check_password_constraint(password: &str) -> (r: Result<(), PasswordConstraintError>)
        ensures
            r matches Err(e) ==> (e is LengthError <==> password.spec_bytes().len() < 8),
            r is Ok <==> password.spec_bytes().len() >= 8 && has_ascii_lowercase(password@)
                && has_ascii_uppercase(password@) && has_ascii_digit(password@),
    {
        if password.as_bytes().len() < 8 {
            return Err(PasswordConstraintError::LengthError);
        }
        let n = password.unicode_len();
        let mut contains_lowercase = false;
        let mut contains_uppercase = false;
        let mut contains_number = false;
        let mut i: usize = 0;
        while i < n
            invariant
                i <= n,
                n == password@.len(),
                contains_lowercase <==> has_ascii_lowercase(password@.subrange(0, i as int)),
                contains_uppercase <==> has_ascii_uppercase(password@.subrange(0, i as int)),
                contains_number <==> has_ascii_digit(password@.subrange(0, i as int)),
            decreases n - i,
        {
            let c = password.get_char(i);
            if c >= 'a' && c <= 'z' {
                contains_lowercase = true;
            } else if c >= 'A' && c <= 'Z' {
                contains_uppercase = true;
            } else if c >= '0' && c <= '9' {
                contains_number = true;
            }
            proof {
                lemma_has_char_in_extend(password@, i as int, 'a', 'z');
                lemma_has_char_in_extend(password@, i as int, 'A', 'Z');
                lemma_has_char_in_extend(password@, i as int, '0', '9');
            }
            i = i + 1;
        }
        proof {
            assert(password@.subrange(0, n as int) =~= password@);
        }
        if contains_lowercase && contains_uppercase && contains_number {
            Ok(())
        } else {
            Err(PasswordConstraintError::CombinationError)
        }
    }

    /// Encrypt a password for storage: the lowercase-hex SHA-512 digest of
    /// the password followed by the salt. The same password and salt always
    /// encrypt alike, which is what login comparison rests on.
    pub fn encrypt_password(plain_password: &str, salt: &str) -> (r: String)
        ensures
            r@ == hex_lower(sha512_of(plain_password.spec_bytes() + salt.spec_bytes())),
    {
        let mut data = plain_password.as_bytes_vec();
        let mut salt_bytes = salt.as_bytes_vec();
        data.append(&mut salt_bytes);
        let digest = sha512(data.as_slice());
        to_hex(&digest)
    }
}

} // verus!
