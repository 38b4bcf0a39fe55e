//! Validated value objects: e-mail addresses and passwords.
//!
//! Passwords are checked entirely by verified code. E-mail syntax and
//! lowercasing are delegated to the `validator` crate and to `str`'s Unicode
//! tables through trusted wrappers whose results carry opaque names, so the
//! contracts here are exact up to those names.

use vstd::prelude::*;
use vstd::string::StrSliceExecFns;

verus! {

/// What `char::is_uppercase` returns: whether the character has the Unicode
/// `Uppercase` property. Opaque; the tables take pages to state.
pub uninterp spec fn char_is_upper(c: char) -> bool;

/// What `char::is_lowercase` returns: whether the character has the Unicode
/// `Lowercase` property.
pub uninterp spec fn char_is_lower(c: char) -> bool;

/// What `str::to_lowercase` returns for a given character sequence.
pub uninterp spec fn lower_of(s: Seq<char>) -> Seq<char>;

/// What the `validator` crate's e-mail check returns for a given character
/// sequence (the HTML5 e-mail grammar).
pub uninterp spec fn email_valid(s: Seq<char>) -> bool;

pub assume_specification[ char::is_uppercase ](c: char) -> (r: bool)
    ensures
        r == char_is_upper(c),
;

pub assume_specification[ char::is_lowercase ](c: char) -> (r: bool)
    ensures
        r == char_is_lower(c),
;

/// Relies on `str::to_lowercase`: the result depends on the characters alone,
/// and an empty string stays empty.
#[verifier::external_body]
pub(crate) fn lowercase_str(s: &str) -> (r: String)
    ensures
        r@ == lower_of(s@),
        s@.len() == 0 ==> r@.len() == 0,
{
    s.to_lowercase()
}

/// Relies on `validator::ValidateEmail` for `&str`: a pure syntax check.
/// Its source rejects the empty string and any string without an `'@'`
/// before all other rules.
#[verifier::external_body]
fn validate_email_str(s: &str) -> (r: bool)
    ensures
        r == email_valid(s@),
        s@.len() == 0 ==> !r,
        !s@.contains('@') ==> !r,
{
    validator::ValidateEmail::validate_email(&s)
}

/// A syntactically valid e-mail address, stored lowercased.
#[derive(Debug, Clone)]
pub struct Email(String);

impl View for Email {
    type V = Seq<char>;

    closed spec fn view(&self) -> Seq<char> {
        self.0@
    }
}

#[derive(Debug)]
pub enum EmailError {
    InvalidFormat(String),
}

impl Email {
    /// Accepts exactly the addresses the e-mail grammar admits, lowercasing
    /// them; returns the offending input otherwise. The grammar rejects at
    /// least the empty string and any string without an `'@'`.
    pub fn new(email: String) -> (r: Result<Email, EmailError>)
        ensures
            email_valid(email@) ==> (r matches Ok(e) && e@ == lower_of(email@)),
            !email_valid(email@) ==> (r matches Err(EmailError::InvalidFormat(s)) && s@
                == email@),
            email@.len() == 0 ==> r is Err,
            !email@.contains('@') ==> r is Err,
    {
        if validate_email_str(email.as_str()) {
            let lowered = lowercase_str(email.as_str());
            Ok(Email(lowered))
        } else {
            Err(EmailError::InvalidFormat(email))
        }
    }

    pub fn as_str(&self) -> (r: &str)
        ensures
            r@ == self@,
    {
        self.0.as_str()
    }
}

/// Whether `c` is an ASCII decimal digit, `'0'` through `'9'`.
pub open spec fn is_digit_char(c: char) -> bool {
    48 <= c as u32 <= 57
}

/// Whether `c` is one of the punctuation characters the password rules admit.
pub open spec fn is_special_char(c: char) -> bool {
    ||| c == '!'
    ||| c == '@'
    ||| c == '#'
    ||| c == '$'
    ||| c == '%'
    ||| c == '^'
    ||| c == '&'
    ||| c == '*'
    ||| c == '('
    ||| c == ')'
    ||| c == '_'
    ||| c == '+'
    ||| c == '-'
    ||| c == '='
    ||| c == '['
    ||| c == ']'
    ||| c == '{'
    ||| c == '}'
    ||| c == '|'
    ||| c == ';'
    ||| c == ':'
    ||| c == ','
    ||| c == '.'
    ||| c == '<'
    ||| c == '>'
    ||| c == '?'
}

pub open spec fn has_upper(s: Seq<char>) -> bool {
    exists|i: int| 0 <= i < s.len() && char_is_upper(s[i])
}

pub open spec fn has_lower(s: Seq<char>) -> bool {
    exists|i: int| 0 <= i < s.len() && char_is_lower(s[i])
}

pub open spec fn has_digit(s: Seq<char>) -> bool {
    exists|i: int| 0 <= i < s.len() && is_digit_char(s[i])
}

pub open spec fn has_special(s: Seq<char>) -> bool {
    exists|i: int| 0 <= i < s.len() && is_special_char(s[i])
}

/// The full password rule: length within bounds and one character of each
/// of the four classes present. Lengths count characters, not bytes; the
/// two agree on ASCII passwords.
pub open spec fn password_ok(s: Seq<char>) -> bool {
    &&& 8 <= s.len() <= 128
    &&& has_upper(s)
    &&& has_lower(s)
    &&& has_digit(s)
    &&& has_special(s)
}

#[derive(Debug, PartialEq, Eq, Structural)]
pub enum PasswordError {
    TooShort { min: usize, actual: usize },
    TooLong { max: usize, actual: usize },
    NoUppercase,
    NoLowercase,
    NoDigit,
    NoSpecialChar,
}

#[derive(Debug, Clone, PartialEq, Eq, Structural)]
pub enum PasswordStrength {
    Weak,
    Medium,
    Strong,
    VeryStrong,
}

/// The strength score: up to two points for length, one per character class.
pub open spec fn strength_score(s: Seq<char>) -> int {
    (if s.len() >= 12 {
        2int
    } else if s.len() >= 8 {
        1int
    } else {
        0int
    }) + (if has_upper(s) {
        1int
    } else {
        0int
    }) + (if has_lower(s) {
        1int
    } else {
        0int
    }) + (if has_digit(s) {
        1int
    } else {
        0int
    }) + (if has_special(s) {
        1int
    } else {
        0int
    })
}

pub open spec fn strength_of(s: Seq<char>) -> PasswordStrength {
    let score = strength_score(s);
    if score <= 2 {
        PasswordStrength::Weak
    } else if score <= 4 {
        PasswordStrength::Medium
    } else if score <= 6 {
        PasswordStrength::Strong
    } else {
        PasswordStrength::VeryStrong
    }
}

/// A password that passed at least the length rules.
#[derive(Debug, Clone)]
pub struct Password(String);

impl View for Password {
    type V = Seq<char>;

    closed spec fn view(&self) -> Seq<char> {
        self.0@
    }
}

/// Scans `s` once and reports which of the four character classes occur.
fn scan_classes(s: &str) -> (r: (bool, bool, bool, bool))
    ensures
        r.0 == has_upper(s@),
        r.1 == has_lower(s@),
        r.2 == has_digit(s@),
        r.3 == has_special(s@),
{
    let n = s.unicode_len();
    let mut upper = false;
    let mut lower = false;
    let mut digit = false;
    let mut special = false;
    let mut i: usize = 0;
    while i < n
        invariant
            n == s@.len(),
            0 <= i <= n,
            upper == exists|j: int| 0 <= j < i && char_is_upper(s@[j]),
            lower == exists|j: int| 0 <= j < i && char_is_lower(s@[j]),
            digit == exists|j: int| 0 <= j < i && is_digit_char(s@[j]),
            special == exists|j: int| 0 <= j < i && is_special_char(s@[j]),
        decreases n - i,
    {
        let c = s.get_char(i);
        if c.is_uppercase() {
            upper = true;
        }
        if c.is_lowercase() {
            lower = true;
        }
        let u = c as u32;
        if 48 <= u && u <= 57 {
            digit = true;
        }
        if is_special(c) {
            special = true;
        }
        i = i + 1;
    }
    (upper, lower, digit, special)
}

/// Whether `c` belongs to the admitted punctuation set.
fn is_special(c: char) -> (r: bool)
    ensures
        r == is_special_char(c),
{
    match c {
        '!' | '@' | '#' | '$' | '%' | '^' | '&' | '*' | '(' | ')' | '_' | '+' | '-' | '=' | '['
            | ']' | '{' | '}' | '|' | ';' | ':' | ',' | '.' | '<' | '>' | '?' => true,
        _ => false,
    }
}

impl Password {
    /// Accepts exactly the strings that satisfy the full password rule; the
    /// error names the first rule broken, in the order length, uppercase,
    /// lowercase, digit, punctuation.
    pub fn validate(password: &str) -> (r: Result<(), PasswordError>)
        ensures
            r matches Ok(_) <==> password_ok(password@),
            r matches Err(e) ==> match e {
                PasswordError::TooShort { min, actual } => {
                    &&& password@.len() < 8
                    &&& min == 8
                    &&& actual == password@.len()
                },
                PasswordError::TooLong { max, actual } => {
                    &&& password@.len() > 128
                    &&& max == 128
                    &&& actual == password@.len()
                },
                PasswordError::NoUppercase => {
                    &&& 8 <= password@.len() <= 128
                    &&& !has_upper(password@)
                },
                PasswordError::NoLowercase => {
                    &&& 8 <= password@.len() <= 128
                    &&& has_upper(password@)
                    &&& !has_lower(password@)
                },
                PasswordError::NoDigit => {
                    &&& 8 <= password@.len() <= 128
                    &&& has_upper(password@)
                    &&& has_lower(password@)
                    &&& !has_digit(password@)
                },
                PasswordError::NoSpecialChar => {
                    &&& 8 <= password@.len() <= 128
                    &&& has_upper(password@)
                    &&& has_lower(password@)
                    &&& has_digit(password@)
                    &&& !has_special(password@)
                },
            },
    {
        let n = password.unicode_len();
        if n < 8 {
            return Err(PasswordError::TooShort { min: 8, actual: n });
        }
        if n > 128 {
            return Err(PasswordError::TooLong { max: 128, actual: n });
        }
        let (upper, lower, digit, special) = scan_classes(password);
        if !upper {
            return Err(PasswordError::NoUppercase);
        }
        if !lower {
            return Err(PasswordError::NoLowercase);
        }
        if !digit {
            return Err(PasswordError::NoDigit);
        }
        if !special {
            return Err(PasswordError::NoSpecialChar);
        }
        Ok(())
    }

    /// Accepts exactly the strings that satisfy the full password rule.
    pub fn new(password: String) -> (r: Result<Password, PasswordError>)
        ensures
            password_ok(password@) <==> r matches Ok(_),
            r matches Ok(p) ==> p@ == password@,
    {
        match Self::validate(password.as_str()) {
            Ok(_) => Ok(Password(password)),
            Err(e) => Err(e),
        }
    }

    /// Accepts any string of admissible length, skipping the character-class
    /// rules.
    pub fn new_weak(password: String) -> (r: Result<Password, PasswordError>)
        ensures
            8 <= password@.len() <= 128 <==> r matches Ok(_),
            r matches Ok(p) ==> p@ == password@,
            r matches Err(e) ==> match e {
                PasswordError::TooShort { min, actual } => {
                    &&& password@.len() < 8
                    &&& min == 8
                    &&& actual == password@.len()
                },
                PasswordError::TooLong { max, actual } => {
                    &&& password@.len() > 128
                    &&& max == 128
                    &&& actual == password@.len()
                },
                _ => false,
            },
    {
        let n = password.unicode_len();
        if n < 8 {
            return Err(PasswordError::TooShort { min: 8, actual: n });
        }
        if n > 128 {
            return Err(PasswordError::TooLong { max: 128, actual: n });
        }
        Ok(Password(password))
    }

    pub fn as_str(&self) -> (r: &str)
        ensures
            r@ == self@,
    {
        self.0.as_str()
    }

    /// Scores the password and maps the score onto the four strength bands.
    pub fn strength(&self) -> (r: PasswordStrength)
        ensures
            r == strength_of(self@),
    {
        let s = self.0.as_str();
        let n = s.unicode_len();
        let mut score: u32 = 0;
        if n >= 12 {
            score = score + 2;
        } else if n >= 8 {
            score = score + 1;
        }
        let (upper, lower, digit, special) = scan_classes(s);
        if upper {
            score = score + 1;
        }
        if lower {
            score = score + 1;
        }
        if digit {
            score = score + 1;
        }
        if special {
            score = score + 1;
        }
        if score <= 2 {
            PasswordStrength::Weak
        } else if score <= 4 {
            PasswordStrength::Medium
        } else {
            PasswordStrength::Strong
        }
    }
}

} // verus!
