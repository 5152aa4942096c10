use vstd::prelude::*;

verus! {

/// A character that may not appear in a subscriber's name: the control
/// characters U+0000 to U+001F and U+007F to U+009F, as `char::is_control`
/// counts them.
pub open spec fn is_control(c: char) -> bool {
    (c as u32) < 32 || (127 <= (c as u32) && (c as u32) <= 159)
}

/// A character that may not appear in an email address: controls and spaces.
pub open spec fn is_blank_or_control(c: char) -> bool {
    (c as u32) == 32 || is_control(c)
}

/// Number of occurrences of `c` among the first `n` characters of `s`.
pub open spec fn count_char(s: Seq<char>, c: char, n: int) -> nat
    decreases n,
{
    if n <= 0 {
        0
    } else if s[n - 1] == c {
        count_char(s, c, n - 1) + 1
    } else {
        count_char(s, c, n - 1)
    }
}

/// A well-formed address: exactly one `@`, with a non-empty part on each side,
/// and no blank or control character anywhere.
pub open spec fn valid_email(s: Seq<char>) -> bool {
    &&& s.len() >= 3
    &&& count_char(s, '@', s.len() as int) == 1
    &&& s[0] != '@'
    &&& s[s.len() - 1] != '@'
    &&& forall|i: int| 0 <= i < s.len() ==> !is_blank_or_control(#[trigger] s[i])
}

/// A display name: non-empty and free of control characters.
pub open spec fn valid_name(s: Seq<char>) -> bool {
    &&& s.len() > 0
    &&& forall|i: int| 0 <= i < s.len() ==> !is_control(#[trigger] s[i])
}

/// Checks the syntax of an email address.
pub fn is_valid_email(s: &str) -> (r: bool)
    ensures
        r == valid_email(s@),
{
    let n = s.unicode_len();
    if n < 3 {
        return false;
    }
    let mut ats: usize = 0;
    let mut i: usize = 0;
    while i < n
        invariant
            n == s@.len(),
            i <= n,
            ats == count_char(s@, '@', i as int),
            ats <= i,
            forall|j: int| 0 <= j < i ==> !is_blank_or_control(#[trigger] s@[j]),
        decreases n - i,
    {
        let c = s.get_char(i);
        if (c as u32) <= 32 || (127 <= (c as u32) && (c as u32) <= 159) {
            return false;
        }
        if c == '@' {
            ats = ats + 1;
        }
        i = i + 1;
    }
    ats == 1 && s.get_char(0) != '@' && s.get_char(n - 1) != '@'
}

/// Checks that a display name is non-empty and has no control character.
pub fn is_valid_name(s: &str) -> (r: bool)
    ensures
        r == valid_name(s@),
{
    let n = s.unicode_len();
    if n == 0 {
        return false;
    }
    let mut i: usize = 0;
    while i < n
        invariant
            n == s@.len(),
            i <= n,
            forall|j: int| 0 <= j < i ==> !is_control(#[trigger] s@[j]),
        decreases n - i,
    {
        let c = s.get_char(i);
        if (c as u32) < 32 || (127 <= (c as u32) && (c as u32) <= 159) {
            return false;
        }
        i = i + 1;
    }
    true
}

/// Compares two strings character by character.
pub fn str_eq(a: &str, b: &str) -> (r: bool)
    ensures
        r == (a@ == b@),
{
    let n = a.unicode_len();
    if n != b.unicode_len() {
        return false;
    }
    let mut i: usize = 0;
    while i < n
        invariant
            n == a@.len(),
            n == b@.len(),
            i <= n,
            forall|j: int| 0 <= j < i ==> a@[j] == b@[j],
        decreases n - i,
    {
        if a.get_char(i) != b.get_char(i) {
            return false;
        }
        i = i + 1;
    }
    assert(a@ =~= b@);
    true
}

} // verus!
