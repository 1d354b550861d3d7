use vstd::prelude::*;

verus! {

/// Unicode's `White_Space` characters, which `char::is_whitespace` tests.
pub open spec fn is_white_space(c: char) -> bool {
    let u = c as u32;
    ||| 0x09 <= u && u <= 0x0D
    ||| u == 0x20
    ||| u == 0x85
    ||| u == 0xA0
    ||| u == 0x1680
    ||| 0x2000 <= u && u <= 0x200A
    ||| u == 0x2028
    ||| u == 0x2029
    ||| u == 0x202F
    ||| u == 0x205F
    ||| u == 0x3000
}

/// The text without its leading white space.
pub open spec fn trim_start(s: Seq<char>) -> Seq<char>
    decreases s.len(),
{
    if s.len() > 0 && is_white_space(s[0]) {
        trim_start(s.drop_first())
    } else {
        s
    }
}

/// The text without its trailing white space.
pub open spec fn trim_end(s: Seq<char>) -> Seq<char>
    decreases s.len(),
{
    if s.len() > 0 && is_white_space(s.last()) {
        trim_end(s.drop_last())
    } else {
        s
    }
}

/// The text without its leading and trailing white space.
pub open spec fn trimmed(s: Seq<char>) -> Seq<char> {
    trim_end(trim_start(s))
}

/// Relies on `str::trim`: it takes off the leading and trailing characters
/// for which `char::is_whitespace` holds, that is Unicode's `White_Space`.
#[verifier::external_body]
pub(crate) fn trim_text(s: &str) -> (r: String)
    ensures
        r@ == trimmed(s@),
{
    s.trim().to_string()
}

/// `a` stands for the letter `b`: it is `b`, or the ASCII capital of `b`.
pub open spec fn same_letter_ignoring_case(a: char, b: char) -> bool {
    ||| a == b
    ||| 'A' <= a && a <= 'Z' && (a as u32) + 32 == (b as u32)
}

/// `t` spells the lower-case word `word`, with any of its ASCII letters
/// written as capitals.
pub open spec fn spells_ignoring_case(t: Seq<char>, word: Seq<char>) -> bool {
    &&& t.len() == word.len()
    &&& forall|i: int| 0 <= i < t.len() ==> same_letter_ignoring_case(#[trigger] t[i], word[i])
}

/// Whether `s` spells the lower-case word `word`, ASCII capitals allowed.
pub fn spells_word_ignoring_case(s: &str, word: &str) -> (r: bool)
    ensures
        r == spells_ignoring_case(s@, word@),
{
    let n = s.unicode_len();
    if n != word.unicode_len() {
        return false;
    }
    let mut i: usize = 0;
    while i < n
        invariant
            n == s@.len() == word@.len(),
            i <= n,
            forall|j: int| 0 <= j < i ==> same_letter_ignoring_case(#[trigger] s@[j], word@[j]),
        decreases n - i,
    {
        let a = s.get_char(i);
        let b = word.get_char(i);
        let lowered = 'A' <= a && a <= 'Z' && (a as u32) + 32 == (b as u32);
        if a != b && !lowered {
            return false;
        }
        i = i + 1;
    }
    true
}

/// Whether a text is `lit`, character for character.
pub(crate) fn text_is(s: &String, lit: &str) -> (r: bool)
    ensures
        r == (s@ == lit@),
{
    let lit_string = String::from_str(lit);
    *s == lit_string
}

/// The base-10 digits of `n`, most significant first, with no leading zero.
pub open spec fn decimal_text(n: nat) -> Seq<char>
    decreases n,
{
    let digits = seq!['0', '1', '2', '3', '4', '5', '6', '7', '8', '9'];
    if n < 10 {
        seq![digits[n as int]]
    } else {
        decimal_text(n / 10).push(digits[(n % 10) as int])
    }
}

/// Relies on `u64`'s `Display` (through `ToString`): it writes the number in
/// base 10, with no sign and no leading zero.
#[verifier::external_body]
pub(crate) fn decimal(n: u64) -> (r: String)
    ensures
        r@ == decimal_text(n as nat),
{
    n.to_string()
}

} // verus!
