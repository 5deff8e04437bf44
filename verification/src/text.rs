//! Character-level helpers on strings, specified over `Seq<char>`.
use vstd::prelude::*;
use vstd::string::{StrSliceExecFns, StringExecFns};
use vstd::utf8::is_ascii_chars;

verus! {

/// `s` holds the character `c`.
#[verifier::opaque]
pub open spec fn seq_has_char(s: Seq<char>, c: char) -> bool {
    s.contains(c)
}

/// `s` begins with `prefix`.
#[verifier::opaque]
pub open spec fn seq_starts_with(s: Seq<char>, prefix: Seq<char>) -> bool {
    prefix.len() <= s.len() && s.subrange(0, prefix.len() as int) == prefix
}

/// `s` ends with the character `c`.
#[verifier::opaque]
pub open spec fn seq_ends_with_char(s: Seq<char>, c: char) -> bool {
    s.len() > 0 && s.last() == c
}

/// `s` with the first `n` occurrences of `c` taken out, everything else kept in order.
pub open spec fn remove_first_n(s: Seq<char>, c: char, n: nat) -> Seq<char>
    decreases s.len(),
{
    if s.len() == 0 {
        s
    } else if n > 0 && s[0] == c {
        remove_first_n(s.drop_first(), c, (n - 1) as nat)
    } else {
        seq![s[0]] + remove_first_n(s.drop_first(), c, n)
    }
}

/// How many times `c` occurs in `s`.
pub open spec fn count_char(s: Seq<char>, c: char) -> nat
    decreases s.len(),
{
    if s.len() == 0 {
        0
    } else {
        (if s[0] == c {
            1nat
        } else {
            0nat
        }) + count_char(s.drop_first(), c)
    }
}

/// The characters of `s` other than `c`, in order.
pub open spec fn without_char(s: Seq<char>, c: char) -> Seq<char>
    decreases s.len(),
{
    if s.len() == 0 {
        s
    } else if s[0] == c {
        without_char(s.drop_first(), c)
    } else {
        seq![s[0]] + without_char(s.drop_first(), c)
    }
}

/// Taking out the first `n` occurrences of `c` takes out exactly that many (or
/// all, when there are fewer) and keeps every other character in order.
pub proof fn lemma_remove_first_n(s: Seq<char>, c: char, n: nat)
    ensures
        count_char(remove_first_n(s, c, n), c) == count_char(s, c) - (if n < count_char(s, c) {
            n
        } else {
            count_char(s, c)
        }),
        without_char(remove_first_n(s, c, n), c) == without_char(s, c),
        remove_first_n(s, c, n).len() + (if n < count_char(s, c) {
            n
        } else {
            count_char(s, c)
        }) == s.len(),
    decreases s.len(),
{
    if s.len() > 0 {
        let rest = s.drop_first();
        if n > 0 && s[0] == c {
            lemma_remove_first_n(rest, c, (n - 1) as nat);
        } else {
            lemma_remove_first_n(rest, c, n);
            let r = remove_first_n(rest, c, n);
            assert((seq![s[0]] + r).drop_first() =~= r);
            assert((seq![s[0]] + r)[0] == s[0]);
            if s[0] != c {
                assert((seq![s[0]] + without_char(r, c)).len() > 0);
            }
        }
    }
}

/// Two strings hold the same characters.
pub fn str_equals(a: &str, b: &str) -> (res: bool)
    ensures
        res == (a@ == b@),
{
    let n = a.unicode_len();
    if n != b.unicode_len() {
        return false;
    }
    let mut i: usize = 0;
    while i < n
        invariant
            n == a@.len(),
            n == b@.len(),
            i <= n,
            forall|j: int| 0 <= j < i ==> a@[j] == b@[j],
        decreases n - i,
    {
        if a.get_char(i) != b.get_char(i) {
            return false;
        }
        i = i + 1;
    }
    assert(a@ =~= b@);
    true
}

/// `s` begins with `prefix`.
pub fn str_starts_with(s: &str, prefix: &str) -> (res: bool)
    ensures
        res == seq_starts_with(s@, prefix@),
{
    reveal(seq_starts_with);
    let n = prefix.unicode_len();
    if n > s.unicode_len() {
        return false;
    }
    let mut i: usize = 0;
    while i < n
        invariant
            n == prefix@.len(),
            n <= s@.len(),
            i <= n,
            forall|j: int| 0 <= j < i ==> s@[j] == prefix@[j],
        decreases n - i,
    {
        if s.get_char(i) != prefix.get_char(i) {
            assert(s@.subrange(0, n as int)[i as int] != prefix@[i as int]);
            reveal(seq_starts_with);
            return false;
        }
        i = i + 1;
    }
    assert(s@.subrange(0, n as int) =~= prefix@);
    true
}

/// `s` holds the character `c`.
pub fn str_contains_char(s: &str, c: char) -> (res: bool)
    ensures
        res == seq_has_char(s@, c),
{
    reveal(seq_has_char);
    let n = s.unicode_len();
    let mut i: usize = 0;
    while i < n
        invariant
            n == s@.len(),
            i <= n,
            forall|j: int| 0 <= j < i ==> s@[j] != c,
        decreases n - i,
    {
        if s.get_char(i) == c {
            reveal(seq_has_char);
            return true;
        }
        i = i + 1;
    }
    false
}

/// `s` ends with the character `c`.
pub fn str_ends_with_char(s: &str, c: char) -> (res: bool)
    ensures
        res == seq_ends_with_char(s@, c),
{
    reveal(seq_ends_with_char);
    let n = s.unicode_len();
    if n == 0 {
        false
    } else {
        s.get_char(n - 1) == c
    }
}

/// What `str::to_uppercase` returns for a string holding `s`: the uppercase
/// equivalent as the Unicode Derived Core Property `Uppercase` defines it.
pub uninterp spec fn unicode_uppercase(s: Seq<char>) -> Seq<char>;

/// A character in ASCII upper case: `a` to `z` become `A` to `Z`, every other
/// character stays.
pub open spec fn ascii_upper_char(c: char) -> char {
    if 'a' <= c <= 'z' {
        ((c as u32) - 32) as char
    } else {
        c
    }
}

/// A string in ASCII upper case.
pub open spec fn ascii_upper(s: Seq<char>) -> Seq<char> {
    s.map_values(|c: char| ascii_upper_char(c))
}

/// ASCII upper case keeps a string ASCII, and applying it twice is applying it once.
pub proof fn lemma_ascii_upper(s: Seq<char>)
    requires
        is_ascii_chars(s),
    ensures
        is_ascii_chars(ascii_upper(s)),
        ascii_upper(ascii_upper(s)) == ascii_upper(s),
{
    assert(ascii_upper(ascii_upper(s)) =~= ascii_upper(s));
}

/// Calls `str::to_uppercase`. Claims that the result is `unicode_uppercase` of
/// the argument, a function of the characters alone; that for an ASCII string
/// it is the ASCII upper case (the Unicode uppercase mapping of ASCII letters
/// is `a`–`z` to `A`–`Z`, and every other ASCII character maps to itself); and,
/// since each character is replaced by its own uppercase mapping in turn and
/// `;` and `-` have none (so stay themselves), that a `;` in the string stays
/// in the result and a leading `--` stays leading. Which characters it gives
/// for other letters (the Unicode case tables) is left unstated.
#[verifier::external_body]
pub(crate) fn to_uppercase(s: &str) -> (res: String)
    ensures
        res@ == unicode_uppercase(s@),
        is_ascii_chars(s@) ==> res@ == ascii_upper(s@),
        seq_has_char(s@, ';') ==> seq_has_char(res@, ';'),
        seq_starts_with(s@, "--"@) ==> seq_starts_with(res@, "--"@),
{
    s.to_uppercase()
}

/// The character that a byte stands for when read as Latin-1 (`byte as char`).
pub open spec fn byte_char(b: u8) -> char {
    b as char
}

/// Converts a byte to the character with the same code point.
pub(crate) fn char_of_byte(b: u8) -> (c: char)
    ensures
        c == byte_char(b),
{
    b as char
}

/// Calls `String::push`, which appends the character at the end of the string;
/// the contract claims just that.
#[verifier::external_body]
pub(crate) fn push_char(s: &mut String, c: char)
    ensures
        final(s)@ == old(s)@.push(c),
{
    s.push(c);
}

proof fn lemma_remove_first_n_step(s: Seq<char>, c: char, n: nat, i: int)
    requires
        0 <= i < s.len(),
    ensures
        remove_first_n(s.skip(i), c, n) == (if n > 0 && s[i] == c {
            remove_first_n(s.skip(i + 1), c, (n - 1) as nat)
        } else {
            seq![s[i]] + remove_first_n(s.skip(i + 1), c, n)
        }),
{
    assert(s.skip(i).drop_first() =~= s.skip(i + 1));
}

/// A copy of `s` without the first `n` occurrences of `c`.
pub fn remove_first_occurrences(s: &str, c: char, n: usize) -> (res: String)
    ensures
        res@ == remove_first_n(s@, c, n as nat),
{
    let len = s.unicode_len();
    let mut out = String::new();
    let mut left: usize = n;
    let mut i: usize = 0;
    assert(s@.skip(0) =~= s@);
    while i < len
        invariant
            len == s@.len(),
            i <= len,
            left <= n,
            out@ + remove_first_n(s@.skip(i as int), c, left as nat) == remove_first_n(
                s@,
                c,
                n as nat,
            ),
        decreases len - i,
    {
        let ch = s.get_char(i);
        proof {
            lemma_remove_first_n_step(s@, c, left as nat, i as int);
        }
        if left > 0 && ch == c {
            left = left - 1;
        } else {
            let ghost before = out@;
            push_char(&mut out, ch);
            assert(before + (seq![ch] + remove_first_n(s@.skip(i + 1), c, left as nat)) =~= out@
                + remove_first_n(s@.skip(i + 1), c, left as nat));
        }
        i = i + 1;
    }
    assert(s@.skip(len as int) =~= Seq::<char>::empty());
    assert(out@ + Seq::<char>::empty() =~= out@);
    out
}

/// The decimal digit for `d`, which is below 10.
pub open spec fn digit_char(d: nat) -> char {
    ((d + 48) as u8) as char
}

/// The decimal numeral of `n`, without leading zeros.
pub open spec fn decimal(n: nat) -> Seq<char>
    decreases n,
{
    if n < 10 {
        seq![digit_char(n)]
    } else {
        decimal(n / 10).push(digit_char(n % 10))
    }
}

/// The decimal numeral of a byte.
pub fn u8_decimal(n: u8) -> (res: String)
    ensures
        res@ == decimal(n as nat),
{
    let mut res = String::new();
    if n >= 100 {
        push_char(&mut res, char_of_byte(n / 100 + 48));
    }
    if n >= 10 {
        push_char(&mut res, char_of_byte((n / 10) % 10 + 48));
    }
    push_char(&mut res, char_of_byte(n % 10 + 48));
    proof {
        let hundreds = digit_char((n / 100) as nat);
        let tens = digit_char(((n / 10) % 10) as nat);
        let ones = digit_char((n % 10) as nat);
        if n >= 100 {
            assert(decimal((n / 100) as nat) == seq![hundreds]);
            assert(decimal((n / 10) as nat) == seq![hundreds].push(tens));
            assert(decimal(n as nat) == seq![hundreds].push(tens).push(ones));
        } else if n >= 10 {
            assert(decimal((n / 10) as nat) == seq![tens]);
            assert(decimal(n as nat) == seq![tens].push(ones));
        } else {
            assert(decimal(n as nat) == seq![ones]);
        }
    }
    assert(res@ =~= decimal(n as nat));
    res
}

/// The words joined with `sep` between each two.
pub open spec fn join_words(words: Seq<Seq<char>>, sep: Seq<char>) -> Seq<char>
    decreases words.len(),
{
    if words.len() == 0 {
        Seq::empty()
    } else if words.len() == 1 {
        words[0]
    } else {
        join_words(words.drop_last(), sep) + sep + words.last()
    }
}

/// The words joined with `sep` between each two (`[String]::join`).
pub fn join_strings(words: &Vec<String>, sep: &str) -> (res: String)
    ensures
        res@ == join_words(words.deep_view(), sep@),
{
    let mut res = String::new();
    let n = words.len();
    let mut i: usize = 0;
    assert(words.deep_view().take(0) =~= Seq::<Seq<char>>::empty());
    while i < n
        invariant
            n == words@.len(),
            i <= n,
            res@ == join_words(words.deep_view().take(i as int), sep@),
        decreases n - i,
    {
        let ghost w = words.deep_view();
        assert(w.take(i + 1).drop_last() =~= w.take(i as int));
        if i > 0 {
            res.append(sep);
        }
        res.append(words[i].as_str());
        assert(res@ =~= join_words(w.take(i + 1), sep@));
        i = i + 1;
    }
    assert(words.deep_view().take(n as int) =~= words.deep_view());
    res
}

/// What `{:?}` prints for a string holding `s`: the characters in double
/// quotes, with quotes, backslashes and unprintable characters escaped.
pub uninterp spec fn debug_text(s: Seq<char>) -> Seq<char>;

/// Calls `<str as Debug>::fmt` through `format!("{:?}", ..)`. Claims only that
/// the result is `debug_text` of the characters, a function of them alone; which
/// characters it escapes, and how, is left unstated.
#[verifier::external_body]
pub(crate) fn debug_string(s: &str) -> (res: String)
    ensures
        res@ == debug_text(s@),
{
    format!("{:?}", s)
}

/// How a violation is shown: `Line {line}, Token {token}: {message}`, then on
/// the next line the words of the line, joined by spaces, as `{:?}` shows them.
pub open spec fn violation_text(
    line: u8,
    token: u8,
    message: Seq<char>,
    code: Seq<Seq<char>>,
) -> Seq<char> {
    "Line "@ + decimal(line as nat) + ", Token "@ + decimal(token as nat) + ": "@ + message
        + "\n"@ + debug_text(join_words(code, " "@))
}

/// Shows a violation.
pub fn violation_string(line: u8, token: u8, message: &String, code: &Vec<String>) -> (res: String)
    ensures
        res@ == violation_text(line, token, message@, code.deep_view()),
{
    let mut res = String::from_str("Line ");
    res.append(u8_decimal(line).as_str());
    res.append(", Token ");
    res.append(u8_decimal(token).as_str());
    res.append(": ");
    res.append(message.as_str());
    res.append("\n");
    let joined = join_strings(code, " ");
    res.append(debug_string(joined.as_str()).as_str());
    res
}

} // verus!
