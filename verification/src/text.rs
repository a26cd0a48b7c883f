//! Text as the front-ends and the error messages need it: decimal numbers,
//! concatenation and substring search.
use vstd::prelude::*;

verus! {

/// The decimal digit `d`.
pub open spec fn digit(d: nat) -> char {
    (48 + d) as char
}

/// Decimal notation of `n`, without leading zeros.
pub open spec fn decimal(n: nat) -> Seq<char>
    decreases n,
{
    if n < 10 {
        seq![digit(n)]
    } else {
        decimal(n / 10).push(digit(n % 10))
    }
}

/// Whether `needle` occurs in `text` at position `at`.
pub open spec fn occurs_at(text: Seq<char>, needle: Seq<char>, at: int) -> bool {
    &&& 0 <= at
    &&& at + needle.len() <= text.len()
    &&& text.subrange(at, at + needle.len()) == needle
}

/// Whether `needle` occurs in `text`.
pub open spec fn occurs(text: Seq<char>, needle: Seq<char>) -> bool {
    exists|at: int| occurs_at(text, needle, at)
}

/// The characters of an optional text.
pub open spec fn text_of(text: Option<String>) -> Option<Seq<char>> {
    match text {
        Some(t) => Some(t@),
        None => None,
    }
}

/// An answer, with the characters of what went wrong.
pub open spec fn answer_of<T>(answer: Result<T, String>) -> Result<T, Seq<char>> {
    match answer {
        Ok(t) => Ok(t),
        Err(e) => Err(e@),
    }
}

/// The characters of each of a sequence of texts.
pub open spec fn texts(lines: Seq<String>) -> Seq<Seq<char>> {
    Seq::new(lines.len(), |i: int| lines[i]@)
}

/// One decimal digit as text.
fn digit_text(d: u64) -> (text: &'static str)
    requires
        d < 10,
    ensures
        text@ == seq![digit(d as nat)],
{
    proof {
        reveal_strlit("0");
        reveal_strlit("1");
        reveal_strlit("2");
        reveal_strlit("3");
        reveal_strlit("4");
        reveal_strlit("5");
        reveal_strlit("6");
        reveal_strlit("7");
        reveal_strlit("8");
        reveal_strlit("9");
    }
    if d == 0 {
        "0"
    } else if d == 1 {
        "1"
    } else if d == 2 {
        "2"
    } else if d == 3 {
        "3"
    } else if d == 4 {
        "4"
    } else if d == 5 {
        "5"
    } else if d == 6 {
        "6"
    } else if d == 7 {
        "7"
    } else if d == 8 {
        "8"
    } else {
        "9"
    }
}

/// Appends the decimal notation of `n` to `text`.
pub(crate) fn append_decimal(text: &mut String, n: u64)
    ensures
        final(text)@ == old(text)@ + decimal(n as nat),
    decreases n,
{
    let ghost before = text@;
    if n >= 10 {
        append_decimal(text, n / 10);
    }
    text.append(digit_text(n % 10));
    proof {
        assert(text@ =~= before + decimal(n as nat));
    }
}

/// Whether `needle` occurs in `text`.
pub(crate) fn contains(text: &str, needle: &str) -> (found: bool)
    ensures
        found == occurs(text@, needle@),
{
    let n: usize = text.unicode_len();
    let m: usize = needle.unicode_len();
    let mut at: usize = 0;
    while at <= n && m <= n - at
        invariant
            n == text@.len(),
            m == needle@.len(),
            at <= n + 1,
            forall|i: int| 0 <= i < at ==> !occurs_at(text@, needle@, i),
        decreases n + 1 - at,
    {
        let mut k: usize = 0;
        while k < m && text.get_char(at + k) == needle.get_char(k)
            invariant
                n == text@.len(),
                m == needle@.len(),
                at + m <= n,
                k <= m,
                forall|i: int| 0 <= i < k ==> text@[at + i] == needle@[i],
            decreases m - k,
        {
            k = k + 1;
        }
        if k == m {
            proof {
                assert(text@.subrange(at as int, at + needle@.len()) =~= needle@);
                assert(occurs_at(text@, needle@, at as int));
            }
            return true;
        }
        proof {
            assert(text@.subrange(at as int, at + m)[k as int] == text@[at + k]);
        }
        if at == n {
            return false;
        }
        at = at + 1;
    }
    false
}

/// Whether two texts are equal.
pub(crate) fn same_text(a: &str, b: &str) -> (same: bool)
    ensures
        same == (a@ == b@),
{
    a.to_owned() == b.to_owned()
}

/// Concatenation of two texts.
pub(crate) fn join(a: &str, b: &str) -> (text: String)
    ensures
        text@ == a@ + b@,
{
    let mut text: String = a.to_owned();
    text.append(b);
    text
}

/// Whether `c` is a decimal digit.
pub open spec fn is_digit(c: char) -> bool {
    48 <= c as int <= 57
}

/// The number that decimal digits stand for.
pub open spec fn decimal_value(digits: Seq<char>) -> int
    decreases digits.len(),
{
    if digits.len() == 0 {
        0
    } else {
        10 * decimal_value(digits.drop_last()) + (digits.last() as int - 48)
    }
}

/// Decimal notation is made of digits, at least one, and stands for its number: no
/// two numbers share one.
pub proof fn decimal_notation_is_faithful(n: nat)
    ensures
        decimal(n).len() > 0,
        forall|i: int| 0 <= i < decimal(n).len() ==> is_digit(#[trigger] decimal(n)[i]),
        decimal_value(decimal(n)) == n,
    decreases n,
{
    assert(decimal_value(Seq::<char>::empty()) == 0);
    if n < 10 {
        assert(decimal(n).drop_last() =~= Seq::empty());
    } else {
        decimal_notation_is_faithful(n / 10);
        assert(decimal(n).drop_last() =~= decimal(n / 10));
    }
}

/// The first digits of a number stand for no more than the number.
pub(crate) proof fn lemma_prefix_value(digits: Seq<char>, k: int)
    requires
        0 <= k <= digits.len(),
        forall|i: int| 0 <= i < digits.len() ==> is_digit(#[trigger] digits[i]),
    ensures
        0 <= decimal_value(digits.take(k)) <= decimal_value(digits),
    decreases digits.len(),
{
    if k < digits.len() {
        let shorter = digits.drop_last();
        lemma_prefix_value(shorter, k);
        assert(shorter.take(k) =~= digits.take(k));
    } else {
        assert(digits.take(k) =~= digits);
        if k > 0 {
            lemma_prefix_value(digits.drop_last(), k - 1);
        }
    }
}

/// Decimal notation has no leading zero, ends in the last digit, and is that of a
/// tenth of the number before it.
pub proof fn decimal_notation_is_shortest(n: nat)
    ensures
        n > 0 ==> decimal(n)[0] != '0',
        n == 0 ==> decimal(n) == seq!['0'],
        decimal(n).last() == (48 + n % 10) as char,
        n >= 10 ==> decimal(n) == decimal(n / 10).push((48 + n % 10) as char),
        n < 10 <==> decimal(n).len() == 1,
    decreases n,
{
    decimal_notation_is_faithful(n);
    if n >= 10 {
        decimal_notation_is_shortest(n / 10);
        decimal_notation_is_faithful(n / 10);
    }
}

/// A text occurs in another exactly where the other is made of something, the text,
/// and something more.
pub proof fn occurring_is_lying_between(text: Seq<char>, needle: Seq<char>)
    ensures
        occurs(text, needle) ==> exists|before: Seq<char>, after: Seq<char>|
            text == #[trigger] (before + needle + after),
        (exists|before: Seq<char>, after: Seq<char>| text == #[trigger] (before + needle + after))
            ==> occurs(text, needle),
{
    if occurs(text, needle) {
        let at = choose|at: int| occurs_at(text, needle, at);
        let before = text.take(at);
        let after = text.skip(at + needle.len());
        assert(text =~= before + text.subrange(at, at + needle.len()) + after);
        assert(text == before + needle + after);
    }
    if exists|before: Seq<char>, after: Seq<char>| text == #[trigger] (before + needle + after) {
        let (before, after) = choose|before: Seq<char>, after: Seq<char>|
            text == #[trigger] (before + needle + after);
        let at = before.len() as int;
        assert(text.subrange(at, at + needle.len()) =~= needle);
        assert(occurs_at(text, needle, at));
    }
}

/// Models keep what they stand for: an optional text its characters, an answer what it
/// holds or the characters of what went wrong, and a list the characters of each of its
/// texts, in order.
pub proof fn models_keep_what_they_stand_for<T>(
    text: String,
    answer: T,
    lines: Seq<String>,
    i: int,
)
    requires
        0 <= i < lines.len(),
    ensures
        text_of(Some(text)) == Some(text@),
        text_of(None) is None,
        answer_of(Ok::<T, String>(answer)) == Ok::<T, Seq<char>>(answer),
        answer_of(Err::<T, String>(text)) == Err::<T, Seq<char>>(text@),
        texts(lines).len() == lines.len(),
        texts(lines)[i] == lines[i]@,
{
}

} // verus!
