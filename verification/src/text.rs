//! Text utilities: comparing, searching, splitting and rendering strings.
//!
//! The model of a string is the sequence of its characters.

use vstd::prelude::*;

verus! {

/// `String::push` appends one character.
pub assume_specification[ String::push ](s: &mut String, c: char)
    ensures
        final(s)@ == old(s)@.push(c),
;

/// Comparing two string slices with `==` tells whether they hold the same characters.
pub assume_specification[ <str as PartialEq>::eq ](a: &str, b: &str) -> (r: bool)
    ensures
        r == (a@ == b@),
;

/// Whether two strings hold the same text.
pub fn same_text(a: &str, b: &str) -> (r: bool)
    ensures
        r == (a@ == b@),
{
    *a == *b
}

/// The characters of a string.
pub fn chars_of(s: &str) -> (r: Vec<char>)
    ensures
        r@ == s@,
{
    let mut out: Vec<char> = Vec::new();
    for c in it: s.chars()
        invariant
            it.seq() == s@,
            out@ == s@.take(it.index() as int),
    {
        out.push(c);
    }
    proof {
        assert(s@.take(s@.len() as int) =~= s@);
    }
    out
}

/// Whether `a` comes strictly before `b` in the order of strings: compared character by character,
/// a proper prefix coming first.
pub open spec fn precedes(a: Seq<char>, b: Seq<char>) -> bool
    decreases a.len(),
{
    if b.len() == 0 {
        false
    } else if a.len() == 0 {
        true
    } else if a[0] == b[0] {
        precedes(a.drop_first(), b.drop_first())
    } else {
        a[0] < b[0]
    }
}

/// No string precedes itself.
pub proof fn precedes_irreflexive(a: Seq<char>)
    ensures
        !precedes(a, a),
    decreases a.len(),
{
    if a.len() > 0 {
        precedes_irreflexive(a.drop_first());
    }
}

/// The order of strings is transitive.
pub proof fn precedes_transitive(a: Seq<char>, b: Seq<char>, c: Seq<char>)
    requires
        precedes(a, b),
        precedes(b, c),
    ensures
        precedes(a, c),
    decreases a.len(),
{
    if a.len() > 0 && a[0] == b[0] && b[0] == c[0] {
        precedes_transitive(a.drop_first(), b.drop_first(), c.drop_first());
    }
}

/// Any two different strings are ordered one way or the other.
pub proof fn precedes_total(a: Seq<char>, b: Seq<char>)
    ensures
        a == b || precedes(a, b) || precedes(b, a),
    decreases a.len(),
{
    if a.len() > 0 && b.len() > 0 {
        if a[0] == b[0] {
            precedes_total(a.drop_first(), b.drop_first());
            if a.drop_first() == b.drop_first() {
                assert(a =~= seq![a[0]] + a.drop_first());
                assert(b =~= seq![b[0]] + b.drop_first());
            }
        }
    } else if a.len() == 0 && b.len() == 0 {
        assert(a =~= b);
    }
}

/// Whether one string comes strictly before another.
pub fn text_precedes(a: &str, b: &str) -> (r: bool)
    ensures
        r == precedes(a@, b@),
{
    let left = chars_of(a);
    let right = chars_of(b);
    let mut i: usize = 0;
    proof {
        assert(a@.skip(0) =~= a@);
        assert(b@.skip(0) =~= b@);
    }
    while i < left.len() && i < right.len() && left[i] == right[i]
        invariant
            left@ == a@,
            right@ == b@,
            i <= left@.len(),
            i <= right@.len(),
            precedes(a@, b@) == precedes(a@.skip(i as int), b@.skip(i as int)),
        decreases left@.len() - i,
    {
        proof {
            assert(a@.skip(i as int).drop_first() =~= a@.skip(i + 1));
            assert(b@.skip(i as int).drop_first() =~= b@.skip(i + 1));
        }
        i = i + 1;
    }
    if i >= right.len() {
        false
    } else if i >= left.len() {
        true
    } else {
        left[i] < right[i]
    }
}

/// The character of a decimal digit.
pub open spec fn digit(d: int) -> char
    recommends
        0 <= d < 10,
{
    (('0' as int) + d) as char
}

/// The decimal notation of a natural number, without leading zeros.
pub open spec fn decimal(n: nat) -> Seq<char>
    decreases n,
{
    if n < 10 {
        seq![digit(n as int)]
    } else {
        decimal(n / 10).push(digit((n % 10) as int))
    }
}

/// The decimal notation of an integer, with a leading minus sign if it is negative.
pub open spec fn signed_decimal(n: int) -> Seq<char> {
    if n < 0 {
        seq!['-'] + decimal((-n) as nat)
    } else {
        decimal(n as nat)
    }
}

fn push_digit(out: &mut String, d: u64)
    requires
        d < 10,
    ensures
        final(out)@ == old(out)@.push(digit(d as int)),
{
    let c: u8 = 48 + d as u8;
    out.push(c as char);
}

/// Appends the decimal notation of a number.
fn push_decimal(out: &mut String, n: u64)
    ensures
        final(out)@ == old(out)@ + decimal(n as nat),
    decreases n,
{
    if n < 10 {
        push_digit(out, n);
    } else {
        push_decimal(out, n / 10);
        push_digit(out, n % 10);
    }
    proof {
        if n < 10 {
            assert(old(out)@ + decimal(n as nat) =~= old(out)@.push(digit(n as int)));
        } else {
            assert(old(out)@ + decimal(n as nat) =~= (old(out)@ + decimal((n / 10) as nat)).push(
                digit((n % 10) as int),
            ));
        }
    }
}

/// The decimal notation of a number.
pub fn decimal_text(n: u64) -> (r: String)
    ensures
        r@ == decimal(n as nat),
{
    let mut out = String::new();
    push_decimal(&mut out, n);
    proof {
        assert(Seq::<char>::empty() + decimal(n as nat) =~= decimal(n as nat));
    }
    out
}

/// The decimal notation of a possibly negative number.
pub fn signed_decimal_text(n: i64) -> (r: String)
    ensures
        r@ == signed_decimal(n as int),
{
    if n < 0 {
        let magnitude: u64 = (-(n as i128)) as u64;
        let mut out = String::new();
        out.push('-');
        push_decimal(&mut out, magnitude);
        proof {
            assert(Seq::<char>::empty().push('-') =~= seq!['-']);
        }
        out
    } else {
        decimal_text(n as u64)
    }
}

/// Whether a text occurs in another one.
pub open spec fn occurs_in(needle: Seq<char>, text: Seq<char>) -> bool {
    exists|i: int| #[trigger] occurs_at(needle, text, i)
}

/// Whether a text occurs in another one, starting at the given character.
pub open spec fn occurs_at(needle: Seq<char>, text: Seq<char>, i: int) -> bool {
    0 <= i && i + needle.len() <= text.len() && text.subrange(i, i + needle.len()) == needle
}

fn found_at(needle: &Vec<char>, text: &Vec<char>, at: usize) -> (r: bool)
    requires
        at + needle@.len() <= text@.len(),
    ensures
        r == occurs_at(needle@, text@, at as int),
{
    let mut k: usize = 0;
    let size: usize = text.len();
    while k < needle.len()
        invariant
            size == text@.len(),
            at + needle@.len() <= text@.len(),
            k <= needle@.len(),
            forall|j: int| 0 <= j < k ==> #[trigger] needle@[j] == text@[at + j],
        decreases needle@.len() - k,
    {
        if needle[k] != text[at + k] {
            proof {
                assert(text@.subrange(at as int, at + needle@.len())[k as int] != needle@[k as int]);
            }
            return false;
        }
        k = k + 1;
    }
    proof {
        assert(text@.subrange(at as int, at + needle@.len()) =~= needle@);
    }
    true
}

/// Whether a text contains another one.
pub fn text_contains(text: &str, needle: &str) -> (r: bool)
    ensures
        r == occurs_in(needle@, text@),
{
    let hay = chars_of(text);
    let pin = chars_of(needle);
    if pin.len() > hay.len() {
        return false;
    }
    let last: usize = hay.len() - pin.len();
    let mut i: usize = 0;
    while i <= last
        invariant
            hay@ == text@,
            pin@ == needle@,
            last == hay@.len() - pin@.len(),
            i <= last + 1,
            last < usize::MAX || i <= last,
            forall|j: int| 0 <= j < i ==> !#[trigger] occurs_at(needle@, text@, j),
        decreases last + 1 - i,
    {
        if found_at(&pin, &hay, i) {
            return true;
        }
        if i == last {
            proof {
                assert forall|j: int| !#[trigger] occurs_at(needle@, text@, j) by {
                    if j > last {
                        assert(j + needle@.len() > text@.len());
                    }
                }
            }
            return false;
        }
        i = i + 1;
    }
    false
}

/// The levels of a text: its parts between the occurrences of a separator. A text without the
/// separator is a single level.
pub open spec fn levels(text: Seq<char>, separator: char) -> Seq<Seq<char>>
    decreases text.len(),
{
    if text.len() == 0 {
        seq![Seq::empty()]
    } else {
        let before = levels(text.drop_last(), separator);
        if text.last() == separator {
            before.push(Seq::empty())
        } else {
            before.drop_last().push(before.last().push(text.last()))
        }
    }
}

/// A text has at least one level.
pub proof fn levels_nonempty(text: Seq<char>, separator: char)
    ensures
        levels(text, separator).len() > 0,
    decreases text.len(),
{
    if text.len() > 0 {
        levels_nonempty(text.drop_last(), separator);
    }
}

/// Texts with a separator between each of them and the next one.
pub open spec fn joined(parts: Seq<Seq<char>>, separator: Seq<char>) -> Seq<char>
    decreases parts.len(),
{
    if parts.len() == 0 {
        Seq::empty()
    } else if parts.len() == 1 {
        parts[0]
    } else {
        joined(parts.drop_last(), separator) + separator + parts.last()
    }
}

/// Join texts.
pub fn join(parts: &Vec<String>, separator: &str) -> (r: String)
    ensures
        r@ == joined(texts(parts@), separator@),
{
    let mut out = String::new();
    let ghost all = texts(parts@);
    proof {
        assert(all.take(0) =~= Seq::empty());
    }
    for i in 0..parts.len()
        invariant
            all == texts(parts@),
            out@ == joined(all.take(i as int), separator@),
    {
        let ghost before = out@;
        if i > 0 {
            out.append(separator);
        }
        out.append(parts[i].as_str());
        proof {
            assert(all.take(i + 1).drop_last() =~= all.take(i as int));
            if i == 0 {
                assert(out@ =~= all[0]);
            }
        }
    }
    proof {
        assert(all.take(all.len() as int) =~= all);
    }
    out
}

/// Joining the levels of a text gives the text back.
pub proof fn levels_join(text: Seq<char>, separator: char)
    ensures
        joined(levels(text, separator), seq![separator]) == text,
    decreases text.len(),
{
    if text.len() == 0 {
        assert(joined(levels(text, separator), seq![separator]) =~= text);
    } else {
        let front = text.drop_last();
        levels_join(front, separator);
        levels_nonempty(front, separator);
        let before = levels(front, separator);
        let after = levels(text, separator);
        assert(text =~= front.push(text.last()));
        if text.last() == separator {
            assert(after.drop_last() =~= before);
            assert(after.last() =~= Seq::<char>::empty());
            assert(joined(after, seq![separator]) =~= front.push(separator));
        } else {
            assert(after.drop_last() =~= before.drop_last());
            assert(after.last() == before.last().push(text.last()));
            assert(joined(after, seq![separator]) =~= joined(before, seq![separator]).push(
                text.last(),
            ));
        }
    }
}

/// The texts held by a list of strings.
pub open spec fn texts(list: Seq<String>) -> Seq<Seq<char>> {
    list.map_values(|s: String| s@)
}

/// Splits a text at each occurrence of a separator.
pub fn split_levels(text: &str, separator: char) -> (r: Vec<String>)
    ensures
        texts(r@) == levels(text@, separator),
{
    let chars = chars_of(text);
    let mut done: Vec<String> = Vec::new();
    let mut current = String::new();
    let mut i: usize = 0;
    proof {
        assert(chars@.take(0) =~= Seq::empty());
        assert(texts(done@).push(current@) =~= seq![Seq::<char>::empty()]);
    }
    while i < chars.len()
        invariant
            i <= chars@.len(),
            texts(done@).push(current@) == levels(chars@.take(i as int), separator),
        decreases chars@.len() - i,
    {
        let c = chars[i];
        let ghost before = levels(chars@.take(i as int), separator);
        proof {
            assert(chars@.take(i + 1).drop_last() =~= chars@.take(i as int));
            assert(before.drop_last() =~= texts(done@));
        }
        if c == separator {
            done.push(current);
            current = String::new();
            proof {
                assert(texts(done@) =~= before);
                assert(texts(done@).push(current@) =~= before.push(Seq::empty()));
            }
        } else {
            current.push(c);
        }
        i = i + 1;
    }
    let ghost finished = done@;
    let ghost tail = current@;
    done.push(current);
    proof {
        assert(chars@.take(chars@.len() as int) =~= chars@);
        assert(texts(done@) =~= texts(finished).push(tail));
    }
    done
}

/// Whether a character is a decimal digit.
pub open spec fn is_digit(c: char) -> bool {
    '0' <= c <= '9'
}

/// Whether a text consists of decimal digits.
pub open spec fn all_digits(s: Seq<char>) -> bool {
    forall|i: int| 0 <= i < s.len() ==> is_digit(#[trigger] s[i])
}

/// The number that digits stand for.
pub open spec fn digits_value(s: Seq<char>) -> nat
    decreases s.len(),
{
    if s.len() == 0 {
        0
    } else {
        (digits_value(s.drop_last()) * 10 + (s.last() as int - '0' as int)) as nat
    }
}

/// The number that a text stands for: digits, which may have a plus sign before them, of a number
/// that isn't too large.
pub open spec fn parsed(s: Seq<char>) -> Option<u64> {
    let digits = if s.len() > 0 && s[0] == '+' {
        s.drop_first()
    } else {
        s
    };
    if digits.len() > 0 && all_digits(digits) && digits_value(digits) <= u64::MAX {
        Some(digits_value(digits) as u64)
    } else {
        None
    }
}

proof fn lemma_value_grows(s: Seq<char>, n: int)
    requires
        0 <= n <= s.len(),
        all_digits(s),
    ensures
        digits_value(s.take(n)) <= digits_value(s),
    decreases s.len(),
{
    if n == s.len() {
        assert(s.take(n) =~= s);
    } else {
        let front = s.drop_last();
        assert forall|i: int| 0 <= i < front.len() implies is_digit(#[trigger] front[i]) by {
            assert(is_digit(s[i]));
        }
        lemma_value_grows(front, n);
        assert(front.take(n) =~= s.take(n));
        assert(is_digit(s[s.len() - 1]));
    }
}

/// Parse a number.
pub fn parse_number(s: &str) -> (r: Option<u64>)
    ensures
        r == parsed(s@),
{
    let chars = chars_of(s);
    let start: usize = if chars.len() > 0 && chars[0] == '+' {
        1
    } else {
        0
    };
    let ghost digits = s@.skip(start as int);
    proof {
        if start == 1 {
            assert(digits =~= s@.drop_first());
        } else {
            assert(digits =~= s@);
        }
        assert(digits.take(0) =~= Seq::empty());
    }
    if start >= chars.len() {
        return None;
    }
    let mut value: u64 = 0;
    let mut i: usize = start;
    while i < chars.len()
        invariant
            chars@ == s@,
            start <= i <= chars@.len(),
            digits == s@.skip(start as int),
            digits.len() > 0,
            digits == (if s@.len() > 0 && s@[0] == '+' {
                s@.drop_first()
            } else {
                s@
            }),
            value == digits_value(digits.take(i - start)),
            forall|j: int| 0 <= j < i - start ==> is_digit(#[trigger] digits[j]),
        decreases chars@.len() - i,
    {
        let c = chars[i];
        let ghost n = i - start;
        proof {
            assert(digits[n] == c);
            assert(digits.take(n + 1).drop_last() =~= digits.take(n));
        }
        if c < '0' || c > '9' {
            proof {
                assert(!is_digit(digits[n]));
            }
            return None;
        }
        let d: u64 = (c as u32 - '0' as u32) as u64;
        let next: u128 = value as u128 * 10 + d as u128;
        if next > u64::MAX as u128 {
            proof {
                if all_digits(digits) {
                    lemma_value_grows(digits, n + 1);
                }
            }
            return None;
        }
        value = next as u64;
        i = i + 1;
    }
    proof {
        assert(digits.take(digits.len() as int) =~= digits);
    }
    Some(value)
}

/// A string comes before another one if and only if they agree up to some place where the first one
/// ends, or has the smaller character.
pub proof fn precedes_at_first_difference(a: Seq<char>, b: Seq<char>)
    ensures
        precedes(a, b) <==> exists|n: int|
            #![trigger a.take(n)]
            0 <= n <= a.len() && n < b.len() && a.take(n) == b.take(n) && (n == a.len() || a[n]
                < b[n]),
    decreases a.len(),
{
    if b.len() > 0 && a.len() == 0 {
        assert(a.take(0) =~= b.take(0));
    } else if b.len() > 0 && a.len() > 0 {
        if a[0] == b[0] {
            let x = a.drop_first();
            let y = b.drop_first();
            precedes_at_first_difference(x, y);
            if precedes(a, b) {
                let n = choose|n: int|
                    #![trigger x.take(n)]
                    0 <= n <= x.len() && n < y.len() && x.take(n) == y.take(n) && (n == x.len()
                        || x[n] < y[n]);
                assert forall|i: int| 0 <= i < n + 1 implies a[i] == b[i] by {
                    if i > 0 {
                        assert(x.take(n)[i - 1] == y.take(n)[i - 1]);
                    }
                }
                assert(a.take(n + 1) =~= b.take(n + 1));
            }
            if exists|n: int|
                #![trigger a.take(n)]
                0 <= n <= a.len() && n < b.len() && a.take(n) == b.take(n) && (n == a.len() || a[n]
                    < b[n]) {
                let n = choose|n: int|
                    #![trigger a.take(n)]
                    0 <= n <= a.len() && n < b.len() && a.take(n) == b.take(n) && (n == a.len()
                        || a[n] < b[n]);
                assert forall|i: int| 0 <= i < n - 1 implies x[i] == y[i] by {
                    assert(a.take(n)[i + 1] == b.take(n)[i + 1]);
                }
                assert(x.take(n - 1) =~= y.take(n - 1));
            }
        } else {
            assert(a.take(0) =~= b.take(0));
            if exists|n: int|
                #![trigger a.take(n)]
                0 <= n <= a.len() && n < b.len() && a.take(n) == b.take(n) && (n == a.len() || a[n]
                    < b[n]) {
                let n = choose|n: int|
                    #![trigger a.take(n)]
                    0 <= n <= a.len() && n < b.len() && a.take(n) == b.take(n) && (n == a.len()
                        || a[n] < b[n]);
                if n > 0 {
                    assert(a.take(n)[0] == b.take(n)[0]);
                }
            }
        }
    }
}

/// A text occurs in another one if and only if this one is made of something, the text, and something.
pub proof fn occurrence_splits_the_text(needle: Seq<char>, text: Seq<char>)
    ensures
        occurs_in(needle, text) <==> exists|before: Seq<char>, after: Seq<char>|
            text == #[trigger] (before + needle + after),
{
    if occurs_in(needle, text) {
        let i = choose|i: int| #[trigger] occurs_at(needle, text, i);
        let before = text.take(i);
        let after = text.skip(i + needle.len());
        assert(text =~= before + text.subrange(i, i + needle.len()) + after);
        assert(text == before + needle + after);
    }
    if exists|before: Seq<char>, after: Seq<char>| text == #[trigger] (before + needle + after) {
        let (before, after) = choose|before: Seq<char>, after: Seq<char>|
            text == #[trigger] (before + needle + after);
        let i = before.len() as int;
        assert(text.subrange(i, i + needle.len()) =~= needle);
        assert(occurs_at(needle, text, i));
    }
}

/// No level of a text contains the separator.
pub proof fn levels_are_without_separator(text: Seq<char>, separator: char, i: int)
    requires
        0 <= i < levels(text, separator).len(),
    ensures
        !levels(text, separator)[i].contains(separator),
    decreases text.len(),
{
    if text.len() > 0 {
        let front = text.drop_last();
        levels_nonempty(front, separator);
        let before = levels(front, separator);
        if i < before.len() {
            levels_are_without_separator(front, separator, i);
        }
        if text.last() != separator && i == before.len() - 1 {
            assert(!before[i].contains(separator));
            let level = before[i].push(text.last());
            if level.contains(separator) {
                let k = choose|k: int| 0 <= k < level.len() && level[k] == separator;
                assert(before[i][k] == separator);
            }
        }
    }
}

proof fn lemma_decimal(n: nat)
    ensures
        decimal(n).len() > 0,
        all_digits(decimal(n)),
        digits_value(decimal(n)) == n,
    decreases n,
{
    if n < 10 {
        let s = decimal(n);
        assert(s.drop_last() =~= Seq::<char>::empty());
        assert(digits_value(s.drop_last()) == 0);
        assert(s.last() == digit(n as int));
    } else {
        lemma_decimal(n / 10);
        let front = decimal(n / 10);
        let s = decimal(n);
        assert(s.drop_last() =~= front);
        assert forall|i: int| 0 <= i < s.len() implies is_digit(#[trigger] s[i]) by {
            if i < front.len() {
                assert(s[i] == front[i]);
            }
        }
    }
}

/// The decimal notation of a number consists of digits, and reading it gives the number back, also
/// with a plus sign before it.
pub proof fn notation_is_read_back(n: u64)
    ensures
        parsed(decimal(n as nat)) == Some(n),
        parsed(seq!['+'] + decimal(n as nat)) == Some(n),
        forall|i: int|
            0 <= i < decimal(n as nat).len() ==> '0' <= #[trigger] decimal(n as nat)[i] <= '9',
{
    lemma_decimal(n as nat);
    let s = decimal(n as nat);
    assert(is_digit(s[0]));
    assert((seq!['+'] + s).drop_first() =~= s);
    assert forall|i: int| 0 <= i < s.len() implies '0' <= #[trigger] s[i] <= '9' by {
        assert(is_digit(s[i]));
    }
}

/// The decimal notation of a number has no leading zeros.
pub proof fn notation_is_short(n: nat)
    ensures
        n > 0 ==> decimal(n)[0] != '0',
        n == 0 ==> decimal(n).len() == 1,
    decreases n,
{
    if n >= 10 {
        notation_is_short(n / 10);
        lemma_decimal(n / 10);
        assert(decimal(n)[0] == decimal(n / 10)[0]);
    }
}

/// Different numbers have different notations.
pub proof fn notation_is_unique(a: nat, b: nat)
    ensures
        decimal(a) == decimal(b) <==> a == b,
{
    lemma_decimal(a);
    lemma_decimal(b);
}

/// A text is read as a number only if it has a digit, and nothing but digits after a plus sign that
/// may come first.
pub proof fn only_digits_are_read(s: Seq<char>, i: int)
    requires
        parsed(s) is Some,
    ensures
        s.len() > 0,
        s.len() == 1 ==> '0' <= s[0] <= '9',
        0 < i < s.len() ==> '0' <= s[i] <= '9',
        '0' <= s[0] <= '9' || s[0] == '+',
{
    if s.len() > 0 && s[0] == '+' {
        let digits = s.drop_first();
        assert(is_digit(digits[0]));
        if 0 < i < s.len() {
            assert(is_digit(digits[i - 1]));
        }
    } else {
        assert(is_digit(s[0]));
        if 0 < i < s.len() {
            assert(is_digit(s[i]));
        }
    }
}

/// A digit is read as its number, and another digit after a text that is read as a number makes it ten
/// times as large and adds the digit, unless it is too large. A digit doesn't help a text that isn't read
/// as a number.
pub proof fn digits_are_read_one_by_one(s: Seq<char>, c: char)
    requires
        '0' <= c <= '9',
    ensures
        parsed(seq![c]) == Some((c as int - '0' as int) as u64),
        parsed(s) matches Some(n) ==> parsed(s.push(c)) == if n * 10 + (c as int - '0' as int)
            <= u64::MAX {
            Some((n * 10 + (c as int - '0' as int)) as u64)
        } else {
            None
        },
        parsed(s) is None && s.len() > 0 && s != seq!['+'] ==> parsed(s.push(c)) is None,
{
    let one = seq![c];
    assert(one.drop_last() =~= Seq::<char>::empty());
    assert(digits_value(one.drop_last()) == 0);
    assert(is_digit(one[0]));
    let signed = s.len() > 0 && s[0] == '+';
    let more = s.push(c);
    if s.len() > 0 {
        let old_digits = if signed {
            s.drop_first()
        } else {
            s
        };
        let new_digits = if signed {
            more.drop_first()
        } else {
            more
        };
        assert(new_digits =~= old_digits.push(c));
        assert(new_digits.drop_last() =~= old_digits);
        if all_digits(old_digits) {
            assert forall|i: int| 0 <= i < new_digits.len() implies is_digit(
                #[trigger] new_digits[i],
            ) by {
                if i < old_digits.len() {
                    assert(is_digit(old_digits[i]));
                }
            }
        } else {
            let i = choose|i: int|
                0 <= i < old_digits.len() && !is_digit(#[trigger] old_digits[i]);
            assert(!is_digit(new_digits[i]));
        }
        if old_digits.len() == 0 {
            assert(s =~= seq!['+']);
        }
    }
}

/// Joining texts puts the separator between those that were joined before and those that follow, once, and
/// leaves a single text as it is.
pub proof fn separators_stand_between(
    first: Seq<Seq<char>>,
    second: Seq<Seq<char>>,
    separator: Seq<char>,
)
    requires
        first.len() > 0,
        second.len() > 0,
    ensures
        joined(first + second, separator) == joined(first, separator) + separator + joined(
            second,
            separator,
        ),
        first.len() == 1 ==> joined(first, separator) == first[0],
        joined(Seq::empty(), separator) == Seq::<char>::empty(),
    decreases second.len(),
{
    let all = first + second;
    assert(all.last() == second.last());
    assert(all.drop_last() =~= first + second.drop_last());
    if second.len() == 1 {
        assert(all.drop_last() =~= first);
    } else {
        separators_stand_between(first, second.drop_last(), separator);
        assert(joined(all, separator) =~= joined(first, separator) + separator + joined(
            second,
            separator,
        ));
    }
}

} // verus!
