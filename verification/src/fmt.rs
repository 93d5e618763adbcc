//! Decimal text of integers, and the few string primitives the crate's
//! messages are built from.
use vstd::prelude::*;

verus! {

/// The character of a decimal digit.
pub open spec fn digit_char(d: nat) -> char {
    if d == 0 { '0' }
    else if d == 1 { '1' }
    else if d == 2 { '2' }
    else if d == 3 { '3' }
    else if d == 4 { '4' }
    else if d == 5 { '5' }
    else if d == 6 { '6' }
    else if d == 7 { '7' }
    else if d == 8 { '8' }
    else { '9' }
}

/// The decimal digits of `n`, most significant first, without leading zeros.
pub open spec fn digits(n: nat) -> Seq<char>
    decreases n,
{
    if n < 10 {
        seq![digit_char(n)]
    } else {
        digits(n / 10).push(digit_char(n % 10))
    }
}

/// The decimal text of `n`, with a leading `-` when it is negative.
pub open spec fn decimal(n: int) -> Seq<char> {
    if n < 0 {
        seq!['-'] + digits((-n) as nat)
    } else {
        digits(n as nat)
    }
}

/// Appends one character to a string. Trusted: the body is std's
/// `String::push`, whose documentation says it appends the character to the
/// end of the string; this contract claims exactly that, and nothing is
/// proved of it here.
#[verifier::external_body]
pub(crate) fn push_char(s: &mut String, c: char)
    ensures
        final(s)@ == old(s)@.push(c),
{
    s.push(c);
}

/// Appends the text of `other` to a string.
pub(crate) fn push_str(s: &mut String, other: &String)
    ensures
        final(s)@ == old(s)@ + other@,
{
    s.append(other.as_str());
}

fn digit_to_char(d: u64) -> (c: char)
    requires
        d < 10,
    ensures
        c == digit_char(d as nat),
{
    if d == 0 { '0' }
    else if d == 1 { '1' }
    else if d == 2 { '2' }
    else if d == 3 { '3' }
    else if d == 4 { '4' }
    else if d == 5 { '5' }
    else if d == 6 { '6' }
    else if d == 7 { '7' }
    else if d == 8 { '8' }
    else { '9' }
}

/// Appends the decimal digits of `n` to a string.
pub fn push_u64(s: &mut String, n: u64)
    ensures
        final(s)@ == old(s)@ + digits(n as nat),
{
    let ghost start = s@;
    let mut low: Vec<char> = Vec::new();
    let ghost mut tail: Seq<char> = Seq::empty();
    let mut cur = n;
    while cur >= 10
        invariant
            digits(n as nat) == digits(cur as nat) + tail,
            low@.len() == tail.len(),
            forall|i: int| 0 <= i < low@.len() ==> #[trigger] low@[i] == tail[tail.len() - 1 - i],
        decreases cur,
    {
        let d = cur % 10;
        let c = digit_to_char(d);
        proof {
            assert(digits(cur as nat) == digits((cur / 10) as nat).push(c));
            assert(digits((cur / 10) as nat).push(c) + tail == digits((cur / 10) as nat) + (seq![c] + tail));
            tail = seq![c] + tail;
        }
        low.push(c);
        cur = cur / 10;
    }
    let c = digit_to_char(cur);
    assert(digits(cur as nat) == seq![c]);
    push_char(s, c);
    let mut j = low.len();
    while j > 0
        invariant
            j <= low@.len(),
            low@.len() == tail.len(),
            forall|i: int| 0 <= i < low@.len() ==> #[trigger] low@[i] == tail[tail.len() - 1 - i],
            s@ == start + seq![c] + tail.subrange(0, (tail.len() - j) as int),
        decreases j,
    {
        j = j - 1;
        let d = low[j];
        proof {
            let k = tail.len() - 1 - j;
            assert(low@[j as int] == tail[k]);
            assert(tail.subrange(0, k + 1) == tail.subrange(0, k).push(d));
        }
        push_char(s, d);
    }
    assert(tail.subrange(0, tail.len() as int) == tail);
    assert(start + seq![c] + tail == start + (seq![c] + tail));
}

/// Appends the decimal text of `n` to a string.
pub fn push_i64(s: &mut String, n: i64)
    ensures
        final(s)@ == old(s)@ + decimal(n as int),
{
    if n < 0 {
        let ghost start = s@;
        push_char(s, '-');
        let mag: u64 = (0i128 - n as i128) as u64;
        push_u64(s, mag);
        assert(start.push('-') + digits(mag as nat) == start + (seq!['-'] + digits(mag as nat)));
    } else {
        push_u64(s, n as u64);
    }
}

/// The decimal text of `n`.
pub fn i64_to_string(n: i64) -> (s: String)
    ensures
        s@ == decimal(n as int),
{
    let mut s = String::new();
    push_i64(&mut s, n);
    assert(Seq::<char>::empty() + decimal(n as int) == decimal(n as int));
    s
}

} // verus!
