use vstd::prelude::*;

verus! {

/// The character of one decimal digit.
pub open spec fn digit_char(d: nat) -> char {
    if d == 0 {
        '0'
    } else if d == 1 {
        '1'
    } else if d == 2 {
        '2'
    } else if d == 3 {
        '3'
    } else if d == 4 {
        '4'
    } else if d == 5 {
        '5'
    } else if d == 6 {
        '6'
    } else if d == 7 {
        '7'
    } else if d == 8 {
        '8'
    } else {
        '9'
    }
}

/// The decimal text of `n`, without leading zeros.
pub open spec fn decimal_chars(n: nat) -> Seq<char>
    decreases n,
{
    if n < 10 {
        seq![digit_char(n)]
    } else {
        decimal_chars(n / 10).push(digit_char(n % 10))
    }
}

/// ASCII whitespace, as `u8::is_ascii_whitespace` counts it.
pub open spec fn is_blank(b: u8) -> bool {
    b == 32 || b == 9 || b == 10 || b == 12 || b == 13
}

pub open spec fn is_digit(b: u8) -> bool {
    48 <= b <= 57
}

pub open spec fn all_digits(s: Seq<u8>) -> bool {
    forall|i: int| 0 <= i < s.len() ==> is_digit(#[trigger] s[i])
}

/// The number written by a sequence of ASCII digits.
pub open spec fn digits_value(s: Seq<u8>) -> nat
    decreases s.len(),
{
    if s.len() == 0 {
        0
    } else {
        digits_value(s.drop_last()) * 10 + (s.last() - 48) as nat
    }
}

pub open spec fn trim_front(s: Seq<u8>) -> Seq<u8>
    decreases s.len(),
{
    if s.len() > 0 && is_blank(s[0]) {
        trim_front(s.drop_first())
    } else {
        s
    }
}

pub open spec fn trim_back(s: Seq<u8>) -> Seq<u8>
    decreases s.len(),
{
    if s.len() > 0 && is_blank(s.last()) {
        trim_back(s.drop_last())
    } else {
        s
    }
}

/// The text with surrounding whitespace removed.
pub open spec fn trimmed(s: Seq<u8>) -> Seq<u8> {
    trim_back(trim_front(s))
}

/// The slot that a text field names in a pool of `capacity` slots: after
/// trimming, one or more decimal digits whose value is below `capacity`.
pub open spec fn slot_id_of(s: Seq<u8>, capacity: nat) -> Option<nat> {
    let t = trimmed(s);
    if t.len() > 0 && all_digits(t) && digits_value(t) < capacity {
        Some(digits_value(t))
    } else {
        None
    }
}

fn digit_str(d: u8) -> (r: &'static str)
    requires
        d < 10,
    ensures
        r@ == seq![digit_char(d as nat)],
{
    if d == 0 {
        proof { reveal_strlit("0"); }
        "0"
    } else if d == 1 {
        proof { reveal_strlit("1"); }
        "1"
    } else if d == 2 {
        proof { reveal_strlit("2"); }
        "2"
    } else if d == 3 {
        proof { reveal_strlit("3"); }
        "3"
    } else if d == 4 {
        proof { reveal_strlit("4"); }
        "4"
    } else if d == 5 {
        proof { reveal_strlit("5"); }
        "5"
    } else if d == 6 {
        proof { reveal_strlit("6"); }
        "6"
    } else if d == 7 {
        proof { reveal_strlit("7"); }
        "7"
    } else if d == 8 {
        proof { reveal_strlit("8"); }
        "8"
    } else {
        proof { reveal_strlit("9"); }
        "9"
    }
}

/// Appends the decimal text of `n` to `s`.
pub fn push_decimal(s: &mut String, n: u8)
    ensures
        final(s)@ == old(s)@ + decimal_chars(n as nat),
{
    if n >= 100 {
        s.append(digit_str(n / 100));
        s.append(digit_str((n / 10) % 10));
        s.append(digit_str(n % 10));
        assert(decimal_chars((n / 100) as nat) == seq![digit_char((n / 100) as nat)]);
        assert(decimal_chars((n / 10) as nat) == decimal_chars((n / 100) as nat).push(
            digit_char(((n / 10) % 10) as nat),
        ));
        assert(decimal_chars(n as nat) == decimal_chars((n / 10) as nat).push(
            digit_char((n % 10) as nat),
        ));
    } else if n >= 10 {
        s.append(digit_str(n / 10));
        s.append(digit_str(n % 10));
        assert(decimal_chars((n / 10) as nat) == seq![digit_char((n / 10) as nat)]);
        assert(decimal_chars(n as nat) == decimal_chars((n / 10) as nat).push(
            digit_char((n % 10) as nat),
        ));
    } else {
        s.append(digit_str(n));
    }
}

/// The decimal text of `n`.
pub fn decimal_string(n: u8) -> (r: String)
    ensures
        r@ == decimal_chars(n as nat),
{
    let mut s = String::new();
    push_decimal(&mut s, n);
    assert(s@ =~= decimal_chars(n as nat));
    s
}

proof fn lemma_trim_front_step(s: Seq<u8>, i: int)
    requires
        0 <= i < s.len(),
        is_blank(s[i]),
    ensures
        trim_front(s.subrange(i, s.len() as int)) == trim_front(s.subrange(i + 1, s.len() as int)),
{
    let t = s.subrange(i, s.len() as int);
    assert(t.drop_first() =~= s.subrange(i + 1, s.len() as int));
}

proof fn lemma_trim_back_step(s: Seq<u8>, lo: int, hi: int)
    requires
        0 <= lo < hi <= s.len(),
        is_blank(s[hi - 1]),
    ensures
        trim_back(s.subrange(lo, hi)) == trim_back(s.subrange(lo, hi - 1)),
{
    let t = s.subrange(lo, hi);
    assert(t.drop_last() =~= s.subrange(lo, hi - 1));
}

proof fn lemma_digits_value_step(t: Seq<u8>, k: int)
    requires
        0 <= k < t.len(),
    ensures
        digits_value(t.subrange(0, k + 1)) == digits_value(t.subrange(0, k)) * 10 + (t[k] - 48) as nat,
{
    assert(t.subrange(0, k + 1).drop_last() =~= t.subrange(0, k));
}

/// Reads the slot identifier that a text field names, in a pool of
/// `capacity` slots: surrounding whitespace is ignored, and what remains must
/// be a decimal number below `capacity`. `None` for anything else, an empty
/// field included.
pub fn parse_slot_id(text: &[u8], capacity: usize) -> (r: Option<u8>)
    requires
        capacity <= 256,
    ensures
        match slot_id_of(text@, capacity as nat) {
            Some(id) => r == Some(id as u8),
            None => r is None,
        },
{
    let n = text.len();
    let mut lo: usize = 0;
    assert(text@.subrange(0, n as int) =~= text@);
    while lo < n && (text[lo] == 32 || text[lo] == 9 || text[lo] == 10 || text[lo] == 12
        || text[lo] == 13)
        invariant
            lo <= n == text@.len(),
            trim_front(text@) == trim_front(text@.subrange(lo as int, n as int)),
        decreases n - lo,
    {
        proof { lemma_trim_front_step(text@, lo as int); }
        lo = lo + 1;
    }
    proof {
        let t = text@.subrange(lo as int, n as int);
        assert(trim_front(t) == t);
        assert(trim_front(text@) == t);
    }
    let mut hi: usize = n;
    while hi > lo && (text[hi - 1] == 32 || text[hi - 1] == 9 || text[hi - 1] == 10 || text[hi
        - 1] == 12 || text[hi - 1] == 13)
        invariant
            lo <= hi <= n == text@.len(),
            trimmed(text@) == trim_back(text@.subrange(lo as int, hi as int)),
        decreases hi,
    {
        proof { lemma_trim_back_step(text@, lo as int, hi as int); }
        hi = hi - 1;
    }
    let ghost t = text@.subrange(lo as int, hi as int);
    proof {
        assert(trim_back(t) == t);
    }
    if lo == hi || capacity == 0 {
        return None;
    }
    assert(text@.subrange(lo as int, lo as int) =~= Seq::<u8>::empty());
    let mut k: usize = lo;
    let mut value: usize = 0;
    let mut too_big = false;
    while k < hi
        invariant
            lo <= k <= hi <= n == text@.len(),
            t == text@.subrange(lo as int, hi as int),
            trimmed(text@) == t,
            0 < capacity <= 256,
            all_digits(text@.subrange(lo as int, k as int)),
            !too_big ==> value == digits_value(text@.subrange(lo as int, k as int)) && value
                < capacity,
            too_big ==> digits_value(text@.subrange(lo as int, k as int)) >= capacity,
        decreases hi - k,
    {
        let b = text[k];
        if b < 48 || b > 57 {
            proof {
                assert(t[k - lo] == b);
                assert(!all_digits(t));
            }
            return None;
        }
        proof {
            lemma_digits_value_step(t, k - lo);
            assert(t.subrange(0, k - lo + 1) =~= text@.subrange(lo as int, k + 1));
            assert(t.subrange(0, k - lo) =~= text@.subrange(lo as int, k as int));
            assert(all_digits(text@.subrange(lo as int, k + 1)));
        }
        if !too_big {
            let next = value * 10 + (b - 48) as usize;
            if next >= capacity {
                too_big = true;
            } else {
                value = next;
            }
        }
        k = k + 1;
    }
    proof {
        assert(text@.subrange(lo as int, hi as int) =~= t);
    }
    if too_big {
        None
    } else {
        Some(value as u8)
    }
}

} // verus!
