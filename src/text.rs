use vstd::prelude::*;

verus! {

/// A byte that a header value may hold to be read as text: visible ASCII or a tab.
pub open spec fn visible_byte(b: u8) -> bool {
    (32 <= b && b < 127) || b == 9
}

/// Every byte of the header value is visible ASCII or a tab.
pub open spec fn visible(s: Seq<u8>) -> bool {
    forall|i: int| 0 <= i < s.len() ==> visible_byte(#[trigger] s[i])
}

/// The index of the first `c` in `s`, or `s.len()` where there is none.
pub open spec fn first_index(s: Seq<u8>, c: u8) -> int
    decreases s.len(),
{
    if s.len() == 0 {
        0
    } else if s[0] == c {
        0
    } else {
        1 + first_index(s.drop_first(), c)
    }
}

pub proof fn lemma_first_index(s: Seq<u8>, c: u8, i: int)
    requires
        0 <= i <= s.len(),
        forall|j: int| 0 <= j < i ==> s[j] != c,
        i == s.len() || s[i] == c,
    ensures
        first_index(s, c) == i,
    decreases i,
{
    if i > 0 {
        let t = s.drop_first();
        assert forall|j: int| 0 <= j < i - 1 implies t[j] != c by {
            assert(t[j] == s[j + 1]);
        }
        lemma_first_index(t, c, i - 1);
    }
}

/// The text of `s` before its first `c`.
pub open spec fn before(s: Seq<u8>, c: u8) -> Seq<u8> {
    s.subrange(0, first_index(s, c))
}

/// The text of `s` after its first `c`, if `s` holds one.
pub open spec fn after(s: Seq<u8>, c: u8) -> Option<Seq<u8>> {
    if first_index(s, c) < s.len() {
        Some(s.subrange(first_index(s, c) + 1, s.len() as int))
    } else {
        None
    }
}

/// Checks that every byte is visible ASCII or a tab, as a header value must be
/// to be read as text.
pub fn is_visible(s: &[u8]) -> (r: bool)
    ensures
        r == visible(s@),
{
    let mut i: usize = 0;
    while i < s.len()
        invariant
            0 <= i <= s@.len(),
            forall|j: int| 0 <= j < i ==> visible_byte(#[trigger] s@[j]),
        decreases s@.len() - i,
    {
        let b = s[i];
        if !((32 <= b && b < 127) || b == 9) {
            return false;
        }
        i += 1;
    }
    true
}

/// The position of the first `c` in `s`, or `s.len()` where there is none.
pub fn find_byte(s: &[u8], c: u8) -> (r: usize)
    ensures
        r == first_index(s@, c),
        r <= s@.len(),
{
    let mut i: usize = 0;
    while i < s.len()
        invariant
            0 <= i <= s@.len(),
            forall|j: int| 0 <= j < i ==> s@[j] != c,
        decreases s@.len() - i,
    {
        if s[i] == c {
            proof { lemma_first_index(s@, c, i as int); }
            return i;
        }
        i += 1;
    }
    proof { lemma_first_index(s@, c, i as int); }
    i
}

/// An ASCII decimal digit.
pub open spec fn is_digit(b: u8) -> bool {
    48 <= b && b <= 57
}

pub open spec fn all_digits(s: Seq<u8>) -> bool {
    forall|i: int| 0 <= i < s.len() ==> is_digit(#[trigger] s[i])
}

/// The number that a run of decimal digits denotes.
pub open spec fn digits_value(s: Seq<u8>) -> nat
    decreases s.len(),
{
    if s.len() == 0 {
        0
    } else {
        digits_value(s.drop_last()) * 10 + (s.last() - 48) as nat
    }
}

/// The `u64` that a decimal text denotes: an optional `+`, then one digit or
/// more, with a value that fits in 64 bits. `None` for any other text.
pub open spec fn u64_text(s: Seq<u8>) -> Option<u64> {
    let d = if s.len() > 0 && s[0] == 43 { s.drop_first() } else { s };
    if d.len() > 0 && all_digits(d) && digits_value(d) <= u64::MAX {
        Some(digits_value(d) as u64)
    } else {
        None
    }
}

proof fn lemma_prefix_value_le(s: Seq<u8>, k: int)
    requires
        0 <= k <= s.len(),
        all_digits(s),
    ensures
        digits_value(s.subrange(0, k)) <= digits_value(s),
    decreases s.len() - k,
{
    if k < s.len() {
        let t = s.drop_last();
        assert(t.subrange(0, k) =~= s.subrange(0, k));
        lemma_prefix_value_le(t, k);
        assert(digits_value(t) <= digits_value(s));
    } else {
        assert(s.subrange(0, k) =~= s);
    }
}

/// The shortest decimal text of `n`.
pub open spec fn decimal(n: nat) -> Seq<u8>
    decreases n,
{
    if n < 10 {
        seq![(48 + n) as u8]
    } else {
        decimal(n / 10).push((48 + n % 10) as u8)
    }
}

pub proof fn lemma_decimal(n: nat)
    ensures
        decimal(n).len() > 0,
        all_digits(decimal(n)),
        digits_value(decimal(n)) == n,
    decreases n,
{
    let d = decimal(n);
    if n >= 10 {
        lemma_decimal(n / 10);
        assert(d.drop_last() =~= decimal(n / 10));
        assert(d.last() == (48 + n % 10) as u8);
        assert(digits_value(d) == digits_value(decimal(n / 10)) * 10 + n % 10);
        assert((n / 10) * 10 + n % 10 == n);
    } else {
        assert(d.drop_last() =~= Seq::<u8>::empty());
        assert(digits_value(Seq::<u8>::empty()) == 0);
        assert(d.last() == (48 + n) as u8);
    }
}

/// The decimal text of a `u64` reads back as that `u64`.
pub proof fn lemma_decimal_u64_text(n: u64)
    ensures
        u64_text(decimal(n as nat)) == Some(n),
{
    lemma_decimal(n as nat);
    assert(is_digit(decimal(n as nat)[0]));
}

/// Appends the decimal text of `n`.
pub fn push_decimal(out: &mut Vec<u8>, n: u64)
    ensures
        final(out)@ == old(out)@ + decimal(n as nat),
{
    let mut tail: Vec<u8> = Vec::new();
    let mut v: u64 = n;
    while v >= 10
        invariant
            decimal(n as nat) == decimal(v as nat) + tail@,
        decreases v,
    {
        let d = (48 + v % 10) as u8;
        let ghost prev = tail@;
        proof {
            assert(decimal(v as nat) == decimal((v / 10) as nat).push(d));
            assert(decimal(v as nat) + prev =~= decimal((v / 10) as nat) + seq![d].add(prev));
        }
        tail.insert(0, d);
        assert(tail@ =~= seq![d].add(prev));
        v = v / 10;
    }
    let ghost start = out@;
    out.push((48 + v) as u8);
    out.append(&mut tail);
    assert(out@ =~= start + decimal(n as nat));
}

/// Reads a decimal `u64` as `str::parse::<u64>` does.
pub fn parse_u64(s: &[u8]) -> (r: Option<u64>)
    ensures
        r == u64_text(s@),
{
    let mut i: usize = 0;
    if s.len() > 0 && s[0] == 43 {
        i = 1;
    }
    let ghost d = if s@.len() > 0 && s@[0] == 43 { s@.drop_first() } else { s@ };
    let ghost off = i as int;
    assert(d =~= s@.subrange(off, s@.len() as int));
    if i == s.len() {
        return None;
    }
    let mut acc: u64 = 0;
    while i < s.len()
        invariant
            0 <= off <= i <= s@.len(),
            d =~= s@.subrange(off, s@.len() as int),
            d.len() == s@.len() - off,
            d == (if s@.len() > 0 && s@[0] == 43 { s@.drop_first() } else { s@ }),
            all_digits(d.subrange(0, i - off)),
            acc as nat == digits_value(d.subrange(0, i - off)),
        decreases s@.len() - i,
    {
        let b = s[i];
        let ghost p = d.subrange(0, i - off);
        let ghost q = d.subrange(0, i + 1 - off);
        assert(d[i - off] == s@[i as int]);
        assert(q.drop_last() =~= p);
        if !(48 <= b && b <= 57) {
            assert(!is_digit(d[i - off]));
            assert(!all_digits(d));
            return None;
        }
        let v = (b - 48) as u64;
        assert(q.last() == b);
        assert(digits_value(q) == acc * 10 + v);
        if acc > (u64::MAX - v) / 10 {
            proof {
                assert(digits_value(q) > u64::MAX) by (nonlinear_arith)
                    requires
                        digits_value(q) == acc * 10 + v,
                        acc > (u64::MAX - v) / 10,
                        v <= 9,
                ;
                if all_digits(d) {
                    lemma_prefix_value_le(d, i + 1 - off);
                }
            }
            return None;
        }
        assert(acc * 10 + v <= u64::MAX) by (nonlinear_arith)
            requires
                acc <= (u64::MAX - v) / 10,
                v <= 9,
        ;
        acc = acc * 10 + v;
        i += 1;
    }
    assert(d.subrange(0, d.len() as int) =~= d);
    Some(acc)
}

} // verus!
