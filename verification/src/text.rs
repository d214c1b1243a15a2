//! Text: equality and order of strings, and digits.

use vstd::prelude::*;
use vstd::utf8::encode_utf8;

verus! {

/// `a` comes before `b` in the lexicographic order of byte strings.
pub open spec fn bytes_less(a: Seq<u8>, b: Seq<u8>) -> bool
    decreases a.len(),
{
    if a.len() == 0 {
        b.len() > 0
    } else if b.len() == 0 {
        false
    } else if a[0] != b[0] {
        a[0] < b[0]
    } else {
        bytes_less(a.skip(1), b.skip(1))
    }
}

/// `a` comes before `b` in the order of strings, which is that of their UTF-8 bytes.
pub open spec fn text_less(a: Seq<char>, b: Seq<char>) -> bool {
    bytes_less(encode_utf8(a), encode_utf8(b))
}

/// The order of byte strings is strict and total.
pub proof fn bytes_order_total(a: Seq<u8>, b: Seq<u8>)
    ensures
        bytes_less(a, b) ==> !bytes_less(b, a) && a != b,
        !bytes_less(a, b) && !bytes_less(b, a) ==> a == b,
    decreases a.len(),
{
    if a.len() > 0 && b.len() > 0 && a[0] == b[0] {
        bytes_order_total(a.skip(1), b.skip(1));
        if a.skip(1) == b.skip(1) {
            assert(a =~= seq![a[0]] + a.skip(1));
            assert(b =~= seq![b[0]] + b.skip(1));
        }
    } else if a.len() == 0 && b.len() == 0 {
        assert(a =~= b);
    }
}

/// The order of byte strings is transitive.
pub proof fn bytes_order_transitive(a: Seq<u8>, b: Seq<u8>, c: Seq<u8>)
    requires
        bytes_less(a, b),
        bytes_less(b, c),
    ensures
        bytes_less(a, c),
    decreases a.len(),
{
    if a.len() > 0 && a[0] == b[0] && b[0] == c[0] {
        bytes_order_transitive(a.skip(1), b.skip(1), c.skip(1));
    }
}

/// Different strings have different UTF-8 encodings.
pub proof fn encoding_injective(a: Seq<char>, b: Seq<char>)
    requires
        encode_utf8(a) == encode_utf8(b),
    ensures
        a == b,
{
    vstd::utf8::encode_utf8_decode_utf8(a);
    vstd::utf8::encode_utf8_decode_utf8(b);
}

/// The order of strings is strict and total: of two strings one comes first, or they are equal.
pub proof fn text_order_total(a: Seq<char>, b: Seq<char>)
    ensures
        text_less(a, b) ==> !text_less(b, a) && a != b,
        !text_less(a, b) && !text_less(b, a) ==> a == b,
{
    bytes_order_total(encode_utf8(a), encode_utf8(b));
    if encode_utf8(a) == encode_utf8(b) {
        encoding_injective(a, b);
    }
}

/// The order of strings is transitive.
pub proof fn text_order_transitive(a: Seq<char>, b: Seq<char>, c: Seq<char>)
    requires
        text_less(a, b),
        text_less(b, c),
    ensures
        text_less(a, c),
{
    bytes_order_transitive(encode_utf8(a), encode_utf8(b), encode_utf8(c));
}

/// Tells whether two strings hold the same characters.
pub fn same_text(a: &str, b: &str) -> (same: bool)
    ensures
        same == (a@ == b@),
{
    let x = a.as_bytes();
    let y = b.as_bytes();
    if x.len() != y.len() {
        return false;
    }
    let mut i: usize = 0;
    while i < x.len()
        invariant
            i <= x.len(),
            x@.len() == y@.len(),
            x@ == encode_utf8(a@),
            y@ == encode_utf8(b@),
            forall|j: int| 0 <= j < i ==> x@[j] == y@[j],
        decreases x.len() - i,
    {
        if x[i] != y[i] {
            return false;
        }
        i += 1;
    }
    proof {
        assert(x@ =~= y@);
        encoding_injective(a@, b@);
    }
    true
}

/// Tells whether `a` comes before `b`.
pub fn comes_before(a: &str, b: &str) -> (before: bool)
    ensures
        before == text_less(a@, b@),
{
    let x = a.as_bytes();
    let y = b.as_bytes();
    let mut i: usize = 0;
    assert(x@.skip(0) =~= x@);
    assert(y@.skip(0) =~= y@);
    while i < x.len() && i < y.len() && x[i] == y[i]
        invariant
            i <= x@.len(),
            i <= y@.len(),
            x@ == encode_utf8(a@),
            y@ == encode_utf8(b@),
            bytes_less(x@, y@) == bytes_less(x@.skip(i as int), y@.skip(i as int)),
        decreases x.len() - i,
    {
        proof {
            assert(x@.skip(i as int).skip(1) =~= x@.skip(i + 1));
            assert(y@.skip(i as int).skip(1) =~= y@.skip(i + 1));
        }
        i += 1;
    }
    i < y.len() && (i == x.len() || x[i] < y[i])
}

/// Orders two strings by their UTF-8 bytes.
pub fn compare_text(a: &str, b: &str) -> (order: core::cmp::Ordering)
    ensures
        match order {
            core::cmp::Ordering::Less => text_less(a@, b@),
            core::cmp::Ordering::Equal => a@ == b@,
            core::cmp::Ordering::Greater => text_less(b@, a@),
        },
{
    proof {
        text_order_total(a@, b@);
    }
    if comes_before(a, b) {
        core::cmp::Ordering::Less
    } else if comes_before(b, a) {
        core::cmp::Ordering::Greater
    } else {
        core::cmp::Ordering::Equal
    }
}

/// The character of the digit `d` in a base up to 16.
pub open spec fn digit_char(d: int) -> char {
    if d < 10 {
        (('0' as int) + d) as char
    } else {
        (('a' as int) + d - 10) as char
    }
}

/// The last `width` digits of `n` in base `base`, most significant first.
pub open spec fn digits(n: nat, base: nat, width: nat) -> Seq<char>
    recommends
        2 <= base <= 16,
    decreases width,
{
    if width == 0 {
        Seq::empty()
    } else {
        digits(n / base, base, (width - 1) as nat).push(digit_char((n % base) as int))
    }
}

/// `n` in decimal, without leading zeros.
pub open spec fn decimal_text(n: nat) -> Seq<char>
    decreases n,
{
    if n < 10 {
        seq![digit_char(n as int)]
    } else {
        decimal_text(n / 10).push(digit_char((n % 10) as int))
    }
}

/// One decimal digit.
fn digit_text(d: u64) -> (text: &'static str)
    requires
        d < 10,
    ensures
        text@ == seq![digit_char(d as int)],
{
    proof {
        reveal_strlit("0");
        reveal_strlit("1");
        reveal_strlit("2");
        reveal_strlit("3");
        reveal_strlit("4");
        reveal_strlit("5");
        reveal_strlit("6");
        reveal_strlit("7");
        reveal_strlit("8");
        reveal_strlit("9");
    }
    if d == 0 {
        "0"
    } else if d == 1 {
        "1"
    } else if d == 2 {
        "2"
    } else if d == 3 {
        "3"
    } else if d == 4 {
        "4"
    } else if d == 5 {
        "5"
    } else if d == 6 {
        "6"
    } else if d == 7 {
        "7"
    } else if d == 8 {
        "8"
    } else {
        "9"
    }
}

/// Writes a number in decimal.
pub fn decimal(n: u64) -> (text: String)
    ensures
        text@ == decimal_text(n as nat),
    decreases n,
{
    if n < 10 {
        digit_text(n).to_string()
    } else {
        let mut text = decimal(n / 10);
        text.append(digit_text(n % 10));
        assert(text@ =~= decimal_text(n as nat));
        text
    }
}

/// Puts three texts one after another.
pub fn concat3(a: &str, b: &str, c: &str) -> (text: String)
    ensures
        text@ == a@ + b@ + c@,
{
    a.to_string().concat(b).concat(c)
}

/// The characters of a string, in order.
pub fn characters(text: &str) -> (chars: Vec<char>)
    ensures
        chars@ == text@,
{
    let mut chars: Vec<char> = Vec::new();
    for c in it: text.chars()
        invariant
            it.seq() == text@,
            chars@ == text@.take(it.index() as int),
    {
        chars.push(c);
        assert(text@.take(it.index() + 1) =~= text@.take(it.index() as int).push(c));
    }
    assert(text@.take(text@.len() as int) =~= text@);
    chars
}

/// Where two byte strings first differ, the smaller byte comes first; and a byte string comes before
/// any that goes on after it.
pub proof fn first_difference_decides(
    common: Seq<u8>,
    one: u8,
    other: u8,
    one_rest: Seq<u8>,
    other_rest: Seq<u8>,
)
    requires
        one < other,
    ensures
        bytes_less(common + seq![one] + one_rest, common + seq![other] + other_rest),
        bytes_less(common, common + seq![one] + one_rest),
    decreases common.len(),
{
    let (a, b) = (common + seq![one] + one_rest, common + seq![other] + other_rest);
    if common.len() > 0 {
        let shorter = common.skip(1);
        first_difference_decides(shorter, one, other, one_rest, other_rest);
        assert(a.skip(1) =~= shorter + seq![one] + one_rest);
        assert(b.skip(1) =~= shorter + seq![other] + other_rest);
    }
}

/// What a number is written as in decimal has digits only, no 0 before others, and stands for the
/// number: every digit counts ten times as much as the one after it.
pub proof fn decimal_stands_for_the_number(n: nat)
    ensures
        decimal_text(n).len() > 0,
        forall|i: int|
            0 <= i < decimal_text(n).len() ==> '0' <= #[trigger] decimal_text(n)[i] <= '9',
        n > 0 ==> decimal_text(n)[0] != '0',
        decimal_text(n).fold_left(0, |value: int, c: char| 10 * value + (c as int - '0' as int))
            == n,
    decreases n,
{
    let append = |value: int, c: char| 10 * value + (c as int - '0' as int);
    let text = decimal_text(n);
    reveal_with_fuel(Seq::fold_left, 3);
    if n >= 10 {
        decimal_stands_for_the_number(n / 10);
        let before = decimal_text(n / 10);
        assert(text.drop_last() =~= before);
        assert forall|i: int| 0 <= i < text.len() implies '0' <= #[trigger] text[i] <= '9' by {
            if i < before.len() {
                assert(text[i] == before[i]);
            }
        }
        assert(text.fold_left(0, append) == append(before.fold_left(0, append), text.last()));
    } else {
        assert(text.drop_last() =~= Seq::empty());
        assert(text.fold_left(0, append) == append(0, text.last()));
    }
}

} // verus!
