//! Text as sequences of characters: comparison, decimal numerals, blanks.

use vstd::prelude::*;
use vstd::string::StringSliceAdditionalSpecFns;

verus! {

/// Whether two texts hold the same characters.
pub fn same_text(a: &str, b: &str) -> (same: bool)
    ensures
        same == (a@ == b@),
{
    let x = a.as_bytes();
    let y = b.as_bytes();
    let n: usize = x.len();
    proof {
        // Texts with the same characters have the same bytes, and a text is
        // what its bytes decode to.
        vstd::utf8::encode_utf8_decode_utf8(a@);
        vstd::utf8::encode_utf8_decode_utf8(b@);
    }
    if n != y.len() {
        return false;
    }
    let mut i: usize = 0;
    while i < n
        invariant
            n == x@.len(),
            n == y@.len(),
            i <= n,
            forall|k: int| 0 <= k < i ==> x@[k] == y@[k],
            x@ == a.spec_bytes(),
            y@ == b.spec_bytes(),
        decreases n - i,
    {
        if x[i] != y[i] {
            return false;
        }
        i += 1;
    }
    assert(x@ =~= y@);
    true
}


/// The place of the first of `names` at or after `from` that is `name`; the
/// number of names where there is none.
pub open spec fn place_from(names: Seq<Seq<char>>, name: Seq<char>, from: int) -> int
    decreases names.len() - from,
{
    if from < 0 || from >= names.len() {
        names.len() as int
    } else if names[from] == name {
        from
    } else {
        place_from(names, name, from + 1)
    }
}

/// The place of the first of `names` that is `name`; the number of names
/// where there is none.
pub open spec fn place_of(names: Seq<Seq<char>>, name: Seq<char>) -> int {
    place_from(names, name, 0)
}

/// `place_from` finds the first, and finds it wherever there is one.
pub proof fn lemma_place_from(names: Seq<Seq<char>>, name: Seq<char>, from: int)
    requires
        0 <= from <= names.len(),
    ensures
        from <= place_from(names, name, from) <= names.len(),
        place_from(names, name, from) < names.len() ==> names[place_from(names, name, from)]
            == name,
        forall|k: int| from <= k < place_from(names, name, from) ==> names[k] != name,
    decreases names.len() - from,
{
    if from < names.len() && names[from] != name {
        lemma_place_from(names, name, from + 1);
    }
}

/// The place of a name: that of its first occurrence, and beyond the last
/// name exactly where it does not occur.
pub proof fn lemma_place_of(names: Seq<Seq<char>>, name: Seq<char>)
    ensures
        0 <= place_of(names, name) <= names.len(),
        place_of(names, name) < names.len() ==> names[place_of(names, name)] == name,
        forall|k: int| 0 <= k < place_of(names, name) ==> names[k] != name,
        place_of(names, name) < names.len() <==> names.contains(name),
{
    lemma_place_from(names, name, 0);
    let p = place_of(names, name);
    if names.contains(name) {
        let k = choose|k: int| 0 <= k < names.len() && names[k] == name;
        assert(names[k] == name);
        if p >= names.len() {
            assert(names[k] != name);
        }
    }
}


/// A name added after the others is found there, unless it occurs before;
/// the places of the names that occur are as they were.
pub proof fn lemma_place_after_push(names: Seq<Seq<char>>, added: Seq<char>, name: Seq<char>)
    ensures
        place_of(names, name) < names.len() ==> place_of(names.push(added), name) == place_of(
            names,
            name,
        ),
        place_of(names, name) == names.len() && name == added ==> place_of(
            names.push(added),
            name,
        ) == names.len(),
        place_of(names, name) == names.len() && name != added ==> place_of(
            names.push(added),
            name,
        ) == names.len() + 1,
{
    let longer = names.push(added);
    lemma_place_of(names, name);
    lemma_place_of(longer, name);
    let p = place_of(names, name);
    let q = place_of(longer, name);
    if p < names.len() {
        assert(longer[p] == name);
        if q < p {
            assert(names[q] == longer[q]);
        } else if q > p {
            assert(longer[p] != name);
        }
    } else {
        assert forall|k: int| 0 <= k < names.len() implies longer[k] != name by {
            assert(names[k] != name);
            assert(longer[k] == names[k]);
        }
        if name == added {
            assert(longer[names.len() as int] == name);
            if q > names.len() {
                assert(longer[names.len() as int] != name);
            }
        } else {
            if q < longer.len() {
                assert(longer[q] == name);
            }
        }
    }
}


/// The characters of a text.
pub fn chars_of(s: &str) -> (v: Vec<char>)
    ensures
        v@ == s@,
{
    let mut v: Vec<char> = Vec::new();
    for c in it: s.chars()
        invariant
            it.seq() == s@,
            v@ == it.seq().take(it.index() as int),
    {
        assert(it.seq().take(it.index() + 1) =~= it.seq().take(it.index() as int).push(c));
        v.push(c);
    }
    assert(v@ =~= s@);
    v
}


/// Whether `c` is white space, as Unicode lists it.
pub open spec fn is_white_space(c: char) -> bool {
    let u = c as u32;
    ||| 0x09 <= u <= 0x0D
    ||| u == 0x20
    ||| u == 0x85
    ||| u == 0xA0
    ||| u == 0x1680
    ||| 0x2000 <= u <= 0x200A
    ||| u == 0x2028
    ||| u == 0x2029
    ||| u == 0x202F
    ||| u == 0x205F
    ||| u == 0x3000
}

/// Whether a text holds nothing but white space.
pub open spec fn is_blank(s: Seq<char>) -> bool {
    forall|i: int| 0 <= i < s.len() ==> is_white_space(#[trigger] s[i])
}

/// Whether `c` is white space.
pub fn white_space(c: char) -> (white: bool)
    ensures
        white == is_white_space(c),
{
    let u: u32 = c as u32;
    (0x09 <= u && u <= 0x0D) || u == 0x20 || u == 0x85 || u == 0xA0 || u == 0x1680 || (0x2000 <= u
        && u <= 0x200A) || u == 0x2028 || u == 0x2029 || u == 0x202F || u == 0x205F || u == 0x3000
}

/// Whether a text holds nothing but white space.
pub fn blank(s: &str) -> (none: bool)
    ensures
        none == is_blank(s@),
{
    let mut none: bool = true;
    for c in it: s.chars()
        invariant
            it.seq() == s@,
            none == is_blank(s@.take(it.index() as int)),
    {
        proof {
            let shorter = s@.take(it.index() as int);
            let longer = s@.take(it.index() + 1);
            assert(longer[it.index() as int] == c);
            assert forall|k: int| 0 <= k < shorter.len() implies shorter[k] == longer[k] by {}
            if is_blank(longer) {
                assert forall|k: int| 0 <= k < shorter.len() implies is_white_space(
                    #[trigger] shorter[k],
                ) by {
                    assert(is_white_space(longer[k]));
                }
            }
            if is_blank(shorter) && is_white_space(c) {
                assert forall|k: int| 0 <= k < longer.len() implies is_white_space(
                    #[trigger] longer[k],
                ) by {
                    if k < shorter.len() {
                        assert(is_white_space(shorter[k]));
                    }
                }
            }
        }
        if !white_space(c) {
            none = false;
        }
    }
    assert(s@.take(s@.len() as int) =~= s@);
    none
}

/// The decimal digit for a number below ten.
pub open spec fn digit(d: int) -> char {
    if d == 0 {
        '0'
    } else if d == 1 {
        '1'
    } else if d == 2 {
        '2'
    } else if d == 3 {
        '3'
    } else if d == 4 {
        '4'
    } else if d == 5 {
        '5'
    } else if d == 6 {
        '6'
    } else if d == 7 {
        '7'
    } else if d == 8 {
        '8'
    } else {
        '9'
    }
}

/// The number that a decimal digit stands for.
pub open spec fn digit_value(c: char) -> int {
    c as u32 - 0x30
}

/// Whether `c` is one of the ten decimal digits.
pub open spec fn is_digit(c: char) -> bool {
    0x30 <= c as u32 <= 0x39
}

/// Whether a text holds nothing but decimal digits.
pub open spec fn all_digits(s: Seq<char>) -> bool {
    forall|i: int| 0 <= i < s.len() ==> is_digit(#[trigger] s[i])
}

/// The decimal numeral of `n`, without leading zeros.
pub open spec fn decimal(n: nat) -> Seq<char>
    decreases n,
{
    if n < 10 {
        seq![digit(n as int)]
    } else {
        decimal(n / 10).push(digit((n % 10) as int))
    }
}

/// The decimal numeral of `n`, with a minus sign where it is negative.
pub open spec fn signed_decimal(n: int) -> Seq<char> {
    if n < 0 {
        seq!['-'] + decimal((-n) as nat)
    } else {
        decimal(n as nat)
    }
}

/// The number that a sequence of decimal digits stands for.
pub open spec fn digits_value(s: Seq<char>) -> nat
    decreases s.len(),
{
    if s.len() == 0 {
        0
    } else {
        (digits_value(s.drop_last()) * 10 + digit_value(s.last())) as nat
    }
}

/// The number that a text stands for as an unsigned 32-bit integer: decimal
/// digits, at least one, after at most one plus sign, and no more than the
/// largest such integer.
pub open spec fn parsed_u32(s: Seq<char>) -> Option<u32> {
    let body = if s.len() > 0 && s[0] == '+' {
        s.subrange(1, s.len() as int)
    } else {
        s
    };
    if body.len() > 0 && all_digits(body) && digits_value(body) <= u32::MAX {
        Some(digits_value(body) as u32)
    } else {
        None
    }
}

/// A decimal numeral holds digits only, at least one, and stands for its
/// number.
pub proof fn lemma_decimal(n: nat)
    ensures
        decimal(n).len() > 0,
        all_digits(decimal(n)),
        digits_value(decimal(n)) == n,
    decreases n,
{
    if n < 10 {
        let s = decimal(n);
        assert(s.drop_last() =~= Seq::<char>::empty());
        assert(digits_value(s.drop_last()) == 0);
    } else {
        lemma_decimal(n / 10);
        let s = decimal(n);
        assert(s.drop_last() =~= decimal(n / 10));
        assert forall|i: int| 0 <= i < s.len() implies is_digit(#[trigger] s[i]) by {
            if i < s.len() - 1 {
                assert(s[i] == decimal(n / 10)[i]);
            }
        }
    }
}

/// The number of a sequence of digits is no smaller than that of any of its
/// beginnings.
pub proof fn lemma_digits_value_grows(s: Seq<char>, k: int)
    requires
        all_digits(s),
        0 <= k <= s.len(),
    ensures
        digits_value(s.take(k)) <= digits_value(s),
        k < s.len() ==> digits_value(s.take(k + 1)) == digits_value(s.take(k)) * 10 + digit_value(
            s[k],
        ),
    decreases s.len() - k,
{
    if k < s.len() {
        assert(s.take(k + 1).drop_last() =~= s.take(k));
        assert(is_digit(s[k]));
        lemma_digits_value_grows(s, k + 1);
    } else {
        assert(s.take(k) =~= s);
    }
}

/// The text of a digit.
fn digit_text(d: u64) -> (text: &'static str)
    requires
        d < 10,
    ensures
        text@ == seq![digit(d as int)],
{
    proof {
        reveal_strlit("0");
        reveal_strlit("1");
        reveal_strlit("2");
        reveal_strlit("3");
        reveal_strlit("4");
        reveal_strlit("5");
        reveal_strlit("6");
        reveal_strlit("7");
        reveal_strlit("8");
        reveal_strlit("9");
    }
    let text = if d == 0 {
        "0"
    } else if d == 1 {
        "1"
    } else if d == 2 {
        "2"
    } else if d == 3 {
        "3"
    } else if d == 4 {
        "4"
    } else if d == 5 {
        "5"
    } else if d == 6 {
        "6"
    } else if d == 7 {
        "7"
    } else if d == 8 {
        "8"
    } else {
        "9"
    };
    assert(text@ =~= seq![digit(d as int)]);
    text
}

/// Writes the decimal numeral of `n` after what `out` holds.
pub fn push_decimal(out: &mut String, n: u64)
    ensures
        final(out)@ == old(out)@ + decimal(n as nat),
    decreases n,
{
    if n >= 10 {
        push_decimal(out, n / 10);
    }
    out.append(digit_text(n % 10));
    proof {
        if n >= 10 {
            assert(old(out)@ + decimal(n as nat) =~= (old(out)@ + decimal((n / 10) as nat)) + seq![
                digit((n % 10) as int),
            ]);
        }
    }
}

/// Writes the decimal numeral of `n`, with its sign where it is negative,
/// after what `out` holds.
pub fn push_signed_decimal(out: &mut String, n: i128)
    requires
        -(u64::MAX as int) <= n <= u64::MAX,
    ensures
        final(out)@ == old(out)@ + signed_decimal(n as int),
{
    if n < 0 {
        proof {
            reveal_strlit("-");
            assert("-"@ =~= seq!['-']);
        }
        out.append("-");
        push_decimal(out, (-n) as u64);
        assert(final(out)@ =~= old(out)@ + signed_decimal(n as int));
    } else {
        push_decimal(out, n as u64);
    }
}

/// The place of the first `c` at or after `from`; the length of the text
/// where there is none.
pub open spec fn char_from(s: Seq<char>, c: char, from: int) -> int
    decreases s.len() - from,
{
    if from < 0 || from >= s.len() {
        s.len() as int
    } else if s[from] == c {
        from
    } else {
        char_from(s, c, from + 1)
    }
}

/// `char_from` on characters in hand.
pub fn find_char(chars: &Vec<char>, c: char, from: usize) -> (place: usize)
    requires
        from <= chars@.len(),
    ensures
        place == char_from(chars@, c, from as int),
        from <= place <= chars@.len(),
{
    let n: usize = chars.len();
    let mut i: usize = from;
    while i < n
        invariant
            n == chars@.len(),
            from <= i <= n,
            char_from(chars@, c, from as int) == char_from(chars@, c, i as int),
        decreases n - i,
    {
        if chars[i] == c {
            return i;
        }
        i += 1;
    }
    n
}

/// `parsed_u32` on the characters from `from` up to, and without, `to`.
pub fn parse_u32(chars: &Vec<char>, from: usize, to: usize) -> (parsed: Option<u32>)
    requires
        from <= to <= chars@.len(),
    ensures
        parsed == parsed_u32(chars@.subrange(from as int, to as int)),
{
    let ghost whole = chars@.subrange(from as int, to as int);
    let mut start: usize = from;
    if from < to && chars[from] == '+' {
        start = from + 1;
    }
    let ghost body = chars@.subrange(start as int, to as int);
    proof {
        if start > from {
            assert(whole[0] == '+');
            assert(body =~= whole.subrange(1, whole.len() as int));
        } else {
            if whole.len() > 0 {
                assert(whole[0] == chars@[from as int]);
            }
            assert(body =~= whole);
        }
    }
    if start == to {
        return None;
    }
    let ghost goal = parsed_u32(whole);
    let mut value: u64 = 0;
    let mut i: usize = start;
    proof {
        assert(body.take(0) =~= Seq::<char>::empty());
    }
    while i < to
        invariant
            start <= i <= to,
            to <= chars@.len(),
            body == chars@.subrange(start as int, to as int),
            goal == parsed_u32(chars@.subrange(from as int, to as int)),
            goal == (if all_digits(body) && digits_value(body) <= u32::MAX {
                Some(digits_value(body) as u32)
            } else {
                None
            }),
            all_digits(body.take(i - start)),
            value == digits_value(body.take(i - start)),
            value <= u32::MAX,
        decreases to - i,
    {
        let c: char = chars[i];
        let u: u32 = c as u32;
        proof {
            assert(body[i - start] == c);
        }
        if u < 0x30 || u > 0x39 {
            assert(!is_digit(body[i - start]));
            return None;
        }
        proof {
            let shorter = body.take(i - start);
            let longer = body.take(i - start + 1);
            assert(longer.drop_last() =~= shorter);
            assert(longer.last() == c);
            assert forall|k: int| 0 <= k < longer.len() implies is_digit(#[trigger] longer[k]) by {
                if k < shorter.len() {
                    assert(shorter[k] == longer[k]);
                }
            }
        }
        let next: u64 = value * 10 + ((u - 0x30) as u64);
        if next > u32::MAX as u64 {
            proof {
                if all_digits(body) {
                    lemma_digits_value_grows(body, i - start + 1);
                }
            }
            return None;
        }
        value = next;
        i += 1;
    }
    proof {
        assert(body.take(to - start) =~= body);
    }
    Some(value as u32)
}


/// The texts of a list, each as its characters.
pub open spec fn texts(list: Seq<String>) -> Seq<Seq<char>> {
    Seq::new(list.len(), |i: int| list[i]@)
}

} // verus!
