//! Text helpers the game logic needs: decimal rendering and parsing of
//! player ids, the blank mask shown to a guesser, and character-wise string
//! comparison.
use vstd::prelude::*;
use vstd::string::*;

verus! {

/// The decimal digit character for a value below ten.
pub open spec fn spec_digit_char(d: int) -> char {
    if d == 0 {
        '0'
    } else if d == 1 {
        '1'
    } else if d == 2 {
        '2'
    } else if d == 3 {
        '3'
    } else if d == 4 {
        '4'
    } else if d == 5 {
        '5'
    } else if d == 6 {
        '6'
    } else if d == 7 {
        '7'
    } else if d == 8 {
        '8'
    } else {
        '9'
    }
}

/// The decimal digits of a non-negative value, most significant first;
/// empty for zero.
pub open spec fn spec_u32_digits(n: int) -> Seq<char>
    decreases n,
{
    if n <= 0 {
        Seq::empty()
    } else {
        spec_u32_digits(n / 10).push(spec_digit_char(n % 10))
    }
}

/// The decimal rendering of a non-negative value (zero is "0").
pub open spec fn spec_u32_string(n: int) -> Seq<char> {
    if n == 0 {
        seq!['0']
    } else {
        spec_u32_digits(n)
    }
}

fn digit_str(d: u32) -> (r: &'static str)
    requires
        d < 10,
    ensures
        r@ == seq![spec_digit_char(d as int)],
{
    proof {
        reveal_strlit("0");
        reveal_strlit("1");
        reveal_strlit("2");
        reveal_strlit("3");
        reveal_strlit("4");
        reveal_strlit("5");
        reveal_strlit("6");
        reveal_strlit("7");
        reveal_strlit("8");
        reveal_strlit("9");
    }
    let r = match d {
        0 => "0",
        1 => "1",
        2 => "2",
        3 => "3",
        4 => "4",
        5 => "5",
        6 => "6",
        7 => "7",
        8 => "8",
        _ => "9",
    };
    proof {
        assert(r@ =~= seq![spec_digit_char(d as int)]);
    }
    r
}

fn u32_digits_string(n: u32) -> (s: String)
    requires
        n >= 1,
    ensures
        s@ == spec_u32_digits(n as int),
    decreases n,
{
    let mut s = if n >= 10 {
        u32_digits_string(n / 10)
    } else {
        String::new()
    };
    proof {
        if n < 10 {
            assert(spec_u32_digits(n as int / 10) == Seq::<char>::empty());
        }
    }
    let ds = digit_str(n % 10);
    s.append(ds);
    proof {
        assert(spec_u32_digits(n as int) == spec_u32_digits(n as int / 10).push(
            spec_digit_char(n as int % 10),
        ));
        assert(s@ =~= spec_u32_digits(n as int));
    }
    s
}

/// Renders a value in decimal, as an id is written on the wire.
pub fn u32_to_string(n: u32) -> (s: String)
    ensures
        s@ == spec_u32_string(n as int),
{
    if n == 0 {
        let s = String::from_str("0");
        proof {
            reveal_strlit("0");
            assert(s@ =~= seq!['0']);
        }
        s
    } else {
        u32_digits_string(n)
    }
}

/// A decimal digit character.
pub open spec fn spec_is_digit(c: char) -> bool {
    48 <= c as u32 && c as u32 <= 57
}

/// The value of a decimal digit character.
pub open spec fn spec_digit_val(c: char) -> int {
    c as u32 - 48
}

/// The value of a digit string, most significant digit first.
pub open spec fn spec_digits_val(s: Seq<char>) -> int
    decreases s.len(),
{
    if s.len() == 0 {
        0
    } else {
        spec_digits_val(s.drop_last()) * 10 + spec_digit_val(s.last())
    }
}

/// Every character is a decimal digit.
pub open spec fn spec_all_digits(s: Seq<char>) -> bool {
    forall|i: int| 0 <= i < s.len() ==> spec_is_digit(#[trigger] s[i])
}

/// The digits of a candidate id: the string with a single leading plus
/// sign, if any, removed.
pub open spec fn spec_parse_body(s: Seq<char>) -> Seq<char> {
    if s.len() >= 1 && s[0] == '+' {
        s.drop_first()
    } else {
        s
    }
}

/// The value a string parses to as a 32-bit id: an optional leading plus
/// sign, then at least one digit, all digits, within range.
pub open spec fn spec_parse_u32(s: Seq<char>) -> Option<u32> {
    let body = spec_parse_body(s);
    if body.len() >= 1 && spec_all_digits(body) && spec_digits_val(body) <= u32::MAX {
        Some(spec_digits_val(body) as u32)
    } else {
        None
    }
}

proof fn lemma_digits_val_nonneg(s: Seq<char>)
    requires
        spec_all_digits(s),
    ensures
        spec_digits_val(s) >= 0,
    decreases s.len(),
{
    if s.len() > 0 {
        assert(spec_all_digits(s.drop_last())) by {
            assert(forall|i: int|
                0 <= i < s.drop_last().len() ==> s.drop_last()[i] == #[trigger] s[i]);
        }
        lemma_digits_val_nonneg(s.drop_last());
    }
}

proof fn lemma_digits_val_prefix_le(s: Seq<char>, j: int)
    requires
        spec_all_digits(s),
        0 <= j <= s.len(),
    ensures
        spec_digits_val(s) >= spec_digits_val(s.take(j)),
    decreases s.len() - j,
{
    if j == s.len() {
        assert(s.take(j) =~= s);
    } else {
        assert(spec_all_digits(s.take(j))) by {
            assert(forall|i: int| 0 <= i < j ==> s.take(j)[i] == #[trigger] s[i]);
        }
        lemma_digits_val_nonneg(s.take(j));
        assert(s.take(j + 1).drop_last() =~= s.take(j));
        assert(s.take(j + 1).last() == s[j]);
        lemma_digits_val_prefix_le(s, j + 1);
    }
}

/// Parses a decimal 32-bit id, exactly as `spec_parse_u32` describes:
/// `None` on an empty body, a non-digit, or overflow.
pub fn parse_u32(s: &str) -> (r: Option<u32>)
    ensures
        r == spec_parse_u32(s@),
{
    let len = s.unicode_len();
    if len == 0 {
        return None;
    }
    let first = s.get_char(0);
    let start: usize = if first == '+' {
        1
    } else {
        0
    };
    let ghost body = spec_parse_body(s@);
    proof {
        assert(body.len() == len - start);
        assert(forall|k: int| 0 <= k < body.len() ==> #[trigger] body[k] == s@[k + start]);
    }
    if len == start {
        return None;
    }
    let mut i: usize = start;
    let mut acc: u32 = 0;
    while i < len
        invariant
            start <= i <= len,
            len == s@.len(),
            start <= 1,
            body == spec_parse_body(s@),
            body.len() == len - start,
            forall|k: int| 0 <= k < body.len() ==> #[trigger] body[k] == s@[k + start],
            spec_all_digits(body.take((i - start) as int)),
            acc == spec_digits_val(body.take((i - start) as int)),
        decreases len - i,
    {
        let c = s.get_char(i);
        proof {
            assert(body[(i - start) as int] == c);
        }
        let cv = c as u32;
        if cv < 48 || cv > 57 {
            proof {
                assert(body[(i - start) as int] == c);
                assert(!spec_is_digit(c));
                assert(!spec_all_digits(body));
            }
            return None;
        }
        let d = cv - 48;
        if acc > (u32::MAX - d) / 10 {
            proof {
                let j = (i - start) as int;
                assert(body.take(j + 1).drop_last() =~= body.take(j));
                assert(body.take(j + 1).last() == body[j]);
                assert(spec_digits_val(body.take(j + 1)) > u32::MAX);
                if spec_all_digits(body) {
                    lemma_digits_val_prefix_le(body, j + 1);
                }
            }
            return None;
        }
        proof {
            let j = (i - start) as int;
            assert(body.take(j + 1).drop_last() =~= body.take(j));
            assert(body.take(j + 1).last() == body[j]);
        }
        acc = acc * 10 + d;
        i = i + 1;
    }
    proof {
        assert(body.take((len - start) as int) =~= body);
    }
    Some(acc)
}

/// A row of underscores of the given length.
pub open spec fn spec_mask(n: int) -> Seq<char> {
    Seq::new(n as nat, |i: int| '_')
}

/// The blank mask shown to a guesser: one underscore per character of the
/// word.
pub fn blank_mask(n: usize) -> (s: String)
    ensures
        s@ == spec_mask(n as int),
{
    proof {
        reveal_strlit("_");
    }
    let mut s = String::new();
    let mut i: usize = 0;
    while i < n
        invariant
            i <= n,
            s@ == spec_mask(i as int),
        decreases n - i,
    {
        s.append("_");
        proof {
            reveal_strlit("_");
            assert(s@ =~= spec_mask(i as int + 1));
        }
        i = i + 1;
    }
    s
}

/// Compares two strings character by character.
pub fn str_eq(a: &str, b: &str) -> (r: bool)
    ensures
        r == (a@ == b@),
{
    let la = a.unicode_len();
    let lb = b.unicode_len();
    if la != lb {
        proof {
            assert(a@.len() != b@.len());
        }
        return false;
    }
    let mut i: usize = 0;
    while i < la
        invariant
            i <= la,
            la == a@.len(),
            la == b@.len(),
            forall|k: int| 0 <= k < i ==> a@[k] == b@[k],
        decreases la - i,
    {
        if a.get_char(i) != b.get_char(i) {
            return false;
        }
        i = i + 1;
    }
    proof {
        assert(a@ =~= b@);
    }
    true
}

/// Whether `s` begins with `prefix`, character by character.
pub fn starts_with_str(s: &str, prefix: &str) -> (r: bool)
    ensures
        r == (s@.len() >= prefix@.len() && s@.take(prefix@.len() as int) == prefix@),
{
    let ls = s.unicode_len();
    let lp = prefix.unicode_len();
    if ls < lp {
        return false;
    }
    let mut i: usize = 0;
    while i < lp
        invariant
            i <= lp,
            lp <= ls,
            ls == s@.len(),
            lp == prefix@.len(),
            forall|k: int| 0 <= k < i ==> s@[k] == prefix@[k],
        decreases lp - i,
    {
        if s.get_char(i) != prefix.get_char(i) {
            proof {
                assert(s@.take(prefix@.len() as int)[i as int] != prefix@[i as int]);
            }
            return false;
        }
        i = i + 1;
    }
    proof {
        assert(s@.take(prefix@.len() as int) =~= prefix@);
    }
    true
}

} // verus!
