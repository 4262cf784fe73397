use vstd::prelude::*;
use vstd::string::*;

verus! {

pub open spec fn is_digit(c: char) -> bool {
    ||| c == '0'
    ||| c == '1'
    ||| c == '2'
    ||| c == '3'
    ||| c == '4'
    ||| c == '5'
    ||| c == '6'
    ||| c == '7'
    ||| c == '8'
    ||| c == '9'
}

pub open spec fn digit_val(c: char) -> int {
    if c == '0' {
        0
    } else if c == '1' {
        1
    } else if c == '2' {
        2
    } else if c == '3' {
        3
    } else if c == '4' {
        4
    } else if c == '5' {
        5
    } else if c == '6' {
        6
    } else if c == '7' {
        7
    } else if c == '8' {
        8
    } else {
        9
    }
}

pub open spec fn digit_char(d: int) -> char {
    if d == 0 {
        '0'
    } else if d == 1 {
        '1'
    } else if d == 2 {
        '2'
    } else if d == 3 {
        '3'
    } else if d == 4 {
        '4'
    } else if d == 5 {
        '5'
    } else if d == 6 {
        '6'
    } else if d == 7 {
        '7'
    } else if d == 8 {
        '8'
    } else {
        '9'
    }
}

/// The decimal digits of `n`, most significant first, no leading zeros.
pub open spec fn dec_rep(n: nat) -> Seq<char>
    decreases n,
{
    if n < 10 {
        seq![digit_char(n as int)]
    } else {
        dec_rep(n / 10).push(digit_char((n % 10) as int))
    }
}

pub open spec fn all_digits(s: Seq<char>) -> bool {
    forall|i: int| 0 <= i < s.len() ==> is_digit(#[trigger] s[i])
}

/// The number a digit string stands for, read left to right.
pub open spec fn dec_value(s: Seq<char>) -> int
    decreases s.len(),
{
    if s.len() == 0 {
        0
    } else {
        dec_value(s.drop_last()) * 10 + digit_val(s.last())
    }
}

pub proof fn lemma_dec_rep_digits(n: nat)
    ensures
        all_digits(dec_rep(n)),
        dec_rep(n).len() >= 1,
        (dec_rep(n)[0] == '0' <==> n == 0),
    decreases n,
{
    if n >= 10 {
        lemma_dec_rep_digits(n / 10);
        assert(dec_rep(n)[0] == dec_rep(n / 10)[0]);
        assert forall|i: int| 0 <= i < dec_rep(n).len() implies is_digit(
            #[trigger] dec_rep(n)[i],
        ) by {
            if i < dec_rep(n / 10).len() {
                assert(dec_rep(n)[i] == dec_rep(n / 10)[i]);
            }
        }
    }
}

pub proof fn lemma_dec_value_nonneg(s: Seq<char>)
    requires
        all_digits(s),
    ensures
        dec_value(s) >= 0,
    decreases s.len(),
{
    if s.len() > 0 {
        assert(all_digits(s.drop_last())) by {
            assert forall|i: int| 0 <= i < s.drop_last().len() implies is_digit(
                #[trigger] s.drop_last()[i],
            ) by {
                assert(s.drop_last()[i] == s[i]);
            }
        }
        lemma_dec_value_nonneg(s.drop_last());
    }
}

/// Reading back the digits of `n` yields `n`.
pub proof fn lemma_dec_value_of_rep(n: nat)
    ensures
        dec_value(dec_rep(n)) == n,
    decreases n,
{
    reveal_with_fuel(dec_value, 3);
    if n < 10 {
        assert(dec_rep(n).drop_last() =~= Seq::<char>::empty());
    } else {
        lemma_dec_value_of_rep(n / 10);
        assert(dec_rep(n / 10).push(digit_char((n % 10) as int)).drop_last() =~= dec_rep(
            n / 10,
        ));
    }
}

/// A digit string is worth at least any of its prefixes.
pub proof fn lemma_dec_value_prefix(s: Seq<char>, j: int)
    requires
        all_digits(s),
        0 <= j <= s.len(),
    ensures
        dec_value(s.take(j)) <= dec_value(s),
    decreases s.len(),
{
    if j == s.len() {
        assert(s.take(j) =~= s);
    } else {
        assert(all_digits(s.drop_last())) by {
            assert forall|i: int| 0 <= i < s.drop_last().len() implies is_digit(
                #[trigger] s.drop_last()[i],
            ) by {
                assert(s.drop_last()[i] == s[i]);
            }
        }
        lemma_dec_value_prefix(s.drop_last(), j);
        assert(s.take(j) =~= s.drop_last().take(j));
        lemma_dec_value_nonneg(s.drop_last());
        assert(dec_value(s.drop_last()) * 10 >= dec_value(s.drop_last()));
    }
}

/// A nonempty digit string without a leading zero is the canonical digit
/// string of its value: decimal notation is unambiguous.
pub proof fn lemma_dec_canonical(s: Seq<char>)
    requires
        all_digits(s),
        s.len() >= 1,
        s.len() > 1 ==> s[0] != '0',
    ensures
        dec_value(s) >= 0,
        s == dec_rep(dec_value(s) as nat),
    decreases s.len(),
{
    reveal_with_fuel(dec_value, 3);
    lemma_dec_value_nonneg(s);
    if s.len() == 1 {
        assert(s.drop_last() =~= Seq::<char>::empty());
        assert(dec_value(s) == digit_val(s[0]));
        assert(s =~= dec_rep(dec_value(s) as nat));
    } else {
        let front = s.drop_last();
        let d = digit_val(s.last());
        assert(all_digits(front)) by {
            assert forall|i: int| 0 <= i < front.len() implies is_digit(
                #[trigger] front[i],
            ) by {
                assert(front[i] == s[i]);
            }
        }
        assert(front[0] == s[0]);
        assert(dec_value(front) >= 1) by {
            reveal_with_fuel(dec_value, 3);
            assert(front.take(1) =~= seq![front[0]]);
            assert(front.take(1).drop_last() =~= Seq::<char>::empty());
            assert(dec_value(front.take(1)) == digit_val(front[0]));
            assert(digit_val(front[0]) >= 1);
            lemma_dec_value_prefix(front, 1);
        }
        let a = dec_value(front);
        let n = dec_value(s);
        assert(n == a * 10 + d);
        assert(n >= 10 && n / 10 == a && n % 10 == d) by (nonlinear_arith)
            requires
                a >= 1,
                0 <= d < 10,
                n == a * 10 + d,
        ;
        lemma_dec_canonical(front);
        assert(digit_char(digit_val(s.last())) == s.last());
        assert(s =~= dec_rep(n as nat));
    }
}

/// A one-digit slice of the decimal alphabet, for building strings.
fn digit_str(d: u64) -> (r: &'static str)
    requires
        d < 10,
    ensures
        r@ =~= seq![digit_char(d as int)],
{
    let r: &'static str = if d == 0 {
        "0"
    } else if d == 1 {
        "1"
    } else if d == 2 {
        "2"
    } else if d == 3 {
        "3"
    } else if d == 4 {
        "4"
    } else if d == 5 {
        "5"
    } else if d == 6 {
        "6"
    } else if d == 7 {
        "7"
    } else if d == 8 {
        "8"
    } else {
        "9"
    };
    proof {
        reveal_strlit("0");
        reveal_strlit("1");
        reveal_strlit("2");
        reveal_strlit("3");
        reveal_strlit("4");
        reveal_strlit("5");
        reveal_strlit("6");
        reveal_strlit("7");
        reveal_strlit("8");
        reveal_strlit("9");
    }
    r
}

/// Format `n` in decimal, exactly the digits `dec_rep` describes.
pub fn u64_to_dec(n: u64) -> (r: String)
    ensures
        r@ == dec_rep(n as nat),
    decreases n,
{
    if n < 10 {
        digit_str(n).to_owned()
    } else {
        let mut s = u64_to_dec(n / 10);
        s.append(digit_str(n % 10));
        proof {
            assert(s@ =~= dec_rep((n / 10) as nat).push(digit_char((n % 10) as int)));
        }
        s
    }
}

/// Sort a character into digit or not, with its value.
pub fn digit_of(c: char) -> (r: Option<u64>)
    ensures
        match r {
            Some(v) => is_digit(c) && v == digit_val(c) && v < 10,
            None => !is_digit(c),
        },
{
    match c {
        '0' => Some(0),
        '1' => Some(1),
        '2' => Some(2),
        '3' => Some(3),
        '4' => Some(4),
        '5' => Some(5),
        '6' => Some(6),
        '7' => Some(7),
        '8' => Some(8),
        '9' => Some(9),
        _ => None,
    }
}

/// Read the value of the digit run `s[from..to)`. `None` means the run
/// stands for a number too large for 64 bits.
pub fn parse_u64_run(s: &str, from: usize, to: usize) -> (r: Option<u64>)
    requires
        from <= to <= s@.len(),
        all_digits(s@.subrange(from as int, to as int)),
    ensures
        match r {
            Some(v) => v as int == dec_value(s@.subrange(from as int, to as int)),
            None => dec_value(s@.subrange(from as int, to as int)) > u64::MAX,
        },
{
    let ghost run = s@.subrange(from as int, to as int);
    let mut acc: u64 = 0;
    let mut i: usize = from;
    while i < to
        invariant
            from <= i <= to <= s@.len(),
            run == s@.subrange(from as int, to as int),
            all_digits(run),
            acc as int == dec_value(run.take(i - from)),
        decreases to - i,
    {
        let c = s.get_char(i);
        proof {
            assert(run[i - from] == s@[i as int]);
        }
        let d = match digit_of(c) {
            Some(d) => d,
            None => {
                proof {
                    assert(false);
                }
                0
            },
        };
        proof {
            assert(run.take(i + 1 - from).drop_last() =~= run.take(i - from));
            assert(run.take(i + 1 - from).last() == run[i - from]);
        }
        if acc > u64::MAX / 10 {
            proof {
                assert(acc * 10 + d > u64::MAX) by (nonlinear_arith)
                    requires
                        acc > u64::MAX / 10,
                        u64::MAX == 0xffff_ffff_ffff_ffffu64,
                        d >= 0,
                ;
                lemma_prefix_overflow(run, i + 1 - from);
            }
            return None;
        }
        let shifted = acc * 10;
        proof {
            assert(acc * 10 <= u64::MAX) by (nonlinear_arith)
                requires
                    acc <= u64::MAX / 10,
                    u64::MAX == 0xffff_ffff_ffff_ffffu64,
            ;
        }
        if d > u64::MAX - shifted {
            proof {
                lemma_prefix_overflow(run, i + 1 - from);
            }
            return None;
        }
        acc = shifted + d;
        i += 1;
    }
    proof {
        assert(run.take(to - from) =~= run);
    }
    Some(acc)
}

/// If some prefix of a digit run is already past 64 bits, so is the run.
proof fn lemma_prefix_overflow(run: Seq<char>, j: int)
    requires
        all_digits(run),
        0 <= j <= run.len(),
        dec_value(run.take(j)) > u64::MAX,
    ensures
        dec_value(run) > u64::MAX,
{
    lemma_dec_value_prefix(run, j);
}

} // verus!
