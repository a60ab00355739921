//! Worker and task identities: decimal labels such as `Worker_1` or
//! `Task_12`. The pool relies on distinct workers carrying distinct names,
//! so the numeral construction comes with an injectivity proof.

use vstd::prelude::*;
use vstd::string::StringExecFns;

verus! {

/// The character for one decimal digit.
pub open spec fn digit_char(d: nat) -> char {
    if d == 0 {
        '0'
    } else if d == 1 {
        '1'
    } else if d == 2 {
        '2'
    } else if d == 3 {
        '3'
    } else if d == 4 {
        '4'
    } else if d == 5 {
        '5'
    } else if d == 6 {
        '6'
    } else if d == 7 {
        '7'
    } else if d == 8 {
        '8'
    } else {
        '9'
    }
}

/// The decimal numeral of `n`, most significant digit first, with no sign
/// and no leading zeros (`0` itself is the single character `'0'`).
pub open spec fn decimal(n: nat) -> Seq<char>
    decreases n,
{
    if n < 10 {
        seq![digit_char(n)]
    } else {
        decimal(n / 10).push(digit_char(n % 10))
    }
}

/// The name of the worker with index `i`.
pub open spec fn worker_label(i: nat) -> Seq<char> {
    "Worker_"@ + decimal(i)
}

/// The name of the `i`-th generated task.
pub open spec fn task_label(i: nat) -> Seq<char> {
    "Task_"@ + decimal(i)
}

proof fn lemma_digit_char_injective(a: nat, b: nat)
    requires
        a < 10,
        b < 10,
        digit_char(a) == digit_char(b),
    ensures
        a == b,
{
}

proof fn lemma_decimal_len(n: nat)
    ensures
        decimal(n).len() >= 1,
        n >= 10 ==> decimal(n).len() >= 2,
    decreases n,
{
    if n >= 10 {
        lemma_decimal_len(n / 10);
    }
}

/// Distinct numbers have distinct numerals.
pub proof fn lemma_decimal_injective(m: nat, n: nat)
    requires
        decimal(m) == decimal(n),
    ensures
        m == n,
    decreases m + n,
{
    lemma_decimal_len(m);
    lemma_decimal_len(n);
    if m < 10 && n < 10 {
        assert(decimal(m)[0] == digit_char(m));
        assert(decimal(n)[0] == digit_char(n));
        lemma_digit_char_injective(m, n);
    } else if m >= 10 && n >= 10 {
        let a = decimal(m / 10);
        let b = decimal(n / 10);
        assert(decimal(m) == a.push(digit_char(m % 10)));
        assert(decimal(n) == b.push(digit_char(n % 10)));
        assert(a.len() == b.len());
        assert forall|k: int| 0 <= k < a.len() implies a[k] == b[k] by {
            assert(a.push(digit_char(m % 10))[k] == a[k]);
            assert(b.push(digit_char(n % 10))[k] == b[k]);
        }
        assert(a =~= b);
        lemma_decimal_injective(m / 10, n / 10);
        assert(a.push(digit_char(m % 10)).last() == digit_char(m % 10));
        assert(b.push(digit_char(n % 10)).last() == digit_char(n % 10));
        lemma_digit_char_injective(m % 10, n % 10);
        assert(m == (m / 10) * 10 + m % 10);
        assert(n == (n / 10) * 10 + n % 10);
    } else if m < 10 {
        assert(decimal(m).len() == 1);
        assert(decimal(n).len() >= 2);
    } else {
        assert(decimal(m).len() >= 2);
        assert(decimal(n).len() == 1);
    }
}

/// Distinct indices give distinct worker names.
pub proof fn lemma_worker_label_injective(i: nat, j: nat)
    requires
        worker_label(i) == worker_label(j),
    ensures
        i == j,
{
    let p = "Worker_"@;
    assert(decimal(i) =~= worker_label(i).subrange(p.len() as int, worker_label(i).len() as int));
    assert(decimal(j) =~= worker_label(j).subrange(p.len() as int, worker_label(j).len() as int));
    lemma_decimal_injective(i, j);
}

fn digit_str(d: u8) -> (s: &'static str)
    requires
        d < 10,
    ensures
        s@ == seq![digit_char(d as nat)],
{
    proof {
        reveal_strlit("0");
        reveal_strlit("1");
        reveal_strlit("2");
        reveal_strlit("3");
        reveal_strlit("4");
        reveal_strlit("5");
        reveal_strlit("6");
        reveal_strlit("7");
        reveal_strlit("8");
        reveal_strlit("9");
    }
    let s = if d == 0 {
        "0"
    } else if d == 1 {
        "1"
    } else if d == 2 {
        "2"
    } else if d == 3 {
        "3"
    } else if d == 4 {
        "4"
    } else if d == 5 {
        "5"
    } else if d == 6 {
        "6"
    } else if d == 7 {
        "7"
    } else if d == 8 {
        "8"
    } else {
        "9"
    };
    proof {
        assert(s@ =~= seq![digit_char(d as nat)]);
    }
    s
}

/// The decimal numeral of `n` as a `String`.
pub fn decimal_string(n: usize) -> (s: String)
    ensures
        s@ == decimal(n as nat),
    decreases n,
{
    if n < 10 {
        String::from_str(digit_str(n as u8))
    } else {
        let mut s = decimal_string(n / 10);
        s.append(digit_str((n % 10) as u8));
        proof {
            assert(s@ =~= decimal((n / 10) as nat).push(digit_char((n % 10) as nat)));
        }
        s
    }
}

/// The name of the worker with index `i`, as a `String`.
pub fn worker_name(i: usize) -> (s: String)
    ensures
        s@ == worker_label(i as nat),
{
    let mut s = String::from_str("Worker_");
    let d = decimal_string(i);
    s.append(d.as_str());
    s
}

/// The name of the `i`-th generated task, as a `String`.
pub fn task_name(i: usize) -> (s: String)
    ensures
        s@ == task_label(i as nat),
{
    let mut s = String::from_str("Task_");
    let d = decimal_string(i);
    s.append(d.as_str());
    s
}

} // verus!
