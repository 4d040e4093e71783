//! Character-level text helpers: comparison that ignores ASCII case, and
//! decimal rendering of counts.
use vstd::prelude::*;

verus! {

/// The code of `c` with ASCII capitals taken to their lower-case letters.
pub open spec fn fold_char(c: char) -> int {
    if 'A' <= c && c <= 'Z' {
        (c as int) + 32
    } else {
        c as int
    }
}

/// `a` and `b` spell the same text when ASCII case is ignored.
pub open spec fn same_ignoring_case(a: Seq<char>, b: Seq<char>) -> bool {
    a.len() == b.len() && forall|i: int| 0 <= i < a.len() ==> fold_char(#[trigger] a[i]) == fold_char(b[i])
}

fn fold(c: char) -> (r: u32)
    ensures
        r == fold_char(c),
{
    if 'A' <= c && c <= 'Z' {
        (c as u32) + 32
    } else {
        c as u32
    }
}

/// Whether the `len` characters of `hay` from `start` on spell `want`,
/// ignoring ASCII case.
pub fn same_ignoring_case_at(hay: &str, start: usize, len: usize, want: &str) -> (r: bool)
    requires
        start + len <= hay@.len(),
    ensures
        r == same_ignoring_case(hay@.subrange(start as int, start + len), want@),
{
    let hay_len = hay.unicode_len();
    let want_len = want.unicode_len();
    if want_len != len {
        return false;
    }
    let mut k: usize = 0;
    while k < len
        invariant
            start + len <= hay_len == hay@.len(),
            want_len == len == want@.len(),
            k <= len,
            forall|i: int| 0 <= i < k ==> fold_char(hay@[start + i]) == fold_char(want@[i]),
        decreases len - k,
    {
        if fold(hay.get_char(start + k)) != fold(want.get_char(k)) {
            assert(fold_char(hay@.subrange(start as int, start + len)[k as int]) != fold_char(want@[k as int]));
            return false;
        }
        k += 1;
    }
    assert forall|i: int| 0 <= i < len implies fold_char(#[trigger] hay@.subrange(start as int, start + len)[i]) == fold_char(want@[i]) by {
        assert(hay@.subrange(start as int, start + len)[i] == hay@[start + i]);
    }
    true
}

/// Whether `a` and `b` hold the same characters.
pub fn same_text(a: &str, b: &str) -> (r: bool)
    ensures
        r == (a@ == b@),
{
    let n = a.unicode_len();
    if n != b.unicode_len() {
        return false;
    }
    let mut k: usize = 0;
    while k < n
        invariant
            n == a@.len() == b@.len(),
            k <= n,
            forall|i: int| 0 <= i < k ==> a@[i] == b@[i],
        decreases n - k,
    {
        if a.get_char(k) != b.get_char(k) {
            return false;
        }
        k += 1;
    }
    assert(a@ =~= b@);
    true
}

} // verus!

verus! {

/// The decimal digit for `d`, which is below ten.
pub open spec fn digit_char(d: nat) -> char {
    if d == 0 {
        '0'
    } else if d == 1 {
        '1'
    } else if d == 2 {
        '2'
    } else if d == 3 {
        '3'
    } else if d == 4 {
        '4'
    } else if d == 5 {
        '5'
    } else if d == 6 {
        '6'
    } else if d == 7 {
        '7'
    } else if d == 8 {
        '8'
    } else {
        '9'
    }
}

/// `n` written in decimal, without leading zeros.
pub open spec fn decimal(n: nat) -> Seq<char>
    decreases n,
{
    if n < 10 {
        seq![digit_char(n)]
    } else {
        decimal(n / 10) + seq![digit_char(n % 10)]
    }
}

fn digit_str(d: u64) -> (r: &'static str)
    requires
        d < 10,
    ensures
        r@ == seq![digit_char(d as nat)],
{
    proof {
        reveal_strlit("0");
        reveal_strlit("1");
        reveal_strlit("2");
        reveal_strlit("3");
        reveal_strlit("4");
        reveal_strlit("5");
        reveal_strlit("6");
        reveal_strlit("7");
        reveal_strlit("8");
        reveal_strlit("9");
    }
    let r = if d == 0 {
        "0"
    } else if d == 1 {
        "1"
    } else if d == 2 {
        "2"
    } else if d == 3 {
        "3"
    } else if d == 4 {
        "4"
    } else if d == 5 {
        "5"
    } else if d == 6 {
        "6"
    } else if d == 7 {
        "7"
    } else if d == 8 {
        "8"
    } else {
        "9"
    };
    assert(r@ =~= seq![digit_char(d as nat)]);
    r
}

/// Appends `n` in decimal to `out`.
pub fn push_decimal(out: &mut String, n: u64)
    ensures
        final(out)@ == old(out)@ + decimal(n as nat),
    decreases n,
{
    if n >= 10 {
        push_decimal(out, n / 10);
    }
    out.append(digit_str(n % 10));
    proof {
        if n >= 10 {
            assert(old(out)@ + decimal(n as nat) =~= old(out)@ + decimal((n / 10) as nat) + seq![
                digit_char((n % 10) as nat),
            ]);
        }
    }
}

/// The identifiers of `pids` in decimal, separated by a comma and a space.
pub open spec fn pid_list(pids: Seq<u32>) -> Seq<char>
    decreases pids.len(),
{
    if pids.len() == 0 {
        Seq::empty()
    } else if pids.len() == 1 {
        decimal(pids[0] as nat)
    } else {
        pid_list(pids.drop_last()) + ", "@ + decimal(pids.last() as nat)
    }
}

/// Appends the identifiers of `pids` to `out`, separated by a comma and a
/// space.
pub fn push_pid_list(out: &mut String, pids: &Vec<u32>)
    ensures
        final(out)@ == old(out)@ + pid_list(pids@),
{
    let ghost start = out@;
    let mut i: usize = 0;
    while i < pids.len()
        invariant
            i <= pids@.len(),
            out@ == start + pid_list(pids@.take(i as int)),
        decreases pids@.len() - i,
    {
        if i > 0 {
            out.append(", ");
        }
        push_decimal(out, pids[i] as u64);
        proof {
            let t = pids@.take(i + 1);
            assert(t.drop_last() =~= pids@.take(i as int));
            if i == 0 {
                assert(pid_list(pids@.take(0)) =~= Seq::<char>::empty());
                assert(start + Seq::<char>::empty() =~= start);
            }
            assert(out@ =~= start + pid_list(t));
        }
        i += 1;
    }
    assert(pids@.take(pids@.len() as int) =~= pids@);
}

} // verus!
