use vstd::prelude::*;

verus! {

/// Appends every byte of `data` to `out`, in order.
pub fn append_bytes(out: &mut Vec<u8>, data: &[u8])
    ensures
        final(out)@ == old(out)@ + data@,
{
    let mut i: usize = 0;
    while i < data.len()
        invariant
            i <= data@.len(),
            out@ == old(out)@ + data@.subrange(0, i as int),
        decreases data@.len() - i,
    {
        out.push(data[i]);
        proof {
            assert(data@.subrange(0, i + 1) =~= data@.subrange(0, i as int) + seq![data@[i as int]]);
            assert(old(out)@ + data@.subrange(0, i + 1) =~= (old(out)@ + data@.subrange(0, i as int)).push(data@[i as int]));
        }
        i = i + 1;
    }
    proof {
        assert(data@.subrange(0, data@.len() as int) =~= data@);
    }
}

/// The decimal digits of `n`, most significant first, as text bytes.
pub open spec fn decimal_digits(n: nat) -> Seq<u8>
    decreases n,
{
    if n < 10 {
        seq![(48 + n) as u8]
    } else {
        decimal_digits(n / 10).push((48 + n % 10) as u8)
    }
}

/// Writes `n` in decimal, most significant digit first.
pub fn decimal_bytes(n: usize) -> (v: Vec<u8>)
    ensures
        v@ == decimal_digits(n as nat),
{
    let mut low_digits: Vec<u8> = Vec::new();
    let mut m: usize = n;
    proof {
        assert(decimal_digits(n as nat) =~= decimal_digits(m as nat) + low_digits@.reverse());
    }
    while m >= 10
        invariant
            decimal_digits(n as nat) == decimal_digits(m as nat) + low_digits@.reverse(),
        decreases m,
    {
        let ghost pre: Seq<u8> = low_digits@;
        let ghost m_old: int = m as int;
        let d: u8 = (m % 10) as u8;
        low_digits.push(48 + d);
        m = m / 10;
        proof {
            assert(decimal_digits(m_old as nat) == decimal_digits((m_old / 10) as nat).push(
                (48 + m_old % 10) as u8,
            ));
            assert(m as int == m_old / 10);
            assert(48 + d == (48 + m_old % 10) as u8);
            assert(low_digits@.reverse() =~= seq![(48 + m_old % 10) as u8] + pre.reverse());
            assert(decimal_digits(n as nat) =~= decimal_digits(m as nat) + low_digits@.reverse());
        }
    }
    let mut v: Vec<u8> = Vec::new();
    v.push(48 + (m as u8));
    proof {
        assert(v@ =~= decimal_digits(m as nat));
        assert(low_digits@.reverse().subrange(0, 0) =~= Seq::<u8>::empty());
        assert(v@ =~= decimal_digits(m as nat) + low_digits@.reverse().subrange(0, 0));
    }
    let mut i: usize = low_digits.len();
    while i > 0
        invariant
            i <= low_digits@.len(),
            decimal_digits(n as nat) == decimal_digits(m as nat) + low_digits@.reverse(),
            v@ == decimal_digits(m as nat) + low_digits@.reverse().subrange(
                0,
                low_digits@.len() - i,
            ),
        decreases i,
    {
        i = i - 1;
        v.push(low_digits[i]);
        proof {
            let rev = low_digits@.reverse();
            assert(rev[low_digits@.len() - i - 1] == low_digits@[i as int]);
            assert(rev.subrange(0, low_digits@.len() - i) =~= rev.subrange(
                0,
                low_digits@.len() - i - 1,
            ).push(low_digits@[i as int]));
            assert(v@ =~= decimal_digits(m as nat) + rev.subrange(0, low_digits@.len() - i));
        }
    }
    proof {
        assert(low_digits@.reverse().subrange(0, low_digits@.len() as int) =~= low_digits@.reverse());
        assert(v@ =~= decimal_digits(n as nat));
    }
    v
}

} // verus!
