use vstd::prelude::*;

verus! {

/// The `Ok` values of a sequence of results, in order.
pub open spec fn oks_of<T, E>(s: Seq<Result<T, E>>) -> Seq<T>
    decreases s.len(),
{
    if s.len() == 0 {
        Seq::empty()
    } else {
        match s[0] {
            Result::Ok(v) => seq![v] + oks_of(s.subrange(1, s.len() as int)),
            Result::Err(e) => oks_of(s.subrange(1, s.len() as int)),
        }
    }
}

/// The `Err` values of a sequence of results, in order.
pub open spec fn errs_of<T, E>(s: Seq<Result<T, E>>) -> Seq<E>
    decreases s.len(),
{
    if s.len() == 0 {
        Seq::empty()
    } else {
        match s[0] {
            Result::Ok(v) => errs_of(s.subrange(1, s.len() as int)),
            Result::Err(e) => seq![e] + errs_of(s.subrange(1, s.len() as int)),
        }
    }
}

/// One more result at the end adds its value at the end of its side.
pub proof fn lemma_partition_snoc<T, E>(s: Seq<Result<T, E>>, x: Result<T, E>)
    ensures
        oks_of(s.push(x)) == oks_of(s) + (match x {
            Result::Ok(v) => seq![v],
            Result::Err(e) => Seq::<T>::empty(),
        }),
        errs_of(s.push(x)) == errs_of(s) + (match x {
            Result::Ok(v) => Seq::<E>::empty(),
            Result::Err(e) => seq![e],
        }),
    decreases s.len(),
{
    if s.len() == 0 {
        assert(s.push(x)[0] == x);
        assert(s.push(x).subrange(1, 1) =~= Seq::<Result<T, E>>::empty());
        assert(oks_of(Seq::<Result<T, E>>::empty()) == Seq::<T>::empty());
        assert(errs_of(Seq::<Result<T, E>>::empty()) == Seq::<E>::empty());
        match x {
            Result::Ok(v) => {
                assert(oks_of(s.push(x)) == seq![v] + oks_of(s.push(x).subrange(1, 1)));
                assert(errs_of(s.push(x)) == errs_of(s.push(x).subrange(1, 1)));
                assert(oks_of(s.push(x)) =~= oks_of(s) + seq![v]);
                assert(errs_of(s.push(x)) =~= errs_of(s) + Seq::<E>::empty());
            },
            Result::Err(e) => {
                assert(errs_of(s.push(x)) == seq![e] + errs_of(s.push(x).subrange(1, 1)));
                assert(oks_of(s.push(x)) == oks_of(s.push(x).subrange(1, 1)));
                assert(errs_of(s.push(x)) =~= errs_of(s) + seq![e]);
                assert(oks_of(s.push(x)) =~= oks_of(s) + Seq::<T>::empty());
            },
        }
    } else {
        let rest = s.subrange(1, s.len() as int);
        lemma_partition_snoc(rest, x);
        assert(s.push(x)[0] == s[0]);
        assert(s.push(x).subrange(1, s.len() as int + 1) =~= rest.push(x));
        assert(oks_of(s.push(x)) =~= oks_of(s) + (match x {
            Result::Ok(v) => seq![v],
            Result::Err(e) => Seq::<T>::empty(),
        }));
        assert(errs_of(s.push(x)) =~= errs_of(s) + (match x {
            Result::Ok(v) => Seq::<E>::empty(),
            Result::Err(e) => seq![e],
        }));
    }
}

/// Collects the `Ok` values unless at least one `Err` is encountered.
///
/// With no failure among the results, every `Ok` value is returned, in
/// order; otherwise every `Err` value is returned, in order, and the `Ok`
/// values are dropped.
pub fn partition_result<T, E>(results: Vec<Result<T, E>>) -> (r: Result<Vec<T>, Vec<E>>)
    ensures
        match r {
            Result::Ok(oks) => errs_of(results@).len() == 0 && oks@ == oks_of(results@),
            Result::Err(errs) => errs@.len() > 0 && errs@ == errs_of(results@),
        },
{
    let ghost all: Seq<Result<T, E>> = results@;
    let mut remaining = results;
    let ghost mut processed: Seq<Result<T, E>> = Seq::empty();
    let mut oks: Vec<T> = Vec::new();
    let mut errs: Vec<E> = Vec::new();
    proof {
        assert(processed + remaining@ =~= all);
        assert(oks@ =~= oks_of(processed));
        assert(errs@ =~= errs_of(processed));
    }
    while remaining.len() > 0
        invariant
            processed + remaining@ == all,
            errs@ == errs_of(processed),
            errs@.len() == 0 ==> oks@ == oks_of(processed),
            errs@.len() > 0 ==> oks@.len() == 0,
        decreases remaining@.len(),
    {
        let ghost pre: Seq<Result<T, E>> = processed;
        let next = remaining.remove(0);
        proof {
            processed = pre.push(next);
            lemma_partition_snoc(pre, next);
            assert(processed + remaining@ =~= all);
        }
        match next {
            Result::Ok(v) => {
                if errs.len() == 0 {
                    oks.push(v);
                    proof {
                        assert(oks@ =~= oks_of(processed));
                        assert(errs@ =~= errs_of(processed));
                    }
                } else {
                    proof {
                        assert(errs@ =~= errs_of(processed));
                    }
                }
            },
            Result::Err(e) => {
                if errs.len() == 0 {
                    oks = Vec::new();
                }
                errs.push(e);
                proof {
                    assert(errs@ =~= errs_of(processed));
                }
            },
        }
    }
    proof {
        assert(processed =~= all);
    }
    if errs.len() == 0 {
        Result::Ok(oks)
    } else {
        Result::Err(errs)
    }
}

} // verus!
