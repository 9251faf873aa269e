//! Helpers for gathering element sequences into a `Vec`, including the
//! fallible forms that stop at the first `Err` or `None`.

use vstd::prelude::*;

verus! {

/// The sequence of `Ok` payloads when every element is `Ok`, else the first
/// `Err`.
pub open spec fn collect_results<I, E>(s: Seq<Result<I, E>>) -> Result<Seq<I>, E>
    decreases s.len(),
{
    if s.len() == 0 {
        Ok(Seq::empty())
    } else {
        match s[0] {
            Err(e) => Err(e),
            Ok(x) => match collect_results(s.drop_first()) {
                Err(e) => Err(e),
                Ok(rest) => Ok(seq![x] + rest),
            },
        }
    }
}

/// The sequence of `Some` payloads when every element is `Some`, else `None`.
pub open spec fn collect_options<I>(s: Seq<Option<I>>) -> Option<Seq<I>>
    decreases s.len(),
{
    if s.len() == 0 {
        Some(Seq::empty())
    } else {
        match s[0] {
            None => None,
            Some(x) => match collect_options(s.drop_first()) {
                None => None,
                Some(rest) => Some(seq![x] + rest),
            },
        }
    }
}

/// A collected `Result` with its `Ok` payload abstracted to a sequence.
pub open spec fn result_view<I, E>(r: Result<Vec<I>, E>) -> Result<Seq<I>, E> {
    match r {
        Ok(v) => Ok(v@),
        Err(e) => Err(e),
    }
}

/// A collected `Option` with its `Some` payload abstracted to a sequence.
pub open spec fn option_view<I>(r: Option<Vec<I>>) -> Option<Seq<I>> {
    match r {
        Some(v) => Some(v@),
        None => None,
    }
}

/// Gathering a sequence of elements into a `Vec`.
pub trait CollectVec: Sized {
    type Item;

    /// The elements this collection yields, in order.
    spec fn items(self) -> Seq<Self::Item>;

    fn collect_vec(self) -> (r: Vec<Self::Item>)
        ensures
            r@ == self.items(),
    ;
}

impl<T> CollectVec for Vec<T> {
    type Item = T;

    open spec fn items(self) -> Seq<T> {
        self@
    }

    fn collect_vec(self) -> (r: Vec<T>) {
        self
    }
}

/// Gathering a sequence of `Result`s into a `Vec` of their `Ok` payloads,
/// stopping at the first `Err`.
pub trait CollectVecResult: Sized {
    type Inner;

    type Error;

    /// The elements this collection yields, in order.
    spec fn items(self) -> Seq<Result<Self::Inner, Self::Error>>;

    fn collect_vec_result(self) -> (r: Result<Vec<Self::Inner>, Self::Error>)
        ensures
            result_view(r) == collect_results(self.items()),
    ;
}

impl<I, E> CollectVecResult for Vec<Result<I, E>> {
    type Inner = I;

    type Error = E;

    open spec fn items(self) -> Seq<Result<I, E>> {
        self@
    }

    #[verifier::loop_isolation(false)]
    fn collect_vec_result(self) -> (r: Result<Vec<I>, E>) {
        let ghost orig = self@;
        let mut rest = self;
        let mut out: Vec<I> = Vec::new();
        proof {
            match collect_results(orig) {
                Ok(s) => {
                    assert(out@ + s =~= s);
                },
                Err(e) => {},
            }
        }
        while rest.len() > 0
            invariant
                collect_results(orig) == match collect_results(rest@) {
                    Ok(s) => Ok::<Seq<I>, E>(out@ + s),
                    Err(e) => Err::<Seq<I>, E>(e),
                },
            decreases rest@.len(),
        {
            let ghost pre = rest@;
            let x = rest.remove(0);
            proof {
                assert(rest@ =~= pre.drop_first());
            }
            match x {
                Err(e) => {
                    proof {
                        assert(collect_results(pre) == Err::<Seq<I>, E>(e));
                    }
                    return Err(e);
                },
                Ok(v) => {
                    let ghost out_pre = out@;
                    out.push(v);
                    proof {
                        assert(collect_results(pre) == match collect_results(pre.drop_first()) {
                            Ok(s) => Ok::<Seq<I>, E>(seq![v] + s),
                            Err(e2) => Err::<Seq<I>, E>(e2),
                        });
                        match collect_results(pre.drop_first()) {
                            Ok(s) => {
                                assert(out@ + s =~= out_pre + (seq![v] + s));
                            },
                            Err(e2) => {},
                        }
                    }
                },
            }
        }
        proof {
            assert(collect_results(rest@) == Ok::<Seq<I>, E>(Seq::empty()));
            assert(out@ + Seq::<I>::empty() =~= out@);
        }
        Ok(out)
    }
}

/// Gathering a sequence of `Option`s into a `Vec` of their `Some` payloads,
/// stopping at the first `None`.
pub trait CollectVecOption: Sized {
    type Inner;

    /// The elements this collection yields, in order.
    spec fn items(self) -> Seq<Option<Self::Inner>>;

    fn collect_vec_option(self) -> (r: Option<Vec<Self::Inner>>)
        ensures
            option_view(r) == collect_options(self.items()),
    ;
}

impl<I> CollectVecOption for Vec<Option<I>> {
    type Inner = I;

    open spec fn items(self) -> Seq<Option<I>> {
        self@
    }

    #[verifier::loop_isolation(false)]
    fn collect_vec_option(self) -> (r: Option<Vec<I>>) {
        let ghost orig = self@;
        let mut rest = self;
        let mut out: Vec<I> = Vec::new();
        proof {
            match collect_options(orig) {
                Some(s) => {
                    assert(out@ + s =~= s);
                },
                None => {},
            }
        }
        while rest.len() > 0
            invariant
                collect_options(orig) == match collect_options(rest@) {
                    Some(s) => Some(out@ + s),
                    None => None,
                },
            decreases rest@.len(),
        {
            let ghost pre = rest@;
            let x = rest.remove(0);
            proof {
                assert(rest@ =~= pre.drop_first());
            }
            match x {
                None => {
                    proof {
                        assert(collect_options(pre) == None::<Seq<I>>);
                    }
                    return None;
                },
                Some(v) => {
                    let ghost out_pre = out@;
                    out.push(v);
                    proof {
                        assert(collect_options(pre) == match collect_options(pre.drop_first()) {
                            Some(s) => Some(seq![v] + s),
                            None => None,
                        });
                        match collect_options(pre.drop_first()) {
                            Some(s) => {
                                assert(out@ + s =~= out_pre + (seq![v] + s));
                            },
                            None => {},
                        }
                    }
                },
            }
        }
        proof {
            assert(collect_options(rest@) == Some(Seq::<I>::empty()));
            assert(out@ + Seq::<I>::empty() =~= out@);
        }
        Some(out)
    }
}

} // verus!
