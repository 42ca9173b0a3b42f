//! Resolution of one greeting category to one image, across unreliable
//! providers.
//!
//! The resolver walks the providers in a caller-supplied (normally
//! shuffled) order asking for the requested category, and, when the whole
//! pass fails, walks them once more asking for the baseline category. The
//! first non-empty fetch wins and one of its images is picked at random.
//! The fetches themselves happen outside the library: [`Resolution`] is a
//! state machine that names the next fetch to make and consumes its
//! outcome, so the surrounding application performs one fetch per step and
//! stops at the first success.

use vstd::prelude::*;

use crate::greeting::Greeting;
use crate::providers::{Providers, ScrapeError};
use crate::random::random_index;

verus! {

/// The outcome of one provider fetch, as handed back by the application:
/// the scraped image URLs, or why there are none.
pub type FetchOutcome = Result<Vec<String>, ScrapeError>;

/// A resolved image reference: the URL and the provider that produced it,
/// for diagnostics.
#[derive(Debug, Clone)]
pub struct ImageRef {
    pub url: String,
    pub provider: Providers,
}

/// Resolution failed outright: every provider, and the baseline fallback,
/// was exhausted. Carries the last concrete (non-`Unsupported`) error
/// seen, for diagnostics.
#[derive(Debug, Clone, Copy, PartialEq, Eq, Structural)]
pub struct NoProviderAvailable {
    pub last_error: Option<ScrapeError>,
}

/// The category every other category falls back to when no provider
/// serves the requested one.
pub open spec fn baseline_spec() -> Greeting {
    Greeting::BuonGiorno
}

/// The baseline category, a generic good-morning image.
pub fn baseline() -> (g: Greeting)
    ensures
        g == baseline_spec(),
{
    Greeting::BuonGiorno
}

/// A fetch outcome that yields an image.
pub open spec fn fetch_success(o: FetchOutcome) -> bool {
    o matches Ok(urls) && urls@.len() > 0
}

/// Whether any outcome of the pass yields an image.
pub open spec fn some_success(outs: Seq<FetchOutcome>) -> bool {
    exists|i: int| 0 <= i < outs.len() && fetch_success(outs[i])
}

/// `i` is the first position of the pass that yields an image.
pub open spec fn first_success_at(outs: Seq<FetchOutcome>, i: int) -> bool {
    &&& 0 <= i < outs.len()
    &&& fetch_success(outs[i])
    &&& forall|j: int| 0 <= j < i ==> !fetch_success(outs[j])
}

/// The concrete error of a failed outcome: `Unsupported` is not an error
/// (it only steers the fallback), and a successful fetch with no image is
/// an empty result.
pub open spec fn concrete_error(o: FetchOutcome) -> Option<ScrapeError> {
    match o {
        Ok(urls) => if urls@.len() == 0 {
            Some(ScrapeError::EmptyResult)
        } else {
            None
        },
        Err(e) => if e is UnsupportedGreeting {
            None
        } else {
            Some(e)
        },
    }
}

/// The last concrete error of a pass, if any.
pub open spec fn last_concrete(outs: Seq<FetchOutcome>) -> Option<ScrapeError>
    decreases outs.len(),
{
    if outs.len() == 0 {
        None
    } else {
        match concrete_error(outs.last()) {
            Some(e) => Some(e),
            None => last_concrete(outs.drop_last()),
        }
    }
}

/// The first of the two options that holds a value.
pub open spec fn or_else(
    a: Option<ScrapeError>,
    b: Option<ScrapeError>,
) -> Option<ScrapeError> {
    match a {
        Some(e) => Some(e),
        None => b,
    }
}

/// The image was drawn from this outcome's list.
pub open spec fn image_from(img: ImageRef, o: FetchOutcome) -> bool {
    o matches Ok(urls) && exists|k: int| 0 <= k < urls@.len() && img.url@ == urls@[k]@
}

/// What a finished resolution must look like, given the provider order and
/// the outcome each provider would report for the requested and for the
/// baseline category.
///
/// An image is returned exactly when some provider succeeds for the
/// requested category, or — unless the request already was the baseline —
/// some provider succeeds for the baseline category. The image comes from
/// the first success of the winning pass and names its provider. A failure
/// carries the last concrete error of the passes that ran, the baseline
/// pass counting last.
pub open spec fn resolution_matches(
    order: Seq<Providers>,
    requested: Greeting,
    req: Seq<FetchOutcome>,
    base: Seq<FetchOutcome>,
    res: Result<ImageRef, NoProviderAvailable>,
) -> bool {
    match res {
        Ok(img) => {
            if some_success(req) {
                forall|i: int|
                    first_success_at(req, i) ==> img.provider == order[i] && image_from(
                        img,
                        req[i],
                    )
            } else {
                &&& requested != baseline_spec()
                &&& some_success(base)
                &&& forall|i: int|
                    first_success_at(base, i) ==> img.provider == order[i] && image_from(
                        img,
                        base[i],
                    )
            }
        },
        Err(e) => {
            &&& !some_success(req)
            &&& (requested == baseline_spec() || !some_success(base))
            &&& e.last_error == (if requested != baseline_spec() {
                or_else(last_concrete(base), last_concrete(req))
            } else {
                last_concrete(req)
            })
        },
    }
}

/// Which pass the resolution is in.
#[derive(Debug, Clone, Copy, PartialEq, Eq, Structural)]
pub enum ResolvePhase {
    /// Asking each provider for the requested category.
    Requested,
    /// Asking each provider for the baseline category.
    Baseline,
    /// Finished, with a result.
    Done,
}

/// One in-flight resolution. The application asks [`Resolution::pending`]
/// which fetch to make, performs it, and hands the outcome to
/// [`Resolution::report`]; when [`Resolution::is_done`], the result is in
/// [`Resolution::into_result`].
pub struct Resolution {
    order: Vec<Providers>,
    requested: Greeting,
    phase: ResolvePhase,
    idx: usize,
    last_error: Option<ScrapeError>,
    outcome: Option<Result<ImageRef, NoProviderAvailable>>,
}

impl Resolution {
    pub closed spec fn order(self) -> Seq<Providers> {
        self.order@
    }

    pub closed spec fn requested(self) -> Greeting {
        self.requested
    }

    pub closed spec fn phase(self) -> ResolvePhase {
        self.phase
    }

    pub closed spec fn idx(self) -> int {
        self.idx as int
    }

    pub closed spec fn last_error(self) -> Option<ScrapeError> {
        self.last_error
    }

    pub closed spec fn result(self) -> Option<Result<ImageRef, NoProviderAvailable>> {
        self.outcome
    }

    /// While a pass runs, the position is in range and no result is set;
    /// once done, the result is set. The baseline pass only runs for a
    /// non-baseline request.
    pub closed spec fn wf(self) -> bool {
        &&& self.phase is Done ==> self.outcome is Some
        &&& !(self.phase is Done) ==> self.idx < self.order@.len() && self.outcome is None
        &&& self.phase is Baseline ==> self.requested != baseline_spec()
    }

    /// Start resolving `requested`, visiting providers in `order`. With no
    /// providers at all the resolution is immediately failed.
    pub fn new(order: Vec<Providers>, requested: Greeting) -> (r: Resolution)
        ensures
            r.wf(),
            r.order() == order@,
            r.requested() == requested,
            if order@.len() == 0 {
                r.phase() is Done && r.result() == Some(
                    Err::<ImageRef, NoProviderAvailable>(NoProviderAvailable { last_error: None }),
                )
            } else {
                &&& r.phase() is Requested
                &&& r.idx() == 0
                &&& r.last_error() is None
                &&& r.result() is None
            },
    {
        if order.len() == 0 {
            Resolution {
                order,
                requested,
                phase: ResolvePhase::Done,
                idx: 0,
                last_error: None,
                outcome: Some(Err(NoProviderAvailable { last_error: None })),
            }
        } else {
            Resolution {
                order,
                requested,
                phase: ResolvePhase::Requested,
                idx: 0,
                last_error: None,
                outcome: None,
            }
        }
    }

    /// The next fetch to make: a provider and the category to ask it for.
    /// `None` once the resolution is done.
    pub fn pending(&self) -> (r: Option<(Providers, Greeting)>)
        requires
            self.wf(),
        ensures
            match self.phase() {
                ResolvePhase::Requested => r == Some(
                    (self.order()[self.idx()], self.requested()),
                ),
                ResolvePhase::Baseline => r == Some((self.order()[self.idx()], baseline_spec())),
                ResolvePhase::Done => r is None,
            },
    {
        match self.phase {
            ResolvePhase::Requested => Some((self.order[self.idx], self.requested)),
            ResolvePhase::Baseline => Some((self.order[self.idx], baseline())),
            ResolvePhase::Done => None,
        }
    }

    pub fn is_done(&self) -> (r: bool)
        ensures
            r == (self.phase() is Done),
    {
        match self.phase {
            ResolvePhase::Done => true,
            _ => false,
        }
    }

    pub fn in_baseline(&self) -> (r: bool)
        ensures
            r == (self.phase() is Baseline),
    {
        match self.phase {
            ResolvePhase::Baseline => true,
            _ => false,
        }
    }

    pub fn current_index(&self) -> (r: usize)
        ensures
            r == self.idx(),
    {
        self.idx
    }

    /// Consume the outcome of the pending fetch and take the next step: a
    /// non-empty success finishes with one of its images, picked at
    /// random; anything else records its concrete error (an `Unsupported`
    /// records nothing) and moves on — to the next provider, from the end
    /// of the requested pass to the baseline pass, and from the end of the
    /// last pass to the final failure.
    pub fn report(&mut self, outcome: &FetchOutcome)
        requires
            old(self).wf(),
            !(old(self).phase() is Done),
        ensures
            final(self).wf(),
            final(self).order() == old(self).order(),
            final(self).requested() == old(self).requested(),
            if fetch_success(*outcome) {
                &&& final(self).phase() is Done
                &&& final(self).result() matches Some(res) && res matches Ok(img)
                    && img.provider == old(self).order()[old(self).idx()] && image_from(
                    img,
                    *outcome,
                )
            } else {
                ({
                    let err = or_else(concrete_error(*outcome), old(self).last_error());
                    if old(self).idx() + 1 < old(self).order().len() {
                        &&& final(self).phase() == old(self).phase()
                        &&& final(self).idx() == old(self).idx() + 1
                        &&& final(self).last_error() == err
                        &&& final(self).result() is None
                    } else if old(self).phase() is Requested && old(self).requested()
                        != baseline_spec() {
                        &&& final(self).phase() is Baseline
                        &&& final(self).idx() == 0
                        &&& final(self).last_error() == err
                        &&& final(self).result() is None
                    } else {
                        &&& final(self).phase() is Done
                        &&& final(self).result() == Some(
                            Err::<ImageRef, NoProviderAvailable>(
                                NoProviderAvailable { last_error: err },
                            ),
                        )
                    }
                })
            },
    {
        let provider = self.order[self.idx];
        match outcome {
            Ok(urls) if urls.len() > 0 => {
                let pick = random_index(urls.len());
                let url = urls[pick].clone();
                self.phase = ResolvePhase::Done;
                self.outcome = Some(Ok(ImageRef { url, provider }));
                proof {
                    let img = self.outcome->Some_0->Ok_0;
                    assert(img.url@ == outcome->Ok_0@[pick as int]@);
                }
            },
            _ => {
                let err = match outcome {
                    Ok(_) => Some(ScrapeError::EmptyResult),
                    Err(ScrapeError::UnsupportedGreeting) => self.last_error,
                    Err(e) => Some(*e),
                };
                self.last_error = err;
                let n = self.order.len();
                if self.idx + 1 < n {
                    self.idx = self.idx + 1;
                } else {
                    let requested_done = match self.phase {
                        ResolvePhase::Requested => true,
                        _ => false,
                    };
                    let falls_back = match self.requested {
                        Greeting::BuonGiorno => false,
                        _ => true,
                    };
                    if requested_done && falls_back {
                        self.phase = ResolvePhase::Baseline;
                        self.idx = 0;
                    } else {
                        self.phase = ResolvePhase::Done;
                        self.outcome = Some(Err(NoProviderAvailable { last_error: err }));
                    }
                }
            },
        }
    }

    /// The finished resolution's result.
    pub fn into_result(self) -> (r: Result<ImageRef, NoProviderAvailable>)
        requires
            self.wf(),
            self.phase() is Done,
        ensures
            Some(r) == self.result(),
    {
        match self.outcome {
            Some(res) => res,
            None => {
                proof {
                    assert(false);
                }
                Err(NoProviderAvailable { last_error: None })
            },
        }
    }
}

/// Run a whole resolution against fixed outcome tables: `req[i]` and
/// `base[i]` are what provider `order[i]` reports for the requested and
/// for the baseline category. This is the deterministic seam tests inject
/// outcomes through; the application instead drives [`Resolution`] one
/// fetch at a time and stops at the first success.
pub fn resolve_with_outcomes(
    order: Vec<Providers>,
    requested: Greeting,
    req: &Vec<FetchOutcome>,
    base: &Vec<FetchOutcome>,
) -> (r: Result<ImageRef, NoProviderAvailable>)
    requires
        req@.len() == order@.len(),
        base@.len() == order@.len(),
    ensures
        resolution_matches(order@, requested, req@, base@, r),
{
    let ghost ord = order@;
    let mut m = Resolution::new(order, requested);
    loop
        invariant_except_break
            m.wf(),
            m.order() == ord,
            m.requested() == requested,
            req@.len() == ord.len(),
            base@.len() == ord.len(),
            m.phase() is Requested ==> (forall|j: int|
                0 <= j < m.idx() ==> !fetch_success(req@[j])) && m.last_error() == last_concrete(
                req@.take(m.idx()),
            ),
            m.phase() is Baseline ==> !some_success(req@) && requested != baseline_spec() && (
            forall|j: int| 0 <= j < m.idx() ==> !fetch_success(base@[j])) && m.last_error()
                == or_else(last_concrete(base@.take(m.idx())), last_concrete(req@)),
            m.phase() is Done ==> (m.result() matches Some(res) && resolution_matches(
                ord,
                requested,
                req@,
                base@,
                res,
            )),
        ensures
            m.wf(),
            m.phase() is Done,
            m.result() matches Some(res) && resolution_matches(ord, requested, req@, base@, res),
        decreases (match m.phase() {
            ResolvePhase::Requested => 2 * ord.len() + 2 - m.idx(),
            ResolvePhase::Baseline => ord.len() + 1 - m.idx(),
            ResolvePhase::Done => 0,
        }),
    {
        if m.is_done() {
            break;
        }
        let i = m.current_index();
        let ghost pre = m;
        if m.in_baseline() {
            m.report(&base[i]);
            proof {
                lemma_driver_step_baseline(pre, m, requested, req@, base@, ord, i as int);
            }
        } else {
            m.report(&req[i]);
            proof {
                lemma_driver_step_requested(pre, m, requested, req@, base@, ord, i as int);
            }
        }
    }
    m.into_result()
}

/// What one `report` step in the requested pass preserves of the driver's
/// invariant.
proof fn lemma_driver_step_requested(
    pre: Resolution,
    post: Resolution,
    requested: Greeting,
    req: Seq<FetchOutcome>,
    base: Seq<FetchOutcome>,
    ord: Seq<Providers>,
    i: int,
)
    requires
        pre.wf(),
        post.wf(),
        pre.order() == ord,
        post.order() == ord,
        pre.requested() == requested,
        post.requested() == requested,
        req.len() == ord.len(),
        base.len() == ord.len(),
        pre.phase() is Requested,
        i == pre.idx(),
        forall|j: int| 0 <= j < i ==> !fetch_success(req[j]),
        pre.last_error() == last_concrete(req.take(i)),
        // the transition `report` promises, for the outcome `req[i]`
        if fetch_success(req[i]) {
            post.phase() is Done && (post.result() matches Some(res) && res matches Ok(img)
                && img.provider == ord[i] && image_from(img, req[i]))
        } else {
            ({
                let err = or_else(concrete_error(req[i]), pre.last_error());
                if i + 1 < ord.len() {
                    post.phase() is Requested && post.idx() == i + 1 && post.last_error() == err
                        && post.result() is None
                } else if requested != baseline_spec() {
                    post.phase() is Baseline && post.idx() == 0 && post.last_error() == err
                        && post.result() is None
                } else {
                    post.phase() is Done && post.result() == Some(
                        Err::<ImageRef, NoProviderAvailable>(
                            NoProviderAvailable { last_error: err },
                        ),
                    )
                }
            })
        },
    ensures
        post.phase() is Requested ==> (forall|j: int|
            0 <= j < post.idx() ==> !fetch_success(req[j])) && post.last_error() == last_concrete(
            req.take(post.idx()),
        ),
        post.phase() is Baseline ==> !some_success(req) && requested != baseline_spec() && (
        forall|j: int| 0 <= j < post.idx() ==> !fetch_success(base[j])) && post.last_error()
            == or_else(last_concrete(base.take(post.idx())), last_concrete(req)),
        post.phase() is Done ==> (post.result() matches Some(res) && resolution_matches(
            ord,
            requested,
            req,
            base,
            res,
        )),
{
    if fetch_success(req[i]) {
        let res = post.result()->Some_0;
        let img = res->Ok_0;
        assert(some_success(req));
        assert forall|j: int| first_success_at(req, j) implies j == i by {
            if j < i {
                assert(!fetch_success(req[j]));
            }
            if j > i {
                assert(!fetch_success(req[i]));
            }
        }
        assert(resolution_matches(ord, requested, req, base, res));
    } else {
        assert(req.take(i + 1).drop_last() =~= req.take(i));
        assert(req.take(i + 1).last() == req[i]);
        let err = or_else(concrete_error(req[i]), pre.last_error());
        assert(last_concrete(req.take(i + 1)) == err);
        if i + 1 < ord.len() {
        } else {
            assert(req.take(i + 1) =~= req);
            assert forall|j: int| 0 <= j < req.len() implies !fetch_success(req[j]) by {
                if j < i {
                } else {
                    assert(j == i);
                }
            }
            assert(!some_success(req));
            if requested != baseline_spec() {
                assert(base.take(0) =~= Seq::<FetchOutcome>::empty());
                assert(last_concrete(base.take(0)) is None);
                assert(post.last_error() == or_else(
                    last_concrete(base.take(0)),
                    last_concrete(req),
                ));
            } else {
                let res = post.result()->Some_0;
                assert(resolution_matches(ord, requested, req, base, res));
            }
        }
    }
}

/// What one `report` step in the baseline pass preserves of the driver's
/// invariant.
proof fn lemma_driver_step_baseline(
    pre: Resolution,
    post: Resolution,
    requested: Greeting,
    req: Seq<FetchOutcome>,
    base: Seq<FetchOutcome>,
    ord: Seq<Providers>,
    i: int,
)
    requires
        pre.wf(),
        post.wf(),
        pre.order() == ord,
        post.order() == ord,
        pre.requested() == requested,
        post.requested() == requested,
        req.len() == ord.len(),
        base.len() == ord.len(),
        pre.phase() is Baseline,
        i == pre.idx(),
        !some_success(req),
        requested != baseline_spec(),
        forall|j: int| 0 <= j < i ==> !fetch_success(base[j]),
        pre.last_error() == or_else(last_concrete(base.take(i)), last_concrete(req)),
        if fetch_success(base[i]) {
            post.phase() is Done && (post.result() matches Some(res) && res matches Ok(img)
                && img.provider == ord[i] && image_from(img, base[i]))
        } else {
            ({
                let err = or_else(concrete_error(base[i]), pre.last_error());
                if i + 1 < ord.len() {
                    post.phase() is Baseline && post.idx() == i + 1 && post.last_error() == err
                        && post.result() is None
                } else {
                    post.phase() is Done && post.result() == Some(
                        Err::<ImageRef, NoProviderAvailable>(
                            NoProviderAvailable { last_error: err },
                        ),
                    )
                }
            })
        },
    ensures
        post.phase() is Baseline ==> !some_success(req) && requested != baseline_spec() && (
        forall|j: int| 0 <= j < post.idx() ==> !fetch_success(base[j])) && post.last_error()
            == or_else(last_concrete(base.take(post.idx())), last_concrete(req)),
        post.phase() is Done ==> (post.result() matches Some(res) && resolution_matches(
            ord,
            requested,
            req,
            base,
            res,
        )),
        !(post.phase() is Requested),
{
    if fetch_success(base[i]) {
        let res = post.result()->Some_0;
        let img = res->Ok_0;
        assert(some_success(base));
        assert forall|j: int| first_success_at(base, j) implies j == i by {
            if j < i {
                assert(!fetch_success(base[j]));
            }
            if j > i {
                assert(!fetch_success(base[i]));
            }
        }
        assert(resolution_matches(ord, requested, req, base, res));
    } else {
        assert(base.take(i + 1).drop_last() =~= base.take(i));
        assert(base.take(i + 1).last() == base[i]);
        let err = or_else(concrete_error(base[i]), pre.last_error());
        assert(last_concrete(base.take(i + 1)) == or_else(
            concrete_error(base[i]),
            last_concrete(base.take(i)),
        ));
        assert(err == or_else(last_concrete(base.take(i + 1)), last_concrete(req)));
        if i + 1 < ord.len() {
        } else {
            assert(base.take(i + 1) =~= base);
            assert forall|j: int| 0 <= j < base.len() implies !fetch_success(base[j]) by {
                if j < i {
                } else {
                    assert(j == i);
                }
            }
            assert(!some_success(base));
            let res = post.result()->Some_0;
            assert(resolution_matches(ord, requested, req, base, res));
        }
    }
}

/// Fallback: with providers that all fail the requested category — for
/// instance because every one reports it unsupported — but at least one
/// provider succeeding for the baseline category, resolution returns an
/// image, never an error.
pub proof fn lemma_fallback_supplies_image(
    order: Seq<Providers>,
    requested: Greeting,
    req: Seq<FetchOutcome>,
    base: Seq<FetchOutcome>,
    res: Result<ImageRef, NoProviderAvailable>,
)
    requires
        resolution_matches(order, requested, req, base, res),
        requested != baseline_spec(),
        forall|i: int| 0 <= i < req.len() ==> !fetch_success(#[trigger] req[i]),
        exists|i: int| 0 <= i < base.len() && fetch_success(#[trigger] base[i]),
    ensures
        res is Ok,
{
    if res is Err {
        assert(some_success(base));
    }
}

/// Exhaustion: when every provider fails for both the requested and the
/// baseline category, resolution reports that no provider is available.
pub proof fn lemma_exhaustion_reports_unavailable(
    order: Seq<Providers>,
    requested: Greeting,
    req: Seq<FetchOutcome>,
    base: Seq<FetchOutcome>,
    res: Result<ImageRef, NoProviderAvailable>,
)
    requires
        resolution_matches(order, requested, req, base, res),
        forall|i: int| 0 <= i < req.len() ==> !fetch_success(#[trigger] req[i]),
        forall|i: int| 0 <= i < base.len() ==> !fetch_success(#[trigger] base[i]),
    ensures
        res is Err,
{
    if res is Ok {
        if some_success(req) {
            let i = choose|i: int| 0 <= i < req.len() && fetch_success(req[i]);
            assert(!fetch_success(req[i]));
        } else {
            assert(some_success(base));
            let i = choose|i: int| 0 <= i < base.len() && fetch_success(base[i]);
            assert(!fetch_success(base[i]));
        }
    }
}

} // verus!
