//! What a build yields: the candidates among its events, the diagnostics
//! to relay, and the one product that is selected, or the reason why none
//! is.

use vstd::prelude::*;
use vstd::string::*;
use crate::classify::{
    classified, classify, event_views, BuildEvent, BuildProductSelector, ClassView, Classification,
    EventView, SelectorView,
};
use crate::product::{BuildProduct, ProductKind, ProductView};
use crate::text::{lemma_texts_push, texts};

verus! {

/// Diagnostics are shown in quiet mode only above this verbosity.
pub const QUIET_VERBOSITY_THRESHOLD: u64 = 1;

/// Whether diagnostics are shown at all.
pub open spec fn shows_diagnostics(quiet: bool, verbose: u64) -> bool {
    !quiet || verbose > QUIET_VERBOSITY_THRESHOLD
}

/// The models of a list of products, in order.
pub open spec fn product_views(list: Seq<BuildProduct>) -> Seq<ProductView> {
    Seq::new(list.len(), |i: int| list[i]@)
}

/// Picks the product of an event that is a candidate.
pub open spec fn candidate_in(members: Seq<Seq<char>>, selector: SelectorView) -> spec_fn(
    EventView,
) -> Option<ProductView> {
    |event: EventView|
        match classified(event, members, selector) {
            ClassView::Candidate(product) => Some(product),
            _ => None,
        }
}

/// Picks the text of an event that carries a rendered diagnostic.
pub open spec fn diagnostic_in() -> spec_fn(EventView) -> Option<Seq<char>> {
    |event: EventView|
        match event {
            EventView::Diagnostic(Some(text)) => Some(text),
            _ => None,
        }
}

/// The candidates among `events`, in the order in which they arrived.
pub open spec fn candidates_of(
    events: Seq<EventView>,
    members: Seq<Seq<char>>,
    selector: SelectorView,
) -> Seq<ProductView> {
    events.filter_map(candidate_in(members, selector))
}

/// The rendered diagnostics among `events`, in the order in which they
/// arrived.
pub open spec fn diagnostics_of(events: Seq<EventView>) -> Seq<Seq<char>> {
    events.filter_map(diagnostic_in())
}

/// The diagnostics that are shown to the user: all of them in their
/// order, or none where quiet mode suppresses them.
pub open spec fn relayed(events: Seq<EventView>, quiet: bool, verbose: u64) -> Seq<Seq<char>> {
    if shows_diagnostics(quiet, verbose) {
        diagnostics_of(events)
    } else {
        Seq::empty()
    }
}

/// Why a build yields no product to work on.
#[derive(Debug, PartialEq, Eq)]
pub enum BuildError {
    /// The build did not end well.
    BuildFailed,
    /// The build succeeded and left no candidate.
    NoMatchingTargets,
    /// More than one candidate is left; they are listed in arrival order.
    AmbiguousTargets(Vec<BuildProduct>),
}

/// Mathematical model of a [`BuildError`].
pub enum BuildErrorView {
    BuildFailed,
    NoMatchingTargets,
    AmbiguousTargets(Seq<ProductView>),
}

impl View for BuildError {
    type V = BuildErrorView;

    open spec fn view(&self) -> BuildErrorView {
        match self {
            BuildError::BuildFailed => BuildErrorView::BuildFailed,
            BuildError::NoMatchingTargets => BuildErrorView::NoMatchingTargets,
            BuildError::AmbiguousTargets(list) => BuildErrorView::AmbiguousTargets(
                product_views(list@),
            ),
        }
    }
}

/// The model of the result of a selection.
pub open spec fn selection_view(result: Result<BuildProduct, BuildError>) -> Result<
    ProductView,
    BuildErrorView,
> {
    match result {
        Ok(product) => Ok(product@),
        Err(error) => Err(error@),
    }
}

/// Whether a product is something other than a build script.
pub open spec fn not_build_script() -> spec_fn(ProductView) -> bool {
    |product: ProductView| !(product.kind is CustomBuildScript)
}

/// The candidates among which the choice is made. Where nothing was asked
/// for and several candidates arrived, build scripts are left out.
pub open spec fn pool(selector: SelectorView, candidates: Seq<ProductView>) -> Seq<ProductView> {
    if selector is Any && candidates.len() > 1 {
        candidates.filter(not_build_script())
    } else {
        candidates
    }
}

/// The product that is selected among `candidates`, or the reason why
/// none is.
///
/// Several candidates are ambiguous, however the build ended. Else a
/// build that did not end well has failed, whether or not it left a
/// candidate: a product is selected only from a build that succeeded, and
/// then it is the one candidate that is left.
pub open spec fn selection(selector: SelectorView, candidates: Seq<ProductView>, exit_ok: bool)
    -> Result<ProductView, BuildErrorView> {
    let pool = pool(selector, candidates);
    if pool.len() > 1 {
        Err(BuildErrorView::AmbiguousTargets(pool))
    } else if !exit_ok {
        Err(BuildErrorView::BuildFailed)
    } else if pool.len() == 0 {
        Err(BuildErrorView::NoMatchingTargets)
    } else {
        Ok(pool[0])
    }
}

/// What a build with the given events and exit status yields.
pub open spec fn outcome(
    events: Seq<EventView>,
    members: Seq<Seq<char>>,
    selector: SelectorView,
    exit_ok: bool,
) -> Result<ProductView, BuildErrorView> {
    selection(selector, candidates_of(events, members, selector), exit_ok)
}

/// Whether diagnostics are shown to the user.
pub fn relays_diagnostics(quiet: bool, verbose: u64) -> (shown: bool)
    ensures
        shown == shows_diagnostics(quiet, verbose),
{
    !quiet || verbose > QUIET_VERBOSITY_THRESHOLD
}

/// What was gathered from a build's events.
#[derive(Debug, PartialEq, Eq)]
pub struct Drained {
    /// The candidates, in arrival order.
    pub candidates: Vec<BuildProduct>,
    /// The diagnostics to show, in arrival order.
    pub diagnostics: Vec<String>,
}

/// Appending a product to a list appends its model to the list's models.
pub proof fn lemma_product_views_push(list: Seq<BuildProduct>, product: BuildProduct)
    ensures
        product_views(list.push(product)) == product_views(list).push(product@),
{
    assert(product_views(list.push(product)) =~= product_views(list).push(product@));
}

/// Classifies every event of a finished stream: gathers the candidates and
/// the diagnostics that are to be shown, each in arrival order.
pub fn drain(
    events: Vec<BuildEvent>,
    members: &Vec<String>,
    selector: &BuildProductSelector,
    quiet: bool,
    verbose: u64,
) -> (out: Drained)
    ensures
        product_views(out.candidates@) == candidates_of(
            event_views(events@),
            texts(members@),
            selector@,
        ),
        texts(out.diagnostics@) == relayed(event_views(events@), quiet, verbose),
{
    let shown = relays_diagnostics(quiet, verbose);
    let mut candidates: Vec<BuildProduct> = Vec::new();
    let mut diagnostics: Vec<String> = Vec::new();
    let ghost all = event_views(events@);
    let ghost pick = candidate_in(texts(members@), selector@);
    for event in it: events
        invariant
            it.seq() == events@,
            all == event_views(events@),
            pick == candidate_in(texts(members@), selector@),
            shown == shows_diagnostics(quiet, verbose),
            product_views(candidates@) == all.take(it.index() as int).filter_map(pick),
            shown ==> texts(diagnostics@) == all.take(it.index() as int).filter_map(
                diagnostic_in(),
            ),
            !shown ==> diagnostics@.len() == 0,
    {
        proof {
            let i = it.index() as int;
            all.lemma_filter_map_take_succ(pick, i);
            all.lemma_filter_map_take_succ(diagnostic_in(), i);
            assert(all[i] == event@);
        }
        match classify(event, members, selector) {
            Classification::Candidate(product) => {
                proof {
                    lemma_product_views_push(candidates@, product);
                }
                candidates.push(product);
            },
            Classification::DiagnosticText(text) => {
                if shown {
                    proof {
                        lemma_texts_push(diagnostics@, text);
                    }
                    diagnostics.push(text);
                }
            },
            Classification::Ignore => {},
        }
    }
    proof {
        assert(all.take(all.len() as int) =~= all);
        assert(texts(diagnostics@) =~= relayed(all, quiet, verbose));
    }
    Drained { candidates, diagnostics }
}

/// The products of `candidates` that are not build scripts, in order.
pub fn without_build_scripts(candidates: Vec<BuildProduct>) -> (kept: Vec<BuildProduct>)
    ensures
        product_views(kept@) == product_views(candidates@).filter(not_build_script()),
{
    let mut kept: Vec<BuildProduct> = Vec::new();
    let ghost all = product_views(candidates@);
    for product in it: candidates
        invariant
            it.seq() == candidates@,
            all == product_views(candidates@),
            product_views(kept@) == all.take(it.index() as int).filter(not_build_script()),
    {
        proof {
            let i = it.index() as int;
            assert(all.take(i + 1) =~= all.take(i).push(all[i]));
            all.take(i).lemma_filter_push(all[i], not_build_script());
            assert(all[i] == product@);
            lemma_product_views_push(kept@, product);
        }
        match product.kind {
            ProductKind::CustomBuildScript => {},
            _ => {
                kept.push(product);
            },
        }
    }
    proof {
        assert(all.take(all.len() as int) =~= all);
    }
    kept
}

/// Selects the one product to work on among the candidates of a build
/// that ended with the given status.
pub fn select(selector: &BuildProductSelector, candidates: Vec<BuildProduct>, exit_ok: bool) -> (result:
    Result<BuildProduct, BuildError>)
    ensures
        selection_view(result) == selection(selector@, product_views(candidates@), exit_ok),
{
    let narrowed = match selector {
        BuildProductSelector::Any => candidates.len() > 1,
        _ => false,
    };
    let mut pool = if narrowed {
        without_build_scripts(candidates)
    } else {
        candidates
    };
    assert(product_views(pool@) == self::pool(selector@, product_views(candidates@)));
    if pool.len() > 1 {
        Err(BuildError::AmbiguousTargets(pool))
    } else if !exit_ok {
        Err(BuildError::BuildFailed)
    } else {
        let ghost before = pool@;
        match pool.pop() {
            Some(product) => {
                assert(product@ == product_views(before)[0]);
                Ok(product)
            },
            None => Err(BuildError::NoMatchingTargets),
        }
    }
}

/// What a finished build yields: the selected product and the diagnostics
/// to show, or the reason why no product is selected.
pub fn build_outcome(
    events: Vec<BuildEvent>,
    members: &Vec<String>,
    selector: &BuildProductSelector,
    exit_ok: bool,
) -> (result: Result<BuildProduct, BuildError>)
    ensures
        selection_view(result) == outcome(
            event_views(events@),
            texts(members@),
            selector@,
            exit_ok,
        ),
{
    let drained = drain(events, members, selector, true, 0);
    select(selector, drained.candidates, exit_ok)
}

/// What is picked from a stream is what is picked from its first part
/// followed by what is picked from the rest.
pub proof fn lemma_filter_map_add<A, B>(a: Seq<A>, b: Seq<A>, f: spec_fn(A) -> Option<B>)
    ensures
        (a + b).filter_map(f) == a.filter_map(f) + b.filter_map(f),
    decreases b.len(),
{
    if b.len() == 0 {
        assert(a + b =~= a);
        assert(a.filter_map(f) + b.filter_map(f) =~= a.filter_map(f));
    } else {
        lemma_filter_map_add(a, b.drop_last(), f);
        assert((a + b).drop_last() =~= a + b.drop_last());
        assert((a + b).last() == b.last());
        match f(b.last()) {
            Some(x) => {
                assert((a + b).filter_map(f) =~= a.filter_map(f) + b.filter_map(f));
            },
            None => {},
        }
    }
}

/// Nothing is picked from a stream none of whose events is picked.
pub proof fn lemma_filter_map_none<A, B>(a: Seq<A>, f: spec_fn(A) -> Option<B>)
    requires
        forall|i: int| 0 <= i < a.len() ==> f(#[trigger] a[i]) is None,
    ensures
        a.filter_map(f) == Seq::<B>::empty(),
    decreases a.len(),
{
    if a.len() > 0 {
        assert(f(a[a.len() - 1]) is None);
        assert forall|i: int| 0 <= i < a.drop_last().len() implies f(
            #[trigger] a.drop_last()[i],
        ) is None by {
            assert(a.drop_last()[i] == a[i]);
        }
        lemma_filter_map_none(a.drop_last(), f);
    }
}

/// The one event of a stream that is picked, with events around it that
/// are not, is all that is picked.
pub proof fn lemma_filter_map_single<A, B>(a: Seq<A>, f: spec_fn(A) -> Option<B>, at: int)
    requires
        0 <= at < a.len(),
        f(a[at]) is Some,
        forall|i: int| 0 <= i < a.len() && i != at ==> f(#[trigger] a[i]) is None,
    ensures
        a.filter_map(f) == seq![f(a[at])->0],
{
    let before = a.take(at);
    let after = a.skip(at + 1);
    assert(a =~= before + seq![a[at]] + after);
    assert forall|i: int| 0 <= i < before.len() implies f(#[trigger] before[i]) is None by {
        assert(before[i] == a[i]);
    }
    assert forall|i: int| 0 <= i < after.len() implies f(#[trigger] after[i]) is None by {
        assert(after[i] == a[i + at + 1]);
    }
    lemma_filter_map_none(before, f);
    lemma_filter_map_none(after, f);
    Seq::lemma_filter_map_singleton(a[at], f);
    lemma_filter_map_add(before, seq![a[at]], f);
    lemma_filter_map_add(before + seq![a[at]], after, f);
    assert(a.filter_map(f) =~= seq![f(a[at])->0]);
}

/// Two events of a stream that are picked make at least two picks.
pub proof fn lemma_filter_map_two<A, B>(a: Seq<A>, f: spec_fn(A) -> Option<B>, i: int, j: int)
    requires
        0 <= i < j < a.len(),
        f(a[i]) is Some,
        f(a[j]) is Some,
    ensures
        a.filter_map(f).len() >= 2,
{
    let first = a.take(i);
    let middle = a.subrange(i + 1, j);
    let last = a.skip(j + 1);
    assert(a =~= first + seq![a[i]] + middle + seq![a[j]] + last);
    Seq::lemma_filter_map_singleton(a[i], f);
    Seq::lemma_filter_map_singleton(a[j], f);
    lemma_filter_map_add(first, seq![a[i]], f);
    lemma_filter_map_add(first + seq![a[i]], middle, f);
    lemma_filter_map_add(first + seq![a[i]] + middle, seq![a[j]], f);
    lemma_filter_map_add(first + seq![a[i]] + middle + seq![a[j]], last, f);
}

/// A product is among the candidates of a stream exactly if the stream
/// reports it as compiled, one of the members owns it and the selector
/// accepts it.
pub proof fn lemma_candidates_are_the_matching_products(
    events: Seq<EventView>,
    members: Seq<Seq<char>>,
    selector: SelectorView,
    product: ProductView,
)
    ensures
        candidates_of(events, members, selector).contains(product) <==> (events.contains(
            EventView::ProductCompiled(product),
        ) && crate::classify::is_candidate(product, members, selector)),
    decreases events.len(),
{
    let pick = candidate_in(members, selector);
    if events.len() == 0 {
    } else {
        let earlier = events.drop_last();
        lemma_candidates_are_the_matching_products(earlier, members, selector, product);
        let found = earlier.filter_map(pick);
        let wanted = EventView::ProductCompiled(product);
        if events.contains(wanted) && crate::classify::is_candidate(product, members, selector) {
            let i = choose|i: int| 0 <= i < events.len() && events[i] == wanted;
            if i == events.len() - 1 {
                assert(events.filter_map(pick) == found + seq![product]);
                assert((found + seq![product])[found.len() as int] == product);
            } else {
                assert(earlier[i] == wanted);
                assert(found.contains(product));
                let k = choose|k: int| 0 <= k < found.len() && found[k] == product;
                match pick(events.last()) {
                    Some(other) => {
                        assert((found + seq![other])[k] == product);
                    },
                    None => {},
                }
            }
        }
        if events.filter_map(pick).contains(product) {
            let all = events.filter_map(pick);
            let k = choose|k: int| 0 <= k < all.len() && all[k] == product;
            if k < found.len() {
                match pick(events.last()) {
                    Some(other) => {
                        assert((found + seq![other])[k] == found[k]);
                    },
                    None => {},
                }
                assert(found.contains(product));
                let i = choose|i: int| 0 <= i < earlier.len() && earlier[i] == wanted;
                assert(events[i] == wanted);
            } else {
                assert(pick(events.last()) == Some(product));
                assert(events[events.len() - 1] == wanted);
            }
        }
    }
}

/// A build that ends well and emits exactly one candidate, at position
/// `at` of its events, yields that candidate.
pub proof fn lemma_single_candidate_is_selected(
    events: Seq<EventView>,
    members: Seq<Seq<char>>,
    selector: SelectorView,
    at: int,
)
    requires
        0 <= at < events.len(),
        classified(events[at], members, selector) is Candidate,
        forall|i: int|
            0 <= i < events.len() && i != at ==> !(classified(
                #[trigger] events[i],
                members,
                selector,
            ) is Candidate),
    ensures
        events[at] is ProductCompiled,
        outcome(events, members, selector, true) == Ok::<ProductView, BuildErrorView>(
            events[at]->ProductCompiled_0,
        ),
{
    lemma_filter_map_single(events, candidate_in(members, selector), at);
}

/// A build that emits two or more candidates for a selector other than
/// `Any` is refused as ambiguous, with all its candidates listed and none
/// picked.
pub proof fn lemma_several_candidates_are_ambiguous(
    events: Seq<EventView>,
    members: Seq<Seq<char>>,
    selector: SelectorView,
    exit_ok: bool,
    i: int,
    j: int,
)
    requires
        !(selector is Any),
        0 <= i < j < events.len(),
        classified(events[i], members, selector) is Candidate,
        classified(events[j], members, selector) is Candidate,
    ensures
        outcome(events, members, selector, exit_ok) == Err::<ProductView, BuildErrorView>(
            BuildErrorView::AmbiguousTargets(candidates_of(events, members, selector)),
        ),
{
    lemma_filter_map_two(events, candidate_in(members, selector), i, j);
}

/// Where nothing was asked for and the candidates of a build that ended
/// well are one build script and one other product, in either order, the
/// other product is selected.
pub proof fn lemma_build_script_is_passed_over(product: ProductView, script: ProductView)
    requires
        !(product.kind is CustomBuildScript),
        script.kind is CustomBuildScript,
    ensures
        selection(SelectorView::Any, seq![product, script], true) == Ok::<
            ProductView,
            BuildErrorView,
        >(product),
        selection(SelectorView::Any, seq![script, product], true) == Ok::<
            ProductView,
            BuildErrorView,
        >(product),
{
    let keep = not_build_script();
    let none = Seq::<ProductView>::empty();
    assert(none.filter(keep) =~= none) by {
        reveal(Seq::filter);
    }
    none.lemma_filter_push(product, keep);
    none.push(product).lemma_filter_push(script, keep);
    none.lemma_filter_push(script, keep);
    none.push(script).lemma_filter_push(product, keep);
    assert(seq![product, script] =~= none.push(product).push(script));
    assert(seq![script, product] =~= none.push(script).push(product));
    assert(none.push(product)[0] == product);
}

/// Where nothing was asked for, a build that ends well and emits one
/// binary or example of a member at position `at`, a build script at
/// position `script_at`, and no other candidate, yields the binary or
/// example.
pub proof fn lemma_build_script_event_is_no_candidate(
    events: Seq<EventView>,
    members: Seq<Seq<char>>,
    at: int,
    script_at: int,
)
    requires
        0 <= at < events.len(),
        0 <= script_at < events.len(),
        classified(events[at], members, SelectorView::Any) is Candidate,
        events[script_at] matches EventView::ProductCompiled(script)
            && script.kind is CustomBuildScript,
        forall|i: int|
            0 <= i < events.len() && i != at && i != script_at ==> !(classified(
                #[trigger] events[i],
                members,
                SelectorView::Any,
            ) is Candidate),
    ensures
        events[at] is ProductCompiled,
        outcome(events, members, SelectorView::Any, true) == Ok::<ProductView, BuildErrorView>(
            events[at]->ProductCompiled_0,
        ),
{
    lemma_filter_map_single(events, candidate_in(members, SelectorView::Any), at);
}

/// A build that did not end well yields no product: it has failed, or,
/// where it left several candidates, is ambiguous.
pub proof fn lemma_failed_build_yields_no_product(
    events: Seq<EventView>,
    members: Seq<Seq<char>>,
    selector: SelectorView,
)
    ensures
        outcome(events, members, selector, false) is Err,
        outcome(events, members, selector, false) is Err ==> {
            let error = outcome(events, members, selector, false)->Err_0;
            error is BuildFailed || error is AmbiguousTargets
        },
{
}

/// What is kept of a list is in the list.
pub proof fn lemma_filter_is_part<A>(list: Seq<A>, keep: spec_fn(A) -> bool, item: A)
    requires
        list.filter(keep).contains(item),
    ensures
        list.contains(item),
        keep(item),
{
    list.lemma_filter_contains_rev(keep, item);
    let kept = list.filter(keep);
    let k = choose|k: int| 0 <= k < kept.len() && kept[k] == item;
    list.lemma_filter_pred(keep, k);
}

/// The product that a build yields comes from a build that ended well:
/// the stream reports it as compiled, one of the members owns it, the
/// selector accepts it, and it is the only such product of the stream,
/// build scripts aside where nothing was asked for.
pub proof fn lemma_selected_product_is_the_one_candidate(
    events: Seq<EventView>,
    members: Seq<Seq<char>>,
    selector: SelectorView,
    exit_ok: bool,
    product: ProductView,
)
    requires
        outcome(events, members, selector, exit_ok) == Ok::<ProductView, BuildErrorView>(product),
    ensures
        exit_ok,
        events.contains(EventView::ProductCompiled(product)),
        crate::classify::is_candidate(product, members, selector),
        pool(selector, candidates_of(events, members, selector)) == seq![product],
        forall|other: ProductView|
            events.contains(EventView::ProductCompiled(other)) && crate::classify::is_candidate(
                other,
                members,
                selector,
            ) && other != product ==> selector is Any && other.kind is CustomBuildScript,
{
    let found = candidates_of(events, members, selector);
    let left = pool(selector, found);
    assert(left =~= seq![product]);
    assert(left[0] == product);
    assert(left.contains(product));
    if selector is Any && found.len() > 1 {
        lemma_filter_is_part(found, not_build_script(), product);
    }
    assert(found.contains(product));
    lemma_candidates_are_the_matching_products(events, members, selector, product);
    assert forall|other: ProductView|
        events.contains(EventView::ProductCompiled(other)) && crate::classify::is_candidate(
            other,
            members,
            selector,
        ) && other != product implies selector is Any && other.kind is CustomBuildScript by {
        lemma_candidates_are_the_matching_products(events, members, selector, other);
        assert(found.contains(other));
        if !(selector is Any && found.len() > 1) {
            let k = choose|k: int| 0 <= k < found.len() && found[k] == other;
            assert(found[0] == product);
        } else if !(other.kind is CustomBuildScript) {
            let k = choose|k: int| 0 <= k < found.len() && found[k] == other;
            lemma_filter_keeps(found, not_build_script(), k);
            let j = choose|j: int| 0 <= j < left.len() && left[j] == other;
            assert(left[0] == product);
        }
    }
}

/// What is to be kept of a list is in what is kept.
pub proof fn lemma_filter_keeps<A>(list: Seq<A>, keep: spec_fn(A) -> bool, i: int)
    requires
        0 <= i < list.len(),
        keep(list[i]),
    ensures
        list.filter(keep).contains(list[i]),
    decreases list.len(),
{
    reveal(Seq::filter);
    let earlier = list.drop_last().filter(keep);
    if i < list.len() - 1 {
        lemma_filter_keeps(list.drop_last(), keep, i);
        assert(list.drop_last()[i] == list[i]);
        let k = choose|k: int| 0 <= k < earlier.len() && earlier[k] == list[i];
        if keep(list.last()) {
            assert(earlier.push(list.last())[k] == list[i]);
        }
    } else {
        assert(earlier.push(list[i])[earlier.len() as int] == list[i]);
    }
}

/// A build that emits no candidate fails: for want of matching targets
/// where it ended well, as a failed build where it did not.
pub proof fn lemma_no_candidate_fails(
    events: Seq<EventView>,
    members: Seq<Seq<char>>,
    selector: SelectorView,
    exit_ok: bool,
)
    requires
        forall|i: int|
            0 <= i < events.len() ==> !(classified(#[trigger] events[i], members, selector)
                is Candidate),
    ensures
        exit_ok ==> outcome(events, members, selector, exit_ok) == Err::<
            ProductView,
            BuildErrorView,
        >(BuildErrorView::NoMatchingTargets),
        !exit_ok ==> outcome(events, members, selector, exit_ok) == Err::<
            ProductView,
            BuildErrorView,
        >(BuildErrorView::BuildFailed),
{
    lemma_filter_map_none(events, candidate_in(members, selector));
    if selector is Any {
        assert(Seq::<ProductView>::empty().filter(not_build_script()).len() == 0) by {
            reveal(Seq::filter);
        }
    }
}

/// The text that an event adds to the diagnostics: its rendered text
/// where it is a diagnostic with one, nothing otherwise.
pub open spec fn diagnostic_text(event: EventView) -> Seq<Seq<char>> {
    match event {
        EventView::Diagnostic(Some(text)) => seq![text],
        _ => Seq::empty(),
    }
}

/// Diagnostics are relayed in stream order: what is shown for a stream is
/// what is shown for the events before any one event, then that event's
/// text, then what is shown for the events after it. Events that are no
/// diagnostics add nothing, wherever they stand.
pub proof fn lemma_diagnostics_keep_stream_order(
    before: Seq<EventView>,
    event: EventView,
    after: Seq<EventView>,
    verbose: u64,
)
    ensures
        relayed(before + seq![event] + after, false, verbose) == relayed(before, false, verbose)
            + diagnostic_text(event) + relayed(after, false, verbose),
{
    let pick = diagnostic_in();
    Seq::lemma_filter_map_singleton(event, pick);
    lemma_filter_map_add(before, seq![event], pick);
    lemma_filter_map_add(before + seq![event], after, pick);
}

/// In quiet mode no diagnostics are relayed unless the verbosity is above
/// the threshold; then, and outside quiet mode, all are.
pub proof fn lemma_quiet_mode_suppresses_diagnostics(events: Seq<EventView>, quiet: bool, verbose: u64)
    ensures
        quiet && verbose <= QUIET_VERBOSITY_THRESHOLD ==> relayed(events, quiet, verbose)
            == Seq::<Seq<char>>::empty(),
        !quiet || verbose > QUIET_VERBOSITY_THRESHOLD ==> relayed(events, quiet, verbose)
            == diagnostics_of(events),
{
}

} // verus!
