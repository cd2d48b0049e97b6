//! The selector that names the wanted build product, and the sorting of
//! build events into candidates, diagnostics and the rest.

use vstd::prelude::*;
use vstd::string::*;
use crate::product::{BuildProduct, ProductKind, ProductView};
use crate::text::{str_eq, texts};

verus! {

/// Which build product the user wants a tool to work on.
#[derive(Debug, PartialEq, Eq)]
pub enum BuildProductSelector {
    /// Nothing was asked for: whatever binary or example the build makes.
    Any,
    Binary(String),
    Example(String),
    Test(String),
    Bench(String),
    Library,
    CustomBuildScript,
}

/// Mathematical model of a [`BuildProductSelector`].
pub enum SelectorView {
    Any,
    Binary(Seq<char>),
    Example(Seq<char>),
    Test(Seq<char>),
    Bench(Seq<char>),
    Library,
    CustomBuildScript,
}

impl View for BuildProductSelector {
    type V = SelectorView;

    open spec fn view(&self) -> SelectorView {
        match self {
            BuildProductSelector::Any => SelectorView::Any,
            BuildProductSelector::Binary(name) => SelectorView::Binary(name@),
            BuildProductSelector::Example(name) => SelectorView::Example(name@),
            BuildProductSelector::Test(name) => SelectorView::Test(name@),
            BuildProductSelector::Bench(name) => SelectorView::Bench(name@),
            BuildProductSelector::Library => SelectorView::Library,
            BuildProductSelector::CustomBuildScript => SelectorView::CustomBuildScript,
        }
    }
}

impl Clone for BuildProductSelector {
    fn clone(&self) -> (copy: BuildProductSelector)
        ensures
            copy@ == self@,
    {
        match self {
            BuildProductSelector::Any => BuildProductSelector::Any,
            BuildProductSelector::Binary(name) => BuildProductSelector::Binary(name.clone()),
            BuildProductSelector::Example(name) => BuildProductSelector::Example(name.clone()),
            BuildProductSelector::Test(name) => BuildProductSelector::Test(name.clone()),
            BuildProductSelector::Bench(name) => BuildProductSelector::Bench(name.clone()),
            BuildProductSelector::Library => BuildProductSelector::Library,
            BuildProductSelector::CustomBuildScript => BuildProductSelector::CustomBuildScript,
        }
    }
}

impl SelectorView {
    /// Whether the selector accepts `product`.
    ///
    /// A named selector asks for its own kind and the given name. `Library`
    /// accepts every kind that is not a binary, example, test, bench or
    /// build script. `Any` accepts binaries and examples only.
    pub open spec fn matches(self, product: ProductView) -> bool {
        match self {
            SelectorView::Any => product.kind is Binary || product.kind is Example,
            SelectorView::Binary(name) => product.kind is Binary && product.name == name,
            SelectorView::Example(name) => product.kind is Example && product.name == name,
            SelectorView::Test(name) => product.kind is Test && product.name == name,
            SelectorView::Bench(name) => product.kind is Bench && product.name == name,
            SelectorView::Library => product.kind is Library || product.kind is Other,
            SelectorView::CustomBuildScript => product.kind is CustomBuildScript,
        }
    }

    /// The selector that a set of product flags stands for: the library
    /// flag first, then a binary, example, test and bench name, in this
    /// order; `Any` where none is given.
    pub open spec fn from_flags(
        lib: bool,
        bin: Option<Seq<char>>,
        example: Option<Seq<char>>,
        test: Option<Seq<char>>,
        bench: Option<Seq<char>>,
    ) -> SelectorView {
        if lib {
            SelectorView::Library
        } else if let Some(name) = bin {
            SelectorView::Binary(name)
        } else if let Some(name) = example {
            SelectorView::Example(name)
        } else if let Some(name) = test {
            SelectorView::Test(name)
        } else if let Some(name) = bench {
            SelectorView::Bench(name)
        } else {
            SelectorView::Any
        }
    }
}

impl BuildProductSelector {
    /// The selector that the product flags of a command line stand for.
    pub fn from_flags(
        lib: bool,
        bin: Option<String>,
        example: Option<String>,
        test: Option<String>,
        bench: Option<String>,
    ) -> (selector: BuildProductSelector)
        ensures
            selector@ == SelectorView::from_flags(
                lib,
                crate::text::opt_text(bin),
                crate::text::opt_text(example),
                crate::text::opt_text(test),
                crate::text::opt_text(bench),
            ),
    {
        if lib {
            BuildProductSelector::Library
        } else if let Some(name) = bin {
            BuildProductSelector::Binary(name)
        } else if let Some(name) = example {
            BuildProductSelector::Example(name)
        } else if let Some(name) = test {
            BuildProductSelector::Test(name)
        } else if let Some(name) = bench {
            BuildProductSelector::Bench(name)
        } else {
            BuildProductSelector::Any
        }
    }

    /// Whether the selector accepts `product`.
    pub fn matches(&self, product: &BuildProduct) -> (accepted: bool)
        ensures
            accepted == self@.matches(product@),
    {
        match self {
            BuildProductSelector::Any => match product.kind {
                ProductKind::Binary | ProductKind::Example => true,
                _ => false,
            },
            BuildProductSelector::Binary(name) => match product.kind {
                ProductKind::Binary => str_eq(product.name.as_str(), name.as_str()),
                _ => false,
            },
            BuildProductSelector::Example(name) => match product.kind {
                ProductKind::Example => str_eq(product.name.as_str(), name.as_str()),
                _ => false,
            },
            BuildProductSelector::Test(name) => match product.kind {
                ProductKind::Test => str_eq(product.name.as_str(), name.as_str()),
                _ => false,
            },
            BuildProductSelector::Bench(name) => match product.kind {
                ProductKind::Bench => str_eq(product.name.as_str(), name.as_str()),
                _ => false,
            },
            BuildProductSelector::Library => match product.kind {
                ProductKind::Library | ProductKind::Other(_) => true,
                _ => false,
            },
            BuildProductSelector::CustomBuildScript => match product.kind {
                ProductKind::CustomBuildScript => true,
                _ => false,
            },
        }
    }
}

/// One message of a build's progress stream.
#[derive(Debug, PartialEq, Eq)]
pub enum BuildEvent {
    /// A product was compiled.
    ProductCompiled(BuildProduct),
    /// The compiler reported something; the text is what it would print.
    Diagnostic(Option<String>),
    /// Anything else.
    Other,
}

/// Mathematical model of a [`BuildEvent`].
pub enum EventView {
    ProductCompiled(ProductView),
    Diagnostic(Option<Seq<char>>),
    Other,
}

impl View for BuildEvent {
    type V = EventView;

    open spec fn view(&self) -> EventView {
        match self {
            BuildEvent::ProductCompiled(product) => EventView::ProductCompiled(product@),
            BuildEvent::Diagnostic(text) => EventView::Diagnostic(crate::text::opt_text(*text)),
            BuildEvent::Other => EventView::Other,
        }
    }
}

/// The models of a list of events, in order.
pub open spec fn event_views(events: Seq<BuildEvent>) -> Seq<EventView> {
    Seq::new(events.len(), |i: int| events[i]@)
}

/// What an event means to the build in progress.
#[derive(Debug, PartialEq, Eq)]
pub enum Classification {
    /// The product may be the one that was asked for.
    Candidate(BuildProduct),
    /// Text to show to the user.
    DiagnosticText(String),
    /// Nothing to do.
    Ignore,
}

/// Mathematical model of a [`Classification`].
pub enum ClassView {
    Candidate(ProductView),
    DiagnosticText(Seq<char>),
    Ignore,
}

impl View for Classification {
    type V = ClassView;

    open spec fn view(&self) -> ClassView {
        match self {
            Classification::Candidate(product) => ClassView::Candidate(product@),
            Classification::DiagnosticText(text) => ClassView::DiagnosticText(text@),
            Classification::Ignore => ClassView::Ignore,
        }
    }
}

/// Whether `product` belongs to one of `members` and is accepted by
/// `selector`.
pub open spec fn is_candidate(
    product: ProductView,
    members: Seq<Seq<char>>,
    selector: SelectorView,
) -> bool {
    members.contains(product.package) && selector.matches(product)
}

/// The classification of `event` for a build that wants what `selector`
/// names among the products of `members`.
pub open spec fn classified(
    event: EventView,
    members: Seq<Seq<char>>,
    selector: SelectorView,
) -> ClassView {
    match event {
        EventView::ProductCompiled(product) => if is_candidate(product, members, selector) {
            ClassView::Candidate(product)
        } else {
            ClassView::Ignore
        },
        EventView::Diagnostic(Some(text)) => ClassView::DiagnosticText(text),
        EventView::Diagnostic(None) => ClassView::Ignore,
        EventView::Other => ClassView::Ignore,
    }
}

/// Whether `id` is one of `members`.
pub fn is_member(members: &Vec<String>, id: &str) -> (found: bool)
    ensures
        found == texts(members@).contains(id@),
{
    let mut i: usize = 0;
    while i < members.len()
        invariant
            i <= members.len(),
            forall|k: int| 0 <= k < i ==> texts(members@)[k] != id@,
        decreases members.len() - i,
    {
        if str_eq(members[i].as_str(), id) {
            assert(texts(members@)[i as int] == id@);
            return true;
        }
        i += 1;
    }
    false
}

/// Classifies one event of a build's progress stream.
pub fn classify(event: BuildEvent, members: &Vec<String>, selector: &BuildProductSelector) -> (class:
    Classification)
    ensures
        class@ == classified(event@, texts(members@), selector@),
{
    match event {
        BuildEvent::ProductCompiled(product) => {
            if is_member(members, product.package.as_str()) && selector.matches(&product) {
                Classification::Candidate(product)
            } else {
                Classification::Ignore
            }
        },
        BuildEvent::Diagnostic(Some(text)) => Classification::DiagnosticText(text),
        BuildEvent::Diagnostic(None) => Classification::Ignore,
        BuildEvent::Other => Classification::Ignore,
    }
}

/// A package of the workspace.
#[derive(Debug, PartialEq, Eq)]
pub struct WorkspaceMember {
    /// The identifier under which build events name the package.
    pub id: String,
    /// The package's name.
    pub name: String,
}

/// Mathematical model of a [`WorkspaceMember`].
pub struct MemberView {
    pub id: Seq<char>,
    pub name: Seq<char>,
}

impl View for WorkspaceMember {
    type V = MemberView;

    open spec fn view(&self) -> MemberView {
        MemberView { id: self.id@, name: self.name@ }
    }
}

/// The models of a list of members, in order.
pub open spec fn member_views(members: Seq<WorkspaceMember>) -> Seq<MemberView> {
    Seq::new(members.len(), |i: int| members[i]@)
}

/// Whether a member is the package that was asked for: the package may
/// be asked for by its name or by its identifier.
pub open spec fn is_package(member: MemberView, package: Seq<char>) -> bool {
    member.name == package || member.id == package
}

/// Picks the identifier of a member that is the package asked for.
pub open spec fn asked_for(package: Seq<char>) -> spec_fn(MemberView) -> Option<Seq<char>> {
    |member: MemberView|
        if is_package(member, package) {
            Some(member.id)
        } else {
            None
        }
}

/// The identifiers of all members, in order.
pub open spec fn member_ids(members: Seq<MemberView>) -> Seq<Seq<char>> {
    Seq::new(members.len(), |i: int| members[i].id)
}

/// The identifiers of the members whose products may be candidates: the
/// members that are the package asked for, by name or by identifier. All
/// members are eligible where no package is asked for, and also where
/// the package is asked for in a form that names none of them, such as a
/// name with a version or a location: the build tool reads such forms,
/// and what it builds is then not narrowed a second time.
pub open spec fn eligible(members: Seq<MemberView>, package: Option<Seq<char>>) -> Seq<Seq<char>> {
    match package {
        Some(name) => if members.filter_map(asked_for(name)).len() > 0 {
            members.filter_map(asked_for(name))
        } else {
            member_ids(members)
        },
        None => member_ids(members),
    }
}

/// The identifiers of all members, in order.
pub fn all_members(members: &Vec<WorkspaceMember>) -> (ids: Vec<String>)
    ensures
        texts(ids@) == member_ids(member_views(members@)),
{
    let mut ids: Vec<String> = Vec::new();
    let mut i: usize = 0;
    while i < members.len()
        invariant
            i <= members.len(),
            ids.len() == i,
            forall|k: int| 0 <= k < i ==> ids@[k]@ == members@[k].id@,
        decreases members.len() - i,
    {
        ids.push(members[i].id.clone());
        i += 1;
    }
    assert(texts(ids@) =~= member_ids(member_views(members@)));
    ids
}

/// The identifiers of the members that are the package asked for, in
/// order.
pub fn members_asked_for(members: &Vec<WorkspaceMember>, package: &str) -> (ids: Vec<String>)
    ensures
        texts(ids@) == member_views(members@).filter_map(asked_for(package@)),
{
    let ghost pick = asked_for(package@);
    let ghost all = member_views(members@);
    let mut ids: Vec<String> = Vec::new();
    let mut i: usize = 0;
    assert(all.take(0).filter_map(pick) =~= Seq::<Seq<char>>::empty());
    assert(texts(ids@) =~= Seq::<Seq<char>>::empty());
    while i < members.len()
        invariant
            i <= members.len(),
            all == member_views(members@),
            pick == asked_for(package@),
            texts(ids@) == all.take(i as int).filter_map(pick),
        decreases members.len() - i,
    {
        proof {
            all.lemma_filter_map_take_succ(pick, i as int);
        }
        if str_eq(members[i].name.as_str(), package) || str_eq(members[i].id.as_str(), package) {
            let id = members[i].id.clone();
            proof {
                crate::text::lemma_texts_push(ids@, id);
                assert(texts(ids@).push(id@) =~= texts(ids@) + seq![id@]);
            }
            ids.push(id);
        } else {
            assert(texts(ids@) + Seq::<Seq<char>>::empty() =~= texts(ids@));
        }
        i += 1;
    }
    assert(all.take(members.len() as int) =~= all);
    ids
}

/// The identifiers of the members whose products may be candidates.
pub fn eligible_members(members: &Vec<WorkspaceMember>, package: Option<&str>) -> (ids: Vec<String>)
    ensures
        texts(ids@) == eligible(
            member_views(members@),
            match package {
                Some(name) => Some(name@),
                None => None,
            },
        ),
{
    match package {
        Some(name) => {
            let narrowed = members_asked_for(members, name);
            if narrowed.len() > 0 {
                narrowed
            } else {
                all_members(members)
            }
        },
        None => all_members(members),
    }
}

/// A package that is asked for as a listing names it, by the identifier
/// of a member, makes that member eligible.
pub proof fn lemma_member_is_eligible_by_identifier(members: Seq<MemberView>, i: int)
    requires
        0 <= i < members.len(),
    ensures
        eligible(members, Some(members[i].id)).contains(members[i].id),
        eligible(members, Some(members[i].name)).contains(members[i].id),
{
    lemma_asked_member_is_picked(members, members[i].id, i);
    lemma_asked_member_is_picked(members, members[i].name, i);
}

/// A member that is the package asked for is among those picked.
pub proof fn lemma_asked_member_is_picked(members: Seq<MemberView>, package: Seq<char>, i: int)
    requires
        0 <= i < members.len(),
        is_package(members[i], package),
    ensures
        members.filter_map(asked_for(package)).contains(members[i].id),
    decreases members.len(),
{
    let pick = asked_for(package);
    let earlier = members.drop_last().filter_map(pick);
    if i < members.len() - 1 {
        lemma_asked_member_is_picked(members.drop_last(), package, i);
        assert(members.drop_last()[i] == members[i]);
        let k = choose|k: int| 0 <= k < earlier.len() && earlier[k] == members[i].id;
        match pick(members.last()) {
            Some(other) => {
                assert((earlier + seq![other])[k] == members[i].id);
            },
            None => {},
        }
    } else {
        assert((earlier + seq![members[i].id])[earlier.len() as int] == members[i].id);
    }
}

} // verus!
