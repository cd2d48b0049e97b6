//! What the user is told when a build yields no product to work on.

use vstd::prelude::*;
use vstd::string::*;
use crate::args::{build_args, cargo_build_args, pair, selector_args, BuildOptions, OptionsView};
use crate::classify::{BuildProductSelector, SelectorView};
use crate::orchestrator::{product_views, BuildError, BuildErrorView};
use crate::product::{BuildProduct, KindView, ProductKind, ProductView};
use crate::text::{lemma_texts_add, lemma_texts_push, str_eq, texts};
use crate::tool::Tool;

verus! {

/// The selector that asks for `product` and nothing of another kind or
/// name.
pub open spec fn selector_for(product: ProductView) -> SelectorView {
    match product.kind {
        KindView::Binary => SelectorView::Binary(product.name),
        KindView::Example => SelectorView::Example(product.name),
        KindView::Test => SelectorView::Test(product.name),
        KindView::Bench => SelectorView::Bench(product.name),
        KindView::Library => SelectorView::Library,
        KindView::Other(_) => SelectorView::Library,
        KindView::CustomBuildScript => SelectorView::CustomBuildScript,
    }
}

/// The selector that is suggested for a product accepts the product.
pub proof fn lemma_selector_for_matches(product: ProductView)
    ensures
        selector_for(product).matches(product),
{
}

/// The words, each followed by `separator` but the last.
pub open spec fn join(words: Seq<Seq<char>>, separator: Seq<char>) -> Seq<char>
    decreases words.len(),
{
    if words.len() == 0 {
        Seq::empty()
    } else if words.len() == 1 {
        words[0]
    } else {
        join(words.drop_last(), separator) + separator + words.last()
    }
}

/// The words of the command that runs `tool` on `product`, narrowed to
/// the product's package where `package` names it.
pub open spec fn command_words(tool: Tool, package: Option<Seq<char>>, product: ProductView) -> Seq<
    Seq<char>,
> {
    seq!["cargo"@, tool.spec_name()] + pair("--package"@, package) + selector_args(
        selector_for(product),
    )
}

/// The command line that runs `tool` on `product`.
pub open spec fn command_line(tool: Tool, package: Option<Seq<char>>, product: ProductView) -> Seq<
    char,
> {
    join(command_words(tool, package, product), " "@)
}

/// The members that own the candidates, each once, in the order in which
/// their first candidate stands.
pub open spec fn owners(candidates: Seq<ProductView>) -> Seq<Seq<char>>
    decreases candidates.len(),
{
    if candidates.len() == 0 {
        Seq::empty()
    } else {
        let earlier = owners(candidates.drop_last());
        if earlier.contains(candidates.last().package) {
            earlier
        } else {
            earlier.push(candidates.last().package)
        }
    }
}

/// The line of a candidate in a listing that is not grouped.
pub open spec fn plain_line(tool: Tool) -> spec_fn(ProductView) -> Seq<char> {
    |product: ProductView| command_line(tool, None, product)
}

/// The line of a candidate in the group of `owner`, for a candidate that
/// `owner` owns.
pub open spec fn owned_line(tool: Tool, owner: Seq<char>) -> spec_fn(ProductView) -> Option<
    Seq<char>,
> {
    |product: ProductView|
        if product.package == owner {
            Some("    "@ + command_line(tool, Some(owner), product))
        } else {
            None
        }
}

/// The group of a member: a line that names it, then the command lines
/// of its candidates, indented, in their order.
pub open spec fn member_group(tool: Tool, candidates: Seq<ProductView>) -> spec_fn(Seq<char>) -> Seq<
    Seq<char>,
> {
    |owner: Seq<char>| seq![owner + ":"@] + candidates.filter_map(owned_line(tool, owner))
}

/// The candidates of an ambiguous build, each as the command line that
/// selects it: in their order where one member owns them all, else
/// grouped by member, with the package named in each command.
pub open spec fn listing(tool: Tool, candidates: Seq<ProductView>) -> Seq<Seq<char>> {
    if owners(candidates).len() <= 1 {
        candidates.map_values(plain_line(tool))
    } else {
        owners(candidates).map_values(member_group(tool, candidates)).flatten()
    }
}

/// The line of a candidate in the listing: its command line, in a grouped
/// listing indented and with its package named.
pub open spec fn listed_line(tool: Tool, candidates: Seq<ProductView>, product: ProductView) -> Seq<
    char,
> {
    if owners(candidates).len() <= 1 {
        command_line(tool, None, product)
    } else {
        "    "@ + command_line(tool, Some(product.package), product)
    }
}

/// The owner of every candidate is among the owners.
pub proof fn lemma_owner_is_listed(candidates: Seq<ProductView>, i: int)
    requires
        0 <= i < candidates.len(),
    ensures
        owners(candidates).contains(candidates[i].package),
    decreases candidates.len(),
{
    let earlier = owners(candidates.drop_last());
    let last = candidates.last().package;
    if i < candidates.len() - 1 {
        lemma_owner_is_listed(candidates.drop_last(), i);
        assert(candidates.drop_last()[i] == candidates[i]);
        let k = choose|k: int| 0 <= k < earlier.len() && earlier[k] == candidates[i].package;
        if !earlier.contains(last) {
            assert(earlier.push(last)[k] == candidates[i].package);
        }
    } else {
        if !earlier.contains(last) {
            assert(earlier.push(last)[earlier.len() as int] == last);
        }
    }
}

/// What is picked from an element of a list is among what is picked from
/// the list.
pub proof fn lemma_filter_map_keeps<A, B>(list: Seq<A>, pick: spec_fn(A) -> Option<B>, i: int)
    requires
        0 <= i < list.len(),
        pick(list[i]) is Some,
    ensures
        list.filter_map(pick).contains(pick(list[i])->0),
    decreases list.len(),
{
    let earlier = list.drop_last().filter_map(pick);
    if i < list.len() - 1 {
        lemma_filter_map_keeps(list.drop_last(), pick, i);
        assert(list.drop_last()[i] == list[i]);
        let k = choose|k: int| 0 <= k < earlier.len() && earlier[k] == pick(list[i])->0;
        match pick(list.last()) {
            Some(other) => {
                assert((earlier + seq![other])[k] == pick(list[i])->0);
            },
            None => {},
        }
    } else {
        assert((earlier + seq![pick(list[i])->0])[earlier.len() as int] == pick(list[i])->0);
    }
}

/// What stands in one of the lists stands in the lists put end to end.
pub proof fn lemma_flatten_keeps<A>(lists: Seq<Seq<A>>, k: int, item: A)
    requires
        0 <= k < lists.len(),
        lists[k].contains(item),
    ensures
        lists.flatten().contains(item),
    decreases lists.len(),
{
    let first = lists.first();
    let rest = lists.drop_first().flatten();
    if k == 0 {
        let j = choose|j: int| 0 <= j < first.len() && first[j] == item;
        assert((first + rest)[j] == item);
    } else {
        assert(lists.drop_first()[k - 1] == lists[k]);
        lemma_flatten_keeps(lists.drop_first(), k - 1, item);
        let j = choose|j: int| 0 <= j < rest.len() && rest[j] == item;
        assert((first + rest)[first.len() + j] == item);
    }
}

/// Every candidate is listed: the listing holds its command line, in a
/// grouped listing indented and with its package named.
pub proof fn lemma_every_candidate_is_listed(tool: Tool, candidates: Seq<ProductView>, i: int)
    requires
        0 <= i < candidates.len(),
    ensures
        listing(tool, candidates).contains(listed_line(tool, candidates, candidates[i])),
{
    let product = candidates[i];
    if owners(candidates).len() <= 1 {
        let lines = candidates.map_values(plain_line(tool));
        assert(lines[i] == command_line(tool, None, product));
    } else {
        let owner = product.package;
        let names = owners(candidates);
        lemma_owner_is_listed(candidates, i);
        let k = choose|k: int| 0 <= k < names.len() && names[k] == owner;
        let groups = names.map_values(member_group(tool, candidates));
        let pick = owned_line(tool, owner);
        let line = "    "@ + command_line(tool, Some(owner), product);
        lemma_filter_map_keeps(candidates, pick, i);
        let found = candidates.filter_map(pick);
        let j = choose|j: int| 0 <= j < found.len() && found[j] == line;
        assert(groups[k] == seq![owner + ":"@] + found);
        assert((seq![owner + ":"@] + found)[j + 1] == line);
        lemma_flatten_keeps(groups, k, line);
    }
}

/// How a selector is named to the user.
pub open spec fn selector_name(selector: SelectorView) -> Seq<char> {
    match selector {
        SelectorView::Any => "a binary or an example"@,
        SelectorView::CustomBuildScript => "a build script"@,
        _ => join(selector_args(selector), " "@),
    }
}

/// The lines that explain `error` to a user who ran `tool` with
/// `options`.
///
/// A failed build is answered with the build command to run for the
/// compiler's own words, a build without a match with the selector that
/// was used, an ambiguous build with the listing of its candidates.
pub open spec fn explanation(error: BuildErrorView, tool: Tool, options: OptionsView) -> Seq<
    Seq<char>,
> {
    match error {
        BuildErrorView::BuildFailed => seq![
            "the build failed; for the details run `"@ + join(
                seq!["cargo"@, "build"@] + build_args(options) + seq!["--verbose"@],
                " "@,
            ) + "`"@,
        ],
        BuildErrorView::NoMatchingTargets => seq![
            "the build produced nothing that matches "@ + selector_name(options.selector),
        ],
        BuildErrorView::AmbiguousTargets(candidates) => seq![
            "several build products match; run one of:"@,
        ] + listing(tool, candidates),
    }
}

/// Joins `words` with `separator` between them.
pub fn join_words(words: &Vec<String>, separator: &str) -> (line: String)
    ensures
        line@ == join(texts(words@), separator@),
{
    let mut line = String::new();
    let mut i: usize = 0;
    let ghost all = texts(words@);
    assert(all.take(0) =~= Seq::<Seq<char>>::empty());
    while i < words.len()
        invariant
            i <= words.len(),
            all == texts(words@),
            line@ == join(all.take(i as int), separator@),
        decreases words.len() - i,
    {
        proof {
            assert(all.take(i + 1).drop_last() =~= all.take(i as int));
            assert(all.take(i + 1).last() == words@[i as int]@);
            if i == 0 {
                assert(line@ + words@[i as int]@ =~= words@[i as int]@);
            }
        }
        if i > 0 {
            line.append(separator);
        }
        line.append(words[i].as_str());
        i += 1;
    }
    assert(all.take(words.len() as int) =~= all);
    line
}

fn push_text(words: &mut Vec<String>, word: &str)
    ensures
        texts(final(words)@) == texts(old(words)@).push(word@),
{
    let owned = word.to_owned();
    proof {
        lemma_texts_push(words@, owned);
    }
    words.push(owned);
}

/// The command line that runs `tool` on `product`, narrowed to the
/// product's package where `package` names it.
pub fn command_line_for(tool: Tool, package: Option<&str>, product: &BuildProduct) -> (line: String)
    ensures
        line@ == command_line(tool, crate::context::opt_str(package), product@),
{
    let mut words: Vec<String> = Vec::new();
    assert(texts(words@) =~= Seq::<Seq<char>>::empty());
    push_text(&mut words, "cargo");
    push_text(&mut words, tool.name());
    match package {
        Some(name) => {
            push_text(&mut words, "--package");
            push_text(&mut words, name);
        },
        None => {},
    }
    assert(texts(words@) =~= seq!["cargo"@, tool.spec_name()] + pair(
        "--package"@,
        crate::context::opt_str(package),
    ));
    let ghost head = texts(words@);
    match &product.kind {
        ProductKind::Binary => {
            push_text(&mut words, "--bin");
            push_text(&mut words, product.name.as_str());
        },
        ProductKind::Example => {
            push_text(&mut words, "--example");
            push_text(&mut words, product.name.as_str());
        },
        ProductKind::Test => {
            push_text(&mut words, "--test");
            push_text(&mut words, product.name.as_str());
        },
        ProductKind::Bench => {
            push_text(&mut words, "--bench");
            push_text(&mut words, product.name.as_str());
        },
        ProductKind::Library => {
            push_text(&mut words, "--lib");
        },
        ProductKind::Other(_) => {
            push_text(&mut words, "--lib");
        },
        ProductKind::CustomBuildScript => {},
    }
    assert(texts(words@) =~= head + selector_args(selector_for(product@)));
    join_words(&words, " ")
}

/// The members that own the candidates, each once, in the order in which
/// their first candidate stands.
pub fn owners_of(candidates: &Vec<BuildProduct>) -> (members: Vec<String>)
    ensures
        texts(members@) == owners(product_views(candidates@)),
{
    let mut members: Vec<String> = Vec::new();
    let ghost all = product_views(candidates@);
    let mut i: usize = 0;
    assert(all.take(0) =~= Seq::<ProductView>::empty());
    assert(texts(members@) =~= Seq::<Seq<char>>::empty());
    while i < candidates.len()
        invariant
            i <= candidates.len(),
            all == product_views(candidates@),
            texts(members@) == owners(all.take(i as int)),
        decreases candidates.len() - i,
    {
        proof {
            assert(all.take(i + 1).drop_last() =~= all.take(i as int));
            assert(all.take(i + 1).last() == candidates@[i as int]@);
        }
        if !crate::classify::is_member(&members, candidates[i].package.as_str()) {
            push_text(&mut members, candidates[i].package.as_str());
        }
        i += 1;
    }
    assert(all.take(candidates.len() as int) =~= all);
    members
}

/// The candidates of an ambiguous build, each as the command line that
/// selects it.
pub fn listing_of(tool: Tool, candidates: &Vec<BuildProduct>) -> (lines: Vec<String>)
    ensures
        texts(lines@) == listing(tool, product_views(candidates@)),
{
    let members = owners_of(candidates);
    let ghost all = product_views(candidates@);
    let mut lines: Vec<String> = Vec::new();
    assert(texts(lines@) =~= Seq::<Seq<char>>::empty());
    if members.len() <= 1 {
        let ghost line = plain_line(tool);
        let mut i: usize = 0;
        assert(all.take(0).map_values(line) =~= Seq::<Seq<char>>::empty());
        while i < candidates.len()
            invariant
                i <= candidates.len(),
                all == product_views(candidates@),
                line == plain_line(tool),
                texts(lines@) == all.take(i as int).map_values(line),
            decreases candidates.len() - i,
        {
            let text = command_line_for(tool, None, &candidates[i]);
            proof {
                lemma_texts_push(lines@, text);
                assert(all.take(i + 1) =~= all.take(i as int).push(all[i as int]));
                all.take(i as int).lemma_push_map_commute(line, all[i as int]);
            }
            lines.push(text);
            i += 1;
        }
        assert(all.take(candidates.len() as int) =~= all);
    } else {
        let ghost group = member_group(tool, all);
        let ghost names = texts(members@);
        let mut m: usize = 0;
        assert(names.take(0).map_values(group).flatten() =~= Seq::<Seq<char>>::empty());
        while m < members.len()
            invariant
                m <= members.len(),
                all == product_views(candidates@),
                names == texts(members@),
                group == member_group(tool, all),
                texts(lines@) == names.take(m as int).map_values(group).flatten(),
            decreases members.len() - m,
        {
            let owner = members[m].as_str();
            let ghost before = texts(lines@);
            let ghost pick = owned_line(tool, owner@);
            let header = members[m].clone().concat(":");
            proof {
                lemma_texts_push(lines@, header);
            }
            lines.push(header);
            let mut i: usize = 0;
            assert(all.take(0).filter_map(pick) =~= Seq::<Seq<char>>::empty());
            assert(texts(lines@) =~= before + (seq![owner@ + ":"@] + all.take(0).filter_map(pick)));
            while i < candidates.len()
                invariant
                    i <= candidates.len(),
                    all == product_views(candidates@),
                    pick == owned_line(tool, owner@),
                    texts(lines@) == before + (seq![owner@ + ":"@] + all.take(i as int).filter_map(
                        pick,
                    )),
                decreases candidates.len() - i,
            {
                proof {
                    all.lemma_filter_map_take_succ(pick, i as int);
                }
                if str_eq(candidates[i].package.as_str(), owner) {
                    let text = String::from_str("    ").concat(
                        command_line_for(tool, Some(owner), &candidates[i]).as_str(),
                    );
                    proof {
                        lemma_texts_push(lines@, text);
                        assert(before + (seq![owner@ + ":"@] + all.take(i as int).filter_map(pick))
                            + seq![text@] =~= before + (seq![owner@ + ":"@] + (all.take(
                            i as int,
                        ).filter_map(pick) + seq![text@])));
                    }
                    lines.push(text);
                } else {
                    assert(all.take(i as int).filter_map(pick) + Seq::<Seq<char>>::empty()
                        =~= all.take(i as int).filter_map(pick));
                }
                i += 1;
            }
            proof {
                assert(all.take(candidates.len() as int) =~= all);
                assert(names.take(m + 1) =~= names.take(m as int).push(names[m as int]));
                names.take(m as int).lemma_push_map_commute(group, names[m as int]);
                names.take(m as int).map_values(group).lemma_flatten_push(group(names[m as int]));
            }
            m += 1;
        }
        assert(names.take(members.len() as int) =~= names);
    }
    lines
}

/// How a selector is named to the user.
pub fn selector_name_of(selector: &BuildProductSelector) -> (name: String)
    ensures
        name@ == selector_name(selector@),
{
    let mut words: Vec<String> = Vec::new();
    assert(texts(words@) =~= Seq::<Seq<char>>::empty());
    match selector {
        BuildProductSelector::Any => {
            return String::from_str("a binary or an example");
        },
        BuildProductSelector::CustomBuildScript => {
            return String::from_str("a build script");
        },
        BuildProductSelector::Binary(name) => {
            push_text(&mut words, "--bin");
            push_text(&mut words, name.as_str());
        },
        BuildProductSelector::Example(name) => {
            push_text(&mut words, "--example");
            push_text(&mut words, name.as_str());
        },
        BuildProductSelector::Test(name) => {
            push_text(&mut words, "--test");
            push_text(&mut words, name.as_str());
        },
        BuildProductSelector::Bench(name) => {
            push_text(&mut words, "--bench");
            push_text(&mut words, name.as_str());
        },
        BuildProductSelector::Library => {
            push_text(&mut words, "--lib");
        },
    }
    assert(texts(words@) =~= selector_args(selector@));
    join_words(&words, " ")
}

impl BuildError {
    /// The lines that explain the error to a user who ran `tool` with
    /// `options`.
    pub fn explain(&self, tool: Tool, options: &BuildOptions) -> (lines: Vec<String>)
        ensures
            texts(lines@) == explanation(self@, tool, options@),
    {
        let mut lines: Vec<String> = Vec::new();
        assert(texts(lines@) =~= Seq::<Seq<char>>::empty());
        match self {
            BuildError::BuildFailed => {
                let mut words: Vec<String> = Vec::new();
                assert(texts(words@) =~= Seq::<Seq<char>>::empty());
                push_text(&mut words, "cargo");
                push_text(&mut words, "build");
                let mut given = cargo_build_args(options);
                let ghost head = words@;
                let ghost tail = given@;
                words.append(&mut given);
                proof {
                    lemma_texts_add(head, tail);
                }
                push_text(&mut words, "--verbose");
                assert(texts(words@) =~= seq!["cargo"@, "build"@] + build_args(options@) + seq![
                    "--verbose"@,
                ]);
                let line = String::from_str("the build failed; for the details run `").concat(
                    join_words(&words, " ").as_str(),
                ).concat("`");
                proof {
                    lemma_texts_push(lines@, line);
                }
                lines.push(line);
                assert(texts(lines@) =~= explanation(self@, tool, options@));
            },
            BuildError::NoMatchingTargets => {
                let line = String::from_str("the build produced nothing that matches ").concat(
                    selector_name_of(&options.selector).as_str(),
                );
                proof {
                    lemma_texts_push(lines@, line);
                }
                lines.push(line);
                assert(texts(lines@) =~= explanation(self@, tool, options@));
            },
            BuildError::AmbiguousTargets(candidates) => {
                let line = String::from_str("several build products match; run one of:");
                proof {
                    lemma_texts_push(lines@, line);
                }
                lines.push(line);
                let mut rest = listing_of(tool, candidates);
                let ghost head = lines@;
                let ghost tail = rest@;
                lines.append(&mut rest);
                proof {
                    lemma_texts_add(head, tail);
                }
                assert(texts(lines@) =~= explanation(self@, tool, options@));
            },
        }
        lines
    }
}

} // verus!
