//! Build products, the selector that names the wanted one, and the
//! classification of the events that a build emits.

use vstd::prelude::*;
use vstd::string::*;
use crate::text::{opt_text, str_eq, texts, lemma_texts_push};

verus! {

/// The kind of a build product.
#[derive(Debug, PartialEq, Eq)]
pub enum ProductKind {
    Binary,
    Example,
    Test,
    Bench,
    Library,
    CustomBuildScript,
    /// Any other kind, by the tag under which the build reported it.
    Other(String),
}

/// Mathematical model of a [`ProductKind`].
pub enum KindView {
    Binary,
    Example,
    Test,
    Bench,
    Library,
    CustomBuildScript,
    Other(Seq<char>),
}

impl View for ProductKind {
    type V = KindView;

    open spec fn view(&self) -> KindView {
        match self {
            ProductKind::Binary => KindView::Binary,
            ProductKind::Example => KindView::Example,
            ProductKind::Test => KindView::Test,
            ProductKind::Bench => KindView::Bench,
            ProductKind::Library => KindView::Library,
            ProductKind::CustomBuildScript => KindView::CustomBuildScript,
            ProductKind::Other(tag) => KindView::Other(tag@),
        }
    }
}

/// The kind that a build reports under `tag`.
pub open spec fn kind_of_tag(tag: Seq<char>) -> KindView {
    if tag == "bin"@ {
        KindView::Binary
    } else if tag == "example"@ {
        KindView::Example
    } else if tag == "test"@ {
        KindView::Test
    } else if tag == "bench"@ {
        KindView::Bench
    } else if tag == "lib"@ {
        KindView::Library
    } else if tag == "custom-build"@ {
        KindView::CustomBuildScript
    } else {
        KindView::Other(tag)
    }
}

/// The kind of a product for which the build reports `tags`: that of the
/// first tag; a kind without a name where there is no tag.
pub open spec fn kind_of_tags(tags: Seq<Seq<char>>) -> KindView {
    if tags.len() > 0 {
        kind_of_tag(tags[0])
    } else {
        KindView::Other(Seq::empty())
    }
}

impl ProductKind {
    /// Reads the kind from the tags that the build reports for a product.
    pub fn from_tags(tags: &Vec<String>) -> (kind: ProductKind)
        ensures
            kind@ == kind_of_tags(texts(tags@)),
    {
        if tags.len() > 0 {
            ProductKind::from_tag(tags[0].as_str())
        } else {
            ProductKind::Other(String::new())
        }
    }

    /// Reads the kind from the tag that the build reports for a product.
    pub fn from_tag(tag: &str) -> (kind: ProductKind)
        ensures
            kind@ == kind_of_tag(tag@),
    {
        if str_eq(tag, "bin") {
            ProductKind::Binary
        } else if str_eq(tag, "example") {
            ProductKind::Example
        } else if str_eq(tag, "test") {
            ProductKind::Test
        } else if str_eq(tag, "bench") {
            ProductKind::Bench
        } else if str_eq(tag, "lib") {
            ProductKind::Library
        } else if str_eq(tag, "custom-build") {
            ProductKind::CustomBuildScript
        } else {
            ProductKind::Other(tag.to_owned())
        }
    }
}

impl Clone for ProductKind {
    fn clone(&self) -> (copy: ProductKind)
        ensures
            copy@ == self@,
    {
        match self {
            ProductKind::Binary => ProductKind::Binary,
            ProductKind::Example => ProductKind::Example,
            ProductKind::Test => ProductKind::Test,
            ProductKind::Bench => ProductKind::Bench,
            ProductKind::Library => ProductKind::Library,
            ProductKind::CustomBuildScript => ProductKind::CustomBuildScript,
            ProductKind::Other(tag) => ProductKind::Other(tag.clone()),
        }
    }
}

/// One compiled output of a build.
#[derive(Debug, PartialEq, Eq)]
pub struct BuildProduct {
    /// Identifier of the workspace member that owns the product.
    pub package: String,
    pub kind: ProductKind,
    /// The name under which the package declares the product.
    pub name: String,
    /// Path of the executable file, for products that have one.
    pub executable: Option<String>,
    /// Paths of the files that were produced, in the order reported.
    pub files: Vec<String>,
}

/// Mathematical model of a [`BuildProduct`].
pub struct ProductView {
    pub package: Seq<char>,
    pub kind: KindView,
    pub name: Seq<char>,
    pub executable: Option<Seq<char>>,
    pub files: Seq<Seq<char>>,
}

impl View for BuildProduct {
    type V = ProductView;

    open spec fn view(&self) -> ProductView {
        ProductView {
            package: self.package@,
            kind: self.kind@,
            name: self.name@,
            executable: opt_text(self.executable),
            files: texts(self.files@),
        }
    }
}

impl ProductView {
    /// The file that stands for the product: its executable, or, where it
    /// has none, the first of its files.
    pub open spec fn canonical_file(self) -> Option<Seq<char>> {
        match self.executable {
            Some(path) => Some(path),
            None => if self.files.len() > 0 {
                Some(self.files[0])
            } else {
                None
            },
        }
    }
}

/// A copy of a list of strings.
pub fn clone_strings(list: &Vec<String>) -> (copy: Vec<String>)
    ensures
        texts(copy@) == texts(list@),
{
    let mut copy: Vec<String> = Vec::new();
    let mut i: usize = 0;
    while i < list.len()
        invariant
            i <= list.len(),
            texts(copy@) == texts(list@.take(i as int)),
        decreases list.len() - i,
    {
        proof {
            lemma_texts_push(copy@, list@[i as int]);
            lemma_texts_push(list@.take(i as int), list@[i as int]);
            assert(list@.take(i as int).push(list@[i as int]) =~= list@.take(i + 1));
        }
        copy.push(list[i].clone());
        i += 1;
    }
    assert(list@.take(list.len() as int) =~= list@);
    copy
}

impl BuildProduct {
    /// The file that stands for the product, if it has any.
    pub fn canonical_file(&self) -> (file: Option<&str>)
        ensures
            file.is_some() == self@.canonical_file().is_some(),
            file matches Some(path) ==> self@.canonical_file() == Some(path@),
    {
        match &self.executable {
            Some(path) => Some(path.as_str()),
            None => if self.files.len() > 0 {
                Some(self.files[0].as_str())
            } else {
                None
            },
        }
    }
}

impl Clone for BuildProduct {
    fn clone(&self) -> (copy: BuildProduct)
        ensures
            copy@ == self@,
    {
        BuildProduct {
            package: self.package.clone(),
            kind: self.kind.clone(),
            name: self.name.clone(),
            executable: match &self.executable {
                Some(path) => Some(path.clone()),
                None => None,
            },
            files: clone_strings(&self.files),
        }
    }
}

} // verus!
