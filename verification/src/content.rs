//! Reference content: for each sign and category a text, for each sign an image.
//!
//! The library is filled once at start-up and only read afterwards.

use crate::sign::{Sign, SIGN_COUNT};
use vstd::prelude::*;

verus! {

/// What a user can ask content about.
#[derive(Clone, Copy, Debug, PartialEq, Eq, Structural, Hash)]
pub enum Category {
    Car,
    Track,
    Monthly,
}

/// How many categories there are.
pub const CATEGORY_COUNT: usize = 3;

impl Category {
    /// The position of the category, from 0.
    pub open spec fn index_view(self) -> nat {
        match self {
            Category::Car => 0,
            Category::Track => 1,
            Category::Monthly => 2,
        }
    }

    /// The category at position `i`; positions past the end give the last category.
    pub open spec fn at_view(i: nat) -> Category {
        if i == 0 {
            Category::Car
        } else if i == 1 {
            Category::Track
        } else {
            Category::Monthly
        }
    }

    /// The directory that holds the texts of the category.
    pub open spec fn dir_view(self) -> Seq<char> {
        match self {
            Category::Car => "cars"@,
            Category::Track => "tracks"@,
            Category::Monthly => "monthly"@,
        }
    }

    /// The word by which users ask for the category.
    pub open spec fn word_view(self) -> Seq<char> {
        match self {
            Category::Car => "car"@,
            Category::Track => "track"@,
            Category::Monthly => "monthly"@,
        }
    }

    /// The position of the category, from 0.
    pub fn index(self) -> (i: usize)
        ensures
            i == self.index_view(),
            i < CATEGORY_COUNT,
    {
        match self {
            Category::Car => 0,
            Category::Track => 1,
            Category::Monthly => 2,
        }
    }

    /// The directory that holds the texts of the category.
    pub fn dir(self) -> (r: &'static str)
        ensures
            r@ == self.dir_view(),
    {
        match self {
            Category::Car => "cars",
            Category::Track => "tracks",
            Category::Monthly => "monthly",
        }
    }

    /// The word by which users ask for the category.
    pub fn word(self) -> (r: &'static str)
        ensures
            r@ == self.word_view(),
    {
        match self {
            Category::Car => "car",
            Category::Track => "track",
            Category::Monthly => "monthly",
        }
    }
}

/// A text with the reference of the image that goes with it.
#[derive(Clone, Debug, PartialEq, Eq)]
pub struct ContentBundle {
    pub text: String,
    pub image: String,
}

/// The mathematical form of a [`ContentBundle`].
pub struct BundleView {
    pub text: Seq<char>,
    pub image: Seq<char>,
}

impl View for ContentBundle {
    type V = BundleView;

    open spec fn view(&self) -> BundleView {
        BundleView { text: self.text@, image: self.image@ }
    }
}

/// The library holds no text for this sign and category.
#[derive(Clone, Copy, Debug, PartialEq, Eq, Structural)]
pub struct ContentNotFound {
    pub sign: Sign,
    pub category: Category,
}

/// The path of the file that holds the text of `sign` in `category`.
pub open spec fn text_path_view(sign: Sign, category: Category) -> Seq<char> {
    "content/"@ + category.dir_view() + "/"@ + sign.name_view() + ".txt"@
}

/// The path of the file that holds the text of `sign` in `category`.
pub fn text_path(sign: Sign, category: Category) -> (path: String)
    ensures
        path@ == text_path_view(sign, category),
{
    let mut path = String::from_str("content/");
    path.append(category.dir());
    path.append("/");
    path.append(sign.name());
    path.append(".txt");
    path
}

/// What a library holds.
pub struct LibraryView {
    /// The texts, by sign and category.
    pub texts: Map<(Sign, Category), Seq<char>>,
    /// The image references, by sign.
    pub images: Map<Sign, Seq<char>>,
    /// The image reference that stands in where a sign has none.
    pub fallback: Seq<char>,
    /// The bundle shown for help, whatever the sign.
    pub help: BundleView,
}

impl LibraryView {
    /// The image reference for `sign`: its own, or the fallback where it has none.
    pub open spec fn image_for(self, sign: Sign) -> Seq<char> {
        if self.images.contains_key(sign) {
            self.images[sign]
        } else {
            self.fallback
        }
    }

    /// What resolving `sign` in `category` gives.
    pub open spec fn resolved(self, sign: Sign, category: Category) -> Result<
        BundleView,
        ContentNotFound,
    > {
        if self.texts.contains_key((sign, category)) {
            Ok(BundleView { text: self.texts[(sign, category)], image: self.image_for(sign) })
        } else {
            Err(ContentNotFound { sign, category })
        }
    }

    /// Whether the library has a text for every sign and category and an image for every
    /// sign.
    pub open spec fn complete(self) -> bool {
        &&& forall|sign: Sign, category: Category| #[trigger]
            self.texts.contains_key((sign, category))
        &&& forall|sign: Sign| #[trigger] self.images.contains_key(sign)
    }
}

/// Where the text of `sign` in `category` is kept.
pub open spec fn slot(sign: Sign, category: Category) -> int {
    (sign.index_view() * 3 + category.index_view()) as int
}

/// The reference content of the bot.
pub struct ContentLibrary {
    texts: Vec<Option<String>>,
    images: Vec<Option<String>>,
    fallback_image: String,
    help: ContentBundle,
}

impl View for ContentLibrary {
    type V = LibraryView;

    closed spec fn view(&self) -> LibraryView {
        LibraryView {
            texts: Map::new(
                |key: (Sign, Category)| self.texts@[slot(key.0, key.1)] is Some,
                |key: (Sign, Category)| self.texts@[slot(key.0, key.1)]->0@,
            ),
            images: Map::new(
                |sign: Sign| self.images@[sign.index_view() as int] is Some,
                |sign: Sign| self.images@[sign.index_view() as int]->0@,
            ),
            fallback: self.fallback_image@,
            help: self.help@,
        }
    }
}

impl ContentLibrary {
    #[verifier::type_invariant]
    spec fn sized(&self) -> bool {
        &&& self.texts@.len() == SIGN_COUNT * CATEGORY_COUNT
        &&& self.images@.len() == SIGN_COUNT
    }

    /// A library without texts and images, with the fallback image and the help bundle
    /// given.
    pub fn new(fallback_image: String, help: ContentBundle) -> (library: ContentLibrary)
        ensures
            library@ == (LibraryView {
                texts: Map::empty(),
                images: Map::empty(),
                fallback: fallback_image@,
                help: help@,
            }),
    {
        let mut texts: Vec<Option<String>> = Vec::new();
        let mut i: usize = 0;
        while i < SIGN_COUNT * CATEGORY_COUNT
            invariant
                i <= SIGN_COUNT * CATEGORY_COUNT,
                texts@.len() == i,
                forall|j: int| 0 <= j < i ==> texts@[j] is None,
            decreases SIGN_COUNT * CATEGORY_COUNT - i,
        {
            texts.push(None);
            i += 1;
        }
        let mut images: Vec<Option<String>> = Vec::new();
        let mut k: usize = 0;
        while k < SIGN_COUNT
            invariant
                k <= SIGN_COUNT,
                images@.len() == k,
                forall|j: int| 0 <= j < k ==> images@[j] is None,
            decreases SIGN_COUNT - k,
        {
            images.push(None);
            k += 1;
        }
        let library = ContentLibrary { texts, images, fallback_image, help };
        assert(library@.texts =~= Map::<(Sign, Category), Seq<char>>::empty());
        assert(library@.images =~= Map::<Sign, Seq<char>>::empty());
        library
    }

    /// Puts `text` in for `sign` and `category`, in place of any text that was there.
    pub fn put_text(&mut self, sign: Sign, category: Category, text: String)
        ensures
            final(self)@ == (LibraryView {
                texts: old(self)@.texts.insert((sign, category), text@),
                ..old(self)@
            }),
    {
        proof {
            use_type_invariant(&*self);
        }
        let i = sign.index() * CATEGORY_COUNT + category.index();
        let ghost text_view = text@;
        self.texts[i] = Some(text);
        proof {
            assert(self@.texts =~= old(self)@.texts.insert((sign, category), text_view))
                by {
                assert forall|key: (Sign, Category)| key != (sign, category) implies slot(
                    key.0,
                    key.1,
                ) != slot(sign, category) by {}
            }
            assert(self@.images =~= old(self)@.images);
        }
    }

    /// Puts the image reference `image` in for `sign`, in place of any that was there.
    pub fn put_image(&mut self, sign: Sign, image: String)
        ensures
            final(self)@ == (LibraryView {
                images: old(self)@.images.insert(sign, image@),
                ..old(self)@
            }),
    {
        proof {
            use_type_invariant(&*self);
        }
        let i = sign.index();
        let ghost image_view = image@;
        self.images[i] = Some(image);
        proof {
            assert(self@.images =~= old(self)@.images.insert(sign, image_view));
            assert(self@.texts =~= old(self)@.texts);
        }
    }

    /// The image reference for `sign`: its own, or the fallback where the library has none.
    pub fn image_for(&self, sign: Sign) -> (image: String)
        ensures
            image@ == self@.image_for(sign),
    {
        proof {
            use_type_invariant(self);
        }
        match &self.images[sign.index()] {
            Some(image) => image.clone(),
            None => self.fallback_image.clone(),
        }
    }

    /// The bundle shown for help.
    pub fn help(&self) -> (bundle: ContentBundle)
        ensures
            bundle@ == self@.help,
    {
        ContentBundle { text: self.help.text.clone(), image: self.help.image.clone() }
    }

    /// Looks up the text of `sign` in `category` and the image of `sign`.
    ///
    /// Succeeds exactly when the library holds a text for the pair. The image is the one of
    /// the sign, or the fallback where the sign has none.
    pub fn resolve(&self, sign: Sign, category: Category) -> (r: Result<
        ContentBundle,
        ContentNotFound,
    >)
        ensures
            match r {
                Ok(bundle) => self@.resolved(sign, category) == Ok::<BundleView, ContentNotFound>(
                    bundle@,
                ),
                Err(e) => self@.resolved(sign, category) == Err::<BundleView, ContentNotFound>(e),
            },
    {
        proof {
            use_type_invariant(self);
        }
        let i = sign.index() * CATEGORY_COUNT + category.index();
        match &self.texts[i] {
            Some(text) => Ok(ContentBundle { text: text.clone(), image: self.image_for(sign) }),
            None => Err(ContentNotFound { sign, category }),
        }
    }

    /// Whether the library has a text for every sign and category and an image for every
    /// sign.
    pub fn is_complete(&self) -> (b: bool)
        ensures
            b == self@.complete(),
    {
        proof {
            use_type_invariant(self);
        }
        let mut i: usize = 0;
        while i < self.texts.len()
            invariant
                i <= self.texts@.len(),
                self.texts@.len() == SIGN_COUNT * CATEGORY_COUNT,
                forall|j: int| 0 <= j < i ==> self.texts@[j] is Some,
            decreases self.texts@.len() - i,
        {
            if self.texts[i].is_none() {
                proof {
                    let sign = Sign::at_view((i / 3) as nat);
                    let category = Category::at_view((i % 3) as nat);
                    assert(slot(sign, category) == i);
                    assert(!self@.texts.contains_key((sign, category)));
                }
                return false;
            }
            i += 1;
        }
        let mut k: usize = 0;
        while k < self.images.len()
            invariant
                k <= self.images@.len(),
                self.images@.len() == SIGN_COUNT,
                forall|j: int| 0 <= j < k ==> self.images@[j] is Some,
            decreases self.images@.len() - k,
        {
            if self.images[k].is_none() {
                proof {
                    let sign = Sign::at_view(k as nat);
                    assert(sign.index_view() == k);
                    assert(!self@.images.contains_key(sign));
                }
                return false;
            }
            k += 1;
        }
        proof {
            assert forall|sign: Sign, category: Category| #[trigger]
                self@.texts.contains_key((sign, category)) by {
                assert(0 <= slot(sign, category) < 36);
            }
            assert forall|sign: Sign| #[trigger] self@.images.contains_key(sign) by {
                assert(sign.index_view() < 12);
            }
        }
        true
    }
}

/// In a complete library every lookup succeeds, and the image is the one of the sign: the
/// fallback is never reached.
pub proof fn lemma_complete_never_falls_back(library: LibraryView, sign: Sign, category: Category)
    requires
        library.complete(),
    ensures
        library.resolved(sign, category) == Ok::<BundleView, ContentNotFound>(
            BundleView { text: library.texts[(sign, category)], image: library.images[sign] },
        ),
        library.image_for(sign) == library.images[sign],
{
    assert(library.texts.contains_key((sign, category)));
    assert(library.images.contains_key(sign));
}

} // verus!
