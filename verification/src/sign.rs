//! The twelve signs, their canonical names, and the validation of free text.

use crate::text::{
    all_space, chars_of, fold_range, folded, is_space, lemma_trimmed_of_padded, lower, trim_bounds,
    trimmed,
};
use vstd::prelude::*;

verus! {

/// One of the twelve signs a user may choose.
#[derive(Clone, Copy, Debug, PartialEq, Eq, Structural, Hash)]
pub enum Sign {
    Aries,
    Taurus,
    Gemini,
    Cancer,
    Leo,
    Virgo,
    Libra,
    Scorpio,
    Sagittarius,
    Capricorn,
    Aquarius,
    Pisces,
}

/// Free text that names no sign. Carries the text as the user typed it.
#[derive(Clone, Debug, PartialEq, Eq)]
pub struct InvalidSign {
    pub raw: String,
}

/// How many signs there are.
pub const SIGN_COUNT: usize = 12;

impl Sign {
    /// The canonical name: lower case, as it is stored and as it names content files.
    pub open spec fn name_view(self) -> Seq<char> {
        match self {
            Sign::Aries => "aries"@,
            Sign::Taurus => "taurus"@,
            Sign::Gemini => "gemini"@,
            Sign::Cancer => "cancer"@,
            Sign::Leo => "leo"@,
            Sign::Virgo => "virgo"@,
            Sign::Libra => "libra"@,
            Sign::Scorpio => "scorpio"@,
            Sign::Sagittarius => "sagittarius"@,
            Sign::Capricorn => "capricorn"@,
            Sign::Aquarius => "aquarius"@,
            Sign::Pisces => "pisces"@,
        }
    }

    /// The name as it is shown to users: the canonical name with a capital initial.
    pub open spec fn title_view(self) -> Seq<char> {
        match self {
            Sign::Aries => "Aries"@,
            Sign::Taurus => "Taurus"@,
            Sign::Gemini => "Gemini"@,
            Sign::Cancer => "Cancer"@,
            Sign::Leo => "Leo"@,
            Sign::Virgo => "Virgo"@,
            Sign::Libra => "Libra"@,
            Sign::Scorpio => "Scorpio"@,
            Sign::Sagittarius => "Sagittarius"@,
            Sign::Capricorn => "Capricorn"@,
            Sign::Aquarius => "Aquarius"@,
            Sign::Pisces => "Pisces"@,
        }
    }

    /// The position of the sign in the zodiac, from 0.
    pub open spec fn index_view(self) -> nat {
        match self {
            Sign::Aries => 0,
            Sign::Taurus => 1,
            Sign::Gemini => 2,
            Sign::Cancer => 3,
            Sign::Leo => 4,
            Sign::Virgo => 5,
            Sign::Libra => 6,
            Sign::Scorpio => 7,
            Sign::Sagittarius => 8,
            Sign::Capricorn => 9,
            Sign::Aquarius => 10,
            Sign::Pisces => 11,
        }
    }

    /// The sign at position `i` of the zodiac; positions past the end give the last sign.
    pub open spec fn at_view(i: nat) -> Sign {
        if i == 0 {
            Sign::Aries
        } else if i == 1 {
            Sign::Taurus
        } else if i == 2 {
            Sign::Gemini
        } else if i == 3 {
            Sign::Cancer
        } else if i == 4 {
            Sign::Leo
        } else if i == 5 {
            Sign::Virgo
        } else if i == 6 {
            Sign::Libra
        } else if i == 7 {
            Sign::Scorpio
        } else if i == 8 {
            Sign::Sagittarius
        } else if i == 9 {
            Sign::Capricorn
        } else if i == 10 {
            Sign::Aquarius
        } else {
            Sign::Pisces
        }
    }

    /// The sign whose canonical name is exactly `key`, if there is one.
    pub open spec fn named(key: Seq<char>) -> Option<Sign> {
        if exists|s: Sign| #[trigger] s.name_view() == key {
            Some(choose|s: Sign| #[trigger] s.name_view() == key)
        } else {
            None
        }
    }

    /// The sign that free text `raw` names once surrounding whitespace is dropped and case
    /// is folded, if there is one.
    pub open spec fn normalized(raw: Seq<char>) -> Option<Sign> {
        Sign::named(folded(trimmed(raw)))
    }

    /// The canonical name.
    pub fn name(self) -> (r: &'static str)
        ensures
            r@ == self.name_view(),
    {
        match self {
            Sign::Aries => "aries",
            Sign::Taurus => "taurus",
            Sign::Gemini => "gemini",
            Sign::Cancer => "cancer",
            Sign::Leo => "leo",
            Sign::Virgo => "virgo",
            Sign::Libra => "libra",
            Sign::Scorpio => "scorpio",
            Sign::Sagittarius => "sagittarius",
            Sign::Capricorn => "capricorn",
            Sign::Aquarius => "aquarius",
            Sign::Pisces => "pisces",
        }
    }

    /// The name as it is shown to users.
    pub fn title(self) -> (r: &'static str)
        ensures
            r@ == self.title_view(),
    {
        match self {
            Sign::Aries => "Aries",
            Sign::Taurus => "Taurus",
            Sign::Gemini => "Gemini",
            Sign::Cancer => "Cancer",
            Sign::Leo => "Leo",
            Sign::Virgo => "Virgo",
            Sign::Libra => "Libra",
            Sign::Scorpio => "Scorpio",
            Sign::Sagittarius => "Sagittarius",
            Sign::Capricorn => "Capricorn",
            Sign::Aquarius => "Aquarius",
            Sign::Pisces => "Pisces",
        }
    }

    /// The position of the sign in the zodiac, from 0.
    pub fn index(self) -> (i: usize)
        ensures
            i == self.index_view(),
            i < SIGN_COUNT,
    {
        match self {
            Sign::Aries => 0,
            Sign::Taurus => 1,
            Sign::Gemini => 2,
            Sign::Cancer => 3,
            Sign::Leo => 4,
            Sign::Virgo => 5,
            Sign::Libra => 6,
            Sign::Scorpio => 7,
            Sign::Sagittarius => 8,
            Sign::Capricorn => 9,
            Sign::Aquarius => 10,
            Sign::Pisces => 11,
        }
    }

    /// The sign at position `i` of the zodiac.
    pub fn at(i: usize) -> (r: Option<Sign>)
        ensures
            i < SIGN_COUNT ==> r == Some(Sign::at_view(i as nat)),
            i >= SIGN_COUNT ==> r is None,
            r matches Some(s) ==> s.index_view() == i,
    {
        if i == 0 {
            Some(Sign::Aries)
        } else if i == 1 {
            Some(Sign::Taurus)
        } else if i == 2 {
            Some(Sign::Gemini)
        } else if i == 3 {
            Some(Sign::Cancer)
        } else if i == 4 {
            Some(Sign::Leo)
        } else if i == 5 {
            Some(Sign::Virgo)
        } else if i == 6 {
            Some(Sign::Libra)
        } else if i == 7 {
            Some(Sign::Scorpio)
        } else if i == 8 {
            Some(Sign::Sagittarius)
        } else if i == 9 {
            Some(Sign::Capricorn)
        } else if i == 10 {
            Some(Sign::Aquarius)
        } else if i == 11 {
            Some(Sign::Pisces)
        } else {
            None
        }
    }
}

/// Whether two character vectors hold the same text.
pub fn same_chars(a: &Vec<char>, b: &Vec<char>) -> (r: bool)
    ensures
        r == (a@ == b@),
{
    if a.len() != b.len() {
        return false;
    }
    let mut i: usize = 0;
    while i < a.len()
        invariant
            a@.len() == b@.len(),
            i <= a@.len(),
            forall|j: int| 0 <= j < i ==> a@[j] == b@[j],
        decreases a@.len() - i,
    {
        if a[i] != b[i] {
            return false;
        }
        i += 1;
    }
    assert(a@ =~= b@);
    true
}

/// The sign whose canonical name is exactly the text in `key`.
pub fn find_sign(key: &Vec<char>) -> (r: Option<Sign>)
    ensures
        r == Sign::named(key@),
{
    let mut i: usize = 0;
    while i < SIGN_COUNT
        invariant
            i <= SIGN_COUNT,
            forall|j: nat| j < i ==> (#[trigger] Sign::at_view(j)).name_view() != key@,
        decreases SIGN_COUNT - i,
    {
        match Sign::at(i) {
            Some(sign) => {
                let name = chars_of(sign.name());
                if same_chars(key, &name) {
                    proof {
                        lemma_named_iff(key@, sign);
                    }
                    return Some(sign);
                }
            },
            None => {},
        }
        i += 1;
    }
    proof {
        assert forall|s: Sign| #[trigger] s.name_view() != key@ by {
            assert(Sign::at_view(s.index_view()) == s);
        }
    }
    None
}

impl Sign {
    /// Reads a canonical name back: the sign that `text` names exactly, letter for letter.
    pub fn from_name(text: &str) -> (r: Option<Sign>)
        ensures
            r == Sign::named(text@),
    {
        let key = chars_of(text);
        find_sign(&key)
    }
}

/// Validates free text against the twelve signs: surrounding whitespace is dropped, ASCII
/// case is folded, and what is left must be a canonical name, letter for letter.
///
/// Succeeds with the sign exactly when the text names one; otherwise the error carries the
/// text as it was given.
pub fn normalize(raw: &str) -> (r: Result<Sign, InvalidSign>)
    ensures
        match r {
            Ok(sign) => Sign::normalized(raw@) == Some(sign) && folded(trimmed(raw@))
                == sign.name_view(),
            Err(e) => Sign::normalized(raw@) is None && e.raw@ == raw@ && forall|s: Sign|
                folded(trimmed(raw@)) != #[trigger] s.name_view(),
        },
{
    let chars = chars_of(raw);
    let (start, end) = trim_bounds(&chars);
    let key = fold_range(&chars, start, end);
    match find_sign(&key) {
        Some(sign) => {
            proof {
                lemma_named_iff(key@, sign);
            }
            Ok(sign)
        },
        None => Err(InvalidSign { raw: raw.to_owned() }),
    }
}

/// No two signs share a canonical name.
pub proof fn lemma_names_distinct(a: Sign, b: Sign)
    ensures
        a.name_view() == b.name_view() <==> a == b,
{
    reveal_strlit("aries");
    reveal_strlit("taurus");
    reveal_strlit("gemini");
    reveal_strlit("cancer");
    reveal_strlit("leo");
    reveal_strlit("virgo");
    reveal_strlit("libra");
    reveal_strlit("scorpio");
    reveal_strlit("sagittarius");
    reveal_strlit("capricorn");
    reveal_strlit("aquarius");
    reveal_strlit("pisces");
    if a != b && a.name_view() == b.name_view() {
        assert(a.name_view().len() == b.name_view().len());
        assert(a.name_view()[0] == b.name_view()[0]);
        assert(a.name_view()[1] == b.name_view()[1]);
        assert(a.name_view()[2] == b.name_view()[2]);
    }
}

/// `named` finds exactly the sign whose canonical name the key is.
pub proof fn lemma_named_iff(key: Seq<char>, s: Sign)
    ensures
        Sign::named(key) == Some(s) <==> key == s.name_view(),
{
    if key == s.name_view() {
        let t = choose|t: Sign| #[trigger] t.name_view() == key;
        lemma_names_distinct(t, s);
    }
    if Sign::named(key) == Some(s) {
        let t = choose|t: Sign| #[trigger] t.name_view() == key;
        assert(t == s);
    }
}

/// Every canonical name is a non-empty run of the letters `a..=z`.
pub proof fn lemma_names_are_lowercase(s: Sign)
    ensures
        s.name_view().len() > 0,
        forall|i: int| 0 <= i < s.name_view().len() ==> 'a' <= #[trigger] s.name_view()[i] <= 'z',
{
    reveal_strlit("aries");
    reveal_strlit("taurus");
    reveal_strlit("gemini");
    reveal_strlit("cancer");
    reveal_strlit("leo");
    reveal_strlit("virgo");
    reveal_strlit("libra");
    reveal_strlit("scorpio");
    reveal_strlit("sagittarius");
    reveal_strlit("capricorn");
    reveal_strlit("aquarius");
    reveal_strlit("pisces");
}

/// A canonical name is its own folded form, and the name shown to users folds to it.
pub proof fn lemma_names_fold_to_themselves(s: Sign)
    ensures
        folded(s.name_view()) == s.name_view(),
        folded(s.title_view()) == s.name_view(),
{
    reveal_strlit("aries");
    reveal_strlit("taurus");
    reveal_strlit("gemini");
    reveal_strlit("cancer");
    reveal_strlit("leo");
    reveal_strlit("virgo");
    reveal_strlit("libra");
    reveal_strlit("scorpio");
    reveal_strlit("sagittarius");
    reveal_strlit("capricorn");
    reveal_strlit("aquarius");
    reveal_strlit("pisces");
    reveal_strlit("Aries");
    reveal_strlit("Taurus");
    reveal_strlit("Gemini");
    reveal_strlit("Cancer");
    reveal_strlit("Leo");
    reveal_strlit("Virgo");
    reveal_strlit("Libra");
    reveal_strlit("Scorpio");
    reveal_strlit("Sagittarius");
    reveal_strlit("Capricorn");
    reveal_strlit("Aquarius");
    reveal_strlit("Pisces");
    assert(folded(s.name_view()) =~= s.name_view());
    assert(folded(s.title_view()) =~= s.name_view());
}

/// Every spelling of a sign's name is accepted as that sign: take any text `body` that
/// equals the canonical name up to ASCII case, put any whitespace before and after it, and
/// validation yields the sign.
pub proof fn lemma_variants_normalize(
    sign: Sign,
    before: Seq<char>,
    body: Seq<char>,
    after: Seq<char>,
)
    requires
        all_space(before),
        all_space(after),
        folded(body) == sign.name_view(),
    ensures
        Sign::normalized(before + body + after) == Some(sign),
{
    lemma_names_are_lowercase(sign);
    let name = sign.name_view();
    assert(body.len() == name.len());
    assert(!is_space(body.first())) by {
        assert(name[0] == lower(body[0]));
    }
    assert(!is_space(body.last())) by {
        assert(name[name.len() - 1] == lower(body[body.len() - 1]));
    }
    lemma_trimmed_of_padded(before, body, after);
    lemma_named_iff(name, sign);
}

/// Validation is idempotent: the canonical name of a sign, and the name shown to users,
/// validate to that same sign.
pub proof fn lemma_normalize_idempotent(sign: Sign)
    ensures
        Sign::normalized(sign.name_view()) == Some(sign),
        Sign::normalized(sign.title_view()) == Some(sign),
{
    lemma_names_fold_to_themselves(sign);
    let none = Seq::<char>::empty();
    assert(none + sign.name_view() + none =~= sign.name_view());
    assert(none + sign.title_view() + none =~= sign.title_view());
    lemma_variants_normalize(sign, none, sign.name_view(), none);
    lemma_variants_normalize(sign, none, sign.title_view(), none);
}

/// Text is rejected exactly when, trimmed and folded, it is none of the twelve names; and
/// when it is accepted, the sign is the one so named.
pub proof fn lemma_normalized_iff(raw: Seq<char>, sign: Sign)
    ensures
        Sign::normalized(raw) == Some(sign) <==> folded(trimmed(raw)) == sign.name_view(),
        Sign::normalized(raw) is None <==> (forall|s: Sign|
            folded(trimmed(raw)) != #[trigger] s.name_view()),
{
    lemma_named_iff(folded(trimmed(raw)), sign);
}

} // verus!
