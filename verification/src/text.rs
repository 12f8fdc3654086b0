//! Character-level text primitives: whitespace, trimming and ASCII case folding.

use vstd::prelude::*;

verus! {

/// Whether `c` is whitespace: one of the code points that Unicode classes as `White_Space`.
pub open spec fn is_space(c: char) -> bool {
    let n: u32 = c as u32;
    ||| 0x09 <= n <= 0x0D
    ||| n == 0x20
    ||| n == 0x85
    ||| n == 0xA0
    ||| n == 0x1680
    ||| 0x2000 <= n <= 0x200A
    ||| n == 0x2028
    ||| n == 0x2029
    ||| n == 0x202F
    ||| n == 0x205F
    ||| n == 0x3000
}

/// The ASCII lower-case form of `c`: `A..=Z` move to `a..=z`, every other character stays.
pub open spec fn lower(c: char) -> char {
    if 'A' <= c && c <= 'Z' {
        ((c as u32) + 32) as char
    } else {
        c
    }
}

/// Executable form of [`is_space`].
pub fn char_is_space(c: char) -> (b: bool)
    ensures
        b == is_space(c),
{
    let n: u32 = c as u32;
    (0x09 <= n && n <= 0x0D) || n == 0x20 || n == 0x85 || n == 0xA0 || n == 0x1680 || (0x2000 <= n
        && n <= 0x200A) || n == 0x2028 || n == 0x2029 || n == 0x202F || n == 0x205F || n == 0x3000
}

/// Executable form of [`lower`].
pub fn char_lower(c: char) -> (r: char)
    ensures
        r == lower(c),
{
    if 'A' <= c && c <= 'Z' {
        let b: u8 = c as u8;
        (b + 32) as char
    } else {
        c
    }
}

/// The characters of `s`, in order.
pub fn chars_of(s: &str) -> (v: Vec<char>)
    ensures
        v@ == s@,
{
    let mut v: Vec<char> = Vec::new();
    for c in it: s.chars()
        invariant
            v@ == it.seq().take(it.index()),
    {
        v.push(c);
    }
    v
}

/// Whether every character of `s` is whitespace.
pub open spec fn all_space(s: Seq<char>) -> bool {
    forall|i: int| 0 <= i < s.len() ==> is_space(#[trigger] s[i])
}

/// `s` without its leading whitespace.
pub open spec fn trim_start(s: Seq<char>) -> Seq<char>
    decreases s.len(),
{
    if s.len() > 0 && is_space(s[0]) {
        trim_start(s.drop_first())
    } else {
        s
    }
}

/// `s` without its trailing whitespace.
pub open spec fn trim_end(s: Seq<char>) -> Seq<char>
    decreases s.len(),
{
    if s.len() > 0 && is_space(s.last()) {
        trim_end(s.drop_last())
    } else {
        s
    }
}

/// `s` without its surrounding whitespace.
pub open spec fn trimmed(s: Seq<char>) -> Seq<char> {
    trim_end(trim_start(s))
}

/// `s` with every character replaced by its ASCII lower-case form.
pub open spec fn folded(s: Seq<char>) -> Seq<char> {
    Seq::new(s.len(), |i: int| lower(s[i]))
}

/// The part of `s` before its first whitespace character (all of `s` if it has none).
pub open spec fn first_word(s: Seq<char>) -> Seq<char>
    decreases s.len(),
{
    if s.len() > 0 && !is_space(s[0]) {
        seq![s[0]] + first_word(s.drop_first())
    } else {
        Seq::empty()
    }
}

/// `trim_start` drops a prefix: the result is the tail of `s` from some index on, everything
/// before that index is whitespace, and the tail does not begin with whitespace.
pub proof fn lemma_trim_start_is_suffix(s: Seq<char>) -> (k: int)
    ensures
        0 <= k <= s.len(),
        trim_start(s) == s.skip(k),
        all_space(s.take(k)),
        k < s.len() ==> !is_space(s[k]),
    decreases s.len(),
{
    if s.len() > 0 && is_space(s[0]) {
        let j = lemma_trim_start_is_suffix(s.drop_first());
        assert(s.drop_first().skip(j) =~= s.skip(j + 1));
        assert forall|i: int| 0 <= i < j + 1 implies is_space(#[trigger] s.take(j + 1)[i]) by {
            if i > 0 {
                assert(s.take(j + 1)[i] == s.drop_first().take(j)[i - 1]);
            }
        }
        j + 1
    } else {
        assert(s.skip(0) =~= s);
        0
    }
}

/// `trim_end` drops a suffix: the result is the head of `s` up to some index, everything from
/// that index on is whitespace, and the head does not end with whitespace.
pub proof fn lemma_trim_end_is_prefix(s: Seq<char>) -> (k: int)
    ensures
        0 <= k <= s.len(),
        trim_end(s) == s.take(k),
        all_space(s.skip(k)),
        k > 0 ==> !is_space(s[k - 1]),
    decreases s.len(),
{
    if s.len() > 0 && is_space(s.last()) {
        let j = lemma_trim_end_is_prefix(s.drop_last());
        assert(s.drop_last().take(j) =~= s.take(j));
        assert forall|i: int| 0 <= i < s.len() - j implies is_space(#[trigger] s.skip(j)[i]) by {
            if i < s.len() - 1 - j {
                assert(s.skip(j)[i] == s.drop_last().skip(j)[i]);
            }
        }
        j
    } else {
        assert(s.take(s.len() as int) =~= s);
        s.len() as int
    }
}

/// Removing whitespace from the front of text that is whitespace followed by `rest` leaves
/// what is left of `rest`.
pub proof fn lemma_trim_start_skips_padding(pad: Seq<char>, rest: Seq<char>)
    requires
        all_space(pad),
    ensures
        trim_start(pad + rest) == trim_start(rest),
    decreases pad.len(),
{
    if pad.len() == 0 {
        assert(pad + rest =~= rest);
    } else {
        let s = pad + rest;
        assert(s[0] == pad[0]);
        assert(s.drop_first() =~= pad.drop_first() + rest);
        assert forall|i: int| 0 <= i < pad.drop_first().len() implies is_space(
            #[trigger] pad.drop_first()[i],
        ) by {
            assert(pad.drop_first()[i] == pad[i + 1]);
        }
        lemma_trim_start_skips_padding(pad.drop_first(), rest);
    }
}

/// Removing whitespace from the back of text that is `rest` followed by whitespace leaves
/// what is left of `rest`.
pub proof fn lemma_trim_end_skips_padding(rest: Seq<char>, pad: Seq<char>)
    requires
        all_space(pad),
    ensures
        trim_end(rest + pad) == trim_end(rest),
    decreases pad.len(),
{
    if pad.len() == 0 {
        assert(rest + pad =~= rest);
    } else {
        let s = rest + pad;
        assert(s.last() == pad.last());
        assert(s.drop_last() =~= rest + pad.drop_last());
        assert forall|i: int| 0 <= i < pad.drop_last().len() implies is_space(
            #[trigger] pad.drop_last()[i],
        ) by {
            assert(pad.drop_last()[i] == pad[i]);
        }
        lemma_trim_end_skips_padding(rest, pad.drop_last());
    }
}

/// Text that neither begins nor ends with whitespace survives trimming unchanged, whatever
/// whitespace is put around it.
pub proof fn lemma_trimmed_of_padded(before: Seq<char>, body: Seq<char>, after: Seq<char>)
    requires
        all_space(before),
        all_space(after),
        body.len() > 0 ==> !is_space(body.first()) && !is_space(body.last()),
    ensures
        trimmed(before + body + after) == body,
{
    assert(before + body + after =~= before + (body + after));
    lemma_trim_start_skips_padding(before, body + after);
    if body.len() > 0 {
        assert((body + after)[0] == body[0]);
        assert(trim_start(body + after) == body + after);
        lemma_trim_end_skips_padding(body, after);
        assert(trim_end(body) == body);
    } else {
        assert(body + after =~= after);
        let k = lemma_trim_start_is_suffix(after);
        if k < after.len() {
            assert(is_space(after[k]));
        }
        assert(after.skip(k) =~= Seq::<char>::empty());
        assert(trim_end(Seq::<char>::empty()) == Seq::<char>::empty());
        assert(body =~= Seq::<char>::empty());
    }
}

/// Trimming is idempotent.
pub proof fn lemma_trimmed_idempotent(s: Seq<char>)
    ensures
        trimmed(trimmed(s)) == trimmed(s),
{
    let a = lemma_trim_start_is_suffix(s);
    let t = s.skip(a);
    let b = lemma_trim_end_is_prefix(t);
    let body = t.take(b);
    if body.len() > 0 {
        assert(body.first() == s[a]);
        assert(body.last() == t[b - 1]);
    }
    assert(Seq::<char>::empty() + body + Seq::<char>::empty() =~= body);
    lemma_trimmed_of_padded(Seq::empty(), body, Seq::empty());
}

/// Folding is idempotent, and keeps the length.
pub proof fn lemma_folded_idempotent(s: Seq<char>)
    ensures
        folded(folded(s)) == folded(s),
        folded(s).len() == s.len(),
{
    assert(folded(folded(s)) =~= folded(s));
}

/// The bounds of `trimmed(v@)` inside `v`: the trimmed text is `v[start..end]`, and `start`
/// is where the leading whitespace ends.
pub fn trim_bounds(v: &Vec<char>) -> (r: (usize, usize))
    ensures
        r.0 <= r.1 <= v@.len(),
        v@.subrange(r.0 as int, r.1 as int) == trimmed(v@),
        all_space(v@.take(r.0 as int)),
        r.0 < v@.len() ==> !is_space(v@[r.0 as int]),
{
    let ghost a = lemma_trim_start_is_suffix(v@);
    let ghost b = lemma_trim_end_is_prefix(v@.skip(a));
    let n = v.len();
    let mut start: usize = 0;
    while start < n && char_is_space(v[start])
        invariant
            n == v@.len(),
            start <= a <= n,
            all_space(v@.take(a)),
            a < n ==> !is_space(v@[a]),
        decreases n - start,
    {
        proof {
            if start == a {
                assert(is_space(v@[a]));
            }
        }
        start += 1;
    }
    proof {
        if start < a {
            assert(v@.take(a)[start as int] == v@[start as int]);
        }
    }
    assert(start == a);
    let mut end: usize = n;
    while end > start && char_is_space(v[end - 1])
        invariant
            n == v@.len(),
            start == a,
            start <= a + b <= end <= n,
            0 <= b <= v@.skip(a).len(),
            all_space(v@.skip(a).skip(b)),
            b > 0 ==> !is_space(v@.skip(a)[b - 1]),
        decreases end,
    {
        proof {
            if end == a + b {
                assert(v@.skip(a)[b - 1] == v@[end - 1]);
            }
        }
        end -= 1;
    }
    proof {
        if a + b < end {
            assert(v@.skip(a).skip(b)[end - 1 - a - b] == v@[end - 1]);
        }
        assert(end == a + b);
        assert(v@.subrange(start as int, end as int) =~= v@.skip(a).take(b));
    }
    (start, end)
}

/// The ASCII lower-case form of `v[from..to]`.
pub fn fold_range(v: &Vec<char>, from: usize, to: usize) -> (r: Vec<char>)
    requires
        from <= to <= v@.len(),
    ensures
        r@ == folded(v@.subrange(from as int, to as int)),
{
    let mut r: Vec<char> = Vec::new();
    let mut i: usize = from;
    while i < to
        invariant
            from <= i <= to <= v@.len(),
            r@ == folded(v@.subrange(from as int, i as int)),
        decreases to - i,
    {
        r.push(char_lower(v[i]));
        i += 1;
        assert(r@ =~= folded(v@.subrange(from as int, i as int)));
    }
    r
}

/// Where the first word of `v[from..]` ends: the index of the first whitespace character at
/// or after `from`, or the length of `v` if there is none.
pub fn word_end(v: &Vec<char>, from: usize) -> (end: usize)
    requires
        from <= v@.len(),
    ensures
        from <= end <= v@.len(),
        v@.subrange(from as int, end as int) == first_word(v@.skip(from as int)),
{
    let n = v.len();
    let mut end: usize = from;
    proof {
        lemma_first_word_is_prefix(v@.skip(from as int));
    }
    let ghost k = first_word(v@.skip(from as int)).len() as int;
    while end < n && !char_is_space(v[end])
        invariant
            n == v@.len(),
            from <= end <= from + k <= n,
            first_word(v@.skip(from as int)) == v@.skip(from as int).take(k),
            forall|i: int| 0 <= i < k ==> !is_space(#[trigger] v@.skip(from as int)[i]),
            k < v@.skip(from as int).len() ==> is_space(v@.skip(from as int)[k]),
        decreases n - end,
    {
        proof {
            if end == from + k {
                assert(v@.skip(from as int)[k] == v@[end as int]);
            }
        }
        end += 1;
    }
    proof {
        if end < from + k {
            assert(v@.skip(from as int)[end - from] == v@[end as int]);
        }
        assert(v@.subrange(from as int, end as int) =~= v@.skip(from as int).take(k));
    }
    end
}

/// The first word is a prefix of the text, holds no whitespace, and is followed by
/// whitespace or by nothing.
pub proof fn lemma_first_word_is_prefix(s: Seq<char>)
    ensures
        first_word(s).len() <= s.len(),
        first_word(s) == s.take(first_word(s).len() as int),
        forall|i: int| 0 <= i < first_word(s).len() ==> !is_space(#[trigger] s[i]),
        first_word(s).len() < s.len() ==> is_space(s[first_word(s).len() as int]),
    decreases s.len(),
{
    if s.len() > 0 && !is_space(s[0]) {
        let t = s.drop_first();
        lemma_first_word_is_prefix(t);
        let w = first_word(t);
        assert(first_word(s) =~= s.take(w.len() as int + 1)) by {
            assert(w == t.take(w.len() as int));
            assert forall|i: int| 0 <= i < w.len() + 1 implies (seq![s[0]] + w)[i] == s[i] by {
                if i > 0 {
                    assert(w[i - 1] == t[i - 1]);
                }
            }
        }
        assert forall|i: int| 0 <= i < first_word(s).len() implies !is_space(#[trigger] s[i]) by {
            if i > 0 {
                assert(s[i] == t[i - 1]);
            }
        }
        if first_word(s).len() < s.len() {
            assert(s[first_word(s).len() as int] == t[w.len() as int]);
        }
    } else {
        assert(first_word(s) =~= s.take(0));
    }
}

/// The character that writes the decimal digit `d`.
pub open spec fn digit(d: nat) -> char {
    (('0' as u32) + d) as char
}

/// The decimal notation of `n`, without leading zeros.
pub open spec fn decimal_view(n: nat) -> Seq<char>
    decreases n,
{
    if n < 10 {
        seq![digit(n)]
    } else {
        decimal_view(n / 10).push(digit(n % 10))
    }
}

/// The one-character text of the decimal digit `d`.
pub fn digit_text(d: u64) -> (r: &'static str)
    requires
        d < 10,
    ensures
        r@ == seq![digit(d as nat)],
{
    proof {
        reveal_strlit("0");
        reveal_strlit("1");
        reveal_strlit("2");
        reveal_strlit("3");
        reveal_strlit("4");
        reveal_strlit("5");
        reveal_strlit("6");
        reveal_strlit("7");
        reveal_strlit("8");
        reveal_strlit("9");
    }
    let r = if d == 0 {
        "0"
    } else if d == 1 {
        "1"
    } else if d == 2 {
        "2"
    } else if d == 3 {
        "3"
    } else if d == 4 {
        "4"
    } else if d == 5 {
        "5"
    } else if d == 6 {
        "6"
    } else if d == 7 {
        "7"
    } else if d == 8 {
        "8"
    } else {
        "9"
    };
    assert(r@ =~= seq![digit(d as nat)]);
    r
}

/// Appends the decimal notation of `n` to `out`.
pub fn push_decimal(out: &mut String, n: u64)
    ensures
        final(out)@ == old(out)@ + decimal_view(n as nat),
    decreases n,
{
    if n < 10 {
        out.append(digit_text(n));
    } else {
        push_decimal(out, n / 10);
        out.append(digit_text(n % 10));
        assert(out@ =~= old(out)@ + decimal_view(n as nat));
    }
}

/// The decimal notation of `n`.
pub fn decimal(n: u64) -> (r: String)
    ensures
        r@ == decimal_view(n as nat),
{
    let mut r = String::new();
    push_decimal(&mut r, n);
    assert(r@ =~= decimal_view(n as nat));
    r
}

/// Whether `v` begins with `prefix`, ASCII case aside.
pub open spec fn has_prefix(v: Seq<char>, prefix: Seq<char>) -> bool {
    prefix.len() <= v.len() && folded(v.take(prefix.len() as int)) == folded(prefix)
}

/// Executable form of [`has_prefix`].
pub fn starts_with_folded(v: &Vec<char>, prefix: &Vec<char>) -> (b: bool)
    ensures
        b == has_prefix(v@, prefix@),
{
    if prefix.len() > v.len() {
        return false;
    }
    let mut i: usize = 0;
    while i < prefix.len()
        invariant
            i <= prefix@.len() <= v@.len(),
            forall|j: int| 0 <= j < i ==> lower(v@[j]) == lower(prefix@[j]),
        decreases prefix@.len() - i,
    {
        if char_lower(v[i]) != char_lower(prefix[i]) {
            assert(folded(v@.take(prefix@.len() as int))[i as int] != folded(prefix@)[i as int]);
            return false;
        }
        i += 1;
    }
    assert(folded(v@.take(prefix@.len() as int)) =~= folded(prefix@));
    true
}

/// A run of characters without whitespace, followed by nothing or by whitespace, is the
/// first word of the text.
pub proof fn lemma_first_word_of(word: Seq<char>, rest: Seq<char>)
    requires
        forall|i: int| 0 <= i < word.len() ==> !is_space(#[trigger] word[i]),
        rest.len() > 0 ==> is_space(rest[0]),
    ensures
        first_word(word + rest) == word,
    decreases word.len(),
{
    let s = word + rest;
    if word.len() == 0 {
        assert(s =~= rest);
        assert(first_word(s) =~= word);
    } else {
        assert(s[0] == word[0]);
        assert(s.drop_first() =~= word.drop_first() + rest);
        assert forall|i: int| 0 <= i < word.drop_first().len() implies !is_space(
            #[trigger] word.drop_first()[i],
        ) by {
            assert(word.drop_first()[i] == word[i + 1]);
        }
        lemma_first_word_of(word.drop_first(), rest);
        assert(seq![word[0]] + word.drop_first() =~= word);
    }
}

} // verus!
