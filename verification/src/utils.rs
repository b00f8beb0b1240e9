use vstd::prelude::*;
use vstd::string::StrSliceExecFns;

verus! {

/// What `str::to_lowercase` returns for a string with these characters.
pub uninterp spec fn lowercase_of(s: Seq<char>) -> Seq<char>;

/// What `str::to_uppercase` returns for a string with these characters.
pub uninterp spec fn uppercase_of(s: Seq<char>) -> Seq<char>;

/// Whether a character is white space, as `char::is_whitespace` has it: the
/// code points with the Unicode property `White_Space`.
pub open spec fn is_whitespace(c: char) -> bool {
    let u = c as u32;
    ||| 0x09 <= u <= 0x0D
    ||| u == 0x20
    ||| u == 0x85
    ||| u == 0xA0
    ||| u == 0x1680
    ||| 0x2000 <= u <= 0x200A
    ||| u == 0x2028
    ||| u == 0x2029
    ||| u == 0x202F
    ||| u == 0x205F
    ||| u == 0x3000
}

/// The number of white-space characters at the front of `s`.
pub open spec fn leading_space(s: Seq<char>) -> nat
    decreases s.len(),
{
    if s.len() > 0 && is_whitespace(s[0]) {
        1 + leading_space(s.drop_first())
    } else {
        0
    }
}

/// The number of white-space characters at the back of `s`.
pub open spec fn trailing_space(s: Seq<char>) -> nat
    decreases s.len(),
{
    if s.len() > 0 && is_whitespace(s.last()) {
        1 + trailing_space(s.drop_last())
    } else {
        0
    }
}

/// `s` without the white space at its front and at its back.
pub open spec fn trimmed(s: Seq<char>) -> Seq<char> {
    if leading_space(s) >= s.len() {
        Seq::empty()
    } else {
        s.subrange(leading_space(s) as int, s.len() - trailing_space(s))
    }
}

/// `s` with each underscore turned into a space.
pub open spec fn spaced(s: Seq<char>) -> Seq<char> {
    s.map_values(
        |c: char|
            if c == '_' {
                ' '
            } else {
                c
            },
    )
}

/// The pieces of `s` between occurrences of `sep`, in order. There is one
/// piece more than there are separators, and a piece may be empty.
pub open spec fn split(s: Seq<char>, sep: char) -> Seq<Seq<char>>
    decreases s.len(),
{
    if s.len() == 0 {
        seq![Seq::empty()]
    } else {
        let before = split(s.drop_last(), sep);
        if s.last() == sep {
            before.push(Seq::empty())
        } else {
            before.drop_last().push(before.last().push(s.last()))
        }
    }
}

/// The words one after the other with `sep` between each two.
pub open spec fn join(words: Seq<Seq<char>>, sep: char) -> Seq<char>
    decreases words.len(),
{
    if words.len() == 0 {
        Seq::empty()
    } else if words.len() == 1 {
        words[0]
    } else {
        join(words.drop_last(), sep).push(sep) + words.last()
    }
}

/// `word` with its first character in upper case and the rest as it is.
pub open spec fn capitalized(word: Seq<char>) -> Seq<char> {
    if word.len() == 0 {
        Seq::empty()
    } else {
        uppercase_of(word.take(1)) + word.skip(1)
    }
}

/// The character sequences of a list of words.
pub open spec fn word_views(words: Seq<Vec<char>>) -> Seq<Seq<char>> {
    words.map_values(|w: Vec<char>| w@)
}

/// True exactly when both slices hold the same characters.
pub fn str_eq(a: &str, b: &str) -> (r: bool)
    ensures
        r == (a@ == b@),
{
    a.to_owned() == b.to_owned()
}

/// `str::to_lowercase` of the standard library. Nothing is proved of the call;
/// the contract only names its result, which the characters of `s` determine.
#[verifier::external_body]
pub(crate) fn to_lowercase(s: &str) -> (r: String)
    ensures
        r@ == lowercase_of(s@),
{
    s.to_lowercase()
}

/// `str::to_uppercase` of the standard library. Nothing is proved of the call;
/// the contract only names its result, which the characters of `s` determine.
#[verifier::external_body]
pub(crate) fn to_uppercase(s: &str) -> (r: String)
    ensures
        r@ == uppercase_of(s@),
{
    s.to_uppercase()
}

/// Tells whether a character is white space.
pub fn char_is_whitespace(c: char) -> (r: bool)
    ensures
        r == is_whitespace(c),
{
    let u: u32 = c as u32;
    (0x09 <= u && u <= 0x0D) || u == 0x20 || u == 0x85 || u == 0xA0 || u == 0x1680 || (0x2000
        <= u && u <= 0x200A) || u == 0x2028 || u == 0x2029 || u == 0x202F || u == 0x205F || u
        == 0x3000
}

/// `String::push` of the standard library. Taken on trust: the string
/// afterwards is the string before with `c` at its end.
#[verifier::external_body]
pub(crate) fn push_char(s: &mut String, c: char)
    ensures
        final(s)@ == old(s)@.push(c),
{
    s.push(c)
}

/// The characters of `s`, in order.
pub fn chars_of(s: &str) -> (v: Vec<char>)
    ensures
        v@ == s@,
{
    let n = s.unicode_len();
    let mut v: Vec<char> = Vec::new();
    let mut i: usize = 0;
    while i < n
        invariant
            i <= n,
            n == s@.len(),
            v@ == s@.take(i as int),
        decreases n - i,
    {
        v.push(s.get_char(i));
        assert(v@ =~= s@.take(i + 1));
        i += 1;
    }
    assert(s@.take(n as int) =~= s@);
    v
}

/// The string made of `chars`, in order.
pub fn string_of(chars: &[char]) -> (s: String)
    ensures
        s@ == chars@,
{
    let mut s = String::new();
    let mut i: usize = 0;
    while i < chars.len()
        invariant
            i <= chars@.len(),
            s@ == chars@.take(i as int),
        decreases chars@.len() - i,
    {
        push_char(&mut s, chars[i]);
        assert(s@ =~= chars@.take(i + 1));
        i += 1;
    }
    assert(chars@.take(chars@.len() as int) =~= chars@);
    s
}

/// The leading white space of `s` is what has been counted so far plus the
/// leading white space of the rest.
proof fn lemma_leading_space_step(s: Seq<char>, i: int)
    requires
        0 <= i <= s.len(),
        forall|j: int| 0 <= j < i ==> is_whitespace(s[j]),
    ensures
        leading_space(s) == i + leading_space(s.skip(i)),
    decreases i,
{
    if i > 0 {
        lemma_leading_space_step(s.drop_first(), i - 1);
        assert(s.drop_first().skip(i - 1) =~= s.skip(i));
    } else {
        assert(s.skip(0) =~= s);
    }
}

/// The trailing white space of `s` is what has been counted so far plus the
/// trailing white space of the rest.
proof fn lemma_trailing_space_step(s: Seq<char>, i: int)
    requires
        0 <= i <= s.len(),
        forall|j: int| i <= j < s.len() ==> is_whitespace(s[j]),
    ensures
        trailing_space(s) == (s.len() - i) + trailing_space(s.take(i)),
    decreases s.len() - i,
{
    if i < s.len() {
        lemma_trailing_space_step(s.drop_last(), i);
        assert(s.drop_last().take(i) =~= s.take(i));
    } else {
        assert(s.take(i) =~= s);
    }
}

/// Removes the white space at the front and at the back, as `str::trim` does.
pub fn trim(chars: &[char]) -> (v: Vec<char>)
    ensures
        v@ == trimmed(chars@),
{
    let n = chars.len();
    let mut lead: usize = 0;
    while lead < n && char_is_whitespace(chars[lead])
        invariant
            lead <= n,
            n == chars@.len(),
            forall|j: int| 0 <= j < lead ==> is_whitespace(chars@[j]),
        decreases n - lead,
    {
        lead += 1;
    }
    proof {
        lemma_leading_space_step(chars@, lead as int);
        if lead < n {
            assert(chars@.skip(lead as int)[0] == chars@[lead as int]);
        }
    }
    let mut v: Vec<char> = Vec::new();
    if lead == n {
        return v;
    }
    let mut end: usize = n;
    while end > lead + 1 && char_is_whitespace(chars[end - 1])
        invariant
            lead < end <= n,
            n == chars@.len(),
            forall|j: int| end <= j < n ==> is_whitespace(chars@[j]),
        decreases end,
    {
        end -= 1;
    }
    proof {
        lemma_trailing_space_step(chars@, end as int);
        assert(chars@.take(end as int).last() == chars@[end - 1]);
        assert(!is_whitespace(chars@[end - 1]));
    }
    let mut i: usize = lead;
    while i < end
        invariant
            lead <= i <= end <= n,
            n == chars@.len(),
            v@ == chars@.subrange(lead as int, i as int),
        decreases end - i,
    {
        v.push(chars[i]);
        assert(v@ =~= chars@.subrange(lead as int, i + 1));
        i += 1;
    }
    v
}

/// Turns each underscore into a space.
pub fn underscores_to_spaces(chars: &[char]) -> (v: Vec<char>)
    ensures
        v@ == spaced(chars@),
{
    let mut v: Vec<char> = Vec::new();
    let mut i: usize = 0;
    while i < chars.len()
        invariant
            i <= chars@.len(),
            v@ == spaced(chars@.take(i as int)),
        decreases chars@.len() - i,
    {
        let c = chars[i];
        if c == '_' {
            v.push(' ');
        } else {
            v.push(c);
        }
        assert(v@ =~= spaced(chars@.take(i + 1)));
        i += 1;
    }
    assert(chars@.take(chars@.len() as int) =~= chars@);
    v
}

/// Cuts `chars` at each occurrence of `sep`.
pub fn split_on(chars: &[char], sep: char) -> (words: Vec<Vec<char>>)
    ensures
        word_views(words@) == split(chars@, sep),
        words@.len() >= 1,
{
    let mut words: Vec<Vec<char>> = Vec::new();
    let mut current: Vec<char> = Vec::new();
    let mut i: usize = 0;
    assert(chars@.take(0) =~= Seq::<char>::empty());
    assert(word_views(words@).push(current@) =~= split(chars@.take(0), sep));
    while i < chars.len()
        invariant
            i <= chars@.len(),
            word_views(words@).push(current@) == split(chars@.take(i as int), sep),
        decreases chars@.len() - i,
    {
        let c = chars[i];
        let ghost before = word_views(words@).push(current@);
        let ghost prefix = chars@.take(i + 1);
        assert(prefix.drop_last() =~= chars@.take(i as int));
        assert(prefix.last() == c);
        if c == sep {
            words.push(current);
            current = Vec::new();
            assert(word_views(words@).push(current@) =~= before.push(Seq::empty()));
        } else {
            current.push(c);
            assert(word_views(words@).push(current@) =~= before.drop_last().push(
                before.last().push(c),
            ));
        }
        i += 1;
    }
    assert(chars@.take(chars@.len() as int) =~= chars@);
    words.push(current);
    assert(word_views(words@) =~= split(chars@, sep));
    words
}

/// Puts the words one after the other with `sep` between each two.
pub fn join_with(words: &[Vec<char>], sep: char) -> (v: Vec<char>)
    ensures
        v@ == join(word_views(words@), sep),
{
    let mut v: Vec<char> = Vec::new();
    let mut i: usize = 0;
    assert(word_views(words@).take(0) =~= Seq::<Seq<char>>::empty());
    while i < words.len()
        invariant
            i <= words@.len(),
            v@ == join(word_views(words@).take(i as int), sep),
        decreases words@.len() - i,
    {
        let ghost done = word_views(words@).take(i as int);
        let ghost next = word_views(words@).take(i + 1);
        assert(next.drop_last() =~= done);
        assert(next.last() == words@[i as int]@);
        if i > 0 {
            v.push(sep);
        }
        let word = &words[i];
        let mut j: usize = 0;
        let ghost base = v@;
        while j < word.len()
            invariant
                j <= word@.len(),
                v@ == base + word@.take(j as int),
            decreases word@.len() - j,
        {
            v.push(word[j]);
            assert(v@ =~= base + word@.take(j + 1));
            j += 1;
        }
        assert(word@.take(word@.len() as int) =~= word@);
        assert(v@ =~= join(next, sep)) by {
            if i == 0 {
                assert(base =~= Seq::<char>::empty());
                assert(base + word@ =~= word@);
            }
        }
        i += 1;
    }
    assert(word_views(words@).take(words@.len() as int) =~= word_views(words@));
    v
}

/// The word with its first character in upper case and the rest as it is.
pub fn capitalize(word: &[char]) -> (v: Vec<char>)
    ensures
        v@ == capitalized(word@),
{
    if word.len() == 0 {
        Vec::new()
    } else {
        let mut first: Vec<char> = Vec::new();
        first.push(word[0]);
        assert(first@ =~= word@.take(1));
        let upper = to_uppercase(string_of(first.as_slice()).as_str());
        let mut v = chars_of(upper.as_str());
        let mut i: usize = 1;
        let ghost head = v@;
        while i < word.len()
            invariant
                1 <= i <= word@.len(),
                v@ == head + word@.subrange(1, i as int),
            decreases word@.len() - i,
        {
            v.push(word[i]);
            assert(v@ =~= head + word@.subrange(1, i + 1));
            i += 1;
        }
        assert(word@.subrange(1, word@.len() as int) =~= word@.skip(1));
        v
    }
}

} // verus!
