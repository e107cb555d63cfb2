//! Finding the message types that generated protobuf code defines: a line
//! that implements `::protobuf::Message` names the type in its next-to-last
//! word.
use vstd::prelude::*;

verus! {

/// Whether `c` has the Unicode `White_Space` property.
pub open spec fn is_white_space(c: char) -> bool {
    let u = c as u32;
    ||| 9 <= u <= 13
    ||| u == 32
    ||| u == 0x85
    ||| u == 0xa0
    ||| u == 0x1680
    ||| 0x2000 <= u <= 0x200a
    ||| u == 0x2028
    ||| u == 0x2029
    ||| u == 0x202f
    ||| u == 0x205f
    ||| u == 0x3000
}

/// The number of characters before the first white space of `s` (all of
/// them when it has none).
pub open spec fn leading_word_len(s: Seq<char>) -> nat
    decreases s.len(),
{
    if s.len() == 0 || is_white_space(s[0]) {
        0
    } else {
        1 + leading_word_len(s.drop_first())
    }
}

/// The words of `s`: its maximal runs of characters that are not white
/// space, in order.
pub open spec fn words(s: Seq<char>) -> Seq<Seq<char>>
    decreases s.len(),
{
    if s.len() == 0 {
        Seq::empty()
    } else if is_white_space(s[0]) {
        words(s.drop_first())
    } else {
        let n = leading_word_len(s);
        proof {
            lemma_leading_word(s);
        }
        seq![s.take(n as int)] + words(s.skip(n as int))
    }
}

/// `p` occurs in `s` at index `i`.
pub open spec fn occurs_at(s: Seq<char>, p: Seq<char>, i: int) -> bool {
    0 <= i && i + p.len() <= s.len() && s.subrange(i, i + p.len()) == p
}

/// `p` occurs somewhere in `s`.
pub open spec fn occurs_in(s: Seq<char>, p: Seq<char>) -> bool {
    exists|i: int| occurs_at(s, p, i)
}

/// What a line of generated code that declares a message type holds.
pub open spec fn message_impl_marker() -> Seq<char> {
    "impl ::protobuf::Message for"@
}

/// The leading word of `s` is made of characters that are not white space,
/// and is followed by white space or the end of `s`.
pub proof fn lemma_leading_word(s: Seq<char>)
    ensures
        leading_word_len(s) <= s.len(),
        s.len() > 0 && !is_white_space(s[0]) ==> leading_word_len(s) >= 1,
        forall|k: int| 0 <= k < leading_word_len(s) ==> !is_white_space(#[trigger] s[k]),
        leading_word_len(s) < s.len() ==> is_white_space(s[leading_word_len(s) as int]),
    decreases s.len(),
{
    if s.len() > 0 && !is_white_space(s[0]) {
        let t = s.drop_first();
        lemma_leading_word(t);
        assert forall|k: int| 0 <= k < leading_word_len(s) implies !is_white_space(#[trigger] s[k]) by {
            if k > 0 {
                assert(s[k] == t[k - 1]);
            }
        }
    }
}

/// A string with a character that is not white space has a word.
proof fn lemma_one_word(s: Seq<char>, c: int)
    requires
        0 <= c < s.len(),
        !is_white_space(s[c]),
    ensures
        words(s).len() >= 1,
    decreases s.len(),
{
    if is_white_space(s[0]) {
        assert(s.drop_first()[c - 1] == s[c]);
        lemma_one_word(s.drop_first(), c - 1);
    }
}

/// A string with white space between two other characters has two words.
proof fn lemma_two_words(s: Seq<char>, a: int, b: int, c: int)
    requires
        0 <= a < b < c < s.len(),
        !is_white_space(s[a]),
        is_white_space(s[b]),
        !is_white_space(s[c]),
    ensures
        words(s).len() >= 2,
    decreases s.len(),
{
    if is_white_space(s[0]) {
        let t = s.drop_first();
        assert(t[a - 1] == s[a] && t[b - 1] == s[b] && t[c - 1] == s[c]);
        lemma_two_words(t, a - 1, b - 1, c - 1);
    } else {
        lemma_leading_word(s);
        let n = leading_word_len(s);
        assert(n <= b) by {
            if n > b {
                assert(!is_white_space(s[b]));
            }
        }
        assert(s.skip(n as int)[c - n] == s[c]);
        lemma_one_word(s.skip(n as int), c - n);
    }
}

/// The characters of `s`.
fn chars_of(s: &str) -> (v: Vec<char>)
    ensures
        v@ == s@,
{
    broadcast use vstd::string::axiom_spec_iter;
    let mut v: Vec<char> = Vec::new();
    for c in it: s.chars()
        invariant
            v@ == it.seq().take(it.index() as int),
            it.seq() == s@,
    {
        v.push(c);
    }
    v
}

/// Whether `c` has the Unicode `White_Space` property.
pub fn is_white_space_char(c: char) -> (r: bool)
    ensures
        r == is_white_space(c),
{
    let u = c as u32;
    (9 <= u && u <= 13) || u == 32 || u == 0x85 || u == 0xa0 || u == 0x1680 || (0x2000 <= u && u <= 0x200a)
        || u == 0x2028 || u == 0x2029 || u == 0x202f || u == 0x205f || u == 0x3000
}

/// Where `p` first occurs in `s`, if it does.
fn find_chars(s: &Vec<char>, p: &Vec<char>) -> (r: Option<usize>)
    ensures
        r matches Some(i) ==> occurs_at(s@, p@, i as int),
        r is None ==> !occurs_in(s@, p@),
{
    if p.len() > s.len() {
        assert forall|i: int| !occurs_at(s@, p@, i) by {}
        return None;
    }
    let last = s.len() - p.len();
    let mut i: usize = 0;
    loop
        invariant
            last == s.len() - p.len(),
            p.len() <= s.len(),
            i <= last,
            forall|k: int| 0 <= k < i ==> !#[trigger] occurs_at(s@, p@, k),
        ensures
            forall|k: int| 0 <= k <= last ==> !#[trigger] occurs_at(s@, p@, k),
        decreases last - i,
    {
        let mut j: usize = 0;
        let mut same = true;
        while j < p.len()
            invariant
                i <= last,
                last == s.len() - p.len(),
                j <= p.len(),
                same ==> forall|k: int| 0 <= k < j ==> s@[i + k] == p@[k],
                !same ==> !occurs_at(s@, p@, i as int),
            decreases p.len() - j,
        {
            if same && s[i + j] != p[j] {
                assert(s@.subrange(i as int, i + p.len())[j as int] != p@[j as int]);
                same = false;
            }
            j = j + 1;
        }
        if same {
            assert(s@.subrange(i as int, i + p.len()) =~= p@);
            return Some(i);
        }
        if i == last {
            break;
        }
        i = i + 1;
    }
    assert forall|k: int| !occurs_at(s@, p@, k) by {
        if 0 <= k && k + p.len() <= s.len() {
            assert(k <= last);
        }
    }
    None
}

/// The start and end of each word of `s`, in order.
fn word_bounds(s: &Vec<char>) -> (r: Vec<(usize, usize)>)
    ensures
        r@.map_values(|b: (usize, usize)| s@.subrange(b.0 as int, b.1 as int)) == words(s@),
        forall|k: int| 0 <= k < r.len() ==> (#[trigger] r@[k]).0 <= r@[k].1 <= s.len(),
{
    let mut bounds: Vec<(usize, usize)> = Vec::new();
    let mut i: usize = 0;
    assert(s@.skip(0) =~= s@);
    while i < s.len()
        invariant
            i <= s.len(),
            words(s@) == bounds@.map_values(|b: (usize, usize)| s@.subrange(b.0 as int, b.1 as int))
                + words(s@.skip(i as int)),
            forall|k: int| 0 <= k < bounds.len() ==> (#[trigger] bounds@[k]).0 <= bounds@[k].1 <= s.len(),
        decreases s.len() - i,
    {
        let t = Ghost(s@.skip(i as int));
        if is_white_space_char(s[i]) {
            assert(t@.drop_first() =~= s@.skip(i + 1));
            i = i + 1;
        } else {
            let start = i;
            proof { lemma_leading_word(t@); }
            while i < s.len() && !is_white_space_char(s[i])
                invariant
                    start <= i <= s.len(),
                    t@ == s@.skip(start as int),
                    leading_word_len(t@) == (i - start) + leading_word_len(s@.skip(i as int)),
                decreases s.len() - i,
            {
                assert(s@.skip(i as int).drop_first() =~= s@.skip(i + 1));
                i = i + 1;
            }
            assert(leading_word_len(s@.skip(i as int)) == 0);
            let ghost n = leading_word_len(t@);
            assert(t@.take(n as int) =~= s@.subrange(start as int, i as int));
            assert(t@.skip(n as int) =~= s@.skip(i as int));
            let ghost before = bounds@.map_values(|b: (usize, usize)| s@.subrange(b.0 as int, b.1 as int));
            bounds.push((start, i));
            assert(bounds@.map_values(|b: (usize, usize)| s@.subrange(b.0 as int, b.1 as int))
                =~= before.push(s@.subrange(start as int, i as int)));
            assert(before + words(t@) =~= before.push(s@.subrange(start as int, i as int)) + words(s@.skip(i as int)));
        }
    }
    assert(words(s@.skip(i as int)) =~= Seq::<Seq<char>>::empty());
    assert(bounds@.map_values(|b: (usize, usize)| s@.subrange(b.0 as int, b.1 as int)) + Seq::<Seq<char>>::empty()
        =~= bounds@.map_values(|b: (usize, usize)| s@.subrange(b.0 as int, b.1 as int)));
    bounds
}

/// The message type that a line of the generated file `filename` declares,
/// as `filename::Type`: the line's next-to-last word, when the line
/// implements `::protobuf::Message`; `None` for any other line.
pub fn message_def(filename: &str, line: &str) -> (r: Option<String>)
    ensures
        match r {
            Some(d) => occurs_in(line@, message_impl_marker())
                && d@ == filename@ + "::"@ + words(line@)[words(line@).len() - 2],
            None => !occurs_in(line@, message_impl_marker()),
        },
{
    let marker = "impl ::protobuf::Message for";
    proof { reveal_strlit("impl ::protobuf::Message for"); }
    let cs = chars_of(line);
    let ps = chars_of(marker);
    match find_chars(&cs, &ps) {
        None => None,
        Some(at) => {
            proof {
                assert(cs@[at as int] == line@.subrange(at as int, at + ps@.len())[0]);
                assert(cs@[at + 4] == line@.subrange(at as int, at + ps@.len())[4]);
                assert(cs@[at + 5] == line@.subrange(at as int, at + ps@.len())[5]);
                lemma_two_words(line@, at as int, at + 4, at + 5);
            }
            let bounds = word_bounds(&cs);
            let k = bounds.len() - 2;
            let (from, to) = bounds[k];
            proof {
                assert(bounds@.map_values(|b: (usize, usize)| cs@.subrange(b.0 as int, b.1 as int))[k as int]
                    == cs@.subrange(from as int, to as int));
            }
            let mut d = String::from_str(filename);
            d.append("::");
            d.append(line.substring_char(from, to));
            Some(d)
        },
    }
}

} // verus!
