//! Trigger keywords and case-sensitive substring matching on lines.

use vstd::prelude::*;

verus! {

/// `needle` occurs in `hay` starting at position `i`.
pub open spec fn occurs_at(hay: Seq<char>, needle: Seq<char>, i: int) -> bool {
    0 <= i && i + needle.len() <= hay.len() && hay.subrange(i, i + needle.len()) == needle
}

/// `needle` is a substring of `hay` (the empty sequence is a substring of everything).
pub open spec fn occurs_in(hay: Seq<char>, needle: Seq<char>) -> bool {
    exists|i: int| occurs_at(hay, needle, i)
}

/// The characters of a string, collected in order.
pub fn chars_of(s: &str) -> (r: Vec<char>)
    ensures
        r@ == s@,
{
    broadcast use vstd::string::axiom_spec_iter;
    let mut r: Vec<char> = Vec::new();
    for c in it: s.chars()
        invariant
            it.seq() == s@,
            r@ == it.seq().take(it.index() as int),
    {
        r.push(c);
    }
    r
}

fn occurs_at_exec(hay: &Vec<char>, needle: &Vec<char>, i: usize) -> (r: bool)
    requires
        i + needle@.len() <= hay@.len(),
    ensures
        r == occurs_at(hay@, needle@, i as int),
{
    let n: usize = hay.len();
    let mut j: usize = 0;
    while j < needle.len()
        invariant
            n == hay@.len(),
            j <= needle@.len(),
            i + needle@.len() <= hay@.len(),
            forall|k: int| 0 <= k < j ==> hay@[i + k] == needle@[k],
        decreases needle@.len() - j,
    {
        if hay[i + j] != needle[j] {
            assert(hay@.subrange(i as int, i + needle@.len())[j as int] != needle@[j as int]);
            return false;
        }
        j = j + 1;
    }
    assert(hay@.subrange(i as int, i + needle@.len()) =~= needle@);
    true
}

/// Whether `needle` occurs in `hay` as a contiguous run of characters.
pub fn contains_chars(hay: &Vec<char>, needle: &Vec<char>) -> (r: bool)
    ensures
        r == occurs_in(hay@, needle@),
{
    if needle.len() > hay.len() {
        assert forall|i: int| !occurs_at(hay@, needle@, i) by {}
        return false;
    }
    let last: usize = hay.len() - needle.len();
    let mut i: usize = 0;
    loop
        invariant
            i <= last,
            last + needle@.len() == hay@.len(),
            forall|k: int| 0 <= k < i ==> !occurs_at(hay@, needle@, k),
        decreases last - i,
    {
        if occurs_at_exec(hay, needle, i) {
            return true;
        }
        if i == last {
            assert forall|k: int| !occurs_at(hay@, needle@, k) by {
                if 0 <= k <= last {
                }
            }
            return false;
        }
        i = i + 1;
    }
}

/// Keyword `k` is the first of `kws` that occurs in `line`.
pub open spec fn first_hit(line: Seq<char>, kws: Seq<Seq<char>>, k: int) -> bool {
    &&& 0 <= k < kws.len()
    &&& occurs_in(line, kws[k])
    &&& forall|j: int| 0 <= j < k ==> !occurs_in(line, kws[j])
}

/// Some keyword of `kws` occurs in `line`.
pub open spec fn is_trigger(line: Seq<char>, kws: Seq<Seq<char>>) -> bool {
    exists|k: int| 0 <= k < kws.len() && occurs_in(line, kws[k])
}

/// The keywords that pause the wrapped command, in the order they are tested.
pub open spec fn standard_keywords() -> Seq<Seq<char>> {
    seq!["BREAKPOINT"@, "BREAK"@]
}

/// An ordered set of trigger keywords, fixed once built.
pub struct KeywordSet {
    words: Vec<Vec<char>>,
}

impl View for KeywordSet {
    type V = Seq<Seq<char>>;

    closed spec fn view(&self) -> Seq<Seq<char>> {
        self.words@.map_values(|w: Vec<char>| w@)
    }
}

impl KeywordSet {
    /// A set holding `words`, tested in the given order.
    pub fn new(words: &Vec<String>) -> (r: KeywordSet)
        ensures
            r@ == words@.map_values(|w: String| w@),
    {
        let mut built: Vec<Vec<char>> = Vec::new();
        for i in 0..words.len()
            invariant
                built@.len() == i,
                forall|j: int| 0 <= j < i ==> #[trigger] built@[j]@ == words@[j]@,
        {
            let w = chars_of(words[i].as_str());
            built.push(w);
        }
        let r = KeywordSet { words: built };
        assert(r@ =~= words@.map_values(|w: String| w@));
        r
    }

    /// The fixed trigger set of the tool: `BREAKPOINT`, then `BREAK`.
    pub fn standard() -> (r: KeywordSet)
        ensures
            r@ == standard_keywords(),
    {
        let words: Vec<String> = vec![String::from_str("BREAKPOINT"), String::from_str("BREAK")];
        let r = KeywordSet::new(&words);
        assert(r@ =~= standard_keywords());
        r
    }

    /// The number of keywords in the set.
    pub fn len(&self) -> (r: usize)
        ensures
            r == self@.len(),
    {
        self.words.len()
    }

    /// The position of the first keyword that occurs in `line`; later keywords
    /// are not tested once one has matched.
    pub fn first_match(&self, line: &str) -> (r: Option<usize>)
        ensures
            match r {
                Some(k) => first_hit(line@, self@, k as int),
                None => !is_trigger(line@, self@),
            },
    {
        let hay = chars_of(line);
        let mut k: usize = 0;
        while k < self.words.len()
            invariant
                k <= self@.len(),
                hay@ == line@,
                forall|j: int| 0 <= j < k ==> !occurs_in(line@, #[trigger] self@[j]),
            decreases self@.len() - k,
        {
            if contains_chars(&hay, &self.words[k]) {
                return Some(k);
            }
            k = k + 1;
        }
        None
    }

    /// Whether `line` holds any keyword of the set.
    pub fn matches(&self, line: &str) -> (r: bool)
        ensures
            r == is_trigger(line@, self@),
    {
        match self.first_match(line) {
            Some(_) => true,
            None => false,
        }
    }
}

} // verus!
