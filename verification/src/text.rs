//! Small operations on strings, stated over their characters.

use vstd::prelude::*;

verus! {

/// A class of characters to strip from the ends of a string.
#[derive(Debug, Clone, Copy)]
pub enum CharClass {
    /// One given character.
    Is(char),
    /// The characters with the Unicode property `White_Space`.
    WhiteSpace,
}

/// The code points with the Unicode property `White_Space`.
pub open spec fn is_whitespace(c: char) -> bool {
    let n = c as u32;
    ||| 0x09 <= n <= 0x0D
    ||| n == 0x20
    ||| n == 0x85
    ||| n == 0xA0
    ||| n == 0x1680
    ||| 0x2000 <= n <= 0x200A
    ||| n == 0x2028
    ||| n == 0x2029
    ||| n == 0x202F
    ||| n == 0x205F
    ||| n == 0x3000
}

impl CharClass {
    /// Whether `c` belongs to the class.
    pub open spec fn holds(self, c: char) -> bool {
        match self {
            CharClass::Is(x) => c == x,
            CharClass::WhiteSpace => is_whitespace(c),
        }
    }

    /// Tells whether `c` belongs to the class.
    pub fn contains(&self, c: char) -> (b: bool)
        ensures
            b == self.holds(c),
    {
        match self {
            CharClass::Is(x) => c == *x,
            CharClass::WhiteSpace => white_space(c),
        }
    }
}

/// `s` without the longest run of characters of `class` at its end.
pub open spec fn trim_end(s: Seq<char>, class: CharClass) -> Seq<char>
    decreases s.len(),
{
    if s.len() > 0 && class.holds(s.last()) {
        trim_end(s.drop_last(), class)
    } else {
        s
    }
}

/// `s` without the longest run of characters of `class` at its start.
pub open spec fn trim_start(s: Seq<char>, class: CharClass) -> Seq<char>
    decreases s.len(),
{
    if s.len() > 0 && class.holds(s.first()) {
        trim_start(s.drop_first(), class)
    } else {
        s
    }
}

/// `s` without any `c` at its end.
pub open spec fn trim_end_matches(s: Seq<char>, c: char) -> Seq<char> {
    trim_end(s, CharClass::Is(c))
}

/// `s` without white space at either end.
pub open spec fn trim(s: Seq<char>) -> Seq<char> {
    trim_start(trim_end(s, CharClass::WhiteSpace), CharClass::WhiteSpace)
}

/// What `trim_end` leaves is a prefix of `s` that does not end in a character
/// of the class, and everything it removed belongs to the class.
pub proof fn lemma_trim_end(s: Seq<char>, class: CharClass)
    ensures
        trim_end(s, class).is_prefix_of(s),
        trim_end(s, class).len() > 0 ==> !class.holds(trim_end(s, class).last()),
        forall|i: int| trim_end(s, class).len() <= i < s.len() ==> class.holds(#[trigger] s[i]),
    decreases s.len(),
{
    if s.len() > 0 && class.holds(s.last()) {
        let rest = s.drop_last();
        lemma_trim_end(rest, class);
        assert forall|i: int| trim_end(s, class).len() <= i < s.len() implies class.holds(
            #[trigger] s[i],
        ) by {
            if i < rest.len() {
                assert(s[i] == rest[i]);
            }
        }
    }
}

/// What `trim_start` leaves is a suffix of `s` that does not start with a
/// character of the class, and everything it removed belongs to the class.
pub proof fn lemma_trim_start(s: Seq<char>, class: CharClass)
    ensures
        trim_start(s, class).is_suffix_of(s),
        trim_start(s, class).len() > 0 ==> !class.holds(trim_start(s, class).first()),
        forall|i: int|
            0 <= i < s.len() - trim_start(s, class).len() ==> class.holds(#[trigger] s[i]),
    decreases s.len(),
{
    if s.len() > 0 && class.holds(s.first()) {
        let rest = s.drop_first();
        lemma_trim_start(rest, class);
        let kept = trim_start(rest, class);
        let cut = rest.len() - kept.len();
        assert(kept =~= rest.skip(cut));
        assert(kept =~= s.skip(cut + 1));
        assert forall|i: int| 0 <= i < s.len() - kept.len() implies class.holds(
            #[trigger] s[i],
        ) by {
            if i > 0 {
                assert(s[i] == rest[i - 1]);
            }
        }
    } else {
        assert(s =~= s.skip(0));
    }
}

/// The characters of `s`, collected in order.
pub fn chars_of(s: &str) -> (v: Vec<char>)
    ensures
        v@ == s@,
{
    let mut v: Vec<char> = Vec::new();
    for c in it: s.chars()
        invariant
            it.seq() == s@,
            v@ == it.seq().take(it.index()),
    {
        v.push(c);
    }
    v
}

/// Tells whether `c` is white space.
pub fn white_space(c: char) -> (b: bool)
    ensures
        b == is_whitespace(c),
{
    let n: u32 = c as u32;
    (0x09 <= n && n <= 0x0D) || n == 0x20 || n == 0x85 || n == 0xA0 || n == 0x1680 || (0x2000 <= n
        && n <= 0x200A) || n == 0x2028 || n == 0x2029 || n == 0x202F || n == 0x205F || n == 0x3000
}

/// Tells whether `s` begins with `prefix`.
pub fn starts_with(s: &Vec<char>, prefix: &Vec<char>) -> (b: bool)
    ensures
        b == prefix@.is_prefix_of(s@),
{
    if prefix.len() > s.len() {
        return false;
    }
    let mut i: usize = 0;
    while i < prefix.len()
        invariant
            i <= prefix.len() <= s.len(),
            forall|j: int| 0 <= j < i ==> prefix@[j] == s@[j],
        decreases prefix.len() - i,
    {
        if prefix[i] != s[i] {
            return false;
        }
        i += 1;
    }
    assert(prefix@ =~= s@.subrange(0, prefix@.len() as int));
    true
}

/// The length of `chars[..end]` once the characters of `class` at its end
/// are gone.
pub fn trim_end_len(chars: &Vec<char>, end: usize, class: CharClass) -> (n: usize)
    requires
        end <= chars.len(),
    ensures
        n <= end,
        chars@.take(n as int) == trim_end(chars@.take(end as int), class),
{
    let mut n: usize = end;
    while n > 0 && class.contains(chars[n - 1])
        invariant
            n <= end <= chars.len(),
            trim_end(chars@.take(n as int), class) == trim_end(chars@.take(end as int), class),
        decreases n,
    {
        assert(chars@.take(n as int).drop_last() =~= chars@.take(n - 1));
        n -= 1;
    }
    n
}

/// The number of characters of `class` at the start of `chars[..end]`.
pub fn trim_start_len(chars: &Vec<char>, end: usize, class: CharClass) -> (n: usize)
    requires
        end <= chars.len(),
    ensures
        n <= end,
        chars@.subrange(n as int, end as int) == trim_start(chars@.take(end as int), class),
{
    let mut n: usize = 0;
    assert(chars@.subrange(0, end as int) =~= chars@.take(end as int));
    while n < end && class.contains(chars[n])
        invariant
            n <= end <= chars.len(),
            trim_start(chars@.subrange(n as int, end as int), class) == trim_start(
                chars@.take(end as int),
                class,
            ),
        decreases end - n,
    {
        assert(chars@.subrange(n as int, end as int).drop_first() =~= chars@.subrange(
            n + 1,
            end as int,
        ));
        n += 1;
    }
    n
}

} // verus!
