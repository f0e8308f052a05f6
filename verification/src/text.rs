use vstd::prelude::*;
use vstd::string::StrSliceExecFns;

verus! {

/// Whether `c` has Unicode's White_Space property, the property that
/// `char::is_whitespace` answers: tab, line feed, vertical tab, form feed,
/// carriage return, space, next line, no-break space, ogham space mark, the
/// spaces from en quad to hair space, line and paragraph separators, narrow
/// no-break space, medium mathematical space and ideographic space.
pub open spec fn is_white_space(c: char) -> bool {
    ||| '\u{9}' <= c <= '\u{d}'
    ||| c == '\u{20}'
    ||| c == '\u{85}'
    ||| c == '\u{a0}'
    ||| c == '\u{1680}'
    ||| '\u{2000}' <= c <= '\u{200a}'
    ||| c == '\u{2028}'
    ||| c == '\u{2029}'
    ||| c == '\u{202f}'
    ||| c == '\u{205f}'
    ||| c == '\u{3000}'
}

/// Whether `c` is whitespace (`char::is_whitespace`).
pub fn char_is_whitespace(c: char) -> (ws: bool)
    ensures
        ws == is_white_space(c),
{
    ('\u{9}' <= c && c <= '\u{d}') || c == '\u{20}' || c == '\u{85}' || c == '\u{a0}'
        || c == '\u{1680}' || ('\u{2000}' <= c && c <= '\u{200a}') || c == '\u{2028}'
        || c == '\u{2029}' || c == '\u{202f}' || c == '\u{205f}' || c == '\u{3000}'
}

/// The characters of `s`, collected.
pub fn chars_of(s: &str) -> (v: Vec<char>)
    ensures
        v@ == s@,
{
    broadcast use vstd::string::group_string_axioms;

    let mut v: Vec<char> = Vec::new();
    let mut it = s.chars();
    loop
        invariant
            v@ + vstd::std_specs::iter::IteratorSpec::remaining(&it) == s@,
            vstd::std_specs::iter::IteratorSpec::obeys_prophetic_iter_laws(&it),
            vstd::std_specs::iter::IteratorSpec::decrease(&it) is Some,
        ensures
            v@ == s@,
        decreases vstd::std_specs::iter::IteratorSpec::decrease(&it)->0,
    {
        match it.next() {
            Some(c) => {
                v.push(c);
            },
            None => {
                break;
            },
        }
    }
    v
}

/// `s` without its leading whitespace.
pub open spec fn trim_start_ws(s: Seq<char>) -> Seq<char>
    decreases s.len(),
{
    if s.len() > 0 && is_white_space(s[0]) {
        trim_start_ws(s.drop_first())
    } else {
        s
    }
}

/// `s` without its trailing whitespace.
pub open spec fn trim_end_ws(s: Seq<char>) -> Seq<char>
    decreases s.len(),
{
    if s.len() > 0 && is_white_space(s.last()) {
        trim_end_ws(s.drop_last())
    } else {
        s
    }
}

/// `s` without leading and trailing whitespace, as `str::trim` gives it.
pub open spec fn trim_ws(s: Seq<char>) -> Seq<char> {
    trim_end_ws(trim_start_ws(s))
}

/// A character that pads the end of a decoded message buffer: NUL or
/// whitespace.
pub open spec fn is_padding(c: char) -> bool {
    c == '\0' || is_white_space(c)
}

/// `s` without its trailing padding characters.
pub open spec fn trim_end_padding(s: Seq<char>) -> Seq<char>
    decreases s.len(),
{
    if s.len() > 0 && is_padding(s.last()) {
        trim_end_padding(s.drop_last())
    } else {
        s
    }
}

/// Trimming the end of a sequence with one more character in front: the
/// character stays in front of what is left, unless nothing else is left and
/// it is whitespace itself.
pub proof fn lemma_trim_end_ws_cons(c: char, s: Seq<char>)
    ensures
        trim_end_ws(seq![c] + s) == (if trim_end_ws(s).len() > 0 {
            seq![c] + trim_end_ws(s)
        } else if is_white_space(c) {
            Seq::<char>::empty()
        } else {
            seq![c]
        }),
    decreases s.len(),
{
    let cs = seq![c] + s;
    if s.len() == 0 {
        assert(cs =~= seq![c]);
        assert(cs.drop_last() =~= Seq::<char>::empty());
        assert(trim_end_ws(Seq::<char>::empty()) == Seq::<char>::empty());
        assert(trim_end_ws(s) == s);
        assert(cs.last() == c);
    } else {
        assert(cs.last() == s.last());
        if is_white_space(s.last()) {
            assert(cs.drop_last() =~= seq![c] + s.drop_last());
            lemma_trim_end_ws_cons(c, s.drop_last());
            assert(trim_end_ws(cs) == trim_end_ws(cs.drop_last()));
            assert(trim_end_ws(s) == trim_end_ws(s.drop_last()));
        } else {
            assert(trim_end_ws(s) == s);
            assert(trim_end_ws(cs) == cs);
        }
    }
}

/// Trimming the start and trimming the end can be done in either order.
pub proof fn lemma_trim_commute(s: Seq<char>)
    ensures
        trim_start_ws(trim_end_ws(s)) == trim_end_ws(trim_start_ws(s)),
    decreases s.len(),
{
    if s.len() > 0 {
        let c = s[0];
        let rest = s.drop_first();
        assert(s =~= seq![c] + rest);
        lemma_trim_end_ws_cons(c, rest);
        if is_white_space(c) {
            lemma_trim_commute(rest);
            if trim_end_ws(rest).len() > 0 {
                assert((seq![c] + trim_end_ws(rest)).drop_first() =~= trim_end_ws(rest));
            }
        } else {
            let e = trim_end_ws(s);
            assert(e.len() > 0 && e[0] == c);
        }
    }
}

/// What trimming the end leaves does not end in whitespace.
proof fn lemma_trim_end_ws_ends(s: Seq<char>)
    ensures
        trim_end_ws(s).len() == 0 || !is_white_space(trim_end_ws(s).last()),
    decreases s.len(),
{
    if s.len() > 0 && is_white_space(s.last()) {
        lemma_trim_end_ws_ends(s.drop_last());
    }
}

/// Trimming the end twice is trimming it once.
pub proof fn lemma_trim_end_ws_idempotent(s: Seq<char>)
    ensures
        trim_end_ws(trim_end_ws(s)) == trim_end_ws(s),
{
    lemma_trim_end_ws_ends(s);
}

/// Trimming a sequence whose end was already trimmed trims it as the
/// sequence itself.
pub proof fn lemma_trim_ws_of_trimmed_end(s: Seq<char>)
    ensures
        trim_ws(trim_end_ws(s)) == trim_ws(s),
{
    lemma_trim_commute(s);
    lemma_trim_end_ws_idempotent(trim_start_ws(s));
}

/// On a sequence without NUL characters, the padding trimmed off its end is
/// its trailing whitespace.
pub proof fn lemma_trim_end_padding_nul_free(s: Seq<char>)
    requires
        forall|i: int| 0 <= i < s.len() ==> s[i] != '\0',
    ensures
        trim_end_padding(s) == trim_end_ws(s),
    decreases s.len(),
{
    if s.len() > 0 {
        assert(s.last() == s[s.len() - 1]);
        if is_white_space(s.last()) {
            lemma_trim_end_padding_nul_free(s.drop_last());
        }
    }
}

/// The characters of `s` from index `from` to index `to`, as a new string.
pub fn substring(s: &str, from: usize, to: usize) -> (r: String)
    requires
        from <= to <= s@.len(),
    ensures
        r@ == s@.subrange(from as int, to as int),
{
    s.substring_char(from, to).to_owned()
}

/// `s` without leading and trailing whitespace (`str::trim`).
pub fn trim(s: &str) -> (r: String)
    ensures
        r@ == trim_ws(s@),
{
    let v = chars_of(s);
    let n = v.len();
    let mut a: usize = 0;
    assert(s@.subrange(0, n as int) =~= s@);
    while a < n && char_is_whitespace(v[a])
        invariant
            a <= n,
            n == v@.len(),
            v@ == s@,
            trim_start_ws(s@) == trim_start_ws(s@.subrange(a as int, n as int)),
        decreases n - a,
    {
        assert(s@.subrange(a as int, n as int).drop_first() =~= s@.subrange(a + 1, n as int));
        a = a + 1;
    }
    assert(trim_start_ws(s@) == s@.subrange(a as int, n as int));
    let mut b: usize = n;
    while b > a && char_is_whitespace(v[b - 1])
        invariant
            a <= b <= n,
            n == v@.len(),
            v@ == s@,
            trim_ws(s@) == trim_end_ws(s@.subrange(a as int, b as int)),
        decreases b - a,
    {
        assert(s@.subrange(a as int, b as int).drop_last() =~= s@.subrange(a as int, b - 1));
        b = b - 1;
    }
    substring(s, a, b)
}

/// `s` without trailing NUL and whitespace characters
/// (`str::trim_end_matches` with that predicate).
pub fn trim_end_padding_of(s: &str) -> (r: String)
    ensures
        r@ == trim_end_padding(s@),
{
    let v = chars_of(s);
    let n = v.len();
    let mut b: usize = n;
    assert(s@.subrange(0, n as int) =~= s@);
    while b > 0 && (v[b - 1] == '\0' || char_is_whitespace(v[b - 1]))
        invariant
            b <= n,
            n == v@.len(),
            v@ == s@,
            trim_end_padding(s@) == trim_end_padding(s@.subrange(0, b as int)),
        decreases b,
    {
        assert(s@.subrange(0, b as int).drop_last() =~= s@.subrange(0, b - 1));
        b = b - 1;
    }
    substring(s, 0, b)
}

/// The marker that separates an AIS sentence from its timestamp.
pub open spec fn marker() -> Seq<char> {
    seq!['T', 'I', 'M', 'E', 'S', 'T', 'A', 'M', 'P']
}

/// The marker starts at index `i` of `s`.
pub open spec fn marker_at(s: Seq<char>, i: int) -> bool {
    0 <= i && i + marker().len() <= s.len() && s.subrange(i, i + marker().len()) == marker()
}

/// `s` holds the marker somewhere.
pub open spec fn has_marker(s: Seq<char>) -> bool {
    exists|i: int| marker_at(s, i)
}

/// The marker starts at `i` and nowhere before.
pub open spec fn is_first_marker(s: Seq<char>, i: int) -> bool {
    marker_at(s, i) && forall|j: int| 0 <= j < i ==> !marker_at(s, j)
}

/// Where the marker first starts in `s`.
pub open spec fn first_marker(s: Seq<char>) -> int {
    choose|i: int| is_first_marker(s, i)
}

/// The first occurrence of the marker is unique.
pub proof fn lemma_first_marker(s: Seq<char>, i: int)
    requires
        is_first_marker(s, i),
    ensures
        first_marker(s) == i,
        has_marker(s),
{
    let k = first_marker(s);
    assert(is_first_marker(s, k));
    if k < i {
        assert(!marker_at(s, k));
    } else if i < k {
        assert(!marker_at(s, i));
    }
}

/// Whether the marker starts at index `i` of `v`.
fn marker_at_exec(v: &Vec<char>, i: usize) -> (b: bool)
    requires
        i + 9 <= v@.len(),
    ensures
        b == marker_at(v@, i as int),
{
    let n = v.len();
    assert(i + 9 <= n);
    let b = v[i] == 'T' && v[i + 1] == 'I' && v[i + 2] == 'M' && v[i + 3] == 'E' && v[i + 4] == 'S'
        && v[i + 5] == 'T' && v[i + 6] == 'A' && v[i + 7] == 'M' && v[i + 8] == 'P';
    if b {
        assert(v@.subrange(i as int, i + 9) =~= marker());
    } else {
        proof {
            let w = v@.subrange(i as int, i + 9);
            if w == marker() {
                assert(w[0] == 'T' && w[1] == 'I' && w[2] == 'M' && w[3] == 'E' && w[4] == 'S');
                assert(w[5] == 'T' && w[6] == 'A' && w[7] == 'M' && w[8] == 'P');
            }
        }
    }
    b
}

/// Where the marker first starts in `v`, if it occurs.
pub fn find_marker(v: &Vec<char>) -> (r: Option<usize>)
    ensures
        match r {
            Some(i) => is_first_marker(v@, i as int),
            None => !has_marker(v@),
        },
{
    let n = v.len();
    if n < 9 {
        assert forall|i: int| !marker_at(v@, i) by {}
        return None;
    }
    let mut i: usize = 0;
    while i <= n - 9
        invariant
            n == v@.len(),
            n >= 9,
            i <= n - 8,
            forall|j: int| 0 <= j < i ==> !marker_at(v@, j),
        decreases n - i,
    {
        if marker_at_exec(v, i) {
            return Some(i);
        }
        i = i + 1;
    }
    assert forall|j: int| !marker_at(v@, j) by {
        if 0 <= j && j < i {
        }
    }
    None
}

} // verus!
