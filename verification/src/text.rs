//! Comparing paths as text.

use vstd::prelude::*;
use vstd::std_specs::iter::IteratorSpec;

verus! {

/// `a` and `b` agree on their first `k` characters, and there `a` ends
/// while `b` goes on, or `a` has the smaller character.
pub open spec fn precedes_at(a: Seq<char>, b: Seq<char>, k: int) -> bool {
    &&& 0 <= k <= a.len()
    &&& k < b.len()
    &&& a.take(k) == b.take(k)
    &&& (k == a.len() || (a[k] as u32) < (b[k] as u32))
}

/// `a` stands strictly before `b` in lexicographic order, characters being
/// compared by their code points.
pub open spec fn precedes(a: Seq<char>, b: Seq<char>) -> bool {
    exists|k: int| precedes_at(a, b, k)
}

/// `a` stands before `b` in lexicographic order, or is the same text.
pub open spec fn in_order(a: Seq<char>, b: Seq<char>) -> bool {
    a == b || precedes(a, b)
}

/// Two texts that agree up to `i` and are told apart there are ordered by
/// what stands at `i`, whatever follows.
pub proof fn lemma_decided_at(a: Seq<char>, b: Seq<char>, i: int)
    requires
        0 <= i <= a.len(),
        i <= b.len(),
        a.take(i) == b.take(i),
        i == a.len() || i == b.len() || a[i] != b[i],
    ensures
        precedes(a, b) <==> precedes_at(a, b, i),
        a == b <==> (i == a.len() && i == b.len()),
{
    if precedes(a, b) {
        let k = choose|k: int| precedes_at(a, b, k);
        if k < i {
            assert(a.take(i)[k] == a[k]);
            assert(b.take(i)[k] == b[k]);
        } else if k > i {
            assert(a.take(k)[i] == b.take(k)[i]);
        }
    }
    if i == a.len() && i == b.len() {
        assert(a.take(i) == a);
        assert(b.take(i) == b);
    }
}

/// Of two texts exactly one holds: they are equal, the first precedes the
/// second, or the second precedes the first.
pub proof fn lemma_order_total(a: Seq<char>, b: Seq<char>)
    ensures
        a == b || precedes(a, b) || precedes(b, a),
        !(precedes(a, b) && precedes(b, a)),
        !(a == b && precedes(a, b)),
{
    let i = common_prefix_len(a, b, 0);
    assert(a.take(0) =~= b.take(0));
    lemma_common_prefix(a, b, 0);
    lemma_decided_at(a, b, i);
    lemma_decided_at(b, a, i);
    if i < a.len() && i < b.len() {
        assert(a[i] != b[i]);
        vstd::utf8::char_u32_cast(a[i], a[i] as u32);
        vstd::utf8::char_u32_cast(b[i], b[i] as u32);
    }
}

/// The order is transitive.
pub proof fn lemma_order_transitive(a: Seq<char>, b: Seq<char>, c: Seq<char>)
    requires
        in_order(a, b),
        in_order(b, c),
    ensures
        in_order(a, c),
{
    if a != b && b != c {
        let i = choose|k: int| precedes_at(a, b, k);
        let j = choose|k: int| precedes_at(b, c, k);
        if i <= j {
            assert(a.take(i) =~= c.take(i)) by {
                assert forall|n: int| 0 <= n < i implies a[n] == c[n] by {
                    assert(a.take(i)[n] == b.take(i)[n]);
                    assert(b.take(j)[n] == c.take(j)[n]);
                }
            }
            if i < j {
                assert(b.take(j)[i] == c.take(j)[i]);
            }
            assert(precedes_at(a, c, i));
        } else {
            assert(a.take(j) =~= c.take(j)) by {
                assert forall|n: int| 0 <= n < j implies a[n] == c[n] by {
                    assert(a.take(i)[n] == b.take(i)[n]);
                    assert(b.take(j)[n] == c.take(j)[n]);
                }
            }
            assert(a.take(i)[j] == b.take(i)[j]);
            assert(precedes_at(a, c, j));
        }
    }
}

/// What stands strictly before a text stands strictly before every text
/// that follows it.
pub proof fn lemma_precedes_in_order(a: Seq<char>, b: Seq<char>, c: Seq<char>)
    requires
        precedes(a, b),
        in_order(b, c),
    ensures
        precedes(a, c),
{
    lemma_order_transitive(a, b, c);
    lemma_order_total(a, b);
    if a == c {
        lemma_order_total(b, a);
    }
}

/// How many characters from `from` on `a` and `b` have in common, added to `from`.
pub open spec fn common_prefix_len(a: Seq<char>, b: Seq<char>, from: int) -> int
    decreases a.len() - from,
{
    if 0 <= from < a.len() && from < b.len() && a[from] == b[from] {
        common_prefix_len(a, b, from + 1)
    } else {
        from
    }
}

proof fn lemma_common_prefix(a: Seq<char>, b: Seq<char>, from: int)
    requires
        0 <= from <= a.len(),
        from <= b.len(),
        a.take(from) == b.take(from),
    ensures
        from <= common_prefix_len(a, b, from) <= a.len(),
        common_prefix_len(a, b, from) <= b.len(),
        a.take(common_prefix_len(a, b, from)) == b.take(common_prefix_len(a, b, from)),
        ({
            let i = common_prefix_len(a, b, from);
            i == a.len() || i == b.len() || a[i] != b[i]
        }),
    decreases a.len() - from,
{
    if from < a.len() && from < b.len() && a[from] == b[from] {
        assert(a.take(from + 1) =~= a.take(from).push(a[from]));
        assert(b.take(from + 1) =~= b.take(from).push(b[from]));
        lemma_common_prefix(a, b, from + 1);
    }
}

/// `String::push` appends one character to the string.
pub assume_specification[ String::push ](s: &mut String, c: char)
    ensures
        final(s)@ == old(s)@.push(c),
;

/// The string made of `chars`.
pub fn string_of(chars: &Vec<char>) -> (s: String)
    ensures
        s@ == chars@,
{
    let mut s = String::new();
    let mut i: usize = 0;
    while i < chars.len()
        invariant
            i <= chars@.len(),
            s@ == chars@.take(i as int),
        decreases chars@.len() - i,
    {
        s.push(chars[i]);
        assert(chars@.take(i + 1) =~= chars@.take(i as int).push(chars@[i as int]));
        i += 1;
    }
    assert(chars@.take(i as int) =~= chars@);
    s
}

/// The characters of `s`, one by one.
pub fn chars_of(s: &str) -> (chars: Vec<char>)
    ensures
        chars@ == s@,
{
    let mut chars: Vec<char> = Vec::new();
    let mut rest = s.chars();
    loop
        invariant
            chars@.len() <= s@.len(),
            rest.obeys_prophetic_iter_laws(),
            rest.remaining() == s@.skip(chars@.len() as int),
            chars@ == s@.take(chars@.len() as int),
        decreases s@.len() - chars@.len(),
    {
        let ghost n = chars@.len() as int;
        match rest.next() {
            Some(c) => {
                proof {
                    assert(s@.take(n + 1) =~= s@.take(n).push(s@[n]));
                    assert(s@.skip(n).drop_first() =~= s@.skip(n + 1));
                }
                chars.push(c);
            },
            None => {
                assert(s@.take(n) =~= s@);
                return chars;
            },
        }
    }
}

/// The last component of a path: the characters after its last `/`.
pub open spec fn file_name(path: Seq<char>) -> Seq<char>
    decreases path.len(),
{
    if path.len() == 0 || path.last() == '/' {
        Seq::empty()
    } else {
        file_name(path.drop_last()).push(path.last())
    }
}

/// The name a path is shown under: its file name, or `Unknown` where the
/// path ends in a `/` or is empty.
pub open spec fn display_name(path: Seq<char>) -> Seq<char> {
    if file_name(path).len() == 0 {
        seq!['U', 'n', 'k', 'n', 'o', 'w', 'n']
    } else {
        file_name(path)
    }
}

/// The file name is the longest tail of the path that holds no `/`.
pub proof fn lemma_file_name(path: Seq<char>, start: int)
    requires
        0 <= start <= path.len(),
        forall|k: int| start <= k < path.len() ==> path[k] != '/',
        start == 0 || path[start - 1] == '/',
    ensures
        file_name(path) == path.skip(start),
    decreases path.len() - start,
{
    if start == path.len() {
        assert(path.skip(start) =~= Seq::empty());
    } else {
        let shorter = path.drop_last();
        lemma_file_name(shorter, start);
        assert(shorter.skip(start).push(path.last()) =~= path.skip(start));
    }
}

/// The name to show for `path`.
pub fn display_name_of(path: &str) -> (name: String)
    ensures
        name@ == display_name(path@),
{
    let chars = chars_of(path);
    let n = chars.len();
    let mut start: usize = n;
    while start > 0 && chars[start - 1] != '/'
        invariant
            start <= n,
            n == chars@.len(),
            forall|k: int| start <= k < n ==> chars@[k] != '/',
        decreases start,
    {
        start -= 1;
    }
    proof {
        lemma_file_name(path@, start as int);
    }
    if start == n {
        proof {
            reveal_strlit("Unknown");
        }
        let unknown = "Unknown".to_owned();
        assert(unknown@ =~= seq!['U', 'n', 'k', 'n', 'o', 'w', 'n']);
        unknown
    } else {
        path.substring_char(start, n).to_owned()
    }
}

/// Whether the two texts are the same.
pub fn same_text(a: &str, b: &str) -> (same: bool)
    ensures
        same == (a@ == b@),
{
    let mut rest_a = a.chars();
    let mut rest_b = b.chars();
    let ghost mut i: int = 0;
    loop
        invariant
            0 <= i <= a@.len(),
            i <= b@.len(),
            rest_a.obeys_prophetic_iter_laws(),
            rest_b.obeys_prophetic_iter_laws(),
            rest_a.remaining() == a@.skip(i),
            rest_b.remaining() == b@.skip(i),
            a@.take(i) == b@.take(i),
        decreases a@.len() - i,
    {
        let next_a = rest_a.next();
        let next_b = rest_b.next();
        match (next_a, next_b) {
            (Some(x), Some(y)) => {
                if x != y {
                    proof {
                        lemma_decided_at(a@, b@, i);
                    }
                    return false;
                }
                proof {
                    assert(a@.take(i + 1) =~= a@.take(i).push(a@[i]));
                    assert(b@.take(i + 1) =~= b@.take(i).push(b@[i]));
                    assert(a@.skip(i).drop_first() =~= a@.skip(i + 1));
                    assert(b@.skip(i).drop_first() =~= b@.skip(i + 1));
                    i = i + 1;
                }
            },
            (None, None) => {
                proof {
                    lemma_decided_at(a@, b@, i);
                }
                return true;
            },
            _ => {
                proof {
                    lemma_decided_at(a@, b@, i);
                }
                return false;
            },
        }
    }
}

/// Whether `a` stands strictly before `b`.
pub fn precedes_text(a: &str, b: &str) -> (before: bool)
    ensures
        before == precedes(a@, b@),
{
    let mut rest_a = a.chars();
    let mut rest_b = b.chars();
    let ghost mut i: int = 0;
    loop
        invariant
            0 <= i <= a@.len(),
            i <= b@.len(),
            rest_a.obeys_prophetic_iter_laws(),
            rest_b.obeys_prophetic_iter_laws(),
            rest_a.remaining() == a@.skip(i),
            rest_b.remaining() == b@.skip(i),
            a@.take(i) == b@.take(i),
        decreases a@.len() - i,
    {
        let next_a = rest_a.next();
        let next_b = rest_b.next();
        match (next_a, next_b) {
            (Some(x), Some(y)) => {
                if x != y {
                    proof {
                        lemma_decided_at(a@, b@, i);
                    }
                    return (x as u32) < (y as u32);
                }
                proof {
                    assert(a@.take(i + 1) =~= a@.take(i).push(a@[i]));
                    assert(b@.take(i + 1) =~= b@.take(i).push(b@[i]));
                    assert(a@.skip(i).drop_first() =~= a@.skip(i + 1));
                    assert(b@.skip(i).drop_first() =~= b@.skip(i + 1));
                    i = i + 1;
                }
            },
            (None, Some(_)) => {
                proof {
                    lemma_decided_at(a@, b@, i);
                }
                return true;
            },
            _ => {
                proof {
                    lemma_decided_at(a@, b@, i);
                }
                return false;
            },
        }
    }
}

} // verus!
