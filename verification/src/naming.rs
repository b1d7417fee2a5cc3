use vstd::prelude::*;

verus! {

/// Whether `c` is an ASCII letter or digit.
pub open spec fn is_ascii_alphanumeric(c: char) -> bool {
    ('0' <= c && c <= '9') || ('a' <= c && c <= 'z') || ('A' <= c && c <= 'Z')
}

/// `c` if it is safe in a file name (an ASCII letter or digit, `-`, `_` or `.`), else `_`.
pub open spec fn safe_char(c: char) -> char {
    if is_ascii_alphanumeric(c) || c == '-' || c == '_' || c == '.' {
        c
    } else {
        '_'
    }
}

/// `s` with every character that is not safe in a file name replaced by `_`.
pub fn sanitize(s: &str) -> (r: Vec<char>)
    ensures
        r@ == s@.map_values(|c: char| safe_char(c)),
{
    let mut r: Vec<char> = Vec::new();
    for c in it: s.chars()
        invariant
            it.seq() == s@,
            r@ == s@.take(it.index() as int).map_values(|c: char| safe_char(c)),
    {
        let alnum = ('0' <= c && c <= '9') || ('a' <= c && c <= 'z') || ('A' <= c && c <= 'Z');
        let ok = alnum || c == '-' || c == '_' || c == '.';
        r.push(if ok { c } else { '_' });
    }
    r
}

/// Whether `p` stands in `s` from position `i` on.
pub open spec fn matches_at(s: Seq<char>, p: Seq<char>, i: int) -> bool {
    0 <= i && i + p.len() <= s.len() && s.subrange(i, i + p.len()) == p
}

/// Whether `s` holds `p` somewhere.
pub open spec fn contains_chars(s: Seq<char>, p: Seq<char>) -> bool {
    exists|i: int| #[trigger] matches_at(s, p, i)
}

/// Whether the file `name` is a test program of `suite` to run: its name starts with the
/// suite's name and `-`, it is no disassembly or hex dump (`.dump`, `.hex`, `.objdump`), and
/// it holds `filter` where one is given.
pub open spec fn is_test_file_spec(name: Seq<char>, suite: Seq<char>, filter: Option<Seq<char>>) -> bool {
    &&& matches_at(name, suite.push('-'), 0)
    &&& !matches_at(name, seq!['.', 'd', 'u', 'm', 'p'], name.len() - 5)
    &&& !matches_at(name, seq!['.', 'h', 'e', 'x'], name.len() - 4)
    &&& !matches_at(name, seq!['.', 'o', 'b', 'j', 'd', 'u', 'm', 'p'], name.len() - 8)
    &&& match filter {
        Some(f) => contains_chars(name, f),
        None => true,
    }
}

fn chars_of(s: &str) -> (r: Vec<char>)
    ensures
        r@ == s@,
{
    let mut r: Vec<char> = Vec::new();
    for c in it: s.chars()
        invariant
            it.seq() == s@,
            r@ == s@.take(it.index() as int),
    {
        r.push(c);
    }
    r
}

fn matches_at_exec(s: &Vec<char>, p: &Vec<char>, i: usize) -> (b: bool)
    ensures
        b == matches_at(s@, p@, i as int),
{
    if i > s.len() || p.len() > s.len() - i {
        return false;
    }
    let s_len = s.len();
    let mut j: usize = 0;
    while j < p.len()
        invariant
            s_len == s@.len(),
            i + p@.len() <= s@.len(),
            j <= p@.len(),
            forall|k: int| 0 <= k < j ==> s@[i + k] == p@[k],
        decreases p@.len() - j,
    {
        if s[i + j] != p[j] {
            assert(s@.subrange(i as int, i + p@.len())[j as int] != p@[j as int]);
            return false;
        }
        j = j + 1;
    }
    assert(s@.subrange(i as int, i + p@.len()) =~= p@);
    true
}

fn ends_with_exec(s: &Vec<char>, p: &Vec<char>) -> (b: bool)
    ensures
        b == matches_at(s@, p@, s@.len() - p@.len()),
{
    if p.len() > s.len() {
        return false;
    }
    matches_at_exec(s, p, s.len() - p.len())
}

fn contains_exec(s: &Vec<char>, p: &Vec<char>) -> (b: bool)
    ensures
        b == contains_chars(s@, p@),
{
    if p.len() > s.len() {
        return false;
    }
    let last = s.len() - p.len();
    let mut i: usize = 0;
    loop
        invariant
            last == s@.len() - p@.len(),
            p@.len() <= s@.len(),
            i <= last,
            forall|q: int| 0 <= q < i ==> !#[trigger] matches_at(s@, p@, q),
        decreases last - i,
    {
        if matches_at_exec(s, p, i) {
            return true;
        }
        if i == last {
            return false;
        }
        i = i + 1;
    }
}

/// Whether the file `name` is a test program of `suite` to run (see `is_test_file_spec`).
pub fn is_test_file(name: &str, suite: &str, filter: Option<&str>) -> (b: bool)
    ensures
        b == is_test_file_spec(name@, suite@, match filter {
            Some(f) => Some(f@),
            None => None,
        }),
{
    let n = chars_of(name);
    let mut prefix = chars_of(suite);
    prefix.push('-');
    if !matches_at_exec(&n, &prefix, 0) {
        return false;
    }
    let dump = vec!['.', 'd', 'u', 'm', 'p'];
    let hex = vec!['.', 'h', 'e', 'x'];
    let objdump = vec!['.', 'o', 'b', 'j', 'd', 'u', 'm', 'p'];
    if ends_with_exec(&n, &dump) || ends_with_exec(&n, &hex) || ends_with_exec(&n, &objdump) {
        return false;
    }
    match filter {
        Some(f) => contains_exec(&n, &chars_of(f)),
        None => true,
    }
}

/// Whether `a` comes strictly before `b` in lexicographic order of characters.
pub open spec fn lex_lt(a: Seq<char>, b: Seq<char>) -> bool
    decreases a.len(),
{
    if a.len() == 0 {
        b.len() > 0
    } else if b.len() == 0 {
        false
    } else if a[0] != b[0] {
        a[0] < b[0]
    } else {
        lex_lt(a.drop_first(), b.drop_first())
    }
}

/// Lexicographic order is a strict total order.
pub proof fn lemma_lex_order(a: Seq<char>, b: Seq<char>, c: Seq<char>)
    ensures
        !lex_lt(a, a),
        lex_lt(a, b) ==> !lex_lt(b, a),
        a != b ==> lex_lt(a, b) || lex_lt(b, a),
        lex_lt(a, b) && lex_lt(b, c) ==> lex_lt(a, c),
    decreases a.len(),
{
    if a.len() > 0 {
        lemma_lex_order(a.drop_first(), b.drop_first(), c.drop_first());
        if b.len() > 0 && a[0] == b[0] && a.drop_first() == b.drop_first() {
            assert forall|k: int| 0 <= k < a.len() implies a[k] == b[k] by {
                if k > 0 {
                    assert(a[k] == a.drop_first()[k - 1]);
                    assert(b[k] == b.drop_first()[k - 1]);
                }
            }
            assert(a =~= b);
        }
    } else if b.len() == 0 {
        assert(a =~= b);
    }
}

proof fn lemma_lex_skip(a: Seq<char>, b: Seq<char>, i: int)
    requires
        0 <= i <= a.len(),
        i <= b.len(),
        a.subrange(0, i) == b.subrange(0, i),
    ensures
        lex_lt(a, b) == lex_lt(a.subrange(i, a.len() as int), b.subrange(i, b.len() as int)),
    decreases i,
{
    if i == 0 {
        assert(a.subrange(0, a.len() as int) =~= a);
        assert(b.subrange(0, b.len() as int) =~= b);
    } else {
        assert(a[0] == a.subrange(0, i)[0]);
        assert(b[0] == b.subrange(0, i)[0]);
        assert(a.drop_first().subrange(0, i - 1) =~= b.drop_first().subrange(0, i - 1)) by {
            assert forall|k: int| 0 <= k < i - 1 implies a.drop_first()[k] == b.drop_first()[k] by {
                assert(a.subrange(0, i)[k + 1] == b.subrange(0, i)[k + 1]);
                assert(a.drop_first()[k] == a[k + 1]);
                assert(b.drop_first()[k] == b[k + 1]);
                assert(a.subrange(0, i)[k + 1] == a[k + 1]);
                assert(b.subrange(0, i)[k + 1] == b[k + 1]);
            }
        }
        lemma_lex_skip(a.drop_first(), b.drop_first(), i - 1);
        assert(a.drop_first().subrange(i - 1, a.len() - 1) =~= a.subrange(i, a.len() as int));
        assert(b.drop_first().subrange(i - 1, b.len() - 1) =~= b.subrange(i, b.len() as int));
    }
}

fn lex_less(a: &Vec<char>, b: &Vec<char>) -> (r: bool)
    ensures
        r == lex_lt(a@, b@),
{
    let mut i: usize = 0;
    while i < a.len() && i < b.len()
        invariant
            i <= a@.len(),
            i <= b@.len(),
            a@.subrange(0, i as int) == b@.subrange(0, i as int),
        decreases a@.len() - i,
    {
        if a[i] != b[i] {
            proof {
                lemma_lex_skip(a@, b@, i as int);
                let x = a@.subrange(i as int, a@.len() as int);
                let y = b@.subrange(i as int, b@.len() as int);
                assert(x[0] == a@[i as int] && y[0] == b@[i as int]);
            }
            return a[i] < b[i];
        }
        assert(a@.subrange(0, i + 1) =~= b@.subrange(0, i + 1)) by {
            assert forall|k: int| 0 <= k < i + 1 implies a@[k] == b@[k] by {
                if k < i {
                    assert(a@.subrange(0, i as int)[k] == b@.subrange(0, i as int)[k]);
                }
            }
        }
        i = i + 1;
    }
    proof {
        lemma_lex_skip(a@, b@, i as int);
    }
    i == a.len() && i < b.len()
}

/// Whether `s` lists names in strictly increasing order (so each at most once).
pub open spec fn strictly_sorted(s: Seq<Seq<char>>) -> bool {
    forall|i: int, j: int| 0 <= i < j < s.len() ==> lex_lt(#[trigger] s[i], #[trigger] s[j])
}

/// The names that the indices `out` pick from `names`.
pub open spec fn picked(names: Seq<String>, out: Seq<usize>) -> Seq<Seq<char>> {
    out.map_values(|k: usize| names[k as int]@)
}

proof fn lemma_insert_sorted(s: Seq<Seq<char>>, p: int, key: Seq<char>)
    requires
        strictly_sorted(s),
        0 <= p <= s.len(),
        forall|k: int| 0 <= k < p ==> lex_lt(#[trigger] s[k], key),
        p < s.len() ==> lex_lt(key, s[p]),
    ensures
        strictly_sorted(s.insert(p, key)),
{
    let t = s.insert(p, key);
    assert forall|a: int, b: int| 0 <= a < b < t.len() implies lex_lt(#[trigger] t[a], #[trigger] t[b]) by {
        if b < p {
            assert(t[a] == s[a] && t[b] == s[b]);
        } else if b == p {
            assert(t[a] == s[a]);
        } else if a < p {
            assert(t[b] == s[b - 1] && t[a] == s[a]);
            lemma_lex_order(s[a], key, s[b - 1]);
        } else if a == p {
            assert(t[b] == s[b - 1]);
            if b - 1 > p {
                lemma_lex_order(key, s[p], s[b - 1]);
            }
        } else {
            assert(t[b] == s[b - 1] && t[a] == s[a - 1]);
        }
    }
}

/// Whether the test programs among the first `i` names are the ones `out` picks, each once
/// and in increasing order.
#[verifier::opaque]
pub open spec fn selection_inv(names: Seq<String>, suite: Seq<char>, fl: Option<Seq<char>>, out: Seq<usize>, i: int) -> bool {
    &&& forall|k: int| 0 <= k < out.len() ==> #[trigger] out[k] < i
    &&& strictly_sorted(picked(names, out))
    &&& forall|k: int| 0 <= k < out.len() ==> is_test_file_spec(#[trigger] names[out[k] as int]@, suite, fl)
    &&& forall|j: int|
        0 <= j < i && is_test_file_spec(#[trigger] names[j]@, suite, fl) ==> exists|k: int|
            0 <= k < out.len() && names[out[k] as int]@ == names[j]@
}

proof fn lemma_selection_insert(names: Seq<String>, suite: Seq<char>, fl: Option<Seq<char>>, out: Seq<usize>, i: int, p: int)
    requires
        0 <= i < names.len(),
        i <= usize::MAX,
        selection_inv(names, suite, fl, out, i),
        is_test_file_spec(names[i]@, suite, fl),
        0 <= p <= out.len(),
        forall|k: int| 0 <= k < p ==> lex_lt(#[trigger] picked(names, out)[k], names[i]@),
        p < out.len() ==> lex_lt(names[i]@, picked(names, out)[p]),
    ensures
        selection_inv(names, suite, fl, out.insert(p, i as usize), i + 1),
{
    reveal(selection_inv);
    let o2 = out.insert(p, i as usize);
    assert(picked(names, o2) =~= picked(names, out).insert(p, names[i]@));
    lemma_insert_sorted(picked(names, out), p, names[i]@);
    assert forall|k: int| 0 <= k < o2.len() implies #[trigger] o2[k] < i + 1 by {
        if k < p {
            assert(o2[k] == out[k]);
        } else if k > p {
            assert(o2[k] == out[k - 1]);
        }
    }
    assert forall|k: int| 0 <= k < o2.len() implies is_test_file_spec(#[trigger] names[o2[k] as int]@, suite, fl) by {
        if k < p {
            assert(o2[k] == out[k]);
        } else if k > p {
            assert(o2[k] == out[k - 1]);
        }
    }
    assert forall|j: int|
        0 <= j < i + 1 && is_test_file_spec(#[trigger] names[j]@, suite, fl) implies exists|k: int|
            0 <= k < o2.len() && names[o2[k] as int]@ == names[j]@ by {
        if j < i {
            let k0 = choose|k: int| 0 <= k < out.len() && names[out[k] as int]@ == names[j]@;
            if k0 < p {
                assert(o2[k0] == out[k0]);
            } else {
                assert(o2[k0 + 1] == out[k0]);
            }
        } else {
            assert(o2[p] == i);
        }
    }
}

proof fn lemma_selection_skip(names: Seq<String>, suite: Seq<char>, fl: Option<Seq<char>>, out: Seq<usize>, i: int)
    requires
        0 <= i < names.len(),
        selection_inv(names, suite, fl, out, i),
        is_test_file_spec(names[i]@, suite, fl) ==> exists|k: int|
            0 <= k < out.len() && names[out[k] as int]@ == names[i]@,
    ensures
        selection_inv(names, suite, fl, out, i + 1),
{
    reveal(selection_inv);
    assert forall|j: int|
        0 <= j < i + 1 && is_test_file_spec(#[trigger] names[j]@, suite, fl) implies exists|k: int|
            0 <= k < out.len() && names[out[k] as int]@ == names[j]@ by {
        if j == i {
        }
    }
}

proof fn lemma_selection_facts(names: Seq<String>, suite: Seq<char>, fl: Option<Seq<char>>, out: Seq<usize>, i: int)
    requires
        selection_inv(names, suite, fl, out, i),
    ensures
        forall|k: int| 0 <= k < out.len() ==> #[trigger] out[k] < i,
        i == names.len() ==> {
            &&& strictly_sorted(picked(names, out))
            &&& forall|k: int| 0 <= k < out.len() ==> is_test_file_spec(#[trigger] names[out[k] as int]@, suite, fl)
            &&& forall|j: int|
                0 <= j < names.len() && is_test_file_spec(#[trigger] names[j]@, suite, fl) ==> exists|k: int|
                    0 <= k < out.len() && names[out[k] as int]@ == names[j]@
        },
{
    reveal(selection_inv);
}

/// The test programs of `suite` among the file names `names` (see `is_test_file_spec`), each
/// once, in increasing order, given as indices into `names`.
pub fn select_tests(names: &Vec<String>, suite: &str, filter: Option<&str>) -> (out: Vec<usize>)
    ensures
        forall|k: int| 0 <= k < out@.len() ==> #[trigger] out@[k] < names@.len(),
        strictly_sorted(picked(names@, out@)),
        forall|k: int|
            0 <= k < out@.len() ==> is_test_file_spec(
                #[trigger] names@[out@[k] as int]@,
                suite@,
                match filter {
                    Some(f) => Some(f@),
                    None => None,
                },
            ),
        forall|i: int|
            0 <= i < names@.len() && is_test_file_spec(
                #[trigger] names@[i]@,
                suite@,
                match filter {
                    Some(f) => Some(f@),
                    None => None,
                },
            ) ==> exists|k: int| 0 <= k < out@.len() && names@[out@[k] as int]@ == names@[i]@,
{
    let ghost fl = match filter {
        Some(f) => Some(f@),
        None => None,
    };
    let mut out: Vec<usize> = Vec::new();
    let mut i: usize = 0;
    proof {
        reveal(selection_inv);
    }
    while i < names.len()
        invariant
            i <= names@.len(),
            fl == (match filter {
                Some(f) => Some(f@),
                None => None,
            }),
            selection_inv(names@, suite@, fl, out@, i as int),
        decreases names@.len() - i,
    {
        let name = names[i].as_str();
        proof {
            lemma_selection_facts(names@, suite@, fl, out@, i as int);
        }
        if is_test_file(name, suite, filter) {
            let key = chars_of(name);
            let mut p: usize = 0;
            let mut stop = false;
            let mut dup = false;
            while p < out.len() && !stop
                invariant
                    p <= out@.len(),
                    forall|k: int| 0 <= k < out@.len() ==> #[trigger] out@[k] < i,
                    i < names@.len(),
                    key@ == names@[i as int]@,
                    forall|k: int| 0 <= k < p ==> lex_lt(#[trigger] picked(names@, out@)[k], key@),
                    stop ==> p < out@.len() && !lex_lt(picked(names@, out@)[p as int], key@),
                    dup ==> stop && picked(names@, out@)[p as int] == key@,
                    stop && !dup ==> lex_lt(key@, picked(names@, out@)[p as int]),
                decreases out@.len() - p + (if stop { 0int } else { 1int }),
            {
                let other = chars_of(names[out[p]].as_str());
                assert(other@ == picked(names@, out@)[p as int]);
                if lex_less(&other, &key) {
                    p = p + 1;
                } else {
                    stop = true;
                    dup = !lex_less(&key, &other);
                    proof {
                        lemma_lex_order(key@, other@, key@);
                    }
                }
            }
            if !dup {
                proof {
                    lemma_selection_insert(names@, suite@, fl, out@, i as int, p as int);
                }
                out.insert(p, i);
            } else {
                proof {
                    let k = p as int;
                    assert(names@[out@[k] as int]@ == names@[i as int]@);
                    lemma_selection_skip(names@, suite@, fl, out@, i as int);
                }
            }
        } else {
            proof {
                lemma_selection_skip(names@, suite@, fl, out@, i as int);
            }
        }
        i = i + 1;
    }
    proof {
        lemma_selection_facts(names@, suite@, fl, out@, i as int);
    }
    out
}

} // verus!
