use vstd::prelude::*;
use crate::string_map::StringMap;

verus! {

/// Whether `s` begins with `p`.
pub open spec fn starts_with(s: Seq<char>, p: Seq<char>) -> bool {
    p.len() <= s.len() && s.take(p.len() as int) == p
}

/// The prefix of a long flag.
pub open spec fn long_prefix() -> Seq<char> {
    seq!['-', '-']
}

/// The value recorded for a flag given without a value.
pub open spec fn flag_value() -> Seq<char> {
    "true"@
}

/// The first position at or after `i` where `s` holds `c`.
pub open spec fn index_from(s: Seq<char>, c: char, i: int) -> Option<int>
    decreases s.len() - i,
{
    if i < 0 || i >= s.len() {
        None
    } else if s[i] == c {
        Some(i)
    } else {
        index_from(s, c, i + 1)
    }
}

/// A position that `index_from` gives lies in `s`, at or after `i`, and holds `c`.
pub proof fn lemma_index_from_bounds(s: Seq<char>, c: char, i: int)
    ensures
        match index_from(s, c, i) {
            Some(k) => i <= k < s.len() && s[k] == c,
            None => true,
        },
    decreases s.len() - i,
{
    if 0 <= i < s.len() && s[i] != c {
        lemma_index_from_bounds(s, c, i + 1);
    }
}

/// The first position where `s` holds `c`.
pub open spec fn index_of(s: Seq<char>, c: char) -> Option<int> {
    index_from(s, c, 0)
}

/// `m` with each character of `cs` recorded as a flag of its own.
pub open spec fn with_short_flags(m: Map<Seq<char>, Seq<char>>, cs: Seq<char>) -> Map<
    Seq<char>,
    Seq<char>,
>
    decreases cs.len(),
{
    if cs.len() == 0 {
        m
    } else {
        with_short_flags(m.insert(seq![cs[0]], flag_value()), cs.drop_first())
    }
}

/// What reading `toks` from position `i` on adds to `m`.
pub open spec fn tokenize_from(toks: Seq<Seq<char>>, i: int, m: Map<Seq<char>, Seq<char>>) -> Map<
    Seq<char>,
    Seq<char>,
>
    decreases toks.len() - i,
{
    if i < 0 || i >= toks.len() {
        m
    } else {
        let t = toks[i];
        if starts_with(t, long_prefix()) {
            let rest = t.skip(2);
            match index_of(rest, '=') {
                Some(e) => tokenize_from(toks, i + 1, m.insert(rest.take(e), rest.skip(e + 1))),
                None => if i + 1 < toks.len() && !starts_with(toks[i + 1], seq!['-']) {
                    tokenize_from(toks, i + 2, m.insert(rest, toks[i + 1]))
                } else {
                    tokenize_from(toks, i + 1, m.insert(rest, flag_value()))
                },
            }
        } else if starts_with(t, seq!['-']) {
            tokenize_from(toks, i + 1, with_short_flags(m, t.skip(1)))
        } else {
            tokenize_from(toks, i + 1, m)
        }
    }
}

/// The parameters that the tokens `toks` give.
pub open spec fn tokenize(toks: Seq<Seq<char>>) -> Map<Seq<char>, Seq<char>> {
    tokenize_from(toks, 0, Map::empty())
}

/// The characters of each string of `args`.
pub open spec fn strings_view(args: Seq<String>) -> Seq<Seq<char>> {
    args.map_values(|s: String| s@)
}

/// Recording the short flags `cs` in `m` is laying the flags recorded
/// alone over `m`.
pub proof fn lemma_short_flags_overlay(m: Map<Seq<char>, Seq<char>>, cs: Seq<char>)
    ensures
        with_short_flags(m, cs) == m.union_prefer_right(with_short_flags(Map::empty(), cs)),
    decreases cs.len(),
{
    if cs.len() > 0 {
        let k = seq![cs[0]];
        let rest = cs.drop_first();
        lemma_short_flags_overlay(m.insert(k, flag_value()), rest);
        lemma_short_flags_overlay(Map::empty().insert(k, flag_value()), rest);
        let w = with_short_flags(Map::empty(), rest);
        assert(m.insert(k, flag_value()).union_prefer_right(w) =~= m.union_prefer_right(
            Map::empty().insert(k, flag_value()).union_prefer_right(w),
        ));
    } else {
        assert(m.union_prefer_right(Map::empty()) =~= m);
    }
}

/// Reading `toks` from position `i` into `m` is laying what those tokens
/// give alone over `m`: the values written do not depend on `m`.
pub proof fn lemma_tokenize_overlay(toks: Seq<Seq<char>>, i: int, m: Map<Seq<char>, Seq<char>>)
    ensures
        tokenize_from(toks, i, m) == m.union_prefer_right(tokenize_from(toks, i, Map::empty())),
    decreases toks.len() - i,
{
    let e = Map::<Seq<char>, Seq<char>>::empty();
    if i < 0 || i >= toks.len() {
        assert(m.union_prefer_right(e) =~= m);
    } else {
        let t = toks[i];
        if starts_with(t, long_prefix()) {
            let rest = t.skip(2);
            let (k, v, j) = match index_of(rest, '=') {
                Some(x) => (rest.take(x), rest.skip(x + 1), i + 1),
                None => if i + 1 < toks.len() && !starts_with(toks[i + 1], seq!['-']) {
                    (rest, toks[i + 1], i + 2)
                } else {
                    (rest, flag_value(), i + 1)
                },
            };
            lemma_tokenize_overlay(toks, j, m.insert(k, v));
            lemma_tokenize_overlay(toks, j, e.insert(k, v));
            let w = tokenize_from(toks, j, e);
            assert(m.insert(k, v).union_prefer_right(w) =~= m.union_prefer_right(
                e.insert(k, v).union_prefer_right(w),
            ));
        } else if starts_with(t, seq!['-']) {
            let cs = t.skip(1);
            lemma_tokenize_overlay(toks, i + 1, with_short_flags(m, cs));
            lemma_tokenize_overlay(toks, i + 1, with_short_flags(e, cs));
            lemma_short_flags_overlay(m, cs);
            let f = with_short_flags(e, cs);
            let w = tokenize_from(toks, i + 1, e);
            assert(m.union_prefer_right(f).union_prefer_right(w) =~= m.union_prefer_right(
                f.union_prefer_right(w),
            ));
        } else {
            lemma_tokenize_overlay(toks, i + 1, m);
        }
    }
}

/// Tokenizing never fails, and it is idempotent on the map it built:
/// reading the same tokens again into that map leaves it as it is.
pub proof fn tokenize_idempotent(toks: Seq<Seq<char>>)
    ensures
        tokenize_from(toks, 0, tokenize(toks)) == tokenize(toks),
{
    let w = tokenize(toks);
    lemma_tokenize_overlay(toks, 0, w);
    assert(w.union_prefer_right(w) =~= w);
}

/// Whether `s` begins with `p`, character by character.
pub fn has_prefix(s: &str, p: &str) -> (r: bool)
    ensures
        r == starts_with(s@, p@),
{
    let n = s.unicode_len();
    let m = p.unicode_len();
    if m > n {
        return false;
    }
    let mut i: usize = 0;
    while i < m
        invariant
            n == s@.len(),
            m == p@.len(),
            m <= n,
            i <= m,
            s@.take(i as int) == p@.take(i as int),
        decreases m - i,
    {
        if s.get_char(i) != p.get_char(i) {
            assert(s@.take(m as int)[i as int] != p@[i as int]);
            return false;
        }
        assert(s@.take(i + 1) == s@.take(i as int).push(s@[i as int]));
        assert(p@.take(i + 1) == p@.take(i as int).push(p@[i as int]));
        i = i + 1;
    }
    assert(p@ == p@.take(m as int));
    true
}

/// The first position at or after `from` where `s` holds `c`.
fn find_char(s: &str, c: char, from: usize) -> (r: Option<usize>)
    requires
        from <= s@.len(),
    ensures
        match r {
            Some(i) => index_from(s@, c, from as int) == Some(i as int),
            None => index_from(s@, c, from as int) is None,
        },
{
    let n = s.unicode_len();
    let mut i: usize = from;
    while i < n
        invariant
            n == s@.len(),
            from <= i <= n,
            index_from(s@, c, from as int) == index_from(s@, c, i as int),
        decreases n - i,
    {
        if s.get_char(i) == c {
            return Some(i);
        }
        i = i + 1;
    }
    None
}

/// Records each character of `t` from position 1 on as a flag of its own.
fn insert_short_flags(params: &mut StringMap, t: &str)
    requires
        old(params).wf(),
        t@.len() >= 1,
    ensures
        final(params).wf(),
        final(params)@ == with_short_flags(old(params)@, t@.skip(1)),
{
    let ghost m0 = params@;
    let n = t.unicode_len();
    let mut j: usize = 1;
    while j < n
        invariant
            n == t@.len(),
            1 <= j <= n,
            params.wf(),
            with_short_flags(params@, t@.skip(j as int)) == with_short_flags(m0, t@.skip(1)),
        decreases n - j,
    {
        let key = t.substring_char(j, j + 1).to_owned();
        assert(key@ =~= seq![t@[j as int]]);
        assert(t@.skip(j as int)[0] == t@[j as int]);
        assert(t@.skip(j as int).drop_first() =~= t@.skip(j + 1));
        params.insert(key, String::from_str("true"));
        j = j + 1;
    }
    assert(t@.skip(n as int) =~= Seq::<char>::empty());
}

/// Turns command-line tokens into parameters: `--key=value`, `--key value`,
/// a bare `--flag` (recorded as `true`) and bundled short flags `-abc`. Other
/// tokens are passed over; a key given twice keeps its later value.
pub fn parse_query_params(args: &[String]) -> (params: StringMap)
    ensures
        params.wf(),
        params@ == tokenize(strings_view(args@)),
{
    let ghost toks = strings_view(args@);
    proof {
        reveal_strlit("--");
        reveal_strlit("-");
        assert(long_prefix() == "--"@);
        assert(seq!['-'] == "-"@);
    }
    let mut params = StringMap::new();
    let mut i: usize = 0;
    while i < args.len()
        invariant
            toks == strings_view(args@),
            long_prefix() == "--"@,
            seq!['-'] == "-"@,
            i <= args@.len(),
            params.wf(),
            tokenize_from(toks, i as int, params@) == tokenize(toks),
        decreases args@.len() - i,
    {
        let ghost m0 = params@;
        let t = args[i].as_str();
        assert(t@ == toks[i as int]);
        if has_prefix(t, "--") {
            let n = t.unicode_len();
            let rest = t.substring_char(2, n);
            assert(rest@ =~= toks[i as int].skip(2));
            match find_char(rest, '=', 0) {
                Some(e) => {
                    proof { lemma_index_from_bounds(rest@, '=', 0); }
                    let key = rest.substring_char(0, e).to_owned();
                    let value = rest.substring_char(e + 1, rest.unicode_len()).to_owned();
                    assert(key@ =~= rest@.take(e as int));
                    assert(value@ =~= rest@.skip(e + 1));
                    params.insert(key, value);
                    i = i + 1;
                },
                None => {
                    if i + 1 < args.len() && !has_prefix(args[i + 1].as_str(), "-") {
                        assert(args@[i + 1]@ == toks[i + 1]);
                        params.insert(rest.to_owned(), args[i + 1].clone());
                        i = i + 2;
                    } else {
                        proof {
                            if i + 1 < args@.len() {
                                assert(args@[i + 1]@ == toks[i + 1]);
                            }
                        }
                        params.insert(rest.to_owned(), String::from_str("true"));
                        i = i + 1;
                    }
                },
            }
        } else if has_prefix(t, "-") {
            insert_short_flags(&mut params, t);
            i = i + 1;
        } else {
            i = i + 1;
        }
    }
    params
}

} // verus!
