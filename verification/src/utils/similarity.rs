//! Tokens of a route or endpoint path, and the overlap of two token sets.
use vstd::prelude::*;

use crate::text::{
    ascii_lower, chars_equal_str, chars_of, char_len_utf8, char_utf8_len, is_digit, lower_chars,
    push_char, push_str, string_from_chars, trim, trim_chars, utf8_len, views,
};
use crate::utils::urls::{has_no_colon, parse_url_parts, parts_view, url_parse_parts, UrlParts};

verus! {

broadcast use vstd::seq_lib::group_seq_properties;

/// The path of `input` when it parses as a URL (with `?` and the query when
/// there is one), else `input` itself.
pub open spec fn normalized_path(input: Seq<char>, parsed: Option<(Seq<char>, Option<Seq<char>>)>) -> Seq<char> {
    match parsed {
        Some(pq) => match pq.1 {
            Some(q) => pq.0 + seq!['?'] + q,
            None => pq.0,
        },
        None => input,
    }
}

/// `normalized_path` for the parse result `parsed` of `input`.
pub fn normalize_from_parts(input: &str, parsed: Option<UrlParts>) -> (r: String)
    ensures
        r@ == normalized_path(input@, parts_view(parsed)),
{
    match parsed {
        Some(p) => {
            let mut full = p.path;
            match p.query {
                Some(q) => {
                    push_char(&mut full, '?');
                    push_str(&mut full, q.as_str());
                },
                None => {},
            }
            full
        },
        None => String::from_str(input),
    }
}

fn normalize_path(input: &str) -> (r: String)
    ensures
        r@ == normalized_path(input@, url_parse_parts(input@)),
        has_no_colon(input@) ==> r@ == input@,
{
    let parsed = parse_url_parts(input);
    normalize_from_parts(input, parsed)
}

/// The characters at which a path is cut into segments.
pub open spec fn is_token_sep(c: char) -> bool {
    c == '/' || c == '-' || c == '_' || c == '.' || c == '?' || c == '&'
}

/// `str::split` at the separators: one more segment than separators, empty
/// segments included.
pub open spec fn split_segments(s: Seq<char>) -> Seq<Seq<char>>
    decreases s.len(),
{
    if s.len() == 0 {
        seq![seq![]]
    } else {
        let prev = split_segments(s.drop_last());
        if is_token_sep(s.last()) {
            prev.push(seq![])
        } else {
            prev.update(prev.len() - 1, prev.last().push(s.last()))
        }
    }
}

proof fn lemma_split_nonempty(s: Seq<char>)
    ensures
        split_segments(s).len() >= 1,
    decreases s.len(),
{
    if s.len() > 0 {
        lemma_split_nonempty(s.drop_last());
    }
}

/// Every character is an ASCII digit.
pub open spec fn all_digits(s: Seq<char>) -> bool {
    forall|i: int| 0 <= i < s.len() ==> is_digit(#[trigger] s[i])
}

/// A naive singular: a token longer than three bytes ending in `ies` ends in
/// `y` instead; one ending in `s` loses it; others stay.
pub open spec fn singularize(t: Seq<char>) -> Seq<char> {
    if utf8_len(t) > 3 && t.len() >= 3 && t.subrange(t.len() - 3, t.len() as int) == seq![
        'i',
        'e',
        's',
    ] {
        t.subrange(0, t.len() - 3).push('y')
    } else if utf8_len(t) > 3 && t.len() >= 1 && t.last() == 's' {
        t.drop_last()
    } else {
        t
    }
}

/// Words that say nothing of the resource a path names.
pub open spec fn is_stopword(t: Seq<char>) -> bool {
    t == "api"@ || t == "v1"@ || t == "v2"@ || t == "internal"@ || t == "public"@ || t == "rest"@
        || t == "graphql"@
}

/// The token a segment gives: trimmed, lower-cased, not blank, not a number,
/// singularized, not a stop word.
pub open spec fn segment_token(seg: Seq<char>) -> Option<Seq<char>> {
    let t = trim(seg);
    if t.len() == 0 {
        None
    } else {
        let l = ascii_lower(t);
        if all_digits(l) {
            None
        } else {
            let s = singularize(l);
            if is_stopword(s) {
                None
            } else {
                Some(s)
            }
        }
    }
}

/// The tokens of a sequence of segments, in order.
pub open spec fn tokens_of(segs: Seq<Seq<char>>) -> Seq<Seq<char>>
    decreases segs.len(),
{
    if segs.len() == 0 {
        seq![]
    } else {
        let prev = tokens_of(segs.drop_last());
        match segment_token(segs.last()) {
            Some(t) => prev.push(t),
            None => prev,
        }
    }
}

/// The tokens of a route or URL.
pub open spec fn tokenize_spec(input: Seq<char>) -> Seq<Seq<char>> {
    tokens_of(split_segments(normalized_path(input, url_parse_parts(input))))
}

/// The tokens of a path taken as it is.
pub open spec fn path_tokens(path: Seq<char>) -> Seq<Seq<char>> {
    tokens_of(split_segments(path))
}

/// `tokens` is what `tokenize_path` gives for `input`: the tokens of its
/// normalized path, which for an input with no colon (no URL) is the input.
pub open spec fn tokenized(input: Seq<char>, tokens: Seq<Seq<char>>) -> bool {
    &&& tokens == tokenize_spec(input)
    &&& has_no_colon(input) ==> tokens == path_tokens(input)
}

/// Whether the UTF-8 length of `v` exceeds `n`.
fn utf8_len_exceeds(v: &Vec<char>, n: usize) -> (r: bool)
    requires
        n <= 4096,
    ensures
        r == (utf8_len(v@) > n),
{
    let mut total: usize = 0;
    let mut i: usize = 0;
    while i < v.len()
        invariant
            i <= v.len(),
            n <= 4096,
            total == utf8_len(v@.take(i as int)),
            total <= n,
        decreases v.len() - i,
    {
        assert(v@.take(i + 1).drop_last() =~= v@.take(i as int));
        total = total + char_len_utf8(v[i]);
        i = i + 1;
        if total > n {
            proof {
                lemma_utf8_len_prefix(v@, i as int);
            }
            return true;
        }
    }
    assert(v@.take(v.len() as int) =~= v@);
    false
}

proof fn lemma_utf8_len_prefix(s: Seq<char>, i: int)
    requires
        0 <= i <= s.len(),
    ensures
        utf8_len(s.take(i)) <= utf8_len(s),
    decreases s.len() - i,
{
    if i < s.len() {
        lemma_utf8_len_prefix(s, i + 1);
        assert(s.take(i + 1).drop_last() =~= s.take(i));
    } else {
        assert(s.take(i) =~= s);
    }
}

/// The singular form of a lower-cased token, by the rule of `singularize`.
pub fn singularize_simple(token: Vec<char>) -> (r: Vec<char>)
    ensures
        r@ == singularize(token@),
{
    let n = token.len();
    let long = utf8_len_exceeds(&token, 3);
    if long && n >= 3 && token[n - 3] == 'i' && token[n - 2] == 'e' && token[n - 1] == 's' {
        assert(token@.subrange(n - 3, n as int) =~= seq!['i', 'e', 's']);
        let mut r: Vec<char> = Vec::new();
        for i in 0..n - 3
            invariant
                n == token.len(),
                n >= 3,
                r@ == token@.subrange(0, i as int),
        {
            r.push(token[i]);
            assert(token@.subrange(0, i as int).push(token@[i as int]) =~= token@.subrange(
                0,
                i + 1,
            ));
        }
        r.push('y');
        r
    } else {
        if long && n >= 3 {
            assert(token@.subrange(n - 3, n as int) != seq!['i', 'e', 's']) by {
                if token@.subrange(n - 3, n as int) == seq!['i', 'e', 's'] {
                    assert(token@.subrange(n - 3, n as int)[0] == token@[n - 3]);
                    assert(token@.subrange(n - 3, n as int)[1] == token@[n - 2]);
                    assert(token@.subrange(n - 3, n as int)[2] == token@[n - 1]);
                }
            }
        }
        if long && n >= 1 && token[n - 1] == 's' {
            let mut t = token;
            t.pop();
            t
        } else {
            token
        }
    }
}

fn is_stopword_exec(t: &Vec<char>) -> (r: bool)
    ensures
        r == is_stopword(t@),
{
    chars_equal_str(t, "api") || chars_equal_str(t, "v1") || chars_equal_str(t, "v2")
        || chars_equal_str(t, "internal") || chars_equal_str(t, "public") || chars_equal_str(
        t,
        "rest",
    ) || chars_equal_str(t, "graphql")
}

fn all_digits_exec(t: &Vec<char>) -> (r: bool)
    ensures
        r == all_digits(t@),
{
    let mut i: usize = 0;
    while i < t.len()
        invariant
            i <= t.len(),
            forall|k: int| 0 <= k < i ==> is_digit(#[trigger] t@[k]),
        decreases t.len() - i,
    {
        if !('0' <= t[i] && t[i] <= '9') {
            return false;
        }
        i = i + 1;
    }
    true
}

fn token_of_segment(seg: &Vec<char>) -> (r: Option<Vec<char>>)
    ensures
        match r {
            Some(v) => segment_token(seg@) == Some(v@),
            None => segment_token(seg@) is None,
        },
{
    let t = trim_chars(seg);
    if t.len() == 0 {
        return None;
    }
    let l = lower_chars(&t);
    if all_digits_exec(&l) {
        return None;
    }
    let s = singularize_simple(l);
    if is_stopword_exec(&s) {
        None
    } else {
        Some(s)
    }
}

fn push_token(tokens: &mut Vec<String>, seg: &Vec<char>)
    ensures
        views(final(tokens)@) == match segment_token(seg@) {
            Some(t) => views(old(tokens)@).push(t),
            None => views(old(tokens)@),
        },
{
    match token_of_segment(seg) {
        Some(v) => {
            let ghost before = tokens@;
            tokens.push(string_from_chars(&v));
            assert(views(tokens@) =~= views(before).push(v@));
        },
        None => {},
    }
}

/// The tokens of a route or URL path: its segments between `/ - _ . ? &`,
/// trimmed, lower-cased, numbers and stop words dropped, singularized.
pub fn tokenize_path(input: &str) -> (r: Vec<String>)
    ensures
        tokenized(input@, views(r@)),
{
    let path = normalize_path(input);
    let cs = chars_of(path.as_str());
    let mut tokens: Vec<String> = Vec::new();
    let mut current: Vec<char> = Vec::new();
    proof {
        assert(cs@.take(0) =~= Seq::<char>::empty());
        assert(split_segments(cs@.take(0)).drop_last() =~= Seq::<Seq<char>>::empty());
    }
    for i in 0..cs.len()
        invariant
            split_segments(cs@.take(i as int)).len() >= 1,
            views(tokens@) == tokens_of(split_segments(cs@.take(i as int)).drop_last()),
            current@ == split_segments(cs@.take(i as int)).last(),
    {
        let c = cs[i];
        let ghost segs = split_segments(cs@.take(i as int));
        proof {
            assert(cs@.take(i + 1).drop_last() =~= cs@.take(i as int));
            assert(cs@.take(i + 1).last() == c);
        }
        if c == '/' || c == '-' || c == '_' || c == '.' || c == '?' || c == '&' {
            push_token(&mut tokens, &current);
            current = Vec::new();
            proof {
                let nsegs = segs.push(seq![]);
                assert(split_segments(cs@.take(i + 1)) == nsegs);
                assert(nsegs.drop_last() =~= segs);
                assert(segs.drop_last() =~= segs.subrange(0, segs.len() - 1));
                assert(segs =~= segs.drop_last().push(segs.last()));
            }
        } else {
            current.push(c);
            proof {
                let nsegs = segs.update(segs.len() - 1, segs.last().push(c));
                assert(split_segments(cs@.take(i + 1)) == nsegs);
                assert(nsegs.drop_last() =~= segs.drop_last());
            }
        }
    }
    proof {
        assert(cs@.take(cs.len() as int) =~= cs@);
        let segs = split_segments(cs@);
        assert(segs =~= segs.drop_last().push(segs.last()));
    }
    push_token(&mut tokens, &current);
    tokens
}

/// The distinct strings of `v`, in order of first appearance.
fn distinct_strings(v: &Vec<String>) -> (r: Vec<String>)
    ensures
        views(r@).no_duplicates(),
        views(r@).to_set() == views(v@).to_set(),
{
    let mut r: Vec<String> = Vec::new();
    for i in 0..v.len()
        invariant
            views(r@).no_duplicates(),
            views(r@).to_set() == views(v@.take(i as int)).to_set(),
    {
        let ghost before = r@;
        let ghost x = v@[i as int]@;
        assert(views(v@.take(i + 1)) =~= views(v@.take(i as int)).push(x));
        assert(views(v@.take(i + 1)).to_set() =~= views(v@.take(i as int)).to_set().insert(x));
        if !contains_view(&r, &v[i]) {
            r.push(v[i].clone());
            assert(views(r@) =~= views(before).push(x));
            assert(views(r@).to_set() =~= views(before).to_set().insert(x));
        } else {
            assert(views(before).to_set().contains(x));
            assert(views(v@.take(i + 1)).to_set() =~= views(v@.take(i as int)).to_set());
        }
    }
    assert(v@.take(v.len() as int) =~= v@);
    r
}

fn contains_view(v: &Vec<String>, x: &String) -> (r: bool)
    ensures
        r == views(v@).contains(x@),
{
    let mut k: usize = 0;
    while k < v.len()
        invariant
            k <= v.len(),
            forall|j: int| 0 <= j < k ==> v@[j]@ != x@,
        decreases v.len() - k,
    {
        if v[k] == *x {
            assert(views(v@)[k as int] == x@);
            return true;
        }
        k = k + 1;
    }
    assert forall|j: int| 0 <= j < views(v@).len() implies views(v@)[j] != x@ by {
        assert(views(v@)[j] == v@[j]@);
    }
    false
}

/// How many distinct tokens the two texts share, and how many distinct
/// tokens they have together; `None` when either has no token.
pub open spec fn similarity_counts_spec(route: Seq<char>, endpoint: Seq<char>) -> Option<(nat, nat)> {
    let a = tokenize_spec(route);
    let b = tokenize_spec(endpoint);
    if a.len() == 0 || b.len() == 0 {
        None
    } else {
        Some(
            (
                a.to_set().intersect(b.to_set()).len(),
                a.to_set().union(b.to_set()).len(),
            ),
        )
    }
}

/// The sizes of the intersection and of the union of the token sets of a
/// route and an endpoint (the similarity of the two is their ratio).
pub fn similarity_counts(route: &str, endpoint: &str) -> (r: Option<(usize, usize)>)
    ensures
        match r {
            Some((i, u)) => similarity_counts_spec(route@, endpoint@) == Some((i as nat, u as nat)),
            None => similarity_counts_spec(route@, endpoint@) is None,
        },
{
    let route_tokens = tokenize_path(route);
    let endpoint_tokens = tokenize_path(endpoint);
    if route_tokens.len() == 0 || endpoint_tokens.len() == 0 {
        return None;
    }
    let a = distinct_strings(&route_tokens);
    let b = distinct_strings(&endpoint_tokens);
    let ghost sa = views(a@).to_set();
    let ghost sb = views(b@).to_set();
    let mut inter: Vec<String> = Vec::new();
    for i in 0..a.len()
        invariant
            views(a@).no_duplicates(),
            sb == views(b@).to_set(),
            views(inter@).no_duplicates(),
            views(inter@).to_set() == views(a@.take(i as int)).to_set().intersect(sb),
            inter@.len() <= i,
    {
        let ghost before = inter@;
        let ghost x = a@[i as int]@;
        assert(views(a@.take(i + 1)) =~= views(a@.take(i as int)).push(x));
        assert(views(a@.take(i + 1)).to_set() =~= views(a@.take(i as int)).to_set().insert(x));
        if contains_view(&b, &a[i]) {
            proof {
                assert(!views(before).contains(a@[i as int]@)) by {
                    if views(before).contains(a@[i as int]@) {
                        assert(views(before).to_set().contains(a@[i as int]@));
                        assert(views(a@.take(i as int)).to_set().contains(a@[i as int]@));
                        let w = choose|w: int|
                            0 <= w < views(a@.take(i as int)).len() && views(a@.take(i as int))[w]
                                == a@[i as int]@;
                        assert(views(a@)[w] == views(a@)[i as int]);
                    }
                }
            }
            inter.push(a[i].clone());
            assert(views(inter@) =~= views(before).push(x));
            assert(views(inter@).to_set() =~= views(before).to_set().insert(x));
            assert(views(inter@).to_set() =~= views(a@.take(i + 1)).to_set().intersect(sb));
        } else {
            assert(!sb.contains(x));
            assert(views(inter@).to_set() =~= views(a@.take(i + 1)).to_set().intersect(sb));
        }
    }
    assert(a@.take(a.len() as int) =~= a@);
    let mut union: Vec<String> = Vec::new();
    for i in 0..a.len()
        invariant
            views(a@).no_duplicates(),
            union@ == a@.take(i as int),
    {
        union.push(a[i].clone());
        assert(a@.take(i + 1) =~= a@.take(i as int).push(a@[i as int]));
    }
    assert(a@.take(a.len() as int) =~= a@);
    for i in 0..b.len()
        invariant
            views(a@).no_duplicates(),
            views(union@).no_duplicates(),
            views(union@).to_set() == sa.union(views(b@.take(i as int)).to_set()),
            sa == views(a@).to_set(),
    {
        let ghost before = union@;
        let ghost x = b@[i as int]@;
        assert(views(b@.take(i + 1)) =~= views(b@.take(i as int)).push(x));
        assert(views(b@.take(i + 1)).to_set() =~= views(b@.take(i as int)).to_set().insert(x));
        if !contains_view(&union, &b[i]) {
            union.push(b[i].clone());
            assert(views(union@) =~= views(before).push(x));
            assert(views(union@).to_set() =~= views(before).to_set().insert(x));
        } else {
            assert(views(before).to_set().contains(x));
        }
        assert(views(union@).to_set() =~= sa.union(views(b@.take(i + 1)).to_set()));
    }
    assert(b@.take(b.len() as int) =~= b@);
    proof {
        views(inter@).unique_seq_to_set();
        views(union@).unique_seq_to_set();
        assert(views(inter@).to_set() == sa.intersect(sb));
    }
    Some((inter.len(), union.len()))
}


// ---------------------------------------------------------------------------
// Laws
// ---------------------------------------------------------------------------

/// The overlap of a route and an endpoint does not depend on which is which.
pub proof fn lemma_similarity_symmetric(a: Seq<char>, b: Seq<char>)
    ensures
        similarity_counts_spec(a, b) == similarity_counts_spec(b, a),
{
    let ta = tokenize_spec(a).to_set();
    let tb = tokenize_spec(b).to_set();
    assert(ta.intersect(tb) =~= tb.intersect(ta));
    assert(ta.union(tb) =~= tb.union(ta));
}

/// A text with tokens overlaps itself completely: the shared tokens are all its tokens.
pub proof fn lemma_similarity_with_itself(a: Seq<char>)
    requires
        tokenize_spec(a).len() > 0,
    ensures
        similarity_counts_spec(a, a) matches Some((i, u)) && i == u && u > 0,
{
    let t = tokenize_spec(a);
    let ta = t.to_set();
    assert(ta.intersect(ta) =~= ta);
    assert(ta.union(ta) =~= ta);
    assert(ta.contains(t[0]));
    t.lemma_cardinality_of_set();
    vstd::set_lib::lemma_set_empty_equivalency_len(ta);
}

proof fn lemma_lower_has_no_capitals(s: Seq<char>)
    ensures
        forall|i: int| 0 <= i < ascii_lower(s).len() ==> !('A' <= #[trigger] ascii_lower(s)[i] && ascii_lower(s)[i] <= 'Z'),
{
    assert forall|i: int| 0 <= i < ascii_lower(s).len() implies !('A' <= #[trigger] ascii_lower(s)[i]
        && ascii_lower(s)[i] <= 'Z') by {
        let c = s[i];
        assert(ascii_lower(s)[i] == crate::text::lower_char(c));
        if 'A' <= c && c <= 'Z' {
            assert((c as u32) + 32 >= 'a' as u32);
        }
    }
}

/// No token has an ASCII capital letter, and none is a stop word.
pub proof fn lemma_tokens_are_clean(input: Seq<char>)
    ensures
        forall|k: int|
            0 <= k < tokenize_spec(input).len() ==> !is_stopword(#[trigger] tokenize_spec(input)[k])
                && forall|i: int|
                0 <= i < tokenize_spec(input)[k].len() ==> !('A' <= tokenize_spec(input)[k][i]
                    && tokenize_spec(input)[k][i] <= 'Z'),
{
    lemma_tokens_of_clean(split_segments(normalized_path(input, url_parse_parts(input))));
}

proof fn lemma_tokens_of_clean(segs: Seq<Seq<char>>)
    ensures
        forall|k: int|
            0 <= k < tokens_of(segs).len() ==> !is_stopword(#[trigger] tokens_of(segs)[k])
                && forall|i: int|
                0 <= i < tokens_of(segs)[k].len() ==> !('A' <= tokens_of(segs)[k][i]
                    && tokens_of(segs)[k][i] <= 'Z'),
    decreases segs.len(),
{
    if segs.len() > 0 {
        lemma_tokens_of_clean(segs.drop_last());
        let prev = tokens_of(segs.drop_last());
        match segment_token(segs.last()) {
            Some(t) => {
                let l = ascii_lower(trim(segs.last()));
                lemma_lower_has_no_capitals(trim(segs.last()));
                assert(t == singularize(l));
                assert forall|i: int| 0 <= i < t.len() implies !('A' <= t[i] && t[i] <= 'Z') by {
                    if utf8_len(l) > 3 && l.len() >= 3 && l.subrange(l.len() - 3, l.len() as int)
                        == seq!['i', 'e', 's'] {
                        if i < l.len() - 3 {
                            assert(t[i] == l[i]);
                        }
                    } else if utf8_len(l) > 3 && l.len() >= 1 && l.last() == 's' {
                        assert(t[i] == l[i]);
                    } else {
                        assert(t[i] == l[i]);
                    }
                }
                assert forall|k: int| 0 <= k < tokens_of(segs).len() implies !is_stopword(
                    #[trigger] tokens_of(segs)[k],
                ) && forall|i: int|
                    0 <= i < tokens_of(segs)[k].len() ==> !('A' <= tokens_of(segs)[k][i]
                        && tokens_of(segs)[k][i] <= 'Z') by {
                    if k < prev.len() {
                        assert(tokens_of(segs)[k] == prev[k]);
                    }
                }
            },
            None => {},
        }
    }
}

proof fn lemma_split_after_sep(x: Seq<char>, sep: char, y: Seq<char>)
    requires
        is_token_sep(sep),
    ensures
        split_segments(x.push(sep) + y) == split_segments(x) + split_segments(y),
    decreases y.len(),
{
    let xs = x.push(sep);
    if y.len() == 0 {
        assert(xs + y =~= xs);
        assert(xs.drop_last() =~= x);
        assert(split_segments(xs) =~= split_segments(x) + split_segments(y));
    } else {
        let s = xs + y;
        lemma_split_after_sep(x, sep, y.drop_last());
        lemma_split_nonempty(y.drop_last());
        assert(s.drop_last() =~= xs + y.drop_last());
        assert(s.last() == y.last());
        let p = split_segments(x);
        let q = split_segments(y.drop_last());
        if is_token_sep(y.last()) {
            assert(split_segments(s) =~= p + split_segments(y));
        } else {
            assert((p + q).last() == q.last());
            assert(split_segments(s) =~= p + split_segments(y));
        }
    }
}

proof fn lemma_tokens_of_concat(a: Seq<Seq<char>>, b: Seq<Seq<char>>)
    ensures
        tokens_of(a + b) == tokens_of(a) + tokens_of(b),
    decreases b.len(),
{
    if b.len() == 0 {
        assert(a + b =~= a);
        assert(tokens_of(a) + tokens_of(b) =~= tokens_of(a));
    } else {
        lemma_tokens_of_concat(a, b.drop_last());
        assert((a + b).drop_last() =~= a + b.drop_last());
        assert((a + b).last() == b.last());
        match segment_token(b.last()) {
            Some(t) => {
                assert(tokens_of(a + b) =~= tokens_of(a) + tokens_of(b));
            },
            None => {},
        }
    }
}

/// Tokenizing the path `a/b` gives the tokens of `a` followed by those of `b`,
/// when neither `a` nor `b` holds a colon (so that none of the three is taken
/// for a URL): `ta`, `tb` and `tab` are what `tokenize_path` gives for `a`,
/// `b` and `a/b`.
pub proof fn lemma_tokenize_join(
    a: Seq<char>,
    b: Seq<char>,
    ta: Seq<Seq<char>>,
    tb: Seq<Seq<char>>,
    tab: Seq<Seq<char>>,
)
    requires
        has_no_colon(a),
        has_no_colon(b),
        tokenized(a, ta),
        tokenized(b, tb),
        tokenized(a + seq!['/'] + b, tab),
    ensures
        tab == ta + tb,
{
    let j = a + seq!['/'] + b;
    assert(j =~= a.push('/') + b);
    assert forall|i: int| 0 <= i < j.len() implies j[i] != ':' by {
        if i < a.len() {
            assert(j[i] == a[i]);
        } else if i > a.len() {
            assert(j[i] == b[i - a.len() - 1]);
        }
    }
    lemma_split_after_sep(a, '/', b);
    lemma_tokens_of_concat(split_segments(a), split_segments(b));
}
/// Tokenizing `a`, a separator (`/`, `-`, `_`, `.`, `?` or `&`), then `b`
/// gives the tokens of `a` followed by those of `b`, when neither `a` nor
/// `b` holds a colon (so that none of the three is taken for a URL): `ta`,
/// `tb` and `tab` are what `tokenize_path` gives for them.
pub proof fn lemma_tokenize_join_at(
    a: Seq<char>,
    sep: char,
    b: Seq<char>,
    ta: Seq<Seq<char>>,
    tb: Seq<Seq<char>>,
    tab: Seq<Seq<char>>,
)
    requires
        sep == '/' || sep == '-' || sep == '_' || sep == '.' || sep == '?' || sep == '&',
        has_no_colon(a),
        has_no_colon(b),
        tokenized(a, ta),
        tokenized(b, tb),
        tokenized(a + seq![sep] + b, tab),
    ensures
        tab == ta + tb,
{
    let j = a + seq![sep] + b;
    assert(j =~= a.push(sep) + b);
    assert forall|i: int| 0 <= i < j.len() implies j[i] != ':' by {
        if i < a.len() {
            assert(j[i] == a[i]);
        } else if i > a.len() {
            assert(j[i] == b[i - a.len() - 1]);
        }
    }
    lemma_split_after_sep(a, sep, b);
    lemma_tokens_of_concat(split_segments(a), split_segments(b));
}

/// No character of `s` is a separator.
spec fn avoids_seps(s: Seq<char>) -> bool {
    forall|i: int| 0 <= i < s.len() ==> !is_token_sep(#[trigger] s[i])
}

proof fn lemma_split_avoids(s: Seq<char>)
    ensures
        forall|k: int| 0 <= k < split_segments(s).len() ==> avoids_seps(#[trigger] split_segments(s)[k]),
    decreases s.len(),
{
    if s.len() > 0 {
        let prev = split_segments(s.drop_last());
        lemma_split_avoids(s.drop_last());
        lemma_split_nonempty(s.drop_last());
        let c = s.last();
        if is_token_sep(c) {
            assert forall|k: int| 0 <= k < split_segments(s).len() implies avoids_seps(
                #[trigger] split_segments(s)[k],
            ) by {
                if k < prev.len() {
                    assert(split_segments(s)[k] == prev[k]);
                } else {
                    assert(split_segments(s)[k] =~= Seq::<char>::empty());
                }
            }
        } else {
            let last = prev.last().push(c);
            assert(avoids_seps(prev[prev.len() - 1]));
            assert forall|k: int| 0 <= k < split_segments(s).len() implies avoids_seps(
                #[trigger] split_segments(s)[k],
            ) by {
                if k < prev.len() - 1 {
                    assert(split_segments(s)[k] == prev[k]);
                } else {
                    assert(split_segments(s)[k] == last);
                    assert forall|i: int| 0 <= i < last.len() implies !is_token_sep(#[trigger] last[i]) by {
                        if i < last.len() - 1 {
                            assert(last[i] == prev.last()[i]);
                        }
                    }
                }
            }
        }
    }
}

proof fn lemma_trim_start_avoids(s: Seq<char>)
    requires
        avoids_seps(s),
    ensures
        avoids_seps(crate::text::trim_start(s)),
    decreases s.len(),
{
    if s.len() > 0 && crate::text::is_space(s[0]) {
        let t = s.drop_first();
        assert forall|i: int| 0 <= i < t.len() implies !is_token_sep(#[trigger] t[i]) by {
            assert(t[i] == s[i + 1]);
        }
        lemma_trim_start_avoids(t);
    }
}

proof fn lemma_trim_end_avoids(s: Seq<char>)
    requires
        avoids_seps(s),
    ensures
        avoids_seps(crate::text::trim_end(s)),
    decreases s.len(),
{
    if s.len() > 0 && crate::text::is_space(s.last()) {
        let t = s.drop_last();
        assert forall|i: int| 0 <= i < t.len() implies !is_token_sep(#[trigger] t[i]) by {
            assert(t[i] == s[i]);
        }
        lemma_trim_end_avoids(t);
    }
}

proof fn lemma_segment_token_avoids(seg: Seq<char>)
    requires
        avoids_seps(seg),
    ensures
        segment_token(seg) is Some ==> avoids_seps(segment_token(seg)->0),
{
    let t = trim(seg);
    lemma_trim_start_avoids(seg);
    lemma_trim_end_avoids(crate::text::trim_start(seg));
    let l = ascii_lower(t);
    assert forall|i: int| 0 <= i < l.len() implies !is_token_sep(#[trigger] l[i]) by {
        let c = t[i];
        assert(l[i] == crate::text::lower_char(c));
        assert(!is_token_sep(c));
        if 'A' <= c && c <= 'Z' {
            assert((c as u32) + 32 >= 'a' as u32);
            assert((c as u32) + 32 <= 'z' as u32);
        }
    }
    if segment_token(seg) is Some {
        let r = singularize(l);
        assert(segment_token(seg)->0 == r);
        assert forall|i: int| 0 <= i < r.len() implies !is_token_sep(#[trigger] r[i]) by {
            if utf8_len(l) > 3 && l.len() >= 3 && l.subrange(l.len() - 3, l.len() as int) == seq![
                'i',
                'e',
                's',
            ] {
                if i < l.len() - 3 {
                    assert(r[i] == l[i]);
                } else {
                    assert(r[i] == 'y');
                }
            } else if utf8_len(l) > 3 && l.len() >= 1 && l.last() == 's' {
                assert(r[i] == l[i]);
            } else {
                assert(r[i] == l[i]);
            }
        }
    }
}

proof fn lemma_tokens_of_avoid(segs: Seq<Seq<char>>)
    requires
        forall|k: int| 0 <= k < segs.len() ==> avoids_seps(#[trigger] segs[k]),
    ensures
        forall|k: int| 0 <= k < tokens_of(segs).len() ==> avoids_seps(#[trigger] tokens_of(segs)[k]),
    decreases segs.len(),
{
    if segs.len() > 0 {
        let prev = tokens_of(segs.drop_last());
        assert forall|k: int| 0 <= k < segs.drop_last().len() implies avoids_seps(
            #[trigger] segs.drop_last()[k],
        ) by {
            assert(segs.drop_last()[k] == segs[k]);
        }
        lemma_tokens_of_avoid(segs.drop_last());
        assert(avoids_seps(segs[segs.len() - 1]));
        lemma_segment_token_avoids(segs.last());
        assert forall|k: int| 0 <= k < tokens_of(segs).len() implies avoids_seps(
            #[trigger] tokens_of(segs)[k],
        ) by {
            if k < prev.len() {
                assert(tokens_of(segs)[k] == prev[k]);
            }
        }
    }
}

/// A path is cut at `/`, `-`, `_`, `.`, `?` and `&`: no token holds any of
/// these characters.
pub proof fn lemma_tokens_hold_no_separators(input: Seq<char>)
    ensures
        forall|k: int, i: int|
            0 <= k < tokenize_spec(input).len() && 0 <= i < tokenize_spec(input)[k].len() ==> {
                let c = #[trigger] tokenize_spec(input)[k][i];
                c != '/' && c != '-' && c != '_' && c != '.' && c != '?' && c != '&'
            },
{
    let segs = split_segments(normalized_path(input, url_parse_parts(input)));
    lemma_split_avoids(normalized_path(input, url_parse_parts(input)));
    lemma_tokens_of_avoid(segs);
    assert forall|k: int, i: int|
        0 <= k < tokenize_spec(input).len() && 0 <= i < tokenize_spec(input)[k].len() implies {
            let c = #[trigger] tokenize_spec(input)[k][i];
            c != '/' && c != '-' && c != '_' && c != '.' && c != '?' && c != '&'
        } by {
        assert(avoids_seps(tokens_of(segs)[k]));
        assert(!is_token_sep(tokens_of(segs)[k][i]));
    }
}

/// A token longer than three bytes that ends in `ies` ends in `y` instead;
/// one longer than three bytes that ends otherwise in `s` loses it; every
/// other token stays as it is.
pub proof fn lemma_singular_forms(t: Seq<char>)
    ensures
        utf8_len(t) > 3 && t.len() >= 3 && t[t.len() - 3] == 'i' && t[t.len() - 2] == 'e'
            && t[t.len() - 1] == 's' ==> singularize(t) == t.take(t.len() - 3).push('y'),
        utf8_len(t) > 3 && t.len() >= 1 && t[t.len() - 1] == 's' && !(t.len() >= 3 && t[t.len()
            - 3] == 'i' && t[t.len() - 2] == 'e') ==> singularize(t) == t.take(t.len() - 1),
        (utf8_len(t) <= 3 || t.len() == 0 || t[t.len() - 1] != 's') ==> singularize(t) == t,
{
    if t.len() >= 3 {
        let tail = t.subrange(t.len() - 3, t.len() as int);
        if t[t.len() - 3] == 'i' && t[t.len() - 2] == 'e' && t[t.len() - 1] == 's' {
            assert(tail =~= seq!['i', 'e', 's']);
        } else {
            if tail == seq!['i', 'e', 's'] {
                assert(tail[0] == t[t.len() - 3]);
                assert(tail[1] == t[t.len() - 2]);
                assert(tail[2] == t[t.len() - 1]);
            }
        }
        assert(t.subrange(0, t.len() - 3) =~= t.take(t.len() - 3));
    }
    if t.len() >= 1 {
        assert(t.drop_last() =~= t.take(t.len() - 1));
    }
}

/// The similarity counts exist exactly when both texts have tokens; then the
/// shared tokens number at most the distinct tokens of either text, which
/// number at most the tokens of both together, at least one.
pub proof fn lemma_similarity_counts_bounds(route: Seq<char>, endpoint: Seq<char>)
    ensures
        (similarity_counts_spec(route, endpoint) is Some) == (tokenize_spec(route).len() > 0
            && tokenize_spec(endpoint).len() > 0),
        similarity_counts_spec(route, endpoint) matches Some((shared, total)) ==> {
            &&& shared <= tokenize_spec(route).to_set().len()
            &&& shared <= tokenize_spec(endpoint).to_set().len()
            &&& tokenize_spec(route).to_set().len() <= total
            &&& tokenize_spec(endpoint).to_set().len() <= total
            &&& 1 <= total
        },
{
    broadcast use vstd::seq_lib::seq_to_set_is_finite;

    let a = tokenize_spec(route).to_set();
    let b = tokenize_spec(endpoint).to_set();
    vstd::set_lib::lemma_len_intersect(a, b);
    vstd::set_lib::lemma_len_intersect(b, a);
    assert(b.intersect(a) =~= a.intersect(b));
    vstd::set_lib::lemma_len_union_ind(a, b);
    if tokenize_spec(route).len() > 0 {
        assert(a.contains(tokenize_spec(route)[0]));
        assert(a.len() > 0) by {
            if a.len() == 0 {
                a.lemma_len0_is_empty();
            }
        }
    }
}
} // verus!
