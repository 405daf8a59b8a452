//! Request parsing: the request line and the query string.
//!
//! A raw request is handled as the hand-rolled listener reads it: the request
//! target is the second whitespace-separated token of the text, its path is
//! what stands before the first `?`, its query string is what stands between
//! the first and second `?`. The query string is a `&`-separated list of
//! `key=value` parameters; for a given key the last occurrence wins, and a
//! parameter without `=` carries the empty value.

use vstd::prelude::*;

verus! {

/// The whitespace characters that separate the tokens of a request line.
pub open spec fn is_space(c: char) -> bool {
    c == ' ' || c == '\t' || c == '\r' || c == '\n'
}

/// The longest whitespace prefix of `s`, removed.
pub open spec fn skip_spaces(s: Seq<char>) -> Seq<char>
    decreases s.len(),
{
    if s.len() > 0 && is_space(s[0]) {
        skip_spaces(s.drop_first())
    } else {
        s
    }
}

/// The longest non-whitespace prefix of `s`.
pub open spec fn take_token(s: Seq<char>) -> Seq<char>
    decreases s.len(),
{
    if s.len() > 0 && !is_space(s[0]) {
        seq![s[0]] + take_token(s.drop_first())
    } else {
        Seq::empty()
    }
}

/// `s` with its longest non-whitespace prefix removed.
pub open spec fn drop_token(s: Seq<char>) -> Seq<char>
    decreases s.len(),
{
    if s.len() > 0 && !is_space(s[0]) {
        drop_token(s.drop_first())
    } else {
        s
    }
}

/// The first whitespace-separated token of a request: its method.
pub open spec fn first_token(s: Seq<char>) -> Seq<char> {
    take_token(skip_spaces(s))
}

/// The second whitespace-separated token of a request: its target.
pub open spec fn second_token(s: Seq<char>) -> Seq<char> {
    take_token(skip_spaces(drop_token(skip_spaces(s))))
}

/// What stands before the first `c` in `s` (all of `s` if `c` is absent).
pub open spec fn before_char(s: Seq<char>, c: char) -> Seq<char>
    decreases s.len(),
{
    if s.len() == 0 {
        Seq::empty()
    } else if s[0] == c {
        Seq::empty()
    } else {
        seq![s[0]] + before_char(s.drop_first(), c)
    }
}

/// What stands after the first `c` in `s`, if `c` occurs at all.
pub open spec fn after_char(s: Seq<char>, c: char) -> Option<Seq<char>>
    decreases s.len(),
{
    if s.len() == 0 {
        None
    } else if s[0] == c {
        Some(s.drop_first())
    } else {
        after_char(s.drop_first(), c)
    }
}

/// The path of a request target: what stands before the first `?`.
pub open spec fn target_path(target: Seq<char>) -> Seq<char> {
    before_char(target, '?')
}

/// The query string of a request target: what stands between the first and
/// the second `?`, empty when the target has no `?`.
pub open spec fn target_query(target: Seq<char>) -> Seq<char> {
    match after_char(target, '?') {
        Option::None => Seq::empty(),
        Option::Some(rest) => before_char(rest, '?'),
    }
}

/// The key of one `key=value` parameter.
pub open spec fn param_key(piece: Seq<char>) -> Seq<char> {
    before_char(piece, '=')
}

/// The value of one `key=value` parameter: what stands between the first and
/// the second `=`, empty when the parameter has no `=`.
pub open spec fn param_value(piece: Seq<char>) -> Seq<char> {
    match after_char(piece, '=') {
        Option::None => Seq::empty(),
        Option::Some(rest) => before_char(rest, '='),
    }
}

/// `s` split at every `c`: one piece more than there are occurrences of `c`.
pub open spec fn split_pieces(s: Seq<char>, c: char) -> Seq<Seq<char>>
    decreases s.len(),
{
    if s.len() == 0 {
        seq![Seq::empty()]
    } else if s[0] == c {
        seq![Seq::empty()] + split_pieces(s.drop_first(), c)
    } else {
        let rest = split_pieces(s.drop_first(), c);
        seq![seq![s[0]] + rest[0]] + rest.drop_first()
    }
}

/// The value of the last parameter named `key`, if any parameter is.
pub open spec fn last_value(pieces: Seq<Seq<char>>, key: Seq<char>) -> Option<Seq<char>>
    decreases pieces.len(),
{
    if pieces.len() == 0 {
        Option::None
    } else {
        match last_value(pieces.drop_first(), key) {
            Option::Some(v) => Option::Some(v),
            Option::None => if param_key(pieces[0]) == key {
                Option::Some(param_value(pieces[0]))
            } else {
                Option::None
            },
        }
    }
}

/// A later occurrence of a key shadows an earlier one.
pub open spec fn prefer_last(later: Option<Seq<char>>, earlier: Option<Seq<char>>) -> Option<
    Seq<char>,
> {
    match later {
        Option::Some(v) => Option::Some(v),
        Option::None => earlier,
    }
}

/// The text of the query parameter named `key`, if it occurs.
pub open spec fn query_param(query: Seq<char>, key: Seq<char>) -> Option<Seq<char>> {
    last_value(split_pieces(query, '&'), key)
}

/// The first piece of a split is what stands before the first separator, and
/// the remaining pieces are the split of what stands after it.
proof fn lemma_split_first(s: Seq<char>, c: char)
    ensures
        split_pieces(s, c).len() >= 1,
        split_pieces(s, c)[0] == before_char(s, c),
        after_char(s, c) is None ==> before_char(s, c) == s && split_pieces(s, c) == seq![s],
        after_char(s, c) is Some ==> split_pieces(s, c) == seq![before_char(s, c)] + split_pieces(
            after_char(s, c).unwrap(),
            c,
        ),
    decreases s.len(),
{
    if s.len() == 0 {
        assert(split_pieces(s, c) == seq![Seq::<char>::empty()]);
        assert(before_char(s, c) =~= s);
    } else if s[0] == c {
        assert(split_pieces(s, c) =~= seq![before_char(s, c)] + split_pieces(s.drop_first(), c));
    } else {
        lemma_split_first(s.drop_first(), c);
        let rest = split_pieces(s.drop_first(), c);
        if after_char(s.drop_first(), c) is None {
            assert(rest == seq![s.drop_first()]);
            assert(rest.drop_first() =~= Seq::<Seq<char>>::empty());
            assert(seq![s[0]] + s.drop_first() =~= s);
            assert(split_pieces(s, c) =~= seq![s]);
            assert(before_char(s, c) =~= s);
        } else {
            let r = after_char(s.drop_first(), c).unwrap();
            assert(rest.drop_first() =~= split_pieces(r, c));
            assert(rest[0] == before_char(s.drop_first(), c));
            assert(seq![s[0]] + before_char(s.drop_first(), c) == before_char(s, c));
            assert(split_pieces(s, c) =~= seq![before_char(s, c)] + split_pieces(r, c));
        }
    }
}

/// Looking a key up in a piece prepended to a list prefers the list's match.
proof fn lemma_last_value_cons(piece: Seq<char>, rest: Seq<Seq<char>>, key: Seq<char>)
    ensures
        last_value(seq![piece] + rest, key) == prefer_last(
            last_value(rest, key),
            (if param_key(piece) == key {
                Option::Some(param_value(piece))
            } else {
                Option::None
            }),
        ),
{
    let pieces = seq![piece] + rest;
    assert(pieces[0] == piece);
    assert(pieces.drop_first() =~= rest);
}

proof fn lemma_sub_step(s: Seq<char>, i: int, end: int)
    requires
        0 <= i < end <= s.len(),
    ensures
        s.subrange(i, end).len() == end - i,
        s.subrange(i, end)[0] == s[i],
        s.subrange(i, end).drop_first() == s.subrange(i + 1, end),
{
    assert(s.subrange(i, end).drop_first() =~= s.subrange(i + 1, end));
}

proof fn lemma_sub_empty(s: Seq<char>, i: int)
    requires
        0 <= i <= s.len(),
    ensures
        s.subrange(i, i) == Seq::<char>::empty(),
{
    assert(s.subrange(i, i) =~= Seq::<char>::empty());
}

/// Exact character test for the whitespace set of `is_space`.
fn is_space_char(c: char) -> (r: bool)
    ensures
        r == is_space(c),
{
    c == ' ' || c == '\t' || c == '\r' || c == '\n'
}

/// The index of the first `c` in `s[start..end]`, or `end` if `c` is absent,
/// tied to `before_char` and `after_char` on that range.
fn find_char(s: &str, start: usize, end: usize, c: char) -> (j: usize)
    requires
        start <= end <= s@.len(),
    ensures
        start <= j <= end,
        before_char(s@.subrange(start as int, end as int), c) == s@.subrange(
            start as int,
            j as int,
        ),
        j < end ==> s@[j as int] == c && after_char(s@.subrange(start as int, end as int), c)
            == Option::Some(s@.subrange(j as int + 1, end as int)),
        j == end ==> after_char(s@.subrange(start as int, end as int), c) is None,
{
    let mut j: usize = start;
    proof {
        lemma_sub_empty(s@, start as int);
        assert(Seq::<char>::empty() + before_char(s@.subrange(start as int, end as int), c)
            =~= before_char(s@.subrange(start as int, end as int), c));
    }
    while j < end
        invariant
            start <= j <= end <= s@.len(),
            before_char(s@.subrange(start as int, end as int), c) == s@.subrange(
                start as int,
                j as int,
            ) + before_char(s@.subrange(j as int, end as int), c),
            after_char(s@.subrange(start as int, end as int), c) == after_char(
                s@.subrange(j as int, end as int),
                c,
            ),
        decreases end - j,
    {
        proof {
            lemma_sub_step(s@, j as int, end as int);
        }
        if s.get_char(j) == c {
            proof {
                assert(before_char(s@.subrange(j as int, end as int), c) == Seq::<char>::empty());
                assert(s@.subrange(start as int, j as int) + Seq::<char>::empty() =~= s@.subrange(
                    start as int,
                    j as int,
                ));
            }
            return j;
        }
        proof {
            assert(before_char(s@.subrange(j as int, end as int), c) == seq![s@[j as int]]
                + before_char(s@.subrange(j as int + 1, end as int), c));
            assert(s@.subrange(start as int, j as int) + (seq![s@[j as int]] + before_char(
                s@.subrange(j as int + 1, end as int),
                c,
            )) =~= s@.subrange(start as int, j as int + 1) + before_char(
                s@.subrange(j as int + 1, end as int),
                c,
            ));
        }
        j += 1;
    }
    proof {
        lemma_sub_empty(s@, end as int);
        assert(before_char(s@.subrange(j as int, end as int), c) == Seq::<char>::empty());
        assert(s@.subrange(start as int, j as int) + Seq::<char>::empty() =~= s@.subrange(
            start as int,
            j as int,
        ));
    }
    j
}

/// The index of the first non-whitespace character at or after `start`,
/// tied to `skip_spaces` on the suffix from `start`.
fn skip_spaces_at(s: &str, start: usize, len: usize) -> (j: usize)
    requires
        start <= len,
        len == s@.len(),
    ensures
        start <= j <= len,
        skip_spaces(s@.subrange(start as int, len as int)) == s@.subrange(j as int, len as int),
        j < len ==> !is_space(s@[j as int]),
{
    let mut j: usize = start;
    while j < len
        invariant
            start <= j <= len == s@.len(),
            skip_spaces(s@.subrange(start as int, len as int)) == skip_spaces(
                s@.subrange(j as int, len as int),
            ),
        decreases len - j,
    {
        proof {
            lemma_sub_step(s@, j as int, len as int);
        }
        if !is_space_char(s.get_char(j)) {
            return j;
        }
        j += 1;
    }
    proof {
        lemma_sub_empty(s@, len as int);
    }
    j
}

/// The index of the first whitespace character at or after `start`, tied to
/// `take_token` and `drop_token` on the suffix from `start`.
fn token_end(s: &str, start: usize, len: usize) -> (j: usize)
    requires
        start <= len,
        len == s@.len(),
    ensures
        start <= j <= len,
        take_token(s@.subrange(start as int, len as int)) == s@.subrange(start as int, j as int),
        drop_token(s@.subrange(start as int, len as int)) == s@.subrange(j as int, len as int),
{
    let mut j: usize = start;
    proof {
        lemma_sub_empty(s@, start as int);
        assert(Seq::<char>::empty() + take_token(s@.subrange(start as int, len as int))
            =~= take_token(s@.subrange(start as int, len as int)));
    }
    while j < len
        invariant
            start <= j <= len == s@.len(),
            take_token(s@.subrange(start as int, len as int)) == s@.subrange(start as int, j as int)
                + take_token(s@.subrange(j as int, len as int)),
            drop_token(s@.subrange(start as int, len as int)) == drop_token(
                s@.subrange(j as int, len as int),
            ),
        decreases len - j,
    {
        proof {
            lemma_sub_step(s@, j as int, len as int);
        }
        if is_space_char(s.get_char(j)) {
            proof {
                assert(take_token(s@.subrange(j as int, len as int)) == Seq::<char>::empty());
                assert(s@.subrange(start as int, j as int) + Seq::<char>::empty() =~= s@.subrange(
                    start as int,
                    j as int,
                ));
            }
            return j;
        }
        proof {
            assert(take_token(s@.subrange(j as int, len as int)) == seq![s@[j as int]] + take_token(
                s@.subrange(j as int + 1, len as int),
            ));
            assert(s@.subrange(start as int, j as int) + (seq![s@[j as int]] + take_token(
                s@.subrange(j as int + 1, len as int),
            )) =~= s@.subrange(start as int, j as int + 1) + take_token(
                s@.subrange(j as int + 1, len as int),
            ));
        }
        j += 1;
    }
    proof {
        lemma_sub_empty(s@, len as int);
        assert(take_token(s@.subrange(j as int, len as int)) == Seq::<char>::empty());
        assert(s@.subrange(start as int, j as int) + Seq::<char>::empty() =~= s@.subrange(
            start as int,
            j as int,
        ));
    }
    j
}

/// Whether two strings hold the same characters.
pub fn str_eq(a: &str, b: &str) -> (r: bool)
    ensures
        r == (a@ == b@),
{
    let la = a.unicode_len();
    let lb = b.unicode_len();
    if la != lb {
        return false;
    }
    let mut i: usize = 0;
    while i < la
        invariant
            i <= la,
            la == a@.len(),
            la == b@.len(),
            forall|t: int| 0 <= t < i ==> a@[t] == b@[t],
        decreases la - i,
    {
        if a.get_char(i) != b.get_char(i) {
            return false;
        }
        i += 1;
    }
    proof {
        assert(a@ =~= b@);
    }
    true
}

/// The method and target of a raw request: its first two tokens.
pub fn request_tokens(req: &str) -> (r: (String, String))
    ensures
        r.0@ == first_token(req@),
        r.1@ == second_token(req@),
{
    let len = req.unicode_len();
    proof {
        assert(req@.subrange(0, len as int) =~= req@);
    }
    let a = skip_spaces_at(req, 0, len);
    let b = token_end(req, a, len);
    let method = req.substring_char(a, b).to_owned();
    let c = skip_spaces_at(req, b, len);
    let d = token_end(req, c, len);
    let target = req.substring_char(c, d).to_owned();
    (method, target)
}

/// The path and query string of a request target, split at its `?`s.
pub fn split_target(target: &str) -> (r: (String, String))
    ensures
        r.0@ == target_path(target@),
        r.1@ == target_query(target@),
{
    let len = target.unicode_len();
    proof {
        assert(target@.subrange(0, len as int) =~= target@);
    }
    let i = find_char(target, 0, len, '?');
    let path = target.substring_char(0, i).to_owned();
    if i < len {
        let j = find_char(target, i + 1, len, '?');
        let query = target.substring_char(i + 1, j).to_owned();
        (path, query)
    } else {
        (path, String::new())
    }
}

/// A request line broken into the parts the service reads.
pub struct ParsedRequest {
    pub method: String,
    pub path: String,
    pub query: String,
}

/// Breaks a raw request into method, path and query string.
pub fn parse_request(req: &str) -> (r: ParsedRequest)
    ensures
        r.method@ == first_token(req@),
        r.path@ == target_path(second_token(req@)),
        r.query@ == target_query(second_token(req@)),
{
    let (method, target) = request_tokens(req);
    let (path, query) = split_target(target.as_str());
    ParsedRequest { method, path, query }
}

/// The texts of the `num1` and `num2` query parameters, where each occurs;
/// for a repeated key the last occurrence wins.
pub fn query_num_texts(q: &str) -> (r: (Option<String>, Option<String>))
    ensures
        r.0.deep_view() == query_param(q@, "num1"@),
        r.1.deep_view() == query_param(q@, "num2"@),
{
    let len = q.unicode_len();
    proof {
        assert(q@.subrange(0, len as int) =~= q@);
        reveal_strlit("num1");
        reveal_strlit("num2");
        assert("num1"@[3] == '1');
        assert("num2"@[3] == '2');
        assert("num1"@ != "num2"@);
    }
    let mut num1: Option<String> = Option::None;
    let mut num2: Option<String> = Option::None;
    let mut p: usize = 0;
    loop
        invariant
            p <= len,
            len == q@.len(),
            "num1"@ != "num2"@,
            prefer_last(
                last_value(split_pieces(q@.subrange(p as int, len as int), '&'), "num1"@),
                num1.deep_view(),
            ) == query_param(q@, "num1"@),
            prefer_last(
                last_value(split_pieces(q@.subrange(p as int, len as int), '&'), "num2"@),
                num2.deep_view(),
            ) == query_param(q@, "num2"@),
        decreases len - p,
    {
        let ghost remaining = q@.subrange(p as int, len as int);
        let e = find_char(q, p, len, '&');
        let ghost piece = q@.subrange(p as int, e as int);
        let k = find_char(q, p, e, '=');
        let key_text = q.substring_char(p, k);
        let key_is_num1 = str_eq(key_text, "num1");
        let key_is_num2 = str_eq(key_text, "num2");
        let value: String = if k < e {
            let m = find_char(q, k + 1, e, '=');
            let v = q.substring_char(k + 1, m).to_owned();
            proof {
                assert(v@ == param_value(piece));
            }
            v
        } else {
            let v = String::new();
            proof {
                assert(v@ == param_value(piece));
            }
            v
        };
        proof {
            assert(param_key(piece) == q@.subrange(p as int, k as int));
            lemma_split_first(remaining, '&');
        }
        let ghost this_match1 = (if param_key(piece) == "num1"@ {
            Option::Some(param_value(piece))
        } else {
            Option::<Seq<char>>::None
        });
        let ghost this_match2 = (if param_key(piece) == "num2"@ {
            Option::Some(param_value(piece))
        } else {
            Option::<Seq<char>>::None
        });
        let ghost acc1 = num1.deep_view();
        let ghost acc2 = num2.deep_view();
        if key_is_num1 {
            num1 = Option::Some(value);
        } else if key_is_num2 {
            num2 = Option::Some(value);
        }
        proof {
            assert(num1.deep_view() == prefer_last(this_match1, acc1));
            assert(num2.deep_view() == prefer_last(this_match2, acc2));
        }
        if e < len {
            proof {
                let rest = q@.subrange(e as int + 1, len as int);
                assert(split_pieces(remaining, '&') == seq![piece] + split_pieces(rest, '&'));
                lemma_last_value_cons(piece, split_pieces(rest, '&'), "num1"@);
                lemma_last_value_cons(piece, split_pieces(rest, '&'), "num2"@);
            }
            p = e + 1;
        } else {
            proof {
                assert(split_pieces(remaining, '&') == seq![piece]);
                assert(seq![piece] =~= seq![piece] + Seq::<Seq<char>>::empty());
                lemma_last_value_cons(piece, Seq::empty(), "num1"@);
                lemma_last_value_cons(piece, Seq::empty(), "num2"@);
            }
            return (num1, num2);
        }
    }
}

} // verus!
