use crate::codegen::HirExpr;
use crate::text::{chars_of, string_of, texts};
use vstd::prelude::*;

verus! {

/// The characters with the Unicode `White_Space` property (those for
/// which `char::is_whitespace` holds).
pub open spec fn is_space(c: char) -> bool {
    ('\u{9}' <= c && c <= '\u{d}') || c == ' ' || c == '\u{85}' || c == '\u{a0}' || c
        == '\u{1680}' || ('\u{2000}' <= c && c <= '\u{200a}') || c == '\u{2028}' || c
        == '\u{2029}' || c == '\u{202f}' || c == '\u{205f}' || c == '\u{3000}'
}

fn space(c: char) -> (r: bool)
    ensures
        r == is_space(c),
{
    ('\u{9}' <= c && c <= '\u{d}') || c == ' ' || c == '\u{85}' || c == '\u{a0}' || c
        == '\u{1680}' || ('\u{2000}' <= c && c <= '\u{200a}') || c == '\u{2028}' || c
        == '\u{2029}' || c == '\u{202f}' || c == '\u{205f}' || c == '\u{3000}'
}

/// `s` without its leading white space.
pub open spec fn trim_start(s: Seq<char>) -> Seq<char>
    decreases s.len(),
{
    if s.len() > 0 && is_space(s[0]) {
        trim_start(s.skip(1))
    } else {
        s
    }
}

/// `s` without its trailing white space.
pub open spec fn trim_end(s: Seq<char>) -> Seq<char>
    decreases s.len(),
{
    if s.len() > 0 && is_space(s.last()) {
        trim_end(s.drop_last())
    } else {
        s
    }
}

/// `s` without white space at either end.
pub open spec fn trim(s: Seq<char>) -> Seq<char> {
    trim_end(trim_start(s))
}

/// `k` is the first position of `c` in `s`.
pub open spec fn is_first(s: Seq<char>, c: char, k: int) -> bool {
    0 <= k < s.len() && s[k] == c && forall|j: int| 0 <= j < k ==> s[j] != c
}

/// The first position of `c` in `s`; -1 where it does not occur.
pub open spec fn first_index(s: Seq<char>, c: char) -> int {
    if s.contains(c) {
        choose|k: int| is_first(s, c, k)
    } else {
        -1
    }
}

/// The pieces of `s` between the occurrences of `sep`.
pub open spec fn split_on(s: Seq<char>, sep: char) -> Seq<Seq<char>>
    decreases s.len(),
{
    let k = first_index(s, sep);
    if 0 <= k < s.len() {
        seq![s.take(k)] + split_on(s.skip(k + 1), sep)
    } else {
        seq![s]
    }
}

/// The name and parameter names of a line `function name(a, b)`, taken
/// in this order: the line trimmed, the text after
/// `function` trimmed, the name before the first `(` trimmed, and the
/// parameters between it and the next `)`, split at commas and trimmed
/// (none where that text is empty).
pub open spec fn line_header(line: Seq<char>) -> Option<(Seq<char>, Seq<Seq<char>>)> {
    let t = trim(line);
    if !crate::text::has_prefix(t, "function"@) {
        None
    } else {
        let l = trim(t.skip(8));
        let p = first_index(l, '(');
        if p < 0 {
            None
        } else {
            let rest = l.skip(p + 1);
            let e = first_index(rest, ')');
            if e < 0 {
                None
            } else {
                let ps = rest.take(e);
                Some(
                    (
                        trim(l.take(p)),
                        if ps.len() == 0 {
                            Seq::empty()
                        } else {
                            split_on(ps, ',').map_values(|x: Seq<char>| trim(x))
                        },
                    ),
                )
            }
        }
    }
}

/// The headers of the `function` lines of `s`, in order (lines are the
/// pieces between newlines).
pub open spec fn headers_of(s: Seq<char>) -> Seq<(Seq<char>, Seq<Seq<char>>)>
    decreases s.len(),
{
    let k = first_index(s, '\n');
    let here = match line_header(
        if 0 <= k < s.len() {
            s.take(k)
        } else {
            s
        },
    ) {
        Some(h) => seq![h],
        None => Seq::empty(),
    };
    if 0 <= k < s.len() {
        here + headers_of(s.skip(k + 1))
    } else {
        here
    }
}

proof fn lemma_first_unique(s: Seq<char>, c: char, k: int)
    requires
        is_first(s, c, k),
    ensures
        first_index(s, c) == k,
{
    assert(s.contains(c)) by {
        assert(s[k] == c);
    }
    let j = choose|j: int| is_first(s, c, j);
    assert(is_first(s, c, j));
    if j < k {
        assert(s[j] != c);
    }
    if k < j {
        assert(s[k] != c);
    }
}

/// The first position of `c` in `s` at or after `from`, relative to
/// `from`.
fn find_from(s: &Vec<char>, from: usize, c: char) -> (r: Option<usize>)
    requires
        from <= s@.len(),
    ensures
        match r {
            Some(k) => first_index(s@.skip(from as int), c) == k as int && k < s@.len() - from,
            None => first_index(s@.skip(from as int), c) == -1,
        },
{
    let ghost t = s@.skip(from as int);
    let mut i: usize = from;
    while i < s.len()
        invariant
            from <= i <= s@.len(),
            t == s@.skip(from as int),
            forall|j: int| 0 <= j < i - from ==> t[j] != c,
        decreases s@.len() - i,
    {
        if s[i] == c {
            proof {
                assert(t[i - from] == c);
                lemma_first_unique(t, c, i - from);
            }
            return Some(i - from);
        }
        i = i + 1;
    }
    assert(!t.contains(c)) by {
        if t.contains(c) {
            let j = choose|j: int| 0 <= j < t.len() && t[j] == c;
            assert(t[j] != c);
        }
    }
    None
}

/// The characters of `s` from `a` up to `b`.
fn slice(s: &Vec<char>, a: usize, b: usize) -> (r: Vec<char>)
    requires
        a <= b <= s@.len(),
    ensures
        r@ == s@.subrange(a as int, b as int),
{
    let mut out: Vec<char> = Vec::new();
    let mut i: usize = a;
    while i < b
        invariant
            a <= i <= b <= s@.len(),
            out@ == s@.subrange(a as int, i as int),
        decreases b - i,
    {
        out.push(s[i]);
        i = i + 1;
        assert(out@ =~= s@.subrange(a as int, i as int));
    }
    out
}

/// `s` trimmed of white space at both ends.
fn trimmed(s: &Vec<char>) -> (r: Vec<char>)
    ensures
        r@ == trim(s@),
{
    let mut a: usize = 0;
    assert(s@.skip(0) =~= s@);
    while a < s.len() && space(s[a])
        invariant
            a <= s@.len(),
            trim_start(s@) == trim_start(s@.skip(a as int)),
        decreases s@.len() - a,
    {
        assert(s@.skip(a as int).skip(1) =~= s@.skip(a + 1));
        a = a + 1;
    }
    let ghost t = s@.skip(a as int);
    assert(trim_start(t) == t);
    let mut b: usize = s.len();
    assert(t.take(t.len() as int) =~= t);
    while b > a && space(s[b - 1])
        invariant
            a <= b <= s@.len(),
            t == s@.skip(a as int),
            trim_end(t) == trim_end(t.take(b - a)),
        decreases b,
    {
        assert(t.take(b - a).drop_last() =~= t.take(b - 1 - a));
        b = b - 1;
    }
    assert(trim_end(t.take(b - a)) == t.take(b - a));
    assert(t.take(b - a) =~= s@.subrange(a as int, b as int));
    slice(s, a, b)
}

/// The pieces of `s` between commas, each trimmed.
fn split_params(s: &Vec<char>) -> (r: Vec<String>)
    ensures
        texts(r@) == split_on(s@, ',').map_values(|x: Seq<char>| trim(x)),
{
    let mut out: Vec<String> = Vec::new();
    let mut pos: usize = 0;
    let n = s.len();
    assert(s@.skip(0) =~= s@);
    loop
        invariant
            n == s@.len(),
            pos <= s@.len(),
            texts(out@) + split_on(s@.skip(pos as int), ',').map_values(|x: Seq<char>| trim(x))
                == split_on(s@, ',').map_values(|x: Seq<char>| trim(x)),
        decreases s@.len() - pos,
    {
        let ghost rest = s@.skip(pos as int);
        let ghost before = texts(out@);
        match find_from(s, pos, ',') {
            Some(k) => {
                assert(k < s@.len() - pos);
                let piece = slice(s, pos, pos + k);
                let t = trimmed(&piece);
                out.push(string_of(&t));
                proof {
                    assert(piece@ =~= rest.take(k as int));
                    assert(rest.skip(k + 1) =~= s@.skip(pos + k + 1));
                    assert(split_on(rest, ',') == seq![rest.take(k as int)] + split_on(
                        rest.skip(k + 1),
                        ',',
                    ));
                    assert(texts(out@) =~= before.push(trim(rest.take(k as int))));
                    assert(split_on(rest, ',').map_values(|x: Seq<char>| trim(x)) =~= seq![
                        trim(rest.take(k as int)),
                    ] + split_on(s@.skip(pos + k + 1), ',').map_values(|x: Seq<char>| trim(x)));
                }
                pos = pos + k + 1;
            },
            None => {
                let piece = slice(s, pos, s.len());
                let t = trimmed(&piece);
                out.push(string_of(&t));
                proof {
                    assert(piece@ =~= rest);
                    assert(split_on(rest, ',') == seq![rest]);
                    assert(texts(out@) =~= before.push(trim(rest)));
                    assert(split_on(rest, ',').map_values(|x: Seq<char>| trim(x)) =~= seq![
                        trim(rest),
                    ]);
                }
                return out;
            },
        }
    }
}

/// The header of one line, if it is a `function` line.
fn header_of(line: &Vec<char>) -> (r: Option<(String, Vec<String>)>)
    ensures
        match r {
            Some(h) => line_header(line@) == Some((h.0@, texts(h.1@))),
            None => line_header(line@) is None,
        },
{
    proof {
        reveal_strlit("function");
    }
    let t = trimmed(line);
    let kw = chars_of("function");
    if t.len() < 8 {
        return None;
    }
    let mut i: usize = 0;
    while i < 8
        invariant
            i <= 8 <= t@.len(),
            kw@ == "function"@,
            kw@.len() == 8,
            t@ == trim(line@),
            forall|j: int| 0 <= j < i ==> t@[j] == kw@[j],
        decreases 8 - i,
    {
        if t[i] != kw[i] {
            assert(t@.take(8)[i as int] != "function"@[i as int]);
            assert(!crate::text::has_prefix(t@, "function"@));
            return None;
        }
        i = i + 1;
    }
    assert(t@.take(8) =~= "function"@);
    let after = slice(&t, 8, t.len());
    assert(after@ =~= t@.skip(8));
    let l = trimmed(&after);
    let p = match find_from(&l, 0, '(') {
        Some(p) => p,
        None => {
            assert(l@.skip(0) =~= l@);
            return None;
        },
    };
    assert(l@.skip(0) =~= l@);
    let name = slice(&l, 0, p);
    let name_t = trimmed(&name);
    assert(name@ =~= l@.take(p as int));
    let e = match find_from(&l, p + 1, ')') {
        Some(e) => e,
        None => {
            return None;
        },
    };
    let ps = slice(&l, p + 1, p + 1 + e);
    assert(ps@ =~= l@.skip(p + 1).take(e as int));
    let params = if ps.len() == 0 {
        let v: Vec<String> = Vec::new();
        assert(texts(v@) =~= Seq::empty());
        v
    } else {
        split_params(&ps)
    };
    Some((string_of(&name_t), params))
}

/// The headers of the `function` lines of `s`.
fn scan_headers(s: &Vec<char>) -> (r: Vec<(String, Vec<String>)>)
    ensures
        r@.map_values(|h: (String, Vec<String>)| (h.0@, texts(h.1@))) == headers_of(s@),
{
    let mut out: Vec<(String, Vec<String>)> = Vec::new();
    let mut pos: usize = 0;
    let n = s.len();
    assert(s@.skip(0) =~= s@);
    loop
        invariant
            n == s@.len(),
            pos <= s@.len(),
            out@.map_values(|h: (String, Vec<String>)| (h.0@, texts(h.1@))) + headers_of(
                s@.skip(pos as int),
            ) == headers_of(s@),
        decreases s@.len() - pos,
    {
        let ghost rest = s@.skip(pos as int);
        let ghost before = out@.map_values(|h: (String, Vec<String>)| (h.0@, texts(h.1@)));
        let found = find_from(s, pos, '\n');
        let end = match found {
            Some(k) => {
                assert(k < s@.len() - pos);
                pos + k
            },
            None => s.len(),
        };
        let line = slice(s, pos, end);
        let h = header_of(&line);
        let ghost here = match line_header(line@) {
            Some(x) => seq![x],
            None => Seq::<(Seq<char>, Seq<Seq<char>>)>::empty(),
        };
        match h {
            Some(x) => {
                let ghost xv = (x.0@, texts(x.1@));
                out.push(x);
                assert(out@.map_values(|h: (String, Vec<String>)| (h.0@, texts(h.1@))) =~= before.push(xv));
            },
            None => {},
        }
        assert(out@.map_values(|h: (String, Vec<String>)| (h.0@, texts(h.1@))) =~= before + here);
        match found {
            Some(k) => {
                proof {
                    assert(line@ =~= rest.take(k as int));
                    assert(rest.skip(k + 1) =~= s@.skip(pos + k + 1));
                    assert(headers_of(rest) == here + headers_of(s@.skip(pos + k + 1)));
                    assert(before + (here + headers_of(s@.skip(pos + k + 1))) =~= (before + here)
                        + headers_of(s@.skip(pos + k + 1)));
                }
                pos = pos + k + 1;
            },
            None => {
                proof {
                    assert(line@ =~= rest);
                    assert(headers_of(rest) == here);
                }
                return out;
            },
        }
    }
}

/// The program that the quick scan of `source` finds: one function with
/// an empty body for each `function` line (see `headers_of`), or, where
/// there is none, a `main` that returns 0.
pub fn parse_simple(source: &str) -> (r: Vec<HirExpr>)
    ensures
        headers_of(source@).len() > 0 ==> r@.len() == headers_of(source@).len() && forall|i: int|
            0 <= i < r@.len() ==> (#[trigger] r@[i] matches HirExpr::Function { name, params, body }
                && name@ == headers_of(source@)[i].0 && texts(params@) == headers_of(source@)[i].1
                && body@.len() == 0),
        headers_of(source@).len() == 0 ==> r@.len() == 1 && (r@[0] matches HirExpr::Function {
            name,
            params,
            body,
        } && name@ == "main"@ && params@.len() == 0 && body@.len() == 1 && body@[0] == HirExpr::Return(
            Some(Box::new(HirExpr::Number(0))),
        )),
{
    let cs = chars_of(source);
    let hs = scan_headers(&cs);
    let ghost hv = hs@.map_values(|h: (String, Vec<String>)| (h.0@, texts(h.1@)));
    let mut out: Vec<HirExpr> = Vec::new();
    let mut i: usize = 0;
    while i < hs.len()
        invariant
            i <= hs@.len(),
            hv == hs@.map_values(|h: (String, Vec<String>)| (h.0@, texts(h.1@))),
            out@.len() == i,
            forall|j: int|
                0 <= j < i ==> (#[trigger] out@[j] matches HirExpr::Function { name, params, body }
                    && name@ == hv[j].0 && texts(params@) == hv[j].1 && body@.len() == 0),
        decreases hs@.len() - i,
    {
        let (name, params) = &hs[i];
        assert(hv[i as int] == (name@, texts(params@)));
        out.push(HirExpr::Function { name: name.clone(), params: params.clone(), body: Vec::new() });
        i = i + 1;
    }
    if out.len() == 0 {
        proof {
            reveal_strlit("main");
        }
        out.push(
            HirExpr::Function {
                name: crate::text::owned("main"),
                params: Vec::new(),
                body: vec![HirExpr::Return(Some(Box::new(HirExpr::Number(0))))],
            },
        );
    }
    out
}

} // verus!
