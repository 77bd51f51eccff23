//! Argument-to-struct-type resolution against the kernel signature catalog.
//!
//! A catalog entry carries a C-style signature such as
//! `(const struct path * path, struct file * file)`.  Resolving an argument
//! name against it strips parentheses and `const`, splits the parameter
//! list on commas, and finds the parameter whose trailing token equals the
//! argument name; the result is that parameter's type text and its
//! position.  No match is a hard failure for the caller, never a default.

use vstd::prelude::*;
use crate::textutil::{chars_eq, chars_to_string, join_char, join_char_vecs, str_to_chars};

verus! {

/// The whitespace characters the trimming step removes.
pub open spec fn is_space(c: char) -> bool {
    c == ' ' || c == '\t' || c == '\n' || c == '\r'
}

/// `s` with every occurrence of the character `c` removed.
pub open spec fn remove_char(s: Seq<char>, c: char) -> Seq<char>
    decreases s.len(),
{
    if s.len() == 0 {
        s
    } else {
        remove_char(s.drop_last(), c) + (if s.last() == c {
            Seq::empty()
        } else {
            seq![s.last()]
        })
    }
}

/// `s` with every occurrence of the non-empty pattern `p` removed,
/// scanning left to right without overlap.
pub open spec fn remove_pat(s: Seq<char>, p: Seq<char>) -> Seq<char>
    decreases s.len(),
{
    if s.len() == 0 || p.len() == 0 {
        s
    } else if p.len() <= s.len() && s.take(p.len() as int) == p {
        remove_pat(s.skip(p.len() as int), p)
    } else {
        seq![s[0]] + remove_pat(s.skip(1), p)
    }
}

/// `s` split on the separator character: `split_char("a,b", ',') == ["a", "b"]`,
/// an empty input yields one empty part, separators at the ends yield empty
/// parts.  The result always has at least one part.
pub open spec fn split_char(s: Seq<char>, sep: char) -> Seq<Seq<char>>
    decreases s.len(),
{
    if s.len() == 0 {
        seq![s]
    } else if s[0] == sep {
        seq![Seq::<char>::empty()] + split_char(s.skip(1), sep)
    } else {
        let rest = split_char(s.skip(1), sep);
        seq![seq![s[0]] + rest[0]] + rest.skip(1)
    }
}

pub proof fn lemma_split_len(s: Seq<char>, sep: char)
    ensures
        split_char(s, sep).len() >= 1,
    decreases s.len(),
{
    if s.len() == 0 {
    } else if s[0] == sep {
        lemma_split_len(s.skip(1), sep);
    } else {
        lemma_split_len(s.skip(1), sep);
    }
}

/// `s` without its leading whitespace.
pub open spec fn ltrim(s: Seq<char>) -> Seq<char>
    decreases s.len(),
{
    if s.len() > 0 && is_space(s[0]) {
        ltrim(s.skip(1))
    } else {
        s
    }
}

/// `s` without its trailing whitespace.
pub open spec fn rtrim(s: Seq<char>) -> Seq<char>
    decreases s.len(),
{
    if s.len() > 0 && is_space(s.last()) {
        rtrim(s.drop_last())
    } else {
        s
    }
}

/// `s` without leading and trailing whitespace.
pub open spec fn trim(s: Seq<char>) -> Seq<char> {
    rtrim(ltrim(s))
}

/// The signature text after removing parentheses and `const`.
pub open spec fn cleaned_sig(sig: Seq<char>) -> Seq<char> {
    remove_pat(remove_char(remove_char(sig, '('), ')'), "const"@)
}

/// The comma-separated parameter texts of a signature.
pub open spec fn sig_parts(sig: Seq<char>) -> Seq<Seq<char>> {
    split_char(cleaned_sig(sig), ',')
}

/// The space-separated tokens of one trimmed parameter text.
pub open spec fn part_tokens(p: Seq<char>) -> Seq<Seq<char>> {
    split_char(trim(p), ' ')
}

/// A parameter matches the argument name exactly when its trailing token
/// equals the name.
pub open spec fn part_matches(p: Seq<char>, arg: Seq<char>) -> bool {
    part_tokens(p).last() == arg
}

/// The declared type of a parameter: every token but the trailing name,
/// joined with single spaces.
pub open spec fn part_type(p: Seq<char>) -> Seq<char> {
    join_char(part_tokens(p).drop_last(), ' ')
}

/// The position of the first matching parameter, if any.
pub open spec fn find_match(parts: Seq<Seq<char>>, arg: Seq<char>) -> Option<int>
    decreases parts.len(),
{
    if parts.len() == 0 {
        Option::None
    } else if part_matches(parts[0], arg) {
        Option::Some(0int)
    } else {
        match find_match(parts.skip(1), arg) {
            Option::Some(i) => Option::Some(i + 1),
            Option::None => Option::None,
        }
    }
}

/// Resolving an argument name in a signature: the first parameter whose
/// trailing token equals the name yields its type text and position.
pub open spec fn resolve_sig(sig: Seq<char>, arg: Seq<char>) -> Option<(Seq<char>, int)> {
    match find_match(sig_parts(sig), arg) {
        Option::Some(i) => Option::Some((part_type(sig_parts(sig)[i]), i)),
        Option::None => Option::None,
    }
}

fn remove_char_exec(v: &Vec<char>, c: char) -> (r: Vec<char>)
    ensures
        r@ == remove_char(v@, c),
{
    let mut out: Vec<char> = Vec::new();
    let mut i: usize = 0;
    while i < v.len()
        invariant
            i <= v.len(),
            out@ =~= remove_char(v@.take(i as int), c),
        decreases v.len() - i,
    {
        if v[i] != c {
            out.push(v[i]);
        }
        proof {
            assert(v@.take(i + 1 as int).drop_last() =~= v@.take(i as int));
            assert(v@.take(i + 1 as int).last() == v@[i as int]);
            assert(out@ =~= remove_char(v@.take(i + 1 as int), c));
        }
        i = i + 1;
    }
    proof {
        assert(v@.take(v@.len() as int) =~= v@);
    }
    out
}

fn remove_const_exec(v: &Vec<char>) -> (r: Vec<char>)
    ensures
        r@ == remove_pat(v@, "const"@),
{
    proof {
        reveal_strlit("const");
    }
    let ghost p: Seq<char> = "const"@;
    let mut out: Vec<char> = Vec::new();
    let mut i: usize = 0;
    proof {
        assert(v@.skip(0) =~= v@);
    }
    while i < v.len()
        invariant
            i <= v.len(),
            p == "const"@,
            remove_pat(v@, p) =~= out@ + remove_pat(v@.skip(i as int), p),
        decreases v.len() - i,
    {
        proof {
            reveal_strlit("const");
            assert(p.len() == 5);
        }
        let hit = v.len() - i >= 5 && v[i] == 'c' && v[i + 1] == 'o' && v[i + 2] == 'n' && v[i
            + 3] == 's' && v[i + 4] == 't';
        if hit {
            proof {
                assert(p[0] == 'c' && p[1] == 'o' && p[2] == 'n' && p[3] == 's' && p[4] == 't');
                let s = v@.skip(i as int);
                assert(s.take(5)[0] == v@[i as int]);
                assert(s.take(5)[1] == v@[i + 1 as int]);
                assert(s.take(5)[2] == v@[i + 2 as int]);
                assert(s.take(5)[3] == v@[i + 3 as int]);
                assert(s.take(5)[4] == v@[i + 4 as int]);
                assert(s.take(5) =~= p);
                assert(s.skip(5) =~= v@.skip(i + 5 as int));
                assert(remove_pat(s, p) == remove_pat(v@.skip(i + 5 as int), p));
            }
            i = i + 5;
        } else {
            proof {
                assert(p[0] == 'c' && p[1] == 'o' && p[2] == 'n' && p[3] == 's' && p[4] == 't');
                let s = v@.skip(i as int);
                if 5 <= s.len() && s.take(5) == p {
                    assert(s.take(5)[0] == v@[i as int]);
                    assert(s.take(5)[1] == v@[i + 1 as int]);
                    assert(s.take(5)[2] == v@[i + 2 as int]);
                    assert(s.take(5)[3] == v@[i + 3 as int]);
                    assert(s.take(5)[4] == v@[i + 4 as int]);
                    assert(false);
                }
                assert(remove_pat(s, p) == seq![s[0]] + remove_pat(s.skip(1), p));
                assert(s[0] == v@[i as int]);
                assert(s.skip(1) =~= v@.skip(i + 1 as int));
            }
            out.push(v[i]);
            i = i + 1;
        }
    }
    proof {
        assert(v@.skip(v@.len() as int) =~= Seq::<char>::empty());
        assert(remove_pat(v@, p) =~= out@);
    }
    out
}

fn split_char_exec(v: &Vec<char>, sep: char) -> (r: Vec<Vec<char>>)
    ensures
        r.deep_view() == split_char(v@, sep),
        r.len() >= 1,
{
    let mut done: Vec<Vec<char>> = Vec::new();
    let mut cur: Vec<char> = Vec::new();
    let mut i: usize = 0;
    proof {
        lemma_split_len(v@, sep);
        assert(v@.skip(0) =~= v@);
    }
    while i < v.len()
        invariant
            i <= v.len(),
            split_char(v@.skip(i as int), sep).len() >= 1,
            split_char(v@, sep) =~= done.deep_view() + seq![cur@ + split_char(
                v@.skip(i as int),
                sep,
            )[0]] + split_char(v@.skip(i as int), sep).skip(1),
        decreases v.len() - i,
    {
        proof {
            lemma_split_len(v@.skip(i + 1 as int), sep);
            assert(v@.skip(i as int)[0] == v@[i as int]);
            assert(v@.skip(i as int).skip(1) =~= v@.skip(i + 1 as int));
        }
        if v[i] == sep {
            let ghost done_old = done;
            let ghost cur_old = cur;
            let ghost done_before = done.deep_view();
            let ghost cur_before = cur@;
            done.push(cur);
            cur = Vec::new();
            proof {
                let s_i = split_char(v@.skip(i as int), sep);
                let rest = split_char(v@.skip(i + 1 as int), sep);
                assert(s_i =~= seq![Seq::<char>::empty()] + rest);
                assert(s_i[0] =~= Seq::<char>::empty());
                assert(s_i.skip(1) =~= rest);
                crate::textutil::lemma_vec_push_deep_view(done_old, done, cur_old);
                assert(cur_old.deep_view() =~= cur_before);
                assert(done.deep_view() =~= done_before.push(cur_before));
                assert(cur_before + s_i[0] =~= cur_before);
                assert(rest =~= seq![rest[0]] + rest.skip(1));
                assert(split_char(v@, sep) =~= done_before + seq![cur_before] + rest);
                assert(split_char(v@, sep) =~= done.deep_view() + seq![cur@ + rest[0]]
                    + rest.skip(1));
            }
        } else {
            let ghost cur_before = cur@;
            cur.push(v[i]);
            proof {
                let s_i = split_char(v@.skip(i as int), sep);
                let rest = split_char(v@.skip(i + 1 as int), sep);
                assert(s_i =~= seq![seq![v@[i as int]] + rest[0]] + rest.skip(1));
                assert(s_i[0] =~= seq![v@[i as int]] + rest[0]);
                assert(s_i.skip(1) =~= rest.skip(1));
                assert(cur@ + rest[0] =~= cur_before + s_i[0]) by {
                    assert(cur@ =~= cur_before.push(v@[i as int]));
                };
                assert(split_char(v@, sep) =~= done.deep_view() + seq![cur@ + rest[0]] + rest.skip(
                    1,
                ));
            }
        }
        i = i + 1;
    }
    proof {
        assert(v@.skip(v@.len() as int) =~= Seq::<char>::empty());
        assert(split_char(v@.skip(i as int), sep) =~= seq![Seq::<char>::empty()]);
    }
    let ghost done_old = done;
    let ghost cur_old = cur;
    let ghost done_before = done.deep_view();
    let ghost cur_before = cur@;
    done.push(cur);
    proof {
        crate::textutil::lemma_vec_push_deep_view(done_old, done, cur_old);
        assert(cur_old.deep_view() =~= cur_before);
        assert(done.deep_view() =~= done_before.push(cur_before));
        assert(cur_before + Seq::<char>::empty() =~= cur_before);
        assert(split_char(v@, sep) =~= done_before + seq![cur_before]);
        assert(done.deep_view() =~= split_char(v@, sep));
    }
    done
}

fn trim_exec(v: &Vec<char>) -> (r: Vec<char>)
    ensures
        r@ == trim(v@),
{
    let mut a: usize = 0;
    proof {
        assert(v@.skip(0) =~= v@);
    }
    while a < v.len() && (v[a] == ' ' || v[a] == '\t' || v[a] == '\n' || v[a] == '\r')
        invariant
            a <= v.len(),
            ltrim(v@) == ltrim(v@.skip(a as int)),
        decreases v.len() - a,
    {
        proof {
            assert(v@.skip(a as int)[0] == v@[a as int]);
            assert(v@.skip(a as int).skip(1) =~= v@.skip(a + 1 as int));
        }
        a = a + 1;
    }
    proof {
        if a == v.len() {
            assert(v@.skip(a as int) =~= Seq::<char>::empty());
        }
        assert(ltrim(v@) == v@.skip(a as int));
    }
    let mut b: usize = v.len();
    proof {
        assert(v@.skip(a as int) =~= v@.subrange(a as int, b as int));
    }
    while b > a && (v[b - 1] == ' ' || v[b - 1] == '\t' || v[b - 1] == '\n' || v[b - 1] == '\r')
        invariant
            a <= b <= v.len(),
            ltrim(v@) == v@.skip(a as int),
            rtrim(v@.skip(a as int)) == rtrim(v@.subrange(a as int, b as int)),
        decreases b,
    {
        proof {
            let s = v@.subrange(a as int, b as int);
            assert(s.last() == v@[b - 1 as int]);
            assert(s.drop_last() =~= v@.subrange(a as int, b - 1 as int));
        }
        b = b - 1;
    }
    proof {
        let s = v@.subrange(a as int, b as int);
        if b > a {
            assert(!is_space(s.last()));
        }
        assert(rtrim(s) == s);
        assert(trim(v@) == v@.subrange(a as int, b as int));
    }
    let mut out: Vec<char> = Vec::new();
    let mut i: usize = a;
    while i < b
        invariant
            a <= i <= b <= v.len(),
            out@ =~= v@.subrange(a as int, i as int),
        decreases b - i,
    {
        out.push(v[i]);
        proof {
            assert(out@ =~= v@.subrange(a as int, i + 1 as int));
        }
        i = i + 1;
    }
    out
}

/// Resolves `arg` against the parameter list of `sig`: the first parameter
/// whose trailing token equals `arg` yields its type text (`const`
/// stripped) and its position.
pub fn resolve_in_signature(sig: &str, arg: &str) -> (r: Option<(String, usize)>)
    ensures
        match r {
            Option::Some(p) => resolve_sig(sig@, arg@) == Option::Some((p.0@, p.1 as int)),
            Option::None => resolve_sig(sig@, arg@) is None,
        },
{
    let sig_chars = str_to_chars(sig);
    let no_open = remove_char_exec(&sig_chars, '(');
    let no_parens = remove_char_exec(&no_open, ')');
    let cleaned = remove_const_exec(&no_parens);
    let parts = split_char_exec(&cleaned, ',');
    let arg_chars = str_to_chars(arg);
    let ghost pv = parts.deep_view();
    proof {
        assert(pv == sig_parts(sig@));
        assert(pv.skip(0) =~= pv);
    }
    let mut i: usize = 0;
    while i < parts.len()
        invariant
            i <= parts.len(),
            pv == parts.deep_view(),
            pv == sig_parts(sig@),
            arg_chars@ == arg@,
            parts.len() == pv.len(),
            match find_match(pv.skip(i as int), arg@) {
                Option::Some(k) => find_match(pv, arg@) == Option::Some(k + i),
                Option::None => find_match(pv, arg@) is None,
            },
        decreases parts.len() - i,
    {
        proof {
            assert(pv.skip(i as int)[0] == pv[i as int]);
            assert(pv.skip(i as int).skip(1) =~= pv.skip(i + 1 as int));
        }
        let trimmed = trim_exec(&parts[i]);
        let mut toks = split_char_exec(&trimmed, ' ');
        proof {
            assert(pv[i as int] == parts@[i as int]@);
            assert(toks.deep_view() == part_tokens(pv[i as int]));
            assert(toks.deep_view().last() == toks@[toks@.len() - 1]@);
        }
        let last = &toks[toks.len() - 1];
        if chars_eq(last, &arg_chars) {
            proof {
                assert(part_matches(pv[i as int], arg@));
                assert(find_match(pv.skip(i as int), arg@) == Option::Some(0int));
            }
            let ghost old_toks = toks.deep_view();
            toks.pop();
            proof {
                assert(toks.deep_view() =~= old_toks.drop_last());
            }
            let ty = join_char_vecs(&toks, ' ');
            let ty_s = chars_to_string(&ty);
            proof {
                assert(ty_s@ == part_type(pv[i as int]));
            }
            return Option::Some((ty_s, i));
        }
        proof {
            assert(!part_matches(pv[i as int], arg@));
        }
        i = i + 1;
    }
    proof {
        assert(pv.skip(pv.len() as int) =~= Seq::<Seq<char>>::empty());
        assert(find_match(pv, arg@) is None);
    }
    Option::None
}

/// One catalog entry: a kernel function and its declared signature text.
pub struct CatalogEntry {
    pub function_name: String,
    pub signature: String,
}

/// The kernel signature catalog, an ordered list of entries; lookups find
/// the first entry with the requested function name.
pub struct Catalog {
    pub entries: Vec<CatalogEntry>,
}

/// The signature of the first entry named `name`, if any.
pub open spec fn lookup_spec(entries: Seq<CatalogEntry>, name: Seq<char>) -> Option<Seq<char>>
    decreases entries.len(),
{
    if entries.len() == 0 {
        Option::None
    } else if entries[0].function_name@ == name {
        Option::Some(entries[0].signature@)
    } else {
        lookup_spec(entries.skip(1), name)
    }
}

impl Catalog {
    /// Looks `name` up; `None` exactly when no entry carries that name.
    pub fn lookup(&self, name: &str) -> (r: Option<&String>)
        ensures
            match r {
                Option::Some(sig) => lookup_spec(self.entries@, name@) == Option::Some(sig@),
                Option::None => lookup_spec(self.entries@, name@) is None,
            },
    {
        let ghost ev = self.entries@;
        proof {
            assert(ev.skip(0) =~= ev);
        }
        let mut i: usize = 0;
        while i < self.entries.len()
            invariant
                i <= self.entries.len(),
                ev == self.entries@,
                lookup_spec(ev, name@) == lookup_spec(ev.skip(i as int), name@),
            decreases self.entries.len() - i,
        {
            proof {
                assert(ev.skip(i as int)[0] == ev[i as int]);
                assert(ev.skip(i as int).skip(1) =~= ev.skip(i + 1 as int));
            }
            if crate::textutil::str_eq(self.entries[i].function_name.as_str(), name) {
                return Option::Some(&self.entries[i].signature);
            }
            i = i + 1;
        }
        proof {
            assert(ev.skip(ev.len() as int) =~= Seq::<CatalogEntry>::empty());
        }
        Option::None
    }
}

} // verus!
