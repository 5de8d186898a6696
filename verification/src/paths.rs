//! Traversal-safe path handling. A path is modelled as its sequence of
//! `/`-separated segments; normalization resolves `.` and `..` segments and
//! reports an escape — a `..` that would climb above the root — instead of
//! ever producing a path outside it.

use vstd::prelude::*;

verus! {

/// The pieces of a string split on a separator character. Empty pieces (from
/// leading, trailing or doubled separators) are kept.
pub open spec fn char_split(s: Seq<char>, sep: char) -> Seq<Seq<char>>
    decreases s.len(),
{
    if s.len() == 0 {
        seq![Seq::<char>::empty()]
    } else if s.last() == sep {
        char_split(s.drop_last(), sep).push(Seq::<char>::empty())
    } else {
        let rest = char_split(s.drop_last(), sep);
        rest.update(rest.len() - 1, rest.last().push(s.last()))
    }
}

/// The segments of a path string, split on `/`; normalization drops the
/// empty ones.
pub open spec fn seg_split(s: Seq<char>) -> Seq<Seq<char>> {
    char_split(s, '/')
}

/// Resolves `.` and `..` against an already-normalized prefix, left to right.
/// `None` means some `..` would have climbed above the root.
pub open spec fn norm_segs(segs: Seq<Seq<char>>) -> Option<Seq<Seq<char>>>
    decreases segs.len(),
{
    if segs.len() == 0 {
        Some(Seq::<Seq<char>>::empty())
    } else {
        match norm_segs(segs.drop_last()) {
            None => None,
            Some(acc) => {
                let last = segs.last();
                if last.len() == 0 || last == seq!['.'] {
                    Some(acc)
                } else if last == seq!['.', '.'] {
                    if acc.len() == 0 {
                        None
                    } else {
                        Some(acc.drop_last())
                    }
                } else {
                    Some(acc.push(last))
                }
            },
        }
    }
}

/// Once a prefix of the segment list has escaped the root, the whole list
/// has.
proof fn lemma_norm_none_extends(segs: Seq<Seq<char>>, i: int)
    requires
        0 <= i <= segs.len(),
        norm_segs(segs.subrange(0, i)) is None,
    ensures
        norm_segs(segs) is None,
    decreases segs.len() - i,
{
    if i < segs.len() {
        assert(segs.subrange(0, i + 1).drop_last() =~= segs.subrange(0, i));
        lemma_norm_none_extends(segs, i + 1);
    } else {
        assert(segs.subrange(0, segs.len() as int) =~= segs);
    }
}

/// A relative path escapes its root when resolving its `..` segments would
/// climb above that root.
pub open spec fn escapes_root(path: Seq<char>) -> bool {
    norm_segs(seg_split(path)) is None
}

/// The segments joined back into a path string with `/` between them.
pub open spec fn join_segs(segs: Seq<Seq<char>>) -> Seq<char>
    decreases segs.len(),
{
    if segs.len() == 0 {
        Seq::<char>::empty()
    } else if segs.len() == 1 {
        segs[0]
    } else {
        join_segs(segs.drop_last()) + seq!['/'] + segs.last()
    }
}

/// The canonical form of a path string: its segments normalized and joined,
/// with a single leading `/`; `None` when the path escapes the root.
pub open spec fn canonical_path(s: Seq<char>) -> Option<Seq<char>> {
    match norm_segs(seg_split(s)) {
        None => None,
        Some(segs) => Some(seq!['/'] + join_segs(segs)),
    }
}

/// No character of this piece is the separator.
pub open spec fn sep_free(p: Seq<char>, sep: char) -> bool {
    forall|j: int| 0 <= j < p.len() ==> p[j] != sep
}

/// Splitting yields at least one piece.
pub proof fn lemma_char_split_len(s: Seq<char>, sep: char)
    ensures
        char_split(s, sep).len() >= 1,
    decreases s.len(),
{
    if s.len() > 0 {
        lemma_char_split_len(s.drop_last(), sep);
    }
}

/// Splitting never leaves the separator inside a piece.
pub proof fn lemma_char_split_sep_free(s: Seq<char>, sep: char)
    ensures
        forall|i: int|
            0 <= i < char_split(s, sep).len() ==> sep_free(#[trigger] char_split(s, sep)[i], sep),
    decreases s.len(),
{
    if s.len() > 0 {
        lemma_char_split_sep_free(s.drop_last(), sep);
        lemma_char_split_len(s.drop_last(), sep);
        let rest = char_split(s.drop_last(), sep);
        if s.last() != sep {
            assert(sep_free(rest[rest.len() - 1], sep));
            assert(sep_free(rest[rest.len() - 1].push(s.last()), sep));
        }
    }
}

/// Splitting a separator-free string yields that one piece.
proof fn lemma_split_single(p: Seq<char>, sep: char)
    requires
        sep_free(p, sep),
    ensures
        char_split(p, sep) == seq![p],
    decreases p.len(),
{
    if p.len() > 0 {
        assert(sep_free(p.drop_last(), sep));
        lemma_split_single(p.drop_last(), sep);
        assert(char_split(p, sep) =~= seq![p]) by {
            assert(p.drop_last().push(p.last()) =~= p);
        }
    } else {
        assert(char_split(p, sep) =~= seq![p]) by {
            assert(p =~= Seq::<char>::empty());
        }
    }
}

/// Appending a separator and one separator-free piece appends that piece to
/// the split.
proof fn lemma_split_append_piece(a: Seq<char>, b: Seq<char>, sep: char)
    requires
        sep_free(b, sep),
    ensures
        char_split(a + seq![sep] + b, sep) == char_split(a, sep).push(b),
    decreases b.len(),
{
    if b.len() == 0 {
        let s = a + seq![sep] + b;
        assert(s.last() == sep);
        assert(s.drop_last() =~= a);
        assert(char_split(s, sep) =~= char_split(a, sep).push(b)) by {
            assert(b =~= Seq::<char>::empty());
        }
    } else {
        let s = a + seq![sep] + b;
        assert(sep_free(b.drop_last(), sep));
        lemma_split_append_piece(a, b.drop_last(), sep);
        assert(s.drop_last() =~= a + seq![sep] + b.drop_last());
        assert(s.last() == b.last());
        let rest = char_split(s.drop_last(), sep);
        assert(rest == char_split(a, sep).push(b.drop_last()));
        assert(char_split(s, sep) =~= char_split(a, sep).push(b)) by {
            assert(rest.last() == b.drop_last());
            assert(b.drop_last().push(b.last()) =~= b);
            assert(rest.update(rest.len() - 1, b) =~= char_split(a, sep).push(b));
        }
    }
}

/// Splits a string on a separator character.
pub fn split_on(s: &str, sep: char) -> (r: Vec<String>)
    ensures
        r.deep_view() == char_split(s@, sep),
{
    let len = s.unicode_len();
    let mut done: Vec<String> = Vec::new();
    let mut cur: String = String::new();
    let mut i: usize = 0;
    while i < len
        invariant
            i <= len,
            len == s@.len(),
            char_split(s@.subrange(0, i as int), sep) =~= done.deep_view().push(cur@),
        decreases len - i,
    {
        let ghost prefix = s@.subrange(0, i as int);
        let c = s.get_char(i);
        proof {
            assert(s@.subrange(0, i + 1).drop_last() =~= prefix);
            assert(s@.subrange(0, i + 1).last() == c);
        }
        if c == sep {
            done.push(cur);
            cur = String::new();
            proof {
                assert(char_split(s@.subrange(0, i + 1), sep) =~= done.deep_view().push(cur@));
            }
        } else {
            cur.push(c);
            proof {
                assert(char_split(prefix, sep).len() == done.deep_view().len() + 1);
                assert(char_split(prefix, sep).last() == cur@.drop_last());
                assert(char_split(s@.subrange(0, i + 1), sep) =~= done.deep_view().push(cur@));
            }
        }
        i += 1;
    }
    proof {
        assert(s@.subrange(0, len as int) =~= s@);
    }
    done.push(cur);
    done
}

/// Splits a path string into its `/`-separated segments.
pub fn split_path(s: &str) -> (r: Vec<String>)
    ensures
        r.deep_view() == seg_split(s@),
{
    split_on(s, '/')
}

fn is_dot(seg: &String) -> (r: bool)
    ensures
        r == (seg@ == seq!['.']),
{
    if seg.unicode_len() == 1 {
        let r = seg.as_str().get_char(0) == '.';
        proof {
            if r {
                assert(seg@ =~= seq!['.']);
            } else {
                assert(seg@ != seq!['.']) by {
                    if seg@ == seq!['.'] {
                        assert(seg@[0] == '.');
                    }
                }
            }
        }
        r
    } else {
        proof {
            assert(seq!['.'].len() == 1);
        }
        false
    }
}

fn is_dot_dot(seg: &String) -> (r: bool)
    ensures
        r == (seg@ == seq!['.', '.']),
{
    if seg.unicode_len() == 2 {
        let r = seg.as_str().get_char(0) == '.' && seg.as_str().get_char(1) == '.';
        proof {
            if r {
                assert(seg@ =~= seq!['.', '.']);
            } else {
                assert(seg@ != seq!['.', '.']) by {
                    if seg@ == seq!['.', '.'] {
                        assert(seg@[0] == '.');
                        assert(seg@[1] == '.');
                    }
                }
            }
        }
        r
    } else {
        proof {
            assert(seq!['.', '.'].len() == 2);
        }
        false
    }
}

/// Resolves `.` and `..` in a segment list; `None` when the list escapes the
/// root.
pub fn normalize_segments(segs: &Vec<String>) -> (r: Option<Vec<String>>)
    ensures
        match r {
            Some(out) => norm_segs(segs.deep_view()) == Some(out.deep_view()),
            None => norm_segs(segs.deep_view()) is None,
        },
{
    let mut stack: Vec<String> = Vec::new();
    let mut i: usize = 0;
    while i < segs.len()
        invariant
            i <= segs.len(),
            norm_segs(segs.deep_view().subrange(0, i as int)) == Some(stack.deep_view()),
        decreases segs.len() - i,
    {
        let ghost prefix = segs.deep_view().subrange(0, i as int);
        proof {
            assert(segs.deep_view().subrange(0, i + 1).drop_last() =~= prefix);
            assert(segs.deep_view().subrange(0, i + 1).last() == segs.deep_view()[i as int]);
        }
        let seg = &segs[i];
        if seg.as_str().is_empty() || is_dot(seg) {
            // dropped
        } else if is_dot_dot(seg) {
            if stack.len() == 0 {
                proof {
                    assert(norm_segs(segs.deep_view().subrange(0, i + 1)) is None);
                    lemma_norm_none_extends(segs.deep_view(), i + 1);
                }
                return None;
            }
            stack.pop();
            proof {
                assert(norm_segs(segs.deep_view().subrange(0, i + 1)) == Some(
                    stack.deep_view(),
                ));
            }
        } else {
            stack.push(seg.clone());
            proof {
                assert(norm_segs(segs.deep_view().subrange(0, i + 1)) == Some(
                    stack.deep_view(),
                ));
            }
        }
        i += 1;
    }
    proof {
        assert(segs.deep_view().subrange(0, segs.deep_view().len() as int) =~= segs.deep_view());
    }
    Some(stack)
}

/// Joins segments back into a path string with `/` between them.
pub fn join_path(segs: &Vec<String>) -> (r: String)
    ensures
        r@ == join_segs(segs.deep_view()),
{
    let mut out = String::new();
    let mut i: usize = 0;
    while i < segs.len()
        invariant
            i <= segs.len(),
            out@ =~= join_segs(segs.deep_view().subrange(0, i as int)),
        decreases segs.len() - i,
    {
        let ghost prefix = segs.deep_view().subrange(0, i as int);
        proof {
            assert(segs.deep_view().subrange(0, i + 1).drop_last() =~= prefix);
            assert(segs.deep_view().subrange(0, i + 1).last() == segs.deep_view()[i as int]);
        }
        if i > 0 {
            out.push('/');
        }
        out.append(segs[i].as_str());
        proof {
            if i == 0 {
                assert(join_segs(segs.deep_view().subrange(0, 1)) == segs.deep_view()[0]);
                assert(out@ =~= segs.deep_view()[0]);
            } else {
                assert(out@ =~= join_segs(prefix) + seq!['/'] + segs.deep_view()[i as int]);
            }
        }
        i += 1;
    }
    proof {
        assert(segs.deep_view().subrange(0, segs.deep_view().len() as int) =~= segs.deep_view());
    }
    out
}

/// Normalizes a path string to its canonical `/`-prefixed form; `None` when
/// the path escapes the root.
pub fn canonicalize_path(s: &str) -> (r: Option<String>)
    ensures
        match r {
            Some(out) => canonical_path(s@) == Some(out@),
            None => canonical_path(s@) is None,
        },
{
    let segs = split_path(s);
    match normalize_segments(&segs) {
        None => None,
        Some(normed) => {
            let mut out = String::new();
            out.push('/');
            out.append(join_path(&normed).as_str());
            proof {
                assert(out@ =~= seq!['/'] + join_segs(normed.deep_view()));
            }
            Some(out)
        },
    }
}

/// The nonempty segments of a segment list, in order.
pub open spec fn nonempty_segs(segs: Seq<Seq<char>>) -> Seq<Seq<char>>
    decreases segs.len(),
{
    if segs.len() == 0 {
        Seq::<Seq<char>>::empty()
    } else {
        let rest = nonempty_segs(segs.drop_last());
        if segs.last().len() == 0 {
            rest
        } else {
            rest.push(segs.last())
        }
    }
}

/// On a list without `.` or `..` pieces, normalization just drops the empty
/// pieces.
proof fn lemma_norm_no_dots(segs: Seq<Seq<char>>)
    requires
        forall|i: int|
            0 <= i < segs.len() ==> #[trigger] segs[i] != seq!['.'] && segs[i] != seq!['.', '.'],
    ensures
        norm_segs(segs) == Some(nonempty_segs(segs)),
    decreases segs.len(),
{
    if segs.len() > 0 {
        let dl = segs.drop_last();
        assert(forall|i: int| 0 <= i < dl.len() ==> #[trigger] dl[i] == segs[i]);
        lemma_norm_no_dots(dl);
    }
}

/// Normalization only ever outputs nonempty pieces that are not `.` or `..`,
/// and never invents a separator the input did not have.
proof fn lemma_norm_output_clean(segs: Seq<Seq<char>>)
    requires
        forall|i: int| 0 <= i < segs.len() ==> sep_free(#[trigger] segs[i], '/'),
    ensures
        match norm_segs(segs) {
            Some(out) => forall|i: int|
                0 <= i < out.len() ==> #[trigger] out[i].len() > 0 && out[i] != seq!['.']
                    && out[i] != seq!['.', '.'] && sep_free(out[i], '/'),
            None => true,
        },
    decreases segs.len(),
{
    if segs.len() > 0 {
        let dl = segs.drop_last();
        assert(forall|i: int| 0 <= i < dl.len() ==> #[trigger] dl[i] == segs[i]);
        lemma_norm_output_clean(dl);
        if norm_segs(dl) is Some {
            let acc = norm_segs(dl).unwrap();
            if acc.len() > 0 {
                assert(forall|i: int|
                    0 <= i < acc.len() - 1 ==> #[trigger] acc.drop_last()[i] == acc[i]);
            }
            match norm_segs(segs) {
                Some(out) => {
                    assert(forall|i: int|
                        0 <= i < acc.len() ==> #[trigger] acc.push(segs.last())[i] == (if i
                            < acc.len() {
                            acc[i]
                        } else {
                            segs.last()
                        }));
                },
                None => {},
            }
        }
    }
}

/// On a list of nonempty pieces behind one empty piece, dropping the empty
/// pieces keeps exactly the list.
proof fn lemma_nonempty_prefixed(n: Seq<Seq<char>>)
    requires
        forall|i: int| 0 <= i < n.len() ==> (#[trigger] n[i]).len() > 0,
    ensures
        nonempty_segs(seq![Seq::<char>::empty()] + n) == n,
    decreases n.len(),
{
    let whole = seq![Seq::<char>::empty()] + n;
    if n.len() == 0 {
        assert(whole.drop_last() =~= Seq::<Seq<char>>::empty());
        assert(nonempty_segs(Seq::<Seq<char>>::empty()) =~= Seq::<Seq<char>>::empty());
        assert(whole.last().len() == 0);
        assert(nonempty_segs(whole) =~= n);
    } else {
        let dl = n.drop_last();
        assert(forall|i: int| 0 <= i < dl.len() ==> #[trigger] dl[i] == n[i]);
        lemma_nonempty_prefixed(dl);
        assert(whole.drop_last() =~= seq![Seq::<char>::empty()] + dl);
        assert(whole.last() == n[n.len() - 1]);
        assert(n[n.len() - 1].len() > 0);
        assert(nonempty_segs(whole.drop_last()) == dl);
        assert(nonempty_segs(whole) == nonempty_segs(whole.drop_last()).push(whole.last()));
        assert(nonempty_segs(whole) =~= n) by {
            assert(dl.push(n[n.len() - 1]) =~= n);
        }
    }
}

/// Splitting a `/`-prefixed join recovers an empty piece followed by the
/// joined pieces.
proof fn lemma_split_join_prefixed(n: Seq<Seq<char>>)
    requires
        n.len() > 0,
        forall|i: int| 0 <= i < n.len() ==> (#[trigger] n[i]).len() > 0 && sep_free(n[i], '/'),
    ensures
        seg_split(seq!['/'] + join_segs(n)) == seq![Seq::<char>::empty()] + n,
    decreases n.len(),
{
    if n.len() == 1 {
        assert(seq!['/'] + join_segs(n) =~= Seq::<char>::empty() + seq!['/'] + n[0]);
        lemma_split_append_piece(Seq::<char>::empty(), n[0], '/');
        lemma_split_single(Seq::<char>::empty(), '/');
        assert(char_split(Seq::<char>::empty(), '/').push(n[0]) =~= seq![Seq::<char>::empty()]
            + n);
    } else {
        let dl = n.drop_last();
        assert(forall|i: int| 0 <= i < dl.len() ==> #[trigger] dl[i] == n[i]);
        lemma_split_join_prefixed(dl);
        assert(seq!['/'] + join_segs(n) =~= (seq!['/'] + join_segs(dl)) + seq!['/'] + n.last());
        lemma_split_append_piece(seq!['/'] + join_segs(dl), n.last(), '/');
        assert((seq![Seq::<char>::empty()] + dl).push(n.last()) =~= seq![Seq::<char>::empty()]
            + n);
    }
}

/// Law: canonicalization is idempotent — a canonical path is its own
/// canonical form, so paths stored in canonical form match requests that
/// normalize to them, and never drift under repeated normalization.
pub proof fn lemma_canonical_idempotent(s: Seq<char>)
    ensures
        match canonical_path(s) {
            Some(c) => canonical_path(c) == Some(c),
            None => true,
        },
{
    if canonical_path(s) is Some {
        lemma_char_split_sep_free(s, '/');
        lemma_norm_output_clean(seg_split(s));
        let n = norm_segs(seg_split(s)).unwrap();
        let c = seq!['/'] + join_segs(n);
        if n.len() == 0 {
            assert(c =~= seq!['/']);
            assert(char_split(Seq::<char>::empty(), '/') =~= seq![Seq::<char>::empty()]);
            assert(seq!['/'].drop_last() =~= Seq::<char>::empty());
            assert(seg_split(seq!['/']) =~= seq![Seq::<char>::empty(), Seq::<char>::empty()]);
            let two = seq![Seq::<char>::empty(), Seq::<char>::empty()];
            lemma_norm_no_dots(two);
            assert(seq![Seq::<char>::empty()].drop_last() =~= Seq::<Seq<char>>::empty());
            assert(nonempty_segs(Seq::<Seq<char>>::empty()) =~= Seq::<Seq<char>>::empty());
            assert(nonempty_segs(seq![Seq::<char>::empty()]) =~= Seq::<Seq<char>>::empty());
            assert(two.drop_last() =~= seq![Seq::<char>::empty()]);
            assert(nonempty_segs(two) =~= Seq::<Seq<char>>::empty());
            assert(canonical_path(c) == Some(c)) by {
                assert(seq!['/'] + join_segs(Seq::<Seq<char>>::empty()) =~= c);
            }
        } else {
            lemma_split_join_prefixed(n);
            let whole = seq![Seq::<char>::empty()] + n;
            assert(forall|i: int|
                0 <= i < whole.len() ==> #[trigger] whole[i] != seq!['.'] && whole[i] != seq![
                    '.',
                    '.',
                ]) by {
                assert(forall|i: int| 1 <= i < whole.len() ==> whole[i] == n[i - 1]);
                assert(whole[0].len() == 0);
                assert(seq!['.'].len() == 1);
                assert(seq!['.', '.'].len() == 2);
            }
            lemma_norm_no_dots(whole);
            lemma_nonempty_prefixed(n);
            assert(canonical_path(c) == Some(c));
        }
    }
}

/// Splits a `store/rest...` path into the store name and the remaining path,
/// skipping empty segments; `None` when the path holds no nonempty segment.
pub fn parse_store_path(path: &str) -> (r: Option<(String, String)>)
    ensures
        ({
            let segs = nonempty_segs(seg_split(path@));
            match r {
                Some(p) => segs.len() > 0 && p.0@ == segs[0] && p.1@ == join_segs(
                    segs.drop_first(),
                ),
                None => segs.len() == 0,
            }
        }),
{
    let all = split_path(path);
    let mut kept: Vec<String> = Vec::new();
    let mut i: usize = 0;
    while i < all.len()
        invariant
            i <= all.len(),
            kept.deep_view() =~= nonempty_segs(all.deep_view().subrange(0, i as int)),
        decreases all.len() - i,
    {
        proof {
            assert(all.deep_view().subrange(0, i + 1).drop_last() =~= all.deep_view().subrange(
                0,
                i as int,
            ));
            assert(all.deep_view().subrange(0, i + 1).last() == all.deep_view()[i as int]);
        }
        if !all[i].as_str().is_empty() {
            kept.push(all[i].clone());
        }
        i += 1;
    }
    proof {
        assert(all.deep_view().subrange(0, all.deep_view().len() as int) =~= all.deep_view());
    }
    if kept.len() == 0 {
        return None;
    }
    let store = kept[0].clone();
    let mut rest: Vec<String> = Vec::new();
    let mut j: usize = 1;
    while j < kept.len()
        invariant
            1 <= j <= kept.len(),
            kept.len() >= 1,
            rest.deep_view() =~= kept.deep_view().subrange(1, j as int),
        decreases kept.len() - j,
    {
        rest.push(kept[j].clone());
        proof {
            assert(kept.deep_view().subrange(1, j + 1) =~= kept.deep_view().subrange(
                1,
                j as int,
            ).push(kept.deep_view()[j as int]));
        }
        j += 1;
    }
    proof {
        assert(kept.deep_view().subrange(1, kept.deep_view().len() as int) =~= kept.deep_view()
            .drop_first());
    }
    let joined = join_path(&rest);
    Some((store, joined))
}

/// The path of the file that stores one user's record.
pub fn path_user_file(username: &str) -> (r: String)
    ensures
        r@ == "users/"@ + username@ + ".toml"@,
{
    let mut out = String::new();
    out.append("users/");
    out.append(username);
    out.append(".toml");
    proof {
        assert(out@ =~= "users/"@ + username@ + ".toml"@);
    }
    out
}

} // verus!
