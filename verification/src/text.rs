//! Verified text helpers: splitting, searching, trimming and decimal
//! rendering over `String` / `&str`, with exact contracts over their
//! character sequences.  The mount-table and tool-output parsers are
//! built on these.

use vstd::prelude::*;

verus! {

/// Separator class used when splitting a line into whitespace-delimited
/// fields: a space or a horizontal tab.
pub open spec fn is_field_sep(c: char) -> bool {
    c == ' ' || c == '\t'
}

/// Characters removed by `trim_str`, mirroring the usual notion of
/// leading/trailing whitespace in tool output.
pub open spec fn is_trim_ws(c: char) -> bool {
    c == ' ' || c == '\t' || c == '\n' || c == '\r'
}

/// Whether `c` is a decimal digit (`0` through `9`).
pub open spec fn is_ascii_digit_char(c: char) -> bool {
    48 <= c as u32 && c as u32 <= 57
}

/// Splits `s` at every character satisfying `sep`.  A sequence with no
/// separator yields one piece; every separator adds one piece, so the
/// result is never empty and joining the pieces with a separator gives
/// back `s`.
pub open spec fn spec_split_on(s: Seq<char>, sep: spec_fn(char) -> bool) -> Seq<Seq<char>>
    decreases s.len(),
{
    if s.len() == 0 {
        seq![Seq::<char>::empty()]
    } else if sep(s[0]) {
        seq![Seq::<char>::empty()] + spec_split_on(s.drop_first(), sep)
    } else {
        let rest = spec_split_on(s.drop_first(), sep);
        seq![seq![s[0]] + rest[0]] + rest.drop_first()
    }
}

/// The split result is never empty.
pub proof fn lemma_split_on_len(s: Seq<char>, sep: spec_fn(char) -> bool)
    ensures
        spec_split_on(s, sep).len() >= 1,
    decreases s.len(),
{
    if s.len() == 0 {
    } else {
        lemma_split_on_len(s.drop_first(), sep);
    }
}

/// Appending one character extends the last piece, or starts a fresh
/// empty piece if the character is a separator.
pub proof fn lemma_split_on_push(s: Seq<char>, c: char, sep: spec_fn(char) -> bool)
    ensures
        spec_split_on(s, sep).len() >= 1,
        sep(c) ==> spec_split_on(s.push(c), sep) == spec_split_on(s, sep).push(
            Seq::<char>::empty(),
        ),
        !sep(c) ==> spec_split_on(s.push(c), sep) == spec_split_on(s, sep).update(
            spec_split_on(s, sep).len() - 1,
            spec_split_on(s, sep).last().push(c),
        ),
    decreases s.len(),
{
    lemma_split_on_len(s, sep);
    if s.len() == 0 {
        assert(s.push(c).len() == 1);
        assert(s.push(c)[0] == c);
        assert(s.push(c).drop_first() =~= Seq::<char>::empty());
        assert(s =~= Seq::<char>::empty());
        if sep(c) {
            assert(spec_split_on(s.push(c), sep) =~~= spec_split_on(s, sep).push(
                Seq::<char>::empty(),
            ));
        } else {
            assert(seq![s.push(c)[0]] + spec_split_on(Seq::<char>::empty(), sep)[0] =~= seq![c]);
            assert(spec_split_on(s, sep).last().push(c) =~= seq![c]);
            assert(spec_split_on(s.push(c), sep) =~~= spec_split_on(s, sep).update(
                0,
                spec_split_on(s, sep).last().push(c),
            ));
        }
    } else {
        let t = s.drop_first();
        lemma_split_on_len(t, sep);
        lemma_split_on_push(t, c, sep);
        assert(s.push(c)[0] == s[0]);
        assert(s.push(c).drop_first() =~= t.push(c));
        if sep(s[0]) {
            if sep(c) {
                assert(spec_split_on(s.push(c), sep) =~~= spec_split_on(s, sep).push(
                    Seq::<char>::empty(),
                ));
            } else {
                assert(spec_split_on(s.push(c), sep) =~~= spec_split_on(s, sep).update(
                    spec_split_on(s, sep).len() - 1,
                    spec_split_on(s, sep).last().push(c),
                ));
            }
        } else {
            let rest = spec_split_on(t, sep);
            let rest2 = spec_split_on(t.push(c), sep);
            if sep(c) {
                assert(rest2 == rest.push(Seq::<char>::empty()));
                assert(rest2[0] == rest[0]);
                assert(spec_split_on(s.push(c), sep) =~~= spec_split_on(s, sep).push(
                    Seq::<char>::empty(),
                ));
            } else {
                assert(rest2 == rest.update(rest.len() - 1, rest.last().push(c)));
                if rest.len() == 1 {
                    assert(rest2[0] == rest[0].push(c));
                    assert(spec_split_on(s.push(c), sep) =~~= spec_split_on(s, sep).update(
                        spec_split_on(s, sep).len() - 1,
                        spec_split_on(s, sep).last().push(c),
                    ));
                } else {
                    assert(rest2[0] == rest[0]);
                    assert(spec_split_on(s.push(c), sep) =~~= spec_split_on(s, sep).update(
                        spec_split_on(s, sep).len() - 1,
                        spec_split_on(s, sep).last().push(c),
                    ));
                }
            }
        }
    }
}

/// The predicate "is exactly the character `sep`", as a function value,
/// so that every use names one and the same term.
pub open spec fn char_sep(sep: char) -> spec_fn(char) -> bool {
    |c: char| c == sep
}

/// The field-separator class as a function value.
pub open spec fn field_sep_fn() -> spec_fn(char) -> bool {
    |c: char| is_field_sep(c)
}

/// Splitting `s` at every occurrence of the character `sep`.
pub open spec fn spec_split_char(s: Seq<char>, sep: char) -> Seq<Seq<char>> {
    spec_split_on(s, char_sep(sep))
}

/// Splits `s` at every occurrence of `sep`; the pieces, in order, with
/// separators removed.  `"a,b"` gives `["a", "b"]`; a trailing separator
/// yields a trailing empty piece.
pub fn split_char(s: &str, sep: char) -> (r: Vec<String>)
    ensures
        r.deep_view() == spec_split_char(s@, sep),
{
    let ghost p = char_sep(sep);
    let n = s.unicode_len();
    let mut pieces: Vec<String> = Vec::new();
    let mut start: usize = 0;
    let mut i: usize = 0;
    proof {
        assert(s@.take(0) =~= Seq::<char>::empty());
        assert(pieces.deep_view().push(s@.subrange(0, 0)) =~~= spec_split_on(s@.take(0), p));
    }
    while i < n
        invariant
            p == char_sep(sep),
            n == s@.len(),
            0 <= start <= i <= n,
            pieces.deep_view().push(s@.subrange(start as int, i as int)) == spec_split_on(
                s@.take(i as int),
                p,
            ),
        decreases n - i,
    {
        let c = s.get_char(i);
        proof {
            assert(s@.take(i + 1) =~= s@.take(i as int).push(s@[i as int]));
            lemma_split_on_push(s@.take(i as int), s@[i as int], p);
            assert(p(s@[i as int]) == (s@[i as int] == sep));
        }
        if c == sep {
            let ghost pdv = pieces.deep_view();
            let ghost old_split = spec_split_on(s@.take(i as int), p);
            let piece = s.substring_char(start, i).to_owned();
            pieces.push(piece);
            proof {
                assert(pieces.deep_view() =~~= pdv.push(s@.subrange(start as int, i as int)));
                assert(pieces.deep_view() =~~= old_split);
            }
            start = i + 1;
            proof {
                assert(s@.subrange(start as int, i + 1) =~= Seq::<char>::empty());
                assert(pieces.deep_view().push(s@.subrange(start as int, i + 1)) =~~=
                    spec_split_on(s@.take(i + 1), p));
            }
        } else {
            proof {
                let old_split = spec_split_on(s@.take(i as int), p);
                assert(old_split.last() == s@.subrange(start as int, i as int));
                assert(old_split.update(
                    old_split.len() - 1,
                    old_split.last().push(s@[i as int]),
                ) =~~= pieces.deep_view().push(
                    s@.subrange(start as int, i as int).push(s@[i as int]),
                ));
                assert(s@.subrange(start as int, i + 1) =~= s@.subrange(
                    start as int,
                    i as int,
                ).push(s@[i as int]));
            }
        }
        i = i + 1;
    }
    let ghost pdv = pieces.deep_view();
    let last = s.substring_char(start, n).to_owned();
    pieces.push(last);
    proof {
        assert(s@.take(n as int) =~= s@);
        assert(s@.subrange(start as int, n as int) == last@);
        assert(pieces.deep_view() =~~= pdv.push(last@));
        assert(pieces.deep_view() =~~= spec_split_char(s@, sep));
    }
    pieces
}

/// Splitting at whitespace separators (before removing empty pieces).
pub open spec fn spec_split_ws(s: Seq<char>) -> Seq<Seq<char>> {
    spec_split_on(s, field_sep_fn())
}

/// The predicate "this piece is not empty", as a single function value.
pub open spec fn nonempty_piece() -> spec_fn(Seq<char>) -> bool {
    |x: Seq<char>| x.len() > 0
}

/// The whitespace-delimited fields of a line, in order, with empty
/// pieces (runs of separators) removed.
pub open spec fn spec_ws_fields(s: Seq<char>) -> Seq<Seq<char>> {
    spec_split_ws(s).filter(nonempty_piece())
}

/// Splits a line into its whitespace-delimited fields.
pub fn ws_fields(s: &str) -> (r: Vec<String>)
    ensures
        r.deep_view() == spec_ws_fields(s@),
{
    let ghost p = field_sep_fn();
    let n = s.unicode_len();
    let mut pieces: Vec<String> = Vec::new();
    let mut start: usize = 0;
    let mut i: usize = 0;
    proof {
        assert(s@.take(0) =~= Seq::<char>::empty());
        assert(spec_split_on(s@.take(0), p) =~~= seq![Seq::<char>::empty()]);
        assert(pieces.deep_view().push(s@.subrange(0, 0)) =~~= spec_split_on(s@.take(0), p));
    }
    while i < n
        invariant
            p == field_sep_fn(),
            n == s@.len(),
            0 <= start <= i <= n,
            pieces.deep_view().push(s@.subrange(start as int, i as int)) == spec_split_on(
                s@.take(i as int),
                p,
            ),
        decreases n - i,
    {
        let c = s.get_char(i);
        proof {
            assert(s@.take(i + 1) =~= s@.take(i as int).push(s@[i as int]));
            lemma_split_on_push(s@.take(i as int), s@[i as int], p);
            assert(p(s@[i as int]) == is_field_sep(s@[i as int]));
        }
        if c == ' ' || c == '\t' {
            let ghost pdv = pieces.deep_view();
            let ghost old_split = spec_split_on(s@.take(i as int), p);
            let piece = s.substring_char(start, i).to_owned();
            pieces.push(piece);
            proof {
                assert(pieces.deep_view() =~~= pdv.push(s@.subrange(start as int, i as int)));
                assert(pieces.deep_view() =~~= old_split);
            }
            start = i + 1;
            proof {
                assert(s@.subrange(start as int, i + 1) =~= Seq::<char>::empty());
                assert(pieces.deep_view().push(s@.subrange(start as int, i + 1)) =~~=
                    spec_split_on(s@.take(i + 1), p));
            }
        } else {
            proof {
                let old_split = spec_split_on(s@.take(i as int), p);
                assert(old_split.last() == s@.subrange(start as int, i as int));
                assert(old_split.update(
                    old_split.len() - 1,
                    old_split.last().push(s@[i as int]),
                ) =~~= pieces.deep_view().push(
                    s@.subrange(start as int, i as int).push(s@[i as int]),
                ));
                assert(s@.subrange(start as int, i + 1) =~= s@.subrange(
                    start as int,
                    i as int,
                ).push(s@[i as int]));
            }
        }
        i = i + 1;
    }
    let ghost pdv = pieces.deep_view();
    let last = s.substring_char(start, n).to_owned();
    pieces.push(last);
    proof {
        assert(s@.take(n as int) =~= s@);
        assert(pieces.deep_view() =~~= pdv.push(last@));
        assert(pieces.deep_view() =~~= spec_split_ws(s@));
    }
    // Drop the empty pieces, keeping the fields in order.
    let mut fields: Vec<String> = Vec::new();
    let mut j: usize = 0;
    let total = pieces.len();
    proof {
        assert(pieces.deep_view().take(0) =~= Seq::<Seq<char>>::empty());
        assert(Seq::<Seq<char>>::empty().filter(nonempty_piece()) =~=
            Seq::<Seq<char>>::empty());
        assert(fields.deep_view() =~= Seq::<Seq<char>>::empty());
    }
    while j < total
        invariant
            total == pieces.deep_view().len(),
            0 <= j <= total,
            pieces.deep_view() == spec_split_ws(s@),
            fields.deep_view() == pieces.deep_view().take(j as int).filter(nonempty_piece()),
        decreases total - j,
    {
        proof {
            let dv = pieces.deep_view();
            reveal_with_fuel(Seq::<Seq<char>>::filter, 2);
            assert(dv.take(j + 1).drop_last() =~= dv.take(j as int));
            assert(dv.take(j + 1).last() == dv[j as int]);
            assert(nonempty_piece()(dv[j as int]) == (dv[j as int].len() > 0));
        }
        let piece_len = pieces[j].as_str().unicode_len();
        if piece_len > 0 {
            let ghost fdv = fields.deep_view();
            let piece = pieces[j].clone();
            fields.push(piece);
            proof {
                let dv = pieces.deep_view();
                reveal_with_fuel(Seq::<Seq<char>>::filter, 2);
                assert(pieces@[j as int]@ == dv[j as int]);
                assert(fields.deep_view() =~~= fdv.push(dv[j as int]));
                assert(fields.deep_view() =~~= dv.take(j + 1).filter(nonempty_piece()));
            }
        } else {
            proof {
                let dv = pieces.deep_view();
                reveal_with_fuel(Seq::<Seq<char>>::filter, 2);
                assert(fields.deep_view() =~~= dv.take(j + 1).filter(nonempty_piece()));
            }
        }
        j = j + 1;
    }
    proof {
        assert(pieces.deep_view().take(total as int) =~= pieces.deep_view());
    }
    fields
}

/// The lines of `s`: pieces between newline characters, with a final
/// empty piece (from a trailing newline, or an empty input) dropped.
pub open spec fn spec_lines(s: Seq<char>) -> Seq<Seq<char>> {
    let ps = spec_split_char(s, '\n');
    if ps.last().len() == 0 {
        ps.drop_last()
    } else {
        ps
    }
}

/// Splits `s` into lines.
pub fn lines_of(s: &str) -> (r: Vec<String>)
    ensures
        r.deep_view() == spec_lines(s@),
{
    let mut ps = split_char(s, '\n');
    proof {
        lemma_split_on_len(s@, char_sep('\n'));
    }
    let k = ps.len();
    let last_empty = ps[k - 1].as_str().is_empty();
    if last_empty {
        let ghost pdv = ps.deep_view();
        let _ = ps.pop();
        proof {
            assert(ps.deep_view() =~~= pdv.drop_last());
        }
    }
    ps
}

/// Whether `prefix` begins `s`.
pub fn starts_with_str(s: &str, prefix: &str) -> (r: bool)
    ensures
        r == prefix@.is_prefix_of(s@),
{
    let n = s.unicode_len();
    let m = prefix.unicode_len();
    if m > n {
        return false;
    }
    let mut j: usize = 0;
    while j < m
        invariant
            n == s@.len(),
            m == prefix@.len(),
            m <= n,
            0 <= j <= m,
            forall|k: int| 0 <= k < j ==> s@[k] == prefix@[k],
        decreases m - j,
    {
        if s.get_char(j) != prefix.get_char(j) {
            proof {
                assert(s@[j as int] != prefix@[j as int]);
                assert(!prefix@.is_prefix_of(s@)) by {
                    if prefix@.is_prefix_of(s@) {
                        assert(s@.subrange(0, m as int)[j as int] == s@[j as int]);
                    }
                }
            }
            return false;
        }
        j = j + 1;
    }
    proof {
        assert(s@.subrange(0, m as int) =~= prefix@);
    }
    true
}

/// Whether `suffix` ends `s`.
pub fn ends_with_str(s: &str, suffix: &str) -> (r: bool)
    ensures
        r == suffix@.is_suffix_of(s@),
{
    let n = s.unicode_len();
    let m = suffix.unicode_len();
    if m > n {
        return false;
    }
    let off = n - m;
    let mut j: usize = 0;
    while j < m
        invariant
            n == s@.len(),
            m == suffix@.len(),
            m <= n,
            off == n - m,
            0 <= j <= m,
            forall|k: int| 0 <= k < j ==> s@[off + k] == suffix@[k],
        decreases m - j,
    {
        if s.get_char(off + j) != suffix.get_char(j) {
            proof {
                assert(s@[off + j] != suffix@[j as int]);
                assert(!suffix@.is_suffix_of(s@)) by {
                    if suffix@.is_suffix_of(s@) {
                        assert(s@.subrange(off as int, n as int)[j as int] == s@[off + j]);
                    }
                }
            }
            return false;
        }
        j = j + 1;
    }
    proof {
        assert(s@.subrange(off as int, n as int) =~= suffix@);
    }
    true
}

/// Whether `sub` occurs anywhere in `s` as a contiguous run.
pub open spec fn spec_contains_sub(s: Seq<char>, sub: Seq<char>) -> bool {
    exists|k: int|
        0 <= k <= s.len() - sub.len() && #[trigger] s.subrange(k, k + sub.len() as int) == sub
}

/// Substring search.
pub fn contains_str(s: &str, sub: &str) -> (r: bool)
    ensures
        r == spec_contains_sub(s@, sub@),
{
    let n = s.unicode_len();
    let m = sub.unicode_len();
    if m > n {
        return false;
    }
    if m == 0 {
        proof {
            assert(s@.subrange(0, 0 + sub@.len() as int) =~= sub@);
            assert(spec_contains_sub(s@, sub@));
        }
        return true;
    }
    let mut k: usize = 0;
    while k <= n - m
        invariant
            n == s@.len(),
            m == sub@.len(),
            0 < m <= n,
            0 <= k <= n - m + 1,
            forall|k2: int|
                0 <= k2 < k ==> #[trigger] s@.subrange(k2, k2 + m as int) != sub@,
        decreases n - m + 1 - k,
    {
        let mut j: usize = 0;
        let mut matched = true;
        while j < m
            invariant
                n == s@.len(),
                m == sub@.len(),
                m <= n,
                0 <= k <= n - m,
                0 <= j <= m,
                matched ==> forall|j2: int| 0 <= j2 < j ==> s@[k + j2] == sub@[j2],
                !matched ==> s@.subrange(k as int, k + m as int) != sub@,
            decreases m - j,
        {
            if matched {
                if s.get_char(k + j) != sub.get_char(j) {
                    proof {
                        assert(s@.subrange(k as int, k + m as int)[j as int] == s@[k + j]);
                    }
                    matched = false;
                }
            }
            j = j + 1;
        }
        if matched {
            proof {
                assert(s@.subrange(k as int, k + m as int) =~= sub@);
            }
            return true;
        }
        k = k + 1;
    }
    proof {
        assert(!spec_contains_sub(s@, sub@)) by {
            if spec_contains_sub(s@, sub@) {
                let w = choose|w: int|
                    0 <= w <= s@.len() - sub@.len() && #[trigger] s@.subrange(
                        w,
                        w + sub@.len() as int,
                    ) == sub@;
                assert(s@.subrange(w, w + m as int) == sub@);
            }
        }
    }
    false
}

/// `s` with every non-overlapping occurrence of `pat` replaced by
/// `rep`, scanning left to right.
pub open spec fn spec_replace_all(s: Seq<char>, pat: Seq<char>, rep: Seq<char>) -> Seq<char>
    decreases s.len(),
{
    if pat.len() == 0 || s.len() < pat.len() {
        s
    } else if s.take(pat.len() as int) == pat {
        rep + spec_replace_all(s.skip(pat.len() as int), pat, rep)
    } else {
        seq![s[0]] + spec_replace_all(s.drop_first(), pat, rep)
    }
}

/// Whether `pat` occurs in `s` starting at `at`.
fn region_matches(s: &str, at: usize, pat: &str) -> (r: bool)
    requires
        at + pat@.len() <= s@.len(),
    ensures
        r == (s@.subrange(at as int, at + pat@.len() as int) == pat@),
{
    let n = s.unicode_len();
    let m = pat.unicode_len();
    let mut j: usize = 0;
    while j < m
        invariant
            n == s@.len(),
            m == pat@.len(),
            at + m <= n,
            0 <= j <= m,
            forall|k: int| 0 <= k < j ==> s@[at + k] == pat@[k],
        decreases m - j,
    {
        if s.get_char(at + j) != pat.get_char(j) {
            proof {
                assert(s@.subrange(at as int, at + m as int)[j as int] == s@[at + j]);
            }
            return false;
        }
        j = j + 1;
    }
    proof {
        assert(s@.subrange(at as int, at + m as int) =~= pat@);
    }
    true
}

/// Replaces every non-overlapping occurrence of `pat` in `s` by `rep`,
/// scanning left to right.
pub fn replace_all(s: &str, pat: &str, rep: &str) -> (r: String)
    requires
        pat@.len() > 0,
    ensures
        r@ == spec_replace_all(s@, pat@, rep@),
{
    let n = s.unicode_len();
    let m = pat.unicode_len();
    if m > n {
        proof {
            assert(spec_replace_all(s@, pat@, rep@) == s@);
        }
        return s.to_owned();
    }
    let mut out = String::new();
    let mut i: usize = 0;
    proof {
        assert(s@.skip(0) =~= s@);
        assert(out@ + spec_replace_all(s@.skip(0), pat@, rep@) =~= spec_replace_all(
            s@,
            pat@,
            rep@,
        ));
    }
    while i <= n - m
        invariant
            n == s@.len(),
            m == pat@.len(),
            0 < m <= n,
            0 <= i <= n,
            out@ + spec_replace_all(s@.skip(i as int), pat@, rep@) == spec_replace_all(
                s@,
                pat@,
                rep@,
            ),
        decreases n - i,
    {
        proof {
            let rest = s@.skip(i as int);
            assert(rest.take(m as int) =~= s@.subrange(i as int, i + m as int));
        }
        if region_matches(s, i, pat) {
            out.append(rep);
            proof {
                let rest = s@.skip(i as int);
                assert(rest.skip(m as int) =~= s@.skip(i + m));
                assert(spec_replace_all(rest, pat@, rep@) == rep@ + spec_replace_all(
                    s@.skip(i + m),
                    pat@,
                    rep@,
                ));
            }
            i = i + m;
        } else {
            let piece = s.substring_char(i, i + 1);
            out.append(piece);
            proof {
                let rest = s@.skip(i as int);
                assert(rest[0] == s@[i as int]);
                assert(rest.drop_first() =~= s@.skip(i + 1));
                assert(piece@ =~= seq![s@[i as int]]);
                assert(spec_replace_all(rest, pat@, rep@) == seq![s@[i as int]]
                    + spec_replace_all(s@.skip(i + 1), pat@, rep@));
            }
            i = i + 1;
        }
    }
    let tail = s.substring_char(i, n);
    out.append(tail);
    proof {
        let rest = s@.skip(i as int);
        assert(rest.len() < m);
        assert(spec_replace_all(rest, pat@, rep@) == rest);
        assert(tail@ =~= rest);
    }
    out
}

/// `s` with leading whitespace removed.
pub open spec fn spec_trim_front(s: Seq<char>) -> Seq<char>
    decreases s.len(),
{
    if s.len() > 0 && is_trim_ws(s[0]) {
        spec_trim_front(s.drop_first())
    } else {
        s
    }
}

/// `s` with trailing whitespace removed.
pub open spec fn spec_trim_back(s: Seq<char>) -> Seq<char>
    decreases s.len(),
{
    if s.len() > 0 && is_trim_ws(s.last()) {
        spec_trim_back(s.drop_last())
    } else {
        s
    }
}

/// `s` with whitespace removed from both ends.
pub open spec fn spec_trim(s: Seq<char>) -> Seq<char> {
    spec_trim_back(spec_trim_front(s))
}

/// Removes leading and trailing whitespace, as tool output is trimmed
/// before its single payload (a device path, a UUID) is used.
pub fn trim_str(s: &str) -> (r: String)
    ensures
        r@ == spec_trim(s@),
{
    let n = s.unicode_len();
    let mut start: usize = 0;
    proof {
        assert(s@.skip(0) =~= s@);
    }
    loop
        invariant
            n == s@.len(),
            0 <= start <= n,
            spec_trim_front(s@) == spec_trim_front(s@.skip(start as int)),
        ensures
            start == n || !is_trim_ws(s@[start as int]),
        decreases n - start,
    {
        if start >= n {
            break;
        }
        let c = s.get_char(start);
        if !(c == ' ' || c == '\t' || c == '\n' || c == '\r') {
            break;
        }
        proof {
            assert(s@.skip(start as int).len() > 0);
            assert(s@.skip(start as int)[0] == s@[start as int]);
            assert(s@.skip(start + 1) =~= s@.skip(start as int).drop_first());
        }
        start = start + 1;
    }
    proof {
        if start < n {
            assert(s@.skip(start as int)[0] == s@[start as int]);
            assert(spec_trim_front(s@.skip(start as int)) == s@.skip(start as int));
        } else {
            assert(s@.skip(start as int) =~= Seq::<char>::empty());
        }
        assert(spec_trim_front(s@) == s@.skip(start as int));
    }
    let mut end: usize = n;
    proof {
        assert(s@.subrange(start as int, end as int) =~= s@.skip(start as int));
    }
    loop
        invariant
            n == s@.len(),
            0 <= start <= end <= n,
            spec_trim_front(s@) == s@.skip(start as int),
            spec_trim_back(s@.skip(start as int)) == spec_trim_back(
                s@.subrange(start as int, end as int),
            ),
        ensures
            end == start || !is_trim_ws(s@[end - 1]),
        decreases end,
    {
        if end <= start {
            break;
        }
        let c = s.get_char(end - 1);
        if !(c == ' ' || c == '\t' || c == '\n' || c == '\r') {
            break;
        }
        proof {
            let cur = s@.subrange(start as int, end as int);
            assert(cur.len() > 0);
            assert(cur.last() == s@[end - 1]);
            assert(cur.drop_last() =~= s@.subrange(start as int, end - 1));
        }
        end = end - 1;
    }
    proof {
        let cur = s@.subrange(start as int, end as int);
        if end > start {
            assert(cur.last() == s@[end - 1]);
            assert(spec_trim_back(cur) == cur);
        } else {
            assert(cur =~= Seq::<char>::empty());
        }
        assert(spec_trim(s@) == s@.subrange(start as int, end as int));
    }
    s.substring_char(start, end).to_owned()
}

/// The digit character for `d` (`0 <= d <= 9`).
pub open spec fn spec_digit_char(d: int) -> char {
    "0123456789"@[d]
}

/// The decimal rendering of `n`, most significant digit first, with no
/// leading zeros (a bare `0` for zero).
pub open spec fn spec_udec(n: nat) -> Seq<char>
    decreases n,
{
    if n < 10 {
        seq![spec_digit_char(n as int)]
    } else {
        spec_udec(n / 10).push(spec_digit_char((n % 10) as int))
    }
}

/// Renders `n` in decimal.
pub fn u64_dec(n: u64) -> (r: String)
    ensures
        r@ == spec_udec(n as nat),
    decreases n,
{
    let digits = "0123456789";
    proof {
        reveal_strlit("0123456789");
    }
    if n < 10 {
        let d = n as usize;
        let piece = digits.substring_char(d, d + 1);
        proof {
            assert(piece@ =~= seq![spec_digit_char(n as int)]);
        }
        piece.to_owned()
    } else {
        let d = (n % 10) as usize;
        let mut front = u64_dec(n / 10);
        let piece = digits.substring_char(d, d + 1);
        front.append(piece);
        proof {
            assert(piece@ =~= seq![spec_digit_char((n % 10) as int)]);
            assert((n / 10) as nat == (n as nat) / 10);
            assert((n % 10) as nat == (n as nat) % 10);
            assert(front@ =~= spec_udec(n as nat));
        }
        front
    }
}

/// Renders an index in decimal.
pub fn usize_dec(n: usize) -> (r: String)
    ensures
        r@ == spec_udec(n as nat),
{
    u64_dec(n as u64)
}

/// Whether every character of `s` is a decimal digit.
pub open spec fn spec_all_digits(s: Seq<char>) -> bool {
    forall|i: int| 0 <= i < s.len() ==> is_ascii_digit_char(#[trigger] s[i])
}

/// The number a digit sequence denotes.
pub open spec fn spec_digits_value(s: Seq<char>) -> int
    decreases s.len(),
{
    if s.len() == 0 {
        0
    } else {
        spec_digits_value(s.drop_last()) * 10 + (s.last() as u32 - 48)
    }
}

/// A digit sequence denotes a non-negative number.
pub proof fn lemma_digits_value_nonneg(s: Seq<char>)
    requires
        spec_all_digits(s),
    ensures
        spec_digits_value(s) >= 0,
    decreases s.len(),
{
    if s.len() > 0 {
        assert(spec_all_digits(s.drop_last()));
        lemma_digits_value_nonneg(s.drop_last());
    }
}

/// A digit sequence denotes at least what any of its prefixes denotes.
pub proof fn lemma_digits_value_prefix(s: Seq<char>, j: int)
    requires
        spec_all_digits(s),
        0 <= j <= s.len(),
    ensures
        spec_digits_value(s) >= spec_digits_value(s.take(j)),
    decreases s.len() - j,
{
    if j == s.len() {
        assert(s.take(j) =~= s);
    } else {
        lemma_digits_value_prefix(s, j + 1);
        assert(s.take(j + 1).drop_last() =~= s.take(j));
        assert(s.take(j + 1).last() == s[j]);
        assert(spec_all_digits(s.take(j)));
        lemma_digits_value_nonneg(s.take(j));
    }
}

/// Parses a decimal number.  The digits must denote a value that fits;
/// a sign, a unit or any other character makes this parse fail.
pub fn parse_u128_decimal(s: &str) -> (r: Option<u128>)
    ensures
        match r {
            Some(v) => spec_all_digits(s@) && s@.len() > 0 && v as int == spec_digits_value(s@),
            None => !(spec_all_digits(s@) && s@.len() > 0 && spec_digits_value(s@)
                <= u128::MAX as int),
        },
{
    let n = s.unicode_len();
    if n == 0 {
        return None;
    }
    let mut val: u128 = 0;
    let mut i: usize = 0;
    proof {
        assert(s@.take(0) =~= Seq::<char>::empty());
    }
    while i < n
        invariant
            n == s@.len(),
            0 <= i <= n,
            spec_all_digits(s@.take(i as int)),
            val as int == spec_digits_value(s@.take(i as int)),
        decreases n - i,
    {
        let c = s.get_char(i);
        let u = c as u32;
        if !(48 <= u && u <= 57) {
            proof {
                assert(!is_ascii_digit_char(s@[i as int]));
            }
            return None;
        }
        let d = (u - 48) as u128;
        let limit = (u128::MAX - d) / 10;
        proof {
            vstd::arithmetic::div_mod::lemma_fundamental_div_mod(
                u128::MAX as int - d as int,
                10,
            );
        }
        if val > limit {
            proof {
                let pre = s@.take(i as int);
                let cur = s@.take(i + 1);
                assert(cur.drop_last() =~= pre);
                assert(cur.last() == s@[i as int]);
                assert(spec_all_digits(cur));
                vstd::arithmetic::mul::lemma_mul_inequality(
                    limit as int + 1,
                    val as int,
                    10,
                );
                assert(spec_digits_value(cur) > u128::MAX as int);
                if spec_all_digits(s@) {
                    lemma_digits_value_prefix(s@, i + 1);
                    assert(s@.take(i + 1) == cur);
                }
            }
            return None;
        }
        proof {
            let pre = s@.take(i as int);
            let cur = s@.take(i + 1);
            assert(cur.drop_last() =~= pre);
            assert(cur.last() == s@[i as int]);
            assert(spec_all_digits(cur));
            vstd::arithmetic::mul::lemma_mul_inequality(val as int, limit as int, 10);
        }
        val = val * 10 + d;
        i = i + 1;
    }
    proof {
        assert(s@.take(n as int) =~= s@);
    }
    Some(val)
}

/// `base` and `rel` joined with a single path separator.
pub open spec fn spec_join_path(base: Seq<char>, rel: Seq<char>) -> Seq<char> {
    base + seq!['/'] + rel
}

/// Joins a directory path and a relative path with `/`.
pub fn join_path(base: &str, rel: &str) -> (r: String)
    ensures
        r@ == spec_join_path(base@, rel@),
{
    let mut out = base.to_owned();
    out.append("/");
    out.append(rel);
    proof {
        reveal_strlit("/");
        assert("/"@ =~= seq!['/']);
        assert(out@ =~= spec_join_path(base@, rel@));
    }
    out
}

/// Character-sequence equality of two string slices.
pub fn eq_str(a: &str, b: &str) -> (r: bool)
    ensures
        r == (a@ == b@),
{
    let n = a.unicode_len();
    let m = b.unicode_len();
    if n != m {
        return false;
    }
    let mut j: usize = 0;
    while j < n
        invariant
            n == a@.len(),
            n == b@.len(),
            0 <= j <= n,
            forall|k: int| 0 <= k < j ==> a@[k] == b@[k],
        decreases n - j,
    {
        if a.get_char(j) != b.get_char(j) {
            proof {
                assert(a@[j as int] != b@[j as int]);
            }
            return false;
        }
        j = j + 1;
    }
    proof {
        assert(a@ =~= b@);
    }
    true
}

} // verus!
