//! Splitting a delimited string into trimmed, non-empty target identifiers.
//!
//! The model mirrors `str::split`: splitting on a separator yields one piece
//! per gap, so an empty input yields one empty piece and adjacent separators
//! yield empty pieces between them. Trimming removes leading and trailing
//! whitespace. A target list keeps, in order, each piece whose trimmed form
//! is non-empty.

use vstd::prelude::*;

verus! {

/// A character that trimming removes at either end of a piece.
pub open spec fn is_space_char(c: char) -> bool {
    c == ' ' || c == '\t' || c == '\n' || c == '\r'
}

/// The sequence with its leading whitespace removed.
pub open spec fn trim_start_spec(s: Seq<char>) -> Seq<char>
    decreases s.len(),
{
    if s.len() > 0 && is_space_char(s[0]) {
        trim_start_spec(s.drop_first())
    } else {
        s
    }
}

/// The sequence with its trailing whitespace removed.
pub open spec fn trim_end_spec(s: Seq<char>) -> Seq<char>
    decreases s.len(),
{
    if s.len() > 0 && is_space_char(s.last()) {
        trim_end_spec(s.drop_last())
    } else {
        s
    }
}

/// The sequence with whitespace removed from both ends.
pub open spec fn trimmed(s: Seq<char>) -> Seq<char> {
    trim_end_spec(trim_start_spec(s))
}

/// The pieces of `s` between occurrences of `sep`, as `str::split` yields
/// them: always at least one piece, and an empty piece for each empty gap.
pub open spec fn split_on(s: Seq<char>, sep: char) -> Seq<Seq<char>>
    decreases s.len(),
{
    if s.len() == 0 {
        seq![Seq::<char>::empty()]
    } else if s[0] == sep {
        seq![Seq::<char>::empty()] + split_on(s.drop_first(), sep)
    } else {
        let rest = split_on(s.drop_first(), sep);
        seq![seq![s[0]] + rest[0]] + rest.drop_first()
    }
}

/// Splitting yields at least one piece.
pub proof fn lemma_split_on_nonempty(s: Seq<char>, sep: char)
    ensures
        split_on(s, sep).len() >= 1,
    decreases s.len(),
{
    if s.len() > 0 {
        lemma_split_on_nonempty(s.drop_first(), sep);
    }
}

/// A sequence without the separator splits into itself alone.
pub proof fn lemma_split_on_no_sep(s: Seq<char>, sep: char)
    requires
        forall|i: int| 0 <= i < s.len() ==> s[i] != sep,
    ensures
        split_on(s, sep) =~~= seq![s],
    decreases s.len(),
{
    if s.len() == 0 {
        assert(s =~= Seq::<char>::empty());
    } else {
        lemma_split_on_no_sep(s.drop_first(), sep);
        assert(seq![s[0]] + s.drop_first() =~= s);
    }
}

/// Splitting at the first separator: the prefix before it is the first
/// piece, and the remainder after it splits into the remaining pieces.
pub proof fn lemma_split_on_first_sep(s: Seq<char>, sep: char, j: int)
    requires
        0 <= j < s.len(),
        s[j] == sep,
        forall|i: int| 0 <= i < j ==> s[i] != sep,
    ensures
        split_on(s, sep) =~~= seq![s.subrange(0, j)] + split_on(
            s.subrange(j + 1, s.len() as int),
            sep,
        ),
    decreases j,
{
    if j == 0 {
        assert(s.subrange(0, 0) =~= Seq::<char>::empty());
        assert(s.subrange(1, s.len() as int) =~= s.drop_first());
    } else {
        let s1 = s.drop_first();
        lemma_split_on_first_sep(s1, sep, j - 1);
        lemma_split_on_nonempty(s1.subrange(j, s1.len() as int), sep);
        assert(seq![s[0]] + s1.subrange(0, j - 1) =~= s.subrange(0, j));
        assert(s1.subrange(j, s1.len() as int) =~= s.subrange(j + 1, s.len() as int));
    }
}

/// When every character before `a` is whitespace and `a` is either the end
/// or a non-whitespace position, trimming the start keeps exactly the
/// suffix from `a` on.
proof fn lemma_trim_start_at(s: Seq<char>, a: int)
    requires
        0 <= a <= s.len(),
        forall|i: int| 0 <= i < a ==> is_space_char(s[i]),
        a == s.len() || !is_space_char(s[a]),
    ensures
        trim_start_spec(s) =~= s.subrange(a, s.len() as int),
    decreases a,
{
    if a == 0 {
        assert(s.subrange(0, s.len() as int) =~= s);
    } else {
        lemma_trim_start_at(s.drop_first(), a - 1);
        assert(s.drop_first().subrange(a - 1, s.drop_first().len() as int) =~= s.subrange(
            a,
            s.len() as int,
        ));
    }
}

/// When every character from `b` on is whitespace and `b` is either the
/// start or follows a non-whitespace position, trimming the end keeps
/// exactly the prefix up to `b`.
proof fn lemma_trim_end_at(s: Seq<char>, b: int)
    requires
        0 <= b <= s.len(),
        forall|i: int| b <= i < s.len() ==> is_space_char(s[i]),
        b == 0 || !is_space_char(s[b - 1]),
    ensures
        trim_end_spec(s) =~= s.subrange(0, b),
    decreases s.len() - b,
{
    if b == s.len() {
        assert(s.subrange(0, s.len() as int) =~= s);
    } else {
        lemma_trim_end_at(s.drop_last(), b);
        assert(s.drop_last().subrange(0, b) =~= s.subrange(0, b));
    }
}

/// Index of the first occurrence of `sep` in `s`, if any.
fn first_sep_index(s: &str, sep: char) -> (r: Option<usize>)
    ensures
        match r {
            Some(j) => {
                &&& j < s@.len()
                &&& s@[j as int] == sep
                &&& forall|i: int| 0 <= i < j ==> s@[i] != sep
            },
            None => forall|i: int| 0 <= i < s@.len() ==> s@[i] != sep,
        },
{
    let n = s.unicode_len();
    let mut k: usize = 0;
    while k < n
        invariant
            n == s@.len(),
            k <= n,
            forall|i: int| 0 <= i < k ==> s@[i] != sep,
        decreases n - k,
    {
        if s.get_char(k) == sep {
            return Some(k);
        }
        k = k + 1;
    }
    None
}

/// The pieces of `s` between occurrences of `sep`, in order.
pub fn split_on_exec(s: &str, sep: char) -> (pieces: Vec<String>)
    ensures
        pieces.deep_view() == split_on(s@, sep),
    decreases s@.len(),
{
    match first_sep_index(s, sep) {
        None => {
            proof {
                lemma_split_on_no_sep(s@, sep);
            }
            let mut pieces: Vec<String> = Vec::new();
            pieces.push(s.to_owned());
            pieces
        },
        Some(j) => {
            let n = s.unicode_len();
            let head = s.substring_char(0, j);
            let tail = s.substring_char(j + 1, n);
            let mut pieces = split_on_exec(tail, sep);
            proof {
                lemma_split_on_first_sep(s@, sep, j as int);
            }
            pieces.insert(0, head.to_owned());
            pieces
        },
    }
}

/// A non-empty start-trimmed sequence does not begin with whitespace.
proof fn lemma_trim_start_no_leading(s: Seq<char>)
    ensures
        trim_start_spec(s).len() > 0 ==> !is_space_char(trim_start_spec(s)[0]),
    decreases s.len(),
{
    if s.len() > 0 && is_space_char(s[0]) {
        lemma_trim_start_no_leading(s.drop_first());
    }
}

/// A non-empty end-trimmed sequence does not end with whitespace.
proof fn lemma_trim_end_no_trailing(s: Seq<char>)
    ensures
        trim_end_spec(s).len() > 0 ==> !is_space_char(trim_end_spec(s).last()),
    decreases s.len(),
{
    if s.len() > 0 && is_space_char(s.last()) {
        lemma_trim_end_no_trailing(s.drop_last());
    }
}

/// Trimming the end keeps a prefix of the sequence.
proof fn lemma_trim_end_is_prefix(s: Seq<char>)
    ensures
        trim_end_spec(s).len() <= s.len(),
        trim_end_spec(s) =~= s.subrange(0, trim_end_spec(s).len() as int),
    decreases s.len(),
{
    if s.len() > 0 && is_space_char(s.last()) {
        lemma_trim_end_is_prefix(s.drop_last());
        assert(s.drop_last().subrange(0, trim_end_spec(s).len() as int) =~= s.subrange(
            0,
            trim_end_spec(s).len() as int,
        ));
    }
}

/// Trimming is idempotent.
pub proof fn lemma_trimmed_idempotent(s: Seq<char>)
    ensures
        trimmed(trimmed(s)) == trimmed(s),
{
    let m = trim_start_spec(s);
    let t = trimmed(s);
    lemma_trim_start_no_leading(s);
    lemma_trim_end_no_trailing(m);
    lemma_trim_end_is_prefix(m);
    if t.len() > 0 {
        assert(t[0] == m[0]);
        assert(trim_start_spec(t) == t);
        assert(trim_end_spec(t) == t);
    } else {
        assert(trim_start_spec(t) == t);
        assert(trim_end_spec(t) == t);
    }
}

/// Every kept target is non-empty and already trimmed.
proof fn lemma_kept_targets_wf(pieces: Seq<Seq<char>>)
    ensures
        forall|i: int|
            0 <= i < kept_targets(pieces).len() ==> {
                &&& (#[trigger] kept_targets(pieces)[i]).len() > 0
                &&& trimmed(kept_targets(pieces)[i]) == kept_targets(pieces)[i]
            },
    decreases pieces.len(),
{
    if pieces.len() > 0 {
        lemma_kept_targets_wf(pieces.drop_first());
        lemma_trimmed_idempotent(pieces[0]);
        let t = trimmed(pieces[0]);
        let rest = kept_targets(pieces.drop_first());
        if t.len() > 0 {
            assert(kept_targets(pieces) == seq![t] + rest);
            assert forall|i: int| 0 <= i < kept_targets(pieces).len() implies {
                &&& (#[trigger] kept_targets(pieces)[i]).len() > 0
                &&& trimmed(kept_targets(pieces)[i]) == kept_targets(pieces)[i]
            } by {
                if i == 0 {
                    assert(kept_targets(pieces)[0] == t);
                } else {
                    assert(kept_targets(pieces)[i] == rest[i - 1]);
                }
            }
        } else {
            assert(kept_targets(pieces) == rest);
        }
    }
}

/// Every target of a delimited input is non-empty and already trimmed.
pub proof fn lemma_target_list_wf(s: Seq<char>)
    ensures
        forall|i: int|
            0 <= i < target_list(s).len() ==> {
                &&& (#[trigger] target_list(s)[i]).len() > 0
                &&& trimmed(target_list(s)[i]) == target_list(s)[i]
            },
{
    lemma_kept_targets_wf(split_on(s, ','));
}

/// An input that holds nothing but whitespace yields no targets at all.
pub proof fn lemma_all_space_no_targets(s: Seq<char>)
    requires
        forall|i: int| 0 <= i < s.len() ==> is_space_char(#[trigger] s[i]),
    ensures
        target_list(s).len() == 0,
{
    assert(forall|i: int| 0 <= i < s.len() ==> s[i] != ',');
    lemma_split_on_no_sep(s, ',');
    lemma_trim_start_at(s, s.len() as int);
    assert(s.subrange(s.len() as int, s.len() as int) =~= Seq::<char>::empty());
    assert(trimmed(s).len() == 0);
    assert(kept_targets(seq![s].drop_first()) =~= Seq::<Seq<char>>::empty());
}

/// Whether `c` is whitespace that trimming removes.
fn is_space_exec(c: char) -> (b: bool)
    ensures
        b == is_space_char(c),
{
    c == ' ' || c == '\t' || c == '\n' || c == '\r'
}

/// Index of the first non-whitespace character, or the length if none.
fn first_non_space(s: &str) -> (a: usize)
    ensures
        a <= s@.len(),
        forall|i: int| 0 <= i < a ==> is_space_char(s@[i]),
        a == s@.len() || !is_space_char(s@[a as int]),
{
    let n = s.unicode_len();
    let mut k: usize = 0;
    while k < n
        invariant
            n == s@.len(),
            k <= n,
            forall|i: int| 0 <= i < k ==> is_space_char(s@[i]),
        decreases n - k,
    {
        if !is_space_exec(s.get_char(k)) {
            return k;
        }
        k = k + 1;
    }
    n
}

/// One past the last non-whitespace character, or zero if none.
fn last_non_space_end(s: &str) -> (b: usize)
    ensures
        b <= s@.len(),
        forall|i: int| b <= i < s@.len() ==> is_space_char(s@[i]),
        b == 0 || !is_space_char(s@[b - 1]),
{
    let n = s.unicode_len();
    let mut k: usize = n;
    while k > 0
        invariant
            n == s@.len(),
            k <= n,
            forall|i: int| k <= i < n ==> is_space_char(s@[i]),
        decreases k,
    {
        if !is_space_exec(s.get_char(k - 1)) {
            return k;
        }
        k = k - 1;
    }
    0
}

/// `s` with whitespace removed from both ends.
pub fn trim_exec(s: &str) -> (t: String)
    ensures
        t@ == trimmed(s@),
{
    let a = first_non_space(s);
    let b = last_non_space_end(s);
    if a >= b {
        proof {
            lemma_trim_start_at(s@, s@.len() as int);
            assert(s@.subrange(s@.len() as int, s@.len() as int) =~= Seq::<char>::empty());
        }
        String::new()
    } else {
        let t = s.substring_char(a, b);
        proof {
            lemma_trim_start_at(s@, a as int);
            let mid = s@.subrange(a as int, s@.len() as int);
            lemma_trim_end_at(mid, b - a);
            assert(mid.subrange(0, b - a) =~= s@.subrange(a as int, b as int));
        }
        t.to_owned()
    }
}

/// The trimmed, non-empty pieces, in order.
pub open spec fn kept_targets(pieces: Seq<Seq<char>>) -> Seq<Seq<char>>
    decreases pieces.len(),
{
    if pieces.len() == 0 {
        Seq::<Seq<char>>::empty()
    } else {
        let t = trimmed(pieces[0]);
        let rest = kept_targets(pieces.drop_first());
        if t.len() > 0 {
            seq![t] + rest
        } else {
            rest
        }
    }
}

/// The target identifiers of a delimited input: each comma-separated piece,
/// trimmed, with empty pieces dropped, in input order.
pub open spec fn target_list(s: Seq<char>) -> Seq<Seq<char>> {
    kept_targets(split_on(s, ','))
}

/// The targets of a delimited input, in order.
pub fn parse_targets(raw: &str) -> (targets: Vec<String>)
    ensures
        targets.deep_view() == target_list(raw@),
{
    let pieces = split_on_exec(raw, ',');
    let mut targets: Vec<String> = Vec::new();
    proof {
        assert(targets.deep_view() =~= Seq::<Seq<char>>::empty());
        assert(pieces.deep_view().skip(0) =~= pieces.deep_view());
        assert(Seq::<Seq<char>>::empty() + kept_targets(pieces.deep_view()) =~~= kept_targets(
            pieces.deep_view(),
        ));
    }
    let mut k: usize = 0;
    while k < pieces.len()
        invariant
            k <= pieces@.len(),
            pieces.deep_view() =~~= split_on(raw@, ','),
            targets.deep_view() + kept_targets(pieces.deep_view().skip(k as int)) =~~= target_list(
                raw@,
            ),
        decreases pieces@.len() - k,
    {
        let t = trim_exec(pieces[k].as_str());
        proof {
            let pv = pieces.deep_view();
            assert(pv.skip(k as int).drop_first() =~= pv.skip(k + 1));
            assert(pv.skip(k as int)[0] == pv[k as int]);
        }
        if !t.as_str().is_empty() {
            let ghost old_targets = targets.deep_view();
            targets.push(t);
            proof {
                assert(targets.deep_view() =~~= old_targets + seq![trimmed(
                    pieces.deep_view()[k as int],
                )]);
            }
        }
        k = k + 1;
    }
    proof {
        assert(pieces.deep_view().skip(pieces@.len() as int) =~= Seq::<Seq<char>>::empty());
    }
    targets
}

} // verus!
